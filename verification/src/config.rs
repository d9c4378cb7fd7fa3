//! The site's configuration as plain values, threaded through the
//! orchestrator instead of module-level constants. The time zone stands here
//! as an offset in seconds east of UTC; the web layer owns the clock.

use vstd::prelude::*;

verus! {

/// Where tokens are verified when the configuration names nothing.
pub fn default_auth_token_endpoint() -> (r: String)
    ensures
        r@ == "https://tokens.indieauth.com/token"@,
{
    String::from_str("https://tokens.indieauth.com/token")
}

/// Where callers authenticate when the configuration names nothing.
pub fn default_auth_endpoint() -> (r: String)
    ensures
        r@ == "https://indieauth.com/auth"@,
{
    String::from_str("https://indieauth.com/auth")
}

/// The whole configuration.
#[derive(Clone, Debug, PartialEq)]
pub struct MicropubSiteConfig {
    pub blobject_store_base_uri: String,
    pub template_dir: String,
    pub database_url: String,
    pub micropub: MicropubConfig,
    pub site: SiteConfig,
}

/// What the templates need to render the site.
#[derive(Clone, Debug, PartialEq)]
pub struct SiteConfig {
    pub site_name: String,
    pub menu_items: Vec<(String, String)>,
    pub socials: Vec<String>,
}

/// The publishing endpoint's own settings.
#[derive(Clone, Debug, PartialEq)]
pub struct MicropubConfig {
    pub auth_endpoint: String,
    pub auth_token_endpoint: String,
    pub host_website: String,
    pub media_endpoint: String,
    pub media_endpoint_max_upload_length: usize,
    pub micropub_endpoint: String,
    /// Seconds east of UTC.
    pub current_timezone_offset: i32,
}

} // verus!
