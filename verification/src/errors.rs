//! The error values the handlers surface. Each knows the HTTP status code it
//! answers with; the code is a plain number here, and the web layer turns it
//! into its own status type.

use vstd::prelude::*;

verus! {

/// A storage failure: either the row was not found, or something else went
/// wrong that the caller is not told about.
#[derive(Debug)]
pub struct DBError {
    not_found: bool,
}

impl DBError {
    /// Whether this is the not-found failure.
    pub closed spec fn spec_is_not_found(&self) -> bool {
        self.not_found
    }

    /// A generic storage failure.
    pub fn new() -> (r: DBError)
        ensures
            !r.spec_is_not_found(),
    {
        DBError { not_found: false }
    }

    /// A lookup that found nothing.
    pub fn not_found() -> (r: DBError)
        ensures
            r.spec_is_not_found(),
    {
        DBError { not_found: true }
    }

    /// Whether this is the not-found failure.
    pub fn is_not_found(&self) -> (r: bool)
        ensures
            r == self.spec_is_not_found(),
    {
        self.not_found
    }

    /// The status code answered: not-found is 404, all else is opaque 500.
    pub fn status_code(&self) -> (r: u16)
        ensures
            r == if self.spec_is_not_found() {
                404u16
            } else {
                500u16
            },
    {
        if self.not_found {
            404
        } else {
            500
        }
    }
}

impl Default for DBError {
    /// The generic storage failure.
    fn default() -> (r: Self)
        ensures
            !r.spec_is_not_found(),
    {
        Self::new()
    }
}

/// A failure inside the server's own plumbing; answered with 500.
#[derive(Debug)]
pub struct ServerError;

impl ServerError {
    /// The status code answered.
    pub fn status_code(&self) -> (r: u16)
        ensures
            r == 500,
    {
        500
    }
}

/// A failure to serialize an answer; answered with 500.
#[derive(Debug)]
pub struct JSONSerializationError;

/// A failure to render a template; answered with 500.
#[derive(Debug)]
pub struct TemplateError;

impl TemplateError {
    /// The status code answered.
    pub fn status_code(&self) -> (r: u16)
        ensures
            r == 500,
    {
        500
    }
}

/// A failure of the outbound HTTP client; answered with 500.
#[derive(Debug)]
pub struct HTTPClientError;

impl HTTPClientError {
    /// The status code answered.
    pub fn status_code(&self) -> (r: u16)
        ensures
            r == 500,
    {
        500
    }
}

/// A token-verification answer that could not be read; answered with 500.
#[derive(Debug)]
pub struct ValidateResponseDeserializeError;

impl ValidateResponseDeserializeError {
    /// The status code answered.
    pub fn status_code(&self) -> (r: u16)
        ensures
            r == 500,
    {
        500
    }
}

/// A caller whose principal is not the site's; the request is refused.
#[derive(Debug)]
pub struct NotAuthorized;

/// A failure while storing uploaded media; answered with 500.
#[derive(Debug)]
pub struct MediaUploadError;

impl MediaUploadError {
    /// The status code answered.
    pub fn status_code(&self) -> (r: u16)
        ensures
            r == 500,
    {
        500
    }
}

/// A failure while fetching stored media; answered with 500.
#[derive(Debug)]
pub struct MediaFetchError;

impl MediaFetchError {
    /// The status code answered.
    pub fn status_code(&self) -> (r: u16)
        ensures
            r == 500,
    {
        500
    }
}

/// A failure while stripping metadata from media, with the tool's own words;
/// answered with 500.
#[derive(Debug)]
pub struct MediaStripError(pub &'static str);

impl MediaStripError {
    /// The status code answered.
    pub fn status_code(&self) -> (r: u16)
        ensures
            r == 500,
    {
        500
    }
}

} // verus!
