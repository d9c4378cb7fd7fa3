//! The content engine of a Micropub publishing backend.
//!
//! Micropub clients submit posts as loosely-typed microformats2 documents,
//! in JSON or form-encoded shape. This library normalizes those documents
//! into one canonical `Entry`, serializes entries back into mf2 JSON for
//! read-back queries, derives URL slugs for new posts, and applies the
//! protocol's replace/add/delete update directives — each step with a
//! verified contract, and the laws the engine obeys proved in `laws`.
//!
//! The web server around it — routing, storage, templates, the auth call —
//! lives outside the library and consumes these functions on plain values.

pub mod auth;
pub mod config;
pub mod entry;
pub mod errors;
pub mod json;
pub mod laws;
pub mod media;
pub mod micropub;
pub mod model;
pub mod normalize;
pub mod serialize;
pub mod slug;
pub mod text;
pub mod update;
pub mod view_models;

use vstd::prelude::*;

verus! {

/// Largest request body the media endpoint accepts, in bytes.
pub const DEFAULT_MAX_CONTENT_LENGTH: usize = 1024 * 1024 * 50;

/// The upload bound used when the configuration names none.
pub fn default_max_upload_length() -> (r: usize)
    ensures
        r == DEFAULT_MAX_CONTENT_LENGTH,
{
    DEFAULT_MAX_CONTENT_LENGTH
}

} // verus!
