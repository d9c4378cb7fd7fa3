//! The post lifecycle orchestrator's decisions, as pure functions: which of
//! create and update a request asks for, what a create must persist, which
//! slug a source query names, and how a stored timestamp is read. The web
//! layer performs the I/O around these and hands back plain values.

use vstd::prelude::*;

use crate::entry::{Entry, EntryV, ev};
use crate::json::{JsonV, JsonValue, jget, json_doc_of, parse_json};
use crate::normalize::{DecodeError, form_fields_of, spec_decode_doc, spec_decode_form};
use crate::slug::{Timestamp, get_slug, spec_get_slug};
use crate::text::{
    contains_substr, lower, spec_contains_seq, spec_starts_with, starts_with, str_eq,
    to_lowercase,
};
use crate::update::{
    UpdateDirective, UpdateDirectiveV, UpdateError, parse_update_directive, spec_parse_update, udv,
};

verus! {

broadcast use vstd::seq::group_seq_axioms;

/// Why a post request was refused before any persistence work.
#[derive(Clone, Copy, Debug, PartialEq, Eq, Structural)]
pub enum MicropubError {
    Decode(DecodeError),
    Update(UpdateError),
}

/// What a post request asks for: a creation with its entry and slug, or an
/// update directive.
pub enum PostAction {
    Create(Entry, String),
    Update(UpdateDirective),
}

/// The model of a post action.
pub enum PostActionV {
    Create(EntryV, Seq<char>),
    Update(UpdateDirectiveV),
}

/// Whether the content type names JSON anywhere: the update probe.
pub open spec fn spec_json_probe(ct: Option<Seq<char>>) -> bool {
    match ct {
        Option::Some(c) => spec_contains_seq(lower(c), "application/json"@),
        Option::None => false,
    }
}

/// Whether the content type starts with JSON: the create decoder choice; a
/// missing content type is read as form-encoded.
pub open spec fn spec_json_create(ct: Option<Seq<char>>) -> bool {
    match ct {
        Option::Some(c) => spec_starts_with(lower(c), "application/json"@),
        Option::None => false,
    }
}

/// The parsed body, when it is a JSON object that asks for an update.
pub open spec fn spec_update_doc(bytes: Seq<u8>) -> Option<JsonV> {
    match json_doc_of(bytes) {
        Option::Some(d) => match d {
            JsonV::Obj(fs) => if jget(fs, "action"@) == Option::Some(JsonV::Str("update"@)) {
                Option::Some(d)
            } else {
                Option::None
            },
            _ => Option::None,
        },
        Option::None => Option::None,
    }
}

/// What a create request persists: the decoded entry, and its slug — the
/// caller's when one was supplied, else the one derived from the title and
/// the moment of the request.
pub open spec fn spec_create(ct: Option<Seq<char>>, bytes: Seq<u8>, now: Timestamp) -> Result<
    (EntryV, Seq<char>),
    DecodeError,
> {
    let decoded = if spec_json_create(ct) {
        match json_doc_of(bytes) {
            Option::None => Result::Err(DecodeError::Parse),
            Option::Some(d) => spec_decode_doc(d),
        }
    } else {
        spec_decode_form(form_fields_of(bytes))
    };
    match decoded {
        Result::Err(e) => Result::Err(e),
        Result::Ok(e) => Result::Ok(
            (
                e,
                match e.slug {
                    Option::Some(s) => s,
                    Option::None => spec_get_slug(e.title, now),
                },
            ),
        ),
    }
}

/// What a post request asks for: an update, when the content type names
/// JSON and the body is a JSON object whose `action` is `update`; else a
/// creation, decoded as JSON or as a form by the content type.
pub open spec fn spec_route_post(
    ct: Option<Seq<char>>,
    bytes: Seq<u8>,
    host: Seq<char>,
    now: Timestamp,
) -> Result<PostActionV, MicropubError> {
    if spec_json_probe(ct) && spec_update_doc(bytes) is Some {
        match spec_parse_update(spec_update_doc(bytes)->0, host) {
            Result::Ok(dv) => Result::Ok(PostActionV::Update(dv)),
            Result::Err(e) => Result::Err(MicropubError::Update(e)),
        }
    } else {
        match spec_create(ct, bytes, now) {
            Result::Ok(p) => Result::Ok(PostActionV::Create(p.0, p.1)),
            Result::Err(e) => Result::Err(MicropubError::Decode(e)),
        }
    }
}

/// Decodes a create request and settles its slug.
pub fn create_post_action(content_type: Option<&str>, body: &[u8], now: &Timestamp) -> (r: Result<
    (Entry, String),
    DecodeError,
>)
    ensures
        ({
            let ctv = match content_type {
                Option::Some(c) => Option::Some(c@),
                Option::None => Option::None,
            };
            match r {
                Result::Ok(p) => spec_create(ctv, body@, *now) == Result::<
                    (EntryV, Seq<char>),
                    DecodeError,
                >::Ok((ev(p.0), p.1@)),
                Result::Err(e) => spec_create(ctv, body@, *now) == Result::<
                    (EntryV, Seq<char>),
                    DecodeError,
                >::Err(e),
            }
        }),
{
    let is_json = match content_type {
        Some(c) => {
            let lowered = to_lowercase(c);
            starts_with(lowered.as_str(), "application/json")
        },
        None => false,
    };
    let decoded = if is_json {
        Entry::from_json_bytes(body)
    } else {
        Entry::from_form_bytes(body)
    };
    match decoded {
        Err(e) => Err(e),
        Ok(e) => {
            let slug = match &e.slug {
                Some(s) => s.clone(),
                None => {
                    let title = match &e.title {
                        Some(t) => Some(t.as_str()),
                        None => None,
                    };
                    get_slug(title, now)
                },
            };
            Ok((e, slug))
        },
    }
}

/// Routes one post request: an update directive, or a creation with its
/// entry and slug.
pub fn route_post(content_type: Option<&str>, body: &[u8], host: &str, now: &Timestamp) -> (r:
    Result<PostAction, MicropubError>)
    ensures
        ({
            let ctv = match content_type {
                Option::Some(c) => Option::Some(c@),
                Option::None => Option::None,
            };
            match r {
                Result::Ok(PostAction::Create(e, s)) => spec_route_post(ctv, body@, host@, *now)
                    == Result::<PostActionV, MicropubError>::Ok(
                    PostActionV::Create(ev(e), s@),
                ),
                Result::Ok(PostAction::Update(d)) => spec_route_post(ctv, body@, host@, *now)
                    == Result::<PostActionV, MicropubError>::Ok(PostActionV::Update(udv(d))),
                Result::Err(e) => spec_route_post(ctv, body@, host@, *now) == Result::<
                    PostActionV,
                    MicropubError,
                >::Err(e),
            }
        }),
{
    let probe = match content_type {
        Some(c) => {
            let lowered = to_lowercase(c);
            contains_substr(lowered.as_str(), "application/json")
        },
        None => false,
    };
    if probe {
        match parse_json(body) {
            Some(doc) => {
                let is_update = match &doc {
                    JsonValue::Obj(fs) => {
                        match crate::json::obj_get(fs, "action") {
                            Some(JsonValue::Str(a)) => str_eq(a.as_str(), "update"),
                            Some(_) | None => false,
                        }
                    },
                    _ => false,
                };
                if is_update {
                    match parse_update_directive(&doc, host) {
                        Ok(d) => {
                            return Ok(PostAction::Update(d));
                        },
                        Err(e) => {
                            return Err(MicropubError::Update(e));
                        },
                    }
                }
            },
            None => {},
        }
    }
    match create_post_action(content_type, body, now) {
        Ok(p) => Ok(PostAction::Create(p.0, p.1)),
        Err(e) => Err(MicropubError::Decode(e)),
    }
}

/// What percent-decoding a query's `url` yields, or nothing when the bytes
/// are not well-formed. The result depends on the characters alone.
pub uninterp spec fn urldecoded_of(s: Seq<char>) -> Option<Seq<char>>;

/// Relies on urlencoding::decode: the decoded text is a function of the
/// input alone.
#[verifier::external_body]
fn url_decode(s: &str) -> (r: Option<String>)
    ensures
        match r {
            Option::Some(d) => urldecoded_of(s@) == Option::Some(d@),
            Option::None => urldecoded_of(s@) is None,
        },
{
    match urlencoding::decode(s) {
        Ok(c) => Some(c.into_owned()),
        Err(_) => None,
    }
}

/// Why a source query names no post.
#[derive(Clone, Copy, Debug, PartialEq, Eq, Structural)]
pub enum QueryError {
    /// The `url` does not percent-decode.
    BadUrl,
    /// The decoded `url` lies outside the site.
    OutsideSite,
}

/// The slug a source query's `url` names: the percent-decoded url with the
/// site prefix stripped.
pub open spec fn spec_source_query_slug(url: Seq<char>, host: Seq<char>) -> Result<
    Seq<char>,
    QueryError,
> {
    match urldecoded_of(url) {
        Option::None => Result::Err(QueryError::BadUrl),
        Option::Some(d) => if spec_starts_with(d, host) {
            Result::Ok(d.skip(host.len() as int))
        } else {
            Result::Err(QueryError::OutsideSite)
        },
    }
}

/// Resolves the slug a source query asks to read back.
pub fn source_query_slug(url: &str, host: &str) -> (r: Result<String, QueryError>)
    ensures
        match r {
            Result::Ok(s) => spec_source_query_slug(url@, host@) == Result::<
                Seq<char>,
                QueryError,
            >::Ok(s@),
            Result::Err(e) => spec_source_query_slug(url@, host@) == Result::<
                Seq<char>,
                QueryError,
            >::Err(e),
        },
{
    match url_decode(url) {
        None => Err(QueryError::BadUrl),
        Some(d) => {
            if starts_with(d.as_str(), host) {
                let dl = d.as_str().unicode_len();
                let hl = host.unicode_len();
                let slug = String::from_str(d.as_str().substring_char(hl, dl));
                proof {
                    assert(d@.subrange(host@.len() as int, d@.len() as int) =~= d@.skip(
                        host@.len() as int,
                    ));
                }
                Ok(slug)
            } else {
                Err(QueryError::OutsideSite)
            }
        },
    }
}

} // verus!
