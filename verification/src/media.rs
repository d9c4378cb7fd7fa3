//! The media endpoint's one decision: which image format, if any, an
//! uploaded part's content type names, so that the upload can be stripped of
//! its metadata before it is stored.

use vstd::prelude::*;

verus! {

/// The type and subtype a content-type string parses to, or nothing when it
/// is not a well-formed mime type. What the mime parser returns depends on
/// the string alone.
pub uninterp spec fn mime_parts_of(s: Seq<char>) -> Option<(Seq<char>, Seq<char>)>;

/// Relies on str::parse::<mime::Mime> and mime::Mime's type_ and subtype:
/// whether the string parses, and the two names, depend on the string alone.
#[verifier::external_body]
fn parse_mime(s: &str) -> (r: Option<(String, String)>)
    ensures
        match r {
            Option::Some(p) => mime_parts_of(s@) == Option::Some((p.0@, p.1@)),
            Option::None => mime_parts_of(s@) is None,
        },
{
    match s.parse::<mime::Mime>() {
        Ok(m) => Some((m.type_().as_str().to_owned(), m.subtype().as_str().to_owned())),
        Err(_) => None,
    }
}

/// The image format a content type names: the subtype of an `image/...`
/// type, except the wildcard; anything else names none.
pub open spec fn spec_guess_format(ct: Option<Seq<char>>) -> Option<Seq<char>> {
    match ct {
        Option::Some(s) => match mime_parts_of(s) {
            Option::Some(p) => if p.0 == "image"@ && p.1 != "*"@ {
                Option::Some(p.1)
            } else {
                Option::None
            },
            Option::None => Option::None,
        },
        Option::None => Option::None,
    }
}

/// Names the image format of an upload's content type, when it has one.
pub fn guess_format(content_type: &Option<&str>) -> (r: Option<String>)
    ensures
        crate::entry::ov(r) == spec_guess_format(
            match *content_type {
                Option::Some(s) => Option::Some(s@),
                Option::None => Option::None,
            },
        ),
{
    match content_type {
        Some(ct) => {
            match parse_mime(ct) {
                Some(p) => {
                    if crate::text::str_eq(p.0.as_str(), "image") && !crate::text::str_eq(
                        p.1.as_str(),
                        "*",
                    ) {
                        Some(p.1)
                    } else {
                        None
                    }
                },
                None => None,
            }
        },
        None => None,
    }
}

} // verus!
