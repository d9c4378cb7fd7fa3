//! The canonical in-memory form of one post.
//!
//! Wire documents arrive in many shapes; after decoding they all become an
//! `Entry`. The `EntryV` structures are the mathematical models the contracts
//! speak of.

use vstd::prelude::*;

verus! {

/// How the content of an entry is to be interpreted. A plain-text entry
/// carries no format at all.
#[derive(Clone, Copy, Debug, PartialEq, Eq, Structural)]
pub enum ContentFormat {
    Html,
    Markdown,
}

/// One photo attached to an entry.
#[derive(Clone, Debug, PartialEq)]
pub struct Photo {
    pub url: String,
    pub alt: Option<String>,
}

/// The model of a `Photo`.
#[verifier::ext_equal]
pub struct PhotoV {
    pub url: Seq<char>,
    pub alt: Option<Seq<char>>,
}

/// The canonical, typed form of one post, independent of wire shape.
#[derive(Clone, Debug, PartialEq)]
pub struct Entry {
    /// Access token found inline in the body, in place of an auth header.
    pub access_token: Option<String>,
    /// The entry type, with the `h-` prefix stripped: `entry`, `food`, ...
    pub kind: String,
    /// The text content; the one field whose absence fails a decode.
    pub content: String,
    /// `None` for plain text.
    pub content_format: Option<ContentFormat>,
    /// Name of the entry; notes carry none.
    pub title: Option<String>,
    /// Categories in submission order; duplicates are kept.
    pub categories: Vec<String>,
    pub created_at: Option<String>,
    pub updated_at: Option<String>,
    /// Caller-chosen URL path segment.
    pub slug: Option<String>,
    /// Set when the entry bookmarks a URL.
    pub bookmark_of: Option<String>,
    pub photos: Option<Vec<Photo>>,
}

/// The model of an `Entry`.
#[verifier::ext_equal]
pub struct EntryV {
    pub access_token: Option<Seq<char>>,
    pub kind: Seq<char>,
    pub content: Seq<char>,
    pub content_format: Option<ContentFormat>,
    pub title: Option<Seq<char>>,
    pub categories: Seq<Seq<char>>,
    pub created_at: Option<Seq<char>>,
    pub updated_at: Option<Seq<char>>,
    pub slug: Option<Seq<char>>,
    pub bookmark_of: Option<Seq<char>>,
    pub photos: Option<Seq<PhotoV>>,
}

/// The model of an optional string.
pub open spec fn ov(o: Option<String>) -> Option<Seq<char>> {
    match o {
        Option::None => Option::None,
        Option::Some(s) => Option::Some(s@),
    }
}

/// The model of a photo.
pub open spec fn phv(p: Photo) -> PhotoV {
    PhotoV { url: p.url@, alt: ov(p.alt) }
}

/// The models of a photo list.
pub open spec fn phseq(ps: Seq<Photo>) -> Seq<PhotoV> {
    Seq::new(ps.len(), |i: int| phv(ps[i]))
}

/// The models of a category list.
pub open spec fn catseq(cs: Seq<String>) -> Seq<Seq<char>> {
    Seq::new(cs.len(), |i: int| cs[i]@)
}

/// The model of an entry.
pub open spec fn ev(e: Entry) -> EntryV {
    EntryV {
        access_token: ov(e.access_token),
        kind: e.kind@,
        content: e.content@,
        content_format: e.content_format,
        title: ov(e.title),
        categories: catseq(e.categories@),
        created_at: ov(e.created_at),
        updated_at: ov(e.updated_at),
        slug: ov(e.slug),
        bookmark_of: ov(e.bookmark_of),
        photos: match e.photos {
            Option::None => Option::None,
            Option::Some(ps) => Option::Some(phseq(ps@)),
        },
    }
}

} // verus!
