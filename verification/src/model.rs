//! The stored shape of a post, and the bridges between it and the canonical
//! `Entry`: loading a stored row back into an entry for read-back queries,
//! and snapshotting a row into the append-only history.

use vstd::prelude::*;

use crate::entry::{ContentFormat, Entry, EntryV, Photo, PhotoV, catseq, ev, ov, phseq};

verus! {

broadcast use vstd::std_specs::vec::group_vec_axioms, vstd::seq::group_seq_axioms;

/// One stored post row.
#[derive(Clone, Debug, PartialEq)]
pub struct Post {
    pub id: i32,
    pub slug: String,
    pub entry_type: String,
    pub name: Option<String>,
    pub content: Option<String>,
    pub client_id: Option<String>,
    pub created_at: String,
    pub updated_at: String,
    pub content_type: Option<String>,
    pub bookmark_of: Option<String>,
}

/// The model of a stored post row.
pub struct PostV {
    pub id: i32,
    pub slug: Seq<char>,
    pub entry_type: Seq<char>,
    pub name: Option<Seq<char>>,
    pub content: Option<Seq<char>>,
    pub client_id: Option<Seq<char>>,
    pub created_at: Seq<char>,
    pub updated_at: Seq<char>,
    pub content_type: Option<Seq<char>>,
    pub bookmark_of: Option<Seq<char>>,
}

/// The model of a post row.
pub open spec fn postv(p: Post) -> PostV {
    PostV {
        id: p.id,
        slug: p.slug@,
        entry_type: p.entry_type@,
        name: ov(p.name),
        content: ov(p.content),
        client_id: ov(p.client_id),
        created_at: p.created_at@,
        updated_at: p.updated_at@,
        content_type: ov(p.content_type),
        bookmark_of: ov(p.bookmark_of),
    }
}

/// The content format a stored format column stands for; anything but
/// `html` or `markdown` is read as plain text.
pub open spec fn fmt_of(ct: Option<Seq<char>>) -> Option<ContentFormat> {
    match ct {
        Option::Some(s) => if s == "html"@ {
            Option::Some(ContentFormat::Html)
        } else if s == "markdown"@ {
            Option::Some(ContentFormat::Markdown)
        } else {
            Option::None
        },
        Option::None => Option::None,
    }
}

/// The models of stored photo rows.
pub open spec fn photo_rows(ps: Seq<(String, Option<String>)>) -> Seq<PhotoV> {
    Seq::new(ps.len(), |i: int| PhotoV { url: ps[i].0@, alt: ov(ps[i].1) })
}

/// What loading a stored row back into an entry yields: the row's fields,
/// the stored categories and photos, an empty content for a row without
/// one, and a photo list only when there are photo rows.
pub open spec fn spec_from_post(
    p: PostV,
    cats: Seq<Seq<char>>,
    photos: Seq<PhotoV>,
) -> EntryV {
    EntryV {
        access_token: Option::None,
        kind: p.entry_type,
        content: match p.content {
            Option::Some(c) => c,
            Option::None => Seq::empty(),
        },
        content_format: fmt_of(p.content_type),
        title: p.name,
        categories: cats,
        created_at: Option::Some(p.created_at),
        updated_at: Option::Some(p.updated_at),
        slug: Option::Some(p.slug),
        bookmark_of: p.bookmark_of,
        photos: if photos.len() > 0 {
            Option::Some(photos)
        } else {
            Option::None
        },
    }
}

impl Entry {
    /// Loads a stored row, its categories and its photo rows back into the
    /// canonical entry, for source read-back queries.
    pub fn from_post(p: &Post, categories: &Vec<String>, photos: &Vec<(String, Option<String>)>)
        -> (r: Entry)
        ensures
            ev(r) == spec_from_post(postv(*p), catseq(categories@), photo_rows(photos@)),
    {
        let content_format = match &p.content_type {
            Some(ct) => {
                if crate::text::str_eq(ct.as_str(), "html") {
                    Some(ContentFormat::Html)
                } else if crate::text::str_eq(ct.as_str(), "markdown") {
                    Some(ContentFormat::Markdown)
                } else {
                    None
                }
            },
            None => None,
        };
        let photos_out: Option<Vec<Photo>> = if photos.len() > 0 {
            let mut out: Vec<Photo> = Vec::new();
            let mut i: usize = 0;
            while i < photos.len()
                invariant
                    i <= photos@.len(),
                    phseq(out@) == photo_rows(photos@).subrange(0, i as int),
                decreases photos@.len() - i,
            {
                let ghost prev = out@;
                let alt = match &photos[i].1 {
                    Some(a) => Some(a.clone()),
                    None => None,
                };
                out.push(Photo { url: photos[i].0.clone(), alt });
                proof {
                    assert(phseq(out@) =~= phseq(prev).push(
                        PhotoV { url: photos@[i as int].0@, alt: ov(photos@[i as int].1) },
                    ));
                    assert(photo_rows(photos@).subrange(0, i + 1) =~= photo_rows(
                        photos@,
                    ).subrange(0, i as int).push(photo_rows(photos@)[i as int]));
                }
                i = i + 1;
            }
            proof {
                assert(photo_rows(photos@).subrange(0, photos@.len() as int) =~= photo_rows(
                    photos@,
                ));
            }
            Some(out)
        } else {
            None
        };
        let mut cats: Vec<String> = Vec::new();
        let mut i: usize = 0;
        while i < categories.len()
            invariant
                i <= categories@.len(),
                catseq(cats@) == catseq(categories@).subrange(0, i as int),
            decreases categories@.len() - i,
        {
            let ghost prev = cats@;
            cats.push(categories[i].clone());
            proof {
                assert(catseq(cats@) =~= catseq(prev).push(categories@[i as int]@));
                assert(catseq(categories@).subrange(0, i + 1) =~= catseq(categories@).subrange(
                    0,
                    i as int,
                ).push(catseq(categories@)[i as int]));
            }
            i = i + 1;
        }
        proof {
            assert(catseq(categories@).subrange(0, categories@.len() as int) =~= catseq(
                categories@,
            ));
        }
        let r = Entry {
            access_token: None,
            kind: p.entry_type.clone(),
            content: match &p.content {
                Some(c) => c.clone(),
                None => String::new(),
            },
            content_format,
            title: match &p.name {
                Some(n) => Some(n.clone()),
                None => None,
            },
            categories: cats,
            created_at: Some(p.created_at.clone()),
            updated_at: Some(p.updated_at.clone()),
            slug: Some(p.slug.clone()),
            bookmark_of: match &p.bookmark_of {
                Some(b) => Some(b.clone()),
                None => None,
            },
            photos: photos_out,
        };
        proof {
            assert(ev(r) =~= spec_from_post(postv(*p), catseq(categories@), photo_rows(photos@)));
        }
        r
    }
}

/// One history row: the snapshot of a post taken before an update commits.
#[derive(Clone, Debug, PartialEq)]
pub struct NewPostHistory {
    pub post_id: i32,
    pub slug: String,
    pub entry_type: String,
    pub name: Option<String>,
    pub content: Option<String>,
    pub client_id: Option<String>,
    pub created_at: String,
    pub updated_at: String,
    pub content_type: Option<String>,
    pub bookmark_of: Option<String>,
}

impl From<Post> for NewPostHistory {
    /// Snapshots a post row, field for field, before an update.
    fn from(post: Post) -> (r: Self) {
        Self {
            post_id: post.id,
            slug: post.slug,
            entry_type: post.entry_type,
            name: post.name,
            content: post.content,
            client_id: post.client_id,
            created_at: post.created_at,
            updated_at: post.updated_at,
            content_type: post.content_type,
            bookmark_of: post.bookmark_of,
        }
    }
}

impl vstd::std_specs::convert::FromSpecImpl<Post> for NewPostHistory {
    open spec fn obeys_from_spec() -> bool {
        true
    }

    open spec fn from_spec(post: Post) -> Self {
        NewPostHistory {
            post_id: post.id,
            slug: post.slug,
            entry_type: post.entry_type,
            name: post.name,
            content: post.content,
            client_id: post.client_id,
            created_at: post.created_at,
            updated_at: post.updated_at,
            content_type: post.content_type,
            bookmark_of: post.bookmark_of,
        }
    }
}

} // verus!
