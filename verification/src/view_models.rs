//! The shapes handed to the templates: a post with its date split out, its
//! markdown rendered, and its tags and photos gathered.

use vstd::prelude::*;

use crate::entry::ov;
use crate::model::Post as DBPost;
use crate::text::{dec_digits, push_char, push_dec_padded};

verus! {

broadcast use vstd::seq::group_seq_axioms;

/// A signed number written in decimal.
pub open spec fn int_str(n: int) -> Seq<char> {
    if n < 0 {
        seq!['-'] + dec_digits((-n) as nat)
    } else {
        dec_digits(n as nat)
    }
}

/// Appends a year, which may lie before the common era.
fn push_year(out: &mut String, y: i32)
    ensures
        final(out)@ == old(out)@ + int_str(y as int),
{
    if y < 0 {
        push_char(out, '-');
        let mag: u32 = (-(y as i64)) as u32;
        push_dec_padded(out, mag, 0);
        proof {
            assert(out@ =~= old(out)@ + int_str(y as int));
        }
    } else {
        push_dec_padded(out, y as u32, 0);
        proof {
            assert(out@ =~= old(out)@ + int_str(y as int));
        }
    }
}

/// A date for the templates: the calendar parts, and the unpadded `y-m-d`
/// and `h:m:s` strings the feed identifiers use.
#[derive(Clone, Debug, PartialEq)]
pub struct Date {
    pub year: i32,
    pub month: u32,
    pub day: u32,
    pub date: String,
    pub time: String,
}

/// The `y-m-d` string of a date, unpadded.
pub open spec fn date_str(year: int, month: nat, day: nat) -> Seq<char> {
    int_str(year) + seq!['-'] + dec_digits(month) + seq!['-'] + dec_digits(day)
}

/// The `h:m:s` string of a time of day, unpadded.
pub open spec fn time_str(hour: nat, minute: nat, second: nat) -> Seq<char> {
    dec_digits(hour) + seq![':'] + dec_digits(minute) + seq![':'] + dec_digits(second)
}

impl Date {
    /// Builds the view of a point in time from its calendar parts.
    pub fn from_parts(year: i32, month: u32, day: u32, hour: u32, minute: u32, second: u32) -> (r:
        Date)
        ensures
            r.year == year,
            r.month == month,
            r.day == day,
            r.date@ == date_str(year as int, month as nat, day as nat),
            r.time@ == time_str(hour as nat, minute as nat, second as nat),
    {
        let mut date = String::new();
        push_year(&mut date, year);
        push_char(&mut date, '-');
        push_dec_padded(&mut date, month, 0);
        push_char(&mut date, '-');
        push_dec_padded(&mut date, day, 0);
        let mut time = String::new();
        push_dec_padded(&mut time, hour, 0);
        push_char(&mut time, ':');
        push_dec_padded(&mut time, minute, 0);
        push_char(&mut time, ':');
        push_dec_padded(&mut time, second, 0);
        proof {
            assert(date@ =~= date_str(year as int, month as nat, day as nat));
            assert(time@ =~= time_str(hour as nat, minute as nat, second as nat));
        }
        Date { year, month, day, date, time }
    }
}

/// One photo for the templates.
#[derive(Clone, Debug, PartialEq)]
pub struct Photo {
    pub url: String,
    pub alt: Option<String>,
}

/// What rendering a markdown document yields. The result depends on the
/// characters alone.
pub uninterp spec fn html_of(md: Seq<char>) -> Seq<char>;

/// Relies on markdown::to_html: the rendered html is a function of the
/// source text alone.
#[verifier::external_body]
fn markdown_to_html(s: &str) -> (r: String)
    ensures
        r@ == html_of(s@),
{
    markdown::to_html(s)
}

/// One post for the templates.
#[derive(Clone, Debug, PartialEq)]
pub struct Post {
    pub slug: String,
    pub entry_type: String,
    pub title: Option<String>,
    pub content: Option<String>,
    pub content_type: Option<String>,
    pub client_id: Option<String>,
    pub published: String,
    pub updated: String,
    pub tags: Vec<String>,
    pub date: Date,
    pub bookmark_of: Option<String>,
    pub photos: Vec<Photo>,
}

impl Post {
    /// Builds the view of a stored post: markdown content is rendered to
    /// html, every other content is handed through, and the tags, date and
    /// photos ride along.
    pub fn new_from(
        post: DBPost,
        categories: Vec<String>,
        date: Date,
        photos: Vec<(String, Option<String>)>,
    ) -> (r: Post)
        ensures
            r.slug@ == post.slug@,
            r.entry_type@ == post.entry_type@,
            ov(r.title) == ov(post.name),
            ov(r.content) == (match ov(post.content_type) {
                Option::Some(ct) => if ct == "markdown"@ {
                    match ov(post.content) {
                        Option::Some(c) => Option::Some(html_of(c)),
                        Option::None => Option::None,
                    }
                } else {
                    ov(post.content)
                },
                Option::None => ov(post.content),
            }),
            ov(r.content_type) == ov(post.content_type),
            ov(r.client_id) == ov(post.client_id),
            r.published@ == post.created_at@,
            r.updated@ == post.updated_at@,
            r.tags == categories,
            r.date == date,
            ov(r.bookmark_of) == ov(post.bookmark_of),
            r.photos@.len() == photos@.len(),
            forall|i: int| 0 <= i < photos@.len() ==> (#[trigger] r.photos@[i]).url@
                == photos@[i].0@ && ov(r.photos@[i].alt) == ov(photos@[i].1),
    {
        let is_markdown = match &post.content_type {
            Some(ct) => crate::text::str_eq(ct.as_str(), "markdown"),
            None => false,
        };
        let content = if is_markdown {
            match &post.content {
                Some(c) => Some(markdown_to_html(c.as_str())),
                None => None,
            }
        } else {
            match &post.content {
                Some(c) => Some(c.clone()),
                None => None,
            }
        };
        let mut view_photos: Vec<Photo> = Vec::new();
        let mut i: usize = 0;
        while i < photos.len()
            invariant
                i <= photos@.len(),
                view_photos@.len() == i,
                forall|j: int| 0 <= j < i ==> (#[trigger] view_photos@[j]).url@ == photos@[j].0@
                    && ov(view_photos@[j].alt) == ov(photos@[j].1),
            decreases photos@.len() - i,
        {
            let alt = match &photos[i].1 {
                Some(a) => Some(a.clone()),
                None => None,
            };
            view_photos.push(Photo { url: photos[i].0.clone(), alt });
            i = i + 1;
        }
        Post {
            slug: post.slug,
            entry_type: post.entry_type,
            title: post.name,
            content,
            content_type: post.content_type,
            client_id: post.client_id,
            published: post.created_at,
            updated: post.updated_at,
            tags: categories,
            date,
            bookmark_of: post.bookmark_of,
            photos: view_photos,
        }
    }
}

/// One page of articles for the templates.
#[derive(Clone, Debug, PartialEq)]
pub struct ArticlesPage {
    pub number: u32,
    pub object_list: Vec<Post>,
}

} // verus!
