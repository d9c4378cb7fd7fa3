//! The Normalizer: decodes an mf2 JSON document or a form-encoded body into
//! the canonical `Entry`.
//!
//! mf2 is a loose wire format: the same property may arrive as a bare string,
//! an array of strings, an array of objects, or a mixed array. The spec
//! functions here state, property by property, which shapes are read and what
//! they yield; unmatched shapes leave the field unset rather than failing the
//! decode. Only two things fail a decode outright: a document that does not
//! have the create shape at all, and a missing `content`.

use vstd::prelude::*;

use crate::entry::{ContentFormat, Entry, EntryV, Photo, PhotoV, catseq, ev, ov, phseq, phv};
use crate::json::{
    JsonV, JsonValue, all_obj, all_str, arr_all_obj, arr_all_str, arr_strings, jget, jv, jv_fields,
    jv_seq, lemma_jv_seq, mpv_valid_fields, obj_get, strs_of, valid_value,
};

verus! {

broadcast use vstd::std_specs::vec::group_vec_axioms, vstd::seq::group_seq_axioms;

/// Why a decode failed.
#[derive(Clone, Copy, Debug, PartialEq, Eq, Structural)]
pub enum DecodeError {
    /// The bytes are not JSON at all.
    Parse,
    /// The document is JSON but has not the shape of a create document.
    Structure,
    /// Everything else was read, but no rule produced a content.
    MissingContent,
}

/// `h-` stripped from the front of an entry type, when it is there.
pub open spec fn strip_h(s: Seq<char>) -> Seq<char> {
    if s.len() >= 2 && s[0] == 'h' && s[1] == '-' {
        s.skip(2)
    } else {
        s
    }
}

/// The entry kind read from the `type` field: the first element with `h-`
/// stripped; `entry` when the field or the first element is absent; no kind
/// at all when the field is not an array of strings.
pub open spec fn spec_kind(t: Option<JsonV>) -> Option<Seq<char>> {
    match t {
        Option::None => Option::Some("entry"@),
        Option::Some(JsonV::Arr(vs)) => if all_str(vs) {
            if vs.len() == 0 {
                Option::Some("entry"@)
            } else {
                Option::Some(strip_h(vs[0]->Str_0))
            }
        } else {
            Option::None
        },
        Option::Some(_) => Option::None,
    }
}

/// Content read from a `content` object: the `html` key wins, then
/// `markdown`; each must hold a bare string.
pub open spec fn spec_content_obj(fs: Seq<(Seq<char>, JsonV)>) -> Option<
    (Seq<char>, Option<ContentFormat>),
> {
    match jget(fs, "html"@) {
        Option::Some(JsonV::Str(c)) => Option::Some((c, Option::Some(ContentFormat::Html))),
        _ => match jget(fs, "markdown"@) {
            Option::Some(JsonV::Str(c)) => Option::Some(
                (c, Option::Some(ContentFormat::Markdown)),
            ),
            _ => Option::None,
        },
    }
}

/// Content read from one property value: an array of strings yields its
/// first element as plain text, an array of objects is read through its
/// first object, a bare string is plain text; every other shape yields
/// nothing.
pub open spec fn spec_content(pv: JsonV) -> Option<(Seq<char>, Option<ContentFormat>)> {
    match pv {
        JsonV::Str(s) => Option::Some((s, Option::None)),
        JsonV::Arr(vs) => if all_str(vs) {
            if vs.len() > 0 {
                Option::Some((vs[0]->Str_0, Option::None))
            } else {
                Option::None
            }
        } else if all_obj(vs) {
            spec_content_obj(vs[0]->Obj_0)
        } else {
            Option::None
        },
        _ => Option::None,
    }
}

/// The content property: the `content` key is read when present, even when
/// it yields nothing; only in its absence is `content[html]` read.
pub open spec fn spec_content_prop(pf: Seq<(Seq<char>, JsonV)>) -> Option<JsonV> {
    match jget(pf, "content"@) {
        Option::Some(v) => Option::Some(v),
        Option::None => jget(pf, "content[html]"@),
    }
}

/// What the content rules yield for the whole properties object.
pub open spec fn spec_content_outcome(pf: Seq<(Seq<char>, JsonV)>) -> Option<
    (Seq<char>, Option<ContentFormat>),
> {
    match spec_content_prop(pf) {
        Option::Some(v) => spec_content(v),
        Option::None => Option::None,
    }
}

/// The title read from `name`: the first element of an array of strings.
pub open spec fn spec_title(pv: Option<JsonV>) -> Option<Seq<char>> {
    match pv {
        Option::Some(JsonV::Arr(vs)) => if all_str(vs) && vs.len() > 0 {
            Option::Some(vs[0]->Str_0)
        } else {
            Option::None
        },
        _ => Option::None,
    }
}

/// The categories read from `category`: a bare string is one category, an
/// array of strings is taken whole, in order, duplicates kept; every other
/// shape yields none.
pub open spec fn spec_categories(pv: Option<JsonV>) -> Seq<Seq<char>> {
    match pv {
        Option::Some(JsonV::Str(s)) => seq![s],
        Option::Some(JsonV::Arr(vs)) => if all_str(vs) {
            strs_of(vs)
        } else {
            Seq::empty()
        },
        _ => Seq::empty(),
    }
}

/// A property that must arrive as an array of strings with exactly one
/// element: `published` and `bookmark-of`.
pub open spec fn spec_single_string(pv: Option<JsonV>) -> Option<Seq<char>> {
    match pv {
        Option::Some(JsonV::Arr(vs)) => if all_str(vs) && vs.len() == 1 {
            Option::Some(vs[0]->Str_0)
        } else {
            Option::None
        },
        _ => Option::None,
    }
}

/// The slug read from `mp-slug`: a one-element array of strings, or a bare
/// string.
pub open spec fn spec_slug(pv: Option<JsonV>) -> Option<Seq<char>> {
    match pv {
        Option::Some(JsonV::Str(s)) => Option::Some(s),
        Option::Some(JsonV::Arr(vs)) => if all_str(vs) && vs.len() == 1 {
            Option::Some(vs[0]->Str_0)
        } else {
            Option::None
        },
        _ => Option::None,
    }
}

/// The photo read from one object: the `value` key must hold a bare string
/// URL; `alt` is kept when it is a bare string.
pub open spec fn spec_photo_obj(fs: Seq<(Seq<char>, JsonV)>) -> Seq<PhotoV> {
    match jget(fs, "value"@) {
        Option::Some(JsonV::Str(url)) => seq![
            PhotoV {
                url,
                alt: match jget(fs, "alt"@) {
                    Option::Some(JsonV::Str(a)) => Option::Some(a),
                    _ => Option::None,
                },
            },
        ],
        _ => Seq::empty(),
    }
}

/// The photos read from one property value, resolved recursively: a bare
/// string is a URL without alt text, an array of strings is one such photo
/// per element, an array of objects is read object by object, and a mixed
/// array is resolved element by element with these same rules.
pub open spec fn spec_photos(pv: JsonV) -> Seq<PhotoV>
    decreases pv,
{
    match pv {
        JsonV::Str(url) => seq![PhotoV { url, alt: Option::None }],
        JsonV::Arr(vs) => if all_str(vs) {
            Seq::new(vs.len(), |i: int| PhotoV { url: vs[i]->Str_0, alt: Option::None })
        } else if all_obj(vs) {
            spec_photos_objs(vs)
        } else {
            spec_photos_each(vs)
        },
        JsonV::Obj(fs) => spec_photo_obj(fs),
        _ => Seq::empty(),
    }
}

/// The photos of an array of objects, in order.
pub open spec fn spec_photos_objs(vs: Seq<JsonV>) -> Seq<PhotoV>
    decreases vs,
{
    if vs.len() == 0 {
        Seq::empty()
    } else {
        spec_photo_obj(vs[0]->Obj_0) + spec_photos_objs(vs.drop_first())
    }
}

/// The photos of a mixed array, element by element.
pub open spec fn spec_photos_each(vs: Seq<JsonV>) -> Seq<PhotoV>
    decreases vs,
{
    if vs.len() == 0 {
        Seq::empty()
    } else {
        spec_photos(vs[0]) + spec_photos_each(vs.drop_first())
    }
}

/// The photo list of the whole entry: present only when at least one photo
/// was resolved.
pub open spec fn spec_photo_list(pv: Option<JsonV>) -> Option<Seq<PhotoV>> {
    match pv {
        Option::Some(p) => if spec_photos(p).len() > 0 {
            Option::Some(spec_photos(p))
        } else {
            Option::None
        },
        Option::None => Option::None,
    }
}

/// What a whole mf2 create document decodes to. The document must be an
/// object whose `properties` is an object of valid property shapes; `type`,
/// when present, must be an array of strings; `content` must yield text.
/// Everything else is optional, and `updated` is not read at all.
pub open spec fn spec_decode_doc(d: JsonV) -> Result<EntryV, DecodeError> {
    match d {
        JsonV::Obj(fs) => match jget(fs, "properties"@) {
            Option::Some(JsonV::Obj(pf)) => if !mpv_valid_fields(pf) {
                Result::Err(DecodeError::Structure)
            } else {
                match spec_kind(jget(fs, "type"@)) {
                    Option::None => Result::Err(DecodeError::Structure),
                    Option::Some(kind) => match spec_content_outcome(pf) {
                        Option::None => Result::Err(DecodeError::MissingContent),
                        Option::Some(cf) => Result::Ok(
                            EntryV {
                                access_token: Option::None,
                                kind,
                                content: cf.0,
                                content_format: cf.1,
                                title: spec_title(jget(pf, "name"@)),
                                categories: spec_categories(jget(pf, "category"@)),
                                created_at: spec_single_string(jget(pf, "published"@)),
                                updated_at: Option::None,
                                slug: spec_slug(jget(pf, "mp-slug"@)),
                                bookmark_of: spec_single_string(jget(pf, "bookmark-of"@)),
                                photos: spec_photo_list(jget(pf, "photo"@)),
                            },
                        ),
                    },
                }
            },
            _ => Result::Err(DecodeError::Structure),
        },
        _ => Result::Err(DecodeError::Structure),
    }
}

/// Reads the content rules from one property value.
fn content_of(pv: &JsonValue) -> (r: Option<(String, Option<ContentFormat>)>)
    ensures
        match r {
            Option::Some(p) => spec_content(jv(*pv)) == Option::Some((p.0@, p.1)),
            Option::None => spec_content(jv(*pv)) is None,
        },
{
    match pv {
        JsonValue::Str(s) => Some((s.clone(), None)),
        JsonValue::Arr(vs) => {
            proof {
                lemma_jv_seq(vs@);
            }
            if arr_all_str(vs) {
                if vs.len() > 0 {
                    match &vs[0] {
                        JsonValue::Str(s) => Some((s.clone(), None)),
                        _ => {
                            proof {
                                assert(jv_seq(vs@)[0] is Str);
                                assert(false);
                            }
                            None
                        },
                    }
                } else {
                    None
                }
            } else if arr_all_obj(vs) {
                proof {
                    assert(jv_seq(vs@).len() == vs@.len());
                    assert(vs@.len() > 0);
                }
                match &vs[0] {
                    JsonValue::Obj(f0) => {
                        proof {
                            assert(jv_seq(vs@)[0] == jv(vs@[0]));
                            assert(jv_seq(vs@)[0]->Obj_0 == jv_fields(f0@));
                        }
                        match obj_get(f0, "html") {
                            Some(JsonValue::Str(c)) => Some((c.clone(), Some(ContentFormat::Html))),
                            Some(_) | None => {
                                match obj_get(f0, "markdown") {
                                    Some(JsonValue::Str(c)) => Some(
                                        (c.clone(), Some(ContentFormat::Markdown)),
                                    ),
                                    Some(_) | None => None,
                                }
                            },
                        }
                    },
                    _ => {
                        proof {
                            assert(jv_seq(vs@)[0] is Obj);
                            assert(false);
                        }
                        None
                    },
                }
            } else {
                None
            }
        },
        _ => None,
    }
}

/// Reads the title rule from the `name` property, when it is there.
fn title_of(pv: Option<&JsonValue>) -> (r: Option<String>)
    ensures
        ov(r) == spec_title(match pv {
            Option::Some(x) => Option::Some(jv(*x)),
            Option::None => Option::None,
        }),
{
    match pv {
        Some(JsonValue::Arr(vs)) => {
            proof {
                lemma_jv_seq(vs@);
            }
            if arr_all_str(vs) && vs.len() > 0 {
                match &vs[0] {
                    JsonValue::Str(s) => Some(s.clone()),
                    _ => {
                        proof {
                            assert(jv_seq(vs@)[0] is Str);
                            assert(false);
                        }
                        None
                    },
                }
            } else {
                None
            }
        },
        _ => None,
    }
}

/// Reads the category rule, when the property is there.
fn categories_of(pv: Option<&JsonValue>) -> (r: Vec<String>)
    ensures
        r.deep_view() == spec_categories(match pv {
            Option::Some(x) => Option::Some(jv(*x)),
            Option::None => Option::None,
        }),
{
    match pv {
        Some(JsonValue::Str(s)) => {
            let mut out: Vec<String> = Vec::new();
            out.push(s.clone());
            proof {
                assert(out.deep_view() =~= seq![s@]);
            }
            out
        },
        Some(JsonValue::Arr(vs)) => {
            if arr_all_str(vs) {
                arr_strings(vs)
            } else {
                let out: Vec<String> = Vec::new();
                proof {
                    assert(out.deep_view() =~= Seq::<Seq<char>>::empty());
                }
                out
            }
        },
        _ => {
            let out: Vec<String> = Vec::new();
            proof {
                assert(out.deep_view() =~= Seq::<Seq<char>>::empty());
            }
            out
        },
    }
}

/// Reads a one-element array of strings: the `published` and `bookmark-of`
/// rule.
fn single_string_of(pv: Option<&JsonValue>) -> (r: Option<String>)
    ensures
        ov(r) == spec_single_string(match pv {
            Option::Some(x) => Option::Some(jv(*x)),
            Option::None => Option::None,
        }),
{
    match pv {
        Some(JsonValue::Arr(vs)) => {
            proof {
                lemma_jv_seq(vs@);
            }
            if arr_all_str(vs) && vs.len() == 1 {
                match &vs[0] {
                    JsonValue::Str(s) => Some(s.clone()),
                    _ => {
                        proof {
                            assert(jv_seq(vs@)[0] is Str);
                            assert(false);
                        }
                        None
                    },
                }
            } else {
                None
            }
        },
        _ => None,
    }
}

/// Reads the slug rule, when the property is there.
fn slug_of(pv: Option<&JsonValue>) -> (r: Option<String>)
    ensures
        ov(r) == spec_slug(match pv {
            Option::Some(x) => Option::Some(jv(*x)),
            Option::None => Option::None,
        }),
{
    match pv {
        Some(JsonValue::Str(s)) => Some(s.clone()),
        Some(JsonValue::Arr(vs)) => {
            proof {
                lemma_jv_seq(vs@);
            }
            if arr_all_str(vs) && vs.len() == 1 {
                match &vs[0] {
                    JsonValue::Str(s) => Some(s.clone()),
                    _ => {
                        proof {
                            assert(jv_seq(vs@)[0] is Str);
                            assert(false);
                        }
                        None
                    },
                }
            } else {
                None
            }
        },
        _ => None,
    }
}

/// Strips a leading `h-` from an entry type.
fn strip_h_exec(s: &String) -> (r: String)
    ensures
        r@ == strip_h(s@),
{
    let n = s.as_str().unicode_len();
    if n >= 2 {
        let c0 = s.as_str().get_char(0);
        let c1 = s.as_str().get_char(1);
        if c0 == 'h' && c1 == '-' {
            let rest = s.as_str().substring_char(2, n);
            proof {
                assert(s@.subrange(2, n as int) =~= s@.skip(2));
            }
            return String::from_str(rest);
        }
    }
    s.clone()
}

/// Reads the entry kind from the `type` field, when the field has the shape
/// the decoder accepts.
fn kind_of(t: Option<&JsonValue>) -> (r: Option<String>)
    ensures
        ov(r) == spec_kind(match t {
            Option::Some(x) => Option::Some(jv(*x)),
            Option::None => Option::None,
        }),
{
    match t {
        None => Some(entry_literal()),
        Some(JsonValue::Arr(vs)) => {
            proof {
                lemma_jv_seq(vs@);
            }
            if arr_all_str(vs) {
                if vs.len() == 0 {
                    Some(entry_literal())
                } else {
                    match &vs[0] {
                        JsonValue::Str(s) => Some(strip_h_exec(s)),
                        _ => {
                            proof {
                                assert(jv_seq(vs@)[0] is Str);
                                assert(false);
                            }
                            None
                        },
                    }
                }
            } else {
                None
            }
        },
        Some(_) => None,
    }
}

/// The default entry kind.
fn entry_literal() -> (r: String)
    ensures
        r@ == "entry"@,
{
    String::from_str("entry")
}

/// Concatenation distributes over reading an array of photo objects.
proof fn lemma_photos_objs_concat(a: Seq<JsonV>, b: Seq<JsonV>)
    ensures
        spec_photos_objs(a + b) == spec_photos_objs(a) + spec_photos_objs(b),
    decreases a.len(),
{
    if a.len() == 0 {
        assert(a + b =~= b);
        assert(spec_photos_objs(a) =~= Seq::<PhotoV>::empty());
        assert(spec_photos_objs(a) + spec_photos_objs(b) =~= spec_photos_objs(b));
    } else {
        lemma_photos_objs_concat(a.drop_first(), b);
        assert((a + b).drop_first() =~= a.drop_first() + b);
        assert((a + b)[0] == a[0]);
        assert(spec_photos_objs(a + b) =~= spec_photos_objs(a) + spec_photos_objs(b));
    }
}

/// Concatenation distributes over resolving a mixed array of photos.
proof fn lemma_photos_each_concat(a: Seq<JsonV>, b: Seq<JsonV>)
    ensures
        spec_photos_each(a + b) == spec_photos_each(a) + spec_photos_each(b),
    decreases a.len(),
{
    if a.len() == 0 {
        assert(a + b =~= b);
        assert(spec_photos_each(a) =~= Seq::<PhotoV>::empty());
        assert(spec_photos_each(a) + spec_photos_each(b) =~= spec_photos_each(b));
    } else {
        lemma_photos_each_concat(a.drop_first(), b);
        assert((a + b).drop_first() =~= a.drop_first() + b);
        assert((a + b)[0] == a[0]);
        assert(spec_photos_each(a + b) =~= spec_photos_each(a) + spec_photos_each(b));
    }
}

/// Reads one photo object, appending its photo when it has one.
fn photo_from_obj(fs: &Vec<(String, JsonValue)>, out: &mut Vec<Photo>)
    ensures
        phseq(final(out)@) == phseq(old(out)@) + spec_photo_obj(jv_fields(fs@)),
{
    match obj_get(fs, "value") {
        Some(JsonValue::Str(url)) => {
            let alt = match obj_get(fs, "alt") {
                Some(JsonValue::Str(a)) => Some(a.clone()),
                Some(_) | None => None,
            };
            let p = Photo { url: url.clone(), alt };
            out.push(p);
            proof {
                assert(phseq(out@) =~= phseq(old(out)@) + spec_photo_obj(jv_fields(fs@)));
            }
        },
        Some(_) | None => {
            proof {
                assert(phseq(out@) =~= phseq(old(out)@) + spec_photo_obj(jv_fields(fs@)));
            }
        },
    }
}

/// Resolves the photos of one property value, appending them in order.
#[verifier::loop_isolation(false)]
fn collect_photos(v: &JsonValue, out: &mut Vec<Photo>)
    ensures
        phseq(final(out)@) == phseq(old(out)@) + spec_photos(jv(*v)),
    decreases *v,
{
    let ghost target = spec_photos(jv(*v));
    match v {
        JsonValue::Str(url) => {
            out.push(Photo { url: url.clone(), alt: None });
            proof {
                assert(phseq(out@) =~= phseq(old(out)@) + target);
            }
        },
        JsonValue::Arr(vs) => {
            proof {
                lemma_jv_seq(vs@);
            }
            let ghost m = jv_seq(vs@);
            if arr_all_str(vs) {
                let mut i: usize = 0;
                while i < vs.len()
                    invariant
                        i <= vs@.len(),
                        phseq(out@) == phseq(old(out)@) + target.subrange(0, i as int),
                    decreases vs@.len() - i,
                {
                    let ghost prev = out@;
                    match &vs[i] {
                        JsonValue::Str(u) => {
                            out.push(Photo { url: u.clone(), alt: None });
                        },
                        _ => {
                            proof {
                                assert(m[i as int] is Str);
                                assert(false);
                            }
                        },
                    }
                    proof {
                        assert(target[i as int] == (PhotoV {
                            url: m[i as int]->Str_0,
                            alt: Option::<Seq<char>>::None,
                        }));
                        assert(phseq(out@) =~= phseq(prev).push(phv(Photo {
                            url: vs@[i as int]->Str_0,
                            alt: Option::<String>::None,
                        })));
                        assert(target.subrange(0, i + 1) =~= target.subrange(0, i as int).push(
                            target[i as int],
                        ));
                    }
                    i = i + 1;
                }
                proof {
                    assert(target.subrange(0, vs@.len() as int) =~= target);
                }
            } else if arr_all_obj(vs) {
                let mut i: usize = 0;
                while i < vs.len()
                    invariant
                        i <= vs@.len(),
                        phseq(out@) == phseq(old(out)@) + spec_photos_objs(m.take(i as int)),
                    decreases vs@.len() - i,
                {
                    let ghost prev = out@;
                    match &vs[i] {
                        JsonValue::Obj(fi) => {
                            photo_from_obj(fi, out);
                        },
                        _ => {
                            proof {
                                assert(m[i as int] is Obj);
                                assert(false);
                            }
                        },
                    }
                    proof {
                        assert(m.take(i + 1) =~= m.take(i as int) + seq![m[i as int]]);
                        lemma_photos_objs_concat(m.take(i as int), seq![m[i as int]]);
                        assert(seq![m[i as int]].drop_first() =~= Seq::<JsonV>::empty());
                        assert(spec_photos_objs(Seq::<JsonV>::empty()) =~= Seq::<PhotoV>::empty());
                        assert(spec_photos_objs(seq![m[i as int]]) =~= spec_photo_obj(
                            m[i as int]->Obj_0,
                        ));
                        assert(m[i as int]->Obj_0 == jv_fields(vs@[i as int]->Obj_0@));
                        assert(phseq(out@) =~= phseq(old(out)@) + spec_photos_objs(
                            m.take(i + 1),
                        ));
                    }
                    i = i + 1;
                }
                proof {
                    assert(m.take(vs@.len() as int) =~= m);
                }
            } else {
                let mut i: usize = 0;
                while i < vs.len()
                    invariant
                        i <= vs@.len(),
                        phseq(out@) == phseq(old(out)@) + spec_photos_each(m.take(i as int)),
                    decreases vs@.len() - i,
                {
                    proof {
                        assert(decreases_to!(*v => *vs));
                        assert(decreases_to!(*vs => vs@));
                        assert(decreases_to!(vs@ => vs@[i as int]));
                    }
                    collect_photos(&vs[i], out);
                    proof {
                        assert(m.take(i + 1) =~= m.take(i as int) + seq![m[i as int]]);
                        lemma_photos_each_concat(m.take(i as int), seq![m[i as int]]);
                        assert(seq![m[i as int]].drop_first() =~= Seq::<JsonV>::empty());
                        assert(spec_photos_each(Seq::<JsonV>::empty()) =~= Seq::<PhotoV>::empty());
                        assert(spec_photos_each(seq![m[i as int]]) =~= spec_photos(m[i as int]));
                        assert(phseq(out@) =~= phseq(old(out)@) + spec_photos_each(
                            m.take(i + 1),
                        ));
                    }
                    i = i + 1;
                }
                proof {
                    assert(m.take(vs@.len() as int) =~= m);
                }
            }
        },
        JsonValue::Obj(fs) => {
            photo_from_obj(fs, out);
        },
        _ => {
            proof {
                assert(phseq(out@) =~= phseq(old(out)@) + target);
            }
        },
    }
}

/// Reads the photo rule, when the property is there: the list exists only
/// when at least one photo was resolved.
fn photos_prop(pv: Option<&JsonValue>) -> (r: Option<Vec<Photo>>)
    ensures
        match r {
            Option::Some(ps) => spec_photo_list(match pv {
                Option::Some(x) => Option::Some(jv(*x)),
                Option::None => Option::None,
            }) == Option::Some(phseq(ps@)),
            Option::None => spec_photo_list(match pv {
                Option::Some(x) => Option::Some(jv(*x)),
                Option::None => Option::None,
            }) is None,
        },
{
    match pv {
        Some(x) => {
            let mut out: Vec<Photo> = Vec::new();
            proof {
                assert(phseq(out@) =~= Seq::<PhotoV>::empty());
            }
            collect_photos(x, &mut out);
            proof {
                assert(phseq(out@) =~= spec_photos(jv(*x)));
            }
            if out.len() > 0 {
                Some(out)
            } else {
                None
            }
        },
        None => None,
    }
}

/// Decodes a whole parsed mf2 create document.
pub fn decode_json_doc(v: &JsonValue) -> (r: Result<Entry, DecodeError>)
    ensures
        match r {
            Result::Ok(e) => spec_decode_doc(jv(*v)) == Result::<EntryV, DecodeError>::Ok(ev(e)),
            Result::Err(er) => spec_decode_doc(jv(*v)) == Result::<EntryV, DecodeError>::Err(er),
        },
{
    match v {
        JsonValue::Obj(fs) => {
            match obj_get(fs, "properties") {
                Some(props) => {
                    if !valid_value(props) {
                        proof {
                            assert(spec_decode_doc(jv(*v)) == Result::<EntryV, DecodeError>::Err(
                                DecodeError::Structure,
                            ));
                        }
                        return Err(DecodeError::Structure);
                    }
                    match props {
                        JsonValue::Obj(pf) => {
                            let kind = match kind_of(obj_get(fs, "type")) {
                                Some(k) => k,
                                None => {
                                    return Err(DecodeError::Structure);
                                },
                            };
                            let cprop = match obj_get(pf, "content") {
                                Some(c) => Some(c),
                                None => obj_get(pf, "content[html]"),
                            };
                            let cf = match cprop {
                                Some(cv) => content_of(cv),
                                None => None,
                            };
                            match cf {
                                None => Err(DecodeError::MissingContent),
                                Some(p) => {
                                    let (content, content_format) = p;
                                    let title = title_of(obj_get(pf, "name"));
                                    let categories = categories_of(obj_get(pf, "category"));
                                    let created_at = single_string_of(obj_get(pf, "published"));
                                    let slug = slug_of(obj_get(pf, "mp-slug"));
                                    let bookmark_of = single_string_of(
                                        obj_get(pf, "bookmark-of"),
                                    );
                                    let photos = photos_prop(obj_get(pf, "photo"));
                                    let e = Entry {
                                        access_token: None,
                                        kind,
                                        content,
                                        content_format,
                                        title,
                                        categories,
                                        created_at,
                                        updated_at: None,
                                        slug,
                                        bookmark_of,
                                        photos,
                                    };
                                    proof {
                                        assert(catseq(e.categories@) =~= e.categories.deep_view());
                                        assert(spec_decode_doc(jv(*v))
                                            == Result::<EntryV, DecodeError>::Ok(ev(e)));
                                    }
                                    Ok(e)
                                },
                            }
                        },
                        _ => Err(DecodeError::Structure),
                    }
                },
                None => Err(DecodeError::Structure),
            }
        },
        _ => Err(DecodeError::Structure),
    }
}

/// The fields of a form body, percent-decoded, in body order. What
/// url::form_urlencoded returns depends on the bytes alone.
pub uninterp spec fn form_fields_of(bytes: Seq<u8>) -> Seq<(Seq<char>, Seq<char>)>;

/// Relies on url::form_urlencoded::parse: the decoded key/value pairs are a
/// function of the bytes alone.
#[verifier::external_body]
pub fn parse_form(bytes: &[u8]) -> (r: Vec<(String, String)>)
    ensures
        r.deep_view() == form_fields_of(bytes@),
{
    url::form_urlencoded::parse(bytes).into_owned().collect()
}

/// What the form decoder has accumulated after some fields.
pub struct FormAccV {
    pub access_token: Option<Seq<char>>,
    pub h: Option<Seq<char>>,
    pub content: Option<Seq<char>>,
    pub content_format: Option<ContentFormat>,
    pub categories: Seq<Seq<char>>,
    pub title: Option<Seq<char>>,
    pub bookmark_of: Option<Seq<char>>,
}

/// Nothing accumulated yet.
pub open spec fn form_empty() -> FormAccV {
    FormAccV {
        access_token: Option::None,
        h: Option::None,
        content: Option::None,
        content_format: Option::None,
        categories: Seq::empty(),
        title: Option::None,
        bookmark_of: Option::None,
    }
}

/// One form field applied to the accumulator: a later value overwrites an
/// earlier one, except categories, which accumulate; `content[html]` sets
/// the content and marks it html; unknown keys are ignored.
pub open spec fn form_step(acc: FormAccV, k: Seq<char>, v: Seq<char>) -> FormAccV {
    if k == "access_token"@ {
        FormAccV { access_token: Option::Some(v), ..acc }
    } else if k == "h"@ {
        FormAccV { h: Option::Some(v), ..acc }
    } else if k == "content"@ {
        FormAccV { content: Option::Some(v), ..acc }
    } else if k == "content[html]"@ {
        FormAccV {
            content: Option::Some(v),
            content_format: Option::Some(ContentFormat::Html),
            ..acc
        }
    } else if k == "category"@ || k == "category[]"@ {
        FormAccV { categories: acc.categories.push(v), ..acc }
    } else if k == "name"@ {
        FormAccV { title: Option::Some(v), ..acc }
    } else if k == "bookmark-of"@ {
        FormAccV { bookmark_of: Option::Some(v), ..acc }
    } else {
        acc
    }
}

/// All fields applied in body order.
pub open spec fn form_fold(fields: Seq<(Seq<char>, Seq<char>)>) -> FormAccV
    decreases fields.len(),
{
    if fields.len() == 0 {
        form_empty()
    } else {
        form_step(form_fold(fields.drop_last()), fields.last().0, fields.last().1)
    }
}

/// What a whole form body decodes to: the accumulated fields, with `content`
/// required and the kind defaulting to `entry`.
pub open spec fn spec_decode_form(fields: Seq<(Seq<char>, Seq<char>)>) -> Result<
    EntryV,
    DecodeError,
> {
    let acc = form_fold(fields);
    match acc.content {
        Option::None => Result::Err(DecodeError::MissingContent),
        Option::Some(c) => Result::Ok(
            EntryV {
                access_token: acc.access_token,
                kind: match acc.h {
                    Option::Some(h) => h,
                    Option::None => "entry"@,
                },
                content: c,
                content_format: acc.content_format,
                title: acc.title,
                categories: acc.categories,
                created_at: Option::None,
                updated_at: Option::None,
                slug: Option::None,
                bookmark_of: acc.bookmark_of,
                photos: Option::None,
            },
        ),
    }
}

/// Decodes the parsed fields of a form body.
#[verifier::loop_isolation(false)]
fn decode_form_fields(fields: &Vec<(String, String)>) -> (r: Result<Entry, DecodeError>)
    ensures
        match r {
            Result::Ok(e) => spec_decode_form(fields.deep_view()) == Result::<
                EntryV,
                DecodeError,
            >::Ok(ev(e)),
            Result::Err(er) => spec_decode_form(fields.deep_view()) == Result::<
                EntryV,
                DecodeError,
            >::Err(er),
        },
{
    let ghost dv = fields.deep_view();
    let mut access_token: Option<String> = None;
    let mut h: Option<String> = None;
    let mut content: Option<String> = None;
    let mut content_format: Option<ContentFormat> = None;
    let mut categories: Vec<String> = Vec::new();
    let mut title: Option<String> = None;
    let mut bookmark_of: Option<String> = None;
    proof {
        assert(catseq(categories@) =~= Seq::<Seq<char>>::empty());
    }
    let mut i: usize = 0;
    while i < fields.len()
        invariant
            i <= fields@.len(),
            dv.len() == fields@.len(),
            forall|j: int| 0 <= j < fields@.len() ==> dv[j] == (fields@[j].0@, fields@[j].1@),
            form_fold(dv.take(i as int)) == (FormAccV {
                access_token: ov(access_token),
                h: ov(h),
                content: ov(content),
                content_format,
                categories: catseq(categories@),
                title: ov(title),
                bookmark_of: ov(bookmark_of),
            }),
        decreases fields@.len() - i,
    {
        let ghost accv = form_fold(dv.take(i as int));
        let k = &fields[i].0;
        let v = &fields[i].1;
        if crate::text::str_eq(k.as_str(), "access_token") {
            access_token = Some(v.clone());
        } else if crate::text::str_eq(k.as_str(), "h") {
            h = Some(v.clone());
        } else if crate::text::str_eq(k.as_str(), "content") {
            content = Some(v.clone());
        } else if crate::text::str_eq(k.as_str(), "content[html]") {
            content = Some(v.clone());
            content_format = Some(ContentFormat::Html);
        } else if crate::text::str_eq(k.as_str(), "category") || crate::text::str_eq(
            k.as_str(),
            "category[]",
        ) {
            categories.push(v.clone());
            proof {
                assert(catseq(categories@) =~= accv.categories.push(v@));
            }
        } else if crate::text::str_eq(k.as_str(), "name") {
            title = Some(v.clone());
        } else if crate::text::str_eq(k.as_str(), "bookmark-of") {
            bookmark_of = Some(v.clone());
        }
        proof {
            assert(dv.take(i + 1).drop_last() =~= dv.take(i as int));
            assert(dv.take(i + 1).last() == dv[i as int]);
        }
        i = i + 1;
    }
    proof {
        assert(dv.take(dv.len() as int) =~= dv);
    }
    match content {
        None => Err(DecodeError::MissingContent),
        Some(c) => {
            let kind = match h {
                Some(hh) => hh,
                None => entry_literal(),
            };
            let e = Entry {
                access_token,
                kind,
                content: c,
                content_format,
                title,
                categories,
                created_at: None,
                updated_at: None,
                slug: None,
                bookmark_of,
                photos: None,
            };
            Ok(e)
        },
    }
}

impl Entry {
    /// Decodes an mf2 JSON create document. Fails when the bytes are not
    /// JSON, when the document has not the create shape, or when no rule
    /// produced a content.
    pub fn from_json_bytes(bytes: &[u8]) -> (r: Result<Entry, DecodeError>)
        ensures
            match crate::json::json_doc_of(bytes@) {
                Option::None => r matches Result::Err(er) && er == DecodeError::Parse,
                Option::Some(d) => match r {
                    Result::Ok(e) => spec_decode_doc(d) == Result::<EntryV, DecodeError>::Ok(
                        ev(e),
                    ),
                    Result::Err(er) => spec_decode_doc(d) == Result::<EntryV, DecodeError>::Err(
                        er,
                    ),
                },
            },
    {
        match crate::json::parse_json(bytes) {
            Some(v) => decode_json_doc(&v),
            None => Err(DecodeError::Parse),
        }
    }

    /// Decodes a form-encoded create body. Fails only when no content field
    /// was present.
    pub fn from_form_bytes(bytes: &[u8]) -> (r: Result<Entry, DecodeError>)
        ensures
            match r {
                Result::Ok(e) => spec_decode_form(form_fields_of(bytes@)) == Result::<
                    EntryV,
                    DecodeError,
                >::Ok(ev(e)),
                Result::Err(er) => spec_decode_form(form_fields_of(bytes@)) == Result::<
                    EntryV,
                    DecodeError,
                >::Err(er),
            },
    {
        let fields = parse_form(bytes);
        decode_form_fields(&fields)
    }
}

} // verus!
