//! The Serializer: renders an `Entry` back into an mf2 JSON document, for
//! source read-back queries.
//!
//! Where the decoder accepts many shapes per field, the encoder always picks
//! one canonical shape: `mp-slug`, `category`, `published` and `updated` are
//! always emitted; content is emitted as one string, or as one `{"html": ...}`
//! object when the content is html; markdown content is emitted as the raw,
//! unrendered string; `name`, `bookmark-of` and `photo` are emitted only when
//! present, and a photo omits its `alt` key rather than carry a null.

use vstd::prelude::*;

use crate::entry::{ContentFormat, Entry, EntryV, Photo, PhotoV, catseq, ev, phseq};
use crate::json::{JsonV, JsonValue, json_text_of, json_to_string, jv, jv_fields, jv_seq,
    lemma_jv_fields, lemma_jv_seq};

verus! {

broadcast use vstd::std_specs::vec::group_vec_axioms, vstd::seq::group_seq_axioms;

/// An optional string as a one-element array: the absent value is a null.
pub open spec fn enc_opt_arr(o: Option<Seq<char>>) -> JsonV {
    JsonV::Arr(
        seq![
            match o {
                Option::Some(s) => JsonV::Str(s),
                Option::None => JsonV::Null,
            },
        ],
    )
}

/// Categories as an array of strings.
pub open spec fn enc_strs(cs: Seq<Seq<char>>) -> Seq<JsonV> {
    Seq::new(cs.len(), |i: int| JsonV::Str(cs[i]))
}

/// The content field in its canonical shape.
pub open spec fn enc_content(e: EntryV) -> JsonV {
    match e.content_format {
        Option::Some(ContentFormat::Html) => JsonV::Arr(
            seq![JsonV::Obj(seq![("html"@, JsonV::Str(e.content))])],
        ),
        _ => JsonV::Arr(seq![JsonV::Str(e.content)]),
    }
}

/// One photo object: `value`, and `alt` only when present.
pub open spec fn enc_photo(p: PhotoV) -> JsonV {
    match p.alt {
        Option::None => JsonV::Obj(seq![("value"@, JsonV::Str(p.url))]),
        Option::Some(a) => JsonV::Obj(
            seq![("value"@, JsonV::Str(p.url)), ("alt"@, JsonV::Str(a))],
        ),
    }
}

/// The photo array, one object per photo, in order.
pub open spec fn enc_photos(ps: Seq<PhotoV>) -> Seq<JsonV> {
    Seq::new(ps.len(), |i: int| enc_photo(ps[i]))
}

/// The fields of the `properties` object.
pub open spec fn enc_props(e: EntryV) -> Seq<(Seq<char>, JsonV)> {
    seq![
        ("mp-slug"@, enc_opt_arr(e.slug)),
        ("category"@, JsonV::Arr(enc_strs(e.categories))),
        ("published"@, enc_opt_arr(e.created_at)),
        ("updated"@, enc_opt_arr(e.updated_at)),
        ("content"@, enc_content(e)),
    ] + (match e.title {
        Option::Some(t) => seq![("name"@, JsonV::Arr(seq![JsonV::Str(t)]))],
        Option::None => Seq::empty(),
    }) + (match e.bookmark_of {
        Option::Some(b) => seq![("bookmark-of"@, JsonV::Arr(seq![JsonV::Str(b)]))],
        Option::None => Seq::empty(),
    }) + (match e.photos {
        Option::Some(ps) => seq![("photo"@, JsonV::Arr(enc_photos(ps)))],
        Option::None => Seq::empty(),
    })
}

/// The whole encoded document: the type, `h-` restored, and the properties.
pub open spec fn spec_encode(e: EntryV) -> JsonV {
    JsonV::Obj(
        seq![
            ("type"@, JsonV::Arr(seq![JsonV::Str("h-"@ + e.kind)])),
            ("properties"@, JsonV::Obj(enc_props(e))),
        ],
    )
}

/// Builds a one-element array field.
fn exec_opt_arr(o: &Option<String>) -> (r: JsonValue)
    ensures
        jv(r) == enc_opt_arr(crate::entry::ov(*o)),
{
    let inner = match o {
        Some(s) => JsonValue::Str(s.clone()),
        None => JsonValue::Null,
    };
    let ghost m = jv(inner);
    let mut vs: Vec<JsonValue> = Vec::new();
    vs.push(inner);
    proof {
        lemma_jv_seq(vs@);
        assert(jv_seq(vs@) =~= seq![m]);
    }
    JsonValue::Arr(vs)
}

/// Builds an object field list holding one string value.
fn exec_one_str_obj(key: &str, val: &String) -> (r: JsonValue)
    ensures
        jv(r) == JsonV::Obj(seq![(key@, JsonV::Str(val@))]),
{
    let mut fs: Vec<(String, JsonValue)> = Vec::new();
    fs.push((String::from_str(key), JsonValue::Str(val.clone())));
    proof {
        lemma_jv_fields(fs@);
        assert(jv_fields(fs@) =~= seq![(key@, JsonV::Str(val@))]);
    }
    JsonValue::Obj(fs)
}

/// Builds a one-element array holding one string.
fn exec_one_str_arr(s: &String) -> (r: JsonValue)
    ensures
        jv(r) == JsonV::Arr(seq![JsonV::Str(s@)]),
{
    let mut vs: Vec<JsonValue> = Vec::new();
    vs.push(JsonValue::Str(s.clone()));
    proof {
        lemma_jv_seq(vs@);
        assert(jv_seq(vs@) =~= seq![JsonV::Str(s@)]);
    }
    JsonValue::Arr(vs)
}

/// Builds the canonical content field.
fn exec_content(e: &Entry) -> (r: JsonValue)
    ensures
        jv(r) == enc_content(ev(*e)),
{
    match e.content_format {
        Some(ContentFormat::Html) => {
            let obj = exec_one_str_obj("html", &e.content);
            let ghost m = jv(obj);
            let mut vs: Vec<JsonValue> = Vec::new();
            vs.push(obj);
            proof {
                lemma_jv_seq(vs@);
                assert(jv_seq(vs@) =~= seq![m]);
            }
            JsonValue::Arr(vs)
        },
        _ => exec_one_str_arr(&e.content),
    }
}

/// Builds the category array.
fn exec_categories(cs: &Vec<String>) -> (r: JsonValue)
    ensures
        jv(r) == JsonV::Arr(enc_strs(catseq(cs@))),
{
    let mut vs: Vec<JsonValue> = Vec::new();
    let mut i: usize = 0;
    while i < cs.len()
        invariant
            i <= cs@.len(),
            jv_seq(vs@) == enc_strs(catseq(cs@)).subrange(0, i as int),
        decreases cs@.len() - i,
    {
        let ghost prev = vs@;
        vs.push(JsonValue::Str(cs[i].clone()));
        proof {
            lemma_jv_seq(vs@);
            lemma_jv_seq(prev);
            assert(jv_seq(vs@) =~= jv_seq(prev).push(JsonV::Str(cs@[i as int]@)));
            assert(enc_strs(catseq(cs@)).subrange(0, i + 1) =~= enc_strs(catseq(cs@)).subrange(
                0,
                i as int,
            ).push(enc_strs(catseq(cs@))[i as int]));
        }
        i = i + 1;
    }
    proof {
        assert(enc_strs(catseq(cs@)).subrange(0, cs@.len() as int) =~= enc_strs(catseq(cs@)));
    }
    JsonValue::Arr(vs)
}

/// Builds one photo object.
fn exec_photo(p: &Photo) -> (r: JsonValue)
    ensures
        jv(r) == enc_photo(crate::entry::phv(*p)),
{
    let mut fs: Vec<(String, JsonValue)> = Vec::new();
    fs.push((String::from_str("value"), JsonValue::Str(p.url.clone())));
    match &p.alt {
        Some(a) => {
            fs.push((String::from_str("alt"), JsonValue::Str(a.clone())));
            proof {
                lemma_jv_fields(fs@);
                assert(jv_fields(fs@) =~= seq![
                    ("value"@, JsonV::Str(p.url@)),
                    ("alt"@, JsonV::Str(a@)),
                ]);
            }
        },
        None => {
            proof {
                lemma_jv_fields(fs@);
                assert(jv_fields(fs@) =~= seq![("value"@, JsonV::Str(p.url@))]);
            }
        },
    }
    JsonValue::Obj(fs)
}

/// Builds the photo array.
fn exec_photos(ps: &Vec<Photo>) -> (r: JsonValue)
    ensures
        jv(r) == JsonV::Arr(enc_photos(phseq(ps@))),
{
    let mut vs: Vec<JsonValue> = Vec::new();
    let mut i: usize = 0;
    while i < ps.len()
        invariant
            i <= ps@.len(),
            jv_seq(vs@) == enc_photos(phseq(ps@)).subrange(0, i as int),
        decreases ps@.len() - i,
    {
        let ghost prev = vs@;
        let pj = exec_photo(&ps[i]);
        let ghost pjm = jv(pj);
        vs.push(pj);
        proof {
            lemma_jv_seq(vs@);
            lemma_jv_seq(prev);
            assert(jv_seq(vs@) =~= jv_seq(prev).push(pjm));
            assert(enc_photos(phseq(ps@))[i as int] == enc_photo(phseq(ps@)[i as int]));
            assert(enc_photos(phseq(ps@)).subrange(0, i + 1) =~= enc_photos(
                phseq(ps@),
            ).subrange(0, i as int).push(enc_photos(phseq(ps@))[i as int]));
        }
        i = i + 1;
    }
    proof {
        assert(enc_photos(phseq(ps@)).subrange(0, ps@.len() as int) =~= enc_photos(phseq(ps@)));
    }
    JsonValue::Arr(vs)
}

/// Builds the whole mf2 document for an entry.
pub fn encode_entry(e: &Entry) -> (r: JsonValue)
    ensures
        jv(r) == spec_encode(ev(*e)),
{
    let mut tkind = String::from_str("h-");
    tkind.append(e.kind.as_str());
    let type_arr = exec_one_str_arr(&tkind);
    let ghost type_m = jv(type_arr);

    let mut props: Vec<(String, JsonValue)> = Vec::new();
    props.push((String::from_str("mp-slug"), exec_opt_arr(&e.slug)));
    props.push((String::from_str("category"), exec_categories(&e.categories)));
    props.push((String::from_str("published"), exec_opt_arr(&e.created_at)));
    props.push((String::from_str("updated"), exec_opt_arr(&e.updated_at)));
    props.push((String::from_str("content"), exec_content(e)));
    match &e.title {
        Some(t) => {
            props.push((String::from_str("name"), exec_one_str_arr(t)));
        },
        None => {},
    }
    match &e.bookmark_of {
        Some(b) => {
            props.push((String::from_str("bookmark-of"), exec_one_str_arr(b)));
        },
        None => {},
    }
    match &e.photos {
        Some(ps) => {
            props.push((String::from_str("photo"), exec_photos(ps)));
        },
        None => {},
    }
    proof {
        lemma_jv_fields(props@);
        assert(jv_fields(props@) =~= enc_props(ev(*e)));
    }
    let props_obj = JsonValue::Obj(props);
    let ghost props_m = jv(props_obj);

    let mut top: Vec<(String, JsonValue)> = Vec::new();
    top.push((String::from_str("type"), type_arr));
    top.push((String::from_str("properties"), props_obj));
    proof {
        lemma_jv_fields(top@);
        assert(jv_fields(top@) =~= seq![("type"@, type_m), ("properties"@, props_m)]);
    }
    JsonValue::Obj(top)
}

impl Entry {
    /// Serializes the entry's mf2 document, as serde_json writes it.
    pub fn to_properties_json(&self) -> (r: String)
        ensures
            r@ == json_text_of(spec_encode(ev(*self))),
    {
        let doc = encode_entry(self);
        json_to_string(&doc)
    }
}

} // verus!
