//! The laws of the decoder, the encoder, and the update engine, stated and
//! proved over the same spec functions the executable contracts use.

use vstd::prelude::*;

use crate::entry::{ContentFormat, EntryV, PhotoV};
use crate::json::{
    JsonV, all_obj, all_str, jget, lemma_jget_at, lemma_jget_none, lemma_mpv_valid_fields,
    lemma_mpv_valid_seq, mpv_valid, mpv_valid_fields, mpv_valid_seq, strs_of,
};
use crate::serialize::{
    enc_content, enc_opt_arr, enc_photo, enc_photos, enc_props, enc_strs, spec_encode,
};
use crate::update::{
    CategoryDiffV, ReplaceAccV, UpdateDirectiveV, UpdateError, apply_cat_diff, spec_add_fold,
    spec_apply_update, spec_delete_values, spec_replace_fold, spec_replace_step, str_elems,
};
use crate::normalize::{
    DecodeError, spec_categories, spec_content, spec_content_prop, spec_decode_doc, spec_kind,
    spec_photo_list, spec_photo_obj, spec_photos, spec_photos_each, spec_photos_objs,
    spec_single_string, spec_slug, spec_title, strip_h,
};

verus! {

broadcast use vstd::seq::group_seq_axioms, vstd::string::group_string_axioms;

/// A category submitted as a bare string and one submitted as a one-element
/// array decode to the same one-element category list.
pub proof fn lemma_category_shape_equivalence(x: Seq<char>)
    ensures
        spec_categories(Option::Some(JsonV::Str(x))) == spec_categories(
            Option::Some(JsonV::Arr(seq![JsonV::Str(x)])),
        ),
        spec_categories(Option::Some(JsonV::Str(x))) == seq![x],
{
    let arr = seq![JsonV::Str(x)];
    assert(all_str(arr));
    assert(strs_of(arr) =~= seq![x]);
}

/// Two documents that both decode, one carrying `category` as the bare
/// string `x` and the other carrying it as the array `[x]`, decode to the
/// same category list: `[x]`.
pub proof fn lemma_category_shapes_decode_alike(
    fs1: Seq<(Seq<char>, JsonV)>,
    pf1: Seq<(Seq<char>, JsonV)>,
    e1: EntryV,
    fs2: Seq<(Seq<char>, JsonV)>,
    pf2: Seq<(Seq<char>, JsonV)>,
    e2: EntryV,
    x: Seq<char>,
)
    requires
        jget(fs1, "properties"@) == Option::Some(JsonV::Obj(pf1)),
        jget(pf1, "category"@) == Option::Some(JsonV::Str(x)),
        spec_decode_doc(JsonV::Obj(fs1)) == Result::<EntryV, DecodeError>::Ok(e1),
        jget(fs2, "properties"@) == Option::Some(JsonV::Obj(pf2)),
        jget(pf2, "category"@) == Option::Some(JsonV::Arr(seq![JsonV::Str(x)])),
        spec_decode_doc(JsonV::Obj(fs2)) == Result::<EntryV, DecodeError>::Ok(e2),
    ensures
        e1.categories == e2.categories,
        e1.categories == seq![x],
{
    lemma_category_shape_equivalence(x);
}

/// An entry decoded from a document whose properties carry no `category`
/// holds the empty category list: not an error, and not an absent value.
pub proof fn lemma_missing_category_empty(
    fs: Seq<(Seq<char>, JsonV)>,
    pf: Seq<(Seq<char>, JsonV)>,
    e: EntryV,
)
    requires
        jget(fs, "properties"@) == Option::Some(JsonV::Obj(pf)),
        jget(pf, "category"@) is None,
        spec_decode_doc(JsonV::Obj(fs)) == Result::<EntryV, DecodeError>::Ok(e),
    ensures
        e.categories == Seq::<Seq<char>>::empty(),
{
    assert(spec_categories(jget(pf, "category"@)) =~= Seq::<Seq<char>>::empty());
}

/// A photo array mixing a `{value, alt}` object and a bare URL resolves to
/// the object's photo followed by the bare URL's photo, in order, the first
/// with its alt text and the second without.
pub proof fn lemma_photo_recursive_resolution(u1: Seq<char>, a1: Seq<char>, u2: Seq<char>)
    ensures
        spec_photos(
            JsonV::Arr(
                seq![
                    JsonV::Obj(seq![("value"@, JsonV::Str(u1)), ("alt"@, JsonV::Str(a1))]),
                    JsonV::Str(u2),
                ],
            ),
        ) == seq![
            PhotoV { url: u1, alt: Option::Some(a1) },
            PhotoV { url: u2, alt: Option::None },
        ],
{
    reveal_strlit("value");
    reveal_strlit("alt");
    let obj_fields = seq![("value"@, JsonV::Str(u1)), ("alt"@, JsonV::Str(a1))];
    let arr = seq![JsonV::Obj(obj_fields), JsonV::Str(u2)];
    assert(!(arr[1] is Str) || !(arr[0] is Str));
    assert(!all_str(arr));
    assert(!all_obj(arr));
    assert("value"@.len() == 5);
    assert("alt"@.len() == 3);
    assert("value"@ != "alt"@);
    let alt_single = seq![("alt"@, JsonV::Str(a1))];
    assert(obj_fields.drop_first() =~= alt_single);
    assert(jget(alt_single, "alt"@) == Option::Some(JsonV::Str(a1)));
    assert(jget(obj_fields, "alt"@) == Option::Some(JsonV::Str(a1)));
    assert(spec_photo_obj(obj_fields) =~= seq![PhotoV { url: u1, alt: Option::Some(a1) }]);
    let tail = seq![JsonV::Str(u2)];
    assert(arr.drop_first() =~= tail);
    assert(tail.drop_first() =~= Seq::<JsonV>::empty());
    assert(spec_photos_each(Seq::<JsonV>::empty()) =~= Seq::<PhotoV>::empty());
    assert(spec_photos(tail[0]) =~= seq![PhotoV { url: u2, alt: Option::None }]);
    assert(spec_photos_each(tail) =~= seq![PhotoV { url: u2, alt: Option::None }]);
    assert(spec_photos_each(arr) =~= spec_photos(arr[0]) + spec_photos_each(tail));
    assert(spec_photos(arr[0]) =~= spec_photo_obj(obj_fields));
    assert(spec_photos_each(arr) =~= seq![
        PhotoV { url: u1, alt: Option::Some(a1) },
        PhotoV { url: u2, alt: Option::None },
    ]);
}

/// A document whose properties carry neither `content` nor `content[html]`
/// fails to decode with the missing-content error, however many other
/// properties it carries.
pub proof fn lemma_missing_content_fails(fs: Seq<(Seq<char>, JsonV)>, pf: Seq<(Seq<char>, JsonV)>)
    requires
        jget(fs, "properties"@) == Option::Some(JsonV::Obj(pf)),
        mpv_valid_fields(pf),
        spec_kind(jget(fs, "type"@)) is Some,
        jget(pf, "content"@) is None,
        jget(pf, "content[html]"@) is None,
    ensures
        spec_decode_doc(JsonV::Obj(fs)) == Result::<EntryV, DecodeError>::Err(
            DecodeError::MissingContent,
        ),
{
    assert(spec_content_prop(pf) is None);
}

/// A one-element array of one valid value is a valid property shape.
proof fn lemma_valid_singleton(x: JsonV)
    requires
        mpv_valid(x),
    ensures
        mpv_valid_seq(seq![x]),
{
    assert(seq![x].drop_first() =~= Seq::<JsonV>::empty());
    assert(mpv_valid_seq(Seq::<JsonV>::empty()));
}

/// An object of one valid value is a valid property shape.
proof fn lemma_valid_fields_singleton(k: Seq<char>, x: JsonV)
    requires
        mpv_valid(x),
    ensures
        mpv_valid_fields(seq![(k, x)]),
{
    assert(seq![(k, x)].drop_first() =~= Seq::<(Seq<char>, JsonV)>::empty());
    assert(mpv_valid_fields(Seq::<(Seq<char>, JsonV)>::empty()));
}

/// An object of two valid values is a valid property shape.
proof fn lemma_valid_fields_two(k1: Seq<char>, x1: JsonV, k2: Seq<char>, x2: JsonV)
    requires
        mpv_valid(x1),
        mpv_valid(x2),
    ensures
        mpv_valid_fields(seq![(k1, x1), (k2, x2)]),
{
    let s = seq![(k1, x1), (k2, x2)];
    lemma_valid_fields_singleton(k2, x2);
    assert(s.drop_first() =~= seq![(k2, x2)]);
}

/// An array of strings is a valid property shape.
proof fn lemma_valid_all_str(vs: Seq<JsonV>)
    requires
        all_str(vs),
    ensures
        mpv_valid_seq(vs),
{
    lemma_mpv_valid_seq(vs);
}

/// The encoded photo array is a valid property shape.
proof fn lemma_valid_enc_photos(ps: Seq<PhotoV>)
    ensures
        mpv_valid_seq(enc_photos(ps)),
{
    lemma_mpv_valid_seq(enc_photos(ps));
    assert forall|i: int| 0 <= i < enc_photos(ps).len() implies mpv_valid(enc_photos(ps)[i]) by {
        let p = ps[i];
        match p.alt {
            Option::None => {
                lemma_valid_fields_singleton("value"@, JsonV::Str(p.url));
            },
            Option::Some(a) => {
                lemma_valid_fields_two("value"@, JsonV::Str(p.url), "alt"@, JsonV::Str(a));
            },
        }
    }
}

/// One encoded photo object resolves back to exactly its photo.
proof fn lemma_photo_obj_round_trip(p: PhotoV)
    ensures
        spec_photo_obj(enc_photo(p)->Obj_0) == seq![p],
{
    reveal_strlit("value");
    reveal_strlit("alt");
    assert("value"@.len() == 5);
    assert("alt"@.len() == 3);
    match p.alt {
        Option::None => {
            let fs = seq![("value"@, JsonV::Str(p.url))];
            lemma_jget_at(fs, "value"@, 0);
            lemma_jget_none(fs, "alt"@);
            assert(spec_photo_obj(fs) =~= seq![p]);
        },
        Option::Some(a) => {
            let fs = seq![("value"@, JsonV::Str(p.url)), ("alt"@, JsonV::Str(a))];
            lemma_jget_at(fs, "value"@, 0);
            lemma_jget_at(fs, "alt"@, 1);
            assert(spec_photo_obj(fs) =~= seq![p]);
        },
    }
}

/// The encoded photo array resolves back to exactly the photos, in order.
proof fn lemma_photos_round_trip(ps: Seq<PhotoV>)
    ensures
        spec_photos_objs(enc_photos(ps)) == ps,
    decreases ps.len(),
{
    if ps.len() == 0 {
        assert(enc_photos(ps).len() == 0);
        assert(spec_photos_objs(enc_photos(ps)) =~= ps);
    } else {
        lemma_photos_round_trip(ps.drop_first());
        assert(enc_photos(ps).drop_first() =~= enc_photos(ps.drop_first()));
        lemma_photo_obj_round_trip(ps[0]);
        assert(enc_photos(ps)[0] == enc_photo(ps[0]));
        assert(spec_photos_objs(enc_photos(ps)) =~= seq![ps[0]] + ps.drop_first());
        assert(seq![ps[0]] + ps.drop_first() =~= ps);
    }
}

/// Round trip on the canonical fields: an entry whose slug and timestamps
/// are present, whose content is not markdown, and whose photo list is not
/// present-but-empty, encodes to a document that decodes back to the same
/// content, content format, categories, photos, slug, creation time and
/// bookmark. The decoder does not read `updated`, so the redecoded update
/// time is absent.
pub proof fn lemma_decode_encode_round_trip(e: EntryV)
    requires
        e.slug is Some,
        e.created_at is Some,
        e.updated_at is Some,
        e.content_format != Option::<ContentFormat>::Some(ContentFormat::Markdown),
        match e.photos {
            Option::Some(ps) => ps.len() > 0,
            Option::None => true,
        },
    ensures
        spec_decode_doc(spec_encode(e)) matches Result::Ok(d) && {
            &&& d.content == e.content
            &&& d.content_format == e.content_format
            &&& d.categories == e.categories
            &&& d.photos == e.photos
            &&& d.slug == e.slug
            &&& d.created_at == e.created_at
            &&& d.bookmark_of == e.bookmark_of
            &&& d.updated_at is None
        },
{
    reveal_strlit("type");
    reveal_strlit("properties");
    reveal_strlit("mp-slug");
    reveal_strlit("category");
    reveal_strlit("published");
    reveal_strlit("updated");
    reveal_strlit("content");
    reveal_strlit("content[html]");
    reveal_strlit("name");
    reveal_strlit("bookmark-of");
    reveal_strlit("photo");
    reveal_strlit("html");
    reveal_strlit("markdown");
    reveal_strlit("h-");
    reveal_strlit("entry");
    assert("type"@.len() == 4);
    assert("properties"@.len() == 10);
    assert("mp-slug"@.len() == 7);
    assert("category"@.len() == 8);
    assert("published"@.len() == 9);
    assert("updated"@.len() == 7);
    assert("content"@.len() == 7);
    assert("name"@.len() == 4);
    assert("bookmark-of"@.len() == 11);
    assert("photo"@.len() == 5);
    assert("html"@.len() == 4);
    assert("mp-slug"@[0] == 'm');
    assert("updated"@[0] == 'u');
    assert("content"@[0] == 'c');

    let props = enc_props(e);
    let base = seq![
        ("mp-slug"@, enc_opt_arr(e.slug)),
        ("category"@, JsonV::Arr(enc_strs(e.categories))),
        ("published"@, enc_opt_arr(e.created_at)),
        ("updated"@, enc_opt_arr(e.updated_at)),
        ("content"@, enc_content(e)),
    ];
    let tpart: Seq<(Seq<char>, JsonV)> = match e.title {
        Option::Some(t) => seq![("name"@, JsonV::Arr(seq![JsonV::Str(t)]))],
        Option::None => Seq::empty(),
    };
    let bpart: Seq<(Seq<char>, JsonV)> = match e.bookmark_of {
        Option::Some(b) => seq![("bookmark-of"@, JsonV::Arr(seq![JsonV::Str(b)]))],
        Option::None => Seq::empty(),
    };
    let ppart: Seq<(Seq<char>, JsonV)> = match e.photos {
        Option::Some(ps) => seq![("photo"@, JsonV::Arr(enc_photos(ps)))],
        Option::None => Seq::empty(),
    };
    assert(props =~= base + tpart + bpart + ppart);
    let nb = 5int;
    let nt = tpart.len() as int;
    let nbk = bpart.len() as int;
    let np = ppart.len() as int;
    assert(props.len() == nb + nt + nbk + np);
    assert(forall|j: int| 0 <= j < nb ==> props[j] == base[j]);
    assert(forall|j: int| 0 <= j < nt ==> props[nb + j] == tpart[j]);
    assert(forall|j: int| 0 <= j < nbk ==> props[nb + nt + j] == bpart[j]);
    assert(forall|j: int| 0 <= j < np ==> props[nb + nt + nbk + j] == ppart[j]);

    // the top-level object
    let top = seq![
        ("type"@, JsonV::Arr(seq![JsonV::Str("h-"@ + e.kind)])),
        ("properties"@, JsonV::Obj(props)),
    ];
    assert(spec_encode(e) == JsonV::Obj(top));
    assert("type"@ != "properties"@);
    lemma_jget_at(top, "properties"@, 1);
    lemma_jget_at(top, "type"@, 0);

    // the kind field is an array of one string
    let tv = seq![JsonV::Str("h-"@ + e.kind)];
    assert(all_str(tv));
    assert(spec_kind(jget(top, "type"@)) == Option::Some(strip_h("h-"@ + e.kind)));

    // every property value is a valid shape
    let slug_v = enc_opt_arr(e.slug);
    let pub_v = enc_opt_arr(e.created_at);
    let upd_v = enc_opt_arr(e.updated_at);
    assert(mpv_valid(slug_v)) by {
        lemma_valid_singleton(JsonV::Str(e.slug->0));
        assert(slug_v->Arr_0 =~= seq![JsonV::Str(e.slug->0)]);
    }
    assert(mpv_valid(pub_v)) by {
        lemma_valid_singleton(JsonV::Str(e.created_at->0));
        assert(pub_v->Arr_0 =~= seq![JsonV::Str(e.created_at->0)]);
    }
    assert(mpv_valid(upd_v)) by {
        lemma_valid_singleton(JsonV::Str(e.updated_at->0));
        assert(upd_v->Arr_0 =~= seq![JsonV::Str(e.updated_at->0)]);
    }
    assert(mpv_valid(JsonV::Arr(enc_strs(e.categories)))) by {
        assert(all_str(enc_strs(e.categories)));
        lemma_valid_all_str(enc_strs(e.categories));
    }
    assert(mpv_valid(enc_content(e))) by {
        match e.content_format {
            Option::Some(ContentFormat::Html) => {
                lemma_valid_fields_singleton("html"@, JsonV::Str(e.content));
                lemma_valid_singleton(JsonV::Obj(seq![("html"@, JsonV::Str(e.content))]));
            },
            _ => {
                lemma_valid_singleton(JsonV::Str(e.content));
            },
        }
    }
    assert(forall|j: int| 0 <= j < nt ==> mpv_valid(#[trigger] tpart[j].1)) by {
        match e.title {
            Option::Some(t) => {
                lemma_valid_singleton(JsonV::Str(t));
            },
            Option::None => {},
        }
    }
    assert(forall|j: int| 0 <= j < nbk ==> mpv_valid(#[trigger] bpart[j].1)) by {
        match e.bookmark_of {
            Option::Some(b) => {
                lemma_valid_singleton(JsonV::Str(b));
            },
            Option::None => {},
        }
    }
    assert(forall|j: int| 0 <= j < np ==> mpv_valid(#[trigger] ppart[j].1)) by {
        match e.photos {
            Option::Some(ps) => {
                lemma_valid_enc_photos(ps);
            },
            Option::None => {},
        }
    }
    lemma_mpv_valid_fields(props);
    assert(mpv_valid_fields(props)) by {
        assert forall|i: int| 0 <= i < props.len() implies mpv_valid(props[i].1) by {
            if i < nb {
                assert(props[i] == base[i]);
            } else if i < nb + nt {
                assert(props[i] == tpart[i - nb]);
            } else if i < nb + nt + nbk {
                assert(props[i] == bpart[i - nb - nt]);
            } else {
                assert(props[i] == ppart[i - nb - nt - nbk]);
            }
        }
    }

    // the key lookups the decoder makes
    assert("mp-slug"@ != "content"@ && "category"@ != "content"@ && "published"@ != "content"@
        && "updated"@ != "content"@);
    lemma_jget_at(props, "content"@, 4);
    lemma_jget_at(props, "mp-slug"@, 0);
    assert("category"@ != "mp-slug"@);
    lemma_jget_at(props, "category"@, 1);
    lemma_jget_at(props, "published"@, 2);
    match e.title {
        Option::Some(t) => {
            lemma_jget_at(props, "name"@, nb);
        },
        Option::None => {
            assert(forall|j: int| 0 <= j < props.len() ==> props[j].0 != "name"@);
            lemma_jget_none(props, "name"@);
        },
    }
    match e.bookmark_of {
        Option::Some(b) => {
            lemma_jget_at(props, "bookmark-of"@, nb + nt);
        },
        Option::None => {
            assert(forall|j: int| 0 <= j < props.len() ==> props[j].0 != "bookmark-of"@);
            lemma_jget_none(props, "bookmark-of"@);
        },
    }
    match e.photos {
        Option::Some(ps) => {
            lemma_jget_at(props, "photo"@, nb + nt + nbk);
        },
        Option::None => {
            assert(forall|j: int| 0 <= j < props.len() ==> props[j].0 != "photo"@);
            lemma_jget_none(props, "photo"@);
        },
    }

    // the content comes back with its format
    assert(spec_content_prop(props) == Option::Some(enc_content(e)));
    match e.content_format {
        Option::Some(ContentFormat::Html) => {
            let inner = seq![("html"@, JsonV::Str(e.content))];
            let arr = seq![JsonV::Obj(inner)];
            assert(enc_content(e) == JsonV::Arr(arr));
            assert(!(arr[0] is Str));
            assert(!all_str(arr));
            assert(all_obj(arr));
            lemma_jget_at(inner, "html"@, 0);
            assert(spec_content(enc_content(e)) == Option::Some(
                (e.content, Option::Some(ContentFormat::Html)),
            ));
        },
        _ => {
            let arr = seq![JsonV::Str(e.content)];
            assert(enc_content(e) == JsonV::Arr(arr));
            assert(all_str(arr));
            assert(spec_content(enc_content(e)) == Option::Some(
                (e.content, Option::<ContentFormat>::None),
            ));
        },
    }

    // the scalar fields come back
    let slug_arr = seq![JsonV::Str(e.slug->0)];
    assert(slug_v->Arr_0 =~= slug_arr);
    assert(all_str(slug_arr));
    assert(spec_slug(jget(props, "mp-slug"@)) == e.slug);
    let pub_arr = seq![JsonV::Str(e.created_at->0)];
    assert(pub_v->Arr_0 =~= pub_arr);
    assert(all_str(pub_arr));
    assert(spec_single_string(jget(props, "published"@)) == e.created_at);
    match e.title {
        Option::Some(t) => {
            let ta = seq![JsonV::Str(t)];
            assert(all_str(ta));
            assert(spec_title(jget(props, "name"@)) == e.title);
        },
        Option::None => {
            assert(spec_title(jget(props, "name"@)) == e.title);
        },
    }
    match e.bookmark_of {
        Option::Some(b) => {
            let ba = seq![JsonV::Str(b)];
            assert(all_str(ba));
            assert(spec_single_string(jget(props, "bookmark-of"@)) == e.bookmark_of);
        },
        Option::None => {
            assert(spec_single_string(jget(props, "bookmark-of"@)) == e.bookmark_of);
        },
    }

    // the categories come back in order
    assert(all_str(enc_strs(e.categories)));
    assert(strs_of(enc_strs(e.categories)) =~= e.categories);
    assert(spec_categories(jget(props, "category"@)) == e.categories);

    // the photos come back in order
    match e.photos {
        Option::Some(ps) => {
            let pa = enc_photos(ps);
            if all_str(pa) {
                assert(pa[0] is Str);
                assert(false);
            }
            assert(all_obj(pa));
            lemma_photos_round_trip(ps);
            assert(spec_photos(JsonV::Arr(pa)) == ps);
            assert(spec_photo_list(jget(props, "photo"@)) == e.photos);
        },
        Option::None => {
            assert(spec_photo_list(jget(props, "photo"@)) == e.photos);
        },
    }
}

/// A fold over replace keys rejects the directive as soon as any value is
/// not an array.
proof fn lemma_replace_fold_rejects(acc: ReplaceAccV, rf: Seq<(Seq<char>, JsonV)>)
    requires
        exists|i: int| 0 <= i < rf.len() && !(#[trigger] rf[i].1 is Arr),
    ensures
        spec_replace_fold(acc, rf) == Result::<ReplaceAccV, UpdateError>::Err(
            UpdateError::Protocol,
        ),
    decreases rf.len(),
{
    let i = choose|i: int| 0 <= i < rf.len() && !(#[trigger] rf[i].1 is Arr);
    if rf[0].1 is Arr {
        assert(i > 0);
        assert(rf.drop_first()[i - 1] == rf[i]);
        match rf[0].1 {
            JsonV::Arr(vs) => {
                lemma_replace_fold_rejects(spec_replace_step(acc, rf[0].0, vs), rf.drop_first());
            },
            _ => {},
        }
    }
}

/// Scalar-not-array rejection: a directive whose `replace` carries any value
/// that is not wrapped in an array is rejected whole with the protocol
/// error, whatever the entry and whatever the other parts say.
pub proof fn lemma_scalar_not_array_rejected(cur: EntryV, d: UpdateDirectiveV)
    requires
        d.replace matches Option::Some(rf) && exists|i: int|
            0 <= i < rf.len() && !(#[trigger] rf[i].1 is Arr),
    ensures
        spec_apply_update(cur, d) == Result::<(EntryV, CategoryDiffV), UpdateError>::Err(
            UpdateError::Protocol,
        ),
{
    let rf = d.replace->0;
    let acc0 = ReplaceAccV {
        content: cur.content,
        content_format: cur.content_format,
        title: cur.title,
        cat_replace: Option::None,
    };
    lemma_replace_fold_rejects(acc0, rf);
}

/// Update ordering: when one directive both replaces the categories with
/// `[c1, c2]` and adds `[c3]`, the replacement is applied first and the
/// addition after it, so the final categories are `[c1, c2, c3]`, whatever
/// the entry held before.
#[verifier::rlimit(60)]
pub proof fn lemma_update_ordering(cur: EntryV, c1: Seq<char>, c2: Seq<char>, c3: Seq<char>)
    ensures
        ({
            let d = UpdateDirectiveV {
                target_slug: cur.slug->0,
                replace: Option::Some(
                    seq![("category"@, JsonV::Arr(seq![JsonV::Str(c1), JsonV::Str(c2)]))],
                ),
                add: Option::Some(seq![("category"@, JsonV::Arr(seq![JsonV::Str(c3)]))]),
                delete: Option::None,
            };
            spec_apply_update(cur, d) matches Result::Ok(p) && p.0.categories == seq![c1, c2, c3]
        }),
{
    let rf = seq![("category"@, JsonV::Arr(seq![JsonV::Str(c1), JsonV::Str(c2)]))];
    let af = seq![("category"@, JsonV::Arr(seq![JsonV::Str(c3)]))];
    let d = UpdateDirectiveV {
        target_slug: cur.slug->0,
        replace: Option::Some(rf),
        add: Option::Some(af),
        delete: Option::None,
    };
    let acc0 = ReplaceAccV {
        content: cur.content,
        content_format: cur.content_format,
        title: cur.title,
        cat_replace: Option::None,
    };
    let vs = seq![JsonV::Str(c1), JsonV::Str(c2)];
    assert(vs.drop_first() =~= seq![JsonV::Str(c2)]);
    assert(seq![JsonV::Str(c2)].drop_first() =~= Seq::<JsonV>::empty());
    assert(str_elems(Seq::<JsonV>::empty()) =~= Seq::<Seq<char>>::empty());
    assert(str_elems(seq![JsonV::Str(c2)]) =~= seq![c2]);
    assert(str_elems(vs) =~= seq![c1, c2]);
    reveal_strlit("content");
    reveal_strlit("name");
    reveal_strlit("category");
    assert("content"@.len() == 7);
    assert("name"@.len() == 4);
    assert("category"@.len() == 8);
    let acc1 = spec_replace_step(acc0, "category"@, vs);
    assert(acc1.cat_replace == Option::Some(seq![c1, c2]));
    assert(rf.drop_first() =~= Seq::<(Seq<char>, JsonV)>::empty());
    assert(spec_replace_fold(acc1, Seq::<(Seq<char>, JsonV)>::empty()) == Result::<
        ReplaceAccV,
        UpdateError,
    >::Ok(acc1));
    assert(spec_replace_fold(acc0, rf) == Result::<ReplaceAccV, UpdateError>::Ok(acc1));
    let avs = seq![JsonV::Str(c3)];
    assert(avs.drop_first() =~= Seq::<JsonV>::empty());
    assert(str_elems(avs) =~= seq![c3]);
    assert(af.drop_first() =~= Seq::<(Seq<char>, JsonV)>::empty());
    assert(spec_add_fold(
        Seq::<Seq<char>>::empty() + seq![c3],
        Seq::<(Seq<char>, JsonV)>::empty(),
    ) == Result::<Seq<Seq<char>>, UpdateError>::Ok(Seq::<Seq<char>>::empty() + seq![c3]));
    assert(spec_add_fold(Seq::empty(), af) == Result::<Seq<Seq<char>>, UpdateError>::Ok(
        Seq::<Seq<char>>::empty() + seq![c3],
    ));
    let diff = CategoryDiffV {
        replace_with: Option::Some(seq![c1, c2]),
        add: Seq::<Seq<char>>::empty() + seq![c3],
        delete_all: false,
        delete_values: Seq::empty(),
    };
    let merged = seq![c1, c2] + (Seq::<Seq<char>>::empty() + seq![c3]);
    assert(merged =~= seq![c1, c2, c3]);
    let pred = |c: Seq<char>| !diff.delete_values.contains(c);
    merged.filter_lemma(pred);
    assert(apply_cat_diff(cur.categories, diff) == merged.filter(pred));
    lemma_filter_keep_all(merged, pred);
}

/// A filter whose predicate holds everywhere keeps the sequence whole.
proof fn lemma_filter_keep_all(s: Seq<Seq<char>>, pred: spec_fn(Seq<char>) -> bool)
    requires
        forall|i: int| 0 <= i < s.len() ==> pred(s[i]),
    ensures
        s.filter(pred) == s,
    decreases s.len(),
{
    reveal(Seq::filter);
    if s.len() > 0 {
        lemma_filter_keep_all(s.drop_last(), pred);
        assert(s.filter(pred) =~= s.drop_last().push(s.last()));
        assert(s.drop_last().push(s.last()) =~= s);
    } else {
        assert(s.filter(pred) =~= s);
    }
}

/// Delete-by-object removes only the named categories: a directive whose
/// only part deletes `{category: vs}` leaves exactly the categories that are
/// not named among the string elements of `vs`, in their old order.
pub proof fn lemma_delete_by_object_removes_only_named(cur: EntryV, vs: Seq<JsonV>)
    ensures
        ({
            let d = UpdateDirectiveV {
                target_slug: cur.slug->0,
                replace: Option::None,
                add: Option::None,
                delete: Option::Some(JsonV::Obj(seq![("category"@, JsonV::Arr(vs))])),
            };
            spec_apply_update(cur, d) matches Result::Ok(p) && p.0.categories
                == cur.categories.filter(|c: Seq<char>| !str_elems(vs).contains(c))
        }),
{
    let df = seq![("category"@, JsonV::Arr(vs))];
    let d = UpdateDirectiveV {
        target_slug: cur.slug->0,
        replace: Option::None,
        add: Option::None,
        delete: Option::Some(JsonV::Obj(df)),
    };
    assert(df.drop_first() =~= Seq::<(Seq<char>, JsonV)>::empty());
    assert(spec_delete_values(Seq::<(Seq<char>, JsonV)>::empty()) =~= Seq::<Seq<char>>::empty());
    assert(spec_delete_values(df) =~= str_elems(vs));
    let diff = CategoryDiffV {
        replace_with: Option::None,
        add: Seq::empty(),
        delete_all: false,
        delete_values: str_elems(vs),
    };
    assert(cur.categories + Seq::<Seq<char>>::empty() =~= cur.categories);
    match spec_apply_update(cur, d) {
        Result::Ok(p) => {
            assert(p.0.categories == apply_cat_diff(cur.categories, diff));
        },
        Result::Err(_) => {
            assert(false);
        },
    }
}

} // verus!
