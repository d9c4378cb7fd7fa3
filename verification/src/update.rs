//! The Update Engine: applies a Micropub replace/add/delete directive to a
//! stored entry, in memory, and computes the category operations the store
//! must run.
//!
//! The processing order is fixed: `replace` first, then `add`, then `delete`.
//! Only `category` is touched by all three, and there the order decides the
//! outcome. Every value under `replace` or `add` must be wrapped in an array;
//! a bare scalar rejects the whole directive, with nothing applied. A
//! `delete` that is neither an array of property names nor an object of
//! values to remove is rejected the same way. Unknown property names are
//! ignored.

use vstd::prelude::*;

use crate::entry::{ContentFormat, Entry, EntryV, ev, ov, catseq};
use crate::json::{JsonV, JsonValue, jget, jv, jv_fields, jv_seq, lemma_jv_fields, lemma_jv_seq};
use crate::text::{spec_starts_with, starts_with, str_eq};

verus! {

broadcast use vstd::std_specs::vec::group_vec_axioms, vstd::seq::group_seq_axioms;

/// Why a directive was rejected.
#[derive(Clone, Copy, Debug, PartialEq, Eq, Structural)]
pub enum UpdateError {
    /// The directive carries no `url` string.
    NoUrl,
    /// The `url` does not lie under the site.
    UrlOutsideSite,
    /// A `replace` or `add` value is not wrapped in an array, or the
    /// `delete` payload is neither an array nor an object.
    Protocol,
}

/// One parsed update directive. The `replace` and `add` parts are the
/// directive's objects, kept only when they are objects; the `delete` part is
/// kept as it arrived, its two legal shapes told apart when the directive is
/// applied.
#[derive(Debug)]
pub struct UpdateDirective {
    pub target_slug: String,
    pub replace: Option<Vec<(String, JsonValue)>>,
    pub add: Option<Vec<(String, JsonValue)>>,
    pub delete: Option<JsonValue>,
}

/// The model of a directive.
pub struct UpdateDirectiveV {
    pub target_slug: Seq<char>,
    pub replace: Option<Seq<(Seq<char>, JsonV)>>,
    pub add: Option<Seq<(Seq<char>, JsonV)>>,
    pub delete: Option<JsonV>,
}

/// The model of a parsed directive.
pub open spec fn udv(d: UpdateDirective) -> UpdateDirectiveV {
    UpdateDirectiveV {
        target_slug: d.target_slug@,
        replace: match d.replace {
            Option::Some(pf) => Option::Some(jv_fields(pf@)),
            Option::None => Option::None,
        },
        add: match d.add {
            Option::Some(pf) => Option::Some(jv_fields(pf@)),
            Option::None => Option::None,
        },
        delete: match d.delete {
            Option::Some(v) => Option::Some(jv(v)),
            Option::None => Option::None,
        },
    }
}

/// The category operations one directive asks of the store, in the order
/// they run: replace the whole set, append, then delete everything or the
/// named values.
#[derive(Clone, Debug, PartialEq)]
pub struct CategoryDiff {
    pub replace_with: Option<Vec<String>>,
    pub add: Vec<String>,
    pub delete_all: bool,
    pub delete_values: Vec<String>,
}

/// The model of the category operations.
pub struct CategoryDiffV {
    pub replace_with: Option<Seq<Seq<char>>>,
    pub add: Seq<Seq<char>>,
    pub delete_all: bool,
    pub delete_values: Seq<Seq<char>>,
}

/// The model of a category diff.
pub open spec fn cdv(d: CategoryDiff) -> CategoryDiffV {
    CategoryDiffV {
        replace_with: match d.replace_with {
            Option::Some(cs) => Option::Some(catseq(cs@)),
            Option::None => Option::None,
        },
        add: catseq(d.add@),
        delete_all: d.delete_all,
        delete_values: catseq(d.delete_values@),
    }
}

/// The model of an optional category list.
pub open spec fn ocatseq(o: Option<Vec<String>>) -> Option<Seq<Seq<char>>> {
    match o {
        Option::Some(cs) => Option::Some(catseq(cs@)),
        Option::None => Option::None,
    }
}

/// The category list after the diff's operations, in their fixed order.
pub open spec fn apply_cat_diff(old: Seq<Seq<char>>, d: CategoryDiffV) -> Seq<Seq<char>> {
    let replaced = match d.replace_with {
        Option::Some(cs) => cs,
        Option::None => old,
    };
    let added = replaced + d.add;
    if d.delete_all {
        Seq::empty()
    } else {
        added.filter(|c: Seq<char>| !d.delete_values.contains(c))
    }
}

/// The string elements of an array, in order; everything else is dropped.
pub open spec fn str_elems(vs: Seq<JsonV>) -> Seq<Seq<char>>
    decreases vs,
{
    if vs.len() == 0 {
        Seq::empty()
    } else {
        (match vs[0] {
            JsonV::Str(s) => seq![s],
            _ => Seq::empty(),
        }) + str_elems(vs.drop_first())
    }
}

/// Concatenation distributes over taking the string elements.
pub proof fn lemma_str_elems_concat(a: Seq<JsonV>, b: Seq<JsonV>)
    ensures
        str_elems(a + b) == str_elems(a) + str_elems(b),
    decreases a.len(),
{
    if a.len() == 0 {
        assert(a + b =~= b);
        assert(str_elems(a) =~= Seq::<Seq<char>>::empty());
        assert(str_elems(a) + str_elems(b) =~= str_elems(b));
    } else {
        lemma_str_elems_concat(a.drop_first(), b);
        assert((a + b).drop_first() =~= a.drop_first() + b);
        assert((a + b)[0] == a[0]);
        assert(str_elems(a + b) =~= str_elems(a) + str_elems(b));
    }
}

/// What the replace rules have settled on so far.
pub struct ReplaceAccV {
    pub content: Seq<char>,
    pub content_format: Option<ContentFormat>,
    pub title: Option<Seq<char>>,
    pub cat_replace: Option<Seq<Seq<char>>>,
}

/// One replace key applied to the accumulator; the value is already known to
/// be an array. `content` takes the first element when it is a string, or an
/// object's `html` string; `name` takes the first element when it is a
/// string and is cleared otherwise; `category` replaces the whole set with
/// the value's string elements; unknown keys change nothing.
pub open spec fn spec_replace_step(acc: ReplaceAccV, k: Seq<char>, vs: Seq<JsonV>) -> ReplaceAccV {
    if k == "content"@ {
        if vs.len() == 0 {
            acc
        } else {
            match vs[0] {
                JsonV::Str(c) => ReplaceAccV {
                    content: c,
                    content_format: Option::None,
                    ..acc
                },
                JsonV::Obj(cf) => match jget(cf, "html"@) {
                    Option::Some(JsonV::Str(h)) => ReplaceAccV {
                        content: h,
                        content_format: Option::Some(ContentFormat::Html),
                        ..acc
                    },
                    _ => acc,
                },
                _ => acc,
            }
        }
    } else if k == "name"@ {
        if vs.len() > 0 && vs[0] is Str {
            ReplaceAccV { title: Option::Some(vs[0]->Str_0), ..acc }
        } else {
            ReplaceAccV { title: Option::None, ..acc }
        }
    } else if k == "category"@ {
        ReplaceAccV { cat_replace: Option::Some(str_elems(vs)), ..acc }
    } else {
        acc
    }
}

/// The replace object's keys applied in order; a value that is not an array
/// rejects the directive.
pub open spec fn spec_replace_fold(acc: ReplaceAccV, rf: Seq<(Seq<char>, JsonV)>) -> Result<
    ReplaceAccV,
    UpdateError,
>
    decreases rf.len(),
{
    if rf.len() == 0 {
        Result::Ok(acc)
    } else {
        match rf[0].1 {
            JsonV::Arr(vs) => spec_replace_fold(
                spec_replace_step(acc, rf[0].0, vs),
                rf.drop_first(),
            ),
            _ => Result::Err(UpdateError::Protocol),
        }
    }
}

/// The add object's keys applied in order, collecting the categories to
/// append; a value that is not an array rejects the directive.
pub open spec fn spec_add_fold(acc: Seq<Seq<char>>, af: Seq<(Seq<char>, JsonV)>) -> Result<
    Seq<Seq<char>>,
    UpdateError,
>
    decreases af.len(),
{
    if af.len() == 0 {
        Result::Ok(acc)
    } else {
        match af[0].1 {
            JsonV::Arr(vs) => spec_add_fold(
                if af[0].0 == "category"@ {
                    acc + str_elems(vs)
                } else {
                    acc
                },
                af.drop_first(),
            ),
            _ => Result::Err(UpdateError::Protocol),
        }
    }
}

/// Whether a delete-by-name array names the categories.
pub open spec fn names_category(ks: Seq<JsonV>) -> bool {
    exists|i: int| 0 <= i < ks.len() && ks[i] == JsonV::Str("category"@)
}

/// The category values a delete object asks to remove, in order. A
/// `category` value that is not an array is quietly ignored.
pub open spec fn spec_delete_values(df: Seq<(Seq<char>, JsonV)>) -> Seq<Seq<char>>
    decreases df.len(),
{
    if df.len() == 0 {
        Seq::empty()
    } else {
        (if df[0].0 == "category"@ {
            match df[0].1 {
                JsonV::Arr(vs) => str_elems(vs),
                _ => Seq::empty(),
            }
        } else {
            Seq::empty()
        }) + spec_delete_values(df.drop_first())
    }
}

/// What the delete part asks: everything, or the named values; a payload
/// that is neither an array nor an object rejects the directive.
pub open spec fn spec_delete(del: Option<JsonV>) -> Result<(bool, Seq<Seq<char>>), UpdateError> {
    match del {
        Option::None => Result::Ok((false, Seq::empty())),
        Option::Some(JsonV::Arr(ks)) => Result::Ok((names_category(ks), Seq::empty())),
        Option::Some(JsonV::Obj(df)) => Result::Ok((false, spec_delete_values(df))),
        Option::Some(_) => Result::Err(UpdateError::Protocol),
    }
}

/// What a whole directive does to an entry: the new entry, and the category
/// operations for the store. `replace` runs first, then `add`, then
/// `delete`; the slug, kind, creation time and the rest are untouched, and
/// the caller stamps the update time.
pub open spec fn spec_apply_update(cur: EntryV, d: UpdateDirectiveV) -> Result<
    (EntryV, CategoryDiffV),
    UpdateError,
> {
    let acc0 = ReplaceAccV {
        content: cur.content,
        content_format: cur.content_format,
        title: cur.title,
        cat_replace: Option::None,
    };
    let racc = match d.replace {
        Option::Some(rf) => spec_replace_fold(acc0, rf),
        Option::None => Result::Ok(acc0),
    };
    match racc {
        Result::Err(e) => Result::Err(e),
        Result::Ok(acc) => {
            let added = match d.add {
                Option::Some(af) => spec_add_fold(Seq::empty(), af),
                Option::None => Result::Ok(Seq::<Seq<char>>::empty()),
            };
            match added {
                Result::Err(e) => Result::Err(e),
                Result::Ok(add_cats) => match spec_delete(d.delete) {
                    Result::Err(e) => Result::Err(e),
                    Result::Ok(del) => {
                        let diff = CategoryDiffV {
                            replace_with: acc.cat_replace,
                            add: add_cats,
                            delete_all: del.0,
                            delete_values: del.1,
                        };
                        Result::Ok(
                            (
                                EntryV {
                                    content: acc.content,
                                    content_format: acc.content_format,
                                    title: acc.title,
                                    categories: apply_cat_diff(cur.categories, diff),
                                    ..cur
                                },
                                diff,
                            ),
                        )
                    },
                },
            }
        },
    }
}

/// Concatenation distributes over the delete object's values.
proof fn lemma_delete_values_concat(a: Seq<(Seq<char>, JsonV)>, b: Seq<(Seq<char>, JsonV)>)
    ensures
        spec_delete_values(a + b) == spec_delete_values(a) + spec_delete_values(b),
    decreases a.len(),
{
    if a.len() == 0 {
        assert(a + b =~= b);
        assert(spec_delete_values(a) =~= Seq::<Seq<char>>::empty());
        assert(spec_delete_values(a) + spec_delete_values(b) =~= spec_delete_values(b));
    } else {
        lemma_delete_values_concat(a.drop_first(), b);
        assert((a + b).drop_first() =~= a.drop_first() + b);
        assert((a + b)[0] == a[0]);
        assert(spec_delete_values(a + b) =~= spec_delete_values(a) + spec_delete_values(b));
    }
}

/// Copies a category list; the copy has the same model.
fn clone_strings(v: &Vec<String>) -> (r: Vec<String>)
    ensures
        catseq(r@) == catseq(v@),
{
    let mut out: Vec<String> = Vec::new();
    let mut i: usize = 0;
    while i < v.len()
        invariant
            i <= v@.len(),
            catseq(out@) == catseq(v@).subrange(0, i as int),
        decreases v@.len() - i,
    {
        let ghost prev = out@;
        out.push(v[i].clone());
        proof {
            assert(catseq(out@) =~= catseq(prev).push(v@[i as int]@));
            assert(catseq(v@).subrange(0, i + 1) =~= catseq(v@).subrange(0, i as int).push(
                catseq(v@)[i as int],
            ));
        }
        i = i + 1;
    }
    proof {
        assert(catseq(v@).subrange(0, v@.len() as int) =~= catseq(v@));
    }
    out
}

/// Collects the string elements of an array, in order.
fn collect_str_elems(vs: &Vec<JsonValue>) -> (r: Vec<String>)
    ensures
        catseq(r@) == str_elems(jv_seq(vs@)),
{
    proof {
        lemma_jv_seq(vs@);
    }
    let ghost m = jv_seq(vs@);
    let mut out: Vec<String> = Vec::new();
    let mut i: usize = 0;
    while i < vs.len()
        invariant
            i <= vs@.len(),
            m == jv_seq(vs@),
            m.len() == vs@.len(),
            forall|j: int| 0 <= j < vs@.len() ==> m[j] == jv(vs@[j]),
            catseq(out@) == str_elems(m.take(i as int)),
        decreases vs@.len() - i,
    {
        let ghost prev = out@;
        match &vs[i] {
            JsonValue::Str(c) => {
                out.push(c.clone());
                proof {
                    assert(catseq(out@) =~= catseq(prev).push(c@));
                }
            },
            _ => {},
        }
        proof {
            assert(m.take(i + 1) =~= m.take(i as int) + seq![m[i as int]]);
            lemma_str_elems_concat(m.take(i as int), seq![m[i as int]]);
            assert(seq![m[i as int]].drop_first() =~= Seq::<JsonV>::empty());
            assert(str_elems(Seq::<JsonV>::empty()) =~= Seq::<Seq<char>>::empty());
            assert(str_elems(seq![m[i as int]]) =~= (match m[i as int] {
                JsonV::Str(s) => seq![s],
                _ => Seq::<Seq<char>>::empty(),
            }));
            assert(catseq(out@) =~= str_elems(m.take(i + 1)));
        }
        i = i + 1;
    }
    proof {
        assert(m.take(vs@.len() as int) =~= m);
    }
    out
}

/// Tests whether the list holds the given characters.
fn contains_str(vals: &Vec<String>, s: &String) -> (r: bool)
    ensures
        r == catseq(vals@).contains(s@),
{
    let mut i: usize = 0;
    while i < vals.len()
        invariant
            i <= vals@.len(),
            forall|j: int| 0 <= j < i ==> catseq(vals@)[j] != s@,
        decreases vals@.len() - i,
    {
        if str_eq(vals[i].as_str(), s.as_str()) {
            proof {
                assert(catseq(vals@)[i as int] == s@);
            }
            return true;
        }
        i = i + 1;
    }
    proof {
        assert(forall|j: int| 0 <= j < catseq(vals@).len() ==> catseq(vals@)[j] != s@);
    }
    false
}

/// Applies the diff's operations to a category list.
fn exec_apply_cats(old: &Vec<String>, diff: &CategoryDiff) -> (r: Vec<String>)
    ensures
        catseq(r@) == apply_cat_diff(catseq(old@), cdv(*diff)),
{
    let mut merged: Vec<String> = match &diff.replace_with {
        Some(cs) => clone_strings(cs),
        None => clone_strings(old),
    };
    let mut adds = clone_strings(&diff.add);
    let ghost merged_before = catseq(merged@);
    let ghost adds_m = catseq(adds@);
    merged.append(&mut adds);
    proof {
        assert(catseq(merged@) =~= merged_before + adds_m);
    }
    if diff.delete_all {
        let out: Vec<String> = Vec::new();
        proof {
            assert(catseq(out@) =~= Seq::<Seq<char>>::empty());
        }
        return out;
    }
    let ghost m = catseq(merged@);
    let ghost dvals = catseq(diff.delete_values@);
    let ghost pred = |c: Seq<char>| !dvals.contains(c);
    let mut out: Vec<String> = Vec::new();
    let mut i: usize = 0;
    proof {
        assert(m.take(0).filter(pred) =~= Seq::<Seq<char>>::empty()) by {
            reveal(Seq::filter);
            assert(m.take(0) =~= Seq::<Seq<char>>::empty());
        }
        assert(catseq(out@) =~= Seq::<Seq<char>>::empty());
    }
    while i < merged.len()
        invariant
            i <= merged@.len(),
            m == catseq(merged@),
            dvals == catseq(diff.delete_values@),
            pred == (|c: Seq<char>| !dvals.contains(c)),
            catseq(out@) == m.take(i as int).filter(pred),
        decreases merged@.len() - i,
    {
        let ghost fprev = m.take(i as int).filter(pred);
        proof {
            reveal(Seq::filter);
            assert(m.take(i + 1).drop_last() =~= m.take(i as int));
            assert(m.take(i + 1).last() == m[i as int]);
            assert(m.take(i + 1).filter(pred) == if pred(m[i as int]) {
                fprev.push(m[i as int])
            } else {
                fprev
            });
        }
        let keep = !contains_str(&diff.delete_values, &merged[i]);
        if keep {
            let ghost prev = out@;
            out.push(merged[i].clone());
            proof {
                assert(catseq(out@) =~= catseq(prev).push(m[i as int]));
            }
        }
        i = i + 1;
    }
    proof {
        assert(m.take(merged@.len() as int) =~= m);
    }
    out
}

/// Applies one directive to an entry, in memory: the new entry state, and
/// the category operations the store must run, or the protocol error that
/// rejects the whole directive with nothing applied.
#[verifier::loop_isolation(false)]
pub fn apply_update(cur: &Entry, d: &UpdateDirective) -> (r: Result<
    (Entry, CategoryDiff),
    UpdateError,
>)
    ensures
        match r {
            Result::Ok(p) => spec_apply_update(ev(*cur), udv(*d)) == Result::<
                (EntryV, CategoryDiffV),
                UpdateError,
            >::Ok((ev(p.0), cdv(p.1))),
            Result::Err(e) => spec_apply_update(ev(*cur), udv(*d)) == Result::<
                (EntryV, CategoryDiffV),
                UpdateError,
            >::Err(e),
        },
{
    let ghost acc0 = ReplaceAccV {
        content: cur.content@,
        content_format: cur.content_format,
        title: ov(cur.title),
        cat_replace: Option::None,
    };
    let mut content = cur.content.clone();
    let mut content_format = cur.content_format;
    let mut title = match &cur.title {
        Some(t) => Some(t.clone()),
        None => None,
    };
    let mut cat_replace: Option<Vec<String>> = None;

    let ghost racc_spec = match udv(*d).replace {
        Option::Some(rf) => spec_replace_fold(acc0, rf),
        Option::None => Result::<ReplaceAccV, UpdateError>::Ok(acc0),
    };
    match &d.replace {
        Some(rf) => {
            proof {
                lemma_jv_fields(rf@);
            }
            let ghost rm = jv_fields(rf@);
            proof {
                assert(rm.skip(0) =~= rm);
            }
            let mut i: usize = 0;
            while i < rf.len()
                invariant
                    i <= rf@.len(),
                    racc_spec == spec_replace_fold(
                        ReplaceAccV {
                            content: content@,
                            content_format,
                            title: ov(title),
                            cat_replace: ocatseq(cat_replace),
                        },
                        rm.skip(i as int),
                    ),
                decreases rf@.len() - i,
            {
                let ghost acc_now = ReplaceAccV {
                    content: content@,
                    content_format,
                    title: ov(title),
                    cat_replace: ocatseq(cat_replace),
                };
                proof {
                    assert(rm.skip(i as int).len() > 0);
                    assert(rm.skip(i as int)[0] == rm[i as int]);
                    assert(rm.skip(i as int).drop_first() =~= rm.skip(i + 1));
                }
                let k = &rf[i].0;
                match &rf[i].1 {
                    JsonValue::Arr(vs) => {
                        proof {
                            lemma_jv_seq(vs@);
                        }
                        if str_eq(k.as_str(), "content") {
                            if vs.len() > 0 {
                                match &vs[0] {
                                    JsonValue::Str(c) => {
                                        content = c.clone();
                                        content_format = None;
                                    },
                                    JsonValue::Obj(cf) => {
                                        match crate::json::obj_get(cf, "html") {
                                            Some(JsonValue::Str(h)) => {
                                                content = h.clone();
                                                content_format = Some(ContentFormat::Html);
                                            },
                                            Some(_) | None => {},
                                        }
                                    },
                                    _ => {},
                                }
                            }
                        } else if str_eq(k.as_str(), "name") {
                            let mut set = false;
                            if vs.len() > 0 {
                                match &vs[0] {
                                    JsonValue::Str(t) => {
                                        title = Some(t.clone());
                                        set = true;
                                    },
                                    _ => {},
                                }
                            }
                            if !set {
                                title = None;
                            }
                        } else if str_eq(k.as_str(), "category") {
                            cat_replace = Some(collect_str_elems(vs));
                        }
                        proof {
                            assert(ReplaceAccV {
                                content: content@,
                                content_format,
                                title: ov(title),
                                cat_replace: ocatseq(cat_replace),
                            } == spec_replace_step(acc_now, rm[i as int].0, jv_seq(vs@)));
                        }
                    },
                    _ => {
                        proof {
                            assert(spec_replace_fold(acc_now, rm.skip(i as int))
                                == Result::<ReplaceAccV, UpdateError>::Err(UpdateError::Protocol));
                        }
                        return Err(UpdateError::Protocol);
                    },
                }
                i = i + 1;
            }
            proof {
                assert(rm.skip(rm.len() as int) =~= Seq::<(Seq<char>, JsonV)>::empty());
            }
        },
        None => {},
    }
    let ghost racc = ReplaceAccV {
        content: content@,
        content_format,
        title: ov(title),
        cat_replace: ocatseq(cat_replace),
    };
    proof {
        assert(racc_spec == Result::<ReplaceAccV, UpdateError>::Ok(racc));
    }

    let mut added: Vec<String> = Vec::new();
    proof {
        assert(catseq(added@) =~= Seq::<Seq<char>>::empty());
    }
    let ghost add_spec = match udv(*d).add {
        Option::Some(af) => spec_add_fold(Seq::empty(), af),
        Option::None => Result::<Seq<Seq<char>>, UpdateError>::Ok(Seq::empty()),
    };
    match &d.add {
        Some(af) => {
            proof {
                lemma_jv_fields(af@);
            }
            let ghost am = jv_fields(af@);
            proof {
                assert(am.skip(0) =~= am);
            }
            let mut i: usize = 0;
            while i < af.len()
                invariant
                    i <= af@.len(),
                    add_spec == spec_add_fold(catseq(added@), am.skip(i as int)),
                decreases af@.len() - i,
            {
                let ghost acc_now = catseq(added@);
                proof {
                    assert(am.skip(i as int).len() > 0);
                    assert(am.skip(i as int)[0] == am[i as int]);
                    assert(am.skip(i as int).drop_first() =~= am.skip(i + 1));
                }
                match &af[i].1 {
                    JsonValue::Arr(vs) => {
                        if str_eq(af[i].0.as_str(), "category") {
                            let mut more = collect_str_elems(vs);
                            let ghost more_m = catseq(more@);
                            added.append(&mut more);
                            proof {
                                assert(catseq(added@) =~= acc_now + more_m);
                            }
                        }
                    },
                    _ => {
                        proof {
                            assert(spec_add_fold(acc_now, am.skip(i as int)) == Result::<
                                Seq<Seq<char>>,
                                UpdateError,
                            >::Err(UpdateError::Protocol));
                        }
                        return Err(UpdateError::Protocol);
                    },
                }
                i = i + 1;
            }
            proof {
                assert(am.skip(am.len() as int) =~= Seq::<(Seq<char>, JsonV)>::empty());
            }
        },
        None => {},
    }
    proof {
        assert(add_spec == Result::<Seq<Seq<char>>, UpdateError>::Ok(catseq(added@)));
    }

    let mut delete_all = false;
    let mut delete_values: Vec<String> = Vec::new();
    proof {
        assert(catseq(delete_values@) =~= Seq::<Seq<char>>::empty());
    }
    match &d.delete {
        None => {},
        Some(JsonValue::Arr(ks)) => {
            proof {
                lemma_jv_seq(ks@);
            }
            let ghost km = jv_seq(ks@);
            let mut i: usize = 0;
            while i < ks.len()
                invariant
                    i <= ks@.len(),
                    !delete_all ==> forall|j: int| 0 <= j < i ==> km[j] != JsonV::Str(
                        "category"@,
                    ),
                    delete_all ==> names_category(km),
                decreases ks@.len() - i,
            {
                match &ks[i] {
                    JsonValue::Str(s) => {
                        if str_eq(s.as_str(), "category") {
                            proof {
                                assert(km[i as int] == JsonV::Str("category"@));
                            }
                            delete_all = true;
                        }
                    },
                    _ => {},
                }
                i = i + 1;
            }
            proof {
                if !delete_all {
                    assert(forall|j: int| 0 <= j < km.len() ==> km[j] != JsonV::Str("category"@));
                }
                assert(delete_all == names_category(km));
            }
        },
        Some(JsonValue::Obj(df)) => {
            proof {
                lemma_jv_fields(df@);
            }
            let ghost dm = jv_fields(df@);
            let mut i: usize = 0;
            while i < df.len()
                invariant
                    i <= df@.len(),
                    catseq(delete_values@) == spec_delete_values(dm.take(i as int)),
                    !delete_all,
                decreases df@.len() - i,
            {
                let ghost acc_now = catseq(delete_values@);
                if str_eq(df[i].0.as_str(), "category") {
                    match &df[i].1 {
                        JsonValue::Arr(vs) => {
                            let mut more = collect_str_elems(vs);
                            let ghost more_m = catseq(more@);
                            delete_values.append(&mut more);
                            proof {
                                assert(catseq(delete_values@) =~= acc_now + more_m);
                            }
                        },
                        _ => {},
                    }
                }
                proof {
                    assert(dm.take(i + 1) =~= dm.take(i as int) + seq![dm[i as int]]);
                    lemma_delete_values_concat(dm.take(i as int), seq![dm[i as int]]);
                    assert(seq![dm[i as int]].drop_first() =~= Seq::<(Seq<char>, JsonV)>::empty());
                    assert(spec_delete_values(Seq::<(Seq<char>, JsonV)>::empty()) =~= Seq::<
                        Seq<char>,
                    >::empty());
                    assert(catseq(delete_values@) =~= spec_delete_values(dm.take(i + 1)));
                }
                i = i + 1;
            }
            proof {
                assert(dm.take(dm.len() as int) =~= dm);
            }
        },
        Some(_) => {
            return Err(UpdateError::Protocol);
        },
    }

    let diff = CategoryDiff { replace_with: cat_replace, add: added, delete_all, delete_values };
    let new_categories = exec_apply_cats(&cur.categories, &diff);
    let e2 = Entry {
        access_token: match &cur.access_token {
            Some(t) => Some(t.clone()),
            None => None,
        },
        kind: cur.kind.clone(),
        content,
        content_format,
        title,
        categories: new_categories,
        created_at: match &cur.created_at {
            Some(t) => Some(t.clone()),
            None => None,
        },
        updated_at: match &cur.updated_at {
            Some(t) => Some(t.clone()),
            None => None,
        },
        slug: match &cur.slug {
            Some(t) => Some(t.clone()),
            None => None,
        },
        bookmark_of: match &cur.bookmark_of {
            Some(t) => Some(t.clone()),
            None => None,
        },
        photos: match &cur.photos {
            Some(ps) => Some(clone_photos(ps)),
            None => None,
        },
    };
    proof {
        assert(ev(e2) =~= (match spec_apply_update(ev(*cur), udv(*d)) {
            Result::Ok(p) => p.0,
            Result::Err(_) => ev(e2),
        }));
    }
    Ok((e2, diff))
}

/// Copies a photo list; the copy has the same model.
fn clone_photos(ps: &Vec<crate::entry::Photo>) -> (r: Vec<crate::entry::Photo>)
    ensures
        crate::entry::phseq(r@) == crate::entry::phseq(ps@),
{
    let mut out: Vec<crate::entry::Photo> = Vec::new();
    let mut i: usize = 0;
    while i < ps.len()
        invariant
            i <= ps@.len(),
            crate::entry::phseq(out@) == crate::entry::phseq(ps@).subrange(0, i as int),
        decreases ps@.len() - i,
    {
        let ghost prev = out@;
        let p = crate::entry::Photo {
            url: ps[i].url.clone(),
            alt: match &ps[i].alt {
                Some(a) => Some(a.clone()),
                None => None,
            },
        };
        out.push(p);
        proof {
            assert(crate::entry::phseq(out@) =~= crate::entry::phseq(prev).push(
                crate::entry::phv(ps@[i as int]),
            ));
            assert(crate::entry::phseq(ps@).subrange(0, i + 1) =~= crate::entry::phseq(
                ps@,
            ).subrange(0, i as int).push(crate::entry::phseq(ps@)[i as int]));
        }
        i = i + 1;
    }
    proof {
        assert(crate::entry::phseq(ps@).subrange(0, ps@.len() as int) =~= crate::entry::phseq(
            ps@,
        ));
    }
    out
}

/// An object's fields, when the value is an object at all.
pub open spec fn spec_obj_fields(o: Option<JsonV>) -> Option<Seq<(Seq<char>, JsonV)>> {
    match o {
        Option::Some(JsonV::Obj(pf)) => Option::Some(pf),
        _ => Option::None,
    }
}

/// What a wire update document parses to: the target slug is the `url` with
/// the site prefix stripped; the `replace` and `add` parts are kept when they
/// are objects and dropped otherwise; the `delete` part is kept as it
/// arrived. A document without a `url` string, or whose `url` lies outside
/// the site, is rejected.
pub open spec fn spec_parse_update(d: JsonV, host: Seq<char>) -> Result<
    UpdateDirectiveV,
    UpdateError,
> {
    match d {
        JsonV::Obj(fs) => match jget(fs, "url"@) {
            Option::Some(JsonV::Str(u)) => if spec_starts_with(u, host) {
                Result::Ok(
                    UpdateDirectiveV {
                        target_slug: u.skip(host.len() as int),
                        replace: spec_obj_fields(jget(fs, "replace"@)),
                        add: spec_obj_fields(jget(fs, "add"@)),
                        delete: jget(fs, "delete"@),
                    },
                )
            } else {
                Result::Err(UpdateError::UrlOutsideSite)
            },
            _ => Result::Err(UpdateError::NoUrl),
        },
        _ => Result::Err(UpdateError::NoUrl),
    }
}

/// Copies an optional object part out of the document.
fn take_obj_part(o: Option<&JsonValue>) -> (r: Option<Vec<(String, JsonValue)>>)
    ensures
        match r {
            Option::Some(pf) => spec_obj_fields(match o {
                Option::Some(x) => Option::Some(jv(*x)),
                Option::None => Option::None,
            }) == Option::Some(jv_fields(pf@)),
            Option::None => spec_obj_fields(match o {
                Option::Some(x) => Option::Some(jv(*x)),
                Option::None => Option::None,
            }) is None,
        },
{
    match o {
        Some(x) => {
            match x {
                JsonValue::Obj(_) => {},
                _ => {
                    return None;
                },
            }
            let c = crate::json::clone_json(x);
            match c {
                JsonValue::Obj(pf) => Some(pf),
                _ => {
                    proof {
                        assert(false);
                    }
                    None
                },
            }
        },
        None => None,
    }
}

/// Parses a wire update document against the site's base URL.
pub fn parse_update_directive(doc: &JsonValue, host: &str) -> (r: Result<
    UpdateDirective,
    UpdateError,
>)
    ensures
        match r {
            Result::Ok(d) => spec_parse_update(jv(*doc), host@) == Result::<
                UpdateDirectiveV,
                UpdateError,
            >::Ok(udv(d)),
            Result::Err(e) => spec_parse_update(jv(*doc), host@) == Result::<
                UpdateDirectiveV,
                UpdateError,
            >::Err(e),
        },
{
    match doc {
        JsonValue::Obj(fs) => {
            match crate::json::obj_get(fs, "url") {
                Some(JsonValue::Str(u)) => {
                    if starts_with(u.as_str(), host) {
                        let ul = u.as_str().unicode_len();
                        let hl = host.unicode_len();
                        let slug = String::from_str(u.as_str().substring_char(hl, ul));
                        let replace = take_obj_part(crate::json::obj_get(fs, "replace"));
                        let add = take_obj_part(crate::json::obj_get(fs, "add"));
                        let delete = match crate::json::obj_get(fs, "delete") {
                            Some(x) => Some(crate::json::clone_json(x)),
                            None => None,
                        };
                        proof {
                            assert(u@.subrange(host@.len() as int, u@.len() as int) =~= u@.skip(
                                host@.len() as int,
                            ));
                        }
                        Ok(UpdateDirective { target_slug: slug, replace, add, delete })
                    } else {
                        Err(UpdateError::UrlOutsideSite)
                    }
                },
                Some(_) | None => Err(UpdateError::NoUrl),
            }
        },
        _ => Err(UpdateError::NoUrl),
    }
}

} // verus!
