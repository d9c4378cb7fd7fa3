//! A small JSON tree of plain values, and its mathematical model.
//!
//! The wire documents this library decodes arrive as JSON. Parsing and
//! serialising the raw bytes is done by serde_json behind the trusted items at
//! the bottom of this file; everything the library decides about a document is
//! decided on the `JsonValue` tree, which holds nothing but the library's own
//! plain values.

use vstd::prelude::*;

verus! {

broadcast use vstd::std_specs::vec::group_vec_axioms, vstd::seq::group_seq_axioms;

/// One JSON value, as plain data. Numbers carry no payload: no rule of this
/// library reads a number, it only needs to see that a value is not a string,
/// an array or an object.
#[derive(Debug)]
pub enum JsonValue {
    Null,
    Bool(bool),
    Num,
    Str(String),
    Arr(Vec<JsonValue>),
    Obj(Vec<(String, JsonValue)>),
}

/// The mathematical model of a `JsonValue`: the same tree over `Seq`.
pub enum JsonV {
    Null,
    Bool(bool),
    Num,
    Str(Seq<char>),
    Arr(Seq<JsonV>),
    Obj(Seq<(Seq<char>, JsonV)>),
}

/// The model of a JSON tree.
pub open spec fn jv(v: JsonValue) -> JsonV
    decreases v,
{
    match v {
        JsonValue::Null => JsonV::Null,
        JsonValue::Bool(b) => JsonV::Bool(b),
        JsonValue::Num => JsonV::Num,
        JsonValue::Str(s) => JsonV::Str(s@),
        JsonValue::Arr(vs) => JsonV::Arr(jv_seq(vs@)),
        JsonValue::Obj(fs) => JsonV::Obj(jv_fields(fs@)),
    }
}

/// The models of the elements of a JSON array.
pub open spec fn jv_seq(s: Seq<JsonValue>) -> Seq<JsonV>
    decreases s,
{
    if s.len() == 0 {
        Seq::empty()
    } else {
        seq![jv(s[0])] + jv_seq(s.drop_first())
    }
}

/// The models of the fields of a JSON object.
pub open spec fn jv_fields(s: Seq<(String, JsonValue)>) -> Seq<(Seq<char>, JsonV)>
    decreases s,
{
    if s.len() == 0 {
        Seq::empty()
    } else {
        seq![(s[0].0@, jv(s[0].1))] + jv_fields(s.drop_first())
    }
}

/// `jv_seq` maps the model over the elements, one for one.
pub proof fn lemma_jv_seq(s: Seq<JsonValue>)
    ensures
        jv_seq(s).len() == s.len(),
        forall|i: int| 0 <= i < s.len() ==> jv_seq(s)[i] == jv(s[i]),
    decreases s.len(),
{
    if s.len() > 0 {
        lemma_jv_seq(s.drop_first());
    }
}

/// `jv_fields` maps the model over the fields, one for one.
pub proof fn lemma_jv_fields(s: Seq<(String, JsonValue)>)
    ensures
        jv_fields(s).len() == s.len(),
        forall|i: int| 0 <= i < s.len() ==> jv_fields(s)[i] == (s[i].0@, jv(s[i].1)),
    decreases s.len(),
{
    if s.len() > 0 {
        lemma_jv_fields(s.drop_first());
    }
}

/// The value under `key` in an object's fields: the first match.
pub open spec fn jget(fs: Seq<(Seq<char>, JsonV)>, key: Seq<char>) -> Option<JsonV>
    decreases fs.len(),
{
    if fs.len() == 0 {
        Option::None
    } else if fs[0].0 == key {
        Option::Some(fs[0].1)
    } else {
        jget(fs.drop_first(), key)
    }
}

/// When none of the first `i` fields carries `key`, the lookup is decided by
/// the rest.
pub proof fn lemma_jget_skip(fs: Seq<(Seq<char>, JsonV)>, key: Seq<char>, i: int)
    requires
        0 <= i <= fs.len(),
        forall|j: int| 0 <= j < i ==> fs[j].0 != key,
    ensures
        jget(fs, key) == jget(fs.skip(i), key),
    decreases i,
{
    if i > 0 {
        lemma_jget_skip(fs, key, i - 1);
        assert(fs.skip(i - 1).len() > 0);
        assert(fs.skip(i - 1)[0] == fs[i - 1]);
        assert(fs.skip(i - 1).drop_first() =~= fs.skip(i));
    } else {
        assert(fs.skip(0) =~= fs);
    }
}

/// When the first match for `key` stands at `i`, the lookup yields it.
pub proof fn lemma_jget_at(fs: Seq<(Seq<char>, JsonV)>, key: Seq<char>, i: int)
    requires
        0 <= i < fs.len(),
        fs[i].0 == key,
        forall|j: int| 0 <= j < i ==> fs[j].0 != key,
    ensures
        jget(fs, key) == Option::Some(fs[i].1),
{
    lemma_jget_skip(fs, key, i);
    assert(fs.skip(i).len() > 0);
    assert(fs.skip(i)[0] == fs[i]);
}

/// When no field carries `key`, the lookup yields nothing.
pub proof fn lemma_jget_none(fs: Seq<(Seq<char>, JsonV)>, key: Seq<char>)
    requires
        forall|j: int| 0 <= j < fs.len() ==> fs[j].0 != key,
    ensures
        jget(fs, key) is None,
{
    lemma_jget_skip(fs, key, fs.len() as int);
    assert(fs.skip(fs.len() as int) =~= Seq::<(Seq<char>, JsonV)>::empty());
}

/// Every element is a JSON string.
pub open spec fn all_str(vs: Seq<JsonV>) -> bool {
    forall|i: int| 0 <= i < vs.len() ==> vs[i] is Str
}

/// Every element is a JSON object.
pub open spec fn all_obj(vs: Seq<JsonV>) -> bool {
    forall|i: int| 0 <= i < vs.len() ==> vs[i] is Obj
}

/// The characters of each element of an all-string array.
pub open spec fn strs_of(vs: Seq<JsonV>) -> Seq<Seq<char>> {
    Seq::new(vs.len(), |i: int| vs[i]->Str_0)
}

/// Finds the value stored under `key`, if any.
pub fn obj_get<'a>(fs: &'a Vec<(String, JsonValue)>, key: &str) -> (r: Option<&'a JsonValue>)
    ensures
        match r {
            Option::Some(x) => jget(jv_fields(fs@), key@) == Option::Some(jv(*x)),
            Option::None => jget(jv_fields(fs@), key@) is None,
        },
{
    let ghost mfs = jv_fields(fs@);
    proof {
        lemma_jv_fields(fs@);
    }
    let mut i: usize = 0;
    while i < fs.len()
        invariant
            i <= fs@.len(),
            mfs == jv_fields(fs@),
            mfs.len() == fs@.len(),
            forall|j: int| 0 <= j < fs@.len() ==> mfs[j] == (fs@[j].0@, jv(fs@[j].1)),
            forall|j: int| 0 <= j < i ==> mfs[j].0 != key@,
        decreases fs@.len() - i,
    {
        if crate::text::str_eq(fs[i].0.as_str(), key) {
            proof {
                lemma_jget_skip(mfs, key@, i as int);
                assert(mfs.skip(i as int)[0] == mfs[i as int]);
            }
            return Some(&fs[i].1);
        }
        i = i + 1;
    }
    proof {
        lemma_jget_skip(mfs, key@, mfs.len() as int);
        assert(mfs.skip(mfs.len() as int) =~= Seq::<(Seq<char>, JsonV)>::empty());
    }
    None
}

/// Tests whether every element of an array is a string.
pub fn arr_all_str(vs: &Vec<JsonValue>) -> (r: bool)
    ensures
        r == all_str(jv_seq(vs@)),
{
    proof {
        lemma_jv_seq(vs@);
    }
    let mut i: usize = 0;
    while i < vs.len()
        invariant
            i <= vs@.len(),
            jv_seq(vs@).len() == vs@.len(),
            forall|j: int| 0 <= j < vs@.len() ==> jv_seq(vs@)[j] == jv(vs@[j]),
            forall|j: int| 0 <= j < i ==> jv_seq(vs@)[j] is Str,
        decreases vs@.len() - i,
    {
        if !(matches!(&vs[i], JsonValue::Str(_))) {
            proof {
                assert(!(jv_seq(vs@)[i as int] is Str));
            }
            return false;
        }
        i = i + 1;
    }
    true
}

/// Tests whether every element of an array is an object.
pub fn arr_all_obj(vs: &Vec<JsonValue>) -> (r: bool)
    ensures
        r == all_obj(jv_seq(vs@)),
{
    proof {
        lemma_jv_seq(vs@);
    }
    let mut i: usize = 0;
    while i < vs.len()
        invariant
            i <= vs@.len(),
            jv_seq(vs@).len() == vs@.len(),
            forall|j: int| 0 <= j < vs@.len() ==> jv_seq(vs@)[j] == jv(vs@[j]),
            forall|j: int| 0 <= j < i ==> jv_seq(vs@)[j] is Obj,
        decreases vs@.len() - i,
    {
        if !(matches!(&vs[i], JsonValue::Obj(_))) {
            proof {
                assert(!(jv_seq(vs@)[i as int] is Obj));
            }
            return false;
        }
        i = i + 1;
    }
    true
}

/// Copies the characters of each element of an all-string array.
pub fn arr_strings(vs: &Vec<JsonValue>) -> (r: Vec<String>)
    requires
        all_str(jv_seq(vs@)),
    ensures
        r.deep_view() == strs_of(jv_seq(vs@)),
{
    proof {
        lemma_jv_seq(vs@);
    }
    let mut out: Vec<String> = Vec::new();
    let mut i: usize = 0;
    while i < vs.len()
        invariant
            i <= vs@.len(),
            all_str(jv_seq(vs@)),
            jv_seq(vs@).len() == vs@.len(),
            forall|j: int| 0 <= j < vs@.len() ==> jv_seq(vs@)[j] == jv(vs@[j]),
            out.deep_view() =~= strs_of(jv_seq(vs@)).subrange(0, i as int),
        decreases vs@.len() - i,
    {
        let ghost prev = out.deep_view();
        match &vs[i] {
            JsonValue::Str(s) => {
                out.push(s.clone());
            },
            _ => {
                proof {
                    assert(jv_seq(vs@)[i as int] is Str);
                    assert(false);
                }
            },
        }
        proof {
            assert(out.deep_view() =~= prev.push(vs@[i as int]->Str_0@));
            assert(strs_of(jv_seq(vs@)).subrange(0, i + 1) =~= strs_of(jv_seq(vs@)).subrange(
                0,
                i as int,
            ).push(jv_seq(vs@)[i as int]->Str_0));
        }
        i = i + 1;
    }
    proof {
        assert(strs_of(jv_seq(vs@)).subrange(0, vs@.len() as int) =~= strs_of(jv_seq(vs@)));
    }
    out
}

/// Whether a property value has one of the shapes the decoder's union of
/// property shapes accepts: a bare string, an array, or a string-keyed
/// object, recursively. Numbers, booleans and nulls are accepted nowhere
/// inside a property, and their presence fails the whole decode.
pub open spec fn mpv_valid(v: JsonV) -> bool
    decreases v,
{
    match v {
        JsonV::Str(_) => true,
        JsonV::Arr(vs) => mpv_valid_seq(vs),
        JsonV::Obj(fs) => mpv_valid_fields(fs),
        _ => false,
    }
}

/// Every element of an array is a valid property value.
pub open spec fn mpv_valid_seq(s: Seq<JsonV>) -> bool
    decreases s,
{
    s.len() == 0 || (mpv_valid(s[0]) && mpv_valid_seq(s.drop_first()))
}

/// Every value of an object is a valid property value.
pub open spec fn mpv_valid_fields(s: Seq<(Seq<char>, JsonV)>) -> bool
    decreases s,
{
    s.len() == 0 || (mpv_valid(s[0].1) && mpv_valid_fields(s.drop_first()))
}

/// `mpv_valid_seq` holds exactly when every element is valid.
pub proof fn lemma_mpv_valid_seq(s: Seq<JsonV>)
    ensures
        mpv_valid_seq(s) <==> (forall|i: int| 0 <= i < s.len() ==> mpv_valid(s[i])),
    decreases s.len(),
{
    if s.len() > 0 {
        lemma_mpv_valid_seq(s.drop_first());
        if mpv_valid(s[0]) && mpv_valid_seq(s.drop_first()) {
            assert forall|i: int| 0 <= i < s.len() implies mpv_valid(s[i]) by {
                if i > 0 {
                    assert(s.drop_first()[i - 1] == s[i]);
                }
            }
        }
        if forall|i: int| 0 <= i < s.len() ==> mpv_valid(s[i]) {
            assert forall|i: int| 0 <= i < s.drop_first().len() implies mpv_valid(
                s.drop_first()[i],
            ) by {
                assert(s.drop_first()[i] == s[i + 1]);
            }
        }
    }
}

/// `mpv_valid_fields` holds exactly when every value is valid.
pub proof fn lemma_mpv_valid_fields(s: Seq<(Seq<char>, JsonV)>)
    ensures
        mpv_valid_fields(s) <==> (forall|i: int| 0 <= i < s.len() ==> mpv_valid(s[i].1)),
    decreases s.len(),
{
    if s.len() > 0 {
        lemma_mpv_valid_fields(s.drop_first());
        if mpv_valid(s[0].1) && mpv_valid_fields(s.drop_first()) {
            assert forall|i: int| 0 <= i < s.len() implies mpv_valid(s[i].1) by {
                if i > 0 {
                    assert(s.drop_first()[i - 1] == s[i]);
                }
            }
        }
        if forall|i: int| 0 <= i < s.len() ==> mpv_valid(s[i].1) {
            assert forall|i: int| 0 <= i < s.drop_first().len() implies mpv_valid(
                s.drop_first()[i].1,
            ) by {
                assert(s.drop_first()[i] == s[i + 1]);
            }
        }
    }
}

/// Tests whether a value has a shape the decoder's property union accepts.
#[verifier::loop_isolation(false)]
pub fn valid_value(v: &JsonValue) -> (r: bool)
    ensures
        r == mpv_valid(jv(*v)),
    decreases *v,
{
    match v {
        JsonValue::Str(_) => true,
        JsonValue::Arr(vs) => {
            proof {
                lemma_jv_seq(vs@);
                lemma_mpv_valid_seq(jv_seq(vs@));
            }
            let mut i: usize = 0;
            while i < vs.len()
                invariant
                    i <= vs@.len(),
                    jv_seq(vs@).len() == vs@.len(),
                    forall|j: int| 0 <= j < vs@.len() ==> jv_seq(vs@)[j] == jv(vs@[j]),
                    mpv_valid_seq(jv_seq(vs@)) <==> (forall|j: int|
                        0 <= j < vs@.len() ==> mpv_valid(jv_seq(vs@)[j])),
                    forall|j: int| 0 <= j < i ==> mpv_valid(jv_seq(vs@)[j]),
                decreases vs@.len() - i,
            {
                proof {
                    assert(decreases_to!(*v => *vs));
                    assert(decreases_to!(*vs => vs@));
                    assert(decreases_to!(vs@ => vs@[i as int]));
                }
                if !valid_value(&vs[i]) {
                    proof {
                        assert(!mpv_valid(jv_seq(vs@)[i as int]));
                        assert(!mpv_valid_seq(jv_seq(vs@)));
                    }
                    return false;
                }
                i = i + 1;
            }
            true
        },
        JsonValue::Obj(fs) => {
            proof {
                lemma_jv_fields(fs@);
                lemma_mpv_valid_fields(jv_fields(fs@));
            }
            let mut i: usize = 0;
            while i < fs.len()
                invariant
                    i <= fs@.len(),
                    jv_fields(fs@).len() == fs@.len(),
                    forall|j: int| 0 <= j < fs@.len() ==> jv_fields(fs@)[j] == (
                        fs@[j].0@,
                        jv(fs@[j].1),
                    ),
                    mpv_valid_fields(jv_fields(fs@)) <==> (forall|j: int|
                        0 <= j < fs@.len() ==> mpv_valid(jv_fields(fs@)[j].1)),
                    forall|j: int| 0 <= j < i ==> mpv_valid(jv_fields(fs@)[j].1),
                decreases fs@.len() - i,
            {
                proof {
                    assert(decreases_to!(*v => *fs));
                    assert(decreases_to!(*fs => fs@));
                    assert(decreases_to!(fs@ => fs@[i as int]));
                    assert(decreases_to!(fs@[i as int] => fs@[i as int].1));
                }
                if !valid_value(&fs[i].1) {
                    proof {
                        assert(!mpv_valid(jv_fields(fs@)[i as int].1));
                        assert(!mpv_valid_fields(jv_fields(fs@)));
                    }
                    return false;
                }
                i = i + 1;
            }
            true
        },
        _ => false,
    }
}

/// Copies a JSON tree; the copy has the same model.
#[verifier::loop_isolation(false)]
pub fn clone_json(v: &JsonValue) -> (r: JsonValue)
    ensures
        jv(r) == jv(*v),
    decreases *v,
{
    match v {
        JsonValue::Null => JsonValue::Null,
        JsonValue::Bool(b) => JsonValue::Bool(*b),
        JsonValue::Num => JsonValue::Num,
        JsonValue::Str(s) => JsonValue::Str(s.clone()),
        JsonValue::Arr(vs) => {
            proof {
                lemma_jv_seq(vs@);
            }
            let mut out: Vec<JsonValue> = Vec::new();
            let mut i: usize = 0;
            while i < vs.len()
                invariant
                    i <= vs@.len(),
                    jv_seq(out@) == jv_seq(vs@).subrange(0, i as int),
                decreases vs@.len() - i,
            {
                proof {
                    assert(decreases_to!(*v => *vs));
                    assert(decreases_to!(*vs => vs@));
                    assert(decreases_to!(vs@ => vs@[i as int]));
                }
                let ghost prev = out@;
                let c = clone_json(&vs[i]);
                out.push(c);
                proof {
                    lemma_jv_seq(out@);
                    lemma_jv_seq(prev);
                    assert(jv_seq(out@) =~= jv_seq(prev).push(jv(vs@[i as int])));
                    assert(jv_seq(vs@).subrange(0, i + 1) =~= jv_seq(vs@).subrange(
                        0,
                        i as int,
                    ).push(jv_seq(vs@)[i as int]));
                }
                i = i + 1;
            }
            proof {
                assert(jv_seq(vs@).subrange(0, vs@.len() as int) =~= jv_seq(vs@));
            }
            JsonValue::Arr(out)
        },
        JsonValue::Obj(fs) => {
            proof {
                lemma_jv_fields(fs@);
            }
            let mut out: Vec<(String, JsonValue)> = Vec::new();
            let mut i: usize = 0;
            while i < fs.len()
                invariant
                    i <= fs@.len(),
                    jv_fields(out@) == jv_fields(fs@).subrange(0, i as int),
                decreases fs@.len() - i,
            {
                proof {
                    assert(decreases_to!(*v => *fs));
                    assert(decreases_to!(*fs => fs@));
                    assert(decreases_to!(fs@ => fs@[i as int]));
                    assert(decreases_to!(fs@[i as int] => fs@[i as int].1));
                }
                let ghost prev = out@;
                let c = clone_json(&fs[i].1);
                out.push((fs[i].0.clone(), c));
                proof {
                    lemma_jv_fields(out@);
                    lemma_jv_fields(prev);
                    assert(jv_fields(out@) =~= jv_fields(prev).push(
                        (fs@[i as int].0@, jv(fs@[i as int].1)),
                    ));
                    assert(jv_fields(fs@).subrange(0, i + 1) =~= jv_fields(fs@).subrange(
                        0,
                        i as int,
                    ).push(jv_fields(fs@)[i as int]));
                }
                i = i + 1;
            }
            proof {
                assert(jv_fields(fs@).subrange(0, fs@.len() as int) =~= jv_fields(fs@));
            }
            JsonValue::Obj(out)
        },
    }
}

/// serde_json's own value tree, declared so that the conversion helpers below
/// can carry it through their signatures. The library never looks inside it.
#[verifier::external_type_specification]
#[verifier::external_body]
pub struct ExSerdeValue(serde_json::Value);

/// The model of the tree that the bytes parse to, or `None` when they are not
/// valid JSON. What serde_json returns depends on the bytes alone.
pub uninterp spec fn json_doc_of(bytes: Seq<u8>) -> Option<JsonV>;

/// The serialized text of a JSON tree, as serde_json writes it. The text
/// depends on the tree alone.
pub uninterp spec fn json_text_of(v: JsonV) -> Seq<char>;

/// Converts a parsed serde_json tree into the library's tree, one variant at
/// a time; called only from `parse_json` below.
#[verifier::external_body]
fn value_from_serde(v: serde_json::Value) -> JsonValue {
    match v {
        serde_json::Value::Null => JsonValue::Null,
        serde_json::Value::Bool(b) => JsonValue::Bool(b),
        serde_json::Value::Number(_) => JsonValue::Num,
        serde_json::Value::String(s) => JsonValue::Str(s),
        serde_json::Value::Array(vs) => JsonValue::Arr(
            vs.into_iter().map(value_from_serde).collect(),
        ),
        serde_json::Value::Object(m) => JsonValue::Obj(
            m.into_iter().map(|kv| (kv.0, value_from_serde(kv.1))).collect(),
        ),
    }
}

/// Converts the library's tree back into a serde_json tree, one variant at a
/// time; called only from `json_to_string` below. The serializer is never
/// handed a `Num`, which carries no payload; it becomes a null.
#[verifier::external_body]
fn value_to_serde(v: &JsonValue) -> serde_json::Value {
    match v {
        JsonValue::Null => serde_json::Value::Null,
        JsonValue::Bool(b) => serde_json::Value::Bool(*b),
        JsonValue::Num => serde_json::Value::Null,
        JsonValue::Str(s) => serde_json::Value::String(s.clone()),
        JsonValue::Arr(vs) => serde_json::Value::Array(vs.iter().map(value_to_serde).collect()),
        JsonValue::Obj(fs) => serde_json::Value::Object(
            fs.iter().map(|kv| (kv.0.clone(), value_to_serde(&kv.1))).collect(),
        ),
    }
}

/// Relies on serde_json::from_slice: whether the bytes parse, and the model
/// of the tree they parse to, are functions of the bytes alone.
#[verifier::external_body]
pub fn parse_json(bytes: &[u8]) -> (r: Option<JsonValue>)
    ensures
        match r {
            Option::Some(v) => json_doc_of(bytes@) == Option::Some(jv(v)),
            Option::None => json_doc_of(bytes@) is None,
        },
{
    match serde_json::from_slice::<serde_json::Value>(bytes) {
        Ok(v) => Some(value_from_serde(v)),
        Err(_) => None,
    }
}

/// Relies on serde_json::to_string: the serialized text is a function of the
/// tree alone.
#[verifier::external_body]
pub fn json_to_string(v: &JsonValue) -> (r: String)
    ensures
        r@ == json_text_of(jv(*v)),
{
    match serde_json::to_string(&value_to_serde(v)) {
        Ok(s) => s,
        Err(_) => String::new(),
    }
}

} // verus!
