//! The library's own JSON tree, and the trusted parse that produces it.
//!
//! The input document is JSON text. Parsing the text into a tree is done by
//! serde_json behind a trusted boundary; everything that interprets the tree
//! (the whole schema of the input document) is verified code working on the
//! [`Json`] type defined here.

use vstd::prelude::*;

use serde::de::Deserialize;

verus! {

/// A JSON value, owned by this library. Numbers are kept as unsigned
/// integers when they are one (this library's input schema uses no others);
/// a number outside `u64` is kept as an empty numeric node.
#[derive(Debug)]
pub enum Json {
    Null,
    Bool(bool),
    Num(Option<u64>),
    Str(String),
    Arr(Vec<Json>),
    Obj(Vec<(String, Json)>),
}

/// The mathematical value of a [`Json`] tree.
pub ghost enum JsonV {
    Null,
    Bool(bool),
    Num(Option<u64>),
    Str(Seq<char>),
    Arr(Seq<JsonV>),
    Obj(Seq<(Seq<char>, JsonV)>),
}

/// The value of a JSON tree.
pub open spec fn jview(j: Json) -> JsonV
    decreases j,
{
    match j {
        Json::Null => JsonV::Null,
        Json::Bool(b) => JsonV::Bool(b),
        Json::Num(n) => JsonV::Num(n),
        Json::Str(s) => JsonV::Str(s@),
        Json::Arr(a) => JsonV::Arr(jview_arr(a@)),
        Json::Obj(o) => JsonV::Obj(jview_obj(o@)),
    }
}

/// The values of a sequence of JSON trees.
pub open spec fn jview_arr(v: Seq<Json>) -> Seq<JsonV>
    decreases v,
{
    if v.len() == 0 {
        Seq::empty()
    } else {
        jview_arr(v.drop_last()).push(jview(v.last()))
    }
}

/// The values of a sequence of JSON object entries.
pub open spec fn jview_obj(v: Seq<(String, Json)>) -> Seq<(Seq<char>, JsonV)>
    decreases v,
{
    if v.len() == 0 {
        Seq::empty()
    } else {
        jview_obj(v.drop_last()).push((v.last().0@, jview(v.last().1)))
    }
}

/// A JSON tree and its value are always the same variant.
pub broadcast proof fn lemma_jview_variant(j: Json)
    ensures
        #![trigger jview(j)]
        jview(j) is Null <==> j is Null,
        jview(j) is Bool <==> j is Bool,
        jview(j) is Num <==> j is Num,
        jview(j) is Str <==> j is Str,
        jview(j) is Arr <==> j is Arr,
        jview(j) is Obj <==> j is Obj,
{
    match j {
        Json::Null => {},
        Json::Bool(_) => {},
        Json::Num(_) => {},
        Json::Str(_) => {},
        Json::Arr(_) => {},
        Json::Obj(_) => {},
    }
}

impl View for Json {
    type V = JsonV;

    open spec fn view(&self) -> JsonV {
        jview(*self)
    }
}

/// The values of a sequence of JSON trees are its trees' values, pointwise.
pub proof fn lemma_jview_arr(v: Seq<Json>)
    ensures
        jview_arr(v).len() == v.len(),
        forall|i: int| 0 <= i < v.len() ==> jview_arr(v)[i] == jview(v[i]),
    decreases v.len(),
{
    if v.len() > 0 {
        lemma_jview_arr(v.drop_last());
    }
}

/// The values of a sequence of object entries are its entries' values,
/// pointwise.
pub proof fn lemma_jview_obj(v: Seq<(String, Json)>)
    ensures
        jview_obj(v).len() == v.len(),
        forall|i: int|
            0 <= i < v.len() ==> jview_obj(v)[i] == (v[i].0@, jview(v[i].1)),
    decreases v.len(),
{
    if v.len() > 0 {
        lemma_jview_obj(v.drop_last());
    }
}

/// What looking a key up in a JSON object yields: the value of the first
/// entry bearing the key, if any.
pub open spec fn obj_lookup(o: Seq<(Seq<char>, JsonV)>, key: Seq<char>) -> Option<JsonV>
    decreases o.len(),
{
    if o.len() == 0 {
        Option::None
    } else if o[0].0 == key {
        Option::Some(o[0].1)
    } else {
        obj_lookup(o.drop_first(), key)
    }
}

/// Looks a key up among object entries, from position `i` on.
fn obj_get_from<'a>(entries: &'a Vec<(String, Json)>, key: &str, i: usize) -> (r: Option<
    &'a Json,
>)
    requires
        i <= entries@.len(),
    ensures
        match r {
            Option::Some(j) => obj_lookup(jview_obj(entries@).skip(i as int), key@)
                == Option::Some(jview(*j)) && (exists|n: int|
                0 <= n < entries@.len() && *j == entries@[n].1),
            Option::None => obj_lookup(jview_obj(entries@).skip(i as int), key@) is None,
        },
    decreases entries@.len() - i,
{
    proof {
        lemma_jview_obj(entries@);
    }
    if i == entries.len() {
        proof {
            assert(jview_obj(entries@).skip(i as int) =~= Seq::empty());
        }
        Option::None
    } else {
        proof {
            assert(jview_obj(entries@).skip(i as int)[0] == (entries@[i as int].0@, jview(
                entries@[i as int].1,
            )));
            assert(jview_obj(entries@).skip(i as int).drop_first() =~= jview_obj(entries@).skip(
                i + 1int,
            ));
        }
        if crate::ordering::str_eq(entries[i].0.as_str(), key) {
            Option::Some(&entries[i].1)
        } else {
            obj_get_from(entries, key, i + 1)
        }
    }
}

/// Looks a key up among the entries of a JSON object.
pub fn obj_get<'a>(entries: &'a Vec<(String, Json)>, key: &str) -> (r: Option<&'a Json>)
    ensures
        match r {
            Option::Some(j) => obj_lookup(jview_obj(entries@), key@) == Option::Some(jview(*j))
                && (exists|n: int| 0 <= n < entries@.len() && *j == entries@[n].1),
            Option::None => obj_lookup(jview_obj(entries@), key@) is None,
        },
{
    let r = obj_get_from(entries, key, 0);
    proof {
        assert(jview_obj(entries@).skip(0) =~= jview_obj(entries@));
    }
    r
}

/// The serde_json value type, opaque to this library: it is only ever carried
/// from the parser into [`value_to_json`].
#[verifier::external_type_specification]
#[verifier::external_body]
pub struct ExValue(serde_json::Value);

/// What parsing a JSON text yields: `None` when the text is not valid JSON.
/// The parse is a function of the text alone.
pub uninterp spec fn json_doc_of(s: Seq<char>) -> Option<JsonV>;

/// Relies on serde_json::Value: each variant is moved one-for-one into the
/// library's own JSON tree; a number is taken through Number::as_u64.
#[verifier::external_body]
fn value_to_json(v: &serde_json::Value) -> Json {
    match v {
        serde_json::Value::Null => Json::Null,
        serde_json::Value::Bool(b) => Json::Bool(*b),
        serde_json::Value::Number(n) => Json::Num(n.as_u64()),
        serde_json::Value::String(s) => Json::Str(s.clone()),
        serde_json::Value::Array(a) => Json::Arr(a.iter().map(value_to_json).collect()),
        serde_json::Value::Object(m) => Json::Obj(
            m.iter().map(|(k, x)| (k.clone(), value_to_json(x))).collect(),
        ),
    }
}

/// Relies on serde_json::Deserializer::from_str, with the recursion limit
/// disabled (legitimately deep generic nesting in real libraries exceeds the
/// default limit), and on serde_json::Value's Deserialize. Parsing is a
/// function of the text alone; on failure the error's message is returned.
#[verifier::external_body]
pub(crate) fn parse_document(s: &str) -> (r: Result<Json, String>)
    ensures
        match r {
            Result::Ok(doc) => json_doc_of(s@) == Option::Some(doc@),
            Result::Err(_) => json_doc_of(s@) is None,
        },
{
    let mut de = serde_json::Deserializer::from_str(s);
    de.disable_recursion_limit();
    match serde_json::Value::deserialize(&mut de) {
        Ok(v) => Ok(value_to_json(&v)),
        Err(e) => Err(e.to_string()),
    }
}

} // verus!
