//! Decoding the input document: interpreting the parsed JSON tree as an item
//! index. A document that does not fit the schema is rejected as a whole;
//! decoding is a function of the tree alone.
//!
//! The document is an object with a `root` identifier and an `index` object
//! mapping identifiers to item records; an item record carries `name`,
//! `visibility`, `kind` and a kind-specific `inner` payload.

use vstd::prelude::*;

use crate::item_index::{
    CompositeForm, IndexV, ItemIndex, ItemKind, ItemKindV, Param, ParamV, RawItem, RawItemV,
    TypeExpr, TypeV,
};
use crate::json::{jview, jview_arr, jview_obj, obj_get, obj_lookup, Json, JsonV};
use crate::ordering::{str_eq, strs_view};
use crate::Error;

verus! {

broadcast use crate::json::lemma_jview_variant;

/// A value found in an object is structurally smaller than the entry list.
pub proof fn lemma_obj_lookup_smaller(o: Seq<(Seq<char>, JsonV)>, k: Seq<char>)
    ensures
        obj_lookup(o, k) matches Option::Some(x) ==> decreases_to!(o => x),
    decreases o.len(),
{
    if o.len() > 0 {
        if o[0].0 == k {
            assert(decreases_to!(o => o[0]));
            assert(decreases_to!(o[0] => o[0].1));
        } else {
            lemma_obj_lookup_smaller(o.drop_first(), k);
            assert(decreases_to!(o => o.drop_first()));
        }
    }
}

/// What decoding a list of identifier strings yields.
pub open spec fn spec_decode_id_list(s: Seq<JsonV>) -> Option<Seq<Seq<char>>>
    decreases s.len(),
{
    if s.len() == 0 {
        Option::Some(Seq::empty())
    } else {
        match s[0] {
            JsonV::Str(x) => match spec_decode_id_list(s.drop_first()) {
                Option::Some(rest) => Option::Some(seq![x] + rest),
                Option::None => Option::None,
            },
            _ => Option::None,
        }
    }
}

/// What decoding an identifier-list field yields: an absent field is an
/// empty list.
pub open spec fn spec_ids_field(o: Seq<(Seq<char>, JsonV)>, key: Seq<char>) -> Option<
    Seq<Seq<char>>,
> {
    match obj_lookup(o, key) {
        Option::None => Option::Some(Seq::empty()),
        Option::Some(JsonV::Arr(a)) => spec_decode_id_list(a),
        Option::Some(_) => Option::None,
    }
}

/// What decoding a type expression yields. A type is an object with a `kind`
/// string and a kind-specific `inner` payload.
pub open spec fn spec_decode_type(v: JsonV) -> Option<TypeV>
    decreases v, 0int,
{
    match v {
        JsonV::Obj(o) => {
            proof {
                lemma_obj_lookup_smaller(o, "inner"@);
            }
            match (obj_lookup(o, "kind"@), obj_lookup(o, "inner"@)) {
                (Option::Some(JsonV::Str(k)), Option::Some(inner)) => {
                    if k == "primitive"@ {
                        match inner {
                            JsonV::Str(s) => Option::Some(TypeV::Primitive(s)),
                            _ => Option::None,
                        }
                    } else if k == "generic"@ {
                        match inner {
                            JsonV::Str(s) => Option::Some(TypeV::Generic(s)),
                            _ => Option::None,
                        }
                    } else if k == "resolved_path"@ {
                        match inner {
                            JsonV::Obj(io) => spec_decode_path_inner(io),
                            _ => Option::None,
                        }
                    } else if k == "tuple"@ {
                        match inner {
                            JsonV::Arr(a) => match spec_decode_type_list(a) {
                                Option::Some(ts) => Option::Some(TypeV::Tuple(ts)),
                                Option::None => Option::None,
                            },
                            _ => Option::None,
                        }
                    } else if k == "slice"@ {
                        match spec_decode_type(inner) {
                            Option::Some(t) => Option::Some(TypeV::Slice(Box::new(t))),
                            Option::None => Option::None,
                        }
                    } else if k == "borrowed_ref"@ {
                        match inner {
                            JsonV::Obj(io) => spec_decode_ref_inner(io),
                            _ => Option::None,
                        }
                    } else {
                        Option::None
                    }
                },
                _ => Option::None,
            }
        },
        _ => Option::None,
    }
}


/// What decoding the payload of a named-path type yields.
pub open spec fn spec_decode_path_inner(io: Seq<(Seq<char>, JsonV)>) -> Option<TypeV>
    decreases io, 1int,
{
    proof {
        lemma_obj_lookup_smaller(io, "args"@);
    }
    match obj_lookup(io, "name"@) {
        Option::Some(JsonV::Str(name)) => {
            match obj_lookup(io, "args"@) {
                Option::None => Option::Some(TypeV::Path(name, Seq::empty())),
                Option::Some(JsonV::Arr(a)) => {
                    match spec_decode_type_list(a) {
                        Option::Some(args) => Option::Some(TypeV::Path(name, args)),
                        Option::None => Option::None,
                    }
                },
                Option::Some(_) => Option::None,
            }
        },
        _ => Option::None,
    }
}

/// What decoding the payload of a reference type yields.
pub open spec fn spec_decode_ref_inner(io: Seq<(Seq<char>, JsonV)>) -> Option<TypeV>
    decreases io, 1int,
{
    proof {
        lemma_obj_lookup_smaller(io, "type"@);
    }
    let lifetime = match obj_lookup(io, "lifetime"@) {
        Option::None => Option::Some(Option::<Seq<char>>::None),
        Option::Some(JsonV::Null) => Option::Some(Option::<Seq<char>>::None),
        Option::Some(JsonV::Str(l)) => Option::Some(Option::Some(l)),
        Option::Some(_) => Option::None,
    };
    let mutable = match obj_lookup(io, "mutable"@) {
        Option::Some(JsonV::Bool(b)) => Option::Some(b),
        _ => Option::None,
    };
    match (lifetime, mutable, obj_lookup(io, "type"@)) {
        (Option::Some(l), Option::Some(m), Option::Some(tj)) => match spec_decode_type(tj) {
            Option::Some(t) => Option::Some(TypeV::Ref(l, m, Box::new(t))),
            Option::None => Option::None,
        },
        _ => Option::None,
    }
}

/// What decoding a list of type expressions yields.
pub open spec fn spec_decode_type_list(s: Seq<JsonV>) -> Option<Seq<TypeV>>
    decreases s, 0int,
{
    if s.len() == 0 {
        Option::Some(Seq::empty())
    } else {
        match (spec_decode_type(s[0]), spec_decode_type_list(s.drop_first())) {
            (Option::Some(t), Option::Some(rest)) => Option::Some(seq![t] + rest),
            _ => Option::None,
        }
    }
}

/// What decoding an optional type field yields: an absent or null field is
/// no type.
pub open spec fn spec_decode_opt_type(v: Option<JsonV>) -> Option<Option<TypeV>> {
    match v {
        Option::None => Option::Some(Option::None),
        Option::Some(JsonV::Null) => Option::Some(Option::None),
        Option::Some(tj) => match spec_decode_type(tj) {
            Option::Some(t) => Option::Some(Option::Some(t)),
            Option::None => Option::None,
        },
    }
}

/// What decoding one parameter yields: a two-element array of the name and
/// the type.
pub open spec fn spec_decode_param(v: JsonV) -> Option<ParamV> {
    match v {
        JsonV::Arr(pair) => {
            if pair.len() == 2 {
                match (pair[0], spec_decode_type(pair[1])) {
                    (JsonV::Str(name), Option::Some(t)) => Option::Some(
                        ParamV { name, ty: t },
                    ),
                    _ => Option::None,
                }
            } else {
                Option::None
            }
        },
        _ => Option::None,
    }
}

/// What decoding a parameter list yields.
pub open spec fn spec_decode_params(s: Seq<JsonV>) -> Option<Seq<ParamV>>
    decreases s.len(),
{
    if s.len() == 0 {
        Option::Some(Seq::empty())
    } else {
        match (spec_decode_param(s[0]), spec_decode_params(s.drop_first())) {
            (Option::Some(p), Option::Some(rest)) => Option::Some(seq![p] + rest),
            _ => Option::None,
        }
    }
}

/// What decoding a composite form string yields.
pub open spec fn spec_decode_form(s: Seq<char>) -> Option<CompositeForm> {
    if s == "plain"@ {
        Option::Some(CompositeForm::Plain)
    } else if s == "tuple"@ {
        Option::Some(CompositeForm::Tuple)
    } else if s == "unit"@ {
        Option::Some(CompositeForm::Unit)
    } else {
        Option::None
    }
}

/// What decoding a kind-specific payload yields, given the kind string and
/// the `inner` field.
pub open spec fn spec_decode_kind(k: Seq<char>, inner: Option<JsonV>) -> Option<ItemKindV> {
    if k == "module"@ {
        match inner {
            Option::Some(JsonV::Obj(io)) => match spec_ids_field(io, "items"@) {
                Option::Some(children) => Option::Some(ItemKindV::Module { children }),
                Option::None => Option::None,
            },
            _ => Option::None,
        }
    } else if k == "import"@ {
        match inner {
            Option::Some(JsonV::Obj(io)) => {
                let target = match obj_lookup(io, "id"@) {
                    Option::None => Option::Some(Option::<Seq<char>>::None),
                    Option::Some(JsonV::Null) => Option::Some(Option::<Seq<char>>::None),
                    Option::Some(JsonV::Str(t)) => Option::Some(Option::Some(t)),
                    Option::Some(_) => Option::None,
                };
                match (obj_lookup(io, "name"@), target) {
                    (Option::Some(JsonV::Str(name)), Option::Some(t)) => Option::Some(
                        ItemKindV::Import { name, target: t },
                    ),
                    _ => Option::None,
                }
            },
            _ => Option::None,
        }
    } else if k == "function"@ {
        match inner {
            Option::Some(JsonV::Obj(io)) => {
                let generics = match obj_lookup(io, "generics"@) {
                    Option::None => Option::Some(Seq::<Seq<char>>::empty()),
                    Option::Some(JsonV::Arr(a)) => spec_decode_id_list(a),
                    Option::Some(_) => Option::None,
                };
                let inputs = match obj_lookup(io, "inputs"@) {
                    Option::None => Option::Some(Seq::<ParamV>::empty()),
                    Option::Some(JsonV::Arr(a)) => spec_decode_params(a),
                    Option::Some(_) => Option::None,
                };
                let output = spec_decode_opt_type(obj_lookup(io, "output"@));
                match (generics, inputs, output) {
                    (Option::Some(g), Option::Some(i), Option::Some(o)) => Option::Some(
                        ItemKindV::Function { generics: g, inputs: i, output: o },
                    ),
                    _ => Option::None,
                }
            },
            _ => Option::None,
        }
    } else if k == "struct"@ {
        match inner {
            Option::Some(JsonV::Obj(io)) => {
                let form = match obj_lookup(io, "struct_type"@) {
                    Option::Some(JsonV::Str(s)) => spec_decode_form(s),
                    _ => Option::None,
                };
                match (form, spec_ids_field(io, "fields"@), spec_ids_field(io, "impls"@)) {
                    (Option::Some(f), Option::Some(fields), Option::Some(impls)) => Option::Some(
                        ItemKindV::Struct { form: f, fields, impls },
                    ),
                    _ => Option::None,
                }
            },
            _ => Option::None,
        }
    } else if k == "struct_field"@ {
        match inner {
            Option::Some(tj) => match spec_decode_type(tj) {
                Option::Some(t) => Option::Some(ItemKindV::StructField { ty: t }),
                Option::None => Option::None,
            },
            Option::None => Option::None,
        }
    } else if k == "enum"@ {
        match inner {
            Option::Some(JsonV::Obj(io)) => {
                match (spec_ids_field(io, "variants"@), spec_ids_field(io, "impls"@)) {
                    (Option::Some(variants), Option::Some(impls)) => Option::Some(
                        ItemKindV::Enum { variants, impls },
                    ),
                    _ => Option::None,
                }
            },
            _ => Option::None,
        }
    } else if k == "variant"@ {
        match inner {
            Option::Some(JsonV::Obj(io)) => {
                let form = match obj_lookup(io, "variant_kind"@) {
                    Option::Some(JsonV::Str(s)) => spec_decode_form(s),
                    _ => Option::None,
                };
                match (form, spec_ids_field(io, "fields"@)) {
                    (Option::Some(f), Option::Some(fields)) => Option::Some(
                        ItemKindV::Variant { form: f, fields },
                    ),
                    _ => Option::None,
                }
            },
            _ => Option::None,
        }
    } else if k == "impl"@ {
        match inner {
            Option::Some(JsonV::Obj(io)) => {
                let blanket = match obj_lookup(io, "blanket_impl"@) {
                    Option::None => Option::Some(false),
                    Option::Some(JsonV::Null) => Option::Some(false),
                    Option::Some(JsonV::Bool(b)) => Option::Some(b),
                    Option::Some(_) => Option::None,
                };
                match (spec_ids_field(io, "items"@), blanket) {
                    (Option::Some(items), Option::Some(b)) => Option::Some(
                        ItemKindV::Impl { items, blanket: b },
                    ),
                    _ => Option::None,
                }
            },
            _ => Option::None,
        }
    } else if k == "constant"@ {
        match inner {
            Option::Some(tj) => match spec_decode_type(tj) {
                Option::Some(t) => Option::Some(ItemKindV::Constant { ty: t }),
                Option::None => Option::None,
            },
            Option::None => Option::None,
        }
    } else if k == "typedef"@ {
        match inner {
            Option::Some(tj) => match spec_decode_type(tj) {
                Option::Some(t) => Option::Some(ItemKindV::TypeAlias { ty: t }),
                Option::None => Option::None,
            },
            Option::None => Option::None,
        }
    } else if k == "trait"@ {
        match inner {
            Option::Some(JsonV::Obj(io)) => match spec_ids_field(io, "items"@) {
                Option::Some(items) => Option::Some(ItemKindV::Trait { items }),
                Option::None => Option::None,
            },
            _ => Option::None,
        }
    } else {
        Option::None
    }
}

/// Whether items of this kind must carry a declared name.
pub open spec fn spec_kind_needs_name(k: ItemKindV) -> bool {
    match k {
        ItemKindV::Import { .. } => false,
        ItemKindV::Impl { .. } => false,
        _ => true,
    }
}

/// What decoding one item record yields.
pub open spec fn spec_decode_item(v: JsonV) -> Option<RawItemV> {
    match v {
        JsonV::Obj(o) => {
            let name = match obj_lookup(o, "name"@) {
                Option::None => Option::Some(Option::<Seq<char>>::None),
                Option::Some(JsonV::Null) => Option::Some(Option::<Seq<char>>::None),
                Option::Some(JsonV::Str(n)) => Option::Some(Option::Some(n)),
                Option::Some(_) => Option::None,
            };
            let visibility = match obj_lookup(o, "visibility"@) {
                Option::Some(JsonV::Str(s)) => if s == "public"@ {
                    Option::Some(crate::item_index::Visibility::Public)
                } else if s == "default"@ {
                    Option::Some(crate::item_index::Visibility::Default)
                } else {
                    Option::Some(crate::item_index::Visibility::Other)
                },
                _ => Option::None,
            };
            let kind = match obj_lookup(o, "kind"@) {
                Option::Some(JsonV::Str(k)) => spec_decode_kind(k, obj_lookup(o, "inner"@)),
                _ => Option::None,
            };
            match (name, visibility, kind) {
                (Option::Some(n), Option::Some(vis), Option::Some(kd)) => {
                    if spec_kind_needs_name(kd) && n is None {
                        Option::None
                    } else {
                        Option::Some(RawItemV { name: n, visibility: vis, kind: kd })
                    }
                },
                _ => Option::None,
            }
        },
        _ => Option::None,
    }
}

/// What decoding the entries of the `index` object yields.
pub open spec fn spec_decode_entries(s: Seq<(Seq<char>, JsonV)>) -> Option<
    Seq<(Seq<char>, RawItemV)>,
>
    decreases s.len(),
{
    if s.len() == 0 {
        Option::Some(Seq::empty())
    } else {
        match (spec_decode_item(s[0].1), spec_decode_entries(s.drop_first())) {
            (Option::Some(it), Option::Some(rest)) => Option::Some(
                seq![(s[0].0, it)] + rest,
            ),
            _ => Option::None,
        }
    }
}

/// What decoding the whole input document yields: the item index, or nothing
/// when the document does not fit the schema.
pub open spec fn spec_decode_doc(doc: JsonV) -> Option<IndexV> {
    match doc {
        JsonV::Obj(o) => {
            match (obj_lookup(o, "root"@), obj_lookup(o, "index"@)) {
                (Option::Some(JsonV::Str(root)), Option::Some(JsonV::Obj(entries))) => {
                    match spec_decode_entries(entries) {
                        Option::Some(items) => Option::Some(IndexV { root, items }),
                        Option::None => Option::None,
                    }
                },
                _ => Option::None,
            }
        },
        _ => Option::None,
    }
}

/// The value of an optional borrowed JSON tree.
pub open spec fn inner_view(v: Option<&Json>) -> Option<JsonV> {
    match v {
        Option::Some(j) => Option::Some(jview(*j)),
        Option::None => Option::None,
    }
}

/// A value stored in a JSON object node is structurally smaller than the
/// node.
proof fn lemma_obj_elem_smaller(v: Json, entries: Vec<(String, Json)>, x: Json)
    requires
        v == Json::Obj(entries),
        exists|n: int| 0 <= n < entries@.len() && x == entries@[n].1,
    ensures
        decreases_to!(v => x),
{
    let n = choose|n: int| 0 <= n < entries@.len() && x == entries@[n].1;
    match v {
        Json::Obj(e2) => {
            assert(decreases_to!(v => e2));
            assert(decreases_to!(e2 => e2@));
            assert(decreases_to!(e2@ => e2@[n]));
            assert(decreases_to!(e2@[n] => e2@[n].1));
        },
        _ => {
            assert(false);
        },
    }
}

/// Decodes a list of identifier strings, from position `i` on.
fn decode_id_list_from(a: &Vec<Json>, i: usize) -> (r: Result<Vec<String>, Error>)
    requires
        i <= a@.len(),
    ensures
        match r {
            Result::Ok(ids) => spec_decode_id_list(jview_arr(a@).skip(i as int))
                == Option::Some(strs_view(ids@)),
            Result::Err(e) => spec_decode_id_list(jview_arr(a@).skip(i as int)) is None && (
            e matches Error::MalformedDocument),
        },
    decreases a@.len() - i,
{
    proof {
        crate::json::lemma_jview_arr(a@);
    }
    if i == a.len() {
        proof {
            assert(jview_arr(a@).skip(i as int) =~= Seq::<JsonV>::empty());
            assert(strs_view(Seq::<String>::empty()) =~= Seq::<Seq<char>>::empty());
        }
        Result::Ok(Vec::new())
    } else {
        proof {
            assert(jview_arr(a@).skip(i as int)[0] == jview(a@[i as int]));
            assert(jview_arr(a@).skip(i as int).drop_first() =~= jview_arr(a@).skip(i + 1int));
        }
        match &a[i] {
            Json::Str(s) => {
                match decode_id_list_from(a, i + 1) {
                    Result::Ok(mut rest) => {
                        let ghost prev = rest@;
                        rest.insert(0, s.clone());
                        proof {
                            assert(strs_view(rest@) =~= seq![s@] + strs_view(prev));
                        }
                        Result::Ok(rest)
                    },
                    Result::Err(e) => Result::Err(e),
                }
            },
            _ => Result::Err(Error::MalformedDocument),
        }
    }
}

/// Decodes one type expression.
#[verifier::rlimit(100)]
fn decode_type(v: &Json) -> (r: Result<TypeExpr, Error>)
    ensures
        match r {
            Result::Ok(t) => spec_decode_type(v@) == Option::Some(t@),
            Result::Err(e) => spec_decode_type(v@) is None && (
            e matches Error::MalformedDocument),
        },
    decreases *v, 0int,
{
    match v {
        Json::Obj(entries) => {
            let kind_j = obj_get(entries, "kind");
            let inner_j = obj_get(entries, "inner");
            match (kind_j, inner_j) {
                (Option::Some(Json::Str(k)), Option::Some(inner)) => {
                    proof {
                        lemma_obj_elem_smaller(*v, *entries, *inner);
                    }
                    if str_eq(k.as_str(), "primitive") {
                        match inner {
                            Json::Str(s) => Result::Ok(TypeExpr::Primitive(s.clone())),
                            _ => { proof { assert(spec_decode_type(v@) is None); } Result::Err(Error::MalformedDocument) },
                        }
                    } else if str_eq(k.as_str(), "generic") {
                        match inner {
                            Json::Str(s) => Result::Ok(TypeExpr::Generic(s.clone())),
                            _ => { proof { assert(spec_decode_type(v@) is None); } Result::Err(Error::MalformedDocument) },
                        }
                    } else if str_eq(k.as_str(), "resolved_path") {
                        match inner {
                            Json::Obj(io) => {
                                proof {
                                    assert(decreases_to!(*inner => *io));
                                }
                                let hr = decode_path_inner(io);
                                match hr {
                                    Result::Ok(t) => {
                                        proof {
                                            assert(spec_decode_type(v@) == Option::Some(t@));
                                        }
                                        Result::Ok(t)
                                    },
                                    Result::Err(e) => {
                                        proof {
                                            assert(spec_decode_type(v@) is None);
                                        }
                                        Result::Err(e)
                                    },
                                }
                            },
                            _ => { proof { assert(spec_decode_type(v@) is None); } Result::Err(Error::MalformedDocument) },
                        }
                    } else if str_eq(k.as_str(), "tuple") {
                        match inner {
                            Json::Arr(ts_vec) => {
                                proof {
                                    assert(decreases_to!(*inner => *ts_vec));
                                }
                                match decode_type_list_from(ts_vec, 0) {
                                    Result::Ok(ts) => {
                                        proof {
                                            assert(jview_arr(ts_vec@).skip(0) =~= jview_arr(
                                                ts_vec@,
                                            ));
                                        }
                                        Result::Ok(TypeExpr::Tuple(ts))
                                    },
                                    Result::Err(e) => {
                                        proof {
                                            assert(jview_arr(ts_vec@).skip(0) =~= jview_arr(
                                                ts_vec@,
                                            ));
                                            assert(spec_decode_type(v@) is None);
                                        }
                                        Result::Err(e)
                                    },
                                }
                            },
                            _ => { proof { assert(spec_decode_type(v@) is None); } Result::Err(Error::MalformedDocument) },
                        }
                    } else if str_eq(k.as_str(), "slice") {
                        match decode_type(inner) {
                            Result::Ok(t) => {
                                let rt = TypeExpr::Slice(Box::new(t));
                                proof {
                                    assert(spec_decode_type(v@) == Option::Some(rt@));
                                }
                                Result::Ok(rt)
                            },
                            Result::Err(e) => {
                                proof {
                                    assert(spec_decode_type(v@) is None);
                                }
                                Result::Err(e)
                            },
                        }
                    } else if str_eq(k.as_str(), "borrowed_ref") {
                        match inner {
                            Json::Obj(io) => {
                                proof {
                                    assert(decreases_to!(*inner => *io));
                                }
                                let hr = decode_ref_inner(io);
                                match hr {
                                    Result::Ok(t) => {
                                        proof {
                                            assert(spec_decode_type(v@) == Option::Some(t@));
                                        }
                                        Result::Ok(t)
                                    },
                                    Result::Err(e) => {
                                        proof {
                                            assert(spec_decode_type(v@) is None);
                                        }
                                        Result::Err(e)
                                    },
                                }
                            },
                            _ => { proof { assert(spec_decode_type(v@) is None); } Result::Err(Error::MalformedDocument) },
                        }
                    } else {
                        { proof { assert(spec_decode_type(v@) is None); } Result::Err(Error::MalformedDocument) }
                    }
                },
                _ => { proof { assert(spec_decode_type(v@) is None); } Result::Err(Error::MalformedDocument) },
            }
        },
        _ => { proof { assert(spec_decode_type(v@) is None); } Result::Err(Error::MalformedDocument) },
    }
}


/// Decodes the payload of a named-path type.
fn decode_path_inner(io: &Vec<(String, Json)>) -> (r: Result<TypeExpr, Error>)
    ensures
        match r {
            Result::Ok(t) => spec_decode_path_inner(jview_obj(io@)) == Option::Some(t@),
            Result::Err(e) => spec_decode_path_inner(jview_obj(io@)) is None && (
            e matches Error::MalformedDocument),
        },
    decreases *io, 1int,
{
    match obj_get(io, "name") {
        Option::Some(Json::Str(name)) => {
            match obj_get(io, "args") {
                Option::None => {
                    let empty_args: Vec<TypeExpr> = Vec::new();
                    let rt = TypeExpr::Path(name.clone(), empty_args);
                    proof {
                        assert(crate::item_index::tview_list(Seq::<TypeExpr>::empty())
                            == Seq::<TypeV>::empty());
                        assert(rt@ == TypeV::Path(name@, Seq::<TypeV>::empty()));
                    }
                    Result::Ok(rt)
                },
                Option::Some(aj) => {
                    match aj {
                        Json::Arr(args_vec) => {
                            proof {
                                let n = choose|n: int|
                                    0 <= n < io@.len() && *aj == io@[n].1;
                                assert(decreases_to!(*io => io@[n as int]));
                                assert(decreases_to!(io@[n as int] => io@[n as int].1));
                                assert(decreases_to!(*aj => *args_vec));
                            }
                            match decode_type_list_from(args_vec, 0) {
                                Result::Ok(args) => {
                                    proof {
                                        assert(jview_arr(args_vec@).skip(0) =~= jview_arr(
                                            args_vec@,
                                        ));
                                    }
                                    Result::Ok(TypeExpr::Path(name.clone(), args))
                                },
                                Result::Err(e) => Result::Err(e),
                            }
                        },
                        _ => { proof { assert(spec_decode_path_inner(jview_obj(io@)) is None); } Result::Err(Error::MalformedDocument) },
                    }
                },
            }
        },
        _ => { proof { assert(spec_decode_path_inner(jview_obj(io@)) is None); } Result::Err(Error::MalformedDocument) },
    }
}

/// Decodes the payload of a reference type.
fn decode_ref_inner(io: &Vec<(String, Json)>) -> (r: Result<TypeExpr, Error>)
    ensures
        match r {
            Result::Ok(t) => spec_decode_ref_inner(jview_obj(io@)) == Option::Some(t@),
            Result::Err(e) => spec_decode_ref_inner(jview_obj(io@)) is None && (
            e matches Error::MalformedDocument),
        },
    decreases *io, 1int,
{
    let lifetime = match obj_get(io, "lifetime") {
        Option::None => Result::Ok(Option::<String>::None),
        Option::Some(Json::Null) => Result::Ok(Option::<String>::None),
        Option::Some(Json::Str(l)) => Result::Ok(Option::Some(l.clone())),
        Option::Some(_) => Result::Err(Error::MalformedDocument),
    };
    let mutable = match obj_get(io, "mutable") {
        Option::Some(Json::Bool(b)) => Result::Ok(*b),
        _ => Result::Err(Error::MalformedDocument),
    };
    match (lifetime, mutable, obj_get(io, "type")) {
        (Result::Ok(l), Result::Ok(m), Option::Some(tj)) => {
            proof {
                let n = choose|n: int| 0 <= n < io@.len() && *tj == io@[n].1;
                assert(decreases_to!(*io => io@[n as int]));
                assert(decreases_to!(io@[n as int] => io@[n as int].1));
            }
            match decode_type(tj) {
                Result::Ok(t) => Result::Ok(TypeExpr::Ref(l, m, Box::new(t))),
                Result::Err(e) => Result::Err(e),
            }
        },
        (Result::Err(e), _, _) => Result::Err(e),
        (_, Result::Err(e), _) => Result::Err(e),
        _ => Result::Err(Error::MalformedDocument),
    }
}

/// Decodes a list of type expressions, from position `i` on.
fn decode_type_list_from(a: &Vec<Json>, i: usize) -> (r: Result<Vec<TypeExpr>, Error>)
    requires
        i <= a@.len(),
    ensures
        match r {
            Result::Ok(ts) => spec_decode_type_list(jview_arr(a@).skip(i as int))
                == Option::Some(crate::item_index::tview_list(ts@)),
            Result::Err(e) => spec_decode_type_list(jview_arr(a@).skip(i as int)) is None && (
            e matches Error::MalformedDocument),
        },
    decreases *a, a@.len() - i,
{
    proof {
        crate::json::lemma_jview_arr(a@);
    }
    if i == a.len() {
        proof {
            assert(jview_arr(a@).skip(i as int) =~= Seq::<JsonV>::empty());
            assert(crate::item_index::tview_list(Seq::<TypeExpr>::empty()) =~= Seq::<
                TypeV,
            >::empty());
        }
        Result::Ok(Vec::new())
    } else {
        proof {
            assert(jview_arr(a@).skip(i as int)[0] == jview(a@[i as int]));
            assert(jview_arr(a@).skip(i as int).drop_first() =~= jview_arr(a@).skip(i + 1int));
            assert(decreases_to!(*a => a@[i as int]));
        }
        match decode_type(&a[i]) {
            Result::Ok(t) => {
                match decode_type_list_from(a, i + 1) {
                    Result::Ok(mut rest) => {
                        let ghost prev = rest@;
                        rest.insert(0, t);
                        proof {
                            crate::item_index::lemma_tview_list(rest@);
                            crate::item_index::lemma_tview_list(prev);
                            assert(crate::item_index::tview_list(rest@) =~= seq![
                                spec_decode_type(jview_arr(a@).skip(i as int)[0]).unwrap(),
                            ] + crate::item_index::tview_list(prev));
                        }
                        Result::Ok(rest)
                    },
                    Result::Err(e) => Result::Err(e),
                }
            },
            Result::Err(e) => Result::Err(e),
        }
    }
}

/// Decodes an optional type field.
fn decode_opt_type(v: Option<&Json>) -> (r: Result<Option<TypeExpr>, Error>)
    ensures
        match r {
            Result::Ok(t) => spec_decode_opt_type(inner_view(v)) == Option::Some(
                match t {
                    Option::Some(te) => Option::Some(te@),
                    Option::None => Option::<TypeV>::None,
                },
            ),
            Result::Err(e) => spec_decode_opt_type(inner_view(v)) is None && (
            e matches Error::MalformedDocument),
        },
{
    match v {
        Option::None => Result::Ok(Option::None),
        Option::Some(Json::Null) => Result::Ok(Option::None),
        Option::Some(tj) => match decode_type(tj) {
            Result::Ok(t) => Result::Ok(Option::Some(t)),
            Result::Err(e) => Result::Err(e),
        },
    }
}

/// Decodes a parameter list, from position `i` on.
fn decode_params_from(a: &Vec<Json>, i: usize) -> (r: Result<Vec<Param>, Error>)
    requires
        i <= a@.len(),
    ensures
        match r {
            Result::Ok(ps) => spec_decode_params(jview_arr(a@).skip(i as int)) == Option::Some(
                crate::item_index::params_view(ps@),
            ),
            Result::Err(e) => spec_decode_params(jview_arr(a@).skip(i as int)) is None && (
            e matches Error::MalformedDocument),
        },
    decreases a@.len() - i,
{
    proof {
        crate::json::lemma_jview_arr(a@);
    }
    if i == a.len() {
        proof {
            assert(jview_arr(a@).skip(i as int) =~= Seq::<JsonV>::empty());
            assert(crate::item_index::params_view(Seq::<Param>::empty()) =~= Seq::<
                ParamV,
            >::empty());
        }
        Result::Ok(Vec::new())
    } else {
        proof {
            assert(jview_arr(a@).skip(i as int)[0] == jview(a@[i as int]));
            assert(jview_arr(a@).skip(i as int).drop_first() =~= jview_arr(a@).skip(i + 1int));
        }
        let p = match &a[i] {
            Json::Arr(pair) => {
                proof {
                    crate::json::lemma_jview_arr(pair@);
                }
                if pair.len() == 2 {
                    match (&pair[0], decode_type(&pair[1])) {
                        (Json::Str(name), Result::Ok(t)) => Result::Ok(
                            Param { name: name.clone(), ty: t },
                        ),
                        (_, Result::Err(e)) => Result::Err(e),
                        _ => Result::Err(Error::MalformedDocument),
                    }
                } else {
                    Result::Err(Error::MalformedDocument)
                }
            },
            _ => Result::Err(Error::MalformedDocument),
        };
        match p {
            Result::Ok(param) => {
                match decode_params_from(a, i + 1) {
                    Result::Ok(mut rest) => {
                        let ghost prev = rest@;
                        let ghost pv = param@;
                        rest.insert(0, param);
                        proof {
                            assert(crate::item_index::params_view(rest@) =~= seq![pv]
                                + crate::item_index::params_view(prev));
                        }
                        Result::Ok(rest)
                    },
                    Result::Err(e) => Result::Err(e),
                }
            },
            Result::Err(e) => Result::Err(e),
        }
    }
}

/// Decodes a composite form string.
fn decode_form(s: &String) -> (r: Result<CompositeForm, Error>)
    ensures
        match r {
            Result::Ok(f) => spec_decode_form(s@) == Option::Some(f),
            Result::Err(e) => spec_decode_form(s@) is None && (
            e matches Error::MalformedDocument),
        },
{
    if str_eq(s.as_str(), "plain") {
        Result::Ok(CompositeForm::Plain)
    } else if str_eq(s.as_str(), "tuple") {
        Result::Ok(CompositeForm::Tuple)
    } else if str_eq(s.as_str(), "unit") {
        Result::Ok(CompositeForm::Unit)
    } else {
        Result::Err(Error::MalformedDocument)
    }
}

/// Decodes an identifier-list field of an object; an absent field is an
/// empty list.
fn ids_field(io: &Vec<(String, Json)>, key: &str) -> (r: Result<Vec<String>, Error>)
    ensures
        match r {
            Result::Ok(ids) => spec_ids_field(jview_obj(io@), key@) == Option::Some(
                strs_view(ids@),
            ),
            Result::Err(e) => spec_ids_field(jview_obj(io@), key@) is None && (
            e matches Error::MalformedDocument),
        },
{
    match obj_get(io, key) {
        Option::None => {
            proof {
                assert(strs_view(Seq::<String>::empty()) =~= Seq::<Seq<char>>::empty());
            }
            Result::Ok(Vec::new())
        },
        Option::Some(Json::Arr(a)) => {
            let r = decode_id_list_from(a, 0);
            proof {
                assert(jview_arr(a@).skip(0) =~= jview_arr(a@));
            }
            r
        },
        Option::Some(_) => Result::Err(Error::MalformedDocument),
    }
}

/// Decodes a kind-specific payload, given the kind string and the `inner`
/// field.
#[verifier::rlimit(100)]
fn decode_kind(k: &String, inner: Option<&Json>) -> (r: Result<ItemKind, Error>)
    ensures
        match r {
            Result::Ok(kd) => spec_decode_kind(k@, inner_view(inner)) == Option::Some(kd@),
            Result::Err(e) => spec_decode_kind(k@, inner_view(inner)) is None && (
            e matches Error::MalformedDocument),
        },
{
    if str_eq(k.as_str(), "module") {
        match inner {
            Option::Some(Json::Obj(io)) => {
                match ids_field(io, "items") {
                    Result::Ok(children) => Result::Ok(ItemKind::Module { children }),
                    Result::Err(e) => Result::Err(e),
                }
            },
            _ => Result::Err(Error::MalformedDocument),
        }
    } else if str_eq(k.as_str(), "import") {
        match inner {
            Option::Some(Json::Obj(io)) => {
                let target = match obj_get(io, "id") {
                    Option::None => Result::Ok(Option::<String>::None),
                    Option::Some(Json::Null) => Result::Ok(Option::<String>::None),
                    Option::Some(Json::Str(t)) => Result::Ok(Option::Some(t.clone())),
                    Option::Some(_) => Result::Err(Error::MalformedDocument),
                };
                match (obj_get(io, "name"), target) {
                    (Option::Some(Json::Str(name)), Result::Ok(t)) => Result::Ok(
                        ItemKind::Import { name: name.clone(), target: t },
                    ),
                    (_, Result::Err(e)) => Result::Err(e),
                    _ => Result::Err(Error::MalformedDocument),
                }
            },
            _ => Result::Err(Error::MalformedDocument),
        }
    } else if str_eq(k.as_str(), "function") {
        match inner {
            Option::Some(Json::Obj(io)) => {
                let generics = match obj_get(io, "generics") {
                    Option::None => {
                        proof {
                            assert(strs_view(Seq::<String>::empty()) =~= Seq::<
                                Seq<char>,
                            >::empty());
                        }
                        Result::Ok(Vec::<String>::new())
                    },
                    Option::Some(Json::Arr(a)) => {
                        let r = decode_id_list_from(a, 0);
                        proof {
                            assert(jview_arr(a@).skip(0) =~= jview_arr(a@));
                        }
                        r
                    },
                    Option::Some(_) => Result::Err(Error::MalformedDocument),
                };
                let inputs = match obj_get(io, "inputs") {
                    Option::None => {
                        proof {
                            assert(crate::item_index::params_view(Seq::<Param>::empty()) =~= Seq::<
                                ParamV,
                            >::empty());
                        }
                        Result::Ok(Vec::<Param>::new())
                    },
                    Option::Some(Json::Arr(a)) => {
                        let r = decode_params_from(a, 0);
                        proof {
                            assert(jview_arr(a@).skip(0) =~= jview_arr(a@));
                        }
                        r
                    },
                    Option::Some(_) => Result::Err(Error::MalformedDocument),
                };
                let output = decode_opt_type(obj_get(io, "output"));
                match (generics, inputs, output) {
                    (Result::Ok(g), Result::Ok(i), Result::Ok(o)) => Result::Ok(
                        ItemKind::Function { generics: g, inputs: i, output: o },
                    ),
                    (Result::Err(e), _, _) => Result::Err(e),
                    (_, Result::Err(e), _) => Result::Err(e),
                    (_, _, Result::Err(e)) => Result::Err(e),
                }
            },
            _ => Result::Err(Error::MalformedDocument),
        }
    } else if str_eq(k.as_str(), "struct") {
        match inner {
            Option::Some(Json::Obj(io)) => {
                let form = match obj_get(io, "struct_type") {
                    Option::Some(Json::Str(s)) => decode_form(s),
                    _ => Result::Err(Error::MalformedDocument),
                };
                match (form, ids_field(io, "fields"), ids_field(io, "impls")) {
                    (Result::Ok(f), Result::Ok(fields), Result::Ok(impls)) => Result::Ok(
                        ItemKind::Struct { form: f, fields, impls },
                    ),
                    (Result::Err(e), _, _) => Result::Err(e),
                    (_, Result::Err(e), _) => Result::Err(e),
                    (_, _, Result::Err(e)) => Result::Err(e),
                }
            },
            _ => Result::Err(Error::MalformedDocument),
        }
    } else if str_eq(k.as_str(), "struct_field") {
        match inner {
            Option::Some(tj) => match decode_type(tj) {
                Result::Ok(t) => Result::Ok(ItemKind::StructField { ty: t }),
                Result::Err(e) => Result::Err(e),
            },
            Option::None => Result::Err(Error::MalformedDocument),
        }
    } else if str_eq(k.as_str(), "enum") {
        match inner {
            Option::Some(Json::Obj(io)) => {
                match (ids_field(io, "variants"), ids_field(io, "impls")) {
                    (Result::Ok(variants), Result::Ok(impls)) => Result::Ok(
                        ItemKind::Enum { variants, impls },
                    ),
                    (Result::Err(e), _) => Result::Err(e),
                    (_, Result::Err(e)) => Result::Err(e),
                }
            },
            _ => Result::Err(Error::MalformedDocument),
        }
    } else if str_eq(k.as_str(), "variant") {
        match inner {
            Option::Some(Json::Obj(io)) => {
                let form = match obj_get(io, "variant_kind") {
                    Option::Some(Json::Str(s)) => decode_form(s),
                    _ => Result::Err(Error::MalformedDocument),
                };
                match (form, ids_field(io, "fields")) {
                    (Result::Ok(f), Result::Ok(fields)) => Result::Ok(
                        ItemKind::Variant { form: f, fields },
                    ),
                    (Result::Err(e), _) => Result::Err(e),
                    (_, Result::Err(e)) => Result::Err(e),
                }
            },
            _ => Result::Err(Error::MalformedDocument),
        }
    } else if str_eq(k.as_str(), "impl") {
        match inner {
            Option::Some(Json::Obj(io)) => {
                let blanket = match obj_get(io, "blanket_impl") {
                    Option::None => Result::Ok(false),
                    Option::Some(Json::Null) => Result::Ok(false),
                    Option::Some(Json::Bool(b)) => Result::Ok(*b),
                    Option::Some(_) => Result::Err(Error::MalformedDocument),
                };
                match (ids_field(io, "items"), blanket) {
                    (Result::Ok(items), Result::Ok(b)) => Result::Ok(
                        ItemKind::Impl { items, blanket: b },
                    ),
                    (Result::Err(e), _) => Result::Err(e),
                    (_, Result::Err(e)) => Result::Err(e),
                }
            },
            _ => Result::Err(Error::MalformedDocument),
        }
    } else if str_eq(k.as_str(), "constant") {
        match inner {
            Option::Some(tj) => match decode_type(tj) {
                Result::Ok(t) => Result::Ok(ItemKind::Constant { ty: t }),
                Result::Err(e) => Result::Err(e),
            },
            Option::None => Result::Err(Error::MalformedDocument),
        }
    } else if str_eq(k.as_str(), "typedef") {
        match inner {
            Option::Some(tj) => match decode_type(tj) {
                Result::Ok(t) => Result::Ok(ItemKind::TypeAlias { ty: t }),
                Result::Err(e) => Result::Err(e),
            },
            Option::None => Result::Err(Error::MalformedDocument),
        }
    } else if str_eq(k.as_str(), "trait") {
        match inner {
            Option::Some(Json::Obj(io)) => {
                match ids_field(io, "items") {
                    Result::Ok(items) => Result::Ok(ItemKind::Trait { items }),
                    Result::Err(e) => Result::Err(e),
                }
            },
            _ => Result::Err(Error::MalformedDocument),
        }
    } else {
        Result::Err(Error::MalformedDocument)
    }
}

/// Decodes one item record.
fn decode_item(v: &Json) -> (r: Result<RawItem, Error>)
    ensures
        match r {
            Result::Ok(it) => spec_decode_item(v@) == Option::Some(it@),
            Result::Err(e) => spec_decode_item(v@) is None && (
            e matches Error::MalformedDocument),
        },
{
    match v {
        Json::Obj(o) => {
            let name = match obj_get(o, "name") {
                Option::None => Result::Ok(Option::<String>::None),
                Option::Some(Json::Null) => Result::Ok(Option::<String>::None),
                Option::Some(Json::Str(n)) => Result::Ok(Option::Some(n.clone())),
                Option::Some(_) => Result::Err(Error::MalformedDocument),
            };
            let visibility = match obj_get(o, "visibility") {
                Option::Some(Json::Str(s)) => if str_eq(s.as_str(), "public") {
                    Result::Ok(crate::item_index::Visibility::Public)
                } else if str_eq(s.as_str(), "default") {
                    Result::Ok(crate::item_index::Visibility::Default)
                } else {
                    Result::Ok(crate::item_index::Visibility::Other)
                },
                _ => Result::Err(Error::MalformedDocument),
            };
            let kind = match obj_get(o, "kind") {
                Option::Some(Json::Str(k)) => decode_kind(k, obj_get(o, "inner")),
                _ => Result::Err(Error::MalformedDocument),
            };
            match (name, visibility, kind) {
                (Result::Ok(n), Result::Ok(vis), Result::Ok(kd)) => {
                    let needs_name = match &kd {
                        ItemKind::Import { .. } => false,
                        ItemKind::Impl { .. } => false,
                        _ => true,
                    };
                    if needs_name && n.is_none() {
                        Result::Err(Error::MalformedDocument)
                    } else {
                        Result::Ok(RawItem { name: n, visibility: vis, kind: kd })
                    }
                },
                (Result::Err(e), _, _) => Result::Err(e),
                (_, Result::Err(e), _) => Result::Err(e),
                (_, _, Result::Err(e)) => Result::Err(e),
            }
        },
        _ => Result::Err(Error::MalformedDocument),
    }
}

/// Decodes the entries of the `index` object, from position `i` on.
fn decode_entries_from(entries: &Vec<(String, Json)>, i: usize) -> (r: Result<
    Vec<(String, RawItem)>,
    Error,
>)
    requires
        i <= entries@.len(),
    ensures
        match r {
            Result::Ok(out) => spec_decode_entries(jview_obj(entries@).skip(i as int))
                == Option::Some(crate::item_index::entries_view(out@)),
            Result::Err(e) => spec_decode_entries(jview_obj(entries@).skip(i as int)) is None
                && (e matches Error::MalformedDocument),
        },
    decreases entries@.len() - i,
{
    proof {
        crate::json::lemma_jview_obj(entries@);
    }
    if i == entries.len() {
        proof {
            assert(jview_obj(entries@).skip(i as int) =~= Seq::<(Seq<char>, JsonV)>::empty());
            assert(crate::item_index::entries_view(Seq::<(String, RawItem)>::empty()) =~= Seq::<
                (Seq<char>, RawItemV),
            >::empty());
        }
        Result::Ok(Vec::new())
    } else {
        proof {
            assert(jview_obj(entries@).skip(i as int)[0] == (
                entries@[i as int].0@,
                jview(entries@[i as int].1),
            ));
            assert(jview_obj(entries@).skip(i as int).drop_first() =~= jview_obj(entries@).skip(
                i + 1int,
            ));
        }
        match decode_item(&entries[i].1) {
            Result::Ok(it) => {
                match decode_entries_from(entries, i + 1) {
                    Result::Ok(mut rest) => {
                        let ghost prev = rest@;
                        let ghost itv = it@;
                        let key = entries[i].0.clone();
                        rest.insert(0, (key, it));
                        proof {
                            assert(crate::item_index::entries_view(rest@) =~= seq![
                                (entries@[i as int].0@, itv),
                            ] + crate::item_index::entries_view(prev));
                        }
                        Result::Ok(rest)
                    },
                    Result::Err(e) => Result::Err(e),
                }
            },
            Result::Err(e) => Result::Err(e),
        }
    }
}

/// Decodes the whole input document into an item index.
pub fn decode_document(doc: &Json) -> (r: Result<ItemIndex, Error>)
    ensures
        match r {
            Result::Ok(ix) => spec_decode_doc(doc@) == Option::Some(ix@),
            Result::Err(e) => spec_decode_doc(doc@) is None && (
            e matches Error::MalformedDocument),
        },
{
    match doc {
        Json::Obj(o) => {
            match (obj_get(o, "root"), obj_get(o, "index")) {
                (Option::Some(Json::Str(root)), Option::Some(Json::Obj(entries))) => {
                    match decode_entries_from(entries, 0) {
                        Result::Ok(items) => {
                            proof {
                                assert(jview_obj(entries@).skip(0) =~= jview_obj(entries@));
                            }
                            Result::Ok(ItemIndex { root: root.clone(), items })
                        },
                        Result::Err(e) => {
                            proof {
                                assert(jview_obj(entries@).skip(0) =~= jview_obj(entries@));
                            }
                            Result::Err(e)
                        },
                    }
                },
                _ => Result::Err(Error::MalformedDocument),
            }
        },
        _ => Result::Err(Error::MalformedDocument),
    }
}

} // verus!
