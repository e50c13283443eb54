use public_api::{public_api_from_rustdoc_json_str, Error, Options};

fn opts() -> Options {
    Options::default()
}

fn texts(api: &public_api::PublicApi) -> Vec<String> {
    api.items.iter().map(|i| i.text.clone()).collect()
}

const BASIC: &str = r#"{
  "root": "0:0",
  "index": {
    "0:0": {"name": "lib", "visibility": "public", "kind": "module",
            "inner": {"items": ["0:1"]}},
    "0:1": {"name": "f", "visibility": "public", "kind": "function",
            "inner": {"inputs": [["x", {"kind": "primitive", "inner": "i32"}]],
                      "output": {"kind": "primitive", "inner": "bool"}}}
  }
}"#;

#[test]
fn extracts_function_and_module() {
    let api = public_api_from_rustdoc_json_str(BASIC, opts()).unwrap();
    let t = texts(&api);
    assert_eq!(t, vec!["pub fn lib::f(x: i32) -> bool", "pub mod lib"]);
    assert!(api.missing_item_ids.is_empty());
}

#[test]
fn extraction_is_idempotent() {
    let a = public_api_from_rustdoc_json_str(BASIC, opts()).unwrap();
    let b = public_api_from_rustdoc_json_str(BASIC, opts()).unwrap();
    assert_eq!(texts(&a), texts(&b));
    let pa: Vec<Vec<String>> = a.items.iter().map(|i| i.path.clone()).collect();
    let pb: Vec<Vec<String>> = b.items.iter().map(|i| i.path.clone()).collect();
    assert_eq!(pa, pb);
    assert_eq!(a.missing_item_ids, b.missing_item_ids);
}

#[test]
fn unsorted_output_keeps_traversal_order() {
    let options = Options { with_blanket_implementations: false, sorted: false };
    let api = public_api_from_rustdoc_json_str(BASIC, options).unwrap();
    let t = texts(&api);
    assert_eq!(t, vec!["pub mod lib", "pub fn lib::f(x: i32) -> bool"]);
}

#[test]
fn invalid_json_is_a_parse_error() {
    let r = public_api_from_rustdoc_json_str("{ not json", opts());
    assert!(matches!(r, Err(Error::SerdeJsonError(_))));
}

#[test]
fn wrong_shape_is_a_malformed_document() {
    let r = public_api_from_rustdoc_json_str(r#"{"root": 5, "index": {}}"#, opts());
    assert!(matches!(r, Err(Error::MalformedDocument)));
    let r2 = public_api_from_rustdoc_json_str(r#"[1, 2, 3]"#, opts());
    assert!(matches!(r2, Err(Error::MalformedDocument)));
    let r3 = public_api_from_rustdoc_json_str(r#"{"index": {}}"#, opts());
    assert!(matches!(r3, Err(Error::MalformedDocument)));
}

#[test]
fn unknown_item_kind_is_malformed() {
    let doc = r#"{"root": "0:0", "index": {
        "0:0": {"name": "lib", "visibility": "public", "kind": "macro", "inner": {}}
    }}"#;
    let r = public_api_from_rustdoc_json_str(doc, opts());
    assert!(matches!(r, Err(Error::MalformedDocument)));
}

#[test]
fn empty_index_is_valid_and_records_missing_root() {
    let api = public_api_from_rustdoc_json_str(r#"{"root": "0:0", "index": {}}"#, opts()).unwrap();
    assert!(api.items.is_empty());
    assert_eq!(api.missing_item_ids, vec!["0:0"]);
}

#[test]
fn dangling_reference_is_recorded_not_fatal() {
    let doc = r#"{"root": "0:0", "index": {
        "0:0": {"name": "lib", "visibility": "public", "kind": "module",
                "inner": {"items": ["0:77"]}}
    }}"#;
    let api = public_api_from_rustdoc_json_str(doc, opts()).unwrap();
    assert_eq!(texts(&api), vec!["pub mod lib"]);
    assert_eq!(api.missing_item_ids, vec!["0:77"]);
}

#[test]
fn renaming_reexport_uses_new_name_only() {
    let doc = r#"{"root": "0:0", "index": {
        "0:0": {"name": "lib", "visibility": "public", "kind": "module",
                "inner": {"items": ["0:1"]}},
        "0:1": {"name": null, "visibility": "public", "kind": "import",
                "inner": {"name": "Renamed", "id": "0:2"}},
        "0:2": {"name": "Thing", "visibility": "public", "kind": "struct",
                "inner": {"struct_type": "unit", "fields": [], "impls": []}}
    }}"#;
    let api = public_api_from_rustdoc_json_str(doc, opts()).unwrap();
    let t = texts(&api);
    assert_eq!(t, vec!["pub mod lib", "pub struct lib::Renamed"]);
    for line in &t {
        assert!(!line.contains("Thing"));
    }
}

#[test]
fn reexport_chain_keeps_first_effective_name() {
    let doc = r#"{"root": "0:0", "index": {
        "0:0": {"name": "lib", "visibility": "public", "kind": "module",
                "inner": {"items": ["0:1"]}},
        "0:1": {"name": null, "visibility": "public", "kind": "import",
                "inner": {"name": "Outer", "id": "0:2"}},
        "0:2": {"name": null, "visibility": "public", "kind": "import",
                "inner": {"name": "Middle", "id": "0:3"}},
        "0:3": {"name": "Inner", "visibility": "public", "kind": "struct",
                "inner": {"struct_type": "unit", "fields": [], "impls": []}}
    }}"#;
    let api = public_api_from_rustdoc_json_str(doc, opts()).unwrap();
    assert_eq!(texts(&api), vec!["pub mod lib", "pub struct lib::Outer"]);
}

#[test]
fn cyclic_reexport_terminates_with_valid_result() {
    let doc = r#"{"root": "0:0", "index": {
        "0:0": {"name": "lib", "visibility": "public", "kind": "module",
                "inner": {"items": ["0:1"]}},
        "0:1": {"name": null, "visibility": "public", "kind": "import",
                "inner": {"name": "again", "id": "0:0"}}
    }}"#;
    let api = public_api_from_rustdoc_json_str(doc, opts()).unwrap();
    assert_eq!(texts(&api), vec!["pub mod lib"]);
    assert!(api.missing_item_ids.is_empty());
}

#[test]
fn import_cycle_without_concrete_target_terminates() {
    let doc = r#"{"root": "0:0", "index": {
        "0:0": {"name": "lib", "visibility": "public", "kind": "module",
                "inner": {"items": ["0:1"]}},
        "0:1": {"name": null, "visibility": "public", "kind": "import",
                "inner": {"name": "a", "id": "0:2"}},
        "0:2": {"name": null, "visibility": "public", "kind": "import",
                "inner": {"name": "b", "id": "0:1"}}
    }}"#;
    let api = public_api_from_rustdoc_json_str(doc, opts()).unwrap();
    assert_eq!(texts(&api), vec!["pub mod lib"]);
}

#[test]
fn tuple_struct_is_one_item_with_all_field_types() {
    let doc = r#"{"root": "0:0", "index": {
        "0:0": {"name": "lib", "visibility": "public", "kind": "module",
                "inner": {"items": ["0:1"]}},
        "0:1": {"name": "Foo", "visibility": "public", "kind": "struct",
                "inner": {"struct_type": "tuple", "fields": ["0:2", "0:3"], "impls": []}},
        "0:2": {"name": "0", "visibility": "default", "kind": "struct_field",
                "inner": {"kind": "primitive", "inner": "bool"}},
        "0:3": {"name": "1", "visibility": "default", "kind": "struct_field",
                "inner": {"kind": "primitive", "inner": "u32"}}
    }}"#;
    let api = public_api_from_rustdoc_json_str(doc, opts()).unwrap();
    let t = texts(&api);
    assert_eq!(t, vec!["pub mod lib", "pub struct lib::Foo(bool, u32)"]);
    assert_eq!(t.len(), 2);
}

#[test]
fn plain_struct_fields_are_separate_items() {
    let doc = r#"{"root": "0:0", "index": {
        "0:0": {"name": "lib", "visibility": "public", "kind": "module",
                "inner": {"items": ["0:1"]}},
        "0:1": {"name": "S", "visibility": "public", "kind": "struct",
                "inner": {"struct_type": "plain", "fields": ["0:2"], "impls": []}},
        "0:2": {"name": "v1_field", "visibility": "public", "kind": "struct_field",
                "inner": {"kind": "primitive", "inner": "usize"}}
    }}"#;
    let api = public_api_from_rustdoc_json_str(doc, opts()).unwrap();
    assert_eq!(
        texts(&api),
        vec!["pub mod lib", "pub struct field lib::S::v1_field: usize", "pub struct lib::S"],
    );
}

#[test]
fn enum_variants_and_tuple_variant_suppression() {
    let doc = r#"{"root": "0:0", "index": {
        "0:0": {"name": "lib", "visibility": "public", "kind": "module",
                "inner": {"items": ["0:1"]}},
        "0:1": {"name": "E", "visibility": "public", "kind": "enum",
                "inner": {"variants": ["0:2", "0:3"], "impls": []}},
        "0:2": {"name": "Plain", "visibility": "default", "kind": "variant",
                "inner": {"variant_kind": "plain", "fields": []}},
        "0:3": {"name": "Holds", "visibility": "default", "kind": "variant",
                "inner": {"variant_kind": "tuple", "fields": ["0:4"]}},
        "0:4": {"name": "0", "visibility": "default", "kind": "struct_field",
                "inner": {"kind": "primitive", "inner": "u8"}}
    }}"#;
    let api = public_api_from_rustdoc_json_str(doc, opts()).unwrap();
    assert_eq!(
        texts(&api),
        vec![
            "pub enum lib::E",
            "pub enum variant lib::E::Holds(u8)",
            "pub enum variant lib::E::Plain",
            "pub mod lib",
        ],
    );
}

#[test]
fn private_items_are_skipped() {
    let doc = r#"{"root": "0:0", "index": {
        "0:0": {"name": "lib", "visibility": "public", "kind": "module",
                "inner": {"items": ["0:1", "0:2"]}},
        "0:1": {"name": "hidden", "visibility": "crate", "kind": "function",
                "inner": {"inputs": []}},
        "0:2": {"name": "shown", "visibility": "public", "kind": "function",
                "inner": {"inputs": []}}
    }}"#;
    let api = public_api_from_rustdoc_json_str(doc, opts()).unwrap();
    assert_eq!(texts(&api), vec!["pub fn lib::shown()", "pub mod lib"]);
}

#[test]
fn blanket_implementations_are_filtered_by_default() {
    let doc = r#"{"root": "0:0", "index": {
        "0:0": {"name": "lib", "visibility": "public", "kind": "module",
                "inner": {"items": ["0:1"]}},
        "0:1": {"name": "S", "visibility": "public", "kind": "struct",
                "inner": {"struct_type": "unit", "fields": [], "impls": ["0:2", "0:4"]}},
        "0:2": {"name": null, "visibility": "default", "kind": "impl",
                "inner": {"items": ["0:3"], "blanket_impl": true}},
        "0:3": {"name": "from_blanket", "visibility": "default", "kind": "function",
                "inner": {"inputs": []}},
        "0:4": {"name": null, "visibility": "default", "kind": "impl",
                "inner": {"items": ["0:5"]}},
        "0:5": {"name": "own_method", "visibility": "default", "kind": "function",
                "inner": {"inputs": []}}
    }}"#;
    let api = public_api_from_rustdoc_json_str(doc, opts()).unwrap();
    assert_eq!(texts(&api), vec!["pub fn lib::S::own_method()", "pub mod lib", "pub struct lib::S"]);

    let all = Options { with_blanket_implementations: true, sorted: true };
    let api2 = public_api_from_rustdoc_json_str(doc, all).unwrap();
    assert_eq!(
        texts(&api2),
        vec![
            "pub fn lib::S::from_blanket()",
            "pub fn lib::S::own_method()",
            "pub mod lib",
            "pub struct lib::S",
        ],
    );
}

#[test]
fn renders_generics_references_slices_and_aliases() {
    let doc = r#"{"root": "0:0", "index": {
        "0:0": {"name": "lib", "visibility": "public", "kind": "module",
                "inner": {"items": ["0:1", "0:2", "0:3", "0:4"]}},
        "0:1": {"name": "g", "visibility": "public", "kind": "function",
                "inner": {"generics": ["T"],
                          "inputs": [["v", {"kind": "borrowed_ref",
                                            "inner": {"lifetime": "'a", "mutable": true,
                                                      "type": {"kind": "slice",
                                                               "inner": {"kind": "generic", "inner": "T"}}}}]],
                          "output": {"kind": "resolved_path",
                                     "inner": {"name": "Option",
                                               "args": [{"kind": "generic", "inner": "T"}]}}}},
        "0:2": {"name": "MAX", "visibility": "public", "kind": "constant",
                "inner": {"kind": "primitive", "inner": "usize"}},
        "0:3": {"name": "Pair", "visibility": "public", "kind": "typedef",
                "inner": {"kind": "tuple", "inner": [{"kind": "primitive", "inner": "u8"},
                                                      {"kind": "primitive", "inner": "u8"}]}},
        "0:4": {"name": "Api", "visibility": "public", "kind": "trait",
                "inner": {"items": []}}
    }}"#;
    let api = public_api_from_rustdoc_json_str(doc, opts()).unwrap();
    assert_eq!(
        texts(&api),
        vec![
            "pub const lib::MAX: usize",
            "pub fn lib::g<T>(v: &'a mut [T]) -> Option<T>",
            "pub mod lib",
            "pub trait lib::Api",
            "pub type lib::Pair = (u8, u8)",
        ],
    );
}

#[test]
fn missing_reexport_target_is_recorded() {
    let doc = r#"{"root": "0:0", "index": {
        "0:0": {"name": "lib", "visibility": "public", "kind": "module",
                "inner": {"items": ["0:1"]}},
        "0:1": {"name": null, "visibility": "public", "kind": "import",
                "inner": {"name": "gone", "id": "9:9"}}
    }}"#;
    let api = public_api_from_rustdoc_json_str(doc, opts()).unwrap();
    assert_eq!(texts(&api), vec!["pub mod lib"]);
    assert_eq!(api.missing_item_ids, vec!["9:9"]);
}

#[test]
fn targetless_import_is_skipped_silently() {
    let doc = r#"{"root": "0:0", "index": {
        "0:0": {"name": "lib", "visibility": "public", "kind": "module",
                "inner": {"items": ["0:1"]}},
        "0:1": {"name": null, "visibility": "public", "kind": "import",
                "inner": {"name": "star", "id": null}}
    }}"#;
    let api = public_api_from_rustdoc_json_str(doc, opts()).unwrap();
    assert_eq!(texts(&api), vec!["pub mod lib"]);
    assert!(api.missing_item_ids.is_empty());
}

#[test]
fn unresolved_tuple_field_renders_as_placeholder() {
    let doc = r#"{"root": "0:0", "index": {
        "0:0": {"name": "lib", "visibility": "public", "kind": "module",
                "inner": {"items": ["0:1"]}},
        "0:1": {"name": "Foo", "visibility": "public", "kind": "struct",
                "inner": {"struct_type": "tuple", "fields": ["0:2", "9:9"], "impls": []}},
        "0:2": {"name": "0", "visibility": "default", "kind": "struct_field",
                "inner": {"kind": "primitive", "inner": "bool"}}
    }}"#;
    let api = public_api_from_rustdoc_json_str(doc, opts()).unwrap();
    assert_eq!(texts(&api), vec!["pub mod lib", "pub struct lib::Foo(bool, _)"]);
    assert_eq!(api.missing_item_ids, vec!["9:9"]);
}

#[test]
fn minimum_rustdoc_json_version_is_stated() {
    assert_eq!(public_api::MINIMUM_RUSTDOC_JSON_VERSION, "nightly-2022-09-08");
}

#[test]
fn default_options() {
    let o = Options::default();
    assert!(!o.with_blanket_implementations);
    assert!(o.sorted);
}
