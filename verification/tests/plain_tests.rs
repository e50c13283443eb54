use public_api::diff::PublicItemsDiff;
use public_api::plain::{color_item, print_items_with_header, Plain};
use public_api::{public_api_from_rustdoc_json_str, Options};

const OLD_DOC: &str = r#"{"root": "0:0", "index": {
    "0:0": {"name": "lib", "visibility": "public", "kind": "module",
            "inner": {"items": ["0:1"]}},
    "0:1": {"name": "f", "visibility": "public", "kind": "function",
            "inner": {"inputs": [["x", {"kind": "primitive", "inner": "i32"}]],
                      "output": {"kind": "primitive", "inner": "bool"}}}
}}"#;

const NEW_DOC: &str = r#"{"root": "0:0", "index": {
    "0:0": {"name": "lib", "visibility": "public", "kind": "module",
            "inner": {"items": ["0:1", "0:2"]}},
    "0:1": {"name": "f", "visibility": "public", "kind": "function",
            "inner": {"inputs": [["x", {"kind": "primitive", "inner": "i64"}]],
                      "output": {"kind": "primitive", "inner": "bool"}}},
    "0:2": {"name": "g", "visibility": "public", "kind": "function",
            "inner": {"inputs": []}}
}}"#;

fn items(doc: &str) -> Vec<public_api::PublicItem> {
    public_api_from_rustdoc_json_str(doc, Options::default()).unwrap().items
}

#[test]
fn prints_plain_item_list() {
    let api = items(OLD_DOC);
    let mut out = String::new();
    Plain::print_items(&mut out, false, &api);
    assert_eq!(out, "pub fn lib::f(x: i32) -> bool\npub mod lib\n");
}

#[test]
fn colored_item_list_differs_and_carries_escapes() {
    let api = items(OLD_DOC);
    let mut plain = String::new();
    Plain::print_items(&mut plain, false, &api);
    let mut colored = String::new();
    Plain::print_items(&mut colored, true, &api);
    assert_ne!(plain, colored);
    assert!(colored.contains('\u{1b}'));
    assert!(!plain.contains('\u{1b}'));
}

#[test]
fn colored_item_keeps_the_token_texts() {
    let api = items(OLD_DOC);
    let colored = color_item(&api[0]);
    assert!(colored.contains("lib"));
    assert!(colored.contains("i32"));
    assert!(colored.contains('\u{1b}'));
}

#[test]
fn prints_plain_diff_report() {
    let diff = PublicItemsDiff::between(items(OLD_DOC), items(NEW_DOC));
    let mut out = String::new();
    Plain::print_diff(&mut out, false, &diff);
    let expected = "Removed items from the public API\n\
                    =================================\n\
                    (none)\n\
                    \n\
                    Changed items in the public API\n\
                    ===============================\n\
                    -pub fn lib::f(x: i32) -> bool\n\
                    +pub fn lib::f(x: i64) -> bool\n\
                    \n\
                    Added items to the public API\n\
                    =============================\n\
                    +pub fn lib::g()\n\
                    \n";
    assert_eq!(out, expected);
}

#[test]
fn colored_diff_highlights_changed_tokens() {
    let diff = PublicItemsDiff::between(items(OLD_DOC), items(NEW_DOC));
    let mut colored = String::new();
    Plain::print_diff(&mut colored, true, &diff);
    let mut plain = String::new();
    Plain::print_diff(&mut plain, false, &diff);
    assert_ne!(colored, plain);
    assert!(colored.contains('\u{1b}'));
    assert!(colored.contains("i32"));
    assert!(colored.contains("i64"));
}

#[test]
fn header_sections_mark_empty_buckets() {
    let empty: Vec<public_api::PublicItem> = Vec::new();
    let mut out = String::new();
    print_items_with_header(&mut out, "Things\n======", &empty, "-", false);
    assert_eq!(out, "Things\n======\n(none)\n\n");
}
