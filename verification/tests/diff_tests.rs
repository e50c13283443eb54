use public_api::diff::{PublicItemsDiff, TokenDiff};
use public_api::tokens::{Token, TokenKind};
use public_api::{public_api_from_rustdoc_json_str, Options, PublicItem};

fn api_items(doc: &str) -> Vec<PublicItem> {
    public_api_from_rustdoc_json_str(doc, Options::default()).unwrap().items
}

fn doc_with_fn(param_type: &str) -> String {
    format!(
        r#"{{"root": "0:0", "index": {{
        "0:0": {{"name": "lib", "visibility": "public", "kind": "module",
                "inner": {{"items": ["0:1"]}}}},
        "0:1": {{"name": "f", "visibility": "public", "kind": "function",
                "inner": {{"inputs": [["x", {{"kind": "primitive", "inner": "{}"}}]],
                          "output": {{"kind": "primitive", "inner": "bool"}}}}}}
    }}}}"#,
        param_type
    )
}

#[test]
fn identical_apis_diff_to_nothing() {
    let old_items = api_items(&doc_with_fn("i32"));
    let new_items = api_items(&doc_with_fn("i32"));
    let diff = PublicItemsDiff::between(old_items, new_items);
    assert!(diff.removed.is_empty());
    assert!(diff.changed.is_empty());
    assert!(diff.added.is_empty());
}

#[test]
fn changed_parameter_type_is_one_changed_pair() {
    let old_items = api_items(&doc_with_fn("i32"));
    let new_items = api_items(&doc_with_fn("i64"));
    let diff = PublicItemsDiff::between(old_items, new_items);
    assert!(diff.removed.is_empty());
    assert!(diff.added.is_empty());
    assert_eq!(diff.changed.len(), 1);
    assert_eq!(diff.changed[0].old_item.text, "pub fn lib::f(x: i32) -> bool");
    assert_eq!(diff.changed[0].new_item.text, "pub fn lib::f(x: i64) -> bool");
}

#[test]
fn alignment_marks_only_the_changed_type_tokens() {
    let old_items = api_items(&doc_with_fn("i32"));
    let new_items = api_items(&doc_with_fn("i64"));
    let diff = PublicItemsDiff::between(old_items, new_items);
    let pair = &diff.changed[0];
    let aligned = public_api::diff::token_diff(&pair.old_item.tokens, &pair.new_item.tokens);
    let mut lefts: Vec<String> = Vec::new();
    let mut rights: Vec<String> = Vec::new();
    let mut commons: usize = 0;
    for d in &aligned {
        match d {
            TokenDiff::Left(t) => lefts.push(t.text.clone()),
            TokenDiff::Right(t) => rights.push(t.text.clone()),
            TokenDiff::Both(_, _) => commons += 1,
        }
    }
    assert_eq!(lefts, vec!["i32"]);
    assert_eq!(rights, vec!["i64"]);
    assert_eq!(commons, pair.old_item.tokens.len() - 1);
}

#[test]
fn added_function_lands_in_added_only() {
    let old_doc = r#"{"root": "0:0", "index": {
        "0:0": {"name": "lib", "visibility": "public", "kind": "module",
                "inner": {"items": ["0:1"]}},
        "0:1": {"name": "a", "visibility": "public", "kind": "function",
                "inner": {"inputs": []}}
    }}"#;
    let new_doc = r#"{"root": "0:0", "index": {
        "0:0": {"name": "lib", "visibility": "public", "kind": "module",
                "inner": {"items": ["0:1", "0:2"]}},
        "0:1": {"name": "a", "visibility": "public", "kind": "function",
                "inner": {"inputs": []}},
        "0:2": {"name": "b", "visibility": "public", "kind": "function",
                "inner": {"inputs": []}}
    }}"#;
    let diff = PublicItemsDiff::between(api_items(old_doc), api_items(new_doc));
    assert!(diff.removed.is_empty());
    assert!(diff.changed.is_empty());
    assert_eq!(diff.added.len(), 1);
    assert_eq!(diff.added[0].text, "pub fn lib::b()");
}

#[test]
fn removed_function_lands_in_removed_only() {
    let old_doc = r#"{"root": "0:0", "index": {
        "0:0": {"name": "lib", "visibility": "public", "kind": "module",
                "inner": {"items": ["0:1", "0:2"]}},
        "0:1": {"name": "a", "visibility": "public", "kind": "function",
                "inner": {"inputs": []}},
        "0:2": {"name": "gone", "visibility": "public", "kind": "function",
                "inner": {"inputs": []}}
    }}"#;
    let new_doc = r#"{"root": "0:0", "index": {
        "0:0": {"name": "lib", "visibility": "public", "kind": "module",
                "inner": {"items": ["0:1"]}},
        "0:1": {"name": "a", "visibility": "public", "kind": "function",
                "inner": {"inputs": []}}
    }}"#;
    let diff = PublicItemsDiff::between(api_items(old_doc), api_items(new_doc));
    assert_eq!(diff.removed.len(), 1);
    assert_eq!(diff.removed[0].text, "pub fn lib::gone()");
    assert!(diff.changed.is_empty());
    assert!(diff.added.is_empty());
}

#[test]
fn either_collection_may_be_empty() {
    let items = api_items(&doc_with_fn("i32"));
    let n = items.len();
    let diff = PublicItemsDiff::between(Vec::new(), items);
    assert!(diff.removed.is_empty());
    assert!(diff.changed.is_empty());
    assert_eq!(diff.added.len(), n);

    let items2 = api_items(&doc_with_fn("i32"));
    let diff2 = PublicItemsDiff::between(items2, Vec::new());
    assert_eq!(diff2.removed.len(), n);
    assert!(diff2.changed.is_empty());
    assert!(diff2.added.is_empty());
}

fn item(path: &[&str], kind_label: &str, text_tail: &str) -> PublicItem {
    // builds an item whose rendered text mimics `pub <label> <path><tail>`
    let mut tokens = vec![
        Token::new(TokenKind::Qualifier, "pub"),
        Token::whitespace(),
        Token::new(TokenKind::Kind, kind_label),
        Token::whitespace(),
    ];
    let mut text = format!("pub {} ", kind_label);
    for (i, seg) in path.iter().enumerate() {
        if i > 0 {
            tokens.push(Token::new(TokenKind::Symbol, "::"));
            text.push_str("::");
        }
        tokens.push(Token::new(TokenKind::Identifier, seg));
        text.push_str(seg);
    }
    tokens.push(Token::new(TokenKind::Type, text_tail));
    text.push_str(text_tail);
    PublicItem { path: path.iter().map(|s| s.to_string()).collect(), tokens, text }
}

#[test]
fn same_path_different_text_is_changed_never_removed_plus_added() {
    let old_items = vec![item(&["lib", "x"], "fn", "(a)")];
    let new_items = vec![item(&["lib", "x"], "fn", "(b)")];
    let diff = PublicItemsDiff::between(old_items, new_items);
    assert!(diff.removed.is_empty());
    assert!(diff.added.is_empty());
    assert_eq!(diff.changed.len(), 1);
}

#[test]
fn buckets_come_out_in_path_order() {
    let old_items = vec![
        item(&["lib", "z"], "fn", "()"),
        item(&["lib", "a"], "fn", "()"),
    ];
    let diff = PublicItemsDiff::between(old_items, Vec::new());
    assert_eq!(diff.removed.len(), 2);
    assert_eq!(diff.removed[0].path, vec!["lib", "a"]);
    assert_eq!(diff.removed[1].path, vec!["lib", "z"]);
}

#[test]
fn unchanged_paths_appear_in_no_bucket() {
    // one unchanged, one changed, one removed, one added: the unchanged
    // item's path is in none of the three buckets
    let old_items = vec![
        item(&["lib", "same"], "fn", "()"),
        item(&["lib", "alter"], "fn", "(a)"),
        item(&["lib", "gone"], "fn", "()"),
    ];
    let new_items = vec![
        item(&["lib", "same"], "fn", "()"),
        item(&["lib", "alter"], "fn", "(b)"),
        item(&["lib", "fresh"], "fn", "()"),
    ];
    let diff = PublicItemsDiff::between(old_items, new_items);
    assert_eq!(diff.removed.len(), 1);
    assert_eq!(diff.removed[0].path, vec!["lib", "gone"]);
    assert_eq!(diff.changed.len(), 1);
    assert_eq!(diff.changed[0].old_item.path, vec!["lib", "alter"]);
    assert_eq!(diff.added.len(), 1);
    assert_eq!(diff.added[0].path, vec!["lib", "fresh"]);
    for it in diff.removed.iter().chain(diff.added.iter()) {
        assert_ne!(it.path, vec!["lib", "same"]);
    }
    for pair in &diff.changed {
        assert_ne!(pair.old_item.path, vec!["lib", "same"]);
    }
}

#[test]
fn token_diff_of_equal_sequences_is_all_common() {
    let a = vec![Token::new(TokenKind::Identifier, "x"), Token::new(TokenKind::Symbol, ":")];
    let b = vec![Token::new(TokenKind::Identifier, "x"), Token::new(TokenKind::Symbol, ":")];
    let d = public_api::diff::token_diff(&a, &b);
    assert_eq!(d.len(), 2);
    for x in &d {
        assert!(matches!(x, TokenDiff::Both(_, _)));
    }
}

#[test]
fn public_items_compare_by_rendered_text() {
    let a = item(&["lib", "x"], "fn", "()");
    let b = item(&["lib", "x"], "fn", "()");
    let c = item(&["lib", "y"], "fn", "()");
    assert!(a == b);
    assert!(a != c);
    assert!(a < c);
    assert_eq!(a.partial_cmp(&c), Some(std::cmp::Ordering::Less));
    assert_eq!(a.partial_cmp(&b), Some(std::cmp::Ordering::Equal));
}

#[test]
fn token_diff_distinguishes_kinds_with_equal_text() {
    // same text, different kind: not a common token
    let a = vec![Token::new(TokenKind::Identifier, "x")];
    let b = vec![Token::new(TokenKind::Type, "x")];
    let d = public_api::diff::token_diff(&a, &b);
    assert_eq!(d.len(), 2);
    assert!(d.iter().all(|x| !matches!(x, TokenDiff::Both(_, _))));
}
