use public_api::rustdoc_json::BuildOptions;
use public_api::tokens::{Token, TokenKind};

#[test]
fn build_options_default() {
    let o = BuildOptions::default();
    assert!(o.toolchain.is_none());
    assert_eq!(o.manifest_path, "Cargo.toml");
    assert!(o.target.is_none());
    assert!(!o.quiet);
    assert!(!o.no_default_features);
    assert!(!o.all_features);
    assert!(o.features.is_empty());
    assert!(o.package.is_none());
}

#[test]
fn build_options_builders_set_their_fields() {
    let o = BuildOptions::default()
        .toolchain("+nightly".to_string())
        .manifest_path("there/Cargo.toml")
        .target("x86_64-unknown-linux-gnu".to_string())
        .quiet(true)
        .no_default_features(true)
        .all_features(false)
        .features(vec!["feature_a".to_string(), "feature_b".to_string()])
        .package("rustdoc-json".to_string());
    assert_eq!(o.toolchain.as_deref(), Some("+nightly"));
    assert_eq!(o.manifest_path, "there/Cargo.toml");
    assert_eq!(o.target.as_deref(), Some("x86_64-unknown-linux-gnu"));
    assert!(o.quiet);
    assert!(o.no_default_features);
    assert!(!o.all_features);
    assert_eq!(o.features, vec!["feature_a", "feature_b"]);
    assert_eq!(o.package.as_deref(), Some("rustdoc-json"));
}

#[test]
fn token_construction_and_text() {
    let t = Token::new(TokenKind::Primitive, "i32");
    assert_eq!(t.text(), "i32");
    assert!(matches!(t.kind, TokenKind::Primitive));
    let w = Token::whitespace();
    assert_eq!(w.text(), " ");
    assert!(matches!(w.kind, TokenKind::Whitespace));
}

#[test]
fn public_item_text_is_the_concatenated_tokens() {
    let doc = r#"{"root": "0:0", "index": {
        "0:0": {"name": "lib", "visibility": "public", "kind": "module",
                "inner": {"items": []}}
    }}"#;
    let api = public_api::public_api_from_rustdoc_json_str(doc, public_api::Options::default())
        .unwrap();
    assert_eq!(api.items.len(), 1);
    let item = &api.items[0];
    let joined: String = item.tokens.iter().map(|t| t.text.clone()).collect();
    assert_eq!(joined, item.text);
    assert_eq!(item.text, "pub mod lib");
    assert_eq!(item.path, vec!["lib"]);
}
