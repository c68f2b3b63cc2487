use demoparser::keyvalues::{json_like, prepare_text, GameItems, JsonValue, Translation};

fn show(v: &JsonValue) -> String {
    match v {
        JsonValue::Str(s) => format!("{:?}", s),
        JsonValue::Object(m) => {
            let parts: Vec<String> = m.iter().map(|(k, v)| format!("{:?}: {}", k, show(v))).collect();
            format!("{{{}}}", parts.join(", "))
        }
    }
}

#[test]
fn nested_objects_with_lowercase_keys() {
    let v = json_like("  \"lang\" { \"Tokens\" { \"Hello\" \"World\" } }").unwrap();
    assert_eq!(show(&v), r#"{"lang": {"tokens": {"hello": "World"}}}"#);
}

#[test]
fn comments_and_white_space() {
    let text = "\"a\"\n{\n  // a comment\n  \"b\" \"c\" // trailing\n\t\"d\"\t\"e\"\r\n}";
    let v = json_like(text).unwrap();
    assert_eq!(show(&v), r#"{"a": {"b": "c", "d": "e"}}"#);
}

#[test]
fn escapes() {
    let v = json_like(r#""k" "a\tb\u00e9\x0041\"\/\\""#).unwrap();
    match &v {
        JsonValue::Object(m) => match &m[0].1 {
            JsonValue::Str(s) => assert_eq!(s, "a\tb\u{e9}A\"/\\"),
            _ => panic!("not a string"),
        },
        _ => panic!("not an object"),
    }
}

#[test]
fn surrogate_pair_escape() {
    let v = json_like(r#""k" "\ud83d\ude00""#).unwrap();
    assert_eq!(show(&v), format!("{{\"k\": {:?}}}", "\u{1F600}"));
}

#[test]
fn repeated_keys_merge() {
    let text = r#""r" { "x" { "a" "1" } "X" { "b" "2" "a" "3" } "s" "one" "s" "two" }"#;
    let v = json_like(text).unwrap();
    assert_eq!(show(&v), r#"{"r": {"x": {"a": "3", "b": "2"}, "s": "one"}}"#);
}

#[test]
fn malformed_texts() {
    assert!(json_like(r#""a" "unterminated"#).is_none());
    assert!(json_like(r#""a" "bad \q escape""#).is_none());
    assert!(json_like(r#""a" { "b" "c" "#).is_none());
    assert!(json_like(r#""a" { "b" }"#).is_none());
    assert!(json_like("a b").is_none());
    assert!(json_like("").is_none());
    assert!(json_like(r#""a" "\ud800""#).is_none());
}

#[test]
fn text_after_the_pair_is_not_read() {
    let v = json_like(r#""a" "b" and more"#).unwrap();
    assert_eq!(show(&v), r#"{"a": "b"}"#);
}

#[test]
fn preparing_the_text() {
    let raw = "\u{FEFF}\u{FEFF}\"a\" \"x n\\y\"";
    assert_eq!(prepare_text(raw), "\"a\" \"x\\ny\"");
    assert_eq!(prepare_text("plain"), "plain");
}

#[test]
fn translation_tokens() {
    let v = json_like(r#""lang" { "Language" "english" "Tokens" { "SFUI_Hello" "Hello" "Sub" { } } }"#).unwrap();
    let t = Translation::from_json(v).unwrap();
    assert_eq!(t.get("#SFUI_Hello"), Some("Hello".to_string()));
    assert_eq!(t.get("sfui_hello"), Some("Hello".to_string()));
    assert_eq!(t.get("Sub"), None);
    assert_eq!(t.get("missing"), None);
}

#[test]
fn translation_needs_tokens() {
    let v = json_like(r#""lang" { "Language" "english" }"#).unwrap();
    assert!(Translation::from_json(v).is_none());
    let w = json_like(r#""other" { }"#).unwrap();
    assert!(Translation::from_json(w).is_none());
}

#[test]
fn game_items() {
    let v = json_like(r#""items_game" { "items" { "1" { "name" "knife" } } "rarity" "common" }"#).unwrap();
    let g = GameItems::from_json(v).unwrap();
    let items = g.get("items").unwrap();
    assert_eq!(items.len(), 1);
    assert_eq!(items[0].0, "1");
    assert!(g.get("rarity").is_none());
    assert!(g.get("nothing").is_none());
}

#[test]
fn extend_from_merges_objects() {
    let mut a = json_like(r#""a" { "x" "1" }"#).unwrap();
    let b = json_like(r#""b" { "y" "2" }"#).unwrap();
    a.extend_from(b);
    assert_eq!(show(&a), r#"{"a": {"x": "1"}, "b": {"y": "2"}}"#);
    let mut s = JsonValue::Str("t".to_string());
    s.extend_from(json_like(r#""c" "d""#).unwrap());
    assert_eq!(show(&s), r#""t""#);
}
