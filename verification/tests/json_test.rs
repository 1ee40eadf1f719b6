use ai_board::json::{json_text, Json};

#[test]
fn text_of_scalars() {
    assert_eq!(json_text(&Json::Null), "null");
    assert_eq!(json_text(&Json::Bool(true)), "true");
    assert_eq!(json_text(&Json::Bool(false)), "false");
    assert_eq!(json_text(&Json::Int(-42)), "-42");
    assert_eq!(json_text(&Json::Int(i64::MIN)), "-9223372036854775808");
    assert_eq!(json_text(&Json::Num("1.5".to_string())), "1.5");
}

#[test]
fn text_of_strings_is_escaped() {
    assert_eq!(json_text(&Json::Str("a\"b\\c\nd".to_string())), r#""a\"b\\c\nd""#);
    assert_eq!(json_text(&Json::Str("héllo".to_string())), "\"héllo\"");
}

#[test]
fn text_of_nested_values_matches_serde_json() {
    let value = Json::Object(vec![
        ("ok".to_string(), Json::Bool(false)),
        (
            "items".to_string(),
            Json::Array(vec![Json::Int(1), Json::Array(vec![]), Json::Object(vec![])]),
        ),
        ("error".to_string(), Json::Str("ticket 9 not found".to_string())),
    ]);
    let text = json_text(&value);
    assert_eq!(text, r#"{"ok":false,"items":[1,[],{}],"error":"ticket 9 not found"}"#);
    let parsed: serde_json::Value = serde_json::from_str(&text).unwrap();
    assert_eq!(parsed["items"][0], 1);
}

#[test]
fn text_of_empty_containers() {
    assert_eq!(json_text(&Json::Array(vec![])), "[]");
    assert_eq!(json_text(&Json::Object(vec![])), "{}");
}

#[test]
fn text_of_control_characters_is_escaped() {
    assert_eq!(json_text(&Json::Str("\u{1}\t\u{1f}\r\u{8}\u{c}".to_string())), r#""\u0001\t\u001f\r\b\f""#);
    assert_eq!(json_text(&Json::Str("\u{7f}/".to_string())), "\"\u{7f}/\"");
}

#[test]
fn text_of_string_with_line_feed_is_one_line() {
    let text = json_text(&Json::Object(vec![("a\nb".to_string(), Json::Str("x\ny".to_string()))]));
    assert!(!text.contains('\n'));
    assert_eq!(text, r#"{"a\nb":"x\ny"}"#);
}

#[test]
fn stored_text_that_is_not_json_reads_as_null() {
    assert!(matches!(ai_board::json::stored_json("not json"), Json::Null));
    match ai_board::json::stored_json(r#"["cargo test => PASS"]"#) {
        Json::Array(items) => assert!(matches!(&items[0], Json::Str(s) if s == "cargo test => PASS")),
        _ => panic!("not an array"),
    }
}

#[test]
fn stored_json_keeps_big_numbers_as_text() {
    assert!(matches!(ai_board::json::stored_json("18446744073709551615"), Json::Num(t) if t == "18446744073709551615"));
}
