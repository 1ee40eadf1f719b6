use ai_board::text::{i64_text, is_blank, parse_i64, str_contains, trim_str};

#[test]
fn trim_removes_unicode_whitespace() {
    assert_eq!(trim_str("  a b \t\n"), "a b");
    assert_eq!(trim_str("\u{3000}x\u{a0}"), "x");
    assert_eq!(trim_str("   "), "");
    assert!(is_blank(" \n\t"));
    assert!(!is_blank(" x "));
}

#[test]
fn integers_print_and_parse_back() {
    for i in [0i64, 7, -7, 1234567, i64::MAX, i64::MIN] {
        let t = i64_text(i);
        assert_eq!(t, i.to_string());
        assert_eq!(parse_i64(&t), Some(i));
    }
    assert_eq!(parse_i64("9223372036854775808"), None);
    assert_eq!(parse_i64("-9223372036854775809"), None);
    assert_eq!(parse_i64("-"), None);
    assert_eq!(parse_i64(""), None);
    assert_eq!(parse_i64("1a"), None);
    assert_eq!(parse_i64("+0"), Some(0));
}

#[test]
fn contains_finds_substrings() {
    assert!(str_contains("spec 3 not found", "not found"));
    assert!(!str_contains("not foun", "not found"));
    assert!(str_contains("abc", ""));
}
