use my_notice_app::text::{contains_str, join_lines, parse_u64, trim_end_str, trim_str, white_space};

#[test]
fn trim_drops_unicode_white_space_on_both_sides() {
    assert_eq!(trim_str("  \t hello world \r\n"), "hello world");
    assert_eq!(trim_str("\u{3000}x\u{00A0}"), "x");
    assert_eq!(trim_str("   "), "");
    assert_eq!(trim_str(""), "");
    assert_eq!(trim_str("a b"), "a b");
    for s in ["  \t hello \n", "\u{2028}é\u{205F}", "x", " ", "\u{85}mid dle\u{1680}"] {
        assert_eq!(trim_str(s), s.trim());
    }
}

#[test]
fn trim_end_keeps_leading_white_space() {
    assert_eq!(trim_end_str("  value \t"), "  value");
    assert_eq!(trim_end_str(" \n "), "");
    assert_eq!(trim_end_str("v"), "v");
}

#[test]
fn white_space_matches_char_is_whitespace() {
    for c in ['\t', '\n', '\u{B}', '\u{C}', '\r', ' ', '\u{85}', '\u{A0}', '\u{1680}', '\u{2000}',
        '\u{200A}', '\u{2028}', '\u{2029}', '\u{202F}', '\u{205F}', '\u{3000}', 'a', '0', '\u{200B}',
        '\u{FEFF}', '_']
    {
        assert_eq!(white_space(c), c.is_whitespace(), "{:?}", c);
    }
}

#[test]
fn parse_u64_reads_like_from_str() {
    assert_eq!(parse_u64("0"), Some(0));
    assert_eq!(parse_u64("3000"), Some(3000));
    assert_eq!(parse_u64("+42"), Some(42));
    assert_eq!(parse_u64("007"), Some(7));
    assert_eq!(parse_u64("18446744073709551615"), Some(u64::MAX));
    assert_eq!(parse_u64("18446744073709551616"), None);
    assert_eq!(parse_u64("99999999999999999999x"), None);
    assert_eq!(parse_u64(""), None);
    assert_eq!(parse_u64("+"), None);
    assert_eq!(parse_u64("-1"), None);
    assert_eq!(parse_u64("-0"), None);
    assert_eq!(parse_u64(" 1"), None);
    assert_eq!(parse_u64("1.5"), None);
    assert_eq!(parse_u64("١"), None);
}

#[test]
fn contains_finds_runs_of_characters() {
    assert!(contains_str("server maintenance tonight", "maint"));
    assert!(contains_str("abc", ""));
    assert!(contains_str("", ""));
    assert!(contains_str("abc", "abc"));
    assert!(contains_str("aab", "ab"));
    assert!(!contains_str("abc", "abcd"));
    assert!(!contains_str("a-b-c", "abc"));
    assert!(!contains_str("", "a"));
    assert!(contains_str("通知中心", "中心"));
}

#[test]
fn join_puts_one_line_break_between_lines() {
    assert_eq!(join_lines(&vec![]), "");
    assert_eq!(join_lines(&vec!["one".to_string()]), "one");
    assert_eq!(
        join_lines(&vec!["a".to_string(), "".to_string(), "c".to_string()]),
        "a\n\nc"
    );
}
