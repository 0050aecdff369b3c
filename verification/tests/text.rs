use colmsg::text::{
    decimal_string,
    chars_of, eq_ignore_ascii_case_str, first_line_str, parse_u16_str, strip_prefix_str, trim_str,
};

#[test]
fn trim_removes_unicode_white_space_at_both_ends() {
    assert_eq!(trim_str("  菅井友香 \t"), "菅井友香");
    assert_eq!(trim_str("\u{3000}佐々木久美\u{2003}\n"), "佐々木久美");
    assert_eq!(trim_str("a b"), "a b");
    assert_eq!(trim_str(" \u{85}\u{a0} "), "");
    assert_eq!(trim_str(""), "");
}

#[test]
fn trim_agrees_with_std() {
    for s in ["", " x ", "\u{200b}x", "\u{180e}y\u{180e}", "\u{feff}z", " \u{2028}a\u{2029} "] {
        assert_eq!(trim_str(s), s.trim());
    }
}

#[test]
fn chars_of_lists_characters() {
    assert_eq!(chars_of("aé日"), vec!['a', 'é', '日']);
}

#[test]
fn ascii_case_is_ignored_only_for_ascii_letters() {
    assert!(eq_ignore_ascii_case_str("Authorization", "authorization"));
    assert!(eq_ignore_ascii_case_str("AUTHORIZATION", "authorization"));
    assert!(!eq_ignore_ascii_case_str("authorizatio", "authorization"));
    assert!(!eq_ignore_ascii_case_str("É", "é"));
    assert!(eq_ignore_ascii_case_str("", ""));
}

#[test]
fn strip_prefix_keeps_what_follows() {
    assert_eq!(strip_prefix_str("Bearer abc", "Bearer "), Some("abc".to_string()));
    assert_eq!(strip_prefix_str("Bearer ", "Bearer "), Some(String::new()));
    assert_eq!(strip_prefix_str("bearer abc", "Bearer "), None);
    assert_eq!(strip_prefix_str("Bear", "Bearer "), None);
}

#[test]
fn parse_u16_reads_ports() {
    assert_eq!(parse_u16_str("9222"), Some(9222));
    assert_eq!(parse_u16_str("+80"), Some(80));
    assert_eq!(parse_u16_str("0065535"), Some(65535));
    assert_eq!(parse_u16_str("65536"), None);
    assert_eq!(parse_u16_str("999999999999"), None);
    assert_eq!(parse_u16_str("+"), None);
    assert_eq!(parse_u16_str(""), None);
    assert_eq!(parse_u16_str("-1"), None);
    assert_eq!(parse_u16_str("12a"), None);
    assert_eq!(parse_u16_str(" 12"), None);
}

#[test]
fn parse_u16_agrees_with_std() {
    for s in ["1", "+1", "-0", "00", "65535", "65536", "１２", "", "+", "++1"] {
        assert_eq!(parse_u16_str(s), s.parse::<u16>().ok());
    }
}

#[test]
fn parse_reads_decimal_text() {
    for n in [0u16, 7, 10, 9222, 65535] {
        assert_eq!(parse_u16_str(&n.to_string()), Some(n));
    }
}

#[test]
fn first_line_is_what_lines_gives() {
    for s in ["", "a", "a\nb", "a\r\nb", "\n", "\r\n", "a\r", "a\rb\nc", "\nb"] {
        assert_eq!(first_line_str(s).as_deref(), s.lines().next());
    }
}

#[test]
fn first_line_before_line_feed() {
    assert_eq!(first_line_str("9222\n/devtools/browser/x"), Some("9222".to_string()));
    assert_eq!(first_line_str("9222\r\n/devtools/browser/x"), Some("9222".to_string()));
}

#[test]
fn decimal_string_is_to_string() {
    for n in [0u64, 9, 10, 99, 100, 9222, 65535, u64::MAX] {
        assert_eq!(decimal_string(n), n.to_string());
    }
}
