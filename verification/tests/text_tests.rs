use motosan_agent_tool::text::{i64_text, parse_i64_text, trim_text, u64_text};

#[test]
fn trims_unicode_white_space() {
    assert_eq!(trim_text("\u{3000} a b \t\n"), "a b");
    assert_eq!(trim_text("   "), "");
}

#[test]
fn parses_integers_like_str_parse() {
    assert_eq!(parse_i64_text("42"), Some(42));
    assert_eq!(parse_i64_text("+7"), Some(7));
    assert_eq!(parse_i64_text("-9223372036854775808"), Some(i64::MIN));
    assert_eq!(parse_i64_text("9223372036854775808"), None);
    assert_eq!(parse_i64_text(""), None);
    assert_eq!(parse_i64_text("-"), None);
    assert_eq!(parse_i64_text(" 1"), None);
    assert_eq!(parse_i64_text("1a"), None);
    for s in ["0", "-0", "00012", "-77", "123456789"] {
        assert_eq!(parse_i64_text(s), s.parse::<i64>().ok(), "{s}");
    }
}

#[test]
fn renders_integers() {
    assert_eq!(u64_text(0), "0");
    assert_eq!(u64_text(u64::MAX), u64::MAX.to_string());
    assert_eq!(i64_text(i64::MIN), i64::MIN.to_string());
    assert_eq!(i64_text(-5), "-5");
}
