use pie_bakeoff::keys::{purchases_key, remaining_key, remaining_keys, user_blacklist_key};
use pie_bakeoff::text::{
    append_decimal, parse_i64, parse_u64, str_ends_with, str_equal, strip_trailing, trimmed_equals,
};

fn decimal_of(n: u64) -> String {
    let mut s = String::from("n=");
    append_decimal(&mut s, n);
    s
}

#[test]
fn decimal_formatting_matches_display() {
    assert_eq!(decimal_of(0), "n=0");
    assert_eq!(decimal_of(7), "n=7");
    assert_eq!(decimal_of(10), "n=10");
    assert_eq!(decimal_of(1234567890), "n=1234567890");
    assert_eq!(decimal_of(u64::MAX), format!("n={}", u64::MAX));
}

#[test]
fn parse_u64_accepts_what_from_str_accepts() {
    assert_eq!(parse_u64("42"), Some(42));
    assert_eq!(parse_u64("+7"), Some(7));
    assert_eq!(parse_u64("007"), Some(7));
    assert_eq!(parse_u64("18446744073709551615"), Some(u64::MAX));
    assert_eq!(parse_u64("18446744073709551616"), None);
    assert_eq!(parse_u64(""), None);
    assert_eq!(parse_u64("+"), None);
    assert_eq!(parse_u64("-1"), None);
    assert_eq!(parse_u64("1a"), None);
    assert_eq!(parse_u64(" 1"), None);
    for s in ["0", "+0", "99", "12x", "", "+", "-0", "٣", "18446744073709551616"] {
        assert_eq!(parse_u64(s), s.parse::<u64>().ok(), "input {:?}", s);
    }
}

#[test]
fn parse_i64_accepts_what_from_str_accepts() {
    assert_eq!(parse_i64("-9223372036854775808"), Some(i64::MIN));
    assert_eq!(parse_i64("9223372036854775807"), Some(i64::MAX));
    assert_eq!(parse_i64("9223372036854775808"), None);
    assert_eq!(parse_i64("-9223372036854775809"), None);
    assert_eq!(parse_i64("-"), None);
    assert_eq!(parse_i64("+-1"), None);
    assert_eq!(parse_i64("-3"), Some(-3));
    assert_eq!(parse_i64("+3"), Some(3));
    for s in ["1", "-0", "+12", "--1", "1.5", "", "3 ", "-9223372036854775808"] {
        assert_eq!(parse_i64(s), s.parse::<i64>().ok(), "input {:?}", s);
    }
}

#[test]
fn trimmed_names_match_like_str_trim() {
    assert!(trimmed_equals(" username\t", "username"));
    assert!(trimmed_equals("\u{3000}amount\u{a0}", "amount"));
    assert!(trimmed_equals("slices", "slices"));
    assert!(!trimmed_equals("user name", "username"));
    assert!(!trimmed_equals("usernames", "username"));
    assert!(trimmed_equals("   ", ""));
    for s in [" a b ", "\n\tx", "y\u{2028}", "", "\u{200b}z"] {
        assert_eq!(trimmed_equals(s, s.trim()), true, "input {:?}", s);
    }
}

#[test]
fn string_comparisons() {
    assert!(str_equal("pie", "pie"));
    assert!(!str_equal("pie", "pies"));
    assert!(str_ends_with("12.json", "json"));
    assert!(!str_ends_with("json12", "json"));
    assert!(str_ends_with("json", "json"));
    assert!(!str_ends_with("son", "json"));
}

#[test]
fn strip_trailing_removes_every_trailing_suffix() {
    assert_eq!(strip_trailing("12.json", ".json"), "12");
    assert_eq!(strip_trailing("12.json.json", ".json"), "12");
    assert_eq!(strip_trailing("12.jso", ".json"), "12.jso");
    assert_eq!(strip_trailing(".json", ".json"), "");
    for s in ["a.json.jsonb.json", "x", ""] {
        assert_eq!(strip_trailing(s, ".json"), s.trim_end_matches(".json"));
    }
}

#[test]
fn store_keys() {
    assert_eq!(remaining_key(12), "pie-12-remaining");
    assert_eq!(purchases_key(0), "pie-0-purchases");
    assert_eq!(user_blacklist_key("bob"), "user-bob-blacklist");
    assert_eq!(
        remaining_keys(&vec![3, 40]),
        vec!["pie-3-remaining".to_string(), "pie-40-remaining".to_string()]
    );
    assert!(remaining_keys(&vec![]).is_empty());
}

#[test]
fn strip_trailing_with_an_empty_suffix_keeps_the_text() {
    assert_eq!(strip_trailing("12.json", ""), "12.json".trim_end_matches(""));
    assert_eq!(strip_trailing("", ""), "");
}
