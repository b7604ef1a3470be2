use stream_portal::request::is_success_status;
use stream_portal::text::{
    chars_of, clone_opt_text, decimal_string, has_prefix, parse_i64_from, push_int_decimal,
    push_nat_decimal, same_text,
};

fn parse(text: &str) -> Option<i64> {
    parse_i64_from(&chars_of(text), 0)
}

#[test]
fn decimal_numerals() {
    assert_eq!(decimal_string(0), "0");
    assert_eq!(decimal_string(7), "7");
    assert_eq!(decimal_string(10), "10");
    assert_eq!(decimal_string(12345), "12345");
    assert_eq!(decimal_string(-1), "-1");
    assert_eq!(decimal_string(-9070), "-9070");
    assert_eq!(decimal_string(i64::MAX), i64::MAX.to_string());
    assert_eq!(decimal_string(i64::MIN), i64::MIN.to_string());
}

#[test]
fn numerals_are_appended() {
    let mut out = String::from("n=");
    push_nat_decimal(&mut out, 42);
    out.push(',');
    push_int_decimal(&mut out, -5);
    push_nat_decimal(&mut out, u64::MAX);
    assert_eq!(out, "n=42,-518446744073709551615");
}

#[test]
fn numerals_are_read_as_std_reads_them() {
    for text in [
        "0", "7", "-7", "+7", "007", "-0", "+0", "12345", "9223372036854775807",
        "9223372036854775808", "-9223372036854775808", "-9223372036854775809",
        "00000000000000000000000000000000000001", "99999999999999999999999999", "", "+", "-",
        "1 ", " 1", "1_000", "1.0", "--1", "+-1", "１２", "١", "a", "0x10",
    ] {
        assert_eq!(parse(text), text.parse::<i64>().ok(), "reading {:?}", text);
    }
}

#[test]
fn numerals_are_read_from_a_position() {
    let chars = chars_of("ab-120");
    assert_eq!(parse_i64_from(&chars, 3), Some(120));
    assert_eq!(parse_i64_from(&chars, 2), Some(-120));
    assert_eq!(parse_i64_from(&chars, 1), None);
    assert_eq!(parse_i64_from(&chars, 6), None);
}

#[test]
fn characters_not_bytes() {
    assert_eq!(chars_of("héllo"), vec!['h', 'é', 'l', 'l', 'o']);
    assert_eq!(chars_of(""), Vec::<char>::new());
    assert!(same_text("héllo", "héllo"));
    assert!(!same_text("héllo", "hello"));
    assert!(!same_text("Live", "live"));
    assert!(!same_text("Live", "Liv"));
    assert!(same_text("", ""));
    assert!(has_prefix("héllo wörld", "héllo"));
    assert!(has_prefix("abc", ""));
    assert!(has_prefix("abc", "abc"));
    assert!(!has_prefix("abc", "abcd"));
    assert!(!has_prefix("abc", "b"));
}

#[test]
fn absent_text_is_copied_as_absent() {
    assert_eq!(clone_opt_text(&None), None);
    assert_eq!(clone_opt_text(&Some("x".to_string())), Some("x".to_string()));
}

#[test]
fn success_statuses() {
    assert!(!is_success_status(199));
    assert!(is_success_status(200));
    assert!(is_success_status(204));
    assert!(is_success_status(299));
    assert!(!is_success_status(300));
    assert!(!is_success_status(401));
}
