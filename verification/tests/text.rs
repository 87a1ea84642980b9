use neko_rss::text::{clone_opt, decimal_text, digits_text, parse_number, same_text};

#[test]
fn decimal_of_signed_numbers() {
    assert_eq!(decimal_text(0), "0");
    assert_eq!(decimal_text(7), "7");
    assert_eq!(decimal_text(10), "10");
    assert_eq!(decimal_text(1_700_000_000), "1700000000");
    assert_eq!(decimal_text(-1), "-1");
    assert_eq!(decimal_text(-905), "-905");
    assert_eq!(decimal_text(i64::MAX), "9223372036854775807");
    assert_eq!(decimal_text(i64::MIN), "-9223372036854775808");
}

#[test]
fn digits_of_unsigned_numbers() {
    assert_eq!(digits_text(0), "0");
    assert_eq!(digits_text(9), "9");
    assert_eq!(digits_text(1234567890), "1234567890");
    assert_eq!(digits_text(u64::MAX), "18446744073709551615");
}

#[test]
fn numbers_are_parsed_like_the_standard_library() {
    let cases = vec![
        "0", "5", "+5", "007", "18446744073709551615", "18446744073709551616", "99999999999999999999999", "",
        "+", "-1", "-0", "1 ", " 1", "1_000", "12a", "a12", "++1", "1+", "１２", "1.0", "0x10",
        "1234567890123456789",
    ];
    for c in cases {
        assert_eq!(parse_number(c), c.parse::<u64>().ok(), "{:?}", c);
    }
}

#[test]
fn parse_number_values() {
    assert_eq!(parse_number("42"), Some(42));
    assert_eq!(parse_number("+42"), Some(42));
    assert_eq!(parse_number("18446744073709551615"), Some(u64::MAX));
    assert_eq!(parse_number("18446744073709551616"), None);
    assert_eq!(parse_number(""), None);
    assert_eq!(parse_number("abc"), None);
}

#[test]
fn same_text_compares_characters() {
    assert!(same_text("title", "title"));
    assert!(!same_text("title", "Title"));
    assert!(!same_text("title", "titles"));
    assert!(same_text("", ""));
}

#[test]
fn clone_opt_copies() {
    assert_eq!(clone_opt(&Some("a".to_string())), Some("a".to_string()));
    assert_eq!(clone_opt(&None), None);
}
