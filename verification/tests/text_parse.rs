use cos_manager::text::{parse_i32, text_less};

#[test]
fn parses_plain_and_signed_numbers() {
    assert_eq!(parse_i32("42"), Some(42));
    assert_eq!(parse_i32("-7"), Some(-7));
    assert_eq!(parse_i32("+5"), Some(5));
    assert_eq!(parse_i32("007"), Some(7));
    assert_eq!(parse_i32("-0"), Some(0));
}

#[test]
fn parses_the_bounds_of_i32() {
    assert_eq!(parse_i32("2147483647"), Some(i32::MAX));
    assert_eq!(parse_i32("-2147483648"), Some(i32::MIN));
    assert_eq!(parse_i32("2147483648"), None);
    assert_eq!(parse_i32("-2147483649"), None);
    assert_eq!(parse_i32("99999999999999999999999"), None);
}

#[test]
fn refuses_what_is_not_a_number() {
    assert_eq!(parse_i32(""), None);
    assert_eq!(parse_i32("-"), None);
    assert_eq!(parse_i32("+"), None);
    assert_eq!(parse_i32("12a"), None);
    assert_eq!(parse_i32(" 1"), None);
    assert_eq!(parse_i32("1_0"), None);
    assert_eq!(parse_i32("--1"), None);
}

#[test]
fn agrees_with_std_parse() {
    for s in ["0", "1", "-1", "+0", "123456", "-99999", "x", "", "2147483647", "2147483648", "٣"] {
        assert_eq!(parse_i32(s), s.parse::<i32>().ok(), "input {:?}", s);
    }
}

#[test]
fn compares_text_like_strings() {
    assert!(text_less("2021-01-01", "2022-01-01"));
    assert!(!text_less("2022-01-01", "2021-01-01"));
    assert!(!text_less("same", "same"));
    assert!(text_less("ab", "abc"));
    assert!(!text_less("abc", "ab"));
    assert!(text_less("", "a"));
    assert!(text_less("z", "é"));
    for (a, b) in [("a", "b"), ("é", "e"), ("", ""), ("x1", "x10")] {
        assert_eq!(text_less(a, b), a < b);
    }
}
