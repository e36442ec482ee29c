use rusty_unsplash::text::decimal_string;
use rusty_unsplash::text::same_text;

#[test]
fn decimal_of_zero_is_one_digit() {
    assert_eq!(decimal_string(0), "0");
}

#[test]
fn decimal_of_single_digits() {
    for n in 0..10usize {
        assert_eq!(decimal_string(n), format!("{}", n));
    }
}

#[test]
fn decimal_has_no_leading_zero() {
    assert_eq!(decimal_string(10), "10");
    assert_eq!(decimal_string(100), "100");
    assert_eq!(decimal_string(1005), "1005");
}

#[test]
fn decimal_of_many_digits() {
    assert_eq!(decimal_string(1234567890), "1234567890");
}

#[test]
fn decimal_of_the_largest_number() {
    assert_eq!(decimal_string(usize::MAX), format!("{}", usize::MAX));
}

#[test]
fn decimal_agrees_with_the_standard_formatting() {
    let mut n: usize = 1;
    for _ in 0..19 {
        assert_eq!(decimal_string(n), format!("{}", n));
        assert_eq!(decimal_string(n - 1), format!("{}", n - 1));
        assert_eq!(decimal_string(n + 7), format!("{}", n + 7));
        n *= 10;
    }
}

#[test]
fn same_text_tells_equal_texts() {
    assert!(same_text("", ""));
    assert!(same_text("approved", "approved"));
    assert!(same_text("arts-culture", "arts-culture"));
}

#[test]
fn same_text_tells_different_texts() {
    assert!(!same_text("approved", "rejected"));
    assert!(!same_text("approved", "approve"));
    assert!(!same_text("approve", "approved"));
    assert!(!same_text("", "a"));
    assert!(!same_text("self", "Self"));
}

#[test]
fn same_text_compares_beyond_ascii() {
    assert!(same_text("naïve ☃", "naïve ☃"));
    assert!(!same_text("naïve", "naive"));
    assert!(!same_text("é", "e\u{301}"));
}
