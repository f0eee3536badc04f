use child_timeout::digits::{
    char_digit_value, char_is_digit, digits_only, numbers_within, read_digits,
};

#[test]
fn digits_are_the_ten_ascii_digits() {
    for c in "0123456789".chars() {
        assert!(char_is_digit(c));
    }
    for c in "/:aA +-.\u{661}".chars() {
        assert!(!char_is_digit(c));
    }
    assert_eq!(char_digit_value('0'), 0);
    assert_eq!(char_digit_value('7'), 7);
    assert_eq!(char_digit_value('9'), 9);
}

#[test]
fn runs_of_digits_are_read_up_to_the_limit() {
    assert_eq!(read_digits("12345", 0, 5, u64::MAX), Some(12_345));
    assert_eq!(read_digits("12345", 1, 3, u64::MAX), Some(23));
    assert_eq!(read_digits("12345", 2, 2, u64::MAX), Some(0));
    assert_eq!(read_digits("12345", 0, 5, 12_345), Some(12_345));
    assert_eq!(read_digits("12345", 0, 5, 12_344), None);
    assert_eq!(read_digits("9", 0, 1, 8), None);
    assert_eq!(read_digits("9", 0, 1, 0), None);
    assert_eq!(read_digits("0", 0, 1, 0), Some(0));
    assert_eq!(read_digits("000", 0, 3, 0), Some(0));
    assert_eq!(read_digits("18446744073709551615", 0, 20, u64::MAX), Some(u64::MAX));
    assert_eq!(read_digits("18446744073709551616", 0, 20, u64::MAX), None);
    assert_eq!(read_digits("184467440737095516150", 0, 21, u64::MAX), None);
    assert_eq!(read_digits("12a45", 0, 5, u64::MAX), None);
    assert_eq!(read_digits("12a45", 0, 2, u64::MAX), Some(12));
    assert_eq!(read_digits("\u{e9}12", 1, 3, u64::MAX), Some(12));
}

#[test]
fn digits_are_checked() {
    assert!(digits_only("12a", 0, 2));
    assert!(!digits_only("12a", 0, 3));
    assert!(digits_only("12a", 3, 3));
    assert!(digits_only("", 0, 0));
}

#[test]
fn numbers_are_summed_up() {
    assert!(numbers_within("", 0));
    assert!(numbers_within("abc", 0));
    assert!(numbers_within("5s", 5));
    assert!(!numbers_within("5s", 4));
    assert!(numbers_within("1h30m", 31));
    assert!(!numbers_within("1h30m", 30));
    assert!(numbers_within("1.5s", 6));
    assert!(!numbers_within("1.5s", 5));
    assert!(numbers_within("10y 11M 12d", 33));
    assert!(!numbers_within("10y 11M 12d", 32));
    assert!(numbers_within("7", 7));
    assert!(!numbers_within("7", 6));
}

#[test]
fn digits_of_one_number_may_stand_apart() {
    assert!(numbers_within("1 2s", 12));
    assert!(!numbers_within("1 2s", 11));
    assert!(numbers_within("1,2s", 12));
    assert!(!numbers_within("1,2s", 11));
    assert!(numbers_within("1\u{b5}2", 12));
    assert!(!numbers_within("1\u{b5}2", 11));
}

#[test]
fn numbers_beyond_the_limit_are_told_without_overflow() {
    assert!(numbers_within("18446744073709551615", u64::MAX));
    assert!(!numbers_within("18446744073709551616", u64::MAX));
    assert!(!numbers_within("99999999999999999999999999999999", u64::MAX));
    assert!(!numbers_within("18446744073709551615s1s", u64::MAX));
    assert!(numbers_within("18446744073709551614s1s", u64::MAX));
    assert!(numbers_within("500000000000ns", 500_000_000_000));
    assert!(!numbers_within("500000000001ns", 500_000_000_000));
}
