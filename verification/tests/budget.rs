use child_timeout::budget::{
    contains_long_exponent, first_reading, parse_budget, parse_compound, parse_decimal_seconds,
    parse_unit_suffixed,
};
use child_timeout::outcome::ConfigError;
use child_timeout::span::Span;

#[test]
fn plain_seconds_are_read() {
    assert_eq!(parse_budget("2"), Ok(Span::from_secs(2)));
    assert_eq!(parse_budget("1.5"), Ok(Span::from_millis(1_500)));
    assert_eq!(parse_budget("0"), Ok(Span::zero()));
    assert_eq!(parse_budget("0.25"), Ok(Span::from_millis(250)));
}

#[test]
fn unit_suffixed_durations_are_read() {
    assert_eq!(parse_budget("500ms"), Ok(Span::from_millis(500)));
    assert_eq!(parse_budget("1h"), Ok(Span::from_secs(3_600)));
    assert_eq!(parse_budget("2s"), Ok(Span::from_secs(2)));
    assert_eq!(parse_budget("1s"), Ok(Span::from_secs(1)));
    assert_eq!(parse_budget("10s"), Ok(Span::from_secs(10)));
    assert_eq!(parse_budget("15us"), Ok(Span::from_nanos(15_000)));
}

#[test]
fn compound_durations_are_read() {
    assert_eq!(parse_budget("1h30m"), Ok(Span::from_secs(5_400)));
    assert_eq!(parse_budget("1 hour, 30 minutes"), Ok(Span::from_secs(5_400)));
    assert_eq!(parse_budget("2 min 3 Sec"), Ok(Span::from_secs(123)));
}

#[test]
fn unreadable_durations_are_refused() {
    assert_eq!(parse_budget("abc"), Err(ConfigError::Duration));
    assert_eq!(parse_budget(""), Err(ConfigError::Duration));
    assert_eq!(parse_budget("."), Err(ConfigError::Duration));
    assert_eq!(parse_budget("-1"), Err(ConfigError::Duration));
    assert_eq!(parse_budget("1x"), Err(ConfigError::Duration));
    assert_eq!(parse_budget("ms"), Err(ConfigError::Duration));
}

#[test]
fn decimal_seconds_keep_nine_places() {
    assert_eq!(parse_decimal_seconds("2"), Some(Span::from_secs(2)));
    assert_eq!(parse_decimal_seconds("2.0"), Some(Span::from_secs(2)));
    assert_eq!(parse_decimal_seconds("2."), Some(Span::from_secs(2)));
    assert_eq!(parse_decimal_seconds(".5"), Some(Span::from_millis(500)));
    assert_eq!(parse_decimal_seconds("0.5"), Some(Span::from_millis(500)));
    assert_eq!(parse_decimal_seconds("0.05"), Some(Span::from_millis(50)));
    assert_eq!(parse_decimal_seconds("1.000000001"), Some(Span::new(1, 1).unwrap()));
    assert_eq!(parse_decimal_seconds("0.123456789"), Some(Span::from_nanos(123_456_789)));
    assert_eq!(parse_decimal_seconds("0.1234567894"), Some(Span::from_nanos(123_456_789)));
    assert_eq!(parse_decimal_seconds("0.12345678949"), Some(Span::from_nanos(123_456_789)));
    assert_eq!(parse_decimal_seconds("0.1234567895"), Some(Span::from_nanos(123_456_790)));
    assert_eq!(parse_decimal_seconds("0.1234567899"), Some(Span::from_nanos(123_456_790)));
    assert_eq!(parse_decimal_seconds("0.0000000004"), Some(Span::zero()));
    assert_eq!(parse_decimal_seconds("0.0000000005"), Some(Span::from_nanos(1)));
    assert_eq!(parse_decimal_seconds("0.0000000009"), Some(Span::from_nanos(1)));
    assert_eq!(parse_decimal_seconds("0.999999999999"), Some(Span::from_secs(1)));
    assert_eq!(parse_decimal_seconds("1.9999999995"), Some(Span::from_secs(2)));
    assert_eq!(parse_decimal_seconds("18446744073709551615.9999999995"), None);
    assert_eq!(
        parse_decimal_seconds("18446744073709551615.9999999994"),
        Span::new(u64::MAX, 999_999_999)
    );
    assert_eq!(parse_decimal_seconds("007"), Some(Span::from_secs(7)));
    assert_eq!(
        parse_decimal_seconds("18446744073709551615.999999999"),
        Span::new(u64::MAX, 999_999_999)
    );
}

#[test]
fn other_text_is_no_decimal_seconds() {
    assert_eq!(parse_decimal_seconds(""), None);
    assert_eq!(parse_decimal_seconds("."), None);
    assert_eq!(parse_decimal_seconds("1.2.3"), None);
    assert_eq!(parse_decimal_seconds("1..2"), None);
    assert_eq!(parse_decimal_seconds("+"), None);
    assert_eq!(parse_decimal_seconds("++1"), None);
    assert_eq!(parse_decimal_seconds("-1"), None);
    assert_eq!(parse_decimal_seconds("1+"), None);
    assert_eq!(parse_decimal_seconds("1s"), None);
    assert_eq!(parse_decimal_seconds(" 1"), None);
    assert_eq!(parse_decimal_seconds("1 "), None);
    assert_eq!(parse_decimal_seconds("1.5x"), None);
    assert_eq!(parse_decimal_seconds("1.1234567890x"), None);
    assert_eq!(parse_decimal_seconds("abc"), None);
    assert_eq!(parse_decimal_seconds("\u{661}"), None);
    assert_eq!(parse_decimal_seconds("18446744073709551616"), None);
    assert_eq!(parse_decimal_seconds("99999999999999999999999.5"), None);
}

#[test]
fn plus_sign_may_stand_in_front_of_plain_seconds() {
    assert_eq!(parse_decimal_seconds("+1"), Some(Span::from_secs(1)));
    assert_eq!(parse_decimal_seconds("+1.5"), Some(Span::from_millis(1_500)));
    assert_eq!(parse_decimal_seconds("+.5"), Some(Span::from_millis(500)));
    assert_eq!(parse_budget("+1.5"), Ok(Span::from_millis(1_500)));
}

#[test]
fn exponent_moves_the_decimal_point() {
    assert_eq!(parse_decimal_seconds("1e3"), Some(Span::from_secs(1_000)));
    assert_eq!(parse_decimal_seconds("1E3"), Some(Span::from_secs(1_000)));
    assert_eq!(parse_decimal_seconds("1e+3"), Some(Span::from_secs(1_000)));
    assert_eq!(parse_decimal_seconds("1e0"), Some(Span::from_secs(1)));
    assert_eq!(parse_decimal_seconds("1e-0"), Some(Span::from_secs(1)));
    assert_eq!(parse_decimal_seconds("1.5e-3"), Some(Span::from_nanos(1_500_000)));
    assert_eq!(parse_decimal_seconds("15e-1"), Some(Span::from_millis(1_500)));
    assert_eq!(parse_decimal_seconds("0.5e1"), Some(Span::from_secs(5)));
    assert_eq!(parse_decimal_seconds("0.25e1"), Some(Span::from_millis(2_500)));
    assert_eq!(parse_decimal_seconds("1.e2"), Some(Span::from_secs(100)));
    assert_eq!(parse_decimal_seconds(".5e1"), Some(Span::from_secs(5)));
    assert_eq!(parse_decimal_seconds("+2.5e0003"), Some(Span::from_secs(2_500)));
    assert_eq!(parse_decimal_seconds("123.456e2"), Some(Span::from_millis(12_345_600)));
    assert_eq!(parse_decimal_seconds("123.456e-2"), Some(Span::from_nanos(1_234_560_000)));
    assert_eq!(parse_budget("1e3"), Ok(Span::from_secs(1_000)));
    assert_eq!(parse_budget("1.5e-3"), Ok(Span::from_nanos(1_500_000)));
}

#[test]
fn small_exponents_round_to_the_nearest_nanosecond() {
    assert_eq!(parse_decimal_seconds("1e-9"), Some(Span::from_nanos(1)));
    assert_eq!(parse_decimal_seconds("1e-10"), Some(Span::zero()));
    assert_eq!(parse_decimal_seconds("4e-10"), Some(Span::zero()));
    assert_eq!(parse_decimal_seconds("5e-10"), Some(Span::from_nanos(1)));
    assert_eq!(parse_decimal_seconds("14e-10"), Some(Span::from_nanos(1)));
    assert_eq!(parse_decimal_seconds("15e-10"), Some(Span::from_nanos(2)));
    assert_eq!(parse_decimal_seconds("1e-9999"), Some(Span::zero()));
    assert_eq!(parse_decimal_seconds("0e9999"), Some(Span::zero()));
}

#[test]
fn large_exponents_do_not_fit() {
    assert_eq!(parse_decimal_seconds("1e19"), Some(Span::from_secs(10_000_000_000_000_000_000)));
    assert_eq!(parse_decimal_seconds("2e19"), None);
    assert_eq!(parse_decimal_seconds("1e20"), None);
    assert_eq!(parse_decimal_seconds("1e9999"), None);
    assert_eq!(parse_decimal_seconds("0.000000001e30"), None);
    assert_eq!(parse_budget("1e9999"), Err(ConfigError::Duration));
}

#[test]
fn other_exponents_are_refused() {
    assert_eq!(parse_decimal_seconds("1e"), None);
    assert_eq!(parse_decimal_seconds("1e+"), None);
    assert_eq!(parse_decimal_seconds("1e-"), None);
    assert_eq!(parse_decimal_seconds("e3"), None);
    assert_eq!(parse_decimal_seconds(".e3"), None);
    assert_eq!(parse_decimal_seconds("1e3x"), None);
    assert_eq!(parse_decimal_seconds("1e3.5"), None);
    assert_eq!(parse_decimal_seconds("1e3e3"), None);
    assert_eq!(parse_decimal_seconds("1e+-3"), None);
    assert_eq!(parse_decimal_seconds("1.2.3e1"), None);
    assert_eq!(parse_decimal_seconds("1x2e1"), None);
    assert_eq!(parse_decimal_seconds("1e10000"), None);
    assert_eq!(parse_decimal_seconds("1e00001"), None);
    assert_eq!(parse_decimal_seconds("0e10000"), None);
}

#[test]
fn unit_suffixed_reading_follows_humantime() {
    assert_eq!(parse_unit_suffixed("500ms"), Some(Span::from_millis(500)));
    assert_eq!(parse_unit_suffixed("1h"), Some(Span::from_secs(3_600)));
    assert_eq!(parse_unit_suffixed("2 hours 37 min"), Some(Span::from_secs(2 * 3_600 + 37 * 60)));
    assert_eq!(parse_unit_suffixed("1h30m"), Some(Span::from_secs(5_400)));
    assert_eq!(parse_unit_suffixed("2"), None);
    assert_eq!(parse_unit_suffixed("abc"), None);
    assert_eq!(parse_unit_suffixed(""), None);
}

#[test]
fn unit_suffixed_reading_takes_many_parts() {
    assert_eq!(
        parse_unit_suffixed("10y 11M 12d 13h 14m 15s 16ms"),
        Span::new(345_590_631, 16_000_000)
    );
    assert_eq!(
        parse_budget("10y 11M 12d 13h 14m 15s 16ms"),
        Ok(Span::new(345_590_631, 16_000_000).unwrap())
    );
    assert_eq!(parse_unit_suffixed("1.5h"), Some(Span::from_secs(5_400)));
}

#[test]
fn unit_suffixed_reading_stops_at_large_numbers() {
    assert_eq!(parse_unit_suffixed("99999999999ns"), Some(Span::from_nanos(99_999_999_999)));
    assert_eq!(parse_unit_suffixed("100000000000ns"), Some(Span::from_secs(100)));
    assert_eq!(parse_unit_suffixed("500000000000ns"), Some(Span::from_secs(500)));
    assert_eq!(parse_unit_suffixed("500000000001ns"), None);
    assert_eq!(parse_unit_suffixed("400000000000s 100000000001s"), None);
    assert_eq!(parse_unit_suffixed("18446744073709551615s 1000ms"), None);
    assert_eq!(parse_budget("500000000001ns"), Ok(Span::new(500, 1).unwrap()));
    assert_eq!(parse_budget("18446744073709551615s 1000ms"), Err(ConfigError::Duration));
}

#[test]
fn compound_reading_follows_parse_duration() {
    assert_eq!(parse_compound("1h30m"), Some(Span::from_secs(5_400)));
    assert_eq!(parse_compound("1 hour, 30 minutes"), Some(Span::from_secs(5_400)));
    assert_eq!(parse_compound("1.5 hours"), Some(Span::from_secs(5_400)));
    assert_eq!(parse_compound("250 msec"), Some(Span::from_millis(250)));
    assert_eq!(parse_compound("2"), Some(Span::from_secs(2)));
    assert_eq!(parse_compound("abc"), None);
    assert_eq!(parse_compound("-5s"), None);
    assert_eq!(parse_compound(""), None);
}

#[test]
fn compound_reading_takes_short_exponents() {
    assert_eq!(parse_compound("1e3s"), Some(Span::from_secs(1_000)));
    assert_eq!(parse_compound("1E3 s"), Some(Span::from_secs(1_000)));
    assert_eq!(parse_compound("1.5e-3 s"), Some(Span::from_nanos(1_500_000)));
    assert_eq!(parse_compound("2e+2 ms"), Some(Span::from_millis(200)));
    assert_eq!(parse_budget("1e3s"), Ok(Span::from_secs(1_000)));
    assert_eq!(parse_compound("1e9999s"), None);
    assert_eq!(parse_compound("1 sec"), Some(Span::from_secs(1)));
    assert_eq!(parse_compound("3 minutes"), Some(Span::from_secs(180)));
}

#[test]
fn compound_reading_leaves_long_exponents_alone() {
    assert_eq!(parse_compound("1e10000s"), None);
    assert_eq!(parse_compound("1e00003s"), None);
    assert_eq!(parse_compound("1e-10000 s"), None);
    assert_eq!(parse_compound("1e999999999999s"), None);
    assert_eq!(parse_budget("1e999999999999s"), Err(ConfigError::Duration));
    assert_eq!(parse_budget("1.5E+999999999999 years"), Err(ConfigError::Duration));
}

#[test]
fn long_exponents_are_found() {
    assert!(contains_long_exponent("1e10000"));
    assert!(contains_long_exponent("1E10000"));
    assert!(contains_long_exponent("1e+10000"));
    assert!(contains_long_exponent("1e-10000s"));
    assert!(contains_long_exponent("xe123456"));
    assert!(!contains_long_exponent(""));
    assert!(!contains_long_exponent("e"));
    assert!(!contains_long_exponent("1e"));
    assert!(!contains_long_exponent("1e3"));
    assert!(!contains_long_exponent("1e9999"));
    assert!(!contains_long_exponent("1e-9999"));
    assert!(!contains_long_exponent("1e+-10000"));
    assert!(!contains_long_exponent("1e1234x5"));
    assert!(!contains_long_exponent("12345 sec"));
    assert!(!contains_long_exponent("e 12345"));
}

#[test]
fn text_without_a_digit_is_no_duration() {
    for text in ["abc", "", "ms", "hours", ".", "-", "e", "\u{663}s", "one second"] {
        assert_eq!(parse_decimal_seconds(text), None);
        assert_eq!(parse_unit_suffixed(text), None);
        assert_eq!(parse_compound(text), None);
        assert_eq!(parse_budget(text), Err(ConfigError::Duration));
    }
}

#[test]
fn first_reading_wins() {
    let a = Some(Span::from_secs(1));
    let b = Some(Span::from_secs(2));
    let c = Some(Span::from_secs(3));
    assert_eq!(first_reading(a, b, c), Ok(Span::from_secs(1)));
    assert_eq!(first_reading(a, None, None), Ok(Span::from_secs(1)));
    assert_eq!(first_reading(None, b, c), Ok(Span::from_secs(2)));
    assert_eq!(first_reading(None, b, None), Ok(Span::from_secs(2)));
    assert_eq!(first_reading(None, None, c), Ok(Span::from_secs(3)));
    assert_eq!(first_reading(a, None, c), Ok(Span::from_secs(1)));
    assert_eq!(first_reading(None, None, None), Err(ConfigError::Duration));
}

#[test]
fn plain_seconds_win_over_the_other_readings() {
    assert_eq!(parse_compound("2"), Some(Span::from_secs(2)));
    assert_eq!(parse_decimal_seconds("2"), Some(Span::from_secs(2)));
    assert_eq!(parse_budget("2"), Ok(Span::from_secs(2)));
    assert_eq!(parse_decimal_seconds("0.5"), Some(Span::from_millis(500)));
    assert_eq!(parse_budget("0.5"), Ok(Span::from_millis(500)));
}
