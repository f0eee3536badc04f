//! The budget as text. Three ways of writing a length of time are tried in
//! turn, and the first that reads the text gives the budget: plain seconds
//! with an optional decimal fraction and exponent (`1.5`, `1e3`), a number
//! with a unit (`500ms`, `2s`, `1h`), and a compound of such (`1h30m`).

use vstd::prelude::*;
use vstd::string::{StrSliceExecFns, StringExecFns};
use crate::digits::{
    all_digits,
    char_digit_value,
    count_digits,
    digit_value,
    digits_only,
    digits_value,
    is_digit,
    lemma_digits_value_bound,
    lemma_no_digit_counted,
    lemma_pow10_values,
    numbers_total,
    numbers_within,
    pow10,
    read_digits,
};
use crate::span::max_span_nanos;
use crate::outcome::ConfigError;
use crate::span::{Span, nanos_in, nanos_of};

verus! {

/// The largest sum of the numbers in a text that is read as numbers with
/// units.
pub const MAX_UNIT_NUMBERS: u64 = 500_000_000_000;

/// The most digits of an exponent in a text that is read as a compound.
pub const MAX_EXPONENT_DIGITS: usize = 4;

/// The position of the first character of `s` that is `a` or `b`; the
/// length of `s` where it has none.
pub open spec fn first_of(s: Seq<char>, a: char, b: char) -> nat
    decreases s.len(),
{
    if s.len() == 0 || s[0] == a || s[0] == b {
        0
    } else {
        1 + first_of(s.skip(1), a, b)
    }
}

/// The position of the first `.` in `s`; the length of `s` where it has none.
pub open spec fn dot_position(s: Seq<char>) -> nat {
    first_of(s, '.', '.')
}

/// The position of the first `e`, small or capital, in `s`; the length of
/// `s` where it has none.
pub open spec fn exponent_position(s: Seq<char>) -> nat {
    first_of(s, 'e', 'E')
}

/// The nanoseconds that the digits after the decimal point are worth,
/// rounded to the nearest: the tenth digit decides, and from 5 on it rounds
/// up. The result may be a whole second.
pub open spec fn fraction_nanos(fraction: Seq<char>) -> nat {
    if fraction.len() <= 9 {
        digits_value(fraction) * pow10((9 - fraction.len()) as nat)
    } else if digit_value(fraction[9]) >= 5 {
        digits_value(fraction.take(9)) + 1
    } else {
        digits_value(fraction.take(9))
    }
}

/// A run of `count` zeros.
pub open spec fn zeros(count: nat) -> Seq<char> {
    Seq::new(count, |i: int| '0')
}

/// The digits before and after the decimal point, where the point stands
/// behind the first `point` of `digits`. A point before the first digit or
/// behind the last is reached over zeros.
pub open spec fn move_point(digits: Seq<char>, point: int) -> (Seq<char>, Seq<char>) {
    if point <= 0 {
        (Seq::<char>::empty(), zeros((-point) as nat) + digits)
    } else if point >= digits.len() {
        (digits + zeros((point - digits.len()) as nat), Seq::<char>::empty())
    } else {
        (digits.take(point), digits.skip(point))
    }
}

/// The exponent that `s` writes: one to four digits, with `+` or `-` in
/// front if any. `None` for any other text.
pub open spec fn exponent_of(s: Seq<char>) -> Option<int> {
    let signed = s.len() > 0 && (s[0] == '-' || s[0] == '+');
    let digits = if signed {
        s.skip(1)
    } else {
        s
    };
    if 1 <= digits.len() <= 4 && all_digits(digits) {
        if s[0] == '-' {
            Some(-(digits_value(digits) as int))
        } else {
            Some(digits_value(digits) as int)
        }
    } else {
        None
    }
}

/// The length in nanoseconds of the seconds that `seconds` writes before
/// the decimal point and `rest` behind it, where a `Span` holds it.
pub open spec fn seconds_nanos(seconds: Seq<char>, rest: Seq<char>) -> Option<nat> {
    let nanos = digits_value(seconds) * 1_000_000_000 + fraction_nanos(rest);
    if nanos <= max_span_nanos() {
        Some(nanos as nat)
    } else {
        None
    }
}

/// The length, in nanoseconds, that `text` writes as plain seconds: digits,
/// then optionally a `.` and more digits, with at least one digit in all;
/// a `+` may stand in front, and an exponent of ten behind: `e`, small or
/// capital, and a number of up to four digits with an optional sign.
/// `None` for any other text, and for a length that no `Span` holds.
pub open spec fn decimal_seconds_of(text: Seq<char>) -> Option<nat> {
    let body = if text.len() > 0 && text[0] == '+' {
        text.skip(1)
    } else {
        text
    };
    let mark = exponent_position(body) as int;
    let mantissa = body.take(mark);
    let dot = dot_position(mantissa) as int;
    let whole = mantissa.take(dot);
    let fraction = if dot < mantissa.len() {
        mantissa.skip(dot + 1)
    } else {
        Seq::<char>::empty()
    };
    let exponent = if mark < body.len() {
        exponent_of(body.skip(mark + 1))
    } else {
        Some(0int)
    };
    if whole.len() + fraction.len() > 0 && all_digits(whole) && all_digits(fraction)
        && exponent is Some {
        let moved = move_point(whole + fraction, whole.len() + exponent.unwrap());
        seconds_nanos(moved.0, moved.1)
    } else {
        None
    }
}

/// Where the digits of an exponent would begin after the letter at `at`:
/// behind the letter, or behind the sign that follows it.
pub open spec fn exponent_start(s: Seq<char>, at: int) -> int {
    if at + 1 < s.len() && (s[at + 1] == '+' || s[at + 1] == '-') {
        at + 2
    } else {
        at + 1
    }
}

/// Whether the letter `e`, small or capital, stands at `at` with five digits
/// behind it, or behind the sign that follows it.
pub open spec fn long_exponent_at(s: Seq<char>, at: int) -> bool {
    (s[at] == 'e' || s[at] == 'E') && exponent_start(s, at) + 5 <= s.len() && all_digits(
        s.subrange(exponent_start(s, at), exponent_start(s, at) + 5),
    )
}

/// Whether `s` holds an exponent of more than four digits.
pub open spec fn has_long_exponent(s: Seq<char>) -> bool {
    exists|at: int| 0 <= at < s.len() && long_exponent_at(s, at)
}

/// What `humantime::parse_duration` makes of a text: whole seconds and
/// nanoseconds, or nothing where it reports an error.
pub uninterp spec fn humantime_reading(text: Seq<char>) -> Option<(u64, u32)>;

/// What `parse_duration::parse` makes of a text: whole seconds and
/// nanoseconds, or nothing where it reports an error.
pub uninterp spec fn compound_reading(text: Seq<char>) -> Option<(u64, u32)>;

/// The length in nanoseconds of a reading in seconds and nanoseconds.
pub open spec fn reading_nanos(reading: Option<(u64, u32)>) -> Option<nat> {
    match reading {
        Some((secs, nanos)) => Some(nanos_of(secs as int, nanos as int) as nat),
        None => None,
    }
}

/// The length that `text` writes as a number with a unit. A text without a
/// digit writes none, and a text whose numbers sum up to more than
/// 500 000 000 000 is not read this way.
pub open spec fn unit_suffixed_of(text: Seq<char>) -> Option<nat> {
    if count_digits(text) > 0 && numbers_total(text) <= 500_000_000_000 {
        reading_nanos(humantime_reading(text))
    } else {
        None
    }
}

/// The length that `text` writes as a compound of numbers with units. A
/// text without a digit writes none, and a text with an exponent of more
/// than four digits is not read this way.
pub open spec fn compound_of(text: Seq<char>) -> Option<nat> {
    if count_digits(text) > 0 && !has_long_exponent(text) {
        reading_nanos(compound_reading(text))
    } else {
        None
    }
}

/// The first of the three readings that there is.
pub open spec fn first_reading_of(
    decimal: Option<nat>,
    unit_suffixed: Option<nat>,
    compound: Option<nat>,
) -> Option<nat> {
    if decimal is Some {
        decimal
    } else if unit_suffixed is Some {
        unit_suffixed
    } else {
        compound
    }
}

/// The budget that `text` writes, in nanoseconds.
pub open spec fn budget_of(text: Seq<char>) -> Option<nat> {
    first_reading_of(decimal_seconds_of(text), unit_suffixed_of(text), compound_of(text))
}

/// The first `a` or `b` is where none comes before it.
proof fn lemma_first_of(s: Seq<char>, a: char, b: char, at: int)
    requires
        0 <= at <= s.len(),
        forall|i: int| 0 <= i < at ==> s[i] != a && s[i] != b,
        at == s.len() || s[at] == a || s[at] == b,
    ensures
        first_of(s, a, b) == at,
    decreases s.len(),
{
    if at > 0 {
        assert(s[0] != a && s[0] != b);
        assert forall|i: int| 0 <= i < at - 1 implies s.skip(1)[i] != a && s.skip(1)[i] != b by {
            assert(s.skip(1)[i] == s[i + 1]);
        }
        lemma_first_of(s.skip(1), a, b, at - 1);
    }
}

/// The first `a` or `b` is within the text or at its end.
proof fn lemma_first_of_bound(s: Seq<char>, a: char, b: char)
    ensures
        first_of(s, a, b) <= s.len(),
    decreases s.len(),
{
    if s.len() > 0 && s[0] != a && s[0] != b {
        lemma_first_of_bound(s.skip(1), a, b);
    }
}

/// Finds the first character of `text` that is `a` or `b`.
fn find_first(text: &str, a: char, b: char) -> (r: usize)
    ensures
        r == first_of(text@, a, b),
        r <= text@.len(),
{
    let len = text.unicode_len();
    let mut at: usize = 0;
    while at < len
        invariant
            at <= len,
            len == text@.len(),
            forall|i: int| 0 <= i < at ==> text@[i] != a && text@[i] != b,
        decreases len - at,
    {
        let c = text.get_char(at);
        if c == a || c == b {
            proof {
                lemma_first_of(text@, a, b, at as int);
            }
            return at;
        }
        at = at + 1;
    }
    proof {
        lemma_first_of(text@, a, b, at as int);
    }
    at
}

/// A text without a digit does not write plain seconds.
pub proof fn lemma_digitless_is_no_decimal(text: Seq<char>)
    requires
        count_digits(text) == 0,
    ensures
        decimal_seconds_of(text) is None,
{
    lemma_no_digit_counted(text);
    let body = if text.len() > 0 && text[0] == '+' {
        text.skip(1)
    } else {
        text
    };
    assert forall|i: int| 0 <= i < body.len() implies !is_digit(#[trigger] body[i]) by {
        if text.len() > 0 && text[0] == '+' {
            assert(body[i] == text[i + 1]);
        }
    }
    lemma_first_of_bound(body, 'e', 'E');
    let mantissa = body.take(exponent_position(body) as int);
    lemma_first_of_bound(mantissa, '.', '.');
    let dot = dot_position(mantissa) as int;
    let whole = mantissa.take(dot);
    if whole.len() > 0 {
        assert(whole[0] == body[0]);
    }
    if dot < mantissa.len() {
        let fraction = mantissa.skip(dot + 1);
        if fraction.len() > 0 {
            assert(fraction[0] == body[dot + 1]);
        }
    }
}

/// Reads the digits of `text` from `from` to its end as the fraction of a
/// second, in nanoseconds.
fn read_fraction(text: &str, from: usize) -> (r: Option<u32>)
    requires
        from <= text@.len(),
    ensures
        r == (if all_digits(text@.skip(from as int)) {
            Some(fraction_nanos(text@.skip(from as int)) as u32)
        } else {
            None
        }),
        r matches Some(nanos) ==> nanos == fraction_nanos(text@.skip(from as int)) && nanos
            <= 1_000_000_000,
{
    let len = text.unicode_len();
    let ghost fraction = text@.skip(from as int);
    let kept_to: usize = if len - from <= 9 {
        len
    } else {
        from + 9
    };
    let ghost kept = text@.subrange(from as int, kept_to as int);
    let ghost rest = text@.subrange(kept_to as int, len as int);
    proof {
        lemma_pow10_values();
        assert(fraction =~= text@.subrange(from as int, len as int));
        assert(kept =~= if fraction.len() <= 9 {
            fraction
        } else {
            fraction.take(9)
        });
        if all_digits(kept) {
            lemma_digits_value_bound(kept);
        }
        assert(all_digits(fraction) ==> all_digits(kept));
    }
    let value = match read_digits(text, from, kept_to, 999_999_999) {
        Some(value) => value,
        None => {
            return None;
        },
    };
    if !digits_only(text, kept_to, len) {
        proof {
            let bad = choose|i: int| 0 <= i < rest.len() && !is_digit(#[trigger] rest[i]);
            assert(fraction[bad + kept_to - from] == rest[bad]);
        }
        return None;
    }
    proof {
        assert forall|i: int| 0 <= i < fraction.len() implies is_digit(
            #[trigger] fraction[i],
        ) by {
            if i < kept.len() {
                assert(fraction[i] == kept[i]);
            } else {
                assert(fraction[i] == rest[i - kept.len()]);
            }
        }
    }
    if kept_to < len {
        let tenth = text.get_char(kept_to);
        assert(tenth == rest[0] && tenth == fraction[9]);
        if char_digit_value(tenth) >= 5 {
            Some((value + 1) as u32)
        } else {
            Some(value as u32)
        }
    } else {
        let mut nanos: u64 = value;
        let mut places: usize = kept_to - from;
        proof {
            assert(value * pow10((places - kept.len()) as nat) == value) by (nonlinear_arith)
                requires
                    pow10((places - kept.len()) as nat) == 1,
            ;
        }
        while places < 9
            invariant
                kept.len() <= places <= 9,
                nanos == value * pow10((places - kept.len()) as nat),
                nanos < pow10(places as nat),
            decreases 9 - places,
        {
            proof {
                lemma_pow10_values();
                assert(value * pow10((places + 1 - kept.len()) as nat) == (value * pow10(
                    (places - kept.len()) as nat,
                )) * 10) by (nonlinear_arith)
                    requires
                        pow10((places + 1 - kept.len()) as nat) == 10 * pow10(
                            (places - kept.len()) as nat,
                        ),
                ;
            }
            nanos = nanos * 10;
            places = places + 1;
        }
        Some(nanos as u32)
    }
}

/// Digits stay digits when the decimal point moves among them.
proof fn lemma_moved_digits(whole: Seq<char>, fraction: Seq<char>, point: int)
    requires
        all_digits(whole),
        all_digits(fraction),
    ensures
        all_digits(whole + fraction),
        all_digits(move_point(whole + fraction, point).0),
        all_digits(move_point(whole + fraction, point).1),
{
    let digits = whole + fraction;
    assert forall|i: int| 0 <= i < digits.len() implies is_digit(#[trigger] digits[i]) by {
        if i < whole.len() {
            assert(digits[i] == whole[i]);
        } else {
            assert(digits[i] == fraction[i - whole.len()]);
        }
    }
    let moved = move_point(digits, point);
    assert forall|i: int| 0 <= i < moved.0.len() implies is_digit(#[trigger] moved.0[i]) by {
        if 0 < point && i < digits.len() {
            assert(moved.0[i] == digits[i]);
        }
    }
    assert forall|i: int| 0 <= i < moved.1.len() implies is_digit(#[trigger] moved.1[i]) by {
        if point <= 0 {
            if i >= -point {
                assert(moved.1[i] == digits[i + point]);
            }
        } else if point < digits.len() {
            assert(moved.1[i] == digits[i + point]);
        }
    }
}

/// A text of `count` zeros.
fn zeros_text(count: usize) -> (r: String)
    ensures
        r@ == zeros(count as nat),
{
    let mut text = String::from_str("");
    let mut done: usize = 0;
    proof {
        reveal_strlit("");
        assert(text@ =~= zeros(0));
    }
    while done < count
        invariant
            done <= count,
            text@ == zeros(done as nat),
        decreases count - done,
    {
        proof {
            reveal_strlit("0");
            assert(zeros(done as nat) + "0"@ =~= zeros((done + 1) as nat));
        }
        text.append("0");
        done = done + 1;
    }
    text
}

/// Reads `text` as an exponent: one to four digits behind an optional sign.
fn read_exponent(text: &str) -> (r: Option<i32>)
    ensures
        match exponent_of(text@) {
            Some(exponent) => r == Some(exponent as i32) && -9999 <= exponent <= 9999,
            None => r is None,
        },
{
    let len = text.unicode_len();
    if len == 0 {
        return None;
    }
    let first = text.get_char(0);
    let from: usize = if first == '-' || first == '+' {
        1
    } else {
        0
    };
    if len - from < 1 || len - from > 4 {
        return None;
    }
    proof {
        assert(text@.subrange(from as int, len as int) =~= if from == 1 {
            text@.skip(1)
        } else {
            text@
        });
        lemma_pow10_values();
        if all_digits(text@.subrange(from as int, len as int)) {
            lemma_digits_value_bound(text@.subrange(from as int, len as int));
        }
    }
    match read_digits(text, from, len, 9999) {
        Some(value) => {
            if first == '-' {
                Some(0 - (value as i32))
            } else {
                Some(value as i32)
            }
        },
        None => None,
    }
}

/// Moves the decimal point between `whole` and `fraction` by `exponent`
/// places: to the right for a positive exponent.
fn shift_point(whole: &str, fraction: &str, exponent: i32) -> (r: (String, String))
    requires
        -9999 <= exponent <= 9999,
    ensures
        (r.0@, r.1@) == move_point(whole@ + fraction@, whole@.len() + exponent),
{
    let digits = String::from_str(whole).concat(fraction);
    let before: usize = whole.unicode_len();
    let count: usize = digits.as_str().unicode_len();
    if exponent <= 0 && (0 - exponent) as usize >= before {
        let pad: usize = (0 - exponent) as usize - before;
        proof {
            reveal_strlit("");
            assert(""@ =~= Seq::<char>::empty());
        }
        (String::from_str(""), zeros_text(pad).concat(digits.as_str()))
    } else if exponent >= 0 && exponent as usize >= count - before {
        let pad: usize = exponent as usize - (count - before);
        proof {
            reveal_strlit("");
            assert(""@ =~= Seq::<char>::empty());
        }
        (digits.concat(zeros_text(pad).as_str()), String::from_str(""))
    } else {
        let point: usize = if exponent >= 0 {
            before + exponent as usize
        } else {
            before - (0 - exponent) as usize
        };
        proof {
            assert(digits@.subrange(0, point as int) =~= digits@.take(point as int));
            assert(digits@.subrange(point as int, count as int) =~= digits@.skip(point as int));
        }
        (
            String::from_str(digits.as_str().substring_char(0, point)),
            String::from_str(digits.as_str().substring_char(point, count)),
        )
    }
}

/// The span of the seconds that `seconds` writes before the decimal point
/// and `rest` behind it.
fn read_seconds(seconds: &str, rest: &str) -> (r: Option<Span>)
    requires
        all_digits(seconds@),
        all_digits(rest@),
    ensures
        nanos_in(r) == seconds_nanos(seconds@, rest@),
{
    let len = seconds.unicode_len();
    proof {
        assert(seconds@.subrange(0, len as int) =~= seconds@);
        assert(rest@.skip(0) =~= rest@);
    }
    let secs = match read_digits(seconds, 0, len, u64::MAX) {
        Some(secs) => secs,
        None => {
            return None;
        },
    };
    match read_fraction(rest, 0) {
        Some(nanos) => Span::new(secs, nanos),
        None => None,
    }
}

/// Reads `text` as plain seconds with an optional decimal fraction and an
/// optional exponent of ten.
pub fn parse_decimal_seconds(text: &str) -> (r: Option<Span>)
    ensures
        nanos_in(r) == decimal_seconds_of(text@),
{
    let len = text.unicode_len();
    let skipped: usize = if len > 0 && text.get_char(0) == '+' {
        1
    } else {
        0
    };
    let body = text.substring_char(skipped, len);
    let body_len: usize = len - skipped;
    proof {
        assert(body@ =~= if skipped == 1 {
            text@.skip(1)
        } else {
            text@
        });
    }
    let mark = find_first(body, 'e', 'E');
    let mantissa = body.substring_char(0, mark);
    let dot = find_first(mantissa, '.', '.');
    let whole = mantissa.substring_char(0, dot);
    let fraction = if dot < mark {
        mantissa.substring_char(dot + 1, mark)
    } else {
        mantissa.substring_char(mark, mark)
    };
    proof {
        assert(mantissa@ =~= body@.take(mark as int));
        assert(whole@ =~= mantissa@.take(dot as int));
        assert(fraction@ =~= if dot < mantissa@.len() {
            mantissa@.skip(dot + 1)
        } else {
            Seq::<char>::empty()
        });
    }
    let fraction_len: usize = if dot < mark {
        mark - dot - 1
    } else {
        0
    };
    if dot + fraction_len == 0 {
        return None;
    }
    proof {
        assert(whole@.subrange(0, dot as int) =~= whole@);
        assert(fraction@.subrange(0, fraction_len as int) =~= fraction@);
    }
    if !digits_only(whole, 0, dot) || !digits_only(fraction, 0, fraction_len) {
        return None;
    }
    let exponent: i32 = if mark < body_len {
        let behind = body.substring_char(mark + 1, body_len);
        proof {
            assert(behind@ =~= body@.skip(mark + 1));
        }
        match read_exponent(behind) {
            Some(exponent) => exponent,
            None => {
                return None;
            },
        }
    } else {
        0
    };
    let moved = shift_point(whole, fraction, exponent);
    proof {
        lemma_moved_digits(whole@, fraction@, whole@.len() + exponent);
    }
    read_seconds(moved.0.as_str(), moved.1.as_str())
}

/// Whether `text` holds an exponent of more than four digits.
pub fn contains_long_exponent(text: &str) -> (r: bool)
    ensures
        r == has_long_exponent(text@),
{
    let len = text.unicode_len();
    let mut at: usize = 0;
    while at < len
        invariant
            at <= len,
            len == text@.len(),
            forall|i: int| 0 <= i < at ==> !long_exponent_at(text@, i),
        decreases len - at,
    {
        let c = text.get_char(at);
        if c == 'e' || c == 'E' {
            let mut start: usize = at + 1;
            if start < len {
                let next = text.get_char(start);
                if next == '+' || next == '-' {
                    start = start + 1;
                }
            }
            assert(start == exponent_start(text@, at as int));
            if len - start > MAX_EXPONENT_DIGITS && digits_only(
                text,
                start,
                start + MAX_EXPONENT_DIGITS + 1,
            ) {
                assert(long_exponent_at(text@, at as int));
                return true;
            }
        }
        at = at + 1;
    }
    false
}

/// `humantime::parse_duration`: the length that a text such as `500ms` or
/// `2 hours` writes, as whole seconds and nanoseconds below one second, or
/// nothing where it reports an error. The contract names the result and
/// claims that the nanoseconds are below one second and that a text
/// without a digit is an error.
///
/// humantime adds the parts of the text up in 64 bits and checks each step
/// but the last carry, which fails when the sum reaches the largest number
/// of seconds. Each number of the text adds at most 31 557 661 times its
/// worth in seconds: the seconds of a year and 61 of carry. Numbers that
/// sum up to 500 000 000 000 at most stay below that sum.
#[verifier::external_body]
fn read_unit_suffixed(text: &str) -> (r: Option<(u64, u32)>)
    requires
        numbers_total(text@) <= 500_000_000_000,
    ensures
        r == humantime_reading(text@),
        r matches Some((_, nanos)) ==> nanos < 1_000_000_000,
        count_digits(text@) == 0 ==> r is None,
{
    match humantime::parse_duration(text) {
        Ok(duration) => Some((duration.as_secs(), duration.subsec_nanos())),
        Err(_) => None,
    }
}

/// `parse_duration::parse`: the length that a text such as `1h30m` writes,
/// as whole seconds and nanoseconds below one second, or nothing where it
/// reports an error. The contract names the result and claims that the
/// nanoseconds are below one second and that a text without a digit is an
/// error.
///
/// parse_duration raises ten to the power of an exponent in the text,
/// however large: texts with an exponent of more than four digits are kept
/// from it.
#[verifier::external_body]
fn read_compound(text: &str) -> (r: Option<(u64, u32)>)
    requires
        !has_long_exponent(text@),
    ensures
        r == compound_reading(text@),
        r matches Some((_, nanos)) ==> nanos < 1_000_000_000,
        count_digits(text@) == 0 ==> r is None,
{
    match parse_duration::parse(text) {
        Ok(duration) => Some((duration.as_secs(), duration.subsec_nanos())),
        Err(_) => None,
    }
}

/// The span of a reading in seconds and nanoseconds below one second.
fn span_of_reading(reading: Option<(u64, u32)>) -> (r: Option<Span>)
    requires
        reading matches Some((_, nanos)) ==> nanos < 1_000_000_000,
    ensures
        nanos_in(r) == reading_nanos(reading),
{
    match reading {
        Some((secs, nanos)) => Span::new(secs, nanos),
        None => None,
    }
}

/// Reads `text` as a number with a unit, such as `500ms`, `2s` or `1h`.
pub fn parse_unit_suffixed(text: &str) -> (r: Option<Span>)
    ensures
        nanos_in(r) == unit_suffixed_of(text@),
        count_digits(text@) == 0 ==> r is None,
{
    if numbers_within(text, MAX_UNIT_NUMBERS) {
        span_of_reading(read_unit_suffixed(text))
    } else {
        None
    }
}

/// Reads `text` as a compound of numbers with units, such as `1h30m`.
pub fn parse_compound(text: &str) -> (r: Option<Span>)
    ensures
        nanos_in(r) == compound_of(text@),
        count_digits(text@) == 0 ==> r is None,
{
    if contains_long_exponent(text) {
        None
    } else {
        span_of_reading(read_compound(text))
    }
}

/// Picks the budget among the three readings of one text: the first that
/// there is. Without any, the text names no length of time.
pub fn first_reading(
    decimal: Option<Span>,
    unit_suffixed: Option<Span>,
    compound: Option<Span>,
) -> (r: Result<Span, ConfigError>)
    ensures
        match first_reading_of(nanos_in(decimal), nanos_in(unit_suffixed), nanos_in(compound)) {
            Some(nanos) => r matches Ok(span) && span@ == nanos,
            None => r == Err::<Span, ConfigError>(ConfigError::Duration),
        },
        r matches Ok(span) ==> Some(span) == (if decimal is Some {
            decimal
        } else if unit_suffixed is Some {
            unit_suffixed
        } else {
            compound
        }),
{
    match decimal {
        Some(span) => Ok(span),
        None => match unit_suffixed {
            Some(span) => Ok(span),
            None => match compound {
                Some(span) => Ok(span),
                None => Err(ConfigError::Duration),
            },
        },
    }
}

/// Reads the budget from text. The three ways of writing a length of time
/// are tried in turn and the first that reads the text wins; a text that
/// none of them reads is an error, and so is every text without a digit.
pub fn parse_budget(text: &str) -> (r: Result<Span, ConfigError>)
    ensures
        match budget_of(text@) {
            Some(nanos) => r matches Ok(span) && span@ == nanos,
            None => r == Err::<Span, ConfigError>(ConfigError::Duration),
        },
        count_digits(text@) == 0 ==> r == Err::<Span, ConfigError>(ConfigError::Duration),
{
    proof {
        if count_digits(text@) == 0 {
            lemma_digitless_is_no_decimal(text@);
        }
    }
    let decimal = parse_decimal_seconds(text);
    let unit_suffixed = if decimal.is_none() {
        parse_unit_suffixed(text)
    } else {
        None
    };
    let compound = if decimal.is_none() && unit_suffixed.is_none() {
        parse_compound(text)
    } else {
        None
    };
    first_reading(decimal, unit_suffixed, compound)
}

} // verus!
