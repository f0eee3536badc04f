//! Decimal digits in text: what a run of digits is worth, and how it is
//! read without overflow.

use vstd::prelude::*;
use vstd::string::StrSliceExecFns;

verus! {

/// Whether `c` is one of the ten ASCII digits.
pub open spec fn is_digit(c: char) -> bool {
    '0' <= c && c <= '9'
}

/// What a digit is worth.
pub open spec fn digit_value(c: char) -> nat {
    (c as u32 - '0' as u32) as nat
}

/// Whether `s` holds digits only. The empty text does.
pub open spec fn all_digits(s: Seq<char>) -> bool {
    forall|i: int| 0 <= i < s.len() ==> is_digit(#[trigger] s[i])
}

/// The number that a run of digits writes in base ten; 0 for the empty run.
pub open spec fn digits_value(s: Seq<char>) -> nat
    decreases s.len(),
{
    if s.len() == 0 {
        0
    } else {
        digits_value(s.drop_last()) * 10 + digit_value(s.last())
    }
}

/// How many of the characters of `s` are digits.
pub open spec fn count_digits(s: Seq<char>) -> nat
    decreases s.len(),
{
    if s.len() == 0 {
        0
    } else {
        count_digits(s.drop_last()) + if is_digit(s.last()) {
            1nat
        } else {
            0nat
        }
    }
}

/// Whether `c` ends a number in a text of numbers with units: an ASCII
/// letter or the decimal point.
pub open spec fn ends_number(c: char) -> bool {
    ('a' <= c && c <= 'z') || ('A' <= c && c <= 'Z') || c == '.'
}

/// The numbers of `s`, read from its beginning: the sum of those that have
/// ended, and what the one under way is worth so far. The digits of one
/// number follow each other, or have between them only characters that are
/// neither a letter nor the decimal point.
pub open spec fn numbers_scan(s: Seq<char>) -> (nat, nat)
    decreases s.len(),
{
    if s.len() == 0 {
        (0, 0)
    } else {
        let (total, current) = numbers_scan(s.drop_last());
        if is_digit(s.last()) {
            (total, current * 10 + digit_value(s.last()))
        } else if ends_number(s.last()) {
            (total + current, 0)
        } else {
            (total, current)
        }
    }
}

/// The sum of the numbers that `s` holds.
pub open spec fn numbers_total(s: Seq<char>) -> nat {
    numbers_scan(s).0 + numbers_scan(s).1
}

/// Ten to the power of `n`.
pub open spec fn pow10(n: nat) -> nat
    decreases n,
{
    if n == 0 {
        1
    } else {
        10 * pow10((n - 1) as nat)
    }
}

/// A run of digits is worth no less than any of its beginnings.
pub proof fn lemma_digits_value_grows(s: Seq<char>, k: int)
    requires
        0 <= k <= s.len(),
    ensures
        digits_value(s.take(k)) <= digits_value(s),
    decreases s.len(),
{
    if k < s.len() {
        lemma_digits_value_grows(s.drop_last(), k);
        assert(s.drop_last().take(k) =~= s.take(k));
    } else {
        assert(s.take(k) =~= s);
    }
}

/// The numbers of a text sum up to no less than those of any of its
/// beginnings.
pub proof fn lemma_numbers_total_grows(s: Seq<char>, k: int)
    requires
        0 <= k <= s.len(),
    ensures
        numbers_total(s.take(k)) <= numbers_total(s),
    decreases s.len(),
{
    if k < s.len() {
        lemma_numbers_total_grows(s.drop_last(), k);
        assert(s.drop_last().take(k) =~= s.take(k));
    } else {
        assert(s.take(k) =~= s);
    }
}

/// A text that counts no digit holds none.
pub proof fn lemma_no_digit_counted(s: Seq<char>)
    requires
        count_digits(s) == 0,
    ensures
        forall|i: int| 0 <= i < s.len() ==> !is_digit(#[trigger] s[i]),
    decreases s.len(),
{
    if s.len() > 0 {
        lemma_no_digit_counted(s.drop_last());
        assert forall|i: int| 0 <= i < s.len() implies !is_digit(#[trigger] s[i]) by {
            if i < s.len() - 1 {
                assert(s.drop_last()[i] == s[i]);
            }
        }
    }
}

/// A run of `n` digits is worth less than ten to the power of `n`.
pub proof fn lemma_digits_value_bound(s: Seq<char>)
    requires
        all_digits(s),
    ensures
        digits_value(s) < pow10(s.len()),
    decreases s.len(),
{
    if s.len() > 0 {
        lemma_digits_value_bound(s.drop_last());
        assert(is_digit(s.last()));
    }
}

/// The powers of ten up to the ninth.
pub proof fn lemma_pow10_values()
    ensures
        pow10(0) == 1,
        pow10(1) == 10,
        pow10(2) == 100,
        pow10(3) == 1_000,
        pow10(4) == 10_000,
        pow10(5) == 100_000,
        pow10(6) == 1_000_000,
        pow10(7) == 10_000_000,
        pow10(8) == 100_000_000,
        pow10(9) == 1_000_000_000,
{
    reveal_with_fuel(pow10, 10);
}

/// Whether `c` is a digit.
pub fn char_is_digit(c: char) -> (r: bool)
    ensures
        r == is_digit(c),
{
    '0' <= c && c <= '9'
}

/// What the digit `c` is worth.
pub fn char_digit_value(c: char) -> (r: u8)
    requires
        is_digit(c),
    ensures
        r == digit_value(c),
        r <= 9,
{
    ((c as u32) - ('0' as u32)) as u8
}

/// Reads the characters of `text` from `from` up to `to` as a number.
/// `None` where one of them is no digit or the number is above `limit`.
pub fn read_digits(text: &str, from: usize, to: usize, limit: u64) -> (r: Option<u64>)
    requires
        from <= to <= text@.len(),
    ensures
        r == (if all_digits(text@.subrange(from as int, to as int)) && digits_value(
            text@.subrange(from as int, to as int),
        ) <= limit {
            Some(digits_value(text@.subrange(from as int, to as int)) as u64)
        } else {
            None
        }),
{
    let ghost run = text@.subrange(from as int, to as int);
    let mut value: u64 = 0;
    let mut at: usize = from;
    while at < to
        invariant
            from <= at <= to <= text@.len(),
            run == text@.subrange(from as int, to as int),
            all_digits(run.take(at - from)),
            value == digits_value(run.take(at - from)),
            value <= limit,
        decreases to - at,
    {
        let c = text.get_char(at);
        assert(run[at - from] == c);
        if !char_is_digit(c) {
            return None;
        }
        let digit: u64 = char_digit_value(c) as u64;
        proof {
            assert(run.take(at - from + 1).drop_last() =~= run.take(at - from));
            assert(run.take(at - from + 1).last() == c);
            lemma_digits_value_grows(run, at - from + 1);
        }
        if digit > limit || value > (limit - digit) / 10 {
            return None;
        }
        value = value * 10 + digit;
        at = at + 1;
    }
    assert(run.take(to - from) =~= run);
    Some(value)
}

/// Whether the characters of `text` from `from` up to `to` are all digits.
pub fn digits_only(text: &str, from: usize, to: usize) -> (r: bool)
    requires
        from <= to <= text@.len(),
    ensures
        r == all_digits(text@.subrange(from as int, to as int)),
{
    let ghost run = text@.subrange(from as int, to as int);
    let mut at: usize = from;
    while at < to
        invariant
            from <= at <= to <= text@.len(),
            run == text@.subrange(from as int, to as int),
            forall|i: int| 0 <= i < at - from ==> is_digit(#[trigger] run[i]),
        decreases to - at,
    {
        let c = text.get_char(at);
        assert(run[at - from] == c);
        if !char_is_digit(c) {
            return false;
        }
        at = at + 1;
    }
    true
}

/// Reads the numbers of `text` and tells whether their sum is at most
/// `limit`.
pub fn numbers_within(text: &str, limit: u64) -> (r: bool)
    ensures
        r == (numbers_total(text@) <= limit),
{
    let len = text.unicode_len();
    let mut total: u64 = 0;
    let mut current: u64 = 0;
    let mut at: usize = 0;
    while at < len
        invariant
            at <= len,
            len == text@.len(),
            numbers_scan(text@.take(at as int)) == (total as nat, current as nat),
            total + current <= limit,
        decreases len - at,
    {
        let c = text.get_char(at);
        proof {
            assert(text@.take(at + 1).drop_last() =~= text@.take(at as int));
            assert(text@.take(at + 1).last() == c);
            lemma_numbers_total_grows(text@, at + 1);
        }
        if char_is_digit(c) {
            let digit: u64 = char_digit_value(c) as u64;
            let room: u64 = limit - total;
            if digit > room || current > (room - digit) / 10 {
                return false;
            }
            current = current * 10 + digit;
        } else if (c >= 'a' && c <= 'z') || (c >= 'A' && c <= 'Z') || c == '.' {
            total = total + current;
            current = 0;
        }
        at = at + 1;
    }
    assert(text@.take(len as int) =~= text@);
    true
}

} // verus!
