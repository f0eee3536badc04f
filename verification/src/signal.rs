//! Signals: the number that is delivered, and how it is read from text.

use vstd::prelude::*;
use vstd::string::{StrSliceExecFns, StringExecFns};
use crate::digits::{all_digits, digits_value, read_digits};
use crate::outcome::ConfigError;

verus! {

/// A signal that can be delivered to a process: a positive number. Its view
/// is that number.
#[derive(Clone, Copy, Debug, PartialEq, Eq, Structural)]
pub struct Signal {
    number: i32,
}

impl View for Signal {
    type V = int;

    closed spec fn view(&self) -> int {
        self.number as int
    }
}

impl Signal {
    #[verifier::type_invariant]
    closed spec fn well_formed(self) -> bool {
        self.number >= 1
    }

    /// The signal with this number. `None` for zero, which delivers nothing,
    /// and for negative numbers.
    pub fn new(number: i32) -> (r: Option<Signal>)
        ensures
            r is Some <==> number >= 1,
            r matches Some(s) ==> s@ == number,
    {
        if number >= 1 {
            Some(Signal { number })
        } else {
            None
        }
    }

    /// The number to deliver.
    pub fn number(&self) -> (r: i32)
        ensures
            r == self@,
            r >= 1,
    {
        proof {
            use_type_invariant(self);
        }
        self.number
    }
}

/// The number that `text` writes: digits, with `+` or `-` in front if any,
/// worth a number that fits 32 bits. `None` for any other text.
pub open spec fn signed_number_of(text: Seq<char>) -> Option<i32> {
    let signed = text.len() > 0 && (text[0] == '-' || text[0] == '+');
    let digits = if signed {
        text.skip(1)
    } else {
        text
    };
    let value = if text.len() > 0 && text[0] == '-' {
        -(digits_value(digits) as int)
    } else {
        digits_value(digits) as int
    };
    if digits.len() > 0 && all_digits(digits) && i32::MIN <= value <= i32::MAX {
        Some(value as i32)
    } else {
        None
    }
}

/// The capital of an ASCII letter; any other character is itself.
pub open spec fn upper_char(c: char) -> char {
    if 'a' <= c && c <= 'z' {
        ((c as u8) - 32) as char
    } else {
        c
    }
}

/// `s` with its ASCII letters as capitals.
pub open spec fn ascii_upper(s: Seq<char>) -> Seq<char> {
    Seq::new(s.len(), |i: int| upper_char(s[i]))
}

/// Whether `s` holds ASCII characters only.
pub open spec fn is_ascii_text(s: Seq<char>) -> bool {
    forall|i: int| 0 <= i < s.len() ==> (#[trigger] s[i]) <= '\x7f'
}

/// What `str::to_uppercase` makes of a text: its upper case by the rules of
/// Unicode.
pub uninterp spec fn uppercase_of(text: Seq<char>) -> Seq<char>;

/// `text` in upper case. For ASCII text that is the text with its letters
/// as capitals; any other text goes by the rules of Unicode.
pub open spec fn upper_of(text: Seq<char>) -> Seq<char> {
    if is_ascii_text(text) {
        ascii_upper(text)
    } else {
        uppercase_of(text)
    }
}

/// Whether `s` begins with the letters `SIG`.
pub open spec fn has_sig_prefix(s: Seq<char>) -> bool {
    s.len() >= 3 && s[0] == 'S' && s[1] == 'I' && s[2] == 'G'
}

/// The name under which a signal is looked up: in upper case, and with
/// `SIG` in front where the text does not bring it.
pub open spec fn canonical_name(text: Seq<char>) -> Seq<char> {
    let upper = upper_of(text);
    if has_sig_prefix(upper) {
        upper
    } else {
        seq!['S', 'I', 'G'] + upper
    }
}

/// Whether every platform has a signal with this number, under one name.
pub open spec fn is_portable_number(number: i32) -> bool {
    number == 1 || number == 2 || number == 3 || number == 4 || number == 8 || number == 9
        || number == 11 || number == 14 || number == 15
}

/// The number of a signal that has the same name and number on every
/// platform; `None` for any other name.
pub open spec fn portable_signal(name: Seq<char>) -> Option<i32> {
    if name == "SIGHUP"@ {
        Some(1i32)
    } else if name == "SIGINT"@ {
        Some(2i32)
    } else if name == "SIGQUIT"@ {
        Some(3i32)
    } else if name == "SIGILL"@ {
        Some(4i32)
    } else if name == "SIGFPE"@ {
        Some(8i32)
    } else if name == "SIGKILL"@ {
        Some(9i32)
    } else if name == "SIGSEGV"@ {
        Some(11i32)
    } else if name == "SIGALRM"@ {
        Some(14i32)
    } else if name == "SIGTERM"@ {
        Some(15i32)
    } else {
        None
    }
}

/// Whether some platform has a signal with this name.
pub open spec fn is_signal_name(name: Seq<char>) -> bool {
    name == "SIGHUP"@ || name == "SIGINT"@ || name == "SIGQUIT"@ || name == "SIGILL"@ || name
        == "SIGTRAP"@ || name == "SIGABRT"@ || name == "SIGBUS"@ || name == "SIGFPE"@ || name
        == "SIGKILL"@ || name == "SIGUSR1"@ || name == "SIGSEGV"@ || name == "SIGUSR2"@ || name
        == "SIGPIPE"@ || name == "SIGALRM"@ || name == "SIGTERM"@ || name == "SIGSTKFLT"@ || name
        == "SIGCHLD"@ || name == "SIGCONT"@ || name == "SIGSTOP"@ || name == "SIGTSTP"@ || name
        == "SIGTTIN"@ || name == "SIGTTOU"@ || name == "SIGURG"@ || name == "SIGXCPU"@ || name
        == "SIGXFSZ"@ || name == "SIGVTALRM"@ || name == "SIGPROF"@ || name == "SIGWINCH"@ || name
        == "SIGIO"@ || name == "SIGPWR"@ || name == "SIGSYS"@ || name == "SIGEMT"@ || name
        == "SIGINFO"@
}

/// What a lookup among the platform's signals amounts to: the signal where
/// one was found and its number is positive, else the error.
pub open spec fn known_signal_of(found: Option<i32>) -> Result<int, ConfigError> {
    match found {
        Some(number) => if number >= 1 {
            Ok(number as int)
        } else {
            Err(ConfigError::Signal)
        },
        None => Err(ConfigError::Signal),
    }
}

/// Reads `text` as a number with an optional sign.
pub fn parse_signed_number(text: &str) -> (r: Option<i32>)
    ensures
        r == signed_number_of(text@),
{
    let len = text.unicode_len();
    if len == 0 {
        return None;
    }
    let first = text.get_char(0);
    let negative = first == '-';
    let from: usize = if first == '-' || first == '+' {
        1
    } else {
        0
    };
    if from == len {
        return None;
    }
    let limit: u64 = if negative {
        2147483648
    } else {
        2147483647
    };
    proof {
        assert(text@.subrange(from as int, len as int) =~= if from == 1 {
            text@.skip(1)
        } else {
            text@
        });
    }
    match read_digits(text, from, len, limit) {
        Some(value) => {
            if negative {
                Some((0 - (value as i64)) as i32)
            } else {
                Some(value as i32)
            }
        },
        None => None,
    }
}

/// `str::to_uppercase` of the standard library: the text in upper case by
/// the rules of Unicode. The contract names the result and claims that in
/// ASCII text the letters `a` to `z` become their capitals and every other
/// character is kept.
#[verifier::external_body]
fn to_upper(text: &str) -> (r: String)
    ensures
        r@ == uppercase_of(text@),
        is_ascii_text(text@) ==> r@ == ascii_upper(text@),
{
    text.to_uppercase()
}

/// The name under which the signal that `text` names is looked up.
pub fn canonical_signal_name(text: &str) -> (r: String)
    ensures
        r@ == canonical_name(text@),
{
    let upper = to_upper(text);
    let name = upper.as_str();
    if name.unicode_len() >= 3 && name.get_char(0) == 'S' && name.get_char(1) == 'I'
        && name.get_char(2) == 'G' {
        upper
    } else {
        proof {
            reveal_strlit("SIG");
            assert("SIG"@ =~= seq!['S', 'I', 'G']);
        }
        String::from_str("SIG").concat(name)
    }
}

/// `Signal::try_from` of nix for a number: the platform's signal with that
/// number, if it has one. The contract claims that a signal that is found
/// has the number that was asked for, that no platform numbers a signal
/// below 1 or above 64, and that the numbers 1, 2, 3, 4, 8, 9, 11, 14 and
/// 15 are signals on every platform.
#[verifier::external_body]
fn lookup_number(number: i32) -> (r: Option<i32>)
    ensures
        r matches Some(found) ==> found == number && 1 <= number <= 64,
        is_portable_number(number) ==> r == Some(number),
{
    match nix::sys::signal::Signal::try_from(number) {
        Ok(signal) => Some(signal as i32),
        Err(_) => None,
    }
}

/// `Signal::from_str` of nix: the number of the platform's signal with this
/// name, if it has one. The contract claims that only the names that nix
/// lists are found, with a number from 1 to 64, and that the nine names
/// that every platform has are found with the number they have everywhere.
#[verifier::external_body]
fn lookup_name(name: &str) -> (r: Option<i32>)
    ensures
        r matches Some(found) ==> is_signal_name(name@) && 1 <= found <= 64,
        portable_signal(name@) matches Some(number) ==> r == Some(number),
{
    match name.parse::<nix::sys::signal::Signal>() {
        Ok(signal) => Some(signal as i32),
        Err(_) => None,
    }
}

/// Accepts what a lookup among the platform's signals found: a signal with a
/// positive number. Anything else is an error.
pub fn known_signal(found: Option<i32>) -> (r: Result<Signal, ConfigError>)
    ensures
        match known_signal_of(found) {
            Ok(number) => r matches Ok(signal) && signal@ == number,
            Err(error) => r == Err::<Signal, ConfigError>(error),
        },
{
    match found {
        Some(number) => match Signal::new(number) {
            Some(signal) => Ok(signal),
            None => Err(ConfigError::Signal),
        },
        None => Err(ConfigError::Signal),
    }
}

/// Reads a signal from text: a number, or a name in capitals or small
/// letters, with or without `SIG` in front. A text that writes a number is
/// looked up as that number and never as a name; any other text is looked
/// up under its canonical name. The platform decides which numbers and
/// names it knows, within these limits:
///
/// - a signal that is found has a number from 1 to 64, and for a text that
///   writes a number it has that number;
/// - the numbers and names that every platform has are always found, with
///   the number they have everywhere;
/// - a number outside 1 to 64, and a name that no platform has, is an
///   error.
pub fn resolve_signal(text: &str) -> (r: Result<Signal, ConfigError>)
    ensures
        r matches Ok(signal) ==> 1 <= signal@ <= 64,
        r matches Err(error) ==> error == ConfigError::Signal,
        match signed_number_of(text@) {
            Some(number) => {
                &&& r matches Ok(signal) ==> signal@ == number
                &&& is_portable_number(number) ==> r is Ok
                &&& number < 1 || number > 64 ==> r is Err
            },
            None => {
                &&& portable_signal(canonical_name(text@)) matches Some(number) ==> (r matches Ok(
                    signal,
                ) && signal@ == number)
                &&& !is_signal_name(canonical_name(text@)) ==> r is Err
            },
        },
{
    match parse_signed_number(text) {
        Some(number) => known_signal(lookup_number(number)),
        None => {
            let name = canonical_signal_name(text);
            known_signal(lookup_name(name.as_str()))
        },
    }
}

/// Capitals and small letters name the same signal: two ASCII texts that
/// differ only in the case of their letters are looked up under one name.
pub proof fn lemma_name_ignores_case(a: Seq<char>, b: Seq<char>)
    requires
        is_ascii_text(a),
        is_ascii_text(b),
        a.len() == b.len(),
        forall|i: int| 0 <= i < a.len() ==> upper_char(#[trigger] a[i]) == upper_char(b[i]),
    ensures
        canonical_name(a) == canonical_name(b),
{
    assert(ascii_upper(a) =~= ascii_upper(b));
}

/// `SIG` in front of a name is optional: with it or without it, in capitals
/// or in small letters, an ASCII text is looked up under one name.
pub proof fn lemma_sig_prefix_is_optional(name: Seq<char>)
    requires
        is_ascii_text(name),
        !has_sig_prefix(ascii_upper(name)),
    ensures
        canonical_name(seq!['S', 'I', 'G'] + name) == canonical_name(name),
        canonical_name(seq!['s', 'i', 'g'] + name) == canonical_name(name),
{
    assert(is_ascii_text(seq!['S', 'I', 'G'] + name));
    assert(is_ascii_text(seq!['s', 'i', 'g'] + name));
    assert(ascii_upper(seq!['S', 'I', 'G'] + name) =~= seq!['S', 'I', 'G'] + ascii_upper(name));
    assert(ascii_upper(seq!['s', 'i', 'g'] + name) =~= seq!['S', 'I', 'G'] + ascii_upper(name));
}

/// The name under which an ASCII text is looked up begins with `SIG` and is
/// its own canonical form.
pub proof fn lemma_canonical_name_is_settled(text: Seq<char>)
    requires
        is_ascii_text(text),
    ensures
        has_sig_prefix(canonical_name(text)),
        is_ascii_text(canonical_name(text)),
        canonical_name(canonical_name(text)) == canonical_name(text),
{
    let name = canonical_name(text);
    assert forall|i: int| 0 <= i < name.len() implies upper_char(#[trigger] name[i]) == name[i]
        && name[i] <= '\x7f' by {
        let upper = ascii_upper(text);
        if has_sig_prefix(upper) {
            assert(name[i] == upper_char(text[i]));
        } else if i >= 3 {
            assert(name[i] == upper_char(text[i - 3]));
        }
    }
    assert(ascii_upper(name) =~= name);
}

} // verus!
