//! Lengths of time with nanosecond resolution, and the pause between two
//! liveness checks that belongs to a budget.

use vstd::prelude::*;

verus! {

/// Nanoseconds in one second.
pub const NANOS_PER_SEC: u32 = 1_000_000_000;

/// Upper limit of the pause between two liveness checks: 100 ms.
pub const MAX_POLL_NANOS: u32 = 100_000_000;

/// A non-negative length of time: whole seconds and the nanoseconds beyond
/// them. Its view is the length in nanoseconds.
#[derive(Clone, Copy, Debug, PartialEq, Eq, Structural)]
pub struct Span {
    secs: u64,
    nanos: u32,
}

/// The length in nanoseconds of `secs` seconds and `nanos` nanoseconds.
pub open spec fn nanos_of(secs: int, nanos: int) -> int {
    secs * 1_000_000_000 + nanos
}

/// The longest length a `Span` can hold, in nanoseconds.
pub open spec fn max_span_nanos() -> int {
    nanos_of(u64::MAX as int, 999_999_999)
}

/// The pause between two liveness checks for a budget of `budget`
/// nanoseconds: a twentieth of the budget, counted up to the next whole
/// nanosecond, and never more than 100 ms.
pub open spec fn poll_interval_nanos(budget: nat) -> nat {
    let share = (budget + 19) / 20;
    if share < 100_000_000 {
        share
    } else {
        100_000_000
    }
}

/// The length, in nanoseconds, of a span that may be missing.
pub open spec fn nanos_in(span: Option<Span>) -> Option<nat> {
    match span {
        Some(s) => Some(s@),
        None => None,
    }
}

impl View for Span {
    type V = nat;

    closed spec fn view(&self) -> nat {
        (self.secs * 1_000_000_000 + self.nanos) as nat
    }
}

impl Span {
    #[verifier::type_invariant]
    closed spec fn well_formed(self) -> bool {
        self.nanos < 1_000_000_000
    }

    /// The empty length of time.
    pub fn zero() -> (r: Span)
        ensures
            r@ == 0,
    {
        Span { secs: 0, nanos: 0 }
    }

    /// `secs` seconds and `nanos` nanoseconds, where `nanos` may exceed one
    /// second. `None` where the sum is longer than a `Span` can hold.
    pub fn new(secs: u64, nanos: u32) -> (r: Option<Span>)
        ensures
            r is Some <==> nanos_of(secs as int, nanos as int) <= max_span_nanos(),
            r matches Some(s) ==> s@ == nanos_of(secs as int, nanos as int),
    {
        let carry: u64 = (nanos / NANOS_PER_SEC) as u64;
        let rest: u32 = nanos % NANOS_PER_SEC;
        if secs > u64::MAX - carry {
            None
        } else {
            Some(Span { secs: secs + carry, nanos: rest })
        }
    }

    /// A whole number of seconds.
    pub fn from_secs(secs: u64) -> (r: Span)
        ensures
            r@ == secs * 1_000_000_000,
    {
        Span { secs, nanos: 0 }
    }

    /// A whole number of milliseconds.
    pub fn from_millis(millis: u64) -> (r: Span)
        ensures
            r@ == millis * 1_000_000,
    {
        let rest: u32 = (millis % 1000) as u32;
        Span { secs: millis / 1000, nanos: rest * 1_000_000 }
    }

    /// A whole number of nanoseconds.
    pub fn from_nanos(nanos: u64) -> (r: Span)
        ensures
            r@ == nanos,
    {
        let rest: u32 = (nanos % 1_000_000_000) as u32;
        Span { secs: nanos / 1_000_000_000, nanos: rest }
    }

    /// The whole seconds of the length.
    pub fn as_secs(&self) -> (r: u64)
        ensures
            r == self@ / 1_000_000_000,
    {
        proof {
            use_type_invariant(self);
        }
        self.secs
    }

    /// The nanoseconds beyond the whole seconds.
    pub fn subsec_nanos(&self) -> (r: u32)
        ensures
            r == self@ % 1_000_000_000,
            r < 1_000_000_000,
    {
        proof {
            use_type_invariant(self);
        }
        self.nanos
    }

    /// The length in nanoseconds.
    pub fn as_nanos(&self) -> (r: u128)
        ensures
            r == self@,
            r <= max_span_nanos(),
    {
        proof {
            use_type_invariant(self);
        }
        let whole: u128 = self.secs as u128;
        let rest: u128 = self.nanos as u128;
        whole * 1_000_000_000 + rest
    }

    /// Whether the length is empty.
    pub fn is_zero(&self) -> (r: bool)
        ensures
            r == (self@ == 0),
    {
        self.secs == 0 && self.nanos == 0
    }

    /// Whether this length is at least as long as `other`.
    pub fn at_least(&self, other: &Span) -> (r: bool)
        ensures
            r == (self@ >= other@),
    {
        proof {
            use_type_invariant(self);
            use_type_invariant(other);
        }
        self.secs > other.secs || (self.secs == other.secs && self.nanos >= other.nanos)
    }

    /// The pause between two liveness checks while waiting with this budget:
    /// 5% of the budget, at most 100 ms.
    pub fn poll_interval(&self) -> (r: Span)
        ensures
            r@ == poll_interval_nanos(self@),
    {
        proof {
            use_type_invariant(self);
        }
        if self.secs >= 2 {
            Span { secs: 0, nanos: MAX_POLL_NANOS }
        } else {
            let total: u64 = self.secs * 1_000_000_000 + self.nanos as u64;
            let share: u64 = (total + 19) / 20;
            Span { secs: 0, nanos: share as u32 }
        }
    }
}

/// The pause is positive whenever the budget is: polling never spins.
pub proof fn lemma_poll_interval_positive(budget: nat)
    requires
        budget > 0,
    ensures
        poll_interval_nanos(budget) > 0,
{
}

/// The pause is the smaller of 5% of the budget and 100 ms. From a budget
/// of two seconds on, 5% is no less than 100 ms and the pause is 100 ms.
/// Below that the pause is 5% of the budget, counted up to the next whole
/// nanosecond: twenty pauses cover the budget and nineteen and a fraction
/// do not. Where 5% of the budget is a whole number of nanoseconds the
/// pause is exactly that.
pub proof fn lemma_poll_interval_is_capped_share(budget: nat)
    ensures
        poll_interval_nanos(budget) <= 100_000_000,
        budget >= 2_000_000_000 ==> poll_interval_nanos(budget) == 100_000_000,
        budget < 2_000_000_000 ==> 20 * poll_interval_nanos(budget) - 20 < budget <= 20
            * poll_interval_nanos(budget),
        budget < 2_000_000_000 && budget % 20 == 0 ==> 20 * poll_interval_nanos(budget) == budget,
{
}

} // verus!
