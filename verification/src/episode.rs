//! Whole supervision episodes: what holds of the machine over any sequence
//! of events, and over the checks of a child on an ideal clock.

use vstd::prelude::*;
use vstd::arithmetic::div_mod::{lemma_fundamental_div_mod, lemma_mod_bound};
use vstd::arithmetic::mul::{lemma_mul_inequality, lemma_mul_is_distributive_add_other_way};
use crate::outcome::{ChildStatus, WaitOutcome, outcome_of};
use crate::span::poll_interval_nanos;
use crate::supervisor::{
    ActionView,
    EventView,
    Machine,
    Phase,
    advance,
    after_probe,
    is_final,
    outcome_in,
    transition,
};

verus! {

/// The machine after a sequence of events, taken in from the first on.
pub open spec fn run(m: Machine, events: Seq<EventView>) -> Machine
    decreases events.len(),
{
    if events.len() == 0 {
        m
    } else {
        advance(run(m, events.drop_last()), events.last())
    }
}

/// Whether an action touches the budget's side of the machine: a liveness
/// check, a pause, the release of standard input or the signal.
pub open spec fn is_bounded_wait_action(action: ActionView) -> bool {
    action is ReleaseStdin || action is Probe || action is Sleep || action is SendSignal
}

/// The budget and the signal never change.
pub proof fn lemma_run_keeps_budget_and_signal(m: Machine, events: Seq<EventView>)
    ensures
        run(m, events).budget == m.budget,
        run(m, events).signal == m.signal,
    decreases events.len(),
{
    if events.len() > 0 {
        lemma_run_keeps_budget_and_signal(m, events.drop_last());
    }
}

/// With a budget of zero the wait has no limit: whatever is reported, the
/// machine never times out, and it never asks for a liveness check, a
/// pause or the signal. The first action is the wait without limit.
pub proof fn lemma_zero_budget_never_times_out(m: Machine, events: Seq<EventView>)
    requires
        m.budget == 0,
        m.phase == Phase::Spawned,
    ensures
        transition(m, EventView::Started) == Some((Phase::Waiting, ActionView::WaitForExit)),
        outcome_in(run(m, events).phase) != Some(WaitOutcome::TimedOut),
        run(m, events).phase is Spawned || run(m, events).phase is Waiting || run(
            m,
            events,
        ).phase is Exited || run(m, events).phase is Signaled,
        forall|event: EventView|
            match #[trigger] transition(run(m, events), event) {
                Some((_, action)) => !is_bounded_wait_action(action),
                None => true,
            },
    decreases events.len(),
{
    if events.len() > 0 {
        lemma_zero_budget_never_times_out(m, events.drop_last());
        lemma_run_keeps_budget_and_signal(m, events.drop_last());
    }
}

/// Once the child's end has been reported, or the signal sent or refused,
/// no event moves the machine: it does not go back to waiting.
pub proof fn lemma_final_phases_absorb(m: Machine, events: Seq<EventView>)
    requires
        is_final(m.phase),
    ensures
        run(m, events) == m,
    decreases events.len(),
{
    if events.len() > 0 {
        lemma_final_phases_absorb(m, events.drop_last());
    }
}

/// An outcome, once reached, is never replaced by another: after a timeout
/// the child is not looked at again.
pub proof fn lemma_outcome_is_kept(m: Machine, events: Seq<EventView>)
    requires
        outcome_in(m.phase) is Some,
    ensures
        outcome_in(run(m, events).phase) == outcome_in(m.phase),
    decreases events.len(),
{
    if events.len() > 0 {
        lemma_outcome_is_kept(m, events.drop_last());
    }
}

/// The machine reads nothing but its own state and the events: the same
/// budget, signal and phase with the same events give the same phase, the
/// same outcome and the same next action.
pub proof fn lemma_same_events_same_outcome(
    a: Machine,
    b: Machine,
    events_a: Seq<EventView>,
    events_b: Seq<EventView>,
    next: EventView,
)
    requires
        a == b,
        events_a =~= events_b,
    ensures
        run(a, events_a) == run(b, events_b),
        outcome_in(run(a, events_a).phase) == outcome_in(run(b, events_b).phase),
        transition(run(a, events_a), next) == transition(run(b, events_b), next),
{
}

/// What a liveness check at `now` sees of a child that ends at `ends_at`
/// with `status`, both counted in nanoseconds from the start of the wait.
pub open spec fn seen_at(now: nat, ends_at: nat, status: ChildStatus) -> Option<ChildStatus> {
    if ends_at <= now {
        Some(status)
    } else {
        None
    }
}

/// The wait on an ideal clock, from a liveness check at `now` on: a check
/// takes no time and a pause lasts exactly as long as asked. Gives the
/// outcome and the time at which it is decided.
pub open spec fn poll_from(m: Machine, now: nat, ends_at: nat, status: ChildStatus) -> (
    WaitOutcome,
    nat,
)
    decreases
            (if now < m.budget {
                m.budget - now
            } else {
                0
            }),
{
    match seen_at(now, ends_at, status) {
        Some(seen) => (outcome_of(seen), now),
        None => if now >= m.budget {
            (WaitOutcome::TimedOut, now)
        } else {
            poll_from(m, now + poll_interval_nanos(m.budget), ends_at, status)
        },
    }
}

/// The number of pauses on the ideal clock before the first liveness check
/// that finds the budget spent: the budget divided by the pause, counted up.
pub open spec fn pauses_within(budget: nat) -> nat {
    let pause = poll_interval_nanos(budget);
    ((budget + pause - 1) / (pause as int)) as nat
}

/// The time of the first liveness check on the ideal clock that finds the
/// budget spent: the first multiple of the pause that is not below the
/// budget.
pub open spec fn deadline_check(budget: nat) -> nat {
    pauses_within(budget) * poll_interval_nanos(budget)
}

/// The first check that finds the budget spent comes less than one pause
/// after the budget.
pub proof fn lemma_deadline_check_bounds(budget: nat)
    requires
        budget > 0,
    ensures
        budget <= deadline_check(budget) < budget + poll_interval_nanos(budget),
{
    let pause = poll_interval_nanos(budget) as int;
    let total = budget + pause - 1;
    lemma_fundamental_div_mod(total, pause);
    lemma_mod_bound(total, pause);
    assert(pause * (total / pause) == (total / pause) * pause) by (nonlinear_arith);
}

/// Each step of the ideal wait is the machine's own decision after a check.
pub proof fn lemma_poll_from_follows_machine(
    m: Machine,
    now: nat,
    ends_at: nat,
    status: ChildStatus,
)
    requires
        m.budget > 0,
    ensures
        match after_probe(m, seen_at(now, ends_at, status), now) {
            (phase, ActionView::Sleep(pause)) => poll_from(m, now, ends_at, status) == poll_from(
                m,
                now + pause,
                ends_at,
                status,
            ),
            (phase, _) => outcome_in(phase) == Some(poll_from(m, now, ends_at, status).0)
                && poll_from(m, now, ends_at, status).1 == now,
        },
{
}

/// The ideal wait from the check after `count` pauses on, for a child that
/// ends no later than the first check that finds the budget spent.
proof fn lemma_poll_reports_end(m: Machine, count: nat, ends_at: nat, status: ChildStatus)
    requires
        m.budget > 0,
        ends_at <= deadline_check(m.budget),
        count * poll_interval_nanos(m.budget) < ends_at + poll_interval_nanos(m.budget),
    ensures
        poll_from(m, count * poll_interval_nanos(m.budget), ends_at, status).0 == outcome_of(
            status,
        ),
        ends_at <= poll_from(m, count * poll_interval_nanos(m.budget), ends_at, status).1
            < ends_at + poll_interval_nanos(m.budget),
    decreases
            (if count * poll_interval_nanos(m.budget) < m.budget {
                m.budget - count * poll_interval_nanos(m.budget)
            } else {
                0
            }),
{
    let pause = poll_interval_nanos(m.budget);
    let now = count * pause;
    if ends_at > now {
        lemma_deadline_check_bounds(m.budget);
        if count >= pauses_within(m.budget) {
            lemma_mul_inequality(pauses_within(m.budget) as int, count as int, pause as int);
        }
        assert(now < m.budget) by {
            if now >= m.budget {
                lemma_pauses_reach_deadline(m.budget, count);
            }
        }
        lemma_mul_is_distributive_add_other_way(pause as int, count as int, 1);
        assert((count + 1) * pause == now + pause);
        lemma_poll_reports_end(m, count + 1, ends_at, status);
    }
}

/// A check after `count` pauses that finds the budget spent is no earlier
/// than the first such check.
proof fn lemma_pauses_reach_deadline(budget: nat, count: nat)
    requires
        budget > 0,
        count * poll_interval_nanos(budget) >= budget,
    ensures
        count >= pauses_within(budget),
        count * poll_interval_nanos(budget) >= deadline_check(budget),
{
    let pause = poll_interval_nanos(budget) as int;
    lemma_deadline_check_bounds(budget);
    if count < pauses_within(budget) {
        lemma_mul_inequality(count as int + 1, pauses_within(budget) as int, pause);
        lemma_mul_is_distributive_add_other_way(pause, count as int, 1);
    }
    lemma_mul_inequality(pauses_within(budget) as int, count as int, pause);
}

/// The ideal wait from the check after `count` pauses on, for a child that
/// is still running at the first check that finds the budget spent.
proof fn lemma_poll_times_out(m: Machine, count: nat, ends_at: nat, status: ChildStatus)
    requires
        m.budget > 0,
        ends_at > deadline_check(m.budget),
        count <= pauses_within(m.budget),
    ensures
        poll_from(m, count * poll_interval_nanos(m.budget), ends_at, status) == (
            WaitOutcome::TimedOut,
            deadline_check(m.budget),
        ),
    decreases pauses_within(m.budget) - count,
{
    let pause = poll_interval_nanos(m.budget);
    let now = count * pause;
    lemma_deadline_check_bounds(m.budget);
    lemma_mul_inequality(count as int, pauses_within(m.budget) as int, pause as int);
    if now >= m.budget {
        lemma_pauses_reach_deadline(m.budget, count);
        assert(count == pauses_within(m.budget));
    } else {
        assert(count < pauses_within(m.budget));
        lemma_mul_is_distributive_add_other_way(pause as int, count as int, 1);
        assert((count + 1) * pause == now + pause);
        lemma_poll_times_out(m, count + 1, ends_at, status);
    }
}

/// A child that ends before the budget is spent is reported with its own
/// status, by the first liveness check at or after its end: less than one
/// pause after it ended.
pub proof fn lemma_early_end_is_reported(m: Machine, ends_at: nat, status: ChildStatus)
    requires
        m.budget > 0,
        ends_at < m.budget,
    ensures
        poll_from(m, 0, ends_at, status).0 == outcome_of(status),
        ends_at <= poll_from(m, 0, ends_at, status).1 < ends_at + poll_interval_nanos(m.budget),
{
    lemma_deadline_check_bounds(m.budget);
    assert(0 * poll_interval_nanos(m.budget) == 0);
    lemma_poll_reports_end(m, 0, ends_at, status);
}

/// A child that is still running at the first liveness check that finds
/// the budget spent is timed out by that check: no earlier than the budget
/// and less than one pause after it. The machine asks for the signal in
/// the same step.
pub proof fn lemma_late_end_times_out(m: Machine, ends_at: nat, status: ChildStatus)
    requires
        m.budget > 0,
        ends_at > deadline_check(m.budget),
    ensures
        poll_from(m, 0, ends_at, status) == (WaitOutcome::TimedOut, deadline_check(m.budget)),
        m.budget <= deadline_check(m.budget) < m.budget + poll_interval_nanos(m.budget),
        after_probe(
            m,
            seen_at(deadline_check(m.budget), ends_at, status),
            deadline_check(m.budget),
        ) == (Phase::TimedOut, ActionView::SendSignal(m.signal)),
{
    lemma_deadline_check_bounds(m.budget);
    assert(0 * poll_interval_nanos(m.budget) == 0);
    lemma_poll_times_out(m, 0, ends_at, status);
}

/// A child that ends when the budget is spent or later, but no later than
/// the first liveness check that finds it spent, is seen by that check and
/// reported with its own status: the check comes before the look at the
/// clock.
pub proof fn lemma_end_at_deadline_is_reported(m: Machine, ends_at: nat, status: ChildStatus)
    requires
        m.budget > 0,
        m.budget <= ends_at <= deadline_check(m.budget),
    ensures
        poll_from(m, 0, ends_at, status) == (outcome_of(status), deadline_check(m.budget)),
{
    lemma_deadline_check_bounds(m.budget);
    assert(0 * poll_interval_nanos(m.budget) == 0);
    lemma_poll_reports_end(m, 0, ends_at, status);
    lemma_poll_end_is_a_check(m, 0, ends_at, status);
    let pause = poll_interval_nanos(m.budget);
    let at = poll_from(m, 0, ends_at, status).1;
    let later = choose|later: nat| at == #[trigger] (later * pause);
    lemma_pauses_reach_deadline(m.budget, later);
    if later > pauses_within(m.budget) {
        lemma_mul_inequality(pauses_within(m.budget) as int + 1, later as int, pause as int);
        lemma_mul_is_distributive_add_other_way(pause as int, pauses_within(m.budget) as int, 1);
    }
}

/// The ideal wait decides at a check: after a whole number of pauses.
proof fn lemma_poll_end_is_a_check(m: Machine, count: nat, ends_at: nat, status: ChildStatus)
    requires
        m.budget > 0,
    ensures
        exists|later: nat|
            later >= count && poll_from(
                m,
                count * poll_interval_nanos(m.budget),
                ends_at,
                status,
            ).1 == #[trigger] (later * poll_interval_nanos(m.budget)),
    decreases
            (if count * poll_interval_nanos(m.budget) < m.budget {
                m.budget - count * poll_interval_nanos(m.budget)
            } else {
                0
            }),
{
    let pause = poll_interval_nanos(m.budget);
    let now = count * pause;
    if ends_at > now && now < m.budget {
        lemma_mul_is_distributive_add_other_way(pause as int, count as int, 1);
        assert((count + 1) * pause == now + pause);
        lemma_poll_end_is_a_check(m, count + 1, ends_at, status);
    } else {
        assert(poll_from(m, now, ends_at, status).1 == count * pause);
    }
}

} // verus!
