//! The wait for a child as a state machine. The caller performs each
//! [`Action`] and reports what came of it as an [`Event`]; the machine decides
//! what is done next.
//!
//! With a budget of zero the wait has no limit. Otherwise the child's
//! standard input is released once, and then the child is checked without
//! blocking: a child that has ended is reported at once; else, when the time
//! since the wait began has reached the budget, the signal is sent; else the
//! machine asks for one pause and checks again.

use vstd::prelude::*;
use crate::outcome::{ChildStatus, ExitDirective, Failure, WaitOutcome, directive_of, outcome_of};
use crate::signal::Signal;
use crate::span::{Span, poll_interval_nanos};

verus! {

/// Where the supervision of one child stands.
#[derive(Clone, Copy, Debug, PartialEq, Eq, Structural)]
pub enum Phase {
    /// Nothing has been decided yet.
    Spawned,
    /// A wait without limit is under way.
    Waiting,
    /// The child's standard input is being released before polling.
    Releasing,
    /// A liveness check is under way.
    Probing,
    /// A pause between two checks is under way.
    Sleeping,
    /// The child returned this exit code.
    Exited(i32),
    /// This signal ended the child.
    Signaled(i32),
    /// The budget is spent and the signal is being sent.
    TimedOut,
    /// The signal was delivered. The child is not looked at again.
    SignalSent,
    /// The signal could not be delivered.
    SignalFailed,
}

/// What the caller reports to the machine.
#[derive(Clone, Copy, Debug, PartialEq, Eq)]
pub enum Event {
    /// The child has been started.
    Started,
    /// The wait without limit returned this status.
    Ended(ChildStatus),
    /// The child's standard input was released and the clock read.
    StdinReleased,
    /// A liveness check returned: the status if the child has ended, and the
    /// time since the clock was read, taken after the check.
    Probed(Option<ChildStatus>, Span),
    /// The pause is over.
    Woke,
    /// The signal was delivered.
    SignalDelivered,
    /// The signal could not be delivered.
    SignalRefused,
}

/// What the machine asks of the caller.
#[derive(Clone, Copy, Debug, PartialEq, Eq)]
pub enum Action {
    /// Block until the child has ended, then report `Event::Ended`.
    WaitForExit,
    /// Close the child's standard input, read the monotonic clock, then
    /// report `Event::StdinReleased`. Elapsed time counts from this reading.
    ReleaseStdin,
    /// Check without blocking whether the child has ended, then report
    /// `Event::Probed`.
    Probe,
    /// Pause for this long, then report `Event::Woke`.
    Sleep(Span),
    /// Deliver this signal to the child, then report `Event::SignalDelivered`
    /// or `Event::SignalRefused`.
    SendSignal(Signal),
    /// End as the directive says. Nothing more is to be reported.
    Finish(ExitDirective),
}

/// An event with its time as a number of nanoseconds.
pub ghost enum EventView {
    Started,
    Ended(ChildStatus),
    StdinReleased,
    Probed(Option<ChildStatus>, nat),
    Woke,
    SignalDelivered,
    SignalRefused,
}

/// An action with its pause as a number of nanoseconds and its signal as a
/// number.
pub ghost enum ActionView {
    WaitForExit,
    ReleaseStdin,
    Probe,
    Sleep(nat),
    SendSignal(int),
    Finish(ExitDirective),
}

impl View for Event {
    type V = EventView;

    open spec fn view(&self) -> EventView {
        match *self {
            Event::Started => EventView::Started,
            Event::Ended(status) => EventView::Ended(status),
            Event::StdinReleased => EventView::StdinReleased,
            Event::Probed(seen, elapsed) => EventView::Probed(seen, elapsed@),
            Event::Woke => EventView::Woke,
            Event::SignalDelivered => EventView::SignalDelivered,
            Event::SignalRefused => EventView::SignalRefused,
        }
    }
}

impl View for Action {
    type V = ActionView;

    open spec fn view(&self) -> ActionView {
        match *self {
            Action::WaitForExit => ActionView::WaitForExit,
            Action::ReleaseStdin => ActionView::ReleaseStdin,
            Action::Probe => ActionView::Probe,
            Action::Sleep(pause) => ActionView::Sleep(pause@),
            Action::SendSignal(signal) => ActionView::SendSignal(signal@),
            Action::Finish(directive) => ActionView::Finish(directive),
        }
    }
}

/// The machine as a value: the budget in nanoseconds, the number of the
/// signal to send when it is spent, and the phase.
pub ghost struct Machine {
    pub budget: nat,
    pub signal: int,
    pub phase: Phase,
}

/// The phase in which a child that ended with `status` leaves the machine.
pub open spec fn phase_of(status: ChildStatus) -> Phase {
    match status {
        ChildStatus::Exited(code) => Phase::Exited(code),
        ChildStatus::Signaled(signal) => Phase::Signaled(signal),
    }
}

/// The outcome of the wait, once the phase holds one.
pub open spec fn outcome_in(phase: Phase) -> Option<WaitOutcome> {
    match phase {
        Phase::Exited(code) => Some(WaitOutcome::Exited(code)),
        Phase::Signaled(signal) => Some(WaitOutcome::Signaled(signal)),
        Phase::TimedOut | Phase::SignalSent | Phase::SignalFailed => Some(WaitOutcome::TimedOut),
        _ => None,
    }
}

/// Whether nothing more can happen in this phase.
pub open spec fn is_final(phase: Phase) -> bool {
    phase is Exited || phase is Signaled || phase is SignalSent || phase is SignalFailed
}

/// The decision after one liveness check, `elapsed` nanoseconds into the
/// wait: a child that has ended is reported whatever the time; a running
/// child is sent the signal once the budget is reached, and otherwise gets
/// one more pause.
pub open spec fn after_probe(m: Machine, seen: Option<ChildStatus>, elapsed: nat) -> (
    Phase,
    ActionView,
) {
    match seen {
        Some(status) => (phase_of(status), ActionView::Finish(directive_of(outcome_of(status)))),
        None => if elapsed >= m.budget {
            (Phase::TimedOut, ActionView::SendSignal(m.signal))
        } else {
            (Phase::Sleeping, ActionView::Sleep(poll_interval_nanos(m.budget)))
        },
    }
}

/// The next phase and the action for an event that fits the phase; `None`
/// for an event that does not.
pub open spec fn transition(m: Machine, event: EventView) -> Option<(Phase, ActionView)> {
    match (m.phase, event) {
        (Phase::Spawned, EventView::Started) => if m.budget == 0 {
            Some((Phase::Waiting, ActionView::WaitForExit))
        } else {
            Some((Phase::Releasing, ActionView::ReleaseStdin))
        },
        (Phase::Waiting, EventView::Ended(status)) => Some(
            (phase_of(status), ActionView::Finish(directive_of(outcome_of(status)))),
        ),
        (Phase::Releasing, EventView::StdinReleased) => Some((Phase::Probing, ActionView::Probe)),
        (Phase::Probing, EventView::Probed(seen, elapsed)) => Some(after_probe(m, seen, elapsed)),
        (Phase::Sleeping, EventView::Woke) => Some((Phase::Probing, ActionView::Probe)),
        (Phase::TimedOut, EventView::SignalDelivered) => Some(
            (Phase::SignalSent, ActionView::Finish(ExitDirective::SignalSent)),
        ),
        (Phase::TimedOut, EventView::SignalRefused) => Some(
            (Phase::SignalFailed, ActionView::Finish(ExitDirective::Fail(Failure::Signal))),
        ),
        _ => None,
    }
}

/// The machine after an event: moved on where the event fits, unchanged
/// where it does not.
pub open spec fn advance(m: Machine, event: EventView) -> Machine {
    match transition(m, event) {
        Some((phase, _)) => Machine { phase, ..m },
        None => m,
    }
}

/// Supervision of one child: the budget, the signal to send when it is
/// spent, and the phase reached so far.
#[derive(Clone, Copy, Debug)]
pub struct Supervisor {
    budget: Span,
    interval: Span,
    signal: Signal,
    phase: Phase,
}

impl View for Supervisor {
    type V = Machine;

    closed spec fn view(&self) -> Machine {
        Machine { budget: self.budget@, signal: self.signal@, phase: self.phase }
    }
}

impl Supervisor {
    #[verifier::type_invariant]
    closed spec fn well_formed(self) -> bool {
        self.interval@ == poll_interval_nanos(self.budget@)
    }

    /// Supervision of a child that is about to be started.
    pub fn new(budget: Span, signal: Signal) -> (r: Supervisor)
        ensures
            r@ == (Machine { budget: budget@, signal: signal@, phase: Phase::Spawned }),
    {
        Supervisor { budget, interval: budget.poll_interval(), signal, phase: Phase::Spawned }
    }

    /// The budget.
    pub fn budget(&self) -> (r: Span)
        ensures
            r@ == self@.budget,
    {
        self.budget
    }

    /// The signal that is sent when the budget is spent.
    pub fn signal(&self) -> (r: Signal)
        ensures
            r@ == self@.signal,
    {
        self.signal
    }

    /// The pause between two liveness checks.
    pub fn interval(&self) -> (r: Span)
        ensures
            r@ == poll_interval_nanos(self@.budget),
    {
        proof {
            use_type_invariant(self);
        }
        self.interval
    }

    /// The phase reached so far.
    pub fn phase(&self) -> (r: Phase)
        ensures
            r == self@.phase,
    {
        self.phase
    }

    /// The outcome of the wait, once there is one.
    pub fn outcome(&self) -> (r: Option<WaitOutcome>)
        ensures
            r == outcome_in(self@.phase),
    {
        match self.phase {
            Phase::Exited(code) => Some(WaitOutcome::Exited(code)),
            Phase::Signaled(signal) => Some(WaitOutcome::Signaled(signal)),
            Phase::TimedOut | Phase::SignalSent | Phase::SignalFailed => Some(
                WaitOutcome::TimedOut,
            ),
            _ => None,
        }
    }

    /// Whether the supervision is over.
    pub fn is_finished(&self) -> (r: bool)
        ensures
            r == is_final(self@.phase),
    {
        match self.phase {
            Phase::Exited(_) | Phase::Signaled(_) | Phase::SignalSent | Phase::SignalFailed => true,
            _ => false,
        }
    }

    /// Takes in what the caller reports and says what to do next. An event
    /// that does not fit the phase changes nothing and gets `None`.
    pub fn step(&mut self, event: Event) -> (r: Option<Action>)
        ensures
            final(self)@ == advance(old(self)@, event@),
            match transition(old(self)@, event@) {
                Some((_, action)) => r matches Some(a) && a@ == action,
                None => r is None && *final(self) == *old(self),
            },
    {
        proof {
            use_type_invariant(&*self);
        }
        match (self.phase, event) {
            (Phase::Spawned, Event::Started) => {
                if self.budget.is_zero() {
                    self.phase = Phase::Waiting;
                    Some(Action::WaitForExit)
                } else {
                    self.phase = Phase::Releasing;
                    Some(Action::ReleaseStdin)
                }
            },
            (Phase::Waiting, Event::Ended(status)) => {
                self.phase = ended(status);
                Some(Action::Finish(crate::outcome::translate(status.outcome())))
            },
            (Phase::Releasing, Event::StdinReleased) => {
                self.phase = Phase::Probing;
                Some(Action::Probe)
            },
            (Phase::Probing, Event::Probed(Some(status), _)) => {
                self.phase = ended(status);
                Some(Action::Finish(crate::outcome::translate(status.outcome())))
            },
            (Phase::Probing, Event::Probed(None, elapsed)) => {
                if elapsed.at_least(&self.budget) {
                    self.phase = Phase::TimedOut;
                    Some(Action::SendSignal(self.signal))
                } else {
                    self.phase = Phase::Sleeping;
                    Some(Action::Sleep(self.interval))
                }
            },
            (Phase::Sleeping, Event::Woke) => {
                self.phase = Phase::Probing;
                Some(Action::Probe)
            },
            (Phase::TimedOut, Event::SignalDelivered) => {
                self.phase = Phase::SignalSent;
                Some(Action::Finish(ExitDirective::SignalSent))
            },
            (Phase::TimedOut, Event::SignalRefused) => {
                self.phase = Phase::SignalFailed;
                Some(Action::Finish(ExitDirective::Fail(Failure::Signal)))
            },
            _ => None,
        }
    }
}

/// The phase that a child's end leads to.
fn ended(status: ChildStatus) -> (r: Phase)
    ensures
        r == phase_of(status),
{
    match status {
        ChildStatus::Exited(code) => Phase::Exited(code),
        ChildStatus::Signaled(signal) => Phase::Signaled(signal),
    }
}

} // verus!
