//! How a child's end is reported and turned into the runner's own exit.

use vstd::prelude::*;

verus! {

/// Exit status of the runner after a failure of its own, and after a child
/// that a signal ended where the platform has no exit status for that.
pub const FAILURE_CODE: i32 = 1;

/// Exit status of the runner after the budget ran out and the signal was
/// delivered.
pub const TIMED_OUT_CODE: i32 = 124;

/// What the operating system reports of a child that has ended.
#[derive(Clone, Copy, Debug, PartialEq, Eq, Structural)]
pub enum ChildStatus {
    /// The child returned this exit code.
    Exited(i32),
    /// This signal ended the child.
    Signaled(i32),
}

/// Result of one wait for a child.
#[derive(Clone, Copy, Debug, PartialEq, Eq, Structural)]
pub enum WaitOutcome {
    /// The child returned this exit code.
    Exited(i32),
    /// This signal ended the child.
    Signaled(i32),
    /// The budget was spent while the child was still running.
    TimedOut,
}

/// Which of the two inputs could not be read. Nothing is started then.
#[derive(Clone, Copy, Debug, PartialEq, Eq, Structural)]
pub enum ConfigError {
    /// The text names no length of time.
    Duration,
    /// The text names no signal.
    Signal,
}

/// What went wrong in a run.
#[derive(Clone, Copy, Debug, PartialEq, Eq, Structural)]
pub enum Failure {
    /// The budget or the signal could not be read.
    Config(ConfigError),
    /// The command could not be started.
    Spawn,
    /// The signal could not be delivered.
    Signal,
}

/// How the runner itself is to end.
#[derive(Clone, Copy, Debug, PartialEq, Eq, Structural)]
pub enum ExitDirective {
    /// End with the exit code that the child returned.
    ExitWith(i32),
    /// Report that this signal ended the child.
    KilledBy(i32),
    /// Report that the budget ran out and the signal was sent.
    SignalSent,
    /// Report a failure of the run.
    Fail(Failure),
}

/// The outcome that stands for a status the operating system reported.
pub open spec fn outcome_of(status: ChildStatus) -> WaitOutcome {
    match status {
        ChildStatus::Exited(code) => WaitOutcome::Exited(code),
        ChildStatus::Signaled(signal) => WaitOutcome::Signaled(signal),
    }
}

/// The directive that belongs to an outcome.
pub open spec fn directive_of(outcome: WaitOutcome) -> ExitDirective {
    match outcome {
        WaitOutcome::Exited(code) => ExitDirective::ExitWith(code),
        WaitOutcome::Signaled(signal) => ExitDirective::KilledBy(signal),
        WaitOutcome::TimedOut => ExitDirective::SignalSent,
    }
}

/// The exit status that carries out a directive. `native_signals` says
/// whether the platform can report a signal as an exit status.
pub open spec fn exit_code_of(directive: ExitDirective, native_signals: bool) -> i32 {
    match directive {
        ExitDirective::ExitWith(code) => code,
        ExitDirective::KilledBy(signal) => if native_signals {
            signal
        } else {
            FAILURE_CODE
        },
        ExitDirective::SignalSent => TIMED_OUT_CODE,
        ExitDirective::Fail(_) => FAILURE_CODE,
    }
}

impl ChildStatus {
    /// The outcome of a wait that saw this status.
    pub fn outcome(self) -> (r: WaitOutcome)
        ensures
            r == outcome_of(self),
    {
        match self {
            ChildStatus::Exited(code) => WaitOutcome::Exited(code),
            ChildStatus::Signaled(signal) => WaitOutcome::Signaled(signal),
        }
    }
}

impl WaitOutcome {
    /// Whether the child has ended: everything but `TimedOut`.
    pub fn is_terminal(&self) -> (r: bool)
        ensures
            r == !(*self is TimedOut),
    {
        match self {
            WaitOutcome::TimedOut => false,
            _ => true,
        }
    }
}

impl ExitDirective {
    /// The exit status with which the runner ends.
    pub fn exit_code(&self, native_signals: bool) -> (r: i32)
        ensures
            r == exit_code_of(*self, native_signals),
    {
        match self {
            ExitDirective::ExitWith(code) => *code,
            ExitDirective::KilledBy(signal) => {
                if native_signals {
                    *signal
                } else {
                    FAILURE_CODE
                }
            },
            ExitDirective::SignalSent => TIMED_OUT_CODE,
            ExitDirective::Fail(_) => FAILURE_CODE,
        }
    }
}

/// Turns the outcome of a wait into the runner's own end: an exit code is
/// handed on, a signal that ended the child is reported as such, and a
/// timeout is reported as a signal sent.
pub fn translate(outcome: WaitOutcome) -> (r: ExitDirective)
    ensures
        r == directive_of(outcome),
{
    match outcome {
        WaitOutcome::Exited(code) => ExitDirective::ExitWith(code),
        WaitOutcome::Signaled(signal) => ExitDirective::KilledBy(signal),
        WaitOutcome::TimedOut => ExitDirective::SignalSent,
    }
}

/// The translation loses nothing: two outcomes with the same directive are
/// the same outcome, so an exit code is never taken for a signal or a
/// timeout.
pub proof fn lemma_translation_is_faithful(a: WaitOutcome, b: WaitOutcome)
    requires
        directive_of(a) == directive_of(b),
    ensures
        a == b,
{
}

/// A child that returned an exit code has the runner end with that code,
/// whatever the platform.
pub proof fn lemma_exit_code_is_handed_on(code: i32, native_signals: bool)
    ensures
        exit_code_of(directive_of(WaitOutcome::Exited(code)), native_signals) == code,
{
}

} // verus!
