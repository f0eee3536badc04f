use child_timeout::outcome::{
    translate, ChildStatus, ConfigError, ExitDirective, Failure, WaitOutcome, FAILURE_CODE,
    TIMED_OUT_CODE,
};

#[test]
fn exit_code_is_handed_on() {
    assert_eq!(translate(WaitOutcome::Exited(0)), ExitDirective::ExitWith(0));
    assert_eq!(translate(WaitOutcome::Exited(3)), ExitDirective::ExitWith(3));
    assert_eq!(translate(WaitOutcome::Exited(255)), ExitDirective::ExitWith(255));
    assert_eq!(ExitDirective::ExitWith(3).exit_code(true), 3);
    assert_eq!(ExitDirective::ExitWith(3).exit_code(false), 3);
    assert_eq!(ExitDirective::ExitWith(-1).exit_code(true), -1);
}

#[test]
fn signal_that_ended_the_child_is_reported() {
    assert_eq!(translate(WaitOutcome::Signaled(15)), ExitDirective::KilledBy(15));
    assert_eq!(ExitDirective::KilledBy(15).exit_code(true), 15);
    assert_eq!(ExitDirective::KilledBy(9).exit_code(true), 9);
}

#[test]
fn signal_falls_back_to_the_failure_code() {
    assert_eq!(ExitDirective::KilledBy(15).exit_code(false), 1);
    assert_eq!(ExitDirective::KilledBy(9).exit_code(false), FAILURE_CODE);
}

#[test]
fn timeout_is_reported_as_signal_sent() {
    assert_eq!(translate(WaitOutcome::TimedOut), ExitDirective::SignalSent);
    assert_eq!(ExitDirective::SignalSent.exit_code(true), 124);
    assert_eq!(ExitDirective::SignalSent.exit_code(false), TIMED_OUT_CODE);
}

#[test]
fn failures_end_with_the_failure_code() {
    for failure in [
        Failure::Config(ConfigError::Duration),
        Failure::Config(ConfigError::Signal),
        Failure::Spawn,
        Failure::Signal,
    ] {
        assert_eq!(ExitDirective::Fail(failure).exit_code(true), 1);
        assert_eq!(ExitDirective::Fail(failure).exit_code(false), 1);
    }
}

#[test]
fn translation_keeps_outcomes_apart() {
    let outcomes = [
        WaitOutcome::Exited(0),
        WaitOutcome::Exited(9),
        WaitOutcome::Signaled(9),
        WaitOutcome::Signaled(0),
        WaitOutcome::TimedOut,
    ];
    for a in outcomes {
        for b in outcomes {
            assert_eq!(translate(a) == translate(b), a == b);
        }
    }
}

#[test]
fn status_becomes_the_outcome_of_the_same_kind() {
    assert_eq!(ChildStatus::Exited(3).outcome(), WaitOutcome::Exited(3));
    assert_eq!(ChildStatus::Signaled(9).outcome(), WaitOutcome::Signaled(9));
}

#[test]
fn only_a_timeout_is_not_terminal() {
    assert!(WaitOutcome::Exited(0).is_terminal());
    assert!(WaitOutcome::Signaled(9).is_terminal());
    assert!(!WaitOutcome::TimedOut.is_terminal());
}
