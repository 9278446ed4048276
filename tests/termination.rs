use chrome_for_testing_manager::error::ManagerError;
use chrome_for_testing_manager::termination::{
    ExitStatus, Termination, TerminationAction, TerminationEvent, TerminationState,
};

#[test]
fn kill_after_ignored_interrupt_returns_status() {
    let mut m = Termination::new(1000, 1000);
    assert_eq!(m.step(TerminationEvent::Requested), TerminationAction::Interrupt { wait_ms: 1000 });
    assert_eq!(m.state, TerminationState::Interrupting);
    assert_eq!(m.step(TerminationEvent::DeadlineElapsed), TerminationAction::Kill { wait_ms: 1000 });
    assert_eq!(m.state, TerminationState::Terminating);
    let status = ExitStatus { code: None };
    assert_eq!(m.step(TerminationEvent::Exited(status)), TerminationAction::Finish(status));
    assert!(matches!(m.outcome(), Some(Ok(s)) if s == status));
}

#[test]
fn graceful_exit_in_first_phase() {
    let mut m = Termination::new(3000, 3000);
    m.step(TerminationEvent::Requested);
    let status = ExitStatus { code: Some(0) };
    assert_eq!(m.step(TerminationEvent::Exited(status)), TerminationAction::Finish(status));
    assert_eq!(m.state, TerminationState::Terminated(status));
    assert_eq!(m.step(TerminationEvent::DeadlineElapsed), TerminationAction::Idle);
}

#[test]
fn process_outliving_both_phases_fails() {
    let mut m = Termination::new(10, 20);
    assert!(m.outcome().is_none());
    m.step(TerminationEvent::Requested);
    assert_eq!(m.step(TerminationEvent::SignalFailed), TerminationAction::Kill { wait_ms: 20 });
    assert_eq!(m.step(TerminationEvent::DeadlineElapsed), TerminationAction::Fail);
    assert_eq!(m.state, TerminationState::TerminationFailed);
    assert!(matches!(m.outcome(), Some(Err(ManagerError::TerminationFailed))));
    assert_eq!(m.step(TerminationEvent::Requested), TerminationAction::Idle);
}
