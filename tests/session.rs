use chrome_for_testing_manager::session::{
    ComputationOutcome, ScopeAction, ScopeEvent, ScopePhase, ScopedSession, SessionError,
    SessionHandle, SessionRegistry,
};

#[test]
fn closing_one_session_leaves_the_other() {
    let mut reg: SessionRegistry<&str> = SessionRegistry::new();
    let a = reg.register("first").unwrap();
    let b = reg.register("second").unwrap();
    assert!(b.0 > a.0);
    assert_eq!(reg.len(), 2);
    assert_eq!(reg.close(a), Some("first"));
    assert_eq!(reg.get(b), Some(&"second"));
    assert_eq!(reg.get(a), None);
    assert_eq!(reg.len(), 1);
}

#[test]
fn closing_twice_or_unknown_is_noop() {
    let mut reg: SessionRegistry<u32> = SessionRegistry::new();
    let a = reg.register(7).unwrap();
    assert_eq!(reg.close(a), Some(7));
    assert_eq!(reg.close(a), None);
    assert_eq!(reg.close(SessionHandle(999)), None);
    assert_eq!(reg.len(), 0);
    let b = reg.register(8).unwrap();
    assert_ne!(a, b);
}

#[test]
fn drain_returns_all_in_order() {
    let mut reg: SessionRegistry<u32> = SessionRegistry::new();
    reg.register(1).unwrap();
    let h = reg.register(2).unwrap();
    reg.register(3).unwrap();
    reg.close(h);
    assert_eq!(reg.drain(), vec![1, 3]);
    assert_eq!(reg.len(), 0);
}

#[test]
fn panicking_computation_quits_before_error() {
    let s = ScopedSession::start();
    let (s, a) = s.step(ScopeEvent::ComputationEnded(ComputationOutcome::Panicked(
        "boom".to_string(),
    )));
    assert!(matches!(a, ScopeAction::QuitSession));
    assert!(matches!(s.phase, ScopePhase::Quitting(_)));
    let (s, a) = s.step(ScopeEvent::QuitFinished(Ok(())));
    assert!(matches!(s.phase, ScopePhase::Finished));
    match a {
        ScopeAction::Return(Err(SessionError::Panic { reason })) => assert_eq!(reason, "boom"),
        other => panic!("unexpected action {other:?}"),
    }
}

#[test]
fn quit_failure_wins_over_result() {
    let s = ScopedSession::start();
    let (s, _) = s.step(ScopeEvent::ComputationEnded(ComputationOutcome::Completed));
    let (_, a) = s.step(ScopeEvent::QuitFinished(Err(SessionError::Protocol {
        message: "gone".to_string(),
    })));
    assert!(matches!(a, ScopeAction::Return(Err(SessionError::Protocol { .. }))));
}

#[test]
fn completed_and_failed_computations() {
    let (s, _) = ScopedSession::start()
        .step(ScopeEvent::ComputationEnded(ComputationOutcome::Completed));
    let (_, a) = s.step(ScopeEvent::QuitFinished(Ok(())));
    assert!(matches!(a, ScopeAction::Return(Ok(()))));
    let (s, _) = ScopedSession::start().step(ScopeEvent::ComputationEnded(
        ComputationOutcome::Failed(SessionError::Protocol { message: "no such element".into() }),
    ));
    let (_, a) = s.step(ScopeEvent::QuitFinished(Ok(())));
    assert!(matches!(a, ScopeAction::Return(Err(SessionError::Protocol { .. }))));
    let (s, a) = ScopedSession::start().step(ScopeEvent::QuitFinished(Ok(())));
    assert!(matches!(a, ScopeAction::Idle));
    assert!(matches!(s.phase, ScopePhase::Running));
}
