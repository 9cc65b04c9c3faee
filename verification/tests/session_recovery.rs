use smb::clock::{Duration, MonotonicTime};
use smb::runtime::object_state::{ObjectKind, ObjectRegistry, ObjectToken};
use smb::runtime::reducer::GenerationId;
use smb::runtime::session_recovery::{
    SessionRecoveryCoordinator, SessionRecoveryEffect, SessionRecoveryEvent, SessionRecoveryPolicy,
    SessionRecoveryState, SessionWaitError, SessionWaitOutcome, SessionWaitQueue,
};

fn objects(generation: u64) -> (ObjectToken, ObjectToken) {
    let mut objects = ObjectRegistry::new(GenerationId::new(generation));
    let connection = objects.connection();
    let session = objects
        .create_child(connection, ObjectKind::Session)
        .unwrap();
    (connection, session)
}

fn policy() -> SessionRecoveryPolicy {
    SessionRecoveryPolicy {
        max_attempts: 2,
        attempt_timeout: Duration::from_secs(3),
    }
}

#[test]
fn publishes_only_a_session_from_the_target_connection_generation() {
    let (_, previous) = objects(1);
    let (connection, replacement) = objects(2);
    let mut recovery = SessionRecoveryCoordinator::new(previous, policy());

    assert!(matches!(
        recovery.reduce(SessionRecoveryEvent::ConnectionReplaced {
            connection,
            now: MonotonicTime::zero(),
        }),
        Some(SessionRecoveryEffect::StartAuthentication { attempt: 1, .. })
    ));
    assert!(recovery
        .reduce(SessionRecoveryEvent::AttemptSucceeded {
            connection,
            session: previous,
        })
        .is_none());
    assert_eq!(
        recovery.reduce(SessionRecoveryEvent::AttemptSucceeded {
            connection,
            session: replacement,
        }),
        Some(SessionRecoveryEffect::PublishSession {
            previous,
            replacement,
        })
    );
    assert_eq!(recovery.state(), SessionRecoveryState::Active(replacement));
}

#[test]
fn duplicate_and_stale_events_do_not_create_a_second_owner() {
    let (_, previous) = objects(1);
    let (connection, _) = objects(2);
    let (stale_connection, _) = objects(3);
    let mut recovery = SessionRecoveryCoordinator::new(previous, policy());
    recovery.reduce(SessionRecoveryEvent::ConnectionReplaced {
        connection,
        now: MonotonicTime::zero(),
    });

    assert!(recovery
        .reduce(SessionRecoveryEvent::ConnectionReplaced {
            connection,
            now: MonotonicTime::zero(),
        })
        .is_none());
    assert!(recovery
        .reduce(SessionRecoveryEvent::AttemptFailed {
            connection: stale_connection,
            now: MonotonicTime::zero(),
        })
        .is_none());
}

#[test]
fn newest_connection_restarts_authentication_and_old_completion_is_ignored() {
    let (_, previous) = objects(1);
    let (second, second_session) = objects(2);
    let (third, third_session) = objects(3);
    let mut recovery = SessionRecoveryCoordinator::new(previous, policy());
    recovery.reduce(SessionRecoveryEvent::ConnectionReplaced {
        connection: second,
        now: MonotonicTime::zero(),
    });

    assert!(matches!(
        recovery.reduce(SessionRecoveryEvent::ConnectionReplaced {
            connection: third,
            now: MonotonicTime::zero(),
        }),
        Some(SessionRecoveryEffect::StartAuthentication {
            connection,
            attempt: 1,
            ..
        }) if connection == third
    ));
    assert!(recovery
        .reduce(SessionRecoveryEvent::AttemptSucceeded {
            connection: second,
            session: second_session,
        })
        .is_none());
    assert!(matches!(
        recovery.reduce(SessionRecoveryEvent::AttemptSucceeded {
            connection: third,
            session: third_session,
        }),
        Some(SessionRecoveryEffect::PublishSession { .. })
    ));
}

#[test]
fn attempts_are_bounded_and_close_is_first_terminal() {
    let (_, previous) = objects(1);
    let (connection, _) = objects(2);
    let mut exhausted = SessionRecoveryCoordinator::new(previous, policy());
    exhausted.reduce(SessionRecoveryEvent::ConnectionReplaced {
        connection,
        now: MonotonicTime::zero(),
    });
    assert!(matches!(
        exhausted.reduce(SessionRecoveryEvent::AttemptFailed {
            connection,
            now: MonotonicTime::zero(),
        }),
        Some(SessionRecoveryEffect::StartAuthentication { attempt: 2, .. })
    ));
    assert_eq!(
        exhausted.reduce(SessionRecoveryEvent::AttemptFailed {
            connection,
            now: MonotonicTime::zero(),
        }),
        Some(SessionRecoveryEffect::RevokeSession(previous))
    );

    let mut closed = SessionRecoveryCoordinator::new(previous, policy());
    assert_eq!(
        closed.reduce(SessionRecoveryEvent::Close),
        Some(SessionRecoveryEffect::Closed)
    );
    assert!(closed
        .reduce(SessionRecoveryEvent::ConnectionReplaced {
            connection,
            now: MonotonicTime::zero(),
        })
        .is_none());
}

#[test]
fn session_loss_can_reauthenticate_without_a_connection_generation_change() {
    let (connection, previous) = objects(1);
    let mut recovery = SessionRecoveryCoordinator::new(previous, policy());

    assert!(matches!(
        recovery.reduce(SessionRecoveryEvent::SessionLost {
            session: previous,
            connection,
            now: MonotonicTime::zero(),
        }),
        Some(SessionRecoveryEffect::StartAuthentication {
            connection: target,
            attempt: 1,
            ..
        }) if target == connection
    ));
    assert!(recovery
        .reduce(SessionRecoveryEvent::SessionLost {
            session: previous,
            connection,
            now: MonotonicTime::zero(),
        })
        .is_none());
}

#[test]
fn session_waits_are_bounded_fifo_and_reject_deeper_dependencies() {
    let (_, session) = objects(1);
    let mut registry = ObjectRegistry::new(GenerationId::new(1));
    let connection = registry.connection();
    let another_session = registry
        .create_child(connection, ObjectKind::Session)
        .unwrap();
    let share = registry
        .create_child(another_session, ObjectKind::Share)
        .unwrap();
    let mut queue = SessionWaitQueue::new(session, 2);
    let first = queue.enqueue(session, None).unwrap();
    let second = queue.enqueue(session, None).unwrap();

    assert_eq!(queue.enqueue(session, None), Err(SessionWaitError::Full));
    assert_eq!(
        queue.enqueue(share, None),
        Err(SessionWaitError::DependencyNotSession)
    );

    let (_, replacement) = objects(2);
    assert_eq!(
        queue.publish(replacement),
        vec![
            SessionWaitOutcome::Ready {
                id: first,
                session: replacement,
            },
            SessionWaitOutcome::Ready {
                id: second,
                session: replacement,
            },
        ]
    );
}

#[test]
fn session_wait_cancel_deadline_and_failure_remove_exact_entries() {
    let (_, session) = objects(1);
    let mut queue = SessionWaitQueue::new(session, 3);
    let cancelled = queue.enqueue(session, None).unwrap();
    let timed = queue.enqueue(session, Some(MonotonicTime::zero())).unwrap();
    let failed = queue.enqueue(session, None).unwrap();

    assert_eq!(
        queue.cancel(cancelled),
        Some(SessionWaitOutcome::Cancelled(cancelled))
    );
    assert_eq!(
        queue.advance_time(MonotonicTime::zero()),
        vec![SessionWaitOutcome::TimedOut(timed)]
    );
    assert_eq!(
        queue.fail(),
        vec![SessionWaitOutcome::RecoveryFailed(failed)]
    );
    assert!(queue.cancel(cancelled).is_none());
}
