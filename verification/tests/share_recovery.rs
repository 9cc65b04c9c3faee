use smb::clock::{Duration, MonotonicTime};
use smb::runtime::object_state::{ObjectKind, ObjectRegistry, ObjectToken};
use smb::runtime::reducer::GenerationId;
use smb::runtime::share_recovery::{
    ShareRecoveryCoordinator, ShareRecoveryEffect, ShareRecoveryEvent, ShareRecoveryPolicy,
    ShareWaitError, ShareWaitOutcome, ShareWaitQueue,
};

fn objects(generation: u64) -> (ObjectToken, ObjectToken, ObjectToken) {
    let mut objects = ObjectRegistry::new(GenerationId::new(generation));
    let connection = objects.connection();
    let session = objects.create_child(connection, ObjectKind::Session).unwrap();
    let share = objects.create_child(session, ObjectKind::Share).unwrap();
    (session, share, objects.create_child(share, ObjectKind::Resource).unwrap())
}

fn policy() -> ShareRecoveryPolicy {
    ShareRecoveryPolicy {
        max_attempts: 2,
        attempt_timeout: Duration::from_secs(3),
    }
}

#[test]
fn replay_publishes_only_for_the_target_session() {
    let (_, previous, _) = objects(1);
    let (session, replacement, _) = objects(2);
    let mut recovery = ShareRecoveryCoordinator::new(previous, policy());
    assert!(matches!(
        recovery.reduce(ShareRecoveryEvent::SessionReplaced {
            session,
            now: MonotonicTime::zero(),
        }),
        Some(ShareRecoveryEffect::StartTreeConnect { attempt: 1, .. })
    ));
    assert_eq!(
        recovery.reduce(ShareRecoveryEvent::AttemptSucceeded {
            session,
            share: replacement,
        }),
        Some(ShareRecoveryEffect::PublishShare {
            previous,
            replacement,
        })
    );
}

#[test]
fn duplicate_stale_and_consecutive_session_events_have_one_owner() {
    let (_, previous, _) = objects(1);
    let (second, second_share, _) = objects(2);
    let (third, third_share, _) = objects(3);
    let mut recovery = ShareRecoveryCoordinator::new(previous, policy());
    recovery.reduce(ShareRecoveryEvent::SessionReplaced {
        session: second,
        now: MonotonicTime::zero(),
    });
    assert!(recovery
        .reduce(ShareRecoveryEvent::SessionReplaced {
            session: second,
            now: MonotonicTime::zero(),
        })
        .is_none());
    assert!(matches!(
        recovery.reduce(ShareRecoveryEvent::SessionReplaced {
            session: third,
            now: MonotonicTime::zero(),
        }),
        Some(ShareRecoveryEffect::StartTreeConnect {
            session,
            attempt: 1,
            ..
        }) if session == third
    ));
    assert!(recovery
        .reduce(ShareRecoveryEvent::AttemptSucceeded {
            session: second,
            share: second_share,
        })
        .is_none());
    assert!(matches!(
        recovery.reduce(ShareRecoveryEvent::AttemptSucceeded {
            session: third,
            share: third_share,
        }),
        Some(ShareRecoveryEffect::PublishShare { .. })
    ));
}

#[test]
fn retry_exhaustion_and_close_are_terminal() {
    let (_, previous, _) = objects(1);
    let (session, _, _) = objects(2);
    let mut recovery = ShareRecoveryCoordinator::new(previous, policy());
    recovery.reduce(ShareRecoveryEvent::SessionReplaced {
        session,
        now: MonotonicTime::zero(),
    });
    assert!(matches!(
        recovery.reduce(ShareRecoveryEvent::AttemptFailed {
            session,
            now: MonotonicTime::zero(),
        }),
        Some(ShareRecoveryEffect::StartTreeConnect { attempt: 2, .. })
    ));
    assert_eq!(
        recovery.reduce(ShareRecoveryEvent::AttemptFailed {
            session,
            now: MonotonicTime::zero(),
        }),
        Some(ShareRecoveryEffect::RevokeShare(previous))
    );
    let mut closed = ShareRecoveryCoordinator::new(previous, policy());
    assert_eq!(
        closed.reduce(ShareRecoveryEvent::Close),
        Some(ShareRecoveryEffect::Closed)
    );
    assert!(closed
        .reduce(ShareRecoveryEvent::SessionReplaced {
            session,
            now: MonotonicTime::zero(),
        })
        .is_none());
}

#[test]
fn waits_are_bounded_fifo_and_resources_never_enter() {
    let (_, share, resource) = objects(1);
    let mut queue = ShareWaitQueue::new(share, 2);
    let first = queue.enqueue(share, None).unwrap();
    let second = queue.enqueue(share, None).unwrap();
    assert_eq!(queue.enqueue(share, None), Err(ShareWaitError::Full));
    assert_eq!(
        queue.enqueue(resource, None),
        Err(ShareWaitError::DependencyNotShare)
    );
    let (_, replacement, _) = objects(2);
    assert_eq!(
        queue.publish(replacement),
        vec![
            ShareWaitOutcome::Ready {
                id: first,
                share: replacement,
            },
            ShareWaitOutcome::Ready {
                id: second,
                share: replacement,
            },
        ]
    );
}

#[test]
fn cancellation_deadline_and_failure_remove_exact_waits() {
    let (_, share, _) = objects(1);
    let mut queue = ShareWaitQueue::new(share, 3);
    let cancelled = queue.enqueue(share, None).unwrap();
    let timed = queue.enqueue(share, Some(MonotonicTime::zero())).unwrap();
    let failed = queue.enqueue(share, None).unwrap();
    assert_eq!(
        queue.cancel(cancelled),
        Some(ShareWaitOutcome::Cancelled(cancelled))
    );
    assert_eq!(
        queue.advance_time(MonotonicTime::zero()),
        vec![ShareWaitOutcome::TimedOut(timed)]
    );
    assert_eq!(
        queue.fail(),
        vec![ShareWaitOutcome::RecoveryFailed(failed)]
    );
}
