use smb::clock::{Duration, MonotonicTime};
use smb::runtime::recovery::{RecoveryCoordinator, RecoveryEffect, RecoveryEvent, RecoveryPolicy};
use smb::runtime::reducer::GenerationId;

fn second() -> Duration {
    Duration::from_secs(1)
}

fn policy() -> RecoveryPolicy {
    RecoveryPolicy {
        max_attempts: 3,
        attempt_timeout: second(),
        total_timeout: Duration::from_secs(10),
        initial_backoff: second(),
        maximum_backoff: Duration::from_secs(4),
        maximum_jitter: Duration::from_millis(250),
        max_waiting_operations: 8,
    }
}

fn at(seconds: u64) -> MonotonicTime {
    MonotonicTime::zero().saturating_add(Duration::from_secs(seconds))
}

#[test]
fn retries_are_bounded_and_publish_one_new_generation() {
    let mut recovery = RecoveryCoordinator::new(GenerationId::new(1), policy());
    assert_eq!(
        recovery.reduce(RecoveryEvent::TransportLost {
            generation: GenerationId::new(1),
            now: at(0),
        }),
        Some(RecoveryEffect::ScheduleAttempt { attempt: 1, at: at(0) })
    );
    assert_eq!(
        recovery.reduce(RecoveryEvent::Wake { now: at(0) }),
        Some(RecoveryEffect::StartAttempt { attempt: 1, deadline: at(1) })
    );
    assert_eq!(
        recovery.reduce(RecoveryEvent::AttemptFailed {
            now: at(1),
            jitter: Duration::zero(),
        }),
        Some(RecoveryEffect::ScheduleAttempt { attempt: 2, at: at(2) })
    );
    assert_eq!(
        recovery.reduce(RecoveryEvent::Wake { now: at(2) }),
        Some(RecoveryEffect::StartAttempt { attempt: 2, deadline: at(3) })
    );
    assert_eq!(
        recovery.reduce(RecoveryEvent::AttemptSucceeded {
            generation: GenerationId::new(2),
        }),
        Some(RecoveryEffect::PublishGeneration(GenerationId::new(2)))
    );
    assert!(recovery
        .reduce(RecoveryEvent::AttemptSucceeded {
            generation: GenerationId::new(3),
        })
        .is_none());
}

#[test]
fn total_deadline_and_attempt_limit_are_terminal() {
    let mut deadline = RecoveryCoordinator::new(GenerationId::new(1), RecoveryPolicy {
        total_timeout: second(),
        ..policy()
    });
    deadline.reduce(RecoveryEvent::TransportLost {
        generation: GenerationId::new(1),
        now: at(0),
    });
    assert_eq!(
        deadline.reduce(RecoveryEvent::Wake { now: at(1) }),
        Some(RecoveryEffect::RecoveryFailed)
    );

    let mut attempts = RecoveryCoordinator::new(GenerationId::new(1), RecoveryPolicy {
        max_attempts: 1,
        ..policy()
    });
    attempts.reduce(RecoveryEvent::TransportLost {
        generation: GenerationId::new(1),
        now: at(0),
    });
    attempts.reduce(RecoveryEvent::Wake { now: at(0) });
    assert_eq!(
        attempts.reduce(RecoveryEvent::AttemptFailed {
            now: at(1),
            jitter: Duration::zero(),
        }),
        Some(RecoveryEffect::RecoveryFailed)
    );
}

#[test]
fn duplicate_fatal_and_close_never_start_another_recovery() {
    let mut recovery = RecoveryCoordinator::new(GenerationId::new(1), policy());
    recovery.reduce(RecoveryEvent::TransportLost {
        generation: GenerationId::new(1),
        now: at(0),
    });
    assert!(recovery
        .reduce(RecoveryEvent::TransportLost {
            generation: GenerationId::new(1),
            now: at(0),
        })
        .is_none());
    assert_eq!(recovery.reduce(RecoveryEvent::Close), Some(RecoveryEffect::Closed));
    assert!(recovery.reduce(RecoveryEvent::Wake { now: at(10) }).is_none());

    let mut disabled = RecoveryCoordinator::new(
        GenerationId::new(1),
        RecoveryPolicy::disabled(),
    );
    assert_eq!(
        disabled.reduce(RecoveryEvent::TransportLost {
            generation: GenerationId::new(1),
            now: at(0),
        }),
        Some(RecoveryEffect::RecoveryFailed)
    );
}
