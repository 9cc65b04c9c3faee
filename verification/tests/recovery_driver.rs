use smb::clock::{Duration, MonotonicTime};
use smb::runtime::error::{
    CloseReport, GenerationExit, GenerationExitCause, RuntimeError, TransportError, TransportFault,
};
use smb::runtime::object_state::{ObjectKind, ObjectRegistry, ObjectToken};
use smb::runtime::recovery::{RecoveryPolicy, RecoveryState};
use smb::runtime::recovery_driver::{
    AttemptResult, AttemptStep, DependencyStep, DriveStep, RandomRecoveryJitter, RecoveryDriver,
    RecoveryError,
};
use smb::runtime::reducer::GenerationId;

fn policy() -> RecoveryPolicy {
    RecoveryPolicy {
        max_attempts: 3,
        attempt_timeout: Duration::from_secs(2),
        total_timeout: Duration::from_secs(10),
        initial_backoff: Duration::from_secs(1),
        maximum_backoff: Duration::from_secs(4),
        maximum_jitter: Duration::zero(),
        max_waiting_operations: 8,
    }
}

fn connection(generation: u64) -> ObjectToken {
    ObjectRegistry::new(GenerationId::new(generation)).connection()
}

fn transport_exit() -> GenerationExit {
    GenerationExit {
        generation: GenerationId::new(1),
        cause: GenerationExitCause::Transport(RuntimeError::Transport(TransportFault::Failed(
            TransportError::IoError,
        ))),
        report: CloseReport {
            timed_out: false,
            unresolved_requests: 0,
            joined_tasks: 1,
            failed_tasks: 1,
        },
    }
}

fn failure() -> AttemptResult {
    AttemptResult::Failed(RuntimeError::Transport(TransportFault::Split))
}

fn at(seconds: u64) -> MonotonicTime {
    MonotonicTime::zero().saturating_add(Duration::from_secs(seconds))
}

/// Recovers up to the first attempt.
fn attempting(policy: RecoveryPolicy) -> RecoveryDriver {
    let mut driver = RecoveryDriver::new(connection(1), policy);
    let (next, effect) = driver.recover(&transport_exit(), at(0)).unwrap();
    assert_eq!(next, GenerationId::new(2));
    assert_eq!(driver.drive(effect), DriveStep::Sleep { until: at(0) });
    let effect = driver.wake(at(0));
    assert!(matches!(
        driver.drive(effect),
        DriveStep::Attempt { attempt: 1, .. }
    ));
    driver
}

#[test]
fn starts_new_generation_only_after_old_owner_joined() {
    let mut driver = attempting(policy());
    let replacement = connection(2);
    match driver.attempt_ended(
        GenerationId::new(2),
        AttemptResult::Started(replacement),
        at(1),
        Duration::zero(),
    ) {
        AttemptStep::Published(results) => assert!(results.is_empty()),
        _ => panic!("not published"),
    }
    assert_eq!(driver.active_connection(), replacement);
    assert_eq!(
        driver.state(),
        RecoveryState::Connected(GenerationId::new(2))
    );
}

#[test]
fn retries_with_manual_clock_and_close_cancels_wait() {
    let mut driver = attempting(policy());
    let effect = match driver.attempt_ended(
        GenerationId::new(2),
        failure(),
        at(0),
        Duration::zero(),
    ) {
        AttemptStep::Again(effect) => effect,
        _ => panic!("must be tried again"),
    };
    assert_eq!(driver.drive(effect), DriveStep::Sleep { until: at(1) });
    let effect = driver.wake(at(1));
    assert_eq!(
        driver.drive(effect),
        DriveStep::Attempt {
            attempt: 2,
            deadline: at(3),
        }
    );
    driver.close();
    assert!(driver.is_closed());
    assert!(matches!(
        driver.drive(effect),
        DriveStep::End(RecoveryError::Closed)
    ));
}

#[test]
fn explicit_close_wins_transport_exit_recovery_race() {
    let mut driver = RecoveryDriver::new(connection(1), policy());
    assert!(driver.close().is_empty());
    assert_eq!(
        driver.recover(&transport_exit(), at(0)).err(),
        Some(RecoveryError::Closed)
    );
}

#[test]
fn attempt_deadline_stops_pending_bootstrap_and_stale_exit_is_rejected() {
    let mut driver = attempting(RecoveryPolicy {
        max_attempts: 1,
        ..policy()
    });
    let step = driver.attempt_ended(
        GenerationId::new(2),
        AttemptResult::Failed(RuntimeError::Transport(
            TransportFault::RecoveryAttemptTimeout,
        )),
        at(2),
        Duration::zero(),
    );
    let ended = match step {
        AttemptStep::Again(effect) => driver.drive(effect),
        AttemptStep::End(error) => DriveStep::End(error),
        _ => panic!("no attempt is left"),
    };
    assert_eq!(ended, DriveStep::End(RecoveryError::AttemptsExhausted));
    assert_eq!(
        driver.recover(&transport_exit(), at(2)).err(),
        Some(RecoveryError::StaleGeneration)
    );
}

#[test]
fn connection_waits_are_bounded_fifo_and_receive_replacement_token() {
    let mut driver = attempting(RecoveryPolicy {
        max_waiting_operations: 2,
        ..policy()
    });
    let wait = |driver: &mut RecoveryDriver| {
        driver.resolve_dependency(connection(1), None, at(0))
    };
    let (first, second) = match (wait(&mut driver), wait(&mut driver)) {
        (
            Ok(DependencyStep::Wait { id: first, .. }),
            Ok(DependencyStep::Wait { id: second, .. }),
        ) => (first, second),
        _ => panic!("both must wait"),
    };
    assert_eq!(wait(&mut driver).err(), Some(RecoveryError::QueueFull));
    let replacement = connection(2);
    match driver.attempt_ended(
        GenerationId::new(2),
        AttemptResult::Started(replacement),
        at(1),
        Duration::zero(),
    ) {
        AttemptStep::Published(results) => {
            assert_eq!(
                results.iter().map(|result| result.id).collect::<Vec<_>>(),
                vec![first, second]
            );
            assert!(results
                .iter()
                .all(|result| result.result == Ok(replacement)));
        }
        _ => panic!("not published"),
    }
}

#[test]
fn connection_wait_without_deadline_is_bounded_by_the_recovery_budget() {
    let mut driver = attempting(policy());
    let id = match driver.resolve_dependency(connection(1), None, at(3)) {
        Ok(DependencyStep::Wait { id, deadline }) => {
            assert_eq!(deadline, at(13));
            id
        }
        _ => panic!("must wait"),
    };
    let results = driver.close();
    assert_eq!(results.len(), 1);
    assert_eq!(results[0].id, id);
    assert_eq!(results[0].result, Err(RecoveryError::WaitFailed));
}

#[test]
fn mismatched_replacement_generation_releases_waiters() {
    let mut driver = attempting(policy());
    let _ = driver.resolve_dependency(connection(1), None, at(0));
    match driver.attempt_ended(
        GenerationId::new(2),
        AttemptResult::Started(connection(9)),
        at(1),
        Duration::zero(),
    ) {
        AttemptStep::Discard(error) => assert_eq!(error, RecoveryError::MismatchedGeneration),
        _ => panic!("must be discarded"),
    }
    let results = driver.fail_waiters();
    assert_eq!(results.len(), 1);
    assert_eq!(results[0].result, Err(RecoveryError::WaitFailed));
    assert!(matches!(
        driver.resolve_dependency(connection(1), None, at(1)),
        Ok(DependencyStep::Ready(token)) if token == connection(1)
    ));
}

#[test]
fn bootstrap_reporting_a_dropped_connection_ends_recovery_at_once() {
    let mut driver = attempting(policy());
    assert!(matches!(
        driver.attempt_ended(
            GenerationId::new(2),
            AttemptResult::Failed(RuntimeError::Closed),
            at(0),
            Duration::zero(),
        ),
        AttemptStep::End(RecoveryError::Closed)
    ));
    let _ = driver.fail_waiters();
    assert!(matches!(
        driver.resolve_dependency(connection(1), None, at(0)),
        Ok(DependencyStep::Ready(_))
    ));
}

#[test]
fn abandon_from_a_drop_ends_a_parked_recovery_and_releases_waiters() {
    let mut driver = attempting(policy());
    let _ = driver.resolve_dependency(connection(1), None, at(0));
    driver.abandon();
    assert!(matches!(
        driver.drive(None),
        DriveStep::End(RecoveryError::Closed)
    ));
    let results = driver.fail_waiters();
    assert_eq!(results[0].result, Err(RecoveryError::WaitFailed));
}

#[test]
fn connection_wait_deadline_and_cancel_remove_exact_entries() {
    let mut driver = attempting(policy());
    let mut ids = Vec::new();
    for deadline in [None, Some(at(1))] {
        match driver.resolve_dependency(connection(1), deadline, at(0)) {
            Ok(DependencyStep::Wait { id, .. }) => ids.push(id),
            _ => panic!("must wait"),
        }
    }
    assert_eq!(
        driver.remove_wait(ids[0], true),
        RecoveryError::WaitCancelled
    );
    assert_eq!(
        driver.remove_wait(ids[1], false),
        RecoveryError::WaitTimedOut
    );
    assert!(driver.close().is_empty());
}

#[test]
fn only_connections_are_waited_for() {
    let mut registry = ObjectRegistry::new(GenerationId::new(1));
    let session = registry
        .create_child(registry.connection(), ObjectKind::Session)
        .unwrap();
    let mut driver = attempting(policy());
    assert_eq!(
        driver.resolve_dependency(session, None, at(0)).err(),
        Some(RecoveryError::DependencyNotConnection)
    );
}

#[test]
fn closed_generations_are_not_recovered() {
    let mut driver = RecoveryDriver::new(connection(1), policy());
    let exit = GenerationExit {
        cause: GenerationExitCause::ExplicitClose,
        ..transport_exit()
    };
    assert_eq!(
        driver.recover(&exit, at(0)).err(),
        Some(RecoveryError::NotRecoverable)
    );
}

#[test]
fn jitter_stays_below_its_bound_and_varies() {
    let jitter = RandomRecoveryJitter::new(Duration::from_secs(3600));
    let waits: Vec<u128> = (1..17).map(|attempt| jitter.next(attempt).as_nanos()).collect();
    assert!(waits
        .iter()
        .all(|wait| *wait <= Duration::from_secs(3600).as_nanos()));
    assert!(waits.windows(2).any(|pair| pair[0] != pair[1]));
    assert!(RandomRecoveryJitter::new(Duration::zero()).next(1).is_zero());
}
