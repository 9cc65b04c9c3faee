use smb::clock::{Duration, MonotonicTime};
use smb::runtime::object_state::{
    CloseDecision, ObjectEffect, ObjectError, ObjectKind, ObjectRegistry, ObjectToken,
};
use smb::runtime::recovery_queue::{RecoveryQueue, RecoveryQueueError, RecoveryWaitOutcome};
use smb::runtime::reducer::GenerationId;

fn hierarchy() -> (ObjectRegistry, [ObjectToken; 4]) {
    let mut registry = ObjectRegistry::new(GenerationId::new(7));
    let connection = registry.connection();
    let session = registry.create_child(connection, ObjectKind::Session).unwrap();
    let share = registry.create_child(session, ObjectKind::Share).unwrap();
    let resource = registry.create_child(share, ObjectKind::Resource).unwrap();
    (registry, [connection, session, share, resource])
}

#[test]
fn hierarchy_rejects_skipped_parent_kinds() {
    let mut registry = ObjectRegistry::new(GenerationId::new(7));
    assert_eq!(
        registry.create_child(registry.connection(), ObjectKind::Resource),
        Err(ObjectError::InvalidParent)
    );
}

#[test]
fn parent_close_revokes_every_descendant_once() {
    let (mut registry, [_, session, share, resource]) = hierarchy();
    assert_eq!(
        registry.begin_close(session),
        Ok(CloseDecision::OwnProtocolClose)
    );
    assert_eq!(
        registry.begin_close(session),
        Ok(CloseDecision::AwaitExistingClose)
    );
    assert_eq!(
        registry.complete_close(session).unwrap(),
        vec![ObjectEffect::Revoked(share), ObjectEffect::Revoked(resource)]
    );
    assert!(registry.complete_close(session).unwrap().is_empty());
}

#[test]
fn generation_loss_is_atomic_idempotent_and_rejects_all_old_tokens() {
    let (mut registry, tokens) = hierarchy();
    assert_eq!(registry.lose_generation().len(), tokens.len());
    assert!(registry.lose_generation().is_empty());
    for token in tokens {
        assert_eq!(
            registry.validate_active(token),
            Err(ObjectError::ParentNotActive)
        );
    }
}

#[test]
fn replacement_publication_makes_previous_token_stale() {
    let (mut registry, [_, session, _, _]) = hierarchy();
    registry.begin_recovery(session).unwrap();
    let ObjectEffect::ReplacementPublished {
        previous,
        replacement,
    } = registry.publish_replacement(session).unwrap()
    else {
        panic!("expected replacement effect")
    };
    assert_eq!(previous, session);
    assert_eq!(registry.validate_active(previous), Err(ObjectError::Stale));
    assert_eq!(registry.validate_active(replacement), Ok(()));
}

#[test]
fn foreign_generation_is_rejected_before_registry_lookup() {
    let (registry, [_, session, _, _]) = hierarchy();
    let foreign = ObjectToken {
        generation: GenerationId::new(8),
        ..session
    };
    assert_eq!(
        registry.validate_active(foreign),
        Err(ObjectError::ForeignGeneration)
    );
}

#[test]
fn recovery_queue_is_bounded_and_preserves_fifo_on_atomic_publication() {
    let (mut registry, [_, session, share, resource]) = hierarchy();
    registry.begin_recovery(session).unwrap();
    let mut queue = RecoveryQueue::new(3);
    let first = queue.enqueue(session, None).unwrap();
    let second = queue.enqueue(share, None).unwrap();
    let third = queue.enqueue(resource, None).unwrap();
    assert_eq!(
        queue.enqueue(resource, None),
        Err(RecoveryQueueError::Full)
    );

    let replacement = registry.publish_replacement(session).unwrap();
    queue.publish_replacement(replacement);
    assert_eq!(
        queue.release_ready(&registry),
        vec![
            RecoveryWaitOutcome::Ready(first),
            RecoveryWaitOutcome::Ready(second),
            RecoveryWaitOutcome::Ready(third),
        ]
    );
}

#[test]
fn recovery_queue_cancel_and_deadline_remove_only_the_target_wait() {
    let (_, [_, session, share, _]) = hierarchy();
    let mut queue = RecoveryQueue::new(3);
    let cancelled = queue.enqueue(session, None).unwrap();
    let expired = queue
        .enqueue(
            share,
            Some(MonotonicTime::zero().saturating_add(Duration::from_secs(1))),
        )
        .unwrap();
    assert_eq!(
        queue.cancel(cancelled),
        Some(RecoveryWaitOutcome::Cancelled(cancelled))
    );
    assert_eq!(
        queue.advance_time(
            MonotonicTime::zero().saturating_add(Duration::from_secs(1))
        ),
        vec![RecoveryWaitOutcome::TimedOut(expired)]
    );
}

#[test]
fn ancestor_failure_drains_only_its_dependency_subtree() {
    let (mut registry, [connection, session, share, resource]) = hierarchy();
    let other_session = registry
        .create_child(connection, ObjectKind::Session)
        .unwrap();
    let mut queue = RecoveryQueue::new(4);
    let session_wait = queue.enqueue(session, None).unwrap();
    let share_wait = queue.enqueue(share, None).unwrap();
    let resource_wait = queue.enqueue(resource, None).unwrap();
    let other_wait = queue.enqueue(other_session, None).unwrap();
    assert_eq!(
        queue.drain_ancestor(&registry, session),
        vec![
            RecoveryWaitOutcome::AncestorFailed(session_wait),
            RecoveryWaitOutcome::AncestorFailed(share_wait),
            RecoveryWaitOutcome::AncestorFailed(resource_wait),
        ]
    );
    assert_eq!(
        queue.release_ready(&registry),
        vec![RecoveryWaitOutcome::Ready(other_wait)]
    );
}
