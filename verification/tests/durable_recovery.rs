use smb::clock::{Duration, MonotonicTime};
use smb::identity::{FileId, Guid};
use smb::runtime::durable_recovery::{
    DurableIdentity, DurableRecoveryCoordinator, DurableRecoveryEffect, DurableRecoveryEvent,
    DurableRecoveryPolicy,
};
use smb::runtime::object_state::{ObjectKind, ObjectRegistry, ObjectToken};
use smb::runtime::reducer::GenerationId;

fn objects(generation: u64) -> (ObjectToken, ObjectToken) {
    let mut objects = ObjectRegistry::new(GenerationId::new(generation));
    let connection = objects.connection();
    let session = objects.create_child(connection, ObjectKind::Session).unwrap();
    let share = objects.create_child(session, ObjectKind::Share).unwrap();
    let resource = objects.create_child(share, ObjectKind::Resource).unwrap();
    (share, resource)
}

fn identity(file: u64) -> DurableIdentity {
    DurableIdentity {
        file_id: FileId {
            persistent: file,
            volatile: file + 1,
        },
        create_guid: Guid(7),
        persistent: false,
    }
}

fn policy() -> DurableRecoveryPolicy {
    DurableRecoveryPolicy {
        max_attempts: 2,
        attempt_timeout: Duration::from_secs(3),
    }
}

#[test]
fn validated_identity_publishes_a_resource_in_the_target_generation() {
    let (_, previous) = objects(1);
    let (share, replacement) = objects(2);
    let mut recovery = DurableRecoveryCoordinator::new(previous, identity(10), policy());
    assert!(matches!(
        recovery.reduce(DurableRecoveryEvent::ShareReplaced {
            share,
            now: MonotonicTime::zero(),
        }),
        Some(DurableRecoveryEffect::StartReconnect { attempt: 1, .. })
    ));
    let candidate = identity(20);
    assert!(matches!(
        recovery.reduce(DurableRecoveryEvent::AttemptSucceeded {
            share,
            resource: replacement,
            identity: candidate,
        }),
        Some(DurableRecoveryEffect::PublishResource {
            replacement: found,
            identity: found_identity,
            ..
        }) if found == replacement && found_identity == candidate
    ));
}

#[test]
fn mismatched_guid_persistence_and_generation_are_rejected() {
    let (_, previous) = objects(1);
    let (share, replacement) = objects(2);
    let (_, foreign) = objects(3);
    let mut recovery = DurableRecoveryCoordinator::new(previous, identity(10), policy());
    recovery.reduce(DurableRecoveryEvent::ShareReplaced {
        share,
        now: MonotonicTime::zero(),
    });
    let mut wrong_guid = identity(20);
    wrong_guid.create_guid = Guid(8);
    assert!(recovery
        .reduce(DurableRecoveryEvent::AttemptSucceeded {
            share,
            resource: replacement,
            identity: wrong_guid,
        })
        .is_none());
    let mut wrong_persistence = identity(20);
    wrong_persistence.persistent = true;
    assert!(recovery
        .reduce(DurableRecoveryEvent::AttemptSucceeded {
            share,
            resource: replacement,
            identity: wrong_persistence,
        })
        .is_none());
    assert!(recovery
        .reduce(DurableRecoveryEvent::AttemptSucceeded {
            share,
            resource: foreign,
            identity: identity(20),
        })
        .is_none());
}

#[test]
fn retry_consecutive_parent_replacement_and_close_are_first_wins() {
    let (_, previous) = objects(1);
    let (second, _) = objects(2);
    let (third, _) = objects(3);
    let mut recovery = DurableRecoveryCoordinator::new(previous, identity(10), policy());
    recovery.reduce(DurableRecoveryEvent::ShareReplaced {
        share: second,
        now: MonotonicTime::zero(),
    });
    assert!(matches!(
        recovery.reduce(DurableRecoveryEvent::AttemptFailed {
            share: second,
            now: MonotonicTime::zero(),
        }),
        Some(DurableRecoveryEffect::StartReconnect { attempt: 2, .. })
    ));
    assert!(matches!(
        recovery.reduce(DurableRecoveryEvent::ShareReplaced {
            share: third,
            now: MonotonicTime::zero(),
        }),
        Some(DurableRecoveryEffect::StartReconnect {
            share,
            attempt: 1,
            ..
        }) if share == third
    ));
    assert_eq!(
        recovery.reduce(DurableRecoveryEvent::Close),
        Some(DurableRecoveryEffect::Closed)
    );
    assert!(recovery
        .reduce(DurableRecoveryEvent::AttemptFailed {
            share: third,
            now: MonotonicTime::zero(),
        })
        .is_none());
}
