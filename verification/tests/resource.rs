use bytes::Bytes;
use smb::clock::Duration;
use smb::fscc::{
    CreateDisposition, FileAccessMask, FileAttributes, FileTime, OplockLevel, ShareType,
};
use smb::identity::{FileId, Guid};
use smb::protocol::Status;
use smb::resource::file::File;
use smb::resource::pipe::Pipe;
use smb::resource::reconnect::{
    DurableReconnect, ReconnectAction, ReconnectError, ReconnectEvent,
};
use smb::resource::{
    query_outcome, validate_create_parent_epoch, validate_durable_request, CreateAnswer,
    CreateContext, Currency, DurableOpenGrant, DurableOpenRequest, DurableSupport, FileCreateArgs,
    Negotiated, Resource, ResourceError, ResourceGeneration,
};
use smb::runtime::object_state::{ObjectEffect, ObjectKind, ObjectRegistry, ObjectToken};
use smb::runtime::recovery::RecoveryPolicy;
use smb::runtime::reducer::GenerationId;

#[test]
fn file_create_args_default_has_no_lease() {
    let args = FileCreateArgs::default();
    assert!(
        args.lease_request.is_none(),
        "default must not request a lease"
    );
}

#[test]
fn persistent_open_requires_negotiated_support_and_a_ca_share() {
    let request = DurableOpenRequest::persistent(30_000, Guid(7));
    assert!(validate_durable_request(request, true, true, true).is_ok());
    assert!(validate_durable_request(request, true, false, true).is_err());
    assert!(validate_durable_request(request, true, true, false).is_err());
    assert!(validate_durable_request(request, false, true, true).is_err());
}

#[test]
fn resource_detects_share_epoch_replacement_within_same_connection_generation() {
    let mut objects = ObjectRegistry::new(GenerationId::new(7));
    let connection = objects.connection();
    let session = objects
        .create_child(connection, ObjectKind::Session)
        .unwrap();
    let share = objects.create_child(session, ObjectKind::Share).unwrap();
    let object = objects.create_child(share, ObjectKind::Resource).unwrap();
    let resource = ResourceGeneration {
        file_id: Default::default(),
        object,
        share,
    };

    objects.begin_recovery(session).unwrap();
    let ObjectEffect::ReplacementPublished {
        replacement: replacement_session,
        ..
    } = objects.publish_replacement(session).unwrap()
    else {
        panic!("expected replacement session")
    };
    let replacement_share = objects
        .create_child(replacement_session, ObjectKind::Share)
        .unwrap();
    assert_eq!(share.generation(), replacement_share.generation());
    assert!(!resource.belongs_to(replacement_share));
    assert!(validate_create_parent_epoch(share, replacement_share).is_err());
}

fn token(generation: u64, id: u64) -> ObjectToken {
    ObjectToken {
        generation: GenerationId::new(generation),
        id,
        epoch: 0,
    }
}

const SUPPORT: DurableSupport = DurableSupport {
    smb3: true,
    persistent_handles: true,
    continuous_availability: true,
};

const NEGOTIATED: Negotiated = Negotiated {
    max_transact_size: 4096,
    max_read_size: 8192,
    max_write_size: 2048,
    default_transaction_size: 1024,
    dialect: 0x0311,
    dialect_compresses: true,
    compression_enabled: true,
};

fn answer() -> CreateAnswer {
    CreateAnswer {
        file_id: FileId {
            persistent: 5,
            volatile: 6,
        },
        attributes: FileAttributes::default(),
        oplock_level: OplockLevel::Unlocked,
        created: FileTime(1),
        accessed: FileTime(2),
        written: FileTime(3),
        changed: FileTime(4),
        end_of_file: 99,
        reparse_point: false,
        maximal_access: Some(FileAccessMask(3)),
        durable: None,
        on_disk_id: Some((7, 8)),
    }
}

fn opened(answer: &CreateAnswer, grant: Option<DurableOpenGrant>, share: ShareType) -> Resource {
    Resource::create(
        "dir\\file".to_owned(),
        answer,
        grant,
        token(1, 3),
        token(1, 2),
        share,
        NEGOTIATED,
    )
    .unwrap()
}

fn file() -> smb::resource::file::File {
    opened(&answer(), None, ShareType::Disk).into_file().ok().unwrap()
}

#[test]
fn create_requests_carry_their_contexts_in_order() {
    let args = FileCreateArgs::make_open_existing(FileAccessMask(1))
        .with_durable(DurableOpenRequest::persistent(30, Guid(9)))
        .with_timewarp(FileTime(77));
    let plan = Resource::plan_create("file", &args, ShareType::Disk, true, SUPPORT).unwrap();
    assert_eq!(plan.requested_oplock_level, OplockLevel::Batch);
    assert_eq!(plan.disposition, CreateDisposition::Open);
    assert!(plan.dfs);
    assert_eq!(
        plan.contexts,
        vec![
            CreateContext::QueryMaximalAccess,
            CreateContext::QueryOnDiskId,
            CreateContext::Timewarp(FileTime(77)),
            CreateContext::Durable(DurableOpenRequest::persistent(30, Guid(9))),
        ]
    );
}

#[test]
fn create_requests_are_refused_before_they_are_sent() {
    let refused = |name: &str, args: &FileCreateArgs, share: ShareType, support: DurableSupport| {
        Resource::plan_create(name, args, share, false, support).unwrap_err()
    };
    let plain = FileCreateArgs::default();
    assert_eq!(
        refused("job", &plain, ShareType::Print, SUPPORT),
        ResourceError::PrinterOnlyCreates
    );
    assert_eq!(
        refused("\\file", &plain, ShareType::Disk, SUPPORT),
        ResourceError::LeadingBackslash
    );
    let durable = plain.with_durable(DurableOpenRequest::persistent(1, Guid(1)));
    assert_eq!(
        refused(
            "file",
            &durable,
            ShareType::Disk,
            DurableSupport {
                smb3: false,
                ..SUPPORT
            }
        ),
        ResourceError::DurableUnsupported
    );
    assert_eq!(
        refused(
            "file",
            &durable,
            ShareType::Disk,
            DurableSupport {
                continuous_availability: false,
                ..SUPPORT
            }
        ),
        ResourceError::PersistentUnsupported
    );
}

#[test]
fn answers_are_held_to_what_was_asked_for() {
    let share = token(1, 2);
    let durable =
        FileCreateArgs::default().with_durable(DurableOpenRequest::persistent(1, Guid(4)));
    let granted = |durable_granted: Option<(u32, bool)>| {
        Resource::check_answer(
            &durable,
            share,
            share,
            &CreateAnswer {
                durable: durable_granted,
                ..answer()
            },
        )
    };
    assert_eq!(granted(None), Err(ResourceError::DurableNotGranted));
    assert_eq!(
        granted(Some((60, false))),
        Err(ResourceError::PersistentNotGranted)
    );
    assert_eq!(
        granted(Some((60, true))),
        Ok(Some(DurableOpenGrant {
            timeout: 60,
            persistent: true,
            create_guid: Guid(4),
        }))
    );
    assert_eq!(
        Resource::check_answer(&FileCreateArgs::default(), share, token(2, 2), &answer()),
        Err(ResourceError::StaleObject)
    );
}

#[test]
fn what_was_opened_decides_the_kind_of_resource() {
    assert!(matches!(
        opened(&answer(), None, ShareType::Disk),
        Resource::File(_)
    ));
    let directory = CreateAnswer {
        attributes: FileAttributes(0x10),
        ..answer()
    };
    assert!(matches!(
        opened(&directory, None, ShareType::Disk),
        Resource::Directory(_)
    ));
    assert!(matches!(
        opened(&answer(), None, ShareType::Pipe),
        Resource::Pipe(_)
    ));
    let (error, back) = opened(&directory, None, ShareType::Disk)
        .into_file()
        .err()
        .unwrap();
    assert_eq!(error, ResourceError::NotAFile);
    assert!(matches!(back, Resource::Directory(_)));
}

#[test]
fn opened_files_know_what_the_server_said() {
    let file = file();
    let handle = file.handle();
    assert_eq!(handle.name(), "dir\\file");
    assert_eq!(handle.opened().end_of_file(), 99);
    assert_eq!(handle.opened().file_id(), Some(7));
    assert_eq!(handle.opened().volume_id(), Some(8));
    assert_eq!(handle.opened().written(), FileTime(3));
    assert_eq!(file.end_of_file(), 99);
    assert_eq!(file.maximum_read_size(), 8192);
    assert_eq!(file.maximum_write_size(), 2048);
    assert_eq!(handle.calc_transact_size(None), 1024);
    assert_eq!(handle.calc_transact_size(Some(10)), 10);
    assert_eq!(handle.calc_transact_size(Some(1 << 20)), 4096);
}

#[test]
fn resources_are_closed_once() {
    let mut file = file();
    assert_eq!(file.handle().file_id(), Ok(answer().file_id));
    let handle = file.handle_mut();
    assert_eq!(handle.close(), Ok((answer().file_id, token(1, 3))));
    assert_eq!(handle.close(), Err(ResourceError::AlreadyClosed));
    assert_eq!(file.handle().file_id(), Err(ResourceError::Closed));
    assert_eq!(
        file.plan_read(1, 0, None, false),
        Err(ResourceError::Closed)
    );
}

#[test]
fn reads_and_writes_are_planned() {
    let file = file();
    let plan = file.plan_read(100, 7, Some(2), true).unwrap().unwrap();
    assert_eq!(
        (plan.length, plan.offset, plan.minimum_count, plan.channel),
        (100, 7, 1, Some(2))
    );
    assert!(plan.compressed && plan.unbuffered);
    assert_eq!(file.plan_read(0, 7, None, false), Ok(None));
    let write = file
        .plan_write(&Bytes::from_static(b"data"), 9, None)
        .unwrap()
        .unwrap();
    assert_eq!((write.length, write.offset), (4, 9));
    assert_eq!(file.plan_write(&Bytes::new(), 9, None), Ok(None));

    let unreadable = CreateAnswer {
        maximal_access: Some(FileAccessMask(0)),
        ..answer()
    };
    let file = opened(&unreadable, None, ShareType::Disk)
        .into_file()
        .ok()
        .unwrap();
    assert_eq!(
        file.plan_read(1, 0, None, false),
        Err(ResourceError::MissingPermissions)
    );
    assert_eq!(
        file.plan_write(&Bytes::from_static(b"x"), 0, None),
        Err(ResourceError::MissingPermissions)
    );
}

#[test]
fn read_data_shares_the_frame() {
    let raw = Bytes::from_static(b"header-payload");
    let data = File::read_data(Status::Success, &raw, 7, 14).unwrap();
    assert_eq!(data.as_ref(), b"payload");
    assert_eq!(data.as_ptr(), raw[7..].as_ptr());
    assert_eq!(File::read_data(Status::Success, &raw, 7, 15), None);
    assert_eq!(File::read_data(Status::Success, &raw, 8, 7), None);
    assert!(File::read_data(Status::EndOfFile, &raw, 7, 14)
        .unwrap()
        .is_empty());
}

#[test]
fn pipes_transact_whole_messages() {
    let pipe = opened(&answer(), None, ShareType::Pipe)
        .into_pipe()
        .ok()
        .unwrap();
    assert_eq!(pipe.plan_read(16).unwrap().unwrap().length, 16);
    assert_eq!(
        pipe.plan_write(&Bytes::from_static(b"abc"))
            .unwrap()
            .unwrap()
            .length,
        3
    );
    assert_eq!(
        Pipe::transact_request(&Bytes::from_static(b"ask")),
        b"ask".to_vec()
    );
    assert_eq!(Pipe::transact_response(b"reply").as_ref(), b"reply");
    assert!(Pipe::nothing().is_empty());
    assert_eq!(
        Pipe::read_data(&Bytes::from_static(b"0123"), 1, 3)
            .unwrap()
            .as_ref(),
        b"12"
    );
}

#[test]
fn query_answers_are_read_by_their_status() {
    assert_eq!(query_outcome(Status::Success, None, 5), Ok(()));
    assert_eq!(
        query_outcome(Status::BufferOverflow, Some(9), 5),
        Err(ResourceError::BufferTooSmall {
            required: Some(9),
            provided: 5,
        })
    );
    assert_eq!(
        query_outcome(Status::BufferTooSmall, Some(9), 5),
        Err(ResourceError::BufferTooSmall {
            required: None,
            provided: 5,
        })
    );
}

fn policy(max_attempts: u32) -> RecoveryPolicy {
    RecoveryPolicy {
        max_attempts,
        attempt_timeout: Duration::from_secs(1),
        total_timeout: Duration::from_secs(10),
        initial_backoff: Duration::from_secs(1),
        maximum_backoff: Duration::from_secs(3),
        maximum_jitter: Duration::zero(),
        max_waiting_operations: 1,
    }
}

#[test]
fn durable_resources_are_opened_again_on_the_new_share() {
    let old_share = token(1, 2);
    let new_share = token(2, 2);
    let mut reconnect: DurableReconnect<&str> = DurableReconnect::new(policy(2));
    assert!(matches!(
        reconnect.reduce(ReconnectEvent::Begin),
        ReconnectAction::LookUpShare
    ));
    let looked_up = || ReconnectEvent::Share {
        previous: old_share,
        current: new_share,
    };
    assert!(matches!(
        reconnect.reduce(looked_up()),
        ReconnectAction::Send
    ));
    let file_id = FileId {
        persistent: 8,
        volatile: 9,
    };
    assert!(matches!(
        reconnect.reduce(ReconnectEvent::Answered(file_id)),
        ReconnectAction::LookUpShare
    ));
    assert!(matches!(
        reconnect.reduce(looked_up()),
        ReconnectAction::MakeObject(share) if share == new_share
    ));
    match reconnect.reduce(ReconnectEvent::Object(token(2, 9))) {
        ReconnectAction::Adopt(generation) => assert_eq!(
            generation,
            ResourceGeneration {
                file_id,
                object: token(2, 9),
                share: new_share,
            }
        ),
        other => panic!("not adopted: {other:?}"),
    }
    assert!(matches!(
        reconnect.reduce(ReconnectEvent::Begin),
        ReconnectAction::Ignore
    ));
}

#[test]
fn reconnects_give_up_after_their_attempts() {
    let mut reconnect: DurableReconnect<&str> = DurableReconnect::new(policy(3));
    let _ = reconnect.reduce(ReconnectEvent::Begin);
    let slept: Vec<Duration> = (0..2)
        .map(|_| {
            let action = reconnect.reduce(ReconnectEvent::Failed("lost"));
            let _ = reconnect.reduce(ReconnectEvent::Slept);
            match action {
                ReconnectAction::Sleep(delay) => delay,
                other => panic!("no delay: {other:?}"),
            }
        })
        .collect();
    assert_eq!(slept, vec![Duration::from_secs(1), Duration::from_secs(2)]);
    assert!(matches!(
        reconnect.reduce(ReconnectEvent::Failed("gone")),
        ReconnectAction::GiveUp(Some(ReconnectError::Attempt("gone")))
    ));

    let mut disabled: DurableReconnect<&str> = DurableReconnect::new(policy(0));
    assert!(matches!(
        disabled.reduce(ReconnectEvent::Begin),
        ReconnectAction::GiveUp(None)
    ));
}

#[test]
fn answers_from_a_share_that_is_gone_open_nothing() {
    let mut reconnect: DurableReconnect<&str> = DurableReconnect::new(policy(1));
    let _ = reconnect.reduce(ReconnectEvent::Begin);
    let _ = reconnect.reduce(ReconnectEvent::Share {
        previous: token(1, 2),
        current: token(2, 2),
    });
    let _ = reconnect.reduce(ReconnectEvent::Answered(FileId::default()));
    assert!(matches!(
        reconnect.reduce(ReconnectEvent::Share {
            previous: token(1, 2),
            current: token(3, 2),
        }),
        ReconnectAction::GiveUp(Some(ReconnectError::ShareChanged))
    ));
}

#[test]
fn currency_follows_the_share() {
    let grant = DurableOpenGrant {
        timeout: 1,
        persistent: false,
        create_guid: Guid(3),
    };
    let durable = opened(&answer(), Some(grant), ShareType::Disk)
        .into_file()
        .ok()
        .unwrap();
    assert_eq!(
        durable.handle().currency(token(1, 2)),
        Ok(Currency::Current)
    );
    assert_eq!(
        durable.handle().currency(token(2, 2)),
        Ok(Currency::Reconnect(grant))
    );
    assert_eq!(
        file().handle().currency(token(2, 2)),
        Err(ResourceError::StaleShareGeneration)
    );
    let request = durable.handle().reconnect_request(&grant);
    assert_eq!(
        request.contexts,
        vec![CreateContext::DurableReconnect {
            file_id: answer().file_id,
            create_guid: Guid(3),
            persistent: false,
        }]
    );
}
