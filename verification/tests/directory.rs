use smb::clock::Duration;
use smb::fscc::{FileAccessMask, FileAttributes, FileTime, OplockLevel, ShareType};
use smb::identity::{FileId, Guid};
use smb::protocol::Status;
use smb::resource::directory::{
    listing_outcome, publish_change, watch_outcome, watch_stream_step, Directory,
    DirectoryWatchResult, FileNotifyInformation, Handed, ListingStep, NotifyAction,
    PublishStep, WatchStep, WatchStreamStep, WATCH_EVENT_CAPACITY,
};
use smb::resource::{CreateAnswer, DurableOpenGrant, Negotiated, Resource, ResourceError, ResourceKind};
use smb::runtime::object_state::ObjectToken;
use smb::runtime::port::{
    event_kind, expect_kind, identifier, low_identifier, metadata, open_directory_args,
    open_file_args, open_metadata_args, open_resource_args, open_version_args, opened_metadata,
    path_security_outcome, persistent_granted, probe_class, query_security_selection,
    runtime_entry, security_resource_access, session_close_outcome, set_security_selection,
    EntryTimes, FirstAnswer, ListingClass, OpenMode, PortError, ProbeStep,
    RuntimeDirectoryEventKind,
};
use smb::runtime::reducer::GenerationId;

fn directory(access: u32) -> Directory {
    let token = ObjectToken {
        generation: GenerationId::new(1),
        id: 2,
        epoch: 0,
    };
    Resource::create(
        "dir".to_owned(),
        &CreateAnswer {
            file_id: FileId {
                persistent: 1,
                volatile: 2,
            },
            attributes: FileAttributes(0x10),
            oplock_level: OplockLevel::Unlocked,
            created: FileTime(1),
            accessed: FileTime(2),
            written: FileTime(3),
            changed: FileTime(4),
            end_of_file: 0,
            reparse_point: true,
            maximal_access: Some(FileAccessMask(access)),
            durable: None,
            on_disk_id: Some((0, 9)),
        },
        None,
        token,
        token,
        ShareType::Disk,
        Negotiated {
            max_transact_size: 4096,
            max_read_size: 1,
            max_write_size: 1,
            default_transaction_size: 1024,
            dialect: 0x0300,
            dialect_compresses: false,
            compression_enabled: true,
        },
    )
    .unwrap()
    .into_directory()
    .ok()
    .unwrap()
}

const TIMES: EntryTimes = EntryTimes {
    created: FileTime(1),
    accessed: FileTime(2),
    written: FileTime(3),
    changed: FileTime(4),
};

#[test]
fn listings_are_planned_within_bounds() {
    let listed = directory(1);
    let plan = listed.send_query(true, 4096).unwrap();
    assert!(plan.restart);
    assert_eq!(plan.output_buffer_length, 4096);
    assert_eq!(
        listed.send_query(false, 4097),
        Err(ResourceError::BufferTooLarge {
            requested: 4097,
            maximum: 4096,
        })
    );
    assert_eq!(listed.query("*".to_owned()).buffer_size(), 4096);
    let stream = listed.query_with_options("*.rs".to_owned(), 64);
    assert_eq!(stream.buffer_size(), 64);
    assert_eq!(stream.pattern(), "*.rs");
    assert_eq!(
        directory(0).send_query(true, 64),
        Err(ResourceError::MissingPermissions)
    );
    let watched = listed.watch(0xfff, true).unwrap();
    assert!(watched.recursive);
    assert_eq!(watched.filter, 0xfff);
    assert_eq!(watched.timeout, Duration::max());
    let short = listed
        .watch_timeout(1, false, Duration::from_secs(3))
        .unwrap();
    assert_eq!(short.timeout, Duration::from_secs(3));
    assert_eq!(
        directory(0).watch(1, false),
        Err(ResourceError::MissingPermissions)
    );
}

#[test]
fn listings_begin_once_and_end_with_nothing() {
    let mut scan = directory(1).query("*".to_owned());
    assert_eq!(scan.next_request(), Some(true));
    scan.answered(Ok(3));
    assert_eq!(scan.next_request(), Some(false));
    scan.answered(Err(ResourceError::Closed));
    assert_eq!(scan.next_request(), Some(false));
    scan.answered(Ok(0));
    assert_eq!(scan.next_request(), None);
}

#[test]
fn listing_answers_are_read_by_their_status() {
    assert_eq!(
        listing_outcome(Status::Success, 8),
        Ok(ListingStep::Entries)
    );
    assert_eq!(listing_outcome(Status::NoMoreFiles, 8), Ok(ListingStep::End));
    assert_eq!(
        listing_outcome(Status::InfoLengthMismatch, 8),
        Err(ResourceError::QueryBufferTooSmall { buffer_size: 8 })
    );
    assert_eq!(
        listing_outcome(Status::AccessDenied, 8),
        Err(ResourceError::UnexpectedStatus(Status::AccessDenied))
    );
}

#[test]
fn consumer_lag_cancels_watch_and_reports_typed_overflow() {
    assert_eq!(publish_change(Handed::Taken, 1), PublishStep::Continue);
    assert_eq!(
        publish_change(Handed::Full, 1),
        PublishStep::Stop {
            report: Some(ResourceError::EventQueueOverflow { capacity: 1 }),
        }
    );
    assert_eq!(
        publish_change(Handed::Closed, 1),
        PublishStep::Stop { report: None }
    );
    assert_eq!(WATCH_EVENT_CAPACITY, 1024);
}

#[test]
fn watches_end_in_silence_only_where_asked() {
    assert_eq!(
        watch_outcome(Status::NotifyEnumDir, 64),
        WatchStep::NotifyEnumDir { provided_size: 64 }
    );
    assert_eq!(
        watch_stream_step(watch_outcome(Status::Cancelled, 64), false, false),
        WatchStreamStep::Fail(ResourceError::Cancelled)
    );
    assert_eq!(
        watch_stream_step(WatchStep::Cancelled, true, false),
        WatchStreamStep::End
    );
    assert_eq!(
        watch_stream_step(watch_outcome(Status::NotifyCleanup, 64), false, false),
        WatchStreamStep::End
    );
    assert_eq!(
        watch_stream_step(watch_outcome(Status::Success, 64), false, false),
        WatchStreamStep::Publish
    );
    assert_eq!(
        watch_stream_step(watch_outcome(Status::NotifyEnumDir, 64), false, false),
        WatchStreamStep::Fail(ResourceError::BufferTooSmall {
            required: None,
            provided: 64,
        })
    );
}

#[test]
fn watch_results_are_changes_or_errors() {
    let change = FileNotifyInformation {
        action: NotifyAction::Added,
        file_name: "new".to_owned(),
    };
    let result = DirectoryWatchResult::Notifications(vec![change]).into_result();
    assert_eq!(result.unwrap()[0].file_name, "new");
    assert_eq!(
        DirectoryWatchResult::Cleanup.into_result(),
        Err(ResourceError::CleanedUp)
    );
    assert_eq!(
        DirectoryWatchResult::Cancelled.into_result(),
        Err(ResourceError::Cancelled)
    );
}

#[test]
fn quota_buffers_have_a_least_size() {
    assert_eq!(Directory::check_quota_buffer(None, 40), Ok(()));
    assert_eq!(Directory::check_quota_buffer(Some(40), 40), Ok(()));
    assert_eq!(
        Directory::check_quota_buffer(Some(39), 40),
        Err(ResourceError::BufferTooSmall {
            required: Some(40),
            provided: 39,
        })
    );
}

#[test]
fn opens_ask_for_no_more_than_they_need() {
    let args = open_file_args(OpenMode::CreateNew, Some((30, Guid(5))));
    assert_eq!(args.desired_access.0, 0xc001_0000);
    assert!(args.durable_request.unwrap().persistent);
    assert_eq!(
        open_file_args(OpenMode::OpenExisting, None).durable_request,
        None
    );
    assert_eq!(open_version_args(8).timewarp, Some(FileTime(8)));
    assert_eq!(open_directory_args(true).attributes.0, 0x10);
    assert_eq!(open_directory_args(false).options.0, 1);
    assert_eq!(open_resource_args().desired_access.0, 0x8000_0000);
    assert_eq!(open_metadata_args(true).desired_access.0, 0x180);
    assert_eq!(open_metadata_args(false).options.0, 0x20_0000);
    assert_eq!(security_resource_access(true, true).0, 0x6_0000);
    assert_eq!(
        expect_kind(ResourceKind::Pipe, ResourceKind::File),
        Err(PortError::UnexpectedKind)
    );
}

#[test]
fn narrower_classes_are_tried_only_where_the_server_does_not_know_better() {
    let unknown = FirstAnswer::Refused(Status::InvalidInfoClass);
    assert_eq!(
        probe_class(ListingClass::IdFull, unknown),
        ProbeStep::TryNext(ListingClass::IdExtd)
    );
    assert_eq!(
        probe_class(ListingClass::IdExtd, unknown),
        ProbeStep::TryNext(ListingClass::Plain)
    );
    assert_eq!(
        probe_class(ListingClass::IdFull, FirstAnswer::Refused(Status::AccessDenied)),
        ProbeStep::Fail(Status::AccessDenied)
    );
    assert_eq!(
        probe_class(ListingClass::IdFull, FirstAnswer::Nothing),
        ProbeStep::Use
    );
}

#[test]
fn entries_and_metadata_are_told_alike() {
    let entry = runtime_entry("a".to_owned(), FileAttributes(0x411), 5, TIMES, identifier(0));
    assert!(entry.is_directory && entry.readonly && entry.reparse_point);
    assert_eq!(entry.file_id, None);
    assert_eq!(identifier(4), Some(4));
    assert_eq!(low_identifier((1 << 64) + 6), Some(6));
    let directory = directory(1);
    let opened = directory.handle().opened();
    let told = opened_metadata(opened);
    assert!(told.reparse_point);
    assert_eq!((told.file_id, told.volume_id), (None, Some(9)));
    assert_eq!(told.times, TIMES);
    let asked = metadata(TIMES, FileAttributes(1), 7, opened);
    assert!(asked.readonly && !asked.reparse_point);
    assert_eq!(asked.len, 7);
    assert_eq!(
        event_kind(NotifyAction::RemovedByDelete),
        RuntimeDirectoryEventKind::Removed
    );
    assert_eq!(
        event_kind(NotifyAction::TunnelledIdCollision),
        RuntimeDirectoryEventKind::IdentifierCollision
    );
}

#[test]
fn security_is_selected_and_its_failures_are_told() {
    assert!(query_security_selection(true).dacl);
    let selection = set_security_selection(true, true);
    assert!(selection.dacl && selection.protected_dacl && !selection.unprotected_dacl);
    assert_eq!(path_security_outcome::<u8, &str>(Ok(1), Err("close")), Err("close"));
    assert_eq!(
        path_security_outcome::<u8, &str>(Err("query"), Err("close")),
        Err("query")
    );
    assert_eq!(path_security_outcome::<u8, &str>(Ok(1), Ok(())), Ok(1));
    assert!(persistent_granted(Some(DurableOpenGrant {
        timeout: 1,
        persistent: true,
        create_guid: Guid(1),
    })));
    assert!(!persistent_granted(None));
}

#[test]
fn closing_a_session_tells_the_first_failure() {
    assert_eq!(
        session_close_outcome(vec![Ok(()), Err("first"), Err("second")], Err("logoff")),
        Err("first")
    );
    assert_eq!(
        session_close_outcome(vec![Ok(())], Err("logoff")),
        Err("logoff")
    );
    assert_eq!(session_close_outcome::<&str>(vec![], Ok(())), Ok(()));
}
