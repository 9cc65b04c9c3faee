use smb::clock::Duration;
use smb::fscc::{FileAttributes, FileTime, OplockLevel, ShareType};
use smb::identity::FileId;
use smb::protocol::Status;
use smb::resource::directory::Directory;
use smb::resource::file::{File, FileOperationOptions};
use smb::resource::info::{InfoSubject, QueryInfoFlags};
use smb::resource::pipe::{Pipe, FSCTL_PIPE_TRANSCEIVE};
use smb::resource::{CreateAnswer, Negotiated, Resource, ResourceError};
use smb::runtime::object_state::ObjectToken;
use smb::runtime::operation::ReplayPolicy;
use smb::runtime::port::{
    delete, len, previous_versions, query_security_selection, rename, set_security_selection,
    FSCTL_SRV_ENUMERATE_SNAPSHOTS,
};
use smb::runtime::reducer::GenerationId;

const ID: FileId = FileId {
    persistent: 1,
    volatile: 2,
};

fn opened(attributes: u32, share_type: ShareType) -> Resource {
    let token = ObjectToken {
        generation: GenerationId::new(1),
        id: 2,
        epoch: 0,
    };
    Resource::create(
        "name".to_owned(),
        &CreateAnswer {
            file_id: ID,
            attributes: FileAttributes(attributes),
            oplock_level: OplockLevel::Unlocked,
            created: FileTime(1),
            accessed: FileTime(2),
            written: FileTime(3),
            changed: FileTime(4),
            end_of_file: 0,
            reparse_point: false,
            maximal_access: None,
            durable: None,
            on_disk_id: None,
        },
        None,
        token,
        token,
        share_type,
        Negotiated {
            max_transact_size: 4096,
            max_read_size: 1,
            max_write_size: 1,
            default_transaction_size: 1024,
            dialect: 0x0300,
            dialect_compresses: false,
            compression_enabled: true,
        },
    )
    .unwrap()
}

fn file() -> File {
    opened(0, ShareType::Disk).into_file().ok().unwrap()
}

fn pipe() -> Pipe {
    opened(0, ShareType::Pipe).into_pipe().ok().unwrap()
}

fn directory() -> Directory {
    opened(0x10, ShareType::Disk).into_directory().ok().unwrap()
}

const SCAN: QueryInfoFlags = QueryInfoFlags {
    restart_scan: true,
    return_single_entry: true,
    index_specified: false,
};

#[test]
fn queries_ask_for_no_more_than_a_transaction_carries() {
    let file = file();
    let handle = file.handle();
    let usual = handle.query_info(5).unwrap();
    assert_eq!(usual.subject, InfoSubject::File { class: 5 });
    assert_eq!(usual.file_id, ID);
    assert_eq!(usual.output_buffer_length, 1024);
    let large = handle.query_info_with_options(4, SCAN, Some(9000)).unwrap();
    assert_eq!(large.output_buffer_length, 4096);
    assert_eq!(large.flags, SCAN);
    let small = handle.query_info_with_options(4, SCAN, Some(10)).unwrap();
    assert_eq!(small.output_buffer_length, 10);
}

#[test]
fn query_answers_say_what_they_would_need() {
    let plan = file().handle().query_info(4).unwrap();
    assert!(plan.accepts_status(Status::BufferTooSmall));
    assert!(!plan.accepts_status(Status::AccessDenied));
    assert_eq!(plan.outcome(Status::Success, None), Ok(()));
    assert_eq!(
        plan.outcome(Status::InfoLengthMismatch, Some(7)),
        Err(ResourceError::BufferTooSmall {
            required: Some(7),
            provided: 1024,
        })
    );
    assert_eq!(
        plan.outcome(Status::BufferTooSmall, Some(7)),
        Err(ResourceError::BufferTooSmall {
            required: None,
            provided: 1024,
        })
    );
    assert_eq!(
        plan.outcome(Status::AccessDenied, None),
        Err(ResourceError::UnexpectedStatus(Status::AccessDenied))
    );
}

#[test]
fn security_is_asked_and_set_in_parts() {
    let file = file();
    let asked = file
        .handle()
        .query_security_info(query_security_selection(true))
        .unwrap();
    assert_eq!(asked.subject, InfoSubject::Security);
    assert!(asked.additional_info.dacl);
    let bounded = file
        .handle()
        .query_security_info_with_options(query_security_selection(true), Some(1))
        .unwrap();
    assert_eq!(bounded.output_buffer_length, 1);
    let set = file
        .handle()
        .set_security_info(set_security_selection(true, true))
        .unwrap();
    assert!(set.additional_info.protected_dacl);
    assert_eq!(set.subject, InfoSubject::Security);
}

#[test]
fn quotas_are_asked_of_directories() {
    let directory = directory();
    let plan = directory.query_quota_info(true, false, 40).unwrap();
    assert_eq!(plan.subject, InfoSubject::Quota);
    assert!(plan.flags.restart_scan);
    assert!(!plan.flags.return_single_entry);
    assert_eq!(
        directory.query_quota_info_with_options(true, true, Some(39), 40),
        Err(ResourceError::BufferTooSmall {
            required: Some(40),
            provided: 39,
        })
    );
}

#[test]
fn control_requests_return_none_of_their_input() {
    let file = file();
    let plan = previous_versions(&file).unwrap();
    assert_eq!(plan.control_code, FSCTL_SRV_ENUMERATE_SNAPSHOTS);
    assert_eq!(plan.max_input_response, 0);
    assert_eq!(plan.max_output_response, 64 * 1024);
    assert!(plan.is_fsctl);
    assert_eq!(plan.options.replay, ReplayPolicy::NeverReplay);
    let options = FileOperationOptions {
        timeout: Some(Duration::from_secs(2)),
        replay: ReplayPolicy::NeverReplay,
    };
    let plan = pipe().plan_transact(100, options).unwrap();
    assert_eq!(plan.control_code, FSCTL_PIPE_TRANSCEIVE);
    assert_eq!(plan.max_output_response, 100);
    assert_eq!(plan.options, options);
}

#[test]
fn resources_are_renamed_and_deleted_through_their_handles() {
    let file = file();
    let plan = rename(file.handle(), "other", true).unwrap();
    assert_eq!(plan.file_name, "other");
    assert!(plan.replace_if_exists);
    assert_eq!(plan.root_directory, 0);
    assert_eq!(plan.set.subject, InfoSubject::File { class: 10 });
    let plan = delete(file.handle()).unwrap();
    assert_eq!(plan.subject, InfoSubject::File { class: 13 });
    assert_eq!(len(&file).unwrap().subject, InfoSubject::File { class: 5 });
    assert_eq!(file.flush(), Ok(ID));
}

#[test]
fn closed_resources_are_asked_nothing() {
    let mut file = file();
    assert!(file.handle_mut().close().is_ok());
    assert_eq!(file.flush(), Err(ResourceError::Closed));
    assert_eq!(file.handle().query_info(4), Err(ResourceError::Closed));
    assert_eq!(file.handle().set_info(4), Err(ResourceError::Closed));
    assert_eq!(
        file.handle().fsctl_with_options(1, 2),
        Err(ResourceError::Closed)
    );
    assert_eq!(delete(file.handle()), Err(ResourceError::Closed));
    assert_eq!(
        rename(file.handle(), "x", false),
        Err(ResourceError::Closed)
    );
}
