//! What the domain layer asks of the protocol: how resources are opened,
//! and how what comes back is read.

use crate::fscc::{
    has_bit, CreateOptions, FileAccessMask, FileAttributes, FileTime, ATTRIBUTE_DIRECTORY,
    ATTRIBUTE_READONLY, ATTRIBUTE_REPARSE_POINT, OPTION_DIRECTORY_FILE, OPTION_OPEN_REPARSE_POINT,
};
use crate::identity::Guid;
use crate::protocol::Status;
use crate::resource::directory::NotifyAction;
use crate::resource::file::{File, FileOperationOptions};
use crate::resource::info::{
    no_flags, no_selection, query_of, InfoSubject, IoctlPlan, QueryInfoPlan, SetInfoPlan,
};
use crate::resource::{
    plain_args, DurableOpenGrant, DurableOpenRequest, FileCreateArgs, HandleView, OpenedFacts,
    OpenedView, ResourceError, ResourceHandle, ResourceKind,
};
use crate::runtime::operation::ReplayPolicy;
use crate::signing::{GuestPolicy, SigningPolicy};
use vstd::prelude::*;

verus! {

#[derive(Clone, Copy, Debug, PartialEq, Eq, Structural)]
pub enum OpenMode {
    CreateNew,
    OpenExisting,
    Overwrite,
}

/// How connections are made.
#[derive(Clone, Copy, Debug, PartialEq, Eq, Structural)]
pub struct ConnectionConfig {
    pub signing_policy: SigningPolicy,
    pub allow_unsigned_guest_access: bool,
    /// Whether negotiation begins with the current protocol, instead of the
    /// older one that announces it.
    pub smb2_only_negotiate: bool,
}

impl Default for ConnectionConfig {
    fn default() -> (config: Self)
        ensures
            config == (ConnectionConfig {
                signing_policy: SigningPolicy::Required,
                allow_unsigned_guest_access: false,
                smb2_only_negotiate: false,
            }),
    {
        ConnectionConfig {
            signing_policy: SigningPolicy::Required,
            allow_unsigned_guest_access: false,
            smb2_only_negotiate: false,
        }
    }
}

#[derive(Clone, Copy, Debug, PartialEq, Eq, Structural)]
pub struct ProtocolClientConfig {
    pub connection: ConnectionConfig,
}

impl Default for ProtocolClientConfig {
    fn default() -> (config: Self)
        ensures
            config.connection == (ConnectionConfig {
                signing_policy: SigningPolicy::Required,
                allow_unsigned_guest_access: false,
                smb2_only_negotiate: false,
            }),
    {
        ProtocolClientConfig { connection: ConnectionConfig::default() }
    }
}

/// The configuration behind every client: negotiation never begins with the
/// older protocol, which costs a round trip and which many servers refuse.
pub fn client_config(signing: SigningPolicy, guest: GuestPolicy) -> (config: ProtocolClientConfig)
    ensures
        config.connection == (ConnectionConfig {
            signing_policy: signing,
            allow_unsigned_guest_access: guest == GuestPolicy::AllowUnsigned,
            smb2_only_negotiate: true,
        }),
{
    let mut config = ProtocolClientConfig::default();
    config.connection.signing_policy = signing;
    config.connection.allow_unsigned_guest_access = guest.allows_unsigned();
    config.connection.smb2_only_negotiate = true;
    config
}

/// Why a request of the domain layer fails.
#[derive(Clone, Copy, Debug, PartialEq, Eq, Structural)]
pub enum PortError {
    /// The server opened another kind of resource than was asked for.
    UnexpectedKind,
    /// The resource was closed before.
    AlreadyClosed,
    Resource(ResourceError),
}

/// The arguments that open a file in a mode.
pub open spec fn mode_args(mode: OpenMode) -> FileCreateArgs {
    let access = FileAccessMask(0xc001_0000);
    plain_args(
        match mode {
            OpenMode::CreateNew => crate::fscc::CreateDisposition::Create,
            OpenMode::OpenExisting => crate::fscc::CreateDisposition::Open,
            OpenMode::Overwrite => crate::fscc::CreateDisposition::OverwriteIf,
        },
        FileAttributes(0),
        CreateOptions(0),
        access,
    )
}

/// How a file is opened. A timeout asks for a persistent open, under an
/// identifier of its own.
pub fn open_file_args(mode: OpenMode, persistent: Option<(u32, Guid)>) -> (args: FileCreateArgs)
    ensures
        args == (FileCreateArgs {
            durable_request: match persistent {
                Some((timeout, create_guid)) => Some(
                    DurableOpenRequest { timeout, create_guid, persistent: true },
                ),
                None => None,
            },
            ..mode_args(mode)
        }),
        mode is CreateNew ==> args.disposition == crate::fscc::CreateDisposition::Create,
        mode is OpenExisting ==> args.disposition == crate::fscc::CreateDisposition::Open,
        mode is Overwrite ==> args.disposition == crate::fscc::CreateDisposition::OverwriteIf,
        args.desired_access == FileAccessMask(0xc001_0000),
        args.attributes == FileAttributes(0),
        args.options == CreateOptions(0),
        args.lease_request is None,
        args.timewarp is None,
{
    let args = match mode {
        OpenMode::CreateNew => FileCreateArgs::make_create_new(
            FileAttributes(0),
            CreateOptions(0),
        ),
        OpenMode::OpenExisting => FileCreateArgs::make_open_existing(FileAccessMask::changing()),
        OpenMode::Overwrite => FileCreateArgs::make_overwrite(FileAttributes(0), CreateOptions(0)),
    };
    match persistent {
        Some((timeout, create_guid)) => args.with_durable(
            DurableOpenRequest::persistent(timeout, create_guid),
        ),
        None => args,
    }
}

/// How a previous version of a file is opened.
pub fn open_version_args(timestamp: u64) -> (args: FileCreateArgs)
    ensures
        args == (FileCreateArgs {
            timewarp: Some(FileTime(timestamp)),
            ..plain_args(
                crate::fscc::CreateDisposition::Open,
                FileAttributes(0),
                CreateOptions(0),
                FileAccessMask(0x8000_0000),
            )
        }),
        args.disposition == crate::fscc::CreateDisposition::Open,
        args.desired_access == FileAccessMask(0x8000_0000),
        args.timewarp == Some(FileTime(timestamp)),
        args.durable_request is None,
        args.lease_request is None,
{
    FileCreateArgs::make_open_existing(FileAccessMask::reading()).with_timewarp(
        FileTime(timestamp),
    )
}

/// How a directory is opened, or created.
pub fn open_directory_args(create: bool) -> (args: FileCreateArgs)
    ensures
        args == plain_args(
            if create {
                crate::fscc::CreateDisposition::Create
            } else {
                crate::fscc::CreateDisposition::Open
            },
            FileAttributes(
                if create {
                    ATTRIBUTE_DIRECTORY
                } else {
                    0
                },
            ),
            CreateOptions(OPTION_DIRECTORY_FILE),
            FileAccessMask(0xc001_0000),
        ),
        args.disposition == if create {
            crate::fscc::CreateDisposition::Create
        } else {
            crate::fscc::CreateDisposition::Open
        },
        args.options == CreateOptions(1),
        args.attributes == FileAttributes(
            if create {
                0x10
            } else {
                0
            },
        ),
        args.durable_request is None,
        args.timewarp is None,
{
    if create {
        FileCreateArgs::make_create_new(
            FileAttributes(ATTRIBUTE_DIRECTORY),
            CreateOptions(OPTION_DIRECTORY_FILE),
        )
    } else {
        let args = FileCreateArgs::make_open_existing(FileAccessMask::changing());
        FileCreateArgs { options: CreateOptions(OPTION_DIRECTORY_FILE), ..args }
    }
}

/// How a resource is opened to be looked at.
pub fn open_resource_args() -> (args: FileCreateArgs)
    ensures
        args == plain_args(
            crate::fscc::CreateDisposition::Open,
            FileAttributes(0),
            CreateOptions(0),
            FileAccessMask(0x8000_0000),
        ),
        args.disposition == crate::fscc::CreateDisposition::Open,
        args.desired_access == FileAccessMask(0x8000_0000),
        args.durable_request is None,
        args.timewarp is None,
{
    FileCreateArgs::make_open_existing(FileAccessMask::reading())
}

/// How a resource is opened for its attributes alone. A reparse point is
/// opened itself, not what it points to.
pub fn open_metadata_args(write_attributes: bool) -> (args: FileCreateArgs)
    ensures
        args == plain_args(
            crate::fscc::CreateDisposition::Open,
            FileAttributes(0),
            CreateOptions(OPTION_OPEN_REPARSE_POINT),
            FileAccessMask(
                if write_attributes {
                    0x180
                } else {
                    0x80
                },
            ),
        ),
        args.disposition == crate::fscc::CreateDisposition::Open,
        args.options == CreateOptions(0x20_0000),
        args.durable_request is None,
        args.timewarp is None,
{
    let args = FileCreateArgs::make_open_existing(FileAccessMask::attributes(write_attributes));
    FileCreateArgs { options: CreateOptions(OPTION_OPEN_REPARSE_POINT), ..args }
}

/// The access that reading or writing a security descriptor needs.
pub fn security_resource_access(read_control: bool, write_dacl: bool) -> (access: FileAccessMask)
    ensures
        access.0 == (if read_control {
            0x2_0000int
        } else {
            0
        }) + (if write_dacl {
            0x4_0000int
        } else {
            0
        }),
{
    let read: u32 = if read_control {
        crate::fscc::READ_CONTROL
    } else {
        0
    };
    let write: u32 = if write_dacl {
        crate::fscc::WRITE_DACL
    } else {
        0
    };
    FileAccessMask(read + write)
}

/// Checks that the server opened what was asked for.
pub fn expect_kind(opened: ResourceKind, wanted: ResourceKind) -> (result: Result<(), PortError>)
    ensures
        result == (if opened == wanted {
            Ok::<(), PortError>(())
        } else {
            Err(PortError::UnexpectedKind)
        }),
{
    if opened == wanted {
        Ok(())
    } else {
        Err(PortError::UnexpectedKind)
    }
}

/// What the close of a session returns: the first failure among its shares,
/// or else what its logoff returned.
pub fn session_close_outcome<E>(shares: Vec<Result<(), E>>, logoff: Result<(), E>) -> (outcome: Result<
    (),
    E,
>)
    ensures
        match outcome {
            Ok(_) => logoff is Ok && forall|i: int| 0 <= i < shares@.len() ==> #[trigger] shares@[i] is Ok,
            Err(error) => {
                ||| logoff == Err::<(), E>(error) && forall|i: int|
                    0 <= i < shares@.len() ==> #[trigger] shares@[i] is Ok
                ||| exists|i: int|
                    0 <= i < shares@.len() && #[trigger] shares@[i] == Err::<(), E>(error)
                        && forall|j: int| 0 <= j < i ==> #[trigger] shares@[j] is Ok
            },
        },
{
    let mut first_error: Option<E> = None;
    let ghost all = shares@;
    for share in rest: shares
        invariant
            rest.seq() == all,
            match first_error {
                None => forall|i: int| 0 <= i < rest.index() ==> #[trigger] all[i] is Ok,
                Some(error) => exists|i: int|
                    0 <= i < rest.index() && #[trigger] all[i] == Err::<(), E>(error) && forall|j: int|
                        0 <= j < i ==> #[trigger] all[j] is Ok,
            },
    {
        if first_error.is_none() {
            if let Err(error) = share {
                assert(all[rest.index() as int] == Err::<(), E>(error));
                first_error = Some(error);
            }
        }
    }
    match first_error {
        Some(error) => Err(error),
        None => logoff,
    }
}

/// The outcome of reading a security descriptor through a resource that is
/// closed behind it: the read decides first.
pub fn path_security_outcome<T, E>(result: Result<T, E>, closed: Result<(), E>) -> (outcome: Result<
    T,
    E,
>)
    ensures
        outcome == (match result {
            Err(error) => Err(error),
            Ok(value) => match closed {
                Ok(_) => Ok(value),
                Err(error) => Err(error),
            },
        }),
{
    match result {
        Err(error) => Err(error),
        Ok(value) => match closed {
            Ok(_) => Ok(value),
            Err(error) => Err(error),
        },
    }
}

/// What is asked for, or set, of a security descriptor.
#[derive(Clone, Copy, Debug, PartialEq, Eq, Structural)]
pub struct AdditionalInfo {
    pub dacl: bool,
    pub protected_dacl: bool,
    pub unprotected_dacl: bool,
}

pub fn query_security_selection(dacl: bool) -> (selection: AdditionalInfo)
    ensures
        selection == (AdditionalInfo { dacl, protected_dacl: false, unprotected_dacl: false }),
{
    AdditionalInfo { dacl, protected_dacl: false, unprotected_dacl: false }
}

/// A list that is set is said to be protected or not, as it is; where none
/// is set, nothing is said.
pub fn set_security_selection(dacl: bool, dacl_protected: bool) -> (selection: AdditionalInfo)
    ensures
        selection == (AdditionalInfo {
            dacl,
            protected_dacl: dacl && dacl_protected,
            unprotected_dacl: dacl && !dacl_protected,
        }),
{
    AdditionalInfo {
        dacl,
        protected_dacl: dacl && dacl_protected,
        unprotected_dacl: dacl && !dacl_protected,
    }
}

/// Zero stands for a back end that does not track identifiers.
pub open spec fn known_identifier(file_id: u64) -> Option<u64> {
    if file_id != 0 {
        Some(file_id)
    } else {
        None
    }
}

pub fn identifier(file_id: u64) -> (id: Option<u64>)
    ensures
        id == known_identifier(file_id),
{
    if file_id != 0 {
        Some(file_id)
    } else {
        None
    }
}

/// The identifier of a wide one: its low half, as every other source gives
/// it.
pub fn low_identifier(file_id: u128) -> (id: Option<u64>)
    ensures
        id == known_identifier((file_id % 0x1_0000_0000_0000_0000) as u64),
        id is None <==> file_id % 0x1_0000_0000_0000_0000 == 0,
        id matches Some(id) ==> id == file_id % 0x1_0000_0000_0000_0000,
{
    identifier((file_id % 0x1_0000_0000_0000_0000) as u64)
}

/// When a resource was made, read, written and changed.
#[derive(Clone, Copy, Debug, PartialEq, Eq, Structural)]
pub struct EntryTimes {
    pub created: FileTime,
    pub accessed: FileTime,
    pub written: FileTime,
    pub changed: FileTime,
}

/// An entry of a directory.
#[derive(Debug, PartialEq, Eq)]
pub struct RuntimeDirectoryEntry {
    pub name: String,
    pub is_directory: bool,
    pub len: u64,
    pub times: EntryTimes,
    pub readonly: bool,
    pub reparse_point: bool,
    /// The identifier, where the server told one.
    pub file_id: Option<u64>,
}

pub fn runtime_entry(
    name: String,
    attributes: FileAttributes,
    len: u64,
    times: EntryTimes,
    file_id: Option<u64>,
) -> (entry: RuntimeDirectoryEntry)
    ensures
        entry == (RuntimeDirectoryEntry {
            name,
            is_directory: has_bit(attributes.0, ATTRIBUTE_DIRECTORY),
            len,
            times,
            readonly: has_bit(attributes.0, ATTRIBUTE_READONLY),
            reparse_point: has_bit(attributes.0, ATTRIBUTE_REPARSE_POINT),
            file_id,
        }),
        entry.is_directory == ((attributes.0 / 0x10) % 2 == 1),
        entry.readonly == (attributes.0 % 2 == 1),
        entry.reparse_point == ((attributes.0 / 0x400) % 2 == 1),
{
    assert(attributes.0 / 1 == attributes.0);
    RuntimeDirectoryEntry {
        name,
        is_directory: attributes.directory(),
        len,
        times,
        readonly: attributes.readonly(),
        reparse_point: attributes.reparse_point(),
        file_id,
    }
}

#[derive(Clone, Copy, Debug, PartialEq, Eq, Structural)]
pub enum RuntimeDirectoryEventKind {
    Added,
    Removed,
    Modified,
    RenamedOld,
    RenamedNew,
    StreamAdded,
    StreamRemoved,
    StreamModified,
    IdentifierUnavailable,
    IdentifierCollision,
}

/// What a change means. An entry that was deleted was removed.
pub fn event_kind(action: NotifyAction) -> (kind: RuntimeDirectoryEventKind)
    ensures
        kind == (match action {
            NotifyAction::Added => RuntimeDirectoryEventKind::Added,
            NotifyAction::Removed => RuntimeDirectoryEventKind::Removed,
            NotifyAction::Modified => RuntimeDirectoryEventKind::Modified,
            NotifyAction::RenamedOldName => RuntimeDirectoryEventKind::RenamedOld,
            NotifyAction::RenamedNewName => RuntimeDirectoryEventKind::RenamedNew,
            NotifyAction::AddedStream => RuntimeDirectoryEventKind::StreamAdded,
            NotifyAction::RemovedStream => RuntimeDirectoryEventKind::StreamRemoved,
            NotifyAction::ModifiedStream => RuntimeDirectoryEventKind::StreamModified,
            NotifyAction::RemovedByDelete => RuntimeDirectoryEventKind::Removed,
            NotifyAction::IdNotTunnelled => RuntimeDirectoryEventKind::IdentifierUnavailable,
            NotifyAction::TunnelledIdCollision => RuntimeDirectoryEventKind::IdentifierCollision,
        }),
{
    match action {
        NotifyAction::Added => RuntimeDirectoryEventKind::Added,
        NotifyAction::Removed => RuntimeDirectoryEventKind::Removed,
        NotifyAction::Modified => RuntimeDirectoryEventKind::Modified,
        NotifyAction::RenamedOldName => RuntimeDirectoryEventKind::RenamedOld,
        NotifyAction::RenamedNewName => RuntimeDirectoryEventKind::RenamedNew,
        NotifyAction::AddedStream => RuntimeDirectoryEventKind::StreamAdded,
        NotifyAction::RemovedStream => RuntimeDirectoryEventKind::StreamRemoved,
        NotifyAction::ModifiedStream => RuntimeDirectoryEventKind::StreamModified,
        NotifyAction::RemovedByDelete => RuntimeDirectoryEventKind::Removed,
        NotifyAction::IdNotTunnelled => RuntimeDirectoryEventKind::IdentifierUnavailable,
        NotifyAction::TunnelledIdCollision => RuntimeDirectoryEventKind::IdentifierCollision,
    }
}

/// The classes of information that a listing can ask for, the one that tells
/// most first.
#[derive(Clone, Copy, Debug, PartialEq, Eq, Structural)]
pub enum ListingClass {
    /// With an identifier.
    IdFull,
    /// With a wide identifier.
    IdExtd,
    /// Without identifiers.
    Plain,
}

/// What the first answer to a listing was.
#[derive(Clone, Copy, Debug, PartialEq, Eq, Structural)]
pub enum FirstAnswer {
    Entry,
    /// The listing is empty.
    Nothing,
    /// The server refused, with this status.
    Refused(Status),
}

/// What follows from it.
#[derive(Clone, Copy, Debug, PartialEq, Eq, Structural)]
pub enum ProbeStep {
    /// Goes on with this class.
    Use,
    /// Tries a narrower one.
    TryNext(ListingClass),
    Fail(Status),
}

pub fn is_invalid_info_class(status: Status) -> (invalid: bool)
    ensures
        invalid == (status == Status::InvalidInfoClass),
{
    status == Status::InvalidInfoClass
}

/// Only a server that does not know a class is asked for a narrower one; the
/// narrowest is asked for last, and is not probed.
pub fn probe_class(class: ListingClass, first: FirstAnswer) -> (step: ProbeStep)
    ensures
        step == (match first {
            FirstAnswer::Entry => ProbeStep::Use,
            FirstAnswer::Nothing => ProbeStep::Use,
            FirstAnswer::Refused(status) => if status == Status::InvalidInfoClass {
                match class {
                    ListingClass::IdFull => ProbeStep::TryNext(ListingClass::IdExtd),
                    ListingClass::IdExtd => ProbeStep::TryNext(ListingClass::Plain),
                    ListingClass::Plain => ProbeStep::Fail(status),
                }
            } else {
                ProbeStep::Fail(status)
            },
        }),
{
    match first {
        FirstAnswer::Entry => ProbeStep::Use,
        FirstAnswer::Nothing => ProbeStep::Use,
        FirstAnswer::Refused(status) => {
            if !is_invalid_info_class(status) {
                return ProbeStep::Fail(status);
            }
            match class {
                ListingClass::IdFull => ProbeStep::TryNext(ListingClass::IdExtd),
                ListingClass::IdExtd => ProbeStep::TryNext(ListingClass::Plain),
                ListingClass::Plain => ProbeStep::Fail(status),
            }
        },
    }
}

/// The class that tells the length of a file.
pub const FILE_STANDARD_INFORMATION: u8 = 5;

/// The class that renames a resource.
pub const FILE_RENAME_INFORMATION: u8 = 10;

/// The class that deletes a resource once it is closed.
pub const FILE_DISPOSITION_INFORMATION: u8 = 13;

/// The control code that enumerates the previous versions of a file.
pub const FSCTL_SRV_ENUMERATE_SNAPSHOTS: u32 = 0x0014_4064;

/// The longest answer to such an enumeration.
pub const SNAPSHOTS_RESPONSE: u32 = 65_536;

/// What is set of an open resource.
pub open spec fn setting(handle: HandleView, class: u8) -> Result<SetInfoPlan, ResourceError> {
    if handle.open {
        Ok(
            SetInfoPlan {
                file_id: handle.generation.file_id,
                subject: InfoSubject::File { class },
                additional_info: no_selection(),
            },
        )
    } else {
        Err(ResourceError::Closed)
    }
}

/// Plans to delete an open resource.
pub fn delete(handle: &ResourceHandle) -> (plan: Result<SetInfoPlan, ResourceError>)
    ensures
        plan == setting(handle@, FILE_DISPOSITION_INFORMATION),
        plan matches Ok(plan) ==> plan.subject == (InfoSubject::File { class: 13 }),
        plan is Ok == handle@.open,
{
    handle.set_info(FILE_DISPOSITION_INFORMATION)
}

/// A new name for a resource, from the root of its share.
#[derive(Debug, PartialEq, Eq)]
pub struct RenamePlan {
    pub set: SetInfoPlan,
    /// Whether a resource that has the name already gives way.
    pub replace_if_exists: bool,
    pub root_directory: u64,
    pub file_name: String,
}

/// Plans to rename an open resource.
pub fn rename(handle: &ResourceHandle, path: &str, replace: bool) -> (plan: Result<
    RenamePlan,
    ResourceError,
>)
    ensures
        match plan {
            Ok(plan) => {
                &&& setting(handle@, FILE_RENAME_INFORMATION) == Ok::<SetInfoPlan, ResourceError>(
                    plan.set,
                )
                &&& plan.replace_if_exists == replace
                &&& plan.root_directory == 0
                &&& plan.file_name@ == path@
                &&& plan.set.subject == (InfoSubject::File { class: 10 })
                &&& plan.set.file_id == handle@.generation.file_id
                &&& handle@.open
            },
            Err(error) => setting(handle@, FILE_RENAME_INFORMATION) == Err::<
                SetInfoPlan,
                ResourceError,
            >(error),
        },
{
    match handle.set_info(FILE_RENAME_INFORMATION) {
        Ok(set) => Ok(
            RenamePlan {
                set,
                replace_if_exists: replace,
                root_directory: 0,
                file_name: path.to_string(),
            },
        ),
        Err(error) => Err(error),
    }
}

/// Plans to ask for the length of a file.
pub fn len(file: &File) -> (plan: Result<QueryInfoPlan, ResourceError>)
    ensures
        plan == query_of(
            file.handle_view(),
            InfoSubject::File { class: FILE_STANDARD_INFORMATION },
            no_selection(),
            no_flags(),
            None,
        ),
        plan matches Ok(plan) ==> plan.subject == (InfoSubject::File { class: 5 }) && plan.file_id
            == file.handle_view().generation.file_id,
        plan is Ok == file.handle_view().open,
{
    file.handle().query_info(FILE_STANDARD_INFORMATION)
}

/// Plans to enumerate the previous versions of a file.
pub fn previous_versions(file: &File) -> (plan: Result<IoctlPlan, ResourceError>)
    ensures
        plan == (if file.handle_view().open {
            Ok(
                IoctlPlan {
                    file_id: file.handle_view().generation.file_id,
                    control_code: FSCTL_SRV_ENUMERATE_SNAPSHOTS,
                    max_input_response: 0,
                    max_output_response: SNAPSHOTS_RESPONSE,
                    is_fsctl: true,
                    options: (FileOperationOptions {
                        timeout: None,
                        replay: ReplayPolicy::NeverReplay,
                    }),
                },
            )
        } else {
            Err(ResourceError::Closed)
        }),
        plan matches Ok(plan) ==> plan.control_code == 0x0014_4064 && plan.max_output_response
            == 65_536,
{
    file.handle().fsctl_with_options(FSCTL_SRV_ENUMERATE_SNAPSHOTS, SNAPSHOTS_RESPONSE)
}

/// What is known of a resource.
#[derive(Clone, Copy, Debug, PartialEq, Eq, Structural)]
pub struct RuntimeMetadata {
    pub times: EntryTimes,
    pub len: u64,
    pub readonly: bool,
    pub reparse_point: bool,
    pub file_id: Option<u64>,
    pub volume_id: Option<u64>,
}

/// What is known of a resource that was just asked. Its identity is that of
/// the open: it does not change.
pub fn metadata(times: EntryTimes, attributes: FileAttributes, len: u64, opened: &OpenedFacts) -> (
    metadata: RuntimeMetadata)
    ensures
        metadata == (RuntimeMetadata {
            times,
            len,
            readonly: has_bit(attributes.0, ATTRIBUTE_READONLY),
            reparse_point: has_bit(attributes.0, ATTRIBUTE_REPARSE_POINT),
            file_id: opened@.file_id(),
            volume_id: opened@.volume_id(),
        }),
        metadata.readonly == (attributes.0 % 2 == 1),
        metadata.reparse_point == ((attributes.0 / 0x400) % 2 == 1),
{
    assert(attributes.0 / 1 == attributes.0);
    RuntimeMetadata {
        times,
        len,
        readonly: attributes.readonly(),
        reparse_point: attributes.reparse_point(),
        file_id: opened.file_id(),
        volume_id: opened.volume_id(),
    }
}

/// What the open itself told of a resource.
pub open spec fn told_at_open(opened: OpenedView) -> RuntimeMetadata {
    RuntimeMetadata {
        times: EntryTimes {
            created: opened.created,
            accessed: opened.accessed,
            written: opened.written,
            changed: opened.changed,
        },
        len: opened.end_of_file,
        readonly: has_bit(opened.attributes.0, ATTRIBUTE_READONLY),
        reparse_point: has_bit(opened.attributes.0, ATTRIBUTE_REPARSE_POINT)
            || opened.reparse_point,
        file_id: opened.file_id(),
        volume_id: opened.volume_id(),
    }
}

pub fn opened_metadata(opened: &OpenedFacts) -> (metadata: RuntimeMetadata)
    ensures
        metadata == told_at_open(opened@),
{
    RuntimeMetadata {
        times: EntryTimes {
            created: opened.created(),
            accessed: opened.accessed(),
            written: opened.written(),
            changed: opened.changed(),
        },
        len: opened.end_of_file(),
        readonly: opened.attributes().readonly(),
        reparse_point: opened.attributes().reparse_point() || opened.is_reparse_point(),
        file_id: opened.file_id(),
        volume_id: opened.volume_id(),
    }
}

/// Whether a file was opened for good.
pub fn persistent_granted(grant: Option<DurableOpenGrant>) -> (persistent: bool)
    ensures
        persistent == (grant matches Some(grant) && grant.persistent),
{
    match grant {
        Some(grant) => grant.persistent,
        None => false,
    }
}

/// The three modes ask for three different dispositions: a new file is
/// created, an existing one is opened, and one to be overwritten is replaced
/// where it is there and created where it is not. Each asks to read, write
/// and delete, and for nothing beyond the open itself.
pub proof fn modes_ask_for_their_dispositions(mode: OpenMode)
    ensures
        mode is CreateNew <==> mode_args(mode).disposition
            == crate::fscc::CreateDisposition::Create,
        mode is OpenExisting <==> mode_args(mode).disposition
            == crate::fscc::CreateDisposition::Open,
        mode is Overwrite <==> mode_args(mode).disposition
            == crate::fscc::CreateDisposition::OverwriteIf,
        mode_args(mode).desired_access.0 == 0x8000_0000 + 0x4000_0000 + 0x0001_0000,
        mode_args(mode).attributes.0 == 0,
        mode_args(mode).options.0 == 0,
        mode_args(mode).lease_request is None,
        mode_args(mode).durable_request is None,
        mode_args(mode).timewarp is None,
{
}

/// What the open told is handed on as it was told: the four times, the
/// length, and whether the resource is read-only or a reparse point. An
/// identifier of zero is none.
pub proof fn opens_tell_what_they_know(opened: OpenedView)
    ensures
        ({
            let told = told_at_open(opened);
            &&& told.times.created == opened.created
            &&& told.times.accessed == opened.accessed
            &&& told.times.written == opened.written
            &&& told.times.changed == opened.changed
            &&& told.len == opened.end_of_file
            &&& told.readonly <==> opened.attributes.0 % 2 == 1
            &&& told.reparse_point <==> opened.reparse_point || (opened.attributes.0 / 0x400) % 2
                == 1
            &&& told.file_id matches Some(id) ==> id != 0 && opened.on_disk_id is Some
                && opened.on_disk_id->Some_0.0 == id
            &&& told.file_id is None ==> (opened.on_disk_id matches Some(id) ==> id.0 == 0)
            &&& told.volume_id matches Some(volume) ==> opened.on_disk_id is Some
                && opened.on_disk_id->Some_0.1 == volume
            &&& told.volume_id is None <==> opened.on_disk_id is None
        }),
{
}

/// An identifier is known unless it is zero.
pub proof fn identifiers_are_known(file_id: u64)
    ensures
        known_identifier(file_id) is None <==> file_id == 0,
        known_identifier(file_id) matches Some(id) ==> id == file_id,
{
}

/// What is set of an open resource is set of its own file, and selects
/// nothing; nothing is set of a closed one.
pub proof fn settings_name_their_file(handle: HandleView, class: u8)
    ensures
        match setting(handle, class) {
            Ok(plan) => {
                &&& handle.open
                &&& plan.file_id == handle.generation.file_id
                &&& plan.subject == (InfoSubject::File { class })
                &&& !plan.additional_info.dacl
                &&& !plan.additional_info.protected_dacl
                &&& !plan.additional_info.unprotected_dacl
            },
            Err(error) => error == ResourceError::Closed && !handle.open,
        },
{
}

} // verus!
