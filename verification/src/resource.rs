//! Resources: what a create request opens, and how an open one survives the
//! loss of its share.

use crate::fscc::{
    has_bit, CreateDisposition, CreateOptions, FileAccessMask, FileAttributes, FileTime, OplockLevel,
    ShareAccess, ShareType, ATTRIBUTE_DIRECTORY,
};
use crate::identity::{FileId, Guid};
use crate::protocol::Status;
use crate::resource::directory::Directory;
use crate::resource::file::File;
use crate::resource::pipe::Pipe;
use crate::runtime::object_state::ObjectToken;
use vstd::prelude::*;
use vstd::string::StrSliceExecFns;

pub mod directory;
pub mod file;
pub mod file_util;
pub mod info;
pub mod pipe;
pub mod reconnect;

verus! {

/// Why a resource cannot be opened or used.
#[derive(Clone, Copy, Debug, PartialEq, Eq, Structural)]
pub enum ResourceError {
    /// Durable opens need a newer dialect.
    DurableUnsupported,
    /// Persistent opens need persistent handles and a continuously available
    /// share.
    PersistentUnsupported,
    /// A printer only takes new jobs.
    PrinterOnlyCreates,
    /// A name begins with a backslash.
    LeadingBackslash,
    /// The share was replaced while the resource was being opened.
    StaleObject,
    DurableNotGranted,
    PersistentNotGranted,
    PrinterUnsupported,
    /// The share was replaced, and the resource is not durable.
    StaleShareGeneration,
    /// The resource was closed.
    Closed,
    AlreadyClosed,
    /// The answer does not fit into the buffer.
    BufferTooSmall { required: Option<usize>, provided: usize },
    /// The status is not one that the request allows for.
    UnexpectedStatus(Status),
    MissingPermissions,
    /// The buffer is larger than a transaction may be.
    BufferTooLarge { requested: u32, maximum: u32 },
    /// The buffer cannot hold an entry.
    QueryBufferTooSmall { buffer_size: u32 },
    /// There is more to send than the request can say.
    TooLong,
    Cancelled,
    CleanedUp,
    EventQueueOverflow { capacity: usize },
    NotAFile,
    NotADirectory,
    NotAPipe,
}

/// Opt-in durable open request.
#[derive(Clone, Copy, Debug, PartialEq, Eq, Structural)]
pub struct DurableOpenRequest {
    pub timeout: u32,
    pub create_guid: Guid,
    pub persistent: bool,
}

/// Durable properties granted by the server for a resource.
#[derive(Clone, Copy, Debug, PartialEq, Eq, Structural)]
pub struct DurableOpenGrant {
    pub timeout: u32,
    pub persistent: bool,
    pub create_guid: Guid,
}

impl DurableOpenRequest {
    pub fn persistent(timeout: u32, create_guid: Guid) -> (request: Self)
        ensures
            request == (DurableOpenRequest { timeout, create_guid, persistent: true }),
    {
        DurableOpenRequest { timeout, create_guid, persistent: true }
    }
}

/// A lease to ask for.
#[derive(Clone, Copy, Debug, PartialEq, Eq, Structural)]
pub struct LeaseRequest {
    pub key: Guid,
    pub state: u32,
}

/// How a resource is to be opened.
#[derive(Clone, Copy, Debug, PartialEq, Eq, Structural)]
pub struct FileCreateArgs {
    pub disposition: CreateDisposition,
    pub attributes: FileAttributes,
    pub options: CreateOptions,
    pub desired_access: FileAccessMask,
    /// A lease to ask for.
    pub lease_request: Option<LeaseRequest>,
    /// A durable or persistent open to ask for.
    pub durable_request: Option<DurableOpenRequest>,
    /// The moment of the previous version to open.
    pub timewarp: Option<FileTime>,
}

/// Arguments that ask for nothing beyond the open itself.
pub open spec fn plain_args(
    disposition: CreateDisposition,
    attributes: FileAttributes,
    options: CreateOptions,
    desired_access: FileAccessMask,
) -> FileCreateArgs {
    FileCreateArgs {
        disposition,
        attributes,
        options,
        desired_access,
        lease_request: None,
        durable_request: None,
        timewarp: None,
    }
}

impl Default for FileCreateArgs {
    fn default() -> (args: Self)
        ensures
            args == plain_args(
                CreateDisposition::Open,
                FileAttributes(0),
                CreateOptions(0),
                FileAccessMask(0),
            ),
    {
        FileCreateArgs {
            disposition: CreateDisposition::Open,
            attributes: FileAttributes(0),
            options: CreateOptions(0),
            desired_access: FileAccessMask(0),
            lease_request: None,
            durable_request: None,
            timewarp: None,
        }
    }
}

impl FileCreateArgs {
    fn plain(
        disposition: CreateDisposition,
        attributes: FileAttributes,
        options: CreateOptions,
        desired_access: FileAccessMask,
    ) -> (args: Self)
        ensures
            args == plain_args(disposition, attributes, options, desired_access),
    {
        FileCreateArgs {
            disposition,
            attributes,
            options,
            desired_access,
            lease_request: None,
            durable_request: None,
            timewarp: None,
        }
    }

    /// Opens what is there.
    pub fn make_open_existing(access: FileAccessMask) -> (args: FileCreateArgs)
        ensures
            args == plain_args(
                CreateDisposition::Open,
                FileAttributes(0),
                CreateOptions(0),
                access,
            ),
    {
        Self::plain(CreateDisposition::Open, FileAttributes(0), CreateOptions(0), access)
    }

    /// Creates what is not there, with the access that changing its data
    /// needs and no more.
    pub fn make_create_new(attributes: FileAttributes, options: CreateOptions) -> (args:
        FileCreateArgs)
        ensures
            args == plain_args(
                CreateDisposition::Create,
                attributes,
                options,
                FileAccessMask(0xc001_0000),
            ),
    {
        Self::plain(CreateDisposition::Create, attributes, options, FileAccessMask::changing())
    }

    /// Replaces what may be there, with the access that changing its data
    /// needs and no more.
    pub fn make_overwrite(attributes: FileAttributes, options: CreateOptions) -> (args:
        FileCreateArgs)
        ensures
            args == plain_args(
                CreateDisposition::OverwriteIf,
                attributes,
                options,
                FileAccessMask(0xc001_0000),
            ),
    {
        Self::plain(CreateDisposition::OverwriteIf, attributes, options, FileAccessMask::changing())
    }

    /// Opens a pipe for reading and writing.
    pub fn make_pipe() -> (args: FileCreateArgs)
        ensures
            args == plain_args(
                CreateDisposition::Open,
                FileAttributes(0),
                CreateOptions(0),
                FileAccessMask(0xc000_0000),
            ),
    {
        Self::plain(
            CreateDisposition::Open,
            FileAttributes(0),
            CreateOptions(0),
            FileAccessMask::duplex(),
        )
    }

    /// Asks for a durable or persistent open.
    pub fn with_durable(self, request: DurableOpenRequest) -> (args: Self)
        ensures
            args == (FileCreateArgs { durable_request: Some(request), ..self }),
    {
        FileCreateArgs { durable_request: Some(request), ..self }
    }

    /// Asks for a previous version.
    pub fn with_timewarp(self, timestamp: FileTime) -> (args: Self)
        ensures
            args == (FileCreateArgs { timewarp: Some(timestamp), ..self }),
    {
        FileCreateArgs { timewarp: Some(timestamp), ..self }
    }
}

/// Whether a durable open may be asked for.
pub open spec fn durable_allowed(
    request: DurableOpenRequest,
    smb3: bool,
    persistent_handles: bool,
    continuous_availability: bool,
) -> Result<(), ResourceError> {
    if !smb3 {
        Err(ResourceError::DurableUnsupported)
    } else if request.persistent && (!persistent_handles || !continuous_availability) {
        Err(ResourceError::PersistentUnsupported)
    } else {
        Ok(())
    }
}

pub fn validate_durable_request(
    request: DurableOpenRequest,
    smb3: bool,
    persistent_handles: bool,
    continuous_availability: bool,
) -> (result: Result<(), ResourceError>)
    ensures
        result == durable_allowed(request, smb3, persistent_handles, continuous_availability),
{
    if !smb3 {
        return Err(ResourceError::DurableUnsupported);
    }
    if request.persistent && (!persistent_handles || !continuous_availability) {
        return Err(ResourceError::PersistentUnsupported);
    }
    Ok(())
}

/// The oplock that goes with what is asked for.
pub open spec fn oplock_for(args: FileCreateArgs) -> OplockLevel {
    if args.lease_request is Some {
        OplockLevel::Lease
    } else if args.durable_request is Some {
        OplockLevel::Batch
    } else {
        OplockLevel::Unlocked
    }
}

pub fn requested_oplock_level(args: &FileCreateArgs) -> (level: OplockLevel)
    ensures
        level == oplock_for(*args),
{
    if args.lease_request.is_some() {
        OplockLevel::Lease
    } else if args.durable_request.is_some() {
        OplockLevel::Batch
    } else {
        OplockLevel::Unlocked
    }
}

/// A resource is only opened under the share that it was asked of.
pub fn validate_create_parent_epoch(captured: ObjectToken, current: ObjectToken) -> (result: Result<
    (),
    ResourceError,
>)
    ensures
        result == (if captured == current {
            Ok::<(), ResourceError>(())
        } else {
            Err(ResourceError::StaleObject)
        }),
{
    if captured == current {
        Ok(())
    } else {
        Err(ResourceError::StaleObject)
    }
}

/// What a create request carries beside its own fields.
#[derive(Clone, Copy, Debug, PartialEq, Eq, Structural)]
pub enum CreateContext {
    QueryMaximalAccess,
    QueryOnDiskId,
    Timewarp(FileTime),
    Lease(LeaseRequest),
    Durable(DurableOpenRequest),
    DurableReconnect { file_id: FileId, create_guid: Guid, persistent: bool },
}

/// A create request, beside the name.
#[derive(Debug, PartialEq, Eq)]
pub struct CreatePlan {
    pub requested_oplock_level: OplockLevel,
    pub desired_access: FileAccessMask,
    pub attributes: FileAttributes,
    pub share_access: ShareAccess,
    pub disposition: CreateDisposition,
    pub options: CreateOptions,
    pub contexts: Vec<CreateContext>,
    pub dfs: bool,
}

pub open spec fn optional<T>(value: Option<T>) -> Seq<T> {
    match value {
        Some(value) => seq![value],
        None => Seq::empty(),
    }
}

/// The contexts of a create request, in their order.
pub open spec fn contexts_for(args: FileCreateArgs) -> Seq<CreateContext> {
    seq![CreateContext::QueryMaximalAccess, CreateContext::QueryOnDiskId] + optional(
        match args.timewarp {
            Some(timestamp) => Some(CreateContext::Timewarp(timestamp)),
            None => None,
        },
    ) + optional(
        match args.lease_request {
            Some(lease) => Some(CreateContext::Lease(lease)),
            None => None,
        },
    ) + optional(
        match args.durable_request {
            Some(request) => Some(CreateContext::Durable(request)),
            None => None,
        },
    )
}

pub open spec fn begins_with_backslash(name: Seq<char>) -> bool {
    name.len() > 0 && name[0] == '\\'
}

/// What the connection and the share can do about durable opens.
#[derive(Clone, Copy, Debug, PartialEq, Eq, Structural)]
pub struct DurableSupport {
    pub smb3: bool,
    pub persistent_handles: bool,
    pub continuous_availability: bool,
}

/// Why a create request is refused before it is sent, if it is.
pub open spec fn create_refused(
    name: Seq<char>,
    args: FileCreateArgs,
    share_type: ShareType,
    support: DurableSupport,
) -> Option<ResourceError> {
    if share_type == ShareType::Print && args.disposition != CreateDisposition::Create {
        Some(ResourceError::PrinterOnlyCreates)
    } else if begins_with_backslash(name) {
        Some(ResourceError::LeadingBackslash)
    } else {
        match args.durable_request {
            Some(request) => match durable_allowed(
                request,
                support.smb3,
                support.persistent_handles,
                support.continuous_availability,
            ) {
                Ok(_) => None,
                Err(error) => Some(error),
            },
            None => None,
        }
    }
}

/// What the server says of a resource that it opened.
#[derive(Clone, Copy, Debug, PartialEq, Eq)]
pub struct CreateAnswer {
    pub file_id: FileId,
    pub attributes: FileAttributes,
    pub oplock_level: OplockLevel,
    pub created: FileTime,
    pub accessed: FileTime,
    pub written: FileTime,
    pub changed: FileTime,
    pub end_of_file: u64,
    pub reparse_point: bool,
    /// The access that the server grants at most, where it says so.
    pub maximal_access: Option<FileAccessMask>,
    /// The timeout and the persistence of a durable open, where granted.
    pub durable: Option<(u32, bool)>,
    /// The file and volume identifiers on disk, where known.
    pub on_disk_id: Option<(u64, u64)>,
}

/// The durable properties that come with an answer, or why it is refused.
pub open spec fn grant_of(args: FileCreateArgs, answer: CreateAnswer) -> Result<
    Option<DurableOpenGrant>,
    ResourceError,
> {
    match args.durable_request {
        None => Ok(None),
        Some(request) => match answer.durable {
            None => Err(ResourceError::DurableNotGranted),
            Some((timeout, persistent)) => if request.persistent && !persistent {
                Err(ResourceError::PersistentNotGranted)
            } else {
                Ok(
                    Some(
                        DurableOpenGrant { timeout, persistent, create_guid: request.create_guid },
                    ),
                )
            },
        },
    }
}

/// Whether the server may break the oplock of a resource.
pub open spec fn breakable(level: OplockLevel) -> bool {
    level == OplockLevel::II || level == OplockLevel::Exclusive || level == OplockLevel::Batch
}

/// What was negotiated for a connection, as far as resources go.
#[derive(Clone, Copy, Debug, PartialEq, Eq, Structural)]
pub struct Negotiated {
    pub max_transact_size: u32,
    pub max_read_size: u32,
    pub max_write_size: u32,
    pub default_transaction_size: u32,
    /// The revision of the dialect.
    pub dialect: u16,
    /// Whether the dialect has compression, and it is switched on.
    pub dialect_compresses: bool,
    pub compression_enabled: bool,
}

/// One life of a resource: it ends with the share that it was opened on.
#[derive(Clone, Copy, Debug, PartialEq, Eq, Structural)]
pub struct ResourceGeneration {
    pub file_id: FileId,
    pub object: ObjectToken,
    pub share: ObjectToken,
}

impl ResourceGeneration {
    pub fn belongs_to(&self, share: ObjectToken) -> (belongs: bool)
        ensures
            belongs == (self.share == share),
    {
        self.share == share
    }
}

/// What the answer to a create request said about the resource.
#[derive(Clone, Copy, Debug, PartialEq, Eq)]
pub struct OpenedFacts {
    created: FileTime,
    accessed: FileTime,
    written: FileTime,
    changed: FileTime,
    end_of_file: u64,
    attributes: FileAttributes,
    reparse_point: bool,
    on_disk_id: Option<(u64, u64)>,
}

#[verifier::ext_equal]
pub struct OpenedView {
    pub created: FileTime,
    pub accessed: FileTime,
    pub written: FileTime,
    pub changed: FileTime,
    pub end_of_file: u64,
    pub attributes: FileAttributes,
    pub reparse_point: bool,
    pub on_disk_id: Option<(u64, u64)>,
}

impl View for OpenedFacts {
    type V = OpenedView;

    closed spec fn view(&self) -> OpenedView {
        OpenedView {
            created: self.created,
            accessed: self.accessed,
            written: self.written,
            changed: self.changed,
            end_of_file: self.end_of_file,
            attributes: self.attributes,
            reparse_point: self.reparse_point,
            on_disk_id: self.on_disk_id,
        }
    }
}

pub open spec fn facts_of(answer: CreateAnswer) -> OpenedView {
    OpenedView {
        created: answer.created,
        accessed: answer.accessed,
        written: answer.written,
        changed: answer.changed,
        end_of_file: answer.end_of_file,
        attributes: answer.attributes,
        reparse_point: answer.reparse_point,
        on_disk_id: answer.on_disk_id,
    }
}

impl OpenedView {
    /// The identifier on disk; zero is none.
    pub open spec fn file_id(self) -> Option<u64> {
        match self.on_disk_id {
            Some((file_id, _)) => if file_id != 0 {
                Some(file_id)
            } else {
                None
            },
            None => None,
        }
    }

    pub open spec fn volume_id(self) -> Option<u64> {
        match self.on_disk_id {
            Some((_, volume_id)) => Some(volume_id),
            None => None,
        }
    }
}

impl OpenedFacts {
    pub fn from_answer(answer: &CreateAnswer) -> (facts: Self)
        ensures
            facts@ == facts_of(*answer),
    {
        OpenedFacts {
            created: answer.created,
            accessed: answer.accessed,
            written: answer.written,
            changed: answer.changed,
            end_of_file: answer.end_of_file,
            attributes: answer.attributes,
            reparse_point: answer.reparse_point,
            on_disk_id: answer.on_disk_id,
        }
    }

    pub fn created(&self) -> (time: FileTime)
        ensures
            time == self@.created,
    {
        self.created
    }

    pub fn accessed(&self) -> (time: FileTime)
        ensures
            time == self@.accessed,
    {
        self.accessed
    }

    pub fn written(&self) -> (time: FileTime)
        ensures
            time == self@.written,
    {
        self.written
    }

    pub fn changed(&self) -> (time: FileTime)
        ensures
            time == self@.changed,
    {
        self.changed
    }

    pub fn end_of_file(&self) -> (len: u64)
        ensures
            len == self@.end_of_file,
    {
        self.end_of_file
    }

    pub fn attributes(&self) -> (attributes: FileAttributes)
        ensures
            attributes == self@.attributes,
    {
        self.attributes
    }

    /// Whether the last component of the path is a reparse point.
    pub fn is_reparse_point(&self) -> (reparse: bool)
        ensures
            reparse == self@.reparse_point,
    {
        self.reparse_point
    }

    /// The identifier on disk. Zero stands for none: back ends without a
    /// stable identifier say zero.
    pub fn file_id(&self) -> (id: Option<u64>)
        ensures
            id == self@.file_id(),
    {
        match self.on_disk_id {
            Some((file_id, _)) => if file_id != 0 {
                Some(file_id)
            } else {
                None
            },
            None => None,
        }
    }

    /// The identifier of the volume.
    pub fn volume_id(&self) -> (id: Option<u64>)
        ensures
            id == self@.volume_id(),
    {
        match self.on_disk_id {
            Some((_, volume_id)) => Some(volume_id),
            None => None,
        }
    }
}

/// A kind of resource.
#[derive(Clone, Copy, Debug, PartialEq, Eq, Structural)]
pub enum ResourceKind {
    File,
    Directory,
    Pipe,
}

/// What an answer opened on a share.
pub open spec fn kind_for(answer: CreateAnswer, share_type: ShareType) -> Result<
    ResourceKind,
    ResourceError,
> {
    if has_bit(answer.attributes.0, ATTRIBUTE_DIRECTORY) {
        Ok(ResourceKind::Directory)
    } else {
        match share_type {
            ShareType::Disk => Ok(ResourceKind::File),
            ShareType::Pipe => Ok(ResourceKind::Pipe),
            ShareType::Print => Err(ResourceError::PrinterUnsupported),
        }
    }
}

/// The handle of an open resource.
pub struct ResourceHandle {
    name: String,
    generation: ResourceGeneration,
    open: bool,
    access: FileAccessMask,
    durable_granted: Option<DurableOpenGrant>,
    oplock: Option<OplockLevel>,
    negotiated: Negotiated,
    opened: OpenedFacts,
}

#[verifier::ext_equal]
pub struct HandleView {
    pub name: Seq<char>,
    pub generation: ResourceGeneration,
    pub open: bool,
    pub access: FileAccessMask,
    pub durable_granted: Option<DurableOpenGrant>,
    /// The oplock that the server may break.
    pub oplock: Option<OplockLevel>,
    pub negotiated: Negotiated,
    pub opened: OpenedView,
}

impl View for ResourceHandle {
    type V = HandleView;

    closed spec fn view(&self) -> HandleView {
        HandleView {
            name: self.name@,
            generation: self.generation,
            open: self.open,
            access: self.access,
            durable_granted: self.durable_granted,
            oplock: self.oplock,
            negotiated: self.negotiated,
            opened: self.opened@,
        }
    }
}

/// The handle that an answer gives.
pub open spec fn handle_for(
    name: Seq<char>,
    answer: CreateAnswer,
    durable_granted: Option<DurableOpenGrant>,
    object: ObjectToken,
    share: ObjectToken,
    negotiated: Negotiated,
) -> HandleView {
    HandleView {
        name,
        generation: ResourceGeneration { file_id: answer.file_id, object, share },
        open: true,
        access: match answer.maximal_access {
            Some(access) => access,
            None => FileAccessMask(0xffff_ffff),
        },
        durable_granted,
        oplock: if breakable(answer.oplock_level) {
            Some(answer.oplock_level)
        } else {
            None
        },
        negotiated,
        opened: facts_of(answer),
    }
}

/// What becomes of a resource whose share may have been replaced.
#[derive(Clone, Copy, Debug, PartialEq, Eq, Structural)]
pub enum Currency {
    /// It is open on the current share.
    Current,
    /// It has to be opened again, by what the server granted.
    Reconnect(DurableOpenGrant),
}

impl ResourceHandle {
    /// Returns the name of the resource.
    pub fn name(&self) -> (name: &str)
        ensures
            name@ == self@.name,
    {
        self.name.as_str()
    }

    /// What the answer to the create request said.
    pub fn opened(&self) -> (facts: &OpenedFacts)
        ensures
            facts@ == self@.opened,
    {
        &self.opened
    }

    /// The durable properties that the server granted.
    pub fn durable_granted(&self) -> (grant: Option<DurableOpenGrant>)
        ensures
            grant == self@.durable_granted,
    {
        self.durable_granted
    }

    /// The handle itself.
    pub fn handle(&self) -> (handle: &ResourceHandle)
        ensures
            handle == self,
    {
        self
    }

    pub fn access(&self) -> (access: FileAccessMask)
        ensures
            access == self@.access,
    {
        self.access
    }

    pub fn negotiated(&self) -> (negotiated: Negotiated)
        ensures
            negotiated == self@.negotiated,
    {
        self.negotiated
    }

    /// The oplock that the server may break, where there is one.
    pub fn oplock(&self) -> (oplock: Option<OplockLevel>)
        ensures
            oplock == self@.oplock,
    {
        self.oplock
    }

    /// The current life of the resource.
    pub fn generation(&self) -> (generation: ResourceGeneration)
        ensures
            generation == self@.generation,
    {
        self.generation
    }

    /// The file id to use in a request, once the resource is current.
    pub fn file_id(&self) -> (id: Result<FileId, ResourceError>)
        ensures
            id == (if self@.open {
                Ok::<FileId, ResourceError>(self@.generation.file_id)
            } else {
                Err(ResourceError::Closed)
            }),
    {
        if !self.open {
            return Err(ResourceError::Closed);
        }
        Ok(self.generation.file_id)
    }

    /// Whether the resource is current on `share`, or has to be opened again.
    pub fn currency(&self, share: ObjectToken) -> (currency: Result<Currency, ResourceError>)
        ensures
            currency == (if self@.generation.share == share {
                Ok(Currency::Current)
            } else {
                match self@.durable_granted {
                    Some(grant) => Ok(Currency::Reconnect(grant)),
                    None => Err(ResourceError::StaleShareGeneration),
                }
            }),
    {
        if self.generation.belongs_to(share) {
            return Ok(Currency::Current);
        }
        match self.durable_granted {
            Some(grant) => Ok(Currency::Reconnect(grant)),
            None => Err(ResourceError::StaleShareGeneration),
        }
    }

    /// The request that opens a durable resource again. Its name is empty.
    pub fn reconnect_request(&self, grant: &DurableOpenGrant) -> (plan: CreatePlan)
        ensures
            plan.requested_oplock_level == OplockLevel::Unlocked,
            plan.desired_access == FileAccessMask(0),
            plan.attributes == FileAttributes(0),
            plan.share_access == (ShareAccess { read: false, write: false, delete: false }),
            plan.disposition == CreateDisposition::Open,
            plan.options == CreateOptions(0),
            plan.contexts@ == seq![
                CreateContext::DurableReconnect {
                    file_id: self@.generation.file_id,
                    create_guid: grant.create_guid,
                    persistent: grant.persistent,
                },
            ],
            !plan.dfs,
    {
        let contexts: Vec<CreateContext> = vec![
            CreateContext::DurableReconnect {
                file_id: self.generation.file_id,
                create_guid: grant.create_guid,
                persistent: grant.persistent,
            },
        ];
        assert(contexts@ =~= seq![
            CreateContext::DurableReconnect {
                file_id: self.generation.file_id,
                create_guid: grant.create_guid,
                persistent: grant.persistent,
            },
        ]);
        CreatePlan {
            requested_oplock_level: OplockLevel::Unlocked,
            desired_access: FileAccessMask(0),
            attributes: FileAttributes(0),
            share_access: ShareAccess { read: false, write: false, delete: false },
            disposition: CreateDisposition::Open,
            options: CreateOptions(0),
            contexts,
            dfs: false,
        }
    }

    /// The resource was opened again. An oplock that the server may break is
    /// registered again, for the new life.
    pub fn adopt(&mut self, candidate: ResourceGeneration) -> (oplock: Option<OplockLevel>)
        ensures
            final(self)@ == (HandleView { generation: candidate, ..old(self)@ }),
            oplock == old(self)@.oplock,
    {
        self.generation = candidate;
        self.oplock
    }

    /// The size of a transaction: what was asked for as far as it goes, else
    /// the usual size.
    pub fn calc_transact_size(&self, requested: Option<usize>) -> (size: u32)
        ensures
            size == transact_size(self@.negotiated, requested),
    {
        let maximum: u32 = self.negotiated.max_transact_size;
        match requested {
            Some(requested) => if requested as u64 > maximum as u64 {
                maximum
            } else {
                requested as u32
            },
            None => if maximum < self.negotiated.default_transaction_size {
                maximum
            } else {
                self.negotiated.default_transaction_size
            },
        }
    }

    /// Closes the resource: what to send, the first time.
    pub fn close(&mut self) -> (closed: Result<(FileId, ObjectToken), ResourceError>)
        ensures
            closed == (if old(self)@.open {
                Ok((old(self)@.generation.file_id, old(self)@.generation.object))
            } else {
                Err(ResourceError::AlreadyClosed)
            }),
            final(self)@ == (HandleView { open: false, ..old(self)@ }),
    {
        if !self.open {
            return Err(ResourceError::AlreadyClosed);
        }
        self.open = false;
        Ok((self.generation.file_id, self.generation.object))
    }
}

pub open spec fn transact_size(negotiated: Negotiated, requested: Option<usize>) -> nat {
    let maximum = negotiated.max_transact_size as nat;
    match requested {
        Some(requested) => if requested > maximum {
            maximum
        } else {
            requested as nat
        },
        None => if maximum < negotiated.default_transaction_size {
            maximum
        } else {
            negotiated.default_transaction_size as nat
        },
    }
}

/// No transaction is larger than the server allows.
pub proof fn transactions_fit(negotiated: Negotiated, requested: Option<usize>)
    ensures
        transact_size(negotiated, requested) <= negotiated.max_transact_size,
        requested matches Some(requested) ==> transact_size(negotiated, Some(requested))
            <= requested,
{
}

/// What the answer to a query means. `required` is the size that the server
/// says it needs, where it does.
pub fn query_outcome(status: Status, required: Option<usize>, provided: usize) -> (result: Result<
    (),
    ResourceError,
>)
    ensures
        result == (match status {
            Status::Success => Ok::<(), ResourceError>(()),
            Status::BufferOverflow | Status::InfoLengthMismatch => Err(
                ResourceError::BufferTooSmall { required, provided },
            ),
            Status::BufferTooSmall => Err(
                ResourceError::BufferTooSmall { required: None, provided },
            ),
            other => Err(ResourceError::UnexpectedStatus(other)),
        }),
{
    match status {
        Status::Success => Ok(()),
        Status::BufferOverflow | Status::InfoLengthMismatch => Err(
            ResourceError::BufferTooSmall { required, provided },
        ),
        Status::BufferTooSmall => Err(ResourceError::BufferTooSmall { required: None, provided }),
        other => Err(ResourceError::UnexpectedStatus(other)),
    }
}

/// A resource opened by a create request.
pub enum Resource {
    File(File),
    Directory(Directory),
    Pipe(Pipe),
}

impl Resource {
    pub open spec fn kind(&self) -> ResourceKind {
        match self {
            Resource::File(_) => ResourceKind::File,
            Resource::Directory(_) => ResourceKind::Directory,
            Resource::Pipe(_) => ResourceKind::Pipe,
        }
    }

    pub open spec fn handle_view(&self) -> HandleView {
        match self {
            Resource::File(file) => file.handle_view(),
            Resource::Directory(directory) => directory.handle_view(),
            Resource::Pipe(pipe) => pipe.handle_view(),
        }
    }

    /// Plans the create request for a resource.
    pub fn plan_create(
        name: &str,
        args: &FileCreateArgs,
        share_type: ShareType,
        is_dfs: bool,
        support: DurableSupport,
    ) -> (plan: Result<CreatePlan, ResourceError>)
        ensures
            match plan {
                Ok(plan) => {
                    &&& create_refused(name@, *args, share_type, support) is None
                    &&& plan.requested_oplock_level == oplock_for(*args)
                    &&& plan.desired_access == args.desired_access
                    &&& plan.attributes == args.attributes
                    &&& plan.share_access == (ShareAccess {
                        read: share_type == ShareType::Disk,
                        write: share_type == ShareType::Disk,
                        delete: share_type == ShareType::Disk,
                    })
                    &&& plan.disposition == args.disposition
                    &&& plan.options == args.options
                    &&& plan.contexts@ == contexts_for(*args)
                    &&& plan.dfs == is_dfs
                },
                Err(error) => create_refused(name@, *args, share_type, support) == Some(error),
            },
    {
        let on_disk = share_type == ShareType::Disk;
        if share_type == ShareType::Print && args.disposition != CreateDisposition::Create {
            return Err(ResourceError::PrinterOnlyCreates);
        }
        if name.unicode_len() > 0 && name.get_char(0) == '\\' {
            return Err(ResourceError::LeadingBackslash);
        }
        if let Some(request) = args.durable_request {
            if let Err(error) = validate_durable_request(
                request,
                support.smb3,
                support.persistent_handles,
                support.continuous_availability,
            ) {
                return Err(error);
            }
        }
        let mut contexts: Vec<CreateContext> = vec![
            CreateContext::QueryMaximalAccess,
            CreateContext::QueryOnDiskId,
        ];
        if let Some(timestamp) = args.timewarp {
            contexts.push(CreateContext::Timewarp(timestamp));
        }
        if let Some(lease) = args.lease_request {
            contexts.push(CreateContext::Lease(lease));
        }
        if let Some(request) = args.durable_request {
            contexts.push(CreateContext::Durable(request));
        }
        assert(contexts@ =~= contexts_for(*args));
        Ok(
            CreatePlan {
                requested_oplock_level: requested_oplock_level(args),
                desired_access: args.desired_access,
                attributes: args.attributes,
                share_access: ShareAccess { read: on_disk, write: on_disk, delete: on_disk },
                disposition: args.disposition,
                options: args.options,
                contexts,
                dfs: is_dfs,
            },
        )
    }

    /// Checks the answer to a create request, before an object is made for
    /// the resource: the share is still the one that was asked, and what was
    /// asked for was granted.
    pub fn check_answer(
        args: &FileCreateArgs,
        captured: ObjectToken,
        current: ObjectToken,
        answer: &CreateAnswer,
    ) -> (granted: Result<Option<DurableOpenGrant>, ResourceError>)
        ensures
            granted == (if captured != current {
                Err(ResourceError::StaleObject)
            } else {
                grant_of(*args, *answer)
            }),
    {
        if let Err(error) = validate_create_parent_epoch(captured, current) {
            return Err(error);
        }
        match args.durable_request {
            None => Ok(None),
            Some(request) => match answer.durable {
                None => Err(ResourceError::DurableNotGranted),
                Some((timeout, persistent)) => {
                    if request.persistent && !persistent {
                        return Err(ResourceError::PersistentNotGranted);
                    }
                    Ok(
                        Some(
                            DurableOpenGrant {
                                timeout,
                                persistent,
                                create_guid: request.create_guid,
                            },
                        ),
                    )
                },
            },
        }
    }

    /// Makes the resource that an answer describes.
    pub fn create(
        name: String,
        answer: &CreateAnswer,
        durable_granted: Option<DurableOpenGrant>,
        object: ObjectToken,
        share: ObjectToken,
        share_type: ShareType,
        negotiated: Negotiated,
    ) -> (resource: Result<Resource, ResourceError>)
        ensures
            match resource {
                Ok(resource) => {
                    &&& kind_for(*answer, share_type) == Ok::<ResourceKind, ResourceError>(
                        resource.kind(),
                    )
                    &&& resource.handle_view() == handle_for(
                        name@,
                        *answer,
                        durable_granted,
                        object,
                        share,
                        negotiated,
                    )
                    &&& resource matches Resource::File(file) ==> file.len() == answer.end_of_file
                },
                Err(error) => kind_for(*answer, share_type) == Err::<ResourceKind, ResourceError>(
                    error,
                ),
            },
    {
        let access = match answer.maximal_access {
            Some(access) => access,
            None => FileAccessMask::all(),
        };
        let oplock = match answer.oplock_level {
            OplockLevel::II | OplockLevel::Exclusive | OplockLevel::Batch => Some(
                answer.oplock_level,
            ),
            _ => None,
        };
        let handle = ResourceHandle {
            name,
            generation: ResourceGeneration { file_id: answer.file_id, object, share },
            open: true,
            access,
            durable_granted,
            oplock,
            negotiated,
            opened: OpenedFacts::from_answer(answer),
        };
        if answer.attributes.directory() {
            return Ok(Resource::Directory(Directory::new(handle)));
        }
        match share_type {
            ShareType::Disk => Ok(Resource::File(File::new(handle, answer.end_of_file))),
            ShareType::Pipe => Ok(Resource::Pipe(Pipe::new(handle))),
            ShareType::Print => Err(ResourceError::PrinterUnsupported),
        }
    }

    /// The handle, whatever the kind.
    pub fn handle(&self) -> (handle: Option<&ResourceHandle>)
        ensures
            handle matches Some(handle) && handle@ == self.handle_view(),
    {
        match self {
            Resource::File(file) => Some(file.handle()),
            Resource::Directory(directory) => Some(directory.handle()),
            Resource::Pipe(pipe) => Some(pipe.handle()),
        }
    }

    pub fn into_file(self) -> (file: Result<File, (ResourceError, Resource)>)
        ensures
            match self {
                Resource::File(inner) => file == Ok::<File, (ResourceError, Resource)>(inner),
                other => file == Err::<File, (ResourceError, Resource)>(
                    (ResourceError::NotAFile, other),
                ),
            },
    {
        match self {
            Resource::File(file) => Ok(file),
            other => Err((ResourceError::NotAFile, other)),
        }
    }

    pub fn into_directory(self) -> (directory: Result<Directory, (ResourceError, Resource)>)
        ensures
            match self {
                Resource::Directory(inner) => directory == Ok::<
                    Directory,
                    (ResourceError, Resource),
                >(inner),
                other => directory == Err::<Directory, (ResourceError, Resource)>(
                    (ResourceError::NotADirectory, other),
                ),
            },
    {
        match self {
            Resource::Directory(directory) => Ok(directory),
            other => Err((ResourceError::NotADirectory, other)),
        }
    }

    pub fn into_pipe(self) -> (pipe: Result<Pipe, (ResourceError, Resource)>)
        ensures
            match self {
                Resource::Pipe(inner) => pipe == Ok::<Pipe, (ResourceError, Resource)>(inner),
                other => pipe == Err::<Pipe, (ResourceError, Resource)>(
                    (ResourceError::NotAPipe, other),
                ),
            },
    {
        match self {
            Resource::Pipe(pipe) => Ok(pipe),
            other => Err((ResourceError::NotAPipe, other)),
        }
    }
}

/// A durable open only succeeds with what was asked for: where a persistent
/// open was asked for, none that is not persistent is accepted.
pub proof fn grants_are_no_less_than_asked(args: FileCreateArgs, answer: CreateAnswer)
    ensures
        grant_of(args, answer) matches Ok(granted) ==> {
            &&& granted is Some == args.durable_request is Some
            &&& granted matches Some(grant) ==> {
                let request = args.durable_request->Some_0;
                &&& request.persistent ==> grant.persistent
                &&& grant.create_guid == request.create_guid
            }
        },
{
}

/// A durable open may be asked for where the dialect has it, and a persistent
/// one where the connection keeps handles and the share is continuously
/// available, too.
pub proof fn durable_opens_need_support(
    request: DurableOpenRequest,
    smb3: bool,
    persistent_handles: bool,
    continuous_availability: bool,
)
    ensures
        ({
            let allowed = durable_allowed(
                request,
                smb3,
                persistent_handles,
                continuous_availability,
            );
            &&& allowed is Ok <==> smb3 && (request.persistent ==> persistent_handles
                && continuous_availability)
            &&& allowed == Err::<(), ResourceError>(ResourceError::DurableUnsupported) <==> !smb3
            &&& allowed is Err && smb3 ==> allowed == Err::<(), ResourceError>(
                ResourceError::PersistentUnsupported,
            )
        }),
{
}

/// A lease is asked for where one is wanted; else a durable open asks for a
/// batch oplock, and anything else for none.
pub proof fn oplocks_follow_the_wishes(args: FileCreateArgs)
    ensures
        oplock_for(args) == OplockLevel::Lease <==> args.lease_request is Some,
        oplock_for(args) == OplockLevel::Batch <==> args.lease_request is None
            && args.durable_request is Some,
        oplock_for(args) == OplockLevel::Unlocked <==> args.lease_request is None
            && args.durable_request is None,
{
}

/// A create request always asks for the access it can get and for the
/// identifier on disk, and behind these for what is wanted and nothing else:
/// a previous version, a lease, a durable open, in this order.
pub proof fn contexts_carry_the_wishes(args: FileCreateArgs)
    ensures
        ({
            let contexts = contexts_for(args);
            let versions: nat = if args.timewarp is Some {
                1
            } else {
                0
            };
            let leases: nat = if args.lease_request is Some {
                1
            } else {
                0
            };
            let durables: nat = if args.durable_request is Some {
                1
            } else {
                0
            };
            &&& contexts.len() == 2 + versions + leases + durables
            &&& contexts[0] == CreateContext::QueryMaximalAccess
            &&& contexts[1] == CreateContext::QueryOnDiskId
            &&& args.timewarp matches Some(moment) ==> contexts[2] == CreateContext::Timewarp(
                moment,
            )
            &&& args.lease_request matches Some(lease) ==> contexts[2 + versions as int]
                == CreateContext::Lease(lease)
            &&& args.durable_request matches Some(request) ==> contexts[2 + versions as int
                + leases] == CreateContext::Durable(request)
        }),
{
}

/// A create request is refused before it is sent in three cases alone: a
/// printer is asked for anything but a new job, the name begins with a
/// backslash, or a durable open is wanted that is not supported.
pub proof fn creates_are_refused_with_reason(
    name: Seq<char>,
    args: FileCreateArgs,
    share_type: ShareType,
    support: DurableSupport,
)
    ensures
        ({
            let refused = create_refused(name, args, share_type, support);
            let printing = share_type is Print && !(args.disposition is Create);
            let backslash = name.len() > 0 && name[0] == '\\';
            let unsupported = args.durable_request is Some && (!support.smb3 || (
            args.durable_request->Some_0.persistent && !(support.persistent_handles
                && support.continuous_availability)));
            &&& refused is None <==> !printing && !backslash && !unsupported
            &&& refused == Some(ResourceError::PrinterOnlyCreates) <==> printing
            &&& refused == Some(ResourceError::LeadingBackslash) <==> !printing && backslash
            &&& refused == Some(ResourceError::DurableUnsupported) <==> !printing && !backslash
                && unsupported && !support.smb3
            &&& refused == Some(ResourceError::PersistentUnsupported) <==> !printing
                && !backslash && unsupported && support.smb3
        }),
{
}

/// What was granted is what the answer says, under the identifier that was
/// asked for; an answer that grants less than was asked for is refused.
pub proof fn grants_are_those_of_the_answer(args: FileCreateArgs, answer: CreateAnswer)
    ensures
        args.durable_request is None <==> grant_of(args, answer) == Ok::<
            Option<DurableOpenGrant>,
            ResourceError,
        >(None),
        args.durable_request matches Some(request) ==> match grant_of(args, answer) {
            Ok(granted) => {
                &&& granted matches Some(grant) && answer.durable == Some(
                    (grant.timeout, grant.persistent),
                ) && grant.create_guid == request.create_guid
                &&& request.persistent ==> answer.durable->Some_0.1
            },
            Err(error) => {
                ||| error == ResourceError::DurableNotGranted && answer.durable is None
                ||| error == ResourceError::PersistentNotGranted && request.persistent
                    && answer.durable is Some && !answer.durable->Some_0.1
            },
        },
{
}

/// A directory is a directory on every share; anything else is a file on a
/// disk and a pipe among pipes, and nothing on a printer.
pub proof fn kinds_follow_the_answer(answer: CreateAnswer, share_type: ShareType)
    ensures
        ({
            let directory = (answer.attributes.0 / 0x10) % 2 == 1;
            let kind = kind_for(answer, share_type);
            &&& kind == Ok::<ResourceKind, ResourceError>(ResourceKind::Directory) <==> directory
            &&& kind == Ok::<ResourceKind, ResourceError>(ResourceKind::File) <==> !directory
                && share_type is Disk
            &&& kind == Ok::<ResourceKind, ResourceError>(ResourceKind::Pipe) <==> !directory
                && share_type is Pipe
            &&& kind == Err::<ResourceKind, ResourceError>(ResourceError::PrinterUnsupported)
                <==> !directory && share_type is Print
        }),
{
}

/// A resource that was opened is open, under the name, the identity and the
/// share that it was opened with. Where the server does not say what it
/// allows, everything may be tried; an oplock is kept where it can be broken.
pub proof fn opened_resources_are_as_answered(
    name: Seq<char>,
    answer: CreateAnswer,
    granted: Option<DurableOpenGrant>,
    object: ObjectToken,
    share: ObjectToken,
    negotiated: Negotiated,
)
    ensures
        ({
            let handle = handle_for(name, answer, granted, object, share, negotiated);
            let level = answer.oplock_level;
            &&& handle.open
            &&& handle.name == name
            &&& handle.generation.file_id == answer.file_id
            &&& handle.generation.object == object
            &&& handle.generation.share == share
            &&& handle.durable_granted == granted
            &&& handle.negotiated == negotiated
            &&& answer.maximal_access matches Some(access) ==> handle.access == access
            &&& answer.maximal_access is None ==> handle.access.0 == u32::MAX
            &&& handle.oplock is None <==> level is Unlocked || level is Lease
            &&& handle.oplock matches Some(kept) ==> kept == level
            &&& handle.opened.created == answer.created
            &&& handle.opened.accessed == answer.accessed
            &&& handle.opened.written == answer.written
            &&& handle.opened.changed == answer.changed
            &&& handle.opened.end_of_file == answer.end_of_file
            &&& handle.opened.attributes == answer.attributes
            &&& handle.opened.reparse_point == answer.reparse_point
            &&& handle.opened.on_disk_id == answer.on_disk_id
        }),
{
}

/// A transaction is as large as asked for where the server allows that, and
/// as large as the server allows where it does not; where nothing is asked
/// for it has the usual size, as far as the server allows.
pub proof fn transactions_are_as_large_as_allowed(negotiated: Negotiated, requested: Option<usize>)
    ensures
        ({
            let wanted = match requested {
                Some(size) => size as nat,
                None => negotiated.default_transaction_size as nat,
            };
            let maximum = negotiated.max_transact_size as nat;
            &&& wanted <= maximum ==> transact_size(negotiated, requested) == wanted
            &&& wanted > maximum ==> transact_size(negotiated, requested) == maximum
        }),
{
}

} // verus!
