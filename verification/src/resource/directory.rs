//! Directories: listing, watching and quotas.

use crate::clock::{Duration, MAX_NANOS};
use crate::fscc::{has_bit, FileAccessMask, FILE_READ_DATA};
use crate::identity::FileId;
use crate::protocol::Status;
use crate::resource::info::{
    no_selection, query_of, InfoSubject, QueryInfoFlags, QueryInfoPlan,
};
use crate::resource::{transact_size, HandleView, ResourceError, ResourceHandle};
use crate::runtime::port::AdditionalInfo;
use vstd::prelude::*;

verus! {

/// How many bytes a listing asks for at a time, unless told otherwise.
pub const QUERY_DIRECTORY_DEFAULT_BUFFER_SIZE: u32 = 0x10000;

/// How many changes may wait for whoever watches.
pub const WATCH_EVENT_CAPACITY: usize = 1024;

/// What happened to an entry of a directory.
#[derive(Clone, Copy, Debug, PartialEq, Eq, Structural)]
pub enum NotifyAction {
    Added,
    Removed,
    Modified,
    RenamedOldName,
    RenamedNewName,
    AddedStream,
    RemovedStream,
    ModifiedStream,
    RemovedByDelete,
    IdNotTunnelled,
    TunnelledIdCollision,
}

/// A change in a directory.
#[derive(Debug, PartialEq, Eq)]
pub struct FileNotifyInformation {
    pub action: NotifyAction,
    pub file_name: String,
}

/// A request for entries.
#[derive(Clone, Copy, Debug, PartialEq, Eq, Structural)]
pub struct QueryDirectoryPlan {
    pub file_id: FileId,
    pub restart: bool,
    pub output_buffer_length: u32,
}

/// A request for changes.
#[derive(Clone, Copy, Debug, PartialEq, Eq, Structural)]
pub struct WatchPlan {
    pub file_id: FileId,
    /// The kinds of changes that are of interest, as the protocol encodes
    /// them.
    pub filter: u32,
    pub recursive: bool,
    pub output_buffer_length: u32,
    pub timeout: Duration,
}

/// How the answer to a request for entries is read.
#[derive(Clone, Copy, Debug, PartialEq, Eq, Structural)]
pub enum ListingStep {
    /// It holds entries.
    Entries,
    /// There are no more.
    End,
}

/// One result of watching a directory.
pub enum DirectoryWatchResult {
    /// Changes that occurred.
    Notifications(Vec<FileNotifyInformation>),
    /// The buffer cannot hold the changes.
    NotifyEnumDir { provided_size: usize },
    /// The server gave the watch up, as when the directory was closed.
    Cleanup,
    /// The watch was cancelled.
    Cancelled,
    /// The directory could not be watched.
    Error(ResourceError),
}

impl DirectoryWatchResult {
    /// The changes; everything else is an error.
    pub fn into_result(self) -> (result: Result<Vec<FileNotifyInformation>, ResourceError>)
        ensures
            result == (match self {
                DirectoryWatchResult::Notifications(changes) => Ok::<
                    Vec<FileNotifyInformation>,
                    ResourceError,
                >(changes),
                DirectoryWatchResult::Cancelled => Err(ResourceError::Cancelled),
                DirectoryWatchResult::Cleanup => Err(ResourceError::CleanedUp),
                DirectoryWatchResult::Error(error) => Err(error),
                DirectoryWatchResult::NotifyEnumDir { provided_size } => Err(
                    ResourceError::BufferTooSmall { required: None, provided: provided_size },
                ),
            }),
    {
        match self {
            DirectoryWatchResult::Notifications(changes) => Ok(changes),
            DirectoryWatchResult::Cancelled => Err(ResourceError::Cancelled),
            DirectoryWatchResult::Cleanup => Err(ResourceError::CleanedUp),
            DirectoryWatchResult::Error(error) => Err(error),
            DirectoryWatchResult::NotifyEnumDir { provided_size } => Err(
                ResourceError::BufferTooSmall { required: None, provided: provided_size },
            ),
        }
    }
}

/// What the status of an answer means to whoever watches.
#[derive(Clone, Copy, Debug, PartialEq, Eq, Structural)]
pub enum WatchStep {
    /// The answer holds changes.
    Notifications,
    NotifyEnumDir { provided_size: usize },
    Cleanup,
    Cancelled,
    Error(ResourceError),
}

pub fn watch_outcome(status: Status, output_buffer_length: u32) -> (step: WatchStep)
    ensures
        step == (match status {
            Status::Success => WatchStep::Notifications,
            Status::Cancelled => WatchStep::Cancelled,
            Status::NotifyCleanup => WatchStep::Cleanup,
            Status::NotifyEnumDir => WatchStep::NotifyEnumDir {
                provided_size: output_buffer_length as usize,
            },
            other => WatchStep::Error(ResourceError::UnexpectedStatus(other)),
        }),
{
    match status {
        Status::Success => WatchStep::Notifications,
        Status::Cancelled => WatchStep::Cancelled,
        Status::NotifyCleanup => WatchStep::Cleanup,
        Status::NotifyEnumDir => WatchStep::NotifyEnumDir {
            provided_size: output_buffer_length as usize,
        },
        other => WatchStep::Error(ResourceError::UnexpectedStatus(other)),
    }
}

/// What a stream of changes does with a result.
#[derive(Clone, Copy, Debug, PartialEq, Eq, Structural)]
pub enum WatchStreamStep {
    /// Hands its changes on and watches again.
    Publish,
    /// Ends without a word.
    End,
    /// Ends with an error.
    Fail(ResourceError),
}

/// A watch that was cancelled ends in silence where the reader asked for
/// that, and is an error where nobody did.
pub fn watch_stream_step(result: WatchStep, cancelled: bool, reader_gone: bool) -> (step:
    WatchStreamStep)
    ensures
        step == (match result {
            WatchStep::Notifications => WatchStreamStep::Publish,
            WatchStep::Cancelled => if !cancelled && !reader_gone {
                WatchStreamStep::Fail(ResourceError::Cancelled)
            } else {
                WatchStreamStep::End
            },
            WatchStep::Cleanup => WatchStreamStep::End,
            WatchStep::NotifyEnumDir { provided_size } => WatchStreamStep::Fail(
                ResourceError::BufferTooSmall { required: None, provided: provided_size },
            ),
            WatchStep::Error(error) => WatchStreamStep::Fail(error),
        }),
{
    match result {
        WatchStep::Notifications => WatchStreamStep::Publish,
        WatchStep::Cancelled => if !cancelled && !reader_gone {
            WatchStreamStep::Fail(ResourceError::Cancelled)
        } else {
            WatchStreamStep::End
        },
        WatchStep::Cleanup => WatchStreamStep::End,
        WatchStep::NotifyEnumDir { provided_size } => WatchStreamStep::Fail(
            ResourceError::BufferTooSmall { required: None, provided: provided_size },
        ),
        WatchStep::Error(error) => WatchStreamStep::Fail(error),
    }
}

/// What became of handing one change on.
#[derive(Clone, Copy, Debug, PartialEq, Eq, Structural)]
pub enum Handed {
    Taken,
    /// The reader is gone.
    Closed,
    /// The reader lags behind.
    Full,
}

/// What follows from handing one change on.
#[derive(Clone, Copy, Debug, PartialEq, Eq, Structural)]
pub enum PublishStep {
    Continue,
    /// Cancels the watch, and tells the reader why where it is still there.
    Stop { report: Option<ResourceError> },
}

/// A reader that lags behind is told so and loses the watch: no change is
/// dropped in silence.
pub fn publish_change(handed: Handed, capacity: usize) -> (step: PublishStep)
    ensures
        step == (match handed {
            Handed::Taken => PublishStep::Continue,
            Handed::Closed => PublishStep::Stop { report: None },
            Handed::Full => PublishStep::Stop {
                report: Some(ResourceError::EventQueueOverflow { capacity }),
            },
        }),
{
    match handed {
        Handed::Taken => PublishStep::Continue,
        Handed::Closed => PublishStep::Stop { report: None },
        Handed::Full => PublishStep::Stop {
            report: Some(ResourceError::EventQueueOverflow { capacity }),
        },
    }
}

/// How the answer to a request for entries is read.
pub fn listing_outcome(status: Status, buffer_size: u32) -> (step: Result<
    ListingStep,
    ResourceError,
>)
    ensures
        step == (match status {
            Status::Success => Ok(ListingStep::Entries),
            Status::NoMoreFiles => Ok(ListingStep::End),
            Status::InfoLengthMismatch => Err(
                ResourceError::QueryBufferTooSmall { buffer_size },
            ),
            other => Err(ResourceError::UnexpectedStatus(other)),
        }),
{
    match status {
        Status::Success => Ok(ListingStep::Entries),
        Status::NoMoreFiles => Ok(ListingStep::End),
        Status::InfoLengthMismatch => Err(
            ResourceError::QueryBufferTooSmall { buffer_size },
        ),
        other => Err(ResourceError::UnexpectedStatus(other)),
    }
}

/// A directory on the server.
pub struct Directory {
    handle: ResourceHandle,
    access: FileAccessMask,
}

impl Directory {
    pub closed spec fn handle_view(&self) -> HandleView {
        self.handle@
    }

    pub closed spec fn may_list(&self) -> bool {
        has_bit(self.access.0, FILE_READ_DATA)
    }

    pub fn new(handle: ResourceHandle) -> (directory: Self)
        ensures
            directory.handle_view() == handle@,
            directory.may_list() == has_bit(handle@.access.0, FILE_READ_DATA),
    {
        let access = handle.access();
        Directory { handle, access }
    }

    pub fn handle(&self) -> (handle: &ResourceHandle)
        ensures
            handle@ == self.handle_view(),
    {
        &self.handle
    }

    /// The handle, to be closed or opened again.
    pub fn handle_mut(&mut self) -> (handle: &mut ResourceHandle)
        ensures
            (*handle)@ == old(self).handle_view(),
            final(self).handle_view() == (*final(handle))@,
            final(self).may_list() == old(self).may_list(),
    {
        &mut self.handle
    }

    /// Begins a listing of the entries that match a pattern.
    pub fn query(&self, pattern: String) -> (stream: QueryDirectoryStream)
        ensures
            stream@ == begun_listing(
                pattern@,
                QUERY_DIRECTORY_DEFAULT_BUFFER_SIZE,
                self.handle_view().negotiated.max_transact_size,
            ),
            stream@.buffer_size == if 0x10000 < self.handle_view().negotiated.max_transact_size {
                0x10000
            } else {
                self.handle_view().negotiated.max_transact_size
            },
    {
        self.query_with_options(pattern, QUERY_DIRECTORY_DEFAULT_BUFFER_SIZE)
    }

    /// Begins a listing. Its buffer is as large as asked for, as far as the
    /// server allows.
    pub fn query_with_options(&self, pattern: String, buffer_size: u32) -> (stream:
        QueryDirectoryStream)
        ensures
            stream@ == begun_listing(
                pattern@,
                buffer_size,
                self.handle_view().negotiated.max_transact_size,
            ),
    {
        let maximum: u32 = self.handle.negotiated().max_transact_size;
        let buffer_size: u32 = if buffer_size < maximum {
            buffer_size
        } else {
            maximum
        };
        QueryDirectoryStream { pattern, buffer_size, started: false, ended: false }
    }

    /// Plans a request for entries.
    pub fn send_query(&self, restart: bool, buffer_size: u32) -> (plan: Result<
        QueryDirectoryPlan,
        ResourceError,
    >)
        ensures
            plan == (if !self.may_list() {
                Err(ResourceError::MissingPermissions)
            } else if buffer_size > self.handle_view().negotiated.max_transact_size {
                Err(
                    ResourceError::BufferTooLarge {
                        requested: buffer_size,
                        maximum: self.handle_view().negotiated.max_transact_size,
                    },
                )
            } else if !self.handle_view().open {
                Err(ResourceError::Closed)
            } else {
                Ok(
                    QueryDirectoryPlan {
                        file_id: self.handle_view().generation.file_id,
                        restart,
                        output_buffer_length: buffer_size,
                    },
                )
            }),
    {
        if !self.access.list_directory() {
            return Err(ResourceError::MissingPermissions);
        }
        let maximum: u32 = self.handle.negotiated().max_transact_size;
        if buffer_size > maximum {
            return Err(ResourceError::BufferTooLarge { requested: buffer_size, maximum });
        }
        match self.handle.file_id() {
            Ok(file_id) => Ok(
                QueryDirectoryPlan { file_id, restart, output_buffer_length: buffer_size },
            ),
            Err(error) => Err(error),
        }
    }

    /// Plans a request for changes.
    pub fn watch_timeout(&self, filter: u32, recursive: bool, timeout: Duration) -> (plan: Result<
        WatchPlan,
        ResourceError,
    >)
        ensures
            plan == watch_of(self.may_list(), self.handle_view(), filter, recursive, timeout),
    {
        if !self.access.list_directory() {
            return Err(ResourceError::MissingPermissions);
        }
        let output_buffer_length: u32 = self.handle.calc_transact_size(None);
        match self.handle.file_id() {
            Ok(file_id) => Ok(
                WatchPlan { file_id, filter, recursive, output_buffer_length, timeout },
            ),
            Err(error) => Err(error),
        }
    }

    /// Plans a request for changes that waits for as long as it takes.
    pub fn watch(&self, filter: u32, recursive: bool) -> (plan: Result<WatchPlan, ResourceError>)
        ensures
            plan == watch_of(
                self.may_list(),
                self.handle_view(),
                filter,
                recursive,
                Duration::of(MAX_NANOS as nat),
            ),
    {
        self.watch_timeout(filter, recursive, Duration::max())
    }

    /// Plans a query for quotas. A buffer that cannot hold an entry of
    /// `minimum` bytes is refused.
    pub fn query_quota_info_with_options(
        &self,
        restart_scan: bool,
        return_single: bool,
        output_buffer_length: Option<usize>,
        minimum: usize,
    ) -> (plan: Result<QueryInfoPlan, ResourceError>)
        ensures
            plan == (if output_buffer_length is Some && output_buffer_length->Some_0 < minimum {
                Err(
                    ResourceError::BufferTooSmall {
                        required: Some(minimum),
                        provided: output_buffer_length->Some_0,
                    },
                )
            } else {
                quota_query(
                    self.handle_view(),
                    restart_scan,
                    return_single,
                    output_buffer_length,
                )
            }),
    {
        match Self::check_quota_buffer(output_buffer_length, minimum) {
            Ok(_) => self.handle.query_common(
                InfoSubject::Quota,
                AdditionalInfo { dacl: false, protected_dacl: false, unprotected_dacl: false },
                QueryInfoFlags {
                    restart_scan,
                    return_single_entry: return_single,
                    index_specified: false,
                },
                output_buffer_length,
            ),
            Err(error) => Err(error),
        }
    }

    pub fn query_quota_info(&self, restart_scan: bool, return_single: bool, minimum: usize) -> (
        plan: Result<QueryInfoPlan, ResourceError>)
        ensures
            plan == quota_query(self.handle_view(), restart_scan, return_single, None),
    {
        self.query_quota_info_with_options(restart_scan, return_single, None, minimum)
    }

    /// Whether a buffer can hold an entry of a quota listing, where a size
    /// was asked for.
    pub fn check_quota_buffer(requested: Option<usize>, minimum: usize) -> (result: Result<
        (),
        ResourceError,
    >)
        ensures
            result == (match requested {
                Some(requested) => if requested < minimum {
                    Err(
                        ResourceError::BufferTooSmall {
                            required: Some(minimum),
                            provided: requested,
                        },
                    )
                } else {
                    Ok::<(), ResourceError>(())
                },
                None => Ok(()),
            }),
    {
        match requested {
            Some(requested) => if requested < minimum {
                Err(ResourceError::BufferTooSmall { required: Some(minimum), provided: requested })
            } else {
                Ok(())
            },
            None => Ok(()),
        }
    }
}

/// A request for changes of a directory.
pub open spec fn watch_of(
    may_list: bool,
    handle: HandleView,
    filter: u32,
    recursive: bool,
    timeout: Duration,
) -> Result<WatchPlan, ResourceError> {
    if !may_list {
        Err(ResourceError::MissingPermissions)
    } else if !handle.open {
        Err(ResourceError::Closed)
    } else {
        Ok(
            WatchPlan {
                file_id: handle.generation.file_id,
                filter,
                recursive,
                output_buffer_length: transact_size(handle.negotiated, None) as u32,
                timeout,
            },
        )
    }
}

/// A query for quotas.
pub open spec fn quota_query(
    handle: HandleView,
    restart_scan: bool,
    return_single: bool,
    output_buffer_length: Option<usize>,
) -> Result<QueryInfoPlan, ResourceError> {
    query_of(
        handle,
        InfoSubject::Quota,
        no_selection(),
        QueryInfoFlags { restart_scan, return_single_entry: return_single, index_specified: false },
        output_buffer_length,
    )
}

/// Where a listing stands.
#[verifier::ext_equal]
pub struct ListingModel {
    pub pattern: Seq<char>,
    pub buffer_size: u32,
    pub started: bool,
    pub ended: bool,
}

pub open spec fn begun_listing(pattern: Seq<char>, asked: u32, maximum: u32) -> ListingModel {
    ListingModel {
        pattern,
        buffer_size: if asked < maximum {
            asked
        } else {
            maximum
        },
        started: false,
        ended: false,
    }
}

impl ListingModel {
    /// Asks for more; nothing is asked for behind the end.
    pub open spec fn asked(self) -> (Self, Option<bool>) {
        if self.ended {
            (self, None)
        } else {
            (ListingModel { started: true, ..self }, Some(!self.started))
        }
    }

    /// An answer came; an error does not end a listing.
    pub open spec fn answered(self, entries: Result<usize, ResourceError>) -> Self {
        ListingModel {
            ended: self.ended || entries == Ok::<usize, ResourceError>(0),
            ..self
        }
    }
}

/// A listing: it begins once, and ends with the first answer that holds
/// nothing.
pub struct QueryDirectoryStream {
    pattern: String,
    buffer_size: u32,
    started: bool,
    ended: bool,
}

impl View for QueryDirectoryStream {
    type V = ListingModel;

    closed spec fn view(&self) -> ListingModel {
        ListingModel {
            pattern: self.pattern@,
            buffer_size: self.buffer_size,
            started: self.started,
            ended: self.ended,
        }
    }
}

impl QueryDirectoryStream {
    pub fn pattern(&self) -> (pattern: &str)
        ensures
            pattern@ == self@.pattern,
    {
        self.pattern.as_str()
    }

    /// The buffer of each request.
    pub fn buffer_size(&self) -> (size: u32)
        ensures
            size == self@.buffer_size,
    {
        self.buffer_size
    }

    /// Whether the next request begins the listing; `None` behind its end.
    pub fn next_request(&mut self) -> (restart: Option<bool>)
        ensures
            (final(self)@, restart) == old(self)@.asked(),
    {
        if self.ended {
            return None;
        }
        let restart = !self.started;
        self.started = true;
        Some(restart)
    }

    /// An answer came, with this many entries.
    pub fn answered(&mut self, entries: Result<usize, ResourceError>)
        ensures
            final(self)@ == old(self)@.answered(entries),
    {
        if let Ok(count) = entries {
            if count == 0 {
                self.ended = true;
            }
        }
    }
}

/// The requests of a listing, whose answers come one after the other.
pub open spec fn requests(
    listing: ListingModel,
    answers: Seq<Result<usize, ResourceError>>,
) -> (ListingModel, Seq<bool>)
    decreases answers.len(),
{
    if answers.len() == 0 {
        (listing, Seq::empty())
    } else {
        let (before, sent) = requests(listing, answers.drop_last());
        match before.asked() {
            (asked, Some(restart)) => (asked.answered(answers.last()), sent.push(restart)),
            (asked, None) => (asked, sent),
        }
    }
}

/// A listing begins with its first request, and never again.
pub proof fn listings_begin_once(
    pattern: Seq<char>,
    asked: u32,
    maximum: u32,
    answers: Seq<Result<usize, ResourceError>>,
)
    ensures
        ({
            let (listing, sent) = requests(begun_listing(pattern, asked, maximum), answers);
            &&& listing.started == (sent.len() > 0)
            &&& answers.len() > 0 ==> sent.len() > 0
            &&& forall|i: int| 0 <= i < sent.len() ==> #[trigger] sent[i] == (i == 0)
        }),
    decreases answers.len(),
{
    if answers.len() > 0 {
        listings_begin_once(pattern, asked, maximum, answers.drop_last());
        let (before, sent) = requests(begun_listing(pattern, asked, maximum), answers.drop_last());
        if answers.len() == 1 {
            assert(before == begun_listing(pattern, asked, maximum));
        }
    }
}

/// Behind an answer that holds nothing no request is sent.
pub proof fn listings_end_with_nothing(listing: ListingModel)
    ensures
        listing.answered(Ok(0)).asked().1 is None,
{
}

/// A listing goes on behind every answer that holds entries, however many,
/// and behind every failure: only an answer that holds nothing ends it.
pub proof fn listings_go_on_behind_entries(
    listing: ListingModel,
    entries: Result<usize, ResourceError>,
)
    requires
        !listing.ended,
        listing.started,
    ensures
        listing.answered(entries).asked().1 == (if entries matches Ok(count) && count == 0 {
            None::<bool>
        } else {
            Some(false)
        }),
        listing.answered(entries).pattern == listing.pattern,
        listing.answered(entries).buffer_size == listing.buffer_size,
{
}

/// A listing sends one request for each answer up to the first one that holds
/// nothing, and none behind that.
pub proof fn listings_ask_until_nothing_is_left(
    pattern: Seq<char>,
    asked: u32,
    maximum: u32,
    answers: Seq<Result<usize, ResourceError>>,
    last: int,
)
    requires
        forall|i: int|
            0 <= i < answers.len() && i < last ==> !(#[trigger] answers[i] matches Ok(count)
                && count == 0),
        0 <= last < answers.len() ==> (answers[last] matches Ok(count) && count == 0),
        0 <= last,
    ensures
        ({
            let (listing, sent) = requests(begun_listing(pattern, asked, maximum), answers);
            &&& last >= answers.len() ==> sent.len() == answers.len() && listing.asked().1 is Some
            &&& last < answers.len() ==> sent.len() == last + 1 && listing.asked().1 is None
            &&& listing.pattern == pattern
            &&& listing.buffer_size <= asked
            &&& listing.buffer_size <= maximum
            &&& listing.buffer_size == asked || listing.buffer_size == maximum
        }),
    decreases answers.len(),
{
    if answers.len() > 0 {
        listings_ask_until_nothing_is_left(
            pattern,
            asked,
            maximum,
            answers.drop_last(),
            last,
        );
        let latest = answers.last();
        assert(latest == answers[answers.len() - 1]);
    }
}

/// A listing that has ended asks for nothing and stays as it is; one that has
/// not asks, to begin the listing where it has not begun.
pub proof fn listings_ask_while_they_last(listing: ListingModel)
    ensures
        listing.ended ==> listing.asked() == (listing, None::<bool>),
        !listing.ended ==> listing.asked().1 == Some(!listing.started) && listing.asked().0
            == (ListingModel { started: true, ..listing }),
{
}

/// Changes are watched for where the directory may be listed and is open:
/// with the file, the filter, the depth and the time that were asked for, and
/// the usual buffer as far as the server allows.
pub proof fn watches_ask_for_what_was_wanted(
    may_list: bool,
    handle: HandleView,
    filter: u32,
    recursive: bool,
    timeout: Duration,
)
    ensures
        match watch_of(may_list, handle, filter, recursive, timeout) {
            Ok(plan) => {
                let usual = handle.negotiated.default_transaction_size;
                let maximum = handle.negotiated.max_transact_size;
                &&& may_list
                &&& handle.open
                &&& plan.file_id == handle.generation.file_id
                &&& plan.filter == filter
                &&& plan.recursive == recursive
                &&& plan.timeout == timeout
                &&& plan.output_buffer_length == if maximum < usual {
                    maximum
                } else {
                    usual
                }
            },
            Err(error) => {
                ||| error == ResourceError::MissingPermissions && !may_list
                ||| error == ResourceError::Closed && may_list && !handle.open
            },
        },
{
}

/// A query for quotas asks an open directory for quotas, begins again and
/// takes a single entry as it is told, and selects nothing else.
pub proof fn quotas_are_asked_for(
    handle: HandleView,
    restart_scan: bool,
    return_single: bool,
    wanted: Option<usize>,
)
    ensures
        match quota_query(handle, restart_scan, return_single, wanted) {
            Ok(plan) => {
                &&& handle.open
                &&& plan.file_id == handle.generation.file_id
                &&& plan.subject == InfoSubject::Quota
                &&& plan.flags.restart_scan == restart_scan
                &&& plan.flags.return_single_entry == return_single
                &&& !plan.flags.index_specified
                &&& !plan.additional_info.dacl
                &&& !plan.additional_info.protected_dacl
                &&& !plan.additional_info.unprotected_dacl
            },
            Err(error) => error == ResourceError::Closed && !handle.open,
        },
{
}

} // verus!
