//! What a resource is asked, and told, about itself.

use crate::identity::FileId;
use crate::protocol::Status;
use crate::resource::file::FileOperationOptions;
use crate::resource::{
    query_outcome, transact_size, transactions_fit, HandleView, ResourceError, ResourceHandle,
};
use crate::runtime::operation::ReplayPolicy;
use crate::runtime::port::AdditionalInfo;
use vstd::prelude::*;

verus! {

/// What a query is about.
#[derive(Clone, Copy, Debug, PartialEq, Eq, Structural)]
pub enum InfoSubject {
    /// A class of information about a file.
    File { class: u8 },
    Security,
    Quota,
}

/// How a query walks over what it finds.
#[derive(Clone, Copy, Debug, PartialEq, Eq, Structural)]
pub struct QueryInfoFlags {
    pub restart_scan: bool,
    pub return_single_entry: bool,
    pub index_specified: bool,
}

/// The flags of a query that walks over nothing.
pub open spec fn no_flags() -> QueryInfoFlags {
    QueryInfoFlags { restart_scan: false, return_single_entry: false, index_specified: false }
}

/// The selection of a query that selects nothing.
pub open spec fn no_selection() -> AdditionalInfo {
    AdditionalInfo { dacl: false, protected_dacl: false, unprotected_dacl: false }
}

/// A query.
#[derive(Clone, Copy, Debug, PartialEq, Eq, Structural)]
pub struct QueryInfoPlan {
    pub file_id: FileId,
    pub subject: InfoSubject,
    pub additional_info: AdditionalInfo,
    pub flags: QueryInfoFlags,
    pub output_buffer_length: u32,
}

/// Whether the answer to a query may have a status.
pub open spec fn query_allows(status: Status) -> bool {
    status == Status::Success || status == Status::BufferOverflow || status
        == Status::BufferTooSmall || status == Status::InfoLengthMismatch
}

impl QueryInfoPlan {
    pub fn accepts_status(&self, status: Status) -> (accepts: bool)
        ensures
            accepts == query_allows(status),
    {
        match status {
            Status::Success
            | Status::BufferOverflow
            | Status::BufferTooSmall
            | Status::InfoLengthMismatch => true,
            _ => false,
        }
    }

    /// What the answer means. `required` is the size that the server says it
    /// needs, where it does.
    pub fn outcome(&self, status: Status, required: Option<usize>) -> (result: Result<
        (),
        ResourceError,
    >)
        ensures
            result == (match status {
                Status::Success => Ok::<(), ResourceError>(()),
                Status::BufferOverflow | Status::InfoLengthMismatch => Err(
                    ResourceError::BufferTooSmall {
                        required,
                        provided: self.output_buffer_length as usize,
                    },
                ),
                Status::BufferTooSmall => Err(
                    ResourceError::BufferTooSmall {
                        required: None,
                        provided: self.output_buffer_length as usize,
                    },
                ),
                other => Err(ResourceError::UnexpectedStatus(other)),
            }),
    {
        query_outcome(status, required, self.output_buffer_length as usize)
    }
}

/// A control request.
#[derive(Clone, Copy, Debug, PartialEq, Eq, Structural)]
pub struct IoctlPlan {
    pub file_id: FileId,
    pub control_code: u32,
    /// How much of its input may come back.
    pub max_input_response: u32,
    pub max_output_response: u32,
    /// Whether the code belongs to the file system.
    pub is_fsctl: bool,
    pub options: FileOperationOptions,
}

/// What is set.
#[derive(Clone, Copy, Debug, PartialEq, Eq, Structural)]
pub struct SetInfoPlan {
    pub file_id: FileId,
    pub subject: InfoSubject,
    pub additional_info: AdditionalInfo,
}

/// A query of an open resource.
pub open spec fn query_of(
    handle: HandleView,
    subject: InfoSubject,
    additional_info: AdditionalInfo,
    flags: QueryInfoFlags,
    output_buffer_length: Option<usize>,
) -> Result<QueryInfoPlan, ResourceError> {
    if handle.open {
        Ok(
            QueryInfoPlan {
                file_id: handle.generation.file_id,
                subject,
                additional_info,
                flags,
                output_buffer_length: transact_size(handle.negotiated, output_buffer_length) as u32,
            },
        )
    } else {
        Err(ResourceError::Closed)
    }
}

impl ResourceHandle {
    /// Plans a query. Its buffer is as large as asked for, as far as a
    /// transaction goes.
    pub(crate) fn query_common(
        &self,
        subject: InfoSubject,
        additional_info: AdditionalInfo,
        flags: QueryInfoFlags,
        output_buffer_length: Option<usize>,
    ) -> (plan: Result<QueryInfoPlan, ResourceError>)
        ensures
            plan == query_of(self@, subject, additional_info, flags, output_buffer_length),
    {
        let file_id = match self.file_id() {
            Ok(file_id) => file_id,
            Err(error) => {
                return Err(error);
            },
        };
        let output_buffer_length: u32 = self.calc_transact_size(output_buffer_length);
        Ok(QueryInfoPlan { file_id, subject, additional_info, flags, output_buffer_length })
    }

    /// Plans a query for a class of information about a file.
    pub fn query_info_with_options(
        &self,
        class: u8,
        flags: QueryInfoFlags,
        output_buffer_length: Option<usize>,
    ) -> (plan: Result<QueryInfoPlan, ResourceError>)
        ensures
            plan == query_of(
                self@,
                InfoSubject::File { class },
                no_selection(),
                flags,
                output_buffer_length,
            ),
    {
        self.query_common(
            InfoSubject::File { class },
            AdditionalInfo { dacl: false, protected_dacl: false, unprotected_dacl: false },
            flags,
            output_buffer_length,
        )
    }

    pub fn query_info(&self, class: u8) -> (plan: Result<QueryInfoPlan, ResourceError>)
        ensures
            plan == query_of(
                self@,
                InfoSubject::File { class },
                no_selection(),
                no_flags(),
                None,
            ),
    {
        self.query_info_with_options(
            class,
            QueryInfoFlags {
                restart_scan: false,
                return_single_entry: false,
                index_specified: false,
            },
            None,
        )
    }

    /// Plans a query for a part of the security descriptor.
    pub fn query_security_info_with_options(
        &self,
        additional_info: AdditionalInfo,
        output_buffer_length: Option<usize>,
    ) -> (plan: Result<QueryInfoPlan, ResourceError>)
        ensures
            plan == query_of(
                self@,
                InfoSubject::Security,
                additional_info,
                no_flags(),
                output_buffer_length,
            ),
    {
        self.query_common(
            InfoSubject::Security,
            additional_info,
            QueryInfoFlags {
                restart_scan: false,
                return_single_entry: false,
                index_specified: false,
            },
            output_buffer_length,
        )
    }

    pub fn query_security_info(&self, additional_info: AdditionalInfo) -> (plan: Result<
        QueryInfoPlan,
        ResourceError,
    >)
        ensures
            plan == query_of(self@, InfoSubject::Security, additional_info, no_flags(), None),
    {
        self.query_security_info_with_options(additional_info, None)
    }

    /// Plans a control request.
    pub(crate) fn ioctl(
        &self,
        control_code: u32,
        max_input_response: u32,
        max_output_response: u32,
        is_fsctl: bool,
        options: FileOperationOptions,
    ) -> (plan: Result<IoctlPlan, ResourceError>)
        ensures
            plan == (if self@.open {
                Ok(
                    IoctlPlan {
                        file_id: self@.generation.file_id,
                        control_code,
                        max_input_response,
                        max_output_response,
                        is_fsctl,
                        options,
                    },
                )
            } else {
                Err(ResourceError::Closed)
            }),
    {
        match self.file_id() {
            Ok(file_id) => Ok(
                IoctlPlan {
                    file_id,
                    control_code,
                    max_input_response,
                    max_output_response,
                    is_fsctl,
                    options,
                },
            ),
            Err(error) => Err(error),
        }
    }

    /// Plans a control request of the file system. None of its input comes
    /// back.
    pub fn fsctl_with_operation(
        &self,
        control_code: u32,
        max_output_response: u32,
        operation: FileOperationOptions,
    ) -> (plan: Result<IoctlPlan, ResourceError>)
        ensures
            plan == (if self@.open {
                Ok(
                    IoctlPlan {
                        file_id: self@.generation.file_id,
                        control_code,
                        max_input_response: 0,
                        max_output_response,
                        is_fsctl: true,
                        options: operation,
                    },
                )
            } else {
                Err(ResourceError::Closed)
            }),
    {
        self.ioctl(control_code, 0, max_output_response, true, operation)
    }

    /// Plans a control request that has no deadline of its own and is never
    /// sent again.
    pub fn fsctl_with_options(&self, control_code: u32, max_output_response: u32) -> (plan: Result<
        IoctlPlan,
        ResourceError,
    >)
        ensures
            plan == (if self@.open {
                Ok(
                    IoctlPlan {
                        file_id: self@.generation.file_id,
                        control_code,
                        max_input_response: 0,
                        max_output_response,
                        is_fsctl: true,
                        options: (FileOperationOptions {
                            timeout: None,
                            replay: ReplayPolicy::NeverReplay,
                        }),
                    },
                )
            } else {
                Err(ResourceError::Closed)
            }),
    {
        self.fsctl_with_operation(control_code, max_output_response, FileOperationOptions::default())
    }

    fn set_info_common(&self, subject: InfoSubject, additional_info: AdditionalInfo) -> (plan:
        Result<SetInfoPlan, ResourceError>)
        ensures
            plan == (if self@.open {
                Ok(
                    SetInfoPlan {
                        file_id: self@.generation.file_id,
                        subject,
                        additional_info,
                    },
                )
            } else {
                Err(ResourceError::Closed)
            }),
    {
        match self.file_id() {
            Ok(file_id) => Ok(SetInfoPlan { file_id, subject, additional_info }),
            Err(error) => Err(error),
        }
    }

    /// Plans to set a class of information about a file.
    pub fn set_info(&self, class: u8) -> (plan: Result<SetInfoPlan, ResourceError>)
        ensures
            plan == (if self@.open {
                Ok(
                    SetInfoPlan {
                        file_id: self@.generation.file_id,
                        subject: InfoSubject::File { class },
                        additional_info: no_selection(),
                    },
                )
            } else {
                Err(ResourceError::Closed)
            }),
    {
        self.set_info_common(
            InfoSubject::File { class },
            AdditionalInfo { dacl: false, protected_dacl: false, unprotected_dacl: false },
        )
    }

    /// Plans to set a part of the security descriptor.
    pub fn set_security_info(&self, additional_info: AdditionalInfo) -> (plan: Result<
        SetInfoPlan,
        ResourceError,
    >)
        ensures
            plan == (if self@.open {
                Ok(
                    SetInfoPlan {
                        file_id: self@.generation.file_id,
                        subject: InfoSubject::Security,
                        additional_info,
                    },
                )
            } else {
                Err(ResourceError::Closed)
            }),
    {
        self.set_info_common(InfoSubject::Security, additional_info)
    }
}

/// No query asks for more than a transaction may carry, and none of a closed
/// resource is sent.
pub proof fn queries_fit(
    handle: HandleView,
    subject: InfoSubject,
    additional_info: AdditionalInfo,
    flags: QueryInfoFlags,
    output_buffer_length: Option<usize>,
)
    ensures
        match query_of(handle, subject, additional_info, flags, output_buffer_length) {
            Ok(plan) => handle.open && plan.output_buffer_length
                <= handle.negotiated.max_transact_size,
            Err(_) => !handle.open,
        },
{
    transactions_fit(handle.negotiated, output_buffer_length);
}

/// A query asks its own file for what it is about, selected and walked over
/// as it was told; its buffer is as large as was asked for, or as usual, as
/// far as the server allows.
pub proof fn queries_ask_for_what_was_wanted(
    handle: HandleView,
    subject: InfoSubject,
    additional_info: AdditionalInfo,
    flags: QueryInfoFlags,
    wanted: Option<usize>,
)
    ensures
        match query_of(handle, subject, additional_info, flags, wanted) {
            Ok(plan) => {
                let size = match wanted {
                    Some(size) => size as int,
                    None => handle.negotiated.default_transaction_size as int,
                };
                let maximum = handle.negotiated.max_transact_size as int;
                &&& handle.open
                &&& plan.file_id == handle.generation.file_id
                &&& plan.subject == subject
                &&& plan.additional_info == additional_info
                &&& plan.flags == flags
                &&& plan.output_buffer_length == if size <= maximum {
                    size
                } else {
                    maximum
                }
            },
            Err(error) => error == ResourceError::Closed && !handle.open,
        },
{
    transactions_fit(handle.negotiated, wanted);
}

/// A query may be answered with success, or with one of the three statuses
/// that say that its buffer is too small.
pub proof fn queries_allow_for_small_buffers(status: Status)
    ensures
        query_allows(status) <==> (status is Success || status is BufferOverflow || status
            is BufferTooSmall || status is InfoLengthMismatch),
{
}

/// A query that walks over nothing and selects nothing says so.
pub proof fn nothing_is_selected_unasked()
    ensures
        !no_flags().restart_scan,
        !no_flags().return_single_entry,
        !no_flags().index_specified,
        !no_selection().dacl,
        !no_selection().protected_dacl,
        !no_selection().unprotected_dacl,
{
}

} // verus!
