//! Named pipes.

use crate::identity::FileId;
use crate::payload::{as_slice, byte_count, contents, copied, no_bytes, slice_of};
use crate::resource::file::FileOperationOptions;
use crate::resource::info::IoctlPlan;
use crate::resource::{HandleView, ResourceError, ResourceHandle};
use bytes::Bytes;
use vstd::prelude::*;

verus! {

/// The control code of a transaction over a pipe.
pub const FSCTL_PIPE_TRANSCEIVE: u32 = 0x0011_c017;

/// A read from a pipe.
#[derive(Clone, Copy, Debug, PartialEq, Eq, Structural)]
pub struct PipeReadPlan {
    pub file_id: FileId,
    pub length: u32,
}

/// A write to a pipe. The data travels beside it.
#[derive(Clone, Copy, Debug, PartialEq, Eq, Structural)]
pub struct PipeWritePlan {
    pub file_id: FileId,
    pub length: u32,
}

pub struct Pipe {
    handle: ResourceHandle,
}

impl Pipe {
    pub closed spec fn handle_view(&self) -> HandleView {
        self.handle@
    }

    pub fn new(handle: ResourceHandle) -> (pipe: Self)
        ensures
            pipe.handle_view() == handle@,
    {
        Pipe { handle }
    }

    pub fn handle(&self) -> (handle: &ResourceHandle)
        ensures
            handle@ == self.handle_view(),
    {
        &self.handle
    }

    /// The handle, to be closed or opened again.
    pub fn handle_mut(&mut self) -> (handle: &mut ResourceHandle)
        ensures
            (*handle)@ == old(self).handle_view(),
            final(self).handle_view() == (*final(handle))@,
    {
        &mut self.handle
    }

    /// Plans a read: nothing is sent for a read of nothing.
    pub fn plan_read(&self, max_len: u32) -> (plan: Result<Option<PipeReadPlan>, ResourceError>)
        ensures
            plan == (if max_len == 0 {
                Ok(None)
            } else if !self.handle_view().open {
                Err(ResourceError::Closed)
            } else {
                Ok(
                    Some(
                        PipeReadPlan {
                            file_id: self.handle_view().generation.file_id,
                            length: max_len,
                        },
                    ),
                )
            }),
    {
        if max_len == 0 {
            return Ok(None);
        }
        match self.handle.file_id() {
            Ok(file_id) => Ok(Some(PipeReadPlan { file_id, length: max_len })),
            Err(error) => Err(error),
        }
    }

    /// What a read of nothing gives.
    pub fn nothing() -> (data: Bytes)
        ensures
            contents(data) == Seq::<u8>::empty(),
    {
        no_bytes()
    }

    /// The data of an answer to a read: the part of the frame from `start` up
    /// to `end`, shared with it.
    pub fn read_data(raw: &Bytes, start: usize, end: usize) -> (data: Option<Bytes>)
        ensures
            match data {
                Some(data) => start <= end <= contents(*raw).len() && contents(data) == contents(
                    *raw,
                ).subrange(start as int, end as int),
                None => !(start <= end <= contents(*raw).len()),
            },
    {
        if start <= end && end <= byte_count(raw) {
            Some(slice_of(raw, start, end))
        } else {
            None
        }
    }

    /// Plans a write: nothing is sent for a write of nothing.
    pub fn plan_write(&self, bytes: &Bytes) -> (plan: Result<Option<PipeWritePlan>, ResourceError>)
        ensures
            plan == (if contents(*bytes).len() == 0 {
                Ok(None)
            } else if contents(*bytes).len() > u32::MAX {
                Err(ResourceError::TooLong)
            } else if !self.handle_view().open {
                Err(ResourceError::Closed)
            } else {
                Ok(
                    Some(
                        PipeWritePlan {
                            file_id: self.handle_view().generation.file_id,
                            length: contents(*bytes).len() as u32,
                        },
                    ),
                )
            }),
    {
        let count: usize = byte_count(bytes);
        if count == 0 {
            return Ok(None);
        }
        if count as u64 > u32::MAX as u64 {
            return Err(ResourceError::TooLong);
        }
        match self.handle.file_id() {
            Ok(file_id) => Ok(Some(PipeWritePlan { file_id, length: count as u32 })),
            Err(error) => Err(error),
        }
    }

    /// Plans a transaction: a request and its answer in one.
    pub fn plan_transact(&self, max_response: u32, options: FileOperationOptions) -> (plan: Result<
        IoctlPlan,
        ResourceError,
    >)
        ensures
            plan == (if self.handle_view().open {
                Ok(
                    IoctlPlan {
                        file_id: self.handle_view().generation.file_id,
                        control_code: FSCTL_PIPE_TRANSCEIVE,
                        max_input_response: 0,
                        max_output_response: max_response,
                        is_fsctl: true,
                        options,
                    },
                )
            } else {
                Err(ResourceError::Closed)
            }),
            plan matches Ok(plan) ==> plan.control_code == 0x0011_c017,
    {
        self.handle.fsctl_with_operation(FSCTL_PIPE_TRANSCEIVE, max_response, options)
    }

    /// The request of a transaction, as the bytes to send.
    pub fn transact_request(request: &Bytes) -> (bytes: Vec<u8>)
        ensures
            bytes@ == contents(*request),
    {
        vstd::slice::slice_to_vec(as_slice(request))
    }

    /// The answer to a transaction.
    pub fn transact_response(response: &[u8]) -> (bytes: Bytes)
        ensures
            contents(bytes) == response@,
    {
        copied(response)
    }
}

} // verus!
