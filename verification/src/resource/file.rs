//! Files: reading and writing at an offset.

use crate::clock::Duration;
use crate::fscc::{has_bit, FILE_READ_DATA, FILE_WRITE_DATA};
use crate::identity::FileId;
use crate::payload::{byte_count, contents, no_bytes, slice_of};
use crate::protocol::Status;
use crate::resource::{HandleView, Negotiated, ResourceError, ResourceHandle};
use crate::runtime::operation::ReplayPolicy;
use bytes::Bytes;
use vstd::prelude::*;

verus! {

/// The first dialect that knows unbuffered reads.
pub const DIALECT_SMB0302: u16 = 0x0302;

/// How an operation on a file is carried out.
#[derive(Clone, Copy, Debug, PartialEq, Eq, Structural)]
pub struct FileOperationOptions {
    pub timeout: Option<Duration>,
    pub replay: ReplayPolicy,
}

impl Default for FileOperationOptions {
    fn default() -> (options: Self)
        ensures
            options == (FileOperationOptions { timeout: None, replay: ReplayPolicy::NeverReplay }),
    {
        FileOperationOptions { timeout: None, replay: ReplayPolicy::NeverReplay }
    }
}

/// A read request.
#[derive(Clone, Copy, Debug, PartialEq, Eq, Structural)]
pub struct ReadPlan {
    pub file_id: FileId,
    pub length: u32,
    pub offset: u64,
    pub minimum_count: u32,
    pub channel: Option<u32>,
    pub compressed: bool,
    pub unbuffered: bool,
}

/// A write request. The data travels beside it.
#[derive(Clone, Copy, Debug, PartialEq, Eq, Structural)]
pub struct WritePlan {
    pub file_id: FileId,
    pub offset: u64,
    pub length: u32,
    pub channel: Option<u32>,
}

/// An opened file on the server.
pub struct File {
    handle: ResourceHandle,
    end_of_file: u64,
}

/// Whether an answer to a read may come compressed.
pub open spec fn reads_compressed(negotiated: Negotiated) -> bool {
    negotiated.compression_enabled && negotiated.dialect_compresses
}

/// Whether a read goes past the buffers of the server.
pub open spec fn reads_unbuffered(negotiated: Negotiated, unbuffered: bool) -> bool {
    unbuffered && negotiated.dialect >= DIALECT_SMB0302
}

impl File {
    pub closed spec fn handle_view(&self) -> HandleView {
        self.handle@
    }

    /// The length that the server reported at the open.
    pub closed spec fn len(&self) -> u64 {
        self.end_of_file
    }

    pub fn new(handle: ResourceHandle, end_of_file: u64) -> (file: Self)
        ensures
            file.handle_view() == handle@,
            file.len() == end_of_file,
    {
        File { handle, end_of_file }
    }

    pub fn handle(&self) -> (handle: &ResourceHandle)
        ensures
            handle@ == self.handle_view(),
    {
        &self.handle
    }

    /// The handle, to be closed or opened again.
    pub fn handle_mut(&mut self) -> (handle: &mut ResourceHandle)
        ensures
            (*handle)@ == old(self).handle_view(),
            final(self).handle_view() == (*final(handle))@,
            final(self).len() == old(self).len(),
    {
        &mut self.handle
    }

    pub fn maximum_read_size(&self) -> (size: u32)
        ensures
            size == self.handle_view().negotiated.max_read_size,
    {
        self.handle.negotiated().max_read_size
    }

    pub fn maximum_write_size(&self) -> (size: u32)
        ensures
            size == self.handle_view().negotiated.max_write_size,
    {
        self.handle.negotiated().max_write_size
    }

    /// The length that the server reported at the open.
    pub fn end_of_file(&self) -> (len: u64)
        ensures
            len == self.len(),
    {
        self.end_of_file
    }

    /// Plans a read: nothing is sent for a read of nothing.
    pub fn plan_read(
        &self,
        max_len: u32,
        pos: u64,
        channel: Option<u32>,
        unbuffered: bool,
    ) -> (plan: Result<Option<ReadPlan>, ResourceError>)
        ensures
            plan == (if max_len == 0 {
                Ok(None)
            } else if !has_bit(self.handle_view().access.0, FILE_READ_DATA) {
                Err(ResourceError::MissingPermissions)
            } else if !self.handle_view().open {
                Err(ResourceError::Closed)
            } else {
                Ok(
                    Some(
                        ReadPlan {
                            file_id: self.handle_view().generation.file_id,
                            length: max_len,
                            offset: pos,
                            minimum_count: 1,
                            channel,
                            compressed: reads_compressed(self.handle_view().negotiated),
                            unbuffered: reads_unbuffered(
                                self.handle_view().negotiated,
                                unbuffered,
                            ),
                        },
                    ),
                )
            }),
    {
        if max_len == 0 {
            return Ok(None);
        }
        if !self.handle.access().file_read_data() {
            return Err(ResourceError::MissingPermissions);
        }
        let negotiated = self.handle.negotiated();
        match self.handle.file_id() {
            Ok(file_id) => Ok(
                Some(
                    ReadPlan {
                        file_id,
                        length: max_len,
                        offset: pos,
                        minimum_count: 1,
                        channel,
                        compressed: negotiated.compression_enabled
                            && negotiated.dialect_compresses,
                        unbuffered: unbuffered && negotiated.dialect >= DIALECT_SMB0302,
                    },
                ),
            ),
            Err(error) => Err(error),
        }
    }

    /// The data of an answer to a read: the part of the frame from `start` up
    /// to `end`, shared with it. Nothing is left behind the end of the file.
    pub fn read_data(status: Status, raw: &Bytes, start: usize, end: usize) -> (data: Option<Bytes>)
        ensures
            match data {
                Some(data) => if status == Status::EndOfFile {
                    contents(data) == Seq::<u8>::empty()
                } else {
                    start <= end <= contents(*raw).len() && contents(data) == contents(
                        *raw,
                    ).subrange(start as int, end as int)
                },
                None => status != Status::EndOfFile && !(start <= end <= contents(*raw).len()),
            },
    {
        if status == Status::EndOfFile {
            return Some(no_bytes());
        }
        if start <= end && end <= byte_count(raw) {
            Some(slice_of(raw, start, end))
        } else {
            None
        }
    }

    /// Plans a write: nothing is sent for a write of nothing.
    pub fn plan_write(&self, buf: &Bytes, pos: u64, channel: Option<u32>) -> (plan: Result<
        Option<WritePlan>,
        ResourceError,
    >)
        ensures
            plan == (if contents(*buf).len() == 0 {
                Ok(None)
            } else if !has_bit(self.handle_view().access.0, FILE_WRITE_DATA) {
                Err(ResourceError::MissingPermissions)
            } else if !self.handle_view().open {
                Err(ResourceError::Closed)
            } else {
                Ok(
                    Some(
                        WritePlan {
                            file_id: self.handle_view().generation.file_id,
                            offset: pos,
                            length: (contents(*buf).len() % 0x1_0000_0000) as u32,
                            channel,
                        },
                    ),
                )
            }),
    {
        let count: usize = byte_count(buf);
        if count == 0 {
            return Ok(None);
        }
        if !self.handle.access().file_write_data() {
            return Err(ResourceError::MissingPermissions);
        }
        let length: u32 = (count as u64 % 0x1_0000_0000) as u32;
        match self.handle.file_id() {
            Ok(file_id) => Ok(Some(WritePlan { file_id, offset: pos, length, channel })),
            Err(error) => Err(error),
        }
    }

    /// Plans to flush what the server holds back of a file.
    pub fn flush(&self) -> (file_id: Result<FileId, ResourceError>)
        ensures
            file_id == (if self.handle_view().open {
                Ok::<FileId, ResourceError>(self.handle_view().generation.file_id)
            } else {
                Err(ResourceError::Closed)
            }),
    {
        self.handle.file_id()
    }
}

/// Answers come compressed where compression is switched on and the dialect
/// has it; reads go past the buffers of the server where that is asked for
/// and the dialect is 3.0.2 or later.
pub proof fn reads_follow_the_negotiation(negotiated: Negotiated, unbuffered: bool)
    ensures
        reads_compressed(negotiated) <==> negotiated.compression_enabled
            && negotiated.dialect_compresses,
        reads_unbuffered(negotiated, unbuffered) <==> unbuffered && negotiated.dialect >= 0x302,
{
}

} // verus!
