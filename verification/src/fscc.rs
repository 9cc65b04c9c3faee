//! File system values as they stand in messages.

use vstd::prelude::*;

verus! {

/// Whether the bit with value `bit` is set.
pub open spec fn has_bit(bits: u32, bit: u32) -> bool {
    (bits / bit) % 2 == 1
}

/// What a caller may do, or wants to do, with a resource.
#[derive(Clone, Copy, Debug, PartialEq, Eq, Structural)]
pub struct FileAccessMask(pub u32);

pub const FILE_READ_DATA: u32 = 0x0000_0001;

pub const FILE_WRITE_DATA: u32 = 0x0000_0002;

pub const FILE_READ_ATTRIBUTES: u32 = 0x0000_0080;

pub const FILE_WRITE_ATTRIBUTES: u32 = 0x0000_0100;

pub const DELETE: u32 = 0x0001_0000;

pub const READ_CONTROL: u32 = 0x0002_0000;

pub const WRITE_DACL: u32 = 0x0004_0000;

pub const GENERIC_WRITE: u32 = 0x4000_0000;

pub const GENERIC_READ: u32 = 0x8000_0000;

impl FileAccessMask {
    /// Nothing.
    pub fn new() -> (mask: Self)
        ensures
            mask == FileAccessMask(0),
    {
        FileAccessMask(0)
    }

    /// Everything.
    pub fn all() -> (mask: Self)
        ensures
            mask == FileAccessMask(0xffff_ffff),
    {
        FileAccessMask(0xffff_ffff)
    }

    /// Reading.
    pub fn reading() -> (mask: Self)
        ensures
            mask == FileAccessMask(0x8000_0000),
    {
        FileAccessMask(GENERIC_READ)
    }

    /// Reading and writing.
    pub fn duplex() -> (mask: Self)
        ensures
            mask == FileAccessMask(0xc000_0000),
    {
        FileAccessMask(GENERIC_READ + GENERIC_WRITE)
    }

    /// Reading, writing and deleting: what an ordinary share grants to
    /// whoever may change data, and no right over ownership.
    pub fn changing() -> (mask: Self)
        ensures
            mask == FileAccessMask(0xc001_0000),
    {
        FileAccessMask(GENERIC_READ + GENERIC_WRITE + DELETE)
    }

    /// Reading attributes, and writing them where asked for.
    pub fn attributes(write: bool) -> (mask: Self)
        ensures
            mask == FileAccessMask(
                if write {
                    0x180
                } else {
                    0x80
                },
            ),
    {
        FileAccessMask(
            if write {
                FILE_READ_ATTRIBUTES + FILE_WRITE_ATTRIBUTES
            } else {
                FILE_READ_ATTRIBUTES
            },
        )
    }

    pub fn file_read_data(&self) -> (may: bool)
        ensures
            may == has_bit(self.0, FILE_READ_DATA),
    {
        (self.0 / FILE_READ_DATA) % 2 == 1
    }

    pub fn file_write_data(&self) -> (may: bool)
        ensures
            may == has_bit(self.0, FILE_WRITE_DATA),
    {
        (self.0 / FILE_WRITE_DATA) % 2 == 1
    }

    /// The right to list a directory is the one to read a file.
    pub fn list_directory(&self) -> (may: bool)
        ensures
            may == has_bit(self.0, FILE_READ_DATA),
    {
        (self.0 / FILE_READ_DATA) % 2 == 1
    }
}

#[derive(Clone, Copy, Debug, PartialEq, Eq, Structural)]
pub struct FileAttributes(pub u32);

pub const ATTRIBUTE_READONLY: u32 = 0x0000_0001;

pub const ATTRIBUTE_DIRECTORY: u32 = 0x0000_0010;

pub const ATTRIBUTE_REPARSE_POINT: u32 = 0x0000_0400;

impl Default for FileAttributes {
    fn default() -> (attributes: Self)
        ensures
            attributes == FileAttributes(0),
    {
        FileAttributes(0)
    }
}

impl FileAttributes {
    pub fn readonly(&self) -> (set: bool)
        ensures
            set == has_bit(self.0, ATTRIBUTE_READONLY),
    {
        (self.0 / ATTRIBUTE_READONLY) % 2 == 1
    }

    pub fn directory(&self) -> (set: bool)
        ensures
            set == has_bit(self.0, ATTRIBUTE_DIRECTORY),
    {
        (self.0 / ATTRIBUTE_DIRECTORY) % 2 == 1
    }

    pub fn reparse_point(&self) -> (set: bool)
        ensures
            set == has_bit(self.0, ATTRIBUTE_REPARSE_POINT),
    {
        (self.0 / ATTRIBUTE_REPARSE_POINT) % 2 == 1
    }
}

#[derive(Clone, Copy, Debug, PartialEq, Eq, Structural)]
pub struct CreateOptions(pub u32);

pub const OPTION_DIRECTORY_FILE: u32 = 0x0000_0001;

pub const OPTION_OPEN_REPARSE_POINT: u32 = 0x0020_0000;

impl Default for CreateOptions {
    fn default() -> (options: Self)
        ensures
            options == CreateOptions(0),
    {
        CreateOptions(0)
    }
}

#[derive(Clone, Copy, Debug, PartialEq, Eq, Structural)]
pub enum CreateDisposition {
    Superseded,
    Open,
    Create,
    OpenIf,
    Overwrite,
    OverwriteIf,
}

impl Default for CreateDisposition {
    fn default() -> (disposition: Self)
        ensures
            disposition == CreateDisposition::Open,
    {
        CreateDisposition::Open
    }
}

#[derive(Clone, Copy, Debug, PartialEq, Eq, Structural)]
pub enum OplockLevel {
    Unlocked,
    II,
    Exclusive,
    Batch,
    Lease,
}

#[derive(Clone, Copy, Debug, PartialEq, Eq, Structural)]
pub enum ShareType {
    Disk,
    Pipe,
    Print,
}

/// What others may do with a resource while it is open.
#[derive(Clone, Copy, Debug, PartialEq, Eq, Structural)]
pub struct ShareAccess {
    pub read: bool,
    pub write: bool,
    pub delete: bool,
}

/// Units of a hundred nanoseconds since the beginning of 1601.
#[derive(Clone, Copy, Debug, PartialEq, Eq, Structural)]
pub struct FileTime(pub u64);

/// The rights and attributes stand where the protocol has them.
pub proof fn bits_have_their_places(bits: u32)
    ensures
        has_bit(bits, FILE_READ_DATA) <==> bits % 2 == 1,
        has_bit(bits, FILE_WRITE_DATA) <==> (bits / 2) % 2 == 1,
        has_bit(bits, ATTRIBUTE_READONLY) <==> bits % 2 == 1,
        has_bit(bits, ATTRIBUTE_DIRECTORY) <==> (bits / 16) % 2 == 1,
        has_bit(bits, ATTRIBUTE_REPARSE_POINT) <==> (bits / 1024) % 2 == 1,
{
    assert(bits / 1 == bits);
}

} // verus!
