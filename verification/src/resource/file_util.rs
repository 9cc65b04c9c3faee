//! Access to a file by offset.

use vstd::prelude::*;

verus! {

/// Why an access failed. Whoever carries it out knows more.
#[derive(Clone, Copy, Debug, PartialEq, Eq, Structural)]
pub enum AccessError {
    Failed,
}

/// Reads at an offset, over a channel of choice.
pub trait ReadAtChannel {
    /// Fills the front of `buf`, and says how much of it was read.
    fn read_at_channel(&self, buf: &mut [u8], offset: u64, channel: Option<u32>) -> (result:
        Result<usize, AccessError>);
}

/// Reads at an offset.
pub trait ReadAt {
    fn read_at(&self, buf: &mut [u8], offset: u64) -> (result: Result<usize, AccessError>);
}

/// Whoever can read over a channel of choice reads over none in particular.
impl<T: ReadAtChannel + ?Sized> ReadAt for T {
    fn read_at(&self, buf: &mut [u8], offset: u64) -> (result: Result<usize, AccessError>)
        ensures
            exists|passed: &mut [u8]| #[trigger]
                call_ensures(T::read_at_channel, (self, passed, offset, None::<u32>), result)
                    && passed@ == old(buf)@ && final(passed)@ == final(buf)@,
    {
        self.read_at_channel(buf, offset, None)
    }
}

/// Writes at an offset, over a channel of choice.
pub trait WriteAtChannel {
    /// Writes the front of `buf`, and says how much of it was written.
    fn write_at_channel(&self, buf: &[u8], offset: u64, channel: Option<u32>) -> (result: Result<
        usize,
        AccessError,
    >);
}

/// Writes at an offset.
pub trait WriteAt {
    fn write_at(&self, buf: &[u8], offset: u64) -> (result: Result<usize, AccessError>);
}

/// Whoever can write over a channel of choice writes over none in particular.
impl<T: WriteAtChannel + ?Sized> WriteAt for T {
    fn write_at(&self, buf: &[u8], offset: u64) -> (result: Result<usize, AccessError>)
        ensures
            call_ensures(T::write_at_channel, (self, buf, offset, None::<u32>), result),
    {
        self.write_at_channel(buf, offset, None)
    }
}

/// Tells its length.
pub trait GetLen {
    fn get_len(&self) -> (len: Result<u64, AccessError>);
}

/// Takes a new length.
pub trait SetLen {
    fn set_len(&self, len: u64) -> (result: Result<(), AccessError>);
}

} // verus!
