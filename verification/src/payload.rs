//! Immutable bytes that are shared without being copied.

use bytes::Bytes;
use vstd::prelude::*;

verus! {

/// `bytes::Bytes`: immutable bytes whose slices share one allocation.
#[verifier::external_type_specification]
#[verifier::external_body]
pub struct ExBytes(bytes::Bytes);

/// What a `bytes::Bytes` holds.
pub uninterp spec fn contents(bytes: Bytes) -> Seq<u8>;

/// `Bytes::new`: holds nothing.
#[verifier::external_body]
pub(crate) fn no_bytes() -> (bytes: Bytes)
    ensures
        contents(bytes) == Seq::<u8>::empty(),
{
    Bytes::new()
}

/// `Bytes::len`: how many bytes it holds.
#[verifier::external_body]
pub(crate) fn byte_count(bytes: &Bytes) -> (count: usize)
    ensures
        count == contents(*bytes).len(),
{
    bytes.len()
}

/// `Bytes::as_ref`: what it holds, as a slice.
#[verifier::external_body]
pub(crate) fn as_slice(bytes: &Bytes) -> (slice: &[u8])
    ensures
        slice@ == contents(*bytes),
{
    bytes.as_ref()
}

/// `Bytes::slice`: the bytes from `start` up to `end`. It panics where these
/// are not in order or not within what it holds.
#[verifier::external_body]
pub(crate) fn slice_of(bytes: &Bytes, start: usize, end: usize) -> (slice: Bytes)
    requires
        start <= end <= contents(*bytes).len(),
    ensures
        contents(slice) == contents(*bytes).subrange(start as int, end as int),
{
    bytes.slice(start..end)
}

/// `Bytes::copy_from_slice`: holds a copy of the slice.
#[verifier::external_body]
pub(crate) fn copied(slice: &[u8]) -> (bytes: Bytes)
    ensures
        contents(bytes) == slice@,
{
    Bytes::copy_from_slice(slice)
}

} // verus!
