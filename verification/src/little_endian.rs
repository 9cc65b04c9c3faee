//! Little-endian integers in byte sequences.

use vstd::prelude::*;

verus! {

/// The number that bytes stand for, least significant byte first.
pub open spec fn le_value(bytes: Seq<u8>) -> nat
    decreases bytes.len(),
{
    if bytes.len() == 0 {
        0
    } else {
        bytes[0] as nat + 256 * le_value(bytes.drop_first())
    }
}

/// How many numbers `n` bytes can stand for.
pub open spec fn span(n: nat) -> nat
    decreases n,
{
    if n == 0 {
        1
    } else {
        256 * span((n - 1) as nat)
    }
}

/// A number in `n` bytes, least significant byte first.
pub open spec fn le_bytes(value: nat, n: nat) -> Seq<u8>
    decreases n,
{
    if n == 0 {
        Seq::empty()
    } else {
        seq![(value % 256) as u8] + le_bytes(value / 256, (n - 1) as nat)
    }
}

pub proof fn le_value_is_bounded(bytes: Seq<u8>)
    ensures
        le_value(bytes) < span(bytes.len()),
    decreases bytes.len(),
{
    if bytes.len() > 0 {
        le_value_is_bounded(bytes.drop_first());
    }
}

/// What is written in enough bytes is read back.
pub proof fn written_numbers_are_read_back(value: nat, n: nat)
    requires
        value < span(n),
    ensures
        le_bytes(value, n).len() == n,
        le_value(le_bytes(value, n)) == value,
    decreases n,
{
    if n > 0 {
        written_numbers_are_read_back(value / 256, (n - 1) as nat);
        let bytes = le_bytes(value, n);
        assert(bytes.drop_first() =~= le_bytes(value / 256, (n - 1) as nat));
    }
}

/// Bytes are what is written for the number they stand for.
pub proof fn read_bytes_are_written_back(bytes: Seq<u8>)
    ensures
        le_bytes(le_value(bytes), bytes.len()) =~= bytes,
    decreases bytes.len(),
{
    if bytes.len() > 0 {
        read_bytes_are_written_back(bytes.drop_first());
        let rest = le_value(bytes.drop_first());
        assert(le_value(bytes) % 256 == bytes[0]);
        assert(le_value(bytes) / 256 == rest);
        assert(bytes =~= seq![bytes[0]] + bytes.drop_first());
    }
}

pub proof fn le_bytes_len(value: nat, n: nat)
    ensures
        le_bytes(value, n).len() == n,
    decreases n,
{
    if n > 0 {
        le_bytes_len(value / 256, (n - 1) as nat);
    }
}

/// The spans of the integer types.
pub proof fn machine_spans()
    ensures
        span(2) == u16::MAX + 1,
        span(4) == u32::MAX + 1,
        span(8) == u64::MAX + 1,
        span(16) == u128::MAX + 1,
{
    reveal_with_fuel(span, 17);
}

proof fn le_value_of_front(bytes: Seq<u8>, n: int)
    requires
        0 <= n < bytes.len(),
    ensures
        le_value(bytes.skip(n)) == bytes[n] + 256 * le_value(bytes.skip(n + 1)),
{
    assert(bytes.skip(n).drop_first() =~= bytes.skip(n + 1));
}

proof fn spans_grow(a: nat, b: nat)
    requires
        a <= b,
    ensures
        span(a) <= span(b),
    decreases b,
{
    if a < b {
        spans_grow(a, (b - 1) as nat);
    }
}

/// Reads the number in `n` bytes from `start` on.
pub fn read_le(bytes: &[u8], start: usize, n: usize) -> (value: u128)
    requires
        start + n <= bytes@.len(),
        n <= 16,
    ensures
        value == le_value(bytes@.subrange(start as int, start + n)),
        value < span(n as nat),
{
    let ghost field = bytes@.subrange(start as int, start + n);
    let total: usize = bytes.len();
    let mut value: u128 = 0;
    let mut left: usize = n;
    proof {
        assert(field.skip(n as int) =~= Seq::<u8>::empty());
    }
    while left > 0
        invariant
            left <= n,
            total == bytes@.len(),
            start + n <= total,
            n <= 16,
            field == bytes@.subrange(start as int, start + n),
            value == le_value(field.skip(left as int)),
        decreases left,
    {
        left = left - 1;
        proof {
            le_value_of_front(field, left as int);
            le_value_is_bounded(field.skip(left + 1));
            le_value_is_bounded(field.skip(left as int));
            spans_grow((n - left) as nat, 16);
            machine_spans();
        }
        value = value * 256 + bytes[start + left] as u128;
    }
    proof {
        assert(field.skip(0) =~= field);
        le_value_is_bounded(field);
    }
    value
}

/// Appends a number in `n` bytes.
pub fn push_le(bytes: &mut Vec<u8>, value: u128, n: usize)
    ensures
        final(bytes)@ == old(bytes)@ + le_bytes(value as nat, n as nat),
{
    let mut rest: u128 = value;
    let mut left: usize = n;
    proof {
        assert(bytes@ + le_bytes(value as nat, n as nat) =~= old(bytes)@ + le_bytes(
            value as nat,
            n as nat,
        ));
    }
    while left > 0
        invariant
            left <= n,
            bytes@ + le_bytes(rest as nat, left as nat) == old(bytes)@ + le_bytes(
                value as nat,
                n as nat,
            ),
        decreases left,
    {
        let ghost before = bytes@;
        bytes.push((rest % 256) as u8);
        proof {
            assert(bytes@ + le_bytes((rest / 256) as nat, (left - 1) as nat) =~= before + le_bytes(
                rest as nat,
                left as nat,
            ));
        }
        rest = rest / 256;
        left = left - 1;
    }
    proof {
        assert(bytes@ + Seq::<u8>::empty() =~= bytes@);
    }
}

/// The bytes of a number begin with its lowest byte, and go on with those of
/// the number without it.
pub proof fn lowest_bytes_come_first(value: nat, n: nat)
    requires
        n > 0,
    ensures
        le_bytes(value, n)[0] == value % 256,
        le_bytes(value, n).drop_first() == le_bytes(value / 256, (n - 1) as nat),
        le_bytes(value, n).len() == n,
        le_bytes(value, 0).len() == 0,
{
    le_bytes_len(value, n);
    assert(le_bytes(value, n).drop_first() =~= le_bytes(value / 256, (n - 1) as nat));
}

/// Each byte counts 256 times as much as the one before it.
pub proof fn bytes_count_by_their_place(bytes: Seq<u8>)
    ensures
        bytes.len() == 0 ==> le_value(bytes) == 0,
        bytes.len() > 0 ==> le_value(bytes) == bytes[0] + 256 * le_value(bytes.drop_first()),
{
}

} // verus!
