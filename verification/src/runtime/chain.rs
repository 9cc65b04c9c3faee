//! Compounds: several messages in one frame.
//!
//! Each message of a chain is padded to a multiple of eight bytes, and its
//! header says where the next one begins; the last one says zero.

use crate::header::{begins_with, field, Header, HEADER_SIZE, NEXT_COMMAND_OFFSET, SIGNATURE_OFFSET};
use crate::little_endian::{
    le_bytes, le_bytes_len, le_value, machine_spans, push_le, written_numbers_are_read_back,
};
use crate::payload::{as_slice, byte_count, contents, slice_of};
use bytes::Bytes;
use vstd::prelude::*;

verus! {

#[derive(Clone, Copy, Debug, PartialEq, Eq, Structural)]
pub enum ChainError {
    /// What should begin a message is no plain header.
    NotPlain,
    /// A header points past the end of the frame.
    OffsetExceedsFrame { offset: usize, remaining: usize },
    /// A message is too long for its header to say where the next one begins.
    TooLong,
}

/// The least multiple of eight that is at least `n`.
pub open spec fn aligned(n: int) -> int {
    (n + 7) / 8 * 8
}

pub open spec fn zeros(n: int) -> Seq<u8> {
    Seq::new(n as nat, |i: int| 0u8)
}

pub open spec fn padded(message: Seq<u8>) -> Seq<u8> {
    message + zeros(aligned(message.len() as int) - message.len())
}

/// A message whose header says where the next one begins.
pub open spec fn pointing_to(message: Seq<u8>, next: nat) -> Seq<u8> {
    message.take(20) + le_bytes(next, 4) + message.skip(24)
}

/// A message as it stands in a chain.
pub open spec fn sealed(message: Seq<u8>, last: bool) -> Seq<u8> {
    pointing_to(
        padded(message),
        if last {
            0
        } else {
            aligned(message.len() as int) as nat
        },
    )
}

pub open spec fn sealed_all(messages: Seq<Seq<u8>>) -> Seq<Seq<u8>> {
    Seq::new(messages.len(), |i: int| sealed(messages[i], i == messages.len() - 1))
}

pub open spec fn joined(parts: Seq<Seq<u8>>) -> Seq<u8>
    decreases parts.len(),
{
    if parts.len() == 0 {
        Seq::empty()
    } else {
        joined(parts.drop_last()) + parts.last()
    }
}

/// The frame that holds a chain of messages.
pub open spec fn chain(messages: Seq<Seq<u8>>) -> Seq<u8> {
    joined(sealed_all(messages))
}

pub open spec fn is_plain(bytes: Seq<u8>) -> bool {
    exists|header: Header| begins_with(bytes, header)
}

/// The messages that a frame holds.
pub open spec fn messages_of(frame: Seq<u8>) -> Result<Seq<Seq<u8>>, ChainError>
    decreases frame.len(),
{
    let next = field(frame, 20, 4);
    if !is_plain(frame) {
        Err(ChainError::NotPlain)
    } else if next == 0 {
        Ok(seq![frame])
    } else if next > frame.len() {
        Err(
            ChainError::OffsetExceedsFrame {
                offset: next as usize,
                remaining: frame.len() as usize,
            },
        )
    } else {
        match messages_of(frame.skip(next as int)) {
            Ok(rest) => Ok(seq![frame.take(next as int)] + rest),
            Err(error) => Err(error),
        }
    }
}

pub open spec fn views(messages: Seq<Vec<u8>>) -> Seq<Seq<u8>> {
    messages.map_values(|message: Vec<u8>| message@)
}

/// Whether a header can say where the message after this one begins.
pub open spec fn fits(message: Seq<u8>) -> bool {
    aligned(message.len() as int) <= u32::MAX
}

proof fn sealed_len(message: Seq<u8>, last: bool)
    requires
        message.len() >= HEADER_SIZE,
    ensures
        sealed(message, last).len() == aligned(message.len() as int),
{
    let next = if last {
        0
    } else {
        aligned(message.len() as int) as nat
    };
    le_bytes_len(next, 4);
}

/// A sealed message is plain, points where it should, and is followed by
/// whatever stands behind it.
pub proof fn sealed_message_is_read(message: Seq<u8>, last: bool, rest: Seq<u8>)
    requires
        is_plain(message),
        fits(message),
    ensures
        is_plain(sealed(message, last) + rest),
        field(sealed(message, last) + rest, 20, 4) == if last {
            0
        } else {
            aligned(message.len() as int)
        },
        sealed(message, last).len() == aligned(message.len() as int),
{
    let header = choose|header: Header| begins_with(message, header);
    let next = if last {
        0
    } else {
        aligned(message.len() as int) as nat
    };
    sealed_len(message, last);
    machine_spans();
    le_bytes_len(next, 4);
    written_numbers_are_read_back(next, 4);
    let all = sealed(message, last) + rest;
    assert(all.subrange(20, 24) =~= le_bytes(next, 4));
    assert(all.subrange(4, 6) =~= message.subrange(4, 6));
    assert(all.subrange(6, 8) =~= message.subrange(6, 8));
    assert(all.subrange(8, 12) =~= message.subrange(8, 12));
    assert(all.subrange(12, 14) =~= message.subrange(12, 14));
    assert(all.subrange(14, 16) =~= message.subrange(14, 16));
    assert(all.subrange(16, 20) =~= message.subrange(16, 20));
    assert(all.subrange(24, 32) =~= message.subrange(24, 32));
    assert(all.subrange(32, 40) =~= message.subrange(32, 40));
    assert(all.subrange(40, 48) =~= message.subrange(40, 48));
    assert(all.subrange(48, 64) =~= message.subrange(48, 64));
    let changed = Header { next_command: next as u32, ..header };
    assert(begins_with(all, changed));
}

pub proof fn joined_first(parts: Seq<Seq<u8>>)
    requires
        parts.len() > 0,
    ensures
        joined(parts) == parts[0] + joined(parts.drop_first()),
    decreases parts.len(),
{
    if parts.len() == 1 {
        assert(parts.drop_last() =~= Seq::<Seq<u8>>::empty());
        assert(parts.drop_first() =~= Seq::<Seq<u8>>::empty());
        assert(joined(parts) =~= parts[0] + joined(parts.drop_first()));
    } else {
        joined_first(parts.drop_last());
        assert(parts.drop_last().drop_first() =~= parts.drop_first().drop_last());
        assert(joined(parts) =~= parts[0] + joined(parts.drop_first()));
    }
}

/// The messages of a chain are read back from its frame, in order, each
/// exactly as it was sealed.
pub proof fn chained_messages_are_read_back(messages: Seq<Seq<u8>>)
    requires
        messages.len() > 0,
        forall|i: int| 0 <= i < messages.len() ==> is_plain(#[trigger] messages[i]),
        forall|i: int| 0 <= i < messages.len() ==> fits(#[trigger] messages[i]),
    ensures
        messages_of(chain(messages)) == Ok::<Seq<Seq<u8>>, ChainError>(sealed_all(messages)),
    decreases messages.len(),
{
    let parts = sealed_all(messages);
    let last = messages.len() == 1;
    let frame = chain(messages);
    joined_first(parts);
    let rest = joined(parts.drop_first());
    assert(is_plain(messages[0]));
    sealed_message_is_read(messages[0], last, rest);
    if last {
        assert(parts.drop_first() =~= Seq::<Seq<u8>>::empty());
        assert(frame =~= parts[0]);
        assert(parts =~= seq![frame]);
    } else {
        let others = messages.drop_first();
        assert(sealed_all(others) =~= parts.drop_first());
        assert(forall|i: int| 0 <= i < others.len() ==> others[i] == messages[i + 1]);
        chained_messages_are_read_back(others);
        let next = aligned(messages[0].len() as int);
        assert(frame.skip(next) =~= rest);
        assert(frame.take(next) =~= parts[0]);
        assert(seq![parts[0]] + parts.drop_first() =~= parts);
    }
}

/// A chain of messages that are multiples of eight long only differs from
/// them in where each says that the next one begins.
pub proof fn sealing_only_sets_the_offset(message: Seq<u8>, last: bool, i: int)
    requires
        message.len() >= HEADER_SIZE,
        0 <= i < message.len(),
        !(20 <= i < 24),
    ensures
        sealed(message, last)[i] == message[i],
{
    let next = if last {
        0
    } else {
        aligned(message.len() as int) as nat
    };
    le_bytes_len(next, 4);
}

fn pad(frame: &mut Vec<u8>, count: usize)
    ensures
        final(frame)@ == old(frame)@ + zeros(count as int),
{
    let mut done: usize = 0;
    while done < count
        invariant
            done <= count,
            frame@ == old(frame)@ + zeros(done as int),
        decreases count - done,
    {
        frame.push(0);
        done = done + 1;
        assert(frame@ =~= old(frame)@ + zeros(done as int));
    }
}

pub(crate) fn seal(message: &Vec<u8>, last: bool) -> (part: Vec<u8>)
    requires
        message@.len() >= HEADER_SIZE,
        fits(message@),
    ensures
        part@ == sealed(message@, last),
{
    let len: usize = message.len();
    let whole: usize = (len + 7) / 8 * 8;
    let mut part: Vec<u8> = Vec::new();
    part.extend_from_slice(vstd::slice::slice_subrange(message.as_slice(), 0, NEXT_COMMAND_OFFSET));
    let next: u128 = if last {
        0
    } else {
        whole as u128
    };
    push_le(&mut part, next, 4);
    part.extend_from_slice(
        vstd::slice::slice_subrange(message.as_slice(), NEXT_COMMAND_OFFSET + 4, len),
    );
    pad(&mut part, whole - len);
    proof {
        le_bytes_len(next as nat, 4);
        assert(part@ =~= sealed(message@, last));
    }
    part
}

/// Builds the frame that holds a chain of encoded messages.
pub fn build_chain(messages: &Vec<Vec<u8>>) -> (frame: Result<Vec<u8>, ChainError>)
    requires
        forall|i: int|
            0 <= i < messages@.len() ==> (#[trigger] messages@[i])@.len() >= HEADER_SIZE,
    ensures
        match frame {
            Ok(frame) => frame@ == chain(views(messages@)) && forall|i: int|
                0 <= i < messages@.len() ==> fits((#[trigger] messages@[i])@),
            Err(error) => error == ChainError::TooLong && exists|i: int|
                0 <= i < messages@.len() && !fits((#[trigger] messages@[i])@),
        },
{
    let mut frame: Vec<u8> = Vec::new();
    let mut i: usize = 0;
    let count: usize = messages.len();
    let ghost parts = sealed_all(views(messages@));
    proof {
        assert(parts.take(0) =~= Seq::<Seq<u8>>::empty());
    }
    while i < count
        invariant
            i <= count == messages@.len(),
            parts == sealed_all(views(messages@)),
            forall|j: int|
                0 <= j < messages@.len() ==> (#[trigger] messages@[j])@.len() >= HEADER_SIZE,
            forall|j: int| 0 <= j < i ==> fits((#[trigger] messages@[j])@),
            frame@ == joined(parts.take(i as int)),
        decreases count - i,
    {
        let message = &messages[i];
        if message.len() as u64 > 0xffff_fff8 {
            assert(!fits(messages@[i as int]@));
            return Err(ChainError::TooLong);
        }
        let mut part = seal(message, i + 1 == count);
        frame.append(&mut part);
        proof {
            assert(views(messages@)[i as int] == message@);
            assert(parts.take(i + 1).drop_last() =~= parts.take(i as int));
        }
        i = i + 1;
    }
    proof {
        assert(parts.take(count as int) =~= parts);
    }
    Ok(frame)
}

/// One message of a frame.
#[derive(Clone, Copy, Debug, PartialEq, Eq, Structural)]
pub struct ChainMember {
    pub header: Header,
    /// Where it begins in the frame.
    pub start: usize,
    /// Where it ends.
    pub end: usize,
}

/// A walk over the messages of a frame, one at a time.
pub struct ChainWalk {
    frame: Bytes,
    at: usize,
    finished: bool,
}

impl ChainWalk {
    pub closed spec fn frame(&self) -> Seq<u8> {
        contents(self.frame)
    }

    /// Where the next message begins.
    pub closed spec fn at(&self) -> int {
        self.at as int
    }

    /// Whether the last message was handed out.
    pub closed spec fn finished(&self) -> bool {
        self.finished
    }

    pub open spec fn wf(&self) -> bool {
        0 <= self.at() <= self.frame().len()
    }

    /// What is left to walk.
    pub open spec fn left(&self) -> Seq<u8> {
        self.frame().skip(self.at())
    }

    pub fn new(frame: Bytes) -> (walk: Self)
        ensures
            walk.wf(),
            walk.frame() == contents(frame),
            walk.at() == 0,
            !walk.finished(),
    {
        ChainWalk { frame, at: 0, finished: false }
    }

    /// The next message: `None` behind the last one.
    pub fn step(&mut self) -> (member: Result<Option<ChainMember>, ChainError>)
        requires
            old(self).wf(),
        ensures
            final(self).wf(),
            final(self).frame() == old(self).frame(),
            match member {
                Ok(None) => old(self).finished() && *final(self) == *old(self),
                Ok(Some(member)) => {
                    let next = field(old(self).left(), 20, 4);
                    &&& !old(self).finished()
                    &&& begins_with(old(self).left(), member.header)
                    &&& member.start == old(self).at()
                    &&& member.start < member.end <= old(self).frame().len()
                    &&& next <= old(self).left().len()
                    &&& member.end == if next == 0 {
                        old(self).frame().len() as int
                    } else {
                        member.start + next
                    }
                    &&& final(self).at() == member.end
                    &&& final(self).finished() == (next == 0)
                },
                Err(ChainError::NotPlain) => !old(self).finished() && !is_plain(old(self).left())
                    && *final(self) == *old(self),
                Err(ChainError::OffsetExceedsFrame { offset, remaining }) => {
                    &&& !old(self).finished()
                    &&& is_plain(old(self).left())
                    &&& offset == field(old(self).left(), 20, 4)
                    &&& remaining == old(self).left().len()
                    &&& offset > remaining
                    &&& *final(self) == *old(self)
                },
                Err(ChainError::TooLong) => false,
            },
    {
        if self.finished {
            return Ok(None);
        }
        let len: usize = byte_count(&self.frame);
        let left = vstd::slice::slice_subrange(as_slice(&self.frame), self.at, len);
        proof {
            assert(left@ =~= self.left());
        }
        let header = match Header::read(left) {
            Some(header) => header,
            None => {
                return Err(ChainError::NotPlain);
            },
        };
        proof {
            assert(is_plain(self.left()));
        }
        let start: usize = self.at;
        let offset: usize = header.next_command as usize;
        if offset == 0 {
            self.at = len;
            self.finished = true;
            return Ok(Some(ChainMember { header, start, end: len }));
        }
        if offset > len - start {
            return Err(ChainError::OffsetExceedsFrame { offset, remaining: len - start });
        }
        self.at = start + offset;
        Ok(Some(ChainMember { header, start, end: start + offset }))
    }

    /// The bytes of a message of the frame, without copying them.
    pub fn bytes_of(&self, member: &ChainMember) -> (bytes: Bytes)
        requires
            member.start <= member.end <= self.frame().len(),
        ensures
            contents(bytes) == self.frame().subrange(member.start as int, member.end as int),
    {
        slice_of(&self.frame, member.start, member.end)
    }
}

/// The bytes of the members of a frame.
pub open spec fn slices(frame: Seq<u8>, members: Seq<ChainMember>) -> Seq<Seq<u8>> {
    members.map_values(|member: ChainMember| frame.subrange(member.start as int, member.end as int))
}

/// Splits a frame into its messages.
pub fn split_chain(frame: Bytes) -> (members: Result<Vec<ChainMember>, ChainError>)
    ensures
        match members {
            Ok(members) => messages_of(contents(frame)) == Ok::<Seq<Seq<u8>>, ChainError>(
                slices(contents(frame), members@),
            ) && forall|i: int|
                0 <= i < members@.len() ==> begins_with(
                    contents(frame).skip((#[trigger] members@[i]).start as int),
                    members@[i].header,
                ),
            Err(error) => messages_of(contents(frame)) == Err::<Seq<Seq<u8>>, ChainError>(error),
        },
{
    let ghost whole = contents(frame);
    let mut walk = ChainWalk::new(frame);
    let mut members: Vec<ChainMember> = Vec::new();
    proof {
        assert(walk.left() =~= whole);
        prepended(slices(whole, members@), messages_of(whole));
    }
    loop
        invariant_except_break
            !walk.finished(),
            messages_of(whole) == prepend(slices(whole, members@), messages_of(walk.left())),
        invariant
            whole == contents(frame),
            walk.wf(),
            walk.frame() == whole,
            forall|i: int|
                0 <= i < members@.len() ==> begins_with(
                    whole.skip((#[trigger] members@[i]).start as int),
                    members@[i].header,
                ),
        ensures
            messages_of(whole) == Ok::<Seq<Seq<u8>>, ChainError>(slices(whole, members@)),
        decreases whole.len() - walk.at(),
    {
        let ghost left = walk.left();
        let ghost before = slices(whole, members@);
        match walk.step() {
            Ok(Some(member)) => {
                members.push(member);
                proof {
                    let slice = whole.subrange(member.start as int, member.end as int);
                    assert(slices(whole, members@) =~= before.push(slice));
                    assert(is_plain(left));
                    let next = field(left, 20, 4);
                    if next == 0 {
                        assert(slice =~= left);
                        assert(before + seq![left] =~= before.push(slice));
                    } else {
                        assert(left.skip(next as int) =~= walk.left());
                        assert(left.take(next as int) =~= slice);
                        if messages_of(walk.left()) is Ok {
                            let rest = messages_of(walk.left())->Ok_0;
                            assert(before + (seq![slice] + rest) =~= before.push(slice) + rest);
                        }
                    }
                }
                if member.header.next_command == 0 {
                    break;
                }
            },
            Ok(None) => {
                break;
            },
            Err(error) => {
                return Err(error);
            },
        }
    }
    Ok(members)
}

/// The outcome of a walk that has some messages behind it.
pub open spec fn prepend(first: Seq<Seq<u8>>, rest: Result<Seq<Seq<u8>>, ChainError>) -> Result<
    Seq<Seq<u8>>,
    ChainError,
> {
    match rest {
        Ok(rest) => Ok(first + rest),
        Err(error) => Err(error),
    }
}

/// A walk that has nothing behind it has the outcome of what is before it.
pub proof fn prepended(first: Seq<Seq<u8>>, rest: Result<Seq<Seq<u8>>, ChainError>)
    requires
        first.len() == 0,
    ensures
        prepend(first, rest) == rest,
{
    if rest is Ok {
        assert(first + rest->Ok_0 =~= rest->Ok_0);
    }
}

/// A frame in which one message carries a signature.
pub open spec fn signed(frame: Seq<u8>, start: int, signature: u128) -> Seq<u8> {
    frame.take(start + 48) + le_bytes(signature as nat, 16) + frame.skip(start + 64)
}

/// Writes a signature into the message that begins at `start`.
pub fn patch_signature(frame: &mut Vec<u8>, start: usize, signature: u128)
    requires
        start + HEADER_SIZE <= old(frame)@.len(),
    ensures
        final(frame)@ == signed(old(frame)@, start as int, signature),
        final(frame)@.len() == old(frame)@.len(),
{
    let mut bytes: Vec<u8> = Vec::new();
    push_le(&mut bytes, signature, 16);
    proof {
        le_bytes_len(signature as nat, 16);
    }
    let mut i: usize = 0;
    let len: usize = frame.len();
    while i < 16
        invariant
            i <= 16,
            len == frame@.len() == old(frame)@.len(),
            start + HEADER_SIZE <= len,
            bytes@ == le_bytes(signature as nat, 16),
            bytes@.len() == 16,
            forall|j: int|
                0 <= j < len ==> #[trigger] frame@[j] == if start + 48 <= j < start + 48 + i {
                    bytes@[j - (start + 48)]
                } else {
                    old(frame)@[j]
                },
        decreases 16 - i,
    {
        frame.set(start + SIGNATURE_OFFSET + i, bytes[i]);
        i = i + 1;
    }
    proof {
        assert(frame@ =~= signed(old(frame)@, start as int, signature));
    }
}

/// Signing a message changes nothing else that its header says, and does
/// not change where it ends.
pub proof fn signing_keeps_the_rest_of_the_header(frame: Seq<u8>, header: Header, signature: u128)
    requires
        begins_with(frame, header),
    ensures
        begins_with(signed(frame, 0, signature), (Header { signature, ..header })),
        signed(frame, 0, signature).len() == frame.len(),
{
    machine_spans();
    le_bytes_len(signature as nat, 16);
    written_numbers_are_read_back(signature as nat, 16);
    let all = signed(frame, 0, signature);
    assert(all.subrange(48, 64) =~= le_bytes(signature as nat, 16));
    assert(all.subrange(4, 6) =~= frame.subrange(4, 6));
    assert(all.subrange(6, 8) =~= frame.subrange(6, 8));
    assert(all.subrange(8, 12) =~= frame.subrange(8, 12));
    assert(all.subrange(12, 14) =~= frame.subrange(12, 14));
    assert(all.subrange(14, 16) =~= frame.subrange(14, 16));
    assert(all.subrange(16, 20) =~= frame.subrange(16, 20));
    assert(all.subrange(20, 24) =~= frame.subrange(20, 24));
    assert(all.subrange(24, 32) =~= frame.subrange(24, 32));
    assert(all.subrange(32, 40) =~= frame.subrange(32, 40));
    assert(all.subrange(40, 48) =~= frame.subrange(40, 48));
}

/// A message is padded with zeros up to the next multiple of eight, and by
/// less than eight of them.
pub proof fn messages_are_padded_to_eight(message: Seq<u8>, n: int)
    requires
        n >= 0,
    ensures
        aligned(n) % 8 == 0,
        n <= aligned(n) < n + 8,
        padded(message).len() % 8 == 0,
        message.len() <= padded(message).len() < message.len() + 8,
        padded(message).take(message.len() as int) == message,
        forall|i: int| message.len() <= i < padded(message).len() ==> #[trigger] padded(message)[i]
            == 0,
        fits(message) <==> padded(message).len() <= 0xffff_ffff,
{
    assert(padded(message).take(message.len() as int) =~= message);
}

/// In a chain each message says how far the next one is away, and the last
/// one says zero.
pub proof fn sealed_messages_point_to_the_next(messages: Seq<Seq<u8>>, i: int)
    requires
        0 <= i < messages.len(),
        is_plain(messages[i]),
        fits(messages[i]),
    ensures
        sealed_all(messages).len() == messages.len(),
        ({
            let part = sealed_all(messages)[i];
            &&& le_value(part.subrange(20, 24)) == if i == messages.len() - 1 {
                0
            } else {
                part.len()
            }
            &&& part.len() % 8 == 0
            &&& messages[i].len() <= part.len() < messages[i].len() + 8
        }),
{
    let last = i == messages.len() - 1;
    sealed_message_is_read(messages[i], last, Seq::empty());
    let part = sealed(messages[i], last);
    assert(part + Seq::<u8>::empty() =~= part);
}

/// A frame that can be read is read as a whole: its messages put together are
/// the frame, what is left of it at each message begins with a header, and
/// each message but the last is as long as that header says. A frame is
/// refused where it does not begin with a header, and where that points past
/// the end.
pub proof fn frames_are_read_as_a_whole(frame: Seq<u8>)
    ensures
        messages_of(frame) matches Ok(messages) ==> {
            &&& messages.len() > 0
            &&& joined(messages) == frame
            &&& forall|i: int|
                0 <= i < messages.len() ==> is_plain(joined(#[trigger] messages.skip(i)))
            &&& forall|i: int|
                0 <= i < messages.len() ==> le_value(
                    joined(#[trigger] messages.skip(i)).subrange(20, 24),
                ) == if i == messages.len() - 1 {
                    0
                } else {
                    messages[i].len()
                }
        },
        !is_plain(frame) ==> messages_of(frame) == Err::<Seq<Seq<u8>>, ChainError>(
            ChainError::NotPlain,
        ),
        is_plain(frame) && le_value(frame.subrange(20, 24)) > frame.len() ==> messages_of(frame)
            == Err::<Seq<Seq<u8>>, ChainError>(
            ChainError::OffsetExceedsFrame {
                offset: le_value(frame.subrange(20, 24)) as usize,
                remaining: frame.len() as usize,
            },
        ),
        is_plain(frame) && 0 < le_value(frame.subrange(20, 24)) <= frame.len() ==> {
            let rest = messages_of(frame.skip(le_value(frame.subrange(20, 24)) as int));
            &&& messages_of(frame) is Ok <==> rest is Ok
            &&& rest matches Err(error) ==> messages_of(frame) == Err::<Seq<Seq<u8>>, ChainError>(
                error,
            )
        },
        is_plain(frame) && le_value(frame.subrange(20, 24)) == 0 ==> messages_of(frame) == Ok::<
            Seq<Seq<u8>>,
            ChainError,
        >(seq![frame]),
    decreases frame.len(),
{
    let next = field(frame, 20, 4);
    if is_plain(frame) && next > 0 && next <= frame.len() {
        let rest = frame.skip(next as int);
        frames_are_read_as_a_whole(rest);
        if messages_of(rest) is Ok {
            let others = messages_of(rest)->Ok_0;
            let first = frame.take(next as int);
            let messages = seq![first] + others;
            assert(messages.drop_first() =~= others);
            joined_first(messages);
            assert(first + rest =~= frame);
            assert forall|i: int| 0 <= i < messages.len() implies is_plain(
                joined(#[trigger] messages.skip(i)),
            ) && le_value(joined(messages.skip(i)).subrange(20, 24)) == if i == messages.len()
                - 1 {
                0
            } else {
                messages[i].len()
            } by {
                if i > 0 {
                    assert(messages.skip(i) =~= others.skip(i - 1));
                    assert(messages[i] == others[i - 1]);
                } else {
                    assert(messages.skip(0) =~= messages);
                }
            }
        }
    } else if is_plain(frame) && next == 0 {
        let messages = seq![frame];
        joined_first(messages);
        assert(messages.drop_first() =~= Seq::<Seq<u8>>::empty());
        assert(joined(messages) =~= frame);
        assert forall|i: int| 0 <= i < messages.len() implies joined(
            #[trigger] messages.skip(i),
        ) == frame by {
            assert(messages.skip(0) =~= messages);
        }
    }
}

/// A signature is written into its own field of the message that it signs,
/// and nothing else of the frame is touched.
pub proof fn signatures_stand_in_their_field(frame: Seq<u8>, start: int, signature: u128, i: int)
    requires
        0 <= start,
        start + 64 <= frame.len(),
        0 <= i < frame.len(),
    ensures
        signed(frame, start, signature).len() == frame.len(),
        le_value(signed(frame, start, signature).subrange(start + 48, start + 64)) == signature,
        i < start + 48 || i >= start + 64 ==> signed(frame, start, signature)[i] == frame[i],
{
    machine_spans();
    le_bytes_len(signature as nat, 16);
    written_numbers_are_read_back(signature as nat, 16);
    assert(signed(frame, start, signature).subrange(start + 48, start + 64) =~= le_bytes(
        signature as nat,
        16,
    ));
}

} // verus!
