//! Compounds whose messages are signed one by one.
//!
//! The signature of each message covers that message alone, as it stands in
//! the frame: padded, and with the offset of the next one.

use crate::header::{begins_with, field, Header, HEADER_SIZE};
use crate::little_endian::le_bytes_len;
use crate::runtime::chain::{
    aligned, fits, is_plain, joined, joined_first, messages_of, patch_signature, seal, sealed,
    sealed_all, sealed_message_is_read, signed, signing_keeps_the_rest_of_the_header, views,
    ChainError,
};
use crate::session::signer::{covered, MessageSigner};
use vstd::prelude::*;

verus! {

/// Messages that carry a signature each.
pub open spec fn signed_parts(parts: Seq<Seq<u8>>, signatures: Seq<u128>) -> Seq<Seq<u8>> {
    Seq::new(parts.len(), |i: int| signed(parts[i], 0, signatures[i]))
}

/// The frame that holds a chain of signed messages.
pub open spec fn signed_chain(messages: Seq<Seq<u8>>, signatures: Seq<u128>) -> Seq<u8> {
    joined(signed_parts(sealed_all(messages), signatures))
}

/// Whether a signature was computed over a message as it stands in a chain.
pub open spec fn signed_with<F: Fn(Vec<u8>) -> u128>(
    sign: F,
    part: Seq<u8>,
    signature: u128,
) -> bool {
    exists|input: Vec<u8>, header: Header|
        #![trigger call_ensures(sign, (input,), signature), begins_with(part, header)]
        {
            &&& begins_with(part, header)
            &&& input@ == covered(header, part)
            &&& call_ensures(sign, (input,), signature)
        }
}

proof fn signed_len(part: Seq<u8>, signature: u128)
    requires
        part.len() >= HEADER_SIZE,
    ensures
        signed(part, 0, signature).len() == part.len(),
        signed(part, 0, signature).skip(HEADER_SIZE as int) == part.skip(HEADER_SIZE as int),
{
    le_bytes_len(signature as nat, 16);
    assert(signed(part, 0, signature).skip(64) =~= part.skip(64));
}

/// Whoever verifies a signed message computes over the very bytes that were
/// signed.
pub proof fn signed_messages_are_verified_as_signed(part: Seq<u8>, header: Header, signature: u128)
    requires
        begins_with(part, header),
    ensures
        begins_with(signed(part, 0, signature), (Header { signature, ..header })),
        covered((Header { signature, ..header }), signed(part, 0, signature)) == covered(
            header,
            part,
        ),
{
    signing_keeps_the_rest_of_the_header(part, header, signature);
    signed_len(part, signature);
}

/// A signed message is plain, points where it did, and is followed by
/// whatever stands behind it.
proof fn signed_message_is_read(message: Seq<u8>, last: bool, signature: u128, rest: Seq<u8>)
    requires
        is_plain(message),
        fits(message),
    ensures
        is_plain(signed(sealed(message, last), 0, signature) + rest),
        field(signed(sealed(message, last), 0, signature) + rest, 20, 4) == if last {
            0
        } else {
            aligned(message.len() as int)
        },
        signed(sealed(message, last), 0, signature).len() == aligned(message.len() as int),
{
    let part = sealed(message, last);
    sealed_message_is_read(message, last, rest);
    let header = choose|header: Header| begins_with(part + rest, header);
    signing_keeps_the_rest_of_the_header(part + rest, header, signature);
    signed_len(part, signature);
    le_bytes_len(signature as nat, 16);
    assert(signed(part + rest, 0, signature) =~= signed(part, 0, signature) + rest);
}

/// The messages of a signed chain are read back from its frame, in order,
/// each as it was signed.
pub proof fn signed_chains_are_read_back(messages: Seq<Seq<u8>>, signatures: Seq<u128>)
    requires
        messages.len() > 0,
        messages.len() == signatures.len(),
        forall|i: int| 0 <= i < messages.len() ==> is_plain(#[trigger] messages[i]),
        forall|i: int| 0 <= i < messages.len() ==> fits(#[trigger] messages[i]),
    ensures
        messages_of(signed_chain(messages, signatures)) == Ok::<Seq<Seq<u8>>, ChainError>(
            signed_parts(sealed_all(messages), signatures),
        ),
    decreases messages.len(),
{
    let parts = signed_parts(sealed_all(messages), signatures);
    let last = messages.len() == 1;
    let frame = signed_chain(messages, signatures);
    joined_first(parts);
    let rest = joined(parts.drop_first());
    assert(is_plain(messages[0]));
    signed_message_is_read(messages[0], last, signatures[0], rest);
    assert(parts[0] == signed(sealed(messages[0], last), 0, signatures[0]));
    if last {
        assert(parts.drop_first() =~= Seq::<Seq<u8>>::empty());
        assert(frame =~= parts[0]);
        assert(parts =~= seq![frame]);
    } else {
        let others = messages.drop_first();
        assert(signed_parts(sealed_all(others), signatures.drop_first()) =~= parts.drop_first());
        assert(forall|i: int| 0 <= i < others.len() ==> others[i] == messages[i + 1]);
        signed_chains_are_read_back(others, signatures.drop_first());
        let next = aligned(messages[0].len() as int);
        assert(frame.skip(next) =~= rest);
        assert(frame.take(next) =~= parts[0]);
        assert(seq![parts[0]] + parts.drop_first() =~= parts);
    }
}

proof fn sealing_keeps_plain(message: Seq<u8>, last: bool)
    requires
        fits(message),
        is_plain(message),
    ensures
        is_plain(sealed(message, last)),
        sealed(message, last).len() >= HEADER_SIZE,
{
    sealed_message_is_read(message, last, Seq::empty());
    assert(sealed(message, last) + Seq::<u8>::empty() =~= sealed(message, last));
}

/// Where a chain holds a message that is too long, or one that is no plain
/// message: what stops it from being signed.
pub open spec fn chain_fault(messages: Seq<Seq<u8>>) -> Option<ChainError> {
    if exists|i: int| 0 <= i < messages.len() && !fits(#[trigger] messages[i]) {
        Some(ChainError::TooLong)
    } else if exists|i: int| 0 <= i < messages.len() && !is_plain(#[trigger] messages[i]) {
        Some(ChainError::NotPlain)
    } else {
        None
    }
}

fn check_chain(messages: &Vec<Vec<u8>>) -> (fault: Option<ChainError>)
    ensures
        fault == chain_fault(views(messages@)),
{
    let ghost all = views(messages@);
    let count: usize = messages.len();
    let mut plain = true;
    let mut i: usize = 0;
    while i < count
        invariant
            i <= count == messages@.len(),
            all == views(messages@),
            forall|j: int| 0 <= j < i ==> fits(#[trigger] all[j]),
            plain == !(exists|j: int| 0 <= j < i && !is_plain(#[trigger] all[j])),
        decreases count - i,
    {
        assert(all[i as int] == messages@[i as int]@);
        if messages[i].len() as u64 > 0xffff_fff8 {
            assert(!fits(all[i as int]));
            return Some(ChainError::TooLong);
        }
        if Header::read(messages[i].as_slice()).is_none() {
            assert(!is_plain(all[i as int]));
            plain = false;
        }
        i = i + 1;
    }
    if plain {
        None
    } else {
        Some(ChainError::NotPlain)
    }
}

/// Builds the frame that holds a chain of encoded messages, each signed over
/// itself.
pub fn sign_chain<F: Fn(Vec<u8>) -> u128>(
    signer: &MessageSigner,
    messages: &Vec<Vec<u8>>,
    sign: F,
) -> (frame: Result<Vec<u8>, ChainError>)
    requires
        forall|input: Vec<u8>| #[trigger] call_requires(sign, (input,)),
    ensures
        match frame {
            Ok(frame) => chain_fault(views(messages@)) is None && exists|signatures: Seq<u128>| {
                &&& signatures.len() == messages@.len()
                &&& frame@ == #[trigger] signed_chain(views(messages@), signatures)
                &&& forall|i: int|
                    0 <= i < messages@.len() ==> signed_with(
                        sign,
                        sealed_all(views(messages@))[i],
                        #[trigger] signatures[i],
                    )
            },
            Err(error) => chain_fault(views(messages@)) == Some(error),
        },
{
    if let Some(fault) = check_chain(messages) {
        return Err(fault);
    }
    let ghost all = views(messages@);
    let ghost parts = sealed_all(all);
    let ghost mut signatures: Seq<u128> = Seq::empty();
    let count: usize = messages.len();
    let mut frame: Vec<u8> = Vec::new();
    let mut i: usize = 0;
    proof {
        assert(signed_parts(parts.take(0), signatures) =~= Seq::<Seq<u8>>::empty());
    }
    while i < count
        invariant
            i <= count == messages@.len(),
            all == views(messages@),
            parts == sealed_all(all),
            chain_fault(all) is None,
            forall|input: Vec<u8>| #[trigger] call_requires(sign, (input,)),
            signatures.len() == i,
            forall|j: int| 0 <= j < i ==> signed_with(sign, parts[j], #[trigger] signatures[j]),
            frame@ == joined(signed_parts(parts.take(i as int), signatures)),
        decreases count - i,
    {
        let last = i + 1 == count;
        proof {
            assert(all[i as int] == messages@[i as int]@);
            assert(fits(all[i as int]) && is_plain(all[i as int]));
            sealing_keeps_plain(all[i as int], last);
        }
        let mut part = seal(&messages[i], last);
        let header = match Header::read(part.as_slice()) {
            Some(header) => header,
            None => {
                return Err(ChainError::NotPlain);
            },
        };
        let input = signer.signing_input(&header, part.as_slice());
        let signature: u128 = sign(input);
        assert(signed_with(sign, parts[i as int], signature));
        patch_signature(&mut part, 0, signature);
        frame.append(&mut part);
        proof {
            let before = signed_parts(parts.take(i as int), signatures);
            signatures = signatures.push(signature);
            let after = signed_parts(parts.take(i + 1), signatures);
            assert(after.drop_last() =~= before);
            assert(after.last() == signed(parts[i as int], 0, signature));
        }
        i = i + 1;
    }
    proof {
        assert(parts.take(count as int) =~= parts);
        assert(frame@ == signed_chain(all, signatures));
    }
    Ok(frame)
}

/// Each message of a signed chain carries its own signature, which was
/// computed over that message with zeros where the signature stands.
pub proof fn signatures_are_computed_over_their_message<F: Fn(Vec<u8>) -> u128>(
    sign: F,
    part: Seq<u8>,
    header: Header,
    signature: u128,
)
    requires
        signed_with(sign, part, signature),
        begins_with(part, header),
    ensures
        exists|input: Vec<u8>| #[trigger]
            call_ensures(sign, (input,), signature) && input@ == crate::header::header_bytes(
                Header { signature: 0, ..header },
            ) + part.skip(64),
{
    let (input, found) = choose|input: Vec<u8>, found: Header|
        #![trigger call_ensures(sign, (input,), signature), begins_with(part, found)]
        {
            &&& begins_with(part, found)
            &&& input@ == covered(found, part)
            &&& call_ensures(sign, (input,), signature)
        };
    crate::header::header_is_unique(part, found, header);
    assert(call_ensures(sign, (input,), signature));
}

/// The parts of a signed chain are its messages as they stand in the frame,
/// each with its signature; a chain can be signed where every message is
/// plain and none is too long.
pub proof fn signed_parts_carry_their_signatures(
    parts: Seq<Seq<u8>>,
    signatures: Seq<u128>,
    messages: Seq<Seq<u8>>,
    i: int,
)
    requires
        0 <= i < parts.len(),
    ensures
        signed_parts(parts, signatures).len() == parts.len(),
        signed_parts(parts, signatures)[i] == signed(parts[i], 0, signatures[i]),
        chain_fault(messages) is None <==> forall|j: int|
            0 <= j < messages.len() ==> is_plain(#[trigger] messages[j]) && fits(messages[j]),
        chain_fault(messages) == Some(ChainError::TooLong) <==> exists|j: int|
            0 <= j < messages.len() && !fits(#[trigger] messages[j]),
{
}

} // verus!
