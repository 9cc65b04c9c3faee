//! Message signing.
//!
//! A signature covers the whole message, with zeros where the signature
//! itself stands.

use crate::header::{header_bytes, Header, HEADER_SIZE};
use vstd::prelude::*;

verus! {

#[derive(Clone, Copy, Debug, PartialEq, Eq, Structural)]
pub enum SignatureError {
    SignatureVerificationFailed,
}

pub open spec fn unsigned(header: Header) -> Header {
    Header { signature: 0, ..header }
}

/// What stands behind the header, where there is a whole one.
pub open spec fn behind_header(data: Seq<u8>) -> Seq<u8> {
    if data.len() >= HEADER_SIZE {
        data.skip(HEADER_SIZE as int)
    } else {
        Seq::empty()
    }
}

pub open spec fn concatenated(segments: Seq<Seq<u8>>) -> Seq<u8>
    decreases segments.len(),
{
    if segments.len() == 0 {
        Seq::empty()
    } else {
        concatenated(segments.drop_last()) + segments.last()
    }
}

/// What the signature of a message covers.
pub open spec fn covered(header: Header, data: Seq<u8>) -> Seq<u8> {
    header_bytes(unsigned(header)) + behind_header(data)
}

/// What the signature of a message in several segments covers.
pub open spec fn covered_segments(header: Header, segments: Seq<Seq<u8>>) -> Seq<u8> {
    header_bytes(unsigned(header)) + behind_header(segments[0]) + concatenated(
        segments.drop_first(),
    )
}

pub open spec fn segment_views(segments: Seq<Vec<u8>>) -> Seq<Seq<u8>> {
    segments.map_values(|segment: Vec<u8>| segment@)
}

proof fn concatenated_first(segments: Seq<Seq<u8>>)
    requires
        segments.len() > 0,
    ensures
        concatenated(segments) == segments[0] + concatenated(segments.drop_first()),
    decreases segments.len(),
{
    if segments.len() == 1 {
        assert(segments.drop_last() =~= Seq::<Seq<u8>>::empty());
        assert(segments.drop_first() =~= Seq::<Seq<u8>>::empty());
    } else {
        concatenated_first(segments.drop_last());
        assert(segments.drop_last().drop_first() =~= segments.drop_first().drop_last());
    }
    assert(concatenated(segments) =~= segments[0] + concatenated(segments.drop_first()));
}

/// A message in several segments is signed as it is in one piece.
pub proof fn segments_are_signed_as_one(header: Header, segments: Seq<Seq<u8>>)
    requires
        segments.len() > 0,
        segments[0].len() >= HEADER_SIZE,
    ensures
        covered_segments(header, segments) == covered(header, concatenated(segments)),
{
    concatenated_first(segments);
    assert(covered_segments(header, segments) =~= covered(header, concatenated(segments)));
}

/// What a signature covers does not depend on the signature that stands in
/// the message.
pub proof fn signatures_do_not_cover_themselves(header: Header, signature: u128, data: Seq<u8>)
    ensures
        covered((Header { signature, ..header }), data) == covered(header, data),
{
}

/// Signs the messages of a session, as far as the messages go: which bytes a
/// signature covers, where it stands, and whether it is the one computed.
#[derive(Clone, Copy, Debug, PartialEq, Eq, Structural)]
pub struct MessageSigner {
    algorithm: SigningAlgorithm,
}

#[derive(Clone, Copy, Debug, PartialEq, Eq, Structural)]
pub enum SigningAlgorithm {
    HmacSha256,
    AesCmac,
    AesGmac,
}

impl MessageSigner {
    pub closed spec fn algorithm(&self) -> SigningAlgorithm {
        self.algorithm
    }

    pub fn new(algorithm: SigningAlgorithm) -> (signer: Self)
        ensures
            signer.algorithm() == algorithm,
    {
        MessageSigner { algorithm }
    }

    /// The algorithm that computes its signatures.
    pub fn signing_algorithm(&self) -> (algorithm: SigningAlgorithm)
        ensures
            algorithm == self.algorithm(),
    {
        self.algorithm
    }

    /// Whether its signatures may be computed together with others.
    pub fn batches(&self) -> (may: bool)
        ensures
            may == (self.algorithm() == SigningAlgorithm::AesCmac),
    {
        self.algorithm == SigningAlgorithm::AesCmac
    }

    fn zeroed(header: &Header) -> (bytes: Vec<u8>)
        ensures
            bytes@ == header_bytes(unsigned(*header)),
    {
        let mut plain = *header;
        plain.signature = 0;
        plain.write()
    }

    /// What the signature of a message in one piece covers.
    pub fn signing_input(&self, header: &Header, data: &[u8]) -> (input: Vec<u8>)
        ensures
            input@ == covered(*header, data@),
    {
        let mut input = Self::zeroed(header);
        if data.len() >= HEADER_SIZE {
            input.extend_from_slice(vstd::slice::slice_subrange(data, HEADER_SIZE, data.len()));
            assert(data@.subrange(HEADER_SIZE as int, data@.len() as int) =~= data@.skip(
                HEADER_SIZE as int,
            ));
        }
        assert(input@ =~= covered(*header, data@));
        input
    }

    /// What the signature of a message in several segments covers.
    pub fn signing_input_segments(&self, header: &Header, segments: &Vec<Vec<u8>>) -> (input: Vec<u8>)
        requires
            segments@.len() > 0,
        ensures
            input@ == covered_segments(*header, segment_views(segments@)),
    {
        let mut input = self.signing_input(header, segments[0].as_slice());
        let ghost head = input@;
        let ghost rest = segment_views(segments@).drop_first();
        let mut i: usize = 1;
        proof {
            assert(rest.take(0) =~= Seq::<Seq<u8>>::empty());
            assert(head + Seq::<u8>::empty() =~= head);
        }
        while i < segments.len()
            invariant
                1 <= i <= segments@.len(),
                rest == segment_views(segments@).drop_first(),
                input@ == head + concatenated(rest.take(i - 1)),
            decreases segments@.len() - i,
        {
            let ghost before = input@;
            input.extend_from_slice(segments[i].as_slice());
            proof {
                assert(rest.take(i as int).drop_last() =~= rest.take(i - 1));
                assert(rest.take(i as int).last() == segments@[i as int]@);
                assert(input@ =~= before + segments@[i as int]@);
                assert(input@ =~= head + concatenated(rest.take(i as int)));
            }
            i = i + 1;
        }
        proof {
            assert(rest.take(segments@.len() - 1) =~= rest);
            assert(input@ =~= covered_segments(*header, segment_views(segments@)));
        }
        input
    }

    /// Holds a computed signature against the one that a message carries.
    pub fn verify_signature(&self, header: &Header, calculated: u128) -> (result: Result<(), SignatureError>)
        ensures
            result == (if calculated == header.signature {
                Ok::<(), SignatureError>(())
            } else {
                Err(SignatureError::SignatureVerificationFailed)
            }),
    {
        if calculated != header.signature {
            return Err(SignatureError::SignatureVerificationFailed);
        }
        Ok(())
    }

    /// Puts a signature into a header, and the header in front of a message.
    pub fn sign_message(&self, header: &mut Header, data: &mut Vec<u8>, signature: u128)
        requires
            old(data)@.len() >= HEADER_SIZE,
        ensures
            *final(header) == (Header { signature, ..*old(header) }),
            final(data)@ == header_bytes(*final(header)) + old(data)@.skip(HEADER_SIZE as int),
    {
        header.signature = signature;
        let bytes = header.write();
        let mut i: usize = 0;
        let len: usize = data.len();
        while i < HEADER_SIZE
            invariant
                i <= HEADER_SIZE <= len,
                len == data@.len() == old(data)@.len(),
                bytes@ == header_bytes(*header),
                bytes@.len() == HEADER_SIZE,
                forall|j: int|
                    0 <= j < len ==> #[trigger] data@[j] == if j < i {
                        bytes@[j]
                    } else {
                        old(data)@[j]
                    },
            decreases HEADER_SIZE - i,
        {
            data.set(i, bytes[i]);
            i = i + 1;
        }
        proof {
            assert(data@ =~= header_bytes(*header) + old(data)@.skip(HEADER_SIZE as int));
        }
    }
}

/// A signature covers the header as it is, but for the signature itself, and
/// everything behind the header.
pub proof fn signatures_cover_the_whole_message(header: Header, body: Seq<u8>)
    ensures
        ({
            let signed = Header { signature: 0, ..header };
            &&& covered(header, header_bytes(header) + body) == header_bytes(signed) + body
            &&& unsigned(header) == signed
        }),
{
    crate::header::fields_have_their_places(header);
    let data = header_bytes(header) + body;
    assert(data.skip(64) =~= body);
}

/// Segments are put together in their order, and nothing is left out.
pub proof fn segments_are_put_together(front: Seq<Seq<u8>>, last: Seq<u8>)
    ensures
        concatenated(Seq::<Seq<u8>>::empty()) == Seq::<u8>::empty(),
        concatenated(front.push(last)) == concatenated(front) + last,
{
    assert(front.push(last).drop_last() =~= front);
}

/// Of a message without a whole header only the header is covered.
pub proof fn short_messages_are_covered_by_their_header(header: Header, data: Seq<u8>)
    requires
        data.len() < 64,
    ensures
        covered(header, data) == header_bytes(Header { signature: 0, ..header }),
{
    assert(covered(header, data) =~= header_bytes(Header { signature: 0, ..header }));
}

} // verus!
