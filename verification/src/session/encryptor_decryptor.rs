//! The envelope of encrypted messages.

use crate::header::{field, kind_of, message_kind, MessageKind};
use crate::little_endian::{
    le_bytes, le_bytes_len, le_value, machine_spans, push_le, read_le,
    written_numbers_are_read_back,
};
use rand::rngs::OsRng;
use rand::RngCore;
use vstd::prelude::*;

verus! {

/// The length of the header in front of an encrypted message.
pub const ENCRYPTED_HEADER_SIZE: usize = 52;

/// The length of the nonce in the header. A cipher uses the first bytes of it.
pub const NONCE_SIZE: usize = 16;

#[derive(Debug, PartialEq, Eq)]
pub struct EncryptedHeader {
    pub signature: u128,
    pub nonce: Vec<u8>,
    pub original_message_size: u32,
    pub session_id: u64,
}

#[verifier::ext_equal]
pub struct EncryptedHeaderView {
    pub signature: u128,
    pub nonce: Seq<u8>,
    pub original_message_size: u32,
    pub session_id: u64,
}

impl View for EncryptedHeader {
    type V = EncryptedHeaderView;

    open spec fn view(&self) -> EncryptedHeaderView {
        EncryptedHeaderView {
            signature: self.signature,
            nonce: self.nonce@,
            original_message_size: self.original_message_size,
            session_id: self.session_id,
        }
    }
}

#[derive(Clone, Copy, Debug, PartialEq, Eq, Structural)]
pub enum EnvelopeError {
    /// The message is too long for the header to say how long it is.
    TooLong,
    /// The payload is not as long as the header says.
    SizeMismatch,
    /// The part of the nonce that the cipher does not use is not zero.
    UnusedNonceBytes,
}

/// The part of the header that the cipher authenticates.
pub open spec fn authenticated(header: EncryptedHeaderView) -> Seq<u8> {
    header.nonce + le_bytes(header.original_message_size as nat, 4) + le_bytes(0, 2) + le_bytes(
        1,
        2,
    ) + le_bytes(header.session_id as nat, 8)
}

/// The bytes of the header.
pub open spec fn encrypted_header_bytes(header: EncryptedHeaderView) -> Seq<u8> {
    seq![0xfdu8, 0x53u8, 0x4du8, 0x42u8] + le_bytes(header.signature as nat, 16) + authenticated(
        header,
    )
}

/// Whether bytes begin with a header, and with which.
pub open spec fn encrypted_with(bytes: Seq<u8>, header: EncryptedHeaderView) -> bool {
    &&& bytes.len() >= ENCRYPTED_HEADER_SIZE
    &&& kind_of(bytes) == MessageKind::Encrypted
    &&& header.signature == field(bytes, 4, 16)
    &&& header.nonce == bytes.subrange(20, 36)
    &&& header.original_message_size == field(bytes, 36, 4)
    &&& field(bytes, 42, 2) == 1
    &&& header.session_id == field(bytes, 44, 8)
}

pub open spec fn unused_are_zero(nonce: Seq<u8>, used: int) -> bool {
    forall|i: int| used <= i < nonce.len() ==> #[trigger] nonce[i] == 0
}

proof fn authenticated_len(header: EncryptedHeaderView)
    ensures
        authenticated(header).len() == header.nonce.len() + 16,
{
    le_bytes_len(header.original_message_size as nat, 4);
    le_bytes_len(0, 2);
    le_bytes_len(1, 2);
    le_bytes_len(header.session_id as nat, 8);
}

/// A header that was written is read back, whatever follows it.
pub proof fn written_envelopes_are_read_back(header: EncryptedHeaderView, rest: Seq<u8>)
    requires
        header.nonce.len() == NONCE_SIZE,
    ensures
        encrypted_with(encrypted_header_bytes(header) + rest, header),
        encrypted_header_bytes(header).len() == ENCRYPTED_HEADER_SIZE,
{
    machine_spans();
    authenticated_len(header);
    le_bytes_len(header.signature as nat, 16);
    le_bytes_len(header.original_message_size as nat, 4);
    le_bytes_len(0, 2);
    le_bytes_len(1, 2);
    le_bytes_len(header.session_id as nat, 8);
    written_numbers_are_read_back(header.signature as nat, 16);
    written_numbers_are_read_back(header.original_message_size as nat, 4);
    written_numbers_are_read_back(1, 2);
    written_numbers_are_read_back(header.session_id as nat, 8);
    let all = encrypted_header_bytes(header) + rest;
    assert(all.subrange(4, 20) =~= le_bytes(header.signature as nat, 16));
    assert(all.subrange(20, 36) =~= header.nonce);
    assert(all.subrange(36, 40) =~= le_bytes(header.original_message_size as nat, 4));
    assert(all.subrange(42, 44) =~= le_bytes(1, 2));
    assert(all.subrange(44, 52) =~= le_bytes(header.session_id as nat, 8));
}

/// Fills bytes from `rand::rngs::OsRng`, by `RngCore::fill_bytes`: as many
/// come back as went in. What they hold is random and left unsaid. The call
/// panics where the operating system has no randomness to give.
#[verifier::external_body]
fn fill_random(bytes: &mut Vec<u8>)
    ensures
        final(bytes)@.len() == old(bytes)@.len(),
{
    OsRng.fill_bytes(bytes);
}

/// A nonce that begins with the given bytes, with zeros behind them.
pub open spec fn padded(drawn: Seq<u8>) -> Seq<u8> {
    drawn + Seq::new((NONCE_SIZE - drawn.len()) as nat, |i: int| 0u8)
}

/// Makes a nonce of the bytes that a cipher uses of it.
pub fn padded_nonce(drawn: Vec<u8>) -> (nonce: Vec<u8>)
    requires
        drawn@.len() <= NONCE_SIZE,
    ensures
        nonce@ == padded(drawn@),
        nonce@.len() == NONCE_SIZE,
        unused_are_zero(nonce@, drawn@.len() as int),
{
    let ghost first = drawn@;
    let mut nonce = drawn;
    while nonce.len() < NONCE_SIZE
        invariant
            first.len() <= nonce@.len() <= NONCE_SIZE,
            nonce@ == first + Seq::new((nonce@.len() - first.len()) as nat, |i: int| 0u8),
        decreases NONCE_SIZE - nonce@.len(),
    {
        nonce.push(0);
        assert(nonce@ =~= first + Seq::new((nonce@.len() - first.len()) as nat, |i: int| 0u8));
    }
    nonce
}

/// A fresh nonce for a cipher that uses the first `nonce_size` bytes of it:
/// those are random, and the rest is zero.
pub fn gen_nonce(nonce_size: usize) -> (nonce: Vec<u8>)
    requires
        nonce_size <= NONCE_SIZE,
    ensures
        exists|drawn: Seq<u8>| drawn.len() == nonce_size && nonce@ == #[trigger] padded(drawn),
        nonce@.len() == NONCE_SIZE,
        unused_are_zero(nonce@, nonce_size as int),
{
    let mut drawn: Vec<u8> = Vec::new();
    while drawn.len() < nonce_size
        invariant
            drawn@.len() <= nonce_size <= NONCE_SIZE,
        decreases nonce_size - drawn@.len(),
    {
        drawn.push(0);
    }
    fill_random(&mut drawn);
    padded_nonce(drawn)
}

/// The header for a message of a given length, with a given nonce.
pub fn envelope(nonce: Vec<u8>, message_len: usize, session_id: u64) -> (header: Result<
    EncryptedHeader,
    EnvelopeError,
>)
    ensures
        match header {
            Ok(header) => message_len <= u32::MAX && header@ == (EncryptedHeaderView {
                signature: 0,
                nonce: nonce@,
                original_message_size: message_len as u32,
                session_id,
            }),
            Err(error) => message_len > u32::MAX && error == EnvelopeError::TooLong,
        },
{
    if message_len as u64 > u32::MAX as u64 {
        return Err(EnvelopeError::TooLong);
    }
    Ok(
        EncryptedHeader {
            signature: 0,
            nonce,
            original_message_size: message_len as u32,
            session_id,
        },
    )
}

/// The sender's side of a session's cipher, as far as the envelope goes.
#[derive(Clone, Copy, Debug, PartialEq, Eq, Structural)]
pub struct MessageEncryptor {
    nonce_size: usize,
}

impl MessageEncryptor {
    /// How many bytes of the nonce the cipher uses.
    pub closed spec fn nonce_size(&self) -> int {
        self.nonce_size as int
    }

    pub open spec fn wf(&self) -> bool {
        0 <= self.nonce_size() <= NONCE_SIZE
    }

    pub fn new(nonce_size: usize) -> (encryptor: Self)
        requires
            nonce_size <= NONCE_SIZE,
        ensures
            encryptor.nonce_size() == nonce_size,
            encryptor.wf(),
    {
        MessageEncryptor { nonce_size }
    }

    /// Begins the encryption of a message: the header to authenticate with
    /// it, under a fresh nonce. The cipher gives the signature.
    pub fn encrypt_message(&self, message_len: usize, session_id: u64) -> (header: Result<
        EncryptedHeader,
        EnvelopeError,
    >)
        requires
            self.wf(),
        ensures
            match header {
                Ok(header) => message_len <= u32::MAX && header.signature == 0
                    && header.nonce@.len() == NONCE_SIZE && unused_are_zero(
                    header.nonce@,
                    self.nonce_size(),
                ) && header.original_message_size == message_len && header.session_id
                    == session_id,
                Err(error) => message_len > u32::MAX && error == EnvelopeError::TooLong,
            },
    {
        envelope(gen_nonce(self.nonce_size), message_len, session_id)
    }
}

/// The receiver's side of a session's cipher, as far as the envelope goes.
#[derive(Clone, Copy, Debug, PartialEq, Eq, Structural)]
pub struct MessageDecryptor {
    nonce_size: usize,
}

impl MessageDecryptor {
    /// How many bytes of the nonce the cipher uses.
    pub closed spec fn nonce_size(&self) -> int {
        self.nonce_size as int
    }

    pub open spec fn wf(&self) -> bool {
        0 <= self.nonce_size() <= NONCE_SIZE
    }

    pub fn new(nonce_size: usize) -> (decryptor: Self)
        requires
            nonce_size <= NONCE_SIZE,
        ensures
            decryptor.nonce_size() == nonce_size,
            decryptor.wf(),
    {
        MessageDecryptor { nonce_size }
    }

    /// Checks an encrypted message before it is decrypted.
    pub fn decrypt_message(&self, header: &EncryptedHeader, payload_len: usize) -> (result: Result<
        (),
        EnvelopeError,
    >)
        requires
            self.nonce_size() <= header.nonce@.len(),
        ensures
            result == (if payload_len != header.original_message_size {
                Err(EnvelopeError::SizeMismatch)
            } else if !unused_are_zero(header.nonce@, self.nonce_size()) {
                Err(EnvelopeError::UnusedNonceBytes)
            } else {
                Ok::<(), EnvelopeError>(())
            }),
    {
        if payload_len as u64 != header.original_message_size as u64 {
            return Err(EnvelopeError::SizeMismatch);
        }
        let mut i: usize = self.nonce_size;
        while i < header.nonce.len()
            invariant
                self.nonce_size <= i <= header.nonce@.len(),
                payload_len == header.original_message_size,
                forall|j: int| self.nonce_size <= j < i ==> #[trigger] header.nonce@[j] == 0,
            decreases header.nonce@.len() - i,
        {
            if header.nonce[i] != 0 {
                assert(!unused_are_zero(header.nonce@, self.nonce_size()));
                return Err(EnvelopeError::UnusedNonceBytes);
            }
            i = i + 1;
        }
        Ok(())
    }
}

impl EncryptedHeader {
    /// The part of the header that the cipher authenticates.
    pub fn aead_bytes(&self) -> (bytes: Vec<u8>)
        ensures
            bytes@ == authenticated(self@),
    {
        let mut bytes: Vec<u8> = vstd::slice::slice_to_vec(self.nonce.as_slice());
        push_le(&mut bytes, self.original_message_size as u128, 4);
        push_le(&mut bytes, 0, 2);
        push_le(&mut bytes, 1, 2);
        push_le(&mut bytes, self.session_id as u128, 8);
        bytes
    }

    /// The bytes of the header.
    pub fn write(&self) -> (bytes: Vec<u8>)
        ensures
            bytes@ == encrypted_header_bytes(self@),
    {
        let mut bytes: Vec<u8> = vec![0xfd, 0x53, 0x4d, 0x42];
        push_le(&mut bytes, self.signature, 16);
        let mut rest = self.aead_bytes();
        bytes.append(&mut rest);
        assert(bytes@ =~= encrypted_header_bytes(self@));
        bytes
    }

    /// Reads the header that bytes begin with.
    pub fn read(bytes: &[u8]) -> (header: Option<EncryptedHeader>)
        ensures
            match header {
                Some(header) => encrypted_with(bytes@, header@),
                None => forall|h: EncryptedHeaderView| !(#[trigger] encrypted_with(bytes@, h)),
            },
    {
        if bytes.len() < ENCRYPTED_HEADER_SIZE {
            return None;
        }
        if message_kind(bytes) != MessageKind::Encrypted {
            return None;
        }
        if read_le(bytes, 42, 2) != 1 {
            return None;
        }
        proof {
            machine_spans();
        }
        let nonce = vstd::slice::slice_to_vec(vstd::slice::slice_subrange(bytes, 20, 36));
        Some(
            EncryptedHeader {
                signature: read_le(bytes, 4, 16),
                nonce,
                original_message_size: read_le(bytes, 36, 4) as u32,
                session_id: read_le(bytes, 44, 8) as u64,
            },
        )
    }
}

/// An envelope passes the checks of whoever opens it.
pub proof fn envelopes_are_accepted(header: EncryptedHeaderView, payload: Seq<u8>, nonce_size: int)
    requires
        header.nonce.len() == NONCE_SIZE,
        0 <= nonce_size <= NONCE_SIZE,
        unused_are_zero(header.nonce, nonce_size),
        header.original_message_size == payload.len(),
    ensures
        ({
            let frame = encrypted_header_bytes(header) + payload;
            forall|read: EncryptedHeaderView| #[trigger]
                encrypted_with(frame, read) ==> read.original_message_size == frame.skip(
                    ENCRYPTED_HEADER_SIZE as int,
                ).len() && unused_are_zero(read.nonce, nonce_size) && read == header
        }),
{
    written_envelopes_are_read_back(header, payload);
    let frame = encrypted_header_bytes(header) + payload;
    assert(frame.skip(ENCRYPTED_HEADER_SIZE as int) =~= payload);
    assert forall|read: EncryptedHeaderView| #[trigger] encrypted_with(frame, read) implies read
        == header by {
        assert(read =~= header);
    }
}

/// The header of an encrypted message has 52 bytes, and each of its fields
/// has its place in them. All behind the signature is authenticated.
pub proof fn envelope_fields_have_their_places(header: EncryptedHeaderView)
    requires
        header.nonce.len() == 16,
    ensures
        ({
            let bytes = encrypted_header_bytes(header);
            &&& bytes.len() == 52
            &&& bytes[0] == 0xfd
            &&& bytes[1] == 0x53
            &&& bytes[2] == 0x4d
            &&& bytes[3] == 0x42
            &&& le_value(bytes.subrange(4, 20)) == header.signature
            &&& bytes.subrange(20, 36) == header.nonce
            &&& le_value(bytes.subrange(36, 40)) == header.original_message_size
            &&& le_value(bytes.subrange(40, 42)) == 0
            &&& le_value(bytes.subrange(42, 44)) == 1
            &&& le_value(bytes.subrange(44, 52)) == header.session_id
            &&& authenticated(header) == bytes.subrange(20, 52)
        }),
{
    machine_spans();
    authenticated_len(header);
    le_bytes_len(header.signature as nat, 16);
    le_bytes_len(header.original_message_size as nat, 4);
    le_bytes_len(0, 2);
    le_bytes_len(1, 2);
    le_bytes_len(header.session_id as nat, 8);
    written_numbers_are_read_back(header.signature as nat, 16);
    written_numbers_are_read_back(header.original_message_size as nat, 4);
    written_numbers_are_read_back(0, 2);
    written_numbers_are_read_back(1, 2);
    written_numbers_are_read_back(header.session_id as nat, 8);
    let all = encrypted_header_bytes(header);
    assert(all.subrange(4, 20) =~= le_bytes(header.signature as nat, 16));
    assert(all.subrange(20, 36) =~= header.nonce);
    assert(all.subrange(36, 40) =~= le_bytes(header.original_message_size as nat, 4));
    assert(all.subrange(40, 42) =~= le_bytes(0, 2));
    assert(all.subrange(42, 44) =~= le_bytes(1, 2));
    assert(all.subrange(44, 52) =~= le_bytes(header.session_id as nat, 8));
    assert(authenticated(header) =~= all.subrange(20, 52));
}

/// An encrypted message is found where its marker and its version stand, and
/// its header reads as what stands in its fields.
pub proof fn envelopes_are_read_from_their_fields(bytes: Seq<u8>, header: EncryptedHeaderView)
    ensures
        encrypted_with(bytes, header) <==> {
            &&& bytes.len() >= 52
            &&& bytes[0] == 0xfd
            &&& bytes[1] == 0x53
            &&& bytes[2] == 0x4d
            &&& bytes[3] == 0x42
            &&& le_value(bytes.subrange(4, 20)) == header.signature
            &&& bytes.subrange(20, 36) == header.nonce
            &&& le_value(bytes.subrange(36, 40)) == header.original_message_size
            &&& le_value(bytes.subrange(42, 44)) == 1
            &&& le_value(bytes.subrange(44, 52)) == header.session_id
        },
{
}

/// A nonce has 16 bytes: those that were drawn, and zeros behind them.
pub proof fn nonces_keep_what_was_drawn(drawn: Seq<u8>)
    requires
        drawn.len() <= 16,
    ensures
        padded(drawn).len() == 16,
        padded(drawn).take(drawn.len() as int) == drawn,
        forall|i: int| drawn.len() <= i < 16 ==> #[trigger] padded(drawn)[i] == 0,
        unused_are_zero(padded(drawn), drawn.len() as int),
{
    assert(padded(drawn).take(drawn.len() as int) =~= drawn);
}

/// What a cipher does not use of a nonce is zero where each byte of it is.
pub proof fn unused_bytes_are_each_zero(nonce: Seq<u8>, used: int)
    ensures
        unused_are_zero(nonce, used) <==> !(exists|i: int|
            used <= i < nonce.len() && #[trigger] nonce[i] != 0),
{
}

} // verus!
