//! The way of one frame from the transport to its messages.
//!
//! A frame is decrypted and decompressed as a whole, then walked message by
//! message; each message is verified against its own bytes.

use crate::header::{begins_with, kind_of, message_kind, MessageKind};
use crate::runtime::chain::{
    is_plain, messages_of, prepend, prepended, slices, ChainError, ChainMember, ChainWalk,
};
use crate::runtime::wire::{
    participates_in_preauth_incoming, transcribed_incoming, MessageForm, SessionFacts,
    SignerSource, Verification, WireError, WireModel, WirePipeline,
};
use crate::session::encryptor_decryptor::{
    encrypted_with, unused_are_zero, EncryptedHeader, EncryptedHeaderView, EnvelopeError,
    MessageDecryptor, ENCRYPTED_HEADER_SIZE,
};
use crate::payload::{as_slice, contents};
use bytes::Bytes;
use vstd::prelude::*;

verus! {

#[derive(Clone, Copy, Debug, PartialEq, Eq)]
pub enum IncomingError {
    /// The frame begins with nothing that is known.
    NotAMessage,
    /// What came out of decryption and decompression is not plain.
    ExpectedPlain,
    Envelope(EnvelopeError),
    Wire(WireError),
    Chain(ChainError),
}

/// What is to be done with a frame.
#[derive(Clone, Copy, Debug, PartialEq, Eq, Structural)]
pub enum Opening {
    /// Decrypt what stands behind its header.
    Decrypt,
    /// Decompress it.
    Decompress,
    /// Walk its messages.
    Walk,
}

/// What is to be done with a frame as it arrived.
pub open spec fn opening(bytes: Seq<u8>, wire: WireModel) -> Result<Opening, IncomingError> {
    match kind_of(bytes) {
        MessageKind::Encrypted => Ok(Opening::Decrypt),
        MessageKind::Compressed => compressed(wire),
        MessageKind::Plain => Ok(Opening::Walk),
        MessageKind::Unknown => Err(IncomingError::NotAMessage),
    }
}

pub open spec fn compressed(wire: WireModel) -> Result<Opening, IncomingError> {
    if wire.compression {
        Ok(Opening::Decompress)
    } else {
        Err(
            IncomingError::Wire(
                crate::runtime::wire::incoming_failure(
                    crate::runtime::wire::TransformPhase::CompressDecompress,
                    None,
                    "Compression is requested, but no decompressor is set up!",
                    None,
                ),
            ),
        )
    }
}

/// What is to be done with a frame that was decrypted.
pub open spec fn opening_decrypted(bytes: Seq<u8>, wire: WireModel) -> Result<
    Opening,
    IncomingError,
> {
    match kind_of(bytes) {
        MessageKind::Compressed => compressed(wire),
        MessageKind::Plain => Ok(Opening::Walk),
        _ => Err(IncomingError::ExpectedPlain),
    }
}

/// What is to be done with a frame that was decompressed.
pub open spec fn opening_decompressed(bytes: Seq<u8>) -> Result<Opening, IncomingError> {
    match kind_of(bytes) {
        MessageKind::Plain => Ok(Opening::Walk),
        _ => Err(IncomingError::ExpectedPlain),
    }
}

fn decompress(wire: &WirePipeline) -> (next: Result<Opening, IncomingError>)
    ensures
        next == compressed(wire@),
{
    match wire.decompression() {
        Ok(_) => Ok(Opening::Decompress),
        Err(error) => Err(IncomingError::Wire(error)),
    }
}

/// Decides what is to be done with a frame as it arrived.
pub fn open_frame(bytes: &Bytes, wire: &WirePipeline) -> (next: Result<Opening, IncomingError>)
    ensures
        next == opening(contents(*bytes), wire@),
{
    match message_kind(as_slice(bytes)) {
        MessageKind::Encrypted => Ok(Opening::Decrypt),
        MessageKind::Compressed => decompress(wire),
        MessageKind::Plain => Ok(Opening::Walk),
        MessageKind::Unknown => Err(IncomingError::NotAMessage),
    }
}

/// Reads the envelope of an encrypted frame and decides whether it may be
/// decrypted. What stands behind the envelope is the payload.
pub fn open_envelope(
    bytes: &[u8],
    wire: &WirePipeline,
    facts: SessionFacts,
    decryptor: &MessageDecryptor,
) -> (result: Result<EncryptedHeader, IncomingError>)
    requires
        decryptor.wf(),
    ensures
        match result {
            Ok(header) => encrypted_with(bytes@, header@) && wire@.sessions.contains(
                header.session_id,
            ) && facts.decryptor && header.original_message_size == bytes@.len()
                - ENCRYPTED_HEADER_SIZE && unused_are_zero(header.nonce@, decryptor.nonce_size()),
            Err(IncomingError::NotAMessage) => forall|h: EncryptedHeaderView|
                !(#[trigger] encrypted_with(bytes@, h)),
            Err(IncomingError::Wire(error)) => exists|h: EncryptedHeaderView| #[trigger]
                encrypted_with(bytes@, h) && (!wire@.sessions.contains(h.session_id)
                    || !facts.decryptor) && error == if wire@.sessions.contains(h.session_id) {
                    crate::runtime::wire::incoming_failure(
                        crate::runtime::wire::TransformPhase::EncryptDecrypt,
                        Some(h.session_id),
                        "Message is required to be encrypted, but no decryptor is set up!",
                        None,
                    )
                } else {
                    WireError::SessionNotFound(h.session_id)
                },
            Err(IncomingError::Envelope(EnvelopeError::SizeMismatch)) => exists|
                h: EncryptedHeaderView,
            | #[trigger]
                encrypted_with(bytes@, h) && wire@.sessions.contains(h.session_id)
                    && facts.decryptor && h.original_message_size != bytes@.len()
                    - ENCRYPTED_HEADER_SIZE,
            Err(IncomingError::Envelope(EnvelopeError::UnusedNonceBytes)) => exists|
                h: EncryptedHeaderView,
            | #[trigger]
                encrypted_with(bytes@, h) && wire@.sessions.contains(h.session_id)
                    && facts.decryptor && h.original_message_size == bytes@.len()
                    - ENCRYPTED_HEADER_SIZE && !unused_are_zero(h.nonce, decryptor.nonce_size()),
            Err(_) => false,
        },
{
    let header = match EncryptedHeader::read(bytes) {
        Some(header) => header,
        None => {
            return Err(IncomingError::NotAMessage);
        },
    };
    assert(encrypted_with(bytes@, header@));
    if let Err(error) = wire.decryption(header.session_id, facts) {
        return Err(IncomingError::Wire(error));
    }
    if let Err(error) = decryptor.decrypt_message(&header, bytes.len() - ENCRYPTED_HEADER_SIZE) {
        return Err(IncomingError::Envelope(error));
    }
    Ok(header)
}

/// Decides what is to be done with a frame that was decrypted.
pub fn open_decrypted(bytes: &Bytes, wire: &WirePipeline) -> (next: Result<Opening, IncomingError>)
    ensures
        next == opening_decrypted(contents(*bytes), wire@),
{
    match message_kind(as_slice(bytes)) {
        MessageKind::Compressed => decompress(wire),
        MessageKind::Plain => Ok(Opening::Walk),
        _ => Err(IncomingError::ExpectedPlain),
    }
}

/// Decides what is to be done with a frame that was decompressed.
pub fn open_decompressed(bytes: &Bytes) -> (next: Result<Opening, IncomingError>)
    ensures
        next == opening_decompressed(contents(*bytes)),
{
    match message_kind(as_slice(bytes)) {
        MessageKind::Plain => Ok(Opening::Walk),
        _ => Err(IncomingError::ExpectedPlain),
    }
}

/// Every frame that can be opened is walked after at most one decryption
/// and one decompression.
pub proof fn frames_are_opened_in_at_most_three_steps(
    arrived: Seq<u8>,
    decrypted: Seq<u8>,
    decompressed: Seq<u8>,
    wire: WireModel,
)
    ensures
        opening_decompressed(decompressed) matches Ok(next) ==> next == Opening::Walk,
        opening_decrypted(decrypted, wire) matches Ok(next) ==> next != Opening::Decrypt,
        opening(arrived, wire) == Ok::<Opening, IncomingError>(Opening::Walk) ==> kind_of(arrived)
            == MessageKind::Plain,
{
}

/// One message of a frame, as it is to be treated.
#[derive(Clone, Copy, Debug, PartialEq, Eq, Structural)]
pub struct IncomingMember {
    pub member: ChainMember,
    /// Whether it goes into the transcript, before it is verified.
    pub ingest: bool,
}

/// What is known of a message once its session was looked up.
#[derive(Clone, Copy, Debug, PartialEq, Eq, Structural)]
pub enum MemberStep {
    /// It is handed on in this form.
    Deliver(MessageForm),
    /// Its signature is to be verified first.
    Verify(crate::runtime::wire::SignerSource),
}

/// The messages of one frame, on their way to the owner.
pub struct IncomingFrame {
    walk: ChainWalk,
    form: MessageForm,
}

impl IncomingFrame {
    pub closed spec fn walk(&self) -> ChainWalk {
        self.walk
    }

    /// What became of the frame as a whole.
    pub closed spec fn form(&self) -> MessageForm {
        self.form
    }

    pub open spec fn wf(&self) -> bool {
        self.walk().wf()
    }

    /// Begins the walk over a frame.
    pub fn new(frame: Bytes, encrypted: bool, compressed: bool) -> (incoming: Self)
        ensures
            incoming.wf(),
            incoming.walk().frame() == contents(frame),
            incoming.walk().at() == 0,
            !incoming.walk().finished(),
            incoming.form() == (MessageForm {
                compressed,
                encrypted,
                signed: false,
                unauthenticated_recovery_hint: false,
            }),
    {
        IncomingFrame {
            walk: ChainWalk::new(frame),
            form: MessageForm {
                compressed,
                encrypted,
                signed: false,
                unauthenticated_recovery_hint: false,
            },
        }
    }

    /// The next message of the frame: `None` behind the last one.
    pub fn next_member(&mut self) -> (result: Result<Option<IncomingMember>, IncomingError>)
        requires
            old(self).wf(),
        ensures
            final(self).wf(),
            final(self).form() == old(self).form(),
            final(self).walk().frame() == old(self).walk().frame(),
            match result {
                Ok(None) => old(self).walk().finished() && final(self).walk()
                    == old(self).walk(),
                Ok(Some(next)) => {
                    let left = old(self).walk().left();
                    let offset = crate::header::field(left, 20, 4);
                    &&& !old(self).walk().finished()
                    &&& crate::header::begins_with(left, next.member.header)
                    &&& next.member.start == old(self).walk().at()
                    &&& next.member.start < next.member.end <= old(self).walk().frame().len()
                    &&& next.member.end == if offset == 0 {
                        old(self).walk().frame().len() as int
                    } else {
                        next.member.start + offset
                    }
                    &&& next.ingest == transcribed_incoming(next.member.header)
                    &&& final(self).walk().at() == next.member.end
                    &&& final(self).walk().finished() == (offset == 0)
                },
                Err(IncomingError::Chain(ChainError::NotPlain)) => !old(self).walk().finished()
                    && !crate::runtime::chain::is_plain(old(self).walk().left()),
                Err(
                    IncomingError::Chain(ChainError::OffsetExceedsFrame { offset, remaining }),
                ) => {
                    let left = old(self).walk().left();
                    &&& !old(self).walk().finished()
                    &&& crate::runtime::chain::is_plain(left)
                    &&& offset == crate::header::field(left, 20, 4)
                    &&& remaining == left.len()
                    &&& offset > remaining
                },
                Err(_) => false,
            },
    {
        match self.walk.step() {
            Ok(Some(member)) => {
                let ingest = participates_in_preauth_incoming(&member.header);
                Ok(Some(IncomingMember { member, ingest }))
            },
            Ok(None) => Ok(None),
            Err(error) => Err(IncomingError::Chain(error)),
        }
    }

    /// The bytes of a message of the frame, without copying them.
    pub fn bytes_of(&self, member: &ChainMember) -> (bytes: Bytes)
        requires
            member.start <= member.end <= self.walk().frame().len(),
        ensures
            contents(bytes) == self.walk().frame().subrange(
                member.start as int,
                member.end as int,
            ),
    {
        self.walk.bytes_of(member)
    }

    /// Decides how a message is verified, once its session was looked up.
    pub fn decide(&self, member: &ChainMember, wire: &WirePipeline, facts: SessionFacts) -> (step:
        Result<MemberStep, WireError>)
        ensures
            step == (match wire@.verification(member.header, self.form().encrypted, facts) {
                Ok(Verification::RecoveryHint) => Ok(
                    MemberStep::Deliver(
                        (MessageForm { unauthenticated_recovery_hint: true, ..self.form() }),
                    ),
                ),
                Ok(Verification::Skip) => Ok(MemberStep::Deliver(self.form())),
                Ok(Verification::Verify(source)) => Ok(MemberStep::Verify(source)),
                Err(error) => Err(error),
            }),
    {
        let mut form = self.form;
        match wire.verify_plain_incoming(&member.header, &mut form, facts) {
            Ok(Verification::RecoveryHint) => {
                form.unauthenticated_recovery_hint = true;
                Ok(MemberStep::Deliver(form))
            },
            Ok(Verification::Skip) => Ok(MemberStep::Deliver(self.form)),
            Ok(Verification::Verify(source)) => Ok(MemberStep::Verify(source)),
            Err(error) => Err(error),
        }
    }

    /// Takes the outcome of a verification.
    pub fn checked(&self, member: &ChainMember, wire: &mut WirePipeline, genuine: bool) -> (form:
        Result<MessageForm, WireError>)
        requires
            old(wire).wf(),
        ensures
            final(wire).wf(),
            (final(wire)@, form) == old(wire)@.verified(member.header, self.form(), genuine),
    {
        wire.signature_checked(&member.header, &self.form, genuine)
    }
}

/// A message of a frame that was handed on.
#[derive(Clone, Copy, Debug, PartialEq, Eq, Structural)]
pub struct Delivered {
    pub member: ChainMember,
    pub form: MessageForm,
}

/// What became of a frame.
#[derive(Debug)]
pub struct IncomingBatch {
    /// The messages that go into the transcript, in their order, whether or
    /// not the frame is accepted.
    pub ingested: Vec<ChainMember>,
    /// Its messages, in their order.
    pub result: Result<Vec<Delivered>, IncomingError>,
}

/// What was found out about one message: what its session showed, and
/// whether its signature was genuine, where that was asked.
#[verifier::ext_equal]
pub struct Inquiry {
    pub member: ChainMember,
    pub facts: SessionFacts,
    pub genuine: bool,
}

/// What becomes of one message.
#[verifier::opaque]
pub open spec fn inquired(wire: WireModel, form: MessageForm, inquiry: Inquiry) -> (
    WireModel,
    Result<MessageForm, WireError>,
) {
    let header = inquiry.member.header;
    match wire.verification(header, form.encrypted, inquiry.facts) {
        Err(error) => (wire, Err(error)),
        Ok(Verification::RecoveryHint) => (
            wire,
            Ok(MessageForm { unauthenticated_recovery_hint: true, ..form }),
        ),
        Ok(Verification::Skip) => (wire, Ok(form)),
        Ok(Verification::Verify(_)) => wire.verified(header, form, inquiry.genuine),
    }
}

/// What becomes of several messages, one after the other.
pub open spec fn inquired_all(wire: WireModel, form: MessageForm, inquiries: Seq<Inquiry>) -> (
    WireModel,
    Result<Seq<Delivered>, WireError>,
)
    decreases inquiries.len(),
{
    if inquiries.len() == 0 {
        (wire, Ok(Seq::empty()))
    } else {
        match inquired_all(wire, form, inquiries.drop_last()) {
            (wire, Err(error)) => (wire, Err(error)),
            (wire, Ok(delivered)) => match inquired(wire, form, inquiries.last()) {
                (wire, Err(error)) => (wire, Err(error)),
                (wire, Ok(seen)) => (
                    wire,
                    Ok(delivered.push(Delivered { member: inquiries.last().member, form: seen })),
                ),
            },
        }
    }
}

/// Whether the signature of a message was verified where that was asked.
#[verifier::opaque]
pub open spec fn verified_with<G: Fn(ChainMember, SignerSource) -> bool>(
    wire: WireModel,
    encrypted: bool,
    genuine: G,
    inquiry: Inquiry,
) -> bool {
    wire.verification(inquiry.member.header, encrypted, inquiry.facts) matches Ok(
        Verification::Verify(source),
    ) ==> call_ensures(genuine, (inquiry.member, source), inquiry.genuine)
}

pub open spec fn members_of(inquiries: Seq<Inquiry>) -> Seq<ChainMember> {
    inquiries.map_values(|inquiry: Inquiry| inquiry.member)
}

pub open spec fn transcribed(members: Seq<ChainMember>) -> Seq<ChainMember> {
    members.filter(|member: ChainMember| transcribed_incoming(member.header))
}

/// Whether a frame was dealt with as its messages ask for, one after the
/// other, up to the first that cannot be read or verified.
pub open spec fn dealt_with(
    before: WireModel,
    frame: Seq<u8>,
    form: MessageForm,
    inquiries: Seq<Inquiry>,
    after: WireModel,
    batch: IncomingBatch,
) -> bool {
    let members = members_of(inquiries);
    let (wire, outcome) = inquired_all(before, form, inquiries);
    &&& after == wire
    &&& batch.ingested@ == transcribed(members)
    &&& match batch.result {
        Ok(delivered) => {
            &&& outcome == Ok::<Seq<Delivered>, WireError>(delivered@)
            &&& messages_of(frame) == Ok::<Seq<Seq<u8>>, ChainError>(slices(frame, members))
        },
        Err(IncomingError::Wire(error)) => {
            &&& outcome == Err::<Seq<Delivered>, WireError>(error)
            &&& is_front(frame, members)
        },
        Err(IncomingError::Chain(error)) => {
            &&& outcome is Ok
            &&& messages_of(frame) == Err::<Seq<Seq<u8>>, ChainError>(error)
            &&& is_front(frame, members)
        },
        Err(_) => false,
    }
}

/// Whether a member begins where the one before it ends, and ends where its
/// header says.
pub open spec fn placed(frame: Seq<u8>, members: Seq<ChainMember>, i: int) -> bool {
    &&& members[i].start == if i == 0 {
        0
    } else {
        members[i - 1].end as int
    }
    &&& begins_with(frame.skip(members[i].start as int), members[i].header)
    &&& members[i].end == if members[i].header.next_command == 0 {
        frame.len() as int
    } else {
        members[i].start + members[i].header.next_command
    }
}

/// Whether members are the first messages of a frame.
pub open spec fn is_front(frame: Seq<u8>, members: Seq<ChainMember>) -> bool {
    forall|i: int| 0 <= i < members.len() ==> #[trigger] placed(frame, members, i)
}

impl WirePipeline {
    /// Deals with one message of a frame.
    fn inquire<F: Fn(u64) -> SessionFacts, G: Fn(ChainMember, SignerSource) -> bool>(
        &mut self,
        incoming: &IncomingFrame,
        member: ChainMember,
        facts: &F,
        genuine: &G,
    ) -> (outcome: (Result<MessageForm, WireError>, Ghost<Inquiry>))
        requires
            old(self).wf(),
            forall|session_id: u64| #[trigger] call_requires(*facts, (session_id,)),
            forall|member: ChainMember, source: SignerSource| #[trigger]
                call_requires(*genuine, (member, source)),
        ensures
            final(self).wf(),
            outcome.1@.member == member,
            inquired(old(self)@, incoming.form(), outcome.1@) == (final(self)@, outcome.0),
            call_ensures(*facts, (member.header.session_id,), outcome.1@.facts),
            verified_with(old(self)@, incoming.form().encrypted, *genuine, outcome.1@),
    {
        let seen = (*facts)(member.header.session_id);
        let mut verdict: bool = false;
        let outcome = match incoming.decide(&member, self, seen) {
            Ok(MemberStep::Deliver(form)) => Ok(form),
            Ok(MemberStep::Verify(source)) => {
                verdict = (*genuine)(member, source);
                incoming.checked(&member, self, verdict)
            },
            Err(error) => Err(error),
        };
        let ghost inquiry = Inquiry { member, facts: seen, genuine: verdict };
        proof {
            reveal(inquired);
            reveal(verified_with);
        }
        (outcome, Ghost(inquiry))
    }

    /// Deals with all messages of a plain frame, in their order. `facts` looks
    /// a session up; `genuine` verifies the signature of a message.
    pub fn transform_incoming_all<
        F: Fn(u64) -> SessionFacts,
        G: Fn(ChainMember, SignerSource) -> bool,
    >(
        &mut self,
        frame: Bytes,
        encrypted: bool,
        compressed: bool,
        facts: F,
        genuine: G,
    ) -> (batch: IncomingBatch)
        requires
            old(self).wf(),
            forall|session_id: u64| #[trigger] call_requires(facts, (session_id,)),
            forall|member: ChainMember, source: SignerSource| #[trigger]
                call_requires(genuine, (member, source)),
        ensures
            final(self).wf(),
            exists|inquiries: Seq<Inquiry>|
                #[trigger] dealt_with(
                    old(self)@,
                    contents(frame),
                    whole_form(encrypted, compressed),
                    inquiries,
                    final(self)@,
                    batch,
                ) && looked_up(
                    old(self)@,
                    whole_form(encrypted, compressed),
                    facts,
                    genuine,
                    inquiries,
                ),
    {
        let ghost whole = contents(frame);
        let ghost wire = self@;
        let ghost form = whole_form(encrypted, compressed);
        let ghost mut inquiries: Seq<Inquiry> = Seq::empty();
        let mut incoming = IncomingFrame::new(frame, encrypted, compressed);
        let mut ingested: Vec<ChainMember> = Vec::new();
        let mut delivered: Vec<Delivered> = Vec::new();
        proof {
            nothing_behind(wire, form, whole);
            assert(incoming.walk().left() =~= whole);
            reveal(looked_up);
        }
        loop
            invariant
                self.wf(),
                incoming.wf(),
                wire == old(self)@,
                whole == contents(frame),
                incoming.form() == form,
                form == whole_form(encrypted, compressed),
                incoming.walk().frame() == whole,
                forall|session_id: u64| #[trigger] call_requires(facts, (session_id,)),
                forall|member: ChainMember, source: SignerSource| #[trigger]
                    call_requires(genuine, (member, source)),
                looked_up(wire, form, facts, genuine, inquiries),
                behind(
                    wire,
                    whole,
                    form,
                    inquiries,
                    self@,
                    ingested@,
                    delivered@,
                    incoming.walk().at(),
                    incoming.walk().finished(),
                ),
            decreases
                    whole.len() - incoming.walk().at(),
                    if incoming.walk().finished() {
                        0int
                    } else {
                        1
                    },
        {
            let ghost at = incoming.walk().at();
            let ghost known = self@;
            let ghost before = inquiries;
            let ghost ingested_before = ingested@;
            let ghost delivered_before = delivered@;
            let next = match incoming.next_member() {
                Ok(Some(next)) => next,
                Ok(None) => {
                    let batch = IncomingBatch { ingested, result: Ok(delivered) };
                    proof {
                        reveal(behind);
                    }
                    assert(dealt_with(wire, whole, form, inquiries, self@, batch));
                    return batch;
                },
                Err(error) => {
                    let batch = IncomingBatch { ingested, result: Err(error) };
                    proof {
                        reveal(behind);
                        walk_ends(whole, at, members_of(inquiries), error);
                    }
                    assert(dealt_with(wire, whole, form, inquiries, self@, batch));
                    return batch;
                },
            };
            let member = next.member;
            if next.ingest {
                ingested.push(member);
            }
            let (outcome, Ghost(inquiry)) = self.inquire(&incoming, member, &facts, &genuine);
            proof {
                inquiries = before.push(inquiry);
                looked_up_more(wire, form, facts, genuine, before, inquiry, known, delivered_before, whole, ingested_before, at);
            }
            match outcome {
                Ok(seen) => {
                    delivered.push(Delivered { member, form: seen });
                    proof {
                        one_more_behind(
                            wire,
                            whole,
                            form,
                            before,
                            inquiry,
                            known,
                            self@,
                            seen,
                            ingested_before,
                            delivered_before,
                            at,
                        );
                        assert(ingested@ =~= if next.ingest {
                            ingested_before.push(member)
                        } else {
                            ingested_before
                        });
                    }
                },
                Err(error) => {
                    let batch = IncomingBatch { ingested, result: Err(IncomingError::Wire(error)) };
                    proof {
                        refused_behind(
                            wire,
                            whole,
                            form,
                            before,
                            inquiry,
                            known,
                            self@,
                            error,
                            ingested_before,
                            delivered_before,
                            at,
                        );
                        assert(ingested@ =~= if next.ingest {
                            ingested_before.push(member)
                        } else {
                            ingested_before
                        });
                    }
                    assert(dealt_with(wire, whole, form, inquiries, self@, batch));
                    return batch;
                },
            }
        }
    }
}

/// What became of a frame as a whole.
pub open spec fn whole_form(encrypted: bool, compressed: bool) -> MessageForm {
    MessageForm { compressed, encrypted, signed: false, unauthenticated_recovery_hint: false }
}

/// Whether each session was looked up, and each signature verified where
/// that was asked.
#[verifier::opaque]
pub open spec fn looked_up<F: Fn(u64) -> SessionFacts, G: Fn(ChainMember, SignerSource) -> bool>(
    wire: WireModel,
    form: MessageForm,
    facts: F,
    genuine: G,
    inquiries: Seq<Inquiry>,
) -> bool {
    forall|i: int|
        0 <= i < inquiries.len() ==> call_ensures(
            facts,
            ((#[trigger] inquiries[i]).member.header.session_id,),
            inquiries[i].facts,
        ) && verified_with(
            inquired_all(wire, form, inquiries.take(i)).0,
            form.encrypted,
            genuine,
            inquiries[i],
        )
}

/// What lies behind a walk over a frame.
#[verifier::opaque]
spec fn behind(
    wire: WireModel,
    frame: Seq<u8>,
    form: MessageForm,
    inquiries: Seq<Inquiry>,
    known: WireModel,
    ingested: Seq<ChainMember>,
    delivered: Seq<Delivered>,
    at: int,
    finished: bool,
) -> bool {
    let members = members_of(inquiries);
    &&& inquired_all(wire, form, inquiries) == (known, Ok::<Seq<Delivered>, WireError>(delivered))
    &&& ingested == transcribed(members)
    &&& is_front(frame, members)
    &&& at == if inquiries.len() == 0 {
        0
    } else {
        inquiries.last().member.end as int
    }
    &&& finished ==> messages_of(frame) == Ok::<Seq<Seq<u8>>, ChainError>(slices(frame, members))
    &&& !finished ==> messages_of(frame) == prepend(
        slices(frame, members),
        messages_of(frame.skip(at)),
    )
}

proof fn nothing_behind(wire: WireModel, form: MessageForm, frame: Seq<u8>)
    ensures
        behind(
            wire,
            frame,
            form,
            Seq::empty(),
            wire,
            Seq::empty(),
            Seq::empty(),
            0,
            false,
        ),
{
    reveal(behind);
    reveal(Seq::filter);
    let none = Seq::<Inquiry>::empty();
    assert(members_of(none) =~= Seq::<ChainMember>::empty());
    assert(slices(frame, members_of(none)) =~= Seq::<Seq<u8>>::empty());
    assert(frame.skip(0) =~= frame);
    prepended(slices(frame, members_of(none)), messages_of(frame));
    assert(transcribed(members_of(none)) =~= Seq::<ChainMember>::empty());
}

/// A walk that cannot go on ends as the frame does.
proof fn walk_ends(frame: Seq<u8>, at: int, members: Seq<ChainMember>, error: IncomingError)
    requires
        0 <= at <= frame.len(),
        messages_of(frame) == prepend(slices(frame, members), messages_of(frame.skip(at))),
        match error {
            IncomingError::Chain(ChainError::NotPlain) => !is_plain(frame.skip(at)),
            IncomingError::Chain(ChainError::OffsetExceedsFrame { offset, remaining }) => {
                &&& is_plain(frame.skip(at))
                &&& offset == crate::header::field(frame.skip(at), 20, 4)
                &&& remaining == frame.skip(at).len()
                &&& offset > remaining
            },
            _ => false,
        },
    ensures
        error matches IncomingError::Chain(error) && messages_of(frame) == Err::<
            Seq<Seq<u8>>,
            ChainError,
        >(error),
{
}

proof fn transcribed_more(members: Seq<ChainMember>, member: ChainMember)
    ensures
        transcribed(members.push(member)) == if transcribed_incoming(member.header) {
            transcribed(members).push(member)
        } else {
            transcribed(members)
        },
{
    reveal(Seq::filter);
    assert(members.push(member).drop_last() =~= members);
}

/// One more message lies behind a walk, and was handed on.
proof fn one_more_behind(
    wire: WireModel,
    frame: Seq<u8>,
    form: MessageForm,
    before: Seq<Inquiry>,
    inquiry: Inquiry,
    known: WireModel,
    after: WireModel,
    seen: MessageForm,
    ingested: Seq<ChainMember>,
    delivered: Seq<Delivered>,
    at: int,
)
    requires
        behind(wire, frame, form, before, known, ingested, delivered, at, false),
        inquired(known, form, inquiry) == (after, Ok::<MessageForm, WireError>(seen)),
        walked(frame, at, inquiry.member),
    ensures
        behind(
            wire,
            frame,
            form,
            before.push(inquiry),
            after,
            if transcribed_incoming(inquiry.member.header) {
                ingested.push(inquiry.member)
            } else {
                ingested
            },
            delivered.push(Delivered { member: inquiry.member, form: seen }),
            inquiry.member.end as int,
            inquiry.member.header.next_command == 0,
        ),
{
    reveal(behind);
    let member = inquiry.member;
    let members = members_of(before);
    assert(before.push(inquiry).drop_last() =~= before);
    assert(members_of(before.push(inquiry)) =~= members.push(member));
    transcribed_more(members, member);
    walked_on(frame, members, member, frame.skip(at));
    front_grows(frame, before, member);
}

/// One more message lies behind a walk, and was refused.
proof fn refused_behind(
    wire: WireModel,
    frame: Seq<u8>,
    form: MessageForm,
    before: Seq<Inquiry>,
    inquiry: Inquiry,
    known: WireModel,
    after: WireModel,
    error: WireError,
    ingested: Seq<ChainMember>,
    delivered: Seq<Delivered>,
    at: int,
)
    requires
        behind(wire, frame, form, before, known, ingested, delivered, at, false),
        inquired(known, form, inquiry) == (after, Err::<MessageForm, WireError>(error)),
        walked(frame, at, inquiry.member),
    ensures
        inquired_all(wire, form, before.push(inquiry)) == (
            after,
            Err::<Seq<Delivered>, WireError>(error),
        ),
        transcribed(members_of(before.push(inquiry))) == if transcribed_incoming(
            inquiry.member.header,
        ) {
            ingested.push(inquiry.member)
        } else {
            ingested
        },
        is_front(frame, members_of(before.push(inquiry))),
{
    reveal(behind);
    let member = inquiry.member;
    let members = members_of(before);
    assert(before.push(inquiry).drop_last() =~= before);
    assert(members_of(before.push(inquiry)) =~= members.push(member));
    transcribed_more(members, member);
    front_grows(frame, before, member);
}

/// Where a message begins and ends that a walk comes upon.
spec fn walked(frame: Seq<u8>, at: int, member: ChainMember) -> bool {
    let left = frame.skip(at);
    &&& member.start == at
    &&& member.start < member.end <= frame.len()
    &&& begins_with(left, member.header)
    &&& member.header.next_command <= left.len()
    &&& member.end == if member.header.next_command == 0 {
        frame.len() as int
    } else {
        member.start + member.header.next_command
    }
}

proof fn front_grows(frame: Seq<u8>, before: Seq<Inquiry>, member: ChainMember)
    requires
        is_front(frame, members_of(before)),
        walked(
            frame,
            if before.len() == 0 {
                0
            } else {
                before.last().member.end as int
            },
            member,
        ),
    ensures
        is_front(frame, members_of(before).push(member)),
{
    let members = members_of(before);
    let more = members.push(member);
    assert forall|i: int| 0 <= i < more.len() implies #[trigger] placed(frame, more, i) by {
        if i < members.len() {
            assert(placed(frame, members, i));
        }
    }
}

proof fn looked_up_more<F: Fn(u64) -> SessionFacts, G: Fn(ChainMember, SignerSource) -> bool>(
    wire: WireModel,
    form: MessageForm,
    facts: F,
    genuine: G,
    before: Seq<Inquiry>,
    inquiry: Inquiry,
    known: WireModel,
    delivered: Seq<Delivered>,
    frame: Seq<u8>,
    ingested: Seq<ChainMember>,
    at: int,
)
    requires
        looked_up(wire, form, facts, genuine, before),
        behind(wire, frame, form, before, known, ingested, delivered, at, false),
        call_ensures(facts, (inquiry.member.header.session_id,), inquiry.facts),
        verified_with(known, form.encrypted, genuine, inquiry),
    ensures
        looked_up(wire, form, facts, genuine, before.push(inquiry)),
{
    reveal(looked_up);
    reveal(behind);
    let more = before.push(inquiry);
    assert forall|i: int| 0 <= i < more.len() implies call_ensures(
        facts,
        ((#[trigger] more[i]).member.header.session_id,),
        more[i].facts,
    ) && verified_with(
        inquired_all(wire, form, more.take(i)).0,
        form.encrypted,
        genuine,
        more[i],
    ) by {
        assert(more.take(i) =~= before.take(i));
        if i == before.len() {
            assert(before.take(i) =~= before);
        } else {
            assert(more[i] == before[i]);
        }
    }
}

/// One more message lies behind a walk.
proof fn walked_on(frame: Seq<u8>, members: Seq<ChainMember>, member: ChainMember, left: Seq<u8>)
    requires
        left == frame.skip(member.start as int),
        member.start < member.end <= frame.len(),
        begins_with(left, member.header),
        member.header.next_command <= left.len(),
        member.end == if member.header.next_command == 0 {
            frame.len() as int
        } else {
            member.start + member.header.next_command
        },
        messages_of(frame) == prepend(slices(frame, members), messages_of(left)),
    ensures
        member.header.next_command == 0 ==> messages_of(frame) == Ok::<Seq<Seq<u8>>, ChainError>(
            slices(frame, members.push(member)),
        ),
        member.header.next_command != 0 ==> messages_of(frame) == prepend(
            slices(frame, members.push(member)),
            messages_of(frame.skip(member.end as int)),
        ),
{
    let before = slices(frame, members);
    let slice = frame.subrange(member.start as int, member.end as int);
    let next = member.header.next_command as int;
    assert(is_plain(left));
    assert(slices(frame, members.push(member)) =~= before.push(slice));
    if next == 0 {
        assert(slice =~= left);
        assert(before + seq![left] =~= before.push(slice));
    } else {
        assert(left.skip(next) =~= frame.skip(member.end as int));
        assert(left.take(next) =~= slice);
        if messages_of(frame.skip(member.end as int)) is Ok {
            let rest = messages_of(frame.skip(member.end as int))->Ok_0;
            assert(before + (seq![slice] + rest) =~= before.push(slice) + rest);
        }
    }
}

/// A frame is opened by what its marker says: an encrypted one is decrypted,
/// a compressed one is decompressed where the connection agreed on that, and
/// a plain one is walked. What comes out of a decryption may be compressed,
/// what comes out of a decompression is plain, and nothing else is taken.
pub proof fn frames_are_opened_by_their_marker(bytes: Seq<u8>, wire: WireModel)
    ensures
        ({
            let marked = bytes.len() >= 4 && bytes[1] == 0x53 && bytes[2] == 0x4d && bytes[3]
                == 0x42;
            let plain = marked && bytes[0] == 0xfe;
            let secret = marked && bytes[0] == 0xfd;
            let packed = marked && bytes[0] == 0xfc;
            &&& opening(bytes, wire) == Ok::<Opening, IncomingError>(Opening::Decrypt) <==> secret
            &&& opening(bytes, wire) == Ok::<Opening, IncomingError>(Opening::Decompress)
                <==> packed && wire.compression
            &&& opening(bytes, wire) == Ok::<Opening, IncomingError>(Opening::Walk) <==> plain
            &&& opening(bytes, wire) == Err::<Opening, IncomingError>(IncomingError::NotAMessage)
                <==> !plain && !secret && !packed
            &&& opening_decrypted(bytes, wire) == Ok::<Opening, IncomingError>(Opening::Decompress)
                <==> packed && wire.compression
            &&& opening_decrypted(bytes, wire) == Ok::<Opening, IncomingError>(Opening::Walk)
                <==> plain
            &&& opening_decrypted(bytes, wire) == Err::<Opening, IncomingError>(
                IncomingError::ExpectedPlain,
            ) <==> !plain && !packed
            &&& opening_decompressed(bytes) == if plain {
                Ok::<Opening, IncomingError>(Opening::Walk)
            } else {
                Err(IncomingError::ExpectedPlain)
            }
        }),
{
}

/// A message is handed on as signed only where its signature was verified and
/// found genuine, and as a hint only where it says that its session is gone.
/// Whatever was encrypted or compressed stays known as that.
pub proof fn messages_are_handed_on_as_they_are(
    wire: WireModel,
    form: MessageForm,
    inquiry: Inquiry,
)
    requires
        !form.signed,
        !form.unauthenticated_recovery_hint,
    ensures
        ({
            let header = inquiry.member.header;
            let (next, seen) = inquired(wire, form, inquiry);
            let gone = header.status == 0xc000_0203 || header.status == 0xc000_035c;
            let verification = wire.verification(header, form.encrypted, inquiry.facts);
            let asked = verification matches Ok(Verification::Verify(_));
            &&& seen is Err <==> verification is Err || (asked && !inquiry.genuine)
            &&& seen matches Ok(seen) ==> {
                &&& seen.signed <==> asked && inquiry.genuine
                &&& seen.unauthenticated_recovery_hint <==> gone
                &&& seen.encrypted == form.encrypted
                &&& seen.compressed == form.compressed
            }
            &&& !(asked && inquiry.genuine) ==> next == wire
        }),
{
    reveal(inquired);
}

/// A frame as a whole is neither signed nor a hint: its messages are.
pub proof fn whole_frames_are_not_signed(encrypted: bool, compressed: bool)
    ensures
        whole_form(encrypted, compressed).encrypted == encrypted,
        whole_form(encrypted, compressed).compressed == compressed,
        !whole_form(encrypted, compressed).signed,
        !whole_form(encrypted, compressed).unauthenticated_recovery_hint,
{
}

/// Messages are dealt with one after the other: each in the state that the
/// ones before it left, and none behind the first that is refused.
pub proof fn messages_are_dealt_with_in_order(
    wire: WireModel,
    form: MessageForm,
    earlier: Seq<Inquiry>,
    inquiry: Inquiry,
)
    ensures
        inquired_all(wire, form, Seq::empty()) == (
            wire,
            Ok::<Seq<Delivered>, WireError>(Seq::empty()),
        ),
        ({
            let (known, before) = inquired_all(wire, form, earlier);
            let (next, after) = inquired_all(wire, form, earlier.push(inquiry));
            &&& before matches Err(error) ==> next == known && after == Err::<
                Seq<Delivered>,
                WireError,
            >(error)
            &&& before matches Ok(delivered) ==> {
                &&& next == inquired(known, form, inquiry).0
                &&& match inquired(known, form, inquiry).1 {
                    Err(error) => after == Err::<Seq<Delivered>, WireError>(error),
                    Ok(seen) => after == Ok::<Seq<Delivered>, WireError>(
                        delivered.push(Delivered { member: inquiry.member, form: seen }),
                    ),
                }
            }
        }),
{
    assert(earlier.push(inquiry).drop_last() =~= earlier);
}

/// The session of every message was looked up, and where a signature was to
/// be verified the verdict is that of whoever verifies it, with the signer
/// that the state at that point names.
pub proof fn signatures_are_asked_for<
    F: Fn(u64) -> SessionFacts,
    G: Fn(ChainMember, SignerSource) -> bool,
>(
    wire: WireModel,
    form: MessageForm,
    facts: F,
    genuine: G,
    inquiries: Seq<Inquiry>,
    i: int,
)
    requires
        looked_up(wire, form, facts, genuine, inquiries),
        0 <= i < inquiries.len(),
    ensures
        ({
            let inquiry = inquiries[i];
            let known = inquired_all(wire, form, inquiries.take(i)).0;
            &&& call_ensures(facts, (inquiry.member.header.session_id,), inquiry.facts)
            &&& known.verification(inquiry.member.header, form.encrypted, inquiry.facts) matches Ok(
                Verification::Verify(source),
            ) ==> call_ensures(genuine, (inquiry.member, source), inquiry.genuine)
        }),
{
    reveal(looked_up);
    reveal(verified_with);
    let inquiry = inquiries[i];
    assert(verified_with(
        inquired_all(wire, form, inquiries.take(i)).0,
        form.encrypted,
        genuine,
        inquiries[i],
    ));
}

/// A frame that was dealt with without an error was delivered as a whole:
/// each of its messages, in order, in the form that was found out. What goes
/// into the transcript are those of them that belong there.
pub proof fn whole_frames_are_delivered(
    before: WireModel,
    frame: Seq<u8>,
    form: MessageForm,
    inquiries: Seq<Inquiry>,
    after: WireModel,
    batch: IncomingBatch,
    i: int,
)
    requires
        dealt_with(before, frame, form, inquiries, after, batch),
    ensures
        batch.result matches Ok(delivered) ==> {
            &&& messages_of(frame) matches Ok(messages) && messages.len() == delivered@.len() && (0
                <= i < delivered@.len() ==> messages[i] == frame.subrange(
                delivered@[i].member.start as int,
                delivered@[i].member.end as int,
            ))
            &&& delivered@.len() == inquiries.len()
            &&& 0 <= i < delivered@.len() ==> delivered@[i].member == inquiries[i].member && inquired(
                inquired_all(before, form, inquiries.take(i)).0,
                form,
                inquiries[i],
            ).1 == Ok::<MessageForm, WireError>(delivered@[i].form)
        },
        0 <= i < inquiries.len() ==> (batch.ingested@.contains(inquiries[i].member)
            <==> transcribed_incoming(inquiries[i].member.header)),
        batch.ingested@ == members_of(inquiries).filter(
            |member: ChainMember| transcribed_incoming(member.header),
        ),
        after == inquired_all(before, form, inquiries).0,
        batch.result matches Err(error) ==> is_front(frame, members_of(inquiries)) && (error is Wire
            || error is Chain),
        batch.result matches Err(IncomingError::Chain(error)) ==> messages_of(frame) == Err::<
            Seq<Seq<u8>>,
            ChainError,
        >(error) && inquired_all(before, form, inquiries).1 is Ok,
        batch.result matches Err(IncomingError::Wire(error)) ==> inquired_all(
            before,
            form,
            inquiries,
        ).1 == Err::<Seq<Delivered>, WireError>(error),
{
    broadcast use vstd::seq_lib::group_filter_ensures;

    let members = members_of(inquiries);
    if batch.result is Ok {
        deliveries_match(before, form, inquiries, i);
    }
    if 0 <= i < inquiries.len() {
        let keep = |member: ChainMember| transcribed_incoming(member.header);
        let kept = members.filter(keep);
        assert(members[i] == inquiries[i].member);
        if keep(members[i]) {
            assert(kept.contains(members[i]));
        }
        if kept.contains(members[i]) {
            let k = choose|k: int| 0 <= k < kept.len() && kept[k] == members[i];
            assert(keep(kept[k]));
        }
    }
}

proof fn deliveries_match(wire: WireModel, form: MessageForm, inquiries: Seq<Inquiry>, i: int)
    requires
        inquired_all(wire, form, inquiries).1 is Ok,
    ensures
        inquired_all(wire, form, inquiries).1->Ok_0.len() == inquiries.len(),
        0 <= i < inquiries.len() ==> ({
            let delivered = inquired_all(wire, form, inquiries).1->Ok_0[i];
            &&& delivered.member == inquiries[i].member
            &&& inquired(
                inquired_all(wire, form, inquiries.take(i)).0,
                form,
                inquiries[i],
            ).1 == Ok::<MessageForm, WireError>(delivered.form)
        }),
    decreases inquiries.len(),
{
    if inquiries.len() > 0 {
        let front = inquiries.drop_last();
        deliveries_match(wire, form, front, i);
        if 0 <= i < front.len() {
            assert(front.take(i) =~= inquiries.take(i));
        } else if i == front.len() {
            assert(inquiries.take(i) =~= front);
        }
    }
}

/// The messages in front of an error are those that the frame begins with,
/// one behind the other.
pub proof fn fronts_follow_the_frame(frame: Seq<u8>, members: Seq<ChainMember>, i: int)
    requires
        is_front(frame, members),
        0 <= i < members.len(),
    ensures
        i == 0 ==> members[i].start == 0,
        i > 0 ==> members[i].start == members[i - 1].end,
        begins_with(frame.skip(members[i].start as int), members[i].header),
        members[i].header.next_command == 0 ==> members[i].end == frame.len(),
        members[i].header.next_command > 0 ==> members[i].end - members[i].start
            == members[i].header.next_command,
{
    assert(placed(frame, members, i));
}

} // verus!
