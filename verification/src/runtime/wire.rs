//! What happens to a message between its owner and the transport.
//!
//! The pipeline decides how each message is protected and checked, and
//! which signer and cipher serve it. Ciphers, signatures and compression are
//! computed by whoever asks it.

use crate::header::{is_signed, says_signed, Header, HEADER_SIZE};
use crate::protocol::{Command, Status};
use crate::runtime::chain::{build_chain, chain, fits, ChainError};
use crate::runtime::id_set::IdSet;
use crate::session::encryptor_decryptor::{encrypted_header_bytes, EncryptedHeader};
use vstd::prelude::*;

verus! {

/// Frames up to this length are never compressed.
pub const COMPRESSION_THRESHOLD: usize = 1024;

/// How an outgoing message asks to be protected.
#[derive(Clone, Copy, Debug, PartialEq, Eq, Structural)]
pub enum Protection {
    Unprotected,
    SignWithChannel,
    /// Sign with a key derived from the transcript so far.
    SnapshotKdfSign,
    Encrypt,
}

/// The phase of the transformation process.
#[derive(Clone, Copy, Debug, PartialEq, Eq, Structural)]
pub enum TransformPhase {
    /// Initial to/from bytes.
    EncodeDecode,
    /// Signature calculation and verification.
    SignVerify,
    /// Compression and decompression.
    CompressDecompress,
    /// Encryption and decryption.
    EncryptDecrypt,
}

/// An error that can occur during the transformation of messages.
#[derive(Clone, Copy, Debug, PartialEq, Eq)]
pub struct TransformError {
    /// Whether the message was outgoing.
    pub outgoing: bool,
    pub phase: TransformPhase,
    pub session_id: Option<u64>,
    pub why: &'static str,
    /// The message, where it is known.
    pub msg_id: Option<u64>,
}

#[derive(Clone, Copy, Debug, PartialEq, Eq)]
pub enum WireError {
    AlreadyNegotiated,
    NotNegotiated,
    /// A key was to be derived before the connection was negotiated.
    SetupBeforeNegotiation,
    /// The hash over the transcript could not be brought to its end.
    PreauthUnfinished,
    SessionNotFound(u64),
    EmptyCompound,
    /// A message of a compound carries data of its own.
    AdditionalDataInCompound(usize),
    InconsistentEncryption,
    InconsistentSigning,
    Chain(ChainError),
    TransformFailed(TransformError),
}

/// What became of a message on its way in.
#[derive(Clone, Copy, Debug, PartialEq, Eq, Structural)]
pub struct MessageForm {
    pub compressed: bool,
    pub encrypted: bool,
    pub signed: bool,
    /// Whether it only hints that its session is gone.
    pub unauthenticated_recovery_hint: bool,
}

impl Default for MessageForm {
    fn default() -> (form: Self)
        ensures
            form == (MessageForm {
                compressed: false,
                encrypted: false,
                signed: false,
                unauthenticated_recovery_hint: false,
            }),
    {
        MessageForm {
            compressed: false,
            encrypted: false,
            signed: false,
            unauthenticated_recovery_hint: false,
        }
    }
}

impl MessageForm {
    pub fn signed_or_encrypted(&self) -> (protected: bool)
        ensures
            protected == (self.signed || self.encrypted),
    {
        self.signed || self.encrypted
    }
}

/// Which signer serves a message.
#[derive(Clone, Copy, Debug, PartialEq, Eq, Structural)]
pub enum SignerSource {
    /// The signer of the session's channel.
    Channel,
    /// The signer that bridges the end of session setup.
    Setup,
    /// One derived from the transcript as it stands.
    Snapshot,
}

/// What the entry of a session shows at the moment.
#[derive(Clone, Copy, Debug, PartialEq, Eq, Structural)]
pub struct SessionFacts {
    /// Whether its channel was installed.
    pub channel: bool,
    /// Whether that channel only binds another one.
    pub binding: bool,
    /// Whether it has an encryptor.
    pub encryptor: bool,
    /// Whether it has a decryptor.
    pub decryptor: bool,
}

/// How an outgoing frame is transformed, in this order.
#[derive(Clone, Copy, Debug, PartialEq, Eq, Structural)]
pub struct OutgoingPlan {
    pub sign: Option<SignerSource>,
    /// Whether the signed message goes into the transcript, and a signer
    /// for its response is derived from that.
    pub ingest_signed: bool,
    pub compress: bool,
    pub encrypt: bool,
}

/// What the pipeline reads of an outgoing message.
#[derive(Clone, Copy, Debug, PartialEq, Eq, Structural)]
pub struct OutgoingMessage {
    pub command: Command,
    /// Whether its header says that it is signed.
    pub signed: bool,
    pub session_id: u64,
    pub message_id: u64,
    pub security: Option<Protection>,
    /// How long its frame is.
    pub frame_len: usize,
}

/// One message of an outgoing compound.
pub struct CompoundMessage {
    pub bytes: Vec<u8>,
    pub signed: bool,
    pub session_id: u64,
    pub security: Option<Protection>,
    pub additional_data: bool,
}

/// A compound as one frame, and how it is transformed.
pub struct CompoundFrame {
    pub frame: Vec<u8>,
    /// Which signer signs each of its messages.
    pub sign: Option<SignerSource>,
    pub compress: bool,
    pub encrypt: bool,
}

/// How an incoming message is to be verified.
#[derive(Clone, Copy, Debug, PartialEq, Eq, Structural)]
pub enum Verification {
    /// It says that its session is gone: nobody can have signed it.
    RecoveryHint,
    /// Nothing is to be verified.
    Skip,
    /// Its signature is to be verified.
    Verify(SignerSource),
}

#[verifier::ext_equal]
pub struct WireModel {
    pub negotiated: bool,
    /// Whether the connection agreed on compression.
    pub compression: bool,
    pub sessions: Set<u64>,
    /// The sessions with a signer that bridges the end of their setup.
    pub setup_signers: Set<u64>,
    /// The digest over the transcript; none where the dialect keeps none.
    pub transcript: Option<Seq<u8>>,
    /// The transcript as the negotiation left it.
    pub negotiation: Option<Seq<u8>>,
}

pub open spec fn digest_view(digest: Option<Vec<u8>>) -> Option<Seq<u8>> {
    match digest {
        Some(digest) => Some(digest@),
        None => None,
    }
}

/// The status of a header.
pub open spec fn has_status(header: Header, status: Status) -> bool {
    header.status == status.spec_code()
}

/// The messages that go into the transcript on their way out: every
/// negotiation, and every session setup but one that is signed.
pub open spec fn transcribed_outgoing(command: Command, signed: bool) -> bool {
    command == Command::Negotiate || (command == Command::SessionSetup && !signed)
}

/// The messages that go into the transcript on their way in.
pub open spec fn transcribed_incoming(header: Header) -> bool {
    match header.command {
        Command::Negotiate => true,
        Command::SessionSetup => has_status(header, Status::MoreProcessingRequired),
        _ => false,
    }
}

pub open spec fn outgoing_failure(
    phase: TransformPhase,
    session_id: u64,
    why: &'static str,
    msg_id: Option<u64>,
) -> WireError {
    WireError::TransformFailed(
        TransformError { outgoing: true, phase, session_id: Some(session_id), why, msg_id },
    )
}

pub open spec fn incoming_failure(
    phase: TransformPhase,
    session_id: Option<u64>,
    why: &'static str,
    msg_id: Option<u64>,
) -> WireError {
    WireError::TransformFailed(TransformError { outgoing: false, phase, session_id, why, msg_id })
}

/// Whether a message asks to be signed and to be encrypted.
pub open spec fn wants(security: Option<Protection>, signed: bool) -> (bool, bool) {
    match security {
        Some(Protection::Unprotected) => (false, false),
        Some(Protection::SignWithChannel) => (true, false),
        Some(Protection::SnapshotKdfSign) => (true, false),
        Some(Protection::Encrypt) => (false, true),
        None => (signed, false),
    }
}

impl WireModel {
    /// A message went into the transcript, which gave this digest.
    pub open spec fn ingested(self, digest: Seq<u8>) -> Self {
        WireModel {
            transcript: if self.transcript is Some {
                Some(digest)
            } else {
                None
            },
            ..self
        }
    }

    /// Several messages went into the transcript, one after the other.
    pub open spec fn ingested_all(self, digests: Seq<Seq<u8>>) -> Self
        decreases digests.len(),
    {
        if digests.len() == 0 {
            self
        } else {
            self.ingested_all(digests.drop_last()).ingested(digests.last())
        }
    }

    /// The transcript is taken back to the end of the negotiation.
    pub open spec fn reset(self) -> Self {
        WireModel { transcript: self.negotiation, setup_signers: Set::empty(), ..self }
    }

    /// The signer of a session, where it has one.
    pub open spec fn signer(self, session_id: u64, facts: SessionFacts) -> Result<
        Option<SignerSource>,
        WireError,
    > {
        if !self.sessions.contains(session_id) {
            Err(WireError::SessionNotFound(session_id))
        } else if facts.channel {
            Ok(Some(SignerSource::Channel))
        } else if self.setup_signers.contains(session_id) {
            Ok(Some(SignerSource::Setup))
        } else {
            Ok(None)
        }
    }

    /// Whether a frame is compressed and encrypted on its way out.
    pub open spec fn protect(
        self,
        frame_len: int,
        encrypt: bool,
        session_id: u64,
        facts: SessionFacts,
    ) -> Result<(bool, bool), WireError> {
        let compress = frame_len > COMPRESSION_THRESHOLD && self.compression;
        if !encrypt {
            Ok((compress, false))
        } else if !self.sessions.contains(session_id) {
            Err(WireError::SessionNotFound(session_id))
        } else if !facts.encryptor {
            Err(
                outgoing_failure(
                    TransformPhase::EncryptDecrypt,
                    session_id,
                    "Message is required to be encrypted, but no encryptor is set up!",
                    None,
                ),
            )
        } else {
            Ok((compress, true))
        }
    }

    /// Which signer signs an outgoing message.
    pub open spec fn outgoing_signer(self, message: OutgoingMessage, facts: SessionFacts) -> Result<
        Option<SignerSource>,
        WireError,
    > {
        if !wants(message.security, message.signed).0 {
            Ok(None)
        } else if message.security == Some(Protection::SnapshotKdfSign) {
            if self.negotiated {
                Ok(Some(SignerSource::Snapshot))
            } else {
                Err(WireError::SetupBeforeNegotiation)
            }
        } else {
            match self.signer(message.session_id, facts) {
                Ok(Some(source)) => Ok(Some(source)),
                Ok(None) => Err(
                    outgoing_failure(
                        TransformPhase::SignVerify,
                        message.session_id,
                        "Message is required to be signed, but no channel is set up!",
                        Some(message.message_id),
                    ),
                ),
                Err(error) => Err(error),
            }
        }
    }

    pub open spec fn outgoing(self, message: OutgoingMessage, facts: SessionFacts) -> (
        Self,
        Result<OutgoingPlan, WireError>,
    ) {
        match self.outgoing_signer(message, facts) {
            Err(error) => (self, Err(error)),
            Ok(sign) => match self.protect(
                message.frame_len as int,
                wants(message.security, message.signed).1,
                message.session_id,
                facts,
            ) {
                Err(error) => (self, Err(error)),
                Ok((compress, encrypt)) => {
                    let snapshot = sign == Some(SignerSource::Snapshot);
                    (
                        if snapshot {
                            WireModel {
                                setup_signers: self.setup_signers.insert(message.session_id),
                                ..self
                            }
                        } else {
                            self
                        },
                        Ok(
                            OutgoingPlan {
                                sign,
                                ingest_signed: snapshot,
                                compress,
                                encrypt,
                            },
                        ),
                    )
                },
            },
        }
    }

    /// Whether a response to a binding session setup is signed though its
    /// header does not say so.
    pub open spec fn signs_unannounced(self, header: Header, facts: SessionFacts) -> bool {
        &&& header.command == Command::SessionSetup
        &&& header.signature != 0
        &&& self.sessions.contains(header.session_id)
        &&& facts.channel
        &&& facts.binding
    }

    pub open spec fn verification(self, header: Header, encrypted: bool, facts: SessionFacts) -> Result<
        Verification,
        WireError,
    > {
        if has_status(header, Status::UserSessionDeleted) || has_status(
            header,
            Status::NetworkSessionExpired,
        ) {
            Ok(Verification::RecoveryHint)
        } else if encrypted || header.message_id == u64::MAX || has_status(header, Status::Pending)
            || !(says_signed(header.flags) || self.signs_unannounced(header, facts)) {
            Ok(Verification::Skip)
        } else {
            match self.signer(header.session_id, facts) {
                Ok(Some(source)) => Ok(Verification::Verify(source)),
                Ok(None) | Err(_) => Err(unverified(header)),
            }
        }
    }

    /// A message was verified, with or against its signature.
    pub open spec fn verified(self, header: Header, form: MessageForm, genuine: bool) -> (
        Self,
        Result<MessageForm, WireError>,
    ) {
        if !genuine {
            (self, Err(unverified(header)))
        } else {
            (
                if header.command == Command::SessionSetup && has_status(header, Status::Success) {
                    WireModel {
                        setup_signers: self.setup_signers.remove(header.session_id),
                        ..self
                    }
                } else {
                    self
                },
                Ok(MessageForm { signed: true, ..form }),
            )
        }
    }
}

/// The first message of a compound that carries data of its own.
pub open spec fn first_data(messages: Seq<CompoundMessage>) -> Option<int>
    decreases messages.len(),
{
    if messages.len() == 0 {
        None
    } else {
        match first_data(messages.drop_last()) {
            Some(at) => Some(at),
            None => if messages.last().additional_data {
                Some(messages.len() - 1)
            } else {
                None
            },
        }
    }
}

pub open spec fn bodies(messages: Seq<CompoundMessage>) -> Seq<Seq<u8>> {
    messages.map_values(|message: CompoundMessage| message.bytes@)
}

pub open spec fn encrypts(message: CompoundMessage) -> bool {
    message.security == Some(Protection::Encrypt)
}

/// Whether all messages of a compound agree on encryption.
pub open spec fn encryption_agrees(messages: Seq<CompoundMessage>) -> bool {
    forall|i: int|
        0 <= i < messages.len() ==> encrypts(#[trigger] messages[i]) == encrypts(messages[0])
}

/// Whether a compound is signed: its first message decides, unless all of it
/// is encrypted.
pub open spec fn compound_signs(messages: Seq<CompoundMessage>) -> bool {
    !encrypts(messages[0]) && messages[0].signed
}

pub open spec fn signing_agrees(messages: Seq<CompoundMessage>) -> bool {
    forall|i: int|
        0 <= i < messages.len() ==> (#[trigger] messages[i]).signed == compound_signs(messages)
}

impl WireModel {
    pub open spec fn compound_signer(self, messages: Seq<CompoundMessage>, facts: SessionFacts) -> Result<
        Option<SignerSource>,
        WireError,
    > {
        let session_id = messages[0].session_id;
        if !compound_signs(messages) {
            Ok(None)
        } else {
            match self.signer(session_id, facts) {
                Ok(Some(source)) => Ok(Some(source)),
                Ok(None) => Err(
                    outgoing_failure(
                        TransformPhase::SignVerify,
                        session_id,
                        "Compound message is signed, but no channel signer is set up",
                        None,
                    ),
                ),
                Err(error) => Err(error),
            }
        }
    }

    /// How a compound is transformed.
    pub open spec fn compound(self, messages: Seq<CompoundMessage>, facts: SessionFacts) -> Result<
        (Option<SignerSource>, bool, bool),
        WireError,
    > {
        if messages.len() == 0 {
            Err(WireError::EmptyCompound)
        } else if first_data(messages) is Some {
            Err(WireError::AdditionalDataInCompound(first_data(messages)->Some_0 as usize))
        } else if exists|i: int|
            0 <= i < messages.len() && !fits((#[trigger] messages[i]).bytes@) {
            Err(WireError::Chain(ChainError::TooLong))
        } else if !encryption_agrees(messages) {
            Err(WireError::InconsistentEncryption)
        } else if !signing_agrees(messages) {
            Err(WireError::InconsistentSigning)
        } else {
            match self.compound_signer(messages, facts) {
                Err(error) => Err(error),
                Ok(sign) => match self.protect(
                    chain(bodies(messages)).len() as int,
                    encrypts(messages[0]),
                    messages[0].session_id,
                    facts,
                ) {
                    Err(error) => Err(error),
                    Ok((compress, encrypt)) => Ok((sign, compress, encrypt)),
                },
            }
        }
    }
}

/// What is reported of a message that could not be verified.
pub open spec fn unverified(header: Header) -> WireError {
    incoming_failure(
        TransformPhase::SignVerify,
        Some(header.session_id),
        "Failed to verify compound member signature!",
        Some(header.message_id),
    )
}

proof fn first_data_stays(messages: Seq<CompoundMessage>, n: int)
    requires
        0 < n <= messages.len(),
        first_data(messages.take(n)) is Some,
    ensures
        first_data(messages) == first_data(messages.take(n)),
    decreases messages.len(),
{
    if n == messages.len() {
        assert(messages.take(n) =~= messages);
    } else {
        assert(messages.drop_last().take(n) =~= messages.take(n));
        first_data_stays(messages.drop_last(), n);
    }
}

/// No frame is both signed and encrypted.
pub proof fn frames_are_signed_or_encrypted(
    wire: WireModel,
    message: OutgoingMessage,
    messages: Seq<CompoundMessage>,
    facts: SessionFacts,
)
    ensures
        wire.outgoing(message, facts).1 matches Ok(plan) ==> !(plan.sign is Some && plan.encrypt),
        wire.compound(messages, facts) matches Ok(plan) ==> !(plan.0 is Some && plan.2),
{
}

/// A message that asks for protection is never sent without it.
pub proof fn protection_is_never_dropped(
    wire: WireModel,
    message: OutgoingMessage,
    facts: SessionFacts,
)
    ensures
        wire.outgoing(message, facts).1 matches Ok(plan) ==> {
            &&& (plan.sign is Some) == wants(message.security, message.signed).0
            &&& plan.encrypt == wants(message.security, message.signed).1
        },
{
}

/// The signer that bridges session setup serves until the final response
/// was verified, and not after it.
pub proof fn setup_signers_serve_once(
    wire: WireModel,
    message: OutgoingMessage,
    header: Header,
    form: MessageForm,
    facts: SessionFacts,
)
    requires
        message.security == Some(Protection::SnapshotKdfSign),
        wire.negotiated,
        wire.sessions.contains(message.session_id),
        !facts.channel,
        header.command == Command::SessionSetup,
        has_status(header, Status::Success),
        header.session_id == message.session_id,
    ensures
        ({
            let sent = wire.outgoing(message, facts).0;
            let done = sent.verified(header, form, true).0;
            &&& sent.signer(message.session_id, facts) == Ok::<Option<SignerSource>, WireError>(
                Some(SignerSource::Setup),
            )
            &&& done.signer(message.session_id, facts) == Ok::<Option<SignerSource>, WireError>(
                None,
            )
        }),
{
}

/// Whatever went into a transcript, a reset takes it back to the end of the
/// negotiation, and no signer of a session setup is left.
pub proof fn resets_forget_the_setup(wire: WireModel, digests: Seq<Seq<u8>>)
    ensures
        wire.ingested_all(digests).reset() == wire.reset(),
        wire.reset().transcript == wire.negotiation,
        wire.reset().setup_signers.is_empty(),
    decreases digests.len(),
{
    if digests.len() > 0 {
        resets_forget_the_setup(wire, digests.drop_last());
    }
}

/// A connection whose dialect keeps no transcript never has one; one whose
/// dialect does has that of the last message that went in.
pub proof fn transcripts_follow_their_messages(wire: WireModel, digests: Seq<Seq<u8>>)
    requires
        digests.len() > 0,
    ensures
        wire.ingested_all(digests).transcript == (if wire.transcript is Some {
            Some(digests.last())
        } else {
            None
        }),
    decreases digests.len(),
{
    let before = wire.ingested_all(digests.drop_last());
    if digests.len() > 1 {
        transcripts_follow_their_messages(wire, digests.drop_last());
    } else {
        assert(before == wire);
    }
    assert(wire.ingested_all(digests) == before.ingested(digests.last()));
}

/// What only hints that a session is gone is never taken for protected.
pub proof fn hints_are_not_protected(
    wire: WireModel,
    header: Header,
    encrypted: bool,
    facts: SessionFacts,
)
    requires
        has_status(header, Status::UserSessionDeleted) || has_status(
            header,
            Status::NetworkSessionExpired,
        ),
    ensures
        wire.verification(header, encrypted, facts) == Ok::<Verification, WireError>(
            Verification::RecoveryHint,
        ),
{
}

/// A plain message that says it is signed is only let through unverified
/// where it is a hint, a pending answer or a notification.
pub proof fn signed_messages_are_verified(wire: WireModel, header: Header, facts: SessionFacts)
    requires
        says_signed(header.flags),
        !has_status(header, Status::UserSessionDeleted),
        !has_status(header, Status::NetworkSessionExpired),
        !has_status(header, Status::Pending),
        header.message_id != u64::MAX,
    ensures
        wire.verification(header, false, facts) matches Ok(verification)
            ==> verification is Verify,
{
}

/// Decides how messages pass between their owner and the transport.
pub struct WirePipeline {
    negotiated: bool,
    compression: bool,
    sessions: IdSet,
    setup_signers: IdSet,
    transcript: Option<Vec<u8>>,
    negotiation: Option<Vec<u8>>,
}

impl View for WirePipeline {
    type V = WireModel;

    closed spec fn view(&self) -> WireModel {
        WireModel {
            negotiated: self.negotiated,
            compression: self.compression,
            sessions: self.sessions@,
            setup_signers: self.setup_signers@,
            transcript: digest_view(self.transcript),
            negotiation: digest_view(self.negotiation),
        }
    }
}

impl Default for WirePipeline {
    fn default() -> (pipeline: Self)
        ensures
            pipeline.wf(),
            pipeline@ == (WireModel {
                negotiated: false,
                compression: false,
                sessions: Set::empty(),
                setup_signers: Set::empty(),
                transcript: None,
                negotiation: None,
            }),
    {
        WirePipeline {
            negotiated: false,
            compression: false,
            sessions: IdSet::new(),
            setup_signers: IdSet::new(),
            transcript: None,
            negotiation: None,
        }
    }
}

fn copy_of(digest: &Option<Vec<u8>>) -> (copy: Option<Vec<u8>>)
    ensures
        digest_view(copy) == digest_view(*digest),
{
    match digest {
        Some(digest) => {
            let copy = digest.clone();
            assert(copy@ =~= digest@);
            Some(copy)
        },
        None => None,
    }
}

fn failure(
    outgoing: bool,
    phase: TransformPhase,
    session_id: Option<u64>,
    why: &'static str,
    msg_id: Option<u64>,
) -> (error: WireError)
    ensures
        error == WireError::TransformFailed(
            TransformError { outgoing, phase, session_id, why, msg_id },
        ),
{
    WireError::TransformFailed(TransformError { outgoing, phase, session_id, why, msg_id })
}

fn unverified_error(header: &Header) -> (error: WireError)
    ensures
        error == unverified(*header),
{
    failure(
        false,
        TransformPhase::SignVerify,
        Some(header.session_id),
        "Failed to verify compound member signature!",
        Some(header.message_id),
    )
}

/// Whether an outgoing message goes into the transcript of the connection.
pub fn participates_in_preauth_outgoing(command: Command, signed: bool) -> (goes_in: bool)
    ensures
        goes_in == transcribed_outgoing(command, signed),
{
    match command {
        Command::Negotiate => true,
        Command::SessionSetup => !signed,
        _ => false,
    }
}

/// Whether an incoming message goes into the transcript of the connection.
pub fn participates_in_preauth_incoming(header: &Header) -> (goes_in: bool)
    ensures
        goes_in == transcribed_incoming(*header),
{
    match header.command {
        Command::Negotiate => true,
        Command::SessionSetup => header.status == Status::MoreProcessingRequired.code(),
        _ => false,
    }
}

impl WirePipeline {
    pub closed spec fn wf(&self) -> bool {
        self.sessions.wf() && self.setup_signers.wf()
    }

    /// The connection was negotiated, with or without compression: it is
    /// used where the dialect has it, the configuration allows it and the
    /// server agreed on it. The transcript goes on from that of the
    /// negotiation, where the dialect keeps one.
    pub fn negotiated(
        &mut self,
        dialect_compresses: bool,
        compression_enabled: bool,
        compression_agreed: bool,
        transcript: Option<Vec<u8>>,
    ) -> (result: Result<(), WireError>)
        requires
            old(self).wf(),
        ensures
            final(self).wf(),
            old(self)@.negotiated ==> result == Err::<(), WireError>(WireError::AlreadyNegotiated)
                && final(self)@ == old(self)@,
            !old(self)@.negotiated ==> result is Ok && final(self)@ == (WireModel {
                negotiated: true,
                compression: if dialect_compresses && compression_enabled {
                    compression_agreed
                } else {
                    old(self)@.compression
                },
                transcript: digest_view(transcript),
                negotiation: digest_view(transcript),
                ..old(self)@
            }),
    {
        if self.negotiated {
            return Err(WireError::AlreadyNegotiated);
        }
        if dialect_compresses && compression_enabled {
            self.compression = compression_agreed;
        }
        self.transcript = copy_of(&transcript);
        self.negotiation = transcript;
        self.negotiated = true;
        Ok(())
    }

    /// The digest over the transcript as it stands, for the keys that are
    /// derived from it; none where the dialect keeps none. Whoever computes the
    /// hash says whether it could be brought to its end.
    pub fn snapshot_preauth_finalized(&self, finished: bool) -> (digest: Result<
        Option<Vec<u8>>,
        WireError,
    >)
        ensures
            match digest {
                Ok(digest) => finished && digest_view(digest) == self@.transcript,
                Err(error) => !finished && error == WireError::PreauthUnfinished,
            },
    {
        if !finished {
            return Err(WireError::PreauthUnfinished);
        }
        Ok(copy_of(&self.transcript))
    }

    /// A message went into the transcript: the digest over the one before it
    /// and the message. A dialect that keeps no transcript does not begin one.
    pub fn ingest(&mut self, digest: Vec<u8>)
        requires
            old(self).wf(),
        ensures
            final(self).wf(),
            final(self)@ == old(self)@.ingested(digest@),
    {
        if self.transcript.is_some() {
            self.transcript = Some(digest);
        }
    }

    /// Takes the transcript back to the end of the negotiation: the signers
    /// of session setup are gone.
    pub fn reset_preauth_to_negotiate(&mut self) -> (result: Result<(), WireError>)
        requires
            old(self).wf(),
        ensures
            final(self).wf(),
            !old(self)@.negotiated ==> result == Err::<(), WireError>(WireError::NotNegotiated)
                && final(self)@ == old(self)@,
            old(self)@.negotiated ==> result is Ok && final(self)@ == old(self)@.reset(),
    {
        if !self.negotiated {
            return Err(WireError::NotNegotiated);
        }
        self.transcript = copy_of(&self.negotiation);
        self.setup_signers.clear();
        Ok(())
    }

    pub fn session_started(&mut self, session_id: u64) -> (result: Result<(), WireError>)
        requires
            old(self).wf(),
        ensures
            final(self).wf(),
            !old(self)@.negotiated ==> result == Err::<(), WireError>(WireError::NotNegotiated)
                && final(self)@ == old(self)@,
            old(self)@.negotiated ==> result is Ok && final(self)@ == (WireModel {
                sessions: old(self)@.sessions.insert(session_id),
                ..old(self)@
            }),
    {
        if !self.negotiated {
            return Err(WireError::NotNegotiated);
        }
        let added = self.sessions.insert(session_id);
        Ok(())
    }

    pub fn session_ended(&mut self, session_id: u64) -> (result: Result<(), WireError>)
        requires
            old(self).wf(),
        ensures
            final(self).wf(),
            old(self)@.sessions.contains(session_id) ==> result is Ok,
            !old(self)@.sessions.contains(session_id) ==> result == Err::<(), WireError>(
                WireError::SessionNotFound(session_id),
            ),
            final(self)@ == (WireModel {
                sessions: old(self)@.sessions.remove(session_id),
                ..old(self)@
            }),
    {
        if self.sessions.remove(session_id) {
            Ok(())
        } else {
            Err(WireError::SessionNotFound(session_id))
        }
    }

    /// The frame that leaves: what was signed and compressed, and in front of
    /// it the header of its encryption, where it is encrypted.
    pub fn protect_wire_with(payload: &[u8], encryption: Option<&EncryptedHeader>) -> (frame: Vec<
        u8,
    >)
        ensures
            frame@ == match encryption {
                Some(header) => encrypted_header_bytes(header@) + payload@,
                None => payload@,
            },
    {
        match encryption {
            Some(header) => {
                let mut frame = header.write();
                frame.extend_from_slice(payload);
                frame
            },
            None => vstd::slice::slice_to_vec(payload),
        }
    }

    /// The signer that serves a session.
    pub fn get_signer(&self, session_id: u64, facts: SessionFacts) -> (source: Result<
        Option<SignerSource>,
        WireError,
    >)
        ensures
            source == self@.signer(session_id, facts),
    {
        if !self.sessions.contains(session_id) {
            return Err(WireError::SessionNotFound(session_id));
        }
        if facts.channel {
            Ok(Some(SignerSource::Channel))
        } else if self.setup_signers.contains(session_id) {
            Ok(Some(SignerSource::Setup))
        } else {
            Ok(None)
        }
    }

    /// Whether the channel of a session only binds another one.
    pub fn is_binding(&self, session_id: u64, facts: SessionFacts) -> (binding: Result<
        bool,
        WireError,
    >)
        ensures
            self@.sessions.contains(session_id) ==> binding == Ok::<bool, WireError>(
                facts.channel && facts.binding,
            ),
            !self@.sessions.contains(session_id) ==> binding == Err::<bool, WireError>(
                WireError::SessionNotFound(session_id),
            ),
    {
        if !self.sessions.contains(session_id) {
            return Err(WireError::SessionNotFound(session_id));
        }
        Ok(facts.channel && facts.binding)
    }

    /// Whether an incoming encrypted frame can be decrypted.
    pub fn decryption(&self, session_id: u64, facts: SessionFacts) -> (result: Result<
        (),
        WireError,
    >)
        ensures
            result == (if !self@.sessions.contains(session_id) {
                Err(WireError::SessionNotFound(session_id))
            } else if !facts.decryptor {
                Err(
                    incoming_failure(
                        TransformPhase::EncryptDecrypt,
                        Some(session_id),
                        "Message is required to be encrypted, but no decryptor is set up!",
                        None,
                    ),
                )
            } else {
                Ok::<(), WireError>(())
            }),
    {
        if !self.sessions.contains(session_id) {
            return Err(WireError::SessionNotFound(session_id));
        }
        if !facts.decryptor {
            return Err(
                failure(
                    false,
                    TransformPhase::EncryptDecrypt,
                    Some(session_id),
                    "Message is required to be encrypted, but no decryptor is set up!",
                    None,
                ),
            );
        }
        Ok(())
    }

    /// Whether an incoming compressed frame can be decompressed.
    pub fn decompression(&self) -> (result: Result<(), WireError>)
        ensures
            result == (if self@.compression {
                Ok::<(), WireError>(())
            } else {
                Err(
                    incoming_failure(
                        TransformPhase::CompressDecompress,
                        None,
                        "Compression is requested, but no decompressor is set up!",
                        None,
                    ),
                )
            }),
    {
        if self.compression {
            Ok(())
        } else {
            Err(
                failure(
                    false,
                    TransformPhase::CompressDecompress,
                    None,
                    "Compression is requested, but no decompressor is set up!",
                    None,
                ),
            )
        }
    }

    /// Whether a frame is compressed, and encrypted behind that.
    fn protect_wire(
        &self,
        frame_len: usize,
        encrypt: bool,
        session_id: u64,
        facts: SessionFacts,
    ) -> (plan: Result<(bool, bool), WireError>)
        ensures
            plan == self@.protect(frame_len as int, encrypt, session_id, facts),
    {
        let compress = frame_len > COMPRESSION_THRESHOLD && self.compression;
        if !encrypt {
            return Ok((compress, false));
        }
        if !self.sessions.contains(session_id) {
            return Err(WireError::SessionNotFound(session_id));
        }
        if !facts.encryptor {
            return Err(
                failure(
                    true,
                    TransformPhase::EncryptDecrypt,
                    Some(session_id),
                    "Message is required to be encrypted, but no encryptor is set up!",
                    None,
                ),
            );
        }
        Ok((compress, true))
    }

    fn outgoing_signer(&self, message: &OutgoingMessage, facts: SessionFacts) -> (sign: Result<
        Option<SignerSource>,
        WireError,
    >)
        ensures
            sign == self@.outgoing_signer(*message, facts),
    {
        let wanted = match message.security {
            Some(Protection::Unprotected) => false,
            Some(Protection::SignWithChannel) => true,
            Some(Protection::SnapshotKdfSign) => true,
            Some(Protection::Encrypt) => false,
            None => message.signed,
        };
        if !wanted {
            return Ok(None);
        }
        if let Some(Protection::SnapshotKdfSign) = message.security {
            if self.negotiated {
                return Ok(Some(SignerSource::Snapshot));
            }
            return Err(WireError::SetupBeforeNegotiation);
        }
        match self.get_signer(message.session_id, facts) {
            Ok(Some(source)) => Ok(Some(source)),
            Ok(None) => Err(
                failure(
                    true,
                    TransformPhase::SignVerify,
                    Some(message.session_id),
                    "Message is required to be signed, but no channel is set up!",
                    Some(message.message_id),
                ),
            ),
            Err(error) => Err(error),
        }
    }

    /// Decides how an outgoing message is signed, compressed and encrypted.
    pub fn transform_outgoing(&mut self, message: &OutgoingMessage, facts: SessionFacts) -> (plan:
        Result<OutgoingPlan, WireError>)
        requires
            old(self).wf(),
        ensures
            final(self).wf(),
            (final(self)@, plan) == old(self)@.outgoing(*message, facts),
    {
        let sign = match self.outgoing_signer(message, facts) {
            Ok(sign) => sign,
            Err(error) => {
                return Err(error);
            },
        };
        let wants_encryption = match message.security {
            Some(Protection::Encrypt) => true,
            _ => false,
        };
        let (compress, encrypt) = match self.protect_wire(
            message.frame_len,
            wants_encryption,
            message.session_id,
            facts,
        ) {
            Ok(protection) => protection,
            Err(error) => {
                return Err(error);
            },
        };
        let snapshot = match sign {
            Some(SignerSource::Snapshot) => true,
            _ => false,
        };
        if snapshot {
            let added = self.setup_signers.insert(message.session_id);
        }
        Ok(OutgoingPlan { sign, ingest_signed: snapshot, compress, encrypt })
    }

    fn encrypts_message(message: &CompoundMessage) -> (wanted: bool)
        ensures
            wanted == encrypts(*message),
    {
        match message.security {
            Some(Protection::Encrypt) => true,
            _ => false,
        }
    }

    /// The first message of a compound that carries data of its own.
    fn find_data(messages: &Vec<CompoundMessage>) -> (at: Option<usize>)
        ensures
            at is None ==> first_data(messages@) is None,
            at matches Some(at) ==> first_data(messages@) == Some(at as int),
    {
        let mut i: usize = 0;
        while i < messages.len()
            invariant
                i <= messages@.len(),
                first_data(messages@.take(i as int)) is None,
            decreases messages@.len() - i,
        {
            proof {
                assert(messages@.take(i + 1).drop_last() =~= messages@.take(i as int));
            }
            if messages[i].additional_data {
                proof {
                    first_data_stays(messages@, i + 1);
                }
                return Some(i);
            }
            i = i + 1;
        }
        proof {
            assert(messages@.take(i as int) =~= messages@);
        }
        None
    }

    /// Whether all messages of a compound agree on encryption.
    fn agree_on_encryption(messages: &Vec<CompoundMessage>) -> (agree: bool)
        requires
            messages@.len() > 0,
        ensures
            agree == encryption_agrees(messages@),
    {
        let wanted = Self::encrypts_message(&messages[0]);
        let mut i: usize = 0;
        while i < messages.len()
            invariant
                i <= messages@.len(),
                messages@.len() > 0,
                wanted == encrypts(messages@[0]),
                forall|j: int| 0 <= j < i ==> encrypts(#[trigger] messages@[j]) == wanted,
            decreases messages@.len() - i,
        {
            if Self::encrypts_message(&messages[i]) != wanted {
                return false;
            }
            i = i + 1;
        }
        true
    }

    /// Whether all messages of a compound are signed, or none.
    fn agree_on_signing(messages: &Vec<CompoundMessage>, wanted: bool) -> (agree: bool)
        requires
            messages@.len() > 0,
            wanted == compound_signs(messages@),
        ensures
            agree == signing_agrees(messages@),
    {
        let mut i: usize = 0;
        while i < messages.len()
            invariant
                i <= messages@.len(),
                messages@.len() > 0,
                wanted == compound_signs(messages@),
                forall|j: int| 0 <= j < i ==> (#[trigger] messages@[j]).signed == wanted,
            decreases messages@.len() - i,
        {
            if messages[i].signed != wanted {
                return false;
            }
            i = i + 1;
        }
        true
    }

    /// Makes one frame of a compound, and decides how it is transformed.
    pub fn transform_outgoing_compound(
        &self,
        messages: &Vec<CompoundMessage>,
        facts: SessionFacts,
    ) -> (result: Result<CompoundFrame, WireError>)
        requires
            forall|i: int|
                0 <= i < messages@.len() ==> (#[trigger] messages@[i]).bytes@.len() >= HEADER_SIZE,
        ensures
            match result {
                Ok(made) => made.frame@ == chain(bodies(messages@)) && self@.compound(
                    messages@,
                    facts,
                ) == Ok::<(Option<SignerSource>, bool, bool), WireError>(
                    (made.sign, made.compress, made.encrypt),
                ),
                Err(error) => self@.compound(messages@, facts) == Err::<
                    (Option<SignerSource>, bool, bool),
                    WireError,
                >(error),
            },
    {
        if messages.len() == 0 {
            return Err(WireError::EmptyCompound);
        }
        if let Some(at) = Self::find_data(messages) {
            return Err(WireError::AdditionalDataInCompound(at));
        }
        let frame = match Self::encode_compound(messages) {
            Ok(frame) => frame,
            Err(error) => {
                return Err(WireError::Chain(error));
            },
        };
        if !Self::agree_on_encryption(messages) {
            return Err(WireError::InconsistentEncryption);
        }
        let encrypt = Self::encrypts_message(&messages[0]);
        let sign_all = !encrypt && messages[0].signed;
        if !Self::agree_on_signing(messages, sign_all) {
            return Err(WireError::InconsistentSigning);
        }
        let session_id: u64 = messages[0].session_id;
        let sign = if sign_all {
            match self.get_signer(session_id, facts) {
                Ok(Some(source)) => Some(source),
                Ok(None) => {
                    return Err(
                        failure(
                            true,
                            TransformPhase::SignVerify,
                            Some(session_id),
                            "Compound message is signed, but no channel signer is set up",
                            None,
                        ),
                    );
                },
                Err(error) => {
                    return Err(error);
                },
            }
        } else {
            None
        };
        match self.protect_wire(frame.len(), encrypt, session_id, facts) {
            Ok((compress, encrypt)) => Ok(CompoundFrame { frame, sign, compress, encrypt }),
            Err(error) => Err(error),
        }
    }

    fn encode_compound(messages: &Vec<CompoundMessage>) -> (frame: Result<Vec<u8>, ChainError>)
        requires
            forall|i: int|
                0 <= i < messages@.len() ==> (#[trigger] messages@[i]).bytes@.len() >= HEADER_SIZE,
        ensures
            match frame {
                Ok(frame) => frame@ == chain(bodies(messages@)) && forall|i: int|
                    0 <= i < messages@.len() ==> fits((#[trigger] messages@[i]).bytes@),
                Err(error) => error == ChainError::TooLong && exists|i: int|
                    0 <= i < messages@.len() && !fits((#[trigger] messages@[i]).bytes@),
            },
    {
        let mut parts: Vec<Vec<u8>> = Vec::new();
        let mut i: usize = 0;
        while i < messages.len()
            invariant
                i <= messages@.len(),
                parts@.len() == i,
                forall|j: int| 0 <= j < i ==> (#[trigger] parts@[j])@ == messages@[j].bytes@,
            decreases messages@.len() - i,
        {
            parts.push(vstd::slice::slice_to_vec(messages[i].bytes.as_slice()));
            i = i + 1;
        }
        proof {
            assert(crate::runtime::chain::views(parts@) =~= bodies(messages@));
        }
        let built = build_chain(&parts);
        proof {
            if built is Err {
                let at = choose|at: int| 0 <= at < parts@.len() && !fits((#[trigger] parts@[at])@);
                assert(!fits(messages@[at].bytes@));
            } else {
                assert forall|at: int| 0 <= at < messages@.len() implies fits(
                    (#[trigger] messages@[at]).bytes@,
                ) by {
                    assert(fits(parts@[at]@));
                }
            }
        }
        built
    }

    /// Decides how an incoming message of a frame is verified.
    pub fn verify_plain_incoming(
        &self,
        header: &Header,
        form: &mut MessageForm,
        facts: SessionFacts,
    ) -> (verification: Result<Verification, WireError>)
        ensures
            verification == self@.verification(*header, old(form).encrypted, facts),
            *final(form) == (MessageForm {
                unauthenticated_recovery_hint: old(form).unauthenticated_recovery_hint
                    || verification == Ok::<Verification, WireError>(Verification::RecoveryHint),
                ..*old(form)
            }),
    {
        if header.status == Status::UserSessionDeleted.code() || header.status
            == Status::NetworkSessionExpired.code() {
            form.unauthenticated_recovery_hint = true;
            return Ok(Verification::RecoveryHint);
        }
        let unannounced = if header.command == Command::SessionSetup && header.signature != 0 {
            match self.is_binding(header.session_id, facts) {
                Ok(binding) => binding,
                Err(_) => false,
            }
        } else {
            false
        };
        if form.encrypted || header.message_id == u64::MAX || header.status
            == Status::Pending.code() || !(is_signed(header.flags) || unannounced) {
            return Ok(Verification::Skip);
        }
        match self.get_signer(header.session_id, facts) {
            Ok(Some(source)) => Ok(Verification::Verify(source)),
            Ok(None) => Err(unverified_error(header)),
            Err(_) => Err(unverified_error(header)),
        }
    }

    /// Takes the outcome of a verification.
    pub fn signature_checked(&mut self, header: &Header, form: &MessageForm, genuine: bool) -> (
        result: Result<MessageForm, WireError>)
        requires
            old(self).wf(),
        ensures
            final(self).wf(),
            (final(self)@, result) == old(self)@.verified(*header, *form, genuine),
    {
        if !genuine {
            return Err(unverified_error(header));
        }
        if header.command == Command::SessionSetup && header.status == Status::Success.code() {
            let removed = self.setup_signers.remove(header.session_id);
        }
        let mut checked = *form;
        checked.signed = true;
        Ok(checked)
    }
}

/// A message is signed where it asks for one of the two signatures, or says
/// nothing and its header says that it is signed; it is encrypted where it
/// asks for that.
pub proof fn messages_get_what_they_ask_for(security: Option<Protection>, signed: bool)
    ensures
        wants(security, signed).0 <==> (security == Some(Protection::SignWithChannel) || security
            == Some(Protection::SnapshotKdfSign) || (security is None && signed)),
        wants(security, signed).1 <==> security == Some(Protection::Encrypt),
{
}

/// A session signs with its channel, or with the signer of its setup as long
/// as there is no channel; a session that is not known signs nothing.
pub proof fn signers_belong_to_sessions(wire: WireModel, session_id: u64, facts: SessionFacts)
    ensures
        match wire.signer(session_id, facts) {
            Ok(Some(SignerSource::Channel)) => wire.sessions.contains(session_id) && facts.channel,
            Ok(Some(SignerSource::Setup)) => wire.sessions.contains(session_id) && !facts.channel
                && wire.setup_signers.contains(session_id),
            Ok(Some(SignerSource::Snapshot)) => false,
            Ok(None) => wire.sessions.contains(session_id) && !facts.channel
                && !wire.setup_signers.contains(session_id),
            Err(error) => !wire.sessions.contains(session_id) && error
                == WireError::SessionNotFound(session_id),
        },
{
}

/// An outgoing message is signed by the signer that it asks for, compressed
/// where the connection agreed on it and the frame is longer than 1024 bytes,
/// and encrypted where it asks for that and the session can. Where what it
/// asks for is not there, it is not sent.
pub proof fn outgoing_messages_are_protected(
    wire: WireModel,
    message: OutgoingMessage,
    facts: SessionFacts,
)
    ensures
        ({
            let (next, plan) = wire.outgoing(message, facts);
            let known = wire.sessions.contains(message.session_id);
            let snapshot = message.security == Some(Protection::SnapshotKdfSign);
            let by_session = message.security == Some(Protection::SignWithChannel) || (
            message.security is None && message.signed);
            let encrypted = message.security == Some(Protection::Encrypt);
            let able = facts.channel || wire.setup_signers.contains(message.session_id);
            &&& plan is Ok <==> (snapshot ==> wire.negotiated) && (by_session ==> known && able)
                && (encrypted ==> known && facts.encryptor)
            &&& plan matches Ok(plan) ==> {
                &&& plan.sign == if snapshot {
                    Some(SignerSource::Snapshot)
                } else if by_session {
                    Some(
                        if facts.channel {
                            SignerSource::Channel
                        } else {
                            SignerSource::Setup
                        },
                    )
                } else {
                    None::<SignerSource>
                }
                &&& plan.ingest_signed <==> snapshot
                &&& plan.compress <==> wire.compression && message.frame_len > 1024
                &&& plan.encrypt <==> encrypted
                &&& snapshot ==> next.setup_signers == wire.setup_signers.insert(
                    message.session_id,
                ) && next == (WireModel { setup_signers: next.setup_signers, ..wire })
                &&& !snapshot ==> next == wire
            }
            &&& plan matches Err(error) ==> {
                &&& next == wire
                &&& snapshot ==> error == WireError::SetupBeforeNegotiation
                &&& !snapshot && !known ==> error == WireError::SessionNotFound(message.session_id)
                &&& !snapshot && known ==> (error matches WireError::TransformFailed(failed)
                    && failed.outgoing && failed.session_id == Some(message.session_id)
                    && failed.phase == if by_session {
                    TransformPhase::SignVerify
                } else {
                    TransformPhase::EncryptDecrypt
                })
            }
        }),
{
}

/// What goes into the transcript: every negotiation, on its way out every
/// session setup that is not signed, and on its way in every one that is to
/// go on.
pub proof fn transcripts_hold_the_setup(command: Command, signed: bool, header: Header)
    ensures
        transcribed_outgoing(command, signed) <==> (command is Negotiate || (command
            is SessionSetup && !signed)),
        transcribed_incoming(header) <==> (header.command is Negotiate || (header.command
            is SessionSetup && header.status == 0xc000_0016)),
{
}

/// An incoming message that says its session is gone is a hint and no more.
/// One that was encrypted, one that nobody asked for, an interim one and one
/// that is not signed is not verified; neither is it taken for signed. Every
/// other is verified with the signer of its session, and refused where there
/// is none.
pub proof fn incoming_messages_are_verified(
    wire: WireModel,
    header: Header,
    encrypted: bool,
    facts: SessionFacts,
)
    ensures
        ({
            let verification = wire.verification(header, encrypted, facts);
            let gone = header.status == 0xc000_0203 || header.status == 0xc000_035c;
            let known = wire.sessions.contains(header.session_id);
            let announced = (header.flags / 8) % 2 == 1;
            let binds = header.command is SessionSetup && header.signature != 0 && known
                && facts.channel && facts.binding;
            let exempt = encrypted || header.message_id == u64::MAX || header.status == 0x103 || !(
            announced || binds);
            let able = known && (facts.channel || wire.setup_signers.contains(header.session_id));
            &&& verification == Ok::<Verification, WireError>(Verification::RecoveryHint) <==> gone
            &&& verification == Ok::<Verification, WireError>(Verification::Skip) <==> !gone
                && exempt
            &&& verification == Ok::<Verification, WireError>(
                Verification::Verify(SignerSource::Channel),
            ) <==> !gone && !exempt && known && facts.channel
            &&& verification == Ok::<Verification, WireError>(
                Verification::Verify(SignerSource::Setup),
            ) <==> !gone && !exempt && able && !facts.channel
            &&& verification is Err <==> !gone && !exempt && !able
            &&& verification is Err ==> verification == Err::<Verification, WireError>(
                unverified(header),
            )
        }),
{
}

/// A message whose signature is genuine is taken as signed, and the last
/// response of a setup makes its signer superfluous. One whose signature is
/// not is refused, and changes nothing.
pub proof fn genuine_signatures_are_taken(
    wire: WireModel,
    header: Header,
    form: MessageForm,
    genuine: bool,
)
    ensures
        ({
            let (next, result) = wire.verified(header, form, genuine);
            &&& result is Ok <==> genuine
            &&& result matches Ok(seen) ==> seen.signed && seen.encrypted == form.encrypted
                && seen.compressed == form.compressed && seen.unauthenticated_recovery_hint
                == form.unauthenticated_recovery_hint
            &&& !genuine ==> next == wire && (result matches Err(WireError::TransformFailed(failed))
                && !failed.outgoing && failed.session_id == Some(header.session_id)
                && failed.msg_id == Some(header.message_id))
            &&& genuine && header.command is SessionSetup && header.status == 0
                ==> next.setup_signers == wire.setup_signers.remove(header.session_id)
            &&& genuine && !(header.command is SessionSetup && header.status == 0) ==> next == wire
            &&& next == (WireModel { setup_signers: next.setup_signers, ..wire })
        }),
{
}

/// A compound is sent where it holds messages, none of them carries data of
/// its own or is too long, and all agree on how they are protected. Else the
/// first of these that fails is told.
pub proof fn compounds_agree(wire: WireModel, messages: Seq<CompoundMessage>, facts: SessionFacts)
    ensures
        ({
            let made = wire.compound(messages, facts);
            let heavy = exists|i: int|
                0 <= i < messages.len() && (#[trigger] messages[i]).additional_data;
            let long = exists|i: int|
                0 <= i < messages.len() && !fits((#[trigger] messages[i]).bytes@);
            let secret = messages[0].security == Some(Protection::Encrypt);
            let mixed = exists|i: int|
                0 <= i < messages.len() && ((#[trigger] messages[i]).security == Some(
                    Protection::Encrypt,
                )) != secret;
            let signed = !secret && messages[0].signed;
            let uneven = exists|i: int|
                0 <= i < messages.len() && (#[trigger] messages[i]).signed != signed;
            let known = wire.sessions.contains(messages[0].session_id);
            let able = known && (facts.channel || wire.setup_signers.contains(
                messages[0].session_id,
            ));
            &&& messages.len() == 0 <==> made == Err::<
                (Option<SignerSource>, bool, bool),
                WireError,
            >(WireError::EmptyCompound)
            &&& (made matches Err(WireError::AdditionalDataInCompound(_))) <==> heavy
            &&& made == Err::<(Option<SignerSource>, bool, bool), WireError>(
                WireError::Chain(ChainError::TooLong),
            ) <==> !heavy && long
            &&& made == Err::<(Option<SignerSource>, bool, bool), WireError>(
                WireError::InconsistentEncryption,
            ) <==> messages.len() > 0 && !heavy && !long && mixed
            &&& made == Err::<(Option<SignerSource>, bool, bool), WireError>(
                WireError::InconsistentSigning,
            ) <==> messages.len() > 0 && !heavy && !long && !mixed && uneven
            &&& made is Ok <==> messages.len() > 0 && !heavy && !long && !mixed && !uneven && (
            signed ==> able) && (secret ==> known && facts.encryptor)
            &&& made matches Ok((sign, compress, encrypt)) ==> {
                &&& sign is Some <==> signed
                &&& signed ==> sign == Some(
                    if facts.channel {
                        SignerSource::Channel
                    } else {
                        SignerSource::Setup
                    },
                )
                &&& encrypt <==> secret
                &&& compress <==> wire.compression && chain(bodies(messages)).len() > 1024
            }
        }),
{
    data_is_found(messages);
    if messages.len() > 0 {
        assert(encryption_agrees(messages) <==> !(exists|i: int|
            0 <= i < messages.len() && ((#[trigger] messages[i]).security == Some(
                Protection::Encrypt,
            )) != (messages[0].security == Some(Protection::Encrypt)))) by {
            if encryption_agrees(messages) {
                assert forall|i: int| 0 <= i < messages.len() implies ((
                #[trigger] messages[i]).security == Some(Protection::Encrypt)) == (
                messages[0].security == Some(Protection::Encrypt)) by {
                    assert(encrypts(messages[i]) == encrypts(messages[0]));
                }
            } else {
                let i = choose|i: int|
                    0 <= i < messages.len() && encrypts(#[trigger] messages[i]) != encrypts(
                        messages[0],
                    );
                assert((messages[i].security == Some(Protection::Encrypt)) != (
                messages[0].security == Some(Protection::Encrypt)));
            }
        }
    }
}

proof fn data_is_found(messages: Seq<CompoundMessage>)
    ensures
        first_data(messages) is Some <==> exists|i: int|
            0 <= i < messages.len() && (#[trigger] messages[i]).additional_data,
        first_data(messages) matches Some(at) ==> 0 <= at < messages.len()
            && messages[at].additional_data && forall|i: int|
            0 <= i < at ==> !(#[trigger] messages[i]).additional_data,
    decreases messages.len(),
{
    if messages.len() > 0 {
        let front = messages.drop_last();
        data_is_found(front);
        if first_data(front) is Some {
            let at = first_data(front)->Some_0;
            assert(messages[at] == front[at]);
            assert forall|i: int| 0 <= i < at implies !(#[trigger] messages[i]).additional_data by {
                assert(messages[i] == front[i]);
            }
        } else {
            assert forall|i: int| 0 <= i < front.len() implies !(
            #[trigger] messages[i]).additional_data by {
                assert(messages[i] == front[i]);
            }
            if messages.last().additional_data {
                assert(messages[messages.len() - 1].additional_data);
            }
        }
    }
}

/// The first message of a compound that carries data of its own is named.
pub proof fn the_first_data_is_named(
    wire: WireModel,
    messages: Seq<CompoundMessage>,
    facts: SessionFacts,
    at: int,
)
    requires
        0 <= at < messages.len() <= usize::MAX,
        messages[at].additional_data,
        forall|i: int| 0 <= i < at ==> !(#[trigger] messages[i]).additional_data,
    ensures
        wire.compound(messages, facts) == Err::<(Option<SignerSource>, bool, bool), WireError>(
            WireError::AdditionalDataInCompound(at as usize),
        ),
{
    data_is_found(messages);
    let found = first_data(messages)->Some_0;
    if found < at {
        assert(!messages[found].additional_data);
    } else if at < found {
        assert(!messages[at].additional_data);
    }
}

} // verus!
