use bytes::Bytes;
use smb::header::{Header, HEADER_SIZE};
use smb::protocol::{Command, Status};
use smb::runtime::chain::{build_chain, split_chain, ChainError};
use smb::runtime::incoming::{open_decompressed, open_decrypted, open_envelope, open_frame};
use smb::runtime::incoming::{IncomingError, Opening};
use smb::runtime::wire::{
    participates_in_preauth_incoming, participates_in_preauth_outgoing, CompoundMessage,
    MessageForm, OutgoingMessage, OutgoingPlan, Protection, SessionFacts, SignerSource,
    TransformError, TransformPhase, Verification, WireError, WirePipeline,
};
use smb::session::encryptor_decryptor::{
    EncryptedHeader, EnvelopeError, MessageDecryptor, MessageEncryptor, ENCRYPTED_HEADER_SIZE,
};

const NOTHING: SessionFacts = SessionFacts {
    channel: false,
    binding: false,
    encryptor: false,
    decryptor: false,
};

const EVERYTHING: SessionFacts = SessionFacts {
    channel: true,
    binding: false,
    encryptor: true,
    decryptor: true,
};

fn header(command: Command, message_id: u64) -> Header {
    Header {
        credit_charge: 1,
        status: 0,
        command,
        credit_request: 1,
        flags: 0,
        next_command: 0,
        message_id,
        routing: 0,
        session_id: 7,
        signature: 0,
    }
}

fn outgoing(security: Option<Protection>) -> OutgoingMessage {
    OutgoingMessage {
        command: Command::Read,
        signed: false,
        session_id: 7,
        message_id: 3,
        security,
        frame_len: 100,
    }
}

fn message(header: Header, body: &[u8]) -> Vec<u8> {
    let mut bytes = header.write();
    bytes.extend_from_slice(body);
    bytes
}

fn started() -> WirePipeline {
    let mut wire = WirePipeline::default();
    wire.negotiated(true, true, true, None).unwrap();
    wire.session_started(7).unwrap();
    wire
}

/// Stands for a cipher.
fn mask(payload: &mut [u8], nonce: &[u8]) {
    for (byte, key) in payload.iter_mut().zip(nonce.iter().cycle()) {
        *byte ^= key ^ 0x42;
    }
}

#[test]
fn unsigned_session_loss_is_marked_only_as_a_recovery_hint() {
    let mut response = header(Command::Logoff, 0);
    response.status = Status::UserSessionDeleted.code();
    response.credit_request = 64;
    response.flags = 1 | 8;
    response.signature = 0xfeed;
    let mut form = MessageForm::default();

    let verification = WirePipeline::default()
        .verify_plain_incoming(&response, &mut form, NOTHING)
        .unwrap();

    assert_eq!(verification, Verification::RecoveryHint);
    assert!(form.unauthenticated_recovery_hint);
    assert!(!form.signed_or_encrypted());
}

#[test]
fn encrypted_compound_uses_one_transform_owner_and_preserves_chain() {
    let session_id = 7;
    let body = [4u8, 0, 0, 0];
    let requests: Vec<CompoundMessage> = (0..3)
        .map(|index| CompoundMessage {
            bytes: message(header(Command::Logoff, index), &body),
            signed: false,
            session_id,
            security: Some(Protection::Encrypt),
            additional_data: false,
        })
        .collect();
    let made = started()
        .transform_outgoing_compound(&requests, EVERYTHING)
        .unwrap();
    assert!(made.encrypt);
    assert_eq!(made.sign, None);

    let envelope = MessageEncryptor::new(12)
        .encrypt_message(made.frame.len(), session_id)
        .unwrap();
    let mut frame = envelope.write();
    let mut payload = made.frame.clone();
    mask(&mut payload, &envelope.nonce);
    assert_ne!(payload, made.frame);
    frame.extend_from_slice(&payload);

    let encrypted_header = EncryptedHeader::read(&frame).unwrap();
    let mut encrypted_payload = frame[ENCRYPTED_HEADER_SIZE..].to_vec();
    mask(&mut encrypted_payload, &encrypted_header.nonce);

    let mut offset = 0;
    for index in 0..3 {
        let header = Header::read(&encrypted_payload[offset..]).unwrap();
        assert_eq!(header.message_id, index as u64);
        if index < 2 {
            assert!(header.next_command > 0);
            assert_eq!(header.next_command % 8, 0);
            offset += header.next_command as usize;
        } else {
            assert_eq!(header.next_command, 0);
        }
    }
}

#[test]
fn compounds_are_read_back_with_their_padding() {
    let first = message(header(Command::Create, 1), &[1, 2, 3]);
    let second = message(header(Command::Close, 2), &[4]);
    let frame = build_chain(&vec![first.clone(), second.clone()]).unwrap();
    assert_eq!(frame.len(), 72 + 72);
    let members = split_chain(Bytes::from(frame.clone())).unwrap();
    assert_eq!(members.len(), 2);
    assert_eq!((members[0].start, members[0].end), (0, 72));
    assert_eq!((members[1].start, members[1].end), (72, 144));
    assert_eq!(members[0].header.next_command, 72);
    assert_eq!(members[1].header.next_command, 0);
    assert_eq!(&frame[64..72], &[1, 2, 3, 0, 0, 0, 0, 0]);
    assert_eq!(members[1].header.command, Command::Close);
}

#[test]
fn broken_chains_are_refused() {
    assert_eq!(
        split_chain(Bytes::from_static(b"no header")),
        Err(ChainError::NotPlain)
    );
    let mut beyond = header(Command::Read, 1);
    beyond.next_command = 4096;
    assert_eq!(
        split_chain(Bytes::from(beyond.write())),
        Err(ChainError::OffsetExceedsFrame {
            offset: 4096,
            remaining: HEADER_SIZE,
        })
    );
}

#[test]
fn plain_messages_go_out_as_they_are() {
    let mut wire = WirePipeline::default();
    assert_eq!(
        wire.transform_outgoing(&outgoing(None), NOTHING),
        Ok(OutgoingPlan {
            sign: None,
            ingest_signed: false,
            compress: false,
            encrypt: false,
        })
    );
}

#[test]
fn signed_messages_need_a_signer() {
    let mut wire = started();
    assert_eq!(
        wire.transform_outgoing(&outgoing(Some(Protection::SignWithChannel)), NOTHING),
        Err(WireError::TransformFailed(TransformError {
            outgoing: true,
            phase: TransformPhase::SignVerify,
            session_id: Some(7),
            why: "Message is required to be signed, but no channel is set up!",
            msg_id: Some(3),
        }))
    );
    let plan = wire
        .transform_outgoing(&outgoing(Some(Protection::SignWithChannel)), EVERYTHING)
        .unwrap();
    assert_eq!(plan.sign, Some(SignerSource::Channel));
    assert!(!plan.encrypt);
}

#[test]
fn encrypted_messages_need_an_encryptor() {
    let mut wire = started();
    assert!(matches!(
        wire.transform_outgoing(&outgoing(Some(Protection::Encrypt)), NOTHING),
        Err(WireError::TransformFailed(TransformError {
            phase: TransformPhase::EncryptDecrypt,
            ..
        }))
    ));
    let plan = wire
        .transform_outgoing(&outgoing(Some(Protection::Encrypt)), EVERYTHING)
        .unwrap();
    assert!(plan.encrypt);
    assert_eq!(plan.sign, None);
}

#[test]
fn only_long_frames_are_compressed() {
    let mut wire = started();
    for (frame_len, compress) in [(1024, false), (1025, true)] {
        let plan = wire
            .transform_outgoing(
                &OutgoingMessage {
                    frame_len,
                    ..outgoing(None)
                },
                NOTHING,
            )
            .unwrap();
        assert_eq!(plan.compress, compress);
    }
}

#[test]
fn compounds_are_refused_for_what_is_wrong_with_them() {
    let wire = started();
    let refused = |messages: Vec<CompoundMessage>| {
        wire.transform_outgoing_compound(&messages, EVERYTHING)
            .err()
            .unwrap()
    };
    let member = |security: Option<Protection>, additional_data: bool| CompoundMessage {
        bytes: header(Command::Create, 1).write(),
        signed: security == Some(Protection::SignWithChannel),
        session_id: 7,
        security,
        additional_data,
    };
    assert_eq!(refused(vec![]), WireError::EmptyCompound);
    assert_eq!(
        refused(vec![member(None, false), member(None, true)]),
        WireError::AdditionalDataInCompound(1)
    );
    assert_eq!(
        refused(vec![
            member(Some(Protection::Encrypt), false),
            member(None, false)
        ]),
        WireError::InconsistentEncryption
    );
    assert_eq!(
        refused(vec![
            member(Some(Protection::SignWithChannel), false),
            member(None, false)
        ]),
        WireError::InconsistentSigning
    );
}

#[test]
fn sessions_and_negotiation_are_kept_in_order() {
    let mut wire = WirePipeline::default();
    assert_eq!(
        wire.reset_preauth_to_negotiate(),
        Err(WireError::NotNegotiated)
    );
    assert_eq!(wire.session_ended(7), Err(WireError::SessionNotFound(7)));
    wire.negotiated(true, true, false, None).unwrap();
    assert_eq!(
        wire.negotiated(true, true, false, None),
        Err(WireError::AlreadyNegotiated)
    );
    wire.session_started(7).unwrap();
    assert_eq!(wire.get_signer(7, NOTHING), Ok(None));
    assert_eq!(
        wire.get_signer(7, EVERYTHING),
        Ok(Some(SignerSource::Channel))
    );
    assert_eq!(
        wire.get_signer(8, EVERYTHING),
        Err(WireError::SessionNotFound(8))
    );
    wire.session_ended(7).unwrap();
    assert_eq!(
        wire.get_signer(7, EVERYTHING),
        Err(WireError::SessionNotFound(7))
    );
}

#[test]
fn setup_signers_serve_the_final_response_once() {
    let mut wire = started();
    let plan = wire
        .transform_outgoing(
            &OutgoingMessage {
                command: Command::SessionSetup,
                signed: true,
                ..outgoing(Some(Protection::SnapshotKdfSign))
            },
            NOTHING,
        )
        .unwrap();
    assert_eq!(plan.sign, Some(SignerSource::Snapshot));
    assert!(plan.ingest_signed);
    let mut response = header(Command::SessionSetup, 3);
    response.flags = 8 | 1;
    let mut form = MessageForm::default();
    assert_eq!(
        wire.verify_plain_incoming(&response, &mut form, NOTHING),
        Ok(Verification::Verify(SignerSource::Setup))
    );
    let checked = wire.signature_checked(&response, &form, true).unwrap();
    assert!(checked.signed);
    assert_eq!(wire.get_signer(7, NOTHING), Ok(None));
}

#[test]
fn forged_signatures_are_refused() {
    let mut wire = started();
    let mut response = header(Command::Read, 3);
    response.flags = 8;
    let form = MessageForm::default();
    assert!(matches!(
        wire.signature_checked(&response, &form, false),
        Err(WireError::TransformFailed(TransformError {
            outgoing: false,
            phase: TransformPhase::SignVerify,
            ..
        }))
    ));
}

#[test]
fn transcripts_take_negotiations_and_unfinished_setups() {
    assert!(participates_in_preauth_outgoing(Command::Negotiate, true));
    assert!(participates_in_preauth_outgoing(Command::SessionSetup, false));
    assert!(!participates_in_preauth_outgoing(Command::SessionSetup, true));
    assert!(!participates_in_preauth_outgoing(Command::Read, false));
    let mut response = header(Command::SessionSetup, 1);
    assert!(!participates_in_preauth_incoming(&response));
    response.status = Status::MoreProcessingRequired.code();
    assert!(participates_in_preauth_incoming(&response));
    response.command = Command::Negotiate;
    assert!(participates_in_preauth_incoming(&response));
}

#[test]
fn frames_are_opened_by_what_they_begin_with() {
    let wire = started();
    let plain = Bytes::from(header(Command::Read, 1).write());
    assert_eq!(open_frame(&plain, &wire), Ok(Opening::Walk));
    assert_eq!(open_decompressed(&plain), Ok(Opening::Walk));
    let compressed = Bytes::from_static(b"\xfcSMB");
    assert_eq!(open_frame(&compressed, &wire), Ok(Opening::Decompress));
    assert_eq!(open_decrypted(&compressed, &wire), Ok(Opening::Decompress));
    assert!(open_frame(&compressed, &WirePipeline::default()).is_err());
    assert_eq!(
        open_decompressed(&compressed),
        Err(IncomingError::ExpectedPlain)
    );
    assert_eq!(
        open_frame(&Bytes::from_static(b"HTTP"), &wire),
        Err(IncomingError::NotAMessage)
    );
    let encrypted = Bytes::from_static(b"\xfdSMB");
    assert_eq!(open_frame(&encrypted, &wire), Ok(Opening::Decrypt));
}

#[test]
fn envelopes_are_checked_before_they_are_decrypted() {
    let wire = started();
    let decryptor = MessageDecryptor::new(12);
    let envelope = MessageEncryptor::new(12).encrypt_message(5, 7).unwrap();
    let mut frame = WirePipeline::protect_wire_with(b"12345", Some(&envelope));
    assert_eq!(WirePipeline::protect_wire_with(b"12345", None), b"12345");
    assert_eq!(&frame[ENCRYPTED_HEADER_SIZE..], b"12345");
    assert!(open_envelope(&Bytes::from(frame.clone()), &wire, EVERYTHING, &decryptor).is_ok());
    frame.pop();
    assert_eq!(
        open_envelope(&Bytes::from(frame), &wire, EVERYTHING, &decryptor).err(),
        Some(IncomingError::Envelope(EnvelopeError::SizeMismatch))
    );
}

#[test]
fn incoming_compounds_are_dealt_with_in_order() {
    let mut wire = started();
    let mut first = header(Command::Create, 1);
    first.flags = 8 | 1;
    first.signature = 11;
    let mut second = header(Command::Close, 2);
    second.status = Status::UserSessionDeleted.code();
    let mut setup = header(Command::SessionSetup, 3);
    setup.status = Status::MoreProcessingRequired.code();
    let frame = build_chain(&vec![
        message(first, &[1]),
        message(second, &[2]),
        message(setup, &[3]),
    ])
    .unwrap();

    let batch = wire.transform_incoming_all(
        Bytes::from(frame.clone()),
        false,
        false,
        |_| EVERYTHING,
        |member, source| source == SignerSource::Channel && member.header.signature == 11,
    );
    assert_eq!(batch.ingested.len(), 1);
    assert_eq!(batch.ingested[0].header.message_id, 3);
    let delivered = batch.result.unwrap();
    assert_eq!(delivered.len(), 3);
    assert!(delivered[0].form.signed);
    assert!(delivered[1].form.unauthenticated_recovery_hint);
    assert!(!delivered[1].form.signed_or_encrypted());
    assert!(!delivered[2].form.signed_or_encrypted());

    let refused = wire.transform_incoming_all(
        Bytes::from(frame),
        false,
        false,
        |_| EVERYTHING,
        |_, _| false,
    );
    assert!(matches!(refused.result, Err(IncomingError::Wire(_))));
    assert!(refused.ingested.is_empty());
}

#[test]
fn shared_payloads_keep_their_bytes() {
    let frame = Bytes::from(
        build_chain(&vec![
            message(header(Command::Read, 1), b"first"),
            message(header(Command::Read, 2), b"second"),
        ])
        .unwrap(),
    );
    let mut walk = smb::runtime::chain::ChainWalk::new(frame.clone());
    let first = walk.step().unwrap().unwrap();
    let second = walk.step().unwrap().unwrap();
    assert_eq!(walk.step(), Ok(None));
    assert_eq!(&walk.bytes_of(&first)[64..69], b"first");
    assert_eq!(&walk.bytes_of(&second)[64..70], b"second");
    assert_eq!(walk.bytes_of(&second).as_ptr(), frame[72..].as_ptr());
}

#[test]
fn a_reset_takes_the_transcript_back_to_the_negotiation() {
    let mut wire = WirePipeline::default();
    assert_eq!(wire.snapshot_preauth_finalized(true), Ok(None));
    wire.ingest(vec![1]);
    assert_eq!(wire.snapshot_preauth_finalized(true), Ok(None));
    wire.negotiated(false, false, false, Some(vec![7; 64])).unwrap();
    assert_eq!(wire.snapshot_preauth_finalized(true), Ok(Some(vec![7; 64])));
    wire.ingest(vec![8; 64]);
    wire.ingest(vec![9; 64]);
    assert_eq!(wire.snapshot_preauth_finalized(true), Ok(Some(vec![9; 64])));
    wire.reset_preauth_to_negotiate().unwrap();
    assert_eq!(wire.snapshot_preauth_finalized(true), Ok(Some(vec![7; 64])));
    assert_eq!(
        wire.snapshot_preauth_finalized(false),
        Err(WireError::PreauthUnfinished)
    );
}
