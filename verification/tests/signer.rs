use bytes::Bytes;
use smb::header::{message_kind, Header, MessageKind};
use smb::protocol::Command;
use smb::runtime::chain::{split_chain, ChainError};
use smb::runtime::signed_chain::sign_chain;
use smb::session::signer::{MessageSigner, SignatureError, SigningAlgorithm};

fn logoff() -> Vec<u8> {
    vec![
        0xfe, 0x53, 0x4d, 0x42, 0x40, 0x0, 0x1, 0x0, 0x0, 0x0, 0x0, 0x0, 0x2, 0x0, 0x1, 0x0, 0x18,
        0x0, 0x0, 0x0, 0x0, 0x0, 0x0, 0x0, 0x9, 0x0, 0x0, 0x0, 0x0, 0x0, 0x0, 0x0, 0x0, 0x0, 0x0,
        0x0, 0x0, 0x0, 0x0, 0x0, 0x53, 0x20, 0xc, 0x21, 0x0, 0x0, 0x0, 0x0, 0x76, 0x23, 0x4b, 0x3c,
        0x81, 0x2f, 0x51, 0xab, 0x8a, 0x5c, 0xf9, 0xfa, 0x43, 0xd4, 0xeb, 0x28,
    ]
}

#[test]
fn headers_are_read_and_written() {
    let bytes = logoff();
    let header = Header::read(&bytes).unwrap();
    assert_eq!(header.command, Command::Logoff);
    assert_eq!(header.message_id, 9);
    assert_eq!(header.session_id, 0x210c_2053);
    assert_eq!(header.signature, 0x28ebd443faf95c8aab512f813c4b2376);
    assert_eq!(header.flags, 0x18);
    assert_eq!(header.write(), bytes);
    assert_eq!(message_kind(&bytes), MessageKind::Plain);
    assert_eq!(Header::read(&bytes[..63]), None);
}

#[test]
fn segments_and_one_piece_are_signed_alike() {
    let header = Header::read(&logoff()).unwrap();
    let signer = MessageSigner::new(SigningAlgorithm::AesGmac);
    let next = vec![0x4, 0x0, 0x0, 0x0];
    let mut combined = logoff();
    combined.extend_from_slice(&next);
    let whole = signer.signing_input(&header, &combined);
    let parts = signer.signing_input_segments(&header, &vec![logoff(), next]);
    assert_eq!(whole, parts);
    assert_eq!(whole.len(), 68);
    assert_eq!(&whole[..48], &logoff()[..48]);
    assert_eq!(&whole[48..64], &[0; 16]);
    assert_eq!(&whole[64..], &[4, 0, 0, 0]);
}

#[test]
fn signatures_are_compared_and_put_in_place() {
    let signer = MessageSigner::new(SigningAlgorithm::AesCmac);
    assert!(signer.batches());
    let mut header = Header::read(&logoff()).unwrap();
    assert_eq!(
        signer.verify_signature(&header, 0x28ebd443faf95c8aab512f813c4b2376),
        Ok(())
    );
    assert_eq!(
        signer.verify_signature(&header, 1),
        Err(SignatureError::SignatureVerificationFailed)
    );
    let mut data = logoff();
    signer.sign_message(&mut header, &mut data, 5);
    assert_eq!(header.signature, 5);
    assert_eq!(data[48], 5);
    assert_eq!(&data[49..], &[0; 15]);
    assert_eq!(&data[..48], &logoff()[..48]);
}

#[test]
fn each_message_of_a_compound_is_signed_over_itself() {
    let signer = MessageSigner::new(SigningAlgorithm::AesGmac);
    let mut second = logoff();
    second.extend_from_slice(&[4, 0, 0, 0]);
    // A stand-in for the cipher: the sum of what is covered.
    let sum = |input: Vec<u8>| input.iter().map(|byte| *byte as u128).sum::<u128>() + 1;
    let frame = sign_chain(&signer, &vec![logoff(), second], sum).unwrap();
    assert_eq!(frame.len(), 64 + 72);
    let members = split_chain(Bytes::from(frame.clone())).unwrap();
    assert_eq!(members.len(), 2);
    assert_eq!(members[0].header.next_command, 64);
    for member in &members {
        let part = &frame[member.start..member.end];
        let covered = signer.signing_input(&member.header, part);
        assert_ne!(member.header.signature, 0x28ebd443faf95c8aab512f813c4b2376);
        assert_eq!(signer.verify_signature(&member.header, sum(covered)), Ok(()));
    }
    assert_ne!(members[0].header.signature, members[1].header.signature);

    assert_eq!(
        sign_chain(&signer, &vec![logoff(), vec![1, 2, 3]], sum),
        Err(ChainError::NotPlain)
    );
}
