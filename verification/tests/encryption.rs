use smb::session::encryptor_decryptor::{
    envelope, gen_nonce, padded_nonce, EncryptedHeader, EnvelopeError, MessageDecryptor,
    MessageEncryptor, ENCRYPTED_HEADER_SIZE,
};

#[test]
fn encrypted_envelope_rejects_size_and_unused_nonce_before_plaintext_parse() {
    let encryptor = MessageEncryptor::new(12);
    let decryptor = MessageDecryptor::new(12);

    let mut payload = b"not parsed".to_vec();
    let header = encryptor.encrypt_message(payload.len(), 9).unwrap();
    assert_eq!(decryptor.decrypt_message(&header, payload.len()), Ok(()));
    payload.pop();
    assert_eq!(
        decryptor.decrypt_message(&header, payload.len()),
        Err(EnvelopeError::SizeMismatch)
    );

    let payload = b"not parsed".to_vec();
    let mut header = encryptor.encrypt_message(payload.len(), 9).unwrap();
    header.nonce[15] = 1;
    assert_eq!(
        decryptor.decrypt_message(&header, payload.len()),
        Err(EnvelopeError::UnusedNonceBytes)
    );
}

#[test]
fn nonces_are_random_where_the_cipher_uses_them() {
    let nonces: Vec<Vec<u8>> = (0..8).map(|_| gen_nonce(12)).collect();
    for nonce in &nonces {
        assert_eq!(nonce.len(), 16);
        assert_eq!(&nonce[12..], &[0; 4]);
        assert!(nonce[..12].iter().any(|byte| *byte != 0));
    }
    assert!(nonces.windows(2).all(|pair| pair[0] != pair[1]));
}

#[test]
fn drawn_bytes_are_kept_in_the_nonce() {
    assert_eq!(
        padded_nonce((1..12).collect()),
        vec![1, 2, 3, 4, 5, 6, 7, 8, 9, 10, 11, 0, 0, 0, 0, 0]
    );
    assert_eq!(padded_nonce(vec![9; 16]), vec![9; 16]);
    assert_eq!(padded_nonce(Vec::new()), vec![0; 16]);
}

#[test]
fn encrypted_headers_are_read_back() {
    let mut header = envelope((1..17).collect(), 0x1234, 0x1122_3344_5566_7788).unwrap();
    header.signature = 0x0102_0304_0506_0708_090a_0b0c_0d0e_0f10;
    let bytes = header.write();
    assert_eq!(bytes.len(), ENCRYPTED_HEADER_SIZE);
    assert_eq!(&bytes[..4], b"\xfdSMB");
    assert_eq!(bytes[4], 0x10);
    assert_eq!(&bytes[20..36], (1..17).collect::<Vec<u8>>().as_slice());
    assert_eq!(&bytes[36..40], &[0x34, 0x12, 0, 0]);
    assert_eq!(&bytes[40..44], &[0, 0, 1, 0]);
    assert_eq!(&bytes[44..52], &0x1122_3344_5566_7788u64.to_le_bytes());
    assert_eq!(header.aead_bytes(), bytes[20..].to_vec());
    assert_eq!(EncryptedHeader::read(&bytes), Some(header));
    assert_eq!(EncryptedHeader::read(&bytes[..51]), None);
}

#[test]
fn messages_beyond_the_size_field_are_refused() {
    assert_eq!(
        envelope(vec![0; 16], u32::MAX as usize + 1, 1),
        Err(EnvelopeError::TooLong)
    );
}
