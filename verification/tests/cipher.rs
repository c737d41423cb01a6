use chacha20poly1305::aead::{Aead, KeyInit};
use plasma::cipher::{nonce_bytes, Cipher, CipherError};
use plasma::keys::X3dhSharedSecret;

fn cipher_random_key() -> Cipher {
    let bytes = rand::random::<[u8; 32]>();
    Cipher::new(X3dhSharedSecret::from_bytes(&bytes))
}

#[test]
fn enc_dec_correct() {
    let cipher = cipher_random_key();
    let message = String::from("message");
    let timestamp = 0u64;

    let encrypted = cipher.encrypt(&message, timestamp).unwrap();
    let decrypted = cipher.decrypt(&encrypted, timestamp).unwrap();

    assert_eq!(message, decrypted);
}

#[test]
fn enc_dec_different_timestamp() {
    let cipher = cipher_random_key();
    let message = String::from("message");
    let timestamp1 = 0u64;
    let timestamp2 = 1u64;

    let encrypted = cipher.encrypt(&message, timestamp1).unwrap();
    let decrypted_result = cipher.decrypt(&encrypted, timestamp2);

    assert!(decrypted_result.is_err());
}

#[test]
fn enc_dec_different_secret_key() {
    let cipher1 = cipher_random_key();
    let cipher2 = cipher_random_key();
    let message = String::from("message");
    let timestamp = 0u64;

    let encrypted = cipher1.encrypt(&message, timestamp).unwrap();
    let decrypted_result = cipher2.decrypt(&encrypted, timestamp);

    assert!(decrypted_result.is_err());
}

#[test]
fn nonce_is_the_timestamp_then_four_zero_bytes() {
    assert_eq!(nonce_bytes(0), vec![0u8; 12]);
    assert_eq!(nonce_bytes(0x0102030405060708), vec![8u8, 7, 6, 5, 4, 3, 2, 1, 0, 0, 0, 0]);
    assert_eq!(
        nonce_bytes(1_700_000_000_000_000),
        [&1_700_000_000_000_000u64.to_le_bytes()[..], &[0u8; 4][..]].concat()
    );
    assert_eq!(nonce_bytes(u64::MAX), vec![255u8, 255, 255, 255, 255, 255, 255, 255, 0, 0, 0, 0]);
}

#[test]
fn ciphertext_is_body_and_tag() {
    let cipher = cipher_random_key();
    assert_eq!(cipher.encrypt("hi", 7).unwrap().len(), 2 + 16);
    assert_eq!(cipher.encrypt("", 7).unwrap().len(), 16);
    assert_eq!(cipher.encrypt("é", 7).unwrap().len(), 2 + 16);
}

#[test]
fn known_answer() {
    // RFC 8439, section 2.8.2, without the associated data of the RFC: the
    // body is the keystream of ChaCha20 over the text, so it starts as there.
    let key: Vec<u8> = (0x80u8..0xa0).collect();
    let cipher = Cipher::new(X3dhSharedSecret::from_bytes(&key));
    let sealed = cipher.encrypt("hi", 1_700_000_000_000_000).unwrap();
    let reference = chacha20poly1305::ChaCha20Poly1305::new(chacha20poly1305::Key::from_slice(
        &key,
    ))
    .encrypt(
        chacha20poly1305::Nonce::from_slice(&nonce_bytes(1_700_000_000_000_000)),
        "hi".as_bytes(),
    )
    .unwrap();
    assert_eq!(sealed, reference);
    assert_ne!(&sealed[..2], "hi".as_bytes());
}

#[test]
fn every_flipped_bit_is_detected() {
    let cipher = cipher_random_key();
    let sealed = cipher.encrypt("hi", 42).unwrap();
    for i in 0..sealed.len() {
        for bit in 0..8 {
            let mut tampered = sealed.clone();
            tampered[i] ^= 1 << bit;
            assert_eq!(cipher.decrypt(&tampered, 42), Err(CipherError::DecryptionError));
        }
    }
    assert_eq!(cipher.decrypt(&sealed, 42), Ok(String::from("hi")));
}

#[test]
fn truncated_ciphertext_is_rejected() {
    let cipher = cipher_random_key();
    let sealed = cipher.encrypt("hello", 1).unwrap();
    assert_eq!(cipher.decrypt(&sealed[..sealed.len() - 1], 1), Err(CipherError::DecryptionError));
    assert_eq!(cipher.decrypt(&[], 1), Err(CipherError::DecryptionError));
    assert_eq!(cipher.decrypt(&[0u8; 15], 1), Err(CipherError::DecryptionError));
}

#[test]
fn secret_of_wrong_length_seals_and_opens_nothing() {
    let cipher = Cipher::new(X3dhSharedSecret::from_bytes(&[1u8; 31]));
    assert_eq!(cipher.encrypt("hi", 1), Err(CipherError::EncryptionError));
    assert_eq!(cipher.decrypt(&[0u8; 18], 1), Err(CipherError::DecryptionError));
    let cipher = Cipher::new(X3dhSharedSecret::from_bytes(&[]));
    assert_eq!(cipher.encrypt("hi", 1), Err(CipherError::EncryptionError));
}

#[test]
fn sealed_bytes_that_are_no_text_are_a_conversion_error() {
    let key = [9u8; 32];
    let sealed = chacha20poly1305::ChaCha20Poly1305::new(chacha20poly1305::Key::from_slice(&key))
        .encrypt(chacha20poly1305::Nonce::from_slice(&nonce_bytes(5)), &[0xffu8, 0xfe][..])
        .unwrap();
    let cipher = Cipher::new(X3dhSharedSecret::from_bytes(&key));
    assert_eq!(cipher.decrypt(&sealed, 5), Err(CipherError::ConversionError));
}

#[test]
fn cross_chat_isolation() {
    let with_bob = cipher_random_key();
    let with_dave = cipher_random_key();
    let sealed = with_bob.encrypt("for bob", 1_700_000_000_000_000).unwrap();
    assert_eq!(with_dave.decrypt(&sealed, 1_700_000_000_000_000), Err(CipherError::DecryptionError));
    assert_eq!(with_bob.decrypt(&sealed, 1_700_000_000_000_000), Ok(String::from("for bob")));
}
