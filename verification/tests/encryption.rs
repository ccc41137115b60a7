use wallet_core::encryption::{decrypt_secret, encrypt_secret, EncryptionKey, Keychain};
use wallet_core::error::Error;

#[test]
fn encrypt_decrypt_round_trip() {
    let dek = EncryptionKey::random().unwrap();
    let secret = b"very secret signing key bytes";
    let output = encrypt_secret(secret, &dek).unwrap();
    let recovered = decrypt_secret(&output, &dek).unwrap();
    assert_eq!(recovered.as_slice(), secret.as_slice());
}

#[test]
fn decryption_under_unrelated_dek_fails_fatal() {
    let dek_a = EncryptionKey::random().unwrap();
    let dek_b = EncryptionKey::random().unwrap();
    let secret = b"signing key";
    let output = encrypt_secret(secret, &dek_a).unwrap();
    let result = decrypt_secret(&output, &dek_b);
    assert!(matches!(result, Err(Error::Fatal { error: _ })));
}

#[test]
fn tampered_ciphertext_fails_fatal() {
    let dek = EncryptionKey::random().unwrap();
    let output = encrypt_secret(b"payload", &dek).unwrap();
    let mut ciphertext = output.ciphertext().clone();
    ciphertext[0] ^= 1;
    let tampered = wallet_core::encryption::EncryptionOutput::from_parts(
        output.kdf_nonce().duplicate(),
        output.aead_nonce().clone(),
        ciphertext,
    )
    .unwrap();
    let result = decrypt_secret(&tampered, &dek);
    assert!(matches!(result, Err(Error::Fatal { error: _ })));
}

#[test]
fn locked_keychain_fails_fatal() {
    let keychain = Keychain::locked();
    let result = keychain.get_sk_kek();
    assert!(matches!(result, Err(Error::Fatal { error: _ })));
}

#[test]
fn keychain_hands_back_the_kek() {
    let kek = EncryptionKey::random().unwrap();
    let copy = kek.duplicate();
    let keychain = Keychain::with_sk_kek(kek);
    let got = keychain.get_sk_kek().unwrap();
    assert_eq!(got.as_bytes(), copy.as_bytes());
}

#[test]
fn wrong_key_width_is_rejected() {
    let result = EncryptionKey::try_from_bytes(vec![0u8; 31]);
    assert!(matches!(result, Err(Error::Fatal { error: _ })));
}
