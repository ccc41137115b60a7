use wallet_core::error::Error;
use wallet_core::kdf_nonce::KdfNonce;

#[test]
fn encode_decode() {
    let nonce = KdfNonce::random().unwrap();
    let nonce_str: String = nonce.encode();
    assert_eq!(nonce_str.len(), 24);
    let parsed_nonce: KdfNonce = KdfNonce::decode(&nonce_str).unwrap();
    assert_eq!(nonce.as_bytes(), parsed_nonce.as_bytes());
}

#[test]
fn decode_rejects_non_base64() {
    let result = KdfNonce::decode("not base64!!");
    assert!(matches!(result, Err(Error::Fatal { error: _ })));
}

#[test]
fn decode_rejects_wrong_width() {
    // Valid base64, but of 3 bytes rather than 16.
    let result = KdfNonce::decode("AAAA");
    assert!(matches!(result, Err(Error::Fatal { error: _ })));
}

#[test]
fn try_from_bytes_requires_exact_width() {
    assert!(KdfNonce::try_from_bytes(vec![0u8; 16]).is_ok());
    let result = KdfNonce::try_from_bytes(vec![0u8; 15]);
    assert!(matches!(result, Err(Error::Fatal { error: _ })));
}

#[test]
fn encoding_is_standard_base64() {
    let nonce = KdfNonce::try_from_bytes(vec![0u8; 16]).unwrap();
    assert_eq!(nonce.encode(), "AAAAAAAAAAAAAAAAAAAAAA==");
    let nonce = KdfNonce::try_from_bytes((0u8..16).collect()).unwrap();
    assert_eq!(nonce.encode(), "AAECAwQFBgcICQoLDA0ODw==");
    let back = KdfNonce::decode("AAECAwQFBgcICQoLDA0ODw==").unwrap();
    assert_eq!(back.as_bytes(), (0u8..16).collect::<Vec<u8>>().as_slice());
}
