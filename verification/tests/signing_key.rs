use k256::ecdsa::{RecoveryId, Signature, VerifyingKey};
use wallet_core::chain_id::ChainId;
use wallet_core::signing_key::{EthereumAsymmetricKey, SigningKey};

#[test]
fn signature_recovers_to_the_signing_key() {
    let key = EthereumAsymmetricKey::random().unwrap();
    let expected = key.public_key().clone();
    let signing = SigningKey::new(key, ChainId(1));
    let digest = vec![7u8; 32];
    let sig = signing.sign_prehash(&digest).unwrap();
    assert_eq!(sig.len(), 65);
    let signature = Signature::from_slice(&sig[..64]).unwrap();
    let recovery_id = RecoveryId::from_byte(sig[64]).unwrap();
    let recovered = VerifyingKey::recover_from_prehash(&digest, &signature, recovery_id).unwrap();
    let point = <k256::AffinePoint as k256::elliptic_curve::sec1::ToSec1Point<
        k256::Secp256k1,
    >>::to_uncompressed_point(recovered.as_affine());
    assert_eq!(point.as_slice(), expected.as_slice());
}

#[test]
fn signing_is_deterministic() {
    let key = EthereumAsymmetricKey::random().unwrap();
    let signing = SigningKey::new(key, ChainId(1));
    let digest = vec![9u8; 32];
    let a = signing.sign_prehash(&digest).unwrap();
    let b = signing.sign_prehash(&digest).unwrap();
    assert_eq!(a, b);
}

#[test]
fn address_text_matches_the_key() {
    let key = EthereumAsymmetricKey::random().unwrap();
    let signing = SigningKey::new(key, ChainId(1));
    let text = signing.checksum_address();
    assert_eq!(text.len(), 42);
    assert!(text.starts_with("0x"));
    wallet_core::checksum_address::validate_checksum_address(&text).unwrap();
}
