use wallet_core::checksum_address::{
    parse_checksum_address, public_key_to_checksum_address, validate_checksum_address,
};
use wallet_core::error::Error;

#[test]
fn checksum_address_is_ok() {
    let addr = "0x8b6B4C4BaEA2fE3615adB7fB9Ae2af2b67b0077a";
    validate_checksum_address(addr).unwrap();
}

#[test]
fn invalid_checksum_is_not_ok() {
    // Last char is changed from valid.
    let addr = "0x8b6B4C4BaEA2fE3615adB7fB9Ae2af2b67b0077b";
    let result = validate_checksum_address(addr);
    assert!(matches!(result, Err(Error::User { explanation: _ })));
}

#[test]
fn no_prefix_is_not_ok() {
    let addr = "8b6B4C4BaEA2fE3615adB7fB9Ae2af2b67b0077a";
    let result = validate_checksum_address(addr);
    assert!(matches!(result, Err(Error::User { explanation: _ })));
}

#[test]
fn lowercase_is_not_ok_for_checksum() {
    let addr = "0x8b6b4c4baea2fe3615adb7fb9ae2af2b67b0077a";
    let result = validate_checksum_address(addr);
    assert!(matches!(result, Err(Error::User { explanation: _ })));
}

#[test]
fn parse_returns_the_address_bytes() {
    let addr = "0x8b6B4C4BaEA2fE3615adB7fB9Ae2af2b67b0077a";
    let bytes = parse_checksum_address(addr).unwrap();
    assert_eq!(bytes.len(), 20);
    assert_eq!(bytes[0], 0x8b);
    assert_eq!(bytes[19], 0x7a);
}

#[test]
fn wrong_length_is_not_ok() {
    let result = validate_checksum_address("0x8b6B");
    assert!(matches!(result, Err(Error::User { explanation: _ })));
    let result = validate_checksum_address("");
    assert!(matches!(result, Err(Error::User { explanation: _ })));
}

#[test]
fn public_key_address_round_trips_through_validation() {
    // Uncompressed SEC1 public key of the secret scalar 1 on secp256k1; its
    // derived address text must validate as a canonical checksum address.
    let pk_hex = "0479be667ef9dcbbac55a06295ce870b07029bfcdb2dce28d959f2815b16f81798483ada7726a3c4655da4fbfc0e1108a8fd17b448a68554199c47d08ffb10d4b8";
    let mut pk = Vec::new();
    let mut i = 0;
    while i < pk_hex.len() {
        pk.push(u8::from_str_radix(&pk_hex[i..i + 2], 16).unwrap());
        i += 2;
    }
    let addr = public_key_to_checksum_address(&pk).unwrap();
    validate_checksum_address(&addr).unwrap();
    assert_eq!(addr.len(), 42);
}

#[test]
fn bad_public_key_is_fatal() {
    let result = public_key_to_checksum_address(&vec![1, 2, 3]);
    assert!(matches!(result, Err(Error::Fatal { error: _ })));
}
