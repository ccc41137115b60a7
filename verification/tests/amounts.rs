use wallet_core::amounts::{
    parse_decimal_amount, FungibleToken, FungibleTokenAmount, U256,
};
use wallet_core::chain_id::ChainId;
use wallet_core::error::Error;

#[test]
fn one_token_with_18_decimals() {
    let v = parse_decimal_amount("1", 18).unwrap();
    assert_eq!(v, U256 { limb0: 1_000_000_000_000_000_000, limb1: 0, limb2: 0, limb3: 0 });
}

#[test]
fn fractional_amount_scales_exactly() {
    let v = parse_decimal_amount("1.5", 1).unwrap();
    assert_eq!(v, U256 { limb0: 15, limb1: 0, limb2: 0, limb3: 0 });
    let v = parse_decimal_amount("0.000000000000000001", 18).unwrap();
    assert_eq!(v, U256 { limb0: 1, limb1: 0, limb2: 0, limb3: 0 });
    let v = parse_decimal_amount("12.25", 4).unwrap();
    assert_eq!(v, U256 { limb0: 122500, limb1: 0, limb2: 0, limb3: 0 });
}

#[test]
fn amount_crossing_one_limb() {
    // 2^64 == 18446744073709551616 needs a second limb.
    let v = parse_decimal_amount("18446744073709551616", 0).unwrap();
    assert_eq!(v, U256 { limb0: 0, limb1: 1, limb2: 0, limb3: 0 });
}

#[test]
fn malformed_amounts_are_user_errors() {
    for text in ["", ".", "1.", ".5", "1..2", "1.2.3", "abc", "1a", "-1", "1,5"] {
        let result = parse_decimal_amount(text, 18);
        assert!(matches!(result, Err(Error::User { explanation: _ })), "{}", text);
    }
}

#[test]
fn too_many_fraction_digits_is_a_user_error() {
    let result = parse_decimal_amount("1.23", 1);
    assert!(matches!(result, Err(Error::User { explanation: _ })));
    let result = parse_decimal_amount("1.5", 0);
    assert!(matches!(result, Err(Error::User { explanation: _ })));
}

#[test]
fn overflowing_amount_is_rejected() {
    // 10^78 exceeds 256 bits.
    let mut text = String::from("1");
    for _ in 0..78 {
        text.push('0');
    }
    let result = parse_decimal_amount(&text, 0);
    assert!(matches!(result, Err(Error::User { explanation: _ })));
}

#[test]
fn largest_value_fits() {
    // 2^256 - 1 in decimal.
    let text = "115792089237316195423570985008687907853269984665640564039457584007913129639935";
    let v = parse_decimal_amount(text, 0).unwrap();
    assert_eq!(v, U256 {
        limb0: u64::MAX,
        limb1: u64::MAX,
        limb2: u64::MAX,
        limb3: u64::MAX,
    });
    // One more overflows.
    let text = "115792089237316195423570985008687907853269984665640564039457584007913129639936";
    assert!(parse_decimal_amount(text, 0).is_err());
}

#[test]
fn fungible_amount_uses_token_decimals() {
    let token = FungibleToken::new(ChainId(1), vec![0u8; 20], 6);
    let amount = FungibleTokenAmount::new_from_decimal(token, "2.5").unwrap();
    assert_eq!(amount.amount, U256 { limb0: 2_500_000, limb1: 0, limb2: 0, limb3: 0 });
}
