use wallet_core::amounts::{NativeTokenAmount, U256};
use wallet_core::chain_id::ChainId;
use wallet_core::error::Error;
use wallet_core::rpc_provider::{display_tx_hash, RpcManager, RpcManagerI, RpcProvider};
use wallet_core::signing_key::{EthereumAsymmetricKey, SigningKey};

#[test]
fn chain_id_mismatch_fails_fatal_before_any_network_call() {
    let key = EthereumAsymmetricKey::random().unwrap();
    let signing = SigningKey::new(key, ChainId(1));
    let provider = RpcProvider::new(ChainId(1), String::new());
    let amount = NativeTokenAmount::new(ChainId(5), U256::from_u64(10));
    let to = signing.checksum_address();
    let result = provider.prepare_native_token_transfer(&signing, &to, &amount);
    assert!(matches!(result, Err(Error::Fatal { error: _ })));
}

#[test]
fn matching_chain_ids_pass_the_guard() {
    let key = EthereumAsymmetricKey::random().unwrap();
    let signing = SigningKey::new(key, ChainId(1));
    let provider = RpcProvider::new(ChainId(1), String::new());
    provider.verify_chain_ids(&signing, ChainId(1)).unwrap();
    let result = provider.verify_chain_ids(&signing, ChainId(5));
    assert!(matches!(result, Err(Error::Fatal { error: _ })));
}

#[test]
fn native_transfer_builds_for_a_valid_destination() {
    let key = EthereumAsymmetricKey::random().unwrap();
    let signing = SigningKey::new(key, ChainId(1));
    let provider = RpcProvider::new(ChainId(1), String::new());
    let amount = NativeTokenAmount::new(ChainId(1), U256::from_u64(7));
    let to = "0x8b6B4C4BaEA2fE3615adB7fB9Ae2af2b67b0077a";
    let tx = provider.prepare_native_token_transfer(&signing, to, &amount).unwrap();
    assert_eq!(tx.value, U256::from_u64(7));
    assert_eq!(tx.from.as_slice(), signing.address().as_slice());
    assert_eq!(tx.to[0], 0x8b);
}

#[test]
fn malformed_destination_is_a_user_error() {
    let key = EthereumAsymmetricKey::random().unwrap();
    let signing = SigningKey::new(key, ChainId(1));
    let provider = RpcProvider::new(ChainId(1), String::new());
    let amount = NativeTokenAmount::new(ChainId(1), U256::from_u64(7));
    let to = "0x8b6b4c4baea2fe3615adb7fb9ae2af2b67b0077a";
    let result = provider.prepare_native_token_transfer(&signing, to, &amount);
    assert!(matches!(result, Err(Error::User { explanation: _ })));
}

#[test]
fn malformed_contract_address_is_retriable() {
    let provider = RpcProvider::new(ChainId(1), String::new());
    let good = "0x8b6B4C4BaEA2fE3615adB7fB9Ae2af2b67b0077a";
    let bad = "0x8b6b4c4baea2fe3615adb7fb9ae2af2b67b0077a";
    // Contract address malformed: Retriable, not a user error.
    let result = provider.prepare_fungible_token_transfer(good, bad);
    assert!(matches!(result, Err(Error::Retriable { error: _ })));
    // Destination malformed: a user error.
    let result = provider.prepare_fungible_token_transfer(bad, good);
    assert!(matches!(result, Err(Error::User { explanation: _ })));
    // Both valid: the address bytes come back.
    let (contract, to) = provider.prepare_fungible_token_transfer(good, good).unwrap();
    assert_eq!(contract, to);
}

#[test]
fn fungible_transfer_converts_with_fetched_decimals() {
    let key = EthereumAsymmetricKey::random().unwrap();
    let signing = SigningKey::new(key, ChainId(1));
    let provider = RpcProvider::new(ChainId(1), String::new());
    let call = provider
        .build_fungible_token_transfer(&signing, vec![1u8; 20], vec![2u8; 20], 6, "3.25")
        .unwrap();
    assert_eq!(call.amount, U256 { limb0: 3_250_000, limb1: 0, limb2: 0, limb3: 0 });
    assert_eq!(call.to, vec![1u8; 20]);
    assert_eq!(call.contract, vec![2u8; 20]);
}

#[test]
fn tx_hash_display_is_full_width() {
    let mut hash = [0u8; 32];
    hash[31] = 0x1f;
    let text = display_tx_hash(&hash);
    assert_eq!(text.len(), 66);
    assert_eq!(
        text,
        "0x000000000000000000000000000000000000000000000000000000000000001f"
    );
    let text = display_tx_hash(&[0u8; 32]);
    assert_eq!(text.len(), 66);
}

#[test]
fn manager_binds_the_provider_to_the_chain() {
    let manager = RpcManager::new();
    let provider = manager.eth_api_provider(ChainId(1));
    assert_eq!(provider.chain_id, ChainId(1));
    assert_eq!(provider.http_endpoint, "https://rpc.ankr.com/eth");
    // A chain without a configured endpoint gets an empty endpoint text.
    let provider = manager.eth_api_provider(ChainId(424242));
    assert_eq!(provider.chain_id, ChainId(424242));
    assert!(provider.http_endpoint.is_empty());
}
