use wallet_core::chain_id::ChainId;
use wallet_core::checksum_address::validate_checksum_address;
use wallet_core::encryption::{EncryptionKey, Keychain};
use wallet_core::error::Error;
use wallet_core::models::{
    Address, AddressEntity, Chain, DataEncryptionKey, ListAddressesForDappParams, NewAddress,
    WalletDb,
};

fn test_keychain() -> Keychain {
    Keychain::with_sk_kek(EncryptionKey::random().unwrap())
}

#[test]
fn create_key_and_address_populates_the_store() {
    let mut db = WalletDb::new();
    let keychain = test_keychain();
    let address_id =
        Address::create_eth_key_and_address(&mut db, &keychain, "account-1", ChainId(1), None, true)
            .unwrap();
    assert_eq!(db.addresses.len(), 1);
    assert_eq!(db.asymmetric_keys.len(), 1);
    assert_eq!(db.chains.len(), 1);
    assert_eq!(db.data_encryption_keys.len(), 1);
    assert_eq!(db.addresses[0].deterministic_id, address_id);
    assert_eq!(db.asymmetric_keys[0].account_id, "account-1");
    assert!(db.asymmetric_keys[0].is_account_wallet);
    // The stored address text is a canonical checksum address.
    validate_checksum_address(&db.addresses[0].address).unwrap();
}

#[test]
fn fetch_or_create_address_is_idempotent() {
    let mut db = WalletDb::new();
    let keychain = test_keychain();
    let address_id =
        Address::create_eth_key_and_address(&mut db, &keychain, "acct", ChainId(1), None, true)
            .unwrap();
    let key_id = Address::fetch_key_id(&db, &address_id).unwrap();
    let chain_entity_id = db.chains[0].deterministic_id.clone();
    let entity = AddressEntity { asymmetric_key_id: key_id, chain_entity_id };
    let first = Address::fetch_or_create_for_eth_chain(&mut db, &entity).unwrap();
    let rows_after_first = db.addresses.len();
    let second = Address::fetch_or_create_for_eth_chain(&mut db, &entity).unwrap();
    assert_eq!(first, second);
    assert_eq!(first, address_id);
    assert_eq!(db.addresses.len(), rows_after_first);
    assert_eq!(db.addresses.len(), 1);
}

#[test]
fn fetch_or_create_creates_for_a_new_chain() {
    let mut db = WalletDb::new();
    let keychain = test_keychain();
    let address_id =
        Address::create_eth_key_and_address(&mut db, &keychain, "acct", ChainId(1), None, true)
            .unwrap();
    let key_id = Address::fetch_key_id(&db, &address_id).unwrap();
    let other_chain = Chain::fetch_or_create_eth_chain_id(&mut db, ChainId(137));
    let entity = AddressEntity { asymmetric_key_id: key_id, chain_entity_id: other_chain };
    let new_id = Address::fetch_or_create_for_eth_chain(&mut db, &entity).unwrap();
    assert_ne!(new_id, address_id);
    assert_eq!(db.addresses.len(), 2);
    // Both rows carry the same checksum address text: same key, any chain.
    assert_eq!(db.addresses[0].address, db.addresses[1].address);
}

#[test]
fn signing_key_comes_back_bound_to_the_chain() {
    let mut db = WalletDb::new();
    let keychain = test_keychain();
    let address_id =
        Address::create_eth_key_and_address(&mut db, &keychain, "acct", ChainId(137), None, true)
            .unwrap();
    let signing_key = Address::fetch_eth_signing_key(&db, &keychain, &address_id).unwrap();
    assert_eq!(signing_key.chain_id(), ChainId(137));
    // The recovered key derives the stored address text.
    assert_eq!(signing_key.checksum_address(), db.addresses[0].address);
}

#[test]
fn signing_key_is_unrecoverable_without_the_kek() {
    let mut db = WalletDb::new();
    let keychain = test_keychain();
    let address_id =
        Address::create_eth_key_and_address(&mut db, &keychain, "acct", ChainId(1), None, true)
            .unwrap();
    let wrong_keychain = test_keychain();
    let result = Address::fetch_eth_signing_key(&db, &wrong_keychain, &address_id);
    assert!(matches!(result, Err(Error::Fatal { error: _ })));
}

#[test]
fn lookups_project_the_rows() {
    let mut db = WalletDb::new();
    let keychain = test_keychain();
    let address_id =
        Address::create_eth_key_and_address(&mut db, &keychain, "acct", ChainId(1), None, true)
            .unwrap();
    assert_eq!(Address::fetch_account_id(&db, &address_id).unwrap(), "acct");
    let text = Address::fetch_address(&db, &address_id).unwrap();
    assert_eq!(text, db.addresses[0].address);
    assert_eq!(Address::fetch_eth_chain_id(&db, &address_id).unwrap(), ChainId(1));
    let wallet_id = Address::fetch_eth_wallet_id(&mut db, "acct", ChainId(1)).unwrap();
    assert_eq!(wallet_id, address_id);
    // Reverse lookup: ours comes back, a foreign address is None, not an error.
    let found = Address::fetch_account_id_for_eth_address(&db, &text).unwrap();
    assert_eq!(found.as_deref(), Some("acct"));
    let foreign = Address::fetch_account_id_for_eth_address(
        &db,
        "0x8b6B4C4BaEA2fE3615adB7fB9Ae2af2b67b0077a",
    )
    .unwrap();
    assert!(foreign.is_none());
    // A malformed address text is a user error, not "unknown".
    let bad = Address::fetch_account_id_for_eth_address(&db, "nonsense");
    assert!(matches!(bad, Err(Error::User { explanation: _ })));
}

#[test]
fn unknown_address_id_is_not_found() {
    let db = WalletDb::new();
    let result = Address::fetch_key_id(&db, "missing");
    assert!(matches!(result, Err(Error::Fatal { error: _ })));
    let result = Address::fetch_account_id(&db, "missing");
    assert!(matches!(result, Err(Error::Fatal { error: _ })));
    let keychain = test_keychain();
    let result = Address::fetch_eth_signing_key(&db, &keychain, "missing");
    assert!(matches!(result, Err(Error::Fatal { error: _ })));
}

#[test]
fn inserting_the_same_address_twice_fails() {
    let mut db = WalletDb::new();
    let keychain = test_keychain();
    let address_id =
        Address::create_eth_key_and_address(&mut db, &keychain, "acct", ChainId(1), None, true)
            .unwrap();
    let key_id = Address::fetch_key_id(&db, &address_id).unwrap();
    let text = Address::fetch_address(&db, &address_id).unwrap();
    let new_address = NewAddress { asymmetric_key_id: key_id, address: text };
    let result = new_address.insert_eth(&mut db, ChainId(1));
    assert!(matches!(result, Err(Error::Fatal { error: _ })));
    assert_eq!(db.addresses.len(), 1);
}

#[test]
fn list_account_wallets_filters_by_account_and_flag() {
    let mut db = WalletDb::new();
    let keychain = test_keychain();
    Address::create_eth_key_and_address(&mut db, &keychain, "a1", ChainId(1), None, true).unwrap();
    Address::create_eth_key_and_address(&mut db, &keychain, "a1", ChainId(1), Some("dapp-1"), false)
        .unwrap();
    Address::create_eth_key_and_address(&mut db, &keychain, "a2", ChainId(1), None, true).unwrap();
    let wallets = Address::list_account_wallets(&db, "a1");
    assert_eq!(wallets.len(), 1);
    let all = Address::list_all(&db);
    assert_eq!(all.len(), 3);
}

#[test]
fn list_for_dapp_needs_the_dapp_row() {
    let mut db = WalletDb::new();
    let keychain = test_keychain();
    Address::create_eth_key_and_address(&mut db, &keychain, "a1", ChainId(1), Some("dapp-1"), false)
        .unwrap();
    let params = ListAddressesForDappParams {
        account_id: "a1".to_string(),
        dapp_id: "dapp-1".to_string(),
    };
    // Inner-join semantics: without the dapp row, nothing comes back.
    assert_eq!(Address::list_for_dapp(&db, &params).len(), 0);
    db.dapps.push(wallet_core::models::Dapp { deterministic_id: "dapp-1".to_string() });
    assert_eq!(Address::list_for_dapp(&db, &params).len(), 1);
}

#[test]
fn dek_fetch_or_create_round_trips() {
    let mut db = WalletDb::new();
    let kek = EncryptionKey::random().unwrap();
    let (id1, dek1) = DataEncryptionKey::fetch_or_create_dek(&mut db, "sk-dek", &kek).unwrap();
    assert_eq!(db.data_encryption_keys.len(), 1);
    let (id2, dek2) = DataEncryptionKey::fetch_or_create_dek(&mut db, "sk-dek", &kek).unwrap();
    assert_eq!(id1, id2);
    assert_eq!(dek1.as_bytes(), dek2.as_bytes());
    assert_eq!(db.data_encryption_keys.len(), 1);
    // Fetch-only sees the same DEK.
    let (id3, dek3) = DataEncryptionKey::fetch_dek(&db, "sk-dek", &kek).unwrap();
    assert_eq!(id1, id3);
    assert_eq!(dek1.as_bytes(), dek3.as_bytes());
}

#[test]
fn dek_does_not_decrypt_under_a_foreign_kek() {
    let mut db = WalletDb::new();
    let kek = EncryptionKey::random().unwrap();
    DataEncryptionKey::fetch_or_create_dek(&mut db, "sk-dek", &kek).unwrap();
    let other = EncryptionKey::random().unwrap();
    let result = DataEncryptionKey::fetch_dek(&db, "sk-dek", &other);
    assert!(matches!(result, Err(Error::Fatal { error: _ })));
}

#[test]
fn create_fails_without_a_keychain_and_leaves_no_rows() {
    let mut db = WalletDb::new();
    let keychain = Keychain::locked();
    let result =
        Address::create_eth_key_and_address(&mut db, &keychain, "acct", ChainId(1), None, true);
    assert!(matches!(result, Err(Error::Fatal { error: _ })));
    assert_eq!(db.addresses.len(), 0);
    assert_eq!(db.asymmetric_keys.len(), 0);
}
