use vstd::prelude::*;

use crate::chain_id::ChainId;
use crate::checksum_address::checksum_address_chars;
use crate::checksum_address::eth_address_of_public_key;
use crate::checksum_address::public_key_to_checksum_address;
use crate::clock::rfc3339_timestamp;
use crate::deterministic_id::{
    columns_of_strings, compute_deterministic_id, deterministic_id_chars, EntityName,
};
use crate::encryption::{
    decrypt_secret, encrypt_secret, seals, EncryptionKey, EncryptionOutput, EncryptionOutputV,
    Keychain,
};
use crate::error::Error;
use crate::hexfmt::{bytes_to_lower_hex, lower_hex_chars};
use crate::signing_key::{
    secp256k1_public_key, secp256k1_valid_scalar, EllipticCurve, EthereumAsymmetricKey, SigningKey,
};
use crate::text::chars_to_string;

use vstd::bytes::{spec_u64_to_le_bytes, u64_to_le_bytes};

verus! {

/// The chain protocols the storage model can describe.
#[derive(Clone, Copy, Debug, PartialEq, Eq, Structural)]
pub enum BlockchainProtocol {
    Ethereum,
}

/// The well-known name of the data-encryption-key that protects all signing
/// keys.
pub const SK_DEK_NAME: &'static str = "sk-dek";

/// A chain-specific, checksum-formatted address row of one signing key.
pub struct Address {
    pub deterministic_id: String,
    pub asymmetric_key_id: String,
    pub chain_id: String,
    pub address: String,
    pub created_at: String,
    pub updated_at: Option<String>,
}

/// Spec-level value of an `Address` row.
pub struct AddressV {
    pub deterministic_id: Seq<char>,
    pub asymmetric_key_id: Seq<char>,
    pub chain_id: Seq<char>,
    pub address: Seq<char>,
    pub created_at: Seq<char>,
    pub updated_at: Option<Seq<char>>,
}

impl View for Address {
    type V = AddressV;

    open spec fn view(&self) -> AddressV {
        AddressV {
            deterministic_id: self.deterministic_id@,
            asymmetric_key_id: self.asymmetric_key_id@,
            chain_id: self.chain_id@,
            address: self.address@,
            created_at: self.created_at@,
            updated_at: match self.updated_at {
                Some(ref u) => Some(u@),
                None => None,
            },
        }
    }
}

impl Address {
    /// An identical copy of the row.
    pub fn duplicate(&self) -> (r: Address)
        ensures
            r@ == self@,
    {
        Address {
            deterministic_id: self.deterministic_id.clone(),
            asymmetric_key_id: self.asymmetric_key_id.clone(),
            chain_id: self.chain_id.clone(),
            address: self.address.clone(),
            created_at: self.created_at.clone(),
            updated_at: match &self.updated_at {
                Some(u) => Some(u.clone()),
                None => None,
            },
        }
    }
}

/// A signing key row: the owning account, the DEK that protects it, the
/// public key and the encrypted private key. Plaintext key bytes are never
/// stored.
pub struct AsymmetricKey {
    pub deterministic_id: String,
    pub account_id: String,
    pub dek_id: String,
    pub elliptic_curve: EllipticCurve,
    pub public_key: Vec<u8>,
    pub encrypted_der: EncryptionOutput,
    pub dapp_id: Option<String>,
    pub is_account_wallet: bool,
    pub created_at: String,
}

/// Spec-level value of an `AsymmetricKey` row.
pub struct AsymmetricKeyV {
    pub deterministic_id: Seq<char>,
    pub account_id: Seq<char>,
    pub dek_id: Seq<char>,
    pub elliptic_curve: EllipticCurve,
    pub public_key: Seq<u8>,
    pub encrypted_der: EncryptionOutputV,
    pub dapp_id: Option<Seq<char>>,
    pub is_account_wallet: bool,
    pub created_at: Seq<char>,
}

impl View for AsymmetricKey {
    type V = AsymmetricKeyV;

    open spec fn view(&self) -> AsymmetricKeyV {
        AsymmetricKeyV {
            deterministic_id: self.deterministic_id@,
            account_id: self.account_id@,
            dek_id: self.dek_id@,
            elliptic_curve: self.elliptic_curve,
            public_key: self.public_key@,
            encrypted_der: self.encrypted_der@,
            dapp_id: match self.dapp_id {
                Some(ref d) => Some(d@),
                None => None,
            },
            is_account_wallet: self.is_account_wallet,
            created_at: self.created_at@,
        }
    }
}

/// A chain network row, created lazily the first time a chain id is
/// referenced and immutable thereafter.
pub struct Chain {
    pub deterministic_id: String,
    pub protocol: BlockchainProtocol,
    pub protocol_chain_id: ChainId,
    pub created_at: String,
}

/// Spec-level value of a `Chain` row.
pub struct ChainV {
    pub deterministic_id: Seq<char>,
    pub protocol: BlockchainProtocol,
    pub protocol_chain_id: ChainId,
    pub created_at: Seq<char>,
}

impl View for Chain {
    type V = ChainV;

    open spec fn view(&self) -> ChainV {
        ChainV {
            deterministic_id: self.deterministic_id@,
            protocol: self.protocol,
            protocol_chain_id: self.protocol_chain_id,
            created_at: self.created_at@,
        }
    }
}

/// A data-encryption-key row: the DEK ciphertext under the KEK, fetched by
/// name and decrypted on demand.
pub struct DataEncryptionKey {
    pub deterministic_id: String,
    pub name: String,
    pub encrypted_dek: EncryptionOutput,
    pub created_at: String,
}

/// Spec-level value of a `DataEncryptionKey` row.
pub struct DataEncryptionKeyV {
    pub deterministic_id: Seq<char>,
    pub name: Seq<char>,
    pub encrypted_dek: EncryptionOutputV,
    pub created_at: Seq<char>,
}

impl View for DataEncryptionKey {
    type V = DataEncryptionKeyV;

    open spec fn view(&self) -> DataEncryptionKeyV {
        DataEncryptionKeyV {
            deterministic_id: self.deterministic_id@,
            name: self.name@,
            encrypted_dek: self.encrypted_dek@,
            created_at: self.created_at@,
        }
    }
}

/// A dapp row; only its identity takes part in the joins this core makes.
pub struct Dapp {
    pub deterministic_id: String,
}

impl View for Dapp {
    type V = Seq<char>;

    open spec fn view(&self) -> Seq<char> {
        self.deterministic_id@
    }
}

/// The deterministic id of an `Address` entity, derived from its key and
/// chain entity ids.
pub open spec fn address_entity_id_chars(
    asymmetric_key_id: Seq<char>,
    chain_entity_id: Seq<char>,
) -> Seq<char> {
    deterministic_id_chars(
        EntityName::Address,
        columns_of_strings(seq![asymmetric_key_id, chain_entity_id]),
    )
}

/// The column text a numeric chain id is identified by.
pub open spec fn chain_id_column_chars(id: ChainId) -> Seq<char> {
    lower_hex_chars(spec_u64_to_le_bytes(id.0))
}

/// The deterministic id of a `Chain` entity, derived from its protocol and
/// numeric chain id.
pub open spec fn chain_entity_id_chars(id: ChainId) -> Seq<char> {
    deterministic_id_chars(
        EntityName::Chain,
        columns_of_strings(seq!["ethereum"@, chain_id_column_chars(id)]),
    )
}

/// The deterministic id of a `DataEncryptionKey` entity, derived from its
/// name.
pub open spec fn dek_entity_id_chars(name: Seq<char>) -> Seq<char> {
    deterministic_id_chars(EntityName::DataEncryptionKey, columns_of_strings(seq![name]))
}

/// The transactional relational store of the trust core, held as typed
/// tables with explicit queries. The deterministic-id uniqueness invariant
/// is the concurrency control that makes fetch-or-create idempotent.
pub struct WalletDb {
    pub addresses: Vec<Address>,
    pub asymmetric_keys: Vec<AsymmetricKey>,
    pub chains: Vec<Chain>,
    pub data_encryption_keys: Vec<DataEncryptionKey>,
    pub dapps: Vec<Dapp>,
}

/// Spec-level value of the store.
pub struct WalletDbV {
    pub addresses: Seq<AddressV>,
    pub asymmetric_keys: Seq<AsymmetricKeyV>,
    pub chains: Seq<ChainV>,
    pub data_encryption_keys: Seq<DataEncryptionKeyV>,
    pub dapps: Seq<Seq<char>>,
}

impl View for WalletDb {
    type V = WalletDbV;

    open spec fn view(&self) -> WalletDbV {
        WalletDbV {
            addresses: self.addresses@.map_values(|a: Address| a@),
            asymmetric_keys: self.asymmetric_keys@.map_values(|k: AsymmetricKey| k@),
            chains: self.chains@.map_values(|c: Chain| c@),
            data_encryption_keys: self.data_encryption_keys@.map_values(
                |d: DataEncryptionKey| d@,
            ),
            dapps: self.dapps@.map_values(|d: Dapp| d@),
        }
    }
}

/// The store's invariant: deterministic ids are unique within each table,
/// and each id is consistent with the row's own unique columns, so that
/// re-deriving an id for the same columns always lands on the same row.
/// Stored public keys are well-formed uncompressed SEC1 encodings.
pub open spec fn db_wf(db: WalletDbV) -> bool {
    &&& (forall|p: int, q: int|
        0 <= p < q < db.addresses.len() ==> db.addresses[p].deterministic_id
            != db.addresses[q].deterministic_id)
    &&& (forall|p: int, q: int|
        0 <= p < q < db.asymmetric_keys.len() ==> db.asymmetric_keys[p].deterministic_id
            != db.asymmetric_keys[q].deterministic_id)
    &&& (forall|p: int, q: int|
        0 <= p < q < db.chains.len() ==> db.chains[p].deterministic_id
            != db.chains[q].deterministic_id)
    &&& (forall|p: int, q: int|
        0 <= p < q < db.data_encryption_keys.len() ==> db.data_encryption_keys[p].deterministic_id
            != db.data_encryption_keys[q].deterministic_id)
    &&& (forall|p: int, q: int|
        0 <= p < q < db.dapps.len() ==> db.dapps[p] != db.dapps[q])
    &&& (forall|p: int|
        0 <= p < db.addresses.len() ==> #[trigger] db.addresses[p].deterministic_id
            == address_entity_id_chars(
            db.addresses[p].asymmetric_key_id,
            db.addresses[p].chain_id,
        ))
    &&& (forall|p: int|
        0 <= p < db.chains.len() ==> #[trigger] db.chains[p].deterministic_id
            == chain_entity_id_chars(db.chains[p].protocol_chain_id) && db.chains[p].protocol
            == BlockchainProtocol::Ethereum)
    &&& (forall|p: int|
        0 <= p < db.data_encryption_keys.len()
            ==> #[trigger] db.data_encryption_keys[p].deterministic_id == dek_entity_id_chars(
            db.data_encryption_keys[p].name,
        ))
    &&& (forall|p: int|
        0 <= p < db.asymmetric_keys.len() ==> (#[trigger] db.asymmetric_keys[p].public_key).len()
            == 65 && db.asymmetric_keys[p].public_key[0] == 4)
}

impl WalletDb {
    /// The store's invariant.
    pub open spec fn wf(&self) -> bool {
        db_wf(self@)
    }

    /// An empty store.
    pub fn new() -> (r: WalletDb)
        ensures
            r.wf(),
            r@.addresses.len() == 0,
            r@.asymmetric_keys.len() == 0,
            r@.chains.len() == 0,
            r@.data_encryption_keys.len() == 0,
            r@.dapps.len() == 0,
    {
        let db = WalletDb {
            addresses: Vec::new(),
            asymmetric_keys: Vec::new(),
            chains: Vec::new(),
            data_encryption_keys: Vec::new(),
            dapps: Vec::new(),
        };
        proof {
            assert(db@.addresses.len() == 0);
            assert(db@.asymmetric_keys.len() == 0);
            assert(db@.chains.len() == 0);
            assert(db@.data_encryption_keys.len() == 0);
            assert(db@.dapps.len() == 0);
        }
        db
    }
}

/// Index of the address row with the given id, or `None` when there is none.
fn find_address_index(db: &WalletDb, id: &str) -> (r: Option<usize>)
    ensures
        match r {
            Some(i) => i < db@.addresses.len() && db@.addresses[i as int].deterministic_id == id@,
            None => forall|j: int|
                0 <= j < db@.addresses.len() ==> db@.addresses[j].deterministic_id != id@,
        },
{
    let key = String::from_str(id);
    let mut j: usize = 0;
    while j < db.addresses.len()
        invariant
            key@ == id@,
            j <= db@.addresses.len(),
            db@.addresses.len() == db.addresses@.len(),
            forall|p: int| 0 <= p < j ==> db@.addresses[p].deterministic_id != id@,
        decreases db.addresses@.len() - j,
    {
        if db.addresses[j].deterministic_id.eq(&key) {
            return Some(j);
        }
        j = j + 1;
    }
    None
}

/// Index of the key row with the given id, or `None` when there is none.
fn find_key_index(db: &WalletDb, id: &str) -> (r: Option<usize>)
    ensures
        match r {
            Some(i) => i < db@.asymmetric_keys.len() && db@.asymmetric_keys[i as int].deterministic_id
                == id@,
            None => forall|j: int|
                0 <= j < db@.asymmetric_keys.len() ==> db@.asymmetric_keys[j].deterministic_id
                    != id@,
        },
{
    let key = String::from_str(id);
    let mut j: usize = 0;
    while j < db.asymmetric_keys.len()
        invariant
            key@ == id@,
            j <= db@.asymmetric_keys.len(),
            db@.asymmetric_keys.len() == db.asymmetric_keys@.len(),
            forall|p: int| 0 <= p < j ==> db@.asymmetric_keys[p].deterministic_id != id@,
        decreases db.asymmetric_keys@.len() - j,
    {
        if db.asymmetric_keys[j].deterministic_id.eq(&key) {
            return Some(j);
        }
        j = j + 1;
    }
    None
}

/// Index of the chain row with the given id, or `None` when there is none.
fn find_chain_index(db: &WalletDb, id: &str) -> (r: Option<usize>)
    ensures
        match r {
            Some(i) => i < db@.chains.len() && db@.chains[i as int].deterministic_id == id@,
            None => forall|j: int|
                0 <= j < db@.chains.len() ==> db@.chains[j].deterministic_id != id@,
        },
{
    let key = String::from_str(id);
    let mut j: usize = 0;
    while j < db.chains.len()
        invariant
            key@ == id@,
            j <= db@.chains.len(),
            db@.chains.len() == db.chains@.len(),
            forall|p: int| 0 <= p < j ==> db@.chains[p].deterministic_id != id@,
        decreases db.chains@.len() - j,
    {
        if db.chains[j].deterministic_id.eq(&key) {
            return Some(j);
        }
        j = j + 1;
    }
    None
}

/// Index of the DEK row with the given name, or `None` when there is none.
fn find_dek_index_by_name(db: &WalletDb, name: &str) -> (r: Option<usize>)
    ensures
        match r {
            Some(i) => i < db@.data_encryption_keys.len()
                && db@.data_encryption_keys[i as int].name == name@,
            None => forall|j: int|
                0 <= j < db@.data_encryption_keys.len() ==> db@.data_encryption_keys[j].name
                    != name@,
        },
{
    let key = String::from_str(name);
    let mut j: usize = 0;
    while j < db.data_encryption_keys.len()
        invariant
            key@ == name@,
            j <= db@.data_encryption_keys.len(),
            db@.data_encryption_keys.len() == db.data_encryption_keys@.len(),
            forall|p: int| 0 <= p < j ==> db@.data_encryption_keys[p].name != name@,
        decreases db.data_encryption_keys@.len() - j,
    {
        if db.data_encryption_keys[j].name.eq(&key) {
            return Some(j);
        }
        j = j + 1;
    }
    None
}

/// Index of the DEK row with the given id, or `None` when there is none.
fn find_dek_index_by_id(db: &WalletDb, id: &str) -> (r: Option<usize>)
    ensures
        match r {
            Some(i) => i < db@.data_encryption_keys.len()
                && db@.data_encryption_keys[i as int].deterministic_id == id@,
            None => forall|j: int|
                0 <= j < db@.data_encryption_keys.len()
                    ==> db@.data_encryption_keys[j].deterministic_id != id@,
        },
{
    let key = String::from_str(id);
    let mut j: usize = 0;
    while j < db.data_encryption_keys.len()
        invariant
            key@ == id@,
            j <= db@.data_encryption_keys.len(),
            db@.data_encryption_keys.len() == db.data_encryption_keys@.len(),
            forall|p: int| 0 <= p < j ==> db@.data_encryption_keys[p].deterministic_id != id@,
        decreases db.data_encryption_keys@.len() - j,
    {
        if db.data_encryption_keys[j].deterministic_id.eq(&key) {
            return Some(j);
        }
        j = j + 1;
    }
    None
}

/// Index of the dapp row with the given id, or `None` when there is none.
fn find_dapp_index(db: &WalletDb, id: &str) -> (r: Option<usize>)
    ensures
        match r {
            Some(i) => i < db@.dapps.len() && db@.dapps[i as int] == id@,
            None => forall|j: int| 0 <= j < db@.dapps.len() ==> db@.dapps[j] != id@,
        },
{
    let key = String::from_str(id);
    let mut j: usize = 0;
    while j < db.dapps.len()
        invariant
            key@ == id@,
            j <= db@.dapps.len(),
            db@.dapps.len() == db.dapps@.len(),
            forall|p: int| 0 <= p < j ==> db@.dapps[p] != id@,
        decreases db.dapps@.len() - j,
    {
        if db.dapps[j].deterministic_id.eq(&key) {
            return Some(j);
        }
        j = j + 1;
    }
    None
}


/// There is a chain row with the given deterministic id.
pub open spec fn has_chain_with_id(db: WalletDbV, id: Seq<char>) -> bool {
    exists|p: int| 0 <= p < db.chains.len() && (#[trigger] db.chains[p]).deterministic_id == id
}

/// There is an address row with the given deterministic id.
pub open spec fn has_address_with_id(db: WalletDbV, id: Seq<char>) -> bool {
    exists|p: int|
        0 <= p < db.addresses.len() && (#[trigger] db.addresses[p]).deterministic_id == id
}

/// There is a key row with the given deterministic id.
pub open spec fn has_key_with_id(db: WalletDbV, id: Seq<char>) -> bool {
    exists|p: int|
        0 <= p < db.asymmetric_keys.len() && (#[trigger] db.asymmetric_keys[p]).deterministic_id
            == id
}

impl Chain {
    /// Returns the deterministic id of the chain row for this numeric chain
    /// id, inserting the row first when it does not exist yet. The store is
    /// otherwise untouched, and a second call finds the row the first one
    /// made.
    pub fn fetch_or_create_eth_chain_id(db: &mut WalletDb, eth_chain_id: ChainId) -> (r: String)
        requires
            old(db).wf(),
        ensures
            final(db).wf(),
            r@ == chain_entity_id_chars(eth_chain_id),
            has_chain_with_id(final(db)@, r@),
            final(db)@.addresses == old(db)@.addresses,
            final(db)@.asymmetric_keys == old(db)@.asymmetric_keys,
            final(db)@.data_encryption_keys == old(db)@.data_encryption_keys,
            final(db)@.dapps == old(db)@.dapps,
            has_chain_with_id(old(db)@, r@) ==> final(db)@.chains == old(db)@.chains,
            !has_chain_with_id(old(db)@, r@) ==> final(db)@.chains.len() == old(db)@.chains.len()
                + 1 && final(db)@.chains.take(old(db)@.chains.len() as int) == old(db)@.chains,
    {
        let id = chain_deterministic_id(eth_chain_id);
        match find_chain_index(db, id.as_str()) {
            Some(_) => {
                proof {
                    assert(has_chain_with_id(db@, id@));
                }
                id
            },
            None => {
                let ghost oldv = db@;
                let row = Chain {
                    deterministic_id: id.clone(),
                    protocol: BlockchainProtocol::Ethereum,
                    protocol_chain_id: eth_chain_id,
                    created_at: rfc3339_timestamp(),
                };
                let ghost rowv = row@;
                db.chains.push(row);
                proof {
                    assert(db@.chains =~= oldv.chains.push(rowv));
                    assert(db@.addresses =~= oldv.addresses);
                    assert(db@.asymmetric_keys =~= oldv.asymmetric_keys);
                    assert(db@.data_encryption_keys =~= oldv.data_encryption_keys);
                    assert(db@.dapps =~= oldv.dapps);
                    assert(db@.chains.take(oldv.chains.len() as int) =~= oldv.chains);
                    assert(db@.chains[oldv.chains.len() as int].deterministic_id == id@);
                    assert(has_chain_with_id(db@, id@));
                    assert(db.wf());
                }
                id
            },
        }
    }
}

/// The deterministic id of the chain row for a numeric chain id.
fn chain_deterministic_id(eth_chain_id: ChainId) -> (r: String)
    ensures
        r@ == chain_entity_id_chars(eth_chain_id),
{
    let id_bytes = u64_to_le_bytes(eth_chain_id.0);
    let id_hex = bytes_to_lower_hex(id_bytes.as_slice());
    let column = chars_to_string(&id_hex);
    let mut cols: Vec<String> = Vec::new();
    cols.push(String::from_str("ethereum"));
    cols.push(column);
    proof {
        assert(cols@.map_values(|s: String| s@) =~= seq![
            "ethereum"@,
            chain_id_column_chars(eth_chain_id),
        ]);
    }
    compute_deterministic_id(EntityName::Chain, &cols)
}

/// The tuple of business-unique fields an address row is identified by: its
/// signing key's id and its chain row's id.
pub struct AddressEntity {
    pub asymmetric_key_id: String,
    pub chain_entity_id: String,
}

impl AddressEntity {
    /// The entity kind this tuple identifies.
    pub fn entity_name(&self) -> (r: EntityName)
        ensures
            r == EntityName::Address,
    {
        EntityName::Address
    }

    /// The ordered unique-column values.
    pub fn unique_columns(&self) -> (r: Vec<String>)
        ensures
            r@.map_values(|s: String| s@) == seq![self.asymmetric_key_id@, self.chain_entity_id@],
    {
        let mut cols: Vec<String> = Vec::new();
        cols.push(self.asymmetric_key_id.clone());
        cols.push(self.chain_entity_id.clone());
        proof {
            assert(cols@.map_values(|s: String| s@) =~= seq![
                self.asymmetric_key_id@,
                self.chain_entity_id@,
            ]);
        }
        cols
    }

    /// The deterministic id of this address entity: identical inputs always
    /// yield the identical id.
    pub fn deterministic_id(&self) -> (r: String)
        ensures
            r@ == address_entity_id_chars(self.asymmetric_key_id@, self.chain_entity_id@),
    {
        let cols = self.unique_columns();
        compute_deterministic_id(EntityName::Address, &cols)
    }
}

/// The insertable form of an address row.
pub struct NewAddress {
    pub asymmetric_key_id: String,
    pub address: String,
}

impl NewAddress {
    /// Inserts the address row for an existing chain entity id, under its
    /// deterministic id. Fails exactly when a row with that id already
    /// exists, leaving the store untouched then.
    pub fn insert_eth_for_chain_entity(&self, db: &mut WalletDb, chain_entity_id: &str) -> (r:
        Result<String, Error>)
        requires
            old(db).wf(),
        ensures
            final(db).wf(),
            final(db)@.asymmetric_keys == old(db)@.asymmetric_keys,
            final(db)@.chains == old(db)@.chains,
            final(db)@.data_encryption_keys == old(db)@.data_encryption_keys,
            final(db)@.dapps == old(db)@.dapps,
            match r {
                Ok(id) => {
                    &&& id@ == address_entity_id_chars(self.asymmetric_key_id@, chain_entity_id@)
                    &&& !has_address_with_id(old(db)@, id@)
                    &&& final(db)@.addresses.len() == old(db)@.addresses.len() + 1
                    &&& final(db)@.addresses.take(old(db)@.addresses.len() as int)
                        == old(db)@.addresses
                    &&& final(db)@.addresses.last().deterministic_id == id@
                    &&& final(db)@.addresses.last().asymmetric_key_id == self.asymmetric_key_id@
                    &&& final(db)@.addresses.last().chain_id == chain_entity_id@
                    &&& final(db)@.addresses.last().address == self.address@
                    &&& final(db)@.addresses.last().updated_at is None
                },
                Err(e) => e is Fatal && final(db)@ == old(db)@ && has_address_with_id(
                    old(db)@,
                    address_entity_id_chars(self.asymmetric_key_id@, chain_entity_id@),
                ),
            },
    {
        let entity = AddressEntity {
            asymmetric_key_id: self.asymmetric_key_id.clone(),
            chain_entity_id: String::from_str(chain_entity_id),
        };
        let id = entity.deterministic_id();
        match find_address_index(db, id.as_str()) {
            Some(_) => {
                proof {
                    assert(has_address_with_id(db@, id@));
                }
                Err(Error::Fatal { error: String::from_str("Address row already exists") })
            },
            None => {
                let ghost oldv = db@;
                let row = Address {
                    deterministic_id: id.clone(),
                    asymmetric_key_id: self.asymmetric_key_id.clone(),
                    chain_id: String::from_str(chain_entity_id),
                    address: self.address.clone(),
                    created_at: rfc3339_timestamp(),
                    updated_at: None,
                };
                let ghost rowv = row@;
                db.addresses.push(row);
                proof {
                    assert(db@.addresses =~= oldv.addresses.push(rowv));
                    assert(db@.asymmetric_keys =~= oldv.asymmetric_keys);
                    assert(db@.chains =~= oldv.chains);
                    assert(db@.data_encryption_keys =~= oldv.data_encryption_keys);
                    assert(db@.dapps =~= oldv.dapps);
                    assert(db@.addresses.take(oldv.addresses.len() as int) =~= oldv.addresses);
                    assert(db.wf());
                }
                Ok(id)
            },
        }
    }

    /// Inserts the address row for a numeric chain id, creating the chain
    /// row first when needed.
    pub fn insert_eth(&self, db: &mut WalletDb, eth_chain_id: ChainId) -> (r: Result<
        String,
        Error,
    >)
        requires
            old(db).wf(),
        ensures
            final(db).wf(),
            final(db)@.asymmetric_keys == old(db)@.asymmetric_keys,
            final(db)@.data_encryption_keys == old(db)@.data_encryption_keys,
            final(db)@.dapps == old(db)@.dapps,
            match r {
                Ok(id) => {
                    &&& id@ == address_entity_id_chars(
                        self.asymmetric_key_id@,
                        chain_entity_id_chars(eth_chain_id),
                    )
                    &&& final(db)@.addresses.len() == old(db)@.addresses.len() + 1
                    &&& final(db)@.addresses.take(old(db)@.addresses.len() as int)
                        == old(db)@.addresses
                    &&& final(db)@.addresses.last().deterministic_id == id@
                    &&& final(db)@.addresses.last().asymmetric_key_id == self.asymmetric_key_id@
                    &&& final(db)@.addresses.last().chain_id == chain_entity_id_chars(eth_chain_id)
                    &&& final(db)@.addresses.last().address == self.address@
                    &&& has_chain_with_id(final(db)@, chain_entity_id_chars(eth_chain_id))
                },
                Err(e) => e is Fatal && final(db)@.addresses == old(db)@.addresses
                    && has_address_with_id(
                    old(db)@,
                    address_entity_id_chars(
                        self.asymmetric_key_id@,
                        chain_entity_id_chars(eth_chain_id),
                    ),
                ),
            },
    {
        let chain_entity_id = Chain::fetch_or_create_eth_chain_id(db, eth_chain_id);
        let ghost addresses_before = db@.addresses;
        let r = self.insert_eth_for_chain_entity(db, chain_entity_id.as_str());
        proof {
            if r is Err {
                let ghost id = address_entity_id_chars(
                    self.asymmetric_key_id@,
                    chain_entity_id_chars(eth_chain_id),
                );
                let p = choose|p: int|
                    0 <= p < addresses_before.len() && (#[trigger] addresses_before[p]).deterministic_id
                        == id;
                assert((old(db)@.addresses[p]).deterministic_id == id);
                assert(has_address_with_id(old(db)@, id));
            }
        }
        r
    }
}


impl Address {
    /// The deterministic id of the row these unique columns identify, when
    /// that row exists.
    fn existing_id(db: &WalletDb, address_entity: &AddressEntity) -> (r: Option<String>)
        ensures
            match r {
                Some(id) => id@ == address_entity_id_chars(
                    address_entity.asymmetric_key_id@,
                    address_entity.chain_entity_id@,
                ) && has_address_with_id(db@, id@),
                None => !has_address_with_id(
                    db@,
                    address_entity_id_chars(
                        address_entity.asymmetric_key_id@,
                        address_entity.chain_entity_id@,
                    ),
                ),
            },
    {
        let id = address_entity.deterministic_id();
        match find_address_index(db, id.as_str()) {
            Some(_) => {
                proof {
                    assert(has_address_with_id(db@, id@));
                }
                Some(id)
            },
            None => None,
        }
    }

    /// Returns the address id for this key and chain pair, creating the row
    /// first when it does not exist; the deterministic id makes repeated
    /// calls with the same pair land on the same single row. Fails exactly
    /// when the row is absent and no key row backs the pair, and leaves the
    /// store untouched then.
    pub fn fetch_or_create_for_eth_chain(db: &mut WalletDb, address_entity: &AddressEntity) -> (r:
        Result<String, Error>)
        requires
            old(db).wf(),
        ensures
            final(db).wf(),
            final(db)@.asymmetric_keys == old(db)@.asymmetric_keys,
            final(db)@.chains == old(db)@.chains,
            final(db)@.data_encryption_keys == old(db)@.data_encryption_keys,
            final(db)@.dapps == old(db)@.dapps,
            match r {
                Ok(id) => {
                    &&& id@ == address_entity_id_chars(
                        address_entity.asymmetric_key_id@,
                        address_entity.chain_entity_id@,
                    )
                    &&& has_address_with_id(final(db)@, id@)
                    &&& (has_address_with_id(old(db)@, id@) ==> final(db)@.addresses
                        == old(db)@.addresses)
                    &&& (!has_address_with_id(old(db)@, id@) ==> final(db)@.addresses.len()
                        == old(db)@.addresses.len() + 1 && final(db)@.addresses.take(
                        old(db)@.addresses.len() as int,
                    ) == old(db)@.addresses && final(db)@.addresses.last().deterministic_id == id@
                        && final(db)@.addresses.last().asymmetric_key_id
                        == address_entity.asymmetric_key_id@
                        && final(db)@.addresses.last().chain_id == address_entity.chain_entity_id@
                        && has_key_with_id(final(db)@, address_entity.asymmetric_key_id@) && (
                    forall|q: int|
                        0 <= q < final(db)@.asymmetric_keys.len() && (
                        #[trigger] final(db)@.asymmetric_keys[q]).deterministic_id
                            == address_entity.asymmetric_key_id@
                            ==> final(db)@.addresses.last().address == checksum_address_chars(
                            eth_address_of_public_key(final(db)@.asymmetric_keys[q].public_key),
                        )))
                },
                Err(e) => {
                    &&& final(db)@ == old(db)@
                    &&& !has_address_with_id(
                        old(db)@,
                        address_entity_id_chars(
                            address_entity.asymmetric_key_id@,
                            address_entity.chain_entity_id@,
                        ),
                    )
                    &&& !has_key_with_id(old(db)@, address_entity.asymmetric_key_id@)
                    &&& e is Fatal
                },
            },
    {
        match Self::existing_id(db, address_entity) {
            Some(deterministic_id) => Ok(deterministic_id),
            None => {
                let key_index = match find_key_index(db, address_entity.asymmetric_key_id.as_str()) {
                    Some(i) => i,
                    None => {
                        return Err(not_found_error());
                    },
                };
                let public_key = &db.asymmetric_keys[key_index].public_key;
                proof {
                    assert(db@.asymmetric_keys[key_index as int].public_key.len() == 65);
                }
                let checksum_address = match public_key_to_checksum_address(public_key) {
                    Ok(a) => a,
                    Err(e) => {
                        // The store's invariant makes the stored public key a
                        // well-formed encoding, so derivation cannot fail.
                        proof {
                            assert(false);
                        }
                        return Err(e);
                    },
                };
                let new_address = NewAddress {
                    asymmetric_key_id: address_entity.asymmetric_key_id.clone(),
                    address: checksum_address,
                };
                let ghost pk_view = db@.asymmetric_keys[key_index as int].public_key;
                let r = new_address.insert_eth_for_chain_entity(
                    db,
                    address_entity.chain_entity_id.as_str(),
                );
                proof {
                    assert(r is Ok);
                    assert((db@.asymmetric_keys[key_index as int]).deterministic_id
                        == address_entity.asymmetric_key_id@);
                    assert(has_key_with_id(db@, address_entity.asymmetric_key_id@));
                    assert forall|q: int|
                        0 <= q < db@.asymmetric_keys.len() && (
                        #[trigger] db@.asymmetric_keys[q]).deterministic_id
                            == address_entity.asymmetric_key_id@ implies db@.addresses.last().address
                        == checksum_address_chars(
                        eth_address_of_public_key(db@.asymmetric_keys[q].public_key),
                    ) by {
                        lemma_key_row_unique(db@, q, key_index as int);
                    }
                }
                r
            },
        }
    }

    /// The account that owns the signing key of this address row.
    pub fn fetch_account_id(db: &WalletDb, address_id: &str) -> (r: Result<String, Error>)
        ensures
            match r {
                Ok(a) => exists|p: int, q: int|
                    {
                        &&& 0 <= p < db@.addresses.len()
                        &&& 0 <= q < db@.asymmetric_keys.len()
                        &&& (#[trigger] db@.addresses[p]).deterministic_id == address_id@
                        &&& (#[trigger] db@.asymmetric_keys[q]).deterministic_id
                            == db@.addresses[p].asymmetric_key_id
                        &&& a@ == db@.asymmetric_keys[q].account_id
                    },
                Err(e) => e is Fatal && (!has_address_with_id(db@, address_id@) || (exists|p: int|
                    0 <= p < db@.addresses.len() && (#[trigger] db@.addresses[p]).deterministic_id
                        == address_id@ && !has_key_with_id(
                        db@,
                        db@.addresses[p].asymmetric_key_id,
                    ))),
            },
    {
        let p = match find_address_index(db, address_id) {
            Some(p) => p,
            None => return Err(not_found_error()),
        };
        let q = match find_key_index(db, db.addresses[p].asymmetric_key_id.as_str()) {
            Some(q) => q,
            None => {
                proof {
                    assert((db@.addresses[p as int]).deterministic_id == address_id@);
                }
                return Err(not_found_error());
            },
        };
        Ok(db.asymmetric_keys[q].account_id.clone())
    }

    /// The signing key id of this address row.
    pub fn fetch_key_id(db: &WalletDb, address_id: &str) -> (r: Result<String, Error>)
        ensures
            match r {
                Ok(k) => exists|p: int|
                    0 <= p < db@.addresses.len() && (#[trigger] db@.addresses[p]).deterministic_id
                        == address_id@ && k@ == db@.addresses[p].asymmetric_key_id,
                Err(e) => e is Fatal && !has_address_with_id(db@, address_id@),
            },
    {
        match find_address_index(db, address_id) {
            Some(p) => Ok(db.addresses[p].asymmetric_key_id.clone()),
            None => Err(not_found_error()),
        }
    }

    /// The checksum address text of this address row.
    pub fn fetch_address(db: &WalletDb, address_id: &str) -> (r: Result<String, Error>)
        ensures
            match r {
                Ok(a) => exists|p: int|
                    0 <= p < db@.addresses.len() && (#[trigger] db@.addresses[p]).deterministic_id
                        == address_id@ && a@ == db@.addresses[p].address,
                Err(e) => e is Fatal && !has_address_with_id(db@, address_id@),
            },
    {
        match find_address_index(db, address_id) {
            Some(p) => Ok(db.addresses[p].address.clone()),
            None => Err(not_found_error()),
        }
    }

    /// The numeric chain id of the chain this address row lives on.
    pub fn fetch_eth_chain_id(db: &WalletDb, address_id: &str) -> (r: Result<ChainId, Error>)
        ensures
            match r {
                Ok(c) => exists|p: int, q: int|
                    {
                        &&& 0 <= p < db@.addresses.len()
                        &&& 0 <= q < db@.chains.len()
                        &&& (#[trigger] db@.addresses[p]).deterministic_id == address_id@
                        &&& (#[trigger] db@.chains[q]).deterministic_id
                            == db@.addresses[p].chain_id
                        &&& c == db@.chains[q].protocol_chain_id
                    },
                Err(e) => e is Fatal && (!has_address_with_id(db@, address_id@) || (exists|p: int|
                    0 <= p < db@.addresses.len() && (#[trigger] db@.addresses[p]).deterministic_id
                        == address_id@ && !has_chain_with_id(db@, db@.addresses[p].chain_id))),
            },
    {
        let p = match find_address_index(db, address_id) {
            Some(p) => p,
            None => return Err(not_found_error()),
        };
        let q = match find_chain_index(db, db.addresses[p].chain_id.as_str()) {
            Some(q) => q,
            None => {
                proof {
                    assert((db@.addresses[p as int]).deterministic_id == address_id@);
                }
                return Err(not_found_error());
            },
        };
        Ok(db.chains[q].protocol_chain_id)
    }

    /// The account that owns the signing key behind a checksum address text,
    /// or `None` when the address is not one of ours: an unknown address is
    /// an explicit empty result, not an error. A malformed or wrongly cased
    /// text is a User-class error, and exactly then; a canonical text always
    /// yields an answer.
    pub fn fetch_account_id_for_eth_address(db: &WalletDb, checksum_address: &str) -> (r: Result<
        Option<String>,
        Error,
    >)
        ensures
            match r {
                Ok(Some(a)) => (exists|b: Seq<u8>|
                    #![trigger checksum_address_chars(b)]
                    b.len() == crate::checksum_address::ETH_ADDRESS_BYTES && checksum_address@
                        == checksum_address_chars(b)) && (exists|p: int, q: int|
                    {
                        &&& 0 <= p < db@.addresses.len()
                        &&& 0 <= q < db@.asymmetric_keys.len()
                        &&& (#[trigger] db@.addresses[p]).address == checksum_address@
                        &&& (#[trigger] db@.asymmetric_keys[q]).deterministic_id
                            == db@.addresses[p].asymmetric_key_id
                        &&& a@ == db@.asymmetric_keys[q].account_id
                    }),
                Ok(None) => (exists|b: Seq<u8>|
                    #![trigger checksum_address_chars(b)]
                    b.len() == crate::checksum_address::ETH_ADDRESS_BYTES && checksum_address@
                        == checksum_address_chars(b)) && (forall|p: int, q: int|
                    0 <= p < db@.addresses.len() && 0 <= q < db@.asymmetric_keys.len() && (
                    #[trigger] db@.addresses[p]).address == checksum_address@ ==> (
                    #[trigger] db@.asymmetric_keys[q]).deterministic_id
                        != db@.addresses[p].asymmetric_key_id),
                Err(e) => e is User && (forall|b: Seq<u8>|
                    #![trigger checksum_address_chars(b)]
                    b.len() == crate::checksum_address::ETH_ADDRESS_BYTES ==> checksum_address@
                        != checksum_address_chars(b)),
            },
    {
        if let Err(e) = crate::checksum_address::validate_checksum_address(checksum_address) {
            return Err(e);
        }
        let needle = String::from_str(checksum_address);
        let mut p: usize = 0;
        while p < db.addresses.len()
            invariant
                needle@ == checksum_address@,
                exists|b: Seq<u8>|
                    #![trigger checksum_address_chars(b)]
                    b.len() == crate::checksum_address::ETH_ADDRESS_BYTES && checksum_address@
                        == checksum_address_chars(b),
                db@.addresses.len() == db.addresses@.len(),
                db@.asymmetric_keys.len() == db.asymmetric_keys@.len(),
                p <= db@.addresses.len(),
                forall|i: int, q: int|
                    0 <= i < p && 0 <= q < db@.asymmetric_keys.len() && (
                    #[trigger] db@.addresses[i]).address == checksum_address@ ==> (
                    #[trigger] db@.asymmetric_keys[q]).deterministic_id
                        != db@.addresses[i].asymmetric_key_id,
            decreases db.addresses@.len() - p,
        {
            if db.addresses[p].address.eq(&needle) {
                if let Some(q) = find_key_index(db, db.addresses[p].asymmetric_key_id.as_str()) {
                    let account = db.asymmetric_keys[q].account_id.clone();
                    proof {
                        assert((db@.addresses[p as int]).address == checksum_address@);
                        assert((db@.asymmetric_keys[q as int]).deterministic_id
                            == db@.addresses[p as int].asymmetric_key_id);
                    }
                    return Ok(Some(account));
                }
            }
            p = p + 1;
        }
        Ok(None)
    }

    /// The wallet address id for an account on a chain, creating the chain
    /// row first when needed. Assumes one wallet address per account per
    /// chain.
    pub fn fetch_eth_wallet_id(db: &mut WalletDb, account_id: &str, eth_chain_id: ChainId) -> (r:
        Result<String, Error>)
        requires
            old(db).wf(),
        ensures
            final(db).wf(),
            final(db)@.addresses == old(db)@.addresses,
            final(db)@.asymmetric_keys == old(db)@.asymmetric_keys,
            final(db)@.data_encryption_keys == old(db)@.data_encryption_keys,
            final(db)@.dapps == old(db)@.dapps,
            match r {
                Ok(id) => exists|p: int, q: int|
                    {
                        &&& 0 <= p < final(db)@.addresses.len()
                        &&& 0 <= q < final(db)@.asymmetric_keys.len()
                        &&& (#[trigger] final(db)@.addresses[p]).chain_id
                            == chain_entity_id_chars(eth_chain_id)
                        &&& (#[trigger] final(db)@.asymmetric_keys[q]).deterministic_id
                            == final(db)@.addresses[p].asymmetric_key_id
                        &&& final(db)@.asymmetric_keys[q].account_id == account_id@
                        &&& final(db)@.asymmetric_keys[q].is_account_wallet
                        &&& id@ == final(db)@.addresses[p].deterministic_id
                    },
                Err(e) => e is Fatal && (forall|p: int, q: int|
                    0 <= p < final(db)@.addresses.len() && 0 <= q
                        < final(db)@.asymmetric_keys.len() && (
                    #[trigger] final(db)@.addresses[p]).chain_id == chain_entity_id_chars(
                        eth_chain_id,
                    ) && (#[trigger] final(db)@.asymmetric_keys[q]).deterministic_id
                        == final(db)@.addresses[p].asymmetric_key_id
                        ==> !(final(db)@.asymmetric_keys[q].account_id == account_id@
                        && final(db)@.asymmetric_keys[q].is_account_wallet)),
            },
    {
        let chain_entity_id = Chain::fetch_or_create_eth_chain_id(db, eth_chain_id);
        let mut p: usize = 0;
        while p < db.addresses.len()
            invariant
                chain_entity_id@ == chain_entity_id_chars(eth_chain_id),
                db.wf(),
                db@.addresses == old(db)@.addresses,
                db@.asymmetric_keys == old(db)@.asymmetric_keys,
                db@.data_encryption_keys == old(db)@.data_encryption_keys,
                db@.dapps == old(db)@.dapps,
                db@.addresses.len() == db.addresses@.len(),
                db@.asymmetric_keys.len() == db.asymmetric_keys@.len(),
                p <= db@.addresses.len(),
                forall|i: int, q: int|
                    0 <= i < p && 0 <= q < db@.asymmetric_keys.len() && (
                    #[trigger] db@.addresses[i]).chain_id == chain_entity_id_chars(eth_chain_id)
                        && (#[trigger] db@.asymmetric_keys[q]).deterministic_id
                        == db@.addresses[i].asymmetric_key_id ==> !(
                    db@.asymmetric_keys[q].account_id == account_id@
                        && db@.asymmetric_keys[q].is_account_wallet),
            decreases db.addresses@.len() - p,
        {
            let ghost av = db@.addresses[p as int];
            if db.addresses[p].chain_id.eq(&chain_entity_id) {
                match find_key_index(db, db.addresses[p].asymmetric_key_id.as_str()) {
                    Some(q) => {
                        let needle = String::from_str(account_id);
                        if db.asymmetric_keys[q].account_id.eq(&needle)
                            && db.asymmetric_keys[q].is_account_wallet {
                            let id = db.addresses[p].deterministic_id.clone();
                            proof {
                                assert((db@.addresses[p as int]).chain_id
                                    == chain_entity_id_chars(eth_chain_id));
                                assert((db@.asymmetric_keys[q as int]).deterministic_id
                                    == db@.addresses[p as int].asymmetric_key_id);
                                assert(db@.asymmetric_keys[q as int].account_id == account_id@);
                            }
                            return Ok(id);
                        }
                        proof {
                            assert forall|q2: int|
                                0 <= q2 < db@.asymmetric_keys.len() && (
                                #[trigger] db@.asymmetric_keys[q2]).deterministic_id
                                    == av.asymmetric_key_id implies !(
                            db@.asymmetric_keys[q2].account_id == account_id@
                                && db@.asymmetric_keys[q2].is_account_wallet) by {
                                if q2 < q as int {
                                    assert(db@.asymmetric_keys[q2].deterministic_id
                                        != db@.asymmetric_keys[q as int].deterministic_id);
                                } else if q2 > q as int {
                                    assert(db@.asymmetric_keys[q as int].deterministic_id
                                        != db@.asymmetric_keys[q2].deterministic_id);
                                }
                            }
                        }
                    },
                    None => {},
                }
            }
            p = p + 1;
        }
        Err(not_found_error())
    }
}


impl DataEncryptionKey {
    /// Fetches the DEK row with this name and decrypts it under the KEK,
    /// returning the row's id and the plaintext DEK. Fails fatally when the
    /// row is absent or its ciphertext does not authenticate under the KEK.
    pub fn fetch_dek(db: &WalletDb, name: &str, kek: &EncryptionKey) -> (r: Result<
        (String, EncryptionKey),
        Error,
    >)
        ensures
            match r {
                Ok(pair) => exists|p: int|
                    {
                        &&& 0 <= p < db@.data_encryption_keys.len()
                        &&& (#[trigger] db@.data_encryption_keys[p]).name == name@
                        &&& pair.0@ == db@.data_encryption_keys[p].deterministic_id
                        &&& seals(db@.data_encryption_keys[p].encrypted_dek, kek@, pair.1@)
                    },
                Err(e) => e is Fatal && ((forall|p: int|
                    0 <= p < db@.data_encryption_keys.len() ==> (
                    #[trigger] db@.data_encryption_keys[p]).name != name@) || (exists|p: int|
                    0 <= p < db@.data_encryption_keys.len() && (
                    #[trigger] db@.data_encryption_keys[p]).name == name@ && (forall|q: Seq<u8>|
                        seals(db@.data_encryption_keys[p].encrypted_dek, kek@, q) ==> q.len()
                            != 32))),
            },
    {
        let p = match find_dek_index_by_name(db, name) {
            Some(p) => p,
            None => return Err(not_found_error()),
        };
        let dek_bytes = match decrypt_secret(&db.data_encryption_keys[p].encrypted_dek, kek) {
            Ok(b) => b,
            Err(e) => {
                proof {
                    assert((db@.data_encryption_keys[p as int]).name == name@);
                }
                return Err(e);
            },
        };
        let ghost dek_bytes_v = dek_bytes@;
        let dek = match EncryptionKey::try_from_bytes(dek_bytes) {
            Ok(k) => k,
            Err(e) => {
                proof {
                    assert((db@.data_encryption_keys[p as int]).name == name@);
                    assert forall|q: Seq<u8>|
                        seals(db@.data_encryption_keys[p as int].encrypted_dek, kek@, q) implies q.len()
                        != 32 by {
                        assert(q == dek_bytes_v);
                    }
                }
                return Err(e);
            },
        };
        let id = db.data_encryption_keys[p].deterministic_id.clone();
        proof {
            assert((db@.data_encryption_keys[p as int]).name == name@);
        }
        Ok((id, dek))
    }

    /// Fetches the DEK with this name, or, when no row with the name exists,
    /// generates a fresh DEK, encrypts it under the KEK with fresh nonces and
    /// persists it. Either way the returned DEK decrypts from the stored
    /// ciphertext under the KEK. On failure the store is untouched.
    pub fn fetch_or_create_dek(db: &mut WalletDb, name: &str, kek: &EncryptionKey) -> (r: Result<
        (String, EncryptionKey),
        Error,
    >)
        requires
            old(db).wf(),
        ensures
            final(db).wf(),
            final(db)@.addresses == old(db)@.addresses,
            final(db)@.asymmetric_keys == old(db)@.asymmetric_keys,
            final(db)@.chains == old(db)@.chains,
            final(db)@.dapps == old(db)@.dapps,
            final(db)@.data_encryption_keys.len() >= old(db)@.data_encryption_keys.len(),
            forall|i: int|
                0 <= i < old(db)@.data_encryption_keys.len()
                    ==> #[trigger] final(db)@.data_encryption_keys[i] == old(
                    db,
                )@.data_encryption_keys[i],
            match r {
                Ok(pair) => exists|p: int|
                    {
                        &&& 0 <= p < final(db)@.data_encryption_keys.len()
                        &&& (#[trigger] final(db)@.data_encryption_keys[p]).name == name@
                        &&& pair.0@ == final(db)@.data_encryption_keys[p].deterministic_id
                        &&& seals(
                            final(db)@.data_encryption_keys[p].encrypted_dek,
                            kek@,
                            pair.1@,
                        )
                    },
                Err(e) => e is Fatal && final(db)@ == old(db)@ && ((exists|p: int|
                    0 <= p < old(db)@.data_encryption_keys.len() && (
                    #[trigger] old(db)@.data_encryption_keys[p]).name == name@) ==> (exists|p: int|
                    0 <= p < old(db)@.data_encryption_keys.len() && (
                    #[trigger] old(db)@.data_encryption_keys[p]).name == name@ && (forall|
                        q: Seq<u8>,
                    |
                        seals(old(db)@.data_encryption_keys[p].encrypted_dek, kek@, q)
                            ==> q.len() != 32))),
            },
    {
        let has_row = match find_dek_index_by_name(db, name) {
            Some(_) => true,
            None => false,
        };
        if has_row {
            let r = Self::fetch_dek(db, name, kek);
            return r;
        }
        let dek = match EncryptionKey::random() {
            Ok(k) => k,
            Err(e) => return Err(e),
        };
        let encrypted_dek = match encrypt_secret(dek.as_bytes(), kek) {
            Ok(o) => o,
            Err(e) => return Err(e),
        };
        let mut cols: Vec<String> = Vec::new();
        cols.push(String::from_str(name));
        proof {
            assert(cols@.map_values(|s: String| s@) =~= seq![name@]);
        }
        let id = compute_deterministic_id(EntityName::DataEncryptionKey, &cols);
        if let Some(_) = find_dek_index_by_id(db, id.as_str()) {
            return Err(
                Error::Fatal { error: String::from_str("Deterministic id collision") },
            );
        }
        let ghost oldv = db@;
        let row = DataEncryptionKey {
            deterministic_id: id.clone(),
            name: String::from_str(name),
            encrypted_dek,
            created_at: rfc3339_timestamp(),
        };
        let ghost rowv = row@;
        db.data_encryption_keys.push(row);
        proof {
            assert(db@.data_encryption_keys =~= oldv.data_encryption_keys.push(rowv));
            assert(db@.addresses =~= oldv.addresses);
            assert(db@.asymmetric_keys =~= oldv.asymmetric_keys);
            assert(db@.chains =~= oldv.chains);
            assert(db@.dapps =~= oldv.dapps);
            assert(db.wf());
            assert((db@.data_encryption_keys[oldv.data_encryption_keys.len() as int]).name
                == name@);
        }
        Ok((id, dek))
    }
}

impl Address {
    /// Creates a signing key and its derived address for a chain, within one
    /// atomic step over the store: on success exactly one key row and one
    /// address row are appended, the address is derived from the new key's
    /// public key, and the stored ciphertext decrypts back to the new key's
    /// private bytes under the signing-key DEK as protected by the KEK. On
    /// failure neither a key row nor an address row is left behind.
    pub fn create_eth_key_and_address(
        db: &mut WalletDb,
        keychain: &Keychain,
        account_id: &str,
        eth_chain_id: ChainId,
        dapp_id: Option<&str>,
        is_account_wallet: bool,
    ) -> (r: Result<String, Error>)
        requires
            old(db).wf(),
        ensures
            final(db).wf(),
            final(db)@.dapps == old(db)@.dapps,
            final(db)@.chains.len() >= old(db)@.chains.len(),
            forall|i: int|
                0 <= i < old(db)@.chains.len() ==> #[trigger] final(db)@.chains[i]
                    == old(db)@.chains[i],
            final(db)@.data_encryption_keys.len() >= old(db)@.data_encryption_keys.len(),
            forall|i: int|
                0 <= i < old(db)@.data_encryption_keys.len()
                    ==> #[trigger] final(db)@.data_encryption_keys[i]
                    == old(db)@.data_encryption_keys[i],
            match r {
                Ok(address_id) => {
                    &&& final(db)@.asymmetric_keys.len() == old(db)@.asymmetric_keys.len() + 1
                    &&& final(db)@.asymmetric_keys.take(old(db)@.asymmetric_keys.len() as int)
                        == old(db)@.asymmetric_keys
                    &&& final(db)@.addresses.len() == old(db)@.addresses.len() + 1
                    &&& final(db)@.addresses.take(old(db)@.addresses.len() as int)
                        == old(db)@.addresses
                    &&& final(db)@.asymmetric_keys.last().account_id == account_id@
                    &&& final(db)@.asymmetric_keys.last().is_account_wallet == is_account_wallet
                    &&& final(db)@.asymmetric_keys.last().dapp_id == (match dapp_id {
                        Some(d) => Some(d@),
                        None => None::<Seq<char>>,
                    })
                    &&& (exists|dek_bytes: Seq<u8>, priv_bytes: Seq<u8>, p: int|
                        #![trigger seals(
                            final(db)@.data_encryption_keys[p].encrypted_dek,
                            keychain.spec_sk_kek(),
                            dek_bytes,
                        ), seals(
                            final(db)@.asymmetric_keys.last().encrypted_der,
                            dek_bytes,
                            priv_bytes,
                        )]
                        {
                            &&& 0 <= p < final(db)@.data_encryption_keys.len()
                            &&& (final(db)@.data_encryption_keys[p]).name == SK_DEK_NAME@
                            &&& final(db)@.asymmetric_keys.last().dek_id
                                == final(db)@.data_encryption_keys[p].deterministic_id
                            &&& seals(
                                final(db)@.data_encryption_keys[p].encrypted_dek,
                                keychain.spec_sk_kek(),
                                dek_bytes,
                            )
                            &&& seals(
                                final(db)@.asymmetric_keys.last().encrypted_der,
                                dek_bytes,
                                priv_bytes,
                            )
                            &&& final(db)@.asymmetric_keys.last().public_key
                                == secp256k1_public_key(priv_bytes)
                        })
                    &&& final(db)@.addresses.last().deterministic_id == address_id@
                    &&& final(db)@.addresses.last().asymmetric_key_id
                        == final(db)@.asymmetric_keys.last().deterministic_id
                    &&& final(db)@.addresses.last().chain_id == chain_entity_id_chars(eth_chain_id)
                    &&& final(db)@.addresses.last().address == checksum_address_chars(
                        eth_address_of_public_key(final(db)@.asymmetric_keys.last().public_key),
                    )
                    &&& address_id@ == address_entity_id_chars(
                        final(db)@.asymmetric_keys.last().deterministic_id,
                        chain_entity_id_chars(eth_chain_id),
                    )
                },
                Err(e) => e is Fatal && final(db)@.addresses == old(db)@.addresses
                    && final(db)@.asymmetric_keys == old(db)@.asymmetric_keys,
            },
    {
        let sk_kek = match keychain.get_sk_kek() {
            Ok(k) => k,
            Err(e) => return Err(e),
        };
        let (dek_id, sk_dek) = match DataEncryptionKey::fetch_or_create_dek(db, SK_DEK_NAME, &sk_kek)
            {
            Ok(p) => p,
            Err(e) => return Err(e),
        };
        let ghost deks_after_fetch = db@.data_encryption_keys;
        let ghost dekp: int = choose|p: int|
            0 <= p < deks_after_fetch.len() && (#[trigger] deks_after_fetch[p]).name == SK_DEK_NAME@
                && dek_id@ == deks_after_fetch[p].deterministic_id && seals(
                deks_after_fetch[p].encrypted_dek,
                keychain.spec_sk_kek(),
                sk_dek@,
            );
        proof {
            assert(0 <= dekp < deks_after_fetch.len() && deks_after_fetch[dekp].name == SK_DEK_NAME@
                && dek_id@ == deks_after_fetch[dekp].deterministic_id && seals(
                deks_after_fetch[dekp].encrypted_dek,
                keychain.spec_sk_kek(),
                sk_dek@,
            ));
        }
        let signing_key = match EthereumAsymmetricKey::random() {
            Ok(k) => k,
            Err(e) => return Err(e),
        };
        let encrypted_signing_key = match signing_key.encrypt_private_key(&sk_dek) {
            Ok(o) => o,
            Err(e) => return Err(e),
        };
        let public_key = signing_key.public_key().clone();
        proof {
            assert(public_key@ =~= signing_key@.public_key);
        }
        let pk_hex_chars = bytes_to_lower_hex(public_key.as_slice());
        let pk_hex = chars_to_string(&pk_hex_chars);
        let mut cols: Vec<String> = Vec::new();
        cols.push(String::from_str(account_id));
        cols.push(match dapp_id {
            Some(d) => String::from_str(d),
            None => String::new(),
        });
        cols.push(pk_hex);
        let key_id = compute_deterministic_id(EntityName::AsymmetricKey, &cols);
        if let Some(_) = find_key_index(db, key_id.as_str()) {
            return Err(
                Error::Fatal { error: String::from_str("Deterministic id collision") },
            );
        }
        let chain_entity_id = Chain::fetch_or_create_eth_chain_id(db, eth_chain_id);
        let entity = AddressEntity {
            asymmetric_key_id: key_id.clone(),
            chain_entity_id: chain_entity_id.clone(),
        };
        let address_id = entity.deterministic_id();
        if let Some(_) = find_address_index(db, address_id.as_str()) {
            return Err(
                Error::Fatal { error: String::from_str("Deterministic id collision") },
            );
        }
        let checksum_address = match public_key_to_checksum_address(&public_key) {
            Ok(a) => a,
            Err(e) => {
                // A freshly generated key pair is well-formed, so derivation
                // cannot fail.
                proof {
                    assert(false);
                }
                return Err(e);
            },
        };
        let ghost oldv = db@;
        let key_row = AsymmetricKey {
            deterministic_id: key_id.clone(),
            account_id: String::from_str(account_id),
            dek_id,
            elliptic_curve: signing_key.curve(),
            public_key,
            encrypted_der: encrypted_signing_key,
            dapp_id: match dapp_id {
                Some(d) => Some(String::from_str(d)),
                None => None,
            },
            is_account_wallet,
            created_at: rfc3339_timestamp(),
        };
        let ghost key_rowv = key_row@;
        db.asymmetric_keys.push(key_row);
        proof {
            assert(db@.asymmetric_keys =~= oldv.asymmetric_keys.push(key_rowv));
            assert(db@.addresses =~= oldv.addresses);
            assert(db@.chains =~= oldv.chains);
            assert(db@.data_encryption_keys =~= oldv.data_encryption_keys);
            assert(db@.dapps =~= oldv.dapps);
            assert(db@.asymmetric_keys.take(oldv.asymmetric_keys.len() as int)
                =~= oldv.asymmetric_keys);
            assert(db.wf());
        }
        let new_address = NewAddress { asymmetric_key_id: key_id, address: checksum_address };
        let r = new_address.insert_eth_for_chain_entity(db, chain_entity_id.as_str());
        match r {
            Ok(aid) => {
                proof {
                    assert(db@.asymmetric_keys.last() == key_rowv);
                    assert(db@.data_encryption_keys == deks_after_fetch);
                    assert(0 <= dekp < db@.data_encryption_keys.len()
                        && (db@.data_encryption_keys[dekp]).name == SK_DEK_NAME@
                        && db@.asymmetric_keys.last().dek_id
                        == db@.data_encryption_keys[dekp].deterministic_id && seals(
                        db@.data_encryption_keys[dekp].encrypted_dek,
                        keychain.spec_sk_kek(),
                        sk_dek@,
                    ) && seals(db@.asymmetric_keys.last().encrypted_der, sk_dek@, signing_key@.private_key)
                        && db@.asymmetric_keys.last().public_key == secp256k1_public_key(
                        signing_key@.private_key,
                    ));
                }
                Ok(aid)
            },
            Err(e) => {
                // The address id was checked absent above, so the insert
                // cannot refuse it.
                proof {
                    assert(false);
                }
                Err(e)
            },
        }
    }

}

/// One concrete resolution of a signing key for an address id: row indices
/// for the address, key, chain and DEK rows that join up, plus the plaintext
/// DEK and private key that the stored ciphertexts seal.
pub open spec fn signing_key_witness(
    db: WalletDbV,
    keychain: Keychain,
    address_id: Seq<char>,
    p: int,
    q: int,
    c: int,
    d: int,
    dek_bytes: Seq<u8>,
    priv_bytes: Seq<u8>,
) -> bool {
    &&& 0 <= p < db.addresses.len()
    &&& 0 <= q < db.asymmetric_keys.len()
    &&& 0 <= c < db.chains.len()
    &&& 0 <= d < db.data_encryption_keys.len()
    &&& db.addresses[p].deterministic_id == address_id
    &&& db.asymmetric_keys[q].deterministic_id == db.addresses[p].asymmetric_key_id
    &&& db.chains[c].deterministic_id == db.addresses[p].chain_id
    &&& db.data_encryption_keys[d].deterministic_id == db.asymmetric_keys[q].dek_id
    &&& keychain.has_sk_kek()
    &&& seals(db.data_encryption_keys[d].encrypted_dek, keychain.spec_sk_kek(), dek_bytes)
    &&& dek_bytes.len() == 32
    &&& seals(db.asymmetric_keys[q].encrypted_der, dek_bytes, priv_bytes)
    &&& priv_bytes.len() == 32
    &&& secp256k1_valid_scalar(priv_bytes)
}

/// A signing key can be resolved for the address id: some witness exists.
pub open spec fn signing_key_resolvable(
    db: WalletDbV,
    keychain: Keychain,
    address_id: Seq<char>,
) -> bool {
    exists|p: int, q: int, c: int, d: int, dek_bytes: Seq<u8>, priv_bytes: Seq<u8>|
        signing_key_witness(db, keychain, address_id, p, q, c, d, dek_bytes, priv_bytes)
}

impl Address {
    /// Resolves a signing key for use: joins the address row to its key, DEK
    /// and chain rows, decrypts the DEK under the KEK and the private key
    /// under the DEK, and binds the key to the chain's numeric id, so that
    /// downstream signing carries an unambiguous chain id. Fails, fatally,
    /// exactly when no such resolution exists: a join row is missing, the
    /// keychain is unavailable, or a stored ciphertext does not decrypt to
    /// well-formed key material.
    pub fn fetch_eth_signing_key(db: &WalletDb, keychain: &Keychain, address_id: &str) -> (r:
        Result<SigningKey, Error>)
        requires
            db.wf(),
        ensures
            match r {
                Ok(sk) => exists|p: int, q: int, c: int, e: int, dek_bytes: Seq<u8>|
                    #![trigger db@.addresses[p], db@.asymmetric_keys[q], db@.chains[c], seals(
                        db@.data_encryption_keys[e].encrypted_dek,
                        keychain.spec_sk_kek(),
                        dek_bytes,
                    )]
                    {
                        &&& 0 <= p < db@.addresses.len()
                        &&& 0 <= q < db@.asymmetric_keys.len()
                        &&& 0 <= c < db@.chains.len()
                        &&& 0 <= e < db@.data_encryption_keys.len()
                        &&& (db@.addresses[p]).deterministic_id == address_id@
                        &&& (db@.asymmetric_keys[q]).deterministic_id
                            == db@.addresses[p].asymmetric_key_id
                        &&& (db@.chains[c]).deterministic_id
                            == db@.addresses[p].chain_id
                        &&& (db@.data_encryption_keys[e]).deterministic_id
                            == db@.asymmetric_keys[q].dek_id
                        &&& seals(
                            db@.data_encryption_keys[e].encrypted_dek,
                            keychain.spec_sk_kek(),
                            dek_bytes,
                        )
                        &&& seals(
                            db@.asymmetric_keys[q].encrypted_der,
                            dek_bytes,
                            sk@.key.private_key,
                        )
                        &&& sk@.key.public_key == secp256k1_public_key(sk@.key.private_key)
                        &&& sk@.chain_id == db@.chains[c].protocol_chain_id
                    },
                Err(e) => e is Fatal && !signing_key_resolvable(db@, *keychain, address_id@),
            },
    {
        let p = match find_address_index(db, address_id) {
            Some(p) => p,
            None => {
                proof {
                    if signing_key_resolvable(db@, *keychain, address_id@) {
                        let (p2, q2, c2, d2, bb, pb) = choose|
                            p2: int,
                            q2: int,
                            c2: int,
                            d2: int,
                            bb: Seq<u8>,
                            pb: Seq<u8>,
                        | signing_key_witness(db@, *keychain, address_id@, p2, q2, c2, d2, bb, pb);
                        assert(db@.addresses[p2].deterministic_id == address_id@);
                        assert(false);
                    }
                }
                return Err(not_found_error());
            },
        };
        let q = match find_key_index(db, db.addresses[p].asymmetric_key_id.as_str()) {
            Some(q) => q,
            None => {
                proof {
                    if signing_key_resolvable(db@, *keychain, address_id@) {
                        let (p2, q2, c2, d2, bb, pb) = choose|
                            p2: int,
                            q2: int,
                            c2: int,
                            d2: int,
                            bb: Seq<u8>,
                            pb: Seq<u8>,
                        | signing_key_witness(db@, *keychain, address_id@, p2, q2, c2, d2, bb, pb);
                        lemma_address_row_unique(db@, p2, p as int);
                        assert(db@.asymmetric_keys[q2].deterministic_id
                            == db@.addresses[p as int].asymmetric_key_id);
                        assert(false);
                    }
                }
                return Err(not_found_error());
            },
        };
        let c = match find_chain_index(db, db.addresses[p].chain_id.as_str()) {
            Some(c) => c,
            None => {
                proof {
                    if signing_key_resolvable(db@, *keychain, address_id@) {
                        let (p2, q2, c2, d2, bb, pb) = choose|
                            p2: int,
                            q2: int,
                            c2: int,
                            d2: int,
                            bb: Seq<u8>,
                            pb: Seq<u8>,
                        | signing_key_witness(db@, *keychain, address_id@, p2, q2, c2, d2, bb, pb);
                        lemma_address_row_unique(db@, p2, p as int);
                        assert(db@.chains[c2].deterministic_id
                            == db@.addresses[p as int].chain_id);
                        assert(false);
                    }
                }
                return Err(not_found_error());
            },
        };
        let e = match find_dek_index_by_id(db, db.asymmetric_keys[q].dek_id.as_str()) {
            Some(e) => e,
            None => {
                proof {
                    if signing_key_resolvable(db@, *keychain, address_id@) {
                        let (p2, q2, c2, d2, bb, pb) = choose|
                            p2: int,
                            q2: int,
                            c2: int,
                            d2: int,
                            bb: Seq<u8>,
                            pb: Seq<u8>,
                        | signing_key_witness(db@, *keychain, address_id@, p2, q2, c2, d2, bb, pb);
                        lemma_address_row_unique(db@, p2, p as int);
                        lemma_key_row_unique(db@, q2, q as int);
                        assert(db@.data_encryption_keys[d2].deterministic_id
                            == db@.asymmetric_keys[q as int].dek_id);
                        assert(false);
                    }
                }
                return Err(not_found_error());
            },
        };
        let sk_kek = match keychain.get_sk_kek() {
            Ok(k) => k,
            Err(err) => {
                proof {
                    if signing_key_resolvable(db@, *keychain, address_id@) {
                        let (p2, q2, c2, d2, bb, pb) = choose|
                            p2: int,
                            q2: int,
                            c2: int,
                            d2: int,
                            bb: Seq<u8>,
                            pb: Seq<u8>,
                        | signing_key_witness(db@, *keychain, address_id@, p2, q2, c2, d2, bb, pb);
                        assert(keychain.has_sk_kek());
                        assert(false);
                    }
                }
                return Err(err);
            },
        };
        let dek_bytes = match decrypt_secret(&db.data_encryption_keys[e].encrypted_dek, &sk_kek) {
            Ok(b) => b,
            Err(err) => {
                proof {
                    if signing_key_resolvable(db@, *keychain, address_id@) {
                        let (p2, q2, c2, d2, bb, pb) = choose|
                            p2: int,
                            q2: int,
                            c2: int,
                            d2: int,
                            bb: Seq<u8>,
                            pb: Seq<u8>,
                        | signing_key_witness(db@, *keychain, address_id@, p2, q2, c2, d2, bb, pb);
                        lemma_address_row_unique(db@, p2, p as int);
                        lemma_key_row_unique(db@, q2, q as int);
                        lemma_dek_row_unique(db@, d2, e as int);
                        assert(seals(
                            db@.data_encryption_keys[e as int].encrypted_dek,
                            keychain.spec_sk_kek(),
                            bb,
                        ));
                        assert(false);
                    }
                }
                return Err(err);
            },
        };
        let ghost dek_bytes_v = dek_bytes@;
        let sk_dek = match EncryptionKey::try_from_bytes(dek_bytes) {
            Ok(k) => k,
            Err(err) => {
                proof {
                    if signing_key_resolvable(db@, *keychain, address_id@) {
                        let (p2, q2, c2, d2, bb, pb) = choose|
                            p2: int,
                            q2: int,
                            c2: int,
                            d2: int,
                            bb: Seq<u8>,
                            pb: Seq<u8>,
                        | signing_key_witness(db@, *keychain, address_id@, p2, q2, c2, d2, bb, pb);
                        lemma_address_row_unique(db@, p2, p as int);
                        lemma_key_row_unique(db@, q2, q as int);
                        lemma_dek_row_unique(db@, d2, e as int);
                        assert(bb == dek_bytes_v);
                        assert(false);
                    }
                }
                return Err(err);
            },
        };
        let key = match EthereumAsymmetricKey::from_encrypted_private_key(
            &db.asymmetric_keys[q].encrypted_der,
            &sk_dek,
        ) {
            Ok(k) => k,
            Err(err) => {
                proof {
                    if signing_key_resolvable(db@, *keychain, address_id@) {
                        let (p2, q2, c2, d2, bb, pb) = choose|
                            p2: int,
                            q2: int,
                            c2: int,
                            d2: int,
                            bb: Seq<u8>,
                            pb: Seq<u8>,
                        | signing_key_witness(db@, *keychain, address_id@, p2, q2, c2, d2, bb, pb);
                        lemma_address_row_unique(db@, p2, p as int);
                        lemma_key_row_unique(db@, q2, q as int);
                        lemma_dek_row_unique(db@, d2, e as int);
                        assert(bb == dek_bytes_v);
                        assert(sk_dek@ == bb);
                        assert(seals(db@.asymmetric_keys[q as int].encrypted_der, sk_dek@, pb));
                        assert(false);
                    }
                }
                return Err(err);
            },
        };
        let sk = SigningKey::new(key, db.chains[c].protocol_chain_id);
        proof {
            assert((db@.addresses[p as int]).deterministic_id == address_id@);
            assert((db@.asymmetric_keys[q as int]).deterministic_id
                == db@.addresses[p as int].asymmetric_key_id);
            assert((db@.chains[c as int]).deterministic_id == db@.addresses[p as int].chain_id);
            assert((db@.data_encryption_keys[e as int]).deterministic_id
                == db@.asymmetric_keys[q as int].dek_id);
            assert(seals(
                db@.data_encryption_keys[e as int].encrypted_dek,
                keychain.spec_sk_kek(),
                dek_bytes_v,
            ));
            assert(seals(db@.asymmetric_keys[q as int].encrypted_der, dek_bytes_v, sk@.key.private_key));
        }
        Ok(sk)
    }
}


/// An address row is one of the account's wallet addresses: its signing key
/// belongs to the account and is flagged as the account wallet key.
pub open spec fn is_account_wallet_address(
    db: WalletDbV,
    a: AddressV,
    account_id: Seq<char>,
) -> bool {
    exists|q: int|
        0 <= q < db.asymmetric_keys.len() && (#[trigger] db.asymmetric_keys[q]).deterministic_id
            == a.asymmetric_key_id && db.asymmetric_keys[q].account_id == account_id
            && db.asymmetric_keys[q].is_account_wallet
}

/// An address row belongs to the dapp in the account: its signing key is
/// scoped to the dapp, owned by the account, and the dapp row exists.
pub open spec fn is_dapp_address(
    db: WalletDbV,
    a: AddressV,
    account_id: Seq<char>,
    dapp_id: Seq<char>,
) -> bool {
    &&& exists|q: int|
        0 <= q < db.asymmetric_keys.len() && (#[trigger] db.asymmetric_keys[q]).deterministic_id
            == a.asymmetric_key_id && db.asymmetric_keys[q].account_id == account_id
            && db.asymmetric_keys[q].dapp_id == Some(dapp_id)
    &&& exists|r: int| 0 <= r < db.dapps.len() && #[trigger] db.dapps[r] == dapp_id
}

/// The parameters of a dapp address listing.
pub struct ListAddressesForDappParams {
    pub account_id: String,
    pub dapp_id: String,
}

impl Address {
    /// All address rows, in storage order.
    pub fn list_all(db: &WalletDb) -> (r: Vec<Address>)
        ensures
            r@.map_values(|a: Address| a@) == db@.addresses,
    {
        let mut out: Vec<Address> = Vec::new();
        let mut i: usize = 0;
        while i < db.addresses.len()
            invariant
                i <= db.addresses@.len(),
                db@.addresses.len() == db.addresses@.len(),
                out@.map_values(|a: Address| a@) == db@.addresses.take(i as int),
            decreases db.addresses@.len() - i,
        {
            let row = db.addresses[i].duplicate();
            let ghost out_old = out@;
            out.push(row);
            proof {
                assert(out@ == out_old.push(row));
                assert(out_old.map_values(|a: Address| a@).len() == db@.addresses.take(
                    i as int,
                ).len());
                assert(out_old.len() == i);
                assert forall|k: int| 0 <= k < out@.len() implies out@.map_values(
                    |a: Address| a@,
                )[k] == #[trigger] db@.addresses.take(i + 1 as int)[k] by {
                    if k < i {
                        assert(out@[k] == out_old.push(row)[k]);
                        assert(out@[k] == out_old[k]);
                        assert(out_old.map_values(|a: Address| a@)[k] == db@.addresses.take(
                            i as int,
                        )[k]);
                    }
                }
                assert(out@.map_values(|a: Address| a@) =~= db@.addresses.take(i + 1 as int));
            }
            i = i + 1;
        }
        proof {
            assert(db@.addresses.take(db@.addresses.len() as int) =~= db@.addresses);
        }
        out
    }

    /// The wallet addresses of an account, in storage order: exactly the
    /// address rows whose signing key belongs to the account and is the
    /// account wallet key.
    pub fn list_account_wallets(db: &WalletDb, account_id: &str) -> (r: Vec<Address>)
        requires
            db.wf(),
        ensures
            r@.map_values(|a: Address| a@) == db@.addresses.filter(
                |a: AddressV| is_account_wallet_address(db@, a, account_id@),
            ),
    {
        let mut out: Vec<Address> = Vec::new();
        let mut i: usize = 0;
        while i < db.addresses.len()
            invariant
                db.wf(),
                i <= db.addresses@.len(),
                db@.addresses.len() == db.addresses@.len(),
                db@.asymmetric_keys.len() == db.asymmetric_keys@.len(),
                out@.map_values(|a: Address| a@) == db@.addresses.take(i as int).filter(
                    |a: AddressV| is_account_wallet_address(db@, a, account_id@),
                ),
            decreases db.addresses@.len() - i,
        {
            let ghost av = db@.addresses[i as int];
            let mut matched: bool = false;
            match find_key_index(db, db.addresses[i].asymmetric_key_id.as_str()) {
                Some(q) => {
                    let needle = String::from_str(account_id);
                    if db.asymmetric_keys[q].account_id.eq(&needle)
                        && db.asymmetric_keys[q].is_account_wallet {
                        matched = true;
                        proof {
                            assert(is_account_wallet_address(db@, av, account_id@));
                        }
                    } else {
                        proof {
                            assert forall|q2: int|
                                0 <= q2 < db@.asymmetric_keys.len() && (
                                #[trigger] db@.asymmetric_keys[q2]).deterministic_id
                                    == av.asymmetric_key_id implies !(
                            db@.asymmetric_keys[q2].account_id == account_id@
                                && db@.asymmetric_keys[q2].is_account_wallet) by {
                                if q2 < q as int {
                                    assert(db@.asymmetric_keys[q2].deterministic_id
                                        != db@.asymmetric_keys[q as int].deterministic_id);
                                } else if q2 > q as int {
                                    assert(db@.asymmetric_keys[q as int].deterministic_id
                                        != db@.asymmetric_keys[q2].deterministic_id);
                                }
                            }
                            assert(!is_account_wallet_address(db@, av, account_id@));
                        }
                    }
                },
                None => {
                    proof {
                        assert(!is_account_wallet_address(db@, av, account_id@));
                    }
                },
            }
            if matched {
                out.push(db.addresses[i].duplicate());
            }
            proof {
                reveal(Seq::filter);
                assert(db@.addresses.take(i + 1 as int).drop_last() =~= db@.addresses.take(
                    i as int,
                ));
                assert(db@.addresses.take(i + 1 as int).last() == av);
                assert(out@.map_values(|a: Address| a@) =~= db@.addresses.take(i + 1 as int).filter(
                    |a: AddressV| is_account_wallet_address(db@, a, account_id@),
                ));
            }
            i = i + 1;
        }
        proof {
            assert(db@.addresses.take(db@.addresses.len() as int) =~= db@.addresses);
        }
        out
    }

    /// The addresses of a dapp in an account, in storage order: exactly the
    /// address rows whose signing key is scoped to the dapp and owned by the
    /// account, provided the dapp row exists.
    pub fn list_for_dapp(db: &WalletDb, params: &ListAddressesForDappParams) -> (r: Vec<Address>)
        requires
            db.wf(),
        ensures
            r@.map_values(|a: Address| a@) == db@.addresses.filter(
                |a: AddressV| is_dapp_address(db@, a, params.account_id@, params.dapp_id@),
            ),
    {
        let dapp_found: bool = match find_dapp_index(db, params.dapp_id.as_str()) {
            Some(_) => true,
            None => false,
        };
        proof {
            if dapp_found {
                assert(exists|r: int|
                    0 <= r < db@.dapps.len() && #[trigger] db@.dapps[r] == params.dapp_id@);
            }
        }
        let mut out: Vec<Address> = Vec::new();
        let mut i: usize = 0;
        while i < db.addresses.len()
            invariant
                db.wf(),
                i <= db.addresses@.len(),
                db@.addresses.len() == db.addresses@.len(),
                db@.asymmetric_keys.len() == db.asymmetric_keys@.len(),
                dapp_found == exists|r: int|
                    0 <= r < db@.dapps.len() && #[trigger] db@.dapps[r] == params.dapp_id@,
                out@.map_values(|a: Address| a@) == db@.addresses.take(i as int).filter(
                    |a: AddressV| is_dapp_address(db@, a, params.account_id@, params.dapp_id@),
                ),
            decreases db.addresses@.len() - i,
        {
            let ghost av = db@.addresses[i as int];
            let mut matched: bool = false;
            if dapp_found {
                match find_key_index(db, db.addresses[i].asymmetric_key_id.as_str()) {
                    Some(q) => {
                        let account_needle = String::from_str(params.account_id.as_str());
                        let key_matches: bool = match &db.asymmetric_keys[q].dapp_id {
                            Some(d) => d.eq(&params.dapp_id),
                            None => false,
                        };
                        if db.asymmetric_keys[q].account_id.eq(&account_needle) && key_matches {
                            matched = true;
                            proof {
                                assert(db@.asymmetric_keys[q as int].dapp_id == Some(
                                    params.dapp_id@,
                                ));
                                assert(is_dapp_address(db@, av, params.account_id@, params.dapp_id@));
                            }
                        } else {
                            proof {
                                assert forall|q2: int|
                                    0 <= q2 < db@.asymmetric_keys.len() && (
                                    #[trigger] db@.asymmetric_keys[q2]).deterministic_id
                                        == av.asymmetric_key_id implies !(
                                db@.asymmetric_keys[q2].account_id == params.account_id@
                                    && db@.asymmetric_keys[q2].dapp_id == Some(
                                    params.dapp_id@,
                                )) by {
                                    if q2 < q as int {
                                        assert(db@.asymmetric_keys[q2].deterministic_id
                                            != db@.asymmetric_keys[q as int].deterministic_id);
                                    } else if q2 > q as int {
                                        assert(db@.asymmetric_keys[q as int].deterministic_id
                                            != db@.asymmetric_keys[q2].deterministic_id);
                                    }
                                }
                                assert(!is_dapp_address(db@, av, params.account_id@, params.dapp_id@));
                            }
                        }
                    },
                    None => {
                        proof {
                            assert(!is_dapp_address(db@, av, params.account_id@, params.dapp_id@));
                        }
                    },
                }
            } else {
                proof {
                    assert(!is_dapp_address(db@, av, params.account_id@, params.dapp_id@));
                }
            }
            if matched {
                out.push(db.addresses[i].duplicate());
            }
            proof {
                reveal(Seq::filter);
                assert(db@.addresses.take(i + 1 as int).drop_last() =~= db@.addresses.take(
                    i as int,
                ));
                assert(db@.addresses.take(i + 1 as int).last() == av);
                assert(out@.map_values(|a: Address| a@) =~= db@.addresses.take(i + 1 as int).filter(
                    |a: AddressV| is_dapp_address(db@, a, params.account_id@, params.dapp_id@),
                ));
            }
            i = i + 1;
        }
        proof {
            assert(db@.addresses.take(db@.addresses.len() as int) =~= db@.addresses);
        }
        out
    }
}


/// Idempotency of address creation rests on two facts. First: the address id
/// is a function of the key and chain entity ids alone, so re-deriving it
/// for the same pair always lands on the same id.
pub proof fn lemma_address_id_determined(
    asymmetric_key_id: Seq<char>,
    chain_entity_id: Seq<char>,
    r1: Seq<char>,
    r2: Seq<char>,
)
    requires
        r1 == address_entity_id_chars(asymmetric_key_id, chain_entity_id),
        r2 == address_entity_id_chars(asymmetric_key_id, chain_entity_id),
    ensures
        r1 == r2,
{
}

/// Second: in a well-formed store at most one address row carries a given
/// deterministic id, so repeated fetch-or-create calls for one key and chain
/// pair leave exactly one row.
pub proof fn lemma_address_row_unique(db: WalletDbV, p: int, q: int)
    requires
        db_wf(db),
        0 <= p < db.addresses.len(),
        0 <= q < db.addresses.len(),
        db.addresses[p].deterministic_id == db.addresses[q].deterministic_id,
    ensures
        p == q,
{
}

/// At most one key row carries a given deterministic id.
pub proof fn lemma_key_row_unique(db: WalletDbV, p: int, q: int)
    requires
        db_wf(db),
        0 <= p < db.asymmetric_keys.len(),
        0 <= q < db.asymmetric_keys.len(),
        db.asymmetric_keys[p].deterministic_id == db.asymmetric_keys[q].deterministic_id,
    ensures
        p == q,
{
}

/// At most one chain row carries a given deterministic id.
pub proof fn lemma_chain_row_unique(db: WalletDbV, p: int, q: int)
    requires
        db_wf(db),
        0 <= p < db.chains.len(),
        0 <= q < db.chains.len(),
        db.chains[p].deterministic_id == db.chains[q].deterministic_id,
    ensures
        p == q,
{
}

/// At most one DEK row carries a given deterministic id.
pub proof fn lemma_dek_row_unique(db: WalletDbV, p: int, q: int)
    requires
        db_wf(db),
        0 <= p < db.data_encryption_keys.len(),
        0 <= q < db.data_encryption_keys.len(),
        db.data_encryption_keys[p].deterministic_id == db.data_encryption_keys[q].deterministic_id,
    ensures
        p == q,
{
}

fn not_found_error() -> (r: Error)
    ensures
        r is Fatal,
{
    Error::Fatal { error: String::from_str("Record not found") }
}

} // verus!
