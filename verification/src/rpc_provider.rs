use vstd::prelude::*;

use crate::amounts::{
    scaled_decimal_value, u256_val, valid_decimal_split, FungibleToken, FungibleTokenAmount,
    NativeTokenAmount, U256,
};
use crate::chain_id::{configured_rpc_endpoint, ChainId};
use crate::checksum_address::{
    checksum_address_chars, parse_checksum_address, ETH_ADDRESS_BYTES,
};
use crate::error::Error;
use crate::hexfmt::{lower_hex_chars, to_0x_lower_hex_string};
use crate::signing_key::SigningKey;

verus! {

/// A native-token transfer request built by this core: recipient, value and
/// sender bound to one chain, ready for nonce and fee assignment, signing
/// and submission by the transport layer.
pub struct TransactionRequest {
    pub to: Vec<u8>,
    pub from: Vec<u8>,
    pub value: U256,
    pub chain_id: ChainId,
}

/// An ERC20-style `transfer` call built by this core, in base units of the
/// token.
pub struct Erc20TransferCall {
    pub contract: Vec<u8>,
    pub to: Vec<u8>,
    pub amount: U256,
    pub from: Vec<u8>,
    pub chain_id: ChainId,
}

/// A JSON-RPC provider bound to one chain: the configured endpoint and the
/// chain id every submission is checked against. Immutable and safely
/// shared.
pub struct RpcProvider {
    pub chain_id: ChainId,
    pub http_endpoint: String,
}

impl RpcProvider {
    /// A provider for one chain and endpoint.
    pub fn new(chain_id: ChainId, http_endpoint: String) -> (r: RpcProvider)
        ensures
            r.chain_id == chain_id,
            r.http_endpoint@ == http_endpoint@,
    {
        RpcProvider { chain_id, http_endpoint }
    }

    /// Chain-consistency guard: Ok exactly when the signing key's bound
    /// chain, this provider's chain and the amount's chain agree. A mismatch
    /// is a programming-contract violation, Fatal and never coerced, and is
    /// detected before any network work is attempted.
    pub fn verify_chain_ids(&self, signing_key: &SigningKey, token_chain_id: ChainId) -> (r: Result<
        (),
        Error,
    >)
        ensures
            match r {
                Ok(_) => signing_key@.chain_id == self.chain_id && signing_key@.chain_id
                    == token_chain_id,
                Err(e) => e is Fatal && !(signing_key@.chain_id == self.chain_id
                    && signing_key@.chain_id == token_chain_id),
            },
    {
        let key_chain = signing_key.chain_id();
        if key_chain.0 != self.chain_id.0 || key_chain.0 != token_chain_id.0 {
            Err(
                Error::Fatal {
                    error: String::from_str("Key, rpc provider and amount chain ids must match"),
                },
            )
        } else {
            Ok(())
        }
    }

    /// Builds a native-token transfer: the chain-consistency guard runs
    /// first and a mismatch fails Fatal before anything else; then the
    /// destination checksum address is validated, and a malformed one is a
    /// User-class error. On success the request carries exactly the amount,
    /// the sender's address bytes and the validated destination.
    pub fn prepare_native_token_transfer(
        &self,
        signing_key: &SigningKey,
        to_checksum_address: &str,
        amount: &NativeTokenAmount,
    ) -> (r: Result<TransactionRequest, Error>)
        ensures
            match r {
                Ok(tx) => {
                    &&& signing_key@.chain_id == self.chain_id
                    &&& signing_key@.chain_id == amount.chain_id
                    &&& tx.chain_id == self.chain_id
                    &&& tx.value == amount.amount
                    &&& tx.from@ == signing_key@.address
                    &&& tx.to@.len() == ETH_ADDRESS_BYTES
                    &&& to_checksum_address@ == checksum_address_chars(tx.to@)
                },
                Err(e) => {
                    &&& (e is Fatal <==> !(signing_key@.chain_id == self.chain_id
                        && signing_key@.chain_id == amount.chain_id))
                    &&& (e is User ==> (signing_key@.chain_id == self.chain_id
                        && signing_key@.chain_id == amount.chain_id) && (forall|b: Seq<u8>|
                        #![trigger checksum_address_chars(b)]
                        b.len() == ETH_ADDRESS_BYTES ==> to_checksum_address@
                            != checksum_address_chars(b)))
                    &&& (e is Fatal || e is User)
                },
            },
    {
        if let Err(e) = self.verify_chain_ids(signing_key, amount.chain_id) {
            return Err(e);
        }
        let to = match parse_checksum_address(to_checksum_address) {
            Ok(b) => b,
            Err(e) => return Err(e),
        };
        let from = signing_key.address().clone();
        proof {
            assert(from@ =~= signing_key@.address);
        }
        Ok(TransactionRequest { to, from, value: amount.amount, chain_id: self.chain_id })
    }

    /// First stage of a fungible-token transfer: validates the contract and
    /// destination checksum addresses. A malformed destination is a
    /// User-class error; a malformed contract address is classified
    /// Retriable — it is externally supplied configuration, not user
    /// keystroke input, an explicit policy choice. Returns the contract and
    /// destination address bytes.
    pub fn prepare_fungible_token_transfer(
        &self,
        to_checksum_address: &str,
        contract_checksum_address: &str,
    ) -> (r: Result<(Vec<u8>, Vec<u8>), Error>)
        ensures
            match r {
                Ok(pair) => {
                    &&& pair.0@.len() == ETH_ADDRESS_BYTES
                    &&& contract_checksum_address@ == checksum_address_chars(pair.0@)
                    &&& pair.1@.len() == ETH_ADDRESS_BYTES
                    &&& to_checksum_address@ == checksum_address_chars(pair.1@)
                },
                Err(e) => {
                    &&& (e is Retriable ==> forall|b: Seq<u8>|
                        #![trigger checksum_address_chars(b)]
                        b.len() == ETH_ADDRESS_BYTES ==> contract_checksum_address@
                            != checksum_address_chars(b))
                    &&& (e is User ==> forall|b: Seq<u8>|
                        #![trigger checksum_address_chars(b)]
                        b.len() == ETH_ADDRESS_BYTES ==> to_checksum_address@
                            != checksum_address_chars(b))
                    &&& (e is Retriable || e is User)
                },
            },
    {
        let contract = match parse_checksum_address(contract_checksum_address) {
            Ok(b) => b,
            Err(e) => {
                return Err(
                    match e {
                        Error::User { explanation } => Error::Retriable { error: explanation },
                        other => other,
                    },
                );
            },
        };
        let to = match parse_checksum_address(to_checksum_address) {
            Ok(b) => b,
            Err(e) => return Err(e),
        };
        Ok((contract, to))
    }

    /// Completes a fungible-token transfer once the contract's decimal
    /// precision has been read from the chain: converts the decimal amount
    /// text to base units under that precision and builds the `transfer`
    /// call. Exactly the texts that denote a valid decimal number fitting
    /// 256 bits are accepted.
    pub fn build_fungible_token_transfer(
        &self,
        signing_key: &SigningKey,
        to_address: Vec<u8>,
        contract_address: Vec<u8>,
        decimals: u8,
        amount_decimal: &str,
    ) -> (r: Result<Erc20TransferCall, Error>)
        requires
            to_address@.len() == ETH_ADDRESS_BYTES,
            contract_address@.len() == ETH_ADDRESS_BYTES,
        ensures
            match r {
                Ok(call) => {
                    &&& call.contract@ == contract_address@
                    &&& call.to@ == to_address@
                    &&& call.from@ == signing_key@.address
                    &&& call.chain_id == self.chain_id
                    &&& exists|i: int|
                        #![trigger valid_decimal_split(amount_decimal@, decimals as nat, i)]
                        valid_decimal_split(amount_decimal@, decimals as nat, i) && u256_val(
                            call.amount,
                        ) == scaled_decimal_value(amount_decimal@, decimals as nat, i)
                },
                Err(e) => e is User && (forall|i: int|
                    #![trigger valid_decimal_split(amount_decimal@, decimals as nat, i)]
                    valid_decimal_split(amount_decimal@, decimals as nat, i)
                        ==> scaled_decimal_value(amount_decimal@, decimals as nat, i)
                        >= 0x10000000000000000000000000000000000000000000000000000000000000000),
            },
    {
        let fungible_token = FungibleToken::new(self.chain_id, contract_address, decimals);
        let fungible_token_amount = match FungibleTokenAmount::new_from_decimal(
            fungible_token,
            amount_decimal,
        ) {
            Ok(a) => a,
            Err(e) => return Err(e),
        };
        let from = signing_key.address().clone();
        proof {
            assert(from@ =~= signing_key@.address);
        }
        Ok(
            Erc20TransferCall {
                contract: fungible_token_amount.token.contract_address,
                to: to_address,
                amount: fungible_token_amount.amount,
                from,
                chain_id: self.chain_id,
            },
        )
    }

    /// Tags a balance read from the node with this provider's chain.
    pub fn native_token_balance_amount(&self, balance: U256) -> (r: NativeTokenAmount)
        ensures
            r.chain_id == self.chain_id,
            r.amount == balance,
    {
        NativeTokenAmount::new(self.chain_id, balance)
    }
}

/// The canonical text of a transaction hash: `0x` then 64 lower-case hex
/// digits, always full width — leading zero bytes are never elided.
pub fn display_tx_hash(tx_hash: &[u8]) -> (r: String)
    requires
        tx_hash@.len() == 32,
    ensures
        r@ == seq!['0', 'x'] + lower_hex_chars(tx_hash@),
        r@.len() == 66,
{
    let s = to_0x_lower_hex_string(tx_hash);
    proof {
        assert(lower_hex_chars(tx_hash@).len() == 64);
    }
    s
}

/// The boundary that resolves an RPC provider for a chain id; tests inject
/// their own endpoint through an impl of their own.
pub trait RpcManagerI {
    /// A provider bound to the given chain.
    fn eth_api_provider(&self, chain_id: ChainId) -> (r: RpcProvider)
        ensures
            r.chain_id == chain_id,
    ;
}

/// The default manager: resolves the built-in endpoint of the chain.
pub struct RpcManager {}

impl RpcManager {
    /// A default manager.
    pub fn new() -> (r: RpcManager) {
        RpcManager {  }
    }
}

impl Default for RpcManager {
    fn default() -> (r: RpcManager) {
        RpcManager::new()
    }
}

impl RpcManagerI for RpcManager {
    /// Resolves the configured endpoint of the chain; a chain without one
    /// gets an empty endpoint text.
    fn eth_api_provider(&self, chain_id: ChainId) -> (r: RpcProvider)
        ensures
            match configured_rpc_endpoint(chain_id.0) {
                Some(u) => r.http_endpoint@ == u,
                None => r.http_endpoint@ == Seq::<char>::empty(),
            },
    {
        let endpoint = match chain_id.http_rpc_endpoint() {
            Some(u) => u,
            None => String::new(),
        };
        RpcProvider::new(chain_id, endpoint)
    }
}

} // verus!
