pub mod amounts;
pub mod chain_id;
pub mod checksum_address;
mod clock;
pub mod deterministic_id;
pub mod encryption;
pub mod error;
pub mod hexfmt;
pub mod kdf_nonce;
pub mod models;
mod random;
pub mod rpc_provider;
pub mod signing_key;
mod text;
