use vstd::prelude::*;

use crate::chain_id::ChainId;
use crate::checksum_address::{
    checksum_address_chars, eth_address_bytes_of_public_key, eth_address_of_public_key,
    to_checksum_address, ETH_ADDRESS_BYTES,
};
use crate::encryption::{decrypt_secret, encrypt_secret, seals, EncryptionKey, EncryptionOutput};
use crate::error::Error;
use crate::random::try_random_bytes;

verus! {

/// The elliptic curves this core can hold keys for.
#[derive(Clone, Copy, Debug, PartialEq, Eq, Structural)]
pub enum EllipticCurve {
    Secp256k1,
}

/// The uncompressed SEC1 public key belonging to a secp256k1 secret scalar,
/// named so that contracts can speak of it; its value is fixed by the curve.
pub uninterp spec fn secp256k1_public_key(secret: Seq<u8>) -> Seq<u8>;

/// Whether 32 bytes are a valid nonzero secp256k1 secret scalar: exactly the
/// inputs `SecretKey::from_slice` accepts, fixed by the curve order.
pub uninterp spec fn secp256k1_valid_scalar(secret: Seq<u8>) -> bool;

/// Relies on k256's `SecretKey::from_slice` and elliptic-curve's
/// `ToSec1Point::to_uncompressed_point`: the public key is a function of the
/// secret scalar bytes alone, in the uncompressed SEC1 encoding, 65 bytes
/// starting with the tag 4. Fails exactly on bytes that are not a valid
/// nonzero scalar.
#[verifier::external_body]
fn derive_public_key(secret: &Vec<u8>) -> (r: Result<Vec<u8>, ()>)
    requires
        secret@.len() == 32,
    ensures
        r is Ok <==> secp256k1_valid_scalar(secret@),
        r matches Ok(pk) ==> pk@ == secp256k1_public_key(secret@) && pk@.len() == 65 && pk@[0]
            == 4,
{
    let sk = match k256::SecretKey::from_slice(secret.as_slice()) {
        Ok(k) => k,
        Err(_) => return Err(()),
    };
    let point = <k256::AffinePoint as k256::elliptic_curve::sec1::ToSec1Point<
        k256::Secp256k1,
    >>::to_uncompressed_point(sk.public_key().as_affine());
    Ok(point.to_vec())
}

/// Spec-level value of an asymmetric key: the raw key pair and its curve.
pub struct KeyMaterialV {
    pub curve: EllipticCurve,
    pub public_key: Seq<u8>,
    pub private_key: Seq<u8>,
}

/// A consistent secp256k1 key pair: a 32-byte secret scalar with its
/// uncompressed public key.
pub open spec fn key_material_wf(m: KeyMaterialV) -> bool {
    &&& m.private_key.len() == 32
    &&& secp256k1_valid_scalar(m.private_key)
    &&& m.public_key == secp256k1_public_key(m.private_key)
    &&& m.public_key.len() == 65
    &&& m.public_key[0] == 4
}

/// A signing key pair for an account-based chain protocol. The private key
/// never leaves this type except encrypted under a DEK.
pub struct EthereumAsymmetricKey {
    curve: EllipticCurve,
    public_key: Vec<u8>,
    private_key: Vec<u8>,
}

impl View for EthereumAsymmetricKey {
    type V = KeyMaterialV;

    closed spec fn view(&self) -> KeyMaterialV {
        KeyMaterialV {
            curve: self.curve,
            public_key: self.public_key@,
            private_key: self.private_key@,
        }
    }
}

impl EthereumAsymmetricKey {
    #[verifier::type_invariant]
    closed spec fn wf(self) -> bool {
        key_material_wf(self@)
    }

    /// A fresh key pair from the secure random source.
    pub fn random() -> (r: Result<EthereumAsymmetricKey, Error>)
        ensures
            match r {
                Ok(k) => key_material_wf(k@) && k@.curve == EllipticCurve::Secp256k1,
                Err(e) => e is Fatal,
            },
    {
        let private_key = match try_random_bytes(32) {
            Ok(b) => b,
            Err(_) => return Err(
                Error::Fatal { error: String::from_str("Failed to generate random bytes") },
            ),
        };
        match derive_public_key(&private_key) {
            Ok(public_key) => Ok(
                EthereumAsymmetricKey { curve: EllipticCurve::Secp256k1, public_key, private_key },
            ),
            Err(_) => Err(
                Error::Fatal { error: String::from_str("Random bytes were not a valid key") },
            ),
        }
    }

    /// The curve this key pair lives on.
    pub fn curve(&self) -> (r: EllipticCurve)
        ensures
            r == self@.curve,
    {
        self.curve
    }

    /// The uncompressed SEC1 public key bytes.
    pub fn public_key(&self) -> (r: &Vec<u8>)
        ensures
            r@ == self@.public_key,
            key_material_wf(self@),
    {
        proof {
            use_type_invariant(self);
        }
        &self.public_key
    }

    /// Encrypts the private key bytes under a data-encryption-key. On
    /// success the output seals exactly this key's private bytes.
    pub fn encrypt_private_key(&self, dek: &EncryptionKey) -> (r: Result<EncryptionOutput, Error>)
        ensures
            match r {
                Ok(o) => seals(o@, dek@, self@.private_key),
                Err(e) => e is Fatal,
            },
    {
        encrypt_secret(self.private_key.as_slice(), dek)
    }

    /// Recovers a key pair from its encrypted private key bytes. Succeeds
    /// exactly when the output seals a well-formed private key under the
    /// DEK, and then returns the pair it seals; authentication failure or
    /// malformed stored bytes are Fatal, never a wrong key pair.
    pub fn from_encrypted_private_key(output: &EncryptionOutput, dek: &EncryptionKey) -> (r: Result<
        EthereumAsymmetricKey,
        Error,
    >)
        ensures
            match r {
                Ok(k) => seals(output@, dek@, k@.private_key) && key_material_wf(k@) && k@.curve
                    == EllipticCurve::Secp256k1,
                Err(e) => e is Fatal && !(exists|q: Seq<u8>|
                    #![trigger seals(output@, dek@, q)]
                    seals(output@, dek@, q) && q.len() == 32 && secp256k1_valid_scalar(q)),
            },
    {
        let private_key = match decrypt_secret(output, dek) {
            Ok(p) => p,
            Err(e) => return Err(e),
        };
        let ghost sealed = private_key@;
        if private_key.len() != 32 {
            proof {
                assert forall|q: Seq<u8>| #![trigger seals(output@, dek@, q)]
                    seals(output@, dek@, q) implies !(q.len() == 32 && secp256k1_valid_scalar(
                    q,
                )) by {
                    assert(q == sealed);
                }
            }
            return Err(Error::Fatal { error: String::from_str("Stored key bytes are malformed") });
        }
        match derive_public_key(&private_key) {
            Ok(public_key) => Ok(
                EthereumAsymmetricKey { curve: EllipticCurve::Secp256k1, public_key, private_key },
            ),
            Err(_) => {
                proof {
                    assert forall|q: Seq<u8>| #![trigger seals(output@, dek@, q)]
                        seals(output@, dek@, q) implies !(q.len() == 32 && secp256k1_valid_scalar(
                        q,
                    )) by {
                        assert(q == sealed);
                    }
                }
                Err(Error::Fatal { error: String::from_str("Stored key bytes are malformed") })
            },
        }
    }
}

/// The recoverable ECDSA signature of a digest under a secp256k1 secret
/// scalar, named so that contracts can speak of it; deterministic nonces
/// make it a function of its arguments alone.
pub uninterp spec fn secp256k1_signature(secret: Seq<u8>, digest: Seq<u8>) -> Seq<u8>;

/// Relies on k256's `ecdsa::SigningKey::sign_prehash_recoverable`, which
/// derives its nonce deterministically per RFC 6979: the 65 signature bytes
/// (r, s, then the recovery id) are a function of the secret scalar and the
/// digest alone. Signing fails only when the key bytes are not a valid
/// scalar.
#[verifier::external_body]
fn sign_prehash_recoverable(key: &EthereumAsymmetricKey, digest: &Vec<u8>) -> (r: Result<
    Vec<u8>,
    Error,
>)
    requires
        digest@.len() == 32,
    ensures
        secp256k1_valid_scalar(key@.private_key) ==> r is Ok,
        match r {
            Ok(sig) => sig@ == secp256k1_signature(key@.private_key, digest@) && sig@.len() == 65,
            Err(e) => e is Fatal,
        },
{
    let sk = match k256::ecdsa::SigningKey::from_slice(key.private_key.as_slice()) {
        Ok(k) => k,
        Err(_) => return Err(Error::Fatal { error: "Stored key bytes are malformed".to_string() }),
    };
    let (signature, recovery_id) = sk.sign_prehash_recoverable(digest.as_slice());
    let mut out = signature.to_bytes().to_vec();
    out.push(recovery_id.to_byte());
    Ok(out)
}

/// Spec-level value of a signing key: key material, bound chain and address.
pub struct SigningKeyV {
    pub key: KeyMaterialV,
    pub chain_id: ChainId,
    pub address: Seq<u8>,
}

/// A signing key bound to one chain id, with its derived address bytes. The
/// binding prevents cross-chain replay: every signing operation downstream
/// carries an unambiguous chain id alongside the key.
pub struct SigningKey {
    key: EthereumAsymmetricKey,
    chain_id: ChainId,
    address: Vec<u8>,
}

impl View for SigningKey {
    type V = SigningKeyV;

    closed spec fn view(&self) -> SigningKeyV {
        SigningKeyV { key: self.key@, chain_id: self.chain_id, address: self.address@ }
    }
}

impl SigningKey {
    #[verifier::type_invariant]
    closed spec fn wf(self) -> bool {
        &&& key_material_wf(self.key@)
        &&& self.address@ == eth_address_of_public_key(self.key@.public_key)
        &&& self.address@.len() == ETH_ADDRESS_BYTES
    }

    /// Binds a key pair to a chain id, deriving its address bytes.
    pub fn new(key: EthereumAsymmetricKey, chain_id: ChainId) -> (r: SigningKey)
        ensures
            r@.key == key@,
            r@.chain_id == chain_id,
            r@.address == eth_address_of_public_key(key@.public_key),
    {
        let public_key = key.public_key();
        let address = eth_address_bytes_of_public_key(public_key);
        SigningKey { key, chain_id, address }
    }

    /// The chain id this key is bound to.
    pub fn chain_id(&self) -> (r: ChainId)
        ensures
            r == self@.chain_id,
    {
        self.chain_id
    }

    /// The derived address bytes.
    pub fn address(&self) -> (r: &Vec<u8>)
        ensures
            r@ == self@.address,
            r@.len() == ETH_ADDRESS_BYTES,
            self@.address == eth_address_of_public_key(self@.key.public_key),
    {
        proof {
            use_type_invariant(self);
        }
        &self.address
    }

    /// The bound key pair.
    pub fn key(&self) -> (r: &EthereumAsymmetricKey)
        ensures
            r@ == self@.key,
            key_material_wf(self@.key),
    {
        proof {
            use_type_invariant(self);
        }
        &self.key
    }

    /// Signs a 32-byte digest with the bound key; never fails, since the
    /// bound key pair is well-formed. The signature is the 64 bytes of r and
    /// s followed by the recovery id byte. Raw key material never leaves
    /// this type.
    pub fn sign_prehash(&self, digest: &Vec<u8>) -> (r: Result<Vec<u8>, Error>)
        requires
            digest@.len() == 32,
        ensures
            r matches Ok(sig) && sig@ == secp256k1_signature(self@.key.private_key, digest@)
                && sig@.len() == 65,
    {
        proof {
            use_type_invariant(self);
        }
        match sign_prehash_recoverable(&self.key, digest) {
            Ok(sig) => Ok(sig),
            Err(e) => {
                // The bound key's scalar is valid, so signing cannot fail.
                proof {
                    assert(false);
                }
                Err(e)
            },
        }
    }

    /// The canonical checksum address text of this key.
    pub fn checksum_address(&self) -> (r: String)
        ensures
            r@ == checksum_address_chars(self@.address),
    {
        proof {
            use_type_invariant(self);
        }
        to_checksum_address(&self.address)
    }
}

} // verus!
