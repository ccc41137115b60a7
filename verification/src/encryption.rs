use vstd::prelude::*;

use crate::deterministic_id::{sha256_digest, sha256_of};
use crate::error::Error;
use crate::kdf_nonce::{KdfNonce, KDF_NONCE_BYTES};
use crate::random::try_random_bytes;

verus! {

/// Width of a symmetric encryption key in bytes.
pub const ENCRYPTION_KEY_BYTES: usize = 32;

/// Width of an AEAD nonce in bytes.
pub const AEAD_NONCE_BYTES: usize = 24;

/// The authenticated ciphertext produced by sealing a plaintext under a key
/// and a nonce, named so that contracts can speak of it; its value is fixed
/// by the outside implementation.
pub uninterp spec fn aead_seal(key: Seq<u8>, nonce: Seq<u8>, plaintext: Seq<u8>) -> Seq<u8>;

/// Relies on chacha20poly1305's `XChaCha20Poly1305::encrypt`: the ciphertext
/// is a function of key, nonce and plaintext alone.
#[verifier::external_body]
fn aead_encrypt(key: &[u8], nonce: &[u8], plaintext: &[u8]) -> (r: Result<Vec<u8>, ()>)
    requires
        key@.len() == ENCRYPTION_KEY_BYTES,
        nonce@.len() == AEAD_NONCE_BYTES,
    ensures
        r matches Ok(c) ==> c@ == aead_seal(key@, nonce@, plaintext@),
{
    let cipher = match <chacha20poly1305::XChaCha20Poly1305 as chacha20poly1305::KeyInit>::new_from_slice(
        key,
    ) {
        Ok(c) => c,
        Err(_) => return Err(()),
    };
    let nonce_arr = match chacha20poly1305::XNonce::try_from(nonce) {
        Ok(n) => n,
        Err(_) => return Err(()),
    };
    match chacha20poly1305::aead::Aead::encrypt(&cipher, &nonce_arr, plaintext) {
        Ok(c) => Ok(c),
        Err(_) => Err(()),
    }
}

/// Relies on chacha20poly1305's `XChaCha20Poly1305::decrypt`: decryption
/// inverts `encrypt` under the same key and nonce, and fails on any bytes
/// that are not an authenticated ciphertext under them.
#[verifier::external_body]
fn aead_decrypt(key: &[u8], nonce: &[u8], ciphertext: &[u8]) -> (r: Result<Vec<u8>, ()>)
    requires
        key@.len() == ENCRYPTION_KEY_BYTES,
        nonce@.len() == AEAD_NONCE_BYTES,
    ensures
        match r {
            Ok(p) => ciphertext@ == aead_seal(key@, nonce@, p@) && (forall|q: Seq<u8>|
                ciphertext@ == aead_seal(key@, nonce@, q) ==> q == p@),
            Err(_) => forall|q: Seq<u8>| ciphertext@ != aead_seal(key@, nonce@, q),
        },
{
    let cipher = match <chacha20poly1305::XChaCha20Poly1305 as chacha20poly1305::KeyInit>::new_from_slice(
        key,
    ) {
        Ok(c) => c,
        Err(_) => return Err(()),
    };
    let nonce_arr = match chacha20poly1305::XNonce::try_from(nonce) {
        Ok(n) => n,
        Err(_) => return Err(()),
    };
    match chacha20poly1305::aead::Aead::decrypt(&cipher, &nonce_arr, ciphertext) {
        Ok(p) => Ok(p),
        Err(_) => Err(()),
    }
}

/// Symmetric key material: a key-encryption-key sourced from the keychain, or
/// a data-encryption-key protecting individual secrets. Never persisted in
/// the clear.
pub struct EncryptionKey {
    bytes: Vec<u8>,
}

impl View for EncryptionKey {
    type V = Seq<u8>;

    closed spec fn view(&self) -> Seq<u8> {
        self.bytes@
    }
}

impl EncryptionKey {
    /// Every key is exactly `ENCRYPTION_KEY_BYTES` wide.
    #[verifier::type_invariant]
    pub closed spec fn wf(self) -> bool {
        self.bytes@.len() == ENCRYPTION_KEY_BYTES
    }

    /// A fresh key from the secure random source.
    pub fn random() -> (r: Result<EncryptionKey, Error>)
        ensures
            r matches Err(e) ==> e is Fatal,
    {
        match try_random_bytes(ENCRYPTION_KEY_BYTES) {
            Ok(bytes) => Ok(EncryptionKey { bytes }),
            Err(_) => Err(
                Error::Fatal { error: String::from_str("Failed to generate random bytes") },
            ),
        }
    }

    /// Wraps raw key bytes; rejects any width but `ENCRYPTION_KEY_BYTES`.
    pub fn try_from_bytes(value: Vec<u8>) -> (r: Result<EncryptionKey, Error>)
        ensures
            match r {
                Ok(k) => k@ == value@ && value@.len() == ENCRYPTION_KEY_BYTES,
                Err(e) => e is Fatal && value@.len() != ENCRYPTION_KEY_BYTES,
            },
    {
        if value.len() == ENCRYPTION_KEY_BYTES {
            Ok(EncryptionKey { bytes: value })
        } else {
            Err(Error::Fatal { error: String::from_str("Invalid encryption key width") })
        }
    }

    /// The raw key bytes; handle with care.
    pub fn as_bytes(&self) -> (r: &[u8])
        ensures
            r@ == self@,
            r@.len() == ENCRYPTION_KEY_BYTES,
    {
        proof {
            use_type_invariant(self);
        }
        self.bytes.as_slice()
    }

    /// An identical copy of the key material.
    pub fn duplicate(&self) -> (r: EncryptionKey)
        ensures
            r@ == self@,
    {
        proof {
            use_type_invariant(self);
        }
        let bytes = self.bytes.clone();
        proof {
            assert(bytes@ =~= self.bytes@);
        }
        EncryptionKey { bytes }
    }
}

/// The key actually used to seal a ciphertext: derived from the protecting
/// key and the per-ciphertext KDF nonce, so that no two ciphertexts are
/// sealed under the same working key.
pub open spec fn derived_key(key: Seq<u8>, kdf_nonce: Seq<u8>) -> Seq<u8> {
    sha256_of(key + kdf_nonce)
}

/// Everything persisted about one encryption: the KDF nonce, the AEAD nonce
/// and the authenticated ciphertext. Plaintext is deliberately absent.
pub struct EncryptionOutput {
    kdf_nonce: KdfNonce,
    aead_nonce: Vec<u8>,
    ciphertext: Vec<u8>,
}

/// Spec-level value of an `EncryptionOutput`.
pub struct EncryptionOutputV {
    pub kdf_nonce: Seq<u8>,
    pub aead_nonce: Seq<u8>,
    pub ciphertext: Seq<u8>,
}

impl View for EncryptionOutput {
    type V = EncryptionOutputV;

    closed spec fn view(&self) -> EncryptionOutputV {
        EncryptionOutputV {
            kdf_nonce: self.kdf_nonce@,
            aead_nonce: self.aead_nonce@,
            ciphertext: self.ciphertext@,
        }
    }
}

/// Whether an encryption output is the sealing of `plaintext` under
/// `key` (with the output's own nonces).
pub open spec fn seals(o: EncryptionOutputV, key: Seq<u8>, plaintext: Seq<u8>) -> bool {
    o.ciphertext == aead_seal(derived_key(key, o.kdf_nonce), o.aead_nonce, plaintext)
}

impl EncryptionOutput {
    /// Nonces have their required widths.
    #[verifier::type_invariant]
    pub closed spec fn wf(self) -> bool {
        self.aead_nonce@.len() == AEAD_NONCE_BYTES
    }

    /// Reassembles a persisted encryption output from its parts; rejects an
    /// AEAD nonce of the wrong width.
    pub fn from_parts(kdf_nonce: KdfNonce, aead_nonce: Vec<u8>, ciphertext: Vec<u8>) -> (r: Result<
        EncryptionOutput,
        Error,
    >)
        ensures
            match r {
                Ok(o) => o@.kdf_nonce == kdf_nonce@ && o@.aead_nonce == aead_nonce@
                    && o@.ciphertext == ciphertext@,
                Err(e) => e is Fatal && aead_nonce@.len() != AEAD_NONCE_BYTES,
            },
    {
        if aead_nonce.len() == AEAD_NONCE_BYTES {
            Ok(EncryptionOutput { kdf_nonce, aead_nonce, ciphertext })
        } else {
            Err(Error::Fatal { error: String::from_str("Invalid AEAD nonce width") })
        }
    }

    /// An identical copy of the output.
    pub fn duplicate(&self) -> (r: EncryptionOutput)
        ensures
            r@ == self@,
    {
        proof {
            use_type_invariant(self);
        }
        let aead_nonce = self.aead_nonce.clone();
        let ciphertext = self.ciphertext.clone();
        proof {
            assert(aead_nonce@ =~= self.aead_nonce@);
            assert(ciphertext@ =~= self.ciphertext@);
        }
        EncryptionOutput { kdf_nonce: self.kdf_nonce.duplicate(), aead_nonce, ciphertext }
    }

    /// The per-ciphertext KDF nonce.
    pub fn kdf_nonce(&self) -> (r: &KdfNonce)
        ensures
            r@ == self@.kdf_nonce,
    {
        &self.kdf_nonce
    }

    /// The AEAD nonce.
    pub fn aead_nonce(&self) -> (r: &Vec<u8>)
        ensures
            r@ == self@.aead_nonce,
    {
        &self.aead_nonce
    }

    /// The authenticated ciphertext.
    pub fn ciphertext(&self) -> (r: &Vec<u8>)
        ensures
            r@ == self@.ciphertext,
    {
        &self.ciphertext
    }
}

/// Derives the working key for one ciphertext from the protecting key and
/// the KDF nonce.
fn derive_working_key(key: &EncryptionKey, kdf_nonce: &KdfNonce) -> (r: Vec<u8>)
    ensures
        r@ == derived_key(key@, kdf_nonce@),
        r@.len() == ENCRYPTION_KEY_BYTES,
{
    proof {
        use_type_invariant(key);
    }
    let mut preimage: Vec<u8> = Vec::new();
    preimage.extend_from_slice(key.bytes.as_slice());
    preimage.extend_from_slice(kdf_nonce.as_bytes());
    proof {
        assert(preimage@ =~= key@ + kdf_nonce@);
    }
    sha256_digest(&preimage)
}

/// Authenticated encryption of a secret under a protecting key, with fresh
/// nonces. On success the output seals exactly the given plaintext.
pub fn encrypt_secret(plaintext: &[u8], key: &EncryptionKey) -> (r: Result<EncryptionOutput, Error>)
    ensures
        match r {
            Ok(o) => seals(o@, key@, plaintext@),
            Err(e) => e is Fatal,
        },
{
    let kdf_nonce = match KdfNonce::random() {
        Ok(n) => n,
        Err(e) => return Err(e),
    };
    let aead_nonce = match try_random_bytes(AEAD_NONCE_BYTES) {
        Ok(b) => b,
        Err(_) => return Err(
            Error::Fatal { error: String::from_str("Failed to generate random bytes") },
        ),
    };
    let working_key = derive_working_key(key, &kdf_nonce);
    match aead_encrypt(working_key.as_slice(), aead_nonce.as_slice(), plaintext) {
        Ok(ciphertext) => Ok(EncryptionOutput { kdf_nonce, aead_nonce, ciphertext }),
        Err(_) => Err(Error::Fatal { error: String::from_str("Encryption failed") }),
    }
}

/// Authenticated decryption of a secret under a protecting key. Succeeds
/// exactly when the output seals some plaintext under this key, and then
/// returns that unique plaintext; any authentication failure is Fatal, and a
/// wrong plaintext is never returned silently.
pub fn decrypt_secret(output: &EncryptionOutput, key: &EncryptionKey) -> (r: Result<Vec<u8>, Error>)
    ensures
        match r {
            Ok(p) => seals(output@, key@, p@) && (forall|q: Seq<u8>|
                seals(output@, key@, q) ==> q == p@),
            Err(e) => e is Fatal && (forall|q: Seq<u8>| !seals(output@, key@, q)),
        },
{
    proof {
        use_type_invariant(output);
    }
    let working_key = derive_working_key(key, &output.kdf_nonce);
    match aead_decrypt(working_key.as_slice(), output.aead_nonce.as_slice(),
        output.ciphertext.as_slice()) {
        Ok(p) => Ok(p),
        Err(_) => Err(
            Error::Fatal { error: String::from_str("Ciphertext failed authentication") },
        ),
    }
}

/// The secret keychain boundary: holds the key-encryption-key that protects
/// all data-encryption-keys. Supplied by the embedding application; this core
/// only ever asks for the KEK.
pub struct Keychain {
    sk_kek: Option<EncryptionKey>,
}

impl Keychain {
    /// Whether the keychain holds a KEK.
    pub closed spec fn has_sk_kek(self) -> bool {
        self.sk_kek is Some
    }

    /// The KEK bytes, meaningful only when `has_sk_kek` holds.
    pub closed spec fn spec_sk_kek(self) -> Seq<u8> {
        self.sk_kek->0@
    }

    /// A keychain holding the given KEK.
    pub fn with_sk_kek(kek: EncryptionKey) -> (r: Keychain)
        ensures
            r.has_sk_kek(),
            r.spec_sk_kek() == kek@,
    {
        Keychain { sk_kek: Some(kek) }
    }

    /// An empty (locked or unavailable) keychain.
    pub fn locked() -> (r: Keychain)
        ensures
            !r.has_sk_kek(),
    {
        Keychain { sk_kek: None }
    }

    /// The signing-key KEK. Fails fatally exactly when the keychain is
    /// unavailable.
    pub fn get_sk_kek(&self) -> (r: Result<EncryptionKey, Error>)
        ensures
            match r {
                Ok(k) => self.has_sk_kek() && k@ == self.spec_sk_kek(),
                Err(e) => e is Fatal && !self.has_sk_kek(),
            },
    {
        match &self.sk_kek {
            Some(k) => Ok(k.duplicate()),
            None => Err(Error::Fatal { error: String::from_str("Keychain is unavailable") }),
        }
    }
}

} // verus!
