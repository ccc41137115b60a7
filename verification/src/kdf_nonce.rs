use vstd::prelude::*;

use crate::error::Error;
use crate::random::try_random_bytes;

verus! {

/// The canonical base64 text of a byte sequence, named so that contracts can
/// speak of it; its value is fixed by the outside implementation.
pub uninterp spec fn base64_of(bytes: Seq<u8>) -> Seq<char>;

/// Relies on base64's `STANDARD` engine `encode`: the text is a function of
/// the input bytes alone, four chars (padding included) for every three
/// bytes begun.
#[verifier::external_body]
fn base64_encode(bytes: &[u8]) -> (r: String)
    ensures
        r@ == base64_of(bytes@),
        r@.len() == 4 * ((bytes@.len() + 2) / 3),
{
    base64::Engine::encode(&base64::engine::general_purpose::STANDARD, bytes)
}

/// Relies on base64's `STANDARD` engine `decode`, which accepts exactly the
/// canonical padded encodings: decoding inverts encoding, and fails on any
/// text that no byte sequence encodes to.
#[verifier::external_body]
fn base64_decode(s: &str) -> (r: Result<Vec<u8>, ()>)
    ensures
        match r {
            Ok(b) => s@ == base64_of(b@) && (forall|c: Seq<u8>| s@ == base64_of(c) ==> c == b@),
            Err(_) => forall|c: Seq<u8>| s@ != base64_of(c),
        },
{
    match base64::Engine::decode(&base64::engine::general_purpose::STANDARD, s) {
        Ok(b) => Ok(b),
        Err(_) => Err(()),
    }
}

/// Fixed-width random value used as auxiliary randomness for key derivation.
/// Immutable once created; persisted only in its encoded text form.
pub struct KdfNonce {
    bytes: Vec<u8>,
}

/// The width of a KDF nonce in bytes.
pub const KDF_NONCE_BYTES: usize = 16;

impl View for KdfNonce {
    type V = Seq<u8>;

    closed spec fn view(&self) -> Seq<u8> {
        self.bytes@
    }
}

impl KdfNonce {
    /// Every nonce is exactly `KDF_NONCE_BYTES` wide.
    #[verifier::type_invariant]
    pub closed spec fn wf(self) -> bool {
        self.bytes@.len() == KDF_NONCE_BYTES
    }

    /// A fresh nonce from the secure random source.
    pub fn random() -> (r: Result<KdfNonce, Error>)
        ensures
            r matches Ok(n) ==> n@.len() == KDF_NONCE_BYTES,
            r matches Err(e) ==> e is Fatal,
    {
        match try_random_bytes(KDF_NONCE_BYTES) {
            Ok(bytes) => Ok(KdfNonce { bytes }),
            Err(_) => Err(
                Error::Fatal { error: String::from_str("Failed to generate random bytes") },
            ),
        }
    }

    /// Wraps raw bytes as a nonce; rejects any width but `KDF_NONCE_BYTES`.
    pub fn try_from_bytes(value: Vec<u8>) -> (r: Result<KdfNonce, Error>)
        ensures
            match r {
                Ok(n) => n@ == value@ && value@.len() == KDF_NONCE_BYTES,
                Err(e) => e is Fatal && value@.len() != KDF_NONCE_BYTES,
            },
    {
        if value.len() == KDF_NONCE_BYTES {
            Ok(KdfNonce { bytes: value })
        } else {
            Err(Error::Fatal { error: String::from_str("Failed to convert value to kdf nonce") })
        }
    }

    /// An identical copy of the nonce.
    pub fn duplicate(&self) -> (r: KdfNonce)
        ensures
            r@ == self@,
    {
        proof {
            use_type_invariant(self);
        }
        let bytes = self.bytes.clone();
        proof {
            assert(bytes@ =~= self.bytes@);
        }
        KdfNonce { bytes }
    }

    /// The nonce bytes.
    pub fn as_bytes(&self) -> (r: &[u8])
        ensures
            r@ == self@,
            r@.len() == KDF_NONCE_BYTES,
    {
        proof {
            use_type_invariant(self);
        }
        self.bytes.as_slice()
    }

    /// The compact text encoding of the nonce, 24 chars wide. Together with
    /// `decode`, this round-trips: decoding the encoded text of any nonce
    /// yields exactly the original nonce bytes.
    pub fn encode(&self) -> (r: String)
        ensures
            r@ == base64_of(self@),
            r@.len() == 24,
    {
        proof {
            use_type_invariant(self);
        }
        base64_encode(self.bytes.as_slice())
    }

    /// Parses the compact text encoding. Succeeds exactly on the canonical
    /// encodings of `KDF_NONCE_BYTES`-wide byte sequences, and then returns
    /// the unique nonce whose encoding is the input: decode inverts encode.
    pub fn decode(s: &str) -> (r: Result<KdfNonce, Error>)
        ensures
            match r {
                Ok(n) => s@ == base64_of(n@) && n@.len() == KDF_NONCE_BYTES && (forall|b: Seq<u8>|
                    s@ == base64_of(b) ==> b == n@),
                Err(e) => e is Fatal && (forall|b: Seq<u8>|
                    b.len() == KDF_NONCE_BYTES ==> s@ != base64_of(b)),
            },
    {
        match base64_decode(s) {
            Ok(buffer) => {
                let ghost decoded = buffer@;
                match Self::try_from_bytes(buffer) {
                    Ok(n) => Ok(n),
                    Err(e) => {
                        proof {
                            assert forall|b: Seq<u8>| b.len() == KDF_NONCE_BYTES implies s@
                                != base64_of(b) by {
                                if s@ == base64_of(b) {
                                    assert(b == decoded);
                                }
                            }
                        }
                        Err(e)
                    },
                }
            },
            Err(_) => Err(
                Error::Fatal { error: String::from_str("Failed to decode kdf nonce text") },
            ),
        }
    }
}

} // verus!
