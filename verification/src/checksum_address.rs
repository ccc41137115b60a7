use vstd::prelude::*;

use crate::error::Error;
use crate::hexfmt::{hex_char_val, hex_char_value, is_hex_char, lower_hex_digit, nibble_at};
use crate::text::chars_to_string;

verus! {

/// Width of a chain address in bytes.
pub const ETH_ADDRESS_BYTES: usize = 20;

/// The Keccak-256 digest of a byte sequence, named so that contracts can
/// speak of it; its value is fixed by the outside implementation.
pub uninterp spec fn keccak256_of(bytes: Seq<u8>) -> Seq<u8>;

/// Relies on tiny-keccak's `Keccak::v256`: the digest is 32 bytes and a
/// function of the input bytes alone.
#[verifier::external_body]
fn keccak256_digest(input: &Vec<u8>) -> (r: Vec<u8>)
    ensures
        r@ == keccak256_of(input@),
        r@.len() == 32,
{
    let mut hasher = tiny_keccak::Keccak::v256();
    let mut output = [0u8; 32];
    tiny_keccak::Hasher::update(&mut hasher, input.as_slice());
    tiny_keccak::Hasher::finalize(hasher, &mut output);
    output.to_vec()
}

/// ASCII bytes of the lower-case hex text of the address bytes: the input
/// that the checksum digest is taken over.
pub open spec fn lower_hex_ascii(b: Seq<u8>) -> Seq<u8> {
    Seq::new(b.len() * 2, |i: int| lower_hex_digit(nibble_at(b, i)))
}

/// One checksummed hex char: a letter is upper-cased exactly when the
/// matching digest nibble is 8 or more; digits keep their shape.
pub open spec fn checksum_char(n: u8, h: u8) -> char
    recommends
        n < 16,
        h < 16,
{
    if n < 10 {
        (48 + n) as char
    } else if h >= 8 {
        (55 + n) as char
    } else {
        (87 + n) as char
    }
}

/// The 40 checksummed hex chars of 20 address bytes.
pub open spec fn checksum_chars(b: Seq<u8>) -> Seq<char> {
    Seq::new(
        b.len() * 2,
        |i: int|
            checksum_char(nibble_at(b, i), nibble_at(keccak256_of(lower_hex_ascii(b)), i)),
    )
}

/// The canonical mixed-case checksum text of 20 address bytes: `0x` then the
/// 40 checksummed hex chars.
pub open spec fn checksum_address_chars(b: Seq<u8>) -> Seq<char> {
    seq!['0', 'x'] + checksum_chars(b)
}

/// A checksummed hex char is a hex char, and its hex value is the nibble it
/// encodes, whatever the digest nibble decided about its case.
proof fn lemma_checksum_char_hex(n: u8, h: u8)
    requires
        n < 16,
    ensures
        is_hex_char(checksum_char(n, h)),
        hex_char_val(checksum_char(n, h)) == n,
{
}

/// The canonical checksum text of 20 address bytes is 42 chars wide.
proof fn lemma_checksum_address_len(b: Seq<u8>)
    ensures
        checksum_address_chars(b).len() == 2 + 2 * b.len(),
{
    assert(checksum_chars(b).len() == 2 * b.len());
}

/// The canonical checksum text determines the address bytes: whoever's
/// checksum text `s` is, its bytes are the hex values read back from `s`.
proof fn lemma_unique_preimage(s: Seq<char>, bytes: Seq<u8>, b: Seq<u8>)
    requires
        bytes.len() == ETH_ADDRESS_BYTES,
        b.len() == ETH_ADDRESS_BYTES,
        s == checksum_address_chars(b),
        forall|j: int|
            0 <= j < ETH_ADDRESS_BYTES ==> bytes[j] == hex_char_val(s[2 + 2 * j]) * 16
                + hex_char_val(s[2 + 2 * j + 1]),
    ensures
        b == bytes,
{
    assert forall|j: int| 0 <= j < ETH_ADDRESS_BYTES implies b[j] == bytes[j] by {
        let hi = nibble_at(b, 2 * j);
        let lo = nibble_at(b, 2 * j + 1);
        let hh = nibble_at(keccak256_of(lower_hex_ascii(b)), 2 * j);
        let lh = nibble_at(keccak256_of(lower_hex_ascii(b)), 2 * j + 1);
        assert(checksum_chars(b).len() == 2 * b.len());
        assert(s[2 + 2 * j] == checksum_chars(b)[2 * j]);
        assert(checksum_chars(b)[2 * j] == checksum_char(hi, hh));
        assert(s[2 + 2 * j + 1] == checksum_chars(b)[2 * j + 1]);
        assert(checksum_chars(b)[2 * j + 1] == checksum_char(lo, lh));
        assert(b[j] < 256);
        assert(hi < 16 && lo < 16);
        lemma_checksum_char_hex(hi, hh);
        lemma_checksum_char_hex(lo, lh);
        assert(bytes[j] == hi * 16 + lo);
        assert(b[j] == 16 * (b[j] / 16) + b[j] % 16);
    }
    assert(b =~= bytes);
}

fn checksum_char_exec(n: u8, h: u8) -> (c: char)
    requires
        n < 16,
    ensures
        c == checksum_char(n, h),
{
    if n < 10 {
        (48 + n) as char
    } else if h >= 8 {
        (55 + n) as char
    } else {
        (87 + n) as char
    }
}

/// The canonical checksum chars of the address bytes, prefix included.
fn to_checksum_chars(bytes: &Vec<u8>) -> (r: Vec<char>)
    requires
        bytes@.len() == ETH_ADDRESS_BYTES,
    ensures
        r@ == checksum_address_chars(bytes@),
{
    let mut hex_ascii: Vec<u8> = Vec::new();
    let mut i: usize = 0;
    while i < bytes.len()
        invariant
            bytes@.len() == ETH_ADDRESS_BYTES,
            i <= bytes@.len(),
            hex_ascii@.len() == 2 * i,
            forall|j: int| 0 <= j < 2 * i ==> hex_ascii@[j] == lower_hex_ascii(bytes@)[j],
        decreases bytes@.len() - i,
    {
        let hi: u8 = bytes[i] / 16;
        let lo: u8 = bytes[i] % 16;
        hex_ascii.push(if hi < 10 {
            48 + hi
        } else {
            87 + hi
        });
        hex_ascii.push(if lo < 10 {
            48 + lo
        } else {
            87 + lo
        });
        proof {
            assert(nibble_at(bytes@, 2 * i as int) == bytes@[i as int] / 16);
            assert(nibble_at(bytes@, 2 * i as int + 1) == bytes@[i as int] % 16);
        }
        i = i + 1;
    }
    proof {
        assert(hex_ascii@ =~= lower_hex_ascii(bytes@));
    }
    let digest = keccak256_digest(&hex_ascii);
    let ghost cs = checksum_chars(bytes@);
    let mut out: Vec<char> = Vec::new();
    out.push('0');
    out.push('x');
    let mut i: usize = 0;
    while i < bytes.len()
        invariant
            bytes@.len() == ETH_ADDRESS_BYTES,
            digest@ == keccak256_of(lower_hex_ascii(bytes@)),
            digest@.len() == 32,
            cs == checksum_chars(bytes@),
            i <= bytes@.len(),
            out@.len() == 2 + 2 * i,
            out@[0] == '0',
            out@[1] == 'x',
            forall|j: int| 0 <= j < 2 * i ==> out@[2 + j] == cs[j],
        decreases bytes@.len() - i,
    {
        let hi_n: u8 = bytes[i] / 16;
        let lo_n: u8 = bytes[i] % 16;
        let hi_h: u8 = digest[i] / 16;
        let lo_h: u8 = digest[i] % 16;
        out.push(checksum_char_exec(hi_n, hi_h));
        out.push(checksum_char_exec(lo_n, lo_h));
        proof {
            assert(nibble_at(bytes@, 2 * i as int) == bytes@[i as int] / 16);
            assert(nibble_at(bytes@, 2 * i as int + 1) == bytes@[i as int] % 16);
            assert(nibble_at(digest@, 2 * i as int) == digest@[i as int] / 16);
            assert(nibble_at(digest@, 2 * i as int + 1) == digest@[i as int] % 16);
        }
        i = i + 1;
    }
    proof {
        assert forall|k: int| 0 <= k < 42 implies out@[k] == checksum_address_chars(bytes@)[k] by {
            if k >= 2 {
                assert(checksum_address_chars(bytes@)[k] == cs[k - 2]);
                assert(out@[2 + (k - 2)] == cs[k - 2]);
            }
        }
        assert(out@ =~= checksum_address_chars(bytes@));
    }
    out
}

/// The canonical mixed-case checksum text of the address bytes.
pub fn to_checksum_address(bytes: &Vec<u8>) -> (r: String)
    requires
        bytes@.len() == ETH_ADDRESS_BYTES,
    ensures
        r@ == checksum_address_chars(bytes@),
{
    let chars = to_checksum_chars(bytes);
    chars_to_string(&chars)
}

fn not_address_error() -> (r: Error)
    ensures
        r is User,
{
    Error::User { explanation: String::from_str("This doesn't look like an Ethereum address.") }
}

fn checksum_required_error() -> (r: Error)
    ensures
        r is User,
{
    Error::User { explanation: String::from_str("A checksum address is required here.") }
}

/// Parses a checksum address text into its 20 address bytes. Succeeds exactly
/// on the canonical mixed-case checksum text of some address: a lower-cased,
/// re-cased or otherwise altered text is rejected with a User-class error.
#[verifier::rlimit(60)]
pub fn parse_checksum_address(check_sum_address: &str) -> (r: Result<Vec<u8>, Error>)
    ensures
        match r {
            Ok(a) => a@.len() == ETH_ADDRESS_BYTES && check_sum_address@
                == checksum_address_chars(a@),
            Err(e) => e is User && (forall|b: Seq<u8>| #![trigger checksum_address_chars(b)]
                b.len() == ETH_ADDRESS_BYTES ==> check_sum_address@ != checksum_address_chars(b)),
        },
{
    let s = check_sum_address;
    let n = s.unicode_len();
    if n != 40 && n != 42 {
        proof {
            assert forall|b: Seq<u8>| #![trigger checksum_address_chars(b)] b.len()
                == ETH_ADDRESS_BYTES implies s@ != checksum_address_chars(b) by {
                lemma_checksum_address_len(b);
            }
        }
        return Err(not_address_error());
    }
    let offset: usize = if n == 42 {
        let c0 = s.get_char(0);
        let c1 = s.get_char(1);
        if !(c0 == '0' && c1 == 'x') {
            proof {
                assert forall|b: Seq<u8>| #![trigger checksum_address_chars(b)] b.len()
                    == ETH_ADDRESS_BYTES implies s@ != checksum_address_chars(b) by {
                    if s@ == checksum_address_chars(b) {
                        assert(s@[0] == '0');
                        assert(s@[1] == 'x');
                        assert(false);
                    }
                }
            }
            return Err(not_address_error());
        }
        2
    } else {
        0
    };
    let mut bytes: Vec<u8> = Vec::new();
    let mut i: usize = 0;
    while i < ETH_ADDRESS_BYTES
        invariant
            s@ == check_sum_address@,
            s@.len() == n,
            n == 40 || n == 42,
            offset == if n == 42 {
                2int
            } else {
                0int
            },
            i <= ETH_ADDRESS_BYTES,
            bytes@.len() == i,
            forall|j: int|
                0 <= j < i ==> bytes@[j] == hex_char_val(s@[offset + 2 * j]) * 16 + hex_char_val(
                    s@[offset + 2 * j + 1],
                ),
        decreases ETH_ADDRESS_BYTES - i,
    {
        let c1 = s.get_char(offset + 2 * i);
        let c2 = s.get_char(offset + 2 * i + 1);
        let v1 = match hex_char_value(c1) {
            Some(v) => v,
            None => {
                proof {
                    assert forall|b: Seq<u8>| #![trigger checksum_address_chars(b)] b.len()
                        == ETH_ADDRESS_BYTES implies s@ != checksum_address_chars(b) by {
                        lemma_checksum_address_len(b);
                        if s@ == checksum_address_chars(b) {
                            assert(s@.len() == 42);
                            assert(offset == 2);
                            let hi = nibble_at(b, 2 * i as int);
                            let hh = nibble_at(keccak256_of(lower_hex_ascii(b)), 2 * i as int);
                            assert(checksum_chars(b).len() == 2 * b.len());
                            assert(s@[2 + 2 * i as int] == checksum_chars(b)[2 * i as int]);
                            assert(checksum_chars(b)[2 * i as int] == checksum_char(hi, hh));
                            assert(b[i as int] < 256);
                            assert(hi < 16);
                            lemma_checksum_char_hex(hi, hh);
                            assert(!is_hex_char(s@[offset + 2 * i as int]));
                            assert(false);
                        }
                    }
                }
                return Err(not_address_error());
            },
        };
        let v2 = match hex_char_value(c2) {
            Some(v) => v,
            None => {
                proof {
                    assert forall|b: Seq<u8>| #![trigger checksum_address_chars(b)] b.len()
                        == ETH_ADDRESS_BYTES implies s@ != checksum_address_chars(b) by {
                        lemma_checksum_address_len(b);
                        if s@ == checksum_address_chars(b) {
                            assert(s@.len() == 42);
                            assert(offset == 2);
                            let lo = nibble_at(b, 2 * i as int + 1);
                            let lh = nibble_at(keccak256_of(lower_hex_ascii(b)), 2 * i as int + 1);
                            assert(checksum_chars(b).len() == 2 * b.len());
                            assert(s@[2 + (2 * i as int + 1)] == checksum_chars(b)[2 * i as int
                                + 1]);
                            assert(checksum_chars(b)[2 * i as int + 1] == checksum_char(lo, lh));
                            assert(b[i as int] < 256);
                            assert(lo < 16);
                            lemma_checksum_char_hex(lo, lh);
                            assert(!is_hex_char(s@[offset + 2 * i as int + 1]));
                            assert(false);
                        }
                    }
                }
                return Err(not_address_error());
            },
        };
        bytes.push(v1 * 16 + v2);
        i = i + 1;
    }
    if n != 42 {
        proof {
            assert forall|b: Seq<u8>| #![trigger checksum_address_chars(b)] b.len()
                == ETH_ADDRESS_BYTES implies s@ != checksum_address_chars(b) by {
                lemma_checksum_address_len(b);
            }
        }
        return Err(checksum_required_error());
    }
    let canonical = to_checksum_chars(&bytes);
    let mut k: usize = 0;
    while k < 42
        invariant
            s@ == check_sum_address@,
            s@.len() == 42,
            offset == 2,
            bytes@.len() == ETH_ADDRESS_BYTES,
            canonical@ == checksum_address_chars(bytes@),
            canonical@.len() == 42,
            forall|j: int|
                0 <= j < ETH_ADDRESS_BYTES ==> bytes@[j] == hex_char_val(s@[2 + 2 * j]) * 16
                    + hex_char_val(s@[2 + 2 * j + 1]),
            k <= 42,
            forall|j: int| 0 <= j < k ==> s@[j] == canonical@[j],
        decreases 42 - k,
    {
        let sc = s.get_char(k);
        let cc = canonical[k];
        if sc != cc {
            proof {
                assert forall|b: Seq<u8>| #![trigger checksum_address_chars(b)] b.len()
                    == ETH_ADDRESS_BYTES implies s@ != checksum_address_chars(b) by {
                    if s@ == checksum_address_chars(b) {
                        lemma_unique_preimage(s@, bytes@, b);
                        assert(checksum_address_chars(b) == checksum_address_chars(bytes@));
                        assert(s@[k as int] == canonical@[k as int]);
                        assert(false);
                    }
                }
            }
            return Err(checksum_required_error());
        }
        k = k + 1;
    }
    proof {
        assert(s@ =~= canonical@);
    }
    Ok(bytes)
}

/// Validates that the text is the canonical mixed-case checksum address of
/// some address bytes; any other casing or shape is a User-class error.
pub fn validate_checksum_address(check_sum_address: &str) -> (r: Result<(), Error>)
    ensures
        match r {
            Ok(_) => exists|b: Seq<u8>|
                b.len() == ETH_ADDRESS_BYTES && check_sum_address@ == checksum_address_chars(b),
            Err(e) => e is User && (forall|b: Seq<u8>| #![trigger checksum_address_chars(b)]
                b.len() == ETH_ADDRESS_BYTES ==> check_sum_address@ != checksum_address_chars(b)),
        },
{
    match parse_checksum_address(check_sum_address) {
        Ok(bytes) => {
            proof {
                assert(bytes@.len() == ETH_ADDRESS_BYTES && check_sum_address@
                    == checksum_address_chars(bytes@));
            }
            Ok(())
        },
        Err(e) => Err(e),
    }
}

/// The address bytes that belong to an uncompressed SEC1 public key: the last
/// 20 bytes of the Keccak-256 digest of its coordinates.
pub open spec fn eth_address_of_public_key(pk: Seq<u8>) -> Seq<u8> {
    keccak256_of(pk.skip(1)).skip(12)
}

/// The 20 address bytes belonging to an uncompressed SEC1 public key.
pub fn eth_address_bytes_of_public_key(public_key: &Vec<u8>) -> (r: Vec<u8>)
    requires
        public_key@.len() == 65,
    ensures
        r@ == eth_address_of_public_key(public_key@),
        r@.len() == ETH_ADDRESS_BYTES,
{
    let mut body: Vec<u8> = Vec::new();
    let mut i: usize = 1;
    while i < 65
        invariant
            public_key@.len() == 65,
            1 <= i <= 65,
            body@.len() == i - 1,
            forall|j: int| 0 <= j < i - 1 ==> body@[j] == public_key@[j + 1],
        decreases 65 - i,
    {
        body.push(public_key[i]);
        i = i + 1;
    }
    proof {
        assert(body@ =~= public_key@.skip(1));
    }
    let digest = keccak256_digest(&body);
    let mut addr: Vec<u8> = Vec::new();
    let mut i: usize = 12;
    while i < 32
        invariant
            digest@.len() == 32,
            digest@ == keccak256_of(public_key@.skip(1)),
            12 <= i <= 32,
            addr@.len() == i - 12,
            forall|j: int| 0 <= j < i - 12 ==> addr@[j] == digest@[j + 12],
        decreases 32 - i,
    {
        addr.push(digest[i]);
        i = i + 1;
    }
    proof {
        assert(addr@ =~= keccak256_of(public_key@.skip(1)).skip(12));
    }
    addr
}

/// Derives the canonical checksum address text of an uncompressed SEC1
/// public key (65 bytes starting with the uncompressed-point tag 4).
pub fn public_key_to_checksum_address(public_key: &Vec<u8>) -> (r: Result<String, Error>)
    ensures
        match r {
            Ok(s) => public_key@.len() == 65 && public_key@[0] == 4 && s@
                == checksum_address_chars(eth_address_of_public_key(public_key@)),
            Err(e) => e is Fatal && !(public_key@.len() == 65 && public_key@[0] == 4),
        },
{
    if public_key.len() != 65 {
        return Err(Error::Fatal { error: String::from_str("Invalid public key encoding") });
    }
    if public_key[0] != 4 {
        return Err(Error::Fatal { error: String::from_str("Invalid public key encoding") });
    }
    let addr = eth_address_bytes_of_public_key(public_key);
    Ok(to_checksum_address(&addr))
}

} // verus!
