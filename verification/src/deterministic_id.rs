use vstd::prelude::*;

use vstd::bytes::{spec_u64_to_le_bytes, u64_to_le_bytes};
use vstd::utf8::encode_utf8;

use crate::hexfmt::{bytes_to_lower_hex, lower_hex_chars};
use crate::text::chars_to_string;

verus! {

/// Entity kinds that deterministic ids are computed for. The kind acts as a
/// domain separator: ids of different kinds are derived from distinct digest
/// preimages.
#[derive(Clone, Copy, Debug, PartialEq, Eq, Structural)]
pub enum EntityName {
    Account,
    Address,
    AsymmetricKey,
    Chain,
    Dapp,
    DataEncryptionKey,
}

/// Domain-separation tag of an entity kind: one distinct byte per kind.
pub open spec fn entity_tag(e: EntityName) -> u8 {
    match e {
        EntityName::Account => 1,
        EntityName::Address => 2,
        EntityName::AsymmetricKey => 3,
        EntityName::Chain => 4,
        EntityName::Dapp => 5,
        EntityName::DataEncryptionKey => 6,
    }
}

fn entity_tag_byte(e: EntityName) -> (r: u8)
    ensures
        r == entity_tag(e),
{
    match e {
        EntityName::Account => 1,
        EntityName::Address => 2,
        EntityName::AsymmetricKey => 3,
        EntityName::Chain => 4,
        EntityName::Dapp => 5,
        EntityName::DataEncryptionKey => 6,
    }
}

/// Length-prefixed encoding of one unique-column value, so that column
/// boundaries are unambiguous and `("x", "y")` can never collide with
/// `("xy",)`.
pub open spec fn column_encoding(c: Seq<u8>) -> Seq<u8> {
    spec_u64_to_le_bytes(c.len() as u64) + c
}

/// Encoding of the ordered unique-column values, one after the other.
pub open spec fn columns_encoding(cols: Seq<Seq<u8>>) -> Seq<u8>
    decreases cols.len(),
{
    if cols.len() == 0 {
        Seq::empty()
    } else {
        columns_encoding(cols.drop_last()) + column_encoding(cols.last())
    }
}

/// Digest preimage of a deterministic id: the kind tag, the column count,
/// then the length-prefixed columns.
pub open spec fn id_preimage(e: EntityName, cols: Seq<Seq<u8>>) -> Seq<u8> {
    seq![entity_tag(e)] + spec_u64_to_le_bytes(cols.len() as u64) + columns_encoding(cols)
}

/// The SHA-256 digest of a byte sequence, named so that contracts can speak
/// of it; its value is fixed by the outside implementation.
pub uninterp spec fn sha256_of(bytes: Seq<u8>) -> Seq<u8>;

/// Relies on sha2's `Sha256::digest`: the digest is 32 bytes and a function
/// of the input bytes alone.
#[verifier::external_body]
pub(crate) fn sha256_digest(input: &Vec<u8>) -> (r: Vec<u8>)
    ensures
        r@ == sha256_of(input@),
        r@.len() == 32,
{
    <sha2::Sha256 as sha2::Digest>::digest(input.as_slice()).as_slice().to_vec()
}

/// The deterministic id of an entity: lower-case hex of the digest of its
/// domain-separated preimage. Identical inputs always yield the identical id.
pub open spec fn deterministic_id_chars(e: EntityName, cols: Seq<Seq<u8>>) -> Seq<char> {
    lower_hex_chars(sha256_of(id_preimage(e, cols)))
}

/// Column values of a string sequence, as the UTF-8 bytes of each string.
pub open spec fn columns_of_strings(cols: Seq<Seq<char>>) -> Seq<Seq<u8>> {
    cols.map_values(|c: Seq<char>| encode_utf8(c))
}

/// Computes the deterministic id of an entity from its kind and its ordered
/// unique-column values. Pure and total: the result is a function of the
/// inputs alone, so repeated computation always yields the identical id.
pub fn compute_deterministic_id(e: EntityName, cols: &Vec<String>) -> (r: String)
    ensures
        r@ == deterministic_id_chars(e, columns_of_strings(cols@.map_values(|s: String| s@))),
{
    let ghost cviews: Seq<Seq<u8>> = columns_of_strings(cols@.map_values(|s: String| s@));
    let mut preimage: Vec<u8> = Vec::new();
    preimage.push(entity_tag_byte(e));
    let count_bytes = u64_to_le_bytes(cols.len() as u64);
    preimage.extend_from_slice(count_bytes.as_slice());
    proof {
        assert(cviews.len() == cols@.len());
        assert(preimage@ =~= seq![entity_tag(e)] + spec_u64_to_le_bytes(cviews.len() as u64));
        assert(cviews.take(0) =~= Seq::<Seq<u8>>::empty());
    }
    let mut i: usize = 0;
    while i < cols.len()
        invariant
            i <= cols@.len(),
            cviews.len() == cols@.len(),
            cviews == columns_of_strings(cols@.map_values(|s: String| s@)),
            preimage@ == seq![entity_tag(e)] + spec_u64_to_le_bytes(cviews.len() as u64)
                + columns_encoding(cviews.take(i as int)),
        decreases cols@.len() - i,
    {
        let col_bytes = cols[i].as_str().as_bytes_vec();
        let len_bytes = u64_to_le_bytes(col_bytes.len() as u64);
        preimage.extend_from_slice(len_bytes.as_slice());
        preimage.extend_from_slice(col_bytes.as_slice());
        proof {
            assert(cviews[i as int] == encode_utf8(cols@[i as int]@));
            assert(col_bytes@ == cviews[i as int]);
            assert(cviews.take(i + 1 as int).drop_last() =~= cviews.take(i as int));
            assert(cviews.take(i + 1 as int).last() == cviews[i as int]);
            assert(columns_encoding(cviews.take(i + 1 as int)) == columns_encoding(
                cviews.take(i as int),
            ) + column_encoding(cviews[i as int]));
            assert(preimage@ =~= seq![entity_tag(e)] + spec_u64_to_le_bytes(cviews.len() as u64)
                + columns_encoding(cviews.take(i + 1 as int)));
        }
        i = i + 1;
    }
    proof {
        assert(cviews.take(cviews.len() as int) =~= cviews);
    }
    let digest = sha256_digest(&preimage);
    let hex = bytes_to_lower_hex(digest.as_slice());
    chars_to_string(&hex)
}

/// Determinism: two computations of a deterministic id from identical kind
/// and column values yield the identical id, across processes and versions.
pub proof fn lemma_deterministic_id_stable(
    e: EntityName,
    cols: Seq<Seq<u8>>,
    r1: Seq<char>,
    r2: Seq<char>,
)
    requires
        r1 == deterministic_id_chars(e, cols),
        r2 == deterministic_id_chars(e, cols),
    ensures
        r1 == r2,
{
}

/// Domain separation: distinct entity kinds never share a digest preimage,
/// whatever the column values of each, because the preimages differ in their
/// first byte.
pub proof fn lemma_id_domain_separation(
    e1: EntityName,
    e2: EntityName,
    cols1: Seq<Seq<u8>>,
    cols2: Seq<Seq<u8>>,
)
    requires
        e1 != e2,
    ensures
        id_preimage(e1, cols1) != id_preimage(e2, cols2),
{
    assert(id_preimage(e1, cols1)[0] == entity_tag(e1));
    assert(id_preimage(e2, cols2)[0] == entity_tag(e2));
}

} // verus!
