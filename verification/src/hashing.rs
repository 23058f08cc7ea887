//! Cryptographic digests. The hash functions themselves live in outside
//! crates; this module gives their results a name so that contracts can speak
//! of them.

use crate::keys::bytes_eq;
use fastcrypto::hash::HashFunction;
use vstd::prelude::*;

verus! {

/// A 32-byte digest.
pub type Digest = [u8; 32];

/// The BLAKE3 hash of `input`, as `fleek_blake3::hash` computes it.
pub uninterp spec fn blake3_hash(input: Seq<u8>) -> Seq<u8>;

/// The BLAKE2b-256 digest of the byte strings `items`, fed to the hasher one
/// after the other, as `fastcrypto`'s `Blake2b256::digest_iterator` computes it.
pub uninterp spec fn blake2b_256_of_all(items: Seq<Seq<u8>>) -> Seq<u8>;

/// The byte strings that a vector of byte vectors holds.
pub open spec fn byte_strings(items: Seq<Vec<u8>>) -> Seq<Seq<u8>> {
    Seq::new(items.len(), |i: int| items[i]@)
}

/// Calls `fleek_blake3::hash` on the whole input. Trusted: the result is the
/// BLAKE3 hash of the input, a function of the input bytes alone.
#[verifier::external_body]
pub(crate) fn blake3(input: &Vec<u8>) -> (out: Digest)
    ensures
        out@ == blake3_hash(input@),
{
    fleek_blake3::hash(input.as_slice()).into()
}

/// Calls `fastcrypto::hash::Blake2b256::digest_iterator` on the items in
/// order. Trusted: the result is a function of the sequence of items alone.
#[verifier::external_body]
pub(crate) fn blake2b_256_all(items: &Vec<Vec<u8>>) -> (out: Digest)
    ensures
        out@ == blake2b_256_of_all(byte_strings(items@)),
{
    fastcrypto::hash::Blake2b256::digest_iterator(items.iter()).digest
}

/// The digest of all zeros, which stands where there is no block yet.
pub open spec fn zero_digest_spec() -> Digest {
    vstd::array::spec_array_fill_for_copy_type::<u8, 32>(0u8)
}

/// Makes the digest of all zeros.
pub fn zero_digest() -> (d: Digest)
    ensures
        d == zero_digest_spec(),
        forall|i: int| 0 <= i < 32 ==> d[i] == 0u8,
{
    [0u8;32]
}

/// Whether two digests hold the same bytes.
pub fn digest_eq(a: &Digest, b: &Digest) -> (same: bool)
    ensures
        same == (*a == *b),
{
    bytes_eq(a, b)
}

} // verus!
