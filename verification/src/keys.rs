//! Identifiers of the network: keys, addresses and indices.

use vstd::prelude::*;

verus! {

/// Monotonically increasing number of an epoch.
pub type Epoch = u64;

/// Dense index of a node, given out when the node is first staked.
pub type NodeIndex = u32;

/// Identifier of a service.
pub type ServiceId = u32;

/// Public key of a node.
pub type NodeKey = [u8; 32];

/// Consensus public key of a node.
pub type ConsensusKey = [u8; 96];

/// Address of an account, derived from the account's public key.
pub type Address = [u8; 20];

/// Signature over a digest.
pub type SignatureBytes = [u8; 64];

/// Whether two byte arrays of one length hold the same bytes.
pub fn bytes_eq<const N: usize>(a: &[u8; N], b: &[u8; N]) -> (same: bool)
    ensures
        same == (*a == *b),
{
    let mut i: usize = 0;
    while i < N
        invariant
            i <= N,
            forall|k: int| 0 <= k < i ==> a[k] == b[k],
        decreases N - i,
    {
        if a[i] != b[i] {
            return false;
        }
        i += 1;
    }
    assert(*a =~= *b);
    true
}

/// The array that holds the bytes `bytes`.
pub open spec fn array_of<const N: usize>(bytes: Seq<u8>) -> [u8; N] {
    choose|a: [u8; N]| a@ == bytes
}

/// An array is the array of its own bytes.
pub proof fn lemma_array_of<const N: usize>(a: [u8; N])
    ensures
        array_of::<N>(a@) == a,
{
    let c = array_of::<N>(a@);
    assert(c@ == a@);
    assert(c =~= a);
}

/// Reads an array out of a vector of bytes.
pub fn read_array<const N: usize>(bytes: &Vec<u8>, at: usize) -> (a: [u8; N])
    requires
        at + N <= bytes.len(),
    ensures
        a@ == bytes@.subrange(at as int, at + N),
        a == array_of::<N>(bytes@.subrange(at as int, at + N)),
{
    let mut a: [u8; N] = [0u8;N];
    let mut i: usize = 0;
    while i < N
        invariant
            i <= N,
            at + N <= bytes.len(),
            forall|k: int| 0 <= k < i ==> a@[k] == bytes@[at + k],
        decreases N - i,
    {
        a[i] = bytes[at + i];
        i += 1;
    }
    assert(a@ =~= bytes@.subrange(at as int, at + N));
    proof {
        lemma_array_of(a);
    }
    a
}

/// An internet address of either family.
#[derive(Clone, Copy, Debug, PartialEq, Eq)]
pub enum IpAddress {
    V4([u8; 4]),
    V6([u8; 16]),
}

} // verus!
