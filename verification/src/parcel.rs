//! Parcels and attestations: how a node that does not run consensus itself
//! comes to trust and execute what the committee ordered.

use crate::codec::push_array;
use crate::committee::{attestation_quorum, calculate_attestation_quorum};
use crate::epoch::contains_index;
use crate::hashing::{
    blake2b_256_all, blake2b_256_of_all, blake3, blake3_hash, byte_strings, digest_eq, Digest,
};
use crate::keys::{Epoch, NodeIndex};
use crate::wire::{le_bytes, push_le};
use vstd::prelude::*;

verus! {

/// Ordered transactions, stamped with the block that went before them and
/// with their epoch.
#[derive(Clone, Debug, PartialEq, Eq)]
pub struct AuthenticStampedParcel {
    /// The transactions, each as its raw bytes.
    pub transactions: Vec<Vec<u8>>,
    /// Digest of the block that was executed last before this parcel.
    pub last_executed: Digest,
    pub epoch: Epoch,
}

/// The word of a committee member that the parcel with this digest is what
/// the committee ordered.
#[derive(Clone, Copy, Debug, PartialEq, Eq)]
pub struct CommitteeAttestation {
    /// The digest that is attested.
    pub digest: Digest,
    /// Index of the member that attests.
    pub node_index: NodeIndex,
    pub epoch: Epoch,
}

/// The bytes that are hashed for the digest of a parcel: the number of its
/// transactions in four little-endian bytes, as far as 32 bits hold it, the
/// digest of the batch of its transactions, and the digest of the block
/// before it.
pub open spec fn parcel_preimage(count: nat, batch_digest: Seq<u8>, last_executed: Seq<u8>) -> Seq<
    u8,
> {
    le_bytes(count % 0x1_0000_0000, 4).add(batch_digest).add(last_executed)
}

/// The digest of a parcel: the BLAKE3 hash of its preimage, in which the
/// batch of transactions stands by its BLAKE2b-256 digest.
pub open spec fn parcel_digest(p: AuthenticStampedParcel) -> Seq<u8> {
    blake3_hash(
        parcel_preimage(
            p.transactions@.len(),
            blake2b_256_of_all(byte_strings(p.transactions@)),
            p.last_executed@,
        ),
    )
}

/// Writes the bytes that are hashed for the digest of a parcel of `count`
/// transactions.
pub fn parcel_bytes(count: usize, batch_digest: &Digest, last_executed: &Digest) -> (bytes: Vec<u8>)
    ensures
        bytes@ == parcel_preimage(count as nat, batch_digest@, last_executed@),
{
    let mut bytes: Vec<u8> = Vec::new();
    let low: u64 = (count as u64) % 0x1_0000_0000;
    push_le(&mut bytes, low, 4);
    push_array(&mut bytes, batch_digest);
    push_array(&mut bytes, last_executed);
    assert(bytes@ =~= parcel_preimage(count as nat, batch_digest@, last_executed@));
    bytes
}

impl AuthenticStampedParcel {
    /// Computes the digest of the parcel.
    pub fn to_digest(&self) -> (digest: Digest)
        ensures
            digest@ == parcel_digest(*self),
    {
        let batch_digest = blake2b_256_all(&self.transactions);
        let bytes = parcel_bytes(self.transactions.len(), &batch_digest, &self.last_executed);
        blake3(&bytes)
    }
}

/// What a node knows of a parcel without its transactions.
#[derive(Clone, Copy, Debug, PartialEq, Eq)]
pub struct ParcelHeader {
    pub digest: Digest,
    pub last_executed: Digest,
    pub epoch: Epoch,
}

/// What became of an attestation that was handed to the pool.
#[derive(Clone, Copy, Debug, PartialEq, Eq)]
pub enum AttestationOutcome {
    /// It is for another epoch or from outside the committee.
    Discarded,
    /// The member attested this digest before.
    Duplicate,
    /// It is for a parcel that is not known, and the cache for such is full.
    Dropped,
    /// It was kept.
    Kept,
}

/// The attestations and parcels that an edge node has gathered in an epoch.
#[derive(Debug)]
pub struct AttestationPool {
    pub epoch: Epoch,
    /// The committee of the epoch.
    pub committee: Vec<NodeIndex>,
    /// Digest of the block that this node executed last.
    pub last_executed: Digest,
    /// Parcels that are known and not executed yet.
    pub parcels: Vec<ParcelHeader>,
    /// Attestations that were kept: of this epoch, by members of the
    /// committee, no two by one member for one digest.
    pub attestations: Vec<CommitteeAttestation>,
    /// Largest number of attestations for unknown parcels that are kept.
    pub capacity: usize,
}

/// The pool as a mathematical value.
pub struct PoolView {
    pub epoch: Epoch,
    pub committee: Seq<NodeIndex>,
    pub last_executed: Digest,
    pub parcels: Seq<ParcelHeader>,
    pub attestations: Seq<CommitteeAttestation>,
    pub capacity: nat,
}

impl View for AttestationPool {
    type V = PoolView;

    open spec fn view(&self) -> PoolView {
        PoolView {
            epoch: self.epoch,
            committee: self.committee@,
            last_executed: self.last_executed,
            parcels: self.parcels@,
            attestations: self.attestations@,
            capacity: self.capacity as nat,
        }
    }
}

/// Whether a parcel with this digest is known.
pub open spec fn knows_parcel(parcels: Seq<ParcelHeader>, digest: Digest) -> bool {
    exists|i: int| 0 <= i < parcels.len() && (#[trigger] parcels[i]).digest == digest
}

/// Whether `member` attested `digest`.
pub open spec fn has_attested(
    attestations: Seq<CommitteeAttestation>,
    digest: Digest,
    member: NodeIndex,
) -> bool {
    exists|i: int|
        0 <= i < attestations.len() && (#[trigger] attestations[i]).digest == digest
            && attestations[i].node_index == member
}

/// The number of the first `upto` attestations that are for `digest`.
pub open spec fn attestations_for(
    attestations: Seq<CommitteeAttestation>,
    digest: Digest,
    upto: int,
) -> nat
    decreases upto,
{
    if upto <= 0 {
        0
    } else {
        attestations_for(attestations, digest, upto - 1) + if attestations[upto - 1].digest
            == digest {
            1nat
        } else {
            0nat
        }
    }
}

/// The number of the first `upto` attestations that are for parcels that are
/// not known.
pub open spec fn unknown_attestations(
    attestations: Seq<CommitteeAttestation>,
    parcels: Seq<ParcelHeader>,
    upto: int,
) -> nat
    decreases upto,
{
    if upto <= 0 {
        0
    } else {
        unknown_attestations(attestations, parcels, upto - 1) + if knows_parcel(
            parcels,
            attestations[upto - 1].digest,
        ) {
            0nat
        } else {
            1nat
        }
    }
}

impl PoolView {
    /// What holds of every pool: each attestation is of the pool's epoch and
    /// by a member of the committee, and no member attests a digest twice.
    pub open spec fn wf(self) -> bool {
        &&& forall|i: int|
            0 <= i < self.attestations.len() ==> (#[trigger] self.attestations[i]).epoch
                == self.epoch && self.committee.contains(self.attestations[i].node_index)
        &&& forall|i: int, j: int|
            0 <= i < j < self.attestations.len() ==> !((
            #[trigger] self.attestations[i]).digest == (#[trigger] self.attestations[j]).digest
                && self.attestations[i].node_index == self.attestations[j].node_index)
    }

    /// The number of members that attested `digest`.
    pub open spec fn count(self, digest: Digest) -> nat {
        attestations_for(self.attestations, digest, self.attestations.len() as int)
    }

    /// Whether the parcel at `i` may be executed: it follows the block that
    /// was executed last, and enough members attested it.
    pub open spec fn executable(self, i: int) -> bool {
        &&& 0 <= i < self.parcels.len()
        &&& self.parcels[i].epoch == self.epoch
        &&& self.parcels[i].last_executed == self.last_executed
        &&& self.count(self.parcels[i].digest) >= attestation_quorum(self.committee.len())
    }

    /// What becomes of an attestation, and the attestations after it was
    /// handed in.
    pub open spec fn attest(self, a: CommitteeAttestation) -> (AttestationOutcome, PoolView) {
        if a.epoch != self.epoch || !self.committee.contains(a.node_index) {
            (AttestationOutcome::Discarded, self)
        } else if has_attested(self.attestations, a.digest, a.node_index) {
            (AttestationOutcome::Duplicate, self)
        } else if !knows_parcel(self.parcels, a.digest) && unknown_attestations(
            self.attestations,
            self.parcels,
            self.attestations.len() as int,
        ) >= self.capacity {
            (AttestationOutcome::Dropped, self)
        } else {
            (AttestationOutcome::Kept, PoolView { attestations: self.attestations.push(a), ..self })
        }
    }
}

/// Attestations for one digest come from as many members as there are
/// attestations: a count of `n` means `n` different members.
pub proof fn lemma_count_is_distinct_members(pool: PoolView, digest: Digest, i: int, j: int)
    requires
        pool.wf(),
        0 <= i < j < pool.attestations.len(),
        pool.attestations[i].digest == digest,
        pool.attestations[j].digest == digest,
    ensures
        pool.attestations[i].node_index != pool.attestations[j].node_index,
        pool.committee.contains(pool.attestations[i].node_index),
        pool.committee.contains(pool.attestations[j].node_index),
{
}

/// Handing in an attestation keeps the pool well formed, and adds at most one
/// to the count of its digest and nothing to any other count.
pub proof fn lemma_attest(pool: PoolView, a: CommitteeAttestation, digest: Digest)
    requires
        pool.wf(),
    ensures
        pool.attest(a).1.wf(),
        pool.attest(a).1.count(digest) == pool.count(digest) + (if pool.attest(a).0
            == AttestationOutcome::Kept && a.digest == digest {
            1nat
        } else {
            0nat
        }),
{
    let (outcome, after) = pool.attest(a);
    if outcome == AttestationOutcome::Kept {
        let n = pool.attestations.len() as int;
        lemma_count_prefix(pool.attestations, after.attestations, digest, n);
        assert forall|i: int, j: int| 0 <= i < j < after.attestations.len() implies !((
        #[trigger] after.attestations[i]).digest == (#[trigger] after.attestations[j]).digest
            && after.attestations[i].node_index == after.attestations[j].node_index) by {
            if j == n {
                if after.attestations[i].digest == a.digest && after.attestations[i].node_index
                    == a.node_index {
                    assert(pool.attestations[i].digest == a.digest);
                    assert(has_attested(pool.attestations, a.digest, a.node_index));
                }
            } else {
                assert(pool.attestations[i].digest == after.attestations[i].digest);
                assert(pool.attestations[j].digest == after.attestations[j].digest);
            }
        }
        assert forall|i: int| 0 <= i < after.attestations.len() implies (
        #[trigger] after.attestations[i]).epoch == after.epoch && after.committee.contains(
            after.attestations[i].node_index,
        ) by {
            if i < n {
                assert(pool.attestations[i].epoch == pool.epoch);
            }
        }
    }
}

/// Lists that agree on their first `upto` attestations agree on the count of
/// them.
pub proof fn lemma_count_prefix(
    a: Seq<CommitteeAttestation>,
    b: Seq<CommitteeAttestation>,
    digest: Digest,
    upto: int,
)
    requires
        upto <= a.len(),
        upto <= b.len(),
        forall|i: int| 0 <= i < upto ==> a[i] == b[i],
    ensures
        attestations_for(a, digest, upto) == attestations_for(b, digest, upto),
    decreases upto,
{
    if upto > 0 {
        lemma_count_prefix(a, b, digest, upto - 1);
    }
}

impl AttestationPool {
    /// Makes an empty pool for an epoch.
    pub fn new(epoch: Epoch, committee: Vec<NodeIndex>, last_executed: Digest, capacity: usize) -> (pool:
        AttestationPool)
        ensures
            pool@ == (PoolView {
                epoch,
                committee: committee@,
                last_executed,
                parcels: Seq::empty(),
                attestations: Seq::empty(),
                capacity: capacity as nat,
            }),
            pool@.wf(),
    {
        AttestationPool {
            epoch,
            committee,
            last_executed,
            parcels: Vec::new(),
            attestations: Vec::new(),
            capacity,
        }
    }

    /// Tells whether the pool is well formed. A pool that was made by `new`
    /// and changed by its own methods only always is.
    pub fn is_well_formed(&self) -> (ok: bool)
        ensures
            ok == self@.wf(),
    {
        let mut j: usize = 0;
        while j < self.attestations.len()
            invariant
                j <= self.attestations.len(),
                forall|i: int|
                    0 <= i < j ==> (#[trigger] self.attestations@[i]).epoch == self.epoch
                        && self.committee@.contains(self.attestations@[i].node_index),
                forall|a: int, b: int|
                    0 <= a < b < j ==> !((#[trigger] self.attestations@[a]).digest == (
                    #[trigger] self.attestations@[b]).digest && self.attestations@[a].node_index
                        == self.attestations@[b].node_index),
            decreases self.attestations.len() - j,
        {
            let at = self.attestations[j];
            if at.epoch != self.epoch || !contains_index(&self.committee, at.node_index) {
                assert(!(self@.attestations[j as int].epoch == self@.epoch
                    && self@.committee.contains(self@.attestations[j as int].node_index)));
                return false;
            }
            let mut i: usize = 0;
            while i < j
                invariant
                    i <= j < self.attestations.len(),
                    at == self.attestations@[j as int],
                    forall|a: int|
                        0 <= a < i ==> !((#[trigger] self.attestations@[a]).digest == at.digest
                            && self.attestations@[a].node_index == at.node_index),
                decreases j - i,
            {
                if digest_eq(&self.attestations[i].digest, &at.digest)
                    && self.attestations[i].node_index == at.node_index {
                    assert(self@.attestations[i as int].digest == self@.attestations[j as int].digest
                        && self@.attestations[i as int].node_index
                        == self@.attestations[j as int].node_index);
                    return false;
                }
                i += 1;
            }
            j += 1;
        }
        true
    }

    /// Tells whether a parcel with this digest is known.
    pub fn knows(&self, digest: &Digest) -> (known: bool)
        ensures
            known == knows_parcel(self@.parcels, *digest),
    {
        let mut i: usize = 0;
        while i < self.parcels.len()
            invariant
                i <= self.parcels.len(),
                forall|k: int| 0 <= k < i ==> (#[trigger] self.parcels@[k]).digest != *digest,
            decreases self.parcels.len() - i,
        {
            if digest_eq(&self.parcels[i].digest, digest) {
                return true;
            }
            i += 1;
        }
        false
    }

    /// Counts the members that attested `digest`.
    pub fn count(&self, digest: &Digest) -> (n: usize)
        ensures
            n == self@.count(*digest),
    {
        let mut n: usize = 0;
        let mut i: usize = 0;
        while i < self.attestations.len()
            invariant
                i <= self.attestations.len(),
                n <= i,
                n == attestations_for(self.attestations@, *digest, i as int),
            decreases self.attestations.len() - i,
        {
            if digest_eq(&self.attestations[i].digest, digest) {
                n += 1;
            }
            i += 1;
        }
        n
    }

    fn count_unknown(&self) -> (n: usize)
        ensures
            n == unknown_attestations(
                self.attestations@,
                self.parcels@,
                self.attestations@.len() as int,
            ),
    {
        let mut n: usize = 0;
        let mut i: usize = 0;
        while i < self.attestations.len()
            invariant
                i <= self.attestations.len(),
                n <= i,
                n == unknown_attestations(self.attestations@, self.parcels@, i as int),
            decreases self.attestations.len() - i,
        {
            if !self.knows(&self.attestations[i].digest) {
                n += 1;
            }
            i += 1;
        }
        n
    }

    fn attested(&self, digest: &Digest, member: NodeIndex) -> (found: bool)
        ensures
            found == has_attested(self.attestations@, *digest, member),
    {
        let mut i: usize = 0;
        while i < self.attestations.len()
            invariant
                i <= self.attestations.len(),
                forall|k: int|
                    0 <= k < i ==> !((#[trigger] self.attestations@[k]).digest == *digest
                        && self.attestations@[k].node_index == member),
            decreases self.attestations.len() - i,
        {
            if digest_eq(&self.attestations[i].digest, digest) && self.attestations[i].node_index
                == member {
                return true;
            }
            i += 1;
        }
        false
    }

    /// Takes in an attestation. One from outside the committee or for another
    /// epoch is discarded, a repeated one is not counted again, and one for a
    /// parcel that is not known is kept only while the cache has room.
    pub fn add_attestation(&mut self, a: CommitteeAttestation) -> (outcome: AttestationOutcome)
        requires
            old(self)@.wf(),
        ensures
            (outcome, final(self)@) == old(self)@.attest(a),
            final(self)@.wf(),
    {
        proof {
            lemma_attest(self@, a, a.digest);
        }
        if a.epoch != self.epoch || !contains_index(&self.committee, a.node_index) {
            return AttestationOutcome::Discarded;
        }
        if self.attested(&a.digest, a.node_index) {
            return AttestationOutcome::Duplicate;
        }
        if !self.knows(&a.digest) && self.count_unknown() >= self.capacity {
            return AttestationOutcome::Dropped;
        }
        self.attestations.push(a);
        AttestationOutcome::Kept
    }

    /// Takes in a parcel of the pool's epoch that is not known yet. Says
    /// whether it was taken in.
    pub fn add_parcel(&mut self, header: ParcelHeader) -> (added: bool)
        requires
            old(self)@.wf(),
        ensures
            added == (header.epoch == old(self)@.epoch && !knows_parcel(
                old(self)@.parcels,
                header.digest,
            )),
            added ==> final(self)@ == (PoolView {
                parcels: old(self)@.parcels.push(header),
                ..old(self)@
            }),
            !added ==> final(self)@ == old(self)@,
            final(self)@.wf(),
    {
        if header.epoch != self.epoch || self.knows(&header.digest) {
            return false;
        }
        self.parcels.push(header);
        true
    }

    /// Tells whether the parcel at `i` may be executed.
    pub fn is_executable(&self, i: usize) -> (ready: bool)
        ensures
            ready == self@.executable(i as int),
    {
        if i >= self.parcels.len() {
            return false;
        }
        let header = self.parcels[i];
        header.epoch == self.epoch && digest_eq(&header.last_executed, &self.last_executed)
            && self.count(&header.digest) >= calculate_attestation_quorum(self.committee.len())
    }

    /// Finds a parcel that may be executed: the first such in the order in
    /// which the parcels came in.
    pub fn next_executable(&self) -> (found: Option<usize>)
        ensures
            match found {
                Some(i) => self@.executable(i as int) && forall|k: int|
                    0 <= k < i ==> !self@.executable(k),
                None => forall|k: int| 0 <= k < self@.parcels.len() ==> !self@.executable(k),
            },
    {
        let mut i: usize = 0;
        while i < self.parcels.len()
            invariant
                i <= self.parcels.len(),
                forall|k: int| 0 <= k < i ==> !self@.executable(k),
            decreases self.parcels.len() - i,
        {
            if self.is_executable(i) {
                return Some(i);
            }
            i += 1;
        }
        None
    }

    /// Notes that the parcel at `i` was executed: it leaves the pool, and its
    /// digest is that of the block that was executed last.
    pub fn mark_executed(&mut self, i: usize) -> (header: ParcelHeader)
        requires
            old(self)@.wf(),
            old(self)@.executable(i as int),
        ensures
            header == old(self)@.parcels[i as int],
            final(self)@ == (PoolView {
                parcels: old(self)@.parcels.remove(i as int),
                last_executed: header.digest,
                ..old(self)@
            }),
            final(self)@.wf(),
    {
        let header = self.parcels.remove(i);
        self.last_executed = header.digest;
        header
    }
}

} // verus!
