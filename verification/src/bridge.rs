//! The bridge from consensus to execution: what consensus ordered becomes a
//! block, and the block is executed.

use crate::codec::payload_digest;
use crate::executor::{apply_block_spec, block_digests, changed_epoch};
use crate::hashing::{byte_strings, Digest};
use crate::keys::Epoch;
use crate::parcel::{parcel_digest, AuthenticStampedParcel};
use crate::state::State;
use crate::transaction::{Block, BlockExecutionResponse, TransactionRequest};
use vstd::prelude::*;

verus! {

/// A transaction as consensus hands it over: its bytes, and the request that
/// they decode to, where they decode at all.
#[derive(Clone, Debug, PartialEq, Eq)]
pub struct RawTransaction {
    pub bytes: Vec<u8>,
    pub decoded: Option<TransactionRequest>,
}

/// What came of a certificate's batches that led to a block.
#[derive(Debug)]
pub struct BridgeOutcome {
    /// The parcel that is sent on to the nodes that do not run consensus.
    pub parcel: AuthenticStampedParcel,
    /// The block that was executed.
    pub block: Block,
    /// What the executor answered.
    pub response: BlockExecutionResponse,
    /// Whether the block ended the epoch, so that consensus has to make
    /// itself ready for the next one.
    pub epoch_changed: bool,
    /// Whether block and response go to the archive.
    pub to_archive: bool,
}

/// Whether a transaction goes into the block: it decodes, and no transaction
/// with its digest was executed before.
pub open spec fn is_fresh(executed: Seq<Digest>, raw: RawTransaction) -> bool {
    raw.decoded matches Some(tx) && !executed.contains(payload_digest(tx.payload))
}

/// The requests of those of the first `upto` transactions that go into the
/// block, in their order.
pub open spec fn fresh_requests(raw: Seq<RawTransaction>, executed: Seq<Digest>, upto: int) -> Seq<
    TransactionRequest,
>
    decreases upto,
{
    if upto <= 0 {
        Seq::empty()
    } else if is_fresh(executed, raw[upto - 1]) {
        fresh_requests(raw, executed, upto - 1).push(raw[upto - 1].decoded->0)
    } else {
        fresh_requests(raw, executed, upto - 1)
    }
}

/// The bytes of those of the first `upto` transactions that go into the
/// block, in their order.
pub open spec fn fresh_bytes(raw: Seq<RawTransaction>, executed: Seq<Digest>, upto: int) -> Seq<
    Seq<u8>,
>
    decreases upto,
{
    if upto <= 0 {
        Seq::empty()
    } else if is_fresh(executed, raw[upto - 1]) {
        fresh_bytes(raw, executed, upto - 1).push(raw[upto - 1].bytes@)
    } else {
        fresh_bytes(raw, executed, upto - 1)
    }
}

/// Turns a vector around.
pub fn reversed<T>(v: Vec<T>) -> (r: Vec<T>)
    ensures
        r@.len() == v@.len(),
        forall|k: int| 0 <= k < r@.len() ==> r@[k] == v@[v@.len() - 1 - k],
{
    let mut v = v;
    let ghost whole = v@;
    let mut r: Vec<T> = Vec::new();
    while v.len() > 0
        invariant
            v@.len() + r@.len() == whole.len(),
            forall|k: int| 0 <= k < v@.len() ==> v@[k] == whole[k],
            forall|k: int| 0 <= k < r@.len() ==> r@[k] == whole[whole.len() - 1 - k],
        decreases v.len(),
    {
        match v.pop() {
            Some(item) => {
                r.push(item);
            },
            None => {},
        }
    }
    r
}

/// Tells whether a request with this digest goes into the block: whether no
/// transaction with the digest was executed before.
pub fn is_new(state: &State, digest: &Digest) -> (fresh: bool)
    ensures
        fresh == !state@.executed.contains(*digest),
{
    !state.has_executed_digest(digest)
}

/// Picks the transactions that go into the block: those that decode and were
/// not executed before. Gives their requests and their bytes, each in the
/// order in which consensus handed them over.
pub fn select_fresh(state: &State, raw: Vec<RawTransaction>) -> (picked: (
    Vec<TransactionRequest>,
    Vec<Vec<u8>>,
))
    ensures
        picked.0@ == fresh_requests(raw@, state@.executed, raw@.len() as int),
        byte_strings(picked.1@) == fresh_bytes(raw@, state@.executed, raw@.len() as int),
        picked.0@.len() == picked.1@.len(),
{
    let ghost whole = raw@;
    let n = raw.len();
    let mut rest = reversed(raw);
    let mut requests: Vec<TransactionRequest> = Vec::new();
    let mut bytes: Vec<Vec<u8>> = Vec::new();
    let mut i: usize = 0;
    assert(byte_strings(bytes@) =~= fresh_bytes(whole, state@.executed, 0));
    while i < n
        invariant
            i <= n == whole.len(),
            rest@.len() == n - i,
            forall|k: int| 0 <= k < rest@.len() ==> rest@[k] == whole[n - 1 - k],
            requests@ == fresh_requests(whole, state@.executed, i as int),
            byte_strings(bytes@) == fresh_bytes(whole, state@.executed, i as int),
            requests@.len() == bytes@.len(),
        decreases n - i,
    {
        match rest.pop() {
            Some(item) => {
                assert(item == whole[i as int]);
                let RawTransaction { bytes: item_bytes, decoded } = item;
                match decoded {
                    Some(tx) => {
                        let digest = tx.payload.to_digest();
                        if is_new(state, &digest) {
                            let ghost before = byte_strings(bytes@);
                            requests.push(tx);
                            bytes.push(item_bytes);
                            assert(byte_strings(bytes@) =~= before.push(item_bytes@));
                        }
                    },
                    None => {},
                }
            },
            None => {},
        }
        i += 1;
    }
    (requests, bytes)
}

/// Handles what consensus ordered under one certificate. Batches of another
/// epoch than the current one are dropped, and so are batches of which no
/// transaction is left to execute. Otherwise the transactions that are left
/// make a block whose digest is that of their parcel, and the block is
/// executed.
pub fn handle_consensus_output(
    state: &mut State,
    certificate_epoch: Epoch,
    batches: Vec<RawTransaction>,
    archive: bool,
    now: u64,
) -> (outcome: Option<BridgeOutcome>)
    requires
        old(state)@.wf(),
    ensures
        final(state)@.wf(),
        outcome is None <==> (certificate_epoch != old(state)@.metadata.epoch || fresh_requests(
            batches@,
            old(state)@.executed,
            batches@.len() as int,
        ).len() == 0),
        outcome is None ==> final(state)@ == old(state)@,
        outcome matches Some(o) ==> {
            &&& o.block.transactions@ == fresh_requests(
                batches@,
                old(state)@.executed,
                batches@.len() as int,
            )
            &&& byte_strings(o.parcel.transactions@) == fresh_bytes(
                batches@,
                old(state)@.executed,
                batches@.len() as int,
            )
            &&& o.parcel.last_executed == old(state)@.metadata.last_block_digest
            &&& o.parcel.epoch == certificate_epoch
            &&& o.block.digest@ == parcel_digest(o.parcel)
            &&& (final(state)@, o.response.txn_receipts@) == apply_block_spec(
                old(state)@,
                o.block,
                block_digests(o.block.transactions@),
                now,
            )
            &&& o.response.change_epoch == changed_epoch(o.response.txn_receipts@)
            &&& o.epoch_changed == o.response.change_epoch
            &&& o.to_archive == archive
        },
{
    if certificate_epoch != state.get_current_epoch() {
        return None;
    }
    let (transactions, bytes) = select_fresh(state, batches);
    if transactions.len() == 0 {
        return None;
    }
    let parcel = AuthenticStampedParcel {
        transactions: bytes,
        last_executed: state.get_last_block(),
        epoch: certificate_epoch,
    };
    let block = Block { transactions, digest: parcel.to_digest() };
    let response = state.execute_block(&block, now);
    let epoch_changed = response.change_epoch;
    Some(BridgeOutcome { parcel, block, response, epoch_changed, to_archive: archive })
}

} // verus!
