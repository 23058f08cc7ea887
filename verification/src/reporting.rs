//! Reputation uniqueness: in one epoch a reporter hands in its measurements
//! at most once, and says at most one thing about any node.

use crate::epoch::{named_later, reports_of, submit_reputation_spec};
use crate::executor::{
    apply_block_spec, apply_method_spec, apply_transaction_spec, apply_transactions_spec,
    bump_nonce,
};
use crate::frames::lemma_find_node_is;
use crate::hashing::Digest;
use crate::keys::{NodeIndex, NodeKey};
use crate::laws::{lemma_one_submission, lemma_reporters_stay};
use crate::nonces::is_admitted;
use crate::registry::{keeps_indices, lemma_indices_are_permanent};
use crate::rewards::lemma_distribute_frame;
use crate::state::{find_node, lemma_find_node, StateView, MAX_NODES};
use crate::transaction::{
    Block, ExecutionData, TransactionReceipt, TransactionResponse, TransactionSender,
    UpdateMethod, UpdateRequest,
};
use crate::types::ReputationMeasurements;
use vstd::prelude::*;

verus! {

/// Whether a transaction is a hand-in of measurements by the node with this
/// key.
pub open spec fn is_report_by(tx: UpdateRequest, key: NodeKey) -> bool {
    tx.payload.sender == TransactionSender::NodeMain(key)
        && tx.payload.method is SubmitReputationMeasurements
}

/// The number of hand-ins by the node with this key among the first `upto`
/// transactions that succeeded, going by their receipts.
pub open spec fn report_successes(
    txs: Seq<UpdateRequest>,
    receipts: Seq<TransactionReceipt>,
    key: NodeKey,
    upto: int,
) -> nat
    decreases upto,
{
    if upto <= 0 {
        0
    } else {
        report_successes(txs, receipts, key, upto - 1) + if is_report_by(txs[upto - 1], key)
            && receipts[upto - 1].response is Success {
            1nat
        } else {
            0nat
        }
    }
}

/// Whether none of the first `upto` receipts is that of a change of the
/// epoch.
pub open spec fn no_epoch_change(receipts: Seq<TransactionReceipt>, upto: int) -> bool {
    forall|i: int|
        0 <= i < upto ==> (#[trigger] receipts[i]).response != TransactionResponse::Success(
            ExecutionData::EpochChange,
        )
}

/// One if the node is noted as a reporter, zero if not.
pub open spec fn noted(s: StateView, n: NodeIndex) -> nat {
    if s.reporters.contains(n) {
        1
    } else {
        0
    }
}

/// Whether no reporter says two things about one node, and every reporter
/// that said something is noted as a reporter.
pub open spec fn reports_are_unique(s: StateView) -> bool {
    &&& forall|i: int|
        0 <= i < s.reports.len() ==> s.reporters.contains((#[trigger] s.reports[i]).reporter)
    &&& forall|i: int, j: int|
        0 <= i < j < s.reports.len() ==> !((#[trigger] s.reports[i]).reporter == (
        #[trigger] s.reports[j]).reporter && s.reports[i].subject == s.reports[j].subject)
}

/// Receipts that agree on their first `upto` entries count the same
/// successes among them.
pub proof fn lemma_successes_prefix(
    txs: Seq<UpdateRequest>,
    a: Seq<TransactionReceipt>,
    b: Seq<TransactionReceipt>,
    key: NodeKey,
    upto: int,
)
    requires
        upto <= a.len(),
        upto <= b.len(),
        forall|i: int| 0 <= i < upto ==> a[i] == b[i],
    ensures
        report_successes(txs, a, key, upto) == report_successes(txs, b, key, upto),
    decreases upto,
{
    if upto > 0 {
        lemma_successes_prefix(txs, a, b, key, upto - 1);
    }
}

/// The reports that a hand-in makes are all by the reporter, each about a
/// node that the list names, and no two about the same node.
pub proof fn lemma_reports_of(
    reporter: NodeIndex,
    measurements: Seq<(NodeIndex, ReputationMeasurements)>,
    upto: int,
)
    requires
        upto <= measurements.len(),
    ensures
        ({
            let made = reports_of(reporter, measurements, upto);
            &&& forall|a: int|
                0 <= a < made.len() ==> (#[trigger] made[a]).reporter == reporter && exists|i: int|
                    0 <= i < upto && (#[trigger] measurements[i]).0 == made[a].subject
                        && !named_later(measurements, i)
            &&& forall|a: int, b: int|
                0 <= a < b < made.len() ==> (#[trigger] made[a]).subject != (
                #[trigger] made[b]).subject
        }),
    decreases upto,
{
    if upto > 0 {
        lemma_reports_of(reporter, measurements, upto - 1);
        let before = reports_of(reporter, measurements, upto - 1);
        let made = reports_of(reporter, measurements, upto);
        if !named_later(measurements, upto - 1) {
            assert forall|a: int| 0 <= a < made.len() implies (#[trigger] made[a]).reporter
                == reporter && exists|i: int|
                0 <= i < upto && (#[trigger] measurements[i]).0 == made[a].subject
                    && !named_later(measurements, i) by {
                if a < before.len() {
                    assert(made[a] == before[a]);
                    let i = choose|i: int|
                        0 <= i < upto - 1 && (#[trigger] measurements[i]).0 == before[a].subject
                            && !named_later(measurements, i);
                    assert(measurements[i].0 == made[a].subject);
                } else {
                    assert(measurements[upto - 1].0 == made[a].subject);
                }
            }
            assert forall|a: int, b: int| 0 <= a < b < made.len() implies (
            #[trigger] made[a]).subject != (#[trigger] made[b]).subject by {
                if b == before.len() {
                    assert(made[a] == before[a]);
                    let i = choose|i: int|
                        0 <= i < upto - 1 && (#[trigger] measurements[i]).0 == before[a].subject
                            && !named_later(measurements, i);
                    if measurements[upto - 1].0 == measurements[i].0 {
                        assert(named_later(measurements, i));
                    }
                } else {
                    assert(before[a].subject != before[b].subject);
                }
            }
        } else {
            assert forall|a: int| 0 <= a < made.len() implies (#[trigger] made[a]).reporter
                == reporter && exists|i: int|
                0 <= i < upto && (#[trigger] measurements[i]).0 == made[a].subject
                    && !named_later(measurements, i) by {
                let i = choose|i: int|
                    0 <= i < upto - 1 && (#[trigger] measurements[i]).0 == before[a].subject
                        && !named_later(measurements, i);
                assert(measurements[i].0 == made[a].subject);
            }
        }
    }
}

/// A hand-in keeps the reports unique.
pub proof fn lemma_submission_keeps_reports_unique(
    s: StateView,
    n: NodeIndex,
    measurements: Seq<(NodeIndex, ReputationMeasurements)>,
)
    requires
        reports_are_unique(s),
    ensures
        reports_are_unique(submit_reputation_spec(s, n, measurements).0),
{
    let (after, r) = submit_reputation_spec(s, n, measurements);
    if r is Success {
        let made = reports_of(n, measurements, measurements.len() as int);
        lemma_reports_of(n, measurements, measurements.len() as int);
        let old_len = s.reports.len() as int;
        assert(after.reporters[s.reporters.len() as int] == n);
        assert forall|i: int| 0 <= i < after.reports.len() implies after.reporters.contains(
            (#[trigger] after.reports[i]).reporter,
        ) by {
            if i < old_len {
                assert(after.reports[i] == s.reports[i]);
                let w = choose|w: int|
                    0 <= w < s.reporters.len() && s.reporters[w] == s.reports[i].reporter;
                assert(after.reporters[w] == s.reports[i].reporter);
            } else {
                assert(after.reports[i] == made[i - old_len]);
            }
        }
        assert forall|i: int, j: int| 0 <= i < j < after.reports.len() implies !((
        #[trigger] after.reports[i]).reporter == (#[trigger] after.reports[j]).reporter
            && after.reports[i].subject == after.reports[j].subject) by {
            if j < old_len {
                assert(after.reports[i] == s.reports[i] && after.reports[j] == s.reports[j]);
            } else if i < old_len {
                assert(after.reports[i] == s.reports[i]);
                assert(after.reports[j] == made[j - old_len]);
                assert(s.reporters.contains(s.reports[i].reporter));
            } else {
                assert(after.reports[i] == made[i - old_len]);
                assert(after.reports[j] == made[j - old_len]);
            }
        }
    }
}

/// Reputation uniqueness of the reports. Whatever a transaction does, no
/// reporter comes to say two things about one node, and every reporter that
/// said something stays noted as a reporter, until the epoch changes and the
/// reports are cleared.
pub proof fn lemma_reports_stay_unique(s: StateView, tx: UpdateRequest, hash: Digest, now: u64)
    requires
        reports_are_unique(s),
    ensures
        reports_are_unique(apply_transaction_spec(s, tx, hash, now).0),
{
    if is_admitted(s, tx) {
        let sender = tx.payload.sender;
        let counted = bump_nonce(s, sender);
        assert(counted.reports == s.reports && counted.reporters == s.reporters);
        let (done, r) = apply_method_spec(counted, sender, tx.payload.method, now);
        let after = apply_transaction_spec(s, tx, hash, now).0;
        assert(after.reports == done.reports && after.reporters == done.reporters);
        match sender {
            TransactionSender::NodeMain(k) => {
                lemma_find_node(counted.nodes, k, 0);
                if let Some(i) = find_node(counted.nodes, k) {
                    match tx.payload.method {
                        UpdateMethod::SubmitReputationMeasurements { measurements } => {
                            lemma_submission_keeps_reports_unique(
                                counted,
                                i as NodeIndex,
                                measurements@,
                            );
                        },
                        UpdateMethod::ChangeEpoch { epoch } => {
                            let signalled = counted.signalled.push(i as NodeIndex);
                            lemma_distribute_frame(StateView { signalled, ..counted });
                        },
                        _ => {},
                    }
                }
            },
            TransactionSender::AccountOwner(a) => {},
        }
        assert(reports_are_unique(done));
    }
}

/// A node keeps its index over the first `upto` transactions of a block.
pub proof fn lemma_index_stays(
    s: StateView,
    txs: Seq<UpdateRequest>,
    hashes: Seq<Digest>,
    block_hash: Digest,
    now: u64,
    upto: int,
    key: NodeKey,
)
    requires
        find_node(s.nodes, key) is Some,
        s.nodes.len() <= MAX_NODES,
    ensures
        find_node(apply_transactions_spec(s, txs, hashes, block_hash, now, upto).0.nodes, key)
            == find_node(s.nodes, key),
        keeps_indices(
            s.nodes,
            apply_transactions_spec(s, txs, hashes, block_hash, now, upto).0.nodes,
        ),
        apply_transactions_spec(s, txs, hashes, block_hash, now, upto).0.nodes.len() <= MAX_NODES,
    decreases upto,
{
    if upto > 0 {
        lemma_index_stays(s, txs, hashes, block_hash, now, upto - 1, key);
        let before = apply_transactions_spec(s, txs, hashes, block_hash, now, upto - 1).0;
        let after = apply_transactions_spec(s, txs, hashes, block_hash, now, upto).0;
        lemma_indices_are_permanent(before, txs[upto - 1], hashes[upto - 1], now);
        lemma_find_node(s.nodes, key, 0);
        let n = find_node(s.nodes, key).unwrap();
        assert forall|i: int| 0 <= i < s.nodes.len() implies (#[trigger] after.nodes[i]).public_key
            == s.nodes[i].public_key by {
            assert(before.nodes[i].public_key == s.nodes[i].public_key);
        }
        assert forall|k: int| 0 <= k < n implies (#[trigger] after.nodes[k]).public_key != key by {
            assert(s.nodes[k].public_key != key);
        }
        lemma_find_node_is(after.nodes, key, n);
    }
}

/// Reputation uniqueness within a block. As long as the epoch does not
/// change, at most one hand-in of a node succeeds, and none if the node is
/// noted as a reporter already; and a node that is noted, or whose hand-in
/// succeeded, is noted after.
pub proof fn lemma_one_report_in_block(
    s: StateView,
    txs: Seq<UpdateRequest>,
    hashes: Seq<Digest>,
    block_hash: Digest,
    now: u64,
    upto: int,
    key: NodeKey,
)
    requires
        find_node(s.nodes, key) is Some,
        s.nodes.len() <= MAX_NODES,
        no_epoch_change(apply_transactions_spec(s, txs, hashes, block_hash, now, upto).1, upto),
    ensures
        ({
            let n = find_node(s.nodes, key).unwrap() as NodeIndex;
            let (after, receipts) = apply_transactions_spec(s, txs, hashes, block_hash, now, upto);
            &&& upto >= 0 ==> receipts.len() == upto
            &&& noted(after, n) == noted(s, n) + report_successes(txs, receipts, key, upto)
        }),
    decreases upto,
{
    let n = find_node(s.nodes, key).unwrap() as NodeIndex;
    if upto > 0 {
        let (before, earlier) = apply_transactions_spec(s, txs, hashes, block_hash, now, upto - 1);
        let (after, receipts) = apply_transactions_spec(s, txs, hashes, block_hash, now, upto);
        let tx = txs[upto - 1];
        let hash = hashes[upto - 1];
        let (stepped, r) = apply_transaction_spec(before, tx, hash, now);
        assert(after == stepped);
        assert(receipts == earlier.push(
            crate::executor::receipt_spec(block_hash, upto - 1, tx, hash, r),
        ));
        lemma_receipts_len(s, txs, hashes, block_hash, now, upto - 1);
        assert forall|i: int| 0 <= i < upto - 1 implies (#[trigger] earlier[i]).response
            != TransactionResponse::Success(ExecutionData::EpochChange) by {
            assert(receipts[i] == earlier[i]);
        }
        lemma_one_report_in_block(s, txs, hashes, block_hash, now, upto - 1, key);
        lemma_successes_prefix(txs, earlier, receipts, key, upto - 1);
        lemma_index_stays(s, txs, hashes, block_hash, now, upto - 1, key);
        lemma_find_node(s.nodes, key, 0);
        assert(receipts[upto - 1].response == r);
        assert(r != TransactionResponse::Success(ExecutionData::EpochChange));
        if before.reporters.contains(n) {
            lemma_reporters_stay(before, tx, hash, now, n);
        }
        if is_admitted(before, tx) {
            let counted = bump_nonce(before, tx.payload.sender);
            assert(counted.reporters == before.reporters);
            let (done, r2) = apply_method_spec(counted, tx.payload.sender, tx.payload.method, now);
            assert(r2 == r && after.reporters == done.reporters);
            lemma_find_node(before.nodes, key, 0);
            if let TransactionSender::NodeMain(k) = tx.payload.sender {
                lemma_find_node(before.nodes, k, 0);
            }
            assert forall|k: int| 0 <= k < n implies (#[trigger] counted.nodes[k]).public_key
                != key by {
                assert(before.nodes[k].public_key != key);
            }
            assert(counted.nodes[n as int].public_key == key);
            lemma_find_node_is(counted.nodes, key, n as int);
            match tx.payload.sender {
                TransactionSender::NodeMain(k) => {
                    lemma_find_node(counted.nodes, k, 0);
                    if let Some(i) = find_node(counted.nodes, k) {
                        match tx.payload.method {
                            UpdateMethod::SubmitReputationMeasurements { measurements } => {
                                lemma_one_submission(counted, i as NodeIndex, measurements@);
                                if k != key {
                                    assert(i != n);
                                    if r is Success && !before.reporters.contains(n) {
                                        if done.reporters.contains(n) {
                                            let w = choose|w: int|
                                                0 <= w < done.reporters.len() && done.reporters[w]
                                                    == n;
                                            assert(w < counted.reporters.len());
                                            assert(counted.reporters[w] == n);
                                        }
                                    }
                                }
                            },
                            _ => {},
                        }
                    }
                },
                TransactionSender::AccountOwner(a) => {},
            }
            if !before.reporters.contains(n) && (!is_report_by(tx, key) || !(r is Success)) {
                lemma_reporters_unmoved(before, tx, hash, now, n);
            }
        }
    }
}

/// The ledger after the first `upto` blocks of a sequence were executed,
/// each with the digests of its transactions and at its time.
pub open spec fn apply_blocks_spec(
    s: StateView,
    blocks: Seq<Block>,
    hashes: Seq<Seq<Digest>>,
    times: Seq<u64>,
    upto: int,
) -> StateView
    decreases upto,
{
    if upto <= 0 {
        s
    } else {
        apply_block_spec(
            apply_blocks_spec(s, blocks, hashes, times, upto - 1),
            blocks[upto - 1],
            hashes[upto - 1],
            times[upto - 1],
        ).0
    }
}

/// The receipts of block `b` of a sequence.
pub open spec fn block_receipts(
    s: StateView,
    blocks: Seq<Block>,
    hashes: Seq<Seq<Digest>>,
    times: Seq<u64>,
    b: int,
) -> Seq<TransactionReceipt> {
    apply_block_spec(apply_blocks_spec(s, blocks, hashes, times, b), blocks[b], hashes[b], times[b]).1
}

/// The number of hand-ins by the node with this key that succeeded in the
/// first `upto` blocks of a sequence.
pub open spec fn successes_in_blocks(
    s: StateView,
    blocks: Seq<Block>,
    hashes: Seq<Seq<Digest>>,
    times: Seq<u64>,
    key: NodeKey,
    upto: int,
) -> nat
    decreases upto,
{
    if upto <= 0 {
        0
    } else {
        successes_in_blocks(s, blocks, hashes, times, key, upto - 1) + report_successes(
            blocks[upto - 1].transactions@,
            block_receipts(s, blocks, hashes, times, upto - 1),
            key,
            blocks[upto - 1].transactions@.len() as int,
        )
    }
}

/// Whether the first `upto` blocks of a sequence stay within one epoch: no
/// receipt of theirs is that of a change of the epoch.
pub open spec fn within_one_epoch(
    s: StateView,
    blocks: Seq<Block>,
    hashes: Seq<Seq<Digest>>,
    times: Seq<u64>,
    upto: int,
) -> bool {
    forall|b: int|
        0 <= b < upto ==> no_epoch_change(
            #[trigger] block_receipts(s, blocks, hashes, times, b),
            blocks[b].transactions@.len() as int,
        )
}

/// Reputation uniqueness. Over any sequence of blocks within one epoch, at
/// most one hand-in of a node succeeds, and none if the node was noted as a
/// reporter before the first block: the number of its hand-ins that
/// succeeded is zero or one, and is one only if the node was not noted
/// before and is noted after.
pub proof fn lemma_one_report_per_epoch(
    s: StateView,
    blocks: Seq<Block>,
    hashes: Seq<Seq<Digest>>,
    times: Seq<u64>,
    upto: int,
    key: NodeKey,
)
    requires
        find_node(s.nodes, key) is Some,
        s.nodes.len() <= MAX_NODES,
        within_one_epoch(s, blocks, hashes, times, upto),
    ensures
        ({
            let n = find_node(s.nodes, key).unwrap() as NodeIndex;
            let after = apply_blocks_spec(s, blocks, hashes, times, upto);
            &&& noted(after, n) == noted(s, n) + successes_in_blocks(
                s,
                blocks,
                hashes,
                times,
                key,
                upto,
            )
            &&& successes_in_blocks(s, blocks, hashes, times, key, upto) <= 1
            &&& find_node(after.nodes, key) == find_node(s.nodes, key)
            &&& after.nodes.len() <= MAX_NODES
        }),
    decreases upto,
{
    if upto > 0 {
        lemma_one_report_per_epoch(s, blocks, hashes, times, upto - 1, key);
        let before = apply_blocks_spec(s, blocks, hashes, times, upto - 1);
        let block = blocks[upto - 1];
        let len = block.transactions@.len() as int;
        assert(no_epoch_change(block_receipts(s, blocks, hashes, times, upto - 1), len));
        lemma_one_report_in_block(
            before,
            block.transactions@,
            hashes[upto - 1],
            block.digest,
            times[upto - 1],
            len,
            key,
        );
        lemma_index_stays(
            before,
            block.transactions@,
            hashes[upto - 1],
            block.digest,
            times[upto - 1],
            len,
            key,
        );
    }
}

/// Reputation uniqueness of the reports over a block: the first `upto`
/// transactions of a block keep the reports unique.
pub proof fn lemma_block_keeps_reports_unique(
    s: StateView,
    txs: Seq<UpdateRequest>,
    hashes: Seq<Digest>,
    block_hash: Digest,
    now: u64,
    upto: int,
)
    requires
        reports_are_unique(s),
    ensures
        reports_are_unique(apply_transactions_spec(s, txs, hashes, block_hash, now, upto).0),
    decreases upto,
{
    if upto > 0 {
        lemma_block_keeps_reports_unique(s, txs, hashes, block_hash, now, upto - 1);
        lemma_reports_stay_unique(
            apply_transactions_spec(s, txs, hashes, block_hash, now, upto - 1).0,
            txs[upto - 1],
            hashes[upto - 1],
            now,
        );
    }
}

/// Reputation uniqueness of the reports over blocks: after any sequence of
/// blocks from a ledger whose reports are unique, as those of every first
/// ledger are, no reporter says two things about one node.
pub proof fn lemma_blocks_keep_reports_unique(
    s: StateView,
    blocks: Seq<Block>,
    hashes: Seq<Seq<Digest>>,
    times: Seq<u64>,
    upto: int,
)
    requires
        reports_are_unique(s),
    ensures
        reports_are_unique(apply_blocks_spec(s, blocks, hashes, times, upto)),
    decreases upto,
{
    if upto > 0 {
        lemma_blocks_keep_reports_unique(s, blocks, hashes, times, upto - 1);
        let before = apply_blocks_spec(s, blocks, hashes, times, upto - 1);
        let block = blocks[upto - 1];
        lemma_block_keeps_reports_unique(
            before,
            block.transactions@,
            hashes[upto - 1],
            block.digest,
            times[upto - 1],
            block.transactions@.len() as int,
        );
    }
}

/// The first `upto` transactions of a block have `upto` receipts.
pub proof fn lemma_receipts_len(
    s: StateView,
    txs: Seq<UpdateRequest>,
    hashes: Seq<Digest>,
    block_hash: Digest,
    now: u64,
    upto: int,
)
    ensures
        upto >= 0 ==> apply_transactions_spec(s, txs, hashes, block_hash, now, upto).1.len()
            == upto,
    decreases upto,
{
    if upto > 0 {
        lemma_receipts_len(s, txs, hashes, block_hash, now, upto - 1);
    }
}

/// A transaction that does not change the epoch notes no node as a reporter
/// but the one whose hand-in it is, and that one only where it succeeds.
pub proof fn lemma_reporters_unmoved(
    s: StateView,
    tx: UpdateRequest,
    hash: Digest,
    now: u64,
    n: NodeIndex,
)
    requires
        !s.reporters.contains(n),
        s.nodes.len() <= MAX_NODES,
        ({
            let r = apply_transaction_spec(s, tx, hash, now).1;
            &&& r != TransactionResponse::Success(ExecutionData::EpochChange)
            &&& !(r is Success && tx.payload.method is SubmitReputationMeasurements && (
            tx.payload.sender matches TransactionSender::NodeMain(k) && find_node(s.nodes, k)
                == Some(n as int)))
        }),
    ensures
        !apply_transaction_spec(s, tx, hash, now).0.reporters.contains(n),
{
    if is_admitted(s, tx) {
        let sender = tx.payload.sender;
        let counted = bump_nonce(s, sender);
        assert(counted.reporters == s.reporters);
        let (done, r) = apply_method_spec(counted, sender, tx.payload.method, now);
        let after = apply_transaction_spec(s, tx, hash, now).0;
        assert(after.reporters == done.reporters);
        match sender {
            TransactionSender::NodeMain(k) => {
                lemma_find_node(s.nodes, k, 0);
                lemma_find_node(counted.nodes, k, 0);
                if let Some(i) = find_node(counted.nodes, k) {
                    assert forall|j: int| 0 <= j < i implies (#[trigger] s.nodes[j]).public_key
                        != k by {
                        assert(counted.nodes[j].public_key != k);
                    }
                    lemma_find_node_is(s.nodes, k, i);
                    match tx.payload.method {
                        UpdateMethod::SubmitReputationMeasurements { measurements } => {
                            if done.reporters.contains(n) {
                                let w = choose|w: int|
                                    0 <= w < done.reporters.len() && done.reporters[w] == n;
                                if done != counted {
                                    assert(done.reporters == counted.reporters.push(
                                        i as NodeIndex,
                                    ));
                                    if w < counted.reporters.len() {
                                        assert(counted.reporters[w] == n);
                                    }
                                }
                            }
                        },
                        UpdateMethod::ChangeEpoch { epoch } => {
                            let signalled = counted.signalled.push(i as NodeIndex);
                            lemma_distribute_frame(StateView { signalled, ..counted });
                        },
                        _ => {},
                    }
                }
            },
            TransactionSender::AccountOwner(a) => {},
        }
    }
}

} // verus!
