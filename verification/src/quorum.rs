//! The epoch changes by quorum: a block of signals changes the epoch exactly
//! when, with it, enough members of the committee have signalled.

use crate::committee::{has_sufficient_stake, required_signals};
use crate::epoch::change_epoch_spec;
use crate::executor::{
    apply_method_spec, apply_transaction_spec, apply_transactions_spec, bump_nonce,
    changed_epoch, receipt_spec, sender_nonce,
};
use crate::frames::lemma_find_node_is;
use crate::hashing::Digest;
use crate::keys::{NodeIndex, NodeKey};
use crate::laws::lemma_epoch_change_threshold;
use crate::reporting::lemma_receipts_len;
use crate::state::{find_node, lemma_find_node, StateView, MAX_NODES};
use crate::transaction::{
    ExecutionData, TransactionReceipt, TransactionResponse, TransactionSender, UpdateMethod,
    UpdateRequest,
};
use vstd::prelude::*;

verus! {

/// Whether transaction `tx` is a signal for the current epoch by the node
/// with this key that counts: the node is registered, has its stake, sits
/// on the committee and has not signalled, and the transaction is signed and
/// carries the node's next nonce.
pub open spec fn is_fresh_signal(s: StateView, tx: UpdateRequest, key: NodeKey) -> bool {
    &&& tx.signature_valid
    &&& tx.payload.sender == TransactionSender::NodeMain(key)
    &&& tx.payload.method == (UpdateMethod::ChangeEpoch { epoch: s.metadata.epoch })
    &&& find_node(s.nodes, key) matches Some(i) && {
        &&& s.nodes[i].nonce < u64::MAX
        &&& tx.payload.nonce == s.nodes[i].nonce + 1
        &&& has_sufficient_stake(s.nodes[i], s.params)
        &&& s.members.contains(i as NodeIndex)
        &&& !s.signalled.contains(i as NodeIndex)
    }
}

/// Whether a block is made of signals that count, one each by nodes with
/// the given keys, no two of which are the same.
pub open spec fn is_signal_block(s: StateView, txs: Seq<UpdateRequest>, keys: Seq<NodeKey>) -> bool {
    &&& txs.len() == keys.len()
    &&& forall|j: int| 0 <= j < txs.len() ==> is_fresh_signal(s, #[trigger] txs[j], keys[j])
    &&& forall|a: int, b: int| 0 <= a < b < keys.len() ==> keys[a] != keys[b]
}

/// The indices of the first `upto` nodes with the given keys.
pub open spec fn indices_of(s: StateView, keys: Seq<NodeKey>, upto: int) -> Seq<NodeIndex>
    decreases upto,
{
    if upto <= 0 {
        Seq::empty()
    } else {
        indices_of(s, keys, upto - 1).push(find_node(s.nodes, keys[upto - 1]).unwrap() as NodeIndex)
    }
}

/// Whether the ledger `st` is `s` after the first `upto` signals of a block
/// were counted and none of them changed the epoch: the signals are noted,
/// the nodes that signalled have used a nonce, and nothing else has moved
/// that the signals to come look at.
pub open spec fn signals_counted(
    s: StateView,
    st: StateView,
    receipts: Seq<TransactionReceipt>,
    keys: Seq<NodeKey>,
    upto: int,
) -> bool {
    &&& st.metadata == s.metadata
    &&& st.params == s.params
    &&& st.members == s.members
    &&& st.signalled == s.signalled.add(indices_of(s, keys, upto))
    &&& st.nodes.len() == s.nodes.len()
    &&& forall|i: int|
        0 <= i < s.nodes.len() ==> (#[trigger] st.nodes[i]).public_key == s.nodes[i].public_key
            && st.nodes[i].staked == s.nodes[i].staked
    &&& forall|j: int|
        upto <= j < keys.len() ==> st.nodes[find_node(s.nodes, #[trigger] keys[j]).unwrap()]
            == s.nodes[find_node(s.nodes, keys[j]).unwrap()]
    &&& forall|i: int|
        0 <= i < upto ==> (#[trigger] receipts[i]).response == TransactionResponse::Success(
            ExecutionData::Nothing,
        )
}

/// The indices of the first `upto` nodes are as many as the nodes, each that
/// of its node.
pub proof fn lemma_indices_of(s: StateView, keys: Seq<NodeKey>, upto: int)
    requires
        0 <= upto <= keys.len(),
    ensures
        indices_of(s, keys, upto).len() == upto,
        forall|j: int|
            0 <= j < upto ==> (#[trigger] indices_of(s, keys, upto)[j]) == find_node(
                s.nodes,
                keys[j],
            ).unwrap() as NodeIndex,
    decreases upto,
{
    if upto > 0 {
        lemma_indices_of(s, keys, upto - 1);
    }
}

/// Epoch change by quorum over a block. A block of one or more signals that
/// count, by different nodes, changes the epoch exactly when the signals
/// before it and its own number at least one more than two thirds of the
/// committee. Where it does not, epoch and committee stay and every signal is
/// noted.
pub proof fn lemma_signal_block(
    s: StateView,
    txs: Seq<UpdateRequest>,
    keys: Seq<NodeKey>,
    hashes: Seq<Digest>,
    block_hash: Digest,
    now: u64,
)
    requires
        s.nodes.len() <= MAX_NODES,
        s.metadata.epoch < u64::MAX,
        is_signal_block(s, txs, keys),
        txs.len() >= 1,
    ensures
        ({
            let (after, receipts) = apply_transactions_spec(
                s,
                txs,
                hashes,
                block_hash,
                now,
                txs.len() as int,
            );
            let enough = s.signalled.len() + txs.len() >= required_signals(s.members.len());
            &&& changed_epoch(receipts) <==> enough
            &&& !enough ==> after.metadata.epoch == s.metadata.epoch && after.members == s.members
                && after.signalled == s.signalled.add(indices_of(s, keys, keys.len() as int))
        }),
{
    lemma_signals(s, txs, keys, hashes, block_hash, now, txs.len() as int);
    lemma_receipts_len(s, txs, hashes, block_hash, now, txs.len() as int);
    let (after, receipts) = apply_transactions_spec(s, txs, hashes, block_hash, now, txs.len() as int);
    let enough = s.signalled.len() + txs.len() >= required_signals(s.members.len());
    if !enough {
        if changed_epoch(receipts) {
            let w = choose|w: int|
                0 <= w < receipts.len() && (#[trigger] receipts[w]).response
                    == TransactionResponse::Success(ExecutionData::EpochChange);
            assert(receipts[w].response == TransactionResponse::Success(ExecutionData::Nothing));
        }
    }
}

/// The first `upto` signals of a block either were all noted without a
/// change of the epoch, being too few for it, or one of them changed the
/// epoch, being enough.
pub proof fn lemma_signals(
    s: StateView,
    txs: Seq<UpdateRequest>,
    keys: Seq<NodeKey>,
    hashes: Seq<Digest>,
    block_hash: Digest,
    now: u64,
    upto: int,
)
    requires
        s.nodes.len() <= MAX_NODES,
        s.metadata.epoch < u64::MAX,
        is_signal_block(s, txs, keys),
        0 <= upto <= txs.len(),
    ensures
        ({
            let (st, receipts) = apply_transactions_spec(s, txs, hashes, block_hash, now, upto);
            let needed = required_signals(s.members.len());
            ||| signals_counted(s, st, receipts, keys, upto) && (upto >= 1 ==> s.signalled.len()
                + upto < needed)
            ||| upto >= 1 && s.signalled.len() + upto >= needed && exists|w: int|
                0 <= w < upto && (#[trigger] receipts[w]).response == TransactionResponse::Success(
                    ExecutionData::EpochChange,
                )
        }),
    decreases upto,
{
    let needed = required_signals(s.members.len());
    if upto == 0 {
        let (st, receipts) = apply_transactions_spec(s, txs, hashes, block_hash, now, 0);
        assert(st.signalled =~= s.signalled.add(indices_of(s, keys, 0)));
        assert forall|j: int| 0 <= j < keys.len() implies st.nodes[find_node(
            s.nodes,
            #[trigger] keys[j],
        ).unwrap()] == s.nodes[find_node(s.nodes, keys[j]).unwrap()] by {}
    } else {
        lemma_signals(s, txs, keys, hashes, block_hash, now, upto - 1);
        lemma_receipts_len(s, txs, hashes, block_hash, now, upto - 1);
        let (before, earlier) = apply_transactions_spec(s, txs, hashes, block_hash, now, upto - 1);
        let (st, receipts) = apply_transactions_spec(s, txs, hashes, block_hash, now, upto);
        let tx = txs[upto - 1];
        let key = keys[upto - 1];
        let (stepped, r) = apply_transaction_spec(before, tx, hashes[upto - 1], now);
        assert(receipts == earlier.push(receipt_spec(block_hash, upto - 1, tx, hashes[upto - 1], r)));
        if signals_counted(s, before, earlier, keys, upto - 1) && (upto - 1 >= 1
            ==> s.signalled.len() + (upto - 1) < needed) {
            assert(is_fresh_signal(s, txs[upto - 1], keys[upto - 1]));
            lemma_find_node(s.nodes, key, 0);
            let n = find_node(s.nodes, key).unwrap();
            assert(keys[upto - 1] == key);
            assert(before.nodes[n] == s.nodes[n]);
            assert forall|k: int| 0 <= k < n implies (#[trigger] before.nodes[k]).public_key
                != key by {
                assert(s.nodes[k].public_key != key);
            }
            lemma_find_node_is(before.nodes, key, n);
            assert(sender_nonce(before, tx.payload.sender) == Some(s.nodes[n].nonce));
            let counted = bump_nonce(before, tx.payload.sender);
            assert forall|k: int| 0 <= k < n implies (#[trigger] counted.nodes[k]).public_key
                != key by {
                assert(before.nodes[k].public_key != key);
            }
            lemma_find_node_is(counted.nodes, key, n);
            let (done, r2) = apply_method_spec(counted, tx.payload.sender, tx.payload.method, now);
            assert((done, r2) == change_epoch_spec(
                counted,
                n as NodeIndex,
                s.metadata.epoch,
                now,
            ));
            assert(r2 == r);
            lemma_indices_of(s, keys, upto - 1);
            lemma_indices_of(s, keys, upto);
            // The node has not signalled: not before the block, and not in it.
            assert(!counted.signalled.contains(n as NodeIndex)) by {
                if counted.signalled.contains(n as NodeIndex) {
                    let w = choose|w: int|
                        0 <= w < counted.signalled.len() && counted.signalled[w] == n as NodeIndex;
                    if w < s.signalled.len() {
                        assert(s.signalled[w] == n as NodeIndex);
                    } else {
                        let j = w - s.signalled.len();
                        assert(indices_of(s, keys, upto - 1)[j] == n as NodeIndex);
                        assert(is_fresh_signal(s, txs[j], keys[j]));
                        lemma_find_node(s.nodes, keys[j], 0);
                        assert(keys[j] != key);
                    }
                }
            }
            lemma_epoch_change_threshold(counted, n as NodeIndex, s.metadata.epoch, now);
            assert(counted.signalled.len() == s.signalled.len() + (upto - 1));
            if s.signalled.len() + upto >= needed {
                assert(receipts[upto - 1].response == TransactionResponse::Success(
                    ExecutionData::EpochChange,
                ));
            } else {
                assert(st.signalled =~= s.signalled.add(indices_of(s, keys, upto)));
                assert forall|j: int| upto <= j < keys.len() implies st.nodes[find_node(
                    s.nodes,
                    #[trigger] keys[j],
                ).unwrap()] == s.nodes[find_node(s.nodes, keys[j]).unwrap()] by {
                    assert(is_fresh_signal(s, txs[j], keys[j]));
                    lemma_find_node(s.nodes, keys[j], 0);
                    let m = find_node(s.nodes, keys[j]).unwrap();
                    assert(keys[j] != key);
                    assert(m != n);
                    assert(before.nodes[m] == s.nodes[m]);
                }
                assert forall|i: int| 0 <= i < upto implies (#[trigger] receipts[i]).response
                    == TransactionResponse::Success(ExecutionData::Nothing) by {
                    if i < upto - 1 {
                        assert(receipts[i] == earlier[i]);
                    }
                }
                assert(signals_counted(s, st, receipts, keys, upto));
            }
        } else {
            let w = choose|w: int|
                0 <= w < upto - 1 && (#[trigger] earlier[w]).response
                    == TransactionResponse::Success(ExecutionData::EpochChange);
            assert(receipts[w] == earlier[w]);
        }
    }
}

} // verus!
