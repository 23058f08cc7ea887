//! What holds of every ledger and every transaction.

use crate::committee::{has_sufficient_stake, required_signals};
use crate::epoch::{change_epoch_spec, submit_reputation_spec};
use crate::executor::{
    apply_block_spec, apply_method_spec, apply_transaction_spec, bump_nonce,
};
use crate::hashing::Digest;
use crate::keys::{Address, NodeIndex, NodeKey};
use crate::nonces::is_admitted;
use crate::rewards::lemma_distribute_frame;
use crate::root::state_root_spec;
use crate::staking::{new_node, stake_spec, unstake_spec, withdraw_unstaked_spec, NodeDetails};
use crate::state::{find_node, lemma_find_node, StateView, MAX_NODES};
use crate::tokens::account_or_fresh;
use crate::transaction::{
    Block, ExecutionData, ExecutionError, TransactionResponse, TransactionSender, UpdateMethod,
    UpdateRequest,
};
use crate::types::{Node, ReputationMeasurements, Tokens};
use vstd::prelude::*;

verus! {

/// Whether the signal of node `n` for `epoch` counts: the node has its stake,
/// sits on the committee, names the current epoch and has not signalled yet.
pub open spec fn signal_counts(s: StateView, n: NodeIndex, epoch: u64) -> bool {
    &&& has_sufficient_stake(s.nodes[n as int], s.params)
    &&& s.members.contains(n)
    &&& epoch == s.metadata.epoch
    &&& !s.signalled.contains(n)
    &&& s.metadata.epoch < u64::MAX
}

/// Epoch change threshold. A signal changes the epoch if and only if it
/// counts and, with it, the signals number at least one more than two thirds
/// of the committee. The epoch then grows by one and the signals are cleared;
/// otherwise the epoch and the committee stay, and a signal that counts is
/// kept.
pub proof fn lemma_epoch_change_threshold(s: StateView, n: NodeIndex, epoch: u64, now: u64)
    requires
        n < s.nodes.len(),
    ensures
        ({
            let (after, r) = change_epoch_spec(s, n, epoch, now);
            let changed = r == TransactionResponse::Success(ExecutionData::EpochChange);
            &&& changed <==> signal_counts(s, n, epoch) && s.signalled.len() + 1
                >= required_signals(s.members.len())
            &&& changed ==> after.metadata.epoch == s.metadata.epoch + 1 && after.signalled.len()
                == 0
            &&& !changed ==> after.metadata.epoch == s.metadata.epoch && after.members
                == s.members
            &&& !changed && signal_counts(s, n, epoch) ==> after.signalled == s.signalled.push(n)
            &&& !signal_counts(s, n, epoch) ==> after == s
        }),
{
    let signalled = s.signalled.push(n);
    lemma_distribute_frame(StateView { signalled, ..s });
}

/// No transaction but the signal that completes the quorum moves the epoch:
/// the epoch grows by one where the response says that the epoch changed,
/// and stays otherwise.
pub proof fn lemma_epoch_moves_by_quorum_only(s: StateView, tx: UpdateRequest, hash: Digest, now: u64)
    ensures
        ({
            let (after, r) = apply_transaction_spec(s, tx, hash, now);
            let changed = r == TransactionResponse::Success(ExecutionData::EpochChange);
            &&& changed ==> after.metadata.epoch == s.metadata.epoch + 1
            &&& !changed ==> after.metadata.epoch == s.metadata.epoch
            &&& changed ==> tx.payload.method is ChangeEpoch && s.signalled.len() + 1
                >= required_signals(s.members.len())
        }),
{
    if is_admitted(s, tx) {
        let sender = tx.payload.sender;
        let counted = bump_nonce(s, sender);
        let (done, r) = apply_method_spec(counted, sender, tx.payload.method, now);
        assert(apply_transaction_spec(s, tx, hash, now).1 == r);
        assert(apply_transaction_spec(s, tx, hash, now).0.metadata == done.metadata);
        match sender {
            TransactionSender::NodeMain(k) => {
                lemma_find_node(counted.nodes, k, 0);
                if let Some(i) = find_node(counted.nodes, k) {
                    if let UpdateMethod::ChangeEpoch { epoch } = tx.payload.method {
                        lemma_epoch_change_threshold(counted, i as NodeIndex, epoch, now);
                    }
                }
            },
            TransactionSender::AccountOwner(a) => {},
        }
    }
}

/// Self-transfer rejection. A transfer to the sender's own address that is
/// admitted always reverts with `CantSendToYourself`; it uses up the nonce
/// and touches nothing else.
pub proof fn lemma_self_transfer_reverts(s: StateView, tx: UpdateRequest, hash: Digest, now: u64)
    requires
        is_admitted(s, tx),
        tx.payload.sender matches TransactionSender::AccountOwner(a) && (
        tx.payload.method matches UpdateMethod::Transfer { to, .. } && to == a),
    ensures
        ({
            let (after, r) = apply_transaction_spec(s, tx, hash, now);
            let counted = bump_nonce(s, tx.payload.sender);
            &&& r == TransactionResponse::Revert(ExecutionError::CantSendToYourself)
            &&& after == (StateView { executed: counted.executed.push(hash), ..counted })
        }),
{
}

/// Unstaking moves stake to the locked tokens. Where the owner of a node
/// whose stake is not locked unstakes no more than is staked, and the locked
/// tokens and the epoch of their release still fit their number types, the
/// unstake succeeds: the stake shrinks and the locked tokens grow by the
/// amount, they are locked until `lock_time` epochs from now, and everything
/// else stays.
pub proof fn lemma_unstake_locks(s: StateView, sender: Address, amount: u128, key: NodeKey)
    requires
        find_node(s.nodes, key) matches Some(i) && s.nodes[i].owner == sender
            && s.nodes[i].stake_locked_until <= s.metadata.epoch && amount <= s.nodes[i].staked
            && s.nodes[i].locked + amount <= u128::MAX,
        s.metadata.epoch + s.params.lock_time <= u64::MAX,
    ensures
        ({
            let (after, r) = unstake_spec(s, sender, amount, key);
            let i = find_node(s.nodes, key).unwrap();
            &&& r == TransactionResponse::Success(ExecutionData::Nothing)
            &&& after == (StateView { nodes: after.nodes, ..s })
            &&& after.nodes == s.nodes.update(i, after.nodes[i])
            &&& after.nodes[i] == (Node {
                staked: (s.nodes[i].staked - amount) as u128,
                locked: (s.nodes[i].locked + amount) as u128,
                locked_until: (s.metadata.epoch + s.params.lock_time) as u64,
                ..s.nodes[i]
            })
            &&& after.nodes[i].staked + after.nodes[i].locked == s.nodes[i].staked
                + s.nodes[i].locked
        }),
{
    lemma_find_node(s.nodes, key, 0);
}

/// Locked tokens cannot be withdrawn before their time: a withdrawal by the
/// owner before the epoch of their release reverts with `TokensLocked`.
pub proof fn lemma_withdraw_waits_for_release(
    s: StateView,
    sender: Address,
    key: NodeKey,
    recipient: Option<Address>,
)
    requires
        find_node(s.nodes, key) matches Some(i) && s.nodes[i].owner == sender
            && s.nodes[i].locked_until > s.metadata.epoch,
    ensures
        withdraw_unstaked_spec(s, sender, key, recipient) == (
            s,
            TransactionResponse::Revert(ExecutionError::TokensLocked),
        ),
{
}

/// A first stake registers the node. Where an account that holds the amount
/// stakes it on a key that is not registered, gives all details, and an index
/// is left, the stake succeeds: the node gets the next index, belongs to the
/// sender, has the amount staked and nothing locked, and the sender's balance
/// shrinks by the amount. A stake without all details on such a key reverts
/// with `InsufficientNodeDetails`.
pub proof fn lemma_first_stake_registers(
    s: StateView,
    sender: Address,
    amount: u128,
    key: NodeKey,
    details: NodeDetails,
)
    requires
        amount <= account_or_fresh(s.accounts, sender).flk_balance,
        find_node(s.nodes, key) is None,
        s.nodes.len() < MAX_NODES,
    ensures
        ({
            let (after, r) = stake_spec(s, sender, amount, key, details);
            let held = account_or_fresh(s.accounts, sender).flk_balance;
            &&& !details.complete() ==> after == s && r == TransactionResponse::Revert(
                ExecutionError::InsufficientNodeDetails,
            )
            &&& details.complete() ==> {
                &&& r == TransactionResponse::Success(ExecutionData::Nothing)
                &&& find_node(after.nodes, key) == Some(s.nodes.len() as int)
                &&& after.nodes == s.nodes.push(new_node(key, sender, amount, details))
                &&& after.nodes[s.nodes.len() as int].staked == amount
                &&& after.nodes[s.nodes.len() as int].locked == 0
                &&& account_or_fresh(after.accounts, sender).flk_balance == held - amount
            }
        }),
{
    if details.complete() {
        let after = stake_spec(s, sender, amount, key, details).0;
        lemma_find_node(s.nodes, key, 0);
        assert forall|k: int| 0 <= k < s.nodes.len() implies (#[trigger] after.nodes[k]).public_key
            != key by {
            assert(s.nodes[k].public_key != key);
        }
        crate::frames::lemma_find_node_is(after.nodes, key, s.nodes.len() as int);
        let held = account_or_fresh(s.accounts, sender).flk_balance;
        crate::frames::lemma_read_after_write(
            s.accounts,
            sender,
            Tokens::FLK,
            (held - amount) as u128,
            sender,
        );
    }
}

/// A transaction that reverts never leaves the ledger half changed. Where it
/// was admitted it has used up its nonce and is recorded as executed, and
/// nothing else has moved; where it was not, nothing has moved at all.
pub proof fn lemma_revert_moves_nothing(s: StateView, tx: UpdateRequest, hash: Digest, now: u64)
    ensures
        ({
            let (after, r) = apply_transaction_spec(s, tx, hash, now);
            let counted = bump_nonce(s, tx.payload.sender);
            r is Revert ==> after == (if is_admitted(s, tx) {
                StateView { executed: counted.executed.push(hash), ..counted }
            } else {
                s
            })
        }),
{
    if is_admitted(s, tx) {
        let sender = tx.payload.sender;
        let counted = bump_nonce(s, sender);
        let (done, r) = apply_method_spec(counted, sender, tx.payload.method, now);
        if r is Revert {
            assert(done == counted);
        }
    }
}

/// Reputation uniqueness, first half. A node that handed in its measurements
/// in this epoch cannot hand in again: the second hand-in never succeeds, and
/// reverts with `AlreadySubmittedMeasurements` where the node has its stake.
/// A hand-in that succeeds notes the node as a reporter.
pub proof fn lemma_one_submission(
    s: StateView,
    n: NodeIndex,
    measurements: Seq<(NodeIndex, ReputationMeasurements)>,
)
    ensures
        ({
            let (after, r) = submit_reputation_spec(s, n, measurements);
            &&& s.reporters.contains(n) ==> !(r is Success) && after == s
            &&& s.reporters.contains(n) && has_sufficient_stake(s.nodes[n as int], s.params) ==> r
                == TransactionResponse::Revert(ExecutionError::AlreadySubmittedMeasurements)
            &&& r is Success ==> after.reporters.contains(n) && !s.reporters.contains(n)
        }),
{
    let (after, r) = submit_reputation_spec(s, n, measurements);
    if r is Success {
        assert(after.reporters[s.reporters.len() as int] == n);
    }
}

/// Reputation uniqueness, second half. A node stays noted as a reporter
/// until the epoch changes: no transaction that leaves the epoch as it is
/// takes a reporter off the list.
pub proof fn lemma_reporters_stay(
    s: StateView,
    tx: UpdateRequest,
    hash: Digest,
    now: u64,
    n: NodeIndex,
)
    requires
        s.reporters.contains(n),
    ensures
        ({
            let (after, r) = apply_transaction_spec(s, tx, hash, now);
            r != TransactionResponse::Success(ExecutionData::EpochChange)
                ==> after.reporters.contains(n)
        }),
{
    let w = choose|w: int| 0 <= w < s.reporters.len() && s.reporters[w] == n;
    if is_admitted(s, tx) {
        let sender = tx.payload.sender;
        let counted = bump_nonce(s, sender);
        assert(counted.reporters == s.reporters);
        let (done, r) = apply_method_spec(counted, sender, tx.payload.method, now);
        assert(apply_transaction_spec(s, tx, hash, now).0.reporters == done.reporters);
        if r != TransactionResponse::Success(ExecutionData::EpochChange) {
            match sender {
                TransactionSender::NodeMain(k) => {
                    lemma_find_node(counted.nodes, k, 0);
                    if let Some(i) = find_node(counted.nodes, k) {
                        match tx.payload.method {
                            UpdateMethod::SubmitReputationMeasurements { measurements } => {
                                if done != counted {
                                    assert(done.reporters == counted.reporters.push(
                                        i as NodeIndex,
                                    ));
                                    assert(done.reporters[w] == n);
                                }
                            },
                            _ => {},
                        }
                    }
                },
                TransactionSender::AccountOwner(a) => {},
            }
            assert(done.reporters.contains(n));
        }
    }
}

/// Determinism. Two runs of a block from ledgers that hold the same, with
/// the same digests and at the same time, end in ledgers that hold the same,
/// with the same state root, and give the same receipts.
pub proof fn lemma_deterministic(
    first: StateView,
    second: StateView,
    block: Block,
    hashes: Seq<Digest>,
    now: u64,
)
    requires
        first == second,
    ensures
        apply_block_spec(first, block, hashes, now) == apply_block_spec(
            second,
            block,
            hashes,
            now,
        ),
        state_root_spec(apply_block_spec(first, block, hashes, now).0) == state_root_spec(
            apply_block_spec(second, block, hashes, now).0,
        ),
{
}

} // verus!
