//! The transaction executor: the one deterministic step from a ledger and a
//! transaction to the next ledger and a response, and its run over a block.

use crate::codec::payload_digest;
use crate::epoch::{change_epoch_spec, opt_spec, submit_delivery_spec, submit_reputation_spec};
use crate::hashing::Digest;
use crate::keys::NodeIndex;
use crate::staking::{
    stake_lock_spec, stake_spec, unstake_spec, withdraw_unstaked_spec, NodeDetails,
};
use crate::state::{account_slot, find_node, node_index, open_account, State, StateView};
use crate::tokens::{
    account_or_fresh, change_protocol_param_spec, deposit_spec, read_account, transfer_spec,
    withdraw_spec,
};
use crate::transaction::{
    Block, BlockExecutionResponse, ExecutionData, ExecutionError, TransactionDestination,
    TransactionReceipt, TransactionResponse, TransactionSender, UpdateMethod, UpdateRequest,
};
use crate::types::{Account, Metadata, Node, Participation};
use vstd::prelude::*;

verus! {

/// The number of transactions of `sender` that were executed. An account that
/// the ledger does not know has sent none; a node that it does not know has
/// no count at all.
pub open spec fn sender_nonce(s: StateView, sender: TransactionSender) -> Option<u64> {
    match sender {
        TransactionSender::AccountOwner(a) => Some(account_or_fresh(s.accounts, a).nonce),
        TransactionSender::NodeMain(k) => match find_node(s.nodes, k) {
            Some(i) => Some(s.nodes[i].nonce),
            None => None,
        },
    }
}

/// The ledger after one more transaction of `sender` was counted.
pub open spec fn bump_nonce(s: StateView, sender: TransactionSender) -> StateView {
    match sender {
        TransactionSender::AccountOwner(a) => {
            let (accounts, i) = account_slot(s.accounts, a);
            StateView {
                accounts: accounts.update(
                    i,
                    Account { nonce: (accounts[i].nonce + 1) as u64, ..accounts[i] },
                ),
                ..s
            }
        },
        TransactionSender::NodeMain(k) => match find_node(s.nodes, k) {
            Some(i) => StateView {
                nodes: s.nodes.update(
                    i,
                    Node { nonce: (s.nodes[i].nonce + 1) as u64, ..s.nodes[i] },
                ),
                ..s
            },
            None => s,
        },
    }
}

/// What a method does to the ledger when `sender` asks for it: the rule of
/// the method where the sender is of the kind that may ask, a revert
/// otherwise.
pub open spec fn apply_method_spec(
    s: StateView,
    sender: TransactionSender,
    method: UpdateMethod,
    now: u64,
) -> (StateView, TransactionResponse) {
    match sender {
        TransactionSender::AccountOwner(a) => match method {
            UpdateMethod::Deposit { proof, token, amount } => deposit_spec(s, a, token, amount),
            UpdateMethod::Withdraw { amount, token, receiving_address } => withdraw_spec(
                s,
                a,
                amount,
                token,
                receiving_address,
            ),
            UpdateMethod::Transfer { amount, token, to } => transfer_spec(s, a, amount, token, to),
            UpdateMethod::Stake {
                amount,
                node_public_key,
                consensus_key,
                node_domain,
                worker_public_key,
                worker_domain,
                ports,
            } => stake_spec(
                s,
                a,
                amount,
                node_public_key,
                NodeDetails { consensus_key, node_domain, worker_public_key, worker_domain, ports },
            ),
            UpdateMethod::StakeLock { node, locked_for } => stake_lock_spec(
                s,
                a,
                node,
                locked_for,
            ),
            UpdateMethod::Unstake { amount, node } => unstake_spec(s, a, amount, node),
            UpdateMethod::WithdrawUnstaked { node, recipient } => withdraw_unstaked_spec(
                s,
                a,
                node,
                recipient,
            ),
            UpdateMethod::ChangeProtocolParam { param, value } => change_protocol_param_spec(
                s,
                a,
                param,
                value,
            ),
            _ => (s, TransactionResponse::Revert(ExecutionError::OnlyNode)),
        },
        TransactionSender::NodeMain(k) => match find_node(s.nodes, k) {
            None => (s, TransactionResponse::Revert(ExecutionError::NodeDoesNotExist)),
            Some(i) => match method {
                UpdateMethod::ChangeEpoch { epoch } => change_epoch_spec(
                    s,
                    i as NodeIndex,
                    epoch,
                    now,
                ),
                UpdateMethod::SubmitDeliveryAcknowledgmentAggregation {
                    commodity,
                    service_id,
                    proofs,
                    metadata,
                } => submit_delivery_spec(s, i as NodeIndex, commodity, service_id),
                UpdateMethod::SubmitReputationMeasurements {
                    measurements,
                } => submit_reputation_spec(s, i as NodeIndex, measurements@),
                UpdateMethod::OptIn {  } => opt_spec(s, i as NodeIndex, Participation::OptedIn),
                UpdateMethod::OptOut {  } => opt_spec(s, i as NodeIndex, Participation::OptedOut),
                _ => (s, TransactionResponse::Revert(ExecutionError::OnlyAccountOwner)),
            },
        },
    }
}

/// The step of the executor. A transaction whose signature is bad, whose
/// sender is a node that the ledger does not know, or whose nonce is not the
/// next one of its sender is reverted and changes nothing. Every other
/// transaction uses up its nonce and is recorded as executed, whether its
/// method succeeds or reverts.
pub open spec fn apply_transaction_spec(s: StateView, tx: UpdateRequest, hash: Digest, now: u64) -> (
    StateView,
    TransactionResponse,
) {
    if !tx.signature_valid {
        (s, TransactionResponse::Revert(ExecutionError::InvalidSignature))
    } else {
        match sender_nonce(s, tx.payload.sender) {
            None => (s, TransactionResponse::Revert(ExecutionError::NodeDoesNotExist)),
            Some(n) => if n == u64::MAX || tx.payload.nonce != n + 1 {
                (s, TransactionResponse::Revert(ExecutionError::InvalidNonce))
            } else {
                let (after, response) = apply_method_spec(
                    bump_nonce(s, tx.payload.sender),
                    tx.payload.sender,
                    tx.payload.method,
                    now,
                );
                (StateView { executed: after.executed.push(hash), ..after }, response)
            },
        }
    }
}

/// The receipt of a transaction.
pub open spec fn receipt_spec(
    block_hash: Digest,
    index: int,
    tx: UpdateRequest,
    hash: Digest,
    response: TransactionResponse,
) -> TransactionReceipt {
    TransactionReceipt {
        block_hash,
        transaction_index: index as u64,
        hash,
        from: tx.payload.sender,
        to: TransactionDestination::Fleek,
        response,
    }
}

/// The ledger and the receipts after the first `upto` transactions of a
/// block were executed, in their order.
pub open spec fn apply_transactions_spec(
    s: StateView,
    txs: Seq<UpdateRequest>,
    hashes: Seq<Digest>,
    block_hash: Digest,
    now: u64,
    upto: int,
) -> (StateView, Seq<TransactionReceipt>)
    decreases upto,
{
    if upto <= 0 {
        (s, Seq::empty())
    } else {
        let (before, receipts) = apply_transactions_spec(
            s,
            txs,
            hashes,
            block_hash,
            now,
            upto - 1,
        );
        let (after, response) = apply_transaction_spec(
            before,
            txs[upto - 1],
            hashes[upto - 1],
            now,
        );
        (
            after,
            receipts.push(
                receipt_spec(block_hash, upto - 1, txs[upto - 1], hashes[upto - 1], response),
            ),
        )
    }
}

/// Whether one of the receipts is that of the signal that ended the epoch.
pub open spec fn changed_epoch(receipts: Seq<TransactionReceipt>) -> bool {
    exists|i: int|
        0 <= i < receipts.len() && (#[trigger] receipts[i]).response
            == TransactionResponse::Success(ExecutionData::EpochChange)
}

/// The ledger after a block: every transaction was executed in order, and the
/// block is noted as the last one.
pub open spec fn apply_block_spec(s: StateView, block: Block, hashes: Seq<Digest>, now: u64) -> (
    StateView,
    Seq<TransactionReceipt>,
) {
    let (after, receipts) = apply_transactions_spec(
        s,
        block.transactions@,
        hashes,
        block.digest,
        now,
        block.transactions@.len() as int,
    );
    (
        StateView {
            metadata: Metadata { last_block_digest: block.digest, ..after.metadata },
            ..after
        },
        receipts,
    )
}

/// The digests of the transactions of a block, in their order.
pub open spec fn block_digests(txs: Seq<UpdateRequest>) -> Seq<Digest> {
    Seq::new(txs.len(), |i: int| payload_digest(txs[i].payload))
}

/// Computes the digest of every transaction of a block.
pub fn transaction_digests(block: &Block) -> (hashes: Vec<Digest>)
    ensures
        hashes@ == block_digests(block.transactions@),
{
    let mut hashes: Vec<Digest> = Vec::new();
    let mut i: usize = 0;
    while i < block.transactions.len()
        invariant
            i <= block.transactions.len(),
            hashes@.len() == i,
            forall|k: int|
                0 <= k < i ==> hashes@[k] == payload_digest(block.transactions@[k].payload),
        decreases block.transactions.len() - i,
    {
        hashes.push(block.transactions[i].payload.to_digest());
        i += 1;
    }
    assert(hashes@ =~= block_digests(block.transactions@));
    hashes
}

/// Validate agrees with execute. The response to a transaction is a function
/// of the ledger and the transaction alone: neither the digest nor the time
/// that the executor is given bear on it. A dry run therefore answers as the
/// executor does on the same ledger.
pub proof fn lemma_validate_agrees(
    s: StateView,
    tx: UpdateRequest,
    hash: Digest,
    now: u64,
    other_hash: Digest,
    other_now: u64,
)
    ensures
        apply_transaction_spec(s, tx, hash, now).1 == apply_transaction_spec(
            s,
            tx,
            other_hash,
            other_now,
        ).1,
{
}

impl State {
    /// Reads the number of executed transactions of a sender.
    pub fn nonce_of(&self, sender: &TransactionSender) -> (nonce: Option<u64>)
        ensures
            nonce == sender_nonce(self@, *sender),
    {
        match sender {
            TransactionSender::AccountOwner(a) => Some(read_account(&self.accounts, a).nonce),
            TransactionSender::NodeMain(k) => match node_index(&self.nodes, k) {
                Some(i) => Some(self.nodes[i].nonce),
                None => None,
            },
        }
    }

    fn count_transaction(&mut self, sender: &TransactionSender)
        requires
            old(self)@.wf(),
            sender_nonce(old(self)@, *sender) matches Some(n) && n < u64::MAX,
        ensures
            final(self)@ == bump_nonce(old(self)@, *sender),
            final(self)@.wf(),
    {
        match sender {
            TransactionSender::AccountOwner(a) => {
                let i = open_account(&mut self.accounts, a);
                let mut row = self.accounts[i];
                row.nonce = row.nonce + 1;
                self.accounts.set(i, row);
            },
            TransactionSender::NodeMain(k) => {
                if let Some(i) = node_index(&self.nodes, k) {
                    let mut node = self.nodes[i];
                    node.nonce = node.nonce + 1;
                    self.nodes.set(i, node);
                    proof {
                        assert forall|j: int| 0 <= j < self@.members.len() implies (
                        #[trigger] self@.members[j]) < self@.nodes.len() by {
                            assert(old(self)@.members[j] < old(self)@.nodes.len());
                        }
                    }
                }
            },
        }
    }

    /// Executes a method for a sender whose nonce was checked and counted.
    pub fn apply_method(&mut self, sender: &TransactionSender, method: &UpdateMethod, now: u64) -> (r:
        TransactionResponse)
        requires
            old(self)@.wf(),
        ensures
            (final(self)@, r) == apply_method_spec(old(self)@, *sender, *method, now),
            final(self)@.wf(),
    {
        match sender {
            TransactionSender::AccountOwner(a) => match method {
                UpdateMethod::Deposit { proof, token, amount } => self.deposit(a, *token, *amount),
                UpdateMethod::Withdraw { amount, token, receiving_address } => self.withdraw(
                    a,
                    *amount,
                    *token,
                    receiving_address,
                ),
                UpdateMethod::Transfer { amount, token, to } => self.transfer(
                    a,
                    *amount,
                    *token,
                    to,
                ),
                UpdateMethod::Stake {
                    amount,
                    node_public_key,
                    consensus_key,
                    node_domain,
                    worker_public_key,
                    worker_domain,
                    ports,
                } => {
                    let details = NodeDetails {
                        consensus_key: *consensus_key,
                        node_domain: *node_domain,
                        worker_public_key: *worker_public_key,
                        worker_domain: *worker_domain,
                        ports: *ports,
                    };
                    self.stake(a, *amount, node_public_key, &details)
                },
                UpdateMethod::StakeLock { node, locked_for } => self.stake_lock(
                    a,
                    node,
                    *locked_for,
                ),
                UpdateMethod::Unstake { amount, node } => self.unstake(a, *amount, node),
                UpdateMethod::WithdrawUnstaked { node, recipient } => self.withdraw_unstaked(
                    a,
                    node,
                    *recipient,
                ),
                UpdateMethod::ChangeProtocolParam { param, value } => self.change_protocol_param(
                    a,
                    *param,
                    *value,
                ),
                _ => TransactionResponse::Revert(ExecutionError::OnlyNode),
            },
            TransactionSender::NodeMain(k) => match node_index(&self.nodes, k) {
                None => TransactionResponse::Revert(ExecutionError::NodeDoesNotExist),
                Some(i) => {
                    let n: NodeIndex = i as NodeIndex;
                    match method {
                        UpdateMethod::ChangeEpoch { epoch } => self.change_epoch(n, *epoch, now),
                        UpdateMethod::SubmitDeliveryAcknowledgmentAggregation {
                            commodity,
                            service_id,
                            proofs,
                            metadata,
                        } => self.submit_delivery(n, *commodity, *service_id),
                        UpdateMethod::SubmitReputationMeasurements {
                            measurements,
                        } => self.submit_reputation(n, measurements),
                        UpdateMethod::OptIn {  } => self.opt(n, Participation::OptedIn),
                        UpdateMethod::OptOut {  } => self.opt(n, Participation::OptedOut),
                        _ => TransactionResponse::Revert(ExecutionError::OnlyAccountOwner),
                    }
                },
            },
        }
    }

    /// Executes one transaction whose digest is `hash`, at the time `now`.
    pub fn execute_transaction(&mut self, tx: &UpdateRequest, hash: Digest, now: u64) -> (r:
        TransactionResponse)
        requires
            old(self)@.wf(),
        ensures
            (final(self)@, r) == apply_transaction_spec(old(self)@, *tx, hash, now),
            final(self)@.wf(),
    {
        if !tx.signature_valid {
            return TransactionResponse::Revert(ExecutionError::InvalidSignature);
        }
        match self.nonce_of(&tx.payload.sender) {
            None => TransactionResponse::Revert(ExecutionError::NodeDoesNotExist),
            Some(n) => {
                if n == u64::MAX || tx.payload.nonce != n + 1 {
                    return TransactionResponse::Revert(ExecutionError::InvalidNonce);
                }
                self.count_transaction(&tx.payload.sender);
                let r = self.apply_method(&tx.payload.sender, &tx.payload.method, now);
                self.executed.push(hash);
                r
            },
        }
    }

    /// Runs a transaction against a copy of the ledger and says how the
    /// executor would answer it. The ledger itself stays as it is.
    pub fn validate_txn(&self, tx: &UpdateRequest) -> (r: TransactionResponse)
        requires
            self@.wf(),
        ensures
            forall|hash: Digest, now: u64|
                r == (#[trigger] apply_transaction_spec(self@, *tx, hash, now)).1,
    {
        let mut copy = self.snapshot();
        let zero: Digest = [0u8; 32];
        let r = copy.execute_transaction(tx, zero, 0);
        proof {
            assert forall|hash: Digest, now: u64|
                r == (#[trigger] apply_transaction_spec(self@, *tx, hash, now)).1 by {
                lemma_validate_agrees(self@, *tx, hash, now, zero, 0);
            }
        }
        r
    }

    /// Executes a block: every transaction in its order, each known by the
    /// digest of its payload, and the block noted as the last one.
    pub fn execute_block(&mut self, block: &Block, now: u64) -> (response: BlockExecutionResponse)
        requires
            old(self)@.wf(),
        ensures
            (final(self)@, response.txn_receipts@) == apply_block_spec(
                old(self)@,
                *block,
                block_digests(block.transactions@),
                now,
            ),
            response.change_epoch == changed_epoch(response.txn_receipts@),
            response.block_hash == block.digest,
            final(self)@.wf(),
    {
        let hashes = transaction_digests(block);
        self.execute_block_with(block, &hashes, now)
    }

    /// Executes the transactions of a block in their order, given the digest
    /// of each, and notes the block as the last one.
    pub fn execute_block_with(&mut self, block: &Block, hashes: &Vec<Digest>, now: u64) -> (response:
        BlockExecutionResponse)
        requires
            old(self)@.wf(),
            hashes.len() == block.transactions.len(),
        ensures
            (final(self)@, response.txn_receipts@) == apply_block_spec(
                old(self)@,
                *block,
                hashes@,
                now,
            ),
            response.change_epoch == changed_epoch(response.txn_receipts@),
            response.block_hash == block.digest,
            final(self)@.wf(),
    {
        let mut receipts: Vec<TransactionReceipt> = Vec::new();
        let mut change_epoch: bool = false;
        let mut i: usize = 0;
        while i < block.transactions.len()
            invariant
                i <= block.transactions.len(),
                hashes.len() == block.transactions.len(),
                self@.wf(),
                (self@, receipts@) == apply_transactions_spec(
                    old(self)@,
                    block.transactions@,
                    hashes@,
                    block.digest,
                    now,
                    i as int,
                ),
                change_epoch == changed_epoch(receipts@),
                receipts@.len() == i,
            decreases block.transactions.len() - i,
        {
            let tx = &block.transactions[i];
            let hash = hashes[i];
            let r = self.execute_transaction(tx, hash, now);
            let ghost before = receipts@;
            receipts.push(
                TransactionReceipt {
                    block_hash: block.digest,
                    transaction_index: i as u64,
                    hash,
                    from: tx.payload.sender,
                    to: TransactionDestination::Fleek,
                    response: r,
                },
            );
            let ended = match r {
                TransactionResponse::Success(ExecutionData::EpochChange) => true,
                _ => false,
            };
            proof {
                if changed_epoch(before) {
                    let w = choose|w: int|
                        0 <= w < before.len() && (#[trigger] before[w]).response
                            == TransactionResponse::Success(ExecutionData::EpochChange);
                    assert(receipts@[w] == before[w]);
                }
                if ended {
                    assert(receipts@[i as int].response == TransactionResponse::Success(
                        ExecutionData::EpochChange,
                    ));
                }
                if changed_epoch(receipts@) && !ended {
                    let w = choose|w: int|
                        0 <= w < receipts@.len() && (#[trigger] receipts@[w]).response
                            == TransactionResponse::Success(ExecutionData::EpochChange);
                    assert(before[w] == receipts@[w]);
                }
            }
            if ended {
                change_epoch = true;
            }
            i += 1;
        }
        self.metadata.last_block_digest = block.digest;
        BlockExecutionResponse { block_hash: block.digest, change_epoch, txn_receipts: receipts }
    }
}

} // verus!
