//! The rules of staking: putting FLK on a node, locking the stake, taking it
//! off again and withdrawing it once its lock has run out.

use crate::keys::{bytes_eq, Address, ConsensusKey, IpAddress, NodeKey};
use crate::state::{find_node, node_index, State, StateView, MAX_NODES};
use crate::tokens::{account_or_fresh, read_account, set_balance, write_balance};
use crate::transaction::{ExecutionData, ExecutionError, TransactionResponse};
use crate::types::{Node, NodePorts, Participation, Tokens};
use vstd::prelude::*;

verus! {

/// The details of a node that a stake transaction may carry.
#[derive(Clone, Copy, Debug, PartialEq, Eq)]
pub struct NodeDetails {
    pub consensus_key: Option<ConsensusKey>,
    pub node_domain: Option<IpAddress>,
    pub worker_public_key: Option<NodeKey>,
    pub worker_domain: Option<IpAddress>,
    pub ports: Option<NodePorts>,
}

impl NodeDetails {
    /// Whether every detail is given, as a node that is new needs it.
    pub open spec fn complete(self) -> bool {
        &&& self.consensus_key is Some
        &&& self.node_domain is Some
        &&& self.worker_public_key is Some
        &&& self.worker_domain is Some
        &&& self.ports is Some
    }
}

/// A node that was just registered by `owner` with a first stake.
pub open spec fn new_node(key: NodeKey, owner: Address, amount: u128, details: NodeDetails) -> Node
    recommends
        details.complete(),
{
    Node {
        public_key: key,
        owner,
        consensus_key: details.consensus_key.unwrap(),
        worker_public_key: details.worker_public_key.unwrap(),
        domain: details.node_domain.unwrap(),
        worker_domain: details.worker_domain.unwrap(),
        ports: details.ports.unwrap(),
        staked: amount,
        locked: 0,
        locked_until: 0,
        stake_locked_until: 0,
        nonce: 0,
        participation: Participation::True,
        reputation: None,
        revenue: 0,
    }
}

/// The node with the details that are given written over its own.
pub open spec fn with_details(node: Node, details: NodeDetails) -> Node {
    Node {
        consensus_key: match details.consensus_key {
            Some(k) => k,
            None => node.consensus_key,
        },
        worker_public_key: match details.worker_public_key {
            Some(k) => k,
            None => node.worker_public_key,
        },
        domain: match details.node_domain {
            Some(d) => d,
            None => node.domain,
        },
        worker_domain: match details.worker_domain {
            Some(d) => d,
            None => node.worker_domain,
        },
        ports: match details.ports {
            Some(p) => p,
            None => node.ports,
        },
        ..node
    }
}

/// Stake: FLK moves from the sender's balance to the stake of a node. A node
/// that is not registered is registered to the sender, with the next free
/// index, if all its details are given.
pub open spec fn stake_spec(
    s: StateView,
    sender: Address,
    amount: u128,
    key: NodeKey,
    details: NodeDetails,
) -> (StateView, TransactionResponse) {
    let held = account_or_fresh(s.accounts, sender).flk_balance;
    if held < amount {
        (s, TransactionResponse::Revert(ExecutionError::InsufficientBalance))
    } else {
        match find_node(s.nodes, key) {
            Some(i) => {
                let node = s.nodes[i];
                if node.owner != sender {
                    (s, TransactionResponse::Revert(ExecutionError::NotNodeOwner))
                } else if node.staked + amount > u128::MAX {
                    (s, TransactionResponse::Revert(ExecutionError::Overflow))
                } else {
                    (
                        StateView {
                            accounts: set_balance(
                                s.accounts,
                                sender,
                                Tokens::FLK,
                                (held - amount) as u128,
                            ),
                            nodes: s.nodes.update(
                                i,
                                with_details(
                                    Node { staked: (node.staked + amount) as u128, ..node },
                                    details,
                                ),
                            ),
                            ..s
                        },
                        TransactionResponse::Success(ExecutionData::Nothing),
                    )
                }
            },
            None => {
                if !details.complete() {
                    (s, TransactionResponse::Revert(ExecutionError::InsufficientNodeDetails))
                } else if s.nodes.len() >= MAX_NODES {
                    (s, TransactionResponse::Revert(ExecutionError::RegistryFull))
                } else {
                    (
                        StateView {
                            accounts: set_balance(
                                s.accounts,
                                sender,
                                Tokens::FLK,
                                (held - amount) as u128,
                            ),
                            nodes: s.nodes.push(new_node(key, sender, amount, details)),
                            ..s
                        },
                        TransactionResponse::Success(ExecutionData::Nothing),
                    )
                }
            },
        }
    }
}

/// Unstake: stake of the sender's node becomes locked, until `lock_time`
/// epochs from now. Refused while the stake itself is locked.
pub open spec fn unstake_spec(s: StateView, sender: Address, amount: u128, key: NodeKey) -> (
    StateView,
    TransactionResponse,
) {
    match find_node(s.nodes, key) {
        None => (s, TransactionResponse::Revert(ExecutionError::NodeDoesNotExist)),
        Some(i) => {
            let node = s.nodes[i];
            if node.owner != sender {
                (s, TransactionResponse::Revert(ExecutionError::NotNodeOwner))
            } else if node.stake_locked_until > s.metadata.epoch {
                (s, TransactionResponse::Revert(ExecutionError::LockedTokensUnstakeForbidden))
            } else if node.staked < amount {
                (s, TransactionResponse::Revert(ExecutionError::InsufficientBalance))
            } else if node.locked + amount > u128::MAX || s.metadata.epoch + s.params.lock_time
                > u64::MAX {
                (s, TransactionResponse::Revert(ExecutionError::Overflow))
            } else {
                (
                    StateView {
                        nodes: s.nodes.update(
                            i,
                            Node {
                                staked: (node.staked - amount) as u128,
                                locked: (node.locked + amount) as u128,
                                locked_until: (s.metadata.epoch + s.params.lock_time) as u64,
                                ..node
                            },
                        ),
                        ..s
                    },
                    TransactionResponse::Success(ExecutionData::Nothing),
                )
            }
        },
    }
}

/// Epochs for which a stake is still locked.
pub open spec fn remaining_lock(node: Node, epoch: u64) -> int {
    if node.stake_locked_until > epoch {
        node.stake_locked_until - epoch
    } else {
        0
    }
}

/// StakeLock: the lock on the stake of the sender's node grows by
/// `locked_for` epochs, up to the longest lock that the protocol allows.
pub open spec fn stake_lock_spec(s: StateView, sender: Address, key: NodeKey, locked_for: u64) -> (
    StateView,
    TransactionResponse,
) {
    match find_node(s.nodes, key) {
        None => (s, TransactionResponse::Revert(ExecutionError::NodeDoesNotExist)),
        Some(i) => {
            let node = s.nodes[i];
            let lock = remaining_lock(node, s.metadata.epoch) + locked_for;
            if node.owner != sender {
                (s, TransactionResponse::Revert(ExecutionError::NotNodeOwner))
            } else if node.staked == 0 {
                (s, TransactionResponse::Revert(ExecutionError::InsufficientStakesToLock))
            } else if lock > s.params.max_stake_lock_time {
                (s, TransactionResponse::Revert(ExecutionError::LockExceededMaxStakeLockTime))
            } else if s.metadata.epoch + lock > u64::MAX {
                (s, TransactionResponse::Revert(ExecutionError::Overflow))
            } else {
                (
                    StateView {
                        nodes: s.nodes.update(
                            i,
                            Node { stake_locked_until: (s.metadata.epoch + lock) as u64, ..node },
                        ),
                        ..s
                    },
                    TransactionResponse::Success(ExecutionData::Nothing),
                )
            }
        },
    }
}

/// WithdrawUnstaked: the locked tokens of the sender's node move to the
/// recipient, or to the sender where none is named. Refused until the epoch
/// has reached `locked_until`.
pub open spec fn withdraw_unstaked_spec(
    s: StateView,
    sender: Address,
    key: NodeKey,
    recipient: Option<Address>,
) -> (StateView, TransactionResponse) {
    match find_node(s.nodes, key) {
        None => (s, TransactionResponse::Revert(ExecutionError::NodeDoesNotExist)),
        Some(i) => {
            let node = s.nodes[i];
            let to = match recipient {
                Some(r) => r,
                None => sender,
            };
            let held = account_or_fresh(s.accounts, to).flk_balance;
            if node.owner != sender {
                (s, TransactionResponse::Revert(ExecutionError::NotNodeOwner))
            } else if node.locked_until > s.metadata.epoch {
                (s, TransactionResponse::Revert(ExecutionError::TokensLocked))
            } else if held + node.locked > u128::MAX {
                (s, TransactionResponse::Revert(ExecutionError::Overflow))
            } else {
                (
                    StateView {
                        accounts: set_balance(
                            s.accounts,
                            to,
                            Tokens::FLK,
                            (held + node.locked) as u128,
                        ),
                        nodes: s.nodes.update(i, Node { locked: 0, ..node }),
                        ..s
                    },
                    TransactionResponse::Success(ExecutionData::Nothing),
                )
            }
        },
    }
}

fn apply_details(node: &mut Node, details: &NodeDetails)
    ensures
        *final(node) == with_details(*old(node), *details),
{
    if let Some(k) = details.consensus_key {
        node.consensus_key = k;
    }
    if let Some(k) = details.worker_public_key {
        node.worker_public_key = k;
    }
    if let Some(d) = details.node_domain {
        node.domain = d;
    }
    if let Some(d) = details.worker_domain {
        node.worker_domain = d;
    }
    if let Some(p) = details.ports {
        node.ports = p;
    }
}

impl State {
    /// Executes a stake by `sender` on the node with key `key`.
    pub fn stake(&mut self, sender: &Address, amount: u128, key: &NodeKey, details: &NodeDetails) -> (r:
        TransactionResponse)
        ensures
            (final(self)@, r) == stake_spec(old(self)@, *sender, amount, *key, *details),
            old(self)@.wf() ==> final(self)@.wf(),
    {
        let held = read_account(&self.accounts, sender).flk_balance;
        if held < amount {
            return TransactionResponse::Revert(ExecutionError::InsufficientBalance);
        }
        match node_index(&self.nodes, key) {
            Some(i) => {
                let mut node = self.nodes[i];
                if !bytes_eq(&node.owner, sender) {
                    return TransactionResponse::Revert(ExecutionError::NotNodeOwner);
                }
                match node.staked.checked_add(amount) {
                    None => TransactionResponse::Revert(ExecutionError::Overflow),
                    Some(staked) => {
                        node.staked = staked;
                        apply_details(&mut node, details);
                        write_balance(&mut self.accounts, sender, Tokens::FLK, held - amount);
                        self.nodes.set(i, node);
                        TransactionResponse::Success(ExecutionData::Nothing)
                    },
                }
            },
            None => {
                match (
                    details.consensus_key,
                    details.node_domain,
                    details.worker_public_key,
                    details.worker_domain,
                    details.ports,
                ) {
                    (
                        Some(consensus_key),
                        Some(domain),
                        Some(worker_public_key),
                        Some(worker_domain),
                        Some(ports),
                    ) => {
                        if self.nodes.len() >= MAX_NODES {
                            return TransactionResponse::Revert(ExecutionError::RegistryFull);
                        }
                        write_balance(&mut self.accounts, sender, Tokens::FLK, held - amount);
                        self.nodes.push(
                            Node {
                                public_key: *key,
                                owner: *sender,
                                consensus_key,
                                worker_public_key,
                                domain,
                                worker_domain,
                                ports,
                                staked: amount,
                                locked: 0,
                                locked_until: 0,
                                stake_locked_until: 0,
                                nonce: 0,
                                participation: Participation::True,
                                reputation: None,
                                revenue: 0,
                            },
                        );
                        TransactionResponse::Success(ExecutionData::Nothing)
                    },
                    _ => TransactionResponse::Revert(ExecutionError::InsufficientNodeDetails),
                }
            },
        }
    }

    /// Executes an unstake by `sender` from the node with key `key`.
    pub fn unstake(&mut self, sender: &Address, amount: u128, key: &NodeKey) -> (r:
        TransactionResponse)
        ensures
            (final(self)@, r) == unstake_spec(old(self)@, *sender, amount, *key),
            old(self)@.wf() ==> final(self)@.wf(),
    {
        match node_index(&self.nodes, key) {
            None => TransactionResponse::Revert(ExecutionError::NodeDoesNotExist),
            Some(i) => {
                let mut node = self.nodes[i];
                if !bytes_eq(&node.owner, sender) {
                    return TransactionResponse::Revert(ExecutionError::NotNodeOwner);
                }
                if node.stake_locked_until > self.metadata.epoch {
                    return TransactionResponse::Revert(
                        ExecutionError::LockedTokensUnstakeForbidden,
                    );
                }
                if node.staked < amount {
                    return TransactionResponse::Revert(ExecutionError::InsufficientBalance);
                }
                let locked = match node.locked.checked_add(amount) {
                    Some(v) => v,
                    None => {
                        return TransactionResponse::Revert(ExecutionError::Overflow);
                    },
                };
                let until: u128 = match (self.metadata.epoch as u128).checked_add(
                    self.params.lock_time,
                ) {
                    Some(v) => v,
                    None => {
                        return TransactionResponse::Revert(ExecutionError::Overflow);
                    },
                };
                if until > u64::MAX as u128 {
                    return TransactionResponse::Revert(ExecutionError::Overflow);
                }
                node.staked = node.staked - amount;
                node.locked = locked;
                node.locked_until = until as u64;
                self.nodes.set(i, node);
                TransactionResponse::Success(ExecutionData::Nothing)
            },
        }
    }

    /// Executes a lock by `sender` of the stake of the node with key `key`.
    pub fn stake_lock(&mut self, sender: &Address, key: &NodeKey, locked_for: u64) -> (r:
        TransactionResponse)
        ensures
            (final(self)@, r) == stake_lock_spec(old(self)@, *sender, *key, locked_for),
            old(self)@.wf() ==> final(self)@.wf(),
    {
        match node_index(&self.nodes, key) {
            None => TransactionResponse::Revert(ExecutionError::NodeDoesNotExist),
            Some(i) => {
                let mut node = self.nodes[i];
                if !bytes_eq(&node.owner, sender) {
                    return TransactionResponse::Revert(ExecutionError::NotNodeOwner);
                }
                if node.staked == 0 {
                    return TransactionResponse::Revert(ExecutionError::InsufficientStakesToLock);
                }
                let epoch: u64 = self.metadata.epoch;
                let remaining: u64 = if node.stake_locked_until > epoch {
                    node.stake_locked_until - epoch
                } else {
                    0
                };
                let lock: u128 = remaining as u128 + locked_for as u128;
                if lock > self.params.max_stake_lock_time {
                    return TransactionResponse::Revert(
                        ExecutionError::LockExceededMaxStakeLockTime,
                    );
                }
                let until: u128 = epoch as u128 + lock;
                if until > u64::MAX as u128 {
                    return TransactionResponse::Revert(ExecutionError::Overflow);
                }
                node.stake_locked_until = until as u64;
                self.nodes.set(i, node);
                TransactionResponse::Success(ExecutionData::Nothing)
            },
        }
    }

    /// Executes a withdrawal by `sender` of the locked tokens of the node with
    /// key `key`.
    pub fn withdraw_unstaked(
        &mut self,
        sender: &Address,
        key: &NodeKey,
        recipient: Option<Address>,
    ) -> (r: TransactionResponse)
        ensures
            (final(self)@, r) == withdraw_unstaked_spec(old(self)@, *sender, *key, recipient),
            old(self)@.wf() ==> final(self)@.wf(),
    {
        match node_index(&self.nodes, key) {
            None => TransactionResponse::Revert(ExecutionError::NodeDoesNotExist),
            Some(i) => {
                let mut node = self.nodes[i];
                if !bytes_eq(&node.owner, sender) {
                    return TransactionResponse::Revert(ExecutionError::NotNodeOwner);
                }
                if node.locked_until > self.metadata.epoch {
                    return TransactionResponse::Revert(ExecutionError::TokensLocked);
                }
                let to: Address = match recipient {
                    Some(r) => r,
                    None => *sender,
                };
                let held = read_account(&self.accounts, &to).flk_balance;
                match held.checked_add(node.locked) {
                    None => TransactionResponse::Revert(ExecutionError::Overflow),
                    Some(sum) => {
                        write_balance(&mut self.accounts, &to, Tokens::FLK, sum);
                        node.locked = 0;
                        self.nodes.set(i, node);
                        proof {
                            if old(self)@.wf() {
                                assert forall|k: int| 0 <= k < self@.members.len() implies (
                                #[trigger] self@.members[k]) < self@.nodes.len() by {
                                    assert(old(self)@.members[k] < old(self)@.nodes.len());
                                }
                            }
                        }
                        TransactionResponse::Success(ExecutionData::Nothing)
                    },
                }
            },
        }
    }
}

} // verus!
