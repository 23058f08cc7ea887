//! Read-only questions to the ledger.

use crate::committee::{check_valid_node, is_valid_node};
use crate::hashing::{digest_eq, Digest};
use crate::keys::{Address, NodeIndex, NodeKey};
use crate::state::{find_node, node_index, State, StateView};
use crate::sums::copy_vec;
use crate::tokens::{account_or_fresh, read_account};
use crate::types::{
    Delivery, Node, ParamTable, ProtocolParams, Report, ReputationMeasurements, Service,
};
use vstd::prelude::*;

verus! {

/// Which part of the node registry is asked for.
#[derive(Clone, Copy, Debug, PartialEq, Eq)]
pub struct PagingParams {
    /// Whether nodes that are not valid are listed too.
    pub ignore_stake: bool,
    /// Index of the first node that is looked at.
    pub start: NodeIndex,
    /// Largest number of nodes that are listed.
    pub limit: usize,
}

/// The current epoch, its committee and its end.
#[derive(Clone, Debug, PartialEq, Eq)]
pub struct EpochInfo {
    pub committee: Vec<NodeIndex>,
    pub epoch: u64,
    pub epoch_end: u64,
}

/// What one node reported about another.
#[derive(Clone, Copy, Debug, PartialEq, Eq)]
pub struct ReportedReputationMeasurements {
    pub reporting_node: NodeIndex,
    pub measurements: ReputationMeasurements,
}

/// What was served in an epoch, service by service, and what it earned.
#[derive(Clone, Debug, PartialEq, Eq)]
pub struct TotalServed {
    pub served: Vec<u128>,
    pub reward_pool: u128,
}

/// What a node served in the current epoch, service by service, and what it
/// earned.
#[derive(Clone, Debug, PartialEq, Eq)]
pub struct NodeServed {
    pub served: Vec<u128>,
    pub stables_revenue: u128,
}

/// Whether a node is listed: all are where the stake is ignored, the valid
/// ones otherwise.
pub open spec fn listed(node: Node, params: ParamTable, ignore_stake: bool) -> bool {
    ignore_stake || is_valid_node(node, params)
}

/// The first `limit` listed nodes from index `from` on, in the order of
/// their indices.
pub open spec fn registry_page(
    nodes: Seq<Node>,
    params: ParamTable,
    ignore_stake: bool,
    from: int,
    limit: nat,
) -> Seq<Node>
    decreases nodes.len() - from,
{
    if from < 0 || from >= nodes.len() || limit == 0 {
        Seq::empty()
    } else if listed(nodes[from], params, ignore_stake) {
        seq![nodes[from]].add(
            registry_page(nodes, params, ignore_stake, from + 1, (limit - 1) as nat),
        )
    } else {
        registry_page(nodes, params, ignore_stake, from + 1, limit)
    }
}

/// The node registry as a request sees it: the page that it asks for, or all
/// valid nodes where it asks for no page.
pub open spec fn registry_spec(s: StateView, paging: Option<PagingParams>) -> Seq<Node> {
    match paging {
        Some(p) => registry_page(s.nodes, s.params, p.ignore_stake, p.start as int, p.limit as nat),
        None => registry_page(s.nodes, s.params, false, 0, s.nodes.len()),
    }
}

/// The reports about `subject`, in the order in which they came in.
pub open spec fn measurements_about(reports: Seq<Report>, subject: NodeIndex) -> Seq<
    ReportedReputationMeasurements,
>
    decreases reports.len(),
{
    if reports.len() == 0 {
        Seq::empty()
    } else {
        let before = measurements_about(reports.drop_last(), subject);
        let last = reports.last();
        if last.subject == subject {
            before.push(
                ReportedReputationMeasurements {
                    reporting_node: last.reporter,
                    measurements: last.measurements,
                },
            )
        } else {
            before
        }
    }
}

/// What `node` delivered of `service` in this epoch; the largest number
/// where the sum exceeds it.
pub open spec fn delivered(deliveries: Seq<Delivery>, node: NodeIndex, service: u32) -> u128
    decreases deliveries.len(),
{
    if deliveries.len() == 0 {
        0
    } else {
        let before = delivered(deliveries.drop_last(), node, service);
        let last = deliveries.last();
        if last.node == node && last.service == service {
            if before + last.commodity > u128::MAX {
                u128::MAX
            } else {
                (before + last.commodity) as u128
            }
        } else {
            before
        }
    }
}

impl State {
    /// The number of the current epoch.
    pub fn get_current_epoch(&self) -> (epoch: u64)
        ensures
            epoch == self@.metadata.epoch,
    {
        self.metadata.epoch
    }

    /// The digest of the last block that was executed.
    pub fn get_last_block(&self) -> (digest: Digest)
        ensures
            digest == self@.metadata.last_block_digest,
    {
        self.metadata.last_block_digest
    }

    /// The current epoch with its committee and its end.
    pub fn get_epoch_info(&self) -> (info: EpochInfo)
        ensures
            info.epoch == self@.metadata.epoch,
            info.epoch_end == self@.epoch_end_ms,
            info.committee@ == self@.members,
    {
        EpochInfo {
            committee: copy_vec(&self.members),
            epoch: self.metadata.epoch,
            epoch_end: self.epoch_end_ms,
        }
    }

    /// The FLK that an account holds; nothing where there is no such account.
    pub fn get_flk_balance(&self, account: &Address) -> (held: u128)
        ensures
            held == account_or_fresh(self@.accounts, *account).flk_balance,
    {
        read_account(&self.accounts, account).flk_balance
    }

    /// The stable currency that an account holds.
    pub fn get_stables_balance(&self, account: &Address) -> (held: u128)
        ensures
            held == account_or_fresh(self@.accounts, *account).stables_balance,
    {
        read_account(&self.accounts, account).stables_balance
    }

    /// The number of executed transactions of an account.
    pub fn get_account_nonce(&self, account: &Address) -> (nonce: u64)
        ensures
            nonce == account_or_fresh(self@.accounts, *account).nonce,
    {
        read_account(&self.accounts, account).nonce
    }

    /// The row of a node; none where the key is not registered.
    pub fn get_node_info(&self, key: &NodeKey) -> (node: Option<Node>)
        ensures
            node == (match find_node(self@.nodes, *key) {
                Some(i) => Some(self@.nodes[i]),
                None => None,
            }),
    {
        match node_index(&self.nodes, key) {
            Some(i) => Some(self.nodes[i]),
            None => None,
        }
    }

    /// The stake of a node; nothing where the key is not registered.
    pub fn get_staked(&self, key: &NodeKey) -> (staked: u128)
        ensures
            staked == (match find_node(self@.nodes, *key) {
                Some(i) => self@.nodes[i].staked,
                None => 0,
            }),
    {
        match node_index(&self.nodes, key) {
            Some(i) => self.nodes[i].staked,
            None => 0,
        }
    }

    /// The locked tokens of a node.
    pub fn get_locked(&self, key: &NodeKey) -> (locked: u128)
        ensures
            locked == (match find_node(self@.nodes, *key) {
                Some(i) => self@.nodes[i].locked,
                None => 0,
            }),
    {
        match node_index(&self.nodes, key) {
            Some(i) => self.nodes[i].locked,
            None => 0,
        }
    }

    /// The epoch from which on the locked tokens of a node can be withdrawn.
    pub fn get_locked_time(&self, key: &NodeKey) -> (epoch: u64)
        ensures
            epoch == (match find_node(self@.nodes, *key) {
                Some(i) => self@.nodes[i].locked_until,
                None => 0,
            }),
    {
        match node_index(&self.nodes, key) {
            Some(i) => self.nodes[i].locked_until,
            None => 0,
        }
    }

    /// The epoch up to which the stake of a node is locked.
    pub fn get_stake_locked_until(&self, key: &NodeKey) -> (epoch: u64)
        ensures
            epoch == (match find_node(self@.nodes, *key) {
                Some(i) => self@.nodes[i].stake_locked_until,
                None => 0,
            }),
    {
        match node_index(&self.nodes, key) {
            Some(i) => self.nodes[i].stake_locked_until,
            None => 0,
        }
    }

    /// Whether the key is that of a valid node.
    pub fn is_valid_node(&self, key: &NodeKey) -> (valid: bool)
        ensures
            valid == (match find_node(self@.nodes, *key) {
                Some(i) => is_valid_node(self@.nodes[i], self@.params),
                None => false,
            }),
    {
        match node_index(&self.nodes, key) {
            Some(i) => check_valid_node(&self.nodes[i], &self.params),
            None => false,
        }
    }

    /// The index of the node with this key.
    pub fn pubkey_to_index(&self, key: &NodeKey) -> (index: Option<NodeIndex>)
        requires
            self@.wf(),
        ensures
            index == (match find_node(self@.nodes, *key) {
                Some(i) => Some(i as NodeIndex),
                None => None,
            }),
    {
        match node_index(&self.nodes, key) {
            Some(i) => Some(i as NodeIndex),
            None => None,
        }
    }

    /// The key of the node with this index.
    pub fn index_to_pubkey(&self, index: NodeIndex) -> (key: Option<NodeKey>)
        ensures
            key == (if index < self@.nodes.len() {
                Some(self@.nodes[index as int].public_key)
            } else {
                None
            }),
    {
        if (index as usize) < self.nodes.len() {
            Some(self.nodes[index as usize].public_key)
        } else {
            None
        }
    }

    /// The score of the node with this index.
    pub fn get_reputation(&self, index: NodeIndex) -> (score: Option<u8>)
        ensures
            score == (if index < self@.nodes.len() {
                self@.nodes[index as int].reputation
            } else {
                None
            }),
    {
        if (index as usize) < self.nodes.len() {
            self.nodes[index as usize].reputation
        } else {
            None
        }
    }

    /// What was reported about the node with this index in this epoch.
    pub fn get_rep_measurements(&self, index: NodeIndex) -> (list: Vec<
        ReportedReputationMeasurements,
    >)
        ensures
            list@ == measurements_about(self@.reports, index),
    {
        let mut list: Vec<ReportedReputationMeasurements> = Vec::new();
        let mut i: usize = 0;
        assert(self.reports@.take(0) =~= Seq::<Report>::empty());
        while i < self.reports.len()
            invariant
                i <= self.reports.len(),
                list@ == measurements_about(self.reports@.take(i as int), index),
            decreases self.reports.len() - i,
        {
            let report = self.reports[i];
            assert(self.reports@.take(i + 1).drop_last() =~= self.reports@.take(i as int));
            if report.subject == index {
                list.push(
                    ReportedReputationMeasurements {
                        reporting_node: report.reporter,
                        measurements: report.measurements,
                    },
                );
            }
            i += 1;
        }
        assert(self.reports@.take(i as int) =~= self.reports@);
        list
    }

    /// The value of a protocol parameter.
    pub fn get_protocol_params(&self, param: ProtocolParams) -> (value: u128)
        ensures
            value == self@.params.get_spec(param),
    {
        self.params.get(param)
    }

    /// The smallest stake of a valid node, in whole FLK.
    pub fn get_staking_amount(&self) -> (amount: u128)
        ensures
            amount == self@.params.minimum_node_stake,
    {
        self.params.minimum_node_stake
    }

    /// The address of the protocol fund.
    pub fn get_protocol_fund_address(&self) -> (address: Address)
        ensures
            address == self@.metadata.protocol_fund_address,
    {
        self.metadata.protocol_fund_address
    }

    /// The service with this identifier.
    pub fn get_service_info(&self, id: u32) -> (service: Option<Service>)
        ensures
            service == (if id < self@.services.len() {
                Some(self@.services[id as int])
            } else {
                None
            }),
    {
        if (id as usize) < self.services.len() {
            Some(self.services[id as usize])
        } else {
            None
        }
    }

    /// What was served in the current epoch, service by service, and the
    /// revenue that is to be paid out.
    pub fn get_total_served(&self) -> (total: TotalServed)
        ensures
            total.reward_pool == self@.reward_pool,
            total.served@.len() == self@.served.len(),
            forall|k: int|
                0 <= k < total.served@.len() ==> total.served@[k] == self@.served[k].commodity,
    {
        let mut served: Vec<u128> = Vec::new();
        let mut k: usize = 0;
        while k < self.served.len()
            invariant
                k <= self.served.len(),
                served@.len() == k,
                forall|j: int| 0 <= j < k ==> served@[j] == self.served@[j].commodity,
            decreases self.served.len() - k,
        {
            served.push(self.served[k].commodity);
            k += 1;
        }
        TotalServed { served, reward_pool: self.reward_pool }
    }

    /// What a node served in the current epoch, service by service, and what
    /// it earned. None where the key is not registered.
    pub fn get_node_served(&self, key: &NodeKey) -> (served: Option<NodeServed>)
        requires
            self@.wf(),
        ensures
            match (served, find_node(self@.nodes, *key)) {
                (Some(ns), Some(i)) => {
                    &&& ns.stables_revenue == self@.nodes[i].revenue
                    &&& ns.served@.len() == self@.services.len()
                    &&& forall|k: int|
                        0 <= k < ns.served@.len() ==> ns.served@[k] == delivered(
                            self@.deliveries,
                            i as NodeIndex,
                            k as u32,
                        )
                },
                (None, None) => true,
                _ => false,
            },
    {
        let i = match node_index(&self.nodes, key) {
            Some(i) => i,
            None => {
                return None;
            },
        };
        let mut served: Vec<u128> = Vec::new();
        let mut k: usize = 0;
        while k < self.services.len()
            invariant
                k <= self.services.len() <= 0x1_0000_0000,
                i < self.nodes.len() <= 0xffff_ffff,
                served@.len() == k,
                forall|j: int|
                    0 <= j < k ==> served@[j] == delivered(
                        self.deliveries@,
                        i as NodeIndex,
                        j as u32,
                    ),
            decreases self.services.len() - k,
        {
            served.push(self.delivered_by(i as NodeIndex, k as u32));
            k += 1;
        }
        Some(NodeServed { served, stables_revenue: self.nodes[i].revenue })
    }

    /// What a node delivered of a service in this epoch.
    pub fn delivered_by(&self, node: NodeIndex, service: u32) -> (total: u128)
        ensures
            total == delivered(self@.deliveries, node, service),
    {
        let mut total: u128 = 0;
        let mut i: usize = 0;
        assert(self.deliveries@.take(0) =~= Seq::<Delivery>::empty());
        while i < self.deliveries.len()
            invariant
                i <= self.deliveries.len(),
                total == delivered(self.deliveries@.take(i as int), node, service),
            decreases self.deliveries.len() - i,
        {
            let d = self.deliveries[i];
            assert(self.deliveries@.take(i + 1).drop_last() =~= self.deliveries@.take(i as int));
            if d.node == node && d.service == service {
                total = match total.checked_add(d.commodity) {
                    Some(v) => v,
                    None => u128::MAX,
                };
            }
            i += 1;
        }
        assert(self.deliveries@.take(i as int) =~= self.deliveries@);
        total
    }

    /// Whether a transaction with this digest was executed.
    pub fn has_executed_digest(&self, digest: &Digest) -> (executed: bool)
        ensures
            executed == self@.executed.contains(*digest),
    {
        let mut i: usize = 0;
        while i < self.executed.len()
            invariant
                i <= self.executed.len(),
                forall|k: int| 0 <= k < i ==> self.executed@[k] != *digest,
            decreases self.executed.len() - i,
        {
            if digest_eq(&self.executed[i], digest) {
                return true;
            }
            i += 1;
        }
        false
    }

    /// The node registry: the page that is asked for, or all valid nodes.
    pub fn get_node_registry(&self, paging: Option<PagingParams>) -> (list: Vec<Node>)
        ensures
            list@ == registry_spec(self@, paging),
    {
        let (ignore_stake, start, limit): (bool, usize, usize) = match paging {
            Some(p) => (p.ignore_stake, p.start as usize, p.limit),
            None => (false, 0, self.nodes.len()),
        };
        let mut list: Vec<Node> = Vec::new();
        let mut i: usize = start;
        let ghost whole = registry_page(
            self.nodes@,
            self.params,
            ignore_stake,
            start as int,
            limit as nat,
        );
        while i < self.nodes.len() && list.len() < limit
            invariant
                start <= i,
                list@.len() <= limit,
                whole == list@.add(
                    registry_page(
                        self.nodes@,
                        self.params,
                        ignore_stake,
                        i as int,
                        (limit - list@.len()) as nat,
                    ),
                ),
            decreases self.nodes.len() - i,
        {
            let node = self.nodes[i];
            let ghost before = list@;
            let keep = ignore_stake || check_valid_node(&node, &self.params);
            if keep {
                list.push(node);
                assert(list@.add(
                    registry_page(
                        self.nodes@,
                        self.params,
                        ignore_stake,
                        i + 1,
                        (limit - list@.len()) as nat,
                    ),
                ) =~= before.add(
                    registry_page(
                        self.nodes@,
                        self.params,
                        ignore_stake,
                        i as int,
                        (limit - before.len()) as nat,
                    ),
                ));
            }
            i += 1;
        }
        assert(list@ =~= whole);
        list
    }
}

/// A reader of the ledger. It holds a copy of the ledger as it stood when the
/// reader was made, so that it sees the state before or after a block and
/// never one in between.
#[derive(Debug)]
pub struct QueryRunner {
    pub state: State,
}

impl QueryRunner {
    /// Makes a reader of the ledger as it stands.
    pub fn new(state: &State) -> (reader: QueryRunner)
        ensures
            reader.state@ == state@,
    {
        QueryRunner { state: state.snapshot() }
    }
}

} // verus!
