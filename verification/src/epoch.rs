//! The rules of the transactions that nodes send, and the change from one
//! epoch to the next.

use crate::committee::{
    check_sufficient_stake, committee_of, has_sufficient_stake, required_signals, seats,
    select_committee,
};
use crate::keys::NodeIndex;
use crate::reputation::{settle, settle_node};
use crate::rewards::{distribute_rewards_spec, lemma_distribute_frame};
use crate::state::{State, StateView};
use crate::transaction::{ExecutionData, ExecutionError, TransactionResponse};
use crate::types::{
    Delivery, Metadata, Node, ParamTable, Participation, Report, ReputationMeasurements,
    ServiceTotals,
};
use vstd::prelude::*;

verus! {

/// The nodes as the end of the epoch leaves them.
pub open spec fn settle_nodes(nodes: Seq<Node>, reports: Seq<Report>) -> Seq<Node> {
    Seq::new(nodes.len(), |i: int| settle_node(nodes[i], reports, i as NodeIndex))
}

/// The totals of `n` services of which nothing was delivered yet.
pub open spec fn no_totals(n: nat) -> Seq<ServiceTotals> {
    Seq::new(n, |i: int| ServiceTotals { commodity: 0, revenue: 0 })
}

/// The length of an epoch in milliseconds, as far as 64 bits hold it.
pub open spec fn epoch_length(params: ParamTable) -> u64 {
    if params.epoch_time > u64::MAX {
        u64::MAX
    } else {
        params.epoch_time as u64
    }
}

/// The time at which an epoch that starts at `now` is due to end, as far as
/// 64 bits hold it.
pub open spec fn epoch_end(now: u64, length: u64) -> u64 {
    if now + length > u64::MAX {
        u64::MAX
    } else {
        (now + length) as u64
    }
}

/// The ledger at the start of the next epoch: rewards are paid, the nodes are
/// settled, what the epoch gathered is cleared, and the valid nodes with the
/// largest stakes form the committee.
pub open spec fn next_epoch_spec(s: StateView, now: u64) -> StateView
    recommends
        s.metadata.epoch < u64::MAX,
{
    let paid = distribute_rewards_spec(s);
    let nodes = settle_nodes(paid.nodes, paid.reports);
    StateView {
        metadata: Metadata {
            epoch: (paid.metadata.epoch + 1) as u64,
            epoch_start_ms: now,
            epoch_length_ms: epoch_length(paid.params),
            ..paid.metadata
        },
        nodes,
        members: committee_of(nodes, paid.params, seats(nodes, paid.params)),
        signalled: Seq::empty(),
        epoch_end_ms: epoch_end(now, epoch_length(paid.params)),
        served: no_totals(paid.services.len()),
        deliveries: Seq::empty(),
        reward_pool: 0,
        reports: Seq::empty(),
        reporters: Seq::empty(),
        ..paid
    }
}

/// ChangeEpoch: a member of the committee signals that it is ready to leave
/// the current epoch. The signal that completes the quorum changes the epoch.
pub open spec fn change_epoch_spec(s: StateView, n: NodeIndex, epoch: u64, now: u64) -> (
    StateView,
    TransactionResponse,
)
    recommends
        n < s.nodes.len(),
{
    let signalled = s.signalled.push(n);
    if !has_sufficient_stake(s.nodes[n as int], s.params) {
        (s, TransactionResponse::Revert(ExecutionError::InsufficientStake))
    } else if !s.members.contains(n) {
        (s, TransactionResponse::Revert(ExecutionError::NotCommitteeMember))
    } else if epoch < s.metadata.epoch {
        (s, TransactionResponse::Revert(ExecutionError::EpochHasNotStarted))
    } else if epoch > s.metadata.epoch {
        (s, TransactionResponse::Revert(ExecutionError::EpochAlreadyStarted))
    } else if s.signalled.contains(n) {
        (s, TransactionResponse::Revert(ExecutionError::AlreadySignaled))
    } else if s.metadata.epoch == u64::MAX {
        (s, TransactionResponse::Revert(ExecutionError::Overflow))
    } else if signalled.len() >= required_signals(s.members.len()) {
        (
            next_epoch_spec(StateView { signalled, ..s }, now),
            TransactionResponse::Success(ExecutionData::EpochChange),
        )
    } else {
        (StateView { signalled, ..s }, TransactionResponse::Success(ExecutionData::Nothing))
    }
}

/// SubmitDeliveryAcknowledgmentAggregation: what a node served of a service
/// is added to the node's revenue, to the totals of the service and to the
/// reward pool, at the price of the service.
pub open spec fn submit_delivery_spec(s: StateView, n: NodeIndex, commodity: u128, service: u32) -> (
    StateView,
    TransactionResponse,
)
    recommends
        n < s.nodes.len(),
        s.wf(),
{
    let node = s.nodes[n as int];
    if !has_sufficient_stake(node, s.params) {
        (s, TransactionResponse::Revert(ExecutionError::InsufficientStake))
    } else if service >= s.services.len() {
        (s, TransactionResponse::Revert(ExecutionError::InvalidServiceId))
    } else {
        let revenue = commodity * s.services[service as int].commodity_price;
        let totals = s.served[service as int];
        if revenue > u128::MAX || node.revenue + revenue > u128::MAX || totals.commodity
            + commodity > u128::MAX || totals.revenue + revenue > u128::MAX || s.reward_pool
            + revenue > u128::MAX {
            (s, TransactionResponse::Revert(ExecutionError::Overflow))
        } else {
            (
                StateView {
                    nodes: s.nodes.update(
                        n as int,
                        Node { revenue: (node.revenue + revenue) as u128, ..node },
                    ),
                    served: s.served.update(
                        service as int,
                        ServiceTotals {
                            commodity: (totals.commodity + commodity) as u128,
                            revenue: (totals.revenue + revenue) as u128,
                        },
                    ),
                    deliveries: s.deliveries.push(Delivery { node: n, service, commodity }),
                    reward_pool: (s.reward_pool + revenue) as u128,
                    ..s
                },
                TransactionResponse::Success(ExecutionData::Nothing),
            )
        }
    }
}

/// Whether the node that entry `i` of a list of measurements is about is
/// named again further down the list.
pub open spec fn named_later(
    measurements: Seq<(NodeIndex, ReputationMeasurements)>,
    i: int,
) -> bool {
    exists|j: int| i < j < measurements.len() && (#[trigger] measurements[j]).0 == measurements[i].0
}

/// The reports that the first `upto` entries of a node's measurements make.
/// The list stands for a map from nodes to measurements: where it names a
/// node more than once, the last entry for the node counts.
pub open spec fn reports_of(
    reporter: NodeIndex,
    measurements: Seq<(NodeIndex, ReputationMeasurements)>,
    upto: int,
) -> Seq<Report>
    decreases upto,
{
    if upto <= 0 {
        Seq::empty()
    } else if named_later(measurements, upto - 1) {
        reports_of(reporter, measurements, upto - 1)
    } else {
        reports_of(reporter, measurements, upto - 1).push(
            Report {
                reporter,
                subject: measurements[upto - 1].0,
                measurements: measurements[upto - 1].1,
            },
        )
    }
}

/// SubmitReputationMeasurements: a node's measurements are added to the
/// reports of the epoch, once in an epoch.
pub open spec fn submit_reputation_spec(
    s: StateView,
    n: NodeIndex,
    measurements: Seq<(NodeIndex, ReputationMeasurements)>,
) -> (StateView, TransactionResponse)
    recommends
        n < s.nodes.len(),
{
    if !has_sufficient_stake(s.nodes[n as int], s.params) {
        (s, TransactionResponse::Revert(ExecutionError::InsufficientStake))
    } else if s.reporters.contains(n) {
        (s, TransactionResponse::Revert(ExecutionError::AlreadySubmittedMeasurements))
    } else {
        (
            StateView {
                reports: s.reports.add(reports_of(n, measurements, measurements.len() as int)),
                reporters: s.reporters.push(n),
                ..s
            },
            TransactionResponse::Success(ExecutionData::Nothing),
        )
    }
}

/// OptIn and OptOut: a node's wish to take part from the next epoch on, or
/// to leave with it, is noted.
pub open spec fn opt_spec(s: StateView, n: NodeIndex, wish: Participation) -> (
    StateView,
    TransactionResponse,
)
    recommends
        n < s.nodes.len(),
{
    (
        StateView {
            nodes: s.nodes.update(n as int, Node { participation: wish, ..s.nodes[n as int] }),
            ..s
        },
        TransactionResponse::Success(ExecutionData::Nothing),
    )
}

/// Tells whether a list of indices holds an index.
pub fn contains_index(list: &Vec<NodeIndex>, n: NodeIndex) -> (found: bool)
    ensures
        found == list@.contains(n),
{
    let mut i: usize = 0;
    while i < list.len()
        invariant
            i <= list.len(),
            forall|k: int| 0 <= k < i ==> list@[k] != n,
        decreases list.len() - i,
    {
        if list[i] == n {
            return true;
        }
        i += 1;
    }
    false
}

impl State {
    /// Moves the ledger to the next epoch.
    pub fn next_epoch(&mut self, now: u64)
        requires
            old(self)@.wf(),
            old(self)@.metadata.epoch < u64::MAX,
        ensures
            final(self)@ == next_epoch_spec(old(self)@, now),
            final(self)@.wf(),
    {
        self.distribute_rewards();
        proof {
            lemma_distribute_frame(old(self)@);
        }
        let ghost paid = self@;
        let mut i: usize = 0;
        while i < self.nodes.len()
            invariant
                i <= self.nodes.len(),
                self.nodes.len() == paid.nodes.len(),
                paid.nodes.len() <= 0xffff_ffff,
                self@ == (StateView { nodes: self.nodes@, ..paid }),
                forall|k: int|
                    0 <= k < i ==> self.nodes@[k] == settle_node(
                        paid.nodes[k],
                        paid.reports,
                        k as NodeIndex,
                    ),
                forall|k: int| i <= k < self.nodes.len() ==> self.nodes@[k] == paid.nodes[k],
            decreases self.nodes.len() - i,
        {
            let settled = settle(&self.nodes[i], &self.reports, i as NodeIndex);
            self.nodes.set(i, settled);
            i += 1;
        }
        assert(self.nodes@ =~= settle_nodes(paid.nodes, paid.reports));
        let length: u64 = if self.params.epoch_time > u64::MAX as u128 {
            u64::MAX
        } else {
            self.params.epoch_time as u64
        };
        let size: usize = if self.params.committee_size > self.nodes.len() as u128 {
            self.nodes.len()
        } else {
            self.params.committee_size as usize
        };
        self.members = select_committee(&self.nodes, &self.params, size);
        self.metadata.epoch = self.metadata.epoch + 1;
        self.metadata.epoch_start_ms = now;
        self.metadata.epoch_length_ms = length;
        self.epoch_end_ms = match now.checked_add(length) {
            Some(end) => end,
            None => u64::MAX,
        };
        self.signalled = Vec::new();
        self.deliveries = Vec::new();
        self.reports = Vec::new();
        self.reporters = Vec::new();
        self.reward_pool = 0;
        let mut served: Vec<ServiceTotals> = Vec::new();
        let mut k: usize = 0;
        while k < self.services.len()
            invariant
                k <= self.services.len(),
                served@ == no_totals(k as nat),
            decreases self.services.len() - k,
        {
            served.push(ServiceTotals { commodity: 0, revenue: 0 });
            assert(served@ =~= no_totals((k + 1) as nat));
            k += 1;
        }
        self.served = served;
        assert(self@.signalled =~= Seq::<NodeIndex>::empty());
    }

    /// Executes the signal of node `n` that it is ready to leave `epoch`.
    pub fn change_epoch(&mut self, n: NodeIndex, epoch: u64, now: u64) -> (r: TransactionResponse)
        requires
            old(self)@.wf(),
            n < old(self).nodes.len(),
        ensures
            (final(self)@, r) == change_epoch_spec(old(self)@, n, epoch, now),
            final(self)@.wf(),
    {
        if !check_sufficient_stake(&self.nodes[n as usize], &self.params) {
            return TransactionResponse::Revert(ExecutionError::InsufficientStake);
        }
        if !contains_index(&self.members, n) {
            return TransactionResponse::Revert(ExecutionError::NotCommitteeMember);
        }
        if epoch < self.metadata.epoch {
            return TransactionResponse::Revert(ExecutionError::EpochHasNotStarted);
        }
        if epoch > self.metadata.epoch {
            return TransactionResponse::Revert(ExecutionError::EpochAlreadyStarted);
        }
        if contains_index(&self.signalled, n) {
            return TransactionResponse::Revert(ExecutionError::AlreadySignaled);
        }
        if self.metadata.epoch == u64::MAX {
            return TransactionResponse::Revert(ExecutionError::Overflow);
        }
        self.signalled.push(n);
        let needed = crate::committee::calculate_required_signals(self.members.len());
        if self.signalled.len() >= needed {
            self.next_epoch(now);
            TransactionResponse::Success(ExecutionData::EpochChange)
        } else {
            TransactionResponse::Success(ExecutionData::Nothing)
        }
    }

    /// Executes the report of node `n` of what it served of a service.
    pub fn submit_delivery(&mut self, n: NodeIndex, commodity: u128, service: u32) -> (r:
        TransactionResponse)
        requires
            old(self)@.wf(),
            n < old(self).nodes.len(),
        ensures
            (final(self)@, r) == submit_delivery_spec(old(self)@, n, commodity, service),
            final(self)@.wf(),
    {
        let mut node = self.nodes[n as usize];
        if !check_sufficient_stake(&node, &self.params) {
            return TransactionResponse::Revert(ExecutionError::InsufficientStake);
        }
        if service as usize >= self.services.len() {
            return TransactionResponse::Revert(ExecutionError::InvalidServiceId);
        }
        let price: u128 = self.services[service as usize].commodity_price;
        let totals = self.served[service as usize];
        let revenue = match commodity.checked_mul(price) {
            Some(v) => v,
            None => {
                return TransactionResponse::Revert(ExecutionError::Overflow);
            },
        };
        let node_revenue = node.revenue.checked_add(revenue);
        let total_commodity = totals.commodity.checked_add(commodity);
        let total_revenue = totals.revenue.checked_add(revenue);
        let pool = self.reward_pool.checked_add(revenue);
        match (node_revenue, total_commodity, total_revenue, pool) {
            (Some(nr), Some(tc), Some(tr), Some(p)) => {
                node.revenue = nr;
                self.nodes.set(n as usize, node);
                self.served.set(service as usize, ServiceTotals { commodity: tc, revenue: tr });
                self.deliveries.push(Delivery { node: n, service, commodity });
                self.reward_pool = p;
                proof {
                    assert forall|k: int| 0 <= k < self@.members.len() implies (
                    #[trigger] self@.members[k]) < self@.nodes.len() by {
                        assert(old(self)@.members[k] < old(self)@.nodes.len());
                    }
                }
                TransactionResponse::Success(ExecutionData::Nothing)
            },
            _ => TransactionResponse::Revert(ExecutionError::Overflow),
        }
    }

    /// Executes the hand-in of the measurements of node `n`.
    pub fn submit_reputation(
        &mut self,
        n: NodeIndex,
        measurements: &Vec<(NodeIndex, ReputationMeasurements)>,
    ) -> (r: TransactionResponse)
        requires
            old(self)@.wf(),
            n < old(self).nodes.len(),
        ensures
            (final(self)@, r) == submit_reputation_spec(old(self)@, n, measurements@),
            final(self)@.wf(),
    {
        if !check_sufficient_stake(&self.nodes[n as usize], &self.params) {
            return TransactionResponse::Revert(ExecutionError::InsufficientStake);
        }
        if contains_index(&self.reporters, n) {
            return TransactionResponse::Revert(ExecutionError::AlreadySubmittedMeasurements);
        }
        let mut i: usize = 0;
        assert(self.reports@ =~= old(self).reports@.add(reports_of(n, measurements@, 0)));
        while i < measurements.len()
            invariant
                i <= measurements.len(),
                self@ == (StateView { reports: self.reports@, ..old(self)@ }),
                self.reports@ == old(self).reports@.add(reports_of(n, measurements@, i as int)),
            decreases measurements.len() - i,
        {
            let (subject, m) = measurements[i];
            let mut later: bool = false;
            let mut j: usize = i + 1;
            while j < measurements.len()
                invariant
                    i < j <= measurements.len(),
                    subject == measurements@[i as int].0,
                    later <==> exists|k: int|
                        i < k < j && (#[trigger] measurements@[k]).0 == subject,
                decreases measurements.len() - j,
            {
                if measurements[j].0 == subject {
                    later = true;
                }
                j += 1;
            }
            if !later {
                self.reports.push(Report { reporter: n, subject, measurements: m });
                assert(self.reports@ =~= old(self).reports@.add(
                    reports_of(n, measurements@, i + 1),
                ));
            }
            i += 1;
        }
        self.reporters.push(n);
        TransactionResponse::Success(ExecutionData::Nothing)
    }

    /// Notes the wish of node `n` to take part or to leave.
    pub fn opt(&mut self, n: NodeIndex, wish: Participation) -> (r: TransactionResponse)
        requires
            old(self)@.wf(),
            n < old(self).nodes.len(),
        ensures
            (final(self)@, r) == opt_spec(old(self)@, n, wish),
            final(self)@.wf(),
    {
        let mut node = self.nodes[n as usize];
        node.participation = wish;
        self.nodes.set(n as usize, node);
        proof {
            assert forall|k: int| 0 <= k < self@.members.len() implies (
            #[trigger] self@.members[k]) < self@.nodes.len() by {
                assert(old(self)@.members[k] < old(self)@.nodes.len());
            }
        }
        TransactionResponse::Success(ExecutionData::Nothing)
    }
}

} // verus!
