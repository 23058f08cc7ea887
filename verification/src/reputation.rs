//! Reputation: what the reports of an epoch say about a node, taken together.
//!
//! Each metric is aggregated by its median over the reports about the node.
//! The medians are turned into marks between 0 and 100 and these are averaged
//! with the weights below.

use crate::keys::NodeIndex;
use crate::types::{Node, Participation, Report, ReputationMeasurements};
use vstd::prelude::*;
use vstd::relations::{sorted_by, total_ordering};
use vstd::seq_lib::{lemma_sorted_unique, to_multiset_build, to_multiset_insert};

verus! {

/// Reports about a node below which the epoch says nothing about it.
pub const MINIMUM_REPORTS: usize = 2;

/// Median uptime below which a node is taken out of the network.
pub const MINIMUM_UPTIME: u128 = 10;

/// Median uptime above which a node is let into the network.
pub const RETURN_UPTIME: u128 = 20;

/// The metrics that nodes measure of each other.
#[derive(Clone, Copy, Debug, PartialEq, Eq)]
pub enum Metric {
    Latency,
    Interactions,
    InboundBandwidth,
    OutboundBandwidth,
    BytesReceived,
    BytesSent,
    Uptime,
    Hops,
}

/// The order by which measurements are sorted.
pub open spec fn leq() -> spec_fn(u128, u128) -> bool {
    |a: u128, b: u128| a <= b
}

/// What a report says of one metric, as a number that is not negative.
pub open spec fn metric_value(m: ReputationMeasurements, metric: Metric) -> Option<u128> {
    match metric {
        Metric::Latency => match m.latency {
            Some(v) => Some(v as u128),
            None => None,
        },
        Metric::Interactions => match m.interactions {
            Some(v) => Some(if v < 0 { 0u128 } else { v as u128 }),
            None => None,
        },
        Metric::InboundBandwidth => m.inbound_bandwidth,
        Metric::OutboundBandwidth => m.outbound_bandwidth,
        Metric::BytesReceived => m.bytes_received,
        Metric::BytesSent => m.bytes_sent,
        Metric::Uptime => match m.uptime {
            Some(v) => Some(v as u128),
            None => None,
        },
        Metric::Hops => match m.hops {
            Some(v) => Some(v as u128),
            None => None,
        },
    }
}

/// The values that the reports about `subject` give for a metric, in the
/// order of the reports.
pub open spec fn metric_values(reports: Seq<Report>, subject: NodeIndex, metric: Metric) -> Seq<
    u128,
>
    decreases reports.len(),
{
    if reports.len() == 0 {
        Seq::empty()
    } else {
        let before = metric_values(reports.drop_last(), subject, metric);
        let last = reports.last();
        match metric_value(last.measurements, metric) {
            Some(v) => if last.subject == subject {
                before.push(v)
            } else {
                before
            },
            None => before,
        }
    }
}

/// The number of reports about `subject`.
pub open spec fn report_count(reports: Seq<Report>, subject: NodeIndex) -> nat
    decreases reports.len(),
{
    if reports.len() == 0 {
        0
    } else {
        report_count(reports.drop_last(), subject) + if reports.last().subject == subject {
            1nat
        } else {
            0nat
        }
    }
}

/// The middle of values in ascending order: the middle value of an odd
/// number of them, and the mean of the two middle values, rounded down, of
/// an even number.
pub open spec fn middle(sorted: Seq<u128>) -> u128
    recommends
        sorted.len() > 0,
{
    let half = sorted.len() / 2;
    if sorted.len() % 2 == 1 {
        sorted[half as int]
    } else {
        (sorted[half - 1] + (sorted[half as int] - sorted[half - 1]) / 2) as u128
    }
}

/// The median of the values; none of no values.
pub open spec fn median_spec(values: Seq<u128>) -> Option<u128> {
    if values.len() == 0 {
        None
    } else {
        Some(middle(values.sort_by(leq())))
    }
}

/// The weight of a metric in the score. The weights add up to 100.
pub open spec fn weight(metric: Metric) -> u128 {
    match metric {
        Metric::Latency => 20,
        Metric::Interactions => 10,
        Metric::InboundBandwidth => 10,
        Metric::OutboundBandwidth => 10,
        Metric::BytesReceived => 5,
        Metric::BytesSent => 5,
        Metric::Uptime => 30,
        Metric::Hops => 10,
    }
}

/// The smaller of a value and 100.
pub open spec fn at_most_100(v: u128) -> u128 {
    if v > 100 {
        100
    } else {
        v
    }
}

/// The mark between 0 and 100 that a median earns. Latency loses a mark for
/// every ten milliseconds and hops lose ten marks each; bandwidth earns a
/// mark for every million bytes a second, traffic for every thousand million
/// bytes, uptime and interactions count as they are.
pub open spec fn mark(metric: Metric, median: u128) -> u128 {
    match metric {
        Metric::Latency => (100 - at_most_100(median / 10)) as u128,
        Metric::Interactions => at_most_100(median),
        Metric::InboundBandwidth => at_most_100(median / 1_000_000),
        Metric::OutboundBandwidth => at_most_100(median / 1_000_000),
        Metric::BytesReceived => at_most_100(median / 1_000_000_000),
        Metric::BytesSent => at_most_100(median / 1_000_000_000),
        Metric::Uptime => at_most_100(median),
        Metric::Hops => if median > 10 {
            0
        } else {
            (100 - median * 10) as u128
        },
    }
}

/// The metrics in the order in which the score takes them up.
pub open spec fn all_metrics() -> Seq<Metric> {
    seq![
        Metric::Latency,
        Metric::Interactions,
        Metric::InboundBandwidth,
        Metric::OutboundBandwidth,
        Metric::BytesReceived,
        Metric::BytesSent,
        Metric::Uptime,
        Metric::Hops,
    ]
}

/// The weighted marks and the weights of the first `upto` metrics for which
/// the reports about `subject` have a median.
pub open spec fn weighted_marks(reports: Seq<Report>, subject: NodeIndex, upto: nat) -> (
    u128,
    u128,
)
    recommends
        upto <= 8,
    decreases upto,
{
    if upto == 0 || upto > 8 {
        (0, 0)
    } else {
        let (marks, weights) = weighted_marks(reports, subject, (upto - 1) as nat);
        let metric = all_metrics()[upto - 1];
        match median_spec(metric_values(reports, subject, metric)) {
            Some(m) => (
                (marks + weight(metric) * mark(metric, m)) as u128,
                (weights + weight(metric)) as u128,
            ),
            None => (marks, weights),
        }
    }
}

/// The score between 0 and 100 that the reports give `subject`: the mean of
/// the marks of the metrics that were measured, by their weights. None where
/// nothing was measured.
pub open spec fn score_spec(reports: Seq<Report>, subject: NodeIndex) -> Option<u8> {
    let (marks, weights) = weighted_marks(reports, subject, 8);
    if weights == 0 {
        None
    } else {
        Some((marks / weights) as u8)
    }
}

/// Whether a node takes part in the next epoch: a node that asked to join or
/// to leave has its wish; another one leaves where the median of its uptime
/// is below the minimum, comes back where it is above the mark for coming
/// back, and stays as it is otherwise.
pub open spec fn next_participation(current: Participation, uptime: Option<u128>) -> Participation {
    match current {
        Participation::OptedIn => Participation::True,
        Participation::OptedOut => Participation::False,
        _ => match uptime {
            Some(u) => if u < MINIMUM_UPTIME {
                Participation::False
            } else if u > RETURN_UPTIME {
                Participation::True
            } else {
                current
            },
            None => current,
        },
    }
}

/// A node as the end of the epoch leaves it: with the score and the
/// participation that the reports about it give, and nothing earned yet. A
/// node with too few reports keeps its score, and only its own wish changes
/// its participation.
pub open spec fn settle_node(node: Node, reports: Seq<Report>, index: NodeIndex) -> Node {
    if report_count(reports, index) < MINIMUM_REPORTS {
        Node {
            participation: next_participation(node.participation, None),
            revenue: 0,
            ..node
        }
    } else {
        Node {
            reputation: match score_spec(reports, index) {
                Some(v) => Some(v),
                None => node.reputation,
            },
            participation: next_participation(
                node.participation,
                median_spec(metric_values(reports, index, Metric::Uptime)),
            ),
            revenue: 0,
            ..node
        }
    }
}

/// The order of the numbers is total.
pub proof fn lemma_leq_total()
    ensures
        total_ordering(leq()),
{
}

/// Every mark lies between 0 and 100.
pub proof fn lemma_mark_bound(metric: Metric, median: u128)
    ensures
        mark(metric, median) <= 100,
{
}

/// The weighted marks never exceed a hundred times the weights, and the
/// weights never exceed 100.
pub proof fn lemma_weighted_marks_bound(reports: Seq<Report>, subject: NodeIndex, upto: nat)
    requires
        upto <= 8,
    ensures
        weighted_marks(reports, subject, upto).0 <= 100 * weighted_marks(
            reports,
            subject,
            upto,
        ).1,
        weighted_marks(reports, subject, upto).1 <= 100,
        upto == 0 ==> weighted_marks(reports, subject, upto).1 == 0,
        upto == 1 ==> weighted_marks(reports, subject, upto).1 <= 20,
        upto == 2 ==> weighted_marks(reports, subject, upto).1 <= 30,
        upto == 3 ==> weighted_marks(reports, subject, upto).1 <= 40,
        upto == 4 ==> weighted_marks(reports, subject, upto).1 <= 50,
        upto == 5 ==> weighted_marks(reports, subject, upto).1 <= 55,
        upto == 6 ==> weighted_marks(reports, subject, upto).1 <= 60,
        upto == 7 ==> weighted_marks(reports, subject, upto).1 <= 90,
    decreases upto,
{
    if upto > 0 {
        lemma_weighted_marks_bound(reports, subject, (upto - 1) as nat);
        let metric = all_metrics()[upto - 1];
        match median_spec(metric_values(reports, subject, metric)) {
            Some(m) => {
                lemma_mark_bound(metric, m);
                assert(weight(metric) * mark(metric, m) <= weight(metric) * 100)
                    by (nonlinear_arith)
                    requires
                        mark(metric, m) <= 100,
                        weight(metric) >= 0,
                ;
            },
            None => {},
        }
    }
}

/// Reads what a report says of one metric.
pub fn read_metric(m: &ReputationMeasurements, metric: Metric) -> (value: Option<u128>)
    ensures
        value == metric_value(*m, metric),
{
    match metric {
        Metric::Latency => match m.latency {
            Some(v) => Some(v as u128),
            None => None,
        },
        Metric::Interactions => match m.interactions {
            Some(v) => Some(if v < 0 { 0u128 } else { v as u128 }),
            None => None,
        },
        Metric::InboundBandwidth => m.inbound_bandwidth,
        Metric::OutboundBandwidth => m.outbound_bandwidth,
        Metric::BytesReceived => m.bytes_received,
        Metric::BytesSent => m.bytes_sent,
        Metric::Uptime => match m.uptime {
            Some(v) => Some(v as u128),
            None => None,
        },
        Metric::Hops => match m.hops {
            Some(v) => Some(v as u128),
            None => None,
        },
    }
}

/// Gathers the values that the reports about `subject` give for a metric.
pub fn collect_metric(reports: &Vec<Report>, subject: NodeIndex, metric: Metric) -> (values: Vec<
    u128,
>)
    ensures
        values@ == metric_values(reports@, subject, metric),
{
    let mut values: Vec<u128> = Vec::new();
    let mut i: usize = 0;
    assert(reports@.take(0) =~= Seq::<Report>::empty());
    while i < reports.len()
        invariant
            i <= reports.len(),
            values@ == metric_values(reports@.take(i as int), subject, metric),
        decreases reports.len() - i,
    {
        let report = &reports[i];
        assert(reports@.take(i + 1).drop_last() =~= reports@.take(i as int));
        if report.subject == subject {
            if let Some(v) = read_metric(&report.measurements, metric) {
                values.push(v);
            }
        }
        i += 1;
    }
    assert(reports@.take(i as int) =~= reports@);
    values
}

/// Counts the reports about `subject`.
pub fn count_reports(reports: &Vec<Report>, subject: NodeIndex) -> (count: usize)
    ensures
        count == report_count(reports@, subject),
{
    let mut count: usize = 0;
    let mut i: usize = 0;
    assert(reports@.take(0) =~= Seq::<Report>::empty());
    while i < reports.len()
        invariant
            i <= reports.len(),
            count <= i,
            count == report_count(reports@.take(i as int), subject),
        decreases reports.len() - i,
    {
        assert(reports@.take(i + 1).drop_last() =~= reports@.take(i as int));
        if reports[i].subject == subject {
            count += 1;
        }
        i += 1;
    }
    assert(reports@.take(i as int) =~= reports@);
    count
}

/// Sorts values in ascending order.
pub fn sort_values(values: &Vec<u128>) -> (sorted: Vec<u128>)
    ensures
        sorted@ == values@.sort_by(leq()),
        sorted@.len() == values@.len(),
{
    let mut sorted: Vec<u128> = Vec::new();
    let mut k: usize = 0;
    assert(values@.take(0) =~= Seq::<u128>::empty());
    while k < values.len()
        invariant
            k <= values.len(),
            sorted@.len() == k,
            sorted_by(sorted@, leq()),
            sorted@.to_multiset() == values@.take(k as int).to_multiset(),
        decreases values.len() - k,
    {
        let x: u128 = values[k];
        let mut pos: usize = 0;
        while pos < sorted.len() && sorted[pos] <= x
            invariant
                pos <= sorted.len(),
                forall|j: int| 0 <= j < pos ==> sorted@[j] <= x,
            decreases sorted.len() - pos,
        {
            pos += 1;
        }
        let ghost before = sorted@;
        sorted.insert(pos, x);
        proof {
            to_multiset_insert(before, pos as int, x);
            to_multiset_build(values@.take(k as int), x);
            assert(values@.take(k + 1) =~= values@.take(k as int).push(x));
            assert forall|i: int, j: int| 0 <= i < j < sorted@.len() implies #[trigger] leq()(
                sorted@[i],
                sorted@[j],
            ) by {
                let a = if i < pos { i } else { i - 1 };
                let b = if j < pos { j } else { j - 1 };
                if i != pos && j != pos {
                    assert(leq()(before[a], before[b]));
                } else if i == pos {
                    assert(leq()(before[pos as int], before[b]));
                }
            }
        }
        k += 1;
    }
    proof {
        assert(values@.take(k as int) =~= values@);
        lemma_leq_total();
        values@.lemma_sort_by_ensures(leq());
        lemma_sorted_unique(sorted@, values@.sort_by(leq()), leq());
    }
    sorted
}

/// Computes the median of the values.
pub fn median(values: &Vec<u128>) -> (m: Option<u128>)
    ensures
        m == median_spec(values@),
{
    if values.len() == 0 {
        return None;
    }
    let sorted = sort_values(values);
    let half: usize = sorted.len() / 2;
    if sorted.len() % 2 == 1 {
        Some(sorted[half])
    } else {
        let low: u128 = sorted[half - 1];
        let high: u128 = sorted[half];
        proof {
            lemma_leq_total();
            values@.lemma_sort_by_ensures(leq());
            assert(leq()(sorted@[half - 1], sorted@[half as int]));
        }
        Some(low + (high - low) / 2)
    }
}

/// The weight of a metric in the score.
pub fn metric_weight(metric: Metric) -> (w: u128)
    ensures
        w == weight(metric),
{
    match metric {
        Metric::Latency => 20,
        Metric::Interactions => 10,
        Metric::InboundBandwidth => 10,
        Metric::OutboundBandwidth => 10,
        Metric::BytesReceived => 5,
        Metric::BytesSent => 5,
        Metric::Uptime => 30,
        Metric::Hops => 10,
    }
}

fn cap_100(v: u128) -> (r: u128)
    ensures
        r == at_most_100(v),
{
    if v > 100 {
        100
    } else {
        v
    }
}

/// Computes the mark that a median earns.
pub fn metric_mark(metric: Metric, median: u128) -> (r: u128)
    ensures
        r == mark(metric, median),
{
    match metric {
        Metric::Latency => 100 - cap_100(median / 10),
        Metric::Interactions => cap_100(median),
        Metric::InboundBandwidth => cap_100(median / 1_000_000),
        Metric::OutboundBandwidth => cap_100(median / 1_000_000),
        Metric::BytesReceived => cap_100(median / 1_000_000_000),
        Metric::BytesSent => cap_100(median / 1_000_000_000),
        Metric::Uptime => cap_100(median),
        Metric::Hops => {
            if median > 10 {
                0
            } else {
                100 - median * 10
            }
        },
    }
}

fn metric_at(k: usize) -> (metric: Metric)
    requires
        k < 8,
    ensures
        metric == all_metrics()[k as int],
{
    if k == 0 {
        Metric::Latency
    } else if k == 1 {
        Metric::Interactions
    } else if k == 2 {
        Metric::InboundBandwidth
    } else if k == 3 {
        Metric::OutboundBandwidth
    } else if k == 4 {
        Metric::BytesReceived
    } else if k == 5 {
        Metric::BytesSent
    } else if k == 6 {
        Metric::Uptime
    } else {
        Metric::Hops
    }
}

/// Computes the score that the reports give `subject`.
pub fn score(reports: &Vec<Report>, subject: NodeIndex) -> (r: Option<u8>)
    ensures
        r == score_spec(reports@, subject),
{
    let mut marks: u128 = 0;
    let mut weights: u128 = 0;
    let mut k: usize = 0;
    while k < 8
        invariant
            k <= 8,
            (marks, weights) == weighted_marks(reports@, subject, k as nat),
        decreases 8 - k,
    {
        let metric = metric_at(k);
        let values = collect_metric(reports, subject, metric);
        proof {
            lemma_weighted_marks_bound(reports@, subject, k as nat);
            lemma_weighted_marks_bound(reports@, subject, (k + 1) as nat);
        }
        if let Some(m) = median(&values) {
            proof {
                lemma_mark_bound(metric, m);
                assert(weight(metric) * mark(metric, m) <= 30 * 100) by (nonlinear_arith)
                    requires
                        mark(metric, m) <= 100,
                        0 <= weight(metric) <= 30,
                ;
            }
            marks = marks + metric_weight(metric) * metric_mark(metric, m);
            weights = weights + metric_weight(metric);
        }
        k += 1;
    }
    if weights == 0 {
        None
    } else {
        proof {
            lemma_weighted_marks_bound(reports@, subject, 8);
            assert(marks / weights <= 100) by (nonlinear_arith)
                requires
                    marks <= 100 * weights,
                    weights > 0,
            ;
        }
        Some((marks / weights) as u8)
    }
}

/// Decides whether a node takes part in the next epoch.
pub fn decide_participation(current: Participation, uptime: Option<u128>) -> (next: Participation)
    ensures
        next == next_participation(current, uptime),
{
    match current {
        Participation::OptedIn => Participation::True,
        Participation::OptedOut => Participation::False,
        _ => match uptime {
            Some(u) => if u < MINIMUM_UPTIME {
                Participation::False
            } else if u > RETURN_UPTIME {
                Participation::True
            } else {
                current
            },
            None => current,
        },
    }
}

/// Settles a node at the end of an epoch.
pub fn settle(node: &Node, reports: &Vec<Report>, index: NodeIndex) -> (settled: Node)
    ensures
        settled == settle_node(*node, reports@, index),
{
    let mut settled = *node;
    settled.revenue = 0;
    if count_reports(reports, index) < MINIMUM_REPORTS {
        settled.participation = decide_participation(node.participation, None);
    } else {
        if let Some(v) = score(reports, index) {
            settled.reputation = Some(v);
        }
        let uptimes = collect_metric(reports, index, Metric::Uptime);
        settled.participation = decide_participation(node.participation, median(&uptimes));
    }
    settled
}

} // verus!
