//! The committee: who may sit on it, how many signals end an epoch, and how
//! the next one is chosen.

use crate::fixed::FLK_UNIT;
use crate::keys::NodeIndex;
use crate::types::{Node, ParamTable, Participation};
use vstd::prelude::*;

verus! {

/// The signals that end an epoch in a committee of `committee_size` members:
/// one more than two thirds of it, rounded down.
pub open spec fn required_signals(committee_size: nat) -> nat {
    2 * committee_size / 3 + 1
}

/// The attestations that let an edge node execute a parcel: `2f + 1`, where
/// `f` is a third of the committee without one member, rounded down.
pub open spec fn attestation_quorum(committee_size: nat) -> nat {
    if committee_size == 0 {
        1
    } else {
        (2 * ((committee_size - 1) / 3) + 1) as nat
    }
}

/// Computes the number of signals that end an epoch.
pub fn calculate_required_signals(committee_size: usize) -> (signals: usize)
    ensures
        signals == required_signals(committee_size as nat),
{
    let third: usize = committee_size / 3;
    let rest: usize = committee_size % 3;
    third * 2 + (rest * 2) / 3 + 1
}

/// Computes the number of attestations that let an edge node execute a parcel.
pub fn calculate_attestation_quorum(committee_size: usize) -> (quorum: usize)
    ensures
        quorum == attestation_quorum(committee_size as nat),
{
    if committee_size == 0 {
        1
    } else {
        2 * ((committee_size - 1) / 3) + 1
    }
}

/// The smallest stake of a valid node, in units of `10^-18` FLK; none where
/// the parameter is too large to be held at all.
pub open spec fn minimum_stake(params: ParamTable) -> Option<u128> {
    if params.minimum_node_stake * FLK_UNIT > u128::MAX {
        None
    } else {
        Some((params.minimum_node_stake * FLK_UNIT) as u128)
    }
}

/// Whether a node has the stake that the protocol asks of a node.
pub open spec fn has_sufficient_stake(node: Node, params: ParamTable) -> bool {
    match minimum_stake(params) {
        Some(least) => node.staked >= least,
        None => false,
    }
}

/// Whether a node is valid: it has the stake and it takes part.
pub open spec fn is_valid_node(node: Node, params: ParamTable) -> bool {
    has_sufficient_stake(node, params) && node.participation == Participation::True
}

/// Whether node `a` goes before node `b` when seats are given out: by the
/// larger stake, and among equal stakes by the smaller index.
pub open spec fn ranks_before(nodes: Seq<Node>, a: int, b: int) -> bool {
    nodes[a].staked > nodes[b].staked || (nodes[a].staked == nodes[b].staked && a < b)
}

/// Whether `members` is the committee that `nodes` elect for `size` seats:
/// valid nodes only, in the order of their rank, and no valid node is left
/// out unless every seat is taken by a node that ranks before it.
pub open spec fn is_committee(
    nodes: Seq<Node>,
    params: ParamTable,
    size: nat,
    members: Seq<NodeIndex>,
) -> bool {
    &&& members.len() <= size
    &&& forall|i: int|
        0 <= i < members.len() ==> (#[trigger] members[i]) < nodes.len() && is_valid_node(
            nodes[members[i] as int],
            params,
        )
    &&& forall|i: int, j: int|
        0 <= i < j < members.len() ==> ranks_before(
            nodes,
            #[trigger] members[i] as int,
            #[trigger] members[j] as int,
        )
    &&& forall|v: int|
        0 <= v < nodes.len() && is_valid_node(#[trigger] nodes[v], params) && !members.contains(
            v as NodeIndex,
        ) ==> members.len() == size && forall|i: int|
            0 <= i < members.len() ==> ranks_before(nodes, #[trigger] members[i] as int, v)
}

/// The committee that `nodes` elect for `size` seats.
pub open spec fn committee_of(nodes: Seq<Node>, params: ParamTable, size: nat) -> Seq<NodeIndex> {
    choose|members: Seq<NodeIndex>| is_committee(nodes, params, size, members)
}

/// The seats that are given out: as many as the protocol asks for, but no
/// more than there are nodes.
pub open spec fn seats(nodes: Seq<Node>, params: ParamTable) -> nat {
    if params.committee_size > nodes.len() {
        nodes.len()
    } else {
        params.committee_size as nat
    }
}

/// Two committees of the same nodes agree on their first `upto` members.
proof fn lemma_committee_prefix(
    nodes: Seq<Node>,
    params: ParamTable,
    size: nat,
    a: Seq<NodeIndex>,
    b: Seq<NodeIndex>,
    upto: int,
)
    requires
        is_committee(nodes, params, size, a),
        is_committee(nodes, params, size, b),
        0 <= upto <= a.len(),
        upto <= b.len(),
    ensures
        forall|i: int| 0 <= i < upto ==> a[i] == b[i],
    decreases upto,
{
    if upto > 0 {
        lemma_committee_prefix(nodes, params, size, a, b, upto - 1);
        let i = upto - 1;
        if a[i] != b[i] {
            if ranks_before(nodes, a[i] as int, b[i] as int) {
                lemma_not_member(nodes, a, b, i);
                assert(ranks_before(nodes, b[i] as int, a[i] as int));
            } else {
                lemma_not_member(nodes, b, a, i);
                assert(ranks_before(nodes, a[i] as int, b[i] as int));
            }
            assert(false);
        }
    }
}

/// A member of one ranked list that ranks before the member of another at the
/// same place, after a common beginning, is no member of the other.
proof fn lemma_not_member(nodes: Seq<Node>, a: Seq<NodeIndex>, b: Seq<NodeIndex>, i: int)
    requires
        0 <= i < a.len(),
        i < b.len(),
        forall|k: int| 0 <= k < i ==> a[k] == b[k],
        forall|k: int, j: int|
            0 <= k < j < a.len() ==> ranks_before(nodes, #[trigger] a[k] as int, #[trigger] a[j] as int),
        forall|k: int, j: int|
            0 <= k < j < b.len() ==> ranks_before(nodes, #[trigger] b[k] as int, #[trigger] b[j] as int),
        a[i] != b[i],
        !ranks_before(nodes, b[i] as int, a[i] as int),
    ensures
        !b.contains(a[i]),
{
    if b.contains(a[i]) {
        let p = choose|p: int| 0 <= p < b.len() && b[p] == a[i];
        if p < i {
            assert(a[p] == b[p]);
            assert(ranks_before(nodes, a[p] as int, a[i] as int));
        } else if p > i {
            assert(ranks_before(nodes, b[i] as int, b[p] as int));
        }
        assert(false);
    }
}

/// The nodes elect one committee and no other.
pub proof fn lemma_committee_unique(
    nodes: Seq<Node>,
    params: ParamTable,
    size: nat,
    a: Seq<NodeIndex>,
    b: Seq<NodeIndex>,
)
    requires
        is_committee(nodes, params, size, a),
        is_committee(nodes, params, size, b),
    ensures
        a == b,
{
    if a.len() <= b.len() {
        lemma_committee_prefix(nodes, params, size, a, b, a.len() as int);
        lemma_extra_member(nodes, params, size, a, b);
    } else {
        lemma_committee_prefix(nodes, params, size, a, b, b.len() as int);
        lemma_extra_member(nodes, params, size, b, a);
    }
    assert(a =~= b);
}

/// A committee is not the beginning of a longer one.
proof fn lemma_extra_member(
    nodes: Seq<Node>,
    params: ParamTable,
    size: nat,
    short: Seq<NodeIndex>,
    long: Seq<NodeIndex>,
)
    requires
        is_committee(nodes, params, size, short),
        is_committee(nodes, params, size, long),
        short.len() <= long.len(),
        forall|i: int| 0 <= i < short.len() ==> short[i] == long[i],
    ensures
        short.len() == long.len(),
{
    if short.len() < long.len() {
        let v = long[short.len() as int];
        if short.contains(v) {
            let p = choose|p: int| 0 <= p < short.len() && short[p] == v;
            assert(long[p] == v);
            assert(ranks_before(nodes, long[p] as int, long[short.len() as int] as int));
        } else {
            assert(is_valid_node(nodes[v as int], params));
            assert(short.len() == size);
        }
    }
}

/// Tells whether a node has the stake that the protocol asks of a node.
pub fn check_sufficient_stake(node: &Node, params: &ParamTable) -> (enough: bool)
    ensures
        enough == has_sufficient_stake(*node, *params),
{
    match params.minimum_node_stake.checked_mul(FLK_UNIT) {
        Some(least) => node.staked >= least,
        None => false,
    }
}

/// Tells whether a node is valid.
pub fn check_valid_node(node: &Node, params: &ParamTable) -> (valid: bool)
    ensures
        valid == is_valid_node(*node, *params),
{
    let takes_part = match node.participation {
        Participation::True => true,
        _ => false,
    };
    check_sufficient_stake(node, params) && takes_part
}

/// Whether every valid node that does not rank after the last member is a
/// member already.
spec fn covers(nodes: Seq<Node>, params: ParamTable, members: Seq<NodeIndex>) -> bool {
    members.len() > 0 ==> forall|v: int|
        0 <= v < nodes.len() && is_valid_node(#[trigger] nodes[v], params) && !ranks_before(
            nodes,
            members.last() as int,
            v,
        ) ==> members.contains(v as NodeIndex)
}

/// Finds the valid node that ranks first among those that rank after `last`.
fn next_in_rank(nodes: &Vec<Node>, params: &ParamTable, last: Option<usize>) -> (best: Option<usize>)
    requires
        nodes.len() <= 0xffff_ffff,
        last matches Some(l) ==> l < nodes.len(),
    ensures
        match best {
            Some(p) => {
                &&& p < nodes.len()
                &&& is_valid_node(nodes@[p as int], *params)
                &&& last matches Some(l) ==> ranks_before(nodes@, l as int, p as int)
                &&& forall|c: int|
                    0 <= c < nodes.len() && is_valid_node(#[trigger] nodes@[c], *params) && (
                    last matches Some(l) ==> ranks_before(nodes@, l as int, c)) ==> c == p
                        || ranks_before(nodes@, p as int, c)
            },
            None => forall|c: int|
                0 <= c < nodes.len() && is_valid_node(#[trigger] nodes@[c], *params) ==> (
                last matches Some(l) && !ranks_before(nodes@, l as int, c)),
        },
{
    let mut best: Option<usize> = None;
    let mut c: usize = 0;
    while c < nodes.len()
        invariant
            c <= nodes.len(),
            last matches Some(l) ==> l < nodes.len(),
            match best {
                Some(p) => {
                    &&& p < c
                    &&& is_valid_node(nodes@[p as int], *params)
                    &&& last matches Some(l) ==> ranks_before(nodes@, l as int, p as int)
                    &&& forall|k: int|
                        0 <= k < c && is_valid_node(#[trigger] nodes@[k], *params) && (
                        last matches Some(l) ==> ranks_before(nodes@, l as int, k)) ==> k == p
                            || ranks_before(nodes@, p as int, k)
                },
                None => forall|k: int|
                    0 <= k < c && is_valid_node(#[trigger] nodes@[k], *params) ==> (
                    last matches Some(l) && !ranks_before(nodes@, l as int, k)),
            },
        decreases nodes.len() - c,
    {
        let node = &nodes[c];
        let after_last = match last {
            Some(l) => {
                let prev = &nodes[l];
                prev.staked > node.staked || (prev.staked == node.staked && l < c)
            },
            None => true,
        };
        if after_last && check_valid_node(node, params) {
            let better = match best {
                Some(p) => {
                    let held = &nodes[p];
                    node.staked > held.staked
                },
                None => true,
            };
            if better {
                best = Some(c);
            }
        }
        c += 1;
    }
    best
}

/// Chooses the committee of the next epoch: the `size` valid nodes with the
/// largest stakes, ties going to the smaller index, in that order.
pub fn select_committee(nodes: &Vec<Node>, params: &ParamTable, size: usize) -> (members: Vec<
    NodeIndex,
>)
    requires
        nodes.len() <= 0xffff_ffff,
    ensures
        is_committee(nodes@, *params, size as nat, members@),
        members@ == committee_of(nodes@, *params, size as nat),
{
    let mut members: Vec<NodeIndex> = Vec::new();
    let mut last: Option<usize> = None;
    let mut full: bool = false;
    while members.len() < size && !full
        invariant
            nodes.len() <= 0xffff_ffff,
            members.len() <= size,
            last matches Some(l) ==> l < nodes.len() && members.len() > 0 && members@.last() == l,
            last is None ==> members.len() == 0,
            forall|i: int|
                0 <= i < members.len() ==> (#[trigger] members@[i]) < nodes.len() && is_valid_node(
                    nodes@[members@[i] as int],
                    *params,
                ),
            forall|i: int, j: int|
                0 <= i < j < members.len() ==> ranks_before(
                    nodes@,
                    #[trigger] members@[i] as int,
                    #[trigger] members@[j] as int,
                ),
            covers(nodes@, *params, members@),
            full ==> forall|v: int|
                0 <= v < nodes.len() && is_valid_node(#[trigger] nodes@[v], *params)
                    ==> members@.contains(v as NodeIndex),
        decreases (if full { 0int } else { 1int }), size - members.len(),
    {
        match next_in_rank(nodes, params, last) {
            None => {
                full = true;
                proof {
                    assert forall|v: int|
                        0 <= v < nodes.len() && is_valid_node(
                            #[trigger] nodes@[v],
                            *params,
                        ) implies members@.contains(v as NodeIndex) by {
                        assert(last is Some);
                        assert(!ranks_before(nodes@, members@.last() as int, v));
                    }
                }
            },
            Some(p) => {
                let ghost before = members@;
                members.push(p as NodeIndex);
                last = Some(p);
                proof {
                    assert forall|i: int, j: int| 0 <= i < j < members.len() implies ranks_before(
                        nodes@,
                        #[trigger] members@[i] as int,
                        #[trigger] members@[j] as int,
                    ) by {
                        if j == members.len() - 1 && before.len() > 0 {
                            assert(before.last() == before[before.len() - 1]);
                            if i < before.len() - 1 {
                                assert(ranks_before(
                                    nodes@,
                                    before[i] as int,
                                    before[before.len() - 1] as int,
                                ));
                            }
                        }
                    }
                    assert forall|v: int|
                        0 <= v < nodes.len() && is_valid_node(#[trigger] nodes@[v], *params)
                            && !ranks_before(nodes@, p as int, v) implies members@.contains(
                        v as NodeIndex,
                    ) by {
                        if v == p {
                            assert(members@[members.len() - 1] == p as NodeIndex);
                        } else if before.len() > 0 {
                            if ranks_before(nodes@, before.last() as int, v) {
                                assert(false);
                            } else {
                                assert(before.contains(v as NodeIndex));
                                let k = choose|k: int|
                                    0 <= k < before.len() && before[k] == v as NodeIndex;
                                assert(members@[k] == v as NodeIndex);
                            }
                        } else {
                            assert(false);
                        }
                    }
                    assert(members@.last() == p as NodeIndex);
                }
            },
        }
    }
    proof {
        assert forall|v: int|
            0 <= v < nodes.len() && is_valid_node(#[trigger] nodes@[v], *params)
                && !members@.contains(v as NodeIndex) implies members.len() == size && forall|
            i: int,
        |
            0 <= i < members.len() ==> ranks_before(nodes@, #[trigger] members@[i] as int, v) by {
            assert(!full);
            assert(members.len() == size);
            assert forall|i: int| 0 <= i < members.len() implies ranks_before(
                nodes@,
                #[trigger] members@[i] as int,
                v,
            ) by {
                assert(ranks_before(nodes@, members@.last() as int, v));
                if i < members.len() - 1 {
                    assert(ranks_before(
                        nodes@,
                        members@[i] as int,
                        members@[members.len() - 1] as int,
                    ));
                }
            }
        }
        assert(is_committee(nodes@, *params, size as nat, members@));
        lemma_committee_unique(
            nodes@,
            *params,
            size as nat,
            members@,
            committee_of(nodes@, *params, size as nat),
        );
    }
    members
}

} // verus!
