//! The state root: one digest that stands for everything in the ledger.
//!
//! The ledger is written out table by table, each table led by the number of
//! its rows, and the bytes are hashed. Ledgers that hold the same have the
//! same root.

use crate::codec::{
    ip_bytes, measurements_bytes, optional, ports_bytes, push_array, push_ip, push_measurements,
    push_optional_byte, push_ports, push_token, push_u128, token_byte, u128_bytes,
};
use crate::hashing::{blake3, blake3_hash, Digest};
use crate::keys::NodeIndex;
use crate::state::{State, StateView};
use crate::types::{
    Account, Delivery, Metadata, Node, ParamTable, Participation, Report, Service, ServiceTotals,
    Withdrawal,
};
use crate::wire::{le_bytes, push_le};
use vstd::prelude::*;

verus! {

/// The byte of a participation.
pub open spec fn participation_byte(p: Participation) -> u8 {
    match p {
        Participation::True => 0,
        Participation::False => 1,
        Participation::OptedIn => 2,
        Participation::OptedOut => 3,
    }
}

/// `base` followed by the metadata.
pub open spec fn metadata_onto(base: Seq<u8>, m: Metadata) -> Seq<u8> {
    base.add(le_bytes(m.epoch as nat, 8)).add(le_bytes(m.epoch_start_ms as nat, 8)).add(
        le_bytes(m.epoch_length_ms as nat, 8),
    ).add(m.last_block_digest@).add(u128_bytes(m.supply)).add(u128_bytes(m.supply_at_year_start)).add(
        m.governance_address@,
    ).add(m.protocol_fund_address@)
}

/// `base` followed by the protocol parameters, in the order of their names.
pub open spec fn params_onto(base: Seq<u8>, p: ParamTable) -> Seq<u8> {
    base.add(u128_bytes(p.epoch_time)).add(u128_bytes(p.committee_size)).add(
        u128_bytes(p.minimum_node_stake),
    ).add(u128_bytes(p.eligibility_time)).add(u128_bytes(p.lock_time)).add(
        u128_bytes(p.protocol_share),
    ).add(u128_bytes(p.node_share)).add(u128_bytes(p.service_builder_share)).add(
        u128_bytes(p.max_inflation),
    ).add(u128_bytes(p.max_boost)).add(u128_bytes(p.max_stake_lock_time))
}

/// `base` followed by an account.
pub open spec fn account_onto(base: Seq<u8>, a: Account) -> Seq<u8> {
    base.add(a.address@).add(u128_bytes(a.flk_balance)).add(u128_bytes(a.stables_balance)).add(
        u128_bytes(a.bandwidth_balance),
    ).add(le_bytes(a.nonce as nat, 8))
}

/// `base` followed by a node.
pub open spec fn node_onto(base: Seq<u8>, n: Node) -> Seq<u8> {
    base.add(n.public_key@).add(n.owner@).add(n.consensus_key@).add(n.worker_public_key@).add(
        ip_bytes(n.domain),
    ).add(ip_bytes(n.worker_domain)).add(ports_bytes(n.ports)).add(u128_bytes(n.staked)).add(
        u128_bytes(n.locked),
    ).add(le_bytes(n.locked_until as nat, 8)).add(le_bytes(n.stake_locked_until as nat, 8)).add(
        le_bytes(n.nonce as nat, 8),
    ).push(participation_byte(n.participation)).add(
        optional(
            match n.reputation {
                Some(x) => Some(seq![x]),
                None => None,
            },
        ),
    ).add(u128_bytes(n.revenue))
}

/// `base` followed by a service.
pub open spec fn service_onto(base: Seq<u8>, s: Service) -> Seq<u8> {
    base.add(s.owner@).add(u128_bytes(s.commodity_price))
}

/// `base` followed by the totals of a service.
pub open spec fn totals_onto(base: Seq<u8>, t: ServiceTotals) -> Seq<u8> {
    base.add(u128_bytes(t.commodity)).add(u128_bytes(t.revenue))
}

/// `base` followed by a delivery.
pub open spec fn delivery_onto(base: Seq<u8>, d: Delivery) -> Seq<u8> {
    base.add(le_bytes(d.node as nat, 4)).add(le_bytes(d.service as nat, 4)).add(
        u128_bytes(d.commodity),
    )
}

/// `base` followed by a report.
pub open spec fn report_onto(base: Seq<u8>, r: Report) -> Seq<u8> {
    base.add(le_bytes(r.reporter as nat, 4)).add(le_bytes(r.subject as nat, 4)).add(
        measurements_bytes(r.measurements),
    )
}

/// `base` followed by a withdrawal.
pub open spec fn withdrawal_onto(base: Seq<u8>, w: Withdrawal) -> Seq<u8> {
    base.add(w.account@).add(w.receiver@).push(token_byte(w.token)).add(u128_bytes(w.amount))
}

/// `base` followed by the first `upto` accounts.
pub open spec fn accounts_onto(base: Seq<u8>, rows: Seq<Account>, upto: int) -> Seq<u8>
    decreases upto,
{
    if upto <= 0 {
        base
    } else {
        account_onto(accounts_onto(base, rows, upto - 1), rows[upto - 1])
    }
}

/// `base` followed by the first `upto` nodes.
pub open spec fn nodes_onto(base: Seq<u8>, rows: Seq<Node>, upto: int) -> Seq<u8>
    decreases upto,
{
    if upto <= 0 {
        base
    } else {
        node_onto(nodes_onto(base, rows, upto - 1), rows[upto - 1])
    }
}

/// `base` followed by the first `upto` indices.
pub open spec fn indices_onto(base: Seq<u8>, rows: Seq<NodeIndex>, upto: int) -> Seq<u8>
    decreases upto,
{
    if upto <= 0 {
        base
    } else {
        indices_onto(base, rows, upto - 1).add(le_bytes(rows[upto - 1] as nat, 4))
    }
}

/// `base` followed by the first `upto` services.
pub open spec fn services_onto(base: Seq<u8>, rows: Seq<Service>, upto: int) -> Seq<u8>
    decreases upto,
{
    if upto <= 0 {
        base
    } else {
        service_onto(services_onto(base, rows, upto - 1), rows[upto - 1])
    }
}

/// `base` followed by the totals of the first `upto` services.
pub open spec fn served_onto(base: Seq<u8>, rows: Seq<ServiceTotals>, upto: int) -> Seq<u8>
    decreases upto,
{
    if upto <= 0 {
        base
    } else {
        totals_onto(served_onto(base, rows, upto - 1), rows[upto - 1])
    }
}

/// `base` followed by the first `upto` deliveries.
pub open spec fn deliveries_onto(base: Seq<u8>, rows: Seq<Delivery>, upto: int) -> Seq<u8>
    decreases upto,
{
    if upto <= 0 {
        base
    } else {
        delivery_onto(deliveries_onto(base, rows, upto - 1), rows[upto - 1])
    }
}

/// `base` followed by the first `upto` reports.
pub open spec fn reports_onto(base: Seq<u8>, rows: Seq<Report>, upto: int) -> Seq<u8>
    decreases upto,
{
    if upto <= 0 {
        base
    } else {
        report_onto(reports_onto(base, rows, upto - 1), rows[upto - 1])
    }
}

/// `base` followed by the first `upto` withdrawals.
pub open spec fn withdrawals_onto(base: Seq<u8>, rows: Seq<Withdrawal>, upto: int) -> Seq<u8>
    decreases upto,
{
    if upto <= 0 {
        base
    } else {
        withdrawal_onto(withdrawals_onto(base, rows, upto - 1), rows[upto - 1])
    }
}

/// `base` followed by the first `upto` digests.
pub open spec fn digests_onto(base: Seq<u8>, rows: Seq<Digest>, upto: int) -> Seq<u8>
    decreases upto,
{
    if upto <= 0 {
        base
    } else {
        digests_onto(base, rows, upto - 1).add(rows[upto - 1]@)
    }
}

/// `base` followed by the number of rows of a table.
pub open spec fn count_onto(base: Seq<u8>, rows: nat) -> Seq<u8> {
    base.add(le_bytes(rows, 8))
}

/// The first half of the bytes of a ledger: the metadata, the parameters,
/// the accounts, the nodes, and the committee with its signals and the end
/// of its epoch.
pub open spec fn registry_bytes(s: StateView) -> Seq<u8> {
    let b0 = params_onto(metadata_onto(Seq::empty(), s.metadata), s.params);
    let b1 = accounts_onto(count_onto(b0, s.accounts.len()), s.accounts, s.accounts.len() as int);
    let b2 = nodes_onto(count_onto(b1, s.nodes.len()), s.nodes, s.nodes.len() as int);
    let b3 = indices_onto(count_onto(b2, s.members.len()), s.members, s.members.len() as int);
    let b4 = indices_onto(
        count_onto(b3, s.signalled.len()),
        s.signalled,
        s.signalled.len() as int,
    );
    b4.add(le_bytes(s.epoch_end_ms as nat, 8))
}

/// The bytes of a ledger: its first half, the services with what was served
/// of them, the deliveries, the reward pool, the reports with their
/// reporters, the withdrawals, and the digests of what was executed.
pub open spec fn state_bytes(s: StateView) -> Seq<u8> {
    let b5 = services_onto(
        count_onto(registry_bytes(s), s.services.len()),
        s.services,
        s.services.len() as int,
    );
    let b6 = served_onto(count_onto(b5, s.served.len()), s.served, s.served.len() as int);
    let b7 = deliveries_onto(
        count_onto(b6, s.deliveries.len()),
        s.deliveries,
        s.deliveries.len() as int,
    );
    let b8 = b7.add(u128_bytes(s.reward_pool));
    let b9 = reports_onto(count_onto(b8, s.reports.len()), s.reports, s.reports.len() as int);
    let b10 = indices_onto(
        count_onto(b9, s.reporters.len()),
        s.reporters,
        s.reporters.len() as int,
    );
    let b11 = withdrawals_onto(
        count_onto(b10, s.withdrawals.len()),
        s.withdrawals,
        s.withdrawals.len() as int,
    );
    digests_onto(count_onto(b11, s.executed.len()), s.executed, s.executed.len() as int)
}

/// The state root of a ledger: the BLAKE3 hash of its bytes.
pub open spec fn state_root_spec(s: StateView) -> Seq<u8> {
    blake3_hash(state_bytes(s))
}

fn push_metadata(out: &mut Vec<u8>, m: &Metadata)
    ensures
        final(out)@ == metadata_onto(old(out)@, *m),
{
    push_le(out, m.epoch, 8);
    push_le(out, m.epoch_start_ms, 8);
    push_le(out, m.epoch_length_ms, 8);
    push_array(out, &m.last_block_digest);
    push_u128(out, m.supply);
    push_u128(out, m.supply_at_year_start);
    push_array(out, &m.governance_address);
    push_array(out, &m.protocol_fund_address);
}

fn push_params(out: &mut Vec<u8>, p: &ParamTable)
    ensures
        final(out)@ == params_onto(old(out)@, *p),
{
    push_u128(out, p.epoch_time);
    push_u128(out, p.committee_size);
    push_u128(out, p.minimum_node_stake);
    push_u128(out, p.eligibility_time);
    push_u128(out, p.lock_time);
    push_u128(out, p.protocol_share);
    push_u128(out, p.node_share);
    push_u128(out, p.service_builder_share);
    push_u128(out, p.max_inflation);
    push_u128(out, p.max_boost);
    push_u128(out, p.max_stake_lock_time);
}

fn push_account(out: &mut Vec<u8>, a: &Account)
    ensures
        final(out)@ == account_onto(old(out)@, *a),
{
    push_array(out, &a.address);
    push_u128(out, a.flk_balance);
    push_u128(out, a.stables_balance);
    push_u128(out, a.bandwidth_balance);
    push_le(out, a.nonce, 8);
}

fn push_node(out: &mut Vec<u8>, n: &Node)
    ensures
        final(out)@ == node_onto(old(out)@, *n),
{
    push_array(out, &n.public_key);
    push_array(out, &n.owner);
    push_array(out, &n.consensus_key);
    push_array(out, &n.worker_public_key);
    push_ip(out, &n.domain);
    push_ip(out, &n.worker_domain);
    push_ports(out, &n.ports);
    push_u128(out, n.staked);
    push_u128(out, n.locked);
    push_le(out, n.locked_until, 8);
    push_le(out, n.stake_locked_until, 8);
    push_le(out, n.nonce, 8);
    let p: u8 = match n.participation {
        Participation::True => 0,
        Participation::False => 1,
        Participation::OptedIn => 2,
        Participation::OptedOut => 3,
    };
    out.push(p);
    push_optional_byte(out, n.reputation);
    push_u128(out, n.revenue);
}

fn push_count(out: &mut Vec<u8>, rows: usize)
    ensures
        final(out)@ == count_onto(old(out)@, rows as nat),
{
    push_le(out, rows as u64, 8);
}

fn push_indices(out: &mut Vec<u8>, rows: &Vec<NodeIndex>)
    ensures
        final(out)@ == indices_onto(
            count_onto(old(out)@, rows@.len()),
            rows@,
            rows@.len() as int,
        ),
{
    push_count(out, rows.len());
    let ghost base = out@;
    let mut i: usize = 0;
    while i < rows.len()
        invariant
            i <= rows.len(),
            out@ == indices_onto(base, rows@, i as int),
        decreases rows.len() - i,
    {
        push_le(out, rows[i] as u64, 4);
        i += 1;
    }
}

impl State {
    /// Writes the first half of the bytes of the ledger.
    pub fn registry_to_bytes(&self) -> (bytes: Vec<u8>)
        ensures
            bytes@ == registry_bytes(self@),
    {
        let mut out: Vec<u8> = Vec::new();
        push_metadata(&mut out, &self.metadata);
        push_params(&mut out, &self.params);
        push_count(&mut out, self.accounts.len());
        let ghost b0 = out@;
        let mut i: usize = 0;
        while i < self.accounts.len()
            invariant
                i <= self.accounts.len(),
                out@ == accounts_onto(b0, self.accounts@, i as int),
            decreases self.accounts.len() - i,
        {
            push_account(&mut out, &self.accounts[i]);
            i += 1;
        }
        push_count(&mut out, self.nodes.len());
        let ghost b1 = out@;
        let mut n: usize = 0;
        while n < self.nodes.len()
            invariant
                n <= self.nodes.len(),
                out@ == nodes_onto(b1, self.nodes@, n as int),
            decreases self.nodes.len() - n,
        {
            push_node(&mut out, &self.nodes[n]);
            n += 1;
        }
        push_indices(&mut out, &self.members);
        push_indices(&mut out, &self.signalled);
        push_le(&mut out, self.epoch_end_ms, 8);
        out
    }

    /// Writes the bytes of the ledger.
    pub fn to_bytes(&self) -> (bytes: Vec<u8>)
        ensures
            bytes@ == state_bytes(self@),
    {
        let mut out = self.registry_to_bytes();
        push_count(&mut out, self.services.len());
        let ghost b0 = out@;
        let mut i: usize = 0;
        while i < self.services.len()
            invariant
                i <= self.services.len(),
                out@ == services_onto(b0, self.services@, i as int),
            decreases self.services.len() - i,
        {
            push_array(&mut out, &self.services[i].owner);
            push_u128(&mut out, self.services[i].commodity_price);
            i += 1;
        }
        push_count(&mut out, self.served.len());
        let ghost b1 = out@;
        let mut k: usize = 0;
        while k < self.served.len()
            invariant
                k <= self.served.len(),
                out@ == served_onto(b1, self.served@, k as int),
            decreases self.served.len() - k,
        {
            push_u128(&mut out, self.served[k].commodity);
            push_u128(&mut out, self.served[k].revenue);
            k += 1;
        }
        push_count(&mut out, self.deliveries.len());
        let ghost b2 = out@;
        let mut d: usize = 0;
        while d < self.deliveries.len()
            invariant
                d <= self.deliveries.len(),
                out@ == deliveries_onto(b2, self.deliveries@, d as int),
            decreases self.deliveries.len() - d,
        {
            push_le(&mut out, self.deliveries[d].node as u64, 4);
            push_le(&mut out, self.deliveries[d].service as u64, 4);
            push_u128(&mut out, self.deliveries[d].commodity);
            d += 1;
        }
        push_u128(&mut out, self.reward_pool);
        push_count(&mut out, self.reports.len());
        let ghost b3 = out@;
        let mut r: usize = 0;
        while r < self.reports.len()
            invariant
                r <= self.reports.len(),
                out@ == reports_onto(b3, self.reports@, r as int),
            decreases self.reports.len() - r,
        {
            push_le(&mut out, self.reports[r].reporter as u64, 4);
            push_le(&mut out, self.reports[r].subject as u64, 4);
            push_measurements(&mut out, &self.reports[r].measurements);
            r += 1;
        }
        push_indices(&mut out, &self.reporters);
        push_count(&mut out, self.withdrawals.len());
        let ghost b4 = out@;
        let mut w: usize = 0;
        while w < self.withdrawals.len()
            invariant
                w <= self.withdrawals.len(),
                out@ == withdrawals_onto(b4, self.withdrawals@, w as int),
            decreases self.withdrawals.len() - w,
        {
            push_array(&mut out, &self.withdrawals[w].account);
            push_array(&mut out, &self.withdrawals[w].receiver);
            push_token(&mut out, self.withdrawals[w].token);
            push_u128(&mut out, self.withdrawals[w].amount);
            w += 1;
        }
        push_count(&mut out, self.executed.len());
        let ghost b5 = out@;
        let mut e: usize = 0;
        while e < self.executed.len()
            invariant
                e <= self.executed.len(),
                out@ == digests_onto(b5, self.executed@, e as int),
            decreases self.executed.len() - e,
        {
            push_array(&mut out, &self.executed[e]);
            e += 1;
        }
        out
    }

    /// Computes the state root of the ledger.
    pub fn state_root(&self) -> (root: Digest)
        ensures
            root@ == state_root_spec(self@),
    {
        let bytes = self.to_bytes();
        blake3(&bytes)
    }
}

} // verus!
