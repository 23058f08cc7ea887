//! Distribution of rewards at the end of an epoch.
//!
//! The revenue of the epoch in stable currency and the FLK that the epoch
//! emits are split between the protocol fund, the nodes and the builders of
//! services by the shares that the protocol parameters give. An amount that
//! cannot be computed or credited within 128 bits is not paid.

use crate::fixed::{
    fx_div, fx_div_spec, fx_mul, fx_mul_spec, percent, percent_spec, FLK_UNIT, PRECISION_GAP,
    STABLE_UNIT,
};
use crate::keys::Address;
use crate::staking::remaining_lock;
use crate::state::{State, StateView};
use crate::tokens::{account_or_fresh, read_account, set_balance, write_balance};
use crate::types::{Metadata, Node, ParamTable, ServiceTotals, Tokens};
use vstd::prelude::*;

verus! {

/// Epochs in a year: an epoch is a day.
pub const EPOCHS_PER_YEAR: u128 = 365;

/// The product of two fixed-point numbers, where both are there.
pub open spec fn opt_mul_spec(x: Option<u128>, y: Option<u128>, unit: u128) -> Option<u128> {
    match (x, y) {
        (Some(a), Some(b)) => fx_mul_spec(a, b, unit),
        _ => None,
    }
}

/// The quotient of two fixed-point numbers, where both are there.
pub open spec fn opt_div_spec(x: Option<u128>, y: Option<u128>, unit: u128) -> Option<u128> {
    match (x, y) {
        (Some(a), Some(b)) => fx_div_spec(a, b, unit),
        _ => None,
    }
}

/// The sum of two amounts, where both are there and the sum fits.
pub open spec fn opt_add_spec(x: Option<u128>, y: Option<u128>) -> Option<u128> {
    match (x, y) {
        (Some(a), Some(b)) => if a + b > u128::MAX {
            None
        } else {
            Some((a + b) as u128)
        },
        _ => None,
    }
}

/// A share with eighteen decimal places cut down to six.
pub open spec fn to_stable_precision(x: Option<u128>) -> Option<u128> {
    match x {
        Some(a) => Some(a / PRECISION_GAP),
        None => None,
    }
}

/// An amount with six decimal places written with eighteen.
pub open spec fn to_flk_precision(x: u128) -> Option<u128> {
    if x * PRECISION_GAP > u128::MAX {
        None
    } else {
        Some((x * PRECISION_GAP) as u128)
    }
}

/// The part of the epoch's revenue that `revenue` is, with eighteen decimal
/// places.
pub open spec fn proportion_spec(revenue: u128, pool: u128) -> Option<u128> {
    opt_div_spec(to_flk_precision(revenue), to_flk_precision(pool), FLK_UNIT)
}

/// The FLK that one epoch emits: the yearly inflation of the supply at the
/// start of the year, divided by the epochs of a year.
pub open spec fn emissions_spec(metadata: Metadata, params: ParamTable) -> Option<u128> {
    opt_div_spec(
        opt_mul_spec(
            percent_spec(params.max_inflation, FLK_UNIT),
            Some(metadata.supply_at_year_start),
            FLK_UNIT,
        ),
        Some((EPOCHS_PER_YEAR * FLK_UNIT) as u128),
        FLK_UNIT,
    )
}

/// The multiplier that a node's locked stake earns: one, and the rest up to
/// the largest boost in proportion to the epochs for which the stake is still
/// locked, counted up to the longest lock.
pub open spec fn boost_spec(node: Node, epoch: u64, params: ParamTable) -> Option<u128> {
    if params.max_stake_lock_time == 0 || params.max_boost <= 1 {
        Some(FLK_UNIT)
    } else {
        let remaining = remaining_lock(node, epoch);
        let counted = if remaining > params.max_stake_lock_time {
            params.max_stake_lock_time
        } else {
            remaining as u128
        };
        let part = fx_div_spec(counted, params.max_stake_lock_time, FLK_UNIT);
        match part {
            Some(p) => if (params.max_boost - 1) * p + FLK_UNIT > u128::MAX {
                None
            } else {
                Some(((params.max_boost - 1) * p + FLK_UNIT) as u128)
            },
            None => None,
        }
    }
}

/// The weight of a node in the split of the nodes' FLK: its part of the
/// revenue times its boost.
pub open spec fn node_weight_spec(node: Node, pool: u128, epoch: u64, params: ParamTable) -> Option<
    u128,
> {
    opt_mul_spec(proportion_spec(node.revenue, pool), boost_spec(node, epoch, params), FLK_UNIT)
}

/// The weights of the first `upto` nodes, added up.
pub open spec fn total_weight_spec(
    nodes: Seq<Node>,
    pool: u128,
    epoch: u64,
    params: ParamTable,
    upto: int,
) -> Option<u128>
    decreases upto,
{
    if upto <= 0 {
        Some(0)
    } else {
        opt_add_spec(
            total_weight_spec(nodes, pool, epoch, params, upto - 1),
            node_weight_spec(nodes[upto - 1], pool, epoch, params),
        )
    }
}

/// What the split of an epoch's rewards goes by.
#[derive(Clone, Copy, Debug, PartialEq, Eq)]
pub struct RewardTerms {
    /// Revenue of the epoch in stable currency.
    pub pool: u128,
    pub epoch: u64,
    pub params: ParamTable,
    /// The shares, with eighteen decimal places.
    pub node_share: Option<u128>,
    pub protocol_share: Option<u128>,
    pub service_share: Option<u128>,
    /// FLK that the epoch emits.
    pub emissions: Option<u128>,
    /// The weights of all nodes, added up.
    pub total_weight: Option<u128>,
}

/// The terms by which the rewards of the current epoch are split.
pub open spec fn reward_terms_spec(s: StateView) -> RewardTerms {
    RewardTerms {
        pool: s.reward_pool,
        epoch: s.metadata.epoch,
        params: s.params,
        node_share: percent_spec(s.params.node_share, FLK_UNIT),
        protocol_share: percent_spec(s.params.protocol_share, FLK_UNIT),
        service_share: percent_spec(s.params.service_builder_share, FLK_UNIT),
        emissions: emissions_spec(s.metadata, s.params),
        total_weight: total_weight_spec(
            s.nodes,
            s.reward_pool,
            s.metadata.epoch,
            s.params,
            s.nodes.len() as int,
        ),
    }
}

/// The stable currency that a node's owner earns: the node's share of the
/// node's own revenue.
pub open spec fn node_stables_spec(t: RewardTerms, node: Node) -> Option<u128> {
    opt_mul_spec(Some(node.revenue), to_stable_precision(t.node_share), STABLE_UNIT)
}

/// The FLK that a node's owner earns: the nodes' share of the emissions, by
/// the node's weight among all weights.
pub open spec fn node_flk_spec(t: RewardTerms, node: Node) -> Option<u128> {
    opt_div_spec(
        opt_mul_spec(
            opt_mul_spec(t.emissions, t.node_share, FLK_UNIT),
            node_weight_spec(node, t.pool, t.epoch, t.params),
            FLK_UNIT,
        ),
        t.total_weight,
        FLK_UNIT,
    )
}

/// The stable currency that the protocol fund earns.
pub open spec fn protocol_stables_spec(t: RewardTerms) -> Option<u128> {
    opt_mul_spec(Some(t.pool), to_stable_precision(t.protocol_share), STABLE_UNIT)
}

/// The FLK that the protocol fund earns.
pub open spec fn protocol_flk_spec(t: RewardTerms) -> Option<u128> {
    opt_mul_spec(t.emissions, t.protocol_share, FLK_UNIT)
}

/// The stable currency that the builder of a service earns: the builders'
/// share of the revenue, by the part that the service had in it.
pub open spec fn service_stables_spec(t: RewardTerms, totals: ServiceTotals) -> Option<u128> {
    opt_mul_spec(
        opt_mul_spec(Some(t.pool), to_stable_precision(t.service_share), STABLE_UNIT),
        to_stable_precision(proportion_spec(totals.revenue, t.pool)),
        STABLE_UNIT,
    )
}

/// The FLK that the builder of a service earns.
pub open spec fn service_flk_spec(t: RewardTerms, totals: ServiceTotals) -> Option<u128> {
    opt_mul_spec(
        opt_mul_spec(t.emissions, t.service_share, FLK_UNIT),
        proportion_spec(totals.revenue, t.pool),
        FLK_UNIT,
    )
}

/// The ledger after `amount` was issued to `to`. FLK that is issued adds to
/// the supply. Nothing happens where there is no amount, or where the balance
/// or the supply would no longer fit.
pub open spec fn mint_spec(s: StateView, to: Address, token: Tokens, amount: Option<u128>) -> StateView {
    match amount {
        None => s,
        Some(a) => {
            let held = match token {
                Tokens::FLK => account_or_fresh(s.accounts, to).flk_balance,
                Tokens::USDC => account_or_fresh(s.accounts, to).stables_balance,
            };
            let grows_supply = token == Tokens::FLK;
            if held + a > u128::MAX || (grows_supply && s.metadata.supply + a > u128::MAX) {
                s
            } else {
                StateView {
                    accounts: set_balance(s.accounts, to, token, (held + a) as u128),
                    metadata: if grows_supply {
                        Metadata { supply: (s.metadata.supply + a) as u128, ..s.metadata }
                    } else {
                        s.metadata
                    },
                    ..s
                }
            }
        },
    }
}

/// The ledger after the first `upto` nodes were paid. A node without revenue
/// earns nothing.
pub open spec fn pay_nodes_spec(s: StateView, t: RewardTerms, upto: int) -> StateView
    decreases upto,
{
    if upto <= 0 {
        s
    } else {
        let before = pay_nodes_spec(s, t, upto - 1);
        let node = s.nodes[upto - 1];
        if node.revenue == 0 {
            before
        } else {
            mint_spec(
                mint_spec(before, node.owner, Tokens::USDC, node_stables_spec(t, node)),
                node.owner,
                Tokens::FLK,
                node_flk_spec(t, node),
            )
        }
    }
}

/// The ledger after the builders of the first `upto` services were paid.
pub open spec fn pay_services_spec(s: StateView, t: RewardTerms, upto: int) -> StateView
    decreases upto,
{
    if upto <= 0 {
        s
    } else {
        let before = pay_services_spec(s, t, upto - 1);
        let owner = s.services[upto - 1].owner;
        let totals = s.served[upto - 1];
        mint_spec(
            mint_spec(before, owner, Tokens::USDC, service_stables_spec(t, totals)),
            owner,
            Tokens::FLK,
            service_flk_spec(t, totals),
        )
    }
}

/// The ledger after the protocol fund was paid.
pub open spec fn pay_protocol_spec(s: StateView, t: RewardTerms) -> StateView {
    let fund = s.metadata.protocol_fund_address;
    mint_spec(
        mint_spec(s, fund, Tokens::USDC, protocol_stables_spec(t)),
        fund,
        Tokens::FLK,
        protocol_flk_spec(t),
    )
}

/// The ledger after the rewards of the epoch were paid: first the nodes in
/// the order of their indices, then the protocol fund, then the builders of
/// the services in the order of their identifiers. An epoch without revenue
/// pays nothing.
pub open spec fn distribute_rewards_spec(s: StateView) -> StateView {
    if s.reward_pool == 0 {
        s
    } else {
        let t = reward_terms_spec(s);
        pay_services_spec(
            pay_protocol_spec(pay_nodes_spec(s, t, s.nodes.len() as int), t),
            t,
            s.services.len() as int,
        )
    }
}

/// Stable currency is paid by revenue alone: two nodes with the same revenue
/// are owed the same, whatever their stakes and locks.
pub proof fn lemma_stables_ignore_boost(t: RewardTerms, a: Node, b: Node)
    requires
        a.revenue == b.revenue,
    ensures
        node_stables_spec(t, a) == node_stables_spec(t, b),
{
}

/// A stake that is not locked earns no boost: the multiplier is one.
pub proof fn lemma_no_lock_no_boost(node: Node, epoch: u64, params: ParamTable)
    requires
        node.stake_locked_until <= epoch,
    ensures
        boost_spec(node, epoch, params) == Some(FLK_UNIT),
{
    if params.max_stake_lock_time != 0 && params.max_boost > 1 {
        assert(0 * FLK_UNIT as int == 0);
        assert(0int / (params.max_stake_lock_time as int) == 0);
        assert(fx_div_spec(0, params.max_stake_lock_time, FLK_UNIT) == Some(0u128));
        assert((params.max_boost - 1) * 0 == 0) by (nonlinear_arith);
    }
}

/// A stake that is locked for the longest lock or longer earns the largest
/// boost, as far as 128 bits hold it.
pub proof fn lemma_full_lock_full_boost(node: Node, epoch: u64, params: ParamTable)
    requires
        params.max_stake_lock_time > 0,
        params.max_boost > 1,
        node.stake_locked_until - epoch >= params.max_stake_lock_time,
        params.max_boost * FLK_UNIT <= u128::MAX,
    ensures
        boost_spec(node, epoch, params) == Some((params.max_boost * FLK_UNIT) as u128),
{
    let lock = params.max_stake_lock_time;
    vstd::arithmetic::div_mod::lemma_div_multiples_vanish(FLK_UNIT as int, lock as int);
    assert(fx_div_spec(lock, lock, FLK_UNIT) == Some(FLK_UNIT));
    assert((params.max_boost - 1) * FLK_UNIT + FLK_UNIT == params.max_boost * FLK_UNIT)
        by (nonlinear_arith);
}

/// Paying the nodes leaves everything but the accounts and the supply alone.
pub proof fn lemma_pay_nodes_frame(s: StateView, t: RewardTerms, upto: int)
    ensures
        pay_nodes_spec(s, t, upto) == (StateView {
            accounts: pay_nodes_spec(s, t, upto).accounts,
            metadata: Metadata { supply: pay_nodes_spec(s, t, upto).metadata.supply, ..s.metadata },
            ..s
        }),
    decreases upto,
{
    if upto > 0 {
        lemma_pay_nodes_frame(s, t, upto - 1);
    }
}

/// Paying the builders leaves everything but the accounts and the supply
/// alone.
pub proof fn lemma_pay_services_frame(s: StateView, t: RewardTerms, upto: int)
    ensures
        pay_services_spec(s, t, upto) == (StateView {
            accounts: pay_services_spec(s, t, upto).accounts,
            metadata: Metadata {
                supply: pay_services_spec(s, t, upto).metadata.supply,
                ..s.metadata
            },
            ..s
        }),
    decreases upto,
{
    if upto > 0 {
        lemma_pay_services_frame(s, t, upto - 1);
    }
}

/// Paying the rewards leaves everything but the accounts and the supply
/// alone.
pub proof fn lemma_distribute_frame(s: StateView)
    ensures
        distribute_rewards_spec(s) == (StateView {
            accounts: distribute_rewards_spec(s).accounts,
            metadata: Metadata {
                supply: distribute_rewards_spec(s).metadata.supply,
                ..s.metadata
            },
            ..s
        }),
{
    if s.reward_pool != 0 {
        let t = reward_terms_spec(s);
        let s1 = pay_nodes_spec(s, t, s.nodes.len() as int);
        lemma_pay_nodes_frame(s, t, s.nodes.len() as int);
        let s2 = pay_protocol_spec(s1, t);
        lemma_pay_services_frame(s2, t, s.services.len() as int);
    }
}

fn opt_mul(x: Option<u128>, y: Option<u128>, unit: u128) -> (r: Option<u128>)
    ensures
        r == opt_mul_spec(x, y, unit),
{
    match (x, y) {
        (Some(a), Some(b)) => fx_mul(a, b, unit),
        _ => None,
    }
}

fn opt_div(x: Option<u128>, y: Option<u128>, unit: u128) -> (r: Option<u128>)
    ensures
        r == opt_div_spec(x, y, unit),
{
    match (x, y) {
        (Some(a), Some(b)) => fx_div(a, b, unit),
        _ => None,
    }
}

fn opt_add(x: Option<u128>, y: Option<u128>) -> (r: Option<u128>)
    ensures
        r == opt_add_spec(x, y),
{
    match (x, y) {
        (Some(a), Some(b)) => a.checked_add(b),
        _ => None,
    }
}

fn stable_precision(x: Option<u128>) -> (r: Option<u128>)
    ensures
        r == to_stable_precision(x),
{
    match x {
        Some(a) => Some(a / PRECISION_GAP),
        None => None,
    }
}

/// Computes the part of the epoch's revenue that `revenue` is.
pub fn proportion(revenue: u128, pool: u128) -> (r: Option<u128>)
    ensures
        r == proportion_spec(revenue, pool),
{
    opt_div(revenue.checked_mul(PRECISION_GAP), pool.checked_mul(PRECISION_GAP), FLK_UNIT)
}

/// Computes the FLK that one epoch emits.
pub fn emissions(metadata: &Metadata, params: &ParamTable) -> (r: Option<u128>)
    ensures
        r == emissions_spec(*metadata, *params),
{
    let inflation = percent(params.max_inflation, FLK_UNIT);
    let yearly = opt_mul(inflation, Some(metadata.supply_at_year_start), FLK_UNIT);
    opt_div(yearly, Some(EPOCHS_PER_YEAR * FLK_UNIT), FLK_UNIT)
}

/// Computes the multiplier that a node's locked stake earns.
pub fn boost(node: &Node, epoch: u64, params: &ParamTable) -> (r: Option<u128>)
    ensures
        r == boost_spec(*node, epoch, *params),
{
    if params.max_stake_lock_time == 0 || params.max_boost <= 1 {
        return Some(FLK_UNIT);
    }
    let remaining: u64 = if node.stake_locked_until > epoch {
        node.stake_locked_until - epoch
    } else {
        0
    };
    let counted: u128 = if remaining as u128 > params.max_stake_lock_time {
        params.max_stake_lock_time
    } else {
        remaining as u128
    };
    match fx_div(counted, params.max_stake_lock_time, FLK_UNIT) {
        Some(p) => match (params.max_boost - 1).checked_mul(p) {
            Some(extra) => extra.checked_add(FLK_UNIT),
            None => {
                assert((params.max_boost - 1) * p + FLK_UNIT > u128::MAX);
                None
            },
        },
        None => None,
    }
}

/// Computes the weight of a node in the split of the nodes' FLK.
pub fn node_weight(node: &Node, pool: u128, epoch: u64, params: &ParamTable) -> (r: Option<u128>)
    ensures
        r == node_weight_spec(*node, pool, epoch, *params),
{
    opt_mul(proportion(node.revenue, pool), boost(node, epoch, params), FLK_UNIT)
}

/// Adds up the weights of all nodes.
pub fn total_weight(nodes: &Vec<Node>, pool: u128, epoch: u64, params: &ParamTable) -> (r: Option<
    u128,
>)
    ensures
        r == total_weight_spec(nodes@, pool, epoch, *params, nodes.len() as int),
{
    let mut total: Option<u128> = Some(0);
    let mut i: usize = 0;
    while i < nodes.len()
        invariant
            i <= nodes.len(),
            total == total_weight_spec(nodes@, pool, epoch, *params, i as int),
        decreases nodes.len() - i,
    {
        total = opt_add(total, node_weight(&nodes[i], pool, epoch, params));
        i += 1;
    }
    total
}

impl State {
    /// Works out the terms by which the rewards of the current epoch are
    /// split.
    pub fn reward_terms(&self) -> (t: RewardTerms)
        ensures
            t == reward_terms_spec(self@),
    {
        RewardTerms {
            pool: self.reward_pool,
            epoch: self.metadata.epoch,
            params: self.params,
            node_share: percent(self.params.node_share, FLK_UNIT),
            protocol_share: percent(self.params.protocol_share, FLK_UNIT),
            service_share: percent(self.params.service_builder_share, FLK_UNIT),
            emissions: emissions(&self.metadata, &self.params),
            total_weight: total_weight(
                &self.nodes,
                self.reward_pool,
                self.metadata.epoch,
                &self.params,
            ),
        }
    }

    /// Issues `amount` of a token to the account `to`.
    pub fn mint(&mut self, to: &Address, token: Tokens, amount: Option<u128>)
        ensures
            final(self)@ == mint_spec(old(self)@, *to, token, amount),
    {
        if let Some(a) = amount {
            let row = read_account(&self.accounts, to);
            match token {
                Tokens::FLK => {
                    if let Some(sum) = row.flk_balance.checked_add(a) {
                        if let Some(supply) = self.metadata.supply.checked_add(a) {
                            write_balance(&mut self.accounts, to, Tokens::FLK, sum);
                            self.metadata.supply = supply;
                        }
                    }
                },
                Tokens::USDC => {
                    if let Some(sum) = row.stables_balance.checked_add(a) {
                        write_balance(&mut self.accounts, to, Tokens::USDC, sum);
                    }
                },
            }
        }
    }

    /// Pays the rewards of the epoch to the owners of the nodes, to the
    /// protocol fund and to the builders of the services.
    pub fn distribute_rewards(&mut self)
        requires
            old(self)@.wf(),
        ensures
            final(self)@ == distribute_rewards_spec(old(self)@),
    {
        if self.reward_pool == 0 {
            return ;
        }
        let t = self.reward_terms();
        let node_share = stable_precision(t.node_share);
        let node_emissions = opt_mul(t.emissions, t.node_share, FLK_UNIT);
        let ghost start = self@;
        let mut i: usize = 0;
        while i < self.nodes.len()
            invariant
                i <= self.nodes.len(),
                self.nodes@ == start.nodes,
                self@ == pay_nodes_spec(start, t, i as int),
                node_share == to_stable_precision(t.node_share),
                node_emissions == opt_mul_spec(t.emissions, t.node_share, FLK_UNIT),
            decreases self.nodes.len() - i,
        {
            let node = self.nodes[i];
            if node.revenue != 0 {
                let stables = opt_mul(Some(node.revenue), node_share, STABLE_UNIT);
                let weight = node_weight(&node, t.pool, t.epoch, &t.params);
                let flk = opt_div(opt_mul(node_emissions, weight, FLK_UNIT), t.total_weight, FLK_UNIT);
                self.mint(&node.owner, Tokens::USDC, stables);
                self.mint(&node.owner, Tokens::FLK, flk);
            }
            proof {
                lemma_pay_nodes_frame(start, t, i as int + 1);
            }
            i += 1;
        }
        let fund = self.metadata.protocol_fund_address;
        let protocol_stables = opt_mul(
            Some(t.pool),
            stable_precision(t.protocol_share),
            STABLE_UNIT,
        );
        let protocol_flk = opt_mul(t.emissions, t.protocol_share, FLK_UNIT);
        self.mint(&fund, Tokens::USDC, protocol_stables);
        self.mint(&fund, Tokens::FLK, protocol_flk);
        let service_stables_base = opt_mul(
            Some(t.pool),
            stable_precision(t.service_share),
            STABLE_UNIT,
        );
        let service_flk_base = opt_mul(t.emissions, t.service_share, FLK_UNIT);
        let ghost paid = self@;
        proof {
            lemma_pay_nodes_frame(start, t, start.nodes.len() as int);
        }
        let mut k: usize = 0;
        while k < self.services.len()
            invariant
                k <= self.services.len(),
                self.services@ == paid.services,
                self.served@ == paid.served,
                paid.services == start.services,
                paid.served == start.served,
                paid.wf(),
                self@ == pay_services_spec(paid, t, k as int),
                service_stables_base == opt_mul_spec(
                    Some(t.pool),
                    to_stable_precision(t.service_share),
                    STABLE_UNIT,
                ),
                service_flk_base == opt_mul_spec(t.emissions, t.service_share, FLK_UNIT),
            decreases self.services.len() - k,
        {
            let owner = self.services[k].owner;
            let totals = self.served[k];
            let part = proportion(totals.revenue, t.pool);
            let stables = opt_mul(service_stables_base, stable_precision(part), STABLE_UNIT);
            let flk = opt_mul(service_flk_base, part, FLK_UNIT);
            self.mint(&owner, Tokens::USDC, stables);
            self.mint(&owner, Tokens::FLK, flk);
            proof {
                lemma_pay_services_frame(paid, t, k as int + 1);
            }
            k += 1;
        }
    }
}

} // verus!
