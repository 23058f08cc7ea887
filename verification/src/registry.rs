//! The node registry: an index, once given out, stays with its node.

use crate::epoch::next_epoch_spec;
use crate::executor::{apply_method_spec, apply_transaction_spec, bump_nonce};
use crate::hashing::Digest;
use crate::keys::{Address, NodeIndex};
use crate::nonces::is_admitted;
use crate::rewards::{
    distribute_rewards_spec, lemma_distribute_frame, mint_spec, pay_nodes_spec,
    pay_protocol_spec, pay_services_spec, reward_terms_spec, RewardTerms,
};
use crate::state::{
    account_slot, find_account, find_node, lemma_find_account, lemma_find_node, StateView,
    MAX_NODES,
};
use crate::tokens::{account_or_fresh, balance_of, set_balance};
use crate::transaction::{TransactionSender, UpdateMethod, UpdateRequest};
use crate::types::{Account, Node, Tokens};
use vstd::prelude::*;

verus! {

/// Whether no two nodes of a registry have the same key.
pub open spec fn distinct_keys(nodes: Seq<Node>) -> bool {
    forall|i: int, j: int|
        0 <= i < j < nodes.len() ==> (#[trigger] nodes[i]).public_key != (
        #[trigger] nodes[j]).public_key
}

/// Whether the registry `after` has every node of `before` at its place,
/// under its key.
pub open spec fn keeps_indices(before: Seq<Node>, after: Seq<Node>) -> bool {
    &&& before.len() <= after.len()
    &&& forall|i: int|
        0 <= i < before.len() ==> (#[trigger] after[i]).public_key == before[i].public_key
}

/// The change of the epoch leaves every node at its place, under its key.
pub proof fn lemma_next_epoch_keeps_indices(s: StateView, now: u64)
    ensures
        keeps_indices(s.nodes, next_epoch_spec(s, now).nodes),
        next_epoch_spec(s, now).nodes.len() == s.nodes.len(),
{
    lemma_distribute_frame(s);
}

/// The rule of a method leaves every node at its place, under its key, and
/// gives a node that is new a key that no other node has.
pub proof fn lemma_method_keeps_indices(
    s: StateView,
    sender: TransactionSender,
    method: UpdateMethod,
    now: u64,
)
    ensures
        keeps_indices(s.nodes, apply_method_spec(s, sender, method, now).0.nodes),
        distinct_keys(s.nodes) ==> distinct_keys(apply_method_spec(s, sender, method, now).0.nodes),
        s.nodes.len() <= MAX_NODES ==> apply_method_spec(s, sender, method, now).0.nodes.len()
            <= MAX_NODES,
{
    let after = apply_method_spec(s, sender, method, now).0;
    match sender {
        TransactionSender::AccountOwner(a) => match method {
            UpdateMethod::Stake {
                amount,
                node_public_key,
                consensus_key,
                node_domain,
                worker_public_key,
                worker_domain,
                ports,
            } => {
                lemma_find_node(s.nodes, node_public_key, 0);
            },
            UpdateMethod::StakeLock { node, locked_for } => {
                lemma_find_node(s.nodes, node, 0);
            },
            UpdateMethod::Unstake { amount, node } => {
                lemma_find_node(s.nodes, node, 0);
            },
            UpdateMethod::WithdrawUnstaked { node, recipient } => {
                lemma_find_node(s.nodes, node, 0);
            },
            _ => {},
        },
        TransactionSender::NodeMain(k) => {
            lemma_find_node(s.nodes, k, 0);
            if let Some(i) = find_node(s.nodes, k) {
                if let UpdateMethod::ChangeEpoch { epoch } = method {
                    let signalled = s.signalled.push(i as NodeIndex);
                    lemma_next_epoch_keeps_indices(StateView { signalled, ..s }, now);
                }
            }
        },
    }
    if distinct_keys(s.nodes) {
        assert forall|i: int, j: int| 0 <= i < j < after.nodes.len() implies (
        #[trigger] after.nodes[i]).public_key != (#[trigger] after.nodes[j]).public_key by {
            if j < s.nodes.len() {
                assert(s.nodes[i].public_key != s.nodes[j].public_key);
            }
        }
    }
}

/// Indices are permanent. Whatever a transaction does, every node stays at
/// its index under its key, so that no index is given out twice; where no
/// two nodes had the same key before, no two have the same key after; and
/// the registry never outgrows the indices.
pub proof fn lemma_indices_are_permanent(s: StateView, tx: UpdateRequest, hash: Digest, now: u64)
    ensures
        keeps_indices(s.nodes, apply_transaction_spec(s, tx, hash, now).0.nodes),
        distinct_keys(s.nodes) ==> distinct_keys(apply_transaction_spec(s, tx, hash, now).0.nodes),
        s.nodes.len() <= MAX_NODES ==> apply_transaction_spec(s, tx, hash, now).0.nodes.len()
            <= MAX_NODES,
{
    if is_admitted(s, tx) {
        let sender = tx.payload.sender;
        let counted = bump_nonce(s, sender);
        if let TransactionSender::NodeMain(k) = sender {
            lemma_find_node(s.nodes, k, 0);
        }
        assert(keeps_indices(s.nodes, counted.nodes));
        if distinct_keys(s.nodes) {
            assert forall|i: int, j: int| 0 <= i < j < counted.nodes.len() implies (
            #[trigger] counted.nodes[i]).public_key != (#[trigger] counted.nodes[j]).public_key by {
                assert(s.nodes[i].public_key != s.nodes[j].public_key);
            }
        }
        lemma_method_keeps_indices(counted, sender, tx.payload.method, now);
        let done = apply_method_spec(counted, sender, tx.payload.method, now).0;
        assert(apply_transaction_spec(s, tx, hash, now).0.nodes == done.nodes);
        assert forall|i: int| 0 <= i < s.nodes.len() implies (#[trigger] done.nodes[i]).public_key
            == s.nodes[i].public_key by {
            assert(counted.nodes[i].public_key == s.nodes[i].public_key);
        }
    }
}

/// Whether no two accounts have the same address.
pub open spec fn distinct_addresses(accounts: Seq<Account>) -> bool {
    forall|i: int, j: int|
        0 <= i < j < accounts.len() ==> (#[trigger] accounts[i]).address != (
        #[trigger] accounts[j]).address
}

/// Whether the accounts `after` have every row of `before` at its place,
/// under its address, and no address twice if `before` had none twice.
pub open spec fn keeps_accounts(before: Seq<Account>, after: Seq<Account>) -> bool {
    &&& before.len() <= after.len()
    &&& forall|i: int|
        0 <= i < before.len() ==> (#[trigger] after[i]).address == before[i].address
    &&& distinct_addresses(before) ==> distinct_addresses(after)
}

/// What keeps the accounts twice in a row keeps them.
pub proof fn lemma_keeps_accounts_twice(a: Seq<Account>, b: Seq<Account>, c: Seq<Account>)
    requires
        keeps_accounts(a, b),
        keeps_accounts(b, c),
    ensures
        keeps_accounts(a, c),
{
    assert forall|i: int| 0 <= i < a.len() implies (#[trigger] c[i]).address == a[i].address by {
        assert(b[i].address == a[i].address);
    }
}

/// Opening the row of an account keeps the accounts: a row that is added has
/// an address that no other row has.
pub proof fn lemma_open_keeps_accounts(accounts: Seq<Account>, a: Address)
    ensures
        keeps_accounts(accounts, account_slot(accounts, a).0),
        0 <= account_slot(accounts, a).1 < account_slot(accounts, a).0.len(),
        account_slot(accounts, a).0[account_slot(accounts, a).1].address == a,
{
    lemma_find_account(accounts, a, 0);
    let after = account_slot(accounts, a).0;
    if find_account(accounts, a) is None && distinct_addresses(accounts) {
        assert forall|i: int, j: int| 0 <= i < j < after.len() implies (
        #[trigger] after[i]).address != (#[trigger] after[j]).address by {
            if j < accounts.len() {
                assert(accounts[i].address != accounts[j].address);
            } else {
                assert(accounts[i].address != a);
            }
        }
    }
}

/// Writing a balance keeps the accounts.
pub proof fn lemma_write_keeps_accounts(
    accounts: Seq<Account>,
    a: Address,
    token: Tokens,
    value: u128,
)
    ensures
        keeps_accounts(accounts, set_balance(accounts, a, token, value)),
{
    lemma_open_keeps_accounts(accounts, a);
    let (with_row, i) = account_slot(accounts, a);
    let after = set_balance(accounts, a, token, value);
    assert forall|k: int| 0 <= k < with_row.len() implies (#[trigger] after[k]).address
        == with_row[k].address by {}
    if distinct_addresses(with_row) {
        assert forall|x: int, y: int| 0 <= x < y < after.len() implies (
        #[trigger] after[x]).address != (#[trigger] after[y]).address by {
            assert(with_row[x].address != with_row[y].address);
        }
    }
    lemma_keeps_accounts_twice(accounts, with_row, after);
}

/// Issuing tokens keeps the accounts.
pub proof fn lemma_mint_keeps_accounts(s: StateView, to: Address, token: Tokens, amount: Option<u128>)
    ensures
        keeps_accounts(s.accounts, mint_spec(s, to, token, amount).accounts),
{
    let after = mint_spec(s, to, token, amount);
    if after != s {
        let held = balance_of(account_or_fresh(s.accounts, to), token);
        lemma_write_keeps_accounts(s.accounts, to, token, (held + amount.unwrap()) as u128);
    }
}

/// Issuing tokens twice keeps the accounts.
proof fn lemma_mint_twice_keeps_accounts(
    s: StateView,
    to: Address,
    first: Option<u128>,
    second: Option<u128>,
)
    ensures
        keeps_accounts(
            s.accounts,
            mint_spec(mint_spec(s, to, Tokens::USDC, first), to, Tokens::FLK, second).accounts,
        ),
{
    let mid = mint_spec(s, to, Tokens::USDC, first);
    lemma_mint_keeps_accounts(s, to, Tokens::USDC, first);
    lemma_mint_keeps_accounts(mid, to, Tokens::FLK, second);
    lemma_keeps_accounts_twice(
        s.accounts,
        mid.accounts,
        mint_spec(mid, to, Tokens::FLK, second).accounts,
    );
}

/// Paying the nodes keeps the accounts.
pub proof fn lemma_pay_nodes_keeps_accounts(s: StateView, t: RewardTerms, upto: int)
    ensures
        keeps_accounts(s.accounts, pay_nodes_spec(s, t, upto).accounts),
    decreases upto,
{
    if upto > 0 {
        lemma_pay_nodes_keeps_accounts(s, t, upto - 1);
        let before = pay_nodes_spec(s, t, upto - 1);
        let node = s.nodes[upto - 1];
        lemma_mint_twice_keeps_accounts(
            before,
            node.owner,
            crate::rewards::node_stables_spec(t, node),
            crate::rewards::node_flk_spec(t, node),
        );
        lemma_keeps_accounts_twice(
            s.accounts,
            before.accounts,
            pay_nodes_spec(s, t, upto).accounts,
        );
    }
}

/// Paying the builders of services keeps the accounts.
pub proof fn lemma_pay_services_keeps_accounts(s: StateView, t: RewardTerms, upto: int)
    ensures
        keeps_accounts(s.accounts, pay_services_spec(s, t, upto).accounts),
    decreases upto,
{
    if upto > 0 {
        lemma_pay_services_keeps_accounts(s, t, upto - 1);
        let before = pay_services_spec(s, t, upto - 1);
        let totals = s.served[upto - 1];
        lemma_mint_twice_keeps_accounts(
            before,
            s.services[upto - 1].owner,
            crate::rewards::service_stables_spec(t, totals),
            crate::rewards::service_flk_spec(t, totals),
        );
        lemma_keeps_accounts_twice(
            s.accounts,
            before.accounts,
            pay_services_spec(s, t, upto).accounts,
        );
    }
}

/// The change of the epoch keeps the accounts.
pub proof fn lemma_next_epoch_keeps_accounts(s: StateView, now: u64)
    ensures
        keeps_accounts(s.accounts, next_epoch_spec(s, now).accounts),
{
    if s.reward_pool != 0 {
        let t = reward_terms_spec(s);
        let s1 = pay_nodes_spec(s, t, s.nodes.len() as int);
        lemma_pay_nodes_keeps_accounts(s, t, s.nodes.len() as int);
        let s2 = pay_protocol_spec(s1, t);
        lemma_mint_twice_keeps_accounts(
            s1,
            s1.metadata.protocol_fund_address,
            crate::rewards::protocol_stables_spec(t),
            crate::rewards::protocol_flk_spec(t),
        );
        lemma_keeps_accounts_twice(s.accounts, s1.accounts, s2.accounts);
        let s3 = pay_services_spec(s2, t, s.services.len() as int);
        lemma_pay_services_keeps_accounts(s2, t, s.services.len() as int);
        lemma_keeps_accounts_twice(s.accounts, s2.accounts, s3.accounts);
        assert(distribute_rewards_spec(s) == s3);
    }
}

/// The rule of a method keeps the accounts.
pub proof fn lemma_method_keeps_accounts(
    s: StateView,
    sender: TransactionSender,
    method: UpdateMethod,
    now: u64,
)
    ensures
        keeps_accounts(s.accounts, apply_method_spec(s, sender, method, now).0.accounts),
{
    let after = apply_method_spec(s, sender, method, now).0;
    match sender {
        TransactionSender::AccountOwner(a) => match method {
            UpdateMethod::Deposit { proof, token, amount } => {
                let held = balance_of(account_or_fresh(s.accounts, a), token);
                lemma_write_keeps_accounts(s.accounts, a, token, (held + amount) as u128);
            },
            UpdateMethod::Withdraw { amount, token, receiving_address } => {
                let held = balance_of(account_or_fresh(s.accounts, a), token);
                lemma_write_keeps_accounts(s.accounts, a, token, (held - amount) as u128);
            },
            UpdateMethod::Transfer { amount, token, to } => {
                let held = balance_of(account_or_fresh(s.accounts, a), token);
                let target = balance_of(account_or_fresh(s.accounts, to), token);
                let debited = set_balance(s.accounts, a, token, (held - amount) as u128);
                lemma_write_keeps_accounts(s.accounts, a, token, (held - amount) as u128);
                lemma_write_keeps_accounts(debited, to, token, (target + amount) as u128);
                lemma_keeps_accounts_twice(
                    s.accounts,
                    debited,
                    set_balance(debited, to, token, (target + amount) as u128),
                );
            },
            UpdateMethod::Stake {
                amount,
                node_public_key,
                consensus_key,
                node_domain,
                worker_public_key,
                worker_domain,
                ports,
            } => {
                let held = account_or_fresh(s.accounts, a).flk_balance;
                lemma_write_keeps_accounts(s.accounts, a, Tokens::FLK, (held - amount) as u128);
            },
            UpdateMethod::WithdrawUnstaked { node, recipient } => {
                lemma_find_node(s.nodes, node, 0);
                if let Some(i) = find_node(s.nodes, node) {
                    let to = match recipient {
                        Some(t) => t,
                        None => a,
                    };
                    let held = account_or_fresh(s.accounts, to).flk_balance;
                    lemma_write_keeps_accounts(
                        s.accounts,
                        to,
                        Tokens::FLK,
                        (held + s.nodes[i].locked) as u128,
                    );
                }
            },
            _ => {},
        },
        TransactionSender::NodeMain(k) => {
            lemma_find_node(s.nodes, k, 0);
            if let Some(i) = find_node(s.nodes, k) {
                if let UpdateMethod::ChangeEpoch { epoch } = method {
                    let signalled = s.signalled.push(i as NodeIndex);
                    lemma_next_epoch_keeps_accounts(StateView { signalled, ..s }, now);
                }
            }
        },
    }
}

/// The first ledger of a genesis that makes one has no key and no address
/// twice.
pub proof fn lemma_genesis_is_distinct(g: crate::genesis::GenesisView)
    requires
        g.failure() is None,
    ensures
        distinct_keys(g.state().nodes),
        distinct_addresses(g.state().accounts),
{
    let s = g.state();
    assert forall|i: int, j: int| 0 <= i < j < s.nodes.len() implies (
    #[trigger] s.nodes[i]).public_key != (#[trigger] s.nodes[j]).public_key by {
        assert(g.node_info[i].primary_public_key != g.node_info[j].primary_public_key);
    }
    assert forall|i: int, j: int| 0 <= i < j < s.accounts.len() implies (
    #[trigger] s.accounts[i]).address != (#[trigger] s.accounts[j]).address by {
        assert(g.account[i].address != g.account[j].address);
    }
}

/// Accounts are permanent and their addresses stay distinct. Whatever a
/// transaction does, every account stays at its place under its address, and
/// where no two accounts had the same address before, no two have the same
/// address after.
pub proof fn lemma_addresses_stay_distinct(s: StateView, tx: UpdateRequest, hash: Digest, now: u64)
    ensures
        keeps_accounts(s.accounts, apply_transaction_spec(s, tx, hash, now).0.accounts),
{
    if is_admitted(s, tx) {
        let sender = tx.payload.sender;
        let counted = bump_nonce(s, sender);
        if let TransactionSender::AccountOwner(a) = sender {
            lemma_open_keeps_accounts(s.accounts, a);
            let (with_row, i) = account_slot(s.accounts, a);
            assert forall|k: int| 0 <= k < with_row.len() implies (
            #[trigger] counted.accounts[k]).address == with_row[k].address by {}
            if distinct_addresses(with_row) {
                assert forall|x: int, y: int| 0 <= x < y < counted.accounts.len() implies (
                #[trigger] counted.accounts[x]).address != (
                #[trigger] counted.accounts[y]).address by {
                    assert(with_row[x].address != with_row[y].address);
                }
            }
            lemma_keeps_accounts_twice(s.accounts, with_row, counted.accounts);
        }
        lemma_method_keeps_accounts(counted, sender, tx.payload.method, now);
        let done = apply_method_spec(counted, sender, tx.payload.method, now).0;
        assert(apply_transaction_spec(s, tx, hash, now).0.accounts == done.accounts);
        lemma_keeps_accounts_twice(s.accounts, counted.accounts, done.accounts);
    }
}

} // verus!
