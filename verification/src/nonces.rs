//! Nonces: every executed transaction uses up exactly one number of its
//! sender, and nothing else ever moves a nonce.

use crate::epoch::{next_epoch_spec, settle_nodes};
use crate::executor::{apply_method_spec, apply_transaction_spec, bump_nonce, sender_nonce};
use crate::frames::{lemma_find_node_same_keys, lemma_read_after_open, lemma_read_after_write};
use crate::hashing::Digest;
use crate::keys::{Address, NodeIndex, NodeKey};
use crate::rewards::{
    distribute_rewards_spec, mint_spec, pay_nodes_spec, pay_protocol_spec, pay_services_spec,
    reward_terms_spec, RewardTerms,
};
use crate::state::{account_slot, find_account, find_node, lemma_find_node, StateView};
use crate::tokens::{account_or_fresh, set_balance};
use crate::transaction::{TransactionSender, UpdateMethod, UpdateRequest};
use crate::types::{Account, Node, Tokens};
use vstd::prelude::*;

verus! {

/// Whether a transaction gets past the checks of its signature and its nonce,
/// so that its method is looked at.
pub open spec fn is_admitted(s: StateView, tx: UpdateRequest) -> bool {
    tx.signature_valid && (sender_nonce(s, tx.payload.sender) matches Some(n) && n < u64::MAX
        && tx.payload.nonce == n + 1)
}

/// Whether a sender that has a nonce in `s` has the same one in `after`.
pub open spec fn keeps_nonce(s: StateView, after: StateView, x: TransactionSender) -> bool {
    match sender_nonce(s, x) {
        Some(n) => sender_nonce(after, x) == Some(n),
        None => true,
    }
}

/// Whether the registry `b` has every node of `a` at its place, with its key
/// and its nonce.
pub open spec fn same_nodes(a: Seq<Node>, b: Seq<Node>) -> bool {
    &&& a.len() <= b.len()
    &&& forall|i: int|
        0 <= i < a.len() ==> (#[trigger] b[i]).public_key == a[i].public_key && b[i].nonce
            == a[i].nonce
}

/// A registry that has every node of another at its place finds them there.
pub proof fn lemma_same_nodes_find(a: Seq<Node>, b: Seq<Node>, key: NodeKey)
    requires
        same_nodes(a, b),
    ensures
        find_node(a, key) matches Some(i) ==> find_node(b, key) == Some(i) && b[i].nonce
            == a[i].nonce,
{
    lemma_find_node(a, key, 0);
    if let Some(i) = find_node(a, key) {
        assert forall|k: int| 0 <= k < i implies (#[trigger] b[k]).public_key != key by {
            assert(a[k].public_key != key);
        }
        crate::frames::lemma_find_node_is(b, key, i);
    }
}

/// Writing a balance moves no nonce.
pub proof fn lemma_write_keeps_nonce(
    accounts: Seq<Account>,
    a: Address,
    token: Tokens,
    value: u128,
    x: Address,
)
    ensures
        account_or_fresh(set_balance(accounts, a, token, value), x).nonce == account_or_fresh(
            accounts,
            x,
        ).nonce,
{
    lemma_read_after_write(accounts, a, token, value, x);
}

/// Issuing tokens moves no nonce.
pub proof fn lemma_mint_keeps_nonce(
    s: StateView,
    to: Address,
    token: Tokens,
    amount: Option<u128>,
    x: TransactionSender,
)
    ensures
        keeps_nonce(s, mint_spec(s, to, token, amount), x),
        mint_spec(s, to, token, amount).nodes == s.nodes,
{
    let after = mint_spec(s, to, token, amount);
    if after != s {
        if let TransactionSender::AccountOwner(addr) = x {
            let row = account_or_fresh(s.accounts, to);
            let held = crate::tokens::balance_of(row, token);
            lemma_write_keeps_nonce(s.accounts, to, token, (held + amount.unwrap()) as u128, addr);
        }
    }
}

/// Paying the nodes moves no nonce.
pub proof fn lemma_pay_nodes_keeps_nonce(
    s: StateView,
    t: RewardTerms,
    upto: int,
    x: TransactionSender,
)
    ensures
        keeps_nonce(s, pay_nodes_spec(s, t, upto), x),
        pay_nodes_spec(s, t, upto).nodes == s.nodes,
    decreases upto,
{
    if upto > 0 {
        lemma_pay_nodes_keeps_nonce(s, t, upto - 1, x);
        let before = pay_nodes_spec(s, t, upto - 1);
        let node = s.nodes[upto - 1];
        let stables = crate::rewards::node_stables_spec(t, node);
        let mid = mint_spec(before, node.owner, Tokens::USDC, stables);
        lemma_mint_keeps_nonce(before, node.owner, Tokens::USDC, stables, x);
        lemma_mint_keeps_nonce(mid, node.owner, Tokens::FLK, crate::rewards::node_flk_spec(t, node), x);
    }
}

/// Paying the builders of services moves no nonce.
pub proof fn lemma_pay_services_keeps_nonce(
    s: StateView,
    t: RewardTerms,
    upto: int,
    x: TransactionSender,
)
    ensures
        keeps_nonce(s, pay_services_spec(s, t, upto), x),
        pay_services_spec(s, t, upto).nodes == s.nodes,
    decreases upto,
{
    if upto > 0 {
        lemma_pay_services_keeps_nonce(s, t, upto - 1, x);
        let before = pay_services_spec(s, t, upto - 1);
        let owner = s.services[upto - 1].owner;
        let totals = s.served[upto - 1];
        let stables = crate::rewards::service_stables_spec(t, totals);
        let mid = mint_spec(before, owner, Tokens::USDC, stables);
        lemma_mint_keeps_nonce(before, owner, Tokens::USDC, stables, x);
        lemma_mint_keeps_nonce(mid, owner, Tokens::FLK, crate::rewards::service_flk_spec(t, totals), x);
    }
}

/// The change of the epoch moves no nonce.
pub proof fn lemma_next_epoch_keeps_nonce(s: StateView, now: u64, x: TransactionSender)
    ensures
        keeps_nonce(s, next_epoch_spec(s, now), x),
{
    let paid = distribute_rewards_spec(s);
    if s.reward_pool != 0 {
        let t = reward_terms_spec(s);
        let s1 = pay_nodes_spec(s, t, s.nodes.len() as int);
        lemma_pay_nodes_keeps_nonce(s, t, s.nodes.len() as int, x);
        let fund = s1.metadata.protocol_fund_address;
        let stables = crate::rewards::protocol_stables_spec(t);
        let mid = mint_spec(s1, fund, Tokens::USDC, stables);
        lemma_mint_keeps_nonce(s1, fund, Tokens::USDC, stables, x);
        lemma_mint_keeps_nonce(mid, fund, Tokens::FLK, crate::rewards::protocol_flk_spec(t), x);
        let s2 = pay_protocol_spec(s1, t);
        lemma_pay_services_keeps_nonce(s2, t, s.services.len() as int, x);
    }
    assert(keeps_nonce(s, paid, x));
    assert(paid.nodes == s.nodes);
    let nodes = settle_nodes(paid.nodes, paid.reports);
    if let TransactionSender::NodeMain(k) = x {
        assert(same_nodes(paid.nodes, nodes));
        lemma_same_nodes_find(paid.nodes, nodes, k);
    }
}

/// The rule of a method moves no nonce.
pub proof fn lemma_method_keeps_nonce(
    s: StateView,
    sender: TransactionSender,
    method: UpdateMethod,
    now: u64,
    x: TransactionSender,
)
    ensures
        keeps_nonce(s, apply_method_spec(s, sender, method, now).0, x),
{
    let (after, r) = apply_method_spec(s, sender, method, now);
    if after != s {
        match x {
            TransactionSender::AccountOwner(addr) => {
                lemma_method_keeps_account_nonce(s, sender, method, now, addr);
            },
            TransactionSender::NodeMain(k) => {
                lemma_method_keeps_node_nonce(s, sender, method, now, k);
            },
        }
    }
}

/// The rule of a method moves the nonce of no account.
pub proof fn lemma_method_keeps_account_nonce(
    s: StateView,
    sender: TransactionSender,
    method: UpdateMethod,
    now: u64,
    x: Address,
)
    ensures
        account_or_fresh(apply_method_spec(s, sender, method, now).0.accounts, x).nonce
            == account_or_fresh(s.accounts, x).nonce,
{
    let (after, r) = apply_method_spec(s, sender, method, now);
    match sender {
        TransactionSender::AccountOwner(a) => match method {
            UpdateMethod::Deposit { proof, token, amount } => {
                let held = crate::tokens::balance_of(account_or_fresh(s.accounts, a), token);
                lemma_write_keeps_nonce(s.accounts, a, token, (held + amount) as u128, x);
            },
            UpdateMethod::Withdraw { amount, token, receiving_address } => {
                let held = crate::tokens::balance_of(account_or_fresh(s.accounts, a), token);
                lemma_write_keeps_nonce(s.accounts, a, token, (held - amount) as u128, x);
            },
            UpdateMethod::Transfer { amount, token, to } => {
                let held = crate::tokens::balance_of(account_or_fresh(s.accounts, a), token);
                let target = crate::tokens::balance_of(account_or_fresh(s.accounts, to), token);
                let debited = set_balance(s.accounts, a, token, (held - amount) as u128);
                lemma_write_keeps_nonce(s.accounts, a, token, (held - amount) as u128, x);
                lemma_write_keeps_nonce(debited, to, token, (target + amount) as u128, x);
            },
            UpdateMethod::Stake {
                amount,
                node_public_key,
                consensus_key,
                node_domain,
                worker_public_key,
                worker_domain,
                ports,
            } => {
                let held = account_or_fresh(s.accounts, a).flk_balance;
                lemma_write_keeps_nonce(s.accounts, a, Tokens::FLK, (held - amount) as u128, x);
            },
            UpdateMethod::WithdrawUnstaked { node, recipient } => {
                lemma_find_node(s.nodes, node, 0);
                if let Some(i) = find_node(s.nodes, node) {
                    let to = match recipient {
                        Some(t) => t,
                        None => a,
                    };
                    let held = account_or_fresh(s.accounts, to).flk_balance;
                    lemma_write_keeps_nonce(
                        s.accounts,
                        to,
                        Tokens::FLK,
                        (held + s.nodes[i].locked) as u128,
                        x,
                    );
                }
            },
            _ => {},
        },
        TransactionSender::NodeMain(k) => {
            lemma_find_node(s.nodes, k, 0);
            match find_node(s.nodes, k) {
                None => {},
                Some(i) => match method {
                    UpdateMethod::ChangeEpoch { epoch } => {
                        let signalled = s.signalled.push(i as NodeIndex);
                        lemma_next_epoch_keeps_nonce(
                            StateView { signalled, ..s },
                            now,
                            TransactionSender::AccountOwner(x),
                        );
                    },
                    _ => {},
                },
            }
        },
    }
}

/// The rule of a method moves the nonce of no node, and leaves every node at
/// its place in the registry.
pub proof fn lemma_method_keeps_node_nonce(
    s: StateView,
    sender: TransactionSender,
    method: UpdateMethod,
    now: u64,
    x: NodeKey,
)
    ensures
        keeps_nonce(s, apply_method_spec(s, sender, method, now).0, TransactionSender::NodeMain(x)),
{
    let (after, r) = apply_method_spec(s, sender, method, now);
    lemma_find_node(s.nodes, x, 0);
    match sender {
        TransactionSender::AccountOwner(a) => match method {
            UpdateMethod::Stake {
                amount,
                node_public_key,
                consensus_key,
                node_domain,
                worker_public_key,
                worker_domain,
                ports,
            } => {
                lemma_find_node(s.nodes, node_public_key, 0);
                if after != s {
                    assert(same_nodes(s.nodes, after.nodes));
                    lemma_same_nodes_find(s.nodes, after.nodes, x);
                }
            },
            UpdateMethod::StakeLock { node, locked_for } => {
                lemma_find_node(s.nodes, node, 0);
                assert(same_nodes(s.nodes, after.nodes));
                lemma_same_nodes_find(s.nodes, after.nodes, x);
            },
            UpdateMethod::Unstake { amount, node } => {
                lemma_find_node(s.nodes, node, 0);
                assert(same_nodes(s.nodes, after.nodes));
                lemma_same_nodes_find(s.nodes, after.nodes, x);
            },
            UpdateMethod::WithdrawUnstaked { node, recipient } => {
                lemma_find_node(s.nodes, node, 0);
                assert(same_nodes(s.nodes, after.nodes));
                lemma_same_nodes_find(s.nodes, after.nodes, x);
            },
            _ => {},
        },
        TransactionSender::NodeMain(k) => {
            lemma_find_node(s.nodes, k, 0);
            match find_node(s.nodes, k) {
                None => {},
                Some(i) => match method {
                    UpdateMethod::ChangeEpoch { epoch } => {
                        let signalled = s.signalled.push(i as NodeIndex);
                        lemma_next_epoch_keeps_nonce(
                            StateView { signalled, ..s },
                            now,
                            TransactionSender::NodeMain(x),
                        );
                    },
                    UpdateMethod::SubmitDeliveryAcknowledgmentAggregation {
                        commodity,
                        service_id,
                        proofs,
                        metadata,
                    } => {
                        assert(same_nodes(s.nodes, after.nodes));
                        lemma_same_nodes_find(s.nodes, after.nodes, x);
                    },
                    UpdateMethod::OptIn {  } => {
                        assert(same_nodes(s.nodes, after.nodes));
                        lemma_same_nodes_find(s.nodes, after.nodes, x);
                    },
                    UpdateMethod::OptOut {  } => {
                        assert(same_nodes(s.nodes, after.nodes));
                        lemma_same_nodes_find(s.nodes, after.nodes, x);
                    },
                    _ => {},
                },
            }
        },
    }
}

/// Counting a transaction adds one to the nonce of its sender and moves no
/// other nonce.
pub proof fn lemma_bump_nonce(s: StateView, sender: TransactionSender, x: TransactionSender)
    requires
        sender_nonce(s, sender) matches Some(n) && n < u64::MAX,
    ensures
        x == sender ==> sender_nonce(bump_nonce(s, sender), x) == Some(
            (sender_nonce(s, sender).unwrap() + 1) as u64,
        ),
        x != sender ==> keeps_nonce(s, bump_nonce(s, sender), x),
{
    let after = bump_nonce(s, sender);
    match sender {
        TransactionSender::AccountOwner(a) => {
            if let TransactionSender::AccountOwner(b) = x {
                let (accounts, i) = account_slot(s.accounts, a);
                lemma_read_after_open(s.accounts, a, b);
                lemma_read_after_open(s.accounts, a, a);
                crate::frames::lemma_find_account_same_addresses(accounts, after.accounts, b);
                crate::state::lemma_find_account(accounts, b, 0);
                crate::state::lemma_find_account(accounts, a, 0);
                assert(accounts[i].address == a);
                if b != a {
                    if let Some(j) = find_account(accounts, b) {
                        assert(j != i);
                        assert(after.accounts[j] == accounts[j]);
                    }
                }
            }
        },
        TransactionSender::NodeMain(k) => {
            lemma_find_node(s.nodes, k, 0);
            if let TransactionSender::NodeMain(j) = x {
                lemma_find_node(s.nodes, j, 0);
                lemma_find_node_same_keys(s.nodes, after.nodes, j);
            }
        },
    }
}

/// Nonce monotonicity. A transaction that is admitted leaves its sender with
/// the nonce of the transaction, one more than before, whether its method
/// succeeds or reverts; a transaction that is not admitted changes nothing.
/// No transaction moves the nonce of anyone but its sender.
pub proof fn lemma_nonce_monotonic(
    s: StateView,
    tx: UpdateRequest,
    hash: Digest,
    now: u64,
    x: TransactionSender,
)
    ensures
        ({
            let (after, response) = apply_transaction_spec(s, tx, hash, now);
            &&& !is_admitted(s, tx) ==> after == s
            &&& is_admitted(s, tx) && x == tx.payload.sender ==> sender_nonce(after, x) == Some(
                tx.payload.nonce,
            ) && sender_nonce(s, x) == Some((tx.payload.nonce - 1) as u64)
            &&& x != tx.payload.sender ==> keeps_nonce(s, after, x)
        }),
{
    if is_admitted(s, tx) {
        let sender = tx.payload.sender;
        let counted = bump_nonce(s, sender);
        lemma_bump_nonce(s, sender, x);
        lemma_method_keeps_nonce(counted, sender, tx.payload.method, now, x);
        let (done, response) = apply_method_spec(counted, sender, tx.payload.method, now);
        let after = StateView { executed: done.executed.push(hash), ..done };
        assert(apply_transaction_spec(s, tx, hash, now) == (after, response));
        assert(sender_nonce(after, x) == sender_nonce(done, x));
    }
}

} // verus!
