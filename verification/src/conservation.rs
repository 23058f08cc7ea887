//! Conservation of FLK: what the ledger holds moves only with what is
//! issued, put in or taken out.

use crate::epoch::{
    change_epoch_spec, next_epoch_spec, opt_spec, settle_nodes, submit_delivery_spec,
};
use crate::executor::{apply_method_spec, apply_transaction_spec, bump_nonce};
use crate::frames::{lemma_read_after_open, lemma_read_after_write, lemma_write_total};
use crate::hashing::Digest;
use crate::keys::{Address, NodeIndex, NodeKey};
use crate::rewards::{
    distribute_rewards_spec, mint_spec, pay_nodes_spec, pay_protocol_spec, pay_services_spec,
    reward_terms_spec, RewardTerms,
};
use crate::staking::{
    stake_lock_spec, stake_spec, unstake_spec, withdraw_unstaked_spec, NodeDetails,
};
use crate::state::{
    account_slot, find_account, find_node, flk_held, flk_locked, flk_staked, fresh_account,
    lemma_find_node, StateView,
};
use crate::sums::{lemma_sum_push, lemma_sum_same, lemma_sum_update};
use crate::tokens::{account_or_fresh, deposit_spec, transfer_spec, withdraw_spec};
use crate::transaction::{TransactionResponse, TransactionSender, UpdateMethod, UpdateRequest};
use crate::types::{Participation, Tokens};
use vstd::prelude::*;

verus! {

/// The FLK that was issued and is not in the ledger: the supply less what
/// accounts hold and what is staked or locked on nodes.
pub open spec fn outside(s: StateView) -> int {
    s.metadata.supply - s.circulating()
}

/// The FLK that a transaction brings into the ledger from outside: the amount
/// of a deposit of FLK that succeeds.
pub open spec fn flk_put_in(tx: UpdateRequest, response: TransactionResponse) -> int {
    match (tx.payload.sender, tx.payload.method, response) {
        (
            TransactionSender::AccountOwner(_),
            UpdateMethod::Deposit { proof, token: Tokens::FLK, amount },
            TransactionResponse::Success(_),
        ) => amount as int,
        _ => 0,
    }
}

/// The FLK that a transaction takes out of the ledger: the amount of a
/// withdrawal of FLK that succeeds.
pub open spec fn flk_taken_out(tx: UpdateRequest, response: TransactionResponse) -> int {
    match (tx.payload.sender, tx.payload.method, response) {
        (
            TransactionSender::AccountOwner(_),
            UpdateMethod::Withdraw { amount, token: Tokens::FLK, receiving_address },
            TransactionResponse::Success(_),
        ) => amount as int,
        _ => 0,
    }
}

/// A deposit of FLK that succeeds adds its amount to the balances; any other
/// deposit adds nothing. The supply stays.
pub proof fn lemma_deposit(s: StateView, a: Address, token: Tokens, amount: u128)
    ensures
        ({
            let (after, r) = deposit_spec(s, a, token, amount);
            &&& after.total_balances() == s.total_balances() + (if r is Success && token
                == Tokens::FLK {
                amount as int
            } else {
                0
            })
            &&& after.nodes == s.nodes
            &&& after.metadata == s.metadata
        }),
{
    let held = crate::tokens::balance_of(account_or_fresh(s.accounts, a), token);
    if held + amount <= u128::MAX {
        lemma_write_total(s.accounts, a, token, (held + amount) as u128);
    }
}

/// A withdrawal of FLK that succeeds takes its amount off the balances.
pub proof fn lemma_withdraw(s: StateView, a: Address, amount: u128, token: Tokens, to: Address)
    ensures
        ({
            let (after, r) = withdraw_spec(s, a, amount, token, to);
            &&& after.total_balances() == s.total_balances() - (if r is Success && token
                == Tokens::FLK {
                amount as int
            } else {
                0
            })
            &&& after.nodes == s.nodes
            &&& after.metadata == s.metadata
        }),
{
    let held = crate::tokens::balance_of(account_or_fresh(s.accounts, a), token);
    if held >= amount {
        lemma_write_total(s.accounts, a, token, (held - amount) as u128);
    }
}

/// A transfer leaves the sum of the balances as it was.
pub proof fn lemma_transfer(s: StateView, a: Address, amount: u128, token: Tokens, to: Address)
    ensures
        ({
            let (after, r) = transfer_spec(s, a, amount, token, to);
            &&& after.total_balances() == s.total_balances()
            &&& after.nodes == s.nodes
            &&& after.metadata == s.metadata
        }),
{
    let held = crate::tokens::balance_of(account_or_fresh(s.accounts, a), token);
    let target = crate::tokens::balance_of(account_or_fresh(s.accounts, to), token);
    if to != a && held >= amount && target + amount <= u128::MAX {
        let debited = crate::tokens::set_balance(s.accounts, a, token, (held - amount) as u128);
        lemma_write_total(s.accounts, a, token, (held - amount) as u128);
        lemma_read_after_write(s.accounts, a, token, (held - amount) as u128, to);
        lemma_write_total(debited, to, token, (target + amount) as u128);
    }
}

/// A stake moves its amount from the balances to the stakes.
pub proof fn lemma_stake(s: StateView, a: Address, amount: u128, key: NodeKey, d: NodeDetails)
    ensures
        ({
            let (after, r) = stake_spec(s, a, amount, key, d);
            &&& after.circulating() == s.circulating()
            &&& after.metadata == s.metadata
        }),
{
    let (after, r) = stake_spec(s, a, amount, key, d);
    if r is Success {
        let held = account_or_fresh(s.accounts, a).flk_balance;
        lemma_write_total(s.accounts, a, Tokens::FLK, (held - amount) as u128);
        lemma_find_node(s.nodes, key, 0);
        match find_node(s.nodes, key) {
            Some(i) => {
                lemma_sum_update(s.nodes, flk_staked(), i, after.nodes[i]);
                lemma_sum_update(s.nodes, flk_locked(), i, after.nodes[i]);
            },
            None => {
                lemma_sum_push(s.nodes, flk_staked(), after.nodes[s.nodes.len() as int]);
                lemma_sum_push(s.nodes, flk_locked(), after.nodes[s.nodes.len() as int]);
            },
        }
    }
}

/// An unstake moves its amount from the stakes to the locked tokens.
pub proof fn lemma_unstake(s: StateView, a: Address, amount: u128, key: NodeKey)
    ensures
        ({
            let (after, r) = unstake_spec(s, a, amount, key);
            &&& after.circulating() == s.circulating()
            &&& after.metadata == s.metadata
        }),
{
    let (after, r) = unstake_spec(s, a, amount, key);
    if r is Success {
        lemma_find_node(s.nodes, key, 0);
        let i = find_node(s.nodes, key).unwrap();
        lemma_sum_update(s.nodes, flk_staked(), i, after.nodes[i]);
        lemma_sum_update(s.nodes, flk_locked(), i, after.nodes[i]);
    }
}

/// A lock of a stake moves no FLK.
pub proof fn lemma_stake_lock(s: StateView, a: Address, key: NodeKey, locked_for: u64)
    ensures
        ({
            let (after, r) = stake_lock_spec(s, a, key, locked_for);
            &&& after.circulating() == s.circulating()
            &&& after.metadata == s.metadata
        }),
{
    let (after, r) = stake_lock_spec(s, a, key, locked_for);
    if r is Success {
        lemma_find_node(s.nodes, key, 0);
        let i = find_node(s.nodes, key).unwrap();
        lemma_sum_update(s.nodes, flk_staked(), i, after.nodes[i]);
        lemma_sum_update(s.nodes, flk_locked(), i, after.nodes[i]);
    }
}

/// A withdrawal of unstaked tokens moves them from the locked tokens to the
/// balances.
pub proof fn lemma_withdraw_unstaked(s: StateView, a: Address, key: NodeKey, to: Option<Address>)
    ensures
        ({
            let (after, r) = withdraw_unstaked_spec(s, a, key, to);
            &&& after.circulating() == s.circulating()
            &&& after.metadata == s.metadata
        }),
{
    let (after, r) = withdraw_unstaked_spec(s, a, key, to);
    if r is Success {
        lemma_find_node(s.nodes, key, 0);
        let i = find_node(s.nodes, key).unwrap();
        let target = match to {
            Some(t) => t,
            None => a,
        };
        let held = account_or_fresh(s.accounts, target).flk_balance;
        lemma_write_total(s.accounts, target, Tokens::FLK, (held + s.nodes[i].locked) as u128);
        lemma_sum_update(s.nodes, flk_staked(), i, after.nodes[i]);
        lemma_sum_update(s.nodes, flk_locked(), i, after.nodes[i]);
    }
}

/// Issuing tokens adds as much FLK to the balances as to the supply.
pub proof fn lemma_mint(s: StateView, to: Address, token: Tokens, amount: Option<u128>)
    ensures
        outside(mint_spec(s, to, token, amount)) == outside(s),
        mint_spec(s, to, token, amount).nodes == s.nodes,
{
    let after = mint_spec(s, to, token, amount);
    if after != s {
        let a = amount.unwrap();
        let row = account_or_fresh(s.accounts, to);
        let held = crate::tokens::balance_of(row, token);
        lemma_write_total(s.accounts, to, token, (held + a) as u128);
    }
}

/// Paying the nodes issues as much FLK as it credits.
pub proof fn lemma_pay_nodes(s: StateView, t: RewardTerms, upto: int)
    ensures
        outside(pay_nodes_spec(s, t, upto)) == outside(s),
        pay_nodes_spec(s, t, upto).nodes == s.nodes,
    decreases upto,
{
    if upto > 0 {
        lemma_pay_nodes(s, t, upto - 1);
        let before = pay_nodes_spec(s, t, upto - 1);
        let node = s.nodes[upto - 1];
        let stables = crate::rewards::node_stables_spec(t, node);
        lemma_mint(before, node.owner, Tokens::USDC, stables);
        lemma_mint(
            mint_spec(before, node.owner, Tokens::USDC, stables),
            node.owner,
            Tokens::FLK,
            crate::rewards::node_flk_spec(t, node),
        );
    }
}

/// Paying the builders of services issues as much FLK as it credits.
pub proof fn lemma_pay_services(s: StateView, t: RewardTerms, upto: int)
    ensures
        outside(pay_services_spec(s, t, upto)) == outside(s),
        pay_services_spec(s, t, upto).nodes == s.nodes,
    decreases upto,
{
    if upto > 0 {
        lemma_pay_services(s, t, upto - 1);
        let before = pay_services_spec(s, t, upto - 1);
        let owner = s.services[upto - 1].owner;
        let totals = s.served[upto - 1];
        let stables = crate::rewards::service_stables_spec(t, totals);
        lemma_mint(before, owner, Tokens::USDC, stables);
        lemma_mint(
            mint_spec(before, owner, Tokens::USDC, stables),
            owner,
            Tokens::FLK,
            crate::rewards::service_flk_spec(t, totals),
        );
    }
}

/// The rewards of an epoch add as much FLK to the balances as to the supply.
pub proof fn lemma_distribute_rewards(s: StateView)
    ensures
        outside(distribute_rewards_spec(s)) == outside(s),
        distribute_rewards_spec(s).nodes == s.nodes,
{
    if s.reward_pool != 0 {
        let t = reward_terms_spec(s);
        let s1 = pay_nodes_spec(s, t, s.nodes.len() as int);
        lemma_pay_nodes(s, t, s.nodes.len() as int);
        let fund = s1.metadata.protocol_fund_address;
        let stables = crate::rewards::protocol_stables_spec(t);
        lemma_mint(s1, fund, Tokens::USDC, stables);
        lemma_mint(
            mint_spec(s1, fund, Tokens::USDC, stables),
            fund,
            Tokens::FLK,
            crate::rewards::protocol_flk_spec(t),
        );
        let s2 = pay_protocol_spec(s1, t);
        lemma_pay_services(s2, t, s.services.len() as int);
    }
}

/// The change of the epoch adds as much FLK to the balances as to the
/// supply, and leaves stakes and locked tokens as they are.
pub proof fn lemma_next_epoch(s: StateView, now: u64)
    ensures
        outside(next_epoch_spec(s, now)) == outside(s),
{
    let paid = distribute_rewards_spec(s);
    lemma_distribute_rewards(s);
    let nodes = settle_nodes(paid.nodes, paid.reports);
    lemma_sum_same(paid.nodes, nodes, flk_staked());
    lemma_sum_same(paid.nodes, nodes, flk_locked());
}

/// A signal for the change of the epoch, whatever it leads to, adds as much
/// FLK to the balances as to the supply.
pub proof fn lemma_change_epoch(s: StateView, n: NodeIndex, epoch: u64, now: u64)
    ensures
        outside(change_epoch_spec(s, n, epoch, now).0) == outside(s),
{
    let signalled = s.signalled.push(n);
    lemma_next_epoch(StateView { signalled, ..s }, now);
}

/// What a node hands in or asks for moves no FLK.
pub proof fn lemma_node_methods(
    s: StateView,
    n: NodeIndex,
    commodity: u128,
    service: u32,
    wish: Participation,
)
    requires
        n < s.nodes.len(),
    ensures
        outside(submit_delivery_spec(s, n, commodity, service).0) == outside(s),
        outside(opt_spec(s, n, wish).0) == outside(s),
{
    let delivered = submit_delivery_spec(s, n, commodity, service).0;
    if delivered != s {
        lemma_sum_update(s.nodes, flk_staked(), n as int, delivered.nodes[n as int]);
        lemma_sum_update(s.nodes, flk_locked(), n as int, delivered.nodes[n as int]);
    }
    let wished = opt_spec(s, n, wish).0;
    lemma_sum_update(s.nodes, flk_staked(), n as int, wished.nodes[n as int]);
    lemma_sum_update(s.nodes, flk_locked(), n as int, wished.nodes[n as int]);
}

/// Counting a transaction moves no FLK.
pub proof fn lemma_bump_nonce(s: StateView, sender: TransactionSender)
    ensures
        outside(bump_nonce(s, sender)) == outside(s),
{
    let after = bump_nonce(s, sender);
    match sender {
        TransactionSender::AccountOwner(a) => {
            let (accounts, i) = account_slot(s.accounts, a);
            lemma_read_after_open(s.accounts, a, a);
            if find_account(s.accounts, a) is None {
                lemma_sum_push(s.accounts, flk_held(), fresh_account(a));
            }
            lemma_sum_update(accounts, flk_held(), i, after.accounts[i]);
        },
        TransactionSender::NodeMain(k) => {
            lemma_find_node(s.nodes, k, 0);
            match find_node(s.nodes, k) {
                Some(i) => {
                    lemma_sum_update(s.nodes, flk_staked(), i, after.nodes[i]);
                    lemma_sum_update(s.nodes, flk_locked(), i, after.nodes[i]);
                },
                None => {},
            }
        },
    }
}

/// Supply conservation. Whatever a transaction does, the FLK that accounts
/// hold and that is staked or locked on nodes moves by what was issued, by
/// what a deposit put in and by what a withdrawal took out, and by nothing
/// else: the supply less the FLK in the ledger changes only by deposits and
/// withdrawals of FLK.
pub proof fn lemma_supply_conservation(s: StateView, tx: UpdateRequest, hash: Digest, now: u64)
    ensures
        ({
            let (after, response) = apply_transaction_spec(s, tx, hash, now);
            outside(after) == outside(s) - flk_put_in(tx, response) + flk_taken_out(tx, response)
        }),
{
    let sender = tx.payload.sender;
    if tx.signature_valid {
        match crate::executor::sender_nonce(s, sender) {
            Some(n) => {
                if n != u64::MAX && tx.payload.nonce == n + 1 {
                    let counted = bump_nonce(s, sender);
                    lemma_bump_nonce(s, sender);
                    lemma_method_conserves(counted, tx, now);
                    let (done, response) = apply_method_spec(counted, sender, tx.payload.method, now);
                    let after = StateView { executed: done.executed.push(hash), ..done };
                    assert(after.circulating() == done.circulating());
                    assert(apply_transaction_spec(s, tx, hash, now) == (after, response));
                }
            },
            None => {},
        }
    }
}

/// What the first `upto` transactions of a block put into the ledger, less
/// what they took out of it, going by their receipts.
pub open spec fn net_flow(
    txs: Seq<UpdateRequest>,
    receipts: Seq<crate::transaction::TransactionReceipt>,
    upto: int,
) -> int
    decreases upto,
{
    if upto <= 0 {
        0
    } else {
        net_flow(txs, receipts, upto - 1) + flk_put_in(txs[upto - 1], receipts[upto - 1].response)
            - flk_taken_out(txs[upto - 1], receipts[upto - 1].response)
    }
}

/// Supply conservation over a block. After every block, the supply less the
/// FLK in the ledger has moved by what the deposits of the block put in and
/// its withdrawals took out, and by nothing else.
pub proof fn lemma_block_conserves(
    s: StateView,
    block: crate::transaction::Block,
    hashes: Seq<Digest>,
    now: u64,
)
    ensures
        ({
            let (after, receipts) = crate::executor::apply_block_spec(s, block, hashes, now);
            outside(after) == outside(s) - net_flow(
                block.transactions@,
                receipts,
                block.transactions@.len() as int,
            )
        }),
{
    lemma_transactions_conserve(
        s,
        block.transactions@,
        hashes,
        block.digest,
        now,
        block.transactions@.len() as int,
    );
}

/// Supply conservation over the first `upto` transactions of a block.
pub proof fn lemma_transactions_conserve(
    s: StateView,
    txs: Seq<UpdateRequest>,
    hashes: Seq<Digest>,
    block_hash: Digest,
    now: u64,
    upto: int,
)
    ensures
        ({
            let (after, receipts) = crate::executor::apply_transactions_spec(
                s,
                txs,
                hashes,
                block_hash,
                now,
                upto,
            );
            &&& upto >= 0 ==> receipts.len() == upto
            &&& outside(after) == outside(s) - net_flow(txs, receipts, upto)
        }),
    decreases upto,
{
    if upto > 0 {
        lemma_transactions_conserve(s, txs, hashes, block_hash, now, upto - 1);
        let (before, earlier) = crate::executor::apply_transactions_spec(
            s,
            txs,
            hashes,
            block_hash,
            now,
            upto - 1,
        );
        lemma_supply_conservation(before, txs[upto - 1], hashes[upto - 1], now);
        let (after, receipts) = crate::executor::apply_transactions_spec(
            s,
            txs,
            hashes,
            block_hash,
            now,
            upto,
        );
        lemma_net_flow_prefix(txs, earlier, receipts, upto - 1);
    }
}

/// Receipts that agree on their first `upto` entries give the same flow
/// over them.
pub proof fn lemma_net_flow_prefix(
    txs: Seq<UpdateRequest>,
    a: Seq<crate::transaction::TransactionReceipt>,
    b: Seq<crate::transaction::TransactionReceipt>,
    upto: int,
)
    requires
        upto <= a.len(),
        upto <= b.len(),
        forall|i: int| 0 <= i < upto ==> a[i] == b[i],
    ensures
        net_flow(txs, a, upto) == net_flow(txs, b, upto),
    decreases upto,
{
    if upto > 0 {
        lemma_net_flow_prefix(txs, a, b, upto - 1);
    }
}

/// The rule of every method keeps the balance of the FLK in the ledger and
/// the FLK outside of it.
pub proof fn lemma_method_conserves(s: StateView, tx: UpdateRequest, now: u64)
    ensures
        ({
            let (after, response) = apply_method_spec(s, tx.payload.sender, tx.payload.method, now);
            outside(after) == outside(s) - flk_put_in(tx, response) + flk_taken_out(tx, response)
        }),
{
    match tx.payload.sender {
        TransactionSender::AccountOwner(a) => match tx.payload.method {
            UpdateMethod::Deposit { proof, token, amount } => {
                lemma_deposit(s, a, token, amount);
            },
            UpdateMethod::Withdraw { amount, token, receiving_address } => {
                lemma_withdraw(s, a, amount, token, receiving_address);
            },
            UpdateMethod::Transfer { amount, token, to } => {
                lemma_transfer(s, a, amount, token, to);
            },
            UpdateMethod::Stake {
                amount,
                node_public_key,
                consensus_key,
                node_domain,
                worker_public_key,
                worker_domain,
                ports,
            } => {
                lemma_stake(
                    s,
                    a,
                    amount,
                    node_public_key,
                    NodeDetails {
                        consensus_key,
                        node_domain,
                        worker_public_key,
                        worker_domain,
                        ports,
                    },
                );
            },
            UpdateMethod::StakeLock { node, locked_for } => {
                lemma_stake_lock(s, a, node, locked_for);
            },
            UpdateMethod::Unstake { amount, node } => {
                lemma_unstake(s, a, amount, node);
            },
            UpdateMethod::WithdrawUnstaked { node, recipient } => {
                lemma_withdraw_unstaked(s, a, node, recipient);
            },
            _ => {},
        },
        TransactionSender::NodeMain(k) => {
            lemma_find_node(s.nodes, k, 0);
            match find_node(s.nodes, k) {
                None => {},
                Some(i) => match tx.payload.method {
                    UpdateMethod::ChangeEpoch { epoch } => {
                        lemma_change_epoch(s, i as NodeIndex, epoch, now);
                    },
                    UpdateMethod::SubmitDeliveryAcknowledgmentAggregation {
                        commodity,
                        service_id,
                        proofs,
                        metadata,
                    } => {
                        lemma_node_methods(
                            s,
                            i as NodeIndex,
                            commodity,
                            service_id,
                            Participation::True,
                        );
                    },
                    UpdateMethod::OptIn {  } => {
                        lemma_node_methods(s, i as NodeIndex, 0, 0, Participation::OptedIn);
                    },
                    UpdateMethod::OptOut {  } => {
                        lemma_node_methods(s, i as NodeIndex, 0, 0, Participation::OptedOut);
                    },
                    _ => {},
                },
            }
        },
    }
}

} // verus!
