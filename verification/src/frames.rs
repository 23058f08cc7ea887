//! What a write to one row leaves alone: lookups of other rows, nonces, and
//! the sums over the tables.

use crate::keys::{Address, NodeKey};
use crate::state::{
    account_slot, find_account, find_node, flk_held, fresh_account, lemma_find_account,
    lemma_find_node,
};
use crate::sums::{lemma_sum_push, lemma_sum_update, sum_of};
use crate::tokens::{account_or_fresh, set_balance, with_balance};
use crate::types::{Account, Node, Tokens};
use vstd::prelude::*;

verus! {

/// The first row with an address is what a lookup of the address finds.
pub proof fn lemma_find_account_is(accounts: Seq<Account>, address: Address, i: int)
    requires
        0 <= i < accounts.len(),
        accounts[i].address == address,
        forall|k: int| 0 <= k < i ==> (#[trigger] accounts[k]).address != address,
    ensures
        find_account(accounts, address) == Some(i),
{
    lemma_find_account(accounts, address, 0);
}

/// A lookup of an address that no row has finds nothing.
pub proof fn lemma_find_account_none(accounts: Seq<Account>, address: Address)
    requires
        forall|k: int| 0 <= k < accounts.len() ==> (#[trigger] accounts[k]).address != address,
    ensures
        find_account(accounts, address) is None,
{
    lemma_find_account(accounts, address, 0);
}

/// The first node with a key is what a lookup of the key finds.
pub proof fn lemma_find_node_is(nodes: Seq<Node>, key: NodeKey, i: int)
    requires
        0 <= i < nodes.len(),
        nodes[i].public_key == key,
        forall|k: int| 0 <= k < i ==> (#[trigger] nodes[k]).public_key != key,
    ensures
        find_node(nodes, key) == Some(i),
{
    lemma_find_node(nodes, key, 0);
}

/// A lookup of a key that no node has finds nothing.
pub proof fn lemma_find_node_none(nodes: Seq<Node>, key: NodeKey)
    requires
        forall|k: int| 0 <= k < nodes.len() ==> (#[trigger] nodes[k]).public_key != key,
    ensures
        find_node(nodes, key) is None,
{
    lemma_find_node(nodes, key, 0);
}

/// Registries that agree on the keys, place by place, agree on every lookup.
pub proof fn lemma_find_node_same_keys(a: Seq<Node>, b: Seq<Node>, key: NodeKey)
    requires
        a.len() == b.len(),
        forall|k: int| 0 <= k < a.len() ==> (#[trigger] a[k]).public_key == b[k].public_key,
    ensures
        find_node(a, key) == find_node(b, key),
{
    lemma_find_node(a, key, 0);
    match find_node(a, key) {
        Some(i) => {
            assert forall|k: int| 0 <= k < i implies (#[trigger] b[k]).public_key != key by {
                assert(a[k].public_key != key);
            }
            lemma_find_node_is(b, key, i);
        },
        None => {
            assert forall|k: int| 0 <= k < b.len() implies (#[trigger] b[k]).public_key
                != key by {
                assert(a[k].public_key != key);
            }
            lemma_find_node_none(b, key);
        },
    }
}

/// Account tables that agree on the addresses, place by place, agree on
/// every lookup.
pub proof fn lemma_find_account_same_addresses(a: Seq<Account>, b: Seq<Account>, address: Address)
    requires
        a.len() == b.len(),
        forall|k: int| 0 <= k < a.len() ==> (#[trigger] a[k]).address == b[k].address,
    ensures
        find_account(a, address) == find_account(b, address),
{
    lemma_find_account(a, address, 0);
    match find_account(a, address) {
        Some(i) => {
            assert forall|k: int| 0 <= k < i implies (#[trigger] b[k]).address != address by {
                assert(a[k].address != address);
            }
            lemma_find_account_is(b, address, i);
        },
        None => {
            assert forall|k: int| 0 <= k < b.len() implies (#[trigger] b[k]).address
                != address by {
                assert(a[k].address != address);
            }
            lemma_find_account_none(b, address);
        },
    }
}

/// The row that a lookup sees after the row of `a` was opened: as before.
pub proof fn lemma_read_after_open(accounts: Seq<Account>, a: Address, x: Address)
    ensures
        account_or_fresh(account_slot(accounts, a).0, x) == account_or_fresh(accounts, x),
        account_slot(accounts, a).0[account_slot(accounts, a).1] == account_or_fresh(accounts, a),
        0 <= account_slot(accounts, a).1 < account_slot(accounts, a).0.len(),
        find_account(account_slot(accounts, a).0, a) == Some(account_slot(accounts, a).1),
{
    lemma_find_account(accounts, a, 0);
    lemma_find_account(accounts, x, 0);
    let (with_row, i) = account_slot(accounts, a);
    if find_account(accounts, a) is None {
        let row = fresh_account(a);
        assert forall|k: int| 0 <= k < accounts.len() implies (#[trigger] with_row[k]).address
            != a by {
            assert(accounts[k].address != a);
        }
        lemma_find_account_is(with_row, a, accounts.len() as int);
        match find_account(accounts, x) {
            Some(j) => {
                assert(with_row[j] == accounts[j]);
                assert forall|k: int| 0 <= k < j implies (#[trigger] with_row[k]).address
                    != x by {
                    assert(accounts[k].address != x);
                }
                lemma_find_account_is(with_row, x, j);
            },
            None => {
                if x != a {
                    assert forall|k: int| 0 <= k < with_row.len() implies (
                    #[trigger] with_row[k]).address != x by {
                        if k < accounts.len() {
                            assert(accounts[k].address != x);
                        }
                    }
                    lemma_find_account_none(with_row, x);
                }
            },
        }
    }
}

/// The row that a lookup sees after a balance was written: the row of the
/// account that was written to, with the new balance, and every other row as
/// it was.
pub proof fn lemma_read_after_write(
    accounts: Seq<Account>,
    a: Address,
    token: Tokens,
    value: u128,
    x: Address,
)
    ensures
        account_or_fresh(set_balance(accounts, a, token, value), x) == (if x == a {
            with_balance(account_or_fresh(accounts, a), token, value)
        } else {
            account_or_fresh(accounts, x)
        }),
{
    let (with_row, i) = account_slot(accounts, a);
    lemma_read_after_open(accounts, a, x);
    lemma_read_after_open(accounts, a, a);
    let written = with_row.update(i, with_balance(with_row[i], token, value));
    assert(with_balance(with_row[i], token, value).address == with_row[i].address);
    lemma_find_account_same_addresses(with_row, written, x);
    lemma_find_account(with_row, x, 0);
    lemma_find_account(with_row, a, 0);
}

/// The FLK in all accounts after a balance was written: as before, but for
/// the account that was written to.
pub proof fn lemma_write_total(accounts: Seq<Account>, a: Address, token: Tokens, value: u128)
    ensures
        sum_of(set_balance(accounts, a, token, value), flk_held()) == sum_of(accounts, flk_held())
            - account_or_fresh(accounts, a).flk_balance + with_balance(
            account_or_fresh(accounts, a),
            token,
            value,
        ).flk_balance,
{
    let (with_row, i) = account_slot(accounts, a);
    lemma_read_after_open(accounts, a, a);
    if find_account(accounts, a) is None {
        lemma_sum_push(accounts, flk_held(), fresh_account(a));
    }
    lemma_sum_update(with_row, flk_held(), i, with_balance(with_row[i], token, value));
}

} // verus!
