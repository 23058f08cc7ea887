//! The replicated state of the ledger and the view that contracts speak of.

use crate::hashing::Digest;
use crate::keys::{bytes_eq, Address, NodeIndex, NodeKey};
use crate::sums::{copy_vec, sum_of};
use crate::types::{
    Account, Delivery, Metadata, Node, ParamTable, Report, Service, ServiceTotals, Withdrawal,
};
use vstd::prelude::*;

verus! {

/// The tables of the ledger. The executor is their only writer.
#[derive(Debug)]
pub struct State {
    pub metadata: Metadata,
    pub params: ParamTable,
    /// Accounts, in the order in which they were first credited or used.
    pub accounts: Vec<Account>,
    /// The node registry: a node's position is its index, for good.
    pub nodes: Vec<Node>,
    /// Indices of the members of the current committee.
    pub members: Vec<NodeIndex>,
    /// Members that signalled that they are ready for the next epoch.
    pub signalled: Vec<NodeIndex>,
    /// When the current epoch is due to end, in milliseconds.
    pub epoch_end_ms: u64,
    /// Services, by their identifier.
    pub services: Vec<Service>,
    /// What was delivered of each service in this epoch.
    pub served: Vec<ServiceTotals>,
    /// The acknowledged deliveries of this epoch, in order.
    pub deliveries: Vec<Delivery>,
    /// Revenue of this epoch in stable currency that is yet to be paid out.
    pub reward_pool: u128,
    /// The reputation measurements of this epoch, in order.
    pub reports: Vec<Report>,
    /// Nodes that handed in their measurements in this epoch.
    pub reporters: Vec<NodeIndex>,
    /// Withdrawals that are yet to be paid out.
    pub withdrawals: Vec<Withdrawal>,
    /// Digests of the transactions that were executed.
    pub executed: Vec<Digest>,
}

/// The ledger as a mathematical value.
pub struct StateView {
    pub metadata: Metadata,
    pub params: ParamTable,
    pub accounts: Seq<Account>,
    pub nodes: Seq<Node>,
    pub members: Seq<NodeIndex>,
    pub signalled: Seq<NodeIndex>,
    pub epoch_end_ms: u64,
    pub services: Seq<Service>,
    pub served: Seq<ServiceTotals>,
    pub deliveries: Seq<Delivery>,
    pub reward_pool: u128,
    pub reports: Seq<Report>,
    pub reporters: Seq<NodeIndex>,
    pub withdrawals: Seq<Withdrawal>,
    pub executed: Seq<Digest>,
}

impl View for State {
    type V = StateView;

    open spec fn view(&self) -> StateView {
        StateView {
            metadata: self.metadata,
            params: self.params,
            accounts: self.accounts@,
            nodes: self.nodes@,
            members: self.members@,
            signalled: self.signalled@,
            epoch_end_ms: self.epoch_end_ms,
            services: self.services@,
            served: self.served@,
            deliveries: self.deliveries@,
            reward_pool: self.reward_pool,
            reports: self.reports@,
            reporters: self.reporters@,
            withdrawals: self.withdrawals@,
            executed: self.executed@,
        }
    }
}

/// Largest number of nodes that the registry can hold: every index fits in
/// 32 bits.
pub const MAX_NODES: usize = 0xffff_ffff;

impl StateView {
    /// What every reachable ledger satisfies: indices and identifiers fit in
    /// 32 bits, every service has its totals, and committee members are
    /// registered nodes.
    pub open spec fn wf(self) -> bool {
        &&& self.nodes.len() <= MAX_NODES
        &&& self.services.len() <= 0x1_0000_0000
        &&& self.served.len() == self.services.len()
        &&& forall|i: int| 0 <= i < self.members.len() ==> (#[trigger] self.members[i]) < self.nodes.len()
    }

    /// All FLK that accounts hold.
    pub open spec fn total_balances(self) -> int {
        sum_of(self.accounts, flk_held())
    }

    /// All FLK that is staked on nodes.
    pub open spec fn total_staked(self) -> int {
        sum_of(self.nodes, flk_staked())
    }

    /// All FLK that is unstaked and still locked on nodes.
    pub open spec fn total_locked(self) -> int {
        sum_of(self.nodes, flk_locked())
    }

    /// All FLK that the ledger holds: balances, stakes and locked tokens.
    pub open spec fn circulating(self) -> int {
        self.total_balances() + self.total_staked() + self.total_locked()
    }
}

/// The FLK that an account holds.
pub open spec fn flk_held() -> spec_fn(Account) -> int {
    |a: Account| a.flk_balance as int
}

/// The FLK that is staked on a node.
pub open spec fn flk_staked() -> spec_fn(Node) -> int {
    |n: Node| n.staked as int
}

/// The FLK that is locked on a node.
pub open spec fn flk_locked() -> spec_fn(Node) -> int {
    |n: Node| n.locked as int
}

/// The account that a lookup of an unknown address stands for: nothing in it.
pub open spec fn fresh_account(address: Address) -> Account {
    Account { address, flk_balance: 0, stables_balance: 0, bandwidth_balance: 0, nonce: 0 }
}

/// The first position at or after `from` of an account with this address.
pub open spec fn find_account_from(accounts: Seq<Account>, address: Address, from: int) -> Option<
    int,
>
    decreases accounts.len() - from,
{
    if from < 0 || from >= accounts.len() {
        None
    } else if accounts[from].address == address {
        Some(from)
    } else {
        find_account_from(accounts, address, from + 1)
    }
}

/// The position of the account with this address.
pub open spec fn find_account(accounts: Seq<Account>, address: Address) -> Option<int> {
    find_account_from(accounts, address, 0)
}

/// The first position at or after `from` of a node with this key.
pub open spec fn find_node_from(nodes: Seq<Node>, key: NodeKey, from: int) -> Option<int>
    decreases nodes.len() - from,
{
    if from < 0 || from >= nodes.len() {
        None
    } else if nodes[from].public_key == key {
        Some(from)
    } else {
        find_node_from(nodes, key, from + 1)
    }
}

/// The index of the node with this key.
pub open spec fn find_node(nodes: Seq<Node>, key: NodeKey) -> Option<int> {
    find_node_from(nodes, key, 0)
}

/// The accounts with a row for `address`, and the position of that row. A
/// missing row is added at the end, empty.
pub open spec fn account_slot(accounts: Seq<Account>, address: Address) -> (Seq<Account>, int) {
    match find_account(accounts, address) {
        Some(i) => (accounts, i),
        None => (accounts.push(fresh_account(address)), accounts.len() as int),
    }
}

/// What a lookup finds lies in the table and has the address asked for, and
/// nothing before it has.
pub proof fn lemma_find_account(accounts: Seq<Account>, address: Address, from: int)
    requires
        0 <= from,
    ensures
        match find_account_from(accounts, address, from) {
            Some(i) => from <= i < accounts.len() && accounts[i].address == address && forall|
                k: int,
            |
                from <= k < i ==> (#[trigger] accounts[k]).address != address,
            None => forall|k: int|
                from <= k < accounts.len() ==> (#[trigger] accounts[k]).address != address,
        },
    decreases accounts.len() - from,
{
    if from < accounts.len() && accounts[from].address != address {
        lemma_find_account(accounts, address, from + 1);
    }
}

/// What a lookup finds lies in the registry and has the key asked for, and
/// nothing before it has.
pub proof fn lemma_find_node(nodes: Seq<Node>, key: NodeKey, from: int)
    requires
        0 <= from,
    ensures
        match find_node_from(nodes, key, from) {
            Some(i) => from <= i < nodes.len() && nodes[i].public_key == key && forall|k: int|
                from <= k < i ==> (#[trigger] nodes[k]).public_key != key,
            None => forall|k: int|
                from <= k < nodes.len() ==> (#[trigger] nodes[k]).public_key != key,
        },
    decreases nodes.len() - from,
{
    if from < nodes.len() && nodes[from].public_key != key {
        lemma_find_node(nodes, key, from + 1);
    }
}

/// Looks an account up by its address.
pub fn account_index(accounts: &Vec<Account>, address: &Address) -> (found: Option<usize>)
    ensures
        match found {
            Some(i) => find_account(accounts@, *address) == Some(i as int) && i < accounts.len(),
            None => find_account(accounts@, *address) is None,
        },
{
    let mut i: usize = 0;
    while i < accounts.len()
        invariant
            i <= accounts.len(),
            find_account(accounts@, *address) == find_account_from(accounts@, *address, i as int),
        decreases accounts.len() - i,
    {
        if bytes_eq(&accounts[i].address, address) {
            return Some(i);
        }
        i += 1;
    }
    None
}

/// Looks a node up by its public key.
pub fn node_index(nodes: &Vec<Node>, key: &NodeKey) -> (found: Option<usize>)
    ensures
        match found {
            Some(i) => find_node(nodes@, *key) == Some(i as int) && i < nodes.len(),
            None => find_node(nodes@, *key) is None,
        },
{
    let mut i: usize = 0;
    while i < nodes.len()
        invariant
            i <= nodes.len(),
            find_node(nodes@, *key) == find_node_from(nodes@, *key, i as int),
        decreases nodes.len() - i,
    {
        if bytes_eq(&nodes[i].public_key, key) {
            return Some(i);
        }
        i += 1;
    }
    None
}

/// Finds the row of an account, adding an empty one where there is none.
pub fn open_account(accounts: &mut Vec<Account>, address: &Address) -> (i: usize)
    ensures
        (final(accounts)@, i as int) == account_slot(old(accounts)@, *address),
        i < final(accounts).len(),
{
    match account_index(accounts, address) {
        Some(i) => i,
        None => {
            let i = accounts.len();
            accounts.push(
                Account {
                    address: *address,
                    flk_balance: 0,
                    stables_balance: 0,
                    bandwidth_balance: 0,
                    nonce: 0,
                },
            );
            i
        },
    }
}

impl State {
    /// Tells whether the ledger is well formed. A ledger that was made from
    /// a genesis and changed by the executor only always is.
    pub fn is_well_formed(&self) -> (ok: bool)
        ensures
            ok == self@.wf(),
    {
        if self.nodes.len() > MAX_NODES || self.served.len() != self.services.len() {
            return false;
        }
        if self.services.len() as u64 > 0x1_0000_0000 {
            return false;
        }
        let mut i: usize = 0;
        while i < self.members.len()
            invariant
                i <= self.members.len(),
                forall|k: int| 0 <= k < i ==> (#[trigger] self.members@[k]) < self.nodes.len(),
            decreases self.members.len() - i,
        {
            if self.members[i] as usize >= self.nodes.len() {
                assert(!(self@.members[i as int] < self@.nodes.len()));
                return false;
            }
            i += 1;
        }
        true
    }

    /// A copy of the ledger as it stands: what a reader works on while the
    /// executor moves on.
    pub fn snapshot(&self) -> (copy: State)
        ensures
            copy@ == self@,
    {
        State {
            metadata: self.metadata,
            params: self.params,
            accounts: copy_vec(&self.accounts),
            nodes: copy_vec(&self.nodes),
            members: copy_vec(&self.members),
            signalled: copy_vec(&self.signalled),
            epoch_end_ms: self.epoch_end_ms,
            services: copy_vec(&self.services),
            served: copy_vec(&self.served),
            deliveries: copy_vec(&self.deliveries),
            reward_pool: self.reward_pool,
            reports: copy_vec(&self.reports),
            reporters: copy_vec(&self.reporters),
            withdrawals: copy_vec(&self.withdrawals),
            executed: copy_vec(&self.executed),
        }
    }
}

} // verus!
