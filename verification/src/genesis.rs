//! Genesis: the declarative description of the first state, and the ledger
//! that it makes.

use crate::fixed::FLK_UNIT;
use crate::hashing::{zero_digest, zero_digest_spec};
use crate::keys::{bytes_eq, Address, ConsensusKey, IpAddress, NodeIndex, NodeKey};
use crate::state::{State, StateView, MAX_NODES};
use crate::types::{
    Account, HandshakePorts, Metadata, Node, NodePorts, ParamTable, Participation, Service,
    ServiceTotals,
};
use vstd::prelude::*;

verus! {

/// A node that is registered from the start.
#[derive(Clone, Copy, Debug, PartialEq, Eq)]
pub struct GenesisNode {
    pub owner: Address,
    pub primary_public_key: NodeKey,
    pub primary_domain: IpAddress,
    pub consensus_public_key: ConsensusKey,
    pub worker_domain: IpAddress,
    pub worker_public_key: NodeKey,
    pub ports: NodePorts,
    pub reputation: Option<u8>,
    /// Whether the node sits on the first committee.
    pub genesis_committee: bool,
}

/// A service that exists from the start.
#[derive(Clone, Copy, Debug, PartialEq, Eq)]
pub struct GenesisService {
    pub id: u32,
    pub owner: Address,
    /// Price of one unit of the commodity, in units of `10^-6` of the stable
    /// currency.
    pub commodity_price: u128,
}

/// An account that holds tokens from the start.
#[derive(Clone, Copy, Debug, PartialEq, Eq)]
pub struct GenesisAccount {
    pub address: Address,
    pub flk_balance: u128,
    pub stables_balance: u128,
    pub bandwidth_balance: u128,
}

/// The description of the first state.
#[derive(Clone, Debug, PartialEq, Eq)]
pub struct Genesis {
    /// Start of the first epoch, in milliseconds.
    pub epoch_start: u64,
    /// Length of an epoch, in milliseconds.
    pub epoch_time: u64,
    pub committee_size: u64,
    /// Smallest stake of a valid node, in whole FLK.
    pub min_stake: u64,
    pub eligibility_time: u64,
    pub lock_time: u64,
    pub protocol_share: u16,
    pub node_share: u16,
    pub service_builder_share: u16,
    pub max_inflation: u16,
    pub max_boost: u16,
    pub max_lock_time: u64,
    /// Supply at the start, in whole FLK.
    pub supply_at_genesis: u64,
    pub governance_address: Address,
    pub protocol_fund_address: Address,
    pub node_info: Vec<GenesisNode>,
    pub service: Vec<GenesisService>,
    pub account: Vec<GenesisAccount>,
}

/// What test code may set differently from the built-in genesis.
#[derive(Clone, Copy, Debug, PartialEq, Eq)]
pub struct Params {
    pub epoch_time: Option<u64>,
    pub max_inflation: Option<u16>,
    pub protocol_share: Option<u16>,
    pub node_share: Option<u16>,
    pub service_builder_share: Option<u16>,
    pub max_boost: Option<u16>,
    pub supply_at_genesis: Option<u64>,
}

/// Why a genesis makes no ledger.
#[derive(Clone, Copy, Debug, PartialEq, Eq)]
pub enum GenesisError {
    /// Two nodes have the same public key.
    DuplicateNode,
    /// Two accounts have the same address.
    DuplicateAccount,
    /// A service does not stand at the place of its identifier.
    MisplacedService,
    /// The three shares do not add up to a hundred.
    SharesNotWhole,
    /// There are more nodes than indices.
    TooManyNodes,
}

impl GenesisNode {
    /// Describes a node by its keys, domains and ports.
    pub fn new(
        owner: Address,
        primary_public_key: NodeKey,
        primary_domain: IpAddress,
        consensus_public_key: ConsensusKey,
        worker_domain: IpAddress,
        worker_public_key: NodeKey,
        ports: NodePorts,
        reputation: Option<u8>,
        genesis_committee: bool,
    ) -> (node: Self)
        ensures
            node == (GenesisNode {
                owner,
                primary_public_key,
                primary_domain,
                consensus_public_key,
                worker_domain,
                worker_public_key,
                ports,
                reputation,
                genesis_committee,
            }),
    {
        GenesisNode {
            owner,
            primary_public_key,
            primary_domain,
            consensus_public_key,
            worker_domain,
            worker_public_key,
            ports,
            reputation,
            genesis_committee,
        }
    }
}

/// The keys of a member of a committee that is made up for a test.
#[derive(Clone, Copy, Debug, PartialEq, Eq)]
pub struct CommitteeKeys {
    pub owner: Address,
    pub node_public_key: NodeKey,
    pub consensus_public_key: ConsensusKey,
}

/// The ports of the `index`-th member of a made-up committee: each service
/// on its own base port plus the index.
pub open spec fn member_ports(index: u16) -> NodePorts
    recommends
        index <= 56535,
{
    NodePorts {
        primary: (8000 + index) as u16,
        worker: (9000 + index) as u16,
        mempool: (7000 + index) as u16,
        rpc: (6000 + index) as u16,
        pool: (5000 + index) as u16,
        dht: (4000 + index) as u16,
        pinger: (2000 + index) as u16,
        handshake: HandshakePorts {
            http: (5000 + index) as u16,
            webrtc: (6000 + index) as u16,
            webtransport: (7000 + index) as u16,
        },
    }
}

/// The `index`-th member of a made-up committee.
pub open spec fn committee_member(keys: CommitteeKeys, index: u16) -> GenesisNode {
    GenesisNode {
        owner: keys.owner,
        primary_public_key: keys.node_public_key,
        primary_domain: IpAddress::V4([127, 0, 0, 1]),
        consensus_public_key: keys.consensus_public_key,
        worker_domain: IpAddress::V4([127, 0, 0, 1]),
        worker_public_key: keys.node_public_key,
        ports: member_ports(index),
        reputation: None,
        genesis_committee: true,
    }
}

/// Makes the `index`-th member of a committee for a test: a node on the
/// local host whose ports are told apart by the index.
pub fn create_committee_member(keys: &CommitteeKeys, index: u16) -> (node: GenesisNode)
    requires
        index <= 56535,
    ensures
        node == committee_member(*keys, index),
{
    let local: [u8; 4] = [127, 0, 0, 1];
    GenesisNode::new(
        keys.owner,
        keys.node_public_key,
        IpAddress::V4(local),
        keys.consensus_public_key,
        IpAddress::V4(local),
        keys.node_public_key,
        NodePorts {
            primary: 8000 + index,
            worker: 9000 + index,
            mempool: 7000 + index,
            rpc: 6000 + index,
            pool: 5000 + index,
            dht: 4000 + index,
            pinger: 2000 + index,
            handshake: HandshakePorts {
                http: 5000 + index,
                webrtc: 6000 + index,
                webtransport: 7000 + index,
            },
        },
        None,
        true,
    )
}

/// Makes a committee for a test, one member for each set of keys.
pub fn create_genesis_committee(keys: &Vec<CommitteeKeys>) -> (committee: Vec<GenesisNode>)
    requires
        keys.len() <= 56536,
    ensures
        committee@.len() == keys@.len(),
        forall|i: int|
            0 <= i < keys@.len() ==> committee@[i] == committee_member(keys@[i], i as u16),
{
    let mut committee: Vec<GenesisNode> = Vec::new();
    let mut i: usize = 0;
    while i < keys.len()
        invariant
            i <= keys.len() <= 56536,
            committee@.len() == i,
            forall|k: int| 0 <= k < i ==> committee@[k] == committee_member(keys@[k], k as u16),
        decreases keys.len() - i,
    {
        committee.push(create_committee_member(&keys[i], i as u16));
        i += 1;
    }
    committee
}

/// The array whose bytes are all `b`.
pub open spec fn filled_spec<const N: usize>(b: u8) -> [u8; N] {
    vstd::array::spec_array_fill_for_copy_type::<u8, N>(b)
}

fn filled<const N: usize>(b: u8) -> (a: [u8; N])
    ensures
        a == filled_spec::<N>(b),
        forall|i: int| 0 <= i < N ==> a[i] == b,
{
    [b;N]
}

/// The `i`-th node of the built-in genesis: a member of the first committee
/// on the local host, all of whose keys and whose owner's address are filled
/// with the byte `i + 1`.
pub open spec fn builtin_node(i: int) -> GenesisNode {
    committee_member(
        CommitteeKeys {
            owner: filled_spec::<20>((i + 1) as u8),
            node_public_key: filled_spec::<32>((i + 1) as u8),
            consensus_public_key: filled_spec::<96>((i + 1) as u8),
        },
        i as u16,
    )
}

/// The services of the built-in genesis: bandwidth at a tenth and compute at
/// a fifth of a unit of the stable currency.
pub open spec fn builtin_services() -> Seq<GenesisService> {
    seq![
        GenesisService { id: 0, owner: filled_spec::<20>(0xa0), commodity_price: 100_000 },
        GenesisService { id: 1, owner: filled_spec::<20>(0xa1), commodity_price: 200_000 },
    ]
}

impl Genesis {
    /// The built-in genesis: four nodes on the local host that form the
    /// first committee, two services, and no accounts.
    pub fn load() -> (genesis: Genesis)
        ensures
            genesis.is_builtin(),
            genesis.well_formed(),
    {
        let mut node_info: Vec<GenesisNode> = Vec::new();
        let mut i: u8 = 0;
        while i < 4
            invariant
                i <= 4,
                node_info@.len() == i,
                forall|k: int| 0 <= k < i ==> (#[trigger] node_info@[k]) == builtin_node(k),
            decreases 4 - i,
        {
            let keys = CommitteeKeys {
                owner: filled::<20>(i + 1),
                node_public_key: filled::<32>(i + 1),
                consensus_public_key: filled::<96>(i + 1),
            };
            node_info.push(create_committee_member(&keys, i as u16));
            i += 1;
        }
        let mut service: Vec<GenesisService> = Vec::new();
        service.push(GenesisService { id: 0, owner: filled::<20>(0xa0), commodity_price: 100_000 });
        service.push(GenesisService { id: 1, owner: filled::<20>(0xa1), commodity_price: 200_000 });
        assert(service@ =~= builtin_services());
        let genesis = Genesis {
            epoch_start: 0,
            epoch_time: 120000,
            committee_size: 10,
            min_stake: 1000,
            eligibility_time: 1,
            lock_time: 5,
            protocol_share: 0,
            node_share: 80,
            service_builder_share: 20,
            max_inflation: 10,
            max_boost: 4,
            max_lock_time: 1460,
            supply_at_genesis: 1_000_000,
            governance_address: filled::<20>(0xf0),
            protocol_fund_address: filled::<20>(0xf1),
            node_info,
            service,
            account: Vec::new(),
        };
        proof {
            assert(genesis@.node_info =~= builtin_genesis().node_info);
            assert(genesis@ =~= builtin_genesis());
            lemma_builtin_makes_ledger();
        }
        genesis
    }

    /// Whether the genesis is the built-in one.
    pub open spec fn is_builtin(self) -> bool {
        self@ == builtin_genesis()
    }

    /// Whether the genesis makes a ledger.
    pub open spec fn well_formed(self) -> bool {
        self@.failure() is None
    }

    /// What is wrong with the genesis; none where it makes a ledger.
    pub open spec fn failure(self) -> Option<GenesisError> {
        self@.failure()
    }

    /// The first ledger that the genesis makes.
    pub open spec fn state(self) -> StateView {
        self@.state()
    }
}

/// A genesis as a mathematical value.
pub struct GenesisView {
    pub epoch_start: u64,
    pub epoch_time: u64,
    pub committee_size: u64,
    pub min_stake: u64,
    pub eligibility_time: u64,
    pub lock_time: u64,
    pub protocol_share: u16,
    pub node_share: u16,
    pub service_builder_share: u16,
    pub max_inflation: u16,
    pub max_boost: u16,
    pub max_lock_time: u64,
    pub supply_at_genesis: u64,
    pub governance_address: Address,
    pub protocol_fund_address: Address,
    pub node_info: Seq<GenesisNode>,
    pub service: Seq<GenesisService>,
    pub account: Seq<GenesisAccount>,
}

impl View for Genesis {
    type V = GenesisView;

    open spec fn view(&self) -> GenesisView {
        GenesisView {
            epoch_start: self.epoch_start,
            epoch_time: self.epoch_time,
            committee_size: self.committee_size,
            min_stake: self.min_stake,
            eligibility_time: self.eligibility_time,
            lock_time: self.lock_time,
            protocol_share: self.protocol_share,
            node_share: self.node_share,
            service_builder_share: self.service_builder_share,
            max_inflation: self.max_inflation,
            max_boost: self.max_boost,
            max_lock_time: self.max_lock_time,
            supply_at_genesis: self.supply_at_genesis,
            governance_address: self.governance_address,
            protocol_fund_address: self.protocol_fund_address,
            node_info: self.node_info@,
            service: self.service@,
            account: self.account@,
        }
    }
}

/// The built-in genesis: its first epoch starts at zero and lasts two
/// minutes; there are ten seats, a smallest stake of 1000 FLK, four fifths of
/// the rewards for the nodes and the rest for the builders, ten hundredths of
/// inflation, a boost of up to four for a lock of up to 1460 epochs, and a
/// supply of a million FLK; four nodes on the local host form the first
/// committee, there are two services and no accounts.
pub open spec fn builtin_genesis() -> GenesisView {
    GenesisView {
        epoch_start: 0,
        epoch_time: 120000,
        committee_size: 10,
        min_stake: 1000,
        eligibility_time: 1,
        lock_time: 5,
        protocol_share: 0,
        node_share: 80,
        service_builder_share: 20,
        max_inflation: 10,
        max_boost: 4,
        max_lock_time: 1460,
        supply_at_genesis: 1_000_000,
        governance_address: filled_spec::<20>(0xf0),
        protocol_fund_address: filled_spec::<20>(0xf1),
        node_info: Seq::new(4, |i: int| builtin_node(i)),
        service: builtin_services(),
        account: Seq::empty(),
    }
}

/// The built-in genesis with the given nodes in place of its own.
pub open spec fn committee_genesis(committee: Seq<GenesisNode>) -> GenesisView {
    GenesisView { node_info: committee, ..builtin_genesis() }
}

/// The built-in genesis with the parameters that are given written over its
/// own, the given nodes in place of its own where there are any, and the
/// first epoch starting at `now`.
pub open spec fn params_genesis(
    params: Params,
    committee: Option<Seq<GenesisNode>>,
    now: u64,
) -> GenesisView {
    let base = builtin_genesis();
    GenesisView {
        epoch_start: now,
        epoch_time: match params.epoch_time {
            Some(v) => v,
            None => base.epoch_time,
        },
        max_inflation: match params.max_inflation {
            Some(v) => v,
            None => base.max_inflation,
        },
        protocol_share: match params.protocol_share {
            Some(v) => v,
            None => base.protocol_share,
        },
        node_share: match params.node_share {
            Some(v) => v,
            None => base.node_share,
        },
        service_builder_share: match params.service_builder_share {
            Some(v) => v,
            None => base.service_builder_share,
        },
        max_boost: match params.max_boost {
            Some(v) => v,
            None => base.max_boost,
        },
        supply_at_genesis: match params.supply_at_genesis {
            Some(v) => v,
            None => base.supply_at_genesis,
        },
        node_info: match committee {
            Some(c) => c,
            None => base.node_info,
        },
        ..base
    }
}

/// The nodes that are given, as a mathematical value.
pub open spec fn committee_view(committee: Option<Vec<GenesisNode>>) -> Option<Seq<GenesisNode>> {
    match committee {
        Some(c) => Some(c@),
        None => None,
    }
}

/// Whether no two nodes of a list share a public key.
pub open spec fn distinct_node_keys(nodes: Seq<GenesisNode>) -> bool {
    forall|a: int, b: int|
        0 <= a < b < nodes.len() ==> (#[trigger] nodes[a]).primary_public_key != (
        #[trigger] nodes[b]).primary_public_key
}

impl GenesisView {
    /// Whether no two nodes share a public key.
    pub open spec fn distinct_nodes(self) -> bool {
        distinct_node_keys(self.node_info)
    }

    /// Whether no two accounts share an address.
    pub open spec fn distinct_accounts(self) -> bool {
        forall|a: int, b: int|
            0 <= a < b < self.account.len() ==> (#[trigger] self.account[a]).address != (
            #[trigger] self.account[b]).address
    }

    /// Whether every service stands at the place of its identifier.
    pub open spec fn services_in_place(self) -> bool {
        forall|i: int| 0 <= i < self.service.len() ==> (#[trigger] self.service[i]).id == i
    }

    /// What is wrong with the genesis, taking the checks in their order: more
    /// nodes than indices, shares that do not add up to a hundred, two nodes
    /// with one key, two accounts with one address, a service that does not
    /// stand at the place of its identifier. None where the genesis makes a
    /// ledger.
    pub open spec fn failure(self) -> Option<GenesisError> {
        if self.node_info.len() > MAX_NODES {
            Some(GenesisError::TooManyNodes)
        } else if self.protocol_share + self.node_share + self.service_builder_share != 100 {
            Some(GenesisError::SharesNotWhole)
        } else if !self.distinct_nodes() {
            Some(GenesisError::DuplicateNode)
        } else if !self.distinct_accounts() {
            Some(GenesisError::DuplicateAccount)
        } else if !self.services_in_place() {
            Some(GenesisError::MisplacedService)
        } else {
            None
        }
    }

    /// The protocol parameters that the genesis sets.
    pub open spec fn params(self) -> ParamTable {
        ParamTable {
            epoch_time: self.epoch_time as u128,
            committee_size: self.committee_size as u128,
            minimum_node_stake: self.min_stake as u128,
            eligibility_time: self.eligibility_time as u128,
            lock_time: self.lock_time as u128,
            protocol_share: self.protocol_share as u128,
            node_share: self.node_share as u128,
            service_builder_share: self.service_builder_share as u128,
            max_inflation: self.max_inflation as u128,
            max_boost: self.max_boost as u128,
            max_stake_lock_time: self.max_lock_time as u128,
        }
    }

    /// The first ledger: every node is registered at its place in the list
    /// with the smallest valid stake, the nodes that are marked form the
    /// committee in the order of the list, and the first epoch runs from its
    /// start for one epoch's length.
    pub open spec fn state(self) -> StateView {
        StateView {
            metadata: Metadata {
                epoch: 0,
                epoch_start_ms: self.epoch_start,
                epoch_length_ms: self.epoch_time,
                last_block_digest: zero_digest_spec(),
                supply: (self.supply_at_genesis * FLK_UNIT) as u128,
                supply_at_year_start: (self.supply_at_genesis * FLK_UNIT) as u128,
                governance_address: self.governance_address,
                protocol_fund_address: self.protocol_fund_address,
            },
            params: self.params(),
            accounts: Seq::new(self.account.len(), |i: int| first_account(self.account[i])),
            nodes: Seq::new(
                self.node_info.len(),
                |i: int| first_node(self.node_info[i], (self.min_stake * FLK_UNIT) as u128),
            ),
            members: first_members(self.node_info, self.node_info.len() as int),
            signalled: Seq::empty(),
            epoch_end_ms: if self.epoch_start + self.epoch_time > u64::MAX {
                u64::MAX
            } else {
                (self.epoch_start + self.epoch_time) as u64
            },
            services: Seq::new(
                self.service.len(),
                |i: int|
                    Service {
                        owner: self.service[i].owner,
                        commodity_price: self.service[i].commodity_price,
                    },
            ),
            served: Seq::new(
                self.service.len(),
                |i: int| ServiceTotals { commodity: 0, revenue: 0 },
            ),
            deliveries: Seq::empty(),
            reward_pool: 0,
            reports: Seq::empty(),
            reporters: Seq::empty(),
            withdrawals: Seq::empty(),
            executed: Seq::empty(),
        }
    }
}

/// The built-in genesis with other nodes makes a ledger exactly when there
/// are no more nodes than indices and no two nodes share a key; it fails for
/// too many nodes before it fails for a shared key.
pub proof fn lemma_committee_genesis(committee: Seq<GenesisNode>)
    ensures
        committee_genesis(committee).failure() == (if committee.len() > MAX_NODES {
            Some(GenesisError::TooManyNodes)
        } else if !distinct_node_keys(committee) {
            Some(GenesisError::DuplicateNode)
        } else {
            None
        }),
{
    let g = committee_genesis(committee);
    assert(g.services_in_place());
    assert(g.distinct_accounts());
}

/// The built-in genesis makes a ledger.
pub proof fn lemma_builtin_makes_ledger()
    ensures
        builtin_genesis().failure() is None,
{
    let g = builtin_genesis();
    assert(g.services_in_place());
    assert(g.distinct_accounts());
    assert forall|a: int, b: int| 0 <= a < b < g.node_info.len() implies (
    #[trigger] g.node_info[a]).primary_public_key != (#[trigger] g.node_info[b]).primary_public_key by {
        vstd::array::axiom_spec_array_fill_for_copy_type::<u8, 32>((a + 1) as u8);
        vstd::array::axiom_spec_array_fill_for_copy_type::<u8, 32>((b + 1) as u8);
        assert(g.node_info[a].primary_public_key[0] == (a + 1) as u8);
        assert(g.node_info[b].primary_public_key[0] == (b + 1) as u8);
    }
}

/// The row of an account of the genesis.
pub open spec fn first_account(a: GenesisAccount) -> Account {
    Account {
        address: a.address,
        flk_balance: a.flk_balance,
        stables_balance: a.stables_balance,
        bandwidth_balance: a.bandwidth_balance,
        nonce: 0,
    }
}

/// The row of a node of the genesis.
pub open spec fn first_node(g: GenesisNode, stake: u128) -> Node {
    Node {
        public_key: g.primary_public_key,
        owner: g.owner,
        consensus_key: g.consensus_public_key,
        worker_public_key: g.worker_public_key,
        domain: g.primary_domain,
        worker_domain: g.worker_domain,
        ports: g.ports,
        staked: stake,
        locked: 0,
        locked_until: 0,
        stake_locked_until: 0,
        nonce: 0,
        participation: Participation::True,
        reputation: g.reputation,
        revenue: 0,
    }
}

/// The indices of those of the first `upto` nodes that sit on the first
/// committee.
pub open spec fn first_members(nodes: Seq<GenesisNode>, upto: int) -> Seq<NodeIndex>
    decreases upto,
{
    if upto <= 0 {
        Seq::empty()
    } else if nodes[upto - 1].genesis_committee {
        first_members(nodes, upto - 1).push((upto - 1) as NodeIndex)
    } else {
        first_members(nodes, upto - 1)
    }
}

/// The first committee holds indices of nodes of the genesis only.
pub proof fn lemma_first_members(nodes: Seq<GenesisNode>, upto: int)
    requires
        upto <= nodes.len() <= MAX_NODES,
    ensures
        forall|i: int|
            0 <= i < first_members(nodes, upto).len() ==> (#[trigger] first_members(
                nodes,
                upto,
            )[i]) < upto,
    decreases upto,
{
    if upto > 0 {
        lemma_first_members(nodes, upto - 1);
        let before = first_members(nodes, upto - 1);
        assert forall|i: int| 0 <= i < first_members(nodes, upto).len() implies (
        #[trigger] first_members(nodes, upto)[i]) < upto by {
            if i < before.len() {
                assert(before[i] < upto - 1);
            }
        }
    }
}

fn nodes_distinct(nodes: &Vec<GenesisNode>) -> (distinct: bool)
    ensures
        distinct == forall|a: int, b: int|
            0 <= a < b < nodes@.len() ==> (#[trigger] nodes@[a]).primary_public_key != (
            #[trigger] nodes@[b]).primary_public_key,
{
    let mut b: usize = 0;
    while b < nodes.len()
        invariant
            b <= nodes.len(),
            forall|x: int, y: int|
                0 <= x < y < b ==> (#[trigger] nodes@[x]).primary_public_key != (
                #[trigger] nodes@[y]).primary_public_key,
        decreases nodes.len() - b,
    {
        let mut a: usize = 0;
        while a < b
            invariant
                a <= b < nodes.len(),
                forall|x: int|
                    0 <= x < a ==> (#[trigger] nodes@[x]).primary_public_key
                        != nodes@[b as int].primary_public_key,
            decreases b - a,
        {
            if bytes_eq(&nodes[a].primary_public_key, &nodes[b].primary_public_key) {
                assert(nodes@[a as int].primary_public_key == nodes@[b as int].primary_public_key);
                return false;
            }
            a += 1;
        }
        b += 1;
    }
    true
}

fn accounts_distinct(accounts: &Vec<GenesisAccount>) -> (distinct: bool)
    ensures
        distinct == forall|a: int, b: int|
            0 <= a < b < accounts@.len() ==> (#[trigger] accounts@[a]).address != (
            #[trigger] accounts@[b]).address,
{
    let mut b: usize = 0;
    while b < accounts.len()
        invariant
            b <= accounts.len(),
            forall|x: int, y: int|
                0 <= x < y < b ==> (#[trigger] accounts@[x]).address != (
                #[trigger] accounts@[y]).address,
        decreases accounts.len() - b,
    {
        let mut a: usize = 0;
        while a < b
            invariant
                a <= b < accounts.len(),
                forall|x: int|
                    0 <= x < a ==> (#[trigger] accounts@[x]).address != accounts@[b as int].address,
            decreases b - a,
        {
            if bytes_eq(&accounts[a].address, &accounts[b].address) {
                assert(accounts@[a as int].address == accounts@[b as int].address);
                return false;
            }
            a += 1;
        }
        b += 1;
    }
    true
}

fn services_placed(services: &Vec<GenesisService>) -> (placed: bool)
    ensures
        placed == forall|i: int| 0 <= i < services@.len() ==> (#[trigger] services@[i]).id == i,
{
    let mut i: usize = 0;
    while i < services.len()
        invariant
            i <= services.len(),
            forall|k: int| 0 <= k < i ==> (#[trigger] services@[k]).id == k,
        decreases services.len() - i,
    {
        if i > 0xffff_ffff || services[i].id != i as u32 {
            assert(services@[i as int].id != i);
            return false;
        }
        i += 1;
    }
    true
}

impl State {
    /// Makes the first ledger from a genesis, or says what is wrong with the
    /// genesis.
    pub fn from_genesis(genesis: &Genesis) -> (made: Result<State, GenesisError>)
        ensures
            match made {
                Ok(state) => genesis.failure() is None && state@ == genesis.state() && state@.wf(),
                Err(e) => genesis.failure() == Some(e),
            },
    {
        if genesis.node_info.len() > MAX_NODES {
            return Err(GenesisError::TooManyNodes);
        }
        if genesis.protocol_share as u32 + genesis.node_share as u32
            + genesis.service_builder_share as u32 != 100 {
            return Err(GenesisError::SharesNotWhole);
        }
        if !nodes_distinct(&genesis.node_info) {
            return Err(GenesisError::DuplicateNode);
        }
        if !accounts_distinct(&genesis.account) {
            return Err(GenesisError::DuplicateAccount);
        }
        if !services_placed(&genesis.service) {
            return Err(GenesisError::MisplacedService);
        }
        let stake: u128 = genesis.min_stake as u128 * FLK_UNIT;
        let supply: u128 = genesis.supply_at_genesis as u128 * FLK_UNIT;
        let mut accounts: Vec<Account> = Vec::new();
        let mut i: usize = 0;
        while i < genesis.account.len()
            invariant
                i <= genesis.account.len(),
                accounts@.len() == i,
                forall|k: int| 0 <= k < i ==> accounts@[k] == first_account(genesis.account@[k]),
            decreases genesis.account.len() - i,
        {
            let a = genesis.account[i];
            accounts.push(
                Account {
                    address: a.address,
                    flk_balance: a.flk_balance,
                    stables_balance: a.stables_balance,
                    bandwidth_balance: a.bandwidth_balance,
                    nonce: 0,
                },
            );
            i += 1;
        }
        let mut nodes: Vec<Node> = Vec::new();
        let mut members: Vec<NodeIndex> = Vec::new();
        let mut n: usize = 0;
        while n < genesis.node_info.len()
            invariant
                n <= genesis.node_info.len() <= MAX_NODES,
                nodes@.len() == n,
                forall|k: int| 0 <= k < n ==> nodes@[k] == first_node(genesis.node_info@[k], stake),
                members@ == first_members(genesis.node_info@, n as int),
            decreases genesis.node_info.len() - n,
        {
            let g = genesis.node_info[n];
            nodes.push(
                Node {
                    public_key: g.primary_public_key,
                    owner: g.owner,
                    consensus_key: g.consensus_public_key,
                    worker_public_key: g.worker_public_key,
                    domain: g.primary_domain,
                    worker_domain: g.worker_domain,
                    ports: g.ports,
                    staked: stake,
                    locked: 0,
                    locked_until: 0,
                    stake_locked_until: 0,
                    nonce: 0,
                    participation: Participation::True,
                    reputation: g.reputation,
                    revenue: 0,
                },
            );
            if g.genesis_committee {
                members.push(n as NodeIndex);
            }
            n += 1;
        }
        let mut services: Vec<Service> = Vec::new();
        let mut served: Vec<ServiceTotals> = Vec::new();
        let mut k: usize = 0;
        while k < genesis.service.len()
            invariant
                k <= genesis.service.len(),
                services@.len() == k,
                served@.len() == k,
                forall|j: int|
                    0 <= j < k ==> services@[j] == (Service {
                        owner: genesis.service@[j].owner,
                        commodity_price: genesis.service@[j].commodity_price,
                    }),
                forall|j: int|
                    0 <= j < k ==> served@[j] == (ServiceTotals { commodity: 0, revenue: 0 }),
            decreases genesis.service.len() - k,
        {
            let g = genesis.service[k];
            services.push(Service { owner: g.owner, commodity_price: g.commodity_price });
            served.push(ServiceTotals { commodity: 0, revenue: 0 });
            k += 1;
        }
        let zero = zero_digest();
        let state = State {
            metadata: Metadata {
                epoch: 0,
                epoch_start_ms: genesis.epoch_start,
                epoch_length_ms: genesis.epoch_time,
                last_block_digest: zero,
                supply,
                supply_at_year_start: supply,
                governance_address: genesis.governance_address,
                protocol_fund_address: genesis.protocol_fund_address,
            },
            params: ParamTable {
                epoch_time: genesis.epoch_time as u128,
                committee_size: genesis.committee_size as u128,
                minimum_node_stake: genesis.min_stake as u128,
                eligibility_time: genesis.eligibility_time as u128,
                lock_time: genesis.lock_time as u128,
                protocol_share: genesis.protocol_share as u128,
                node_share: genesis.node_share as u128,
                service_builder_share: genesis.service_builder_share as u128,
                max_inflation: genesis.max_inflation as u128,
                max_boost: genesis.max_boost as u128,
                max_stake_lock_time: genesis.max_lock_time as u128,
            },
            accounts,
            nodes,
            members,
            signalled: Vec::new(),
            epoch_end_ms: match genesis.epoch_start.checked_add(genesis.epoch_time) {
                Some(end) => end,
                None => u64::MAX,
            },
            services,
            served,
            deliveries: Vec::new(),
            reward_pool: 0,
            reports: Vec::new(),
            reporters: Vec::new(),
            withdrawals: Vec::new(),
            executed: Vec::new(),
        };
        proof {
            lemma_first_members(genesis.node_info@, genesis.node_info@.len() as int);
            if genesis.service@.len() > 0x1_0000_0000 {
                assert(genesis.service@[0x1_0000_0000].id == 0x1_0000_0000);
            }
            assert(state@.accounts =~= genesis.state().accounts);
            assert(state@.nodes =~= genesis.state().nodes);
            assert(state@.services =~= genesis.state().services);
            assert(state@.served =~= genesis.state().served);
            assert(state@ =~= genesis.state());
        }
        Ok(state)
    }
}

/// The built-in genesis, as tests use it.
pub fn test_genesis() -> (genesis: Genesis)
    ensures
        genesis.is_builtin(),
        genesis.well_formed(),
{
    Genesis::load()
}

/// The built-in genesis with the parameters that are given written over its
/// own, the committee replaced where one is given, and the first epoch
/// starting at `now`.
pub fn genesis_with_params(params: &Params, committee: Option<Vec<GenesisNode>>, now: u64) -> (genesis:
    Genesis)
    ensures
        genesis@ == params_genesis(*params, committee_view(committee), now),
{
    let mut genesis = test_genesis();
    if let Some(c) = committee {
        genesis.node_info = c;
    }
    genesis.epoch_start = now;
    if let Some(v) = params.epoch_time {
        genesis.epoch_time = v;
    }
    if let Some(v) = params.max_inflation {
        genesis.max_inflation = v;
    }
    if let Some(v) = params.protocol_share {
        genesis.protocol_share = v;
    }
    if let Some(v) = params.node_share {
        genesis.node_share = v;
    }
    if let Some(v) = params.service_builder_share {
        genesis.service_builder_share = v;
    }
    if let Some(v) = params.max_boost {
        genesis.max_boost = v;
    }
    if let Some(v) = params.supply_at_genesis {
        genesis.supply_at_genesis = v;
    }
    assert(genesis@ =~= params_genesis(*params, committee_view(committee), now));
    genesis
}

} // verus!
