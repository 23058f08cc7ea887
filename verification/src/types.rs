//! Plain data of the ledger: tokens, node details, protocol parameters and
//! reputation measurements.

use crate::keys::{Address, ConsensusKey, IpAddress, NodeIndex, NodeKey};
use vstd::prelude::*;

verus! {

/// The two currencies of the ledger.
#[derive(Clone, Copy, Debug, PartialEq, Eq)]
pub enum Tokens {
    FLK,
    USDC,
}

/// Whether a node takes part in the network.
#[derive(Clone, Copy, Debug, PartialEq, Eq)]
pub enum Participation {
    /// The node takes part.
    True,
    /// The node does not take part.
    False,
    /// The node asked to take part from the next epoch on.
    OptedIn,
    /// The node asked to leave with the next epoch.
    OptedOut,
}

/// Ports of the handshake transports.
#[derive(Clone, Copy, Debug, PartialEq, Eq)]
pub struct HandshakePorts {
    pub http: u16,
    pub webrtc: u16,
    pub webtransport: u16,
}

/// Ports on which a node listens.
#[derive(Clone, Copy, Debug, PartialEq, Eq)]
pub struct NodePorts {
    pub primary: u16,
    pub worker: u16,
    pub mempool: u16,
    pub rpc: u16,
    pub pool: u16,
    pub dht: u16,
    pub pinger: u16,
    pub handshake: HandshakePorts,
}

impl Default for HandshakePorts {
    fn default() -> (ports: Self)
        ensures
            ports == (HandshakePorts { http: 4220, webrtc: 4320, webtransport: 4321 }),
    {
        HandshakePorts { http: 4220, webrtc: 4320, webtransport: 4321 }
    }
}

impl Default for NodePorts {
    fn default() -> (ports: Self)
        ensures
            ports == (NodePorts {
                primary: 4310,
                worker: 4311,
                mempool: 4210,
                rpc: 4230,
                pool: 4300,
                dht: 4340,
                pinger: 4350,
                handshake: HandshakePorts { http: 4220, webrtc: 4320, webtransport: 4321 },
            }),
    {
        NodePorts {
            primary: 4310,
            worker: 4311,
            mempool: 4210,
            rpc: 4230,
            pool: 4300,
            dht: 4340,
            pinger: 4350,
            handshake: HandshakePorts::default(),
        }
    }
}

/// The knobs of the protocol that governance can turn.
#[derive(Clone, Copy, Debug, PartialEq, Eq)]
pub enum ProtocolParams {
    /// Length of an epoch in milliseconds.
    EpochTime,
    /// Number of seats in the committee.
    CommitteeSize,
    /// Stake, in whole FLK, below which a node is not valid.
    MinimumNodeStake,
    /// Epochs a node has to be staked before it is eligible.
    EligibilityTime,
    /// Epochs for which unstaked tokens stay locked.
    LockTime,
    /// Hundredths of the rewards that go to the protocol fund.
    ProtocolShare,
    /// Hundredths of the rewards that go to the nodes.
    NodeShare,
    /// Hundredths of the rewards that go to the builders of services.
    ServiceBuilderShare,
    /// Yearly inflation in hundredths of the supply at the start of the year.
    MaxInflation,
    /// Largest reward multiplier that locking a stake can earn.
    MaxBoost,
    /// Largest number of epochs for which a stake can be locked.
    MaxStakeLockTime,
}

/// The value of every protocol parameter.
#[derive(Clone, Copy, Debug, PartialEq, Eq)]
pub struct ParamTable {
    pub epoch_time: u128,
    pub committee_size: u128,
    pub minimum_node_stake: u128,
    pub eligibility_time: u128,
    pub lock_time: u128,
    pub protocol_share: u128,
    pub node_share: u128,
    pub service_builder_share: u128,
    pub max_inflation: u128,
    pub max_boost: u128,
    pub max_stake_lock_time: u128,
}

impl ParamTable {
    /// The value of one parameter.
    pub open spec fn get_spec(self, param: ProtocolParams) -> u128 {
        match param {
            ProtocolParams::EpochTime => self.epoch_time,
            ProtocolParams::CommitteeSize => self.committee_size,
            ProtocolParams::MinimumNodeStake => self.minimum_node_stake,
            ProtocolParams::EligibilityTime => self.eligibility_time,
            ProtocolParams::LockTime => self.lock_time,
            ProtocolParams::ProtocolShare => self.protocol_share,
            ProtocolParams::NodeShare => self.node_share,
            ProtocolParams::ServiceBuilderShare => self.service_builder_share,
            ProtocolParams::MaxInflation => self.max_inflation,
            ProtocolParams::MaxBoost => self.max_boost,
            ProtocolParams::MaxStakeLockTime => self.max_stake_lock_time,
        }
    }

    /// The table with one parameter overwritten.
    pub open spec fn set_spec(self, param: ProtocolParams, value: u128) -> ParamTable {
        match param {
            ProtocolParams::EpochTime => ParamTable { epoch_time: value, ..self },
            ProtocolParams::CommitteeSize => ParamTable { committee_size: value, ..self },
            ProtocolParams::MinimumNodeStake => ParamTable { minimum_node_stake: value, ..self },
            ProtocolParams::EligibilityTime => ParamTable { eligibility_time: value, ..self },
            ProtocolParams::LockTime => ParamTable { lock_time: value, ..self },
            ProtocolParams::ProtocolShare => ParamTable { protocol_share: value, ..self },
            ProtocolParams::NodeShare => ParamTable { node_share: value, ..self },
            ProtocolParams::ServiceBuilderShare => ParamTable {
                service_builder_share: value,
                ..self
            },
            ProtocolParams::MaxInflation => ParamTable { max_inflation: value, ..self },
            ProtocolParams::MaxBoost => ParamTable { max_boost: value, ..self },
            ProtocolParams::MaxStakeLockTime => ParamTable { max_stake_lock_time: value, ..self },
        }
    }

    /// Reads one parameter.
    pub fn get(&self, param: ProtocolParams) -> (value: u128)
        ensures
            value == self.get_spec(param),
    {
        match param {
            ProtocolParams::EpochTime => self.epoch_time,
            ProtocolParams::CommitteeSize => self.committee_size,
            ProtocolParams::MinimumNodeStake => self.minimum_node_stake,
            ProtocolParams::EligibilityTime => self.eligibility_time,
            ProtocolParams::LockTime => self.lock_time,
            ProtocolParams::ProtocolShare => self.protocol_share,
            ProtocolParams::NodeShare => self.node_share,
            ProtocolParams::ServiceBuilderShare => self.service_builder_share,
            ProtocolParams::MaxInflation => self.max_inflation,
            ProtocolParams::MaxBoost => self.max_boost,
            ProtocolParams::MaxStakeLockTime => self.max_stake_lock_time,
        }
    }

    /// Overwrites one parameter and leaves the others as they are.
    pub fn set(&mut self, param: ProtocolParams, value: u128)
        ensures
            *final(self) == old(self).set_spec(param, value),
    {
        match param {
            ProtocolParams::EpochTime => {
                self.epoch_time = value;
            },
            ProtocolParams::CommitteeSize => {
                self.committee_size = value;
            },
            ProtocolParams::MinimumNodeStake => {
                self.minimum_node_stake = value;
            },
            ProtocolParams::EligibilityTime => {
                self.eligibility_time = value;
            },
            ProtocolParams::LockTime => {
                self.lock_time = value;
            },
            ProtocolParams::ProtocolShare => {
                self.protocol_share = value;
            },
            ProtocolParams::NodeShare => {
                self.node_share = value;
            },
            ProtocolParams::ServiceBuilderShare => {
                self.service_builder_share = value;
            },
            ProtocolParams::MaxInflation => {
                self.max_inflation = value;
            },
            ProtocolParams::MaxBoost => {
                self.max_boost = value;
            },
            ProtocolParams::MaxStakeLockTime => {
                self.max_stake_lock_time = value;
            },
        }
    }
}

/// What one node measured of another during an epoch. A metric that was not
/// measured is absent.
#[derive(Clone, Copy, Debug, PartialEq, Eq)]
pub struct ReputationMeasurements {
    /// Round-trip latency in milliseconds.
    pub latency: Option<u64>,
    /// Balance of good and bad interactions.
    pub interactions: Option<i64>,
    /// Bytes per second received from the node.
    pub inbound_bandwidth: Option<u128>,
    /// Bytes per second sent to the node.
    pub outbound_bandwidth: Option<u128>,
    pub bytes_received: Option<u128>,
    pub bytes_sent: Option<u128>,
    /// Hundredths of the epoch for which the node was reachable.
    pub uptime: Option<u8>,
    /// Network hops to the node.
    pub hops: Option<u8>,
}

/// The balances and the nonce of an account.
#[derive(Clone, Copy, Debug, PartialEq, Eq)]
pub struct Account {
    pub address: Address,
    /// FLK, in units of `10^-18`.
    pub flk_balance: u128,
    /// Stable currency, in units of `10^-6`.
    pub stables_balance: u128,
    pub bandwidth_balance: u128,
    /// Number of transactions of this account that were executed.
    pub nonce: u64,
}

/// A node of the registry. Its position in the registry is its index.
#[derive(Clone, Copy, Debug, PartialEq, Eq)]
pub struct Node {
    pub public_key: NodeKey,
    pub owner: Address,
    pub consensus_key: ConsensusKey,
    pub worker_public_key: NodeKey,
    pub domain: IpAddress,
    pub worker_domain: IpAddress,
    pub ports: NodePorts,
    /// Staked FLK, in units of `10^-18`.
    pub staked: u128,
    /// Unstaked FLK that cannot be withdrawn yet.
    pub locked: u128,
    /// Epoch from which on the locked tokens can be withdrawn.
    pub locked_until: u64,
    /// Epoch up to which the stake cannot be unstaked.
    pub stake_locked_until: u64,
    /// Number of transactions of this node that were executed.
    pub nonce: u64,
    pub participation: Participation,
    /// Score between 0 and 100 from the last epoch with enough reports.
    pub reputation: Option<u8>,
    /// Revenue in stable currency that the node earned in this epoch.
    pub revenue: u128,
}

/// A service that nodes deliver.
#[derive(Clone, Copy, Debug, PartialEq, Eq)]
pub struct Service {
    pub owner: Address,
    /// Price of one unit of the commodity, in units of `10^-6` of the stable
    /// currency.
    pub commodity_price: u128,
}

/// What was delivered of one service in this epoch.
#[derive(Clone, Copy, Debug, PartialEq, Eq)]
pub struct ServiceTotals {
    pub commodity: u128,
    pub revenue: u128,
}

/// One acknowledged delivery of this epoch.
#[derive(Clone, Copy, Debug, PartialEq, Eq)]
pub struct Delivery {
    pub node: NodeIndex,
    pub service: u32,
    pub commodity: u128,
}

/// One node's measurements of another, as reported in this epoch.
#[derive(Clone, Copy, Debug, PartialEq, Eq)]
pub struct Report {
    pub reporter: NodeIndex,
    pub subject: NodeIndex,
    pub measurements: ReputationMeasurements,
}

/// The intent to pay out tokens that left an account.
#[derive(Clone, Copy, Debug, PartialEq, Eq)]
pub struct Withdrawal {
    pub account: Address,
    pub receiver: Address,
    pub token: Tokens,
    pub amount: u128,
}

/// The single row of facts about the chain as a whole.
#[derive(Clone, Copy, Debug, PartialEq, Eq)]
pub struct Metadata {
    pub epoch: u64,
    pub epoch_start_ms: u64,
    pub epoch_length_ms: u64,
    pub last_block_digest: [u8; 32],
    /// All FLK ever issued, in units of `10^-18`.
    pub supply: u128,
    pub supply_at_year_start: u128,
    pub governance_address: Address,
    pub protocol_fund_address: Address,
}

} // verus!
