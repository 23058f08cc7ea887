//! Core of a stake-weighted edge network node: the ledger and its transaction
//! executor, the bridge from ordered consensus output to blocks, parcel
//! attestation for edge nodes, and the epoch-scoped gossip broadcast.
//!
//! Every function states what it returns or changes over a mathematical view
//! of its data, and the laws that tie the functions together are proved next
//! to them.

// Bytes, numbers and digests.
pub mod fixed;
pub mod hashing;
pub mod keys;
pub mod sums;
pub mod text;
pub mod wire;

// The ledger.
pub mod codec;
pub mod committee;
pub mod config;
pub mod epoch;
pub mod executor;
pub mod genesis;
pub mod query;
pub mod reputation;
pub mod requests;
pub mod rewards;
pub mod root;
pub mod staking;
pub mod state;
pub mod tokens;
pub mod transaction;
pub mod types;

// What holds of the ledger.
pub mod conservation;
pub mod frames;
pub mod laws;
pub mod nonces;
pub mod quorum;
pub mod registry;
pub mod reporting;

// Consensus.
pub mod bridge;
pub mod parcel;

// Gossip.
pub mod gossip;
pub mod frame;
pub mod interner;
pub mod ring;
pub mod seen;

// Around the node.
pub mod dht;
pub mod firewall;
pub mod mock_dir;
pub mod rpc;
pub mod timer;
pub mod transport;
