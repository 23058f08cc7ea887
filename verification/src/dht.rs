//! Messages of the distributed hash table.

use crate::keys::{IpAddress, NodeKey};
use vstd::prelude::*;

verus! {

/// Key of a value in the table.
pub type TableKey = [u8; 32];

/// Where a node of the table can be reached.
#[derive(Clone, Debug, PartialEq, Eq)]
pub struct NodeInfo {
    pub address: IpAddress,
    pub port: u16,
    pub key: NodeKey,
}

/// A request to a node of the table.
#[derive(Clone, Debug, PartialEq, Eq)]
pub enum Query {
    Find { find_value: bool, target: TableKey },
    Store { key: TableKey, value: Vec<u8> },
    Ping,
}

/// The answer to a query.
#[derive(Clone, Debug, PartialEq, Eq)]
pub struct Response {
    pub nodes: Vec<NodeInfo>,
    pub value: Option<Vec<u8>>,
}

/// What a message carries.
#[derive(Clone, Debug, PartialEq, Eq)]
pub enum MessagePayload {
    Query(Query),
    Response(Response),
}

/// A message between two nodes of the table.
#[derive(Clone, Debug, PartialEq, Eq)]
pub struct Message {
    /// Random value that the response must return.
    pub id: u64,
    /// Channel on which to route the response.
    pub channel_id: u64,
    /// Public key of the sender.
    pub sender_key: NodeKey,
    /// What the message carries.
    pub payload: MessagePayload,
}

} // verus!
