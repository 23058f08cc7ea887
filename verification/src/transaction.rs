//! Transactions, blocks and what the executor answers to them.

use crate::hashing::Digest;
use crate::keys::{Address, ConsensusKey, IpAddress, NodeIndex, NodeKey, SignatureBytes};
use crate::types::{NodePorts, ProtocolParams, ReputationMeasurements, Tokens};
use vstd::prelude::*;

verus! {

/// Who sends a transaction: a node, by its public key, or the owner of an
/// account, by the account's address.
#[derive(Clone, Copy, Debug, PartialEq, Eq)]
pub enum TransactionSender {
    NodeMain(NodeKey),
    AccountOwner(Address),
}

/// Proof that consensus has seen a deposit.
#[derive(Clone, Copy, Debug, PartialEq, Eq)]
pub struct ProofOfConsensus {}

/// Acknowledgment by a client that a delivery took place.
#[derive(Clone, Copy, Debug, PartialEq, Eq)]
pub struct DeliveryAcknowledgment {}

/// What a transaction asks for.
#[derive(Clone, Debug, PartialEq, Eq)]
pub enum UpdateMethod {
    /// Credit tokens that arrived over the bridge.
    Deposit { proof: ProofOfConsensus, token: Tokens, amount: u128 },
    /// Debit tokens and record the intent to pay them out.
    Withdraw { amount: u128, token: Tokens, receiving_address: Address },
    /// Move tokens to another account.
    Transfer { amount: u128, token: Tokens, to: Address },
    /// Move FLK from the sender's balance to a node's stake. A node that is
    /// not registered yet needs all its details.
    Stake {
        amount: u128,
        node_public_key: NodeKey,
        consensus_key: Option<ConsensusKey>,
        node_domain: Option<IpAddress>,
        worker_public_key: Option<NodeKey>,
        worker_domain: Option<IpAddress>,
        ports: Option<NodePorts>,
    },
    /// Keep a node's stake from being unstaked for more epochs.
    StakeLock { node: NodeKey, locked_for: u64 },
    /// Move stake to the locked tokens of the node.
    Unstake { amount: u128, node: NodeKey },
    /// Move the locked tokens of a node to an account.
    WithdrawUnstaked { node: NodeKey, recipient: Option<Address> },
    /// Signal that the sender is ready to leave the given epoch.
    ChangeEpoch { epoch: u64 },
    /// Record what the sender served of a service.
    SubmitDeliveryAcknowledgmentAggregation {
        commodity: u128,
        service_id: u32,
        proofs: Vec<DeliveryAcknowledgment>,
        metadata: Option<Vec<u8>>,
    },
    /// Hand in the sender's measurements of other nodes for this epoch.
    SubmitReputationMeasurements { measurements: Vec<(NodeIndex, ReputationMeasurements)> },
    /// Overwrite a protocol parameter.
    ChangeProtocolParam { param: ProtocolParams, value: u128 },
    /// Ask to take part from the next epoch on.
    OptIn {},
    /// Ask to leave with the next epoch.
    OptOut {},
}

/// The signed part of a transaction.
#[derive(Clone, Debug, PartialEq, Eq)]
pub struct UpdatePayload {
    pub sender: TransactionSender,
    /// One more than the number of transactions of the sender that were
    /// executed before.
    pub nonce: u64,
    pub method: UpdateMethod,
}

/// A transaction as it reaches the executor.
#[derive(Clone, Debug, PartialEq, Eq)]
pub struct UpdateRequest {
    pub signature: SignatureBytes,
    /// Whether the signature was checked against the digest of the payload
    /// under the sender's key and found good. Whoever hands the request on
    /// sets this after checking.
    pub signature_valid: bool,
    pub payload: UpdatePayload,
}

/// A transaction request.
pub type TransactionRequest = UpdateRequest;

/// An ordered list of transactions with the digest that stands for it.
#[derive(Clone, Debug, PartialEq, Eq)]
pub struct Block {
    pub transactions: Vec<TransactionRequest>,
    pub digest: Digest,
}

/// What a successful transaction hands back.
#[derive(Clone, Copy, Debug, PartialEq, Eq)]
pub enum ExecutionData {
    Nothing,
    UInt(u128),
    /// The transaction was the signal that ended the epoch.
    EpochChange,
}

/// Why a transaction was reverted.
#[derive(Clone, Copy, Debug, PartialEq, Eq)]
pub enum ExecutionError {
    InvalidSignature,
    InvalidNonce,
    NotNodeOwner,
    NotCommitteeMember,
    NodeDoesNotExist,
    AlreadySignaled,
    InvalidServiceId,
    OnlyAccountOwner,
    OnlyNode,
    OnlyGovernance,
    InsufficientBalance,
    InsufficientStake,
    InsufficientStakesToLock,
    InsufficientNodeDetails,
    LockExceededMaxStakeLockTime,
    LockedTokensUnstakeForbidden,
    TokensLocked,
    EpochHasNotStarted,
    EpochAlreadyStarted,
    AlreadySubmittedMeasurements,
    CantSendToYourself,
    /// An amount or an epoch would no longer fit its number type.
    Overflow,
    /// Every node index is taken.
    RegistryFull,
}

/// How a transaction ended.
#[derive(Clone, Copy, Debug, PartialEq, Eq)]
pub enum TransactionResponse {
    Success(ExecutionData),
    Revert(ExecutionError),
}

/// Where a transaction was addressed to.
#[derive(Clone, Copy, Debug, PartialEq, Eq)]
pub enum TransactionDestination {
    /// The network's own ledger.
    Fleek,
}

/// The record of one executed transaction.
#[derive(Clone, Copy, Debug, PartialEq, Eq)]
pub struct TransactionReceipt {
    pub block_hash: Digest,
    pub transaction_index: u64,
    pub hash: Digest,
    pub from: TransactionSender,
    pub to: TransactionDestination,
    pub response: TransactionResponse,
}

/// What the executor answers to a block.
#[derive(Clone, Debug, PartialEq, Eq)]
pub struct BlockExecutionResponse {
    pub block_hash: Digest,
    /// Whether a transaction of the block ended the epoch.
    pub change_epoch: bool,
    pub txn_receipts: Vec<TransactionReceipt>,
}

} // verus!
