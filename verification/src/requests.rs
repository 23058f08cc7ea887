//! Builders of requests, one for each kind of transaction that tests send.
//!
//! A request that is built here carries the signature that it is given and is
//! marked as signed by its sender: whoever builds it vouches for that.

use crate::keys::{Address, ConsensusKey, IpAddress, NodeKey, SignatureBytes};
use crate::query::PagingParams;
use crate::state::State;
use crate::executor::{apply_block_spec, block_digests, changed_epoch};
use crate::hashing::{zero_digest, zero_digest_spec};
use crate::transaction::{
    Block, BlockExecutionResponse, DeliveryAcknowledgment, ProofOfConsensus, TransactionRequest,
    TransactionSender, UpdateMethod, UpdatePayload, UpdateRequest,
};
use crate::types::{NodePorts, ProtocolParams, ReputationMeasurements, Tokens};
use vstd::prelude::*;

verus! {

/// A request of a node.
pub fn get_update_request_node(
    method: UpdateMethod,
    sender: &NodeKey,
    nonce: u64,
    signature: SignatureBytes,
) -> (request: UpdateRequest)
    ensures
        request == (UpdateRequest {
            signature,
            signature_valid: true,
            payload: UpdatePayload { sender: TransactionSender::NodeMain(*sender), nonce, method },
        }),
{
    UpdateRequest {
        signature,
        signature_valid: true,
        payload: UpdatePayload { sender: TransactionSender::NodeMain(*sender), nonce, method },
    }
}

/// A request of the owner of an account.
pub fn get_update_request_account(
    method: UpdateMethod,
    sender: &Address,
    nonce: u64,
    signature: SignatureBytes,
) -> (request: UpdateRequest)
    ensures
        request == (UpdateRequest {
            signature,
            signature_valid: true,
            payload: UpdatePayload {
                sender: TransactionSender::AccountOwner(*sender),
                nonce,
                method,
            },
        }),
{
    UpdateRequest {
        signature,
        signature_valid: true,
        payload: UpdatePayload { sender: TransactionSender::AccountOwner(*sender), nonce, method },
    }
}

/// A deposit of FLK.
pub fn prepare_deposit_update(amount: u128, sender: &Address, nonce: u64, signature: SignatureBytes) -> (request:
    UpdateRequest)
    ensures
        request.signature == signature,
        request.signature_valid,
        request.payload.sender == TransactionSender::AccountOwner(*sender),
        request.payload.nonce == nonce,
        request.payload.method == (UpdateMethod::Deposit {
            proof: ProofOfConsensus {  },
            token: Tokens::FLK,
            amount,
        }),
{
    get_update_request_account(
        UpdateMethod::Deposit { proof: ProofOfConsensus {  }, token: Tokens::FLK, amount },
        sender,
        nonce,
        signature,
    )
}

/// A stake on a node that is registered: no details are given.
pub fn prepare_regular_stake_update(
    amount: u128,
    node_public_key: &NodeKey,
    sender: &Address,
    nonce: u64,
    signature: SignatureBytes,
) -> (request: UpdateRequest)
    ensures
        request.signature == signature,
        request.signature_valid,
        request.payload.sender == TransactionSender::AccountOwner(*sender),
        request.payload.nonce == nonce,
        request.payload.method == (UpdateMethod::Stake {
            amount,
            node_public_key: *node_public_key,
            consensus_key: None,
            node_domain: None,
            worker_public_key: None,
            worker_domain: None,
            ports: None,
        }),
{
    get_update_request_account(
        UpdateMethod::Stake {
            amount,
            node_public_key: *node_public_key,
            consensus_key: None,
            node_domain: None,
            worker_public_key: None,
            worker_domain: None,
            ports: None,
        },
        sender,
        nonce,
        signature,
    )
}

/// A stake on a node that is new: all its details are given.
pub fn prepare_initial_stake_update(
    amount: u128,
    node_public_key: &NodeKey,
    consensus_key: ConsensusKey,
    node_domain: IpAddress,
    worker_pub_key: NodeKey,
    worker_domain: IpAddress,
    ports: NodePorts,
    sender: &Address,
    nonce: u64,
    signature: SignatureBytes,
) -> (request: UpdateRequest)
    ensures
        request.signature == signature,
        request.signature_valid,
        request.payload.sender == TransactionSender::AccountOwner(*sender),
        request.payload.nonce == nonce,
        request.payload.method == (UpdateMethod::Stake {
            amount,
            node_public_key: *node_public_key,
            consensus_key: Some(consensus_key),
            node_domain: Some(node_domain),
            worker_public_key: Some(worker_pub_key),
            worker_domain: Some(worker_domain),
            ports: Some(ports),
        }),
{
    get_update_request_account(
        UpdateMethod::Stake {
            amount,
            node_public_key: *node_public_key,
            consensus_key: Some(consensus_key),
            node_domain: Some(node_domain),
            worker_public_key: Some(worker_pub_key),
            worker_domain: Some(worker_domain),
            ports: Some(ports),
        },
        sender,
        nonce,
        signature,
    )
}

/// An unstake.
pub fn prepare_unstake_update(
    amount: u128,
    node_public_key: &NodeKey,
    sender: &Address,
    nonce: u64,
    signature: SignatureBytes,
) -> (request: UpdateRequest)
    ensures
        request.signature == signature,
        request.signature_valid,
        request.payload.sender == TransactionSender::AccountOwner(*sender),
        request.payload.nonce == nonce,
        request.payload.method == (UpdateMethod::Unstake { amount, node: *node_public_key }),
{
    get_update_request_account(
        UpdateMethod::Unstake { amount, node: *node_public_key },
        sender,
        nonce,
        signature,
    )
}

/// A withdrawal of unstaked tokens.
pub fn prepare_withdraw_unstaked_update(
    node_public_key: &NodeKey,
    recipient: Option<Address>,
    sender: &Address,
    nonce: u64,
    signature: SignatureBytes,
) -> (request: UpdateRequest)
    ensures
        request.signature == signature,
        request.signature_valid,
        request.payload.sender == TransactionSender::AccountOwner(*sender),
        request.payload.nonce == nonce,
        request.payload.method == (UpdateMethod::WithdrawUnstaked {
            node: *node_public_key,
            recipient,
        }),
{
    get_update_request_account(
        UpdateMethod::WithdrawUnstaked { node: *node_public_key, recipient },
        sender,
        nonce,
        signature,
    )
}

/// A lock of a stake.
pub fn prepare_stake_lock_update(
    node_public_key: &NodeKey,
    locked_for: u64,
    sender: &Address,
    nonce: u64,
    signature: SignatureBytes,
) -> (request: UpdateRequest)
    ensures
        request.signature == signature,
        request.signature_valid,
        request.payload.sender == TransactionSender::AccountOwner(*sender),
        request.payload.nonce == nonce,
        request.payload.method == (UpdateMethod::StakeLock { node: *node_public_key, locked_for }),
{
    get_update_request_account(
        UpdateMethod::StakeLock { node: *node_public_key, locked_for },
        sender,
        nonce,
        signature,
    )
}

/// A lock of a stake, with the time first.
pub fn prepare_stake_lock_request(
    locked_for: u64,
    node: &NodeKey,
    sender: &Address,
    nonce: u64,
    signature: SignatureBytes,
) -> (request: UpdateRequest)
    ensures
        request.signature == signature,
        request.signature_valid,
        request.payload.sender == TransactionSender::AccountOwner(*sender),
        request.payload.nonce == nonce,
        request.payload.method == (UpdateMethod::StakeLock { node: *node, locked_for }),
{
    prepare_stake_lock_update(node, locked_for, sender, nonce, signature)
}

/// A report of a delivery, with one acknowledgment and no metadata.
pub fn prepare_pod_request(
    commodity: u128,
    service_id: u32,
    sender: &NodeKey,
    nonce: u64,
    signature: SignatureBytes,
) -> (request: UpdateRequest)
    ensures
        request.signature == signature,
        request.signature_valid,
        request.payload.sender == TransactionSender::NodeMain(*sender),
        request.payload.nonce == nonce,
        request.payload.method matches UpdateMethod::SubmitDeliveryAcknowledgmentAggregation {
            commodity: c,
            service_id: s,
            proofs,
            metadata,
        } && c == commodity && s == service_id && proofs@ == seq![DeliveryAcknowledgment {  }]
            && metadata is None,
{
    let mut proofs: Vec<DeliveryAcknowledgment> = Vec::new();
    proofs.push(DeliveryAcknowledgment {  });
    get_update_request_node(
        UpdateMethod::SubmitDeliveryAcknowledgmentAggregation {
            commodity,
            service_id,
            proofs,
            metadata: None,
        },
        sender,
        nonce,
        signature,
    )
}

/// A signal for the change of the epoch.
pub fn prepare_change_epoch_request(
    epoch: u64,
    sender: &NodeKey,
    nonce: u64,
    signature: SignatureBytes,
) -> (request: UpdateRequest)
    ensures
        request.signature == signature,
        request.signature_valid,
        request.payload.sender == TransactionSender::NodeMain(*sender),
        request.payload.nonce == nonce,
        request.payload.method == (UpdateMethod::ChangeEpoch { epoch }),
{
    get_update_request_node(UpdateMethod::ChangeEpoch { epoch }, sender, nonce, signature)
}

/// A transfer of FLK.
pub fn prepare_transfer_request(
    amount: u128,
    to: &Address,
    sender: &Address,
    nonce: u64,
    signature: SignatureBytes,
) -> (request: UpdateRequest)
    ensures
        request.signature == signature,
        request.signature_valid,
        request.payload.sender == TransactionSender::AccountOwner(*sender),
        request.payload.nonce == nonce,
        request.payload.method == (UpdateMethod::Transfer { amount, token: Tokens::FLK, to: *to }),
{
    get_update_request_account(
        UpdateMethod::Transfer { amount, token: Tokens::FLK, to: *to },
        sender,
        nonce,
        signature,
    )
}

/// A change of a protocol parameter.
pub fn prepare_change_protocol_param_request(
    param: ProtocolParams,
    value: u128,
    sender: &Address,
    nonce: u64,
    signature: SignatureBytes,
) -> (request: UpdateRequest)
    ensures
        request.signature == signature,
        request.signature_valid,
        request.payload.sender == TransactionSender::AccountOwner(*sender),
        request.payload.nonce == nonce,
        request.payload.method == (UpdateMethod::ChangeProtocolParam { param, value }),
{
    get_update_request_account(
        UpdateMethod::ChangeProtocolParam { param, value },
        sender,
        nonce,
        signature,
    )
}

/// Measurements that say nothing but the uptime.
pub fn test_reputation_measurements(uptime: u8) -> (m: ReputationMeasurements)
    ensures
        m == (ReputationMeasurements {
            latency: None,
            interactions: None,
            inbound_bandwidth: None,
            outbound_bandwidth: None,
            bytes_received: None,
            bytes_sent: None,
            uptime: Some(uptime),
            hops: None,
        }),
{
    ReputationMeasurements {
        latency: None,
        interactions: None,
        inbound_bandwidth: None,
        outbound_bandwidth: None,
        bytes_received: None,
        bytes_sent: None,
        uptime: Some(uptime),
        hops: None,
    }
}

/// The part of the node registry that is asked for.
pub fn paging_params(ignore_stake: bool, start: u32, limit: usize) -> (params: PagingParams)
    ensures
        params == (PagingParams { ignore_stake, start, limit }),
{
    PagingParams { ignore_stake, start, limit }
}

/// Runs the requests as one block whose digest is all zeros.
pub fn run_transaction(state: &mut State, requests: Vec<TransactionRequest>, now: u64) -> (response:
    BlockExecutionResponse)
    requires
        old(state)@.wf(),
    ensures
        (final(state)@, response.txn_receipts@) == apply_block_spec(
            old(state)@,
            Block { transactions: requests, digest: zero_digest_spec() },
            block_digests(requests@),
            now,
        ),
        response.change_epoch == changed_epoch(response.txn_receipts@),
        final(state)@.wf(),
{
    let block = Block { transactions: requests, digest: zero_digest() };
    state.execute_block(&block, now)
}

} // verus!
