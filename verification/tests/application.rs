use lightning_core::committee::calculate_required_signals;
use lightning_core::fixed::FLK_UNIT;
use lightning_core::genesis::{
    create_genesis_committee, genesis_with_params, test_genesis, CommitteeKeys, Genesis,
    GenesisError, GenesisNode, Params,
};
use lightning_core::keys::{Address, IpAddress, NodeKey};
use lightning_core::query::{PagingParams, TotalServed};
use lightning_core::state::State;
use lightning_core::transaction::{
    Block, BlockExecutionResponse, DeliveryAcknowledgment, ExecutionData, ExecutionError,
    ProofOfConsensus, TransactionRequest, TransactionResponse, TransactionSender, UpdateMethod,
    UpdatePayload, UpdateRequest,
};
use lightning_core::types::{
    NodePorts, Participation, ProtocolParams, ReputationMeasurements, Tokens,
};

const NOW: u64 = 1_700_000_000_000;

fn flk(whole: u128) -> u128 {
    whole * FLK_UNIT
}

fn owner_address(i: u8) -> Address {
    [0x40 + i; 20]
}

fn node_key(i: u8) -> NodeKey {
    [0x40 + i; 32]
}

fn committee_keys(n: usize) -> Vec<CommitteeKeys> {
    (0..n)
        .map(|i| CommitteeKeys {
            owner: [100 + i as u8; 20],
            node_public_key: [100 + i as u8; 32],
            consensus_public_key: [100 + i as u8; 96],
        })
        .collect()
}

fn init_app(genesis: Option<Genesis>) -> State {
    let genesis = genesis.unwrap_or_else(test_genesis);
    State::from_genesis(&genesis).unwrap()
}

fn test_init_app(committee: Vec<GenesisNode>) -> State {
    let mut genesis = test_genesis();
    genesis.node_info = committee;
    init_app(Some(genesis))
}

fn test_reputation_measurements(uptime: u8) -> ReputationMeasurements {
    ReputationMeasurements {
        latency: None,
        interactions: None,
        inbound_bandwidth: None,
        outbound_bandwidth: None,
        bytes_received: None,
        bytes_sent: None,
        uptime: Some(uptime),
        hops: None,
    }
}

fn full_measurements(seed: u64) -> ReputationMeasurements {
    ReputationMeasurements {
        latency: Some(20 + seed),
        interactions: Some(10 + seed as i64),
        inbound_bandwidth: Some(5_000_000 + seed as u128),
        outbound_bandwidth: Some(7_000_000 + seed as u128),
        bytes_received: Some(1_000_000_000 * seed as u128),
        bytes_sent: Some(2_000_000_000 * seed as u128),
        uptime: Some(90),
        hops: Some(3),
    }
}

fn get_update_request_node(method: UpdateMethod, key: &NodeKey, nonce: u64) -> UpdateRequest {
    UpdateRequest {
        signature: [0; 64],
        signature_valid: true,
        payload: UpdatePayload { sender: TransactionSender::NodeMain(*key), nonce, method },
    }
}

fn get_update_request_account(method: UpdateMethod, owner: &Address, nonce: u64) -> UpdateRequest {
    UpdateRequest {
        signature: [0; 64],
        signature_valid: true,
        payload: UpdatePayload { sender: TransactionSender::AccountOwner(*owner), nonce, method },
    }
}

fn prepare_deposit_update(amount: u128, owner: &Address, nonce: u64) -> UpdateRequest {
    get_update_request_account(
        UpdateMethod::Deposit { proof: ProofOfConsensus {}, token: Tokens::FLK, amount },
        owner,
        nonce,
    )
}

fn prepare_regular_stake_update(
    amount: u128,
    node_public_key: &NodeKey,
    owner: &Address,
    nonce: u64,
) -> UpdateRequest {
    get_update_request_account(
        UpdateMethod::Stake {
            amount,
            node_public_key: *node_public_key,
            consensus_key: None,
            node_domain: None,
            worker_public_key: None,
            worker_domain: None,
            ports: None,
        },
        owner,
        nonce,
    )
}

fn prepare_initial_stake_update(
    amount: u128,
    node_public_key: &NodeKey,
    consensus_key: [u8; 96],
    owner: &Address,
    nonce: u64,
) -> UpdateRequest {
    get_update_request_account(
        UpdateMethod::Stake {
            amount,
            node_public_key: *node_public_key,
            consensus_key: Some(consensus_key),
            node_domain: Some(IpAddress::V4([127, 0, 0, 1])),
            worker_public_key: Some([0; 32]),
            worker_domain: Some(IpAddress::V4([127, 0, 0, 1])),
            ports: Some(NodePorts::default()),
        },
        owner,
        nonce,
    )
}

fn prepare_unstake_update(amount: u128, node: &NodeKey, owner: &Address, nonce: u64) -> UpdateRequest {
    get_update_request_account(UpdateMethod::Unstake { amount, node: *node }, owner, nonce)
}

fn prepare_withdraw_unstaked_update(
    node: &NodeKey,
    recipient: Option<Address>,
    owner: &Address,
    nonce: u64,
) -> UpdateRequest {
    get_update_request_account(
        UpdateMethod::WithdrawUnstaked { node: *node, recipient },
        owner,
        nonce,
    )
}

fn prepare_stake_lock_update(
    node: &NodeKey,
    locked_for: u64,
    owner: &Address,
    nonce: u64,
) -> UpdateRequest {
    get_update_request_account(UpdateMethod::StakeLock { node: *node, locked_for }, owner, nonce)
}

fn prepare_pod_request(commodity: u128, service_id: u32, key: &NodeKey, nonce: u64) -> UpdateRequest {
    get_update_request_node(
        UpdateMethod::SubmitDeliveryAcknowledgmentAggregation {
            commodity,
            service_id,
            proofs: vec![DeliveryAcknowledgment {}],
            metadata: None,
        },
        key,
        nonce,
    )
}

fn prepare_change_epoch_request(epoch: u64, key: &NodeKey, nonce: u64) -> UpdateRequest {
    get_update_request_node(UpdateMethod::ChangeEpoch { epoch }, key, nonce)
}

fn prepare_transfer_request(amount: u128, to: &Address, owner: &Address, nonce: u64) -> UpdateRequest {
    get_update_request_account(
        UpdateMethod::Transfer { amount, token: Tokens::FLK, to: *to },
        owner,
        nonce,
    )
}

fn prepare_change_protocol_param_request(
    param: ProtocolParams,
    value: u128,
    owner: &Address,
    nonce: u64,
) -> UpdateRequest {
    get_update_request_account(UpdateMethod::ChangeProtocolParam { param, value }, owner, nonce)
}

fn run_transaction(state: &mut State, requests: Vec<TransactionRequest>) -> BlockExecutionResponse {
    let first = state.executed.len() as u64;
    let hashes = (0..requests.len() as u64)
        .map(|i| {
            let mut hash = [0u8; 32];
            hash[..8].copy_from_slice(&(first + i + 1).to_le_bytes());
            hash
        })
        .collect();
    state.execute_block_with(&Block { transactions: requests, digest: [0; 32] }, &hashes, NOW)
}

fn expect_tx_success(state: &mut State, tx: UpdateRequest, data: ExecutionData) {
    let result = run_transaction(state, vec![tx]);
    assert_eq!(result.txn_receipts[0].response, TransactionResponse::Success(data));
}

fn expect_tx_revert(state: &mut State, tx: UpdateRequest, error: ExecutionError) {
    let result = run_transaction(state, vec![tx]);
    assert_eq!(result.txn_receipts[0].response, TransactionResponse::Revert(error));
}

fn deposit(state: &mut State, owner: &Address, nonce: u64, amount: u128) {
    expect_tx_success(state, prepare_deposit_update(amount, owner, nonce), ExecutionData::Nothing);
}

fn stake(
    state: &mut State,
    owner: &Address,
    nonce: u64,
    amount: u128,
    node: &NodeKey,
    consensus_key: [u8; 96],
) {
    expect_tx_success(
        state,
        prepare_initial_stake_update(amount, node, consensus_key, owner, nonce),
        ExecutionData::Nothing,
    );
}

fn submit_reputation_measurements(
    state: &mut State,
    key: &NodeKey,
    nonce: u64,
    measurements: Vec<(u32, ReputationMeasurements)>,
) -> BlockExecutionResponse {
    let req = get_update_request_node(
        UpdateMethod::SubmitReputationMeasurements { measurements },
        key,
        nonce,
    );
    run_transaction(state, vec![req])
}

fn simple_epoch_change(state: &mut State, keystore: &[CommitteeKeys], epoch: u64) {
    let required_signals = calculate_required_signals(keystore.len());
    for (index, node) in keystore.iter().enumerate().take(required_signals) {
        let nonce = state.get_node_info(&node.node_public_key).unwrap().nonce + 1;
        let req = prepare_change_epoch_request(epoch, &node.node_public_key, nonce);
        let res = run_transaction(state, vec![req]);
        if index == required_signals - 1 {
            assert!(res.change_epoch);
        }
    }
}

fn paging_params(ignore_stake: bool, start: u32, limit: usize) -> PagingParams {
    PagingParams { ignore_stake, start, limit }
}

#[test]
fn test_epoch_change() {
    let committee_size = 4;
    let keystore = committee_keys(committee_size);
    let mut state = test_init_app(create_genesis_committee(&keystore));
    let required_signals = calculate_required_signals(committee_size);
    assert_eq!(required_signals, 3);

    let epoch = 0;
    let nonce = 1;
    for node in keystore.iter().take(required_signals - 1) {
        let req = prepare_change_epoch_request(epoch, &node.node_public_key, nonce);
        let res = run_transaction(&mut state, vec![req]);
        assert!(!res.change_epoch);
    }
    assert_eq!(state.get_epoch_info().epoch, 0);

    let req =
        prepare_change_epoch_request(epoch, &keystore[required_signals].node_public_key, nonce);
    let res = run_transaction(&mut state, vec![req]);
    assert!(res.change_epoch);
    assert_eq!(
        res.txn_receipts[0].response,
        TransactionResponse::Success(ExecutionData::EpochChange)
    );
    assert_eq!(state.get_epoch_info().epoch, 1);
    assert_eq!(state.get_epoch_info().epoch_end, NOW + 120000);
    assert!(state.signalled.is_empty());
}

#[test]
fn test_submit_rep_measurements() {
    let keystore = committee_keys(4);
    let mut state = test_init_app(create_genesis_committee(&keystore));

    let peer1 = state.pubkey_to_index(&keystore[1].node_public_key).unwrap();
    let peer2 = state.pubkey_to_index(&keystore[2].node_public_key).unwrap();
    let update1 = (peer1, full_measurements(1));
    let update2 = (peer2, full_measurements(2));
    let reporting_node_index = state.pubkey_to_index(&keystore[0].node_public_key).unwrap();

    submit_reputation_measurements(
        &mut state,
        &keystore[0].node_public_key,
        1,
        vec![update1, update2],
    );

    for update in [update1, update2] {
        let rep_measurements = state.get_rep_measurements(update.0);
        assert_eq!(rep_measurements.len(), 1);
        assert_eq!(rep_measurements[0].reporting_node, reporting_node_index);
        assert_eq!(rep_measurements[0].measurements, update.1);
    }
}

#[test]
fn test_submit_rep_measurements_twice() {
    let keystore = committee_keys(4);
    let mut state = test_init_app(create_genesis_committee(&keystore));
    let peer = state.pubkey_to_index(&keystore[1].node_public_key).unwrap();
    let map = vec![(peer, full_measurements(1))];

    let req = get_update_request_node(
        UpdateMethod::SubmitReputationMeasurements { measurements: map.clone() },
        &keystore[0].node_public_key,
        1,
    );
    expect_tx_success(&mut state, req, ExecutionData::Nothing);

    let req = get_update_request_node(
        UpdateMethod::SubmitReputationMeasurements { measurements: map },
        &keystore[0].node_public_key,
        2,
    );
    expect_tx_revert(&mut state, req, ExecutionError::AlreadySubmittedMeasurements);
    assert_eq!(state.get_rep_measurements(peer).len(), 1);
}

#[test]
fn test_rep_scores() {
    let keystore = committee_keys(4);
    let mut state = test_init_app(create_genesis_committee(&keystore));
    let required_signals = calculate_required_signals(4);

    let peer_idx_1 = state.pubkey_to_index(&keystore[2].node_public_key).unwrap();
    let peer_idx_2 = state.pubkey_to_index(&keystore[3].node_public_key).unwrap();
    assert!(state.get_reputation(peer_idx_1).is_none());

    submit_reputation_measurements(
        &mut state,
        &keystore[0].node_public_key,
        1,
        vec![(peer_idx_1, full_measurements(1)), (peer_idx_2, full_measurements(2))],
    );
    submit_reputation_measurements(
        &mut state,
        &keystore[1].node_public_key,
        1,
        vec![(peer_idx_1, full_measurements(3)), (peer_idx_2, full_measurements(4))],
    );

    for (i, node) in keystore.iter().enumerate().take(required_signals) {
        let nonce = if i < 2 { 2 } else { 1 };
        run_transaction(
            &mut state,
            vec![prepare_change_epoch_request(0, &node.node_public_key, nonce)],
        );
    }

    assert!(state.get_reputation(peer_idx_1).is_some());
    assert!(state.get_reputation(peer_idx_2).is_some());
}

#[test]
fn test_uptime_participation() {
    let keystore = committee_keys(4);
    let mut committee = create_genesis_committee(&keystore);
    committee[0].reputation = Some(40);
    committee[1].reputation = Some(80);
    let mut state = test_init_app(committee);
    let required_signals = calculate_required_signals(4);

    let peer_1 = keystore[2].node_public_key;
    let peer_2 = keystore[3].node_public_key;
    let index_1 = state.pubkey_to_index(&peer_1).unwrap();
    let index_2 = state.pubkey_to_index(&peer_2).unwrap();

    submit_reputation_measurements(
        &mut state,
        &keystore[0].node_public_key,
        1,
        vec![(index_1, test_reputation_measurements(5)), (index_2, test_reputation_measurements(20))],
    );
    submit_reputation_measurements(
        &mut state,
        &keystore[1].node_public_key,
        1,
        vec![(index_1, test_reputation_measurements(9)), (index_2, test_reputation_measurements(25))],
    );

    for (i, node) in keystore.iter().enumerate().take(required_signals) {
        let nonce = if i < 2 { 2 } else { 1 };
        run_transaction(
            &mut state,
            vec![prepare_change_epoch_request(0, &node.node_public_key, nonce)],
        );
    }

    let node_info1 = state.get_node_info(&peer_1).unwrap();
    let node_info2 = state.get_node_info(&peer_2).unwrap();
    assert_eq!(node_info1.participation, Participation::False);
    assert_eq!(node_info2.participation, Participation::True);
}

#[test]
fn test_stake() {
    let keystore = committee_keys(4);
    let mut state = test_init_app(create_genesis_committee(&keystore));

    let owner = owner_address(1);
    let peer_pub_key = node_key(1);

    let deposit = flk(1000);
    let update1 = prepare_deposit_update(deposit, &owner, 1);
    let update2 = prepare_deposit_update(deposit, &owner, 2);
    let res = run_transaction(&mut state, vec![update1, update2]);
    assert_eq!(res.txn_receipts.len(), 2);
    assert_eq!(state.get_flk_balance(&owner), 2 * deposit);

    let stake_amount = flk(1000);
    let update = prepare_regular_stake_update(stake_amount, &peer_pub_key, &owner, 3);
    expect_tx_revert(&mut state, update, ExecutionError::InsufficientNodeDetails);

    let update = prepare_initial_stake_update(stake_amount, &peer_pub_key, [0; 96], &owner, 4);
    expect_tx_success(&mut state, update, ExecutionData::Nothing);
    assert_eq!(state.get_staked(&peer_pub_key), stake_amount);

    let update = prepare_regular_stake_update(stake_amount, &peer_pub_key, &owner, 5);
    expect_tx_success(&mut state, update, ExecutionData::Nothing);
    assert_eq!(state.get_staked(&peer_pub_key), 2 * stake_amount);

    let update = prepare_unstake_update(stake_amount, &peer_pub_key, &owner, 6);
    run_transaction(&mut state, vec![update]);
    assert_eq!(state.get_staked(&peer_pub_key), stake_amount);
    assert_eq!(state.get_locked(&peer_pub_key), stake_amount);
    assert_eq!(state.get_locked_time(&peer_pub_key), test_genesis().lock_time);

    let update = prepare_withdraw_unstaked_update(&peer_pub_key, None, &owner, 7);
    expect_tx_revert(&mut state, update, ExecutionError::TokensLocked);
}

#[test]
fn test_stake_lock() {
    let mut state = init_app(None);
    let owner = owner_address(1);
    let node_pub_key = node_key(1);
    let amount = flk(1_000);

    deposit(&mut state, &owner, 1, amount);
    assert_eq!(state.get_flk_balance(&owner), amount);

    stake(&mut state, &owner, 2, amount, &node_pub_key, [0; 96]);
    assert_eq!(state.get_staked(&node_pub_key), amount);

    let locked_for = 365;
    let stake_lock_req = prepare_stake_lock_update(&node_pub_key, locked_for, &owner, 3);
    expect_tx_success(&mut state, stake_lock_req, ExecutionData::Nothing);
    assert_eq!(state.get_stake_locked_until(&node_pub_key), locked_for);

    let unstake_req = prepare_unstake_update(amount, &node_pub_key, &owner, 4);
    expect_tx_revert(&mut state, unstake_req, ExecutionError::LockedTokensUnstakeForbidden);
}

#[test]
fn test_pod_without_proof() {
    let keystore = committee_keys(4);
    let mut state = test_init_app(create_genesis_committee(&keystore));

    let bandwidth_commodity = 1000;
    let compute_commodity = 2000;
    let bandwidth_pod =
        prepare_pod_request(bandwidth_commodity, 0, &keystore[0].node_public_key, 1);
    let compute_pod = prepare_pod_request(compute_commodity, 1, &keystore[0].node_public_key, 2);
    run_transaction(&mut state, vec![bandwidth_pod, compute_pod]);

    assert_eq!(
        state.get_node_served(&keystore[0].node_public_key).unwrap().served,
        vec![bandwidth_commodity, compute_commodity]
    );
    assert_eq!(
        state.get_total_served(),
        TotalServed {
            served: vec![bandwidth_commodity, compute_commodity],
            reward_pool: 500_000_000,
        }
    );
}

#[test]
fn test_revert_self_transfer() {
    let mut state = init_app(None);
    let owner = owner_address(1);
    let balance = flk(1_000);

    deposit(&mut state, &owner, 1, balance);
    assert_eq!(state.get_flk_balance(&owner), balance);

    let update = prepare_transfer_request(flk(10), &owner, &owner, 2);
    expect_tx_revert(&mut state, update, ExecutionError::CantSendToYourself);
    assert_eq!(state.get_flk_balance(&owner), balance);
    assert_eq!(state.get_account_nonce(&owner), 2);
}

#[test]
fn test_is_valid_node() {
    let mut state = init_app(None);
    let owner = owner_address(1);
    let node_pub_key = node_key(1);

    let minimum_stake_amount = flk(state.get_staking_amount());
    deposit(&mut state, &owner, 1, minimum_stake_amount);
    stake(&mut state, &owner, 2, minimum_stake_amount, &node_pub_key, [0; 96]);
    assert!(state.is_valid_node(&node_pub_key));

    let owner = owner_address(2);
    let node_pub_key = node_key(2);
    let less_than_minimum_stake_amount = minimum_stake_amount / 2;
    deposit(&mut state, &owner, 1, less_than_minimum_stake_amount);
    stake(&mut state, &owner, 2, less_than_minimum_stake_amount, &node_pub_key, [1; 96]);
    assert!(!state.is_valid_node(&node_pub_key));
}

#[test]
fn test_change_protocol_params() {
    let governance = owner_address(9);
    let mut genesis = test_genesis();
    genesis.governance_address = governance;
    let mut state = init_app(Some(genesis));

    let param = ProtocolParams::LockTime;
    let new_value = 5;
    let update = prepare_change_protocol_param_request(param, new_value, &governance, 1);
    run_transaction(&mut state, vec![update]);
    assert_eq!(state.get_protocol_params(param), new_value);

    let new_value = 8;
    let update = prepare_change_protocol_param_request(param, new_value, &governance, 2);
    run_transaction(&mut state, vec![update]);
    assert_eq!(state.get_protocol_params(param), new_value);

    let some_owner = owner_address(3);
    let minimum_stake_amount = flk(state.get_staking_amount());
    deposit(&mut state, &some_owner, 1, minimum_stake_amount);

    let malicious_value = 1;
    let update = prepare_change_protocol_param_request(param, malicious_value, &some_owner, 2);
    expect_tx_revert(&mut state, update, ExecutionError::OnlyGovernance);
    assert_eq!(state.get_protocol_params(param), new_value)
}

#[test]
fn test_validate_txn() {
    let keystore = committee_keys(4);
    let mut state = test_init_app(create_genesis_committee(&keystore));

    let invalid_epoch = 1;
    let req = prepare_change_epoch_request(invalid_epoch, &keystore[0].node_public_key, 1);
    let res = run_transaction(&mut state, vec![req]);
    assert_eq!(
        res.txn_receipts[0].response,
        TransactionResponse::Revert(ExecutionError::EpochAlreadyStarted)
    );

    let req = prepare_change_epoch_request(invalid_epoch, &keystore[0].node_public_key, 2);
    assert_eq!(res.txn_receipts[0].response, state.validate_txn(&req));

    let epoch = 0;
    let req = prepare_change_epoch_request(epoch, &keystore[0].node_public_key, 2);
    let res = run_transaction(&mut state, vec![req]);
    let req = prepare_change_epoch_request(epoch, &keystore[1].node_public_key, 1);
    assert_eq!(res.txn_receipts[0].response, state.validate_txn(&req));
    // Asking did not signal.
    assert_eq!(state.signalled.len(), 1);
}

#[test]
fn test_distribute_rewards() {
    let keystore = committee_keys(4);
    let committee = create_genesis_committee(&keystore);
    let genesis = genesis_with_params(
        &Params {
            epoch_time: None,
            max_inflation: Some(10),
            protocol_share: Some(10),
            node_share: Some(80),
            service_builder_share: Some(10),
            max_boost: Some(4),
            supply_at_genesis: Some(1_000_000),
        },
        Some(committee),
        NOW,
    );
    let mut state = init_app(Some(genesis));

    let owner1 = owner_address(1);
    let node1 = node_key(1);
    let owner2 = owner_address(2);
    let node2 = node_key(2);

    let deposit_amount = flk(10_000);
    let locked_for = 1460;
    deposit(&mut state, &owner1, 1, deposit_amount);
    stake(&mut state, &owner1, 2, deposit_amount, &node1, [0; 96]);
    deposit(&mut state, &owner2, 1, deposit_amount);
    stake(&mut state, &owner2, 2, deposit_amount, &node2, [1; 96]);
    expect_tx_success(
        &mut state,
        prepare_stake_lock_update(&node2, locked_for, &owner2, 3),
        ExecutionData::Nothing,
    );

    let pod_10 = prepare_pod_request(12_800, 0, &node1, 1);
    let pod_11 = prepare_pod_request(3_600, 1, &node1, 2);
    let pod_21 = prepare_pod_request(5000, 1, &node2, 1);
    run_transaction(&mut state, vec![pod_10, pod_11, pod_21]);
    assert_eq!(state.get_total_served().reward_pool, 3_000_000_000);

    let supply_before = state.metadata.supply;
    simple_epoch_change(&mut state, &keystore, 0);

    // Stables: the node share of each node's own revenue.
    assert_eq!(state.get_stables_balance(&owner1), 1_600_000_000);
    assert_eq!(state.get_stables_balance(&owner2), 800_000_000);

    // FLK: the node share of the emissions by boosted part of the revenue.
    assert_eq!(state.get_flk_balance(&owner1), 73_059_360_730_593_607_305);
    assert_eq!(state.get_flk_balance(&owner2), 146_118_721_461_187_214_611);

    let protocol_account = state.get_protocol_fund_address();
    assert_eq!(state.get_flk_balance(&protocol_account), 27_397_260_273_972_602_739);
    assert_eq!(state.get_stables_balance(&protocol_account), 300_000_000);

    let expected_flk = [11_689_497_716_894_977_150u128, 15_707_762_557_077_625_561];
    let expected_stables = [127_999_800u128, 171_999_900];
    for s in 0..2 {
        let service_owner = state.get_service_info(s).unwrap().owner;
        assert_eq!(state.get_flk_balance(&service_owner), expected_flk[s as usize]);
        assert_eq!(state.get_stables_balance(&service_owner), expected_stables[s as usize]);
    }

    let minted = 73_059_360_730_593_607_305u128
        + 146_118_721_461_187_214_611
        + 27_397_260_273_972_602_739
        + 11_689_497_716_894_977_150
        + 15_707_762_557_077_625_561;
    assert_eq!(state.metadata.supply, supply_before + minted);
    assert_eq!(state.get_total_served().reward_pool, 0);
}

#[test]
fn test_get_node_registry() {
    let keystore = committee_keys(4);
    let mut state = test_init_app(create_genesis_committee(&keystore));

    let minimum_stake_amount = flk(state.get_staking_amount());
    deposit(&mut state, &owner_address(1), 1, minimum_stake_amount);
    stake(&mut state, &owner_address(1), 2, minimum_stake_amount, &node_key(1), [0; 96]);

    let less_than_minimum_stake_amount = minimum_stake_amount / 2;
    deposit(&mut state, &owner_address(2), 1, less_than_minimum_stake_amount);
    stake(&mut state, &owner_address(2), 2, less_than_minimum_stake_amount, &node_key(2), [1; 96]);

    deposit(&mut state, &owner_address(3), 1, minimum_stake_amount);
    stake(&mut state, &owner_address(3), 2, minimum_stake_amount, &node_key(3), [3; 96]);

    let valid_nodes = state.get_node_registry(None);
    assert_eq!(valid_nodes.len(), 2 + keystore.len());
    assert!(valid_nodes.contains(&state.get_node_info(&node_key(1)).unwrap()));
    assert!(!valid_nodes.contains(&state.get_node_info(&node_key(2)).unwrap()));
    assert!(valid_nodes.contains(&state.get_node_info(&node_key(3)).unwrap()));

    let len = |state: &State, p: PagingParams| state.get_node_registry(Some(p)).len();
    assert_eq!(len(&state, paging_params(true, 0, keystore.len() + 3)), 3 + keystore.len());
    assert_eq!(len(&state, paging_params(false, 0, keystore.len() + 3)), 2 + keystore.len());
    assert_eq!(len(&state, paging_params(true, 0, keystore.len())), keystore.len());
    assert_eq!(len(&state, paging_params(true, 4, keystore.len())), 3);
    assert_eq!(len(&state, paging_params(false, keystore.len() as u32, keystore.len())), 2);
    assert_eq!(len(&state, paging_params(false, keystore.len() as u32, 1)), 1);
}

#[test]
fn genesis_with_duplicate_nodes_fails() {
    let mut keys = committee_keys(3);
    keys[2].node_public_key = keys[0].node_public_key;
    let mut genesis = test_genesis();
    genesis.node_info = create_genesis_committee(&keys);
    assert_eq!(State::from_genesis(&genesis).unwrap_err(), GenesisError::DuplicateNode);
}

#[test]
fn genesis_with_partial_shares_fails() {
    let mut genesis = test_genesis();
    genesis.node_share = 70;
    assert_eq!(State::from_genesis(&genesis).unwrap_err(), GenesisError::SharesNotWhole);
}

#[test]
fn genesis_with_misplaced_service_fails() {
    let mut genesis = test_genesis();
    genesis.service[1].id = 7;
    assert_eq!(State::from_genesis(&genesis).unwrap_err(), GenesisError::MisplacedService);
}
