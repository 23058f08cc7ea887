use lightning_core::config::{
    init_app, init_app_with_genesis, init_app_with_params, test_config, test_init_app, Config,
    InitError, Mode, StorageConfig,
};
use lightning_core::genesis::{
    create_genesis_committee, test_genesis, CommitteeKeys, GenesisError, Params,
};
use lightning_core::keys::IpAddress;
use lightning_core::query::PagingParams;
use lightning_core::requests::{
    get_update_request_account, get_update_request_node, paging_params,
    prepare_change_epoch_request, prepare_change_protocol_param_request, prepare_deposit_update,
    prepare_initial_stake_update, prepare_pod_request, prepare_regular_stake_update,
    prepare_stake_lock_request, prepare_stake_lock_update, prepare_transfer_request,
    prepare_unstake_update, prepare_withdraw_unstaked_update, run_transaction,
    test_reputation_measurements,
};
use lightning_core::transaction::{
    DeliveryAcknowledgment, ExecutionData, ExecutionError, ProofOfConsensus, TransactionResponse,
    TransactionSender, UpdateMethod,
};
use lightning_core::types::{NodePorts, ProtocolParams, Tokens};

const SIG: [u8; 64] = [3; 64];
const OWNER: [u8; 20] = [0x61; 20];
const NODE: [u8; 32] = [0x62; 32];

fn keys(n: usize) -> Vec<CommitteeKeys> {
    (0..n)
        .map(|i| CommitteeKeys {
            owner: [100 + i as u8; 20],
            node_public_key: [100 + i as u8; 32],
            consensus_public_key: [100 + i as u8; 96],
        })
        .collect()
}

#[test]
fn app_starts_from_the_built_in_genesis() {
    let state = init_app(None).unwrap();
    assert_eq!(state.nodes.len(), 4);
    assert_eq!(state.members, vec![0, 1, 2, 3]);
    assert_eq!(state.get_current_epoch(), 0);
    assert_eq!(state.get_staking_amount(), 1000);
    assert_eq!(state.get_protocol_params(ProtocolParams::LockTime), 5);
    assert_eq!(state.get_protocol_params(ProtocolParams::MaxStakeLockTime), 1460);
    assert_eq!(state.metadata.supply, 1_000_000 * 1_000_000_000_000_000_000);
    assert!(state.is_well_formed());

    let dev = Config {
        genesis: None,
        mode: Mode::Dev,
        testnet: false,
        storage: StorageConfig::InMemory,
        db_path: None,
        db_options: None,
    };
    assert_eq!(init_app(Some(dev)).unwrap().to_bytes(), state.to_bytes());
}

#[test]
fn app_on_disk_is_not_started_in_memory() {
    let mut config = test_config(test_genesis());
    assert_eq!(config.mode, Mode::Test);
    assert_eq!(config.storage, StorageConfig::InMemory);
    config.storage = StorageConfig::RocksDb;
    assert_eq!(init_app(Some(config)).unwrap_err(), InitError::StorageNotInMemory);
}

#[test]
fn app_does_not_start_from_a_bad_genesis() {
    let mut genesis = test_genesis();
    genesis.node_info[1].primary_public_key = genesis.node_info[0].primary_public_key;
    assert_eq!(
        init_app_with_genesis(genesis).unwrap_err(),
        InitError::Genesis(GenesisError::DuplicateNode)
    );
    let mut genesis = test_genesis();
    genesis.account.push(lightning_core::genesis::GenesisAccount {
        address: [1; 20],
        flk_balance: 5,
        stables_balance: 0,
        bandwidth_balance: 0,
    });
    genesis.account.push(genesis.account[0]);
    assert_eq!(
        init_app_with_genesis(genesis).unwrap_err(),
        InitError::Genesis(GenesisError::DuplicateAccount)
    );
}

#[test]
fn test_app_does_not_start_with_one_key_twice() {
    let mut twice = keys(3);
    twice[2].node_public_key = twice[1].node_public_key;
    assert_eq!(
        test_init_app(create_genesis_committee(&twice)).unwrap_err(),
        InitError::Genesis(GenesisError::DuplicateNode)
    );
    assert!(test_init_app(vec![]).unwrap().nodes.is_empty());
}

#[test]
fn app_starts_with_accounts_of_the_genesis() {
    let mut genesis = test_genesis();
    genesis.account.push(lightning_core::genesis::GenesisAccount {
        address: [1; 20],
        flk_balance: 5,
        stables_balance: 6,
        bandwidth_balance: 7,
    });
    let state = init_app_with_genesis(genesis).unwrap();
    assert_eq!(state.get_flk_balance(&[1; 20]), 5);
    assert_eq!(state.get_stables_balance(&[1; 20]), 6);
    assert_eq!(state.get_account_nonce(&[1; 20]), 0);
}

#[test]
fn app_starts_with_the_given_committee_and_params() {
    let committee = create_genesis_committee(&keys(7));
    let state = test_init_app(committee.clone()).unwrap();
    assert_eq!(state.nodes.len(), 7);
    assert_eq!(state.members.len(), 7);

    let params = Params {
        epoch_time: Some(9000),
        max_inflation: Some(20),
        protocol_share: Some(15),
        node_share: Some(70),
        service_builder_share: Some(15),
        max_boost: Some(8),
        supply_at_genesis: Some(5),
    };
    let state = init_app_with_params(params, Some(committee), 77).unwrap();
    assert_eq!(state.nodes.len(), 7);
    assert_eq!(state.metadata.epoch_start_ms, 77);
    assert_eq!(state.epoch_end_ms, 9077);
    assert_eq!(state.get_protocol_params(ProtocolParams::EpochTime), 9000);
    assert_eq!(state.get_protocol_params(ProtocolParams::MaxInflation), 20);
    assert_eq!(state.get_protocol_params(ProtocolParams::ProtocolShare), 15);
    assert_eq!(state.get_protocol_params(ProtocolParams::NodeShare), 70);
    assert_eq!(state.get_protocol_params(ProtocolParams::ServiceBuilderShare), 15);
    assert_eq!(state.get_protocol_params(ProtocolParams::MaxBoost), 8);
    assert_eq!(state.metadata.supply, 5_000_000_000_000_000_000);

    let none = Params {
        epoch_time: None,
        max_inflation: None,
        protocol_share: None,
        node_share: None,
        service_builder_share: None,
        max_boost: None,
        supply_at_genesis: None,
    };
    let state = init_app_with_params(none, None, 1).unwrap();
    assert_eq!(state.nodes.len(), 4);
    assert_eq!(state.get_protocol_params(ProtocolParams::NodeShare), 80);

    let broken = Params { node_share: Some(1), ..none };
    assert_eq!(
        init_app_with_params(broken, None, 1).unwrap_err(),
        InitError::Genesis(GenesisError::SharesNotWhole)
    );
}

#[test]
fn builders_make_the_requests_they_are_named_for() {
    let r = prepare_deposit_update(5, &OWNER, 1, SIG);
    assert_eq!(r.signature, SIG);
    assert!(r.signature_valid);
    assert_eq!(r.payload.sender, TransactionSender::AccountOwner(OWNER));
    assert_eq!(r.payload.nonce, 1);
    assert_eq!(
        r.payload.method,
        UpdateMethod::Deposit { proof: ProofOfConsensus {}, token: Tokens::FLK, amount: 5 }
    );
    assert_eq!(r, get_update_request_account(r.payload.method.clone(), &OWNER, 1, SIG));

    let stake = |consensus_key, node_domain, worker_public_key, worker_domain, ports| {
        UpdateMethod::Stake {
            amount: 9,
            node_public_key: NODE,
            consensus_key,
            node_domain,
            worker_public_key,
            worker_domain,
            ports,
        }
    };
    assert_eq!(
        prepare_regular_stake_update(9, &NODE, &OWNER, 2, SIG).payload.method,
        stake(None, None, None, None, None)
    );
    let local = IpAddress::V4([127, 0, 0, 1]);
    assert_eq!(
        prepare_initial_stake_update(
            9,
            &NODE,
            [4; 96],
            local,
            [5; 32],
            IpAddress::V6([0; 16]),
            NodePorts::default(),
            &OWNER,
            3,
            SIG
        )
        .payload
        .method,
        stake(
            Some([4; 96]),
            Some(local),
            Some([5; 32]),
            Some(IpAddress::V6([0; 16])),
            Some(NodePorts::default())
        )
    );
    assert_eq!(
        prepare_unstake_update(7, &NODE, &OWNER, 4, SIG).payload.method,
        UpdateMethod::Unstake { amount: 7, node: NODE }
    );
    assert_eq!(
        prepare_withdraw_unstaked_update(&NODE, Some([8; 20]), &OWNER, 5, SIG).payload.method,
        UpdateMethod::WithdrawUnstaked { node: NODE, recipient: Some([8; 20]) }
    );
    assert_eq!(
        prepare_stake_lock_update(&NODE, 11, &OWNER, 6, SIG),
        prepare_stake_lock_request(11, &NODE, &OWNER, 6, SIG)
    );
    assert_eq!(
        prepare_stake_lock_update(&NODE, 11, &OWNER, 6, SIG).payload.method,
        UpdateMethod::StakeLock { node: NODE, locked_for: 11 }
    );
    assert_eq!(
        prepare_transfer_request(3, &[9; 20], &OWNER, 7, SIG).payload.method,
        UpdateMethod::Transfer { amount: 3, token: Tokens::FLK, to: [9; 20] }
    );
    assert_eq!(
        prepare_change_protocol_param_request(ProtocolParams::MaxBoost, 6, &OWNER, 8, SIG)
            .payload
            .method,
        UpdateMethod::ChangeProtocolParam { param: ProtocolParams::MaxBoost, value: 6 }
    );

    let pod = prepare_pod_request(10, 1, &NODE, 1, SIG);
    assert_eq!(pod.payload.sender, TransactionSender::NodeMain(NODE));
    assert_eq!(
        pod.payload.method,
        UpdateMethod::SubmitDeliveryAcknowledgmentAggregation {
            commodity: 10,
            service_id: 1,
            proofs: vec![DeliveryAcknowledgment {}],
            metadata: None,
        }
    );
    let signal = prepare_change_epoch_request(4, &NODE, 2, SIG);
    assert_eq!(signal.payload.method, UpdateMethod::ChangeEpoch { epoch: 4 });
    assert_eq!(signal, get_update_request_node(UpdateMethod::ChangeEpoch { epoch: 4 }, &NODE, 2, SIG));

    assert_eq!(test_reputation_measurements(40).uptime, Some(40));
    assert_eq!(test_reputation_measurements(40).latency, None);
    assert_eq!(
        paging_params(true, 3, 9),
        PagingParams { ignore_stake: true, start: 3, limit: 9 }
    );
}

#[test]
fn run_transaction_executes_one_block() {
    let mut state = init_app(None).unwrap();
    let response = run_transaction(
        &mut state,
        vec![
            prepare_deposit_update(10, &OWNER, 1, SIG),
            prepare_transfer_request(4, &[9; 20], &OWNER, 2, SIG),
            prepare_transfer_request(7, &[9; 20], &OWNER, 3, SIG),
        ],
        0,
    );
    let responses: Vec<_> = response.txn_receipts.iter().map(|r| r.response).collect();
    assert_eq!(
        responses,
        vec![
            TransactionResponse::Success(ExecutionData::Nothing),
            TransactionResponse::Success(ExecutionData::Nothing),
            TransactionResponse::Revert(ExecutionError::InsufficientBalance),
        ]
    );
    assert_eq!(response.block_hash, [0; 32]);
    assert!(!response.change_epoch);
    assert_eq!(state.get_flk_balance(&OWNER), 6);
    assert_eq!(state.get_flk_balance(&[9; 20]), 4);
    assert_eq!(state.get_account_nonce(&OWNER), 3);
}
