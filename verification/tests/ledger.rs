use lightning_core::committee::select_committee;
use lightning_core::genesis::{create_genesis_committee, test_genesis, CommitteeKeys};
use lightning_core::keys::{Address, IpAddress, NodeKey};
use lightning_core::query::QueryRunner;
use lightning_core::reputation::{median, score, sort_values};
use lightning_core::state::State;
use lightning_core::transaction::{
    Block, BlockExecutionResponse, ExecutionData, ExecutionError, ProofOfConsensus,
    TransactionResponse, TransactionSender, UpdateMethod, UpdatePayload, UpdateRequest,
};
use lightning_core::types::{
    NodePorts, Participation, ProtocolParams, Report, ReputationMeasurements, Tokens,
};

const NOW: u64 = 1_700_000_000_000;
const UNIT: u128 = 1_000_000_000_000_000_000;

fn keys(n: usize) -> Vec<CommitteeKeys> {
    (0..n)
        .map(|i| CommitteeKeys {
            owner: [100 + i as u8; 20],
            node_public_key: [100 + i as u8; 32],
            consensus_public_key: [100 + i as u8; 96],
        })
        .collect()
}

fn ledger(n: usize) -> (State, Vec<CommitteeKeys>) {
    let keys = keys(n);
    let mut genesis = test_genesis();
    genesis.node_info = create_genesis_committee(&keys);
    (State::from_genesis(&genesis).unwrap(), keys)
}

fn account(owner: &Address, nonce: u64, method: UpdateMethod) -> UpdateRequest {
    UpdateRequest {
        signature: [0; 64],
        signature_valid: true,
        payload: UpdatePayload { sender: TransactionSender::AccountOwner(*owner), nonce, method },
    }
}

fn node(key: &NodeKey, nonce: u64, method: UpdateMethod) -> UpdateRequest {
    UpdateRequest {
        signature: [0; 64],
        signature_valid: true,
        payload: UpdatePayload { sender: TransactionSender::NodeMain(*key), nonce, method },
    }
}

fn run(state: &mut State, tx: UpdateRequest) -> TransactionResponse {
    let response = state.execute_block(&Block { transactions: vec![tx], digest: [1; 32] }, NOW);
    response.txn_receipts[0].response
}

fn run_block(state: &mut State, txs: Vec<UpdateRequest>) -> BlockExecutionResponse {
    state.execute_block(&Block { transactions: txs, digest: [1; 32] }, NOW)
}

fn deposit(amount: u128) -> UpdateMethod {
    UpdateMethod::Deposit { proof: ProofOfConsensus {}, token: Tokens::FLK, amount }
}

fn stake_new(amount: u128, key: &NodeKey) -> UpdateMethod {
    UpdateMethod::Stake {
        amount,
        node_public_key: *key,
        consensus_key: Some([0; 96]),
        node_domain: Some(IpAddress::V4([127, 0, 0, 1])),
        worker_public_key: Some([0; 32]),
        worker_domain: Some(IpAddress::V4([127, 0, 0, 1])),
        ports: Some(NodePorts::default()),
    }
}

fn success() -> TransactionResponse {
    TransactionResponse::Success(ExecutionData::Nothing)
}

fn revert(e: ExecutionError) -> TransactionResponse {
    TransactionResponse::Revert(e)
}

fn in_ledger(state: &State) -> u128 {
    state.accounts.iter().map(|a| a.flk_balance).sum::<u128>()
        + state.nodes.iter().map(|n| n.staked + n.locked).sum::<u128>()
}

const A: Address = [0x41; 20];
const B: Address = [0x42; 20];
const N: NodeKey = [0x51; 32];

#[test]
fn bad_signature_changes_nothing() {
    let (mut state, _) = ledger(4);
    let mut tx = account(&A, 1, deposit(5));
    tx.signature_valid = false;
    assert_eq!(run(&mut state, tx), revert(ExecutionError::InvalidSignature));
    assert_eq!(state.get_account_nonce(&A), 0);
    assert!(state.executed.is_empty());
}

#[test]
fn wrong_nonce_is_not_consumed() {
    let (mut state, _) = ledger(4);
    for nonce in [0, 2, 3, u64::MAX] {
        assert_eq!(
            run(&mut state, account(&A, nonce, deposit(5))),
            revert(ExecutionError::InvalidNonce)
        );
    }
    assert_eq!(state.get_account_nonce(&A), 0);
    assert_eq!(run(&mut state, account(&A, 1, deposit(5))), success());
    assert_eq!(state.get_account_nonce(&A), 1);
    // A replay of the transaction that was executed.
    assert_eq!(
        run(&mut state, account(&A, 1, deposit(5))),
        revert(ExecutionError::InvalidNonce)
    );
    assert_eq!(state.get_flk_balance(&A), 5);
}

#[test]
fn nonce_grows_by_one_with_every_admitted_transaction() {
    let (mut state, _) = ledger(4);
    let steps = [
        (deposit(10), success()),
        (
            UpdateMethod::Transfer { amount: 11, token: Tokens::FLK, to: B },
            revert(ExecutionError::InsufficientBalance),
        ),
        (
            UpdateMethod::Transfer { amount: 1, token: Tokens::FLK, to: A },
            revert(ExecutionError::CantSendToYourself),
        ),
        (UpdateMethod::Transfer { amount: 4, token: Tokens::FLK, to: B }, success()),
        (UpdateMethod::ChangeEpoch { epoch: 0 }, revert(ExecutionError::OnlyNode)),
    ];
    for (i, (method, expected)) in steps.into_iter().enumerate() {
        assert_eq!(run(&mut state, account(&A, i as u64 + 1, method)), expected);
        assert_eq!(state.get_account_nonce(&A), i as u64 + 1);
        assert_eq!(state.get_account_nonce(&B), 0);
    }
    assert_eq!(state.get_flk_balance(&A), 6);
    assert_eq!(state.get_flk_balance(&B), 4);
    assert_eq!(state.executed.len(), 5);
}

#[test]
fn unknown_node_cannot_send() {
    let (mut state, _) = ledger(4);
    assert_eq!(
        run(&mut state, node(&N, 1, UpdateMethod::OptIn {})),
        revert(ExecutionError::NodeDoesNotExist)
    );
    assert!(state.executed.is_empty());
}

#[test]
fn methods_are_bound_to_the_kind_of_sender() {
    let (mut state, keys) = ledger(4);
    assert_eq!(
        run(&mut state, node(&keys[0].node_public_key, 1, deposit(5))),
        revert(ExecutionError::OnlyAccountOwner)
    );
    assert_eq!(
        run(&mut state, account(&A, 1, UpdateMethod::OptOut {})),
        revert(ExecutionError::OnlyNode)
    );
}

#[test]
fn withdraw_debits_and_records_the_intent() {
    let (mut state, _) = ledger(4);
    run(&mut state, account(&A, 1, deposit(100)));
    let withdraw = |amount| UpdateMethod::Withdraw { amount, token: Tokens::FLK, receiving_address: B };
    assert_eq!(
        run(&mut state, account(&A, 2, withdraw(101))),
        revert(ExecutionError::InsufficientBalance)
    );
    assert!(state.withdrawals.is_empty());
    assert_eq!(run(&mut state, account(&A, 3, withdraw(60))), success());
    assert_eq!(state.get_flk_balance(&A), 40);
    assert_eq!(state.withdrawals.len(), 1);
    assert_eq!(state.withdrawals[0].amount, 60);
    assert_eq!(state.withdrawals[0].receiver, B);
    assert_eq!(state.withdrawals[0].account, A);
}

#[test]
fn stables_are_kept_apart_from_flk() {
    let (mut state, _) = ledger(4);
    let usdc = UpdateMethod::Deposit { proof: ProofOfConsensus {}, token: Tokens::USDC, amount: 9 };
    assert_eq!(run(&mut state, account(&A, 1, usdc)), success());
    assert_eq!(state.get_stables_balance(&A), 9);
    assert_eq!(state.get_flk_balance(&A), 0);
    assert_eq!(
        run(&mut state, account(&A, 2, UpdateMethod::Transfer { amount: 4, token: Tokens::USDC, to: B })),
        success()
    );
    assert_eq!(state.get_stables_balance(&A), 5);
    assert_eq!(state.get_stables_balance(&B), 4);
}

#[test]
fn amounts_that_do_not_fit_are_refused() {
    let (mut state, _) = ledger(4);
    run(&mut state, account(&A, 1, deposit(u128::MAX)));
    assert_eq!(run(&mut state, account(&A, 2, deposit(1))), revert(ExecutionError::Overflow));
    run(&mut state, account(&B, 1, deposit(1)));
    assert_eq!(
        run(&mut state, account(&B, 2, UpdateMethod::Transfer { amount: 1, token: Tokens::FLK, to: A })),
        revert(ExecutionError::Overflow)
    );
    assert_eq!(state.get_flk_balance(&A), u128::MAX);
    assert_eq!(state.get_flk_balance(&B), 1);
}

#[test]
fn staking_rules() {
    let (mut state, _) = ledger(4);
    run(&mut state, account(&A, 1, deposit(10 * UNIT)));
    run(&mut state, account(&B, 1, deposit(10 * UNIT)));

    assert_eq!(
        run(&mut state, account(&A, 2, stake_new(11 * UNIT, &N))),
        revert(ExecutionError::InsufficientBalance)
    );
    assert_eq!(
        run(&mut state, account(&A, 3, UpdateMethod::Unstake { amount: 1, node: N })),
        revert(ExecutionError::NodeDoesNotExist)
    );
    assert_eq!(run(&mut state, account(&A, 4, stake_new(4 * UNIT, &N))), success());
    let index = state.pubkey_to_index(&N).unwrap();
    assert_eq!(index, 4);
    assert_eq!(state.index_to_pubkey(index), Some(N));
    assert_eq!(state.get_node_info(&N).unwrap().owner, A);

    // Only the owner may stake on, lock, unstake from or withdraw from it.
    assert_eq!(
        run(&mut state, account(&B, 2, stake_new(UNIT, &N))),
        revert(ExecutionError::NotNodeOwner)
    );
    assert_eq!(
        run(&mut state, account(&B, 3, UpdateMethod::Unstake { amount: 1, node: N })),
        revert(ExecutionError::NotNodeOwner)
    );
    assert_eq!(
        run(&mut state, account(&B, 4, UpdateMethod::StakeLock { node: N, locked_for: 1 })),
        revert(ExecutionError::NotNodeOwner)
    );
    assert_eq!(
        run(&mut state, account(&B, 5, UpdateMethod::WithdrawUnstaked { node: N, recipient: None })),
        revert(ExecutionError::NotNodeOwner)
    );

    assert_eq!(
        run(&mut state, account(&A, 5, UpdateMethod::Unstake { amount: 5 * UNIT, node: N })),
        revert(ExecutionError::InsufficientBalance)
    );
    assert_eq!(
        run(&mut state, account(&A, 6, UpdateMethod::StakeLock { node: N, locked_for: 1461 })),
        revert(ExecutionError::LockExceededMaxStakeLockTime)
    );
    assert_eq!(
        run(&mut state, account(&A, 7, UpdateMethod::Unstake { amount: 4 * UNIT, node: N })),
        success()
    );
    assert_eq!(
        run(&mut state, account(&A, 8, UpdateMethod::StakeLock { node: N, locked_for: 1 })),
        revert(ExecutionError::InsufficientStakesToLock)
    );
    assert_eq!(state.get_locked(&N), 4 * UNIT);
    assert_eq!(state.get_flk_balance(&A), 6 * UNIT);
}

#[test]
fn unstaked_tokens_can_be_withdrawn_once_their_lock_has_run_out() {
    let (mut state, _) = ledger(4);
    run(&mut state, account(&A, 1, deposit(10 * UNIT)));
    run(&mut state, account(&A, 2, stake_new(10 * UNIT, &N)));
    // With no lock time the tokens are free at once.
    let governance = state.metadata.governance_address;
    assert_eq!(
        run(
            &mut state,
            account(&governance, 1, UpdateMethod::ChangeProtocolParam {
                param: ProtocolParams::LockTime,
                value: 0,
            })
        ),
        success()
    );
    run(&mut state, account(&A, 3, UpdateMethod::Unstake { amount: 3 * UNIT, node: N }));
    assert_eq!(state.get_locked_time(&N), 0);
    assert_eq!(
        run(&mut state, account(&A, 4, UpdateMethod::WithdrawUnstaked { node: N, recipient: Some(B) })),
        success()
    );
    assert_eq!(state.get_locked(&N), 0);
    assert_eq!(state.get_staked(&N), 7 * UNIT);
    assert_eq!(state.get_flk_balance(&B), 3 * UNIT);
    assert_eq!(state.get_flk_balance(&A), 0);
}

#[test]
fn flk_in_the_ledger_moves_only_with_deposits_withdrawals_and_emissions() {
    let (mut state, keys) = ledger(4);
    let start = in_ledger(&state);
    assert_eq!(start, 4 * 1000 * UNIT);
    let supply = state.metadata.supply;

    run(&mut state, account(&A, 1, deposit(100 * UNIT)));
    assert_eq!(in_ledger(&state), start + 100 * UNIT);
    let txs = vec![
        account(&A, 2, UpdateMethod::Transfer { amount: 30 * UNIT, token: Tokens::FLK, to: B }),
        account(&B, 1, stake_new(20 * UNIT, &N)),
        account(&B, 2, UpdateMethod::Unstake { amount: 5 * UNIT, node: N }),
        account(&B, 3, UpdateMethod::StakeLock { node: N, locked_for: 3 }),
        account(&B, 4, UpdateMethod::WithdrawUnstaked { node: N, recipient: None }),
        node(&keys[0].node_public_key, 1, UpdateMethod::OptOut {}),
        node(&keys[1].node_public_key, 1, UpdateMethod::SubmitDeliveryAcknowledgmentAggregation {
            commodity: 10,
            service_id: 0,
            proofs: vec![],
            metadata: None,
        }),
    ];
    run_block(&mut state, txs);
    assert_eq!(in_ledger(&state), start + 100 * UNIT);
    assert_eq!(state.metadata.supply, supply);

    run(
        &mut state,
        account(&A, 3, UpdateMethod::Withdraw { amount: 10 * UNIT, token: Tokens::FLK, receiving_address: B }),
    );
    assert_eq!(in_ledger(&state), start + 90 * UNIT);

    // The change of the epoch issues rewards: as much to accounts as to the
    // supply.
    for (i, k) in keys.iter().enumerate().skip(1) {
        let nonce = if i == 1 { 2 } else { 1 };
        run(&mut state, node(&k.node_public_key, nonce, UpdateMethod::ChangeEpoch { epoch: 0 }));
    }
    assert_eq!(state.get_current_epoch(), 1);
    let minted = state.metadata.supply - supply;
    assert!(minted > 0);
    assert_eq!(in_ledger(&state), start + 90 * UNIT + minted);
}

#[test]
fn signals_are_counted_once_and_only_from_the_committee() {
    let (mut state, keys) = ledger(4);
    run(&mut state, account(&A, 1, deposit(2000 * UNIT)));
    run(&mut state, account(&A, 2, stake_new(2000 * UNIT, &N)));
    let signal = |epoch| UpdateMethod::ChangeEpoch { epoch };

    assert_eq!(run(&mut state, node(&N, 1, signal(0))), revert(ExecutionError::NotCommitteeMember));
    let k0 = keys[0].node_public_key;
    assert_eq!(run(&mut state, node(&k0, 1, signal(1))), revert(ExecutionError::EpochAlreadyStarted));
    assert_eq!(run(&mut state, node(&k0, 2, signal(0))), success());
    assert_eq!(run(&mut state, node(&k0, 3, signal(0))), revert(ExecutionError::AlreadySignaled));
    assert_eq!(state.signalled, vec![0]);

    assert_eq!(run(&mut state, node(&keys[1].node_public_key, 1, signal(0))), success());
    assert_eq!(state.get_current_epoch(), 0);
    let response = run_block(&mut state, vec![
        node(&keys[2].node_public_key, 1, signal(0)),
        node(&keys[3].node_public_key, 1, signal(0)),
    ]);
    // Only the signal that completed the quorum carries the change.
    assert!(response.change_epoch);
    assert_eq!(
        response.txn_receipts[0].response,
        TransactionResponse::Success(ExecutionData::EpochChange)
    );
    assert_eq!(response.txn_receipts[1].response, revert(ExecutionError::EpochHasNotStarted));
    assert_eq!(state.get_current_epoch(), 1);

    // The new committee: the valid nodes by stake, the larger first.
    assert_eq!(state.members, vec![4, 0, 1, 2, 3]);
    assert!(state.signalled.is_empty());
}

#[test]
fn nodes_without_stake_cannot_act() {
    let (mut state, _) = ledger(4);
    run(&mut state, account(&A, 1, deposit(10 * UNIT)));
    run(&mut state, account(&A, 2, stake_new(10 * UNIT, &N)));
    assert_eq!(
        run(&mut state, node(&N, 1, UpdateMethod::ChangeEpoch { epoch: 0 })),
        revert(ExecutionError::InsufficientStake)
    );
    assert_eq!(
        run(&mut state, node(&N, 2, UpdateMethod::SubmitReputationMeasurements { measurements: vec![] })),
        revert(ExecutionError::InsufficientStake)
    );
    assert_eq!(
        run(&mut state, node(&N, 3, UpdateMethod::SubmitDeliveryAcknowledgmentAggregation {
            commodity: 1,
            service_id: 0,
            proofs: vec![],
            metadata: None,
        })),
        revert(ExecutionError::InsufficientStake)
    );
}

#[test]
fn delivery_for_an_unknown_service_is_refused() {
    let (mut state, keys) = ledger(4);
    assert_eq!(
        run(&mut state, node(&keys[0].node_public_key, 1, UpdateMethod::SubmitDeliveryAcknowledgmentAggregation {
            commodity: 1,
            service_id: 2,
            proofs: vec![],
            metadata: None,
        })),
        revert(ExecutionError::InvalidServiceId)
    );
    assert_eq!(state.get_total_served().reward_pool, 0);
}

#[test]
fn opting_out_takes_effect_with_the_next_epoch() {
    let (mut state, keys) = ledger(4);
    let k0 = keys[0].node_public_key;
    assert_eq!(run(&mut state, node(&k0, 1, UpdateMethod::OptOut {})), success());
    assert_eq!(state.get_node_info(&k0).unwrap().participation, Participation::OptedOut);
    assert!(!state.is_valid_node(&k0));
    for k in keys.iter().skip(1) {
        run(&mut state, node(&k.node_public_key, 1, UpdateMethod::ChangeEpoch { epoch: 0 }));
    }
    assert_eq!(state.get_current_epoch(), 1);
    assert_eq!(state.get_node_info(&k0).unwrap().participation, Participation::False);
    assert_eq!(state.members, vec![1, 2, 3]);

    assert_eq!(run(&mut state, node(&k0, 2, UpdateMethod::OptIn {})), success());
    assert_eq!(state.get_node_info(&k0).unwrap().participation, Participation::OptedIn);
}

#[test]
fn committee_takes_the_largest_stakes_and_breaks_ties_by_index() {
    let (mut state, _) = ledger(5);
    let stakes = [5u128, 9, 5, 9, 7];
    for (n, s) in state.nodes.iter_mut().zip(stakes) {
        n.staked = s * 1000 * UNIT;
    }
    state.nodes[3].participation = Participation::False;
    let params = state.params;
    assert_eq!(select_committee(&state.nodes, &params, 10), vec![1, 4, 0, 2]);
    assert_eq!(select_committee(&state.nodes, &params, 3), vec![1, 4, 0]);
    assert_eq!(select_committee(&state.nodes, &params, 1), vec![1]);
    assert_eq!(select_committee(&state.nodes, &params, 0), Vec::<u32>::new());
    state.nodes[2].staked = 999 * UNIT;
    assert_eq!(select_committee(&state.nodes, &params, 10), vec![1, 4, 0]);
}

#[test]
fn validate_leaves_the_ledger_alone() {
    let (mut state, _) = ledger(4);
    run(&mut state, account(&A, 1, deposit(10)));
    let tx = account(&A, 2, UpdateMethod::Transfer { amount: 4, token: Tokens::FLK, to: B });
    assert_eq!(state.validate_txn(&tx), success());
    assert_eq!(state.get_flk_balance(&A), 10);
    assert_eq!(state.get_account_nonce(&A), 1);
    assert_eq!(run(&mut state, tx), success());
    assert_eq!(state.get_flk_balance(&A), 6);
}

#[test]
fn transcript_of_a_transfer() {
    let payload = UpdatePayload {
        sender: TransactionSender::AccountOwner(A),
        nonce: 0x0102,
        method: UpdateMethod::Transfer { amount: 0x0a0b, token: Tokens::USDC, to: B },
    };
    let mut expected = vec![0x41; 20];
    expected.extend_from_slice(&[0x02, 0x01, 0, 0, 0, 0, 0, 0]);
    expected.push(2);
    expected.extend_from_slice(&[0x0b, 0x0a, 0, 0, 0, 0, 0, 0, 0, 0, 0, 0, 0, 0, 0, 0]);
    expected.push(1);
    expected.extend_from_slice(&[0x42; 20]);
    assert_eq!(payload.transcript(), expected);
    let digest: [u8; 32] = fleek_blake3::hash(&expected).into();
    assert_eq!(payload.to_digest(), digest);
}

#[test]
fn transcript_tells_methods_and_fields_apart() {
    let sender = TransactionSender::NodeMain(N);
    let of = |method| UpdatePayload { sender, nonce: 1, method }.transcript();
    assert_eq!(of(UpdateMethod::OptIn {})[40], 11);
    assert_eq!(of(UpdateMethod::OptOut {})[40], 12);
    assert_eq!(of(UpdateMethod::OptIn {}).len(), 41);

    let mut epoch = of(UpdateMethod::ChangeEpoch { epoch: u64::MAX });
    assert_eq!(epoch.split_off(41), vec![0xff; 8]);

    let m = ReputationMeasurements {
        latency: Some(0x0102),
        interactions: Some(-3),
        inbound_bandwidth: None,
        outbound_bandwidth: Some(1 << 64),
        bytes_received: None,
        bytes_sent: None,
        uptime: Some(99),
        hops: None,
    };
    let mut reports =
        of(UpdateMethod::SubmitReputationMeasurements { measurements: vec![(7, m)] });
    let body = reports.split_off(41);
    let mut expected = vec![1, 0, 0, 0, 0, 0, 0, 0]; // one entry
    expected.extend_from_slice(&[7, 0, 0, 0]); // about node 7
    expected.extend_from_slice(&[1, 0x02, 0x01, 0, 0, 0, 0, 0, 0]); // latency
    expected.extend_from_slice(&[1, 1, 3, 0, 0, 0, 0, 0, 0, 0]); // interactions: minus three
    expected.push(0); // no inbound bandwidth
    expected.extend_from_slice(&[1, 0, 0, 0, 0, 0, 0, 0, 0, 1, 0, 0, 0, 0, 0, 0, 0]);
    expected.extend_from_slice(&[0, 0]); // no bytes received, none sent
    expected.extend_from_slice(&[1, 99]); // uptime
    expected.push(0); // no hops
    assert_eq!(body, expected);

    let delivery = of(UpdateMethod::SubmitDeliveryAcknowledgmentAggregation {
        commodity: 5,
        service_id: 1,
        proofs: vec![],
        metadata: Some(vec![0xee, 0xff]),
    });
    let mut expected = vec![5, 0, 0, 0, 0, 0, 0, 0, 0, 0, 0, 0, 0, 0, 0, 0];
    expected.extend_from_slice(&[1, 0, 0, 0]);
    expected.extend_from_slice(&[0; 8]);
    expected.extend_from_slice(&[1, 2, 0, 0, 0, 0, 0, 0, 0, 0xee, 0xff]);
    assert_eq!(delivery[41..], expected[..]);
}

#[test]
fn receipts_carry_the_digest_of_the_payload() {
    let (mut state, _) = ledger(4);
    let tx = account(&A, 1, deposit(5));
    let digest = tx.payload.to_digest();
    let response = run_block(&mut state, vec![tx]);
    assert_eq!(response.txn_receipts[0].hash, digest);
    assert_eq!(response.txn_receipts[0].from, TransactionSender::AccountOwner(A));
    assert_eq!(response.txn_receipts[0].transaction_index, 0);
    assert_eq!(response.block_hash, [1; 32]);
    assert!(state.has_executed_digest(&digest));
    assert_eq!(state.get_last_block(), [1; 32]);
}

#[test]
fn median_is_the_middle_value() {
    assert_eq!(median(&vec![]), None);
    assert_eq!(median(&vec![7]), Some(7));
    assert_eq!(median(&vec![9, 5]), Some(7));
    assert_eq!(median(&vec![20, 25]), Some(22));
    assert_eq!(median(&vec![3, 1, 2]), Some(2));
    assert_eq!(median(&vec![100, 1, 50, 2]), Some(26));
    assert_eq!(median(&vec![u128::MAX, u128::MAX]), Some(u128::MAX));
    assert_eq!(sort_values(&vec![3, 1, 2, 1, 0]), vec![0, 1, 1, 2, 3]);
}

#[test]
fn score_is_the_weighted_mean_of_the_marks() {
    let none = ReputationMeasurements {
        latency: None,
        interactions: None,
        inbound_bandwidth: None,
        outbound_bandwidth: None,
        bytes_received: None,
        bytes_sent: None,
        uptime: None,
        hops: None,
    };
    let report = |m| Report { reporter: 0, subject: 1, measurements: m };
    assert_eq!(score(&vec![report(none)], 1), None);
    // Uptime alone: the score is the uptime.
    let reports = vec![
        report(ReputationMeasurements { uptime: Some(80), ..none }),
        report(ReputationMeasurements { uptime: Some(60), ..none }),
    ];
    assert_eq!(score(&reports, 1), Some(70));
    assert_eq!(score(&reports, 2), None);
    // Uptime 100 (weight 30) and a latency of 500 ms (mark 50, weight 20).
    let reports = vec![report(ReputationMeasurements {
        uptime: Some(100),
        latency: Some(500),
        ..none
    })];
    assert_eq!(score(&reports, 1), Some(80));
    // Three hops cost thirty marks (weight 10).
    let reports = vec![report(ReputationMeasurements { hops: Some(3), ..none })];
    assert_eq!(score(&reports, 1), Some(70));
}

#[test]
fn state_root_stands_for_the_ledger() {
    let (mut state, _) = ledger(4);
    let root = state.state_root();
    assert_eq!(state.snapshot().state_root(), root);
    let expected: [u8; 32] = fleek_blake3::hash(&state.to_bytes()).into();
    assert_eq!(root, expected);

    // A reverted transaction that was not admitted leaves the root alone.
    run(&mut state, account(&A, 7, deposit(5)));
    // (the block digest is part of the ledger)
    let after_revert = state.state_root();
    run(&mut state, account(&A, 7, deposit(5)));
    assert_eq!(state.state_root(), after_revert);

    run(&mut state, account(&A, 1, deposit(5)));
    assert_ne!(state.state_root(), after_revert);
}

#[test]
fn state_bytes_start_with_the_metadata() {
    let (state, _) = ledger(1);
    let bytes = state.to_bytes();
    // Epoch 0, start 0, length of two minutes.
    assert_eq!(bytes[..8], [0; 8]);
    assert_eq!(bytes[8..16], [0; 8]);
    assert_eq!(bytes[16..24], 120000u64.to_le_bytes());
    // No block yet, then the supply of a million FLK.
    assert_eq!(bytes[24..56], [0; 32]);
    assert_eq!(bytes[56..72], (1_000_000 * UNIT).to_le_bytes());
    // Two ledgers of one genesis have the same bytes.
    assert_eq!(ledger(1).0.to_bytes(), bytes);
    assert_ne!(ledger(2).0.to_bytes(), bytes);
}

#[test]
fn reader_sees_the_ledger_as_it_stood() {
    let (mut state, _) = ledger(4);
    run(&mut state, account(&A, 1, deposit(5)));
    let reader = QueryRunner::new(&state);
    run(&mut state, account(&A, 2, deposit(5)));
    assert_eq!(reader.state.get_flk_balance(&A), 5);
    assert_eq!(state.get_flk_balance(&A), 10);
}

#[test]
fn reverted_transaction_moves_nothing_but_the_nonce() {
    let (mut state, _) = ledger(4);
    run(&mut state, account(&A, 1, deposit(5)));
    let before = state.snapshot();
    let tx = account(&A, 2, UpdateMethod::Transfer { amount: 6, token: Tokens::FLK, to: B });
    let digest = tx.payload.to_digest();
    assert_eq!(run(&mut state, tx), revert(ExecutionError::InsufficientBalance));
    let mut expected = before;
    expected.accounts[0].nonce = 2;
    expected.executed.push(digest);
    expected.metadata.last_block_digest = [1; 32];
    assert_eq!(state.to_bytes(), expected.to_bytes());
}

#[test]
fn measurements_that_name_a_node_twice_count_once() {
    let (mut state, keys) = ledger(4);
    let m = |uptime| ReputationMeasurements {
        latency: None,
        interactions: None,
        inbound_bandwidth: None,
        outbound_bandwidth: None,
        bytes_received: None,
        bytes_sent: None,
        uptime: Some(uptime),
        hops: None,
    };
    let list = vec![(1, m(10)), (2, m(20)), (1, m(30)), (3, m(40)), (2, m(50))];
    assert_eq!(
        run(
            &mut state,
            node(&keys[0].node_public_key, 1, UpdateMethod::SubmitReputationMeasurements {
                measurements: list,
            })
        ),
        success()
    );
    // The last entry for a node is the one that counts.
    let about = |state: &State, subject| {
        state
            .get_rep_measurements(subject)
            .iter()
            .map(|r| (r.reporting_node, r.measurements.uptime))
            .collect::<Vec<_>>()
    };
    assert_eq!(about(&state, 1), vec![(0, Some(30))]);
    assert_eq!(about(&state, 2), vec![(0, Some(50))]);
    assert_eq!(about(&state, 3), vec![(0, Some(40))]);
    assert_eq!(state.reports.len(), 3);

    // Another reporter adds its own word; the first cannot add another.
    run(
        &mut state,
        node(&keys[1].node_public_key, 1, UpdateMethod::SubmitReputationMeasurements {
            measurements: vec![(2, m(60))],
        }),
    );
    assert_eq!(
        run(
            &mut state,
            node(&keys[0].node_public_key, 2, UpdateMethod::SubmitReputationMeasurements {
                measurements: vec![(3, m(70))],
            })
        ),
        revert(ExecutionError::AlreadySubmittedMeasurements)
    );
    assert_eq!(about(&state, 2), vec![(0, Some(50)), (1, Some(60))]);
    assert_eq!(about(&state, 3), vec![(0, Some(40))]);
}

#[test]
fn a_block_of_signals_changes_the_epoch_when_they_are_enough() {
    let signal = |k: &CommitteeKeys| node(&k.node_public_key, 1, UpdateMethod::ChangeEpoch { epoch: 0 });
    // Seven members need five signals.
    let (mut state, keys) = ledger(7);
    let response = run_block(&mut state, keys[..2].iter().map(signal).collect());
    assert!(!response.change_epoch);
    assert_eq!(state.signalled, vec![0, 1]);
    let response = run_block(&mut state, keys[2..4].iter().map(signal).collect());
    assert!(!response.change_epoch);
    assert_eq!(state.get_current_epoch(), 0);
    assert_eq!(state.signalled, vec![0, 1, 2, 3]);
    let response = run_block(&mut state, keys[4..7].iter().map(signal).collect());
    assert!(response.change_epoch);
    assert_eq!(state.get_current_epoch(), 1);
    let responses: Vec<_> = response.txn_receipts.iter().map(|r| r.response).collect();
    assert_eq!(
        responses,
        vec![
            TransactionResponse::Success(ExecutionData::EpochChange),
            revert(ExecutionError::EpochHasNotStarted),
            revert(ExecutionError::EpochHasNotStarted),
        ]
    );
}
