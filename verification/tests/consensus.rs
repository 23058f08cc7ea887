use fastcrypto::hash::HashFunction;
use lightning_core::bridge::{handle_consensus_output, is_new, select_fresh, RawTransaction};
use lightning_core::genesis::test_genesis;
use lightning_core::parcel::{
    parcel_bytes, AttestationOutcome, AttestationPool, AuthenticStampedParcel,
    CommitteeAttestation, ParcelHeader,
};
use lightning_core::state::State;
use lightning_core::transaction::{
    ExecutionData, ProofOfConsensus, TransactionRequest, TransactionResponse, TransactionSender,
    UpdateMethod, UpdatePayload, UpdateRequest,
};
use lightning_core::types::Tokens;

const NOW: u64 = 5_000;

fn deposit(owner: u8, nonce: u64, amount: u128) -> TransactionRequest {
    UpdateRequest {
        signature: [0; 64],
        signature_valid: true,
        payload: UpdatePayload {
            sender: TransactionSender::AccountOwner([owner; 20]),
            nonce,
            method: UpdateMethod::Deposit { proof: ProofOfConsensus {}, token: Tokens::FLK, amount },
        },
    }
}

fn raw(bytes: &[u8], decoded: Option<TransactionRequest>) -> RawTransaction {
    RawTransaction { bytes: bytes.to_vec(), decoded }
}

fn state() -> State {
    State::from_genesis(&test_genesis()).unwrap()
}

#[test]
fn parcel_preimage_is_count_batch_digest_last_executed() {
    let bytes = parcel_bytes(3, &[0x11; 32], &[0x22; 32]);
    let mut expected = vec![3, 0, 0, 0];
    expected.extend_from_slice(&[0x11; 32]);
    expected.extend_from_slice(&[0x22; 32]);
    assert_eq!(bytes, expected);
    assert_eq!(parcel_bytes(0x0102_0304, &[0; 32], &[0; 32])[..4], [4, 3, 2, 1]);
}

#[test]
fn parcel_digest_of_no_transactions() {
    let parcel = AuthenticStampedParcel { transactions: vec![], last_executed: [0; 32], epoch: 0 };
    // BLAKE2b-256 of nothing.
    let batch_digest: [u8; 32] = [
        0x0e, 0x57, 0x51, 0xc0, 0x26, 0xe5, 0x43, 0xb2, 0xe8, 0xab, 0x2e, 0xb0, 0x60, 0x99, 0xda,
        0xa1, 0xd1, 0xe5, 0xdf, 0x47, 0x77, 0x8f, 0x77, 0x87, 0xfa, 0xab, 0x45, 0xcd, 0xf1, 0x2f,
        0xe3, 0xa8,
    ];
    let mut preimage = vec![0, 0, 0, 0];
    preimage.extend_from_slice(&batch_digest);
    preimage.extend_from_slice(&[0; 32]);
    let expected: [u8; 32] = fleek_blake3::hash(&preimage).into();
    assert_eq!(parcel.to_digest(), expected);
}

#[test]
fn parcel_digest_hashes_the_transactions_in_order() {
    let parcel = AuthenticStampedParcel {
        transactions: vec![b"abc".to_vec(), b"de".to_vec()],
        last_executed: [7; 32],
        epoch: 3,
    };
    // BLAKE2b-256 of "abcde": the transactions are fed to the hasher one
    // after the other.
    let batch_digest: [u8; 32] = [
        0xca, 0x96, 0xdd, 0x6b, 0x05, 0xb0, 0xbc, 0x35, 0x3d, 0xd1, 0x29, 0x07, 0x7a, 0x87, 0x1b,
        0x7b, 0xbb, 0x3b, 0xd6, 0x59, 0xc5, 0x92, 0xc7, 0xe3, 0x3d, 0xad, 0xab, 0x30, 0x88, 0x99,
        0x43, 0xee,
    ];
    assert_eq!(fastcrypto::hash::Blake2b256::digest(b"abcde").digest, batch_digest);
    let expected: [u8; 32] =
        fleek_blake3::hash(&parcel_bytes(2, &batch_digest, &[7; 32])).into();
    assert_eq!(parcel.to_digest(), expected);

    // The epoch is not part of the digest; the order of transactions is.
    let mut other = parcel.clone();
    other.epoch = 4;
    assert_eq!(other.to_digest(), expected);
    other.transactions.swap(0, 1);
    assert_ne!(other.to_digest(), expected);
}

fn attestation(digest: u8, node_index: u32, epoch: u64) -> CommitteeAttestation {
    CommitteeAttestation { digest: [digest; 32], node_index, epoch }
}

#[test]
fn parcel_is_executable_with_a_quorum_of_distinct_members() {
    let mut pool = AttestationPool::new(5, vec![10, 11, 12, 13], [0; 32], 8);
    let header = ParcelHeader { digest: [1; 32], last_executed: [0; 32], epoch: 5 };
    assert!(pool.add_parcel(header));
    assert!(!pool.add_parcel(header));

    assert_eq!(pool.add_attestation(attestation(1, 10, 5)), AttestationOutcome::Kept);
    assert_eq!(pool.add_attestation(attestation(1, 11, 5)), AttestationOutcome::Kept);
    assert_eq!(pool.next_executable(), None);

    // The same member again does not count, nor does a stranger or a
    // member of another epoch.
    assert_eq!(pool.add_attestation(attestation(1, 11, 5)), AttestationOutcome::Duplicate);
    assert_eq!(pool.add_attestation(attestation(1, 99, 5)), AttestationOutcome::Discarded);
    assert_eq!(pool.add_attestation(attestation(1, 12, 4)), AttestationOutcome::Discarded);
    assert_eq!(pool.count(&[1; 32]), 2);
    assert_eq!(pool.next_executable(), None);

    assert_eq!(pool.add_attestation(attestation(1, 13, 5)), AttestationOutcome::Kept);
    assert_eq!(pool.count(&[1; 32]), 3);
    assert_eq!(pool.next_executable(), Some(0));

    let executed = pool.mark_executed(0);
    assert_eq!(executed, header);
    assert_eq!(pool.last_executed, [1; 32]);
    assert!(pool.parcels.is_empty());
}

#[test]
fn parcel_waits_for_its_predecessor() {
    let mut pool = AttestationPool::new(0, vec![0, 1, 2, 3], [0; 32], 8);
    let second = ParcelHeader { digest: [2; 32], last_executed: [1; 32], epoch: 0 };
    let first = ParcelHeader { digest: [1; 32], last_executed: [0; 32], epoch: 0 };
    assert!(pool.add_parcel(second));
    assert!(pool.add_parcel(first));
    for member in 0..3 {
        assert_eq!(pool.add_attestation(attestation(2, member, 0)), AttestationOutcome::Kept);
        assert_eq!(pool.add_attestation(attestation(1, member, 0)), AttestationOutcome::Kept);
    }
    // Both have their quorum, but only the first follows what was executed.
    assert!(!pool.is_executable(0));
    assert_eq!(pool.next_executable(), Some(1));
    pool.mark_executed(1);
    assert_eq!(pool.next_executable(), Some(0));
    assert_eq!(pool.mark_executed(0), second);
    assert_eq!(pool.last_executed, [2; 32]);
}

#[test]
fn attestations_for_unknown_parcels_are_cached_up_to_the_bound() {
    let mut pool = AttestationPool::new(0, vec![0, 1, 2, 3], [0; 32], 2);
    assert_eq!(pool.add_attestation(attestation(7, 0, 0)), AttestationOutcome::Kept);
    assert_eq!(pool.add_attestation(attestation(7, 1, 0)), AttestationOutcome::Kept);
    assert_eq!(pool.add_attestation(attestation(7, 2, 0)), AttestationOutcome::Dropped);
    assert_eq!(pool.add_attestation(attestation(8, 2, 0)), AttestationOutcome::Dropped);

    // Once the parcel is known its attestations no longer fill the cache.
    assert!(pool.add_parcel(ParcelHeader { digest: [7; 32], last_executed: [0; 32], epoch: 0 }));
    assert_eq!(pool.add_attestation(attestation(7, 2, 0)), AttestationOutcome::Kept);
    assert_eq!(pool.add_attestation(attestation(8, 2, 0)), AttestationOutcome::Kept);
    assert_eq!(pool.next_executable(), Some(0));
}

#[test]
fn parcel_of_another_epoch_is_not_taken() {
    let mut pool = AttestationPool::new(3, vec![0], [0; 32], 2);
    assert!(!pool.add_parcel(ParcelHeader { digest: [1; 32], last_executed: [0; 32], epoch: 2 }));
    assert!(pool.parcels.is_empty());
}

#[test]
fn batches_of_another_epoch_are_dropped() {
    let mut state = state();
    let outcome =
        handle_consensus_output(&mut state, 1, vec![raw(b"a", Some(deposit(1, 1, 5)))], false, NOW);
    assert!(outcome.is_none());
    assert!(state.executed.is_empty());
    assert_eq!(state.get_flk_balance(&[1; 20]), 0);
}

#[test]
fn batches_become_a_block_with_the_digest_of_their_parcel() {
    let mut state = state();
    let batches = vec![
        raw(b"first", Some(deposit(1, 1, 5))),
        raw(b"garbage", None),
        raw(b"second", Some(deposit(2, 1, 7))),
    ];
    let outcome = handle_consensus_output(&mut state, 0, batches, true, NOW).unwrap();

    assert_eq!(outcome.parcel.transactions, vec![b"first".to_vec(), b"second".to_vec()]);
    assert_eq!(outcome.parcel.last_executed, [0; 32]);
    assert_eq!(outcome.parcel.epoch, 0);
    assert_eq!(outcome.block.transactions, vec![deposit(1, 1, 5), deposit(2, 1, 7)]);
    assert_eq!(outcome.block.digest, outcome.parcel.to_digest());
    assert!(outcome.to_archive);
    assert!(!outcome.epoch_changed);
    assert_eq!(outcome.response.txn_receipts.len(), 2);
    assert_eq!(outcome.response.block_hash, outcome.block.digest);
    for receipt in &outcome.response.txn_receipts {
        assert_eq!(receipt.response, TransactionResponse::Success(ExecutionData::Nothing));
    }
    assert_eq!(
        outcome.response.txn_receipts[1].hash,
        deposit(2, 1, 7).payload.to_digest()
    );

    assert_eq!(state.get_flk_balance(&[1; 20]), 5);
    assert_eq!(state.get_flk_balance(&[2; 20]), 7);
    assert_eq!(state.get_last_block(), outcome.block.digest);
}

#[test]
fn executed_transactions_are_not_executed_again() {
    let mut state = state();
    let tx = deposit(1, 1, 5);
    assert!(is_new(&state, &tx.payload.to_digest()));
    handle_consensus_output(&mut state, 0, vec![raw(b"tx", Some(tx.clone()))], false, NOW).unwrap();
    assert!(!is_new(&state, &tx.payload.to_digest()));

    // The same transaction alone leads to no block.
    let again =
        handle_consensus_output(&mut state, 0, vec![raw(b"tx", Some(tx.clone()))], false, NOW);
    assert!(again.is_none());
    assert_eq!(state.get_flk_balance(&[1; 20]), 5);

    // Together with a new one only the new one is executed, on top of the
    // block before.
    let last = state.get_last_block();
    let outcome = handle_consensus_output(
        &mut state,
        0,
        vec![raw(b"tx", Some(tx)), raw(b"next", Some(deposit(1, 2, 1)))],
        false,
        NOW,
    )
    .unwrap();
    assert_eq!(outcome.parcel.transactions, vec![b"next".to_vec()]);
    assert_eq!(outcome.parcel.last_executed, last);
    assert!(!outcome.to_archive);
    assert_eq!(state.get_flk_balance(&[1; 20]), 6);
}

#[test]
fn select_fresh_keeps_the_order() {
    let state = state();
    let (requests, bytes) = select_fresh(
        &state,
        vec![
            raw(b"1", Some(deposit(1, 1, 1))),
            raw(b"2", None),
            raw(b"3", Some(deposit(3, 1, 3))),
            raw(b"4", Some(deposit(4, 1, 4))),
        ],
    );
    assert_eq!(requests, vec![deposit(1, 1, 1), deposit(3, 1, 3), deposit(4, 1, 4)]);
    assert_eq!(bytes, vec![b"1".to_vec(), b"3".to_vec(), b"4".to_vec()]);
}
