use tipjar::circuits::verify_donation;
use tipjar::circuits::DonationInput;
use tipjar::protocol::DonationProtocol;
use tipjar::tipjar_mxe::Argument;
use tipjar::tipjar_mxe::ComputationCoordinator;
use tipjar::tipjar_mxe::ComputationOutputs;
use tipjar::tipjar_mxe::ErrorCode;
use tipjar::tipjar_mxe::SlotState;
use tipjar::tipjar_receipts::ReceiptLedger;
use tipjar::tipjar_receipts::TipjarError;
use tipjar::tipjar_receipts::WriteOutcome;

fn tier_of(amount_lamports: u64) -> u8 {
    verify_donation(&DonationInput { amount_lamports })
}

#[test]
fn tier_thresholds_at_every_boundary() {
    let cases: [(u64, u8); 8] = [
        (99_999_999, 0),
        (100_000_000, 1),
        (249_999_999, 1),
        (250_000_000, 2),
        (499_999_999, 2),
        (500_000_000, 3),
        (999_999_999, 3),
        (1_000_000_000, 4),
    ];
    for (amount, expected) in cases {
        assert_eq!(tier_of(amount), expected);
    }
    assert_eq!(tier_of(0), 0);
    assert_eq!(tier_of(u64::MAX), 4);
}

#[test]
fn slot_exclusivity_one_accepted_one_rejected() {
    let mut coordinator = ComputationCoordinator::new();
    let ciphertext = vec![1u8; 32];
    let key = vec![2u8; 32];
    let first = coordinator.verify_donation(7, &ciphertext, &vec![], &key, 99, true);
    assert!(first.is_ok());
    let second = coordinator.verify_donation(7, &ciphertext, &vec![], &key, 100, true);
    assert!(matches!(second, Err(ErrorCode::SlotInFlight)));
    assert_eq!(coordinator.slot_state(7), Some(SlotState::Pending));
}

#[test]
fn submitted_arguments_carry_key_nonce_and_first_ciphertext() {
    let mut coordinator = ComputationCoordinator::new();
    let ciphertext_0 = vec![1u8; 32];
    let ciphertext_1 = vec![9u8; 32];
    let key = vec![2u8; 32];
    let args = coordinator
        .verify_donation(1, &ciphertext_0, &ciphertext_1, &key, 42, true)
        .unwrap();
    assert_eq!(args.len(), 3);
    assert!(matches!(&args[0], Argument::ArcisPubkey(k) if *k == key));
    assert!(matches!(&args[1], Argument::PlaintextU128(42)));
    assert!(matches!(&args[2], Argument::EncryptedU8(c) if *c == ciphertext_0));
}

#[test]
fn malformed_payload_is_rejected_without_a_record() {
    let mut coordinator = ComputationCoordinator::new();
    let short = vec![1u8; 31];
    let key = vec![2u8; 32];
    let r = coordinator.verify_donation(3, &short, &vec![], &key, 1, true);
    assert!(matches!(r, Err(ErrorCode::InvalidArgument)));
    let bad_key = vec![2u8; 33];
    let r = coordinator.verify_donation(3, &vec![1u8; 32], &vec![], &bad_key, 1, true);
    assert!(matches!(r, Err(ErrorCode::InvalidArgument)));
    assert_eq!(coordinator.slot_state(3), None);
}

#[test]
fn refused_enqueue_is_rejected_without_a_record() {
    let mut coordinator = ComputationCoordinator::new();
    let r = coordinator.verify_donation(4, &vec![1u8; 32], &vec![], &vec![2u8; 32], 1, false);
    assert!(matches!(r, Err(ErrorCode::QueueRejected)));
    assert_eq!(coordinator.slot_state(4), None);
}

#[test]
fn callback_for_unknown_slot_is_rejected() {
    let mut coordinator = ComputationCoordinator::new();
    let r = coordinator.verify_donation_v2_callback(12, ComputationOutputs::Success(2));
    assert!(matches!(r, Err(ErrorCode::DuplicateCallback)));
}

#[test]
fn out_of_range_tier_is_rejected_and_slot_stays_pending() {
    let mut coordinator = ComputationCoordinator::new();
    coordinator
        .verify_donation(5, &vec![1u8; 32], &vec![], &vec![2u8; 32], 1, true)
        .unwrap();
    let r = coordinator.verify_donation_v2_callback(5, ComputationOutputs::Success(5));
    assert!(matches!(r, Err(ErrorCode::InvalidTier)));
    assert_eq!(coordinator.slot_state(5), Some(SlotState::Pending));
    let r = coordinator.verify_donation_v2_callback(5, ComputationOutputs::Success(4));
    assert_eq!(r.unwrap().tier, 4);
    assert_eq!(coordinator.slot_state(5), Some(SlotState::Completed(4)));
}

#[test]
fn second_callback_is_a_duplicate_and_never_touches_the_ledger() {
    let handler = [8u8; 32];
    let mut protocol = DonationProtocol::new(handler);
    let commitment = [21u8; 32];
    protocol
        .coordinator
        .verify_donation(2, &vec![1u8; 32], &vec![], &vec![2u8; 32], 7, true)
        .unwrap();
    let first = protocol.deliver_callback(2, ComputationOutputs::Success(1), commitment, 1000);
    let (event, outcome, record) = first.unwrap();
    assert_eq!(event.tier, 1);
    assert!(matches!(outcome, WriteOutcome::Created));
    assert_eq!(record.tier, 1);
    // a replayed callback must not silently succeed or overwrite
    let other_commitment = [22u8; 32];
    let second = protocol.deliver_callback(2, ComputationOutputs::Success(4), other_commitment, 2000);
    assert!(matches!(second, Err(ErrorCode::DuplicateCallback)));
    assert!(protocol.ledger.get_receipt(&other_commitment).is_none());
    let stored = protocol.ledger.get_receipt(&commitment).unwrap();
    assert_eq!(stored.amount_tier, 1);
    assert_eq!(stored.ts, 1000);
}

#[test]
fn aborted_callback_never_writes_a_receipt() {
    let handler = [8u8; 32];
    let mut protocol = DonationProtocol::new(handler);
    let commitment = [33u8; 32];
    protocol
        .coordinator
        .verify_donation(9, &vec![1u8; 32], &vec![], &vec![2u8; 32], 7, true)
        .unwrap();
    let r = protocol.deliver_callback(9, ComputationOutputs::Aborted, commitment, 1000);
    assert!(matches!(r, Err(ErrorCode::AbortedComputation)));
    assert!(protocol.ledger.get_receipt(&commitment).is_none());
    assert_eq!(protocol.coordinator.slot_state(9), Some(SlotState::Aborted));
    // the slot is terminal: a later verdict cannot resurrect it
    let r = protocol.deliver_callback(9, ComputationOutputs::Success(4), commitment, 2000);
    assert!(matches!(r, Err(ErrorCode::DuplicateCallback)));
    assert!(protocol.ledger.get_receipt(&commitment).is_none());
}

#[test]
fn ledger_write_is_idempotent() {
    let mut ledger = ReceiptLedger::new(None);
    let invoker = [0u8; 32];
    let commitment = [5u8; 32];
    let first = ledger.complete_receipt(2, commitment, &invoker, 111);
    assert!(matches!(first, Ok((WriteOutcome::Created, _))));
    // same commitment, different tier and timestamp: nothing may change
    let second = ledger.complete_receipt(4, commitment, &invoker, 222);
    let (outcome, event) = second.unwrap();
    assert!(matches!(outcome, WriteOutcome::AlreadyExists));
    // the event reports the durable record, not the replayed write
    assert_eq!(event.tier, 2);
    assert_eq!(event.ts, 111);
    let stored = ledger.get_receipt(&commitment).unwrap();
    assert_eq!(stored.amount_tier, 2);
    assert_eq!(stored.commitment, commitment);
    assert_eq!(stored.ts, 111);
}

#[test]
fn receipt_read_after_write_round_trips() {
    let mut ledger = ReceiptLedger::new(None);
    let invoker = [0u8; 32];
    let commitment = [6u8; 32];
    assert!(ledger.get_receipt(&commitment).is_none());
    let (outcome, event) = ledger.complete_receipt(3, commitment, &invoker, 777).unwrap();
    assert!(matches!(outcome, WriteOutcome::Created));
    assert_eq!(event.tier, 3);
    assert_eq!(event.commitment, commitment);
    assert_eq!(event.ts, 777);
    let stored = ledger.get_receipt(&commitment).unwrap();
    assert_eq!(stored.amount_tier, 3);
    assert_eq!(stored.commitment, commitment);
    assert_eq!(stored.ts, 777);
}

#[test]
fn gated_ledger_refuses_an_unexpected_invoker() {
    let expected = [1u8; 32];
    let mut ledger = ReceiptLedger::new(Some(expected));
    let intruder = [2u8; 32];
    let commitment = [9u8; 32];
    let r = ledger.complete_receipt(4, commitment, &intruder, 10);
    assert!(matches!(r, Err(TipjarError::InvalidInvoker)));
    assert!(ledger.get_receipt(&commitment).is_none());
    let r = ledger.complete_receipt(4, commitment, &expected, 10);
    assert!(matches!(r, Ok((WriteOutcome::Created, _))));
}

#[test]
fn donation_flow_end_to_end() {
    // submit slot 1, an amount of 750,000,000 units evaluates to tier 3,
    // the callback records the receipt once, a replayed write is a no-op
    let handler = [13u8; 32];
    let mut protocol = DonationProtocol::new(handler);
    let commitment = [42u8; 32];
    let ciphertext = vec![1u8; 32];
    let key = vec![2u8; 32];
    protocol
        .coordinator
        .verify_donation(1, &ciphertext, &vec![], &key, 555, true)
        .unwrap();
    let tier = tier_of(750_000_000);
    assert_eq!(tier, 3);
    let (event, outcome, record) =
        protocol.deliver_callback(1, ComputationOutputs::Success(tier), commitment, 900).unwrap();
    assert_eq!(event.tier, 3);
    assert!(matches!(outcome, WriteOutcome::Created));
    assert_eq!(record.tier, 3);
    assert_eq!(record.commitment, commitment);
    let again = protocol.ledger.complete_receipt(3, commitment, &handler, 901);
    assert!(matches!(again, Ok((WriteOutcome::AlreadyExists, _))));
    let stored = protocol.ledger.get_receipt(&commitment).unwrap();
    assert_eq!(stored.amount_tier, 3);
    assert_eq!(stored.commitment, commitment);
}
