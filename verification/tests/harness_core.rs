//! Block stepping, hook orders, the transaction scope and the ledger model.

use vrtest::events::Event;
use vrtest::ledger::ENDOWMENT;
use vrtest::ledger::GAS_MULTIPLIER;
use vrtest::ledger::Ledger;
use vrtest::ledger::MILLISECS_PER_BLOCK;
use vrtest::ledger::TxError;
use vrtest::ids::ActorId32;
use vrtest::stepper::HookPoint;
use vrtest::stepper::Phase;
use vrtest::stepper::begin_block_order;
use vrtest::stepper::end_block_order;
use vrtest::stepper::new_test_ext;
use vrtest::stepper::run_for_n_blocks;
use vrtest::stepper::run_to_next_block;

const SIGNER: u64 = 1;

#[test]
fn advancing_n_blocks_raises_the_block_number_by_n() {
    let mut l = new_test_ext(&vec![SIGNER]);
    assert_eq!(l.block_number(), 1);
    run_for_n_blocks(&mut l, 250, None).unwrap();
    assert_eq!(l.block_number(), 251);
    run_for_n_blocks(&mut l, 0, None).unwrap();
    assert_eq!(l.block_number(), 251);
    run_to_next_block(&mut l).unwrap();
    assert_eq!(l.block_number(), 252);
    assert_eq!(l.timestamp_ms(), 252 * MILLISECS_PER_BLOCK);
}

#[test]
fn hooks_run_in_the_fixed_orders() {
    let begin = begin_block_order();
    let end = end_block_order();
    assert_eq!(begin.len(), 14);
    assert_eq!(end.len(), 12);
    assert!(matches!(begin[0], Phase::System));
    assert!(matches!(begin[1], Phase::Timestamp));
    assert!(matches!(end[0], Phase::GearBuiltin));
    assert!(matches!(end[11], Phase::Authorship));
    // End order is the begin order read backwards, without the two
    // begin-only phases.
    for i in 0..12 {
        assert!(begin[13 - i] == end[i]);
    }

    let mut l = new_test_ext(&vec![SIGNER]);
    let before = l.hook_trace.len();
    assert_eq!(before, 14);
    run_to_next_block(&mut l).unwrap();
    // One step appends the 12 end hooks, then the 14 begin hooks.
    assert_eq!(l.hook_trace.len(), before + 26);
    for i in 0..12 {
        let (point, phase) = l.hook_trace[before + i];
        assert!(matches!(point, HookPoint::EndBlock));
        assert!(phase == end[i]);
    }
    for i in 0..14 {
        let (point, phase) = l.hook_trace[before + 12 + i];
        assert!(matches!(point, HookPoint::BeginBlock));
        assert!(phase == begin[i]);
    }
}

#[test]
fn transaction_scope_round_trips_balances() {
    let mut l = new_test_ext(&vec![SIGNER]);
    let before = l.free_balance_of(SIGNER);
    assert_eq!(before, ENDOWMENT);

    l.start_transaction();
    assert!(l.in_transaction());
    // Arbitrary intervening message sends and blocks.
    let dest = ActorId32::from_account(99);
    l.submit_message(SIGNER, &dest, vec![1, 2, 3], 1_000, 12345).unwrap();
    run_to_next_block(&mut l).unwrap();
    assert!(l.free_balance_of(SIGNER) < before);
    l.rollback_transaction().unwrap();

    assert!(!l.in_transaction());
    assert_eq!(l.free_balance_of(SIGNER), before);
}

#[test]
fn rollback_without_a_checkpoint_fails_loudly() {
    let mut l = new_test_ext(&vec![SIGNER]);
    assert!(matches!(l.rollback_transaction(), Err(TxError::NoTransactionOpen)));
}

#[test]
fn insufficient_budget_leaves_the_queue_and_is_fatal() {
    let mut l = new_test_ext(&vec![SIGNER]);
    let dest = ActorId32::from_account(99);
    l.submit_message(SIGNER, &dest, vec![], 1_000_000, 0).unwrap();
    // A one-gas allowance cannot run the queued message.
    let r = run_for_n_blocks(&mut l, 1, Some(1));
    assert!(r.is_err());
    assert!(!l.message_queue_empty());
    assert!(vrtest::events::queue_not_processed(&l.state.events));
}

#[test]
fn plain_transfer_moves_value_to_a_user() {
    let mut l = new_test_ext(&vec![SIGNER]);
    let dest = ActorId32::from_account(99);
    let before = l.free_balance_of(99);
    l.submit_message(SIGNER, &dest, vec![], 1_000, 555).unwrap();
    run_to_next_block(&mut l).unwrap();
    assert_eq!(l.free_balance_of(99), before + 555);
    assert_eq!(l.free_balance_of(SIGNER), ENDOWMENT - 555);
}

#[test]
fn submission_is_refused_when_it_cannot_be_paid() {
    let mut l = new_test_ext(&vec![SIGNER]);
    let dest = ActorId32::from_account(99);
    let r = l.submit_message(SIGNER, &dest, vec![], 1_000, ENDOWMENT);
    assert!(matches!(r, Err(vrtest::ledger::LedgerError::InsufficientBalance)));
    let r2 = l.submit_message(SIGNER, &dest, vec![], u64::MAX, 0);
    assert!(matches!(r2, Err(vrtest::ledger::LedgerError::GasLimitTooHigh)));
}

#[test]
fn queued_events_record_the_submission() {
    let mut l = new_test_ext(&vec![SIGNER]);
    let dest = ActorId32::from_account(99);
    let id = l.submit_message(SIGNER, &dest, vec![7], 1_000, 0).unwrap();
    let signer_actor = ActorId32::from_account(SIGNER);
    let found = vrtest::events::message_id_from_queued(&l.state.events, &signer_actor, &dest)
        .expect("the queued event is in the log");
    assert!(found.equals(&id));
    l.reset_events();
    assert!(
        vrtest::events::message_id_from_queued(&l.state.events, &signer_actor, &dest).is_none()
    );
}

#[test]
fn gas_price_uses_the_fixed_multiplier() {
    assert_eq!(vrtest::ledger::gas_price(123), 123 * GAS_MULTIPLIER);
    assert_eq!(GAS_MULTIPLIER, 100);
}

#[test]
fn event_helpers_see_error_replies_and_payloads() {
    let events = vec![
        Event::UserMessageSent {
            source: ActorId32::from_account(2),
            destination: ActorId32::from_account(1),
            payload: b"Message decoding error: bad input".to_vec(),
            code: Some(vrtest::events::ReplyCode::ErrorUserspacePanic),
        },
    ];
    assert!(vrtest::events::error_reply_present(&events));
    assert!(vrtest::events::payload_contains(&events, &b"decoding error".to_vec()));
    assert!(!vrtest::events::payload_contains(&events, &b"no such text".to_vec()));
    assert!(!vrtest::events::error_reply_present(&vec![]));
}
