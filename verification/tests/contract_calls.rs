//! End-to-end scenarios: deploy a contract on the model ledger, script what
//! it does with each message, send commands and observe outcomes.

use parity_scale_codec::Decode;
use parity_scale_codec::Encode;
use vrtest::builders::CommandCall;
use vrtest::codec::compose_service_payload;
use vrtest::contract::Contract;
use vrtest::events::DispatchStatus;
use vrtest::events::ReplyCode;
use vrtest::ledger::ENDOWMENT;
use vrtest::ledger::Ledger;
use vrtest::ledger::Outcome;
use vrtest::ledger::OutcomeKind;
use vrtest::stepper::new_test_ext;
use vrtest::types::ConfigError;
use vrtest::types::ContractCommandError;
use vrtest::types::ContractResponse;

const SIGNER: u64 = 1;

fn test_wasm() -> Vec<u8> {
    vec![0u8, b'a', b's', b'm', 1, 0, 0, 0, 42]
}

fn deploy(l: &mut Ledger) -> Contract {
    Contract::upload_sails_contract()
        .signer(SIGNER)
        .salt("contract")
        .app_constructor_name("New")
        .wasm(test_wasm())
        .upload(l)
        .expect("deployment succeeds")
}

fn reply_payload(text: &str) -> Vec<u8> {
    compose_service_payload(
        &String::from("ContractService"),
        &String::from("Hello"),
        &String::from(text).encode(),
    )
}

#[test]
fn hello_reply_is_decoded() {
    let mut l = new_test_ext(&vec![SIGNER]);
    let contract = deploy(&mut l);
    let sender_text = format!("Hello {}", SIGNER);
    l.set_program_script(
        &contract.address(),
        vec![
            Outcome {
                burned: 10,
                kind: OutcomeKind::Reply {
                    payload: reply_payload(&sender_text),
                    code: ReplyCode::Success,
                },
            },
        ],
    )
    .unwrap();

    let result = contract
        .new_command()
        .signer(SIGNER)
        .service_name("ContractService")
        .method_name("Hello")
        .max_blocks_to_wait(10)
        .send_recv(&mut l)
        .expect("command succeeds");

    let ContractResponse::Response(rest) = result else {
        panic!("expected a reply");
    };
    let decoded = String::decode(&mut &rest[..]).unwrap();
    assert_eq!(decoded, sender_text);
}

#[test]
fn value_transfer_credits_the_contract() {
    let mut l = new_test_ext(&vec![SIGNER]);
    let contract = deploy(&mut l);
    let value: u128 = 11_000;
    let before = contract.free_balance(&l);
    l.set_program_script(
        &contract.address(),
        vec![
            Outcome {
                burned: 5,
                kind: OutcomeKind::Reply {
                    payload: reply_payload(&format!("Value get: {}", value)),
                    code: ReplyCode::Success,
                },
            },
        ],
    )
    .unwrap();

    let result = contract
        .new_command()
        .signer(SIGNER)
        .service_name("ContractService")
        .method_name("SendValue")
        .with_value(value)
        .send_recv(&mut l)
        .expect("command succeeds");

    let ContractResponse::Response(rest) = result else {
        panic!("expected a reply");
    };
    assert_eq!(
        String::decode(&mut &rest[..]).unwrap(),
        format!("Value get: {}", value)
    );
    assert_eq!(contract.free_balance(&l), before + value);
}

#[test]
fn undecodable_message_leaves_an_error_reply() {
    let mut l = new_test_ext(&vec![SIGNER]);
    let contract = deploy(&mut l);
    l.set_program_script(
        &contract.address(),
        vec![
            Outcome {
                burned: 1,
                kind: OutcomeKind::Reply {
                    payload: b"Message decoding error".to_vec(),
                    code: ReplyCode::ErrorUserspacePanic,
                },
            },
        ],
    )
    .unwrap();

    l.reset_events();
    contract
        .new_command()
        .signer(SIGNER)
        .service_name("ContractService")
        .method_name("Nominate")
        .add_arg(&vec![0xDE, 0xAD])
        .send_and_run_one_block(&mut l)
        .unwrap();

    assert!(vrtest::events::error_reply_present(&l.state.events));
    assert!(vrtest::events::payload_contains(
        &l.state.events,
        &b"Message decoding error".to_vec()
    ));
}

#[test]
fn error_reply_payload_fails_reply_decoding() {
    let mut l = new_test_ext(&vec![SIGNER]);
    let contract = deploy(&mut l);
    l.set_program_script(
        &contract.address(),
        vec![
            Outcome {
                burned: 1,
                kind: OutcomeKind::Reply {
                    payload: b"Message decoding error".to_vec(),
                    code: ReplyCode::ErrorUserspacePanic,
                },
            },
        ],
    )
    .unwrap();
    let r = contract
        .new_command()
        .signer(SIGNER)
        .service_name("ContractService")
        .method_name("Nominate")
        .send_recv(&mut l);
    assert!(matches!(r, Err(ContractCommandError::ResultDecodeError(_))));
}

#[test]
fn dispatch_without_reply_is_ok_no_reply() {
    let mut l = new_test_ext(&vec![SIGNER]);
    let contract = deploy(&mut l);
    l.set_program_script(
        &contract.address(),
        vec![Outcome { burned: 3, kind: OutcomeKind::Success }],
    )
    .unwrap();
    let r = contract
        .new_command()
        .signer(SIGNER)
        .service_name("ContractService")
        .method_name("Hello")
        .send_recv(&mut l)
        .unwrap();
    assert!(matches!(r, ContractResponse::OkNoReply));
}

#[test]
fn failed_dispatch_reports_its_status() {
    let mut l = new_test_ext(&vec![SIGNER]);
    let contract = deploy(&mut l);
    l.set_program_script(
        &contract.address(),
        vec![Outcome { burned: 3, kind: OutcomeKind::Failed }],
    )
    .unwrap();
    let r = contract
        .new_command()
        .signer(SIGNER)
        .service_name("ContractService")
        .method_name("Hello")
        .send_recv(&mut l);
    assert!(matches!(
        r,
        Err(ContractCommandError::Failed(DispatchStatus::Failed))
    ));
}

#[test]
fn waited_message_resolves_as_waited() {
    let mut l = new_test_ext(&vec![SIGNER]);
    let contract = deploy(&mut l);
    l.set_program_script(
        &contract.address(),
        vec![Outcome { burned: 3, kind: OutcomeKind::Wait }],
    )
    .unwrap();
    let r = contract
        .new_command()
        .signer(SIGNER)
        .service_name("ContractService")
        .method_name("Hello")
        .send_recv(&mut l)
        .unwrap();
    assert!(matches!(r, ContractResponse::Waited));
}

#[test]
fn exhausted_budget_resolves_without_hanging() {
    let mut l = new_test_ext(&vec![SIGNER]);
    let contract = deploy(&mut l);
    l.set_program_script(
        &contract.address(),
        vec![Outcome { burned: 3, kind: OutcomeKind::Wait }],
    )
    .unwrap();
    let before = l.block_number();
    // Skipping wait-list resolution leaves no terminal event, so the
    // correlator polls its whole budget and resolves as no-reply; the chain
    // advanced by exactly one block for the send plus the budget.
    let budget: u64 = 4;
    let r = contract
        .new_command()
        .signer(SIGNER)
        .service_name("ContractService")
        .method_name("Hello")
        .skip_waited()
        .max_blocks_to_wait(budget)
        .send_recv(&mut l)
        .unwrap();
    assert!(matches!(r, ContractResponse::OkNoReply));
    assert_eq!(l.block_number(), before + 1 + budget);
}

#[test]
fn queries_roll_back_every_side_effect() {
    let mut l = new_test_ext(&vec![SIGNER]);
    let contract = deploy(&mut l);
    let value: u128 = 9_999;
    l.set_program_script(
        &contract.address(),
        vec![
            Outcome {
                burned: 50,
                kind: OutcomeKind::Reply {
                    payload: reply_payload("state"),
                    code: ReplyCode::Success,
                },
            },
        ],
    )
    .unwrap();
    let signer_before = l.free_balance_of(SIGNER);
    let contract_before = contract.free_balance(&l);

    let r = contract
        .new_command()
        .signer(SIGNER)
        .service_name("ContractService")
        .method_name("Hello")
        .with_value(value)
        .transform_to_query()
        .send_recv(&mut l)
        .unwrap();

    assert!(matches!(r, ContractResponse::Response(_)));
    assert_eq!(l.free_balance_of(SIGNER), signer_before);
    assert_eq!(contract.free_balance(&l), contract_before);
    assert!(!l.in_transaction());
}

#[test]
fn gas_estimation_is_idempotent_and_side_effect_free() {
    let mut l = new_test_ext(&vec![SIGNER]);
    let contract = deploy(&mut l);
    l.set_program_script(
        &contract.address(),
        vec![Outcome { burned: 777, kind: OutcomeKind::Success }],
    )
    .unwrap();
    let balance_before = l.free_balance_of(SIGNER);

    let first = contract
        .new_calculate_gas()
        .signer(SIGNER)
        .service_name("ContractService")
        .method_name("Hello")
        .calculate_gas(&mut l)
        .unwrap();
    let second = contract
        .new_calculate_gas()
        .signer(SIGNER)
        .service_name("ContractService")
        .method_name("Hello")
        .calculate_gas(&mut l)
        .unwrap();

    assert_eq!(first, second);
    assert_eq!(first.burned, 777 * 100);
    assert_eq!(first.min_limit, 777 * 100);
    assert!(!first.waited);
    assert_eq!(l.free_balance_of(SIGNER), balance_before);
}

#[test]
fn sending_after_an_estimate_charges_exactly_the_estimate() {
    let mut l = new_test_ext(&vec![SIGNER]);
    let contract = deploy(&mut l);
    let value: u128 = 2_500;
    l.set_program_script(
        &contract.address(),
        vec![Outcome { burned: 777, kind: OutcomeKind::Success }],
    )
    .unwrap();

    let estimate = contract
        .new_calculate_gas()
        .signer(SIGNER)
        .service_name("ContractService")
        .method_name("Hello")
        .calculate_gas(&mut l)
        .unwrap();
    let before = l.free_balance_of(SIGNER);

    let r = contract
        .new_command()
        .signer(SIGNER)
        .service_name("ContractService")
        .method_name("Hello")
        .with_value(value)
        .send_recv(&mut l)
        .unwrap();
    assert!(matches!(r, ContractResponse::OkNoReply));
    assert_eq!(l.free_balance_of(SIGNER), before - value - estimate.burned);
}

#[test]
fn correlation_is_deterministic_across_fresh_ledgers() {
    let mut outcomes: Vec<Vec<u8>> = Vec::new();
    for _ in 0..2 {
        let mut l = new_test_ext(&vec![SIGNER]);
        let contract = deploy(&mut l);
        l.set_program_script(
            &contract.address(),
            vec![
                Outcome {
                    burned: 10,
                    kind: OutcomeKind::Reply {
                        payload: reply_payload("same every run"),
                        code: ReplyCode::Success,
                    },
                },
            ],
        )
        .unwrap();
        let r = contract
            .new_command()
            .signer(SIGNER)
            .service_name("ContractService")
            .method_name("Hello")
            .send_recv(&mut l)
            .unwrap();
        let ContractResponse::Response(rest) = r else {
            panic!("expected a reply");
        };
        outcomes.push(rest);
    }
    assert_eq!(outcomes[0], outcomes[1]);
}

#[test]
fn missing_fields_are_configuration_errors() {
    let mut l = new_test_ext(&vec![SIGNER]);
    let contract = deploy(&mut l);
    let r = contract.new_command().send_recv(&mut l);
    assert!(matches!(
        r,
        Err(ContractCommandError::Config(ConfigError::MissingServiceName))
    ));
    let r2 = contract
        .new_command()
        .service_name("ContractService")
        .method_name("Hello")
        .send_recv(&mut l);
    assert!(matches!(
        r2,
        Err(ContractCommandError::Config(ConfigError::MissingSigner))
    ));
    // The raw-payload escape skips the name checks.
    let r3 = CommandCall::new(contract.address())
        .no_sails_command()
        .signer(SIGNER)
        .send(&mut l);
    assert!(r3.is_ok());
}

#[test]
fn send_check_result_reports_status() {
    let mut l = new_test_ext(&vec![SIGNER]);
    let contract = deploy(&mut l);
    l.set_program_script(
        &contract.address(),
        vec![
            Outcome { burned: 1, kind: OutcomeKind::Success },
            Outcome { burned: 1, kind: OutcomeKind::NotExecuted },
        ],
    )
    .unwrap();
    let ok = contract
        .new_command()
        .signer(SIGNER)
        .service_name("ContractService")
        .method_name("Hello")
        .send_check_result(&mut l, 5);
    assert!(ok.is_ok());
    let failed = contract
        .new_command()
        .signer(SIGNER)
        .service_name("ContractService")
        .method_name("Hello")
        .send_check_result(&mut l, 5);
    assert!(matches!(
        failed,
        Err(ContractCommandError::Failed(DispatchStatus::NotExecuted))
    ));
}

#[test]
fn state_queries_return_the_scripted_reply() {
    let mut l = new_test_ext(&vec![SIGNER]);
    let contract = deploy(&mut l);
    l.set_query_reply(
        &contract.address(),
        compose_service_payload(
            &String::from("ContractService"),
            &String::from("CounterValue"),
            &5u32.encode(),
        ),
    )
    .unwrap();
    let rest = contract
        .new_query()
        .service_name("ContractService")
        .method_name("CounterValue")
        .send(&l)
        .unwrap();
    assert_eq!(u32::decode(&mut &rest[..]).unwrap(), 5);
}

#[test]
fn deployments_are_deterministic_and_unique() {
    let mut l = new_test_ext(&vec![SIGNER]);
    let first = deploy(&mut l);
    // The same code and salt derive the same address, which is now taken.
    let again = Contract::upload_sails_contract()
        .signer(SIGNER)
        .salt("contract")
        .app_constructor_name("New")
        .wasm(test_wasm())
        .upload(&mut l);
    assert!(matches!(
        again,
        Err(ContractCommandError::CommandError(
            vrtest::ledger::LedgerError::ProgramAlreadyExists
        ))
    ));
    // A different salt gives a different address.
    let other = Contract::upload_sails_contract()
        .signer(SIGNER)
        .salt("other")
        .app_constructor_name("New")
        .wasm(test_wasm())
        .upload(&mut l)
        .unwrap();
    assert!(!other.address().equals(&first.address()));
}

#[test]
fn upload_create_contract_with_code_id_round_trip() {
    let mut l = new_test_ext(&vec![SIGNER]);
    let code_id = Contract::upload_code()
        .signer(SIGNER)
        .wasm(&test_wasm())
        .upload(&mut l)
        .unwrap();
    let contract = Contract::create_contract()
        .signer(SIGNER)
        .code_id(code_id)
        .salt("contract")
        .app_constructor_name("New")
        .create(&mut l)
        .unwrap();
    // The created address equals the one a direct wasm upload derives.
    let direct = vrtest::ids::derive_program_address(&code_id, &b"contract".to_vec());
    assert!(contract.address().equals(&direct));
    assert_eq!(contract.account(), direct.to_account());
}

#[test]
fn creating_from_unknown_code_is_refused() {
    let mut l = new_test_ext(&vec![SIGNER]);
    let bogus = vrtest::ids::CodeId32::new([9u8; 32]);
    let r = Contract::create_contract()
        .signer(SIGNER)
        .code_id(bogus)
        .salt("contract")
        .app_constructor_name("New")
        .create(&mut l);
    assert!(matches!(
        r,
        Err(ContractCommandError::CommandError(
            vrtest::ledger::LedgerError::CodeNotFound
        ))
    ));
}

#[test]
fn account_data_reports_free_funds() {
    let mut l = new_test_ext(&vec![SIGNER]);
    let contract = deploy(&mut l);
    let data = contract.get_account_data(&l);
    assert_eq!(data.free, contract.free_balance(&l));
    assert_eq!(data.frozen, 0);
    assert_eq!(contract.frozen_balance(&l), 0);
    assert_eq!(l.free_balance_of(SIGNER), ENDOWMENT);
}

#[test]
fn estimating_against_nothing_fails_loudly() {
    let mut l = new_test_ext(&vec![SIGNER]);
    let nowhere = vrtest::ids::ActorId32::from_account(424242);
    let r = vrtest::builders::CalculateGasCall::new(nowhere)
        .signer(SIGNER)
        .service_name("ContractService")
        .method_name("Hello")
        .calculate_gas(&mut l);
    assert!(matches!(r, Err(ContractCommandError::Error(_))));
    assert!(!l.in_transaction());
}

#[test]
fn estimate_reports_a_pending_wait() {
    let mut l = new_test_ext(&vec![SIGNER]);
    let contract = deploy(&mut l);
    l.set_program_script(
        &contract.address(),
        vec![Outcome { burned: 9, kind: OutcomeKind::Wait }],
    )
    .unwrap();
    let est = contract
        .new_calculate_gas()
        .signer(SIGNER)
        .service_name("ContractService")
        .method_name("Hello")
        .calculate_gas(&mut l)
        .unwrap();
    assert!(est.waited);
    assert_eq!(est.burned, 900);
}

#[test]
fn status_poll_exhausts_on_a_silent_ledger() {
    let mut l = new_test_ext(&vec![SIGNER]);
    let before = l.block_number();
    let ghost_msg = vrtest::ids::MessageId32::from_nonce(12345);
    let r = vrtest::correlate::correlate_status(&mut l, &ghost_msg, 3);
    assert!(matches!(r, vrtest::correlate::CorrOutcome::Exhausted));
    assert_eq!(l.block_number(), before + 3);
}

#[test]
fn plain_wasm_upload_deploys_with_an_empty_payload() {
    let mut l = new_test_ext(&vec![SIGNER]);
    let contract = Contract::upload_contract()
        .signer(SIGNER)
        .wasm(test_wasm())
        .salt("contract")
        .upload(&mut l)
        .unwrap();
    assert!(l.program_exists(&contract.address()));
    // The same derivation as the constructor-based upload.
    let code_id = vrtest::ids::derive_code_id(&test_wasm());
    let expected = vrtest::ids::derive_program_address(&code_id, &b"contract".to_vec());
    assert!(contract.address().equals(&expected));
}

#[test]
fn added_args_follow_the_names_in_the_payload() {
    let mut l = new_test_ext(&vec![SIGNER]);
    let contract = deploy(&mut l);
    l.reset_events();
    contract
        .new_command()
        .signer(SIGNER)
        .service_name("Svc")
        .method_name("Go")
        .add_arg(&vec![0xAA])
        .add_arg(&vec![0xBB, 0xCC])
        .send(&mut l)
        .unwrap();
    // The queued message's payload is enc("Svc") ++ enc("Go") ++ args.
    let expected = compose_service_payload(
        &String::from("Svc"),
        &String::from("Go"),
        &vec![0xAA, 0xBB, 0xCC],
    );
    assert_eq!(l.state.queue.len(), 1);
    assert_eq!(l.state.queue[0].payload, expected);
}

#[test]
fn query_scope_closes_on_a_decode_error() {
    let mut l = new_test_ext(&vec![SIGNER]);
    let contract = deploy(&mut l);
    l.set_program_script(
        &contract.address(),
        vec![
            Outcome {
                burned: 40,
                kind: OutcomeKind::Reply {
                    payload: b"not a framed reply".to_vec(),
                    code: ReplyCode::Success,
                },
            },
        ],
    )
    .unwrap();
    let signer_before = l.free_balance_of(SIGNER);
    let block_before = l.block_number();
    let r = contract
        .new_command()
        .signer(SIGNER)
        .service_name("ContractService")
        .method_name("Hello")
        .transform_to_query()
        .send_recv(&mut l);
    assert!(matches!(r, Err(ContractCommandError::ResultDecodeError(_))));
    // The scope was rolled back exactly once: no open transaction, no
    // balance change, even the stepped blocks rewound.
    assert!(!l.in_transaction());
    assert_eq!(l.free_balance_of(SIGNER), signer_before);
    assert_eq!(l.block_number(), block_before);
}

#[test]
fn query_scope_closes_on_a_failed_dispatch() {
    let mut l = new_test_ext(&vec![SIGNER]);
    let contract = deploy(&mut l);
    l.set_program_script(
        &contract.address(),
        vec![Outcome { burned: 40, kind: OutcomeKind::Failed }],
    )
    .unwrap();
    let signer_before = l.free_balance_of(SIGNER);
    let r = contract
        .new_command()
        .signer(SIGNER)
        .service_name("ContractService")
        .method_name("Hello")
        .transform_to_query()
        .send_recv(&mut l);
    assert!(matches!(
        r,
        Err(ContractCommandError::Failed(DispatchStatus::Failed))
    ));
    assert!(!l.in_transaction());
    assert_eq!(l.free_balance_of(SIGNER), signer_before);
}

#[test]
fn query_scope_closes_when_the_budget_runs_out() {
    let mut l = new_test_ext(&vec![SIGNER]);
    let contract = deploy(&mut l);
    l.set_program_script(
        &contract.address(),
        vec![Outcome { burned: 40, kind: OutcomeKind::Wait }],
    )
    .unwrap();
    let signer_before = l.free_balance_of(SIGNER);
    let r = contract
        .new_command()
        .signer(SIGNER)
        .service_name("ContractService")
        .method_name("Hello")
        .skip_waited()
        .max_blocks_to_wait(2)
        .transform_to_query()
        .send_recv(&mut l)
        .unwrap();
    assert!(matches!(r, ContractResponse::OkNoReply));
    assert!(!l.in_transaction());
    assert_eq!(l.free_balance_of(SIGNER), signer_before);
}
