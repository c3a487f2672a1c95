//! Encoding, identifier and scan-helper behaviour.

use parity_scale_codec::Decode;
use parity_scale_codec::Encode;
use vrtest::codec::bytes_contain;
use vrtest::codec::compose_service_payload;
use vrtest::codec::decode_reply_parts;
use vrtest::codec::scale_encode_string;
use vrtest::ids::ActorId32;
use vrtest::ids::CodeId32;
use vrtest::ids::MessageId32;
use vrtest::ids::derive_code_id;
use vrtest::ids::derive_program_address;
use vrtest::requests::Request;
use vrtest::requests::RewardAccount;

#[test]
fn string_encoding_matches_scale_wire_format() {
    // Compact length 5 is one byte: 5 << 2 = 20.
    let encoded = scale_encode_string(&String::from("Hello"));
    assert_eq!(encoded, vec![20u8, b'H', b'e', b'l', b'l', b'o']);
    // And agrees with the codec crate used directly.
    assert_eq!(encoded, "Hello".encode());
}

#[test]
fn service_payload_is_names_then_args() {
    let args = vec![1u8, 2, 3];
    let payload = compose_service_payload(&String::from("Svc"), &String::from("Go"), &args);
    let mut expected = "Svc".encode();
    expected.extend_from_slice(&"Go".encode());
    expected.extend_from_slice(&args);
    assert_eq!(payload, expected);
}

#[test]
fn reply_parts_round_trip() {
    let args = vec![9u8, 9, 9, 9];
    let payload = compose_service_payload(
        &String::from("ContractService"),
        &String::from("Hello"),
        &args,
    );
    let (svc, meth, rest) = decode_reply_parts(&payload).expect("a framed payload decodes");
    assert_eq!(svc, "ContractService");
    assert_eq!(meth, "Hello");
    assert_eq!(rest, args);
}

#[test]
fn malformed_reply_is_rejected() {
    // 0xFF opens a four-byte compact length; the rest is far too short.
    assert!(decode_reply_parts(&vec![0xFFu8, 0x01]).is_none());
    // A length prefix pointing past the end of the payload.
    assert!(decode_reply_parts(&vec![40u8, b'x']).is_none());
}

#[test]
fn account_embedding_round_trips() {
    let id = ActorId32::from_account(7_777_777);
    assert_eq!(id.to_account(), 7_777_777);
    // The embedding writes the account little-endian at offsets 12 to 19,
    // as the primitives crate does for u64 conversions.
    let direct = gprimitives::ActorId::from(7_777_777u64);
    assert_eq!(id.as_bytes(), &<[u8; 32]>::from(direct));
}

#[test]
fn message_ids_differ_by_nonce() {
    let a = MessageId32::from_nonce(1);
    let b = MessageId32::from_nonce(2);
    assert!(!a.equals(&b));
    assert!(a.equals(&MessageId32::from_nonce(1)));
}

#[test]
fn code_id_is_the_code_digest() {
    let wasm = vec![0u8, b'a', b's', b'm', 1, 0, 0, 0];
    let id = derive_code_id(&wasm);
    let expected = <gprimitives::CodeId as gear_core::ids::prelude::CodeIdExt>::generate(&wasm);
    assert_eq!(id.as_bytes(), &<[u8; 32]>::from(expected));
}

#[test]
fn program_address_matches_ledger_derivation() {
    let wasm = vec![0u8, b'a', b's', b'm', 1, 0, 0, 0];
    let code_id = derive_code_id(&wasm);
    let salt = b"contract".to_vec();
    let address = derive_program_address(&code_id, &salt);
    let expected = <gprimitives::ActorId as gear_core::ids::prelude::ActorIdExt>::generate_from_user(
        gprimitives::CodeId::new(*code_id.as_bytes()),
        b"contract",
    );
    assert_eq!(address.as_bytes(), &<[u8; 32]>::from(expected));
}

#[test]
fn bytes_contain_finds_windows() {
    let hay = vec![1u8, 2, 3, 4, 5];
    assert!(bytes_contain(&hay, &vec![3u8, 4]));
    assert!(bytes_contain(&hay, &vec![]));
    assert!(!bytes_contain(&hay, &vec![4u8, 3]));
    assert!(!bytes_contain(&vec![1u8], &vec![1u8, 2]));
}

#[test]
fn bond_request_encodes_like_the_codec() {
    let encoded = Request::Bond { value: 100, payee: RewardAccount::Staked }.encode();
    let mut expected = vec![0u8];
    expected.extend_from_slice(&100u128.encode());
    expected.push(0);
    assert_eq!(encoded, expected);
}

#[test]
fn nominate_request_has_compact_prefixed_targets() {
    let t1 = ActorId32::from_account(10);
    let t2 = ActorId32::from_account(11);
    let encoded = Request::Nominate { targets: vec![t1, t2] }.encode();
    let mut expected = vec![4u8];
    expected.extend_from_slice(&parity_scale_codec::Compact(2u32).encode());
    expected.extend_from_slice(t1.as_bytes());
    expected.extend_from_slice(t2.as_bytes());
    assert_eq!(encoded, expected);
}

#[test]
fn payout_and_payee_requests_encode_exactly() {
    let stash = ActorId32::from_account(42);
    let mut expected = vec![6u8];
    expected.extend_from_slice(stash.as_bytes());
    expected.extend_from_slice(&7u32.encode());
    assert_eq!(Request::PayoutStakers { validator_stash: stash, era: 7 }.encode(), expected);

    assert_eq!(Request::Chill.encode(), vec![5u8]);
    assert_eq!(
        Request::SetPayee { payee: RewardAccount::NoReward }.encode(),
        vec![8u8, 3u8]
    );
    let custom = Request::SetPayee { payee: RewardAccount::Custom(stash) }.encode();
    let mut expected_custom = vec![8u8, 2u8];
    expected_custom.extend_from_slice(stash.as_bytes());
    assert_eq!(custom, expected_custom);
}

#[test]
fn unbond_request_value_is_little_endian() {
    let encoded = Request::Unbond { value: 0x0102_0304 }.encode();
    let mut expected = vec![2u8];
    expected.extend_from_slice(&0x0102_0304u128.encode());
    assert_eq!(encoded, expected);
    assert_eq!(encoded[1], 0x04);
    assert_eq!(encoded[2], 0x03);
}

#[test]
fn decoded_reply_value_survives_a_codec_round_trip() {
    let text = String::from("Value get: 11");
    let payload = compose_service_payload(
        &String::from("ContractService"),
        &String::from("SendValue"),
        &text.encode(),
    );
    let (_, _, rest) = decode_reply_parts(&payload).unwrap();
    let decoded = String::decode(&mut &rest[..]).unwrap();
    assert_eq!(decoded, text);
}
