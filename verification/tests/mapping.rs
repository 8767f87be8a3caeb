//! Cross-chain mapping and destination encoding, checked byte for byte
//! against the destination chain's own encoder.

use event_bridge::errors::MapError;
use event_bridge::eth::{encode_eth_payload, eth_payload_from_details, map_event_data, EthPayload};
use event_bridge::map::map_ton_to_eth;
use event_bridge::record::{TonAddress, TonEventDetails, TonEventInitData};
use event_bridge::record::EventStatus;
use event_bridge::tokens::{EthTokenValue, TonTokenValue};

fn uint_tok(size: usize, bytes: Vec<u8>) -> TonTokenValue {
    TonTokenValue::Uint { size, bytes }
}

fn int_tok(size: usize, bytes: Vec<u8>) -> TonTokenValue {
    TonTokenValue::Int { size, bytes }
}

#[test]
fn minus_one_sign_extends_to_all_ones() {
    let r = map_ton_to_eth(&int_tok(8, vec![0xFF])).unwrap();
    assert_eq!(r, EthTokenValue::Int(vec![0xFF; 32]));
}

#[test]
fn negative_value_keeps_its_sign_pattern() {
    // -2 in two's complement is 0xFE; widened, all high bytes are ones.
    let r = map_ton_to_eth(&int_tok(8, vec![0xFE])).unwrap();
    let mut expected = vec![0xFF; 31];
    expected.push(0xFE);
    assert_eq!(r, EthTokenValue::Int(expected));
}

#[test]
fn positive_int_is_zero_extended() {
    let r = map_ton_to_eth(&int_tok(8, vec![0x7F])).unwrap();
    let mut expected = vec![0x00; 31];
    expected.push(0x7F);
    assert_eq!(r, EthTokenValue::Int(expected));
}

#[test]
fn uint_is_left_padded() {
    let r = map_ton_to_eth(&uint_tok(16, vec![0x01, 0x02])).unwrap();
    let mut expected = vec![0x00; 30];
    expected.extend_from_slice(&[0x01, 0x02]);
    assert_eq!(r, EthTokenValue::Uint(expected));
}

#[test]
fn oversize_uint_overflows() {
    let r = map_ton_to_eth(&uint_tok(256, vec![0x01; 33]));
    assert_eq!(r, Err(MapError::IntegerOverflow));
}

#[test]
fn cell_has_no_destination_shape() {
    let r = map_ton_to_eth(&TonTokenValue::Cell(vec![1, 2]));
    assert_eq!(r, Err(MapError::UnsupportedType));
}

#[test]
fn composites_map_element_wise() {
    let t = TonTokenValue::Tuple(vec![
        TonTokenValue::Array(vec![TonTokenValue::Bool(true), TonTokenValue::Bool(false)]),
        TonTokenValue::FixedBytes(vec![9, 9]),
    ]);
    let r = map_ton_to_eth(&t).unwrap();
    assert_eq!(
        r,
        EthTokenValue::Tuple(vec![
            EthTokenValue::Array(vec![EthTokenValue::Bool(true), EthTokenValue::Bool(false)]),
            EthTokenValue::FixedBytes(vec![9, 9]),
        ])
    );
}

#[test]
fn nested_unsupported_shape_fails_whole_mapping() {
    let t = TonTokenValue::Array(vec![
        TonTokenValue::Bool(true),
        TonTokenValue::Unsupported,
    ]);
    assert_eq!(map_ton_to_eth(&t), Err(MapError::UnsupportedType));
}

#[test]
fn mapped_data_matches_destination_encoder() {
    // The library's byte string must agree with what the destination
    // chain's own encoder produces for the same value.
    let ours = map_event_data(&vec![uint_tok(16, vec![0x01, 0x02])]).unwrap();
    let reference = ethabi::encode(&[ethabi::Token::Uint(ethabi::Uint::from(0x0102u64))]);
    assert_eq!(ours, reference);
}

#[test]
fn mapped_minus_one_matches_destination_encoder() {
    let ours = map_event_data(&vec![int_tok(8, vec![0xFF])]).unwrap();
    let reference = ethabi::encode(&[ethabi::Token::Int(ethabi::Int::max_value())]);
    assert_eq!(ours, reference);
}

#[test]
fn mapped_bytes_match_destination_encoder() {
    let ours = map_event_data(&vec![TonTokenValue::Bytes(vec![1, 2, 3, 4, 5])]).unwrap();
    let reference = ethabi::encode(&[ethabi::Token::Bytes(vec![1, 2, 3, 4, 5])]);
    assert_eq!(ours, reference);
}

fn sample_payload() -> EthPayload {
    EthPayload {
        event_transaction: vec![0xAA; 32],
        event_transaction_lt: 42,
        event_timestamp: 7,
        event_index: 1,
        configuration_workchain: -1,
        configuration_account: vec![0x22; 32],
        required_confirmations: 5,
        required_rejections: 2,
        proxy: vec![0x33; 20],
    }
}

fn reference_envelope() -> Vec<u8> {
    let mapped = ethabi::encode(&[ethabi::Token::Uint(ethabi::Uint::from(0x7Fu64))]);
    ethabi::encode(&[ethabi::Token::Tuple(vec![
        ethabi::Token::Uint(ethabi::Uint::from_big_endian(&[0xAA; 32])),
        ethabi::Token::Uint(ethabi::Uint::from(42u64)),
        ethabi::Token::Uint(ethabi::Uint::from(7u64)),
        ethabi::Token::Uint(ethabi::Uint::from(1u64)),
        ethabi::Token::Bytes(mapped),
        ethabi::Token::Int(ethabi::Int::max_value()),
        ethabi::Token::Uint(ethabi::Uint::from_big_endian(&[0x22; 32])),
        ethabi::Token::Uint(ethabi::Uint::from(5u64)),
        ethabi::Token::Uint(ethabi::Uint::from(2u64)),
        ethabi::Token::Address(ethabi::Address::from_slice(&[0x33; 20])),
    ])])
}

#[test]
fn envelope_is_byte_exact() {
    let tokens = vec![uint_tok(8, vec![0x7F])];
    let ours = encode_eth_payload(sample_payload(), &tokens).unwrap();
    assert_eq!(ours, reference_envelope());
}

#[test]
fn envelope_encoding_is_deterministic() {
    let tokens = vec![uint_tok(8, vec![0x7F])];
    let a = encode_eth_payload(sample_payload(), &tokens).unwrap();
    let b = encode_eth_payload(sample_payload(), &tokens).unwrap();
    assert_eq!(a, b);
}

#[test]
fn envelope_fails_when_mapping_fails() {
    let tokens = vec![TonTokenValue::Unsupported];
    assert_eq!(
        encode_eth_payload(sample_payload(), &tokens),
        Err(MapError::UnsupportedType)
    );
}

fn sample_details(account: Vec<u8>) -> TonEventDetails {
    TonEventDetails {
        init_data: TonEventInitData {
            event_transaction: vec![0xAA; 32],
            event_transaction_lt: 42,
            event_timestamp: 7,
            event_index: 1,
            event_data: vec![0xC0],
            ton_event_configuration: TonAddress {
                workchain: -1,
                account,
            },
            required_confirmations: 5,
            required_rejections: 2,
            configuration_meta: vec![],
        },
        status: EventStatus::Confirmed,
        confirms: vec![],
        rejections: vec![],
        signatures: vec![],
    }
}

#[test]
fn payload_carries_the_record_fields() {
    let d = sample_details(vec![0x22; 32]);
    let p = eth_payload_from_details(&d, vec![0x33; 20]).unwrap();
    assert_eq!(p.event_transaction, vec![0xAA; 32]);
    assert_eq!(p.event_transaction_lt, 42);
    assert_eq!(p.configuration_workchain, -1);
    assert_eq!(p.configuration_account, vec![0x22; 32]);
    assert_eq!(p.required_confirmations, 5);
    assert_eq!(p.proxy, vec![0x33; 20]);
}

#[test]
fn payload_rejects_an_oversize_account_id() {
    let d = sample_details(vec![0x22; 33]);
    assert!(eth_payload_from_details(&d, vec![0x33; 20]).is_err());
}

#[test]
fn payload_rejects_a_wrong_width_proxy() {
    let d = sample_details(vec![0x22; 32]);
    assert!(eth_payload_from_details(&d, vec![0x33; 19]).is_err());
}

#[test]
fn mapped_composites_match_destination_encoder() {
    let ours = map_event_data(&vec![
        TonTokenValue::Array(vec![uint_tok(8, vec![1]), uint_tok(8, vec![2])]),
        TonTokenValue::Tuple(vec![TonTokenValue::Bool(true)]),
    ])
    .unwrap();
    let reference = ethabi::encode(&[
        ethabi::Token::Array(vec![
            ethabi::Token::Uint(ethabi::Uint::from(1u64)),
            ethabi::Token::Uint(ethabi::Uint::from(2u64)),
        ]),
        ethabi::Token::Tuple(vec![ethabi::Token::Bool(true)]),
    ]);
    assert_eq!(ours, reference);
}
