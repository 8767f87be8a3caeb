//! Reply parsing: status decoding, width narrowing, strict shapes.

use event_bridge::contract::{decode_status, get_details, parse_eth_address, parse_init_data};
use event_bridge::errors::AbiError;
use event_bridge::numeric::{u16_from_be_bytes, u64_from_be_bytes};
use event_bridge::record::EventStatus;
use event_bridge::tokens::TonTokenValue;

fn uint(size: usize, bytes: Vec<u8>) -> TonTokenValue {
    TonTokenValue::Uint { size, bytes }
}

fn sample_init_tuple(confirmations: Vec<u8>) -> TonTokenValue {
    TonTokenValue::Tuple(vec![
        uint(256, vec![0xAB; 32]),
        uint(64, vec![0x01, 0x02, 0x03, 0x04, 0x05, 0x06, 0x07, 0x08]),
        uint(32, vec![0x02]),
        uint(32, vec![0x03]),
        TonTokenValue::Cell(vec![0xC0, 0xDE]),
        TonTokenValue::Address {
            workchain: 0,
            account: vec![0x11; 32],
        },
        uint(16, confirmations),
        uint(16, vec![0x02]),
        TonTokenValue::Cell(vec![]),
    ])
}

fn sample_reply(confirmations: Vec<u8>) -> Vec<TonTokenValue> {
    vec![
        sample_init_tuple(confirmations),
        uint(8, vec![0x01]),
        TonTokenValue::Array(vec![TonTokenValue::Address {
            workchain: -1,
            account: vec![0x22; 32],
        }]),
        TonTokenValue::Array(vec![]),
        TonTokenValue::Array(vec![TonTokenValue::Bytes(vec![0xDE, 0xAD])]),
    ]
}

#[test]
fn status_zero_is_in_process() {
    assert_eq!(decode_status(&uint(8, vec![0])), Ok(EventStatus::InProcess));
}

#[test]
fn status_one_is_confirmed() {
    assert_eq!(decode_status(&uint(8, vec![1])), Ok(EventStatus::Confirmed));
}

#[test]
fn status_two_is_rejected() {
    assert_eq!(decode_status(&uint(8, vec![2])), Ok(EventStatus::Rejected));
}

#[test]
fn status_three_is_invalid() {
    assert_eq!(decode_status(&uint(8, vec![3])), Err(AbiError::InvalidAbi));
}

#[test]
fn status_with_leading_zero_byte_still_decodes() {
    assert_eq!(
        decode_status(&uint(8, vec![0x00, 0x02])),
        Ok(EventStatus::Rejected)
    );
}

#[test]
fn status_of_wrong_shape_is_invalid() {
    assert_eq!(
        decode_status(&TonTokenValue::Bool(true)),
        Err(AbiError::InvalidAbi)
    );
}

#[test]
fn threshold_of_five_round_trips() {
    let d = get_details(sample_reply(vec![0x00, 0x05])).unwrap();
    assert_eq!(d.init_data.required_confirmations, 5);
    assert_eq!(d.init_data.required_rejections, 2);
}

#[test]
fn threshold_of_seventy_thousand_overflows() {
    // 70000 = 0x11170 does not fit the 16-bit destination field.
    let r = get_details(sample_reply(vec![0x01, 0x11, 0x70]));
    assert_eq!(r, Err(AbiError::InvalidAbi));
}

#[test]
fn narrowing_is_exact_at_the_16_bit_boundary() {
    assert_eq!(u16_from_be_bytes(&vec![0xFF, 0xFF]), Some(0xFFFF));
    assert_eq!(u16_from_be_bytes(&vec![0x01, 0x00, 0x00]), None);
    assert_eq!(u16_from_be_bytes(&vec![]), Some(0));
    assert_eq!(u16_from_be_bytes(&vec![0x00, 0x00, 0x12]), Some(0x12));
}

#[test]
fn u64_reads_big_endian() {
    assert_eq!(
        u64_from_be_bytes(&vec![0x01, 0x02, 0x03, 0x04, 0x05, 0x06, 0x07, 0x08]),
        Some(0x0102030405060708)
    );
    assert_eq!(u64_from_be_bytes(&vec![0xFF; 9]), None);
    let mut padded = vec![0x00];
    padded.extend_from_slice(&[0xFF; 8]);
    assert_eq!(u64_from_be_bytes(&padded), Some(u64::MAX));
}

#[test]
fn parse_whole_reply() {
    let d = get_details(sample_reply(vec![0x00, 0x05])).unwrap();
    assert_eq!(d.init_data.event_transaction, vec![0xAB; 32]);
    assert_eq!(d.init_data.event_transaction_lt, 0x0102030405060708);
    assert_eq!(d.init_data.event_timestamp, 2);
    assert_eq!(d.init_data.event_index, 3);
    assert_eq!(d.init_data.event_data, vec![0xC0, 0xDE]);
    assert_eq!(d.init_data.ton_event_configuration.workchain, 0);
    assert_eq!(d.init_data.ton_event_configuration.account, vec![0x11; 32]);
    assert_eq!(d.init_data.configuration_meta, Vec::<u8>::new());
    assert_eq!(d.status, EventStatus::Confirmed);
    assert_eq!(d.confirms.len(), 1);
    assert_eq!(d.confirms[0].workchain, -1);
    assert_eq!(d.confirms[0].account, vec![0x22; 32]);
    assert_eq!(d.rejections.len(), 0);
    assert_eq!(d.signatures, vec![vec![0xDE, 0xAD]]);
}

#[test]
fn parse_is_deterministic() {
    let a = get_details(sample_reply(vec![0x00, 0x05])).unwrap();
    let b = get_details(sample_reply(vec![0x00, 0x05])).unwrap();
    assert_eq!(a, b);
}

#[test]
fn reply_with_extra_token_is_invalid() {
    let mut tokens = sample_reply(vec![0x00, 0x05]);
    tokens.push(TonTokenValue::Bool(false));
    assert_eq!(get_details(tokens), Err(AbiError::InvalidAbi));
}

#[test]
fn reply_with_missing_token_is_invalid() {
    let mut tokens = sample_reply(vec![0x00, 0x05]);
    tokens.pop();
    assert_eq!(get_details(tokens), Err(AbiError::InvalidAbi));
}

#[test]
fn init_data_with_eight_fields_is_invalid() {
    let t = match sample_init_tuple(vec![0x05]) {
        TonTokenValue::Tuple(mut fs) => {
            fs.pop();
            TonTokenValue::Tuple(fs)
        }
        _ => unreachable!(),
    };
    assert_eq!(parse_init_data(&t), Err(AbiError::InvalidAbi));
}

#[test]
fn transaction_id_wider_than_256_bits_is_invalid() {
    let t = match sample_init_tuple(vec![0x05]) {
        TonTokenValue::Tuple(mut fs) => {
            fs[0] = uint(256, vec![0x01; 33]);
            TonTokenValue::Tuple(fs)
        }
        _ => unreachable!(),
    };
    assert_eq!(parse_init_data(&t), Err(AbiError::InvalidAbi));
}

#[test]
fn short_transaction_id_is_left_padded() {
    let t = match sample_init_tuple(vec![0x05]) {
        TonTokenValue::Tuple(mut fs) => {
            fs[0] = uint(256, vec![0x01, 0x02]);
            TonTokenValue::Tuple(fs)
        }
        _ => unreachable!(),
    };
    let d = parse_init_data(&t).unwrap();
    let mut expected = vec![0u8; 30];
    expected.extend_from_slice(&[0x01, 0x02]);
    assert_eq!(d.event_transaction, expected);
}

#[test]
fn address_truncation_pads_narrow_values() {
    let r = parse_eth_address(&uint(32, vec![0x01, 0x02, 0x03, 0x04])).unwrap();
    let mut expected = vec![0u8; 16];
    expected.extend_from_slice(&[0x01, 0x02, 0x03, 0x04]);
    assert_eq!(r, expected);
}

#[test]
fn address_truncation_keeps_low_twenty_bytes() {
    let mut wide = Vec::new();
    for i in 0..25 {
        wide.push(i as u8);
    }
    let r = parse_eth_address(&uint(256, wide)).unwrap();
    let expected: Vec<u8> = (5u8..25).collect();
    assert_eq!(r, expected);
}

#[test]
fn address_of_wrong_shape_is_invalid() {
    assert_eq!(
        parse_eth_address(&TonTokenValue::Cell(vec![])),
        Err(AbiError::InvalidAbi)
    );
}
