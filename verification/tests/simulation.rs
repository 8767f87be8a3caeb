//! The call simulator's decisions: stack layout, action filtering,
//! reply extraction, and the selector pair.

use event_bridge::contract::abi_get_details;
use event_bridge::errors::SimError;
use event_bridge::simulate::{
    build_call_stack, collect_outbound_messages, extract_reply, message_function_selector,
    MessageKind, OutboundMessage, OutputAction, StackEntry, CONTRACT_BALANCE,
};

#[test]
fn call_selector_high_bit_is_clear() {
    let abi = abi_get_details(0xFFFF_FFFF);
    assert_eq!(abi.input_id >> 31, 0);
    assert_eq!(abi.input_id, 0x7FFF_FFFF);
}

#[test]
fn reply_selector_is_call_selector_with_high_bit_set() {
    let abi = abi_get_details(0x1234_5678);
    assert_eq!(abi.output_id, abi.input_id | 0x8000_0000);
    assert_eq!(abi.input_id ^ abi.output_id, 0x8000_0000);
}

#[test]
fn accessor_name_is_fixed() {
    let abi = abi_get_details(1);
    assert_eq!(abi.name, "getDetails");
}

#[test]
fn internal_calls_select_zero() {
    assert_eq!(message_function_selector(MessageKind::Internal), Ok(0));
}

#[test]
fn external_calls_select_minus_one() {
    assert_eq!(
        message_function_selector(MessageKind::ExternalInbound),
        Ok(-1)
    );
}

#[test]
fn outbound_kind_cannot_be_simulated() {
    assert_eq!(
        message_function_selector(MessageKind::ExternalOutbound),
        Err(SimError::InvalidMessageType)
    );
}

#[test]
fn stack_is_laid_out_in_fixed_order() {
    let st = build_call_stack(vec![1, 2], vec![3, 4], MessageKind::ExternalInbound).unwrap();
    assert_eq!(
        st,
        vec![
            StackEntry::Int(CONTRACT_BALANCE as i64),
            StackEntry::Int(0),
            StackEntry::Cell(vec![1, 2]),
            StackEntry::Slice(vec![3, 4]),
            StackEntry::Int(-1),
        ]
    );
}

#[test]
fn stack_for_outbound_kind_fails() {
    assert_eq!(
        build_call_stack(vec![], vec![], MessageKind::ExternalOutbound),
        Err(SimError::InvalidMessageType)
    );
}

fn ext_out(body: Option<Vec<u8>>) -> OutboundMessage {
    OutboundMessage {
        kind: MessageKind::ExternalOutbound,
        body,
    }
}

#[test]
fn send_actions_are_collected_in_reverse() {
    let m1 = ext_out(Some(vec![1]));
    let m2 = ext_out(Some(vec![2]));
    let actions = vec![
        OutputAction::Other,
        OutputAction::SendMessage(m1.clone()),
        OutputAction::Other,
        OutputAction::SendMessage(m2.clone()),
    ];
    assert_eq!(collect_outbound_messages(actions), vec![m2, m1]);
}

#[test]
fn no_send_actions_yield_no_messages() {
    let actions = vec![OutputAction::Other, OutputAction::Other];
    assert_eq!(collect_outbound_messages(actions), Vec::new());
}

fn reply_body(selector: u32, payload: &[u8]) -> Vec<u8> {
    let mut b = selector.to_be_bytes().to_vec();
    b.extend_from_slice(payload);
    b
}

#[test]
fn reply_is_found_by_its_selector() {
    let msgs = vec![
        OutboundMessage {
            kind: MessageKind::Internal,
            body: Some(vec![0xEE]),
        },
        ext_out(Some(reply_body(0x9000_0001, &[7, 8, 9]))),
    ];
    assert_eq!(extract_reply(&msgs, 0x9000_0001), Ok(vec![7, 8, 9]));
}

#[test]
fn replies_of_other_accessors_are_skipped() {
    let msgs = vec![
        ext_out(Some(reply_body(0x9000_0002, &[1]))),
        ext_out(Some(reply_body(0x9000_0001, &[2]))),
    ];
    assert_eq!(extract_reply(&msgs, 0x9000_0001), Ok(vec![2]));
}

#[test]
fn no_matching_reply_is_an_error() {
    let msgs = vec![ext_out(Some(reply_body(0x9000_0002, &[1])))];
    assert_eq!(
        extract_reply(&msgs, 0x9000_0001),
        Err(SimError::NoMessagesProduced)
    );
}

#[test]
fn empty_message_list_is_an_error() {
    assert_eq!(
        extract_reply(&Vec::new(), 0x9000_0001),
        Err(SimError::NoMessagesProduced)
    );
}

#[test]
fn outbound_message_without_body_is_an_error() {
    let msgs = vec![ext_out(None)];
    assert_eq!(
        extract_reply(&msgs, 0x9000_0001),
        Err(SimError::MessageWithoutBody)
    );
}

#[test]
fn body_too_short_for_a_selector_is_an_error() {
    let msgs = vec![ext_out(Some(vec![1, 2, 3]))];
    assert_eq!(
        extract_reply(&msgs, 0x9000_0001),
        Err(SimError::MalformedReply)
    );
}

#[test]
fn extraction_is_deterministic() {
    let msgs = vec![ext_out(Some(reply_body(0x9000_0001, &[4, 5])))];
    let a = extract_reply(&msgs, 0x9000_0001);
    let b = extract_reply(&msgs, 0x9000_0001);
    assert_eq!(a, b);
}
