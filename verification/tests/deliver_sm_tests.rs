use rsmpp::deliver_sm::{
    create_deliver_sm_resp_async, create_generic_nack_async, deliver_sm_async,
    msg_id_from_match, msg_status_from_match, parse_deliver_sm_async, DeliverSmError,
};

fn deliver_pdu(seq: u32, src: &str, dst: &str, msg: &str) -> Vec<u8> {
    let mut body = vec![0u8, 1, 1];
    body.extend(src.as_bytes());
    body.push(0);
    body.extend([1, 1]);
    body.extend(dst.as_bytes());
    body.push(0);
    body.extend([0x04, 0, 0, 0, 0, 0, 0, 0, 0]);
    body.push(msg.len() as u8);
    body.extend(msg.as_bytes());
    let mut pdu = Vec::new();
    pdu.extend(((16 + body.len()) as u32).to_be_bytes());
    pdu.extend(5u32.to_be_bytes());
    pdu.extend(0u32.to_be_bytes());
    pdu.extend(seq.to_be_bytes());
    pdu.extend(body);
    pdu
}

const RECEIPT: &str = "id:123 sub:001 dlvrd:001 submit date:2401011200 done date:2401011201 stat:DELIVRD err:000 text:Hi";

#[test]
fn deliver_sm_receipt_is_parsed() {
    let pdu = deliver_pdu(42, "4477", "1234", RECEIPT);
    let d = parse_deliver_sm_async(&pdu).unwrap();
    assert_eq!(d.sequence_number, 42);
    assert_eq!(d.originator_address, "4477");
    assert_eq!(d.destination_address, "1234");
    assert_eq!(d.message, RECEIPT);
    assert_eq!(d.returned_msg_id, 123);
    assert_eq!(d.returned_msg_status, "DELIVRD");
}

#[test]
fn deliver_sm_without_receipt_fields_is_refused() {
    let pdu = deliver_pdu(1, "a", "b", "hello");
    assert_eq!(parse_deliver_sm_async(&pdu), Err(DeliverSmError::InvalidMessageContent));
}

#[test]
fn deliver_sm_short_buffers_are_refused() {
    assert_eq!(
        parse_deliver_sm_async(&[0; 10]),
        Err(DeliverSmError::BufferTooShort { expected: 16, actual: 10 })
    );
    assert_eq!(
        parse_deliver_sm_async(&[0; 18]),
        Err(DeliverSmError::BufferTooShort { expected: 20, actual: 18 })
    );
}

#[test]
fn deliver_sm_missing_terminator_is_refused() {
    let mut pdu = vec![0u8; 19];
    pdu.extend(b"abc");
    assert_eq!(parse_deliver_sm_async(&pdu), Err(DeliverSmError::NullTerminatorNotFound));
}

#[test]
fn deliver_sm_invalid_utf8_address_is_refused() {
    let mut pdu = vec![0u8; 19];
    pdu.extend([0xFF, 0xFE, 0]);
    pdu.extend([0u8; 16]);
    assert_eq!(parse_deliver_sm_async(&pdu), Err(DeliverSmError::InvalidOriginatorAddress));
}

#[test]
fn deliver_sm_truncated_message_is_refused() {
    let mut pdu = deliver_pdu(3, "a", "b", RECEIPT);
    pdu.truncate(pdu.len() - 5);
    assert!(matches!(
        parse_deliver_sm_async(&pdu),
        Err(DeliverSmError::BufferTooShort { .. })
    ));
}

#[test]
fn responses_are_bare_headers_with_their_sequence() {
    assert_eq!(
        create_deliver_sm_resp_async(0x0102_0304).unwrap(),
        vec![0, 0, 0, 17, 0x80, 0, 0, 5, 0, 0, 0, 0, 1, 2, 3, 4, 0]
    );
    assert_eq!(
        create_generic_nack_async(9).unwrap(),
        vec![0, 0, 0, 16, 0x80, 0, 0, 0, 0, 0, 0, 1, 0, 0, 0, 9]
    );
}

#[test]
fn deliver_sm_is_answered_under_its_own_sequence_number() {
    let pdu = deliver_pdu(77, "4477", "1234", RECEIPT);
    let r = deliver_sm_async(&pdu).unwrap();
    assert_eq!(r.deliversm_resp_bytes, create_deliver_sm_resp_async(77).unwrap());
    assert_eq!(r.orig_addr.as_deref(), Some("4477"));
    assert_eq!(r.dest_addr.as_deref(), Some("1234"));
    assert_eq!(r.message.as_deref(), Some(RECEIPT));
    assert_eq!(r.msg_id.as_deref(), Some("123"));
    assert_eq!(r.msg_status.as_deref(), Some("DELIVRD"));
}

#[test]
fn unparsable_deliver_sm_gets_a_generic_nack() {
    let r = deliver_sm_async(&[1, 2, 3]).unwrap();
    assert_eq!(r.deliversm_resp_bytes, create_generic_nack_async(0).unwrap());
    assert!(r.orig_addr.is_none());
    assert!(r.msg_id.is_none());
    assert!(r.msg_status.is_none());
}

#[test]
fn receipt_fields_are_read_from_their_matches() {
    assert_eq!(msg_id_from_match("id:123"), Some(123));
    assert_eq!(msg_id_from_match("id: 42 :x"), Some(42));
    assert_eq!(msg_id_from_match("id:"), None);
    assert_eq!(msg_id_from_match("nocolon"), None);
    assert_eq!(msg_status_from_match("stat:DELIVRD"), "DELIVRD");
    assert_eq!(msg_status_from_match("stat:a:b"), "a:b");
    assert_eq!(msg_status_from_match("nocolon"), "nocolon");
}

#[test]
fn deliver_sm_error_texts() {
    assert_eq!(
        DeliverSmError::BufferTooShort { expected: 16, actual: 10 }.message(),
        "Buffer too short: expected at least 16 bytes, got 10"
    );
    assert_eq!(
        DeliverSmError::InvalidOriginatorAddress.message(),
        "Invalid UTF-8 in originator address"
    );
    assert_eq!(
        DeliverSmError::InvalidDestinationAddress.message(),
        "Invalid UTF-8 in destination address"
    );
    assert_eq!(DeliverSmError::InvalidMessageContent.message(), "Invalid UTF-8 in message content");
    assert_eq!(DeliverSmError::NullTerminatorNotFound.message(), "Null terminator not found");
}
