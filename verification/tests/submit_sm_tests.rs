use rsmpp::submit_sm::{
    NumericPlanIndicator, SubmitSm, SubmitSmBuilder, SubmitSmError, SubmitSmParams, TypeOfNumber,
};
use rsmpp::wire::ErrorKind;

fn be(v: u32) -> Vec<u8> {
    v.to_be_bytes().to_vec()
}

fn hello_params() -> SubmitSmParams {
    SubmitSmBuilder::new()
        .source(TypeOfNumber::International, NumericPlanIndicator::ISDN, "123".to_string())
        .destination(TypeOfNumber::National, NumericPlanIndicator::Data, "456".to_string())
        .message("Hi".to_string())
        .esm_class(0x40)
        .protocol_id(2)
        .registered_delivery(1)
        .data_coding(8)
        .build()
}

#[test]
fn type_of_number_codes_round_trip() {
    for code in 0u8..=6 {
        assert_eq!(TypeOfNumber::from(code).code(), code);
    }
    assert_eq!(TypeOfNumber::from(7), TypeOfNumber::Unknown);
    assert_eq!(TypeOfNumber::from(0xFF), TypeOfNumber::Unknown);
    assert_eq!(TypeOfNumber::Alphanumeric.code(), 5);
}

#[test]
fn numbering_plan_codes_round_trip() {
    for code in [0u8, 1, 3, 4, 6, 8, 9, 10, 14, 18] {
        assert_eq!(NumericPlanIndicator::from(code).code(), code);
    }
    assert_eq!(NumericPlanIndicator::from(2), NumericPlanIndicator::Unknown);
    assert_eq!(NumericPlanIndicator::WAPClientId.code(), 18);
}

#[test]
fn builder_defaults() {
    let p = SubmitSmBuilder::new().build();
    assert_eq!(p.source_ton, TypeOfNumber::Unknown);
    assert_eq!(p.dest_npi, NumericPlanIndicator::Unknown);
    assert_eq!(p.message, "");
    assert_eq!(p.esm_class, 0);
    let d = SubmitSmBuilder::default().build();
    assert_eq!(d.source_addr, "");
    assert_eq!(d.data_coding, 0);
    let q = SubmitSmParams::default();
    assert_eq!(q.validity_period, "");
}

#[test]
fn builder_setters_set_their_fields() {
    let p = hello_params();
    assert_eq!(p.source_ton, TypeOfNumber::International);
    assert_eq!(p.source_addr, "123");
    assert_eq!(p.dest_ton, TypeOfNumber::National);
    assert_eq!(p.dest_npi, NumericPlanIndicator::Data);
    assert_eq!(p.destination_addr, "456");
    assert_eq!(p.message, "Hi");
    assert_eq!(p.esm_class, 0x40);
    assert_eq!(p.protocol_id, 2);
    assert_eq!(p.registered_delivery, 1);
    assert_eq!(p.data_coding, 8);
    let t = SubmitSmBuilder::new()
        .schedule_delivery_time("0123456789012345".to_string())
        .validity_period("5432109876543210".to_string())
        .build();
    assert_eq!(t.schedule_delivery_time, "0123456789012345");
    assert_eq!(t.validity_period, "5432109876543210");
}

#[test]
fn submit_sm_pdu_bytes() {
    let pdu = SubmitSm::create_pdu_with_sequence(hello_params(), 5).unwrap();
    let mut body = vec![0u8];
    body.extend([1, 1]);
    body.extend(b"123\0");
    body.extend([2, 3]);
    body.extend(b"456\0");
    body.extend([0x40, 2, 0]);
    body.extend([0, 0]);
    body.extend([1, 0, 8, 0, 2]);
    body.extend(b"Hi");
    let mut expected = Vec::new();
    expected.extend(be(16 + body.len() as u32));
    expected.extend(be(4));
    expected.extend(be(0));
    expected.extend(be(5));
    expected.extend(body);
    assert_eq!(pdu, expected);
    assert_eq!(u32::from_be_bytes([pdu[0], pdu[1], pdu[2], pdu[3]]) as usize, pdu.len());
}

#[test]
fn submit_sm_validation_errors_in_order() {
    let long_msg = SubmitSmBuilder::new().message("x".repeat(256)).build();
    assert_eq!(SubmitSm::validate_params(&long_msg), Err(SubmitSmError::MessageTooLong));
    let long_src = SubmitSmBuilder::new()
        .source(TypeOfNumber::Unknown, NumericPlanIndicator::Unknown, "1".repeat(22))
        .build();
    assert_eq!(SubmitSm::validate_params(&long_src), Err(SubmitSmError::SourceAddressTooLong));
    let long_dst = SubmitSmBuilder::new()
        .destination(TypeOfNumber::Unknown, NumericPlanIndicator::Unknown, "1".repeat(22))
        .build();
    assert_eq!(
        SubmitSm::validate_params(&long_dst),
        Err(SubmitSmError::DestinationAddressTooLong)
    );
    let bad_sched = SubmitSmBuilder::new().schedule_delivery_time("12".to_string()).build();
    assert_eq!(
        SubmitSm::validate_params(&bad_sched),
        Err(SubmitSmError::InvalidScheduleDeliveryTime)
    );
    let bad_valid = SubmitSmBuilder::new().validity_period("12".to_string()).build();
    assert_eq!(
        SubmitSm::validate_params(&bad_valid),
        Err(SubmitSmError::InvalidValidityPeriod)
    );
    assert_eq!(SubmitSm::validate_params(&hello_params()), Ok(()));
    assert_eq!(
        SubmitSm::create_pdu_with_sequence(long_msg, 1),
        Err(SubmitSmError::MessageTooLong)
    );
}

#[test]
fn submit_sm_random_sequence() {
    let pdu = SubmitSm::create_pdu(hello_params()).unwrap();
    let seq = u32::from_be_bytes([pdu[12], pdu[13], pdu[14], pdu[15]]);
    assert!((1..=65535).contains(&seq));
    assert_eq!(pdu, SubmitSm::create_pdu_with_sequence(hello_params(), seq).unwrap());
    let bad = SubmitSmBuilder::new().validity_period("1".to_string()).build();
    assert_eq!(SubmitSm::create_pdu(bad), Err(SubmitSmError::InvalidValidityPeriod));
}

#[test]
fn submit_sm_response_parse() {
    assert_eq!(
        SubmitSm::parse_submit_sm_resp(&[0; 4]).unwrap_err(),
        SubmitSmError::BufferTooShort
    );
    let mut buf = Vec::new();
    buf.extend(be(20));
    buf.extend(be(0x8000_0004));
    buf.extend(be(0));
    buf.extend(be(9));
    buf.extend(b"ab\0x");
    let r = SubmitSm::parse_submit_sm_resp(&buf).unwrap();
    assert_eq!(r.command_status, 0);
    assert_eq!(r.sequence_number, 9);
    assert_eq!(r.status_name, "ESME_ROK");
    assert_eq!(r.message_id.as_deref(), Some("ab"));
    let mut err = Vec::new();
    err.extend(be(16));
    err.extend(be(0x8000_0004));
    err.extend(be(0x45));
    err.extend(be(3));
    let r = SubmitSm::parse_submit_sm_resp(&err).unwrap();
    assert_eq!(r.command_status, 0x45);
    assert_eq!(r.status_name, "ESME_RSUBMITFAIL");
    assert_eq!(r.message_id, None);
}

#[test]
fn submit_sm_error_texts_and_kinds() {
    let long = SubmitSmBuilder::new().message("a".repeat(256)).build();
    let e = SubmitSm::validate_params(&long).unwrap_err();
    assert_eq!(e.kind(), ErrorKind::InvalidInput);
    assert_eq!(e.message(), "Message length exceeds 255 bytes limit for short message");
    let ok = SubmitSmBuilder::new().message("a".repeat(255)).build();
    assert_eq!(SubmitSm::validate_params(&ok), Ok(()));
    assert_eq!(
        SubmitSmError::SourceAddressTooLong.message(),
        "Source address exceeds 21 character limit"
    );
    assert_eq!(
        SubmitSmError::DestinationAddressTooLong.message(),
        "Destination address exceeds 21 character limit"
    );
    assert_eq!(
        SubmitSmError::InvalidScheduleDeliveryTime.message(),
        "Schedule delivery time must be empty or 16 characters (YYMMDDhhmmsstnn)"
    );
    assert_eq!(
        SubmitSmError::InvalidValidityPeriod.message(),
        "Validity period must be empty or 16 characters (YYMMDDhhmmsstnn)"
    );
    let short = SubmitSm::parse_submit_sm_resp(&[0; 15]).unwrap_err();
    assert_eq!(short.message(), "Buffer too short");
    assert_eq!(short.kind(), ErrorKind::InvalidData);
}

#[test]
fn submit_sm_response_message_id_is_the_text_before_nul() {
    let buf = [0, 0, 0, 20, 0x80, 0, 0, 4, 0, 0, 0, 0, 0, 0, 0, 7, 0x61, 0x62, 0, 0x63];
    let r = SubmitSm::parse_submit_sm_resp(&buf).unwrap();
    assert_eq!(r.command_status, 0);
    assert_eq!(r.sequence_number, 7);
    assert_eq!(r.status_name, "ESME_ROK");
    assert_eq!(r.message_id.as_deref(), Some("ab"));
}

fn same_params(a: &SubmitSmParams, b: &SubmitSmParams) -> bool {
    a.source_ton == b.source_ton
        && a.source_npi == b.source_npi
        && a.source_addr == b.source_addr
        && a.dest_ton == b.dest_ton
        && a.dest_npi == b.dest_npi
        && a.destination_addr == b.destination_addr
        && a.esm_class == b.esm_class
        && a.protocol_id == b.protocol_id
        && a.schedule_delivery_time == b.schedule_delivery_time
        && a.validity_period == b.validity_period
        && a.registered_delivery == b.registered_delivery
        && a.data_coding == b.data_coding
        && a.message == b.message
}

#[test]
fn builder_keeps_the_last_value_of_each_field() {
    let p = SubmitSmBuilder::new()
        .message("first".to_string())
        .protocol_id(1)
        .message("second".to_string())
        .data_coding(3)
        .protocol_id(7)
        .build();
    assert_eq!(p.message, "second");
    assert_eq!(p.protocol_id, 7);
    assert_eq!(p.data_coding, 3);
    assert_eq!(p.esm_class, 0);
    assert_eq!(p.source_addr, "");
    let a = SubmitSmBuilder::new().esm_class(4).registered_delivery(1).build();
    let b = SubmitSmBuilder::new().registered_delivery(1).esm_class(4).build();
    assert!(same_params(&a, &b));
}

