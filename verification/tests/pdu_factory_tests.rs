use rsmpp::pdu_factory::{parse_u8_or, split_destinations, PduFactory};
use smpp_codec::common::CMD_SUBMIT_MULTI_SM;

#[test]
fn test_bind_request_creation() {
    let pdu = PduFactory::create_bind_request(1, "Transmitter", "sys", "pwd");
    assert!(!pdu.is_empty());
    // Simple length check or more complex decode if needed
    assert!(pdu.len() > 16);
}

#[test]
fn test_submit_sm_creation() {
    let pdus = PduFactory::create_submit_pdus(
        1,
        "src",
        "0",
        "0",
        "dest",
        "0",
        "0",
        "Hello",
        "GSM 7-bit",
        "UDH",
        "",
        "",
        "",
        false,
    )
    .expect("Failed to create submit pdus");

    assert_eq!(pdus.len(), 1);
    assert!(pdus[0].len() > 16);
}

#[test]
fn test_submit_multi_creation() {
    let pdus = PduFactory::create_submit_pdus(
        1,
        "src",
        "0",
        "0",
        "dest1,dest2",
        "0",
        "0",
        "Multi",
        "GSM 7-bit",
        "UDH",
        "",
        "",
        "",
        false,
    )
    .expect("Failed to create submit multi pdus");

    assert_eq!(pdus.len(), 1);
    // Decode to verify it's a SubmitMulti
    let cmd_id = u32::from_be_bytes([pdus[0][4], pdus[0][5], pdus[0][6], pdus[0][7]]);
    assert_eq!(cmd_id, CMD_SUBMIT_MULTI_SM);
}

fn header_word(pdu: &[u8], at: usize) -> u32 {
    u32::from_be_bytes([pdu[at], pdu[at + 1], pdu[at + 2], pdu[at + 3]])
}

#[test]
fn bind_request_modes_and_fallback() {
    let rx = PduFactory::create_bind_request(5, "Receiver", "u", "p");
    assert_eq!(header_word(&rx, 4), 0x0000_0001);
    assert_eq!(header_word(&rx, 12), 5);
    assert_eq!(header_word(&rx, 0) as usize, rx.len());
    let tx = PduFactory::create_bind_request(5, "Transmitter", "u", "p");
    assert_eq!(header_word(&tx, 4), 0x0000_0002);
    let other = PduFactory::create_bind_request(5, "whatever", "u", "p");
    assert_eq!(header_word(&other, 4), 0x0000_0009);
}

#[test]
fn unbind_request_is_a_bare_header() {
    assert_eq!(
        PduFactory::create_unbind_request(3),
        vec![0, 0, 0, 16, 0, 0, 0, 6, 0, 0, 0, 0, 0, 0, 0, 3]
    );
}

#[test]
fn query_sm_request_reads_ton_and_npi_as_numbers() {
    let pdu = PduFactory::create_query_sm_request(9, "m", "s", "1", "x");
    assert_eq!(header_word(&pdu, 4), 0x0000_0003);
    assert_eq!(header_word(&pdu, 12), 9);
    // message id "m\0", then source TON 1 and NPI 0 (not a number), then "s\0"
    assert_eq!(&pdu[16..22], &[b'm', 0, 1, 0, b's', 0]);
}

#[test]
fn cancel_sm_request_uses_the_smpp_service_type() {
    let pdu = PduFactory::create_cancel_sm_request(4, "id", "src", "1", "1", "dst", "2", "8");
    assert_eq!(header_word(&pdu, 4), 0x0000_0008);
    assert_eq!(header_word(&pdu, 12), 4);
    assert_eq!(&pdu[16..21], b"SMPP\0");
}

#[test]
fn replace_sm_request_header() {
    let pdu = PduFactory::create_replace_sm_request(11, "id", "src", "0", "0", "new text");
    assert_eq!(header_word(&pdu, 4), 0x0000_0007);
    assert_eq!(header_word(&pdu, 12), 11);
    assert_eq!(header_word(&pdu, 0) as usize, pdu.len());
}

#[test]
fn unsupported_gsm_character_is_a_split_error() {
    let res = PduFactory::create_submit_pdus(
        1, "src", "0", "0", "dest", "0", "0", "Привет", "GSM 7-bit", "UDH", "", "", "", false,
    );
    assert_eq!(
        res.unwrap_err(),
        "Split error: Character 'П' not supported in GSM 03.38"
    );
}

#[test]
fn unknown_encoding_name_is_gsm() {
    let res = PduFactory::create_submit_pdus(
        1, "src", "0", "0", "dest", "0", "0", "€", "Klingon", "UDH", "", "", "", false,
    );
    assert!(res.is_ok());
    let res = PduFactory::create_submit_pdus(
        1, "src", "0", "0", "dest", "0", "0", "ж", "Klingon", "UDH", "", "", "", false,
    );
    assert!(res.is_err());
}

#[test]
fn too_long_source_is_an_encode_error() {
    let source = "1".repeat(22);
    let res = PduFactory::create_submit_pdus(
        1, &source, "0", "0", "dest", "0", "0", "Hi", "GSM 7-bit", "UDH", "", "", "", false,
    );
    assert_eq!(res.unwrap_err(), "Encode error: StringTooLong(\"source_addr\", 21)");
}

#[test]
fn long_sar_message_is_numbered_upward_with_wrapping() {
    let message = "a".repeat(300);
    let pdus = PduFactory::create_submit_pdus(
        u32::MAX, "src", "1", "1", "dest", "1", "1", &message, "GSM 7-bit", "SAR", "", "", "", true,
    )
    .unwrap();
    assert_eq!(pdus.len(), 2);
    assert_eq!(header_word(&pdus[0], 12), u32::MAX);
    assert_eq!(header_word(&pdus[1], 12), 0);
    for pdu in &pdus {
        assert_eq!(header_word(pdu, 4), 0x0000_0004);
        assert_eq!(header_word(pdu, 0) as usize, pdu.len());
    }
}

#[test]
fn long_udh_message_is_split_into_segments() {
    let message = "b".repeat(200);
    let pdus = PduFactory::create_submit_pdus(
        10, "src", "0", "0", "dest", "0", "0", &message, "GSM 7-bit", "UDH", "", "", "", false,
    )
    .unwrap();
    assert_eq!(pdus.len(), 2);
    assert_eq!(header_word(&pdus[0], 12), 10);
    assert_eq!(header_word(&pdus[1], 12), 11);
}

#[test]
fn payload_mode_sends_one_pdu() {
    let message = "c".repeat(1000);
    let pdus = PduFactory::create_submit_pdus(
        1, "src", "0", "0", "dest", "0", "0", &message, "Latin-1", "Payload", "", "", "", false,
    )
    .unwrap();
    assert_eq!(pdus.len(), 1);
    assert!(pdus[0].len() > 1000);
}

#[test]
fn build_submit_pdus_numbers_each_segment() {
    let parts = vec![b"one".to_vec(), b"two".to_vec(), b"six".to_vec()];
    let pdus = PduFactory::build_submit_pdus(
        100, "src", "0", "0", "a, b", "0", "0", "SAR", "", "", "", false, parts, 0, 7,
    )
    .unwrap();
    assert_eq!(pdus.len(), 3);
    for (i, pdu) in pdus.iter().enumerate() {
        assert_eq!(header_word(pdu, 4), 0x0000_0021);
        assert_eq!(header_word(pdu, 12), 100 + i as u32);
    }
}

#[test]
fn numeric_fields_fall_back_when_not_a_byte() {
    assert_eq!(parse_u8_or("12", 0), 12);
    assert_eq!(parse_u8_or("+7", 0), 7);
    assert_eq!(parse_u8_or("255", 0), 255);
    assert_eq!(parse_u8_or("256", 3), 3);
    assert_eq!(parse_u8_or("", 5), 5);
    assert_eq!(parse_u8_or(" 1", 9), 9);
    assert_eq!(parse_u8_or("-1", 9), 9);
}

#[test]
fn destinations_are_trimmed_and_empty_ones_dropped() {
    assert_eq!(split_destinations(" a , ,b ,"), vec!["a".to_string(), "b".to_string()]);
    assert_eq!(split_destinations("single"), vec!["single".to_string()]);
    assert!(split_destinations(" , ").is_empty());
}

#[test]
fn delivery_receipt_request_sets_registered_delivery() {
    let with = PduFactory::create_submit_pdus(
        1, "src", "0", "0", "dest", "0", "0", "Hi", "GSM 7-bit", "UDH", "", "", "", true,
    )
    .unwrap();
    let without = PduFactory::create_submit_pdus(
        1, "src", "0", "0", "dest", "0", "0", "Hi", "GSM 7-bit", "UDH", "", "", "", false,
    )
    .unwrap();
    // service type, source and destination addresses, three flags, two empty
    // times, then registered_delivery at offset 35.
    assert_eq!(with[0][35], 1);
    assert_eq!(without[0][35], 0);
    assert_eq!(with[0][37], 0x00); // data coding of GSM 7-bit
}

#[test]
fn numeric_fields_override_data_coding_and_protocol_id() {
    let pdus = PduFactory::create_submit_pdus(
        1, "src", "5", "9", "dest", "1", "1", "Hi", "UCS-2", "UDH", "7", "240", "", false,
    )
    .unwrap();
    let p = &pdus[0];
    assert_eq!(&p[17..19], &[5, 9]);
    assert_eq!(p[31], 7);
    assert_eq!(p[37], 240);
}

fn with_header(id: u32, seq: u32, body: &[u8]) -> Vec<u8> {
    let mut p = Vec::new();
    p.extend(((16 + body.len()) as u32).to_be_bytes());
    p.extend(id.to_be_bytes());
    p.extend(0u32.to_be_bytes());
    p.extend(seq.to_be_bytes());
    p.extend(body);
    p
}

#[test]
fn bind_request_exact_bytes() {
    assert_eq!(
        PduFactory::create_bind_request(5, "Receiver", "u", "p"),
        with_header(1, 5, b"u\0p\0\0\x34\0\0\0")
    );
}

#[test]
fn query_sm_exact_bytes_and_unknown_codes() {
    assert_eq!(
        PduFactory::create_query_sm_request(9, "m", "s", "1", "x"),
        with_header(3, 9, b"m\0\x01\0s\0")
    );
    // TON 7 and NPI 2 name nothing and are sent as unknown (0).
    assert_eq!(
        PduFactory::create_query_sm_request(9, "m", "s", "7", "2"),
        with_header(3, 9, b"m\0\0\0s\0")
    );
}

#[test]
fn cancel_sm_exact_bytes() {
    assert_eq!(
        PduFactory::create_cancel_sm_request(4, "id", "src", "1", "1", "dst", "2", "8"),
        with_header(8, 4, b"SMPP\0id\0\x01\x01src\0\x02\x08dst\0")
    );
}

#[test]
fn replace_sm_exact_bytes() {
    assert_eq!(
        PduFactory::create_replace_sm_request(11, "id", "src", "0", "0", "new text"),
        with_header(7, 11, b"id\0\0\0src\0\0\0\0\0\x08new text")
    );
}

#[test]
fn submit_sm_exact_bytes() {
    let pdus = PduFactory::create_submit_pdus(
        1, "src", "0", "0", "dest", "0", "0", "Hi", "GSM 7-bit", "UDH", "", "", "", false,
    )
    .unwrap();
    assert_eq!(
        pdus,
        vec![with_header(4, 1, b"\0\0\0src\0\0\0dest\0\0\0\0\0\0\0\0\0\0\x02Hi")]
    );
}

#[test]
fn submit_multi_exact_bytes() {
    let pdus = PduFactory::create_submit_pdus(
        1, "src", "0", "0", "a,b", "0", "0", "Hi", "GSM 7-bit", "UDH", "", "", "", false,
    )
    .unwrap();
    assert_eq!(
        pdus,
        vec![with_header(0x21, 1, b"\0\0\0src\0\x02\x01\0\0a\0\x01\0\0b\0\0\0\0\0\0\0\0\0\0\x02Hi")]
    );
}

#[test]
fn sar_segments_carry_reference_total_and_number() {
    let parts = vec![b"xy".to_vec(), b"z".to_vec()];
    let pdus = PduFactory::build_submit_pdus(
        1, "s", "0", "0", "d", "0", "0", "SAR", "", "", "", false, parts, 0, 0x1234,
    )
    .unwrap();
    let tlvs: &[u8] = &[0x02, 0x0C, 0, 2, 0x12, 0x34, 0x02, 0x0E, 0, 1, 2, 0x02, 0x0F, 0, 1, 1];
    assert!(pdus[0].ends_with(tlvs));
    let second: &[u8] = &[0x02, 0x0C, 0, 2, 0x12, 0x34, 0x02, 0x0E, 0, 1, 2, 0x02, 0x0F, 0, 1, 2];
    assert!(pdus[1].ends_with(second));
    assert!(pdus[1].ends_with(&[&[1u8, b'z'][..], second].concat()));
}

#[test]
fn message_that_fits_one_segment_is_sent_as_is() {
    let message = "a".repeat(254);
    let pdus = PduFactory::create_submit_pdus(
        3, "s", "0", "0", "d", "0", "0", &message, "GSM 7-bit", "SAR", "", "", "", false,
    )
    .unwrap();
    assert_eq!(pdus.len(), 1);
    // No SAR parameters: the PDU ends with the message itself.
    assert!(pdus[0].ends_with(message.as_bytes()));
    assert_eq!(pdus[0][pdus[0].len() - 255], 254);
    let longer = "a".repeat(255);
    let pdus = PduFactory::create_submit_pdus(
        3, "s", "0", "0", "d", "0", "0", &longer, "GSM 7-bit", "SAR", "", "", "", false,
    )
    .unwrap();
    assert_eq!(pdus.len(), 2);
}

#[test]
fn ucs2_message_of_seventy_characters_fits_one_udh_segment() {
    let message = "ж".repeat(70);
    let pdus = PduFactory::create_submit_pdus(
        1, "s", "0", "0", "d", "0", "0", &message, "UCS-2", "UDH", "", "", "", false,
    )
    .unwrap();
    assert_eq!(pdus.len(), 1);
    let message = "ж".repeat(71);
    let pdus = PduFactory::create_submit_pdus(
        1, "s", "0", "0", "d", "0", "0", &message, "UCS-2", "UDH", "", "", "", false,
    )
    .unwrap();
    assert_eq!(pdus.len(), 2);
}

fn udh_at(pdu: &[u8]) -> usize {
    pdu.windows(3).position(|w| w == [5, 0, 3]).unwrap()
}

#[test]
fn udh_segments_carry_headers_and_the_text_in_order() {
    let message: String = (0..200).map(|i| (b'a' + (i % 26) as u8) as char).collect();
    let pdus = PduFactory::create_submit_pdus(
        1, "src", "0", "0", "dest", "0", "0", &message, "GSM 7-bit", "UDH", "", "", "", false,
    )
    .unwrap();
    assert_eq!(pdus.len(), 2);
    let a = udh_at(&pdus[0]);
    let b = udh_at(&pdus[1]);
    assert_eq!(pdus[0][a + 3], pdus[1][b + 3]);
    assert_eq!(&pdus[0][a + 4..a + 6], &[2, 1]);
    assert_eq!(&pdus[1][b + 4..b + 6], &[2, 2]);
    let mut text = Vec::new();
    text.extend_from_slice(&pdus[0][a + 6..a + 6 + 153]);
    text.extend_from_slice(&pdus[1][b + 6..b + 6 + 47]);
    assert_eq!(text, message.as_bytes());
}

#[test]
fn udh_split_keeps_an_escape_with_its_character() {
    let message = format!("{}€{}", "a".repeat(152), "a".repeat(60));
    let pdus = PduFactory::create_submit_pdus(
        1, "src", "0", "0", "dest", "0", "0", &message, "GSM 7-bit", "UDH", "", "", "", false,
    )
    .unwrap();
    assert_eq!(pdus.len(), 2);
    let a = udh_at(&pdus[0]);
    let b = udh_at(&pdus[1]);
    assert_eq!(&pdus[0][a + 6..a + 6 + 152], "a".repeat(152).as_bytes());
    assert_eq!(&pdus[1][b + 6..b + 8], &[0x1B, 0x65]);
}
