use rsmpp::bind::{Bind, BindBuilder, BindError, BindMode};
use rsmpp::bind_transmitter::{BindTransmitter, BindTransmitterBuilder, BindTransmitterError};
use rsmpp::wire::{ErrorKind, ShortBuffer};

fn be(v: u32) -> Vec<u8> {
    v.to_be_bytes().to_vec()
}

#[test]
fn bind_mode_command_ids() {
    assert_eq!(BindMode::Receiver.command_id(), 0x0000_0001);
    assert_eq!(BindMode::Transmitter.command_id(), 0x0000_0002);
    assert_eq!(BindMode::Transceiver.command_id(), 0x0000_0009);
}

#[test]
fn bind_builder_starts_without_system_type() {
    let b = BindBuilder::new(BindMode::Receiver, "sys".to_string(), "pwd".to_string());
    assert_eq!(b.system_id, "sys");
    assert_eq!(b.password, "pwd");
    assert_eq!(b.system_type, "");
    assert_eq!(b.mode, BindMode::Receiver);
}

#[test]
fn bind_request_bytes() {
    let b = BindBuilder::new(BindMode::Transceiver, "sys".to_string(), "pwd".to_string());
    let pdu = Bind::bind_with_sequence(&b, 7).unwrap();
    let mut expected = Vec::new();
    expected.extend(be(29));
    expected.extend(be(9));
    expected.extend(be(0));
    expected.extend(be(7));
    expected.extend(b"sys\0pwd\0\0");
    expected.extend([0x34, 0x00, 0x01, 0x00]);
    assert_eq!(pdu, expected);
    // The command length field is the PDU's own length.
    assert_eq!(u32::from_be_bytes([pdu[0], pdu[1], pdu[2], pdu[3]]) as usize, pdu.len());
}

#[test]
fn bind_refuses_long_system_id_then_long_password() {
    let b = BindBuilder::new(BindMode::Receiver, "a".repeat(17), "b".repeat(10));
    assert_eq!(Bind::bind_with_sequence(&b, 1), Err(BindError::SystemIdTooLong(17)));
    let b = BindBuilder::new(BindMode::Receiver, "a".repeat(16), "b".repeat(10));
    assert_eq!(Bind::bind_with_sequence(&b, 1), Err(BindError::PasswordTooLong(10)));
    let b = BindBuilder::new(BindMode::Receiver, "a".repeat(16), "b".repeat(9));
    assert!(Bind::bind_with_sequence(&b, 1).is_ok());
}

#[test]
fn bind_async_uses_a_random_sequence_number() {
    let b = BindBuilder::new(BindMode::Transmitter, "sys".to_string(), "pwd".to_string());
    let pdu = Bind::bind_async(b.clone()).unwrap();
    let seq = u32::from_be_bytes([pdu[12], pdu[13], pdu[14], pdu[15]]);
    assert!(seq >= 1 && seq <= 4_294_967_294);
    assert_eq!(pdu, Bind::bind_with_sequence(&b, seq).unwrap());
    let long = BindBuilder::new(BindMode::Transmitter, "x".repeat(20), "p".to_string());
    assert_eq!(Bind::bind_async(long), Err(BindError::SystemIdTooLong(20)));
}

#[test]
fn bind_response_parse_reads_the_command_status() {
    assert_eq!(
        Bind::parse_bind_resp(&[0, 1, 2]).unwrap_err(),
        ShortBuffer { expected: 16, actual: 3 }
    );
    let buf = [0, 0, 0, 16, 0x80, 0, 0, 2, 0, 0, 0, 0x0E, 0, 0, 0, 1];
    let r = Bind::parse_bind_resp(&buf).unwrap();
    assert_eq!(r.command_status, 0x0E);
    assert_eq!(r.status_name, "ESME_RINVPASWD");
}

#[test]
fn bind_transmitter_request_bytes() {
    let b = BindTransmitterBuilder::new("sys".to_string(), "pwd".to_string())
        .with_system_type("VMS".to_string());
    assert_eq!(b.system_type, "VMS");
    let pdu = BindTransmitter::bind_transmitter_with_sequence(&b, 0x0A0B_0C0D).unwrap();
    let mut expected = Vec::new();
    expected.extend(be(32));
    expected.extend(be(2));
    expected.extend(be(0));
    expected.extend(be(0x0A0B_0C0D));
    expected.extend(b"sys\0pwd\0VMS\0");
    expected.extend([0x34, 0, 1, 0]);
    assert_eq!(pdu, expected);
}

#[test]
fn bind_transmitter_default_is_empty() {
    let b = BindTransmitterBuilder::default();
    assert_eq!(b.system_id, "");
    assert_eq!(b.password, "");
    assert_eq!(b.system_type, "");
}

#[test]
fn bind_transmitter_errors() {
    let b = BindTransmitterBuilder::new("a".repeat(17), "p".to_string());
    assert_eq!(
        BindTransmitter::bind_transmitter_with_sequence(&b, 1),
        Err(BindTransmitterError::SystemIdTooLong(17))
    );
    let b = BindTransmitterBuilder::new("a".to_string(), "p".repeat(12));
    assert_eq!(
        BindTransmitter::bind_transmitter_async(b),
        Err(BindTransmitterError::PasswordTooLong(12))
    );
}

#[test]
fn bind_transmitter_response_parse() {
    assert_eq!(
        BindTransmitter::parse_bind_transmitter_resp(&[0; 10]).unwrap_err(),
        ShortBuffer { expected: 16, actual: 10 }
    );
    let buf = [0, 0, 0, 16, 0x80, 0, 0, 2, 0, 0, 0, 0, 0, 0, 0, 1];
    let r = BindTransmitter::parse_bind_transmitter_resp(&buf).unwrap();
    assert_eq!(r.command_status, 0);
    assert_eq!(r.status_name, "ESME_ROK");
}

#[test]
fn bind_error_texts() {
    assert_eq!(BindError::SystemIdTooLong(17).message(), "System ID is too long (max 16 bytes): 17");
    assert_eq!(BindError::PasswordTooLong(10).message(), "Password is too long (max 9 bytes): 10");
    assert_eq!(
        BindTransmitterError::SystemIdTooLong(20).message(),
        "System ID is too long (max 16 bytes): 20"
    );
    assert_eq!(
        BindTransmitterError::PasswordTooLong(12).message(),
        "Password is too long (max 9 bytes): 12"
    );
    let short = Bind::parse_bind_resp(&[0; 5]).unwrap_err();
    assert_eq!(short.message(), "PDU buffer too short, minimum 16 bytes required for header");
    assert_eq!(short.kind(), ErrorKind::InvalidData);
}
