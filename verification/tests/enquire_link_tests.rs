use rsmpp::enquire_link::EnquireLink;

#[test]
fn enquire_link_is_a_bare_header() {
    assert_eq!(
        EnquireLink::create_pdu_with_sequence(0x0102_0304),
        vec![0, 0, 0, 16, 0, 0, 0, 0x15, 0, 0, 0, 0, 1, 2, 3, 4]
    );
}

#[test]
fn enquire_link_random_sequence_is_in_range() {
    let pdu = EnquireLink::create_pdu();
    assert_eq!(pdu.len(), 16);
    assert_eq!(&pdu[0..12], &[0, 0, 0, 16, 0, 0, 0, 0x15, 0, 0, 0, 0]);
    let seq = u32::from_be_bytes([pdu[12], pdu[13], pdu[14], pdu[15]]);
    assert!((1..=65535).contains(&seq));
}
