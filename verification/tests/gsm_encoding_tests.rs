use rsmpp::gsm_encoding::{encode_16bit, encode_8bit, gsm_7bit_encode};

#[test]
fn gsm_encodes_basic_characters_by_table_position() {
    assert_eq!(gsm_7bit_encode("Hello").unwrap(), vec![72, 101, 108, 108, 111]);
    assert_eq!(gsm_7bit_encode("@£").unwrap(), vec![0, 1]);
    assert_eq!(gsm_7bit_encode("à").unwrap(), vec![127]);
}

#[test]
fn gsm_encodes_extended_characters_with_escape() {
    assert_eq!(gsm_7bit_encode("€").unwrap(), vec![0x1B, 101]);
    assert_eq!(gsm_7bit_encode("a{").unwrap(), vec![97, 0x1B, 40]);
}

#[test]
fn gsm_empty_text_encodes_to_nothing() {
    assert_eq!(gsm_7bit_encode("").unwrap(), Vec::<u8>::new());
}

#[test]
fn gsm_refuses_first_unsupported_character() {
    assert_eq!(
        gsm_7bit_encode("abжя").unwrap_err(),
        "Character 'ж' not supported in GSM 03.38"
    );
}

#[test]
fn gsm_output_is_septets_between_one_and_two_per_character() {
    let text = "Hi {you} €5";
    let bytes = gsm_7bit_encode(text).unwrap();
    let n = text.chars().count();
    assert!(bytes.len() >= n && bytes.len() <= 2 * n);
    assert!(bytes.iter().all(|b| *b < 128));
}

#[test]
fn latin1_keeps_low_characters_and_replaces_others() {
    assert_eq!(encode_8bit("aé€"), vec![0x61, 0xE9, b'?']);
    assert_eq!(encode_8bit("aé€").len(), 3);
}

#[test]
fn ucs2_writes_big_endian_units_with_surrogate_pairs() {
    assert_eq!(
        encode_16bit("A€😀"),
        vec![0x00, 0x41, 0x20, 0xAC, 0xD8, 0x3D, 0xDE, 0x00]
    );
    assert_eq!(encode_16bit("").len(), 0);
}

#[test]
fn ucs2_output_decodes_back_to_the_text() {
    for text in ["", "Hello", "Ünïcödé €", "😀 ok 𝄞"] {
        let bytes = encode_16bit(text);
        assert_eq!(bytes.len() % 2, 0);
        let units: Vec<u16> = (0..bytes.len() / 2)
            .map(|i| u16::from_be_bytes([bytes[2 * i], bytes[2 * i + 1]]))
            .collect();
        assert_eq!(units.len(), text.encode_utf16().count());
        assert_eq!(String::from_utf16(&units).unwrap(), text);
    }
}
