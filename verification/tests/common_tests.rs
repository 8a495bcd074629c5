use rsmpp::common::get_status_description;
use rsmpp::network::socket_address;
use rsmpp::ui_log::{append_log_line, MAX_LOG_LINES};

#[test]
fn status_descriptions_of_known_codes() {
    assert_eq!(get_status_description(0), "ESME_ROK");
    assert_eq!(get_status_description(0x0D), "ESME_RBINDFAIL");
    assert_eq!(get_status_description(0xFF), "ESME_RUNKNOWNERR");
}

#[test]
fn status_description_of_unknown_code() {
    assert_eq!(get_status_description(0x999), "Unknown Error: 0x00000999");
    assert_eq!(get_status_description(0xDEADBEEF), "Unknown Error: 0xDEADBEEF");
}

#[test]
fn socket_address_joins_host_and_port() {
    assert_eq!(socket_address("127.0.0.1", "2775"), "127.0.0.1:2775");
}

#[test]
fn log_line_is_appended_and_counted() {
    let (text, count) = append_log_line("", 0, "hi");
    assert_eq!(text, "> hi\n");
    assert_eq!(count, 1);
    let (text, count) = append_log_line(&text, count, "there");
    assert_eq!(text, "> hi\n> there\n");
    assert_eq!(count, 2);
}

#[test]
fn full_log_drops_its_oldest_line() {
    let (text, count) = append_log_line("> a\n> b\n", MAX_LOG_LINES, "c");
    assert_eq!(text, "> b\n> c\n");
    assert_eq!(count, MAX_LOG_LINES);
}

#[test]
fn log_stays_bounded_over_many_lines() {
    let mut text = String::new();
    let mut count = 0u32;
    for i in 0..(MAX_LOG_LINES + 20) {
        let (t, c) = append_log_line(&text, count, &format!("line {}", i));
        text = t;
        count = c;
        assert!(count <= MAX_LOG_LINES);
    }
    assert_eq!(text.lines().count() as u32, MAX_LOG_LINES);
    assert!(text.starts_with("> line 20\n"));
}

#[test]
fn distinct_status_codes_have_distinct_descriptions() {
    let codes: Vec<u32> = (0u32..0x110).chain([0x8000_0002, 0xFFFF_FFFF]).collect();
    let descriptions: Vec<String> = codes.iter().map(|c| get_status_description(*c)).collect();
    for i in 0..codes.len() {
        for j in (i + 1)..codes.len() {
            assert_ne!(descriptions[i], descriptions[j]);
        }
    }
    assert_eq!(get_status_description(0x8000_0002), "Unknown Error: 0x80000002");
}
