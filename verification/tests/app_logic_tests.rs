use rsmpp::app_logic::{
    bind_resp_log, command_actions_for, deliver_sm_actions, heartbeat_pdu, on_body_error,
    on_command, on_connect_failed, on_connected, on_header_error, on_heartbeat_error,
    on_length_header, on_pdu, on_write_error, query_resp_log, report_submit_outcome,
    status_resp_log, submit_multi_resp_log, submit_resp_log, Action, Cmd, UiEvent, WriterCmd,
};

/// A plain description of an action, for comparisons.
#[derive(Debug, PartialEq)]
enum Seen {
    Log(String),
    Status(String, bool),
    Write(Vec<u8>),
    Close,
}

fn seen(actions: &[Action]) -> Vec<Seen> {
    actions
        .iter()
        .map(|a| match a {
            Action::Ui(UiEvent::Log(s)) => Seen::Log(s.clone()),
            Action::Ui(UiEvent::ConnectionStatus(s, b)) => Seen::Status(s.clone(), *b),
            Action::Writer(WriterCmd::Write(p)) => Seen::Write(p.clone()),
            Action::Writer(WriterCmd::Close) => Seen::Close,
        })
        .collect()
}

fn log(s: &str) -> Seen {
    Seen::Log(s.to_string())
}

fn disconnected() -> Seen {
    Seen::Status("Disconnected".to_string(), false)
}

fn pdu(id: u32, status: u32, seq: u32, body: &[u8]) -> Vec<u8> {
    let mut p = Vec::new();
    p.extend(((16 + body.len()) as u32).to_be_bytes());
    p.extend(id.to_be_bytes());
    p.extend(status.to_be_bytes());
    p.extend(seq.to_be_bytes());
    p.extend(body);
    p
}

fn word(p: &[u8], at: usize) -> u32 {
    u32::from_be_bytes([p[at], p[at + 1], p[at + 2], p[at + 3]])
}

#[test]
fn length_header_accepts_four_to_sixty_four_kib() {
    assert_eq!(on_length_header(&16u32.to_be_bytes()).ok(), Some(16));
    assert_eq!(on_length_header(&4u32.to_be_bytes()).ok(), Some(4));
    assert_eq!(on_length_header(&65536u32.to_be_bytes()).ok(), Some(65536));
}

#[test]
fn test_invalid_pdu_length_disconnects() {
    let step = on_length_header(&0xFFFF_FFFFu32.to_be_bytes()).err().unwrap();
    assert!(step.stop);
    assert_eq!(
        seen(&step.actions),
        vec![log("Invalid PDU length: 4294967295"), disconnected(), Seen::Close]
    );
    let step = on_length_header(&3u32.to_be_bytes()).err().unwrap();
    assert_eq!(seen(&step.actions)[0], log("Invalid PDU length: 3"));
    assert!(on_length_header(&65537u32.to_be_bytes()).is_err());
}

#[test]
fn test_truncated_pdu_body_disconnects() {
    // A header announcing 32 bytes is accepted, then the body cannot be read.
    assert_eq!(on_length_header(&32u32.to_be_bytes()).ok(), Some(32));
    let step = on_body_error("early eof");
    assert!(step.stop);
    assert_eq!(
        seen(&step.actions),
        vec![log("Read Error Body: early eof"), disconnected(), Seen::Close]
    );
}

#[test]
fn closed_connection_disconnects() {
    let step = on_header_error();
    assert!(step.stop);
    assert_eq!(
        seen(&step.actions),
        vec![log("Connection closed by peer"), disconnected(), Seen::Close]
    );
}

#[test]
fn test_unknown_command_id_logs_and_continues() {
    let buffer = pdu(0xDEAD_BEEF, 0, 0, &[]);
    let step = on_pdu(&buffer, 16);
    assert!(!step.stop);
    assert_eq!(seen(&step.actions), vec![log("Recv PDU: CmdID 0xDEADBEEF")]);
}

#[test]
fn enquire_link_is_answered_with_its_sequence_number() {
    let buffer = pdu(0x0000_0015, 0, 0x0102_0304, &[]);
    let step = on_pdu(&buffer, 16);
    assert!(!step.stop);
    assert_eq!(
        seen(&step.actions),
        vec![Seen::Write(vec![0, 0, 0, 16, 0x80, 0, 0, 0x15, 0, 0, 0, 0, 1, 2, 3, 4])]
    );
}

#[test]
fn enquire_link_response_is_ignored() {
    let buffer = pdu(0x8000_0015, 0, 3, &[]);
    let step = on_pdu(&buffer, 16);
    assert!(!step.stop);
    assert!(step.actions.is_empty());
}

#[test]
fn unbind_response_ends_the_session() {
    let buffer = pdu(0x8000_0006, 0, 3, &[]);
    let step = on_pdu(&buffer, 16);
    assert!(step.stop);
    assert_eq!(
        seen(&step.actions),
        vec![log("Unbind Response Received"), disconnected(), Seen::Close]
    );
}

#[test]
fn bind_responses_are_logged_with_their_status() {
    let ok = pdu(0x8000_0009, 0, 1, b"SMSC\0");
    assert_eq!(seen(&on_pdu(&ok, ok.len()).actions), vec![log("Bind Resp: ESME_ROK (0)")]);
    let refused = pdu(0x8000_0002, 0x0D, 1, &[]);
    assert_eq!(
        seen(&on_pdu(&refused, 16).actions),
        vec![log("Bind Resp: ESME_RBINDFAIL (13)")]
    );
}

#[test]
fn responses_shorter_than_a_header_are_parse_errors() {
    let buffer = pdu(0x8000_0001, 0, 1, &[]);
    assert_eq!(
        seen(&on_pdu(&buffer, 8).actions),
        vec![log("Parse Error: BufferTooShort")]
    );
}

#[test]
fn submit_responses_are_logged_with_the_message_id() {
    let ok = pdu(0x8000_0004, 0, 2, b"abc\0");
    assert_eq!(
        seen(&on_pdu(&ok, ok.len()).actions),
        vec![log("Submit Resp: ESME_ROK (Msg ID: abc)")]
    );
    let bare = pdu(0x8000_0004, 0x45, 2, &[]);
    assert_eq!(
        seen(&on_pdu(&bare, 16).actions),
        vec![log("Submit Resp: ESME_RSUBMITFAIL (Msg ID: )")]
    );
}

#[test]
fn submit_multi_responses_count_failed_destinations() {
    let mut body = b"MID\0".to_vec();
    body.push(1);
    body.extend([1, 1]);
    body.extend(b"447\0");
    body.extend(0x0Bu32.to_be_bytes());
    let ok = pdu(0x8000_0021, 0, 2, &body);
    assert_eq!(
        seen(&on_pdu(&ok, ok.len()).actions),
        vec![log("SubmitMulti Resp: ESME_ROK (Msg ID: MID) Failed: 1")]
    );
    let failed = pdu(0x8000_0021, 0x45, 2, &[]);
    assert_eq!(
        seen(&on_pdu(&failed, 16).actions),
        vec![log("SubmitMulti Resp: ESME_RSUBMITFAIL (Msg ID: )")]
    );
}

#[test]
fn query_responses_show_state_and_error() {
    let mut body = b"id\0\0".to_vec();
    body.extend([2, 0]);
    let ok = pdu(0x8000_0003, 0, 2, &body);
    assert_eq!(
        seen(&on_pdu(&ok, ok.len()).actions),
        vec![log("Query Resp: ESME_ROK (State: 2, Err: 0)")]
    );
    let failed = pdu(0x8000_0003, 0x67, 2, &[]);
    assert_eq!(
        seen(&on_pdu(&failed, 16).actions),
        vec![log("Query Resp: ESME_RQUERYFAIL (State: 0, Err: 0)")]
    );
}

#[test]
fn cancel_and_replace_responses_show_their_status() {
    let cancel = pdu(0x8000_0008, 0, 2, &[]);
    assert_eq!(seen(&on_pdu(&cancel, 16).actions), vec![log("Cancel Resp: ESME_ROK")]);
    let replace = pdu(0x8000_0007, 0x13, 2, &[]);
    assert_eq!(
        seen(&on_pdu(&replace, 16).actions),
        vec![log("Replace Resp: ESME_RREPLACEFAIL")]
    );
}

fn codec_deliver_sm(seq: u32, src: &str, dst: &str, msg: &[u8]) -> Vec<u8> {
    let mut body = vec![0u8, 1, 1];
    body.extend(src.as_bytes());
    body.push(0);
    body.extend([1, 1]);
    body.extend(dst.as_bytes());
    body.push(0);
    body.extend([0, 0, 0, 0, 0, 0, 0, 0, 0]);
    body.push(msg.len() as u8);
    body.extend(msg);
    pdu(0x0000_0005, 0, seq, &body)
}

#[test]
fn delivered_message_is_logged_and_acknowledged() {
    let buffer = codec_deliver_sm(0x0A0B_0C0D, "111", "222", b"Hi");
    let step = on_pdu(&buffer, buffer.len());
    assert!(!step.stop);
    assert_eq!(
        seen(&step.actions),
        vec![
            log("DeliverSM From: 111 To: 222 Msg: \"Hi\""),
            Seen::Write(vec![0, 0, 0, 17, 0x80, 0, 0, 5, 0, 0, 0, 0, 0x0A, 0x0B, 0x0C, 0x0D, 0]),
        ]
    );
}

#[test]
fn delivered_invalid_utf8_is_shown_lossily() {
    let buffer = codec_deliver_sm(1, "1", "2", &[0x48, 0xFF, 0x69]);
    let step = on_pdu(&buffer, buffer.len());
    assert_eq!(seen(&step.actions)[0], log("DeliverSM From: 1 To: 2 Msg: \"H\u{FFFD}i\""));
}

#[test]
fn undecodable_delivery_is_logged_without_answer() {
    let buffer = pdu(0x0000_0005, 0, 1, &[]);
    let step = on_pdu(&buffer, 16);
    assert_eq!(step.actions.len(), 1);
    match &step.actions[0] {
        Action::Ui(UiEvent::Log(s)) => assert!(s.starts_with("DeliverSM Parse Error: ")),
        other => panic!("unexpected action {:?}", other),
    }
}

#[test]
fn decoded_results_make_log_lines() {
    assert_eq!(bind_resp_log(Ok((5, "ESME_RALYBND".to_string()))), "Bind Resp: ESME_RALYBND (5)");
    assert_eq!(bind_resp_log(Err("X".to_string())), "Parse Error: X");
    assert_eq!(
        submit_resp_log(Ok(("ESME_ROK".to_string(), "9".to_string()))),
        "Submit Resp: ESME_ROK (Msg ID: 9)"
    );
    assert_eq!(
        submit_multi_resp_log(Ok(("ESME_ROK".to_string(), "7".to_string(), 0))),
        "SubmitMulti Resp: ESME_ROK (Msg ID: 7)"
    );
    assert_eq!(
        submit_multi_resp_log(Ok(("ESME_ROK".to_string(), "7".to_string(), 12))),
        "SubmitMulti Resp: ESME_ROK (Msg ID: 7) Failed: 12"
    );
    assert_eq!(
        query_resp_log(Ok(("ESME_ROK".to_string(), 6, 255))),
        "Query Resp: ESME_ROK (State: 6, Err: 255)"
    );
    assert_eq!(status_resp_log("Cancel Resp: ", Ok("ESME_ROK".to_string())), "Cancel Resp: ESME_ROK");
    assert_eq!(status_resp_log("Cancel Resp: ", Err("E".to_string())), "Parse Error: E");
}

#[test]
fn decoded_delivery_is_acknowledged_under_its_sequence() {
    let actions = deliver_sm_actions(Ok((9, "a".to_string(), "b".to_string(), b"m".to_vec())));
    assert_eq!(
        seen(&actions),
        vec![
            log("DeliverSM From: a To: b Msg: \"m\""),
            Seen::Write(vec![0, 0, 0, 17, 0x80, 0, 0, 5, 0, 0, 0, 0, 0, 0, 0, 9, 0]),
        ]
    );
    let actions = deliver_sm_actions(Err("BufferTooShort".to_string()));
    assert_eq!(seen(&actions), vec![log("DeliverSM Parse Error: BufferTooShort")]);
}

#[test]
fn test_connect_flow() {
    let actions = on_connected("127.0.0.1", "2775", false, "Transceiver", "user", "pass");
    let s = seen(&actions);
    assert_eq!(s.len(), 3);
    assert_eq!(s[0], log("Connected to 127.0.0.1:2775 (SSL: false)"));
    assert_eq!(s[1], Seen::Status("Connected".to_string(), true));
    match &s[2] {
        Seen::Write(p) => {
            assert_eq!(word(p, 4), 0x0000_0009);
            let seq = word(p, 12);
            assert!((1..=9999).contains(&seq));
        }
        other => panic!("expected a bind request, got {:?}", other),
    }
    let tls = on_connected("host", "1", true, "Receiver", "u", "p");
    assert_eq!(seen(&tls)[0], log("Connected to host:1 (SSL: true)"));
}

#[test]
fn test_connection_failure_is_reported() {
    assert_eq!(
        seen(&on_connect_failed("simulated connection failure")),
        vec![log("Failed to connect: simulated connection failure"), disconnected()]
    );
}

#[test]
fn writer_failures_are_reported() {
    assert_eq!(
        seen(&on_write_error("broken pipe")),
        vec![log("Write Error: broken pipe"), disconnected()]
    );
    assert_eq!(
        seen(&on_heartbeat_error("reset")),
        vec![log("Heartbeat Error: reset"), disconnected()]
    );
}

#[test]
fn heartbeat_is_an_enquire_link() {
    let p = heartbeat_pdu();
    assert_eq!(p.len(), 16);
    assert_eq!(word(&p, 0), 16);
    assert_eq!(word(&p, 4), 0x0000_0015);
    assert!((1..=9999).contains(&word(&p, 12)));
}

fn send_message(dest: &str, message: &str, encoding: &str) -> Cmd {
    Cmd::SendMessage {
        source: "src".to_string(),
        src_ton: "0".to_string(),
        src_npi: "0".to_string(),
        dest: dest.to_string(),
        dest_ton: "0".to_string(),
        dest_npi: "0".to_string(),
        message: message.to_string(),
        encoding: encoding.to_string(),
        mode: "UDH".to_string(),
        pid: "".to_string(),
        dcs: "".to_string(),
        validity: "".to_string(),
        dlr: false,
    }
}

#[test]
fn nothing_is_sent_without_a_connection() {
    assert_eq!(
        seen(&on_command(&send_message("d", "Hi", "GSM 7-bit"), false)),
        vec![log("Not connected")]
    );
    assert!(on_command(&Cmd::Unbind, false).is_empty());
    let query = Cmd::QuerySm {
        msg_id: "1".to_string(),
        source: "s".to_string(),
        ton: "0".to_string(),
        npi: "0".to_string(),
    };
    assert!(on_command(&query, false).is_empty());
}

#[test]
fn reconnecting_closes_the_current_writer() {
    let connect = Cmd::Connect {
        ip: "127.0.0.1".to_string(),
        port: "2775".to_string(),
        system_id: "u".to_string(),
        password: "p".to_string(),
        bind_mode: "Transceiver".to_string(),
        use_ssl: false,
    };
    assert_eq!(seen(&on_command(&connect, true)), vec![Seen::Close]);
    assert!(on_command(&connect, false).is_empty());
}

#[test]
fn unbind_sends_an_unbind_request() {
    let s = seen(&command_actions_for(&Cmd::Unbind, true, 77));
    assert_eq!(
        s,
        vec![
            log("Sending Unbind..."),
            Seen::Write(vec![0, 0, 0, 16, 0, 0, 0, 6, 0, 0, 0, 0, 0, 0, 0, 77]),
        ]
    );
}

#[test]
fn message_segments_are_sent_and_counted() {
    let s = seen(&command_actions_for(&send_message("dest", "Hello", "GSM 7-bit"), true, 5));
    assert_eq!(s.len(), 2);
    match &s[0] {
        Seen::Write(p) => {
            assert_eq!(word(p, 4), 0x0000_0004);
            assert_eq!(word(p, 12), 5);
        }
        other => panic!("expected a submit_sm, got {:?}", other),
    }
    assert_eq!(s[1], log("Sent Segment 1/1"));
    let m = seen(&command_actions_for(&send_message("a,b", "Hello", "GSM 7-bit"), true, 5));
    assert_eq!(m[1], log("Sent Multi-Seg 1/1"));
}

#[test]
fn message_errors_are_reported() {
    let s = seen(&command_actions_for(&send_message("dest", "ж", "GSM 7-bit"), true, 5));
    assert_eq!(
        s,
        vec![log("Error creating PDUs: Split error: Character 'ж' not supported in GSM 03.38")]
    );
}

#[test]
fn submission_report_sends_each_pdu_then_logs_it() {
    let s = seen(&report_submit_outcome("x", Ok(vec![vec![1], vec![2]])));
    assert_eq!(
        s,
        vec![
            Seen::Write(vec![1]),
            log("Sent Segment 1/2"),
            Seen::Write(vec![2]),
            log("Sent Segment 2/2"),
        ]
    );
    let e = seen(&report_submit_outcome("x", Err("boom".to_string())));
    assert_eq!(e, vec![log("Error creating PDUs: boom")]);
}

#[test]
fn query_cancel_and_replace_are_sent_then_logged() {
    let query = Cmd::QuerySm {
        msg_id: "m".to_string(),
        source: "s".to_string(),
        ton: "1".to_string(),
        npi: "1".to_string(),
    };
    let s = seen(&command_actions_for(&query, true, 42));
    assert_eq!(s[1], log("Sent QuerySm"));
    match &s[0] {
        Seen::Write(p) => {
            assert_eq!(word(p, 4), 0x0000_0003);
            assert_eq!(word(p, 12), 42);
        }
        other => panic!("expected a query_sm, got {:?}", other),
    }
    let cancel = Cmd::CancelSm {
        msg_id: "m".to_string(),
        source: "s".to_string(),
        src_ton: "0".to_string(),
        src_npi: "0".to_string(),
        dest: "d".to_string(),
        dest_ton: "0".to_string(),
        dest_npi: "0".to_string(),
    };
    let s = seen(&command_actions_for(&cancel, true, 43));
    assert_eq!(s[1], log("Sent CancelSm"));
    let replace = Cmd::ReplaceSm {
        msg_id: "m".to_string(),
        source: "s".to_string(),
        src_ton: "0".to_string(),
        src_npi: "0".to_string(),
        message: "new".to_string(),
    };
    let s = seen(&command_actions_for(&replace, true, 44));
    assert_eq!(s[1], log("Sent ReplaceSm"));
    match &s[0] {
        Seen::Write(p) => assert_eq!(word(p, 12), 44),
        other => panic!("expected a replace_sm, got {:?}", other),
    }
}

fn only_log(actions: &[Action]) -> String {
    assert_eq!(actions.len(), 1);
    match &actions[0] {
        Action::Ui(UiEvent::Log(s)) => s.clone(),
        other => panic!("expected one log line, got {:?}", other),
    }
}

#[test]
fn malformed_response_bodies_are_parse_errors() {
    // A bind response announcing a system id that has no terminator.
    let bind = pdu(0x8000_0009, 0, 1, b"SMSC");
    assert!(only_log(&on_pdu(&bind, bind.len()).actions).starts_with("Parse Error: "));
    // A submit response whose message id has no terminator.
    let submit = pdu(0x8000_0004, 0, 1, b"abc");
    assert!(only_log(&on_pdu(&submit, submit.len()).actions).starts_with("Parse Error: "));
    // A query response with a message id but no final date.
    let query = pdu(0x8000_0003, 0, 1, b"id\0");
    assert!(only_log(&on_pdu(&query, query.len()).actions).starts_with("Parse Error: "));
    // A bind response with an error status carries no system id.
    let refused = pdu(0x8000_0009, 0x0E, 1, b"junk");
    assert_eq!(only_log(&on_pdu(&refused, refused.len()).actions), "Bind Resp: ESME_RINVPASWD (14)");
}

#[test]
fn heartbeat_period_is_five_seconds() {
    assert_eq!(rsmpp::app_logic::HEARTBEAT_SECONDS, 5);
}
