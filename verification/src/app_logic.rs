//! The decisions of the client session: what to report and what to send, for
//! each command of the user interface and for each PDU that the SMSC sends. The
//! event loop that performs these actions (sockets, channels, timers) runs
//! outside the library and hands each event to the functions here.
use vstd::prelude::*;
use vstd::string::*;
use crate::common::command_id;
use crate::wire::{u32_at, header, read_u32_at, copy_range, lemma_header_read_back, c_string_at};
use crate::text::{decimal, hex8, push_decimal, push_hex8, utf8_lossy, lossy_string};
use crate::responses::{
    bind_resp_decoding, submit_resp_decoding, submit_multi_resp_decoding, query_resp_decoding,
    deliver_sm_decoding, status_only_decoding, bind_info_view, submit_info_view, multi_info_view,
    query_info_view, deliver_info_view, status_info_view, decode_bind_resp, decode_submit_resp,
    decode_submit_multi_resp, decode_query_resp, decode_cancel_resp, decode_replace_resp,
    decode_deliver_sm,
};
use crate::codec::{
    encode_deliver_sm_response, encode_enquire_link_response, encode_enquire_link_request,
    bind_request_bytes, query_sm_bytes, cancel_sm_bytes, replace_sm_bytes, law_bind_request_fields,
    law_cancel_sm_fields, law_replace_sm_fields, law_query_sm_fields, codec_ton_byte, codec_npi_byte,
};
use crate::pdu_factory::{
    PduFactory, bind_mode_named, u8_or, request_text, submit_outcome_allowed, pdus_view,
};
use crate::text::{str_chars, index_of_char, lemma_char_index_from_bounds};
use crate::chance::random_in_range;
use crate::network::{socket_address, socket_address_text};
use vstd::utf8::encode_utf8;

verus! {

/// What the session reports to the user interface.
#[derive(Debug, Clone)]
pub enum UiEvent {
    Log(String),
    ConnectionStatus(String, bool),
}

/// A command of the user interface.
#[derive(Debug)]
pub enum Cmd {
    Connect {
        ip: String,
        port: String,
        system_id: String,
        password: String,
        bind_mode: String,
        use_ssl: bool,
    },
    Unbind,
    SendMessage {
        source: String,
        src_ton: String,
        src_npi: String,
        dest: String,
        dest_ton: String,
        dest_npi: String,
        message: String,
        encoding: String,
        mode: String,
        pid: String,
        dcs: String,
        validity: String,
        dlr: bool,
    },
    QuerySm { msg_id: String, source: String, ton: String, npi: String },
    CancelSm {
        msg_id: String,
        source: String,
        src_ton: String,
        src_npi: String,
        dest: String,
        dest_ton: String,
        dest_npi: String,
    },
    ReplaceSm { msg_id: String, source: String, src_ton: String, src_npi: String, message: String },
}

/// What the writer of the connection is told.
#[derive(Debug)]
pub enum WriterCmd {
    Write(Vec<u8>),
    Close,
}

/// One thing for the event loop to do: report to the interface, or instruct
/// the writer.
#[derive(Debug)]
pub enum Action {
    Ui(UiEvent),
    Writer(WriterCmd),
}

/// An action, as values.
pub enum ActionView {
    Log(Seq<char>),
    Status(Seq<char>, bool),
    Write(Seq<u8>),
    Close,
}

impl View for Action {
    type V = ActionView;

    open spec fn view(&self) -> ActionView {
        match self {
            Action::Ui(UiEvent::Log(s)) => ActionView::Log(s@),
            Action::Ui(UiEvent::ConnectionStatus(s, b)) => ActionView::Status(s@, *b),
            Action::Writer(WriterCmd::Write(p)) => ActionView::Write(p@),
            Action::Writer(WriterCmd::Close) => ActionView::Close,
        }
    }
}

/// A list of actions, as values.
pub open spec fn actions_view(v: Seq<Action>) -> Seq<ActionView> {
    v.map_values(|a: Action| a@)
}

/// What the reader of the connection does after one event: the actions, and
/// whether it stops reading.
pub struct ReaderStep {
    pub actions: Vec<Action>,
    pub stop: bool,
}

/// The actions that end a session: the reason, the disconnected status, and
/// closing the writer.
pub open spec fn disconnect_actions(reason: Seq<char>) -> Seq<ActionView> {
    seq![ActionView::Log(reason), ActionView::Status("Disconnected"@, false), ActionView::Close]
}

/// A PDU length that the reader accepts: a length field and at most 64 KiB.
pub open spec fn pdu_length_ok(len: u32) -> bool {
    4 <= len <= 65536
}

fn log_action(s: String) -> (a: Action)
    ensures
        a@ == ActionView::Log(s@),
{
    Action::Ui(UiEvent::Log(s))
}

fn disconnect_step(reason: String) -> (step: ReaderStep)
    ensures
        step.stop,
        actions_view(step.actions@) == disconnect_actions(reason@),
{
    let mut actions: Vec<Action> = Vec::new();
    actions.push(log_action(reason));
    actions.push(Action::Ui(UiEvent::ConnectionStatus(String::from_str("Disconnected"), false)));
    actions.push(Action::Writer(WriterCmd::Close));
    assert(actions_view(actions@) =~= disconnect_actions(reason@));
    ReaderStep { actions, stop: true }
}

/// Reads the length field of an incoming PDU. A length outside `4..=65536` ends
/// the session with the reason logged.
pub fn on_length_header(len_bytes: &[u8]) -> (res: Result<usize, ReaderStep>)
    requires
        len_bytes@.len() == 4,
    ensures
        pdu_length_ok(u32_at(len_bytes@, 0)) ==> (res matches Ok(n) && n == u32_at(len_bytes@, 0)),
        !pdu_length_ok(u32_at(len_bytes@, 0)) ==> (res matches Err(step) && step.stop && actions_view(
            step.actions@,
        ) == disconnect_actions("Invalid PDU length: "@ + decimal(u32_at(len_bytes@, 0) as nat))),
{
    let len = read_u32_at(len_bytes, 0);
    if 4 <= len && len <= 65536 {
        Ok(len as usize)
    } else {
        let mut reason = String::from_str("Invalid PDU length: ");
        push_decimal(&mut reason, len as u64);
        Err(disconnect_step(reason))
    }
}

/// The peer closed the connection before a length field arrived.
pub fn on_header_error() -> (step: ReaderStep)
    ensures
        step.stop,
        actions_view(step.actions@) == disconnect_actions("Connection closed by peer"@),
{
    disconnect_step(String::from_str("Connection closed by peer"))
}

/// The body of a PDU could not be read.
pub fn on_body_error(err: &str) -> (step: ReaderStep)
    ensures
        step.stop,
        actions_view(step.actions@) == disconnect_actions("Read Error Body: "@ + err@),
{
    let mut reason = String::from_str("Read Error Body: ");
    reason.append(err);
    disconnect_step(reason)
}

/// The log line for a decoded bind response.
pub open spec fn bind_resp_text(r: Result<(u32, Seq<char>), Seq<char>>) -> Seq<char> {
    match r {
        Ok((status, desc)) => "Bind Resp: "@ + desc + " ("@ + decimal(status as nat) + ")"@,
        Err(e) => "Parse Error: "@ + e,
    }
}

/// The log line for a decoded submit_sm response.
pub open spec fn submit_resp_text(r: Result<(Seq<char>, Seq<char>), Seq<char>>) -> Seq<char> {
    match r {
        Ok((desc, id)) => "Submit Resp: "@ + desc + " (Msg ID: "@ + id + ")"@,
        Err(e) => "Parse Error: "@ + e,
    }
}

/// The log line for a decoded submit_multi response; failed destinations are
/// counted when there are any.
pub open spec fn submit_multi_resp_text(r: Result<(Seq<char>, Seq<char>, usize), Seq<char>>) -> Seq<char> {
    match r {
        Ok((desc, id, failed)) => "SubmitMulti Resp: "@ + desc + " (Msg ID: "@ + id + ")"@ + (if failed > 0 {
            " Failed: "@ + decimal(failed as nat)
        } else {
            Seq::empty()
        }),
        Err(e) => "Parse Error: "@ + e,
    }
}

/// The log line for a decoded query_sm response.
pub open spec fn query_resp_text(r: Result<(Seq<char>, u8, u8), Seq<char>>) -> Seq<char> {
    match r {
        Ok((desc, state, err)) => "Query Resp: "@ + desc + " (State: "@ + decimal(state as nat) + ", Err: "@
            + decimal(err as nat) + ")"@,
        Err(e) => "Parse Error: "@ + e,
    }
}

/// The log line for a decoded status-only response, after `prefix`.
pub open spec fn status_resp_text(prefix: Seq<char>, r: Result<Seq<char>, Seq<char>>) -> Seq<char> {
    match r {
        Ok(desc) => prefix + desc,
        Err(e) => "Parse Error: "@ + e,
    }
}

/// The acknowledgement of a deliver_sm: a header with status 0 and an empty
/// message id.
pub open spec fn deliver_resp_bytes(sequence_number: u32) -> Seq<u8> {
    header(17, command_id::DELIVER_SM_RESP, 0, sequence_number).push(0u8)
}

/// The answer to an enquire_link: a bare header with status 0.
pub open spec fn enquire_link_resp_bytes(sequence_number: u32) -> Seq<u8> {
    header(16, command_id::ENQUIRE_LINK_RESP, 0, sequence_number)
}

/// What a decoded deliver_sm leads to: the message logged and acknowledged
/// under its own sequence number, or the parse error logged.
pub open spec fn deliver_actions(r: Result<(u32, Seq<char>, Seq<char>, Seq<u8>), Seq<char>>) -> Seq<ActionView> {
    match r {
        Ok((n, src, dst, sm)) => seq![
            ActionView::Log(
                "DeliverSM From: "@ + src + " To: "@ + dst + " Msg: \""@ + utf8_lossy(sm) + "\""@,
            ),
            ActionView::Write(deliver_resp_bytes(n)),
        ],
        Err(e) => seq![ActionView::Log("DeliverSM Parse Error: "@ + e)],
    }
}

/// Whether a command id is a bind response of one of the three modes.
pub open spec fn is_bind_resp(id: u32) -> bool {
    id == command_id::BIND_RECEIVER_RESP || id == command_id::BIND_TRANSMITTER_RESP || id
        == command_id::BIND_TRANSCEIVER_RESP
}

/// Whether the reader knows what to do with a command id.
pub open spec fn is_known_command(id: u32) -> bool {
    ||| is_bind_resp(id)
    ||| id == command_id::SUBMIT_SM_RESP
    ||| id == command_id::SUBMIT_MULTI_RESP
    ||| id == command_id::QUERY_SM_RESP
    ||| id == command_id::CANCEL_SM_RESP
    ||| id == command_id::REPLACE_SM_RESP
    ||| id == command_id::DELIVER_SM
    ||| id == command_id::UNBIND_RESP
    ||| id == command_id::ENQUIRE_LINK_RESP
    ||| id == command_id::ENQUIRE_LINK
}

/// What the reader does with the PDU of length `len` at the start of `buffer`.
/// The command id and, for an enquire_link, the sequence number are read from
/// the buffer; responses are decoded from the PDU's own bytes.
pub open spec fn pdu_actions(buffer: Seq<u8>, len: int) -> Seq<ActionView> {
    let id = u32_at(buffer, 4);
    let pdu = buffer.subrange(0, len);
    if is_bind_resp(id) {
        seq![ActionView::Log(bind_resp_text(bind_resp_decoding(pdu)))]
    } else if id == command_id::SUBMIT_SM_RESP {
        seq![ActionView::Log(submit_resp_text(submit_resp_decoding(pdu)))]
    } else if id == command_id::SUBMIT_MULTI_RESP {
        seq![ActionView::Log(submit_multi_resp_text(submit_multi_resp_decoding(pdu)))]
    } else if id == command_id::QUERY_SM_RESP {
        seq![ActionView::Log(query_resp_text(query_resp_decoding(pdu)))]
    } else if id == command_id::CANCEL_SM_RESP {
        seq![ActionView::Log(status_resp_text("Cancel Resp: "@, status_only_decoding(pdu)))]
    } else if id == command_id::REPLACE_SM_RESP {
        seq![ActionView::Log(status_resp_text("Replace Resp: "@, status_only_decoding(pdu)))]
    } else if id == command_id::DELIVER_SM {
        deliver_actions(deliver_sm_decoding(pdu))
    } else if id == command_id::UNBIND_RESP {
        disconnect_actions("Unbind Response Received"@)
    } else if id == command_id::ENQUIRE_LINK_RESP {
        Seq::empty()
    } else if id == command_id::ENQUIRE_LINK {
        seq![ActionView::Write(enquire_link_resp_bytes(u32_at(buffer, 12)))]
    } else {
        seq![ActionView::Log("Recv PDU: CmdID 0x"@ + hex8(id))]
    }
}

/// The log line for a decoded bind response.
pub fn bind_resp_log(r: Result<(u32, String), String>) -> (s: String)
    ensures
        s@ == bind_resp_text(bind_info_view(r)),
{
    match r {
        Ok((status, desc)) => {
            let mut s = String::from_str("Bind Resp: ");
            s.append(desc.as_str());
            s.append(" (");
            push_decimal(&mut s, status as u64);
            s.append(")");
            s
        },
        Err(e) => {
            let mut s = String::from_str("Parse Error: ");
            s.append(e.as_str());
            s
        },
    }
}

/// The log line for a decoded submit_sm response.
pub fn submit_resp_log(r: Result<(String, String), String>) -> (s: String)
    ensures
        s@ == submit_resp_text(submit_info_view(r)),
{
    match r {
        Ok((desc, id)) => {
            let mut s = String::from_str("Submit Resp: ");
            s.append(desc.as_str());
            s.append(" (Msg ID: ");
            s.append(id.as_str());
            s.append(")");
            s
        },
        Err(e) => {
            let mut s = String::from_str("Parse Error: ");
            s.append(e.as_str());
            s
        },
    }
}

/// The log line for a decoded submit_multi response.
pub fn submit_multi_resp_log(r: Result<(String, String, usize), String>) -> (s: String)
    ensures
        s@ == submit_multi_resp_text(multi_info_view(r)),
{
    match r {
        Ok((desc, id, failed)) => {
            let mut s = String::from_str("SubmitMulti Resp: ");
            s.append(desc.as_str());
            s.append(" (Msg ID: ");
            s.append(id.as_str());
            s.append(")");
            if failed > 0 {
                s.append(" Failed: ");
                push_decimal(&mut s, failed as u64);
            }
            s
        },
        Err(e) => {
            let mut s = String::from_str("Parse Error: ");
            s.append(e.as_str());
            s
        },
    }
}

/// The log line for a decoded query_sm response.
pub fn query_resp_log(r: Result<(String, u8, u8), String>) -> (s: String)
    ensures
        s@ == query_resp_text(query_info_view(r)),
{
    match r {
        Ok((desc, state, err)) => {
            let mut s = String::from_str("Query Resp: ");
            s.append(desc.as_str());
            s.append(" (State: ");
            push_decimal(&mut s, state as u64);
            s.append(", Err: ");
            push_decimal(&mut s, err as u64);
            s.append(")");
            s
        },
        Err(e) => {
            let mut s = String::from_str("Parse Error: ");
            s.append(e.as_str());
            s
        },
    }
}

/// The log line for a decoded status-only response, after `prefix`.
pub fn status_resp_log(prefix: &str, r: Result<String, String>) -> (s: String)
    ensures
        s@ == status_resp_text(prefix@, status_info_view(r)),
{
    match r {
        Ok(desc) => {
            let mut s = String::from_str(prefix);
            s.append(desc.as_str());
            s
        },
        Err(e) => {
            let mut s = String::from_str("Parse Error: ");
            s.append(e.as_str());
            s
        },
    }
}

/// What a decoded deliver_sm leads to: the message logged, and acknowledged
/// under its own sequence number; or the parse error logged.
#[verifier::spinoff_prover]
pub fn deliver_sm_actions(r: Result<(u32, String, String, Vec<u8>), String>) -> (actions: Vec<Action>)
    ensures
        actions_view(actions@) == deliver_actions(deliver_info_view(r)),
{
    let mut actions: Vec<Action> = Vec::new();
    match r {
        Ok((n, src, dst, sm)) => {
            let mut s = String::from_str("DeliverSM From: ");
            s.append(src.as_str());
            s.append(" To: ");
            s.append(dst.as_str());
            s.append(" Msg: \"");
            let text = lossy_string(sm.as_slice());
            s.append(text.as_str());
            s.append("\"");
            actions.push(log_action(s));
            let reply = encode_deliver_sm_response(n, "ESME_ROK");
            actions.push(Action::Writer(WriterCmd::Write(reply)));
        },
        Err(e) => {
            let mut s = String::from_str("DeliverSM Parse Error: ");
            s.append(e.as_str());
            actions.push(log_action(s));
        },
    }
    assert(actions_view(actions@) =~= deliver_actions(deliver_info_view(r)));
    actions
}

/// Handles the PDU of length `len` at the start of `buffer` (the reader's
/// buffer, which holds at least a header's worth of bytes): reports decoded
/// responses, acknowledges deliveries and enquire_links, ends the session on an
/// unbind response, and logs any other command id.
#[verifier::spinoff_prover]
pub fn on_pdu(buffer: &[u8], len: usize) -> (step: ReaderStep)
    requires
        16 <= buffer@.len(),
        4 <= len <= buffer@.len(),
    ensures
        actions_view(step.actions@) == pdu_actions(buffer@, len as int),
        step.stop == (u32_at(buffer@, 4) == command_id::UNBIND_RESP),
        u32_at(buffer@, 4) == command_id::DELIVER_SM ==> (deliver_sm_decoding(buffer@.subrange(0, len as int)) matches Ok(
            (n, _, _, _),
        ) ==> n == u32_at(buffer@, 12)),
{
    let id = read_u32_at(buffer, 4);
    let pdu_vec = copy_range(buffer, 0, len);
    let pdu = pdu_vec.as_slice();
    assert(pdu@ == buffer@.subrange(0, len as int));
    let mut actions: Vec<Action> = Vec::new();
    if id == command_id::BIND_RECEIVER_RESP || id == command_id::BIND_TRANSMITTER_RESP || id
        == command_id::BIND_TRANSCEIVER_RESP {
        actions.push(log_action(bind_resp_log(decode_bind_resp(pdu))));
    } else if id == command_id::SUBMIT_SM_RESP {
        actions.push(log_action(submit_resp_log(decode_submit_resp(pdu))));
    } else if id == command_id::SUBMIT_MULTI_RESP {
        actions.push(log_action(submit_multi_resp_log(decode_submit_multi_resp(pdu))));
    } else if id == command_id::QUERY_SM_RESP {
        actions.push(log_action(query_resp_log(decode_query_resp(pdu))));
    } else if id == command_id::CANCEL_SM_RESP {
        actions.push(log_action(status_resp_log("Cancel Resp: ", decode_cancel_resp(pdu))));
    } else if id == command_id::REPLACE_SM_RESP {
        actions.push(log_action(status_resp_log("Replace Resp: ", decode_replace_resp(pdu))));
    } else if id == command_id::DELIVER_SM {
        let decoded = decode_deliver_sm(pdu);
        proof {
            if let Ok((n, _, _, _)) = decoded {
                assert(pdu@[12] == buffer@[12] && pdu@[13] == buffer@[13] && pdu@[14] == buffer@[14] && pdu@[15]
                    == buffer@[15]);
            }
        }
        actions = deliver_sm_actions(decoded);
    } else if id == command_id::UNBIND_RESP {
        return disconnect_step(String::from_str("Unbind Response Received"));
    } else if id == command_id::ENQUIRE_LINK_RESP {
    } else if id == command_id::ENQUIRE_LINK {
        let seq = read_u32_at(buffer, 12);
        let reply = encode_enquire_link_response(seq, "ESME_ROK");
        actions.push(Action::Writer(WriterCmd::Write(reply)));
    } else {
        let mut s = String::from_str("Recv PDU: CmdID 0x");
        push_hex8(&mut s, id);
        actions.push(log_action(s));
    }
    assert(actions_view(actions@) =~= pdu_actions(buffer@, len as int));
    ReaderStep { actions, stop: false }
}

/// The word `Display` writes for a flag.
pub open spec fn bool_text(b: bool) -> Seq<char> {
    if b {
        "true"@
    } else {
        "false"@
    }
}

/// The log line of a successful connection.
pub open spec fn connected_log(ip: Seq<char>, port: Seq<char>, use_ssl: bool) -> Seq<char> {
    "Connected to "@ + socket_address_text(ip, port) + " (SSL: "@ + bool_text(use_ssl) + ")"@
}

/// What follows a successful connection: the log line, the connected status,
/// and the bind request numbered `seq`.
pub open spec fn connected_actions(
    ip: Seq<char>,
    port: Seq<char>,
    use_ssl: bool,
    bind_mode: Seq<char>,
    system_id: Seq<char>,
    password: Seq<char>,
    seq: u32,
) -> Seq<ActionView> {
    seq![
        ActionView::Log(connected_log(ip, port, use_ssl)),
        ActionView::Status("Connected"@, true),
        ActionView::Write(bind_request_bytes(seq, bind_mode_named(bind_mode), system_id, password)),
    ]
}

/// A sequence number as the client draws them.
pub open spec fn drawn_sequence(seq: u32) -> bool {
    1 <= seq <= 9999
}

/// What follows a successful connection, the bind request numbered `seq`. The
/// bind request cannot be encoded for a system id over 16 bytes or a password
/// over 9, and the client then panics; such inputs are left out.
pub fn connected_actions_for(
    ip: &str,
    port: &str,
    use_ssl: bool,
    bind_mode: &str,
    system_id: &str,
    password: &str,
    seq: u32,
) -> (actions: Vec<Action>)
    requires
        encode_utf8(system_id@).len() <= 16,
        encode_utf8(password@).len() <= 9,
    ensures
        actions_view(actions@) == connected_actions(ip@, port@, use_ssl, bind_mode@, system_id@, password@, seq),
{
    let addr = socket_address(ip, port);
    let mut log = String::from_str("Connected to ");
    log.append(addr.as_str());
    log.append(" (SSL: ");
    if use_ssl {
        log.append("true");
    } else {
        log.append("false");
    }
    log.append(")");
    let mut actions: Vec<Action> = Vec::new();
    actions.push(log_action(log));
    actions.push(Action::Ui(UiEvent::ConnectionStatus(String::from_str("Connected"), true)));
    let pdu = PduFactory::create_bind_request(seq, bind_mode, system_id, password);
    actions.push(Action::Writer(WriterCmd::Write(pdu)));
    assert(actions_view(actions@) =~= connected_actions(ip@, port@, use_ssl, bind_mode@, system_id@, password@, seq));
    actions
}

/// What follows a successful connection, with a bind request under a freshly
/// drawn sequence number.
pub fn on_connected(
    ip: &str,
    port: &str,
    use_ssl: bool,
    bind_mode: &str,
    system_id: &str,
    password: &str,
) -> (actions: Vec<Action>)
    requires
        encode_utf8(system_id@).len() <= 16,
        encode_utf8(password@).len() <= 9,
    ensures
        exists|seq: u32|
            drawn_sequence(seq) && actions_view(actions@) == connected_actions(
                ip@,
                port@,
                use_ssl,
                bind_mode@,
                system_id@,
                password@,
                seq,
            ),
{
    let seq = random_in_range(1, 9999);
    assert(drawn_sequence(seq));
    connected_actions_for(ip, port, use_ssl, bind_mode, system_id, password, seq)
}

/// A failed connection: the reason and the disconnected status.
pub fn on_connect_failed(err: &str) -> (actions: Vec<Action>)
    ensures
        actions_view(actions@) == seq![
            ActionView::Log("Failed to connect: "@ + err@),
            ActionView::Status("Disconnected"@, false),
        ],
{
    let mut log = String::from_str("Failed to connect: ");
    log.append(err);
    let mut actions: Vec<Action> = Vec::new();
    actions.push(log_action(log));
    actions.push(Action::Ui(UiEvent::ConnectionStatus(String::from_str("Disconnected"), false)));
    assert(actions_view(actions@) =~= seq![
        ActionView::Log("Failed to connect: "@ + err@),
        ActionView::Status("Disconnected"@, false),
    ]);
    actions
}

/// A write that failed: the reason and the disconnected status. The writer
/// stops.
pub fn on_write_error(err: &str) -> (actions: Vec<Action>)
    ensures
        actions_view(actions@) == seq![
            ActionView::Log("Write Error: "@ + err@),
            ActionView::Status("Disconnected"@, false),
        ],
{
    let mut log = String::from_str("Write Error: ");
    log.append(err);
    let mut actions: Vec<Action> = Vec::new();
    actions.push(log_action(log));
    actions.push(Action::Ui(UiEvent::ConnectionStatus(String::from_str("Disconnected"), false)));
    assert(actions_view(actions@) =~= seq![
        ActionView::Log("Write Error: "@ + err@),
        ActionView::Status("Disconnected"@, false),
    ]);
    actions
}

/// A heartbeat that could not be written: the reason and the disconnected
/// status. The writer stops.
pub fn on_heartbeat_error(err: &str) -> (actions: Vec<Action>)
    ensures
        actions_view(actions@) == seq![
            ActionView::Log("Heartbeat Error: "@ + err@),
            ActionView::Status("Disconnected"@, false),
        ],
{
    let mut log = String::from_str("Heartbeat Error: ");
    log.append(err);
    let mut actions: Vec<Action> = Vec::new();
    actions.push(log_action(log));
    actions.push(Action::Ui(UiEvent::ConnectionStatus(String::from_str("Disconnected"), false)));
    assert(actions_view(actions@) =~= seq![
        ActionView::Log("Heartbeat Error: "@ + err@),
        ActionView::Status("Disconnected"@, false),
    ]);
    actions
}

/// Seconds between two heartbeats of a connected session.
pub const HEARTBEAT_SECONDS: u64 = 5;

/// The enquire_link that the writer sends on every tick, under a freshly drawn
/// sequence number.
pub fn heartbeat_pdu() -> (pdu: Vec<u8>)
    ensures
        exists|seq: u32| drawn_sequence(seq) && pdu@ == header(16, command_id::ENQUIRE_LINK, 0, seq),
{
    let seq = random_in_range(1, 9999);
    assert(drawn_sequence(seq));
    encode_enquire_link_request(seq)
}

/// The log line after segment `i` of `total` is handed to the writer; a
/// destination field naming several addresses sends a multi-destination
/// segment.
pub open spec fn segment_log(dest: Seq<char>, i: int, total: int) -> Seq<char> {
    (if dest.contains(',') {
        "Sent Multi-Seg "@
    } else {
        "Sent Segment "@
    }) + decimal(i as nat) + "/"@ + decimal(total as nat)
}

/// For the first `n` PDUs: each handed to the writer, then logged.
pub open spec fn segment_actions(dest: Seq<char>, pdus: Seq<Seq<u8>>, n: int) -> Seq<ActionView>
    decreases n,
{
    if n <= 0 {
        Seq::empty()
    } else {
        segment_actions(dest, pdus, n - 1) + seq![
            ActionView::Write(pdus[n - 1]),
            ActionView::Log(segment_log(dest, n, pdus.len() as int)),
        ]
    }
}

/// What a submission leads to: every PDU sent and logged in order, or the error
/// logged.
pub open spec fn submit_report(dest: Seq<char>, res: Result<Seq<Seq<u8>>, Seq<char>>) -> Seq<ActionView> {
    match res {
        Ok(pdus) => segment_actions(dest, pdus, pdus.len() as int),
        Err(e) => seq![ActionView::Log("Error creating PDUs: "@ + e)],
    }
}

/// Whether a text holds the character `c`.
fn str_contains_char(s: &str, c: char) -> (b: bool)
    ensures
        b == s@.contains(c),
{
    let cs = str_chars(s);
    proof {
        lemma_char_index_from_bounds(s@, c, 0);
    }
    let found = index_of_char(cs.as_slice(), c, 0);
    match found {
        Some(k) => {
            assert(s@[k as int] == c);
            true
        },
        None => false,
    }
}

/// What a submission leads to: every PDU handed to the writer and logged as
/// segment `i` of the total, or the error logged.
#[verifier::spinoff_prover]
pub fn report_submit_outcome(dest: &str, res: Result<Vec<Vec<u8>>, String>) -> (actions: Vec<Action>)
    ensures
        actions_view(actions@) == submit_report(dest@, pdus_view(res)),
{
    let mut actions: Vec<Action> = Vec::new();
    match res {
        Ok(pdus) => {
            let multi = str_contains_char(dest, ',');
            let total = pdus.len();
            let ghost ps = pdus@.map_values(|p: Vec<u8>| p@);
            let mut i: usize = 0;
            while i < total
                invariant
                    total == pdus@.len(),
                    ps == pdus@.map_values(|p: Vec<u8>| p@),
                    multi == dest@.contains(','),
                    i <= total,
                    actions_view(actions@) == segment_actions(dest@, ps, i as int),
                decreases total - i,
            {
                let p = &pdus[i];
                let copy = copy_range(p.as_slice(), 0, p.len());
                assert(copy@ == ps[i as int]);
                let ghost before = actions_view(actions@);
                actions.push(Action::Writer(WriterCmd::Write(copy)));
                let mut log = if multi {
                    String::from_str("Sent Multi-Seg ")
                } else {
                    String::from_str("Sent Segment ")
                };
                push_decimal(&mut log, (i + 1) as u64);
                log.append("/");
                push_decimal(&mut log, total as u64);
                actions.push(log_action(log));
                assert(actions_view(actions@) =~= before + seq![
                    ActionView::Write(ps[i as int]),
                    ActionView::Log(segment_log(dest@, i + 1, ps.len() as int)),
                ]);
                i = i + 1;
            }
        },
        Err(e) => {
            let mut log = String::from_str("Error creating PDUs: ");
            log.append(e.as_str());
            actions.push(log_action(log));
            assert(actions_view(actions@) =~= submit_report(dest@, pdus_view(Err(e))));
        },
    }
    actions
}

/// What the client may send for a command without breaking the encoder: a
/// query's message id fits 64 bytes and its source 21.
pub open spec fn command_fits(cmd: Cmd, connected: bool) -> bool {
    match cmd {
        Cmd::QuerySm { msg_id, source, .. } => connected ==> encode_utf8(msg_id@).len() <= 64 && encode_utf8(
            source@,
        ).len() <= 21,
        _ => true,
    }
}

/// Whether `submitted` is an outcome that a message submission of the command
/// under sequence number `seq` may give, when there is a connection to submit
/// on (any value otherwise, and for other commands).
pub open spec fn submission_allowed(
    cmd: Cmd,
    connected: bool,
    seq: u32,
    submitted: Result<Seq<Seq<u8>>, Seq<char>>,
) -> bool {
    match cmd {
        Cmd::SendMessage {
            source,
            src_ton,
            src_npi,
            dest,
            dest_ton,
            dest_npi,
            message,
            encoding,
            mode,
            pid,
            dcs,
            validity,
            dlr,
        } => connected ==> submit_outcome_allowed(
            request_text(
                source@,
                src_ton@,
                src_npi@,
                dest@,
                dest_ton@,
                dest_npi@,
                mode@,
                pid@,
                dcs@,
                validity@,
                dlr,
            ),
            message@,
            encoding@,
            seq,
            submitted,
        ),
        _ => true,
    }
}

/// What a command leads to, with `seq` numbering the request and `submitted` the
/// outcome of a message submission. Without a connection only a message
/// submission is answered ("Not connected"); a new connection first closes the
/// current writer.
pub open spec fn command_actions(
    cmd: Cmd,
    connected: bool,
    seq: u32,
    submitted: Result<Seq<Seq<u8>>, Seq<char>>,
) -> Seq<ActionView> {
    match cmd {
        Cmd::Connect { .. } => if connected {
            seq![ActionView::Close]
        } else {
            Seq::empty()
        },
        Cmd::Unbind => if connected {
            seq![
                ActionView::Log("Sending Unbind..."@),
                ActionView::Write(header(16, command_id::UNBIND, 0, seq)),
            ]
        } else {
            Seq::empty()
        },
        Cmd::SendMessage { dest, .. } => if connected {
            submit_report(dest@, submitted)
        } else {
            seq![ActionView::Log("Not connected"@)]
        },
        Cmd::QuerySm { msg_id, source, ton, npi } => if connected {
            seq![
                ActionView::Write(query_sm_bytes(seq, msg_id@, source@, u8_or(ton@, 0), u8_or(npi@, 0))),
                ActionView::Log("Sent QuerySm"@),
            ]
        } else {
            Seq::empty()
        },
        Cmd::CancelSm { msg_id, source, src_ton, src_npi, dest, dest_ton, dest_npi } => if connected {
            seq![
                ActionView::Write(
                    cancel_sm_bytes(
                        seq,
                        "SMPP"@,
                        msg_id@,
                        source@,
                        u8_or(src_ton@, 0),
                        u8_or(src_npi@, 0),
                        dest@,
                        u8_or(dest_ton@, 0),
                        u8_or(dest_npi@, 0),
                    ),
                ),
                ActionView::Log("Sent CancelSm"@),
            ]
        } else {
            Seq::empty()
        },
        Cmd::ReplaceSm { msg_id, source, src_ton, src_npi, message } => if connected {
            seq![
                ActionView::Write(
                    replace_sm_bytes(
                        seq,
                        msg_id@,
                        source@,
                        u8_or(src_ton@, 0),
                        u8_or(src_npi@, 0),
                        encode_utf8(message@),
                    ),
                ),
                ActionView::Log("Sent ReplaceSm"@),
            ]
        } else {
            Seq::empty()
        },
    }
}

fn write_then_log(pdu: Vec<u8>, log: &str) -> (actions: Vec<Action>)
    ensures
        actions_view(actions@) == seq![ActionView::Write(pdu@), ActionView::Log(log@)],
{
    let mut actions: Vec<Action> = Vec::new();
    let ghost p = pdu@;
    actions.push(Action::Writer(WriterCmd::Write(pdu)));
    actions.push(log_action(String::from_str(log)));
    assert(actions_view(actions@) =~= seq![ActionView::Write(p), ActionView::Log(log@)]);
    actions
}

/// What a command leads to, with `seq` numbering the request it sends. A
/// message submission is split and numbered upward from `seq`.
#[verifier::spinoff_prover]
pub fn command_actions_for(cmd: &Cmd, connected: bool, seq: u32) -> (actions: Vec<Action>)
    requires
        command_fits(*cmd, connected),
    ensures
        exists|submitted: Result<Seq<Seq<u8>>, Seq<char>>|
            #![trigger command_actions(*cmd, connected, seq, submitted)]
            submission_allowed(*cmd, connected, seq, submitted) && actions_view(actions@) == command_actions(
                *cmd,
                connected,
                seq,
                submitted,
            ),
{
    let ghost none = Err::<Seq<Seq<u8>>, Seq<char>>(Seq::empty());
    match cmd {
        Cmd::Connect { .. } => {
            let mut actions: Vec<Action> = Vec::new();
            if connected {
                actions.push(Action::Writer(WriterCmd::Close));
            }
            assert(actions_view(actions@) =~= command_actions(*cmd, connected, seq, none));
            actions
        },
        Cmd::Unbind => {
            let mut actions: Vec<Action> = Vec::new();
            if connected {
                actions.push(log_action(String::from_str("Sending Unbind...")));
                let pdu = PduFactory::create_unbind_request(seq);
                actions.push(Action::Writer(WriterCmd::Write(pdu)));
            }
            assert(actions_view(actions@) =~= command_actions(*cmd, connected, seq, none));
            actions
        },
        Cmd::SendMessage {
            source,
            src_ton,
            src_npi,
            dest,
            dest_ton,
            dest_npi,
            message,
            encoding,
            mode,
            pid,
            dcs,
            validity,
            dlr,
        } => {
            if connected {
                let res = PduFactory::create_submit_pdus(
                    seq,
                    source.as_str(),
                    src_ton.as_str(),
                    src_npi.as_str(),
                    dest.as_str(),
                    dest_ton.as_str(),
                    dest_npi.as_str(),
                    message.as_str(),
                    encoding.as_str(),
                    mode.as_str(),
                    pid.as_str(),
                    dcs.as_str(),
                    validity.as_str(),
                    *dlr,
                );
                let ghost submitted = pdus_view(res);
                let actions = report_submit_outcome(dest.as_str(), res);
                assert(submission_allowed(*cmd, connected, seq, submitted));
                assert(actions_view(actions@) == command_actions(*cmd, connected, seq, submitted));
                actions
            } else {
                let mut actions: Vec<Action> = Vec::new();
                actions.push(log_action(String::from_str("Not connected")));
                assert(actions_view(actions@) =~= command_actions(*cmd, connected, seq, none));
                actions
            }
        },
        Cmd::QuerySm { msg_id, source, ton, npi } => {
            if connected {
                let pdu = PduFactory::create_query_sm_request(
                    seq,
                    msg_id.as_str(),
                    source.as_str(),
                    ton.as_str(),
                    npi.as_str(),
                );
                let actions = write_then_log(pdu, "Sent QuerySm");
                assert(actions_view(actions@) =~= command_actions(*cmd, connected, seq, none));
                actions
            } else {
                let actions: Vec<Action> = Vec::new();
                assert(actions_view(actions@) =~= command_actions(*cmd, connected, seq, none));
                actions
            }
        },
        Cmd::CancelSm { msg_id, source, src_ton, src_npi, dest, dest_ton, dest_npi } => {
            if connected {
                let pdu = PduFactory::create_cancel_sm_request(
                    seq,
                    msg_id.as_str(),
                    source.as_str(),
                    src_ton.as_str(),
                    src_npi.as_str(),
                    dest.as_str(),
                    dest_ton.as_str(),
                    dest_npi.as_str(),
                );
                let actions = write_then_log(pdu, "Sent CancelSm");
                assert(actions_view(actions@) =~= command_actions(*cmd, connected, seq, none));
                actions
            } else {
                let actions: Vec<Action> = Vec::new();
                assert(actions_view(actions@) =~= command_actions(*cmd, connected, seq, none));
                actions
            }
        },
        Cmd::ReplaceSm { msg_id, source, src_ton, src_npi, message } => {
            if connected {
                let pdu = PduFactory::create_replace_sm_request(
                    seq,
                    msg_id.as_str(),
                    source.as_str(),
                    src_ton.as_str(),
                    src_npi.as_str(),
                    message.as_str(),
                );
                let actions = write_then_log(pdu, "Sent ReplaceSm");
                assert(actions_view(actions@) =~= command_actions(*cmd, connected, seq, none));
                actions
            } else {
                let actions: Vec<Action> = Vec::new();
                assert(actions_view(actions@) =~= command_actions(*cmd, connected, seq, none));
                actions
            }
        },
    }
}

/// What a command leads to, numbering its request with a freshly drawn sequence
/// number.
pub fn on_command(cmd: &Cmd, connected: bool) -> (actions: Vec<Action>)
    requires
        command_fits(*cmd, connected),
    ensures
        exists|seq: u32, submitted: Result<Seq<Seq<u8>>, Seq<char>>|
            #![trigger command_actions(*cmd, connected, seq, submitted)]
            drawn_sequence(seq) && submission_allowed(*cmd, connected, seq, submitted) && actions_view(actions@)
                == command_actions(*cmd, connected, seq, submitted),
{
    let seq = random_in_range(1, 9999);
    command_actions_for(cmd, connected, seq)
}

/// An unknown command id is logged with its value and nothing else happens:
/// the session goes on.
pub proof fn law_unknown_command_is_only_logged(buffer: Seq<u8>, len: int)
    requires
        !is_known_command(u32_at(buffer, 4)),
    ensures
        pdu_actions(buffer, len) == seq![ActionView::Log("Recv PDU: CmdID 0x"@ + hex8(u32_at(buffer, 4)))],
{
}

/// An enquire_link is answered with an enquire_link_resp of 16 bytes, status 0,
/// under the sequence number of the request.
pub proof fn law_enquire_link_answered_in_kind(buffer: Seq<u8>, len: int)
    requires
        u32_at(buffer, 4) == command_id::ENQUIRE_LINK,
    ensures
        pdu_actions(buffer, len).len() == 1,
        pdu_actions(buffer, len)[0] matches ActionView::Write(r) && r.len() == 16 && u32_at(r, 0) == 16 && u32_at(
            r,
            4,
        ) == command_id::ENQUIRE_LINK_RESP && u32_at(r, 8) == 0 && u32_at(r, 12) == u32_at(buffer, 12),
{
    lemma_header_read_back(16, command_id::ENQUIRE_LINK_RESP, 0, u32_at(buffer, 12), Seq::empty());
    assert(enquire_link_resp_bytes(u32_at(buffer, 12)) =~= header(16, command_id::ENQUIRE_LINK_RESP, 0, u32_at(buffer, 12))
        + Seq::<u8>::empty());
}

/// A delivered message is acknowledged with a deliver_sm_resp of 17 bytes,
/// status 0, under the sequence number of the delivery.
pub proof fn law_delivery_acknowledged_in_kind(n: u32, src: Seq<char>, dst: Seq<char>, sm: Seq<u8>)
    ensures
        deliver_actions(Ok((n, src, dst, sm))).len() == 2,
        deliver_actions(Ok((n, src, dst, sm)))[1] matches ActionView::Write(r) && r.len() == 17 && u32_at(r, 0) == 17
            && u32_at(r, 4) == command_id::DELIVER_SM_RESP && u32_at(r, 8) == 0 && u32_at(r, 12) == n,
{
    lemma_header_read_back(17, command_id::DELIVER_SM_RESP, 0, n, seq![0u8]);
    assert(deliver_resp_bytes(n) =~= header(17, command_id::DELIVER_SM_RESP, 0, n) + seq![0u8]);
}

/// Without a connection nothing is written: a message submission is answered
/// "Not connected", and every other command does nothing.
pub proof fn law_nothing_sent_without_connection(cmd: Cmd, seq: u32, submitted: Result<Seq<Seq<u8>>, Seq<char>>)
    ensures
        cmd is SendMessage ==> command_actions(cmd, false, seq, submitted) == seq![ActionView::Log("Not connected"@)],
        !(cmd is SendMessage) ==> command_actions(cmd, false, seq, submitted) == Seq::<ActionView>::empty(),
{
}

/// Every PDU of a submission goes to the writer, in order, each followed by its
/// log line "i/total".
pub proof fn law_segments_sent_in_order(dest: Seq<char>, pdus: Seq<Seq<u8>>)
    ensures
        submit_report(dest, Ok(pdus)).len() == 2 * pdus.len(),
        forall|k: int|
            0 <= k < pdus.len() ==> submit_report(dest, Ok(pdus))[2 * k] == ActionView::Write(#[trigger] pdus[k])
                && submit_report(dest, Ok(pdus))[2 * k + 1] == ActionView::Log(
                segment_log(dest, k + 1, pdus.len() as int),
            ),
{
    lemma_segment_actions_len(dest, pdus, pdus.len() as int);
    assert forall|k: int| 0 <= k < pdus.len() implies submit_report(dest, Ok(pdus))[2 * k] == ActionView::Write(
        #[trigger] pdus[k],
    ) && submit_report(dest, Ok(pdus))[2 * k + 1] == ActionView::Log(segment_log(dest, k + 1, pdus.len() as int)) by {
        lemma_segment_action_at(dest, pdus, pdus.len() as int, k);
    }
}

proof fn lemma_segment_actions_len(dest: Seq<char>, pdus: Seq<Seq<u8>>, n: int)
    requires
        0 <= n <= pdus.len(),
    ensures
        segment_actions(dest, pdus, n).len() == 2 * n,
    decreases n,
{
    if n > 0 {
        lemma_segment_actions_len(dest, pdus, n - 1);
    }
}

#[verifier::spinoff_prover]
proof fn lemma_segment_action_at(dest: Seq<char>, pdus: Seq<Seq<u8>>, n: int, k: int)
    requires
        0 <= k < n <= pdus.len(),
    ensures
        segment_actions(dest, pdus, n)[2 * k] == ActionView::Write(pdus[k]),
        segment_actions(dest, pdus, n)[2 * k + 1] == ActionView::Log(segment_log(dest, k + 1, pdus.len() as int)),
    decreases n,
{
    lemma_segment_actions_len(dest, pdus, n - 1);
    let prev = segment_actions(dest, pdus, n - 1);
    let tail = seq![ActionView::Write(pdus[n - 1]), ActionView::Log(segment_log(dest, n, pdus.len() as int))];
    assert(segment_actions(dest, pdus, n) == prev + tail);
    if k < n - 1 {
        lemma_segment_action_at(dest, pdus, n - 1, k);
        assert(segment_actions(dest, pdus, n)[2 * k] == prev[2 * k]);
        assert(segment_actions(dest, pdus, n)[2 * k + 1] == prev[2 * k + 1]);
    } else {
        assert(segment_actions(dest, pdus, n)[2 * k] == tail[0]);
        assert(segment_actions(dest, pdus, n)[2 * k + 1] == tail[1]);
    }
}

/// After a connection the client reports it and writes the bind request for the
/// mode that the user named: bind_receiver for `Receiver`, bind_transmitter for
/// `Transmitter`, bind_transceiver for anything else; the request is numbered
/// `seq` and carries the system id and the password as given.
#[verifier::spinoff_prover]
pub proof fn law_connect_binds_in_the_named_mode(
    ip: Seq<char>,
    port: Seq<char>,
    use_ssl: bool,
    bind_mode: Seq<char>,
    system_id: Seq<char>,
    password: Seq<char>,
    seq: u32,
)
    ensures
        ({
            let acts = connected_actions(ip, port, use_ssl, bind_mode, system_id, password, seq);
            &&& acts.len() == 3
            &&& acts[1] == ActionView::Status("Connected"@, true)
            &&& acts[2] matches ActionView::Write(p)
            &&& u32_at(p, 4) == (if bind_mode == "Receiver"@ {
                0x00000001u32
            } else if bind_mode == "Transmitter"@ {
                0x00000002u32
            } else {
                0x00000009u32
            })
            &&& u32_at(p, 12) == seq
            &&& c_string_at(p, 16, system_id)
            &&& c_string_at(p, 17 + encode_utf8(system_id).len() as int, password)
        }),
{
    law_bind_request_fields(seq, bind_mode_named(bind_mode), system_id, password);
    let p = bind_request_bytes(seq, bind_mode_named(bind_mode), system_id, password);
    assert(connected_actions(ip, port, use_ssl, bind_mode, system_id, password, seq)[2] == ActionView::Write(p));
    if bind_mode == "Receiver"@ {
        assert("Receiver"@ != "Transmitter"@) by {
            reveal_strlit("Receiver");
            reveal_strlit("Transmitter");
            assert("Receiver"@.len() != "Transmitter"@.len());
        }
        assert(bind_mode_named(bind_mode) == crate::bind::BindMode::Receiver);
    } else if bind_mode == "Transmitter"@ {
        assert(bind_mode_named(bind_mode) == crate::bind::BindMode::Transmitter);
    } else {
        assert(bind_mode_named(bind_mode) == crate::bind::BindMode::Transceiver);
    }
}

/// A CancelSm command on a live connection writes a cancel_sm that holds each
/// of the command's fields in its own role (service type `SMPP`, the message
/// id, then the source with its TON and NPI, then the destination with its TON
/// and NPI, the numbers read as in the user interface), then logs it.
#[verifier::spinoff_prover]
pub proof fn law_cancel_command_writes_its_fields(
    msg_id: String,
    source: String,
    src_ton: String,
    src_npi: String,
    dest: String,
    dest_ton: String,
    dest_npi: String,
    seq: u32,
    submitted: Result<Seq<Seq<u8>>, Seq<char>>,
)
    ensures
        ({
            let acts = command_actions(
                Cmd::CancelSm { msg_id, source, src_ton, src_npi, dest, dest_ton, dest_npi },
                true,
                seq,
                submitted,
            );
            let a = 17 + encode_utf8("SMPP"@).len() as int;
            let b = a + 1 + encode_utf8(msg_id@).len() as int;
            let c = b + 3 + encode_utf8(source@).len() as int;
            &&& acts.len() == 2
            &&& acts[1] == ActionView::Log("Sent CancelSm"@)
            &&& acts[0] matches ActionView::Write(p)
            &&& u32_at(p, 4) == command_id::CANCEL_SM
            &&& u32_at(p, 12) == seq
            &&& c_string_at(p, 16, "SMPP"@)
            &&& c_string_at(p, a, msg_id@)
            &&& p[b] == codec_ton_byte(u8_or(src_ton@, 0))
            &&& p[b + 1] == codec_npi_byte(u8_or(src_npi@, 0))
            &&& c_string_at(p, b + 2, source@)
            &&& p[c] == codec_ton_byte(u8_or(dest_ton@, 0))
            &&& p[c + 1] == codec_npi_byte(u8_or(dest_npi@, 0))
            &&& c_string_at(p, c + 2, dest@)
        }),
{
    law_cancel_sm_fields(
        seq,
        "SMPP"@,
        msg_id@,
        source@,
        u8_or(src_ton@, 0),
        u8_or(src_npi@, 0),
        dest@,
        u8_or(dest_ton@, 0),
        u8_or(dest_npi@, 0),
    );
    let p = cancel_sm_bytes(
        seq,
        "SMPP"@,
        msg_id@,
        source@,
        u8_or(src_ton@, 0),
        u8_or(src_npi@, 0),
        dest@,
        u8_or(dest_ton@, 0),
        u8_or(dest_npi@, 0),
    );
    let acts = command_actions(
        Cmd::CancelSm { msg_id, source, src_ton, src_npi, dest, dest_ton, dest_npi },
        true,
        seq,
        submitted,
    );
    assert(acts == seq![ActionView::Write(p), ActionView::Log("Sent CancelSm"@)]);
}

/// A ReplaceSm command on a live connection writes a replace_sm whose message
/// id field holds the command's message id and whose source field holds the
/// command's source (with its TON and NPI), followed by an empty schedule and
/// validity and the new message's UTF-8 bytes with their length, then logs it.
#[verifier::spinoff_prover]
pub proof fn law_replace_command_writes_its_fields(
    msg_id: String,
    source: String,
    src_ton: String,
    src_npi: String,
    message: String,
    seq: u32,
    submitted: Result<Seq<Seq<u8>>, Seq<char>>,
)
    ensures
        ({
            let acts = command_actions(Cmd::ReplaceSm { msg_id, source, src_ton, src_npi, message }, true, seq, submitted);
            let b = 17 + encode_utf8(msg_id@).len() as int;
            let c = b + 3 + encode_utf8(source@).len() as int;
            &&& acts.len() == 2
            &&& acts[1] == ActionView::Log("Sent ReplaceSm"@)
            &&& acts[0] matches ActionView::Write(p)
            &&& u32_at(p, 4) == command_id::REPLACE_SM
            &&& u32_at(p, 12) == seq
            &&& c_string_at(p, 16, msg_id@)
            &&& p[b] == codec_ton_byte(u8_or(src_ton@, 0))
            &&& p[b + 1] == codec_npi_byte(u8_or(src_npi@, 0))
            &&& c_string_at(p, b + 2, source@)
            &&& p[c] == 0
            &&& p[c + 1] == 0
            &&& p[c + 4] == encode_utf8(message@).len() % 256
            &&& p.subrange(c + 5, p.len() as int) == encode_utf8(message@)
        }),
{
    law_replace_sm_fields(seq, msg_id@, source@, u8_or(src_ton@, 0), u8_or(src_npi@, 0), encode_utf8(message@));
    let p = replace_sm_bytes(seq, msg_id@, source@, u8_or(src_ton@, 0), u8_or(src_npi@, 0), encode_utf8(message@));
    let acts = command_actions(Cmd::ReplaceSm { msg_id, source, src_ton, src_npi, message }, true, seq, submitted);
    assert(acts == seq![ActionView::Write(p), ActionView::Log("Sent ReplaceSm"@)]);
}

/// A QuerySm command on a live connection writes a query_sm whose message id
/// field holds the command's message id and whose source field holds the
/// command's source with its TON and NPI, then logs it.
#[verifier::spinoff_prover]
pub proof fn law_query_command_writes_its_fields(
    msg_id: String,
    source: String,
    ton: String,
    npi: String,
    seq: u32,
    submitted: Result<Seq<Seq<u8>>, Seq<char>>,
)
    ensures
        ({
            let acts = command_actions(Cmd::QuerySm { msg_id, source, ton, npi }, true, seq, submitted);
            let b = 17 + encode_utf8(msg_id@).len() as int;
            &&& acts.len() == 2
            &&& acts[1] == ActionView::Log("Sent QuerySm"@)
            &&& acts[0] matches ActionView::Write(p)
            &&& u32_at(p, 4) == command_id::QUERY_SM
            &&& u32_at(p, 12) == seq
            &&& c_string_at(p, 16, msg_id@)
            &&& p[b] == codec_ton_byte(u8_or(ton@, 0))
            &&& p[b + 1] == codec_npi_byte(u8_or(npi@, 0))
            &&& c_string_at(p, b + 2, source@)
        }),
{
    law_query_sm_fields(seq, msg_id@, source@, u8_or(ton@, 0), u8_or(npi@, 0));
    let p = query_sm_bytes(seq, msg_id@, source@, u8_or(ton@, 0), u8_or(npi@, 0));
    let acts = command_actions(Cmd::QuerySm { msg_id, source, ton, npi }, true, seq, submitted);
    assert(acts == seq![ActionView::Write(p), ActionView::Log("Sent QuerySm"@)]);
}

} // verus!
