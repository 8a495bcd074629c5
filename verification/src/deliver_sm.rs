//! deliver_sm PDUs received from the SMSC: field extraction, delivery-receipt
//! id and status, and the response PDUs (deliver_sm_resp, generic_nack).
use vstd::prelude::*;
use vstd::string::*;
use vstd::utf8::{valid_utf8, decode_utf8};
use crate::common::command_id;
use crate::wire::{lemma_header_read_back, header, push_be_u32, u32_at, nul_from, find_nul, copy_range, read_u32_at};
use crate::text::{
    str_chars, index_of_char, trim_range, parse_unsigned_chars, char_index_from, trim,
    parse_unsigned, string_from_chars, push_decimal, decimal,
};

verus! {

/// Represents a parsed deliver_sm PDU
#[derive(Debug, Clone, PartialEq)]
pub struct DeliverSm {
    /// Sequence number of the received PDU
    pub sequence_number: u32,
    /// The originating address (sender)
    pub originator_address: String,
    /// The destination address (recipient)
    pub destination_address: String,
    /// The message content
    pub message: String,
    /// The msg_id of SubmitSM
    pub returned_msg_id: u64,
    /// The status of SubmitSM
    pub returned_msg_status: String,
}

/// The fields of a parsed deliver_sm, as values.
pub struct DeliverSmView {
    pub sequence_number: u32,
    pub originator_address: Seq<char>,
    pub destination_address: Seq<char>,
    pub message: Seq<char>,
    pub returned_msg_id: u64,
    pub returned_msg_status: Seq<char>,
}

impl View for DeliverSm {
    type V = DeliverSmView;

    open spec fn view(&self) -> DeliverSmView {
        DeliverSmView {
            sequence_number: self.sequence_number,
            originator_address: self.originator_address@,
            destination_address: self.destination_address@,
            message: self.message@,
            returned_msg_id: self.returned_msg_id,
            returned_msg_status: self.returned_msg_status@,
        }
    }
}

/// Errors that can occur when parsing a deliver_sm PDU
#[derive(Debug, Clone, Copy, PartialEq, Eq, Structural)]
pub enum DeliverSmError {
    BufferTooShort { expected: usize, actual: usize },
    InvalidOriginatorAddress,
    InvalidDestinationAddress,
    InvalidMessageContent,
    NullTerminatorNotFound,
}

/// Result type for deliver_sm operations
pub type DeliverSmResult<T> = Result<T, DeliverSmError>;

/// The text of each refusal.
pub open spec fn deliver_sm_error_message(e: DeliverSmError) -> Seq<char> {
    match e {
        DeliverSmError::BufferTooShort { expected, actual } => "Buffer too short: expected at least "@ + decimal(
            expected as nat,
        ) + " bytes, got "@ + decimal(actual as nat),
        DeliverSmError::InvalidOriginatorAddress => "Invalid UTF-8 in originator address"@,
        DeliverSmError::InvalidDestinationAddress => "Invalid UTF-8 in destination address"@,
        DeliverSmError::InvalidMessageContent => "Invalid UTF-8 in message content"@,
        DeliverSmError::NullTerminatorNotFound => "Null terminator not found"@,
    }
}

impl DeliverSmError {
    /// The text of this refusal.
    pub fn message(&self) -> (s: String)
        ensures
            s@ == deliver_sm_error_message(*self),
    {
        match self {
            DeliverSmError::BufferTooShort { expected, actual } => {
                let mut s = String::from_str("Buffer too short: expected at least ");
                push_decimal(&mut s, *expected as u64);
                s.append(" bytes, got ");
                push_decimal(&mut s, *actual as u64);
                s
            },
            DeliverSmError::InvalidOriginatorAddress => String::from_str("Invalid UTF-8 in originator address"),
            DeliverSmError::InvalidDestinationAddress => String::from_str("Invalid UTF-8 in destination address"),
            DeliverSmError::InvalidMessageContent => String::from_str("Invalid UTF-8 in message content"),
            DeliverSmError::NullTerminatorNotFound => String::from_str("Null terminator not found"),
        }
    }
}

/// What the regex crate finds first in `haystack` for `pattern`
/// (`Regex::new(pattern)` then `Regex::find`), as the matched text.
pub uninterp spec fn regex_first_match(pattern: Seq<char>, haystack: Seq<char>) -> Option<Seq<char>>;

/// `regex::Regex::new(pattern)` and `Regex::find(haystack)`: the text of the
/// leftmost-first match, or `None` when there is none or the pattern does not
/// compile. Claimed: the result is `regex_first_match` of the two texts; nothing
/// is said of how the regex crate matches.
#[verifier::external_body]
fn regex_find(pattern: &str, haystack: &str) -> (res: Option<String>)
    ensures
        match res {
            Some(m) => regex_first_match(pattern@, haystack@) == Some(m@),
            None => regex_first_match(pattern@, haystack@) is None,
        },
{
    regex::Regex::new(pattern).ok().and_then(|re| re.find(haystack).map(|m| m.as_str().to_string()))
}

/// The pattern of a delivery receipt's message id: `id:` and digits.
pub open spec fn msg_id_pattern() -> Seq<char> {
    "id:\\d+"@
}

/// The pattern of a delivery receipt's status: `stat:` and non-space characters.
pub open spec fn msg_status_pattern() -> Seq<char> {
    "stat:\\S+"@
}

/// The second `:`-separated field of a text (`split(':').nth(1)`).
pub open spec fn second_colon_field(m: Seq<char>) -> Option<Seq<char>> {
    match char_index_from(m, ':', 0) {
        None => None,
        Some(i) => match char_index_from(m, ':', i + 1) {
            Some(j) => Some(m.subrange(i + 1, j)),
            None => Some(m.subrange(i + 1, m.len() as int)),
        },
    }
}

/// The text after the first `:`, or the whole text when it has none.
pub open spec fn after_first_colon(m: Seq<char>) -> Seq<char> {
    match char_index_from(m, ':', 0) {
        Some(i) => m.subrange(i + 1, m.len() as int),
        None => m,
    }
}

/// The message id of a delivery receipt: the number after `id:` in the first
/// match of the id pattern.
pub open spec fn receipt_msg_id(message: Seq<char>) -> Option<u64> {
    match regex_first_match(msg_id_pattern(), message) {
        None => None,
        Some(m) => id_in_match(m),
    }
}

/// The message id in a match of the id pattern: the second `:`-separated field,
/// trimmed, read as an unsigned 64-bit number.
pub open spec fn id_in_match(m: Seq<char>) -> Option<u64> {
    match second_colon_field(m) {
        None => None,
        Some(f) => match parse_unsigned(trim(f), u64::MAX as int) {
            Some(v) => Some(v as u64),
            None => None,
        },
    }
}

/// The status of a delivery receipt: the text after `stat:` in the first match
/// of the status pattern.
pub open spec fn receipt_msg_status(message: Seq<char>) -> Option<Seq<char>> {
    match regex_first_match(msg_status_pattern(), message) {
        None => None,
        Some(m) => Some(after_first_colon(m)),
    }
}

/// The reading of a deliver_sm PDU, step by step: sequence number at offset 12;
/// source address as a C-octet string from offset 19; destination address three
/// bytes after its NUL; the message length ten bytes after the destination's NUL,
/// then the message; each text must be UTF-8, and the message must carry a
/// receipt id and status.
pub open spec fn deliver_sm_parse(b: Seq<u8>) -> Result<DeliverSmView, DeliverSmError> {
    let len = b.len() as int;
    if len < 16 {
        Err(DeliverSmError::BufferTooShort { expected: 16, actual: len as usize })
    } else if len < 20 {
        Err(DeliverSmError::BufferTooShort { expected: 20, actual: len as usize })
    } else {
        match nul_from(b, 19) {
            None => Err(DeliverSmError::NullTerminatorNotFound),
            Some(oe) => {
                let orig = b.subrange(19, oe);
                let dest_start = oe + 3;
                if !valid_utf8(orig) {
                    Err(DeliverSmError::InvalidOriginatorAddress)
                } else if len <= dest_start {
                    Err(DeliverSmError::BufferTooShort { expected: (dest_start + 1) as usize, actual: len as usize })
                } else {
                    match nul_from(b, dest_start) {
                        None => Err(DeliverSmError::NullTerminatorNotFound),
                        Some(de) => {
                            let dest = b.subrange(dest_start, de);
                            let tlp = de + 10;
                            if !valid_utf8(dest) {
                                Err(DeliverSmError::InvalidDestinationAddress)
                            } else if len <= tlp {
                                Err(DeliverSmError::BufferTooShort { expected: (tlp + 1) as usize, actual: len as usize })
                            } else {
                                let ms = tlp + 1;
                                let me = ms + b[tlp] as int;
                                if len < me {
                                    Err(DeliverSmError::BufferTooShort { expected: me as usize, actual: len as usize })
                                } else if !valid_utf8(b.subrange(ms, me)) {
                                    Err(DeliverSmError::InvalidMessageContent)
                                } else {
                                    let message = decode_utf8(b.subrange(ms, me));
                                    match (receipt_msg_id(message), receipt_msg_status(message)) {
                                        (Some(id), Some(status)) => Ok(DeliverSmView {
                                            sequence_number: u32_at(b, 12),
                                            originator_address: decode_utf8(orig),
                                            destination_address: decode_utf8(dest),
                                            message,
                                            returned_msg_id: id,
                                            returned_msg_status: status,
                                        }),
                                        _ => Err(DeliverSmError::InvalidMessageContent),
                                    }
                                }
                            }
                        },
                    }
                }
            },
        }
    }
}

/// The message id in a match of the id pattern (such as `id:123`): the number
/// in its second `:`-separated field.
pub fn msg_id_from_match(m: &str) -> (res: Option<u64>)
    ensures
        res == id_in_match(m@),
{
    let cs = str_chars(m);
    let first = match index_of_char(cs.as_slice(), ':', 0) {
        Some(i) => i,
        None => return None,
    };
    assert(first < cs.len());
    let end = match index_of_char(cs.as_slice(), ':', first + 1) {
        Some(j) => j,
        None => cs.len(),
    };
    let field = trim_range(cs.as_slice(), first + 1, end);
    assert(second_colon_field(m@) == Some(cs@.subrange(first + 1, end as int)));
    parse_unsigned_chars(field.as_slice(), u64::MAX)
}

/// The status in a match of the status pattern (such as `stat:DELIVRD`): the
/// text after its first `:`.
pub fn msg_status_from_match(m: &str) -> (res: String)
    ensures
        res@ == after_first_colon(m@),
{
    let cs = str_chars(m);
    match index_of_char(cs.as_slice(), ':', 0) {
        Some(i) => {
            assert(i < cs.len());
            let mut rest: Vec<char> = Vec::new();
            let mut k = i + 1;
            while k < cs.len()
                invariant
                    i + 1 <= k <= cs@.len(),
                    rest@ == cs@.subrange(i + 1, k as int),
                decreases cs@.len() - k,
            {
                rest.push(cs[k]);
                assert(rest@ =~= cs@.subrange(i + 1, k + 1));
                k = k + 1;
            }
            string_from_chars(rest.as_slice())
        },
        None => String::from_str(m),
    }
}

/// The message id of a delivery receipt text, as the id pattern and the number
/// after `id:` give it.
fn find_msg_id(message: &str) -> (res: Option<u64>)
    ensures
        res == receipt_msg_id(message@),
{
    match regex_find("id:\\d+", message) {
        Some(m) => msg_id_from_match(m.as_str()),
        None => None,
    }
}

/// The status of a delivery receipt text, as the status pattern and the text
/// after `stat:` give it.
fn find_msg_status(message: &str) -> (res: Option<String>)
    ensures
        match res {
            Some(s) => receipt_msg_status(message@) == Some(s@),
            None => receipt_msg_status(message@) is None,
        },
{
    match regex_find("stat:\\S+", message) {
        Some(m) => Some(msg_status_from_match(m.as_str())),
        None => None,
    }
}

/// Parses an SMPP deliver_sm PDU: sequence number, originator and destination
/// addresses, message content, and the delivery receipt's message id and status.
#[verifier::spinoff_prover]
pub fn parse_deliver_sm_async(buffer: &[u8]) -> (res: DeliverSmResult<DeliverSm>)
    requires
        buffer@.len() <= isize::MAX,
    ensures
        match deliver_sm_parse(buffer@) {
            Ok(v) => res matches Ok(d) && d@ == v,
            Err(e) => res == Err::<DeliverSm, DeliverSmError>(e),
        },
{
    let len = buffer.len();
    if len < 16 {
        return Err(DeliverSmError::BufferTooShort { expected: 16, actual: len });
    }
    let sequence_number = read_u32_at(buffer, 12);
    if len < 20 {
        return Err(DeliverSmError::BufferTooShort { expected: 20, actual: len });
    }
    let originator_start: usize = 19;
    let originator_end = match find_nul(buffer, originator_start) {
        Some(i) => i,
        None => return Err(DeliverSmError::NullTerminatorNotFound),
    };
    let originator_bytes = copy_range(buffer, originator_start, originator_end);
    let originator_address = match crate::text::utf8_string(originator_bytes.as_slice()) {
        Some(s) => s,
        None => return Err(DeliverSmError::InvalidOriginatorAddress),
    };
    let dest_start = originator_end + 3;
    if len <= dest_start {
        return Err(DeliverSmError::BufferTooShort { expected: dest_start + 1, actual: len });
    }
    let dest_end = match find_nul(buffer, dest_start) {
        Some(i) => i,
        None => return Err(DeliverSmError::NullTerminatorNotFound),
    };
    let dest_bytes = copy_range(buffer, dest_start, dest_end);
    let destination_address = match crate::text::utf8_string(dest_bytes.as_slice()) {
        Some(s) => s,
        None => return Err(DeliverSmError::InvalidDestinationAddress),
    };
    let text_length_pos = dest_end + 10;
    if len <= text_length_pos {
        return Err(DeliverSmError::BufferTooShort { expected: text_length_pos + 1, actual: len });
    }
    let text_length = buffer[text_length_pos];
    let message_start = text_length_pos + 1;
    let message_end = message_start + text_length as usize;
    if len < message_end {
        return Err(DeliverSmError::BufferTooShort { expected: message_end, actual: len });
    }
    let message_bytes = copy_range(buffer, message_start, message_end);
    let message = match crate::text::utf8_string(message_bytes.as_slice()) {
        Some(s) => s,
        None => return Err(DeliverSmError::InvalidMessageContent),
    };
    let returned_msg_id = match find_msg_id(message.as_str()) {
        Some(id) => id,
        None => return Err(DeliverSmError::InvalidMessageContent),
    };
    let returned_msg_status = match find_msg_status(message.as_str()) {
        Some(s) => s,
        None => return Err(DeliverSmError::InvalidMessageContent),
    };
    Ok(DeliverSm {
        sequence_number,
        originator_address,
        destination_address,
        message,
        returned_msg_id,
        returned_msg_status,
    })
}

/// A deliver_sm_resp PDU: 17-byte header with status 0 and an empty message id.
pub open spec fn deliver_sm_resp_pdu(sequence_number: u32) -> Seq<u8> {
    header(17, command_id::DELIVER_SM_RESP, 0, sequence_number).push(0u8)
}

/// A generic_nack PDU: 16-byte header with status 1 (invalid message length).
pub open spec fn generic_nack_pdu(sequence_number: u32) -> Seq<u8> {
    header(16, command_id::GENERIC_NACK, 1, sequence_number)
}

/// Creates the success response to a deliver_sm with the given sequence number.
pub fn create_deliver_sm_resp_async(sequence_number: u32) -> (res: DeliverSmResult<Vec<u8>>)
    ensures
        res matches Ok(pdu) && pdu@ == deliver_sm_resp_pdu(sequence_number),
{
    let mut pdu: Vec<u8> = Vec::new();
    push_be_u32(&mut pdu, 17);
    push_be_u32(&mut pdu, command_id::DELIVER_SM_RESP);
    push_be_u32(&mut pdu, 0);
    push_be_u32(&mut pdu, sequence_number);
    pdu.push(0u8);
    Ok(pdu)
}

/// Creates a generic_nack PDU for a PDU that could not be processed.
pub fn create_generic_nack_async(sequence_number: u32) -> (res: DeliverSmResult<Vec<u8>>)
    ensures
        res matches Ok(pdu) && pdu@ == generic_nack_pdu(sequence_number),
{
    let mut pdu: Vec<u8> = Vec::new();
    push_be_u32(&mut pdu, 16);
    push_be_u32(&mut pdu, command_id::GENERIC_NACK);
    push_be_u32(&mut pdu, 1);
    push_be_u32(&mut pdu, sequence_number);
    Ok(pdu)
}

/// Result of processing a deliver_sm: the response bytes and, when the PDU was
/// understood, its addresses, message and receipt fields.
#[derive(Debug)]
pub struct DeliverSMParsedResult {
    /// Response to the parsed message
    pub deliversm_resp_bytes: Vec<u8>,
    /// Originator Address of the Message
    pub orig_addr: Option<String>,
    /// Destination Address of the Message
    pub dest_addr: Option<String>,
    /// Message received in response
    pub message: Option<String>,
    /// Message ID of SubmitSM received in response
    pub msg_id: Option<String>,
    /// Message Status of SubmitSM received in response
    pub msg_status: Option<String>,
}

/// The text of an optional string.
pub open spec fn opt_view(o: Option<String>) -> Option<Seq<char>> {
    match o {
        Some(s) => Some(s@),
        None => None,
    }
}

/// Processes a deliver_sm buffer: a deliver_sm_resp echoing its sequence number
/// with the parsed fields when it parses, a generic_nack with sequence number 0
/// and no fields otherwise.
pub fn deliver_sm_async(buffer: &[u8]) -> (res: Result<DeliverSMParsedResult, &'static str>)
    requires
        buffer@.len() <= isize::MAX,
    ensures
        res matches Ok(r) && match deliver_sm_parse(buffer@) {
            Ok(v) => {
                &&& r.deliversm_resp_bytes@ == deliver_sm_resp_pdu(v.sequence_number)
                &&& opt_view(r.orig_addr) == Some(v.originator_address)
                &&& opt_view(r.dest_addr) == Some(v.destination_address)
                &&& opt_view(r.message) == Some(v.message)
                &&& opt_view(r.msg_id) == Some(decimal(v.returned_msg_id as nat))
                &&& opt_view(r.msg_status) == Some(v.returned_msg_status)
            },
            Err(_) => {
                &&& r.deliversm_resp_bytes@ == generic_nack_pdu(0)
                &&& r.orig_addr is None
                &&& r.dest_addr is None
                &&& r.message is None
                &&& r.msg_id is None
                &&& r.msg_status is None
            },
        },
{
    match parse_deliver_sm_async(buffer) {
        Ok(deliver_sm) => {
            let response = match create_deliver_sm_resp_async(deliver_sm.sequence_number) {
                Ok(r) => r,
                Err(_) => Vec::new(),
            };
            let mut id_text = String::new();
            push_decimal(&mut id_text, deliver_sm.returned_msg_id);
            Ok(DeliverSMParsedResult {
                deliversm_resp_bytes: response,
                orig_addr: Some(deliver_sm.originator_address),
                dest_addr: Some(deliver_sm.destination_address),
                message: Some(deliver_sm.message),
                msg_id: Some(id_text),
                msg_status: Some(deliver_sm.returned_msg_status),
            })
        },
        Err(_) => {
            let nack = match create_generic_nack_async(0) {
                Ok(n) => n,
                Err(_) => Vec::new(),
            };
            Ok(DeliverSMParsedResult {
                deliversm_resp_bytes: nack,
                orig_addr: None,
                dest_addr: None,
                message: None,
                msg_id: None,
                msg_status: None,
            })
        },
    }
}

/// The responses state their own size and carry their command id, status and
/// the sequence number they were given.
pub proof fn law_response_pdu_headers(sequence_number: u32)
    ensures
        deliver_sm_resp_pdu(sequence_number).len() == 17,
        u32_at(deliver_sm_resp_pdu(sequence_number), 0) == 17,
        u32_at(deliver_sm_resp_pdu(sequence_number), 4) == command_id::DELIVER_SM_RESP,
        u32_at(deliver_sm_resp_pdu(sequence_number), 8) == 0,
        u32_at(deliver_sm_resp_pdu(sequence_number), 12) == sequence_number,
        generic_nack_pdu(sequence_number).len() == 16,
        u32_at(generic_nack_pdu(sequence_number), 0) == 16,
        u32_at(generic_nack_pdu(sequence_number), 4) == command_id::GENERIC_NACK,
        u32_at(generic_nack_pdu(sequence_number), 8) == 1,
        u32_at(generic_nack_pdu(sequence_number), 12) == sequence_number,
{
    lemma_header_read_back(17, command_id::DELIVER_SM_RESP, 0, sequence_number, seq![0u8]);
    assert(deliver_sm_resp_pdu(sequence_number) =~= header(17, command_id::DELIVER_SM_RESP, 0, sequence_number) + seq![0u8]);
    lemma_header_read_back(16, command_id::GENERIC_NACK, 1, sequence_number, Seq::empty());
    assert(generic_nack_pdu(sequence_number) =~= header(16, command_id::GENERIC_NACK, 1, sequence_number) + Seq::<u8>::empty());
}

/// A deliver_sm that parses is answered under its own sequence number: the
/// deliver_sm_resp carries the sequence number found at offset 12 of the
/// request.
pub proof fn law_deliver_sm_answered_in_kind(buffer: Seq<u8>)
    requires
        deliver_sm_parse(buffer) is Ok,
    ensures
        u32_at(deliver_sm_resp_pdu(deliver_sm_parse(buffer)->Ok_0.sequence_number), 12) == u32_at(buffer, 12),
{
    law_response_pdu_headers(deliver_sm_parse(buffer)->Ok_0.sequence_number);
}

} // verus!
