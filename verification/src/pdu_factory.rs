//! Requests that the client sends, built through the `smpp-codec` encoders from
//! the text fields of the user interface.
use vstd::prelude::*;
use vstd::string::*;
use vstd::utf8::encode_utf8;
use crate::bind::BindMode;
use crate::codec::{
    encode_bind_request, encode_unbind_request, encode_submit_sm, encode_submit_multi,
    encode_query_sm, encode_cancel_sm, encode_replace_sm, split_message, bind_request_bytes,
    query_sm_bytes, cancel_sm_bytes, replace_sm_bytes, submit_sm_request_bytes,
    submit_multi_bytes, submit_sm_fields_fit, submit_sm_error_text, header_fields, tlvs_view,
    SubmitSmFields, SubmitSmSpec, SubmitMultiFields, SubmitMultiSpec, TlvParam, TextEncoding,
    SplitKind, data_coding_of, encoded_text, fits_one_segment, split_outcome,
    law_long_text_is_several_segments, submit_sm_esm_offset, submit_multi_esm_offset,
    law_submit_sm_esm_class_byte, law_submit_multi_esm_class_byte, law_submit_sm_request_fields, codec_ton_byte,
    codec_npi_byte,
};
use crate::common::command_id;
use crate::wire::{c_string_at, u32_at};
use crate::text::{
    str_chars, str_eq, index_of_char, trim_range, parse_unsigned_chars, parse_unsigned,
    lemma_parse_unsigned_range, law_decimal_parses_back, decimal,
    char_index_from, trim, string_from_chars, lemma_char_index_from_bounds,
};
use crate::gsm_encoding::{gsm_encode, gsm_error_message};
use crate::chance::random_u16;

verus! {

/// Tag of the message_payload TLV.
pub const MESSAGE_PAYLOAD: u16 = 0x0424;
/// Tag of the sar_msg_ref_num TLV.
pub const SAR_MSG_REF_NUM: u16 = 0x020C;
/// Tag of the sar_total_segments TLV.
pub const SAR_TOTAL_SEGMENTS: u16 = 0x020E;
/// Tag of the sar_segment_seqnum TLV.
pub const SAR_SEGMENT_SEQNUM: u16 = 0x020F;

pub struct PduFactory;

/// The bind mode named in the user interface; anything unknown binds as a
/// transceiver.
pub open spec fn bind_mode_named(name: Seq<char>) -> BindMode {
    if name == "Transmitter"@ {
        BindMode::Transmitter
    } else if name == "Receiver"@ {
        BindMode::Receiver
    } else {
        BindMode::Transceiver
    }
}

/// The encoding named in the user interface; anything unknown is GSM 7-bit.
pub open spec fn encoding_named(name: Seq<char>) -> TextEncoding {
    if name == "GSM 7-bit"@ {
        TextEncoding::Gsm7Bit
    } else if name == "Latin-1"@ {
        TextEncoding::Latin1
    } else if name == "UCS-2"@ {
        TextEncoding::Ucs2
    } else {
        TextEncoding::Gsm7Bit
    }
}

/// The split mode named in the user interface; anything unknown is UDH.
pub open spec fn split_kind_named(name: Seq<char>) -> SplitKind {
    if name == "UDH"@ {
        SplitKind::Udh
    } else if name == "SAR"@ {
        SplitKind::Sar
    } else if name == "Payload"@ {
        SplitKind::Payload
    } else {
        SplitKind::Udh
    }
}

/// A field read as a `u8` (`str::parse`), or `default` when it is not one.
pub open spec fn u8_or(s: Seq<char>, default: u8) -> u8 {
    match parse_unsigned(s, 255) {
        Some(v) => v as u8,
        None => default,
    }
}

fn bind_mode_from_name(name: &str) -> (m: BindMode)
    ensures
        m == bind_mode_named(name@),
{
    if str_eq(name, "Transmitter") {
        BindMode::Transmitter
    } else if str_eq(name, "Receiver") {
        BindMode::Receiver
    } else {
        BindMode::Transceiver
    }
}

fn encoding_from_name(name: &str) -> (e: TextEncoding)
    ensures
        e == encoding_named(name@),
{
    if str_eq(name, "GSM 7-bit") {
        TextEncoding::Gsm7Bit
    } else if str_eq(name, "Latin-1") {
        TextEncoding::Latin1
    } else if str_eq(name, "UCS-2") {
        TextEncoding::Ucs2
    } else {
        TextEncoding::Gsm7Bit
    }
}

fn split_kind_from_name(name: &str) -> (k: SplitKind)
    ensures
        k == split_kind_named(name@),
{
    if str_eq(name, "UDH") {
        SplitKind::Udh
    } else if str_eq(name, "SAR") {
        SplitKind::Sar
    } else if str_eq(name, "Payload") {
        SplitKind::Payload
    } else {
        SplitKind::Udh
    }
}

/// Reads a field as a `u8`, falling back to `default`.
pub fn parse_u8_or(s: &str, default: u8) -> (v: u8)
    ensures
        v == u8_or(s@, default),
{
    let cs = str_chars(s);
    proof {
        lemma_parse_unsigned_range(s@, 255);
    }
    match parse_unsigned_chars(cs.as_slice(), 255) {
        Some(v) => {
            assert(v <= 255);
            v as u8
        },
        None => default,
    }
}

/// The field itself when it is not empty after trimming, else nothing.
pub open spec fn kept(t: Seq<char>) -> Seq<Seq<char>> {
    if t.len() > 0 {
        seq![t]
    } else {
        Seq::empty()
    }
}

/// The `,`-separated fields of `s` from `start` on, trimmed, empty ones left out.
pub open spec fn dest_fields_from(s: Seq<char>, start: int) -> Seq<Seq<char>>
    decreases s.len() - start,
{
    if start < 0 || start > s.len() {
        Seq::empty()
    } else {
        match char_index_from(s, ',', start) {
            Some(j) => {
                proof {
                    lemma_char_index_from_bounds(s, ',', start);
                }
                kept(trim(s.subrange(start, j))) + dest_fields_from(s, j + 1)
            },
            None => kept(trim(s.subrange(start, s.len() as int))),
        }
    }
}

/// The destinations of a request: its `,`-separated addresses, trimmed, empty
/// ones left out.
pub open spec fn destination_list(dest: Seq<char>) -> Seq<Seq<char>> {
    dest_fields_from(dest, 0)
}

/// Splits a destination field on `,`, trims each address and drops empty ones.
#[verifier::spinoff_prover]
pub fn split_destinations(dest: &str) -> (res: Vec<String>)
    ensures
        res@.map_values(|d: String| d@) == destination_list(dest@),
{
    let cs = str_chars(dest);
    let mut out: Vec<String> = Vec::new();
    let mut start: usize = 0;
    loop
        invariant
            start <= cs@.len(),
            cs@ == dest@,
            destination_list(dest@) == out@.map_values(|d: String| d@) + dest_fields_from(dest@, start as int),
        decreases cs@.len() - start,
    {
        let ghost before = out@.map_values(|d: String| d@);
        match index_of_char(cs.as_slice(), ',', start) {
            Some(j) => {
                assert(j < cs.len());
                let t = trim_range(cs.as_slice(), start, j);
                if t.len() > 0 {
                    out.push(string_from_chars(t.as_slice()));
                }
                assert(out@.map_values(|d: String| d@) =~= before + kept(trim(cs@.subrange(start as int, j as int))));
                start = j + 1;
            },
            None => {
                let t = trim_range(cs.as_slice(), start, cs.len());
                if t.len() > 0 {
                    out.push(string_from_chars(t.as_slice()));
                }
                assert(out@.map_values(|d: String| d@) =~= before + kept(trim(cs@.subrange(start as int, cs@.len() as int))));
                return out;
            },
        }
    }
}

/// The text fields of a message submission.
pub struct SubmitRequestText {
    pub source: Seq<char>,
    pub src_ton: Seq<char>,
    pub src_npi: Seq<char>,
    pub dest: Seq<char>,
    pub dest_ton: Seq<char>,
    pub dest_npi: Seq<char>,
    pub mode: Seq<char>,
    pub pid: Seq<char>,
    pub dcs: Seq<char>,
    pub validity: Seq<char>,
    pub dlr: bool,
}

/// The big-endian bytes of a 16-bit value.
pub open spec fn be_u16(v: u16) -> Seq<u8> {
    seq![(v / 256) as u8, (v % 256) as u8]
}

/// The optional parameters of segment `i` of `total`: the message payload in
/// payload mode, the three SAR parameters in SAR mode with more than one segment.
pub open spec fn segment_tlvs(kind: SplitKind, part: Seq<u8>, i: int, total: int, sar_ref: u16) -> Seq<(u16, Seq<u8>)> {
    if kind == SplitKind::Payload {
        seq![(MESSAGE_PAYLOAD, part)]
    } else if kind == SplitKind::Sar && total > 1 {
        seq![
            (SAR_MSG_REF_NUM, be_u16(sar_ref)),
            (SAR_TOTAL_SEGMENTS, seq![total as u8]),
            (SAR_SEGMENT_SEQNUM, seq![(i + 1) as u8]),
        ]
    } else {
        Seq::empty()
    }
}

/// The ESM class of a segment: UDH indicator when a UDH message has several segments.
pub open spec fn segment_esm_class(kind: SplitKind, total: int) -> u8 {
    if kind == SplitKind::Udh && total > 1 {
        0x40
    } else {
        0
    }
}

/// The short message of a segment: empty in payload mode, the segment otherwise.
pub open spec fn segment_short_message(kind: SplitKind, part: Seq<u8>) -> Seq<u8> {
    if kind == SplitKind::Payload {
        Seq::empty()
    } else {
        part
    }
}

/// The sequence number of segment `i`, counting up from `start` (wrapping).
pub open spec fn segment_sequence(start: u32, i: int) -> u32 {
    ((start as int + i) % 0x1_0000_0000) as u32
}

/// The PDU for segment `i` of `total`: a submit_multi to every destination when
/// there are several, else a submit_sm to the destination field as given.
pub open spec fn segment_pdu(
    r: SubmitRequestText,
    part: Seq<u8>,
    i: int,
    total: int,
    start: u32,
    data_coding_auto: u8,
    sar_ref: u16,
) -> Result<Seq<u8>, Seq<char>> {
    let kind = split_kind_named(r.mode);
    let dests = destination_list(r.dest);
    let seq_num = segment_sequence(start, i);
    let tlvs = segment_tlvs(kind, part, i, total, sar_ref);
    if dests.len() > 1 {
        Ok(submit_multi_bytes(SubmitMultiSpec {
            sequence_number: seq_num,
            source_addr: r.source,
            destinations: dests,
            dest_addr_ton: u8_or(r.dest_ton, 0),
            dest_addr_npi: u8_or(r.dest_npi, 0),
            source_addr_ton: u8_or(r.src_ton, 0),
            source_addr_npi: u8_or(r.src_npi, 0),
            esm_class: segment_esm_class(kind, total),
            protocol_id: u8_or(r.pid, 0),
            validity_period: r.validity,
            registered_delivery: if r.dlr { 1 } else { 0 },
            data_coding: u8_or(r.dcs, data_coding_auto),
            short_message: segment_short_message(kind, part),
            optional_params: tlvs,
        }))
    } else {
        let f = SubmitSmSpec {
            sequence_number: seq_num,
            source_addr: r.source,
            dest_addr: r.dest,
            source_addr_ton: u8_or(r.src_ton, 0),
            source_addr_npi: u8_or(r.src_npi, 0),
            dest_addr_ton: u8_or(r.dest_ton, 0),
            dest_addr_npi: u8_or(r.dest_npi, 0),
            esm_class: segment_esm_class(kind, total),
            protocol_id: u8_or(r.pid, 0),
            validity_period: r.validity,
            registered_delivery: if r.dlr { 1 } else { 0 },
            data_coding: u8_or(r.dcs, data_coding_auto),
            short_message: segment_short_message(kind, part),
            optional_params: tlvs,
        };
        if submit_sm_fields_fit(f) {
            Ok(submit_sm_request_bytes(f))
        } else {
            Err("Encode error: "@ + submit_sm_error_text(f))
        }
    }
}

/// The PDUs for the first `n` segments, in order, or the first segment's error.
pub open spec fn submit_pdus_prefix(
    r: SubmitRequestText,
    parts: Seq<Seq<u8>>,
    n: int,
    start: u32,
    data_coding_auto: u8,
    sar_ref: u16,
) -> Result<Seq<Seq<u8>>, Seq<char>>
    decreases n,
{
    if n <= 0 {
        Ok(Seq::empty())
    } else {
        match submit_pdus_prefix(r, parts, n - 1, start, data_coding_auto, sar_ref) {
            Err(e) => Err(e),
            Ok(prev) => match segment_pdu(r, parts[n - 1], n - 1, parts.len() as int, start, data_coding_auto, sar_ref) {
                Err(e) => Err(e),
                Ok(pdu) => Ok(prev.push(pdu)),
            },
        }
    }
}

/// The PDUs for all segments of a split message.
pub open spec fn submit_pdus_outcome(
    r: SubmitRequestText,
    parts: Seq<Seq<u8>>,
    start: u32,
    data_coding_auto: u8,
    sar_ref: u16,
) -> Result<Seq<Seq<u8>>, Seq<char>> {
    submit_pdus_prefix(r, parts, parts.len() as int, start, data_coding_auto, sar_ref)
}

/// The text fields of a submission, gathered.
pub open spec fn request_text(
    source: Seq<char>,
    src_ton: Seq<char>,
    src_npi: Seq<char>,
    dest: Seq<char>,
    dest_ton: Seq<char>,
    dest_npi: Seq<char>,
    mode: Seq<char>,
    pid: Seq<char>,
    dcs: Seq<char>,
    validity: Seq<char>,
    dlr: bool,
) -> SubmitRequestText {
    SubmitRequestText { source, src_ton, src_npi, dest, dest_ton, dest_npi, mode, pid, dcs, validity, dlr }
}

/// Whether splitting the message fails: GSM 7-bit asked for a text with a
/// character outside GSM 03.38.
pub open spec fn submit_split_fails(message: Seq<char>, encoding: Seq<char>) -> bool {
    encoding_named(encoding) == TextEncoding::Gsm7Bit && gsm_encode(message) is Err
}

/// What a submission of `message` may give. A split failure is reported with the
/// first unsupported character. Otherwise the result is the outcome of the
/// segment PDUs, with the encoding's data coding, for segments as the splitter
/// makes them (`split_outcome`): a message that fits one segment is its encoded
/// bytes alone; a longer one is its encoded bytes cut in order into chunks of the
/// segment capacity (`text_chunks`), each behind a UDH header in UDH mode. The
/// UDH and SAR reference numbers are random.
pub open spec fn submit_outcome_allowed(
    r: SubmitRequestText,
    message: Seq<char>,
    encoding: Seq<char>,
    seq_num: u32,
    res: Result<Seq<Seq<u8>>, Seq<char>>,
) -> bool {
    if submit_split_fails(message, encoding) {
        res == Err::<Seq<Seq<u8>>, Seq<char>>("Split error: "@ + gsm_error_message(gsm_encode(message)->Err_0))
    } else {
        exists|parts: Seq<Seq<u8>>, dc: u8, sar_ref: u16|
            #![trigger submit_pdus_outcome(r, parts, seq_num, dc, sar_ref)]
            parts.len() >= 1 && dc == data_coding_of(encoding_named(encoding)) && split_outcome(
                parts,
                message,
                encoding_named(encoding),
                split_kind_named(r.mode),
            ) && res == submit_pdus_outcome(r, parts, seq_num, dc, sar_ref)
    }
}

/// The contents of a list of PDUs, or the error text.
pub open spec fn pdus_view(r: Result<Vec<Vec<u8>>, String>) -> Result<Seq<Seq<u8>>, Seq<char>> {
    match r {
        Ok(v) => Ok(v@.map_values(|p: Vec<u8>| p@)),
        Err(e) => Err(e@),
    }
}

fn be_u16_bytes(v: u16) -> (b: Vec<u8>)
    ensures
        b@ == be_u16(v),
{
    let mut b: Vec<u8> = Vec::new();
    b.push((v / 256) as u8);
    b.push((v % 256) as u8);
    assert(b@ =~= be_u16(v));
    b
}

fn copy_bytes(v: &Vec<u8>) -> (c: Vec<u8>)
    ensures
        c@ == v@,
{
    let mut c: Vec<u8> = Vec::new();
    let mut i: usize = 0;
    while i < v.len()
        invariant
            i <= v@.len(),
            c@ == v@.subrange(0, i as int),
        decreases v@.len() - i,
    {
        c.push(v[i]);
        assert(c@ =~= v@.subrange(0, i + 1));
        i = i + 1;
    }
    assert(c@ =~= v@);
    c
}

fn copy_string(s: &String) -> (c: String)
    ensures
        c@ == s@,
{
    String::from_str(s.as_str())
}

#[verifier::spinoff_prover]
fn copy_strings(v: &Vec<String>) -> (c: Vec<String>)
    ensures
        c@.map_values(|d: String| d@) == v@.map_values(|d: String| d@),
{
    let mut c: Vec<String> = Vec::new();
    let mut i: usize = 0;
    while i < v.len()
        invariant
            i <= v@.len(),
            c@.len() == i,
            c@.map_values(|d: String| d@) == v@.subrange(0, i as int).map_values(|d: String| d@),
        decreases v@.len() - i,
    {
        let ghost prev = c@;
        let s = copy_string(&v[i]);
        c.push(s);
        assert(v@.subrange(0, i + 1) =~= v@.subrange(0, i as int).push(v@[i as int]));
        assert(c@ =~= prev.push(s));
        assert(c@[i as int] == s);
        let ghost cm = c@.map_values(|d: String| d@);
        let ghost vm = v@.subrange(0, i + 1).map_values(|d: String| d@);
        let ghost pm = prev.map_values(|d: String| d@);
        let ghost wm = v@.subrange(0, i as int).map_values(|d: String| d@);
        assert forall|k: int| 0 <= k < i + 1 implies cm[k] == vm[k] by {
            if k < i {
                assert(pm[k] == wm[k]);
                assert(c@[k] == prev[k]);
                assert(cm[k] == pm[k]);
                assert(vm[k] == wm[k]);
            } else {
                assert(cm[k] == s@);
                assert(vm[k] == v@[i as int]@);
            }
        }
        assert(c@.map_values(|d: String| d@) =~= v@.subrange(0, i + 1).map_values(|d: String| d@));
        i = i + 1;
    }
    assert(v@.subrange(0, i as int) =~= v@);
    c
}

fn segment_tlv_list(kind: SplitKind, part: &Vec<u8>, i: usize, total: usize, sar_ref: u16) -> (t: Vec<TlvParam>)
    requires
        i < total,
    ensures
        tlvs_view(t@) == segment_tlvs(kind, part@, i as int, total as int, sar_ref),
{
    let mut t: Vec<TlvParam> = Vec::new();
    if kind == SplitKind::Payload {
        t.push(TlvParam { tag: MESSAGE_PAYLOAD, value: copy_bytes(part) });
    } else if kind == SplitKind::Sar && total > 1 {
        t.push(TlvParam { tag: SAR_MSG_REF_NUM, value: be_u16_bytes(sar_ref) });
        let mut v1: Vec<u8> = Vec::new();
        v1.push(total as u8);
        t.push(TlvParam { tag: SAR_TOTAL_SEGMENTS, value: v1 });
        let mut v2: Vec<u8> = Vec::new();
        v2.push((i + 1) as u8);
        t.push(TlvParam { tag: SAR_SEGMENT_SEQNUM, value: v2 });
    }
    assert(tlvs_view(t@) =~= segment_tlvs(kind, part@, i as int, total as int, sar_ref));
    t
}

/// The command id of every segment of a submission to `dest`: submit_multi
/// when it names several addresses, submit_sm otherwise.
pub open spec fn segment_command_id(dest: Seq<char>) -> u32 {
    if destination_list(dest).len() > 1 {
        command_id::SUBMIT_MULTI
    } else {
        command_id::SUBMIT_SM
    }
}

/// The fields shared by every segment of a submission, read from its text.
struct SegmentCommon {
    kind: SplitKind,
    dests: Vec<String>,
    data_coding: u8,
    protocol_id: u8,
    source_ton: u8,
    source_npi: u8,
    dest_ton: u8,
    dest_npi: u8,
    registered: u8,
}

/// The shared fields as a submission's text gives them.
spec fn common_fields(c: SegmentCommon, r: SubmitRequestText, data_coding_auto: u8) -> bool {
    &&& c.kind == split_kind_named(r.mode)
    &&& c.dests@.map_values(|d: String| d@) == destination_list(r.dest)
    &&& c.data_coding == u8_or(r.dcs, data_coding_auto)
    &&& c.protocol_id == u8_or(r.pid, 0)
    &&& c.source_ton == u8_or(r.src_ton, 0)
    &&& c.source_npi == u8_or(r.src_npi, 0)
    &&& c.dest_ton == u8_or(r.dest_ton, 0)
    &&& c.dest_npi == u8_or(r.dest_npi, 0)
    &&& c.registered == (if r.dlr { 1u8 } else { 0u8 })
}

/// A segment's PDU, or the error text.
spec fn segment_result_view(res: Result<Vec<u8>, String>) -> Result<Seq<u8>, Seq<char>> {
    match res {
        Ok(p) => Ok(p@),
        Err(e) => Err(e@),
    }
}

/// The PDU for segment `i` of `total`, numbered `seq`.
#[verifier::spinoff_prover]
fn segment_pdu_bytes(
    source: &str,
    dest: &str,
    validity: &str,
    c: &SegmentCommon,
    part: &Vec<u8>,
    i: usize,
    total: usize,
    start: u32,
    seq: u32,
    data_coding_auto: u8,
    sar_ref: u16,
    Ghost(r): Ghost<SubmitRequestText>,
) -> (res: Result<Vec<u8>, String>)
    requires
        r.source == source@,
        r.dest == dest@,
        r.validity == validity@,
        common_fields(*c, r, data_coding_auto),
        i < total,
        seq == segment_sequence(start, i as int),
    ensures
        segment_result_view(res) == segment_pdu(r, part@, i as int, total as int, start, data_coding_auto, sar_ref),
        res matches Ok(p) ==> header_fields(p@, segment_command_id(dest@), 0, seq),
{
    let kind = c.kind;
    let esm: u8 = if kind == SplitKind::Udh && total > 1 { 0x40 } else { 0 };
    let tlvs = segment_tlv_list(kind, part, i, total, sar_ref);
    let short_message = if kind == SplitKind::Payload { Vec::new() } else { copy_bytes(part) };
    assert(short_message@ == segment_short_message(kind, part@));
    if c.dests.len() > 1 {
        let f = SubmitMultiFields {
            sequence_number: seq,
            source_addr: String::from_str(source),
            destinations: copy_strings(&c.dests),
            dest_addr_ton: c.dest_ton,
            dest_addr_npi: c.dest_npi,
            source_addr_ton: c.source_ton,
            source_addr_npi: c.source_npi,
            esm_class: esm,
            protocol_id: c.protocol_id,
            validity_period: String::from_str(validity),
            registered_delivery: c.registered,
            data_coding: c.data_coding,
            short_message,
            optional_params: tlvs,
        };
        assert(f@ == (SubmitMultiSpec {
            sequence_number: seq,
            source_addr: source@,
            destinations: destination_list(dest@),
            dest_addr_ton: c.dest_ton,
            dest_addr_npi: c.dest_npi,
            source_addr_ton: c.source_ton,
            source_addr_npi: c.source_npi,
            esm_class: esm,
            protocol_id: c.protocol_id,
            validity_period: validity@,
            registered_delivery: c.registered,
            data_coding: c.data_coding,
            short_message: segment_short_message(kind, part@),
            optional_params: segment_tlvs(kind, part@, i as int, total as int, sar_ref),
        }));
        Ok(encode_submit_multi(f))
    } else {
        let f = SubmitSmFields {
            sequence_number: seq,
            source_addr: String::from_str(source),
            dest_addr: String::from_str(dest),
            source_addr_ton: c.source_ton,
            source_addr_npi: c.source_npi,
            dest_addr_ton: c.dest_ton,
            dest_addr_npi: c.dest_npi,
            esm_class: esm,
            protocol_id: c.protocol_id,
            validity_period: String::from_str(validity),
            registered_delivery: c.registered,
            data_coding: c.data_coding,
            short_message,
            optional_params: tlvs,
        };
        let ghost fv = f@;
        assert(fv == (SubmitSmSpec {
            sequence_number: seq,
            source_addr: source@,
            dest_addr: dest@,
            source_addr_ton: c.source_ton,
            source_addr_npi: c.source_npi,
            dest_addr_ton: c.dest_ton,
            dest_addr_npi: c.dest_npi,
            esm_class: esm,
            protocol_id: c.protocol_id,
            validity_period: validity@,
            registered_delivery: c.registered,
            data_coding: c.data_coding,
            short_message: segment_short_message(kind, part@),
            optional_params: segment_tlvs(kind, part@, i as int, total as int, sar_ref),
        }));
        match encode_submit_sm(f) {
            Ok(p) => Ok(p),
            Err(e) => {
                let mut msg = String::from_str("Encode error: ");
                msg.append(e.as_str());
                Err(msg)
            },
        }
    }
}

impl PduFactory {
    /// The bind request for the mode named in the interface. The crate refuses a
    /// system id over 16 bytes or a password over 9, and this function then
    /// panics; such inputs are left out.
    pub fn create_bind_request(seq_num: u32, bind_mode: &str, system_id: &str, password: &str) -> (pdu: Vec<u8>)
        requires
            encode_utf8(system_id@).len() <= 16,
            encode_utf8(password@).len() <= 9,
        ensures
            pdu@ == bind_request_bytes(seq_num, bind_mode_named(bind_mode@), system_id@, password@),
            header_fields(pdu@, crate::bind::bind_command_id(bind_mode_named(bind_mode@)), 0, seq_num),
    {
        let mode_enum = bind_mode_from_name(bind_mode);
        match encode_bind_request(seq_num, mode_enum, system_id, password) {
            Ok(pdu) => pdu,
            Err(_) => Vec::new(),
        }
    }

    /// The unbind request: a bare header.
    pub fn create_unbind_request(seq_num: u32) -> (pdu: Vec<u8>)
        ensures
            pdu@.len() == 16,
            crate::wire::u32_at(pdu@, 0) == 16,
            header_fields(pdu@, command_id::UNBIND, 0, seq_num),
            pdu@ == crate::wire::header(16, command_id::UNBIND, 0, seq_num),
    {
        encode_unbind_request(seq_num)
    }

    /// The PDUs for the segments of an already split message: one submit_sm per
    /// segment (or one submit_multi when the destination field names several
    /// addresses), numbered upward from `seq_num`. Every PDU carries its
    /// command id, status 0 and its segment's sequence number in the header.
    #[verifier::spinoff_prover]
    pub fn build_submit_pdus(
        seq_num: u32,
        source: &str,
        src_ton: &str,
        src_npi: &str,
        dest: &str,
        dest_ton: &str,
        dest_npi: &str,
        mode: &str,
        pid: &str,
        dcs: &str,
        validity: &str,
        dlr: bool,
        parts: Vec<Vec<u8>>,
        data_coding_auto: u8,
        sar_ref_num: u16,
    ) -> (res: Result<Vec<Vec<u8>>, String>)
        ensures
            pdus_view(res) == submit_pdus_outcome(
                request_text(source@, src_ton@, src_npi@, dest@, dest_ton@, dest_npi@, mode@, pid@, dcs@, validity@, dlr),
                parts@.map_values(|p: Vec<u8>| p@),
                seq_num,
                data_coding_auto,
                sar_ref_num,
            ),
            res matches Ok(pdus) ==> pdus@.len() == parts@.len() && forall|k: int|
                0 <= k < pdus@.len() ==> header_fields(
                    #[trigger] pdus@[k]@,
                    segment_command_id(dest@),
                    0,
                    segment_sequence(seq_num, k),
                ),
    {
        let ghost r = request_text(source@, src_ton@, src_npi@, dest@, dest_ton@, dest_npi@, mode@, pid@, dcs@, validity@, dlr);
        let ghost ps = parts@.map_values(|p: Vec<u8>| p@);
        let c = SegmentCommon {
            kind: split_kind_from_name(mode),
            dests: split_destinations(dest),
            data_coding: parse_u8_or(dcs, data_coding_auto),
            protocol_id: parse_u8_or(pid, 0),
            source_ton: parse_u8_or(src_ton, 0),
            source_npi: parse_u8_or(src_npi, 0),
            dest_ton: parse_u8_or(dest_ton, 0),
            dest_npi: parse_u8_or(dest_npi, 0),
            registered: if dlr { 1 } else { 0 },
        };
        let total = parts.len();
        let mut pdus: Vec<Vec<u8>> = Vec::new();
        assert(pdus@.map_values(|p: Vec<u8>| p@) =~= Seq::<Seq<u8>>::empty());
        let mut seq = seq_num;
        let mut i: usize = 0;
        while i < total
            invariant
                total == parts@.len(),
                ps == parts@.map_values(|p: Vec<u8>| p@),
                i <= total,
                pdus@.len() == i,
                seq == segment_sequence(seq_num, i as int),
                r == request_text(source@, src_ton@, src_npi@, dest@, dest_ton@, dest_npi@, mode@, pid@, dcs@, validity@, dlr),
                common_fields(c, r, data_coding_auto),
                submit_pdus_prefix(r, ps, i as int, seq_num, data_coding_auto, sar_ref_num)
                    == Ok::<Seq<Seq<u8>>, Seq<char>>(pdus@.map_values(|p: Vec<u8>| p@)),
                forall|k: int|
                    0 <= k < i ==> header_fields(
                        #[trigger] pdus@[k]@,
                        segment_command_id(dest@),
                        0,
                        segment_sequence(seq_num, k),
                    ),
            decreases total - i,
        {
            assert(ps[i as int] == parts@[i as int]@);
            let ghost prev = pdus@.map_values(|p: Vec<u8>| p@);
            let pdu = match segment_pdu_bytes(source, dest, validity, &c, &parts[i], i, total, seq_num, seq, data_coding_auto, sar_ref_num, Ghost(r)) {
                Ok(p) => p,
                Err(msg) => {
                    assert(submit_pdus_prefix(r, ps, i + 1, seq_num, data_coding_auto, sar_ref_num)
                        == Err::<Seq<Seq<u8>>, Seq<char>>(msg@));
                    proof {
                        lemma_prefix_error_persists(r, ps, i as int + 1, seq_num, data_coding_auto, sar_ref_num);
                    }
                    return Err(msg);
                },
            };
            pdus.push(pdu);
            assert(pdus@.map_values(|p: Vec<u8>| p@) =~= prev.push(
                segment_pdu(r, ps[i as int], i as int, ps.len() as int, seq_num, data_coding_auto, sar_ref_num)->Ok_0,
            ));
            seq = seq.wrapping_add(1);
            i = i + 1;
        }
        assert(ps.len() == total);
        Ok(pdus)
    }

    /// Splits the message as the named encoding and mode ask and builds one
    /// request per segment, numbered upward from `seq_num`. The result is the
    /// outcome of `build_submit_pdus` for the segments that the splitter made,
    /// as `split_outcome` describes them; the UDH reference and the SAR
    /// reference number are random.
    #[verifier::spinoff_prover]
    pub fn create_submit_pdus(
        seq_num: u32,
        source: &str,
        src_ton: &str,
        src_npi: &str,
        dest: &str,
        dest_ton: &str,
        dest_npi: &str,
        message: &str,
        encoding: &str,
        mode: &str,
        pid: &str,
        dcs: &str,
        validity: &str,
        dlr: bool,
    ) -> (res: Result<Vec<Vec<u8>>, String>)
        ensures
            submit_outcome_allowed(
                request_text(source@, src_ton@, src_npi@, dest@, dest_ton@, dest_npi@, mode@, pid@, dcs@, validity@, dlr),
                message@,
                encoding@,
                seq_num,
                pdus_view(res),
            ),
    {
        let enc_enum = encoding_from_name(encoding);
        let mode_enum = split_kind_from_name(mode);
        let (parts, data_coding_auto) = match split_message(message, enc_enum, mode_enum) {
            Ok(x) => x,
            Err(e) => {
                let mut msg = String::from_str("Split error: ");
                msg.append(e.as_str());
                return Err(msg);
            },
        };
        let sar_ref_num = random_u16();
        let res = Self::build_submit_pdus(
            seq_num,
            source,
            src_ton,
            src_npi,
            dest,
            dest_ton,
            dest_npi,
            mode,
            pid,
            dcs,
            validity,
            dlr,
            parts,
            data_coding_auto,
            sar_ref_num,
        );
        proof {
            let r = request_text(source@, src_ton@, src_npi@, dest@, dest_ton@, dest_npi@, mode@, pid@, dcs@, validity@, dlr);
            let ps = parts@.map_values(|p: Vec<u8>| p@);
            assert(ps.len() == parts@.len());
            assert(pdus_view(res) == submit_pdus_outcome(r, ps, seq_num, data_coding_auto, sar_ref_num));
        }
        res
    }

    /// The query_sm request for a message id and source address; TON and NPI are
    /// read as numbers (0 when they are not). The crate refuses a message id over
    /// 64 bytes or a source over 21, and this function then panics; such inputs
    /// are left out.
    pub fn create_query_sm_request(seq_num: u32, msg_id: &str, source: &str, ton: &str, npi: &str) -> (pdu: Vec<u8>)
        requires
            encode_utf8(msg_id@).len() <= 64,
            encode_utf8(source@).len() <= 21,
        ensures
            pdu@ == query_sm_bytes(seq_num, msg_id@, source@, u8_or(ton@, 0), u8_or(npi@, 0)),
            header_fields(pdu@, command_id::QUERY_SM, 0, seq_num),
    {
        let t = parse_u8_or(ton, 0);
        let n = parse_u8_or(npi, 0);
        match encode_query_sm(seq_num, msg_id, source, t, n) {
            Ok(pdu) => pdu,
            Err(_) => Vec::new(),
        }
    }

    /// The cancel_sm request, with service type `SMPP`; TON and NPI are read as
    /// numbers (0 when they are not).
    pub fn create_cancel_sm_request(
        seq_num: u32,
        msg_id: &str,
        source: &str,
        src_ton: &str,
        src_npi: &str,
        dest: &str,
        dest_ton: &str,
        dest_npi: &str,
    ) -> (pdu: Vec<u8>)
        ensures
            pdu@ == cancel_sm_bytes(
                seq_num,
                "SMPP"@,
                msg_id@,
                source@,
                u8_or(src_ton@, 0),
                u8_or(src_npi@, 0),
                dest@,
                u8_or(dest_ton@, 0),
                u8_or(dest_npi@, 0),
            ),
            header_fields(pdu@, command_id::CANCEL_SM, 0, seq_num),
    {
        encode_cancel_sm(
            seq_num,
            "SMPP",
            msg_id,
            source,
            parse_u8_or(src_ton, 0),
            parse_u8_or(src_npi, 0),
            dest,
            parse_u8_or(dest_ton, 0),
            parse_u8_or(dest_npi, 0),
        )
    }

    /// The replace_sm request carrying the UTF-8 bytes of the new message; TON and
    /// NPI are read as numbers (0 when they are not).
    pub fn create_replace_sm_request(
        seq_num: u32,
        msg_id: &str,
        source: &str,
        src_ton: &str,
        src_npi: &str,
        message: &str,
    ) -> (pdu: Vec<u8>)
        ensures
            pdu@ == replace_sm_bytes(
                seq_num,
                msg_id@,
                source@,
                u8_or(src_ton@, 0),
                u8_or(src_npi@, 0),
                encode_utf8(message@),
            ),
            header_fields(pdu@, command_id::REPLACE_SM, 0, seq_num),
    {
        let bytes = message.as_bytes();
        let mut v: Vec<u8> = Vec::new();
        crate::wire::push_bytes(&mut v, bytes);
        assert(v@ =~= encode_utf8(message@));
        encode_replace_sm(seq_num, msg_id, source, parse_u8_or(src_ton, 0), parse_u8_or(src_npi, 0), v)
    }
}

/// Once a prefix of the segments fails, every longer prefix fails with the same
/// error.
proof fn lemma_prefix_error_persists(
    r: SubmitRequestText,
    parts: Seq<Seq<u8>>,
    n: int,
    start: u32,
    data_coding_auto: u8,
    sar_ref: u16,
)
    requires
        0 <= n <= parts.len(),
        submit_pdus_prefix(r, parts, n, start, data_coding_auto, sar_ref) is Err,
    ensures
        submit_pdus_prefix(r, parts, parts.len() as int, start, data_coding_auto, sar_ref)
            == submit_pdus_prefix(r, parts, n, start, data_coding_auto, sar_ref),
    decreases parts.len() - n,
{
    if n < parts.len() {
        lemma_prefix_error_persists(r, parts, n + 1, start, data_coding_auto, sar_ref);
    }
}

/// The PDUs for a prefix of the segments number as many as the prefix.
proof fn lemma_prefix_count(
    r: SubmitRequestText,
    parts: Seq<Seq<u8>>,
    n: int,
    start: u32,
    data_coding_auto: u8,
    sar_ref: u16,
)
    requires
        0 <= n,
    ensures
        submit_pdus_prefix(r, parts, n, start, data_coding_auto, sar_ref) matches Ok(pdus) ==> pdus.len() == n,
    decreases n,
{
    if n > 0 {
        lemma_prefix_count(r, parts, n - 1, start, data_coding_auto, sar_ref);
    }
}

/// The PDU of segment `k` in a successful prefix is that segment's PDU.
proof fn lemma_prefix_at(
    r: SubmitRequestText,
    parts: Seq<Seq<u8>>,
    n: int,
    start: u32,
    data_coding_auto: u8,
    sar_ref: u16,
    k: int,
)
    requires
        0 <= k < n,
        submit_pdus_prefix(r, parts, n, start, data_coding_auto, sar_ref) is Ok,
    ensures
        segment_pdu(r, parts[k], k, parts.len() as int, start, data_coding_auto, sar_ref) == Ok::<Seq<u8>, Seq<char>>(
            submit_pdus_prefix(r, parts, n, start, data_coding_auto, sar_ref)->Ok_0[k],
        ),
    decreases n,
{
    lemma_prefix_count(r, parts, n - 1, start, data_coding_auto, sar_ref);
    if k < n - 1 {
        lemma_prefix_at(r, parts, n - 1, start, data_coding_auto, sar_ref, k);
    }
}

/// Where the ESM class stands in the PDUs of a submission: in a submit_multi
/// when several destinations are given, else in a submit_sm.
pub open spec fn request_esm_offset(r: SubmitRequestText) -> int {
    let dests = destination_list(r.dest);
    if dests.len() > 1 {
        submit_multi_esm_offset(r.source, dests)
    } else {
        submit_sm_esm_offset(r.source, r.dest)
    }
}

/// The ESM class byte of every PDU of a submission flags a user data header
/// (0x40) exactly when the message went out as two or more UDH segments, so that
/// the handset reads the concatenation header as a header; otherwise it is 0.
pub proof fn law_udh_segments_flag_their_header(
    r: SubmitRequestText,
    parts: Seq<Seq<u8>>,
    start: u32,
    data_coding_auto: u8,
    sar_ref: u16,
)
    requires
        submit_pdus_outcome(r, parts, start, data_coding_auto, sar_ref) is Ok,
    ensures
        forall|k: int|
            0 <= k < parts.len() ==> {
                let pdu = #[trigger] submit_pdus_outcome(r, parts, start, data_coding_auto, sar_ref)->Ok_0[k];
                &&& pdu.len() > request_esm_offset(r)
                &&& pdu[request_esm_offset(r)] == (if split_kind_named(r.mode) == SplitKind::Udh && parts.len()
                    >= 2 {
                    0x40u8
                } else {
                    0u8
                })
            },
{
    assert forall|k: int| 0 <= k < parts.len() implies {
        let pdu = #[trigger] submit_pdus_outcome(r, parts, start, data_coding_auto, sar_ref)->Ok_0[k];
        &&& pdu.len() > request_esm_offset(r)
        &&& pdu[request_esm_offset(r)] == (if split_kind_named(r.mode) == SplitKind::Udh && parts.len() >= 2 {
            0x40u8
        } else {
            0u8
        })
    } by {
        lemma_prefix_at(r, parts, parts.len() as int, start, data_coding_auto, sar_ref, k);
        let kind = split_kind_named(r.mode);
        let dests = destination_list(r.dest);
        let seq_num = segment_sequence(start, k);
        let tlvs = segment_tlvs(kind, parts[k], k, parts.len() as int, sar_ref);
        if dests.len() > 1 {
            law_submit_multi_esm_class_byte(SubmitMultiSpec {
                sequence_number: seq_num,
                source_addr: r.source,
                destinations: dests,
                dest_addr_ton: u8_or(r.dest_ton, 0),
                dest_addr_npi: u8_or(r.dest_npi, 0),
                source_addr_ton: u8_or(r.src_ton, 0),
                source_addr_npi: u8_or(r.src_npi, 0),
                esm_class: segment_esm_class(kind, parts.len() as int),
                protocol_id: u8_or(r.pid, 0),
                validity_period: r.validity,
                registered_delivery: if r.dlr { 1 } else { 0 },
                data_coding: u8_or(r.dcs, data_coding_auto),
                short_message: segment_short_message(kind, parts[k]),
                optional_params: tlvs,
            });
        } else {
            law_submit_sm_esm_class_byte(SubmitSmSpec {
                sequence_number: seq_num,
                source_addr: r.source,
                dest_addr: r.dest,
                source_addr_ton: u8_or(r.src_ton, 0),
                source_addr_npi: u8_or(r.src_npi, 0),
                dest_addr_ton: u8_or(r.dest_ton, 0),
                dest_addr_npi: u8_or(r.dest_npi, 0),
                esm_class: segment_esm_class(kind, parts.len() as int),
                protocol_id: u8_or(r.pid, 0),
                validity_period: r.validity,
                registered_delivery: if r.dlr { 1 } else { 0 },
                data_coding: u8_or(r.dcs, data_coding_auto),
                short_message: segment_short_message(kind, parts[k]),
                optional_params: tlvs,
            });
        }
    }
}

/// A message sent in UDH mode that does not fit one segment goes out with the
/// UDH indicator (0x40) in the ESM class of every PDU.
pub proof fn law_long_udh_message_flags_every_pdu(
    r: SubmitRequestText,
    message: Seq<char>,
    encoding: Seq<char>,
    seq_num: u32,
    res: Result<Seq<Seq<u8>>, Seq<char>>,
)
    requires
        submit_outcome_allowed(r, message, encoding, seq_num, res),
        split_kind_named(r.mode) == SplitKind::Udh,
        !fits_one_segment(message, encoding_named(encoding), split_kind_named(r.mode)),
        res is Ok,
    ensures
        forall|k: int|
            0 <= k < res->Ok_0.len() ==> (#[trigger] res->Ok_0[k]).len() > request_esm_offset(r)
                && res->Ok_0[k][request_esm_offset(r)] == 0x40,
{
    if !submit_split_fails(message, encoding) {
        let (parts, dc, sar_ref) = choose|parts: Seq<Seq<u8>>, dc: u8, sar_ref: u16|
            #![trigger submit_pdus_outcome(r, parts, seq_num, dc, sar_ref)]
            parts.len() >= 1 && dc == data_coding_of(encoding_named(encoding)) && split_outcome(
                parts,
                message,
                encoding_named(encoding),
                split_kind_named(r.mode),
            ) && res == submit_pdus_outcome(r, parts, seq_num, dc, sar_ref);
        law_long_text_is_several_segments(parts, message, encoding_named(encoding), split_kind_named(r.mode));
        law_one_pdu_per_segment(r, parts, seq_num, dc, sar_ref);
        law_udh_segments_flag_their_header(r, parts, seq_num, dc, sar_ref);
        assert forall|k: int| 0 <= k < res->Ok_0.len() implies (#[trigger] res->Ok_0[k]).len() > request_esm_offset(r)
            && res->Ok_0[k][request_esm_offset(r)] == 0x40 by {
            assert(submit_pdus_outcome(r, parts, seq_num, dc, sar_ref)->Ok_0[k] == res->Ok_0[k]);
        }
    }
}

/// Each PDU of a submission to a single destination is a submit_sm that holds
/// the request's fields in their roles: numbered upward from `start`, the source
/// with its TON and NPI, then the destination with its TON and NPI (numbers read
/// as in the user interface), the UDH indicator when the message went out as two
/// or more UDH segments, the protocol id, the validity period, registered
/// delivery when a receipt is asked for, the data coding (the splitter's unless
/// one is given), and the segment itself as short message (nothing in payload
/// mode).
#[verifier::spinoff_prover]
pub proof fn law_segment_submit_sm_fields(
    r: SubmitRequestText,
    parts: Seq<Seq<u8>>,
    start: u32,
    data_coding_auto: u8,
    sar_ref: u16,
)
    requires
        submit_pdus_outcome(r, parts, start, data_coding_auto, sar_ref) is Ok,
        destination_list(r.dest).len() <= 1,
    ensures
        forall|k: int|
            0 <= k < parts.len() ==> {
                let p = #[trigger] submit_pdus_outcome(r, parts, start, data_coding_auto, sar_ref)->Ok_0[k];
                let d = 20 + encode_utf8(r.source).len() as int;
                let e = d + 3 + encode_utf8(r.dest).len() as int;
                let g = e + 5 + encode_utf8(r.validity).len() as int;
                let kind = split_kind_named(r.mode);
                &&& u32_at(p, 4) == command_id::SUBMIT_SM
                &&& u32_at(p, 12) == ((start as int + k) % 0x1_0000_0000) as u32
                &&& p[17] == codec_ton_byte(u8_or(r.src_ton, 0))
                &&& p[18] == codec_npi_byte(u8_or(r.src_npi, 0))
                &&& c_string_at(p, 19, r.source)
                &&& p[d] == codec_ton_byte(u8_or(r.dest_ton, 0))
                &&& p[d + 1] == codec_npi_byte(u8_or(r.dest_npi, 0))
                &&& c_string_at(p, d + 2, r.dest)
                &&& p[e] == (if kind == SplitKind::Udh && parts.len() >= 2 {
                    0x40u8
                } else {
                    0u8
                })
                &&& p[e + 1] == u8_or(r.pid, 0)
                &&& c_string_at(p, e + 4, r.validity)
                &&& p[g] == (if r.dlr {
                    1u8
                } else {
                    0u8
                })
                &&& p[g + 2] == u8_or(r.dcs, data_coding_auto)
                &&& (kind == SplitKind::Payload ==> p[g + 4] == 0)
                &&& (kind != SplitKind::Payload ==> p.subrange(g + 5, g + 5 + parts[k].len()) == parts[k])
            },
{
    assert forall|k: int| 0 <= k < parts.len() implies {
        let p = #[trigger] submit_pdus_outcome(r, parts, start, data_coding_auto, sar_ref)->Ok_0[k];
        let d = 20 + encode_utf8(r.source).len() as int;
        let e = d + 3 + encode_utf8(r.dest).len() as int;
        let g = e + 5 + encode_utf8(r.validity).len() as int;
        let kind = split_kind_named(r.mode);
        &&& u32_at(p, 4) == command_id::SUBMIT_SM
        &&& u32_at(p, 12) == ((start as int + k) % 0x1_0000_0000) as u32
        &&& p[17] == codec_ton_byte(u8_or(r.src_ton, 0))
        &&& p[18] == codec_npi_byte(u8_or(r.src_npi, 0))
        &&& c_string_at(p, 19, r.source)
        &&& p[d] == codec_ton_byte(u8_or(r.dest_ton, 0))
        &&& p[d + 1] == codec_npi_byte(u8_or(r.dest_npi, 0))
        &&& c_string_at(p, d + 2, r.dest)
        &&& p[e] == (if kind == SplitKind::Udh && parts.len() >= 2 {
            0x40u8
        } else {
            0u8
        })
        &&& p[e + 1] == u8_or(r.pid, 0)
        &&& c_string_at(p, e + 4, r.validity)
        &&& p[g] == (if r.dlr {
            1u8
        } else {
            0u8
        })
        &&& p[g + 2] == u8_or(r.dcs, data_coding_auto)
        &&& (kind == SplitKind::Payload ==> p[g + 4] == 0)
        &&& (kind != SplitKind::Payload ==> p.subrange(g + 5, g + 5 + parts[k].len()) == parts[k])
    } by {
        lemma_prefix_at(r, parts, parts.len() as int, start, data_coding_auto, sar_ref, k);
        let kind = split_kind_named(r.mode);
        let f = SubmitSmSpec {
            sequence_number: segment_sequence(start, k),
            source_addr: r.source,
            dest_addr: r.dest,
            source_addr_ton: u8_or(r.src_ton, 0),
            source_addr_npi: u8_or(r.src_npi, 0),
            dest_addr_ton: u8_or(r.dest_ton, 0),
            dest_addr_npi: u8_or(r.dest_npi, 0),
            esm_class: segment_esm_class(kind, parts.len() as int),
            protocol_id: u8_or(r.pid, 0),
            validity_period: r.validity,
            registered_delivery: if r.dlr { 1 } else { 0 },
            data_coding: u8_or(r.dcs, data_coding_auto),
            short_message: segment_short_message(kind, parts[k]),
            optional_params: segment_tlvs(kind, parts[k], k, parts.len() as int, sar_ref),
        };
        law_submit_sm_request_fields(f);
    }
}

/// One PDU per segment: a submission that succeeds gives exactly as many PDUs as
/// the message has segments.
pub proof fn law_one_pdu_per_segment(
    r: SubmitRequestText,
    parts: Seq<Seq<u8>>,
    start: u32,
    data_coding_auto: u8,
    sar_ref: u16,
)
    ensures
        submit_pdus_outcome(r, parts, start, data_coding_auto, sar_ref) matches Ok(pdus) ==> pdus.len()
            == parts.len(),
{
    lemma_prefix_count(r, parts, parts.len() as int, start, data_coding_auto, sar_ref);
}

/// A message too long for one segment is sent as several PDUs, one per
/// segment.
pub proof fn law_long_message_is_several_pdus(
    r: SubmitRequestText,
    message: Seq<char>,
    encoding: Seq<char>,
    seq_num: u32,
    res: Result<Seq<Seq<u8>>, Seq<char>>,
)
    requires
        submit_outcome_allowed(r, message, encoding, seq_num, res),
        !fits_one_segment(message, encoding_named(encoding), split_kind_named(r.mode)),
        res is Ok,
    ensures
        res->Ok_0.len() >= 2,
{
    if submit_split_fails(message, encoding) {
    } else {
        let (parts, dc, sar_ref) = choose|parts: Seq<Seq<u8>>, dc: u8, sar_ref: u16|
            #![trigger submit_pdus_outcome(r, parts, seq_num, dc, sar_ref)]
            parts.len() >= 1 && dc == data_coding_of(encoding_named(encoding)) && split_outcome(
                parts,
                message,
                encoding_named(encoding),
                split_kind_named(r.mode),
            ) && res == submit_pdus_outcome(r, parts, seq_num, dc, sar_ref);
        law_long_text_is_several_segments(parts, message, encoding_named(encoding), split_kind_named(r.mode));
        law_one_pdu_per_segment(r, parts, seq_num, dc, sar_ref);
    }
}

/// A message sent as one payload is one PDU, whatever its length.
pub proof fn law_payload_is_one_pdu(
    r: SubmitRequestText,
    message: Seq<char>,
    encoding: Seq<char>,
    seq_num: u32,
    res: Result<Seq<Seq<u8>>, Seq<char>>,
)
    requires
        submit_outcome_allowed(r, message, encoding, seq_num, res),
        split_kind_named(r.mode) == SplitKind::Payload,
        res is Ok,
    ensures
        res->Ok_0.len() == 1,
{
    let (parts, dc, sar_ref) = choose|parts: Seq<Seq<u8>>, dc: u8, sar_ref: u16|
        #![trigger submit_pdus_outcome(r, parts, seq_num, dc, sar_ref)]
        parts.len() >= 1 && dc == data_coding_of(encoding_named(encoding)) && split_outcome(
            parts,
            message,
            encoding_named(encoding),
            split_kind_named(r.mode),
        ) && res == submit_pdus_outcome(r, parts, seq_num, dc, sar_ref);
    law_one_pdu_per_segment(r, parts, seq_num, dc, sar_ref);
}

/// Every destination of a request is a non-empty address.
pub proof fn law_destinations_non_empty(dest: Seq<char>)
    ensures
        forall|i: int| 0 <= i < destination_list(dest).len() ==> #[trigger] destination_list(dest)[i].len() > 0,
{
    lemma_fields_non_empty(dest, 0);
}

#[verifier::spinoff_prover]
proof fn lemma_fields_non_empty(s: Seq<char>, start: int)
    ensures
        forall|i: int| 0 <= i < dest_fields_from(s, start).len() ==> #[trigger] dest_fields_from(s, start)[i].len()
            > 0,
    decreases s.len() - start,
{
    if 0 <= start <= s.len() {
        match char_index_from(s, ',', start) {
            Some(j) => {
                lemma_char_index_from_bounds(s, ',', start);
                lemma_fields_non_empty(s, j + 1);
                let head = kept(trim(s.subrange(start, j)));
                let rest = dest_fields_from(s, j + 1);
                assert(dest_fields_from(s, start) == head + rest);
                assert forall|i: int| 0 <= i < dest_fields_from(s, start).len() implies #[trigger] dest_fields_from(
                    s,
                    start,
                )[i].len() > 0 by {
                    if i < head.len() {
                        assert(dest_fields_from(s, start)[i] == head[i]);
                    } else {
                        assert(dest_fields_from(s, start)[i] == rest[i - head.len()]);
                    }
                }
            },
            None => {},
        }
    }
}

/// A numeric field reads back what was written: the decimal text of a byte
/// gives that byte, whatever the fallback.
pub proof fn law_byte_field_reads_back(v: u8, default: u8)
    ensures
        u8_or(decimal(v as nat), default) == v,
{
    law_decimal_parses_back(v as nat, 255);
}

/// The segment PDUs of a one-segment message do not depend on the SAR
/// reference.
proof fn lemma_one_segment_ignores_sar_ref(
    r: SubmitRequestText,
    part: Seq<u8>,
    seq_num: u32,
    dc: u8,
    a: u16,
    b: u16,
)
    ensures
        submit_pdus_outcome(r, seq![part], seq_num, dc, a) == submit_pdus_outcome(r, seq![part], seq_num, dc, b),
{
    assert(segment_tlvs(split_kind_named(r.mode), part, 0, 1, a) == segment_tlvs(split_kind_named(r.mode), part, 0, 1, b));
    assert(submit_pdus_prefix(r, seq![part], 0, seq_num, dc, a) == submit_pdus_prefix(r, seq![part], 0, seq_num, dc, b));
}

/// A message that fits one segment is submitted deterministically: the result
/// is the PDU (or the error) for its encoded bytes as the only segment, with
/// the encoding's data coding, under the first sequence number.
pub proof fn law_short_message_is_one_known_pdu(
    r: SubmitRequestText,
    message: Seq<char>,
    encoding: Seq<char>,
    seq_num: u32,
    res: Result<Seq<Seq<u8>>, Seq<char>>,
)
    requires
        submit_outcome_allowed(r, message, encoding, seq_num, res),
        !submit_split_fails(message, encoding),
        fits_one_segment(message, encoding_named(encoding), split_kind_named(r.mode)),
    ensures
        res == submit_pdus_outcome(
            r,
            seq![encoded_text(message, encoding_named(encoding))],
            seq_num,
            data_coding_of(encoding_named(encoding)),
            0,
        ),
{
    let (parts, dc, sar_ref) = choose|parts: Seq<Seq<u8>>, dc: u8, sar_ref: u16|
        #![trigger submit_pdus_outcome(r, parts, seq_num, dc, sar_ref)]
        parts.len() >= 1 && dc == data_coding_of(encoding_named(encoding)) && split_outcome(
            parts,
            message,
            encoding_named(encoding),
            split_kind_named(r.mode),
        ) && res == submit_pdus_outcome(r, parts, seq_num, dc, sar_ref);
    lemma_one_segment_ignores_sar_ref(r, encoded_text(message, encoding_named(encoding)), seq_num, dc, sar_ref, 0);
}

} // verus!
