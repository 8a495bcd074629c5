//! The PDU encoders and the message splitter of the `smpp-codec` crate, reached
//! through plain-valued request descriptions. The wrappers here are trusted:
//! their contracts state the bytes each encoder writes, as the crate's source
//! shows them, and what holds of every split.
use vstd::prelude::*;
use crate::bind::BindMode;
use crate::wire::{
    u32_at, header, c_string, lemma_header_read_back, c_string_at, lemma_prefix_of_sum, lemma_piece_read,
    lemma_c_string_read,
};
use crate::common::command_id;
use crate::text::{decimal};
use crate::gsm_encoding::{gsm_error_message, gsm_encode, latin1_encode, ucs2_encode};
use vstd::utf8::encode_utf8;
use smpp_codec::common::{Npi, Ton, BindMode as CodecMode};
use smpp_codec::splitter::{EncodingType, MessageSplitter, SplitMode};
use smpp_codec::pdus::{SubmitSmRequest, SubmitMulti, Destination};
use smpp_codec::tlv::Tlv;

verus! {

/// One optional parameter (TLV): its tag and value bytes.
#[derive(Debug, Clone)]
pub struct TlvParam {
    pub tag: u16,
    pub value: Vec<u8>,
}

/// The tag and value of each optional parameter, in order.
pub open spec fn tlvs_view(tlvs: Seq<TlvParam>) -> Seq<(u16, Seq<u8>)> {
    tlvs.map_values(|t: TlvParam| (t.tag, t.value@))
}

/// The fields of a submit_sm request that this client sets; the others keep the
/// crate's defaults (empty service type, schedule time, priority 0, replace flag
/// 0, default message id 0). TON and NPI are raw values, read by the crate's
/// `Ton::from` and `Npi::from`.
pub struct SubmitSmFields {
    pub sequence_number: u32,
    pub source_addr: String,
    pub dest_addr: String,
    pub source_addr_ton: u8,
    pub source_addr_npi: u8,
    pub dest_addr_ton: u8,
    pub dest_addr_npi: u8,
    pub esm_class: u8,
    pub protocol_id: u8,
    pub validity_period: String,
    pub registered_delivery: u8,
    pub data_coding: u8,
    pub short_message: Vec<u8>,
    pub optional_params: Vec<TlvParam>,
}

/// A submit_sm request description, as values.
pub struct SubmitSmSpec {
    pub sequence_number: u32,
    pub source_addr: Seq<char>,
    pub dest_addr: Seq<char>,
    pub source_addr_ton: u8,
    pub source_addr_npi: u8,
    pub dest_addr_ton: u8,
    pub dest_addr_npi: u8,
    pub esm_class: u8,
    pub protocol_id: u8,
    pub validity_period: Seq<char>,
    pub registered_delivery: u8,
    pub data_coding: u8,
    pub short_message: Seq<u8>,
    pub optional_params: Seq<(u16, Seq<u8>)>,
}

impl View for SubmitSmFields {
    type V = SubmitSmSpec;

    open spec fn view(&self) -> SubmitSmSpec {
        SubmitSmSpec {
            sequence_number: self.sequence_number,
            source_addr: self.source_addr@,
            dest_addr: self.dest_addr@,
            source_addr_ton: self.source_addr_ton,
            source_addr_npi: self.source_addr_npi,
            dest_addr_ton: self.dest_addr_ton,
            dest_addr_npi: self.dest_addr_npi,
            esm_class: self.esm_class,
            protocol_id: self.protocol_id,
            validity_period: self.validity_period@,
            registered_delivery: self.registered_delivery,
            data_coding: self.data_coding,
            short_message: self.short_message@,
            optional_params: tlvs_view(self.optional_params@),
        }
    }
}

/// The fields of a submit_multi request that this client sets: one SME address
/// per destination, all with the same TON and NPI.
pub struct SubmitMultiFields {
    pub sequence_number: u32,
    pub source_addr: String,
    pub destinations: Vec<String>,
    pub dest_addr_ton: u8,
    pub dest_addr_npi: u8,
    pub source_addr_ton: u8,
    pub source_addr_npi: u8,
    pub esm_class: u8,
    pub protocol_id: u8,
    pub validity_period: String,
    pub registered_delivery: u8,
    pub data_coding: u8,
    pub short_message: Vec<u8>,
    pub optional_params: Vec<TlvParam>,
}

/// A submit_multi request description, as values.
pub struct SubmitMultiSpec {
    pub sequence_number: u32,
    pub source_addr: Seq<char>,
    pub destinations: Seq<Seq<char>>,
    pub dest_addr_ton: u8,
    pub dest_addr_npi: u8,
    pub source_addr_ton: u8,
    pub source_addr_npi: u8,
    pub esm_class: u8,
    pub protocol_id: u8,
    pub validity_period: Seq<char>,
    pub registered_delivery: u8,
    pub data_coding: u8,
    pub short_message: Seq<u8>,
    pub optional_params: Seq<(u16, Seq<u8>)>,
}

impl View for SubmitMultiFields {
    type V = SubmitMultiSpec;

    open spec fn view(&self) -> SubmitMultiSpec {
        SubmitMultiSpec {
            sequence_number: self.sequence_number,
            source_addr: self.source_addr@,
            destinations: self.destinations@.map_values(|d: String| d@),
            dest_addr_ton: self.dest_addr_ton,
            dest_addr_npi: self.dest_addr_npi,
            source_addr_ton: self.source_addr_ton,
            source_addr_npi: self.source_addr_npi,
            esm_class: self.esm_class,
            protocol_id: self.protocol_id,
            validity_period: self.validity_period@,
            registered_delivery: self.registered_delivery,
            data_coding: self.data_coding,
            short_message: self.short_message@,
            optional_params: tlvs_view(self.optional_params@),
        }
    }
}

/// The header facts that every encoder of the crate writes: at least a header,
/// the command id at offset 4, the status at 8 and the sequence number at 12.
pub open spec fn header_fields(pdu: Seq<u8>, id: u32, status: u32, sequence_number: u32) -> bool {
    &&& pdu.len() >= 16
    &&& u32_at(pdu, 4) == id
    &&& u32_at(pdu, 8) == status
    &&& u32_at(pdu, 12) == sequence_number
}

/// The derived `Debug` text of `PduError::StringTooLong(field, max)`.
pub open spec fn string_too_long_text(field: Seq<char>, max: nat) -> Seq<char> {
    "StringTooLong(\""@ + field + "\", "@ + decimal(max) + ")"@
}

/// Whether a submit_sm description passes the crate's length checks (the
/// service type and schedule time being empty).
pub open spec fn submit_sm_fields_fit(f: SubmitSmSpec) -> bool {
    &&& encode_utf8(f.source_addr).len() <= 21
    &&& encode_utf8(f.dest_addr).len() <= 21
    &&& encode_utf8(f.validity_period).len() <= 17
    &&& f.short_message.len() <= 254
}

/// The `Debug` text of the crate's error for the first length check that a
/// submit_sm description fails.
pub open spec fn submit_sm_error_text(f: SubmitSmSpec) -> Seq<char> {
    if encode_utf8(f.source_addr).len() > 21 {
        string_too_long_text("source_addr"@, 21)
    } else if encode_utf8(f.dest_addr).len() > 21 {
        string_too_long_text("dest_addr"@, 21)
    } else if encode_utf8(f.validity_period).len() > 17 {
        string_too_long_text("validity_period"@, 17)
    } else {
        "InvalidLength"@
    }
}

/// The byte `Ton::from(v) as u8` of the crate: the value when it names a type
/// of number (0 to 6), else 0 (unknown).
pub open spec fn codec_ton_byte(v: u8) -> u8 {
    if v <= 6 {
        v
    } else {
        0
    }
}

/// The byte `Npi::from(v) as u8` of the crate: the value when it names a
/// numbering plan, else 0 (unknown).
pub open spec fn codec_npi_byte(v: u8) -> u8 {
    if v == 1 || v == 3 || v == 4 || v == 6 || v == 8 || v == 9 || v == 10 || v == 14 || v == 18 {
        v
    } else {
        0
    }
}

/// A header whose command length is the size of what follows plus 16, modulo
/// 2^32 (the crate computes it in `usize` and casts it).
pub open spec fn sized_pdu(command_id: u32, sequence_number: u32, body: Seq<u8>) -> Seq<u8> {
    header(((16 + body.len()) % 0x1_0000_0000) as u32, command_id, 0, sequence_number) + body
}

/// The bytes the crate writes for one TLV: tag and length big endian, then the
/// value; the length field holds the value's length modulo 2^16.
pub open spec fn tlv_bytes(t: (u16, Seq<u8>)) -> Seq<u8> {
    seq![
        (t.0 / 256) as u8,
        (t.0 % 256) as u8,
        ((t.1.len() % 0x1_0000) / 256) as u8,
        (t.1.len() % 256) as u8,
    ] + t.1
}

/// The bytes of a list of TLVs, in order.
pub open spec fn tlvs_bytes(tlvs: Seq<(u16, Seq<u8>)>) -> Seq<u8>
    decreases tlvs.len(),
{
    if tlvs.len() == 0 {
        Seq::empty()
    } else {
        tlvs_bytes(tlvs.drop_last()) + tlv_bytes(tlvs.last())
    }
}

/// The lengths that the crate counts for a list of TLVs: four bytes each plus
/// the length field's value.
pub open spec fn tlvs_counted_len(tlvs: Seq<(u16, Seq<u8>)>) -> int
    decreases tlvs.len(),
{
    if tlvs.len() == 0 {
        0
    } else {
        tlvs_counted_len(tlvs.drop_last()) + 4 + (tlvs.last().1.len() % 0x1_0000)
    }
}

/// A PDU whose command length the crate counts itself: `counted` bytes after the
/// header, modulo 2^32.
pub open spec fn counted_pdu(command_id: u32, sequence_number: u32, counted: int, body: Seq<u8>) -> Seq<u8> {
    header(((16 + counted) % 0x1_0000_0000) as u32, command_id, 0, sequence_number) + body
}

/// The body of a submit_sm before its TLVs: empty service type, source and
/// destination with their TON/NPI bytes, ESM class, protocol id, priority 0, an
/// empty schedule, the validity period, registered delivery, replace flag 0,
/// data coding, default message id 0, the message length and the message.
pub open spec fn submit_sm_fixed_body(f: SubmitSmSpec) -> Seq<u8> {
    c_string(Seq::empty()) + seq![codec_ton_byte(f.source_addr_ton), codec_npi_byte(f.source_addr_npi)]
        + c_string(f.source_addr) + seq![codec_ton_byte(f.dest_addr_ton), codec_npi_byte(f.dest_addr_npi)]
        + c_string(f.dest_addr) + seq![f.esm_class, f.protocol_id, 0u8] + c_string(Seq::empty()) + c_string(
        f.validity_period,
    ) + seq![f.registered_delivery, 0u8, f.data_coding, 0u8, (f.short_message.len() % 256) as u8]
        + f.short_message
}

/// What `SubmitSmRequest::encode` writes for a request description.
#[verifier::opaque]
pub open spec fn submit_sm_request_bytes(f: SubmitSmSpec) -> Seq<u8> {
    counted_pdu(
        command_id::SUBMIT_SM,
        f.sequence_number,
        submit_sm_fixed_body(f).len() + tlvs_counted_len(f.optional_params),
        submit_sm_fixed_body(f) + tlvs_bytes(f.optional_params),
    )
}

/// The bytes of the SME destinations of a submit_multi: flag 1, TON, NPI and
/// address of each.
pub open spec fn sme_destinations_bytes(ton: u8, npi: u8, addresses: Seq<Seq<char>>) -> Seq<u8>
    decreases addresses.len(),
{
    if addresses.len() == 0 {
        Seq::empty()
    } else {
        sme_destinations_bytes(ton, npi, addresses.drop_last()) + seq![1u8, codec_ton_byte(ton), codec_npi_byte(npi)]
            + c_string(addresses.last())
    }
}

/// The body of a submit_multi before its TLVs: empty service type, the source
/// with its TON/NPI bytes, the number of destinations (modulo 256) and each
/// destination, ESM class, protocol id, priority 0, an empty schedule, the
/// validity period, registered delivery, replace flag 0, data coding, default
/// message id 0, the message length (modulo 256) and the message.
pub open spec fn submit_multi_fixed_body(f: SubmitMultiSpec) -> Seq<u8> {
    c_string(Seq::empty()) + seq![codec_ton_byte(f.source_addr_ton), codec_npi_byte(f.source_addr_npi)]
        + c_string(f.source_addr) + seq![(f.destinations.len() % 256) as u8] + sme_destinations_bytes(
        f.dest_addr_ton,
        f.dest_addr_npi,
        f.destinations,
    ) + seq![f.esm_class, f.protocol_id, 0u8] + c_string(Seq::empty()) + c_string(f.validity_period) + seq![
        f.registered_delivery,
        0u8,
        f.data_coding,
        0u8,
        (f.short_message.len() % 256) as u8,
    ] + f.short_message
}

/// What `SubmitMulti::encode` writes for a request description.
#[verifier::opaque]
pub open spec fn submit_multi_bytes(f: SubmitMultiSpec) -> Seq<u8> {
    counted_pdu(
        command_id::SUBMIT_MULTI,
        f.sequence_number,
        submit_multi_fixed_body(f).len() + tlvs_counted_len(f.optional_params),
        submit_multi_fixed_body(f) + tlvs_bytes(f.optional_params),
    )
}

/// What `BindRequest::encode` writes for `BindRequest::new(sequence_number, mode,
/// system_id, password)`: system id, password and an empty system type, version
/// 0x34, TON and NPI 0 and an empty address range.
pub open spec fn bind_request_bytes(sequence_number: u32, mode: BindMode, system_id: Seq<char>, password: Seq<char>) -> Seq<u8> {
    sized_pdu(
        crate::bind::bind_command_id(mode),
        sequence_number,
        c_string(system_id) + c_string(password) + c_string(Seq::empty()) + seq![0x34u8, 0u8, 0u8] + c_string(
            Seq::empty(),
        ),
    )
}

/// What `QuerySmRequest::encode` writes for a query of `message_id` from
/// `source_addr` with the given raw TON and NPI.
pub open spec fn query_sm_bytes(sequence_number: u32, message_id: Seq<char>, source_addr: Seq<char>, ton: u8, npi: u8) -> Seq<u8> {
    sized_pdu(
        command_id::QUERY_SM,
        sequence_number,
        c_string(message_id) + seq![codec_ton_byte(ton), codec_npi_byte(npi)] + c_string(source_addr),
    )
}

/// What `CancelSmRequest::encode` writes for the given service type, message id,
/// addresses and raw TON/NPI values.
pub open spec fn cancel_sm_bytes(
    sequence_number: u32,
    service_type: Seq<char>,
    message_id: Seq<char>,
    source_addr: Seq<char>,
    source_ton: u8,
    source_npi: u8,
    dest_addr: Seq<char>,
    dest_ton: u8,
    dest_npi: u8,
) -> Seq<u8> {
    sized_pdu(
        command_id::CANCEL_SM,
        sequence_number,
        c_string(service_type) + c_string(message_id) + seq![codec_ton_byte(source_ton), codec_npi_byte(source_npi)]
            + c_string(source_addr) + seq![codec_ton_byte(dest_ton), codec_npi_byte(dest_npi)] + c_string(dest_addr),
    )
}

/// What `ReplaceSm::encode` writes for a replacement of `message_id` from
/// `source_addr` by `short_message`: empty schedule and validity, registered
/// delivery and default message id 0, the message length (modulo 256) and the
/// message.
pub open spec fn replace_sm_bytes(sequence_number: u32, message_id: Seq<char>, source_addr: Seq<char>, ton: u8, npi: u8, short_message: Seq<u8>) -> Seq<u8> {
    sized_pdu(
        command_id::REPLACE_SM,
        sequence_number,
        c_string(message_id) + seq![codec_ton_byte(ton), codec_npi_byte(npi)] + c_string(source_addr) + c_string(
            Seq::empty(),
        ) + c_string(Seq::empty()) + seq![0u8, 0u8, (short_message.len() % 256) as u8] + short_message,
    )
}

/// `SubmitSmRequest::new` with the described fields set, then `encode` into a
/// vector. Claimed from the crate's source: it fails, with the `Debug` text of
/// the crate's error, exactly on the length checks below (in that order; the
/// service type and schedule time are empty); otherwise the bytes are
/// `submit_sm_request_bytes` of the description and carry command id, status 0
/// and sequence number in the header.
#[verifier::external_body]
pub(crate) fn encode_submit_sm(f: SubmitSmFields) -> (res: Result<Vec<u8>, String>)
    ensures
        res is Ok <==> submit_sm_fields_fit(f@),
        res matches Err(e) ==> e@ == submit_sm_error_text(f@),
        res matches Ok(pdu) ==> pdu@ == submit_sm_request_bytes(f@) && header_fields(pdu@, command_id::SUBMIT_SM, 0, f.sequence_number),
{
    let mut req = SubmitSmRequest::new(f.sequence_number, f.source_addr, f.dest_addr, f.short_message);
    req.source_addr_ton = Ton::from(f.source_addr_ton);
    req.source_addr_npi = Npi::from(f.source_addr_npi);
    req.dest_addr_ton = Ton::from(f.dest_addr_ton);
    req.dest_addr_npi = Npi::from(f.dest_addr_npi);
    req.esm_class = f.esm_class;
    req.protocol_id = f.protocol_id;
    req.data_coding = f.data_coding;
    req.validity_period = f.validity_period;
    req.registered_delivery = f.registered_delivery;
    req.optional_params = f.optional_params.into_iter().map(|t| Tlv::new(t.tag, t.value)).collect();
    let mut pdu = Vec::new();
    req.encode(&mut pdu).map(|_| pdu).map_err(|e| format!("{:?}", e))
}

/// `SubmitMulti::new` with one `Destination::SmeAddress` per address and the
/// described fields set, then `encode` into a vector. Claimed from the crate's
/// source: it checks no field and writing into a vector cannot fail, so the
/// bytes are `submit_multi_bytes` of the description, with the header fields.
#[verifier::external_body]
pub(crate) fn encode_submit_multi(f: SubmitMultiFields) -> (pdu: Vec<u8>)
    ensures
        pdu@ == submit_multi_bytes(f@),
        header_fields(pdu@, command_id::SUBMIT_MULTI, 0, f.sequence_number),
{
    let dests = f.destinations.into_iter().map(|address| Destination::SmeAddress { ton: f.dest_addr_ton.into(), npi: f.dest_addr_npi.into(), address }).collect();
    let mut req = SubmitMulti::new(f.sequence_number, f.source_addr, dests, f.short_message);
    req.source_addr_ton = f.source_addr_ton.into();
    req.source_addr_npi = f.source_addr_npi.into();
    req.esm_class = f.esm_class;
    req.protocol_id = f.protocol_id;
    req.data_coding = f.data_coding;
    req.validity_period = f.validity_period;
    req.registered_delivery = f.registered_delivery;
    req.optional_params = f.optional_params.into_iter().map(|t| Tlv::new(t.tag, t.value)).collect();
    let mut pdu = Vec::new();
    let _ = req.encode(&mut pdu);
    pdu
}

/// `BindRequest::new(sequence_number, mode, system_id, password)` then `encode`.
/// Claimed from the crate's source: it fails exactly when the system id is over
/// 16 bytes or the password over 9 (the other strings are empty); otherwise the
/// bytes are `bind_request_bytes` of the arguments, with the mode's command id.
#[verifier::external_body]
pub(crate) fn encode_bind_request(sequence_number: u32, mode: BindMode, system_id: &str, password: &str) -> (res: Result<Vec<u8>, String>)
    ensures
        (encode_utf8(system_id@).len() <= 16 && encode_utf8(password@).len() <= 9) <==> res is Ok,
        res matches Ok(pdu) ==> pdu@ == bind_request_bytes(sequence_number, mode, system_id@, password@)
            && header_fields(pdu@, crate::bind::bind_command_id(mode), 0, sequence_number),
{
    let m = match mode { BindMode::Receiver => CodecMode::Receiver, BindMode::Transmitter => CodecMode::Transmitter, BindMode::Transceiver => CodecMode::Transceiver };
    let req = smpp_codec::pdus::BindRequest::new(sequence_number, m, system_id.to_string(), password.to_string());
    let mut pdu = Vec::new();
    req.encode(&mut pdu).map(|_| pdu).map_err(|e| format!("{:?}", e))
}

/// `UnbindRequest::new(sequence_number)` then `encode`: the crate writes a bare
/// 16-byte header (command id 6, status 0) and cannot fail.
#[verifier::external_body]
pub(crate) fn encode_unbind_request(sequence_number: u32) -> (pdu: Vec<u8>)
    ensures
        pdu@.len() == 16,
        u32_at(pdu@, 0) == 16,
        header_fields(pdu@, command_id::UNBIND, 0, sequence_number),
        pdu@ == header(16, command_id::UNBIND, 0, sequence_number),
{
    let mut pdu = Vec::new();
    let _ = smpp_codec::pdus::UnbindRequest::new(sequence_number).encode(&mut pdu);
    pdu
}

/// `EnquireLinkRequest::new(sequence_number)` then `encode`: a bare 16-byte
/// header (command id 0x15, status 0); it cannot fail.
#[verifier::external_body]
pub(crate) fn encode_enquire_link_request(sequence_number: u32) -> (pdu: Vec<u8>)
    ensures
        pdu@.len() == 16,
        u32_at(pdu@, 0) == 16,
        header_fields(pdu@, command_id::ENQUIRE_LINK, 0, sequence_number),
        pdu@ == header(16, command_id::ENQUIRE_LINK, 0, sequence_number),
{
    let mut pdu = Vec::new();
    let _ = smpp_codec::pdus::EnquireLinkRequest::new(sequence_number).encode(&mut pdu);
    pdu
}

/// `EnquireLinkResponse::new(sequence_number, status_name)` then `encode`, for
/// the status name `ESME_ROK` (code 0): a bare 16-byte header.
#[verifier::external_body]
pub(crate) fn encode_enquire_link_response(sequence_number: u32, status_name: &str) -> (pdu: Vec<u8>)
    requires
        status_name@ == "ESME_ROK"@,
    ensures
        pdu@.len() == 16,
        u32_at(pdu@, 0) == 16,
        header_fields(pdu@, command_id::ENQUIRE_LINK_RESP, 0, sequence_number),
        pdu@ == header(16, command_id::ENQUIRE_LINK_RESP, 0, sequence_number),
{
    let mut pdu = Vec::new();
    let _ = smpp_codec::pdus::EnquireLinkResponse::new(sequence_number, status_name).encode(&mut pdu);
    pdu
}

/// `DeliverSmResponse::new(sequence_number, status_name)` then `encode`, for the
/// status name `ESME_ROK` (code 0): the header and an empty message id (one NUL).
#[verifier::external_body]
pub(crate) fn encode_deliver_sm_response(sequence_number: u32, status_name: &str) -> (pdu: Vec<u8>)
    requires
        status_name@ == "ESME_ROK"@,
    ensures
        pdu@.len() == 17,
        u32_at(pdu@, 0) == 17,
        header_fields(pdu@, command_id::DELIVER_SM_RESP, 0, sequence_number),
        pdu@[16] == 0,
        pdu@ == header(17, command_id::DELIVER_SM_RESP, 0, sequence_number).push(0u8),
{
    let mut pdu = Vec::new();
    let _ = smpp_codec::pdus::DeliverSmResponse::new(sequence_number, status_name).encode(&mut pdu);
    pdu
}

/// `QuerySmRequest::new(sequence_number, message_id, source_addr)` with the TON
/// and NPI set from raw values, then `encode`. Claimed from the crate's source:
/// it fails exactly when the message id is over 64 bytes or the source address
/// over 21; otherwise the bytes are `query_sm_bytes` of the arguments.
#[verifier::external_body]
pub(crate) fn encode_query_sm(sequence_number: u32, message_id: &str, source_addr: &str, ton: u8, npi: u8) -> (res: Result<Vec<u8>, String>)
    ensures
        (encode_utf8(message_id@).len() <= 64 && encode_utf8(source_addr@).len() <= 21) <==> res is Ok,
        res matches Ok(pdu) ==> pdu@ == query_sm_bytes(sequence_number, message_id@, source_addr@, ton, npi)
            && header_fields(pdu@, command_id::QUERY_SM, 0, sequence_number),
{
    let mut req = smpp_codec::pdus::QuerySmRequest::new(sequence_number, message_id.to_string(), source_addr.to_string());
    (req.source_addr_ton, req.source_addr_npi) = (Ton::from(ton), Npi::from(npi));
    let mut pdu = Vec::new();
    req.encode(&mut pdu).map(|_| pdu).map_err(|e| format!("{:?}", e))
}

/// `CancelSmRequest::new(sequence_number, message_id, source_addr, dest_addr)`
/// with the service type and raw TON/NPI values set, then `encode`. Claimed from
/// the crate's source: it checks no field and cannot fail; the bytes are
/// `cancel_sm_bytes` of the arguments.
#[verifier::external_body]
pub(crate) fn encode_cancel_sm(
    sequence_number: u32,
    service_type: &str,
    message_id: &str,
    source_addr: &str,
    source_ton: u8,
    source_npi: u8,
    dest_addr: &str,
    dest_ton: u8,
    dest_npi: u8,
) -> (pdu: Vec<u8>)
    ensures
        pdu@ == cancel_sm_bytes(sequence_number, service_type@, message_id@, source_addr@, source_ton, source_npi, dest_addr@, dest_ton, dest_npi),
        header_fields(pdu@, command_id::CANCEL_SM, 0, sequence_number),
{
    let mut req = smpp_codec::pdus::CancelSmRequest::new(sequence_number, message_id.to_string(), source_addr.to_string(), dest_addr.to_string());
    req.service_type = service_type.to_string();
    (req.source_addr_ton, req.source_addr_npi) = (Ton::from(source_ton), Npi::from(source_npi));
    (req.dest_addr_ton, req.dest_addr_npi) = (Ton::from(dest_ton), Npi::from(dest_npi));
    let mut pdu = Vec::new();
    let _ = req.encode(&mut pdu);
    pdu
}

/// `ReplaceSm::new(sequence_number, message_id, source_addr, short_message)` with
/// raw TON/NPI values set, then `encode`. Claimed from the crate's source: it
/// checks no field and cannot fail; the bytes are `replace_sm_bytes` of the
/// arguments.
#[verifier::external_body]
pub(crate) fn encode_replace_sm(sequence_number: u32, message_id: &str, source_addr: &str, ton: u8, npi: u8, short_message: Vec<u8>) -> (pdu: Vec<u8>)
    ensures
        pdu@ == replace_sm_bytes(sequence_number, message_id@, source_addr@, ton, npi, short_message@),
        header_fields(pdu@, command_id::REPLACE_SM, 0, sequence_number),
{
    let mut req = smpp_codec::pdus::ReplaceSm::new(sequence_number, message_id.to_string(), source_addr.to_string(), short_message);
    (req.source_addr_ton, req.source_addr_npi) = (Ton::from(ton), Npi::from(npi));
    let mut pdu = Vec::new();
    let _ = req.encode(&mut pdu);
    pdu
}

/// Text encodings that the splitter knows.
#[derive(Debug, Clone, Copy, PartialEq, Eq, Structural)]
pub enum TextEncoding {
    Gsm7Bit,
    Latin1,
    Ucs2,
}

/// How long messages are carried.
#[derive(Debug, Clone, Copy, PartialEq, Eq, Structural)]
pub enum SplitKind {
    Udh,
    Sar,
    Payload,
}

/// The data coding that the splitter reports for an encoding.
pub open spec fn data_coding_of(e: TextEncoding) -> u8 {
    match e {
        TextEncoding::Gsm7Bit => 0x00,
        TextEncoding::Latin1 => 0x03,
        TextEncoding::Ucs2 => 0x08,
    }
}

/// The bytes of a text in an encoding, as the crate's `gsm_7bit_encode`,
/// `encode_8bit` and `encode_16bit` write them (nothing for a text that GSM
/// 7-bit cannot encode).
pub open spec fn encoded_text(text: Seq<char>, encoding: TextEncoding) -> Seq<u8> {
    match encoding {
        TextEncoding::Gsm7Bit => match gsm_encode(text) {
            Ok(b) => b,
            Err(_) => Seq::empty(),
        },
        TextEncoding::Latin1 => latin1_encode(text),
        TextEncoding::Ucs2 => ucs2_encode(text),
    }
}

/// Whether the splitter sends a text as a single segment: always in payload
/// mode, else when its encoding fits one message (160 GSM 7-bit or 140 other
/// bytes with UDH, 254 bytes with SAR).
pub open spec fn fits_one_segment(text: Seq<char>, encoding: TextEncoding, mode: SplitKind) -> bool {
    let n = encoded_text(text, encoding).len();
    match mode {
        SplitKind::Payload => true,
        SplitKind::Sar => n <= 254,
        SplitKind::Udh => if encoding == TextEncoding::Gsm7Bit {
            n <= 160
        } else {
            n <= 140
        },
    }
}

/// The bytes of several chunks, one after the other.
pub open spec fn concat_all(chunks: Seq<Seq<u8>>) -> Seq<u8>
    decreases chunks.len(),
{
    if chunks.len() == 0 {
        Seq::empty()
    } else {
        concat_all(chunks.drop_last()) + chunks.last()
    }
}

/// The most text bytes that one segment of a long message carries: 153 GSM
/// 7-bit or 134 other bytes with UDH, 254 with SAR.
pub open spec fn segment_capacity(encoding: TextEncoding, mode: SplitKind) -> int {
    match mode {
        SplitKind::Udh => if encoding == TextEncoding::Gsm7Bit {
            153
        } else {
            134
        },
        SplitKind::Sar => 254,
        SplitKind::Payload => 65535,
    }
}

/// The chunks that the splitter cuts from `bytes`, front to back: each as many
/// bytes as a segment holds (or what is left), one fewer in GSM 7-bit when the
/// cut would part an escape byte (0x1B) from the character it introduces.
pub open spec fn split_chunks(bytes: Seq<u8>, capacity: int, gsm: bool) -> Seq<Seq<u8>>
    decreases bytes.len(),
{
    if bytes.len() == 0 || capacity < 2 {
        Seq::empty()
    } else {
        let n = if capacity < bytes.len() {
            capacity
        } else {
            bytes.len() as int
        };
        let cut = if gsm && n < bytes.len() && bytes[n - 1] == 0x1B {
            n - 1
        } else {
            n
        };
        seq![bytes.subrange(0, cut)] + split_chunks(bytes.subrange(cut, bytes.len() as int), capacity, gsm)
    }
}

/// Chunks put back together from the front.
proof fn lemma_concat_all_front(x: Seq<u8>, rest: Seq<Seq<u8>>)
    ensures
        concat_all(seq![x] + rest) == x + concat_all(rest),
    decreases rest.len(),
{
    if rest.len() == 0 {
        assert(seq![x] + rest =~= seq![x]);
        assert(seq![x].drop_last() =~= Seq::<Seq<u8>>::empty());
        assert(seq![x].last() == x);
        assert(concat_all(Seq::<Seq<u8>>::empty()) =~= Seq::<u8>::empty());
        assert(Seq::<u8>::empty() + x =~= x);
        assert(concat_all(seq![x]) =~= x);
    } else {
        lemma_concat_all_front(x, rest.drop_last());
        assert((seq![x] + rest).drop_last() =~= seq![x] + rest.drop_last());
        assert((seq![x] + rest).last() == rest.last());
        assert(x + concat_all(rest.drop_last()) + rest.last() =~= x + (concat_all(rest.drop_last()) + rest.last()));
    }
}

/// The splitter's chunks are the bytes again, in order, each non-empty and no
/// longer than a segment holds.
pub proof fn law_split_chunks_cover(bytes: Seq<u8>, capacity: int, gsm: bool)
    requires
        capacity >= 2,
    ensures
        concat_all(split_chunks(bytes, capacity, gsm)) == bytes,
        forall|i: int|
            0 <= i < split_chunks(bytes, capacity, gsm).len() ==> 0 < #[trigger] split_chunks(
                bytes,
                capacity,
                gsm,
            )[i].len() <= capacity,
    decreases bytes.len(),
{
    if bytes.len() > 0 {
        let n = if capacity < bytes.len() {
            capacity
        } else {
            bytes.len() as int
        };
        let cut = if gsm && n < bytes.len() && bytes[n - 1] == 0x1B {
            n - 1
        } else {
            n
        };
        let head = bytes.subrange(0, cut);
        let tail = bytes.subrange(cut, bytes.len() as int);
        law_split_chunks_cover(tail, capacity, gsm);
        let cs = split_chunks(bytes, capacity, gsm);
        assert(cs == seq![head] + split_chunks(tail, capacity, gsm));
        lemma_concat_all_front(head, split_chunks(tail, capacity, gsm));
        assert(head + tail =~= bytes);
        assert forall|i: int| 0 <= i < cs.len() implies 0 < #[trigger] cs[i].len() <= capacity by {
            if i > 0 {
                assert(cs[i] == split_chunks(tail, capacity, gsm)[i - 1]);
            }
        }
    } else {
        assert(concat_all(split_chunks(bytes, capacity, gsm)) =~= bytes);
    }
}

/// The user data header of segment `i` of `total`: concatenation information
/// element with the reference, the number of segments and the segment's number
/// (both as bytes).
pub open spec fn udh(reference: u8, total: int, i: int) -> Seq<u8> {
    seq![5u8, 0u8, 3u8, reference, (total % 256) as u8, ((i + 1) % 256) as u8]
}

/// The segments made of chunks: in UDH mode each chunk after its header, else
/// the chunks themselves.
pub open spec fn split_parts(chunks: Seq<Seq<u8>>, reference: u8, mode: SplitKind) -> Seq<Seq<u8>> {
    Seq::new(
        chunks.len(),
        |i: int|
            if mode == SplitKind::Udh {
                udh(reference, chunks.len() as int, i) + chunks[i]
            } else {
                chunks[i]
            },
    )
}

/// The chunks of a text's encoded bytes for an encoding and mode.
pub open spec fn text_chunks(text: Seq<char>, encoding: TextEncoding, mode: SplitKind) -> Seq<Seq<u8>> {
    split_chunks(encoded_text(text, encoding), segment_capacity(encoding, mode), encoding == TextEncoding::Gsm7Bit)
}

/// How the splitter sends a text: a text that fits one segment is its encoded
/// bytes alone; a longer one is its encoded bytes cut into `split_chunks` (`text_chunks`), each
/// chunk preceded in UDH mode by a header carrying one shared reference, which
/// is random.
pub open spec fn split_outcome(parts: Seq<Seq<u8>>, text: Seq<char>, encoding: TextEncoding, mode: SplitKind) -> bool {
    if fits_one_segment(text, encoding, mode) {
        parts == seq![encoded_text(text, encoding)]
    } else {
        exists|reference: u8|
            #![trigger split_parts(text_chunks(text, encoding, mode), reference, mode)]
            parts == split_parts(text_chunks(text, encoding, mode), reference, mode)
    }
}

/// A text too long for one segment is sent as at least two segments, since no
/// chunk holds more than a segment's capacity, which is less than the text.
pub proof fn law_long_text_is_several_segments(
    parts: Seq<Seq<u8>>,
    text: Seq<char>,
    encoding: TextEncoding,
    mode: SplitKind,
)
    requires
        split_outcome(parts, text, encoding, mode),
        !fits_one_segment(text, encoding, mode),
    ensures
        parts.len() >= 2,
{
    let chunks = text_chunks(text, encoding, mode);
    let reference = choose|reference: u8|
        #![trigger split_parts(chunks, reference, mode)]
        parts == split_parts(chunks, reference, mode);
    law_split_chunks_cover(encoded_text(text, encoding), segment_capacity(encoding, mode), encoding == TextEncoding::Gsm7Bit);
    assert(parts.len() == chunks.len());
    if chunks.len() == 0 {
        assert(concat_all(chunks).len() == 0);
    } else if chunks.len() == 1 {
        assert(chunks.drop_last().len() == 0);
        assert(concat_all(chunks.drop_last()) == Seq::<u8>::empty());
        assert(concat_all(chunks) == chunks[0]);
    }
}

/// `MessageSplitter::split(text, encoding, mode)`. As the crate's source shows:
/// on success there is at least one segment, the data coding is the encoding's,
/// and the segments are as `split_outcome` says (a text that fits one segment,
/// and any text in payload mode, is sent as its encoded bytes alone; a longer
/// one is cut into chunks of the segment capacity, an escape byte kept with its
/// character, each behind a UDH header in UDH mode); the UDH reference number
/// is random and is left open. It fails
/// exactly when GSM 7-bit is asked for a text with a character outside GSM
/// 03.38, with the text the crate writes for the first such character.
#[verifier::external_body]
pub(crate) fn split_message(text: &str, encoding: TextEncoding, mode: SplitKind) -> (res: Result<(Vec<Vec<u8>>, u8), String>)
    ensures
        res matches Ok((parts, dc)) ==> parts@.len() >= 1 && dc == data_coding_of(encoding)
            && (mode == SplitKind::Payload ==> parts@.len() == 1),
        res matches Ok((parts, dc)) ==> split_outcome(parts@.map_values(|p: Vec<u8>| p@), text@, encoding, mode),
        res is Err <==> (encoding == TextEncoding::Gsm7Bit && crate::gsm_encoding::gsm_encode(text@) is Err),
        res matches Err(e) ==> (crate::gsm_encoding::gsm_encode(text@) matches Err(c) && e@ == gsm_error_message(c)),
{
    let e = match encoding { TextEncoding::Gsm7Bit => EncodingType::Gsm7Bit, TextEncoding::Latin1 => EncodingType::Latin1, TextEncoding::Ucs2 => EncodingType::Ucs2 };
    let m = match mode { SplitKind::Udh => SplitMode::Udh, SplitKind::Sar => SplitMode::Sar, SplitKind::Payload => SplitMode::Payload };
    MessageSplitter::split(text.to_string(), e, m)
}

/// A PDU of the crate that counts its own length reads back its header, and its
/// command length is its size when that fits 32 bits.
#[verifier::spinoff_prover]
pub proof fn lemma_sized_pdu_header(command_id: u32, sequence_number: u32, body: Seq<u8>)
    requires
        16 + body.len() < 0x1_0000_0000,
    ensures
        sized_pdu(command_id, sequence_number, body).len() == 16 + body.len(),
        u32_at(sized_pdu(command_id, sequence_number, body), 0) == 16 + body.len(),
        u32_at(sized_pdu(command_id, sequence_number, body), 4) == command_id,
        u32_at(sized_pdu(command_id, sequence_number, body), 8) == 0,
        u32_at(sized_pdu(command_id, sequence_number, body), 12) == sequence_number,
{
    let n = ((16 + body.len()) % 0x1_0000_0000) as u32;
    assert(n == 16 + body.len());
    lemma_header_read_back(n, command_id, 0, sequence_number, body);
    assert(sized_pdu(command_id, sequence_number, body) == header(n, command_id, 0, sequence_number) + body);
}

/// The TLV lengths the crate counts are the bytes it writes, as long as every
/// value is shorter than 64 KiB.
proof fn lemma_tlvs_counted_len(tlvs: Seq<(u16, Seq<u8>)>)
    requires
        forall|i: int| 0 <= i < tlvs.len() ==> #[trigger] tlvs[i].1.len() < 0x1_0000,
    ensures
        tlvs_counted_len(tlvs) == tlvs_bytes(tlvs).len(),
    decreases tlvs.len(),
{
    if tlvs.len() > 0 {
        let p = tlvs.drop_last();
        assert forall|i: int| 0 <= i < p.len() implies #[trigger] p[i].1.len() < 0x1_0000 by {
            assert(p[i] == tlvs[i]);
        }
        lemma_tlvs_counted_len(p);
        assert(tlvs.last() == tlvs[tlvs.len() - 1]);
    }
}

/// A bind request states its own length and carries the mode's command id,
/// status 0 and its sequence number.
pub proof fn law_bind_request_states_its_length(
    sequence_number: u32,
    mode: BindMode,
    system_id: Seq<char>,
    password: Seq<char>,
)
    requires
        encode_utf8(system_id).len() <= 16,
        encode_utf8(password).len() <= 9,
    ensures
        ({
            let p = bind_request_bytes(sequence_number, mode, system_id, password);
            &&& u32_at(p, 0) == p.len()
            &&& u32_at(p, 4) == crate::bind::bind_command_id(mode)
            &&& u32_at(p, 8) == 0
            &&& u32_at(p, 12) == sequence_number
        }),
{
    let body = c_string(system_id) + c_string(password) + c_string(Seq::empty()) + seq![0x34u8, 0u8, 0u8]
        + c_string(Seq::empty());
    assert(encode_utf8(Seq::<char>::empty()).len() == 0);
    lemma_sized_pdu_header(crate::bind::bind_command_id(mode), sequence_number, body);
}

/// A query_sm request states its own length and carries its command id, status
/// 0 and its sequence number.
pub proof fn law_query_request_states_its_length(
    sequence_number: u32,
    message_id: Seq<char>,
    source_addr: Seq<char>,
    ton: u8,
    npi: u8,
)
    requires
        encode_utf8(message_id).len() <= 64,
        encode_utf8(source_addr).len() <= 21,
    ensures
        ({
            let p = query_sm_bytes(sequence_number, message_id, source_addr, ton, npi);
            &&& u32_at(p, 0) == p.len()
            &&& u32_at(p, 4) == command_id::QUERY_SM
            &&& u32_at(p, 8) == 0
            &&& u32_at(p, 12) == sequence_number
        }),
{
    let body = c_string(message_id) + seq![codec_ton_byte(ton), codec_npi_byte(npi)] + c_string(source_addr);
    lemma_sized_pdu_header(command_id::QUERY_SM, sequence_number, body);
}

/// A submit_sm states its own length, when it is under 4 GiB and every optional
/// parameter is under 64 KiB, and carries its command id, status 0 and its
/// sequence number.
pub proof fn law_submit_sm_states_its_length(f: SubmitSmSpec)
    requires
        forall|i: int| 0 <= i < f.optional_params.len() ==> #[trigger] f.optional_params[i].1.len() < 0x1_0000,
        submit_sm_request_bytes(f).len() < 0x1_0000_0000,
    ensures
        ({
            let p = submit_sm_request_bytes(f);
            &&& u32_at(p, 0) == p.len()
            &&& u32_at(p, 4) == command_id::SUBMIT_SM
            &&& u32_at(p, 8) == 0
            &&& u32_at(p, 12) == f.sequence_number
        }),
{
    reveal(submit_sm_request_bytes);
    lemma_tlvs_counted_len(f.optional_params);
    let body = submit_sm_fixed_body(f) + tlvs_bytes(f.optional_params);
    lemma_sized_pdu_header(command_id::SUBMIT_SM, f.sequence_number, body);
    assert(submit_sm_request_bytes(f) == sized_pdu(command_id::SUBMIT_SM, f.sequence_number, body));
}

/// The byte after the header, the empty service type, a source with its TON/NPI
/// and a destination with its TON/NPI: where a submit_sm keeps its ESM class.
pub open spec fn submit_sm_esm_offset(source: Seq<char>, dest: Seq<char>) -> int {
    16 + 1 + 2 + encode_utf8(source).len() as int + 1 + 2 + encode_utf8(dest).len() as int + 1
}

/// Bytes taken by a list of SME destinations: flag, TON, NPI and the address
/// with its NUL for each.
pub open spec fn sme_entries_len(addresses: Seq<Seq<char>>) -> int
    decreases addresses.len(),
{
    if addresses.len() == 0 {
        0
    } else {
        sme_entries_len(addresses.drop_last()) + 3 + encode_utf8(addresses.last()).len() as int + 1
    }
}

/// Where a submit_multi keeps its ESM class: after the header, the empty service
/// type, the source with its TON/NPI, the destination count and the destinations.
pub open spec fn submit_multi_esm_offset(source: Seq<char>, addresses: Seq<Seq<char>>) -> int {
    16 + 1 + 2 + encode_utf8(source).len() as int + 1 + 1 + sme_entries_len(addresses)
}

/// The encoded header is sixteen bytes.
proof fn lemma_header_len(a: u32, b: u32, c: u32, d: u32)
    ensures
        header(a, b, c, d).len() == 16,
{
}

proof fn lemma_sme_destinations_len(ton: u8, npi: u8, addresses: Seq<Seq<char>>)
    ensures
        sme_destinations_bytes(ton, npi, addresses).len() == sme_entries_len(addresses),
    decreases addresses.len(),
{
    if addresses.len() > 0 {
        lemma_sme_destinations_len(ton, npi, addresses.drop_last());
    }
}

/// A submit_sm request carries its ESM class at `submit_sm_esm_offset`.
pub proof fn law_submit_sm_esm_class_byte(f: SubmitSmSpec)
    ensures
        submit_sm_request_bytes(f).len() > submit_sm_esm_offset(f.source_addr, f.dest_addr),
        submit_sm_request_bytes(f)[submit_sm_esm_offset(f.source_addr, f.dest_addr)] == f.esm_class,
{
    reveal(submit_sm_request_bytes);
    let h = header(
        ((16 + submit_sm_fixed_body(f).len() + tlvs_counted_len(f.optional_params)) % 0x1_0000_0000) as u32,
        command_id::SUBMIT_SM,
        0,
        f.sequence_number,
    );
    lemma_header_len(
        ((16 + submit_sm_fixed_body(f).len() + tlvs_counted_len(f.optional_params)) % 0x1_0000_0000) as u32,
        command_id::SUBMIT_SM,
        0,
        f.sequence_number,
    );
    assert(encode_utf8(Seq::<char>::empty()) =~= Seq::<u8>::empty());
    let pre = c_string(Seq::empty()) + seq![codec_ton_byte(f.source_addr_ton), codec_npi_byte(f.source_addr_npi)]
        + c_string(f.source_addr) + seq![codec_ton_byte(f.dest_addr_ton), codec_npi_byte(f.dest_addr_npi)]
        + c_string(f.dest_addr);
    let fixed = submit_sm_fixed_body(f);
    let rest = c_string(Seq::empty()) + c_string(f.validity_period) + seq![
        f.registered_delivery,
        0u8,
        f.data_coding,
        0u8,
        (f.short_message.len() % 256) as u8,
    ] + f.short_message;
    assert(fixed =~= pre + (seq![f.esm_class, f.protocol_id, 0u8] + rest));
    assert(pre.len() == submit_sm_esm_offset(f.source_addr, f.dest_addr) - 16);
    assert(fixed[pre.len() as int] == f.esm_class);
    let body = fixed + tlvs_bytes(f.optional_params);
    assert(body[pre.len() as int] == f.esm_class);
    assert(submit_sm_request_bytes(f) == h + body);
}

/// A submit_multi request carries its ESM class at `submit_multi_esm_offset`.
pub proof fn law_submit_multi_esm_class_byte(f: SubmitMultiSpec)
    ensures
        submit_multi_bytes(f).len() > submit_multi_esm_offset(f.source_addr, f.destinations),
        submit_multi_bytes(f)[submit_multi_esm_offset(f.source_addr, f.destinations)] == f.esm_class,
{
    reveal(submit_multi_bytes);
    let n = ((16 + submit_multi_fixed_body(f).len() + tlvs_counted_len(f.optional_params)) % 0x1_0000_0000) as u32;
    let h = header(n, command_id::SUBMIT_MULTI, 0, f.sequence_number);
    lemma_header_len(n, command_id::SUBMIT_MULTI, 0, f.sequence_number);
    lemma_sme_destinations_len(f.dest_addr_ton, f.dest_addr_npi, f.destinations);
    assert(encode_utf8(Seq::<char>::empty()) =~= Seq::<u8>::empty());
    let pre = c_string(Seq::empty()) + seq![codec_ton_byte(f.source_addr_ton), codec_npi_byte(f.source_addr_npi)]
        + c_string(f.source_addr) + seq![(f.destinations.len() % 256) as u8] + sme_destinations_bytes(
        f.dest_addr_ton,
        f.dest_addr_npi,
        f.destinations,
    );
    let fixed = submit_multi_fixed_body(f);
    let rest = c_string(Seq::empty()) + c_string(f.validity_period) + seq![
        f.registered_delivery,
        0u8,
        f.data_coding,
        0u8,
        (f.short_message.len() % 256) as u8,
    ] + f.short_message;
    assert(fixed =~= pre + (seq![f.esm_class, f.protocol_id, 0u8] + rest));
    assert(pre.len() == submit_multi_esm_offset(f.source_addr, f.destinations) - 16);
    assert(fixed[pre.len() as int] == f.esm_class);
    let body = fixed + tlvs_bytes(f.optional_params);
    assert(body[pre.len() as int] == f.esm_class);
    assert(submit_multi_bytes(f) == h + body);
}

/// The bytes after the header of a PDU the crate sizes itself are its body.
proof fn lemma_sized_pdu_body(command_id: u32, sequence_number: u32, body: Seq<u8>)
    ensures
        sized_pdu(command_id, sequence_number, body).len() == 16 + body.len(),
        u32_at(sized_pdu(command_id, sequence_number, body), 4) == command_id,
        u32_at(sized_pdu(command_id, sequence_number, body), 12) == sequence_number,
        forall|t: int|
            0 <= t < body.len() ==> #[trigger] sized_pdu(command_id, sequence_number, body)[16 + t] == body[t],
{
    lemma_header_read_back(((16 + body.len()) % 0x1_0000_0000) as u32, command_id, 0, sequence_number, body);
    lemma_header_len(((16 + body.len()) % 0x1_0000_0000) as u32, command_id, 0, sequence_number);
}

/// Where the fields of a bind request stand: command id and sequence number in
/// the header, then the system id and the password as C-octet strings.
pub proof fn law_bind_request_fields(sequence_number: u32, mode: BindMode, system_id: Seq<char>, password: Seq<char>)
    ensures
        ({
            let p = bind_request_bytes(sequence_number, mode, system_id, password);
            &&& u32_at(p, 4) == crate::bind::bind_command_id(mode)
            &&& u32_at(p, 12) == sequence_number
            &&& c_string_at(p, 16, system_id)
            &&& c_string_at(p, 17 + encode_utf8(system_id).len() as int, password)
        }),
{
    let b1 = c_string(system_id);
    let b2 = b1 + c_string(password);
    let body = b2 + c_string(Seq::empty()) + seq![0x34u8, 0u8, 0u8] + c_string(Seq::empty());
    let p = bind_request_bytes(sequence_number, mode, system_id, password);
    lemma_sized_pdu_body(crate::bind::bind_command_id(mode), sequence_number, body);
    assert(body =~= b2 + (c_string(Seq::empty()) + seq![0x34u8, 0u8, 0u8] + c_string(Seq::empty())));
    assert(body.subrange(0, body.len() as int) =~= body);
    lemma_prefix_of_sum(body, b2, c_string(Seq::empty()) + seq![0x34u8, 0u8, 0u8] + c_string(Seq::empty()));
    lemma_prefix_of_sum(body, b1, c_string(password));
    lemma_piece_read(body, b1, c_string(password));
    lemma_piece_read(body, Seq::empty(), b1);
    assert(Seq::<u8>::empty() + b1 =~= b1);
    assert(body.subrange(0, b1.len() as int) == Seq::<u8>::empty() + b1);
    lemma_piece_read(body, Seq::empty(), b1);
    lemma_c_string_read(p, 16, system_id);
    lemma_c_string_read(p, 16 + b1.len() as int, password);
}

/// Where the fields of a cancel_sm request stand: command id and sequence
/// number in the header, then the service type, the message id, the source TON
/// and NPI bytes and the source address, the destination TON and NPI bytes and
/// the destination address.
pub proof fn law_cancel_sm_fields(
    sequence_number: u32,
    service_type: Seq<char>,
    message_id: Seq<char>,
    source_addr: Seq<char>,
    source_ton: u8,
    source_npi: u8,
    dest_addr: Seq<char>,
    dest_ton: u8,
    dest_npi: u8,
)
    ensures
        ({
            let p = cancel_sm_bytes(
                sequence_number,
                service_type,
                message_id,
                source_addr,
                source_ton,
                source_npi,
                dest_addr,
                dest_ton,
                dest_npi,
            );
            let a = 17 + encode_utf8(service_type).len() as int;
            let b = a + 1 + encode_utf8(message_id).len() as int;
            let c = b + 3 + encode_utf8(source_addr).len() as int;
            &&& u32_at(p, 4) == command_id::CANCEL_SM
            &&& u32_at(p, 12) == sequence_number
            &&& c_string_at(p, 16, service_type)
            &&& c_string_at(p, a, message_id)
            &&& p[b] == codec_ton_byte(source_ton)
            &&& p[b + 1] == codec_npi_byte(source_npi)
            &&& c_string_at(p, b + 2, source_addr)
            &&& p[c] == codec_ton_byte(dest_ton)
            &&& p[c + 1] == codec_npi_byte(dest_npi)
            &&& c_string_at(p, c + 2, dest_addr)
        }),
{
    let b1 = c_string(service_type);
    let b2 = b1 + c_string(message_id);
    let b3 = b2 + seq![codec_ton_byte(source_ton), codec_npi_byte(source_npi)];
    let b4 = b3 + c_string(source_addr);
    let b5 = b4 + seq![codec_ton_byte(dest_ton), codec_npi_byte(dest_npi)];
    let body = b5 + c_string(dest_addr);
    let p = cancel_sm_bytes(
        sequence_number,
        service_type,
        message_id,
        source_addr,
        source_ton,
        source_npi,
        dest_addr,
        dest_ton,
        dest_npi,
    );
    lemma_sized_pdu_body(command_id::CANCEL_SM, sequence_number, body);
    assert(body.subrange(0, body.len() as int) =~= body);
    lemma_piece_read(body, b5, c_string(dest_addr));
    lemma_prefix_of_sum(body, b5, c_string(dest_addr));
    lemma_piece_read(body, b4, seq![codec_ton_byte(dest_ton), codec_npi_byte(dest_npi)]);
    lemma_prefix_of_sum(body, b4, seq![codec_ton_byte(dest_ton), codec_npi_byte(dest_npi)]);
    lemma_piece_read(body, b3, c_string(source_addr));
    lemma_prefix_of_sum(body, b3, c_string(source_addr));
    lemma_piece_read(body, b2, seq![codec_ton_byte(source_ton), codec_npi_byte(source_npi)]);
    lemma_prefix_of_sum(body, b2, seq![codec_ton_byte(source_ton), codec_npi_byte(source_npi)]);
    lemma_piece_read(body, b1, c_string(message_id));
    lemma_prefix_of_sum(body, b1, c_string(message_id));
    assert(body.subrange(0, b1.len() as int) == Seq::<u8>::empty() + b1);
    lemma_piece_read(body, Seq::empty(), b1);
    lemma_c_string_read(p, 16, service_type);
    lemma_c_string_read(p, 16 + b1.len() as int, message_id);
    lemma_c_string_read(p, 16 + b3.len() as int, source_addr);
    lemma_c_string_read(p, 16 + b5.len() as int, dest_addr);
}

/// Where the fields of a replace_sm request stand: command id and sequence
/// number in the header, then the message id, the source TON and NPI bytes, the
/// source address, an empty schedule and validity, registered delivery 0,
/// default message id 0, the message length and the new message.
pub proof fn law_replace_sm_fields(
    sequence_number: u32,
    message_id: Seq<char>,
    source_addr: Seq<char>,
    ton: u8,
    npi: u8,
    short_message: Seq<u8>,
)
    ensures
        ({
            let p = replace_sm_bytes(sequence_number, message_id, source_addr, ton, npi, short_message);
            let b = 17 + encode_utf8(message_id).len() as int;
            let c = b + 3 + encode_utf8(source_addr).len() as int;
            &&& u32_at(p, 4) == command_id::REPLACE_SM
            &&& u32_at(p, 12) == sequence_number
            &&& c_string_at(p, 16, message_id)
            &&& p[b] == codec_ton_byte(ton)
            &&& p[b + 1] == codec_npi_byte(npi)
            &&& c_string_at(p, b + 2, source_addr)
            &&& p[c] == 0
            &&& p[c + 1] == 0
            &&& p[c + 2] == 0
            &&& p[c + 3] == 0
            &&& p[c + 4] == short_message.len() % 256
            &&& p.subrange(c + 5, p.len() as int) == short_message
        }),
{
    assert(encode_utf8(Seq::<char>::empty()) =~= Seq::<u8>::empty());
    let b1 = c_string(message_id);
    let b2 = b1 + seq![codec_ton_byte(ton), codec_npi_byte(npi)];
    let b3 = b2 + c_string(source_addr);
    let b4 = b3 + c_string(Seq::empty());
    let b5 = b4 + c_string(Seq::empty());
    let b6 = b5 + seq![0u8, 0u8, (short_message.len() % 256) as u8];
    let body = b6 + short_message;
    let p = replace_sm_bytes(sequence_number, message_id, source_addr, ton, npi, short_message);
    lemma_sized_pdu_body(command_id::REPLACE_SM, sequence_number, body);
    assert(body.subrange(0, body.len() as int) =~= body);
    lemma_piece_read(body, b6, short_message);
    lemma_prefix_of_sum(body, b6, short_message);
    lemma_piece_read(body, b5, seq![0u8, 0u8, (short_message.len() % 256) as u8]);
    lemma_prefix_of_sum(body, b5, seq![0u8, 0u8, (short_message.len() % 256) as u8]);
    lemma_piece_read(body, b4, c_string(Seq::empty()));
    lemma_prefix_of_sum(body, b4, c_string(Seq::empty()));
    lemma_piece_read(body, b3, c_string(Seq::empty()));
    lemma_prefix_of_sum(body, b3, c_string(Seq::empty()));
    lemma_piece_read(body, b2, c_string(source_addr));
    lemma_prefix_of_sum(body, b2, c_string(source_addr));
    lemma_piece_read(body, b1, seq![codec_ton_byte(ton), codec_npi_byte(npi)]);
    lemma_prefix_of_sum(body, b1, seq![codec_ton_byte(ton), codec_npi_byte(npi)]);
    assert(body.subrange(0, b1.len() as int) == Seq::<u8>::empty() + b1);
    lemma_piece_read(body, Seq::empty(), b1);
    lemma_c_string_read(p, 16, message_id);
    lemma_c_string_read(p, 16 + b2.len() as int, source_addr);
    assert(c_string(Seq::<char>::empty())[0] == 0);
    assert(p.subrange(16 + b6.len() as int, p.len() as int) =~= short_message);
}

/// Where the fields of a query_sm request stand: command id and sequence number
/// in the header, then the message id, the source TON and NPI bytes and the
/// source address.
pub proof fn law_query_sm_fields(sequence_number: u32, message_id: Seq<char>, source_addr: Seq<char>, ton: u8, npi: u8)
    ensures
        ({
            let p = query_sm_bytes(sequence_number, message_id, source_addr, ton, npi);
            let b = 17 + encode_utf8(message_id).len() as int;
            &&& u32_at(p, 4) == command_id::QUERY_SM
            &&& u32_at(p, 12) == sequence_number
            &&& c_string_at(p, 16, message_id)
            &&& p[b] == codec_ton_byte(ton)
            &&& p[b + 1] == codec_npi_byte(npi)
            &&& c_string_at(p, b + 2, source_addr)
        }),
{
    let b1 = c_string(message_id);
    let b2 = b1 + seq![codec_ton_byte(ton), codec_npi_byte(npi)];
    let body = b2 + c_string(source_addr);
    let p = query_sm_bytes(sequence_number, message_id, source_addr, ton, npi);
    lemma_sized_pdu_body(command_id::QUERY_SM, sequence_number, body);
    assert(body.subrange(0, body.len() as int) =~= body);
    lemma_piece_read(body, b2, c_string(source_addr));
    lemma_prefix_of_sum(body, b2, c_string(source_addr));
    lemma_piece_read(body, b1, seq![codec_ton_byte(ton), codec_npi_byte(npi)]);
    lemma_prefix_of_sum(body, b1, seq![codec_ton_byte(ton), codec_npi_byte(npi)]);
    assert(body.subrange(0, b1.len() as int) == Seq::<u8>::empty() + b1);
    lemma_piece_read(body, Seq::empty(), b1);
    lemma_c_string_read(p, 16, message_id);
    lemma_c_string_read(p, 16 + b2.len() as int, source_addr);
}

/// The bytes after the header of a PDU whose length the crate counts are its body.
proof fn lemma_counted_pdu_body(command_id: u32, sequence_number: u32, counted: int, body: Seq<u8>)
    ensures
        counted_pdu(command_id, sequence_number, counted, body).len() == 16 + body.len(),
        u32_at(counted_pdu(command_id, sequence_number, counted, body), 4) == command_id,
        u32_at(counted_pdu(command_id, sequence_number, counted, body), 12) == sequence_number,
        forall|t: int|
            0 <= t < body.len() ==> #[trigger] counted_pdu(command_id, sequence_number, counted, body)[16 + t]
                == body[t],
{
    let n = ((16 + counted) % 0x1_0000_0000) as u32;
    lemma_header_read_back(n, command_id, 0, sequence_number, body);
    lemma_header_len(n, command_id, 0, sequence_number);
}

/// Where the fields of a submit_sm request stand: command id and sequence
/// number in the header, the empty service type, the source TON and NPI bytes
/// and address, the destination TON and NPI bytes and address, the ESM class,
/// the protocol id, priority 0, an empty schedule, the validity period,
/// registered delivery, replace flag 0, data coding, default message id 0, the
/// message length and the short message.
#[verifier::spinoff_prover]
#[verifier::rlimit(50)]
pub proof fn law_submit_sm_request_fields(f: SubmitSmSpec)
    ensures
        ({
            let p = submit_sm_request_bytes(f);
            let d = 20 + encode_utf8(f.source_addr).len() as int;
            let e = d + 3 + encode_utf8(f.dest_addr).len() as int;
            let g = e + 5 + encode_utf8(f.validity_period).len() as int;
            &&& u32_at(p, 4) == command_id::SUBMIT_SM
            &&& u32_at(p, 12) == f.sequence_number
            &&& p[16] == 0
            &&& p[17] == codec_ton_byte(f.source_addr_ton)
            &&& p[18] == codec_npi_byte(f.source_addr_npi)
            &&& c_string_at(p, 19, f.source_addr)
            &&& p[d] == codec_ton_byte(f.dest_addr_ton)
            &&& p[d + 1] == codec_npi_byte(f.dest_addr_npi)
            &&& c_string_at(p, d + 2, f.dest_addr)
            &&& p[e] == f.esm_class
            &&& p[e + 1] == f.protocol_id
            &&& p[e + 2] == 0
            &&& p[e + 3] == 0
            &&& c_string_at(p, e + 4, f.validity_period)
            &&& p[g] == f.registered_delivery
            &&& p[g + 1] == 0
            &&& p[g + 2] == f.data_coding
            &&& p[g + 3] == 0
            &&& p[g + 4] == f.short_message.len() % 256
            &&& g + 5 + f.short_message.len() <= p.len()
            &&& p.subrange(g + 5, g + 5 + f.short_message.len()) == f.short_message
        }),
{
    reveal(submit_sm_request_bytes);
    assert(encode_utf8(Seq::<char>::empty()) =~= Seq::<u8>::empty());
    let sm = f.short_message;
    let b1 = c_string(Seq::empty());
    let b2 = b1 + seq![codec_ton_byte(f.source_addr_ton), codec_npi_byte(f.source_addr_npi)];
    let b3 = b2 + c_string(f.source_addr);
    let b4 = b3 + seq![codec_ton_byte(f.dest_addr_ton), codec_npi_byte(f.dest_addr_npi)];
    let b5 = b4 + c_string(f.dest_addr);
    let b6 = b5 + seq![f.esm_class, f.protocol_id, 0u8];
    let b7 = b6 + c_string(Seq::empty());
    let b8 = b7 + c_string(f.validity_period);
    let last = seq![f.registered_delivery, 0u8, f.data_coding, 0u8, (sm.len() % 256) as u8];
    let b9 = b8 + last;
    let fixed = b9 + sm;
    assert(fixed == submit_sm_fixed_body(f));
    let body = fixed + tlvs_bytes(f.optional_params);
    let p = submit_sm_request_bytes(f);
    lemma_counted_pdu_body(
        command_id::SUBMIT_SM,
        f.sequence_number,
        fixed.len() + tlvs_counted_len(f.optional_params),
        body,
    );
    assert(body.subrange(0, body.len() as int) =~= body);
    lemma_prefix_of_sum(body, fixed, tlvs_bytes(f.optional_params));
    lemma_piece_read(body, b9, sm);
    lemma_prefix_of_sum(body, b9, sm);
    lemma_piece_read(body, b8, last);
    lemma_prefix_of_sum(body, b8, last);
    lemma_piece_read(body, b7, c_string(f.validity_period));
    lemma_prefix_of_sum(body, b7, c_string(f.validity_period));
    lemma_piece_read(body, b6, c_string(Seq::empty()));
    lemma_prefix_of_sum(body, b6, c_string(Seq::empty()));
    lemma_piece_read(body, b5, seq![f.esm_class, f.protocol_id, 0u8]);
    lemma_prefix_of_sum(body, b5, seq![f.esm_class, f.protocol_id, 0u8]);
    lemma_piece_read(body, b4, c_string(f.dest_addr));
    lemma_prefix_of_sum(body, b4, c_string(f.dest_addr));
    lemma_piece_read(body, b3, seq![codec_ton_byte(f.dest_addr_ton), codec_npi_byte(f.dest_addr_npi)]);
    lemma_prefix_of_sum(body, b3, seq![codec_ton_byte(f.dest_addr_ton), codec_npi_byte(f.dest_addr_npi)]);
    lemma_piece_read(body, b2, c_string(f.source_addr));
    lemma_prefix_of_sum(body, b2, c_string(f.source_addr));
    lemma_piece_read(body, b1, seq![codec_ton_byte(f.source_addr_ton), codec_npi_byte(f.source_addr_npi)]);
    lemma_prefix_of_sum(body, b1, seq![codec_ton_byte(f.source_addr_ton), codec_npi_byte(f.source_addr_npi)]);
    assert(body.subrange(0, b1.len() as int) == Seq::<u8>::empty() + b1);
    lemma_piece_read(body, Seq::empty(), b1);
    assert(c_string(Seq::<char>::empty())[0] == 0);
    lemma_c_string_read(p, 19, f.source_addr);
    lemma_c_string_read(p, 16 + b4.len() as int, f.dest_addr);
    lemma_c_string_read(p, 16 + b7.len() as int, f.validity_period);
    assert(p.subrange(16 + b9.len() as int, (16 + b9.len() + sm.len()) as int) =~= sm);
}

} // verus!
