//! The response decoders of the `smpp-codec` crate, reached through wrappers
//! that hand back the few fields the client reports. Every item here is trusted:
//! its contract states what the crate's source shows and names the rest.
use vstd::prelude::*;
use crate::wire::{u32_at, nul_from};
use crate::common::status_description;
use vstd::utf8::{valid_utf8, decode_utf8};

verus! {

/// What `BindResponse::decode` makes of a PDU: status and status text, or the
/// `Debug` text of its error.
pub uninterp spec fn bind_resp_decoding(pdu: Seq<u8>) -> Result<(u32, Seq<char>), Seq<char>>;

/// What `SubmitSmResponse::decode` makes of a PDU: status text and message id.
pub uninterp spec fn submit_resp_decoding(pdu: Seq<u8>) -> Result<(Seq<char>, Seq<char>), Seq<char>>;

/// What `SubmitMultiResp::decode` makes of a PDU: status text, message id and
/// the number of unsuccessful destinations.
pub uninterp spec fn submit_multi_resp_decoding(pdu: Seq<u8>) -> Result<(Seq<char>, Seq<char>, usize), Seq<char>>;

/// What `QuerySmResponse::decode` makes of a PDU: status text, message state and
/// error code.
pub uninterp spec fn query_resp_decoding(pdu: Seq<u8>) -> Result<(Seq<char>, u8, u8), Seq<char>>;

/// What `DeliverSmRequest::decode` makes of a PDU: sequence number, source and
/// destination addresses and the short message bytes.
pub uninterp spec fn deliver_sm_decoding(pdu: Seq<u8>) -> Result<(u32, Seq<char>, Seq<char>, Seq<u8>), Seq<char>>;

/// The `Debug` text of `PduError::BufferTooShort`.
pub open spec fn too_short_text() -> Seq<char> {
    "BufferTooShort"@
}

/// A decoded bind response, as values.
pub open spec fn bind_info_view(r: Result<(u32, String), String>) -> Result<(u32, Seq<char>), Seq<char>> {
    match r {
        Ok((s, d)) => Ok((s, d@)),
        Err(e) => Err(e@),
    }
}

/// A decoded submit response, as values.
pub open spec fn submit_info_view(r: Result<(String, String), String>) -> Result<(Seq<char>, Seq<char>), Seq<char>> {
    match r {
        Ok((d, id)) => Ok((d@, id@)),
        Err(e) => Err(e@),
    }
}

/// A decoded submit_multi response, as values.
pub open spec fn multi_info_view(r: Result<(String, String, usize), String>) -> Result<(Seq<char>, Seq<char>, usize), Seq<char>> {
    match r {
        Ok((d, id, n)) => Ok((d@, id@, n)),
        Err(e) => Err(e@),
    }
}

/// A decoded query response, as values.
pub open spec fn query_info_view(r: Result<(String, u8, u8), String>) -> Result<(Seq<char>, u8, u8), Seq<char>> {
    match r {
        Ok((d, st, ec)) => Ok((d@, st, ec)),
        Err(e) => Err(e@),
    }
}

/// A decoded deliver_sm, as values.
pub open spec fn deliver_info_view(r: Result<(u32, String, String, Vec<u8>), String>) -> Result<(u32, Seq<char>, Seq<char>, Seq<u8>), Seq<char>> {
    match r {
        Ok((n, src, dst, sm)) => Ok((n, src@, dst@, sm@)),
        Err(e) => Err(e@),
    }
}

/// A decoded status-only response, as values.
pub open spec fn status_info_view(r: Result<String, String>) -> Result<Seq<char>, Seq<char>> {
    match r {
        Ok(d) => Ok(d@),
        Err(e) => Err(e@),
    }
}

/// The outcome that `CancelSmResponse::decode` and `ReplaceSmResp::decode` share:
/// the status text of the status field, or too short.
pub open spec fn status_only_decoding(pdu: Seq<u8>) -> Result<Seq<char>, Seq<char>> {
    if pdu.len() < 16 {
        Err(too_short_text())
    } else {
        Ok(status_description(u32_at(pdu, 8)))
    }
}

/// The C-octet string that the crate's `read_c_string` reads at `at`: the text
/// up to the first NUL and the position after it, when there is a NUL and the
/// bytes before it are UTF-8.
pub open spec fn c_string_at(pdu: Seq<u8>, at: int) -> Option<(Seq<char>, int)> {
    match nul_from(pdu, at) {
        Some(n) => if valid_utf8(pdu.subrange(at, n)) {
            Some((decode_utf8(pdu.subrange(at, n)), n + 1))
        } else {
            None
        },
        None => None,
    }
}

/// Whether `BindResponse::decode` succeeds: a header; with status 0 and a
/// command length over 16, a system id string after the header; and the bytes
/// up to the command length, when it runs past what was read.
pub open spec fn bind_resp_decodes(pdu: Seq<u8>) -> bool {
    let cl = u32_at(pdu, 0) as int;
    let reads_id = cl > 16 && u32_at(pdu, 8) == 0;
    &&& pdu.len() >= 16
    &&& reads_id ==> c_string_at(pdu, 16) is Some
    &&& ({
        let pos = if reads_id {
            c_string_at(pdu, 16)->Some_0.1
        } else {
            16
        };
        pos < cl ==> cl <= pdu.len()
    })
}

/// Whether `SubmitSmResponse::decode` succeeds: a header, and after it either
/// nothing or a message id string.
pub open spec fn submit_resp_decodes(pdu: Seq<u8>) -> bool {
    pdu.len() == 16 || (pdu.len() > 16 && c_string_at(pdu, 16) is Some)
}

/// The message id that `SubmitSmResponse::decode` reads.
pub open spec fn submit_resp_message_id_text(pdu: Seq<u8>) -> Seq<char> {
    if pdu.len() > 16 {
        c_string_at(pdu, 16)->Some_0.0
    } else {
        Seq::empty()
    }
}

/// Whether `QuerySmResponse::decode` succeeds: a header, and when the status is
/// 0 and there is a body, the message id and final date strings followed by
/// the message state and error code bytes.
pub open spec fn query_resp_decodes(pdu: Seq<u8>) -> bool {
    &&& pdu.len() >= 16
    &&& (u32_at(pdu, 8) == 0 && pdu.len() > 16) ==> (c_string_at(pdu, 16) matches Some((_, p1)) && c_string_at(
        pdu,
        p1,
    ) matches Some((_, p2)) && p2 + 2 <= pdu.len())
}

/// The message state and error code that `QuerySmResponse::decode` reads: the
/// two bytes after the final date, or 0 and 0 without a body or with a non-zero
/// status.
pub open spec fn query_resp_state(pdu: Seq<u8>) -> (u8, u8) {
    if u32_at(pdu, 8) == 0 && pdu.len() > 16 {
        let p2 = c_string_at(pdu, c_string_at(pdu, 16)->Some_0.1)->Some_0.1;
        (pdu[p2], pdu[p2 + 1])
    } else {
        (0u8, 0u8)
    }
}

/// `BindResponse::decode`. Claimed from the crate's source: a PDU shorter than a
/// header is refused as too short; it succeeds exactly as `bind_resp_decodes`
/// says, with the status at offset 8 and the crate's `get_status_description` text for it (the same table as `status_description`). The error
/// text otherwise is named only.
#[verifier::external_body]
pub(crate) fn decode_bind_resp(pdu: &[u8]) -> (res: Result<(u32, String), String>)
    ensures
        bind_info_view(res) == bind_resp_decoding(pdu@),
        res is Ok <==> bind_resp_decodes(pdu@),
        16 > pdu@.len() ==> res is Err,
        res matches Err(e) ==> (16 > pdu@.len() ==> e@ == too_short_text()),
        res matches Ok((s, d)) ==> s == u32_at(pdu@, 8) && d@ == status_description(s),
{
    smpp_codec::pdus::BindResponse::decode(pdu).map(|r| (r.command_status, r.status_description)).map_err(|e| format!("{:?}", e))
}

/// `SubmitSmResponse::decode`. Claimed from the crate's source: too short below a
/// header; it succeeds exactly as `submit_resp_decodes` says, with the crate's
/// text for the status at offset 8 and the message id string after the header
/// (empty for a bare header). The error text otherwise is named only.
#[verifier::external_body]
pub(crate) fn decode_submit_resp(pdu: &[u8]) -> (res: Result<(String, String), String>)
    ensures
        submit_info_view(res) == submit_resp_decoding(pdu@),
        res is Ok <==> submit_resp_decodes(pdu@),
        res matches Ok((d, id)) ==> id@ == submit_resp_message_id_text(pdu@),
        16 > pdu@.len() ==> res is Err,
        res matches Err(e) ==> (16 > pdu@.len() ==> e@ == too_short_text()),
        pdu@.len() == 16 ==> res is Ok,
        res matches Ok((d, id)) ==> (pdu@.len() == 16 ==> id@ == Seq::<char>::empty()),
        res matches Ok((d, _)) ==> d@ == status_description(u32_at(pdu@, 8)),
{
    smpp_codec::pdus::SubmitSmResponse::decode(pdu).map(|r| (r.status_description, r.message_id)).map_err(|e| format!("{:?}", e))
}

/// `SubmitMultiResp::decode`, with the unsuccessful destinations counted.
/// Claimed from the crate's source: too short below a header; a status other
/// than 0 and 0x405 reads no body and decodes with an empty message id and no
/// failures; the text is the crate's for the status at offset 8.
#[verifier::external_body]
pub(crate) fn decode_submit_multi_resp(pdu: &[u8]) -> (res: Result<(String, String, usize), String>)
    ensures
        multi_info_view(res) == submit_multi_resp_decoding(pdu@),
        16 > pdu@.len() ==> res is Err,
        res matches Err(e) ==> (16 > pdu@.len() ==> e@ == too_short_text()),
        pdu@.len() >= 16 && u32_at(pdu@, 8) != 0 && u32_at(pdu@, 8) != 0x405 ==> res is Ok,
        res matches Ok((d, id, n)) ==> (u32_at(pdu@, 8) != 0 && u32_at(pdu@, 8) != 0x405 ==> id@ == Seq::<char>::empty() && n == 0),
        res matches Ok((d, _, _)) ==> d@ == status_description(u32_at(pdu@, 8)),
{
    smpp_codec::pdus::SubmitMultiResp::decode(pdu).map(|r| (r.status_description, r.message_id, r.unsuccess_smes.len())).map_err(|e| format!("{:?}", e))
}

/// `QuerySmResponse::decode`. Claimed from the crate's source: too short below a
/// header; it succeeds exactly as `query_resp_decodes` says, with the crate's
/// text for the status at offset 8 and the state and error code of
/// `query_resp_state` (0 and 0 for a bare header or a non-zero status). The
/// error text otherwise is named only.
#[verifier::external_body]
pub(crate) fn decode_query_resp(pdu: &[u8]) -> (res: Result<(String, u8, u8), String>)
    ensures
        query_info_view(res) == query_resp_decoding(pdu@),
        res is Ok <==> query_resp_decodes(pdu@),
        res matches Ok((d, st, ec)) ==> (st, ec) == query_resp_state(pdu@),
        16 > pdu@.len() ==> res is Err,
        res matches Err(e) ==> (16 > pdu@.len() ==> e@ == too_short_text()),
        pdu@.len() >= 16 && (pdu@.len() == 16 || u32_at(pdu@, 8) != 0) ==> res is Ok,
        res matches Ok((d, st, ec)) ==> (pdu@.len() == 16 || u32_at(pdu@, 8) != 0 ==> st == 0 && ec == 0),
        res matches Ok((d, _, _)) ==> d@ == status_description(u32_at(pdu@, 8)),
{
    smpp_codec::pdus::QuerySmResponse::decode(pdu).map(|r| (r.status_description, r.message_state, r.error_code)).map_err(|e| format!("{:?}", e))
}

/// `CancelSmResponse::decode`. Claimed from the crate's source, which reads the
/// header alone: too short below a header, else the crate's `get_status_description` text (the same table as `status_description`) for the status
/// at offset 8.
#[verifier::external_body]
pub(crate) fn decode_cancel_resp(pdu: &[u8]) -> (res: Result<String, String>)
    ensures
        status_info_view(res) == status_only_decoding(pdu@),
{
    smpp_codec::pdus::CancelSmResponse::decode(pdu).map(|r| r.status_description).map_err(|e| format!("{:?}", e))
}

/// `ReplaceSmResp::decode`. Claimed from the crate's source, which reads the
/// header alone: too short below a header, else the crate's `get_status_description` text (the same table as `status_description`) for the status
/// at offset 8.
#[verifier::external_body]
pub(crate) fn decode_replace_resp(pdu: &[u8]) -> (res: Result<String, String>)
    ensures
        status_info_view(res) == status_only_decoding(pdu@),
{
    smpp_codec::pdus::ReplaceSmResp::decode(pdu).map(|r| r.status_description).map_err(|e| format!("{:?}", e))
}

/// `DeliverSmRequest::decode`. Claimed from the crate's source: too short below a
/// header; on success the sequence number is the one at offset 12. The rest is
/// named.
#[verifier::external_body]
pub(crate) fn decode_deliver_sm(pdu: &[u8]) -> (res: Result<(u32, String, String, Vec<u8>), String>)
    ensures
        deliver_info_view(res) == deliver_sm_decoding(pdu@),
        16 > pdu@.len() ==> res is Err,
        res matches Err(e) ==> (16 > pdu@.len() ==> e@ == too_short_text()),
        res matches Ok((n, _, _, _)) ==> n == u32_at(pdu@, 12),
{
    smpp_codec::pdus::DeliverSmRequest::decode(pdu).map(|r| (r.sequence_number, r.source_addr, r.dest_addr, r.short_message)).map_err(|e| format!("{:?}", e))
}

} // verus!
