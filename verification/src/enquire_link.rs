//! Enquire-link (keep-alive) requests.
use vstd::prelude::*;
use crate::common::command_id;
use crate::wire::{header, push_be_u32, u32_at, lemma_header_read_back};
use crate::chance::random_in_range;

verus! {

pub struct EnquireLink;

/// An enquire_link PDU: a bare 16-byte header with status 0.
pub open spec fn enquire_link_pdu(sequence_number: u32) -> Seq<u8> {
    header(16, command_id::ENQUIRE_LINK, 0, sequence_number)
}

impl EnquireLink {
    /// The enquire_link PDU with the given sequence number.
    pub fn create_pdu_with_sequence(sequence_number: u32) -> (pdu: Vec<u8>)
        ensures
            pdu@ == enquire_link_pdu(sequence_number),
    {
        let mut pdu: Vec<u8> = Vec::new();
        push_be_u32(&mut pdu, 16);
        push_be_u32(&mut pdu, command_id::ENQUIRE_LINK);
        push_be_u32(&mut pdu, 0);
        push_be_u32(&mut pdu, sequence_number);
        pdu
    }

    /// An enquire_link PDU with a random sequence number in `1..=65535`.
    pub fn create_pdu() -> (pdu: Vec<u8>)
        ensures
            exists|seq: u32| 1 <= seq <= 65535 && pdu@ == #[trigger] enquire_link_pdu(seq),
    {
        let sequence_number = random_in_range(1, 65535);
        Self::create_pdu_with_sequence(sequence_number)
    }
}

/// An enquire_link states its own size (16 bytes) and carries its command id,
/// status 0 and the sequence number.
pub proof fn law_enquire_link_pdu_header(sequence_number: u32)
    ensures
        enquire_link_pdu(sequence_number).len() == 16,
        u32_at(enquire_link_pdu(sequence_number), 0) == 16,
        u32_at(enquire_link_pdu(sequence_number), 4) == command_id::ENQUIRE_LINK,
        u32_at(enquire_link_pdu(sequence_number), 8) == 0,
        u32_at(enquire_link_pdu(sequence_number), 12) == sequence_number,
{
    lemma_header_read_back(16, command_id::ENQUIRE_LINK, 0, sequence_number, Seq::empty());
    assert(enquire_link_pdu(sequence_number) =~= header(16, command_id::ENQUIRE_LINK, 0, sequence_number) + Seq::<u8>::empty());
}

} // verus!
