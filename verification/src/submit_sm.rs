//! submit_sm requests built byte by byte from validated parameters, and the
//! fields of their responses.
use vstd::prelude::*;
use vstd::string::*;
use vstd::utf8::{encode_utf8, valid_utf8, decode_utf8};
use crate::common::{command_id, status_description, get_status_description};
use crate::wire::{
    lemma_header_read_back, byte_len, c_string, header, push_be_u32, push_bytes, push_c_string, read_u32_at, u32_at,
    utf8_len, bytes_of, nul_from, find_nul, copy_range, ErrorKind, c_string_at, lemma_prefix_of_sum,
    lemma_piece_read, lemma_c_string_read,
};
use crate::text::{utf8_lossy, lossy_string};
use crate::chance::random_in_range;

verus! {

const SUBMIT_SM: u32 = 0x00000004;

#[derive(Debug, Clone, Copy, PartialEq, Eq, Structural)]
pub enum TypeOfNumber {
    Unknown,
    International,
    National,
    NetworkSpecific,
    SubscriberNumber,
    Alphanumeric,
    Abbreviated,
}

/// The wire value of a type of number.
pub open spec fn ton_code(t: TypeOfNumber) -> u8 {
    match t {
        TypeOfNumber::Unknown => 0,
        TypeOfNumber::International => 1,
        TypeOfNumber::National => 2,
        TypeOfNumber::NetworkSpecific => 3,
        TypeOfNumber::SubscriberNumber => 4,
        TypeOfNumber::Alphanumeric => 5,
        TypeOfNumber::Abbreviated => 6,
    }
}

/// The type of number a wire value stands for; unknown values give `Unknown`.
pub open spec fn ton_from_code(value: u8) -> TypeOfNumber {
    match value {
        1 => TypeOfNumber::International,
        2 => TypeOfNumber::National,
        3 => TypeOfNumber::NetworkSpecific,
        4 => TypeOfNumber::SubscriberNumber,
        5 => TypeOfNumber::Alphanumeric,
        6 => TypeOfNumber::Abbreviated,
        _ => TypeOfNumber::Unknown,
    }
}

impl TypeOfNumber {
    /// The wire value of this type of number.
    pub fn code(&self) -> (c: u8)
        ensures
            c == ton_code(*self),
    {
        match self {
            TypeOfNumber::Unknown => 0,
            TypeOfNumber::International => 1,
            TypeOfNumber::National => 2,
            TypeOfNumber::NetworkSpecific => 3,
            TypeOfNumber::SubscriberNumber => 4,
            TypeOfNumber::Alphanumeric => 5,
            TypeOfNumber::Abbreviated => 6,
        }
    }
}

impl From<u8> for TypeOfNumber {
    fn from(value: u8) -> (t: Self) {
        match value {
            1 => TypeOfNumber::International,
            2 => TypeOfNumber::National,
            3 => TypeOfNumber::NetworkSpecific,
            4 => TypeOfNumber::SubscriberNumber,
            5 => TypeOfNumber::Alphanumeric,
            6 => TypeOfNumber::Abbreviated,
            _ => TypeOfNumber::Unknown,
        }
    }
}

impl vstd::std_specs::convert::FromSpecImpl<u8> for TypeOfNumber {
    open spec fn obeys_from_spec() -> bool {
        true
    }

    open spec fn from_spec(value: u8) -> Self {
        ton_from_code(value)
    }
}

#[derive(Debug, Clone, Copy, PartialEq, Eq, Structural)]
pub enum NumericPlanIndicator {
    Unknown,
    ISDN,
    Data,
    Telex,
    LandMobile,
    National,
    Private,
    ERMES,
    Internet,
    WAPClientId,
}

/// The wire value of a numbering plan indicator.
pub open spec fn npi_code(n: NumericPlanIndicator) -> u8 {
    match n {
        NumericPlanIndicator::Unknown => 0,
        NumericPlanIndicator::ISDN => 1,
        NumericPlanIndicator::Data => 3,
        NumericPlanIndicator::Telex => 4,
        NumericPlanIndicator::LandMobile => 6,
        NumericPlanIndicator::National => 8,
        NumericPlanIndicator::Private => 9,
        NumericPlanIndicator::ERMES => 10,
        NumericPlanIndicator::Internet => 14,
        NumericPlanIndicator::WAPClientId => 18,
    }
}

/// The numbering plan a wire value stands for; unknown values give `Unknown`.
pub open spec fn npi_from_code(value: u8) -> NumericPlanIndicator {
    match value {
        1 => NumericPlanIndicator::ISDN,
        3 => NumericPlanIndicator::Data,
        4 => NumericPlanIndicator::Telex,
        6 => NumericPlanIndicator::LandMobile,
        8 => NumericPlanIndicator::National,
        9 => NumericPlanIndicator::Private,
        10 => NumericPlanIndicator::ERMES,
        14 => NumericPlanIndicator::Internet,
        18 => NumericPlanIndicator::WAPClientId,
        _ => NumericPlanIndicator::Unknown,
    }
}

impl NumericPlanIndicator {
    /// The wire value of this numbering plan indicator.
    pub fn code(&self) -> (c: u8)
        ensures
            c == npi_code(*self),
    {
        match self {
            NumericPlanIndicator::Unknown => 0,
            NumericPlanIndicator::ISDN => 1,
            NumericPlanIndicator::Data => 3,
            NumericPlanIndicator::Telex => 4,
            NumericPlanIndicator::LandMobile => 6,
            NumericPlanIndicator::National => 8,
            NumericPlanIndicator::Private => 9,
            NumericPlanIndicator::ERMES => 10,
            NumericPlanIndicator::Internet => 14,
            NumericPlanIndicator::WAPClientId => 18,
        }
    }
}

impl From<u8> for NumericPlanIndicator {
    fn from(value: u8) -> (n: Self) {
        match value {
            1 => NumericPlanIndicator::ISDN,
            3 => NumericPlanIndicator::Data,
            4 => NumericPlanIndicator::Telex,
            6 => NumericPlanIndicator::LandMobile,
            8 => NumericPlanIndicator::National,
            9 => NumericPlanIndicator::Private,
            10 => NumericPlanIndicator::ERMES,
            14 => NumericPlanIndicator::Internet,
            18 => NumericPlanIndicator::WAPClientId,
            _ => NumericPlanIndicator::Unknown,
        }
    }
}

impl vstd::std_specs::convert::FromSpecImpl<u8> for NumericPlanIndicator {
    open spec fn obeys_from_spec() -> bool {
        true
    }

    open spec fn from_spec(value: u8) -> Self {
        npi_from_code(value)
    }
}

#[derive(Debug, Clone)]
pub struct SubmitSmResponse {
    pub command_status: u32,
    pub status_name: String,
    pub sequence_number: u32,
    pub message_id: Option<String>,
}

#[derive(Debug, Clone)]
pub struct SubmitSmParams {
    pub source_ton: TypeOfNumber,
    pub source_npi: NumericPlanIndicator,
    pub source_addr: String,
    pub dest_ton: TypeOfNumber,
    pub dest_npi: NumericPlanIndicator,
    pub destination_addr: String,
    pub esm_class: u8,
    pub protocol_id: u8,
    pub schedule_delivery_time: String,
    pub validity_period: String,
    pub registered_delivery: u8,
    pub data_coding: u8,
    pub message: String,
}

impl Default for SubmitSmParams {
    fn default() -> (p: Self)
        ensures
            p.source_ton == TypeOfNumber::Unknown,
            p.source_npi == NumericPlanIndicator::Unknown,
            p.source_addr@ == Seq::<char>::empty(),
            p.dest_ton == TypeOfNumber::Unknown,
            p.dest_npi == NumericPlanIndicator::Unknown,
            p.destination_addr@ == Seq::<char>::empty(),
            p.esm_class == 0,
            p.protocol_id == 0,
            p.schedule_delivery_time@ == Seq::<char>::empty(),
            p.validity_period@ == Seq::<char>::empty(),
            p.registered_delivery == 0,
            p.data_coding == 0,
            p.message@ == Seq::<char>::empty(),
    {
        Self {
            source_ton: TypeOfNumber::Unknown,
            source_npi: NumericPlanIndicator::Unknown,
            source_addr: String::new(),
            dest_ton: TypeOfNumber::Unknown,
            dest_npi: NumericPlanIndicator::Unknown,
            destination_addr: String::new(),
            esm_class: 0,
            protocol_id: 0,
            schedule_delivery_time: String::new(),
            validity_period: String::new(),
            registered_delivery: 0,
            data_coding: 0,
            message: String::new(),
        }
    }
}

pub struct SubmitSmBuilder {
    params: SubmitSmParams,
}

impl SubmitSmBuilder {
    /// The parameters collected so far.
    pub closed spec fn spec_params(self) -> SubmitSmParams {
        self.params
    }

    pub fn new() -> (b: Self)
        ensures
            b.spec_params().source_ton == TypeOfNumber::Unknown,
            b.spec_params().source_npi == NumericPlanIndicator::Unknown,
            b.spec_params().source_addr@ == Seq::<char>::empty(),
            b.spec_params().dest_ton == TypeOfNumber::Unknown,
            b.spec_params().dest_npi == NumericPlanIndicator::Unknown,
            b.spec_params().destination_addr@ == Seq::<char>::empty(),
            b.spec_params().esm_class == 0,
            b.spec_params().protocol_id == 0,
            b.spec_params().schedule_delivery_time@ == Seq::<char>::empty(),
            b.spec_params().validity_period@ == Seq::<char>::empty(),
            b.spec_params().registered_delivery == 0,
            b.spec_params().data_coding == 0,
            b.spec_params().message@ == Seq::<char>::empty(),
    {
        Self { params: SubmitSmParams::default() }
    }

    pub fn source(self, ton: TypeOfNumber, npi: NumericPlanIndicator, addr: String) -> (b: Self)
        ensures
            b.spec_params() == apply_setter(self.spec_params(), SetterCall::Source(ton, npi, addr)),
            b.spec_params() == (SubmitSmParams {
                source_ton: ton,
                source_npi: npi,
                source_addr: addr,
                ..self.spec_params()
            }),
    {
        let mut b = self;
        b.params.source_ton = ton;
        b.params.source_npi = npi;
        b.params.source_addr = addr;
        b
    }

    pub fn destination(self, ton: TypeOfNumber, npi: NumericPlanIndicator, addr: String) -> (b: Self)
        ensures
            b.spec_params() == apply_setter(self.spec_params(), SetterCall::Destination(ton, npi, addr)),
            b.spec_params() == (SubmitSmParams {
                dest_ton: ton,
                dest_npi: npi,
                destination_addr: addr,
                ..self.spec_params()
            }),
    {
        let mut b = self;
        b.params.dest_ton = ton;
        b.params.dest_npi = npi;
        b.params.destination_addr = addr;
        b
    }

    pub fn message(self, msg: String) -> (b: Self)
        ensures
            b.spec_params() == apply_setter(self.spec_params(), SetterCall::Message(msg)),
            b.spec_params() == (SubmitSmParams { message: msg, ..self.spec_params() }),
    {
        let mut b = self;
        b.params.message = msg;
        b
    }

    pub fn esm_class(self, class: u8) -> (b: Self)
        ensures
            b.spec_params() == apply_setter(self.spec_params(), SetterCall::EsmClass(class)),
            b.spec_params() == (SubmitSmParams { esm_class: class, ..self.spec_params() }),
    {
        let mut b = self;
        b.params.esm_class = class;
        b
    }

    pub fn protocol_id(self, pid: u8) -> (b: Self)
        ensures
            b.spec_params() == apply_setter(self.spec_params(), SetterCall::ProtocolId(pid)),
            b.spec_params() == (SubmitSmParams { protocol_id: pid, ..self.spec_params() }),
    {
        let mut b = self;
        b.params.protocol_id = pid;
        b
    }

    pub fn schedule_delivery_time(self, time: String) -> (b: Self)
        ensures
            b.spec_params() == apply_setter(self.spec_params(), SetterCall::ScheduleDeliveryTime(time)),
            b.spec_params() == (SubmitSmParams { schedule_delivery_time: time, ..self.spec_params() }),
    {
        let mut b = self;
        b.params.schedule_delivery_time = time;
        b
    }

    pub fn validity_period(self, period: String) -> (b: Self)
        ensures
            b.spec_params() == apply_setter(self.spec_params(), SetterCall::ValidityPeriod(period)),
            b.spec_params() == (SubmitSmParams { validity_period: period, ..self.spec_params() }),
    {
        let mut b = self;
        b.params.validity_period = period;
        b
    }

    pub fn registered_delivery(self, flags: u8) -> (b: Self)
        ensures
            b.spec_params() == apply_setter(self.spec_params(), SetterCall::RegisteredDelivery(flags)),
            b.spec_params() == (SubmitSmParams { registered_delivery: flags, ..self.spec_params() }),
    {
        let mut b = self;
        b.params.registered_delivery = flags;
        b
    }

    pub fn data_coding(self, coding: u8) -> (b: Self)
        ensures
            b.spec_params() == apply_setter(self.spec_params(), SetterCall::DataCoding(coding)),
            b.spec_params() == (SubmitSmParams { data_coding: coding, ..self.spec_params() }),
    {
        let mut b = self;
        b.params.data_coding = coding;
        b
    }

    pub fn build(self) -> (p: SubmitSmParams)
        ensures
            p == self.spec_params(),
    {
        self.params
    }
}

/// One call of a builder setter, with its arguments.
pub enum SetterCall {
    Source(TypeOfNumber, NumericPlanIndicator, String),
    Destination(TypeOfNumber, NumericPlanIndicator, String),
    Message(String),
    EsmClass(u8),
    ProtocolId(u8),
    ScheduleDeliveryTime(String),
    ValidityPeriod(String),
    RegisteredDelivery(u8),
    DataCoding(u8),
}

/// The parameters after one setter call: the fields that the setter names take
/// its arguments, the others stay.
pub open spec fn apply_setter(p: SubmitSmParams, c: SetterCall) -> SubmitSmParams {
    match c {
        SetterCall::Source(ton, npi, addr) => SubmitSmParams {
            source_ton: ton,
            source_npi: npi,
            source_addr: addr,
            ..p
        },
        SetterCall::Destination(ton, npi, addr) => SubmitSmParams {
            dest_ton: ton,
            dest_npi: npi,
            destination_addr: addr,
            ..p
        },
        SetterCall::Message(m) => SubmitSmParams { message: m, ..p },
        SetterCall::EsmClass(v) => SubmitSmParams { esm_class: v, ..p },
        SetterCall::ProtocolId(v) => SubmitSmParams { protocol_id: v, ..p },
        SetterCall::ScheduleDeliveryTime(t) => SubmitSmParams { schedule_delivery_time: t, ..p },
        SetterCall::ValidityPeriod(t) => SubmitSmParams { validity_period: t, ..p },
        SetterCall::RegisteredDelivery(v) => SubmitSmParams { registered_delivery: v, ..p },
        SetterCall::DataCoding(v) => SubmitSmParams { data_coding: v, ..p },
    }
}

/// The parameters after a chain of setter calls, first call first.
pub open spec fn apply_setters(p: SubmitSmParams, calls: Seq<SetterCall>) -> SubmitSmParams
    decreases calls.len(),
{
    if calls.len() == 0 {
        p
    } else {
        apply_setter(apply_setters(p, calls.drop_last()), calls.last())
    }
}

/// The group of fields that a setter writes (source, destination, message,
/// esm_class, protocol_id, schedule time, validity, registered delivery, data
/// coding), numbered from 0.
pub open spec fn setter_field(c: SetterCall) -> int {
    match c {
        SetterCall::Source(..) => 0,
        SetterCall::Destination(..) => 1,
        SetterCall::Message(..) => 2,
        SetterCall::EsmClass(..) => 3,
        SetterCall::ProtocolId(..) => 4,
        SetterCall::ScheduleDeliveryTime(..) => 5,
        SetterCall::ValidityPeriod(..) => 6,
        SetterCall::RegisteredDelivery(..) => 7,
        SetterCall::DataCoding(..) => 8,
    }
}

/// Whether two sets of parameters agree on the fields of group `g`.
pub open spec fn same_field(a: SubmitSmParams, b: SubmitSmParams, g: int) -> bool {
    if g == 0 {
        a.source_ton == b.source_ton && a.source_npi == b.source_npi && a.source_addr == b.source_addr
    } else if g == 1 {
        a.dest_ton == b.dest_ton && a.dest_npi == b.dest_npi && a.destination_addr == b.destination_addr
    } else if g == 2 {
        a.message == b.message
    } else if g == 3 {
        a.esm_class == b.esm_class
    } else if g == 4 {
        a.protocol_id == b.protocol_id
    } else if g == 5 {
        a.schedule_delivery_time == b.schedule_delivery_time
    } else if g == 6 {
        a.validity_period == b.validity_period
    } else if g == 7 {
        a.registered_delivery == b.registered_delivery
    } else {
        a.data_coding == b.data_coding
    }
}

/// A setter leaves every field outside its own group as it was.
proof fn lemma_setter_keeps_other_fields(p: SubmitSmParams, c: SetterCall, g: int)
    requires
        0 <= g <= 8,
        setter_field(c) != g,
    ensures
        same_field(apply_setter(p, c), p, g),
{
}

/// A field group that no call of a chain writes keeps its value.
pub proof fn law_unwritten_field_keeps_value(p: SubmitSmParams, calls: Seq<SetterCall>, g: int)
    requires
        0 <= g <= 8,
        forall|j: int| 0 <= j < calls.len() ==> setter_field(#[trigger] calls[j]) != g,
    ensures
        same_field(apply_setters(p, calls), p, g),
    decreases calls.len(),
{
    if calls.len() > 0 {
        law_unwritten_field_keeps_value(p, calls.drop_last(), g);
        assert(setter_field(calls[calls.len() - 1]) != g);
        lemma_setter_keeps_other_fields(apply_setters(p, calls.drop_last()), calls.last(), g);
    }
}

/// After a chain of setter calls, a field group holds what the last call that
/// writes it wrote.
pub proof fn law_last_setter_wins(p: SubmitSmParams, calls: Seq<SetterCall>, i: int)
    requires
        0 <= i < calls.len(),
        forall|j: int| i < j < calls.len() ==> setter_field(#[trigger] calls[j]) != setter_field(calls[i]),
    ensures
        same_field(apply_setters(p, calls), apply_setter(p, calls[i]), setter_field(calls[i])),
    decreases calls.len(),
{
    let g = setter_field(calls[i]);
    if i == calls.len() - 1 {
        assert(calls.drop_last().len() == i);
    } else {
        assert(calls.drop_last()[i] == calls[i]);
        assert forall|j: int| i < j < calls.drop_last().len() implies setter_field(
            #[trigger] calls.drop_last()[j],
        ) != g by {
            assert(calls.drop_last()[j] == calls[j]);
        }
        law_last_setter_wins(p, calls.drop_last(), i);
        assert(setter_field(calls[calls.len() - 1]) != g);
        lemma_setter_keeps_other_fields(apply_setters(p, calls.drop_last()), calls.last(), g);
    }
}

/// Setters that write different field groups can be called in either order.
pub proof fn law_setters_of_different_fields_commute(p: SubmitSmParams, a: SetterCall, b: SetterCall)
    requires
        setter_field(a) != setter_field(b),
    ensures
        apply_setter(apply_setter(p, a), b) == apply_setter(apply_setter(p, b), a),
{
}

impl Default for SubmitSmBuilder {
    fn default() -> (b: Self)
        ensures
            b.spec_params().source_ton == TypeOfNumber::Unknown,
            b.spec_params().source_npi == NumericPlanIndicator::Unknown,
            b.spec_params().source_addr@ == Seq::<char>::empty(),
            b.spec_params().dest_ton == TypeOfNumber::Unknown,
            b.spec_params().dest_npi == NumericPlanIndicator::Unknown,
            b.spec_params().destination_addr@ == Seq::<char>::empty(),
            b.spec_params().esm_class == 0,
            b.spec_params().protocol_id == 0,
            b.spec_params().schedule_delivery_time@ == Seq::<char>::empty(),
            b.spec_params().validity_period@ == Seq::<char>::empty(),
            b.spec_params().registered_delivery == 0,
            b.spec_params().data_coding == 0,
            b.spec_params().message@ == Seq::<char>::empty(),
    {
        Self::new()
    }
}

/// Why a submit_sm could not be built, or its response not read.
#[derive(Debug, Clone, Copy, PartialEq, Eq, Structural)]
pub enum SubmitSmError {
    /// Message length exceeds 255 bytes limit for short message
    MessageTooLong,
    /// Source address exceeds 21 character limit
    SourceAddressTooLong,
    /// Destination address exceeds 21 character limit
    DestinationAddressTooLong,
    /// Schedule delivery time must be empty or 16 characters (YYMMDDhhmmsstnn)
    InvalidScheduleDeliveryTime,
    /// Validity period must be empty or 16 characters (YYMMDDhhmmsstnn)
    InvalidValidityPeriod,
    /// A response shorter than a header
    BufferTooShort,
}

/// The text of each refusal.
pub open spec fn submit_sm_error_message(e: SubmitSmError) -> Seq<char> {
    match e {
        SubmitSmError::MessageTooLong => "Message length exceeds 255 bytes limit for short message"@,
        SubmitSmError::SourceAddressTooLong => "Source address exceeds 21 character limit"@,
        SubmitSmError::DestinationAddressTooLong => "Destination address exceeds 21 character limit"@,
        SubmitSmError::InvalidScheduleDeliveryTime =>
            "Schedule delivery time must be empty or 16 characters (YYMMDDhhmmsstnn)"@,
        SubmitSmError::InvalidValidityPeriod => "Validity period must be empty or 16 characters (YYMMDDhhmmsstnn)"@,
        SubmitSmError::BufferTooShort => "Buffer too short"@,
    }
}

impl SubmitSmError {
    /// The text of this refusal.
    pub fn message(&self) -> (s: String)
        ensures
            s@ == submit_sm_error_message(*self),
    {
        match self {
            SubmitSmError::MessageTooLong => String::from_str("Message length exceeds 255 bytes limit for short message"),
            SubmitSmError::SourceAddressTooLong => String::from_str("Source address exceeds 21 character limit"),
            SubmitSmError::DestinationAddressTooLong => String::from_str("Destination address exceeds 21 character limit"),
            SubmitSmError::InvalidScheduleDeliveryTime => String::from_str(
                "Schedule delivery time must be empty or 16 characters (YYMMDDhhmmsstnn)",
            ),
            SubmitSmError::InvalidValidityPeriod => String::from_str(
                "Validity period must be empty or 16 characters (YYMMDDhhmmsstnn)",
            ),
            SubmitSmError::BufferTooShort => String::from_str("Buffer too short"),
        }
    }

    /// A refused parameter is invalid input; a short response is invalid data.
    pub fn kind(&self) -> (k: ErrorKind)
        ensures
            k == (if *self == SubmitSmError::BufferTooShort {
                ErrorKind::InvalidData
            } else {
                ErrorKind::InvalidInput
            }),
    {
        match self {
            SubmitSmError::BufferTooShort => ErrorKind::InvalidData,
            _ => ErrorKind::InvalidInput,
        }
    }
}

/// The checks on submit_sm parameters, in order; lengths are in UTF-8 bytes.
pub open spec fn submit_sm_validation(p: SubmitSmParams) -> Result<(), SubmitSmError> {
    if utf8_len(p.message@) > 255 {
        Err(SubmitSmError::MessageTooLong)
    } else if utf8_len(p.source_addr@) > 21 {
        Err(SubmitSmError::SourceAddressTooLong)
    } else if utf8_len(p.destination_addr@) > 21 {
        Err(SubmitSmError::DestinationAddressTooLong)
    } else if utf8_len(p.schedule_delivery_time@) != 0 && utf8_len(p.schedule_delivery_time@) != 16 {
        Err(SubmitSmError::InvalidScheduleDeliveryTime)
    } else if utf8_len(p.validity_period@) != 0 && utf8_len(p.validity_period@) != 16 {
        Err(SubmitSmError::InvalidValidityPeriod)
    } else {
        Ok(())
    }
}

/// The body of a submit_sm PDU (everything after the header).
pub open spec fn submit_sm_body(p: SubmitSmParams) -> Seq<u8> {
    let msg = encode_utf8(p.message@);
    c_string(Seq::empty()) + seq![ton_code(p.source_ton), npi_code(p.source_npi)] + c_string(
        p.source_addr@,
    ) + seq![ton_code(p.dest_ton), npi_code(p.dest_npi)] + c_string(p.destination_addr@) + seq![
        p.esm_class,
        p.protocol_id,
        0u8,
    ] + c_string(p.schedule_delivery_time@) + c_string(p.validity_period@) + seq![
        p.registered_delivery,
        0u8,
        p.data_coding,
        0u8,
        msg.len() as u8,
    ] + msg
}

/// Writes the body of a submit_sm PDU; its length fits a command length.
#[verifier::rlimit(40)]
fn write_submit_sm_body(p: &SubmitSmParams) -> (body: Vec<u8>)
    requires
        submit_sm_validation(*p) is Ok,
    ensures
        body@ == submit_sm_body(*p),
        body@.len() + 16 <= 0xFFFF_FFFF,
{
    let mut body: Vec<u8> = Vec::new();
    push_c_string(&mut body, "");
    proof {
        reveal_strlit("");
        assert(""@ =~= Seq::<char>::empty());
    }
    let ghost b0 = body@;
    body.push(p.source_ton.code());
    body.push(p.source_npi.code());
    push_c_string(&mut body, p.source_addr.as_str());
    let ghost b1 = body@;
    assert(b1 =~= b0 + seq![ton_code(p.source_ton), npi_code(p.source_npi)] + c_string(p.source_addr@));
    body.push(p.dest_ton.code());
    body.push(p.dest_npi.code());
    push_c_string(&mut body, p.destination_addr.as_str());
    let ghost b2 = body@;
    assert(b2 =~= b1 + seq![ton_code(p.dest_ton), npi_code(p.dest_npi)] + c_string(p.destination_addr@));
    body.push(p.esm_class);
    body.push(p.protocol_id);
    body.push(0);
    let ghost b3 = body@;
    assert(b3 =~= b2 + seq![p.esm_class, p.protocol_id, 0u8]);
    push_c_string(&mut body, p.schedule_delivery_time.as_str());
    push_c_string(&mut body, p.validity_period.as_str());
    let ghost b4 = body@;
    let message_bytes = p.message.as_str().as_bytes();
    body.push(p.registered_delivery);
    body.push(0);
    body.push(p.data_coding);
    body.push(0);
    body.push(message_bytes.len() as u8);
    let ghost b5 = body@;
    assert(b5 =~= b4 + seq![p.registered_delivery, 0u8, p.data_coding, 0u8, message_bytes@.len() as u8]);
    push_bytes(&mut body, message_bytes);
    assert(body@ =~= submit_sm_body(*p));
    body
}

/// The bytes of a submit_sm PDU for the parameters: header, an empty service
/// type, source and destination addresses with their TON/NPI, ESM class, protocol
/// id, priority 0, schedule and validity as C-octet strings, registered delivery,
/// replace flag 0, data coding, default message id 0, the message length and the
/// message bytes.
pub open spec fn submit_sm_pdu(p: SubmitSmParams, sequence_number: u32) -> Seq<u8> {
    let body = submit_sm_body(p);
    header((16 + body.len()) as u32, command_id::SUBMIT_SM, 0, sequence_number) + body
}

/// The outcome of building a submit_sm PDU: the checks, then the PDU.
pub open spec fn submit_sm_outcome(p: SubmitSmParams, sequence_number: u32) -> Result<Seq<u8>, SubmitSmError> {
    match submit_sm_validation(p) {
        Err(e) => Err(e),
        Ok(()) => Ok(submit_sm_pdu(p, sequence_number)),
    }
}

/// The bytes of a submit_sm_resp's message id: after the header, up to the first
/// NUL or the end.
pub open spec fn submit_resp_id_bytes(buffer: Seq<u8>) -> Seq<u8> {
    let end = match nul_from(buffer, 16) {
        Some(i) => i,
        None => buffer.len() as int,
    };
    buffer.subrange(16, end)
}

/// The message id a submit_sm_resp carries: the bytes after the header up to the
/// first NUL, read leniently as UTF-8, when the status is 0 and there is a body.
pub open spec fn submit_resp_message_id(buffer: Seq<u8>) -> Option<Seq<char>> {
    if u32_at(buffer, 8) == 0 && buffer.len() > 16 {
        Some(utf8_lossy(submit_resp_id_bytes(buffer)))
    } else {
        None
    }
}

pub struct SubmitSm;

impl SubmitSm {
    /// Builds the submit_sm PDU for `params` with the given sequence number.
    pub fn create_pdu_with_sequence(params: SubmitSmParams, sequence_number: u32) -> (res: Result<
        Vec<u8>,
        SubmitSmError,
    >)
        ensures
            bytes_of(res) == submit_sm_outcome(params, sequence_number),
    {
        Self::validate_params(&params)?;
        let body = write_submit_sm_body(&params);
        let mut pdu: Vec<u8> = Vec::new();
        push_be_u32(&mut pdu, (16 + body.len()) as u32);
        push_be_u32(&mut pdu, SUBMIT_SM);
        push_be_u32(&mut pdu, 0);
        push_be_u32(&mut pdu, sequence_number);
        push_bytes(&mut pdu, body.as_slice());
        assert(pdu@ =~= submit_sm_pdu(params, sequence_number));
        Ok(pdu)
    }

    /// Builds the submit_sm PDU for `params` with a random sequence number in
    /// `1..=65535`.
    pub fn create_pdu(params: SubmitSmParams) -> (res: Result<Vec<u8>, SubmitSmError>)
        ensures
            submit_sm_validation(params) matches Err(e) ==> res == Err::<Vec<u8>, SubmitSmError>(e),
            submit_sm_validation(params) is Ok ==> (exists|seq: u32|
                1 <= seq <= 65535 && #[trigger] submit_sm_outcome(params, seq) == bytes_of(res)),
    {
        Self::validate_params(&params)?;
        let sequence_number = random_in_range(1, 65535);
        Self::create_pdu_with_sequence(params, sequence_number)
    }

    /// Checks the lengths of the message, the addresses and the two time fields.
    pub fn validate_params(params: &SubmitSmParams) -> (res: Result<(), SubmitSmError>)
        ensures
            res == submit_sm_validation(*params),
    {
        if byte_len(params.message.as_str()) > 255 {
            return Err(SubmitSmError::MessageTooLong);
        }
        if byte_len(params.source_addr.as_str()) > 21 {
            return Err(SubmitSmError::SourceAddressTooLong);
        }
        if byte_len(params.destination_addr.as_str()) > 21 {
            return Err(SubmitSmError::DestinationAddressTooLong);
        }
        let schedule_len = byte_len(params.schedule_delivery_time.as_str());
        if schedule_len != 0 && schedule_len != 16 {
            return Err(SubmitSmError::InvalidScheduleDeliveryTime);
        }
        let validity_len = byte_len(params.validity_period.as_str());
        if validity_len != 0 && validity_len != 16 {
            return Err(SubmitSmError::InvalidValidityPeriod);
        }
        Ok(())
    }

    /// Reads a submit_sm_resp: status at offset 8, sequence number at 12, and the
    /// message id when the status is 0. Buffers shorter than a header are refused.
    pub fn parse_submit_sm_resp(buffer: &[u8]) -> (res: Result<SubmitSmResponse, SubmitSmError>)
        ensures
            buffer@.len() < 16 ==> res == Err::<SubmitSmResponse, SubmitSmError>(SubmitSmError::BufferTooShort),
            res matches Ok(r) ==> (r.message_id matches Some(id) ==> (valid_utf8(submit_resp_id_bytes(buffer@))
                ==> id@ == decode_utf8(submit_resp_id_bytes(buffer@)))),
            buffer@.len() >= 16 ==> (res matches Ok(r) && r.command_status == u32_at(buffer@, 8)
                && r.sequence_number == u32_at(buffer@, 12) && r.status_name@ == status_description(
                r.command_status,
            ) && (match (r.message_id, submit_resp_message_id(buffer@)) {
                (Some(id), Some(spec_id)) => id@ == spec_id,
                (None, None) => true,
                _ => false,
            })),
    {
        if buffer.len() < 16 {
            return Err(SubmitSmError::BufferTooShort);
        }
        let command_status = read_u32_at(buffer, 8);
        let sequence_number = read_u32_at(buffer, 12);
        let status_name = get_status_description(command_status);
        let message_id = if command_status == 0 && buffer.len() > 16 {
            let end = match find_nul(buffer, 16) {
                Some(i) => i,
                None => buffer.len(),
            };
            let id_bytes = copy_range(buffer, 16, end);
            let id = lossy_string(id_bytes.as_slice());
            assert(submit_resp_message_id(buffer@) == Some(id@));
            Some(id)
        } else {
            None
        };
        Ok(SubmitSmResponse { command_status, status_name, sequence_number, message_id })
    }
}

/// Every type of number reads back from its wire value.
pub proof fn law_ton_code_roundtrip(t: TypeOfNumber)
    ensures
        ton_from_code(ton_code(t)) == t,
{
}

/// Every numbering plan indicator reads back from its wire value.
pub proof fn law_npi_code_roundtrip(n: NumericPlanIndicator)
    ensures
        npi_from_code(npi_code(n)) == n,
{
}

/// A submit_sm built from valid parameters states its own size: its command
/// length field equals its length, and its header carries the command id,
/// status 0 and the sequence number.
pub proof fn law_submit_sm_pdu_header(p: SubmitSmParams, sequence_number: u32)
    requires
        submit_sm_validation(p) is Ok,
    ensures
        ({
            let pdu = submit_sm_pdu(p, sequence_number);
            &&& u32_at(pdu, 0) == pdu.len()
            &&& u32_at(pdu, 4) == command_id::SUBMIT_SM
            &&& u32_at(pdu, 8) == 0
            &&& u32_at(pdu, 12) == sequence_number
        }),
{
    let body = submit_sm_body(p);
    assert(body.len() <= 400);
    lemma_header_read_back((16 + body.len()) as u32, command_id::SUBMIT_SM, 0, sequence_number, body);
}

/// Where each field of a submit_sm stands: after the header come the empty
/// service type, the source TON and NPI codes, the source address, the
/// destination TON and NPI codes, the destination address, the ESM class, the
/// protocol id, priority 0, the schedule time, the validity period, registered
/// delivery, replace flag 0, data coding, default message id 0, the message
/// length and the message.
pub open spec fn submit_sm_fields_in_place(pdu: Seq<u8>, p: SubmitSmParams) -> bool {
    let d = 20 + utf8_len(p.source_addr@) as int;
    let e = d + 3 + utf8_len(p.destination_addr@) as int;
    let v = e + 4 + utf8_len(p.schedule_delivery_time@) as int;
    let g = v + 1 + utf8_len(p.validity_period@) as int;
    &&& pdu[16] == 0
    &&& pdu[17] == ton_code(p.source_ton)
    &&& pdu[18] == npi_code(p.source_npi)
    &&& c_string_at(pdu, 19, p.source_addr@)
    &&& pdu[d] == ton_code(p.dest_ton)
    &&& pdu[d + 1] == npi_code(p.dest_npi)
    &&& c_string_at(pdu, d + 2, p.destination_addr@)
    &&& pdu[e] == p.esm_class
    &&& pdu[e + 1] == p.protocol_id
    &&& pdu[e + 2] == 0
    &&& c_string_at(pdu, e + 3, p.schedule_delivery_time@)
    &&& c_string_at(pdu, v, p.validity_period@)
    &&& pdu[g] == p.registered_delivery
    &&& pdu[g + 1] == 0
    &&& pdu[g + 2] == p.data_coding
    &&& pdu[g + 3] == 0
    &&& pdu[g + 4] == utf8_len(p.message@)
    &&& pdu.subrange(g + 5, pdu.len() as int) == encode_utf8(p.message@)
}

/// A submit_sm that `SubmitSm::create_pdu_with_sequence` builds holds every
/// field of its parameters in place.
pub proof fn law_submit_sm_field_positions(p: SubmitSmParams, sequence_number: u32)
    ensures
        submit_sm_outcome(p, sequence_number) matches Ok(pdu) ==> submit_sm_fields_in_place(pdu, p),
{
    if submit_sm_validation(p) is Ok {
        lemma_submit_sm_pdu_fields(p, sequence_number);
    }
}

#[verifier::spinoff_prover]
#[verifier::rlimit(100)]
proof fn lemma_submit_sm_pdu_fields(p: SubmitSmParams, sequence_number: u32)
    requires
        submit_sm_validation(p) is Ok,
    ensures
        submit_sm_fields_in_place(submit_sm_pdu(p, sequence_number), p),
{
    let msg = encode_utf8(p.message@);
    let body = submit_sm_body(p);
    let h = header((16 + body.len()) as u32, command_id::SUBMIT_SM, 0, sequence_number);
    let pdu = submit_sm_pdu(p, sequence_number);
    assert(h.len() == 16);
    assert(encode_utf8(Seq::<char>::empty()) =~= Seq::<u8>::empty());
    let b1 = c_string(Seq::empty());
    let b2 = b1 + seq![ton_code(p.source_ton), npi_code(p.source_npi)];
    let b3 = b2 + c_string(p.source_addr@);
    let b4 = b3 + seq![ton_code(p.dest_ton), npi_code(p.dest_npi)];
    let b5 = b4 + c_string(p.destination_addr@);
    let b6 = b5 + seq![p.esm_class, p.protocol_id, 0u8];
    let b7 = b6 + c_string(p.schedule_delivery_time@);
    let b8 = b7 + c_string(p.validity_period@);
    let b9 = b8 + seq![p.registered_delivery, 0u8, p.data_coding, 0u8, msg.len() as u8];
    assert(body == b9 + msg);
    assert(body.subrange(0, body.len() as int) =~= body);
    lemma_prefix_of_sum(body, b9, msg);
    lemma_piece_read(body, b9, msg);
    lemma_prefix_of_sum(body, b8, seq![p.registered_delivery, 0u8, p.data_coding, 0u8, msg.len() as u8]);
    lemma_piece_read(body, b8, seq![p.registered_delivery, 0u8, p.data_coding, 0u8, msg.len() as u8]);
    lemma_prefix_of_sum(body, b7, c_string(p.validity_period@));
    lemma_piece_read(body, b7, c_string(p.validity_period@));
    lemma_prefix_of_sum(body, b6, c_string(p.schedule_delivery_time@));
    lemma_piece_read(body, b6, c_string(p.schedule_delivery_time@));
    lemma_prefix_of_sum(body, b5, seq![p.esm_class, p.protocol_id, 0u8]);
    lemma_piece_read(body, b5, seq![p.esm_class, p.protocol_id, 0u8]);
    lemma_prefix_of_sum(body, b4, c_string(p.destination_addr@));
    lemma_piece_read(body, b4, c_string(p.destination_addr@));
    lemma_prefix_of_sum(body, b3, seq![ton_code(p.dest_ton), npi_code(p.dest_npi)]);
    lemma_piece_read(body, b3, seq![ton_code(p.dest_ton), npi_code(p.dest_npi)]);
    lemma_prefix_of_sum(body, b2, c_string(p.source_addr@));
    lemma_piece_read(body, b2, c_string(p.source_addr@));
    lemma_prefix_of_sum(body, b1, seq![ton_code(p.source_ton), npi_code(p.source_npi)]);
    lemma_piece_read(body, b1, seq![ton_code(p.source_ton), npi_code(p.source_npi)]);
    assert(body.subrange(0, 1) == b1);
    assert(pdu == h + body);
    assert forall|t: int| 0 <= t < body.len() implies pdu[16 + t] == #[trigger] body[t] by {
    }
    lemma_c_string_read(pdu, 19, p.source_addr@);
    lemma_c_string_read(pdu, 16 + b4.len() as int, p.destination_addr@);
    lemma_c_string_read(pdu, 16 + b6.len() as int, p.schedule_delivery_time@);
    lemma_c_string_read(pdu, 16 + b7.len() as int, p.validity_period@);
    assert(pdu.subrange(16 + b9.len() as int, pdu.len() as int) =~= msg);
    assert(msg.len() <= 255);
}

} // verus!
