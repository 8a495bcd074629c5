//! Bind requests (receiver, transmitter, transceiver) built byte by byte, and the
//! header of their responses.
use vstd::prelude::*;
use vstd::string::*;
use crate::common::{self, command_id, status_description, get_status_description};
use crate::wire::{lemma_header_read_back, byte_len, c_string, header, push_be_u32, push_c_string, read_u32_at, u32_at, bytes_of, utf8_len, ShortBuffer};
use crate::chance::random_in_range;
use crate::text::{decimal, push_decimal};

verus! {

/// Enum representing the bind mode
#[derive(Debug, Clone, Copy, PartialEq, Eq, Structural)]
pub enum BindMode {
    Receiver,
    Transmitter,
    Transceiver,
}

/// The command id of the bind request for a mode.
pub open spec fn bind_command_id(mode: BindMode) -> u32 {
    match mode {
        BindMode::Receiver => command_id::BIND_RECEIVER,
        BindMode::Transmitter => command_id::BIND_TRANSMITTER,
        BindMode::Transceiver => command_id::BIND_TRANSCEIVER,
    }
}

impl BindMode {
    pub fn command_id(&self) -> (id: u32)
        ensures
            id == bind_command_id(*self),
    {
        match self {
            BindMode::Receiver => command_id::BIND_RECEIVER,
            BindMode::Transmitter => command_id::BIND_TRANSMITTER,
            BindMode::Transceiver => command_id::BIND_TRANSCEIVER,
        }
    }
}

/// Why a bind request could not be built.
#[derive(Debug, Clone, PartialEq, Eq, Structural)]
pub enum BindError {
    /// System ID is too long (max 16 bytes); holds its length.
    SystemIdTooLong(usize),
    /// Password is too long (max 9 bytes); holds its length.
    PasswordTooLong(usize),
}

pub type BindResult = Result<Vec<u8>, BindError>;

/// The text of each refusal.
pub open spec fn bind_error_message(e: BindError) -> Seq<char> {
    match e {
        BindError::SystemIdTooLong(n) => "System ID is too long (max 16 bytes): "@ + decimal(n as nat),
        BindError::PasswordTooLong(n) => "Password is too long (max 9 bytes): "@ + decimal(n as nat),
    }
}

impl BindError {
    /// The text of this refusal.
    pub fn message(&self) -> (s: String)
        ensures
            s@ == bind_error_message(*self),
    {
        match self {
            BindError::SystemIdTooLong(n) => {
                let mut s = String::from_str("System ID is too long (max 16 bytes): ");
                push_decimal(&mut s, *n as u64);
                s
            },
            BindError::PasswordTooLong(n) => {
                let mut s = String::from_str("Password is too long (max 9 bytes): ");
                push_decimal(&mut s, *n as u64);
                s
            },
        }
    }
}

#[derive(Debug, Clone)]
pub struct BindBuilder {
    pub system_id: String,
    pub password: String,
    pub system_type: String,
    pub mode: BindMode,
}

impl BindBuilder {
    pub fn new(mode: BindMode, system_id: String, password: String) -> (b: Self)
        ensures
            b.mode == mode,
            b.system_id@ == system_id@,
            b.password@ == password@,
            b.system_type@ == Seq::<char>::empty(),
    {
        Self { system_id, password, system_type: String::new(), mode }
    }
}

#[derive(Debug, Clone)]
pub struct BindResponse {
    pub command_status: u32,
    pub status_name: String,
}

pub struct Bind;

/// The bytes of a bind request: header, system id, password and system type as
/// C-octet strings, then interface version, address TON and NPI and an empty
/// address range. The command length is the PDU's size, modulo 2^32.
pub open spec fn bind_pdu(
    command_id: u32,
    interface_version: u8,
    ton: u8,
    npi: u8,
    system_id: Seq<char>,
    password: Seq<char>,
    system_type: Seq<char>,
    sequence_number: u32,
) -> Seq<u8> {
    let body = c_string(system_id) + c_string(password) + c_string(system_type) + seq![
        interface_version,
        ton,
        npi,
        0u8,
    ];
    header(((16 + body.len()) % 0x1_0000_0000) as u32, command_id, 0, sequence_number) + body
}

/// The outcome of building a bind request from the given fields: the length
/// checks in order, then the PDU.
pub open spec fn bind_outcome(
    command_id: u32,
    interface_version: u8,
    ton: u8,
    npi: u8,
    system_id: Seq<char>,
    password: Seq<char>,
    system_type: Seq<char>,
    sequence_number: u32,
) -> Result<Seq<u8>, BindError> {
    if utf8_len(system_id) > 16 {
        Err(BindError::SystemIdTooLong(utf8_len(system_id) as usize))
    } else if utf8_len(password) > 9 {
        Err(BindError::PasswordTooLong(utf8_len(password) as usize))
    } else {
        Ok(bind_pdu(command_id, interface_version, ton, npi, system_id, password, system_type, sequence_number))
    }
}

/// Writes a bind request PDU.
pub(crate) fn write_bind_pdu(
    command_id: u32,
    interface_version: u8,
    ton: u8,
    npi: u8,
    system_id: &str,
    password: &str,
    system_type: &str,
    sequence_number: u32,
) -> (pdu: Vec<u8>)
    ensures
        pdu@ == bind_pdu(command_id, interface_version, ton, npi, system_id@, password@, system_type@, sequence_number),
{
    let total: u128 = 19 + byte_len(system_id) as u128 + byte_len(password) as u128
        + byte_len(system_type) as u128 + 4;
    let command_length = (total % 0x1_0000_0000) as u32;
    let mut pdu: Vec<u8> = Vec::new();
    push_be_u32(&mut pdu, command_length);
    push_be_u32(&mut pdu, command_id);
    push_be_u32(&mut pdu, common::COMMAND_STATUS_OK);
    push_be_u32(&mut pdu, sequence_number);
    push_c_string(&mut pdu, system_id);
    push_c_string(&mut pdu, password);
    push_c_string(&mut pdu, system_type);
    pdu.push(interface_version);
    pdu.push(ton);
    pdu.push(npi);
    pdu.push(0u8);
    let ghost body = c_string(system_id@) + c_string(password@) + c_string(system_type@) + seq![
        interface_version,
        ton,
        npi,
        0u8,
    ];
    assert(16 + body.len() == total);
    assert(pdu@ =~= bind_pdu(command_id, interface_version, ton, npi, system_id@, password@, system_type@, sequence_number));
    pdu
}

/// The command status of a response: the 32-bit value at offset 8 of its header.
pub open spec fn bind_resp_status(buffer: Seq<u8>) -> u32 {
    u32_at(buffer, 8)
}

impl Bind {
    /// Builds the bind request for `params` with the given sequence number.
    pub fn bind_with_sequence(params: &BindBuilder, sequence_number: u32) -> (res: BindResult)
        ensures
            bytes_of(res) == bind_outcome(
                bind_command_id(params.mode),
                common::SMPP_INTERFACE_VERSION,
                common::ton::UNKNOWN,
                common::npi::ISDN,
                params.system_id@,
                params.password@,
                params.system_type@,
                sequence_number,
            ),
    {
        let system_id_len = byte_len(params.system_id.as_str());
        let password_len = byte_len(params.password.as_str());
        if system_id_len > 16 {
            return Err(BindError::SystemIdTooLong(system_id_len));
        }
        if password_len > 9 {
            return Err(BindError::PasswordTooLong(password_len));
        }
        Ok(
            write_bind_pdu(
                params.mode.command_id(),
                common::SMPP_INTERFACE_VERSION,
                common::ton::UNKNOWN,
                common::npi::ISDN,
                params.system_id.as_str(),
                params.password.as_str(),
                params.system_type.as_str(),
                sequence_number,
            ),
        )
    }

    /// Builds the bind request for `params` with a random sequence number in
    /// `1..=4294967294`.
    pub fn bind_async(params: BindBuilder) -> (res: BindResult)
        ensures
            utf8_len(params.system_id@) > 16 ==> res == Err::<Vec<u8>, BindError>(
                BindError::SystemIdTooLong(utf8_len(params.system_id@) as usize),
            ),
            utf8_len(params.system_id@) <= 16 && utf8_len(params.password@) > 9 ==> res
                == Err::<Vec<u8>, BindError>(BindError::PasswordTooLong(utf8_len(params.password@) as usize)),
            utf8_len(params.system_id@) <= 16 && utf8_len(params.password@) <= 9 ==> (
            exists|seq: u32|
                1 <= seq <= 4294967294 && #[trigger] bind_outcome(
                    bind_command_id(params.mode),
                    common::SMPP_INTERFACE_VERSION,
                    common::ton::UNKNOWN,
                    common::npi::ISDN,
                    params.system_id@,
                    params.password@,
                    params.system_type@,
                    seq,
                ) == bytes_of(res)),
    {
        let system_id_len = byte_len(params.system_id.as_str());
        let password_len = byte_len(params.password.as_str());
        if system_id_len > 16 {
            return Err(BindError::SystemIdTooLong(system_id_len));
        }
        if password_len > 9 {
            return Err(BindError::PasswordTooLong(password_len));
        }
        let sequence_number = random_in_range(1, 4294967294);
        Self::bind_with_sequence(&params, sequence_number)
    }

    /// Reads the status of a bind response: the command status at offset 8 and
    /// its description. Buffers shorter than a header are refused.
    pub fn parse_bind_resp(buffer: &[u8]) -> (res: Result<BindResponse, ShortBuffer>)
        ensures
            buffer@.len() < 16 ==> res == Err::<BindResponse, ShortBuffer>(
                ShortBuffer { expected: 16, actual: buffer@.len() as usize },
            ),
            buffer@.len() >= 16 ==> (res matches Ok(r) && r.command_status == bind_resp_status(buffer@)
                && r.status_name@ == status_description(r.command_status)),
    {
        if buffer.len() < 16 {
            return Err(ShortBuffer { expected: 16, actual: buffer.len() });
        }
        let command_status = read_u32_at(buffer, 8);
        let status_name = get_status_description(command_status);
        Ok(BindResponse { command_status, status_name })
    }
}

/// A bind request states its own size: when the PDU is under 4 GiB its command
/// length field equals its length, and its header carries the command id,
/// status 0 and the sequence number.
pub proof fn law_bind_pdu_header(
    command_id: u32,
    interface_version: u8,
    ton: u8,
    npi: u8,
    system_id: Seq<char>,
    password: Seq<char>,
    system_type: Seq<char>,
    sequence_number: u32,
)
    requires
        bind_pdu(command_id, interface_version, ton, npi, system_id, password, system_type, sequence_number).len()
            < 0x1_0000_0000,
    ensures
        ({
            let p = bind_pdu(command_id, interface_version, ton, npi, system_id, password, system_type, sequence_number);
            &&& u32_at(p, 0) == p.len()
            &&& u32_at(p, 4) == command_id
            &&& u32_at(p, 8) == 0
            &&& u32_at(p, 12) == sequence_number
        }),
{
    let body = c_string(system_id) + c_string(password) + c_string(system_type) + seq![
        interface_version,
        ton,
        npi,
        0u8,
    ];
    let len = ((16 + body.len()) % 0x1_0000_0000) as u32;
    lemma_header_read_back(len, command_id, 0, sequence_number, body);
}

} // verus!
