//! Bind-transmitter requests (interface version 3.4, address TON unknown, NPI
//! ISDN), and the header of their responses.
use vstd::prelude::*;
use vstd::string::*;
use crate::common::{status_description, get_status_description};
use crate::bind::{bind_pdu, write_bind_pdu, bind_resp_status};
use crate::wire::{byte_len, read_u32_at, utf8_len, bytes_of, ShortBuffer};
use crate::chance::random_in_range;
use crate::text::{decimal, push_decimal};

verus! {

const BIND_TRANSMITTER_CMD_ID: u32 = 0x00000002;
const SMPP_INTERFACE_VERSION: u8 = 0x34;
const ADDR_TON_UNKNOWN: u8 = 0;
const ADDR_NPI_ISDN: u8 = 1;

pub type BindTransmitterResult = Result<Vec<u8>, BindTransmitterError>;

/// Why a bind-transmitter request could not be built.
#[derive(Debug, Clone, PartialEq, Eq, Structural)]
pub enum BindTransmitterError {
    /// System ID is too long (max 16 bytes); holds its length.
    SystemIdTooLong(usize),
    /// Password is too long (max 9 bytes); holds its length.
    PasswordTooLong(usize),
}

/// The text of each refusal.
pub open spec fn bind_transmitter_error_message(e: BindTransmitterError) -> Seq<char> {
    match e {
        BindTransmitterError::SystemIdTooLong(n) => "System ID is too long (max 16 bytes): "@ + decimal(n as nat),
        BindTransmitterError::PasswordTooLong(n) => "Password is too long (max 9 bytes): "@ + decimal(n as nat),
    }
}

impl BindTransmitterError {
    /// The text of this refusal.
    pub fn message(&self) -> (s: String)
        ensures
            s@ == bind_transmitter_error_message(*self),
    {
        match self {
            BindTransmitterError::SystemIdTooLong(n) => {
                let mut s = String::from_str("System ID is too long (max 16 bytes): ");
                push_decimal(&mut s, *n as u64);
                s
            },
            BindTransmitterError::PasswordTooLong(n) => {
                let mut s = String::from_str("Password is too long (max 9 bytes): ");
                push_decimal(&mut s, *n as u64);
                s
            },
        }
    }
}

#[derive(Debug, Clone)]
pub struct BindTransmitterBuilder {
    pub system_id: String,
    pub password: String,
    pub system_type: String,
}

impl Default for BindTransmitterBuilder {
    fn default() -> (b: Self)
        ensures
            b.system_id@ == Seq::<char>::empty(),
            b.password@ == Seq::<char>::empty(),
            b.system_type@ == Seq::<char>::empty(),
    {
        Self { system_id: String::new(), password: String::new(), system_type: String::new() }
    }
}

impl BindTransmitterBuilder {
    pub fn new(system_id: String, password: String) -> (b: Self)
        ensures
            b.system_id@ == system_id@,
            b.password@ == password@,
            b.system_type@ == Seq::<char>::empty(),
    {
        Self { system_id, password, system_type: String::new() }
    }

    pub fn with_system_type(self, system_type: String) -> (b: Self)
        ensures
            b.system_id@ == self.system_id@,
            b.password@ == self.password@,
            b.system_type@ == system_type@,
    {
        let mut b = self;
        b.system_type = system_type;
        b
    }
}

#[derive(Debug, Clone)]
pub struct BindTransmitterResponse {
    pub command_status: u32,
    pub status_name: String,
}

pub struct BindTransmitter;

/// The outcome of building a bind-transmitter request: the length checks in order,
/// then the PDU with command id 2, interface version 0x34, TON 0 and NPI 1.
pub open spec fn bind_transmitter_outcome(
    system_id: Seq<char>,
    password: Seq<char>,
    system_type: Seq<char>,
    sequence_number: u32,
) -> Result<Seq<u8>, BindTransmitterError> {
    if utf8_len(system_id) > 16 {
        Err(BindTransmitterError::SystemIdTooLong(utf8_len(system_id) as usize))
    } else if utf8_len(password) > 9 {
        Err(BindTransmitterError::PasswordTooLong(utf8_len(password) as usize))
    } else {
        Ok(bind_pdu(0x00000002, 0x34, 0, 1, system_id, password, system_type, sequence_number))
    }
}

impl BindTransmitter {
    /// Builds the bind-transmitter request for `params` with the given sequence number.
    pub fn bind_transmitter_with_sequence(
        params: &BindTransmitterBuilder,
        sequence_number: u32,
    ) -> (res: BindTransmitterResult)
        ensures
            bytes_of(res) == bind_transmitter_outcome(
                params.system_id@,
                params.password@,
                params.system_type@,
                sequence_number,
            ),
    {
        let system_id_len = byte_len(params.system_id.as_str());
        let password_len = byte_len(params.password.as_str());
        if system_id_len > 16 {
            return Err(BindTransmitterError::SystemIdTooLong(system_id_len));
        }
        if password_len > 9 {
            return Err(BindTransmitterError::PasswordTooLong(password_len));
        }
        Ok(
            write_bind_pdu(
                BIND_TRANSMITTER_CMD_ID,
                SMPP_INTERFACE_VERSION,
                ADDR_TON_UNKNOWN,
                ADDR_NPI_ISDN,
                params.system_id.as_str(),
                params.password.as_str(),
                params.system_type.as_str(),
                sequence_number,
            ),
        )
    }

    /// Builds the bind-transmitter request for `params` with a random sequence
    /// number in `1..=4294967294`.
    pub fn bind_transmitter_async(params: BindTransmitterBuilder) -> (res: BindTransmitterResult)
        ensures
            utf8_len(params.system_id@) > 16 ==> res == Err::<Vec<u8>, BindTransmitterError>(
                BindTransmitterError::SystemIdTooLong(utf8_len(params.system_id@) as usize),
            ),
            utf8_len(params.system_id@) <= 16 && utf8_len(params.password@) > 9 ==> res
                == Err::<Vec<u8>, BindTransmitterError>(
                BindTransmitterError::PasswordTooLong(utf8_len(params.password@) as usize),
            ),
            utf8_len(params.system_id@) <= 16 && utf8_len(params.password@) <= 9 ==> (
            exists|seq: u32|
                1 <= seq <= 4294967294 && #[trigger] bind_transmitter_outcome(
                    params.system_id@,
                    params.password@,
                    params.system_type@,
                    seq,
                ) == bytes_of(res)),
    {
        let system_id_len = byte_len(params.system_id.as_str());
        let password_len = byte_len(params.password.as_str());
        if system_id_len > 16 {
            return Err(BindTransmitterError::SystemIdTooLong(system_id_len));
        }
        if password_len > 9 {
            return Err(BindTransmitterError::PasswordTooLong(password_len));
        }
        let sequence_number = random_in_range(1, 4294967294);
        Self::bind_transmitter_with_sequence(&params, sequence_number)
    }

    /// Reads the status of a bind-transmitter response: the command status at
    /// offset 8 and its description. Buffers shorter than a header are refused.
    pub fn parse_bind_transmitter_resp(buffer: &[u8]) -> (res: Result<
        BindTransmitterResponse,
        ShortBuffer,
    >)
        ensures
            buffer@.len() < 16 ==> res == Err::<BindTransmitterResponse, ShortBuffer>(
                ShortBuffer { expected: 16, actual: buffer@.len() as usize },
            ),
            buffer@.len() >= 16 ==> (res matches Ok(r) && r.command_status == bind_resp_status(
                buffer@,
            ) && r.status_name@ == status_description(r.command_status)),
    {
        if buffer.len() < 16 {
            return Err(ShortBuffer { expected: 16, actual: buffer.len() });
        }
        let command_status = read_u32_at(buffer, 8);
        let status_name = get_status_description(command_status);
        Ok(BindTransmitterResponse { command_status, status_name })
    }
}

} // verus!
