//! Address Type of Number (TON) codes.
use vstd::prelude::*;

verus! {

pub const UNKNOWN: u8 = 0x00;
pub const INTERNATIONAL: u8 = 0x01;
pub const NATIONAL: u8 = 0x02;
pub const NETWORK_SPECIFIC: u8 = 0x03;
pub const SUBSCRIBER_NUMBER: u8 = 0x04;
pub const ALPHANUMERIC: u8 = 0x05;
pub const ABBREVIATED: u8 = 0x06;

} // verus!
