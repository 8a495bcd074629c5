//! Address Numbering Plan Indicator (NPI) codes.
use vstd::prelude::*;

verus! {

pub const UNKNOWN: u8 = 0x00;
pub const ISDN: u8 = 0x01;
pub const DATA: u8 = 0x03;
pub const TELEX: u8 = 0x04;
pub const LAND_MOBILE: u8 = 0x06;
pub const NATIONAL: u8 = 0x08;
pub const PRIVATE: u8 = 0x09;
pub const ERMES: u8 = 0x0A;
pub const INTERNET: u8 = 0x0E;
pub const WAP: u8 = 0x12;

} // verus!
