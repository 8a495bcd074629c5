//! Constants of SMPP v3.4 and the names of command status codes.
pub mod ton;
pub mod npi;
pub mod command_id;

use vstd::prelude::*;
use vstd::string::*;
use crate::text::{hex8, push_hex8, hex_digit, pow16, lemma_pow16_positive};

verus! {

/// SMPP Interface Version 3.4
pub const SMPP_INTERFACE_VERSION: u8 = 0x34;

/// Command Status: no error.
pub const COMMAND_STATUS_OK: u32 = 0x00000000;

/// The standard name of a command status code, where SMPP v3.4 names it.
pub open spec fn status_name(status: u32) -> Option<Seq<char>> {
    match status {
        0x00000000 => Some("ESME_ROK"@),
        0x00000001 => Some("ESME_RINVMSGLEN"@),
        0x00000002 => Some("ESME_RINVCMDLEN"@),
        0x00000003 => Some("ESME_RINVCMDID"@),
        0x00000004 => Some("ESME_RINVBNDSTS"@),
        0x00000005 => Some("ESME_RALYBND"@),
        0x00000006 => Some("ESME_RINVPRTFLG"@),
        0x00000007 => Some("ESME_RINVREGDLVFLG"@),
        0x00000008 => Some("ESME_RSYSERR"@),
        0x0000000A => Some("ESME_RINVSRCADR"@),
        0x0000000B => Some("ESME_RINVDSTADR"@),
        0x0000000C => Some("ESME_RINVMSGID"@),
        0x0000000D => Some("ESME_RBINDFAIL"@),
        0x0000000E => Some("ESME_RINVPASWD"@),
        0x0000000F => Some("ESME_RINVSYSID"@),
        0x00000011 => Some("ESME_RCANCELFAIL"@),
        0x00000013 => Some("ESME_RREPLACEFAIL"@),
        0x00000014 => Some("ESME_RMSGQFUL"@),
        0x00000015 => Some("ESME_RINVSERVICETYPE"@),
        0x00000033 => Some("ESME_RINVNUMDESTS"@),
        0x00000034 => Some("ESME_RINVDLNAME"@),
        0x00000040 => Some("ESME_RINVDESTFLAG"@),
        0x00000042 => Some("ESME_RINVSUBREP"@),
        0x00000043 => Some("ESME_RINVESMCLASS"@),
        0x00000044 => Some("ESME_RCNTSUBDL"@),
        0x00000045 => Some("ESME_RSUBMITFAIL"@),
        0x00000048 => Some("ESME_RINVSRCTON"@),
        0x00000049 => Some("ESME_RINVSRCNPI"@),
        0x00000050 => Some("ESME_RINVDSTTON"@),
        0x00000051 => Some("ESME_RINVDSTNPI"@),
        0x00000053 => Some("ESME_RINVSYSTYP"@),
        0x00000054 => Some("ESME_RINVREPFLAG"@),
        0x00000055 => Some("ESME_RINVNUMMSGS"@),
        0x00000058 => Some("ESME_RTHROTTLED"@),
        0x00000061 => Some("ESME_RINVSCHED"@),
        0x00000062 => Some("ESME_RINVEXPIRY"@),
        0x00000063 => Some("ESME_RINVDFTMSGID"@),
        0x00000064 => Some("ESME_RX_T_APPN"@),
        0x00000065 => Some("ESME_RX_P_APPN"@),
        0x00000066 => Some("ESME_RX_R_APPN"@),
        0x00000067 => Some("ESME_RQUERYFAIL"@),
        0x000000C0 => Some("ESME_RINVOPTPARSTREAM"@),
        0x000000C1 => Some("ESME_ROPTPARNOTALLWD"@),
        0x000000C2 => Some("ESME_RINVPARLEN"@),
        0x000000C3 => Some("ESME_RMISSINGOPTPARAM"@),
        0x000000C4 => Some("ESME_RINVOPTPARAMVAL"@),
        0x000000FE => Some("ESME_RDELIVERYFAILURE"@),
        0x000000FF => Some("ESME_RUNKNOWNERR"@),
        _ => None,
    }
}

/// The description of a command status: its standard name, or
/// `Unknown Error: 0x` followed by the code as eight upper-case hex digits.
pub open spec fn status_description(status: u32) -> Seq<char> {
    match status_name(status) {
        Some(name) => name,
        None => "Unknown Error: 0x"@ + hex8(status),
    }
}

/// Two known codes have different names.
#[verifier::spinoff_prover]
#[verifier::rlimit(100)]
proof fn lemma_known_names_distinct(a: u32, b: u32)
    requires
        status_name(a) is Some,
        status_name(a) == status_name(b),
    ensures
        a == b,
{
    reveal_strlit("ESME_ROK");
    reveal_strlit("ESME_RINVMSGLEN");
    reveal_strlit("ESME_RINVCMDLEN");
    reveal_strlit("ESME_RINVCMDID");
    reveal_strlit("ESME_RINVBNDSTS");
    reveal_strlit("ESME_RALYBND");
    reveal_strlit("ESME_RINVPRTFLG");
    reveal_strlit("ESME_RINVREGDLVFLG");
    reveal_strlit("ESME_RSYSERR");
    reveal_strlit("ESME_RINVSRCADR");
    reveal_strlit("ESME_RINVDSTADR");
    reveal_strlit("ESME_RINVMSGID");
    reveal_strlit("ESME_RBINDFAIL");
    reveal_strlit("ESME_RINVPASWD");
    reveal_strlit("ESME_RINVSYSID");
    reveal_strlit("ESME_RCANCELFAIL");
    reveal_strlit("ESME_RREPLACEFAIL");
    reveal_strlit("ESME_RMSGQFUL");
    reveal_strlit("ESME_RINVSERVICETYPE");
    reveal_strlit("ESME_RINVNUMDESTS");
    reveal_strlit("ESME_RINVDLNAME");
    reveal_strlit("ESME_RINVDESTFLAG");
    reveal_strlit("ESME_RINVSUBREP");
    reveal_strlit("ESME_RINVESMCLASS");
    reveal_strlit("ESME_RCNTSUBDL");
    reveal_strlit("ESME_RSUBMITFAIL");
    reveal_strlit("ESME_RINVSRCTON");
    reveal_strlit("ESME_RINVSRCNPI");
    reveal_strlit("ESME_RINVDSTTON");
    reveal_strlit("ESME_RINVDSTNPI");
    reveal_strlit("ESME_RINVSYSTYP");
    reveal_strlit("ESME_RINVREPFLAG");
    reveal_strlit("ESME_RINVNUMMSGS");
    reveal_strlit("ESME_RTHROTTLED");
    reveal_strlit("ESME_RINVSCHED");
    reveal_strlit("ESME_RINVEXPIRY");
    reveal_strlit("ESME_RINVDFTMSGID");
    reveal_strlit("ESME_RX_T_APPN");
    reveal_strlit("ESME_RX_P_APPN");
    reveal_strlit("ESME_RX_R_APPN");
    reveal_strlit("ESME_RQUERYFAIL");
    reveal_strlit("ESME_RINVOPTPARSTREAM");
    reveal_strlit("ESME_ROPTPARNOTALLWD");
    reveal_strlit("ESME_RINVPARLEN");
    reveal_strlit("ESME_RMISSINGOPTPARAM");
    reveal_strlit("ESME_RINVOPTPARAMVAL");
    reveal_strlit("ESME_RDELIVERYFAILURE");
    reveal_strlit("ESME_RUNKNOWNERR");
    let na = status_name(a)->Some_0;
    let nb = status_name(b)->Some_0;
    assert(na.len() == nb.len());
    assert(na[5] == nb[5]);
    assert(na[na.len() - 1] == nb[nb.len() - 1]);
    assert(na[na.len() - 4] == nb[nb.len() - 4]);
    assert(na[na.len() - 6] == nb[nb.len() - 6]);
}

/// A standard name starts with `E`.
proof fn lemma_known_name_first_char(a: u32)
    requires
        status_name(a) is Some,
    ensures
        status_name(a)->Some_0.len() > 0,
        status_name(a)->Some_0[0] == 'E',
{
    reveal_strlit("ESME_ROK");
    reveal_strlit("ESME_RINVMSGLEN");
    reveal_strlit("ESME_RINVCMDLEN");
    reveal_strlit("ESME_RINVCMDID");
    reveal_strlit("ESME_RINVBNDSTS");
    reveal_strlit("ESME_RALYBND");
    reveal_strlit("ESME_RINVPRTFLG");
    reveal_strlit("ESME_RINVREGDLVFLG");
    reveal_strlit("ESME_RSYSERR");
    reveal_strlit("ESME_RINVSRCADR");
    reveal_strlit("ESME_RINVDSTADR");
    reveal_strlit("ESME_RINVMSGID");
    reveal_strlit("ESME_RBINDFAIL");
    reveal_strlit("ESME_RINVPASWD");
    reveal_strlit("ESME_RINVSYSID");
    reveal_strlit("ESME_RCANCELFAIL");
    reveal_strlit("ESME_RREPLACEFAIL");
    reveal_strlit("ESME_RMSGQFUL");
    reveal_strlit("ESME_RINVSERVICETYPE");
    reveal_strlit("ESME_RINVNUMDESTS");
    reveal_strlit("ESME_RINVDLNAME");
    reveal_strlit("ESME_RINVDESTFLAG");
    reveal_strlit("ESME_RINVSUBREP");
    reveal_strlit("ESME_RINVESMCLASS");
    reveal_strlit("ESME_RCNTSUBDL");
    reveal_strlit("ESME_RSUBMITFAIL");
    reveal_strlit("ESME_RINVSRCTON");
    reveal_strlit("ESME_RINVSRCNPI");
    reveal_strlit("ESME_RINVDSTTON");
    reveal_strlit("ESME_RINVDSTNPI");
    reveal_strlit("ESME_RINVSYSTYP");
    reveal_strlit("ESME_RINVREPFLAG");
    reveal_strlit("ESME_RINVNUMMSGS");
    reveal_strlit("ESME_RTHROTTLED");
    reveal_strlit("ESME_RINVSCHED");
    reveal_strlit("ESME_RINVEXPIRY");
    reveal_strlit("ESME_RINVDFTMSGID");
    reveal_strlit("ESME_RX_T_APPN");
    reveal_strlit("ESME_RX_P_APPN");
    reveal_strlit("ESME_RX_R_APPN");
    reveal_strlit("ESME_RQUERYFAIL");
    reveal_strlit("ESME_RINVOPTPARSTREAM");
    reveal_strlit("ESME_ROPTPARNOTALLWD");
    reveal_strlit("ESME_RINVPARLEN");
    reveal_strlit("ESME_RMISSINGOPTPARAM");
    reveal_strlit("ESME_RINVOPTPARAMVAL");
    reveal_strlit("ESME_RDELIVERYFAILURE");
    reveal_strlit("ESME_RUNKNOWNERR");
}

/// Distinct values below 16 have distinct hexadecimal digits.
proof fn lemma_hex_digit_injective(x: int, y: int)
    requires
        0 <= x < 16,
        0 <= y < 16,
        hex_digit(x) == hex_digit(y),
    ensures
        x == y,
{
    let cx = hex_digit(x);
    let cy = hex_digit(y);
    vstd::utf8::char_u32_cast(cx, cx as u32);
    assert(cx as u32 == cy as u32);
}

/// Equal hexadecimal texts have equal digits.
proof fn lemma_hex8_digit(a: u32, b: u32, i: int)
    requires
        hex8(a) == hex8(b),
        0 <= i < 8,
    ensures
        ((a as int) / pow16(7 - i)) % 16 == ((b as int) / pow16(7 - i)) % 16,
{
    assert(hex8(a)[i] == hex8(b)[i]);
    assert(hex8(a)[i] == hex_digit(((a as int) / pow16(7 - i)) % 16));
    assert(hex8(b)[i] == hex_digit(((b as int) / pow16(7 - i)) % 16));
    lemma_pow16_positive(7 - i);
    lemma_hex_digit_injective(((a as int) / pow16(7 - i)) % 16, ((b as int) / pow16(7 - i)) % 16);
}

/// Eight hexadecimal digits name one value.
proof fn lemma_hex8_injective(a: u32, b: u32)
    requires
        hex8(a) == hex8(b),
    ensures
        a == b,
{
    reveal_with_fuel(pow16, 8);
    lemma_hex8_digit(a, b, 0);
    lemma_hex8_digit(a, b, 1);
    lemma_hex8_digit(a, b, 2);
    lemma_hex8_digit(a, b, 3);
    lemma_hex8_digit(a, b, 4);
    lemma_hex8_digit(a, b, 5);
    lemma_hex8_digit(a, b, 6);
    lemma_hex8_digit(a, b, 7);
    assert(pow16(7) == 0x10000000 && pow16(6) == 0x1000000 && pow16(5) == 0x100000 && pow16(4) == 0x10000);
    assert(pow16(3) == 0x1000 && pow16(2) == 0x100 && pow16(1) == 0x10 && pow16(0) == 1);
    assert(a == (a / 0x10000000) % 16 * 0x10000000 + (a / 0x1000000) % 16 * 0x1000000 + (a / 0x100000) % 16
        * 0x100000 + (a / 0x10000) % 16 * 0x10000 + (a / 0x1000) % 16 * 0x1000 + (a / 0x100) % 16 * 0x100 + (a
        / 0x10) % 16 * 0x10 + a % 16) by (bit_vector);
    assert(b == (b / 0x10000000) % 16 * 0x10000000 + (b / 0x1000000) % 16 * 0x1000000 + (b / 0x100000) % 16
        * 0x100000 + (b / 0x10000) % 16 * 0x10000 + (b / 0x1000) % 16 * 0x1000 + (b / 0x100) % 16 * 0x100 + (b
        / 0x10) % 16 * 0x10 + b % 16) by (bit_vector);
}

/// Distinct status codes have distinct descriptions: a description names one
/// code.
pub proof fn law_status_descriptions_distinct(a: u32, b: u32)
    requires
        status_description(a) == status_description(b),
    ensures
        a == b,
{
    reveal_strlit("Unknown Error: 0x");
    let u = "Unknown Error: 0x"@;
    if status_name(a) is Some && status_name(b) is Some {
        lemma_known_names_distinct(a, b);
    } else if status_name(a) is Some {
        lemma_known_name_first_char(a);
        assert((u + hex8(b))[0] == 'U');
    } else if status_name(b) is Some {
        lemma_known_name_first_char(b);
        assert((u + hex8(a))[0] == 'U');
    } else {
        assert((u + hex8(a)).subrange(17, 25) =~= hex8(a));
        assert((u + hex8(b)).subrange(17, 25) =~= hex8(b));
        lemma_hex8_injective(a, b);
    }
}

fn known_status_name(status: u32) -> (res: Option<&'static str>)
    ensures
        match res {
            Some(s) => status_name(status) == Some(s@),
            None => status_name(status).is_none(),
        },
{
    match status {
        0x00000000 => Some("ESME_ROK"),
        0x00000001 => Some("ESME_RINVMSGLEN"),
        0x00000002 => Some("ESME_RINVCMDLEN"),
        0x00000003 => Some("ESME_RINVCMDID"),
        0x00000004 => Some("ESME_RINVBNDSTS"),
        0x00000005 => Some("ESME_RALYBND"),
        0x00000006 => Some("ESME_RINVPRTFLG"),
        0x00000007 => Some("ESME_RINVREGDLVFLG"),
        0x00000008 => Some("ESME_RSYSERR"),
        0x0000000A => Some("ESME_RINVSRCADR"),
        0x0000000B => Some("ESME_RINVDSTADR"),
        0x0000000C => Some("ESME_RINVMSGID"),
        0x0000000D => Some("ESME_RBINDFAIL"),
        0x0000000E => Some("ESME_RINVPASWD"),
        0x0000000F => Some("ESME_RINVSYSID"),
        0x00000011 => Some("ESME_RCANCELFAIL"),
        0x00000013 => Some("ESME_RREPLACEFAIL"),
        0x00000014 => Some("ESME_RMSGQFUL"),
        0x00000015 => Some("ESME_RINVSERVICETYPE"),
        0x00000033 => Some("ESME_RINVNUMDESTS"),
        0x00000034 => Some("ESME_RINVDLNAME"),
        0x00000040 => Some("ESME_RINVDESTFLAG"),
        0x00000042 => Some("ESME_RINVSUBREP"),
        0x00000043 => Some("ESME_RINVESMCLASS"),
        0x00000044 => Some("ESME_RCNTSUBDL"),
        0x00000045 => Some("ESME_RSUBMITFAIL"),
        0x00000048 => Some("ESME_RINVSRCTON"),
        0x00000049 => Some("ESME_RINVSRCNPI"),
        0x00000050 => Some("ESME_RINVDSTTON"),
        0x00000051 => Some("ESME_RINVDSTNPI"),
        0x00000053 => Some("ESME_RINVSYSTYP"),
        0x00000054 => Some("ESME_RINVREPFLAG"),
        0x00000055 => Some("ESME_RINVNUMMSGS"),
        0x00000058 => Some("ESME_RTHROTTLED"),
        0x00000061 => Some("ESME_RINVSCHED"),
        0x00000062 => Some("ESME_RINVEXPIRY"),
        0x00000063 => Some("ESME_RINVDFTMSGID"),
        0x00000064 => Some("ESME_RX_T_APPN"),
        0x00000065 => Some("ESME_RX_P_APPN"),
        0x00000066 => Some("ESME_RX_R_APPN"),
        0x00000067 => Some("ESME_RQUERYFAIL"),
        0x000000C0 => Some("ESME_RINVOPTPARSTREAM"),
        0x000000C1 => Some("ESME_ROPTPARNOTALLWD"),
        0x000000C2 => Some("ESME_RINVPARLEN"),
        0x000000C3 => Some("ESME_RMISSINGOPTPARAM"),
        0x000000C4 => Some("ESME_RINVOPTPARAMVAL"),
        0x000000FE => Some("ESME_RDELIVERYFAILURE"),
        0x000000FF => Some("ESME_RUNKNOWNERR"),
        _ => None,
    }
}

/// Helper function to get error description from status code
pub fn get_status_description(status: u32) -> (res: String)
    ensures
        res@ == status_description(status),
{
    match known_status_name(status) {
        Some(name) => String::from_str(name),
        None => {
            let mut s = String::from_str("Unknown Error: 0x");
            push_hex8(&mut s, status);
            s
        },
    }
}

} // verus!
