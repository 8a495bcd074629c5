//! Text encodings used for short-message content: GSM 03.38 7-bit (unpacked),
//! Latin-1 and UCS-2 big endian.
use vstd::prelude::*;
use vstd::string::*;
use crate::text::{str_chars, string_push};

verus! {

/// Position of `c` in the GSM 03.38 basic character set, if it is there.
pub open spec fn gsm_basic_code(c: char) -> Option<u8> {
    match c {
        '@' => Some(0u8),
        '\u{a3}' => Some(1u8),
        '$' => Some(2u8),
        '\u{a5}' => Some(3u8),
        '\u{e8}' => Some(4u8),
        '\u{e9}' => Some(5u8),
        '\u{f9}' => Some(6u8),
        '\u{ec}' => Some(7u8),
        '\u{f2}' => Some(8u8),
        '\u{c7}' => Some(9u8),
        '\u{a}' => Some(10u8),
        '\u{d8}' => Some(11u8),
        '\u{f8}' => Some(12u8),
        '\u{d}' => Some(13u8),
        '\u{c5}' => Some(14u8),
        '\u{e5}' => Some(15u8),
        '\u{394}' => Some(16u8),
        '_' => Some(17u8),
        '\u{3a6}' => Some(18u8),
        '\u{393}' => Some(19u8),
        '\u{39b}' => Some(20u8),
        '\u{3a9}' => Some(21u8),
        '\u{3a0}' => Some(22u8),
        '\u{3a8}' => Some(23u8),
        '\u{3a3}' => Some(24u8),
        '\u{398}' => Some(25u8),
        '\u{39e}' => Some(26u8),
        '\u{1b}' => Some(27u8),
        '\u{c6}' => Some(28u8),
        '\u{e6}' => Some(29u8),
        '\u{df}' => Some(30u8),
        '\u{c9}' => Some(31u8),
        ' ' => Some(32u8),
        '!' => Some(33u8),
        '"' => Some(34u8),
        '#' => Some(35u8),
        '\u{a4}' => Some(36u8),
        '%' => Some(37u8),
        '&' => Some(38u8),
        '\'' => Some(39u8),
        '(' => Some(40u8),
        ')' => Some(41u8),
        '*' => Some(42u8),
        '+' => Some(43u8),
        ',' => Some(44u8),
        '-' => Some(45u8),
        '.' => Some(46u8),
        '/' => Some(47u8),
        '0' => Some(48u8),
        '1' => Some(49u8),
        '2' => Some(50u8),
        '3' => Some(51u8),
        '4' => Some(52u8),
        '5' => Some(53u8),
        '6' => Some(54u8),
        '7' => Some(55u8),
        '8' => Some(56u8),
        '9' => Some(57u8),
        ':' => Some(58u8),
        ';' => Some(59u8),
        '<' => Some(60u8),
        '=' => Some(61u8),
        '>' => Some(62u8),
        '?' => Some(63u8),
        '\u{a1}' => Some(64u8),
        'A' => Some(65u8),
        'B' => Some(66u8),
        'C' => Some(67u8),
        'D' => Some(68u8),
        'E' => Some(69u8),
        'F' => Some(70u8),
        'G' => Some(71u8),
        'H' => Some(72u8),
        'I' => Some(73u8),
        'J' => Some(74u8),
        'K' => Some(75u8),
        'L' => Some(76u8),
        'M' => Some(77u8),
        'N' => Some(78u8),
        'O' => Some(79u8),
        'P' => Some(80u8),
        'Q' => Some(81u8),
        'R' => Some(82u8),
        'S' => Some(83u8),
        'T' => Some(84u8),
        'U' => Some(85u8),
        'V' => Some(86u8),
        'W' => Some(87u8),
        'X' => Some(88u8),
        'Y' => Some(89u8),
        'Z' => Some(90u8),
        '\u{c4}' => Some(91u8),
        '\u{d6}' => Some(92u8),
        '\u{d1}' => Some(93u8),
        '\u{dc}' => Some(94u8),
        '`' => Some(95u8),
        '\u{bf}' => Some(96u8),
        'a' => Some(97u8),
        'b' => Some(98u8),
        'c' => Some(99u8),
        'd' => Some(100u8),
        'e' => Some(101u8),
        'f' => Some(102u8),
        'g' => Some(103u8),
        'h' => Some(104u8),
        'i' => Some(105u8),
        'j' => Some(106u8),
        'k' => Some(107u8),
        'l' => Some(108u8),
        'm' => Some(109u8),
        'n' => Some(110u8),
        'o' => Some(111u8),
        'p' => Some(112u8),
        'q' => Some(113u8),
        'r' => Some(114u8),
        's' => Some(115u8),
        't' => Some(116u8),
        'u' => Some(117u8),
        'v' => Some(118u8),
        'w' => Some(119u8),
        'x' => Some(120u8),
        'y' => Some(121u8),
        'z' => Some(122u8),
        '\u{e4}' => Some(123u8),
        '\u{f6}' => Some(124u8),
        '\u{f1}' => Some(125u8),
        '\u{fc}' => Some(126u8),
        '\u{e0}' => Some(127u8),
        _ => None,
    }
}

/// Code of `c` in the GSM 03.38 extension table (reached through the escape 0x1B).
pub open spec fn gsm_extended_code(c: char) -> Option<u8> {
    match c {
        '^' => Some(20u8),
        '{' => Some(40u8),
        '}' => Some(41u8),
        '\\' => Some(47u8),
        '[' => Some(60u8),
        '~' => Some(61u8),
        ']' => Some(62u8),
        '|' => Some(64u8),
        '\u{20ac}' => Some(101u8),
        _ => None,
    }
}

/// The bytes that stand for one character: its basic code, or the escape
/// 0x1B followed by its extension code.
pub open spec fn gsm_char_bytes(c: char) -> Option<Seq<u8>> {
    match gsm_basic_code(c) {
        Some(b) => Some(seq![b]),
        None => match gsm_extended_code(c) {
            Some(e) => Some(seq![0x1Bu8, e]),
            None => None,
        },
    }
}

/// GSM 7-bit encoding of a text: the bytes of each character in turn, or the
/// first character that neither table holds.
pub open spec fn gsm_encode(s: Seq<char>) -> Result<Seq<u8>, char>
    decreases s.len(),
{
    if s.len() == 0 {
        Ok(Seq::empty())
    } else {
        match gsm_encode(s.drop_last()) {
            Err(c) => Err(c),
            Ok(prefix) => match gsm_char_bytes(s.last()) {
                Some(bytes) => Ok(prefix + bytes),
                None => Err(s.last()),
            },
        }
    }
}

/// The error text for a character outside GSM 03.38.
pub open spec fn gsm_error_message(c: char) -> Seq<char> {
    "Character '"@.push(c) + "' not supported in GSM 03.38"@
}

fn gsm_basic_code_exec(c: char) -> (res: Option<u8>)
    ensures
        res == gsm_basic_code(c),
{
    match c {
        '@' => Some(0u8),
        '\u{a3}' => Some(1u8),
        '$' => Some(2u8),
        '\u{a5}' => Some(3u8),
        '\u{e8}' => Some(4u8),
        '\u{e9}' => Some(5u8),
        '\u{f9}' => Some(6u8),
        '\u{ec}' => Some(7u8),
        '\u{f2}' => Some(8u8),
        '\u{c7}' => Some(9u8),
        '\u{a}' => Some(10u8),
        '\u{d8}' => Some(11u8),
        '\u{f8}' => Some(12u8),
        '\u{d}' => Some(13u8),
        '\u{c5}' => Some(14u8),
        '\u{e5}' => Some(15u8),
        '\u{394}' => Some(16u8),
        '_' => Some(17u8),
        '\u{3a6}' => Some(18u8),
        '\u{393}' => Some(19u8),
        '\u{39b}' => Some(20u8),
        '\u{3a9}' => Some(21u8),
        '\u{3a0}' => Some(22u8),
        '\u{3a8}' => Some(23u8),
        '\u{3a3}' => Some(24u8),
        '\u{398}' => Some(25u8),
        '\u{39e}' => Some(26u8),
        '\u{1b}' => Some(27u8),
        '\u{c6}' => Some(28u8),
        '\u{e6}' => Some(29u8),
        '\u{df}' => Some(30u8),
        '\u{c9}' => Some(31u8),
        ' ' => Some(32u8),
        '!' => Some(33u8),
        '"' => Some(34u8),
        '#' => Some(35u8),
        '\u{a4}' => Some(36u8),
        '%' => Some(37u8),
        '&' => Some(38u8),
        '\'' => Some(39u8),
        '(' => Some(40u8),
        ')' => Some(41u8),
        '*' => Some(42u8),
        '+' => Some(43u8),
        ',' => Some(44u8),
        '-' => Some(45u8),
        '.' => Some(46u8),
        '/' => Some(47u8),
        '0' => Some(48u8),
        '1' => Some(49u8),
        '2' => Some(50u8),
        '3' => Some(51u8),
        '4' => Some(52u8),
        '5' => Some(53u8),
        '6' => Some(54u8),
        '7' => Some(55u8),
        '8' => Some(56u8),
        '9' => Some(57u8),
        ':' => Some(58u8),
        ';' => Some(59u8),
        '<' => Some(60u8),
        '=' => Some(61u8),
        '>' => Some(62u8),
        '?' => Some(63u8),
        '\u{a1}' => Some(64u8),
        'A' => Some(65u8),
        'B' => Some(66u8),
        'C' => Some(67u8),
        'D' => Some(68u8),
        'E' => Some(69u8),
        'F' => Some(70u8),
        'G' => Some(71u8),
        'H' => Some(72u8),
        'I' => Some(73u8),
        'J' => Some(74u8),
        'K' => Some(75u8),
        'L' => Some(76u8),
        'M' => Some(77u8),
        'N' => Some(78u8),
        'O' => Some(79u8),
        'P' => Some(80u8),
        'Q' => Some(81u8),
        'R' => Some(82u8),
        'S' => Some(83u8),
        'T' => Some(84u8),
        'U' => Some(85u8),
        'V' => Some(86u8),
        'W' => Some(87u8),
        'X' => Some(88u8),
        'Y' => Some(89u8),
        'Z' => Some(90u8),
        '\u{c4}' => Some(91u8),
        '\u{d6}' => Some(92u8),
        '\u{d1}' => Some(93u8),
        '\u{dc}' => Some(94u8),
        '`' => Some(95u8),
        '\u{bf}' => Some(96u8),
        'a' => Some(97u8),
        'b' => Some(98u8),
        'c' => Some(99u8),
        'd' => Some(100u8),
        'e' => Some(101u8),
        'f' => Some(102u8),
        'g' => Some(103u8),
        'h' => Some(104u8),
        'i' => Some(105u8),
        'j' => Some(106u8),
        'k' => Some(107u8),
        'l' => Some(108u8),
        'm' => Some(109u8),
        'n' => Some(110u8),
        'o' => Some(111u8),
        'p' => Some(112u8),
        'q' => Some(113u8),
        'r' => Some(114u8),
        's' => Some(115u8),
        't' => Some(116u8),
        'u' => Some(117u8),
        'v' => Some(118u8),
        'w' => Some(119u8),
        'x' => Some(120u8),
        'y' => Some(121u8),
        'z' => Some(122u8),
        '\u{e4}' => Some(123u8),
        '\u{f6}' => Some(124u8),
        '\u{f1}' => Some(125u8),
        '\u{fc}' => Some(126u8),
        '\u{e0}' => Some(127u8),
        _ => None,
    }
}

fn gsm_extended_code_exec(c: char) -> (res: Option<u8>)
    ensures
        res == gsm_extended_code(c),
{
    match c {
        '^' => Some(20u8),
        '{' => Some(40u8),
        '}' => Some(41u8),
        '\\' => Some(47u8),
        '[' => Some(60u8),
        '~' => Some(61u8),
        ']' => Some(62u8),
        '|' => Some(64u8),
        '\u{20ac}' => Some(101u8),
        _ => None,
    }
}

/// Encodes a text with the GSM 03.38 default alphabet, one byte per basic
/// character and an escape pair per extended character.
#[verifier::spinoff_prover]
pub fn gsm_7bit_encode(text: &str) -> (res: Result<Vec<u8>, String>)
    ensures
        match gsm_encode(text@) {
            Ok(bytes) => res matches Ok(v) && v@ == bytes,
            Err(c) => res matches Err(m) && m@ == gsm_error_message(c),
        },
{
    let chars = str_chars(text);
    let mut encoded_text: Vec<u8> = Vec::new();
    let mut i: usize = 0;
    while i < chars.len()
        invariant
            chars@ == text@,
            i <= chars@.len(),
            gsm_encode(chars@.subrange(0, i as int)) == Ok::<Seq<u8>, char>(encoded_text@),
        decreases chars@.len() - i,
    {
        let c = chars[i];
        let ghost prefix = chars@.subrange(0, i as int);
        assert(chars@.subrange(0, i + 1).drop_last() =~= prefix);
        assert(chars@.subrange(0, i + 1).last() == c);
        if let Some(index) = gsm_basic_code_exec(c) {
            encoded_text.push(index);
            assert(encoded_text@ =~= gsm_encode(prefix).unwrap() + seq![index]);
        } else if let Some(code) = gsm_extended_code_exec(c) {
            encoded_text.push(0x1B);
            encoded_text.push(code);
            assert(encoded_text@ =~= gsm_encode(prefix).unwrap() + seq![0x1Bu8, code]);
        } else {
            proof {
                lemma_gsm_encode_error_extends(chars@, i as int + 1);
            }
            let mut msg = String::from_str("Character '");
            string_push(&mut msg, c);
            msg.append("' not supported in GSM 03.38");
            return Err(msg);
        }
        i = i + 1;
    }
    assert(chars@.subrange(0, i as int) =~= text@);
    Ok(encoded_text)
}

/// Once a prefix holds an unsupported character, every longer prefix fails on that
/// same character.
proof fn lemma_gsm_encode_error_extends(s: Seq<char>, k: int)
    requires
        0 < k <= s.len(),
        gsm_encode(s.subrange(0, k)) is Err,
    ensures
        gsm_encode(s) == gsm_encode(s.subrange(0, k)),
    decreases s.len() - k,
{
    if k == s.len() {
        assert(s.subrange(0, k) =~= s);
    } else {
        assert(s.subrange(0, k + 1).drop_last() =~= s.subrange(0, k));
        lemma_gsm_encode_error_extends(s, k + 1);
    }
}

/// The Latin-1 byte of a character, or `?` where it has none.
pub open spec fn latin1_byte(c: char) -> u8 {
    if (c as u32) <= 0xFF {
        (c as u32) as u8
    } else {
        63u8
    }
}

/// Latin-1 encoding: one byte per character.
pub open spec fn latin1_encode(s: Seq<char>) -> Seq<u8> {
    Seq::new(s.len(), |i: int| latin1_byte(s[i]))
}

/// Latin-1 (ISO-8859-1) approximation: each character below U+0100 as its own
/// byte, any other character as `?`.
pub fn encode_8bit(text: &str) -> (res: Vec<u8>)
    ensures
        res@ == latin1_encode(text@),
{
    let chars = str_chars(text);
    let mut out: Vec<u8> = Vec::new();
    let mut i: usize = 0;
    while i < chars.len()
        invariant
            chars@ == text@,
            i <= chars@.len(),
            out@ == latin1_encode(text@).subrange(0, i as int),
        decreases chars@.len() - i,
    {
        let u = chars[i] as u32;
        if u <= 0xFF {
            out.push(u as u8);
        } else {
            out.push(63u8);
        }
        assert(out@ =~= latin1_encode(text@).subrange(0, i + 1));
        i = i + 1;
    }
    assert(out@ =~= latin1_encode(text@));
    out
}

/// The UTF-16 code units of one character: itself below U+10000, else a
/// surrogate pair.
pub open spec fn utf16_units(c: char) -> Seq<u16> {
    let v = c as u32 as int;
    if v < 0x10000 {
        seq![v as u16]
    } else {
        seq![(0xD800 + (v - 0x10000) / 1024) as u16, (0xDC00 + (v - 0x10000) % 1024) as u16]
    }
}

/// Big-endian bytes of a sequence of 16-bit units.
pub open spec fn units_be_bytes(units: Seq<u16>) -> Seq<u8>
    decreases units.len(),
{
    if units.len() == 0 {
        Seq::empty()
    } else {
        units_be_bytes(units.drop_last()) + seq![(units.last() / 256) as u8, (units.last() % 256) as u8]
    }
}

/// UCS-2 (UTF-16) big-endian encoding of a text.
pub open spec fn ucs2_encode(s: Seq<char>) -> Seq<u8>
    decreases s.len(),
{
    if s.len() == 0 {
        Seq::empty()
    } else {
        ucs2_encode(s.drop_last()) + units_be_bytes(utf16_units(s.last()))
    }
}

fn push_u16_be(out: &mut Vec<u8>, u: u16)
    ensures
        final(out)@ == old(out)@ + seq![(u / 256) as u8, (u % 256) as u8],
{
    out.push((u / 256) as u8);
    out.push((u % 256) as u8);
}

/// UCS-2 (Basic Multilingual Plane of UTF-16), big endian: every UTF-16 code unit
/// of the text as two bytes, high byte first.
#[verifier::spinoff_prover]
pub fn encode_16bit(text: &str) -> (res: Vec<u8>)
    ensures
        res@ == ucs2_encode(text@),
{
    let chars = str_chars(text);
    let mut out: Vec<u8> = Vec::new();
    let mut i: usize = 0;
    while i < chars.len()
        invariant
            chars@ == text@,
            i <= chars@.len(),
            out@ == ucs2_encode(text@.subrange(0, i as int)),
        decreases chars@.len() - i,
    {
        let c = chars[i];
        let v = c as u32;
        proof {
            vstd::utf8::char_is_scalar(c);
        }
        assert(text@.subrange(0, i + 1).drop_last() =~= text@.subrange(0, i as int));
        if v < 0x10000 {
            push_u16_be(&mut out, v as u16);
            assert(units_be_bytes(utf16_units(c)) =~= seq![((v as u16) / 256) as u8, ((v as u16) % 256) as u8]) by {
                reveal_with_fuel(units_be_bytes, 2);
                assert(utf16_units(c).drop_last() =~= Seq::<u16>::empty());
            }
        } else {
            proof {
                vstd::utf8::char_is_scalar(c);
            }
            let hi = (0xD800 + (v - 0x10000) / 1024) as u16;
            let lo = (0xDC00 + (v - 0x10000) % 1024) as u16;
            let ghost before = out@;
            push_u16_be(&mut out, hi);
            push_u16_be(&mut out, lo);
            assert(units_be_bytes(utf16_units(c)) =~= seq![(hi / 256) as u8, (hi % 256) as u8, (lo / 256) as u8, (lo % 256) as u8]) by {
                reveal_with_fuel(units_be_bytes, 3);
                let us = utf16_units(c);
                assert(us.drop_last() =~= seq![hi]);
                assert(us.drop_last().drop_last() =~= Seq::<u16>::empty());
            }
            assert(out@ =~= before + units_be_bytes(utf16_units(c)));
        }
        i = i + 1;
    }
    assert(text@.subrange(0, i as int) =~= text@);
    out
}

/// The bytes that stand for one character are septets: one or two of them, each
/// below 128.
proof fn lemma_gsm_char_bytes_septets(c: char)
    ensures
        gsm_char_bytes(c) matches Some(b) ==> 1 <= b.len() <= 2 && forall|i: int| 0 <= i < b.len() ==> b[i] < 128,
{
}

/// GSM 7-bit encoding writes septets only, one or two per character: the
/// encoding of `s` has between `s.len()` and `2 * s.len()` bytes, each below 128.
pub proof fn law_gsm_encode_septets(s: Seq<char>)
    ensures
        gsm_encode(s) matches Ok(b) ==> s.len() <= b.len() <= 2 * s.len() && forall|i: int|
            0 <= i < b.len() ==> b[i] < 128,
    decreases s.len(),
{
    if s.len() > 0 {
        law_gsm_encode_septets(s.drop_last());
        lemma_gsm_char_bytes_septets(s.last());
        if let Ok(b) = gsm_encode(s) {
            let prefix = gsm_encode(s.drop_last())->Ok_0;
            let bytes = gsm_char_bytes(s.last())->Some_0;
            assert(b == prefix + bytes);
            assert forall|i: int| 0 <= i < b.len() implies b[i] < 128 by {
                if i < prefix.len() {
                    assert(b[i] == prefix[i]);
                } else {
                    assert(b[i] == bytes[i - prefix.len()]);
                }
            }
        }
    }
}

/// Latin-1 encoding writes one byte per character, and keeps every character
/// below U+0100 as its own value.
pub proof fn law_latin1_one_byte_per_char(s: Seq<char>)
    ensures
        latin1_encode(s).len() == s.len(),
        forall|i: int| 0 <= i < s.len() && (s[i] as u32) <= 0xFF ==> latin1_encode(s)[i] == (s[i] as u32),
{
}

/// UCS-2 encoding writes whole 16-bit units: an even number of bytes, at least
/// two per character.
pub proof fn law_ucs2_whole_units(s: Seq<char>)
    ensures
        ucs2_encode(s).len() % 2 == 0,
        ucs2_encode(s).len() >= 2 * s.len(),
    decreases s.len(),
{
    if s.len() > 0 {
        law_ucs2_whole_units(s.drop_last());
        lemma_units_be_bytes_len(utf16_units(s.last()));
    }
}

/// Big-endian 16-bit units read from bytes, two bytes each (a last odd byte is
/// not read).
pub open spec fn be_units(bytes: Seq<u8>) -> Seq<u16> {
    Seq::new(bytes.len() / 2, |i: int| (bytes[2 * i] as int * 256 + bytes[2 * i + 1] as int) as u16)
}

/// UTF-16 decoding: a unit outside the surrogate range is a character, a high
/// surrogate followed by a low one is the character they encode; anything else
/// (a lone surrogate) is refused.
pub open spec fn utf16_decode(units: Seq<u16>) -> Option<Seq<char>>
    decreases units.len(),
{
    if units.len() == 0 {
        Some(Seq::empty())
    } else {
        let n = units.len() as int;
        let last = units[n - 1];
        if 0xDC00 <= last <= 0xDFFF {
            if n >= 2 && 0xD800 <= units[n - 2] <= 0xDBFF {
                match utf16_decode(units.subrange(0, n - 2)) {
                    Some(p) => Some(
                        p.push(((0x10000 + (units[n - 2] - 0xD800) * 1024 + (last - 0xDC00)) as u32) as char),
                    ),
                    None => None,
                }
            } else {
                None
            }
        } else if 0xD800 <= last <= 0xDBFF {
            None
        } else {
            match utf16_decode(units.subrange(0, n - 1)) {
                Some(p) => Some(p.push((last as u32) as char)),
                None => None,
            }
        }
    }
}

/// The UTF-16 units of a text, character after character.
pub open spec fn utf16_text_units(s: Seq<char>) -> Seq<u16>
    decreases s.len(),
{
    if s.len() == 0 {
        Seq::empty()
    } else {
        utf16_text_units(s.drop_last()) + utf16_units(s.last())
    }
}

/// Writing two runs of units is writing their concatenation.
proof fn lemma_units_be_bytes_concat(a: Seq<u16>, b: Seq<u16>)
    ensures
        units_be_bytes(a + b) == units_be_bytes(a) + units_be_bytes(b),
    decreases b.len(),
{
    if b.len() == 0 {
        assert(a + b =~= a);
    } else {
        lemma_units_be_bytes_concat(a, b.drop_last());
        assert((a + b).drop_last() =~= a + b.drop_last());
        assert((a + b).last() == b.last());
    }
}

/// Unit `k` stands at bytes `2k` (high) and `2k + 1` (low).
proof fn lemma_units_be_bytes_index(u: Seq<u16>)
    ensures
        units_be_bytes(u).len() == 2 * u.len(),
        forall|k: int|
            0 <= k < u.len() ==> units_be_bytes(u)[2 * k] == (u[k] / 256) as u8 && units_be_bytes(u)[2 * k + 1]
                == (#[trigger] u[k] % 256) as u8,
    decreases u.len(),
{
    if u.len() > 0 {
        lemma_units_be_bytes_index(u.drop_last());
        let p = units_be_bytes(u.drop_last());
        assert forall|k: int| 0 <= k < u.len() implies units_be_bytes(u)[2 * k] == (u[k] / 256) as u8
            && units_be_bytes(u)[2 * k + 1] == (#[trigger] u[k] % 256) as u8 by {
            if k < u.len() - 1 {
                assert(u.drop_last()[k] == u[k]);
            }
        }
    }
}

/// Reading back the big-endian bytes of units gives the units.
proof fn lemma_be_units_reads_back(u: Seq<u16>)
    ensures
        be_units(units_be_bytes(u)) == u,
{
    lemma_units_be_bytes_index(u);
    let b = units_be_bytes(u);
    assert forall|k: int| 0 <= k < u.len() implies #[trigger] be_units(b)[k] == u[k] by {
        let x = u[k];
        assert(b[2 * k] == (x / 256) as u8 && b[2 * k + 1] == (x % 256) as u8);
        assert((x / 256) * 256 + x % 256 == x);
    }
    assert(be_units(b) =~= u);
}

/// The UCS-2 bytes of a text are the big-endian bytes of its UTF-16 units.
proof fn lemma_ucs2_is_units_bytes(s: Seq<char>)
    ensures
        ucs2_encode(s) == units_be_bytes(utf16_text_units(s)),
    decreases s.len(),
{
    if s.len() > 0 {
        lemma_ucs2_is_units_bytes(s.drop_last());
        lemma_units_be_bytes_concat(utf16_text_units(s.drop_last()), utf16_units(s.last()));
    }
}

/// The UTF-16 units of a text decode to the text.
proof fn lemma_utf16_units_decode(s: Seq<char>)
    ensures
        utf16_decode(utf16_text_units(s)) == Some(s),
    decreases s.len(),
{
    if s.len() > 0 {
        let p = s.drop_last();
        let c = s.last();
        lemma_utf16_units_decode(p);
        let w = utf16_text_units(p);
        let u = utf16_text_units(s);
        let v = c as u32;
        vstd::utf8::char_is_scalar(c);
        vstd::utf8::char_u32_cast(c, v);
        if (v as int) < 0x10000 {
            assert(u.len() == w.len() + 1);
            assert(u.subrange(0, u.len() - 1) =~= w);
            assert(u[u.len() - 1] == v as u16);
        } else {
            let hi = (0xD800 + (v - 0x10000) / 1024) as u16;
            let lo = (0xDC00 + (v - 0x10000) % 1024) as u16;
            assert(u.len() == w.len() + 2);
            assert(u.subrange(0, u.len() - 2) =~= w);
            assert(u[u.len() - 2] == hi);
            assert(u[u.len() - 1] == lo);
            assert(((0x10000 + (hi - 0xD800) * 1024 + (lo - 0xDC00)) as u32) == v);
        }
        assert(s =~= p.push(c));
    }
}

/// UCS-2 output decodes back to the text: its bytes, read as big-endian 16-bit
/// units and decoded as UTF-16, give the text again.
pub proof fn law_ucs2_decodes_back(s: Seq<char>)
    ensures
        be_units(ucs2_encode(s)) == utf16_text_units(s),
        utf16_decode(be_units(ucs2_encode(s))) == Some(s),
{
    lemma_ucs2_is_units_bytes(s);
    lemma_be_units_reads_back(utf16_text_units(s));
    lemma_utf16_units_decode(s);
}

/// Two bytes per unit.
proof fn lemma_units_be_bytes_len(units: Seq<u16>)
    ensures
        units_be_bytes(units).len() == 2 * units.len(),
    decreases units.len(),
{
    if units.len() > 0 {
        lemma_units_be_bytes_len(units.drop_last());
    }
}

/// A text encodes in GSM 7-bit exactly when every one of its characters is in
/// the basic or the extension table.
#[verifier::spinoff_prover]
pub proof fn law_gsm_encodes_exactly_table_characters(s: Seq<char>)
    ensures
        gsm_encode(s) is Ok <==> forall|i: int| 0 <= i < s.len() ==> #[trigger] gsm_char_bytes(s[i]) is Some,
    decreases s.len(),
{
    if s.len() > 0 {
        law_gsm_encodes_exactly_table_characters(s.drop_last());
        let p = s.drop_last();
        if forall|i: int| 0 <= i < s.len() ==> #[trigger] gsm_char_bytes(s[i]) is Some {
            assert forall|i: int| 0 <= i < p.len() implies #[trigger] gsm_char_bytes(p[i]) is Some by {
                assert(p[i] == s[i]);
            }
            assert(gsm_char_bytes(s[s.len() - 1]) is Some);
        } else {
            let k = choose|i: int| 0 <= i < s.len() && !(#[trigger] gsm_char_bytes(s[i]) is Some);
            if k < s.len() - 1 {
                assert(p[k] == s[k]);
                assert(gsm_encode(p) is Err);
            } else {
                assert(s.last() == s[k]);
            }
        }
    }
}

} // verus!
