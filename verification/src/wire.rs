//! Field encodings of SMPP PDUs: big-endian integers and NUL-terminated strings.
use vstd::prelude::*;
use vstd::string::*;
use vstd::utf8::encode_utf8;

verus! {

/// The four big-endian bytes of a 32-bit value.
pub open spec fn be_u32(v: u32) -> Seq<u8> {
    seq![
        (v / 0x100_0000) as u8,
        ((v / 0x1_0000) % 256) as u8,
        ((v / 0x100) % 256) as u8,
        (v % 256) as u8,
    ]
}

/// The 32-bit value of four big-endian bytes.
pub open spec fn u32_from_be(b0: u8, b1: u8, b2: u8, b3: u8) -> u32 {
    (b0 as int * 0x100_0000 + b1 as int * 0x1_0000 + b2 as int * 0x100 + b3 as int) as u32
}

/// The 32-bit big-endian value stored at `at` in `bytes`.
pub open spec fn u32_at(bytes: Seq<u8>, at: int) -> u32 {
    u32_from_be(bytes[at], bytes[at + 1], bytes[at + 2], bytes[at + 3])
}

/// Number of bytes in the UTF-8 encoding of a text.
pub open spec fn utf8_len(s: Seq<char>) -> nat {
    encode_utf8(s).len()
}

/// A C-octet string: the UTF-8 bytes of the text followed by a NUL byte.
pub open spec fn c_string(s: Seq<char>) -> Seq<u8> {
    encode_utf8(s).push(0u8)
}

/// Whether `bytes` holds the C-octet string of `s` at offset `at`: its UTF-8
/// bytes there, then a NUL.
pub open spec fn c_string_at(bytes: Seq<u8>, at: int, s: Seq<char>) -> bool {
    &&& 0 <= at
    &&& at + encode_utf8(s).len() < bytes.len()
    &&& bytes.subrange(at, at + encode_utf8(s).len()) == encode_utf8(s)
    &&& bytes[at + encode_utf8(s).len()] == 0
}

/// What starts with `x + y` starts with `x`.
pub proof fn lemma_prefix_of_sum(big: Seq<u8>, x: Seq<u8>, y: Seq<u8>)
    requires
        big.len() >= x.len() + y.len(),
        big.subrange(0, (x.len() + y.len()) as int) == x + y,
    ensures
        big.subrange(0, x.len() as int) == x,
{
    assert forall|t: int| 0 <= t < x.len() implies big.subrange(0, x.len() as int)[t] == x[t] by {
        assert(big.subrange(0, (x.len() + y.len()) as int)[t] == (x + y)[t]);
    }
    assert(big.subrange(0, x.len() as int) =~= x);
}

/// In what starts with `x + m`, the piece `m` is read back right after `x`.
pub proof fn lemma_piece_read(big: Seq<u8>, x: Seq<u8>, m: Seq<u8>)
    requires
        big.len() >= x.len() + m.len(),
        big.subrange(0, (x.len() + m.len()) as int) == x + m,
    ensures
        forall|t: int| 0 <= t < m.len() ==> big[x.len() + t] == #[trigger] m[t],
{
    assert forall|t: int| 0 <= t < m.len() implies big[x.len() + t] == #[trigger] m[t] by {
        let n = (x.len() + m.len()) as int;
        let i = x.len() + t;
        assert(big.subrange(0, n)[i] == big[i]);
        assert((x + m)[i] == m[t]);
        assert(big.subrange(0, n)[i] == (x + m)[i]);
    }
}

/// The bytes of a C-octet string read where they stand.
pub proof fn lemma_c_string_read(pdu: Seq<u8>, at: int, s: Seq<char>)
    requires
        0 <= at,
        at + c_string(s).len() <= pdu.len(),
        forall|t: int| 0 <= t < c_string(s).len() ==> pdu[at + t] == #[trigger] c_string(s)[t],
    ensures
        c_string_at(pdu, at, s),
{
    let e = encode_utf8(s);
    assert forall|t: int| 0 <= t < e.len() implies #[trigger] pdu.subrange(at, at + e.len())[t] == e[t] by {
        assert(c_string(s)[t] == e[t]);
    }
    assert(pdu.subrange(at, at + e.len()) =~= e);
    assert(c_string(s)[e.len() as int] == 0);
}

/// A PDU header: command length, command id, command status and sequence number.
pub open spec fn header(command_length: u32, command_id: u32, status: u32, sequence: u32) -> Seq<u8> {
    be_u32(command_length) + be_u32(command_id) + be_u32(status) + be_u32(sequence)
}

/// Writing a value big endian and reading it back gives the value.
pub proof fn lemma_be_u32_roundtrip(v: u32)
    ensures
        u32_from_be(be_u32(v)[0], be_u32(v)[1], be_u32(v)[2], be_u32(v)[3]) == v,
{
    let b0 = v / 0x100_0000;
    let b1 = (v / 0x1_0000) % 256;
    let b2 = (v / 0x100) % 256;
    let b3 = v % 256;
    assert(b0 * 0x100_0000 + b1 * 0x1_0000 + b2 * 0x100 + b3 == v) by (nonlinear_arith)
        requires
            b0 == v / 0x100_0000,
            b1 == (v / 0x1_0000) % 256,
            b2 == (v / 0x100) % 256,
            b3 == v % 256,
    ;
}

/// A header reads back as written: whatever follows it, the command length,
/// command id, status and sequence number are the 32-bit values at offsets 0, 4,
/// 8 and 12, and the PDU is 16 bytes longer than what follows.
pub proof fn lemma_header_read_back(command_length: u32, command_id: u32, status: u32, sequence: u32, body: Seq<u8>)
    ensures
        (header(command_length, command_id, status, sequence) + body).len() == 16 + body.len(),
        u32_at(header(command_length, command_id, status, sequence) + body, 0) == command_length,
        u32_at(header(command_length, command_id, status, sequence) + body, 4) == command_id,
        u32_at(header(command_length, command_id, status, sequence) + body, 8) == status,
        u32_at(header(command_length, command_id, status, sequence) + body, 12) == sequence,
{
    lemma_be_u32_roundtrip(command_length);
    lemma_be_u32_roundtrip(command_id);
    lemma_be_u32_roundtrip(status);
    lemma_be_u32_roundtrip(sequence);
    let p = header(command_length, command_id, status, sequence) + body;
    assert(p.subrange(0, 4) =~= be_u32(command_length));
    assert(p.subrange(4, 8) =~= be_u32(command_id));
    assert(p.subrange(8, 12) =~= be_u32(status));
    assert(p.subrange(12, 16) =~= be_u32(sequence));
    assert(p[0] == p.subrange(0, 4)[0] && p[1] == p.subrange(0, 4)[1] && p[2] == p.subrange(0, 4)[2] && p[3]
        == p.subrange(0, 4)[3]);
    assert(p[4] == p.subrange(4, 8)[0] && p[5] == p.subrange(4, 8)[1] && p[6] == p.subrange(4, 8)[2] && p[7]
        == p.subrange(4, 8)[3]);
    assert(p[8] == p.subrange(8, 12)[0] && p[9] == p.subrange(8, 12)[1] && p[10] == p.subrange(8, 12)[2]
        && p[11] == p.subrange(8, 12)[3]);
    assert(p[12] == p.subrange(12, 16)[0] && p[13] == p.subrange(12, 16)[1] && p[14] == p.subrange(12, 16)[2]
        && p[15] == p.subrange(12, 16)[3]);
}

/// Appends the big-endian bytes of `v`.
pub fn push_be_u32(out: &mut Vec<u8>, v: u32)
    ensures
        final(out)@ == old(out)@ + be_u32(v),
{
    out.push((v / 0x100_0000) as u8);
    out.push(((v / 0x1_0000) % 256) as u8);
    out.push(((v / 0x100) % 256) as u8);
    out.push((v % 256) as u8);
    assert(out@ =~= old(out)@ + be_u32(v));
}

/// Appends every byte of a slice.
pub fn push_bytes(out: &mut Vec<u8>, bytes: &[u8])
    ensures
        final(out)@ == old(out)@ + bytes@,
{
    let ghost start = out@;
    let mut i: usize = 0;
    while i < bytes.len()
        invariant
            i <= bytes@.len(),
            out@ == start + bytes@.subrange(0, i as int),
        decreases bytes@.len() - i,
    {
        out.push(bytes[i]);
        assert(out@ =~= start + bytes@.subrange(0, i + 1));
        i = i + 1;
    }
    assert(bytes@.subrange(0, i as int) =~= bytes@);
}

/// Appends the text as a C-octet string.
pub fn push_c_string(out: &mut Vec<u8>, s: &str)
    ensures
        final(out)@ == old(out)@ + c_string(s@),
{
    let bytes = s.as_bytes();
    push_bytes(out, bytes);
    out.push(0u8);
    assert(out@ =~= old(out)@ + c_string(s@));
}

/// Number of UTF-8 bytes of a text (its `len`).
pub fn byte_len(s: &str) -> (n: usize)
    ensures
        n == utf8_len(s@),
{
    s.as_bytes().len()
}

/// Reads the big-endian 32-bit value at `at`.
pub fn read_u32_at(bytes: &[u8], at: usize) -> (v: u32)
    requires
        at + 4 <= bytes@.len(),
    ensures
        v == u32_at(bytes@, at as int),
{
    let b0 = bytes[at] as u32;
    let b1 = bytes[at + 1] as u32;
    let b2 = bytes[at + 2] as u32;
    let b3 = bytes[at + 3] as u32;
    assert(b0 * 0x100_0000 + b1 * 0x1_0000 + b2 * 0x100 + b3 <= 0xFFFF_FFFF) by (nonlinear_arith)
        requires
            b0 < 256,
            b1 < 256,
            b2 < 256,
            b3 < 256,
    ;
    b0 * 0x100_0000 + b1 * 0x1_0000 + b2 * 0x100 + b3
}

/// Index of the first NUL byte at or after `from`, if any.
pub open spec fn nul_from(s: Seq<u8>, from: int) -> Option<int>
    decreases s.len() - from,
{
    if from < 0 || from >= s.len() {
        None
    } else if s[from] == 0 {
        Some(from)
    } else {
        nul_from(s, from + 1)
    }
}

/// A NUL found at or after `from` lies inside the sequence, at or after `from`,
/// and is a NUL.
pub proof fn lemma_nul_from_bounds(s: Seq<u8>, from: int)
    ensures
        nul_from(s, from) matches Some(k) ==> from <= k < s.len() && s[k] == 0,
    decreases s.len() - from,
{
    if from >= 0 && from < s.len() && s[from] != 0 {
        lemma_nul_from_bounds(s, from + 1);
    }
}

/// Finds the first NUL byte at or after `from`.
pub fn find_nul(buf: &[u8], from: usize) -> (r: Option<usize>)
    requires
        from <= buf@.len(),
    ensures
        r == (match nul_from(buf@, from as int) {
            Some(i) => Some(i as usize),
            None => None::<usize>,
        }),
        r matches Some(i) ==> from <= i < buf@.len(),
        nul_from(buf@, from as int) matches Some(i) ==> from <= i < buf@.len(),
{
    proof {
        lemma_nul_from_bounds(buf@, from as int);
    }
    let mut i = from;
    while i < buf.len()
        invariant
            from <= i <= buf@.len(),
            nul_from(buf@, from as int) == nul_from(buf@, i as int),
            forall|j: int| from <= j < i ==> buf@[j] != 0,
        decreases buf@.len() - i,
    {
        if buf[i] == 0 {
            return Some(i);
        }
        i = i + 1;
    }
    None
}

/// A copy of `buf[start..end]`.
pub fn copy_range(buf: &[u8], start: usize, end: usize) -> (v: Vec<u8>)
    requires
        start <= end <= buf@.len(),
    ensures
        v@ == buf@.subrange(start as int, end as int),
{
    let mut v: Vec<u8> = Vec::new();
    let mut i = start;
    while i < end
        invariant
            start <= i <= end,
            end <= buf@.len(),
            v@ == buf@.subrange(start as int, i as int),
        decreases end - i,
    {
        v.push(buf[i]);
        assert(v@ =~= buf@.subrange(start as int, i + 1));
        i = i + 1;
    }
    v
}

/// The byte contents of a result holding a byte vector.
pub open spec fn bytes_of<E>(r: Result<Vec<u8>, E>) -> Result<Seq<u8>, E> {
    match r {
        Ok(v) => Ok(v@),
        Err(e) => Err(e),
    }
}

/// The kind of an input/output error that a refusal stands for.
#[derive(Debug, Clone, Copy, PartialEq, Eq, Structural)]
pub enum ErrorKind {
    /// A parameter was not acceptable.
    InvalidInput,
    /// Received data was not acceptable.
    InvalidData,
}

/// A buffer was shorter than what the PDU layout needs.
#[derive(Debug, Clone, PartialEq, Eq, Structural)]
pub struct ShortBuffer {
    /// Bytes the layout needs.
    pub expected: usize,
    /// Bytes the buffer holds.
    pub actual: usize,
}

/// The text of a refused response header.
pub open spec fn short_buffer_text() -> Seq<char> {
    "PDU buffer too short, minimum 16 bytes required for header"@
}

impl ShortBuffer {
    /// The error text for a response too short to hold a header.
    pub fn message(&self) -> (s: String)
        ensures
            s@ == short_buffer_text(),
    {
        String::from_str("PDU buffer too short, minimum 16 bytes required for header")
    }

    /// A short buffer is invalid received data.
    pub fn kind(&self) -> (k: ErrorKind)
        ensures
            k == ErrorKind::InvalidData,
    {
        ErrorKind::InvalidData
    }
}

} // verus!
