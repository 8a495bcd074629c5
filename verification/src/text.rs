//! Character, string and number helpers shared by the PDU encoders and parsers.
use vstd::prelude::*;
use vstd::string::*;
use vstd::utf8::{valid_utf8, decode_utf8};

verus! {

/// The characters of `s`, one by one.
pub fn str_chars(s: &str) -> (res: Vec<char>)
    ensures
        res@ == s@,
{
    let n = s.unicode_len();
    let mut out: Vec<char> = Vec::new();
    let mut i: usize = 0;
    while i < n
        invariant
            n == s@.len(),
            i <= n,
            out@ == s@.subrange(0, i as int),
        decreases n - i,
    {
        out.push(s.get_char(i));
        i = i + 1;
    }
    assert(out@ == s@);
    out
}

/// Appends one character to a `String` (std `String::push`).
#[verifier::external_body]
pub(crate) fn string_push(s: &mut String, c: char)
    ensures
        final(s)@ == old(s)@.push(c),
{
    s.push(c);
}

/// A `String` holding exactly the given characters.
pub fn string_from_chars(cs: &[char]) -> (res: String)
    ensures
        res@ == cs@,
{
    let mut s = String::new();
    let mut i: usize = 0;
    while i < cs.len()
        invariant
            i <= cs@.len(),
            s@ == cs@.subrange(0, i as int),
        decreases cs@.len() - i,
    {
        string_push(&mut s, cs[i]);
        i = i + 1;
    }
    assert(s@ == cs@);
    s
}

/// Whether two string slices hold the same characters.
pub fn str_eq(a: &str, b: &str) -> (res: bool)
    ensures
        res == (a@ == b@),
{
    let x = str_chars(a);
    let y = str_chars(b);
    if x.len() != y.len() {
        return false;
    }
    let mut i: usize = 0;
    while i < x.len()
        invariant
            x@ == a@,
            y@ == b@,
            x@.len() == y@.len(),
            i <= x@.len(),
            forall|j: int| 0 <= j < i ==> x@[j] == y@[j],
        decreases x@.len() - i,
    {
        if x[i] != y[i] {
            return false;
        }
        i = i + 1;
    }
    assert(x@ =~= y@);
    true
}

/// The upper-case hexadecimal digit for a value below 16.
pub open spec fn hex_digit(d: int) -> char {
    if d < 10 {
        ((48 + d) as u8) as char
    } else {
        ((55 + d) as u8) as char
    }
}

/// The eight upper-case hexadecimal digits of `v`, most significant first
/// (what `format!("{:08X}", v)` writes).
pub open spec fn hex8(v: u32) -> Seq<char> {
    Seq::new(8, |i: int| hex_digit(((v as int) / pow16(7 - i)) % 16))
}

pub proof fn lemma_pow16_positive(n: int)
    ensures
        pow16(n) >= 1,
    decreases n,
{
    if n > 0 {
        lemma_pow16_positive(n - 1);
    }
}

/// 16 to the power `n`.
pub open spec fn pow16(n: int) -> int
    decreases n,
{
    if n <= 0 {
        1
    } else {
        16 * pow16(n - 1)
    }
}

fn hex_digit_exec(d: u32) -> (c: char)
    requires
        d < 16,
    ensures
        c == hex_digit(d as int),
{
    if d < 10 {
        ((48 + d) as u8) as char
    } else {
        ((55 + d) as u8) as char
    }
}

/// Appends the eight upper-case hexadecimal digits of `v` to `s`.
pub fn push_hex8(s: &mut String, v: u32)
    ensures
        final(s)@ == old(s)@ + hex8(v),
{
    let ghost start = s@;
    let mut div: u32 = 0x1000_0000;
    let mut i: usize = 0;
    assert(pow16(7) == 0x1000_0000) by {
        reveal_with_fuel(pow16, 8);
    }
    while i < 8
        invariant
            i <= 8,
            div as int == pow16(7 - i),
            div > 0,
            s@ == start + hex8(v).subrange(0, i as int),
        decreases 8 - i,
    {
        assert(pow16(7 - i) == 16 * pow16(7 - i - 1) || i == 7);
        let d = (v / div) % 16;
        string_push(s, hex_digit_exec(d));
        assert(s@ =~= start + hex8(v).subrange(0, i + 1));
        if i < 7 {
            proof {
                lemma_pow16_positive(6 - i);
            }
            div = div / 16;
        }
        i = i + 1;
    }
    assert(hex8(v).subrange(0, 8) =~= hex8(v));
}

/// The decimal digit character for a value below 10.
pub open spec fn decimal_digit(d: int) -> char {
    ((48 + d) as u8) as char
}

/// The decimal representation of `n` without leading zeros (what `to_string` writes).
pub open spec fn decimal(n: nat) -> Seq<char>
    decreases n,
{
    if n < 10 {
        seq![decimal_digit(n as int)]
    } else {
        decimal(n / 10).push(decimal_digit((n % 10) as int))
    }
}

/// Appends the decimal representation of `n` to `s`.
pub fn push_decimal(s: &mut String, n: u64)
    ensures
        final(s)@ == old(s)@ + decimal(n as nat),
    decreases n,
{
    if n >= 10 {
        push_decimal(s, n / 10);
    }
    string_push(s, ((48 + n % 10) as u8) as char);
    assert(s@ =~= old(s)@ + decimal(n as nat));
}

/// Index of the first occurrence of `c` at or after `from`, if any.
pub open spec fn char_index_from(s: Seq<char>, c: char, from: int) -> Option<int>
    decreases s.len() - from,
{
    if from < 0 || from >= s.len() {
        None
    } else if s[from] == c {
        Some(from)
    } else {
        char_index_from(s, c, from + 1)
    }
}

/// A character found at or after `from` is inside the sequence, at or after
/// `from`, and is that character.
pub proof fn lemma_char_index_from_bounds(s: Seq<char>, c: char, from: int)
    ensures
        char_index_from(s, c, from) matches Some(k) ==> from <= k < s.len() && s[k] == c,
        char_index_from(s, c, from) is None && from >= 0 ==> forall|j: int| from <= j < s.len() ==> s[j] != c,
    decreases s.len() - from,
{
    if from >= 0 && from < s.len() && s[from] != c {
        lemma_char_index_from_bounds(s, c, from + 1);
    }
}

/// Finds the first occurrence of `c` at or after `from`.
pub fn index_of_char(cs: &[char], c: char, from: usize) -> (r: Option<usize>)
    requires
        from <= cs@.len(),
    ensures
        r == (match char_index_from(cs@, c, from as int) {
            Some(i) => Some(i as usize),
            None => None::<usize>,
        }),
        char_index_from(cs@, c, from as int) matches Some(i) ==> from <= i < cs@.len(),
        r matches Some(i) ==> from <= i < cs@.len(),
{
    proof {
        lemma_char_index_from_bounds(cs@, c, from as int);
    }
    let mut i = from;
    while i < cs.len()
        invariant
            from <= i <= cs@.len(),
            char_index_from(cs@, c, from as int) == char_index_from(cs@, c, i as int),
        decreases cs@.len() - i,
    {
        if cs[i] == c {
            return Some(i);
        }
        i = i + 1;
    }
    None
}

/// Whether `c` is white space in Unicode's sense (`char::is_whitespace`).
pub open spec fn is_unicode_whitespace(c: char) -> bool {
    let u = c as u32;
    ||| 0x09 <= u <= 0x0D
    ||| u == 0x20
    ||| u == 0x85
    ||| u == 0xA0
    ||| u == 0x1680
    ||| 0x2000 <= u <= 0x200A
    ||| u == 0x2028
    ||| u == 0x2029
    ||| u == 0x202F
    ||| u == 0x205F
    ||| u == 0x3000
}

fn is_whitespace_exec(c: char) -> (b: bool)
    ensures
        b == is_unicode_whitespace(c),
{
    let u = c as u32;
    (0x09 <= u && u <= 0x0D) || u == 0x20 || u == 0x85 || u == 0xA0 || u == 0x1680 || (0x2000
        <= u && u <= 0x200A) || u == 0x2028 || u == 0x2029 || u == 0x202F || u == 0x205F || u
        == 0x3000
}

/// The text without leading white space.
pub open spec fn trim_start(s: Seq<char>) -> Seq<char>
    decreases s.len(),
{
    if s.len() > 0 && is_unicode_whitespace(s[0]) {
        trim_start(s.drop_first())
    } else {
        s
    }
}

/// The text without trailing white space.
pub open spec fn trim_end(s: Seq<char>) -> Seq<char>
    decreases s.len(),
{
    if s.len() > 0 && is_unicode_whitespace(s.last()) {
        trim_end(s.drop_last())
    } else {
        s
    }
}

/// The text without leading or trailing white space (`str::trim`).
pub open spec fn trim(s: Seq<char>) -> Seq<char> {
    trim_end(trim_start(s))
}

/// The characters of `cs[start..end]` without leading or trailing white space.
pub fn trim_range(cs: &[char], start: usize, end: usize) -> (res: Vec<char>)
    requires
        start <= end <= cs@.len(),
    ensures
        res@ == trim(cs@.subrange(start as int, end as int)),
{
    let mut a = start;
    while a < end && is_whitespace_exec(cs[a])
        invariant
            start <= a <= end,
            end <= cs@.len(),
            trim_start(cs@.subrange(start as int, end as int)) == trim_start(cs@.subrange(a as int, end as int)),
        decreases end - a,
    {
        assert(cs@.subrange(a as int, end as int).drop_first() =~= cs@.subrange(a + 1, end as int));
        a = a + 1;
    }
    assert(trim_start(cs@.subrange(a as int, end as int)) == cs@.subrange(a as int, end as int));
    let mut b = end;
    while b > a && is_whitespace_exec(cs[b - 1])
        invariant
            a <= b <= end,
            end <= cs@.len(),
            trim(cs@.subrange(start as int, end as int)) == trim_end(cs@.subrange(a as int, b as int)),
        decreases b - a,
    {
        assert(cs@.subrange(a as int, b as int).drop_last() =~= cs@.subrange(a as int, b - 1));
        b = b - 1;
    }
    let mut out: Vec<char> = Vec::new();
    let mut i = a;
    while i < b
        invariant
            a <= i <= b,
            b <= cs@.len(),
            out@ == cs@.subrange(a as int, i as int),
        decreases b - i,
    {
        out.push(cs[i]);
        assert(out@ =~= cs@.subrange(a as int, i + 1));
        i = i + 1;
    }
    out
}

/// Whether every character is an ASCII decimal digit.
pub open spec fn all_ascii_digits(s: Seq<char>) -> bool {
    forall|i: int| 0 <= i < s.len() ==> '0' <= #[trigger] s[i] <= '9'
}

/// The value of a string of decimal digits.
pub open spec fn digits_value(s: Seq<char>) -> int
    decreases s.len(),
{
    if s.len() == 0 {
        0
    } else {
        digits_value(s.drop_last()) * 10 + (s.last() as int - 48)
    }
}

/// The digits that `from_str` reads for an unsigned integer: a single leading
/// `+` is dropped when something follows it.
pub open spec fn unsigned_digits(s: Seq<char>) -> Seq<char> {
    if s.len() > 1 && s[0] == '+' {
        s.drop_first()
    } else {
        s
    }
}

/// What `str::parse` gives for an unsigned integer type whose largest value is
/// `max`: the value of a non-empty string of ASCII digits (after an optional
/// `+`) when it is at most `max`.
pub open spec fn parse_unsigned(s: Seq<char>, max: int) -> Option<int> {
    let d = unsigned_digits(s);
    if d.len() > 0 && all_ascii_digits(d) && digits_value(d) <= max {
        Some(digits_value(d))
    } else {
        None
    }
}

proof fn lemma_digits_value_grows(s: Seq<char>, k: int, n: int)
    requires
        0 <= k <= n <= s.len(),
        all_ascii_digits(s),
    ensures
        digits_value(s.subrange(0, k)) <= digits_value(s.subrange(0, n)),
        digits_value(s.subrange(0, k)) >= 0,
    decreases n - k,
{
    if k < n {
        lemma_digits_value_grows(s, k + 1, n);
        assert(s.subrange(0, k + 1).drop_last() =~= s.subrange(0, k));
        assert('0' <= s[k] <= '9');
    } else {
        lemma_digits_value_nonneg(s.subrange(0, k));
    }
}

proof fn lemma_digits_value_nonneg(s: Seq<char>)
    requires
        all_ascii_digits(s),
    ensures
        digits_value(s) >= 0,
    decreases s.len(),
{
    if s.len() > 0 {
        assert(all_ascii_digits(s.drop_last()));
        lemma_digits_value_nonneg(s.drop_last());
        assert('0' <= s[s.len() - 1] <= '9');
    }
}

/// A parsed unsigned integer lies between zero and the bound it was parsed under.
pub proof fn lemma_parse_unsigned_range(s: Seq<char>, max: int)
    ensures
        parse_unsigned(s, max) matches Some(v) ==> 0 <= v <= max,
{
    if parse_unsigned(s, max) is Some {
        lemma_digits_value_nonneg(unsigned_digits(s));
    }
}

/// Parses the characters `cs` as an unsigned integer no larger than `max`, as
/// `str::parse` does.
#[verifier::spinoff_prover]
pub fn parse_unsigned_chars(cs: &[char], max: u64) -> (res: Option<u64>)
    ensures
        match parse_unsigned(cs@, max as int) {
            Some(v) => res == Some(v as u64),
            None => res is None,
        },
        res matches Some(v) ==> v <= max,
{
    let start: usize = if cs.len() > 1 && cs[0] == '+' { 1 } else { 0 };
    let ghost d = unsigned_digits(cs@);
    assert(d =~= cs@.subrange(start as int, cs@.len() as int));
    if start == cs.len() {
        assert(d.len() == 0);
        return None;
    }
    let mut value: u64 = 0;
    let mut i = start;
    while i < cs.len()
        invariant
            start <= i <= cs@.len(),
            d == cs@.subrange(start as int, cs@.len() as int),
            d == unsigned_digits(cs@),
            all_ascii_digits(cs@.subrange(start as int, i as int)),
            value as int == digits_value(cs@.subrange(start as int, i as int)),
            value <= max,
        decreases cs@.len() - i,
    {
        let c = cs[i];
        assert(cs@.subrange(start as int, i + 1).drop_last() =~= cs@.subrange(start as int, i as int));
        if c < '0' || c > '9' {
            assert(d[i - start] == c);
            assert(!('0' <= d[i - start] <= '9'));
            assert(!all_ascii_digits(d));
            return None;
        }
        let digit = (c as u32 - 48) as u64;
        if digit > max || value > (max - digit) / 10 {
            proof {
                assert(all_ascii_digits(cs@.subrange(start as int, i + 1)));
                assert(digits_value(cs@.subrange(start as int, i + 1)) > max) by (nonlinear_arith)
                    requires
                        digits_value(cs@.subrange(start as int, i + 1)) == value * 10 + digit,
                        digit > max || value > (max - digit) / 10,
                        value >= 0,
                ;
                if all_ascii_digits(d) {
                    assert(d.subrange(0, i + 1 - start) =~= cs@.subrange(start as int, i + 1));
                    assert(d.subrange(0, d.len() as int) =~= d);
                    lemma_digits_value_grows(d, i + 1 - start, d.len() as int);
                    assert(digits_value(d.subrange(0, i + 1 - start)) == digits_value(cs@.subrange(start as int, i + 1)));
                    assert(digits_value(d) > max);
                }
            }
            return None;
        }
        value = value * 10 + digit;
        i = i + 1;
    }
    assert(cs@.subrange(start as int, i as int) =~= d);
    Some(value)
}

/// What `String::from_utf8_lossy` makes of a byte sequence.
pub uninterp spec fn utf8_lossy(bytes: Seq<u8>) -> Seq<char>;

/// `String::from_utf8_lossy`: the text of the bytes, each invalid UTF-8 sequence
/// replaced by U+FFFD. Claimed: the result is `utf8_lossy` of the bytes, and for
/// valid UTF-8 it is the decoded text (as its documentation states).
#[verifier::external_body]
pub(crate) fn lossy_string(bytes: &[u8]) -> (s: String)
    ensures
        s@ == utf8_lossy(bytes@),
        valid_utf8(bytes@) ==> s@ == decode_utf8(bytes@),
{
    String::from_utf8_lossy(bytes).into_owned()
}

/// `String::from_utf8`: `Some` exactly when the bytes are valid UTF-8, and then
/// the decoded text.
#[verifier::external_body]
pub(crate) fn utf8_string(bytes: &[u8]) -> (res: Option<String>)
    ensures
        res is Some <==> valid_utf8(bytes@),
        res matches Some(s) ==> s@ == decode_utf8(bytes@),
{
    String::from_utf8(bytes.to_vec()).ok()
}

/// A decimal digit character stands for its value.
proof fn lemma_decimal_digit_value(k: int)
    requires
        0 <= k < 10,
    ensures
        decimal_digit(k) as int == 48 + k,
{
    assert(((48 + k) as u8) as int == 48 + k);
}

/// The decimal representation of `n` is a non-empty string of digits worth `n`.
proof fn lemma_decimal_digits(n: nat)
    ensures
        decimal(n).len() > 0,
        all_ascii_digits(decimal(n)),
        digits_value(decimal(n)) == n,
    decreases n,
{
    lemma_decimal_digit_value((n % 10) as int);
    if n < 10 {
        assert(decimal(n).drop_last() =~= Seq::<char>::empty());
        assert(digits_value(decimal(n)) == digits_value(decimal(n).drop_last()) * 10 + (decimal(n).last() as int - 48));
    }
    if n >= 10 {
        lemma_decimal_digits(n / 10);
        let d = decimal(n);
        assert(d.last() == decimal_digit((n % 10) as int));
        assert(digits_value(d) == digits_value(d.drop_last()) * 10 + (d.last() as int - 48));
        assert(d.drop_last() =~= decimal(n / 10));
        assert forall|i: int| 0 <= i < d.len() implies '0' <= #[trigger] d[i] <= '9' by {
            if i < d.len() - 1 {
                assert(d[i] == decimal(n / 10)[i]);
            }
        }
    }
}

/// Reading back a written number: a number written in decimal parses to
/// itself under any bound it does not exceed.
pub proof fn law_decimal_parses_back(n: nat, max: int)
    requires
        n <= max,
    ensures
        parse_unsigned(decimal(n), max) == Some(n as int),
{
    lemma_decimal_digits(n);
    assert(decimal(n)[0] != '+');
    assert(unsigned_digits(decimal(n)) == decimal(n));
}

} // verus!
