//! The transaction log shown to the user: one line per event, the oldest line
//! dropped once the log is full.
use vstd::prelude::*;
use vstd::string::*;
use crate::text::{str_chars, index_of_char, char_index_from, lemma_char_index_from_bounds, string_push};

verus! {

/// Maximum number of log lines retained.
pub const MAX_LOG_LINES: u32 = 500;

/// The text after the first line break, or the whole text when there is none.
pub open spec fn drop_first_line(s: Seq<char>) -> Seq<char> {
    match char_index_from(s, '\n', 0) {
        Some(i) => s.subrange(i + 1, s.len() as int),
        None => s,
    }
}

/// The log text with `msg` appended as a line of its own.
pub open spec fn with_line(current: Seq<char>, msg: Seq<char>) -> Seq<char> {
    current + "> "@ + msg + "\n"@
}

/// The log text and line count after `msg` is logged: the line is appended and
/// counted (the counter wraps as an atomic counter does), and once the count
/// exceeds the maximum the oldest line is dropped and uncounted.
pub open spec fn log_after(current: Seq<char>, count: u32, msg: Seq<char>) -> (Seq<char>, u32) {
    let c = ((count + 1) % 0x1_0000_0000) as u32;
    if c > MAX_LOG_LINES {
        (drop_first_line(with_line(current, msg)), (c - 1) as u32)
    } else {
        (with_line(current, msg), c)
    }
}

/// Appends `msg` to the log text holding `count` lines, dropping the oldest line
/// when the log is full.
pub fn append_log_line(current: &str, count: u32, msg: &str) -> (res: (String, u32))
    ensures
        (res.0@, res.1) == log_after(current@, count, msg@),
{
    let mut text = String::from_str(current);
    text.append("> ");
    text.append(msg);
    text.append("\n");
    let c = count.wrapping_add(1);
    if c > MAX_LOG_LINES {
        let cs = str_chars(text.as_str());
        proof {
            lemma_char_index_from_bounds(cs@, '\n', 0);
        }
        match index_of_char(cs.as_slice(), '\n', 0) {
            Some(i) => {
                assert(i < cs.len());
                let mut rest = String::new();
                let mut k = i + 1;
                while k < cs.len()
                    invariant
                        i + 1 <= k <= cs@.len(),
                        rest@ == cs@.subrange(i + 1, k as int),
                    decreases cs@.len() - k,
                {
                    string_push(&mut rest, cs[k]);
                    assert(rest@ =~= cs@.subrange(i + 1, k + 1));
                    k = k + 1;
                }
                (rest, c - 1)
            },
            None => (text, c - 1),
        }
    } else {
        (text, c)
    }
}

/// A log that is not over-full stays so: from at most the maximum number of
/// lines, logging a line leaves at most the maximum.
pub proof fn law_log_stays_bounded(current: Seq<char>, count: u32, msg: Seq<char>)
    requires
        count <= MAX_LOG_LINES,
    ensures
        log_after(current, count, msg).1 <= MAX_LOG_LINES,
{
}

} // verus!
