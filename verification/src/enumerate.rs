//! Parsing the text the OS enumeration tools print and filtering it by a
//! case-insensitive query.
//!
//! On POSIX the listing has one line per process, a decimal identifier
//! followed by whitespace and the full command line; the query is matched
//! against the command line.  On Windows the listing is the CSV form of
//! the task list, a quoted display name and a quoted identifier first; the
//! query is matched against the display name only.  Malformed lines are
//! skipped, never an error.

use vstd::prelude::*;
use crate::chars::{is_space, is_space_char};
use crate::scan::{
    count_while, digit_pred, lemma_count_while, views, spec_split, split_str, spec_lines,
    split_lines, trim_ws, trim_ws_str, trim_start_ws, trim_start_ws_str, trim_quotes,
    trim_quotes_str, first_word, first_word_str, count_digit_prefix,
};
use crate::match_ci::{spec_contains_ci, contains_ci};
use crate::num::{all_digits, digits_val, parse_u32};
use crate::capture::{lossy_of, decode_lossy};

verus! {

/// What one line of the POSIX listing denotes: the process identifier and
/// the command line, or nothing when the line is malformed.  A line is
/// well formed when, after trimming, it starts with digits that end the
/// line or are followed by whitespace, and the digits fit a 32-bit
/// identifier.
pub open spec fn posix_entry(line: Seq<char>) -> Option<(u32, Seq<char>)> {
    let t = trim_ws(line);
    let d = count_while(t, digit_pred());
    if d == 0 {
        None
    } else if d < t.len() && !is_space(t[d]) {
        None
    } else if digits_val(t.take(d)) > u32::MAX {
        None
    } else {
        Some((digits_val(t.take(d)) as u32, trim_start_ws(t.skip(d))))
    }
}

/// Executable mirror of [`posix_entry`].
pub fn parse_posix_line(line: &str) -> (r: Option<(u32, String)>)
    ensures
        r is Some <==> posix_entry(line@) is Some,
        r matches Some(p) ==> (posix_entry(line@) matches Some(q) && p.0 == q.0 && p.1@ == q.1),
{
    let t = trim_ws_str(line);
    let ts = t.as_str();
    let tl = ts.unicode_len();
    let d = count_digit_prefix(ts);
    proof {
        lemma_count_while(t@, digit_pred());
    }
    if d == 0 {
        return None;
    }
    if d < tl && !is_space_char(ts.get_char(d)) {
        return None;
    }
    let pid_str = ts.substring_char(0, d);
    proof {
        assert(pid_str@ =~= trim_ws(line@).take(d as int));
        assert(all_digits(pid_str@));
    }
    match parse_u32(pid_str) {
        None => None,
        Some(pid) => {
            let rest = ts.substring_char(d, tl);
            proof {
                assert(rest@ =~= trim_ws(line@).skip(d as int));
            }
            let cmd = trim_start_ws_str(rest);
            Some((pid, cmd))
        },
    }
}

/// What one line of the Windows CSV listing denotes: the process's display
/// name and its identifier, or nothing when the line is malformed.  The
/// line must have at least two comma-separated fields; quotes around the
/// fields are dropped, and the identifier is the first word of its field.
pub open spec fn windows_entry(line: Seq<char>) -> Option<(Seq<char>, u32)> {
    let parts = spec_split(line, ',');
    if parts.len() < 2 {
        None
    } else {
        let name = trim_quotes(parts[0]);
        let tok = first_word(trim_quotes(parts[1]));
        if tok.len() > 0 && all_digits(tok) && digits_val(tok) <= u32::MAX {
            Some((name, digits_val(tok) as u32))
        } else {
            None
        }
    }
}

/// Executable mirror of [`windows_entry`].
pub fn parse_windows_line(line: &str) -> (r: Option<(String, u32)>)
    ensures
        r is Some <==> windows_entry(line@) is Some,
        r matches Some(p) ==> (windows_entry(line@) matches Some(q) && p.0@ == q.0 && p.1
            == q.1),
{
    let parts = split_str(line, ',');
    if parts.len() < 2 {
        return None;
    }
    let name = trim_quotes_str(parts[0].as_str());
    let field = trim_quotes_str(parts[1].as_str());
    let tok = first_word_str(field.as_str());
    match parse_u32(tok.as_str()) {
        None => None,
        Some(pid) => Some((name, pid)),
    }
}

/// Whether a POSIX line is selected by the query: it is well formed and
/// its command line contains the query, case-insensitively.
pub open spec fn posix_selected(line: Seq<char>, query: Seq<char>) -> bool {
    match posix_entry(line) {
        Some(e) => spec_contains_ci(e.1, query),
        None => false,
    }
}

/// Whether a Windows line is selected by the query: it is well formed and
/// its display name contains the query, case-insensitively.
pub open spec fn windows_selected(line: Seq<char>, query: Seq<char>) -> bool {
    match windows_entry(line) {
        Some(e) => spec_contains_ci(e.0, query),
        None => false,
    }
}

/// The identifiers of the selected POSIX lines, in the order the lines
/// come.
pub open spec fn spec_find_posix(lines: Seq<Seq<char>>, query: Seq<char>) -> Seq<u32>
    decreases lines.len(),
{
    if lines.len() == 0 {
        Seq::empty()
    } else {
        let init = spec_find_posix(lines.drop_last(), query);
        if posix_selected(lines.last(), query) {
            init.push(posix_entry(lines.last())->Some_0.0)
        } else {
            init
        }
    }
}

/// The identifiers of the selected Windows lines, in the order the lines
/// come.
pub open spec fn spec_find_windows(lines: Seq<Seq<char>>, query: Seq<char>) -> Seq<u32>
    decreases lines.len(),
{
    if lines.len() == 0 {
        Seq::empty()
    } else {
        let init = spec_find_windows(lines.drop_last(), query);
        if windows_selected(lines.last(), query) {
            init.push(windows_entry(lines.last())->Some_0.1)
        } else {
            init
        }
    }
}

/// Decode the bytes the POSIX listing tool printed and keep the
/// identifiers of the processes whose command line contains `query`,
/// case-insensitively, in listing order.
pub fn find_pids_posix(listing: &[u8], query: &str) -> (r: Vec<u32>)
    ensures
        r@ == spec_find_posix(spec_lines(lossy_of(listing@)), query@),
{
    let text = decode_lossy(listing);
    let lines = split_lines(text.as_str());
    let mut r: Vec<u32> = Vec::new();
    let mut k: usize = 0;
    while k < lines.len()
        invariant
            0 <= k <= lines@.len(),
            views(lines@) == spec_lines(lossy_of(listing@)),
            r@ == spec_find_posix(views(lines@).take(k as int), query@),
        decreases lines@.len() - k,
    {
        proof {
            assert(views(lines@).take(k + 1).drop_last() =~= views(lines@).take(k as int));
            assert(views(lines@).take(k + 1).last() == lines@[k as int]@);
        }
        match parse_posix_line(lines[k].as_str()) {
            Some(e) => {
                if contains_ci(e.1.as_str(), query) {
                    r.push(e.0);
                }
            },
            None => {},
        }
        k = k + 1;
    }
    proof {
        assert(views(lines@).take(lines@.len() as int) =~= views(lines@));
    }
    r
}

/// Decode the bytes the Windows listing tool printed and keep the
/// identifiers of the processes whose display name contains `query`,
/// case-insensitively, in listing order.
pub fn find_pids_windows(listing: &[u8], query: &str) -> (r: Vec<u32>)
    ensures
        r@ == spec_find_windows(spec_lines(lossy_of(listing@)), query@),
{
    let text = decode_lossy(listing);
    let lines = split_lines(text.as_str());
    let mut r: Vec<u32> = Vec::new();
    let mut k: usize = 0;
    while k < lines.len()
        invariant
            0 <= k <= lines@.len(),
            views(lines@) == spec_lines(lossy_of(listing@)),
            r@ == spec_find_windows(views(lines@).take(k as int), query@),
        decreases lines@.len() - k,
    {
        proof {
            assert(views(lines@).take(k + 1).drop_last() =~= views(lines@).take(k as int));
            assert(views(lines@).take(k + 1).last() == lines@[k as int]@);
        }
        match parse_windows_line(lines[k].as_str()) {
            Some(e) => {
                if contains_ci(e.0.as_str(), query) {
                    r.push(e.1);
                }
            },
            None => {},
        }
        k = k + 1;
    }
    proof {
        assert(views(lines@).take(lines@.len() as int) =~= views(lines@));
    }
    r
}

/// A query that selects no line yields the empty list of identifiers —
/// malformed and unmatched lines alike produce nothing, never an error.
pub proof fn lemma_find_posix_empty(lines: Seq<Seq<char>>, query: Seq<char>)
    requires
        forall|i: int| 0 <= i < lines.len() ==> !posix_selected(lines[i], query),
    ensures
        spec_find_posix(lines, query).len() == 0,
    decreases lines.len(),
{
    if lines.len() > 0 {
        lemma_find_posix_empty(lines.drop_last(), query);
        assert(!posix_selected(lines[lines.len() - 1], query));
    }
}

/// The Windows counterpart of [`lemma_find_posix_empty`].
pub proof fn lemma_find_windows_empty(lines: Seq<Seq<char>>, query: Seq<char>)
    requires
        forall|i: int| 0 <= i < lines.len() ==> !windows_selected(lines[i], query),
    ensures
        spec_find_windows(lines, query).len() == 0,
    decreases lines.len(),
{
    if lines.len() > 0 {
        lemma_find_windows_empty(lines.drop_last(), query);
        assert(!windows_selected(lines[lines.len() - 1], query));
    }
}

} // verus!
