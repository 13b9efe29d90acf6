//! Scanning primitives over text: counting a matching prefix or suffix,
//! trimming, splitting on a separator, and splitting into lines the way the
//! OS tools terminate them.

use vstd::prelude::*;
use crate::chars::{is_space, is_space_char, is_digit, is_digit_char};

verus! {

/// Length of the longest prefix of `s` whose characters all satisfy `p`.
pub open spec fn count_while(s: Seq<char>, p: spec_fn(char) -> bool) -> int
    decreases s.len(),
{
    if s.len() > 0 && p(s[0]) {
        1 + count_while(s.skip(1), p)
    } else {
        0
    }
}

/// Length of the longest suffix of `s` whose characters all satisfy `p`.
pub open spec fn count_while_rev(s: Seq<char>, p: spec_fn(char) -> bool) -> int
    decreases s.len(),
{
    if s.len() > 0 && p(s[s.len() - 1]) {
        1 + count_while_rev(s.drop_last(), p)
    } else {
        0
    }
}

/// The counted prefix is in bounds, all of it satisfies `p`, and the first
/// character after it (if any) does not.
pub proof fn lemma_count_while(s: Seq<char>, p: spec_fn(char) -> bool)
    ensures
        0 <= count_while(s, p) <= s.len(),
        forall|i: int| 0 <= i < count_while(s, p) ==> p(s[i]),
        count_while(s, p) < s.len() ==> !p(s[count_while(s, p)]),
    decreases s.len(),
{
    if s.len() > 0 && p(s[0]) {
        lemma_count_while(s.skip(1), p);
        let c = count_while(s, p);
        assert forall|i: int| 0 <= i < c implies p(s[i]) by {
            if i > 0 {
                assert(p(s.skip(1)[i - 1]));
            }
        }
        if c < s.len() {
            assert(!p(s.skip(1)[c - 1]));
        }
    }
}

/// Any index with the three properties of [`lemma_count_while`] is the count.
pub proof fn lemma_count_while_is(s: Seq<char>, p: spec_fn(char) -> bool, j: int)
    requires
        0 <= j <= s.len(),
        forall|i: int| 0 <= i < j ==> p(s[i]),
        j < s.len() ==> !p(s[j]),
    ensures
        count_while(s, p) == j,
{
    lemma_count_while(s, p);
    let c = count_while(s, p);
    if c < j {
        assert(p(s[c]));
    }
    if j < c {
        assert(p(s[j]));
    }
}

/// The counted suffix is in bounds, all of it satisfies `p`, and the first
/// character before it (if any) does not.
pub proof fn lemma_count_while_rev(s: Seq<char>, p: spec_fn(char) -> bool)
    ensures
        0 <= count_while_rev(s, p) <= s.len(),
        forall|i: int| s.len() - count_while_rev(s, p) <= i < s.len() ==> p(s[i]),
        count_while_rev(s, p) < s.len() ==> !p(s[s.len() - count_while_rev(s, p) - 1]),
    decreases s.len(),
{
    if s.len() > 0 && p(s[s.len() - 1]) {
        lemma_count_while_rev(s.drop_last(), p);
        let c = count_while_rev(s, p);
        assert forall|i: int| s.len() - c <= i < s.len() implies p(s[i]) by {
            if i < s.len() - 1 {
                assert(p(s.drop_last()[i]));
            }
        }
        if c < s.len() {
            assert(!p(s.drop_last()[s.len() - c - 1]));
        }
    }
}

/// Any count with the three properties of [`lemma_count_while_rev`] is the
/// suffix count.
pub proof fn lemma_count_while_rev_is(s: Seq<char>, p: spec_fn(char) -> bool, k: int)
    requires
        0 <= k <= s.len(),
        forall|i: int| s.len() - k <= i < s.len() ==> p(s[i]),
        k < s.len() ==> !p(s[s.len() - k - 1]),
    ensures
        count_while_rev(s, p) == k,
{
    lemma_count_while_rev(s, p);
    let c = count_while_rev(s, p);
    if c < k {
        assert(p(s[s.len() - c - 1]));
    }
    if k < c {
        assert(p(s[s.len() - k - 1]));
    }
}

/// Whitespace, as a predicate value.
pub open spec fn space_pred() -> spec_fn(char) -> bool {
    |c: char| is_space(c)
}

/// Not-whitespace, as a predicate value.
pub open spec fn not_space_pred() -> spec_fn(char) -> bool {
    |c: char| !is_space(c)
}

/// Decimal digits, as a predicate value.
pub open spec fn digit_pred() -> spec_fn(char) -> bool {
    |c: char| is_digit(c)
}

/// The double-quote character, as a predicate value.
pub open spec fn quote_pred() -> spec_fn(char) -> bool {
    |c: char| c == '"'
}

/// Everything but `sep`, as a predicate value.
pub open spec fn not_char_pred(sep: char) -> spec_fn(char) -> bool {
    |c: char| c != sep
}

/// Number of whitespace characters at the start of `s`.
pub fn count_space_prefix(s: &str) -> (r: usize)
    ensures
        r as int == count_while(s@, space_pred()),
{
    let len = s.unicode_len();
    let mut i: usize = 0;
    while i < len && is_space_char(s.get_char(i))
        invariant
            0 <= i <= len,
            len == s@.len(),
            forall|j: int| 0 <= j < i ==> is_space(s@[j]),
        decreases len - i,
    {
        i = i + 1;
    }
    proof {
        lemma_count_while_is(s@, space_pred(), i as int);
    }
    i
}

/// Number of whitespace characters at the end of `s`.
pub fn count_space_suffix(s: &str) -> (r: usize)
    ensures
        r as int == count_while_rev(s@, space_pred()),
{
    let len = s.unicode_len();
    let mut i: usize = len;
    while i > 0 && is_space_char(s.get_char(i - 1))
        invariant
            0 <= i <= len,
            len == s@.len(),
            forall|j: int| i <= j < len ==> is_space(s@[j]),
        decreases i,
    {
        i = i - 1;
    }
    proof {
        lemma_count_while_rev_is(s@, space_pred(), (len - i) as int);
    }
    len - i
}

/// Number of decimal digits at the start of `s`.
pub fn count_digit_prefix(s: &str) -> (r: usize)
    ensures
        r as int == count_while(s@, digit_pred()),
{
    let len = s.unicode_len();
    let mut i: usize = 0;
    while i < len && is_digit_char(s.get_char(i))
        invariant
            0 <= i <= len,
            len == s@.len(),
            forall|j: int| 0 <= j < i ==> is_digit(s@[j]),
        decreases len - i,
    {
        i = i + 1;
    }
    proof {
        lemma_count_while_is(s@, digit_pred(), i as int);
    }
    i
}

/// Number of non-whitespace characters at the start of `s`.
pub fn count_word_prefix(s: &str) -> (r: usize)
    ensures
        r as int == count_while(s@, not_space_pred()),
{
    let len = s.unicode_len();
    let mut i: usize = 0;
    while i < len && !is_space_char(s.get_char(i))
        invariant
            0 <= i <= len,
            len == s@.len(),
            forall|j: int| 0 <= j < i ==> !is_space(s@[j]),
        decreases len - i,
    {
        i = i + 1;
    }
    proof {
        lemma_count_while_is(s@, not_space_pred(), i as int);
    }
    i
}

/// Number of double quotes at the start of `s`.
pub fn count_quote_prefix(s: &str) -> (r: usize)
    ensures
        r as int == count_while(s@, quote_pred()),
{
    let len = s.unicode_len();
    let mut i: usize = 0;
    while i < len && s.get_char(i) == '"'
        invariant
            0 <= i <= len,
            len == s@.len(),
            forall|j: int| 0 <= j < i ==> s@[j] == '"',
        decreases len - i,
    {
        i = i + 1;
    }
    proof {
        lemma_count_while_is(s@, quote_pred(), i as int);
    }
    i
}

/// Number of double quotes at the end of `s`.
pub fn count_quote_suffix(s: &str) -> (r: usize)
    ensures
        r as int == count_while_rev(s@, quote_pred()),
{
    let len = s.unicode_len();
    let mut i: usize = len;
    while i > 0 && s.get_char(i - 1) == '"'
        invariant
            0 <= i <= len,
            len == s@.len(),
            forall|j: int| i <= j < len ==> s@[j] == '"',
        decreases i,
    {
        i = i - 1;
    }
    proof {
        lemma_count_while_rev_is(s@, quote_pred(), (len - i) as int);
    }
    len - i
}

/// Index of the first occurrence of `sep` in `s`, or the length of `s` when
/// `sep` does not occur.
pub fn find_char(s: &str, sep: char) -> (r: usize)
    ensures
        r as int == count_while(s@, not_char_pred(sep)),
{
    let len = s.unicode_len();
    let mut i: usize = 0;
    while i < len && s.get_char(i) != sep
        invariant
            0 <= i <= len,
            len == s@.len(),
            forall|j: int| 0 <= j < i ==> s@[j] != sep,
        decreases len - i,
    {
        i = i + 1;
    }
    proof {
        lemma_count_while_is(s@, not_char_pred(sep), i as int);
    }
    i
}

/// The views of a sequence of owned strings.
pub open spec fn views(v: Seq<String>) -> Seq<Seq<char>> {
    v.map_values(|t: String| t@)
}

/// `s` without its leading whitespace.
pub open spec fn trim_start_ws(s: Seq<char>) -> Seq<char> {
    s.skip(count_while(s, space_pred()))
}

/// `s` without its leading and trailing whitespace.
pub open spec fn trim_ws(s: Seq<char>) -> Seq<char> {
    let t = trim_start_ws(s);
    t.take(t.len() - count_while_rev(t, space_pred()))
}

/// `s` without its leading and trailing double quotes.
pub open spec fn trim_quotes(s: Seq<char>) -> Seq<char> {
    let t = s.skip(count_while(s, quote_pred()));
    t.take(t.len() - count_while_rev(t, quote_pred()))
}

/// The first whitespace-separated word of `s`, empty when `s` is all
/// whitespace.
pub open spec fn first_word(s: Seq<char>) -> Seq<char> {
    let t = trim_start_ws(s);
    t.take(count_while(t, not_space_pred()))
}

/// Executable mirror of [`trim_start_ws`].
pub fn trim_start_ws_str(s: &str) -> (r: String)
    ensures
        r@ == trim_start_ws(s@),
{
    let len = s.unicode_len();
    let a = count_space_prefix(s);
    proof {
        lemma_count_while(s@, space_pred());
        assert(s@.subrange(a as int, len as int) =~= trim_start_ws(s@));
    }
    s.substring_char(a, len).to_owned()
}

/// Executable mirror of [`trim_ws`].
pub fn trim_ws_str(s: &str) -> (r: String)
    ensures
        r@ == trim_ws(s@),
{
    let len = s.unicode_len();
    let a = count_space_prefix(s);
    proof {
        lemma_count_while(s@, space_pred());
        assert(s@.subrange(a as int, len as int) =~= trim_start_ws(s@));
    }
    let t = s.substring_char(a, len);
    let tl = t.unicode_len();
    let b = count_space_suffix(t);
    proof {
        lemma_count_while_rev(t@, space_pred());
        assert(t@.subrange(0, tl - b) =~= trim_ws(s@));
    }
    t.substring_char(0, tl - b).to_owned()
}

/// Executable mirror of [`trim_quotes`].
pub fn trim_quotes_str(s: &str) -> (r: String)
    ensures
        r@ == trim_quotes(s@),
{
    let len = s.unicode_len();
    let a = count_quote_prefix(s);
    proof {
        lemma_count_while(s@, quote_pred());
        assert(s@.subrange(a as int, len as int) =~= s@.skip(count_while(s@, quote_pred())));
    }
    let t = s.substring_char(a, len);
    let tl = t.unicode_len();
    let b = count_quote_suffix(t);
    proof {
        lemma_count_while_rev(t@, quote_pred());
        assert(t@.subrange(0, tl - b) =~= trim_quotes(s@));
    }
    t.substring_char(0, tl - b).to_owned()
}

/// Executable mirror of [`first_word`].
pub fn first_word_str(s: &str) -> (r: String)
    ensures
        r@ == first_word(s@),
{
    let len = s.unicode_len();
    let a = count_space_prefix(s);
    proof {
        lemma_count_while(s@, space_pred());
        assert(s@.subrange(a as int, len as int) =~= trim_start_ws(s@));
    }
    let t = s.substring_char(a, len);
    let w = count_word_prefix(t);
    proof {
        lemma_count_while(t@, not_space_pred());
        assert(t@.subrange(0, w as int) =~= first_word(s@));
    }
    t.substring_char(0, w).to_owned()
}

/// The parts of `s` between occurrences of `sep`, in order; a string
/// without the separator is a single part, and every separator bounds a
/// part, so the result is never empty.
pub open spec fn spec_split(s: Seq<char>, sep: char) -> Seq<Seq<char>>
    decreases s.len(),
    via spec_split_decreases
{
    let i = count_while(s, not_char_pred(sep));
    if i == s.len() {
        seq![s]
    } else {
        seq![s.take(i)] + spec_split(s.skip(i + 1), sep)
    }
}

#[via_fn]
proof fn spec_split_decreases(s: Seq<char>, sep: char) {
    lemma_count_while(s, not_char_pred(sep));
}

/// Executable mirror of [`spec_split`].
pub fn split_str(s: &str, sep: char) -> (r: Vec<String>)
    ensures
        views(r@) == spec_split(s@, sep),
    decreases s@.len(),
{
    let len = s.unicode_len();
    let i = find_char(s, sep);
    proof {
        lemma_count_while(s@, not_char_pred(sep));
    }
    if i == len {
        let mut r: Vec<String> = Vec::new();
        r.push(s.to_owned());
        proof {
            assert(views(r@) =~~= spec_split(s@, sep));
        }
        r
    } else {
        let head = s.substring_char(0, i);
        let rest = s.substring_char(i + 1, len);
        proof {
            assert(rest@ =~= s@.skip(i + 1));
            assert(head@ =~= s@.take(i as int));
        }
        let mut r: Vec<String> = Vec::new();
        r.push(head.to_owned());
        let mut tail = split_str(rest, sep);
        r.append(&mut tail);
        proof {
            assert(views(r@) =~~= spec_split(s@, sep));
        }
        r
    }
}

/// `line` without one trailing carriage return, if it carries one.
pub open spec fn strip_cr(line: Seq<char>) -> Seq<char> {
    if line.len() > 0 && line[line.len() - 1] == '\r' {
        line.drop_last()
    } else {
        line
    }
}

/// Executable mirror of [`strip_cr`].
pub fn strip_cr_string(line: &String) -> (r: String)
    ensures
        r@ == strip_cr(line@),
{
    let len = line.as_str().unicode_len();
    if len > 0 && line.as_str().get_char(len - 1) == '\r' {
        proof {
            assert(line@.subrange(0, len - 1) =~= line@.drop_last());
        }
        line.as_str().substring_char(0, len - 1).to_owned()
    } else {
        line.clone()
    }
}

/// The lines of `s`: parts separated by newline characters, each without a
/// trailing carriage return, and with no empty line after a final newline.
/// Empty input has no lines.
pub open spec fn spec_lines(s: Seq<char>) -> Seq<Seq<char>> {
    if s.len() == 0 {
        Seq::empty()
    } else {
        let t = if s[s.len() - 1] == '\n' {
            s.drop_last()
        } else {
            s
        };
        spec_split(t, '\n').map_values(|line: Seq<char>| strip_cr(line))
    }
}

/// Executable mirror of [`spec_lines`].
pub fn split_lines(s: &str) -> (r: Vec<String>)
    ensures
        views(r@) == spec_lines(s@),
{
    let len = s.unicode_len();
    if len == 0 {
        let r: Vec<String> = Vec::new();
        proof {
            assert(views(r@) =~~= spec_lines(s@));
        }
        return r;
    }
    let cut = if s.get_char(len - 1) == '\n' {
        len - 1
    } else {
        len
    };
    let t = s.substring_char(0, cut);
    proof {
        if s@[len - 1] == '\n' {
            assert(t@ =~= s@.drop_last());
        } else {
            assert(t@ =~= s@);
        }
    }
    let parts = split_str(t, '\n');
    let mut r: Vec<String> = Vec::new();
    let mut k: usize = 0;
    while k < parts.len()
        invariant
            0 <= k <= parts.len(),
            views(parts@) == spec_split(t@, '\n'),
            spec_lines(s@) == spec_split(t@, '\n').map_values(
                |line: Seq<char>| strip_cr(line),
            ),
            r@.len() == k,
            forall|m: int| 0 <= m < k ==> r@[m]@ == strip_cr(parts@[m]@),
        decreases parts.len() - k,
    {
        let stripped = strip_cr_string(&parts[k]);
        r.push(stripped);
        k = k + 1;
    }
    proof {
        assert(views(r@) =~~= spec_lines(s@));
    }
    r
}

} // verus!
