//! Case-insensitive substring matching, the test that decides which
//! running processes an enumeration query selects.

use vstd::prelude::*;
use crate::chars::{lower_char, lower_char_exec, lower_seq, lemma_lower_seq_idempotent};

verus! {

/// `needle` occurs in `hay` starting at index `i`.
pub open spec fn contains_at(hay: Seq<char>, needle: Seq<char>, i: int) -> bool {
    &&& 0 <= i
    &&& i + needle.len() <= hay.len()
    &&& hay.subrange(i, i + needle.len()) == needle
}

/// `needle` occurs somewhere in `hay`.  An empty needle occurs in
/// everything.
pub open spec fn spec_contains(hay: Seq<char>, needle: Seq<char>) -> bool {
    exists|i: int| contains_at(hay, needle, i)
}

/// `needle` occurs in `hay` once both are folded to lower case.
pub open spec fn spec_contains_ci(hay: Seq<char>, needle: Seq<char>) -> bool {
    spec_contains(lower_seq(hay), lower_seq(needle))
}

/// Whether the folded `query` occurs in the folded `hay` at index `i`.
fn matches_at(hay: &str, query: &str, i: usize) -> (r: bool)
    requires
        i + query@.len() <= hay@.len(),
    ensures
        r == contains_at(lower_seq(hay@), lower_seq(query@), i as int),
{
    let h = hay.unicode_len();
    let n = query.unicode_len();
    let mut j: usize = 0;
    while j < n
        invariant
            h == hay@.len(),
            i + n <= hay@.len(),
            n == query@.len(),
            0 <= j <= n,
            forall|m: int|
                0 <= m < j ==> lower_seq(hay@)[i + m] == lower_seq(query@)[m],
        decreases n - j,
    {
        if lower_char_exec(hay.get_char(i + j)) != lower_char_exec(query.get_char(j)) {
            proof {
                assert(lower_seq(hay@)[i + j] != lower_seq(query@)[j as int]);
                if contains_at(lower_seq(hay@), lower_seq(query@), i as int) {
                    assert(lower_seq(hay@).subrange(i as int, i + n)[j as int] == lower_seq(
                        query@,
                    )[j as int]);
                }
            }
            return false;
        }
        j = j + 1;
    }
    proof {
        assert(lower_seq(hay@).subrange(i as int, i + n) =~= lower_seq(query@));
    }
    true
}

/// Whether `query` occurs in `hay`, compared case-insensitively.
pub fn contains_ci(hay: &str, query: &str) -> (r: bool)
    ensures
        r == spec_contains_ci(hay@, query@),
{
    let h = hay.unicode_len();
    let n = query.unicode_len();
    if n > h {
        proof {
            assert(forall|i: int| !contains_at(lower_seq(hay@), lower_seq(query@), i));
        }
        return false;
    }
    if n == 0 {
        proof {
            assert(lower_seq(hay@).subrange(0, 0) =~= lower_seq(query@));
            assert(contains_at(lower_seq(hay@), lower_seq(query@), 0));
        }
        return true;
    }
    let mut i: usize = 0;
    while i <= h - n
        invariant
            1 <= n <= h,
            h == hay@.len(),
            n == query@.len(),
            0 <= i <= h - n + 1,
            forall|k: int| 0 <= k < i ==> !contains_at(lower_seq(hay@), lower_seq(query@), k),
        decreases h - n - i + 1,
    {
        if matches_at(hay, query, i) {
            return true;
        }
        i = i + 1;
    }
    proof {
        assert(forall|k: int| !contains_at(lower_seq(hay@), lower_seq(query@), k));
    }
    false
}

/// Matching is case-insensitive: names and queries that agree up to case
/// are matched alike.
pub proof fn lemma_contains_ci_case_insensitive(
    hay1: Seq<char>,
    hay2: Seq<char>,
    query1: Seq<char>,
    query2: Seq<char>,
)
    requires
        lower_seq(hay1) == lower_seq(hay2),
        lower_seq(query1) == lower_seq(query2),
    ensures
        spec_contains_ci(hay1, query1) == spec_contains_ci(hay2, query2),
{
}

/// Folding either side before matching changes nothing: a query matches a
/// name exactly when it matches the lower-cased name, and vice versa.
pub proof fn lemma_contains_ci_folded(hay: Seq<char>, query: Seq<char>)
    ensures
        spec_contains_ci(lower_seq(hay), query) == spec_contains_ci(hay, query),
        spec_contains_ci(hay, lower_seq(query)) == spec_contains_ci(hay, query),
{
    lemma_lower_seq_idempotent(hay);
    lemma_lower_seq_idempotent(query);
}

} // verus!
