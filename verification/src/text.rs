//! Character-level substring search, shared by the sitemap scanner,
//! the ignore-path filter and the nested-sitemap marker test.

use vstd::prelude::*;
use vstd::string::StrSliceExecFns;

verus! {

/// `pat` occurs in `s` at character index `i`.
pub open spec fn sub_at(s: Seq<char>, pat: Seq<char>, i: int) -> bool {
    0 <= i && i + pat.len() <= s.len() && s.subrange(i, i + pat.len() as int) == pat
}

/// The first index at or after `from` where `pat` occurs in `s`.
pub open spec fn find_at(s: Seq<char>, pat: Seq<char>, from: int) -> Option<int>
    decreases s.len() - from + 1,
{
    if from < 0 || from + pat.len() > s.len() {
        None
    } else if sub_at(s, pat, from) {
        Some(from)
    } else {
        find_at(s, pat, from + 1)
    }
}

/// `pat` occurs somewhere in `s`.
pub open spec fn has_sub(s: Seq<char>, pat: Seq<char>) -> bool {
    find_at(s, pat, 0) is Some
}

/// `find_at` returns the first occurrence: a hit is an occurrence with
/// none before it (at or after `from`), a miss means no occurrence at
/// or after `from` at all.
pub proof fn lemma_find_at(s: Seq<char>, pat: Seq<char>, from: int)
    requires
        0 <= from,
    ensures
        match find_at(s, pat, from) {
            Some(i) => from <= i && sub_at(s, pat, i) && forall|j: int|
                from <= j < i ==> !sub_at(s, pat, j),
            None => forall|j: int| from <= j ==> !sub_at(s, pat, j),
        },
    decreases s.len() - from + 1,
{
    if from < 0 || from + pat.len() > s.len() {
    } else if sub_at(s, pat, from) {
    } else {
        lemma_find_at(s, pat, from + 1);
    }
}

/// Searching from an earlier point finds the same occurrence as long
/// as nothing matches in between.
pub proof fn lemma_find_at_skip(s: Seq<char>, pat: Seq<char>, from: int, to: int)
    requires
        0 <= from <= to,
        forall|j: int| from <= j < to ==> !sub_at(s, pat, j),
    ensures
        find_at(s, pat, from) == find_at(s, pat, to),
    decreases to - from,
{
    if from < to {
        lemma_find_at_skip(s, pat, from + 1, to);
    }
}

/// Whether `pat` occurs in `s` at character index `i`.
pub(crate) fn match_at(s: &str, pat: &str, i: usize) -> (r: bool)
    requires
        i + pat@.len() <= s@.len(),
        s@.len() <= usize::MAX,
    ensures
        r == sub_at(s@, pat@, i as int),
{
    let n = pat.unicode_len();
    let mut k: usize = 0;
    while k < n
        invariant
            k <= n,
            n == pat@.len(),
            i + n <= s@.len() <= usize::MAX,
            forall|t: int| 0 <= t < k ==> s@[i + t] == pat@[t],
        decreases n - k,
    {
        if s.get_char(i + k) != pat.get_char(k) {
            proof {
                assert(s@.subrange(i as int, i + pat@.len() as int)[k as int] == s@[i + k]);
            }
            return false;
        }
        k = k + 1;
    }
    proof {
        assert(s@.subrange(i as int, i + pat@.len() as int) =~= pat@);
    }
    true
}

/// The first occurrence of `pat` in `s` at or after character index
/// `from`, as a character index.
pub fn find_from(s: &str, pat: &str, from: usize) -> (r: Option<usize>)
    ensures
        match r {
            Some(i) => find_at(s@, pat@, from as int) == Some(i as int),
            None => find_at(s@, pat@, from as int) is None,
        },
{
    let slen = s.unicode_len();
    let plen = pat.unicode_len();
    if plen == 0 {
        if from <= slen {
            proof {
                assert(s@.subrange(from as int, from as int) =~= pat@);
            }
            return Some(from);
        } else {
            return None;
        }
    }
    if plen > slen || from > slen - plen {
        return None;
    }
    let mut i: usize = from;
    while i <= slen - plen
        invariant
            from <= i,
            1 <= plen <= slen,
            i <= slen - plen + 1,
            slen == s@.len(),
            plen == pat@.len(),
            forall|j: int| from <= j < i ==> !sub_at(s@, pat@, j),
        decreases slen - i,
    {
        if match_at(s, pat, i) {
            proof {
                lemma_find_at_skip(s@, pat@, from as int, i as int);
            }
            return Some(i);
        }
        i = i + 1;
    }
    proof {
        lemma_find_at_skip(s@, pat@, from as int, i as int);
    }
    None
}

/// Whether `pat` occurs anywhere in `s`.
pub fn contains_sub(s: &str, pat: &str) -> (r: bool)
    ensures
        r == has_sub(s@, pat@),
{
    match find_from(s, pat, 0) {
        Some(_) => true,
        None => false,
    }
}

} // verus!
