//! Plain-text helpers: character vectors and substring search.
//!
//! Branch matching and the already-graded check both rest on the same
//! question — does one piece of text occur inside another — so the
//! substring predicate and its executable search live here.

use vstd::prelude::*;
use vstd::string::*;

verus! {

/// The needle `n` occurs in `h` starting exactly at position `i`.
pub open spec fn contains_at(h: Seq<char>, n: Seq<char>, i: int) -> bool {
    0 <= i && i + n.len() <= h.len() && h.subrange(i, i + n.len()) == n
}

/// The needle `n` occurs somewhere in `h`.
pub open spec fn text_contains(h: Seq<char>, n: Seq<char>) -> bool {
    exists|i: int| contains_at(h, n, i)
}

/// Copy the characters of a string into a vector, for indexed access.
pub fn chars_of(s: &str) -> (v: Vec<char>)
    ensures
        v@ == s@,
{
    let n = s.unicode_len();
    let mut v: Vec<char> = Vec::new();
    let mut i: usize = 0;
    while i < n
        invariant
            n == s@.len(),
            i <= n,
            v@ == s@.subrange(0, i as int),
        decreases n - i,
    {
        v.push(s.get_char(i));
        proof {
            assert(v@ =~= s@.subrange(0, i + 1));
        }
        i = i + 1;
    }
    proof {
        assert(v@ =~= s@);
    }
    v
}

/// Does `pat` occur in `t` exactly at position `i`?
pub fn occurs_at(t: &Vec<char>, i: usize, pat: &str) -> (b: bool)
    ensures
        b == contains_at(t@, pat@, i as int),
{
    let m = pat.unicode_len();
    let tl = t.len();
    if i > tl || m > tl - i {
        return false;
    }
    let mut k: usize = 0;
    while k < m
        invariant
            m == pat@.len(),
            tl == t@.len(),
            i + m <= tl,
            k <= m,
            forall|j: int| 0 <= j < k ==> t@[i + j] == pat@[j],
        decreases m - k,
    {
        if t[i + k] != pat.get_char(k) {
            proof {
                assert(t@.subrange(i as int, i + m as int)[k as int] == t@[i + k]);
            }
            return false;
        }
        k = k + 1;
    }
    proof {
        assert(t@.subrange(i as int, i + m as int) =~= pat@);
    }
    true
}

/// Substring test: does `needle` occur anywhere in `haystack`?
pub fn contains_text(haystack: &str, needle: &str) -> (b: bool)
    ensures
        b == text_contains(haystack@, needle@),
{
    let h = chars_of(haystack);
    let m = needle.unicode_len();
    let hl = h.len();
    if m > hl {
        return false;
    }
    if m == 0 {
        proof {
            assert(h@.subrange(0, 0) =~= needle@);
            assert(contains_at(h@, needle@, 0));
        }
        return true;
    }
    let mut i: usize = 0;
    while i <= hl - m
        invariant
            m == needle@.len(),
            hl == h@.len(),
            1 <= m <= hl,
            h@ == haystack@,
            i <= hl - m + 1,
            forall|j: int| 0 <= j < i ==> !contains_at(h@, needle@, j),
        decreases hl - m + 1 - i,
    {
        if occurs_at(&h, i, needle) {
            return true;
        }
        i = i + 1;
    }
    proof {
        assert(forall|j: int| contains_at(h@, needle@, j) ==> 0 <= j < i);
    }
    false
}

/// A needle found in a prefix is still found after more text is appended.
pub proof fn lemma_contains_prefix(a: Seq<char>, b: Seq<char>, n: Seq<char>)
    requires
        text_contains(a, n),
    ensures
        text_contains(a + b, n),
{
    let i = choose|i: int| contains_at(a, n, i);
    assert((a + b).subrange(i, i + n.len() as int) =~= n);
    assert(contains_at(a + b, n, i));
}

} // verus!
