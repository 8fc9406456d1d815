//! Substring matching over character sequences: the primitive behind the
//! marker-based classification of resource instances.

use vstd::prelude::*;

verus! {

/// `pat` occurs in `s` starting at index `i`.
pub open spec fn matches_at(s: Seq<char>, pat: Seq<char>, i: int) -> bool {
    0 <= i && i + pat.len() <= s.len() && s.subrange(i, i + pat.len() as int) == pat
}

/// `pat` occurs somewhere in `s`: plain substring containment, with no
/// word-boundary condition.
pub open spec fn contains_seq(s: Seq<char>, pat: Seq<char>) -> bool {
    exists|i: int| matches_at(s, pat, i)
}

/// Whether `pat` occurs in `s` as a substring.
pub fn str_contains(s: &str, pat: &str) -> (r: bool)
    ensures
        r == contains_seq(s@, pat@),
{
    let n = s.unicode_len();
    let m = pat.unicode_len();
    if m > n {
        assert(forall|i: int| !matches_at(s@, pat@, i));
        return false;
    }
    let mut i: usize = 0;
    while i <= n - m
        invariant
            m <= n,
            n == s@.len(),
            m == pat@.len(),
            i <= n - m + 1,
            forall|k: int| 0 <= k < i ==> !matches_at(s@, pat@, k),
        decreases n - m - i + 1,
    {
        let mut j: usize = 0;
        let mut mismatch = false;
        while j < m
            invariant
                m <= n,
                n == s@.len(),
                m == pat@.len(),
                i <= n - m,
                j <= m,
                !mismatch ==> forall|l: int| 0 <= l < j ==> s@[i + l] == pat@[l],
                mismatch ==> !matches_at(s@, pat@, i as int),
                mismatch ==> m >= 1,
            decreases m - j,
        {
            if s.get_char(i + j) != pat.get_char(j) {
                proof {
                    let ii = i as int;
                    if matches_at(s@, pat@, ii) {
                        assert(s@.subrange(ii, ii + pat@.len() as int)[j as int] == s@[ii + j]);
                    }
                }
                mismatch = true;
                j = m;
            } else {
                j = j + 1;
            }
        }
        if !mismatch {
            proof {
                let ii = i as int;
                assert(s@.subrange(ii, ii + pat@.len() as int) =~= pat@);
                assert(matches_at(s@, pat@, ii));
            }
            return true;
        }
        i = i + 1;
    }
    proof {
        assert forall|k: int| !matches_at(s@, pat@, k) by {
            if matches_at(s@, pat@, k) {
                assert(0 <= k && k + pat@.len() <= s@.len());
                assert(k < i);
            }
        }
    }
    false
}

} // verus!
