//! Literal substring matching: the substring-mode predicate of the matcher.

use vstd::prelude::*;
use vstd::string::*;

verus! {

/// `pat` occurs in `line` starting at character position `i`.
pub open spec fn matches_at(line: Seq<char>, pat: Seq<char>, i: int) -> bool {
    0 <= i && i + pat.len() <= line.len() && line.subrange(i, i + pat.len() as int) == pat
}

/// `line` contains `pat` as a contiguous substring (case-sensitive, no
/// normalization). An empty pattern is contained in every line.
pub open spec fn contains_sub(line: Seq<char>, pat: Seq<char>) -> bool {
    exists|i: int| matches_at(line, pat, i)
}

/// Compares `pat` against the characters of `line` starting at position `i`.
fn check_at(line: &str, pat: &str, i: usize) -> (r: bool)
    requires
        i + pat@.len() <= line@.len(),
    ensures
        r == matches_at(line@, pat@, i as int),
{
    let n = line.unicode_len();
    let m = pat.unicode_len();
    let mut j: usize = 0;
    while j < m
        invariant
            j <= m,
            n == line@.len(),
            m == pat@.len(),
            i + m <= n,
            forall|k: int| 0 <= k < j ==> line@[i + k] == pat@[k],
        decreases m - j,
    {
        if line.get_char(i + j) != pat.get_char(j) {
            proof {
                assert(line@.subrange(i as int, i + pat@.len() as int)[j as int]
                    == line@[i + j]);
            }
            return false;
        }
        j += 1;
    }
    proof {
        assert(line@.subrange(i as int, i + pat@.len() as int) =~= pat@);
    }
    true
}

/// Substring search: scans every start position once, left to right.
pub fn substring_contains(line: &str, pat: &str) -> (r: bool)
    ensures
        r == contains_sub(line@, pat@),
{
    let n = line.unicode_len();
    let m = pat.unicode_len();
    if m > n {
        proof {
            assert(forall|i: int| !matches_at(line@, pat@, i));
        }
        return false;
    }
    let mut i: usize = 0;
    loop
        invariant
            m <= n,
            i <= n - m,
            n == line@.len(),
            m == pat@.len(),
            forall|k: int| 0 <= k < i ==> !matches_at(line@, pat@, k),
        decreases n - m - i,
    {
        if check_at(line, pat, i) {
            return true;
        }
        if i == n - m {
            proof {
                assert(forall|k: int| k > n - m ==> !matches_at(line@, pat@, k));
            }
            return false;
        }
        i += 1;
    }
}

} // verus!
