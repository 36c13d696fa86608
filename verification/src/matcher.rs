//! The Matcher: produces the ordered set of zero-based indices of the lines
//! that satisfy the search predicate, scanning the Line Sequence exactly once.

use vstd::prelude::*;
use vstd::string::*;
use crate::lines::views;
use crate::regex_link::regex_compiles;
use crate::regex_link::regex_line_match;
use crate::regex_link::regex_matches;
use crate::regex_link::regex_valid;
use crate::text::contains_sub;
use crate::text::substring_contains;
use crate::GrepError;

verus! {

/// Which predicate a line is held to: literal substring containment, or a
/// compiled pattern-matching expression.
#[derive(Clone, Copy, Debug, PartialEq, Eq, Structural)]
pub enum MatchMode {
    Substring,
    Pattern,
}

/// A pattern is usable: substring mode accepts any string, pattern mode only
/// a syntactically valid pattern.
pub open spec fn pattern_ok(mode: MatchMode, pat: Seq<char>) -> bool {
    mode is Substring || regex_valid(pat)
}

/// The predicate a single line is tested against.
pub open spec fn line_matches(mode: MatchMode, pat: Seq<char>, line: Seq<char>) -> bool {
    match mode {
        MatchMode::Substring => contains_sub(line, pat),
        MatchMode::Pattern => regex_matches(pat, line),
    }
}

/// The ordered set of indices of the matching lines, in ascending order.
pub open spec fn match_indices(lines: Seq<Seq<char>>, mode: MatchMode, pat: Seq<char>) -> Seq<int>
    decreases lines.len(),
{
    if lines.len() == 0 {
        Seq::empty()
    } else {
        let pre = match_indices(lines.drop_last(), mode, pat);
        if line_matches(mode, pat, lines.last()) {
            pre.push(lines.len() - 1)
        } else {
            pre
        }
    }
}

/// A sequence of machine indices, as mathematical integers.
pub open spec fn as_ints(s: Seq<usize>) -> Seq<int> {
    s.map_values(|u: usize| u as int)
}

/// Tests one line against the predicate.
fn line_is_match(line: &String, pat: &String, mode: MatchMode) -> (r: bool)
    requires
        pattern_ok(mode, pat@),
    ensures
        r == line_matches(mode, pat@, line@),
{
    match mode {
        MatchMode::Substring => substring_contains(line.as_str(), pat.as_str()),
        MatchMode::Pattern => regex_line_match(pat.as_str(), line.as_str()),
    }
}

/// Runs the predicate over every line, left to right, and returns the
/// ascending sequence of matching indices. In pattern mode an invalid
/// pattern is rejected before any line is scanned.
pub fn find_matches(lines: &Vec<String>, pattern: &String, mode: MatchMode) -> (r: Result<
    Vec<usize>,
    GrepError,
>)
    ensures
        r is Ok <==> pattern_ok(mode, pattern@),
        r is Err ==> r->Err_0 is InvalidPattern,
        r is Ok ==> as_ints(r->Ok_0@) == match_indices(views(lines@), mode, pattern@),
{
    match mode {
        MatchMode::Pattern => {
            if !regex_compiles(pattern.as_str()) {
                return Err(GrepError::InvalidPattern);
            }
        },
        MatchMode::Substring => {},
    }
    let n = lines.len();
    let mut out: Vec<usize> = Vec::new();
    let mut i: usize = 0;
    while i < n
        invariant
            i <= n,
            n == lines@.len(),
            pattern_ok(mode, pattern@),
            as_ints(out@) == match_indices(views(lines@).take(i as int), mode, pattern@),
        decreases n - i,
    {
        let m = line_is_match(&lines[i], pattern, mode);
        proof {
            let vs = views(lines@);
            assert(vs.take(i + 1).drop_last() =~= vs.take(i as int));
            assert(vs.take(i + 1).last() == lines@[i as int]@);
        }
        if m {
            let ghost old_out = out@;
            out.push(i);
            proof {
                assert(as_ints(out@) =~= as_ints(old_out).push(i as int));
            }
        }
        i += 1;
    }
    proof {
        assert(views(lines@).take(n as int) =~= views(lines@));
    }
    Ok(out)
}

/// The Matcher's guarantees: every returned index is in range and its line
/// satisfies the predicate, the indices are strictly ascending with no
/// duplicates, and no line that satisfies the predicate is omitted.
pub proof fn lemma_match_indices(lines: Seq<Seq<char>>, mode: MatchMode, pat: Seq<char>)
    ensures
        forall|k: int|
            0 <= k < match_indices(lines, mode, pat).len() ==> 0 <= #[trigger] match_indices(
                lines,
                mode,
                pat,
            )[k] < lines.len() && line_matches(mode, pat, lines[match_indices(lines, mode, pat)[k]]),
        forall|k1: int, k2: int|
            0 <= k1 < k2 < match_indices(lines, mode, pat).len() ==> match_indices(
                lines,
                mode,
                pat,
            )[k1] < match_indices(lines, mode, pat)[k2],
        forall|i: int|
            0 <= i < lines.len() && line_matches(mode, pat, lines[i]) ==> match_indices(
                lines,
                mode,
                pat,
            ).contains(i),
    decreases lines.len(),
{
    if lines.len() == 0 {
    } else {
        let ms = match_indices(lines, mode, pat);
        let pre = match_indices(lines.drop_last(), mode, pat);
        lemma_match_indices(lines.drop_last(), mode, pat);
        assert forall|k: int|
            0 <= k < ms.len() implies 0 <= #[trigger] ms[k] < lines.len() && line_matches(
            mode,
            pat,
            lines[ms[k]],
        ) by {
            if k < pre.len() {
                assert(ms[k] == pre[k]);
                assert(lines.drop_last()[pre[k]] == lines[pre[k]]);
            } else {
                assert(ms[k] == lines.len() - 1);
                assert(lines.last() == lines[lines.len() - 1]);
            }
        }
        assert forall|i: int|
            0 <= i < lines.len() && line_matches(mode, pat, lines[i]) implies ms.contains(i) by {
            if i < lines.len() - 1 {
                assert(lines.drop_last()[i] == lines[i]);
                assert(pre.contains(i));
                let j = choose|j: int| 0 <= j < pre.len() && pre[j] == i;
                assert(ms[j] == i);
            } else {
                assert(lines.last() == lines[i]);
                assert(ms[pre.len() as int] == i);
            }
        }
    }
}

} // verus!
