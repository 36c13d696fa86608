//! Splitting input text into the Line Sequence: an ordered, zero-indexed
//! decomposition of the input on line terminators (`\n`, with a preceding
//! `\r` stripped), mirroring the splitting the search operates on.

use vstd::prelude::*;
use vstd::string::*;

verus! {

/// Position of the first `'\n'` in `t`, or `t.len()` when there is none.
pub open spec fn first_nl(t: Seq<char>) -> nat
    decreases t.len(),
{
    if t.len() == 0 {
        0
    } else if t[0] == '\n' {
        0
    } else {
        (1 + first_nl(t.drop_first())) as nat
    }
}

/// The ordered sequence of lines of `t`: pieces between `'\n'` terminators,
/// a `'\r'` directly before a terminator stripped, and no empty final piece
/// when the text ends with a terminator.
pub open spec fn line_seq(t: Seq<char>) -> Seq<Seq<char>>
    decreases t.len(),
{
    if t.len() == 0 {
        Seq::empty()
    } else {
        let i = first_nl(t) as int;
        if i >= t.len() {
            seq![t]
        } else {
            let line = if i > 0 && t[i - 1] == '\r' {
                t.subrange(0, i - 1)
            } else {
                t.subrange(0, i)
            };
            seq![line] + line_seq(t.subrange(i + 1, t.len() as int))
        }
    }
}

/// The views of a sequence of owned strings.
pub open spec fn views(s: Seq<String>) -> Seq<Seq<char>> {
    s.map_values(|x: String| x@)
}

/// If the first `j` characters of `t` are not `'\n'` and position `j` is the
/// end or holds `'\n'`, then `j` is where the first line of `t` ends.
proof fn lemma_first_nl_is(t: Seq<char>, j: int)
    requires
        0 <= j <= t.len(),
        forall|k: int| 0 <= k < j ==> t[k] != '\n',
        j < t.len() ==> t[j] == '\n',
    ensures
        first_nl(t) == j,
    decreases t.len(),
{
    if t.len() == 0 {
    } else if t[0] == '\n' {
        assert(j == 0);
    } else {
        assert(j >= 1);
        lemma_first_nl_is(t.drop_first(), j - 1);
    }
}

/// Materializes the Line Sequence of `input` as owned strings.
pub fn split_lines(input: &str) -> (r: Vec<String>)
    ensures
        views(r@) == line_seq(input@),
{
    let n = input.unicode_len();
    let mut out: Vec<String> = Vec::new();
    let mut pos: usize = 0;
    proof {
        assert(input@.subrange(0, n as int) =~= input@);
        assert(views(out@) + line_seq(input@.subrange(0, n as int)) =~= line_seq(input@));
    }
    while pos < n
        invariant
            pos <= n,
            n == input@.len(),
            views(out@) + line_seq(input@.subrange(pos as int, n as int)) == line_seq(input@),
        decreases n - pos,
    {
        let ghost t = input@.subrange(pos as int, n as int);
        let mut e: usize = pos;
        while e < n && input.get_char(e) != '\n'
            invariant
                pos <= e <= n,
                n == input@.len(),
                forall|k: int| pos <= k < e ==> input@[k] != '\n',
            decreases n - e,
        {
            e += 1;
        }
        proof {
            assert(forall|k: int| 0 <= k < e - pos ==> t[k] == input@[pos + k] && t[k] != '\n');
            lemma_first_nl_is(t, e - pos);
        }
        if e == n {
            let piece = input.substring_char(pos, n).to_owned();
            proof {
                assert(piece@ =~= t);
                assert(line_seq(t) =~= seq![t]);
                assert(views(out@.push(piece)) =~= views(out@).push(t));
                assert(views(out@).push(t) + line_seq(input@.subrange(n as int, n as int))
                    =~= views(out@) + line_seq(t));
            }
            out.push(piece);
            pos = n;
        } else {
            let end2 = if e > pos && input.get_char(e - 1) == '\r' {
                e - 1
            } else {
                e
            };
            let piece = input.substring_char(pos, end2).to_owned();
            proof {
                let i = first_nl(t) as int;
                assert(i == e - pos);
                assert(t[i] == input@[e as int]);
                if i > 0 {
                    assert(t[i - 1] == input@[e - 1]);
                }
                let line = if i > 0 && t[i - 1] == '\r' {
                    t.subrange(0, i - 1)
                } else {
                    t.subrange(0, i)
                };
                assert(piece@ =~= line);
                assert(t.subrange(i + 1, t.len() as int)
                    =~= input@.subrange(e + 1, n as int));
                assert(line_seq(t) == seq![line] + line_seq(input@.subrange(e + 1, n as int)));
                assert(views(out@.push(piece)) =~= views(out@).push(line));
                assert(views(out@).push(line) + line_seq(input@.subrange(e + 1, n as int))
                    =~= views(out@) + (seq![line] + line_seq(input@.subrange(e + 1, n as int))));
            }
            out.push(piece);
            pos = e + 1;
        }
    }
    proof {
        assert(line_seq(input@.subrange(pos as int, n as int)) =~= Seq::<Seq<char>>::empty());
        assert(views(out@) + Seq::<Seq<char>>::empty() =~= views(out@));
    }
    out
}

} // verus!
