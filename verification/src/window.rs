//! The Context Assembler: for each match index it collects the clamped,
//! contiguous range of lines around the match as `(absolute index, text)`
//! pairs, preserving order. Overlapping windows are kept separate.

use vstd::prelude::*;
use crate::lines::views;

verus! {

/// One context window: the ordered `(absolute line index, line text)` pairs
/// around a single match.
pub struct ContextWindow {
    pub entries: Vec<(usize, String)>,
}

impl ContextWindow {
    /// The window's entries as mathematical pairs.
    pub open spec fn entry_seq(self) -> Seq<(int, Seq<char>)> {
        self.entries@.map_values(|e: (usize, String)| (e.0 as int, e.1@))
    }
}

/// Lower window bound: `max(0, m - r)`.
pub open spec fn lo_of(m: int, r: int) -> int {
    if m - r >= 0 {
        m - r
    } else {
        0
    }
}

/// Upper window bound: `min(n - 1, m + r)` for `n` lines.
pub open spec fn hi_of(m: int, r: int, n: int) -> int {
    if m + r <= n - 1 {
        m + r
    } else {
        n - 1
    }
}

/// The window around match index `m` with radius `r`: the lines with indices
/// `lo_of(m, r)` through `hi_of(m, r, lines.len())`, each paired with its
/// absolute index.
pub open spec fn window_pure(lines: Seq<Seq<char>>, m: int, r: int) -> Seq<(int, Seq<char>)> {
    Seq::new(
        (hi_of(m, r, lines.len() as int) - lo_of(m, r) + 1) as nat,
        |p: int| (lo_of(m, r) + p, lines[lo_of(m, r) + p]),
    )
}

/// The windows of all match indices, in match order.
pub open spec fn windows_pure(lines: Seq<Seq<char>>, ms: Seq<int>, r: int) -> Seq<
    Seq<(int, Seq<char>)>,
> {
    Seq::new(ms.len(), |k: int| window_pure(lines, ms[k], r))
}

/// Builds the context window for one match index.
pub fn build_window(lines: &Vec<String>, m: usize, radius: usize) -> (w: ContextWindow)
    requires
        m < lines@.len(),
    ensures
        w.entry_seq() == window_pure(views(lines@), m as int, radius as int),
{
    let n = lines.len();
    let lo = if m >= radius {
        m - radius
    } else {
        0
    };
    let hi = if n - 1 - m <= radius {
        n - 1
    } else {
        m + radius
    };
    let mut entries: Vec<(usize, String)> = Vec::new();
    let mut j: usize = lo;
    proof {
        assert(lo == lo_of(m as int, radius as int));
        assert(hi == hi_of(m as int, radius as int, views(lines@).len() as int));
    }
    while j <= hi
        invariant
            lo <= j <= hi + 1,
            lo == lo_of(m as int, radius as int),
            hi == hi_of(m as int, radius as int, views(lines@).len() as int),
            hi < lines@.len(),
            n == lines@.len(),
            entries@.map_values(|e: (usize, String)| (e.0 as int, e.1@)) =~= window_pure(
                views(lines@),
                m as int,
                radius as int,
            ).take(j - lo),
        decreases hi + 1 - j,
    {
        let text = lines[j].clone();
        let ghost old_entries = entries@;
        entries.push((j, text));
        proof {
            let f = |e: (usize, String)| (e.0 as int, e.1@);
            assert(entries@.map_values(f) =~= old_entries.map_values(f).push((j as int, text@)));
            assert(entries@.map_values(f) =~= window_pure(
                views(lines@),
                m as int,
                radius as int,
            ).take(j + 1 - lo));
        }
        j += 1;
    }
    proof {
        assert(window_pure(views(lines@), m as int, radius as int).take(hi + 1 - lo)
            =~= window_pure(views(lines@), m as int, radius as int));
    }
    let w = ContextWindow { entries };
    proof {
        assert(w.entry_seq() =~= window_pure(views(lines@), m as int, radius as int));
    }
    w
}

/// Builds one window per match index, in match order.
pub fn build_windows(lines: &Vec<String>, ms: &Vec<usize>, radius: usize) -> (r: Vec<ContextWindow>)
    requires
        forall|k: int| 0 <= k < ms@.len() ==> ms@[k] < lines@.len(),
    ensures
        r@.len() == ms@.len(),
        r@.map_values(|w: ContextWindow| w.entry_seq()) == windows_pure(
            views(lines@),
            crate::matcher::as_ints(ms@),
            radius as int,
        ),
{
    let n = ms.len();
    let mut out: Vec<ContextWindow> = Vec::new();
    let mut k: usize = 0;
    while k < n
        invariant
            k <= n,
            n == ms@.len(),
            forall|k2: int| 0 <= k2 < ms@.len() ==> ms@[k2] < lines@.len(),
            out@.len() == k,
            out@.map_values(|w: ContextWindow| w.entry_seq()) =~= windows_pure(
                views(lines@),
                crate::matcher::as_ints(ms@),
                radius as int,
            ).take(k as int),
        decreases n - k,
    {
        let w = build_window(lines, ms[k], radius);
        let ghost old_out = out@;
        out.push(w);
        proof {
            let f = |w: ContextWindow| w.entry_seq();
            assert(out@.map_values(f) =~= old_out.map_values(f).push(w.entry_seq()));
            assert(out@.map_values(f) =~= windows_pure(
                views(lines@),
                crate::matcher::as_ints(ms@),
                radius as int,
            ).take(k + 1));
        }
        k += 1;
    }
    proof {
        let f = |w: ContextWindow| w.entry_seq();
        assert(windows_pure(views(lines@), crate::matcher::as_ints(ms@), radius as int).take(
            n as int,
        ) =~= windows_pure(views(lines@), crate::matcher::as_ints(ms@), radius as int));
    }
    out
}

/// The Context Window invariant: the absolute indices of the window around
/// `m` form a contiguous ascending range that contains `m`, lies entirely
/// within `[0, lines.len() - 1]`, and each entry carries the text of its
/// line.
pub proof fn lemma_window_indices(lines: Seq<Seq<char>>, m: int, r: int)
    requires
        0 <= m < lines.len(),
        r >= 0,
    ensures
        forall|p: int|
            0 <= p < window_pure(lines, m, r).len() ==> (#[trigger] window_pure(lines, m, r)[p]).0
                == lo_of(m, r) + p,
        forall|p: int|
            0 <= p < window_pure(lines, m, r).len() ==> 0 <= (#[trigger] window_pure(
                lines,
                m,
                r,
            )[p]).0 < lines.len(),
        forall|p: int|
            0 <= p < window_pure(lines, m, r).len() ==> (#[trigger] window_pure(lines, m, r)[p]).1
                == lines[window_pure(lines, m, r)[p].0],
        0 <= lo_of(m, r) <= m <= hi_of(m, r, lines.len() as int) < lines.len(),
        window_pure(lines, m, r)[m - lo_of(m, r)].0 == m,
{
}

/// The Context Window length bounds: a window holds between 1 and `2r + 1`
/// lines, and holds exactly `2r + 1` lines whenever the match is at least
/// `r` away from both boundaries.
pub proof fn lemma_window_length(lines: Seq<Seq<char>>, m: int, r: int)
    requires
        0 <= m < lines.len(),
        r >= 0,
    ensures
        1 <= window_pure(lines, m, r).len() <= 2 * r + 1,
        m - r >= 0 && m + r <= lines.len() - 1 ==> window_pure(lines, m, r).len() == 2 * r + 1,
{
}

} // verus!
