//! The Renderer: turns the ordered context windows into the textual report.
//! Each window becomes one block: every entry is annotated with the match
//! ordinal, its absolute line number, and a distance indicator from the
//! block's center position (`length / 2`, which under boundary clamping is
//! not necessarily the matched line). A separator line precedes the first
//! block and follows every block.

use vstd::prelude::*;
use vstd::string::*;

verus! {

/// The decimal digit character for `d` (0 through 9).
pub open spec fn digit_char(d: nat) -> char {
    if d == 0 {
        '0'
    } else if d == 1 {
        '1'
    } else if d == 2 {
        '2'
    } else if d == 3 {
        '3'
    } else if d == 4 {
        '4'
    } else if d == 5 {
        '5'
    } else if d == 6 {
        '6'
    } else if d == 7 {
        '7'
    } else if d == 8 {
        '8'
    } else {
        '9'
    }
}

/// The decimal rendering of `n`, most significant digit first, no leading
/// zeros (except for `n == 0` itself).
pub open spec fn dec_str(n: nat) -> Seq<char>
    decreases n,
{
    if n < 10 {
        seq![digit_char(n)]
    } else {
        dec_str(n / 10).push(digit_char(n % 10))
    }
}

/// The distance indicator: the marker token repeated `d` times.
pub open spec fn marker(d: int) -> Seq<char>
    decreases d,
{
    if d <= 0 {
        Seq::empty()
    } else {
        ">>"@ + marker(d - 1)
    }
}

/// The separator line: fifty dashes and a line break.
pub open spec fn sep() -> Seq<char> {
    "--------------------------------------------------\n"@
}

/// One rendered report line: the entry at position `p` of the window with
/// ordinal `ord`, whose absolute line index is `idx` and text is `text`.
/// The center position carries the highlight mark; every other position
/// carries a distance indicator of `|center - p|` marker tokens.
pub open spec fn entry_line(ord: int, idx: int, text: Seq<char>, center: int, p: int) -> Seq<
    char,
> {
    let head = "Match_"@ + dec_str(ord as nat) + ". line_"@ + dec_str(idx as nat) + ". "@;
    if p == center {
        head + "> "@ + text + "\n"@
    } else {
        let d = if center >= p {
            center - p
        } else {
            p - center
        };
        head + marker(d) + " "@ + text + "\n"@
    }
}

/// The first `k` rendered lines of the block for window `ord` with entries
/// `es` and center position `center`.
pub open spec fn block_upto(
    ord: int,
    es: Seq<(int, Seq<char>)>,
    center: int,
    k: int,
) -> Seq<char>
    decreases k,
{
    if k <= 0 {
        Seq::empty()
    } else {
        block_upto(ord, es, center, k - 1) + entry_line(
            ord,
            es[k - 1].0,
            es[k - 1].1,
            center,
            k - 1,
        )
    }
}

/// The full block for window `ord`: every entry in ascending position
/// order, with the center at `es.len() / 2`.
pub open spec fn window_block(ord: int, es: Seq<(int, Seq<char>)>) -> Seq<char> {
    block_upto(ord, es, es.len() as int / 2, es.len() as int)
}

/// The report of the first `k` windows: the separator, then each block in
/// order, each followed by the separator.
pub open spec fn report_upto(ws: Seq<Seq<(int, Seq<char>)>>, k: int) -> Seq<char>
    decreases k,
{
    if k <= 0 {
        sep()
    } else {
        report_upto(ws, k - 1) + window_block(k, ws[k - 1]) + sep()
    }
}

/// The full rendered report of the ordered windows `ws`.
pub open spec fn report(ws: Seq<Seq<(int, Seq<char>)>>) -> Seq<char> {
    report_upto(ws, ws.len() as int)
}

/// The digit literal for `d`.
fn digit_lit(d: usize) -> (r: &'static str)
    requires
        d < 10,
    ensures
        r@ == seq![digit_char(d as nat)],
{
    proof {
        reveal_strlit("0");
        reveal_strlit("1");
        reveal_strlit("2");
        reveal_strlit("3");
        reveal_strlit("4");
        reveal_strlit("5");
        reveal_strlit("6");
        reveal_strlit("7");
        reveal_strlit("8");
        reveal_strlit("9");
    }
    match d {
        0 => {
            proof {
                assert("0"@ =~= seq![digit_char(0)]);
            }
            "0"
        },
        1 => {
            proof {
                assert("1"@ =~= seq![digit_char(1)]);
            }
            "1"
        },
        2 => {
            proof {
                assert("2"@ =~= seq![digit_char(2)]);
            }
            "2"
        },
        3 => {
            proof {
                assert("3"@ =~= seq![digit_char(3)]);
            }
            "3"
        },
        4 => {
            proof {
                assert("4"@ =~= seq![digit_char(4)]);
            }
            "4"
        },
        5 => {
            proof {
                assert("5"@ =~= seq![digit_char(5)]);
            }
            "5"
        },
        6 => {
            proof {
                assert("6"@ =~= seq![digit_char(6)]);
            }
            "6"
        },
        7 => {
            proof {
                assert("7"@ =~= seq![digit_char(7)]);
            }
            "7"
        },
        8 => {
            proof {
                assert("8"@ =~= seq![digit_char(8)]);
            }
            "8"
        },
        _ => {
            proof {
                assert("9"@ =~= seq![digit_char(9)]);
            }
            "9"
        },
    }
}

/// Renders `n` in decimal.
pub fn to_decimal(n: usize) -> (r: String)
    ensures
        r@ == dec_str(n as nat),
    decreases n,
{
    if n < 10 {
        digit_lit(n).to_owned()
    } else {
        let mut s = to_decimal(n / 10);
        let d = digit_lit(n % 10);
        s.append(d);
        proof {
            assert(s@ =~= dec_str((n / 10) as nat).push(digit_char((n % 10) as nat)));
        }
        s
    }
}

/// Appending one more marker token extends the indicator on the right.
proof fn lemma_marker_snoc(d: int)
    requires
        d >= 0,
    ensures
        marker(d + 1) == marker(d) + ">>"@,
    decreases d,
{
    if d == 0 {
        assert(marker(1) =~= marker(0) + ">>"@);
    } else {
        lemma_marker_snoc(d - 1);
        assert(marker(d + 1) =~= marker(d) + ">>"@);
    }
}

/// Renders the distance indicator of `d` marker tokens.
fn render_marker(d: usize) -> (r: String)
    ensures
        r@ == marker(d as int),
{
    let mut s = String::new();
    let mut j: usize = 0;
    proof {
        assert(s@ =~= marker(0));
    }
    while j < d
        invariant
            j <= d,
            s@ == marker(j as int),
        decreases d - j,
    {
        s.append(">>");
        proof {
            lemma_marker_snoc(j as int);
        }
        j += 1;
    }
    s
}

/// Renders one report line.
fn render_entry(ord: usize, idx: usize, text: &String, center: usize, p: usize) -> (r: String)
    ensures
        r@ == entry_line(ord as int, idx as int, text@, center as int, p as int),
{
    let mut s = String::from_str("Match_");
    let ord_s = to_decimal(ord);
    s.append(ord_s.as_str());
    s.append(". line_");
    let idx_s = to_decimal(idx);
    s.append(idx_s.as_str());
    s.append(". ");
    if p == center {
        s.append("> ");
    } else {
        let d = if center >= p {
            center - p
        } else {
            p - center
        };
        let mk = render_marker(d);
        s.append(mk.as_str());
        s.append(" ");
    }
    s.append(text.as_str());
    s.append("\n");
    proof {
        assert(s@ =~= entry_line(ord as int, idx as int, text@, center as int, p as int));
    }
    s
}

/// Renders the block of one window.
fn render_window(ord: usize, w: &crate::window::ContextWindow) -> (r: String)
    ensures
        r@ == window_block(ord as int, w.entry_seq()),
{
    let len = w.entries.len();
    let center = len / 2;
    let mut s = String::new();
    let mut p: usize = 0;
    proof {
        assert(s@ =~= block_upto(ord as int, w.entry_seq(), center as int, 0));
    }
    while p < len
        invariant
            p <= len,
            len == w.entries@.len(),
            center == len / 2,
            s@ == block_upto(ord as int, w.entry_seq(), center as int, p as int),
        decreases len - p,
    {
        let idx = w.entries[p].0;
        let line = render_entry(ord, idx, &w.entries[p].1, center, p);
        s.append(line.as_str());
        proof {
            assert(w.entry_seq()[p as int] == (w.entries@[p as int].0 as int, w.entries@[
                p as int].1@));
        }
        p += 1;
    }
    proof {
        assert(w.entry_seq().len() == len);
    }
    s
}

/// Renders the full report of the ordered windows.
pub fn render_report(ws: &Vec<crate::window::ContextWindow>) -> (r: String)
    ensures
        r@ == report(ws@.map_values(|w: crate::window::ContextWindow| w.entry_seq())),
{
    let n = ws.len();
    let mut s = String::from_str("--------------------------------------------------\n");
    let ghost vs = ws@.map_values(|w: crate::window::ContextWindow| w.entry_seq());
    let mut i: usize = 0;
    proof {
        assert(s@ =~= report_upto(vs, 0));
    }
    while i < n
        invariant
            i <= n,
            n == ws@.len(),
            vs == ws@.map_values(|w: crate::window::ContextWindow| w.entry_seq()),
            s@ == report_upto(vs, i as int),
        decreases n - i,
    {
        let block = render_window(i + 1, &ws[i]);
        s.append(block.as_str());
        s.append("--------------------------------------------------\n");
        proof {
            assert(vs[i as int] == ws@[i as int].entry_seq());
            assert(s@ =~= report_upto(vs, i + 1));
        }
        i += 1;
    }
    s
}

/// Rendering preserves window order: the report of one more window is the
/// report so far, then that window's block under the next ordinal, then the
/// separator.
pub proof fn lemma_report_order(ws: Seq<Seq<(int, Seq<char>)>>, w: Seq<(int, Seq<char>)>)
    ensures
        report(ws.push(w)) == report(ws) + window_block(ws.len() as int + 1, w) + sep(),
{
    lemma_report_upto_agrees(ws.push(w), ws, ws.len() as int);
    assert(ws.push(w)[ws.len() as int] == w);
}

/// The report of the first `k` windows reads no window beyond the first `k`.
proof fn lemma_report_upto_agrees(ws1: Seq<Seq<(int, Seq<char>)>>, ws2: Seq<Seq<(int, Seq<char>)>>, k: int)
    requires
        forall|j: int| 0 <= j < k ==> ws1[j] == ws2[j],
    ensures
        report_upto(ws1, k) == report_upto(ws2, k),
    decreases k,
{
    if k > 0 {
        lemma_report_upto_agrees(ws1, ws2, k - 1);
    }
}

/// Rendering preserves line order within a window: the block's first `k + 1`
/// lines are its first `k` lines followed by the rendered entry at position
/// `k`.
pub proof fn lemma_block_order(ord: int, es: Seq<(int, Seq<char>)>, center: int, k: int)
    requires
        0 <= k < es.len(),
    ensures
        block_upto(ord, es, center, k + 1) == block_upto(ord, es, center, k) + entry_line(
            ord,
            es[k].0,
            es[k].1,
            center,
            k,
        ),
{
}

} // verus!
