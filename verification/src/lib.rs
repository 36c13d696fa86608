//! A small line-oriented search library: it finds matching lines in a text,
//! assembles a clamped context window around each match, and renders the
//! windows as an annotated report.

pub mod input;
pub mod lines;
pub mod matcher;
pub mod regex_link;
pub mod render;
pub mod text;
pub mod window;

use vstd::prelude::*;
use crate::lines::line_seq;
use crate::lines::split_lines;
use crate::lines::views;
use crate::matcher::as_ints;
use crate::matcher::find_matches;
use crate::matcher::lemma_match_indices;
use crate::matcher::match_indices;
use crate::matcher::pattern_ok;
use crate::matcher::MatchMode;
use crate::render::render_report;
use crate::render::report;
use crate::window::build_windows;
use crate::window::windows_pure;

verus! {

/// The errors the library reports. Pattern compilation failure is fatal and
/// detected before any scanning; an input that cannot be resolved at all is
/// likewise fatal. An unreadable input source is not an error: the search
/// falls back to treating the source's identifier as the text itself.
#[derive(Clone, Copy, Debug, PartialEq, Eq, Structural)]
pub enum GrepError {
    InvalidPattern,
    InputUnavailable,
}

/// The effective context radius: a negative request means zero.
pub open spec fn spec_radius(radius: int) -> int {
    if radius < 0 {
        0
    } else {
        radius
    }
}

/// Clamps a caller-supplied context radius: a negative radius has no meaning
/// and is treated as zero.
pub fn clamp_radius(radius: i32) -> (r: usize)
    ensures
        r == spec_radius(radius as int),
{
    if radius < 0 {
        0
    } else {
        radius as usize
    }
}

/// The whole pipeline as one mathematical function: split the text into its
/// Line Sequence, take the ascending match indices, build each clamped
/// window, and render the report.
pub open spec fn full_report(text: Seq<char>, mode: MatchMode, pat: Seq<char>, radius: int) -> Seq<
    char,
> {
    let lines = line_seq(text);
    let ms = match_indices(lines, mode, pat);
    report(windows_pure(lines, ms, spec_radius(radius)))
}

/// Runs the full search pipeline on an already-materialized input text.
/// In pattern mode an invalid pattern is rejected before any scanning; on
/// every other input the search succeeds and returns exactly the rendered
/// report of the clamped context windows of all matching lines.
pub fn run_search(input: &str, pattern: &String, mode: MatchMode, radius: i32) -> (r: Result<
    String,
    GrepError,
>)
    ensures
        r is Ok <==> pattern_ok(mode, pattern@),
        r is Err ==> r->Err_0 is InvalidPattern,
        r is Ok ==> r->Ok_0@ == full_report(input@, mode, pattern@, radius as int),
{
    let lines = split_lines(input);
    let ms = match find_matches(&lines, pattern, mode) {
        Ok(ms) => ms,
        Err(e) => {
            return Err(e);
        },
    };
    let rad = clamp_radius(radius);
    proof {
        lemma_match_indices(views(lines@), mode, pattern@);
        assert forall|k: int| 0 <= k < ms@.len() implies ms@[k] < lines@.len() by {
            assert(as_ints(ms@)[k] == ms@[k] as int);
        }
    }
    let ws = build_windows(&lines, &ms, rad);
    let out = render_report(&ws);
    Ok(out)
}

/// Idempotence: the rendered report is a function of the input text, the
/// pattern, the mode and the radius alone, so re-running the pipeline on
/// identical inputs yields a byte-identical report.
pub proof fn lemma_search_deterministic(
    r1: Seq<char>,
    r2: Seq<char>,
    text: Seq<char>,
    mode: MatchMode,
    pat: Seq<char>,
    radius: int,
)
    requires
        r1 == full_report(text, mode, pat, radius),
        r2 == full_report(text, mode, pat, radius),
    ensures
        r1 == r2,
{
}

} // verus!
