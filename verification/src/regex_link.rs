//! The pattern-mode predicate. Pattern compilation and matching are delegated
//! to the `regex` crate; both are deterministic functions of the pattern and
//! the searched line, so their outcomes are named here and the rest of the
//! library reasons over those names.

use vstd::prelude::*;

verus! {

/// Whether `regex::Regex::new` accepts `pat` as a syntactically valid
/// pattern. Compilation succeeds or fails on the pattern string alone.
pub uninterp spec fn regex_valid(pat: Seq<char>) -> bool;

/// Whether the pattern `pat` finds at least one occurrence anywhere in
/// `line`, as `regex::Regex::is_match` decides it.
pub uninterp spec fn regex_matches(pat: Seq<char>, line: Seq<char>) -> bool;

/// Relies on regex::Regex::new: it returns `Ok` exactly when the pattern
/// string is a valid pattern, and its outcome depends on the pattern alone.
#[verifier::external_body]
pub(crate) fn regex_compiles(pat: &str) -> (r: bool)
    ensures
        r == regex_valid(pat@),
{
    regex::Regex::new(pat).is_ok()
}

/// Relies on regex::Regex::new and regex::Regex::is_match: `is_match` returns
/// true if and only if the compiled pattern matches somewhere in the line,
/// and its outcome depends on the pattern and the line alone.
#[verifier::external_body]
pub(crate) fn regex_line_match(pat: &str, line: &str) -> (r: bool)
    requires
        regex_valid(pat@),
    ensures
        r == regex_matches(pat@, line@),
{
    match regex::Regex::new(pat) {
        Ok(re) => re.is_match(line),
        Err(_) => false,
    }
}

} // verus!
