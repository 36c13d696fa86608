//! Input resolution: choosing the text to search from the already-read
//! sources. Piped input wins; otherwise the argument names a file whose
//! content is used when it could be read. An unreadable file degrades
//! gracefully: the argument string itself becomes the searched text, so the
//! tool stays usable on ad-hoc strings. With no source at all, resolution
//! fails.

use vstd::prelude::*;
use crate::GrepError;

verus! {

/// Picks the text to search. `piped` is the piped input when there was one;
/// `arg` is the command-line input argument; `file_content` is the content
/// of the file named by `arg` when it could be read (it is only consulted
/// when nothing was piped and an argument was given).
pub fn resolve_input(piped: Option<String>, arg: Option<String>, file_content: Option<String>)
    -> (r: Result<String, GrepError>)
    ensures
        piped is Some ==> r is Ok && r->Ok_0 == piped->0,
        piped is None && arg is None ==> r == Err::<String, GrepError>(GrepError::InputUnavailable),
        piped is None && arg is Some && file_content is Some ==> r is Ok && r->Ok_0
            == file_content->0,
        piped is None && arg is Some && file_content is None ==> r is Ok && r->Ok_0 == arg->0,
{
    match piped {
        Some(t) => Ok(t),
        None => match arg {
            None => Err(GrepError::InputUnavailable),
            Some(a) => match file_content {
                Some(c) => Ok(c),
                None => Ok(a),
            },
        },
    }
}

} // verus!
