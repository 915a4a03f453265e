//! How the launcher words what it shows: errors on one line.

use vstd::prelude::*;
use crate::utils::pattern::{regex_replace_all, regex_replaced};

verus! {

/// The request address an HTTP error names, which the launcher leaves out.
pub const URL_IN_ERROR: &'static str = " for url \\([^)]*\\)";

/// An error and its causes, written on one line, without the request address; `None` when the
/// pattern did not compile.
pub fn error_line(error: &str) -> (r: Option<String>)
    ensures
        match (r, regex_replaced(URL_IN_ERROR@, error@, ""@)) {
            (Some(x), Some(y)) => x@ == y,
            (None, None) => true,
            _ => false,
        },
{
    regex_replace_all(URL_IN_ERROR, error, "")
}

} // verus!
