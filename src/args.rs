//! The options of one run.
use vstd::prelude::*;

verus! {

/// The number of search results parsed when none is given.
pub const DEFAULT_SEARCH_COUNT: usize = 10;

/// What the command line asks for: the query, how many search results to
/// use, and optionally a user to register or to log in as.
pub struct Args {
    pub query: String,
    pub search: usize,
    pub register: Option<String>,
    pub login: Option<String>,
}

} // verus!
