//! Open merge requests of every group visible to an account, flattened into
//! one ordered list of records: the requests that build it, the joining of
//! each merge request with its group's and its project's names, and the text
//! that lists the records or shows one of them.

use vstd::prelude::*;

pub mod model;
pub mod text;
pub mod fetch;
pub mod present;

verus! {

/// Name of the cache file, placed directly in the user's home directory.
pub const CACHE_FILE_NAME: &'static str = ".mr.cache";

} // verus!
