//! Where the configuration file is.
use vstd::prelude::*;

verus! {

/// Reads and writes the configuration file `filename`.
pub struct REvilConfigProvider {
    pub filename: String,
}

impl REvilConfigProvider {
    /// The provider of the file at `path`.
    pub fn new(path: &str) -> (r: REvilConfigProvider)
        ensures
            r.filename@ == path@,
    {
        REvilConfigProvider { filename: crate::text::owned(path) }
    }
}

} // verus!
