//! Why an archive could not be unpacked.
#![allow(non_camel_case_types)]
use vstd::prelude::*;

verus! {

#[derive(Debug, Clone, Copy, PartialEq, Eq, Structural)]
pub enum UnzipError {
    OutpathFileName,
    other,
    zip_new_err,
    by_index_err,
    create_dir_all,
    file_create,
    io_copy,
}

impl UnzipError {
    /// The message of the error.
    pub fn message(&self) -> (r: &'static str)
        ensures
            r@ == "Local error"@,
    {
        "Local error"
    }
}

} // verus!
