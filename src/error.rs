//! The errors a run can end with.
use vstd::prelude::*;

verus! {

/// A failure that ends a run. Each carries the path concerned and the
/// message of the underlying failure.
#[derive(Debug)]
pub enum Error {
    /// Reading a directory or an entry's metadata failed.
    FileSystem { path: String, message: String },
    /// The directory walk failed on a path.
    Walkdir { path: String, message: String },
}

} // verus!
