//! The engine's failure vocabulary. Every failure is handed back to the
//! caller with the operation's prior state untouched; none is recovered from
//! inside the engine.
use vstd::prelude::*;

verus! {

/// A failed read or metadata lookup, carrying the path it concerned.
#[derive(Clone, Debug)]
pub struct IoError {
    pub path: String,
    pub cause: String,
}

/// Why a comparison could not be made.
#[derive(Clone, Debug)]
pub enum ComparisonError {
    /// One of the two paths is a directory.
    IsDirectory,
    /// One of the two files could not be read.
    Io(IoError),
}

/// Why a navigation could not be made.
#[derive(Clone, Debug)]
pub enum NavigationError {
    /// The target directory could not be listed.
    Io(IoError),
    /// The target does not exist or could not be resolved to a canonical path.
    InvalidPath,
}

} // verus!
