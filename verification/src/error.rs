//! The failure taxonomy: a located syntax error, a wrapped file-open
//! failure, and a fatal driver-level failure. Each kind maps to its own
//! process exit code at the boundary.

use vstd::prelude::*;

use crate::parser::ParseError;

verus! {

/// What went wrong: a syntax error with its location and expected
/// categories, a file that could not be opened (the underlying message,
/// wrapped once at the boundary where the file is opened), or a fatal
/// driver-level invariant violation.
#[derive(Debug)]
pub enum Error {
    OnParse(ParseError),
    OnFileOpen(String),
    OnFatal(String),
}

} // verus!
