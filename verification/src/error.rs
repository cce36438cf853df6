//! Error kinds shared by every decoding and query operation.

use vstd::prelude::*;

verus! {

/// Why an operation on the bootstrap failed.
#[derive(Clone, Copy, Debug, PartialEq, Eq, Structural)]
pub enum RafsError {
    /// The on-disk data is malformed, truncated or inconsistent.
    CorruptFormat,
    /// An index or offset lies outside the bounds of its table.
    OutOfRange,
    /// A name or digest lookup found nothing.
    NotFound,
    /// A directory operation was asked of something that is no directory.
    NotADirectory,
    /// A file operation was asked of something that is no regular file.
    NotRegularFile,
    /// The underlying byte stream could not be read.
    IOFailure,
}

impl RafsError {
    /// A short human-readable description of the error kind.
    pub fn describe(&self) -> (s: &'static str)
        ensures
            s@ == Self::description(*self),
    {
        match self {
            RafsError::CorruptFormat => "corrupt bootstrap format",
            RafsError::OutOfRange => "index or offset out of range",
            RafsError::NotFound => "not found",
            RafsError::NotADirectory => "not a directory",
            RafsError::NotRegularFile => "not a regular file",
            RafsError::IOFailure => "I/O failure",
        }
    }

    /// The text that `describe` returns for each kind.
    pub open spec fn description(e: RafsError) -> Seq<char> {
        match e {
            RafsError::CorruptFormat => "corrupt bootstrap format"@,
            RafsError::OutOfRange => "index or offset out of range"@,
            RafsError::NotFound => "not found"@,
            RafsError::NotADirectory => "not a directory"@,
            RafsError::NotRegularFile => "not a regular file"@,
            RafsError::IOFailure => "I/O failure"@,
        }
    }
}

} // verus!
