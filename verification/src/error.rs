//! The failures that the library reports.

use vstd::prelude::*;

verus! {

/// Why an operation did not produce its result.
///
/// A verification that finds a mismatch is not a failure: it is reported as
/// `Ok(false)`.
#[derive(Clone, Copy, Debug, PartialEq, Eq, Structural)]
pub enum Error {
    /// A stream or a path could not be read or written.
    IoError,
    /// The system's random source gave no bytes.
    RandomnessUnavailable,
    /// The iteration count of a key derivation was zero.
    InvalidIterationCount,
    /// A stored record lacks its salt or its iteration count.
    MissingParameters,
    /// A candidate tag does not have the length of a tag.
    MalformedTag,
    /// The archive codec failed to pack or to unpack.
    CodecError,
}

impl Error {
    /// A short name for the failure.
    pub fn name(&self) -> (s: &'static str)
        ensures
            s@ == error_name(*self),
    {
        match self {
            Error::IoError => "i/o error",
            Error::RandomnessUnavailable => "randomness unavailable",
            Error::InvalidIterationCount => "invalid iteration count",
            Error::MissingParameters => "missing parameters",
            Error::MalformedTag => "malformed tag",
            Error::CodecError => "codec error",
        }
    }
}

/// The text that names each failure.
pub open spec fn error_name(e: Error) -> Seq<char> {
    match e {
        Error::IoError => "i/o error"@,
        Error::RandomnessUnavailable => "randomness unavailable"@,
        Error::InvalidIterationCount => "invalid iteration count"@,
        Error::MissingParameters => "missing parameters"@,
        Error::MalformedTag => "malformed tag"@,
        Error::CodecError => "codec error"@,
    }
}

} // verus!
