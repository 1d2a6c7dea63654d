//! The error taxonomy of the engine. Every failure a caller can see is one
//! of these variants; none is retried internally.
use vstd::prelude::*;

verus! {

/// A typed failure of a generate, clear or fetch operation.
///
/// - `InvalidArgument`: an unknown entity kind or backend kind, or a missing
///   required field; reported before any backend work is attempted.
/// - `BackendUnavailable`: a connection or pool-acquisition failure.
/// - `WriteFailure`: a write was rejected for a reason other than a
///   tolerated duplicate key; the surrounding transaction is aborted.
/// - `ParseFailure`: a stored row or document could not be read back.
/// - `ResourceExhausted`: a bounded retry loop ran out of attempts while
///   searching for a fresh unique value.
#[derive(Clone, Copy, Debug, PartialEq, Eq, Structural)]
pub enum Error {
    InvalidArgument,
    BackendUnavailable,
    WriteFailure,
    ParseFailure,
    ResourceExhausted,
}

impl Error {
    /// A short stable name for the variant, for messages assembled outside
    /// the library.
    pub fn describe(&self) -> (r: &'static str)
        ensures
            r@ == match self {
                Error::InvalidArgument => "invalid argument"@,
                Error::BackendUnavailable => "backend unavailable"@,
                Error::WriteFailure => "write failure"@,
                Error::ParseFailure => "parse failure"@,
                Error::ResourceExhausted => "resource exhausted"@,
            },
    {
        match self {
            Error::InvalidArgument => "invalid argument",
            Error::BackendUnavailable => "backend unavailable",
            Error::WriteFailure => "write failure",
            Error::ParseFailure => "parse failure",
            Error::ResourceExhausted => "resource exhausted",
        }
    }
}

} // verus!
