//! Error taxonomy for query building, tool discovery and output decoding.

use vstd::prelude::*;

verus! {

/// A failure while locating, running, or decoding the output of the
/// discovery tool.
#[derive(Debug)]
pub enum Error {
    /// No candidate location held a runnable executable.
    NotFound,
    /// The executable was present but could not be started.
    SpawnFailed,
    /// The tool ran and exited with a non-zero status code.
    NonZeroExit(i32),
    /// The tool exited successfully but its output violates the expected
    /// schema; the payload names the offending field or construct.
    MalformedOutput(String),
}

/// A failure while parsing a dotted version string.
#[derive(Debug, Clone, Copy, PartialEq, Eq, Structural)]
pub enum ParseError {
    /// A segment is empty, holds a non-digit, or exceeds 65535.
    InvalidSegment,
    /// The string holds more than four dot-separated segments.
    TooManySegments,
}

} // verus!
