//! Error values of the library.  They carry the facts a caller needs to
//! compose a message - the offending field values, the digit count that was
//! seen - as plain data; rendering is left to the caller, which also holds
//! the offending input string itself.

use vstd::prelude::*;

verus! {

/// A malformed date string, compact stamp or permission mode.
#[derive(Clone, Copy, PartialEq, Eq, Structural, Debug)]
pub enum ParseError {
    /// A compact stamp whose digit-only prefix is not 8, 10 or 12 digits long.
    BadStampLength { len: usize },
    /// A digit was expected and something else stood there.
    NotNumeric,
    /// The extracted fields name no real calendar date or time of day.
    InvalidDateTime { year: i32, month: u32, day: u32, hour: u32, minute: u32, second: u32 },
    /// A free-form date string that matches none of the candidate formats.
    UnrecognizedDate,
    /// A permission mode that is not a nonempty octal numeral, or is too
    /// large for a mode word.
    BadMode,
}

/// Why resolving a time source failed.
#[derive(Clone, Copy, PartialEq, Eq, Structural, Debug)]
pub enum ResolveError {
    Parse(ParseError),
    /// The reference file does not exist.
    ReferenceNotFound,
    /// The reference file exists but its metadata could not be read.
    ReferenceIo,
}

/// A conflicting flag combination, detected before any path is touched.
#[derive(Clone, Copy, PartialEq, Eq, Structural, Debug)]
pub enum ValidationError {
    /// Directory mode and file mode were both requested.
    ConflictingKindFlags,
    /// More than one of date string, compact stamp and reference file.
    MultipleTimeSources,
    /// Access-time-only and modification-time-only were both requested.
    ConflictingTimeFlags,
}

} // verus!
