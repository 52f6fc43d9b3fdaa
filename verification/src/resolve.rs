//! Resolving the chosen time source to one normalized UTC instant, in
//! seconds since the Unix epoch.  Parsing is done here; the one filesystem
//! fact a reference file contributes - whether it exists and what its
//! recorded modification time is - is supplied by the caller as a plain
//! probe value, so that resolution itself is pure.

use vstd::prelude::*;
use crate::calendar::epoch_secs;
use crate::datestr::parse_date;
use crate::datestr::parse_date_string;
use crate::errors::ResolveError;
use crate::options::TimeSource;
use crate::stamp::parse_compact;
use crate::stamp::parse_timestamp_format;

verus! {

/// Outcome of the caller's probe of the reference file: missing, metadata
/// unreadable, or its modification time in seconds since the Unix epoch.
#[derive(Clone, Copy, PartialEq, Eq, Structural, Debug)]
pub enum RefProbe {
    Missing,
    Unreadable,
    ModifiedAt(i64),
}

/// A missing reference file is its own error, distinguished from metadata
/// that cannot be read.
pub open spec fn resolve_reference_spec(p: RefProbe) -> Result<i64, ResolveError> {
    match p {
        RefProbe::Missing => Err(ResolveError::ReferenceNotFound),
        RefProbe::Unreadable => Err(ResolveError::ReferenceIo),
        RefProbe::ModifiedAt(t) => Ok(t),
    }
}

pub fn resolve_reference(p: &RefProbe) -> (r: Result<i64, ResolveError>)
    ensures
        r == resolve_reference_spec(*p),
{
    match p {
        RefProbe::Missing => Err(ResolveError::ReferenceNotFound),
        RefProbe::Unreadable => Err(ResolveError::ReferenceIo),
        RefProbe::ModifiedAt(t) => Ok(*t),
    }
}

pub open spec fn resolve_spec(source: TimeSource, probe: Option<RefProbe>, current_year: int) -> Result<
    Option<i64>,
    ResolveError,
> {
    match source {
        TimeSource::CurrentTime => Ok(None),
        TimeSource::ReferenceFile(_) => match resolve_reference_spec(probe->0) {
            Ok(t) => Ok(Some(t)),
            Err(e) => Err(e),
        },
        TimeSource::DateString(d) => match parse_date(d@) {
            Ok(f) => Ok(Some(epoch_secs(f) as i64)),
            Err(e) => Err(ResolveError::Parse(e)),
        },
        TimeSource::CompactStamp(t) => match parse_compact(t@, current_year) {
            Ok(f) => Ok(Some(epoch_secs(f) as i64)),
            Err(e) => Err(ResolveError::Parse(e)),
        },
    }
}

/// Resolves the time source to an instant, or to nothing when no source
/// was given.  `probe` carries the caller's metadata probe of the
/// reference file and is consulted only for that variant; `current_year`
/// comes from the caller's clock and serves 8-digit stamps alone.
pub fn resolve(source: &TimeSource, probe: Option<RefProbe>, current_year: i32) -> (r: Result<
    Option<i64>,
    ResolveError,
>)
    requires
        source is ReferenceFile ==> probe is Some,
        0 <= current_year <= 9999,
    ensures
        r == resolve_spec(*source, probe, current_year as int),
{
    match source {
        TimeSource::CurrentTime => Ok(None),
        TimeSource::ReferenceFile(_) => match probe {
            Some(p) => match resolve_reference(&p) {
                Ok(t) => Ok(Some(t)),
                Err(e) => Err(e),
            },
            None => {
                proof {
                    assert(false);
                }
                Err(ResolveError::ReferenceNotFound)
            },
        },
        TimeSource::DateString(d) => match parse_date_string(d.as_str()) {
            Ok(t) => Ok(Some(t)),
            Err(e) => Err(ResolveError::Parse(e)),
        },
        TimeSource::CompactStamp(t) => match parse_timestamp_format(t.as_str(), current_year) {
            Ok(v) => Ok(Some(v)),
            Err(e) => Err(ResolveError::Parse(e)),
        },
    }
}

} // verus!
