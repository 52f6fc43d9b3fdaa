//! The flag set of one invocation, its validation, and the choice of the
//! single active time source.  Validation runs before any path is touched;
//! every conflicting combination is rejected here and nowhere else.

use vstd::prelude::*;
use crate::errors::ValidationError;

verus! {

/// The flags of one invocation, as plain values.  The positional paths are
/// carried separately by the caller, one at a time.
#[derive(Clone, Debug)]
pub struct Options {
    pub directory: bool,
    pub file: bool,
    pub parents: bool,
    pub mode: Option<String>,
    pub interactive: bool,
    pub verbose: bool,
    pub no_create: bool,
    pub date: Option<String>,
    pub timestamp: Option<String>,
    pub reference: Option<String>,
    pub access_time_only: bool,
    pub modification_time_only: bool,
    pub no_dereference: bool,
}

/// How many of the three mutually exclusive time sources are supplied.
pub open spec fn time_source_count(o: Options) -> int {
    (if o.date is Some {
        1int
    } else {
        0int
    }) + (if o.timestamp is Some {
        1int
    } else {
        0int
    }) + (if o.reference is Some {
        1int
    } else {
        0int
    })
}

pub open spec fn validate_spec(o: Options) -> Result<(), ValidationError> {
    if o.directory && o.file {
        Err(ValidationError::ConflictingKindFlags)
    } else if time_source_count(o) > 1 {
        Err(ValidationError::MultipleTimeSources)
    } else if o.access_time_only && o.modification_time_only {
        Err(ValidationError::ConflictingTimeFlags)
    } else {
        Ok(())
    }
}

/// Checks the flag combinations.  Succeeds exactly when no explicit-kind
/// conflict, no second time source and no access/modification conflict is
/// present; several time sources together never validate.
pub fn validate_options(o: &Options) -> (r: Result<(), ValidationError>)
    ensures
        r == validate_spec(*o),
        r is Ok <==> (!(o.directory && o.file) && time_source_count(*o) <= 1 && !(
        o.access_time_only && o.modification_time_only)),
        time_source_count(*o) > 1 ==> r is Err,
{
    if o.directory && o.file {
        return Err(ValidationError::ConflictingKindFlags);
    }
    let mut count: u32 = 0;
    if o.date.is_some() {
        count = count + 1;
    }
    if o.timestamp.is_some() {
        count = count + 1;
    }
    if o.reference.is_some() {
        count = count + 1;
    }
    if count > 1 {
        return Err(ValidationError::MultipleTimeSources);
    }
    if o.access_time_only && o.modification_time_only {
        return Err(ValidationError::ConflictingTimeFlags);
    }
    Ok(())
}

/// The single source a custom time is taken from.  At most one variant
/// other than `CurrentTime` is ever built from validated options.
#[derive(Clone, Debug)]
pub enum TimeSource {
    /// No source was supplied; the clock's present instant stands in.
    CurrentTime,
    /// Copy the modification time of this filesystem entry.
    ReferenceFile(String),
    /// Parse this free-form date string.
    DateString(String),
    /// Parse this compact `[[CC]YY]MMDDhhmm[.ss]` stamp.
    CompactStamp(String),
}

/// Which source wins when several are present: reference file, then date
/// string, then compact stamp.  After validation at most one is present,
/// so the priority is never exercised on valid input.
pub open spec fn source_of(o: Options) -> TimeSource {
    if o.reference is Some {
        TimeSource::ReferenceFile(o.reference->0)
    } else if o.date is Some {
        TimeSource::DateString(o.date->0)
    } else if o.timestamp is Some {
        TimeSource::CompactStamp(o.timestamp->0)
    } else {
        TimeSource::CurrentTime
    }
}

pub fn select_time_source(o: &Options) -> (s: TimeSource)
    ensures
        s == source_of(*o),
{
    match &o.reference {
        Some(p) => {
            return TimeSource::ReferenceFile(p.clone());
        },
        None => {},
    }
    match &o.date {
        Some(p) => {
            return TimeSource::DateString(p.clone());
        },
        None => {},
    }
    match &o.timestamp {
        Some(p) => {
            return TimeSource::CompactStamp(p.clone());
        },
        None => {},
    }
    TimeSource::CurrentTime
}

} // verus!
