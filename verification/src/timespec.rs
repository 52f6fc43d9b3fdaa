//! Deriving which timestamps to write and with what values.  A resolved
//! instant (or the clock's present instant) becomes an access/modification
//! pair according to the one-field-only flags; a field left unset is
//! re-supplied from the entry's current recorded value, never zeroed.

use vstd::prelude::*;

verus! {

/// Which timestamps to write, each in seconds since the Unix epoch.
/// An unset field means: keep the entry's current value.
#[derive(Clone, Copy, Debug)]
pub struct TimeApplication {
    pub access: Option<i64>,
    pub modification: Option<i64>,
}

pub open spec fn application_of(
    resolved: Option<i64>,
    now: i64,
    atime_only: bool,
    mtime_only: bool,
) -> TimeApplication {
    let t = if resolved is Some {
        resolved->0
    } else {
        now
    };
    if atime_only {
        TimeApplication { access: Some(t), modification: None }
    } else if mtime_only {
        TimeApplication { access: None, modification: Some(t) }
    } else {
        TimeApplication { access: Some(t), modification: Some(t) }
    }
}

/// Derives the pair to apply: the resolved instant (or `now` when none was
/// requested) goes to the flagged field, or to both fields by default.
/// The result never has both fields unset.
pub fn derive_application(
    resolved: Option<i64>,
    now: i64,
    atime_only: bool,
    mtime_only: bool,
) -> (t: TimeApplication)
    requires
        !(atime_only && mtime_only),
    ensures
        t == application_of(resolved, now, atime_only, mtime_only),
        t.access is Some || t.modification is Some,
{
    let instant: i64 = match resolved {
        Some(v) => v,
        None => now,
    };
    if atime_only {
        TimeApplication { access: Some(instant), modification: None }
    } else if mtime_only {
        TimeApplication { access: None, modification: Some(instant) }
    } else {
        TimeApplication { access: Some(instant), modification: Some(instant) }
    }
}

/// The values actually written: a set field wins, an unset field falls
/// back to the entry's current recorded value.
pub open spec fn effective_pair(t: TimeApplication, current_access: i64, current_modified: i64) -> (
    i64,
    i64,
) {
    (
        if t.access is Some {
            t.access->0
        } else {
            current_access
        },
        if t.modification is Some {
            t.modification->0
        } else {
            current_modified
        },
    )
}

pub fn effective_times(t: &TimeApplication, current_access: i64, current_modified: i64) -> (r: (
    i64,
    i64,
))
    ensures
        r == effective_pair(*t, current_access, current_modified),
{
    let a: i64 = match t.access {
        Some(v) => v,
        None => current_access,
    };
    let m: i64 = match t.modification {
        Some(v) => v,
        None => current_modified,
    };
    (a, m)
}

/// Where a timestamp write must go.
#[derive(Clone, Copy, PartialEq, Eq, Structural, Debug)]
pub enum TimesRoute {
    /// Write through to the entry the path resolves to.
    Target,
    /// Write onto the symbolic link itself, without dereferencing.
    LinkItself,
}

/// No-dereference mode meeting a symbolic link writes onto the link
/// itself; every other combination writes through to the target.
pub fn times_route(no_dereference: bool, is_symlink: bool) -> (r: TimesRoute)
    ensures
        r == TimesRoute::LinkItself <==> (no_dereference && is_symlink),
{
    if no_dereference && is_symlink {
        TimesRoute::LinkItself
    } else {
        TimesRoute::Target
    }
}

/// Law: setting only the modification time leaves the access time exactly
/// equal to its pre-operation value, whatever instant was resolved.
pub proof fn lemma_mtime_only_preserves_access(
    resolved: Option<i64>,
    now: i64,
    current_access: i64,
    current_modified: i64,
)
    ensures
        effective_pair(
            application_of(resolved, now, false, true),
            current_access,
            current_modified,
        ).0 == current_access,
{
}

/// Law: setting only the access time likewise leaves the modification
/// time exactly equal to its pre-operation value.
pub proof fn lemma_atime_only_preserves_modification(
    resolved: Option<i64>,
    now: i64,
    current_access: i64,
    current_modified: i64,
)
    ensures
        effective_pair(
            application_of(resolved, now, true, false),
            current_access,
            current_modified,
        ).1 == current_modified,
{
}

} // verus!
