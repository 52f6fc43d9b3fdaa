//! The per-path decisions of the sequential loop: what a path's lifecycle
//! holds (skip, timestamp update, or creation) and what each creation step
//! does when the path already exists.  The caller performs the filesystem
//! calls the plan names, in the plan's order, and aborts the whole batch
//! on the first failure.

use vstd::prelude::*;
use crate::classify::TargetKind;
use crate::options::Options;

verus! {

/// What to do with one path.
#[derive(Clone, Copy, PartialEq, Eq, Structural, Debug)]
pub enum PathAction {
    /// No-create mode and the path is missing: no filesystem mutation.
    SkipMissing,
    /// No-create mode and the path exists: only its timestamps change.
    UpdateTimestamps,
    /// Create the path as the given kind.
    Create(TargetKind),
}

/// The decided steps for one path, in execution order: optional parent
/// creation, the action, optional timestamp application, optional
/// permission application.
#[derive(Clone, Copy, PartialEq, Eq, Structural, Debug)]
pub struct PathPlan {
    pub action: PathAction,
    pub create_parents: bool,
    pub apply_times: bool,
    pub apply_mode: bool,
}

/// Whether any custom-time work was requested: a time source, or a
/// one-field-only flag.
pub open spec fn wants_custom_times(o: Options) -> bool {
    o.date is Some || o.timestamp is Some || o.reference is Some || o.access_time_only
        || o.modification_time_only
}

pub open spec fn plan_spec(o: Options, exists: bool, kind: Option<TargetKind>) -> PathPlan {
    if o.no_create {
        if exists {
            PathPlan {
                action: PathAction::UpdateTimestamps,
                create_parents: false,
                apply_times: true,
                apply_mode: false,
            }
        } else {
            PathPlan {
                action: PathAction::SkipMissing,
                create_parents: false,
                apply_times: false,
                apply_mode: false,
            }
        }
    } else {
        PathPlan {
            action: PathAction::Create(kind->0),
            create_parents: o.parents,
            apply_times: wants_custom_times(o),
            apply_mode: o.mode is Some,
        }
    }
}

/// Decides the steps for a single path.  `exists` is the caller's
/// existence probe; `kind` is the settled classification, needed only when
/// creation can happen.  In no-create mode a missing path is skipped
/// entirely and an existing one gets a timestamp update (to the resolved
/// instant, or to the present); otherwise the path is created as `kind`,
/// custom times are applied only when some time work was requested, and a
/// permission mode is applied only when one was given.
pub fn plan_path(o: &Options, exists: bool, kind: Option<TargetKind>) -> (p: PathPlan)
    requires
        !o.no_create ==> kind is Some,
    ensures
        p == plan_spec(*o, exists, kind),
        o.no_create && !exists ==> p.action == PathAction::SkipMissing && !p.create_parents
            && !p.apply_times && !p.apply_mode,
        o.no_create && exists ==> p.action == PathAction::UpdateTimestamps && p.apply_times,
        !o.no_create ==> p.action == PathAction::Create(kind->0),
{
    if o.no_create {
        if exists {
            PathPlan {
                action: PathAction::UpdateTimestamps,
                create_parents: false,
                apply_times: true,
                apply_mode: false,
            }
        } else {
            PathPlan {
                action: PathAction::SkipMissing,
                create_parents: false,
                apply_times: false,
                apply_mode: false,
            }
        }
    } else {
        let k: TargetKind = match kind {
            Some(k) => k,
            None => {
                proof {
                    assert(false);
                }
                TargetKind::File
            },
        };
        PathPlan {
            action: PathAction::Create(k),
            create_parents: o.parents,
            apply_times: o.date.is_some() || o.timestamp.is_some() || o.reference.is_some()
                || o.access_time_only || o.modification_time_only,
            apply_mode: o.mode.is_some(),
        }
    }
}

/// Whether a create step makes a new entry or accepts an existing one.
#[derive(Clone, Copy, PartialEq, Eq, Structural, Debug)]
pub enum CreateStep {
    CreateNew,
    AlreadyPresent,
}

/// An existing path where a directory was to be created, but which is not
/// a directory.
#[derive(Clone, Copy, PartialEq, Eq, Structural, Debug)]
pub struct ExistsNotDirectory {}

/// The file-creation decision: an existing path is accepted as it is and
/// only a missing one is newly created.
pub fn file_create_step(exists: bool) -> (r: CreateStep)
    ensures
        r == CreateStep::CreateNew <==> !exists,
{
    if exists {
        CreateStep::AlreadyPresent
    } else {
        CreateStep::CreateNew
    }
}

/// The directory-creation decision: an existing directory is accepted, an
/// existing non-directory is an error, a missing path is newly created.
pub fn directory_create_step(exists: bool, is_dir: bool) -> (r: Result<
    CreateStep,
    ExistsNotDirectory,
>)
    ensures
        !exists ==> r == Ok::<CreateStep, ExistsNotDirectory>(CreateStep::CreateNew),
        exists && is_dir ==> r == Ok::<CreateStep, ExistsNotDirectory>(CreateStep::AlreadyPresent),
        exists && !is_dir ==> r is Err,
{
    if !exists {
        Ok(CreateStep::CreateNew)
    } else if is_dir {
        Ok(CreateStep::AlreadyPresent)
    } else {
        Err(ExistsNotDirectory {})
    }
}

} // verus!
