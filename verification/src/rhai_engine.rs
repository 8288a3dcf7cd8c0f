//! Which groups of script functions each kind of script may call.
use vstd::prelude::*;

verus! {

/// What a script engine is built for.
#[derive(Debug, Clone, Copy, PartialEq, Eq)]
pub enum RhaiEngineProfile {
    /// Reconcile scripts: the full set, processes and network included.
    Reconcile,
    /// Completion scripts: a read-only subset.
    Completion,
}

/// A group of functions offered to scripts.
#[derive(Debug, Clone, Copy, PartialEq, Eq)]
pub enum FacadeGroup {
    Platform,
    PathList,
    FsReadOnly,
    FsFull,
    Process,
    Http,
    Soap,
}

pub open spec fn profile_groups(profile: RhaiEngineProfile) -> Seq<FacadeGroup> {
    match profile {
        RhaiEngineProfile::Completion => seq![
            FacadeGroup::Platform,
            FacadeGroup::PathList,
            FacadeGroup::FsReadOnly,
        ],
        RhaiEngineProfile::Reconcile => seq![
            FacadeGroup::Platform,
            FacadeGroup::PathList,
            FacadeGroup::FsFull,
            FacadeGroup::Process,
            FacadeGroup::Http,
            FacadeGroup::Soap,
        ],
    }
}

/// The groups an engine of this profile registers, in order.
pub fn facade_groups(profile: RhaiEngineProfile) -> (r: Vec<FacadeGroup>)
    ensures
        r@ == profile_groups(profile),
{
    let mut r: Vec<FacadeGroup> = Vec::new();
    r.push(FacadeGroup::Platform);
    r.push(FacadeGroup::PathList);
    match profile {
        RhaiEngineProfile::Completion => {
            r.push(FacadeGroup::FsReadOnly);
        },
        RhaiEngineProfile::Reconcile => {
            r.push(FacadeGroup::FsFull);
            r.push(FacadeGroup::Process);
            r.push(FacadeGroup::Http);
            r.push(FacadeGroup::Soap);
        },
    }
    assert(r@ =~= profile_groups(profile));
    r
}

/// Completion scripts never reach processes, the network or writes.
pub proof fn lemma_completion_is_read_only()
    ensures
        !profile_groups(RhaiEngineProfile::Completion).contains(FacadeGroup::Process),
        !profile_groups(RhaiEngineProfile::Completion).contains(FacadeGroup::Http),
        !profile_groups(RhaiEngineProfile::Completion).contains(FacadeGroup::Soap),
        !profile_groups(RhaiEngineProfile::Completion).contains(FacadeGroup::FsFull),
{
    let g = profile_groups(RhaiEngineProfile::Completion);
    assert(forall|i: int| 0 <= i < g.len() ==> g[i] != FacadeGroup::Process && g[i] != FacadeGroup::Http
        && g[i] != FacadeGroup::Soap && g[i] != FacadeGroup::FsFull);
}

} // verus!
