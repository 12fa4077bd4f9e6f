//! Making and removing entries, and the keys that tell them apart.
use crate::io_error::{IoErrorKind, IoFailure};
use crate::path_coordinator::FileIdentity;
use crate::rooted_fs::names;
use crate::steps::Step;
use crate::text::copy_bytes;
use vstd::prelude::*;
use vstd::string::*;
use vstd::utf8::*;

verus! {

/// What making a directory looks at or does next.
#[derive(Clone, Copy, Debug, Eq, PartialEq, Structural)]
pub enum MakeProbe {
    /// Open the directory above, and make what is missing on the way.
    OpenParent,
    Make,
    SyncParent,
    /// Take back what was made on the way.
    Rollback,
}

/// What has been seen of making a directory.
#[derive(Clone, Copy)]
pub struct MakeSeen {
    /// Whether any directory was made on the way.
    pub parent: Option<Result<bool, IoFailure>>,
    pub made: Option<Result<(), IoFailure>>,
    pub synced: Option<Result<(), IoFailure>>,
    pub rolled_back: bool,
}

impl MakeSeen {
    pub fn new() -> (seen: MakeSeen)
        ensures
            seen == (MakeSeen { parent: None, made: None, synced: None, rolled_back: false }),
    {
        MakeSeen { parent: None, made: None, synced: None, rolled_back: false }
    }
}

/// Whether directories above it were made as well.
pub type MakeStep = Step<MakeProbe, Result<bool, IoFailure>>;

/// How making a directory goes on.
pub open spec fn making(seen: MakeSeen) -> MakeStep {
    match seen.parent {
        None => Step::Ask(MakeProbe::OpenParent),
        Some(Err(failure)) => Step::Done(Err(failure)),
        Some(Ok(made_ancestors)) => match seen.made {
            None => Step::Ask(MakeProbe::Make),
            Some(Err(failure)) => if seen.rolled_back {
                Step::Done(Err(failure))
            } else {
                Step::Ask(MakeProbe::Rollback)
            },
            Some(Ok(_)) => match seen.synced {
                None => Step::Ask(MakeProbe::SyncParent),
                Some(Err(failure)) => Step::Done(Err(failure)),
                Some(Ok(_)) => Step::Done(Ok(made_ancestors)),
            },
        },
    }
}

/// Decides how a directory is made.
pub fn create_directory(seen: &MakeSeen) -> (step: MakeStep)
    ensures
        step == making(*seen),
{
    let made_ancestors = match seen.parent {
        None => return Step::Ask(MakeProbe::OpenParent),
        Some(Err(failure)) => return Step::Done(Err(failure)),
        Some(Ok(made_ancestors)) => made_ancestors,
    };
    match seen.made {
        None => return Step::Ask(MakeProbe::Make),
        Some(Err(failure)) => {
            return if seen.rolled_back {
                Step::Done(Err(failure))
            } else {
                Step::Ask(MakeProbe::Rollback)
            };
        },
        Some(Ok(_)) => {},
    }
    match seen.synced {
        None => Step::Ask(MakeProbe::SyncParent),
        Some(Err(failure)) => Step::Done(Err(failure)),
        Some(Ok(_)) => Step::Done(Ok(made_ancestors)),
    }
}

/// A directory that is reported as made has been flushed. Where it could not be
/// made, those above it that were made for it have been taken back.
pub proof fn law_made_directories_are_durable(seen: MakeSeen, made_ancestors: bool)
    ensures
        making(seen) == MakeStep::Done(Ok(made_ancestors)) ==> (seen.made matches Some(Ok(_))) && (
        seen.synced matches Some(Ok(_))),
        (making(seen) matches MakeStep::Done(Err(_))) && (seen.parent matches Some(Ok(_))) && (
        seen.made matches Some(Err(_))) ==> seen.rolled_back,
{
}

/// What removing an entry does next.
#[derive(Clone, Copy, Debug, Eq, PartialEq, Structural)]
pub enum RemoveProbe {
    OpenParent,
    Remove,
}

/// What has been seen of removing an entry.
#[derive(Clone, Copy)]
pub struct RemoveSeen {
    pub parent: Option<Result<(), IoFailure>>,
    pub removed: Option<Result<(), IoFailure>>,
}

/// Whether there was anything to remove.
pub type RemoveStep = Step<RemoveProbe, Result<bool, IoFailure>>;

pub open spec fn gone_or(failure: IoFailure) -> RemoveStep {
    if failure.kind == IoErrorKind::NotFound {
        Step::Done(Ok(false))
    } else {
        Step::Done(Err(failure))
    }
}

/// How removing an entry goes on.
pub open spec fn removing(seen: RemoveSeen) -> RemoveStep {
    match seen.parent {
        None => Step::Ask(RemoveProbe::OpenParent),
        Some(Err(failure)) => gone_or(failure),
        Some(Ok(_)) => match seen.removed {
            None => Step::Ask(RemoveProbe::Remove),
            Some(Err(failure)) => gone_or(failure),
            Some(Ok(_)) => Step::Done(Ok(true)),
        },
    }
}

fn step_if_gone(failure: IoFailure) -> (step: RemoveStep)
    ensures
        step == gone_or(failure),
{
    match failure.kind {
        IoErrorKind::NotFound => Step::Done(Ok(false)),
        _ => Step::Done(Err(failure)),
    }
}

/// Decides how an entry is removed.
pub fn remove_entry(seen: &RemoveSeen) -> (step: RemoveStep)
    ensures
        step == removing(*seen),
{
    match seen.parent {
        None => return Step::Ask(RemoveProbe::OpenParent),
        Some(Err(failure)) => return step_if_gone(failure),
        Some(Ok(_)) => {},
    }
    match seen.removed {
        None => Step::Ask(RemoveProbe::Remove),
        Some(Err(failure)) => step_if_gone(failure),
        Some(Ok(_)) => Step::Done(Ok(true)),
    }
}

/// An entry by the directory that it is in and its name there.
pub struct RootedEntryKey {
    pub parent: FileIdentity,
    pub name: Vec<u8>,
}

/// What is added to a name to mark it.
pub open spec fn marker() -> Seq<u8> {
    seq![0u8] + encode_utf8("dufs-maintenance"@)
}

impl RootedEntryKey {
    /// A key by which the upkeep of an entry is told from the entry.
    pub fn maintenance_marker(&self) -> (key: RootedEntryKey)
        ensures
            key.parent == self.parent,
            key.name@ == self.name@ + marker(),
    {
        let mut name = copy_bytes(self.name.as_slice());
        name.push(0u8);
        let suffix = "dufs-maintenance".as_bytes();
        name.extend_from_slice(suffix);
        assert(name@ =~= self.name@ + marker());
        RootedEntryKey { parent: self.parent, name }
    }
}

/// The marker of an entry is the key of no entry: a name cannot hold a zero. Markers
/// of different entries differ.
pub proof fn law_markers_are_no_entries(name: Seq<u8>, other: Seq<u8>)
    requires
        names::is_entry_name(other),
    ensures
        name + marker() != other,
        name + marker() == other + marker() ==> name == other,
{
    let marked = name + marker();
    assert(marked[name.len() as int] == 0);
    if marked == other {
        assert(other.contains(0));
    }
    if marked == other + marker() {
        assert(name =~= marked.subrange(0, marked.len() - marker().len()));
        assert(other =~= (other + marker()).subrange(0, marked.len() - marker().len()));
    }
}

/// A directory is made in a directory that opened, and tells whether others were made on
/// the way to it.
pub proof fn law_directories_are_made(seen: MakeSeen, made_ancestors: bool)
    requires
        seen.parent == Some(Ok::<bool, IoFailure>(made_ancestors)),
    ensures
        seen.made is None ==> making(seen) == MakeStep::Ask(MakeProbe::Make),
        (seen.made matches Some(Ok(_))) && (seen.synced matches Some(Ok(_))) ==> making(seen)
            == MakeStep::Done(Ok(made_ancestors)),
{
}

/// A directory that could not be made met the failure that is told, and what is taken
/// back was made for one that could not be made.
pub proof fn law_unmade_directories_met_the_failure(seen: MakeSeen)
    ensures
        making(seen) matches MakeStep::Done(Err(failure)) ==> seen.parent == Some(
            Err::<bool, IoFailure>(failure),
        ) || seen.made == Some(Err::<(), IoFailure>(failure)) || seen.synced == Some(
            Err::<(), IoFailure>(failure),
        ),
        making(seen) matches MakeStep::Ask(probe) ==> match probe {
            MakeProbe::OpenParent => seen.parent is None,
            MakeProbe::Make => seen.made is None,
            MakeProbe::SyncParent => seen.synced is None && (seen.made matches Some(Ok(_))),
            MakeProbe::Rollback => !seen.rolled_back && (seen.made matches Some(Err(_))),
        },
{
}

/// Removing tells `true` just where an entry was removed, `false` just where there was
/// none, and else the failure that was met.
pub proof fn law_removals_are_told(seen: RemoveSeen)
    requires
        seen.parent is Some,
        seen.parent matches Some(Ok(_)) ==> seen.removed is Some,
    ensures
        removing(seen) == RemoveStep::Done(Ok(true)) <==> (seen.parent matches Some(Ok(_))) && (
        seen.removed matches Some(Ok(_))),
        removing(seen) == RemoveStep::Done(Ok(false)) <==> (seen.parent matches Some(Err(failure))
            && failure.kind == IoErrorKind::NotFound) || ((seen.parent matches Some(Ok(_))) && (
        seen.removed matches Some(Err(failure)) && failure.kind == IoErrorKind::NotFound)),
        removing(seen) matches RemoveStep::Done(Err(failure)) ==> failure.kind
            != IoErrorKind::NotFound && (seen.parent == Some(Err::<(), IoFailure>(failure)) || ((
        seen.parent matches Some(Ok(_))) && seen.removed == Some(Err::<(), IoFailure>(failure)))),
        removing(seen) is Done,
{
}

/// An entry is removed once its directory is open, and but once.
pub proof fn law_removals_happen_once(seen: RemoveSeen)
    ensures
        removing(seen) == RemoveStep::Ask(RemoveProbe::OpenParent) <==> seen.parent is None,
        removing(seen) == RemoveStep::Ask(RemoveProbe::Remove) <==> (
        seen.parent matches Some(Ok(_))) && seen.removed is None,
{
}

} // verus!
