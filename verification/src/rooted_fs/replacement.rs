//! Inspecting what a name leads to before it is replaced.
use crate::io_error::{IoErrorKind, IoFailure};
use crate::rooted_fs::identity::{ExistingReplacementTarget, FileType, ReplacementTargetIdentity};
use crate::steps::Step;
use vstd::prelude::*;

verus! {

/// What finding out the identity behind a name looks at next.
#[derive(Clone, Copy, Debug, Eq, PartialEq, Structural)]
pub enum IdentityProbe {
    OpenParent,
    /// The entry itself, without following it.
    Inspect,
}

/// What has been seen of the identity behind a name.
#[derive(Clone, Copy)]
pub struct IdentitySeen {
    pub parent: Option<Result<(), IoFailure>>,
    pub entry: Option<Result<ExistingReplacementTarget, IoFailure>>,
}

impl IdentitySeen {
    pub fn new() -> (seen: IdentitySeen)
        ensures
            seen == (IdentitySeen { parent: None, entry: None }),
    {
        IdentitySeen { parent: None, entry: None }
    }
}

pub type IdentityStep = Step<IdentityProbe, Result<ReplacementTargetIdentity, IoFailure>>;

/// A name in a directory that is not there leads nowhere.
pub open spec fn identity_behind(seen: IdentitySeen) -> IdentityStep {
    match seen.parent {
        None => Step::Ask(IdentityProbe::OpenParent),
        Some(Err(failure)) => if failure.kind == IoErrorKind::NotFound {
            Step::Done(Ok(ReplacementTargetIdentity::Missing))
        } else {
            Step::Done(Err(failure))
        },
        Some(Ok(_)) => match seen.entry {
            None => Step::Ask(IdentityProbe::Inspect),
            Some(Err(failure)) => if failure.kind == IoErrorKind::NotFound {
                Step::Done(Ok(ReplacementTargetIdentity::Missing))
            } else {
                Step::Done(Err(failure))
            },
            Some(Ok(entry)) => Step::Done(Ok(ReplacementTargetIdentity::Existing(entry))),
        },
    }
}

fn missing_or(failure: IoFailure) -> (step: IdentityStep)
    ensures
        step == (if failure.kind == IoErrorKind::NotFound {
            IdentityStep::Done(Ok(ReplacementTargetIdentity::Missing))
        } else {
            IdentityStep::Done(Err(failure))
        }),
{
    match failure.kind {
        IoErrorKind::NotFound => Step::Done(Ok(ReplacementTargetIdentity::Missing)),
        _ => Step::Done(Err(failure)),
    }
}

/// Decides what a name leads to.
pub fn replacement_identity(seen: &IdentitySeen) -> (step: IdentityStep)
    ensures
        step == identity_behind(*seen),
{
    match seen.parent {
        None => return Step::Ask(IdentityProbe::OpenParent),
        Some(Err(failure)) => return missing_or(failure),
        Some(Ok(_)) => {},
    }
    match seen.entry {
        None => Step::Ask(IdentityProbe::Inspect),
        Some(Err(failure)) => missing_or(failure),
        Some(Ok(entry)) => Step::Done(Ok(ReplacementTargetIdentity::Existing(entry))),
    }
}

/// What preserving the metadata of a file looks at next.
#[derive(Clone, Copy, Debug, Eq, PartialEq, Structural)]
pub enum PreserveProbe {
    /// What the name leads to, without opening it.
    Inspect,
    /// Open the file for reading, without waiting.
    Open,
    /// The opened file.
    StatOpened,
    /// The attributes of the opened file, and whether one of them is privileged.
    ReadAttributes,
    /// The opened file once more.
    StatAgain,
}

/// What has been seen of a file whose metadata is to be preserved.
#[derive(Clone, Copy)]
pub struct PreserveSeen {
    pub identity: Option<Result<ReplacementTargetIdentity, IoFailure>>,
    pub opened: Option<Result<(), IoFailure>>,
    pub stat: Option<Result<ExistingReplacementTarget, IoFailure>>,
    pub has_privileged: Option<Result<bool, IoFailure>>,
    pub stat_again: Option<Result<ExistingReplacementTarget, IoFailure>>,
}

impl PreserveSeen {
    pub fn new() -> (seen: PreserveSeen)
        ensures
            seen == (PreserveSeen {
                identity: None,
                opened: None,
                stat: None,
                has_privileged: None,
                stat_again: None,
            }),
    {
        PreserveSeen {
            identity: None,
            opened: None,
            stat: None,
            has_privileged: None,
            stat_again: None,
        }
    }
}

/// What there is to preserve.
#[derive(Clone, Copy, Debug, Eq, PartialEq, Structural)]
pub enum ReplacementTarget {
    /// There is nothing to be replaced.
    Missing,
    /// A symbolic link, which has no metadata of its own to keep.
    Link(ExistingReplacementTarget),
    /// A file whose owner, mode and attributes are kept.
    File(ExistingReplacementTarget),
}

pub type PreserveStep = Step<PreserveProbe, Result<ReplacementTarget, IoFailure>>;

pub open spec fn changed() -> IoFailure {
    IoFailure { kind: IoErrorKind::InvalidData, number: None }
}

pub open spec fn unsupported() -> IoFailure {
    IoFailure { kind: IoErrorKind::Unsupported, number: None }
}

/// Goes on with a regular file: it is opened, and must be the one that was
/// inspected before and after its attributes are read.
pub open spec fn preserving_file(target: ExistingReplacementTarget, seen: PreserveSeen) -> PreserveStep {
    match seen.opened {
        None => Step::Ask(PreserveProbe::Open),
        Some(Err(_)) => Step::Done(Err(changed())),
        Some(Ok(_)) => match seen.stat {
            None => Step::Ask(PreserveProbe::StatOpened),
            Some(Err(failure)) => Step::Done(Err(failure)),
            Some(Ok(stat)) => if stat != target {
                Step::Done(Err(changed()))
            } else if target.links != 1 {
                Step::Done(Err(unsupported()))
            } else {
                match seen.has_privileged {
                    None => Step::Ask(PreserveProbe::ReadAttributes),
                    Some(Err(failure)) => Step::Done(Err(failure)),
                    Some(Ok(true)) => Step::Done(Err(unsupported())),
                    Some(Ok(false)) => match seen.stat_again {
                        None => Step::Ask(PreserveProbe::StatAgain),
                        Some(Err(failure)) => Step::Done(Err(failure)),
                        Some(Ok(again)) => if again != target {
                            Step::Done(Err(changed()))
                        } else {
                            Step::Done(Ok(ReplacementTarget::File(target)))
                        },
                    },
                }
            },
        },
    }
}

/// How preserving metadata goes on.
pub open spec fn preserving(seen: PreserveSeen) -> PreserveStep {
    match seen.identity {
        None => Step::Ask(PreserveProbe::Inspect),
        Some(Err(failure)) => Step::Done(Err(failure)),
        Some(Ok(ReplacementTargetIdentity::Missing)) => Step::Done(Ok(ReplacementTarget::Missing)),
        Some(Ok(ReplacementTargetIdentity::Existing(target))) => if target.file_type
            == FileType::Symlink {
            Step::Done(Ok(ReplacementTarget::Link(target)))
        } else if target.file_type != FileType::RegularFile || target.mode & 0o6000 != 0 {
            Step::Done(Err(unsupported()))
        } else {
            preserving_file(target, seen)
        },
    }
}

/// Decides how the metadata of a file that is to be replaced is preserved. Files
/// with other names, other kinds of entries, and modes and attributes that grant
/// privileges are refused.
pub fn replacement_metadata(seen: &PreserveSeen) -> (step: PreserveStep)
    ensures
        step == preserving(*seen),
{
    let target = match seen.identity {
        None => return Step::Ask(PreserveProbe::Inspect),
        Some(Err(failure)) => return Step::Done(Err(failure)),
        Some(Ok(ReplacementTargetIdentity::Missing)) => {
            return Step::Done(Ok(ReplacementTarget::Missing));
        },
        Some(Ok(ReplacementTargetIdentity::Existing(target))) => target,
    };
    match target.file_type {
        FileType::Symlink => return Step::Done(Ok(ReplacementTarget::Link(target))),
        FileType::RegularFile => {},
        _ => return Step::Done(Err(IoFailure::of_kind(IoErrorKind::Unsupported))),
    }
    if target.mode & 0o6000 != 0 {
        return Step::Done(Err(IoFailure::of_kind(IoErrorKind::Unsupported)));
    }
    match seen.opened {
        None => return Step::Ask(PreserveProbe::Open),
        Some(Err(_)) => return Step::Done(Err(IoFailure::of_kind(IoErrorKind::InvalidData))),
        Some(Ok(_)) => {},
    }
    match seen.stat {
        None => return Step::Ask(PreserveProbe::StatOpened),
        Some(Err(failure)) => return Step::Done(Err(failure)),
        Some(Ok(stat)) => {
            if stat != target {
                return Step::Done(Err(IoFailure::of_kind(IoErrorKind::InvalidData)));
            }
        },
    }
    if target.links != 1 {
        return Step::Done(Err(IoFailure::of_kind(IoErrorKind::Unsupported)));
    }
    match seen.has_privileged {
        None => return Step::Ask(PreserveProbe::ReadAttributes),
        Some(Err(failure)) => return Step::Done(Err(failure)),
        Some(Ok(true)) => return Step::Done(Err(IoFailure::of_kind(IoErrorKind::Unsupported))),
        Some(Ok(false)) => {},
    }
    match seen.stat_again {
        None => Step::Ask(PreserveProbe::StatAgain),
        Some(Err(failure)) => Step::Done(Err(failure)),
        Some(Ok(again)) => {
            if again != target {
                Step::Done(Err(IoFailure::of_kind(IoErrorKind::InvalidData)))
            } else {
                Step::Done(Ok(ReplacementTarget::File(target)))
            }
        },
    }
}

/// What is preserved of a file is that of one file, which had no other name and
/// granted no privilege, and which did not change meanwhile.
pub proof fn law_preserved_metadata_is_consistent(
    seen: PreserveSeen,
    target: ExistingReplacementTarget,
)
    requires
        preserving(seen) == PreserveStep::Done(Ok(ReplacementTarget::File(target))),
    ensures
        seen.stat == Some(Ok::<ExistingReplacementTarget, IoFailure>(target)),
        seen.stat_again == Some(Ok::<ExistingReplacementTarget, IoFailure>(target)),
        seen.has_privileged == Some(Ok::<bool, IoFailure>(false)),
        target.file_type == FileType::RegularFile,
        target.links == 1,
        target.mode & 0o6000 == 0,
{
}

/// Nothing but a regular file is ever opened to preserve its metadata.
pub proof fn law_only_files_are_opened(seen: PreserveSeen)
    requires
        preserving(seen) == PreserveStep::Ask(PreserveProbe::Open),
    ensures
        seen.identity matches Some(Ok(ReplacementTargetIdentity::Existing(target)))
            && target.file_type == FileType::RegularFile,
{
}

/// An entry whose metadata can be preserved was found replaceable before.
pub proof fn law_preserved_targets_were_replaceable(seen: PreserveSeen)
    requires
        preserving(seen) matches PreserveStep::Done(Ok(_)),
    ensures
        seen.identity matches Some(Ok(identity)) && identity.replaceable(),
{
}

/// A name leads to the entry that was seen there, to nothing where it or its directory
/// is not found, and else the failure is told.
pub proof fn law_names_lead_to_what_was_seen(seen: IdentitySeen)
    ensures
        seen.parent is None ==> identity_behind(seen) == IdentityStep::Ask(
            IdentityProbe::OpenParent,
        ),
        (seen.parent matches Some(Ok(_))) && seen.entry is None ==> identity_behind(seen)
            == IdentityStep::Ask(IdentityProbe::Inspect),
        (seen.parent matches Some(Ok(_))) ==> (seen.entry matches Some(Ok(entry))
            ==> identity_behind(seen) == IdentityStep::Done(
            Ok(ReplacementTargetIdentity::Existing(entry)),
        )),
        (seen.parent matches Some(Ok(_))) ==> (seen.entry matches Some(Err(failure))
            ==> identity_behind(seen) == IdentityStep::Done(
            if failure.kind == IoErrorKind::NotFound {
                Ok(ReplacementTargetIdentity::Missing)
            } else {
                Err(failure)
            },
        )),
        seen.parent matches Some(Err(failure)) ==> identity_behind(seen) == IdentityStep::Done(
            if failure.kind == IoErrorKind::NotFound {
                Ok(ReplacementTargetIdentity::Missing)
            } else {
                Err(failure)
            },
        ),
{
}

/// A regular file with one name that grants no privilege, and is the same each time that
/// it is looked at, has its metadata preserved; a link and a free name need no look.
pub proof fn law_plain_files_are_preserved(seen: PreserveSeen, target: ExistingReplacementTarget)
    ensures
        seen.identity == Some(
            Ok::<ReplacementTargetIdentity, IoFailure>(ReplacementTargetIdentity::Missing),
        ) ==> preserving(seen) == PreserveStep::Done(Ok(ReplacementTarget::Missing)),
        seen.identity == Some(
            Ok::<ReplacementTargetIdentity, IoFailure>(ReplacementTargetIdentity::Existing(target)),
        ) && target.file_type == FileType::Symlink ==> preserving(seen) == PreserveStep::Done(
            Ok(ReplacementTarget::Link(target)),
        ),
        seen.identity == Some(
            Ok::<ReplacementTargetIdentity, IoFailure>(ReplacementTargetIdentity::Existing(target)),
        ) && target.file_type == FileType::RegularFile && target.mode & 0o6000 == 0 && target.links
            == 1 && (seen.opened matches Some(Ok(_))) && seen.stat == Some(
            Ok::<ExistingReplacementTarget, IoFailure>(target),
        ) && seen.has_privileged == Some(Ok::<bool, IoFailure>(false)) && seen.stat_again == Some(
            Ok::<ExistingReplacementTarget, IoFailure>(target),
        ) ==> preserving(seen) == PreserveStep::Done(Ok(ReplacementTarget::File(target))),
{
}

/// Metadata that is not preserved has its cause: an entry that cannot be replaced, one
/// that changed meanwhile, or a failure that was met.
pub proof fn law_refused_metadata_has_its_cause(seen: PreserveSeen, failure: IoFailure)
    requires
        preserving(seen) == PreserveStep::Done(Err(failure)),
    ensures
        ({
            ||| seen.identity == Some(Err::<ReplacementTargetIdentity, IoFailure>(failure))
            ||| seen.stat == Some(Err::<ExistingReplacementTarget, IoFailure>(failure))
            ||| seen.has_privileged == Some(Err::<bool, IoFailure>(failure))
            ||| seen.stat_again == Some(Err::<ExistingReplacementTarget, IoFailure>(failure))
            ||| failure.kind == IoErrorKind::Unsupported && (seen.identity matches Some(
                Ok(ReplacementTargetIdentity::Existing(target)),
            ) && target.file_type != FileType::Symlink && (target.file_type
                != FileType::RegularFile || target.mode & 0o6000 != 0 || target.links != 1
                || seen.has_privileged == Some(Ok::<bool, IoFailure>(true))))
            ||| failure.kind == IoErrorKind::InvalidData && (seen.identity matches Some(
                Ok(ReplacementTargetIdentity::Existing(target)),
            ) && ((seen.opened matches Some(Err(_))) || (seen.stat matches Some(Ok(stat)) && stat
                != target) || (seen.stat_again matches Some(Ok(again)) && again != target)))
        }),
{
}

/// Preserving metadata looks at nothing twice.
pub proof fn law_metadata_is_looked_at_once(seen: PreserveSeen, probe: PreserveProbe)
    requires
        preserving(seen) == PreserveStep::Ask(probe),
    ensures
        match probe {
            PreserveProbe::Inspect => seen.identity is None,
            PreserveProbe::Open => seen.opened is None,
            PreserveProbe::StatOpened => seen.stat is None && (seen.opened matches Some(Ok(_))),
            PreserveProbe::ReadAttributes => seen.has_privileged is None,
            PreserveProbe::StatAgain => seen.stat_again is None && seen.has_privileged is Some,
        },
{
}

} // verus!
