//! Renames that refuse to touch what they did not expect.
use crate::io_error::{IoErrorKind, IoFailure};
use crate::rooted_fs::identity::{ExistingReplacementTarget, ReplacementTargetIdentity};
use crate::steps;
use crate::steps::{Check, Step};
use vstd::prelude::*;

verus! {

/// How a relocation ended.
#[derive(Clone, Copy, Debug, Eq, PartialEq, Structural)]
pub enum CheckedRelocationOutcome {
    Relocated,
    SourceChanged,
    DestinationChanged,
    DestinationExists,
    SameFile,
}

/// What a relocation looks at or does next.
#[derive(Clone, Copy, Debug, Eq, PartialEq, Structural)]
pub enum RenameProbe {
    OpenSourceParent,
    OpenDestinationParent,
    CompareParents,
    StatSource,
    StatDestination,
    OpenSourceAnchor,
    StatSourceAnchor,
    /// Rename over the destination.
    RenameReplacing,
    /// Rename, and fail where the destination exists.
    RenameNoReplace,
    StatAnchorAfterRename,
    StatDestinationAfterRename,
    /// Make the rename durable: sync the source's directory and, where it is
    /// another one, the destination's.
    SyncParents,
}

/// What a relocation has seen so far.
#[derive(Clone, Copy)]
pub struct RenameSeen {
    pub source_parent: Option<Result<(), IoFailure>>,
    pub destination_parent: Option<Result<(), IoFailure>>,
    pub same_parent: Option<Result<bool, IoFailure>>,
    pub source: Option<Result<ExistingReplacementTarget, IoFailure>>,
    pub destination: Option<Result<ExistingReplacementTarget, IoFailure>>,
    pub anchor_opened: Option<Result<(), IoFailure>>,
    pub anchor: Option<Result<ExistingReplacementTarget, IoFailure>>,
    pub renamed: Option<Result<(), IoFailure>>,
    pub anchor_after: Option<Result<ExistingReplacementTarget, IoFailure>>,
    pub destination_after: Option<Result<ExistingReplacementTarget, IoFailure>>,
    pub synced: Option<Result<(), IoFailure>>,
}

impl RenameSeen {
    pub open spec fn nothing() -> RenameSeen {
        RenameSeen {
            source_parent: None,
            destination_parent: None,
            same_parent: None,
            source: None,
            destination: None,
            anchor_opened: None,
            anchor: None,
            renamed: None,
            anchor_after: None,
            destination_after: None,
            synced: None,
        }
    }

    pub fn new() -> (seen: RenameSeen)
        ensures
            seen == RenameSeen::nothing(),
    {
        RenameSeen {
            source_parent: None,
            destination_parent: None,
            same_parent: None,
            source: None,
            destination: None,
            anchor_opened: None,
            anchor: None,
            renamed: None,
            anchor_after: None,
            destination_after: None,
            synced: None,
        }
    }
}

/// The end of a relocation.
pub type RelocationResult = Result<CheckedRelocationOutcome, IoFailure>;

pub type RelocationCheck = Check<RenameProbe, RelocationResult>;

pub type RelocationStep = Step<RenameProbe, RelocationResult>;

/// A directory that must be there: where it is not, the entry has changed.
pub open spec fn parent_opened(
    seen: Option<Result<(), IoFailure>>,
    probe: RenameProbe,
    changed: CheckedRelocationOutcome,
) -> RelocationCheck {
    match seen {
        None => Check::Ask(probe),
        Some(Ok(_)) => Check::Pass,
        Some(Err(failure)) => if failure.missing() {
            Check::Stop(Ok(changed))
        } else {
            Check::Stop(Err(failure))
        },
    }
}

/// Something that must not fail.
pub open spec fn must_succeed<T>(
    seen: Option<Result<T, IoFailure>>,
    probe: RenameProbe,
) -> RelocationCheck {
    match seen {
        None => Check::Ask(probe),
        Some(Ok(_)) => Check::Pass,
        Some(Err(failure)) => Check::Stop(Err(failure)),
    }
}

/// An entry that must be the expected one.
pub open spec fn is_expected(
    seen: Option<Result<ExistingReplacementTarget, IoFailure>>,
    probe: RenameProbe,
    expected: ReplacementTargetIdentity,
) -> RelocationCheck {
    match seen {
        None => Check::Ask(probe),
        Some(Ok(target)) => steps::stop_if(
            ReplacementTargetIdentity::Existing(target) != expected,
            Ok(CheckedRelocationOutcome::SourceChanged),
        ),
        Some(Err(failure)) => if failure.missing() {
            Check::Stop(Ok(CheckedRelocationOutcome::SourceChanged))
        } else {
            Check::Stop(Err(failure))
        },
    }
}

/// What stands at the destination.
pub open spec fn destination_identity(
    seen: Result<ExistingReplacementTarget, IoFailure>,
) -> ReplacementTargetIdentity {
    match seen {
        Ok(target) => ReplacementTargetIdentity::Existing(target),
        Err(_) => ReplacementTargetIdentity::Missing,
    }
}

/// The answer where the destination exists although it should not: without an
/// overwrite it simply exists; where its absence was confirmed, it has changed.
pub open spec fn occupied(
    expected_destination: Option<ReplacementTargetIdentity>,
) -> CheckedRelocationOutcome {
    if expected_destination is Some {
        CheckedRelocationOutcome::DestinationChanged
    } else {
        CheckedRelocationOutcome::DestinationExists
    }
}

/// The relocation replaces an entry that was confirmed to stand there.
pub open spec fn replaces(expected_destination: Option<ReplacementTargetIdentity>) -> bool {
    expected_destination matches Some(ReplacementTargetIdentity::Existing(_))
}

pub open spec fn destination_is_expected(
    seen: RenameSeen,
    expected_destination: Option<ReplacementTargetIdentity>,
) -> RelocationCheck {
    match seen.destination {
        None => Check::Ask(RenameProbe::StatDestination),
        Some(found) => if found is Err && !found->Err_0.missing() {
            Check::Stop(Err(found->Err_0))
        } else {
            let current = destination_identity(found);
            match expected_destination {
                Some(ReplacementTargetIdentity::Existing(target)) => if current
                    != ReplacementTargetIdentity::Existing(target) {
                    Check::Stop(Ok(CheckedRelocationOutcome::DestinationChanged))
                } else {
                    steps::stop_if(
                        seen.source->0->Ok_0.device == target.device && seen.source->0->Ok_0.inode
                            == target.inode,
                        Ok(CheckedRelocationOutcome::SameFile),
                    )
                },
                _ => steps::stop_if(
                    current != ReplacementTargetIdentity::Missing,
                    Ok(occupied(expected_destination)),
                ),
            }
        },
    }
}

/// The source is pinned before a rename to a free name, so that what moved can
/// be told afterwards.
pub open spec fn source_is_pinned(
    seen: RenameSeen,
    expected_source: ReplacementTargetIdentity,
) -> RelocationCheck {
    parent_opened(
        seen.anchor_opened,
        RenameProbe::OpenSourceAnchor,
        CheckedRelocationOutcome::SourceChanged,
    ).followed_by(
        match seen.anchor {
            None => Check::Ask(RenameProbe::StatSourceAnchor),
            Some(Ok(target)) => steps::stop_if(
                ReplacementTargetIdentity::Existing(target) != expected_source,
                Ok(CheckedRelocationOutcome::SourceChanged),
            ),
            Some(Err(failure)) => Check::Stop(Err(failure)),
        },
    )
}

/// The rename itself.
pub open spec fn entry_renamed(
    seen: RenameSeen,
    expected_destination: Option<ReplacementTargetIdentity>,
) -> RelocationCheck {
    match seen.renamed {
        None => Check::Ask(
            if replaces(expected_destination) {
                RenameProbe::RenameReplacing
            } else {
                RenameProbe::RenameNoReplace
            },
        ),
        Some(Ok(_)) => Check::Pass,
        Some(Err(failure)) => if failure.kind == IoErrorKind::AlreadyExists && !replaces(
            expected_destination,
        ) {
            Check::Stop(Ok(occupied(expected_destination)))
        } else {
            Check::Stop(Err(failure))
        },
    }
}

/// A failure to tell what a rename moved. The rename happened, so it is made
/// durable before the outcome is reported as unknown.
pub open spec fn moved_unknown(seen: RenameSeen) -> RelocationCheck {
    if seen.synced is None {
        Check::Ask(RenameProbe::SyncParents)
    } else {
        Check::Stop(Err(IoFailure { kind: IoErrorKind::InvalidData, number: None }))
    }
}

/// After a rename to a free name, the destination must be the pinned source.
pub open spec fn moved_entry_is_the_pinned_one(seen: RenameSeen) -> RelocationCheck {
    match (seen.anchor_after, seen.destination_after) {
        (None, _) => Check::Ask(RenameProbe::StatAnchorAfterRename),
        (Some(Err(_)), _) => moved_unknown(seen),
        (Some(Ok(_)), None) => Check::Ask(RenameProbe::StatDestinationAfterRename),
        (Some(Ok(_)), Some(Err(_))) => moved_unknown(seen),
        (Some(Ok(anchor)), Some(Ok(named))) => if anchor != named {
            moved_unknown(seen)
        } else {
            Check::Pass
        },
    }
}

/// The checks of a relocation, in order.
pub open spec fn relocation_checks(
    expected_source: ReplacementTargetIdentity,
    expected_destination: Option<ReplacementTargetIdentity>,
    seen: RenameSeen,
) -> RelocationCheck {
    let before = parent_opened(
        seen.source_parent,
        RenameProbe::OpenSourceParent,
        CheckedRelocationOutcome::SourceChanged,
    ).followed_by(
        parent_opened(
            seen.destination_parent,
            RenameProbe::OpenDestinationParent,
            CheckedRelocationOutcome::DestinationChanged,
        ),
    ).followed_by(must_succeed(seen.same_parent, RenameProbe::CompareParents)).followed_by(
        is_expected(seen.source, RenameProbe::StatSource, expected_source),
    ).followed_by(destination_is_expected(seen, expected_destination));
    let renamed = if replaces(expected_destination) {
        before.followed_by(entry_renamed(seen, expected_destination))
    } else {
        before.followed_by(source_is_pinned(seen, expected_source)).followed_by(
            entry_renamed(seen, expected_destination),
        ).followed_by(moved_entry_is_the_pinned_one(seen))
    };
    renamed.followed_by(must_succeed(seen.synced, RenameProbe::SyncParents))
}

fn next_parent(
    seen: Option<Result<(), IoFailure>>,
    probe: RenameProbe,
    changed: CheckedRelocationOutcome,
) -> (check: RelocationCheck)
    ensures
        check == parent_opened(seen, probe, changed),
{
    match seen {
        None => Check::Ask(probe),
        Some(Ok(_)) => Check::Pass,
        Some(Err(failure)) => {
            if failure.is_missing() {
                Check::Stop(Ok(changed))
            } else {
                Check::Stop(Err(failure))
            }
        },
    }
}

fn next_expected(
    seen: Option<Result<ExistingReplacementTarget, IoFailure>>,
    probe: RenameProbe,
    expected: ReplacementTargetIdentity,
) -> (check: RelocationCheck)
    ensures
        check == is_expected(seen, probe, expected),
{
    match seen {
        None => Check::Ask(probe),
        Some(Ok(target)) => {
            if ReplacementTargetIdentity::Existing(target) != expected {
                Check::Stop(Ok(CheckedRelocationOutcome::SourceChanged))
            } else {
                Check::Pass
            }
        },
        Some(Err(failure)) => {
            if failure.is_missing() {
                Check::Stop(Ok(CheckedRelocationOutcome::SourceChanged))
            } else {
                Check::Stop(Err(failure))
            }
        },
    }
}

fn next_destination(
    seen: &RenameSeen,
    expected_destination: Option<ReplacementTargetIdentity>,
) -> (check: RelocationCheck)
    requires
        seen.source matches Some(Ok(_)),
    ensures
        check == destination_is_expected(*seen, expected_destination),
{
    let current = match seen.destination {
        None => return Check::Ask(RenameProbe::StatDestination),
        Some(Ok(target)) => ReplacementTargetIdentity::Existing(target),
        Some(Err(failure)) => {
            if !failure.is_missing() {
                return Check::Stop(Err(failure));
            }
            ReplacementTargetIdentity::Missing
        },
    };
    match expected_destination {
        Some(ReplacementTargetIdentity::Existing(target)) => {
            if current != ReplacementTargetIdentity::Existing(target) {
                return Check::Stop(Ok(CheckedRelocationOutcome::DestinationChanged));
            }
            if let Some(Ok(source)) = seen.source {
                if source.device == target.device && source.inode == target.inode {
                    return Check::Stop(Ok(CheckedRelocationOutcome::SameFile));
                }
            }
            Check::Pass
        },
        Some(ReplacementTargetIdentity::Missing) => {
            if current != ReplacementTargetIdentity::Missing {
                return Check::Stop(Ok(CheckedRelocationOutcome::DestinationChanged));
            }
            Check::Pass
        },
        None => {
            if current != ReplacementTargetIdentity::Missing {
                return Check::Stop(Ok(CheckedRelocationOutcome::DestinationExists));
            }
            Check::Pass
        },
    }
}

fn next_pinned(
    seen: &RenameSeen,
    expected_source: ReplacementTargetIdentity,
) -> (check: RelocationCheck)
    ensures
        check == source_is_pinned(*seen, expected_source),
{
    match next_parent(
        seen.anchor_opened,
        RenameProbe::OpenSourceAnchor,
        CheckedRelocationOutcome::SourceChanged,
    ) {
        Check::Pass => {},
        check => return check,
    }
    match seen.anchor {
        None => Check::Ask(RenameProbe::StatSourceAnchor),
        Some(Ok(target)) => {
            if ReplacementTargetIdentity::Existing(target) != expected_source {
                Check::Stop(Ok(CheckedRelocationOutcome::SourceChanged))
            } else {
                Check::Pass
            }
        },
        Some(Err(failure)) => Check::Stop(Err(failure)),
    }
}

fn next_moved_unknown(seen: &RenameSeen) -> (check: RelocationCheck)
    ensures
        check == moved_unknown(*seen),
{
    if seen.synced.is_none() {
        Check::Ask(RenameProbe::SyncParents)
    } else {
        Check::Stop(Err(IoFailure::of_kind(IoErrorKind::InvalidData)))
    }
}

fn next_moved(seen: &RenameSeen) -> (check: RelocationCheck)
    ensures
        check == moved_entry_is_the_pinned_one(*seen),
{
    let anchor = match seen.anchor_after {
        None => return Check::Ask(RenameProbe::StatAnchorAfterRename),
        Some(Err(_)) => return next_moved_unknown(seen),
        Some(Ok(anchor)) => anchor,
    };
    match seen.destination_after {
        None => Check::Ask(RenameProbe::StatDestinationAfterRename),
        Some(Err(_)) => next_moved_unknown(seen),
        Some(Ok(named)) => {
            if anchor != named {
                next_moved_unknown(seen)
            } else {
                Check::Pass
            }
        },
    }
}

/// Decides a relocation: what to look at or do next, or how it ended.
///
/// A rename over an existing entry is a check followed by an ordinary rename,
/// which external writers can still race; a rename to a free name cannot
/// replace anything, and is verified afterwards.
pub fn rename_if_unchanged(
    expected_source: ReplacementTargetIdentity,
    expected_destination: Option<ReplacementTargetIdentity>,
    seen: &RenameSeen,
) -> (step: RelocationStep)
    ensures
        step == relocation_checks(expected_source, expected_destination, *seen).otherwise(
            Ok(CheckedRelocationOutcome::Relocated),
        ),
{
    if let Err(step) = next_parent(
        seen.source_parent,
        RenameProbe::OpenSourceParent,
        CheckedRelocationOutcome::SourceChanged,
    ).settle() {
        return step;
    }
    if let Err(step) = next_parent(
        seen.destination_parent,
        RenameProbe::OpenDestinationParent,
        CheckedRelocationOutcome::DestinationChanged,
    ).settle() {
        return step;
    }
    match seen.same_parent {
        None => return Step::Ask(RenameProbe::CompareParents),
        Some(Err(failure)) => return Step::Done(Err(failure)),
        Some(Ok(_)) => {},
    }
    if let Err(step) = next_expected(seen.source, RenameProbe::StatSource, expected_source).settle() {
        return step;
    }
    if let Err(step) = next_destination(seen, expected_destination).settle() {
        return step;
    }
    let replacing = match expected_destination {
        Some(ReplacementTargetIdentity::Existing(_)) => true,
        _ => false,
    };
    if !replacing {
        if let Err(step) = next_pinned(seen, expected_source).settle() {
            return step;
        }
    }
    match seen.renamed {
        None => {
            return Step::Ask(
                if replacing {
                    RenameProbe::RenameReplacing
                } else {
                    RenameProbe::RenameNoReplace
                },
            );
        },
        Some(Err(failure)) => {
            let exists = failure.kind == IoErrorKind::AlreadyExists;
            if exists && !replacing {
                return Step::Done(
                    Ok(
                        if expected_destination.is_some() {
                            CheckedRelocationOutcome::DestinationChanged
                        } else {
                            CheckedRelocationOutcome::DestinationExists
                        },
                    ),
                );
            }
            return Step::Done(Err(failure));
        },
        Some(Ok(_)) => {},
    }
    if !replacing {
        if let Err(step) = next_moved(seen).settle() {
            return step;
        }
    }
    match seen.synced {
        None => Step::Ask(RenameProbe::SyncParents),
        Some(Err(failure)) => Step::Done(Err(failure)),
        Some(Ok(_)) => Step::Done(Ok(CheckedRelocationOutcome::Relocated)),
    }
}

/// Nothing is renamed before the source has been seen to be the expected one
/// and the destination to be what was confirmed: the confirmed entry, or
/// nothing. Where nothing was there, the rename cannot replace anything.
pub proof fn law_renames_are_checked(
    expected_source: ReplacementTargetIdentity,
    expected_destination: Option<ReplacementTargetIdentity>,
    seen: RenameSeen,
    verdict: RelocationResult,
)
    requires
        ({
            let step = relocation_checks(
                expected_source,
                expected_destination,
                seen,
            ).otherwise(verdict);
            step == RelocationStep::Ask(RenameProbe::RenameReplacing) || step
                == RelocationStep::Ask(RenameProbe::RenameNoReplace)
        }),
    ensures
        seen.source matches Some(Ok(source)) && ReplacementTargetIdentity::Existing(source)
            == expected_source,
        seen.destination matches Some(found) && ({
            let step = relocation_checks(
                expected_source,
                expected_destination,
                seen,
            ).otherwise(verdict);
            if step == RelocationStep::Ask(RenameProbe::RenameReplacing) {
                expected_destination == Some(destination_identity(found)) && found is Ok
            } else {
                destination_identity(found) == ReplacementTargetIdentity::Missing
                    && (seen.anchor matches Some(Ok(anchor)) && ReplacementTargetIdentity::Existing(
                    anchor,
                ) == expected_source)
            }
        }),
        seen.renamed is None,
{
}

/// A relocation is reported as done only where the rename succeeded, what moved
/// is the pinned source wherever the destination was free, and the rename is
/// durable.
pub proof fn law_reported_relocations_happened(
    expected_source: ReplacementTargetIdentity,
    expected_destination: Option<ReplacementTargetIdentity>,
    seen: RenameSeen,
)
    requires
        relocation_checks(expected_source, expected_destination, seen).otherwise(
            Ok(CheckedRelocationOutcome::Relocated),
        ) == RelocationStep::Done(Ok(CheckedRelocationOutcome::Relocated)),
    ensures
        seen.renamed matches Some(Ok(_)),
        seen.synced matches Some(Ok(_)),
        !replaces(expected_destination) ==> (seen.anchor_after matches Some(Ok(anchor))
            && seen.destination_after == Some(Ok::<ExistingReplacementTarget, IoFailure>(anchor))),
{
}

/// A source that is the expected one is relocated: over a destination that is the
/// confirmed one and another file, or to a name where nothing is.
pub proof fn law_unchanged_entries_are_relocated(
    source: ExistingReplacementTarget,
    expected_destination: Option<ReplacementTargetIdentity>,
    seen: RenameSeen,
)
    requires
        seen.source_parent == Some(Ok::<(), IoFailure>(())),
        seen.destination_parent == Some(Ok::<(), IoFailure>(())),
        seen.same_parent matches Some(Ok(_)),
        seen.source == Some(Ok::<ExistingReplacementTarget, IoFailure>(source)),
        match expected_destination {
            Some(ReplacementTargetIdentity::Existing(target)) => seen.destination == Some(
                Ok::<ExistingReplacementTarget, IoFailure>(target),
            ) && (source.device != target.device || source.inode != target.inode),
            _ => (seen.destination matches Some(Err(failure)) && (failure.kind
                == IoErrorKind::NotFound || failure.kind == IoErrorKind::NotADirectory))
                && seen.anchor_opened == Some(Ok::<(), IoFailure>(())) && seen.anchor == Some(
                Ok::<ExistingReplacementTarget, IoFailure>(source),
            ),
        },
    ensures
        seen.renamed is None ==> relocation_checks(
            ReplacementTargetIdentity::Existing(source),
            expected_destination,
            seen,
        ) == RelocationCheck::Ask(
            if expected_destination matches Some(ReplacementTargetIdentity::Existing(_)) {
                RenameProbe::RenameReplacing
            } else {
                RenameProbe::RenameNoReplace
            },
        ),
        (seen.renamed matches Some(Ok(_))) && (seen.synced matches Some(Ok(_))) && ((
        expected_destination matches Some(ReplacementTargetIdentity::Existing(_))) || (
        seen.anchor_after matches Some(Ok(anchor)) && seen.destination_after == Some(
            Ok::<ExistingReplacementTarget, IoFailure>(anchor),
        ))) ==> relocation_checks(
            ReplacementTargetIdentity::Existing(source),
            expected_destination,
            seen,
        ).otherwise(Ok(CheckedRelocationOutcome::Relocated)) == RelocationStep::Done(
            Ok(CheckedRelocationOutcome::Relocated),
        ),
{
}

/// Each end of a relocation has its cause: a changed source was gone or another, a
/// changed destination was not the confirmed one, one that exists was there without
/// leave to overwrite, the same file is under both names, and a failure was met.
pub proof fn law_ends_of_relocations_have_their_cause(
    expected_source: ReplacementTargetIdentity,
    expected_destination: Option<ReplacementTargetIdentity>,
    seen: RenameSeen,
    ended: RelocationResult,
)
    requires
        relocation_checks(expected_source, expected_destination, seen).otherwise(
            Ok(CheckedRelocationOutcome::Relocated),
        ) == RelocationStep::Done(ended),
    ensures
        match ended {
            Ok(CheckedRelocationOutcome::Relocated) => (seen.renamed matches Some(Ok(_))) && (
            seen.synced matches Some(Ok(_))),
            Ok(CheckedRelocationOutcome::SourceChanged) => {
                ||| (seen.source_parent matches Some(Err(failure)) && failure.missing())
                ||| (seen.source matches Some(Err(failure)) && failure.missing())
                ||| (seen.source matches Some(Ok(source)) && expected_source
                    != ReplacementTargetIdentity::Existing(source))
                ||| (seen.anchor_opened matches Some(Err(failure)) && failure.missing())
                ||| (seen.anchor matches Some(Ok(anchor)) && expected_source
                    != ReplacementTargetIdentity::Existing(anchor))
            },
            Ok(CheckedRelocationOutcome::DestinationChanged) => {
                ||| (seen.destination_parent matches Some(Err(failure)) && failure.missing())
                ||| (expected_destination matches Some(ReplacementTargetIdentity::Existing(target))
                    && ((seen.destination matches Some(Ok(found)) && found != target) || (
                seen.destination matches Some(Err(failure)) && failure.missing())))
                ||| (expected_destination == Some(ReplacementTargetIdentity::Missing) && ((
                seen.destination matches Some(Ok(_))) || (seen.renamed matches Some(Err(failure))
                    && failure.kind == IoErrorKind::AlreadyExists)))
            },
            Ok(CheckedRelocationOutcome::DestinationExists) => expected_destination is None && ((
            seen.destination matches Some(Ok(_))) || (seen.renamed matches Some(Err(failure))
                && failure.kind == IoErrorKind::AlreadyExists)),
            Ok(CheckedRelocationOutcome::SameFile) => expected_destination matches Some(
                ReplacementTargetIdentity::Existing(target),
            ) && (seen.source matches Some(Ok(source)) && source.device == target.device
                && source.inode == target.inode),
            Err(failure) => {
                ||| seen.source_parent == Some(Err::<(), IoFailure>(failure)) && !failure.missing()
                ||| seen.destination_parent == Some(Err::<(), IoFailure>(failure))
                    && !failure.missing()
                ||| seen.same_parent == Some(Err::<bool, IoFailure>(failure))
                ||| seen.source == Some(Err::<ExistingReplacementTarget, IoFailure>(failure))
                    && !failure.missing()
                ||| seen.destination == Some(Err::<ExistingReplacementTarget, IoFailure>(failure))
                    && !failure.missing()
                ||| seen.anchor_opened == Some(Err::<(), IoFailure>(failure)) && !failure.missing()
                ||| seen.anchor == Some(Err::<ExistingReplacementTarget, IoFailure>(failure))
                ||| seen.renamed == Some(Err::<(), IoFailure>(failure))
                ||| seen.synced == Some(Err::<(), IoFailure>(failure))
                ||| failure.kind == IoErrorKind::InvalidData && (seen.renamed matches Some(Ok(_)))
                    && ((seen.anchor_after matches Some(Err(_))) || (
                seen.destination_after matches Some(Err(_))) || (
                seen.anchor_after matches Some(Ok(anchor)) && seen.destination_after != Some(
                    Ok::<ExistingReplacementTarget, IoFailure>(anchor),
                )))
            },
        },
{
}

/// Nothing is looked at or done twice, and nothing follows a rename but a look at what
/// moved and making it durable.
pub proof fn law_relocations_look_once(
    expected_source: ReplacementTargetIdentity,
    expected_destination: Option<ReplacementTargetIdentity>,
    seen: RenameSeen,
    probe: RenameProbe,
)
    requires
        relocation_checks(expected_source, expected_destination, seen) == RelocationCheck::Ask(
            probe,
        ),
    ensures
        match probe {
            RenameProbe::OpenSourceParent => seen.source_parent is None,
            RenameProbe::OpenDestinationParent => seen.destination_parent is None,
            RenameProbe::CompareParents => seen.same_parent is None,
            RenameProbe::StatSource => seen.source is None,
            RenameProbe::StatDestination => seen.destination is None,
            RenameProbe::OpenSourceAnchor => seen.anchor_opened is None,
            RenameProbe::StatSourceAnchor => seen.anchor is None,
            RenameProbe::RenameReplacing | RenameProbe::RenameNoReplace => seen.renamed is None,
            RenameProbe::StatAnchorAfterRename => seen.anchor_after is None && (
            seen.renamed matches Some(Ok(_))),
            RenameProbe::StatDestinationAfterRename => seen.destination_after is None && (
            seen.renamed matches Some(Ok(_))),
            RenameProbe::SyncParents => seen.synced is None && (seen.renamed matches Some(Ok(_))),
        },
{
}

} // verus!
