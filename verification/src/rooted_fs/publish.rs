//! Publishing a staged file under its target name.
use crate::io_error::{IoErrorKind, IoFailure};
use crate::rooted_fs::identity::{
    ExistingReplacementTarget, FileType, ReplacementTargetIdentity,
};
use crate::steps;
use crate::steps::{Check, Step};
use vstd::prelude::*;

verus! {

/// How a publication ended.
#[derive(Clone, Copy, Debug, Eq, PartialEq, Structural)]
pub enum ReplaceAndSyncOutcome {
    Published,
    Rejected,
    NotPublished(IoFailure),
    PublishedDurabilityUnknown(IoFailure),
}

/// What a publication looks at or does next.
#[derive(Clone, Copy, Debug, Eq, PartialEq, Structural)]
pub enum PublishProbe {
    OpenSourceParent,
    OpenDestinationParent,
    CompareParents,
    StatOpenStage,
    StatStageName,
    StatDestination,
    /// Rename over the destination.
    RenameReplacing,
    /// Rename, and fail where the destination exists.
    RenameNoReplace,
    StatStageAfterRename,
    StatDestinationAfterRename,
    SyncParents,
}

/// What a publication has seen so far.
#[derive(Clone, Copy)]
pub struct PublishSeen {
    pub source_parent: Option<Result<(), IoFailure>>,
    pub destination_parent: Option<Result<(), IoFailure>>,
    pub same_parent: Option<Result<bool, IoFailure>>,
    pub open_stage: Option<Result<ExistingReplacementTarget, IoFailure>>,
    pub named_stage: Option<Result<ExistingReplacementTarget, IoFailure>>,
    pub destination: Option<Result<ExistingReplacementTarget, IoFailure>>,
    pub renamed: Option<Result<(), IoFailure>>,
    pub stage_after: Option<Result<ExistingReplacementTarget, IoFailure>>,
    pub destination_after: Option<Result<ExistingReplacementTarget, IoFailure>>,
    pub synced: Option<Result<(), IoFailure>>,
}

impl PublishSeen {
    pub fn new() -> (seen: PublishSeen)
        ensures
            seen == (PublishSeen {
                source_parent: None,
                destination_parent: None,
                same_parent: None,
                open_stage: None,
                named_stage: None,
                destination: None,
                renamed: None,
                stage_after: None,
                destination_after: None,
                synced: None,
            }),
    {
        PublishSeen {
            source_parent: None,
            destination_parent: None,
            same_parent: None,
            open_stage: None,
            named_stage: None,
            destination: None,
            renamed: None,
            stage_after: None,
            destination_after: None,
            synced: None,
        }
    }
}

pub type PublishCheck = Check<PublishProbe, ReplaceAndSyncOutcome>;

pub type PublishStep = Step<PublishProbe, ReplaceAndSyncOutcome>;

/// Something that must not fail before the rename.
pub open spec fn must_succeed<T>(
    seen: Option<Result<T, IoFailure>>,
    probe: PublishProbe,
) -> PublishCheck {
    match seen {
        None => Check::Ask(probe),
        Some(Ok(_)) => Check::Pass,
        Some(Err(failure)) => Check::Stop(ReplaceAndSyncOutcome::NotPublished(failure)),
    }
}

fn next_success<T>(seen: &Option<Result<T, IoFailure>>, probe: PublishProbe) -> (check: PublishCheck)
    ensures
        check == must_succeed(*seen, probe),
{
    match seen {
        None => Check::Ask(probe),
        Some(Ok(_)) => Check::Pass,
        Some(Err(failure)) => Check::Stop(ReplaceAndSyncOutcome::NotPublished(*failure)),
    }
}

/// The stage name must still name the open stage, a regular file without other
/// names.
pub open spec fn stage_is_pinned(seen: PublishSeen) -> PublishCheck {
    let opened = seen.open_stage->0->Ok_0;
    match seen.named_stage {
        None => Check::Ask(PublishProbe::StatStageName),
        Some(Ok(named)) => steps::stop_if(
            opened != named || opened.file_type != FileType::RegularFile || opened.links != 1,
            ReplaceAndSyncOutcome::Rejected,
        ),
        Some(Err(failure)) => Check::Stop(
            if failure.kind == IoErrorKind::NotFound {
                ReplaceAndSyncOutcome::Rejected
            } else {
                ReplaceAndSyncOutcome::NotPublished(failure)
            },
        ),
    }
}

/// The destination must be what was confirmed.
pub open spec fn destination_is_expected(
    seen: PublishSeen,
    expected: ReplacementTargetIdentity,
) -> PublishCheck {
    match seen.destination {
        None => Check::Ask(PublishProbe::StatDestination),
        Some(Ok(target)) => steps::stop_if(
            expected != ReplacementTargetIdentity::Existing(target),
            ReplaceAndSyncOutcome::Rejected,
        ),
        Some(Err(failure)) => if failure.kind == IoErrorKind::NotFound {
            steps::stop_if(
                expected != ReplacementTargetIdentity::Missing,
                ReplaceAndSyncOutcome::Rejected,
            )
        } else {
            Check::Stop(ReplaceAndSyncOutcome::NotPublished(failure))
        },
    }
}

pub open spec fn stage_renamed(
    seen: PublishSeen,
    expected: ReplacementTargetIdentity,
) -> PublishCheck {
    match seen.renamed {
        None => Check::Ask(
            if expected is Existing {
                PublishProbe::RenameReplacing
            } else {
                PublishProbe::RenameNoReplace
            },
        ),
        Some(Ok(_)) => Check::Pass,
        Some(Err(failure)) => Check::Stop(
            if failure.kind == IoErrorKind::AlreadyExists && expected is Missing {
                ReplaceAndSyncOutcome::Rejected
            } else {
                ReplaceAndSyncOutcome::NotPublished(failure)
            },
        ),
    }
}

/// What was published cannot be told to be the stage. The rename happened, so it
/// is made durable before the outcome is reported as unknown.
pub open spec fn published_unknown(seen: PublishSeen) -> PublishCheck {
    if seen.synced is None {
        Check::Ask(PublishProbe::SyncParents)
    } else {
        Check::Stop(
            ReplaceAndSyncOutcome::PublishedDurabilityUnknown(
                IoFailure { kind: IoErrorKind::InvalidData, number: None },
            ),
        )
    }
}

/// After a rename to a free name, the destination must be the open stage.
pub open spec fn published_entry_is_the_stage(seen: PublishSeen) -> PublishCheck {
    match (seen.stage_after, seen.destination_after) {
        (None, _) => Check::Ask(PublishProbe::StatStageAfterRename),
        (Some(Err(_)), _) => published_unknown(seen),
        (Some(Ok(_)), None) => Check::Ask(PublishProbe::StatDestinationAfterRename),
        (Some(Ok(_)), Some(Err(_))) => published_unknown(seen),
        (Some(Ok(stage)), Some(Ok(named))) => if stage != named {
            published_unknown(seen)
        } else {
            Check::Pass
        },
    }
}

pub open spec fn publication_is_durable(seen: PublishSeen) -> PublishCheck {
    match seen.synced {
        None => Check::Ask(PublishProbe::SyncParents),
        Some(Ok(_)) => Check::Pass,
        Some(Err(failure)) => Check::Stop(
            ReplaceAndSyncOutcome::PublishedDurabilityUnknown(failure),
        ),
    }
}

/// The checks of a publication, in order.
pub open spec fn publish_checks(
    expected: ReplacementTargetIdentity,
    seen: PublishSeen,
) -> PublishCheck {
    let renamed = must_succeed(seen.source_parent, PublishProbe::OpenSourceParent).followed_by(
        must_succeed(seen.destination_parent, PublishProbe::OpenDestinationParent),
    ).followed_by(must_succeed(seen.same_parent, PublishProbe::CompareParents)).followed_by(
        must_succeed(seen.open_stage, PublishProbe::StatOpenStage),
    ).followed_by(stage_is_pinned(seen)).followed_by(
        destination_is_expected(seen, expected),
    ).followed_by(stage_renamed(seen, expected));
    let verified = if expected is Missing {
        renamed.followed_by(published_entry_is_the_stage(seen))
    } else {
        renamed
    };
    verified.followed_by(publication_is_durable(seen))
}

fn next_pinned(seen: &PublishSeen) -> (check: PublishCheck)
    requires
        seen.open_stage matches Some(Ok(_)),
    ensures
        check == stage_is_pinned(*seen),
{
    match seen.named_stage {
        None => Check::Ask(PublishProbe::StatStageName),
        Some(Ok(named)) => {
            if let Some(Ok(opened)) = seen.open_stage {
                if opened != named || opened.file_type != FileType::RegularFile || opened.links
                    != 1 {
                    return Check::Stop(ReplaceAndSyncOutcome::Rejected);
                }
            }
            Check::Pass
        },
        Some(Err(failure)) => Check::Stop(
            if failure.kind == IoErrorKind::NotFound {
                ReplaceAndSyncOutcome::Rejected
            } else {
                ReplaceAndSyncOutcome::NotPublished(failure)
            },
        ),
    }
}

fn next_destination(seen: &PublishSeen, expected: ReplacementTargetIdentity) -> (check: PublishCheck)
    ensures
        check == destination_is_expected(*seen, expected),
{
    let current = match seen.destination {
        None => return Check::Ask(PublishProbe::StatDestination),
        Some(Ok(target)) => ReplacementTargetIdentity::Existing(target),
        Some(Err(failure)) => {
            if failure.kind != IoErrorKind::NotFound {
                return Check::Stop(ReplaceAndSyncOutcome::NotPublished(failure));
            }
            ReplacementTargetIdentity::Missing
        },
    };
    if expected != current {
        return Check::Stop(ReplaceAndSyncOutcome::Rejected);
    }
    Check::Pass
}

fn next_unknown(seen: &PublishSeen) -> (check: PublishCheck)
    ensures
        check == published_unknown(*seen),
{
    if seen.synced.is_none() {
        Check::Ask(PublishProbe::SyncParents)
    } else {
        Check::Stop(
            ReplaceAndSyncOutcome::PublishedDurabilityUnknown(
                IoFailure::of_kind(IoErrorKind::InvalidData),
            ),
        )
    }
}

fn next_published(seen: &PublishSeen) -> (check: PublishCheck)
    ensures
        check == published_entry_is_the_stage(*seen),
{
    let stage = match seen.stage_after {
        None => return Check::Ask(PublishProbe::StatStageAfterRename),
        Some(Err(_)) => return next_unknown(seen),
        Some(Ok(stage)) => stage,
    };
    match seen.destination_after {
        None => Check::Ask(PublishProbe::StatDestinationAfterRename),
        Some(Err(_)) => next_unknown(seen),
        Some(Ok(named)) => {
            if stage != named {
                next_unknown(seen)
            } else {
                Check::Pass
            }
        },
    }
}

/// Decides a publication: what to look at or do next, or how it ended.
pub fn rename_replace_if_unchanged(
    expected: ReplacementTargetIdentity,
    seen: &PublishSeen,
) -> (step: PublishStep)
    ensures
        step == publish_checks(expected, *seen).otherwise(ReplaceAndSyncOutcome::Published),
{
    if let Err(step) = next_success(
        &seen.source_parent,
        PublishProbe::OpenSourceParent,
    ).settle() {
        return step;
    }
    if let Err(step) = next_success(
        &seen.destination_parent,
        PublishProbe::OpenDestinationParent,
    ).settle() {
        return step;
    }
    if let Err(step) = next_success(&seen.same_parent, PublishProbe::CompareParents).settle() {
        return step;
    }
    if let Err(step) = next_success(&seen.open_stage, PublishProbe::StatOpenStage).settle() {
        return step;
    }
    if let Err(step) = next_pinned(seen).settle() {
        return step;
    }
    if let Err(step) = next_destination(seen, expected).settle() {
        return step;
    }
    let replacing = expected.is_existing();
    match seen.renamed {
        None => {
            return Step::Ask(
                if replacing {
                    PublishProbe::RenameReplacing
                } else {
                    PublishProbe::RenameNoReplace
                },
            );
        },
        Some(Err(failure)) => {
            let occupied = failure.kind == IoErrorKind::AlreadyExists && !replacing;
            return Step::Done(
                if occupied {
                    ReplaceAndSyncOutcome::Rejected
                } else {
                    ReplaceAndSyncOutcome::NotPublished(failure)
                },
            );
        },
        Some(Ok(_)) => {},
    }
    if !replacing {
        if let Err(step) = next_published(seen).settle() {
            return step;
        }
    }
    match seen.synced {
        None => Step::Ask(PublishProbe::SyncParents),
        Some(Err(failure)) => Step::Done(
            ReplaceAndSyncOutcome::PublishedDurabilityUnknown(failure),
        ),
        Some(Ok(_)) => Step::Done(ReplaceAndSyncOutcome::Published),
    }
}

/// The rename was done only where it was called for.
pub open spec fn renamed_when_asked(
    expected: ReplacementTargetIdentity,
    seen: PublishSeen,
) -> bool {
    let before = PublishSeen {
        renamed: None,
        stage_after: None,
        destination_after: None,
        synced: None,
        ..seen
    };
    seen.renamed is Some ==> {
        ||| publish_checks(expected, before) == PublishCheck::Ask(PublishProbe::RenameReplacing)
        ||| publish_checks(expected, before) == PublishCheck::Ask(PublishProbe::RenameNoReplace)
    }
}

/// A publication that is rejected or reported as not published left the target
/// alone, and one that is reported as published, with a known outcome or not,
/// did rename the stage.
pub proof fn law_publications_are_reported_honestly(
    expected: ReplacementTargetIdentity,
    seen: PublishSeen,
)
    requires
        renamed_when_asked(expected, seen),
    ensures
        publish_checks(expected, seen).otherwise(
            ReplaceAndSyncOutcome::Published,
        ) matches Step::Done(outcome) ==> {
            (outcome is Published || outcome is PublishedDurabilityUnknown) <==> (
            seen.renamed matches Some(Ok(_)))
        },
{
}

/// Nothing is published before the stage name has been seen to name the open
/// stage and the destination to be what was confirmed.
pub proof fn law_publications_are_checked(expected: ReplacementTargetIdentity, seen: PublishSeen)
    requires
        publish_checks(expected, seen) == PublishCheck::Ask(PublishProbe::RenameReplacing)
            || publish_checks(expected, seen) == PublishCheck::Ask(PublishProbe::RenameNoReplace),
    ensures
        seen.open_stage matches Some(Ok(stage)) && seen.named_stage == Some(
            Ok::<ExistingReplacementTarget, IoFailure>(stage),
        ) && stage.file_type == FileType::RegularFile && stage.links == 1,
        match expected {
            ReplacementTargetIdentity::Existing(target) => seen.destination == Some(
                Ok::<ExistingReplacementTarget, IoFailure>(target),
            ) && publish_checks(expected, seen) == PublishCheck::Ask(PublishProbe::RenameReplacing),
            ReplacementTargetIdentity::Missing => (seen.destination matches Some(Err(failure))
                && failure.kind == IoErrorKind::NotFound) && publish_checks(expected, seen)
                == PublishCheck::Ask(PublishProbe::RenameNoReplace),
        },
{
}

/// A stage that still has its name, and is a file with no other, is published where the
/// destination is what was confirmed: over the confirmed entry, or under a free name.
pub proof fn law_pinned_stages_are_published(
    expected: ReplacementTargetIdentity,
    seen: PublishSeen,
    stage: ExistingReplacementTarget,
)
    requires
        seen.source_parent == Some(Ok::<(), IoFailure>(())),
        seen.destination_parent == Some(Ok::<(), IoFailure>(())),
        seen.same_parent matches Some(Ok(_)),
        seen.open_stage == Some(Ok::<ExistingReplacementTarget, IoFailure>(stage)),
        seen.named_stage == Some(Ok::<ExistingReplacementTarget, IoFailure>(stage)),
        stage.file_type == FileType::RegularFile,
        stage.links == 1,
        match expected {
            ReplacementTargetIdentity::Existing(target) => seen.destination == Some(
                Ok::<ExistingReplacementTarget, IoFailure>(target),
            ),
            ReplacementTargetIdentity::Missing => seen.destination matches Some(Err(failure))
                && failure.kind == IoErrorKind::NotFound,
        },
    ensures
        seen.renamed is None ==> publish_checks(expected, seen) == PublishCheck::Ask(
            if expected is Missing {
                PublishProbe::RenameNoReplace
            } else {
                PublishProbe::RenameReplacing
            },
        ),
        (seen.renamed matches Some(Ok(_))) && (seen.synced matches Some(Ok(_))) && (
        expected is Missing ==> (seen.stage_after matches Some(Ok(after))
            && seen.destination_after == Some(Ok::<ExistingReplacementTarget, IoFailure>(after))))
            ==> publish_checks(expected, seen).otherwise(ReplaceAndSyncOutcome::Published)
            == PublishStep::Done(ReplaceAndSyncOutcome::Published),
{
}

/// Each end of a publication has its cause: it is rejected where the stage or the
/// destination is not what it was, a failure before the rename was met, and durability
/// is unknown only after a rename.
pub proof fn law_ends_of_publications_have_their_cause(
    expected: ReplacementTargetIdentity,
    seen: PublishSeen,
    outcome: ReplaceAndSyncOutcome,
)
    requires
        publish_checks(expected, seen).otherwise(ReplaceAndSyncOutcome::Published)
            == PublishStep::Done(outcome),
    ensures
        match outcome {
            ReplaceAndSyncOutcome::Published => (seen.renamed matches Some(Ok(_))) && (
            seen.synced matches Some(Ok(_))),
            ReplaceAndSyncOutcome::Rejected => {
                ||| (seen.named_stage matches Some(Err(failure)) && failure.kind
                    == IoErrorKind::NotFound)
                ||| (seen.open_stage matches Some(Ok(stage)) && (seen.named_stage matches Some(
                    Ok(named),
                ) && (named != stage || stage.file_type != FileType::RegularFile || stage.links
                    != 1)))
                ||| (seen.destination matches Some(Ok(target)) && expected
                    != ReplacementTargetIdentity::Existing(target))
                ||| (seen.destination matches Some(Err(failure)) && failure.kind
                    == IoErrorKind::NotFound && expected != ReplacementTargetIdentity::Missing)
                ||| (seen.renamed matches Some(Err(failure)) && failure.kind
                    == IoErrorKind::AlreadyExists && expected is Missing)
            },
            ReplaceAndSyncOutcome::NotPublished(failure) => {
                ||| seen.source_parent == Some(Err::<(), IoFailure>(failure))
                ||| seen.destination_parent == Some(Err::<(), IoFailure>(failure))
                ||| seen.same_parent == Some(Err::<bool, IoFailure>(failure))
                ||| seen.open_stage == Some(Err::<ExistingReplacementTarget, IoFailure>(failure))
                ||| seen.named_stage == Some(Err::<ExistingReplacementTarget, IoFailure>(failure))
                    && failure.kind != IoErrorKind::NotFound
                ||| seen.destination == Some(Err::<ExistingReplacementTarget, IoFailure>(failure))
                    && failure.kind != IoErrorKind::NotFound
                ||| seen.renamed == Some(Err::<(), IoFailure>(failure)) && (failure.kind
                    != IoErrorKind::AlreadyExists || expected is Existing)
            },
            ReplaceAndSyncOutcome::PublishedDurabilityUnknown(failure) => (
            seen.renamed matches Some(Ok(_))) && {
                ||| seen.synced == Some(Err::<(), IoFailure>(failure))
                ||| expected is Missing && failure.kind == IoErrorKind::InvalidData && ((
                seen.stage_after matches Some(Err(_))) || (
                seen.destination_after matches Some(Err(_))) || (
                seen.stage_after matches Some(Ok(after)) && seen.destination_after != Some(
                    Ok::<ExistingReplacementTarget, IoFailure>(after),
                )))
            },
        },
{
}

/// Nothing is looked at or done twice.
pub proof fn law_publications_look_once(
    expected: ReplacementTargetIdentity,
    seen: PublishSeen,
    probe: PublishProbe,
)
    requires
        publish_checks(expected, seen) == PublishCheck::Ask(probe),
    ensures
        match probe {
            PublishProbe::OpenSourceParent => seen.source_parent is None,
            PublishProbe::OpenDestinationParent => seen.destination_parent is None,
            PublishProbe::CompareParents => seen.same_parent is None,
            PublishProbe::StatOpenStage => seen.open_stage is None,
            PublishProbe::StatStageName => seen.named_stage is None,
            PublishProbe::StatDestination => seen.destination is None,
            PublishProbe::RenameReplacing | PublishProbe::RenameNoReplace => seen.renamed is None,
            PublishProbe::StatStageAfterRename => seen.stage_after is None && (
            seen.renamed matches Some(Ok(_))),
            PublishProbe::StatDestinationAfterRename => seen.destination_after is None && (
            seen.renamed matches Some(Ok(_))),
            PublishProbe::SyncParents => seen.synced is None && (seen.renamed matches Some(Ok(_))),
        },
{
}

} // verus!
