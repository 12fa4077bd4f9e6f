//! Moving entries out of sight before they are purged.
use crate::identifiers;
use crate::internal_names;
use crate::internal_names::{
    classify_internal_name, delete_trash_name, quarantine_name, InternalEntryName,
};
use crate::io_error::{IoErrorKind, IoFailure};
use crate::paths::LexicalPath;
use crate::rooted_fs::identity;
use crate::rooted_fs::identity::{
    DeleteIdentity, ExistingReplacementTarget, ReplacementTargetIdentity,
};
use crate::rooted_fs::names;
use crate::rooted_fs::names::relative_path;
use crate::steps;
use crate::steps::{Check, Step};
use crate::text;
use crate::text::{bytes_eq, utf8_text};
use vstd::prelude::*;
use vstd::string::*;
use vstd::utf8::*;

verus! {

/// How a move to the trash ended. The intent to delete may be dropped only where
/// the target changed or was not moved.
#[derive(Clone, Copy)]
pub enum CheckedTrashMove {
    Moved { identity: DeleteIdentity, revision: [u8; 32] },
    TargetChanged,
    NotMoved(IoFailure),
    DurabilityUnknown(IoFailure),
}

/// What a move to the trash looks at or does next.
#[derive(Clone, Copy, Debug, Eq, PartialEq, Structural)]
pub enum TrashProbe {
    OpenParent,
    StatTarget,
    OpenAnchor,
    StatAnchor,
    StatTargetAgain,
    /// Rename the target to its trash name, and fail where that exists.
    RenameNoReplace,
    /// After a failed rename: what the target's name leads to.
    StatTargetAfterFailure,
    /// After a failed rename: what the trash name leads to.
    StatTrashAfterFailure,
    StatAnchorAfterRename,
    StatTrashAfterRename,
    SyncParent,
}

/// What a move to the trash has seen so far.
#[derive(Clone, Copy)]
pub struct TrashSeen {
    pub parent: Option<Result<(), IoFailure>>,
    pub target: Option<Result<ExistingReplacementTarget, IoFailure>>,
    pub anchor_opened: Option<Result<(), IoFailure>>,
    pub anchor: Option<Result<ExistingReplacementTarget, IoFailure>>,
    pub target_again: Option<Result<ExistingReplacementTarget, IoFailure>>,
    pub renamed: Option<Result<(), IoFailure>>,
    pub target_after_failure: Option<Result<ExistingReplacementTarget, IoFailure>>,
    pub trash_after_failure: Option<Result<ExistingReplacementTarget, IoFailure>>,
    pub anchor_after: Option<Result<ExistingReplacementTarget, IoFailure>>,
    pub trash_after: Option<Result<ExistingReplacementTarget, IoFailure>>,
    pub synced: Option<Result<(), IoFailure>>,
}

impl TrashSeen {
    pub fn new() -> (seen: TrashSeen)
        ensures
            seen == (TrashSeen {
                parent: None,
                target: None,
                anchor_opened: None,
                anchor: None,
                target_again: None,
                renamed: None,
                target_after_failure: None,
                trash_after_failure: None,
                anchor_after: None,
                trash_after: None,
                synced: None,
            }),
    {
        TrashSeen {
            parent: None,
            target: None,
            anchor_opened: None,
            anchor: None,
            target_again: None,
            renamed: None,
            target_after_failure: None,
            trash_after_failure: None,
            anchor_after: None,
            trash_after: None,
            synced: None,
        }
    }
}

/// A verdict on a move, without the revision that only a finished move has.
#[derive(Clone, Copy, Debug, Eq, PartialEq, Structural)]
pub enum TrashVerdict {
    Moved(ExistingReplacementTarget),
    TargetChanged,
    NotMoved(IoFailure),
    DurabilityUnknown(IoFailure),
}

pub type TrashCheck = Check<TrashProbe, TrashVerdict>;

pub type TrashStep = Step<TrashProbe, TrashVerdict>;

/// A look at the target before the rename: where it is gone, it has changed.
pub open spec fn target_reached<T>(
    seen: Option<Result<T, IoFailure>>,
    probe: TrashProbe,
) -> TrashCheck {
    match seen {
        None => Check::Ask(probe),
        Some(Ok(_)) => Check::Pass,
        Some(Err(failure)) => Check::Stop(
            if failure.missing() {
                TrashVerdict::TargetChanged
            } else {
                TrashVerdict::NotMoved(failure)
            },
        ),
    }
}

fn next_reached<T>(seen: &Option<Result<T, IoFailure>>, probe: TrashProbe) -> (check: TrashCheck)
    ensures
        check == target_reached(*seen, probe),
{
    match seen {
        None => Check::Ask(probe),
        Some(Ok(_)) => Check::Pass,
        Some(Err(failure)) => Check::Stop(
            if failure.is_missing() {
                TrashVerdict::TargetChanged
            } else {
                TrashVerdict::NotMoved(*failure)
            },
        ),
    }
}

/// The target is the one that the deletion is about and, where a revision was
/// confirmed, unchanged since.
pub open spec fn is_the_target(
    target: ExistingReplacementTarget,
    expected: DeleteIdentity,
    expected_revision: Option<ReplacementTargetIdentity>,
) -> bool {
    &&& target.as_deleted() == expected
    &&& expected_revision matches Some(revision) ==> revision
        == ReplacementTargetIdentity::Existing(target)
}

/// Only the very target under its own name, together with a trash name that
/// was looked at and leads elsewhere, shows that a failed rename moved nothing:
/// some filesystems finish a rename and still report a failure.
pub open spec fn failed_rename_moved_nothing(
    target: Result<ExistingReplacementTarget, IoFailure>,
    trash: Result<ExistingReplacementTarget, IoFailure>,
    expected: DeleteIdentity,
) -> bool {
    &&& target matches Ok(found) && found.as_deleted() == expected
    &&& match trash {
        Ok(found) => found.as_deleted() != expected,
        Err(failure) => failure.kind == IoErrorKind::NotFound,
    }
}

/// Tells whether a failed rename moved nothing.
pub fn classify_failed_checked_trash_rename(
    target: Result<ExistingReplacementTarget, IoFailure>,
    trash: Result<ExistingReplacementTarget, IoFailure>,
    expected: DeleteIdentity,
    rename_error: IoFailure,
) -> (verdict: TrashVerdict)
    ensures
        verdict == (if failed_rename_moved_nothing(target, trash, expected) {
            TrashVerdict::NotMoved(rename_error)
        } else {
            TrashVerdict::DurabilityUnknown(rename_error)
        }),
{
    let target_stays = match target {
        Ok(found) => found.delete_identity_from_stat() == expected,
        Err(_) => false,
    };
    let trash_differs = match trash {
        Ok(found) => found.delete_identity_from_stat() != expected,
        Err(failure) => failure.kind == IoErrorKind::NotFound,
    };
    if target_stays && trash_differs {
        TrashVerdict::NotMoved(rename_error)
    } else {
        TrashVerdict::DurabilityUnknown(rename_error)
    }
}

pub open spec fn target_renamed(seen: TrashSeen, expected: DeleteIdentity) -> TrashCheck {
    match seen.renamed {
        None => Check::Ask(TrashProbe::RenameNoReplace),
        Some(Ok(_)) => Check::Pass,
        Some(Err(failure)) => match (seen.target_after_failure, seen.trash_after_failure) {
            (None, _) => Check::Ask(TrashProbe::StatTargetAfterFailure),
            (Some(_), None) => Check::Ask(TrashProbe::StatTrashAfterFailure),
            (Some(target), Some(trash)) => Check::Stop(
                if failed_rename_moved_nothing(target, trash, expected) {
                    TrashVerdict::NotMoved(failure)
                } else {
                    TrashVerdict::DurabilityUnknown(failure)
                },
            ),
        },
    }
}

/// What was moved cannot be told to be the target. The rename happened, so it is
/// made durable before the outcome is reported as unknown.
pub open spec fn moved_unknown(seen: TrashSeen) -> TrashCheck {
    if seen.synced is None {
        Check::Ask(TrashProbe::SyncParent)
    } else {
        Check::Stop(
            TrashVerdict::DurabilityUnknown(
                IoFailure { kind: IoErrorKind::InvalidData, number: None },
            ),
        )
    }
}

/// After the rename, the trash name must lead to the target, which is pinned.
pub open spec fn moved_entry_is_the_target(
    seen: TrashSeen,
    expected: DeleteIdentity,
) -> TrashCheck {
    match (seen.anchor_after, seen.trash_after) {
        (None, _) => Check::Ask(TrashProbe::StatAnchorAfterRename),
        (Some(Err(_)), _) => moved_unknown(seen),
        (Some(Ok(_)), None) => Check::Ask(TrashProbe::StatTrashAfterRename),
        (Some(Ok(_)), Some(Err(_))) => moved_unknown(seen),
        (Some(Ok(anchor)), Some(Ok(moved))) => if moved.as_deleted() != expected || moved
            != anchor {
            moved_unknown(seen)
        } else {
            Check::Pass
        },
    }
}

pub open spec fn move_is_durable(seen: TrashSeen) -> TrashCheck {
    match seen.synced {
        None => Check::Ask(TrashProbe::SyncParent),
        Some(Ok(_)) => Check::Pass,
        Some(Err(failure)) => Check::Stop(TrashVerdict::DurabilityUnknown(failure)),
    }
}

/// The checks of a move to the trash, in order.
pub open spec fn trash_checks(
    expected: DeleteIdentity,
    expected_revision: Option<ReplacementTargetIdentity>,
    seen: TrashSeen,
) -> TrashCheck {
    let target = seen.target->0->Ok_0;
    target_reached(seen.parent, TrashProbe::OpenParent).followed_by(
        target_reached(seen.target, TrashProbe::StatTarget),
    ).followed_by(
        steps::stop_if(
            !is_the_target(target, expected, expected_revision),
            TrashVerdict::TargetChanged,
        ),
    ).followed_by(target_reached(seen.anchor_opened, TrashProbe::OpenAnchor)).followed_by(
        match seen.anchor {
            None => Check::Ask(TrashProbe::StatAnchor),
            Some(Ok(_)) => Check::Pass,
            Some(Err(failure)) => Check::Stop(TrashVerdict::NotMoved(failure)),
        },
    ).followed_by(target_reached(seen.target_again, TrashProbe::StatTargetAgain)).followed_by(
        steps::stop_if(
            seen.anchor->0->Ok_0 != target || seen.target_again->0->Ok_0 != target,
            TrashVerdict::TargetChanged,
        ),
    ).followed_by(target_renamed(seen, expected)).followed_by(
        moved_entry_is_the_target(seen, expected),
    ).followed_by(move_is_durable(seen))
}

fn next_renamed(seen: &TrashSeen, expected: DeleteIdentity) -> (check: TrashCheck)
    ensures
        check == target_renamed(*seen, expected),
{
    let failure = match seen.renamed {
        None => return Check::Ask(TrashProbe::RenameNoReplace),
        Some(Ok(_)) => return Check::Pass,
        Some(Err(failure)) => failure,
    };
    match (seen.target_after_failure, seen.trash_after_failure) {
        (None, _) => Check::Ask(TrashProbe::StatTargetAfterFailure),
        (Some(_), None) => Check::Ask(TrashProbe::StatTrashAfterFailure),
        (Some(target), Some(trash)) => Check::Stop(
            classify_failed_checked_trash_rename(target, trash, expected, failure),
        ),
    }
}

fn next_unknown(seen: &TrashSeen) -> (check: TrashCheck)
    ensures
        check == moved_unknown(*seen),
{
    if seen.synced.is_none() {
        Check::Ask(TrashProbe::SyncParent)
    } else {
        Check::Stop(
            TrashVerdict::DurabilityUnknown(IoFailure::of_kind(IoErrorKind::InvalidData)),
        )
    }
}

fn next_moved(seen: &TrashSeen, expected: DeleteIdentity) -> (check: TrashCheck)
    ensures
        check == moved_entry_is_the_target(*seen, expected),
{
    let anchor = match seen.anchor_after {
        None => return Check::Ask(TrashProbe::StatAnchorAfterRename),
        Some(Err(_)) => return next_unknown(seen),
        Some(Ok(anchor)) => anchor,
    };
    match seen.trash_after {
        None => Check::Ask(TrashProbe::StatTrashAfterRename),
        Some(Err(_)) => next_unknown(seen),
        Some(Ok(moved)) => {
            if moved.delete_identity_from_stat() != expected || moved != anchor {
                next_unknown(seen)
            } else {
                Check::Pass
            }
        },
    }
}

/// Decides a move to the trash: what to look at or do next, or how it ended.
pub fn move_to_trash_with_expected_identity_outcome(
    expected: DeleteIdentity,
    expected_revision: Option<ReplacementTargetIdentity>,
    seen: &TrashSeen,
) -> (step: TrashStep)
    ensures
        step == trash_checks(expected, expected_revision, *seen).otherwise(
            TrashVerdict::Moved(seen.anchor_after->0->Ok_0),
        ),
{
    if let Err(step) = next_reached(&seen.parent, TrashProbe::OpenParent).settle() {
        return step;
    }
    if let Err(step) = next_reached(&seen.target, TrashProbe::StatTarget).settle() {
        return step;
    }
    let target = match seen.target {
        Some(Ok(target)) => target,
        _ => return Step::Done(TrashVerdict::TargetChanged),
    };
    let revision_differs = match expected_revision {
        Some(revision) => revision != ReplacementTargetIdentity::Existing(target),
        None => false,
    };
    if target.delete_identity_from_stat() != expected || revision_differs {
        return Step::Done(TrashVerdict::TargetChanged);
    }
    if let Err(step) = next_reached(&seen.anchor_opened, TrashProbe::OpenAnchor).settle() {
        return step;
    }
    let anchor = match seen.anchor {
        None => return Step::Ask(TrashProbe::StatAnchor),
        Some(Err(failure)) => return Step::Done(TrashVerdict::NotMoved(failure)),
        Some(Ok(anchor)) => anchor,
    };
    if let Err(step) = next_reached(&seen.target_again, TrashProbe::StatTargetAgain).settle() {
        return step;
    }
    if let Some(Ok(again)) = seen.target_again {
        if anchor != target || again != anchor {
            return Step::Done(TrashVerdict::TargetChanged);
        }
    }
    if let Err(step) = next_renamed(seen, expected).settle() {
        return step;
    }
    if let Err(step) = next_moved(seen, expected).settle() {
        return step;
    }
    match (seen.synced, seen.anchor_after) {
        (Some(Ok(_)), Some(Ok(moved))) => Step::Done(TrashVerdict::Moved(moved)),
        (Some(Err(failure)), _) => Step::Done(TrashVerdict::DurabilityUnknown(failure)),
        _ => Step::Ask(TrashProbe::SyncParent),
    }
}

/// The outcome of a verdict. A moved entry gets the revision that binds it to
/// the record of its deletion.
pub fn trash_outcome(verdict: TrashVerdict) -> (outcome: CheckedTrashMove)
    ensures
        match verdict {
            TrashVerdict::Moved(moved) => outcome matches CheckedTrashMove::Moved {
                identity,
                revision,
            } && identity == moved.as_deleted() && revision@ == identifiers::sha256(
                identity::purge_revision_domain() + identity::revision_input(
                    ReplacementTargetIdentity::Existing(moved),
                ),
            ),
            TrashVerdict::TargetChanged => outcome is TargetChanged,
            TrashVerdict::NotMoved(failure) => outcome == CheckedTrashMove::NotMoved(failure),
            TrashVerdict::DurabilityUnknown(failure) => outcome
                == CheckedTrashMove::DurabilityUnknown(failure),
        },
{
    match verdict {
        TrashVerdict::Moved(moved) => CheckedTrashMove::Moved {
            identity: moved.delete_identity_from_stat(),
            revision: ReplacementTargetIdentity::Existing(moved).purge_revision(),
        },
        TrashVerdict::TargetChanged => CheckedTrashMove::TargetChanged,
        TrashVerdict::NotMoved(failure) => CheckedTrashMove::NotMoved(failure),
        TrashVerdict::DurabilityUnknown(failure) => CheckedTrashMove::DurabilityUnknown(failure),
    }
}

/// The rename was done only where it was called for.
pub open spec fn renamed_when_asked(
    expected: DeleteIdentity,
    expected_revision: Option<ReplacementTargetIdentity>,
    seen: TrashSeen,
) -> bool {
    let before = TrashSeen {
        renamed: None,
        target_after_failure: None,
        trash_after_failure: None,
        anchor_after: None,
        trash_after: None,
        synced: None,
        ..seen
    };
    seen.renamed is Some ==> trash_checks(expected, expected_revision, before) == TrashCheck::Ask(
        TrashProbe::RenameNoReplace,
    )
}

/// The intent to delete may be dropped where the target changed or was not
/// moved: then no rename was tried, or the one that was tried failed and the
/// target was seen to be still under its own name and not under the trash name.
pub proof fn law_dropped_intents_moved_nothing(
    expected: DeleteIdentity,
    expected_revision: Option<ReplacementTargetIdentity>,
    seen: TrashSeen,
    moved: ExistingReplacementTarget,
)
    requires
        renamed_when_asked(expected, expected_revision, seen),
        trash_checks(expected, expected_revision, seen).otherwise(
            TrashVerdict::Moved(moved),
        ) matches Step::Done(verdict) && (verdict is TargetChanged || verdict is NotMoved),
    ensures
        seen.renamed is None || ((seen.renamed matches Some(Err(_))) && (
        seen.target_after_failure matches Some(target) && (seen.trash_after_failure matches Some(
            trash,
        ) && failed_rename_moved_nothing(target, trash, expected)))),
{
}

/// A move is reported only where the rename succeeded, the trash name leads to
/// the pinned target, and the rename is durable.
pub proof fn law_reported_moves_happened(
    expected: DeleteIdentity,
    expected_revision: Option<ReplacementTargetIdentity>,
    seen: TrashSeen,
    moved: ExistingReplacementTarget,
)
    requires
        trash_checks(expected, expected_revision, seen) is Pass,
    ensures
        seen.renamed matches Some(Ok(_)),
        seen.synced matches Some(Ok(_)),
        seen.trash_after matches Some(Ok(found)) && found.as_deleted() == expected,
        seen.trash_after == seen.anchor_after,
{
}

/// The path that a target is moved to: beside it, under its trash name.
pub fn trash_path_for_id(root: &LexicalPath, path: &LexicalPath, trash_id: u128) -> (trash: Result<
    LexicalPath,
    IoFailure,
>)
    ensures
        trash is Ok <==> text::has_prefix(path@, root@) && path@.len() > root@.len()
            && names::all_normal(names::below(root@, path@)),
        trash matches Ok(trash) ==> trash@ == path@.drop_last().push(
            encode_utf8(
                ".dufs-upload-delete-"@ + identifiers::hyphenated(trash_id) + ".trash"@,
            ),
        ),
{
    if let Err(failure) = relative_path(root, path) {
        return Err(failure);
    }
    match path.parent() {
        Some(parent) => {
            let name = delete_trash_name(trash_id);
            Ok(parent.child(name.as_str().as_bytes()))
        },
        None => Err(IoFailure::of_kind(IoErrorKind::InvalidInput)),
    }
}

/// What the capture of an entry for purging looks at next.
#[derive(Clone, Copy, Debug, Eq, PartialEq, Structural)]
pub enum CaptureProbe {
    OpenParent,
    OpenAnchor,
    StatAnchor,
    StatName,
}

/// What the capture of an entry for purging has seen so far.
#[derive(Clone, Copy)]
pub struct CaptureSeen {
    pub parent: Option<Result<(), IoFailure>>,
    pub anchor_opened: Option<Result<(), IoFailure>>,
    pub anchor: Option<Result<ExistingReplacementTarget, IoFailure>>,
    pub named: Option<Result<ExistingReplacementTarget, IoFailure>>,
}

/// The end of a capture: the pinned entry, or nothing where there is none.
pub type CaptureResult = Result<Option<ExistingReplacementTarget>, IoFailure>;

pub type CaptureCheck = Check<CaptureProbe, CaptureResult>;

pub type CaptureStep = Step<CaptureProbe, CaptureResult>;

pub open spec fn invalid_data() -> IoFailure {
    IoFailure { kind: IoErrorKind::InvalidData, number: None }
}

pub open spec fn entry_reached<T>(
    seen: Option<Result<T, IoFailure>>,
    probe: CaptureProbe,
) -> CaptureCheck {
    match seen {
        None => Check::Ask(probe),
        Some(Ok(_)) => Check::Pass,
        Some(Err(failure)) => if failure.kind == IoErrorKind::NotFound {
            Check::Stop(Ok(None))
        } else {
            Check::Stop(Err(failure))
        },
    }
}

fn next_entry<T>(seen: &Option<Result<T, IoFailure>>, probe: CaptureProbe) -> (check: CaptureCheck)
    ensures
        check == entry_reached(*seen, probe),
{
    match seen {
        None => Check::Ask(probe),
        Some(Ok(_)) => Check::Pass,
        Some(Err(failure)) => {
            if failure.kind == IoErrorKind::NotFound {
                Check::Stop(Ok(None))
            } else {
                Check::Stop(Err(*failure))
            }
        },
    }
}

/// The revision that a purge of an entry is bound to.
pub open spec fn revision_of(entry: ExistingReplacementTarget) -> Seq<u8> {
    identifiers::sha256(
        identity::purge_revision_domain() + identity::revision_input(
            ReplacementTargetIdentity::Existing(entry),
        ),
    )
}

/// The checks of a capture, in order. The entry must be the same when it is
/// opened and when it is named, and have the type and the revision that were
/// recorded, where they were.
pub open spec fn capture_checks(
    expected_directory: Option<bool>,
    expected_revision: Option<[u8; 32]>,
    seen: CaptureSeen,
) -> CaptureCheck {
    let entry = seen.anchor->0->Ok_0;
    let parent: CaptureCheck = match seen.parent {
        None => Check::Ask(CaptureProbe::OpenParent),
        Some(Ok(_)) => Check::Pass,
        Some(Err(failure)) => if failure.missing() {
            Check::Stop(Ok(None))
        } else {
            Check::Stop(Err(failure))
        },
    };
    let pinned: CaptureCheck = match seen.anchor {
        None => Check::Ask(CaptureProbe::StatAnchor),
        Some(Ok(_)) => Check::Pass,
        Some(Err(failure)) => Check::Stop(Err(failure)),
    };
    parent.followed_by(
        entry_reached(seen.anchor_opened, CaptureProbe::OpenAnchor),
    ).followed_by(pinned).followed_by(
        entry_reached(seen.named, CaptureProbe::StatName),
    ).followed_by(
        steps::stop_if(seen.named->0->Ok_0 != entry, Err(invalid_data())),
    ).followed_by(
        steps::stop_if(
            expected_directory is Some && expected_directory->0 != entry.as_deleted().is_directory,
            Err(invalid_data()),
        ),
    ).followed_by(
        steps::stop_if(
            expected_revision is Some && expected_revision->0@ != revision_of(entry),
            Err(invalid_data()),
        ),
    )
}

/// Decides the capture of an entry for purging.
pub fn capture_entry_for_purge_with_type(
    expected_directory: Option<bool>,
    expected_revision: Option<[u8; 32]>,
    seen: &CaptureSeen,
) -> (step: CaptureStep)
    ensures
        step == capture_checks(expected_directory, expected_revision, *seen).otherwise(
            Ok(Some(seen.anchor->0->Ok_0)),
        ),
{
    match seen.parent {
        None => return Step::Ask(CaptureProbe::OpenParent),
        Some(Ok(_)) => {},
        Some(Err(failure)) => {
            if failure.is_missing() {
                return Step::Done(Ok(None));
            }
            return Step::Done(Err(failure));
        },
    }
    if let Err(step) = next_entry(&seen.anchor_opened, CaptureProbe::OpenAnchor).settle() {
        return step;
    }
    let entry = match seen.anchor {
        None => return Step::Ask(CaptureProbe::StatAnchor),
        Some(Err(failure)) => return Step::Done(Err(failure)),
        Some(Ok(entry)) => entry,
    };
    if let Err(step) = next_entry(&seen.named, CaptureProbe::StatName).settle() {
        return step;
    }
    if let Some(Ok(named)) = seen.named {
        if named != entry {
            return Step::Done(Err(IoFailure::of_kind(IoErrorKind::InvalidData)));
        }
    }
    if let Some(directory) = expected_directory {
        if directory != entry.delete_identity_from_stat().is_directory {
            return Step::Done(Err(IoFailure::of_kind(IoErrorKind::InvalidData)));
        }
    }
    if let Some(revision) = expected_revision {
        let current = ReplacementTargetIdentity::Existing(entry).purge_revision();
        if !bytes_eq(&revision, &current) {
            return Step::Done(Err(IoFailure::of_kind(IoErrorKind::InvalidData)));
        }
    }
    Step::Done(Ok(Some(entry)))
}

/// How often a quarantine name is tried.
pub const QUARANTINE_ATTEMPTS: u32 = 16;

/// What a quarantine does next.
#[derive(Clone, Copy, Debug, Eq, PartialEq, Structural)]
pub enum QuarantineStep {
    /// Rename to a fresh quarantine name, and fail where it exists.
    Try,
    /// The entry is under its quarantine name; make that durable.
    Sync,
    /// There is nothing to quarantine.
    Nothing,
    Fail(IoFailure),
}

/// Whether a path names a trash entry, which alone can be quarantined.
pub fn can_be_quarantined(path: &LexicalPath) -> (result: bool)
    ensures
        result == (path@.len() > 0 && valid_utf8(path@.last()) && internal_names::internal_kind(
            decode_utf8(path@.last()),
        ) == Some(InternalEntryName::DeleteTrash)),
{
    match path.file_name() {
        Some(name) => match utf8_text(name.as_slice()) {
            Some(name) => match classify_internal_name(name.as_str()) {
                Some(InternalEntryName::DeleteTrash) => true,
                _ => false,
            },
            None => false,
        },
        None => false,
    }
}

/// What a quarantine does after a number of tries, the last of which ended so.
pub open spec fn quarantining(tries: u32, result: Result<(), IoFailure>) -> QuarantineStep {
    match result {
        Ok(_) => QuarantineStep::Sync,
        Err(failure) => if failure.kind == IoErrorKind::AlreadyExists {
            if tries < QUARANTINE_ATTEMPTS {
                QuarantineStep::Try
            } else {
                QuarantineStep::Fail(IoFailure { kind: IoErrorKind::AlreadyExists, number: None })
            }
        } else if failure.missing() {
            QuarantineStep::Nothing
        } else {
            QuarantineStep::Fail(failure)
        },
    }
}

/// Decides what a quarantine does after a try.
pub fn quarantine_after(tries: u32, result: Result<(), IoFailure>) -> (step: QuarantineStep)
    ensures
        step == quarantining(tries, result),
{
    match result {
        Ok(_) => QuarantineStep::Sync,
        Err(failure) => {
            if failure.kind == IoErrorKind::AlreadyExists {
                if tries < QUARANTINE_ATTEMPTS {
                    QuarantineStep::Try
                } else {
                    QuarantineStep::Fail(IoFailure::of_kind(IoErrorKind::AlreadyExists))
                }
            } else if failure.is_missing() {
                QuarantineStep::Nothing
            } else {
                QuarantineStep::Fail(failure)
            }
        },
    }
}

/// The path of an entry under a quarantine name.
pub fn quarantine_path(path: &LexicalPath, quarantine_id: u128) -> (quarantined: Option<LexicalPath>)
    ensures
        quarantined is Some <==> path@.len() > 0,
        quarantined matches Some(quarantined) ==> quarantined@ == path@.drop_last().push(
            encode_utf8(
                ".dufs-quarantine-"@ + identifiers::hyphenated(quarantine_id) + ".hold"@,
            ),
        ),
{
    match path.parent() {
        Some(parent) => {
            let name = quarantine_name(quarantine_id);
            Some(parent.child(name.as_str().as_bytes()))
        },
        None => None,
    }
}

/// A target that is the one to delete, and the same each time that it is looked at, is
/// moved to the trash.
pub proof fn law_unchanged_targets_are_moved(
    target: ExistingReplacementTarget,
    expected_revision: Option<ReplacementTargetIdentity>,
    seen: TrashSeen,
)
    requires
        expected_revision is None || expected_revision == Some(
            ReplacementTargetIdentity::Existing(target),
        ),
        seen.parent == Some(Ok::<(), IoFailure>(())),
        seen.target == Some(Ok::<ExistingReplacementTarget, IoFailure>(target)),
        seen.anchor_opened == Some(Ok::<(), IoFailure>(())),
        seen.anchor == Some(Ok::<ExistingReplacementTarget, IoFailure>(target)),
        seen.target_again == Some(Ok::<ExistingReplacementTarget, IoFailure>(target)),
    ensures
        seen.renamed is None ==> trash_checks(target.as_deleted(), expected_revision, seen)
            == TrashCheck::Ask(TrashProbe::RenameNoReplace),
        forall|moved: ExistingReplacementTarget|
            seen.renamed == Some(Ok::<(), IoFailure>(())) && seen.anchor_after == Some(
                Ok::<ExistingReplacementTarget, IoFailure>(moved),
            ) && seen.trash_after == Some(Ok::<ExistingReplacementTarget, IoFailure>(moved))
                && moved.device == target.device && moved.inode == target.inode && moved.file_type
                == target.file_type && seen.synced == Some(Ok::<(), IoFailure>(()))
                ==> #[trigger] trash_checks(
                target.as_deleted(),
                expected_revision,
                seen,
            ).otherwise(TrashVerdict::Moved(moved)) == TrashStep::Done(TrashVerdict::Moved(moved)),
{
}

/// Each end of a move to the trash has its cause: a changed target was gone, was another
/// or had another revision, a target that was not moved met the failure, and what became
/// of it is unknown only once a rename was tried.
pub proof fn law_ends_of_moves_have_their_cause(
    expected: DeleteIdentity,
    expected_revision: Option<ReplacementTargetIdentity>,
    seen: TrashSeen,
    verdict: TrashVerdict,
)
    requires
        trash_checks(expected, expected_revision, seen) == TrashCheck::Stop(verdict),
    ensures
        match verdict {
            TrashVerdict::Moved(_) => false,
            TrashVerdict::TargetChanged => {
                ||| (seen.parent matches Some(Err(failure)) && failure.missing())
                ||| (seen.target matches Some(Err(failure)) && failure.missing())
                ||| (seen.target matches Some(Ok(target)) && target.as_deleted() != expected)
                ||| (seen.target matches Some(Ok(target)) && expected_revision is Some
                    && expected_revision != Some(ReplacementTargetIdentity::Existing(target)))
                ||| (seen.anchor_opened matches Some(Err(failure)) && failure.missing())
                ||| (seen.target_again matches Some(Err(failure)) && failure.missing())
                ||| ((seen.anchor matches Some(Ok(_))) && seen.anchor != seen.target)
                ||| ((seen.target_again matches Some(Ok(_))) && seen.target_again != seen.target)
            },
            TrashVerdict::NotMoved(failure) => {
                ||| seen.parent == Some(Err::<(), IoFailure>(failure)) && !failure.missing()
                ||| seen.target == Some(Err::<ExistingReplacementTarget, IoFailure>(failure))
                    && !failure.missing()
                ||| seen.anchor_opened == Some(Err::<(), IoFailure>(failure)) && !failure.missing()
                ||| seen.anchor == Some(Err::<ExistingReplacementTarget, IoFailure>(failure))
                ||| seen.target_again == Some(Err::<ExistingReplacementTarget, IoFailure>(failure))
                    && !failure.missing()
                ||| seen.renamed == Some(Err::<(), IoFailure>(failure))
            },
            TrashVerdict::DurabilityUnknown(failure) => {
                ||| seen.renamed == Some(Err::<(), IoFailure>(failure))
                ||| (seen.renamed matches Some(Ok(_))) && seen.synced == Some(
                    Err::<(), IoFailure>(failure),
                )
                ||| (seen.renamed matches Some(Ok(_))) && failure.kind == IoErrorKind::InvalidData
                    && ((seen.anchor_after matches Some(Err(_))) || (
                seen.trash_after matches Some(Err(_))) || ((seen.trash_after matches Some(Ok(_)))
                    && seen.trash_after != seen.anchor_after) || (seen.trash_after matches Some(
                    Ok(moved),
                ) && moved.as_deleted() != expected))
            },
        },
{
}

/// A failed rename counts as having moved nothing just where the target is still under
/// its own name and the trash name leads nowhere or to another entry.
pub proof fn law_failed_renames_are_told_apart(
    target: Result<ExistingReplacementTarget, IoFailure>,
    trash: Result<ExistingReplacementTarget, IoFailure>,
    expected: DeleteIdentity,
)
    ensures
        target is Err ==> !failed_rename_moved_nothing(target, trash, expected),
        (target matches Ok(found) && found.as_deleted() != expected)
            ==> !failed_rename_moved_nothing(target, trash, expected),
        (trash matches Ok(found) && found.as_deleted() == expected)
            ==> !failed_rename_moved_nothing(target, trash, expected),
        (trash matches Err(failure) && failure.kind != IoErrorKind::NotFound)
            ==> !failed_rename_moved_nothing(target, trash, expected),
        (target matches Ok(found) && found.as_deleted() == expected) && (trash matches Err(failure)
            && failure.kind == IoErrorKind::NotFound) ==> failed_rename_moved_nothing(
            target,
            trash,
            expected,
        ),
        (target matches Ok(found) && found.as_deleted() == expected) && (trash matches Ok(other)
            && other.as_deleted() != expected) ==> failed_rename_moved_nothing(
            target,
            trash,
            expected,
        ),
{
}

/// Nothing is looked at or done twice. The names are looked at again only after a rename
/// that failed, and the move is made durable only after one that succeeded.
pub proof fn law_moves_look_once(
    expected: DeleteIdentity,
    expected_revision: Option<ReplacementTargetIdentity>,
    seen: TrashSeen,
    probe: TrashProbe,
)
    requires
        trash_checks(expected, expected_revision, seen) == TrashCheck::Ask(probe),
    ensures
        match probe {
            TrashProbe::OpenParent => seen.parent is None,
            TrashProbe::StatTarget => seen.target is None,
            TrashProbe::OpenAnchor => seen.anchor_opened is None,
            TrashProbe::StatAnchor => seen.anchor is None,
            TrashProbe::StatTargetAgain => seen.target_again is None,
            TrashProbe::RenameNoReplace => seen.renamed is None,
            TrashProbe::StatTargetAfterFailure => seen.target_after_failure is None && (
            seen.renamed matches Some(Err(_))),
            TrashProbe::StatTrashAfterFailure => seen.trash_after_failure is None && (
            seen.renamed matches Some(Err(_))),
            TrashProbe::StatAnchorAfterRename => seen.anchor_after is None && (
            seen.renamed matches Some(Ok(_))),
            TrashProbe::StatTrashAfterRename => seen.trash_after is None && (
            seen.renamed matches Some(Ok(_))),
            TrashProbe::SyncParent => seen.synced is None && (seen.renamed matches Some(Ok(_))),
        },
{
}

/// An entry that is the same when it is opened and when it is named, and has the type
/// and the revision that were recorded, is captured for purging.
pub proof fn law_recorded_entries_are_captured(
    expected_directory: Option<bool>,
    expected_revision: Option<[u8; 32]>,
    seen: CaptureSeen,
    entry: ExistingReplacementTarget,
)
    requires
        seen.parent == Some(Ok::<(), IoFailure>(())),
        seen.anchor_opened == Some(Ok::<(), IoFailure>(())),
        seen.anchor == Some(Ok::<ExistingReplacementTarget, IoFailure>(entry)),
        seen.named == Some(Ok::<ExistingReplacementTarget, IoFailure>(entry)),
        expected_directory matches Some(directory) ==> directory
            == entry.as_deleted().is_directory,
        expected_revision matches Some(revision) ==> revision@ == revision_of(entry),
    ensures
        capture_checks(expected_directory, expected_revision, seen).otherwise(
            Ok(Some(entry)),
        ) == CaptureStep::Done(Ok(Some(entry))),
{
}

/// Each other end of a capture has its cause: there is nothing to purge where the entry
/// is gone, and what is refused was another entry than the recorded one.
pub proof fn law_ends_of_captures_have_their_cause(
    expected_directory: Option<bool>,
    expected_revision: Option<[u8; 32]>,
    seen: CaptureSeen,
    ended: CaptureResult,
)
    requires
        capture_checks(expected_directory, expected_revision, seen) == CaptureCheck::Stop(ended),
    ensures
        match ended {
            Ok(Some(_)) => false,
            Ok(None) => {
                ||| (seen.parent matches Some(Err(failure)) && failure.missing())
                ||| (seen.anchor_opened matches Some(Err(failure)) && failure.kind
                    == IoErrorKind::NotFound)
                ||| (seen.named matches Some(Err(failure)) && failure.kind == IoErrorKind::NotFound)
            },
            Err(failure) => {
                ||| seen.parent == Some(Err::<(), IoFailure>(failure)) && !failure.missing()
                ||| seen.anchor_opened == Some(Err::<(), IoFailure>(failure)) && failure.kind
                    != IoErrorKind::NotFound
                ||| seen.anchor == Some(Err::<ExistingReplacementTarget, IoFailure>(failure))
                ||| seen.named == Some(Err::<ExistingReplacementTarget, IoFailure>(failure))
                    && failure.kind != IoErrorKind::NotFound
                ||| failure.kind == IoErrorKind::InvalidData && (seen.anchor matches Some(Ok(entry))
                    && ((seen.named is Some && seen.named != seen.anchor) || (
                expected_directory matches Some(directory) && directory
                    != entry.as_deleted().is_directory) || (expected_revision matches Some(revision)
                    && revision@ != revision_of(entry))))
            },
        },
{
}

/// A capture looks at nothing twice.
pub proof fn law_captures_look_once(
    expected_directory: Option<bool>,
    expected_revision: Option<[u8; 32]>,
    seen: CaptureSeen,
    probe: CaptureProbe,
)
    requires
        capture_checks(expected_directory, expected_revision, seen) == CaptureCheck::Ask(probe),
    ensures
        match probe {
            CaptureProbe::OpenParent => seen.parent is None,
            CaptureProbe::OpenAnchor => seen.anchor_opened is None,
            CaptureProbe::StatAnchor => seen.anchor is None,
            CaptureProbe::StatName => seen.named is None,
        },
{
}

/// A quarantine tries another name just where the one it tried was taken, and sixteen
/// names at most. It ends in quarantine just where the rename succeeded, with nothing to
/// do where the entry is gone, and else with the failure.
pub proof fn law_quarantines_try_other_names(tries: u32, result: Result<(), IoFailure>)
    ensures
        quarantining(tries, result) is Sync <==> result is Ok,
        quarantining(tries, result) is Try <==> tries < 16 && (result matches Err(failure)
            && failure.kind == IoErrorKind::AlreadyExists),
        quarantining(tries, result) is Nothing <==> (result matches Err(failure) && failure.kind
            != IoErrorKind::AlreadyExists && failure.missing()),
        quarantining(tries, result) matches QuarantineStep::Fail(told) ==> (result matches Err(
            failure,
        ) && told.kind == failure.kind),
{
}

} // verus!
