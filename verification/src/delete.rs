//! Deleting entries: a durable intent, a checked move to the trash, and a purge
//! that follows.
use crate::browser_api;
use crate::browser_api::{render_rejected, render_refusal, Refusal, RevisionHeader};
use crate::operation_registry::{apply_operation_outcome, OperationOutcome, TrackedOperationError};
use crate::problem::{ApiError, ApiErrorView, ErrorCode, OperationPublicState, RecoveryAdvice};
use crate::response::{Response, ResponseView};
use crate::revision::TargetRevision;
use crate::rooted_fs::trash::TrashVerdict;
use crate::steps::Step;
use vstd::prelude::*;
use vstd::string::*;

verus! {

/// A known outcome of a deletion.
#[derive(Clone, Copy, Debug, Eq, PartialEq, Structural)]
pub enum DeleteOutcome {
    /// The durable state has a claim on the path.
    Conflict,
    /// There is no room for another intent.
    BacklogFull,
    /// The intent could not be written.
    PurgeUnavailable,
    TargetChanged,
    NotCommitted,
    Deleted,
}

impl DeleteOutcome {
    pub open spec fn failure(self) -> Option<(u16, TrackedOperationError)> {
        match self {
            DeleteOutcome::Conflict => Some((409, TrackedOperationError::DeleteStateConflict)),
            DeleteOutcome::BacklogFull => Some((503, TrackedOperationError::PurgeBacklogFull)),
            DeleteOutcome::PurgeUnavailable => Some(
                (503, TrackedOperationError::PurgeStateUnavailable),
            ),
            DeleteOutcome::TargetChanged => Some((412, TrackedOperationError::DeleteTargetChanged)),
            DeleteOutcome::NotCommitted => Some((500, TrackedOperationError::DeleteNotCommitted)),
            DeleteOutcome::Deleted => None,
        }
    }

    /// What is recorded of the operation.
    pub fn recorded(self) -> (outcome: OperationOutcome)
        ensures
            match self.failure() {
                None => outcome.status() == 204 && outcome.state()
                    == OperationPublicState::Succeeded && outcome.error() is None,
                Some((status, error)) => outcome.status() == status && outcome.state()
                    == OperationPublicState::Failed && outcome.error() == Some(error),
            },
    {
        match self {
            DeleteOutcome::Conflict => OperationOutcome::failure(
                409,
                TrackedOperationError::DeleteStateConflict,
            ),
            DeleteOutcome::BacklogFull => OperationOutcome::failure(
                503,
                TrackedOperationError::PurgeBacklogFull,
            ),
            DeleteOutcome::PurgeUnavailable => OperationOutcome::failure(
                503,
                TrackedOperationError::PurgeStateUnavailable,
            ),
            DeleteOutcome::TargetChanged => OperationOutcome::failure(
                412,
                TrackedOperationError::DeleteTargetChanged,
            ),
            DeleteOutcome::NotCommitted => OperationOutcome::failure(
                500,
                TrackedOperationError::DeleteNotCommitted,
            ),
            DeleteOutcome::Deleted => OperationOutcome::success(204),
        }
    }
}

/// What a deletion looks at or does next.
#[derive(Clone, Copy, Debug, Eq, PartialEq, Structural)]
pub enum DeleteProbe {
    /// Whether the durable state has claims on the path.
    StateConflict,
    /// Write the intent to delete.
    Prepare,
    /// Record that the commit starts.
    MarkStarted,
    /// Move the target to the trash, if it is the one that was confirmed.
    MoveToTrash,
    /// Drop the intent to delete.
    DropIntent,
    /// Hand the intent over to the purge, with what was moved.
    MarkReady,
    /// Complete the operation with this outcome.
    Record(DeleteOutcome),
    /// The current revision of a target that changed.
    InspectAgain,
    /// Wake the purge.
    Notify,
    /// Have the intent settled by what is found on the disk.
    Reconcile,
}

/// What became of writing an intent.
#[derive(Clone, Copy, Debug, Eq, PartialEq, Structural)]
pub enum PrepareResult {
    Prepared,
    Full,
    Failed,
}

/// What a deletion has seen so far.
#[derive(Clone, Copy)]
pub struct DeleteSeen {
    /// Whether the durable state has claims, unless that could not be told.
    pub conflict: Option<Option<bool>>,
    pub prepared: Option<PrepareResult>,
    pub started: Option<bool>,
    pub moved: Option<TrashVerdict>,
    /// Whether the intent was there to be dropped, and was.
    pub dropped: Option<bool>,
    /// Whether the intent was there to be handed over, and was.
    pub ready: Option<bool>,
    pub recorded: Option<bool>,
    /// The current revision, if there is one and it could be told.
    pub revision: Option<Option<TargetRevision>>,
    pub notified: bool,
    pub reconciled: bool,
}

impl DeleteSeen {
    pub fn new() -> (seen: DeleteSeen)
        ensures
            seen == (DeleteSeen {
                conflict: None,
                prepared: None,
                started: None,
                moved: None,
                dropped: None,
                ready: None,
                recorded: None,
                revision: None,
                notified: false,
                reconciled: false,
            }),
    {
        DeleteSeen {
            conflict: None,
            prepared: None,
            started: None,
            moved: None,
            dropped: None,
            ready: None,
            recorded: None,
            revision: None,
            notified: false,
            reconciled: false,
        }
    }
}

/// How a deletion ends.
#[derive(Clone, Copy, Debug, Eq, PartialEq, Structural)]
pub enum DeleteVerdict {
    /// The durable state could not be looked at; the operation is given up.
    StateUnavailable,
    /// The outcome is known and recorded.
    Known(DeleteOutcome, RevisionHeader),
    /// The outcome is not known.
    Unknown,
}

pub type DeleteStep = Step<DeleteProbe, DeleteVerdict>;

/// Something failed after the intent was written: the intent is settled by what
/// is on the disk, and the outcome stays unknown.
pub open spec fn unsettled(seen: DeleteSeen) -> DeleteStep {
    if seen.reconciled {
        Step::Done(DeleteVerdict::Unknown)
    } else {
        Step::Ask(DeleteProbe::Reconcile)
    }
}

/// An outcome is told only once it has been recorded.
pub open spec fn told(
    seen: DeleteSeen,
    outcome: DeleteOutcome,
    otherwise: DeleteStep,
    next: DeleteStep,
) -> DeleteStep {
    match seen.recorded {
        None => Step::Ask(DeleteProbe::Record(outcome)),
        Some(false) => otherwise,
        Some(true) => next,
    }
}

pub open spec fn known(outcome: DeleteOutcome) -> DeleteStep {
    Step::Done(DeleteVerdict::Known(outcome, RevisionHeader::Untouched))
}

/// What follows the move to the trash.
pub open spec fn after_move(moved: TrashVerdict, seen: DeleteSeen) -> DeleteStep {
    match moved {
        TrashVerdict::DurabilityUnknown(_) => unsettled(seen),
        TrashVerdict::TargetChanged => match seen.dropped {
            None => Step::Ask(DeleteProbe::DropIntent),
            Some(false) => unsettled(seen),
            Some(true) => told(
                seen,
                DeleteOutcome::TargetChanged,
                unsettled(seen),
                match seen.revision {
                    None => Step::Ask(DeleteProbe::InspectAgain),
                    Some(current) => Step::Done(
                        DeleteVerdict::Known(
                            DeleteOutcome::TargetChanged,
                            RevisionHeader::Source(current),
                        ),
                    ),
                },
            ),
        },
        TrashVerdict::NotMoved(_) => match seen.dropped {
            None => Step::Ask(DeleteProbe::DropIntent),
            Some(false) => unsettled(seen),
            Some(true) => told(
                seen,
                DeleteOutcome::NotCommitted,
                unsettled(seen),
                known(DeleteOutcome::NotCommitted),
            ),
        },
        TrashVerdict::Moved(_) => match seen.ready {
            None => Step::Ask(DeleteProbe::MarkReady),
            Some(false) => unsettled(seen),
            Some(true) => told(
                seen,
                DeleteOutcome::Deleted,
                unsettled(seen),
                if seen.notified {
                    known(DeleteOutcome::Deleted)
                } else {
                    Step::Ask(DeleteProbe::Notify)
                },
            ),
        },
    }
}

/// How a deletion goes on.
pub open spec fn deletion(seen: DeleteSeen) -> DeleteStep {
    let lost: DeleteStep = Step::Done(DeleteVerdict::Unknown);
    match seen.conflict {
        None => Step::Ask(DeleteProbe::StateConflict),
        Some(None) => Step::Done(DeleteVerdict::StateUnavailable),
        Some(Some(true)) => told(
            seen,
            DeleteOutcome::Conflict,
            lost,
            known(DeleteOutcome::Conflict),
        ),
        Some(Some(false)) => match seen.prepared {
            None => Step::Ask(DeleteProbe::Prepare),
            Some(PrepareResult::Full) => told(
                seen,
                DeleteOutcome::BacklogFull,
                lost,
                known(DeleteOutcome::BacklogFull),
            ),
            Some(PrepareResult::Failed) => told(
                seen,
                DeleteOutcome::PurgeUnavailable,
                lost,
                known(DeleteOutcome::PurgeUnavailable),
            ),
            Some(PrepareResult::Prepared) => match seen.started {
                None => Step::Ask(DeleteProbe::MarkStarted),
                Some(false) => unsettled(seen),
                Some(true) => match seen.moved {
                    None => Step::Ask(DeleteProbe::MoveToTrash),
                    Some(moved) => after_move(moved, seen),
                },
            },
        },
    }
}

fn settle(seen: &DeleteSeen) -> (step: DeleteStep)
    ensures
        step == unsettled(*seen),
{
    if seen.reconciled {
        Step::Done(DeleteVerdict::Unknown)
    } else {
        Step::Ask(DeleteProbe::Reconcile)
    }
}

fn tell_early(seen: &DeleteSeen, outcome: DeleteOutcome) -> (step: DeleteStep)
    ensures
        step == told(*seen, outcome, Step::Done(DeleteVerdict::Unknown), known(outcome)),
{
    match seen.recorded {
        None => Step::Ask(DeleteProbe::Record(outcome)),
        Some(false) => Step::Done(DeleteVerdict::Unknown),
        Some(true) => Step::Done(DeleteVerdict::Known(outcome, RevisionHeader::Untouched)),
    }
}

fn next_after_move(moved: TrashVerdict, seen: &DeleteSeen) -> (step: DeleteStep)
    ensures
        step == after_move(moved, *seen),
{
    let (done, probe, outcome) = match moved {
        TrashVerdict::DurabilityUnknown(_) => return settle(seen),
        TrashVerdict::TargetChanged => (
            seen.dropped,
            DeleteProbe::DropIntent,
            DeleteOutcome::TargetChanged,
        ),
        TrashVerdict::NotMoved(_) => (
            seen.dropped,
            DeleteProbe::DropIntent,
            DeleteOutcome::NotCommitted,
        ),
        TrashVerdict::Moved(_) => (seen.ready, DeleteProbe::MarkReady, DeleteOutcome::Deleted),
    };
    match done {
        None => return Step::Ask(probe),
        Some(false) => return settle(seen),
        Some(true) => {},
    }
    match seen.recorded {
        None => return Step::Ask(DeleteProbe::Record(outcome)),
        Some(false) => return settle(seen),
        Some(true) => {},
    }
    match moved {
        TrashVerdict::TargetChanged => match seen.revision {
            None => Step::Ask(DeleteProbe::InspectAgain),
            Some(current) => Step::Done(
                DeleteVerdict::Known(outcome, RevisionHeader::Source(current)),
            ),
        },
        TrashVerdict::Moved(_) => {
            if seen.notified {
                Step::Done(DeleteVerdict::Known(outcome, RevisionHeader::Untouched))
            } else {
                Step::Ask(DeleteProbe::Notify)
            }
        },
        _ => Step::Done(DeleteVerdict::Known(outcome, RevisionHeader::Untouched)),
    }
}

/// Decides a deletion: what to look at or do next, or how it ends.
pub fn handle_delete(seen: &DeleteSeen) -> (step: DeleteStep)
    ensures
        step == deletion(*seen),
{
    match seen.conflict {
        None => return Step::Ask(DeleteProbe::StateConflict),
        Some(None) => return Step::Done(DeleteVerdict::StateUnavailable),
        Some(Some(true)) => return tell_early(seen, DeleteOutcome::Conflict),
        Some(Some(false)) => {},
    }
    match seen.prepared {
        None => return Step::Ask(DeleteProbe::Prepare),
        Some(PrepareResult::Full) => return tell_early(seen, DeleteOutcome::BacklogFull),
        Some(PrepareResult::Failed) => return tell_early(seen, DeleteOutcome::PurgeUnavailable),
        Some(PrepareResult::Prepared) => {},
    }
    match seen.started {
        None => return Step::Ask(DeleteProbe::MarkStarted),
        Some(false) => return settle(seen),
        Some(true) => {},
    }
    match seen.moved {
        None => Step::Ask(DeleteProbe::MoveToTrash),
        Some(moved) => next_after_move(moved, seen),
    }
}

/// The intent to delete is dropped only where the target was not moved.
pub proof fn law_intents_outlive_moves(seen: DeleteSeen)
    requires
        deletion(seen) == DeleteStep::Ask(DeleteProbe::DropIntent),
    ensures
        seen.moved == Some(TrashVerdict::TargetChanged) || (
        seen.moved matches Some(TrashVerdict::NotMoved(_))),
{
}

/// A client is told of a deletion only where the target is in the trash, the
/// intent has been handed over to the purge, and the outcome is recorded.
pub proof fn law_told_deletions_happened(seen: DeleteSeen, revision: RevisionHeader)
    requires
        deletion(seen) == DeleteStep::Done(DeleteVerdict::Known(DeleteOutcome::Deleted, revision)),
    ensures
        seen.moved matches Some(TrashVerdict::Moved(_)),
        seen.ready == Some(true),
        seen.recorded == Some(true),
{
}

/// No outcome is told that has not been recorded, and none of a move that may or
/// may not have happened.
pub proof fn law_told_outcomes_are_known(
    seen: DeleteSeen,
    outcome: DeleteOutcome,
    revision: RevisionHeader,
)
    requires
        deletion(seen) == DeleteStep::Done(DeleteVerdict::Known(outcome, revision)),
    ensures
        seen.recorded == Some(true),
        seen.prepared == Some(PrepareResult::Prepared) && seen.conflict == Some(Some(false))
            ==> seen.moved is Some && !(seen.moved matches Some(
            TrashVerdict::DurabilityUnknown(_),
        )),
{
}

/// Where the outcome stays unknown after an intent was written, the intent has
/// been settled by what is on the disk.
pub proof fn law_unknown_deletions_are_reconciled(seen: DeleteSeen)
    requires
        deletion(seen) == DeleteStep::Done(DeleteVerdict::Unknown),
        seen.conflict == Some(Some(false)),
        seen.prepared == Some(PrepareResult::Prepared),
    ensures
        seen.reconciled,
{
}

pub open spec fn unavailable_error() -> ApiErrorView {
    ApiErrorView::new(
        503,
        ErrorCode::PurgeStateUnavailable,
        "Delete state storage is temporarily unavailable"@,
    ).with_recovery(RecoveryAdvice::RetryAfterSeconds(1))
}

/// Answers where the durable state could not be looked at. Nothing has been
/// changed, so the request can be repeated.
pub fn render_delete_state_unavailable(response: &mut Response, operation_id: u128)
    ensures
        final(response)@ == browser_api::api_error_response(
            old(response)@,
            unavailable_error(),
            Some(operation_id),
        ),
{
    let error = ApiError::new(
        503,
        ErrorCode::PurgeStateUnavailable,
        "Delete state storage is temporarily unavailable",
    ).with_recovery(RecoveryAdvice::RetryAfterSeconds(1));
    render_rejected(response, error, Some(operation_id));
}

/// The answer of a deletion whose outcome is known.
pub open spec fn delete_response(
    response: ResponseView,
    operation_id: u128,
    outcome: DeleteOutcome,
    revision: RevisionHeader,
    encoded: Option<Seq<char>>,
) -> ResponseView {
    match outcome.failure() {
        None => browser_api::success_response(response, Some(operation_id), 204),
        Some((status, error)) => browser_api::refusal_response(
            response,
            Some(operation_id),
            Refusal { status, error, revision },
            encoded,
        ),
    }
}

/// Answers for a deletion whose outcome is known. The revision comes in its
/// encoded form.
pub fn render_deletion(
    response: &mut Response,
    operation_id: u128,
    outcome: DeleteOutcome,
    revision: RevisionHeader,
    encoded: Option<&str>,
)
    ensures
        final(response)@ == delete_response(
            old(response)@,
            operation_id,
            outcome,
            revision,
            match encoded {
                Some(encoded) => Some(encoded@),
                None => None,
            },
        ),
{
    let (status, error): (u16, TrackedOperationError) = match outcome {
        DeleteOutcome::Conflict => (409, TrackedOperationError::DeleteStateConflict),
        DeleteOutcome::BacklogFull => (503, TrackedOperationError::PurgeBacklogFull),
        DeleteOutcome::PurgeUnavailable => (503, TrackedOperationError::PurgeStateUnavailable),
        DeleteOutcome::TargetChanged => (412, TrackedOperationError::DeleteTargetChanged),
        DeleteOutcome::NotCommitted => (500, TrackedOperationError::DeleteNotCommitted),
        DeleteOutcome::Deleted => {
            apply_operation_outcome(
                response,
                operation_id,
                OperationOutcome::success(204),
                false,
            );
            return ;
        },
    };
    render_refusal(response, Some(operation_id), &Refusal { status, error, revision }, encoded);
}

/// A deletion that nothing speaks against comes to its end: the intent is written, the
/// target is moved to the trash, the purge takes over, and the client is told so.
pub proof fn law_unopposed_deletions_happen(seen: DeleteSeen)
    requires
        seen.conflict == Some(Some(false)),
        seen.prepared is None || seen.prepared == Some(PrepareResult::Prepared),
        seen.started is None || seen.started == Some(true),
        seen.moved is None || (seen.moved matches Some(TrashVerdict::Moved(_))),
        seen.ready is None || seen.ready == Some(true),
        seen.recorded is None || seen.recorded == Some(true),
    ensures
        deletion(seen) == (if seen.prepared is None {
            DeleteStep::Ask(DeleteProbe::Prepare)
        } else if seen.started is None {
            DeleteStep::Ask(DeleteProbe::MarkStarted)
        } else if seen.moved is None {
            DeleteStep::Ask(DeleteProbe::MoveToTrash)
        } else if seen.ready is None {
            DeleteStep::Ask(DeleteProbe::MarkReady)
        } else if seen.recorded is None {
            DeleteStep::Ask(DeleteProbe::Record(DeleteOutcome::Deleted))
        } else if !seen.notified {
            DeleteStep::Ask(DeleteProbe::Notify)
        } else {
            DeleteStep::Done(
                DeleteVerdict::Known(DeleteOutcome::Deleted, RevisionHeader::Untouched),
            )
        }),
{
}

/// A target that changed, or that could not be moved, has its intent dropped and the
/// outcome recorded before the client is told, with the current revision of what
/// changed.
pub proof fn law_unmoved_targets_are_told(seen: DeleteSeen, changed: bool)
    requires
        seen.conflict == Some(Some(false)),
        seen.prepared == Some(PrepareResult::Prepared),
        seen.started == Some(true),
        if changed {
            seen.moved == Some(TrashVerdict::TargetChanged)
        } else {
            seen.moved matches Some(TrashVerdict::NotMoved(_))
        },
        seen.dropped is None || seen.dropped == Some(true),
        seen.recorded is None || seen.recorded == Some(true),
    ensures
        ({
            let outcome = if changed {
                DeleteOutcome::TargetChanged
            } else {
                DeleteOutcome::NotCommitted
            };
            deletion(seen) == (if seen.dropped is None {
                DeleteStep::Ask(DeleteProbe::DropIntent)
            } else if seen.recorded is None {
                DeleteStep::Ask(DeleteProbe::Record(outcome))
            } else if !changed {
                DeleteStep::Done(DeleteVerdict::Known(outcome, RevisionHeader::Untouched))
            } else if seen.revision is None {
                DeleteStep::Ask(DeleteProbe::InspectAgain)
            } else {
                DeleteStep::Done(
                    DeleteVerdict::Known(outcome, RevisionHeader::Source(seen.revision->0)),
                )
            })
        }),
{
}

/// Each end of a deletion has its cause: what is told is what was seen, and an outcome
/// is unknown only where a move or a record may or may not have happened.
pub proof fn law_ends_of_deletions_have_their_cause(seen: DeleteSeen, verdict: DeleteVerdict)
    requires
        deletion(seen) == DeleteStep::Done(verdict),
    ensures
        match verdict {
            DeleteVerdict::StateUnavailable => seen.conflict == Some(None::<bool>),
            DeleteVerdict::Known(outcome, revision) => seen.recorded == Some(true) && (
            match outcome {
                DeleteOutcome::Conflict => seen.conflict == Some(Some(true)),
                DeleteOutcome::BacklogFull => seen.prepared == Some(PrepareResult::Full),
                DeleteOutcome::PurgeUnavailable => seen.prepared == Some(PrepareResult::Failed),
                DeleteOutcome::TargetChanged => seen.moved == Some(TrashVerdict::TargetChanged)
                    && seen.dropped == Some(true),
                DeleteOutcome::NotCommitted => (seen.moved matches Some(TrashVerdict::NotMoved(_)))
                    && seen.dropped == Some(true),
                DeleteOutcome::Deleted => (seen.moved matches Some(TrashVerdict::Moved(_)))
                    && seen.ready == Some(true) && seen.notified,
            }) && (revision != RevisionHeader::Untouched ==> outcome
                == DeleteOutcome::TargetChanged),
            DeleteVerdict::Unknown => {
                ||| seen.recorded == Some(false)
                ||| seen.started == Some(false)
                ||| seen.dropped == Some(false)
                ||| seen.ready == Some(false)
                ||| (seen.moved matches Some(TrashVerdict::DurabilityUnknown(_)))
            },
        },
{
}

/// Nothing is done twice or before its time: no intent is written where there is a
/// claim, nothing is moved without an intent, and what is recorded is what happened.
pub proof fn law_deletions_go_step_by_step(seen: DeleteSeen, probe: DeleteProbe)
    requires
        deletion(seen) == DeleteStep::Ask(probe),
    ensures
        match probe {
            DeleteProbe::StateConflict => seen.conflict is None,
            DeleteProbe::Prepare => seen.prepared is None && seen.conflict == Some(Some(false)),
            DeleteProbe::MarkStarted => seen.started is None && seen.prepared == Some(
                PrepareResult::Prepared,
            ),
            DeleteProbe::MoveToTrash => seen.moved is None && seen.prepared == Some(
                PrepareResult::Prepared,
            ) && seen.started == Some(true) && seen.conflict == Some(Some(false)),
            DeleteProbe::DropIntent => seen.dropped is None,
            DeleteProbe::MarkReady => seen.ready is None && (
            seen.moved matches Some(TrashVerdict::Moved(_))),
            DeleteProbe::Record(outcome) => seen.recorded is None && (match outcome {
                DeleteOutcome::Conflict => seen.conflict == Some(Some(true)),
                DeleteOutcome::BacklogFull => seen.prepared == Some(PrepareResult::Full),
                DeleteOutcome::PurgeUnavailable => seen.prepared == Some(PrepareResult::Failed),
                DeleteOutcome::TargetChanged => seen.moved == Some(TrashVerdict::TargetChanged),
                DeleteOutcome::NotCommitted => seen.moved matches Some(TrashVerdict::NotMoved(_)),
                DeleteOutcome::Deleted => (seen.moved matches Some(TrashVerdict::Moved(_)))
                    && seen.ready == Some(true),
            }),
            DeleteProbe::InspectAgain => seen.revision is None && seen.recorded == Some(true),
            DeleteProbe::Notify => !seen.notified && seen.recorded == Some(true),
            DeleteProbe::Reconcile => !seen.reconciled && seen.prepared == Some(
                PrepareResult::Prepared,
            ),
        },
{
}

/// Each outcome of a deletion has its status and its error.
pub proof fn law_outcomes_of_deletions_are_told_apart(outcome: DeleteOutcome)
    ensures
        outcome.failure() == (match outcome {
            DeleteOutcome::Conflict => Some((409u16, TrackedOperationError::DeleteStateConflict)),
            DeleteOutcome::BacklogFull => Some((503u16, TrackedOperationError::PurgeBacklogFull)),
            DeleteOutcome::PurgeUnavailable => Some(
                (503u16, TrackedOperationError::PurgeStateUnavailable),
            ),
            DeleteOutcome::TargetChanged => Some(
                (412u16, TrackedOperationError::DeleteTargetChanged),
            ),
            DeleteOutcome::NotCommitted => Some((500u16, TrackedOperationError::DeleteNotCommitted)),
            DeleteOutcome::Deleted => None,
        }),
{
}

/// A deletion is answered with the status of its outcome, and a success with none of a
/// problem.
pub proof fn law_deletions_are_answered(
    response: ResponseView,
    operation_id: u128,
    outcome: DeleteOutcome,
    revision: RevisionHeader,
    encoded: Option<Seq<char>>,
)
    ensures
        delete_response(response, operation_id, outcome, revision, encoded).status == (
        match outcome {
            DeleteOutcome::Conflict => 409u16,
            DeleteOutcome::BacklogFull | DeleteOutcome::PurgeUnavailable => 503u16,
            DeleteOutcome::TargetChanged => 412u16,
            DeleteOutcome::NotCommitted => 500u16,
            DeleteOutcome::Deleted => 204u16,
        }),
        outcome == DeleteOutcome::Deleted ==> delete_response(
            response,
            operation_id,
            outcome,
            revision,
            encoded,
        ).body == response.body,
{
}

/// A deletion whose state cannot be kept may be tried again after a second.
pub proof fn law_unkept_deletions_may_be_tried_again()
    ensures
        unavailable_error().status == 503,
        unavailable_error().code == ErrorCode::PurgeStateUnavailable,
        unavailable_error().detail == "Delete state storage is temporarily unavailable"@,
        unavailable_error().recovery.delay() == Some(1u64),
{
}

} // verus!
