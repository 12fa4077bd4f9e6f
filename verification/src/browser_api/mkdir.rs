//! Creating directories.
use crate::browser_api;
use crate::browser_api::{render_rejected, Refusal, RevisionHeader};
use crate::io_error::{IoErrorKind, IoFailure};
use crate::operation_registry::{OperationOutcome, TrackedOperationError};
use crate::path_policy::PathPolicy;
use crate::problem::{ApiError, ApiErrorView, ErrorCode, OperationPublicState, RecoveryAdvice};
use crate::response::Response;
use crate::steps::{Check, Step};
use vstd::prelude::*;
use vstd::string::*;

verus! {

/// Answers where the durable state could not be looked at. Nothing has been
/// changed, so the request can be repeated.
pub fn render_mkdir_state_unavailable(operation_id: Option<u128>, response: &mut Response)
    ensures
        final(response)@ == browser_api::api_error_response(
            old(response)@,
            ApiErrorView::new(
                503,
                ErrorCode::MkdirStateUnavailable,
                "Directory safety state is temporarily unavailable"@,
            ).with_recovery(RecoveryAdvice::RetryAfterSeconds(1)),
            operation_id,
        ),
{
    let error = ApiError::new(
        503,
        ErrorCode::MkdirStateUnavailable,
        "Directory safety state is temporarily unavailable",
    ).with_recovery(RecoveryAdvice::RetryAfterSeconds(1));
    render_rejected(response, error, operation_id);
}

/// What the creation of a directory looks at or does next.
#[derive(Clone, Copy, Debug, Eq, PartialEq, Structural)]
pub enum MkdirProbe {
    TakePath,
    /// Whether the path leaves the root.
    Escape,
    /// Whether the path is one of the platform's or below one, or above one where
    /// those are protected as well.
    Platform { protect_ancestors: bool },
    Stat,
    /// Whether the durable state has claims on the path.
    StateConflict,
    /// Create the directory, and record the outcome.
    Commit,
}

/// What the creation of a directory has seen so far.
#[derive(Clone, Copy)]
pub struct MkdirSeen {
    pub path: Option<bool>,
    pub escapes: Option<Result<bool, IoFailure>>,
    pub is_platform: Option<Result<bool, IoFailure>>,
    /// Whether something is there, by looking at it.
    pub entry: Option<Result<(), IoFailure>>,
    /// Whether the durable state has claims, unless that could not be told.
    pub conflict: Option<Option<bool>>,
    pub committed: Option<Result<(), IoFailure>>,
}

impl MkdirSeen {
    pub fn new() -> (seen: MkdirSeen)
        ensures
            seen == (MkdirSeen {
                path: None,
                escapes: None,
                is_platform: None,
                entry: None,
                conflict: None,
                committed: None,
            }),
    {
        MkdirSeen {
            path: None,
            escapes: None,
            is_platform: None,
            entry: None,
            conflict: None,
            committed: None,
        }
    }
}

/// How the creation of a directory ends.
#[derive(Clone, Copy, Debug, Eq, PartialEq, Structural)]
pub enum MkdirVerdict {
    /// The request is refused: the operation is completed as failed, and nothing
    /// was changed.
    Refuse(Refusal),
    /// There is no path to take; the operation is given up.
    NoPath,
    /// The durable state could not be looked at; the operation is given up.
    StateUnavailable,
    /// The filesystem failed.
    Fail(IoFailure),
    /// The commit found that something is there already, and recorded that.
    Failed(Refusal),
    Created,
}

pub type MkdirCheck = Check<MkdirProbe, MkdirVerdict>;

pub type MkdirStep = Step<MkdirProbe, MkdirVerdict>;

pub open spec fn refused(status: u16, error: TrackedOperationError) -> MkdirCheck {
    Check::Stop(MkdirVerdict::Refuse(Refusal::plain(status, error)))
}

/// A look that must succeed and find that something is not so.
pub open spec fn not_so(seen: Option<Result<bool, IoFailure>>, probe: MkdirProbe) -> MkdirCheck {
    match seen {
        None => Check::Ask(probe),
        Some(Ok(false)) => Check::Pass,
        Some(Ok(true)) => refused(400, TrackedOperationError::InvalidPath),
        Some(Err(failure)) => Check::Stop(MkdirVerdict::Fail(failure)),
    }
}

fn next_not_so(seen: &Option<Result<bool, IoFailure>>, probe: MkdirProbe) -> (check: MkdirCheck)
    ensures
        check == not_so(*seen, probe),
{
    match seen {
        None => Check::Ask(probe),
        Some(Ok(false)) => Check::Pass,
        Some(Ok(true)) => Check::Stop(
            MkdirVerdict::Refuse(Refusal::new(400, TrackedOperationError::InvalidPath)),
        ),
        Some(Err(failure)) => Check::Stop(MkdirVerdict::Fail(*failure)),
    }
}

/// The checks before the commit, in order.
pub open spec fn commit_checks(policy: PathPolicy, path: Seq<char>, seen: MkdirSeen) -> MkdirCheck {
    let valid: MkdirCheck = if policy.is_browser_target(path) {
        Check::Pass
    } else {
        refused(400, TrackedOperationError::InvalidPath)
    };
    let taken: MkdirCheck = match seen.path {
        None => Check::Ask(MkdirProbe::TakePath),
        Some(true) => Check::Pass,
        Some(false) => Check::Stop(MkdirVerdict::NoPath),
    };
    let free: MkdirCheck = match seen.entry {
        None => Check::Ask(MkdirProbe::Stat),
        Some(Ok(_)) => refused(409, TrackedOperationError::PathExists),
        Some(Err(failure)) => if failure.kind == IoErrorKind::NotFound {
            Check::Pass
        } else {
            Check::Stop(MkdirVerdict::Fail(failure))
        },
    };
    let unclaimed: MkdirCheck = match seen.conflict {
        None => Check::Ask(MkdirProbe::StateConflict),
        Some(Some(false)) => Check::Pass,
        Some(Some(true)) => refused(409, TrackedOperationError::MkdirStateConflict),
        Some(None) => Check::Stop(MkdirVerdict::StateUnavailable),
    };
    valid.followed_by(taken).followed_by(not_so(seen.escapes, MkdirProbe::Escape)).followed_by(
        not_so(seen.is_platform, MkdirProbe::Platform { protect_ancestors: false }),
    ).followed_by(free).followed_by(unclaimed)
}

pub open spec fn commit_is_told(seen: MkdirSeen) -> MkdirCheck {
    match seen.committed {
        None => Check::Ask(MkdirProbe::Commit),
        Some(Ok(_)) => Check::Pass,
        Some(Err(failure)) => if failure.kind == IoErrorKind::AlreadyExists {
            Check::Stop(
                MkdirVerdict::Failed(Refusal::plain(409, TrackedOperationError::PathExists)),
            )
        } else {
            Check::Stop(MkdirVerdict::Fail(failure))
        },
    }
}

/// Decides the creation of a directory: what to look at or do next, or how it
/// ends.
pub fn handle_api_mkdir(policy: &PathPolicy, path: &str, seen: &MkdirSeen) -> (step: MkdirStep)
    ensures
        step == commit_checks(*policy, path@, *seen).followed_by(commit_is_told(*seen)).otherwise(
            MkdirVerdict::Created,
        ),
{
    if policy.parse_browser_target(path).is_none() {
        return Step::Done(
            MkdirVerdict::Refuse(Refusal::new(400, TrackedOperationError::InvalidPath)),
        );
    }
    match seen.path {
        None => return Step::Ask(MkdirProbe::TakePath),
        Some(true) => {},
        Some(false) => return Step::Done(MkdirVerdict::NoPath),
    }
    if let Err(step) = next_not_so(&seen.escapes, MkdirProbe::Escape).settle() {
        return step;
    }
    if let Err(step) = next_not_so(&seen.is_platform, MkdirProbe::Platform { protect_ancestors: false }).settle() {
        return step;
    }
    match seen.entry {
        None => return Step::Ask(MkdirProbe::Stat),
        Some(Ok(_)) => return Step::Done(
            MkdirVerdict::Refuse(Refusal::new(409, TrackedOperationError::PathExists)),
        ),
        Some(Err(failure)) => {
            if failure.kind != IoErrorKind::NotFound {
                return Step::Done(MkdirVerdict::Fail(failure));
            }
        },
    }
    match seen.conflict {
        None => return Step::Ask(MkdirProbe::StateConflict),
        Some(Some(false)) => {},
        Some(Some(true)) => return Step::Done(
            MkdirVerdict::Refuse(Refusal::new(409, TrackedOperationError::MkdirStateConflict)),
        ),
        Some(None) => return Step::Done(MkdirVerdict::StateUnavailable),
    }
    match seen.committed {
        None => Step::Ask(MkdirProbe::Commit),
        Some(Ok(_)) => Step::Done(MkdirVerdict::Created),
        Some(Err(failure)) => {
            if failure.kind == IoErrorKind::AlreadyExists {
                Step::Done(
                    MkdirVerdict::Failed(Refusal::new(409, TrackedOperationError::PathExists)),
                )
            } else {
                Step::Done(MkdirVerdict::Fail(failure))
            }
        },
    }
}

/// What is recorded of a commit: a status, and an error where it failed.
pub open spec fn recorded_as(committed: Result<(), IoFailure>) -> Option<
    (u16, Option<TrackedOperationError>),
> {
    match committed {
        Ok(_) => Some((201, None)),
        Err(failure) => if failure.kind == IoErrorKind::AlreadyExists {
            Some((409, Some(TrackedOperationError::PathExists)))
        } else {
            None
        },
    }
}

/// What is recorded of a commit, unless it failed in a way that leaves the
/// outcome open.
pub fn commit_outcome(committed: &Result<(), IoFailure>) -> (recorded: Option<OperationOutcome>)
    ensures
        recorded is Some <==> recorded_as(*committed) is Some,
        recorded matches Some(recorded) ==> recorded_as(*committed) == Some(
            (recorded.status(), recorded.error()),
        ),
        match *committed {
            Ok(_) => recorded matches Some(recorded) && recorded.status() == 201 && recorded.state()
                == OperationPublicState::Succeeded && recorded.error() is None,
            Err(failure) => if failure.kind == IoErrorKind::AlreadyExists {
                recorded matches Some(recorded) && recorded.status() == 409 && recorded.state()
                    == OperationPublicState::Failed && recorded.error() == Some(
                    TrackedOperationError::PathExists,
                )
            } else {
                recorded is None
            },
        },
{
    match committed {
        Ok(_) => Some(OperationOutcome::success(201)),
        Err(failure) => {
            if failure.kind == IoErrorKind::AlreadyExists {
                Some(OperationOutcome::failure(409, TrackedOperationError::PathExists))
            } else {
                None
            }
        },
    }
}

/// No directory is created unless nothing was seen at its path, the path is below
/// the root and not the platform's, and the durable state has no claim on it.
pub proof fn law_commits_are_checked(policy: PathPolicy, path: Seq<char>, seen: MkdirSeen)
    requires
        commit_checks(policy, path, seen) is Pass,
    ensures
        policy.is_browser_target(path),
        seen.path == Some(true),
        seen.escapes matches Some(Ok(false)),
        seen.is_platform matches Some(Ok(false)),
        seen.entry matches Some(Err(failure)) && failure.kind == IoErrorKind::NotFound,
        seen.conflict == Some(Some(false)),
{
}

/// A request that is refused, or whose operation is given up, created nothing.
pub proof fn law_refusals_create_nothing(
    policy: PathPolicy,
    path: Seq<char>,
    seen: MkdirSeen,
    verdict: MkdirVerdict,
)
    requires
        seen.committed is Some ==> commit_checks(policy, path, seen) is Pass,
        commit_checks(policy, path, seen).followed_by(commit_is_told(seen)).otherwise(
            MkdirVerdict::Created,
        ) == MkdirStep::Done(verdict),
    ensures
        verdict is Refuse || verdict is NoPath || verdict is StateUnavailable
            ==> seen.committed is None,
        verdict is Created <==> (seen.committed matches Some(Ok(_))),
{
}

/// A directory is created where nothing speaks against it: its path can be named, does
/// not leave the root and is not the platform's, nothing is there, and the durable state
/// has no claim on it.
pub proof fn law_unopposed_directories_are_created(
    policy: PathPolicy,
    path: Seq<char>,
    seen: MkdirSeen,
)
    requires
        policy.is_browser_target(path),
        seen.path == Some(true),
        seen.escapes == Some(Ok::<bool, IoFailure>(false)),
        seen.is_platform == Some(Ok::<bool, IoFailure>(false)),
        seen.entry matches Some(Err(failure)) && failure.kind == IoErrorKind::NotFound,
        seen.conflict == Some(Some(false)),
    ensures
        commit_checks(policy, path, seen).followed_by(commit_is_told(seen)).otherwise(
            MkdirVerdict::Created,
        ) == (match seen.committed {
            None => MkdirStep::Ask(MkdirProbe::Commit),
            Some(Ok(_)) => MkdirStep::Done(MkdirVerdict::Created),
            Some(Err(failure)) => MkdirStep::Done(
                if failure.kind == IoErrorKind::AlreadyExists {
                    MkdirVerdict::Failed(
                        Refusal {
                            status: 409,
                            error: TrackedOperationError::PathExists,
                            revision: RevisionHeader::Untouched,
                        },
                    )
                } else {
                    MkdirVerdict::Fail(failure)
                },
            ),
        }),
{
}

/// Each end of the creation of a directory has its cause, and each refusal its status.
pub proof fn law_ends_of_creations_have_their_cause(
    policy: PathPolicy,
    path: Seq<char>,
    seen: MkdirSeen,
    verdict: MkdirVerdict,
)
    requires
        commit_checks(policy, path, seen).followed_by(commit_is_told(seen)).otherwise(
            MkdirVerdict::Created,
        ) == MkdirStep::Done(verdict),
    ensures
        match verdict {
            MkdirVerdict::Refuse(refusal) => refusal.revision == RevisionHeader::Untouched && (
            match refusal.error {
                TrackedOperationError::InvalidPath => refusal.status == 400 && (
                !policy.is_browser_target(path) || seen.escapes == Some(Ok::<bool, IoFailure>(true))
                    || seen.is_platform == Some(Ok::<bool, IoFailure>(true))),
                TrackedOperationError::PathExists => refusal.status == 409 && (
                seen.entry matches Some(Ok(_))),
                TrackedOperationError::MkdirStateConflict => refusal.status == 409 && seen.conflict
                    == Some(Some(true)),
                _ => false,
            }),
            MkdirVerdict::NoPath => seen.path == Some(false),
            MkdirVerdict::StateUnavailable => seen.conflict == Some(None::<bool>),
            MkdirVerdict::Fail(failure) => {
                ||| seen.escapes == Some(Err::<bool, IoFailure>(failure))
                ||| seen.is_platform == Some(Err::<bool, IoFailure>(failure))
                ||| seen.entry == Some(Err::<(), IoFailure>(failure)) && failure.kind
                    != IoErrorKind::NotFound
                ||| seen.committed == Some(Err::<(), IoFailure>(failure)) && failure.kind
                    != IoErrorKind::AlreadyExists
            },
            MkdirVerdict::Failed(_) => seen.committed matches Some(Err(failure)) && failure.kind
                == IoErrorKind::AlreadyExists,
            MkdirVerdict::Created => seen.committed matches Some(Ok(_)),
        },
{
}

/// Only what is not known yet is looked at, and nothing before the path is taken.
pub proof fn law_creations_look_once(
    policy: PathPolicy,
    path: Seq<char>,
    seen: MkdirSeen,
    probe: MkdirProbe,
)
    requires
        commit_checks(policy, path, seen).followed_by(commit_is_told(seen)).otherwise(
            MkdirVerdict::Created,
        ) == MkdirStep::Ask(probe),
    ensures
        policy.is_browser_target(path),
        probe is TakePath || seen.path == Some(true),
        match probe {
            MkdirProbe::TakePath => seen.path is None,
            MkdirProbe::Escape => seen.escapes is None,
            MkdirProbe::Platform { protect_ancestors } => !protect_ancestors
                && seen.is_platform is None,
            MkdirProbe::Stat => seen.entry is None,
            MkdirProbe::StateConflict => seen.conflict is None,
            MkdirProbe::Commit => seen.committed is None,
        },
{
}

/// A directory that was made is recorded as created, one that was there already as a
/// conflict, and a failure that leaves the outcome open as nothing.
pub proof fn law_recorded_creations(committed: Result<(), IoFailure>)
    ensures
        committed is Ok ==> recorded_as(committed) == Some(
            (201u16, None::<TrackedOperationError>),
        ),
        committed matches Err(failure) ==> failure.kind == IoErrorKind::AlreadyExists
            ==> recorded_as(committed) == Some((409u16, Some(TrackedOperationError::PathExists))),
        committed matches Err(failure) ==> failure.kind != IoErrorKind::AlreadyExists
            ==> recorded_as(committed) is None,
{
}

} // verus!
