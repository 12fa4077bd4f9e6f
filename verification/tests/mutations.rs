use dufs::browser_api::dispatch::{
    collect_untracked_api_body, handle_browser_api, handle_upload_discard, request_fingerprint,
    Begun, BodyFault, BodyProbe, BrowserMutation, DiscardProbe, DiscardRefusal, DiscardSeen,
    DiscardVerdict, DispatchProbe, DispatchRefusal, DispatchSeen, DispatchVerdict,
};
use dufs::browser_api::mkdir::{
    handle_api_mkdir, render_mkdir_state_unavailable, MkdirProbe, MkdirSeen, MkdirVerdict,
};
use dufs::browser_api::preflight::{
    check_preflight_list, handle_upload_preflight_path, next_ancestor, upload_preflight_ancestor,
    AncestorStep, BatchProbe, BatchVerdict, PreflightBatch, PreflightProbe, PreflightRefusal,
    PreflightSeen, PreflightVerdict,
};
use dufs::browser_api::relocation::{
    commit_expectations, commit_outcome, handle_api_move, handle_api_relocation,
    handle_api_rename, Inspected, NodeMetadata, RelocationKind, RelocationProbe,
    RelocationRequest, RelocationSeen, RelocationVerdict,
};
use dufs::browser_api::{
    is_single_browser_name, is_tracked_browser_mutation, logical_child, render_completed_error,
    render_completed_success, render_refusal, Refusal, RevisionField, RevisionHeader,
};
use dufs::delete::{
    handle_delete, render_delete_state_unavailable, render_deletion, DeleteOutcome, DeleteProbe,
    DeleteSeen, DeleteVerdict, PrepareResult,
};
use dufs::io_error::{IoErrorKind, IoFailure, ERROR_CROSS_DEVICE};
use dufs::operation_registry::{
    apply_conflict, apply_operation_outcome, begin, BeginOperation, OperationGuard, OperationKey,
    OperationOutcome, StoreBegin, StoreCommand, TrackedOperationError,
};
use dufs::path_policy::PathPolicy;
use dufs::paths::LexicalPath;
use dufs::problem::OperationPublicState;
use dufs::response::{Body, Response};
use dufs::revision::TargetRevision;
use dufs::rooted_fs::identity::{
    ExistingReplacementTarget, FileType, ReplacementTargetIdentity,
};
use dufs::rooted_fs::rename::CheckedRelocationOutcome;
use dufs::rooted_fs::trash::TrashVerdict;
use dufs::steps::Step;
use sha2::Digest;

const OLD: TargetRevision = TargetRevision { first: 1, second: 0, third: 0, fourth: 1 };
const NEW: TargetRevision = TargetRevision { first: 2, second: 0, third: 0, fourth: 2 };

fn path(text: &str) -> LexicalPath {
    let mut path = LexicalPath::new();
    for name in text.split('/').filter(|name| !name.is_empty()) {
        path.push(name.as_bytes());
    }
    path
}

fn policy() -> PathPolicy {
    PathPolicy::new(
        path("/srv/share"),
        "__dufs_assets_test/",
        &vec!["/healthz".to_string()],
    )
}

fn failure(kind: IoErrorKind) -> IoFailure {
    IoFailure { kind, number: None }
}

fn file(inode: u64) -> ExistingReplacementTarget {
    ExistingReplacementTarget {
        device: 1,
        inode,
        file_type: FileType::RegularFile,
        links: 1,
        size: 3,
        uid: 1000,
        gid: 1000,
        mode: 0o100644,
        modified_seconds: 5,
        modified_nanoseconds: 6,
        changed_seconds: 7,
        changed_nanoseconds: 8,
    }
}

fn existing(inode: u64, revision: TargetRevision) -> Inspected {
    Inspected {
        identity: ReplacementTargetIdentity::Existing(file(inode)),
        revision: Some(revision),
    }
}

fn code_of(response: &Response) -> &'static str {
    match &response.body {
        Body::Problem(details) => details.code.as_str(),
        Body::Operation(body) => body.code.map_or("none", |code| code.as_str()),
        _ => "none",
    }
}

#[test]
fn browser_mutations_are_told_by_their_paths() {
    for path in [
        "__dufs__/api/mkdir",
        "__dufs__/api/move",
        "__dufs__/api/rename",
    ] {
        assert!(is_tracked_browser_mutation(path));
    }
    assert!(!is_tracked_browser_mutation("__dufs__/api/upload/preflight"));
    assert!(is_single_browser_name("file.txt"));
    for name in ["", ".", "..", "a/b"] {
        assert!(!is_single_browser_name(name), "{name}");
    }
    assert_eq!(logical_child("/", "a"), "/a");
    assert_eq!(logical_child("/docs", "a"), "/docs/a");
}

#[test]
fn moves_keep_the_name_and_renames_keep_the_directory() {
    let policy = policy();
    let moved = handle_api_move(&policy, "/docs/a.txt", "/archive")
        .unwrap_or_else(|_| panic!("the move makes sense"));
    assert!(moved.destination.equals(&path("/srv/share/archive/a.txt")));
    assert!(moved
        .destination_directory
        .equals(&path("/srv/share/archive")));
    let renamed = handle_api_rename(&policy, "/docs/a.txt", "b.txt")
        .unwrap_or_else(|_| panic!("the rename makes sense"));
    assert!(renamed.destination.equals(&path("/srv/share/docs/b.txt")));
    assert_eq!(
        handle_api_rename(&policy, "/docs/a.txt", "b/c").err(),
        Some(TrackedOperationError::InvalidRenameName)
    );
    assert_eq!(
        handle_api_move(&policy, "/", "/archive").err(),
        Some(TrackedOperationError::InvalidSourcePath)
    );
}

fn relocation(overwrite: bool) -> RelocationRequest {
    RelocationRequest {
        source: path("/srv/share/a"),
        destination: path("/srv/share/docs/a"),
        destination_directory: path("/srv/share/docs"),
        source_revision: RevisionField::Valid(OLD),
        destination_revision: if overwrite {
            RevisionField::Valid(OLD)
        } else {
            RevisionField::Absent
        },
        overwrite,
        kind: RelocationKind::Move,
    }
}

fn calm_relocation(probe: RelocationProbe, seen: &mut RelocationSeen) {
    let node = |inode| NodeMetadata {
        is_directory: false,
        device: 1,
        inode,
    };
    match probe {
        RelocationProbe::TakePaths => seen.paths = Some(true),
        RelocationProbe::InspectSource => seen.source = Some(Ok(existing(1, OLD))),
        RelocationProbe::SourceEscape => seen.source_escapes = Some(Ok(false)),
        RelocationProbe::DestinationEscape => seen.destination_escapes = Some(Ok(false)),
        RelocationProbe::SourcePlatform { protect_ancestors } => {
            assert!(protect_ancestors);
            seen.source_is_platform = Some(Ok(false));
        }
        RelocationProbe::DestinationPlatform { protect_ancestors } => {
            assert!(protect_ancestors);
            seen.destination_is_platform = Some(Ok(false));
        }
        RelocationProbe::StatSource => seen.source_node = Some(Ok(node(1))),
        RelocationProbe::StatDirectory => seen.directory = Some(Ok(true)),
        RelocationProbe::InspectDestination => {
            seen.destination = Some(Ok(Inspected {
                identity: ReplacementTargetIdentity::Missing,
                revision: None,
            }))
        }
        RelocationProbe::StatDestination => {
            seen.destination_node = Some(Err(failure(IoErrorKind::NotFound)))
        }
        RelocationProbe::DestinationEscapeAgain => {
            seen.destination_escapes_again = Some(Ok(false))
        }
        RelocationProbe::StateConflict => seen.conflict = Some(Some(false)),
        RelocationProbe::Commit => {
            seen.committed = Some(Ok(CheckedRelocationOutcome::Relocated))
        }
        RelocationProbe::InspectSourceAgain | RelocationProbe::InspectDestinationAgain => {
            seen.again = Some(Some(Some(NEW)))
        }
    }
}

fn relocate(
    request: &RelocationRequest,
    answers: impl Fn(RelocationProbe, &mut RelocationSeen),
) -> (RelocationVerdict, RelocationSeen) {
    let mut seen = RelocationSeen::new();
    for _ in 0..40 {
        match handle_api_relocation(&policy(), request, &seen) {
            Step::Ask(probe) => answers(probe, &mut seen),
            Step::Done(verdict) => return (verdict, seen),
        }
    }
    panic!("the relocation must end");
}

fn refusal_of(verdict: RelocationVerdict) -> Refusal {
    match verdict {
        RelocationVerdict::Refuse(refusal) | RelocationVerdict::Failed(refusal) => refusal,
        _ => panic!("a refusal is expected"),
    }
}

#[test]
fn relocations_are_confirmed_and_committed() {
    let (verdict, seen) = relocate(&relocation(false), calm_relocation);
    assert!(matches!(verdict, RelocationVerdict::Relocated));
    assert_eq!(
        commit_expectations(&relocation(false), &seen),
        Some((ReplacementTargetIdentity::Existing(file(1)), None))
    );
    let recorded = commit_outcome(CheckedRelocationOutcome::Relocated);
    assert_eq!(recorded.public_state(), OperationPublicState::Succeeded);
}

#[test]
fn relocations_are_refused_for_stale_or_missing_confirmations() {
    let mut request = relocation(false);
    request.source_revision = RevisionField::Absent;
    let refusal = refusal_of(relocate(&request, calm_relocation).0);
    assert_eq!(refusal.error, TrackedOperationError::SourceRevisionRequired);
    request.source_revision = RevisionField::Valid(NEW);
    let refusal = refusal_of(relocate(&request, calm_relocation).0);
    assert_eq!(refusal.error, TrackedOperationError::SourceChanged);
    assert_eq!(refusal.status, 412);
    assert_eq!(refusal.revision, RevisionHeader::Source(Some(OLD)));

    let refusal = refusal_of(
        relocate(&relocation(false), |probe, seen| match probe {
            RelocationProbe::InspectDestination => seen.destination = Some(Ok(existing(9, OLD))),
            RelocationProbe::StatDestination => {
                seen.destination_node = Some(Ok(NodeMetadata {
                    is_directory: false,
                    device: 1,
                    inode: 9,
                }))
            }
            _ => calm_relocation(probe, seen),
        })
        .0,
    );
    assert_eq!(refusal.error, TrackedOperationError::DestinationExists);
    assert_eq!(refusal.status, 409);
}

#[test]
fn relocations_that_lose_a_race_are_reported_as_failed() {
    for (outcome, error) in [
        (
            CheckedRelocationOutcome::SourceChanged,
            TrackedOperationError::SourceChanged,
        ),
        (
            CheckedRelocationOutcome::DestinationExists,
            TrackedOperationError::DestinationExists,
        ),
    ] {
        let (verdict, _) = relocate(&relocation(false), |probe, seen| match probe {
            RelocationProbe::Commit => seen.committed = Some(Ok(outcome)),
            _ => calm_relocation(probe, seen),
        });
        assert!(matches!(verdict, RelocationVerdict::Failed(refusal) if refusal.error == error));
        assert_eq!(
            commit_outcome(outcome).public_state(),
            OperationPublicState::Failed
        );
    }
    let (verdict, _) = relocate(&relocation(false), |probe, seen| match probe {
        RelocationProbe::Commit => seen.committed = Some(Err(failure(IoErrorKind::Other))),
        _ => calm_relocation(probe, seen),
    });
    assert!(matches!(verdict, RelocationVerdict::Fail(_)));
}

#[test]
fn relocations_give_up_without_a_path_or_a_state() {
    let (verdict, _) = relocate(&relocation(false), |probe, seen| match probe {
        RelocationProbe::TakePaths => seen.paths = Some(false),
        _ => calm_relocation(probe, seen),
    });
    assert!(matches!(verdict, RelocationVerdict::NoPath));
    let (verdict, _) = relocate(&relocation(false), |probe, seen| match probe {
        RelocationProbe::StateConflict => seen.conflict = Some(None),
        _ => calm_relocation(probe, seen),
    });
    assert!(matches!(verdict, RelocationVerdict::StateUnavailable));
    let refusal = refusal_of(
        relocate(&relocation(false), |probe, seen| match probe {
            RelocationProbe::StateConflict => seen.conflict = Some(Some(true)),
            _ => calm_relocation(probe, seen),
        })
        .0,
    );
    assert_eq!(refusal.error, TrackedOperationError::MoveStateConflict);
}

#[test]
fn refusals_carry_the_current_revision() {
    let mut response = Response::new();
    let refusal = Refusal {
        status: 412,
        error: TrackedOperationError::SourceChanged,
        revision: RevisionHeader::Source(Some(NEW)),
    };
    render_refusal(&mut response, Some(3), &refusal, Some("rev"));
    assert_eq!(response.status, 412);
    assert_eq!(response.headers.get("x-dufs-source-revision"), Some("rev"));
    assert_eq!(
        response.headers.get("x-dufs-operation-id"),
        Some("00000000-0000-0000-0000-000000000003")
    );
    assert_eq!(code_of(&response), "source_changed");

    let mut response = Response::new();
    render_completed_error(None, &mut response, 404, TrackedOperationError::TargetNotFound);
    assert_eq!(response.status, 404);
    assert!(response.headers.get("x-dufs-operation-id").is_none());
    let mut response = Response::new();
    render_completed_success(Some(3), &mut response, 201);
    assert_eq!(response.status, 201);
}

fn mkdir(seen: &mut MkdirSeen, answers: impl Fn(MkdirProbe, &mut MkdirSeen)) -> MkdirVerdict {
    for _ in 0..16 {
        match handle_api_mkdir(&policy(), "/docs/new", seen) {
            Step::Ask(probe) => answers(probe, seen),
            Step::Done(verdict) => return verdict,
        }
    }
    panic!("the request must end");
}

fn calm_mkdir(probe: MkdirProbe, seen: &mut MkdirSeen) {
    match probe {
        MkdirProbe::TakePath => seen.path = Some(true),
        MkdirProbe::Escape => seen.escapes = Some(Ok(false)),
        MkdirProbe::Platform { protect_ancestors } => {
            assert!(!protect_ancestors);
            seen.is_platform = Some(Ok(false));
        }
        MkdirProbe::Stat => seen.entry = Some(Err(failure(IoErrorKind::NotFound))),
        MkdirProbe::StateConflict => seen.conflict = Some(Some(false)),
        MkdirProbe::Commit => seen.committed = Some(Ok(())),
    }
}

#[test]
fn directories_are_made_where_nothing_stands() {
    assert!(matches!(
        mkdir(&mut MkdirSeen::new(), calm_mkdir),
        MkdirVerdict::Created
    ));
    let taken = mkdir(&mut MkdirSeen::new(), |probe, seen| match probe {
        MkdirProbe::Stat => seen.entry = Some(Ok(())),
        _ => calm_mkdir(probe, seen),
    });
    assert!(matches!(taken, MkdirVerdict::Refuse(refusal)
        if refusal.error == TrackedOperationError::PathExists && refusal.status == 409));
    let raced = mkdir(&mut MkdirSeen::new(), |probe, seen| match probe {
        MkdirProbe::Commit => {
            seen.committed = Some(Err(failure(IoErrorKind::AlreadyExists)))
        }
        _ => calm_mkdir(probe, seen),
    });
    assert!(matches!(raced, MkdirVerdict::Failed(_)));
    let reserved = mkdir(&mut MkdirSeen::new(), |probe, seen| match probe {
        MkdirProbe::Platform { .. } => seen.is_platform = Some(Ok(true)),
        _ => calm_mkdir(probe, seen),
    });
    assert!(matches!(reserved, MkdirVerdict::Refuse(_)));
    assert!(matches!(
        handle_api_mkdir(&policy(), "/healthz", &MkdirSeen::new()),
        Step::Done(MkdirVerdict::Refuse(refusal))
            if refusal.error == TrackedOperationError::InvalidPath
    ));
    let mut response = Response::new();
    render_mkdir_state_unavailable(Some(4), &mut response);
    assert_eq!(response.status, 503);
    assert_eq!(response.headers.get("retry-after"), Some("1"));
}

fn delete(answers: impl Fn(DeleteProbe, &mut DeleteSeen)) -> (DeleteVerdict, Vec<DeleteProbe>) {
    let mut seen = DeleteSeen::new();
    let mut asked = Vec::new();
    for _ in 0..16 {
        match handle_delete(&seen) {
            Step::Ask(probe) => {
                asked.push(probe);
                answers(probe, &mut seen);
            }
            Step::Done(verdict) => return (verdict, asked),
        }
    }
    panic!("the deletion must end");
}

fn calm_delete(probe: DeleteProbe, seen: &mut DeleteSeen) {
    match probe {
        DeleteProbe::StateConflict => seen.conflict = Some(Some(false)),
        DeleteProbe::Prepare => seen.prepared = Some(PrepareResult::Prepared),
        DeleteProbe::MarkStarted => seen.started = Some(true),
        DeleteProbe::MoveToTrash => seen.moved = Some(TrashVerdict::Moved(file(1))),
        DeleteProbe::DropIntent => seen.dropped = Some(true),
        DeleteProbe::MarkReady => seen.ready = Some(true),
        DeleteProbe::Record(_) => seen.recorded = Some(true),
        DeleteProbe::InspectAgain => seen.revision = Some(Some(NEW)),
        DeleteProbe::Notify => seen.notified = true,
        DeleteProbe::Reconcile => seen.reconciled = true,
    }
}

#[test]
fn deletions_are_told_once_the_purge_can_follow() {
    let (verdict, asked) = delete(calm_delete);
    assert_eq!(
        verdict,
        DeleteVerdict::Known(DeleteOutcome::Deleted, RevisionHeader::Untouched)
    );
    assert_eq!(
        asked,
        vec![
            DeleteProbe::StateConflict,
            DeleteProbe::Prepare,
            DeleteProbe::MarkStarted,
            DeleteProbe::MoveToTrash,
            DeleteProbe::MarkReady,
            DeleteProbe::Record(DeleteOutcome::Deleted),
            DeleteProbe::Notify,
        ]
    );
}

#[test]
fn purge_prepare_and_rejection_write_failures_do_not_report_a_known_outcome() {
    let (verdict, _) = delete(|probe, seen| match probe {
        DeleteProbe::Prepare => seen.prepared = Some(PrepareResult::Failed),
        DeleteProbe::Record(_) => seen.recorded = Some(false),
        _ => calm_delete(probe, seen),
    });
    assert_eq!(verdict, DeleteVerdict::Unknown);
    let (verdict, asked) = delete(|probe, seen| match probe {
        DeleteProbe::Record(_) => seen.recorded = Some(false),
        _ => calm_delete(probe, seen),
    });
    assert_eq!(verdict, DeleteVerdict::Unknown);
    assert!(asked.contains(&DeleteProbe::Reconcile));
}

#[test]
fn deletions_that_did_not_happen_drop_their_intent() {
    let (verdict, asked) = delete(|probe, seen| match probe {
        DeleteProbe::MoveToTrash => seen.moved = Some(TrashVerdict::TargetChanged),
        _ => calm_delete(probe, seen),
    });
    assert_eq!(
        verdict,
        DeleteVerdict::Known(
            DeleteOutcome::TargetChanged,
            RevisionHeader::Source(Some(NEW))
        )
    );
    assert!(asked.contains(&DeleteProbe::DropIntent));
    let (verdict, _) = delete(|probe, seen| match probe {
        DeleteProbe::MoveToTrash => {
            seen.moved = Some(TrashVerdict::NotMoved(failure(IoErrorKind::Other)))
        }
        _ => calm_delete(probe, seen),
    });
    assert_eq!(
        verdict,
        DeleteVerdict::Known(DeleteOutcome::NotCommitted, RevisionHeader::Untouched)
    );
    let (verdict, asked) = delete(|probe, seen| match probe {
        DeleteProbe::MoveToTrash => {
            seen.moved = Some(TrashVerdict::DurabilityUnknown(failure(IoErrorKind::Other)))
        }
        _ => calm_delete(probe, seen),
    });
    assert_eq!(verdict, DeleteVerdict::Unknown);
    assert!(!asked.contains(&DeleteProbe::DropIntent));
    assert!(asked.contains(&DeleteProbe::Reconcile));
    let (verdict, _) = delete(|probe, seen| match probe {
        DeleteProbe::StateConflict => seen.conflict = Some(None),
        _ => calm_delete(probe, seen),
    });
    assert_eq!(verdict, DeleteVerdict::StateUnavailable);
    for (result, outcome) in [
        (PrepareResult::Full, DeleteOutcome::BacklogFull),
        (PrepareResult::Failed, DeleteOutcome::PurgeUnavailable),
    ] {
        let (verdict, _) = delete(|probe, seen| match probe {
            DeleteProbe::Prepare => seen.prepared = Some(result),
            _ => calm_delete(probe, seen),
        });
        assert_eq!(
            verdict,
            DeleteVerdict::Known(outcome, RevisionHeader::Untouched)
        );
    }
    let (verdict, _) = delete(|probe, seen| match probe {
        DeleteProbe::StateConflict => seen.conflict = Some(Some(true)),
        _ => calm_delete(probe, seen),
    });
    assert_eq!(
        verdict,
        DeleteVerdict::Known(DeleteOutcome::Conflict, RevisionHeader::Untouched)
    );
}

#[test]
fn deletions_are_answered_with_their_outcome() {
    for (outcome, status) in [
        (DeleteOutcome::Conflict, 409),
        (DeleteOutcome::BacklogFull, 503),
        (DeleteOutcome::PurgeUnavailable, 503),
        (DeleteOutcome::TargetChanged, 412),
        (DeleteOutcome::NotCommitted, 500),
        (DeleteOutcome::Deleted, 204),
    ] {
        let mut response = Response::new();
        render_deletion(&mut response, 9, outcome, RevisionHeader::Untouched, None);
        assert_eq!(response.status, status, "{outcome:?}");
        assert_eq!(
            response.headers.get("x-dufs-operation-id"),
            Some("00000000-0000-0000-0000-000000000009")
        );
        let recorded = outcome.recorded();
        assert_eq!(
            recorded.public_state() == OperationPublicState::Succeeded,
            status == 204
        );
    }
    let mut response = Response::new();
    render_delete_state_unavailable(&mut response, 9);
    assert_eq!(response.status, 503);
    assert_eq!(response.headers.get("retry-after"), Some("1"));
    assert_eq!(code_of(&response), "purge_state_unavailable");
}

fn dispatch(path: &str, id: Option<&str>, seen: &DispatchSeen) -> Step<DispatchProbe, DispatchVerdict> {
    let ids = match id {
        Some(id) => vec![Some(id.to_string())],
        None => Vec::new(),
    };
    handle_browser_api(
        path,
        &ids,
        &vec![Some("application/json".to_string())],
        seen,
    )
}

#[test]
fn mutations_run_in_an_operation_of_their_own() {
    let id = "00000000-0000-0000-0000-000000000007";
    let mut seen = DispatchSeen {
        body: None,
        begun: None,
        request: None,
    };
    assert!(matches!(
        dispatch("__dufs__/api/mkdir", None, &seen),
        Step::Done(DispatchVerdict::InvalidId { .. })
    ));
    assert!(matches!(
        dispatch("__dufs__/api/unknown", Some(id), &seen),
        Step::Done(DispatchVerdict::Refuse {
            refusal: DispatchRefusal::UnknownEndpoint,
            ..
        })
    ));
    assert!(matches!(
        dispatch("__dufs__/api/upload/preflight", None, &seen),
        Step::Done(DispatchVerdict::Preflight)
    ));
    assert!(matches!(
        dispatch("__dufs__/api/mkdir", Some(id), &seen),
        Step::Ask(DispatchProbe::ReadBody)
    ));
    seen.body = Some(Ok(()));
    assert!(matches!(
        dispatch("__dufs__/api/mkdir", Some(id), &seen),
        Step::Ask(DispatchProbe::Begin(7))
    ));
    for (begun, expected) in [
        (Begun::Running, DispatchVerdict::Running(7)),
        (Begun::Replay, DispatchVerdict::Replay(7)),
        (Begun::Conflict, DispatchVerdict::Conflict(7)),
        (Begun::Full, DispatchVerdict::Full(7)),
        (Begun::Unavailable, DispatchVerdict::Unavailable(7)),
    ] {
        seen.begun = Some(begun);
        match (dispatch("__dufs__/api/mkdir", Some(id), &seen), expected) {
            (Step::Done(DispatchVerdict::Running(a)), DispatchVerdict::Running(b)) => {
                assert_eq!(a, b)
            }
            (Step::Done(DispatchVerdict::Replay(a)), DispatchVerdict::Replay(b)) => {
                assert_eq!(a, b)
            }
            (Step::Done(DispatchVerdict::Conflict(a)), DispatchVerdict::Conflict(b)) => {
                assert_eq!(a, b)
            }
            (Step::Done(DispatchVerdict::Full(a)), DispatchVerdict::Full(b)) => assert_eq!(a, b),
            (Step::Done(DispatchVerdict::Unavailable(a)), DispatchVerdict::Unavailable(b)) => {
                assert_eq!(a, b)
            }
            _ => panic!("the beginning decides"),
        }
    }
    seen.begun = Some(Begun::Started);
    seen.request = Some(false);
    assert!(matches!(
        dispatch("__dufs__/api/mkdir", Some(id), &seen),
        Step::Done(DispatchVerdict::InvalidJson(7))
    ));
    seen.request = Some(true);
    assert!(matches!(
        dispatch("__dufs__/api/rename", Some(id), &seen),
        Step::Done(DispatchVerdict::Run {
            mutation: BrowserMutation::Rename,
            operation_id: 7
        })
    ));
    seen.body = Some(Err(BodyFault::TooLarge));
    assert!(matches!(
        dispatch("__dufs__/api/mkdir", Some(id), &seen),
        Step::Done(DispatchVerdict::Refuse {
            refusal: DispatchRefusal::BodyTooLarge,
            on_behalf_of: Some(7)
        })
    ));
    let mut response = Response::new();
    DispatchRefusal::BodyTooLarge.respond(&mut response, Some(7));
    assert_eq!(response.status, 413);
    let mut response = Response::new();
    DispatchRefusal::NotJson.respond(&mut response, None);
    assert_eq!(response.status, 415);
}

#[test]
fn fingerprints_are_digests_of_framed_requests() {
    let mut digest = sha2::Sha256::new();
    for part in [&b"POST"[..], &b"__dufs__/api/mkdir"[..], &b"{}"[..]] {
        digest.update((part.len() as u64).to_be_bytes());
        digest.update(part);
    }
    let expected: [u8; 32] = digest.finalize().into();
    assert_eq!(
        request_fingerprint("__dufs__/api/mkdir", b"{}").bytes,
        expected
    );
    assert_ne!(
        request_fingerprint("__dufs__/api/mkdi", b"r{}").bytes,
        expected
    );
}

#[test]
fn untracked_bodies_are_json_of_bounded_size() {
    let json = vec![Some("application/json".to_string())];
    assert!(matches!(
        collect_untracked_api_body(&json, &None),
        Step::Ask(BodyProbe::ReadBody)
    ));
    assert!(matches!(
        collect_untracked_api_body(&Vec::new(), &None),
        Step::Done(Err(DispatchRefusal::NotJson))
    ));
    assert!(matches!(
        collect_untracked_api_body(&json, &Some(Err(BodyFault::Broken))),
        Step::Done(Err(DispatchRefusal::BrokenBody))
    ));
    assert!(matches!(
        collect_untracked_api_body(&json, &Some(Ok(()))),
        Step::Done(Ok(()))
    ));
}

#[test]
fn discards_name_an_upload_and_a_path() {
    let id = "00000000-0000-0000-0000-00000000000a";
    let mut seen = DiscardSeen {
        escapes: None,
        is_platform: None,
        path: None,
    };
    assert!(matches!(
        handle_upload_discard(&policy(), "not an id", "/docs/a", &seen),
        Step::Done(DiscardVerdict::Refuse(DiscardRefusal::InvalidUploadId))
    ));
    assert!(matches!(
        handle_upload_discard(&policy(), id, "docs", &seen),
        Step::Done(DiscardVerdict::Refuse(DiscardRefusal::InvalidPath))
    ));
    assert!(matches!(
        handle_upload_discard(&policy(), id, "/docs/a", &seen),
        Step::Ask(DiscardProbe::Escape)
    ));
    seen.escapes = Some(Ok(false));
    seen.is_platform = Some(Ok(false));
    seen.path = Some(false);
    assert!(matches!(
        handle_upload_discard(&policy(), id, "/docs/a", &seen),
        Step::Done(DiscardVerdict::NoPath)
    ));
    seen.path = Some(true);
    assert!(matches!(
        handle_upload_discard(&policy(), id, "/docs/a", &seen),
        Step::Done(DiscardVerdict::Discard(10))
    ));
    let mut response = Response::new();
    DiscardRefusal::InvalidPath.respond(&mut response);
    assert_eq!(response.status, 400);
}

#[test]
fn preflights_take_a_bounded_list_of_different_paths() {
    let list = |paths: &[&str]| {
        check_preflight_list(&paths.iter().map(|path| path.to_string()).collect())
    };
    assert!(list(&["/a", "/b"]).is_ok());
    assert_eq!(list(&[]).err(), Some(PreflightRefusal::WrongPathCount));
    assert_eq!(
        list(&["/a", "/b", "/a"]).err(),
        Some(PreflightRefusal::RepeatedPath)
    );
    assert_eq!(
        check_preflight_list(&(0..513).map(|number| format!("/{number}")).collect()).err(),
        Some(PreflightRefusal::WrongPathCount)
    );
    assert_eq!(
        check_preflight_list(&vec!["x".repeat(262_145)]).err(),
        Some(PreflightRefusal::PathsTooLong)
    );
    let mut response = Response::new();
    PreflightRefusal::TooManyRequests.respond(&mut response);
    assert_eq!(response.status, 429);
}

#[test]
fn preflights_look_at_targets_that_can_be_reached() {
    let target = Some(path("/srv/share/docs/new"));
    let mut seen = PreflightSeen::new();
    assert!(matches!(
        handle_upload_preflight_path(&policy(), &None, &seen),
        Step::Done(PreflightVerdict::Refuse(PreflightRefusal::InvalidPath))
    ));
    assert!(matches!(
        handle_upload_preflight_path(&policy(), &target, &seen),
        Step::Ask(PreflightProbe::Platform { protect_ancestors: true })
    ));
    seen.is_platform = Some(Ok(true));
    assert!(matches!(
        handle_upload_preflight_path(&policy(), &target, &seen),
        Step::Done(PreflightVerdict::Refuse(PreflightRefusal::ReservedPath))
    ));
    seen.is_platform = Some(Ok(false));
    seen.target = Some(Ok(true));
    seen.barred = Some(Ok(false));
    seen.escapes = Some(Ok(false));
    let inspected = Inspected { identity: ReplacementTargetIdentity::Missing, revision: None };
    seen.inspected = Some(Ok(inspected));
    assert!(matches!(
        handle_upload_preflight_path(&policy(), &target, &seen),
        Step::Done(PreflightVerdict::Listed(found)) if found == inspected
    ));

    let root = path("/srv/share");
    let above = next_ancestor(&path("/srv/share/a/b"), &root).unwrap();
    assert!(above.equals(&path("/srv/share/a")));
    assert!(next_ancestor(&root, &root).is_none());
    assert!(matches!(
        upload_preflight_ancestor(&Ok(true), &None),
        AncestorStep::Barred(false)
    ));
    assert!(matches!(
        upload_preflight_ancestor(&Ok(false), &None),
        AncestorStep::Barred(true)
    ));
    assert!(matches!(
        upload_preflight_ancestor(
            &Err(IoFailure {
                kind: IoErrorKind::Other,
                number: Some(ERROR_CROSS_DEVICE)
            }),
            &None
        ),
        AncestorStep::Barred(true)
    ));
    assert!(matches!(
        upload_preflight_ancestor(&Err(failure(IoErrorKind::NotFound)), &None),
        AncestorStep::LookAtLink
    ));
    assert!(matches!(
        upload_preflight_ancestor(
            &Err(failure(IoErrorKind::NotFound)),
            &Some(Err(failure(IoErrorKind::NotFound)))
        ),
        AncestorStep::GoUp
    ));
}

fn look(seen: &mut PreflightSeen, probe: PreflightProbe) {
    match probe {
        PreflightProbe::Platform { protect_ancestors } => {
            assert!(protect_ancestors);
            seen.is_platform = Some(Ok(false));
        }
        PreflightProbe::Route => seen.target = Some(Ok(true)),
        PreflightProbe::Ancestors => seen.barred = Some(Ok(false)),
        PreflightProbe::Escape => seen.escapes = Some(Ok(false)),
        PreflightProbe::Inspect => {
            seen.inspected = Some(Ok(Inspected {
                identity: ReplacementTargetIdentity::Missing,
                revision: None,
            }));
        }
    }
}

#[test]
fn preflights_look_at_their_paths_one_by_one() {
    let policy = policy();
    let paths = vec!["/a.txt".to_string(), "/docs/b.txt".to_string()];
    let mut batch =
        PreflightBatch::start(paths).unwrap_or_else(|_| panic!("the paths make sense"));
    let mut seen = PreflightSeen::new();
    assert!(matches!(
        batch.handle_upload_preflight_paths(&policy, None, &seen),
        Step::Ask(BatchProbe::TakePlace)
    ));
    assert!(matches!(
        batch.handle_upload_preflight_paths(&policy, Some(false), &seen),
        Step::Done(BatchVerdict::Refuse(PreflightRefusal::TooManyRequests))
    ));
    loop {
        match batch.handle_upload_preflight_paths(&policy, Some(true), &seen) {
            Step::Ask(BatchProbe::Look(probe)) => look(&mut seen, probe),
            Step::Done(BatchVerdict::Listed(inspected)) => {
                batch.advance(inspected);
                seen = PreflightSeen::new();
            }
            Step::Done(BatchVerdict::AllListed) => break,
            _ => panic!("the targets can be told of"),
        }
    }
    assert!(batch.current().is_none());
    let targets = batch.into_targets();
    assert_eq!(targets.len(), 2);
    for (target, path) in targets.iter().zip(["/a.txt", "/docs/b.txt"]) {
        assert_eq!(target.path, path);
        assert!(!target.is_existing && target.is_replaceable);
        assert!(target.revision.is_none());
    }
}

#[test]
fn repeated_requests_are_answered_from_the_record() {
    let key = OperationKey { owner: [7; 32], id: 9 };
    let first = request_fingerprint("/__dufs__/api/mkdir", b"{}");
    let guard = OperationGuard::new(key, 1);
    let outcome = OperationOutcome::failure(409, TrackedOperationError::PathExists);
    let StoreCommand::Complete { outcome: record, .. } = guard.complete(outcome) else {
        panic!("an outcome is recorded");
    };
    let again = request_fingerprint("/__dufs__/api/mkdir", b"{}");
    assert_eq!(again.bytes, first.bytes);
    assert_ne!(request_fingerprint("/__dufs__/api/mkdir", b"[]").bytes, first.bytes);
    assert_ne!(request_fingerprint("/__dufs__/api/move", b"{}").bytes, first.bytes);

    let content_types = vec![Some("application/json".to_string())];
    let id = "00000000-0000-0000-0000-000000000009".to_string();
    let decide = |begun: Begun| {
        let seen = DispatchSeen { body: Some(Ok(())), begun: Some(begun), request: None };
        let values = vec![Some(id.clone())];
        handle_browser_api(dufs::browser_api::MKDIR_API_PATH, &values, &content_types, &seen)
    };
    let begun = begin(key, Ok(StoreBegin::Replay(record))).unwrap_or_else(|_| panic!());
    assert!(matches!(decide(Begun::of(&begun)), Step::Done(DispatchVerdict::Replay(9))));
    let BeginOperation::Replay(replayed) = begun else {
        panic!("the outcome is known");
    };
    let mut response = Response::new();
    apply_operation_outcome(&mut response, 9, replayed, true);
    assert_eq!(response.status, 409);
    assert_eq!(response.headers.get("x-dufs-operation-replayed"), Some("true"));
    match &response.body {
        Body::Problem(details) => assert_eq!(details.code.as_str(), "path_exists"),
        _ => panic!("a problem is expected"),
    }

    let begun = begin(key, Ok(StoreBegin::Conflict)).unwrap_or_else(|_| panic!());
    assert!(matches!(decide(Begun::of(&begun)), Step::Done(DispatchVerdict::Conflict(9))));
    let mut response = Response::new();
    apply_conflict(&mut response, 9);
    assert_eq!(response.status, 409);
    match &response.body {
        Body::Problem(details) => assert_eq!(details.code.as_str(), "operation_id_conflict"),
        _ => panic!("a problem is expected"),
    }
}

#[test]
fn preflights_stop_at_the_first_unusable_path() {
    let policy = policy();
    let paths = vec!["no-slash".to_string(), "/b.txt".to_string()];
    let batch = PreflightBatch::start(paths).unwrap_or_else(|_| panic!("the list makes sense"));
    assert!(matches!(
        batch.handle_upload_preflight_paths(&policy, Some(true), &PreflightSeen::new()),
        Step::Done(BatchVerdict::Refuse(PreflightRefusal::InvalidPath))
    ));
    assert!(matches!(
        PreflightBatch::start(vec!["/a".to_string(), "/a".to_string()]),
        Err(PreflightRefusal::RepeatedPath)
    ));
    let mut response = Response::new();
    PreflightRefusal::InvalidJson.respond(&mut response);
    assert_eq!(response.status, 400);
}
