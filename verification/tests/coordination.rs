use dufs::args::Args;
use dufs::auth::AuthConfig;
use dufs::io_error::{IoErrorKind, IoFailure, ERROR_CROSS_DEVICE};
use dufs::operation_registry::{
    apply_conflict, apply_operation_outcome, apply_registry_full, apply_running, apply_status,
    begin, parse_operation_id, status, BeginOperation, OperationGuard, OperationKey,
    OperationOutcome, OperationStatus, RegistryError, ReservationLost, StoreBegin, StoreCommand,
    StoreCorruption, StoreFailure, StoreStatus, StoredOutcome, StoredTerminalState,
    TrackedOperationError,
};
use dufs::path_coordinator::{
    after_page, conservative_path_key, keys_of, path_keys_conflict, resolved_path_contains,
    AcquireStep,
    FileIdentity, LeaseKey, PagePlan, PathCoordinator, ResolvedPathKey, ScanStep,
    StateBlockingPath, StatePathScanner,
};
use dufs::paths::LexicalPath;
use dufs::problem::OperationPublicState;
use dufs::response::{Body, Response};
use dufs::server::{
    guard_root_contained, probe_readiness, route_metadata, ReadinessProbe, ReadinessProbes,
    ReadinessSeen, ReservedNode, ReservedPathScan, ReservedStep, RouteFound, RouteProbe,
    ServerBuilder, ServerHealth,
};
use dufs::steps::Step;

fn path(text: &str) -> LexicalPath {
    let mut path = LexicalPath::new();
    for name in text.split('/').filter(|name| !name.is_empty()) {
        path.push(name.as_bytes());
    }
    path
}

fn failure(kind: IoErrorKind) -> IoFailure {
    IoFailure { kind, number: None }
}

fn identity(inode: u64) -> FileIdentity {
    FileIdentity { device: 1, inode }
}

/// A path in the root, where the root is the directory of inode one.
fn key(text: &str) -> LeaseKey {
    LeaseKey {
        lexical: path(text),
        resolved: ResolvedPathKey {
            resolved_parent: identity(1),
            unresolved_tail: path(text),
            ancestor_directories: vec![identity(1)],
            target_directory: None,
        },
    }
}

fn acquire(coordinator: &mut PathCoordinator, text: &str) -> Option<u64> {
    let mut pending = coordinator.begin_acquire(&vec![path(text)]);
    for _ in 0..8 {
        match coordinator.advance(&pending) {
            AcquireStep::Resolve(epoch) => {
                let resolved = vec![Some(key(text).resolved)];
                match coordinator.settle(&mut pending, epoch, &resolved, identity(1)) {
                    AcquireStep::Acquired(lease) => return Some(lease),
                    _ => continue,
                }
            }
            AcquireStep::Acquired(lease) => return Some(lease),
            AcquireStep::Again => continue,
            AcquireStep::Wait => {
                coordinator.withdraw(pending.place());
                return None;
            }
        }
    }
    panic!("the request must settle");
}

#[test]
fn paths_on_one_line_are_changed_one_after_another() {
    let mut coordinator = PathCoordinator::new();
    let first = acquire(&mut coordinator, "docs/a").unwrap();
    assert!(acquire(&mut coordinator, "docs").is_none());
    assert!(acquire(&mut coordinator, "docs/a/b").is_none());
    let second = acquire(&mut coordinator, "docs/b").unwrap();
    coordinator.release(first);
    assert!(acquire(&mut coordinator, "docs/a/b").is_some());
    coordinator.release(second);
}

#[test]
fn unresolved_paths_wait_for_everybody() {
    let mut coordinator = PathCoordinator::new();
    let held = acquire(&mut coordinator, "docs/a").unwrap();
    let wanted = vec![path("other/b"), path("other/a"), path("other/b")];
    let mut pending = coordinator.begin_acquire(&wanted);
    let lexical = pending.paths_to_resolve();
    assert_eq!(lexical.len(), 2);
    let resolved = vec![Some(key("other/a").resolved)];
    let keys = keys_of(lexical, &resolved, identity(1));
    assert_eq!(keys.len(), 2);
    assert!(keys[0].resolved.unresolved_tail.equals(&path("other/a")));
    assert!(keys[1].lexical.equals(&path("other/b")));
    assert!(keys[1].resolved.target_directory == Some(identity(1)));
    assert!(keys[1].resolved.ancestor_directories == [identity(1)]);
    let AcquireStep::Resolve(epoch) = coordinator.advance(&pending) else {
        panic!("nothing of that name is held");
    };
    assert!(matches!(
        coordinator.settle(&mut pending, epoch, &resolved, identity(1)),
        AcquireStep::Wait
    ));
    coordinator.release(held);
    let AcquireStep::Resolve(epoch) = coordinator.advance(&pending) else {
        panic!("an epoch has passed");
    };
    assert!(matches!(
        coordinator.settle(&mut pending, epoch, &resolved, identity(1)),
        AcquireStep::Acquired(_)
    ));
    assert!(acquire(&mut coordinator, "docs/a").is_none());
}

#[test]
fn blocked_requests_keep_their_place() {
    let mut coordinator = PathCoordinator::new();
    let held = acquire(&mut coordinator, "docs/a").unwrap();
    let mut pending = coordinator.begin_acquire(&vec![path("docs")]);
    let resolved = vec![Some(key("docs").resolved)];
    let AcquireStep::Resolve(epoch) = coordinator.advance(&pending) else {
        panic!("no request is in the way");
    };
    let version = coordinator.current_version();
    assert!(matches!(
        coordinator.settle(&mut pending, epoch, &resolved, identity(1)),
        AcquireStep::Wait
    ));
    // The others are told that its keys are known, once.
    assert_eq!(coordinator.current_version(), version + 1);
    assert!(matches!(coordinator.advance(&pending), AcquireStep::Wait));
    assert_eq!(coordinator.current_version(), version + 1);
    assert!(acquire(&mut coordinator, "docs/b").is_none());

    coordinator.release(held);
    let AcquireStep::Resolve(epoch) = coordinator.advance(&pending) else {
        panic!("an epoch has passed");
    };
    let version = coordinator.current_version();
    assert!(matches!(
        coordinator.settle(&mut pending, epoch, &resolved, identity(1)),
        AcquireStep::Acquired(_)
    ));
    // It has left the queue, and is in nobody's way there.
    assert_eq!(coordinator.current_version(), version + 1);
    assert!(matches!(coordinator.advance(&pending), AcquireStep::Again));
    assert!(acquire(&mut coordinator, "other").is_some());
}

#[test]
fn earlier_requests_are_not_overtaken() {
    let mut coordinator = PathCoordinator::new();
    let held = acquire(&mut coordinator, "docs/a").unwrap();
    let waiting = coordinator.begin_acquire(&vec![path("docs")]);
    // What conflicts with the one that waits has to wait as well.
    assert!(acquire(&mut coordinator, "docs/b").is_none());
    coordinator.withdraw(waiting.place());
    assert!(acquire(&mut coordinator, "docs/b").is_some());
    coordinator.release(held);
}

#[test]
fn keys_conflict_where_one_leads_below_the_other() {
    assert!(path_keys_conflict(&key("a"), &key("a/b")));
    assert!(path_keys_conflict(&key("a/b"), &key("a")));
    assert!(!path_keys_conflict(&key("a/b"), &key("a/c")));
    let root = conservative_path_key(identity(1));
    assert!(resolved_path_contains(&root, &key("a/b").resolved));
}

#[test]
fn stored_paths_are_scanned_page_by_page() {
    let stored = |text: &str| StateBlockingPath {
        path: Some(path(text)),
        allows_exact_replacement: false,
    };
    let mut scanner = StatePathScanner::for_conflicts(vec![path("docs/a")]);
    let page = vec![stored("docs/b")];
    let to_resolve = match scanner.plan_page(&page) {
        PagePlan::Resolve(paths) => paths,
        _ => panic!("the paths have to be resolved"),
    };
    assert_eq!(to_resolve.len(), 2);
    assert!(!scanner.page_conflicts(
        &page,
        Some(vec![key("docs/b").resolved, key("docs/a").resolved])
    ));
    let page = vec![stored("docs")];
    assert!(matches!(scanner.plan_page(&page), PagePlan::Resolve(_)));
    assert!(scanner.page_conflicts(&page, Some(vec![key("docs").resolved])));
    let unreadable = vec![StateBlockingPath {
        path: None,
        allows_exact_replacement: false,
    }];
    assert!(matches!(scanner.plan_page(&unreadable), PagePlan::Conflict));
    assert!(matches!(after_page(true, Some(3)), ScanStep::Conflict));
    assert!(matches!(after_page(false, Some(3)), ScanStep::NextPage(3)));
    assert!(matches!(after_page(false, None), ScanStep::Clear));
}

fn operation() -> OperationKey {
    OperationKey {
        owner: [1; 32],
        id: 7,
    }
}

#[test]
fn operations_are_begun_and_completed_once() {
    let guard = match begin(operation(), Ok(StoreBegin::Started { lease: 5 })) {
        Ok(BeginOperation::Started(guard)) => guard,
        _ => panic!("the operation starts"),
    };
    assert_eq!(guard.id(), 7);
    assert!(matches!(
        guard.mark_commit_started(),
        Some(StoreCommand::MarkCommitStarted { lease: 5, .. })
    ));
    assert_eq!(guard.commit_marked(true), Ok(()));
    assert_eq!(
        guard.commit_marked(false),
        Err(ReservationLost::BeforeCommit)
    );
    let mut guard = guard;
    assert!(matches!(
        guard.complete(OperationOutcome::success(201)),
        StoreCommand::Complete { lease: 5, .. }
    ));
    assert_eq!(guard.outcome_recorded(true), Ok(()));
    assert!(guard.release().is_none());

    let abandoned = OperationGuard::new(operation(), 6);
    assert!(matches!(
        abandoned.release(),
        Some(StoreCommand::Abandon { lease: 6, .. })
    ));
}

#[test]
fn beginnings_that_are_not_starts_are_told_apart() {
    assert!(matches!(
        begin(operation(), Ok(StoreBegin::Running)),
        Ok(BeginOperation::Running)
    ));
    assert!(matches!(
        begin(operation(), Ok(StoreBegin::Conflict)),
        Ok(BeginOperation::Conflict)
    ));
    assert!(matches!(
        begin(operation(), Ok(StoreBegin::Full)),
        Ok(BeginOperation::Full)
    ));
    assert!(matches!(
        begin(operation(), Err(StoreFailure::NotDispatched)),
        Ok(BeginOperation::Unavailable)
    ));
    assert!(matches!(
        begin(operation(), Err(StoreFailure::Failed)),
        Err(RegistryError::Store)
    ));
    assert!(matches!(
        begin(
            operation(),
            Ok(StoreBegin::Replay(StoredOutcome {
                status: 201,
                state: StoredTerminalState::Succeeded,
                code: None,
            }))
        ),
        Ok(BeginOperation::Replay(_))
    ));
}

#[test]
fn stored_outcomes_come_back_as_they_were() {
    for outcome in [
        OperationOutcome::success(201),
        OperationOutcome::failure(409, TrackedOperationError::PathExists),
        OperationOutcome::uncertain(),
    ] {
        let reloaded = match OperationOutcome::from_stored(outcome.into_stored()) {
            Ok(reloaded) => reloaded,
            Err(_) => panic!("what was written can be read"),
        };
        assert_eq!(reloaded.public_state(), outcome.public_state());
        assert_eq!(
            reloaded.into_stored().status,
            outcome.into_stored().status
        );
    }
    let wrong = |status, state, code: Option<&str>| {
        OperationOutcome::from_stored(StoredOutcome {
            status,
            state,
            code: code.map(|code| code.to_string()),
        })
        .err()
    };
    assert_eq!(
        wrong(99, StoredTerminalState::Succeeded, None),
        Some(StoreCorruption::InvalidStatus)
    );
    assert_eq!(
        wrong(409, StoredTerminalState::Failed, Some("no such code")),
        Some(StoreCorruption::UnknownError)
    );
    assert_eq!(
        wrong(409, StoredTerminalState::Failed, None),
        Some(StoreCorruption::IncompleteOutcome)
    );
    assert_eq!(
        wrong(500, StoredTerminalState::Succeeded, None),
        Some(StoreCorruption::SuccessWithoutSuccessStatus)
    );
    assert_eq!(
        wrong(200, StoredTerminalState::Failed, Some("path_exists")),
        Some(StoreCorruption::FailureWithSuccessStatus)
    );
}

#[test]
fn operations_are_answered_with_their_state() {
    let mut response = Response::new();
    apply_operation_outcome(&mut response, 7, OperationOutcome::success(201), true);
    assert_eq!(response.status, 201);
    assert_eq!(
        response.headers.get("x-dufs-operation-id"),
        Some("00000000-0000-0000-0000-000000000007")
    );
    let mut response = Response::new();
    apply_running(&mut response, 7);
    assert_eq!(response.status, 202);
    let mut response = Response::new();
    apply_conflict(&mut response, 7);
    assert_eq!(response.status, 409);
    let mut response = Response::new();
    apply_registry_full(&mut response, 7);
    assert_eq!(response.status, 503);
    let read = match status(Ok(StoreStatus::NotFound)) {
        Ok(read) => read,
        Err(_) => panic!("the store answered"),
    };
    let mut response = Response::new();
    apply_status(&mut response, 7, read);
    assert_eq!(response.status, 404);
    let mut response = Response::new();
    apply_status(&mut response, 7, OperationStatus::Running);
    assert!(matches!(&response.body, Body::Job(body)
        if body.state == OperationPublicState::Running));
}

#[test]
fn operation_headers_hold_one_id() {
    let id = "00000000-0000-0000-0000-000000000007".to_string();
    assert_eq!(parse_operation_id(&Vec::new()), Ok(None));
    assert_eq!(parse_operation_id(&vec![Some(id.clone())]), Ok(Some(7)));
    assert!(parse_operation_id(&vec![Some(id.clone()), Some(id)]).is_err());
    assert!(parse_operation_id(&vec![None]).is_err());
    assert!(parse_operation_id(&vec![Some("seven".to_string())]).is_err());
}

#[test]
fn servers_are_ready_where_everything_works() {
    let mut seen = ReadinessSeen {
        entered: None,
        place: None,
        probes: None,
        health: None,
    };
    assert!(matches!(
        probe_readiness(&seen),
        Step::Ask(ReadinessProbe::EnterRequest)
    ));
    seen.entered = Some(true);
    seen.place = Some(true);
    let probes = ReadinessProbes {
        root_writable: true,
        disk_has_room: Some(true),
        state_ready: true,
    };
    let health = ServerHealth {
        registry_healthy: true,
        shutting_down: false,
        forced_down: false,
    };
    seen.probes = Some(Some(probes));
    seen.health = Some(health);
    assert!(matches!(probe_readiness(&seen), Step::Done(true)));
    seen.health = Some(ServerHealth {
        shutting_down: true,
        ..health
    });
    assert!(matches!(probe_readiness(&seen), Step::Done(false)));
    seen.health = Some(health);
    seen.probes = Some(None);
    assert!(matches!(probe_readiness(&seen), Step::Done(false)));
}

#[test]
fn routes_lead_to_targets_or_to_dangling_links() {
    let escape = IoFailure {
        kind: IoErrorKind::Other,
        number: Some(ERROR_CROSS_DEVICE),
    };
    assert!(matches!(
        route_metadata(&None, &None),
        Step::Ask(RouteProbe::Follow)
    ));
    assert!(matches!(
        route_metadata(&Some(Ok(())), &None),
        Step::Done(RouteFound::Target)
    ));
    assert!(matches!(
        route_metadata(&Some(Err(escape)), &Some(Ok(()))),
        Step::Done(RouteFound::Nothing)
    ));
    assert!(matches!(
        route_metadata(&Some(Err(failure(IoErrorKind::NotFound))), &Some(Ok(()))),
        Step::Done(RouteFound::Link)
    ));
    assert_eq!(guard_root_contained(&Err(escape)), Ok(true));
    assert_eq!(guard_root_contained(&Ok(())), Ok(false));
}

#[test]
fn shared_roots_must_not_hold_reserved_paths() {
    let reserved = || vec!["/healthz".to_string(), "/api/v2/auth".to_string()];
    let mut scan = ReservedPathScan::start(&path("/srv/share"), reserved());
    assert!(scan
        .next_path()
        .unwrap()
        .equals(&path("/srv/share/healthz")));
    assert!(matches!(
        scan.observe(&Err(failure(IoErrorKind::NotFound))),
        ReservedStep::Deeper | ReservedStep::Free
    ));
    assert!(scan.next_path().unwrap().equals(&path("/srv/share/api")));
    assert!(matches!(
        scan.observe(&Ok(ReservedNode::Directory)),
        ReservedStep::Deeper
    ));
    assert!(scan.next_path().unwrap().equals(&path("/srv/share/api/v2")));
    assert!(matches!(
        scan.observe(&Ok(ReservedNode::Symlink)),
        ReservedStep::Conflict
    ));
    assert_eq!(
        scan.conflict_message(),
        "Shared root conflicts with reserved platform path /api/v2/auth; preserve the existing data and choose a clean root"
    );
    let mut scan = ReservedPathScan::start(&path("/srv/share"), reserved());
    assert!(matches!(
        scan.observe(&Ok(ReservedNode::Other)),
        ReservedStep::Conflict
    ));
}

fn builder() -> ServerBuilder {
    ServerBuilder::new(Args {
        serve_path: path("/srv/share"),
        auth: AuthConfig::empty(),
        development: false,
        request_timeout: 30,
        max_connections: 64,
        max_concurrent_uploads: 4,
        max_concurrent_searches: 2,
        max_search_entries: 1000,
        min_free_space: 0,
    })
}

#[test]
fn builders_remember_what_they_were_told() {
    assert!(!builder().into_parts().1);
    assert!(builder().with_isolated_list_snapshot_cache().into_parts().1);
}
