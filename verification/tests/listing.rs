use dufs::io_error::{IoErrorKind, IoFailure};
use dufs::listing::api::{
    handle_list_api, parse_list_request, search_dir, CursorField, ListProbe, ListQuery, ListRefusal, ListSeen,
    ListSnapshotLookupError, ListVerdict,
};
use dufs::listing::budget::{
    add_name_capacities, collection_allocation_bytes, ensure_path_sort_budget, judge_reservation,
    sorting_fits,
    try_reserve_bounded_vec_slot, wastes_memory, BoundedReserveError,
};
use dufs::listing::entries::{
    directory_snapshot_after_walk, pathitem_from_rooted_entry, to_timestamp, DirectorySnapshot,
    EntryMetadata, RootedDirEntry, Timestamp,
};
use dufs::listing::index::{
    handle_ls_dir, handle_search_dir, send_index, write_json_response, write_list_response,
    SearchPageFailure,
};
use dufs::listing::items::{
    case_folded_contains, compare_path_items, sort_path_items_interruptibly, PathItem, PathType,
};
use dufs::listing::problems::{
    escape_path_bytes, respond_list_api_listing_error, ListingError, ListingProblem,
    DIRECTORY_CHANGED_DURING_WALK_MESSAGE, UNSUPPORTED_FILENAME_MESSAGE,
};
use dufs::listing::search::{
    finish_search, judge_addition, sort_collected, DirectoryVisitProgress, ItemCollector, ListScan, SearchOptions,
    SearchWalk, WalkAction,
};
use dufs::listing::sort::{
    sort_listed, stable_sort_by_interruptible, InterruptibleSortFailure, Order,
};
use dufs::listing::walk::{
    judge_room, Activity, CollectionByteBudget, DirectoryWalkFrame, DirectoryWalkState,
    VisitedDirectory,
};
use dufs::path_policy::PathPolicy;
use dufs::paths::LexicalPath;
use dufs::response::{Body, Response};
use dufs::revision::TargetRevision;
use dufs::steps::Step;

const REVISION: TargetRevision = TargetRevision { first: 0, second: 0, third: 0, fourth: 0 };

const ACTIVE: Activity = Activity {
    stopping: false,
    expired: false,
};

fn path(text: &str) -> LexicalPath {
    let mut path = LexicalPath::new();
    for name in text.split('/').filter(|name| !name.is_empty()) {
        path.push(name.as_bytes());
    }
    path
}

fn policy() -> PathPolicy {
    PathPolicy::new(path("/srv/share"), "__dufs_assets_test/", &Vec::new())
}

fn order_of(left: usize, right: usize) -> Order {
    if left < right {
        Order::Before
    } else if left == right {
        Order::Same
    } else {
        Order::After
    }
}

fn directory(inode: u64) -> DirectorySnapshot {
    DirectorySnapshot {
        device: 1,
        inode,
        mtime: 3,
        mtime_nanoseconds: 4,
        ctime: 5,
        ctime_nanoseconds: 6,
    }
}

fn metadata(is_directory: bool, inode: u64) -> EntryMetadata {
    EntryMetadata {
        is_directory,
        snapshot: directory(inode),
        modified: Some(Timestamp {
            seconds: 10,
            nanoseconds: 500_000_000,
        }),
        created: None,
        length: 42,
    }
}

fn entry(parent: &str, name: &str, is_directory: bool, inode: u64) -> RootedDirEntry {
    RootedDirEntry {
        path: path(&format!("{parent}/{name}")),
        file_name: name.as_bytes().to_vec(),
        metadata: metadata(is_directory, inode),
        is_symlink: false,
        revision: REVISION,
    }
}

fn item(path_type: PathType, name: &str, mtime: u64, size: u64) -> PathItem {
    PathItem {
        path_type,
        sort_name: name.to_string(),
        name: name.to_string(),
        mtime,
        size,
        revision: REVISION,
    }
}

fn names(items: &[PathItem]) -> Vec<&str> {
    items.iter().map(|item| item.name.as_str()).collect()
}

fn failure(kind: IoErrorKind) -> IoFailure {
    IoFailure { kind, number: None }
}

#[test]
fn bounded_vector_growth_accounts_for_old_and_new_allocations() {
    let mut values = Vec::with_capacity(4);
    values.extend([1_u64, 2, 3, 4]);
    let non_vector_bytes = std::mem::size_of::<Vec<u64>>();
    let old_bytes = values.capacity() * std::mem::size_of::<u64>();
    let one_slot_growth = 5 * std::mem::size_of::<u64>();
    let maximum_bytes = non_vector_bytes + old_bytes + one_slot_growth;

    assert!(try_reserve_bounded_vec_slot(&mut values, non_vector_bytes, maximum_bytes).is_ok());
    assert_eq!(values.capacity(), 5);
    values.push(5);
    assert_eq!(
        try_reserve_bounded_vec_slot(&mut values, non_vector_bytes, maximum_bytes),
        Err(BoundedReserveError::Budget),
        "the next realloc would transiently retain both old and new buffers"
    );
}

#[test]
fn bounded_vector_growth_remains_geometric_with_available_budget() {
    let mut values = Vec::with_capacity(4);
    values.extend([1_u64, 2, 3, 4]);
    let non_vector_bytes = std::mem::size_of::<Vec<u64>>();
    let maximum_bytes = non_vector_bytes
        + values.capacity() * std::mem::size_of::<u64>()
        + 8 * std::mem::size_of::<u64>();

    assert!(try_reserve_bounded_vec_slot(&mut values, non_vector_bytes, maximum_bytes).is_ok());
    assert_eq!(values.capacity(), 8);
}

#[test]
fn memory_is_counted_and_given_back() {
    assert_eq!(collection_allocation_bytes(4, 8, 10), 24 + 32 + 10);
    assert_eq!(collection_allocation_bytes(usize::MAX, 8, 1), usize::MAX);
    assert!(!sorting_fits(usize::MAX, usize::MAX, 0, usize::MAX - 1));
    assert!(!wastes_memory(10, 12));
    assert!(wastes_memory(10, 5000));
}

#[test]
fn non_utf8_and_control_bytes_are_safely_escaped_in_errors() {
    let root = path("/srv/share");
    let mut target = path("/srv/share");
    target.push(b"line\nquote\"slash\\bad\xff");
    let error = ListingError::unsupported_name("list_filename", &target, &root);
    let rendered = error.diagnostic();

    assert_eq!(error.relative_path, "line\\x0aquote\\\"slash\\\\bad\\xff");
    assert!(!rendered.contains('\n'));
    assert!(!rendered.contains("/srv/share"));
    assert_eq!(error.problem.status(), 409);
    assert_eq!(error.problem.public_message(), UNSUPPORTED_FILENAME_MESSAGE);
}

#[test]
fn shown_paths_are_printable() {
    assert_eq!(escape_path_bytes(b"plain name.txt"), "plain name.txt");
    assert_eq!(escape_path_bytes(b"\x00\x7f"), "\\x00\\x7f");
}

#[test]
fn disappearing_walk_entries_are_reported_as_retryable_conflicts() {
    let root = path("/srv/share");
    for (kind, name) in [
        (IoErrorKind::NotFound, "NotFound"),
        (IoErrorKind::NotADirectory, "NotADirectory"),
    ] {
        let error = ListingError::io("walk_next", &root, &root, &failure(kind));

        assert_eq!(error.problem.status(), 409);
        assert_eq!(
            error.problem.public_message(),
            DIRECTORY_CHANGED_DURING_WALK_MESSAGE
        );
        assert!(error.reason.contains(&format!("io_kind={name}")));
    }
}

#[test]
fn post_walk_snapshot_disappearance_or_type_change_is_a_retryable_conflict() {
    let root = path("/srv/share");
    for seen in [Err(failure(IoErrorKind::NotFound)), Ok(metadata(false, 7))] {
        let error = directory_snapshot_after_walk(&seen, &root, &root)
            .err()
            .unwrap();
        assert_eq!(error.problem.status(), 409);
        assert_eq!(
            error.problem.public_message(),
            DIRECTORY_CHANGED_DURING_WALK_MESSAGE
        );
    }
    assert!(directory_snapshot_after_walk(&Ok(metadata(true, 7)), &root, &root).is_ok());
}

#[test]
fn listing_problem_protocol_ignores_diagnostic_reason_strings() {
    let root = path("/srv/share");
    let mut codes = Vec::new();
    for reason in ["one", "another /srv/share secret"] {
        let error = ListingError::limit(
            "search",
            &root,
            &root,
            reason,
            ListingProblem::SearchResultLimit,
        );
        let mut response = Response::new();
        respond_list_api_listing_error(&mut response, &error);
        match &response.body {
            Body::Problem(details) => {
                assert!(!details.detail.contains("secret"));
                codes.push((response.status, details.code.as_str(), details.detail.clone()));
            }
            _ => panic!("a problem is expected"),
        }
    }
    assert_eq!(codes[0], codes[1]);
}

#[test]
fn direct_list_snapshot_scan_enforces_entry_and_time_budgets() {
    let root = path("/srv/share");
    let mut scan = ListScan::start(&root, &root, 1, 1 << 20);
    assert!(scan.admit_entry(ACTIVE).is_ok());
    assert!(scan
        .take_entry(&policy(), &entry("/srv/share", "one.txt", false, 8), ACTIVE)
        .is_ok());
    let entry_error = scan.admit_entry(ACTIVE).err().unwrap();
    assert_eq!(entry_error.problem.status(), 413);
    assert_eq!(
        entry_error.problem.public_message(),
        "Directory listing exceeded its entry limit"
    );

    let mut scan = ListScan::start(&root, &root, 8, 1 << 20);
    let time_error = scan
        .admit_entry(Activity {
            stopping: false,
            expired: true,
        })
        .err()
        .unwrap();
    assert_eq!(time_error.problem.status(), 504);
    assert_eq!(
        time_error.problem.public_message(),
        "Directory operation timed out"
    );
}

#[test]
fn direct_list_snapshot_rejects_long_names_before_inserting_over_budget_items() {
    let root = path("/srv/share");
    let mut scan = ListScan::start(&root, &root, 8, 1);
    assert!(scan.admit_entry(ACTIVE).is_ok());
    let name = format!("{}.txt", "x".repeat(200));
    let error = scan
        .take_entry(&policy(), &entry("/srv/share", &name, false, 8), ACTIVE)
        .err()
        .unwrap();
    assert_eq!(error.problem.status(), 413);
    assert_eq!(error.reason, "snapshot_memory_budget");
    assert_eq!(
        error.problem.public_message(),
        "Directory listing exceeds the snapshot capacity"
    );
}

#[test]
fn listings_are_sorted_and_hide_internal_names() {
    let root = path("/srv/share");
    let mut scan = ListScan::start(&root, &root, 16, 1 << 20);
    for (name, is_directory) in [
        ("file10.txt", false),
        ("file9.txt", false),
        ("folder", true),
        (".dufs-upload-stages", true),
    ] {
        assert!(scan.admit_entry(ACTIVE).is_ok());
        assert!(scan
            .take_entry(&policy(), &entry("/srv/share", name, is_directory, 9), ACTIVE)
            .is_ok());
    }
    let items = scan
        .finish(&Ok(()), "name", "asc", || false, || false)
        .unwrap_or_else(|error| panic!("{}", error.reason));
    assert_eq!(names(&items), vec!["folder", "file9.txt", "file10.txt"]);
}

#[test]
fn stable_sort_can_be_interrupted_during_merge_work() {
    let mut stable = vec![(2usize, 0usize), (1, 1), (2, 2), (1, 3)];
    assert!(stable_sort_by_interruptible(
        &mut stable,
        |left: &(usize, usize), right: &(usize, usize)| order_of(left.0, right.0),
        || true
    )
    .is_ok());
    assert_eq!(stable, [(1, 1), (1, 3), (2, 0), (2, 2)]);

    let mut interrupted: Vec<usize> = (0..4_096usize).rev().collect();
    let checks = std::cell::Cell::new(0usize);
    let stop_after = 4;
    let result = stable_sort_by_interruptible(
        &mut interrupted,
        |left: &usize, right: &usize| order_of(*left, *right),
        || {
            let next = checks.get() + 1;
            checks.set(next);
            next < stop_after
        },
    );
    assert_eq!(result, Err(InterruptibleSortFailure::Interrupted));
    assert_eq!(checks.get(), stop_after);
}

#[test]
fn listed_values_are_sorted_unless_they_are_interrupted() {
    let compare = |left: &(usize, usize), right: &(usize, usize)| order_of(left.0, right.0);
    let mut values = vec![(2usize, 0usize), (1, 1), (2, 2), (1, 3)];
    let sorted = sort_listed(&mut values, vec![0, 1, 2, 3], Vec::new(), 0, &compare, &|| true);
    assert!(sorted.is_ok());
    assert_eq!(values, [(1, 1), (1, 3), (2, 0), (2, 2)]);
    let stopped = sort_listed(&mut values, vec![0, 1, 2, 3], Vec::new(), 0, &compare, &|| false);
    assert_eq!(stopped, Err(InterruptibleSortFailure::Interrupted));
}

#[test]
fn long_lists_are_sorted_completely() {
    let mut values: Vec<usize> = (0..5_000usize).map(|value| (value * 7919) % 5_000).collect();
    assert!(stable_sort_by_interruptible(
        &mut values,
        |left: &usize, right: &usize| order_of(*left, *right),
        || true
    )
    .is_ok());
    let expected: Vec<usize> = (0..5_000).collect();
    assert_eq!(values, expected);
}

#[test]
fn search_case_folding_avoids_ascii_allocations_without_changing_unicode_matching() {
    assert!(case_folded_contains("Quarterly-REPORT.txt", "report"));
    assert!(!case_folded_contains("Quarterly-REPORT.txt", "invoice"));
    assert!(case_folded_contains("CAFÉ.txt", "café"));
}

#[test]
fn path_sort_maps_cancellation_and_deadline_to_existing_statuses() {
    let root = path("/srv/share");

    let mut cancelled_items = vec![
        item(PathType::File, "b", 0, 0),
        item(PathType::File, "a", 0, 0),
    ];
    let error = sort_path_items_interruptibly(
        &mut cancelled_items,
        "name",
        "asc",
        || true,
        || false,
        "search_sort",
        &root,
        &root,
    )
    .err()
    .unwrap();
    assert_eq!(error.problem.status(), 503);
    assert_eq!(names(&cancelled_items), vec!["b", "a"]);

    let mut expired_items = vec![
        item(PathType::File, "b", 0, 0),
        item(PathType::File, "a", 0, 0),
    ];
    let error = sort_path_items_interruptibly(
        &mut expired_items,
        "name",
        "asc",
        || false,
        || true,
        "search_sort",
        &root,
        &root,
    )
    .err()
    .unwrap();
    assert_eq!(error.problem.status(), 504);
    assert_eq!(names(&expired_items), vec!["b", "a"]);
}

#[test]
fn collected_entries_are_sorted_within_their_budget() {
    let root = path("/srv/share");
    let collect = || {
        let mut items = ItemCollector::new();
        for name in ["b", "a"] {
            assert!(items.try_add(item(PathType::File, name, 0, 0), 1 << 20).is_ok());
        }
        items.into_items()
    };
    let sort = |max_bytes: usize, stopping: bool, expired: bool| {
        sort_collected(
            collect(),
            max_bytes,
            "name",
            "asc",
            || stopping,
            || expired,
            "search_sort",
            &root,
            &root,
        )
    };
    assert_eq!(names(&must(sort(1 << 20, false, false))), vec!["a", "b"]);
    let error = sort(1, true, true).err().unwrap();
    assert_eq!(error.reason, "sort_memory_budget");
    assert_eq!(sort(1 << 20, true, true).err().unwrap().problem.status(), 503);
    assert_eq!(sort(1 << 20, false, true).err().unwrap().problem.status(), 504);
}

#[test]
fn collections_count_the_names_of_their_entries() {
    let mut items = ItemCollector::new();
    let room = 2 * core::mem::size_of::<PathItem>() + 4096;
    assert!(items.try_add(item(PathType::File, "a", 0, 0), room).is_ok());
    let long = "x".repeat(room);
    assert_eq!(
        items.try_add(item(PathType::File, &long, 0, 0), room),
        Err(BoundedReserveError::Budget)
    );
    assert_eq!(items.len(), 1);
    let fits = 24 + 2 * core::mem::size_of::<PathItem>() + 100;
    assert_eq!(judge_addition(Ok(()), 2, 100, fits), Ok(()));
    assert_eq!(judge_addition(Ok(()), 2, 101, fits), Err(BoundedReserveError::Budget));
    let failed = Err(BoundedReserveError::Allocation);
    assert_eq!(judge_addition(failed, 2, 0, fits), failed);
    // The names of the entries before count as well.
    let mut items = ItemCollector::new();
    let name = "x".repeat(1000);
    let mut added = 0;
    while items.try_add(item(PathType::File, &name, 0, 0), 1 << 16).is_ok() {
        added += 1;
    }
    assert!(added > 0 && 2000 * added < 1 << 16);
}

#[test]
fn walks_count_what_they_work_with() {
    let root = path("/srv/share");
    // Two lists, a set and a number, and four slots for the one directory on the way.
    let least = 24 + 24 + core::mem::size_of::<std::collections::HashSet<(u64, u64)>>() + 8;
    assert!(DirectoryWalkState::new(0, least + 4 * 24, &root, &root).is_ok());
    let error = DirectoryWalkState::new(0, least + 4 * 24 - 1, &root, &root).err().unwrap();
    assert_eq!(error.reason, "working_memory_budget");
    assert_eq!(core::mem::size_of::<PathItem>(), 104);
    assert_eq!(core::mem::size_of::<DirectoryWalkFrame>(), 88);
    assert_eq!(core::mem::size_of::<VisitedDirectory>(), 72);
    assert_eq!(add_name_capacities(1, 2, 3), 6);
    assert_eq!(add_name_capacities(usize::MAX, 2, 3), usize::MAX);
}

#[test]
fn log_lines_name_every_kind_of_failure() {
    let root = path("/srv/share");
    for (kind, name) in [
        (IoErrorKind::CrossesDevices, "CrossesDevices"),
        (IoErrorKind::ReadOnlyFilesystem, "ReadOnlyFilesystem"),
        (IoErrorKind::FilesystemLoop, "FilesystemLoop"),
        (IoErrorKind::Uncategorized, "Uncategorized"),
    ] {
        let error = ListingError::io("walk_next", &root, &root, &IoFailure { kind, number: Some(18) });
        assert_eq!(error.reason, format!("io_kind={name} raw_os_error=18"));
    }
}

#[test]
fn walks_leave_directories_as_they_entered_them() {
    let root = path("/srv/share");
    let mut state = must(DirectoryWalkState::new(8, 1 << 20, &root, &root));
    must(state.push_directory(path("/srv/share"), directory(1), 0, (8, 1 << 20), 10, &root));
    must(state.push_directory(path("/srv/share/a"), directory(2), 1, (8, 1 << 20), 12, &root));
    assert_eq!(state.depth(), 2);
    must(state.finish_current(1 << 20, &root));
    assert_eq!(state.depth(), 1);
    assert!(state.current().unwrap().path.equals(&root));
    assert_eq!(state.visited_count(), 1);
    assert!(state.visited(0).unwrap().path.equals(&path("/srv/share/a")));
    // What was left can be entered again.
    must(state.push_directory(path("/srv/share/b"), directory(2), 1, (8, 1 << 20), 12, &root));
    let error = state.finish_current(1, &root).err().unwrap();
    assert_eq!(error.reason, "working_memory_budget");
    for (room, bytes, reason) in [
        (Err(BoundedReserveError::Budget), 0, "working_memory_budget"),
        (Err(BoundedReserveError::Allocation), 0, "working_allocation_failed"),
        (Ok(()), 9, "working_memory_budget"),
    ] {
        assert_eq!(judge_room(room, bytes, 8, &root, &root).err().unwrap().reason, reason);
    }
    assert!(judge_room(Ok(()), 8, 8, &root, &root).is_ok());
}

#[test]
fn directories_come_before_files_in_every_order() {
    let folder = item(PathType::Dir, "z", 9, 0);
    let file = item(PathType::File, "a", 1, 5);
    for sort in ["name", "mtime", "size", "unknown"] {
        assert_eq!(
            compare_path_items(&folder, &file, sort, "asc"),
            Order::Before,
            "{sort}"
        );
    }
    let older = item(PathType::File, "b", 1, 7);
    let newer = item(PathType::File, "a", 2, 7);
    assert_eq!(
        compare_path_items(&older, &newer, "mtime", "asc"),
        Order::Before
    );
    assert_eq!(
        compare_path_items(&older, &newer, "mtime", "desc"),
        Order::After
    );
    assert_eq!(
        compare_path_items(&newer, &older, "name", "asc"),
        Order::Before
    );
    let ninth = item(PathType::File, "file9", 0, 0);
    let tenth = item(PathType::File, "file10", 0, 0);
    assert_eq!(
        compare_path_items(&ninth, &tenth, "name", "asc"),
        Order::Before
    );
}

#[test]
fn times_are_told_in_milliseconds() {
    assert_eq!(
        to_timestamp(&Timestamp {
            seconds: 10,
            nanoseconds: 500_000_000
        }),
        10_500
    );
    assert_eq!(
        to_timestamp(&Timestamp {
            seconds: -1,
            nanoseconds: 0
        }),
        0
    );
    let root = path("/srv/share");
    let item = pathitem_from_rooted_entry(&entry("/srv/share", "Photo.JPG", false, 8), &root, &root)
        .unwrap_or_else(|error| panic!("{}", error.reason));
    assert_eq!(item.name, "Photo.JPG");
    assert_eq!(item.sort_name, "photo.jpg");
    assert_eq!(item.mtime, 10_500);
    assert_eq!(item.size, 42);
    assert_eq!(item.path_type, PathType::File);
}

fn options(max_entries: usize, max_depth: usize, max_working_bytes: usize) -> SearchOptions {
    SearchOptions {
        base: path("/srv/share"),
        root: path("/srv/share"),
        search: "report".to_string(),
        max_entries,
        max_depth,
        max_working_bytes,
        budget: CollectionByteBudget {
            max_bytes: 1 << 20,
            operation: "search_result",
            reason: "result_memory_budget",
            problem: ListingProblem::SearchResultLimit,
            allocation_problem: ListingProblem::SearchResultLimit,
        },
    }
}

fn must<T>(result: Result<T, ListingError>) -> T {
    result.unwrap_or_else(|error| panic!("{}: {}", error.operation, error.reason))
}

#[test]
fn searches_find_matches_below_and_recheck_what_they_read() {
    let policy = policy();
    let mut walk = must(SearchWalk::start(
        options(100, 8, 1 << 20),
        &Ok(metadata(true, 1)),
        10,
    ));
    assert_eq!(walk.next_action(), WalkAction::Visit);
    must(walk.check_before_visit(ACTIVE));
    must(walk.check_current_directory(&Ok(metadata(true, 1))));
    for name in ["Report.txt", "notes.txt"] {
        let entry = entry("/srv/share", name, false, 20);
        must(walk.admit_entry(&entry.path, ACTIVE));
        assert!(must(walk.take_entry(&policy, &entry, ACTIVE, 10)));
    }
    let folder = entry("/srv/share", "sub", true, 2);
    must(walk.admit_entry(&folder.path, ACTIVE));
    // A directory is entered before the rest of the one that holds it is read.
    assert!(!must(walk.take_entry(&policy, &folder, ACTIVE, 10)));
    must(walk.end_visit(&Ok(DirectoryVisitProgress::Paused(5))));
    assert_eq!(walk.next_action(), WalkAction::Visit);
    must(walk.check_current_directory(&Ok(metadata(true, 2))));
    let inner = entry("/srv/share/sub", "old report", false, 30);
    must(walk.admit_entry(&inner.path, ACTIVE));
    must(walk.take_entry(&policy, &inner, ACTIVE, 10));
    must(walk.end_visit(&Ok(DirectoryVisitProgress::Complete)));
    must(walk.end_visit(&Ok(DirectoryVisitProgress::Complete)));
    assert_eq!(walk.next_action(), WalkAction::Recheck(0));
    must(walk.recheck(ACTIVE, &Ok(metadata(true, 2))));
    assert_eq!(walk.next_action(), WalkAction::Recheck(1));
    must(walk.recheck(ACTIVE, &Ok(metadata(true, 1))));
    assert_eq!(walk.next_action(), WalkAction::Finished);
    let found = must(finish_search(walk, "name", "asc", || false, || false));
    assert_eq!(names(&found), vec!["Report.txt", "sub/old report"]);
}

#[test]
fn searches_notice_directories_that_changed() {
    let mut walk = must(SearchWalk::start(
        options(100, 8, 1 << 20),
        &Ok(metadata(true, 1)),
        10,
    ));
    must(walk.end_visit(&Ok(DirectoryVisitProgress::Complete)));
    let mut changed = metadata(true, 1);
    changed.snapshot.ctime = 99;
    let error = walk.recheck(ACTIVE, &Ok(changed)).err().unwrap();
    assert_eq!(error.problem.status(), 409);
    assert_eq!(
        error.problem.public_message(),
        DIRECTORY_CHANGED_DURING_WALK_MESSAGE
    );
}

#[test]
fn searches_are_bounded_in_entries_depth_and_memory() {
    let policy = policy();
    let mut walk = must(SearchWalk::start(
        options(1, 8, 1 << 20),
        &Ok(metadata(true, 1)),
        10,
    ));
    let first = entry("/srv/share", "a", false, 20);
    must(walk.admit_entry(&first.path, ACTIVE));
    must(walk.take_entry(&policy, &first, ACTIVE, 10));
    assert_eq!(
        walk.admit_entry(&path("/srv/share/b"), ACTIVE)
            .err()
            .unwrap()
            .problem
            .status(),
        413
    );

    let mut walk = must(SearchWalk::start(
        options(100, 0, 1 << 20),
        &Ok(metadata(true, 1)),
        10,
    ));
    let folder = entry("/srv/share", "sub", true, 2);
    must(walk.admit_entry(&folder.path, ACTIVE));
    must(walk.take_entry(&policy, &folder, ACTIVE, 10));
    assert!(walk.end_visit(&Ok(DirectoryVisitProgress::Paused(5))).is_err());

    let error = SearchWalk::start(options(100, 8, 1), &Ok(metadata(true, 1)), 10).err().unwrap();
    assert_eq!(error.reason, "working_memory_budget");
}

#[test]
fn searches_do_not_walk_in_circles() {
    let policy = policy();
    let mut walk = must(SearchWalk::start(
        options(100, 8, 1 << 20),
        &Ok(metadata(true, 1)),
        10,
    ));
    let again = entry("/srv/share", "self", true, 1);
    must(walk.admit_entry(&again.path, ACTIVE));
    let taken = walk.take_entry(&policy, &again, ACTIVE, 10);
    let ended = walk.end_visit(&Ok(DirectoryVisitProgress::Paused(5)));
    assert!(taken.is_err() || ended.is_err());
}

fn query(path: Option<&str>) -> ListQuery {
    ListQuery {
        path: path.map(|path| path.to_string()),
        sort: None,
        order: None,
        search: None,
        limit: None,
        cursor: CursorField::Absent,
    }
}

#[test]
fn list_requests_are_checked_before_anything_is_read() {
    let policy = policy();
    let request = parse_list_request(&policy, &query(Some("/docs")))
        .unwrap_or_else(|_| panic!("the request makes sense"));
    assert!(request.path.equals(&path("/srv/share/docs")));
    assert_eq!(request.limit, 200);
    assert!(!request.continues);
    assert_eq!(
        parse_list_request(&policy, &query(Some("docs"))).err(),
        Some(ListRefusal::InvalidPath)
    );
    let mut long = query(Some("/"));
    long.search = Some("x".repeat(129));
    assert_eq!(
        parse_list_request(&policy, &long).err(),
        Some(ListRefusal::SearchTooLong)
    );
    for limit in ["0", "501", "ten", ""] {
        let mut wrong = query(Some("/"));
        wrong.limit = Some(limit.to_string());
        assert_eq!(
            parse_list_request(&policy, &wrong).err(),
            Some(ListRefusal::InvalidLimit),
            "{limit}"
        );
    }
    let mut broken = query(Some("/"));
    broken.cursor = CursorField::Invalid;
    assert_eq!(
        parse_list_request(&policy, &broken).err(),
        Some(ListRefusal::InvalidCursor)
    );
}

#[test]
fn listings_are_served_only_where_the_directory_stayed_as_it_was() {
    let mut seen = ListSeen::new();
    assert!(matches!(
        handle_list_api(false, 200, &seen),
        Step::Ask(ListProbe::TakePlace)
    ));
    seen.place = Some(false);
    assert!(matches!(
        handle_list_api(false, 200, &seen),
        Step::Done(ListVerdict::Refuse(ListRefusal::TooManyOperations))
    ));
    seen.place = Some(true);
    seen.before = Some(Ok(metadata(true, 1)));
    seen.collected = Some(Ok(3));
    assert!(matches!(
        handle_list_api(false, 200, &seen),
        Step::Ask(ListProbe::StatAfter)
    ));
    let mut changed = metadata(true, 1);
    changed.snapshot.mtime = 77;
    seen.after = Some(Ok(changed));
    assert!(matches!(
        handle_list_api(false, 200, &seen),
        Step::Done(ListVerdict::Refuse(ListRefusal::DirectoryChanged))
    ));
    seen.after = Some(Ok(metadata(true, 1)));
    assert!(matches!(
        handle_list_api(false, 200, &seen),
        Step::Done(ListVerdict::WholeListing)
    ));
    assert!(matches!(
        handle_list_api(false, 2, &seen),
        Step::Ask(ListProbe::KeepSnapshot)
    ));
}

#[test]
fn cursors_that_are_gone_are_refused() {
    let mut seen = ListSeen::new();
    seen.before = Some(Ok(metadata(true, 1)));
    seen.page = Some(Err(ListSnapshotLookupError::Unavailable));
    assert!(matches!(
        handle_list_api(true, 200, &seen),
        Step::Done(ListVerdict::Refuse(ListRefusal::CursorUnavailable))
    ));
    seen.page = Some(Ok(()));
    assert!(matches!(
        handle_list_api(true, 200, &seen),
        Step::Done(ListVerdict::NextPage)
    ));
}

#[test]
fn refused_listings_tell_what_to_do() {
    for (refusal, status) in [
        (ListRefusal::InvalidPath, 400),
        (ListRefusal::PathNotFound, 404),
        (ListRefusal::DirectoryChanged, 409),
        (ListRefusal::TooManyOperations, 429),
    ] {
        let mut response = Response::new();
        refusal.respond(&mut response);
        assert_eq!(response.status, status, "{refusal:?}");
        assert!(matches!(response.body, Body::Problem(_)));
    }
}

#[test]
fn directory_pages_carry_their_data_and_security_headers() {
    let root = path("/srv/share");
    let mut response = Response::new();
    let data = handle_ls_dir(&mut response, &path("/srv/share/docs/a b"), &root, true, false)
        .unwrap_or_else(|_| panic!("the path can be shown"))
        .unwrap();
    assert_eq!(data.href, "/docs/a b");
    assert!(data.dir_exists);
    assert_eq!(
        response.headers.get("cache-control"),
        Some("no-store, private")
    );
    assert_eq!(response.headers.get("x-frame-options"), Some("DENY"));
    send_index(
        &mut response,
        "<a href=\"__ASSETS_PREFIX__x.js\"></a><p>__INDEX_DATA__</p>",
        "assets/",
        "{\"href\":\"/\"}",
    );
    let page = match &response.body {
        Body::Text(page) => page.clone(),
        _ => panic!("a page is expected"),
    };
    assert_eq!(
        page,
        "<a href=\"/assets/x.js\"></a><p>eyJocmVmIjoiLyJ9</p>"
    );
    assert_eq!(
        response.headers.get("content-length"),
        Some(page.len().to_string().as_str())
    );

    let mut response = Response::new();
    assert!(handle_ls_dir(&mut response, &root, &root, true, true)
        .unwrap_or_else(|_| panic!("the path can be shown"))
        .is_none());
    assert!(matches!(response.body, Body::Empty));
}

#[test]
fn search_pages_need_a_search() {
    let root = path("/srv/share");
    let mut response = Response::new();
    assert!(matches!(
        handle_search_dir(&mut response, &root, &root, None, false),
        Err(SearchPageFailure::InvalidQuery)
    ));
    assert!(response.headers.get("content-type").is_none());
    let data = handle_search_dir(&mut response, &root, &root, Some("x"), false)
        .unwrap_or_else(|_| panic!("the search makes sense"))
        .unwrap();
    assert_eq!(data.href, "/");
    let mut outside = path("/srv/share");
    outside.push(b"\xff");
    assert!(matches!(
        handle_search_dir(&mut response, &outside, &root, Some("x"), false),
        Err(SearchPageFailure::Listing(_))
    ));
}

#[test]
fn json_bodies_tell_their_length() {
    let mut response = Response::new();
    write_list_response(&mut response, b"{\"paths\":[]}".to_vec());
    assert_eq!(response.headers.get("content-length"), Some("12"));
    assert_eq!(response.headers.get("content-type"), Some("application/json"));
    assert!(response.headers.get("cache-control").is_none());
    write_json_response(&mut response, b"[]".to_vec());
    assert_eq!(response.headers.get("content-length"), Some("2"));
    assert_eq!(response.headers.get("cache-control"), Some("no-store"));
}

#[test]
fn searches_are_folded_and_bounded() {
    let request = parse_list_request(
        &policy(),
        &ListQuery {
            path: Some("/docs".to_string()),
            sort: None,
            order: None,
            search: Some("\u{c9}T\u{c9} 2".to_string()),
            limit: None,
            cursor: CursorField::Absent,
        },
    )
    .unwrap_or_else(|_| panic!("the request makes sense"));
    assert_eq!(request.search, "\u{c9}T\u{c9} 2");
    let options = search_dir(&request, &path("/srv/share"), 5, 4096);
    assert_eq!(options.search, "\u{e9}t\u{e9} 2");
    assert!(options.base.equals(&path("/srv/share/docs")));
    assert!(options.root.equals(&path("/srv/share")));
    assert_eq!((options.max_entries, options.max_depth), (5, 1024));
    assert_eq!(options.max_working_bytes, 32 * 1024 * 1024);
    assert_eq!(options.budget.max_bytes, 4096);
    assert_eq!(options.budget.operation, "search_result");
    assert_eq!(options.budget.problem, ListingProblem::SearchResultLimit);
}

#[test]
fn reservations_are_judged_by_what_the_allocator_gave() {
    assert_eq!(judge_reservation(true, 8, 8), Ok(()));
    assert_eq!(
        judge_reservation(true, 9, 8),
        Err(BoundedReserveError::Budget)
    );
    assert_eq!(
        judge_reservation(false, 0, 8),
        Err(BoundedReserveError::Allocation)
    );
}

#[test]
fn sorting_counts_the_bytes_of_the_names() {
    let root = path("/srv/share");
    let item = |name: &str| PathItem {
        path_type: PathType::File,
        sort_name: name.to_string(),
        name: name.to_string(),
        mtime: 0,
        size: 0,
        revision: REVISION,
    };
    let long = "n".repeat(4096);
    let items = vec![item(&long)];
    let spare = collection_allocation_bytes(1, std::mem::size_of::<PathItem>(), 8191)
        + 2 * std::mem::size_of::<usize>();
    let refused = ensure_path_sort_budget(&items, 1, spare, "list_sort", &root, &root);
    assert_eq!(
        refused.err().map(|error| error.problem),
        Some(ListingProblem::DirectorySortLimit)
    );
    let short = vec![item("a")];
    assert!(ensure_path_sort_budget(&short, 1, spare, "list_sort", &root, &root).is_ok());
}
