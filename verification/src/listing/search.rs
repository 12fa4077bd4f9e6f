//! Searches of directory trees, and plain listings of one directory.
use crate::internal_names;
use crate::internal_names::is_internal_name;
use crate::io_error::IoFailure;
use crate::listing::budget;
use crate::listing::budget::{
    add_path_item_heap_bytes, collection_allocation_bytes, ensure_path_sort_budget,
    shrink_paths_if_wasteful, try_reserve_bounded_vec_slot, vec_capacity, BoundedReserveError,
};
use crate::listing::entries;
use crate::listing::entries::{
    directory_snapshot, pathitem_from_rooted_entry, DirectorySnapshot, EntryMetadata, EntryView,
    RootedDirEntry,
};
use crate::listing::items;
use crate::listing::items::{
    case_folded_contains, sort_path_items_interruptibly, PathItem, PathItemView,
};
use crate::listing::problems;
use crate::listing::problems::{ListingError, ListingErrorView, ListingProblem};
use crate::listing::sort;
use crate::listing::walk;
use crate::listing::walk::{
    check_activity, Activity, CollectionByteBudget, DirectoryWalkState, VisitedView, WalkStateView,
};
use crate::path_policy;
use crate::path_policy::PathPolicy;
use crate::paths;
use crate::paths::LexicalPath;
use crate::text;
use crate::text::utf8_text;
use vstd::layout;
use vstd::prelude::*;
use vstd::string::*;
use vstd::utf8::*;

verus! {

/// Entries that are collected within a budget.
pub struct ItemCollector {
    items: Vec<PathItem>,
    heap_bytes: usize,
}

#[verifier::ext_equal]
pub struct CollectorView {
    pub items: Seq<PathItemView>,
    /// What the names of the entries take.
    pub heap_bytes: usize,
}

impl CollectorView {
    pub open spec fn empty() -> CollectorView {
        CollectorView { items: Seq::empty(), heap_bytes: 0 }
    }

    /// What the entries take, where the list has room for no more of them.
    pub open spec fn bytes(self) -> usize {
        budget::collection_bytes(
            self.items.len() as int,
            layout::size_of::<PathItem>() as int,
            self.heap_bytes as int,
        )
    }

    /// What the entries take at least with one more.
    pub open spec fn bytes_with(self, item: PathItemView) -> usize {
        budget::collection_bytes(
            (self.items.len() + 1) as int,
            layout::size_of::<PathItem>() as int,
            self.heap_bytes + budget::entry_name_bytes(item),
        )
    }

    /// The names of all entries are counted.
    pub open spec fn counts_names(self) -> bool {
        self.heap_bytes >= budget::capped(budget::name_bytes(self.items) as int)
    }

    /// What comes of adding an entry within a budget. How much its names take beyond
    /// their bytes is up to the allocator.
    pub open spec fn is_added(
        self,
        item: PathItemView,
        after: CollectorView,
        max_bytes: usize,
    ) -> bool {
        &&& after.items == self.items.push(item)
        &&& after.heap_bytes >= budget::capped(self.heap_bytes + budget::entry_name_bytes(item))
        &&& after.bytes() <= max_bytes
    }
}

/// What comes of adding an entry, by what asking for room has come to and how many
/// entries fit then.
pub open spec fn addition(
    room: Result<(), BoundedReserveError>,
    capacity: usize,
    heap_bytes: usize,
    max_bytes: usize,
) -> Result<(), BoundedReserveError> {
    match room {
        Err(failure) => Err(failure),
        Ok(_) => if budget::collection_bytes(
            capacity as int,
            layout::size_of::<PathItem>() as int,
            heap_bytes as int,
        ) > max_bytes {
            Err(BoundedReserveError::Budget)
        } else {
            Ok(())
        },
    }
}

/// Judges whether an entry can be added.
pub fn judge_addition(
    room: Result<(), BoundedReserveError>,
    capacity: usize,
    heap_bytes: usize,
    max_bytes: usize,
) -> (result: Result<(), BoundedReserveError>)
    ensures
        result == addition(room, capacity, heap_bytes, max_bytes),
{
    if let Err(failure) = room {
        return Err(failure);
    }
    let item_size = core::mem::size_of::<PathItem>();
    if collection_allocation_bytes(capacity, item_size, heap_bytes) > max_bytes {
        return Err(BoundedReserveError::Budget);
    }
    Ok(())
}

impl ItemCollector {
    pub closed spec fn view(self) -> CollectorView {
        CollectorView { items: items::item_list(self.items@), heap_bytes: self.heap_bytes }
    }

    pub fn new() -> (collector: ItemCollector)
        ensures
            collector@ == CollectorView::empty(),
            collector@.counts_names(),
    {
        let collector = ItemCollector { items: Vec::new(), heap_bytes: 0 };
        assert(collector@ =~= CollectorView::empty());
        collector
    }

    pub fn len(&self) -> (length: usize)
        ensures
            length == self@.items.len(),
    {
        self.items.len()
    }

    /// Adds an entry, if the budget has room for it. What the names take beyond
    /// their bytes and what the allocator gives is open.
    pub fn try_add(&mut self, item: PathItem, max_bytes: usize) -> (result: Result<
        (),
        BoundedReserveError,
    >)
        requires
            old(self)@.counts_names(),
        ensures
            final(self)@.counts_names(),
            result is Ok ==> old(self)@.is_added(item@, final(self)@, max_bytes),
            result is Err ==> final(self)@ == old(self)@,
            old(self)@.bytes_with(item@) > max_bytes ==> result == Err::<(), BoundedReserveError>(
                BoundedReserveError::Budget,
            ),
            budget::listing_bytes(old(self)@.items.push(item@)) > max_bytes ==> result == Err::<
                (),
                BoundedReserveError,
            >(BoundedReserveError::Budget),
    {
        let ghost before = self@;
        let ghost added = before.items.push(item@);
        let proposed = add_path_item_heap_bytes(self.heap_bytes, &item);
        let item_size = core::mem::size_of::<PathItem>();
        let wanted: usize = self.items.len().saturating_add(1);
        let minimum = collection_allocation_bytes(wanted, item_size, proposed);
        proof {
            let count = before.items.len() + 1;
            if count > usize::MAX {
                assert(item_size == 0 || wanted * item_size >= usize::MAX) by (nonlinear_arith)
                    requires
                        wanted == usize::MAX,
                        item_size >= 0,
                ;
                assert(item_size == 0 ==> wanted * item_size == count * item_size)
                    by (nonlinear_arith);
            }
            assert(wanted * item_size >= 0 && count * item_size >= 0) by (nonlinear_arith);
            assert(added.drop_last() =~= before.items);
            assert(budget::name_bytes(added) == budget::name_bytes(before.items)
                + budget::entry_name_bytes(item@));
        }
        if minimum > max_bytes {
            return Err(BoundedReserveError::Budget);
        }
        let others = core::mem::size_of::<Vec<PathItem>>().saturating_add(proposed);
        let room = try_reserve_bounded_vec_slot(&mut self.items, others, max_bytes);
        assert(self@ =~= before);
        let capacity = vec_capacity(&self.items);
        if let Err(failure) = judge_addition(room, capacity, proposed, max_bytes) {
            return Err(failure);
        }
        self.heap_bytes = proposed;
        self.items.push(item);
        assert(self@.items =~= added);
        assert(self.items.len() == before.items.len() + 1);
        Ok(())
    }

    pub fn into_items(self) -> (items: Vec<PathItem>)
        ensures
            items::item_list(items@) == self@.items,
    {
        self.items
    }
}

/// An entry that is not shown to anybody: its name is one of the server's own,
/// or its path belongs to the platform.
pub open spec fn is_hidden(policy: PathPolicy, entry: EntryView, root: Seq<Seq<u8>>) -> bool {
    ||| internal_names::internal_kind(decode_utf8(entry.file_name)) is Some
    ||| text::has_prefix(entry.path, root) && valid_utf8(entries::bytes_below(entry.path, root))
        && path_policy::under_platform(
        policy.platform(),
        decode_utf8(entries::bytes_below(entry.path, root)),
    )
}

fn hides(policy: &PathPolicy, entry: &RootedDirEntry, name: &str, root: &LexicalPath) -> (hidden:
    bool)
    requires
        name@ == decode_utf8(entry@.file_name),
    ensures
        hidden == is_hidden(*policy, entry@, root@),
{
    if is_internal_name(name) {
        return true;
    }
    if !entry.path.starts_with(root) {
        return false;
    }
    match utf8_text(entry.path.suffix(root.len()).to_bytes().as_slice()) {
        Some(relative) => policy.is_platform_path(relative.as_str()),
        None => false,
    }
}

/// What a search looks for, and how far it goes.
pub struct SearchOptions {
    pub base: LexicalPath,
    pub root: LexicalPath,
    pub search: String,
    pub max_entries: usize,
    pub max_depth: usize,
    pub max_working_bytes: usize,
    pub budget: CollectionByteBudget,
}

pub struct OptionsView {
    pub base: Seq<Seq<u8>>,
    pub root: Seq<Seq<u8>>,
    pub search: Seq<char>,
    pub max_entries: usize,
    pub max_depth: usize,
    pub max_working_bytes: usize,
    pub budget: CollectionByteBudget,
}

impl SearchOptions {
    pub open spec fn view(self) -> OptionsView {
        OptionsView {
            base: self.base@,
            root: self.root@,
            search: self.search@,
            max_entries: self.max_entries,
            max_depth: self.max_depth,
            max_working_bytes: self.max_working_bytes,
            budget: self.budget,
        }
    }
}

impl SearchOptions {
    /// Judges whether a search goes on behind a result, by what adding it came to.
    pub fn judge(&self, added: Result<(), BoundedReserveError>, path: &LexicalPath) -> (result:
        Result<(), ListingError>)
        ensures
            match added {
                Ok(_) => result is Ok,
                Err(BoundedReserveError::Budget) => result matches Err(error) && error@
                    == self@.budget_failure(path@),
                Err(BoundedReserveError::Allocation) => result matches Err(error) && error@
                    == self@.allocation_failure(path@),
            },
    {
        match added {
            Ok(()) => Ok(()),
            Err(BoundedReserveError::Budget) => Err(
                ListingError::limit(
                    self.budget.operation,
                    path,
                    &self.root,
                    self.budget.reason,
                    self.budget.problem,
                ),
            ),
            Err(BoundedReserveError::Allocation) => Err(
                ListingError::limit(
                    self.budget.operation,
                    path,
                    &self.root,
                    "result_allocation_failed",
                    self.budget.allocation_problem,
                ),
            ),
        }
    }
}

impl OptionsView {
    pub open spec fn limits(self) -> (usize, usize) {
        (self.max_depth, self.max_working_bytes)
    }

    pub open spec fn budget_failure(self, path: Seq<Seq<u8>>) -> ListingErrorView {
        ListingErrorView::at(
            self.budget.operation@,
            path,
            self.root,
            self.budget.reason@,
            self.budget.problem,
        )
    }

    pub open spec fn allocation_failure(self, path: Seq<Seq<u8>>) -> ListingErrorView {
        ListingErrorView::at(
            self.budget.operation@,
            path,
            self.root,
            "result_allocation_failed"@,
            self.budget.allocation_problem,
        )
    }
}

/// A directory that is entered next.
pub struct PendingDirectory {
    path: LexicalPath,
    snapshot: DirectorySnapshot,
    path_bytes: usize,
}

pub struct PendingView {
    pub path: Seq<Seq<u8>>,
    pub snapshot: DirectorySnapshot,
    pub path_bytes: usize,
}

impl PendingDirectory {
    pub closed spec fn view(self) -> PendingView {
        PendingView { path: self.path@, snapshot: self.snapshot, path_bytes: self.path_bytes }
    }
}

pub open spec fn pending_view(pending: Option<PendingDirectory>) -> Option<PendingView> {
    match pending {
        Some(pending) => Some(pending@),
        None => None,
    }
}

/// A search under way.
pub struct SearchWalk {
    options: SearchOptions,
    state: DirectoryWalkState,
    collector: ItemCollector,
    entries: usize,
    admitted: bool,
    child: Option<PendingDirectory>,
    rechecked: usize,
}

#[verifier::ext_equal]
pub struct SearchView {
    pub options: OptionsView,
    pub state: WalkStateView,
    pub collected: CollectorView,
    /// How many entries were met.
    pub entries: usize,
    /// The entry that was met last may be looked at.
    pub admitted: bool,
    /// The directory that is entered next.
    pub child: Option<PendingView>,
    /// How many of the directories that were read have been seen unchanged since.
    pub rechecked: usize,
}

impl SearchView {
    /// The search once the end of a read has failed. A directory that was read to its
    /// end is left even where it cannot be remembered, and a directory that was met is
    /// given up where it cannot be entered.
    pub open spec fn after_failed_visit(
        self,
        progress: Result<DirectoryVisitProgress, IoFailure>,
    ) -> SearchView {
        match progress {
            Err(_) => SearchView { admitted: false, ..self },
            Ok(DirectoryVisitProgress::Complete) => SearchView {
                state: self.state.left(),
                child: None,
                admitted: false,
                ..self
            },
            Ok(DirectoryVisitProgress::Paused(cursor)) => SearchView {
                state: self.state.paused_at(cursor),
                child: None,
                admitted: false,
                ..self
            },
        }
    }

    /// What becomes of a search that looks at an entry.
    pub open spec fn takes(
        self,
        policy: PathPolicy,
        entry: EntryView,
        path_bytes: usize,
        after: SearchView,
    ) -> bool {
        &&& after == (SearchView {
            admitted: false,
            collected: after.collected,
            child: if is_descended(policy, self.options, entry) {
                Some(
                    PendingView { path: entry.path, snapshot: entry.metadata.snapshot, path_bytes },
                )
            } else {
                self.child
            },
            ..self
        })
        &&& if is_found(policy, self.options, entry) {
            self.collected.is_added(
                found_item(self.options, entry),
                after.collected,
                self.options.budget.max_bytes,
            )
        } else {
            after.collected == self.collected
        }
    }
}

/// What a search does next.
#[derive(Clone, Copy, Debug, Eq, PartialEq, Structural)]
pub enum WalkAction {
    /// Read on in the current directory.
    Visit,
    /// Look again at a directory that was read.
    Recheck(usize),
    Finished,
}

/// What a read of a directory came to.
#[derive(Clone, Copy, Debug, Eq, PartialEq, Structural)]
pub enum DirectoryVisitProgress {
    Complete,
    Paused(i64),
}

/// Why a search cannot start, whatever the allocator does.
pub open spec fn start_failure(
    options: OptionsView,
    metadata: Result<EntryMetadata, IoFailure>,
) -> Option<ListingErrorView> {
    match entries::snapshot_after(metadata, "walk_root"@, options.base, options.root) {
        Ok(_) => None,
        Err(error) => Some(error),
    }
}

/// Why an entry cannot be taken, whatever the allocator does.
pub open spec fn entry_failure(
    policy: PathPolicy,
    options: OptionsView,
    entry: EntryView,
    activity: Activity,
) -> Option<ListingErrorView> {
    let stopped = walk::activity_failure(
        activity,
        "walk_cancelled"@,
        "walk_timeout"@,
        entry.path,
        options.root,
    );
    if stopped is Some {
        stopped
    } else if !valid_utf8(entry.file_name) {
        Some(ListingErrorView::unsupported_name("walk_filename"@, entry.path, options.root))
    } else if is_found(policy, options, entry) {
        match entries::listed(entry, options.base, options.root) {
            Ok(_) => None,
            Err(error) => Some(error),
        }
    } else {
        None
    }
}

/// An entry is one that the search looks for.
pub open spec fn is_found(policy: PathPolicy, options: OptionsView, entry: EntryView) -> bool {
    !is_hidden(policy, entry, options.root) && items::matches_folded(
        decode_utf8(entry.file_name),
        options.search,
    )
}

/// An entry as a search lists it.
pub open spec fn found_item(options: OptionsView, entry: EntryView) -> PathItemView {
    entries::listed(entry, options.base, options.root)->Ok_0
}

/// A search goes into an entry.
pub open spec fn is_descended(policy: PathPolicy, options: OptionsView, entry: EntryView) -> bool {
    !is_hidden(policy, entry, options.root) && entry.metadata.is_directory
}

/// Why a directory does not count as unchanged.
pub open spec fn change_failure(
    metadata: Result<EntryMetadata, IoFailure>,
    directory: VisitedView,
    operation: Seq<char>,
    root: Seq<Seq<u8>>,
) -> Option<ListingErrorView> {
    match entries::snapshot_after(metadata, operation, directory.path, root) {
        Err(error) => Some(error),
        Ok(snapshot) => if snapshot != directory.snapshot {
            Some(
                ListingErrorView::at(
                    operation,
                    directory.path,
                    root,
                    "directory_snapshot_changed"@,
                    ListingProblem::DirectoryChanged,
                ),
            )
        } else {
            None
        },
    }
}

/// Fails where a directory is not what it was.
pub fn ensure_directory_snapshot(
    metadata: &Result<EntryMetadata, IoFailure>,
    path: &LexicalPath,
    snapshot: DirectorySnapshot,
    operation: &'static str,
    root: &LexicalPath,
) -> (result: Result<(), ListingError>)
    ensures
        match result {
            Ok(_) => change_failure(
                *metadata,
                VisitedView { path: path@, snapshot },
                operation@,
                root@,
            ) is None,
            Err(error) => change_failure(
                *metadata,
                VisitedView { path: path@, snapshot },
                operation@,
                root@,
            ) == Some(error@),
        },
{
    match directory_snapshot(metadata, operation, path, root) {
        Err(error) => Err(error),
        Ok(current) => {
            if current != snapshot {
                return Err(
                    ListingError::limit(
                        operation,
                        path,
                        root,
                        "directory_snapshot_changed",
                        ListingProblem::DirectoryChanged,
                    ),
                );
            }
            Ok(())
        },
    }
}

impl SearchWalk {
    pub closed spec fn view(self) -> SearchView {
        SearchView {
            options: self.options@,
            state: self.state@,
            collected: self.collector@,
            entries: self.entries,
            admitted: self.admitted,
            child: pending_view(self.child),
            rechecked: self.rechecked,
        }
    }

    /// A search never holds more than it may: entries, directories on the way
    /// and results are within their limits.
    pub closed spec fn is_valid(self) -> bool {
        &&& self.state.is_valid()
        &&& self.state@.stack.len() <= self.options.max_depth + 1
        &&& self.entries <= self.options.max_entries
        &&& self.collector@.items.len() + (if self.admitted {
            1int
        } else {
            0int
        }) <= self.entries
        &&& self.collector@.counts_names()
        &&& self.collector@.items.len() > 0 ==> self.collector@.bytes()
            <= self.options.budget.max_bytes
        &&& self.rechecked <= self.state@.visited.len()
    }

    /// Starts a search at a directory, where the memory that it may work with has room
    /// for what is set aside and for that directory. Whether the allocator has room for
    /// the directories on the way is open.
    pub fn start(
        options: SearchOptions,
        metadata: &Result<EntryMetadata, IoFailure>,
        path_bytes: usize,
    ) -> (result: Result<SearchWalk, ListingError>)
        ensures
            result matches Ok(walk) ==> {
                &&& start_failure(options@, *metadata) is None
                &&& walk.is_valid()
                &&& walk@.options == options@
                &&& walk@.state == WalkStateView::empty().pushed(
                    options@.base,
                    metadata->Ok_0.snapshot,
                    0,
                    path_bytes,
                )
                &&& walk@.collected == CollectorView::empty()
                &&& walk@.entries == 0
                &&& !walk@.admitted
                &&& walk@.child is None
                &&& walk@.rechecked == 0
            },
            result matches Err(error) ==> match start_failure(options@, *metadata) {
                Some(failure) => error@ == failure,
                None => error@ == walk::memory_failure(options@.base, options@.root) || error@
                    == walk::allocation_failure(options@.base, options@.root),
            },
            start_failure(options@, *metadata) is None && budget::capped(
                walk::start_bytes(options@.max_depth as int),
            ) > options@.max_working_bytes ==> (result matches Err(error) && error@
                == walk::memory_failure(options@.base, options@.root)),
            budget::capped(WalkStateView::empty().least_bytes(1, 0, path_bytes as int))
                > options@.max_working_bytes ==> result is Err,
    {
        let snapshot = match directory_snapshot(
            metadata,
            "walk_root",
            &options.base,
            &options.root,
        ) {
            Ok(snapshot) => snapshot,
            Err(error) => return Err(error),
        };
        let mut state = match DirectoryWalkState::new(
            options.max_depth,
            options.max_working_bytes,
            &options.base,
            &options.root,
        ) {
            Ok(state) => state,
            Err(error) => return Err(error),
        };
        let base = options.base.copy();
        match state.push_directory(
            base,
            snapshot,
            0,
            (options.max_depth, options.max_working_bytes),
            path_bytes,
            &options.root,
        ) {
            Ok(()) => {},
            Err(error) => return Err(error),
        }
        Ok(
            SearchWalk {
                options,
                state,
                collector: ItemCollector::new(),
                entries: 0,
                admitted: false,
                child: None,
                rechecked: 0,
            },
        )
    }

    /// What to do next.
    pub fn next_action(&self) -> (action: WalkAction)
        requires
            self.is_valid(),
        ensures
            action == (if self@.state.stack.len() > 0 {
                WalkAction::Visit
            } else if self@.rechecked < self@.state.visited.len() {
                WalkAction::Recheck(self@.rechecked)
            } else {
                WalkAction::Finished
            }),
    {
        if self.state.current().is_some() {
            return WalkAction::Visit;
        }
        match self.state.visited(self.rechecked) {
            Some(_) => WalkAction::Recheck(self.rechecked),
            None => WalkAction::Finished,
        }
    }

    /// The directories of the walk, to look at them.
    pub fn directories(&self) -> (state: &DirectoryWalkState)
        ensures
            state@ == self@.state,
    {
        &self.state
    }

    /// Fails where work does not go on before the current directory is read.
    pub fn check_before_visit(&self, activity: Activity) -> (result: Result<(), ListingError>)
        requires
            self@.state.stack.len() > 0,
        ensures
            ({
                let failure = walk::activity_failure(
                    activity,
                    "walk_cancelled"@,
                    "walk_timeout"@,
                    self@.state.stack.last().path,
                    self@.options.root,
                );
                match result {
                    Ok(_) => failure is None,
                    Err(error) => failure == Some(error@),
                }
            }),
    {
        match self.state.current() {
            Some(frame) => check_activity(
                activity,
                "walk_cancelled",
                "walk_timeout",
                &frame.path,
                &self.options.root,
            ),
            None => Ok(()),
        }
    }

    /// Fails where the current directory is not what it was when it was found.
    pub fn check_current_directory(&self, metadata: &Result<EntryMetadata, IoFailure>) -> (result:
        Result<(), ListingError>)
        requires
            self@.state.stack.len() > 0,
        ensures
            ({
                let frame = self@.state.stack.last();
                let failure = change_failure(
                    *metadata,
                    VisitedView { path: frame.path, snapshot: frame.snapshot },
                    "walk_snapshot_before"@,
                    self@.options.root,
                );
                match result {
                    Ok(_) => failure is None,
                    Err(error) => failure == Some(error@),
                }
            }),
    {
        match self.state.current() {
            Some(frame) => ensure_directory_snapshot(
                metadata,
                &frame.path,
                frame.snapshot,
                "walk_snapshot_before",
                &self.options.root,
            ),
            None => Ok(()),
        }
    }

    /// Counts an entry that was met, before anything else is asked about it.
    pub fn admit_entry(&mut self, path: &LexicalPath, activity: Activity) -> (result: Result<
        (),
        ListingError,
    >)
        requires
            old(self).is_valid(),
        ensures
            final(self).is_valid(),
            ({
                let stopped = walk::activity_failure(
                    activity,
                    "walk_cancelled"@,
                    "walk_timeout"@,
                    path@,
                    old(self)@.options.root,
                );
                match result {
                    Ok(_) => stopped is None && old(self)@.entries < old(self)@.options.max_entries
                        && final(self)@ == (SearchView {
                        entries: (old(self)@.entries + 1) as usize,
                        admitted: true,
                        ..old(self)@
                    }),
                    Err(error) => final(self)@ == old(self)@ && match stopped {
                        Some(failure) => error@ == failure,
                        None => old(self)@.entries >= old(self)@.options.max_entries && error@
                            == ListingErrorView::at(
                            "walk_limit"@,
                            path@,
                            old(self)@.options.root,
                            "entry_budget"@,
                            ListingProblem::DirectoryWalkEntryLimit,
                        ),
                    },
                }
            }),
    {
        if let Err(error) = check_activity(
            activity,
            "walk_cancelled",
            "walk_timeout",
            path,
            &self.options.root,
        ) {
            return Err(error);
        }
        if self.entries >= self.options.max_entries {
            return Err(
                ListingError::limit(
                    "walk_limit",
                    path,
                    &self.options.root,
                    "entry_budget",
                    ListingProblem::DirectoryWalkEntryLimit,
                ),
            );
        }
        self.entries = self.entries + 1;
        self.admitted = true;
        Ok(())
    }

    /// Looks at an entry: collects it if it is what the search looks for, and
    /// answers whether to read on in the same directory. Where it is a directory,
    /// the walk goes into it next. A result that the budget has no room for is
    /// refused; whether the allocator has room for it is open.
    pub fn take_entry(
        &mut self,
        policy: &PathPolicy,
        entry: &RootedDirEntry,
        activity: Activity,
        path_bytes: usize,
    ) -> (result: Result<bool, ListingError>)
        requires
            old(self).is_valid(),
            old(self)@.admitted,
        ensures
            result matches Ok(read_on) ==> {
                &&& entry_failure(*policy, old(self)@.options, entry@, activity) is None
                &&& read_on == !is_descended(*policy, old(self)@.options, entry@)
                &&& final(self).is_valid()
                &&& old(self)@.takes(*policy, entry@, path_bytes, final(self)@)
            },
            result is Err ==> final(self).is_valid() && final(self)@ == old(self)@,
            result matches Err(error) ==> match entry_failure(
                *policy,
                old(self)@.options,
                entry@,
                activity,
            ) {
                Some(failure) => error@ == failure,
                None => is_found(*policy, old(self)@.options, entry@) && (error@
                    == old(self)@.options.budget_failure(entry@.path) || error@
                    == old(self)@.options.allocation_failure(entry@.path)
                    && old(self)@.collected.bytes_with(found_item(old(self)@.options, entry@))
                    <= old(self)@.options.budget.max_bytes),
            },
            entry_failure(*policy, old(self)@.options, entry@, activity) is None && is_found(
                *policy,
                old(self)@.options,
                entry@,
            ) && old(self)@.collected.bytes_with(found_item(old(self)@.options, entry@)) > old(
                self,
            )@.options.budget.max_bytes ==> (result matches Err(error) && error@ == old(
                self,
            )@.options.budget_failure(entry@.path)),
    {
        if let Err(error) = check_activity(
            activity,
            "walk_cancelled",
            "walk_timeout",
            &entry.path,
            &self.options.root,
        ) {
            return Err(error);
        }
        let name = match utf8_text(entry.file_name.as_slice()) {
            Some(name) => name,
            None => return Err(
                ListingError::unsupported_name("walk_filename", &entry.path, &self.options.root),
            ),
        };
        if hides(policy, entry, name.as_str(), &self.options.root) {
            self.admitted = false;
            return Ok(true);
        }
        if case_folded_contains(name.as_str(), self.options.search.as_str()) {
            let item = match pathitem_from_rooted_entry(
                entry,
                &self.options.base,
                &self.options.root,
            ) {
                Ok(item) => item,
                Err(error) => return Err(error),
            };
            let added = self.collector.try_add(item, self.options.budget.max_bytes);
            if let Err(error) = self.options.judge(added, &entry.path) {
                return Err(error);
            }
        }
        self.admitted = false;
        if entry.metadata.is_directory {
            self.child = Some(
                PendingDirectory {
                    path: entry.path.copy(),
                    snapshot: entry.metadata.snapshot,
                    path_bytes,
                },
            );
            return Ok(false);
        }
        Ok(true)
    }

    /// Ends a read of the current directory: leaves it where it was read to its
    /// end, and otherwise goes into the directory that was met. Whether the
    /// allocator has room is open.
    pub fn end_visit(&mut self, progress: &Result<DirectoryVisitProgress, IoFailure>) -> (result:
        Result<(), ListingError>)
        requires
            old(self).is_valid(),
            old(self)@.state.stack.len() > 0,
        ensures
            final(self).is_valid(),
            result is Err ==> final(self)@ == old(self)@.after_failed_visit(*progress),
            ({
                let before = old(self)@;
                let directory = before.state.stack.last();
                match *progress {
                    Err(failure) => result matches Err(error) && error@ == ListingErrorView::io(
                        "walk_next"@,
                        directory.path,
                        before.options.root,
                        failure,
                    ),
                    Ok(DirectoryVisitProgress::Complete) => match result {
                        Ok(_) => budget::capped(before.state.least_bytes(-1, 1, 0))
                            <= before.options.max_working_bytes && final(self)@ == (SearchView {
                            state: before.state.finished(),
                            child: None,
                            admitted: false,
                            ..before
                        }),
                        Err(error) => error@ == walk::memory_failure(
                            directory.path,
                            before.options.root,
                        ) || error@ == walk::allocation_failure(
                            directory.path,
                            before.options.root,
                        ) && budget::capped(before.state.least_bytes(-1, 1, 0))
                            <= before.options.max_working_bytes,
                    },
                    Ok(DirectoryVisitProgress::Paused(cursor)) => {
                        let paused = before.state.paused_at(cursor);
                        match before.child {
                            None => result matches Err(error) && error@
                                == ListingErrorView::broken_invariant(
                                "walk_paused_without_child"@,
                                directory.path,
                                before.options.root,
                            ),
                            Some(child) => {
                                let depth = before.state.stack.len() as usize;
                                let refused = walk::push_failure(
                                    paused,
                                    child.path,
                                    child.snapshot,
                                    depth,
                                    before.options.limits(),
                                    child.path_bytes,
                                    before.options.root,
                                );
                                match result {
                                    Ok(_) => refused is None && final(self)@ == (SearchView {
                                        state: paused.pushed(
                                            child.path,
                                            child.snapshot,
                                            depth,
                                            child.path_bytes,
                                        ),
                                        child: None,
                                        admitted: false,
                                        ..before
                                    }),
                                    Err(error) => match refused {
                                        Some(failure) => error@ == failure,
                                        None => error@ == walk::memory_failure(
                                            child.path,
                                            before.options.root,
                                        ) || error@ == walk::allocation_failure(
                                            child.path,
                                            before.options.root,
                                        ),
                                    },
                                }
                            },
                        }
                    },
                }
            }),
    {
        let path = match self.state.current() {
            Some(frame) => frame.path.copy(),
            None => return Ok(()),
        };
        let depth = self.state.depth();
        self.admitted = false;
        match progress {
            Err(failure) => Err(ListingError::io("walk_next", &path, &self.options.root, failure)),
            Ok(DirectoryVisitProgress::Complete) => {
                self.child = None;
                self.state.finish_current(self.options.max_working_bytes, &self.options.root)
            },
            Ok(DirectoryVisitProgress::Paused(cursor)) => {
                self.state.set_cursor(*cursor);
                match self.child.take() {
                    None => Err(
                        ListingError::broken_invariant(
                            "walk_paused_without_child",
                            &path,
                            &self.options.root,
                        ),
                    ),
                    Some(child) => self.state.push_directory(
                        child.path,
                        child.snapshot,
                        depth,
                        (self.options.max_depth, self.options.max_working_bytes),
                        child.path_bytes,
                        &self.options.root,
                    ),
                }
            },
        }
    }

    /// Looks again at the next directory that was read.
    pub fn recheck(&mut self, activity: Activity, metadata: &Result<EntryMetadata, IoFailure>) -> (
        result: Result<(), ListingError>)
        requires
            old(self).is_valid(),
            old(self)@.rechecked < old(self)@.state.visited.len(),
        ensures
            final(self).is_valid(),
            ({
                let before = old(self)@;
                let directory = before.state.visited[before.rechecked as int];
                let stopped = walk::activity_failure(
                    activity,
                    "walk_snapshot_after"@,
                    "walk_snapshot_after"@,
                    directory.path,
                    before.options.root,
                );
                let changed = change_failure(
                    *metadata,
                    directory,
                    "walk_snapshot_after"@,
                    before.options.root,
                );
                match result {
                    Ok(_) => stopped is None && changed is None && final(self)@ == (SearchView {
                        rechecked: (before.rechecked + 1) as usize,
                        ..before
                    }),
                    Err(error) => final(self)@ == before && Some(error@) == (match stopped {
                        Some(failure) => Some(failure),
                        None => changed,
                    }),
                }
            }),
    {
        let count = self.state.visited_count();
        let directory = match self.state.visited(self.rechecked) {
            Some(directory) => directory,
            None => return Ok(()),
        };
        if let Err(error) = check_activity(
            activity,
            "walk_snapshot_after",
            "walk_snapshot_after",
            &directory.path,
            &self.options.root,
        ) {
            return Err(error);
        }
        if let Err(error) = ensure_directory_snapshot(
            metadata,
            &directory.path,
            directory.snapshot,
            "walk_snapshot_after",
            &self.options.root,
        ) {
            return Err(error);
        }
        if self.rechecked < count {
            self.rechecked = self.rechecked + 1;
        }
        Ok(())
    }

    /// The results of a search that has finished.
    pub fn finish(self) -> (items: Vec<PathItem>)
        requires
            self.is_valid(),
            self@.state.stack.len() == 0,
            self@.rechecked == self@.state.visited.len(),
        ensures
            items::item_list(items@) == self@.collected.items,
            items@.len() <= self@.entries <= self@.options.max_entries,
    {
        self.collector.into_items()
    }
}

/// A search stays within its limits: it is never deeper in the tree than it may
/// be, meets no more entries than it may, and holds no more results than it met
/// entries. What the results take at least is within their budget.
pub proof fn law_searches_are_bounded(search: SearchWalk)
    requires
        search.is_valid(),
    ensures
        search@.state.stack.len() <= search@.options.max_depth + 1,
        search@.entries <= search@.options.max_entries,
        search@.collected.items.len() <= search@.entries,
        search@.collected.items.len() > 0 ==> budget::listing_bytes(search@.collected.items)
            <= search@.options.budget.max_bytes,
{
    lemma_counted_names_fit(search@.collected);
}

/// The names of an entry count against the budget of a collection, and so does the
/// room to sort the entries: what is too much for the one is too much for the other.
pub proof fn law_names_count_against_the_budget(collected: CollectorView, item: PathItemView)
    ensures
        collected.bytes_with(item) >= budget::capped(budget::entry_name_bytes(item) as int),
        collected.counts_names() ==> collected.bytes_with(item) >= budget::listing_bytes(
            collected.items.push(item),
        ),
        budget::least_sorting_bytes(collected.items) >= budget::listing_bytes(collected.items),
{
    let size = layout::size_of::<PathItem>() as int;
    let count = collected.items.len() as int;
    assert(count * size >= 0 && (count + 1) * size >= 0 && count * layout::size_of::<usize>() * 2
        >= 0) by (nonlinear_arith)
        requires
            count >= 0,
            size >= 0,
    ;
    assert(collected.items.push(item).drop_last() =~= collected.items);
}

proof fn lemma_counted_names_fit(collected: CollectorView)
    requires
        collected.counts_names(),
    ensures
        budget::listing_bytes(collected.items) <= collected.bytes(),
{
    assert(collected.items.len() * layout::size_of::<PathItem>() >= 0) by (nonlinear_arith);
}

/// What can go wrong when collected entries are sorted: their budget has no room for
/// it, or the sort came to no end.
pub open spec fn is_sort_failure<S: Fn() -> bool, E: Fn() -> bool>(
    error: ListingErrorView,
    collected: Seq<PathItemView>,
    max_bytes: usize,
    stopping: S,
    expired: E,
    operation: Seq<char>,
    path: Seq<Seq<u8>>,
    root: Seq<Seq<u8>>,
) -> bool {
    ||| error == sort_budget_failure(operation, path, root) && max_bytes < usize::MAX
    ||| budget::least_sorting_bytes(collected) <= max_bytes && items::is_interruption(
        error,
        collected.len(),
        stopping,
        expired,
        operation,
        path,
        root,
    )
}

pub open spec fn sort_budget_failure(
    operation: Seq<char>,
    path: Seq<Seq<u8>>,
    root: Seq<Seq<u8>>,
) -> ListingErrorView {
    ListingErrorView::at(
        operation,
        path,
        root,
        "sort_memory_budget"@,
        ListingProblem::DirectorySortLimit,
    )
}

/// A list of entries in the order that a request asks for.
pub open spec fn is_sorted_listing(
    before: Seq<PathItem>,
    after: Seq<PathItem>,
    key: Seq<char>,
    direction: Seq<char>,
) -> bool {
    exists|places: Seq<int>| #[trigger]
        sort::rearranged(before, after, places) && (sort::is_consistent(
            items::requested_order(key, direction),
            before,
        ) ==> sort::sorts_stably(items::requested_order(key, direction), before, places))
}

/// Sorts collected entries within their budget, unless the server stops or the
/// time is up. What the list takes beyond its entries and their names, and whether
/// there is memory for their positions, is up to the allocator.
#[allow(clippy::too_many_arguments)]
pub fn sort_collected<S: Copy + Fn() -> bool, E: Copy + Fn() -> bool>(
    collected: Vec<PathItem>,
    max_bytes: usize,
    sort: &str,
    order: &str,
    stopping: S,
    expired: E,
    operation: &'static str,
    path: &LexicalPath,
    root: &LexicalPath,
) -> (result: Result<Vec<PathItem>, ListingError>)
    requires
        call_requires(stopping, ()),
        call_requires(expired, ()),
    ensures
        match result {
            Ok(sorted) => is_sorted_listing(collected@, sorted@, sort@, order@) && items::went_on(
                stopping,
                expired,
            ),
            Err(error) => is_sort_failure(
                error@,
                items::item_list(collected@),
                max_bytes,
                stopping,
                expired,
                operation@,
                path@,
                root@,
            ),
        },
        budget::least_sorting_bytes(items::item_list(collected@)) > max_bytes ==> (
        result matches Err(error) && error@ == sort_budget_failure(operation@, path@, root@)),
{
    let mut sorted: Vec<PathItem> = collected;
    let capacity = vec_capacity(&sorted);
    if let Err(error) = ensure_path_sort_budget(
        &sorted,
        capacity,
        max_bytes,
        operation,
        path,
        root,
    ) {
        return Err(error);
    }
    match sort_path_items_interruptibly(
        &mut sorted,
        sort,
        order,
        stopping,
        expired,
        operation,
        path,
        root,
    ) {
        Ok(()) => {},
        Err(error) => return Err(error),
    }
    shrink_paths_if_wasteful(&mut sorted);
    Ok(sorted)
}

/// The results of a search that has finished, in the order that a request asks
/// for.
pub fn finish_search<S: Copy + Fn() -> bool, E: Copy + Fn() -> bool>(
    walk: SearchWalk,
    sort: &str,
    order: &str,
    stopping: S,
    expired: E,
) -> (result: Result<Vec<PathItem>, ListingError>)
    requires
        walk.is_valid(),
        walk@.state.stack.len() == 0,
        walk@.rechecked == walk@.state.visited.len(),
        call_requires(stopping, ()),
        call_requires(expired, ()),
    ensures
        match result {
            Ok(sorted) => exists|found: Seq<PathItem>| #[trigger]
                items::item_list(found) == walk@.collected.items && is_sorted_listing(
                    found,
                    sorted@,
                    sort@,
                    order@,
                ) && items::went_on(stopping, expired),
            Err(error) => is_sort_failure(
                error@,
                walk@.collected.items,
                walk@.options.budget.max_bytes,
                stopping,
                expired,
                "search_sort"@,
                walk@.options.base,
                walk@.options.root,
            ),
        },
        budget::least_sorting_bytes(walk@.collected.items) > walk@.options.budget.max_bytes ==> (
        result matches Err(error) && error@ == sort_budget_failure(
            "search_sort"@,
            walk@.options.base,
            walk@.options.root,
        )),
{
    let base = walk.options.base.copy();
    let root = walk.options.root.copy();
    let max_bytes = walk.options.budget.max_bytes;
    let found = walk.finish();
    sort_collected(
        found,
        max_bytes,
        sort,
        order,
        stopping,
        expired,
        "search_sort",
        &base,
        &root,
    )
}

/// A plain listing of one directory under way.
pub struct ListScan {
    path: LexicalPath,
    root: LexicalPath,
    max_entries: usize,
    max_bytes: usize,
    collector: ItemCollector,
    entries: usize,
    admitted: bool,
}

#[verifier::ext_equal]
pub struct ScanView {
    pub path: Seq<Seq<u8>>,
    pub root: Seq<Seq<u8>>,
    pub max_entries: usize,
    pub max_bytes: usize,
    pub collected: CollectorView,
    pub entries: usize,
    pub admitted: bool,
}

impl ScanView {
    pub open spec fn stop_failure(self, activity: Activity) -> Option<ListingErrorView> {
        walk::activity_failure(
            activity,
            "list_snapshot"@,
            "list_snapshot"@,
            self.path,
            self.root,
        )
    }

    pub open spec fn budget_failure(self) -> ListingErrorView {
        ListingErrorView::at(
            "list_snapshot"@,
            self.path,
            self.root,
            "snapshot_memory_budget"@,
            ListingProblem::ListSnapshotLimit,
        )
    }

    /// An entry as it is listed.
    pub open spec fn item(self, entry: EntryView) -> PathItemView {
        entries::listed(entry, self.path, self.root)->Ok_0
    }

    pub open spec fn allocation_failure(self, entry: Seq<Seq<u8>>) -> ListingErrorView {
        ListingErrorView::at(
            "list_snapshot"@,
            entry,
            self.root,
            "result_allocation_failed"@,
            ListingProblem::ListSnapshotAllocationFailed,
        )
    }

    /// The listing once it has met one more entry.
    pub open spec fn with_admitted(self) -> ScanView {
        ScanView { entries: (self.entries + 1) as usize, admitted: true, ..self }
    }

    /// What becomes of a listing that looks at an entry.
    pub open spec fn takes(self, policy: PathPolicy, entry: EntryView, after: ScanView) -> bool {
        &&& after == (ScanView { admitted: false, collected: after.collected, ..self })
        &&& if is_hidden(policy, entry, self.root) {
            after.collected == self.collected
        } else {
            self.collected.is_added(self.item(entry), after.collected, self.max_bytes)
        }
    }

    /// Why an entry cannot be taken, whatever the allocator does.
    pub open spec fn entry_failure(
        self,
        policy: PathPolicy,
        entry: EntryView,
        activity: Activity,
    ) -> Option<ListingErrorView> {
        if self.stop_failure(activity) is Some {
            self.stop_failure(activity)
        } else if !valid_utf8(entry.file_name) {
            Some(
                ListingErrorView::unsupported_name(
                    "list_snapshot_filename"@,
                    entry.path,
                    self.root,
                ),
            )
        } else if is_hidden(policy, entry, self.root) {
            None
        } else {
            match entries::listed(entry, self.path, self.root) {
                Ok(_) => None,
                Err(error) => Some(error),
            }
        }
    }
}

impl ListScan {
    pub closed spec fn view(self) -> ScanView {
        ScanView {
            path: self.path@,
            root: self.root@,
            max_entries: self.max_entries,
            max_bytes: self.max_bytes,
            collected: self.collector@,
            entries: self.entries,
            admitted: self.admitted,
        }
    }

    /// A listing never holds more than it may.
    pub closed spec fn is_valid(self) -> bool {
        &&& self.entries <= self.max_entries
        &&& self.collector@.items.len() + (if self.admitted {
            1int
        } else {
            0int
        }) <= self.entries
        &&& self.collector@.counts_names()
        &&& self.collector@.items.len() > 0 ==> self.collector@.bytes() <= self.max_bytes
    }

    pub fn start(path: &LexicalPath, root: &LexicalPath, max_entries: usize, max_bytes: usize) -> (
        scan: ListScan)
        ensures
            scan.is_valid(),
            scan@ == (ScanView {
                path: path@,
                root: root@,
                max_entries,
                max_bytes,
                collected: CollectorView::empty(),
                entries: 0,
                admitted: false,
            }),
    {
        ListScan {
            path: path.copy(),
            root: root.copy(),
            max_entries,
            max_bytes,
            collector: ItemCollector::new(),
            entries: 0,
            admitted: false,
        }
    }

    /// Counts an entry that was met, before anything else is asked about it.
    pub fn admit_entry(&mut self, activity: Activity) -> (result: Result<(), ListingError>)
        requires
            old(self).is_valid(),
        ensures
            final(self).is_valid(),
            match result {
                Ok(_) => old(self)@.stop_failure(activity) is None && old(self)@.entries < old(
                    self,
                )@.max_entries && final(self)@ == old(self)@.with_admitted(),
                Err(error) => final(self)@ == old(self)@ && match old(self)@.stop_failure(
                    activity,
                ) {
                    Some(failure) => error@ == failure,
                    None => old(self)@.entries >= old(self)@.max_entries && error@
                        == ListingErrorView::at(
                        "list_snapshot"@,
                        old(self)@.path,
                        old(self)@.root,
                        "entry_budget"@,
                        ListingProblem::DirectoryListingEntryLimit,
                    ),
                },
            },
    {
        if let Err(error) = check_activity(
            activity,
            "list_snapshot",
            "list_snapshot",
            &self.path,
            &self.root,
        ) {
            return Err(error);
        }
        if self.entries >= self.max_entries {
            return Err(
                ListingError::limit(
                    "list_snapshot",
                    &self.path,
                    &self.root,
                    "entry_budget",
                    ListingProblem::DirectoryListingEntryLimit,
                ),
            );
        }
        self.entries = self.entries + 1;
        self.admitted = true;
        Ok(())
    }

    /// Judges whether a listing goes on behind an entry, by what adding it came to.
    pub fn judge(&self, added: Result<(), BoundedReserveError>, entry: &LexicalPath) -> (result:
        Result<(), ListingError>)
        ensures
            match added {
                Ok(_) => result is Ok,
                Err(BoundedReserveError::Budget) => result matches Err(error) && error@
                    == self@.budget_failure(),
                Err(BoundedReserveError::Allocation) => result matches Err(error) && error@
                    == self@.allocation_failure(entry@),
            },
    {
        match added {
            Ok(()) => Ok(()),
            Err(BoundedReserveError::Budget) => Err(
                ListingError::limit(
                    "list_snapshot",
                    &self.path,
                    &self.root,
                    "snapshot_memory_budget",
                    ListingProblem::ListSnapshotLimit,
                ),
            ),
            Err(BoundedReserveError::Allocation) => Err(
                ListingError::limit(
                    "list_snapshot",
                    entry,
                    &self.root,
                    "result_allocation_failed",
                    ListingProblem::ListSnapshotAllocationFailed,
                ),
            ),
        }
    }

    /// Looks at an entry and lists it, unless it is hidden. One that the budget has
    /// no room for is refused; whether the allocator has room for it is open.
    pub fn take_entry(&mut self, policy: &PathPolicy, entry: &RootedDirEntry, activity: Activity) -> (
        result: Result<(), ListingError>)
        requires
            old(self).is_valid(),
            old(self)@.admitted,
        ensures
            result is Ok ==> {
                &&& old(self)@.entry_failure(*policy, entry@, activity) is None
                &&& final(self).is_valid()
                &&& old(self)@.takes(*policy, entry@, final(self)@)
            },
            result is Err ==> final(self).is_valid() && final(self)@ == old(self)@,
            result matches Err(error) ==> match old(self)@.entry_failure(
                *policy,
                entry@,
                activity,
            ) {
                Some(failure) => error@ == failure,
                None => !is_hidden(*policy, entry@, old(self)@.root) && (error@ == old(
                    self,
                )@.budget_failure() || error@ == old(self)@.allocation_failure(entry@.path) && old(
                    self,
                )@.collected.bytes_with(old(self)@.item(entry@)) <= old(self)@.max_bytes),
            },
            old(self)@.entry_failure(*policy, entry@, activity) is None && !is_hidden(
                *policy,
                entry@,
                old(self)@.root,
            ) && old(self)@.collected.bytes_with(old(self)@.item(entry@)) > old(self)@.max_bytes
                ==> (result matches Err(error) && error@ == old(self)@.budget_failure()),
    {
        if let Err(error) = check_activity(
            activity,
            "list_snapshot",
            "list_snapshot",
            &self.path,
            &self.root,
        ) {
            return Err(error);
        }
        let name = match utf8_text(entry.file_name.as_slice()) {
            Some(name) => name,
            None => return Err(
                ListingError::unsupported_name("list_snapshot_filename", &entry.path, &self.root),
            ),
        };
        if !hides(policy, entry, name.as_str(), &self.root) {
            let item = match pathitem_from_rooted_entry(entry, &self.path, &self.root) {
                Ok(item) => item,
                Err(error) => return Err(error),
            };
            let added = self.collector.try_add(item, self.max_bytes);
            if let Err(error) = self.judge(added, &entry.path) {
                return Err(error);
            }
        }
        self.admitted = false;
        Ok(())
    }

    /// Ends a listing: sorts what was listed, or fails as the read did.
    pub fn finish<S: Copy + Fn() -> bool, E: Copy + Fn() -> bool>(
        self,
        visit: &Result<(), IoFailure>,
        sort: &str,
        order: &str,
        stopping: S,
        expired: E,
    ) -> (result: Result<Vec<PathItem>, ListingError>)
        requires
            self.is_valid(),
            call_requires(stopping, ()),
            call_requires(expired, ()),
        ensures
            match (*visit, result) {
                (Ok(_), Ok(sorted)) => exists|listed: Seq<PathItem>| #[trigger]
                    items::item_list(listed) == self@.collected.items && is_sorted_listing(
                        listed,
                        sorted@,
                        sort@,
                        order@,
                    ) && items::went_on(stopping, expired),
                (Ok(_), Err(error)) => is_sort_failure(
                    error@,
                    self@.collected.items,
                    self@.max_bytes,
                    stopping,
                    expired,
                    "list_snapshot_sort"@,
                    self@.path,
                    self@.root,
                ),
                (Err(failure), Err(error)) => error@ == ListingErrorView::io(
                    "list_snapshot"@,
                    self@.path,
                    self@.root,
                    failure,
                ),
                (Err(_), Ok(_)) => false,
            },
            visit is Ok && budget::least_sorting_bytes(self@.collected.items) > self@.max_bytes ==> (
            result matches Err(error) && error@ == sort_budget_failure(
                "list_snapshot_sort"@,
                self@.path,
                self@.root,
            )),
    {
        if let Err(failure) = visit {
            return Err(ListingError::io("list_snapshot", &self.path, &self.root, failure));
        }
        let listed = self.collector.into_items();
        sort_collected(
            listed,
            self.max_bytes,
            sort,
            order,
            stopping,
            expired,
            "list_snapshot_sort",
            &self.path,
            &self.root,
        )
    }
}

/// A listing stays within its limits: it meets no more entries than it may, and
/// lists no more than it met. What the entries take at least is within the budget.
pub proof fn law_listings_are_bounded(scan: ListScan)
    requires
        scan.is_valid(),
    ensures
        scan@.entries <= scan@.max_entries,
        scan@.collected.items.len() <= scan@.entries,
        scan@.collected.items.len() > 0 ==> budget::listing_bytes(scan@.collected.items)
            <= scan@.max_bytes,
{
    lemma_counted_names_fit(scan@.collected);
}

/// The entries of a directory as they are listed, without those that are hidden.
pub open spec fn listed_items(scan: ScanView, policy: PathPolicy, entries: Seq<EntryView>) -> Seq<
    PathItemView,
>
    decreases entries.len(),
{
    if entries.len() == 0 {
        Seq::empty()
    } else {
        let front = listed_items(scan, policy, entries.drop_last());
        if is_hidden(policy, entries.last(), scan.root) {
            front
        } else {
            front.push(scan.item(entries.last()))
        }
    }
}

/// A listing from its start through some entries, each of which was met and taken.
pub open spec fn is_listing_of(
    scans: Seq<ScanView>,
    policy: PathPolicy,
    entries: Seq<EntryView>,
) -> bool {
    &&& scans.len() == entries.len() + 1
    &&& scans[0].collected == CollectorView::empty()
    &&& scans[0].entries == 0
    &&& forall|i: int|
        0 <= i < entries.len() ==> scans[i].entries < scans[i].max_entries && (
        #[trigger] scans[i]).with_admitted().takes(policy, entries[i], scans[i + 1])
}

/// A listing that comes to its end leaves nothing out: it holds every entry that it met
/// and that is not hidden, in the order in which it met them, and it met no more
/// entries than it may.
pub proof fn law_listings_are_complete(
    scans: Seq<ScanView>,
    policy: PathPolicy,
    entries: Seq<EntryView>,
)
    requires
        is_listing_of(scans, policy, entries),
    ensures
        scans.last().collected.items == listed_items(scans[0], policy, entries),
        scans.last().entries == entries.len(),
        entries.len() <= scans[0].max_entries,
        scans.last().path == scans[0].path,
        scans.last().root == scans[0].root,
        scans.last().max_entries == scans[0].max_entries,
    decreases entries.len(),
{
    if entries.len() > 0 {
        let last = entries.len() - 1;
        let earlier = scans.drop_last();
        assert forall|i: int| 0 <= i < last implies earlier[i].entries < earlier[i].max_entries && (
        #[trigger] earlier[i]).with_admitted().takes(
            policy,
            entries.drop_last()[i],
            earlier[i + 1],
        ) by {
            assert(scans[i].with_admitted().takes(policy, entries[i], scans[i + 1]));
        }
        law_listings_are_complete(earlier, policy, entries.drop_last());
        assert(scans[last].with_admitted().takes(policy, entries[last], scans[last + 1]));
    }
}

/// The entries that a search looks for among those that it met.
pub open spec fn found_items(options: OptionsView, policy: PathPolicy, entries: Seq<EntryView>) -> Seq<
    PathItemView,
>
    decreases entries.len(),
{
    if entries.len() == 0 {
        Seq::empty()
    } else {
        let front = found_items(options, policy, entries.drop_last());
        if is_found(policy, options, entries.last()) {
            front.push(found_item(options, entries.last()))
        } else {
            front
        }
    }
}

/// A search from its start through some steps: each looks at an entry, or enters, leaves
/// or rechecks a directory, which adds no result.
pub open spec fn is_search_of(
    walks: Seq<SearchView>,
    policy: PathPolicy,
    entries: Seq<Option<EntryView>>,
) -> bool {
    &&& walks.len() == entries.len() + 1
    &&& walks[0].collected == CollectorView::empty()
    &&& forall|i: int|
        0 <= i < entries.len() ==> is_search_step(#[trigger] walks[i], policy, entries[i], walks[i
            + 1])
}

pub open spec fn is_search_step(
    before: SearchView,
    policy: PathPolicy,
    entry: Option<EntryView>,
    after: SearchView,
) -> bool {
    match entry {
        Some(entry) => exists|path_bytes: usize| #[trigger]
            before.takes(policy, entry, path_bytes, after),
        None => after.collected == before.collected && after.options == before.options,
    }
}

pub open spec fn met(entries: Seq<Option<EntryView>>) -> Seq<EntryView>
    decreases entries.len(),
{
    if entries.len() == 0 {
        Seq::empty()
    } else {
        match entries.last() {
            Some(entry) => met(entries.drop_last()).push(entry),
            None => met(entries.drop_last()),
        }
    }
}

/// A search leaves nothing out that it met: its results are the entries that it looks
/// for among those that it met, in the order in which it met them.
pub proof fn law_searches_are_complete(
    walks: Seq<SearchView>,
    policy: PathPolicy,
    entries: Seq<Option<EntryView>>,
)
    requires
        is_search_of(walks, policy, entries),
    ensures
        walks.last().collected.items == found_items(walks[0].options, policy, met(entries)),
        walks.last().options == walks[0].options,
    decreases entries.len(),
{
    if entries.len() > 0 {
        let last = entries.len() - 1;
        let earlier = walks.drop_last();
        assert forall|i: int| 0 <= i < last implies is_search_step(
            #[trigger] earlier[i],
            policy,
            entries.drop_last()[i],
            earlier[i + 1],
        ) by {
            assert(is_search_step(walks[i], policy, entries[i], walks[i + 1]));
        }
        law_searches_are_complete(earlier, policy, entries.drop_last());
        assert(is_search_step(walks[last], policy, entries[last], walks[last + 1]));
        if let Some(entry) = entries[last] {
            assert(met(entries).drop_last() =~= met(entries.drop_last()));
            assert(met(entries).last() == entry);
        }
    }
}

/// An entry that is listed or found is never one that is hidden.
pub proof fn law_hidden_entries_stay_hidden(
    policy: PathPolicy,
    options: OptionsView,
    entry: EntryView,
)
    requires
        is_hidden(policy, entry, options.root),
    ensures
        !is_found(policy, options, entry),
        !is_descended(policy, options, entry),
{
}

/// An entry below the root is hidden exactly where its name is one of the server's own
/// or its path is the platform's; every other entry is shown.
pub proof fn law_only_reserved_entries_are_hidden(
    policy: PathPolicy,
    entry: EntryView,
    root: Seq<Seq<u8>>,
    below: Seq<Seq<u8>>,
    relative: Seq<char>,
)
    requires
        entry.path == root + below,
        paths::joined(below, 47u8) == encode_utf8(relative),
    ensures
        is_hidden(policy, entry, root) <==> internal_names::internal_kind(
            decode_utf8(entry.file_name),
        ) is Some || path_policy::under_platform(policy.platform(), relative),
{
    broadcast use {encode_utf8_valid_utf8, encode_utf8_decode_utf8};

    text::law_affixes_are_parts(entry.path, root);
    assert(entry.path.subrange(root.len() as int, entry.path.len() as int) =~= below);
}

/// An entry that is shown is found exactly where its name matches the search, and the
/// search goes into every directory that is shown, whether its name matches or not and
/// whether or not it is reached through a link.
pub proof fn law_shown_entries_are_searched(
    policy: PathPolicy,
    options: OptionsView,
    entry: EntryView,
)
    requires
        !is_hidden(policy, entry, options.root),
    ensures
        is_found(policy, options, entry) <==> items::matches_folded(
            decode_utf8(entry.file_name),
            options.search,
        ),
        is_descended(policy, options, entry) <==> entry.metadata.is_directory,
{
}

/// What a search finds among more entries is what it finds among the first and what it
/// finds among the others, in that order; of one entry it finds that entry or nothing.
pub proof fn law_results_follow_the_entries(
    options: OptionsView,
    policy: PathPolicy,
    first: Seq<EntryView>,
    others: Seq<EntryView>,
    entry: EntryView,
)
    ensures
        found_items(options, policy, first + others) == found_items(options, policy, first)
            + found_items(options, policy, others),
        is_found(policy, options, entry) ==> found_items(options, policy, seq![entry]) == seq![
            found_item(options, entry),
        ],
        !is_found(policy, options, entry) ==> found_items(options, policy, seq![entry])
            == Seq::<PathItemView>::empty(),
    decreases others.len(),
{
    assert(seq![entry].drop_last() =~= Seq::empty());
    assert(found_items(options, policy, seq![entry].drop_last()) =~= Seq::empty());
    assert(is_found(policy, options, entry) ==> found_items(options, policy, seq![entry]) =~= seq![
        found_item(options, entry),
    ]);
    if others.len() == 0 {
        assert(first + others =~= first);
        assert(found_items(options, policy, first) + found_items(options, policy, others)
            =~= found_items(options, policy, first));
    } else {
        law_results_follow_the_entries(options, policy, first, others.drop_last(), entry);
        assert((first + others).drop_last() =~= first + others.drop_last());
        assert(found_items(options, policy, first + others) =~= found_items(options, policy, first)
            + found_items(options, policy, others));
    }
}

/// A listing of more entries is the listing of the first and that of the others, in that
/// order; of one entry it is that entry, or nothing where it is hidden.
pub proof fn law_listings_follow_the_entries(
    scan: ScanView,
    policy: PathPolicy,
    first: Seq<EntryView>,
    others: Seq<EntryView>,
    entry: EntryView,
)
    ensures
        listed_items(scan, policy, first + others) == listed_items(scan, policy, first)
            + listed_items(scan, policy, others),
        !is_hidden(policy, entry, scan.root) ==> listed_items(scan, policy, seq![entry]) == seq![
            scan.item(entry),
        ],
        is_hidden(policy, entry, scan.root) ==> listed_items(scan, policy, seq![entry])
            == Seq::<PathItemView>::empty(),
    decreases others.len(),
{
    assert(seq![entry].drop_last() =~= Seq::empty());
    assert(listed_items(scan, policy, seq![entry].drop_last()) =~= Seq::empty());
    assert(!is_hidden(policy, entry, scan.root) ==> listed_items(scan, policy, seq![entry])
        =~= seq![scan.item(entry)]);
    if others.len() == 0 {
        assert(first + others =~= first);
        assert(listed_items(scan, policy, first) + listed_items(scan, policy, others)
            =~= listed_items(scan, policy, first));
    } else {
        law_listings_follow_the_entries(scan, policy, first, others.drop_last(), entry);
        assert((first + others).drop_last() =~= first + others.drop_last());
        assert(listed_items(scan, policy, first + others) =~= listed_items(scan, policy, first)
            + listed_items(scan, policy, others));
    }
}

/// An entry can be taken while the work goes on and its name is text, unless it is one
/// that is to be shown and cannot be listed; what stands in the way is told.
pub proof fn law_entries_are_taken(
    policy: PathPolicy,
    options: OptionsView,
    scan: ScanView,
    entry: EntryView,
    activity: Activity,
)
    requires
        !activity.stopping,
        !activity.expired,
        valid_utf8(entry.file_name),
    ensures
        entry_failure(policy, options, entry, activity) is None <==> (!is_found(
            policy,
            options,
            entry,
        ) || entries::listed(entry, options.base, options.root) is Ok),
        scan.entry_failure(policy, entry, activity) is None <==> (is_hidden(
            policy,
            entry,
            scan.root,
        ) || entries::listed(entry, scan.path, scan.root) is Ok),
{
}

/// Work that is told to end takes no entry, and neither does any where the name of an
/// entry is no text.
pub proof fn law_stopped_work_takes_nothing(
    policy: PathPolicy,
    options: OptionsView,
    scan: ScanView,
    entry: EntryView,
    activity: Activity,
)
    requires
        activity.stopping || activity.expired || !valid_utf8(entry.file_name),
    ensures
        entry_failure(policy, options, entry, activity) matches Some(error) && error.problem == (
        if activity.stopping {
            ListingProblem::ServerStopping
        } else if activity.expired {
            ListingProblem::DirectoryOperationTimeout
        } else {
            ListingProblem::UnsupportedFilename
        }),
        scan.entry_failure(policy, entry, activity) matches Some(error) && error.problem == (
        if activity.stopping {
            ListingProblem::ServerStopping
        } else if activity.expired {
            ListingProblem::DirectoryOperationTimeout
        } else {
            ListingProblem::UnsupportedFilename
        }),
{
}

/// A directory counts as unchanged exactly where it is still one and has the snapshot
/// that it had.
pub proof fn law_unchanged_directories(
    metadata: Result<EntryMetadata, IoFailure>,
    directory: VisitedView,
    operation: Seq<char>,
    root: Seq<Seq<u8>>,
)
    ensures
        change_failure(metadata, directory, operation, root) is None <==> (
        metadata matches Ok(found) && found.is_directory && found.snapshot == directory.snapshot),
        metadata matches Ok(found) ==> (!found.is_directory || found.snapshot
            != directory.snapshot) ==> (change_failure(
            metadata,
            directory,
            operation,
            root,
        ) matches Some(error) && error.problem == ListingProblem::DirectoryChanged),
{
}

/// A search starts at a directory, and at nothing else.
pub proof fn law_searches_start_at_directories(
    options: OptionsView,
    metadata: Result<EntryMetadata, IoFailure>,
)
    ensures
        start_failure(options, metadata) is None <==> (metadata matches Ok(found)
            && found.is_directory),
{
}

/// What is added to a collection fits its budget, and what does not fit is refused for
/// that reason unless there was no memory to be had.
pub proof fn law_additions_fit_the_budget(
    room: Result<(), BoundedReserveError>,
    capacity: usize,
    heap_bytes: usize,
    max_bytes: usize,
)
    ensures
        addition(room, capacity, heap_bytes, max_bytes) is Ok <==> room is Ok
            && budget::collection_bytes(
            capacity as int,
            layout::size_of::<PathItem>() as int,
            heap_bytes as int,
        ) <= max_bytes,
        room matches Err(error) ==> addition(room, capacity, heap_bytes, max_bytes) == Err::<
            (),
            BoundedReserveError,
        >(error),
        room is Ok && addition(room, capacity, heap_bytes, max_bytes) is Err ==> addition(
            room,
            capacity,
            heap_bytes,
            max_bytes,
        ) == Err::<(), BoundedReserveError>(BoundedReserveError::Budget),
{
}

/// A search whose read has failed keeps its place in a directory that failed, leaves one
/// that was read to its end, and goes on later in one that was not. What it has found
/// stays.
pub proof fn law_failed_visits_keep_what_was_found(
    search: SearchView,
    failure: IoFailure,
    cursor: i64,
)
    ensures
        search.after_failed_visit(Err(failure)).state == search.state,
        search.after_failed_visit(Err(failure)).child == search.child,
        search.after_failed_visit(Ok(DirectoryVisitProgress::Complete)).state
            == search.state.left(),
        search.after_failed_visit(Ok(DirectoryVisitProgress::Complete)).child is None,
        search.after_failed_visit(Ok(DirectoryVisitProgress::Paused(cursor))).state
            == search.state.paused_at(cursor),
        search.after_failed_visit(Ok(DirectoryVisitProgress::Paused(cursor))).child is None,
        !search.after_failed_visit(Err(failure)).admitted,
        !search.after_failed_visit(Ok(DirectoryVisitProgress::Complete)).admitted,
        !search.after_failed_visit(Ok(DirectoryVisitProgress::Paused(cursor))).admitted,
{
}

/// A sort that there is no room for is told as one over its limit, at the path that was
/// listed.
pub proof fn law_sorts_over_budget_are_told(
    operation: Seq<char>,
    path: Seq<Seq<u8>>,
    root: Seq<Seq<u8>>,
)
    ensures
        sort_budget_failure(operation, path, root).operation == operation,
        sort_budget_failure(operation, path, root).relative_path == problems::shown_path(
            path,
            root,
        ),
        sort_budget_failure(operation, path, root).reason == "sort_memory_budget"@,
        sort_budget_failure(operation, path, root).problem == ListingProblem::DirectorySortLimit,
{
}

} // verus!
