//! The walk of a search through a directory tree.
//!
//! The walk itself touches no file. Its caller asks what to do next, looks at the
//! filesystem, and hands back what it saw.
use crate::listing::budget;
use crate::listing::budget::{
    saturating_product, try_reserve_bounded_vec_slot, vec_capacity, BoundedReserveError,
};
use crate::listing::entries::DirectorySnapshot;
use crate::listing::problems::{ListingError, ListingErrorView, ListingProblem};
use crate::paths::LexicalPath;
use std::collections::HashSet;
use vstd::layout;
use vstd::prelude::*;
use vstd::string::*;
use vstd::utf8::*;

verus! {

broadcast use vstd::std_specs::hash::group_hash_axioms;

/// Whether work goes on.
#[derive(Clone, Copy, Debug, Eq, PartialEq, Structural)]
pub struct Activity {
    /// The server stops, or nobody waits for the result any more.
    pub stopping: bool,
    /// The time for the work is up.
    pub expired: bool,
}

pub open spec fn activity_failure(
    activity: Activity,
    cancelled: Seq<char>,
    expired: Seq<char>,
    path: Seq<Seq<u8>>,
    root: Seq<Seq<u8>>,
) -> Option<ListingErrorView> {
    if activity.stopping {
        Some(ListingErrorView::cancelled(cancelled, path, root))
    } else if activity.expired {
        Some(ListingErrorView::timeout(expired, path, root))
    } else {
        None
    }
}

/// Fails where work does not go on.
pub fn check_activity(
    activity: Activity,
    cancelled: &'static str,
    expired: &'static str,
    path: &LexicalPath,
    root: &LexicalPath,
) -> (result: Result<(), ListingError>)
    ensures
        match result {
            Ok(_) => activity_failure(activity, cancelled@, expired@, path@, root@) is None,
            Err(error) => activity_failure(activity, cancelled@, expired@, path@, root@) == Some(
                error@,
            ),
        },
{
    if activity.stopping {
        return Err(ListingError::cancelled(cancelled, path, root));
    }
    if activity.expired {
        return Err(ListingError::timeout(expired, path, root));
    }
    Ok(())
}

/// A limit of the memory that results take, and what is said where it is met.
#[derive(Clone, Copy)]
pub struct CollectionByteBudget {
    pub max_bytes: usize,
    pub operation: &'static str,
    pub reason: &'static str,
    pub problem: ListingProblem,
    pub allocation_problem: ListingProblem,
}

/// A directory that is being read.
pub struct DirectoryWalkFrame {
    pub path: LexicalPath,
    pub cursor: i64,
    pub snapshot: DirectorySnapshot,
    pub depth: usize,
}

pub struct FrameView {
    pub path: Seq<Seq<u8>>,
    pub cursor: i64,
    pub snapshot: DirectorySnapshot,
    pub depth: usize,
}

impl DirectoryWalkFrame {
    pub open spec fn view(self) -> FrameView {
        FrameView {
            path: self.path@,
            cursor: self.cursor,
            snapshot: self.snapshot,
            depth: self.depth,
        }
    }
}

/// A directory that was read to its end.
pub struct VisitedDirectory {
    pub path: LexicalPath,
    pub snapshot: DirectorySnapshot,
}

pub struct VisitedView {
    pub path: Seq<Seq<u8>>,
    pub snapshot: DirectorySnapshot,
}

impl VisitedDirectory {
    pub open spec fn view(self) -> VisitedView {
        VisitedView { path: self.path@, snapshot: self.snapshot }
    }
}

pub open spec fn frame_list(frames: Seq<DirectoryWalkFrame>) -> Seq<FrameView> {
    Seq::new(frames.len(), |i: int| frames[i]@)
}

pub open spec fn visited_list(visited: Seq<VisitedDirectory>) -> Seq<VisitedView> {
    Seq::new(visited.len(), |i: int| visited[i]@)
}

pub open spec fn identity_of(snapshot: DirectorySnapshot) -> (u64, u64) {
    (snapshot.device, snapshot.inode)
}

/// An identity as one number.
spec fn number_of(identity: (u64, u64)) -> u128 {
    (identity.0 * 18446744073709551616 + identity.1) as u128
}

proof fn lemma_numbers_differ(left: (u64, u64), right: (u64, u64))
    ensures
        number_of(left) == number_of(right) <==> left == right,
{
}

fn identity_number(snapshot: DirectorySnapshot) -> (number: u128)
    ensures
        number == number_of(identity_of(snapshot)),
{
    snapshot.device as u128 * 18446744073709551616 + snapshot.inode as u128
}

/// `HashSet::capacity`: how many elements fit without another allocation, which is no
/// fewer than there are. How many more is up to the allocator.
#[verifier::external_body]
fn hash_set_capacity(values: &HashSet<u128>) -> (capacity: usize)
    ensures
        capacity >= values@.len(),
{
    values.capacity()
}

/// `HashSet::try_reserve` asks for room for more elements. Whether the allocator has it
/// is open; the elements stay as they are.
#[verifier::external_body]
fn try_reserve_hash_set(values: &mut HashSet<u128>, additional: usize) -> (reserved: bool)
    ensures
        final(values)@ == old(values)@,
{
    values.try_reserve(additional).is_ok()
}

/// The directories of a walk: those on the way to where it is, and those that
/// were read to their end.
pub struct DirectoryWalkState {
    stack: Vec<DirectoryWalkFrame>,
    visited: Vec<VisitedDirectory>,
    active: HashSet<u128>,
    path_heap_bytes: usize,
}

#[verifier::ext_equal]
pub struct WalkStateView {
    pub stack: Seq<FrameView>,
    pub visited: Seq<VisitedView>,
    /// The identities of the directories on the way.
    pub active: Set<(u64, u64)>,
    pub path_heap_bytes: usize,
}

impl WalkStateView {
    /// A walk that has entered no directory.
    pub open spec fn empty() -> WalkStateView {
        WalkStateView {
            stack: Seq::empty(),
            visited: Seq::empty(),
            active: Set::empty(),
            path_heap_bytes: 0,
        }
    }

    /// A directory on the way has this identity.
    pub open spec fn leads_through(self, identity: (u64, u64)) -> bool {
        exists|i: int|
            0 <= i < self.stack.len() && identity_of(#[trigger] self.stack[i].snapshot) == identity
    }

    /// The identities are those of the directories on the way, and none is met twice.
    pub open spec fn knows_the_way(self) -> bool {
        &&& forall|identity: (u64, u64)| #[trigger]
            self.active.contains(identity) <==> self.leads_through(identity)
        &&& forall|i: int, j: int|
            0 <= i < j < self.stack.len() ==> identity_of(#[trigger] self.stack[i].snapshot)
                != identity_of(#[trigger] self.stack[j].snapshot)
    }

    /// A directory is on the way to where the walk is.
    pub open spec fn is_active(self, snapshot: DirectorySnapshot) -> bool {
        self.active.contains(identity_of(snapshot))
    }

    pub open spec fn pushed(
        self,
        path: Seq<Seq<u8>>,
        snapshot: DirectorySnapshot,
        depth: usize,
        path_bytes: usize,
    ) -> WalkStateView {
        WalkStateView {
            stack: self.stack.push(FrameView { path, cursor: 0, snapshot, depth }),
            active: self.active.insert(identity_of(snapshot)),
            path_heap_bytes: budget::capped(self.path_heap_bytes + path_bytes),
            ..self
        }
    }

    /// The walk once it is remembered how far the current directory was read.
    pub open spec fn paused_at(self, cursor: i64) -> WalkStateView {
        WalkStateView {
            stack: self.stack.update(
                self.stack.len() - 1,
                FrameView { cursor, ..self.stack.last() },
            ),
            ..self
        }
    }

    /// The walk once it has left a directory that it could not remember.
    pub open spec fn left(self) -> WalkStateView {
        WalkStateView { visited: self.visited, ..self.finished() }
    }

    pub open spec fn finished(self) -> WalkStateView {
        let last = self.stack.last();
        WalkStateView {
            stack: self.stack.drop_last(),
            active: self.active.remove(identity_of(last.snapshot)),
            visited: self.visited.push(
                VisitedView { path: last.path, snapshot: last.snapshot },
            ),
            ..self
        }
    }

    /// What the walk takes at least.
    pub open spec fn least_bytes(self, more_frames: int, more_visited: int, more_bytes: int) -> int {
        walk_bytes(
            self.stack.len() + more_frames,
            self.visited.len() + more_visited,
            self.stack.len() + more_frames,
            self.path_heap_bytes + more_bytes,
        )
    }
}

/// What the state of a walk takes, given the room that its lists have.
pub open spec fn walk_bytes(stack: int, visited: int, active: int, path_bytes: int) -> int {
    layout::size_of::<DirectoryWalkState>() + stack * layout::size_of::<DirectoryWalkFrame>()
        + visited * layout::size_of::<VisitedDirectory>() + active * (layout::size_of::<(u64, u64)>()
        + layout::size_of::<usize>()) + path_bytes
}

/// What is set aside for a walk before it starts.
pub open spec fn start_bytes(max_depth: int) -> int {
    layout::size_of::<DirectoryWalkState>() + (max_depth + 1) * 4 * (layout::size_of::<(u64, u64)>()
        + layout::size_of::<usize>())
}

proof fn lemma_products(count: int, size: int, bound: int)
    requires
        count >= 0,
        size >= 0,
    ensures
        count * size >= 0,
        count == 0 ==> count * size == 0,
        count > 0 && size >= bound ==> count * size >= bound,
        count > 0 && size > bound ==> count * size > bound,
{
    assert(count * size >= 0 && (count == 0 ==> count * size == 0) && (count > 0 && size >= bound
        ==> count * size >= bound) && (count > 0 && size > bound ==> count * size > bound))
        by (nonlinear_arith)
        requires
            count >= 0,
            size >= 0,
    ;
}

/// Computes what the state of a walk takes.
pub fn walk_memory(stack: usize, visited: usize, active: usize, path_bytes: usize) -> (bytes: usize)
    ensures
        bytes == budget::capped(
            walk_bytes(stack as int, visited as int, active as int, path_bytes as int),
        ),
        bytes >= layout::size_of::<DirectoryWalkState>(),
{
    let frame_size = core::mem::size_of::<DirectoryWalkFrame>();
    let visited_size = core::mem::size_of::<VisitedDirectory>();
    let active_size = core::mem::size_of::<(u64, u64)>().saturating_add(
        core::mem::size_of::<usize>(),
    );
    proof {
        let sum = layout::size_of::<(u64, u64)>() + layout::size_of::<usize>();
        lemma_products(stack as int, frame_size as int, usize::MAX as int);
        lemma_products(visited as int, visited_size as int, usize::MAX as int);
        lemma_products(active as int, sum as int, usize::MAX as int);
        lemma_products(active as int, active_size as int, usize::MAX as int);
    }
    core::mem::size_of::<DirectoryWalkState>().saturating_add(
        saturating_product(stack, frame_size),
    ).saturating_add(saturating_product(visited, visited_size)).saturating_add(
        saturating_product(active, active_size),
    ).saturating_add(path_bytes)
}

pub open spec fn memory_failure(path: Seq<Seq<u8>>, root: Seq<Seq<u8>>) -> ListingErrorView {
    ListingErrorView::at(
        "walk_memory"@,
        path,
        root,
        "working_memory_budget"@,
        ListingProblem::DirectoryMemoryLimit,
    )
}

pub open spec fn allocation_failure(path: Seq<Seq<u8>>, root: Seq<Seq<u8>>) -> ListingErrorView {
    ListingErrorView::at(
        "walk_memory"@,
        path,
        root,
        "working_allocation_failed"@,
        ListingProblem::DirectoryMemoryLimit,
    )
}

pub fn walk_allocation_error(path: &LexicalPath, root: &LexicalPath) -> (error: ListingError)
    ensures
        error@ == allocation_failure(path@, root@),
{
    ListingError::limit(
        "walk_memory",
        path,
        root,
        "working_allocation_failed",
        ListingProblem::DirectoryMemoryLimit,
    )
}

pub fn walk_working_memory_error(path: &LexicalPath, root: &LexicalPath) -> (error: ListingError)
    ensures
        error@ == memory_failure(path@, root@),
{
    ListingError::limit(
        "walk_memory",
        path,
        root,
        "working_memory_budget",
        ListingProblem::DirectoryMemoryLimit,
    )
}

/// Why a walk cannot go on, by what asking for room has come to and what the walk
/// takes then.
pub open spec fn room_failure(
    room: Result<(), BoundedReserveError>,
    bytes: usize,
    max_working_bytes: usize,
    path: Seq<Seq<u8>>,
    root: Seq<Seq<u8>>,
) -> Option<ListingErrorView> {
    match room {
        Err(BoundedReserveError::Budget) => Some(memory_failure(path, root)),
        Err(BoundedReserveError::Allocation) => Some(allocation_failure(path, root)),
        Ok(_) => if bytes > max_working_bytes {
            Some(memory_failure(path, root))
        } else {
            None
        },
    }
}

/// Judges whether a walk can go on.
pub fn judge_room(
    room: Result<(), BoundedReserveError>,
    bytes: usize,
    max_working_bytes: usize,
    path: &LexicalPath,
    root: &LexicalPath,
) -> (result: Result<(), ListingError>)
    ensures
        match result {
            Ok(_) => room_failure(room, bytes, max_working_bytes, path@, root@) is None,
            Err(error) => room_failure(room, bytes, max_working_bytes, path@, root@) == Some(
                error@,
            ),
        },
{
    match room {
        Err(BoundedReserveError::Budget) => Err(walk_working_memory_error(path, root)),
        Err(BoundedReserveError::Allocation) => Err(walk_allocation_error(path, root)),
        Ok(()) => {
            if bytes > max_working_bytes {
                return Err(walk_working_memory_error(path, root));
            }
            Ok(())
        },
    }
}

/// Why a directory cannot be entered, whatever the allocator does.
pub open spec fn push_failure(
    state: WalkStateView,
    path: Seq<Seq<u8>>,
    snapshot: DirectorySnapshot,
    depth: usize,
    limits: (usize, usize),
    path_bytes: usize,
    root: Seq<Seq<u8>>,
) -> Option<ListingErrorView> {
    if depth > limits.0 {
        Some(
            ListingErrorView::at(
                "walk_depth"@,
                path,
                root,
                "depth_budget"@,
                ListingProblem::DirectoryDepthLimit,
            ),
        )
    } else if state.is_active(snapshot) {
        Some(ListingErrorView::symlink_loop("walk_loop"@, path, root))
    } else if budget::capped(state.least_bytes(1, 0, path_bytes as int)) > limits.1 {
        Some(memory_failure(path, root))
    } else {
        None
    }
}

impl DirectoryWalkState {
    pub closed spec fn view(self) -> WalkStateView {
        WalkStateView {
            stack: frame_list(self.stack@),
            visited: visited_list(self.visited@),
            active: Set::new(|identity: (u64, u64)| self.active@.contains(number_of(identity))),
            path_heap_bytes: self.path_heap_bytes,
        }
    }

    /// The identities are those of the directories on the way, and none is met twice.
    pub closed spec fn is_valid(self) -> bool {
        &&& self@.knows_the_way()
        &&& self.active@.finite()
        &&& self.active@.len() == self.stack@.len()
    }

    /// The start of a walk. Whether the allocator has room for the directories on
    /// the way is open.
    pub fn new(max_depth: usize, max_working_bytes: usize, path: &LexicalPath, root: &LexicalPath) -> (
        result: Result<DirectoryWalkState, ListingError>)
        ensures
            result matches Ok(state) ==> state.is_valid() && state@ == WalkStateView::empty(),
            result matches Err(error) ==> error@ == memory_failure(path@, root@)
                && max_working_bytes < usize::MAX || error@ == allocation_failure(path@, root@),
            budget::capped(start_bytes(max_depth as int)) > max_working_bytes ==> (
            result matches Err(error) && error@ == memory_failure(path@, root@)),
    {
        let active_entries = max_depth.saturating_add(1);
        let entry_bytes = core::mem::size_of::<(u64, u64)>().saturating_add(
            core::mem::size_of::<usize>(),
        );
        let slots = saturating_product(active_entries, 4);
        let conservative = saturating_product(slots, entry_bytes);
        let total = core::mem::size_of::<DirectoryWalkState>().saturating_add(conservative);
        proof {
            let sum = layout::size_of::<(u64, u64)>() + layout::size_of::<usize>();
            let wanted = (max_depth + 1) * 4 * sum;
            broadcast use layout::layout_of_primitives;

            if wanted > conservative {
                assert(conservative == usize::MAX) by (nonlinear_arith)
                    requires
                        wanted == (max_depth + 1) * 4 * sum,
                        wanted > conservative,
                        sum > 0,
                        sum > usize::MAX ==> entry_bytes == usize::MAX,
                        sum <= usize::MAX ==> entry_bytes == sum,
                        (max_depth + 1) * 4 > usize::MAX ==> slots == usize::MAX,
                        (max_depth + 1) * 4 <= usize::MAX ==> slots == (max_depth + 1) * 4,
                        slots * entry_bytes > usize::MAX ==> conservative == usize::MAX,
                        slots * entry_bytes <= usize::MAX ==> conservative == slots * entry_bytes,
                        max_depth >= 0,
                ;
            }
        }
        if total > max_working_bytes {
            return Err(walk_working_memory_error(path, root));
        }
        let mut active: HashSet<u128> = HashSet::new();
        let room: Result<(), BoundedReserveError> = if try_reserve_hash_set(
            &mut active,
            active_entries,
        ) {
            Ok(())
        } else {
            Err(BoundedReserveError::Allocation)
        };
        let state = DirectoryWalkState {
            stack: Vec::new(),
            visited: Vec::new(),
            active,
            path_heap_bytes: 0,
        };
        if let Err(error) = judge_room(
            room,
            state.working_bytes(0),
            max_working_bytes,
            path,
            root,
        ) {
            return Err(error);
        }
        assert(state@ =~= WalkStateView::empty());
        Ok(state)
    }

    /// What the walk takes, with the room that the allocator gave to its lists.
    fn working_bytes(&self, additional_path_bytes: usize) -> (bytes: usize)
        ensures
            bytes >= layout::size_of::<DirectoryWalkState>(),
    {
        walk_memory(
            vec_capacity(&self.stack),
            vec_capacity(&self.visited),
            hash_set_capacity(&self.active),
            self.path_heap_bytes.saturating_add(additional_path_bytes),
        )
    }

    /// Enters a directory. Whether the allocator has room for it is open.
    pub fn push_directory(
        &mut self,
        path: LexicalPath,
        snapshot: DirectorySnapshot,
        depth: usize,
        limits: (usize, usize),
        path_bytes: usize,
        root: &LexicalPath,
    ) -> (result: Result<(), ListingError>)
        requires
            old(self).is_valid(),
        ensures
            result is Ok ==> {
                &&& push_failure(
                    old(self)@,
                    path@,
                    snapshot,
                    depth,
                    limits,
                    path_bytes,
                    root@,
                ) is None
                &&& final(self).is_valid()
                &&& final(self)@ == old(self)@.pushed(path@, snapshot, depth, path_bytes)
            },
            result matches Err(error) ==> {
                &&& final(self).is_valid()
                &&& final(self)@ == old(self)@
                &&& match push_failure(
                    old(self)@,
                    path@,
                    snapshot,
                    depth,
                    limits,
                    path_bytes,
                    root@,
                ) {
                    Some(failure) => error@ == failure,
                    None => error@ == memory_failure(path@, root@) || error@ == allocation_failure(
                        path@,
                        root@,
                    ),
                }
            },
    {
        let (max_depth, max_working_bytes) = limits;
        if depth > max_depth {
            return Err(
                ListingError::limit(
                    "walk_depth",
                    &path,
                    root,
                    "depth_budget",
                    ListingProblem::DirectoryDepthLimit,
                ),
            );
        }
        if self.meets(snapshot) {
            return Err(ListingError::symlink_loop("walk_loop", &path, root));
        }
        let frames: usize = self.stack.len().saturating_add(1);
        let active: usize = self.active.len().saturating_add(1);
        let paths: usize = self.path_heap_bytes.saturating_add(path_bytes);
        let minimum = walk_memory(frames, self.visited.len(), active, paths);
        proof {
            let view = self@;
            lemma_capped_walk_bytes(
                (view.stack.len() + 1) as int,
                view.visited.len() as int,
                (view.stack.len() + 1) as int,
                view.path_heap_bytes + path_bytes,
            );
        }
        if minimum > max_working_bytes {
            return Err(walk_working_memory_error(&path, root));
        }
        let stack_allocation = saturating_product(
            vec_capacity(&self.stack),
            core::mem::size_of::<DirectoryWalkFrame>(),
        );
        let others = self.working_bytes(path_bytes).saturating_sub(stack_allocation);
        let ghost before = *self;
        let room = try_reserve_bounded_vec_slot(&mut self.stack, others, max_working_bytes);
        assert(self@ =~= before@);
        if let Err(error) = judge_room(
            room,
            self.working_bytes(path_bytes),
            max_working_bytes,
            &path,
            root,
        ) {
            return Err(error);
        }
        self.path_heap_bytes = self.path_heap_bytes.saturating_add(path_bytes);
        let number = identity_number(snapshot);
        self.active.insert(number);
        self.stack.push(DirectoryWalkFrame { path, cursor: 0, snapshot, depth });
        proof {
            let after = before@.pushed(path@, snapshot, depth, path_bytes);
            lemma_numbers_follow(before.active@, self.active@, identity_of(snapshot));
            assert(self@.stack =~= after.stack);
            assert(self@.active =~= after.active);
            lemma_pushing_keeps_the_way(before@, path@, snapshot, depth, path_bytes);
        }
        Ok(())
    }

    /// Whether a directory is on the way to where the walk is.
    fn meets(&self, snapshot: DirectorySnapshot) -> (met: bool)
        ensures
            met == self@.is_active(snapshot),
    {
        self.active.contains(&identity_number(snapshot))
    }

    /// Leaves the directory that was read to its end. Whether the allocator has
    /// room to remember it is open.
    pub fn finish_current(&mut self, max_working_bytes: usize, root: &LexicalPath) -> (result: Result<
        (),
        ListingError,
    >)
        requires
            old(self).is_valid(),
            old(self)@.stack.len() > 0,
        ensures
            final(self).is_valid(),
            final(self)@.stack == old(self)@.stack.drop_last(),
            final(self)@.active == old(self)@.active.remove(
                identity_of(old(self)@.stack.last().snapshot),
            ),
            result is Ok ==> final(self)@ == old(self)@.finished(),
            result is Err ==> final(self)@ == old(self)@.left(),
            result matches Err(error) ==> error@ == memory_failure(
                old(self)@.stack.last().path,
                root@,
            ) || error@ == allocation_failure(old(self)@.stack.last().path, root@),
            budget::capped(old(self)@.least_bytes(-1, 1, 0)) > max_working_bytes ==> (
            result matches Err(error) && error@ == memory_failure(
                old(self)@.stack.last().path,
                root@,
            )),
    {
        let ghost before = *self;
        let frame = match self.stack.pop() {
            Some(frame) => frame,
            None => return Ok(()),
        };
        assert(frame@ == before@.stack.last());
        let number = identity_number(frame.snapshot);
        self.active.remove(&number);
        proof {
            lemma_numbers_follow(before.active@, self.active@, identity_of(frame.snapshot));
            lemma_finishing_keeps_the_way(before@);
            assert(self@.stack =~= before@.stack.drop_last());
            assert(self@.active =~= before@.finished().active);
            assert(before@.leads_through(identity_of(frame.snapshot))) by {
                let last = before@.stack.len() - 1;
                assert(identity_of(before@.stack[last].snapshot) == identity_of(frame.snapshot));
            }
            assert(before@.active.contains(identity_of(frame.snapshot)));
        }
        let visited: usize = self.visited.len().saturating_add(1);
        let minimum = walk_memory(
            self.stack.len(),
            visited,
            self.active.len(),
            self.path_heap_bytes,
        );
        proof {
            lemma_capped_walk_bytes(
                before@.stack.len() - 1,
                (before@.visited.len() + 1) as int,
                before@.stack.len() - 1,
                before@.path_heap_bytes as int,
            );
        }
        if minimum > max_working_bytes {
            return Err(walk_working_memory_error(&frame.path, root));
        }
        let visited_allocation = saturating_product(
            vec_capacity(&self.visited),
            core::mem::size_of::<VisitedDirectory>(),
        );
        let others = self.working_bytes(0).saturating_sub(visited_allocation);
        let room = try_reserve_bounded_vec_slot(&mut self.visited, others, max_working_bytes);
        assert(self@.stack =~= before@.stack.drop_last());
        if let Err(error) = judge_room(
            room,
            self.working_bytes(0),
            max_working_bytes,
            &frame.path,
            root,
        ) {
            return Err(error);
        }
        self.visited.push(VisitedDirectory { path: frame.path, snapshot: frame.snapshot });
        assert(self@.stack =~= before@.stack.drop_last());
        assert(self@.visited =~= before@.finished().visited);
        Ok(())
    }

    /// The directory that is being read, if any is.
    pub fn current(&self) -> (frame: Option<&DirectoryWalkFrame>)
        ensures
            frame is Some <==> self@.stack.len() > 0,
            frame matches Some(frame) ==> frame@ == self@.stack.last(),
    {
        if self.stack.len() == 0 {
            None
        } else {
            Some(&self.stack[self.stack.len() - 1])
        }
    }

    /// How deep the walk is: the depth of a directory that is entered next.
    pub fn depth(&self) -> (depth: usize)
        ensures
            depth == self@.stack.len(),
    {
        self.stack.len()
    }

    /// How many directories were read to their end.
    pub fn visited_count(&self) -> (count: usize)
        ensures
            count == self@.visited.len(),
    {
        self.visited.len()
    }

    /// A directory that was read to its end.
    pub fn visited(&self, index: usize) -> (directory: Option<&VisitedDirectory>)
        ensures
            directory is Some <==> index < self@.visited.len(),
            directory matches Some(directory) ==> directory@ == self@.visited[index as int],
    {
        if index < self.visited.len() {
            Some(&self.visited[index])
        } else {
            None
        }
    }

    /// Remembers how far the current directory was read.
    pub fn set_cursor(&mut self, cursor: i64)
        requires
            old(self).is_valid(),
            old(self)@.stack.len() > 0,
        ensures
            final(self).is_valid(),
            final(self)@ == old(self)@.paused_at(cursor),
    {
        let ghost before = *self;
        if let Some(frame) = self.stack.pop() {
            self.stack.push(
                DirectoryWalkFrame {
                    path: frame.path,
                    cursor,
                    snapshot: frame.snapshot,
                    depth: frame.depth,
                },
            );
        }
        assert(self@.stack =~= before@.stack.update(
            before@.stack.len() - 1,
            FrameView { cursor, ..before@.stack.last() },
        ));
        proof {
            lemma_cursors_keep_the_way(before@, self@);
        }
    }
}

/// How the numbers of identities follow the identities.
proof fn lemma_numbers_follow(before: Set<u128>, after: Set<u128>, identity: (u64, u64))
    ensures
        ({
            let identities = |numbers: Set<u128>|
                Set::new(|other: (u64, u64)| numbers.contains(number_of(other)));
            &&& after == before.insert(number_of(identity)) ==> identities(after) == identities(
                before,
            ).insert(identity)
            &&& after == before.remove(number_of(identity)) ==> identities(after) == identities(
                before,
            ).remove(identity)
        }),
{
    let identities = |numbers: Set<u128>|
        Set::new(|other: (u64, u64)| numbers.contains(number_of(other)));
    assert forall|other: (u64, u64)| #[trigger] number_of(other) == number_of(identity)
        <==> other == identity by {
        lemma_numbers_differ(other, identity);
    }
    if after == before.insert(number_of(identity)) {
        assert(identities(after) =~= identities(before).insert(identity));
    }
    if after == before.remove(number_of(identity)) {
        assert(identities(after) =~= identities(before).remove(identity));
    }
}

proof fn lemma_cursors_keep_the_way(before: WalkStateView, after: WalkStateView)
    requires
        before.knows_the_way(),
        after.active == before.active,
        after.stack.len() == before.stack.len(),
        forall|i: int|
            0 <= i < after.stack.len() ==> (#[trigger] after.stack[i]).snapshot
                == before.stack[i].snapshot,
    ensures
        after.knows_the_way(),
{
    assert forall|identity: (u64, u64)| #[trigger] after.active.contains(identity)
        <==> after.leads_through(identity) by {
        if before.leads_through(identity) {
            let i = choose|i: int|
                0 <= i < before.stack.len() && identity_of(#[trigger] before.stack[i].snapshot)
                    == identity;
            assert(identity_of(after.stack[i].snapshot) == identity);
        }
        if after.leads_through(identity) {
            let i = choose|i: int|
                0 <= i < after.stack.len() && identity_of(#[trigger] after.stack[i].snapshot)
                    == identity;
            assert(identity_of(before.stack[i].snapshot) == identity);
        }
        assert(before.active.contains(identity) <==> before.leads_through(identity));
    }
    assert forall|i: int, j: int| 0 <= i < j < after.stack.len() implies identity_of(
        #[trigger] after.stack[i].snapshot,
    ) != identity_of(#[trigger] after.stack[j].snapshot) by {
        assert(identity_of(before.stack[i].snapshot) != identity_of(before.stack[j].snapshot));
    }
}

proof fn lemma_pushing_keeps_the_way(
    before: WalkStateView,
    path: Seq<Seq<u8>>,
    snapshot: DirectorySnapshot,
    depth: usize,
    path_bytes: usize,
)
    requires
        before.knows_the_way(),
        !before.is_active(snapshot),
    ensures
        before.pushed(path, snapshot, depth, path_bytes).knows_the_way(),
{
    let after = before.pushed(path, snapshot, depth, path_bytes);
    let last = before.stack.len() as int;
    assert forall|identity: (u64, u64)| #[trigger] after.active.contains(identity)
        <==> after.leads_through(identity) by {
        if before.active.contains(identity) {
            assert(before.leads_through(identity));
            let i = choose|i: int|
                0 <= i < before.stack.len() && identity_of(#[trigger] before.stack[i].snapshot)
                    == identity;
            assert(identity_of(after.stack[i].snapshot) == identity);
        }
        if identity == identity_of(snapshot) {
            assert(identity_of(after.stack[last].snapshot) == identity);
        }
        if after.leads_through(identity) && identity != identity_of(snapshot) {
            let i = choose|i: int|
                0 <= i < after.stack.len() && identity_of(#[trigger] after.stack[i].snapshot)
                    == identity;
            assert(identity_of(before.stack[i].snapshot) == identity);
            assert(before.leads_through(identity));
        }
    }
    assert forall|i: int, j: int| 0 <= i < j < after.stack.len() implies identity_of(
        #[trigger] after.stack[i].snapshot,
    ) != identity_of(#[trigger] after.stack[j].snapshot) by {
        assert(after.stack[i] == before.stack[i]);
        if j == last {
            if identity_of(before.stack[i].snapshot) == identity_of(snapshot) {
                assert(before.leads_through(identity_of(snapshot)));
                assert(before.active.contains(identity_of(snapshot)));
            }
        } else {
            assert(after.stack[j] == before.stack[j]);
        }
    }
}

proof fn lemma_finishing_keeps_the_way(before: WalkStateView)
    requires
        before.knows_the_way(),
        before.stack.len() > 0,
    ensures
        before.finished().knows_the_way(),
{
    let after = before.finished();
    let last = before.stack.len() - 1;
    assert forall|identity: (u64, u64)| #[trigger] after.active.contains(identity)
        <==> after.leads_through(identity) by {
        if after.leads_through(identity) {
            let i = choose|i: int|
                0 <= i < after.stack.len() && identity_of(#[trigger] after.stack[i].snapshot)
                    == identity;
            assert(identity_of(before.stack[i].snapshot) == identity);
            assert(before.leads_through(identity));
            assert(before.active.contains(identity));
            assert(identity_of(before.stack[last].snapshot) != identity_of(
                before.stack[i].snapshot,
            ));
        }
        if after.active.contains(identity) {
            assert(before.active.contains(identity));
            let i = choose|i: int|
                0 <= i < before.stack.len() && identity_of(#[trigger] before.stack[i].snapshot)
                    == identity;
            assert(i != last);
            assert(identity_of(after.stack[i].snapshot) == identity);
        }
    }
    assert forall|i: int, j: int| 0 <= i < j < after.stack.len() implies identity_of(
        #[trigger] after.stack[i].snapshot,
    ) != identity_of(#[trigger] after.stack[j].snapshot) by {
        assert(identity_of(before.stack[i].snapshot) != identity_of(before.stack[j].snapshot));
    }
}

/// Entering a directory, which is never one on the way already, and leaving it again
/// leads back to where the walk was: the same directories are on the way. The directory has been read, the room that its
/// path takes stays counted, and what the walk takes at least is what leaving the
/// directory was held to.
pub proof fn law_leaving_undoes_entering(
    before: WalkStateView,
    path: Seq<Seq<u8>>,
    snapshot: DirectorySnapshot,
    depth: usize,
    path_bytes: usize,
)
    requires
        !before.is_active(snapshot),
    ensures
        ({
            let entered = before.pushed(path, snapshot, depth, path_bytes);
            let left = entered.finished();
            &&& left.stack == before.stack
            &&& left.active == before.active
            &&& left.visited == before.visited.push(VisitedView { path, snapshot })
            &&& left.path_heap_bytes == budget::capped(before.path_heap_bytes + path_bytes)
            &&& left.least_bytes(0, 0, 0) == entered.least_bytes(-1, 1, 0)
            &&& before.knows_the_way() ==> entered.knows_the_way() && left.knows_the_way()
        }),
{
    if before.knows_the_way() {
        lemma_pushing_keeps_the_way(before, path, snapshot, depth, path_bytes);
        lemma_finishing_keeps_the_way(before.pushed(path, snapshot, depth, path_bytes));
    }
    let entered = before.pushed(path, snapshot, depth, path_bytes);
    let left = entered.finished();
    assert(left.stack =~= before.stack);
    assert(left.active =~= before.active);
}

/// Counting with saturated numbers comes to the same as saturating at the end.
proof fn lemma_capped_walk_bytes(stack: int, visited: int, active: int, path_bytes: int)
    requires
        0 <= stack,
        0 <= visited,
        0 <= active,
        0 <= path_bytes,
    ensures
        budget::capped(
            walk_bytes(
                budget::capped(stack) as int,
                budget::capped(visited) as int,
                budget::capped(active) as int,
                budget::capped(path_bytes) as int,
            ),
        ) == budget::capped(walk_bytes(stack, visited, active, path_bytes)),
{
    let frame = layout::size_of::<DirectoryWalkFrame>() as int;
    let done = layout::size_of::<VisitedDirectory>() as int;
    let identity = (layout::size_of::<(u64, u64)>() + layout::size_of::<usize>()) as int;
    lemma_capped_product(stack, frame);
    lemma_capped_product(visited, done);
    lemma_capped_product(active, identity);
}

proof fn lemma_capped_product(count: int, size: int)
    requires
        0 <= count,
        0 <= size,
    ensures
        0 <= budget::capped(count) * size <= count * size,
        budget::capped(count) * size == count * size || budget::capped(count) * size >= usize::MAX,
{
    assert(0 <= budget::capped(count) * size <= count * size && (budget::capped(count) * size
        == count * size || budget::capped(count) * size >= usize::MAX)) by (nonlinear_arith)
        requires
            0 <= count,
            0 <= size,
            budget::capped(count) == count || (count > usize::MAX && budget::capped(count)
                == usize::MAX),
    ;
}

/// Work goes on while the server runs and there is time; a server that stops ends it
/// before the time does.
pub proof fn law_work_goes_on(
    activity: Activity,
    cancelled: Seq<char>,
    expired: Seq<char>,
    path: Seq<Seq<u8>>,
    root: Seq<Seq<u8>>,
)
    ensures
        activity_failure(activity, cancelled, expired, path, root) is None <==> !activity.stopping
            && !activity.expired,
        activity.stopping ==> (activity_failure(
            activity,
            cancelled,
            expired,
            path,
            root,
        ) matches Some(error) && error.problem == ListingProblem::ServerStopping && error.operation
            == cancelled),
        !activity.stopping && activity.expired ==> (activity_failure(
            activity,
            cancelled,
            expired,
            path,
            root,
        ) matches Some(error) && error.problem == ListingProblem::DirectoryOperationTimeout
            && error.operation == expired),
{
}

/// A directory is entered where it is not too deep, not one that the walk is in already,
/// and where the walk has memory left; and what keeps a walk out is told.
pub proof fn law_directories_are_entered(
    state: WalkStateView,
    path: Seq<Seq<u8>>,
    snapshot: DirectorySnapshot,
    depth: usize,
    limits: (usize, usize),
    path_bytes: usize,
    root: Seq<Seq<u8>>,
)
    requires
        state.knows_the_way(),
    ensures
        push_failure(state, path, snapshot, depth, limits, path_bytes, root) is None <==> depth
            <= limits.0 && !state.leads_through((snapshot.device, snapshot.inode))
            && budget::capped(state.least_bytes(1, 0, path_bytes as int)) <= limits.1,
        push_failure(
            state,
            path,
            snapshot,
            depth,
            limits,
            path_bytes,
            root,
        ) matches Some(error) ==> match error.problem {
            ListingProblem::DirectoryDepthLimit => depth > limits.0,
            ListingProblem::DirectorySymlinkLoop => state.leads_through(
                (snapshot.device, snapshot.inode),
            ),
            ListingProblem::DirectoryMemoryLimit => budget::capped(
                state.least_bytes(1, 0, path_bytes as int),
            ) > limits.1,
            _ => false,
        },
{
    assert(state.active.contains(identity_of(snapshot)) <==> state.leads_through(
        identity_of(snapshot),
    ));
}

/// A directory that is entered is read from its start, and those on the way to it stay
/// as they are.
pub proof fn law_entered_directories_are_read_from_the_start(
    state: WalkStateView,
    path: Seq<Seq<u8>>,
    snapshot: DirectorySnapshot,
    depth: usize,
    path_bytes: usize,
    cursor: i64,
)
    ensures
        ({
            let entered = state.pushed(path, snapshot, depth, path_bytes);
            &&& entered.stack.len() == state.stack.len() + 1
            &&& entered.stack.drop_last() == state.stack
            &&& entered.stack.last() == (FrameView { path, cursor: 0, snapshot, depth })
            &&& entered.is_active(snapshot)
            &&& entered.visited == state.visited
            &&& entered.paused_at(cursor).stack.last() == (FrameView {
                path,
                cursor,
                snapshot,
                depth,
            })
            &&& entered.paused_at(cursor).stack.drop_last() == state.stack
            &&& entered.paused_at(cursor).active == entered.active
            &&& entered.finished().stack == state.stack
            &&& entered.finished().visited == state.visited.push(VisitedView { path, snapshot })
            &&& entered.left().stack == state.stack
            &&& entered.left().visited == state.visited
        }),
{
    let entered = state.pushed(path, snapshot, depth, path_bytes);
    assert(entered.stack.drop_last() =~= state.stack);
    assert(entered.paused_at(cursor).stack.drop_last() =~= state.stack);
}

/// Whatever keeps a walk from growing is a matter of its memory, and nothing else does.
pub proof fn law_walks_grow_within_their_memory(
    room: Result<(), BoundedReserveError>,
    bytes: usize,
    max_working_bytes: usize,
    path: Seq<Seq<u8>>,
    root: Seq<Seq<u8>>,
)
    ensures
        room_failure(room, bytes, max_working_bytes, path, root) is None <==> room is Ok && bytes
            <= max_working_bytes,
        room_failure(room, bytes, max_working_bytes, path, root) matches Some(error) ==> error
            == (if room == Err::<(), BoundedReserveError>(BoundedReserveError::Allocation) {
            allocation_failure(path, root)
        } else {
            memory_failure(path, root)
        }),
{
}

/// A walk starts with what its state takes and with room for four places of each
/// depth that it may reach.
pub proof fn law_walks_start_with_room_for_their_depth(max_depth: int)
    ensures
        start_bytes(-1) == layout::size_of::<DirectoryWalkState>(),
        start_bytes(max_depth + 1) - start_bytes(max_depth) == 4 * (layout::size_of::<(u64, u64)>()
            + layout::size_of::<usize>()),
{
    let room = layout::size_of::<(u64, u64)>() + layout::size_of::<usize>();
    assert((-1 + 1) * 4 * room == 0) by (nonlinear_arith);
    assert((max_depth + 2) * 4 * (layout::size_of::<(u64, u64)>() + layout::size_of::<usize>())
        == (max_depth + 1) * 4 * (layout::size_of::<(u64, u64)>() + layout::size_of::<usize>()) + 4
        * (layout::size_of::<(u64, u64)>() + layout::size_of::<usize>())) by (nonlinear_arith);
}

} // verus!
