//! Leases on paths: who may change what at the same time.
use crate::paths;
use crate::paths::LexicalPath;
use crate::text;
use std::collections::BTreeMap;
use vstd::prelude::*;
use vstd::std_specs::iter::IteratorSpec;

verus! {

broadcast use vstd::std_specs::btree::group_btree_axioms;

/// The device and inode of a file.
#[derive(Clone, Copy, Debug, Eq, PartialEq, Structural)]
pub struct FileIdentity {
    pub device: u64,
    pub inode: u64,
}

/// Where a path leads: the deepest existing directory on its way, the names
/// that are still unresolved there, the directories from the root down to that
/// one, and the directory that the whole path names, if it names one.
pub struct ResolvedPathKey {
    pub resolved_parent: FileIdentity,
    pub unresolved_tail: LexicalPath,
    pub ancestor_directories: Vec<FileIdentity>,
    pub target_directory: Option<FileIdentity>,
}

#[verifier::ext_equal]
pub struct ResolvedView {
    pub parent: FileIdentity,
    pub tail: Seq<Seq<u8>>,
    pub ancestors: Seq<FileIdentity>,
    pub target: Option<FileIdentity>,
}

impl ResolvedPathKey {
    pub open spec fn view(self) -> ResolvedView {
        ResolvedView {
            parent: self.resolved_parent,
            tail: self.unresolved_tail@,
            ancestors: self.ancestor_directories@,
            target: self.target_directory,
        }
    }

    pub fn copy(&self) -> (key: ResolvedPathKey)
        ensures
            key@ == self@,
    {
        let key = ResolvedPathKey {
            resolved_parent: self.resolved_parent,
            unresolved_tail: self.unresolved_tail.copy(),
            ancestor_directories: self.ancestor_directories.clone(),
            target_directory: self.target_directory,
        };
        assert(key@.ancestors =~= self@.ancestors);
        key
    }
}

/// A path with where it leads.
pub struct LeaseKey {
    pub lexical: LexicalPath,
    pub resolved: ResolvedPathKey,
}

#[verifier::ext_equal]
pub struct KeyView {
    pub lexical: Seq<Seq<u8>>,
    pub resolved: ResolvedView,
}

impl LeaseKey {
    pub open spec fn view(self) -> KeyView {
        KeyView { lexical: self.lexical@, resolved: self.resolved@ }
    }

    pub fn copy(&self) -> (key: LeaseKey)
        ensures
            key@ == self@,
    {
        LeaseKey { lexical: self.lexical.copy(), resolved: self.resolved.copy() }
    }
}

pub open spec fn key_list(keys: Seq<LeaseKey>) -> Seq<KeyView> {
    Seq::new(keys.len(), |i: int| keys[i]@)
}

/// One of two lists of names continues the other.
pub open spec fn on_one_line(left: Seq<Seq<u8>>, right: Seq<Seq<u8>>) -> bool {
    text::has_prefix(left, right) || text::has_prefix(right, left)
}

/// Both keys hang off the same directory, and the names of the second continue
/// those of the first.
pub open spec fn tail_is_prefix(left: ResolvedView, right: ResolvedView) -> bool {
    left.parent == right.parent && text::has_prefix(right.tail, left.tail)
}

/// The directory that the first key names is on the way of the second.
pub open spec fn names_an_ancestor(left: ResolvedView, right: ResolvedView) -> bool {
    left.target is Some && right.ancestors.contains(left.target->0)
}

/// The second key lies at or below the first.
pub open spec fn contains_resolved(ancestor: ResolvedView, descendant: ResolvedView) -> bool {
    tail_is_prefix(ancestor, descendant) || names_an_ancestor(ancestor, descendant)
}

/// Changing what one key names can change what the other one names.
pub open spec fn conflict(left: KeyView, right: KeyView) -> bool {
    ||| on_one_line(left.lexical, right.lexical)
    ||| contains_resolved(left.resolved, right.resolved)
    ||| contains_resolved(right.resolved, left.resolved)
}

pub open spec fn lists_conflict(left: Seq<KeyView>, right: Seq<KeyView>) -> bool {
    exists|i: int, j: int|
        0 <= i < left.len() && 0 <= j < right.len() && conflict(
            #[trigger] left[i],
            #[trigger] right[j],
        )
}

/// A conflict does not depend on who came first.
pub proof fn law_conflicts_are_symmetric(left: KeyView, right: KeyView)
    ensures
        conflict(left, right) == conflict(right, left),
{
}

/// A conflict of lists does not depend on who came first.
pub proof fn law_list_conflicts_are_symmetric(left: Seq<KeyView>, right: Seq<KeyView>)
    ensures
        lists_conflict(left, right) == lists_conflict(right, left),
{
    if lists_conflict(left, right) {
        let (i, j) = choose|i: int, j: int|
            0 <= i < left.len() && 0 <= j < right.len() && conflict(
                #[trigger] left[i],
                #[trigger] right[j],
            );
        assert(conflict(right[j], left[i]));
    }
    if lists_conflict(right, left) {
        let (i, j) = choose|i: int, j: int|
            0 <= i < right.len() && 0 <= j < left.len() && conflict(
                #[trigger] right[i],
                #[trigger] left[j],
            );
        assert(conflict(left[j], right[i]));
    }
}

/// Whether a path conflicts with itself: always, so that two requests for one
/// path exclude each other.
pub proof fn law_a_path_conflicts_with_itself(key: KeyView)
    ensures
        conflict(key, key),
{
    assert(key.lexical.subrange(0, key.lexical.len() as int) =~= key.lexical);
}

fn contains_identity(list: &Vec<FileIdentity>, wanted: FileIdentity) -> (found: bool)
    ensures
        found == list@.contains(wanted),
{
    let mut index: usize = 0;
    while index < list.len()
        invariant
            index <= list@.len(),
            forall|i: int| 0 <= i < index ==> list@[i] != wanted,
        decreases list@.len() - index,
    {
        if list[index] == wanted {
            return true;
        }
        index += 1;
    }
    false
}

fn anchored_tail_is_prefix(left: &ResolvedPathKey, right: &ResolvedPathKey) -> (result: bool)
    ensures
        result == tail_is_prefix(left@, right@),
{
    left.resolved_parent == right.resolved_parent && right.unresolved_tail.starts_with(
        &left.unresolved_tail,
    )
}

fn target_is_ancestor(left: &ResolvedPathKey, right: &ResolvedPathKey) -> (result: bool)
    ensures
        result == names_an_ancestor(left@, right@),
{
    match left.target_directory {
        Some(identity) => contains_identity(&right.ancestor_directories, identity),
        None => false,
    }
}

/// Whether the second key lies at or below the first.
pub fn resolved_path_contains(ancestor: &ResolvedPathKey, descendant: &ResolvedPathKey) -> (result:
    bool)
    ensures
        result == contains_resolved(ancestor@, descendant@),
{
    anchored_tail_is_prefix(ancestor, descendant) || target_is_ancestor(ancestor, descendant)
}

/// Whether either key lies at or below the other.
pub fn resolved_paths_conflict(left: &ResolvedPathKey, right: &ResolvedPathKey) -> (result: bool)
    ensures
        result == (contains_resolved(left@, right@) || contains_resolved(right@, left@)),
{
    resolved_path_contains(left, right) || resolved_path_contains(right, left)
}

/// The second key lies below the first, and is not the same entry by its names.
pub open spec fn strictly_contains_resolved(
    ancestor: ResolvedView,
    descendant: ResolvedView,
) -> bool {
    ||| ancestor.tail.len() < descendant.tail.len() && tail_is_prefix(ancestor, descendant)
    ||| names_an_ancestor(ancestor, descendant)
}

/// Whether the second key lies strictly below the first.
pub fn resolved_path_strictly_contains(
    ancestor: &ResolvedPathKey,
    descendant: &ResolvedPathKey,
) -> (result: bool)
    ensures
        result == strictly_contains_resolved(ancestor@, descendant@),
{
    (ancestor.unresolved_tail.len() < descendant.unresolved_tail.len() && anchored_tail_is_prefix(
        ancestor,
        descendant,
    )) || target_is_ancestor(ancestor, descendant)
}

/// Whether changing what one key names can change what the other one names.
pub fn path_keys_conflict(left: &LeaseKey, right: &LeaseKey) -> (result: bool)
    ensures
        result == conflict(left@, right@),
{
    left.lexical.starts_with(&right.lexical) || right.lexical.starts_with(&left.lexical)
        || resolved_paths_conflict(&left.resolved, &right.resolved)
}

pub open spec fn strictly_contains(ancestor: KeyView, descendant: KeyView) -> bool {
    ||| ancestor.lexical != descendant.lexical && text::has_prefix(
        descendant.lexical,
        ancestor.lexical,
    )
    ||| strictly_contains_resolved(ancestor.resolved, descendant.resolved)
}

/// Whether the second key lies strictly below the first.
pub fn path_strictly_contains(ancestor: &LeaseKey, descendant: &LeaseKey) -> (result: bool)
    ensures
        result == strictly_contains(ancestor@, descendant@),
{
    (!ancestor.lexical.equals(&descendant.lexical) && descendant.lexical.starts_with(
        &ancestor.lexical,
    )) || resolved_path_strictly_contains(&ancestor.resolved, &descendant.resolved)
}

pub open spec fn same_entry(left: KeyView, right: KeyView) -> bool {
    ||| left.lexical == right.lexical
    ||| left.resolved.parent == right.resolved.parent && left.resolved.tail == right.resolved.tail
}

/// Whether both keys name the same entry of the same directory.
pub fn paths_identify_same_entry(left: &LeaseKey, right: &LeaseKey) -> (result: bool)
    ensures
        result == same_entry(left@, right@),
{
    left.lexical.equals(&right.lexical) || (left.resolved.resolved_parent
        == right.resolved.resolved_parent && left.resolved.unresolved_tail.equals(
        &right.resolved.unresolved_tail,
    ))
}

/// Whether a key of one list conflicts with a key of the other.
pub fn paths_conflict(left: &Vec<LeaseKey>, right: &Vec<LeaseKey>) -> (result: bool)
    ensures
        result == lists_conflict(key_list(left@), key_list(right@)),
{
    let ghost lefts = key_list(left@);
    let ghost rights = key_list(right@);
    let mut i: usize = 0;
    while i < left.len()
        invariant
            i <= left@.len(),
            lefts == key_list(left@),
            rights == key_list(right@),
            forall|a: int, b: int|
                0 <= a < i && 0 <= b < rights.len() ==> !conflict(
                    #[trigger] lefts[a],
                    #[trigger] rights[b],
                ),
        decreases left@.len() - i,
    {
        let mut j: usize = 0;
        while j < right.len()
            invariant
                i < left@.len(),
                j <= right@.len(),
                lefts == key_list(left@),
                rights == key_list(right@),
                forall|b: int|
                    0 <= b < j ==> !conflict(lefts[i as int], #[trigger] rights[b]),
            decreases right@.len() - j,
        {
            assert(lefts[i as int] == left@[i as int]@);
            assert(rights[j as int] == right@[j as int]@);
            if path_keys_conflict(&left[i], &right[j]) {
                return true;
            }
            j += 1;
        }
        i += 1;
    }
    false
}

/// Whether a path of one list is on one line with a path of the other.
fn lexical_lists_conflict(left: &Vec<LexicalPath>, right: &Vec<LexicalPath>) -> (result: bool)
    ensures
        result == lines_cross(paths::path_list(left@), paths::path_list(right@)),
{
    let ghost lefts = paths::path_list(left@);
    let ghost rights = paths::path_list(right@);
    let mut i: usize = 0;
    while i < left.len()
        invariant
            i <= left@.len(),
            lefts == paths::path_list(left@),
            rights == paths::path_list(right@),
            forall|a: int, b: int|
                0 <= a < i && 0 <= b < rights.len() ==> !on_one_line(
                    #[trigger] lefts[a],
                    #[trigger] rights[b],
                ),
        decreases left@.len() - i,
    {
        let mut j: usize = 0;
        while j < right.len()
            invariant
                i < left@.len(),
                j <= right@.len(),
                lefts == paths::path_list(left@),
                rights == paths::path_list(right@),
                forall|b: int|
                    0 <= b < j ==> !on_one_line(lefts[i as int], #[trigger] rights[b]),
            decreases right@.len() - j,
        {
            assert(lefts[i as int] == left@[i as int]@);
            assert(rights[j as int] == right@[j as int]@);
            if left[i].starts_with(&right[j]) || right[j].starts_with(&left[i]) {
                return true;
            }
            j += 1;
        }
        i += 1;
    }
    false
}

pub open spec fn lines_cross(left: Seq<Seq<Seq<u8>>>, right: Seq<Seq<Seq<u8>>>) -> bool {
    exists|i: int, j: int|
        0 <= i < left.len() && 0 <= j < right.len() && on_one_line(
            #[trigger] left[i],
            #[trigger] right[j],
        )
}

pub open spec fn lexical_part(keys: Seq<KeyView>) -> Seq<Seq<Seq<u8>>> {
    Seq::new(keys.len(), |i: int| keys[i].lexical)
}

fn lexical_paths(keys: &Vec<LeaseKey>) -> (paths: Vec<LexicalPath>)
    ensures
        paths::path_list(paths@) == lexical_part(key_list(keys@)),
{
    let mut paths: Vec<LexicalPath> = Vec::new();
    let mut index: usize = 0;
    while index < keys.len()
        invariant
            index <= keys@.len(),
            paths@.len() == index,
            forall|i: int| 0 <= i < index ==> (#[trigger] paths@[i])@ == keys@[i]@.lexical,
        decreases keys@.len() - index,
    {
        paths.push(keys[index].lexical.copy());
        index += 1;
    }
    assert(paths::path_list(paths@) =~= lexical_part(key_list(keys@)));
    paths
}

fn copy_keys(keys: &Vec<LeaseKey>) -> (copy: Vec<LeaseKey>)
    ensures
        key_list(copy@) == key_list(keys@),
{
    let mut copy: Vec<LeaseKey> = Vec::new();
    let mut index: usize = 0;
    while index < keys.len()
        invariant
            index <= keys@.len(),
            copy@.len() == index,
            forall|i: int| 0 <= i < index ==> (#[trigger] copy@[i])@ == keys@[i]@,
        decreases keys@.len() - index,
    {
        copy.push(keys[index].copy());
        index += 1;
    }
    assert(key_list(copy@) =~= key_list(keys@));
    copy
}

fn copy_paths(paths: &Vec<LexicalPath>) -> (copy: Vec<LexicalPath>)
    ensures
        paths::path_list(copy@) == paths::path_list(paths@),
{
    let mut copy: Vec<LexicalPath> = Vec::new();
    let mut index: usize = 0;
    while index < paths.len()
        invariant
            index <= paths@.len(),
            copy@.len() == index,
            forall|i: int| 0 <= i < index ==> (#[trigger] copy@[i])@ == paths@[i]@,
        decreases paths@.len() - index,
    {
        copy.push(paths[index].copy());
        index += 1;
    }
    assert(paths::path_list(copy@) =~= paths::path_list(paths@));
    copy
}

/// A request in the queue: still resolving its paths, or waiting for a lease on
/// what they lead to.
pub enum WaiterState {
    Resolving(Vec<LexicalPath>),
    Resolved(Vec<LeaseKey>),
}

#[verifier::ext_equal]
pub enum WaiterView {
    Resolving(Seq<Seq<Seq<u8>>>),
    Resolved(Seq<KeyView>),
}

impl WaiterState {
    pub open spec fn view(self) -> WaiterView {
        match self {
            WaiterState::Resolving(paths) => WaiterView::Resolving(paths::path_list(paths@)),
            WaiterState::Resolved(keys) => WaiterView::Resolved(key_list(keys@)),
        }
    }
}

/// An earlier request stands in the way of these keys. One that still resolves
/// holds back only what is on one line with its paths: if another request is an
/// alias of it, the resolver sees the active lease, or the change of the epoch
/// when that lease ends.
pub open spec fn waits_before(waiter: WaiterView, requested: Seq<KeyView>) -> bool {
    match waiter {
        WaiterView::Resolving(paths) => lines_cross(paths, lexical_part(requested)),
        WaiterView::Resolved(keys) => lists_conflict(keys, requested),
    }
}

/// An earlier request stands in the way of these paths, as far as their names
/// show.
pub open spec fn waits_before_lexically(
    waiter: WaiterView,
    requested: Seq<Seq<Seq<u8>>>,
) -> bool {
    match waiter {
        WaiterView::Resolving(paths) => lines_cross(paths, requested),
        WaiterView::Resolved(keys) => lines_cross(lexical_part(keys), requested),
    }
}

fn waiter_conflicts(waiter: &WaiterState, requested: &Vec<LeaseKey>) -> (result: bool)
    ensures
        result == waits_before(waiter@, key_list(requested@)),
{
    match waiter {
        WaiterState::Resolving(paths) => lexical_lists_conflict(paths, &lexical_paths(requested)),
        WaiterState::Resolved(keys) => paths_conflict(keys, requested),
    }
}

fn waiter_lexically_conflicts(waiter: &WaiterState, requested: &Vec<LexicalPath>) -> (result: bool)
    ensures
        result == waits_before_lexically(waiter@, paths::path_list(requested@)),
{
    match waiter {
        WaiterState::Resolving(paths) => lexical_lists_conflict(paths, requested),
        WaiterState::Resolved(keys) => lexical_lists_conflict(&lexical_paths(keys), requested),
    }
}

/// What came of a try to take a lease.
#[derive(Clone, Copy, Debug, Eq, PartialEq, Structural)]
pub enum AcquireAttempt {
    Acquired(u64),
    Blocked,
    Stale,
}

/// The leases that are held and the requests that wait for one.
pub struct PathCoordinator {
    leases: BTreeMap<u64, Vec<LeaseKey>>,
    waiters: BTreeMap<u64, WaiterState>,
    next_id: u64,
    next_waiter_id: u64,
    lease_epoch: u64,
    changes: u64,
}

impl PathCoordinator {
    /// The keys of each held lease.
    pub closed spec fn held(self) -> Map<u64, Seq<KeyView>> {
        self.leases@.map_values(|keys: Vec<LeaseKey>| key_list(keys@))
    }

    /// The queue. A request that came earlier has the lower number.
    pub closed spec fn queue(self) -> Map<u64, WaiterView> {
        self.waiters@.map_values(|waiter: WaiterState| waiter@)
    }

    pub closed spec fn next_lease(self) -> u64 {
        self.next_id
    }

    pub closed spec fn next_waiter(self) -> u64 {
        self.next_waiter_id
    }

    /// Counts the leases that ended. What a path led to in an earlier epoch may
    /// have changed since.
    pub closed spec fn epoch(self) -> u64 {
        self.lease_epoch
    }

    /// Counts the changes that a waiting request should look at.
    pub closed spec fn version(self) -> u64 {
        self.changes
    }

    /// New numbers are unused, and no two held leases conflict.
    pub open spec fn is_valid(self) -> bool {
        &&& forall|id: u64| #[trigger] self.held().contains_key(id) ==> id < self.next_lease()
        &&& forall|id: u64| #[trigger] self.queue().contains_key(id) ==> id < self.next_waiter()
        &&& self.is_exclusive()
    }

    /// No two held leases conflict.
    pub open spec fn is_exclusive(self) -> bool {
        forall|left: u64, right: u64|
            #[trigger] self.held().contains_key(left) && #[trigger] self.held().contains_key(right)
                && left != right ==> !lists_conflict(self.held()[left], self.held()[right])
    }

    /// A held lease conflicts with these keys.
    pub open spec fn lease_in_the_way(self, requested: Seq<KeyView>) -> bool {
        exists|id: u64| #[trigger]
            self.held().contains_key(id) && lists_conflict(self.held()[id], requested)
    }

    /// A request before this one conflicts with these keys.
    pub open spec fn waiter_in_the_way(self, before: u64, requested: Seq<KeyView>) -> bool {
        exists|id: u64| #[trigger]
            self.queue().contains_key(id) && id < before && waits_before(
                self.queue()[id],
                requested,
            )
    }

    pub fn new() -> (coordinator: PathCoordinator)
        ensures
            coordinator.is_valid(),
            coordinator.held() == Map::<u64, Seq<KeyView>>::empty(),
            coordinator.queue() == Map::<u64, WaiterView>::empty(),
            coordinator.next_lease() == 1,
            coordinator.next_waiter() == 1,
            coordinator.epoch() == 0,
            coordinator.version() == 0,
    {
        let coordinator = PathCoordinator {
            leases: BTreeMap::new(),
            waiters: BTreeMap::new(),
            next_id: 1,
            next_waiter_id: 1,
            lease_epoch: 0,
            changes: 0,
        };
        assert(coordinator.held() =~= Map::<u64, Seq<KeyView>>::empty());
        assert(coordinator.queue() =~= Map::<u64, WaiterView>::empty());
        coordinator
    }

    /// The current epoch.
    pub fn current_epoch(&self) -> (epoch: u64)
        ensures
            epoch == self.epoch(),
    {
        self.lease_epoch
    }

    /// The current version, which changes whenever a waiting request should
    /// look again.
    pub fn current_version(&self) -> (version: u64)
        ensures
            version == self.version(),
    {
        self.changes
    }

    /// Puts a request at the end of the queue.
    pub fn register(&mut self, paths: &Vec<LexicalPath>) -> (waiter_id: u64)
        requires
            old(self).is_valid(),
            old(self).next_waiter() < u64::MAX,
        ensures
            final(self).is_valid(),
            waiter_id == old(self).next_waiter(),
            final(self).queue() == old(self).queue().insert(
                waiter_id,
                WaiterView::Resolving(paths::path_list(paths@)),
            ),
            final(self).next_waiter() == waiter_id + 1,
            final(self).held() == old(self).held(),
            final(self).next_lease() == old(self).next_lease(),
            final(self).epoch() == old(self).epoch(),
            final(self).version() == old(self).version(),
    {
        let id = self.next_waiter_id;
        self.next_waiter_id = id + 1;
        self.waiters.insert(id, WaiterState::Resolving(copy_paths(paths)));
        assert(self.queue() =~= old(self).queue().insert(
            id,
            WaiterView::Resolving(paths::path_list(paths@)),
        ));
        proof {
            self.lemma_queue_changed(*old(self), id);
        }
        id
    }

    /// A change of one place in the queue keeps the coordinator valid.
    proof fn lemma_queue_changed(self, before: PathCoordinator, changed: u64)
        requires
            before.is_valid(),
            self.leases@ == before.leases@,
            self.next_id == before.next_id,
            self.next_waiter_id >= before.next_waiter_id,
            self.queue().contains_key(changed) ==> changed < self.next_waiter_id,
            forall|id: u64| #[trigger]
                self.queue().contains_key(id) && id != changed ==> before.queue().contains_key(id),
        ensures
            self.is_valid(),
            self.held() == before.held(),
    {
        assert(self.held() =~= before.held());
        assert forall|id: u64| #[trigger] self.queue().contains_key(id) implies id
            < self.next_waiter() by {
            if id != changed {
                assert(before.queue().contains_key(id));
            }
        }
        assert forall|id: u64| #[trigger] self.held().contains_key(id) implies id
            < self.next_lease() by {
            assert(before.held().contains_key(id));
        }
        assert forall|left: u64, right: u64|
            #[trigger] self.held().contains_key(left) && #[trigger] self.held().contains_key(right)
                && left != right implies !lists_conflict(
            self.held()[left],
            self.held()[right],
        ) by {
            assert(before.held().contains_key(left));
            assert(before.held().contains_key(right));
        }
    }

    fn earlier_waiter_conflicts(&self, before: u64, requested: &Vec<LeaseKey>) -> (result: bool)
        ensures
            result == self.waiter_in_the_way(before, key_list(requested@)),
    {
        let mut blocked = false;
        for (id, waiter) in entries: self.waiters.iter()
            invariant
                entries.seq() == vstd::std_specs::btree::spec_btree_map_iter(
                    &self.waiters,
                ).remaining(),
                blocked <==> exists|i: int|
                    0 <= i < entries.index() && *(#[trigger] entries.seq()[i]).0 < before
                        && waits_before((*entries.seq()[i].1)@, key_list(requested@)),
        {
            if *id < before && waiter_conflicts(waiter, requested) {
                assert(*entries.seq()[entries.index() as int].0 < before);
                blocked = true;
            }
        }
        proof {
            let pairs = vstd::std_specs::btree::spec_btree_map_iter(&self.waiters).remaining();
            if blocked {
                let i = choose|i: int|
                    0 <= i < pairs.len() && *(#[trigger] pairs[i]).0 < before && waits_before(
                        (*pairs[i].1)@,
                        key_list(requested@),
                    );
                assert(self.waiters@.contains_key(*pairs[i].0));
                assert(self.queue().contains_key(*pairs[i].0));
            }
            if self.waiter_in_the_way(before, key_list(requested@)) {
                let id = choose|id: u64| #[trigger]
                    self.queue().contains_key(id) && id < before && waits_before(
                        self.queue()[id],
                        key_list(requested@),
                    );
                assert(self.waiters@.contains_key(id));
                assert(pairs.contains((&id, &self.waiters@[id])));
                let i = choose|i: int|
                    0 <= i < pairs.len() && pairs[i] == (&id, &self.waiters@[id]);
                assert(*pairs[i].0 < before);
            }
        }
        blocked
    }

    /// A request before this one is on one line with these paths.
    pub open spec fn name_in_the_way(self, before: u64, paths: Seq<Seq<Seq<u8>>>) -> bool {
        exists|id: u64| #[trigger]
            self.queue().contains_key(id) && id < before && waits_before_lexically(
                self.queue()[id],
                paths,
            )
    }

    fn earlier_waiter_lexically_conflicts(
        &self,
        before: u64,
        requested: &Vec<LexicalPath>,
    ) -> (result: bool)
        ensures
            result == self.name_in_the_way(before, paths::path_list(requested@)),
    {
        let mut blocked = false;
        for (id, waiter) in entries: self.waiters.iter()
            invariant
                entries.seq() == vstd::std_specs::btree::spec_btree_map_iter(
                    &self.waiters,
                ).remaining(),
                blocked <==> exists|i: int|
                    0 <= i < entries.index() && *(#[trigger] entries.seq()[i]).0 < before
                        && waits_before_lexically(
                        (*entries.seq()[i].1)@,
                        paths::path_list(requested@),
                    ),
        {
            if *id < before && waiter_lexically_conflicts(waiter, requested) {
                assert(*entries.seq()[entries.index() as int].0 < before);
                blocked = true;
            }
        }
        proof {
            let pairs = vstd::std_specs::btree::spec_btree_map_iter(&self.waiters).remaining();
            if blocked {
                let i = choose|i: int|
                    0 <= i < pairs.len() && *(#[trigger] pairs[i]).0 < before
                        && waits_before_lexically((*pairs[i].1)@, paths::path_list(requested@));
                assert(self.waiters@.contains_key(*pairs[i].0));
                assert(self.queue().contains_key(*pairs[i].0));
            }
            if self.name_in_the_way(before, paths::path_list(requested@)) {
                let id = choose|id: u64| #[trigger]
                    self.queue().contains_key(id) && id < before && waits_before_lexically(
                        self.queue()[id],
                        paths::path_list(requested@),
                    );
                assert(self.waiters@.contains_key(id));
                assert(pairs.contains((&id, &self.waiters@[id])));
                let i = choose|i: int|
                    0 <= i < pairs.len() && pairs[i] == (&id, &self.waiters@[id]);
                assert(*pairs[i].0 < before);
            }
        }
        blocked
    }

    fn held_lease_conflicts(&self, requested: &Vec<LeaseKey>) -> (result: bool)
        ensures
            result == self.lease_in_the_way(key_list(requested@)),
    {
        let mut blocked = false;
        for (id, held) in entries: self.leases.iter()
            invariant
                entries.seq() == vstd::std_specs::btree::spec_btree_map_iter(
                    &self.leases,
                ).remaining(),
                blocked <==> exists|i: int|
                    0 <= i < entries.index() && lists_conflict(
                        key_list((*(#[trigger] entries.seq()[i]).1)@),
                        key_list(requested@),
                    ),
        {
            if paths_conflict(held, requested) {
                assert(lists_conflict(
                    key_list((*entries.seq()[entries.index() as int].1)@),
                    key_list(requested@),
                ));
                blocked = true;
            }
        }
        proof {
            let pairs = vstd::std_specs::btree::spec_btree_map_iter(&self.leases).remaining();
            if blocked {
                let i = choose|i: int|
                    0 <= i < pairs.len() && lists_conflict(
                        key_list((*(#[trigger] pairs[i]).1)@),
                        key_list(requested@),
                    );
                assert(self.leases@.contains_key(*pairs[i].0));
                assert(self.held().contains_key(*pairs[i].0));
            }
            if self.lease_in_the_way(key_list(requested@)) {
                let id = choose|id: u64| #[trigger]
                    self.held().contains_key(id) && lists_conflict(
                        self.held()[id],
                        key_list(requested@),
                    );
                assert(self.leases@.contains_key(id));
                assert(pairs.contains((&id, &self.leases@[id])));
                let i = choose|i: int| 0 <= i < pairs.len() && pairs[i] == (&id, &self.leases@[id]);
                assert(key_list((*pairs[i].1)@) == self.held()[id]);
            }
        }
        blocked
    }

    /// Lets a request resolve its paths, unless an earlier one is in the way of
    /// what it led to before, or of its names where it has not resolved yet.
    pub fn mark_resolving_if_eligible(
        &mut self,
        waiter_id: u64,
        paths: &Vec<LexicalPath>,
        previous: Option<&Vec<LeaseKey>>,
    ) -> (eligible: bool)
        requires
            old(self).is_valid(),
        ensures
            final(self).is_valid(),
            eligible == !(match previous {
                None => old(self).name_in_the_way(waiter_id, paths::path_list(paths@)),
                Some(keys) => old(self).waiter_in_the_way(waiter_id, key_list(keys@)),
            }),
            final(self).queue() == (if eligible && old(self).queue().contains_key(waiter_id) {
                old(self).queue().insert(waiter_id, WaiterView::Resolving(paths::path_list(paths@)))
            } else {
                old(self).queue()
            }),
            final(self).held() == old(self).held(),
            final(self).next_lease() == old(self).next_lease(),
            final(self).next_waiter() == old(self).next_waiter(),
            final(self).epoch() == old(self).epoch(),
            final(self).version() == old(self).version(),
    {
        let blocked = match previous {
            None => self.earlier_waiter_lexically_conflicts(waiter_id, paths),
            Some(keys) => self.earlier_waiter_conflicts(waiter_id, keys),
        };
        if blocked {
            return false;
        }
        if self.waiters.contains_key(&waiter_id) {
            assert(self.queue().contains_key(waiter_id));
            self.waiters.insert(waiter_id, WaiterState::Resolving(copy_paths(paths)));
            assert(self.queue() =~= old(self).queue().insert(
                waiter_id,
                WaiterView::Resolving(paths::path_list(paths@)),
            ));
        }
        proof {
            self.lemma_queue_changed(*old(self), waiter_id);
        }
        true
    }

    /// Tries to take a lease on keys that were resolved in an epoch.
    ///
    /// The lease is granted exactly where the epoch is still current, the
    /// request is in the queue, no held lease conflicts, and no earlier request
    /// is in the way.
    pub fn try_acquire(
        &mut self,
        requested: &Vec<LeaseKey>,
        expected_epoch: u64,
        waiter_id: u64,
    ) -> (attempt: AcquireAttempt)
        requires
            old(self).is_valid(),
            old(self).next_lease() < u64::MAX,
        ensures
            final(self).is_valid(),
            attempt == ({
                if old(self).epoch() != expected_epoch || !old(self).queue().contains_key(
                    waiter_id,
                ) {
                    AcquireAttempt::Stale
                } else if old(self).lease_in_the_way(key_list(requested@))
                    || old(self).waiter_in_the_way(waiter_id, key_list(requested@)) {
                    AcquireAttempt::Blocked
                } else {
                    AcquireAttempt::Acquired(old(self).next_lease())
                }
            }),
            final(self).held() == (match attempt {
                AcquireAttempt::Acquired(id) => old(self).held().insert(id, key_list(requested@)),
                _ => old(self).held(),
            }),
            final(self).queue() == (match attempt {
                AcquireAttempt::Acquired(_) => old(self).queue().remove(waiter_id),
                AcquireAttempt::Blocked => old(self).queue().insert(
                    waiter_id,
                    WaiterView::Resolved(key_list(requested@)),
                ),
                AcquireAttempt::Stale => old(self).queue(),
            }),
            final(self).version() == (if attempt is Acquired || (attempt is Blocked
                && old(self).queue()[waiter_id] is Resolving) {
                old(self).version().wrapping_add(1)
            } else {
                old(self).version()
            }),
            final(self).next_lease() == (if attempt is Acquired {
                old(self).next_lease() + 1
            } else {
                old(self).next_lease() as int
            }),
            final(self).next_waiter() == old(self).next_waiter(),
            final(self).epoch() == old(self).epoch(),
    {
        if self.lease_epoch != expected_epoch {
            return AcquireAttempt::Stale;
        }
        let became_resolved = match self.waiters.get(&waiter_id) {
            Some(waiter) => match waiter {
                WaiterState::Resolving(_) => true,
                WaiterState::Resolved(_) => false,
            },
            None => {
                assert(!self.queue().contains_key(waiter_id));
                return AcquireAttempt::Stale;
            },
        };
        assert(self.queue().contains_key(waiter_id));
        if self.held_lease_conflicts(requested) || self.earlier_waiter_conflicts(
            waiter_id,
            requested,
        ) {
            self.waiters.insert(waiter_id, WaiterState::Resolved(copy_keys(requested)));
            assert(self.queue() =~= old(self).queue().insert(
                waiter_id,
                WaiterView::Resolved(key_list(requested@)),
            ));
            if became_resolved {
                self.changes = self.changes.wrapping_add(1);
            }
            return AcquireAttempt::Blocked;
        }
        let id = self.next_id;
        self.next_id = id + 1;
        self.waiters.remove(&waiter_id);
        self.leases.insert(id, copy_keys(requested));
        self.changes = self.changes.wrapping_add(1);
        proof {
            assert(self.queue() =~= old(self).queue().remove(waiter_id));
            assert(self.held() =~= old(self).held().insert(id, key_list(requested@)));
            assert forall|left: u64, right: u64|
                #[trigger] self.held().contains_key(left) && #[trigger] self.held().contains_key(
                    right,
                ) && left != right implies !lists_conflict(
                self.held()[left],
                self.held()[right],
            ) by {
                law_list_conflicts_are_symmetric(self.held()[left], self.held()[right]);
                if left != id && right != id {
                    assert(old(self).held().contains_key(left));
                    assert(old(self).held().contains_key(right));
                } else if left == id {
                    assert(old(self).held().contains_key(right));
                } else {
                    assert(old(self).held().contains_key(left));
                }
            }
        }
        AcquireAttempt::Acquired(id)
    }

    /// Takes a request out of the queue that gave up.
    pub fn withdraw(&mut self, waiter_id: u64)
        requires
            old(self).is_valid(),
        ensures
            final(self).is_valid(),
            final(self).queue() == old(self).queue().remove(waiter_id),
            final(self).version() == (if old(self).queue().contains_key(waiter_id) {
                old(self).version().wrapping_add(1)
            } else {
                old(self).version()
            }),
            final(self).held() == old(self).held(),
            final(self).next_lease() == old(self).next_lease(),
            final(self).next_waiter() == old(self).next_waiter(),
            final(self).epoch() == old(self).epoch(),
    {
        if self.waiters.remove(&waiter_id).is_some() {
            assert(old(self).queue().contains_key(waiter_id));
            self.changes = self.changes.wrapping_add(1);
        }
        assert(self.queue() =~= old(self).queue().remove(waiter_id));
        proof {
            self.lemma_queue_changed(*old(self), waiter_id);
        }
    }

    /// Ends a lease. What paths lead to may have changed under it, so a new
    /// epoch begins.
    pub fn release(&mut self, lease_id: u64)
        requires
            old(self).is_valid(),
        ensures
            final(self).is_valid(),
            final(self).held() == old(self).held().remove(lease_id),
            final(self).epoch() == (if old(self).held().contains_key(lease_id) {
                old(self).epoch().wrapping_add(1)
            } else {
                old(self).epoch()
            }),
            final(self).version() == (if old(self).held().contains_key(lease_id) {
                old(self).version().wrapping_add(1)
            } else {
                old(self).version()
            }),
            final(self).queue() == old(self).queue(),
            final(self).next_lease() == old(self).next_lease(),
            final(self).next_waiter() == old(self).next_waiter(),
    {
        if self.leases.remove(&lease_id).is_some() {
            assert(old(self).held().contains_key(lease_id));
            self.lease_epoch = self.lease_epoch.wrapping_add(1);
            self.changes = self.changes.wrapping_add(1);
        }
        proof {
            assert(self.held() =~= old(self).held().remove(lease_id));
            assert(self.queue() =~= old(self).queue());
            assert forall|id: u64| #[trigger] self.held().contains_key(id) implies id
                < self.next_lease() by {
                assert(old(self).held().contains_key(id));
            }
            assert forall|left: u64, right: u64|
                #[trigger] self.held().contains_key(left) && #[trigger] self.held().contains_key(
                    right,
                ) && left != right implies !lists_conflict(
                self.held()[left],
                self.held()[right],
            ) by {
                assert(old(self).held().contains_key(left));
                assert(old(self).held().contains_key(right));
            }
        }
    }
}

/// A request for a lease that has not been granted yet.
pub struct PendingAcquire {
    paths: Vec<LexicalPath>,
    waiter_id: u64,
    resolved: Option<(u64, Vec<LeaseKey>)>,
}

/// What a pending request does next.
#[derive(Clone, Copy, Debug, Eq, PartialEq, Structural)]
pub enum AcquireStep {
    /// Resolve every path; the answer belongs to this epoch.
    Resolve(u64),
    /// Wait until the coordinator changes.
    Wait,
    /// Look again at once.
    Again,
    /// The lease of this number is held.
    Acquired(u64),
}

impl PendingAcquire {
    pub closed spec fn paths(self) -> Seq<Seq<Seq<u8>>> {
        paths::path_list(self.paths@)
    }

    pub closed spec fn waiter(self) -> u64 {
        self.waiter_id
    }

    /// What the paths led to, and in which epoch.
    pub closed spec fn known(self) -> Option<(u64, Seq<KeyView>)> {
        match self.resolved {
            Some((epoch, keys)) => Some((epoch, key_list(keys@))),
            None => None,
        }
    }

    /// Each path is named once, and keys that are known are those of the paths.
    pub open spec fn is_valid(self) -> bool {
        &&& paths::strictly_sorted(self.paths())
        &&& self.known() matches Some((_, keys)) ==> lexical_part(keys) == self.paths()
    }

    /// The paths to resolve.
    pub fn paths_to_resolve(&self) -> (paths: &Vec<LexicalPath>)
        ensures
            paths::path_list(paths@) == self.paths(),
    {
        &self.paths
    }

    /// The place of the request in the queue.
    pub fn place(&self) -> (waiter_id: u64)
        ensures
            waiter_id == self.waiter(),
    {
        self.waiter_id
    }
}

impl PathCoordinator {
    /// Starts a request for a lease on paths, which are taken in order and each
    /// once.
    pub fn begin_acquire(&mut self, paths: &Vec<LexicalPath>) -> (pending: PendingAcquire)
        requires
            old(self).is_valid(),
            old(self).next_waiter() < u64::MAX,
        ensures
            final(self).is_valid(),
            pending.is_valid(),
            forall|path: Seq<Seq<u8>>| #[trigger]
                pending.paths().contains(path) <==> paths::path_list(paths@).contains(path),
            pending.waiter() == old(self).next_waiter(),
            pending.known() is None,
            final(self).queue() == old(self).queue().insert(
                pending.waiter(),
                WaiterView::Resolving(pending.paths()),
            ),
            final(self).next_waiter() == old(self).next_waiter() + 1,
            final(self).held() == old(self).held(),
            final(self).next_lease() == old(self).next_lease(),
            final(self).epoch() == old(self).epoch(),
            final(self).version() == old(self).version(),
    {
        let sorted = crate::paths::sorted_paths(paths);
        let waiter_id = self.register(&sorted);
        PendingAcquire { paths: sorted, waiter_id, resolved: None }
    }

    /// What a request does that tries for a lease on keys of the current epoch.
    pub open spec fn trial(self, waiter: u64, keys: Seq<KeyView>) -> AcquireStep {
        if !self.queue().contains_key(waiter) {
            AcquireStep::Again
        } else if self.lease_in_the_way(keys) || self.waiter_in_the_way(waiter, keys) {
            AcquireStep::Wait
        } else {
            AcquireStep::Acquired(self.next_lease())
        }
    }

    /// What becomes of the leases and of the queue when a request tries for a lease on
    /// its keys. One that gets its lease leaves the queue. One that waits keeps its
    /// place there, with its keys; others are told of it where its keys were not known.
    pub open spec fn is_tried(
        self,
        waiter: u64,
        keys: Seq<KeyView>,
        step: AcquireStep,
        after: PathCoordinator,
    ) -> bool {
        match step {
            AcquireStep::Acquired(id) => {
                &&& after.held() == self.held().insert(id, keys)
                &&& after.queue() == self.queue().remove(waiter)
                &&& after.next_lease() == self.next_lease() + 1
                &&& after.version() == self.version().wrapping_add(1)
            },
            AcquireStep::Wait => {
                &&& after.held() == self.held()
                &&& after.queue() == self.queue().insert(waiter, WaiterView::Resolved(keys))
                &&& after.next_lease() == self.next_lease()
                &&& after.version() == (if self.queue()[waiter] is Resolving {
                    self.version().wrapping_add(1)
                } else {
                    self.version()
                })
            },
            _ => {
                &&& after.held() == self.held()
                &&& after.queue() == self.queue()
                &&& after.next_lease() == self.next_lease()
                &&& after.version() == self.version()
            },
        }
    }

    /// What becomes of the queue when a request asks whether it may resolve its paths.
    pub open spec fn is_asked(
        self,
        pending: PendingAcquire,
        step: AcquireStep,
        after: PathCoordinator,
    ) -> bool {
        &&& after.queue() == (if step is Resolve && self.queue().contains_key(pending.waiter()) {
            self.queue().insert(pending.waiter(), WaiterView::Resolving(pending.paths()))
        } else {
            self.queue()
        })
        &&& after.held() == self.held()
        &&& after.next_lease() == self.next_lease()
        &&& after.version() == self.version()
    }

    /// What a look at a pending request comes to.
    pub open spec fn look(self, pending: PendingAcquire) -> AcquireStep {
        let waiter = pending.waiter();
        let held_back = match pending.known() {
            None => self.name_in_the_way(waiter, pending.paths()),
            Some((_, keys)) => self.waiter_in_the_way(waiter, keys),
        };
        if self.is_current(pending) {
            self.trial(waiter, (pending.known()->0).1)
        } else if held_back {
            AcquireStep::Wait
        } else {
            AcquireStep::Resolve(self.epoch())
        }
    }

    /// A request whose keys are from the current epoch.
    pub open spec fn is_current(self, pending: PendingAcquire) -> bool {
        pending.known() is Some && (pending.known()->0).0 == self.epoch()
    }

    /// Looks at a pending request.
    ///
    /// Keys of an earlier epoch only keep the request's place in the queue: it
    /// resolves its paths again before it can take a lease.
    pub fn advance(&mut self, pending: &PendingAcquire) -> (step: AcquireStep)
        requires
            old(self).is_valid(),
            old(self).next_lease() < u64::MAX,
        ensures
            final(self).is_valid(),
            step == old(self).look(*pending),
            if old(self).is_current(*pending) {
                old(self).is_tried(
                    pending.waiter(),
                    (pending.known()->0).1,
                    step,
                    *final(self),
                )
            } else {
                old(self).is_asked(*pending, step, *final(self))
            },
            final(self).next_waiter() == old(self).next_waiter(),
            final(self).epoch() == old(self).epoch(),
            pending.is_valid() ==> (step matches AcquireStep::Acquired(id) ==> lexical_part(
                final(self).held()[id],
            ) == pending.paths()),
    {
        if let Some((epoch, keys)) = &pending.resolved {
            if *epoch == self.lease_epoch {
                return match self.try_acquire(keys, *epoch, pending.waiter_id) {
                    AcquireAttempt::Acquired(id) => AcquireStep::Acquired(id),
                    AcquireAttempt::Blocked => AcquireStep::Wait,
                    AcquireAttempt::Stale => AcquireStep::Again,
                };
            }
        }
        let epoch = self.lease_epoch;
        let previous = match &pending.resolved {
            Some((_, keys)) => Some(keys),
            None => None,
        };
        if self.mark_resolving_if_eligible(pending.waiter_id, &pending.paths, previous) {
            AcquireStep::Resolve(epoch)
        } else {
            AcquireStep::Wait
        }
    }

    /// Takes what the paths of a pending request led to in an epoch, and tries
    /// for the lease. Where the epoch has passed meanwhile, the request looks
    /// again. A path that could not be resolved is held under the key of the root.
    pub fn settle(
        &mut self,
        pending: &mut PendingAcquire,
        epoch: u64,
        resolved: &Vec<Option<ResolvedPathKey>>,
        root: FileIdentity,
    ) -> (step: AcquireStep)
        requires
            old(self).is_valid(),
            old(self).next_lease() < u64::MAX,
            old(pending).is_valid(),
        ensures
            final(self).is_valid(),
            final(pending).is_valid(),
            final(pending).paths() == old(pending).paths(),
            final(pending).waiter() == old(pending).waiter(),
            final(pending).known() == Some(
                (epoch, resolved_keys(old(pending).paths(), resolved@, root)),
            ),
            step == (if old(self).epoch() != epoch {
                AcquireStep::Again
            } else {
                old(self).trial(
                    old(pending).waiter(),
                    resolved_keys(old(pending).paths(), resolved@, root),
                )
            }),
            old(self).is_tried(
                old(pending).waiter(),
                resolved_keys(old(pending).paths(), resolved@, root),
                step,
                *final(self),
            ),
            final(self).next_waiter() == old(self).next_waiter(),
            final(self).epoch() == old(self).epoch(),
            step matches AcquireStep::Acquired(id) ==> lexical_part(final(self).held()[id]) == old(
                pending,
            ).paths(),
    {
        let keys = keys_of(&pending.paths, resolved, root);
        assert(lexical_part(key_list(keys@)) =~= pending.paths());
        let attempt = self.try_acquire(&keys, epoch, pending.waiter_id);
        pending.resolved = Some((epoch, keys));
        match attempt {
            AcquireAttempt::Acquired(id) => AcquireStep::Acquired(id),
            AcquireAttempt::Blocked => AcquireStep::Wait,
            AcquireAttempt::Stale => AcquireStep::Again,
        }
    }
}

/// What a path led to: the key of the root, where that could not be told.
pub open spec fn resolved_or_root(
    resolved: Seq<Option<ResolvedPathKey>>,
    index: int,
    root: FileIdentity,
) -> ResolvedView {
    if index < resolved.len() && resolved[index] is Some {
        resolved[index]->0@
    } else {
        root_key(root)
    }
}

/// The keys of paths by what they led to: one for each path, and never the path
/// alone.
pub open spec fn resolved_keys(
    lexical: Seq<Seq<Seq<u8>>>,
    resolved: Seq<Option<ResolvedPathKey>>,
    root: FileIdentity,
) -> Seq<KeyView> {
    Seq::new(
        lexical.len(),
        |i: int|
            KeyView { lexical: lexical[i], resolved: resolved_or_root(resolved, i, root) },
    )
}

/// The keys of paths by what they led to. A path that could not be resolved gets the
/// key of the root.
pub fn keys_of(
    lexical: &Vec<LexicalPath>,
    resolved: &Vec<Option<ResolvedPathKey>>,
    root: FileIdentity,
) -> (keys: Vec<LeaseKey>)
    ensures
        key_list(keys@) == resolved_keys(paths::path_list(lexical@), resolved@, root),
{
    let mut keys: Vec<LeaseKey> = Vec::new();
    let ghost wanted = resolved_keys(paths::path_list(lexical@), resolved@, root);
    let mut index: usize = 0;
    while index < lexical.len()
        invariant
            index <= lexical@.len(),
            wanted == resolved_keys(paths::path_list(lexical@), resolved@, root),
            key_list(keys@) == wanted.subrange(0, index as int),
        decreases lexical@.len() - index,
    {
        let known: Option<ResolvedPathKey> = if index < resolved.len() {
            match &resolved[index] {
                Some(key) => Some(key.copy()),
                None => None,
            }
        } else {
            None
        };
        let key = match known {
            Some(key) => key,
            None => conservative_path_key(root),
        };
        let ghost before = keys@;
        keys.push(LeaseKey { lexical: lexical[index].copy(), resolved: key });
        assert(key_list(keys@) =~= key_list(before).push(wanted[index as int]));
        assert(wanted.subrange(0, index + 1) =~= wanted.subrange(0, index as int).push(
            wanted[index as int],
        ));
        index += 1;
    }
    assert(wanted.subrange(0, index as int) =~= wanted);
    keys
}

/// A request in the queue keeps its place there until it gets its lease, which is then
/// one on its keys. No other request loses its place, and no lease ends.
pub proof fn law_requests_keep_their_place(
    before: PathCoordinator,
    waiter: u64,
    keys: Seq<KeyView>,
    step: AcquireStep,
    after: PathCoordinator,
    other: u64,
    lease: u64,
)
    requires
        before.is_valid(),
        before.queue().contains_key(waiter),
        step == before.trial(waiter, keys),
        before.is_tried(waiter, keys, step, after),
    ensures
        match step {
            AcquireStep::Acquired(id) => !before.held().contains_key(id)
                && after.held().contains_key(id) && after.held()[id] == keys
                && !after.queue().contains_key(waiter),
            _ => step is Wait && after.queue().contains_key(waiter) && after.queue()[waiter]
                == WaiterView::Resolved(keys),
        },
        other != waiter ==> (after.queue().contains_key(other) <==> before.queue().contains_key(
            other,
        )),
        other != waiter && before.queue().contains_key(other) ==> after.queue()[other]
            == before.queue()[other],
        before.held().contains_key(lease) ==> after.held().contains_key(lease)
            && after.held()[lease] == before.held()[lease],
{
}

/// The first request of the queue gets its lease as soon as no lease is in its way.
pub proof fn law_first_requests_are_served(
    coordinator: PathCoordinator,
    waiter: u64,
    keys: Seq<KeyView>,
)
    requires
        coordinator.queue().contains_key(waiter),
        forall|other: u64| #[trigger]
            coordinator.queue().contains_key(other) ==> waiter <= other,
        !coordinator.lease_in_the_way(keys),
    ensures
        coordinator.trial(waiter, keys) == AcquireStep::Acquired(coordinator.next_lease()),
{
}

/// No two leases that are held at the same time conflict.
pub proof fn law_live_leases_do_not_conflict(coordinator: PathCoordinator, left: u64, right: u64)
    requires
        coordinator.is_valid(),
        coordinator.held().contains_key(left),
        coordinator.held().contains_key(right),
        left != right,
    ensures
        !lists_conflict(coordinator.held()[left], coordinator.held()[right]),
{
}

/// The keys of a lease are those of the paths that it was asked for: one for each
/// path, and no path twice. A path that could not be resolved is held under the key
/// of the root, and so excludes every key whose way leads through the root.
pub proof fn law_leases_hold_one_key_for_each_path(
    lexical: Seq<Seq<Seq<u8>>>,
    resolved: Seq<Option<ResolvedPathKey>>,
    root: FileIdentity,
)
    requires
        paths::strictly_sorted(lexical),
    ensures
        ({
            let keys = resolved_keys(lexical, resolved, root);
            &&& lexical_part(keys) == lexical
            &&& lexical.no_duplicates()
            &&& forall|i: int|
                0 <= i < lexical.len() && (i >= resolved.len() || resolved[i] is None)
                    ==> (#[trigger] keys[i]).resolved == root_key(root)
            &&& forall|i: int|
                0 <= i < lexical.len() && i < resolved.len() && resolved[i] is Some
                    ==> (#[trigger] keys[i]).resolved == resolved[i]->0@
            &&& forall|i: int, other: KeyView|
                0 <= i < lexical.len() && (i >= resolved.len() || resolved[i] is None)
                    && other.resolved.ancestors.contains(root) ==> #[trigger] conflict(
                    keys[i],
                    other,
                )
        }),
{
    let keys = resolved_keys(lexical, resolved, root);
    assert(lexical_part(keys) =~= lexical);
    paths::lemma_sorted_paths_are_distinct(lexical);
}

/// The key of the root itself.
pub open spec fn root_key(root: FileIdentity) -> ResolvedView {
    ResolvedView { parent: root, tail: Seq::empty(), ancestors: seq![root], target: Some(root) }
}

/// The key that stands in for a path that could not be resolved. It conflicts
/// with every key below the root, so that such a path waits for everybody.
pub fn conservative_path_key(root: FileIdentity) -> (key: ResolvedPathKey)
    ensures
        key@ == root_key(root),
{
    let mut ancestors: Vec<FileIdentity> = Vec::new();
    ancestors.push(root);
    let key = ResolvedPathKey {
        resolved_parent: root,
        unresolved_tail: LexicalPath::new(),
        ancestor_directories: ancestors,
        target_directory: Some(root),
    };
    assert(key@.ancestors =~= seq![root]);
    key
}

/// The key of the root conflicts with every key whose way leads through the
/// root.
pub proof fn law_the_root_key_conflicts_with_all(
    root: FileIdentity,
    unresolved: Seq<Seq<u8>>,
    other: KeyView,
)
    requires
        other.resolved.ancestors.contains(root),
    ensures
        conflict(KeyView { lexical: unresolved, resolved: root_key(root) }, other),
{
}

/// A path that the state store keeps an obligation for. `None` stands for a
/// stored path that cannot be read. An upload that merely runs allows a fresh
/// upload to supersede its exact target.
pub struct StateBlockingPath {
    pub path: Option<LexicalPath>,
    pub allows_exact_replacement: bool,
}

/// Which stored paths a scan looks for.
#[derive(Clone, Copy, Debug, Eq, PartialEq, Structural)]
pub enum StatePathScanRelation {
    SymmetricConflict,
    StrictDescendant,
}

/// A scan of the stored paths, page by page. The paths that it is about are
/// resolved once, with the first page that holds anything.
pub struct StatePathScanner {
    sources: Vec<LexicalPath>,
    resolved_sources: Option<Vec<LeaseKey>>,
    relation: StatePathScanRelation,
}

/// What a page calls for.
pub enum PagePlan {
    /// The page holds nothing.
    Clear,
    /// A stored path cannot be read, which counts as a conflict.
    Conflict,
    /// Resolve these paths.
    Resolve(Vec<LexicalPath>),
}

pub open spec fn page_is_readable(page: Seq<StateBlockingPath>) -> bool {
    forall|i: int| 0 <= i < page.len() ==> (#[trigger] page[i]).path is Some
}

pub open spec fn page_paths(page: Seq<StateBlockingPath>) -> Seq<Seq<Seq<u8>>> {
    Seq::new(page.len(), |i: int| page[i].path->0@)
}

pub open spec fn resolved_list(keys: Seq<ResolvedPathKey>) -> Seq<ResolvedView> {
    Seq::new(keys.len(), |i: int| keys[i]@)
}

/// The keys of paths and what they led to.
pub open spec fn paired(lexical: Seq<Seq<Seq<u8>>>, resolved: Seq<ResolvedView>) -> Seq<KeyView> {
    Seq::new(
        lexical.len(),
        |i: int| KeyView { lexical: lexical[i], resolved: resolved[i] },
    )
}

/// A stored path stands in the way of replacing what a source names: it lies
/// below it, or it is the same entry and does not allow the replacement.
pub open spec fn blocks_replacement(source: KeyView, stored: KeyView, allows_exact: bool) -> bool {
    if same_entry(source, stored) {
        !allows_exact
    } else {
        strictly_contains(source, stored)
    }
}

fn any_blocks_replacement(
    ancestor: &LeaseKey,
    candidates: &Vec<LeaseKey>,
    page: &Vec<StateBlockingPath>,
) -> (result: bool)
    requires
        candidates@.len() == page@.len(),
    ensures
        result == exists|i: int|
            0 <= i < candidates@.len() && blocks_replacement(
                ancestor@,
                #[trigger] key_list(candidates@)[i],
                page@[i].allows_exact_replacement,
            ),
{
    let mut index: usize = 0;
    while index < candidates.len()
        invariant
            index <= candidates@.len(),
            candidates@.len() == page@.len(),
            forall|i: int|
                0 <= i < index ==> !blocks_replacement(
                    ancestor@,
                    #[trigger] key_list(candidates@)[i],
                    page@[i].allows_exact_replacement,
                ),
        decreases candidates@.len() - index,
    {
        let candidate = &candidates[index];
        assert(key_list(candidates@)[index as int] == candidate@);
        let blocks = if paths_identify_same_entry(ancestor, candidate) {
            !page[index].allows_exact_replacement
        } else {
            path_strictly_contains(ancestor, candidate)
        };
        if blocks {
            return true;
        }
        index += 1;
    }
    false
}

impl StatePathScanner {
    pub closed spec fn sources(self) -> Seq<Seq<Seq<u8>>> {
        paths::path_list(self.sources@)
    }

    pub closed spec fn known(self) -> Option<Seq<KeyView>> {
        match self.resolved_sources {
            Some(keys) => Some(key_list(keys@)),
            None => None,
        }
    }

    pub closed spec fn relation(self) -> StatePathScanRelation {
        self.relation
    }

    /// A scan is about at least one path, and its keys are those of its paths.
    pub open spec fn is_valid(self) -> bool {
        &&& self.sources().len() > 0
        &&& self.known() matches Some(keys) ==> keys.len() == self.sources().len()
    }

    /// A scan for anything that conflicts with one of the paths.
    pub fn for_conflicts(sources: Vec<LexicalPath>) -> (scanner: StatePathScanner)
        requires
            sources@.len() > 0,
        ensures
            scanner.is_valid(),
            scanner.sources() == paths::path_list(sources@),
            scanner.known() is None,
            scanner.relation() == StatePathScanRelation::SymmetricConflict,
    {
        StatePathScanner {
            sources,
            resolved_sources: None,
            relation: StatePathScanRelation::SymmetricConflict,
        }
    }

    /// A scan for anything that replacing the path would disturb.
    pub fn for_descendants(ancestor: LexicalPath) -> (scanner: StatePathScanner)
        ensures
            scanner.is_valid(),
            scanner.sources() == seq![ancestor@],
            scanner.known() is None,
            scanner.relation() == StatePathScanRelation::StrictDescendant,
    {
        let mut sources: Vec<LexicalPath> = Vec::new();
        sources.push(ancestor);
        let scanner = StatePathScanner {
            sources,
            resolved_sources: None,
            relation: StatePathScanRelation::StrictDescendant,
        };
        assert(scanner.sources() =~= seq![ancestor@]);
        scanner
    }

    /// The paths that a page has resolved: those of the scan, the first time,
    /// and then its own.
    pub open spec fn batch(self, page: Seq<StateBlockingPath>) -> Seq<Seq<Seq<u8>>> {
        if self.known() is None {
            self.sources() + page_paths(page)
        } else {
            page_paths(page)
        }
    }

    /// What to do for a page. An empty page resolves nothing.
    pub fn plan_page(&self, page: &Vec<StateBlockingPath>) -> (plan: PagePlan)
        ensures
            match plan {
                PagePlan::Clear => page@.len() == 0,
                PagePlan::Conflict => page@.len() > 0 && !page_is_readable(page@),
                PagePlan::Resolve(paths) => page@.len() > 0 && page_is_readable(page@)
                    && paths::path_list(paths@) == self.batch(page@),
            },
    {
        if page.len() == 0 {
            return PagePlan::Clear;
        }
        let mut batch: Vec<LexicalPath> = Vec::new();
        if self.resolved_sources.is_none() {
            batch = copy_paths(&self.sources);
        }
        let ghost start = paths::path_list(batch@);
        let mut index: usize = 0;
        assert(start + page_paths(page@.subrange(0, 0)) =~= start);
        while index < page.len()
            invariant
                index <= page@.len(),
                forall|i: int| 0 <= i < index ==> (#[trigger] page@[i]).path is Some,
                paths::path_list(batch@) == start + page_paths(page@.subrange(0, index as int)),
            decreases page@.len() - index,
        {
            let ghost before = batch@;
            match &page[index].path {
                Some(path) => {
                    batch.push(path.copy());
                    proof {
                        let read = page_paths(page@.subrange(0, index as int));
                        assert(page_paths(page@.subrange(0, index + 1)) =~= read.push(path@));
                        assert(paths::path_list(batch@) =~= paths::path_list(before).push(path@));
                        assert((start + read).push(path@) =~= start + read.push(path@));
                    }
                },
                None => return PagePlan::Conflict,
            }
            index += 1;
        }
        assert(page@.subrange(0, page@.len() as int) =~= page@);
        assert(self.known() is Some ==> start =~= Seq::empty());
        assert(self.known() is Some ==> start + page_paths(page@) =~= page_paths(page@));
        PagePlan::Resolve(batch)
    }

    /// The keys of the scan once a page has been resolved.
    pub open spec fn keys_after(self, resolved: Seq<ResolvedView>) -> Seq<KeyView> {
        match self.known() {
            Some(keys) => keys,
            None => paired(
                self.sources(),
                resolved.subrange(0, self.sources().len() as int),
            ),
        }
    }

    /// The keys of a page once it has been resolved.
    pub open spec fn candidates(
        self,
        page: Seq<StateBlockingPath>,
        resolved: Seq<ResolvedView>,
    ) -> Seq<KeyView> {
        let start = if self.known() is None {
            self.sources().len() as int
        } else {
            0
        };
        paired(page_paths(page), resolved.subrange(start, resolved.len() as int))
    }

    /// Something in a resolved page is what the scan looks for.
    pub open spec fn finds(
        self,
        page: Seq<StateBlockingPath>,
        resolved: Seq<ResolvedView>,
    ) -> bool {
        let keys = self.keys_after(resolved);
        let candidates = self.candidates(page, resolved);
        match self.relation() {
            StatePathScanRelation::SymmetricConflict => lists_conflict(keys, candidates),
            StatePathScanRelation::StrictDescendant => exists|i: int|
                0 <= i < candidates.len() && blocks_replacement(
                    keys[0],
                    #[trigger] candidates[i],
                    page[i].allows_exact_replacement,
                ),
        }
    }

    /// Compares a resolved page. A page that could not be resolved counts as a
    /// conflict and leaves the scan as it was.
    pub fn page_conflicts(
        &mut self,
        page: &Vec<StateBlockingPath>,
        resolved: Option<Vec<ResolvedPathKey>>,
    ) -> (conflicts: bool)
        requires
            old(self).is_valid(),
            page@.len() > 0,
            page_is_readable(page@),
            resolved matches Some(keys) ==> keys@.len() == old(self).batch(page@).len(),
        ensures
            final(self).is_valid(),
            final(self).sources() == old(self).sources(),
            final(self).relation() == old(self).relation(),
            match resolved {
                None => conflicts && final(self).known() == old(self).known(),
                Some(keys) => conflicts == old(self).finds(page@, resolved_list(keys@))
                    && final(self).known() == Some(old(self).keys_after(resolved_list(keys@))),
            },
    {
        let resolved = match resolved {
            Some(resolved) => resolved,
            None => return true,
        };
        let ghost all = resolved_list(resolved@);
        let mut next: usize = 0;
        if self.resolved_sources.is_none() {
            let mut keys: Vec<LeaseKey> = Vec::new();
            let count = self.sources.len();
            while next < count
                invariant
                    self.sources@ == old(self).sources@,
                    self.relation == old(self).relation,
                    old(self).resolved_sources is None,
                    count == self.sources@.len(),
                    next <= count <= resolved@.len(),
                    keys@.len() == next,
                    forall|i: int|
                        0 <= i < next ==> (#[trigger] keys@[i])@ == (KeyView {
                            lexical: self.sources@[i]@,
                            resolved: resolved@[i]@,
                        }),
                decreases count - next,
            {
                keys.push(
                    LeaseKey { lexical: self.sources[next].copy(), resolved: resolved[next].copy() },
                );
                next += 1;
            }
            assert(key_list(keys@) =~= old(self).keys_after(all));
            self.resolved_sources = Some(keys);
        }
        let ghost start = next as int;
        assert(self.known() == Some(old(self).keys_after(all)));
        let mut candidates: Vec<LeaseKey> = Vec::new();
        let mut index: usize = 0;
        let total = resolved.len();
        while index < page.len()
            invariant
                index <= page@.len(),
                total == resolved@.len(),
                start >= 0,
                page_is_readable(page@),
                next == start + index,
                start + page@.len() == resolved@.len(),
                candidates@.len() == index,
                forall|i: int|
                    0 <= i < index ==> (#[trigger] candidates@[i])@ == (KeyView {
                        lexical: page@[i].path->0@,
                        resolved: resolved@[start + i]@,
                    }),
            decreases page@.len() - index,
        {
            if let Some(path) = &page[index].path {
                candidates.push(LeaseKey { lexical: path.copy(), resolved: resolved[next].copy() });
            }
            index += 1;
            next += 1;
        }
        let ghost keys = old(self).keys_after(all);
        let ghost found = old(self).candidates(page@, all);
        assert(key_list(candidates@) =~= found);
        match &self.resolved_sources {
            Some(sources) => {
                match self.relation {
                    StatePathScanRelation::SymmetricConflict => paths_conflict(
                        sources,
                        &candidates,
                    ),
                    StatePathScanRelation::StrictDescendant => {
                        let ancestor = &sources[0];
                        assert(keys[0] == ancestor@);
                        any_blocks_replacement(ancestor, &candidates, page)
                    },
                }
            },
            None => true,
        }
    }
}

/// What a scan does after a page.
#[derive(Clone, Copy, Debug, Eq, PartialEq, Structural)]
pub enum ScanStep {
    Conflict,
    Clear,
    NextPage(u64),
}

/// How a scan goes on after a page.
pub open spec fn page_step(conflicts: bool, next: Option<u64>) -> ScanStep {
    if conflicts {
        ScanStep::Conflict
    } else {
        match next {
            Some(cursor) => ScanStep::NextPage(cursor),
            None => ScanStep::Clear,
        }
    }
}

/// A scan ends with the first conflict, or with the last page.
pub fn after_page(conflicts: bool, next: Option<u64>) -> (step: ScanStep)
    ensures
        step == page_step(conflicts, next),
{
    if conflicts {
        return ScanStep::Conflict;
    }
    match next {
        Some(cursor) => ScanStep::NextPage(cursor),
        None => ScanStep::Clear,
    }
}

/// One of two lists of names is the other with more names behind it, or none.
pub proof fn law_lines_are_continuations(left: Seq<Seq<u8>>, right: Seq<Seq<u8>>)
    ensures
        on_one_line(left, right) <==> (exists|more: Seq<Seq<u8>>| left == #[trigger] (right + more))
            || (exists|more: Seq<Seq<u8>>| right == #[trigger] (left + more)),
{
    text::law_affixes_are_parts(left, right);
    text::law_affixes_are_parts(right, left);
}

/// Two keys conflict where one path continues the other, where one leads to the same
/// place or below it by the same directory, or where one names a directory that the
/// other leads through. Keys of which none of this holds do not conflict, so that
/// requests for other parts of the tree go on side by side.
pub proof fn law_only_related_paths_conflict(left: KeyView, right: KeyView)
    ensures
        conflict(left, right) <==> {
            ||| exists|more: Seq<Seq<u8>>| left.lexical == #[trigger] (right.lexical + more)
            ||| exists|more: Seq<Seq<u8>>| right.lexical == #[trigger] (left.lexical + more)
            ||| left.resolved.parent == right.resolved.parent && (exists|more: Seq<Seq<u8>>|
                left.resolved.tail == #[trigger] (right.resolved.tail + more))
            ||| left.resolved.parent == right.resolved.parent && (exists|more: Seq<Seq<u8>>|
                right.resolved.tail == #[trigger] (left.resolved.tail + more))
            ||| left.resolved.target is Some && (exists|i: int|
                0 <= i < right.resolved.ancestors.len() && #[trigger] right.resolved.ancestors[i]
                    == left.resolved.target->0)
            ||| right.resolved.target is Some && (exists|i: int|
                0 <= i < left.resolved.ancestors.len() && #[trigger] left.resolved.ancestors[i]
                    == right.resolved.target->0)
        },
{
    text::law_affixes_are_parts(left.lexical, right.lexical);
    text::law_affixes_are_parts(right.lexical, left.lexical);
    text::law_affixes_are_parts(left.resolved.tail, right.resolved.tail);
    text::law_affixes_are_parts(right.resolved.tail, left.resolved.tail);
}

/// A key lies strictly below another where its path is the other's with at least one
/// name more, where it hangs off the same directory with at least one name more, or
/// where it leads through the directory that the other names.
pub proof fn law_strict_descendants_go_deeper(ancestor: KeyView, descendant: KeyView)
    ensures
        strictly_contains(ancestor, descendant) <==> {
            ||| exists|more: Seq<Seq<u8>>|
                more.len() > 0 && descendant.lexical == #[trigger] (ancestor.lexical + more)
            ||| ancestor.resolved.parent == descendant.resolved.parent && (exists|
                more: Seq<Seq<u8>>,
            |
                more.len() > 0 && descendant.resolved.tail == #[trigger] (ancestor.resolved.tail
                    + more))
            ||| ancestor.resolved.target is Some && descendant.resolved.ancestors.contains(
                ancestor.resolved.target->0,
            )
        },
{
    text::law_affixes_are_parts(descendant.lexical, ancestor.lexical);
    text::law_affixes_are_parts(descendant.resolved.tail, ancestor.resolved.tail);
    if ancestor.lexical != descendant.lexical && text::has_prefix(
        descendant.lexical,
        ancestor.lexical,
    ) {
        let more = choose|more: Seq<Seq<u8>>| descendant.lexical == #[trigger] (ancestor.lexical
            + more);
        if more.len() == 0 {
            assert(ancestor.lexical + more =~= ancestor.lexical);
        }
        assert(more.len() > 0 && descendant.lexical == ancestor.lexical + more);
    }
    if exists|more: Seq<Seq<u8>>|
        more.len() > 0 && descendant.lexical == #[trigger] (ancestor.lexical + more) {
        let more = choose|more: Seq<Seq<u8>>|
            more.len() > 0 && descendant.lexical == #[trigger] (ancestor.lexical + more);
        assert(descendant.lexical.len() > ancestor.lexical.len());
    }
    if ancestor.resolved.tail.len() < descendant.resolved.tail.len() && tail_is_prefix(
        ancestor.resolved,
        descendant.resolved,
    ) {
        let more = choose|more: Seq<Seq<u8>>|
            descendant.resolved.tail == #[trigger] (ancestor.resolved.tail + more);
        assert(more.len() > 0 && descendant.resolved.tail == ancestor.resolved.tail + more);
    }
    if exists|more: Seq<Seq<u8>>|
        more.len() > 0 && descendant.resolved.tail == #[trigger] (ancestor.resolved.tail + more) {
        let more = choose|more: Seq<Seq<u8>>|
            more.len() > 0 && descendant.resolved.tail == #[trigger] (ancestor.resolved.tail
                + more);
        assert(descendant.resolved.tail.len() > ancestor.resolved.tail.len());
    }
}

/// Lists of keys conflict where one key of the one conflicts with one of the other, and
/// nowhere else.
pub proof fn law_lists_conflict_by_their_keys(
    left: Seq<KeyView>,
    more: Seq<KeyView>,
    right: Seq<KeyView>,
)
    ensures
        lists_conflict(left + more, right) <==> lists_conflict(left, right) || lists_conflict(
            more,
            right,
        ),
        left.len() == 0 ==> !lists_conflict(left, right),
        left.len() == 1 && right.len() == 1 ==> (lists_conflict(left, right) <==> conflict(
            left[0],
            right[0],
        )),
{
    let all = left + more;
    if lists_conflict(left, right) {
        let (i, j) = choose|i: int, j: int|
            0 <= i < left.len() && 0 <= j < right.len() && conflict(
                #[trigger] left[i],
                #[trigger] right[j],
            );
        assert(all[i] == left[i]);
        assert(conflict(all[i], right[j]));
    }
    if lists_conflict(more, right) {
        let (i, j) = choose|i: int, j: int|
            0 <= i < more.len() && 0 <= j < right.len() && conflict(
                #[trigger] more[i],
                #[trigger] right[j],
            );
        assert(all[left.len() + i] == more[i]);
        assert(conflict(all[left.len() + i], right[j]));
    }
    if lists_conflict(all, right) {
        let (i, j) = choose|i: int, j: int|
            0 <= i < all.len() && 0 <= j < right.len() && conflict(
                #[trigger] all[i],
                #[trigger] right[j],
            );
        if i < left.len() {
            assert(conflict(left[i], right[j]));
        } else {
            assert(conflict(more[i - left.len()], right[j]));
        }
    }
    if left.len() == 1 && right.len() == 1 && conflict(left[0], right[0]) {
        assert(lists_conflict(left, right));
    }
}

/// A request in the queue gets its lease exactly where no lease that is held conflicts
/// with its keys and no earlier request stands in their way; else it waits.
pub proof fn law_leases_are_granted_where_nothing_conflicts(
    coordinator: PathCoordinator,
    waiter: u64,
    keys: Seq<KeyView>,
)
    requires
        coordinator.queue().contains_key(waiter),
    ensures
        coordinator.trial(waiter, keys) is Acquired <==> {
            &&& forall|id: u64| #[trigger]
                coordinator.held().contains_key(id) ==> !lists_conflict(
                    coordinator.held()[id],
                    keys,
                )
            &&& forall|id: u64| #[trigger]
                coordinator.queue().contains_key(id) && id < waiter ==> !waits_before(
                    coordinator.queue()[id],
                    keys,
                )
        },
        coordinator.trial(waiter, keys) is Acquired || coordinator.trial(waiter, keys) is Wait,
        coordinator.trial(waiter, keys) matches AcquireStep::Acquired(id) ==> id
            == coordinator.next_lease(),
{
}

/// An earlier request stands in the way of others by its keys once it knows them, and
/// until then by its paths.
pub proof fn law_earlier_requests_go_first(
    paths: Seq<Seq<Seq<u8>>>,
    keys: Seq<KeyView>,
    requested: Seq<KeyView>,
)
    ensures
        waits_before(WaiterView::Resolved(keys), requested) <==> lists_conflict(keys, requested),
        waits_before(WaiterView::Resolving(paths), requested) <==> exists|i: int, j: int|
            0 <= i < paths.len() && 0 <= j < requested.len() && on_one_line(
                #[trigger] paths[i],
                (#[trigger] requested[j]).lexical,
            ),
{
    let lexical = lexical_part(requested);
    if waits_before(WaiterView::Resolving(paths), requested) {
        let (i, j) = choose|i: int, j: int|
            0 <= i < paths.len() && 0 <= j < lexical.len() && on_one_line(
                #[trigger] paths[i],
                #[trigger] lexical[j],
            );
        assert(on_one_line(paths[i], requested[j].lexical));
    }
    if exists|i: int, j: int|
        0 <= i < paths.len() && 0 <= j < requested.len() && on_one_line(
            #[trigger] paths[i],
            (#[trigger] requested[j]).lexical,
        ) {
        let (i, j) = choose|i: int, j: int|
            0 <= i < paths.len() && 0 <= j < requested.len() && on_one_line(
                #[trigger] paths[i],
                (#[trigger] requested[j]).lexical,
            );
        assert(on_one_line(paths[i], lexical[j]));
    }
}

/// A request with keys of the current epoch tries for its lease; one without resolves
/// its paths, in the current epoch, unless an earlier request stands in its way.
pub proof fn law_requests_resolve_before_they_try(
    coordinator: PathCoordinator,
    pending: PendingAcquire,
)
    ensures
        pending.known() matches Some((epoch, keys)) ==> epoch == coordinator.epoch()
            ==> coordinator.look(pending) == coordinator.trial(pending.waiter(), keys),
        pending.known() is None ==> (coordinator.look(pending) == AcquireStep::Resolve(
            coordinator.epoch(),
        ) <==> !coordinator.name_in_the_way(pending.waiter(), pending.paths())),
        pending.known() matches Some((epoch, keys)) ==> epoch != coordinator.epoch() ==> (
        coordinator.look(pending) == AcquireStep::Resolve(coordinator.epoch())
            <==> !coordinator.waiter_in_the_way(pending.waiter(), keys)),
        coordinator.look(pending) is Acquired ==> pending.known() is Some && (
        pending.known()->0).0 == coordinator.epoch(),
{
}

/// What is stored for a path stands in the way of replacing it where it lies below it,
/// or where it is the same entry and cannot be superseded; and nowhere else.
pub proof fn law_replacements_are_blocked_from_below(
    source: KeyView,
    stored: KeyView,
    allows_exact: bool,
)
    ensures
        same_entry(source, stored) ==> (blocks_replacement(source, stored, allows_exact)
            <==> !allows_exact),
        !same_entry(source, stored) ==> (blocks_replacement(source, stored, allows_exact)
            <==> strictly_contains(source, stored)),
        same_entry(source, stored) <==> source.lexical == stored.lexical || (source.resolved.parent
            == stored.resolved.parent && source.resolved.tail == stored.resolved.tail),
{
}

/// A scan ends with the first conflict, goes on while there are pages, and is clear only
/// after the last one.
pub proof fn law_scans_end_with_a_conflict_or_the_last_page(conflicts: bool, next: Option<u64>)
    ensures
        page_step(conflicts, next) == ScanStep::Conflict <==> conflicts,
        page_step(conflicts, next) == ScanStep::Clear <==> !conflicts && next is None,
        page_step(conflicts, next) matches ScanStep::NextPage(cursor) ==> !conflicts && next
            == Some(cursor),
{
}

/// The key of a path is the path and what it led to, one by one.
pub proof fn law_paths_are_paired_one_by_one(
    lexical: Seq<Seq<Seq<u8>>>,
    resolved: Seq<ResolvedView>,
    index: int,
)
    requires
        0 <= index < lexical.len(),
    ensures
        paired(lexical, resolved).len() == lexical.len(),
        paired(lexical, resolved)[index].lexical == lexical[index],
        paired(lexical, resolved)[index].resolved == resolved[index],
{
}

/// A request that asks whether it may resolve its paths leaves the leases as they are.
/// It is noted as resolving just where it is told to and still waits, and no other
/// request is touched.
pub proof fn law_asking_changes_only_the_asker(
    before: PathCoordinator,
    pending: PendingAcquire,
    step: AcquireStep,
    after: PathCoordinator,
    other: u64,
)
    requires
        before.is_asked(pending, step, after),
    ensures
        after.held() == before.held(),
        after.next_lease() == before.next_lease(),
        after.version() == before.version(),
        after.queue().dom() == before.queue().dom(),
        other != pending.waiter() ==> after.queue()[other] == before.queue()[other],
        step is Resolve && before.queue().contains_key(pending.waiter())
            ==> after.queue()[pending.waiter()] == WaiterView::Resolving(pending.paths()),
        !(step is Resolve) ==> after.queue() == before.queue(),
{
    assert(after.queue().dom() =~= before.queue().dom());
}

/// A scan for conflicts finds one just where one of its keys conflicts with one of the
/// page. A scan of what stands in the way of a replacement finds it just where a path of
/// the page blocks the replacement of its source.
pub proof fn law_scans_find_what_is_there(
    scanner: StatePathScanner,
    page: Seq<StateBlockingPath>,
    resolved: Seq<ResolvedView>,
)
    ensures
        scanner.relation() == StatePathScanRelation::SymmetricConflict ==> (scanner.finds(
            page,
            resolved,
        ) <==> exists|i: int, j: int|
            0 <= i < scanner.keys_after(resolved).len() && 0 <= j < scanner.candidates(
                page,
                resolved,
            ).len() && conflict(
                #[trigger] scanner.keys_after(resolved)[i],
                #[trigger] scanner.candidates(page, resolved)[j],
            )),
        scanner.relation() == StatePathScanRelation::StrictDescendant ==> (scanner.finds(
            page,
            resolved,
        ) <==> exists|j: int|
            0 <= j < scanner.candidates(page, resolved).len() && blocks_replacement(
                scanner.keys_after(resolved)[0],
                #[trigger] scanner.candidates(page, resolved)[j],
                page[j].allows_exact_replacement,
            )),
{
}

/// The first page of a scan is resolved together with its sources, which come first;
/// later pages are resolved alone, against the keys that are known.
pub proof fn law_sources_are_resolved_first(
    scanner: StatePathScanner,
    page: Seq<StateBlockingPath>,
    resolved: Seq<ResolvedView>,
)
    ensures
        scanner.known() matches Some(keys) ==> scanner.keys_after(resolved) == keys
            && scanner.candidates(page, resolved) == paired(
            page_paths(page),
            resolved.subrange(0, resolved.len() as int),
        ),
        scanner.known() is None ==> scanner.keys_after(resolved) == paired(
            scanner.sources(),
            resolved.subrange(0, scanner.sources().len() as int),
        ) && scanner.candidates(page, resolved) == paired(
            page_paths(page),
            resolved.subrange(scanner.sources().len() as int, resolved.len() as int),
        ),
{
}

/// The paths of a page are resolved in their order, behind those of the scan where these
/// are not yet known.
pub proof fn law_pages_are_resolved_in_order(
    scanner: StatePathScanner,
    page: Seq<StateBlockingPath>,
    index: int,
)
    requires
        0 <= index < page.len(),
    ensures
        page_paths(page).len() == page.len(),
        page[index].path matches Some(path) ==> page_paths(page)[index] == path@,
        scanner.known() is None ==> scanner.batch(page) == scanner.sources() + page_paths(page),
        scanner.known() is Some ==> scanner.batch(page) == page_paths(page),
        page_is_readable(page) ==> page[index].path is Some,
        page.len() == 1 && page[0].path is Some ==> page_is_readable(page),
{
}

} // verus!
