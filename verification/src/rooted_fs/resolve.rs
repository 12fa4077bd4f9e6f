//! Finding out where a path leads: the deepest directory that can be opened, the
//! directories above it, and what the path names.
use crate::io_error::{IoErrorKind, IoFailure};
use crate::path_coordinator;
use crate::path_coordinator::{resolved_path_contains, FileIdentity, ResolvedPathKey, ResolvedView};
use crate::paths::LexicalPath;
use crate::steps::Step;
use vstd::arithmetic::power2;
use vstd::prelude::*;

verus! {

/// Where the search for the deepest directory stands.
#[verifier::ext_equal]
pub struct SearchView {
    /// How many names the whole way has.
    pub length: nat,
    /// So many names lead to a directory.
    pub resolved: nat,
    /// So many names do not, once the whole way has been tried.
    pub unresolved: nat,
    pub tried: bool,
}

impl SearchView {
    pub open spec fn is_valid(self) -> bool {
        if self.tried {
            &&& 0 < self.length
            &&& self.unresolved <= self.length
            &&& self.resolved < self.unresolved || (self.resolved == self.length && self.unresolved
                == self.length)
        } else {
            self.resolved == 0 && self.unresolved == self.length
        }
    }

    /// How many names are tried next: all of them at first, then half of what is
    /// left in doubt.
    pub open spec fn candidate(self) -> Option<nat> {
        if self.length == 0 || (self.tried && self.unresolved - self.resolved <= 1) {
            None
        } else if !self.tried {
            Some(self.length)
        } else {
            Some(self.resolved + (self.unresolved - self.resolved) as nat / 2)
        }
    }

    /// The search once its candidate has been tried.
    pub open spec fn answered(self, opened: bool) -> SearchView {
        let candidate = self.candidate()->0;
        if opened {
            SearchView { resolved: candidate, tried: true, ..self }
        } else {
            SearchView { unresolved: candidate, tried: true, ..self }
        }
    }

    /// How many numbers of names are left in doubt.
    pub open spec fn doubt(self) -> int {
        self.unresolved - self.resolved
    }

    /// How many tries are left until the search ends, given which prefixes can be
    /// opened.
    pub open spec fn tries(self, can_open: spec_fn(nat) -> bool) -> nat
        decreases
                self.doubt() + (if self.tried {
                    0int
                } else {
                    1
                }),
    {
        if !self.is_valid() || self.candidate() is None {
            0
        } else {
            1 + self.answered(can_open(self.candidate()->0)).tries(can_open)
        }
    }

    /// What the search has been told is true of which prefixes can be opened.
    pub open spec fn agrees(self, can_open: spec_fn(nat) -> bool) -> bool {
        &&& self.resolved == 0 || can_open(self.resolved)
        &&& self.tried && self.resolved < self.length ==> !can_open(self.unresolved)
    }
}

/// A search for the deepest prefix of a way that can be opened.
#[derive(Clone, Copy)]
pub struct PrefixSearch {
    length: usize,
    resolved: usize,
    unresolved: usize,
    tried: bool,
}

impl PrefixSearch {
    pub closed spec fn view(self) -> SearchView {
        SearchView {
            length: self.length as nat,
            resolved: self.resolved as nat,
            unresolved: self.unresolved as nat,
            tried: self.tried,
        }
    }

    /// Starts a search along so many names.
    pub fn new(length: usize) -> (search: PrefixSearch)
        ensures
            search@ == (SearchView {
                length: length as nat,
                resolved: 0,
                unresolved: length as nat,
                tried: false,
            }),
            search@.is_valid(),
    {
        PrefixSearch { length, resolved: 0, unresolved: length, tried: false }
    }

    /// How many names to try next.
    pub fn candidate(&self) -> (candidate: Option<usize>)
        requires
            self@.is_valid(),
        ensures
            match candidate {
                Some(candidate) => self@.candidate() == Some(candidate as nat) && 0 < candidate
                    <= self@.length,
                None => self@.candidate() is None,
            },
    {
        if self.length == 0 || (self.tried && self.unresolved - self.resolved <= 1) {
            None
        } else if !self.tried {
            Some(self.length)
        } else {
            Some(self.resolved + (self.unresolved - self.resolved) / 2)
        }
    }

    /// Takes note of what trying the candidate came to. A name that is not there, is
    /// no directory or may not be entered narrows the search; any other failure
    /// ends it.
    pub fn note(&mut self, opened: Result<(), IoFailure>) -> (result: Result<(), IoFailure>)
        requires
            old(self)@.is_valid(),
            old(self)@.candidate() is Some,
        ensures
            final(self)@.is_valid(),
            match opened {
                Ok(_) => result is Ok && final(self)@ == old(self)@.answered(true),
                Err(failure) => if failure.unresolved() {
                    result is Ok && final(self)@ == old(self)@.answered(false)
                } else {
                    result == Err::<(), IoFailure>(failure) && final(self)@ == old(self)@
                },
            },
    {
        let candidate = match self.candidate() {
            Some(candidate) => candidate,
            None => return Ok(()),
        };
        match opened {
            Ok(_) => {
                self.resolved = candidate;
                self.tried = true;
                Ok(())
            },
            Err(failure) => {
                if !failure.unresolved_path_error() {
                    return Err(failure);
                }
                self.unresolved = candidate;
                self.tried = true;
                Ok(())
            },
        }
    }

    /// How many names lead to a directory.
    pub fn resolved(&self) -> (resolved: usize)
        ensures
            resolved == self@.resolved,
    {
        self.resolved
    }
}

/// What a search is told stays true of it, and each answer after the first halves
/// what is left in doubt.
pub proof fn law_answers_narrow_the_search(search: SearchView, can_open: spec_fn(nat) -> bool)
    requires
        search.is_valid(),
        search.candidate() is Some,
        search.agrees(can_open),
    ensures
        ({
            let next = search.answered(can_open(search.candidate()->0));
            &&& next.is_valid()
            &&& next.agrees(can_open)
            &&& next.tried
            &&& search.tried ==> 2 * next.doubt() <= search.doubt() + 1
            &&& search.tried ==> next.doubt() < search.doubt()
            &&& !search.tried ==> next.doubt() <= search.length
        }),
{
}

/// A search along a way takes one try for the whole of it, and then no more than it
/// takes to halve the number of its names down to one.
pub proof fn law_searches_take_few_tries(
    search: SearchView,
    can_open: spec_fn(nat) -> bool,
    halvings: nat,
)
    requires
        search.is_valid(),
        !search.tried,
        search.agrees(can_open),
        search.length <= power2::pow2(halvings),
    ensures
        search.tries(can_open) <= 1 + halvings,
{
    if search.candidate() is Some {
        let next = search.answered(can_open(search.candidate()->0));
        law_answers_narrow_the_search(search, can_open);
        lemma_tries_of_a_started_search(next, can_open, halvings);
    }
}

proof fn lemma_tries_of_a_started_search(
    search: SearchView,
    can_open: spec_fn(nat) -> bool,
    halvings: nat,
)
    requires
        search.is_valid(),
        search.tried,
        search.agrees(can_open),
        search.doubt() <= power2::pow2(halvings),
    ensures
        search.tries(can_open) <= halvings,
    decreases halvings,
{
    if search.candidate() is Some {
        let next = search.answered(can_open(search.candidate()->0));
        law_answers_narrow_the_search(search, can_open);
        if halvings == 0 {
            power2::lemma2_to64();
        } else {
            power2::lemma_pow2_unfold(halvings);
            lemma_tries_of_a_started_search(next, can_open, (halvings - 1) as nat);
        }
    }
}

/// A search ends at the deepest directory that can be opened, where opening a
/// directory means that those above it can be opened.
pub proof fn law_searches_find_the_deepest(
    search: SearchView,
    can_open: spec_fn(nat) -> bool,
    length: nat,
)
    requires
        search.is_valid(),
        search.candidate() is None,
        search.agrees(can_open),
        forall|upper: nat, lower: nat|
            #![trigger can_open(upper), can_open(lower)]
            0 < upper <= lower <= search.length && can_open(lower) ==> can_open(upper),
        0 < length <= search.length,
    ensures
        can_open(length) <==> length <= search.resolved,
{
    assert(can_open(length) || !can_open(length));
    assert(can_open(search.resolved) || search.resolved == 0);
    assert(search.resolved < search.length ==> !can_open(search.unresolved));
}

/// Where the whole way can be opened, one try is enough.
pub proof fn law_whole_ways_take_one_try(search: SearchView)
    requires
        search.is_valid(),
        !search.tried,
        search.length > 0,
    ensures
        search.candidate() == Some(search.length),
        search.answered(true).candidate() is None,
        search.answered(true).resolved == search.length,
{
}

/// The most directories that the way up to the root may have.
pub const MAX_DIRECTORY_ANCESTORS: usize = 4096;

/// The way from a directory up to the root.
pub struct AncestryWalk {
    root: FileIdentity,
    visited: Vec<FileIdentity>,
}

/// What to do with a directory on the way up.
#[derive(Clone, Copy, Debug, Eq, PartialEq, Structural)]
pub enum AncestryStep {
    /// It is the root.
    Reached,
    /// Open the one above it.
    Climb,
}

impl AncestryWalk {
    pub closed spec fn top(self) -> FileIdentity {
        self.root
    }

    /// The directories that were visited, from the bottom up.
    pub closed spec fn line(self) -> Seq<FileIdentity> {
        self.visited@
    }

    pub fn new(root: FileIdentity) -> (walk: AncestryWalk)
        ensures
            walk.top() == root,
            walk.line() == Seq::<FileIdentity>::empty(),
    {
        AncestryWalk { root, visited: Vec::new() }
    }

    /// Takes note of the directory that was opened.
    pub fn visit(&mut self, identity: FileIdentity) -> (step: AncestryStep)
        requires
            old(self).line().len() < MAX_DIRECTORY_ANCESTORS,
        ensures
            final(self).top() == old(self).top(),
            final(self).line() == old(self).line().push(identity),
            step == (if identity == old(self).top() {
                AncestryStep::Reached
            } else {
                AncestryStep::Climb
            }),
    {
        self.visited.push(identity);
        if identity == self.root {
            AncestryStep::Reached
        } else {
            AncestryStep::Climb
        }
    }

    /// Checks the directory above the one that was visited last: one that is above
    /// itself has no way to the root, and the way must not be too long.
    pub fn climb(&self, parent: FileIdentity) -> (result: Result<(), IoFailure>)
        requires
            0 < self.line().len() <= MAX_DIRECTORY_ANCESTORS,
        ensures
            match result {
                Ok(_) => parent != self.line().last() && self.line().len()
                    < MAX_DIRECTORY_ANCESTORS,
                Err(failure) => failure.number is None && if parent == self.line().last() {
                    failure.kind == IoErrorKind::PermissionDenied
                } else {
                    self.line().len() == MAX_DIRECTORY_ANCESTORS && failure.kind
                        == IoErrorKind::InvalidData
                },
            },
    {
        if parent == self.visited[self.visited.len() - 1] {
            return Err(IoFailure::of_kind(IoErrorKind::PermissionDenied));
        }
        if self.visited.len() == MAX_DIRECTORY_ANCESTORS {
            return Err(IoFailure::of_kind(IoErrorKind::InvalidData));
        }
        Ok(())
    }

    /// The directories from the root down.
    pub fn into_ancestry(self) -> (ancestry: Vec<FileIdentity>)
        ensures
            ancestry@ == self.line().reverse(),
    {
        let mut ancestry: Vec<FileIdentity> = Vec::new();
        let mut index: usize = self.visited.len();
        while index > 0
            invariant
                index <= self.visited@.len(),
                ancestry@ == self.visited@.subrange(
                    index as int,
                    self.visited@.len() as int,
                ).reverse(),
            decreases index,
        {
            index -= 1;
            ancestry.push(self.visited[index]);
            assert(ancestry@ =~= self.visited@.subrange(
                index as int,
                self.visited@.len() as int,
            ).reverse());
        }
        assert(self.visited@.subrange(0, self.visited@.len() as int) =~= self.visited@);
        ancestry
    }
}

/// A way up that has reached the root leads from the root down to the directory
/// that it started from.
pub proof fn law_ancestries_start_at_the_root(walk: AncestryWalk)
    requires
        walk.line().len() > 0,
        walk.line().last() == walk.top(),
    ensures
        walk.line().reverse()[0] == walk.top(),
        walk.line().reverse().last() == walk.line()[0],
        walk.line().reverse().len() == walk.line().len(),
{
}

/// What the last name of a path is looked at for.
#[derive(Clone, Copy, Debug, Eq, PartialEq, Structural)]
pub enum TargetProbe {
    /// Whether the name is a directory's.
    Inspect,
    /// Open the directory, and tell its identity.
    Open,
}

/// What has been seen of the last name of a path.
#[derive(Clone, Copy)]
pub struct TargetSeen {
    pub is_directory: Option<Result<bool, IoFailure>>,
    pub opened: Option<Result<FileIdentity, IoFailure>>,
}

pub type TargetStep = Step<TargetProbe, Result<Option<FileIdentity>, IoFailure>>;

/// The directory that a path names, if it names one. It is looked for only where
/// the directory above it is there.
pub open spec fn named_directory(parent_is_there: bool, seen: TargetSeen) -> TargetStep {
    if !parent_is_there {
        Step::Done(Ok(None))
    } else {
        match seen.is_directory {
            None => Step::Ask(TargetProbe::Inspect),
            Some(Err(failure)) => if failure.kind == IoErrorKind::NotFound {
                Step::Done(Ok(None))
            } else {
                Step::Done(Err(failure))
            },
            Some(Ok(false)) => Step::Done(Ok(None)),
            Some(Ok(true)) => match seen.opened {
                None => Step::Ask(TargetProbe::Open),
                Some(Err(failure)) => Step::Done(Err(failure)),
                Some(Ok(identity)) => Step::Done(Ok(Some(identity))),
            },
        }
    }
}

/// Decides what a path names.
pub fn target_directory(parent_is_there: bool, seen: &TargetSeen) -> (step: TargetStep)
    ensures
        step == named_directory(parent_is_there, *seen),
{
    if !parent_is_there {
        return Step::Done(Ok(None));
    }
    match seen.is_directory {
        None => Step::Ask(TargetProbe::Inspect),
        Some(Err(failure)) => match failure.kind {
            IoErrorKind::NotFound => Step::Done(Ok(None)),
            _ => Step::Done(Err(failure)),
        },
        Some(Ok(false)) => Step::Done(Ok(None)),
        Some(Ok(true)) => match seen.opened {
            None => Step::Ask(TargetProbe::Open),
            Some(Err(failure)) => Step::Done(Err(failure)),
            Some(Ok(identity)) => Step::Done(Ok(Some(identity))),
        },
    }
}

/// Puts together where a path leads, once it is known how many of the names above
/// its last one lead to a directory.
pub fn resolved_path_key(
    relative: &LexicalPath,
    resolved: usize,
    ancestry: Vec<FileIdentity>,
    target: Option<FileIdentity>,
) -> (key: ResolvedPathKey)
    requires
        resolved < relative@.len(),
        ancestry@.len() > 0,
    ensures
        key@ == (ResolvedView {
            parent: ancestry@.last(),
            tail: relative@.subrange(resolved as int, relative@.len() as int),
            ancestors: ancestry@,
            target,
        }),
{
    let resolved_parent = ancestry[ancestry.len() - 1];
    ResolvedPathKey {
        resolved_parent,
        unresolved_tail: relative.suffix(resolved),
        ancestor_directories: ancestry,
        target_directory: target,
    }
}

/// What was found of where paths lead, as far as it was found.
pub open spec fn resolutions(
    reserved: Seq<Result<ResolvedPathKey, IoFailure>>,
) -> Seq<Result<ResolvedView, IoFailure>> {
    reserved.map_values(
        |key: Result<ResolvedPathKey, IoFailure>|
            match key {
                Ok(key) => Ok::<ResolvedView, IoFailure>(key@),
                Err(failure) => Err(failure),
            },
    )
}

/// A path touches a reserved one: it leads below it or, where that counts, to
/// something above it.
pub open spec fn touches_reserved(
    target: ResolvedView,
    reserved: ResolvedView,
    protect_ancestors: bool,
) -> bool {
    path_coordinator::contains_resolved(reserved, target) || (protect_ancestors
        && path_coordinator::contains_resolved(target, reserved))
}

/// The first reserved path that the target touches, or that leads nowhere, decides.
pub open spec fn reserved_conflict(
    target: ResolvedView,
    reserved: Seq<Result<ResolvedView, IoFailure>>,
    protect_ancestors: bool,
) -> Result<bool, IoFailure>
    decreases reserved.len(),
{
    if reserved.len() == 0 {
        Ok(false)
    } else {
        match reserved[0] {
            Err(failure) => Err(failure),
            Ok(key) => if touches_reserved(target, key, protect_ancestors) {
                Ok(true)
            } else {
                reserved_conflict(
                    target,
                    reserved.subrange(1, reserved.len() as int),
                    protect_ancestors,
                )
            },
        }
    }
}

/// Tells whether a path touches one of the reserved paths, wherever it leads. A
/// path that would leave the root touches them; so does the root itself where what
/// is above a reserved path counts.
pub fn platform_path_conflict(
    is_root: bool,
    target: &Result<ResolvedPathKey, IoFailure>,
    reserved: &Vec<Result<ResolvedPathKey, IoFailure>>,
    protect_ancestors: bool,
) -> (conflict: Result<bool, IoFailure>)
    ensures
        conflict == (if is_root {
            Ok::<bool, IoFailure>(protect_ancestors)
        } else {
            match *target {
                Err(failure) => if failure.escapes() {
                    Ok(true)
                } else {
                    Err(failure)
                },
                Ok(target) => reserved_conflict(
                    target@,
                    resolutions(reserved@),
                    protect_ancestors,
                ),
            }
        }),
{
    if is_root {
        return Ok(protect_ancestors);
    }
    let target_key = match target {
        Ok(target_key) => target_key,
        Err(failure) => {
            return if failure.is_escape() {
                Ok(true)
            } else {
                Err(*failure)
            };
        },
    };
    let ghost all = resolutions(reserved@);
    let mut index: usize = 0;
    assert(all.subrange(0, all.len() as int) =~= all);
    while index < reserved.len()
        invariant
            all == resolutions(reserved@),
            index <= reserved@.len(),
            !is_root,
            *target == Ok::<ResolvedPathKey, IoFailure>(*target_key),
            reserved_conflict(target_key@, all, protect_ancestors) == reserved_conflict(
                target_key@,
                all.subrange(index as int, all.len() as int),
                protect_ancestors,
            ),
        decreases reserved@.len() - index,
    {
        let ghost rest = all.subrange(index as int, all.len() as int);
        assert(rest[0] == all[index as int]);
        assert(rest.subrange(1, rest.len() as int) =~= all.subrange(
            index + 1,
            all.len() as int,
        ));
        match &reserved[index] {
            Err(failure) => return Err(*failure),
            Ok(key) => {
                if resolved_path_contains(key, target_key) || (protect_ancestors
                    && resolved_path_contains(target_key, key)) {
                    return Ok(true);
                }
            },
        }
        index += 1;
    }
    Ok(false)
}

/// A path that is found free of all reserved paths touches none of them.
pub proof fn law_free_paths_touch_nothing_reserved(
    target: ResolvedView,
    reserved: Seq<Result<ResolvedView, IoFailure>>,
    protect_ancestors: bool,
    place: int,
)
    requires
        reserved_conflict(target, reserved, protect_ancestors) == Ok::<bool, IoFailure>(false),
        0 <= place < reserved.len(),
    ensures
        reserved[place] matches Ok(key) && !touches_reserved(target, key, protect_ancestors),
    decreases reserved.len(),
{
    if place > 0 {
        let rest = reserved.subrange(1, reserved.len() as int);
        law_free_paths_touch_nothing_reserved(target, rest, protect_ancestors, place - 1);
        assert(rest[place - 1] == reserved[place]);
    }
}

/// The path of a directory is told where one is named and opens, and nothing where there
/// is none; else the failure is told.
pub proof fn law_named_directories_are_told(seen: TargetSeen)
    ensures
        named_directory(false, seen) == TargetStep::Done(Ok(None)),
        seen.is_directory == Some(Ok::<bool, IoFailure>(false)) ==> named_directory(true, seen)
            == TargetStep::Done(Ok(None)),
        (seen.is_directory matches Some(Err(failure)) && failure.kind == IoErrorKind::NotFound)
            ==> named_directory(true, seen) == TargetStep::Done(Ok(None)),
        seen.is_directory == Some(Ok::<bool, IoFailure>(true)) ==> (seen.opened matches Some(
            Ok(identity),
        ) ==> named_directory(true, seen) == TargetStep::Done(Ok(Some(identity)))),
        named_directory(true, seen) matches TargetStep::Done(Err(failure)) ==> seen.is_directory
            == Some(Err::<bool, IoFailure>(failure)) || seen.opened == Some(
            Err::<FileIdentity, IoFailure>(failure),
        ),
        named_directory(true, seen) matches TargetStep::Done(Ok(Some(identity)))
            ==> seen.is_directory == Some(Ok::<bool, IoFailure>(true)) && seen.opened == Some(
            Ok::<FileIdentity, IoFailure>(identity),
        ),
        named_directory(true, seen) == TargetStep::Ask(TargetProbe::Inspect)
            <==> seen.is_directory is None,
        named_directory(true, seen) == TargetStep::Ask(TargetProbe::Open) <==> seen.is_directory
            == Some(Ok::<bool, IoFailure>(true)) && seen.opened is None,
{
    if let Some(Ok(b)) = seen.is_directory {
        assert(b ==> seen.is_directory == Some(Ok::<bool, IoFailure>(true)));
        assert(!b ==> seen.is_directory == Some(Ok::<bool, IoFailure>(false)));
    }
}

/// A path that touches a reserved one is found to, where all the reserved paths before
/// that one lead somewhere.
pub proof fn law_touched_reserved_paths_are_found(
    target: ResolvedView,
    reserved: Seq<Result<ResolvedView, IoFailure>>,
    protect_ancestors: bool,
    place: int,
)
    requires
        0 <= place < reserved.len(),
        forall|i: int| 0 <= i <= place ==> (#[trigger] reserved[i]) is Ok,
        path_coordinator::contains_resolved(reserved[place]->Ok_0, target) || (protect_ancestors
            && path_coordinator::contains_resolved(target, reserved[place]->Ok_0)),
    ensures
        reserved_conflict(target, reserved, protect_ancestors) == Ok::<bool, IoFailure>(true),
    decreases reserved.len(),
{
    assert(reserved[0] is Ok);
    if place > 0 {
        let rest = reserved.subrange(1, reserved.len() as int);
        assert(rest[place - 1] == reserved[place]);
        assert forall|i: int| 0 <= i <= place - 1 implies (#[trigger] rest[i]) is Ok by {
            assert(rest[i] == reserved[i + 1]);
        }
        law_touched_reserved_paths_are_found(target, rest, protect_ancestors, place - 1);
    }
}

/// A path is found to touch a reserved one only where it does, and a failure to tell is
/// that of a reserved path.
pub proof fn law_found_conflicts_are_there(
    target: ResolvedView,
    reserved: Seq<Result<ResolvedView, IoFailure>>,
    protect_ancestors: bool,
)
    ensures
        reserved_conflict(target, reserved, protect_ancestors) == Ok::<bool, IoFailure>(true)
            ==> exists|i: int|
            0 <= i < reserved.len() && ((#[trigger] reserved[i]) matches Ok(key) && (
            path_coordinator::contains_resolved(key, target) || (protect_ancestors
                && path_coordinator::contains_resolved(target, key)))),
        reserved_conflict(target, reserved, protect_ancestors) matches Err(failure) ==> exists|
            i: int,
        |
            0 <= i < reserved.len() && (#[trigger] reserved[i]) == Err::<ResolvedView, IoFailure>(
                failure,
            ),
    decreases reserved.len(),
{
    if reserved.len() > 0 {
        let rest = reserved.subrange(1, reserved.len() as int);
        law_found_conflicts_are_there(target, rest, protect_ancestors);
        assert forall|i: int| 0 <= i < rest.len() implies #[trigger] rest[i] == reserved[i
            + 1] by {}
        assert(reserved[0] == reserved[0]);
        if reserved[0] is Ok && !touches_reserved(
            target,
            reserved[0]->Ok_0,
            protect_ancestors,
        ) {
            let ended = reserved_conflict(target, rest, protect_ancestors);
            if ended == Ok::<bool, IoFailure>(true) {
                let i = choose|i: int|
                    0 <= i < rest.len() && ((#[trigger] rest[i]) matches Ok(key) && (
                    path_coordinator::contains_resolved(key, target) || (protect_ancestors
                        && path_coordinator::contains_resolved(target, key))));
                assert(reserved[i + 1] == rest[i]);
            }
            if ended is Err {
                let failure = ended->Err_0;
                let i = choose|i: int|
                    0 <= i < rest.len() && (#[trigger] rest[i]) == Err::<ResolvedView, IoFailure>(
                        failure,
                    );
                assert(reserved[i + 1] == rest[i]);
            }
        }
    }
}

} // verus!
