//! Opening the directory above an entry, making the missing ones on the way, and
//! taking them back.
use crate::io_error::{IoErrorKind, IoFailure};
use crate::path_coordinator::FileIdentity;
use crate::paths::LexicalPath;
use crate::rooted_fs::names;
use crate::rooted_fs::names::relative_path;
use crate::steps::Step;
use crate::text;
use vstd::prelude::*;

verus! {

/// What entering one directory on the way looks at or does next.
#[derive(Clone, Copy, Debug, Eq, PartialEq, Structural)]
pub enum AncestorProbe {
    /// Open the directory from the root on.
    Open,
    /// Make it in the directory above.
    Make,
    /// Flush the directory above.
    Sync,
    /// What was made: its kind and identity.
    Inspect,
    /// Open what was made, or what another made, from the root on.
    Reopen,
    /// Take back what was made, in the directory above.
    Remove,
    /// Take back what was made, in the directory above as the root leads to it.
    RemoveFromRoot,
    /// Take back all that was made before on this way.
    Rollback,
}

/// What became of making a directory.
#[derive(Clone, Copy, Debug, Eq, PartialEq, Structural)]
pub enum MakeResult {
    Made,
    /// Another has made it meanwhile.
    Exists,
    Failed(IoFailure),
}

/// What entering one directory has seen so far.
#[derive(Clone, Copy)]
pub struct AncestorSeen {
    pub opened: Option<Result<(), IoFailure>>,
    pub made: Option<MakeResult>,
    pub synced: Option<Result<(), IoFailure>>,
    /// Whether what was made is a directory, and its identity.
    pub inspected: Option<Result<(bool, FileIdentity), IoFailure>>,
    pub reopened: Option<Result<(), IoFailure>>,
    pub removed: bool,
    pub removed_from_root: bool,
    pub rolled_back: bool,
}

impl AncestorSeen {
    pub fn new() -> (seen: AncestorSeen)
        ensures
            seen == (AncestorSeen {
                opened: None,
                made: None,
                synced: None,
                inspected: None,
                reopened: None,
                removed: false,
                removed_from_root: false,
                rolled_back: false,
            }),
    {
        AncestorSeen {
            opened: None,
            made: None,
            synced: None,
            inspected: None,
            reopened: None,
            removed: false,
            removed_from_root: false,
            rolled_back: false,
        }
    }
}

/// How entering one directory ends: inside of it, with its identity where it was
/// made, or not.
#[derive(Clone, Copy)]
pub enum AncestorVerdict {
    Entered(Option<FileIdentity>),
    Failed(IoFailure),
}

pub type AncestorStep = Step<AncestorProbe, AncestorVerdict>;

/// Fails once all that was made before is taken back.
pub open spec fn given_up(seen: AncestorSeen, failure: IoFailure) -> AncestorStep {
    if seen.rolled_back {
        Step::Done(AncestorVerdict::Failed(failure))
    } else {
        Step::Ask(AncestorProbe::Rollback)
    }
}

/// Takes back what was made here, and fails.
pub open spec fn taken_back(seen: AncestorSeen, failure: IoFailure) -> AncestorStep {
    if seen.removed {
        given_up(seen, failure)
    } else {
        Step::Ask(AncestorProbe::Remove)
    }
}

/// Enters what was made or found, from the root on.
pub open spec fn reentered(seen: AncestorSeen, made: Option<FileIdentity>) -> AncestorStep {
    match seen.reopened {
        None => Step::Ask(AncestorProbe::Reopen),
        Some(Ok(_)) => Step::Done(AncestorVerdict::Entered(made)),
        Some(Err(failure)) => if made is Some && !seen.removed_from_root {
            Step::Ask(AncestorProbe::RemoveFromRoot)
        } else {
            given_up(seen, failure)
        },
    }
}

/// Goes on with a directory that was just made.
pub open spec fn after_making(seen: AncestorSeen) -> AncestorStep {
    match seen.synced {
        None => Step::Ask(AncestorProbe::Sync),
        Some(Err(failure)) => taken_back(seen, failure),
        Some(Ok(_)) => match seen.inspected {
            None => Step::Ask(AncestorProbe::Inspect),
            Some(Err(failure)) => taken_back(seen, failure),
            Some(Ok((false, _))) => taken_back(
                seen,
                IoFailure { kind: IoErrorKind::InvalidData, number: None },
            ),
            Some(Ok((true, identity))) => reentered(seen, Some(identity)),
        },
    }
}

/// How entering one directory goes on.
pub open spec fn entering(create: bool, seen: AncestorSeen) -> AncestorStep {
    match seen.opened {
        None => Step::Ask(AncestorProbe::Open),
        Some(Ok(_)) => Step::Done(AncestorVerdict::Entered(None)),
        Some(Err(failure)) => if !create || failure.kind != IoErrorKind::NotFound {
            given_up(seen, failure)
        } else {
            match seen.made {
                None => Step::Ask(AncestorProbe::Make),
                Some(MakeResult::Failed(failure)) => given_up(seen, failure),
                Some(MakeResult::Made) => after_making(seen),
                Some(MakeResult::Exists) => match seen.synced {
                    None => Step::Ask(AncestorProbe::Sync),
                    Some(Err(failure)) => given_up(seen, failure),
                    Some(Ok(_)) => reentered(seen, None),
                },
            }
        },
    }
}

fn give_up(seen: &AncestorSeen, failure: IoFailure) -> (step: AncestorStep)
    ensures
        step == given_up(*seen, failure),
{
    if seen.rolled_back {
        Step::Done(AncestorVerdict::Failed(failure))
    } else {
        Step::Ask(AncestorProbe::Rollback)
    }
}

fn take_back(seen: &AncestorSeen, failure: IoFailure) -> (step: AncestorStep)
    ensures
        step == taken_back(*seen, failure),
{
    if seen.removed {
        give_up(seen, failure)
    } else {
        Step::Ask(AncestorProbe::Remove)
    }
}

fn reenter(seen: &AncestorSeen, made: Option<FileIdentity>) -> (step: AncestorStep)
    ensures
        step == reentered(*seen, made),
{
    match seen.reopened {
        None => Step::Ask(AncestorProbe::Reopen),
        Some(Ok(_)) => Step::Done(AncestorVerdict::Entered(made)),
        Some(Err(failure)) => {
            if made.is_some() && !seen.removed_from_root {
                Step::Ask(AncestorProbe::RemoveFromRoot)
            } else {
                give_up(seen, failure)
            }
        },
    }
}

/// Decides one directory on the way to an entry.
pub fn enter_ancestor(create: bool, seen: &AncestorSeen) -> (step: AncestorStep)
    ensures
        step == entering(create, *seen),
{
    match seen.opened {
        None => return Step::Ask(AncestorProbe::Open),
        Some(Ok(_)) => return Step::Done(AncestorVerdict::Entered(None)),
        Some(Err(failure)) => {
            let absent = match failure.kind {
                IoErrorKind::NotFound => true,
                _ => false,
            };
            if !create || !absent {
                return give_up(seen, failure);
            }
        },
    }
    let made_here = match seen.made {
        None => return Step::Ask(AncestorProbe::Make),
        Some(MakeResult::Failed(failure)) => return give_up(seen, failure),
        Some(MakeResult::Made) => true,
        Some(MakeResult::Exists) => false,
    };
    match seen.synced {
        None => return Step::Ask(AncestorProbe::Sync),
        Some(Err(failure)) => {
            return if made_here {
                take_back(seen, failure)
            } else {
                give_up(seen, failure)
            };
        },
        Some(Ok(_)) => {},
    }
    if !made_here {
        return reenter(seen, None);
    }
    match seen.inspected {
        None => Step::Ask(AncestorProbe::Inspect),
        Some(Err(failure)) => take_back(seen, failure),
        Some(Ok((false, _))) => take_back(seen, IoFailure::of_kind(IoErrorKind::InvalidData)),
        Some(Ok((true, identity))) => reenter(seen, Some(identity)),
    }
}

/// A directory is taken back only where it was made on this way.
pub proof fn law_only_made_directories_are_removed(create: bool, seen: AncestorSeen)
    requires
        entering(create, seen) == AncestorStep::Ask(AncestorProbe::Remove) || entering(create, seen)
            == AncestorStep::Ask(AncestorProbe::RemoveFromRoot),
    ensures
        create,
        seen.made == Some(MakeResult::Made),
{
}

/// Nothing is made where nothing may be made, or where the directory is there.
pub proof fn law_making_needs_leave(create: bool, seen: AncestorSeen)
    requires
        entering(create, seen) == AncestorStep::Ask(AncestorProbe::Make),
    ensures
        create,
        seen.opened matches Some(Err(failure)) && failure.kind == IoErrorKind::NotFound,
{
}

/// A failure leaves nothing behind: what was made here has been taken back, and so
/// has what was made before.
pub proof fn law_failures_are_undone(create: bool, seen: AncestorSeen, failure: IoFailure)
    requires
        entering(create, seen) == AncestorStep::Done(AncestorVerdict::Failed(failure)),
    ensures
        seen.rolled_back,
        create && (seen.opened matches Some(Err(absent)) && absent.kind == IoErrorKind::NotFound)
            && seen.made == Some(MakeResult::Made) ==> seen.removed || seen.removed_from_root,
{
}

/// A directory that was made or found here is entered only once the directory above
/// has been flushed.
pub proof fn law_entered_directories_are_durable(
    create: bool,
    seen: AncestorSeen,
    made: Option<FileIdentity>,
)
    requires
        entering(create, seen) == AncestorStep::Done(AncestorVerdict::Entered(made)),
        !(seen.opened matches Some(Ok(_))),
    ensures
        seen.synced matches Some(Ok(_)),
        made is Some <==> seen.made == Some(MakeResult::Made),
{
}

/// A directory that was made on the way to an entry.
pub struct CreatedAncestor {
    pub path: LexicalPath,
    pub identity: FileIdentity,
}

pub open spec fn ancestor_paths(created: Seq<CreatedAncestor>) -> Seq<Seq<Seq<u8>>> {
    created.map_values(|ancestor: CreatedAncestor| ancestor.path@)
}

/// Paths lead along one way, each further than the one before it, and between two
/// depths of the way.
pub open spec fn form_a_line(
    paths: Seq<Seq<Seq<u8>>>,
    way: Seq<Seq<u8>>,
    above: nat,
    depth: nat,
) -> bool {
    &&& forall|i: int|
        0 <= i < paths.len() ==> above < (#[trigger] paths[i]).len() <= depth && text::has_prefix(
            way,
            paths[i],
        )
    &&& forall|i: int, j: int|
        0 <= i < j < paths.len() ==> (#[trigger] paths[i]).len() < (#[trigger] paths[j]).len()
}

proof fn lemma_lines_grow(
    paths: Seq<Seq<Seq<u8>>>,
    way: Seq<Seq<u8>>,
    above: nat,
    depth: nat,
    last: Seq<Seq<u8>>,
)
    requires
        form_a_line(paths, way, above, depth),
        above <= depth < way.len(),
        last == way.subrange(0, depth as int + 1),
    ensures
        form_a_line(paths, way, above, depth + 1),
        form_a_line(paths.push(last), way, above, depth + 1),
{
    let longer = paths.push(last);
    assert forall|i: int| 0 <= i < longer.len() implies above < (#[trigger] longer[i]).len()
        <= depth + 1 && text::has_prefix(way, longer[i]) by {
        if i < paths.len() {
            assert(longer[i] == paths[i]);
        }
    }
    assert forall|i: int, j: int| 0 <= i < j < longer.len() implies (#[trigger] longer[i]).len() < (
    #[trigger] longer[j]).len() by {
        assert(longer[i] == paths[i]);
        if j < paths.len() {
            assert(longer[j] == paths[j]);
        }
    }
}

/// The way from the root to the directory above an entry.
pub struct ParentWalk {
    root: LexicalPath,
    relative: LexicalPath,
    depth: usize,
    created: Vec<CreatedAncestor>,
}

impl ParentWalk {
    pub closed spec fn base(self) -> Seq<Seq<u8>> {
        self.root@
    }

    pub closed spec fn way(self) -> Seq<Seq<u8>> {
        self.relative@
    }

    /// How many directories have been entered.
    pub closed spec fn entered(self) -> nat {
        self.depth as nat
    }

    pub closed spec fn made(self) -> Seq<CreatedAncestor> {
        self.created@
    }

    /// The directories that were made are on the way, each below the one before it.
    pub open spec fn is_valid(self) -> bool {
        &&& self.entered() < self.way().len()
        &&& form_a_line(
            ancestor_paths(self.made()),
            self.base() + self.way(),
            self.base().len(),
            self.base().len() + self.entered(),
        )
    }

    /// Starts at the root.
    pub fn new(root: &LexicalPath, path: &LexicalPath) -> (walk: Result<ParentWalk, IoFailure>)
        ensures
            walk is Ok <==> text::has_prefix(path@, root@) && path@.len() > root@.len()
                && names::all_normal(names::below(root@, path@)),
            walk matches Ok(walk) ==> walk.is_valid() && walk.base() == root@ && walk.way()
                == names::below(root@, path@) && walk.entered() == 0 && walk.made().len() == 0,
    {
        match relative_path(root, path) {
            Ok(relative) => Ok(
                ParentWalk { root: root.copy(), relative, depth: 0, created: Vec::new() },
            ),
            Err(failure) => Err(failure),
        }
    }

    /// The name of the entry itself.
    pub fn entry_name(&self) -> (name: &Vec<u8>)
        requires
            self.is_valid(),
        ensures
            name@ == self.way().last(),
    {
        let place = self.relative.len() - 1;
        &self.relative.names[place]
    }

    /// The path below the root of the next directory to be entered, or nothing where
    /// the entry itself is next.
    pub fn next_prefix(&self) -> (prefix: Option<LexicalPath>)
        requires
            self.is_valid(),
        ensures
            match prefix {
                None => self.entered() == self.way().len() - 1,
                Some(prefix) => self.entered() < self.way().len() - 1 && prefix@
                    == self.way().subrange(0, self.entered() as int + 1),
            },
    {
        let length = self.relative.len();
        if self.depth < length - 1 {
            Some(self.relative.prefix(self.depth + 1))
        } else {
            None
        }
    }

    fn path_to(&self, depth: usize) -> (path: LexicalPath)
        requires
            depth <= self.way().len(),
        ensures
            path@ == self.base() + self.way().subrange(0, depth as int),
    {
        let mut path = self.root.copy();
        let mut index: usize = 0;
        assert(path@ =~= self.root@ + self.relative@.subrange(0, 0));
        while index < depth
            invariant
                index <= depth,
                depth <= self.relative@.len(),
                path@ == self.root@ + self.relative@.subrange(0, index as int),
            decreases depth - index,
        {
            path.push(self.relative.names[index].as_slice());
            assert(self.relative@[index as int] == self.relative.names@[index as int]@);
            assert(path@ =~= self.root@ + self.relative@.subrange(0, index + 1));
            index += 1;
        }
        path
    }

    /// Goes one directory down, which was made here if it has an identity.
    pub fn enter(&mut self, made: Option<FileIdentity>)
        requires
            old(self).is_valid(),
            old(self).entered() < old(self).way().len() - 1,
        ensures
            final(self).is_valid(),
            final(self).base() == old(self).base(),
            final(self).way() == old(self).way(),
            final(self).entered() == old(self).entered() + 1,
            match made {
                None => final(self).made() == old(self).made(),
                Some(identity) => {
                    let ancestor = final(self).made().last();
                    &&& final(self).made().len() == old(self).made().len() + 1
                    &&& final(self).made().drop_last() == old(self).made()
                    &&& ancestor.path@ == old(self).base() + old(self).way().subrange(
                        0,
                        old(self).entered() as int + 1,
                    )
                    &&& ancestor.identity == identity
                },
            },
    {
        let ghost before = ancestor_paths(self.created@);
        let ghost whole = self.root@ + self.relative@;
        let length = self.relative.len();
        assert(self.depth < length - 1);
        proof {
            lemma_lines_grow(
                before,
                whole,
                self.root@.len(),
                self.root@.len() + self.depth as nat,
                whole.subrange(0, self.root@.len() + self.depth + 1),
            );
        }
        self.depth = self.depth + 1;
        if let Some(identity) = made {
            let path = self.path_to(self.depth);
            assert(path@ =~= whole.subrange(0, self.root@.len() + self.depth));
            let ghost last = path@;
            self.created.push(CreatedAncestor { path, identity });
            assert(self.created@.drop_last() =~= old(self).created@);
            assert(ancestor_paths(self.created@) =~= before.push(last));
        }
    }

    /// The directories that were made, from the root downwards.
    pub fn into_created(self) -> (created: Vec<CreatedAncestor>)
        ensures
            created@ == self.made(),
    {
        self.created
    }
}

/// The directories that a walk has made lie between the root and the entry, and
/// each stands below the one before it, so that they can be taken back from the
/// last to the first.
pub proof fn law_made_directories_form_a_line(walk: ParentWalk, left: int, right: int)
    requires
        walk.is_valid(),
        0 <= left < right < walk.made().len(),
    ensures
        text::has_prefix(
            ancestor_paths(walk.made())[right],
            ancestor_paths(walk.made())[left],
        ),
        ancestor_paths(walk.made())[left].len() < ancestor_paths(walk.made())[right].len(),
        ancestor_paths(walk.made())[right].len() < walk.base().len() + walk.way().len(),
{
    let paths = ancestor_paths(walk.made());
    let whole = walk.base() + walk.way();
    let upper = paths[left];
    let lower = paths[right];
    assert(upper.len() < lower.len());
    assert(lower.subrange(0, upper.len() as int) =~= upper) by {
        assert forall|i: int| 0 <= i < upper.len() implies lower[i] == upper[i] by {
            assert(whole.subrange(0, upper.len() as int)[i] == upper[i]);
            assert(whole.subrange(0, lower.len() as int)[i] == lower[i]);
        }
    }
}

/// What taking back one directory looks at or does next.
#[derive(Clone, Copy, Debug, Eq, PartialEq, Structural)]
pub enum RollbackProbe {
    OpenParent,
    /// The kind and identity of what stands there.
    Inspect,
    Remove,
    SyncParent,
}

/// What taking back one directory has seen so far.
#[derive(Clone, Copy)]
pub struct RollbackSeen {
    pub parent: Option<Result<(), IoFailure>>,
    /// Whether it is a directory, and its identity.
    pub inspected: Option<Result<(bool, FileIdentity), IoFailure>>,
    pub removed: Option<Result<(), IoFailure>>,
    pub synced: Option<Result<(), IoFailure>>,
}

impl RollbackSeen {
    pub fn new() -> (seen: RollbackSeen)
        ensures
            seen == (RollbackSeen { parent: None, inspected: None, removed: None, synced: None }),
    {
        RollbackSeen { parent: None, inspected: None, removed: None, synced: None }
    }
}

/// How taking back one directory ends.
#[derive(Clone, Copy)]
pub enum RollbackVerdict {
    /// It is gone; the one above it is next.
    Next,
    /// It is in use, or another one stands there: those above it stay as well.
    Stop,
    Failed(IoFailure),
}

pub type RollbackStep = Step<RollbackProbe, RollbackVerdict>;

/// How taking back one directory goes on.
pub open spec fn rolling_back(made: FileIdentity, seen: RollbackSeen) -> RollbackStep {
    match seen.parent {
        None => Step::Ask(RollbackProbe::OpenParent),
        Some(Err(failure)) => if failure.missing() {
            Step::Done(RollbackVerdict::Next)
        } else {
            Step::Done(RollbackVerdict::Failed(failure))
        },
        Some(Ok(_)) => match seen.inspected {
            None => Step::Ask(RollbackProbe::Inspect),
            Some(Err(failure)) => if failure.kind == IoErrorKind::NotFound {
                Step::Done(RollbackVerdict::Next)
            } else {
                Step::Done(RollbackVerdict::Failed(failure))
            },
            Some(Ok((is_directory, identity))) => if !is_directory || identity != made {
                Step::Done(RollbackVerdict::Stop)
            } else {
                match seen.removed {
                    None => Step::Ask(RollbackProbe::Remove),
                    Some(Err(failure)) => match failure.kind {
                        IoErrorKind::NotFound => Step::Done(RollbackVerdict::Next),
                        IoErrorKind::DirectoryNotEmpty | IoErrorKind::AlreadyExists => Step::Done(
                            RollbackVerdict::Stop,
                        ),
                        _ => Step::Done(RollbackVerdict::Failed(failure)),
                    },
                    Some(Ok(_)) => match seen.synced {
                        None => Step::Ask(RollbackProbe::SyncParent),
                        Some(Ok(_)) => Step::Done(RollbackVerdict::Next),
                        Some(Err(failure)) => Step::Done(RollbackVerdict::Failed(failure)),
                    },
                }
            },
        },
    }
}

/// Decides how one directory that was made is taken back.
pub fn rollback_created_ancestor(made: FileIdentity, seen: &RollbackSeen) -> (step: RollbackStep)
    ensures
        step == rolling_back(made, *seen),
{
    match seen.parent {
        None => return Step::Ask(RollbackProbe::OpenParent),
        Some(Err(failure)) => {
            return if failure.is_missing() {
                Step::Done(RollbackVerdict::Next)
            } else {
                Step::Done(RollbackVerdict::Failed(failure))
            };
        },
        Some(Ok(_)) => {},
    }
    match seen.inspected {
        None => return Step::Ask(RollbackProbe::Inspect),
        Some(Err(failure)) => {
            return match failure.kind {
                IoErrorKind::NotFound => Step::Done(RollbackVerdict::Next),
                _ => Step::Done(RollbackVerdict::Failed(failure)),
            };
        },
        Some(Ok((is_directory, identity))) => {
            if !is_directory || identity != made {
                return Step::Done(RollbackVerdict::Stop);
            }
        },
    }
    match seen.removed {
        None => return Step::Ask(RollbackProbe::Remove),
        Some(Err(failure)) => {
            return match failure.kind {
                IoErrorKind::NotFound => Step::Done(RollbackVerdict::Next),
                IoErrorKind::DirectoryNotEmpty | IoErrorKind::AlreadyExists => Step::Done(
                    RollbackVerdict::Stop,
                ),
                _ => Step::Done(RollbackVerdict::Failed(failure)),
            };
        },
        Some(Ok(_)) => {},
    }
    match seen.synced {
        None => Step::Ask(RollbackProbe::SyncParent),
        Some(Ok(_)) => Step::Done(RollbackVerdict::Next),
        Some(Err(failure)) => Step::Done(RollbackVerdict::Failed(failure)),
    }
}

/// Nothing is taken back but the very directory that was made.
pub proof fn law_rollbacks_remove_their_own(made: FileIdentity, seen: RollbackSeen)
    requires
        rolling_back(made, seen) == RollbackStep::Ask(RollbackProbe::Remove),
    ensures
        seen.inspected == Some(Ok::<(bool, FileIdentity), IoFailure>((true, made))),
{
}

/// The way to the deepest directory above an entry that can be opened.
#[derive(Clone, Copy, Debug, Eq, PartialEq, Structural)]
pub struct NearestWalk {
    length: usize,
    depth: usize,
    ended: bool,
}

impl NearestWalk {
    pub closed spec fn parents(self) -> nat {
        self.length as nat
    }

    /// How many directories have been opened.
    pub closed spec fn opened(self) -> nat {
        self.depth as nat
    }

    pub closed spec fn has_ended(self) -> bool {
        self.ended
    }

    pub open spec fn is_valid(self) -> bool {
        self.opened() <= self.parents()
    }

    /// Starts at the root, with so many directories above the entry.
    pub fn new(parents: usize) -> (walk: NearestWalk)
        ensures
            walk.is_valid(),
            walk.parents() == parents,
            walk.opened() == 0,
            !walk.has_ended(),
    {
        NearestWalk { length: parents, depth: 0, ended: false }
    }

    /// How many names lead to the next directory to be opened; nothing where the
    /// one that was opened last is the deepest.
    pub fn next_length(&self) -> (length: Option<usize>)
        requires
            self.is_valid(),
        ensures
            length == (if self.has_ended() || self.opened() == self.parents() {
                None
            } else {
                Some((self.opened() + 1) as usize)
            }),
    {
        if self.ended || self.depth == self.length {
            None
        } else {
            Some(self.depth + 1)
        }
    }

    /// Takes note of what opening the next directory came to. A name that is not
    /// there, is no directory or may not be entered ends the way.
    pub fn note(&mut self, opened: Result<(), IoFailure>) -> (result: Result<(), IoFailure>)
        requires
            old(self).is_valid(),
            !old(self).has_ended(),
            old(self).opened() < old(self).parents(),
        ensures
            final(self).is_valid(),
            final(self).parents() == old(self).parents(),
            match opened {
                Ok(_) => result is Ok && final(self).opened() == old(self).opened() + 1
                    && !final(self).has_ended(),
                Err(failure) => final(self).opened() == old(self).opened() && if failure.unresolved() {
                    result is Ok && final(self).has_ended()
                } else {
                    result == Err::<(), IoFailure>(failure) && !final(self).has_ended()
                },
            },
    {
        match opened {
            Ok(_) => {
                self.depth = self.depth + 1;
                Ok(())
            },
            Err(failure) => {
                if failure.unresolved_path_error() {
                    self.ended = true;
                    Ok(())
                } else {
                    Err(failure)
                }
            },
        }
    }
}

/// A directory that opens is entered as it is. One that is not there is made, where that
/// is allowed, and entered with the identity that it was made with.
pub proof fn law_missing_directories_are_made(create: bool, seen: AncestorSeen)
    ensures
        (seen.opened matches Some(Ok(_))) ==> entering(create, seen) == AncestorStep::Done(
            AncestorVerdict::Entered(None),
        ),
        create && (seen.opened matches Some(Err(failure)) && failure.kind == IoErrorKind::NotFound)
            && seen.made is None ==> entering(create, seen) == AncestorStep::Ask(
            AncestorProbe::Make,
        ),
        forall|identity: FileIdentity|
            create && (seen.opened matches Some(Err(failure)) && failure.kind
                == IoErrorKind::NotFound) && seen.made == Some(MakeResult::Made)
                && seen.synced == Some(Ok::<(), IoFailure>(())) && seen.inspected == Some(
                #[trigger] inspected_directory(identity),
            ) && seen.reopened == Some(Ok::<(), IoFailure>(())) ==> entering(create, seen)
                == AncestorStep::Done(AncestorVerdict::Entered(Some(identity))),
        create && (seen.opened matches Some(Err(failure)) && failure.kind == IoErrorKind::NotFound)
            && seen.made == Some(MakeResult::Exists) && seen.synced == Some(Ok::<(), IoFailure>(()))
            && seen.reopened == Some(Ok::<(), IoFailure>(())) ==> entering(create, seen)
            == AncestorStep::Done(AncestorVerdict::Entered(None)),
{
}

/// A look at what was made that found a directory.
pub open spec fn inspected_directory(identity: FileIdentity) -> Result<
    (bool, FileIdentity),
    IoFailure,
> {
    Ok((true, identity))
}

/// A directory that is not entered met the failure that is told, or was not made as a
/// directory.
pub proof fn law_unentered_directories_met_the_failure(
    create: bool,
    seen: AncestorSeen,
    failure: IoFailure,
)
    requires
        entering(create, seen) == AncestorStep::Done(AncestorVerdict::Failed(failure)),
    ensures
        ({
            ||| seen.opened == Some(Err::<(), IoFailure>(failure)) && (!create || failure.kind
                != IoErrorKind::NotFound)
            ||| seen.made == Some(MakeResult::Failed(failure))
            ||| seen.synced == Some(Err::<(), IoFailure>(failure))
            ||| seen.inspected == Some(Err::<(bool, FileIdentity), IoFailure>(failure))
            ||| failure.kind == IoErrorKind::InvalidData && (seen.inspected matches Some(
                Ok((is_directory, _)),
            ) && !is_directory)
            ||| seen.reopened == Some(Err::<(), IoFailure>(failure))
        }),
{
}

/// Nothing is done twice on the way, and nothing is taken back unless something failed.
pub proof fn law_ways_are_gone_once(create: bool, seen: AncestorSeen, probe: AncestorProbe)
    requires
        entering(create, seen) == AncestorStep::Ask(probe),
    ensures
        match probe {
            AncestorProbe::Open => seen.opened is None,
            AncestorProbe::Make => seen.made is None,
            AncestorProbe::Sync => seen.synced is None && seen.made is Some,
            AncestorProbe::Inspect => seen.inspected is None && (seen.synced matches Some(Ok(_))),
            AncestorProbe::Reopen => seen.reopened is None && (seen.synced matches Some(Ok(_))),
            AncestorProbe::Remove => !seen.removed && ((seen.synced matches Some(Err(_))) || (
            seen.inspected matches Some(Err(_))) || (seen.inspected matches Some(
                Ok((is_directory, _)),
            ) && !is_directory)),
            AncestorProbe::RemoveFromRoot => !seen.removed_from_root && (
            seen.reopened matches Some(Err(_))),
            AncestorProbe::Rollback => !seen.rolled_back && (seen.opened matches Some(Err(_))),
        },
{
}

/// Taking back goes on with the directory above just where this one is gone, and ends
/// where another stands there or it is in use.
pub proof fn law_rollbacks_go_up_while_empty(made: FileIdentity, seen: RollbackSeen)
    ensures
        (seen.parent matches Some(Ok(_))) && seen.inspected == Some(
            Ok::<(bool, FileIdentity), IoFailure>((true, made)),
        ) && seen.removed is None ==> rolling_back(made, seen) == RollbackStep::Ask(
            RollbackProbe::Remove,
        ),
        (seen.parent matches Some(Ok(_))) && seen.inspected == Some(
            Ok::<(bool, FileIdentity), IoFailure>((true, made)),
        ) && (seen.removed matches Some(Ok(_))) && (seen.synced matches Some(Ok(_)))
            ==> rolling_back(made, seen) == RollbackStep::Done(RollbackVerdict::Next),
        rolling_back(made, seen) == RollbackStep::Done(RollbackVerdict::Next) ==> (
        seen.parent matches Some(Err(failure)) && failure.missing()) || (
        seen.inspected matches Some(Err(failure)) && failure.kind == IoErrorKind::NotFound) || (
        seen.removed matches Some(Err(failure)) && failure.kind == IoErrorKind::NotFound) || ((
        seen.removed matches Some(Ok(_))) && (seen.synced matches Some(Ok(_)))),
        rolling_back(made, seen) == RollbackStep::Done(RollbackVerdict::Stop) ==> (
        seen.inspected matches Some(Ok((is_directory, identity))) && (!is_directory || identity
            != made)) || (seen.removed matches Some(Err(failure)) && (failure.kind
            == IoErrorKind::DirectoryNotEmpty || failure.kind == IoErrorKind::AlreadyExists)),
        rolling_back(made, seen) matches RollbackStep::Done(RollbackVerdict::Failed(failure))
            ==> seen.parent == Some(Err::<(), IoFailure>(failure)) || seen.inspected == Some(
            Err::<(bool, FileIdentity), IoFailure>(failure),
        ) || seen.removed == Some(Err::<(), IoFailure>(failure)) || seen.synced == Some(
            Err::<(), IoFailure>(failure),
        ),
{
}

/// Taking one directory back does nothing twice.
pub proof fn law_rollbacks_look_once(made: FileIdentity, seen: RollbackSeen, probe: RollbackProbe)
    requires
        rolling_back(made, seen) == RollbackStep::Ask(probe),
    ensures
        match probe {
            RollbackProbe::OpenParent => seen.parent is None,
            RollbackProbe::Inspect => seen.inspected is None,
            RollbackProbe::Remove => seen.removed is None,
            RollbackProbe::SyncParent => seen.synced is None && (seen.removed matches Some(Ok(_))),
        },
{
}

} // verus!
