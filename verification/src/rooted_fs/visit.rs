//! Visiting the entries of a directory, in pieces where there are many.
use crate::io_error::{IoErrorKind, IoFailure};
use crate::rooted_fs::identity::{ExistingReplacementTarget, FileType};
use crate::rooted_fs::names;
use crate::steps::Step;
use vstd::prelude::*;

verus! {

/// What visiting one entry looks at next.
#[derive(Clone, Copy, Debug, Eq, PartialEq, Structural)]
pub enum VisitProbe {
    /// Whether another entry may be visited.
    Budget,
    /// The entry itself, without following it.
    Inspect,
    /// Open what the entry leads to.
    OpenTarget,
    /// Open the entry itself.
    OpenLink,
    /// The metadata of what was opened.
    ReadMetadata,
}

/// What has been seen of one entry.
#[derive(Clone, Copy)]
pub struct VisitSeen {
    pub within_budget: Option<bool>,
    pub entry: Option<Result<ExistingReplacementTarget, IoFailure>>,
    pub target: Option<Result<(), IoFailure>>,
    pub link: Option<Result<(), IoFailure>>,
    pub metadata: Option<Result<(), IoFailure>>,
}

impl VisitSeen {
    pub fn new() -> (seen: VisitSeen)
        ensures
            seen == (VisitSeen {
                within_budget: None,
                entry: None,
                target: None,
                link: None,
                metadata: None,
            }),
    {
        VisitSeen { within_budget: None, entry: None, target: None, link: None, metadata: None }
    }
}

/// What becomes of one entry.
#[derive(Clone, Copy)]
pub enum VisitVerdict {
    /// It is not shown.
    Skip,
    /// It has to wait.
    Pause,
    /// It is shown: whether it is a symbolic link, and what a change would show in.
    Show { is_symlink: bool, revision: ExistingReplacementTarget },
    Failed(IoFailure),
}

pub type VisitStep = Step<VisitProbe, VisitVerdict>;

/// The last part of a visit: the metadata of what was opened.
pub open spec fn showing(entry: ExistingReplacementTarget, seen: VisitSeen) -> VisitStep {
    match seen.metadata {
        None => Step::Ask(VisitProbe::ReadMetadata),
        Some(Err(failure)) => Step::Done(VisitVerdict::Failed(failure)),
        Some(Ok(_)) => Step::Done(
            VisitVerdict::Show {
                is_symlink: entry.file_type == FileType::Symlink,
                revision: entry,
            },
        ),
    }
}

/// A link that leads nowhere, or round in circles.
pub open spec fn dangles(failure: IoFailure) -> bool {
    failure.kind == IoErrorKind::NotFound || failure.loops()
}

/// How visiting one entry goes on. What leaves the root is not shown; a link inside
/// of it that leads nowhere is shown as itself.
pub open spec fn visiting(name: Seq<u8>, seen: VisitSeen) -> VisitStep {
    if !names::is_normal(name) {
        Step::Done(VisitVerdict::Skip)
    } else {
        match seen.within_budget {
            None => Step::Ask(VisitProbe::Budget),
            Some(false) => Step::Done(VisitVerdict::Pause),
            Some(true) => match seen.entry {
                None => Step::Ask(VisitProbe::Inspect),
                Some(Err(failure)) => Step::Done(VisitVerdict::Failed(failure)),
                Some(Ok(entry)) => match seen.target {
                    None => Step::Ask(VisitProbe::OpenTarget),
                    Some(Ok(_)) => showing(entry, seen),
                    Some(Err(failure)) => if failure.escapes() {
                        Step::Done(VisitVerdict::Skip)
                    } else if entry.file_type == FileType::Symlink && dangles(failure) {
                        match seen.link {
                            None => Step::Ask(VisitProbe::OpenLink),
                            Some(Err(failure)) => Step::Done(VisitVerdict::Failed(failure)),
                            Some(Ok(_)) => showing(entry, seen),
                        }
                    } else {
                        Step::Done(VisitVerdict::Failed(failure))
                    },
                },
            },
        }
    }
}

fn show(entry: ExistingReplacementTarget, seen: &VisitSeen) -> (step: VisitStep)
    ensures
        step == showing(entry, *seen),
{
    match seen.metadata {
        None => Step::Ask(VisitProbe::ReadMetadata),
        Some(Err(failure)) => Step::Done(VisitVerdict::Failed(failure)),
        Some(Ok(_)) => Step::Done(
            VisitVerdict::Show {
                is_symlink: entry.file_type == FileType::Symlink,
                revision: entry,
            },
        ),
    }
}

/// Decides one entry of a directory.
pub fn visit_entry(name: &[u8], seen: &VisitSeen) -> (step: VisitStep)
    ensures
        step == visiting(name@, *seen),
{
    if !names::check_normal(name) {
        return Step::Done(VisitVerdict::Skip);
    }
    match seen.within_budget {
        None => return Step::Ask(VisitProbe::Budget),
        Some(false) => return Step::Done(VisitVerdict::Pause),
        Some(true) => {},
    }
    let entry = match seen.entry {
        None => return Step::Ask(VisitProbe::Inspect),
        Some(Err(failure)) => return Step::Done(VisitVerdict::Failed(failure)),
        Some(Ok(entry)) => entry,
    };
    match seen.target {
        None => Step::Ask(VisitProbe::OpenTarget),
        Some(Ok(_)) => show(entry, seen),
        Some(Err(failure)) => {
            if failure.is_escape() {
                return Step::Done(VisitVerdict::Skip);
            }
            let absent = match failure.kind {
                IoErrorKind::NotFound => true,
                _ => false,
            };
            if entry.file_type == FileType::Symlink && (absent || failure.is_loop()) {
                match seen.link {
                    None => Step::Ask(VisitProbe::OpenLink),
                    Some(Err(failure)) => Step::Done(VisitVerdict::Failed(failure)),
                    Some(Ok(_)) => show(entry, seen),
                }
            } else {
                Step::Done(VisitVerdict::Failed(failure))
            }
        },
    }
}

/// What leads out of the root is never shown.
pub proof fn law_escapes_are_hidden(
    name: Seq<u8>,
    seen: VisitSeen,
    is_symlink: bool,
    revision: ExistingReplacementTarget,
)
    requires
        visiting(name, seen) == VisitStep::Done(VisitVerdict::Show { is_symlink, revision }),
    ensures
        !(seen.target matches Some(Err(failure)) && failure.escapes()),
        names::is_normal(name),
        seen.entry == Some(Ok::<ExistingReplacementTarget, IoFailure>(revision)),
{
}

/// Nothing of an entry is looked at before it is known that there is room for it.
pub proof fn law_budgets_come_first(name: Seq<u8>, seen: VisitSeen)
    requires
        visiting(name, seen) == VisitStep::Ask(VisitProbe::Inspect),
    ensures
        seen.within_budget == Some(true),
{
}

/// A place in a directory, as the kernel tells it.
#[derive(Clone, Copy, Debug, Eq, PartialEq, Structural)]
pub struct DirectoryCursor {
    pub offset: i64,
}

impl DirectoryCursor {
    /// The start of a directory.
    pub fn start() -> (cursor: DirectoryCursor)
        ensures
            cursor.offset == 0,
    {
        DirectoryCursor { offset: 0 }
    }

    /// The directory has to be wound on before it is read.
    pub fn needs_seek(self) -> (result: bool)
        ensures
            result == (self.offset != 0),
    {
        self.offset != 0
    }
}

/// How far a visit of a directory has come.
#[derive(Clone, Copy, Debug, Eq, PartialEq, Structural)]
pub enum DirectoryVisitProgress {
    Complete,
    Paused(DirectoryCursor),
}

/// What follows an entry.
#[derive(Clone, Copy)]
pub enum VisitFlow {
    Continue,
    Return(Result<DirectoryVisitProgress, IoFailure>),
}

/// Where a visit goes on later once an entry has been decided, and what follows.
pub open spec fn noted(
    place: DirectoryCursor,
    verdict: VisitVerdict,
    go_on: Result<bool, IoFailure>,
    next: DirectoryCursor,
) -> (DirectoryCursor, VisitFlow) {
    match verdict {
        VisitVerdict::Skip => (next, VisitFlow::Continue),
        VisitVerdict::Pause => (place, VisitFlow::Return(Ok(DirectoryVisitProgress::Paused(place)))),
        VisitVerdict::Failed(failure) => (place, VisitFlow::Return(Err(failure))),
        VisitVerdict::Show { .. } => (
            next,
            match go_on {
                Ok(true) => VisitFlow::Continue,
                Ok(false) => VisitFlow::Return(Ok(DirectoryVisitProgress::Paused(next))),
                Err(failure) => VisitFlow::Return(Err(failure)),
            },
        ),
    }
}

/// A visit of a directory.
#[derive(Clone, Copy, Debug, Eq, PartialEq, Structural)]
pub struct DirectoryVisit {
    resume: DirectoryCursor,
}

impl DirectoryVisit {
    /// Where a visit that is paused now goes on later.
    pub closed spec fn place(self) -> DirectoryCursor {
        self.resume
    }

    pub fn new(cursor: DirectoryCursor) -> (visit: DirectoryVisit)
        ensures
            visit.place() == cursor,
    {
        DirectoryVisit { resume: cursor }
    }

    /// Takes note of what became of an entry, which the cursor lies behind. `go_on` is
    /// what a visitor said who was shown the entry.
    pub fn note(
        &mut self,
        verdict: VisitVerdict,
        go_on: Result<bool, IoFailure>,
        next: DirectoryCursor,
    ) -> (flow: VisitFlow)
        ensures
            (final(self).place(), flow) == noted(old(self).place(), verdict, go_on, next),
    {
        match verdict {
            VisitVerdict::Skip => {
                self.resume = next;
                VisitFlow::Continue
            },
            VisitVerdict::Pause => VisitFlow::Return(
                Ok(DirectoryVisitProgress::Paused(self.resume)),
            ),
            VisitVerdict::Failed(failure) => VisitFlow::Return(Err(failure)),
            VisitVerdict::Show { .. } => {
                self.resume = next;
                match go_on {
                    Ok(true) => VisitFlow::Continue,
                    Ok(false) => VisitFlow::Return(Ok(DirectoryVisitProgress::Paused(next))),
                    Err(failure) => VisitFlow::Return(Err(failure)),
                }
            },
        }
    }
}

/// An entry of a directory that stays as it is.
pub struct StandingEntry {
    pub name: Seq<u8>,
    /// The entry is a link that leads out of the root.
    pub leads_out: bool,
    /// The place behind the entry.
    pub next: DirectoryCursor,
}

impl StandingEntry {
    /// The entry is one to show: neither the directory itself nor the one above it, and
    /// no way out of the root.
    pub open spec fn is_shown(self) -> bool {
        names::is_normal(self.name) && !self.leads_out
    }
}

/// The place of an entry of a directory, or the place behind the last one.
pub open spec fn place_of(entries: Seq<StandingEntry>, index: int) -> DirectoryCursor {
    if index <= 0 {
        DirectoryCursor { offset: 0 }
    } else {
        entries[index - 1].next
    }
}

/// The places of a directory are told apart.
pub open spec fn places_differ(entries: Seq<StandingEntry>) -> bool {
    forall|i: int, j: int|
        0 <= i < j <= entries.len() ==> #[trigger] place_of(entries, i) != #[trigger] place_of(
            entries,
            j,
        )
}

/// What one call sees of the entries it comes to, and what the visitor says to those
/// that it is shown.
pub struct VisitCall {
    pub looks: spec_fn(int) -> VisitSeen,
    pub answers: spec_fn(int) -> bool,
}

impl VisitCall {
    /// A call sees an entry as it is, unless there is no room for it.
    pub open spec fn sees(self, entry: StandingEntry, index: int) -> bool {
        let seen = (self.looks)(index);
        names::is_normal(entry.name) ==> match seen.within_budget {
            None => false,
            Some(false) => true,
            Some(true) => match visiting(entry.name, seen) {
                Step::Done(VisitVerdict::Skip) => entry.leads_out,
                Step::Done(VisitVerdict::Show { .. }) => !entry.leads_out,
                _ => false,
            },
        }
    }

    pub open spec fn sees_all(self, entries: Seq<StandingEntry>) -> bool {
        forall|i: int| 0 <= i < entries.len() ==> #[trigger] self.sees(entries[i], i)
    }

    pub open spec fn has_room_for(self, index: int) -> bool {
        (self.looks)(index).within_budget == Some(true)
    }

    /// The first entry that a call asks room for gets it.
    pub open spec fn has_room_for_one(self, entries: Seq<StandingEntry>, from: int) -> bool {
        forall|i: int|
            from <= i < entries.len() && names::is_normal((#[trigger] entries[i]).name) && (forall|
                j: int,
            |
                from <= j < i ==> !names::is_normal((#[trigger] entries[j]).name))
                ==> self.has_room_for(i)
    }

    /// What becomes of an entry.
    pub open spec fn verdict(self, entries: Seq<StandingEntry>, index: int) -> VisitVerdict {
        visiting(entries[index].name, (self.looks)(index))->Done_0
    }

    /// A visit that goes on at an entry, from the place that was noted last: which
    /// entries are shown, and how far it comes.
    pub open spec fn run(
        self,
        entries: Seq<StandingEntry>,
        index: int,
        place: DirectoryCursor,
    ) -> (Seq<int>, Result<DirectoryVisitProgress, IoFailure>)
        decreases entries.len() - index,
    {
        if index >= entries.len() {
            (Seq::empty(), Ok(DirectoryVisitProgress::Complete))
        } else {
            let verdict = self.verdict(entries, index);
            let shown = if verdict is Show {
                seq![index]
            } else {
                Seq::empty()
            };
            let (behind, flow) = noted(
                place,
                verdict,
                Ok((self.answers)(index)),
                entries[index].next,
            );
            match flow {
                VisitFlow::Return(progress) => (shown, progress),
                VisitFlow::Continue => {
                    let rest = self.run(entries, index + 1, behind);
                    (shown + rest.0, rest.1)
                },
            }
        }
    }

    /// The entry that a visit stops before.
    pub open spec fn stop(self, entries: Seq<StandingEntry>, index: int) -> int
        decreases entries.len() - index,
    {
        if index >= entries.len() {
            index
        } else {
            let verdict = self.verdict(entries, index);
            if verdict is Pause {
                index
            } else if verdict is Show && !(self.answers)(index) {
                index + 1
            } else {
                self.stop(entries, index + 1)
            }
        }
    }
}

/// The entries to show from one entry up to another.
pub open spec fn shown_between(entries: Seq<StandingEntry>, from: int, to: int) -> Seq<int>
    decreases to - from,
{
    if from >= to {
        Seq::empty()
    } else if entries[from].is_shown() {
        seq![from] + shown_between(entries, from + 1, to)
    } else {
        shown_between(entries, from + 1, to)
    }
}

proof fn lemma_shown_between_joins(entries: Seq<StandingEntry>, from: int, middle: int, to: int)
    requires
        from <= middle <= to,
    ensures
        shown_between(entries, from, middle) + shown_between(entries, middle, to)
            == shown_between(entries, from, to),
    decreases middle - from,
{
    if from < middle {
        lemma_shown_between_joins(entries, from + 1, middle, to);
    }
    assert(shown_between(entries, from, middle) + shown_between(entries, middle, to)
        =~= shown_between(entries, from, to));
}

proof fn lemma_shown_between_is_exact(entries: Seq<StandingEntry>, from: int, to: int)
    requires
        0 <= from <= to <= entries.len(),
    ensures
        shown_between(entries, from, to).no_duplicates(),
        forall|i: int| #[trigger]
            shown_between(entries, from, to).contains(i) <==> from <= i < to
                && entries[i].is_shown(),
    decreases to - from,
{
    if from < to {
        lemma_shown_between_is_exact(entries, from + 1, to);
        let all = shown_between(entries, from, to);
        let rest = shown_between(entries, from + 1, to);
        if entries[from].is_shown() {
            assert(all == seq![from] + rest);
            assert forall|i: int| #[trigger] all.contains(i) <==> i == from || rest.contains(
                i,
            ) by {
                if rest.contains(i) {
                    let k = choose|k: int| 0 <= k < rest.len() && rest[k] == i;
                    assert(all[k + 1] == i);
                }
                if i == from {
                    assert(all[0] == i);
                }
                if all.contains(i) && i != from {
                    let k = choose|k: int| 0 <= k < all.len() && all[k] == i;
                    assert(rest[k - 1] == i);
                }
            }
            assert forall|a: int, b: int|
                0 <= a < all.len() && 0 <= b < all.len() && a != b implies all[a] != all[b] by {
                if a > 0 {
                    assert(rest.contains(rest[a - 1]));
                }
                if b > 0 {
                    assert(rest.contains(rest[b - 1]));
                }
            }
        }
    }
}

proof fn lemma_runs_show_what_they_pass(
    call: VisitCall,
    entries: Seq<StandingEntry>,
    index: int,
)
    requires
        call.sees_all(entries),
        0 <= index <= entries.len(),
    ensures
        ({
            let stop = call.stop(entries, index);
            let (shown, progress) = call.run(entries, index, place_of(entries, index));
            &&& index <= stop <= entries.len()
            &&& shown == shown_between(entries, index, stop)
            &&& progress == Ok::<DirectoryVisitProgress, IoFailure>(
                DirectoryVisitProgress::Complete,
            ) ==> stop == entries.len()
            &&& progress == Ok::<DirectoryVisitProgress, IoFailure>(
                DirectoryVisitProgress::Complete,
            ) || progress == Ok::<DirectoryVisitProgress, IoFailure>(
                DirectoryVisitProgress::Paused(place_of(entries, stop)),
            )
            &&& forall|i: int| #[trigger]
                shown.contains(i) ==> 0 <= i < entries.len() && call.has_room_for(i)
        }),
    decreases entries.len() - index,
{
    if index < entries.len() {
        assert(call.sees(entries[index], index));
        lemma_runs_show_what_they_pass(call, entries, index + 1);
        let stop = call.stop(entries, index);
        let (shown, progress) = call.run(entries, index, place_of(entries, index));
        let (later, _) = call.run(entries, index + 1, place_of(entries, index + 1));
        let verdict = call.verdict(entries, index);
        if verdict is Show && !(call.answers)(index) {
            assert(shown_between(entries, index + 1, index + 1) =~= Seq::<int>::empty());
            assert(shown =~= shown_between(entries, index, stop));
        } else if verdict is Show {
            assert(shown == seq![index] + later);
        } else if verdict is Skip {
            assert(shown =~= later);
        }
        assert forall|i: int| #[trigger] shown.contains(i) implies 0 <= i < entries.len()
            && call.has_room_for(i) by {
            let k = choose|k: int| 0 <= k < shown.len() && shown[k] == i;
            if i != index {
                if verdict is Show {
                    assert(later[k - 1] == i);
                } else {
                    assert(later[k] == i);
                }
                assert(later.contains(i));
            }
        }
    }
}

proof fn lemma_runs_with_room_move_on(call: VisitCall, entries: Seq<StandingEntry>, index: int)
    requires
        call.sees_all(entries),
        0 <= index < entries.len(),
        call.has_room_for_one(entries, index),
    ensures
        call.stop(entries, index) > index,
{
    assert(call.sees(entries[index], index));
    lemma_runs_show_what_they_pass(call, entries, index + 1);
    if names::is_normal(entries[index].name) {
        assert(call.has_room_for(index));
    }
}

/// The entry that a call starts at: the first one at first, and then the one that the
/// call before it stopped before.
pub open spec fn start_of(entries: Seq<StandingEntry>, calls: Seq<VisitCall>, index: int) -> int
    decreases index,
{
    if index <= 0 {
        0
    } else {
        calls[index - 1].stop(entries, start_of(entries, calls, index - 1))
    }
}

/// What a call comes to that starts where the one before it was paused.
pub open spec fn call_result(
    entries: Seq<StandingEntry>,
    calls: Seq<VisitCall>,
    index: int,
) -> (Seq<int>, Result<DirectoryVisitProgress, IoFailure>) {
    let start = start_of(entries, calls, index);
    calls[index].run(entries, start, place_of(entries, start))
}

/// The entries that the first calls have shown together.
pub open spec fn shown_by(entries: Seq<StandingEntry>, calls: Seq<VisitCall>, count: int) -> Seq<int>
    decreases count,
{
    if count <= 0 {
        Seq::empty()
    } else {
        shown_by(entries, calls, count - 1) + call_result(entries, calls, count - 1).0
    }
}

proof fn lemma_calls_show_what_they_pass(
    entries: Seq<StandingEntry>,
    calls: Seq<VisitCall>,
    count: int,
)
    requires
        forall|k: int| 0 <= k < calls.len() ==> (#[trigger] calls[k]).sees_all(entries),
        0 <= count <= calls.len(),
    ensures
        0 <= start_of(entries, calls, count) <= entries.len(),
        shown_by(entries, calls, count) == shown_between(
            entries,
            0,
            start_of(entries, calls, count),
        ),
    decreases count,
{
    if count > 0 {
        lemma_calls_show_what_they_pass(entries, calls, count - 1);
        let start = start_of(entries, calls, count - 1);
        let stop = start_of(entries, calls, count);
        lemma_runs_show_what_they_pass(calls[count - 1], entries, start);
        lemma_shown_between_joins(entries, 0, start, stop);
    }
}

/// The calls that visit a directory in pieces, each going on where the one before it
/// was paused, show every entry exactly once, but for the directory itself, the one
/// above it and what leads out of the root. The directory stays as it is meanwhile.
pub proof fn law_pieces_show_every_entry_once(entries: Seq<StandingEntry>, calls: Seq<VisitCall>)
    requires
        forall|k: int| 0 <= k < calls.len() ==> (#[trigger] calls[k]).sees_all(entries),
        calls.len() > 0,
        call_result(entries, calls, calls.len() - 1).1 == Ok::<DirectoryVisitProgress, IoFailure>(
            DirectoryVisitProgress::Complete,
        ),
    ensures
        ({
            let shown = shown_by(entries, calls, calls.len() as int);
            &&& shown.no_duplicates()
            &&& forall|i: int| #[trigger]
                shown.contains(i) <==> 0 <= i < entries.len() && entries[i].is_shown()
        }),
{
    let last = calls.len() - 1;
    lemma_calls_show_what_they_pass(entries, calls, last);
    lemma_calls_show_what_they_pass(entries, calls, last + 1);
    lemma_runs_show_what_they_pass(calls[last], entries, start_of(entries, calls, last));
    lemma_shown_between_is_exact(entries, 0, entries.len() as int);
}

/// A call that is paused tells the place of the entry that the next call starts at. It
/// is another place than the one it was given, where there was room for one entry. An
/// entry that there was no room for is not shown by that call.
pub proof fn law_paused_calls_have_moved_on(
    entries: Seq<StandingEntry>,
    calls: Seq<VisitCall>,
    index: int,
    cursor: DirectoryCursor,
)
    requires
        places_differ(entries),
        forall|k: int| 0 <= k < calls.len() ==> (#[trigger] calls[k]).sees_all(entries),
        0 <= index < calls.len(),
        call_result(entries, calls, index).1 == Ok::<DirectoryVisitProgress, IoFailure>(
            DirectoryVisitProgress::Paused(cursor),
        ),
    ensures
        ({
            let start = start_of(entries, calls, index);
            &&& cursor == place_of(entries, start_of(entries, calls, index + 1))
            &&& calls[index].has_room_for_one(entries, start) ==> cursor != place_of(entries, start)
            &&& forall|i: int| #[trigger]
                call_result(entries, calls, index).0.contains(i) ==> calls[index].has_room_for(i)
        }),
{
    let start = start_of(entries, calls, index);
    lemma_calls_show_what_they_pass(entries, calls, index);
    lemma_runs_show_what_they_pass(calls[index], entries, start);
    if calls[index].has_room_for_one(entries, start) {
        lemma_runs_with_room_move_on(calls[index], entries, start);
    }
}

/// Tells a symbolic link by the type that a directory gives; only an unknown type
/// has to be looked up.
pub fn directory_entry_is_symlink(file_type: FileType) -> (known: Option<bool>)
    ensures
        known == (match file_type {
            FileType::Symlink => Some(true),
            FileType::Unknown => None,
            _ => Some(false),
        }),
{
    match file_type {
        FileType::Symlink => Some(true),
        FileType::Unknown => None,
        _ => Some(false),
    }
}

/// An entry that there is room for and that opens inside of the root is shown as it is,
/// and so is a link that leads nowhere but can be opened itself.
pub proof fn law_entries_inside_the_root_are_shown(
    name: Seq<u8>,
    seen: VisitSeen,
    entry: ExistingReplacementTarget,
)
    requires
        name != seq![46u8],
        name != seq![46u8, 46u8],
        seen.within_budget == Some(true),
        seen.entry == Some(Ok::<ExistingReplacementTarget, IoFailure>(entry)),
        (seen.target matches Some(Ok(_))) || (entry.file_type == FileType::Symlink && (
        seen.target matches Some(Err(failure)) && failure.kind == IoErrorKind::NotFound
            && !failure.escapes()) && (seen.link matches Some(Ok(_)))),
    ensures
        (seen.metadata matches Some(Ok(_))) ==> visiting(name, seen) == VisitStep::Done(
            VisitVerdict::Show {
                is_symlink: entry.file_type == FileType::Symlink,
                revision: entry,
            },
        ),
        seen.metadata is None ==> visiting(name, seen) == VisitStep::Ask(VisitProbe::ReadMetadata),
{
}

/// Each end of a visit without a showing has its cause: a skipped entry is a dot, a
/// double dot or leads out of the root, one that waits found no room, and a failure was
/// met.
pub proof fn law_ends_of_visits_have_their_cause(name: Seq<u8>, seen: VisitSeen)
    ensures
        visiting(name, seen) matches VisitStep::Done(verdict) ==> match verdict {
            VisitVerdict::Skip => name == seq![46u8] || name == seq![46u8, 46u8] || (
            seen.target matches Some(Err(failure)) && failure.escapes()),
            VisitVerdict::Pause => seen.within_budget == Some(false),
            VisitVerdict::Failed(failure) => seen.entry == Some(
                Err::<ExistingReplacementTarget, IoFailure>(failure),
            ) || seen.target == Some(Err::<(), IoFailure>(failure)) || seen.link == Some(
                Err::<(), IoFailure>(failure),
            ) || seen.metadata == Some(Err::<(), IoFailure>(failure)),
            VisitVerdict::Show { is_symlink, revision } => is_symlink == (revision.file_type
                == FileType::Symlink),
        },
        name == seq![46u8] || name == seq![46u8, 46u8] ==> visiting(name, seen)
            == VisitStep::Done(VisitVerdict::Skip),
        visiting(name, seen) matches VisitStep::Ask(probe) ==> match probe {
            VisitProbe::Budget => seen.within_budget is None,
            VisitProbe::Inspect => seen.entry is None,
            VisitProbe::OpenTarget => seen.target is None,
            VisitProbe::OpenLink => seen.link is None && (seen.target matches Some(Err(_))),
            VisitProbe::ReadMetadata => seen.metadata is None,
        },
{
}

/// A visit goes on later behind the entries that it has dealt with, and before one that
/// had to wait or failed. It goes on at once just where nobody asked it to stop.
pub proof fn law_visits_resume_behind_what_is_done(
    place: DirectoryCursor,
    verdict: VisitVerdict,
    go_on: Result<bool, IoFailure>,
    next: DirectoryCursor,
)
    ensures
        verdict is Skip || verdict is Show ==> noted(place, verdict, go_on, next).0 == next,
        verdict is Pause || verdict is Failed ==> noted(place, verdict, go_on, next).0 == place,
        noted(place, verdict, go_on, next).1 is Continue <==> verdict is Skip || (verdict is Show
            && go_on == Ok::<bool, IoFailure>(true)),
        verdict is Pause ==> noted(place, verdict, go_on, next).1 == VisitFlow::Return(
            Ok(DirectoryVisitProgress::Paused(place)),
        ),
        verdict is Show && go_on == Ok::<bool, IoFailure>(false) ==> noted(
            place,
            verdict,
            go_on,
            next,
        ).1 == VisitFlow::Return(Ok(DirectoryVisitProgress::Paused(next))),
        verdict matches VisitVerdict::Failed(failure) ==> noted(place, verdict, go_on, next).1
            == VisitFlow::Return(Err(failure)),
        verdict is Show ==> (go_on matches Err(failure) ==> noted(place, verdict, go_on, next).1
            == VisitFlow::Return(Err(failure))),
{
    if let Ok(b) = go_on {
        assert(b ==> go_on == Ok::<bool, IoFailure>(true));
        assert(!b ==> go_on == Ok::<bool, IoFailure>(false));
    }
}

} // verus!
