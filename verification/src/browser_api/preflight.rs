//! Looking at upload targets before anything is sent.
use crate::browser_api::relocation;
use crate::browser_api::relocation::{resolve_browser_path, Inspected};
use crate::browser_api::{UPLOAD_PREFLIGHT_PATH_BYTES_LIMIT, UPLOAD_PREFLIGHT_PATH_LIMIT};
use crate::io_error::{IoErrorKind, IoFailure, ERROR_CROSS_DEVICE, ERROR_LOOP, ERROR_NAME_TOO_LONG};
use crate::path_policy::PathPolicy;
use crate::paths::LexicalPath;
use crate::problem;
use crate::problem::{render_problem, ApiError, ApiErrorView, ErrorCode, RecoveryAdvice};
use crate::response::Response;
use crate::revision::TargetRevision;
use crate::rooted_fs::identity::{FileType, ReplacementTargetIdentity};
use crate::steps;
use crate::steps::{Check, Step};
use crate::text;
use crate::text::str_eq;
use vstd::prelude::*;
use vstd::string::*;
use vstd::utf8::*;

verus! {

/// Why an upload preflight is refused.
#[derive(Clone, Copy, Debug, Eq, PartialEq, Structural)]
pub enum PreflightRefusal {
    InvalidJson,
    WrongPathCount,
    PathsTooLong,
    RepeatedPath,
    TooManyRequests,
    InvalidPath,
    ReservedPath,
}

impl PreflightRefusal {
    pub open spec fn error(self) -> ApiErrorView {
        match self {
            PreflightRefusal::InvalidJson => ApiErrorView::new(
                400,
                ErrorCode::InvalidJson,
                "Invalid upload preflight JSON"@,
            ),
            PreflightRefusal::WrongPathCount => ApiErrorView::new(
                413,
                ErrorCode::RequestBodyTooLarge,
                "Upload preflight must contain between 1 and 512 paths"@,
            ),
            PreflightRefusal::PathsTooLong => ApiErrorView::new(
                413,
                ErrorCode::RequestBodyTooLarge,
                "Upload preflight paths exceed the 256 KiB limit"@,
            ),
            PreflightRefusal::RepeatedPath => ApiErrorView::new(
                400,
                ErrorCode::InvalidRequest,
                "Upload preflight paths must be unique"@,
            ),
            PreflightRefusal::TooManyRequests => ApiErrorView::new(
                429,
                ErrorCode::UploadPreflightConcurrencyLimit,
                "Too many upload preflight requests are running"@,
            ).with_recovery(RecoveryAdvice::RetryAfterSeconds(1)),
            PreflightRefusal::InvalidPath => ApiErrorView::new(
                400,
                ErrorCode::InvalidPath,
                "Upload preflight contains an invalid path"@,
            ),
            PreflightRefusal::ReservedPath => ApiErrorView::new(
                400,
                ErrorCode::InvalidPath,
                "Upload preflight contains a reserved path"@,
            ),
        }
    }

    /// Answers an upload preflight with the refusal.
    pub fn respond(self, response: &mut Response)
        ensures
            final(response)@ == problem::problem_response(old(response)@, self.error()),
    {
        let error = match self {
            PreflightRefusal::InvalidJson => ApiError::new(
                400,
                ErrorCode::InvalidJson,
                "Invalid upload preflight JSON",
            ),
            PreflightRefusal::WrongPathCount => ApiError::new(
                413,
                ErrorCode::RequestBodyTooLarge,
                "Upload preflight must contain between 1 and 512 paths",
            ),
            PreflightRefusal::PathsTooLong => ApiError::new(
                413,
                ErrorCode::RequestBodyTooLarge,
                "Upload preflight paths exceed the 256 KiB limit",
            ),
            PreflightRefusal::RepeatedPath => ApiError::new(
                400,
                ErrorCode::InvalidRequest,
                "Upload preflight paths must be unique",
            ),
            PreflightRefusal::TooManyRequests => ApiError::new(
                429,
                ErrorCode::UploadPreflightConcurrencyLimit,
                "Too many upload preflight requests are running",
            ).with_recovery(RecoveryAdvice::RetryAfterSeconds(1)),
            PreflightRefusal::InvalidPath => ApiError::new(
                400,
                ErrorCode::InvalidPath,
                "Upload preflight contains an invalid path",
            ),
            PreflightRefusal::ReservedPath => ApiError::new(
                400,
                ErrorCode::InvalidPath,
                "Upload preflight contains a reserved path",
            ),
        };
        render_problem(response, &error);
    }
}

/// The bytes of all paths of a list.
pub open spec fn total_bytes(paths: Seq<Seq<char>>) -> nat
    decreases paths.len(),
{
    if paths.len() == 0 {
        0
    } else {
        total_bytes(paths.drop_last()) + encode_utf8(paths.last()).len()
    }
}

/// What is wrong with the first path of a list with which something is wrong: all
/// paths up to it are too long, or it repeats an earlier one.
pub open spec fn first_fault(paths: Seq<Seq<char>>) -> Option<PreflightRefusal>
    decreases paths.len(),
{
    if paths.len() == 0 {
        None
    } else if first_fault(paths.drop_last()) is Some {
        first_fault(paths.drop_last())
    } else if total_bytes(paths) > UPLOAD_PREFLIGHT_PATH_BYTES_LIMIT {
        Some(PreflightRefusal::PathsTooLong)
    } else if paths.drop_last().contains(paths.last()) {
        Some(PreflightRefusal::RepeatedPath)
    } else {
        None
    }
}

pub open spec fn list_fault(paths: Seq<Seq<char>>) -> Option<PreflightRefusal> {
    if paths.len() == 0 || paths.len() > UPLOAD_PREFLIGHT_PATH_LIMIT {
        Some(PreflightRefusal::WrongPathCount)
    } else {
        first_fault(paths)
    }
}

fn repeats(paths: &Vec<String>, index: usize) -> (found: bool)
    requires
        index < paths@.len(),
    ensures
        found == text::texts(paths@).subrange(0, index as int).contains(paths@[index as int]@),
{
    let ghost earlier = text::texts(paths@).subrange(0, index as int);
    let mut other: usize = 0;
    while other < index
        invariant
            other <= index,
            index < paths@.len(),
            earlier == text::texts(paths@).subrange(0, index as int),
            forall|i: int| 0 <= i < other ==> #[trigger] earlier[i] != paths@[index as int]@,
        decreases index - other,
    {
        assert(earlier[other as int] == paths@[other as int]@);
        if str_eq(paths[other].as_str(), paths[index].as_str()) {
            return true;
        }
        other += 1;
    }
    false
}

proof fn lemma_fault_is_final(paths: Seq<Seq<char>>, length: int)
    requires
        0 <= length <= paths.len(),
        first_fault(paths.subrange(0, length)) is Some,
    ensures
        first_fault(paths) == first_fault(paths.subrange(0, length)),
    decreases paths.len() - length,
{
    if length < paths.len() {
        let longer = paths.subrange(0, length + 1);
        assert(longer.drop_last() =~= paths.subrange(0, length));
        lemma_fault_is_final(paths, length + 1);
    } else {
        assert(paths.subrange(0, length) =~= paths);
    }
}

/// Checks the list of paths of an upload preflight.
pub fn check_preflight_list(paths: &Vec<String>) -> (result: Result<(), PreflightRefusal>)
    ensures
        match result {
            Ok(_) => list_fault(text::texts(paths@)) is None,
            Err(refusal) => list_fault(text::texts(paths@)) == Some(refusal),
        },
{
    if paths.len() == 0 || paths.len() > UPLOAD_PREFLIGHT_PATH_LIMIT {
        return Err(PreflightRefusal::WrongPathCount);
    }
    let ghost all = text::texts(paths@);
    let mut total: usize = 0;
    let mut index: usize = 0;
    while index < paths.len()
        invariant
            all == text::texts(paths@),
            index <= paths@.len(),
            0 < paths@.len() <= UPLOAD_PREFLIGHT_PATH_LIMIT,
            total == total_bytes(all.subrange(0, index as int)),
            total <= UPLOAD_PREFLIGHT_PATH_BYTES_LIMIT,
            first_fault(all.subrange(0, index as int)) is None,
        decreases paths@.len() - index,
    {
        let ghost longer = all.subrange(0, index + 1);
        proof {
            assert(longer.drop_last() =~= all.subrange(0, index as int));
            assert(longer.last() == paths@[index as int]@);
        }
        total = match total.checked_add(paths[index].as_str().as_bytes().len()) {
            Some(sum) => {
                if sum > UPLOAD_PREFLIGHT_PATH_BYTES_LIMIT {
                    proof {
                        lemma_fault_is_final(all, index + 1);
                    }
                    return Err(PreflightRefusal::PathsTooLong);
                }
                sum
            },
            None => {
                proof {
                    lemma_fault_is_final(all, index + 1);
                }
                return Err(PreflightRefusal::PathsTooLong);
            },
        };
        if repeats(paths, index) {
            proof {
                lemma_fault_is_final(all, index + 1);
            }
            return Err(PreflightRefusal::RepeatedPath);
        }
        index += 1;
    }
    assert(all.subrange(0, index as int) =~= all);
    Ok(())
}

/// What is concluded from a look at a directory on the way to a target.
#[derive(Clone, Copy, Debug, Eq, PartialEq, Structural)]
pub enum AncestorStep {
    /// Whether the way is barred.
    Barred(bool),
    /// Look at the name itself.
    LookAtLink,
    /// Nothing is there: look at the directory above.
    GoUp,
    Fail(IoFailure),
}

pub open spec fn is_absent(failure: IoFailure) -> bool {
    failure.missing() || failure.loops()
}

/// The deepest entry on the way to a target must be a directory.
pub open spec fn ancestor_step(
    followed: Result<bool, IoFailure>,
    link: Option<Result<(), IoFailure>>,
) -> AncestorStep {
    match followed {
        Ok(is_directory) => AncestorStep::Barred(!is_directory),
        Err(failure) => if is_absent(failure) {
            match link {
                None => AncestorStep::LookAtLink,
                Some(Ok(_)) => AncestorStep::Barred(true),
                Some(Err(failure)) => if is_absent(failure) {
                    AncestorStep::GoUp
                } else if failure.escapes() {
                    AncestorStep::Barred(true)
                } else {
                    AncestorStep::Fail(failure)
                },
            }
        } else if failure.escapes() {
            AncestorStep::Barred(true)
        } else {
            AncestorStep::Fail(failure)
        },
    }
}

/// Judges one directory on the way to an upload target.
pub fn upload_preflight_ancestor(
    followed: &Result<bool, IoFailure>,
    link: &Option<Result<(), IoFailure>>,
) -> (step: AncestorStep)
    ensures
        step == ancestor_step(*followed, *link),
{
    let failure = match followed {
        Ok(is_directory) => return AncestorStep::Barred(!*is_directory),
        Err(failure) => *failure,
    };
    if failure.is_missing() || failure.is_loop() {
        return match link {
            None => AncestorStep::LookAtLink,
            Some(Ok(_)) => AncestorStep::Barred(true),
            Some(Err(failure)) => {
                if failure.is_missing() || failure.is_loop() {
                    AncestorStep::GoUp
                } else if failure.is_escape() {
                    AncestorStep::Barred(true)
                } else {
                    AncestorStep::Fail(*failure)
                }
            },
        };
    }
    if failure.is_escape() {
        AncestorStep::Barred(true)
    } else {
        AncestorStep::Fail(failure)
    }
}

/// The directory to look at after one where nothing was. The way ends at the root.
pub fn next_ancestor(current: &LexicalPath, root: &LexicalPath) -> (above: Option<LexicalPath>)
    ensures
        above is Some <==> current@ != root@ && current@.len() > 0,
        above matches Some(above) ==> above@ == current@.drop_last(),
{
    if current.equals(root) {
        return None;
    }
    current.parent()
}

/// What a preflight looks at next for one path.
#[derive(Clone, Copy, Debug, Eq, PartialEq, Structural)]
pub enum PreflightProbe {
    /// Whether the path is one of the platform's or below one, or above one where
    /// those are protected as well.
    Platform { protect_ancestors: bool },
    /// What the path leads to.
    Route,
    /// Whether the way to the target is barred.
    Ancestors,
    /// Whether the path leaves the root.
    Escape,
    /// The target itself.
    Inspect,
}

/// What a preflight has seen so far of one path.
#[derive(Clone, Copy)]
pub struct PreflightSeen {
    pub is_platform: Option<Result<bool, IoFailure>>,
    /// Whether the path leads to anything.
    pub target: Option<Result<bool, IoFailure>>,
    pub barred: Option<Result<bool, IoFailure>>,
    pub escapes: Option<Result<bool, IoFailure>>,
    pub inspected: Option<Result<Inspected, IoFailure>>,
}

impl PreflightSeen {
    pub fn new() -> (seen: PreflightSeen)
        ensures
            seen == (PreflightSeen {
                is_platform: None,
                target: None,
                barred: None,
                escapes: None,
                inspected: None,
            }),
    {
        PreflightSeen {
            is_platform: None,
            target: None,
            barred: None,
            escapes: None,
            inspected: None,
        }
    }
}

/// How the preflight of one path ends.
#[derive(Clone, Copy, Debug, Eq, PartialEq, Structural)]
pub enum PreflightVerdict {
    Refuse(PreflightRefusal),
    Fail(IoFailure),
    /// The target can be told of.
    Listed(Inspected),
}

pub type PreflightCheck = Check<PreflightProbe, PreflightVerdict>;

pub type PreflightStep = Step<PreflightProbe, PreflightVerdict>;

/// What a look says, where a path that cannot be used at all counts as a yes.
pub open spec fn answer(seen: Result<bool, IoFailure>) -> Result<bool, IoFailure> {
    match seen {
        Ok(so) => Ok(so),
        Err(failure) => if failure.unusable_path() {
            Ok(true)
        } else {
            Err(failure)
        },
    }
}

fn read_answer(seen: &Result<bool, IoFailure>) -> (result: Result<bool, IoFailure>)
    ensures
        result == answer(*seen),
{
    match seen {
        Ok(so) => Ok(*so),
        Err(failure) => {
            if failure.is_invalid_preflight_path_error() {
                Ok(true)
            } else {
                Err(*failure)
            }
        },
    }
}

pub open spec fn path_is_not_reserved(seen: PreflightSeen) -> PreflightCheck {
    match seen.is_platform {
        None => Check::Ask(PreflightProbe::Platform { protect_ancestors: true }),
        Some(found) => match answer(found) {
            Ok(false) => Check::Pass,
            Ok(true) => Check::Stop(PreflightVerdict::Refuse(PreflightRefusal::ReservedPath)),
            Err(failure) => Check::Stop(PreflightVerdict::Fail(failure)),
        },
    }
}

pub open spec fn route_is_known(seen: PreflightSeen) -> PreflightCheck {
    match seen.target {
        None => Check::Ask(PreflightProbe::Route),
        Some(Ok(_)) => Check::Pass,
        Some(Err(failure)) => if failure.unusable_path() {
            Check::Stop(PreflightVerdict::Refuse(PreflightRefusal::InvalidPath))
        } else {
            Check::Stop(PreflightVerdict::Fail(failure))
        },
    }
}

pub open spec fn answered(
    seen: Option<Result<bool, IoFailure>>,
    probe: PreflightProbe,
) -> PreflightCheck {
    match seen {
        None => Check::Ask(probe),
        Some(found) => match answer(found) {
            Ok(_) => Check::Pass,
            Err(failure) => Check::Stop(PreflightVerdict::Fail(failure)),
        },
    }
}

/// The way to the target is open, and the target is below the root. A target that
/// is there is known to be.
pub open spec fn way_is_open(seen: PreflightSeen) -> PreflightCheck {
    let there = seen.target == Some(Ok::<bool, IoFailure>(true));
    let barred = seen.barred matches Some(found) && answer(found) == Ok::<bool, IoFailure>(true);
    let escapes = seen.escapes matches Some(found) && answer(found) == Ok::<bool, IoFailure>(true);
    answered(seen.barred, PreflightProbe::Ancestors).followed_by(
        if there {
            Check::Pass
        } else {
            answered(seen.escapes, PreflightProbe::Escape)
        },
    ).followed_by(
        steps::stop_if(
            barred || (!there && escapes),
            PreflightVerdict::Refuse(PreflightRefusal::InvalidPath),
        ),
    )
}

/// The checks of one path, in order.
pub open spec fn preflight_checks(
    policy: PathPolicy,
    root_path: Option<Seq<Seq<u8>>>,
    seen: PreflightSeen,
) -> PreflightCheck {
    let usable: PreflightCheck = match root_path {
        Some(path) if !policy.protects(path) => Check::Pass,
        _ => Check::Stop(PreflightVerdict::Refuse(PreflightRefusal::InvalidPath)),
    };
    let inspected: PreflightCheck = match seen.inspected {
        None => Check::Ask(PreflightProbe::Inspect),
        Some(Ok(_)) => Check::Pass,
        Some(Err(failure)) => Check::Stop(PreflightVerdict::Fail(failure)),
    };
    usable.followed_by(path_is_not_reserved(seen)).followed_by(route_is_known(seen)).followed_by(
        way_is_open(seen),
    ).followed_by(inspected)
}

/// How the preflight of one path ends that nothing speaks against.
pub open spec fn listed(seen: PreflightSeen) -> PreflightVerdict {
    PreflightVerdict::Listed(seen.inspected->Some_0->Ok_0)
}

/// Decides the preflight of one path: what to look at next, or how it ends. The
/// path is there if it can be named by a mutation.
pub fn handle_upload_preflight_path(
    policy: &PathPolicy,
    path: &Option<LexicalPath>,
    seen: &PreflightSeen,
) -> (step: PreflightStep)
    ensures
        step == preflight_checks(
            *policy,
            match *path {
                Some(path) => Some(path@),
                None => None,
            },
            *seen,
        ).otherwise(listed(*seen)),
{
    let usable = match path {
        Some(path) => !policy.protects_platform_namespace(path),
        None => false,
    };
    if !usable {
        return Step::Done(PreflightVerdict::Refuse(PreflightRefusal::InvalidPath));
    }
    match &seen.is_platform {
        None => return Step::Ask(PreflightProbe::Platform { protect_ancestors: true }),
        Some(found) => match read_answer(found) {
            Ok(false) => {},
            Ok(true) => return Step::Done(
                PreflightVerdict::Refuse(PreflightRefusal::ReservedPath),
            ),
            Err(failure) => return Step::Done(PreflightVerdict::Fail(failure)),
        },
    }
    let there = match seen.target {
        None => return Step::Ask(PreflightProbe::Route),
        Some(Ok(there)) => there,
        Some(Err(failure)) => {
            if failure.is_invalid_preflight_path_error() {
                return Step::Done(PreflightVerdict::Refuse(PreflightRefusal::InvalidPath));
            }
            return Step::Done(PreflightVerdict::Fail(failure));
        },
    };
    let barred = match &seen.barred {
        None => return Step::Ask(PreflightProbe::Ancestors),
        Some(found) => match read_answer(found) {
            Ok(barred) => barred,
            Err(failure) => return Step::Done(PreflightVerdict::Fail(failure)),
        },
    };
    let escapes = if there {
        false
    } else {
        match &seen.escapes {
            None => return Step::Ask(PreflightProbe::Escape),
            Some(found) => match read_answer(found) {
                Ok(escapes) => escapes,
                Err(failure) => return Step::Done(PreflightVerdict::Fail(failure)),
            },
        }
    };
    if barred || escapes {
        return Step::Done(PreflightVerdict::Refuse(PreflightRefusal::InvalidPath));
    }
    match seen.inspected {
        None => Step::Ask(PreflightProbe::Inspect),
        Some(Ok(inspected)) => Step::Done(PreflightVerdict::Listed(inspected)),
        Some(Err(failure)) => Step::Done(PreflightVerdict::Fail(failure)),
    }
}

/// What a preflight of many paths looks at or does next.
#[derive(Clone, Copy, Debug, Eq, PartialEq, Structural)]
pub enum BatchProbe {
    /// Take one of the places for preflights.
    TakePlace,
    /// A look at the path that is next.
    Look(PreflightProbe),
}

/// How a preflight of many paths goes on.
#[derive(Clone, Copy, Debug, Eq, PartialEq, Structural)]
pub enum BatchVerdict {
    Refuse(PreflightRefusal),
    Fail(IoFailure),
    /// The path that is next can be told of; after it, the one behind it is next.
    Listed(Inspected),
    /// All paths can be told of.
    AllListed,
}

pub type BatchStep = Step<BatchProbe, BatchVerdict>;

/// What a client is told of the target of an upload.
pub struct PreflightTarget {
    /// The path as the client wrote it.
    pub path: String,
    pub is_existing: bool,
    pub revision: Option<TargetRevision>,
    pub is_replaceable: bool,
}

pub struct TargetView {
    pub path: Seq<char>,
    pub is_existing: bool,
    pub revision: Option<TargetRevision>,
    pub is_replaceable: bool,
}

impl PreflightTarget {
    pub open spec fn view(self) -> TargetView {
        TargetView {
            path: self.path@,
            is_existing: self.is_existing,
            revision: self.revision,
            is_replaceable: self.is_replaceable,
        }
    }
}

/// What a client is told of a target that was inspected.
pub open spec fn told(path: Seq<char>, inspected: Inspected) -> TargetView {
    TargetView {
        path,
        is_existing: inspected.identity is Existing,
        revision: inspected.revision,
        is_replaceable: inspected.identity.replaceable(),
    }
}

pub open spec fn target_list(targets: Seq<PreflightTarget>) -> Seq<TargetView> {
    Seq::new(targets.len(), |i: int| targets[i]@)
}

/// The paths of a preflight, which are looked at one by one, and what is told of
/// those that were.
pub struct PreflightBatch {
    list: Vec<String>,
    targets: Vec<PreflightTarget>,
}

/// How a preflight goes on by what is found of the path that is next.
pub open spec fn batched(step: PreflightStep) -> BatchStep {
    match step {
        Step::Ask(probe) => Step::Ask(BatchProbe::Look(probe)),
        Step::Done(PreflightVerdict::Refuse(refusal)) => Step::Done(BatchVerdict::Refuse(refusal)),
        Step::Done(PreflightVerdict::Fail(failure)) => Step::Done(BatchVerdict::Fail(failure)),
        Step::Done(PreflightVerdict::Listed(inspected)) => Step::Done(
            BatchVerdict::Listed(inspected),
        ),
    }
}

impl PreflightBatch {
    pub closed spec fn paths(self) -> Seq<Seq<char>> {
        text::texts(self.list@)
    }

    /// What is told of the paths so far.
    pub closed spec fn targets(self) -> Seq<TargetView> {
        target_list(self.targets@)
    }

    /// How many paths can be told of.
    pub open spec fn done(self) -> nat {
        self.targets().len()
    }

    /// The paths make sense, and the first of them are told of in their order.
    pub open spec fn is_valid(self) -> bool {
        &&& list_fault(self.paths()) is None
        &&& self.done() <= self.paths().len()
        &&& forall|i: int|
            0 <= i < self.done() ==> (#[trigger] self.targets()[i]).path == self.paths()[i]
    }

    /// Starts with the paths of a request, unless something is wrong with them.
    pub fn start(paths: Vec<String>) -> (batch: Result<PreflightBatch, PreflightRefusal>)
        ensures
            match batch {
                Ok(batch) => batch.is_valid() && batch.paths() == text::texts(paths@)
                    && batch.targets() == Seq::<TargetView>::empty(),
                Err(refusal) => list_fault(text::texts(paths@)) == Some(refusal),
            },
    {
        match check_preflight_list(&paths) {
            Ok(()) => {
                let batch = PreflightBatch { list: paths, targets: Vec::new() };
                assert(batch.targets() =~= Seq::empty());
                Ok(batch)
            },
            Err(refusal) => Err(refusal),
        }
    }

    /// The path that is next, as the client wrote it.
    pub fn current(&self) -> (path: Option<&str>)
        requires
            self.is_valid(),
        ensures
            match path {
                None => self.done() == self.paths().len(),
                Some(path) => self.done() < self.paths().len() && path@ == self.paths()[self.done() as int],
            },
    {
        if self.targets.len() < self.list.len() {
            Some(self.list[self.targets.len()].as_str())
        } else {
            None
        }
    }

    /// Decides how the preflight goes on, by what has been seen of the path that is
    /// next. No path is looked at before there is a place for the preflight.
    pub fn handle_upload_preflight_paths(
        &self,
        policy: &PathPolicy,
        place: Option<bool>,
        seen: &PreflightSeen,
    ) -> (step: BatchStep)
        requires
            self.is_valid(),
        ensures
            step == (match place {
                None => BatchStep::Ask(BatchProbe::TakePlace),
                Some(false) => BatchStep::Done(
                    BatchVerdict::Refuse(PreflightRefusal::TooManyRequests),
                ),
                Some(true) => if self.done() == self.paths().len() {
                    BatchStep::Done(BatchVerdict::AllListed)
                } else {
                    batched(
                        preflight_checks(
                            *policy,
                            relocation::target_path(*policy, self.paths()[self.done() as int]),
                            *seen,
                        ).otherwise(listed(*seen)),
                    )
                },
            }),
    {
        match place {
            None => return Step::Ask(BatchProbe::TakePlace),
            Some(false) => return Step::Done(
                BatchVerdict::Refuse(PreflightRefusal::TooManyRequests),
            ),
            Some(true) => {},
        }
        let current = match self.current() {
            None => return Step::Done(BatchVerdict::AllListed),
            Some(current) => current,
        };
        let target = resolve_browser_path(policy, current);
        match handle_upload_preflight_path(policy, &target, seen) {
            Step::Ask(probe) => Step::Ask(BatchProbe::Look(probe)),
            Step::Done(PreflightVerdict::Refuse(refusal)) => Step::Done(
                BatchVerdict::Refuse(refusal),
            ),
            Step::Done(PreflightVerdict::Fail(failure)) => Step::Done(BatchVerdict::Fail(failure)),
            Step::Done(PreflightVerdict::Listed(inspected)) => Step::Done(
                BatchVerdict::Listed(inspected),
            ),
        }
    }

    /// Tells of the path that is next, and goes on behind it.
    pub fn advance(&mut self, inspected: Inspected)
        requires
            old(self).is_valid(),
            old(self).done() < old(self).paths().len(),
        ensures
            final(self).is_valid(),
            final(self).paths() == old(self).paths(),
            final(self).targets() == old(self).targets().push(
                told(old(self).paths()[old(self).done() as int], inspected),
            ),
    {
        let ghost before = *self;
        let path = self.list[self.targets.len()].clone();
        self.targets.push(
            PreflightTarget {
                path,
                is_existing: inspected.identity.is_existing(),
                revision: inspected.revision,
                is_replaceable: inspected.identity.is_replaceable(),
            },
        );
        assert(self.targets() =~= before.targets().push(
            told(before.paths()[before.done() as int], inspected),
        ));
    }

    /// What is told of all paths, in their order.
    pub fn into_targets(self) -> (targets: Vec<PreflightTarget>)
        requires
            self.is_valid(),
            self.done() == self.paths().len(),
        ensures
            target_list(targets@) == self.targets(),
            targets@.len() == self.paths().len(),
            forall|i: int|
                0 <= i < targets@.len() ==> (#[trigger] targets@[i])@.path == self.paths()[i],
    {
        assert forall|i: int| 0 <= i < self.targets@.len() implies (
        #[trigger] self.targets@[i])@.path == self.paths()[i] by {
            assert(self.targets()[i].path == self.paths()[i]);
        }
        self.targets
    }
}

/// A preflight that comes to its end tells of one target for each path, in the order
/// of the paths, and of no path twice.
pub proof fn law_preflights_tell_of_every_path(batch: PreflightBatch)
    requires
        batch.is_valid(),
        batch.done() == batch.paths().len(),
    ensures
        batch.targets().len() == batch.paths().len(),
        forall|i: int|
            0 <= i < batch.paths().len() ==> (#[trigger] batch.targets()[i]).path
                == batch.paths()[i],
        forall|i: int, j: int|
            0 <= i < j < batch.targets().len() ==> (#[trigger] batch.targets()[i]).path != (
            #[trigger] batch.targets()[j]).path,
{
    lemma_faultless_paths_are_unique(batch.paths());
}

/// A target is looked at only where its path is neither the platform's nor barred,
/// and does not leave the root.
pub proof fn law_inspected_targets_are_reachable(
    policy: PathPolicy,
    path: Option<Seq<Seq<u8>>>,
    seen: PreflightSeen,
)
    requires
        preflight_checks(policy, path, seen) == PreflightCheck::Ask(PreflightProbe::Inspect)
            || preflight_checks(policy, path, seen) is Pass,
    ensures
        path matches Some(path) && !policy.protects(path),
        seen.is_platform matches Some(Ok(false)),
        seen.barred matches Some(Ok(false)),
        seen.target matches Some(Ok(there)) && (there || (seen.escapes matches Some(Ok(false)))),
{
}

/// A list that is looked through has no path twice.
pub proof fn law_admitted_paths_are_unique(paths: Seq<Seq<char>>)
    requires
        list_fault(paths) is None,
    ensures
        paths.no_duplicates(),
        1 <= paths.len() <= UPLOAD_PREFLIGHT_PATH_LIMIT,
        total_bytes(paths) <= UPLOAD_PREFLIGHT_PATH_BYTES_LIMIT,
{
    lemma_faultless_paths_are_unique(paths);
}

proof fn lemma_faultless_paths_are_unique(paths: Seq<Seq<char>>)
    requires
        first_fault(paths) is None,
    ensures
        paths.no_duplicates(),
    decreases paths.len(),
{
    if paths.len() > 0 {
        let front = paths.drop_last();
        lemma_faultless_paths_are_unique(front);
        assert forall|i: int, j: int|
            0 <= i < paths.len() && 0 <= j < paths.len() && i != j implies paths[i]
            != paths[j] by {
            if i < front.len() {
                assert(front[i] == paths[i]);
            }
            if j < front.len() {
                assert(front[j] == paths[j]);
            }
        }
    }
}

/// A path that nothing speaks against is inspected, and told of as it was found,
/// whether or not anything is there yet: it can be named and is not protected, it is
/// not the platform's, the way to it is not barred, and where nothing is there it does
/// not leave the root.
pub proof fn law_open_paths_are_listed(
    policy: PathPolicy,
    path: Seq<Seq<u8>>,
    seen: PreflightSeen,
    there: bool,
)
    requires
        !policy.protects(path),
        seen.is_platform == Some(Ok::<bool, IoFailure>(false)),
        seen.target == Some(Ok::<bool, IoFailure>(there)),
        seen.barred == Some(Ok::<bool, IoFailure>(false)),
        there || seen.escapes == Some(Ok::<bool, IoFailure>(false)),
    ensures
        preflight_checks(policy, Some(path), seen).otherwise(listed(seen)) == (
        match seen.inspected {
            None => PreflightStep::Ask(PreflightProbe::Inspect),
            Some(Ok(inspected)) => PreflightStep::Done(PreflightVerdict::Listed(inspected)),
            Some(Err(failure)) => PreflightStep::Done(PreflightVerdict::Fail(failure)),
        }),
{
}

/// Each end of the preflight of a path has its cause. A path is reserved only where it
/// is the platform's; it is invalid only where it cannot be named, is protected, cannot
/// be used at all, is barred, or leads to nothing and leaves the root; and a failure is
/// one that was met.
pub proof fn law_preflight_ends_have_their_cause(
    policy: PathPolicy,
    path: Option<Seq<Seq<u8>>>,
    seen: PreflightSeen,
    verdict: PreflightVerdict,
)
    requires
        preflight_checks(policy, path, seen).otherwise(listed(seen)) == PreflightStep::Done(
            verdict,
        ),
    ensures
        match verdict {
            PreflightVerdict::Refuse(PreflightRefusal::ReservedPath) => seen.is_platform is Some && (
            match seen.is_platform->0 {
                Ok(so) => so,
                Err(failure) => failure.number == Some(ERROR_LOOP) || failure.number == Some(
                    ERROR_NAME_TOO_LONG,
                ),
            }),
            PreflightVerdict::Refuse(PreflightRefusal::InvalidPath) => {
                ||| path is None
                ||| policy.protects(path->0)
                ||| (seen.target matches Some(Err(failure)) && failure.unusable_path())
                ||| seen.barred == Some(Ok::<bool, IoFailure>(true))
                ||| (seen.barred matches Some(Err(failure)) && failure.unusable_path())
                ||| (seen.target == Some(Ok::<bool, IoFailure>(false)) && (seen.escapes == Some(
                    Ok::<bool, IoFailure>(true),
                ) || (seen.escapes matches Some(Err(failure)) && failure.unusable_path())))
            },
            PreflightVerdict::Refuse(_) => false,
            PreflightVerdict::Fail(failure) => {
                ||| seen.is_platform == Some(Err::<bool, IoFailure>(failure))
                ||| seen.target == Some(Err::<bool, IoFailure>(failure))
                ||| seen.barred == Some(Err::<bool, IoFailure>(failure))
                ||| seen.escapes == Some(Err::<bool, IoFailure>(failure))
                ||| seen.inspected == Some(Err::<Inspected, IoFailure>(failure))
            },
            PreflightVerdict::Listed(inspected) => seen.inspected == Some(
                Ok::<Inspected, IoFailure>(inspected),
            ),
        },
{
    if let Some(Ok(there)) = seen.target {
        assert(there ==> seen.target == Some(Ok::<bool, IoFailure>(true)));
        assert(!there ==> seen.target == Some(Ok::<bool, IoFailure>(false)));
    }
    if let Some(Ok(barred)) = seen.barred {
        assert(barred ==> seen.barred == Some(Ok::<bool, IoFailure>(true)));
    }
    if let Some(Ok(escapes)) = seen.escapes {
        assert(escapes ==> seen.escapes == Some(Ok::<bool, IoFailure>(true)));
    }
}

/// Only what is not known yet of a path is looked at, so that its preflight comes to an
/// end.
pub proof fn law_preflights_look_once(
    policy: PathPolicy,
    path: Option<Seq<Seq<u8>>>,
    seen: PreflightSeen,
    probe: PreflightProbe,
)
    requires
        preflight_checks(policy, path, seen).otherwise(listed(seen)) == PreflightStep::Ask(probe),
    ensures
        path matches Some(path) && !policy.protects(path),
        match probe {
            PreflightProbe::Platform { protect_ancestors } => protect_ancestors
                && seen.is_platform is None,
            PreflightProbe::Route => seen.target is None,
            PreflightProbe::Ancestors => seen.barred is None,
            PreflightProbe::Escape => seen.escapes is None && seen.target == Some(
                Ok::<bool, IoFailure>(false),
            ),
            PreflightProbe::Inspect => seen.inspected is None,
        },
{
    if let Some(Ok(there)) = seen.target {
        assert(there ==> seen.target == Some(Ok::<bool, IoFailure>(true)));
        assert(!there ==> seen.target == Some(Ok::<bool, IoFailure>(false)));
    }
    if let Some(Ok(barred)) = seen.barred {
        assert(barred ==> seen.barred == Some(Ok::<bool, IoFailure>(true)));
    }
    if let Some(Ok(escapes)) = seen.escapes {
        assert(escapes ==> seen.escapes == Some(Ok::<bool, IoFailure>(true)));
    }
}

/// The bytes of two lists add up, and those of one path are those of its encoding.
pub proof fn law_path_bytes_add_up(left: Seq<Seq<char>>, right: Seq<Seq<char>>)
    ensures
        total_bytes(left + right) == total_bytes(left) + total_bytes(right),
        left.len() == 1 ==> total_bytes(left) == encode_utf8(left[0]).len(),
        left.len() == 0 ==> total_bytes(left) == 0,
    decreases right.len(),
{
    if left.len() == 1 {
        assert(total_bytes(left.drop_last()) == 0);
    }
    if right.len() == 0 {
        assert(left + right =~= left);
    } else {
        assert((left + right).drop_last() =~= left + right.drop_last());
        law_path_bytes_add_up(left, right.drop_last());
    }
}

/// A list of paths is admitted where it has at least one path and not too many, all of
/// them together are not too long, and none of them stands in it twice.
pub proof fn law_sound_lists_are_admitted(paths: Seq<Seq<char>>)
    requires
        1 <= paths.len() <= 512,
        total_bytes(paths) <= 256 * 1024,
        paths.no_duplicates(),
    ensures
        list_fault(paths) is None,
{
    lemma_sound_lists_have_no_fault(paths);
}

proof fn lemma_sound_lists_have_no_fault(paths: Seq<Seq<char>>)
    requires
        total_bytes(paths) <= 256 * 1024,
        paths.no_duplicates(),
    ensures
        first_fault(paths) is None,
    decreases paths.len(),
{
    if paths.len() > 0 {
        let front = paths.drop_last();
        assert forall|i: int, j: int|
            0 <= i < front.len() && 0 <= j < front.len() && i != j implies front[i]
            != front[j] by {
            assert(front[i] == paths[i] && front[j] == paths[j]);
        }
        lemma_sound_lists_have_no_fault(front);
        if front.contains(paths.last()) {
            let i = choose|i: int| 0 <= i < front.len() && front[i] == paths.last();
            assert(paths[i] == paths[paths.len() - 1]);
        }
    }
}

/// What is said to be wrong with a list of paths is wrong with it.
pub proof fn law_list_faults_have_their_cause(paths: Seq<Seq<char>>)
    ensures
        match list_fault(paths) {
            None => true,
            Some(PreflightRefusal::WrongPathCount) => paths.len() == 0 || paths.len() > 512,
            Some(PreflightRefusal::PathsTooLong) => total_bytes(paths) > 256 * 1024,
            Some(PreflightRefusal::RepeatedPath) => !paths.no_duplicates(),
            Some(_) => false,
        },
{
    lemma_first_faults_have_their_cause(paths);
}

proof fn lemma_first_faults_have_their_cause(paths: Seq<Seq<char>>)
    ensures
        match first_fault(paths) {
            None => true,
            Some(PreflightRefusal::PathsTooLong) => total_bytes(paths) > 256 * 1024,
            Some(PreflightRefusal::RepeatedPath) => !paths.no_duplicates(),
            Some(_) => false,
        },
    decreases paths.len(),
{
    if paths.len() > 0 {
        let front = paths.drop_last();
        lemma_first_faults_have_their_cause(front);
        if first_fault(front) == Some(PreflightRefusal::RepeatedPath) {
            let (i, j) = choose|i: int, j: int|
                0 <= i < front.len() && 0 <= j < front.len() && i != j && front[i] == front[j];
            assert(paths[i] == paths[j]);
        } else if front.contains(paths.last()) {
            let i = choose|i: int| 0 <= i < front.len() && front[i] == paths.last();
            assert(paths[i] == paths[paths.len() - 1]);
        }
    }
}

/// The way to a target is barred by what is there and is no directory, by a link to
/// nothing, and where it leaves the root. It goes on upwards only where nothing is
/// there at all, and no other failure is passed over.
pub proof fn law_ways_are_barred_by_what_is_there(
    followed: Result<bool, IoFailure>,
    link: Option<Result<(), IoFailure>>,
)
    ensures
        followed == Ok::<bool, IoFailure>(true) ==> ancestor_step(followed, link)
            == AncestorStep::Barred(false),
        followed == Ok::<bool, IoFailure>(false) ==> ancestor_step(followed, link)
            == AncestorStep::Barred(true),
        ancestor_step(followed, link) == AncestorStep::Barred(false) ==> followed == Ok::<
            bool,
            IoFailure,
        >(true),
        ancestor_step(followed, link) == AncestorStep::GoUp ==> (followed matches Err(first) && (
        first.kind == IoErrorKind::NotFound || first.kind == IoErrorKind::NotADirectory
            || first.number == Some(ERROR_LOOP))) && (link matches Some(Err(second)) && (second.kind
            == IoErrorKind::NotFound || second.kind == IoErrorKind::NotADirectory || second.number
            == Some(ERROR_LOOP))),
        (followed matches Err(first) && first.missing()) && (link matches Some(Err(second))
            && second.missing()) ==> ancestor_step(followed, link) == AncestorStep::GoUp,
        (followed matches Err(first) && first.missing()) && link is None ==> ancestor_step(
            followed,
            link,
        ) == AncestorStep::LookAtLink,
        (followed matches Err(first) && first.missing()) && link == Some(Ok::<(), IoFailure>(()))
            ==> ancestor_step(followed, link) == AncestorStep::Barred(true),
        followed matches Err(first) ==> !first.missing() && !first.loops() ==> ancestor_step(
            followed,
            link,
        ) == (if first.number == Some(ERROR_CROSS_DEVICE) {
            AncestorStep::Barred(true)
        } else {
            AncestorStep::Fail(first)
        }),
        ancestor_step(followed, link) is LookAtLink ==> link is None,
{
}

/// What is told of a target is what was found of it.
pub proof fn law_targets_are_told_as_found(path: Seq<char>, inspected: Inspected)
    ensures
        told(path, inspected).path == path,
        told(path, inspected).revision == inspected.revision,
        told(path, inspected).is_existing <==> !(inspected.identity is Missing),
        told(path, inspected).is_replaceable <==> match inspected.identity {
            ReplacementTargetIdentity::Missing => true,
            ReplacementTargetIdentity::Existing(found) => found.file_type == FileType::Symlink || (
            found.file_type == FileType::RegularFile && found.links == 1 && found.mode & 0o6000
                == 0),
        },
{
}

/// Without a place no path is looked at, with one every path is; and the preflight is
/// over exactly when all paths are told of.
pub proof fn law_batches_follow_their_paths(step: PreflightStep)
    ensures
        step matches Step::Ask(probe) ==> batched(step) == BatchStep::Ask(BatchProbe::Look(probe)),
        batched(step) matches Step::Done(BatchVerdict::Listed(inspected)) ==> step
            == PreflightStep::Done(PreflightVerdict::Listed(inspected)),
        batched(step) matches Step::Done(BatchVerdict::Refuse(refusal)) ==> step
            == PreflightStep::Done(PreflightVerdict::Refuse(refusal)),
        batched(step) matches Step::Done(BatchVerdict::Fail(failure)) ==> step
            == PreflightStep::Done(PreflightVerdict::Fail(failure)),
        batched(step) != BatchStep::Done(BatchVerdict::AllListed),
        batched(step) != BatchStep::Ask(BatchProbe::TakePlace),
{
}

/// Each refusal of a preflight has its status, and only the one for want of a place
/// says when to come back.
pub proof fn law_preflight_refusals_have_their_status(refusal: PreflightRefusal)
    ensures
        refusal.error().status == (match refusal {
            PreflightRefusal::WrongPathCount | PreflightRefusal::PathsTooLong => 413u16,
            PreflightRefusal::TooManyRequests => 429u16,
            _ => 400u16,
        }),
        refusal.error().code == (match refusal {
            PreflightRefusal::InvalidJson => ErrorCode::InvalidJson,
            PreflightRefusal::WrongPathCount => ErrorCode::RequestBodyTooLarge,
            PreflightRefusal::PathsTooLong => ErrorCode::RequestBodyTooLarge,
            PreflightRefusal::RepeatedPath => ErrorCode::InvalidRequest,
            PreflightRefusal::TooManyRequests => ErrorCode::UploadPreflightConcurrencyLimit,
            PreflightRefusal::InvalidPath | PreflightRefusal::ReservedPath => ErrorCode::InvalidPath,
        }),
{
}

} // verus!
