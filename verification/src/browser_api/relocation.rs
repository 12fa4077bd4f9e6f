//! Moving and renaming entries.
use crate::browser_api;
use crate::browser_api::{
    is_single_browser_name, logical_child, render_rejected, Refusal, RevisionField, RevisionHeader,
};
use crate::io_error::{IoErrorKind, IoFailure};
use crate::operation_registry::{OperationOutcome, TrackedOperationError};
use crate::path_policy;
use crate::path_policy::PathPolicy;
use crate::paths::LexicalPath;
use crate::problem::{ApiError, ApiErrorView, ErrorCode, OperationPublicState, RecoveryAdvice};
use crate::response::Response;
use crate::revision::TargetRevision;
use crate::rooted_fs::identity::ReplacementTargetIdentity;
use crate::rooted_fs::rename::CheckedRelocationOutcome;
use crate::steps;
use crate::steps::{Check, Step};
use crate::text;
use vstd::prelude::*;
use vstd::string::*;
use vstd::utf8::*;

verus! {

/// Whether an entry gets another directory or another name.
#[derive(Clone, Copy, Debug, Eq, PartialEq, Structural)]
pub enum RelocationKind {
    Move,
    Rename,
}

impl RelocationKind {
    pub fn verb(self) -> (verb: &'static str)
        ensures
            verb@ == (match self {
                RelocationKind::Move => "move"@,
                RelocationKind::Rename => "rename"@,
            }),
    {
        match self {
            RelocationKind::Move => "move",
            RelocationKind::Rename => "rename",
        }
    }

    pub open spec fn invalid_path(self) -> TrackedOperationError {
        match self {
            RelocationKind::Move => TrackedOperationError::InvalidMovePath,
            RelocationKind::Rename => TrackedOperationError::InvalidRenamePath,
        }
    }

    pub fn invalid_path_error(self) -> (error: TrackedOperationError)
        ensures
            error == self.invalid_path(),
    {
        match self {
            RelocationKind::Move => TrackedOperationError::InvalidMovePath,
            RelocationKind::Rename => TrackedOperationError::InvalidRenamePath,
        }
    }

    pub open spec fn state_conflict(self) -> TrackedOperationError {
        match self {
            RelocationKind::Move => TrackedOperationError::MoveStateConflict,
            RelocationKind::Rename => TrackedOperationError::RenameStateConflict,
        }
    }

    pub fn state_conflict_error(self) -> (error: TrackedOperationError)
        ensures
            error == self.state_conflict(),
    {
        match self {
            RelocationKind::Move => TrackedOperationError::MoveStateConflict,
            RelocationKind::Rename => TrackedOperationError::RenameStateConflict,
        }
    }

    pub open spec fn unavailable_code(self) -> ErrorCode {
        match self {
            RelocationKind::Move => ErrorCode::MoveStateUnavailable,
            RelocationKind::Rename => ErrorCode::RenameStateUnavailable,
        }
    }

    pub fn state_unavailable_code(self) -> (code: ErrorCode)
        ensures
            code == self.unavailable_code(),
    {
        match self {
            RelocationKind::Move => ErrorCode::MoveStateUnavailable,
            RelocationKind::Rename => ErrorCode::RenameStateUnavailable,
        }
    }

    pub open spec fn unavailable_detail(self) -> Seq<char> {
        match self {
            RelocationKind::Move => "Move safety state is temporarily unavailable"@,
            RelocationKind::Rename => "Rename safety state is temporarily unavailable"@,
        }
    }

    pub fn state_unavailable_detail(self) -> (detail: &'static str)
        ensures
            detail@ == self.unavailable_detail(),
    {
        match self {
            RelocationKind::Move => "Move safety state is temporarily unavailable",
            RelocationKind::Rename => "Rename safety state is temporarily unavailable",
        }
    }
}

/// Answers where the durable state could not be looked at. Nothing has been
/// changed, so the request can be repeated.
pub fn render_relocation_state_unavailable(
    kind: RelocationKind,
    operation_id: Option<u128>,
    response: &mut Response,
)
    ensures
        final(response)@ == browser_api::api_error_response(
            old(response)@,
            ApiErrorView::new(503, kind.unavailable_code(), kind.unavailable_detail()).with_recovery(
                RecoveryAdvice::RetryAfterSeconds(1),
            ),
            operation_id,
        ),
{
    let error = ApiError::new(
        503,
        kind.state_unavailable_code(),
        kind.state_unavailable_detail(),
    ).with_recovery(RecoveryAdvice::RetryAfterSeconds(1));
    render_rejected(response, error, operation_id);
}

/// A relocation whose paths have been read.
pub struct RelocationRequest {
    pub source: LexicalPath,
    pub destination: LexicalPath,
    pub destination_directory: LexicalPath,
    pub source_revision: RevisionField,
    pub destination_revision: RevisionField,
    pub overwrite: bool,
    pub kind: RelocationKind,
}

/// Where the last slash of a logical path stands.
pub open spec fn last_slash(path: Seq<char>) -> int {
    path.index_of_last('/')->0
}

/// What stands after the last slash of a logical path.
pub open spec fn last_name(path: Seq<char>) -> Seq<char> {
    path.subrange(last_slash(path) + 1, path.len() as int)
}

/// What stands before the last slash of a logical path; the root, if nothing
/// does.
pub open spec fn parent_of(path: Seq<char>) -> Seq<char> {
    if last_slash(path) == 0 {
        "/"@
    } else {
        path.subrange(0, last_slash(path))
    }
}

/// Splits a logical path at its last slash.
fn split_last(path: &str) -> (parts: (String, String))
    requires
        path@.contains('/'),
    ensures
        parts.0@ == path@.subrange(0, last_slash(path@)),
        parts.1@ == last_name(path@),
{
    let mut read = String::new();
    let mut parent = String::new();
    let mut name = String::new();
    let ghost mut at: int = -1;
    for character in it: path.chars()
        invariant
            it.seq() == path@,
            read@ == path@.subrange(0, it.index() as int),
            -1 <= at < it.index(),
            forall|i: int| at < i < it.index() ==> #[trigger] path@[i] != '/',
            at >= 0 ==> path@[at] == '/' && parent@ == path@.subrange(0, at),
            name@ == path@.subrange(at + 1, it.index() as int),
    {
        let ghost index = it.index() as int;
        if character == '/' {
            parent = read.clone();
            name = String::new();
            proof {
                at = index;
            }
            assert(name@ =~= path@.subrange(at + 1, index + 1));
        } else {
            name.push(character);
            assert(name@ =~= path@.subrange(at + 1, index + 1));
        }
        read.push(character);
        assert(read@ =~= path@.subrange(0, index + 1));
    }
    proof {
        path@.index_of_last_ensures('/');
        let last = last_slash(path@);
        if at < last {
            assert(path@[last] != '/');
        }
        assert(at == last);
    }
    (parent, name)
}

/// The path of what a mutation names.
pub open spec fn target_path(policy: PathPolicy, value: Seq<char>) -> Option<Seq<Seq<u8>>> {
    if policy.is_browser_target(value) {
        Some(policy.root() + path_policy::encoded_names(policy.target_names(value)))
    } else {
        None
    }
}

pub(crate) fn resolve_browser_path(policy: &PathPolicy, path: &str) -> (target: Option<LexicalPath>)
    ensures
        target is Some <==> target_path(*policy, path@) is Some,
        target matches Some(target) ==> target_path(*policy, path@) == Some(target@),
{
    match policy.parse_browser_target(path) {
        Some(target) => Some(target.into_path_buf()),
        None => None,
    }
}

/// The paths of a move or a rename.
pub struct RelocationPaths {
    pub source: LexicalPath,
    pub destination: LexicalPath,
    pub destination_directory: LexicalPath,
}

/// Why a move names no paths, if it names none.
pub open spec fn move_fault(policy: PathPolicy, source: Seq<char>, directory: Seq<char>) -> Option<
    TrackedOperationError,
> {
    if target_path(policy, source) is None {
        Some(TrackedOperationError::InvalidSourcePath)
    } else if !policy.is_list_target(directory) {
        Some(TrackedOperationError::InvalidDestinationPath)
    } else if target_path(policy, browser_api::child_path(directory, last_name(source))) is None {
        Some(TrackedOperationError::InvalidDestinationPath)
    } else {
        None
    }
}

/// Reads the paths of a move: the entry keeps its name and gets another
/// directory.
pub fn handle_api_move(policy: &PathPolicy, source: &str, directory: &str) -> (paths: Result<
    RelocationPaths,
    TrackedOperationError,
>)
    ensures
        match paths {
            Err(error) => move_fault(*policy, source@, directory@) == Some(error),
            Ok(paths) => {
                &&& move_fault(*policy, source@, directory@) is None
                &&& target_path(*policy, source@) == Some(paths.source@)
                &&& target_path(
                    *policy,
                    browser_api::child_path(directory@, last_name(source@)),
                ) == Some(paths.destination@)
                &&& paths.destination_directory@ == policy.list_target(directory@)
                &&& paths.source@.len() > policy.root().len()
                &&& paths.destination@ == paths.destination_directory@.push(paths.source@.last())
            },
        },
{
    let source_path = match resolve_browser_path(policy, source) {
        Some(path) => path,
        None => return Err(TrackedOperationError::InvalidSourcePath),
    };
    let destination_directory = match policy.parse_list_target(directory) {
        Some(path) => path.into_path_buf(),
        None => return Err(TrackedOperationError::InvalidDestinationPath),
    };
    assert(source@.contains('/')) by {
        assert(source@[0] == '/');
    }
    let (_, name) = split_last(source);
    match resolve_browser_path(policy, logical_child(directory, name.as_str()).as_str()) {
        Some(destination) => {
            proof {
                law_moves_keep_the_name(*policy, source@, directory@);
                lemma_targets_end_with_their_name(*policy, source@);
            }
            Ok(RelocationPaths { source: source_path, destination, destination_directory })
        },
        None => Err(TrackedOperationError::InvalidDestinationPath),
    }
}

/// Why a rename names no paths, if it names none.
pub open spec fn rename_fault(policy: PathPolicy, source: Seq<char>, name: Seq<char>) -> Option<
    TrackedOperationError,
> {
    if target_path(policy, source) is None {
        Some(TrackedOperationError::InvalidSourcePath)
    } else if !browser_api::is_one_name(name) {
        Some(TrackedOperationError::InvalidRenameName)
    } else if target_path(policy, browser_api::child_path(parent_of(source), name)) is None {
        Some(TrackedOperationError::InvalidRenameName)
    } else {
        None
    }
}

/// Reads the paths of a rename: the entry stays in its directory and gets
/// another name.
pub fn handle_api_rename(policy: &PathPolicy, source: &str, name: &str) -> (paths: Result<
    RelocationPaths,
    TrackedOperationError,
>)
    ensures
        match paths {
            Err(error) => rename_fault(*policy, source@, name@) == Some(error),
            Ok(paths) => {
                &&& rename_fault(*policy, source@, name@) is None
                &&& target_path(*policy, source@) == Some(paths.source@)
                &&& target_path(
                    *policy,
                    browser_api::child_path(parent_of(source@), name@),
                ) == Some(paths.destination@)
                &&& paths.destination_directory@ == paths.source@.drop_last()
                &&& paths.source@.len() > policy.root().len()
                &&& paths.destination@ == paths.source@.drop_last().push(encode_utf8(name@))
            },
        },
{
    let source_path = match resolve_browser_path(policy, source) {
        Some(path) => path,
        None => return Err(TrackedOperationError::InvalidSourcePath),
    };
    if !is_single_browser_name(name) {
        return Err(TrackedOperationError::InvalidRenameName);
    }
    assert(source@.contains('/')) by {
        assert(source@[0] == '/');
    }
    let (parent, _) = split_last(source);
    let directory = if parent.as_str().is_empty() {
        String::from_str("/")
    } else {
        parent
    };
    proof {
        source@.index_of_last_ensures('/');
    }
    let destination = match resolve_browser_path(
        policy,
        logical_child(directory.as_str(), name).as_str(),
    ) {
        Some(destination) => destination,
        None => return Err(TrackedOperationError::InvalidRenameName),
    };
    match source_path.parent() {
        Some(destination_directory) => {
            proof {
                law_renames_stay_in_their_directory(*policy, source@, name@);
                lemma_targets_end_with_their_name(*policy, source@);
            }
            Ok(RelocationPaths { source: source_path, destination, destination_directory })
        },
        None => {
            proof {
                text::lemma_split_has_a_piece(source@.drop_first(), '/');
            }
            Err(TrackedOperationError::InvalidSourcePath)
        },
    }
}

/// The names of a path and one more.
proof fn lemma_child_names(policy: PathPolicy, directory: Seq<char>, name: Seq<char>)
    requires
        directory == "/"@ || (directory.len() > 1 && directory[0] == '/'),
        !name.contains('/'),
    ensures
        policy.target_names(browser_api::child_path(directory, name)) == (if directory == "/"@ {
            seq![name]
        } else {
            policy.target_names(directory).push(name)
        }),
{
    reveal_strlit("/");
    let child = browser_api::child_path(directory, name);
    if directory == "/"@ {
        assert(child.drop_first() =~= Seq::<char>::empty() + name);
        text::lemma_split_keeps_earlier(Seq::<char>::empty(), name, '/');
        assert(Seq::<char>::empty() + name =~= name);
        assert(text::split_pieces(name, '/') =~= seq![name]);
    } else {
        let inner = directory.drop_first();
        let head = inner.push('/');
        assert(child.drop_first() =~= head + name);
        assert(head.drop_last() =~= inner);
        text::lemma_split_keeps_earlier(head, name, '/');
        assert(Seq::<char>::empty() + name =~= name);
        assert(text::split_pieces(head + name, '/') =~= text::split_pieces(inner, '/').push(name));
    }
}

/// A logical path is its parent and its last name.
proof fn lemma_path_parts(policy: PathPolicy, path: Seq<char>)
    requires
        path.len() > 1,
        path[0] == '/',
    ensures
        !last_name(path).contains('/'),
        parent_of(path) == "/"@ || (parent_of(path).len() > 1 && parent_of(path)[0] == '/')
            || path[1] == '/',
        browser_api::child_path(parent_of(path), last_name(path)) == path || parent_of(path)
            == "/"@,
        last_slash(path) == 0 ==> browser_api::child_path(parent_of(path), last_name(path)) == path,
{
    reveal_strlit("/");
    path.index_of_last_ensures('/');
    assert(path.contains('/'));
    let at = last_slash(path);
    assert forall|i: int| 0 <= i < last_name(path).len() implies last_name(path)[i] != '/' by {
        assert(last_name(path)[i] == path[at + 1 + i]);
    }
    assert(browser_api::child_path(parent_of(path), last_name(path)) =~= path || parent_of(path)
        == "/"@);
    if at == 0 {
        assert(browser_api::child_path(parent_of(path), last_name(path)) =~= path);
    }
    if at == 1 {
        assert(path[1] == '/');
    }
}

/// A rename keeps an entry in its directory, under the new name.
pub proof fn law_renames_stay_in_their_directory(
    policy: PathPolicy,
    source: Seq<char>,
    name: Seq<char>,
)
    requires
        rename_fault(policy, source, name) is None,
    ensures
        target_path(policy, browser_api::child_path(parent_of(source), name)) == Some(
            (target_path(policy, source)->0).drop_last().push(encode_utf8(name)),
        ),
{
    reveal_strlit("/");
    let parent = parent_of(source);
    let names = policy.target_names(source);
    source.index_of_last_ensures('/');
    assert(source.contains('/'));
    lemma_path_parts(policy, source);
    text::lemma_split_has_a_piece(source.drop_first(), '/');
    if source[1] == '/' && last_slash(source) >= 1 {
        // A name would be empty, which no target has.
        lemma_empty_first_name(source);
        assert(names[0].len() == 0);
        assert(!path_policy::is_usable_name(names[0]));
    }
    if last_slash(source) == 0 {
        lemma_child_names(policy, "/"@, last_name(source));
        lemma_child_names(policy, "/"@, name);
    } else {
        let inner = source.subrange(0, last_slash(source));
        if inner == "/"@ {
            assert(source[1] == '/');
        }
        lemma_child_names(policy, inner, last_name(source));
        lemma_child_names(policy, inner, name);
    }
    let renamed = policy.target_names(browser_api::child_path(parent, name));
    assert(renamed =~= names.drop_last().push(name));
    assert(policy.root() + path_policy::encoded_names(renamed) =~= (policy.root()
        + path_policy::encoded_names(names)).drop_last().push(encode_utf8(name)));
}

/// The last name of a target is the one behind its last slash.
proof fn lemma_targets_end_with_their_name(policy: PathPolicy, source: Seq<char>)
    requires
        policy.is_browser_target(source),
    ensures
        policy.target_names(source).len() > 0,
        policy.target_names(source).last() == last_name(source),
        (policy.root() + path_policy::encoded_names(policy.target_names(source))).last()
            == encode_utf8(last_name(source)),
        (policy.root() + path_policy::encoded_names(policy.target_names(source))).len()
            > policy.root().len(),
{
    reveal_strlit("/");
    let names = policy.target_names(source);
    source.index_of_last_ensures('/');
    assert(source.contains('/'));
    lemma_path_parts(policy, source);
    text::lemma_split_has_a_piece(source.drop_first(), '/');
    if source[1] == '/' && last_slash(source) >= 1 {
        lemma_empty_first_name(source);
        assert(names[0].len() == 0);
        assert(!path_policy::is_usable_name(names[0]));
    }
    if last_slash(source) == 0 {
        lemma_child_names(policy, "/"@, last_name(source));
    } else {
        let inner = source.subrange(0, last_slash(source));
        if inner == "/"@ {
            assert(source[1] == '/');
        }
        lemma_child_names(policy, inner, last_name(source));
    }
    assert(path_policy::encoded_names(names).last() == encode_utf8(names.last()));
}

/// A path that goes on with a slash after its first one has an empty first name.
proof fn lemma_empty_first_name(path: Seq<char>)
    requires
        path.len() > 1,
        path[1] == '/',
    ensures
        text::split_pieces(path.drop_first(), '/')[0].len() == 0,
    decreases path.len(),
{
    let inner = path.drop_first();
    if inner.len() == 1 {
        assert(inner.drop_last() =~= Seq::<char>::empty());
        assert(text::split_pieces(inner.drop_last(), '/') == seq![Seq::<char>::empty()]);
    } else {
        let shorter = path.drop_last();
        assert(shorter.drop_first() =~= inner.drop_last());
        lemma_empty_first_name(shorter);
        lemma_first_piece_grows_last(inner);
    }
}

proof fn lemma_first_piece_grows_last(text: Seq<char>)
    requires
        text.len() > 1,
        text[0] == '/',
        text::split_pieces(text.drop_last(), '/')[0].len() == 0,
    ensures
        text::split_pieces(text, '/')[0].len() == 0,
{
    let pieces = text::split_pieces(text.drop_last(), '/');
    lemma_leading_separator_splits(text.drop_last());
    assert(pieces.len() >= 2);
}

proof fn lemma_leading_separator_splits(text: Seq<char>)
    requires
        text.len() > 0,
        text[0] == '/',
    ensures
        text::split_pieces(text, '/').len() >= 2,
    decreases text.len(),
{
    if text.len() == 1 {
        assert(text.drop_last() =~= Seq::<char>::empty());
        assert(text::split_pieces(text.drop_last(), '/') == seq![Seq::<char>::empty()]);
    } else {
        lemma_leading_separator_splits(text.drop_last());
    }
}

/// A move keeps the name of an entry, in the directory that it names.
pub proof fn law_moves_keep_the_name(
    policy: PathPolicy,
    source: Seq<char>,
    directory: Seq<char>,
)
    requires
        move_fault(policy, source, directory) is None,
    ensures
        target_path(policy, browser_api::child_path(directory, last_name(source))) == Some(
            policy.list_target(directory).push(encode_utf8(last_name(source))),
        ),
{
    reveal_strlit("/");
    lemma_path_parts(policy, source);
    lemma_child_names(policy, directory, last_name(source));
    let moved = policy.target_names(browser_api::child_path(directory, last_name(source)));
    assert(policy.root() + path_policy::encoded_names(moved) =~= policy.list_target(
        directory,
    ).push(encode_utf8(last_name(source))));
}

/// What is known of an entry that is not followed.
#[derive(Clone, Copy, Debug, Eq, PartialEq, Structural)]
pub struct NodeMetadata {
    pub is_directory: bool,
    pub device: u64,
    pub inode: u64,
}

/// An entry as a client confirms it: what it is, and its current revision.
#[derive(Clone, Copy, Debug, Eq, PartialEq, Structural)]
pub struct Inspected {
    pub identity: ReplacementTargetIdentity,
    pub revision: Option<TargetRevision>,
}

/// What a relocation looks at or does next.
#[derive(Clone, Copy, Debug, Eq, PartialEq, Structural)]
pub enum RelocationProbe {
    /// Take the paths of the source and the destination.
    TakePaths,
    InspectSource,
    /// Whether the source leaves the root.
    SourceEscape,
    DestinationEscape,
    /// Whether the source is one of the platform's paths or below one, or above one
    /// where those are protected as well.
    SourcePlatform { protect_ancestors: bool },
    DestinationPlatform { protect_ancestors: bool },
    StatSource,
    StatDirectory,
    InspectDestination,
    StatDestination,
    /// Whether the destination leaves the root, just before the commit.
    DestinationEscapeAgain,
    /// Whether the durable state has claims on the paths.
    StateConflict,
    /// Relocate the entry if nothing changed, and record the outcome.
    Commit,
    /// After a commit that found the source changed: its current revision.
    InspectSourceAgain,
    /// After a commit that found the destination changed: its current revision.
    InspectDestinationAgain,
}

/// What a relocation has seen so far.
#[derive(Clone, Copy)]
pub struct RelocationSeen {
    pub paths: Option<bool>,
    pub source: Option<Result<Inspected, IoFailure>>,
    pub source_escapes: Option<Result<bool, IoFailure>>,
    pub destination_escapes: Option<Result<bool, IoFailure>>,
    pub source_is_platform: Option<Result<bool, IoFailure>>,
    pub destination_is_platform: Option<Result<bool, IoFailure>>,
    pub source_node: Option<Result<NodeMetadata, IoFailure>>,
    /// Whether the destination directory is a directory.
    pub directory: Option<Result<bool, IoFailure>>,
    pub destination: Option<Result<Inspected, IoFailure>>,
    pub destination_node: Option<Result<NodeMetadata, IoFailure>>,
    pub destination_escapes_again: Option<Result<bool, IoFailure>>,
    /// Whether the durable state has claims, unless that could not be told.
    pub conflict: Option<Option<bool>>,
    pub committed: Option<Result<CheckedRelocationOutcome, IoFailure>>,
    /// The current revision, unless that could not be told.
    pub again: Option<Option<Option<TargetRevision>>>,
}

impl RelocationSeen {
    pub open spec fn nothing() -> RelocationSeen {
        RelocationSeen {
            paths: None,
            source: None,
            source_escapes: None,
            destination_escapes: None,
            source_is_platform: None,
            destination_is_platform: None,
            source_node: None,
            directory: None,
            destination: None,
            destination_node: None,
            destination_escapes_again: None,
            conflict: None,
            committed: None,
            again: None,
        }
    }

    pub fn new() -> (seen: RelocationSeen)
        ensures
            seen == RelocationSeen::nothing(),
    {
        RelocationSeen {
            paths: None,
            source: None,
            source_escapes: None,
            destination_escapes: None,
            source_is_platform: None,
            destination_is_platform: None,
            source_node: None,
            directory: None,
            destination: None,
            destination_node: None,
            destination_escapes_again: None,
            conflict: None,
            committed: None,
            again: None,
        }
    }
}

/// How a relocation ends.
#[derive(Clone, Copy, Debug, Eq, PartialEq, Structural)]
pub enum RelocationVerdict {
    /// The request is refused: the operation is completed as failed, and nothing
    /// was changed.
    Refuse(Refusal),
    /// There is no path to take; the operation is given up.
    NoPath,
    /// The durable state could not be looked at; the operation is given up.
    StateUnavailable,
    /// The filesystem failed.
    Fail(IoFailure),
    /// The commit found that it must not relocate, and recorded that.
    Failed(Refusal),
    Relocated,
}

pub type RelocationCheck = Check<RelocationProbe, RelocationVerdict>;

pub type RelocationStep = Step<RelocationProbe, RelocationVerdict>;

pub open spec fn refused(status: u16, error: TrackedOperationError) -> RelocationCheck {
    Check::Stop(RelocationVerdict::Refuse(Refusal::plain(status, error)))
}

/// The revisions that a client confirms: of the source always, of the
/// destination exactly where it is to be overwritten.
pub open spec fn revisions_are_given(request: RelocationRequest) -> RelocationCheck {
    match (request.source_revision, request.overwrite, request.destination_revision) {
        (RevisionField::Invalid, _, _) => refused(400, TrackedOperationError::InvalidSourceRevision),
        (RevisionField::Absent, _, _) => refused(
            428,
            TrackedOperationError::SourceRevisionRequired,
        ),
        (RevisionField::Valid(_), false, RevisionField::Absent) => Check::Pass,
        (RevisionField::Valid(_), false, _) => refused(
            400,
            TrackedOperationError::InvalidDestinationRevision,
        ),
        (RevisionField::Valid(_), true, RevisionField::Absent) => refused(
            428,
            TrackedOperationError::DestinationRevisionRequired,
        ),
        (RevisionField::Valid(_), true, RevisionField::Invalid) => refused(
            400,
            TrackedOperationError::InvalidDestinationRevision,
        ),
        (RevisionField::Valid(_), true, RevisionField::Valid(_)) => Check::Pass,
    }
}

pub open spec fn paths_are_taken(seen: RelocationSeen) -> RelocationCheck {
    match seen.paths {
        None => Check::Ask(RelocationProbe::TakePaths),
        Some(true) => Check::Pass,
        Some(false) => Check::Stop(RelocationVerdict::NoPath),
    }
}

/// A look that must succeed.
pub open spec fn seen_well<T>(
    seen: Option<Result<T, IoFailure>>,
    probe: RelocationProbe,
) -> RelocationCheck {
    match seen {
        None => Check::Ask(probe),
        Some(Ok(_)) => Check::Pass,
        Some(Err(failure)) => Check::Stop(RelocationVerdict::Fail(failure)),
    }
}

/// A look that must succeed and find that something is not so.
pub open spec fn not_so(
    seen: Option<Result<bool, IoFailure>>,
    probe: RelocationProbe,
    kind: RelocationKind,
) -> RelocationCheck {
    match seen {
        None => Check::Ask(probe),
        Some(Ok(false)) => Check::Pass,
        Some(Ok(true)) => refused(400, kind.invalid_path()),
        Some(Err(failure)) => Check::Stop(RelocationVerdict::Fail(failure)),
    }
}

pub open spec fn source_is_confirmed(
    request: RelocationRequest,
    seen: RelocationSeen,
) -> RelocationCheck {
    let current = seen.source->0->Ok_0.revision;
    seen_well(seen.source, RelocationProbe::InspectSource).followed_by(
        steps::stop_if(
            current != Some(request.source_revision->Valid_0),
            RelocationVerdict::Refuse(
                Refusal {
                    status: 412,
                    error: TrackedOperationError::SourceChanged,
                    revision: RevisionHeader::Source(current),
                },
            ),
        ),
    )
}

pub open spec fn paths_stay_inside(
    request: RelocationRequest,
    seen: RelocationSeen,
) -> RelocationCheck {
    not_so(seen.source_escapes, RelocationProbe::SourceEscape, request.kind).followed_by(
        not_so(seen.destination_escapes, RelocationProbe::DestinationEscape, request.kind),
    ).followed_by(
        not_so(seen.source_is_platform, RelocationProbe::SourcePlatform { protect_ancestors: true }, request.kind),
    ).followed_by(
        not_so(seen.destination_is_platform, RelocationProbe::DestinationPlatform { protect_ancestors: true }, request.kind),
    )
}

pub open spec fn source_is_there(seen: RelocationSeen) -> RelocationCheck {
    match seen.source_node {
        None => Check::Ask(RelocationProbe::StatSource),
        Some(Ok(_)) => Check::Pass,
        Some(Err(failure)) => if failure.kind == IoErrorKind::NotFound {
            refused(404, TrackedOperationError::SourceNotFound)
        } else {
            Check::Stop(RelocationVerdict::Fail(failure))
        },
    }
}

/// A directory does not go into itself.
pub open spec fn goes_elsewhere(request: RelocationRequest, seen: RelocationSeen) -> RelocationCheck {
    if seen.source_node->0->Ok_0.is_directory && text::has_prefix(
        request.destination@,
        request.source@,
    ) {
        refused(409, TrackedOperationError::DirectoryIntoItself)
    } else {
        Check::Pass
    }
}

pub open spec fn directory_is_there(seen: RelocationSeen) -> RelocationCheck {
    match seen.directory {
        None => Check::Ask(RelocationProbe::StatDirectory),
        Some(Ok(true)) => Check::Pass,
        Some(Ok(false)) => refused(409, TrackedOperationError::DestinationNotDirectory),
        Some(Err(failure)) => if failure.missing() {
            refused(404, TrackedOperationError::DestinationDirectoryNotFound)
        } else {
            Check::Stop(RelocationVerdict::Fail(failure))
        },
    }
}

/// What is overwritten is what the client confirmed.
pub open spec fn destination_is_confirmed(
    request: RelocationRequest,
    seen: RelocationSeen,
) -> RelocationCheck {
    let current = seen.destination->0->Ok_0.revision;
    seen_well(seen.destination, RelocationProbe::InspectDestination).followed_by(
        steps::stop_if(
            request.overwrite && current != Some(request.destination_revision->Valid_0),
            RelocationVerdict::Refuse(
                Refusal {
                    status: 412,
                    error: TrackedOperationError::DestinationChanged,
                    revision: RevisionHeader::Target(current),
                },
            ),
        ),
    )
}

/// Nothing is overwritten but a file by another file, and only where that was
/// asked for.
pub open spec fn destination_can_be_taken(
    request: RelocationRequest,
    seen: RelocationSeen,
) -> RelocationCheck {
    let found = seen.destination->0->Ok_0;
    let source = seen.source_node->0->Ok_0;
    let node = seen.destination_node->0->Ok_0;
    if found.identity is Missing {
        Check::Pass
    } else {
        seen_well(seen.destination_node, RelocationProbe::StatDestination).followed_by(
            if source.is_directory || node.is_directory {
                refused(409, TrackedOperationError::DirectoryOverwriteForbidden)
            } else {
                Check::Pass
            },
        ).followed_by(
            steps::stop_if(
                !request.overwrite,
                RelocationVerdict::Refuse(
                    Refusal {
                        status: 409,
                        error: TrackedOperationError::DestinationExists,
                        revision: RevisionHeader::Target(found.revision),
                    },
                ),
            ),
        ).followed_by(
            if source.device == node.device && source.inode == node.inode {
                refused(409, TrackedOperationError::SourceEqualsDestination)
            } else {
                Check::Pass
            },
        )
    }
}

pub open spec fn state_has_no_claim(
    request: RelocationRequest,
    seen: RelocationSeen,
) -> RelocationCheck {
    match seen.conflict {
        None => Check::Ask(RelocationProbe::StateConflict),
        Some(Some(false)) => Check::Pass,
        Some(Some(true)) => refused(409, request.kind.state_conflict()),
        Some(None) => Check::Stop(RelocationVerdict::StateUnavailable),
    }
}

/// The checks before the commit, in order.
pub open spec fn commit_checks(
    policy: PathPolicy,
    request: RelocationRequest,
    seen: RelocationSeen,
) -> RelocationCheck {
    (if policy.protects(request.source@) || policy.protects(request.destination@) {
        refused(400, TrackedOperationError::InvalidPath)
    } else {
        Check::Pass
    }).followed_by(revisions_are_given(request)).followed_by(
        if request.source@ == request.destination@ {
            refused(400, TrackedOperationError::SourceEqualsDestination)
        } else {
            Check::Pass
        },
    ).followed_by(paths_are_taken(seen)).followed_by(
        source_is_confirmed(request, seen),
    ).followed_by(paths_stay_inside(request, seen)).followed_by(
        source_is_there(seen),
    ).followed_by(goes_elsewhere(request, seen)).followed_by(
        directory_is_there(seen),
    ).followed_by(destination_is_confirmed(request, seen)).followed_by(
        destination_can_be_taken(request, seen),
    ).followed_by(
        not_so(
            seen.destination_escapes_again,
            RelocationProbe::DestinationEscapeAgain,
            request.kind,
        ),
    ).followed_by(state_has_no_claim(request, seen))
}

/// How the outcome of a commit is told, apart from a current revision.
pub open spec fn failure_of(outcome: CheckedRelocationOutcome) -> Option<(u16, TrackedOperationError)> {
    match outcome {
        CheckedRelocationOutcome::Relocated => None,
        CheckedRelocationOutcome::DestinationExists => Some(
            (409, TrackedOperationError::DestinationExists),
        ),
        CheckedRelocationOutcome::SameFile => Some(
            (409, TrackedOperationError::SourceEqualsDestination),
        ),
        CheckedRelocationOutcome::SourceChanged => Some(
            (412, TrackedOperationError::SourceChanged),
        ),
        CheckedRelocationOutcome::DestinationChanged => Some(
            (412, TrackedOperationError::DestinationChanged),
        ),
    }
}

/// What is recorded of a commit.
pub fn commit_outcome(outcome: CheckedRelocationOutcome) -> (recorded: OperationOutcome)
    ensures
        match failure_of(outcome) {
            None => recorded.status() == 204 && recorded.state() == OperationPublicState::Succeeded
                && recorded.error() is None,
            Some((status, error)) => recorded.status() == status && recorded.state()
                == OperationPublicState::Failed && recorded.error() == Some(error),
        },
{
    match outcome {
        CheckedRelocationOutcome::Relocated => OperationOutcome::success(204),
        CheckedRelocationOutcome::DestinationExists => OperationOutcome::failure(
            409,
            TrackedOperationError::DestinationExists,
        ),
        CheckedRelocationOutcome::SameFile => OperationOutcome::failure(
            409,
            TrackedOperationError::SourceEqualsDestination,
        ),
        CheckedRelocationOutcome::SourceChanged => OperationOutcome::failure(
            412,
            TrackedOperationError::SourceChanged,
        ),
        CheckedRelocationOutcome::DestinationChanged => OperationOutcome::failure(
            412,
            TrackedOperationError::DestinationChanged,
        ),
    }
}

/// The commit, and what a client is told where it found a change.
pub open spec fn commit_is_told(seen: RelocationSeen) -> RelocationCheck {
    match seen.committed {
        None => Check::Ask(RelocationProbe::Commit),
        Some(Err(failure)) => Check::Stop(RelocationVerdict::Fail(failure)),
        Some(Ok(outcome)) => match failure_of(outcome) {
            None => Check::Pass,
            Some((status, error)) => {
                let asks = outcome == CheckedRelocationOutcome::SourceChanged || outcome
                    == CheckedRelocationOutcome::DestinationChanged;
                match seen.again {
                    None if asks => Check::Ask(
                        if outcome == CheckedRelocationOutcome::SourceChanged {
                            RelocationProbe::InspectSourceAgain
                        } else {
                            RelocationProbe::InspectDestinationAgain
                        },
                    ),
                    Some(Some(current)) if asks => Check::Stop(
                        RelocationVerdict::Failed(
                            Refusal {
                                status,
                                error,
                                revision: if outcome == CheckedRelocationOutcome::SourceChanged {
                                    RevisionHeader::Source(current)
                                } else {
                                    RevisionHeader::Target(current)
                                },
                            },
                        ),
                    ),
                    _ => Check::Stop(RelocationVerdict::Failed(Refusal::plain(status, error))),
                }
            },
        },
    }
}

fn refuse(status: u16, error: TrackedOperationError) -> (check: RelocationCheck)
    ensures
        check == refused(status, error),
{
    Check::Stop(RelocationVerdict::Refuse(Refusal::new(status, error)))
}

fn next_not_so(
    seen: &Option<Result<bool, IoFailure>>,
    probe: RelocationProbe,
    kind: RelocationKind,
) -> (check: RelocationCheck)
    ensures
        check == not_so(*seen, probe, kind),
{
    match seen {
        None => Check::Ask(probe),
        Some(Ok(false)) => Check::Pass,
        Some(Ok(true)) => refuse(400, kind.invalid_path_error()),
        Some(Err(failure)) => Check::Stop(RelocationVerdict::Fail(*failure)),
    }
}

fn next_revisions(request: &RelocationRequest) -> (check: RelocationCheck)
    ensures
        check == revisions_are_given(*request),
{
    match request.source_revision {
        RevisionField::Invalid => return refuse(400, TrackedOperationError::InvalidSourceRevision),
        RevisionField::Absent => return refuse(428, TrackedOperationError::SourceRevisionRequired),
        RevisionField::Valid(_) => {},
    }
    match (request.overwrite, request.destination_revision) {
        (false, RevisionField::Absent) => Check::Pass,
        (false, _) => refuse(400, TrackedOperationError::InvalidDestinationRevision),
        (true, RevisionField::Absent) => refuse(
            428,
            TrackedOperationError::DestinationRevisionRequired,
        ),
        (true, RevisionField::Invalid) => refuse(
            400,
            TrackedOperationError::InvalidDestinationRevision,
        ),
        (true, RevisionField::Valid(_)) => Check::Pass,
    }
}

fn next_source(request: &RelocationRequest, seen: &RelocationSeen) -> (check: RelocationCheck)
    requires
        request.source_revision is Valid,
    ensures
        check == source_is_confirmed(*request, *seen),
{
    let found = match seen.source {
        None => return Check::Ask(RelocationProbe::InspectSource),
        Some(Err(failure)) => return Check::Stop(RelocationVerdict::Fail(failure)),
        Some(Ok(found)) => found,
    };
    let confirmed = match request.source_revision {
        RevisionField::Valid(revision) => found.revision == Some(revision),
        _ => false,
    };
    if confirmed {
        Check::Pass
    } else {
        Check::Stop(
            RelocationVerdict::Refuse(
                Refusal {
                    status: 412,
                    error: TrackedOperationError::SourceChanged,
                    revision: RevisionHeader::Source(found.revision),
                },
            ),
        )
    }
}

fn next_inside(request: &RelocationRequest, seen: &RelocationSeen) -> (check: RelocationCheck)
    ensures
        check == paths_stay_inside(*request, *seen),
{
    let kind = request.kind;
    match next_not_so(&seen.source_escapes, RelocationProbe::SourceEscape, kind) {
        Check::Pass => {},
        check => return check,
    }
    match next_not_so(&seen.destination_escapes, RelocationProbe::DestinationEscape, kind) {
        Check::Pass => {},
        check => return check,
    }
    match next_not_so(&seen.source_is_platform, RelocationProbe::SourcePlatform { protect_ancestors: true }, kind) {
        Check::Pass => {},
        check => return check,
    }
    next_not_so(&seen.destination_is_platform, RelocationProbe::DestinationPlatform { protect_ancestors: true }, kind)
}

fn next_source_node(request: &RelocationRequest, seen: &RelocationSeen) -> (check: RelocationCheck)
    ensures
        check == source_is_there(*seen).followed_by(goes_elsewhere(*request, *seen)),
{
    let node = match seen.source_node {
        None => return Check::Ask(RelocationProbe::StatSource),
        Some(Ok(node)) => node,
        Some(Err(failure)) => {
            if failure.kind == IoErrorKind::NotFound {
                return refuse(404, TrackedOperationError::SourceNotFound);
            }
            return Check::Stop(RelocationVerdict::Fail(failure));
        },
    };
    if node.is_directory && request.destination.starts_with(&request.source) {
        return refuse(409, TrackedOperationError::DirectoryIntoItself);
    }
    Check::Pass
}

fn next_directory(seen: &RelocationSeen) -> (check: RelocationCheck)
    ensures
        check == directory_is_there(*seen),
{
    match seen.directory {
        None => Check::Ask(RelocationProbe::StatDirectory),
        Some(Ok(true)) => Check::Pass,
        Some(Ok(false)) => refuse(409, TrackedOperationError::DestinationNotDirectory),
        Some(Err(failure)) => {
            if failure.is_missing() {
                refuse(404, TrackedOperationError::DestinationDirectoryNotFound)
            } else {
                Check::Stop(RelocationVerdict::Fail(failure))
            }
        },
    }
}

fn next_destination(request: &RelocationRequest, seen: &RelocationSeen) -> (check: RelocationCheck)
    requires
        request.overwrite ==> request.destination_revision is Valid,
    ensures
        check == destination_is_confirmed(*request, *seen),
{
    let found = match seen.destination {
        None => return Check::Ask(RelocationProbe::InspectDestination),
        Some(Err(failure)) => return Check::Stop(RelocationVerdict::Fail(failure)),
        Some(Ok(found)) => found,
    };
    let confirmed = match request.destination_revision {
        RevisionField::Valid(revision) => found.revision == Some(revision),
        _ => false,
    };
    if request.overwrite && !confirmed {
        return Check::Stop(
            RelocationVerdict::Refuse(
                Refusal {
                    status: 412,
                    error: TrackedOperationError::DestinationChanged,
                    revision: RevisionHeader::Target(found.revision),
                },
            ),
        );
    }
    Check::Pass
}

fn next_taken(request: &RelocationRequest, seen: &RelocationSeen) -> (check: RelocationCheck)
    requires
        seen.destination matches Some(Ok(_)),
        seen.source_node matches Some(Ok(_)),
    ensures
        check == destination_can_be_taken(*request, *seen),
{
    let found = match seen.destination {
        Some(Ok(found)) => found,
        _ => return Check::Pass,
    };
    let source = match seen.source_node {
        Some(Ok(source)) => source,
        _ => return Check::Pass,
    };
    if let ReplacementTargetIdentity::Missing = found.identity {
        return Check::Pass;
    }
    let node = match seen.destination_node {
        None => return Check::Ask(RelocationProbe::StatDestination),
        Some(Err(failure)) => return Check::Stop(RelocationVerdict::Fail(failure)),
        Some(Ok(node)) => node,
    };
    if source.is_directory || node.is_directory {
        return refuse(409, TrackedOperationError::DirectoryOverwriteForbidden);
    }
    if !request.overwrite {
        return Check::Stop(
            RelocationVerdict::Refuse(
                Refusal {
                    status: 409,
                    error: TrackedOperationError::DestinationExists,
                    revision: RevisionHeader::Target(found.revision),
                },
            ),
        );
    }
    if source.device == node.device && source.inode == node.inode {
        return refuse(409, TrackedOperationError::SourceEqualsDestination);
    }
    Check::Pass
}

fn next_commit(seen: &RelocationSeen) -> (check: RelocationCheck)
    ensures
        check == commit_is_told(*seen),
{
    let outcome = match seen.committed {
        None => return Check::Ask(RelocationProbe::Commit),
        Some(Err(failure)) => return Check::Stop(RelocationVerdict::Fail(failure)),
        Some(Ok(outcome)) => outcome,
    };
    match outcome {
        CheckedRelocationOutcome::Relocated => Check::Pass,
        CheckedRelocationOutcome::DestinationExists => Check::Stop(
            RelocationVerdict::Failed(
                Refusal::new(409, TrackedOperationError::DestinationExists),
            ),
        ),
        CheckedRelocationOutcome::SameFile => Check::Stop(
            RelocationVerdict::Failed(
                Refusal::new(409, TrackedOperationError::SourceEqualsDestination),
            ),
        ),
        CheckedRelocationOutcome::SourceChanged => match seen.again {
            None => Check::Ask(RelocationProbe::InspectSourceAgain),
            Some(None) => Check::Stop(
                RelocationVerdict::Failed(Refusal::new(412, TrackedOperationError::SourceChanged)),
            ),
            Some(Some(current)) => Check::Stop(
                RelocationVerdict::Failed(
                    Refusal {
                        status: 412,
                        error: TrackedOperationError::SourceChanged,
                        revision: RevisionHeader::Source(current),
                    },
                ),
            ),
        },
        CheckedRelocationOutcome::DestinationChanged => match seen.again {
            None => Check::Ask(RelocationProbe::InspectDestinationAgain),
            Some(None) => Check::Stop(
                RelocationVerdict::Failed(
                    Refusal::new(412, TrackedOperationError::DestinationChanged),
                ),
            ),
            Some(Some(current)) => Check::Stop(
                RelocationVerdict::Failed(
                    Refusal {
                        status: 412,
                        error: TrackedOperationError::DestinationChanged,
                        revision: RevisionHeader::Target(current),
                    },
                ),
            ),
        },
    }
}

/// Decides a move or a rename: what to look at or do next, or how it ends.
pub fn handle_api_relocation(
    policy: &PathPolicy,
    request: &RelocationRequest,
    seen: &RelocationSeen,
) -> (step: RelocationStep)
    ensures
        step == commit_checks(*policy, *request, *seen).followed_by(
            commit_is_told(*seen),
        ).otherwise(RelocationVerdict::Relocated),
{
    if policy.protects_platform_namespace(&request.source) || policy.protects_platform_namespace(
        &request.destination,
    ) {
        return Step::Done(
            RelocationVerdict::Refuse(Refusal::new(400, TrackedOperationError::InvalidPath)),
        );
    }
    if let Err(step) = next_revisions(request).settle() {
        return step;
    }
    if request.source.equals(&request.destination) {
        return Step::Done(
            RelocationVerdict::Refuse(
                Refusal::new(400, TrackedOperationError::SourceEqualsDestination),
            ),
        );
    }
    match seen.paths {
        None => return Step::Ask(RelocationProbe::TakePaths),
        Some(true) => {},
        Some(false) => return Step::Done(RelocationVerdict::NoPath),
    }
    if let Err(step) = next_source(request, seen).settle() {
        return step;
    }
    if let Err(step) = next_inside(request, seen).settle() {
        return step;
    }
    if let Err(step) = next_source_node(request, seen).settle() {
        return step;
    }
    if let Err(step) = next_directory(seen).settle() {
        return step;
    }
    if let Err(step) = next_destination(request, seen).settle() {
        return step;
    }
    if let Err(step) = next_taken(request, seen).settle() {
        return step;
    }
    if let Err(step) = next_not_so(
        &seen.destination_escapes_again,
        RelocationProbe::DestinationEscapeAgain,
        request.kind,
    ).settle() {
        return step;
    }
    match seen.conflict {
        None => return Step::Ask(RelocationProbe::StateConflict),
        Some(Some(false)) => {},
        Some(Some(true)) => return Step::Done(
            RelocationVerdict::Refuse(Refusal::new(409, request.kind.state_conflict_error())),
        ),
        Some(None) => return Step::Done(RelocationVerdict::StateUnavailable),
    }
    match next_commit(seen).settle() {
        Err(step) => step,
        Ok(()) => Step::Done(RelocationVerdict::Relocated),
    }
}

/// What the commit of a relocation expects to find.
pub open spec fn expectations(request: RelocationRequest, seen: RelocationSeen) -> Option<
    (ReplacementTargetIdentity, Option<ReplacementTargetIdentity>),
> {
    match (seen.source, seen.destination) {
        (Some(Ok(source)), Some(Ok(destination))) => Some(
            (
                source.identity,
                if request.overwrite {
                    Some(destination.identity)
                } else {
                    None
                },
            ),
        ),
        _ => None,
    }
}

/// What the commit of a relocation expects to find: the source that the client
/// confirmed and, where it is to be overwritten, the destination.
pub fn commit_expectations(request: &RelocationRequest, seen: &RelocationSeen) -> (expected: Option<
    (ReplacementTargetIdentity, Option<ReplacementTargetIdentity>),
>)
    ensures
        expected == expectations(*request, *seen),
{
    match (seen.source, seen.destination) {
        (Some(Ok(source)), Some(Ok(destination))) => {
            if request.overwrite {
                Some((source.identity, Some(destination.identity)))
            } else {
                Some((source.identity, None))
            }
        },
        _ => None,
    }
}

/// Nothing is relocated before all of this was seen: the client confirmed the
/// source as it is; the destination is free, or it is a file that the client
/// confirmed and asked to overwrite with a file; neither path is the platform's;
/// and the durable state has no claim on them.
pub proof fn law_commits_are_confirmed(
    policy: PathPolicy,
    request: RelocationRequest,
    seen: RelocationSeen,
)
    requires
        commit_checks(policy, request, seen) is Pass,
    ensures
        !policy.protects(request.source@) && !policy.protects(request.destination@),
        request.source@ != request.destination@,
        seen.paths == Some(true),
        seen.source matches Some(Ok(source)) && request.source_revision == RevisionField::Valid(
            source.revision->0,
        ) && source.revision is Some,
        seen.source_node matches Some(Ok(source)) && (source.is_directory ==> !text::has_prefix(
            request.destination@,
            request.source@,
        )),
        seen.destination matches Some(Ok(destination)) && (destination.identity is Missing || (
        request.overwrite && destination.revision is Some && request.destination_revision
            == RevisionField::Valid(destination.revision->0) && (
        seen.destination_node matches Some(Ok(node)) && !node.is_directory) && (
        seen.source_node matches Some(Ok(source)) && !source.is_directory))),
        seen.directory matches Some(Ok(true)),
        seen.source_is_platform matches Some(Ok(false)),
        seen.destination_is_platform matches Some(Ok(false)),
        seen.destination_escapes_again matches Some(Ok(false)),
        seen.conflict == Some(Some(false)),
{
}

/// The commit was done only where it was called for.
pub open spec fn committed_when_asked(
    policy: PathPolicy,
    request: RelocationRequest,
    seen: RelocationSeen,
) -> bool {
    seen.committed is Some ==> commit_checks(policy, request, seen) is Pass
}

/// A request that is refused, or whose operation is given up, was never
/// committed; and a client is told of a relocation exactly where there was one.
pub proof fn law_answers_match_the_commit(
    policy: PathPolicy,
    request: RelocationRequest,
    seen: RelocationSeen,
    verdict: RelocationVerdict,
)
    requires
        committed_when_asked(policy, request, seen),
        commit_checks(policy, request, seen).followed_by(commit_is_told(seen)).otherwise(
            RelocationVerdict::Relocated,
        ) == RelocationStep::Done(verdict),
    ensures
        verdict is Refuse || verdict is NoPath || verdict is StateUnavailable
            ==> seen.committed is None,
        verdict is Relocated <==> (seen.committed matches Some(
            Ok(CheckedRelocationOutcome::Relocated),
        )),
{
}

/// The client gave the revisions that it must: of the source always, and of the
/// destination exactly where it is to be overwritten.
pub proof fn law_relocations_need_their_revisions(request: RelocationRequest)
    ensures
        revisions_are_given(request) is Pass <==> (request.source_revision is Valid && (
        if request.overwrite {
            request.destination_revision is Valid
        } else {
            request.destination_revision is Absent
        })),
        request.source_revision is Absent ==> revisions_are_given(request) == RelocationCheck::Stop(
            RelocationVerdict::Refuse(
                Refusal {
                    status: 428,
                    error: TrackedOperationError::SourceRevisionRequired,
                    revision: RevisionHeader::Untouched,
                },
            ),
        ),
        request.source_revision is Valid && request.overwrite && request.destination_revision is Absent
            ==> revisions_are_given(request) == RelocationCheck::Stop(
            RelocationVerdict::Refuse(
                Refusal {
                    status: 428,
                    error: TrackedOperationError::DestinationRevisionRequired,
                    revision: RevisionHeader::Untouched,
                },
            ),
        ),
{
}

/// A relocation that nothing speaks against is carried out, of a directory as of a
/// file: the paths are the client's to name and not the same, the client confirmed the
/// source as it is, neither path leaves the root or is the platform's, a directory does
/// not go below itself, the destination directory is there, and the destination is
/// free, or it is another file that the client confirmed and asked to overwrite with a
/// file.
pub proof fn law_unopposed_relocations_are_committed(
    policy: PathPolicy,
    request: RelocationRequest,
    seen: RelocationSeen,
    source: Inspected,
    node: NodeMetadata,
    destination: Inspected,
)
    requires
        !policy.protects(request.source@),
        !policy.protects(request.destination@),
        source.revision is Some,
        request.source_revision == RevisionField::Valid(source.revision->0),
        if request.overwrite {
            destination.revision is Some && request.destination_revision == RevisionField::Valid(
                destination.revision->0,
            )
        } else {
            request.destination_revision == RevisionField::Absent
        },
        request.source@ != request.destination@,
        seen.paths == Some(true),
        seen.source == Some(Ok::<Inspected, IoFailure>(source)),
        seen.source_escapes == Some(Ok::<bool, IoFailure>(false)),
        seen.destination_escapes == Some(Ok::<bool, IoFailure>(false)),
        seen.source_is_platform == Some(Ok::<bool, IoFailure>(false)),
        seen.destination_is_platform == Some(Ok::<bool, IoFailure>(false)),
        seen.source_node == Some(Ok::<NodeMetadata, IoFailure>(node)),
        node.is_directory ==> forall|below: Seq<Seq<u8>>|
            request.destination@ != #[trigger] (request.source@ + below),
        seen.directory == Some(Ok::<bool, IoFailure>(true)),
        seen.destination == Some(Ok::<Inspected, IoFailure>(destination)),
        destination.identity is Missing || (request.overwrite && !node.is_directory && (
        seen.destination_node matches Some(Ok(other)) && !other.is_directory && (other.device
            != node.device || other.inode != node.inode))),
        seen.destination_escapes_again == Some(Ok::<bool, IoFailure>(false)),
        seen.conflict == Some(Some(false)),
    ensures
        commit_checks(policy, request, seen) is Pass,
        seen.committed is None ==> commit_checks(policy, request, seen).followed_by(
            commit_is_told(seen),
        ).otherwise(RelocationVerdict::Relocated) == RelocationStep::Ask(RelocationProbe::Commit),
        seen.committed == Some(
            Ok::<CheckedRelocationOutcome, IoFailure>(CheckedRelocationOutcome::Relocated),
        ) ==> commit_checks(policy, request, seen).followed_by(commit_is_told(seen)).otherwise(
            RelocationVerdict::Relocated,
        ) == RelocationStep::Done(RelocationVerdict::Relocated),
{
    if text::has_prefix(request.destination@, request.source@) {
        let below = request.destination@.subrange(
            request.source@.len() as int,
            request.destination@.len() as int,
        );
        assert(request.destination@ =~= request.source@ + below);
    }
}

/// Each refusal of a relocation has the cause that it tells, and tells it with its
/// status. In particular a directory is said to go into itself only where its
/// destination lies at or below it, and an entry is said to be in the way only where
/// there is one.
pub proof fn law_refused_relocations_tell_the_cause(
    policy: PathPolicy,
    request: RelocationRequest,
    seen: RelocationSeen,
    refusal: Refusal,
)
    requires
        commit_checks(policy, request, seen) == RelocationCheck::Stop(
            RelocationVerdict::Refuse(refusal),
        ),
    ensures
        match refusal.error {
            TrackedOperationError::InvalidPath => refusal.status == 400 && (policy.protects(
                request.source@,
            ) || policy.protects(request.destination@)),
            TrackedOperationError::InvalidSourceRevision => refusal.status == 400
                && request.source_revision is Invalid,
            TrackedOperationError::SourceRevisionRequired => refusal.status == 428
                && request.source_revision is Absent,
            TrackedOperationError::InvalidDestinationRevision => refusal.status == 400 && (
            request.destination_revision is Invalid || (!request.overwrite
                && !(request.destination_revision is Absent))),
            TrackedOperationError::DestinationRevisionRequired => refusal.status == 428
                && request.overwrite && request.destination_revision is Absent,
            TrackedOperationError::SourceEqualsDestination => (refusal.status == 400
                && request.source@ == request.destination@) || (refusal.status == 409 && (
            seen.source_node matches Some(Ok(node)) && (
            seen.destination_node matches Some(Ok(other)) && node.device == other.device
                && node.inode == other.inode))),
            TrackedOperationError::SourceChanged => refusal.status == 412 && (
            seen.source matches Some(Ok(source)) && (source.revision is None
                || request.source_revision != RevisionField::Valid(source.revision->0))
                && refusal.revision == RevisionHeader::Source(source.revision)),
            TrackedOperationError::InvalidMovePath | TrackedOperationError::InvalidRenamePath => {
                &&& refusal.status == 400
                &&& refusal.error is InvalidMovePath <==> request.kind == RelocationKind::Move
                &&& {
                    ||| seen.source_escapes == Some(Ok::<bool, IoFailure>(true))
                    ||| seen.destination_escapes == Some(Ok::<bool, IoFailure>(true))
                    ||| seen.source_is_platform == Some(Ok::<bool, IoFailure>(true))
                    ||| seen.destination_is_platform == Some(Ok::<bool, IoFailure>(true))
                    ||| seen.destination_escapes_again == Some(Ok::<bool, IoFailure>(true))
                }
            },
            TrackedOperationError::SourceNotFound => refusal.status == 404 && (
            seen.source_node matches Some(Err(failure)) && failure.kind == IoErrorKind::NotFound),
            TrackedOperationError::DirectoryIntoItself => refusal.status == 409 && (
            seen.source_node matches Some(Ok(node)) && node.is_directory) && exists|
                below: Seq<Seq<u8>>,
            |
                request.destination@ == #[trigger] (request.source@ + below),
            TrackedOperationError::DestinationNotDirectory => refusal.status == 409
                && seen.directory == Some(Ok::<bool, IoFailure>(false)),
            TrackedOperationError::DestinationDirectoryNotFound => refusal.status == 404 && (
            seen.directory matches Some(Err(failure)) && (failure.kind == IoErrorKind::NotFound
                || failure.kind == IoErrorKind::NotADirectory)),
            TrackedOperationError::DestinationChanged => refusal.status == 412 && request.overwrite
                && (seen.destination matches Some(Ok(destination)) && (destination.revision is None
                || request.destination_revision != RevisionField::Valid(destination.revision->0))
                && refusal.revision == RevisionHeader::Target(destination.revision)),
            TrackedOperationError::DirectoryOverwriteForbidden => refusal.status == 409 && (
            seen.destination matches Some(Ok(destination)) && destination.identity is Existing) && ((
            seen.source_node matches Some(Ok(node)) && node.is_directory) || (
            seen.destination_node matches Some(Ok(other)) && other.is_directory)),
            TrackedOperationError::DestinationExists => refusal.status == 409 && !request.overwrite
                && (seen.destination matches Some(Ok(destination))
                && destination.identity is Existing && refusal.revision == RevisionHeader::Target(
                destination.revision,
            )),
            TrackedOperationError::MoveStateConflict => refusal.status == 409 && request.kind
                == RelocationKind::Move && seen.conflict == Some(Some(true)),
            TrackedOperationError::RenameStateConflict => refusal.status == 409 && request.kind
                == RelocationKind::Rename && seen.conflict == Some(Some(true)),
            _ => false,
        },
{
    if refusal.error is DirectoryIntoItself {
        let below = request.destination@.subrange(
            request.source@.len() as int,
            request.destination@.len() as int,
        );
        assert(request.destination@ =~= request.source@ + below);
    }
}

/// Only what is not known yet is looked at, so that every relocation comes to an end,
/// and nothing is committed twice.
pub proof fn law_relocations_look_once(
    policy: PathPolicy,
    request: RelocationRequest,
    seen: RelocationSeen,
    probe: RelocationProbe,
)
    requires
        commit_checks(policy, request, seen).followed_by(commit_is_told(seen)).otherwise(
            RelocationVerdict::Relocated,
        ) == RelocationStep::Ask(probe),
    ensures
        match probe {
            RelocationProbe::TakePaths => seen.paths is None,
            RelocationProbe::InspectSource => seen.source is None,
            RelocationProbe::SourceEscape => seen.source_escapes is None,
            RelocationProbe::DestinationEscape => seen.destination_escapes is None,
            RelocationProbe::SourcePlatform { protect_ancestors } => protect_ancestors
                && seen.source_is_platform is None,
            RelocationProbe::DestinationPlatform { protect_ancestors } => protect_ancestors
                && seen.destination_is_platform is None,
            RelocationProbe::StatSource => seen.source_node is None,
            RelocationProbe::StatDirectory => seen.directory is None,
            RelocationProbe::InspectDestination => seen.destination is None,
            RelocationProbe::StatDestination => seen.destination_node is None,
            RelocationProbe::DestinationEscapeAgain => seen.destination_escapes_again is None,
            RelocationProbe::StateConflict => seen.conflict is None,
            RelocationProbe::Commit => seen.committed is None,
            RelocationProbe::InspectSourceAgain => seen.again is None && seen.committed == Some(
                Ok::<CheckedRelocationOutcome, IoFailure>(CheckedRelocationOutcome::SourceChanged),
            ),
            RelocationProbe::InspectDestinationAgain => seen.again is None && seen.committed == Some(
                Ok::<CheckedRelocationOutcome, IoFailure>(
                    CheckedRelocationOutcome::DestinationChanged,
                ),
            ),
        },
        !(probe is TakePaths) ==> seen.paths == Some(true),
{
}

/// What the commit found is what the client is told: a change with the status of a
/// failed precondition and the current revision of what changed, and anything else that
/// was in the way as a conflict.
pub proof fn law_failed_commits_tell_the_cause(seen: RelocationSeen, refusal: Refusal)
    requires
        commit_is_told(seen) == RelocationCheck::Stop(RelocationVerdict::Failed(refusal)),
    ensures
        seen.committed matches Some(Ok(outcome)) && match outcome {
            CheckedRelocationOutcome::Relocated => false,
            CheckedRelocationOutcome::DestinationExists => refusal == (Refusal {
                status: 409,
                error: TrackedOperationError::DestinationExists,
                revision: RevisionHeader::Untouched,
            }),
            CheckedRelocationOutcome::SameFile => refusal == (Refusal {
                status: 409,
                error: TrackedOperationError::SourceEqualsDestination,
                revision: RevisionHeader::Untouched,
            }),
            CheckedRelocationOutcome::SourceChanged => refusal.status == 412 && refusal.error
                == TrackedOperationError::SourceChanged && (seen.again matches Some(
                Some(current),
            ) ==> refusal.revision == RevisionHeader::Source(current)),
            CheckedRelocationOutcome::DestinationChanged => refusal.status == 412 && refusal.error
                == TrackedOperationError::DestinationChanged && (seen.again matches Some(
                Some(current),
            ) ==> refusal.revision == RevisionHeader::Target(current)),
        },
{
}

/// The last name of a path is what stands behind its last slash, and its parent what
/// stands before it, which is the root where nothing does.
pub proof fn law_paths_part_at_their_last_slash(before: Seq<char>, name: Seq<char>)
    requires
        !name.contains('/'),
    ensures
        last_name(before + seq!['/'] + name) == name,
        parent_of(before + seq!['/'] + name) == (if before.len() == 0 {
            seq!['/']
        } else {
            before
        }),
{
    reveal_strlit("/");
    assert("/"@ =~= seq!['/']);
    let path = before + seq!['/'] + name;
    assert(path[before.len() as int] == '/');
    assert(path.contains('/'));
    path.index_of_last_ensures('/');
    let at = last_slash(path);
    if at > before.len() {
        assert(name[at - before.len() - 1] == path[at]);
        assert(name.contains('/'));
    }
    assert(at == before.len());
    assert(path.subrange(at + 1, path.len() as int) =~= name);
    assert(path.subrange(0, at) =~= before);
}

/// A move is read where the source and the entry of that name in the directory are
/// targets; the first of them that is not is told.
pub proof fn law_moves_are_read(policy: PathPolicy, source: Seq<char>, directory: Seq<char>)
    ensures
        move_fault(policy, source, directory) is None <==> policy.is_browser_target(source)
            && policy.is_list_target(directory) && policy.is_browser_target(
            browser_api::child_path(directory, last_name(source)),
        ),
        move_fault(policy, source, directory) == Some(TrackedOperationError::InvalidSourcePath)
            <==> !policy.is_browser_target(source),
        move_fault(policy, source, directory) matches Some(fault) ==> fault
            == TrackedOperationError::InvalidSourcePath || fault
            == TrackedOperationError::InvalidDestinationPath,
{
}

/// A rename is read where the source is a target, the name is one name, and the entry
/// of that name beside the source is a target; what is at fault is told.
pub proof fn law_renames_are_read(policy: PathPolicy, source: Seq<char>, name: Seq<char>)
    ensures
        rename_fault(policy, source, name) is None <==> policy.is_browser_target(source)
            && browser_api::is_one_name(name) && policy.is_browser_target(
            browser_api::child_path(parent_of(source), name),
        ),
        rename_fault(policy, source, name) == Some(TrackedOperationError::InvalidSourcePath)
            <==> !policy.is_browser_target(source),
        rename_fault(policy, source, name) matches Some(fault) ==> fault
            == TrackedOperationError::InvalidSourcePath || fault
            == TrackedOperationError::InvalidRenameName,
{
}

/// A relocation that does not end with an answer to the client has met a failure that
/// is none of the client's, has found no place in the line for its paths, or could not
/// look at the durable state. What is missing is told and is no failure.
pub proof fn law_failed_relocations_met_the_failure(
    policy: PathPolicy,
    request: RelocationRequest,
    seen: RelocationSeen,
    verdict: RelocationVerdict,
)
    requires
        commit_checks(policy, request, seen).followed_by(commit_is_told(seen)).otherwise(
            RelocationVerdict::Relocated,
        ) == RelocationStep::Done(verdict),
    ensures
        verdict is NoPath ==> seen.paths == Some(false),
        verdict is StateUnavailable ==> seen.conflict == Some(None::<bool>),
        verdict matches RelocationVerdict::Fail(failure) ==> {
            ||| seen.source == Some(Err::<Inspected, IoFailure>(failure))
            ||| seen.source_escapes == Some(Err::<bool, IoFailure>(failure))
            ||| seen.destination_escapes == Some(Err::<bool, IoFailure>(failure))
            ||| seen.source_is_platform == Some(Err::<bool, IoFailure>(failure))
            ||| seen.destination_is_platform == Some(Err::<bool, IoFailure>(failure))
            ||| seen.source_node == Some(Err::<NodeMetadata, IoFailure>(failure)) && failure.kind
                != IoErrorKind::NotFound
            ||| seen.directory == Some(Err::<bool, IoFailure>(failure)) && failure.kind
                != IoErrorKind::NotFound && failure.kind != IoErrorKind::NotADirectory
            ||| seen.destination == Some(Err::<Inspected, IoFailure>(failure))
            ||| seen.destination_node == Some(Err::<NodeMetadata, IoFailure>(failure))
            ||| seen.destination_escapes_again == Some(Err::<bool, IoFailure>(failure))
            ||| seen.committed == Some(Err::<CheckedRelocationOutcome, IoFailure>(failure))
        },
{
}

/// Nothing but what a request says decides before its paths are taken: requests with
/// protected paths, without their revisions, or to where the source is already, are
/// refused without a look.
pub proof fn law_unfit_relocations_look_at_nothing(
    policy: PathPolicy,
    request: RelocationRequest,
    seen: RelocationSeen,
    other: RelocationSeen,
)
    requires
        policy.protects(request.source@) || policy.protects(request.destination@)
            || !(request.source_revision is Valid) || (request.overwrite
            && !(request.destination_revision is Valid)) || (!request.overwrite
            && !(request.destination_revision is Absent)) || request.source@
            == request.destination@,
    ensures
        commit_checks(policy, request, seen) is Stop,
        commit_checks(policy, request, seen) == commit_checks(policy, request, other),
{
}

/// A commit expects the source as it was inspected, and the destination as it was
/// inspected exactly where it is to be overwritten; elsewhere nothing may be there.
pub proof fn law_commits_expect_what_was_seen(request: RelocationRequest, seen: RelocationSeen)
    ensures
        (expectations(request, seen) is Some) <==> ((seen.source matches Some(Ok(_))) && (
        seen.destination matches Some(Ok(_)))),
        expectations(request, seen) matches Some((source, destination)) ==> source
            == seen.source->0->Ok_0.identity && (destination is Some <==> request.overwrite) && (
        destination is Some ==> destination->0 == seen.destination->0->Ok_0.identity),
{
}

/// A relocation that was carried out is recorded as a success without content, and every
/// other outcome as the failure that it is.
pub proof fn law_outcomes_are_told_apart(outcome: CheckedRelocationOutcome)
    ensures
        failure_of(outcome) is None <==> outcome == CheckedRelocationOutcome::Relocated,
        failure_of(outcome) matches Some((status, error)) ==> match outcome {
            CheckedRelocationOutcome::Relocated => false,
            CheckedRelocationOutcome::DestinationExists => status == 409 && error
                == TrackedOperationError::DestinationExists,
            CheckedRelocationOutcome::SameFile => status == 409 && error
                == TrackedOperationError::SourceEqualsDestination,
            CheckedRelocationOutcome::SourceChanged => status == 412 && error
                == TrackedOperationError::SourceChanged,
            CheckedRelocationOutcome::DestinationChanged => status == 412 && error
                == TrackedOperationError::DestinationChanged,
        },
{
}

/// Where the state of a relocation cannot be kept, its kind is told.
pub proof fn law_unavailable_states_tell_their_kind()
    ensures
        RelocationKind::Move.unavailable_code() == ErrorCode::MoveStateUnavailable,
        RelocationKind::Rename.unavailable_code() == ErrorCode::RenameStateUnavailable,
        RelocationKind::Move.unavailable_detail()
            == "Move safety state is temporarily unavailable"@,
        RelocationKind::Rename.unavailable_detail()
            == "Rename safety state is temporarily unavailable"@,
{
}

} // verus!
