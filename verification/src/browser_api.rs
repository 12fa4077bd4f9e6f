//! The API of the browser client: creating, moving and renaming entries, and
//! what uploads need around them.
use crate::identifiers;
use crate::identifiers::hyphenated_text;
use crate::operation_registry;
use crate::operation_registry::{
    apply_operation_outcome, set_operation_headers, OperationOutcome, TrackedOperationError,
};
use crate::path_policy::BROWSER_COMPONENT_BYTES_LIMIT;
use crate::problem;
use crate::problem::{
    render_problem, ApiError, ApiErrorView, ErrorCode, OperationProblemContext,
    OperationPublicState,
};
use crate::response::{BodyView, Response, ResponseView};
use crate::revision::TargetRevision;
use crate::text::{contains_char, str_eq};
use vstd::prelude::*;
use vstd::string::*;
use vstd::utf8::*;

pub mod dispatch;
pub mod mkdir;
pub mod preflight;
pub mod relocation;

verus! {

pub const BROWSER_API_PREFIX: &'static str = "__dufs__/api/";

pub const MKDIR_API_PATH: &'static str = "__dufs__/api/mkdir";

pub const MOVE_API_PATH: &'static str = "__dufs__/api/move";

pub const RENAME_API_PATH: &'static str = "__dufs__/api/rename";

pub const UPLOAD_PREFLIGHT_API_PATH: &'static str = "__dufs__/api/upload/preflight";

pub const UPLOAD_DISCARD_API_PATH: &'static str = "__dufs__/api/upload/discard";

/// The most bytes of the body of a request.
pub const API_BODY_LIMIT: usize = 16384;

/// The most bytes of the body of an upload preflight.
pub const UPLOAD_PREFLIGHT_BODY_LIMIT: usize = 2097152;

pub const UPLOAD_PREFLIGHT_PATH_LIMIT: usize = 512;

pub const UPLOAD_PREFLIGHT_PATH_BYTES_LIMIT: usize = 262144;

pub const UPLOAD_PREFLIGHT_CONCURRENCY: usize = 4;

pub const SOURCE_REVISION_HEADER: &'static str = "x-dufs-source-revision";

pub const TARGET_REVISION_HEADER: &'static str = "x-dufs-target-revision";

/// Whether a request to a path is a mutation that is tracked by an operation.
pub fn is_tracked_browser_mutation(path: &str) -> (result: bool)
    ensures
        result == (path@ == MKDIR_API_PATH@ || path@ == MOVE_API_PATH@ || path@
            == RENAME_API_PATH@),
{
    str_eq(path, MKDIR_API_PATH) || str_eq(path, MOVE_API_PATH) || str_eq(path, RENAME_API_PATH)
}

/// The answer to a request that is refused before its operation begins.
pub open spec fn api_error_response(
    response: ResponseView,
    error: ApiErrorView,
    operation_id: Option<u128>,
) -> ResponseView {
    match operation_id {
        None => problem::problem_response(response, error),
        Some(id) => operation_registry::operation_problem(
            response,
            id,
            OperationPublicState::Rejected,
            None,
            error,
        ),
    }
}

/// Answers with an error, on behalf of a rejected operation where there is one.
pub(crate) fn render_rejected(response: &mut Response, error: ApiError, operation_id: Option<u128>)
    ensures
        final(response)@ == api_error_response(old(response)@, error@, operation_id),
{
    match operation_id {
        None => render_problem(response, &error),
        Some(id) => {
            set_operation_headers(response, id, OperationPublicState::Rejected);
            let context = OperationProblemContext::new(
                hyphenated_text(id),
                OperationPublicState::Rejected,
                None,
            );
            render_problem(response, &error.with_operation(context));
        },
    }
}

pub fn status_api_error(
    response: &mut Response,
    status: u16,
    code: ErrorCode,
    message: &str,
    operation_id: Option<u128>,
)
    requires
        100 <= status <= 999,
    ensures
        final(response)@ == api_error_response(
            old(response)@,
            ApiErrorView::new(status, code, message@),
            operation_id,
        ),
{
    render_rejected(response, ApiError::new(status, code, message), operation_id);
}

/// The answer to a mutation that failed.
pub open spec fn failure_response(
    response: ResponseView,
    operation_id: Option<u128>,
    status: u16,
    error: TrackedOperationError,
) -> ResponseView {
    match operation_id {
        Some(id) => problem::problem_response(
            operation_registry::with_operation_headers(response, id, OperationPublicState::Failed),
            ApiErrorView::new(status, error.public_code(), error.public_detail()).with_recovery(
                error.advice(),
            ).with_operation(
                identifiers::hyphenated(id),
                OperationPublicState::Failed,
                Some(status),
            ),
        ),
        None => problem::problem_response(
            response,
            ApiErrorView::new(status, error.public_code(), error.public_detail()),
        ),
    }
}

/// Answers for a mutation that failed, once its operation has been completed.
pub fn render_completed_error(
    operation_id: Option<u128>,
    response: &mut Response,
    status: u16,
    error: TrackedOperationError,
)
    requires
        operation_registry::is_http_status(status),
        !operation_registry::is_success_status(status),
    ensures
        final(response)@ == failure_response(old(response)@, operation_id, status, error),
{
    match operation_id {
        Some(id) => apply_operation_outcome(
            response,
            id,
            OperationOutcome::failure(status, error),
            false,
        ),
        None => status_api_error(response, status, error.code(), error.detail(), None),
    }
}

/// The answer to a mutation that succeeded.
pub open spec fn success_response(
    response: ResponseView,
    operation_id: Option<u128>,
    status: u16,
) -> ResponseView {
    match operation_id {
        Some(id) => operation_registry::with_operation_headers(
            response,
            id,
            OperationPublicState::Succeeded,
        ).with_status(status),
        None => response.with_status(status),
    }
}

/// Answers for a mutation that succeeded, once its operation has been completed.
pub fn render_completed_success(operation_id: Option<u128>, response: &mut Response, status: u16)
    requires
        operation_registry::is_success_status(status),
    ensures
        final(response)@ == success_response(old(response)@, operation_id, status),
{
    match operation_id {
        Some(id) => apply_operation_outcome(response, id, OperationOutcome::success(status), false),
        None => {
            response.status = status;
        },
    }
}

/// Which header tells a client the current revision.
#[derive(Clone, Copy, Debug, Eq, PartialEq, Structural)]
pub enum RevisionHeader {
    /// Neither header is touched.
    Untouched,
    Source(Option<TargetRevision>),
    Target(Option<TargetRevision>),
}

/// A mutation that is refused or that failed.
#[derive(Clone, Copy, Debug, Eq, PartialEq, Structural)]
pub struct Refusal {
    pub status: u16,
    pub error: TrackedOperationError,
    pub revision: RevisionHeader,
}

impl Refusal {
    pub open spec fn plain(status: u16, error: TrackedOperationError) -> Refusal {
        Refusal { status, error, revision: RevisionHeader::Untouched }
    }

    pub fn new(status: u16, error: TrackedOperationError) -> (refusal: Refusal)
        ensures
            refusal == Refusal::plain(status, error),
    {
        Refusal { status, error, revision: RevisionHeader::Untouched }
    }
}

/// A response with a revision in a header, or without that header.
pub open spec fn with_revision(
    response: ResponseView,
    name: Seq<char>,
    encoded: Option<Seq<char>>,
) -> ResponseView {
    match encoded {
        Some(encoded) => response.with_header(name, encoded),
        None => response.without_header(name),
    }
}

/// Tells a client the current revision, in its encoded form, or that there is
/// none.
pub fn apply_revision_header(response: &mut Response, name: &str, encoded: Option<&str>)
    ensures
        final(response)@ == with_revision(
            old(response)@,
            name@,
            match encoded {
                Some(encoded) => Some(encoded@),
                None => None,
            },
        ),
{
    match encoded {
        Some(encoded) => response.set_header(name, encoded),
        None => response.remove_header(name),
    }
}

/// The answer to a mutation that is refused or that failed.
pub open spec fn refusal_response(
    response: ResponseView,
    operation_id: Option<u128>,
    refusal: Refusal,
    encoded: Option<Seq<char>>,
) -> ResponseView {
    let marked = match refusal.revision {
        RevisionHeader::Untouched => response,
        RevisionHeader::Source(_) => with_revision(response, SOURCE_REVISION_HEADER@, encoded),
        RevisionHeader::Target(_) => with_revision(response, TARGET_REVISION_HEADER@, encoded),
    };
    failure_response(marked, operation_id, refusal.status, refusal.error)
}

/// Answers for a mutation that is refused or that failed. The revision of the
/// refusal comes in its encoded form.
pub fn render_refusal(
    response: &mut Response,
    operation_id: Option<u128>,
    refusal: &Refusal,
    encoded: Option<&str>,
)
    requires
        operation_registry::is_http_status(refusal.status),
        !operation_registry::is_success_status(refusal.status),
    ensures
        final(response)@ == refusal_response(
            old(response)@,
            operation_id,
            *refusal,
            match encoded {
                Some(encoded) => Some(encoded@),
                None => None,
            },
        ),
{
    match refusal.revision {
        RevisionHeader::Untouched => {},
        RevisionHeader::Source(_) => apply_revision_header(
            response,
            SOURCE_REVISION_HEADER,
            encoded,
        ),
        RevisionHeader::Target(_) => apply_revision_header(
            response,
            TARGET_REVISION_HEADER,
            encoded,
        ),
    }
    render_completed_error(operation_id, response, refusal.status, refusal.error);
}

/// A name that an entry can be given: one name, and not a special one.
pub open spec fn is_one_name(name: Seq<char>) -> bool {
    &&& name.len() > 0
    &&& encode_utf8(name).len() <= BROWSER_COMPONENT_BYTES_LIMIT
    &&& name != "."@
    &&& name != ".."@
    &&& !name.contains('/')
    &&& !name.contains('\0')
}

pub fn is_single_browser_name(name: &str) -> (single: bool)
    ensures
        single == is_one_name(name@),
{
    !name.is_empty() && name.as_bytes().len() <= BROWSER_COMPONENT_BYTES_LIMIT && !str_eq(name, ".")
        && !str_eq(name, "..") && !contains_char(name, '/') && !contains_char(name, '\0')
}

/// The logical path of an entry of a directory.
pub open spec fn child_path(directory: Seq<char>, name: Seq<char>) -> Seq<char> {
    if directory == "/"@ {
        "/"@ + name
    } else {
        directory + "/"@ + name
    }
}

pub fn logical_child(directory: &str, name: &str) -> (path: String)
    ensures
        path@ == child_path(directory@, name@),
{
    let mut path = if str_eq(directory, "/") {
        String::from_str("/")
    } else {
        let mut path = String::from_str(directory);
        path.append("/");
        path
    };
    path.append(name);
    path
}

/// A revision that a client sent, once it has been decoded.
#[derive(Clone, Copy, Debug, Eq, PartialEq, Structural)]
pub enum RevisionField {
    Absent,
    Invalid,
    Valid(TargetRevision),
}

/// A name that an entry can be given has one to 255 bytes, neither a slash nor a zero
/// byte, and is neither of the names that stand for directories.
pub proof fn law_single_names(name: Seq<char>)
    ensures
        is_one_name(name) <==> 1 <= name.len() && encode_utf8(name).len() <= 255 && name != seq![
            '.',
        ] && name != seq!['.', '.'] && (forall|i: int|
            0 <= i < name.len() ==> #[trigger] name[i] != '/' && name[i] != '\0'),
{
    reveal_strlit(".");
    reveal_strlit("..");
    assert("."@ =~= seq!['.']);
    assert(".."@ =~= seq!['.', '.']);
    if is_one_name(name) {
        assert forall|i: int| 0 <= i < name.len() implies #[trigger] name[i] != '/' && name[i]
            != '\0' by {
            assert(name.contains(name[i]));
        }
    }
}

/// An entry of a directory is named by the path of the directory, one slash and its
/// name, and by a slash and its name where the directory is the root.
pub proof fn law_children_follow_one_slash(directory: Seq<char>, name: Seq<char>)
    ensures
        child_path(seq!['/'], name) == seq!['/'] + name,
        directory != seq!['/'] ==> child_path(directory, name) == directory + seq!['/'] + name,
{
    reveal_strlit("/");
    assert("/"@ =~= seq!['/']);
}

/// A mutation that is refused is answered with the status and the code of its error,
/// and its operation has failed; the current revision is told in the field that it
/// belongs to.
pub proof fn law_refusals_are_answered(
    response: ResponseView,
    operation_id: Option<u128>,
    refusal: Refusal,
    encoded: Option<Seq<char>>,
)
    ensures
        refusal_response(response, operation_id, refusal, encoded).status == refusal.status,
        refusal.revision is Untouched ==> refusal_response(
            response,
            operation_id,
            refusal,
            encoded,
        ) == failure_response(response, operation_id, refusal.status, refusal.error),
        refusal.revision is Source ==> refusal_response(response, operation_id, refusal, encoded)
            == failure_response(
            match encoded {
                Some(encoded) => response.with_header("x-dufs-source-revision"@, encoded),
                None => response.without_header("x-dufs-source-revision"@),
            },
            operation_id,
            refusal.status,
            refusal.error,
        ),
        refusal.revision is Target ==> refusal_response(response, operation_id, refusal, encoded)
            == failure_response(
            match encoded {
                Some(encoded) => response.with_header("x-dufs-target-revision"@, encoded),
                None => response.without_header("x-dufs-target-revision"@),
            },
            operation_id,
            refusal.status,
            refusal.error,
        ),
{
}

/// A mutation that succeeded is answered with its status and no problem, and where it
/// has an operation the client is told that it succeeded.
pub proof fn law_successes_are_answered(
    response: ResponseView,
    operation_id: Option<u128>,
    status: u16,
)
    ensures
        success_response(response, operation_id, status).status == status,
        success_response(response, operation_id, status).body == response.body,
        operation_id is None ==> success_response(response, operation_id, status).headers
            == response.headers,
{
}

/// A request that is refused before its operation begins is answered with the status of
/// its error. One that names an operation is told that this was rejected.
pub proof fn law_early_refusals_are_answered(
    response: ResponseView,
    error: ApiErrorView,
    id: u128,
)
    ensures
        api_error_response(response, error, None).status == error.status,
        api_error_response(response, error, Some(id)).status == error.status,
        api_error_response(response, error, None).body matches BodyView::Problem(document)
            && document.code == error.code && document.detail == error.detail,
        api_error_response(response, error, Some(id)).body matches BodyView::Problem(document)
            && document.code == error.code && document.detail == error.detail,
        api_error_response(response, error, Some(id)).headers["x-dufs-operation-state"@]
            == "rejected"@,
        api_error_response(response, error, Some(id)).headers["x-dufs-operation-id"@]
            == identifiers::hyphenated(id),
{
    operation_registry::lemma_operation_fields_differ();
}

} // verus!
