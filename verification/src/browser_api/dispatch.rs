//! What a request to the browser API is, and how it begins.
use crate::browser_api;
use crate::browser_api::{
    status_api_error, MKDIR_API_PATH, MOVE_API_PATH, RENAME_API_PATH, UPLOAD_DISCARD_API_PATH,
    UPLOAD_PREFLIGHT_API_PATH,
};
use crate::http_utils;
use crate::http_utils::request_content_type_is;
use crate::identifiers;
use crate::identifiers::parse_canonical_operation_id;
use crate::io_error::IoFailure;
use crate::operation_registry;
use crate::operation_registry::{
    parse_operation_id, BeginOperation, KeptOperation, OperationFingerprint, OperationKey,
    OperationOutcome,
};
use crate::path_policy::PathPolicy;
use crate::problem;
use crate::problem::{ApiErrorView, ErrorCode};
use crate::response::{BodyView, Response, ResponseView};
use crate::steps;
use crate::steps::{Check, Step};
use crate::text::str_eq;
use vstd::prelude::*;
use vstd::string::*;
use vstd::utf8::*;

verus! {

/// The mutations of the browser API.
#[derive(Clone, Copy, Debug, Eq, PartialEq, Structural)]
pub enum BrowserMutation {
    Mkdir,
    Move,
    Rename,
}

/// What an endpoint of the browser API is for.
#[derive(Clone, Copy, Debug, Eq, PartialEq, Structural)]
pub enum BrowserEndpoint {
    UploadPreflight,
    UploadDiscard,
    Mutation(BrowserMutation),
    Unknown,
}

pub open spec fn endpoint_of(path: Seq<char>) -> BrowserEndpoint {
    if path == UPLOAD_PREFLIGHT_API_PATH@ {
        BrowserEndpoint::UploadPreflight
    } else if path == UPLOAD_DISCARD_API_PATH@ {
        BrowserEndpoint::UploadDiscard
    } else if path == MKDIR_API_PATH@ {
        BrowserEndpoint::Mutation(BrowserMutation::Mkdir)
    } else if path == MOVE_API_PATH@ {
        BrowserEndpoint::Mutation(BrowserMutation::Move)
    } else if path == RENAME_API_PATH@ {
        BrowserEndpoint::Mutation(BrowserMutation::Rename)
    } else {
        BrowserEndpoint::Unknown
    }
}

fn find_endpoint(path: &str) -> (endpoint: BrowserEndpoint)
    ensures
        endpoint == endpoint_of(path@),
{
    if str_eq(path, UPLOAD_PREFLIGHT_API_PATH) {
        BrowserEndpoint::UploadPreflight
    } else if str_eq(path, UPLOAD_DISCARD_API_PATH) {
        BrowserEndpoint::UploadDiscard
    } else if str_eq(path, MKDIR_API_PATH) {
        BrowserEndpoint::Mutation(BrowserMutation::Mkdir)
    } else if str_eq(path, MOVE_API_PATH) {
        BrowserEndpoint::Mutation(BrowserMutation::Move)
    } else if str_eq(path, RENAME_API_PATH) {
        BrowserEndpoint::Mutation(BrowserMutation::Rename)
    } else {
        BrowserEndpoint::Unknown
    }
}

/// Why the body of a request could not be read.
#[derive(Clone, Copy, Debug, Eq, PartialEq, Structural)]
pub enum BodyFault {
    TooLarge,
    Broken,
}

/// What the registry of operations answers to a new one.
#[derive(Clone, Copy, Debug, Eq, PartialEq, Structural)]
pub enum Begun {
    Started,
    Running,
    Replay,
    Conflict,
    Full,
    Unavailable,
}

/// What a request does with the answer of the registry.
pub open spec fn told(begun: BeginOperation) -> Begun {
    match begun {
        BeginOperation::Started(_) => Begun::Started,
        BeginOperation::Running => Begun::Running,
        BeginOperation::Replay(_) => Begun::Replay,
        BeginOperation::Conflict => Begun::Conflict,
        BeginOperation::Full => Begun::Full,
        BeginOperation::Unavailable => Begun::Unavailable,
    }
}

impl Begun {
    /// What the registry told.
    pub fn of(begun: &BeginOperation) -> (told: Begun)
        ensures
            told == self::told(*begun),
    {
        match begun {
            BeginOperation::Started(_) => Begun::Started,
            BeginOperation::Running => Begun::Running,
            BeginOperation::Replay(_) => Begun::Replay,
            BeginOperation::Conflict => Begun::Conflict,
            BeginOperation::Full => Begun::Full,
            BeginOperation::Unavailable => Begun::Unavailable,
        }
    }
}

/// What a mutation looks at or does next.
#[derive(Clone, Copy, Debug, Eq, PartialEq, Structural)]
pub enum DispatchProbe {
    ReadBody,
    /// Begin the operation of this name.
    Begin(u128),
    /// Read the body as the request that the endpoint takes.
    ReadRequest,
}

/// What a mutation has seen so far.
#[derive(Clone, Copy)]
pub struct DispatchSeen {
    pub body: Option<Result<(), BodyFault>>,
    pub begun: Option<Begun>,
    /// Whether the body is such a request.
    pub request: Option<bool>,
}

/// Why a request is refused before its operation begins.
#[derive(Clone, Copy, Debug, Eq, PartialEq, Structural)]
pub enum DispatchRefusal {
    UnknownEndpoint,
    NotJson,
    BodyTooLarge,
    BrokenBody,
}

impl DispatchRefusal {
    pub open spec fn error(self) -> ApiErrorView {
        match self {
            DispatchRefusal::UnknownEndpoint => ApiErrorView::new(
                404,
                ErrorCode::ApiEndpointNotFound,
                "API endpoint not found"@,
            ),
            DispatchRefusal::NotJson => ApiErrorView::new(
                415,
                ErrorCode::UnsupportedMediaType,
                "Content-Type must be application/json"@,
            ),
            DispatchRefusal::BodyTooLarge => ApiErrorView::new(
                413,
                ErrorCode::RequestBodyTooLarge,
                "Request body too large"@,
            ),
            DispatchRefusal::BrokenBody => ApiErrorView::new(
                400,
                ErrorCode::InvalidRequestBody,
                "Invalid request body"@,
            ),
        }
    }

    /// Answers a request with the refusal, on behalf of the operation that it
    /// names.
    pub fn respond(self, response: &mut Response, operation_id: Option<u128>)
        ensures
            final(response)@ == browser_api::api_error_response(
                old(response)@,
                self.error(),
                operation_id,
            ),
    {
        match self {
            DispatchRefusal::UnknownEndpoint => status_api_error(
                response,
                404,
                ErrorCode::ApiEndpointNotFound,
                "API endpoint not found",
                operation_id,
            ),
            DispatchRefusal::NotJson => status_api_error(
                response,
                415,
                ErrorCode::UnsupportedMediaType,
                "Content-Type must be application/json",
                operation_id,
            ),
            DispatchRefusal::BodyTooLarge => status_api_error(
                response,
                413,
                ErrorCode::RequestBodyTooLarge,
                "Request body too large",
                operation_id,
            ),
            DispatchRefusal::BrokenBody => status_api_error(
                response,
                400,
                ErrorCode::InvalidRequestBody,
                "Invalid request body",
                operation_id,
            ),
        }
    }
}

/// How a request to the browser API goes on.
#[derive(Clone, Copy)]
pub enum DispatchVerdict {
    /// It is an upload preflight.
    Preflight,
    /// It discards an upload.
    Discard,
    Refuse { refusal: DispatchRefusal, on_behalf_of: Option<u128> },
    /// It names no operation as it must.
    InvalidId { message: &'static str },
    Running(u128),
    Replay(u128),
    Conflict(u128),
    Full(u128),
    Unavailable(u128),
    /// Its operation began, but its body is no request: the operation is
    /// completed as failed.
    InvalidJson(u128),
    /// Its operation began: carry it out.
    Run { mutation: BrowserMutation, operation_id: u128 },
}

pub type DispatchCheck = Check<DispatchProbe, DispatchVerdict>;

pub type DispatchStep = Step<DispatchProbe, DispatchVerdict>;

/// Which operation a request names, or how a request that names none is told so.
pub open spec fn operation_of(values: Seq<Option<String>>) -> Result<u128, Seq<char>> {
    match operation_registry::requested_id(values) {
        Ok(Some(id)) => Ok(id),
        Ok(None) => Err("The x-dufs-operation-id header is required"@),
        Err(message) => Err(message),
    }
}

/// The content type of a request is JSON.
pub open spec fn is_json(content_types: Seq<Option<String>>) -> bool {
    content_types.len() == 1 && content_types[0] is Some && http_utils::essence_matches(
        http_utils::parsed_essence(content_types[0]->0@),
        "application/json"@,
    )
}

pub open spec fn body_is_read(id: u128, seen: DispatchSeen) -> DispatchCheck {
    match seen.body {
        None => Check::Ask(DispatchProbe::ReadBody),
        Some(Ok(_)) => Check::Pass,
        Some(Err(fault)) => Check::Stop(
            DispatchVerdict::Refuse {
                refusal: if fault == BodyFault::TooLarge {
                    DispatchRefusal::BodyTooLarge
                } else {
                    DispatchRefusal::BrokenBody
                },
                on_behalf_of: Some(id),
            },
        ),
    }
}

pub open spec fn operation_begins(id: u128, seen: DispatchSeen) -> DispatchCheck {
    match seen.begun {
        None => Check::Ask(DispatchProbe::Begin(id)),
        Some(Begun::Started) => Check::Pass,
        Some(Begun::Running) => Check::Stop(DispatchVerdict::Running(id)),
        Some(Begun::Replay) => Check::Stop(DispatchVerdict::Replay(id)),
        Some(Begun::Conflict) => Check::Stop(DispatchVerdict::Conflict(id)),
        Some(Begun::Full) => Check::Stop(DispatchVerdict::Full(id)),
        Some(Begun::Unavailable) => Check::Stop(DispatchVerdict::Unavailable(id)),
    }
}

pub open spec fn request_is_read(id: u128, seen: DispatchSeen) -> DispatchCheck {
    match seen.request {
        None => Check::Ask(DispatchProbe::ReadRequest),
        Some(true) => Check::Pass,
        Some(false) => Check::Stop(DispatchVerdict::InvalidJson(id)),
    }
}

/// The checks of a mutation whose operation has this name, in order.
pub open spec fn mutation_checks(
    id: u128,
    content_types: Seq<Option<String>>,
    seen: DispatchSeen,
) -> DispatchCheck {
    steps::stop_if(
        !is_json(content_types),
        DispatchVerdict::Refuse { refusal: DispatchRefusal::NotJson, on_behalf_of: Some(id) },
    ).followed_by(body_is_read(id, seen)).followed_by(operation_begins(id, seen)).followed_by(
        request_is_read(id, seen),
    )
}

/// How a request goes on, where it names no operation as it must.
pub open spec fn told_invalid(step: DispatchStep, message: Seq<char>) -> bool {
    step matches Step::Done(DispatchVerdict::InvalidId { message: told }) && told@ == message
}

/// Decides how a request to the browser API begins.
pub fn handle_browser_api(
    endpoint: &str,
    operation_values: &Vec<Option<String>>,
    content_types: &Vec<Option<String>>,
    seen: &DispatchSeen,
) -> (step: DispatchStep)
    ensures
        match endpoint_of(endpoint@) {
            BrowserEndpoint::UploadPreflight => step == DispatchStep::Done(
                DispatchVerdict::Preflight,
            ),
            BrowserEndpoint::UploadDiscard => step == DispatchStep::Done(DispatchVerdict::Discard),
            BrowserEndpoint::Unknown => step == DispatchStep::Done(
                DispatchVerdict::Refuse {
                    refusal: DispatchRefusal::UnknownEndpoint,
                    on_behalf_of: None,
                },
            ),
            BrowserEndpoint::Mutation(mutation) => match operation_of(operation_values@) {
                Err(message) => told_invalid(step, message),
                Ok(id) => step == mutation_checks(id, content_types@, *seen).otherwise(
                    DispatchVerdict::Run { mutation, operation_id: id },
                ),
            },
        },
{
    let mutation = match find_endpoint(endpoint) {
        BrowserEndpoint::UploadPreflight => return Step::Done(DispatchVerdict::Preflight),
        BrowserEndpoint::UploadDiscard => return Step::Done(DispatchVerdict::Discard),
        BrowserEndpoint::Unknown => return Step::Done(
            DispatchVerdict::Refuse {
                refusal: DispatchRefusal::UnknownEndpoint,
                on_behalf_of: None,
            },
        ),
        BrowserEndpoint::Mutation(mutation) => mutation,
    };
    let id = match parse_operation_id(operation_values) {
        Ok(Some(id)) => id,
        Ok(None) => return Step::Done(
            DispatchVerdict::InvalidId { message: "The x-dufs-operation-id header is required" },
        ),
        Err(message) => return Step::Done(DispatchVerdict::InvalidId { message }),
    };
    if !request_content_type_is(content_types, "application/json") {
        return Step::Done(
            DispatchVerdict::Refuse { refusal: DispatchRefusal::NotJson, on_behalf_of: Some(id) },
        );
    }
    match seen.body {
        None => return Step::Ask(DispatchProbe::ReadBody),
        Some(Ok(_)) => {},
        Some(Err(BodyFault::TooLarge)) => return Step::Done(
            DispatchVerdict::Refuse {
                refusal: DispatchRefusal::BodyTooLarge,
                on_behalf_of: Some(id),
            },
        ),
        Some(Err(BodyFault::Broken)) => return Step::Done(
            DispatchVerdict::Refuse {
                refusal: DispatchRefusal::BrokenBody,
                on_behalf_of: Some(id),
            },
        ),
    }
    match seen.begun {
        None => return Step::Ask(DispatchProbe::Begin(id)),
        Some(Begun::Started) => {},
        Some(Begun::Running) => return Step::Done(DispatchVerdict::Running(id)),
        Some(Begun::Replay) => return Step::Done(DispatchVerdict::Replay(id)),
        Some(Begun::Conflict) => return Step::Done(DispatchVerdict::Conflict(id)),
        Some(Begun::Full) => return Step::Done(DispatchVerdict::Full(id)),
        Some(Begun::Unavailable) => return Step::Done(DispatchVerdict::Unavailable(id)),
    }
    match seen.request {
        None => Step::Ask(DispatchProbe::ReadRequest),
        Some(true) => Step::Done(DispatchVerdict::Run { mutation, operation_id: id }),
        Some(false) => Step::Done(DispatchVerdict::InvalidJson(id)),
    }
}

/// A mutation is carried out only where this very operation was started for it,
/// with a JSON body that is the request that its endpoint takes.
pub proof fn law_mutations_run_in_their_operation(
    id: u128,
    content_types: Seq<Option<String>>,
    seen: DispatchSeen,
)
    requires
        mutation_checks(id, content_types, seen) is Pass,
    ensures
        is_json(content_types),
        seen.body matches Some(Ok(_)),
        seen.begun == Some(Begun::Started),
        seen.request == Some(true),
{
}

/// The parts of a request that its fingerprint is made of.
pub open spec fn fingerprint_parts(endpoint: Seq<char>, body: Seq<u8>) -> Seq<Seq<u8>> {
    seq![seq![80u8, 79u8, 83u8, 84u8], encode_utf8(endpoint), body]
}

/// The fingerprint by which a repeated request is told from another one.
pub fn request_fingerprint(endpoint: &str, body: &[u8]) -> (fingerprint: OperationFingerprint)
    ensures
        fingerprint.bytes@ == fingerprint_of(endpoint@, body@),
{
    let method: [u8; 4] = [80, 79, 83, 84];
    let parts: [&[u8]; 3] = [&method, endpoint.as_bytes(), body];
    let fingerprint = OperationFingerprint::new(&parts);
    proof {
        assert(method@ =~= seq![80u8, 79u8, 83u8, 84u8]);
        assert(operation_registry::byte_strings(parts@) =~= fingerprint_parts(endpoint@, body@));
    }
    fingerprint
}

/// The bytes by which a repeated request is told from another one.
pub open spec fn fingerprint_of(endpoint: Seq<char>, body: Seq<u8>) -> Seq<u8> {
    identifiers::sha256(operation_registry::framed(fingerprint_parts(endpoint, body)))
}

/// A request that no operation was started for carries nothing out, and its body is
/// not even read as a request.
pub proof fn law_nothing_runs_without_an_operation(
    id: u128,
    content_types: Seq<Option<String>>,
    seen: DispatchSeen,
)
    requires
        seen.begun != Some(Begun::Started),
    ensures
        !(mutation_checks(id, content_types, seen) is Pass),
        mutation_checks(id, content_types, seen) != DispatchCheck::Ask(DispatchProbe::ReadRequest),
{
}

/// A request that is repeated under the name of an operation that has ended gets the
/// recorded outcome again, marked as such, and changes nothing. Another request under
/// that name is refused as a conflict and changes nothing either; it is told from the
/// first one by its fingerprint.
pub proof fn law_repeated_requests_change_nothing(
    kept: KeptOperation,
    written: OperationOutcome,
    first: (Seq<char>, Seq<u8>),
    again: (Seq<char>, Seq<u8>),
    key: OperationKey,
    begun: BeginOperation,
    content_types: Seq<Option<String>>,
    seen: DispatchSeen,
    response: ResponseView,
)
    requires
        OperationOutcome::is_terminal(written.status(), written.state(), written.error()),
        kept.outcome.records(written),
        kept.fingerprint == fingerprint_of(first.0, first.1),
        operation_registry::reads_answer(
            key,
            Ok(kept.answer(fingerprint_of(again.0, again.1))),
            Ok(begun),
        ),
        is_json(content_types),
        seen.body matches Some(Ok(_)),
        seen.begun == Some(told(begun)),
    ensures
        again == first ==> {
            let answered = operation_registry::outcome_response(response, key.id, written, true);
            &&& begun == BeginOperation::Replay(written)
            &&& mutation_checks(key.id, content_types, seen) == DispatchCheck::Stop(
                DispatchVerdict::Replay(key.id),
            )
            &&& answered.status == written.status()
            &&& answered.headers.dom().contains("x-dufs-operation-replayed"@)
            &&& answered.headers["x-dufs-operation-replayed"@] == "true"@
            &&& written.error() matches Some(error) ==> (answered.body matches BodyView::Problem(
                document,
            ) && document.code == error.public_code())
        },
        fingerprint_of(again.0, again.1) != fingerprint_of(first.0, first.1) ==> {
            let answered = operation_registry::conflict_response(response, key.id);
            &&& mutation_checks(key.id, content_types, seen) == DispatchCheck::Stop(
                DispatchVerdict::Conflict(key.id),
            )
            &&& answered.status == 409
            &&& answered.body matches BodyView::Problem(document) && document.code
                == ErrorCode::OperationIdConflict
        },
{
    operation_registry::law_ended_operations_are_not_begun_again(
        kept,
        written,
        fingerprint_of(again.0, again.1),
        key,
        Ok(begun),
    );
    reveal_strlit("x-dufs-operation-replayed");
    reveal_strlit("content-type");
    reveal_strlit("retry-after");
    assert("x-dufs-operation-replayed"@.len() == 25);
    assert("content-type"@.len() == 12);
    assert("retry-after"@.len() == 11);
}

/// Two requests are hashed from the same bytes only where their endpoints and
/// bodies are the same.
pub proof fn law_fingerprints_cover_the_request(
    left_endpoint: Seq<char>,
    left_body: Seq<u8>,
    right_endpoint: Seq<char>,
    right_body: Seq<u8>,
)
    requires
        operation_registry::framed(fingerprint_parts(left_endpoint, left_body))
            == operation_registry::framed(fingerprint_parts(right_endpoint, right_body)),
        operation_registry::frames_fit(fingerprint_parts(left_endpoint, left_body)),
        operation_registry::frames_fit(fingerprint_parts(right_endpoint, right_body)),
    ensures
        left_endpoint == right_endpoint,
        left_body == right_body,
{
    let left = fingerprint_parts(left_endpoint, left_body);
    let right = fingerprint_parts(right_endpoint, right_body);
    operation_registry::law_frames_are_injective(left, right);
    assert(left[1] == right[1] && left[2] == right[2]);
    crate::text::lemma_encoding_is_injective(left_endpoint, right_endpoint);
}

/// What reading the body of a request without an operation looks at next.
#[derive(Clone, Copy, Debug, Eq, PartialEq, Structural)]
pub enum BodyProbe {
    ReadBody,
}

/// How a request without an operation goes on by its content type and body.
pub open spec fn untracked_body(
    content_types: Seq<Option<String>>,
    body: Option<Result<(), BodyFault>>,
) -> Step<BodyProbe, Result<(), DispatchRefusal>> {
    if !is_json(content_types) {
        Step::Done(Err(DispatchRefusal::NotJson))
    } else {
        match body {
            None => Step::Ask(BodyProbe::ReadBody),
            Some(Ok(_)) => Step::Done(Ok(())),
            Some(Err(BodyFault::TooLarge)) => Step::Done(Err(DispatchRefusal::BodyTooLarge)),
            Some(Err(BodyFault::Broken)) => Step::Done(Err(DispatchRefusal::BrokenBody)),
        }
    }
}

/// Decides the body of a request without an operation: read it, refuse the
/// request, or go on.
pub fn collect_untracked_api_body(
    content_types: &Vec<Option<String>>,
    body: &Option<Result<(), BodyFault>>,
) -> (step: Step<BodyProbe, Result<(), DispatchRefusal>>)
    ensures
        step == untracked_body(content_types@, *body),
{
    if !request_content_type_is(content_types, "application/json") {
        return Step::Done(Err(DispatchRefusal::NotJson));
    }
    match body {
        None => Step::Ask(BodyProbe::ReadBody),
        Some(Ok(_)) => Step::Done(Ok(())),
        Some(Err(BodyFault::TooLarge)) => Step::Done(Err(DispatchRefusal::BodyTooLarge)),
        Some(Err(BodyFault::Broken)) => Step::Done(Err(DispatchRefusal::BrokenBody)),
    }
}

/// Why an upload cannot be discarded.
#[derive(Clone, Copy, Debug, Eq, PartialEq, Structural)]
pub enum DiscardRefusal {
    InvalidJson,
    InvalidUploadId,
    InvalidPath,
}

impl DiscardRefusal {
    pub open spec fn error(self) -> ApiErrorView {
        match self {
            DiscardRefusal::InvalidJson => ApiErrorView::new(
                400,
                ErrorCode::InvalidJson,
                "Invalid staged-upload discard JSON"@,
            ),
            DiscardRefusal::InvalidUploadId => ApiErrorView::new(
                400,
                ErrorCode::InvalidUploadId,
                "Upload ID must be a canonical UUID"@,
            ),
            DiscardRefusal::InvalidPath => ApiErrorView::new(
                400,
                ErrorCode::InvalidPath,
                "Staged-upload discard path is invalid"@,
            ),
        }
    }

    /// Answers a request with the refusal.
    pub fn respond(self, response: &mut Response)
        ensures
            final(response)@ == problem::problem_response(old(response)@, self.error()),
    {
        match self {
            DiscardRefusal::InvalidJson => status_api_error(
                response,
                400,
                ErrorCode::InvalidJson,
                "Invalid staged-upload discard JSON",
                None,
            ),
            DiscardRefusal::InvalidUploadId => status_api_error(
                response,
                400,
                ErrorCode::InvalidUploadId,
                "Upload ID must be a canonical UUID",
                None,
            ),
            DiscardRefusal::InvalidPath => status_api_error(
                response,
                400,
                ErrorCode::InvalidPath,
                "Staged-upload discard path is invalid",
                None,
            ),
        }
    }
}

/// What discarding an upload looks at next.
#[derive(Clone, Copy, Debug, Eq, PartialEq, Structural)]
pub enum DiscardProbe {
    Escape,
    /// Whether the path is one of the platform's or below one, or above one where
    /// those are protected as well.
    Platform { protect_ancestors: bool },
    TakePath,
}

/// What discarding an upload has seen so far.
#[derive(Clone, Copy)]
pub struct DiscardSeen {
    pub escapes: Option<Result<bool, IoFailure>>,
    pub is_platform: Option<Result<bool, IoFailure>>,
    pub path: Option<bool>,
}

/// How discarding an upload goes on.
#[derive(Clone, Copy, Debug, Eq, PartialEq, Structural)]
pub enum DiscardVerdict {
    Refuse(DiscardRefusal),
    NoPath,
    Fail(IoFailure),
    /// Discard the upload of this name.
    Discard(u128),
}

pub type DiscardCheck = Check<DiscardProbe, DiscardVerdict>;

pub open spec fn discard_not_so(
    seen: Option<Result<bool, IoFailure>>,
    probe: DiscardProbe,
) -> DiscardCheck {
    match seen {
        None => Check::Ask(probe),
        Some(Ok(false)) => Check::Pass,
        Some(Ok(true)) => Check::Stop(DiscardVerdict::Refuse(DiscardRefusal::InvalidPath)),
        Some(Err(failure)) => Check::Stop(DiscardVerdict::Fail(failure)),
    }
}

fn next_discard(seen: &Option<Result<bool, IoFailure>>, probe: DiscardProbe) -> (check: DiscardCheck)
    ensures
        check == discard_not_so(*seen, probe),
{
    match seen {
        None => Check::Ask(probe),
        Some(Ok(false)) => Check::Pass,
        Some(Ok(true)) => Check::Stop(DiscardVerdict::Refuse(DiscardRefusal::InvalidPath)),
        Some(Err(failure)) => Check::Stop(DiscardVerdict::Fail(*failure)),
    }
}

/// The checks of discarding an upload, in order.
pub open spec fn discard_checks(
    policy: PathPolicy,
    upload_id: Seq<char>,
    path: Seq<char>,
    seen: DiscardSeen,
) -> DiscardCheck {
    let taken: DiscardCheck = match seen.path {
        None => Check::Ask(DiscardProbe::TakePath),
        Some(true) => Check::Pass,
        Some(false) => Check::Stop(DiscardVerdict::NoPath),
    };
    steps::stop_if::<DiscardProbe, DiscardVerdict>(
        identifiers::canonical_id(upload_id) is None,
        DiscardVerdict::Refuse(DiscardRefusal::InvalidUploadId),
    ).followed_by(
        steps::stop_if(
            !policy.is_browser_target(path),
            DiscardVerdict::Refuse(DiscardRefusal::InvalidPath),
        ),
    ).followed_by(discard_not_so(seen.escapes, DiscardProbe::Escape)).followed_by(
        discard_not_so(seen.is_platform, DiscardProbe::Platform { protect_ancestors: false }),
    ).followed_by(taken)
}

/// Decides how discarding an upload goes on.
pub fn handle_upload_discard(
    policy: &PathPolicy,
    upload_id: &str,
    path: &str,
    seen: &DiscardSeen,
) -> (step: Step<DiscardProbe, DiscardVerdict>)
    ensures
        step == discard_checks(*policy, upload_id@, path@, *seen).otherwise(
            DiscardVerdict::Discard(identifiers::canonical_id(upload_id@)->0),
        ),
{
    let id = match parse_canonical_operation_id(upload_id) {
        Some(id) => id,
        None => return Step::Done(DiscardVerdict::Refuse(DiscardRefusal::InvalidUploadId)),
    };
    if policy.parse_browser_target(path).is_none() {
        return Step::Done(DiscardVerdict::Refuse(DiscardRefusal::InvalidPath));
    }
    if let Err(step) = next_discard(&seen.escapes, DiscardProbe::Escape).settle() {
        return step;
    }
    if let Err(step) = next_discard(&seen.is_platform, DiscardProbe::Platform { protect_ancestors: false }).settle() {
        return step;
    }
    match seen.path {
        None => Step::Ask(DiscardProbe::TakePath),
        Some(true) => Step::Done(DiscardVerdict::Discard(id)),
        Some(false) => Step::Done(DiscardVerdict::NoPath),
    }
}

/// Each endpoint of the browser API is found under its path, and nothing else is.
pub proof fn law_endpoints_have_their_paths(path: Seq<char>)
    ensures
        endpoint_of("__dufs__/api/upload/preflight"@) == BrowserEndpoint::UploadPreflight,
        endpoint_of("__dufs__/api/upload/discard"@) == BrowserEndpoint::UploadDiscard,
        endpoint_of("__dufs__/api/mkdir"@) == BrowserEndpoint::Mutation(BrowserMutation::Mkdir),
        endpoint_of("__dufs__/api/move"@) == BrowserEndpoint::Mutation(BrowserMutation::Move),
        endpoint_of("__dufs__/api/rename"@) == BrowserEndpoint::Mutation(BrowserMutation::Rename),
        endpoint_of(path) == BrowserEndpoint::Unknown <==> path
            != "__dufs__/api/upload/preflight"@ && path != "__dufs__/api/upload/discard"@ && path
            != "__dufs__/api/mkdir"@ && path != "__dufs__/api/move"@ && path
            != "__dufs__/api/rename"@,
{
    reveal_strlit("__dufs__/api/upload/preflight");
    reveal_strlit("__dufs__/api/upload/discard");
    reveal_strlit("__dufs__/api/mkdir");
    reveal_strlit("__dufs__/api/move");
    reveal_strlit("__dufs__/api/rename");
    assert("__dufs__/api/upload/preflight"@.len() == 29);
    assert("__dufs__/api/upload/discard"@.len() == 27);
    assert("__dufs__/api/mkdir"@.len() == 18);
    assert("__dufs__/api/move"@.len() == 17);
    assert("__dufs__/api/rename"@.len() == 19);
}

/// A mutation with a JSON body whose operation was started, and whose body is the
/// request that its endpoint takes, is carried out.
pub proof fn law_fit_mutations_are_carried_out(
    id: u128,
    content_types: Seq<Option<String>>,
    seen: DispatchSeen,
)
    requires
        is_json(content_types),
        seen.body == Some(Ok::<(), BodyFault>(())),
        seen.begun == Some(Begun::Started),
        seen.request == Some(true),
    ensures
        mutation_checks(id, content_types, seen) is Pass,
{
}

/// Each way in which a mutation does not begin has its cause, and is answered for the
/// operation that it named.
pub proof fn law_unfit_mutations_have_their_cause(
    id: u128,
    content_types: Seq<Option<String>>,
    seen: DispatchSeen,
    verdict: DispatchVerdict,
)
    requires
        mutation_checks(id, content_types, seen) == DispatchCheck::Stop(verdict),
    ensures
        match verdict {
            DispatchVerdict::Refuse { refusal, on_behalf_of } => on_behalf_of == Some(id) && (
            match refusal {
                DispatchRefusal::NotJson => !is_json(content_types),
                DispatchRefusal::BodyTooLarge => seen.body == Some(
                    Err::<(), BodyFault>(BodyFault::TooLarge),
                ),
                DispatchRefusal::BrokenBody => seen.body == Some(
                    Err::<(), BodyFault>(BodyFault::Broken),
                ),
                DispatchRefusal::UnknownEndpoint => false,
            }),
            DispatchVerdict::Running(named) => named == id && seen.begun == Some(Begun::Running),
            DispatchVerdict::Replay(named) => named == id && seen.begun == Some(Begun::Replay),
            DispatchVerdict::Conflict(named) => named == id && seen.begun == Some(Begun::Conflict),
            DispatchVerdict::Full(named) => named == id && seen.begun == Some(Begun::Full),
            DispatchVerdict::Unavailable(named) => named == id && seen.begun == Some(
                Begun::Unavailable,
            ),
            DispatchVerdict::InvalidJson(named) => named == id && seen.begun == Some(Begun::Started)
                && seen.request == Some(false),
            _ => false,
        },
{
}

/// The body of a mutation is read before its operation begins, and the operation that
/// begins is the one that it named; nothing is done twice.
pub proof fn law_mutations_begin_once(
    id: u128,
    content_types: Seq<Option<String>>,
    seen: DispatchSeen,
    probe: DispatchProbe,
)
    requires
        mutation_checks(id, content_types, seen) == DispatchCheck::Ask(probe),
    ensures
        is_json(content_types),
        match probe {
            DispatchProbe::ReadBody => seen.body is None,
            DispatchProbe::Begin(named) => named == id && seen.begun is None && (
            seen.body matches Some(Ok(_))),
            DispatchProbe::ReadRequest => seen.request is None && seen.begun == Some(
                Begun::Started,
            ),
        },
{
}

/// What the registry answered is what a request goes by.
pub proof fn law_answers_of_the_registry_are_kept_apart(begun: BeginOperation)
    ensures
        told(begun) == Begun::Started <==> begun is Started,
        told(begun) == Begun::Running <==> begun is Running,
        told(begun) == Begun::Replay <==> begun is Replay,
        told(begun) == Begun::Conflict <==> begun is Conflict,
        told(begun) == Begun::Full <==> begun is Full,
        told(begun) == Begun::Unavailable <==> begun is Unavailable,
{
}

/// A request has a JSON body where it names one content type and that is the one of
/// JSON, however its letters are written.
pub proof fn law_json_is_named_once(content_types: Seq<Option<String>>)
    ensures
        is_json(content_types) ==> content_types.len() == 1 && content_types[0] is Some,
        content_types.len() == 1 && content_types[0] is Some && http_utils::parsed_essence(
            content_types[0]->0@,
        ) == Some("application/json"@) ==> is_json(content_types),
        content_types.len() == 1 && content_types[0] is Some && http_utils::parsed_essence(
            content_types[0]->0@,
        ) is None ==> !is_json(content_types),
{
}

/// Without an operation a request goes on exactly where its body is JSON and was read.
pub proof fn law_untracked_bodies(
    content_types: Seq<Option<String>>,
    body: Option<Result<(), BodyFault>>,
)
    ensures
        untracked_body(content_types, body) == Step::<BodyProbe, Result<(), DispatchRefusal>>::Done(
            Ok(()),
        ) <==> is_json(content_types) && (body matches Some(Ok(_))),
        untracked_body(content_types, body) == Step::<BodyProbe, Result<(), DispatchRefusal>>::Done(
            Err(DispatchRefusal::NotJson),
        ) <==> !is_json(content_types),
        untracked_body(content_types, body) == Step::<BodyProbe, Result<(), DispatchRefusal>>::Done(
            Err(DispatchRefusal::BodyTooLarge),
        ) <==> is_json(content_types) && body == Some(Err::<(), BodyFault>(BodyFault::TooLarge)),
        untracked_body(content_types, body) == Step::<BodyProbe, Result<(), DispatchRefusal>>::Done(
            Err(DispatchRefusal::BrokenBody),
        ) <==> is_json(content_types) && body == Some(Err::<(), BodyFault>(BodyFault::Broken)),
        untracked_body(content_types, body) is Ask <==> is_json(content_types) && body is None,
{
}

/// An upload is discarded where its identifier is canonical, its path can be named, does
/// not leave the root and is not the platform's, and the path was taken.
pub proof fn law_fit_uploads_are_discarded(
    policy: PathPolicy,
    upload_id: Seq<char>,
    path: Seq<char>,
    seen: DiscardSeen,
)
    requires
        identifiers::canonical_id(upload_id) is Some,
        policy.is_browser_target(path),
        seen.escapes == Some(Ok::<bool, IoFailure>(false)),
        seen.is_platform == Some(Ok::<bool, IoFailure>(false)),
        seen.path == Some(true),
    ensures
        discard_checks(policy, upload_id, path, seen) is Pass,
{
}

/// Each end of discarding an upload has its cause, and only what is not known yet is
/// looked at.
pub proof fn law_refused_discards_have_their_cause(
    policy: PathPolicy,
    upload_id: Seq<char>,
    path: Seq<char>,
    seen: DiscardSeen,
)
    ensures
        match discard_checks(policy, upload_id, path, seen) {
            Check::Pass => identifiers::canonical_id(upload_id) is Some && policy.is_browser_target(
                path,
            ) && seen.escapes == Some(Ok::<bool, IoFailure>(false)) && seen.is_platform == Some(
                Ok::<bool, IoFailure>(false),
            ) && seen.path == Some(true),
            Check::Ask(DiscardProbe::Escape) => seen.escapes is None,
            Check::Ask(DiscardProbe::Platform { protect_ancestors }) => !protect_ancestors
                && seen.is_platform is None,
            Check::Ask(DiscardProbe::TakePath) => seen.path is None,
            Check::Stop(DiscardVerdict::Refuse(DiscardRefusal::InvalidUploadId)) =>
                identifiers::canonical_id(upload_id) is None,
            Check::Stop(DiscardVerdict::Refuse(DiscardRefusal::InvalidPath)) =>
                !policy.is_browser_target(path) || seen.escapes == Some(Ok::<bool, IoFailure>(true))
                || seen.is_platform == Some(Ok::<bool, IoFailure>(true)),
            Check::Stop(DiscardVerdict::NoPath) => seen.path == Some(false),
            Check::Stop(DiscardVerdict::Fail(failure)) => seen.escapes == Some(
                Err::<bool, IoFailure>(failure),
            ) || seen.is_platform == Some(Err::<bool, IoFailure>(failure)),
            Check::Stop(_) => false,
        },
{
    if let Some(Ok(escapes)) = seen.escapes {
        assert(escapes ==> seen.escapes == Some(Ok::<bool, IoFailure>(true)));
        assert(!escapes ==> seen.escapes == Some(Ok::<bool, IoFailure>(false)));
    }
    if let Some(Ok(so)) = seen.is_platform {
        assert(so ==> seen.is_platform == Some(Ok::<bool, IoFailure>(true)));
        assert(!so ==> seen.is_platform == Some(Ok::<bool, IoFailure>(false)));
    }
}

/// Each refusal has its status: no such endpoint, not JSON, too large, broken.
pub proof fn law_refusals_have_their_status(refusal: DispatchRefusal, discard: DiscardRefusal)
    ensures
        refusal.error().status == (match refusal {
            DispatchRefusal::UnknownEndpoint => 404u16,
            DispatchRefusal::NotJson => 415u16,
            DispatchRefusal::BodyTooLarge => 413u16,
            DispatchRefusal::BrokenBody => 400u16,
        }),
        discard.error().status == 400,
{
}

/// A mutation is carried out under the one operation that its request names. One that
/// names none is told that it must, and one that names it wrongly is told how.
pub proof fn law_mutations_name_their_operation(values: Seq<Option<String>>)
    ensures
        values.len() == 0 ==> operation_of(values) == Err::<u128, Seq<char>>(
            "The x-dufs-operation-id header is required"@,
        ),
        values.len() > 1 ==> operation_of(values) is Err,
        values.len() == 1 ==> (operation_of(values) is Ok <==> values[0] is Some
            && identifiers::canonical_id(values[0]->0@) is Some),
        operation_of(values) matches Ok(id) ==> identifiers::canonical_id(values[0]->0@) == Some(
            id,
        ),
{
    operation_registry::law_requests_name_one_operation(values);
}

/// The fingerprint of a request is made of its method, its endpoint and its body.
pub proof fn law_fingerprints_have_three_parts(endpoint: Seq<char>, body: Seq<u8>)
    ensures
        fingerprint_parts(endpoint, body).len() == 3,
        fingerprint_parts(endpoint, body)[0] == encode_utf8("POST"@),
        fingerprint_parts(endpoint, body)[1] == encode_utf8(endpoint),
        fingerprint_parts(endpoint, body)[2] == body,
{
    reveal_strlit("POST");
    is_ascii_chars_encode_utf8("POST"@);
    assert(encode_utf8("POST"@) =~= seq![80u8, 79u8, 83u8, 84u8]);
}

} // verus!
