//! The server as a whole: its admission limits, its look at paths before a
//! method is chosen, and small answers.
use crate::app_error;
use crate::app_error::{apply_app_error, AppError};
use crate::args::Args;
use crate::identifiers;
use crate::identifiers::hyphenated_text;
use crate::io_error::{IoErrorKind, IoFailure};
use crate::operation_registry;
use crate::operation_registry::set_operation_headers;
use crate::paths;
use crate::paths::LexicalPath;
use crate::problem;
use crate::problem::{
    render_problem, ApiError, ApiErrorView, ErrorCode, OperationProblemContext,
    OperationPublicState, RecoveryAdvice, UploadContextView, UploadProblemContext,
    UploadPublicState,
};
use crate::response::{Body, BodyView, Response, ResponseView};
use crate::steps::Step;
use crate::text;
use crate::text::{split_text, trim_leading};
use crate::uri;
use crate::uri::upper_hex_character;
use vstd::prelude::*;
use vstd::string::*;
use vstd::utf8::*;

verus! {

pub const NON_UPLOAD_MUTATION_CAPACITY: usize = 64;

pub const READINESS_PROBE_CAPACITY: usize = 1;

pub const STATE_PATH_SCAN_CAPACITY: usize = 4;

pub const STATE_PATH_SCAN_ADMISSION_ERROR: &'static str =
    "Durable state path scan admission is at capacity";

pub const STATE_PATH_ADMISSION_PAGE_SIZE: usize = 256;

/// The most requests that hold or wait for a path at once.
pub const PATH_WAIT_CAPACITY_LIMIT: usize = 64;

pub const PATH_WAIT_LIMIT_DETAIL: &'static str = "Too many path-coordinated requests are active";

/// Builds a server from its settings.
pub struct ServerBuilder {
    args: Args,
    isolated_list_snapshot_cache: bool,
}

impl ServerBuilder {
    pub closed spec fn settings(self) -> Args {
        self.args
    }

    /// The server gets a cache of listings that it shares with no other.
    pub closed spec fn is_isolated(self) -> bool {
        self.isolated_list_snapshot_cache
    }

    pub fn new(args: Args) -> (builder: ServerBuilder)
        ensures
            builder.settings() == args,
            !builder.is_isolated(),
    {
        ServerBuilder { args, isolated_list_snapshot_cache: false }
    }

    /// Gives the server a cache of listings of its own. By default the servers of
    /// a process share one, so that a cursor is good for each of them.
    pub fn with_isolated_list_snapshot_cache(self) -> (builder: ServerBuilder)
        ensures
            builder.settings() == self.settings(),
            builder.is_isolated(),
    {
        ServerBuilder { args: self.args, isolated_list_snapshot_cache: true }
    }

    /// The settings, and whether the cache of listings is the server's own.
    pub fn into_parts(self) -> (parts: (Args, bool))
        ensures
            parts == (self.settings(), self.is_isolated()),
    {
        (self.args, self.isolated_list_snapshot_cache)
    }
}

/// How many requests may hold or wait for a path at once: all but one of the
/// connections, and in any case one request.
pub open spec fn path_waiters(max_connections: int) -> int {
    if max_connections - 1 > PATH_WAIT_CAPACITY_LIMIT {
        PATH_WAIT_CAPACITY_LIMIT as int
    } else if max_connections > 2 {
        max_connections - 1
    } else {
        1
    }
}

pub fn path_wait_capacity(max_connections: usize) -> (capacity: usize)
    ensures
        capacity == path_waiters(max_connections as int),
{
    let others = max_connections.saturating_sub(1);
    let wanted = if others > 1 {
        others
    } else {
        1
    };
    if wanted < PATH_WAIT_CAPACITY_LIMIT {
        wanted
    } else {
        PATH_WAIT_CAPACITY_LIMIT
    }
}

/// Requests that hold or wait for a path never take every connection, where there
/// is more than one.
pub proof fn law_path_waiters_leave_a_connection(max_connections: int)
    requires
        max_connections >= 2,
    ensures
        1 <= path_waiters(max_connections) < max_connections,
{
}

pub open spec fn path_wait_error() -> ApiErrorView {
    ApiErrorView::new(
        429,
        ErrorCode::PathWaitConcurrencyLimit,
        PATH_WAIT_LIMIT_DETAIL@,
    ).with_recovery(RecoveryAdvice::RetryAfterSeconds(1))
}

pub fn path_wait_limit_error() -> (error: ApiError)
    ensures
        error@ == path_wait_error(),
{
    ApiError::new(
        429,
        ErrorCode::PathWaitConcurrencyLimit,
        PATH_WAIT_LIMIT_DETAIL,
    ).with_recovery(RecoveryAdvice::RetryAfterSeconds(1))
}

/// The answer to a request that got no path.
pub open spec fn path_wait_response(response: ResponseView, operation_id: Option<u128>) -> ResponseView {
    match operation_id {
        None => problem::problem_response(response, path_wait_error()),
        Some(id) => operation_registry::operation_problem(
            response,
            id,
            OperationPublicState::Rejected,
            None,
            path_wait_error(),
        ),
    }
}

/// Answers a request that got no path.
pub fn render_path_wait_limit(response: &mut Response, operation_id: Option<u128>)
    ensures
        final(response)@ == path_wait_response(old(response)@, operation_id),
{
    let error = path_wait_limit_error();
    match operation_id {
        None => render_problem(response, &error),
        Some(id) => {
            set_operation_headers(response, id, OperationPublicState::Rejected);
            let context = OperationProblemContext::new(
                hyphenated_text(id),
                OperationPublicState::Rejected,
                None,
            );
            render_problem(response, &error.with_operation(context));
        },
    }
}

/// How a tracked upload is answered whose deadline passed. An upload that could
/// still be called off has not started; otherwise its outcome is unknown.
pub open spec fn upload_deadline_error(
    called_off: bool,
    upload_id: u128,
    upload_length: u64,
    upload_offset: Option<u64>,
) -> ApiErrorView {
    let error = if called_off {
        ApiErrorView::new(
            408,
            ErrorCode::RequestTimeout,
            "Upload deadline exceeded before any upload mutation"@,
        ).with_recovery(RecoveryAdvice::Retry)
    } else {
        ApiErrorView::new(
            408,
            ErrorCode::UploadOutcomeUnknown,
            "Upload deadline exceeded; the final result is unknown"@,
        ).with_recovery(RecoveryAdvice::QueryUpload)
    };
    error.with_upload(
        UploadContextView {
            upload_id: identifiers::hyphenated(upload_id),
            state: if called_off {
                UploadPublicState::NotStarted
            } else {
                UploadPublicState::Unknown
            },
            upload_length: Some(upload_length),
            upload_offset,
        },
    )
}

/// Answers for a tracked upload whose deadline passed.
pub fn expired_upload_error(
    called_off: bool,
    upload_id: u128,
    upload_length: u64,
    upload_offset: Option<u64>,
) -> (error: ApiError)
    ensures
        error@ == upload_deadline_error(called_off, upload_id, upload_length, upload_offset),
{
    if called_off {
        ApiError::new(
            408,
            ErrorCode::RequestTimeout,
            "Upload deadline exceeded before any upload mutation",
        ).with_recovery(RecoveryAdvice::Retry).with_upload(
            UploadProblemContext::new(
                hyphenated_text(upload_id),
                UploadPublicState::NotStarted,
                Some(upload_length),
                upload_offset,
            ),
        )
    } else {
        ApiError::new(
            408,
            ErrorCode::UploadOutcomeUnknown,
            "Upload deadline exceeded; the final result is unknown",
        ).with_recovery(RecoveryAdvice::QueryUpload).with_upload(
            UploadProblemContext::new(
                hyphenated_text(upload_id),
                UploadPublicState::Unknown,
                Some(upload_length),
                upload_offset,
            ),
        )
    }
}

/// What the probes of a readiness check found.
#[derive(Clone, Copy, Debug, Eq, PartialEq, Structural)]
pub struct ReadinessProbes {
    pub root_writable: bool,
    /// Whether the disk has room, if that could be told.
    pub disk_has_room: Option<bool>,
    pub state_ready: bool,
}

/// What a readiness check looks at next.
#[derive(Clone, Copy, Debug, Eq, PartialEq, Structural)]
pub enum ReadinessProbe {
    EnterRequest,
    TakePlace,
    RunProbes,
    Lifecycle,
}

/// What is known of the server besides its probes.
#[derive(Clone, Copy, Debug, Eq, PartialEq, Structural)]
pub struct ServerHealth {
    pub registry_healthy: bool,
    pub shutting_down: bool,
    pub forced_down: bool,
}

/// What a readiness check has seen so far.
#[derive(Clone, Copy)]
pub struct ReadinessSeen {
    pub entered: Option<bool>,
    pub place: Option<bool>,
    /// What the probes found, unless they did not come back.
    pub probes: Option<Option<ReadinessProbes>>,
    pub health: Option<ServerHealth>,
}

pub open spec fn readiness(seen: ReadinessSeen) -> Step<ReadinessProbe, bool> {
    match seen.entered {
        None => Step::Ask(ReadinessProbe::EnterRequest),
        Some(false) => Step::Done(false),
        Some(true) => match seen.place {
            None => Step::Ask(ReadinessProbe::TakePlace),
            Some(false) => Step::Done(false),
            Some(true) => match seen.probes {
                None => Step::Ask(ReadinessProbe::RunProbes),
                Some(None) => Step::Done(false),
                Some(Some(probes)) => if !probes.root_writable || probes.disk_has_room != Some(true)
                    || !probes.state_ready {
                    Step::Done(false)
                } else {
                    match seen.health {
                        None => Step::Ask(ReadinessProbe::Lifecycle),
                        Some(health) => Step::Done(
                            health.registry_healthy && !health.shutting_down
                                && !health.forced_down,
                        ),
                    }
                },
            },
        },
    }
}

/// Decides whether the server is ready.
pub fn probe_readiness(seen: &ReadinessSeen) -> (step: Step<ReadinessProbe, bool>)
    ensures
        step == readiness(*seen),
{
    match seen.entered {
        None => return Step::Ask(ReadinessProbe::EnterRequest),
        Some(false) => return Step::Done(false),
        Some(true) => {},
    }
    match seen.place {
        None => return Step::Ask(ReadinessProbe::TakePlace),
        Some(false) => return Step::Done(false),
        Some(true) => {},
    }
    let probes = match seen.probes {
        None => return Step::Ask(ReadinessProbe::RunProbes),
        Some(None) => return Step::Done(false),
        Some(Some(probes)) => probes,
    };
    let disk_has_room = match probes.disk_has_room {
        Some(has_room) => has_room,
        None => false,
    };
    if !probes.root_writable || !disk_has_room || !probes.state_ready {
        return Step::Done(false);
    }
    match seen.health {
        None => Step::Ask(ReadinessProbe::Lifecycle),
        Some(health) => Step::Done(
            health.registry_healthy && !health.shutting_down && !health.forced_down,
        ),
    }
}

/// A server that is ready was reached, could write below its root, has room on
/// its disk and a working state store, and is not going down.
pub proof fn law_ready_servers_work(seen: ReadinessSeen)
    requires
        readiness(seen) == Step::<ReadinessProbe, bool>::Done(true),
    ensures
        seen.probes matches Some(Some(probes)) && probes.root_writable && probes.disk_has_room
            == Some(true) && probes.state_ready,
        seen.health matches Some(health) && health.registry_healthy && !health.shutting_down
            && !health.forced_down,
{
}

/// How a path is looked at before a method is chosen.
#[derive(Clone, Copy, Debug, Eq, PartialEq, Structural)]
pub enum RouteProbe {
    Follow,
    /// Look at the last name itself, even if it is a symbolic link.
    NoFollow,
}

/// What a route leads to: what was found, nothing, or a failure.
#[derive(Clone, Copy, Debug, Eq, PartialEq, Structural)]
pub enum RouteFound {
    /// What following the path found.
    Target,
    /// What looking at the last name found.
    Link,
    Nothing,
    Fail(IoFailure),
}

/// What a route leads to. A link that leads nowhere is shown as itself; a path
/// that leaves the root is invisible.
pub open spec fn route_found(
    followed: Option<Result<(), IoFailure>>,
    link: Option<Result<(), IoFailure>>,
) -> Step<RouteProbe, RouteFound> {
    match followed {
        None => Step::Ask(RouteProbe::Follow),
        Some(Ok(_)) => Step::Done(RouteFound::Target),
        Some(Err(failure)) => if failure.kind == IoErrorKind::NotFound || failure.loops() {
            match link {
                None => Step::Ask(RouteProbe::NoFollow),
                Some(Ok(_)) => Step::Done(RouteFound::Link),
                Some(Err(failure)) => Step::Done(
                    if failure.missing() {
                        RouteFound::Nothing
                    } else {
                        RouteFound::Fail(failure)
                    },
                ),
            }
        } else if failure.escapes() || failure.kind == IoErrorKind::NotADirectory {
            Step::Done(RouteFound::Nothing)
        } else {
            Step::Done(RouteFound::Fail(failure))
        },
    }
}

/// Decides what a route leads to.
pub fn route_metadata(
    followed: &Option<Result<(), IoFailure>>,
    link: &Option<Result<(), IoFailure>>,
) -> (step: Step<RouteProbe, RouteFound>)
    ensures
        step == route_found(*followed, *link),
{
    let failure = match followed {
        None => return Step::Ask(RouteProbe::Follow),
        Some(Ok(_)) => return Step::Done(RouteFound::Target),
        Some(Err(failure)) => *failure,
    };
    if failure.kind == IoErrorKind::NotFound || failure.is_loop() {
        return match link {
            None => Step::Ask(RouteProbe::NoFollow),
            Some(Ok(_)) => Step::Done(RouteFound::Link),
            Some(Err(failure)) => Step::Done(
                if failure.is_missing() {
                    RouteFound::Nothing
                } else {
                    RouteFound::Fail(*failure)
                },
            ),
        };
    }
    if failure.is_escape() || failure.kind == IoErrorKind::NotADirectory {
        return Step::Done(RouteFound::Nothing);
    }
    Step::Done(RouteFound::Fail(failure))
}

/// A path that leaves the root is never looked at any closer.
pub proof fn law_escapes_stay_invisible(
    failure: IoFailure,
    link: Option<Result<(), IoFailure>>,
)
    requires
        failure.escapes(),
        failure.kind != IoErrorKind::NotFound,
    ensures
        route_found(Some(Err(failure)), link) == Step::<RouteProbe, RouteFound>::Done(
            RouteFound::Nothing,
        ),
{
}

/// Whether a path leaves the root. Names are resolved from left to right, so a
/// path that stops at a missing name has not left it.
pub open spec fn leaves_the_root(followed: Result<(), IoFailure>) -> Result<bool, IoFailure> {
    match followed {
        Ok(_) => Ok(false),
        Err(failure) => if failure.missing() {
            Ok(false)
        } else if failure.escapes() {
            Ok(true)
        } else {
            Err(failure)
        },
    }
}

pub fn guard_root_contained(followed: &Result<(), IoFailure>) -> (hidden: Result<bool, IoFailure>)
    ensures
        hidden == leaves_the_root(*followed),
{
    match followed {
        Ok(_) => Ok(false),
        Err(failure) => {
            if failure.is_missing() {
                Ok(false)
            } else if failure.is_escape() {
                Ok(true)
            } else {
                Err(*failure)
            }
        },
    }
}

/// What a name on the way to a reserved path leads to.
#[derive(Clone, Copy, Debug, Eq, PartialEq, Structural)]
pub enum ReservedNode {
    Symlink,
    Directory,
    Other,
}

/// What is concluded from a look at a name on the way to a reserved path.
#[derive(Clone, Copy, Debug, Eq, PartialEq, Structural)]
pub enum ReservedStep {
    /// The root holds something at the reserved path.
    Conflict,
    /// Look at the next name.
    Deeper,
    /// Nothing can be at the reserved path.
    Free,
    Fail(IoFailure),
}

/// The look at one name: the last one, or one on the way.
pub open spec fn reserved_step(is_last: bool, found: Result<ReservedNode, IoFailure>) -> ReservedStep {
    match found {
        Ok(node) => if node == ReservedNode::Symlink || is_last {
            ReservedStep::Conflict
        } else if node == ReservedNode::Directory {
            ReservedStep::Deeper
        } else {
            ReservedStep::Free
        },
        Err(failure) => if failure.missing() {
            ReservedStep::Free
        } else {
            ReservedStep::Fail(failure)
        },
    }
}

fn judge_reserved(is_last: bool, found: &Result<ReservedNode, IoFailure>) -> (step: ReservedStep)
    ensures
        step == reserved_step(is_last, *found),
{
    match found {
        Ok(node) => {
            if *node == ReservedNode::Symlink || is_last {
                ReservedStep::Conflict
            } else if *node == ReservedNode::Directory {
                ReservedStep::Deeper
            } else {
                ReservedStep::Free
            }
        },
        Err(failure) => {
            if failure.is_missing() {
                ReservedStep::Free
            } else {
                ReservedStep::Fail(*failure)
            }
        },
    }
}

/// The names of a reserved path.
pub open spec fn reserved_names(reserved: Seq<char>) -> Seq<Seq<char>> {
    text::split_pieces(text::without_leading(reserved, '/'), '/')
}

/// A look through the reserved paths below a root, before anything is written
/// there.
pub struct ReservedPathScan {
    root: LexicalPath,
    reserved: Vec<String>,
    index: usize,
    depth: usize,
}

pub struct ScanPosition {
    pub root: Seq<Seq<u8>>,
    pub reserved: Seq<Seq<char>>,
    /// Which reserved path is looked at.
    pub index: int,
    /// How many of its names were found to be directories.
    pub depth: int,
}

impl ReservedPathScan {
    pub closed spec fn view(self) -> ScanPosition {
        ScanPosition {
            root: self.root@,
            reserved: text::texts(self.reserved@),
            index: self.index as int,
            depth: self.depth as int,
        }
    }

    pub closed spec fn is_valid(self) -> bool {
        &&& self.index <= self.reserved@.len()
        &&& self.index < self.reserved@.len() ==> self.depth < reserved_names(
            self.reserved@[self.index as int]@,
        ).len()
        &&& self.index == self.reserved@.len() ==> self.depth == 0
    }

    pub fn start(root: &LexicalPath, reserved: Vec<String>) -> (scan: ReservedPathScan)
        ensures
            scan.is_valid(),
            scan@.root == root@,
            scan@.reserved == text::texts(reserved@),
            scan@.index == 0,
            scan@.depth == 0,
    {
        proof {
            if reserved@.len() > 0 {
                text::lemma_split_has_a_piece(
                    text::without_leading(reserved@[0]@, '/'),
                    '/',
                );
            }
        }
        ReservedPathScan { root: root.copy(), reserved, index: 0, depth: 0 }
    }

    /// The path to look at next, unless all reserved paths are free.
    pub fn next_path(&self) -> (path: Option<LexicalPath>)
        requires
            self.is_valid(),
        ensures
            path is Some <==> self@.index < self@.reserved.len(),
            path matches Some(path) ==> path@ == self@.root + Seq::new(
                (self@.depth + 1) as nat,
                |i: int| encode_utf8(reserved_names(self@.reserved[self@.index])[i]),
            ),
    {
        if self.index >= self.reserved.len() {
            return None;
        }
        let names = split_text(
            trim_leading(self.reserved[self.index].as_str(), '/').as_str(),
            '/',
        );
        let ghost all = reserved_names(self.reserved@[self.index as int]@);
        let mut path = self.root.copy();
        let mut taken: usize = 0;
        assert(path@ =~= self@.root + Seq::new(0nat, |i: int| encode_utf8(all[i])));
        while taken <= self.depth
            invariant
                self.index < self.reserved@.len(),
                all == reserved_names(self@.reserved[self@.index]),
                self.depth < all.len(),
                text::texts(names@) == all,
                taken <= self.depth + 1,
                path@ == self@.root + Seq::new(taken as nat, |i: int| encode_utf8(all[i])),
            decreases self.depth + 1 - taken,
        {
            assert(all[taken as int] == names@[taken as int]@);
            path.push(names[taken].as_str().as_bytes());
            if taken == self.depth {
                assert(path@ =~= self@.root + Seq::new(
                    (self.depth + 1) as nat,
                    |i: int| encode_utf8(all[i]),
                ));
                return Some(path);
            }
            taken += 1;
            assert(path@ =~= self@.root + Seq::new(taken as nat, |i: int| encode_utf8(all[i])));
        }
        Some(path)
    }

    /// What is said where something is in the way of the path that is looked at.
    pub fn conflict_message(&self) -> (message: String)
        requires
            self.is_valid(),
            self@.index < self@.reserved.len(),
        ensures
            message@ == "Shared root conflicts with reserved platform path "@
                + self@.reserved[self@.index]
                + "; preserve the existing data and choose a clean root"@,
    {
        let mut message = String::from_str("Shared root conflicts with reserved platform path ");
        message.append(self.reserved[self.index].as_str());
        message.append("; preserve the existing data and choose a clean root");
        message
    }

    /// Takes what was found at the path that was asked for.
    pub fn observe(&mut self, found: &Result<ReservedNode, IoFailure>) -> (step: ReservedStep)
        requires
            old(self).is_valid(),
            old(self)@.index < old(self)@.reserved.len(),
        ensures
            final(self).is_valid(),
            final(self)@.root == old(self)@.root,
            final(self)@.reserved == old(self)@.reserved,
            step == reserved_step(
                old(self)@.depth + 1 == reserved_names(
                    old(self)@.reserved[old(self)@.index],
                ).len(),
                *found,
            ),
            match step {
                ReservedStep::Deeper => {
                    &&& final(self)@.index == old(self)@.index
                    &&& final(self)@.depth == old(self)@.depth + 1
                },
                ReservedStep::Free => {
                    &&& final(self)@.index == old(self)@.index + 1
                    &&& final(self)@.depth == 0
                },
                _ => final(self)@ == old(self)@,
            },
    {
        let names = split_text(
            trim_leading(self.reserved[self.index].as_str(), '/').as_str(),
            '/',
        );
        assert(text::texts(names@).len() == names@.len());
        let is_last = self.depth == names.len() - 1;
        let step = judge_reserved(is_last, found);
        match step {
            ReservedStep::Deeper => {
                self.depth = self.depth + 1;
            },
            ReservedStep::Free => {
                if self.index < self.reserved.len() {
                    self.index = self.index + 1;
                }
                self.depth = 0;
                proof {
                    if self.index < self.reserved@.len() {
                        text::lemma_split_has_a_piece(
                            text::without_leading(self.reserved@[self.index as int]@, '/'),
                            '/',
                        );
                    }
                }
            },
            _ => {},
        }
        step
    }
}

pub fn status_not_found(response: &mut Response)
    ensures
        final(response)@ == old(response)@.with_status(404).with_body(BodyView::Text("Not Found"@)),
{
    response.status = 404;
    response.body = Body::Text(String::from_str("Not Found"));
}

pub fn status_no_content(response: &mut Response)
    ensures
        final(response)@ == old(response)@.with_status(204),
{
    response.status = 204;
}

pub fn status_bad_request(response: &mut Response, body: &str)
    ensures
        final(response)@ == app_error::error_response(old(response)@, 400, body@),
{
    status_error(response, 400, body);
}

pub fn status_method_not_allowed(response: &mut Response, allow: &str)
    ensures
        final(response)@ == old(response)@.with_status(405).with_header("allow"@, allow@),
{
    response.status = 405;
    response.set_header("allow", allow);
}

pub fn status_error(response: &mut Response, status: u16, body: &str)
    ensures
        final(response)@ == app_error::error_response(old(response)@, status, body@),
{
    apply_app_error(response, &AppError::public(status, body));
}

pub fn set_private_no_store(response: &mut Response)
    ensures
        final(response)@ == old(response)@.with_header("cache-control"@, "private, no-store"@),
{
    response.set_header("cache-control", "private, no-store");
}

/// A character that can be part of a file name in a header as it is.
pub open spec fn is_header_safe(byte: u8) -> bool {
    ||| 48 <= byte <= 57
    ||| 65 <= byte <= 90
    ||| 97 <= byte <= 122
    ||| byte == 33 || byte == 35 || byte == 36 || byte == 38 || byte == 43 || byte == 45 || byte
        == 46 || byte == 94 || byte == 95 || byte == 96 || byte == 124 || byte == 126
}

/// A byte of a file name in a header.
pub open spec fn header_byte(byte: u8) -> Seq<char> {
    if is_header_safe(byte) {
        seq![byte as char]
    } else {
        seq!['%', uri::upper_hex((byte / 16) as u8), uri::upper_hex((byte % 16) as u8)]
    }
}

pub open spec fn header_bytes(bytes: Seq<u8>) -> Seq<char>
    decreases bytes.len(),
{
    if bytes.len() == 0 {
        Seq::empty()
    } else {
        header_bytes(bytes.drop_last()) + header_byte(bytes.last())
    }
}

/// Encodes a file name for a header.
pub fn encode_content_disposition_filename(filename: &str) -> (encoded: String)
    ensures
        encoded@ == header_bytes(encode_utf8(filename@)),
{
    let bytes = filename.as_bytes();
    let mut encoded = String::new();
    let mut index: usize = 0;
    assert(bytes@.subrange(0, 0) =~= Seq::empty());
    while index < bytes.len()
        invariant
            index <= bytes@.len(),
            encoded@ == header_bytes(bytes@.subrange(0, index as int)),
        decreases bytes@.len() - index,
    {
        let ghost longer = bytes@.subrange(0, index + 1);
        assert(longer.drop_last() =~= bytes@.subrange(0, index as int));
        let byte = bytes[index];
        let digit = 48 <= byte && byte <= 57;
        let letter = (65 <= byte && byte <= 90) || (97 <= byte && byte <= 122);
        let sign = byte == 33 || byte == 35 || byte == 36 || byte == 38 || byte == 43 || byte == 45
            || byte == 46 || byte == 94 || byte == 95 || byte == 96 || byte == 124 || byte == 126;
        if digit || letter || sign {
            encoded.push(byte as char);
        } else {
            encoded.push('%');
            encoded.push(upper_hex_character(byte / 16));
            encoded.push(upper_hex_character(byte % 16));
        }
        index += 1;
        assert(encoded@ =~= header_bytes(longer));
    }
    assert(bytes@.subrange(0, bytes@.len() as int) =~= bytes@);
    encoded
}

/// A control character.
pub open spec fn is_control(character: char) -> bool {
    character <= '\u{1f}' || ('\u{7f}' <= character && character <= '\u{9f}')
}

/// A file name with a space in place of each control character.
pub open spec fn without_controls(filename: Seq<char>) -> Seq<char> {
    filename.map_values(
        |character: char|
            if is_control(character) {
                ' '
            } else {
                character
            },
    )
}

fn replace_controls(filename: &str) -> (replaced: String)
    ensures
        replaced@ == without_controls(filename@),
{
    let mut replaced = String::new();
    for character in it: filename.chars()
        invariant
            it.seq() == filename@,
            replaced@ == without_controls(filename@).subrange(0, it.index() as int),
    {
        if character <= '\u{1f}' || ('\u{7f}' <= character && character <= '\u{9f}') {
            replaced.push(' ');
        } else {
            replaced.push(character);
        }
        assert(replaced@ =~= without_controls(filename@).subrange(0, it.index() + 1));
    }
    assert(without_controls(filename@).subrange(0, filename@.len() as int) =~= without_controls(
        filename@,
    ));
    replaced
}

/// The header that has a file saved under its name.
pub open spec fn disposition(filename: Seq<char>) -> Seq<char> {
    "attachment; filename=\"download\"; filename*=UTF-8''"@ + header_bytes(
        encode_utf8(without_controls(filename)),
    )
}

/// Has a response saved under a file name.
pub fn set_content_disposition(response: &mut Response, filename: &str)
    ensures
        final(response)@ == old(response)@.with_header(
            "content-disposition"@,
            disposition(filename@),
        ),
{
    let mut value = String::from_str("attachment; filename=\"download\"; filename*=UTF-8''");
    let encoded = encode_content_disposition_filename(replace_controls(filename).as_str());
    value.append(encoded.as_str());
    response.set_header("content-disposition", value.as_str());
}

/// The name of a file in a header holds nothing but letters, digits and signs
/// that stand for themselves there.
pub proof fn law_header_names_are_plain(bytes: Seq<u8>)
    ensures
        forall|i: int|
            0 <= i < header_bytes(bytes).len() ==> '!' <= #[trigger] header_bytes(bytes)[i] <= '~'
                && header_bytes(bytes)[i] != '"' && header_bytes(bytes)[i] != ';'
                && header_bytes(bytes)[i] != ',',
    decreases bytes.len(),
{
    if bytes.len() > 0 {
        law_header_names_are_plain(bytes.drop_last());
        let front = header_bytes(bytes.drop_last());
        let last = header_byte(bytes.last());
        assert forall|i: int| 0 <= i < header_bytes(bytes).len() implies '!'
            <= #[trigger] header_bytes(bytes)[i] <= '~' && header_bytes(bytes)[i] != '"'
            && header_bytes(bytes)[i] != ';' && header_bytes(bytes)[i] != ',' by {
            if i < front.len() {
                assert(header_bytes(bytes)[i] == front[i]);
            } else {
                assert(header_bytes(bytes)[i] == last[i - front.len()]);
            }
        }
    }
}

/// As many requests may hold or wait for a path as there are connections but one, from
/// one to sixty-four.
pub proof fn law_path_waiters_are_counted(max_connections: int)
    requires
        max_connections >= 0,
    ensures
        max_connections <= 2 ==> path_waiters(max_connections) == 1,
        2 <= max_connections <= 65 ==> path_waiters(max_connections) == max_connections - 1,
        max_connections >= 65 ==> path_waiters(max_connections) == 64,
{
}

/// A server that was reached, has a place for the check, could write below its root, has
/// room on its disk and a working state store, and is not going down, is ready; and only
/// what is not known yet is looked at.
pub proof fn law_working_servers_are_ready(seen: ReadinessSeen, health: ServerHealth)
    requires
        seen.entered == Some(true),
        seen.place == Some(true),
        seen.probes matches Some(Some(probes)) && probes.root_writable && probes.disk_has_room
            == Some(true) && probes.state_ready,
    ensures
        seen.health is None ==> readiness(seen) == Step::<ReadinessProbe, bool>::Ask(
            ReadinessProbe::Lifecycle,
        ),
        seen.health == Some(health) ==> readiness(seen) == Step::<ReadinessProbe, bool>::Done(
            health.registry_healthy && !health.shutting_down && !health.forced_down,
        ),
{
}

/// A server is found not to be ready only for a reason, and nothing is looked at twice.
pub proof fn law_readiness_is_denied_for_a_reason(seen: ReadinessSeen)
    ensures
        match readiness(seen) {
            Step::Ask(ReadinessProbe::EnterRequest) => seen.entered is None,
            Step::Ask(ReadinessProbe::TakePlace) => seen.place is None,
            Step::Ask(ReadinessProbe::RunProbes) => seen.probes is None,
            Step::Ask(ReadinessProbe::Lifecycle) => seen.health is None,
            Step::Done(true) => true,
            Step::Done(false) => {
                ||| seen.entered == Some(false)
                ||| seen.place == Some(false)
                ||| seen.probes == Some(None::<ReadinessProbes>)
                ||| (seen.probes matches Some(Some(probes)) && (!probes.root_writable
                    || probes.disk_has_room != Some(true) || !probes.state_ready))
                ||| (seen.health matches Some(health) && (!health.registry_healthy
                    || health.shutting_down || health.forced_down))
            },
        },
{
}

/// A route leads to what following it finds. Where nothing is found that way, or only a
/// loop, the last name itself is looked at; a link that leads nowhere is found as
/// itself, and where there is no name either there is nothing. A failure is told only
/// where it was met and is of another kind.
pub proof fn law_routes_lead_to_what_is_there(
    followed: Option<Result<(), IoFailure>>,
    link: Option<Result<(), IoFailure>>,
)
    ensures
        followed == Some(Ok::<(), IoFailure>(())) ==> route_found(followed, link) == Step::<
            RouteProbe,
            RouteFound,
        >::Done(RouteFound::Target),
        match route_found(followed, link) {
            Step::Ask(RouteProbe::Follow) => followed is None,
            Step::Ask(RouteProbe::NoFollow) => link is None && (followed matches Some(Err(failure))
                && (failure.kind == IoErrorKind::NotFound || failure.number == Some(40i32))),
            Step::Done(RouteFound::Target) => followed matches Some(Ok(_)),
            Step::Done(RouteFound::Link) => (link matches Some(Ok(_))) && (
            followed matches Some(Err(failure)) && (failure.kind == IoErrorKind::NotFound
                || failure.number == Some(40i32))),
            Step::Done(RouteFound::Nothing) => followed matches Some(Err(failure)) && (failure.kind
                == IoErrorKind::NotADirectory || failure.number == Some(18i32) || (
            link matches Some(Err(second)) && (second.kind == IoErrorKind::NotFound || second.kind
                == IoErrorKind::NotADirectory))),
            Step::Done(RouteFound::Fail(failure)) => {
                ||| followed == Some(Err::<(), IoFailure>(failure)) && failure.kind
                    != IoErrorKind::NotFound && failure.kind != IoErrorKind::NotADirectory
                    && failure.number != Some(40i32) && failure.number != Some(18i32)
                ||| link == Some(Err::<(), IoFailure>(failure)) && failure.kind
                    != IoErrorKind::NotFound && failure.kind != IoErrorKind::NotADirectory
            },
        },
        (followed matches Some(Err(failure)) && failure.kind == IoErrorKind::NotFound) && (
        link matches Some(Err(second)) && second.kind == IoErrorKind::NotFound) ==> route_found(
            followed,
            link,
        ) == Step::<RouteProbe, RouteFound>::Done(RouteFound::Nothing),
        (followed matches Some(Err(failure)) && failure.kind == IoErrorKind::NotFound) && (
        link matches Some(Ok(_))) ==> route_found(followed, link) == Step::<
            RouteProbe,
            RouteFound,
        >::Done(RouteFound::Link),
{
}

/// A path leaves the root exactly where following it is refused for that reason. One
/// that is there, or that stops at a missing name, has not left it.
pub proof fn law_paths_leave_the_root_by_crossing(followed: Result<(), IoFailure>)
    ensures
        followed is Ok ==> leaves_the_root(followed) == Ok::<bool, IoFailure>(false),
        followed matches Err(failure) ==> (failure.kind == IoErrorKind::NotFound || failure.kind
            == IoErrorKind::NotADirectory) ==> leaves_the_root(followed) == Ok::<bool, IoFailure>(
            false,
        ),
        followed matches Err(failure) ==> failure.kind != IoErrorKind::NotFound && failure.kind
            != IoErrorKind::NotADirectory ==> leaves_the_root(followed) == (if failure.number
            == Some(18i32) {
            Ok::<bool, IoFailure>(true)
        } else {
            Err(failure)
        }),
{
}

/// A root is in conflict with a reserved path where it holds something at that path, or
/// a link on the way to it. A missing name, or one that is no directory, leaves the
/// path free.
pub proof fn law_reserved_paths_are_kept_free(
    is_last: bool,
    found: Result<ReservedNode, IoFailure>,
)
    ensures
        reserved_step(is_last, found) == ReservedStep::Conflict <==> (found matches Ok(node) && (
        is_last || node == ReservedNode::Symlink)),
        reserved_step(is_last, found) == ReservedStep::Deeper <==> !is_last && found == Ok::<
            ReservedNode,
            IoFailure,
        >(ReservedNode::Directory),
        reserved_step(is_last, found) == ReservedStep::Free <==> (!is_last && found == Ok::<
            ReservedNode,
            IoFailure,
        >(ReservedNode::Other)) || (found matches Err(failure) && (failure.kind
            == IoErrorKind::NotFound || failure.kind == IoErrorKind::NotADirectory)),
        reserved_step(is_last, found) matches ReservedStep::Fail(failure) ==> found == Err::<
            ReservedNode,
            IoFailure,
        >(failure) && !failure.missing(),
{
}

/// The names of a reserved path are those between its slashes, without the slashes that
/// it starts with.
pub proof fn law_reserved_names_are_split(count: nat, names: Seq<Seq<char>>)
    requires
        names.len() > 0,
        names[0].len() > 0,
        forall|i: int| 0 <= i < names.len() ==> !(#[trigger] names[i]).contains('/'),
    ensures
        reserved_names(Seq::new(count, |i: int| '/') + paths::joined(names, '/')) == names,
{
    let joined = paths::joined(names, '/');
    text::lemma_split_of_joined(names, '/');
    assert(joined.len() > 0 && joined[0] != '/') by {
        lemma_joined_starts_with_the_first(names);
        assert(joined[0] == names[0][0]);
        assert(!names[0].contains('/'));
    }
    text::law_leading_copies_are_dropped(count, joined, '/');
}

proof fn lemma_joined_starts_with_the_first(names: Seq<Seq<char>>)
    requires
        names.len() > 0,
        names[0].len() > 0,
    ensures
        paths::joined(names, '/').len() >= names[0].len(),
        paths::joined(names, '/')[0] == names[0][0],
    decreases names.len(),
{
    if names.len() > 1 {
        lemma_joined_starts_with_the_first(names.drop_last());
    }
}

/// File names are written to a header byte by byte: letters, digits and some signs stay,
/// and every other byte is a percent sign and two digits. Control characters are written
/// as spaces, and nothing else is changed.
pub proof fn law_file_names_are_written_byte_by_byte(
    left: Seq<u8>,
    right: Seq<u8>,
    byte: u8,
    name: Seq<char>,
)
    ensures
        header_bytes(left + right) == header_bytes(left) + header_bytes(right),
        48 <= byte <= 57 || 65 <= byte <= 90 || 97 <= byte <= 122 || byte == 45 || byte == 46
            || byte == 95 || byte == 126 ==> header_bytes(seq![byte]) == seq![byte as char],
        byte <= 32 || byte >= 127 || byte == 34 || byte == 37 || byte == 39 || byte == 40 || byte
            == 41 || byte == 42 || byte == 47 || byte == 92 ==> header_bytes(seq![byte]) == seq![
            '%',
            uri::upper_hex((byte / 16) as u8),
            uri::upper_hex((byte % 16) as u8),
        ],
        without_controls(name).len() == name.len(),
        forall|i: int|
            0 <= i < name.len() ==> without_controls(name)[i] == (if (#[trigger] name[i] as int)
                < 32 || 127 <= name[i] as int <= 159 {
                ' '
            } else {
                name[i]
            }),
    decreases right.len(),
{
    assert(seq![byte].drop_last() =~= Seq::empty());
    assert(header_bytes(seq![byte].drop_last()) =~= Seq::empty());
    assert(header_bytes(seq![byte]) =~= header_byte(byte));
    if right.len() == 0 {
        assert(left + right =~= left);
        assert(header_bytes(left) + header_bytes(right) =~= header_bytes(left));
    } else {
        law_file_names_are_written_byte_by_byte(left, right.drop_last(), byte, name);
        assert((left + right).drop_last() =~= left + right.drop_last());
        assert(header_bytes(left + right) =~= header_bytes(left) + header_bytes(right));
    }
}

/// An upload whose deadline passed is told to have not started exactly where it could
/// still be called off; otherwise its outcome is unknown and is to be asked for.
pub proof fn law_expired_uploads_are_told_what_is_known(
    called_off: bool,
    upload_id: u128,
    upload_length: u64,
    upload_offset: Option<u64>,
)
    ensures
        ({
            let error = upload_deadline_error(called_off, upload_id, upload_length, upload_offset);
            &&& error.status == 408
            &&& error.code == (if called_off {
                ErrorCode::RequestTimeout
            } else {
                ErrorCode::UploadOutcomeUnknown
            })
            &&& error.subject matches problem::ProblemSubject::Upload(upload) && upload.upload_id == identifiers::hyphenated(
                upload_id,
            ) && upload.state == (if called_off {
                UploadPublicState::NotStarted
            } else {
                UploadPublicState::Unknown
            }) && upload.upload_length == Some(upload_length) && upload.upload_offset
                == upload_offset
        }),
{
}

/// A request that got no path may come back after a second, and the operation that it
/// names was rejected.
pub proof fn law_crowded_paths_are_answered(response: ResponseView, id: u128)
    ensures
        path_wait_response(response, None).status == 429,
        path_wait_response(response, Some(id)).status == 429,
        path_wait_response(response, None).body matches BodyView::Problem(document)
            && document.code == ErrorCode::PathWaitConcurrencyLimit && document.retry_after == Some(
            1u64,
        ),
        path_wait_response(response, Some(id)).body matches BodyView::Problem(document)
            && document.code == ErrorCode::PathWaitConcurrencyLimit && document.retry_after == Some(
            1u64,
        ),
        path_wait_response(response, Some(id)).headers["x-dufs-operation-state"@] == "rejected"@,
        path_wait_response(response, Some(id)).headers["x-dufs-operation-id"@]
            == identifiers::hyphenated(id),
{
    operation_registry::lemma_operation_fields_differ();
}

/// The bytes that stand for themselves in a file name are the letters, the digits and
/// the signs of a token, and no others.
pub proof fn law_header_safe_bytes(byte: u8)
    ensures
        is_header_safe(byte) <==> {
            ||| '0' as int <= byte <= '9' as int
            ||| 'A' as int <= byte <= 'Z' as int
            ||| 'a' as int <= byte <= 'z' as int
            ||| byte == '!' as int || byte == '#' as int || byte == '$' as int || byte == '&' as int
            ||| byte == '+' as int || byte == '-' as int || byte == '.' as int || byte == '^' as int
            ||| byte == '_' as int || byte == '`' as int || byte == '|' as int || byte == '~' as int
        },
{
}

} // verus!
