//! Failures of listings: what clients see, and what a log line says.
use crate::io_error::{IoErrorKind, IoFailure};
use crate::paths;
use crate::paths::LexicalPath;
use crate::problem::{ApiError, ApiErrorView, ErrorCode, RecoveryAdvice, render_problem};
use crate::problem;
use crate::response::{Response, ResponseView};
use crate::text;
use crate::text::{decimal_text, encode_hex};
use vstd::prelude::*;
use vstd::string::*;
use vstd::utf8::*;

verus! {

pub const UNSUPPORTED_FILENAME_MESSAGE: &'static str =
    "The folder contains an unsupported non-UTF-8 name. Rename it on Linux.";

pub const DIRECTORY_CHANGED_DURING_WALK_MESSAGE: &'static str =
    "The folder changed during traversal. Try again.";

/// Everything that can go wrong in public while directories are listed.
///
/// The reason that a [`ListingError`] holds beside it is for logs, and never
/// selects what a client is told.
#[derive(Clone, Copy, Debug, Eq, PartialEq, Structural)]
pub enum ListingProblem {
    UnsupportedFilename,
    DirectoryAccessForbidden,
    DirectoryChanged,
    DirectoryOperationTimeout,
    DirectoryOperationFailed,
    ServerStopping,
    DirectorySymlinkLoop,
    DirectoryListingEntryLimit,
    DirectoryWalkEntryLimit,
    DirectoryDepthLimit,
    DirectoryMemoryLimit,
    SearchResultLimit,
    ListSnapshotLimit,
    ListSnapshotAllocationFailed,
    DirectorySortLimit,
}

impl ListingProblem {
    pub open spec fn public_status(self) -> u16 {
        match self {
            ListingProblem::UnsupportedFilename
            | ListingProblem::DirectoryChanged
            | ListingProblem::DirectorySymlinkLoop => 409,
            ListingProblem::DirectoryAccessForbidden => 403,
            ListingProblem::DirectoryOperationTimeout => 504,
            ListingProblem::DirectoryOperationFailed => 500,
            ListingProblem::ServerStopping => 503,
            _ => 413,
        }
    }

    pub fn status(self) -> (status: u16)
        ensures
            status == self.public_status(),
    {
        match self {
            ListingProblem::UnsupportedFilename
            | ListingProblem::DirectoryChanged
            | ListingProblem::DirectorySymlinkLoop => 409,
            ListingProblem::DirectoryAccessForbidden => 403,
            ListingProblem::DirectoryOperationTimeout => 504,
            ListingProblem::DirectoryOperationFailed => 500,
            ListingProblem::ServerStopping => 503,
            _ => 413,
        }
    }

    pub open spec fn message(self) -> Seq<char> {
        match self {
            ListingProblem::UnsupportedFilename => UNSUPPORTED_FILENAME_MESSAGE@,
            ListingProblem::DirectoryAccessForbidden => "Forbidden"@,
            ListingProblem::DirectoryChanged => DIRECTORY_CHANGED_DURING_WALK_MESSAGE@,
            ListingProblem::DirectoryOperationTimeout => "Directory operation timed out"@,
            ListingProblem::DirectoryOperationFailed => "Directory operation failed"@,
            ListingProblem::ServerStopping => "Server is stopping"@,
            ListingProblem::DirectorySymlinkLoop => "Directory symlink loop detected"@,
            ListingProblem::DirectoryListingEntryLimit =>
                "Directory listing exceeded its entry limit"@,
            ListingProblem::DirectoryWalkEntryLimit =>
                "Directory operation exceeded its entry limit"@,
            ListingProblem::DirectoryDepthLimit => "Directory traversal exceeded its depth limit"@,
            ListingProblem::DirectoryMemoryLimit => "Directory traversal exceeds the memory limit"@,
            ListingProblem::SearchResultLimit => "Search results exceed the memory limit"@,
            ListingProblem::ListSnapshotLimit | ListingProblem::ListSnapshotAllocationFailed =>
                "Directory listing exceeds the snapshot capacity"@,
            ListingProblem::DirectorySortLimit => "Directory sorting exceeds the memory limit"@,
        }
    }

    pub fn public_message(self) -> (message: &'static str)
        ensures
            message@ == self.message(),
    {
        match self {
            ListingProblem::UnsupportedFilename => UNSUPPORTED_FILENAME_MESSAGE,
            ListingProblem::DirectoryAccessForbidden => "Forbidden",
            ListingProblem::DirectoryChanged => DIRECTORY_CHANGED_DURING_WALK_MESSAGE,
            ListingProblem::DirectoryOperationTimeout => "Directory operation timed out",
            ListingProblem::DirectoryOperationFailed => "Directory operation failed",
            ListingProblem::ServerStopping => "Server is stopping",
            ListingProblem::DirectorySymlinkLoop => "Directory symlink loop detected",
            ListingProblem::DirectoryListingEntryLimit =>
                "Directory listing exceeded its entry limit",
            ListingProblem::DirectoryWalkEntryLimit =>
                "Directory operation exceeded its entry limit",
            ListingProblem::DirectoryDepthLimit => "Directory traversal exceeded its depth limit",
            ListingProblem::DirectoryMemoryLimit => "Directory traversal exceeds the memory limit",
            ListingProblem::SearchResultLimit => "Search results exceed the memory limit",
            ListingProblem::ListSnapshotLimit | ListingProblem::ListSnapshotAllocationFailed =>
                "Directory listing exceeds the snapshot capacity",
            ListingProblem::DirectorySortLimit => "Directory sorting exceeds the memory limit",
        }
    }

    pub open spec fn public_code(self) -> ErrorCode {
        match self {
            ListingProblem::UnsupportedFilename => ErrorCode::UnsupportedFilename,
            ListingProblem::DirectoryAccessForbidden => ErrorCode::DirectoryAccessForbidden,
            ListingProblem::DirectoryChanged => ErrorCode::DirectoryChanged,
            ListingProblem::DirectoryOperationTimeout => ErrorCode::DirectoryOperationTimeout,
            ListingProblem::ServerStopping => ErrorCode::ServerStopping,
            ListingProblem::DirectorySymlinkLoop => ErrorCode::DirectorySymlinkLoop,
            ListingProblem::DirectoryListingEntryLimit
            | ListingProblem::DirectoryWalkEntryLimit => ErrorCode::DirectoryEntryLimit,
            ListingProblem::DirectoryDepthLimit => ErrorCode::DirectoryDepthLimit,
            ListingProblem::DirectoryMemoryLimit => ErrorCode::DirectoryMemoryLimit,
            ListingProblem::SearchResultLimit => ErrorCode::SearchResultLimit,
            ListingProblem::ListSnapshotLimit
            | ListingProblem::ListSnapshotAllocationFailed => ErrorCode::ListSnapshotLimit,
            ListingProblem::DirectorySortLimit => ErrorCode::DirectorySortLimit,
            ListingProblem::DirectoryOperationFailed => ErrorCode::DirectoryOperationFailed,
        }
    }

    pub fn code(self) -> (code: ErrorCode)
        ensures
            code == self.public_code(),
    {
        match self {
            ListingProblem::UnsupportedFilename => ErrorCode::UnsupportedFilename,
            ListingProblem::DirectoryAccessForbidden => ErrorCode::DirectoryAccessForbidden,
            ListingProblem::DirectoryChanged => ErrorCode::DirectoryChanged,
            ListingProblem::DirectoryOperationTimeout => ErrorCode::DirectoryOperationTimeout,
            ListingProblem::ServerStopping => ErrorCode::ServerStopping,
            ListingProblem::DirectorySymlinkLoop => ErrorCode::DirectorySymlinkLoop,
            ListingProblem::DirectoryListingEntryLimit
            | ListingProblem::DirectoryWalkEntryLimit => ErrorCode::DirectoryEntryLimit,
            ListingProblem::DirectoryDepthLimit => ErrorCode::DirectoryDepthLimit,
            ListingProblem::DirectoryMemoryLimit => ErrorCode::DirectoryMemoryLimit,
            ListingProblem::SearchResultLimit => ErrorCode::SearchResultLimit,
            ListingProblem::ListSnapshotLimit
            | ListingProblem::ListSnapshotAllocationFailed => ErrorCode::ListSnapshotLimit,
            ListingProblem::DirectorySortLimit => ErrorCode::DirectorySortLimit,
            ListingProblem::DirectoryOperationFailed => ErrorCode::DirectoryOperationFailed,
        }
    }

    pub open spec fn advice(self) -> RecoveryAdvice {
        match self {
            ListingProblem::UnsupportedFilename
            | ListingProblem::DirectoryChanged
            | ListingProblem::DirectorySymlinkLoop => RecoveryAdvice::RefreshTarget,
            ListingProblem::DirectoryOperationTimeout => RecoveryAdvice::Retry,
            ListingProblem::ServerStopping => RecoveryAdvice::RetryAfterSeconds(1),
            _ => RecoveryAdvice::NoAdvice,
        }
    }

    pub fn recovery(self) -> (advice: RecoveryAdvice)
        ensures
            advice == self.advice(),
    {
        match self {
            ListingProblem::UnsupportedFilename
            | ListingProblem::DirectoryChanged
            | ListingProblem::DirectorySymlinkLoop => RecoveryAdvice::RefreshTarget,
            ListingProblem::DirectoryOperationTimeout => RecoveryAdvice::Retry,
            ListingProblem::ServerStopping => RecoveryAdvice::RetryAfterSeconds(1),
            _ => RecoveryAdvice::NoAdvice,
        }
    }
}

/// A byte of a path as a log line shows it: printable ASCII as it is, with a
/// backslash before quotes and backslashes, and everything else in hexadecimal.
pub open spec fn escaped_byte(byte: u8) -> Seq<char> {
    if byte == 92u8 {
        seq!['\\', '\\']
    } else if byte == 34u8 {
        seq!['\\', '"']
    } else if 32 <= byte <= 126 {
        seq![byte as char]
    } else {
        seq!['\\', 'x'] + text::hex(seq![byte])
    }
}

pub open spec fn escaped(bytes: Seq<u8>) -> Seq<char>
    decreases bytes.len(),
{
    if bytes.len() == 0 {
        Seq::empty()
    } else {
        escaped(bytes.drop_last()) + escaped_byte(bytes.last())
    }
}

/// Shows the bytes of a path in one line of printable ASCII.
pub fn escape_path_bytes(bytes: &[u8]) -> (shown: String)
    ensures
        shown@ == escaped(bytes@),
{
    let mut shown = String::new();
    let mut index: usize = 0;
    assert(bytes@.subrange(0, 0) =~= Seq::empty());
    while index < bytes.len()
        invariant
            index <= bytes@.len(),
            shown@ == escaped(bytes@.subrange(0, index as int)),
        decreases bytes@.len() - index,
    {
        let byte = bytes[index];
        let ghost before = shown@;
        if byte == 92u8 {
            shown.push('\\');
            shown.push('\\');
            assert(shown@ =~= before + seq!['\\', '\\']);
        } else if byte == 34u8 {
            shown.push('\\');
            shown.push('"');
            assert(shown@ =~= before + seq!['\\', '"']);
        } else if 32 <= byte && byte <= 126 {
            shown.push(byte as char);
            assert(shown@ =~= before + seq![byte as char]);
        } else {
            shown.push('\\');
            shown.push('x');
            let mut one: Vec<u8> = Vec::new();
            one.push(byte);
            let digits = encode_hex(one.as_slice());
            shown.append(digits.as_str());
            assert(one@ =~= seq![byte]);
            assert(shown@ =~= before + (seq!['\\', 'x'] + text::hex(seq![byte])));
        }
        index += 1;
        assert(bytes@.subrange(0, index as int).drop_last() =~= bytes@.subrange(0, index - 1));
    }
    assert(bytes@.subrange(0, index as int) =~= bytes@);
    shown
}

/// Everything that is shown is printable ASCII.
pub proof fn law_shown_paths_are_printable(bytes: Seq<u8>)
    ensures
        forall|i: int| 0 <= i < escaped(bytes).len() ==> ' ' <= #[trigger] escaped(bytes)[i] <= '~',
    decreases bytes.len(),
{
    if bytes.len() > 0 {
        law_shown_paths_are_printable(bytes.drop_last());
        let last = escaped_byte(bytes.last());
        let first = escaped(bytes.drop_last());
        assert(forall|i: int| 0 <= i < last.len() ==> ' ' <= #[trigger] last[i] <= '~');
        assert forall|i: int| 0 <= i < escaped(bytes).len() implies ' ' <= #[trigger] escaped(
            bytes,
        )[i] <= '~' by {
            if i < first.len() {
                assert(escaped(bytes)[i] == first[i]);
            } else {
                assert(escaped(bytes)[i] == last[i - first.len()]);
            }
        }
    }
}

/// A path as a log line shows it: relative to the root.
pub open spec fn shown_path(path: Seq<Seq<u8>>, root: Seq<Seq<u8>>) -> Seq<char> {
    if !text::has_prefix(path, root) {
        "<outside-root>"@
    } else if path.len() == root.len() {
        "."@
    } else {
        escaped(paths::joined(path.subrange(root.len() as int, path.len() as int), 47u8))
    }
}

/// Shows a path relative to the root.
pub fn safe_relative_path(path: &LexicalPath, root: &LexicalPath) -> (shown: String)
    ensures
        shown@ == shown_path(path@, root@),
{
    if !path.starts_with(root) {
        return String::from_str("<outside-root>");
    }
    if path.len() == root.len() {
        return String::from_str(".");
    }
    let relative = path.suffix(root.len());
    escape_path_bytes(relative.to_bytes().as_slice())
}

/// A failure of a listing, with what a log line says of it.
pub struct ListingError {
    pub operation: &'static str,
    pub relative_path: String,
    pub reason: String,
    pub problem: ListingProblem,
}

#[verifier::ext_equal]
pub struct ListingErrorView {
    pub operation: Seq<char>,
    pub relative_path: Seq<char>,
    pub reason: Seq<char>,
    pub problem: ListingProblem,
}

/// The problem of a filesystem failure.
pub open spec fn problem_of(kind: IoErrorKind) -> ListingProblem {
    match kind {
        IoErrorKind::PermissionDenied => ListingProblem::DirectoryAccessForbidden,
        IoErrorKind::InvalidData => ListingProblem::UnsupportedFilename,
        IoErrorKind::NotFound | IoErrorKind::NotADirectory => ListingProblem::DirectoryChanged,
        IoErrorKind::TimedOut => ListingProblem::DirectoryOperationTimeout,
        _ => ListingProblem::DirectoryOperationFailed,
    }
}

/// The problem of a filesystem failure.
pub fn problem_of_failure(kind: IoErrorKind) -> (problem: ListingProblem)
    ensures
        problem == problem_of(kind),
{
    match kind {
        IoErrorKind::PermissionDenied => ListingProblem::DirectoryAccessForbidden,
        IoErrorKind::InvalidData => ListingProblem::UnsupportedFilename,
        IoErrorKind::NotFound | IoErrorKind::NotADirectory => ListingProblem::DirectoryChanged,
        IoErrorKind::TimedOut => ListingProblem::DirectoryOperationTimeout,
        _ => ListingProblem::DirectoryOperationFailed,
    }
}

/// What a log line says of a filesystem failure.
pub open spec fn io_reason(failure: IoFailure) -> Seq<char> {
    "io_kind="@ + failure.kind.shown() + " raw_os_error="@ + (match failure.number {
        Some(number) => if number < 0 {
            seq!['-'] + text::decimal((-(number as int)) as nat)
        } else {
            text::decimal(number as nat)
        },
        None => "-"@,
    })
}

impl ListingErrorView {
    /// A failure at a path below a root.
    pub open spec fn at(
        operation: Seq<char>,
        path: Seq<Seq<u8>>,
        root: Seq<Seq<u8>>,
        reason: Seq<char>,
        problem: ListingProblem,
    ) -> ListingErrorView {
        ListingErrorView { operation, relative_path: shown_path(path, root), reason, problem }
    }

    pub open spec fn io(
        operation: Seq<char>,
        path: Seq<Seq<u8>>,
        root: Seq<Seq<u8>>,
        failure: IoFailure,
    ) -> ListingErrorView {
        ListingErrorView::at(operation, path, root, io_reason(failure), problem_of(failure.kind))
    }

    pub open spec fn unsupported_name(
        operation: Seq<char>,
        path: Seq<Seq<u8>>,
        root: Seq<Seq<u8>>,
    ) -> ListingErrorView {
        ListingErrorView::at(
            operation,
            path,
            root,
            "unsupported_filename_encoding"@,
            ListingProblem::UnsupportedFilename,
        )
    }

    pub open spec fn cancelled(
        operation: Seq<char>,
        path: Seq<Seq<u8>>,
        root: Seq<Seq<u8>>,
    ) -> ListingErrorView {
        ListingErrorView::at(
            operation,
            path,
            root,
            "server_stopping"@,
            ListingProblem::ServerStopping,
        )
    }

    pub open spec fn symlink_loop(
        operation: Seq<char>,
        path: Seq<Seq<u8>>,
        root: Seq<Seq<u8>>,
    ) -> ListingErrorView {
        ListingErrorView::at(
            operation,
            path,
            root,
            "ancestor_symlink_loop"@,
            ListingProblem::DirectorySymlinkLoop,
        )
    }

    pub open spec fn broken_invariant(
        operation: Seq<char>,
        path: Seq<Seq<u8>>,
        root: Seq<Seq<u8>>,
    ) -> ListingErrorView {
        ListingErrorView::at(
            operation,
            path,
            root,
            "path_outside_expected_base"@,
            ListingProblem::DirectoryOperationFailed,
        )
    }

    pub open spec fn timeout(
        operation: Seq<char>,
        path: Seq<Seq<u8>>,
        root: Seq<Seq<u8>>,
    ) -> ListingErrorView {
        ListingErrorView::at(
            operation,
            path,
            root,
            "time_budget"@,
            ListingProblem::DirectoryOperationTimeout,
        )
    }
}

impl ListingError {
    pub open spec fn view(self) -> ListingErrorView {
        ListingErrorView {
            operation: self.operation@,
            relative_path: self.relative_path@,
            reason: self.reason@,
            problem: self.problem,
        }
    }

    pub fn unsupported_name(operation: &'static str, path: &LexicalPath, root: &LexicalPath) -> (
        error: ListingError)
        ensures
            error@ == ListingErrorView::unsupported_name(operation@, path@, root@),
    {
        ListingError::limit(
            operation,
            path,
            root,
            "unsupported_filename_encoding",
            ListingProblem::UnsupportedFilename,
        )
    }

    pub fn io(
        operation: &'static str,
        path: &LexicalPath,
        root: &LexicalPath,
        failure: &IoFailure,
    ) -> (error: ListingError)
        ensures
            error@ == ListingErrorView::io(operation@, path@, root@, *failure),
    {
        let problem = problem_of_failure(failure.kind);
        let mut reason = String::from_str("io_kind=");
        reason.append(failure.kind.name());
        reason.append(" raw_os_error=");
        match failure.number {
            Some(number) => {
                let ghost before = reason@;
                if number < 0 {
                    reason.push('-');
                    let magnitude: i64 = -(number as i64);
                    reason.append(decimal_text(magnitude as u64).as_str());
                    assert(reason@ =~= before + (seq!['-'] + text::decimal(magnitude as nat)));
                } else {
                    reason.append(decimal_text(number as u64).as_str());
                }
            },
            None => {
                reason.append("-");
            },
        }
        ListingError { operation, relative_path: safe_relative_path(path, root), reason, problem }
    }

    pub fn cancelled(operation: &'static str, path: &LexicalPath, root: &LexicalPath) -> (error:
        ListingError)
        ensures
            error@ == ListingErrorView::cancelled(operation@, path@, root@),
    {
        ListingError::limit(
            operation,
            path,
            root,
            "server_stopping",
            ListingProblem::ServerStopping,
        )
    }

    pub fn symlink_loop(operation: &'static str, path: &LexicalPath, root: &LexicalPath) -> (error:
        ListingError)
        ensures
            error@ == ListingErrorView::symlink_loop(operation@, path@, root@),
    {
        ListingError::limit(
            operation,
            path,
            root,
            "ancestor_symlink_loop",
            ListingProblem::DirectorySymlinkLoop,
        )
    }

    pub fn limit(
        operation: &'static str,
        path: &LexicalPath,
        root: &LexicalPath,
        reason: &str,
        problem: ListingProblem,
    ) -> (error: ListingError)
        ensures
            error@ == ListingErrorView::at(operation@, path@, root@, reason@, problem),
    {
        ListingError {
            operation,
            relative_path: safe_relative_path(path, root),
            reason: String::from_str(reason),
            problem,
        }
    }

    pub fn broken_invariant(operation: &'static str, path: &LexicalPath, root: &LexicalPath) -> (error:
        ListingError)
        ensures
            error@ == ListingErrorView::broken_invariant(operation@, path@, root@),
    {
        ListingError::limit(
            operation,
            path,
            root,
            "path_outside_expected_base",
            ListingProblem::DirectoryOperationFailed,
        )
    }

    /// A limit of time.
    pub fn timeout(operation: &'static str, path: &LexicalPath, root: &LexicalPath) -> (error:
        ListingError)
        ensures
            error@ == ListingErrorView::timeout(operation@, path@, root@),
    {
        ListingError::limit(
            operation,
            path,
            root,
            "time_budget",
            ListingProblem::DirectoryOperationTimeout,
        )
    }

    /// What a log line says.
    pub fn diagnostic(&self) -> (line: String)
        ensures
            line@ == "directory operation failed operation="@ + self@.operation + " path=\""@
                + self@.relative_path + "\" reason="@ + self@.reason,
    {
        let mut line = String::from_str("directory operation failed operation=");
        line.append(self.operation);
        line.append(" path=\"");
        line.append(self.relative_path.as_str());
        line.append("\" reason=");
        line.append(self.reason.as_str());
        line
    }
}

/// The public error of a listing problem.
pub open spec fn listing_api_error(problem: ListingProblem) -> ApiErrorView {
    ApiErrorView::new(
        problem.public_status(),
        problem.public_code(),
        problem.message(),
    ).with_recovery(problem.advice())
}

/// Answers a list request with a problem.
pub fn respond_list_api_problem(
    response: &mut Response,
    status: u16,
    code: ErrorCode,
    detail: &str,
    recovery: RecoveryAdvice,
)
    requires
        100 <= status <= 999,
    ensures
        final(response)@ == problem::problem_response(
            old(response)@,
            ApiErrorView::new(status, code, detail@).with_recovery(recovery),
        ),
{
    render_problem(response, &ApiError::new(status, code, detail).with_recovery(recovery));
}

/// Answers a list request with a failure of the listing.
pub fn respond_list_api_listing_error(response: &mut Response, error: &ListingError)
    ensures
        final(response)@ == problem::problem_response(
            old(response)@,
            listing_api_error(error@.problem),
        ),
{
    respond_list_api_problem(
        response,
        error.problem.status(),
        error.problem.code(),
        error.problem.public_message(),
        error.problem.recovery(),
    );
}

/// A client is told the same of two failures with the same problem, whatever
/// their operation, path and reason.
pub proof fn law_reasons_stay_private(
    response: ResponseView,
    left: ListingErrorView,
    right: ListingErrorView,
)
    requires
        left.problem == right.problem,
    ensures
        problem::problem_response(response, listing_api_error(left.problem))
            == problem::problem_response(response, listing_api_error(right.problem)),
{
}

/// What a failure of the filesystem is told as: what may not be read is forbidden, what
/// is gone has changed, what took too long timed out, and the rest failed.
pub proof fn law_failures_are_told_by_their_kind(kind: IoErrorKind)
    ensures
        problem_of(kind) == ListingProblem::DirectoryAccessForbidden <==> kind
            == IoErrorKind::PermissionDenied,
        problem_of(kind) == ListingProblem::UnsupportedFilename <==> kind
            == IoErrorKind::InvalidData,
        problem_of(kind) == ListingProblem::DirectoryChanged <==> (kind == IoErrorKind::NotFound
            || kind == IoErrorKind::NotADirectory),
        problem_of(kind) == ListingProblem::DirectoryOperationTimeout <==> kind
            == IoErrorKind::TimedOut,
        problem_of(kind) == ListingProblem::DirectoryAccessForbidden || problem_of(kind)
            == ListingProblem::UnsupportedFilename || problem_of(kind)
            == ListingProblem::DirectoryChanged || problem_of(kind)
            == ListingProblem::DirectoryOperationTimeout || problem_of(kind)
            == ListingProblem::DirectoryOperationFailed,
{
}

/// Each problem of a listing has its status: limits are those of a request that asks
/// for too much, and only a stopping server, a time-out and a failure are its own.
pub proof fn law_listing_problems_have_their_status(problem: ListingProblem)
    ensures
        problem.public_status() == 403 <==> problem == ListingProblem::DirectoryAccessForbidden,
        problem.public_status() == 409 <==> (problem == ListingProblem::UnsupportedFilename
            || problem == ListingProblem::DirectoryChanged || problem
            == ListingProblem::DirectorySymlinkLoop),
        problem.public_status() == 500 <==> problem == ListingProblem::DirectoryOperationFailed,
        problem.public_status() == 503 <==> problem == ListingProblem::ServerStopping,
        problem.public_status() == 504 <==> problem == ListingProblem::DirectoryOperationTimeout,
        problem.public_status() == 413 <==> (problem == ListingProblem::DirectoryListingEntryLimit
            || problem == ListingProblem::DirectoryWalkEntryLimit || problem
            == ListingProblem::DirectoryDepthLimit || problem
            == ListingProblem::DirectoryMemoryLimit || problem == ListingProblem::SearchResultLimit
            || problem == ListingProblem::ListSnapshotLimit || problem
            == ListingProblem::ListSnapshotAllocationFailed || problem
            == ListingProblem::DirectorySortLimit),
        listing_api_error(problem).status == problem.public_status(),
        listing_api_error(problem).code == problem.public_code(),
{
}

/// Paths are shown byte by byte, and printable ASCII as it is but for quotes and
/// backslashes.
pub proof fn law_paths_are_shown_byte_by_byte(left: Seq<u8>, right: Seq<u8>, byte: u8)
    ensures
        escaped(left + right) == escaped(left) + escaped(right),
        32 <= byte <= 126 && byte != 34 && byte != 92 ==> escaped(seq![byte]) == seq![byte as char],
        byte == 34 ==> escaped(seq![byte]) == seq!['\\', '"'],
        byte == 92 ==> escaped(seq![byte]) == seq!['\\', '\\'],
        byte < 32 || byte > 126 ==> escaped(seq![byte]) == seq!['\\', 'x'] + text::hex(seq![byte]),
    decreases right.len(),
{
    assert(seq![byte].drop_last() =~= Seq::empty());
    assert(escaped(seq![byte].drop_last()) =~= Seq::empty());
    assert(escaped(seq![byte]) =~= escaped_byte(byte));
    if right.len() == 0 {
        assert(left + right =~= left);
        assert(escaped(left) + escaped(right) =~= escaped(left));
    } else {
        law_paths_are_shown_byte_by_byte(left, right.drop_last(), byte);
        assert((left + right).drop_last() =~= left + right.drop_last());
        assert(escaped(left + right) =~= escaped(left) + escaped(right));
    }
}

/// A path is shown relative to the root, the root itself as a dot, and what lies
/// outside of it not at all.
pub proof fn law_paths_are_shown_below_the_root(
    root: Seq<Seq<u8>>,
    below: Seq<Seq<u8>>,
    other: Seq<Seq<u8>>,
)
    ensures
        shown_path(root, root) == "."@,
        below.len() > 0 ==> shown_path(root + below, root) == escaped(paths::joined(below, 47u8)),
        (forall|rest: Seq<Seq<u8>>| other != #[trigger] (root + rest)) ==> shown_path(other, root)
            == "<outside-root>"@,
{
    text::law_affixes_are_parts(root + below, root);
    text::law_affixes_are_parts(root, root);
    text::law_affixes_are_parts(other, root);
    assert(root =~= root + Seq::empty());
    assert((root + below).subrange(root.len() as int, (root + below).len() as int) =~= below);
}

/// Each problem of a listing is told by a code of its own, but for the two limits on
/// entries and the two that keep a listing from being kept.
pub proof fn law_listing_problems_have_their_codes(left: ListingProblem, right: ListingProblem)
    ensures
        ListingProblem::DirectoryMemoryLimit.public_code() == ErrorCode::DirectoryMemoryLimit,
        ListingProblem::DirectoryDepthLimit.public_code() == ErrorCode::DirectoryDepthLimit,
        ListingProblem::DirectoryListingEntryLimit.public_code() == ErrorCode::DirectoryEntryLimit,
        ListingProblem::DirectoryWalkEntryLimit.public_code() == ErrorCode::DirectoryEntryLimit,
        ListingProblem::DirectorySortLimit.public_code() == ErrorCode::DirectorySortLimit,
        ListingProblem::SearchResultLimit.public_code() == ErrorCode::SearchResultLimit,
        ListingProblem::ListSnapshotLimit.public_code() == ErrorCode::ListSnapshotLimit,
        ListingProblem::ListSnapshotAllocationFailed.public_code() == ErrorCode::ListSnapshotLimit,
        ListingProblem::UnsupportedFilename.public_code() == ErrorCode::UnsupportedFilename,
        ListingProblem::DirectoryAccessForbidden.public_code()
            == ErrorCode::DirectoryAccessForbidden,
        ListingProblem::DirectoryChanged.public_code() == ErrorCode::DirectoryChanged,
        ListingProblem::DirectoryOperationTimeout.public_code()
            == ErrorCode::DirectoryOperationTimeout,
        ListingProblem::DirectoryOperationFailed.public_code()
            == ErrorCode::DirectoryOperationFailed,
        ListingProblem::ServerStopping.public_code() == ErrorCode::ServerStopping,
        ListingProblem::DirectorySymlinkLoop.public_code() == ErrorCode::DirectorySymlinkLoop,
        left.public_code() == right.public_code() ==> left.public_status()
            == right.public_status(),
{
}

/// A log line tells the kind of a failure and, where the system gave one, its number,
/// with a sign where it is negative.
pub proof fn law_failures_are_logged_with_their_number(failure: IoFailure)
    ensures
        failure.number is None ==> io_reason(failure) == "io_kind="@ + failure.kind.shown()
            + " raw_os_error="@ + "-"@,
        failure.number matches Some(number) ==> number >= 0 ==> io_reason(failure) == "io_kind="@
            + failure.kind.shown() + " raw_os_error="@ + text::decimal(number as nat),
        failure.number matches Some(number) ==> number < 0 ==> io_reason(failure) == "io_kind="@
            + failure.kind.shown() + " raw_os_error="@ + (seq!['-'] + text::decimal(
            (-(number as int)) as nat,
        )),
{
}

/// What is advised follows from the problem: to look again where the directory is not
/// what it was, to try again after a time-out, to come back where the server stops, and
/// nothing where it would not help.
pub proof fn law_advice_follows_the_problem(problem: ListingProblem)
    ensures
        problem.advice() == RecoveryAdvice::RefreshTarget <==> problem.public_status() == 409,
        problem.advice() == RecoveryAdvice::Retry <==> problem
            == ListingProblem::DirectoryOperationTimeout,
        problem.advice() == RecoveryAdvice::RetryAfterSeconds(1) <==> problem
            == ListingProblem::ServerStopping,
        problem.public_status() == 403 || problem.public_status() == 413 || problem.public_status()
            == 500 ==> problem.advice() == RecoveryAdvice::NoAdvice,
{
}

} // verus!
