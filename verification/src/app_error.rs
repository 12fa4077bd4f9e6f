//! Errors at the boundary of the service: what clients see, and what only a log
//! sees.
use crate::io_error::IoErrorKind;
use crate::problem;
use crate::response::{Body, BodyView, Response, ResponseView};
use vstd::prelude::*;
use vstd::string::*;

verus! {

/// A public status and message, apart from a diagnostic source.
pub struct AppError {
    status: u16,
    public_message: String,
    source: Option<String>,
}

/// The status and the message of a filesystem failure, where it has one of its
/// own.
pub open spec fn public_failure(kind: IoErrorKind) -> Option<(u16, Seq<char>)> {
    match kind {
        IoErrorKind::NotFound | IoErrorKind::NotADirectory => Some((404, "Not Found"@)),
        IoErrorKind::PermissionDenied => Some((403, "Forbidden"@)),
        IoErrorKind::AlreadyExists => Some((409, "Conflict"@)),
        IoErrorKind::InvalidInput => Some((400, "Invalid request"@)),
        IoErrorKind::TimedOut => Some((504, "Filesystem operation timed out"@)),
        IoErrorKind::StorageFull | IoErrorKind::QuotaExceeded => Some(
            (507, "Insufficient storage"@),
        ),
        _ => None,
    }
}

impl AppError {
    pub closed spec fn shown_status(self) -> u16 {
        self.status
    }

    pub closed spec fn shown_message(self) -> Seq<char> {
        self.public_message@
    }

    pub closed spec fn diagnostic_source(self) -> Option<Seq<char>> {
        problem::opt_string(self.source)
    }

    /// An error that says no more than it shows.
    pub fn public(status: u16, message: &str) -> (error: AppError)
        ensures
            error.shown_status() == status,
            error.shown_message() == message@,
            error.diagnostic_source() is None,
    {
        AppError { status, public_message: String::from_str(message), source: None }
    }

    /// An error whose cause is nobody's business.
    pub fn internal(source: String) -> (error: AppError)
        ensures
            error.shown_status() == 500,
            error.shown_message() == "Internal Server Error"@,
            error.diagnostic_source() == Some(source@),
    {
        AppError {
            status: 500,
            public_message: String::from_str("Internal Server Error"),
            source: Some(source),
        }
    }

    /// An error for a failure whose chain of causes holds a filesystem failure
    /// of this kind, or none. Neither paths nor kernel diagnostics are shown.
    pub fn from_anyhow(source: String, io_kind: Option<IoErrorKind>) -> (error: AppError)
        ensures
            error.diagnostic_source() == Some(source@),
            ({
                let shown = match io_kind {
                    Some(kind) => public_failure(kind),
                    None => None,
                };
                match shown {
                    Some((status, message)) => error.shown_status() == status
                        && error.shown_message() == message,
                    None => error.shown_status() == 500 && error.shown_message()
                        == "Internal Server Error"@,
                }
            }),
    {
        let kind = match io_kind {
            Some(kind) => kind,
            None => return AppError::internal(source),
        };
        let (status, message): (u16, &str) = match kind {
            IoErrorKind::NotFound | IoErrorKind::NotADirectory => (404, "Not Found"),
            IoErrorKind::PermissionDenied => (403, "Forbidden"),
            IoErrorKind::AlreadyExists => (409, "Conflict"),
            IoErrorKind::InvalidInput => (400, "Invalid request"),
            IoErrorKind::TimedOut => (504, "Filesystem operation timed out"),
            IoErrorKind::StorageFull | IoErrorKind::QuotaExceeded => (507, "Insufficient storage"),
            _ => return AppError::internal(source),
        };
        AppError { status, public_message: String::from_str(message), source: Some(source) }
    }

    pub fn status(&self) -> (status: u16)
        ensures
            status == self.shown_status(),
    {
        self.status
    }

    pub fn public_message(&self) -> (message: &str)
        ensures
            message@ == self.shown_message(),
    {
        self.public_message.as_str()
    }

    /// What a log line says: the source, or the message where there is none.
    pub fn diagnostic(&self) -> (message: String)
        ensures
            message@ == (match self.diagnostic_source() {
                Some(source) => source,
                None => self.shown_message(),
            }),
    {
        match &self.source {
            Some(source) => source.clone(),
            None => self.public_message.clone(),
        }
    }
}

/// A response that shows an error.
pub open spec fn error_response(
    response: ResponseView,
    status: u16,
    message: Seq<char>,
) -> ResponseView {
    let answered = response.with_status(status);
    if message.len() == 0 {
        answered
    } else {
        answered.with_body(BodyView::Text(message))
    }
}

/// Answers with an error. An error without a message leaves the body alone.
pub fn apply_app_error(response: &mut Response, error: &AppError)
    ensures
        final(response)@ == error_response(
            old(response)@,
            error.shown_status(),
            error.shown_message(),
        ),
{
    response.status = error.status();
    if !error.public_message().is_empty() {
        response.body = Body::Text(String::from_str(error.public_message()));
    }
}

/// What a failure of the filesystem is shown as: what is missing is not found, what may
/// not be touched is forbidden, what is there already is a conflict, what was asked for
/// wrongly is a bad request, what took too long timed out, and a full disk says so.
/// Nothing else is shown.
pub proof fn law_failures_show_little(kind: IoErrorKind)
    ensures
        (kind == IoErrorKind::NotFound || kind == IoErrorKind::NotADirectory) <==> public_failure(
            kind,
        ) == Some((404u16, "Not Found"@)),
        kind == IoErrorKind::PermissionDenied <==> public_failure(kind) == Some(
            (403u16, "Forbidden"@),
        ),
        kind == IoErrorKind::AlreadyExists <==> public_failure(kind) == Some(
            (409u16, "Conflict"@),
        ),
        kind == IoErrorKind::InvalidInput <==> public_failure(kind) == Some(
            (400u16, "Invalid request"@),
        ),
        kind == IoErrorKind::TimedOut <==> public_failure(kind) == Some(
            (504u16, "Filesystem operation timed out"@),
        ),
        (kind == IoErrorKind::StorageFull || kind == IoErrorKind::QuotaExceeded)
            <==> public_failure(kind) == Some((507u16, "Insufficient storage"@)),
        public_failure(kind) matches Some((status, _)) ==> status == 404 || status == 403 || status
            == 409 || status == 400 || status == 504 || status == 507,
{
}

/// An error is answered with its status and its message, and with its status alone where
/// it has no message.
pub proof fn law_errors_are_answered(response: ResponseView, status: u16, message: Seq<char>)
    ensures
        error_response(response, status, message).status == status,
        error_response(response, status, message).headers == response.headers,
        message.len() > 0 ==> error_response(response, status, message).body == BodyView::Text(
            message,
        ),
        message.len() == 0 ==> error_response(response, status, message).body == response.body,
{
}

} // verus!
