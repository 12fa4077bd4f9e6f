use dufs::app_error::{apply_app_error, AppError};
use dufs::browser_api::relocation::{render_relocation_state_unavailable, RelocationKind};
use dufs::io_error::IoErrorKind;
use dufs::problem::{
    render_problem, ApiError, ErrorCode, OperationProblemContext, OperationPublicState,
    RecoveryAdvice,
};
use dufs::response::{Body, Response};
use dufs::server::{expired_upload_error, path_wait_capacity, render_path_wait_limit};
use std::collections::BTreeSet;

#[test]
fn internal_error_keeps_diagnostics_out_of_the_public_message() {
    let error = AppError::internal("private filesystem detail".to_string());
    assert_eq!(error.status(), 500);
    assert_eq!(error.public_message(), "Internal Server Error");
    assert!(error.diagnostic().contains("private filesystem detail"));
}

#[test]
fn filesystem_errors_have_stable_http_semantics_without_leaking_details() {
    for (kind, status, message) in [
        (IoErrorKind::NotFound, 404, "Not Found"),
        (IoErrorKind::PermissionDenied, 403, "Forbidden"),
        (IoErrorKind::AlreadyExists, 409, "Conflict"),
        (IoErrorKind::TimedOut, 504, "Filesystem operation timed out"),
    ] {
        let error = AppError::from_anyhow("private /srv/share detail".to_string(), Some(kind));
        assert_eq!(error.status(), status);
        assert_eq!(error.public_message(), message);
        assert!(error.diagnostic().contains("/srv/share"));
        assert!(!error.public_message().contains("/srv/share"));
    }
}

#[test]
fn unknown_errors_are_internal_errors() {
    let error = AppError::from_anyhow("disk on fire".to_string(), None);
    assert_eq!(error.status(), 500);
    let mut response = Response::new();
    apply_app_error(&mut response, &error);
    assert_eq!(response.status, 500);
    assert!(matches!(&response.body, Body::Text(text) if text == "Internal Server Error"));
}

#[test]
fn error_code_catalog_is_unique_and_serializes_exact_wire_names() {
    let mut seen = BTreeSet::new();
    for code in ErrorCode::all() {
        let text = code.as_str();
        assert!(!text.is_empty() && text.len() <= 64);
        assert!(text.starts_with(|first: char| first.is_ascii_lowercase()));
        assert!(text
            .bytes()
            .all(|byte| byte.is_ascii_lowercase() || byte.is_ascii_digit() || byte == b'_'));
        assert!(seen.insert(text), "duplicate code: {text}");
        assert_eq!(
            serde_json::to_string(text).unwrap(),
            format!("\"{}\"", code.as_str())
        );
    }
    assert!(seen.len() > 20);
}

#[test]
fn renderer_keeps_diagnostics_private_and_emits_retry_metadata() {
    let mut response = Response::new();
    let error = ApiError::new(
        503,
        ErrorCode::OperationRegistryFull,
        "Operation registry is temporarily full",
    )
    .with_source("private /srv/share diagnostic".to_string())
    .with_recovery(RecoveryAdvice::RetryAfterSeconds(1))
    .with_operation(OperationProblemContext::new(
        "00112233-4455-6677-8899-aabbccddeeff".to_string(),
        OperationPublicState::Rejected,
        None,
    ));

    render_problem(&mut response, &error);

    assert_eq!(response.status, 503);
    assert_eq!(
        response.headers.get("content-type"),
        Some("application/problem+json")
    );
    assert_eq!(response.headers.get("retry-after"), Some("1"));
    let details = match &response.body {
        Body::Problem(details) => details,
        _ => panic!("a problem is expected"),
    };
    assert_eq!(
        details.problem_type,
        "urn:dufs:problem:operation_registry_full"
    );
    assert_eq!(details.title, "Service Unavailable");
    assert_eq!(details.status, 503);
    assert_eq!(details.detail, "Operation registry is temporarily full");
    assert_eq!(details.code.as_str(), "operation_registry_full");
    assert_eq!(details.recovery, Some("retry"));
    assert_eq!(details.retry_after, Some(1));
    assert_eq!(
        details.operation_id.as_deref(),
        Some("00112233-4455-6677-8899-aabbccddeeff")
    );
    assert_eq!(details.state, Some("rejected"));
    assert!(details.upload_id.is_none());
    assert!(!details.detail.contains("/srv/share"));
    assert!(error.diagnostic().contains("/srv/share"));
}

#[test]
fn relocation_state_unavailable_codes_are_endpoint_specific() {
    for (kind, code) in [
        (RelocationKind::Move, "move_state_unavailable"),
        (RelocationKind::Rename, "rename_state_unavailable"),
    ] {
        let mut response = Response::new();
        render_relocation_state_unavailable(kind, Some(7), &mut response);
        assert_eq!(response.status, 503);
        match &response.body {
            Body::Problem(details) => assert_eq!(details.code.as_str(), code),
            _ => panic!("a problem is expected"),
        }
    }
}

#[test]
fn path_waiters_are_bounded_and_answered() {
    assert_eq!(path_wait_capacity(1), 1);
    assert_eq!(path_wait_capacity(1000), 64);
    let mut response = Response::new();
    render_path_wait_limit(&mut response, None);
    assert_eq!(response.status, 429);
    assert!(response.headers.get("x-dufs-operation-id").is_none());
    match &response.body {
        Body::Problem(details) => {
            assert_eq!(
                details.detail,
                "Too many path-coordinated requests are active"
            );
            assert!(details.operation_id.is_none());
        }
        _ => panic!("a problem is expected"),
    }
}

#[test]
fn uploads_past_their_deadline_say_whether_anything_may_have_happened() {
    let mut response = Response::new();
    render_problem(&mut response, &expired_upload_error(true, 5, 100, Some(10)));
    match &response.body {
        Body::Problem(details) => {
            assert_eq!(details.code.as_str(), "request_timeout");
            assert_eq!(details.recovery, Some("retry"));
        }
        _ => panic!("a problem is expected"),
    }
    let mut response = Response::new();
    render_problem(&mut response, &expired_upload_error(false, 5, 100, None));
    match &response.body {
        Body::Problem(details) => {
            assert_eq!(details.code.as_str(), "upload_outcome_unknown");
            assert_eq!(details.recovery, Some("query_upload"));
        }
        _ => panic!("a problem is expected"),
    }
}
