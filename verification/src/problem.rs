//! Public problem documents: stable codes, recovery advice and rendering.
use crate::response::{Body, BodyView, Response, ResponseView};
use crate::text;
use crate::text::{concat, decimal_text};
use vstd::prelude::*;
use vstd::string::*;

verus! {

/// A stable, machine-readable public error identifier.
#[derive(Clone, Copy, Debug, Eq, PartialEq, Structural)]
pub enum ErrorCode {
    ApiEndpointNotFound,
    DeleteNotCommitted,
    DeleteStateConflict,
    DeleteTargetChanged,
    DestinationChanged,
    DestinationExists,
    DestinationDirectoryNotFound,
    DestinationNotDirectory,
    DirectoryAccessForbidden,
    DirectoryChanged,
    DirectoryDepthLimit,
    DirectoryEntryLimit,
    DirectoryIntoItself,
    DirectoryMemoryLimit,
    DirectoryOperationFailed,
    DirectoryOperationLimit,
    DirectoryOperationTimeout,
    DirectoryOverwriteForbidden,
    DirectorySortLimit,
    DirectorySymlinkLoop,
    FilesystemTimeout,
    InsufficientStorage,
    InternalError,
    InvalidDestinationPath,
    InvalidDestinationRevision,
    InvalidJobId,
    InvalidJson,
    InvalidListCursor,
    InvalidListLimit,
    InvalidListPath,
    InvalidMovePath,
    InvalidOperationId,
    InvalidPath,
    InvalidRenameName,
    InvalidRenamePath,
    InvalidRequest,
    InvalidRequestBody,
    InvalidSourcePath,
    InvalidSourceRevision,
    InvalidUploadId,
    InvalidUploadLength,
    InvalidUploadOffset,
    InvalidUploadOverwrite,
    InvalidTargetRevision,
    JobNotFound,
    JobStoreUnavailable,
    ListCursorUnavailable,
    ListPathNotDirectory,
    ListPathNotFound,
    ListSnapshotLimit,
    MethodNotAllowed,
    MkdirStateConflict,
    MkdirStateUnavailable,
    MoveStateConflict,
    MoveStateUnavailable,
    OperationIdConflict,
    OperationInProgress,
    OperationNotCommitted,
    OperationRegistryFull,
    OperationResultUnknown,
    OperationStoreUnavailable,
    OutcomeUncertain,
    PathWaitConcurrencyLimit,
    PathExists,
    PurgeBacklogFull,
    PurgeStateUnavailable,
    RequestBodyTooLarge,
    RequestConflict,
    RequestForbidden,
    RequestNotFound,
    RequestTimeout,
    SourceChanged,
    SourceRevisionRequired,
    DestinationRevisionRequired,
    RenameStateConflict,
    RenameStateUnavailable,
    RootDeleteForbidden,
    SearchQueryTooLong,
    SearchResultLimit,
    ServerStopping,
    SourceEqualsDestination,
    SourceNotFound,
    TargetNotFound,
    UnsupportedFilename,
    UnsupportedMediaType,
    UploadBodyExceedsRemainingLength,
    UploadCheckpointPersistFailed,
    UploadCommittedLengthMismatch,
    UploadConcurrencyLimit,
    UploadIdRejected,
    UploadIdleTimeout,
    UploadInProgress,
    UploadInsufficientStorage,
    UploadLengthChanged,
    UploadLengthMismatch,
    UploadMetadataPreservationRefused,
    UploadNotPublished,
    UploadOffsetChanged,
    UploadOutcomeUnknown,
    UploadPathWaitTimeout,
    UploadPrecommitFailed,
    UploadPreflightConcurrencyLimit,
    UploadPublicationDurabilityUnknown,
    UploadPublicationOutcomeUnknown,
    UploadResultUnknown,
    UploadSessionConflict,
    UploadSessionNotFound,
    UploadSessionStoreFull,
    UploadSizeLimitExceeded,
    UploadStageConflict,
    UploadStageInvalid,
    UploadStateConflict,
    UploadStateUnavailable,
    UploadTargetChanged,
    UploadTargetInspectionTimeout,
    UploadTargetNotFound,
    UploadTerminalRecordFailed,
}

/// What a client can consume as a problem code.
pub open spec fn is_problem_code(text: Seq<char>) -> bool {
    &&& 1 <= text.len() <= 64
    &&& 'a' <= text[0] <= 'z'
    &&& forall|i: int|
        0 <= i < text.len() ==> {
            ||| 'a' <= #[trigger] text[i] <= 'z'
            ||| '0' <= text[i] <= '9'
            ||| text[i] == '_'
        }
}

impl ErrorCode {
    /// The name of the code on the wire.
    pub open spec fn wire(self) -> Seq<char> {
        match self {
            ErrorCode::ApiEndpointNotFound => "api_endpoint_not_found"@,
            ErrorCode::DeleteNotCommitted => "delete_not_committed"@,
            ErrorCode::DeleteStateConflict => "delete_state_conflict"@,
            ErrorCode::DeleteTargetChanged => "delete_target_changed"@,
            ErrorCode::DestinationChanged => "destination_changed"@,
            ErrorCode::DestinationExists => "destination_exists"@,
            ErrorCode::DestinationDirectoryNotFound => "destination_directory_not_found"@,
            ErrorCode::DestinationNotDirectory => "destination_not_directory"@,
            ErrorCode::DirectoryAccessForbidden => "directory_access_forbidden"@,
            ErrorCode::DirectoryChanged => "directory_changed"@,
            ErrorCode::DirectoryDepthLimit => "directory_depth_limit"@,
            ErrorCode::DirectoryEntryLimit => "directory_entry_limit"@,
            ErrorCode::DirectoryIntoItself => "directory_into_itself"@,
            ErrorCode::DirectoryMemoryLimit => "directory_memory_limit"@,
            ErrorCode::DirectoryOperationFailed => "directory_operation_failed"@,
            ErrorCode::DirectoryOperationLimit => "directory_operation_limit"@,
            ErrorCode::DirectoryOperationTimeout => "directory_operation_timeout"@,
            ErrorCode::DirectoryOverwriteForbidden => "directory_overwrite_forbidden"@,
            ErrorCode::DirectorySortLimit => "directory_sort_limit"@,
            ErrorCode::DirectorySymlinkLoop => "directory_symlink_loop"@,
            ErrorCode::FilesystemTimeout => "filesystem_timeout"@,
            ErrorCode::InsufficientStorage => "insufficient_storage"@,
            ErrorCode::InternalError => "internal_error"@,
            ErrorCode::InvalidDestinationPath => "invalid_destination_path"@,
            ErrorCode::InvalidDestinationRevision => "invalid_destination_revision"@,
            ErrorCode::InvalidJobId => "invalid_job_id"@,
            ErrorCode::InvalidJson => "invalid_json"@,
            ErrorCode::InvalidListCursor => "invalid_list_cursor"@,
            ErrorCode::InvalidListLimit => "invalid_list_limit"@,
            ErrorCode::InvalidListPath => "invalid_list_path"@,
            ErrorCode::InvalidMovePath => "invalid_move_path"@,
            ErrorCode::InvalidOperationId => "invalid_operation_id"@,
            ErrorCode::InvalidPath => "invalid_path"@,
            ErrorCode::InvalidRenameName => "invalid_rename_name"@,
            ErrorCode::InvalidRenamePath => "invalid_rename_path"@,
            ErrorCode::InvalidRequest => "invalid_request"@,
            ErrorCode::InvalidRequestBody => "invalid_request_body"@,
            ErrorCode::InvalidSourcePath => "invalid_source_path"@,
            ErrorCode::InvalidSourceRevision => "invalid_source_revision"@,
            ErrorCode::InvalidUploadId => "invalid_upload_id"@,
            ErrorCode::InvalidUploadLength => "invalid_upload_length"@,
            ErrorCode::InvalidUploadOffset => "invalid_upload_offset"@,
            ErrorCode::InvalidUploadOverwrite => "invalid_upload_overwrite"@,
            ErrorCode::InvalidTargetRevision => "invalid_target_revision"@,
            ErrorCode::JobNotFound => "job_not_found"@,
            ErrorCode::JobStoreUnavailable => "job_store_unavailable"@,
            ErrorCode::ListCursorUnavailable => "list_cursor_unavailable"@,
            ErrorCode::ListPathNotDirectory => "list_path_not_directory"@,
            ErrorCode::ListPathNotFound => "list_path_not_found"@,
            ErrorCode::ListSnapshotLimit => "list_snapshot_limit"@,
            ErrorCode::MethodNotAllowed => "method_not_allowed"@,
            ErrorCode::MkdirStateConflict => "mkdir_state_conflict"@,
            ErrorCode::MkdirStateUnavailable => "mkdir_state_unavailable"@,
            ErrorCode::MoveStateConflict => "move_state_conflict"@,
            ErrorCode::MoveStateUnavailable => "move_state_unavailable"@,
            ErrorCode::OperationIdConflict => "operation_id_conflict"@,
            ErrorCode::OperationInProgress => "operation_in_progress"@,
            ErrorCode::OperationNotCommitted => "operation_not_committed"@,
            ErrorCode::OperationRegistryFull => "operation_registry_full"@,
            ErrorCode::OperationResultUnknown => "operation_result_unknown"@,
            ErrorCode::OperationStoreUnavailable => "operation_store_unavailable"@,
            ErrorCode::OutcomeUncertain => "outcome_uncertain"@,
            ErrorCode::PathWaitConcurrencyLimit => "path_wait_concurrency_limit"@,
            ErrorCode::PathExists => "path_exists"@,
            ErrorCode::PurgeBacklogFull => "purge_backlog_full"@,
            ErrorCode::PurgeStateUnavailable => "purge_state_unavailable"@,
            ErrorCode::RequestBodyTooLarge => "request_body_too_large"@,
            ErrorCode::RequestConflict => "request_conflict"@,
            ErrorCode::RequestForbidden => "request_forbidden"@,
            ErrorCode::RequestNotFound => "request_not_found"@,
            ErrorCode::RequestTimeout => "request_timeout"@,
            ErrorCode::SourceChanged => "source_changed"@,
            ErrorCode::SourceRevisionRequired => "source_revision_required"@,
            ErrorCode::DestinationRevisionRequired => "destination_revision_required"@,
            ErrorCode::RenameStateConflict => "rename_state_conflict"@,
            ErrorCode::RenameStateUnavailable => "rename_state_unavailable"@,
            ErrorCode::RootDeleteForbidden => "root_delete_forbidden"@,
            ErrorCode::SearchQueryTooLong => "search_query_too_long"@,
            ErrorCode::SearchResultLimit => "search_result_limit"@,
            ErrorCode::ServerStopping => "server_stopping"@,
            ErrorCode::SourceEqualsDestination => "source_equals_destination"@,
            ErrorCode::SourceNotFound => "source_not_found"@,
            ErrorCode::TargetNotFound => "target_not_found"@,
            ErrorCode::UnsupportedFilename => "unsupported_filename"@,
            ErrorCode::UnsupportedMediaType => "unsupported_media_type"@,
            ErrorCode::UploadBodyExceedsRemainingLength => "upload_body_exceeds_remaining_length"@,
            ErrorCode::UploadCheckpointPersistFailed => "upload_checkpoint_persist_failed"@,
            ErrorCode::UploadCommittedLengthMismatch => "upload_committed_length_mismatch"@,
            ErrorCode::UploadConcurrencyLimit => "upload_concurrency_limit"@,
            ErrorCode::UploadIdRejected => "upload_id_rejected"@,
            ErrorCode::UploadIdleTimeout => "upload_idle_timeout"@,
            ErrorCode::UploadInProgress => "upload_in_progress"@,
            ErrorCode::UploadInsufficientStorage => "upload_insufficient_storage"@,
            ErrorCode::UploadLengthChanged => "upload_length_changed"@,
            ErrorCode::UploadLengthMismatch => "upload_length_mismatch"@,
            ErrorCode::UploadMetadataPreservationRefused => "upload_metadata_preservation_refused"@,
            ErrorCode::UploadNotPublished => "upload_not_published"@,
            ErrorCode::UploadOffsetChanged => "upload_offset_changed"@,
            ErrorCode::UploadOutcomeUnknown => "upload_outcome_unknown"@,
            ErrorCode::UploadPathWaitTimeout => "upload_path_wait_timeout"@,
            ErrorCode::UploadPrecommitFailed => "upload_precommit_failed"@,
            ErrorCode::UploadPreflightConcurrencyLimit => "upload_preflight_concurrency_limit"@,
            ErrorCode::UploadPublicationDurabilityUnknown => "upload_publication_durability_unknown"@,
            ErrorCode::UploadPublicationOutcomeUnknown => "upload_publication_outcome_unknown"@,
            ErrorCode::UploadResultUnknown => "upload_result_unknown"@,
            ErrorCode::UploadSessionConflict => "upload_session_conflict"@,
            ErrorCode::UploadSessionNotFound => "upload_session_not_found"@,
            ErrorCode::UploadSessionStoreFull => "upload_session_store_full"@,
            ErrorCode::UploadSizeLimitExceeded => "upload_size_limit_exceeded"@,
            ErrorCode::UploadStageConflict => "upload_stage_conflict"@,
            ErrorCode::UploadStageInvalid => "upload_stage_invalid"@,
            ErrorCode::UploadStateConflict => "upload_state_conflict"@,
            ErrorCode::UploadStateUnavailable => "upload_state_unavailable"@,
            ErrorCode::UploadTargetChanged => "upload_target_changed"@,
            ErrorCode::UploadTargetInspectionTimeout => "upload_target_inspection_timeout"@,
            ErrorCode::UploadTargetNotFound => "upload_target_not_found"@,
            ErrorCode::UploadTerminalRecordFailed => "upload_terminal_record_failed"@,
        }
    }

    /// The name of the code on the wire.
    pub fn as_str(self) -> (text: &'static str)
        ensures
            text@ == self.wire(),
    {
        match self {
            ErrorCode::ApiEndpointNotFound => "api_endpoint_not_found",
            ErrorCode::DeleteNotCommitted => "delete_not_committed",
            ErrorCode::DeleteStateConflict => "delete_state_conflict",
            ErrorCode::DeleteTargetChanged => "delete_target_changed",
            ErrorCode::DestinationChanged => "destination_changed",
            ErrorCode::DestinationExists => "destination_exists",
            ErrorCode::DestinationDirectoryNotFound => "destination_directory_not_found",
            ErrorCode::DestinationNotDirectory => "destination_not_directory",
            ErrorCode::DirectoryAccessForbidden => "directory_access_forbidden",
            ErrorCode::DirectoryChanged => "directory_changed",
            ErrorCode::DirectoryDepthLimit => "directory_depth_limit",
            ErrorCode::DirectoryEntryLimit => "directory_entry_limit",
            ErrorCode::DirectoryIntoItself => "directory_into_itself",
            ErrorCode::DirectoryMemoryLimit => "directory_memory_limit",
            ErrorCode::DirectoryOperationFailed => "directory_operation_failed",
            ErrorCode::DirectoryOperationLimit => "directory_operation_limit",
            ErrorCode::DirectoryOperationTimeout => "directory_operation_timeout",
            ErrorCode::DirectoryOverwriteForbidden => "directory_overwrite_forbidden",
            ErrorCode::DirectorySortLimit => "directory_sort_limit",
            ErrorCode::DirectorySymlinkLoop => "directory_symlink_loop",
            ErrorCode::FilesystemTimeout => "filesystem_timeout",
            ErrorCode::InsufficientStorage => "insufficient_storage",
            ErrorCode::InternalError => "internal_error",
            ErrorCode::InvalidDestinationPath => "invalid_destination_path",
            ErrorCode::InvalidDestinationRevision => "invalid_destination_revision",
            ErrorCode::InvalidJobId => "invalid_job_id",
            ErrorCode::InvalidJson => "invalid_json",
            ErrorCode::InvalidListCursor => "invalid_list_cursor",
            ErrorCode::InvalidListLimit => "invalid_list_limit",
            ErrorCode::InvalidListPath => "invalid_list_path",
            ErrorCode::InvalidMovePath => "invalid_move_path",
            ErrorCode::InvalidOperationId => "invalid_operation_id",
            ErrorCode::InvalidPath => "invalid_path",
            ErrorCode::InvalidRenameName => "invalid_rename_name",
            ErrorCode::InvalidRenamePath => "invalid_rename_path",
            ErrorCode::InvalidRequest => "invalid_request",
            ErrorCode::InvalidRequestBody => "invalid_request_body",
            ErrorCode::InvalidSourcePath => "invalid_source_path",
            ErrorCode::InvalidSourceRevision => "invalid_source_revision",
            ErrorCode::InvalidUploadId => "invalid_upload_id",
            ErrorCode::InvalidUploadLength => "invalid_upload_length",
            ErrorCode::InvalidUploadOffset => "invalid_upload_offset",
            ErrorCode::InvalidUploadOverwrite => "invalid_upload_overwrite",
            ErrorCode::InvalidTargetRevision => "invalid_target_revision",
            ErrorCode::JobNotFound => "job_not_found",
            ErrorCode::JobStoreUnavailable => "job_store_unavailable",
            ErrorCode::ListCursorUnavailable => "list_cursor_unavailable",
            ErrorCode::ListPathNotDirectory => "list_path_not_directory",
            ErrorCode::ListPathNotFound => "list_path_not_found",
            ErrorCode::ListSnapshotLimit => "list_snapshot_limit",
            ErrorCode::MethodNotAllowed => "method_not_allowed",
            ErrorCode::MkdirStateConflict => "mkdir_state_conflict",
            ErrorCode::MkdirStateUnavailable => "mkdir_state_unavailable",
            ErrorCode::MoveStateConflict => "move_state_conflict",
            ErrorCode::MoveStateUnavailable => "move_state_unavailable",
            ErrorCode::OperationIdConflict => "operation_id_conflict",
            ErrorCode::OperationInProgress => "operation_in_progress",
            ErrorCode::OperationNotCommitted => "operation_not_committed",
            ErrorCode::OperationRegistryFull => "operation_registry_full",
            ErrorCode::OperationResultUnknown => "operation_result_unknown",
            ErrorCode::OperationStoreUnavailable => "operation_store_unavailable",
            ErrorCode::OutcomeUncertain => "outcome_uncertain",
            ErrorCode::PathWaitConcurrencyLimit => "path_wait_concurrency_limit",
            ErrorCode::PathExists => "path_exists",
            ErrorCode::PurgeBacklogFull => "purge_backlog_full",
            ErrorCode::PurgeStateUnavailable => "purge_state_unavailable",
            ErrorCode::RequestBodyTooLarge => "request_body_too_large",
            ErrorCode::RequestConflict => "request_conflict",
            ErrorCode::RequestForbidden => "request_forbidden",
            ErrorCode::RequestNotFound => "request_not_found",
            ErrorCode::RequestTimeout => "request_timeout",
            ErrorCode::SourceChanged => "source_changed",
            ErrorCode::SourceRevisionRequired => "source_revision_required",
            ErrorCode::DestinationRevisionRequired => "destination_revision_required",
            ErrorCode::RenameStateConflict => "rename_state_conflict",
            ErrorCode::RenameStateUnavailable => "rename_state_unavailable",
            ErrorCode::RootDeleteForbidden => "root_delete_forbidden",
            ErrorCode::SearchQueryTooLong => "search_query_too_long",
            ErrorCode::SearchResultLimit => "search_result_limit",
            ErrorCode::ServerStopping => "server_stopping",
            ErrorCode::SourceEqualsDestination => "source_equals_destination",
            ErrorCode::SourceNotFound => "source_not_found",
            ErrorCode::TargetNotFound => "target_not_found",
            ErrorCode::UnsupportedFilename => "unsupported_filename",
            ErrorCode::UnsupportedMediaType => "unsupported_media_type",
            ErrorCode::UploadBodyExceedsRemainingLength => "upload_body_exceeds_remaining_length",
            ErrorCode::UploadCheckpointPersistFailed => "upload_checkpoint_persist_failed",
            ErrorCode::UploadCommittedLengthMismatch => "upload_committed_length_mismatch",
            ErrorCode::UploadConcurrencyLimit => "upload_concurrency_limit",
            ErrorCode::UploadIdRejected => "upload_id_rejected",
            ErrorCode::UploadIdleTimeout => "upload_idle_timeout",
            ErrorCode::UploadInProgress => "upload_in_progress",
            ErrorCode::UploadInsufficientStorage => "upload_insufficient_storage",
            ErrorCode::UploadLengthChanged => "upload_length_changed",
            ErrorCode::UploadLengthMismatch => "upload_length_mismatch",
            ErrorCode::UploadMetadataPreservationRefused => "upload_metadata_preservation_refused",
            ErrorCode::UploadNotPublished => "upload_not_published",
            ErrorCode::UploadOffsetChanged => "upload_offset_changed",
            ErrorCode::UploadOutcomeUnknown => "upload_outcome_unknown",
            ErrorCode::UploadPathWaitTimeout => "upload_path_wait_timeout",
            ErrorCode::UploadPrecommitFailed => "upload_precommit_failed",
            ErrorCode::UploadPreflightConcurrencyLimit => "upload_preflight_concurrency_limit",
            ErrorCode::UploadPublicationDurabilityUnknown => "upload_publication_durability_unknown",
            ErrorCode::UploadPublicationOutcomeUnknown => "upload_publication_outcome_unknown",
            ErrorCode::UploadResultUnknown => "upload_result_unknown",
            ErrorCode::UploadSessionConflict => "upload_session_conflict",
            ErrorCode::UploadSessionNotFound => "upload_session_not_found",
            ErrorCode::UploadSessionStoreFull => "upload_session_store_full",
            ErrorCode::UploadSizeLimitExceeded => "upload_size_limit_exceeded",
            ErrorCode::UploadStageConflict => "upload_stage_conflict",
            ErrorCode::UploadStageInvalid => "upload_stage_invalid",
            ErrorCode::UploadStateConflict => "upload_state_conflict",
            ErrorCode::UploadStateUnavailable => "upload_state_unavailable",
            ErrorCode::UploadTargetChanged => "upload_target_changed",
            ErrorCode::UploadTargetInspectionTimeout => "upload_target_inspection_timeout",
            ErrorCode::UploadTargetNotFound => "upload_target_not_found",
            ErrorCode::UploadTerminalRecordFailed => "upload_terminal_record_failed",
        }
    }

    /// Every code of the catalog, in alphabetical groups.
    pub fn all() -> (codes: Vec<ErrorCode>)
        ensures
            forall|code: ErrorCode| #[trigger] codes@.contains(code),
    {
        let codes = vec![
            ErrorCode::ApiEndpointNotFound,
            ErrorCode::DeleteNotCommitted,
            ErrorCode::DeleteStateConflict,
            ErrorCode::DeleteTargetChanged,
            ErrorCode::DestinationChanged,
            ErrorCode::DestinationExists,
            ErrorCode::DestinationDirectoryNotFound,
            ErrorCode::DestinationNotDirectory,
            ErrorCode::DirectoryAccessForbidden,
            ErrorCode::DirectoryChanged,
            ErrorCode::DirectoryDepthLimit,
            ErrorCode::DirectoryEntryLimit,
            ErrorCode::DirectoryIntoItself,
            ErrorCode::DirectoryMemoryLimit,
            ErrorCode::DirectoryOperationFailed,
            ErrorCode::DirectoryOperationLimit,
            ErrorCode::DirectoryOperationTimeout,
            ErrorCode::DirectoryOverwriteForbidden,
            ErrorCode::DirectorySortLimit,
            ErrorCode::DirectorySymlinkLoop,
            ErrorCode::FilesystemTimeout,
            ErrorCode::InsufficientStorage,
            ErrorCode::InternalError,
            ErrorCode::InvalidDestinationPath,
            ErrorCode::InvalidDestinationRevision,
            ErrorCode::InvalidJobId,
            ErrorCode::InvalidJson,
            ErrorCode::InvalidListCursor,
            ErrorCode::InvalidListLimit,
            ErrorCode::InvalidListPath,
            ErrorCode::InvalidMovePath,
            ErrorCode::InvalidOperationId,
            ErrorCode::InvalidPath,
            ErrorCode::InvalidRenameName,
            ErrorCode::InvalidRenamePath,
            ErrorCode::InvalidRequest,
            ErrorCode::InvalidRequestBody,
            ErrorCode::InvalidSourcePath,
            ErrorCode::InvalidSourceRevision,
            ErrorCode::InvalidUploadId,
            ErrorCode::InvalidUploadLength,
            ErrorCode::InvalidUploadOffset,
            ErrorCode::InvalidUploadOverwrite,
            ErrorCode::InvalidTargetRevision,
            ErrorCode::JobNotFound,
            ErrorCode::JobStoreUnavailable,
            ErrorCode::ListCursorUnavailable,
            ErrorCode::ListPathNotDirectory,
            ErrorCode::ListPathNotFound,
            ErrorCode::ListSnapshotLimit,
            ErrorCode::MethodNotAllowed,
            ErrorCode::MkdirStateConflict,
            ErrorCode::MkdirStateUnavailable,
            ErrorCode::MoveStateConflict,
            ErrorCode::MoveStateUnavailable,
            ErrorCode::OperationIdConflict,
            ErrorCode::OperationInProgress,
            ErrorCode::OperationNotCommitted,
            ErrorCode::OperationRegistryFull,
            ErrorCode::OperationResultUnknown,
            ErrorCode::OperationStoreUnavailable,
            ErrorCode::OutcomeUncertain,
            ErrorCode::PathWaitConcurrencyLimit,
            ErrorCode::PathExists,
            ErrorCode::PurgeBacklogFull,
            ErrorCode::PurgeStateUnavailable,
            ErrorCode::RequestBodyTooLarge,
            ErrorCode::RequestConflict,
            ErrorCode::RequestForbidden,
            ErrorCode::RequestNotFound,
            ErrorCode::RequestTimeout,
            ErrorCode::SourceChanged,
            ErrorCode::SourceRevisionRequired,
            ErrorCode::DestinationRevisionRequired,
            ErrorCode::RenameStateConflict,
            ErrorCode::RenameStateUnavailable,
            ErrorCode::RootDeleteForbidden,
            ErrorCode::SearchQueryTooLong,
            ErrorCode::SearchResultLimit,
            ErrorCode::ServerStopping,
            ErrorCode::SourceEqualsDestination,
            ErrorCode::SourceNotFound,
            ErrorCode::TargetNotFound,
            ErrorCode::UnsupportedFilename,
            ErrorCode::UnsupportedMediaType,
            ErrorCode::UploadBodyExceedsRemainingLength,
            ErrorCode::UploadCheckpointPersistFailed,
            ErrorCode::UploadCommittedLengthMismatch,
            ErrorCode::UploadConcurrencyLimit,
            ErrorCode::UploadIdRejected,
            ErrorCode::UploadIdleTimeout,
            ErrorCode::UploadInProgress,
            ErrorCode::UploadInsufficientStorage,
            ErrorCode::UploadLengthChanged,
            ErrorCode::UploadLengthMismatch,
            ErrorCode::UploadMetadataPreservationRefused,
            ErrorCode::UploadNotPublished,
            ErrorCode::UploadOffsetChanged,
            ErrorCode::UploadOutcomeUnknown,
            ErrorCode::UploadPathWaitTimeout,
            ErrorCode::UploadPrecommitFailed,
            ErrorCode::UploadPreflightConcurrencyLimit,
            ErrorCode::UploadPublicationDurabilityUnknown,
            ErrorCode::UploadPublicationOutcomeUnknown,
            ErrorCode::UploadResultUnknown,
            ErrorCode::UploadSessionConflict,
            ErrorCode::UploadSessionNotFound,
            ErrorCode::UploadSessionStoreFull,
            ErrorCode::UploadSizeLimitExceeded,
            ErrorCode::UploadStageConflict,
            ErrorCode::UploadStageInvalid,
            ErrorCode::UploadStateConflict,
            ErrorCode::UploadStateUnavailable,
            ErrorCode::UploadTargetChanged,
            ErrorCode::UploadTargetInspectionTimeout,
            ErrorCode::UploadTargetNotFound,
            ErrorCode::UploadTerminalRecordFailed,
        ];
        proof {
            assert forall|code: ErrorCode| #[trigger] codes@.contains(code) by {
                match code {
                    ErrorCode::ApiEndpointNotFound => assert(codes@[0] == code),
                    ErrorCode::DeleteNotCommitted => assert(codes@[1] == code),
                    ErrorCode::DeleteStateConflict => assert(codes@[2] == code),
                    ErrorCode::DeleteTargetChanged => assert(codes@[3] == code),
                    ErrorCode::DestinationChanged => assert(codes@[4] == code),
                    ErrorCode::DestinationExists => assert(codes@[5] == code),
                    ErrorCode::DestinationDirectoryNotFound => assert(codes@[6] == code),
                    ErrorCode::DestinationNotDirectory => assert(codes@[7] == code),
                    ErrorCode::DirectoryAccessForbidden => assert(codes@[8] == code),
                    ErrorCode::DirectoryChanged => assert(codes@[9] == code),
                    ErrorCode::DirectoryDepthLimit => assert(codes@[10] == code),
                    ErrorCode::DirectoryEntryLimit => assert(codes@[11] == code),
                    ErrorCode::DirectoryIntoItself => assert(codes@[12] == code),
                    ErrorCode::DirectoryMemoryLimit => assert(codes@[13] == code),
                    ErrorCode::DirectoryOperationFailed => assert(codes@[14] == code),
                    ErrorCode::DirectoryOperationLimit => assert(codes@[15] == code),
                    ErrorCode::DirectoryOperationTimeout => assert(codes@[16] == code),
                    ErrorCode::DirectoryOverwriteForbidden => assert(codes@[17] == code),
                    ErrorCode::DirectorySortLimit => assert(codes@[18] == code),
                    ErrorCode::DirectorySymlinkLoop => assert(codes@[19] == code),
                    ErrorCode::FilesystemTimeout => assert(codes@[20] == code),
                    ErrorCode::InsufficientStorage => assert(codes@[21] == code),
                    ErrorCode::InternalError => assert(codes@[22] == code),
                    ErrorCode::InvalidDestinationPath => assert(codes@[23] == code),
                    ErrorCode::InvalidDestinationRevision => assert(codes@[24] == code),
                    ErrorCode::InvalidJobId => assert(codes@[25] == code),
                    ErrorCode::InvalidJson => assert(codes@[26] == code),
                    ErrorCode::InvalidListCursor => assert(codes@[27] == code),
                    ErrorCode::InvalidListLimit => assert(codes@[28] == code),
                    ErrorCode::InvalidListPath => assert(codes@[29] == code),
                    ErrorCode::InvalidMovePath => assert(codes@[30] == code),
                    ErrorCode::InvalidOperationId => assert(codes@[31] == code),
                    ErrorCode::InvalidPath => assert(codes@[32] == code),
                    ErrorCode::InvalidRenameName => assert(codes@[33] == code),
                    ErrorCode::InvalidRenamePath => assert(codes@[34] == code),
                    ErrorCode::InvalidRequest => assert(codes@[35] == code),
                    ErrorCode::InvalidRequestBody => assert(codes@[36] == code),
                    ErrorCode::InvalidSourcePath => assert(codes@[37] == code),
                    ErrorCode::InvalidSourceRevision => assert(codes@[38] == code),
                    ErrorCode::InvalidUploadId => assert(codes@[39] == code),
                    ErrorCode::InvalidUploadLength => assert(codes@[40] == code),
                    ErrorCode::InvalidUploadOffset => assert(codes@[41] == code),
                    ErrorCode::InvalidUploadOverwrite => assert(codes@[42] == code),
                    ErrorCode::InvalidTargetRevision => assert(codes@[43] == code),
                    ErrorCode::JobNotFound => assert(codes@[44] == code),
                    ErrorCode::JobStoreUnavailable => assert(codes@[45] == code),
                    ErrorCode::ListCursorUnavailable => assert(codes@[46] == code),
                    ErrorCode::ListPathNotDirectory => assert(codes@[47] == code),
                    ErrorCode::ListPathNotFound => assert(codes@[48] == code),
                    ErrorCode::ListSnapshotLimit => assert(codes@[49] == code),
                    ErrorCode::MethodNotAllowed => assert(codes@[50] == code),
                    ErrorCode::MkdirStateConflict => assert(codes@[51] == code),
                    ErrorCode::MkdirStateUnavailable => assert(codes@[52] == code),
                    ErrorCode::MoveStateConflict => assert(codes@[53] == code),
                    ErrorCode::MoveStateUnavailable => assert(codes@[54] == code),
                    ErrorCode::OperationIdConflict => assert(codes@[55] == code),
                    ErrorCode::OperationInProgress => assert(codes@[56] == code),
                    ErrorCode::OperationNotCommitted => assert(codes@[57] == code),
                    ErrorCode::OperationRegistryFull => assert(codes@[58] == code),
                    ErrorCode::OperationResultUnknown => assert(codes@[59] == code),
                    ErrorCode::OperationStoreUnavailable => assert(codes@[60] == code),
                    ErrorCode::OutcomeUncertain => assert(codes@[61] == code),
                    ErrorCode::PathWaitConcurrencyLimit => assert(codes@[62] == code),
                    ErrorCode::PathExists => assert(codes@[63] == code),
                    ErrorCode::PurgeBacklogFull => assert(codes@[64] == code),
                    ErrorCode::PurgeStateUnavailable => assert(codes@[65] == code),
                    ErrorCode::RequestBodyTooLarge => assert(codes@[66] == code),
                    ErrorCode::RequestConflict => assert(codes@[67] == code),
                    ErrorCode::RequestForbidden => assert(codes@[68] == code),
                    ErrorCode::RequestNotFound => assert(codes@[69] == code),
                    ErrorCode::RequestTimeout => assert(codes@[70] == code),
                    ErrorCode::SourceChanged => assert(codes@[71] == code),
                    ErrorCode::SourceRevisionRequired => assert(codes@[72] == code),
                    ErrorCode::DestinationRevisionRequired => assert(codes@[73] == code),
                    ErrorCode::RenameStateConflict => assert(codes@[74] == code),
                    ErrorCode::RenameStateUnavailable => assert(codes@[75] == code),
                    ErrorCode::RootDeleteForbidden => assert(codes@[76] == code),
                    ErrorCode::SearchQueryTooLong => assert(codes@[77] == code),
                    ErrorCode::SearchResultLimit => assert(codes@[78] == code),
                    ErrorCode::ServerStopping => assert(codes@[79] == code),
                    ErrorCode::SourceEqualsDestination => assert(codes@[80] == code),
                    ErrorCode::SourceNotFound => assert(codes@[81] == code),
                    ErrorCode::TargetNotFound => assert(codes@[82] == code),
                    ErrorCode::UnsupportedFilename => assert(codes@[83] == code),
                    ErrorCode::UnsupportedMediaType => assert(codes@[84] == code),
                    ErrorCode::UploadBodyExceedsRemainingLength => assert(codes@[85] == code),
                    ErrorCode::UploadCheckpointPersistFailed => assert(codes@[86] == code),
                    ErrorCode::UploadCommittedLengthMismatch => assert(codes@[87] == code),
                    ErrorCode::UploadConcurrencyLimit => assert(codes@[88] == code),
                    ErrorCode::UploadIdRejected => assert(codes@[89] == code),
                    ErrorCode::UploadIdleTimeout => assert(codes@[90] == code),
                    ErrorCode::UploadInProgress => assert(codes@[91] == code),
                    ErrorCode::UploadInsufficientStorage => assert(codes@[92] == code),
                    ErrorCode::UploadLengthChanged => assert(codes@[93] == code),
                    ErrorCode::UploadLengthMismatch => assert(codes@[94] == code),
                    ErrorCode::UploadMetadataPreservationRefused => assert(codes@[95] == code),
                    ErrorCode::UploadNotPublished => assert(codes@[96] == code),
                    ErrorCode::UploadOffsetChanged => assert(codes@[97] == code),
                    ErrorCode::UploadOutcomeUnknown => assert(codes@[98] == code),
                    ErrorCode::UploadPathWaitTimeout => assert(codes@[99] == code),
                    ErrorCode::UploadPrecommitFailed => assert(codes@[100] == code),
                    ErrorCode::UploadPreflightConcurrencyLimit => assert(codes@[101] == code),
                    ErrorCode::UploadPublicationDurabilityUnknown => assert(codes@[102] == code),
                    ErrorCode::UploadPublicationOutcomeUnknown => assert(codes@[103] == code),
                    ErrorCode::UploadResultUnknown => assert(codes@[104] == code),
                    ErrorCode::UploadSessionConflict => assert(codes@[105] == code),
                    ErrorCode::UploadSessionNotFound => assert(codes@[106] == code),
                    ErrorCode::UploadSessionStoreFull => assert(codes@[107] == code),
                    ErrorCode::UploadSizeLimitExceeded => assert(codes@[108] == code),
                    ErrorCode::UploadStageConflict => assert(codes@[109] == code),
                    ErrorCode::UploadStageInvalid => assert(codes@[110] == code),
                    ErrorCode::UploadStateConflict => assert(codes@[111] == code),
                    ErrorCode::UploadStateUnavailable => assert(codes@[112] == code),
                    ErrorCode::UploadTargetChanged => assert(codes@[113] == code),
                    ErrorCode::UploadTargetInspectionTimeout => assert(codes@[114] == code),
                    ErrorCode::UploadTargetNotFound => assert(codes@[115] == code),
                    ErrorCode::UploadTerminalRecordFailed => assert(codes@[116] == code),
                }
            }
        }
        codes
    }
}

/// Every code of the catalog is one that a client can consume.
pub proof fn law_catalog_codes_are_valid(code: ErrorCode)
    ensures
        is_problem_code(code.wire()),
{
    match code {
        ErrorCode::ApiEndpointNotFound => {
            reveal_strlit("api_endpoint_not_found");
        },
        ErrorCode::DeleteNotCommitted => {
            reveal_strlit("delete_not_committed");
        },
        ErrorCode::DeleteStateConflict => {
            reveal_strlit("delete_state_conflict");
        },
        ErrorCode::DeleteTargetChanged => {
            reveal_strlit("delete_target_changed");
        },
        ErrorCode::DestinationChanged => {
            reveal_strlit("destination_changed");
        },
        ErrorCode::DestinationExists => {
            reveal_strlit("destination_exists");
        },
        ErrorCode::DestinationDirectoryNotFound => {
            reveal_strlit("destination_directory_not_found");
        },
        ErrorCode::DestinationNotDirectory => {
            reveal_strlit("destination_not_directory");
        },
        ErrorCode::DirectoryAccessForbidden => {
            reveal_strlit("directory_access_forbidden");
        },
        ErrorCode::DirectoryChanged => {
            reveal_strlit("directory_changed");
        },
        ErrorCode::DirectoryDepthLimit => {
            reveal_strlit("directory_depth_limit");
        },
        ErrorCode::DirectoryEntryLimit => {
            reveal_strlit("directory_entry_limit");
        },
        ErrorCode::DirectoryIntoItself => {
            reveal_strlit("directory_into_itself");
        },
        ErrorCode::DirectoryMemoryLimit => {
            reveal_strlit("directory_memory_limit");
        },
        ErrorCode::DirectoryOperationFailed => {
            reveal_strlit("directory_operation_failed");
        },
        ErrorCode::DirectoryOperationLimit => {
            reveal_strlit("directory_operation_limit");
        },
        ErrorCode::DirectoryOperationTimeout => {
            reveal_strlit("directory_operation_timeout");
        },
        ErrorCode::DirectoryOverwriteForbidden => {
            reveal_strlit("directory_overwrite_forbidden");
        },
        ErrorCode::DirectorySortLimit => {
            reveal_strlit("directory_sort_limit");
        },
        ErrorCode::DirectorySymlinkLoop => {
            reveal_strlit("directory_symlink_loop");
        },
        ErrorCode::FilesystemTimeout => {
            reveal_strlit("filesystem_timeout");
        },
        ErrorCode::InsufficientStorage => {
            reveal_strlit("insufficient_storage");
        },
        ErrorCode::InternalError => {
            reveal_strlit("internal_error");
        },
        ErrorCode::InvalidDestinationPath => {
            reveal_strlit("invalid_destination_path");
        },
        ErrorCode::InvalidDestinationRevision => {
            reveal_strlit("invalid_destination_revision");
        },
        ErrorCode::InvalidJobId => {
            reveal_strlit("invalid_job_id");
        },
        ErrorCode::InvalidJson => {
            reveal_strlit("invalid_json");
        },
        ErrorCode::InvalidListCursor => {
            reveal_strlit("invalid_list_cursor");
        },
        ErrorCode::InvalidListLimit => {
            reveal_strlit("invalid_list_limit");
        },
        ErrorCode::InvalidListPath => {
            reveal_strlit("invalid_list_path");
        },
        ErrorCode::InvalidMovePath => {
            reveal_strlit("invalid_move_path");
        },
        ErrorCode::InvalidOperationId => {
            reveal_strlit("invalid_operation_id");
        },
        ErrorCode::InvalidPath => {
            reveal_strlit("invalid_path");
        },
        ErrorCode::InvalidRenameName => {
            reveal_strlit("invalid_rename_name");
        },
        ErrorCode::InvalidRenamePath => {
            reveal_strlit("invalid_rename_path");
        },
        ErrorCode::InvalidRequest => {
            reveal_strlit("invalid_request");
        },
        ErrorCode::InvalidRequestBody => {
            reveal_strlit("invalid_request_body");
        },
        ErrorCode::InvalidSourcePath => {
            reveal_strlit("invalid_source_path");
        },
        ErrorCode::InvalidSourceRevision => {
            reveal_strlit("invalid_source_revision");
        },
        ErrorCode::InvalidUploadId => {
            reveal_strlit("invalid_upload_id");
        },
        ErrorCode::InvalidUploadLength => {
            reveal_strlit("invalid_upload_length");
        },
        ErrorCode::InvalidUploadOffset => {
            reveal_strlit("invalid_upload_offset");
        },
        ErrorCode::InvalidUploadOverwrite => {
            reveal_strlit("invalid_upload_overwrite");
        },
        ErrorCode::InvalidTargetRevision => {
            reveal_strlit("invalid_target_revision");
        },
        ErrorCode::JobNotFound => {
            reveal_strlit("job_not_found");
        },
        ErrorCode::JobStoreUnavailable => {
            reveal_strlit("job_store_unavailable");
        },
        ErrorCode::ListCursorUnavailable => {
            reveal_strlit("list_cursor_unavailable");
        },
        ErrorCode::ListPathNotDirectory => {
            reveal_strlit("list_path_not_directory");
        },
        ErrorCode::ListPathNotFound => {
            reveal_strlit("list_path_not_found");
        },
        ErrorCode::ListSnapshotLimit => {
            reveal_strlit("list_snapshot_limit");
        },
        ErrorCode::MethodNotAllowed => {
            reveal_strlit("method_not_allowed");
        },
        ErrorCode::MkdirStateConflict => {
            reveal_strlit("mkdir_state_conflict");
        },
        ErrorCode::MkdirStateUnavailable => {
            reveal_strlit("mkdir_state_unavailable");
        },
        ErrorCode::MoveStateConflict => {
            reveal_strlit("move_state_conflict");
        },
        ErrorCode::MoveStateUnavailable => {
            reveal_strlit("move_state_unavailable");
        },
        ErrorCode::OperationIdConflict => {
            reveal_strlit("operation_id_conflict");
        },
        ErrorCode::OperationInProgress => {
            reveal_strlit("operation_in_progress");
        },
        ErrorCode::OperationNotCommitted => {
            reveal_strlit("operation_not_committed");
        },
        ErrorCode::OperationRegistryFull => {
            reveal_strlit("operation_registry_full");
        },
        ErrorCode::OperationResultUnknown => {
            reveal_strlit("operation_result_unknown");
        },
        ErrorCode::OperationStoreUnavailable => {
            reveal_strlit("operation_store_unavailable");
        },
        ErrorCode::OutcomeUncertain => {
            reveal_strlit("outcome_uncertain");
        },
        ErrorCode::PathWaitConcurrencyLimit => {
            reveal_strlit("path_wait_concurrency_limit");
        },
        ErrorCode::PathExists => {
            reveal_strlit("path_exists");
        },
        ErrorCode::PurgeBacklogFull => {
            reveal_strlit("purge_backlog_full");
        },
        ErrorCode::PurgeStateUnavailable => {
            reveal_strlit("purge_state_unavailable");
        },
        ErrorCode::RequestBodyTooLarge => {
            reveal_strlit("request_body_too_large");
        },
        ErrorCode::RequestConflict => {
            reveal_strlit("request_conflict");
        },
        ErrorCode::RequestForbidden => {
            reveal_strlit("request_forbidden");
        },
        ErrorCode::RequestNotFound => {
            reveal_strlit("request_not_found");
        },
        ErrorCode::RequestTimeout => {
            reveal_strlit("request_timeout");
        },
        ErrorCode::SourceChanged => {
            reveal_strlit("source_changed");
        },
        ErrorCode::SourceRevisionRequired => {
            reveal_strlit("source_revision_required");
        },
        ErrorCode::DestinationRevisionRequired => {
            reveal_strlit("destination_revision_required");
        },
        ErrorCode::RenameStateConflict => {
            reveal_strlit("rename_state_conflict");
        },
        ErrorCode::RenameStateUnavailable => {
            reveal_strlit("rename_state_unavailable");
        },
        ErrorCode::RootDeleteForbidden => {
            reveal_strlit("root_delete_forbidden");
        },
        ErrorCode::SearchQueryTooLong => {
            reveal_strlit("search_query_too_long");
        },
        ErrorCode::SearchResultLimit => {
            reveal_strlit("search_result_limit");
        },
        ErrorCode::ServerStopping => {
            reveal_strlit("server_stopping");
        },
        ErrorCode::SourceEqualsDestination => {
            reveal_strlit("source_equals_destination");
        },
        ErrorCode::SourceNotFound => {
            reveal_strlit("source_not_found");
        },
        ErrorCode::TargetNotFound => {
            reveal_strlit("target_not_found");
        },
        ErrorCode::UnsupportedFilename => {
            reveal_strlit("unsupported_filename");
        },
        ErrorCode::UnsupportedMediaType => {
            reveal_strlit("unsupported_media_type");
        },
        ErrorCode::UploadBodyExceedsRemainingLength => {
            reveal_strlit("upload_body_exceeds_remaining_length");
        },
        ErrorCode::UploadCheckpointPersistFailed => {
            reveal_strlit("upload_checkpoint_persist_failed");
        },
        ErrorCode::UploadCommittedLengthMismatch => {
            reveal_strlit("upload_committed_length_mismatch");
        },
        ErrorCode::UploadConcurrencyLimit => {
            reveal_strlit("upload_concurrency_limit");
        },
        ErrorCode::UploadIdRejected => {
            reveal_strlit("upload_id_rejected");
        },
        ErrorCode::UploadIdleTimeout => {
            reveal_strlit("upload_idle_timeout");
        },
        ErrorCode::UploadInProgress => {
            reveal_strlit("upload_in_progress");
        },
        ErrorCode::UploadInsufficientStorage => {
            reveal_strlit("upload_insufficient_storage");
        },
        ErrorCode::UploadLengthChanged => {
            reveal_strlit("upload_length_changed");
        },
        ErrorCode::UploadLengthMismatch => {
            reveal_strlit("upload_length_mismatch");
        },
        ErrorCode::UploadMetadataPreservationRefused => {
            reveal_strlit("upload_metadata_preservation_refused");
        },
        ErrorCode::UploadNotPublished => {
            reveal_strlit("upload_not_published");
        },
        ErrorCode::UploadOffsetChanged => {
            reveal_strlit("upload_offset_changed");
        },
        ErrorCode::UploadOutcomeUnknown => {
            reveal_strlit("upload_outcome_unknown");
        },
        ErrorCode::UploadPathWaitTimeout => {
            reveal_strlit("upload_path_wait_timeout");
        },
        ErrorCode::UploadPrecommitFailed => {
            reveal_strlit("upload_precommit_failed");
        },
        ErrorCode::UploadPreflightConcurrencyLimit => {
            reveal_strlit("upload_preflight_concurrency_limit");
        },
        ErrorCode::UploadPublicationDurabilityUnknown => {
            reveal_strlit("upload_publication_durability_unknown");
        },
        ErrorCode::UploadPublicationOutcomeUnknown => {
            reveal_strlit("upload_publication_outcome_unknown");
        },
        ErrorCode::UploadResultUnknown => {
            reveal_strlit("upload_result_unknown");
        },
        ErrorCode::UploadSessionConflict => {
            reveal_strlit("upload_session_conflict");
        },
        ErrorCode::UploadSessionNotFound => {
            reveal_strlit("upload_session_not_found");
        },
        ErrorCode::UploadSessionStoreFull => {
            reveal_strlit("upload_session_store_full");
        },
        ErrorCode::UploadSizeLimitExceeded => {
            reveal_strlit("upload_size_limit_exceeded");
        },
        ErrorCode::UploadStageConflict => {
            reveal_strlit("upload_stage_conflict");
        },
        ErrorCode::UploadStageInvalid => {
            reveal_strlit("upload_stage_invalid");
        },
        ErrorCode::UploadStateConflict => {
            reveal_strlit("upload_state_conflict");
        },
        ErrorCode::UploadStateUnavailable => {
            reveal_strlit("upload_state_unavailable");
        },
        ErrorCode::UploadTargetChanged => {
            reveal_strlit("upload_target_changed");
        },
        ErrorCode::UploadTargetInspectionTimeout => {
            reveal_strlit("upload_target_inspection_timeout");
        },
        ErrorCode::UploadTargetNotFound => {
            reveal_strlit("upload_target_not_found");
        },
        ErrorCode::UploadTerminalRecordFailed => {
            reveal_strlit("upload_terminal_record_failed");
        },
    }
}

/// The length of a name and its characters at four places, which tell the names
/// of the catalog apart.
spec fn name_key(name: Seq<char>) -> (nat, char, char, char, char) {
    (name.len(), name[0], name[7], name[10], name.last())
}

spec fn catalog_key(code: ErrorCode) -> (nat, char, char, char, char) {
    match code {
        ErrorCode::ApiEndpointNotFound => (22, 'a', 'p', 'n', 'd'),
        ErrorCode::DeleteNotCommitted => (20, 'd', 'n', '_', 'd'),
        ErrorCode::DeleteStateConflict => (21, 'd', 's', 't', 't'),
        ErrorCode::DeleteTargetChanged => (21, 'd', 't', 'g', 'd'),
        ErrorCode::DestinationChanged => (19, 'd', 't', 'n', 'd'),
        ErrorCode::DestinationExists => (18, 'd', 't', 'n', 's'),
        ErrorCode::DestinationDirectoryNotFound => (31, 'd', 't', 'n', 'd'),
        ErrorCode::DestinationNotDirectory => (25, 'd', 't', 'n', 'y'),
        ErrorCode::DirectoryAccessForbidden => (26, 'd', 'r', 'a', 'n'),
        ErrorCode::DirectoryChanged => (17, 'd', 'r', 'c', 'd'),
        ErrorCode::DirectoryDepthLimit => (21, 'd', 'r', 'd', 't'),
        ErrorCode::DirectoryEntryLimit => (21, 'd', 'r', 'e', 't'),
        ErrorCode::DirectoryIntoItself => (21, 'd', 'r', 'i', 'f'),
        ErrorCode::DirectoryMemoryLimit => (22, 'd', 'r', 'm', 't'),
        ErrorCode::DirectoryOperationFailed => (26, 'd', 'r', 'o', 'd'),
        ErrorCode::DirectoryOperationLimit => (25, 'd', 'r', 'o', 't'),
        ErrorCode::DirectoryOperationTimeout => (27, 'd', 'r', 'o', 't'),
        ErrorCode::DirectoryOverwriteForbidden => (29, 'd', 'r', 'o', 'n'),
        ErrorCode::DirectorySortLimit => (20, 'd', 'r', 's', 't'),
        ErrorCode::DirectorySymlinkLoop => (22, 'd', 'r', 's', 'p'),
        ErrorCode::FilesystemTimeout => (18, 'f', 't', '_', 't'),
        ErrorCode::InsufficientStorage => (20, 'i', 'c', 'n', 'e'),
        ErrorCode::InternalError => (14, 'i', 'l', 'r', 'r'),
        ErrorCode::InvalidDestinationPath => (24, 'i', '_', 's', 'h'),
        ErrorCode::InvalidDestinationRevision => (28, 'i', '_', 's', 'n'),
        ErrorCode::InvalidJobId => (14, 'i', '_', 'b', 'd'),
        ErrorCode::InvalidJson => (12, 'i', '_', 'o', 'n'),
        ErrorCode::InvalidListCursor => (19, 'i', '_', 's', 'r'),
        ErrorCode::InvalidListLimit => (18, 'i', '_', 's', 't'),
        ErrorCode::InvalidListPath => (17, 'i', '_', 's', 'h'),
        ErrorCode::InvalidMovePath => (17, 'i', '_', 'v', 'h'),
        ErrorCode::InvalidOperationId => (20, 'i', '_', 'e', 'd'),
        ErrorCode::InvalidPath => (12, 'i', '_', 't', 'h'),
        ErrorCode::InvalidRenameName => (19, 'i', '_', 'n', 'e'),
        ErrorCode::InvalidRenamePath => (19, 'i', '_', 'n', 'h'),
        ErrorCode::InvalidRequest => (15, 'i', '_', 'q', 't'),
        ErrorCode::InvalidRequestBody => (20, 'i', '_', 'q', 'y'),
        ErrorCode::InvalidSourcePath => (19, 'i', '_', 'u', 'h'),
        ErrorCode::InvalidSourceRevision => (23, 'i', '_', 'u', 'n'),
        ErrorCode::InvalidUploadId => (17, 'i', '_', 'l', 'd'),
        ErrorCode::InvalidUploadLength => (21, 'i', '_', 'l', 'h'),
        ErrorCode::InvalidUploadOffset => (21, 'i', '_', 'l', 't'),
        ErrorCode::InvalidUploadOverwrite => (24, 'i', '_', 'l', 'e'),
        ErrorCode::InvalidTargetRevision => (23, 'i', '_', 'r', 'n'),
        ErrorCode::JobNotFound => (13, 'j', '_', 'u', 'd'),
        ErrorCode::JobStoreUnavailable => (21, 'j', 'r', 'u', 'e'),
        ErrorCode::ListCursorUnavailable => (23, 'l', 'r', 'r', 'e'),
        ErrorCode::ListPathNotDirectory => (23, 'l', 't', 'n', 'y'),
        ErrorCode::ListPathNotFound => (19, 'l', 't', 'n', 'd'),
        ErrorCode::ListSnapshotLimit => (19, 'l', 'a', 'h', 't'),
        ErrorCode::MethodNotAllowed => (18, 'm', 'n', '_', 'd'),
        ErrorCode::MkdirStateConflict => (20, 'm', 't', 'e', 't'),
        ErrorCode::MkdirStateUnavailable => (23, 'm', 't', 'e', 'e'),
        ErrorCode::MoveStateConflict => (19, 'm', 'a', '_', 't'),
        ErrorCode::MoveStateUnavailable => (22, 'm', 'a', '_', 'e'),
        ErrorCode::OperationIdConflict => (21, 'o', 'o', 'i', 't'),
        ErrorCode::OperationInProgress => (21, 'o', 'o', 'i', 's'),
        ErrorCode::OperationNotCommitted => (23, 'o', 'o', 'n', 'd'),
        ErrorCode::OperationRegistryFull => (23, 'o', 'o', 'r', 'l'),
        ErrorCode::OperationResultUnknown => (24, 'o', 'o', 'r', 'n'),
        ErrorCode::OperationStoreUnavailable => (27, 'o', 'o', 's', 'e'),
        ErrorCode::OutcomeUncertain => (17, 'o', '_', 'c', 'n'),
        ErrorCode::PathWaitConcurrencyLimit => (27, 'p', 'i', 'c', 't'),
        ErrorCode::PathExists => (11, 'p', 'i', 's', 's'),
        ErrorCode::PurgeBacklogFull => (18, 'p', 'a', 'l', 'l'),
        ErrorCode::PurgeStateUnavailable => (23, 'p', 't', 'e', 'e'),
        ErrorCode::RequestBodyTooLarge => (22, 'r', '_', 'd', 'e'),
        ErrorCode::RequestConflict => (16, 'r', '_', 'n', 't'),
        ErrorCode::RequestForbidden => (17, 'r', '_', 'r', 'n'),
        ErrorCode::RequestNotFound => (17, 'r', '_', 't', 'd'),
        ErrorCode::RequestTimeout => (15, 'r', '_', 'm', 't'),
        ErrorCode::SourceChanged => (14, 's', 'c', 'n', 'd'),
        ErrorCode::SourceRevisionRequired => (24, 's', 'r', 'i', 'd'),
        ErrorCode::DestinationRevisionRequired => (29, 'd', 't', 'n', 'd'),
        ErrorCode::RenameStateConflict => (21, 'r', 's', 't', 't'),
        ErrorCode::RenameStateUnavailable => (24, 'r', 's', 't', 'e'),
        ErrorCode::RootDeleteForbidden => (21, 'r', 'l', 'e', 'n'),
        ErrorCode::SearchQueryTooLong => (21, 's', 'q', 'r', 'g'),
        ErrorCode::SearchResultLimit => (19, 's', 'r', 'u', 't'),
        ErrorCode::ServerStopping => (15, 's', 's', 'p', 'g'),
        ErrorCode::SourceEqualsDestination => (25, 's', 'e', 'a', 'n'),
        ErrorCode::SourceNotFound => (16, 's', 'n', '_', 'd'),
        ErrorCode::TargetNotFound => (16, 't', 'n', '_', 'd'),
        ErrorCode::UnsupportedFilename => (20, 'u', 'r', 'd', 'e'),
        ErrorCode::UnsupportedMediaType => (22, 'u', 'r', 'd', 'e'),
        ErrorCode::UploadBodyExceedsRemainingLength => (36, 'u', 'b', 'y', 'h'),
        ErrorCode::UploadCheckpointPersistFailed => (32, 'u', 'c', 'c', 'd'),
        ErrorCode::UploadCommittedLengthMismatch => (32, 'u', 'c', 'm', 'h'),
        ErrorCode::UploadConcurrencyLimit => (24, 'u', 'c', 'c', 't'),
        ErrorCode::UploadIdRejected => (18, 'u', 'i', 'r', 'd'),
        ErrorCode::UploadIdleTimeout => (19, 'u', 'i', 'e', 't'),
        ErrorCode::UploadInProgress => (18, 'u', 'i', 'p', 's'),
        ErrorCode::UploadInsufficientStorage => (27, 'u', 'i', 'u', 'e'),
        ErrorCode::UploadLengthChanged => (21, 'u', 'l', 'g', 'd'),
        ErrorCode::UploadLengthMismatch => (22, 'u', 'l', 'g', 'h'),
        ErrorCode::UploadMetadataPreservationRefused => (36, 'u', 'm', 'a', 'd'),
        ErrorCode::UploadNotPublished => (20, 'u', 'n', '_', 'd'),
        ErrorCode::UploadOffsetChanged => (21, 'u', 'o', 's', 'd'),
        ErrorCode::UploadOutcomeUnknown => (22, 'u', 'o', 'c', 'n'),
        ErrorCode::UploadPathWaitTimeout => (24, 'u', 'p', 'h', 't'),
        ErrorCode::UploadPrecommitFailed => (23, 'u', 'p', 'c', 'd'),
        ErrorCode::UploadPreflightConcurrencyLimit => (34, 'u', 'p', 'f', 't'),
        ErrorCode::UploadPublicationDurabilityUnknown => (37, 'u', 'p', 'l', 'n'),
        ErrorCode::UploadPublicationOutcomeUnknown => (34, 'u', 'p', 'l', 'n'),
        ErrorCode::UploadResultUnknown => (21, 'u', 'r', 'u', 'n'),
        ErrorCode::UploadSessionConflict => (23, 'u', 's', 's', 't'),
        ErrorCode::UploadSessionNotFound => (24, 'u', 's', 's', 'd'),
        ErrorCode::UploadSessionStoreFull => (25, 'u', 's', 's', 'l'),
        ErrorCode::UploadSizeLimitExceeded => (26, 'u', 's', 'e', 'd'),
        ErrorCode::UploadStageConflict => (21, 'u', 's', 'g', 't'),
        ErrorCode::UploadStageInvalid => (20, 'u', 's', 'g', 'd'),
        ErrorCode::UploadStateConflict => (21, 'u', 's', 't', 't'),
        ErrorCode::UploadStateUnavailable => (24, 'u', 's', 't', 'e'),
        ErrorCode::UploadTargetChanged => (21, 'u', 't', 'g', 'd'),
        ErrorCode::UploadTargetInspectionTimeout => (32, 'u', 't', 'g', 't'),
        ErrorCode::UploadTargetNotFound => (23, 'u', 't', 'g', 'd'),
        ErrorCode::UploadTerminalRecordFailed => (29, 'u', 't', 'm', 'd'),
    }
}

proof fn lemma_catalog_key(code: ErrorCode)
    ensures
        name_key(code.wire()) == catalog_key(code),
{
    match code {
        ErrorCode::ApiEndpointNotFound => {
            reveal_strlit("api_endpoint_not_found");
        },
        ErrorCode::DeleteNotCommitted => {
            reveal_strlit("delete_not_committed");
        },
        ErrorCode::DeleteStateConflict => {
            reveal_strlit("delete_state_conflict");
        },
        ErrorCode::DeleteTargetChanged => {
            reveal_strlit("delete_target_changed");
        },
        ErrorCode::DestinationChanged => {
            reveal_strlit("destination_changed");
        },
        ErrorCode::DestinationExists => {
            reveal_strlit("destination_exists");
        },
        ErrorCode::DestinationDirectoryNotFound => {
            reveal_strlit("destination_directory_not_found");
        },
        ErrorCode::DestinationNotDirectory => {
            reveal_strlit("destination_not_directory");
        },
        ErrorCode::DirectoryAccessForbidden => {
            reveal_strlit("directory_access_forbidden");
        },
        ErrorCode::DirectoryChanged => {
            reveal_strlit("directory_changed");
        },
        ErrorCode::DirectoryDepthLimit => {
            reveal_strlit("directory_depth_limit");
        },
        ErrorCode::DirectoryEntryLimit => {
            reveal_strlit("directory_entry_limit");
        },
        ErrorCode::DirectoryIntoItself => {
            reveal_strlit("directory_into_itself");
        },
        ErrorCode::DirectoryMemoryLimit => {
            reveal_strlit("directory_memory_limit");
        },
        ErrorCode::DirectoryOperationFailed => {
            reveal_strlit("directory_operation_failed");
        },
        ErrorCode::DirectoryOperationLimit => {
            reveal_strlit("directory_operation_limit");
        },
        ErrorCode::DirectoryOperationTimeout => {
            reveal_strlit("directory_operation_timeout");
        },
        ErrorCode::DirectoryOverwriteForbidden => {
            reveal_strlit("directory_overwrite_forbidden");
        },
        ErrorCode::DirectorySortLimit => {
            reveal_strlit("directory_sort_limit");
        },
        ErrorCode::DirectorySymlinkLoop => {
            reveal_strlit("directory_symlink_loop");
        },
        ErrorCode::FilesystemTimeout => {
            reveal_strlit("filesystem_timeout");
        },
        ErrorCode::InsufficientStorage => {
            reveal_strlit("insufficient_storage");
        },
        ErrorCode::InternalError => {
            reveal_strlit("internal_error");
        },
        ErrorCode::InvalidDestinationPath => {
            reveal_strlit("invalid_destination_path");
        },
        ErrorCode::InvalidDestinationRevision => {
            reveal_strlit("invalid_destination_revision");
        },
        ErrorCode::InvalidJobId => {
            reveal_strlit("invalid_job_id");
        },
        ErrorCode::InvalidJson => {
            reveal_strlit("invalid_json");
        },
        ErrorCode::InvalidListCursor => {
            reveal_strlit("invalid_list_cursor");
        },
        ErrorCode::InvalidListLimit => {
            reveal_strlit("invalid_list_limit");
        },
        ErrorCode::InvalidListPath => {
            reveal_strlit("invalid_list_path");
        },
        ErrorCode::InvalidMovePath => {
            reveal_strlit("invalid_move_path");
        },
        ErrorCode::InvalidOperationId => {
            reveal_strlit("invalid_operation_id");
        },
        ErrorCode::InvalidPath => {
            reveal_strlit("invalid_path");
        },
        ErrorCode::InvalidRenameName => {
            reveal_strlit("invalid_rename_name");
        },
        ErrorCode::InvalidRenamePath => {
            reveal_strlit("invalid_rename_path");
        },
        ErrorCode::InvalidRequest => {
            reveal_strlit("invalid_request");
        },
        ErrorCode::InvalidRequestBody => {
            reveal_strlit("invalid_request_body");
        },
        ErrorCode::InvalidSourcePath => {
            reveal_strlit("invalid_source_path");
        },
        ErrorCode::InvalidSourceRevision => {
            reveal_strlit("invalid_source_revision");
        },
        ErrorCode::InvalidUploadId => {
            reveal_strlit("invalid_upload_id");
        },
        ErrorCode::InvalidUploadLength => {
            reveal_strlit("invalid_upload_length");
        },
        ErrorCode::InvalidUploadOffset => {
            reveal_strlit("invalid_upload_offset");
        },
        ErrorCode::InvalidUploadOverwrite => {
            reveal_strlit("invalid_upload_overwrite");
        },
        ErrorCode::InvalidTargetRevision => {
            reveal_strlit("invalid_target_revision");
        },
        ErrorCode::JobNotFound => {
            reveal_strlit("job_not_found");
        },
        ErrorCode::JobStoreUnavailable => {
            reveal_strlit("job_store_unavailable");
        },
        ErrorCode::ListCursorUnavailable => {
            reveal_strlit("list_cursor_unavailable");
        },
        ErrorCode::ListPathNotDirectory => {
            reveal_strlit("list_path_not_directory");
        },
        ErrorCode::ListPathNotFound => {
            reveal_strlit("list_path_not_found");
        },
        ErrorCode::ListSnapshotLimit => {
            reveal_strlit("list_snapshot_limit");
        },
        ErrorCode::MethodNotAllowed => {
            reveal_strlit("method_not_allowed");
        },
        ErrorCode::MkdirStateConflict => {
            reveal_strlit("mkdir_state_conflict");
        },
        ErrorCode::MkdirStateUnavailable => {
            reveal_strlit("mkdir_state_unavailable");
        },
        ErrorCode::MoveStateConflict => {
            reveal_strlit("move_state_conflict");
        },
        ErrorCode::MoveStateUnavailable => {
            reveal_strlit("move_state_unavailable");
        },
        ErrorCode::OperationIdConflict => {
            reveal_strlit("operation_id_conflict");
        },
        ErrorCode::OperationInProgress => {
            reveal_strlit("operation_in_progress");
        },
        ErrorCode::OperationNotCommitted => {
            reveal_strlit("operation_not_committed");
        },
        ErrorCode::OperationRegistryFull => {
            reveal_strlit("operation_registry_full");
        },
        ErrorCode::OperationResultUnknown => {
            reveal_strlit("operation_result_unknown");
        },
        ErrorCode::OperationStoreUnavailable => {
            reveal_strlit("operation_store_unavailable");
        },
        ErrorCode::OutcomeUncertain => {
            reveal_strlit("outcome_uncertain");
        },
        ErrorCode::PathWaitConcurrencyLimit => {
            reveal_strlit("path_wait_concurrency_limit");
        },
        ErrorCode::PathExists => {
            reveal_strlit("path_exists");
        },
        ErrorCode::PurgeBacklogFull => {
            reveal_strlit("purge_backlog_full");
        },
        ErrorCode::PurgeStateUnavailable => {
            reveal_strlit("purge_state_unavailable");
        },
        ErrorCode::RequestBodyTooLarge => {
            reveal_strlit("request_body_too_large");
        },
        ErrorCode::RequestConflict => {
            reveal_strlit("request_conflict");
        },
        ErrorCode::RequestForbidden => {
            reveal_strlit("request_forbidden");
        },
        ErrorCode::RequestNotFound => {
            reveal_strlit("request_not_found");
        },
        ErrorCode::RequestTimeout => {
            reveal_strlit("request_timeout");
        },
        ErrorCode::SourceChanged => {
            reveal_strlit("source_changed");
        },
        ErrorCode::SourceRevisionRequired => {
            reveal_strlit("source_revision_required");
        },
        ErrorCode::DestinationRevisionRequired => {
            reveal_strlit("destination_revision_required");
        },
        ErrorCode::RenameStateConflict => {
            reveal_strlit("rename_state_conflict");
        },
        ErrorCode::RenameStateUnavailable => {
            reveal_strlit("rename_state_unavailable");
        },
        ErrorCode::RootDeleteForbidden => {
            reveal_strlit("root_delete_forbidden");
        },
        ErrorCode::SearchQueryTooLong => {
            reveal_strlit("search_query_too_long");
        },
        ErrorCode::SearchResultLimit => {
            reveal_strlit("search_result_limit");
        },
        ErrorCode::ServerStopping => {
            reveal_strlit("server_stopping");
        },
        ErrorCode::SourceEqualsDestination => {
            reveal_strlit("source_equals_destination");
        },
        ErrorCode::SourceNotFound => {
            reveal_strlit("source_not_found");
        },
        ErrorCode::TargetNotFound => {
            reveal_strlit("target_not_found");
        },
        ErrorCode::UnsupportedFilename => {
            reveal_strlit("unsupported_filename");
        },
        ErrorCode::UnsupportedMediaType => {
            reveal_strlit("unsupported_media_type");
        },
        ErrorCode::UploadBodyExceedsRemainingLength => {
            reveal_strlit("upload_body_exceeds_remaining_length");
        },
        ErrorCode::UploadCheckpointPersistFailed => {
            reveal_strlit("upload_checkpoint_persist_failed");
        },
        ErrorCode::UploadCommittedLengthMismatch => {
            reveal_strlit("upload_committed_length_mismatch");
        },
        ErrorCode::UploadConcurrencyLimit => {
            reveal_strlit("upload_concurrency_limit");
        },
        ErrorCode::UploadIdRejected => {
            reveal_strlit("upload_id_rejected");
        },
        ErrorCode::UploadIdleTimeout => {
            reveal_strlit("upload_idle_timeout");
        },
        ErrorCode::UploadInProgress => {
            reveal_strlit("upload_in_progress");
        },
        ErrorCode::UploadInsufficientStorage => {
            reveal_strlit("upload_insufficient_storage");
        },
        ErrorCode::UploadLengthChanged => {
            reveal_strlit("upload_length_changed");
        },
        ErrorCode::UploadLengthMismatch => {
            reveal_strlit("upload_length_mismatch");
        },
        ErrorCode::UploadMetadataPreservationRefused => {
            reveal_strlit("upload_metadata_preservation_refused");
        },
        ErrorCode::UploadNotPublished => {
            reveal_strlit("upload_not_published");
        },
        ErrorCode::UploadOffsetChanged => {
            reveal_strlit("upload_offset_changed");
        },
        ErrorCode::UploadOutcomeUnknown => {
            reveal_strlit("upload_outcome_unknown");
        },
        ErrorCode::UploadPathWaitTimeout => {
            reveal_strlit("upload_path_wait_timeout");
        },
        ErrorCode::UploadPrecommitFailed => {
            reveal_strlit("upload_precommit_failed");
        },
        ErrorCode::UploadPreflightConcurrencyLimit => {
            reveal_strlit("upload_preflight_concurrency_limit");
        },
        ErrorCode::UploadPublicationDurabilityUnknown => {
            reveal_strlit("upload_publication_durability_unknown");
        },
        ErrorCode::UploadPublicationOutcomeUnknown => {
            reveal_strlit("upload_publication_outcome_unknown");
        },
        ErrorCode::UploadResultUnknown => {
            reveal_strlit("upload_result_unknown");
        },
        ErrorCode::UploadSessionConflict => {
            reveal_strlit("upload_session_conflict");
        },
        ErrorCode::UploadSessionNotFound => {
            reveal_strlit("upload_session_not_found");
        },
        ErrorCode::UploadSessionStoreFull => {
            reveal_strlit("upload_session_store_full");
        },
        ErrorCode::UploadSizeLimitExceeded => {
            reveal_strlit("upload_size_limit_exceeded");
        },
        ErrorCode::UploadStageConflict => {
            reveal_strlit("upload_stage_conflict");
        },
        ErrorCode::UploadStageInvalid => {
            reveal_strlit("upload_stage_invalid");
        },
        ErrorCode::UploadStateConflict => {
            reveal_strlit("upload_state_conflict");
        },
        ErrorCode::UploadStateUnavailable => {
            reveal_strlit("upload_state_unavailable");
        },
        ErrorCode::UploadTargetChanged => {
            reveal_strlit("upload_target_changed");
        },
        ErrorCode::UploadTargetInspectionTimeout => {
            reveal_strlit("upload_target_inspection_timeout");
        },
        ErrorCode::UploadTargetNotFound => {
            reveal_strlit("upload_target_not_found");
        },
        ErrorCode::UploadTerminalRecordFailed => {
            reveal_strlit("upload_terminal_record_failed");
        },
    }
}

/// No two codes of the catalog share a wire name.
pub proof fn law_catalog_codes_are_unique(left: ErrorCode, right: ErrorCode)
    requires
        left.wire() == right.wire(),
    ensures
        left == right,
{
    lemma_catalog_key(left);
    lemma_catalog_key(right);
}

/// Where an operation stands, as clients see it.
#[derive(Clone, Copy, Debug, Eq, PartialEq, Structural)]
pub enum OperationPublicState {
    Running,
    Succeeded,
    Failed,
    Unknown,
    Rejected,
}

impl OperationPublicState {
    pub open spec fn wire(self) -> Seq<char> {
        match self {
            OperationPublicState::Running => "running"@,
            OperationPublicState::Succeeded => "succeeded"@,
            OperationPublicState::Failed => "failed"@,
            OperationPublicState::Unknown => "unknown"@,
            OperationPublicState::Rejected => "rejected"@,
        }
    }

    pub fn wire_name(self) -> (text: &'static str)
        ensures
            text@ == self.wire(),
    {
        match self {
            OperationPublicState::Running => "running",
            OperationPublicState::Succeeded => "succeeded",
            OperationPublicState::Failed => "failed",
            OperationPublicState::Unknown => "unknown",
            OperationPublicState::Rejected => "rejected",
        }
    }
}

/// Where an upload stands, as clients see it.
#[derive(Clone, Copy, Debug, Eq, PartialEq, Structural)]
pub enum UploadPublicState {
    NotStarted,
    Unknown,
}

impl UploadPublicState {
    pub open spec fn wire(self) -> Seq<char> {
        match self {
            UploadPublicState::NotStarted => "not_started"@,
            UploadPublicState::Unknown => "unknown"@,
        }
    }

    pub fn wire_name(self) -> (text: &'static str)
        ensures
            text@ == self.wire(),
    {
        match self {
            UploadPublicState::NotStarted => "not_started",
            UploadPublicState::Unknown => "unknown",
        }
    }
}

/// A client action that is safe for one specific failure.
///
/// A server error status never implies that a request can be repeated: a
/// handler selects the advice once it knows whether the operation was
/// rejected, is still running, or has an unknown outcome.
#[derive(Clone, Copy, Debug, Eq, PartialEq, Structural)]
pub enum RecoveryAdvice {
    NoAdvice,
    Retry,
    RetryAfterSeconds(u64),
    RetryWithNewId,
    ResumeUpload,
    QueryJob,
    QueryUpload,
    QueryUploadAfterSeconds(u64),
    RefreshTarget,
}

impl RecoveryAdvice {
    pub open spec fn wire(self) -> Option<Seq<char>> {
        match self {
            RecoveryAdvice::NoAdvice => None,
            RecoveryAdvice::Retry | RecoveryAdvice::RetryAfterSeconds(_) => Some("retry"@),
            RecoveryAdvice::RetryWithNewId => Some("retry_with_new_id"@),
            RecoveryAdvice::ResumeUpload => Some("resume_upload"@),
            RecoveryAdvice::QueryJob => Some("query_job"@),
            RecoveryAdvice::QueryUpload | RecoveryAdvice::QueryUploadAfterSeconds(_) => Some(
                "query_upload"@,
            ),
            RecoveryAdvice::RefreshTarget => Some("refresh_target"@),
        }
    }

    /// The name of the advice on the wire, if it is sent at all.
    pub fn wire_name(self) -> (text: Option<&'static str>)
        ensures
            opt_text(text) == self.wire(),
    {
        match self {
            RecoveryAdvice::NoAdvice => None,
            RecoveryAdvice::Retry | RecoveryAdvice::RetryAfterSeconds(_) => Some("retry"),
            RecoveryAdvice::RetryWithNewId => Some("retry_with_new_id"),
            RecoveryAdvice::ResumeUpload => Some("resume_upload"),
            RecoveryAdvice::QueryJob => Some("query_job"),
            RecoveryAdvice::QueryUpload | RecoveryAdvice::QueryUploadAfterSeconds(_) => Some(
                "query_upload",
            ),
            RecoveryAdvice::RefreshTarget => Some("refresh_target"),
        }
    }

    pub open spec fn delay(self) -> Option<u64> {
        match self {
            RecoveryAdvice::RetryAfterSeconds(seconds) => Some(seconds),
            RecoveryAdvice::QueryUploadAfterSeconds(seconds) => Some(seconds),
            _ => None,
        }
    }

    /// How long a client waits before it follows the advice.
    pub fn retry_after_seconds(self) -> (seconds: Option<u64>)
        ensures
            seconds == self.delay(),
    {
        match self {
            RecoveryAdvice::RetryAfterSeconds(seconds)
            | RecoveryAdvice::QueryUploadAfterSeconds(seconds) => Some(seconds),
            _ => None,
        }
    }
}

impl Default for RecoveryAdvice {
    fn default() -> (advice: RecoveryAdvice)
        ensures
            advice == RecoveryAdvice::NoAdvice,
    {
        RecoveryAdvice::NoAdvice
    }
}

pub open spec fn opt_text(text: Option<&'static str>) -> Option<Seq<char>> {
    match text {
        Some(text) => Some(text@),
        None => None,
    }
}

pub open spec fn opt_string(text: Option<String>) -> Option<Seq<char>> {
    match text {
        Some(text) => Some(text@),
        None => None,
    }
}

/// The operation that a problem is about.
pub struct OperationProblemContext {
    operation_id: String,
    state: OperationPublicState,
    http_status: Option<u16>,
}

#[verifier::ext_equal]
pub struct OperationContextView {
    pub operation_id: Seq<char>,
    pub state: OperationPublicState,
    pub http_status: Option<u16>,
}

impl OperationProblemContext {
    pub closed spec fn view(self) -> OperationContextView {
        OperationContextView {
            operation_id: self.operation_id@,
            state: self.state,
            http_status: self.http_status,
        }
    }

    pub fn new(
        operation_id: String,
        state: OperationPublicState,
        http_status: Option<u16>,
    ) -> (context: OperationProblemContext)
        ensures
            context@ == (OperationContextView { operation_id: operation_id@, state, http_status }),
    {
        OperationProblemContext { operation_id, state, http_status }
    }
}

/// The upload that a problem is about.
pub struct UploadProblemContext {
    upload_id: String,
    state: UploadPublicState,
    upload_length: Option<u64>,
    upload_offset: Option<u64>,
}

#[verifier::ext_equal]
pub struct UploadContextView {
    pub upload_id: Seq<char>,
    pub state: UploadPublicState,
    pub upload_length: Option<u64>,
    pub upload_offset: Option<u64>,
}

impl UploadProblemContext {
    pub closed spec fn view(self) -> UploadContextView {
        UploadContextView {
            upload_id: self.upload_id@,
            state: self.state,
            upload_length: self.upload_length,
            upload_offset: self.upload_offset,
        }
    }

    pub fn new(
        upload_id: String,
        state: UploadPublicState,
        upload_length: Option<u64>,
        upload_offset: Option<u64>,
    ) -> (context: UploadProblemContext)
        ensures
            context@ == (UploadContextView {
                upload_id: upload_id@,
                state,
                upload_length,
                upload_offset,
            }),
    {
        UploadProblemContext { upload_id, state, upload_length, upload_offset }
    }
}

/// What a problem is about: an operation, an upload, or neither.
#[verifier::ext_equal]
pub enum ProblemSubject {
    Request,
    Operation(OperationContextView),
    Upload(UploadContextView),
}

#[verifier::ext_equal]
pub struct ApiErrorView {
    pub status: u16,
    pub code: ErrorCode,
    pub detail: Seq<char>,
    pub source: Option<Seq<char>>,
    pub recovery: RecoveryAdvice,
    pub subject: ProblemSubject,
}

impl ApiErrorView {
    pub open spec fn new(status: u16, code: ErrorCode, detail: Seq<char>) -> ApiErrorView {
        ApiErrorView {
            status,
            code,
            detail,
            source: None,
            recovery: RecoveryAdvice::NoAdvice,
            subject: ProblemSubject::Request,
        }
    }

    pub open spec fn with_recovery(self, recovery: RecoveryAdvice) -> ApiErrorView {
        ApiErrorView { recovery, ..self }
    }

    pub open spec fn with_source(self, source: Seq<char>) -> ApiErrorView {
        ApiErrorView { source: Some(source), ..self }
    }

    pub open spec fn with_operation(
        self,
        operation_id: Seq<char>,
        state: OperationPublicState,
        http_status: Option<u16>,
    ) -> ApiErrorView {
        ApiErrorView {
            subject: ProblemSubject::Operation(
                OperationContextView { operation_id, state, http_status },
            ),
            ..self
        }
    }

    pub open spec fn with_upload(self, upload: UploadContextView) -> ApiErrorView {
        ApiErrorView { subject: ProblemSubject::Upload(upload), ..self }
    }
}

/// Error metadata. The source is for diagnostics alone and never reaches the
/// public document.
pub struct ApiError {
    status: u16,
    code: ErrorCode,
    detail: String,
    source: Option<String>,
    recovery: RecoveryAdvice,
    operation: Option<OperationProblemContext>,
    upload: Option<UploadProblemContext>,
}

impl ApiError {
    /// A status that HTTP knows, and at most one subject.
    #[verifier::type_invariant]
    spec fn is_consistent(self) -> bool {
        &&& 100 <= self.status <= 999
        &&& !(self.operation is Some && self.upload is Some)
    }

    pub closed spec fn view(self) -> ApiErrorView {
        ApiErrorView {
            status: self.status,
            code: self.code,
            detail: self.detail@,
            source: opt_string(self.source),
            recovery: self.recovery,
            subject: match (self.operation, self.upload) {
                (Some(operation), _) => ProblemSubject::Operation(operation@),
                (None, Some(upload)) => ProblemSubject::Upload(upload@),
                (None, None) => ProblemSubject::Request,
            },
        }
    }

    pub fn new(status: u16, code: ErrorCode, detail: &str) -> (error: ApiError)
        requires
            100 <= status <= 999,
        ensures
            error@ == ApiErrorView::new(status, code, detail@),
    {
        ApiError {
            status,
            code,
            detail: String::from_str(detail),
            source: None,
            recovery: RecoveryAdvice::NoAdvice,
            operation: None,
            upload: None,
        }
    }

    /// Attaches a diagnostic text.
    pub fn with_source(self, source: String) -> (error: ApiError)
        ensures
            error@ == self@.with_source(source@),
    {
        proof {
            use_type_invariant(&self);
        }
        ApiError {
            status: self.status,
            code: self.code,
            detail: self.detail,
            source: Some(source),
            recovery: self.recovery,
            operation: self.operation,
            upload: self.upload,
        }
    }

    pub fn with_recovery(self, recovery: RecoveryAdvice) -> (error: ApiError)
        ensures
            error@ == self@.with_recovery(recovery),
    {
        proof {
            use_type_invariant(&self);
        }
        ApiError {
            status: self.status,
            code: self.code,
            detail: self.detail,
            source: self.source,
            recovery,
            operation: self.operation,
            upload: self.upload,
        }
    }

    /// Makes the problem one of an operation, and no longer of an upload.
    pub fn with_operation(self, operation: OperationProblemContext) -> (error: ApiError)
        ensures
            error@ == self@.with_operation(
                operation@.operation_id,
                operation@.state,
                operation@.http_status,
            ),
    {
        proof {
            use_type_invariant(&self);
        }
        ApiError {
            status: self.status,
            code: self.code,
            detail: self.detail,
            source: self.source,
            recovery: self.recovery,
            operation: Some(operation),
            upload: None,
        }
    }

    /// Makes the problem one of an upload, and no longer of an operation.
    pub fn with_upload(self, upload: UploadProblemContext) -> (error: ApiError)
        ensures
            error@ == self@.with_upload(upload@),
    {
        proof {
            use_type_invariant(&self);
        }
        ApiError {
            status: self.status,
            code: self.code,
            detail: self.detail,
            source: self.source,
            recovery: self.recovery,
            operation: None,
            upload: Some(upload),
        }
    }

    /// What a log line says of the error: its source, or its public detail
    /// where it has none.
    pub fn diagnostic(&self) -> (text: String)
        ensures
            text@ == (match self@.source {
                Some(source) => source,
                None => self@.detail,
            }),
    {
        match &self.source {
            Some(source) => source.clone(),
            None => self.detail.clone(),
        }
    }
}

/// The reason phrase that `http::StatusCode::canonical_reason` has for a
/// status, if any.
pub uninterp spec fn canonical_reason(status: u16) -> Option<Seq<char>>;

/// `http::StatusCode::canonical_reason`: a fixed table from status codes to
/// reason phrases. `http::StatusCode::from_u16` accepts what the precondition
/// admits.
#[verifier::external_body]
fn reason_phrase(status: u16) -> (phrase: Option<String>)
    requires
        100 <= status <= 999,
    ensures
        opt_string(phrase) == canonical_reason(status),
{
    http::StatusCode::from_u16(status).unwrap().canonical_reason().map(String::from)
}

/// The public problem document.
pub struct ProblemDetails {
    pub problem_type: String,
    pub title: String,
    pub status: u16,
    pub detail: String,
    pub code: ErrorCode,
    pub recovery: Option<&'static str>,
    pub retry_after: Option<u64>,
    pub operation_id: Option<String>,
    pub upload_id: Option<String>,
    pub state: Option<&'static str>,
    pub upload_state: Option<&'static str>,
    pub http_status: Option<u16>,
    pub upload_length: Option<u64>,
    pub upload_offset: Option<u64>,
}

#[verifier::ext_equal]
pub struct ProblemView {
    pub problem_type: Seq<char>,
    pub title: Seq<char>,
    pub status: u16,
    pub detail: Seq<char>,
    pub code: ErrorCode,
    pub recovery: Option<Seq<char>>,
    pub retry_after: Option<u64>,
    pub operation_id: Option<Seq<char>>,
    pub upload_id: Option<Seq<char>>,
    pub state: Option<Seq<char>>,
    pub upload_state: Option<Seq<char>>,
    pub http_status: Option<u16>,
    pub upload_length: Option<u64>,
    pub upload_offset: Option<u64>,
}

/// The document of an error under a title.
pub open spec fn problem_document(error: ApiErrorView, title: Seq<char>) -> ProblemView {
    let plain = ProblemView {
        problem_type: "urn:dufs:problem:"@ + error.code.wire(),
        title,
        status: error.status,
        detail: error.detail,
        code: error.code,
        recovery: error.recovery.wire(),
        retry_after: error.recovery.delay(),
        operation_id: None,
        upload_id: None,
        state: None,
        upload_state: None,
        http_status: None,
        upload_length: None,
        upload_offset: None,
    };
    match error.subject {
        ProblemSubject::Request => plain,
        ProblemSubject::Operation(operation) => ProblemView {
            operation_id: Some(operation.operation_id),
            state: Some(operation.state.wire()),
            http_status: operation.http_status,
            ..plain
        },
        ProblemSubject::Upload(upload) => ProblemView {
            upload_id: Some(upload.upload_id),
            upload_state: Some(upload.state.wire()),
            upload_length: upload.upload_length,
            upload_offset: upload.upload_offset,
            ..plain
        },
    }
}

/// The title of a document: the reason phrase of its status, if it has one.
pub open spec fn problem_title(phrase: Option<Seq<char>>) -> Seq<char> {
    match phrase {
        Some(phrase) => phrase,
        None => "Request Failed"@,
    }
}

impl ProblemDetails {
    pub open spec fn view(self) -> ProblemView {
        ProblemView {
            problem_type: self.problem_type@,
            title: self.title@,
            status: self.status,
            detail: self.detail@,
            code: self.code,
            recovery: opt_text(self.recovery),
            retry_after: self.retry_after,
            operation_id: opt_string(self.operation_id),
            upload_id: opt_string(self.upload_id),
            state: opt_text(self.state),
            upload_state: opt_text(self.upload_state),
            http_status: self.http_status,
            upload_length: self.upload_length,
            upload_offset: self.upload_offset,
        }
    }

    /// The document of an error whose status has this reason phrase.
    pub fn with_reason(error: &ApiError, phrase: Option<String>) -> (details: ProblemDetails)
        ensures
            details@ == problem_document(error@, problem_title(opt_string(phrase))),
    {
        proof {
            use_type_invariant(error);
        }
        let title = match phrase {
            Some(phrase) => phrase,
            None => String::from_str("Request Failed"),
        };
        let mut details = ProblemDetails {
            problem_type: concat("urn:dufs:problem:", error.code.as_str()),
            title,
            status: error.status,
            detail: error.detail.clone(),
            code: error.code,
            recovery: error.recovery.wire_name(),
            retry_after: error.recovery.retry_after_seconds(),
            operation_id: None,
            upload_id: None,
            state: None,
            upload_state: None,
            http_status: None,
            upload_length: None,
            upload_offset: None,
        };
        if let Some(operation) = &error.operation {
            details.operation_id = Some(operation.operation_id.clone());
            details.state = Some(operation.state.wire_name());
            details.http_status = operation.http_status;
        }
        if let Some(upload) = &error.upload {
            details.upload_id = Some(upload.upload_id.clone());
            details.upload_state = Some(upload.state.wire_name());
            details.upload_length = upload.upload_length;
            details.upload_offset = upload.upload_offset;
        }
        details
    }

    /// The document of an error.
    pub fn from(error: &ApiError) -> (details: ProblemDetails)
        ensures
            details@ == problem_document(
                error@,
                problem_title(canonical_reason(error@.status)),
            ),
    {
        proof {
            use_type_invariant(error);
        }
        let phrase = reason_phrase(error.status);
        ProblemDetails::with_reason(error, phrase)
    }
}

/// A response that answers with an error.
pub open spec fn problem_response(response: ResponseView, error: ApiErrorView) -> ResponseView {
    let document = problem_document(error, problem_title(canonical_reason(error.status)));
    let typed = response.with_status(error.status).with_header(
        "content-type"@,
        "application/problem+json"@,
    ).with_body(BodyView::Problem(document));
    match error.recovery.delay() {
        Some(seconds) => typed.with_header("retry-after"@, text::decimal(seconds as nat)),
        None => typed.without_header("retry-after"@),
    }
}

/// Renders the only machine-readable error representation.
pub fn render_problem(response: &mut Response, error: &ApiError)
    ensures
        final(response)@ == problem_response(old(response)@, error@),
{
    response.status = error.status;
    response.set_header("content-type", "application/problem+json");
    match error.recovery.retry_after_seconds() {
        Some(seconds) => response.set_header("retry-after", decimal_text(seconds).as_str()),
        None => response.remove_header("retry-after"),
    }
    response.body = Body::Problem(ProblemDetails::from(error));
}

/// A problem response does not depend on the diagnostics of its error.
pub proof fn law_diagnostics_stay_private(
    response: ResponseView,
    error: ApiErrorView,
    source: Seq<char>,
)
    ensures
        problem_response(response, error.with_source(source)) == problem_response(response, error),
{
}

/// The last subject given to an error is its only one.
pub proof fn law_subjects_are_exclusive(
    error: ApiErrorView,
    operation: OperationContextView,
    upload: UploadContextView,
    title: Seq<char>,
)
    ensures
        ({
            let of_operation = problem_document(
                error.with_upload(upload).with_operation(
                    operation.operation_id,
                    operation.state,
                    operation.http_status,
                ),
                title,
            );
            let of_upload = problem_document(
                error.with_operation(
                    operation.operation_id,
                    operation.state,
                    operation.http_status,
                ).with_upload(upload),
                title,
            );
            &&& of_operation.operation_id == Some(operation.operation_id)
            &&& of_operation.upload_id is None
            &&& of_operation.upload_state is None
            &&& of_operation.upload_length is None
            &&& of_operation.upload_offset is None
            &&& of_upload.upload_id == Some(upload.upload_id)
            &&& of_upload.operation_id is None
            &&& of_upload.state is None
            &&& of_upload.http_status is None
        }),
{
}

/// An error is answered with its status, as a problem document with its code and its
/// detail, and with a field that says when to come back exactly where the advice does.
pub proof fn law_problems_are_answered(response: ResponseView, error: ApiErrorView)
    ensures
        problem_response(response, error).status == error.status,
        problem_response(response, error).headers["content-type"@] == "application/problem+json"@,
        problem_response(response, error).body matches BodyView::Problem(document) && {
            &&& document.status == error.status
            &&& document.code == error.code
            &&& document.detail == error.detail
            &&& document.problem_type == "urn:dufs:problem:"@ + error.code.wire()
            &&& document.recovery == error.recovery.wire()
            &&& document.retry_after == error.recovery.delay()
        },
        error.recovery.delay() matches Some(seconds) ==> problem_response(
            response,
            error,
        ).headers.contains_key("retry-after"@) && problem_response(
            response,
            error,
        ).headers["retry-after"@] == text::decimal(seconds as nat),
        error.recovery.delay() is None ==> !problem_response(response, error).headers.contains_key(
            "retry-after"@,
        ),
{
    reveal_strlit("content-type");
    reveal_strlit("retry-after");
    assert("content-type"@.len() != "retry-after"@.len());
}

/// A problem of an operation tells its identifier, its state and its status, and one of
/// an upload tells its identifier, its state, its length and how much has come.
pub proof fn law_problems_tell_their_subject(error: ApiErrorView, title: Seq<char>)
    ensures
        problem_document(error, title).title == title,
        match error.subject {
            ProblemSubject::Request => problem_document(error, title).operation_id is None
                && problem_document(error, title).upload_id is None,
            ProblemSubject::Operation(operation) => {
                &&& problem_document(error, title).operation_id == Some(operation.operation_id)
                &&& problem_document(error, title).state == Some(operation.state.wire())
                &&& problem_document(error, title).http_status == operation.http_status
            },
            ProblemSubject::Upload(upload) => {
                &&& problem_document(error, title).upload_id == Some(upload.upload_id)
                &&& problem_document(error, title).upload_state == Some(upload.state.wire())
                &&& problem_document(error, title).upload_length == upload.upload_length
                &&& problem_document(error, title).upload_offset == upload.upload_offset
            },
        },
{
}

/// Advice and states have their names on the wire, and only advice to come back later
/// says when.
pub proof fn law_names_on_the_wire(
    advice: RecoveryAdvice,
    operation: OperationPublicState,
    upload: UploadPublicState,
    seconds: u64,
)
    ensures
        RecoveryAdvice::NoAdvice.wire() is None,
        RecoveryAdvice::Retry.wire() == Some("retry"@),
        RecoveryAdvice::RetryAfterSeconds(seconds).wire() == Some("retry"@),
        RecoveryAdvice::RetryWithNewId.wire() == Some("retry_with_new_id"@),
        RecoveryAdvice::ResumeUpload.wire() == Some("resume_upload"@),
        RecoveryAdvice::QueryJob.wire() == Some("query_job"@),
        RecoveryAdvice::QueryUpload.wire() == Some("query_upload"@),
        RecoveryAdvice::QueryUploadAfterSeconds(seconds).wire() == Some("query_upload"@),
        RecoveryAdvice::RefreshTarget.wire() == Some("refresh_target"@),
        RecoveryAdvice::RetryAfterSeconds(seconds).delay() == Some(seconds),
        RecoveryAdvice::QueryUploadAfterSeconds(seconds).delay() == Some(seconds),
        advice.delay() is Some ==> advice is RetryAfterSeconds || advice
            is QueryUploadAfterSeconds,
        operation.wire() == (match operation {
            OperationPublicState::Running => "running"@,
            OperationPublicState::Succeeded => "succeeded"@,
            OperationPublicState::Failed => "failed"@,
            OperationPublicState::Unknown => "unknown"@,
            OperationPublicState::Rejected => "rejected"@,
        }),
        upload.wire() == (match upload {
            UploadPublicState::NotStarted => "not_started"@,
            UploadPublicState::Unknown => "unknown"@,
        }),
{
}

/// A problem code starts with a small letter and holds these, digits and underscores,
/// and no more than sixty-four of them.
pub proof fn law_problem_codes_are_plain(code: Seq<char>)
    ensures
        is_problem_code(code) ==> 1 <= code.len() <= 64 && 'a' <= code[0] <= 'z',
        is_problem_code(code) ==> forall|i: int|
            0 <= i < code.len() ==> ('a' <= #[trigger] code[i] <= 'z' || '0' <= code[i] <= '9'
                || code[i] == '_'),
        1 <= code.len() <= 64 && 'a' <= code[0] <= 'z' && (forall|i: int|
            0 <= i < code.len() ==> ('a' <= #[trigger] code[i] <= 'z' || '0' <= code[i] <= '9'
                || code[i] == '_')) ==> is_problem_code(code),
{
}

} // verus!
