//! Tracked operations: fingerprints, outcomes, reservations and their answers.
use crate::identifiers;
use crate::identifiers::{
    hyphenated_text, parse_canonical_operation_id, push_big_endian, sha256_digest,
};
use crate::problem;
use crate::problem::{
    render_problem, ApiError, ApiErrorView, ErrorCode, OperationProblemContext,
    OperationPublicState, RecoveryAdvice,
};
use crate::response::{Body, BodyView, Response, ResponseView};
use crate::text::str_eq;
use vstd::prelude::*;
use vstd::string::*;

verus! {

pub open spec fn is_http_status(status: u16) -> bool {
    100 <= status <= 999
}

pub open spec fn is_success_status(status: u16) -> bool {
    200 <= status <= 299
}

/// The header that names the operation of a request.
pub const OPERATION_ID_HEADER: &'static str = "x-dufs-operation-id";

/// The header that tells the state of an operation.
pub const OPERATION_STATE_HEADER: &'static str = "x-dufs-operation-state";

/// Where the state of an operation can be asked for, below the root of the site.
pub const JOB_STATUS_PREFIX: &'static str = "__dufs__/api/jobs/";

/// How many operations the registry holds.
pub const REGISTRY_CAPACITY: usize = 4096;

/// How many operations of one owner the registry holds.
pub const PER_OWNER_CAPACITY: usize = 1024;

/// For how many seconds the registry holds the outcome of an operation.
pub const RESULT_TTL_SECONDS: u64 = 900;

/// Why a tracked operation failed.
#[derive(Clone, Copy, Debug, Eq, PartialEq, Structural)]
pub enum TrackedOperationError {
    InvalidJson,
    InvalidPath,
    PathExists,
    InvalidSourcePath,
    InvalidDestinationPath,
    SourceEqualsDestination,
    InvalidMovePath,
    InvalidRenameName,
    InvalidRenamePath,
    SourceNotFound,
    SourceRevisionRequired,
    InvalidSourceRevision,
    SourceChanged,
    DirectoryIntoItself,
    DestinationExists,
    DestinationRevisionRequired,
    InvalidDestinationRevision,
    DestinationChanged,
    DestinationDirectoryNotFound,
    DestinationNotDirectory,
    DirectoryOverwriteForbidden,
    MkdirStateConflict,
    MoveStateConflict,
    RenameStateConflict,
    TargetNotFound,
    DeleteStateConflict,
    PurgeBacklogFull,
    PurgeStateUnavailable,
    DeleteTargetChanged,
    DeleteNotCommitted,
    OutcomeUncertain,
}

impl TrackedOperationError {
    pub open spec fn public_code(self) -> ErrorCode {
        match self {
            TrackedOperationError::InvalidJson => ErrorCode::InvalidJson,
            TrackedOperationError::InvalidPath => ErrorCode::InvalidPath,
            TrackedOperationError::PathExists => ErrorCode::PathExists,
            TrackedOperationError::InvalidSourcePath => ErrorCode::InvalidSourcePath,
            TrackedOperationError::InvalidDestinationPath => ErrorCode::InvalidDestinationPath,
            TrackedOperationError::SourceEqualsDestination => ErrorCode::SourceEqualsDestination,
            TrackedOperationError::InvalidMovePath => ErrorCode::InvalidMovePath,
            TrackedOperationError::InvalidRenameName => ErrorCode::InvalidRenameName,
            TrackedOperationError::InvalidRenamePath => ErrorCode::InvalidRenamePath,
            TrackedOperationError::SourceNotFound => ErrorCode::SourceNotFound,
            TrackedOperationError::SourceRevisionRequired => ErrorCode::SourceRevisionRequired,
            TrackedOperationError::InvalidSourceRevision => ErrorCode::InvalidSourceRevision,
            TrackedOperationError::SourceChanged => ErrorCode::SourceChanged,
            TrackedOperationError::DirectoryIntoItself => ErrorCode::DirectoryIntoItself,
            TrackedOperationError::DestinationExists => ErrorCode::DestinationExists,
            TrackedOperationError::DestinationRevisionRequired => ErrorCode::DestinationRevisionRequired,
            TrackedOperationError::InvalidDestinationRevision => ErrorCode::InvalidDestinationRevision,
            TrackedOperationError::DestinationChanged => ErrorCode::DestinationChanged,
            TrackedOperationError::DestinationDirectoryNotFound => ErrorCode::DestinationDirectoryNotFound,
            TrackedOperationError::DestinationNotDirectory => ErrorCode::DestinationNotDirectory,
            TrackedOperationError::DirectoryOverwriteForbidden => ErrorCode::DirectoryOverwriteForbidden,
            TrackedOperationError::MkdirStateConflict => ErrorCode::MkdirStateConflict,
            TrackedOperationError::MoveStateConflict => ErrorCode::MoveStateConflict,
            TrackedOperationError::RenameStateConflict => ErrorCode::RenameStateConflict,
            TrackedOperationError::TargetNotFound => ErrorCode::TargetNotFound,
            TrackedOperationError::DeleteStateConflict => ErrorCode::DeleteStateConflict,
            TrackedOperationError::PurgeBacklogFull => ErrorCode::PurgeBacklogFull,
            TrackedOperationError::PurgeStateUnavailable => ErrorCode::PurgeStateUnavailable,
            TrackedOperationError::DeleteTargetChanged => ErrorCode::DeleteTargetChanged,
            TrackedOperationError::DeleteNotCommitted => ErrorCode::DeleteNotCommitted,
            TrackedOperationError::OutcomeUncertain => ErrorCode::OutcomeUncertain,
        }
    }

    /// The public code of the failure.
    pub fn code(self) -> (code: ErrorCode)
        ensures
            code == self.public_code(),
    {
        match self {
            TrackedOperationError::InvalidJson => ErrorCode::InvalidJson,
            TrackedOperationError::InvalidPath => ErrorCode::InvalidPath,
            TrackedOperationError::PathExists => ErrorCode::PathExists,
            TrackedOperationError::InvalidSourcePath => ErrorCode::InvalidSourcePath,
            TrackedOperationError::InvalidDestinationPath => ErrorCode::InvalidDestinationPath,
            TrackedOperationError::SourceEqualsDestination => ErrorCode::SourceEqualsDestination,
            TrackedOperationError::InvalidMovePath => ErrorCode::InvalidMovePath,
            TrackedOperationError::InvalidRenameName => ErrorCode::InvalidRenameName,
            TrackedOperationError::InvalidRenamePath => ErrorCode::InvalidRenamePath,
            TrackedOperationError::SourceNotFound => ErrorCode::SourceNotFound,
            TrackedOperationError::SourceRevisionRequired => ErrorCode::SourceRevisionRequired,
            TrackedOperationError::InvalidSourceRevision => ErrorCode::InvalidSourceRevision,
            TrackedOperationError::SourceChanged => ErrorCode::SourceChanged,
            TrackedOperationError::DirectoryIntoItself => ErrorCode::DirectoryIntoItself,
            TrackedOperationError::DestinationExists => ErrorCode::DestinationExists,
            TrackedOperationError::DestinationRevisionRequired => ErrorCode::DestinationRevisionRequired,
            TrackedOperationError::InvalidDestinationRevision => ErrorCode::InvalidDestinationRevision,
            TrackedOperationError::DestinationChanged => ErrorCode::DestinationChanged,
            TrackedOperationError::DestinationDirectoryNotFound => ErrorCode::DestinationDirectoryNotFound,
            TrackedOperationError::DestinationNotDirectory => ErrorCode::DestinationNotDirectory,
            TrackedOperationError::DirectoryOverwriteForbidden => ErrorCode::DirectoryOverwriteForbidden,
            TrackedOperationError::MkdirStateConflict => ErrorCode::MkdirStateConflict,
            TrackedOperationError::MoveStateConflict => ErrorCode::MoveStateConflict,
            TrackedOperationError::RenameStateConflict => ErrorCode::RenameStateConflict,
            TrackedOperationError::TargetNotFound => ErrorCode::TargetNotFound,
            TrackedOperationError::DeleteStateConflict => ErrorCode::DeleteStateConflict,
            TrackedOperationError::PurgeBacklogFull => ErrorCode::PurgeBacklogFull,
            TrackedOperationError::PurgeStateUnavailable => ErrorCode::PurgeStateUnavailable,
            TrackedOperationError::DeleteTargetChanged => ErrorCode::DeleteTargetChanged,
            TrackedOperationError::DeleteNotCommitted => ErrorCode::DeleteNotCommitted,
            TrackedOperationError::OutcomeUncertain => ErrorCode::OutcomeUncertain,
        }
    }

    pub open spec fn public_detail(self) -> Seq<char> {
        match self {
            TrackedOperationError::InvalidJson => "Invalid JSON request"@,
            TrackedOperationError::InvalidPath => "Invalid path"@,
            TrackedOperationError::PathExists => "Path already exists"@,
            TrackedOperationError::InvalidSourcePath => "Invalid source path"@,
            TrackedOperationError::InvalidDestinationPath => "Invalid destination path"@,
            TrackedOperationError::SourceEqualsDestination => "Source and destination must differ"@,
            TrackedOperationError::InvalidMovePath => "Invalid move path"@,
            TrackedOperationError::InvalidRenameName => "Rename name must be one valid path segment"@,
            TrackedOperationError::InvalidRenamePath => "Invalid rename path"@,
            TrackedOperationError::SourceNotFound => "Source not found"@,
            TrackedOperationError::SourceRevisionRequired => "Source revision is required"@,
            TrackedOperationError::InvalidSourceRevision => "Source revision is invalid"@,
            TrackedOperationError::SourceChanged => "Source changed after it was listed"@,
            TrackedOperationError::DirectoryIntoItself => "A directory cannot be moved into itself"@,
            TrackedOperationError::DestinationExists => "Destination already exists"@,
            TrackedOperationError::DestinationRevisionRequired => "Destination revision is required for overwrite"@,
            TrackedOperationError::InvalidDestinationRevision => "Destination revision is invalid"@,
            TrackedOperationError::DestinationChanged => "Destination changed after overwrite confirmation"@,
            TrackedOperationError::DestinationDirectoryNotFound => "Destination directory not found"@,
            TrackedOperationError::DestinationNotDirectory => "Destination path is not a directory"@,
            TrackedOperationError::DirectoryOverwriteForbidden => "Directories cannot be overwritten"@,
            TrackedOperationError::MkdirStateConflict => "Directory path conflicts with an active upload or pending delete"@,
            TrackedOperationError::MoveStateConflict => "Source or destination conflicts with an active upload or pending delete"@,
            TrackedOperationError::RenameStateConflict => "Rename source or destination conflicts with an active upload or pending delete"@,
            TrackedOperationError::TargetNotFound => "Target not found"@,
            TrackedOperationError::DeleteStateConflict => "Target conflicts with an active upload or pending delete"@,
            TrackedOperationError::PurgeBacklogFull => "Delete backlog is temporarily full"@,
            TrackedOperationError::PurgeStateUnavailable => "Delete state storage is temporarily unavailable"@,
            TrackedOperationError::DeleteTargetChanged => "Delete target changed before commit"@,
            TrackedOperationError::DeleteNotCommitted => "Delete was not committed; refresh the target before retrying"@,
            TrackedOperationError::OutcomeUncertain => "Operation outcome is uncertain; inspect the target before trying again"@,
        }
    }

    /// The public text of the failure.
    pub fn detail(self) -> (text: &'static str)
        ensures
            text@ == self.public_detail(),
    {
        match self {
            TrackedOperationError::InvalidJson => "Invalid JSON request",
            TrackedOperationError::InvalidPath => "Invalid path",
            TrackedOperationError::PathExists => "Path already exists",
            TrackedOperationError::InvalidSourcePath => "Invalid source path",
            TrackedOperationError::InvalidDestinationPath => "Invalid destination path",
            TrackedOperationError::SourceEqualsDestination => "Source and destination must differ",
            TrackedOperationError::InvalidMovePath => "Invalid move path",
            TrackedOperationError::InvalidRenameName => "Rename name must be one valid path segment",
            TrackedOperationError::InvalidRenamePath => "Invalid rename path",
            TrackedOperationError::SourceNotFound => "Source not found",
            TrackedOperationError::SourceRevisionRequired => "Source revision is required",
            TrackedOperationError::InvalidSourceRevision => "Source revision is invalid",
            TrackedOperationError::SourceChanged => "Source changed after it was listed",
            TrackedOperationError::DirectoryIntoItself => "A directory cannot be moved into itself",
            TrackedOperationError::DestinationExists => "Destination already exists",
            TrackedOperationError::DestinationRevisionRequired => "Destination revision is required for overwrite",
            TrackedOperationError::InvalidDestinationRevision => "Destination revision is invalid",
            TrackedOperationError::DestinationChanged => "Destination changed after overwrite confirmation",
            TrackedOperationError::DestinationDirectoryNotFound => "Destination directory not found",
            TrackedOperationError::DestinationNotDirectory => "Destination path is not a directory",
            TrackedOperationError::DirectoryOverwriteForbidden => "Directories cannot be overwritten",
            TrackedOperationError::MkdirStateConflict => "Directory path conflicts with an active upload or pending delete",
            TrackedOperationError::MoveStateConflict => "Source or destination conflicts with an active upload or pending delete",
            TrackedOperationError::RenameStateConflict => "Rename source or destination conflicts with an active upload or pending delete",
            TrackedOperationError::TargetNotFound => "Target not found",
            TrackedOperationError::DeleteStateConflict => "Target conflicts with an active upload or pending delete",
            TrackedOperationError::PurgeBacklogFull => "Delete backlog is temporarily full",
            TrackedOperationError::PurgeStateUnavailable => "Delete state storage is temporarily unavailable",
            TrackedOperationError::DeleteTargetChanged => "Delete target changed before commit",
            TrackedOperationError::DeleteNotCommitted => "Delete was not committed; refresh the target before retrying",
            TrackedOperationError::OutcomeUncertain => "Operation outcome is uncertain; inspect the target before trying again",
        }
    }

    pub open spec fn advice(self) -> RecoveryAdvice {
        if self == TrackedOperationError::OutcomeUncertain {
            RecoveryAdvice::QueryJob
        } else {
            RecoveryAdvice::NoAdvice
        }
    }

    /// Only an uncertain outcome is worth a query.
    pub fn recovery(self) -> (advice: RecoveryAdvice)
        ensures
            advice == self.advice(),
    {
        match self {
            TrackedOperationError::OutcomeUncertain => RecoveryAdvice::QueryJob,
            _ => RecoveryAdvice::NoAdvice,
        }
    }

    /// The failure with this wire name.
    pub fn from_wire_name(name: &str) -> (error: Option<TrackedOperationError>)
        ensures
            error matches Some(error) ==> error.public_code().wire() == name@,
            error is None ==> forall|candidate: TrackedOperationError|
                (#[trigger] candidate.public_code()).wire() != name@,
    {
        if str_eq(name, ErrorCode::InvalidJson.as_str()) {
            Some(TrackedOperationError::InvalidJson)
        } else if str_eq(name, ErrorCode::InvalidPath.as_str()) {
            Some(TrackedOperationError::InvalidPath)
        } else if str_eq(name, ErrorCode::PathExists.as_str()) {
            Some(TrackedOperationError::PathExists)
        } else if str_eq(name, ErrorCode::InvalidSourcePath.as_str()) {
            Some(TrackedOperationError::InvalidSourcePath)
        } else if str_eq(name, ErrorCode::InvalidDestinationPath.as_str()) {
            Some(TrackedOperationError::InvalidDestinationPath)
        } else if str_eq(name, ErrorCode::SourceEqualsDestination.as_str()) {
            Some(TrackedOperationError::SourceEqualsDestination)
        } else if str_eq(name, ErrorCode::InvalidMovePath.as_str()) {
            Some(TrackedOperationError::InvalidMovePath)
        } else if str_eq(name, ErrorCode::InvalidRenameName.as_str()) {
            Some(TrackedOperationError::InvalidRenameName)
        } else if str_eq(name, ErrorCode::InvalidRenamePath.as_str()) {
            Some(TrackedOperationError::InvalidRenamePath)
        } else if str_eq(name, ErrorCode::SourceNotFound.as_str()) {
            Some(TrackedOperationError::SourceNotFound)
        } else if str_eq(name, ErrorCode::SourceRevisionRequired.as_str()) {
            Some(TrackedOperationError::SourceRevisionRequired)
        } else if str_eq(name, ErrorCode::InvalidSourceRevision.as_str()) {
            Some(TrackedOperationError::InvalidSourceRevision)
        } else if str_eq(name, ErrorCode::SourceChanged.as_str()) {
            Some(TrackedOperationError::SourceChanged)
        } else if str_eq(name, ErrorCode::DirectoryIntoItself.as_str()) {
            Some(TrackedOperationError::DirectoryIntoItself)
        } else if str_eq(name, ErrorCode::DestinationExists.as_str()) {
            Some(TrackedOperationError::DestinationExists)
        } else if str_eq(name, ErrorCode::DestinationRevisionRequired.as_str()) {
            Some(TrackedOperationError::DestinationRevisionRequired)
        } else if str_eq(name, ErrorCode::InvalidDestinationRevision.as_str()) {
            Some(TrackedOperationError::InvalidDestinationRevision)
        } else if str_eq(name, ErrorCode::DestinationChanged.as_str()) {
            Some(TrackedOperationError::DestinationChanged)
        } else if str_eq(name, ErrorCode::DestinationDirectoryNotFound.as_str()) {
            Some(TrackedOperationError::DestinationDirectoryNotFound)
        } else if str_eq(name, ErrorCode::DestinationNotDirectory.as_str()) {
            Some(TrackedOperationError::DestinationNotDirectory)
        } else if str_eq(name, ErrorCode::DirectoryOverwriteForbidden.as_str()) {
            Some(TrackedOperationError::DirectoryOverwriteForbidden)
        } else if str_eq(name, ErrorCode::MkdirStateConflict.as_str()) {
            Some(TrackedOperationError::MkdirStateConflict)
        } else if str_eq(name, ErrorCode::MoveStateConflict.as_str()) {
            Some(TrackedOperationError::MoveStateConflict)
        } else if str_eq(name, ErrorCode::RenameStateConflict.as_str()) {
            Some(TrackedOperationError::RenameStateConflict)
        } else if str_eq(name, ErrorCode::TargetNotFound.as_str()) {
            Some(TrackedOperationError::TargetNotFound)
        } else if str_eq(name, ErrorCode::DeleteStateConflict.as_str()) {
            Some(TrackedOperationError::DeleteStateConflict)
        } else if str_eq(name, ErrorCode::PurgeBacklogFull.as_str()) {
            Some(TrackedOperationError::PurgeBacklogFull)
        } else if str_eq(name, ErrorCode::PurgeStateUnavailable.as_str()) {
            Some(TrackedOperationError::PurgeStateUnavailable)
        } else if str_eq(name, ErrorCode::DeleteTargetChanged.as_str()) {
            Some(TrackedOperationError::DeleteTargetChanged)
        } else if str_eq(name, ErrorCode::DeleteNotCommitted.as_str()) {
            Some(TrackedOperationError::DeleteNotCommitted)
        } else if str_eq(name, ErrorCode::OutcomeUncertain.as_str()) {
            Some(TrackedOperationError::OutcomeUncertain)
        } else {
            None
        }
    }
}

/// The wire name of a failure names no other failure, so that reading a wire
/// name gives back the failure that was written.
pub proof fn law_failure_names_are_unique(
    left: TrackedOperationError,
    right: TrackedOperationError,
)
    requires
        left.public_code().wire() == right.public_code().wire(),
    ensures
        left == right,
{
    problem::law_catalog_codes_are_unique(left.public_code(), right.public_code());
}

/// What a request asks for, reduced to a digest.
pub struct OperationFingerprint {
    pub bytes: [u8; 32],
}

/// Byte strings written one after the other, each behind its length.
pub open spec fn framed(parts: Seq<Seq<u8>>) -> Seq<u8>
    decreases parts.len(),
{
    if parts.len() == 0 {
        Seq::empty()
    } else {
        identifiers::big_endian(parts[0].len() as u64) + parts[0] + framed(parts.drop_first())
    }
}

/// Every part is short enough for its length to be written.
pub open spec fn frames_fit(parts: Seq<Seq<u8>>) -> bool {
    forall|i: int| 0 <= i < parts.len() ==> #[trigger] parts[i].len() <= u64::MAX
}

/// Lists of byte strings that are framed alike are the same list, so that two
/// different requests are never digested from the same input.
pub proof fn law_frames_are_injective(left: Seq<Seq<u8>>, right: Seq<Seq<u8>>)
    requires
        frames_fit(left),
        frames_fit(right),
        framed(left) == framed(right),
    ensures
        left == right,
    decreases left.len(),
{
    if left.len() > 0 {
        identifiers::lemma_big_endian_length(left[0].len() as u64);
    }
    if right.len() > 0 {
        identifiers::lemma_big_endian_length(right[0].len() as u64);
    }
    if left.len() == 0 {
        if right.len() > 0 {
            assert(framed(right).len() >= 8);
        }
        assert(left =~= right);
    } else if right.len() == 0 {
        assert(framed(left).len() >= 8);
    } else {
        let whole = framed(left);
        let left_length = identifiers::big_endian(left[0].len() as u64);
        let right_length = identifiers::big_endian(right[0].len() as u64);
        assert(whole.subrange(0, 8) =~= left_length);
        assert(whole.subrange(0, 8) =~= right_length);
        identifiers::lemma_big_endian_is_injective(left[0].len() as u64, right[0].len() as u64);
        let end = 8 + left[0].len() as int;
        assert(whole.subrange(8, end) =~= left[0]);
        assert(whole.subrange(8, end) =~= right[0]);
        assert(whole.subrange(end, whole.len() as int) =~= framed(left.drop_first()));
        assert(whole.subrange(end, whole.len() as int) =~= framed(right.drop_first()));
        law_frames_are_injective(left.drop_first(), right.drop_first());
        assert(left =~= seq![left[0]] + left.drop_first());
        assert(right =~= seq![right[0]] + right.drop_first());
    }
}

/// One more part adds its frame at the end.
pub proof fn lemma_framed_push(parts: Seq<Seq<u8>>, part: Seq<u8>)
    ensures
        framed(parts.push(part)) == framed(parts) + identifiers::big_endian(part.len() as u64)
            + part,
    decreases parts.len(),
{
    let longer = parts.push(part);
    let length = identifiers::big_endian(part.len() as u64);
    if parts.len() == 0 {
        assert(longer.drop_first() =~= Seq::empty());
        assert(framed(longer.drop_first()) =~= Seq::empty());
        assert(framed(longer) == length + part + framed(longer.drop_first()));
        assert(framed(parts) =~= Seq::empty());
        assert(length + part + Seq::empty() =~= Seq::<u8>::empty() + length + part);
    } else {
        let head = identifiers::big_endian(parts[0].len() as u64) + parts[0];
        let tail = framed(parts.drop_first());
        assert(longer.drop_first() =~= parts.drop_first().push(part));
        lemma_framed_push(parts.drop_first(), part);
        assert(longer[0] == parts[0]);
        assert(framed(longer) == head + (tail + length + part));
        assert(head + (tail + length + part) =~= (head + tail) + length + part);
    }
}

/// The byte strings of a list.
pub open spec fn byte_strings(parts: Seq<&[u8]>) -> Seq<Seq<u8>> {
    Seq::new(parts.len(), |i: int| parts[i]@)
}

/// Adds the frame of one more part: its length and its bytes.
pub(crate) fn push_frame(input: &mut Vec<u8>, part: &[u8])
    ensures
        final(input)@ == old(input)@ + identifiers::big_endian(part@.len() as u64) + part@,
{
    push_big_endian(input, part.len() as u64);
    input.extend_from_slice(part);
}

impl OperationFingerprint {
    /// The fingerprint of the parts of a request.
    pub fn new(parts: &[&[u8]]) -> (fingerprint: OperationFingerprint)
        ensures
            fingerprint.bytes@ == identifiers::sha256(framed(byte_strings(parts@))),
    {
        let mut input: Vec<u8> = Vec::new();
        let mut index: usize = 0;
        while index < parts.len()
            invariant
                index <= parts@.len(),
                input@ == framed(byte_strings(parts@.subrange(0, index as int))),
            decreases parts@.len() - index,
        {
            let part: &[u8] = parts[index];
            proof {
                let read = parts@.subrange(0, index as int);
                lemma_framed_push(byte_strings(read), part@);
                assert(byte_strings(parts@.subrange(0, index + 1)) =~= byte_strings(read).push(
                    part@,
                ));
            }
            push_frame(&mut input, part);
            index += 1;
        }
        assert(parts@.subrange(0, parts@.len() as int) =~= parts@);
        OperationFingerprint { bytes: sha256_digest(input.as_slice()) }
    }
}

/// How a tracked operation ended.
#[derive(Clone, Copy)]
pub struct OperationOutcome {
    status: u16,
    state: OperationPublicState,
    error: Option<TrackedOperationError>,
}

impl OperationOutcome {
    /// Ended operations succeeded with a success status and no error, or they
    /// ended otherwise with another status and an error.
    pub open spec fn is_terminal(
        status: u16,
        state: OperationPublicState,
        error: Option<TrackedOperationError>,
    ) -> bool {
        &&& is_http_status(status)
        &&& match state {
            OperationPublicState::Succeeded => is_success_status(status) && error is None,
            OperationPublicState::Failed | OperationPublicState::Unknown => !is_success_status(
                status,
            ) && error is Some,
            OperationPublicState::Running | OperationPublicState::Rejected => false,
        }
    }

    #[verifier::type_invariant]
    spec fn is_valid(self) -> bool {
        OperationOutcome::is_terminal(self.status, self.state, self.error)
    }

    pub closed spec fn status(self) -> u16 {
        self.status
    }

    pub closed spec fn state(self) -> OperationPublicState {
        self.state
    }

    pub closed spec fn error(self) -> Option<TrackedOperationError> {
        self.error
    }

    pub fn success(status: u16) -> (outcome: OperationOutcome)
        requires
            is_success_status(status),
        ensures
            outcome.status() == status,
            outcome.state() == OperationPublicState::Succeeded,
            outcome.error() == None::<TrackedOperationError>,
    {
        OperationOutcome { status, state: OperationPublicState::Succeeded, error: None }
    }

    pub fn failure(status: u16, error: TrackedOperationError) -> (outcome: OperationOutcome)
        requires
            is_http_status(status),
            !is_success_status(status),
        ensures
            outcome.status() == status,
            outcome.state() == OperationPublicState::Failed,
            outcome.error() == Some(error),
    {
        OperationOutcome { status, state: OperationPublicState::Failed, error: Some(error) }
    }

    /// The outcome of an operation whose commit may or may not have happened.
    pub fn uncertain() -> (outcome: OperationOutcome)
        ensures
            outcome.status() == 500,
            outcome.state() == OperationPublicState::Unknown,
            outcome.error() == Some(TrackedOperationError::OutcomeUncertain),
    {
        OperationOutcome {
            status: 500,
            state: OperationPublicState::Unknown,
            error: Some(TrackedOperationError::OutcomeUncertain),
        }
    }

    pub fn public_state(self) -> (state: OperationPublicState)
        ensures
            state == self.state(),
    {
        self.state
    }

    /// The record that the state store keeps of the outcome.
    pub fn into_stored(self) -> (stored: StoredOutcome)
        ensures
            stored.records(self),
            OperationOutcome::is_terminal(self.status(), self.state(), self.error()),
    {
        proof {
            use_type_invariant(&self);
        }
        StoredOutcome {
            status: self.status,
            state: match self.state {
                OperationPublicState::Succeeded => StoredTerminalState::Succeeded,
                OperationPublicState::Failed => StoredTerminalState::Failed,
                _ => StoredTerminalState::Unknown,
            },
            code: match self.error {
                Some(error) => Some(String::from_str(error.code().as_str())),
                None => None,
            },
        }
    }

    /// The outcome that a record of the state store stands for.
    pub fn from_stored(stored: StoredOutcome) -> (outcome: Result<OperationOutcome, StoreCorruption>)
        ensures
            outcome is Ok <==> stored.fault() is None,
            outcome matches Err(fault) ==> stored.fault() == Some(fault),
            outcome matches Ok(outcome) ==> {
                &&& outcome.status() == stored.status
                &&& outcome.state() == stored.state.public()
                &&& stored.code is None <==> outcome.error() is None
                &&& outcome.error() matches Some(error) ==> problem::opt_string(stored.code)
                    == Some(error.public_code().wire())
            },
    {
        if stored.status < 100 || stored.status > 999 {
            return Err(StoreCorruption::InvalidStatus);
        }
        let success = 200 <= stored.status && stored.status <= 299;
        let (state, error) = match (stored.state, &stored.code) {
            (StoredTerminalState::Succeeded, None) => (OperationPublicState::Succeeded, None),
            (StoredTerminalState::Failed, Some(code)) => {
                match TrackedOperationError::from_wire_name(code.as_str()) {
                    Some(error) => (OperationPublicState::Failed, Some(error)),
                    None => return Err(StoreCorruption::UnknownError),
                }
            },
            (StoredTerminalState::Unknown, Some(code)) => {
                match TrackedOperationError::from_wire_name(code.as_str()) {
                    Some(error) => (OperationPublicState::Unknown, Some(error)),
                    None => return Err(StoreCorruption::UnknownError),
                }
            },
            _ => return Err(StoreCorruption::IncompleteOutcome),
        };
        match state {
            OperationPublicState::Succeeded => {
                if !success {
                    return Err(StoreCorruption::SuccessWithoutSuccessStatus);
                }
            },
            _ => {
                if success {
                    return Err(StoreCorruption::FailureWithSuccessStatus);
                }
            },
        }
        Ok(OperationOutcome { status: stored.status, state, error })
    }
}

/// The terminal states that the state store tells apart.
#[derive(Clone, Copy, Debug, Eq, PartialEq, Structural)]
pub enum StoredTerminalState {
    Succeeded,
    Failed,
    Unknown,
}

impl StoredTerminalState {
    pub open spec fn public(self) -> OperationPublicState {
        match self {
            StoredTerminalState::Succeeded => OperationPublicState::Succeeded,
            StoredTerminalState::Failed => OperationPublicState::Failed,
            StoredTerminalState::Unknown => OperationPublicState::Unknown,
        }
    }
}

/// The state store's record of an outcome.
pub struct StoredOutcome {
    pub status: u16,
    pub state: StoredTerminalState,
    pub code: Option<String>,
}

/// What is wrong with a record of the state store.
#[derive(Clone, Copy, Debug, Eq, PartialEq, Structural)]
pub enum StoreCorruption {
    InvalidStatus,
    UnknownError,
    IncompleteOutcome,
    SuccessWithoutSuccessStatus,
    FailureWithSuccessStatus,
}

impl StoreCorruption {
    pub fn message(self) -> (text: &'static str)
        ensures
            text@ == (match self {
                StoreCorruption::InvalidStatus => "operation store contains an invalid HTTP status"@,
                StoreCorruption::UnknownError => "operation store contains an unknown terminal error"@,
                StoreCorruption::IncompleteOutcome => "operation store contains an incomplete terminal outcome"@,
                StoreCorruption::SuccessWithoutSuccessStatus => "operation store contains a non-success status for a success outcome"@,
                StoreCorruption::FailureWithSuccessStatus => "operation store contains a success status for an error outcome"@,
            }),
    {
        match self {
            StoreCorruption::InvalidStatus => "operation store contains an invalid HTTP status",
            StoreCorruption::UnknownError => "operation store contains an unknown terminal error",
            StoreCorruption::IncompleteOutcome => "operation store contains an incomplete terminal outcome",
            StoreCorruption::SuccessWithoutSuccessStatus => "operation store contains a non-success status for a success outcome",
            StoreCorruption::FailureWithSuccessStatus => "operation store contains a success status for an error outcome",
        }
    }
}

/// Whether a text names a failure.
pub open spec fn names_a_failure(name: Seq<char>) -> bool {
    exists|error: TrackedOperationError| (#[trigger] error.public_code()).wire() == name
}

impl StoredOutcome {
    /// The record is the one of this outcome.
    pub open spec fn records(self, outcome: OperationOutcome) -> bool {
        &&& self.status == outcome.status()
        &&& self.state.public() == outcome.state()
        &&& problem::opt_string(self.code) == (match outcome.error() {
            Some(error) => Some(error.public_code().wire()),
            None => None,
        })
    }

    /// The first fault of a record. A record without a fault stands for exactly
    /// one outcome.
    pub open spec fn fault(self) -> Option<StoreCorruption> {
        let succeeded = self.state == StoredTerminalState::Succeeded;
        if !is_http_status(self.status) {
            Some(StoreCorruption::InvalidStatus)
        } else if succeeded != (self.code is None) {
            Some(StoreCorruption::IncompleteOutcome)
        } else if self.code is Some && !names_a_failure(self.code->0@) {
            Some(StoreCorruption::UnknownError)
        } else if succeeded && !is_success_status(self.status) {
            Some(StoreCorruption::SuccessWithoutSuccessStatus)
        } else if !succeeded && is_success_status(self.status) {
            Some(StoreCorruption::FailureWithSuccessStatus)
        } else {
            None
        }
    }
}

/// The record of an outcome has no fault, and the only outcome that it stands
/// for is the one that was stored.
pub proof fn law_stored_outcomes_reload(written: OperationOutcome, stored: StoredOutcome)
    requires
        OperationOutcome::is_terminal(written.status(), written.state(), written.error()),
        stored.records(written),
    ensures
        stored.fault() is None,
        forall|read: TrackedOperationError|
            problem::opt_string(stored.code) == Some((#[trigger] read.public_code()).wire())
                ==> written.error() == Some(read),
{
    if let Some(error) = written.error() {
        assert(error.public_code().wire() == stored.code->0@);
        assert forall|read: TrackedOperationError|
            problem::opt_string(stored.code) == Some(
                (#[trigger] read.public_code()).wire(),
            ) implies written.error() == Some(read) by {
            law_failure_names_are_unique(error, read);
        }
    }
}

/// Names a reservation in the state store.
#[derive(Clone, Copy)]
pub struct OperationKey {
    pub owner: [u8; 32],
    pub id: u128,
}

/// What a reservation asks of the state store.
pub enum StoreCommand {
    MarkCommitStarted { key: OperationKey, lease: u128 },
    Complete { key: OperationKey, lease: u128, outcome: StoredOutcome },
    Abandon { key: OperationKey, lease: u128 },
}

/// The state store no longer holds the reservation.
#[derive(Clone, Copy, Debug, Eq, PartialEq, Structural)]
pub enum ReservationLost {
    BeforeCommit,
    BeforeCompletion,
}

/// A reserved operation. Until its commit starts, giving it up removes the
/// reservation, and the same identifier can be tried again.
pub struct OperationGuard {
    key: OperationKey,
    lease: u128,
    completed: bool,
}

impl OperationGuard {
    pub closed spec fn key(self) -> OperationKey {
        self.key
    }

    pub closed spec fn lease(self) -> u128 {
        self.lease
    }

    pub closed spec fn completed(self) -> bool {
        self.completed
    }

    pub fn new(key: OperationKey, lease: u128) -> (guard: OperationGuard)
        ensures
            guard.key() == key,
            guard.lease() == lease,
            !guard.completed(),
    {
        OperationGuard { key, lease, completed: false }
    }

    /// The identifier of the reserved operation.
    pub fn id(&self) -> (id: u128)
        ensures
            id == self.key().id,
    {
        self.key.id
    }

    /// Marks the exact point after which cancellation can leave an uncertain
    /// outcome. A completed operation has nothing left to mark.
    pub fn mark_commit_started(&self) -> (command: Option<StoreCommand>)
        ensures
            command == (if self.completed() {
                None
            } else {
                Some(StoreCommand::MarkCommitStarted { key: self.key(), lease: self.lease() })
            }),
    {
        if self.completed {
            return None;
        }
        Some(StoreCommand::MarkCommitStarted { key: self.key, lease: self.lease })
    }

    /// Takes the store's answer to the mark.
    pub fn commit_marked(&self, held: bool) -> (result: Result<(), ReservationLost>)
        ensures
            result == (if held {
                Ok::<(), ReservationLost>(())
            } else {
                Err(ReservationLost::BeforeCommit)
            }),
    {
        if held {
            Ok(())
        } else {
            Err(ReservationLost::BeforeCommit)
        }
    }

    /// Asks the store to record the outcome.
    pub fn complete(&self, outcome: OperationOutcome) -> (command: StoreCommand)
        ensures
            command matches StoreCommand::Complete { key, lease, outcome: stored } && {
                &&& key == self.key()
                &&& lease == self.lease()
                &&& stored.records(outcome)
            },
    {
        StoreCommand::Complete {
            key: self.key,
            lease: self.lease,
            outcome: outcome.into_stored(),
        }
    }

    /// Takes the store's answer to the completion.
    pub fn outcome_recorded(&mut self, held: bool) -> (result: Result<(), ReservationLost>)
        ensures
            result == (if held {
                Ok::<(), ReservationLost>(())
            } else {
                Err(ReservationLost::BeforeCompletion)
            }),
            final(self).key() == old(self).key(),
            final(self).lease() == old(self).lease(),
            final(self).completed() == (old(self).completed() || held),
    {
        if !held {
            return Err(ReservationLost::BeforeCompletion);
        }
        self.completed = true;
        Ok(())
    }

    /// Gives the reservation up: it is abandoned exactly where no outcome was
    /// recorded.
    pub fn release(self) -> (command: Option<StoreCommand>)
        ensures
            command == (if self.completed() {
                None
            } else {
                Some(StoreCommand::Abandon { key: self.key(), lease: self.lease() })
            }),
    {
        if self.completed {
            return None;
        }
        Some(StoreCommand::Abandon { key: self.key, lease: self.lease })
    }
}

/// What the state store answers to a new operation.
pub enum StoreBegin {
    Started { lease: u128 },
    Running,
    Replay(StoredOutcome),
    Conflict,
    Full,
}

/// How the state store failed to answer: it never took the command, or it
/// failed on it.
#[derive(Clone, Copy, Debug, Eq, PartialEq, Structural)]
pub enum StoreFailure {
    NotDispatched,
    Failed,
}

/// What becomes of a new operation.
pub enum BeginOperation {
    Started(OperationGuard),
    Running,
    Replay(OperationOutcome),
    Conflict,
    Full,
    Unavailable,
}

/// Why the registry has no answer.
#[derive(Clone, Copy, Debug, Eq, PartialEq, Structural)]
pub enum RegistryError {
    Store,
    Corrupt(StoreCorruption),
}

/// What the answer of the state store to a new operation means.
pub open spec fn reads_answer(
    key: OperationKey,
    answer: Result<StoreBegin, StoreFailure>,
    begun: Result<BeginOperation, RegistryError>,
) -> bool {
    match answer {
        Err(StoreFailure::NotDispatched) => begun matches Ok(BeginOperation::Unavailable),
        Err(StoreFailure::Failed) => begun matches Err(RegistryError::Store),
        Ok(StoreBegin::Started { lease }) => begun matches Ok(BeginOperation::Started(guard))
            && guard.key() == key && guard.lease() == lease && !guard.completed(),
        Ok(StoreBegin::Running) => begun matches Ok(BeginOperation::Running),
        Ok(StoreBegin::Replay(stored)) => match stored.fault() {
            Some(fault) => begun matches Err(RegistryError::Corrupt(found)) && found == fault,
            None => begun matches Ok(BeginOperation::Replay(outcome)) && replays(stored, outcome),
        },
        Ok(StoreBegin::Conflict) => begun matches Ok(BeginOperation::Conflict),
        Ok(StoreBegin::Full) => begun matches Ok(BeginOperation::Full),
    }
}

/// Reads the answer of the state store to a new operation.
pub fn begin(key: OperationKey, answer: Result<StoreBegin, StoreFailure>) -> (begun: Result<
    BeginOperation,
    RegistryError,
>)
    ensures
        reads_answer(key, answer, begun),
{
    match answer {
        Err(StoreFailure::NotDispatched) => Ok(BeginOperation::Unavailable),
        Err(StoreFailure::Failed) => Err(RegistryError::Store),
        Ok(StoreBegin::Started { lease }) => Ok(
            BeginOperation::Started(OperationGuard::new(key, lease)),
        ),
        Ok(StoreBegin::Running) => Ok(BeginOperation::Running),
        Ok(StoreBegin::Replay(stored)) => match OperationOutcome::from_stored(stored) {
            Ok(outcome) => Ok(BeginOperation::Replay(outcome)),
            Err(fault) => Err(RegistryError::Corrupt(fault)),
        },
        Ok(StoreBegin::Conflict) => Ok(BeginOperation::Conflict),
        Ok(StoreBegin::Full) => Ok(BeginOperation::Full),
    }
}

/// The outcome is the one that the record stands for.
pub open spec fn replays(stored: StoredOutcome, outcome: OperationOutcome) -> bool {
    &&& outcome.status() == stored.status
    &&& outcome.state() == stored.state.public()
    &&& stored.code is None <==> outcome.error() is None
    &&& outcome.error() matches Some(error) ==> problem::opt_string(stored.code) == Some(
        error.public_code().wire(),
    )
}

/// What a state store keeps of an operation that has ended: the fingerprint of its
/// request, and the record of its outcome.
pub struct KeptOperation {
    pub fingerprint: Seq<u8>,
    pub outcome: StoredOutcome,
}

impl KeptOperation {
    /// How a store that has the operation answers to a request under its name: with
    /// the record, where the request is the same, and with a conflict otherwise.
    pub open spec fn answer(self, fingerprint: Seq<u8>) -> StoreBegin {
        if fingerprint == self.fingerprint {
            StoreBegin::Replay(self.outcome)
        } else {
            StoreBegin::Conflict
        }
    }
}

/// An operation that has ended is not begun again: the same request gets the outcome
/// that was recorded, and another request under its name is a conflict.
pub proof fn law_ended_operations_are_not_begun_again(
    kept: KeptOperation,
    written: OperationOutcome,
    fingerprint: Seq<u8>,
    key: OperationKey,
    begun: Result<BeginOperation, RegistryError>,
)
    requires
        OperationOutcome::is_terminal(written.status(), written.state(), written.error()),
        kept.outcome.records(written),
        reads_answer(key, Ok(kept.answer(fingerprint)), begun),
    ensures
        fingerprint == kept.fingerprint ==> begun == Ok::<BeginOperation, RegistryError>(
            BeginOperation::Replay(written),
        ),
        fingerprint != kept.fingerprint ==> begun == Ok::<BeginOperation, RegistryError>(
            BeginOperation::Conflict,
        ),
{
    law_stored_outcomes_reload(written, kept.outcome);
    if fingerprint == kept.fingerprint {
        let outcome = begun->Ok_0->Replay_0;
        if let Some(error) = outcome.error() {
            assert(problem::opt_string(kept.outcome.code) == Some(error.public_code().wire()));
        }
        assert(outcome == written);
    }
}

/// What the state store answers to a query.
pub enum StoreStatus {
    Running,
    Completed(StoredOutcome),
    NotFound,
}

/// Where a queried operation stands.
pub enum OperationStatus {
    Running,
    Completed(OperationOutcome),
    NotFound,
    Unavailable,
}

/// What the answer of the state store to a query means.
pub open spec fn reads_status(
    answer: Result<StoreStatus, StoreFailure>,
    status: Result<OperationStatus, RegistryError>,
) -> bool {
    match answer {
        Err(_) => status matches Ok(OperationStatus::Unavailable),
        Ok(StoreStatus::Running) => status matches Ok(OperationStatus::Running),
        Ok(StoreStatus::Completed(stored)) => match stored.fault() {
            Some(fault) => status matches Err(RegistryError::Corrupt(found)) && found == fault,
            None => status matches Ok(OperationStatus::Completed(outcome)) && replays(
                stored,
                outcome,
            ),
        },
        Ok(StoreStatus::NotFound) => status matches Ok(OperationStatus::NotFound),
    }
}

/// Reads the answer of the state store to a query. A store that fails leaves
/// the status unavailable; it does not fail the query.
pub fn status(answer: Result<StoreStatus, StoreFailure>) -> (status: Result<
    OperationStatus,
    RegistryError,
>)
    ensures
        reads_status(answer, status),
{
    match answer {
        Err(_) => Ok(OperationStatus::Unavailable),
        Ok(StoreStatus::Running) => Ok(OperationStatus::Running),
        Ok(StoreStatus::Completed(stored)) => match OperationOutcome::from_stored(stored) {
            Ok(outcome) => Ok(OperationStatus::Completed(outcome)),
            Err(fault) => Err(RegistryError::Corrupt(fault)),
        },
        Ok(StoreStatus::NotFound) => Ok(OperationStatus::NotFound),
    }
}

/// What the fields of the operation header say.
pub open spec fn requested_id(values: Seq<Option<String>>) -> Result<Option<u128>, Seq<char>> {
    if values.len() == 0 {
        Ok(None)
    } else if values.len() > 1 {
        Err("The x-dufs-operation-id header must appear exactly once"@)
    } else if values[0] is Some && identifiers::canonical_id(values[0]->0@) is Some {
        Ok(identifiers::canonical_id(values[0]->0@))
    } else {
        Err("The x-dufs-operation-id header must be a canonical UUID"@)
    }
}

/// Reads the operation header from its field values; a value that is not text
/// is `None`.
pub fn parse_operation_id(values: &Vec<Option<String>>) -> (id: Result<Option<u128>, &'static str>)
    ensures
        match id {
            Ok(id) => requested_id(values@) == Ok::<Option<u128>, Seq<char>>(id),
            Err(message) => requested_id(values@) == Err::<Option<u128>, Seq<char>>(message@),
        },
{
    if values.len() == 0 {
        return Ok(None);
    }
    if values.len() > 1 {
        return Err("The x-dufs-operation-id header must appear exactly once");
    }
    if let Some(value) = &values[0] {
        if let Some(id) = parse_canonical_operation_id(value.as_str()) {
            return Ok(Some(id));
        }
    }
    Err("The x-dufs-operation-id header must be a canonical UUID")
}

/// The body that tells of a running operation.
pub struct OperationBody {
    pub operation_id: String,
    pub state: OperationPublicState,
    pub http_status: Option<u16>,
    pub code: Option<ErrorCode>,
    pub detail: Option<&'static str>,
}

/// The body that answers a query for a job.
pub struct JobBody {
    pub job_id: String,
    pub state: OperationPublicState,
    pub http_status: Option<u16>,
    pub code: Option<ErrorCode>,
    pub detail: Option<&'static str>,
}

#[verifier::ext_equal]
pub struct StateBodyView {
    pub id: Seq<char>,
    pub state: OperationPublicState,
    pub http_status: Option<u16>,
    pub code: Option<ErrorCode>,
    pub detail: Option<Seq<char>>,
}

impl OperationBody {
    pub open spec fn view(self) -> StateBodyView {
        StateBodyView {
            id: self.operation_id@,
            state: self.state,
            http_status: self.http_status,
            code: self.code,
            detail: problem::opt_text(self.detail),
        }
    }
}

impl JobBody {
    pub open spec fn view(self) -> StateBodyView {
        StateBodyView {
            id: self.job_id@,
            state: self.state,
            http_status: self.http_status,
            code: self.code,
            detail: problem::opt_text(self.detail),
        }
    }
}

/// A response that names an operation and its state.
pub open spec fn with_operation_headers(
    response: ResponseView,
    id: u128,
    state: OperationPublicState,
) -> ResponseView {
    response.with_header(OPERATION_ID_HEADER@, identifiers::hyphenated(id)).with_header(
        OPERATION_STATE_HEADER@,
        state.wire(),
    )
}

pub fn set_operation_headers(response: &mut Response, id: u128, state: OperationPublicState)
    ensures
        final(response)@ == with_operation_headers(old(response)@, id, state),
{
    response.set_header(OPERATION_ID_HEADER, hyphenated_text(id).as_str());
    response.set_header(OPERATION_STATE_HEADER, state.wire_name());
}

/// A response that answers for an operation with an error.
pub open spec fn operation_problem(
    response: ResponseView,
    id: u128,
    state: OperationPublicState,
    http_status: Option<u16>,
    error: ApiErrorView,
) -> ResponseView {
    problem::problem_response(
        with_operation_headers(response, id, state),
        error.with_operation(identifiers::hyphenated(id), state, http_status),
    )
}

fn apply_operation_problem(
    response: &mut Response,
    id: u128,
    state: OperationPublicState,
    http_status: Option<u16>,
    error: ApiError,
)
    ensures
        final(response)@ == operation_problem(old(response)@, id, state, http_status, error@),
{
    set_operation_headers(response, id, state);
    let context = OperationProblemContext::new(hyphenated_text(id), state, http_status);
    render_problem(response, &error.with_operation(context));
}

/// The answer of an ended operation.
pub open spec fn outcome_response(
    response: ResponseView,
    id: u128,
    outcome: OperationOutcome,
    replayed: bool,
) -> ResponseView {
    let named = with_operation_headers(response, id, outcome.state());
    let marked = if replayed {
        named.with_header("x-dufs-operation-replayed"@, "true"@)
    } else {
        named
    };
    match outcome.error() {
        Some(error) => problem::problem_response(
            marked,
            ApiErrorView::new(
                outcome.status(),
                error.public_code(),
                error.public_detail(),
            ).with_recovery(error.advice()).with_operation(
                identifiers::hyphenated(id),
                outcome.state(),
                Some(outcome.status()),
            ),
        ),
        None => marked.with_status(outcome.status()),
    }
}

/// Answers for an ended operation.
pub fn apply_operation_outcome(
    response: &mut Response,
    id: u128,
    outcome: OperationOutcome,
    replayed: bool,
)
    ensures
        final(response)@ == outcome_response(old(response)@, id, outcome, replayed),
{
    proof {
        use_type_invariant(&outcome);
    }
    set_operation_headers(response, id, outcome.state);
    if replayed {
        response.set_header("x-dufs-operation-replayed", "true");
    }
    match outcome.error {
        Some(error) => {
            let context = OperationProblemContext::new(
                hyphenated_text(id),
                outcome.state,
                Some(outcome.status),
            );
            let problem = ApiError::new(outcome.status, error.code(), error.detail()).with_recovery(
                error.recovery(),
            ).with_operation(context);
            render_problem(response, &problem);
        },
        None => {
            response.status = outcome.status;
        },
    }
}

/// The answer to a request whose operation still runs.
pub open spec fn running_response(response: ResponseView, id: u128) -> ResponseView {
    with_operation_headers(
        response.with_status(202),
        id,
        OperationPublicState::Running,
    ).with_header("retry-after"@, "1"@).with_header(
        "content-type"@,
        "application/json"@,
    ).with_body(
        BodyView::Operation(
            StateBodyView {
                id: identifiers::hyphenated(id),
                state: OperationPublicState::Running,
                http_status: None,
                code: Some(ErrorCode::OperationInProgress),
                detail: Some("Operation is still running"@),
            },
        ),
    )
}

pub fn apply_running(response: &mut Response, id: u128)
    ensures
        final(response)@ == running_response(old(response)@, id),
{
    response.status = 202;
    set_operation_headers(response, id, OperationPublicState::Running);
    response.set_header("retry-after", "1");
    response.set_header("content-type", "application/json");
    response.body = Body::Operation(
        OperationBody {
            operation_id: hyphenated_text(id),
            state: OperationPublicState::Running,
            http_status: None,
            code: Some(ErrorCode::OperationInProgress),
            detail: Some("Operation is still running"),
        },
    );
}

/// Answers a request that reuses the identifier of a different request.
pub fn apply_conflict(response: &mut Response, id: u128)
    ensures
        final(response)@ == conflict_response(old(response)@, id),
{
    let error = ApiError::new(
        409,
        ErrorCode::OperationIdConflict,
        "Operation ID was already used for a different request",
    );
    apply_operation_problem(response, id, OperationPublicState::Rejected, None, error);
}

pub open spec fn conflict_response(response: ResponseView, id: u128) -> ResponseView {
    operation_problem(
        response,
        id,
        OperationPublicState::Rejected,
        None,
        ApiErrorView::new(
            409,
            ErrorCode::OperationIdConflict,
            "Operation ID was already used for a different request"@,
        ),
    )
}

/// Answers a request that the registry has no room for. Capacity is checked
/// before anything is recorded or done, so this is a known rejection.
pub fn apply_registry_full(response: &mut Response, id: u128)
    ensures
        final(response)@ == registry_full_response(old(response)@, id),
{
    let error = ApiError::new(
        503,
        ErrorCode::OperationRegistryFull,
        "Operation registry is temporarily full",
    ).with_recovery(RecoveryAdvice::RetryAfterSeconds(1));
    apply_operation_problem(response, id, OperationPublicState::Rejected, None, error);
}

pub open spec fn registry_full_response(response: ResponseView, id: u128) -> ResponseView {
    operation_problem(
        response,
        id,
        OperationPublicState::Rejected,
        None,
        ApiErrorView::new(
            503,
            ErrorCode::OperationRegistryFull,
            "Operation registry is temporarily full"@,
        ).with_recovery(RecoveryAdvice::RetryAfterSeconds(1)),
    )
}

/// Answers a request that the state store did not accept. The operation did
/// not start and can be retried under the same identifier.
pub fn apply_registry_unavailable(response: &mut Response, id: u128)
    ensures
        final(response)@ == registry_unavailable_response(old(response)@, id),
{
    let error = ApiError::new(
        503,
        ErrorCode::OperationStoreUnavailable,
        "Operation state store is temporarily unavailable",
    ).with_recovery(RecoveryAdvice::RetryAfterSeconds(1));
    apply_operation_problem(response, id, OperationPublicState::Rejected, None, error);
}

pub open spec fn registry_unavailable_response(response: ResponseView, id: u128) -> ResponseView {
    operation_problem(
        response,
        id,
        OperationPublicState::Rejected,
        None,
        ApiErrorView::new(
            503,
            ErrorCode::OperationStoreUnavailable,
            "Operation state store is temporarily unavailable"@,
        ).with_recovery(RecoveryAdvice::RetryAfterSeconds(1)),
    )
}

/// The answer to a query for a job.
pub open spec fn status_response(
    response: ResponseView,
    id: u128,
    status: OperationStatus,
) -> ResponseView {
    match status {
        OperationStatus::Running => job_response(
            response,
            StateBodyView {
                id: identifiers::hyphenated(id),
                state: OperationPublicState::Running,
                http_status: None,
                code: None,
                detail: None,
            },
            id,
        ),
        OperationStatus::Completed(outcome) => job_response(
            response,
            StateBodyView {
                id: identifiers::hyphenated(id),
                state: outcome.state(),
                http_status: Some(outcome.status()),
                code: match outcome.error() {
                    Some(error) => Some(error.public_code()),
                    None => None,
                },
                detail: match outcome.error() {
                    Some(error) => Some(error.public_detail()),
                    None => None,
                },
            },
            id,
        ),
        OperationStatus::NotFound => operation_problem(
            response,
            id,
            OperationPublicState::Unknown,
            None,
            ApiErrorView::new(404, ErrorCode::JobNotFound, "Job not found"@).with_recovery(
                RecoveryAdvice::RefreshTarget,
            ),
        ),
        OperationStatus::Unavailable => operation_problem(
            response,
            id,
            OperationPublicState::Unknown,
            None,
            ApiErrorView::new(
                503,
                ErrorCode::JobStoreUnavailable,
                "Job state store is temporarily unavailable"@,
            ).with_recovery(RecoveryAdvice::RetryAfterSeconds(1)),
        ),
    }
}

pub open spec fn job_response(response: ResponseView, body: StateBodyView, id: u128) -> ResponseView {
    with_operation_headers(response.with_status(200), id, body.state).with_header(
        "content-type"@,
        "application/json"@,
    ).with_body(BodyView::Job(body))
}

/// Answers a query for a job.
pub fn apply_status(response: &mut Response, id: u128, status: OperationStatus)
    ensures
        final(response)@ == status_response(old(response)@, id, status),
{
    match status {
        OperationStatus::Running => {
            response.status = 200;
            set_operation_headers(response, id, OperationPublicState::Running);
            response.set_header("content-type", "application/json");
            response.body = Body::Job(
                JobBody {
                    job_id: hyphenated_text(id),
                    state: OperationPublicState::Running,
                    http_status: None,
                    code: None,
                    detail: None,
                },
            );
        },
        OperationStatus::Completed(outcome) => {
            response.status = 200;
            set_operation_headers(response, id, outcome.state);
            response.set_header("content-type", "application/json");
            let (code, detail): (Option<ErrorCode>, Option<&'static str>) = match outcome.error {
                Some(error) => (Some(error.code()), Some(error.detail())),
                None => (None, None),
            };
            response.body = Body::Job(
                JobBody {
                    job_id: hyphenated_text(id),
                    state: outcome.state,
                    http_status: Some(outcome.status),
                    code,
                    detail,
                },
            );
        },
        OperationStatus::NotFound => {
            let error = ApiError::new(404, ErrorCode::JobNotFound, "Job not found").with_recovery(
                RecoveryAdvice::RefreshTarget,
            );
            apply_operation_problem(response, id, OperationPublicState::Unknown, None, error);
        },
        OperationStatus::Unavailable => {
            let error = ApiError::new(
                503,
                ErrorCode::JobStoreUnavailable,
                "Job state store is temporarily unavailable",
            ).with_recovery(RecoveryAdvice::RetryAfterSeconds(1));
            apply_operation_problem(response, id, OperationPublicState::Unknown, None, error);
        },
    }
}

/// Answers a request whose operation header is wrong.
pub fn apply_invalid_id(response: &mut Response, message: &str)
    ensures
        final(response)@ == problem::problem_response(
            old(response)@,
            ApiErrorView::new(400, ErrorCode::InvalidOperationId, message@),
        ),
{
    render_problem(response, &ApiError::new(400, ErrorCode::InvalidOperationId, message));
}

/// Answers a query whose job identifier is wrong.
pub fn apply_invalid_job_id(response: &mut Response, detail: &str)
    ensures
        final(response)@ == problem::problem_response(
            old(response)@,
            ApiErrorView::new(400, ErrorCode::InvalidJobId, detail@),
        ),
{
    render_problem(response, &ApiError::new(400, ErrorCode::InvalidJobId, detail));
}

/// Answers for an operation whose outcome is unknown: the client queries the
/// job, it does not repeat the request.
pub fn apply_unknown(
    response: &mut Response,
    id: u128,
    status: u16,
    code: ErrorCode,
    message: &str,
)
    requires
        is_http_status(status),
    ensures
        final(response)@ == operation_problem(
            old(response)@,
            id,
            OperationPublicState::Unknown,
            None,
            ApiErrorView::new(status, code, message@).with_recovery(RecoveryAdvice::QueryJob),
        ),
{
    let error = ApiError::new(status, code, message).with_recovery(RecoveryAdvice::QueryJob);
    apply_operation_problem(response, id, OperationPublicState::Unknown, None, error);
}

/// Each failure of an operation has the public code of its name.
pub proof fn law_failures_have_their_codes(error: TrackedOperationError)
    ensures
        error.public_code() == (match error {
            TrackedOperationError::InvalidJson => ErrorCode::InvalidJson,
            TrackedOperationError::InvalidPath => ErrorCode::InvalidPath,
            TrackedOperationError::PathExists => ErrorCode::PathExists,
            TrackedOperationError::InvalidSourcePath => ErrorCode::InvalidSourcePath,
            TrackedOperationError::InvalidDestinationPath => ErrorCode::InvalidDestinationPath,
            TrackedOperationError::SourceEqualsDestination => ErrorCode::SourceEqualsDestination,
            TrackedOperationError::InvalidMovePath => ErrorCode::InvalidMovePath,
            TrackedOperationError::InvalidRenameName => ErrorCode::InvalidRenameName,
            TrackedOperationError::InvalidRenamePath => ErrorCode::InvalidRenamePath,
            TrackedOperationError::SourceNotFound => ErrorCode::SourceNotFound,
            TrackedOperationError::SourceRevisionRequired => ErrorCode::SourceRevisionRequired,
            TrackedOperationError::InvalidSourceRevision => ErrorCode::InvalidSourceRevision,
            TrackedOperationError::SourceChanged => ErrorCode::SourceChanged,
            TrackedOperationError::DirectoryIntoItself => ErrorCode::DirectoryIntoItself,
            TrackedOperationError::DestinationExists => ErrorCode::DestinationExists,
            TrackedOperationError::DestinationRevisionRequired => ErrorCode::DestinationRevisionRequired,
            TrackedOperationError::InvalidDestinationRevision => ErrorCode::InvalidDestinationRevision,
            TrackedOperationError::DestinationChanged => ErrorCode::DestinationChanged,
            TrackedOperationError::DestinationDirectoryNotFound => ErrorCode::DestinationDirectoryNotFound,
            TrackedOperationError::DestinationNotDirectory => ErrorCode::DestinationNotDirectory,
            TrackedOperationError::DirectoryOverwriteForbidden => ErrorCode::DirectoryOverwriteForbidden,
            TrackedOperationError::MkdirStateConflict => ErrorCode::MkdirStateConflict,
            TrackedOperationError::MoveStateConflict => ErrorCode::MoveStateConflict,
            TrackedOperationError::RenameStateConflict => ErrorCode::RenameStateConflict,
            TrackedOperationError::TargetNotFound => ErrorCode::TargetNotFound,
            TrackedOperationError::DeleteStateConflict => ErrorCode::DeleteStateConflict,
            TrackedOperationError::PurgeBacklogFull => ErrorCode::PurgeBacklogFull,
            TrackedOperationError::PurgeStateUnavailable => ErrorCode::PurgeStateUnavailable,
            TrackedOperationError::DeleteTargetChanged => ErrorCode::DeleteTargetChanged,
            TrackedOperationError::DeleteNotCommitted => ErrorCode::DeleteNotCommitted,
            TrackedOperationError::OutcomeUncertain => ErrorCode::OutcomeUncertain,
        }),
        error.advice() == RecoveryAdvice::QueryJob <==> error
            == TrackedOperationError::OutcomeUncertain,
        error.advice() == RecoveryAdvice::QueryJob || error.advice() == RecoveryAdvice::NoAdvice,
{
}

/// A request names one operation by its canonical identifier, or none. An identifier
/// that is not canonical, or that stands there twice, is refused.
pub proof fn law_requests_name_one_operation(values: Seq<Option<String>>)
    ensures
        requested_id(values) == Ok::<Option<u128>, Seq<char>>(None) <==> values.len() == 0,
        (requested_id(values) matches Ok(Some(_))) <==> values.len() == 1 && values[0] is Some
            && identifiers::canonical_id(values[0]->0@) is Some,
        requested_id(values) matches Ok(Some(id)) ==> identifiers::canonical_id(values[0]->0@)
            == Some(id),
        requested_id(values) is Err <==> values.len() > 1 || (values.len() == 1 && (
        values[0] is None || identifiers::canonical_id(values[0]->0@) is None)),
{
}

/// What the state store says of a new operation is what becomes of it: it is begun only
/// where the store started it, under the lease that the store gave; it is replayed only
/// from a sound record; and it is unavailable only where the store never took it.
pub proof fn law_answers_of_the_store_are_read(
    key: OperationKey,
    answer: Result<StoreBegin, StoreFailure>,
    begun: Result<BeginOperation, RegistryError>,
)
    requires
        reads_answer(key, answer, begun),
    ensures
        begun matches Ok(BeginOperation::Started(guard)) ==> guard.key() == key
            && !guard.completed() && answer == Ok::<StoreBegin, StoreFailure>(
            StoreBegin::Started { lease: guard.lease() },
        ),
        (begun matches Ok(BeginOperation::Running)) <==> answer == Ok::<StoreBegin, StoreFailure>(
            StoreBegin::Running,
        ),
        (begun matches Ok(BeginOperation::Conflict)) <==> answer == Ok::<StoreBegin, StoreFailure>(
            StoreBegin::Conflict,
        ),
        (begun matches Ok(BeginOperation::Full)) <==> answer == Ok::<StoreBegin, StoreFailure>(
            StoreBegin::Full,
        ),
        (begun matches Ok(BeginOperation::Unavailable)) <==> answer == Err::<
            StoreBegin,
            StoreFailure,
        >(StoreFailure::NotDispatched),
        begun matches Ok(BeginOperation::Replay(outcome)) ==> (answer matches Ok(
            StoreBegin::Replay(stored),
        ) && stored.status == outcome.status() && stored.fault() is None),
        (begun matches Err(RegistryError::Store)) <==> answer == Err::<StoreBegin, StoreFailure>(
            StoreFailure::Failed,
        ),
        answer matches Ok(StoreBegin::Started { lease }) ==> begun matches Ok(
            BeginOperation::Started(_),
        ),
{
}

/// What the state store says of a queried operation is where it stands.
pub proof fn law_queried_operations_stand_where_they_stand(
    answer: Result<StoreStatus, StoreFailure>,
    status: Result<OperationStatus, RegistryError>,
)
    requires
        reads_status(answer, status),
    ensures
        (status matches Ok(OperationStatus::Running)) <==> answer == Ok::<
            StoreStatus,
            StoreFailure,
        >(StoreStatus::Running),
        (status matches Ok(OperationStatus::NotFound)) <==> answer == Ok::<
            StoreStatus,
            StoreFailure,
        >(StoreStatus::NotFound),
        (status matches Ok(OperationStatus::Unavailable)) <==> answer is Err,
        status matches Ok(OperationStatus::Completed(outcome)) ==> (answer matches Ok(
            StoreStatus::Completed(stored),
        ) && stored.status == outcome.status() && stored.state.public() == outcome.state()
            && stored.fault() is None),
        (status matches Err(_)) ==> (answer matches Ok(StoreStatus::Completed(stored))
            && stored.fault() is Some),
{
}

/// A record of an outcome is sound where its status is one of HTTP, a success has no
/// error and a success status, and any other outcome has an error that is known and
/// another status; what is wrong with a record is told.
pub proof fn law_sound_records(stored: StoredOutcome)
    ensures
        stored.fault() is None <==> {
            &&& 100 <= stored.status <= 999
            &&& if stored.state == StoredTerminalState::Succeeded {
                stored.code is None && 200 <= stored.status <= 299
            } else {
                stored.code is Some && names_a_failure(stored.code->0@) && !(200 <= stored.status
                    <= 299)
            }
        },
        match stored.fault() {
            None => true,
            Some(StoreCorruption::InvalidStatus) => !(100 <= stored.status <= 999),
            Some(StoreCorruption::IncompleteOutcome) => (stored.state
                == StoredTerminalState::Succeeded) != (stored.code is None),
            Some(StoreCorruption::UnknownError) => stored.code is Some && !names_a_failure(
                stored.code->0@,
            ),
            Some(StoreCorruption::SuccessWithoutSuccessStatus) => stored.state
                == StoredTerminalState::Succeeded && !(200 <= stored.status <= 299),
            Some(StoreCorruption::FailureWithSuccessStatus) => stored.state
                != StoredTerminalState::Succeeded && 200 <= stored.status <= 299,
        },
        stored.state.public() == (match stored.state {
            StoredTerminalState::Succeeded => OperationPublicState::Succeeded,
            StoredTerminalState::Failed => OperationPublicState::Failed,
            StoredTerminalState::Unknown => OperationPublicState::Unknown,
        }),
{
}

pub(crate) proof fn lemma_operation_fields_differ()
    ensures
        "x-dufs-operation-id"@ != "x-dufs-operation-state"@,
        "x-dufs-operation-id"@ != "x-dufs-operation-replayed"@,
        "x-dufs-operation-id"@ != "content-type"@,
        "x-dufs-operation-id"@ != "retry-after"@,
        "x-dufs-operation-state"@ != "x-dufs-operation-replayed"@,
        "x-dufs-operation-state"@ != "content-type"@,
        "x-dufs-operation-state"@ != "retry-after"@,
        "x-dufs-operation-replayed"@ != "content-type"@,
        "x-dufs-operation-replayed"@ != "retry-after"@,
        "content-type"@ != "retry-after"@,
{
    reveal_strlit("x-dufs-operation-id");
    reveal_strlit("x-dufs-operation-state");
    reveal_strlit("x-dufs-operation-replayed");
    reveal_strlit("content-type");
    reveal_strlit("retry-after");
    assert("x-dufs-operation-id"@.len() == 19);
    assert("x-dufs-operation-state"@.len() == 22);
    assert("x-dufs-operation-replayed"@.len() == 25);
    assert("content-type"@.len() == 12);
    assert("retry-after"@.len() == 11);
}

/// An operation that has ended is answered with its status and its state, under its
/// identifier, as a problem exactly where it has an error, and marked as a repetition
/// exactly where it is one.
pub proof fn law_ended_operations_are_answered(
    response: ResponseView,
    id: u128,
    outcome: OperationOutcome,
    replayed: bool,
)
    requires
        !response.headers.contains_key("x-dufs-operation-replayed"@),
    ensures
        ({
            let answered = outcome_response(response, id, outcome, replayed);
            &&& answered.status == outcome.status()
            &&& answered.headers["x-dufs-operation-id"@] == identifiers::hyphenated(id)
            &&& answered.headers["x-dufs-operation-state"@] == outcome.state().wire()
            &&& answered.headers.contains_key("x-dufs-operation-replayed"@) <==> replayed
            &&& outcome.error() is None ==> answered.body == response.body
            &&& outcome.error() matches Some(error) ==> (answered.body matches BodyView::Problem(
                document,
            ) && document.code == error.public_code() && document.status == outcome.status()
                && document.operation_id == Some(identifiers::hyphenated(id)) && document.state
                == Some(outcome.state().wire()) && document.http_status == Some(outcome.status()))
        }),
{
    lemma_operation_fields_differ();
}

/// A request whose operation still runs is told so and to come back; one that reuses an
/// identifier, that the registry has no room for, or that the store did not take is
/// rejected with its own status, and may come back where there was no room.
pub proof fn law_unbegun_operations_are_answered(response: ResponseView, id: u128)
    ensures
        running_response(response, id).status == 202,
        running_response(response, id).headers["x-dufs-operation-state"@] == "running"@,
        running_response(response, id).headers["x-dufs-operation-id"@] == identifiers::hyphenated(
            id,
        ),
        running_response(response, id).headers["retry-after"@] == "1"@,
        conflict_response(response, id).status == 409,
        registry_full_response(response, id).status == 503,
        registry_unavailable_response(response, id).status == 503,
        conflict_response(response, id).headers["x-dufs-operation-state"@] == "rejected"@,
        registry_full_response(response, id).headers["x-dufs-operation-state"@] == "rejected"@,
        registry_unavailable_response(response, id).headers["x-dufs-operation-state"@]
            == "rejected"@,
        registry_full_response(response, id).body matches BodyView::Problem(document)
            && document.code == ErrorCode::OperationRegistryFull && document.retry_after == Some(
            1u64,
        ),
        registry_unavailable_response(response, id).body matches BodyView::Problem(document)
            && document.code == ErrorCode::OperationStoreUnavailable && document.retry_after
            == Some(1u64),
        conflict_response(response, id).body matches BodyView::Problem(document) && document.code
            == ErrorCode::OperationIdConflict && document.retry_after is None,
{
    lemma_operation_fields_differ();
}

/// A query is answered with the state of the operation: with its outcome where it has
/// ended, without one while it runs, and as a problem where it is not known or the store
/// cannot tell.
pub proof fn law_queries_are_answered(response: ResponseView, id: u128, status: OperationStatus)
    ensures
        match status {
            OperationStatus::Running => {
                &&& status_response(response, id, status).status == 200
                &&& status_response(response, id, status).body matches BodyView::Job(body)
                    && body.id == identifiers::hyphenated(id) && body.state
                    == OperationPublicState::Running && body.http_status is None
                    && body.code is None
            },
            OperationStatus::Completed(outcome) => {
                &&& status_response(response, id, status).status == 200
                &&& status_response(response, id, status).body matches BodyView::Job(body)
                    && body.id == identifiers::hyphenated(id) && body.state == outcome.state()
                    && body.http_status == Some(outcome.status()) && (outcome.error() is None
                    <==> body.code is None) && (outcome.error() is Some ==> body.code == Some(
                    outcome.error()->0.public_code(),
                ))
            },
            OperationStatus::NotFound => {
                &&& status_response(response, id, status).status == 404
                &&& status_response(response, id, status).body matches BodyView::Problem(document)
                    && document.code == ErrorCode::JobNotFound
            },
            OperationStatus::Unavailable => {
                &&& status_response(response, id, status).status == 503
                &&& status_response(response, id, status).body matches BodyView::Problem(document)
                    && document.code == ErrorCode::JobStoreUnavailable
            },
        },
{
}

/// An operation that has ended succeeded with a success status and without an error, or
/// else with another status and an error. One that runs or was rejected has not ended.
pub proof fn law_ended_operations_have_matching_parts(
    status: u16,
    error: Option<TrackedOperationError>,
)
    ensures
        OperationOutcome::is_terminal(status, OperationPublicState::Succeeded, error) <==> 200
            <= status <= 299 && error is None,
        OperationOutcome::is_terminal(status, OperationPublicState::Failed, error) <==> (100
            <= status < 200 || 300 <= status <= 999) && error is Some,
        OperationOutcome::is_terminal(status, OperationPublicState::Unknown, error) <==> (100
            <= status < 200 || 300 <= status <= 999) && error is Some,
        !OperationOutcome::is_terminal(status, OperationPublicState::Running, error),
        !OperationOutcome::is_terminal(status, OperationPublicState::Rejected, error),
{
}

} // verus!
