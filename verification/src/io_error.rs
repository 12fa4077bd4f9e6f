//! Failures of the filesystem, as far as decisions depend on them.
use vstd::prelude::*;

verus! {

/// What kind of failure the system reported.
#[derive(Clone, Copy, Debug, Eq, PartialEq, Structural)]
pub enum IoErrorKind {
    NotFound,
    PermissionDenied,
    ConnectionRefused,
    ConnectionReset,
    HostUnreachable,
    NetworkUnreachable,
    ConnectionAborted,
    NotConnected,
    AddrInUse,
    AddrNotAvailable,
    NetworkDown,
    BrokenPipe,
    AlreadyExists,
    WouldBlock,
    NotADirectory,
    IsADirectory,
    DirectoryNotEmpty,
    ReadOnlyFilesystem,
    FilesystemLoop,
    StaleNetworkFileHandle,
    InvalidInput,
    InvalidData,
    TimedOut,
    WriteZero,
    StorageFull,
    NotSeekable,
    QuotaExceeded,
    FileTooLarge,
    ResourceBusy,
    ExecutableFileBusy,
    Deadlock,
    CrossesDevices,
    TooManyLinks,
    InvalidFilename,
    ArgumentListTooLong,
    Interrupted,
    Unsupported,
    UnexpectedEof,
    OutOfMemory,
    InProgress,
    Other,
    Uncategorized,
}

impl IoErrorKind {
    pub open spec fn shown(self) -> Seq<char> {
        match self {
            IoErrorKind::NotFound => "NotFound"@,
            IoErrorKind::PermissionDenied => "PermissionDenied"@,
            IoErrorKind::ConnectionRefused => "ConnectionRefused"@,
            IoErrorKind::ConnectionReset => "ConnectionReset"@,
            IoErrorKind::HostUnreachable => "HostUnreachable"@,
            IoErrorKind::NetworkUnreachable => "NetworkUnreachable"@,
            IoErrorKind::ConnectionAborted => "ConnectionAborted"@,
            IoErrorKind::NotConnected => "NotConnected"@,
            IoErrorKind::AddrInUse => "AddrInUse"@,
            IoErrorKind::AddrNotAvailable => "AddrNotAvailable"@,
            IoErrorKind::NetworkDown => "NetworkDown"@,
            IoErrorKind::BrokenPipe => "BrokenPipe"@,
            IoErrorKind::AlreadyExists => "AlreadyExists"@,
            IoErrorKind::WouldBlock => "WouldBlock"@,
            IoErrorKind::NotADirectory => "NotADirectory"@,
            IoErrorKind::IsADirectory => "IsADirectory"@,
            IoErrorKind::DirectoryNotEmpty => "DirectoryNotEmpty"@,
            IoErrorKind::ReadOnlyFilesystem => "ReadOnlyFilesystem"@,
            IoErrorKind::FilesystemLoop => "FilesystemLoop"@,
            IoErrorKind::StaleNetworkFileHandle => "StaleNetworkFileHandle"@,
            IoErrorKind::InvalidInput => "InvalidInput"@,
            IoErrorKind::InvalidData => "InvalidData"@,
            IoErrorKind::TimedOut => "TimedOut"@,
            IoErrorKind::WriteZero => "WriteZero"@,
            IoErrorKind::StorageFull => "StorageFull"@,
            IoErrorKind::NotSeekable => "NotSeekable"@,
            IoErrorKind::QuotaExceeded => "QuotaExceeded"@,
            IoErrorKind::FileTooLarge => "FileTooLarge"@,
            IoErrorKind::ResourceBusy => "ResourceBusy"@,
            IoErrorKind::ExecutableFileBusy => "ExecutableFileBusy"@,
            IoErrorKind::Deadlock => "Deadlock"@,
            IoErrorKind::CrossesDevices => "CrossesDevices"@,
            IoErrorKind::TooManyLinks => "TooManyLinks"@,
            IoErrorKind::InvalidFilename => "InvalidFilename"@,
            IoErrorKind::ArgumentListTooLong => "ArgumentListTooLong"@,
            IoErrorKind::Interrupted => "Interrupted"@,
            IoErrorKind::Unsupported => "Unsupported"@,
            IoErrorKind::UnexpectedEof => "UnexpectedEof"@,
            IoErrorKind::OutOfMemory => "OutOfMemory"@,
            IoErrorKind::InProgress => "InProgress"@,
            IoErrorKind::Other => "Other"@,
            IoErrorKind::Uncategorized => "Uncategorized"@,
        }
    }

    /// The name of the kind in log lines.
    pub fn name(self) -> (name: &'static str)
        ensures
            name@ == self.shown(),
    {
        match self {
            IoErrorKind::NotFound => "NotFound",
            IoErrorKind::PermissionDenied => "PermissionDenied",
            IoErrorKind::ConnectionRefused => "ConnectionRefused",
            IoErrorKind::ConnectionReset => "ConnectionReset",
            IoErrorKind::HostUnreachable => "HostUnreachable",
            IoErrorKind::NetworkUnreachable => "NetworkUnreachable",
            IoErrorKind::ConnectionAborted => "ConnectionAborted",
            IoErrorKind::NotConnected => "NotConnected",
            IoErrorKind::AddrInUse => "AddrInUse",
            IoErrorKind::AddrNotAvailable => "AddrNotAvailable",
            IoErrorKind::NetworkDown => "NetworkDown",
            IoErrorKind::BrokenPipe => "BrokenPipe",
            IoErrorKind::AlreadyExists => "AlreadyExists",
            IoErrorKind::WouldBlock => "WouldBlock",
            IoErrorKind::NotADirectory => "NotADirectory",
            IoErrorKind::IsADirectory => "IsADirectory",
            IoErrorKind::DirectoryNotEmpty => "DirectoryNotEmpty",
            IoErrorKind::ReadOnlyFilesystem => "ReadOnlyFilesystem",
            IoErrorKind::FilesystemLoop => "FilesystemLoop",
            IoErrorKind::StaleNetworkFileHandle => "StaleNetworkFileHandle",
            IoErrorKind::InvalidInput => "InvalidInput",
            IoErrorKind::InvalidData => "InvalidData",
            IoErrorKind::TimedOut => "TimedOut",
            IoErrorKind::WriteZero => "WriteZero",
            IoErrorKind::StorageFull => "StorageFull",
            IoErrorKind::NotSeekable => "NotSeekable",
            IoErrorKind::QuotaExceeded => "QuotaExceeded",
            IoErrorKind::FileTooLarge => "FileTooLarge",
            IoErrorKind::ResourceBusy => "ResourceBusy",
            IoErrorKind::ExecutableFileBusy => "ExecutableFileBusy",
            IoErrorKind::Deadlock => "Deadlock",
            IoErrorKind::CrossesDevices => "CrossesDevices",
            IoErrorKind::TooManyLinks => "TooManyLinks",
            IoErrorKind::InvalidFilename => "InvalidFilename",
            IoErrorKind::ArgumentListTooLong => "ArgumentListTooLong",
            IoErrorKind::Interrupted => "Interrupted",
            IoErrorKind::Unsupported => "Unsupported",
            IoErrorKind::UnexpectedEof => "UnexpectedEof",
            IoErrorKind::OutOfMemory => "OutOfMemory",
            IoErrorKind::InProgress => "InProgress",
            IoErrorKind::Other => "Other",
            IoErrorKind::Uncategorized => "Uncategorized",
        }
    }
}

/// The Linux error number of a chain of symbolic links without an end.
pub const ERROR_LOOP: i32 = 40;

/// The Linux error number of a path that leaves the root.
pub const ERROR_CROSS_DEVICE: i32 = 18;

/// The Linux error number of a name that is too long.
pub const ERROR_NAME_TOO_LONG: i32 = 36;

/// A failure: its kind, and the number that the kernel gave it, if it came from
/// the kernel.
#[derive(Clone, Copy, Debug, Eq, PartialEq, Structural)]
pub struct IoFailure {
    pub kind: IoErrorKind,
    pub number: Option<i32>,
}

impl IoFailure {
    /// A failure of this kind that did not come from the kernel.
    pub fn of_kind(kind: IoErrorKind) -> (failure: IoFailure)
        ensures
            failure == (IoFailure { kind, number: None }),
    {
        IoFailure { kind, number: None }
    }

    pub open spec fn missing(self) -> bool {
        self.kind == IoErrorKind::NotFound || self.kind == IoErrorKind::NotADirectory
    }

    /// A name on the way does not exist or is no directory.
    pub fn is_missing(&self) -> (result: bool)
        ensures
            result == self.missing(),
    {
        match self.kind {
            IoErrorKind::NotFound | IoErrorKind::NotADirectory => true,
            _ => false,
        }
    }

    pub open spec fn loops(self) -> bool {
        self.number == Some(ERROR_LOOP)
    }

    pub fn is_loop(&self) -> (result: bool)
        ensures
            result == self.loops(),
    {
        match self.number {
            Some(number) => number == ERROR_LOOP,
            None => false,
        }
    }

    pub open spec fn escapes(self) -> bool {
        self.number == Some(ERROR_CROSS_DEVICE)
    }

    /// The path would have left the root.
    pub fn is_escape(&self) -> (result: bool)
        ensures
            result == self.escapes(),
    {
        match self.number {
            Some(number) => number == ERROR_CROSS_DEVICE,
            None => false,
        }
    }

    pub open spec fn unusable_path(self) -> bool {
        self.number == Some(ERROR_LOOP) || self.number == Some(ERROR_NAME_TOO_LONG)
    }

    /// The path itself is at fault, not the state of the filesystem.
    pub fn is_invalid_preflight_path_error(&self) -> (result: bool)
        ensures
            result == self.unusable_path(),
    {
        match self.number {
            Some(number) => number == ERROR_LOOP || number == ERROR_NAME_TOO_LONG,
            None => false,
        }
    }

    pub open spec fn unresolved(self) -> bool {
        self.missing() || self.kind == IoErrorKind::PermissionDenied
    }

    /// The path cannot be resolved further, for an ordinary reason.
    pub fn unresolved_path_error(&self) -> (result: bool)
        ensures
            result == self.unresolved(),
    {
        match self.kind {
            IoErrorKind::NotFound | IoErrorKind::NotADirectory | IoErrorKind::PermissionDenied => true,
            _ => false,
        }
    }
}

/// What a failure means follows from its kind or its number: a name that is missing, a
/// loop of links, a way out of the root, a path that cannot be used at all, and a path
/// that cannot be followed further.
pub proof fn law_failures_are_told_apart(failure: IoFailure)
    ensures
        failure.missing() <==> (failure.kind == IoErrorKind::NotFound || failure.kind
            == IoErrorKind::NotADirectory),
        failure.loops() <==> failure.number == Some(40i32),
        failure.escapes() <==> failure.number == Some(18i32),
        failure.unusable_path() <==> (failure.number == Some(40i32) || failure.number == Some(
            36i32,
        )),
        failure.unresolved() <==> (failure.kind == IoErrorKind::NotFound || failure.kind
            == IoErrorKind::NotADirectory || failure.kind == IoErrorKind::PermissionDenied),
{
}

} // verus!
