//! The private files and directories in which uploads are staged.
use crate::internal_names;
use crate::internal_names::{
    classify_internal_name, is_upload_stage_name, upload_stage_directory, InternalEntryName,
};
use crate::io_error::{IoErrorKind, IoFailure};
use crate::path_coordinator::FileIdentity;
use crate::paths::LexicalPath;
use crate::rooted_fs::ancestors::MakeResult;
use crate::rooted_fs::identity::{ExistingReplacementTarget, FileType};
use crate::rooted_fs::names;
use crate::rooted_fs::names::relative_path;
use crate::steps;
use crate::steps::{Check, Step};
use crate::text;
use crate::text::utf8_text;
use vstd::prelude::*;
use vstd::string::*;
use vstd::utf8::*;

verus! {

pub open spec fn invalid_data() -> IoFailure {
    IoFailure { kind: IoErrorKind::InvalidData, number: None }
}

/// A path of a stage: below the root, in a directory of stages, with the name of a
/// stage.
pub open spec fn is_stage_path(root: Seq<Seq<u8>>, path: Seq<Seq<u8>>) -> bool {
    &&& text::has_prefix(path, root)
    &&& path.len() > root.len()
    &&& names::all_normal(names::below(root, path))
    &&& path.len() >= 2
    &&& path[path.len() - 2] == encode_utf8(".dufs-upload-stages"@)
    &&& valid_utf8(path.last())
    &&& internal_names::is_stage_name(decode_utf8(path.last()))
}

/// The directory and the name of a stage.
pub fn validated_upload_stage_path(root: &LexicalPath, path: &LexicalPath) -> (stage: Result<
    (LexicalPath, Vec<u8>),
    IoFailure,
>)
    ensures
        stage is Ok <==> is_stage_path(root@, path@),
        stage matches Ok((directory, name)) ==> directory@ == path@.drop_last() && name@
            == path@.last(),
        stage matches Err(failure) ==> failure.number is None && failure.kind == (
        if !text::has_prefix(path@, root@) {
            IoErrorKind::PermissionDenied
        } else {
            IoErrorKind::InvalidInput
        }),
{
    if let Err(failure) = relative_path(root, path) {
        return Err(failure);
    }
    let directory = match upload_stage_directory(path) {
        Some(directory) => directory,
        None => return Err(IoFailure::of_kind(IoErrorKind::InvalidInput)),
    };
    let name = match path.file_name() {
        Some(name) => name,
        None => return Err(IoFailure::of_kind(IoErrorKind::InvalidInput)),
    };
    match utf8_text(name.as_slice()) {
        Some(shown) => {
            if !is_upload_stage_name(shown.as_str()) {
                return Err(IoFailure::of_kind(IoErrorKind::InvalidInput));
            }
        },
        None => return Err(IoFailure::of_kind(IoErrorKind::InvalidInput)),
    }
    let copy = text::copy_bytes(name.as_slice());
    Ok((directory, copy))
}

/// The path of a directory of stages.
pub open spec fn is_stage_directory_path(root: Seq<Seq<u8>>, path: Seq<Seq<u8>>) -> bool {
    &&& text::has_prefix(path, root)
    &&& path.len() > root.len()
    &&& names::all_normal(names::below(root, path))
    &&& valid_utf8(path.last())
    &&& internal_names::internal_kind(decode_utf8(path.last())) == Some(
        InternalEntryName::StageDirectory,
    )
}

/// Checks the path of a directory of stages that is to be cleaned up.
pub fn check_stage_directory_path(root: &LexicalPath, path: &LexicalPath) -> (result: Result<
    (),
    IoFailure,
>)
    ensures
        result is Ok <==> is_stage_directory_path(root@, path@),
        result matches Err(failure) ==> failure.number is None && failure.kind == (
        if !text::has_prefix(path@, root@) {
            IoErrorKind::PermissionDenied
        } else {
            IoErrorKind::InvalidInput
        }),
{
    if let Err(failure) = relative_path(root, path) {
        return Err(failure);
    }
    let shown = match path.file_name() {
        Some(name) => utf8_text(name.as_slice()),
        None => None,
    };
    if let Some(shown) = shown {
        if let Some(InternalEntryName::StageDirectory) = classify_internal_name(shown.as_str()) {
            return Ok(());
        }
    }
    Err(IoFailure::of_kind(IoErrorKind::InvalidInput))
}

/// A directory that this process owns, on the filesystem of the directory above.
pub open spec fn is_own_directory(
    parent: ExistingReplacementTarget,
    directory: ExistingReplacementTarget,
    euid: u32,
) -> bool {
    &&& parent.file_type == FileType::Directory
    &&& directory.file_type == FileType::Directory
    &&& directory.uid == euid
    &&& directory.device == parent.device
}

fn check_own_directory(
    parent: &ExistingReplacementTarget,
    directory: &ExistingReplacementTarget,
    euid: u32,
) -> (own: bool)
    ensures
        own == is_own_directory(*parent, *directory, euid),
{
    parent.file_type == FileType::Directory && directory.file_type == FileType::Directory
        && directory.uid == euid && directory.device == parent.device
}

/// A directory that no one else can look into, and that still has its name.
pub open spec fn is_private_directory(
    parent: ExistingReplacementTarget,
    directory: ExistingReplacementTarget,
    named: ExistingReplacementTarget,
    euid: u32,
) -> bool {
    &&& directory.file_type == FileType::Directory
    &&& directory.uid == euid
    &&& directory.device == parent.device
    &&& directory.mode & 0o7777 == 0o700
    &&& named.device == directory.device
    &&& named.inode == directory.inode
    &&& named.file_type == FileType::Directory
}

fn check_private_directory(
    parent: &ExistingReplacementTarget,
    directory: &ExistingReplacementTarget,
    named: &ExistingReplacementTarget,
    euid: u32,
) -> (private: bool)
    ensures
        private == is_private_directory(*parent, *directory, *named, euid),
{
    directory.file_type == FileType::Directory && directory.uid == euid && directory.device
        == parent.device && directory.mode & 0o7777 == 0o700 && named.device == directory.device
        && named.inode == directory.inode && named.file_type == FileType::Directory
}

/// What opening a directory of stages looks at or does next.
#[derive(Clone, Copy, Debug, Eq, PartialEq, Structural)]
pub enum DirectoryProbe {
    Open,
    StatParent,
    StatOpened,
    /// Take all rights from others.
    Repair,
    Sync,
    StatRepaired,
    StatNamed,
}

/// What has been seen of a directory of stages.
#[derive(Clone, Copy)]
pub struct DirectorySeen {
    pub opened: Option<Result<(), IoFailure>>,
    pub parent: Option<Result<ExistingReplacementTarget, IoFailure>>,
    pub stat: Option<Result<ExistingReplacementTarget, IoFailure>>,
    pub repaired: Option<Result<(), IoFailure>>,
    pub synced: Option<Result<(), IoFailure>>,
    pub stat_repaired: Option<Result<ExistingReplacementTarget, IoFailure>>,
    pub named: Option<Result<ExistingReplacementTarget, IoFailure>>,
}

impl DirectorySeen {
    pub fn new() -> (seen: DirectorySeen)
        ensures
            seen == (DirectorySeen {
                opened: None,
                parent: None,
                stat: None,
                repaired: None,
                synced: None,
                stat_repaired: None,
                named: None,
            }),
    {
        DirectorySeen {
            opened: None,
            parent: None,
            stat: None,
            repaired: None,
            synced: None,
            stat_repaired: None,
            named: None,
        }
    }
}

pub type DirectoryStep = Step<DirectoryProbe, Result<(), IoFailure>>;

pub type DirectoryCheck = Check<DirectoryProbe, Result<(), IoFailure>>;

/// The directory has more rights than its owner's, and may be repaired.
pub open spec fn needs_repair(seen: DirectorySeen, repair: bool) -> bool {
    repair && (seen.stat->0->Ok_0).mode & 0o7777 != 0o700
}

/// The directory as it was last looked at.
pub open spec fn latest(seen: DirectorySeen, repair: bool) -> ExistingReplacementTarget {
    if needs_repair(seen, repair) {
        seen.stat_repaired->0->Ok_0
    } else {
        seen.stat->0->Ok_0
    }
}

/// The repair of a directory that needs it.
pub open spec fn repairs(seen: DirectorySeen, repair: bool) -> DirectoryCheck {
    if needs_repair(seen, repair) {
        steps::succeeded(seen.repaired, DirectoryProbe::Repair).followed_by(
            steps::succeeded(seen.synced, DirectoryProbe::Sync),
        ).followed_by(steps::succeeded(seen.stat_repaired, DirectoryProbe::StatRepaired))
    } else {
        Check::Pass
    }
}

/// The checks of a directory of stages.
pub open spec fn directory_checks(seen: DirectorySeen, repair: bool, euid: u32) -> DirectoryCheck {
    steps::succeeded(seen.opened, DirectoryProbe::Open).followed_by(
        steps::succeeded(seen.parent, DirectoryProbe::StatParent),
    ).followed_by(steps::succeeded(seen.stat, DirectoryProbe::StatOpened)).followed_by(
        steps::stop_if(
            !is_own_directory(seen.parent->0->Ok_0, seen.stat->0->Ok_0, euid),
            Err(invalid_data()),
        ),
    ).followed_by(repairs(seen, repair)).followed_by(
        steps::succeeded(seen.named, DirectoryProbe::StatNamed),
    ).followed_by(
        steps::stop_if(
            !is_private_directory(
                seen.parent->0->Ok_0,
                latest(seen, repair),
                seen.named->0->Ok_0,
                euid,
            ),
            Err(invalid_data()),
        ),
    )
}

/// Decides the opening of a directory of stages, with its repair where that is
/// allowed.
pub fn open_upload_stage_directory(seen: &DirectorySeen, repair: bool, euid: u32) -> (step:
    DirectoryStep)
    ensures
        step == directory_checks(*seen, repair, euid).otherwise(Ok(())),
{
    if let Err(step) = steps::must_succeed(&seen.opened, DirectoryProbe::Open) {
        return step;
    }
    let parent = match steps::must_succeed(&seen.parent, DirectoryProbe::StatParent) {
        Ok(parent) => parent,
        Err(step) => return step,
    };
    let stat = match steps::must_succeed(&seen.stat, DirectoryProbe::StatOpened) {
        Ok(stat) => stat,
        Err(step) => return step,
    };
    if !check_own_directory(&parent, &stat, euid) {
        return Step::Done(Err(IoFailure::of_kind(IoErrorKind::InvalidData)));
    }
    let mut last = stat;
    if repair && stat.mode & 0o7777 != 0o700 {
        if let Err(step) = steps::must_succeed(&seen.repaired, DirectoryProbe::Repair) {
            return step;
        }
        if let Err(step) = steps::must_succeed(&seen.synced, DirectoryProbe::Sync) {
            return step;
        }
        last = match steps::must_succeed(&seen.stat_repaired, DirectoryProbe::StatRepaired) {
            Ok(last) => last,
            Err(step) => return step,
        };
    }
    let named = match steps::must_succeed(&seen.named, DirectoryProbe::StatNamed) {
        Ok(named) => named,
        Err(step) => return step,
    };
    if !check_private_directory(&parent, &last, &named, euid) {
        return Step::Done(Err(IoFailure::of_kind(IoErrorKind::InvalidData)));
    }
    Step::Done(Ok(()))
}

/// A directory of stages that is used is private, on the filesystem of its target,
/// and what its name leads to.
pub proof fn law_used_directories_are_private(seen: DirectorySeen, repair: bool, euid: u32)
    requires
        directory_checks(seen, repair, euid) is Pass,
    ensures
        latest(seen, repair).uid == euid,
        latest(seen, repair).mode & 0o7777 == 0o700,
        latest(seen, repair).device == (seen.parent->0->Ok_0).device,
        seen.named matches Some(Ok(named)) && named.device == latest(seen, repair).device
            && named.inode == latest(seen, repair).inode,
{
}

/// A directory of someone else is never repaired.
pub proof fn law_only_own_directories_are_repaired(seen: DirectorySeen, repair: bool, euid: u32)
    requires
        directory_checks(seen, repair, euid) == DirectoryCheck::Ask(DirectoryProbe::Repair),
    ensures
        repair,
        seen.stat matches Some(Ok(stat)) && stat.uid == euid && stat.file_type
            == FileType::Directory,
{
}

/// What having a directory of stages looks at or does next.
#[derive(Clone, Copy, Debug, Eq, PartialEq, Structural)]
pub enum EnsureProbe {
    Make,
    /// Open it, with its repair.
    Open,
    /// The identity of what was opened.
    Identify,
    /// Flush the directory, and then the one above.
    Sync,
    /// Take back what was made.
    Remove,
}

/// What has been seen of having a directory of stages.
#[derive(Clone, Copy)]
pub struct EnsureSeen {
    pub made: Option<MakeResult>,
    pub opened: Option<Result<(), IoFailure>>,
    pub identity: Option<Result<FileIdentity, IoFailure>>,
    pub synced: Option<Result<(), IoFailure>>,
    pub removed: bool,
}

impl EnsureSeen {
    pub fn new() -> (seen: EnsureSeen)
        ensures
            seen == (EnsureSeen {
                made: None,
                opened: None,
                identity: None,
                synced: None,
                removed: false,
            }),
    {
        EnsureSeen { made: None, opened: None, identity: None, synced: None, removed: false }
    }
}

/// The directory is there; it has an identity where it was made.
pub type EnsureStep = Step<EnsureProbe, Result<Option<FileIdentity>, IoFailure>>;

/// Fails, once what was made is taken back.
pub open spec fn ensure_undone(seen: EnsureSeen, failure: IoFailure) -> EnsureStep {
    if seen.made == Some(MakeResult::Made) && !seen.removed {
        Step::Ask(EnsureProbe::Remove)
    } else {
        Step::Done(Err(failure))
    }
}

/// How having a directory of stages goes on.
pub open spec fn ensuring(seen: EnsureSeen) -> EnsureStep {
    match seen.made {
        None => Step::Ask(EnsureProbe::Make),
        Some(MakeResult::Failed(failure)) => Step::Done(Err(failure)),
        Some(made) => match seen.opened {
            None => Step::Ask(EnsureProbe::Open),
            Some(Err(failure)) => ensure_undone(seen, failure),
            Some(Ok(_)) => match seen.identity {
                None => Step::Ask(EnsureProbe::Identify),
                Some(Err(failure)) => ensure_undone(seen, failure),
                Some(Ok(identity)) => if made != MakeResult::Made {
                    Step::Done(Ok(None))
                } else {
                    match seen.synced {
                        None => Step::Ask(EnsureProbe::Sync),
                        Some(Err(failure)) => ensure_undone(seen, failure),
                        Some(Ok(_)) => Step::Done(Ok(Some(identity))),
                    }
                },
            },
        },
    }
}

fn undo_ensure(seen: &EnsureSeen, made: bool, failure: IoFailure) -> (step: EnsureStep)
    requires
        made == (seen.made == Some(MakeResult::Made)),
    ensures
        step == ensure_undone(*seen, failure),
{
    if made && !seen.removed {
        Step::Ask(EnsureProbe::Remove)
    } else {
        Step::Done(Err(failure))
    }
}

/// Decides how a directory of stages is had, whether or not it is there.
pub fn ensure_private_upload_stage_directory(seen: &EnsureSeen) -> (step: EnsureStep)
    ensures
        step == ensuring(*seen),
{
    let made = match seen.made {
        None => return Step::Ask(EnsureProbe::Make),
        Some(MakeResult::Failed(failure)) => return Step::Done(Err(failure)),
        Some(MakeResult::Made) => true,
        Some(MakeResult::Exists) => false,
    };
    match seen.opened {
        None => return Step::Ask(EnsureProbe::Open),
        Some(Err(failure)) => return undo_ensure(seen, made, failure),
        Some(Ok(_)) => {},
    }
    let identity = match seen.identity {
        None => return Step::Ask(EnsureProbe::Identify),
        Some(Err(failure)) => return undo_ensure(seen, made, failure),
        Some(Ok(identity)) => identity,
    };
    if !made {
        return Step::Done(Ok(None));
    }
    match seen.synced {
        None => Step::Ask(EnsureProbe::Sync),
        Some(Err(failure)) => undo_ensure(seen, made, failure),
        Some(Ok(_)) => Step::Done(Ok(Some(identity))),
    }
}

/// A directory of stages is taken back only where it was made here, and one that
/// was made and cannot be used is always taken back.
pub proof fn law_unused_directories_are_removed(seen: EnsureSeen, failure: IoFailure)
    ensures
        ensuring(seen) == EnsureStep::Ask(EnsureProbe::Remove) ==> seen.made == Some(
            MakeResult::Made,
        ),
        ensuring(seen) == EnsureStep::Done(Err(failure)) && seen.made == Some(MakeResult::Made)
            ==> seen.removed,
{
}

/// A file that only this process can read, and that has one name.
pub open spec fn is_private_file(file: ExistingReplacementTarget, euid: u32) -> bool {
    &&& file.file_type == FileType::RegularFile
    &&& file.links == 1
    &&& file.uid == euid
    &&& file.mode & 0o7777 == 0o600
}

fn check_private_file(file: &ExistingReplacementTarget, euid: u32) -> (private: bool)
    ensures
        private == is_private_file(*file, euid),
{
    file.file_type == FileType::RegularFile && file.links == 1 && file.uid == euid && file.mode
        & 0o7777 == 0o600
}

/// What making a stage looks at or does next.
#[derive(Clone, Copy, Debug, Eq, PartialEq, Structural)]
pub enum CreateProbe {
    /// Open the directory above the directory of stages, and make what is missing.
    OpenParent,
    EnsureDirectory,
    CreateFile,
    /// Take all rights from others.
    Restrict,
    StatFile,
    /// Take the file back, and flush the directory of stages.
    RemoveFile,
    /// Take back the directories that were made.
    Rollback,
}

/// What has been seen of making a stage.
#[derive(Clone, Copy)]
pub struct CreateSeen {
    pub parent: Option<Result<(), IoFailure>>,
    pub directory: Option<Result<Option<FileIdentity>, IoFailure>>,
    pub file: Option<Result<(), IoFailure>>,
    pub restricted: Option<Result<(), IoFailure>>,
    pub stat: Option<Result<ExistingReplacementTarget, IoFailure>>,
    pub removed: bool,
    pub rolled_back: bool,
}

impl CreateSeen {
    pub fn new() -> (seen: CreateSeen)
        ensures
            seen == (CreateSeen {
                parent: None,
                directory: None,
                file: None,
                restricted: None,
                stat: None,
                removed: false,
                rolled_back: false,
            }),
    {
        CreateSeen {
            parent: None,
            directory: None,
            file: None,
            restricted: None,
            stat: None,
            removed: false,
            rolled_back: false,
        }
    }
}

/// The stage is there; its directory has an identity where it was made.
pub type CreateStep = Step<CreateProbe, Result<Option<FileIdentity>, IoFailure>>;

pub open spec fn create_given_up(seen: CreateSeen, failure: IoFailure) -> CreateStep {
    if seen.rolled_back {
        Step::Done(Err(failure))
    } else {
        Step::Ask(CreateProbe::Rollback)
    }
}

pub open spec fn create_undone(seen: CreateSeen, failure: IoFailure) -> CreateStep {
    if seen.removed {
        create_given_up(seen, failure)
    } else {
        Step::Ask(CreateProbe::RemoveFile)
    }
}

/// How making a stage goes on.
pub open spec fn creating(seen: CreateSeen, euid: u32) -> CreateStep {
    match seen.parent {
        None => Step::Ask(CreateProbe::OpenParent),
        Some(Err(failure)) => Step::Done(Err(failure)),
        Some(Ok(_)) => match seen.directory {
            None => Step::Ask(CreateProbe::EnsureDirectory),
            Some(Err(failure)) => create_given_up(seen, failure),
            Some(Ok(made)) => match seen.file {
                None => Step::Ask(CreateProbe::CreateFile),
                Some(Err(failure)) => create_given_up(seen, failure),
                Some(Ok(_)) => match seen.restricted {
                    None => Step::Ask(CreateProbe::Restrict),
                    Some(Err(failure)) => create_undone(seen, failure),
                    Some(Ok(_)) => match seen.stat {
                        None => Step::Ask(CreateProbe::StatFile),
                        Some(Err(failure)) => create_undone(seen, failure),
                        Some(Ok(stat)) => if is_private_file(stat, euid) {
                            Step::Done(Ok(made))
                        } else {
                            create_undone(seen, invalid_data())
                        },
                    },
                },
            },
        },
    }
}

fn give_up_create(seen: &CreateSeen, failure: IoFailure) -> (step: CreateStep)
    ensures
        step == create_given_up(*seen, failure),
{
    if seen.rolled_back {
        Step::Done(Err(failure))
    } else {
        Step::Ask(CreateProbe::Rollback)
    }
}

fn undo_create(seen: &CreateSeen, failure: IoFailure) -> (step: CreateStep)
    ensures
        step == create_undone(*seen, failure),
{
    if seen.removed {
        give_up_create(seen, failure)
    } else {
        Step::Ask(CreateProbe::RemoveFile)
    }
}

/// Decides how a stage is made.
pub fn create_private_upload_stage(seen: &CreateSeen, euid: u32) -> (step: CreateStep)
    ensures
        step == creating(*seen, euid),
{
    match seen.parent {
        None => return Step::Ask(CreateProbe::OpenParent),
        Some(Err(failure)) => return Step::Done(Err(failure)),
        Some(Ok(_)) => {},
    }
    let made = match seen.directory {
        None => return Step::Ask(CreateProbe::EnsureDirectory),
        Some(Err(failure)) => return give_up_create(seen, failure),
        Some(Ok(made)) => made,
    };
    match seen.file {
        None => return Step::Ask(CreateProbe::CreateFile),
        Some(Err(failure)) => return give_up_create(seen, failure),
        Some(Ok(_)) => {},
    }
    match seen.restricted {
        None => return Step::Ask(CreateProbe::Restrict),
        Some(Err(failure)) => return undo_create(seen, failure),
        Some(Ok(_)) => {},
    }
    match seen.stat {
        None => Step::Ask(CreateProbe::StatFile),
        Some(Err(failure)) => undo_create(seen, failure),
        Some(Ok(stat)) => {
            if check_private_file(&stat, euid) {
                Step::Done(Ok(made))
            } else {
                undo_create(seen, IoFailure::of_kind(IoErrorKind::InvalidData))
            }
        },
    }
}

/// A stage that is used is private. One that could not be made leaves neither a file
/// nor a directory behind.
pub proof fn law_stages_are_private_or_undone(
    seen: CreateSeen,
    euid: u32,
    made: Option<FileIdentity>,
    failure: IoFailure,
)
    ensures
        creating(seen, euid) == CreateStep::Done(Ok(made)) ==> (seen.stat matches Some(Ok(stat))
            && is_private_file(stat, euid)),
        creating(seen, euid) == CreateStep::Done(Err(failure)) && (seen.parent matches Some(Ok(_)))
            ==> seen.rolled_back,
        creating(seen, euid) == CreateStep::Done(Err(failure)) && (seen.parent matches Some(Ok(_)))
            && (seen.directory matches Some(Ok(_))) && (seen.file matches Some(Ok(_)))
            ==> seen.removed,
{
}

/// What removing an empty directory of stages looks at or does next.
#[derive(Clone, Copy, Debug, Eq, PartialEq, Structural)]
pub enum CleanupProbe {
    OpenParent,
    /// Open the directory, without its repair.
    OpenDirectory,
    IdentifyOpened,
    IdentifyNamed,
    Remove,
    SyncParent,
}

/// What has been seen of removing an empty directory of stages.
#[derive(Clone, Copy)]
pub struct CleanupSeen {
    pub parent: Option<Result<(), IoFailure>>,
    pub directory: Option<Result<(), IoFailure>>,
    pub opened: Option<Result<FileIdentity, IoFailure>>,
    pub named: Option<Result<FileIdentity, IoFailure>>,
    pub removed: Option<Result<(), IoFailure>>,
    pub synced: Option<Result<(), IoFailure>>,
}

impl CleanupSeen {
    pub fn new() -> (seen: CleanupSeen)
        ensures
            seen == (CleanupSeen {
                parent: None,
                directory: None,
                opened: None,
                named: None,
                removed: None,
                synced: None,
            }),
    {
        CleanupSeen {
            parent: None,
            directory: None,
            opened: None,
            named: None,
            removed: None,
            synced: None,
        }
    }
}

/// Whether the directory was there, was empty, and is removed.
pub type CleanupStep = Step<CleanupProbe, Result<bool, IoFailure>>;

pub type CleanupCheck = Check<CleanupProbe, Result<bool, IoFailure>>;

/// The directory above is there.
pub open spec fn cleanup_parent(seen: CleanupSeen) -> CleanupCheck {
    match seen.parent {
        Some(Err(failure)) => if failure.missing() {
            Check::Stop(Ok(false))
        } else {
            Check::Stop(Err(failure))
        },
        _ => steps::succeeded(seen.parent, CleanupProbe::OpenParent),
    }
}

/// The directory of stages is there.
pub open spec fn cleanup_directory(seen: CleanupSeen) -> CleanupCheck {
    match seen.directory {
        Some(Err(failure)) => if failure.kind == IoErrorKind::NotFound {
            Check::Stop(Ok(false))
        } else {
            Check::Stop(Err(failure))
        },
        _ => steps::succeeded(seen.directory, CleanupProbe::OpenDirectory),
    }
}

/// The directory is empty and can be removed.
pub open spec fn cleanup_removal(seen: CleanupSeen) -> CleanupCheck {
    match seen.removed {
        Some(Err(failure)) => match failure.kind {
            IoErrorKind::NotFound
            | IoErrorKind::DirectoryNotEmpty
            | IoErrorKind::AlreadyExists => Check::Stop(Ok(false)),
            _ => Check::Stop(Err(failure)),
        },
        _ => steps::succeeded(seen.removed, CleanupProbe::Remove),
    }
}

/// The checks around the removal of an empty directory of stages.
pub open spec fn cleanup_checks(seen: CleanupSeen) -> CleanupCheck {
    cleanup_parent(seen).followed_by(cleanup_directory(seen)).followed_by(
        steps::succeeded(seen.opened, CleanupProbe::IdentifyOpened),
    ).followed_by(steps::succeeded(seen.named, CleanupProbe::IdentifyNamed)).followed_by(
        steps::stop_if(seen.opened != seen.named, Err(invalid_data())),
    ).followed_by(cleanup_removal(seen)).followed_by(
        steps::succeeded(seen.synced, CleanupProbe::SyncParent),
    )
}

/// Decides the removal of an empty directory of stages.
pub fn remove_empty_upload_stage_directory(seen: &CleanupSeen) -> (step: CleanupStep)
    ensures
        step == cleanup_checks(*seen).otherwise(Ok(true)),
{
    if let Some(Err(failure)) = seen.parent {
        if failure.is_missing() {
            return Step::Done(Ok(false));
        }
    }
    if let Err(step) = steps::must_succeed(&seen.parent, CleanupProbe::OpenParent) {
        return step;
    }
    if let Some(Err(failure)) = seen.directory {
        if let IoErrorKind::NotFound = failure.kind {
            return Step::Done(Ok(false));
        }
    }
    if let Err(step) = steps::must_succeed(&seen.directory, CleanupProbe::OpenDirectory) {
        return step;
    }
    let opened = match steps::must_succeed(&seen.opened, CleanupProbe::IdentifyOpened) {
        Ok(opened) => opened,
        Err(step) => return step,
    };
    let named = match steps::must_succeed(&seen.named, CleanupProbe::IdentifyNamed) {
        Ok(named) => named,
        Err(step) => return step,
    };
    if opened != named {
        return Step::Done(Err(IoFailure::of_kind(IoErrorKind::InvalidData)));
    }
    if let Some(Err(failure)) = seen.removed {
        match failure.kind {
            IoErrorKind::NotFound
            | IoErrorKind::DirectoryNotEmpty
            | IoErrorKind::AlreadyExists => return Step::Done(Ok(false)),
            _ => {},
        }
    }
    if let Err(step) = steps::must_succeed(&seen.removed, CleanupProbe::Remove) {
        return step;
    }
    if let Err(step) = steps::must_succeed(&seen.synced, CleanupProbe::SyncParent) {
        return step;
    }
    Step::Done(Ok(true))
}

/// A directory is removed only while its name leads to the very directory that was
/// found private.
pub proof fn law_cleanups_remove_what_was_checked(seen: CleanupSeen)
    requires
        cleanup_checks(seen) == CleanupCheck::Ask(CleanupProbe::Remove),
    ensures
        seen.directory matches Some(Ok(_)),
        seen.opened matches Some(Ok(_)),
        seen.opened == seen.named,
{
}

/// A stage as its name shows it is the one that is expected.
pub open spec fn names_expected_stage(
    named: ExistingReplacementTarget,
    expected: FileIdentity,
) -> bool {
    &&& named.file_type == FileType::RegularFile
    &&& named.links == 1
    &&& named.device == expected.device
    &&& named.inode == expected.inode
}

fn check_names_expected_stage(named: &ExistingReplacementTarget, expected: FileIdentity) -> (result:
    bool)
    ensures
        result == names_expected_stage(*named, expected),
{
    named.file_type == FileType::RegularFile && named.links == 1 && named.device
        == expected.device && named.inode == expected.inode
}

/// An opened stage is the one that is expected, and still has its name.
pub open spec fn is_expected_stage(
    opened: ExistingReplacementTarget,
    named: ExistingReplacementTarget,
    expected: FileIdentity,
) -> bool {
    &&& names_expected_stage(opened, expected)
    &&& names_expected_stage(named, expected)
}

/// Checks an opened stage against the name that is recorded for it.
pub fn verify_named_upload_stage(
    opened: &ExistingReplacementTarget,
    named: &ExistingReplacementTarget,
    expected: FileIdentity,
) -> (result: Result<(), IoFailure>)
    ensures
        result is Ok <==> is_expected_stage(*opened, *named, expected),
        result matches Err(failure) ==> failure == invalid_data(),
{
    if opened.file_type != FileType::RegularFile || opened.links != 1 || opened.device
        != expected.device || opened.inode != expected.inode || named.device != opened.device
        || named.inode != opened.inode || named.file_type != FileType::RegularFile || named.links
        != 1 {
        return Err(IoFailure::of_kind(IoErrorKind::InvalidData));
    }
    Ok(())
}

/// What opening an expected stage looks at next.
#[derive(Clone, Copy, Debug, Eq, PartialEq, Structural)]
pub enum ExpectedProbe {
    StatNamed,
    Open,
    StatOpened,
    StatNamedAgain,
}

/// What has been seen of an expected stage.
#[derive(Clone, Copy)]
pub struct ExpectedSeen {
    pub named: Option<Result<ExistingReplacementTarget, IoFailure>>,
    pub open: Option<Result<(), IoFailure>>,
    pub opened: Option<Result<ExistingReplacementTarget, IoFailure>>,
    pub named_again: Option<Result<ExistingReplacementTarget, IoFailure>>,
}

impl ExpectedSeen {
    pub fn new() -> (seen: ExpectedSeen)
        ensures
            seen == (ExpectedSeen { named: None, open: None, opened: None, named_again: None }),
    {
        ExpectedSeen { named: None, open: None, opened: None, named_again: None }
    }
}

/// What stands where a stage is expected.
#[derive(Clone, Copy, Debug, Eq, PartialEq, Structural)]
pub enum ExpectedUploadStage {
    Missing,
    Match,
    Mismatch,
}

pub type ExpectedStep = Step<ExpectedProbe, Result<ExpectedUploadStage, IoFailure>>;

/// A failure that says that the stage is another one, or that it cannot be told.
pub open spec fn mismatch_or(failure: IoFailure) -> ExpectedStep {
    if failure.kind == IoErrorKind::InvalidData {
        Step::Done(Ok(ExpectedUploadStage::Mismatch))
    } else {
        Step::Done(Err(failure))
    }
}

/// How opening an expected stage goes on.
pub open spec fn expecting(expected: FileIdentity, seen: ExpectedSeen) -> ExpectedStep {
    match seen.named {
        None => Step::Ask(ExpectedProbe::StatNamed),
        Some(Err(failure)) => if failure.kind == IoErrorKind::NotFound {
            Step::Done(Ok(ExpectedUploadStage::Missing))
        } else {
            Step::Done(Err(failure))
        },
        Some(Ok(named)) => if !names_expected_stage(named, expected) {
            Step::Done(Ok(ExpectedUploadStage::Mismatch))
        } else {
            match seen.open {
                None => Step::Ask(ExpectedProbe::Open),
                Some(Err(failure)) => if failure.missing() {
                    Step::Done(Ok(ExpectedUploadStage::Mismatch))
                } else {
                    Step::Done(Err(failure))
                },
                Some(Ok(_)) => match seen.opened {
                    None => Step::Ask(ExpectedProbe::StatOpened),
                    Some(Err(failure)) => mismatch_or(failure),
                    Some(Ok(opened)) => match seen.named_again {
                        None => Step::Ask(ExpectedProbe::StatNamedAgain),
                        Some(Err(failure)) => mismatch_or(failure),
                        Some(Ok(again)) => if is_expected_stage(opened, again, expected) {
                            Step::Done(Ok(ExpectedUploadStage::Match))
                        } else {
                            Step::Done(Ok(ExpectedUploadStage::Mismatch))
                        },
                    },
                },
            }
        },
    }
}

fn step_on_mismatch(failure: IoFailure) -> (step: ExpectedStep)
    ensures
        step == mismatch_or(failure),
{
    match failure.kind {
        IoErrorKind::InvalidData => Step::Done(Ok(ExpectedUploadStage::Mismatch)),
        _ => Step::Done(Err(failure)),
    }
}

/// Decides what stands where a stage is expected.
pub fn open_expected_upload_stage(expected: FileIdentity, seen: &ExpectedSeen) -> (step:
    ExpectedStep)
    ensures
        step == expecting(expected, *seen),
{
    match seen.named {
        None => return Step::Ask(ExpectedProbe::StatNamed),
        Some(Err(failure)) => {
            return match failure.kind {
                IoErrorKind::NotFound => Step::Done(Ok(ExpectedUploadStage::Missing)),
                _ => Step::Done(Err(failure)),
            };
        },
        Some(Ok(named)) => {
            if !check_names_expected_stage(&named, expected) {
                return Step::Done(Ok(ExpectedUploadStage::Mismatch));
            }
        },
    }
    match seen.open {
        None => return Step::Ask(ExpectedProbe::Open),
        Some(Err(failure)) => {
            return if failure.is_missing() {
                Step::Done(Ok(ExpectedUploadStage::Mismatch))
            } else {
                Step::Done(Err(failure))
            };
        },
        Some(Ok(_)) => {},
    }
    let opened = match seen.opened {
        None => return Step::Ask(ExpectedProbe::StatOpened),
        Some(Err(failure)) => return step_on_mismatch(failure),
        Some(Ok(opened)) => opened,
    };
    match seen.named_again {
        None => Step::Ask(ExpectedProbe::StatNamedAgain),
        Some(Err(failure)) => step_on_mismatch(failure),
        Some(Ok(again)) => match verify_named_upload_stage(&opened, &again, expected) {
            Ok(_) => Step::Done(Ok(ExpectedUploadStage::Match)),
            Err(_) => Step::Done(Ok(ExpectedUploadStage::Mismatch)),
        },
    }
}

/// What checking a recorded stage looks at next.
#[derive(Clone, Copy, Debug, Eq, PartialEq, Structural)]
pub enum ValidateProbe {
    OpenParent,
    /// Open the directory of stages, without its repair.
    OpenDirectory,
    /// Whether anything stands where no stage is recorded.
    InspectName,
    /// What stands where a stage is recorded.
    OpenExpected,
}

/// What has been seen of a recorded stage.
#[derive(Clone, Copy)]
pub struct ValidateSeen {
    pub parent: Option<Result<(), IoFailure>>,
    pub directory: Option<Result<(), IoFailure>>,
    pub name: Option<Result<(), IoFailure>>,
    pub expected: Option<Result<ExpectedUploadStage, IoFailure>>,
}

impl ValidateSeen {
    pub fn new() -> (seen: ValidateSeen)
        ensures
            seen == (ValidateSeen { parent: None, directory: None, name: None, expected: None }),
    {
        ValidateSeen { parent: None, directory: None, name: None, expected: None }
    }
}

/// What a recorded stage was found to be.
#[derive(Clone, Copy, Debug, Eq, PartialEq, Structural)]
pub enum PrivateUploadStageValidation {
    Present,
    Missing,
    IdentityMismatch,
}

pub type ValidateStep = Step<ValidateProbe, Result<PrivateUploadStageValidation, IoFailure>>;

/// How checking a recorded stage goes on.
pub open spec fn validating(is_recorded: bool, seen: ValidateSeen) -> ValidateStep {
    let missing: ValidateStep = Step::Done(Ok(PrivateUploadStageValidation::Missing));
    match seen.parent {
        None => Step::Ask(ValidateProbe::OpenParent),
        Some(Err(failure)) => if failure.missing() {
            missing
        } else {
            Step::Done(Err(failure))
        },
        Some(Ok(_)) => match seen.directory {
            None => Step::Ask(ValidateProbe::OpenDirectory),
            Some(Err(failure)) => if failure.kind == IoErrorKind::NotFound {
                missing
            } else {
                Step::Done(Err(failure))
            },
            Some(Ok(_)) => if is_recorded {
                match seen.expected {
                    None => Step::Ask(ValidateProbe::OpenExpected),
                    Some(Err(failure)) => Step::Done(Err(failure)),
                    Some(Ok(ExpectedUploadStage::Match)) => Step::Done(
                        Ok(PrivateUploadStageValidation::Present),
                    ),
                    Some(Ok(ExpectedUploadStage::Missing)) => missing,
                    Some(Ok(ExpectedUploadStage::Mismatch)) => Step::Done(
                        Ok(PrivateUploadStageValidation::IdentityMismatch),
                    ),
                }
            } else {
                match seen.name {
                    None => Step::Ask(ValidateProbe::InspectName),
                    Some(Ok(_)) => Step::Done(Ok(PrivateUploadStageValidation::IdentityMismatch)),
                    Some(Err(failure)) => if failure.kind == IoErrorKind::NotFound {
                        missing
                    } else {
                        Step::Done(Err(failure))
                    },
                }
            },
        },
    }
}

/// Decides what a recorded stage is, or that none is where none is recorded.
pub fn validate_private_upload_stage(is_recorded: bool, seen: &ValidateSeen) -> (step: ValidateStep)
    ensures
        step == validating(is_recorded, *seen),
{
    match seen.parent {
        None => return Step::Ask(ValidateProbe::OpenParent),
        Some(Err(failure)) => {
            return if failure.is_missing() {
                Step::Done(Ok(PrivateUploadStageValidation::Missing))
            } else {
                Step::Done(Err(failure))
            };
        },
        Some(Ok(_)) => {},
    }
    match seen.directory {
        None => return Step::Ask(ValidateProbe::OpenDirectory),
        Some(Err(failure)) => {
            return match failure.kind {
                IoErrorKind::NotFound => Step::Done(Ok(PrivateUploadStageValidation::Missing)),
                _ => Step::Done(Err(failure)),
            };
        },
        Some(Ok(_)) => {},
    }
    if is_recorded {
        return match seen.expected {
            None => Step::Ask(ValidateProbe::OpenExpected),
            Some(Err(failure)) => Step::Done(Err(failure)),
            Some(Ok(ExpectedUploadStage::Match)) => Step::Done(
                Ok(PrivateUploadStageValidation::Present),
            ),
            Some(Ok(ExpectedUploadStage::Missing)) => Step::Done(
                Ok(PrivateUploadStageValidation::Missing),
            ),
            Some(Ok(ExpectedUploadStage::Mismatch)) => Step::Done(
                Ok(PrivateUploadStageValidation::IdentityMismatch),
            ),
        };
    }
    match seen.name {
        None => Step::Ask(ValidateProbe::InspectName),
        Some(Ok(_)) => Step::Done(Ok(PrivateUploadStageValidation::IdentityMismatch)),
        Some(Err(failure)) => match failure.kind {
            IoErrorKind::NotFound => Step::Done(Ok(PrivateUploadStageValidation::Missing)),
            _ => Step::Done(Err(failure)),
        },
    }
}

/// A stage is found present only where it is recorded and the very file that was
/// recorded stands there under its name, in a private directory.
pub proof fn law_present_stages_are_the_recorded_ones(
    is_recorded: bool,
    seen: ValidateSeen,
    expected: FileIdentity,
    inner: ExpectedSeen,
)
    requires
        validating(is_recorded, seen) == ValidateStep::Done(
            Ok(PrivateUploadStageValidation::Present),
        ),
        expecting(expected, inner) == ExpectedStep::Done(seen.expected->0),
    ensures
        is_recorded,
        seen.directory matches Some(Ok(_)),
        inner.opened matches Some(Ok(opened)) && opened.device == expected.device && opened.inode
            == expected.inode && opened.links == 1,
        inner.named_again matches Some(Ok(named)) && named.device == expected.device
            && named.inode == expected.inode,
{
}

/// A directory of this process that has its name on the filesystem of the one above, and
/// that none but its owner may look into, is used. One with more rights is repaired
/// first, where that is allowed.
pub proof fn law_own_directories_are_used(
    seen: DirectorySeen,
    repair: bool,
    euid: u32,
    parent: ExistingReplacementTarget,
    stat: ExistingReplacementTarget,
    last: ExistingReplacementTarget,
    named: ExistingReplacementTarget,
)
    requires
        seen.opened == Some(Ok::<(), IoFailure>(())),
        seen.parent == Some(Ok::<ExistingReplacementTarget, IoFailure>(parent)),
        seen.stat == Some(Ok::<ExistingReplacementTarget, IoFailure>(stat)),
        seen.named == Some(Ok::<ExistingReplacementTarget, IoFailure>(named)),
        parent.file_type == FileType::Directory,
        stat.file_type == FileType::Directory,
        stat.uid == euid,
        stat.device == parent.device,
        last.file_type == FileType::Directory,
        last.uid == euid,
        last.device == parent.device,
        last.mode & 0o7777 == 0o700,
        named.device == last.device,
        named.inode == last.inode,
        named.file_type == FileType::Directory,
    ensures
        last == stat ==> directory_checks(seen, repair, euid).otherwise(Ok(()))
            == DirectoryStep::Done(Ok(())),
        repair && stat.mode & 0o7777 != 0o700 && seen.repaired is None ==> directory_checks(
            seen,
            repair,
            euid,
        ) == DirectoryCheck::Ask(DirectoryProbe::Repair),
        repair && stat.mode & 0o7777 != 0o700 && (seen.repaired matches Some(Ok(_))) && (
        seen.synced matches Some(Ok(_))) && seen.stat_repaired == Some(
            Ok::<ExistingReplacementTarget, IoFailure>(last),
        ) ==> directory_checks(seen, repair, euid).otherwise(Ok(())) == DirectoryStep::Done(
            Ok(()),
        ),
{
}

/// A directory that is not used met the failure that is told, or is not private, not of
/// this process, not on the filesystem of the one above or not what its name leads to.
pub proof fn law_unused_directories_have_their_cause(
    seen: DirectorySeen,
    repair: bool,
    euid: u32,
    failure: IoFailure,
)
    requires
        directory_checks(seen, repair, euid) == DirectoryCheck::Stop(Err(failure)),
    ensures
        ({
            ||| seen.opened == Some(Err::<(), IoFailure>(failure))
            ||| seen.parent == Some(Err::<ExistingReplacementTarget, IoFailure>(failure))
            ||| seen.stat == Some(Err::<ExistingReplacementTarget, IoFailure>(failure))
            ||| seen.repaired == Some(Err::<(), IoFailure>(failure))
            ||| seen.synced == Some(Err::<(), IoFailure>(failure))
            ||| seen.stat_repaired == Some(Err::<ExistingReplacementTarget, IoFailure>(failure))
            ||| seen.named == Some(Err::<ExistingReplacementTarget, IoFailure>(failure))
            ||| failure.kind == IoErrorKind::InvalidData && (seen.parent matches Some(Ok(parent))
                && (seen.stat matches Some(Ok(stat)) && (parent.file_type != FileType::Directory
                || stat.file_type != FileType::Directory || stat.uid != euid || stat.device
                != parent.device)))
            ||| failure.kind == IoErrorKind::InvalidData && (seen.parent matches Some(Ok(parent))
                && (seen.named matches Some(Ok(named)) && ((seen.stat matches Some(Ok(stat))
                && is_unfit(parent, stat, named, euid)) || (seen.stat_repaired matches Some(
                Ok(stat),
            ) && is_unfit(parent, stat, named, euid)))))
        }),
{
}

/// A directory that others may look into, or that is no longer the one it was.
pub open spec fn is_unfit(
    parent: ExistingReplacementTarget,
    directory: ExistingReplacementTarget,
    named: ExistingReplacementTarget,
    euid: u32,
) -> bool {
    ||| directory.file_type != FileType::Directory
    ||| directory.uid != euid
    ||| directory.device != parent.device
    ||| directory.mode & 0o7777 != 0o700
    ||| named.device != directory.device
    ||| named.inode != directory.inode
    ||| named.file_type != FileType::Directory
}

/// Opening a directory of stages does nothing twice.
pub proof fn law_directories_are_looked_at_once(
    seen: DirectorySeen,
    repair: bool,
    euid: u32,
    probe: DirectoryProbe,
)
    requires
        directory_checks(seen, repair, euid) == DirectoryCheck::Ask(probe),
    ensures
        match probe {
            DirectoryProbe::Open => seen.opened is None,
            DirectoryProbe::StatParent => seen.parent is None,
            DirectoryProbe::StatOpened => seen.stat is None,
            DirectoryProbe::Repair => seen.repaired is None,
            DirectoryProbe::Sync => seen.synced is None && (seen.repaired matches Some(Ok(_))),
            DirectoryProbe::StatRepaired => seen.stat_repaired is None,
            DirectoryProbe::StatNamed => seen.named is None,
        },
{
}

/// A directory of stages that opens is had: with the identity that it was made with, or
/// without one where it was there. Else the failure that was met is told.
pub proof fn law_directories_of_stages_are_had(seen: EnsureSeen, identity: FileIdentity)
    ensures
        seen.made == Some(MakeResult::Exists) && (seen.opened matches Some(Ok(_))) && (
        seen.identity matches Some(Ok(_))) ==> ensuring(seen) == EnsureStep::Done(Ok(None)),
        seen.made == Some(MakeResult::Made) && (seen.opened matches Some(Ok(_))) && seen.identity
            == Some(Ok::<FileIdentity, IoFailure>(identity)) && (seen.synced matches Some(Ok(_)))
            ==> ensuring(seen) == EnsureStep::Done(Ok(Some(identity))),
        ensuring(seen) matches EnsureStep::Done(Ok(Some(made))) ==> seen.made == Some(
            MakeResult::Made,
        ) && seen.identity == Some(Ok::<FileIdentity, IoFailure>(made)) && (
        seen.synced matches Some(Ok(_))),
        ensuring(seen) == EnsureStep::Done(Ok(None)) ==> seen.made == Some(MakeResult::Exists) && (
        seen.opened matches Some(Ok(_))),
        ensuring(seen) matches EnsureStep::Done(Err(failure)) ==> seen.made == Some(
            MakeResult::Failed(failure),
        ) || seen.opened == Some(Err::<(), IoFailure>(failure)) || seen.identity == Some(
            Err::<FileIdentity, IoFailure>(failure),
        ) || seen.synced == Some(Err::<(), IoFailure>(failure)),
        ensuring(seen) matches EnsureStep::Ask(probe) ==> match probe {
            EnsureProbe::Make => seen.made is None,
            EnsureProbe::Open => seen.opened is None,
            EnsureProbe::Identify => seen.identity is None,
            EnsureProbe::Sync => seen.synced is None && seen.made == Some(MakeResult::Made),
            EnsureProbe::Remove => !seen.removed,
        },
{
}

/// A stage is made where its file turns out to be one that only this process can read,
/// and tells the directory that was made for it.
pub proof fn law_private_stages_are_made(
    seen: CreateSeen,
    euid: u32,
    made: Option<FileIdentity>,
    stat: ExistingReplacementTarget,
)
    requires
        seen.parent == Some(Ok::<(), IoFailure>(())),
        seen.directory == Some(Ok::<Option<FileIdentity>, IoFailure>(made)),
        seen.file == Some(Ok::<(), IoFailure>(())),
        seen.restricted == Some(Ok::<(), IoFailure>(())),
        seen.stat == Some(Ok::<ExistingReplacementTarget, IoFailure>(stat)),
        stat.file_type == FileType::RegularFile,
        stat.links == 1,
        stat.uid == euid,
        stat.mode & 0o7777 == 0o600,
    ensures
        creating(seen, euid) == CreateStep::Done(Ok(made)),
{
}

/// A stage that is not made met the failure that is told, or turned out not to be
/// private. What is taken back failed before, and nothing is done twice.
pub proof fn law_unmade_stages_have_their_cause(seen: CreateSeen, euid: u32)
    ensures
        creating(seen, euid) matches CreateStep::Done(Err(failure)) ==> seen.parent == Some(
            Err::<(), IoFailure>(failure),
        ) || seen.directory == Some(Err::<Option<FileIdentity>, IoFailure>(failure)) || seen.file
            == Some(Err::<(), IoFailure>(failure)) || seen.restricted == Some(
            Err::<(), IoFailure>(failure),
        ) || seen.stat == Some(Err::<ExistingReplacementTarget, IoFailure>(failure)) || (
        failure.kind == IoErrorKind::InvalidData && (seen.stat matches Some(Ok(stat)) && (
        stat.file_type != FileType::RegularFile || stat.links != 1 || stat.uid != euid || stat.mode
            & 0o7777 != 0o600))),
        creating(seen, euid) matches CreateStep::Ask(probe) ==> match probe {
            CreateProbe::OpenParent => seen.parent is None,
            CreateProbe::EnsureDirectory => seen.directory is None,
            CreateProbe::CreateFile => seen.file is None,
            CreateProbe::Restrict => seen.restricted is None,
            CreateProbe::StatFile => seen.stat is None,
            CreateProbe::RemoveFile => !seen.removed && ((seen.restricted matches Some(Err(_)))
                || seen.stat is Some),
            CreateProbe::Rollback => !seen.rolled_back && ((seen.directory matches Some(Err(_)))
                || (seen.file matches Some(Err(_))) || seen.removed),
        },
{
}

/// An empty directory of stages that still has its name is removed.
pub proof fn law_empty_directories_are_removed(seen: CleanupSeen, identity: FileIdentity)
    requires
        seen.parent == Some(Ok::<(), IoFailure>(())),
        seen.directory == Some(Ok::<(), IoFailure>(())),
        seen.opened == Some(Ok::<FileIdentity, IoFailure>(identity)),
        seen.named == Some(Ok::<FileIdentity, IoFailure>(identity)),
    ensures
        seen.removed is None ==> cleanup_checks(seen) == CleanupCheck::Ask(CleanupProbe::Remove),
        (seen.removed matches Some(Ok(_))) && (seen.synced matches Some(Ok(_)))
            ==> cleanup_checks(seen).otherwise(Ok(true)) == CleanupStep::Done(Ok(true)),
{
}

/// Each other end of a removal has its cause: the directory was gone or in use, its name
/// leads elsewhere, or a failure was met. Nothing is done twice.
pub proof fn law_ends_of_cleanups_have_their_cause(seen: CleanupSeen)
    ensures
        cleanup_checks(seen) matches CleanupCheck::Stop(ended) ==> match ended {
            Ok(true) => false,
            Ok(false) => {
                ||| (seen.parent matches Some(Err(failure)) && failure.missing())
                ||| (seen.directory matches Some(Err(failure)) && failure.kind
                    == IoErrorKind::NotFound)
                ||| (seen.removed matches Some(Err(failure)) && (failure.kind
                    == IoErrorKind::NotFound || failure.kind == IoErrorKind::DirectoryNotEmpty
                    || failure.kind == IoErrorKind::AlreadyExists))
            },
            Err(failure) => {
                ||| seen.parent == Some(Err::<(), IoFailure>(failure)) && !failure.missing()
                ||| seen.directory == Some(Err::<(), IoFailure>(failure)) && failure.kind
                    != IoErrorKind::NotFound
                ||| seen.opened == Some(Err::<FileIdentity, IoFailure>(failure))
                ||| seen.named == Some(Err::<FileIdentity, IoFailure>(failure))
                ||| failure.kind == IoErrorKind::InvalidData && seen.opened != seen.named
                ||| seen.removed == Some(Err::<(), IoFailure>(failure))
                ||| seen.synced == Some(Err::<(), IoFailure>(failure))
            },
        },
        cleanup_checks(seen) matches CleanupCheck::Ask(probe) ==> match probe {
            CleanupProbe::OpenParent => seen.parent is None,
            CleanupProbe::OpenDirectory => seen.directory is None,
            CleanupProbe::IdentifyOpened => seen.opened is None,
            CleanupProbe::IdentifyNamed => seen.named is None,
            CleanupProbe::Remove => seen.removed is None,
            CleanupProbe::SyncParent => seen.synced is None && (seen.removed matches Some(Ok(_))),
        },
{
}

/// A file with one name that has the recorded device and inode, whether it is looked at
/// by its name or opened, is the expected stage.
pub proof fn law_expected_stages_match(
    expected: FileIdentity,
    seen: ExpectedSeen,
    named: ExistingReplacementTarget,
    opened: ExistingReplacementTarget,
    again: ExistingReplacementTarget,
)
    requires
        seen.named == Some(Ok::<ExistingReplacementTarget, IoFailure>(named)),
        seen.open == Some(Ok::<(), IoFailure>(())),
        seen.opened == Some(Ok::<ExistingReplacementTarget, IoFailure>(opened)),
        seen.named_again == Some(Ok::<ExistingReplacementTarget, IoFailure>(again)),
        named.file_type == FileType::RegularFile && named.links == 1 && named.device
            == expected.device && named.inode == expected.inode,
        opened.file_type == FileType::RegularFile && opened.links == 1 && opened.device
            == expected.device && opened.inode == expected.inode,
        again.file_type == FileType::RegularFile && again.links == 1 && again.device
            == expected.device && again.inode == expected.inode,
    ensures
        expecting(expected, seen) == ExpectedStep::Done(Ok(ExpectedUploadStage::Match)),
{
}

/// What is told of an expected stage has its cause: it is missing where its name is not
/// found, another stands there where something of it differs or it is gone when it is
/// opened, and else a failure was met.
pub proof fn law_other_stages_have_their_cause(expected: FileIdentity, seen: ExpectedSeen)
    ensures
        expecting(expected, seen) matches ExpectedStep::Done(ended) ==> match ended {
            Ok(ExpectedUploadStage::Match) => (seen.named matches Some(Ok(_))) && (
            seen.named_again matches Some(Ok(_))),
            Ok(ExpectedUploadStage::Missing) => seen.named matches Some(Err(failure))
                && failure.kind == IoErrorKind::NotFound,
            Ok(ExpectedUploadStage::Mismatch) => {
                ||| (seen.named matches Some(Ok(named)) && is_another(named, expected))
                ||| (seen.open matches Some(Err(failure)) && failure.missing())
                ||| (seen.opened matches Some(Err(failure)) && failure.kind
                    == IoErrorKind::InvalidData)
                ||| (seen.named_again matches Some(Err(failure)) && failure.kind
                    == IoErrorKind::InvalidData)
                ||| (seen.opened matches Some(Ok(opened)) && is_another(opened, expected))
                ||| (seen.named_again matches Some(Ok(again)) && is_another(again, expected))
            },
            Err(failure) => {
                ||| seen.named == Some(Err::<ExistingReplacementTarget, IoFailure>(failure))
                ||| seen.open == Some(Err::<(), IoFailure>(failure))
                ||| seen.opened == Some(Err::<ExistingReplacementTarget, IoFailure>(failure))
                ||| seen.named_again == Some(Err::<ExistingReplacementTarget, IoFailure>(failure))
            },
        },
        expecting(expected, seen) matches ExpectedStep::Ask(probe) ==> match probe {
            ExpectedProbe::StatNamed => seen.named is None,
            ExpectedProbe::Open => seen.open is None,
            ExpectedProbe::StatOpened => seen.opened is None && (seen.open matches Some(Ok(_))),
            ExpectedProbe::StatNamedAgain => seen.named_again is None,
        },
{
}

/// An entry that is not the file that was recorded, or that has another name as well.
pub open spec fn is_another(entry: ExistingReplacementTarget, expected: FileIdentity) -> bool {
    ||| entry.file_type != FileType::RegularFile
    ||| entry.links != 1
    ||| entry.device != expected.device
    ||| entry.inode != expected.inode
}

/// A recorded stage is told as it was found. Where none is recorded, anything under the
/// name is another, and where its directory is gone the stage is missing.
pub proof fn law_stages_are_told_as_found(seen: ValidateSeen, is_recorded: bool)
    ensures
        (seen.parent matches Some(Err(failure)) && failure.missing()) ==> validating(
            is_recorded,
            seen,
        ) == ValidateStep::Done(Ok(PrivateUploadStageValidation::Missing)),
        (seen.parent matches Some(Ok(_))) && (seen.directory matches Some(Err(failure))
            && failure.kind == IoErrorKind::NotFound) ==> validating(is_recorded, seen)
            == ValidateStep::Done(Ok(PrivateUploadStageValidation::Missing)),
        (seen.parent matches Some(Ok(_))) && (seen.directory matches Some(Ok(_))) ==> (
        seen.expected matches Some(Ok(found)) ==> validating(true, seen) == ValidateStep::Done(
            Ok(
                match found {
                    ExpectedUploadStage::Match => PrivateUploadStageValidation::Present,
                    ExpectedUploadStage::Missing => PrivateUploadStageValidation::Missing,
                    ExpectedUploadStage::Mismatch => PrivateUploadStageValidation::IdentityMismatch,
                },
            ),
        )),
        (seen.parent matches Some(Ok(_))) && (seen.directory matches Some(Ok(_))) ==> (
        seen.name matches Some(looked) ==> validating(false, seen) == ValidateStep::Done(
            match looked {
                Ok(_) => Ok(PrivateUploadStageValidation::IdentityMismatch),
                Err(failure) => if failure.kind == IoErrorKind::NotFound {
                    Ok(PrivateUploadStageValidation::Missing)
                } else {
                    Err(failure)
                },
            },
        )),
        validating(is_recorded, seen) matches ValidateStep::Done(Err(failure)) ==> seen.parent
            == Some(Err::<(), IoFailure>(failure)) || seen.directory == Some(
            Err::<(), IoFailure>(failure),
        ) || seen.name == Some(Err::<(), IoFailure>(failure)) || seen.expected == Some(
            Err::<ExpectedUploadStage, IoFailure>(failure),
        ),
        validating(is_recorded, seen) matches ValidateStep::Ask(probe) ==> match probe {
            ValidateProbe::OpenParent => seen.parent is None,
            ValidateProbe::OpenDirectory => seen.directory is None,
            ValidateProbe::InspectName => seen.name is None && !is_recorded,
            ValidateProbe::OpenExpected => seen.expected is None && is_recorded,
        },
{
}

/// The path of a stage goes on below the root to a directory of stages and the name of a
/// stage in it.
pub proof fn law_stages_lie_in_their_directories(
    root: Seq<Seq<u8>>,
    middle: Seq<Seq<u8>>,
    directory: Seq<u8>,
    name: Seq<u8>,
)
    requires
        names::all_normal(middle.push(directory).push(name)),
    ensures
        is_stage_path(root, root + middle.push(directory).push(name)) <==> directory == encode_utf8(
            ".dufs-upload-stages"@,
        ) && valid_utf8(name) && internal_names::is_stage_name(decode_utf8(name)),
{
    let rest = middle.push(directory).push(name);
    names::law_paths_go_on_below_the_root(root, rest);
    let path = root + rest;
    assert(path[path.len() - 2] == rest[rest.len() - 2]);
    assert(path.last() == rest.last());
}

/// A directory of stages lies below the root and has the name of such directories.
pub proof fn law_directories_of_stages_have_their_name(
    root: Seq<Seq<u8>>,
    middle: Seq<Seq<u8>>,
    name: Seq<u8>,
)
    requires
        names::all_normal(middle.push(name)),
        valid_utf8(name),
    ensures
        is_stage_directory_path(root, root + middle.push(name)) <==> decode_utf8(name)
            == ".dufs-upload-stages"@,
{
    let rest = middle.push(name);
    names::law_paths_go_on_below_the_root(root, rest);
    assert((root + rest).last() == rest.last());
}

} // verus!
