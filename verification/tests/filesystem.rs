use dufs::io_error::{IoErrorKind, IoFailure, ERROR_CROSS_DEVICE, ERROR_LOOP};
use dufs::path_coordinator::{FileIdentity, ResolvedPathKey};
use dufs::paths::LexicalPath;
use dufs::rooted_fs::ancestors::{
    enter_ancestor, rollback_created_ancestor, AncestorProbe, AncestorSeen, AncestorVerdict,
    MakeResult, NearestWalk, ParentWalk, RollbackProbe, RollbackSeen, RollbackVerdict,
};
use dufs::rooted_fs::entry::{
    create_directory, remove_entry, MakeProbe, MakeSeen, RemoveProbe, RemoveSeen,
};
use dufs::rooted_fs::identity::{
    DeleteIdentity, ExistingReplacementTarget, FileType, ReplacementTargetIdentity,
};
use dufs::rooted_fs::publish::{
    rename_replace_if_unchanged, PublishProbe, PublishSeen, ReplaceAndSyncOutcome,
};
use dufs::rooted_fs::readiness::{
    open_readiness_probe, probe_writable, ReadinessProbe, ReadinessSeen, WritableProbe,
    WritableSeen,
};
use dufs::rooted_fs::rename::{
    rename_if_unchanged, CheckedRelocationOutcome, RenameProbe, RenameSeen,
};
use dufs::rooted_fs::replacement::{
    replacement_identity, replacement_metadata, IdentitySeen, PreserveProbe, PreserveSeen,
    ReplacementTarget,
};
use dufs::rooted_fs::resolve::{
    platform_path_conflict, resolved_path_key, target_directory, AncestryStep, AncestryWalk,
    PrefixSearch, TargetProbe, TargetSeen,
};
use dufs::rooted_fs::stage::{
    check_stage_directory_path, create_private_upload_stage,
    ensure_private_upload_stage_directory, open_expected_upload_stage,
    open_upload_stage_directory, remove_empty_upload_stage_directory,
    validate_private_upload_stage, validated_upload_stage_path, CleanupProbe, CleanupSeen,
    CreateProbe, CreateSeen, DirectoryProbe, DirectorySeen, EnsureProbe, EnsureSeen,
    ExpectedProbe, ExpectedSeen, ExpectedUploadStage, PrivateUploadStageValidation, ValidateSeen,
};
use dufs::rooted_fs::trash::{
    can_be_quarantined, capture_entry_for_purge_with_type, classify_failed_checked_trash_rename,
    move_to_trash_with_expected_identity_outcome, quarantine_after, quarantine_path,
    trash_path_for_id, CaptureSeen, QuarantineStep, TrashProbe, TrashSeen, TrashVerdict,
};
use dufs::rooted_fs::visit::{
    directory_entry_is_symlink, visit_entry, DirectoryCursor, DirectoryVisit,
    DirectoryVisitProgress, VisitFlow, VisitProbe, VisitSeen, VisitVerdict,
};
use dufs::rooted_fs::xattrs::{
    apply_file_metadata, attribute_plan, final_mode, is_posix_access_acl, is_privileged_xattr,
    owner_change, ApplyProbe, ApplySeen, PreservedFileMetadata, RestoreAction, Xattr, XattrReader, XattrStep,
};
use dufs::steps::Step;

fn path(text: &str) -> LexicalPath {
    let mut path = LexicalPath::new();
    for name in text.split('/').filter(|name| !name.is_empty()) {
        path.push(name.as_bytes());
    }
    path
}

fn failure(kind: IoErrorKind) -> IoFailure {
    IoFailure { kind, number: None }
}

fn entry(inode: u64, file_type: FileType, mode: u32) -> ExistingReplacementTarget {
    ExistingReplacementTarget {
        device: 1,
        inode,
        file_type,
        links: 1,
        size: 3,
        uid: 1000,
        gid: 1000,
        mode,
        modified_seconds: 5,
        modified_nanoseconds: 6,
        changed_seconds: 7,
        changed_nanoseconds: 8,
    }
}

fn file(inode: u64) -> ExistingReplacementTarget {
    entry(inode, FileType::RegularFile, 0o100600)
}

fn directory(inode: u64) -> ExistingReplacementTarget {
    entry(inode, FileType::Directory, 0o040700)
}

fn identity(inode: u64) -> FileIdentity {
    FileIdentity { device: 1, inode }
}

#[test]
fn known_directory_entry_types_avoid_the_metadata_fallback() {
    assert_eq!(directory_entry_is_symlink(FileType::Symlink), Some(true));
    assert_eq!(
        directory_entry_is_symlink(FileType::RegularFile),
        Some(false)
    );
    assert_eq!(
        directory_entry_is_symlink(FileType::Unknown),
        None,
        "unknown dirent types must use the no-follow metadata fallback"
    );
}

#[test]
fn privileged_extended_attribute_names_are_rejected_as_a_class() {
    for name in [
        "security.capability",
        "security.ima",
        "security.evm",
        "security.selinux",
        "trusted.overlay.opaque",
    ] {
        assert!(is_privileged_xattr(name.as_bytes()), "name={name:?}");
    }
    for name in ["user.comment", "system.posix_acl_access"] {
        assert!(!is_privileged_xattr(name.as_bytes()), "name={name:?}");
    }
    assert!(is_posix_access_acl(b"system.posix_acl_access"));
    assert!(!is_posix_access_acl(b"system.posix_acl_default"));
}

fn deleted(target: ExistingReplacementTarget) -> DeleteIdentity {
    target.delete_identity_from_stat()
}

#[test]
fn failed_checked_trash_rename_is_known_not_moved_only_when_source_still_matches() {
    assert!(matches!(
        classify_failed_checked_trash_rename(
            Ok(file(1)),
            Ok(file(2)),
            deleted(file(1)),
            failure(IoErrorKind::Other),
        ),
        TrashVerdict::NotMoved(_)
    ));
    assert!(matches!(
        classify_failed_checked_trash_rename(
            Ok(file(1)),
            Err(failure(IoErrorKind::NotFound)),
            deleted(file(1)),
            failure(IoErrorKind::Other),
        ),
        TrashVerdict::NotMoved(_)
    ));
}

#[test]
fn failed_checked_trash_rename_is_unknown_when_trash_has_expected_identity() {
    assert!(matches!(
        classify_failed_checked_trash_rename(
            Err(failure(IoErrorKind::NotFound)),
            Ok(file(1)),
            deleted(file(1)),
            failure(IoErrorKind::Other),
        ),
        TrashVerdict::DurabilityUnknown(_)
    ));
}

#[test]
fn failed_checked_trash_rename_is_unknown_when_neither_name_proves_no_move() {
    assert!(matches!(
        classify_failed_checked_trash_rename(
            Ok(file(9)),
            Err(failure(IoErrorKind::NotFound)),
            deleted(file(1)),
            failure(IoErrorKind::Other),
        ),
        TrashVerdict::DurabilityUnknown(_)
    ));
}

fn move_to_trash(
    expected: DeleteIdentity,
    answers: impl Fn(TrashProbe, &mut TrashSeen),
) -> (TrashVerdict, Vec<TrashProbe>) {
    let mut seen = TrashSeen::new();
    let mut asked = Vec::new();
    for _ in 0..32 {
        match move_to_trash_with_expected_identity_outcome(expected, None, &seen) {
            Step::Ask(probe) => {
                asked.push(probe);
                answers(probe, &mut seen);
            }
            Step::Done(verdict) => return (verdict, asked),
        }
    }
    panic!("the move must end");
}

fn calm_trash(probe: TrashProbe, seen: &mut TrashSeen) {
    match probe {
        TrashProbe::OpenParent => seen.parent = Some(Ok(())),
        TrashProbe::StatTarget => seen.target = Some(Ok(file(1))),
        TrashProbe::OpenAnchor => seen.anchor_opened = Some(Ok(())),
        TrashProbe::StatAnchor => seen.anchor = Some(Ok(file(1))),
        TrashProbe::StatTargetAgain => seen.target_again = Some(Ok(file(1))),
        TrashProbe::RenameNoReplace => seen.renamed = Some(Ok(())),
        TrashProbe::StatTargetAfterFailure => seen.target_after_failure = Some(Ok(file(1))),
        TrashProbe::StatTrashAfterFailure => {
            seen.trash_after_failure = Some(Err(failure(IoErrorKind::NotFound)))
        }
        TrashProbe::StatAnchorAfterRename => seen.anchor_after = Some(Ok(file(1))),
        TrashProbe::StatTrashAfterRename => seen.trash_after = Some(Ok(file(1))),
        TrashProbe::SyncParent => seen.synced = Some(Ok(())),
    }
}

#[test]
fn entries_move_to_the_trash_as_they_were_checked() {
    let (verdict, asked) = move_to_trash(deleted(file(1)), calm_trash);
    assert!(matches!(verdict, TrashVerdict::Moved(moved) if moved.inode == 1));
    assert!(asked.contains(&TrashProbe::SyncParent));

    let (verdict, asked) = move_to_trash(deleted(file(2)), calm_trash);
    assert!(matches!(verdict, TrashVerdict::TargetChanged));
    assert!(!asked.contains(&TrashProbe::RenameNoReplace));

    let (verdict, _) = move_to_trash(deleted(file(1)), |probe, seen| match probe {
        TrashProbe::RenameNoReplace => {
            seen.renamed = Some(Err(failure(IoErrorKind::AlreadyExists)))
        }
        _ => calm_trash(probe, seen),
    });
    assert!(matches!(verdict, TrashVerdict::NotMoved(_)));

    let (verdict, _) = move_to_trash(deleted(file(1)), |probe, seen| match probe {
        TrashProbe::SyncParent => seen.synced = Some(Err(failure(IoErrorKind::Other))),
        _ => calm_trash(probe, seen),
    });
    assert!(matches!(verdict, TrashVerdict::DurabilityUnknown(_)));
}

#[test]
fn trash_and_quarantine_have_their_places() {
    let root = path("/srv/share");
    let trash = trash_path_for_id(&root, &path("/srv/share/a/b"), 0).unwrap();
    assert!(trash.equals(&path(
        "/srv/share/a/.dufs-upload-delete-00000000-0000-0000-0000-000000000000.trash"
    )));
    assert!(trash_path_for_id(&root, &root, 0).is_err());
    assert!(can_be_quarantined(&trash));
    assert!(!can_be_quarantined(&path("/srv/share/a/b")));
    assert!(quarantine_path(&trash, 1).unwrap().equals(&path(
        "/srv/share/a/.dufs-quarantine-00000000-0000-0000-0000-000000000001.hold"
    )));
    assert!(matches!(quarantine_after(1, Ok(())), QuarantineStep::Sync));
    assert!(matches!(
        quarantine_after(1, Err(failure(IoErrorKind::AlreadyExists))),
        QuarantineStep::Try
    ));
    assert!(matches!(
        quarantine_after(16, Err(failure(IoErrorKind::AlreadyExists))),
        QuarantineStep::Fail(_)
    ));
    assert!(matches!(
        quarantine_after(1, Err(failure(IoErrorKind::NotFound))),
        QuarantineStep::Nothing
    ));
}

#[test]
fn purges_capture_what_was_recorded() {
    let target = directory(4);
    let revision = ReplacementTargetIdentity::Existing(target).purge_revision();
    let seen = CaptureSeen {
        parent: Some(Ok(())),
        anchor_opened: Some(Ok(())),
        anchor: Some(Ok(target)),
        named: Some(Ok(target)),
    };
    assert!(matches!(
        capture_entry_for_purge_with_type(Some(true), Some(revision), &seen),
        Step::Done(Ok(Some(captured))) if captured == target
    ));
    assert!(matches!(
        capture_entry_for_purge_with_type(Some(false), Some(revision), &seen),
        Step::Done(Err(_))
    ));
    assert!(matches!(
        capture_entry_for_purge_with_type(Some(true), Some([0; 32]), &seen),
        Step::Done(Err(_))
    ));
    let gone = CaptureSeen {
        parent: Some(Err(failure(IoErrorKind::NotFound))),
        ..seen
    };
    assert!(matches!(
        capture_entry_for_purge_with_type(None, None, &gone),
        Step::Done(Ok(None))
    ));
}

#[test]
fn missing_ancestors_are_made_and_flushed() {
    let mut seen = AncestorSeen::new();
    let mut asked = Vec::new();
    let verdict = loop {
        match enter_ancestor(true, &seen) {
            Step::Ask(probe) => {
                asked.push(probe);
                match probe {
                    AncestorProbe::Open => {
                        seen.opened = Some(Err(failure(IoErrorKind::NotFound)))
                    }
                    AncestorProbe::Make => seen.made = Some(MakeResult::Made),
                    AncestorProbe::Sync => seen.synced = Some(Ok(())),
                    AncestorProbe::Inspect => seen.inspected = Some(Ok((true, identity(7)))),
                    AncestorProbe::Reopen => seen.reopened = Some(Ok(())),
                    _ => panic!("nothing has to be taken back"),
                }
            }
            Step::Done(verdict) => break verdict,
        }
    };
    assert!(matches!(verdict, AncestorVerdict::Entered(Some(made)) if made == identity(7)));
    assert_eq!(asked.len(), 5);
}

#[test]
fn ancestors_that_cannot_be_used_are_taken_back() {
    let mut seen = AncestorSeen::new();
    seen.opened = Some(Err(failure(IoErrorKind::NotFound)));
    assert!(matches!(
        enter_ancestor(false, &seen),
        Step::Ask(AncestorProbe::Rollback)
    ));
    seen.made = Some(MakeResult::Made);
    seen.synced = Some(Err(failure(IoErrorKind::StorageFull)));
    assert!(matches!(
        enter_ancestor(true, &seen),
        Step::Ask(AncestorProbe::Remove)
    ));
    seen.removed = true;
    assert!(matches!(
        enter_ancestor(true, &seen),
        Step::Ask(AncestorProbe::Rollback)
    ));
    seen.rolled_back = true;
    assert!(matches!(
        enter_ancestor(true, &seen),
        Step::Done(AncestorVerdict::Failed(reason)) if reason.kind == IoErrorKind::StorageFull
    ));
    seen.synced = Some(Ok(()));
    seen.inspected = Some(Ok((false, identity(7))));
    assert!(matches!(
        enter_ancestor(true, &seen),
        Step::Done(AncestorVerdict::Failed(reason)) if reason.kind == IoErrorKind::InvalidData
    ));
}

#[test]
fn the_way_to_an_entry_is_walked_one_directory_at_a_time() {
    let root = path("/srv/share");
    let mut walk = ParentWalk::new(&root, &path("/srv/share/a/b/file")).unwrap_or_else(|_| {
        panic!("the path lies below the root");
    });
    assert!(walk.next_prefix().unwrap().equals(&path("a")));
    walk.enter(None);
    assert!(walk.next_prefix().unwrap().equals(&path("a/b")));
    walk.enter(Some(identity(9)));
    assert!(walk.next_prefix().is_none());
    assert_eq!(walk.entry_name(), b"file");
    let created = walk.into_created();
    assert_eq!(created.len(), 1);
    assert!(created[0].path.equals(&path("/srv/share/a/b")));
    assert_eq!(created[0].identity, identity(9));
    assert!(ParentWalk::new(&root, &root).is_err());
}

#[test]
fn only_unchanged_empty_directories_are_taken_back() {
    let mut seen = RollbackSeen::new();
    assert!(matches!(
        rollback_created_ancestor(identity(9), &seen),
        Step::Ask(RollbackProbe::OpenParent)
    ));
    seen.parent = Some(Ok(()));
    seen.inspected = Some(Ok((true, identity(8))));
    assert!(matches!(
        rollback_created_ancestor(identity(9), &seen),
        Step::Done(RollbackVerdict::Stop)
    ));
    seen.inspected = Some(Ok((true, identity(9))));
    assert!(matches!(
        rollback_created_ancestor(identity(9), &seen),
        Step::Ask(RollbackProbe::Remove)
    ));
    seen.removed = Some(Err(failure(IoErrorKind::DirectoryNotEmpty)));
    assert!(matches!(
        rollback_created_ancestor(identity(9), &seen),
        Step::Done(RollbackVerdict::Stop)
    ));
    seen.removed = Some(Ok(()));
    seen.synced = Some(Ok(()));
    assert!(matches!(
        rollback_created_ancestor(identity(9), &seen),
        Step::Done(RollbackVerdict::Next)
    ));
}

#[test]
fn the_nearest_directory_is_the_last_that_can_be_opened() {
    let mut walk = NearestWalk::new(3);
    assert_eq!(walk.next_length(), Some(1));
    assert!(walk.note(Ok(())).is_ok());
    assert_eq!(walk.next_length(), Some(2));
    assert!(walk.note(Err(failure(IoErrorKind::NotFound))).is_ok());
    assert_eq!(walk.next_length(), None);
    let mut walk = NearestWalk::new(1);
    assert!(walk.note(Err(failure(IoErrorKind::Other))).is_err());
}

fn deepest(length: usize, openable: usize) -> (usize, usize) {
    let mut search = PrefixSearch::new(length);
    let mut probes = 0;
    while let Some(candidate) = search.candidate() {
        probes += 1;
        let opened = if candidate <= openable {
            Ok(())
        } else {
            Err(failure(IoErrorKind::NotFound))
        };
        assert!(search.note(opened).is_ok());
    }
    (search.resolved(), probes)
}

#[test]
fn searches_for_a_prefix_find_the_deepest_with_few_probes() {
    for length in 0..40 {
        for openable in 0..=length {
            let (found, probes) = deepest(length, openable);
            assert_eq!(found, openable);
            assert!(probes <= 8, "{length} {openable} took {probes}");
        }
    }
    assert_eq!(deepest(1000, 1000), (1000, 1));
    for openable in 0..1024 {
        assert!(deepest(1024, openable).1 <= 11);
    }
    let mut search = PrefixSearch::new(4);
    assert!(search
        .note(Err(IoFailure {
            kind: IoErrorKind::Other,
            number: Some(ERROR_CROSS_DEVICE)
        }))
        .is_err());
}

#[test]
fn ancestries_lead_from_the_root_down() {
    let mut walk = AncestryWalk::new(identity(1));
    assert_eq!(walk.visit(identity(3)), AncestryStep::Climb);
    assert!(walk.climb(identity(2)).is_ok());
    assert_eq!(walk.visit(identity(2)), AncestryStep::Climb);
    assert!(walk.climb(identity(1)).is_ok());
    assert_eq!(walk.visit(identity(1)), AncestryStep::Reached);
    assert_eq!(
        walk.into_ancestry(),
        vec![identity(1), identity(2), identity(3)]
    );
    let mut detached = AncestryWalk::new(identity(1));
    assert_eq!(detached.visit(identity(5)), AncestryStep::Climb);
    assert_eq!(
        detached.climb(identity(5)).err().unwrap().kind,
        IoErrorKind::PermissionDenied
    );
    let mut endless = AncestryWalk::new(identity(1));
    for inode in 0..4096 {
        assert_eq!(endless.visit(identity(inode + 10)), AncestryStep::Climb);
    }
    assert_eq!(
        endless.climb(identity(9)).err().unwrap().kind,
        IoErrorKind::InvalidData
    );
}

fn key(relative: &str, resolved: usize, ancestry: &[u64], target: Option<u64>) -> ResolvedPathKey {
    resolved_path_key(
        &path(relative),
        resolved,
        ancestry.iter().map(|inode| identity(*inode)).collect(),
        target.map(identity),
    )
}

#[test]
fn reserved_paths_are_protected_wherever_a_path_leads() {
    let api = || key("api/v2/auth", 2, &[1, 2, 3], Some(4));
    let below = Ok(key("link/login", 1, &[1, 2, 3, 4], None));
    let above = Ok(key("api", 0, &[1], Some(2)));
    let apart = Ok(key("notes.txt", 0, &[1], None));
    let reserved = || vec![Ok(api())];
    assert_eq!(
        platform_path_conflict(false, &below, &reserved(), false),
        Ok(true)
    );
    assert_eq!(
        platform_path_conflict(false, &above, &reserved(), false),
        Ok(false)
    );
    assert_eq!(
        platform_path_conflict(false, &above, &reserved(), true),
        Ok(true)
    );
    assert_eq!(
        platform_path_conflict(false, &apart, &reserved(), true),
        Ok(false)
    );
    assert_eq!(
        platform_path_conflict(true, &apart, &reserved(), true),
        Ok(true)
    );
    let escape = Err(IoFailure {
        kind: IoErrorKind::Other,
        number: Some(ERROR_CROSS_DEVICE),
    });
    assert_eq!(
        platform_path_conflict(false, &escape, &reserved(), false),
        Ok(true)
    );
    assert!(platform_path_conflict(
        false,
        &apart,
        &vec![Err(failure(IoErrorKind::Other))],
        false
    )
    .is_err());
}

#[test]
fn named_directories_are_opened_to_be_identified() {
    let mut seen = TargetSeen {
        is_directory: None,
        opened: None,
    };
    assert!(matches!(
        target_directory(false, &seen),
        Step::Done(Ok(None))
    ));
    assert!(matches!(
        target_directory(true, &seen),
        Step::Ask(TargetProbe::Inspect)
    ));
    seen.is_directory = Some(Ok(true));
    assert!(matches!(
        target_directory(true, &seen),
        Step::Ask(TargetProbe::Open)
    ));
    seen.opened = Some(Ok(identity(6)));
    assert!(matches!(
        target_directory(true, &seen),
        Step::Done(Ok(Some(found))) if found == identity(6)
    ));
}

fn attribute(name: &str, value: &[u8]) -> Xattr {
    Xattr {
        name: name.as_bytes().to_vec(),
        value: value.to_vec(),
    }
}

#[test]
fn attributes_are_read_within_bounds() {
    let mut reader = XattrReader::start(b"user.a\0user.b\0".to_vec(), 100)
        .unwrap_or_else(|_| panic!("two names are few enough"));
    for (listed, value) in [("user.a", b"abc".to_vec()), ("user.b", Vec::new())] {
        match reader.next() {
            XattrStep::Measure(name) => assert_eq!(name, listed.as_bytes()),
            _ => panic!("another attribute is listed"),
        }
        assert!(reader.reserve(value.len()).is_ok());
        reader.take(value);
    }
    assert!(matches!(reader.next(), XattrStep::Complete));
    let attributes = reader.into_attributes();
    assert_eq!(attributes.len(), 2);
    assert_eq!(attributes[0].name, b"user.a");
    assert_eq!(attributes[0].value, b"abc");
    assert_eq!(attributes[1].name, b"user.b");

    let mut reader = XattrReader::start(b"user.a\0".to_vec(), 0).unwrap_or_else(|_| panic!());
    assert!(reader.reserve(65_537).is_err());
    let mut reader =
        XattrReader::start(b"user.a\0".to_vec(), 1_048_576 - 10).unwrap_or_else(|_| panic!());
    assert!(reader.reserve(4).is_err());
    assert!(reader.reserve(3).is_ok());
    assert!(matches!(
        XattrReader::start(b"user.a".to_vec(), 0)
            .unwrap_or_else(|_| panic!())
            .next(),
        XattrStep::Failed(_)
    ));
    assert!(XattrReader::start(vec![0; 1025], 0).is_err());
    assert!(XattrReader::start_with_room(vec![0; 1025]).is_err());
    let mut reader = XattrReader::start_with_room(b"user.a\0".to_vec())
        .unwrap_or_else(|_| panic!("there is room for one attribute"));
    assert!(reader.reserve(3).is_ok());
    reader.take(b"abc".to_vec());
    assert!(matches!(reader.next(), XattrStep::Complete));
}

#[test]
fn attributes_are_put_back_with_the_access_list_last() {
    let current = vec![
        attribute("user.old", b"1"),
        attribute("user.keep", b"2"),
    ];
    let preserved = vec![
        attribute("system.posix_acl_access", b"acl"),
        attribute("user.keep", b"3"),
        attribute("user.other", b"4"),
    ];
    let plan = attribute_plan(&current, &preserved);
    assert_eq!(plan.len(), 4);
    assert!(matches!(&plan[0], RestoreAction::Remove(name) if name == b"user.old"));
    assert!(matches!(plan[1], RestoreAction::Put(1)));
    assert!(matches!(plan[2], RestoreAction::Put(2)));
    assert!(matches!(plan[3], RestoreAction::Put(0)));
    let metadata = PreservedFileMetadata {
        uid: 5,
        gid: 6,
        mode: 0o100644,
        xattrs: Vec::new(),
    };
    assert_eq!(final_mode(&metadata), 0o644);
    assert_eq!(owner_change(5, 6, &metadata), None);
    assert_eq!(owner_change(5, 7, &metadata), Some((5, 6)));
}

fn preserve(
    target: ExistingReplacementTarget,
    privileged: bool,
) -> (Result<ReplacementTarget, IoFailure>, Vec<PreserveProbe>) {
    let mut seen = PreserveSeen::new();
    let mut asked = Vec::new();
    loop {
        match replacement_metadata(&seen) {
            Step::Done(verdict) => return (verdict, asked),
            Step::Ask(probe) => {
                asked.push(probe);
                match probe {
                    PreserveProbe::Inspect => {
                        seen.identity = Some(Ok(ReplacementTargetIdentity::Existing(target)))
                    }
                    PreserveProbe::Open => seen.opened = Some(Ok(())),
                    PreserveProbe::StatOpened => seen.stat = Some(Ok(target)),
                    PreserveProbe::ReadAttributes => seen.has_privileged = Some(Ok(privileged)),
                    PreserveProbe::StatAgain => seen.stat_again = Some(Ok(target)),
                }
            }
        }
    }
}

#[test]
fn metadata_is_preserved_of_ordinary_files_only() {
    let (kept, _) = preserve(file(1), false);
    assert_eq!(kept, Ok(ReplacementTarget::File(file(1))));
    let (refused, _) = preserve(file(1), true);
    assert_eq!(refused.err().unwrap().kind, IoErrorKind::Unsupported);
    let (refused, asked) = preserve(entry(1, FileType::Fifo, 0o600), false);
    assert_eq!(refused.err().unwrap().kind, IoErrorKind::Unsupported);
    assert!(!asked.contains(&PreserveProbe::Open));
    let (refused, asked) = preserve(entry(1, FileType::RegularFile, 0o104755), false);
    assert_eq!(refused.err().unwrap().kind, IoErrorKind::Unsupported);
    assert!(!asked.contains(&PreserveProbe::Open));
    let mut linked = file(1);
    linked.links = 2;
    let (refused, _) = preserve(linked, false);
    assert_eq!(refused.err().unwrap().kind, IoErrorKind::Unsupported);
    let link = entry(1, FileType::Symlink, 0o777);
    assert_eq!(preserve(link, false).0, Ok(ReplacementTarget::Link(link)));
    assert!(matches!(
        replacement_identity(&IdentitySeen {
            parent: Some(Err(failure(IoErrorKind::NotFound))),
            entry: None,
        }),
        Step::Done(Ok(ReplacementTargetIdentity::Missing))
    ));
}

#[test]
fn stages_have_canonical_paths() {
    let root = path("/srv/share");
    let name = format!(
        ".dufs-upload-{}-00000000-0000-0000-0000-000000000000.part",
        "a".repeat(64)
    );
    let stage = path(&format!("/srv/share/docs/.dufs-upload-stages/{name}"));
    let (directory, found) = validated_upload_stage_path(&root, &stage)
        .unwrap_or_else(|_| panic!("the path is one of a stage"));
    assert!(directory.equals(&path("/srv/share/docs/.dufs-upload-stages")));
    assert_eq!(found, name.as_bytes());
    for wrong in [
        format!("/srv/share/docs/{name}"),
        "/srv/share/docs/.dufs-upload-stages/other".to_string(),
        "/srv/share".to_string(),
    ] {
        assert_eq!(
            validated_upload_stage_path(&root, &path(&wrong))
                .err()
                .unwrap()
                .kind,
            IoErrorKind::InvalidInput,
            "{wrong}"
        );
    }
    assert!(check_stage_directory_path(&root, &directory).is_ok());
    assert!(check_stage_directory_path(&root, &path("/srv/share/docs")).is_err());
    assert_eq!(
        check_stage_directory_path(&root, &path("/etc/.dufs-upload-stages"))
            .err()
            .unwrap()
            .kind,
        IoErrorKind::PermissionDenied
    );
}

#[test]
fn stage_directories_are_private_or_repaired() {
    let mut seen = DirectorySeen::new();
    seen.opened = Some(Ok(()));
    seen.parent = Some(Ok(directory(1)));
    seen.stat = Some(Ok(entry(2, FileType::Directory, 0o040755)));
    assert!(matches!(
        open_upload_stage_directory(&seen, true, 1000),
        Step::Ask(DirectoryProbe::Repair)
    ));
    assert!(matches!(
        open_upload_stage_directory(&seen, true, 1001),
        Step::Done(Err(reason)) if reason.kind == IoErrorKind::InvalidData
    ));
    seen.named = Some(Ok(directory(2)));
    assert!(matches!(
        open_upload_stage_directory(&seen, false, 1000),
        Step::Done(Err(reason)) if reason.kind == IoErrorKind::InvalidData
    ));
    seen.repaired = Some(Ok(()));
    seen.synced = Some(Ok(()));
    seen.stat_repaired = Some(Ok(directory(2)));
    assert!(matches!(
        open_upload_stage_directory(&seen, true, 1000),
        Step::Done(Ok(()))
    ));
    seen.named = Some(Ok(directory(3)));
    assert!(matches!(
        open_upload_stage_directory(&seen, true, 1000),
        Step::Done(Err(_))
    ));
}

#[test]
fn stages_are_made_privately_or_not_at_all() {
    let mut ensured = EnsureSeen::new();
    ensured.made = Some(MakeResult::Made);
    ensured.opened = Some(Err(failure(IoErrorKind::InvalidData)));
    assert!(matches!(
        ensure_private_upload_stage_directory(&ensured),
        Step::Ask(EnsureProbe::Remove)
    ));
    ensured.opened = Some(Ok(()));
    ensured.identity = Some(Ok(identity(2)));
    ensured.synced = Some(Ok(()));
    assert!(matches!(
        ensure_private_upload_stage_directory(&ensured),
        Step::Done(Ok(Some(made))) if made == identity(2)
    ));
    ensured.made = Some(MakeResult::Exists);
    assert!(matches!(
        ensure_private_upload_stage_directory(&ensured),
        Step::Done(Ok(None))
    ));

    let mut seen = CreateSeen::new();
    seen.parent = Some(Ok(()));
    seen.directory = Some(Ok(Some(identity(2))));
    seen.file = Some(Ok(()));
    seen.restricted = Some(Ok(()));
    seen.stat = Some(Ok(file(3)));
    assert!(matches!(
        create_private_upload_stage(&seen, 1000),
        Step::Done(Ok(Some(_)))
    ));
    seen.stat = Some(Ok(entry(3, FileType::RegularFile, 0o100644)));
    assert!(matches!(
        create_private_upload_stage(&seen, 1000),
        Step::Ask(CreateProbe::RemoveFile)
    ));
    seen.removed = true;
    assert!(matches!(
        create_private_upload_stage(&seen, 1000),
        Step::Ask(CreateProbe::Rollback)
    ));
    seen.rolled_back = true;
    assert!(matches!(
        create_private_upload_stage(&seen, 1000),
        Step::Done(Err(reason)) if reason.kind == IoErrorKind::InvalidData
    ));
}

#[test]
fn empty_stage_directories_are_removed_while_they_are_the_same() {
    let mut seen = CleanupSeen::new();
    seen.parent = Some(Err(failure(IoErrorKind::NotADirectory)));
    assert!(matches!(
        remove_empty_upload_stage_directory(&seen),
        Step::Done(Ok(false))
    ));
    seen.parent = Some(Ok(()));
    seen.directory = Some(Ok(()));
    seen.opened = Some(Ok(identity(2)));
    seen.named = Some(Ok(identity(3)));
    assert!(matches!(
        remove_empty_upload_stage_directory(&seen),
        Step::Done(Err(reason)) if reason.kind == IoErrorKind::InvalidData
    ));
    seen.named = Some(Ok(identity(2)));
    assert!(matches!(
        remove_empty_upload_stage_directory(&seen),
        Step::Ask(CleanupProbe::Remove)
    ));
    seen.removed = Some(Err(failure(IoErrorKind::DirectoryNotEmpty)));
    assert!(matches!(
        remove_empty_upload_stage_directory(&seen),
        Step::Done(Ok(false))
    ));
    seen.removed = Some(Ok(()));
    seen.synced = Some(Ok(()));
    assert!(matches!(
        remove_empty_upload_stage_directory(&seen),
        Step::Done(Ok(true))
    ));
}

#[test]
fn recorded_stages_are_told_from_others() {
    let mut inner = ExpectedSeen::new();
    inner.named = Some(Ok(file(5)));
    assert!(matches!(
        open_expected_upload_stage(identity(6), &inner),
        Step::Done(Ok(ExpectedUploadStage::Mismatch))
    ));
    assert!(matches!(
        open_expected_upload_stage(identity(5), &inner),
        Step::Ask(ExpectedProbe::Open)
    ));
    inner.open = Some(Ok(()));
    inner.opened = Some(Ok(file(5)));
    inner.named_again = Some(Ok(file(5)));
    assert!(matches!(
        open_expected_upload_stage(identity(5), &inner),
        Step::Done(Ok(ExpectedUploadStage::Match))
    ));
    inner.named_again = Some(Ok(file(6)));
    assert!(matches!(
        open_expected_upload_stage(identity(5), &inner),
        Step::Done(Ok(ExpectedUploadStage::Mismatch))
    ));
    inner.named = Some(Err(failure(IoErrorKind::NotFound)));
    assert!(matches!(
        open_expected_upload_stage(identity(5), &inner),
        Step::Done(Ok(ExpectedUploadStage::Missing))
    ));

    let mut seen = ValidateSeen::new();
    seen.parent = Some(Ok(()));
    seen.directory = Some(Ok(()));
    seen.expected = Some(Ok(ExpectedUploadStage::Match));
    assert!(matches!(
        validate_private_upload_stage(true, &seen),
        Step::Done(Ok(PrivateUploadStageValidation::Present))
    ));
    seen.name = Some(Ok(()));
    assert!(matches!(
        validate_private_upload_stage(false, &seen),
        Step::Done(Ok(PrivateUploadStageValidation::IdentityMismatch))
    ));
    seen.directory = Some(Err(failure(IoErrorKind::NotFound)));
    assert!(matches!(
        validate_private_upload_stage(true, &seen),
        Step::Done(Ok(PrivateUploadStageValidation::Missing))
    ));
}

#[test]
fn readiness_is_shown_by_a_private_file() {
    let mut seen = ReadinessSeen::new();
    assert!(matches!(
        open_readiness_probe(&seen, 1000),
        Step::Ask(ReadinessProbe::Create)
    ));
    seen.created = Some(MakeResult::Exists);
    seen.existing = Some(Ok(()));
    seen.opened = Some(Ok(file(5)));
    seen.root = Some(Ok(directory(1)));
    seen.named = Some(Ok(file(5)));
    assert!(matches!(
        open_readiness_probe(&seen, 1000),
        Step::Done(Ok(()))
    ));
    assert!(matches!(
        open_readiness_probe(&seen, 0),
        Step::Done(Err(reason)) if reason.kind == IoErrorKind::InvalidData
    ));
    seen.created = Some(MakeResult::Made);
    assert!(matches!(
        open_readiness_probe(&seen, 1000),
        Step::Ask(ReadinessProbe::Sync)
    ));

    let mut probe = WritableSeen::new();
    probe.held = Some(Ok(file(5)));
    probe.named = Some(Ok(file(5)));
    probe.written = Some(Ok(3));
    assert!(matches!(
        probe_writable(&probe),
        Step::Done(Err(reason)) if reason.kind == IoErrorKind::WriteZero
    ));
    probe.written = Some(Ok("dufs-readiness-v2".len()));
    assert!(matches!(
        probe_writable(&probe),
        Step::Ask(WritableProbe::Sync)
    ));
    probe.synced = Some(Ok(()));
    probe.read = Some(Ok(()));
    probe.content = b"dufs-readiness-v1".to_vec();
    assert!(matches!(probe_writable(&probe), Step::Done(Err(_))));
    probe.content = b"dufs-readiness-v2".to_vec();
    assert!(matches!(probe_writable(&probe), Step::Done(Ok(()))));
    probe.named = Some(Ok(file(6)));
    assert!(matches!(probe_writable(&probe), Step::Done(Err(_))));
}

fn visit(name: &[u8], seen: &VisitSeen) -> VisitVerdict {
    match visit_entry(name, seen) {
        Step::Done(verdict) => verdict,
        Step::Ask(_) => panic!("everything has been seen"),
    }
}

#[test]
fn entries_that_leave_the_root_are_hidden() {
    let mut seen = VisitSeen::new();
    assert!(matches!(
        visit_entry(b"name", &seen),
        Step::Ask(VisitProbe::Budget)
    ));
    seen.within_budget = Some(true);
    seen.entry = Some(Ok(entry(3, FileType::Symlink, 0o777)));
    seen.target = Some(Err(IoFailure {
        kind: IoErrorKind::Other,
        number: Some(ERROR_CROSS_DEVICE),
    }));
    assert!(matches!(visit(b"name", &seen), VisitVerdict::Skip));
    seen.target = Some(Err(IoFailure {
        kind: IoErrorKind::Other,
        number: Some(ERROR_LOOP),
    }));
    assert!(matches!(
        visit_entry(b"name", &seen),
        Step::Ask(VisitProbe::OpenLink)
    ));
    seen.link = Some(Ok(()));
    seen.metadata = Some(Ok(()));
    assert!(matches!(
        visit(b"name", &seen),
        VisitVerdict::Show { is_symlink: true, .. }
    ));
    seen.entry = Some(Ok(file(3)));
    assert!(matches!(visit(b"name", &seen), VisitVerdict::Failed(_)));
    seen.target = Some(Ok(()));
    assert!(matches!(
        visit(b"name", &seen),
        VisitVerdict::Show { is_symlink: false, revision } if revision.inode == 3
    ));
    for dots in [&b"."[..], &b".."[..]] {
        assert!(matches!(visit(dots, &VisitSeen::new()), VisitVerdict::Skip));
    }
}

#[test]
fn paused_visits_go_on_where_they_stopped() {
    let at = |offset| DirectoryCursor { offset };
    let mut visit = DirectoryVisit::new(DirectoryCursor::start());
    assert!(!DirectoryCursor::start().needs_seek());
    let show = || VisitVerdict::Show {
        is_symlink: false,
        revision: file(1),
    };
    assert!(matches!(
        visit.note(VisitVerdict::Skip, Ok(true), at(4)),
        VisitFlow::Continue
    ));
    assert!(matches!(
        visit.note(show(), Ok(true), at(7)),
        VisitFlow::Continue
    ));
    assert!(matches!(
        visit.note(VisitVerdict::Pause, Ok(true), at(9)),
        VisitFlow::Return(Ok(DirectoryVisitProgress::Paused(place))) if place == at(7)
    ));
    assert!(matches!(
        visit.note(show(), Ok(false), at(9)),
        VisitFlow::Return(Ok(DirectoryVisitProgress::Paused(place))) if place == at(9)
    ));
    assert!(matches!(
        visit.note(show(), Err(failure(IoErrorKind::Other)), at(12)),
        VisitFlow::Return(Err(_))
    ));
}

/// Visits part of a directory, with room for so many entries, and tells which were
/// shown.
fn visit_piece(
    entries: &[(&str, bool)],
    from: DirectoryCursor,
    mut room: usize,
) -> (Vec<String>, DirectoryVisitProgress) {
    let mut shown = Vec::new();
    let mut visit = DirectoryVisit::new(from);
    for (index, (name, leads_out)) in entries.iter().enumerate().skip(from.offset as usize) {
        let mut seen = VisitSeen::new();
        let verdict = loop {
            match visit_entry(name.as_bytes(), &seen) {
                Step::Done(verdict) => break verdict,
                Step::Ask(VisitProbe::Budget) => {
                    seen.within_budget = Some(room > 0);
                    room = room.saturating_sub(1);
                }
                Step::Ask(VisitProbe::Inspect) => {
                    seen.entry = Some(Ok(entry(9, FileType::Symlink, 0o777)));
                }
                Step::Ask(VisitProbe::OpenTarget) => {
                    seen.target = Some(if *leads_out {
                        Err(IoFailure { kind: IoErrorKind::Other, number: Some(ERROR_CROSS_DEVICE) })
                    } else {
                        Ok(())
                    });
                }
                Step::Ask(VisitProbe::OpenLink) => seen.link = Some(Ok(())),
                Step::Ask(VisitProbe::ReadMetadata) => seen.metadata = Some(Ok(())),
            }
        };
        if let VisitVerdict::Show { .. } = verdict {
            shown.push(name.to_string());
        }
        let next = DirectoryCursor { offset: index as i64 + 1 };
        match visit.note(verdict, Ok(true), next) {
            VisitFlow::Continue => {}
            VisitFlow::Return(Ok(progress)) => return (shown, progress),
            VisitFlow::Return(Err(_)) => panic!("nothing fails"),
        }
    }
    (shown, DirectoryVisitProgress::Complete)
}

#[test]
fn visits_in_pieces_show_every_entry_once() {
    let entries = [
        (".", false),
        ("a", false),
        ("away", true),
        ("..", false),
        ("b", false),
        ("c", false),
    ];
    for room in 1..8 {
        let mut shown = Vec::new();
        let mut cursor = DirectoryCursor::start();
        loop {
            let (piece, progress) = visit_piece(&entries, cursor, room);
            assert!(piece.len() <= room);
            shown.extend(piece);
            match progress {
                DirectoryVisitProgress::Complete => break,
                DirectoryVisitProgress::Paused(place) => {
                    assert!(place != cursor);
                    cursor = place;
                }
            }
        }
        assert_eq!(shown, ["a", "b", "c"]);
    }
}

#[test]
fn directories_are_made_with_their_ancestors_or_not_at_all() {
    let mut seen = MakeSeen::new();
    assert!(matches!(
        create_directory(&seen),
        Step::Ask(MakeProbe::OpenParent)
    ));
    seen.parent = Some(Ok(true));
    seen.made = Some(Err(failure(IoErrorKind::AlreadyExists)));
    assert!(matches!(
        create_directory(&seen),
        Step::Ask(MakeProbe::Rollback)
    ));
    seen.made = Some(Ok(()));
    seen.synced = Some(Ok(()));
    assert!(matches!(create_directory(&seen), Step::Done(Ok(true))));

    let mut seen = RemoveSeen {
        parent: Some(Ok(())),
        removed: None,
    };
    assert!(matches!(
        remove_entry(&seen),
        Step::Ask(RemoveProbe::Remove)
    ));
    seen.removed = Some(Err(failure(IoErrorKind::NotFound)));
    assert!(matches!(remove_entry(&seen), Step::Done(Ok(false))));
    seen.removed = Some(Ok(()));
    assert!(matches!(remove_entry(&seen), Step::Done(Ok(true))));
}

fn calm_rename(probe: RenameProbe, seen: &mut RenameSeen) {
    let missing = || failure(IoErrorKind::NotFound);
    match probe {
        RenameProbe::OpenSourceParent => seen.source_parent = Some(Ok(())),
        RenameProbe::OpenDestinationParent => seen.destination_parent = Some(Ok(())),
        RenameProbe::CompareParents => seen.same_parent = Some(Ok(true)),
        RenameProbe::StatSource => seen.source = Some(Ok(file(1))),
        RenameProbe::StatDestination => seen.destination = Some(Err(missing())),
        RenameProbe::OpenSourceAnchor => seen.anchor_opened = Some(Ok(())),
        RenameProbe::StatSourceAnchor => seen.anchor = Some(Ok(file(1))),
        RenameProbe::RenameReplacing | RenameProbe::RenameNoReplace => {
            seen.renamed = Some(Ok(()))
        }
        RenameProbe::StatAnchorAfterRename => seen.anchor_after = Some(Ok(file(1))),
        RenameProbe::StatDestinationAfterRename => seen.destination_after = Some(Ok(file(1))),
        RenameProbe::SyncParents => seen.synced = Some(Ok(())),
    }
}

fn relocate(
    expected: ExistingReplacementTarget,
    answers: impl Fn(RenameProbe, &mut RenameSeen),
) -> Result<CheckedRelocationOutcome, IoFailure> {
    let mut seen = RenameSeen::new();
    for _ in 0..32 {
        match rename_if_unchanged(
            ReplacementTargetIdentity::Existing(expected),
            Some(ReplacementTargetIdentity::Missing),
            &seen,
        ) {
            Step::Ask(probe) => answers(probe, &mut seen),
            Step::Done(verdict) => return verdict,
        }
    }
    panic!("the relocation must end");
}

#[test]
fn relocations_happen_only_to_what_was_confirmed() {
    assert_eq!(
        relocate(file(1), calm_rename),
        Ok(CheckedRelocationOutcome::Relocated)
    );
    assert_eq!(
        relocate(file(2), calm_rename),
        Ok(CheckedRelocationOutcome::SourceChanged)
    );
    assert_eq!(
        relocate(file(1), |probe, seen| match probe {
            RenameProbe::RenameNoReplace => {
                seen.renamed = Some(Err(failure(IoErrorKind::AlreadyExists)))
            }
            _ => calm_rename(probe, seen),
        }),
        Ok(CheckedRelocationOutcome::DestinationChanged)
    );
    assert!(relocate(file(1), |probe, seen| match probe {
        RenameProbe::StatDestinationAfterRename => seen.destination_after = Some(Ok(file(9))),
        _ => calm_rename(probe, seen),
    })
    .is_err());
}

fn calm_publish(probe: PublishProbe, seen: &mut PublishSeen) {
    match probe {
        PublishProbe::OpenSourceParent => seen.source_parent = Some(Ok(())),
        PublishProbe::OpenDestinationParent => seen.destination_parent = Some(Ok(())),
        PublishProbe::CompareParents => seen.same_parent = Some(Ok(false)),
        PublishProbe::StatOpenStage => seen.open_stage = Some(Ok(file(1))),
        PublishProbe::StatStageName => seen.named_stage = Some(Ok(file(1))),
        PublishProbe::StatDestination => {
            seen.destination = Some(Err(failure(IoErrorKind::NotFound)))
        }
        PublishProbe::RenameReplacing | PublishProbe::RenameNoReplace => {
            seen.renamed = Some(Ok(()))
        }
        PublishProbe::StatStageAfterRename => seen.stage_after = Some(Ok(file(1))),
        PublishProbe::StatDestinationAfterRename => seen.destination_after = Some(Ok(file(1))),
        PublishProbe::SyncParents => seen.synced = Some(Ok(())),
    }
}

fn publish(
    expected: ReplacementTargetIdentity,
    answers: impl Fn(PublishProbe, &mut PublishSeen),
) -> ReplaceAndSyncOutcome {
    let mut seen = PublishSeen::new();
    for _ in 0..32 {
        match rename_replace_if_unchanged(expected, &seen) {
            Step::Ask(probe) => answers(probe, &mut seen),
            Step::Done(verdict) => return verdict,
        }
    }
    panic!("the publication must end");
}

#[test]
fn uploads_are_published_only_over_what_was_confirmed() {
    let missing = ReplacementTargetIdentity::Missing;
    assert!(matches!(
        publish(missing, calm_publish),
        ReplaceAndSyncOutcome::Published
    ));
    assert!(matches!(
        publish(ReplacementTargetIdentity::Existing(file(8)), calm_publish),
        ReplaceAndSyncOutcome::Rejected
    ));
    assert!(matches!(
        publish(missing, |probe, seen| match probe {
            PublishProbe::StatStageName => seen.named_stage = Some(Ok(file(7))),
            _ => calm_publish(probe, seen),
        }),
        ReplaceAndSyncOutcome::Rejected | ReplaceAndSyncOutcome::NotPublished(_)
    ));
    assert!(matches!(
        publish(missing, |probe, seen| match probe {
            PublishProbe::SyncParents => seen.synced = Some(Err(failure(IoErrorKind::Other))),
            _ => calm_publish(probe, seen),
        }),
        ReplaceAndSyncOutcome::PublishedDurabilityUnknown(_)
    ));
}

#[test]
fn revisions_change_with_anything_that_identifies_an_entry() {
    let revision = |target| ReplacementTargetIdentity::Existing(target).purge_revision();
    let base = revision(file(1));
    let mut changed = file(1);
    changed.changed_nanoseconds += 1;
    assert_ne!(revision(changed), base);
    let mut resized = file(1);
    resized.size = 4;
    assert_ne!(revision(resized), base);
    assert_ne!(ReplacementTargetIdentity::Missing.purge_revision(), base);
    assert_eq!(revision(file(1)), base);
    assert!(ReplacementTargetIdentity::Existing(file(1)).is_replaceable());
    assert!(!ReplacementTargetIdentity::Existing(directory(1)).is_replaceable());
}

fn carry_out(
    file: &mut Vec<(Vec<u8>, Vec<u8>)>,
    plan: &[RestoreAction],
    preserved: &[Xattr],
) {
    for action in plan {
        match action {
            RestoreAction::Remove(name) => file.retain(|(known, _)| known != name),
            RestoreAction::Put(place) => {
                let attribute = &preserved[*place];
                file.retain(|(known, _)| *known != attribute.name);
                file.push((attribute.name.clone(), attribute.value.clone()));
            }
        }
    }
    file.sort();
}

#[test]
fn restored_files_have_exactly_the_preserved_attributes() {
    let current = vec![
        attribute("security.label", b"x"),
        attribute("user.keep", b"2"),
        attribute("system.posix_acl_access", b"inherited"),
    ];
    let preserved = vec![
        attribute("user.keep", b"3"),
        attribute("system.posix_acl_access", b"acl"),
        attribute("user.other", b"4"),
    ];
    let mut file: Vec<(Vec<u8>, Vec<u8>)> = current
        .iter()
        .map(|attribute| (attribute.name.clone(), attribute.value.clone()))
        .collect();
    carry_out(&mut file, &attribute_plan(&current, &preserved), &preserved);
    let mut wanted: Vec<(Vec<u8>, Vec<u8>)> = preserved
        .iter()
        .map(|attribute| (attribute.name.clone(), attribute.value.clone()))
        .collect();
    wanted.sort();
    assert_eq!(file, wanted);
}

#[test]
fn metadata_is_applied_with_the_mode_last() {
    let metadata = PreservedFileMetadata {
        uid: 5,
        gid: 6,
        mode: 0o100400,
        xattrs: Vec::new(),
    };
    let mut seen = ApplySeen::new();
    let mut asked = Vec::new();
    loop {
        match apply_file_metadata(&metadata, &seen) {
            Step::Done(result) => {
                assert!(result.is_ok());
                break;
            }
            Step::Ask(probe) => {
                asked.push(probe);
                match probe {
                    ApplyProbe::Stat => seen.owner = Some(Ok((0, 0))),
                    ApplyProbe::ChangeOwner { .. } => seen.changed = Some(Ok(())),
                    ApplyProbe::ReadAttributes => seen.attributes = Some(Ok(())),
                    ApplyProbe::Restore => seen.restored = Some(Ok(())),
                    ApplyProbe::ChangeMode(_) => seen.mode = Some(Ok(())),
                }
            }
        }
    }
    assert_eq!(
        asked,
        [
            ApplyProbe::Stat,
            ApplyProbe::ChangeOwner { uid: 5, gid: 6 },
            ApplyProbe::ReadAttributes,
            ApplyProbe::Restore,
            ApplyProbe::ChangeMode(0o400),
        ]
    );
    seen.owner = Some(Ok((5, 6)));
    seen.changed = None;
    assert!(matches!(apply_file_metadata(&metadata, &seen), Step::Done(Ok(()))));
    seen.restored = Some(Err(failure(IoErrorKind::PermissionDenied)));
    seen.mode = None;
    assert!(matches!(
        apply_file_metadata(&metadata, &seen),
        Step::Done(Err(error)) if error.kind == IoErrorKind::PermissionDenied
    ));
}
