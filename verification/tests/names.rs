use dufs::identifiers::parse_canonical_operation_id;
use dufs::internal_names::{
    classify_internal_name, delete_trash_name, is_upload_stage_name, is_upload_temp_path,
    quarantine_name, upload_readiness_probe_name, upload_stage_directory, upload_temp_path,
    InternalEntryName,
};
use dufs::io_error::IoErrorKind;
use dufs::paths::{sorted_paths, LexicalPath};
use dufs::rooted_fs::entry::RootedEntryKey;
use dufs::rooted_fs::names::{decode_relative_path, encode_relative_path, relative_path};
use dufs::path_coordinator::FileIdentity;
use dufs::uri::{decode_uri, encode_uri};
use sha2::Digest;

fn path(text: &str) -> LexicalPath {
    let mut path = LexicalPath::new();
    for name in text.split('/').filter(|name| !name.is_empty()) {
        path.push(name.as_bytes());
    }
    path
}

#[test]
fn former_state_sidecar_names_are_not_reserved() {
    let nil = "00000000-0000-0000-0000-000000000000";
    let stage = format!(".dufs-upload-{}-{}.part", "a".repeat(64), nil);
    assert_eq!(classify_internal_name(&format!("{stage}.state")), None);
    assert_eq!(
        classify_internal_name(&format!("{stage}.state-{nil}.tmp")),
        None
    );
}

#[test]
fn generated_stage_readiness_and_trash_names_are_reserved() {
    let upload_id = 0x0011_2233_4455_6677_8899_aabb_ccdd_eeff_u128;
    let stage_path = upload_temp_path(&path("file.bin"), upload_id).unwrap();
    assert!(stage_path
        .parent()
        .unwrap()
        .equals(&path(".dufs-upload-stages")));
    assert_eq!(
        classify_internal_name(".dufs-upload-stages"),
        Some(InternalEntryName::StageDirectory)
    );
    let stage = String::from_utf8(stage_path.file_name().unwrap().clone()).unwrap();
    assert!(is_upload_stage_name(&stage));
    assert_eq!(classify_internal_name(&stage), None);

    let readiness = upload_readiness_probe_name(upload_id);
    assert_eq!(
        classify_internal_name(&readiness),
        Some(InternalEntryName::Readiness)
    );
    assert_eq!(
        classify_internal_name(".dufs-readiness.probe"),
        Some(InternalEntryName::Readiness)
    );

    let trash = delete_trash_name(upload_id);
    assert_eq!(
        trash,
        ".dufs-upload-delete-00112233-4455-6677-8899-aabbccddeeff.trash"
    );
    assert_eq!(
        classify_internal_name(&trash),
        Some(InternalEntryName::DeleteTrash)
    );

    let quarantine = quarantine_name(upload_id);
    assert_eq!(
        classify_internal_name(&quarantine),
        Some(InternalEntryName::Quarantine)
    );
}

#[test]
fn current_stage_paths_are_exactly_bound_to_the_target() {
    let upload_id = 77;
    let target = path("folder/file.bin");
    let current = upload_temp_path(&target, upload_id).unwrap();

    assert_eq!(is_upload_temp_path(&target, upload_id, &current), Some(true));
    assert!(upload_stage_directory(&current)
        .unwrap()
        .equals(&path("folder/.dufs-upload-stages")));
    assert_eq!(
        is_upload_temp_path(&path("folder/other.bin"), upload_id, &current),
        Some(false)
    );
}

#[test]
fn stages_of_other_uploads_are_refused() {
    let target = path("folder/file.bin");
    let stage = upload_temp_path(&target, 7).unwrap();
    assert_eq!(is_upload_temp_path(&target, 8, &stage), Some(false));
    assert_eq!(is_upload_temp_path(&path("file.bin"), 7, &stage), Some(false));
    let name = String::from_utf8(stage.file_name().unwrap().clone()).unwrap();
    assert!(is_upload_stage_name(&name));
}

#[test]
fn stage_names_are_made_from_a_digest_of_the_target_name() {
    // The digest of "file.bin" by another implementation of SHA-256.
    let stage = upload_temp_path(&path("file.bin"), 0).unwrap();
    let name = String::from_utf8(stage.file_name().unwrap().clone()).unwrap();
    let digest = {
        let mut text = String::new();
        for byte in sha2::Sha256::digest(b"file.bin") {
            text.push_str(&format!("{byte:02x}"));
        }
        text
    };
    assert!(name.contains(&digest));
    assert!(name.contains("00000000-0000-0000-0000-000000000000"));
}

#[test]
fn control_plane_paths_round_trip_only_normal_relative_components() {
    let root = path("srv/share");
    let target = path("srv/share/nested/file.txt");

    let encoded = encode_relative_path(&root, &target).unwrap();
    assert_eq!(encoded, b"nested/file.txt");
    assert!(decode_relative_path(&root, &encoded)
        .unwrap()
        .equals(&target));
    assert!(decode_relative_path(&root, b"../outside").is_err());
    assert!(decode_relative_path(&root, b"/absolute").is_err());
    assert!(decode_relative_path(&root, b"contains\0nul").is_err());
}

#[test]
fn paths_outside_the_root_are_refused() {
    let root = path("srv/share");
    assert_eq!(
        relative_path(&root, &path("srv/other/file")).err().unwrap().kind,
        IoErrorKind::PermissionDenied
    );
    assert_eq!(
        relative_path(&root, &root).err().unwrap().kind,
        IoErrorKind::InvalidInput
    );
    assert!(relative_path(&root, &path("srv/share/a/b"))
        .unwrap()
        .equals(&path("a/b")));
}

#[test]
fn markers_of_upkeep_are_no_entries() {
    let key = RootedEntryKey {
        parent: FileIdentity { device: 1, inode: 2 },
        name: b"file".to_vec(),
    };
    let marker = key.maintenance_marker();
    assert_eq!(marker.parent, key.parent);
    assert_eq!(marker.name, b"file\0dufs-maintenance");
}

#[test]
fn operation_ids_have_one_notation() {
    let canonical = "00112233-4455-6677-8899-aabbccddeeff";
    assert_eq!(
        parse_canonical_operation_id(canonical),
        Some(0x0011_2233_4455_6677_8899_aabb_ccdd_eeff)
    );
    for other in [
        "00112233-4455-6677-8899-AABBCCDDEEFF",
        "00112233445566778899aabbccddeeff",
        "{00112233-4455-6677-8899-aabbccddeeff}",
        "00112233-4455-6677-8899-aabbccddeef",
        "",
    ] {
        assert_eq!(parse_canonical_operation_id(other), None, "{other}");
    }
}

#[test]
fn paths_survive_their_encoding_in_addresses() {
    for text in ["a b/c", "100%", "Grüße/日本", "q?x=1#f", "~-._"] {
        assert_eq!(decode_uri(&encode_uri(text)).unwrap(), text);
    }
    assert_eq!(encode_uri("a b"), "a%20b");
    assert_eq!(decode_uri("%41%2f"), Some("A/".to_string()));
    assert_eq!(decode_uri("%ff"), None);
    assert_eq!(decode_uri("%4"), Some("%4".to_string()));
}

#[test]
fn paths_are_ordered_name_by_name() {
    let sorted = sorted_paths(&vec![path("b"), path("a/b"), path("a"), path("a/b")]);
    let shown: Vec<Vec<u8>> = sorted.iter().map(|path| path.to_bytes()).collect();
    assert_eq!(
        shown,
        vec![b"a".to_vec(), b"a/b".to_vec(), b"b".to_vec()]
    );
}
