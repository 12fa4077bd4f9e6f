//! What is seen of a directory and its entries, and how an entry is listed.
use crate::io_error::IoFailure;
use crate::listing::items;
use crate::listing::items::{lowercase_text, PathItem, PathItemView, PathType};
use crate::listing::problems::{ListingError, ListingErrorView, ListingProblem};
use crate::paths;
use crate::paths::LexicalPath;
use crate::revision::TargetRevision;
use crate::text;
use crate::text::utf8_text;
use vstd::prelude::*;
use vstd::string::*;
use vstd::utf8::*;

verus! {

/// What tells one state of a directory from another.
#[derive(Clone, Copy, Debug, Eq, PartialEq, Structural)]
pub struct DirectorySnapshot {
    pub device: u64,
    pub inode: u64,
    pub mtime: i64,
    pub mtime_nanoseconds: i64,
    pub ctime: i64,
    pub ctime_nanoseconds: i64,
}

/// A time as the system reports it, from the start of the epoch.
#[derive(Clone, Copy, Debug, Eq, PartialEq, Structural)]
pub struct Timestamp {
    pub seconds: i64,
    pub nanoseconds: u32,
}

/// Milliseconds since the epoch; a time before it counts as its start.
pub open spec fn milliseconds(time: Timestamp) -> u64 {
    if time.seconds < 0 {
        0
    } else {
        (time.seconds * 1000 + time.nanoseconds / 1_000_000) as u64
    }
}

pub fn to_timestamp(time: &Timestamp) -> (timestamp: u64)
    ensures
        timestamp == milliseconds(*time),
{
    if time.seconds < 0 {
        return 0;
    }
    let whole: u128 = time.seconds as u128 * 1000;
    let total: u128 = whole + (time.nanoseconds / 1_000_000) as u128;
    #[verifier::truncate]
    let timestamp: u64 = total as u64;
    timestamp
}

/// What is known of an entry that was reached.
#[derive(Clone, Copy, Debug, Eq, PartialEq, Structural)]
pub struct EntryMetadata {
    pub is_directory: bool,
    pub snapshot: DirectorySnapshot,
    pub modified: Option<Timestamp>,
    pub created: Option<Timestamp>,
    pub length: u64,
}

/// An entry of a directory below the root.
pub struct RootedDirEntry {
    pub path: LexicalPath,
    pub file_name: Vec<u8>,
    pub metadata: EntryMetadata,
    pub is_symlink: bool,
    pub revision: TargetRevision,
}

pub struct EntryView {
    pub path: Seq<Seq<u8>>,
    pub file_name: Seq<u8>,
    pub metadata: EntryMetadata,
    pub is_symlink: bool,
    pub revision: TargetRevision,
}

impl RootedDirEntry {
    pub open spec fn view(self) -> EntryView {
        EntryView {
            path: self.path@,
            file_name: self.file_name@,
            metadata: self.metadata,
            is_symlink: self.is_symlink,
            revision: self.revision,
        }
    }
}

/// The last name of a path is a text that is not empty.
pub open spec fn has_strict_name(path: Seq<Seq<u8>>) -> bool {
    path.len() > 0 && path.last().len() > 0 && valid_utf8(path.last())
}

/// The last name of a path, as a text.
pub fn strict_file_name(path: &LexicalPath, operation: &'static str, root: &LexicalPath) -> (name:
    Result<String, ListingError>)
    ensures
        name is Ok <==> has_strict_name(path@),
        name matches Ok(name) ==> name@ == decode_utf8(path@.last()),
        name matches Err(error) ==> error@ == ListingErrorView::unsupported_name(
            operation@,
            path@,
            root@,
        ),
{
    if let Some(bytes) = path.file_name() {
        if bytes.len() > 0 {
            if let Some(name) = utf8_text(bytes.as_slice()) {
                return Ok(name);
            }
        }
    }
    Err(ListingError::unsupported_name(operation, path, root))
}

/// The bytes of a path below a base.
pub open spec fn bytes_below(path: Seq<Seq<u8>>, base: Seq<Seq<u8>>) -> Seq<u8> {
    paths::joined(path.subrange(base.len() as int, path.len() as int), 47u8)
}

/// Why a path has no text below a base, if it has none.
pub open spec fn relative_failure(
    path: Seq<Seq<u8>>,
    base: Seq<Seq<u8>>,
    operation: Seq<char>,
    root: Seq<Seq<u8>>,
) -> Option<ListingErrorView> {
    if !text::has_prefix(path, base) {
        Some(ListingErrorView::broken_invariant(operation, path, root))
    } else if !valid_utf8(bytes_below(path, base)) {
        Some(ListingErrorView::unsupported_name(operation, path, root))
    } else {
        None
    }
}

/// The text of a path below a base.
pub fn strict_relative_path(
    path: &LexicalPath,
    base: &LexicalPath,
    operation: &'static str,
    root: &LexicalPath,
) -> (relative: Result<String, ListingError>)
    ensures
        match relative {
            Ok(relative) => relative_failure(path@, base@, operation@, root@) is None && relative@
                == decode_utf8(bytes_below(path@, base@)),
            Err(error) => relative_failure(path@, base@, operation@, root@) == Some(error@),
        },
{
    if !path.starts_with(base) {
        return Err(ListingError::broken_invariant(operation, path, root));
    }
    match utf8_text(path.suffix(base.len()).to_bytes().as_slice()) {
        Some(relative) => Ok(relative),
        None => Err(ListingError::unsupported_name(operation, path, root)),
    }
}

/// The kind of an entry.
pub open spec fn entry_type(is_symlink: bool, is_directory: bool) -> PathType {
    match (is_symlink, is_directory) {
        (true, true) => PathType::SymlinkDir,
        (false, true) => PathType::Dir,
        (true, false) => PathType::SymlinkFile,
        (false, false) => PathType::File,
    }
}

/// The time that is shown of an entry: when it was modified or, failing that,
/// created.
pub open spec fn shown_time(metadata: EntryMetadata) -> u64 {
    match (metadata.modified, metadata.created) {
        (Some(time), _) => milliseconds(time),
        (None, Some(time)) => milliseconds(time),
        (None, None) => 0,
    }
}

/// How an entry is listed, or why it cannot be.
pub open spec fn listed(entry: EntryView, base: Seq<Seq<u8>>, root: Seq<Seq<u8>>) -> Result<
    PathItemView,
    ListingErrorView,
> {
    let relative = relative_failure(entry.path, base, "pathitem_relative_path"@, root);
    if !has_strict_name(entry.path) {
        Err(ListingErrorView::unsupported_name("pathitem_filename"@, entry.path, root))
    } else if relative is Some {
        Err(relative->0)
    } else if !text::has_prefix(entry.path, root) {
        Err(ListingErrorView::broken_invariant("pathitem_revision_path"@, entry.path, root))
    } else {
        let name = decode_utf8(bytes_below(entry.path, base));
        Ok(
            PathItemView {
                path_type: entry_type(entry.is_symlink, entry.metadata.is_directory),
                sort_name: items::lowercase(name),
                name,
                mtime: shown_time(entry.metadata),
                size: if entry.metadata.is_directory {
                    0
                } else {
                    entry.metadata.length
                },
                revision: entry.revision,
            },
        )
    }
}

/// Lists an entry relative to a base.
pub fn pathitem_from_rooted_entry(entry: &RootedDirEntry, base: &LexicalPath, root: &LexicalPath) -> (
    item: Result<PathItem, ListingError>)
    ensures
        match item {
            Ok(item) => listed(entry@, base@, root@) == Ok::<PathItemView, ListingErrorView>(item@),
            Err(error) => listed(entry@, base@, root@) == Err::<PathItemView, ListingErrorView>(
                error@,
            ),
        },
{
    if let Err(error) = strict_file_name(&entry.path, "pathitem_filename", root) {
        return Err(error);
    }
    let is_directory = entry.metadata.is_directory;
    let path_type = match (entry.is_symlink, is_directory) {
        (true, true) => PathType::SymlinkDir,
        (false, true) => PathType::Dir,
        (true, false) => PathType::SymlinkFile,
        (false, false) => PathType::File,
    };
    let mtime = match (&entry.metadata.modified, &entry.metadata.created) {
        (Some(time), _) => to_timestamp(time),
        (None, Some(time)) => to_timestamp(time),
        (None, None) => 0,
    };
    let size = if is_directory {
        0
    } else {
        entry.metadata.length
    };
    let name = match strict_relative_path(&entry.path, base, "pathitem_relative_path", root) {
        Ok(name) => name,
        Err(error) => return Err(error),
    };
    if !entry.path.starts_with(root) {
        return Err(
            ListingError::broken_invariant("pathitem_revision_path", &entry.path, root),
        );
    }
    Ok(
        PathItem {
            path_type,
            sort_name: lowercase_text(name.as_str()),
            name,
            mtime,
            size,
            revision: entry.revision,
        },
    )
}

/// What a directory is known by after it was walked, or why the walk is void.
pub open spec fn snapshot_after(
    metadata: Result<EntryMetadata, IoFailure>,
    operation: Seq<char>,
    path: Seq<Seq<u8>>,
    root: Seq<Seq<u8>>,
) -> Result<DirectorySnapshot, ListingErrorView> {
    match metadata {
        Err(failure) => Err(ListingErrorView::io(operation, path, root, failure)),
        Ok(metadata) => if metadata.is_directory {
            Ok(metadata.snapshot)
        } else {
            Err(
                ListingErrorView::at(
                    operation,
                    path,
                    root,
                    "directory_replaced_by_non_directory"@,
                    ListingProblem::DirectoryChanged,
                ),
            )
        },
    }
}

/// The snapshot of a path that must still be a directory.
pub(crate) fn directory_snapshot(
    metadata: &Result<EntryMetadata, IoFailure>,
    operation: &'static str,
    path: &LexicalPath,
    root: &LexicalPath,
) -> (snapshot: Result<DirectorySnapshot, ListingError>)
    ensures
        match snapshot {
            Ok(snapshot) => snapshot_after(*metadata, operation@, path@, root@) == Ok::<
                DirectorySnapshot,
                ListingErrorView,
            >(snapshot),
            Err(error) => snapshot_after(*metadata, operation@, path@, root@) == Err::<
                DirectorySnapshot,
                ListingErrorView,
            >(error@),
        },
{
    match metadata {
        Err(failure) => Err(ListingError::io(operation, path, root, failure)),
        Ok(metadata) => {
            if metadata.is_directory {
                Ok(metadata.snapshot)
            } else {
                Err(
                    ListingError::limit(
                        operation,
                        path,
                        root,
                        "directory_replaced_by_non_directory",
                        ListingProblem::DirectoryChanged,
                    ),
                )
            }
        },
    }
}

/// What a listed directory is known by after it was walked.
pub fn directory_snapshot_after_walk(
    metadata: &Result<EntryMetadata, IoFailure>,
    path: &LexicalPath,
    root: &LexicalPath,
) -> (snapshot: Result<DirectorySnapshot, ListingError>)
    ensures
        match snapshot {
            Ok(snapshot) => snapshot_after(*metadata, "list_snapshot_after"@, path@, root@) == Ok::<
                DirectorySnapshot,
                ListingErrorView,
            >(snapshot),
            Err(error) => snapshot_after(*metadata, "list_snapshot_after"@, path@, root@) == Err::<
                DirectorySnapshot,
                ListingErrorView,
            >(error@),
        },
{
    directory_snapshot(metadata, "list_snapshot_after", path, root)
}

/// An entry is listed with what is known of it: under its path below the base, as a
/// directory or a file, with the mark of a link where it is one, with its length unless
/// it is a directory, with the time of its last change, and with its revision.
pub proof fn law_entries_are_listed_as_they_are(
    entry: EntryView,
    base: Seq<Seq<u8>>,
    below: Seq<Seq<u8>>,
    root: Seq<Seq<u8>>,
    rest: Seq<Seq<u8>>,
    name: Seq<char>,
)
    requires
        entry.path == base + below,
        entry.path == root + rest,
        entry.path.len() > 0,
        entry.path.last().len() > 0,
        valid_utf8(entry.path.last()),
        paths::joined(below, 47u8) == encode_utf8(name),
    ensures
        listed(entry, base, root) matches Ok(item) && {
            &&& item.name == name
            &&& item.sort_name == items::lowercase(name)
            &&& item.path_type.is_folder() <==> entry.metadata.is_directory
            &&& (item.path_type == PathType::SymlinkDir || item.path_type == PathType::SymlinkFile)
                <==> entry.is_symlink
            &&& entry.metadata.is_directory ==> item.size == 0
            &&& !entry.metadata.is_directory ==> item.size == entry.metadata.length
            &&& entry.metadata.modified matches Some(time) ==> item.mtime == milliseconds(time)
            &&& entry.metadata.modified is None && entry.metadata.created is Some ==> item.mtime
                == milliseconds(entry.metadata.created->0)
            &&& entry.metadata.modified is None && entry.metadata.created is None ==> item.mtime
                == 0
            &&& item.revision == entry.revision
        },
{
    broadcast use {encode_utf8_valid_utf8, encode_utf8_decode_utf8};

    text::law_affixes_are_parts(entry.path, base);
    text::law_affixes_are_parts(entry.path, root);
    assert(entry.path.subrange(base.len() as int, entry.path.len() as int) =~= below);
}

/// An entry cannot be listed only where its name or its path is no text, or where it
/// lies outside of the base or the root.
pub proof fn law_unlisted_entries_have_their_cause(
    entry: EntryView,
    base: Seq<Seq<u8>>,
    root: Seq<Seq<u8>>,
)
    ensures
        listed(entry, base, root) matches Err(error) ==> {
            ||| error.problem == ListingProblem::UnsupportedFilename && (entry.path.len() == 0
                || entry.path.last().len() == 0 || !valid_utf8(entry.path.last()) || !valid_utf8(
                bytes_below(entry.path, base),
            ))
            ||| error.problem == ListingProblem::DirectoryOperationFailed && ((forall|
                below: Seq<Seq<u8>>,
            |
                entry.path != #[trigger] (base + below)) || (forall|below: Seq<Seq<u8>>|
                entry.path != #[trigger] (root + below)))
        },
{
    text::law_affixes_are_parts(entry.path, base);
    text::law_affixes_are_parts(entry.path, root);
}

/// Times are shown in milliseconds, so that a later time is never shown as an earlier
/// one, and times before the epoch as its start.
pub proof fn law_times_are_shown_in_milliseconds(left: Timestamp, right: Timestamp)
    requires
        left.seconds <= 1_000_000_000_000_000,
        right.seconds <= 1_000_000_000_000_000,
        left.nanoseconds < 1_000_000_000,
        right.nanoseconds < 1_000_000_000,
    ensures
        left.seconds >= 0 ==> milliseconds(left) as int == left.seconds as int * 1000
            + left.nanoseconds as int / 1_000_000,
        left.seconds < 0 ==> milliseconds(left) == 0,
        left.seconds < right.seconds || (left.seconds == right.seconds && left.nanoseconds
            <= right.nanoseconds) ==> milliseconds(left) <= milliseconds(right),
{
}

/// A directory that was walked is known by its snapshot, and a walk is void where the
/// directory is none any more or cannot be looked at.
pub proof fn law_walked_directories_are_still_there(
    metadata: Result<EntryMetadata, IoFailure>,
    operation: Seq<char>,
    path: Seq<Seq<u8>>,
    root: Seq<Seq<u8>>,
)
    ensures
        metadata matches Ok(found) ==> found.is_directory ==> snapshot_after(
            metadata,
            operation,
            path,
            root,
        ) == Ok::<DirectorySnapshot, ListingErrorView>(found.snapshot),
        metadata matches Ok(found) ==> !found.is_directory ==> (snapshot_after(
            metadata,
            operation,
            path,
            root,
        ) matches Err(error) && error.problem == ListingProblem::DirectoryChanged),
        metadata matches Err(failure) ==> (snapshot_after(
            metadata,
            operation,
            path,
            root,
        ) matches Err(error) && error == ListingErrorView::io(operation, path, root, failure)),
{
}

} // verus!
