//! Identities of directory entries, and the revisions derived from them.
use crate::identifiers;
use crate::identifiers::{
    push_big_endian, push_big_endian_half, push_big_endian_signed, sha256_digest,
};
use vstd::prelude::*;
use vstd::string::*;
use vstd::utf8::*;

verus! {

/// What a directory entry is.
#[derive(Clone, Copy, Debug, Eq, PartialEq, Structural)]
pub enum FileType {
    RegularFile,
    Directory,
    Symlink,
    BlockDevice,
    CharacterDevice,
    Fifo,
    Socket,
    Unknown,
}

impl FileType {
    pub open spec fn tag(self) -> u8 {
        match self {
            FileType::RegularFile => 1,
            FileType::Directory => 2,
            FileType::Symlink => 3,
            FileType::BlockDevice => 4,
            FileType::CharacterDevice => 5,
            FileType::Fifo => 6,
            FileType::Socket => 7,
            FileType::Unknown => 255,
        }
    }

    /// The byte that stands for a type in a revision.
    pub fn file_type_revision_tag(self) -> (tag: u8)
        ensures
            tag == self.tag(),
    {
        match self {
            FileType::RegularFile => 1,
            FileType::Directory => 2,
            FileType::Symlink => 3,
            FileType::BlockDevice => 4,
            FileType::CharacterDevice => 5,
            FileType::Fifo => 6,
            FileType::Socket => 7,
            FileType::Unknown => 255,
        }
    }
}

/// Everything about an entry that a change would show in.
#[derive(Clone, Copy, Debug, Eq, PartialEq, Structural)]
pub struct ExistingReplacementTarget {
    pub device: u64,
    pub inode: u64,
    pub file_type: FileType,
    pub links: u64,
    pub size: i64,
    pub uid: u32,
    pub gid: u32,
    pub mode: u32,
    pub modified_seconds: i64,
    pub modified_nanoseconds: u64,
    pub changed_seconds: i64,
    pub changed_nanoseconds: u64,
}

/// What a name leads to, or that it leads nowhere.
#[derive(Clone, Copy, Debug, Eq, PartialEq, Structural)]
pub enum ReplacementTargetIdentity {
    Missing,
    Existing(ExistingReplacementTarget),
}

/// What a deletion is about.
#[derive(Clone, Copy, Debug, Eq, PartialEq, Structural)]
pub struct DeleteIdentity {
    pub device: u64,
    pub inode: u64,
    pub is_directory: bool,
}

impl ExistingReplacementTarget {
    pub open spec fn as_deleted(self) -> DeleteIdentity {
        DeleteIdentity {
            device: self.device,
            inode: self.inode,
            is_directory: self.file_type == FileType::Directory,
        }
    }

    /// The entry as a deletion sees it.
    pub fn delete_identity_from_stat(&self) -> (identity: DeleteIdentity)
        ensures
            identity == self.as_deleted(),
    {
        DeleteIdentity {
            device: self.device,
            inode: self.inode,
            is_directory: self.file_type == FileType::Directory,
        }
    }
}

/// The bytes that a revision is computed from.
pub open spec fn revision_input(identity: ReplacementTargetIdentity) -> Seq<u8> {
    match identity {
        ReplacementTargetIdentity::Missing => seq![0u8],
        ReplacementTargetIdentity::Existing(target) => seq![1u8] + identifiers::big_endian(
            target.device,
        ) + identifiers::big_endian(target.inode) + seq![target.file_type.tag()]
            + identifiers::big_endian(target.links) + identifiers::big_endian(
            identifiers::bits_of(target.size),
        ) + identifiers::big_endian_half(target.uid) + identifiers::big_endian_half(target.gid)
            + identifiers::big_endian_half(target.mode) + identifiers::big_endian(
            identifiers::bits_of(target.modified_seconds),
        ) + identifiers::big_endian(target.modified_nanoseconds) + identifiers::big_endian(
            identifiers::bits_of(target.changed_seconds),
        ) + identifiers::big_endian(target.changed_nanoseconds),
    }
}

/// Two concatenations whose second parts are equally long are equal only part by
/// part.
proof fn lemma_split_end(a: Seq<u8>, b: Seq<u8>, c: Seq<u8>, d: Seq<u8>)
    requires
        a + b == c + d,
        b.len() == d.len(),
    ensures
        a == c,
        b == d,
{
    assert((a + b).len() == a.len() + b.len());
    assert((c + d).len() == c.len() + d.len());
    assert((a + b).subrange(0, a.len() as int) =~= a);
    assert((c + d).subrange(0, a.len() as int) =~= c);
    assert((a + b).subrange(a.len() as int, (a + b).len() as int) =~= b);
    assert((c + d).subrange(a.len() as int, (c + d).len() as int) =~= d);
}

proof fn lemma_number_at_end(a: Seq<u8>, left: u64, c: Seq<u8>, right: u64)
    requires
        a + identifiers::big_endian(left) == c + identifiers::big_endian(right),
    ensures
        a == c,
        left == right,
{
    identifiers::lemma_big_endian_length(left);
    identifiers::lemma_big_endian_length(right);
    lemma_split_end(a, identifiers::big_endian(left), c, identifiers::big_endian(right));
    identifiers::lemma_big_endian_is_injective(left, right);
}

proof fn lemma_half_at_end(a: Seq<u8>, left: u32, c: Seq<u8>, right: u32)
    requires
        a + identifiers::big_endian_half(left) == c + identifiers::big_endian_half(right),
    ensures
        a == c,
        left == right,
{
    identifiers::lemma_big_endian_half_length(left);
    identifiers::lemma_big_endian_half_length(right);
    lemma_split_end(a, identifiers::big_endian_half(left), c, identifiers::big_endian_half(right));
    identifiers::lemma_big_endian_half_is_injective(left, right);
}

/// The revision input in parts, each one longer than the last.
spec fn revision_parts(target: ExistingReplacementTarget) -> (
    Seq<u8>,
    Seq<u8>,
    Seq<u8>,
    Seq<u8>,
    Seq<u8>,
    Seq<u8>,
) {
    let device = seq![1u8] + identifiers::big_endian(target.device);
    let file_type = device + identifiers::big_endian(target.inode) + seq![target.file_type.tag()];
    let size = file_type + identifiers::big_endian(target.links) + identifiers::big_endian(
        identifiers::bits_of(target.size),
    );
    let mode = size + identifiers::big_endian_half(target.uid) + identifiers::big_endian_half(
        target.gid,
    ) + identifiers::big_endian_half(target.mode);
    let modified = mode + identifiers::big_endian(identifiers::bits_of(target.modified_seconds))
        + identifiers::big_endian(target.modified_nanoseconds);
    let changed = modified + identifiers::big_endian(identifiers::bits_of(target.changed_seconds))
        + identifiers::big_endian(target.changed_nanoseconds);
    (device, file_type, size, mode, modified, changed)
}

proof fn lemma_existing_revisions(a: ExistingReplacementTarget, b: ExistingReplacementTarget)
    requires
        revision_input(ReplacementTargetIdentity::Existing(a)) == revision_input(
            ReplacementTargetIdentity::Existing(b),
        ),
    ensures
        a == b,
{
    let (a_device, a_type, a_size, a_mode, a_modified, a_changed) = revision_parts(a);
    let (b_device, b_type, b_size, b_mode, b_modified, b_changed) = revision_parts(b);
    assert(a_changed == b_changed);
    lemma_number_at_end(
        a_modified + identifiers::big_endian(identifiers::bits_of(a.changed_seconds)),
        a.changed_nanoseconds,
        b_modified + identifiers::big_endian(identifiers::bits_of(b.changed_seconds)),
        b.changed_nanoseconds,
    );
    lemma_number_at_end(
        a_modified,
        identifiers::bits_of(a.changed_seconds),
        b_modified,
        identifiers::bits_of(b.changed_seconds),
    );
    identifiers::lemma_bits_are_injective(a.changed_seconds, b.changed_seconds);
    lemma_number_at_end(
        a_mode + identifiers::big_endian(identifiers::bits_of(a.modified_seconds)),
        a.modified_nanoseconds,
        b_mode + identifiers::big_endian(identifiers::bits_of(b.modified_seconds)),
        b.modified_nanoseconds,
    );
    lemma_number_at_end(
        a_mode,
        identifiers::bits_of(a.modified_seconds),
        b_mode,
        identifiers::bits_of(b.modified_seconds),
    );
    identifiers::lemma_bits_are_injective(a.modified_seconds, b.modified_seconds);
    let a_gid = a_size + identifiers::big_endian_half(a.uid) + identifiers::big_endian_half(a.gid);
    let b_gid = b_size + identifiers::big_endian_half(b.uid) + identifiers::big_endian_half(b.gid);
    lemma_half_at_end(a_gid, a.mode, b_gid, b.mode);
    lemma_half_at_end(
        a_size + identifiers::big_endian_half(a.uid),
        a.gid,
        b_size + identifiers::big_endian_half(b.uid),
        b.gid,
    );
    lemma_half_at_end(a_size, a.uid, b_size, b.uid);
    lemma_number_at_end(
        a_type + identifiers::big_endian(a.links),
        identifiers::bits_of(a.size),
        b_type + identifiers::big_endian(b.links),
        identifiers::bits_of(b.size),
    );
    identifiers::lemma_bits_are_injective(a.size, b.size);
    lemma_number_at_end(a_type, a.links, b_type, b.links);
    lemma_split_end(
        a_device + identifiers::big_endian(a.inode),
        seq![a.file_type.tag()],
        b_device + identifiers::big_endian(b.inode),
        seq![b.file_type.tag()],
    );
    assert(seq![a.file_type.tag()][0] == seq![b.file_type.tag()][0]);
    lemma_number_at_end(a_device, a.inode, b_device, b.inode);
    lemma_number_at_end(seq![1u8], a.device, seq![1u8], b.device);
}

/// Every part of an identity is part of what its revision is computed from: two
/// identities with the same bytes are the same.
pub proof fn law_revisions_cover_the_identity(
    left: ReplacementTargetIdentity,
    right: ReplacementTargetIdentity,
)
    requires
        revision_input(left) == revision_input(right),
    ensures
        left == right,
{
    match (left, right) {
        (
            ReplacementTargetIdentity::Existing(a),
            ReplacementTargetIdentity::Existing(b),
        ) => {
            lemma_existing_revisions(a, b);
        },
        (ReplacementTargetIdentity::Existing(a), ReplacementTargetIdentity::Missing) => {
            identifiers::lemma_big_endian_length(a.changed_nanoseconds);
            assert(revision_input(left).len() >= 8);
        },
        (ReplacementTargetIdentity::Missing, ReplacementTargetIdentity::Existing(b)) => {
            identifiers::lemma_big_endian_length(b.changed_nanoseconds);
            assert(revision_input(right).len() >= 8);
        },
        _ => {},
    }
}

/// The text that a purge revision is computed behind.
pub open spec fn purge_revision_domain() -> Seq<u8> {
    encode_utf8("dufs-purge-trash-revision-v1"@) + seq![0u8]
}

impl ReplacementTargetIdentity {
    pub fn is_existing(self) -> (result: bool)
        ensures
            result == (self is Existing),
    {
        match self {
            ReplacementTargetIdentity::Existing(_) => true,
            ReplacementTargetIdentity::Missing => false,
        }
    }

    /// The entry as a deletion sees it.
    pub fn delete_identity(self) -> (identity: Option<DeleteIdentity>)
        ensures
            identity == (match self {
                ReplacementTargetIdentity::Existing(target) => Some(target.as_deleted()),
                ReplacementTargetIdentity::Missing => None,
            }),
    {
        match self {
            ReplacementTargetIdentity::Existing(target) => Some(target.delete_identity_from_stat()),
            ReplacementTargetIdentity::Missing => None,
        }
    }

    pub open spec fn replaceable(self) -> bool {
        match self {
            ReplacementTargetIdentity::Missing => true,
            ReplacementTargetIdentity::Existing(target) => match target.file_type {
                FileType::Symlink => true,
                FileType::RegularFile => target.links == 1 && target.mode & 3072u32 == 0,
                _ => false,
            },
        }
    }

    /// Whether an upload can replace what stands here, as far as a cheap look
    /// shows: nothing, a symbolic link, or a file with one name and without
    /// set-user-ID and set-group-ID bits.
    pub fn is_replaceable(self) -> (result: bool)
        ensures
            result == self.replaceable(),
    {
        match self {
            ReplacementTargetIdentity::Missing => true,
            ReplacementTargetIdentity::Existing(target) => match target.file_type {
                FileType::Symlink => true,
                FileType::RegularFile => target.links == 1 && target.mode & 3072u32 == 0,
                _ => false,
            },
        }
    }

    /// Appends the complete identity to the input of a digest.
    pub fn update_revision_digest(self, input: &mut Vec<u8>)
        ensures
            final(input)@ == old(input)@ + revision_input(self),
    {
        let mut encoded: Vec<u8> = Vec::new();
        match self {
            ReplacementTargetIdentity::Missing => {
                encoded.push(0);
                assert(encoded@ =~= seq![0u8]);
            },
            ReplacementTargetIdentity::Existing(target) => {
                encoded.push(1);
                assert(encoded@ =~= seq![1u8]);
                push_big_endian(&mut encoded, target.device);
                push_big_endian(&mut encoded, target.inode);
                let ghost before = encoded@;
                encoded.push(target.file_type.file_type_revision_tag());
                assert(encoded@ =~= before + seq![target.file_type.tag()]);
                push_big_endian(&mut encoded, target.links);
                push_big_endian_signed(&mut encoded, target.size);
                push_big_endian_half(&mut encoded, target.uid);
                push_big_endian_half(&mut encoded, target.gid);
                push_big_endian_half(&mut encoded, target.mode);
                push_big_endian_signed(&mut encoded, target.modified_seconds);
                push_big_endian(&mut encoded, target.modified_nanoseconds);
                push_big_endian_signed(&mut encoded, target.changed_seconds);
                push_big_endian(&mut encoded, target.changed_nanoseconds);
            },
        }
        input.append(&mut encoded);
    }

    /// The revision that binds a trashed entry to the record of its deletion.
    pub fn purge_revision(self) -> (revision: [u8; 32])
        ensures
            revision@ == identifiers::sha256(purge_revision_domain() + revision_input(self)),
    {
        let mut input: Vec<u8> = Vec::new();
        input.extend_from_slice("dufs-purge-trash-revision-v1".as_bytes());
        input.push(0);
        assert(input@ =~= purge_revision_domain());
        self.update_revision_digest(&mut input);
        sha256_digest(input.as_slice())
    }
}

/// The types of entries have each a byte of their own in a revision.
pub proof fn law_types_have_their_bytes(left: FileType, right: FileType)
    ensures
        left.tag() == right.tag() ==> left == right,
        FileType::RegularFile.tag() == 1,
        FileType::Directory.tag() == 2,
        FileType::Symlink.tag() == 3,
        FileType::BlockDevice.tag() == 4,
        FileType::CharacterDevice.tag() == 5,
        FileType::Fifo.tag() == 6,
        FileType::Socket.tag() == 7,
        FileType::Unknown.tag() == 255,
{
}

/// A deletion is about a device, an inode and whether it is a directory's, and about
/// nothing that changes while the entry stays.
pub proof fn law_deletions_are_about_the_entry(
    left: ExistingReplacementTarget,
    right: ExistingReplacementTarget,
)
    ensures
        left.as_deleted() == right.as_deleted() <==> left.device == right.device && left.inode
            == right.inode && (left.file_type == FileType::Directory <==> right.file_type
            == FileType::Directory),
        left.as_deleted().is_directory <==> left.file_type == FileType::Directory,
{
}

/// A free name and a link can be replaced, and a file with one name that sets neither
/// the user nor the group; nothing else can.
pub proof fn law_only_plain_entries_are_replaceable(target: ExistingReplacementTarget)
    ensures
        ReplacementTargetIdentity::Missing.replaceable(),
        target.file_type == FileType::Symlink ==> ReplacementTargetIdentity::Existing(
            target,
        ).replaceable(),
        target.file_type == FileType::RegularFile ==> (ReplacementTargetIdentity::Existing(
            target,
        ).replaceable() <==> target.links == 1 && target.mode & 0o6000 == 0),
        target.file_type != FileType::Symlink && target.file_type != FileType::RegularFile
            ==> !ReplacementTargetIdentity::Existing(target).replaceable(),
{
}

} // verus!
