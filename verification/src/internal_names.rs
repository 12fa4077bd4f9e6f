//! Names that the server keeps for itself inside the shared tree.
use crate::identifiers;
use crate::identifiers::{hyphenated_text, parse_canonical_operation_id, sha256_digest};
use crate::paths::LexicalPath;
use crate::text;
use crate::text::{concat, encode_hex, lossy_text, str_eq, strip_prefix, strip_suffix};
use vstd::prelude::*;
use vstd::string::*;
use vstd::utf8::*;

verus! {

/// What an internal name is for.
#[derive(Clone, Copy, Debug, Eq, PartialEq, Structural)]
pub enum InternalEntryName {
    StageDirectory,
    Readiness,
    DeleteTrash,
    Quarantine,
}

/// The part of a name between a prefix and a suffix.
pub open spec fn between(name: Seq<char>, prefix: Seq<char>, suffix: Seq<char>) -> Option<Seq<char>> {
    if text::has_prefix(name, prefix) && text::has_suffix(
        name.subrange(prefix.len() as int, name.len() as int),
        suffix,
    ) {
        Some(name.subrange(prefix.len() as int, name.len() - suffix.len()))
    } else {
        None
    }
}

/// The name is a canonical identifier between a prefix and a suffix.
pub open spec fn wraps_an_id(name: Seq<char>, prefix: Seq<char>, suffix: Seq<char>) -> bool {
    match between(name, prefix, suffix) {
        Some(inner) => identifiers::canonical_id(inner) is Some,
        None => false,
    }
}

fn strip_both<'a>(name: &'a str, prefix: &str, suffix: &str) -> (inner: Option<&'a str>)
    ensures
        inner is Some <==> between(name@, prefix@, suffix@) is Some,
        inner matches Some(inner) ==> between(name@, prefix@, suffix@) == Some(inner@),
{
    let rest = match strip_prefix(name, prefix) {
        Some(rest) => rest,
        None => return None,
    };
    assert(name@.subrange(prefix@.len() as int, name@.len() as int) =~= rest@);
    match strip_suffix(rest, suffix) {
        Some(inner) => {
            assert(name@.subrange(prefix@.len() as int, name@.len() - suffix@.len()) =~= inner@);
            Some(inner)
        },
        None => None,
    }
}

fn is_wrapped_id(name: &str, prefix: &str, suffix: &str) -> (result: bool)
    ensures
        result == wraps_an_id(name@, prefix@, suffix@),
{
    match strip_both(name, prefix, suffix) {
        Some(inner) => parse_canonical_operation_id(inner).is_some(),
        None => false,
    }
}

proof fn lemma_between_a_wrap(prefix: Seq<char>, inner: Seq<char>, suffix: Seq<char>)
    ensures
        between(prefix + inner + suffix, prefix, suffix) == Some(inner),
{
    let name = prefix + inner + suffix;
    assert(name.subrange(0, prefix.len() as int) =~= prefix);
    let rest = name.subrange(prefix.len() as int, name.len() as int);
    assert(rest.subrange(rest.len() - suffix.len(), rest.len() as int) =~= suffix);
    assert(name.subrange(prefix.len() as int, name.len() - suffix.len()) =~= inner);
}

/// What an internal name is for; `None` for a name that users can use.
pub open spec fn internal_kind(name: Seq<char>) -> Option<InternalEntryName> {
    if name == ".dufs-upload-stages"@ {
        Some(InternalEntryName::StageDirectory)
    } else if name == ".dufs-readiness.probe"@ {
        Some(InternalEntryName::Readiness)
    } else if wraps_an_id(name, ".dufs-quarantine-"@, ".hold"@) {
        Some(InternalEntryName::Quarantine)
    } else if wraps_an_id(name, ".dufs-upload-delete-"@, ".trash"@) {
        Some(InternalEntryName::DeleteTrash)
    } else if wraps_an_id(name, ".dufs-readiness-"@, ".probe"@) {
        Some(InternalEntryName::Readiness)
    } else {
        None
    }
}

/// What an internal name is for.
pub fn classify_internal_name(name: &str) -> (kind: Option<InternalEntryName>)
    ensures
        kind == internal_kind(name@),
{
    if str_eq(name, ".dufs-upload-stages") {
        return Some(InternalEntryName::StageDirectory);
    }
    if str_eq(name, ".dufs-readiness.probe") {
        return Some(InternalEntryName::Readiness);
    }
    if is_quarantine_name(name) {
        return Some(InternalEntryName::Quarantine);
    }
    if is_delete_trash_name(name) {
        return Some(InternalEntryName::DeleteTrash);
    }
    if is_readiness_name(name) {
        return Some(InternalEntryName::Readiness);
    }
    None
}

/// Whether users cannot use a name.
pub fn is_internal_name(name: &str) -> (result: bool)
    ensures
        result == internal_kind(name@) is Some,
{
    classify_internal_name(name).is_some()
}

pub fn is_quarantine_name(name: &str) -> (result: bool)
    ensures
        result == wraps_an_id(name@, ".dufs-quarantine-"@, ".hold"@),
{
    is_wrapped_id(name, ".dufs-quarantine-", ".hold")
}

pub fn is_delete_trash_name(name: &str) -> (result: bool)
    ensures
        result == wraps_an_id(name@, ".dufs-upload-delete-"@, ".trash"@),
{
    is_wrapped_id(name, ".dufs-upload-delete-", ".trash")
}

pub fn is_readiness_name(name: &str) -> (result: bool)
    ensures
        result == wraps_an_id(name@, ".dufs-readiness-"@, ".probe"@),
{
    is_wrapped_id(name, ".dufs-readiness-", ".probe")
}

pub open spec fn is_lower_hex(character: char) -> bool {
    '0' <= character <= '9' || 'a' <= character <= 'f'
}

/// A stage name: the tag of its target and the identifier of its upload.
pub open spec fn is_stage_name(name: Seq<char>) -> bool {
    match between(name, ".dufs-upload-"@, ".part"@) {
        Some(value) => {
            &&& value.len() > 64
            &&& forall|i: int| 0 <= i < 64 ==> is_lower_hex(#[trigger] value[i])
            &&& value[64] == '-'
            &&& identifiers::canonical_id(value.subrange(65, value.len() as int)) is Some
        },
        None => false,
    }
}

/// Whether a name is that of a staged upload.
pub fn is_upload_stage_name(name: &str) -> (result: bool)
    ensures
        result == is_stage_name(name@),
{
    let value = match strip_both(name, ".dufs-upload-", ".part") {
        Some(value) => value,
        None => return false,
    };
    let length = value.unicode_len();
    if length <= 64 {
        return false;
    }
    let mut index: usize = 0;
    for character in characters: value.chars()
        invariant
            characters.seq() == value@,
            index == (if characters.index() < 64 { characters.index() as int } else { 64 }),
            value@.len() > 64,
            forall|i: int| 0 <= i < index ==> is_lower_hex(#[trigger] value@[i]),
            between(name@, ".dufs-upload-"@, ".part"@) == Some(value@),
    {
        if index < 64 {
            let digit = '0' <= character && character <= '9';
            let letter = 'a' <= character && character <= 'f';
            if !digit && !letter {
                assert(!is_lower_hex(value@[index as int]));
                return false;
            }
            index += 1;
        }
    }
    value.get_char(64) == '-' && parse_canonical_operation_id(
        value.substring_char(65, length),
    ).is_some()
}

/// The name of the entry that an identifier is wrapped into.
fn wrap_id(prefix: &str, id: u128, suffix: &str) -> (name: String)
    ensures
        name@ == prefix@ + identifiers::hyphenated(id) + suffix@,
        wraps_an_id(name@, prefix@, suffix@),
{
    let notation = hyphenated_text(id);
    let name = concat(concat(prefix, notation.as_str()).as_str(), suffix);
    proof {
        lemma_between_a_wrap(prefix@, notation@, suffix@);
    }
    name
}

/// The name of an entry that a deletion moved out of sight.
pub fn delete_trash_name(trash_id: u128) -> (name: String)
    ensures
        name@ == ".dufs-upload-delete-"@ + identifiers::hyphenated(trash_id) + ".trash"@,
        internal_kind(name@) == Some(InternalEntryName::DeleteTrash),
{
    let name = wrap_id(".dufs-upload-delete-", trash_id, ".trash");
    proof {
        reveal_strlit(".dufs-upload-delete-");
        reveal_strlit(".trash");
        reveal_strlit(".dufs-upload-stages");
        reveal_strlit(".dufs-readiness.probe");
        reveal_strlit(".dufs-quarantine-");
        reveal_strlit(".dufs-readiness-");
        assert(name@[6] == 'u' && name@.len() == 62);
        assert(".dufs-quarantine-"@[6] == 'q');
        assert(name@.subrange(0, 17)[6] == name@[6]);
        assert(".dufs-upload-stages"@.len() == 19);
        assert(".dufs-readiness.probe"@.len() == 21);
    }
    name
}

/// The name of an entry that a deletion refused to touch.
pub fn quarantine_name(quarantine_id: u128) -> (name: String)
    ensures
        name@ == ".dufs-quarantine-"@ + identifiers::hyphenated(quarantine_id) + ".hold"@,
        internal_kind(name@) == Some(InternalEntryName::Quarantine),
{
    let name = wrap_id(".dufs-quarantine-", quarantine_id, ".hold");
    proof {
        reveal_strlit(".dufs-quarantine-");
        reveal_strlit(".hold");
        reveal_strlit(".dufs-upload-stages");
        reveal_strlit(".dufs-readiness.probe");
        assert(name@.len() == 58);
        assert(".dufs-upload-stages"@.len() == 19);
        assert(".dufs-readiness.probe"@.len() == 21);
    }
    name
}

/// The name of a readiness probe of its own.
pub fn upload_readiness_probe_name(upload_id: u128) -> (name: String)
    ensures
        name@ == ".dufs-readiness-"@ + identifiers::hyphenated(upload_id) + ".probe"@,
        internal_kind(name@) == Some(InternalEntryName::Readiness),
{
    let name = wrap_id(".dufs-readiness-", upload_id, ".probe");
    proof {
        reveal_strlit(".dufs-readiness-");
        reveal_strlit(".probe");
        reveal_strlit(".dufs-upload-stages");
        reveal_strlit(".dufs-readiness.probe");
        reveal_strlit(".dufs-quarantine-");
        reveal_strlit(".dufs-upload-delete-");
        assert(name@[6] == 'r' && name@.len() == 58);
        assert(".dufs-quarantine-"@[6] == 'q');
        assert(name@.subrange(0, 17)[6] == name@[6]);
        assert(".dufs-upload-delete-"@[6] == 'u');
        assert(name@.subrange(0, 20)[6] == name@[6]);
        assert(".dufs-upload-stages"@.len() == 19);
        assert(".dufs-readiness.probe"@.len() == 21);
    }
    name
}

/// The digest of a file name, which the stage of an upload to it is named by.
pub open spec fn name_digest(file_name: Seq<u8>) -> Seq<u8> {
    identifiers::sha256(encode_utf8(text::lossy_utf8(file_name)))
}

/// The stage name of an upload to a file of this name.
pub open spec fn stage_name(file_name: Seq<u8>, upload_id: u128) -> Seq<char> {
    ".dufs-upload-"@ + (text::hex(name_digest(file_name)) + "-"@ + identifiers::hyphenated(
        upload_id,
    )) + ".part"@
}

/// The path of the stage of an upload: in the private directory beside its
/// target.
pub open spec fn stage_path(target: Seq<Seq<u8>>, upload_id: u128) -> Seq<Seq<u8>> {
    target.drop_last().push(encode_utf8(".dufs-upload-stages"@)).push(
        encode_utf8(stage_name(target.last(), upload_id)),
    )
}

fn upload_stage_name(file_name: &[u8], upload_id: u128) -> (name: String)
    ensures
        name@ == stage_name(file_name@, upload_id),
        is_stage_name(name@),
        internal_kind(name@) is None,
{
    let lossy = lossy_text(file_name);
    let digest = sha256_digest(lossy.as_str().as_bytes());
    let tag = encode_hex(&digest);
    let notation = hyphenated_text(upload_id);
    let value = concat(concat(tag.as_str(), "-").as_str(), notation.as_str());
    let name = concat(concat(".dufs-upload-", value.as_str()).as_str(), ".part");
    proof {
        reveal_strlit("-");
        reveal_strlit(".dufs-upload-");
        reveal_strlit(".part");
        reveal_strlit(".dufs-upload-stages");
        reveal_strlit(".dufs-readiness.probe");
        reveal_strlit(".dufs-quarantine-");
        reveal_strlit(".dufs-upload-delete-");
        reveal_strlit(".dufs-readiness-");
        lemma_between_a_wrap(".dufs-upload-"@, value@, ".part"@);
        assert(tag@.len() == 64);
        assert forall|i: int| 0 <= i < 64 implies is_lower_hex(#[trigger] value@[i]) by {
            assert(value@[i] == tag@[i]);
        }
        assert(value@[64] == '-');
        assert(value@.subrange(65, value@.len() as int) =~= notation@);
        assert(name@.len() == 119);
        assert(name@[6] == 'u');
        assert(".dufs-quarantine-"@[6] == 'q');
        assert(name@.subrange(0, 17)[6] == name@[6]);
        assert(".dufs-readiness-"@[6] == 'r');
        assert(name@.subrange(0, 16)[6] == name@[6]);
        assert(name@[15] == value@[2]);
        assert(".dufs-upload-delete-"@[15] == 'l');
        assert(name@.subrange(0, 20)[15] == name@[15]);
        assert(".dufs-upload-stages"@.len() == 19);
        assert(".dufs-readiness.probe"@.len() == 21);
    }
    name
}

/// The path of the stage of an upload; `None` for a target without a name.
///
/// The stage is recognised as one, and its name is not an internal one: it is
/// the private directory that hides it.
pub fn upload_temp_path(target: &LexicalPath, upload_id: u128) -> (stage: Option<LexicalPath>)
    ensures
        stage is Some <==> target@.len() > 0,
        stage matches Some(stage) ==> {
            &&& stage@ == stage_path(target@, upload_id)
            &&& is_stage_name(stage_name(target@.last(), upload_id))
            &&& internal_kind(stage_name(target@.last(), upload_id)) is None
        },
{
    let parent = match target.parent() {
        Some(parent) => parent,
        None => return None,
    };
    match target.file_name() {
        Some(file_name) => {
            let name = upload_stage_name(file_name.as_slice(), upload_id);
            let directory = parent.child(".dufs-upload-stages".as_bytes());
            Some(directory.child(name.as_str().as_bytes()))
        },
        None => None,
    }
}

/// Whether a path is the stage of this upload to this target; `None` for a
/// target without a name.
pub fn is_upload_temp_path(target: &LexicalPath, upload_id: u128, stage: &LexicalPath) -> (result:
    Option<bool>)
    ensures
        result is Some <==> target@.len() > 0,
        result matches Some(result) ==> result == (stage@ == stage_path(target@, upload_id)),
{
    match upload_temp_path(target, upload_id) {
        Some(expected) => Some(expected.equals(stage)),
        None => None,
    }
}

/// The private directory that holds a stage.
pub fn upload_stage_directory(path: &LexicalPath) -> (directory: Option<LexicalPath>)
    ensures
        directory is Some <==> path@.len() >= 2 && path@[path@.len() - 2] == encode_utf8(
            ".dufs-upload-stages"@,
        ),
        directory matches Some(directory) ==> directory@ == path@.drop_last(),
{
    let directory = match path.parent() {
        Some(directory) => directory,
        None => return None,
    };
    let is_stage_directory = match directory.file_name() {
        Some(name) => crate::text::bytes_eq(name.as_slice(), ".dufs-upload-stages".as_bytes()),
        None => return None,
    };
    if is_stage_directory {
        Some(directory)
    } else {
        None
    }
}

/// The stage of an upload lies in a private directory beside its target, which is
/// told from the path of the stage.
pub proof fn law_stages_lie_beside_their_target(target: Seq<Seq<u8>>, upload_id: u128)
    requires
        target.len() > 0,
    ensures
        ({
            let stage = stage_path(target, upload_id);
            &&& stage.len() == target.len() + 1
            &&& stage.subrange(0, target.len() - 1) == target.drop_last()
            &&& stage[stage.len() - 2] == encode_utf8(".dufs-upload-stages"@)
            &&& stage.drop_last() == target.drop_last().push(encode_utf8(".dufs-upload-stages"@))
            &&& stage.last() == encode_utf8(stage_name(target.last(), upload_id))
        }),
{
    let stage = stage_path(target, upload_id);
    assert(stage.subrange(0, target.len() - 1) =~= target.drop_last());
    assert(stage.drop_last() =~= target.drop_last().push(encode_utf8(".dufs-upload-stages"@)));
}

/// A stage path binds its target: two uploads share one only where their
/// directories and identifiers are the same and their names have the same
/// digest.
pub proof fn law_stage_paths_bind_their_target(
    left: Seq<Seq<u8>>,
    left_id: u128,
    right: Seq<Seq<u8>>,
    right_id: u128,
)
    requires
        left.len() > 0,
        right.len() > 0,
        stage_path(left, left_id) == stage_path(right, right_id),
    ensures
        left.drop_last() == right.drop_last(),
        left_id == right_id,
        name_digest(left.last()) == name_digest(right.last()),
{
    law_stages_lie_beside_their_target(left, left_id);
    law_stages_lie_beside_their_target(right, right_id);
    let left_name = stage_name(left.last(), left_id);
    let right_name = stage_name(right.last(), right_id);
    text::lemma_encoding_is_injective(left_name, right_name);
    let left_tag = text::hex(name_digest(left.last()));
    let right_tag = text::hex(name_digest(right.last()));
    reveal_strlit("-");
    reveal_strlit(".dufs-upload-");
    reveal_strlit(".part");
    assert(identifiers::hyphenated(left_id).len() == 36);
    assert(identifiers::hyphenated(right_id).len() == 36);
    assert(left_name.len() == 55 + left_tag.len());
    assert(right_name.len() == 55 + right_tag.len());
    let end = (13 + left_tag.len()) as int;
    assert(left_name.subrange(13, end) =~= left_tag);
    assert(right_name.subrange(13, end) =~= right_tag);
    assert(left_name.subrange(end + 1, end + 37) =~= identifiers::hyphenated(left_id));
    assert(right_name.subrange(end + 1, end + 37) =~= identifiers::hyphenated(right_id));
    identifiers::law_notations_are_unique(left_id, right_id);
    text::lemma_hex_is_injective(name_digest(left.last()), name_digest(right.last()));
}

/// The stage of one upload is not taken for that of another: not where the
/// identifiers differ, not where the directories do, and not where the digests of
/// the names do.
pub proof fn law_stages_of_others_are_refused(
    target: Seq<Seq<u8>>,
    upload_id: u128,
    other: Seq<Seq<u8>>,
    other_id: u128,
)
    requires
        target.len() > 0,
        other.len() > 0,
        upload_id != other_id || target.drop_last() != other.drop_last() || name_digest(
            target.last(),
        ) != name_digest(other.last()),
    ensures
        stage_path(target, upload_id) != stage_path(other, other_id),
{
    if stage_path(target, upload_id) == stage_path(other, other_id) {
        law_stage_paths_bind_their_target(target, upload_id, other, other_id);
    }
}

/// Names that do not start like the server's own are free for users.
pub proof fn law_other_names_are_free(name: Seq<char>)
    requires
        name.len() < 6 || name.subrange(0, 6) != ".dufs-"@,
    ensures
        internal_kind(name) is None,
        !is_stage_name(name),
{
    reveal_strlit(".dufs-");
    reveal_strlit(".dufs-upload-stages");
    reveal_strlit(".dufs-readiness.probe");
    reveal_strlit(".dufs-quarantine-");
    reveal_strlit(".dufs-upload-delete-");
    reveal_strlit(".dufs-readiness-");
    reveal_strlit(".dufs-upload-");
    assert(".dufs-upload-stages"@.subrange(0, 6) =~= ".dufs-"@);
    assert(".dufs-readiness.probe"@.subrange(0, 6) =~= ".dufs-"@);
    lemma_prefixes_share_their_start(name, ".dufs-quarantine-"@, ".dufs-"@);
    lemma_prefixes_share_their_start(name, ".dufs-upload-delete-"@, ".dufs-"@);
    lemma_prefixes_share_their_start(name, ".dufs-readiness-"@, ".dufs-"@);
    lemma_prefixes_share_their_start(name, ".dufs-upload-"@, ".dufs-"@);
    assert(".dufs-quarantine-"@.subrange(0, 6) =~= ".dufs-"@);
    assert(".dufs-upload-delete-"@.subrange(0, 6) =~= ".dufs-"@);
    assert(".dufs-readiness-"@.subrange(0, 6) =~= ".dufs-"@);
    assert(".dufs-upload-"@.subrange(0, 6) =~= ".dufs-"@);
}

proof fn lemma_prefixes_share_their_start(name: Seq<char>, prefix: Seq<char>, start: Seq<char>)
    ensures
        text::has_prefix(name, prefix) && text::has_prefix(prefix, start) ==> text::has_prefix(
            name,
            start,
        ),
{
    if text::has_prefix(name, prefix) && text::has_prefix(prefix, start) {
        assert(name.subrange(0, start.len() as int) =~= prefix.subrange(0, start.len() as int));
    }
}

/// The server's own names are the directory of staged uploads, the probe of readiness,
/// and those that wrap an identifier: of what is held back, of what was deleted and of
/// probes. A name that wraps anything else is free.
pub proof fn law_internal_names_wrap_identifiers(inner: Seq<char>)
    ensures
        internal_kind(".dufs-upload-stages"@) == Some(InternalEntryName::StageDirectory),
        internal_kind(".dufs-readiness.probe"@) == Some(InternalEntryName::Readiness),
        internal_kind(".dufs-quarantine-"@ + inner + ".hold"@) == (
        if identifiers::canonical_id(inner) is Some {
            Some(InternalEntryName::Quarantine)
        } else {
            None
        }),
        internal_kind(".dufs-upload-delete-"@ + inner + ".trash"@) == (
        if identifiers::canonical_id(inner) is Some {
            Some(InternalEntryName::DeleteTrash)
        } else {
            None
        }),
        internal_kind(".dufs-readiness-"@ + inner + ".probe"@) == (
        if identifiers::canonical_id(inner) is Some {
            Some(InternalEntryName::Readiness)
        } else {
            None
        }),
{
    reveal_strlit(".dufs-upload-stages");
    reveal_strlit(".dufs-readiness.probe");
    reveal_strlit(".dufs-quarantine-");
    reveal_strlit(".dufs-upload-delete-");
    reveal_strlit(".dufs-readiness-");
    reveal_strlit(".hold");
    reveal_strlit(".trash");
    reveal_strlit(".probe");
    let held = ".dufs-quarantine-"@ + inner + ".hold"@;
    let deleted = ".dufs-upload-delete-"@ + inner + ".trash"@;
    let probe = ".dufs-readiness-"@ + inner + ".probe"@;
    lemma_between_a_wrap(".dufs-quarantine-"@, inner, ".hold"@);
    lemma_between_a_wrap(".dufs-upload-delete-"@, inner, ".trash"@);
    lemma_between_a_wrap(".dufs-readiness-"@, inner, ".probe"@);
    assert(".dufs-upload-stages"@ != ".dufs-readiness.probe"@) by {
        assert(".dufs-upload-stages"@[6] == 'u');
        assert(".dufs-readiness.probe"@[6] == 'r');
    }
    assert(held[6] == 'q');
    assert(deleted[6] == 'u' && deleted[13] == 'd');
    assert(probe[6] == 'r' && probe[15] == '-');
    assert(".dufs-upload-stages"@[6] == 'u' && ".dufs-upload-stages"@[13] == 's');
    assert(".dufs-readiness.probe"@[6] == 'r' && ".dufs-readiness.probe"@[15] == '.');
    lemma_prefix_differs(held, ".dufs-upload-delete-"@, 6);
    lemma_prefix_differs(held, ".dufs-readiness-"@, 6);
    lemma_prefix_differs(deleted, ".dufs-quarantine-"@, 6);
    lemma_prefix_differs(deleted, ".dufs-readiness-"@, 6);
    lemma_prefix_differs(probe, ".dufs-quarantine-"@, 6);
    lemma_prefix_differs(probe, ".dufs-upload-delete-"@, 6);
    assert(".dufs-quarantine-"@[6] == 'q');
    assert(".dufs-upload-delete-"@[6] == 'u');
    assert(".dufs-readiness-"@[6] == 'r');
}

proof fn lemma_prefix_differs(name: Seq<char>, prefix: Seq<char>, place: int)
    requires
        0 <= place < prefix.len(),
        place < name.len(),
    ensures
        name[place] != prefix[place] ==> !text::has_prefix(name, prefix),
{
    if text::has_prefix(name, prefix) {
        assert(name.subrange(0, prefix.len() as int)[place] == name[place]);
    }
}

/// The name of a staged upload is the digest of its target's name and the identifier of
/// the upload between a prefix and an ending, and nothing else is one.
pub proof fn law_stage_names_have_one_form(digits: Seq<char>, id: Seq<char>)
    requires
        digits.len() == 64,
        forall|i: int|
            0 <= i < 64 ==> ('0' <= #[trigger] digits[i] <= '9' || 'a' <= digits[i] <= 'f'),
    ensures
        is_stage_name(".dufs-upload-"@ + (digits + seq!['-'] + id) + ".part"@) <==>
            identifiers::canonical_id(id) is Some,
{
    let value = digits + seq!['-'] + id;
    lemma_between_a_wrap(".dufs-upload-"@, value, ".part"@);
    assert forall|i: int| 0 <= i < 64 implies is_lower_hex(#[trigger] value[i]) by {
        assert(value[i] == digits[i]);
    }
    assert(value.subrange(65, value.len() as int) =~= id);
}

} // verus!
