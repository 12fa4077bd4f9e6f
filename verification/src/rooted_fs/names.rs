//! Paths below the root, and how the control plane stores them.
use crate::io_error::{IoErrorKind, IoFailure};
use crate::paths;
use crate::paths::LexicalPath;
use crate::text;
use crate::text::split_bytes;
use vstd::prelude::*;
use vstd::string::*;
use vstd::utf8::*;

verus! {

/// A name that leads to an entry of its directory, and not to the directory
/// itself or its parent.
pub open spec fn is_normal(name: Seq<u8>) -> bool {
    name != seq![46u8] && name != seq![46u8, 46u8]
}

pub open spec fn all_normal(names: Seq<Seq<u8>>) -> bool {
    forall|i: int| 0 <= i < names.len() ==> is_normal(#[trigger] names[i])
}

pub(crate) fn check_normal(name: &[u8]) -> (normal: bool)
    ensures
        normal == is_normal(name@),
{
    if name.len() == 1 && name[0] == 46 {
        assert(name@ =~= seq![46u8]);
        return false;
    }
    if name.len() == 2 && name[0] == 46 && name[1] == 46 {
        assert(name@ =~= seq![46u8, 46u8]);
        return false;
    }
    assert(name@ == seq![46u8] ==> name@.len() == 1 && name@[0] == 46);
    assert(name@ == seq![46u8, 46u8] ==> name@.len() == 2 && name@[0] == 46 && name@[1] == 46);
    true
}

fn check_all_normal(path: &LexicalPath) -> (normal: bool)
    ensures
        normal == all_normal(path@),
{
    let mut index: usize = 0;
    while index < path.names.len()
        invariant
            index <= path@.len(),
            path@.len() == path.names@.len(),
            forall|i: int| 0 <= i < index ==> is_normal(#[trigger] path@[i]),
        decreases path@.len() - index,
    {
        assert(path@[index as int] == path.names@[index as int]@);
        if !check_normal(path.names[index].as_slice()) {
            return false;
        }
        index += 1;
    }
    true
}

/// The names of a path below a root.
pub open spec fn below(root: Seq<Seq<u8>>, path: Seq<Seq<u8>>) -> Seq<Seq<u8>> {
    path.subrange(root.len() as int, path.len() as int)
}

/// The part of a path below the root. The path must lie below the root and name
/// an entry.
pub fn relative_path(root: &LexicalPath, path: &LexicalPath) -> (relative: Result<
    LexicalPath,
    IoFailure,
>)
    ensures
        match relative {
            Ok(relative) => text::has_prefix(path@, root@) && path@.len() > root@.len()
                && all_normal(below(root@, path@)) && relative@ == below(root@, path@),
            Err(failure) => failure.number is None && failure.kind == (if !text::has_prefix(
                path@,
                root@,
            ) {
                IoErrorKind::PermissionDenied
            } else {
                IoErrorKind::InvalidInput
            }) && (text::has_prefix(path@, root@) ==> path@.len() == root@.len() || !all_normal(
                below(root@, path@),
            )),
        },
{
    if !path.starts_with(root) {
        return Err(IoFailure::of_kind(IoErrorKind::PermissionDenied));
    }
    let relative = path.suffix(root.len());
    if relative.len() == 0 || !check_all_normal(&relative) {
        return Err(IoFailure::of_kind(IoErrorKind::InvalidInput));
    }
    Ok(relative)
}

/// The part of a path below the root, which may be the root itself: then it is
/// empty.
pub fn relative_path_or_dot(root: &LexicalPath, path: &LexicalPath) -> (relative: Result<
    LexicalPath,
    IoFailure,
>)
    ensures
        match relative {
            Ok(relative) => text::has_prefix(path@, root@) && all_normal(below(root@, path@))
                && relative@ == below(root@, path@),
            Err(failure) => failure.number is None && failure.kind == (if !text::has_prefix(
                path@,
                root@,
            ) {
                IoErrorKind::PermissionDenied
            } else {
                IoErrorKind::InvalidInput
            }) && (text::has_prefix(path@, root@) ==> !all_normal(below(root@, path@))),
        },
{
    if !path.starts_with(root) {
        return Err(IoFailure::of_kind(IoErrorKind::PermissionDenied));
    }
    let relative = path.suffix(root.len());
    if !check_all_normal(&relative) {
        return Err(IoFailure::of_kind(IoErrorKind::InvalidInput));
    }
    Ok(relative)
}

/// The stored form of a path below the root. It does not depend on how the root
/// itself is spelled.
pub fn encode_relative_path(root: &LexicalPath, path: &LexicalPath) -> (encoded: Result<
    Vec<u8>,
    IoFailure,
>)
    ensures
        encoded is Ok <==> text::has_prefix(path@, root@) && path@.len() > root@.len()
            && all_normal(below(root@, path@)),
        encoded matches Ok(encoded) ==> encoded@ == paths::joined(below(root@, path@), 47u8),
{
    match relative_path(root, path) {
        Ok(relative) => Ok(relative.to_bytes()),
        Err(failure) => Err(failure),
    }
}

/// The names of a stored path: empty pieces drop out, and so do dots after the
/// first name; a dot in front or a double dot anywhere refuses the path.
pub open spec fn stored_names(pieces: Seq<Seq<u8>>) -> Option<Seq<Seq<u8>>>
    decreases pieces.len(),
{
    if pieces.len() == 0 {
        Some(Seq::empty())
    } else {
        let piece = pieces.last();
        match stored_names(pieces.drop_last()) {
            None => None,
            Some(names) => if piece.len() == 0 || (piece == seq![46u8] && names.len() > 0) {
                Some(names)
            } else if is_normal(piece) {
                Some(names.push(piece))
            } else {
                None
            },
        }
    }
}

/// The path below the root that stored bytes stand for.
pub open spec fn stored_path(encoded: Seq<u8>) -> Option<Seq<Seq<u8>>> {
    if encoded.len() == 0 || encoded.contains(0) || encoded[0] == 47 {
        None
    } else {
        stored_names(text::split_pieces(encoded, 47u8))
    }
}

proof fn lemma_refusal_is_final(pieces: Seq<Seq<u8>>, length: int)
    requires
        0 <= length <= pieces.len(),
        stored_names(pieces.subrange(0, length)) is None,
    ensures
        stored_names(pieces) is None,
    decreases pieces.len() - length,
{
    if length == pieces.len() {
        assert(pieces.subrange(0, length) =~= pieces);
    } else {
        assert(pieces.subrange(0, length + 1).drop_last() =~= pieces.subrange(0, length));
        lemma_refusal_is_final(pieces, length + 1);
    }
}

fn holds_zero(bytes: &[u8]) -> (result: bool)
    ensures
        result == bytes@.contains(0),
{
    let mut index: usize = 0;
    while index < bytes.len()
        invariant
            index <= bytes@.len(),
            forall|i: int| 0 <= i < index ==> bytes@[i] != 0,
        decreases bytes@.len() - index,
    {
        if bytes[index] == 0 {
            return true;
        }
        index += 1;
    }
    false
}

/// Reads a stored path and attaches it to the root. The bytes are not trusted:
/// only normal relative names are taken.
pub fn decode_relative_path(root: &LexicalPath, encoded: &[u8]) -> (path: Result<
    LexicalPath,
    IoFailure,
>)
    ensures
        match path {
            Ok(path) => stored_path(encoded@) matches Some(names) && path@ == root@ + names,
            Err(failure) => stored_path(encoded@) is None && failure == (IoFailure {
                kind: IoErrorKind::InvalidData,
                number: None,
            }),
        },
{
    if encoded.len() == 0 || holds_zero(encoded) || encoded[0] == 47 {
        return Err(IoFailure::of_kind(IoErrorKind::InvalidData));
    }
    let pieces = split_bytes(encoded, 47);
    let ghost all = text::split_pieces(encoded@, 47u8);
    let ghost mut names: Seq<Seq<u8>> = Seq::empty();
    let mut path = root.copy();
    let mut count: usize = 0;
    let mut index: usize = 0;
    assert(all.subrange(0, 0) =~= Seq::empty());
    assert(root@ + names =~= root@);
    while index < pieces.len()
        invariant
            index <= pieces@.len(),
            paths::name_list(pieces@) == all,
            stored_path(encoded@) == stored_names(all),
            stored_names(all.subrange(0, index as int)) == Some(names),
            count == names.len(),
            count <= index,
            path@ == root@ + names,
        decreases pieces@.len() - index,
    {
        let piece = pieces[index].as_slice();
        let ghost longer = all.subrange(0, index + 1);
        assert(longer.drop_last() =~= all.subrange(0, index as int));
        assert(longer.last() == piece@);
        let dot = piece.len() == 1 && piece[0] == 46;
        assert(dot == (piece@ == seq![46u8])) by {
            if dot {
                assert(piece@ =~= seq![46u8]);
            }
        }
        if piece.len() == 0 || (dot && count > 0) {
            index += 1;
            continue ;
        }
        if !check_normal(piece) {
            proof {
                lemma_refusal_is_final(all, index + 1);
            }
            return Err(IoFailure::of_kind(IoErrorKind::InvalidData));
        }
        path.push(piece);
        proof {
            let before = names;
            names = names.push(piece@);
            assert((root@ + before).push(piece@) =~= root@ + names);
        }
        count += 1;
        index += 1;
    }
    assert(all.subrange(0, all.len() as int) =~= all);
    Ok(path)
}

/// A name that a directory can hold.
pub open spec fn is_entry_name(name: Seq<u8>) -> bool {
    &&& name.len() > 0
    &&& is_normal(name)
    &&& !name.contains(0)
    &&& !name.contains(47)
}

proof fn lemma_stored_names_of_entries(names: Seq<Seq<u8>>)
    requires
        forall|i: int| 0 <= i < names.len() ==> is_entry_name(#[trigger] names[i]),
    ensures
        stored_names(names) == Some(names),
    decreases names.len(),
{
    if names.len() > 0 {
        let front = names.drop_last();
        assert forall|i: int| 0 <= i < front.len() implies is_entry_name(#[trigger] front[i]) by {
            assert(front[i] == names[i]);
        }
        lemma_stored_names_of_entries(front);
        assert(is_entry_name(names[names.len() - 1]));
        assert(front.push(names.last()) =~= names);
    } else {
        assert(names =~= Seq::empty());
    }
}

proof fn lemma_joined_bytes(names: Seq<Seq<u8>>)
    requires
        names.len() > 0,
        forall|i: int| 0 <= i < names.len() ==> is_entry_name(#[trigger] names[i]),
    ensures
        paths::joined(names, 47u8).len() > 0,
        !paths::joined(names, 47u8).contains(0),
        paths::joined(names, 47u8)[0] == names[0][0],
    decreases names.len(),
{
    let whole = paths::joined(names, 47u8);
    assert(is_entry_name(names[0]));
    if names.len() > 1 {
        let front = names.drop_last();
        assert forall|i: int| 0 <= i < front.len() implies is_entry_name(#[trigger] front[i]) by {
            assert(front[i] == names[i]);
        }
        lemma_joined_bytes(front);
        let head = paths::joined(front, 47u8);
        assert(is_entry_name(names[names.len() - 1]));
        assert forall|i: int| 0 <= i < whole.len() implies whole[i] != 0 by {
            if i < head.len() {
                assert(whole[i] == head[i]);
                assert(head.contains(head[i]));
            } else if i > head.len() {
                let last = names.last();
                assert(whole[i] == last[i - head.len() - 1]);
                assert(last.contains(last[i - head.len() - 1]));
            }
        }
        assert(whole[0] == head[0]);
    }
}

/// A path below the root is read back from its stored form as it was.
pub proof fn law_stored_paths_round_trip(names: Seq<Seq<u8>>)
    requires
        names.len() > 0,
        forall|i: int| 0 <= i < names.len() ==> is_entry_name(#[trigger] names[i]),
    ensures
        stored_path(paths::joined(names, 47u8)) == Some(names),
{
    lemma_joined_bytes(names);
    lemma_stored_names_of_entries(names);
    assert forall|i: int| 0 <= i < names.len() implies !(#[trigger] names[i]).contains(47u8) by {
        assert(is_entry_name(names[i]));
    }
    assert(is_entry_name(names[0]));
    assert(names[0].contains(names[0][0]));
    text::lemma_split_of_joined(names, 47u8);
}

proof fn lemma_stored_names_are_normal(pieces: Seq<Seq<u8>>)
    ensures
        stored_names(pieces) matches Some(names) ==> all_normal(names),
    decreases pieces.len(),
{
    if pieces.len() > 0 {
        lemma_stored_names_are_normal(pieces.drop_last());
        if let Some(names) = stored_names(pieces) {
            let before = stored_names(pieces.drop_last())->0;
            assert forall|i: int| 0 <= i < names.len() implies is_normal(#[trigger] names[i]) by {
                if i < before.len() {
                    assert(names[i] == before[i]);
                }
            }
        }
    }
}

/// A stored path that is read lies below the root and climbs nowhere.
pub proof fn law_stored_paths_stay_below_the_root(root: Seq<Seq<u8>>, encoded: Seq<u8>)
    requires
        stored_path(encoded) is Some,
    ensures
        text::has_prefix(root + stored_path(encoded)->0, root),
        all_normal(stored_path(encoded)->0),
{
    lemma_stored_names_are_normal(text::split_pieces(encoded, 47u8));
    let path = root + stored_path(encoded)->0;
    assert(path.subrange(0, root.len() as int) =~= root);
}

/// What a path holds below a root is what follows the root in it.
pub proof fn law_paths_go_on_below_the_root(root: Seq<Seq<u8>>, rest: Seq<Seq<u8>>)
    ensures
        below(root, root + rest) == rest,
        text::has_prefix(root + rest, root),
        forall|path: Seq<Seq<u8>>| #[trigger]
            text::has_prefix(path, root) ==> path == root + below(root, path),
{
    assert(below(root, root + rest) =~= rest);
    assert((root + rest).subrange(0, root.len() as int) =~= root);
    assert forall|path: Seq<Seq<u8>>| #[trigger] text::has_prefix(path, root) implies path == root
        + below(root, path) by {
        assert(path =~= path.subrange(0, root.len() as int) + below(root, path));
    }
}

/// The names that lead nowhere new are the dot and the double dot, and no others.
pub proof fn law_only_dots_are_not_normal(name: Seq<u8>)
    ensures
        !is_normal(seq![46u8]),
        !is_normal(seq![46u8, 46u8]),
        name.len() != 1 && name.len() != 2 ==> is_normal(name),
        (exists|i: int| 0 <= i < name.len() && #[trigger] name[i] != 46) ==> is_normal(name),
{
}

/// Stored names are read in their order: a piece that a directory can hold is a name,
/// empty pieces say nothing, a dot says nothing behind a name, and a double dot refuses
/// the path.
pub proof fn law_stored_pieces_are_read_in_order(pieces: Seq<Seq<u8>>, piece: Seq<u8>)
    ensures
        stored_names(Seq::<Seq<u8>>::empty()) == Some(Seq::<Seq<u8>>::empty()),
        stored_names(pieces) is None ==> stored_names(pieces.push(piece)) is None,
        stored_names(pieces) matches Some(names) ==> {
            &&& piece.len() == 0 ==> stored_names(pieces.push(piece)) == Some(names)
            &&& piece == seq![46u8] && names.len() > 0 ==> stored_names(pieces.push(piece))
                == Some(names)
            &&& piece == seq![46u8] && names.len() == 0 ==> stored_names(
                pieces.push(piece),
            ) is None
            &&& piece == seq![46u8, 46u8] ==> stored_names(pieces.push(piece)) is None
            &&& piece.len() > 0 && piece != seq![46u8] && piece != seq![46u8, 46u8]
                ==> stored_names(pieces.push(piece)) == Some(names.push(piece))
        },
{
    assert(pieces.push(piece).drop_last() =~= pieces);
    assert(seq![46u8, 46u8] != seq![46u8]) by {
        assert(seq![46u8, 46u8].len() == 2);
        assert(seq![46u8].len() == 1);
    }
}

/// Stored bytes that are empty, start with a slash or hold a zero stand for no path.
pub proof fn law_odd_bytes_store_nothing(encoded: Seq<u8>)
    ensures
        encoded.len() == 0 || encoded[0] == 47 || encoded.contains(0) ==> stored_path(
            encoded,
        ) is None,
        stored_path(encoded) is Some ==> encoded.len() > 0,
{
}

} // verus!
