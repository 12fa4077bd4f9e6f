//! The files of the web client, which are served under a name of their contents.
use crate::identifiers;
use crate::identifiers::sha256_digest;
use crate::operation_registry;
use crate::operation_registry::push_frame;
use crate::response::{Body, BodyView, Response, ResponseView};
use crate::server::status_not_found;
use crate::text;
use crate::text::{copy_bytes, decimal_text, encode_hex, str_eq, strip_prefix};
use vstd::prelude::*;
use vstd::string::*;
use vstd::utf8::*;

verus! {

/// One file of the web client.
pub struct EmbeddedAsset {
    pub name: String,
    pub contents: Vec<u8>,
    pub content_type: String,
}

/// What the digest of all the files is made from.
pub open spec fn asset_parts(assets: Seq<EmbeddedAsset>) -> Seq<Seq<u8>>
    decreases assets.len(),
{
    if assets.len() == 0 {
        Seq::empty()
    } else {
        let last = assets.last();
        asset_parts(assets.drop_last()).push(encode_utf8(last.name@)).push(
            encode_utf8(last.content_type@),
        ).push(last.contents@)
    }
}

/// The path under which the files are served.
pub open spec fn assets_prefix(assets: Seq<EmbeddedAsset>) -> Seq<char> {
    "__dufs_assets_"@ + text::hex(
        identifiers::sha256(operation_registry::framed(asset_parts(assets))),
    ) + "/"@
}

/// The path under which the files are served. It changes with any of them.
pub fn embedded_assets_prefix(assets: &Vec<EmbeddedAsset>) -> (prefix: String)
    ensures
        prefix@ == assets_prefix(assets@),
{
    let mut input: Vec<u8> = Vec::new();
    let mut index: usize = 0;
    while index < assets.len()
        invariant
            index <= assets@.len(),
            input@ == operation_registry::framed(
                asset_parts(assets@.subrange(0, index as int)),
            ),
        decreases assets@.len() - index,
    {
        let asset = &assets[index];
        proof {
            let read = asset_parts(assets@.subrange(0, index as int));
            let name = encode_utf8(asset.name@);
            let content_type = encode_utf8(asset.content_type@);
            operation_registry::lemma_framed_push(read, name);
            operation_registry::lemma_framed_push(read.push(name), content_type);
            operation_registry::lemma_framed_push(
                read.push(name).push(content_type),
                asset.contents@,
            );
            assert(assets@.subrange(0, index + 1).drop_last() =~= assets@.subrange(
                0,
                index as int,
            ));
        }
        push_frame(&mut input, asset.name.as_str().as_bytes());
        push_frame(&mut input, asset.content_type.as_str().as_bytes());
        push_frame(&mut input, asset.contents.as_slice());
        index += 1;
    }
    assert(assets@.subrange(0, index as int) =~= assets@);
    let mut prefix = String::from_str("__dufs_assets_");
    prefix.append(encode_hex(sha256_digest(input.as_slice()).as_slice()).as_str());
    prefix.append("/");
    prefix
}

/// Two sets of files whose digests are made from the same bytes have the same
/// names, types and contents, in the same order.
pub proof fn law_prefixes_cover_the_assets(left: Seq<EmbeddedAsset>, right: Seq<EmbeddedAsset>)
    requires
        operation_registry::frames_fit(asset_parts(left)),
        operation_registry::frames_fit(asset_parts(right)),
        operation_registry::framed(asset_parts(left)) == operation_registry::framed(
            asset_parts(right),
        ),
    ensures
        left.len() == right.len(),
        forall|i: int|
            0 <= i < left.len() ==> (#[trigger] left[i]).name@ == right[i].name@
                && left[i].content_type@ == right[i].content_type@ && left[i].contents@
                == right[i].contents@,
{
    operation_registry::law_frames_are_injective(asset_parts(left), asset_parts(right));
    lemma_parts_are_injective(left, right);
}

proof fn lemma_parts_are_injective(left: Seq<EmbeddedAsset>, right: Seq<EmbeddedAsset>)
    requires
        asset_parts(left) == asset_parts(right),
    ensures
        left.len() == right.len(),
        forall|i: int|
            0 <= i < left.len() ==> (#[trigger] left[i]).name@ == right[i].name@
                && left[i].content_type@ == right[i].content_type@ && left[i].contents@
                == right[i].contents@,
    decreases left.len() + right.len(),
{
    lemma_part_count(left);
    lemma_part_count(right);
    if left.len() > 0 {
        let parts = asset_parts(left);
        let count = parts.len() as int;
        let left_front = asset_parts(left.drop_last());
        let right_front = asset_parts(right.drop_last());
        assert(parts[count - 3] == encode_utf8(left.last().name@));
        assert(parts[count - 3] == encode_utf8(right.last().name@));
        assert(parts[count - 2] == encode_utf8(left.last().content_type@));
        assert(parts[count - 2] == encode_utf8(right.last().content_type@));
        assert(parts[count - 1] == left.last().contents@);
        assert(parts[count - 1] == right.last().contents@);
        text::lemma_encoding_is_injective(left.last().name@, right.last().name@);
        text::lemma_encoding_is_injective(left.last().content_type@, right.last().content_type@);
        assert(left_front =~= parts.subrange(0, count - 3));
        assert(right_front =~= parts.subrange(0, count - 3));
        lemma_parts_are_injective(left.drop_last(), right.drop_last());
        assert forall|i: int| 0 <= i < left.len() implies (#[trigger] left[i]).name@
            == right[i].name@ && left[i].content_type@ == right[i].content_type@
            && left[i].contents@ == right[i].contents@ by {
            if i < left.len() - 1 {
                assert(left.drop_last()[i] == left[i]);
                assert(right.drop_last()[i] == right[i]);
            }
        }
    }
}

proof fn lemma_part_count(assets: Seq<EmbeddedAsset>)
    ensures
        asset_parts(assets).len() == 3 * assets.len(),
    decreases assets.len(),
{
    if assets.len() > 0 {
        lemma_part_count(assets.drop_last());
    }
}

/// The place of the first file of this name, or the number of files.
pub open spec fn asset_place(assets: Seq<EmbeddedAsset>, name: Seq<char>) -> nat
    decreases assets.len(),
{
    if assets.len() == 0 || assets[0].name@ == name {
        0
    } else {
        1 + asset_place(assets.subrange(1, assets.len() as int), name)
    }
}

pub open spec fn find_asset(assets: Seq<EmbeddedAsset>, name: Seq<char>) -> Option<EmbeddedAsset> {
    let place = asset_place(assets, name) as int;
    if place < assets.len() {
        Some(assets[place])
    } else {
        None
    }
}

proof fn lemma_asset_place(assets: Seq<EmbeddedAsset>, name: Seq<char>, place: int)
    requires
        0 <= place <= assets.len(),
        forall|i: int| 0 <= i < place ==> (#[trigger] assets[i]).name@ != name,
        place < assets.len() ==> assets[place].name@ == name,
    ensures
        asset_place(assets, name) == place,
    decreases assets.len(),
{
    if place > 0 {
        let rest = assets.subrange(1, assets.len() as int);
        assert(assets[0].name@ != name);
        assert forall|i: int| 0 <= i < place - 1 implies (#[trigger] rest[i]).name@ != name by {
            assert(rest[i] == assets[i + 1]);
        }
        lemma_asset_place(rest, name, place - 1);
    }
}

/// The file of this name.
pub fn embedded_asset<'a>(assets: &'a Vec<EmbeddedAsset>, name: &str) -> (asset: Option<
    &'a EmbeddedAsset,
>)
    ensures
        match asset {
            Some(asset) => find_asset(assets@, name@) == Some(*asset),
            None => find_asset(assets@, name@) is None,
        },
{
    let mut index: usize = 0;
    while index < assets.len()
        invariant
            index <= assets@.len(),
            forall|i: int| 0 <= i < index ==> (#[trigger] assets@[i]).name@ != name@,
        decreases assets@.len() - index,
    {
        if str_eq(assets[index].name.as_str(), name) {
            proof {
                lemma_asset_place(assets@, name@, index as int);
            }
            return Some(&assets[index]);
        }
        index += 1;
    }
    proof {
        lemma_asset_place(assets@, name@, assets@.len() as int);
    }
    None
}

/// The response that carries a file of the client.
pub open spec fn asset_response(
    response: ResponseView,
    asset: EmbeddedAsset,
    head_only: bool,
) -> ResponseView {
    let head = response.with_header(
        "content-length"@,
        text::decimal(asset.contents@.len()),
    ).with_header("content-type"@, asset.content_type@).with_header(
        "cache-control"@,
        "public, max-age=31536000, immutable"@,
    ).with_header("x-content-type-options"@, "nosniff"@);
    if head_only {
        head
    } else {
        head.with_body(BodyView::Bytes(asset.contents@))
    }
}

/// What a path below the prefix is answered with, or nothing for another path.
pub open spec fn internal_response(
    response: ResponseView,
    assets: Seq<EmbeddedAsset>,
    prefix: Seq<char>,
    path: Seq<char>,
    head_only: bool,
) -> Option<ResponseView> {
    if !text::has_prefix(path, prefix) {
        None
    } else {
        match find_asset(assets, path.subrange(prefix.len() as int, path.len() as int)) {
            None => Some(
                response.with_status(404).with_body(BodyView::Text("Not Found"@)).with_header(
                    "x-content-type-options"@,
                    "nosniff"@,
                ),
            ),
            Some(asset) => Some(asset_response(response, asset, head_only)),
        }
    }
}

/// Answers a request for a file of the client; tells whether it was one.
pub fn handle_internal(
    response: &mut Response,
    assets: &Vec<EmbeddedAsset>,
    prefix: &str,
    path: &str,
    head_only: bool,
) -> (handled: bool)
    ensures
        match internal_response(old(response)@, assets@, prefix@, path@, head_only) {
            None => !handled && final(response)@ == old(response)@,
            Some(view) => handled && final(response)@ == view,
        },
{
    let name = match strip_prefix(path, prefix) {
        Some(name) => name,
        None => return false,
    };
    assert(name@ =~= path@.subrange(prefix@.len() as int, path@.len() as int));
    match embedded_asset(assets, name) {
        None => {
            status_not_found(response);
            response.set_header("x-content-type-options", "nosniff");
        },
        Some(asset) => {
            let length = asset.contents.len();
            response.set_header("content-length", decimal_text(length as u64).as_str());
            if !head_only {
                response.body = Body::Bytes(copy_bytes(asset.contents.as_slice()));
            }
            response.set_header("content-type", asset.content_type.as_str());
            response.set_header("cache-control", "public, max-age=31536000, immutable");
            response.set_header("x-content-type-options", "nosniff");
        },
    }
    true
}

/// A path leads to a file of the client.
pub fn is_public_asset_path(assets: &Vec<EmbeddedAsset>, prefix: &str, path: &str) -> (public: bool)
    ensures
        public == (text::has_prefix(path@, prefix@) && find_asset(
            assets@,
            path@.subrange(prefix@.len() as int, path@.len() as int),
        ) is Some),
{
    match strip_prefix(path, prefix) {
        Some(name) => {
            assert(name@ =~= path@.subrange(prefix@.len() as int, path@.len() as int));
            embedded_asset(assets, name).is_some()
        },
        None => false,
    }
}

/// What is kept for good by caches is public: only the files of the client are
/// served as immutable.
pub proof fn law_only_public_assets_are_kept(
    response: ResponseView,
    assets: Seq<EmbeddedAsset>,
    prefix: Seq<char>,
    path: Seq<char>,
    head_only: bool,
)
    requires
        !response.headers.contains_key("cache-control"@),
        internal_response(response, assets, prefix, path, head_only) is Some,
        internal_response(response, assets, prefix, path, head_only)->0.headers.contains_key(
            "cache-control"@,
        ),
    ensures
        text::has_prefix(path, prefix),
        find_asset(assets, path.subrange(prefix.len() as int, path.len() as int)) is Some,
{
    reveal_strlit("cache-control");
    reveal_strlit("x-content-type-options");
    assert("cache-control"@.len() != "x-content-type-options"@.len());
}

/// A file of the client is found under its name, the first one where several have it,
/// and nothing is found under any other name.
pub proof fn law_assets_are_found_by_name(
    assets: Seq<EmbeddedAsset>,
    name: Seq<char>,
    place: int,
)
    requires
        0 <= place < assets.len(),
    ensures
        assets[place].name@ == name && (forall|i: int|
            0 <= i < place ==> (#[trigger] assets[i]).name@ != name) ==> find_asset(assets, name)
            == Some(assets[place]),
        assets[place].name@ == name ==> find_asset(assets, name) is Some,
        find_asset(assets, name) matches Some(asset) ==> asset.name@ == name,
{
    if assets[place].name@ == name && (forall|i: int|
        0 <= i < place ==> (#[trigger] assets[i]).name@ != name) {
        lemma_asset_place(assets, name, place);
    }
    lemma_found_assets(assets, name);
    if assets[place].name@ == name && find_asset(assets, name) is None {
        assert(assets[place].name@ != name);
    }
}

proof fn lemma_found_assets(assets: Seq<EmbeddedAsset>, name: Seq<char>)
    ensures
        asset_place(assets, name) <= assets.len(),
        asset_place(assets, name) < assets.len() ==> assets[asset_place(
            assets,
            name,
        ) as int].name@ == name,
        asset_place(assets, name) == assets.len() ==> forall|i: int|
            0 <= i < assets.len() ==> (#[trigger] assets[i]).name@ != name,
    decreases assets.len(),
{
    if assets.len() > 0 && assets[0].name@ != name {
        let rest = assets.subrange(1, assets.len() as int);
        lemma_found_assets(rest, name);
        if asset_place(assets, name) == assets.len() {
            assert forall|i: int| 0 <= i < assets.len() implies (#[trigger] assets[i]).name@
                != name by {
                if i > 0 {
                    assert(rest[i - 1] == assets[i]);
                }
            }
        }
    }
}

/// A file of the client is served whole under the prefix and its name, with its length,
/// its type and leave to keep it; a name that there is none of is not found; and a path
/// without the prefix is no affair of the client's files.
pub proof fn law_assets_are_served_whole(
    response: ResponseView,
    assets: Seq<EmbeddedAsset>,
    prefix: Seq<char>,
    name: Seq<char>,
    head_only: bool,
)
    ensures
        find_asset(assets, name) matches Some(asset) ==> (internal_response(
            response,
            assets,
            prefix,
            prefix + name,
            head_only,
        ) matches Some(view) && view.status == response.status && view.body == (if head_only {
            response.body
        } else {
            BodyView::Bytes(asset.contents@)
        }) && view.headers["content-length"@] == text::decimal(asset.contents@.len())
            && view.headers["content-type"@] == asset.content_type@
            && view.headers["cache-control"@] == "public, max-age=31536000, immutable"@),
        find_asset(assets, name) is None ==> (internal_response(
            response,
            assets,
            prefix,
            prefix + name,
            head_only,
        ) matches Some(view) && view.status == 404),
{
    let path = prefix + name;
    text::law_affixes_are_parts(path, prefix);
    assert(path.subrange(prefix.len() as int, path.len() as int) =~= name);
    reveal_strlit("content-length");
    reveal_strlit("content-type");
    reveal_strlit("cache-control");
    reveal_strlit("x-content-type-options");
    assert("content-length"@.len() == 14);
    assert("content-type"@.len() == 12);
    assert("cache-control"@.len() == 13);
    assert("x-content-type-options"@.len() == 22);
}

/// A path that does not start with the prefix is left to others.
pub proof fn law_other_paths_are_left_alone(
    response: ResponseView,
    assets: Seq<EmbeddedAsset>,
    prefix: Seq<char>,
    path: Seq<char>,
    head_only: bool,
)
    ensures
        internal_response(response, assets, prefix, path, head_only) is None <==> forall|
            rest: Seq<char>,
        |
            path != #[trigger] (prefix + rest),
{
    text::law_affixes_are_parts(path, prefix);
}

} // verus!
