//! The page of a directory, and the responses that carry listings.
use crate::administrator_web;
use crate::administrator_web::set_page;
use crate::download::private_cache_control;
use crate::listing::entries;
use crate::listing::entries::strict_relative_path;
use crate::listing::problems::{ListingError, ListingErrorView};
use crate::paths;
use crate::paths::LexicalPath;
use crate::response::{Body, BodyView, Response, ResponseView};
use crate::text;
use crate::text::{concat, decimal_text, replace_text};
use base64::Engine;
use vstd::prelude::*;
use vstd::string::*;
use vstd::utf8::*;

verus! {

/// The standard base64 encoding of bytes, with padding.
pub uninterp spec fn base64_text(bytes: Seq<u8>) -> Seq<char>;

/// `base64::engine::general_purpose::STANDARD.encode`.
#[verifier::external_body]
fn base64_encode(bytes: &[u8]) -> (encoded: String)
    ensures
        encoded@ == base64_text(bytes@),
{
    base64::engine::general_purpose::STANDARD.encode(bytes)
}

/// What the page of a directory is told of it.
pub struct IndexData {
    pub href: String,
    pub dir_exists: bool,
}

/// The head of the page of a directory.
pub open spec fn index_head(response: ResponseView) -> ResponseView {
    response.with_header("content-type"@, "text/html; charset=utf-8"@).with_header(
        "cache-control"@,
        "no-store, private"@,
    ).with_header("x-content-type-options"@, "nosniff"@).with_header(
        "x-frame-options"@,
        "DENY"@,
    ).with_header("referrer-policy"@, "no-referrer"@).with_header(
        "permissions-policy"@,
        "camera=(), microphone=(), geolocation=(), payment=(), usb=()"@,
    ).with_header(
        "content-security-policy"@,
        "default-src 'none'; script-src 'self'; style-src 'self'; font-src 'self'; img-src 'self'; connect-src 'self'; form-action 'self'; base-uri 'none'; frame-ancestors 'none'"@,
    )
}

/// Why the path of a page cannot be written.
pub open spec fn page_failure(path: Seq<Seq<u8>>, root: Seq<Seq<u8>>) -> Option<ListingErrorView> {
    entries::relative_failure(path, root, "directory_page_path"@, root)
}

/// Starts the page of a directory: its head, and what the page is told, unless only
/// the head is wanted.
pub fn handle_ls_dir(
    response: &mut Response,
    path: &LexicalPath,
    root: &LexicalPath,
    is_existing: bool,
    head_only: bool,
) -> (data: Result<Option<IndexData>, ListingError>)
    ensures
        final(response)@ == index_head(old(response)@),
        match data {
            Ok(None) => head_only,
            Ok(Some(data)) => !head_only && page_failure(path@, root@) is None && data.href@
                == "/"@ + decode_utf8(entries::bytes_below(path@, root@)) && data.dir_exists
                == is_existing,
            Err(error) => !head_only && page_failure(path@, root@) == Some(error@),
        },
{
    response.set_header("content-type", "text/html; charset=utf-8");
    response.set_header("cache-control", private_cache_control().as_str());
    response.set_header("x-content-type-options", "nosniff");
    response.set_header("x-frame-options", "DENY");
    response.set_header("referrer-policy", "no-referrer");
    response.set_header(
        "permissions-policy",
        "camera=(), microphone=(), geolocation=(), payment=(), usb=()",
    );
    response.set_header(
        "content-security-policy",
        "default-src 'none'; script-src 'self'; style-src 'self'; font-src 'self'; img-src 'self'; connect-src 'self'; form-action 'self'; base-uri 'none'; frame-ancestors 'none'",
    );
    if head_only {
        return Ok(None);
    }
    match strict_relative_path(path, root, "directory_page_path", root) {
        Ok(relative) => Ok(
            Some(IndexData { href: concat("/", relative.as_str()), dir_exists: is_existing }),
        ),
        Err(error) => Err(error),
    }
}

/// Why the page of a search cannot be shown.
pub enum SearchPageFailure {
    /// The request holds no search.
    InvalidQuery,
    Listing(ListingError),
}

/// Starts the page of a search, which is that of the directory: the page asks for
/// what was found itself.
pub fn handle_search_dir(
    response: &mut Response,
    path: &LexicalPath,
    root: &LexicalPath,
    query: Option<&str>,
    head_only: bool,
) -> (data: Result<Option<IndexData>, SearchPageFailure>)
    ensures
        final(response)@ == (if query is Some {
            index_head(old(response)@)
        } else {
            old(response)@
        }),
        match data {
            Ok(None) => query is Some && head_only,
            Ok(Some(data)) => query is Some && !head_only && page_failure(path@, root@) is None
                && data.href@ == "/"@ + decode_utf8(entries::bytes_below(path@, root@))
                && data.dir_exists,
            Err(SearchPageFailure::InvalidQuery) => query is None,
            Err(SearchPageFailure::Listing(error)) => query is Some && !head_only && page_failure(
                path@,
                root@,
            ) == Some(error@),
        },
{
    if query.is_none() {
        return Err(SearchPageFailure::InvalidQuery);
    }
    match handle_ls_dir(response, path, root, true, head_only) {
        Ok(data) => Ok(data),
        Err(error) => Err(SearchPageFailure::Listing(error)),
    }
}

/// The page of a directory with its placeholders filled in.
pub open spec fn index_page(
    template: Seq<char>,
    assets_prefix: Seq<char>,
    data: Seq<char>,
) -> Seq<char> {
    text::replaced(
        text::replaced(template, "__ASSETS_PREFIX__"@, "/"@ + assets_prefix),
        "__INDEX_DATA__"@,
        base64_text(encode_utf8(data)),
    )
}

/// Completes the page of a directory with its data, which is JSON.
pub fn send_index(response: &mut Response, template: &str, assets_prefix: &str, data: &str)
    ensures
        final(response)@ == ({
            let page = index_page(template@, assets_prefix@, data@);
            old(response)@.with_header(
                "content-length"@,
                administrator_web::length_text(page),
            ).with_body(BodyView::Text(page))
        }),
{
    proof {
        reveal_strlit("__ASSETS_PREFIX__");
        reveal_strlit("__INDEX_DATA__");
    }
    let addressed = replace_text(
        template,
        "__ASSETS_PREFIX__",
        concat("/", assets_prefix).as_str(),
    );
    let page = replace_text(
        addressed.as_str(),
        "__INDEX_DATA__",
        base64_encode(data.as_bytes()).as_str(),
    );
    set_page(response, page);
}

/// A JSON body with its head.
pub open spec fn json_body(response: ResponseView, json: Seq<u8>) -> ResponseView {
    response.with_header("content-type"@, "application/json"@).with_header(
        "content-length"@,
        text::decimal(json.len()),
    ).with_body(BodyView::Bytes(json))
}

/// Sends a page of a listing, which is JSON.
pub fn write_list_response(response: &mut Response, json: Vec<u8>)
    ensures
        final(response)@ == json_body(old(response)@, json@),
{
    let length = json.len();
    response.set_header("content-type", "application/json");
    response.set_header("content-length", decimal_text(length as u64).as_str());
    response.body = Body::Bytes(json);
}

/// Sends JSON that is not to be kept.
pub fn write_json_response(response: &mut Response, json: Vec<u8>)
    ensures
        final(response)@ == json_body(old(response)@, json@).with_header(
            "cache-control"@,
            "no-store"@,
        ),
{
    write_list_response(response, json);
    response.set_header("cache-control", "no-store");
}

/// The data of a page stands where its placeholder stood, and nothing else of the page
/// changes.
pub proof fn law_pages_hold_their_data(
    before: Seq<char>,
    after: Seq<char>,
    assets_prefix: Seq<char>,
    data: Seq<char>,
)
    requires
        forall|start: int|
            0 <= start < (before + "__INDEX_DATA__"@ + after).len() ==> !text::has_prefix(
                #[trigger] (before + "__INDEX_DATA__"@ + after).subrange(
                    start,
                    (before + "__INDEX_DATA__"@ + after).len() as int,
                ),
                "__ASSETS_PREFIX__"@,
            ),
        forall|start: int|
            0 <= start < before.len() ==> !text::has_prefix(
                #[trigger] (before + "__INDEX_DATA__"@ + after).subrange(
                    start,
                    (before + "__INDEX_DATA__"@ + after).len() as int,
                ),
                "__INDEX_DATA__"@,
            ),
        forall|start: int|
            0 <= start < after.len() ==> !text::has_prefix(
                #[trigger] after.subrange(start, after.len() as int),
                "__INDEX_DATA__"@,
            ),
    ensures
        index_page(before + "__INDEX_DATA__"@ + after, assets_prefix, data) == before
            + base64_text(encode_utf8(data)) + after,
{
    reveal_strlit("__INDEX_DATA__");
    let template = before + "__INDEX_DATA__"@ + after;
    text::law_other_texts_stay(template, "__ASSETS_PREFIX__"@, "/"@ + assets_prefix);
    text::law_occurrences_are_replaced(
        before,
        after,
        "__INDEX_DATA__"@,
        base64_text(encode_utf8(data)),
    );
    text::law_other_texts_stay(after, "__INDEX_DATA__"@, base64_text(encode_utf8(data)));
}

/// Assets are addressed by their prefix behind a slash.
pub proof fn law_pages_address_their_assets(
    before: Seq<char>,
    after: Seq<char>,
    assets_prefix: Seq<char>,
    data: Seq<char>,
)
    requires
        forall|start: int|
            0 <= start < before.len() ==> !text::has_prefix(
                #[trigger] (before + "__ASSETS_PREFIX__"@ + after).subrange(
                    start,
                    (before + "__ASSETS_PREFIX__"@ + after).len() as int,
                ),
                "__ASSETS_PREFIX__"@,
            ),
        forall|start: int|
            0 <= start < after.len() ==> !text::has_prefix(
                #[trigger] after.subrange(start, after.len() as int),
                "__ASSETS_PREFIX__"@,
            ),
        ({
            let page = before + ("/"@ + assets_prefix) + after;
            forall|start: int|
                0 <= start < page.len() ==> !text::has_prefix(
                    #[trigger] page.subrange(start, page.len() as int),
                    "__INDEX_DATA__"@,
                )
        }),
    ensures
        index_page(before + "__ASSETS_PREFIX__"@ + after, assets_prefix, data) == before + ("/"@
            + assets_prefix) + after,
{
    reveal_strlit("__ASSETS_PREFIX__");
    let page = before + ("/"@ + assets_prefix) + after;
    text::law_occurrences_are_replaced(
        before,
        after,
        "__ASSETS_PREFIX__"@,
        "/"@ + assets_prefix,
    );
    text::law_other_texts_stay(after, "__ASSETS_PREFIX__"@, "/"@ + assets_prefix);
    text::law_other_texts_stay(page, "__INDEX_DATA__"@, base64_text(encode_utf8(data)));
}

/// A body of JSON is sent as it is, with its type and as many bytes as it has.
pub proof fn law_json_bodies_are_framed(response: ResponseView, json: Seq<u8>)
    ensures
        json_body(response, json).body == BodyView::Bytes(json),
        json_body(response, json).status == response.status,
        json_body(response, json).headers["content-length"@] == text::decimal(json.len()),
        json_body(response, json).headers["content-type"@] == "application/json"@,
{
    reveal_strlit("content-type");
    reveal_strlit("content-length");
    assert("content-type"@.len() != "content-length"@.len());
}

/// The page of a path below the root can be written where the path is text, and what
/// stands in its way is told.
pub proof fn law_pages_of_texts_can_be_written(
    root: Seq<Seq<u8>>,
    below: Seq<Seq<u8>>,
    name: Seq<char>,
)
    requires
        paths::joined(below, 47u8) == encode_utf8(name),
    ensures
        page_failure(root + below, root) is None,
        decode_utf8(entries::bytes_below(root + below, root)) == name,
{
    broadcast use {encode_utf8_valid_utf8, encode_utf8_decode_utf8};

    let path = root + below;
    text::law_affixes_are_parts(path, root);
    assert(path.subrange(root.len() as int, path.len() as int) =~= below);
}

/// The page of a directory is kept out of caches and of frames, sends no referrer, and
/// runs nothing but what the server itself serves.
pub proof fn law_pages_are_secured(response: ResponseView)
    ensures
        index_head(response).headers["content-type"@] == "text/html; charset=utf-8"@,
        index_head(response).headers["cache-control"@] == "no-store, private"@,
        index_head(response).headers["x-content-type-options"@] == "nosniff"@,
        index_head(response).headers["x-frame-options"@] == "DENY"@,
        index_head(response).headers["referrer-policy"@] == "no-referrer"@,
        index_head(response).status == response.status,
        index_head(response).body == response.body,
{
    reveal_strlit("content-type");
    reveal_strlit("cache-control");
    reveal_strlit("x-content-type-options");
    reveal_strlit("x-frame-options");
    reveal_strlit("referrer-policy");
    reveal_strlit("permissions-policy");
    reveal_strlit("content-security-policy");
    assert("content-type"@.len() == 12);
    assert("cache-control"@.len() == 13);
    assert("x-content-type-options"@.len() == 22);
    assert("x-frame-options"@.len() == 15 && "x-frame-options"@[0] == 'x');
    assert("referrer-policy"@.len() == 15 && "referrer-policy"@[0] == 'r');
    assert("permissions-policy"@.len() == 18);
    assert("content-security-policy"@.len() == 23);
}

} // verus!
