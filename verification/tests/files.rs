use dufs::administrator_web::{
    accepts_html, redirect_unauthenticated_page, render_administrator_auth_error,
    send_login_page_for_get,
};
use dufs::assets::{
    embedded_assets_prefix, handle_internal, is_public_asset_path, EmbeddedAsset,
};
use dufs::auth::{AccountFault, AuthConfig, AuthConfigError};
use dufs::download::{
    etag_of, get_content_type, handle_send_file, parse_range, send_open_file, DownloadReadState,
    DownloadRequest, EndedEarly, FileFacts, OpenedFile, ParsedRange, SendFailure, UnnamedFile,
};
use dufs::http_utils::{request_content_type_is, FieldValue};
use dufs::io_error::IoErrorKind;
use dufs::listening::{print_listening, ListenAddress};
use dufs::paths::LexicalPath;
use dufs::request_context::{Peer, RequestContext};
use dufs::response::{Body, Headers, Response};
use dufs::server::{encode_content_disposition_filename, set_content_disposition};
use sha2::Digest;

fn path(text: &str) -> LexicalPath {
    let mut path = LexicalPath::new();
    for name in text.split('/').filter(|name| !name.is_empty()) {
        path.push(name.as_bytes());
    }
    path
}

fn field(text: &str) -> FieldValue {
    FieldValue::new(text.as_bytes().to_vec()).unwrap()
}

fn fields(texts: &[&str]) -> Vec<FieldValue> {
    texts.iter().map(|text| field(text)).collect()
}

fn facts() -> FileFacts {
    FileFacts {
        is_file: true,
        size: 23,
        device: 1,
        inode: 2,
        mtime: 784_111_777,
        mtime_nsec: 5,
        ctime: -3,
        ctime_nsec: 7,
        modified: Some(784_111_777),
    }
}

fn request() -> DownloadRequest {
    DownloadRequest {
        head_only: false,
        if_match: Vec::new(),
        if_unmodified_since: Vec::new(),
        if_none_match: Vec::new(),
        if_modified_since: Vec::new(),
        range: Vec::new(),
        has_if_range: false,
    }
}

fn send(facts: &FileFacts, request: &DownloadRequest) -> Response {
    let mut response = Response::new();
    assert_eq!(
        send_open_file(&mut response, &path("/srv/share/notes.txt"), facts, request),
        Ok(())
    );
    response
}

#[test]
fn content_type_matching_validates_the_complete_single_field() {
    for (value, expected) in [
        ("application/json", true),
        ("Application/JSON; charset=utf-8", true),
        ("application/json; charset=\"utf-8\"", true),
        ("text/plain", false),
        ("application/json;garbage", false),
        ("application/json; charset", false),
        ("application/json;=utf-8", false),
    ] {
        assert_eq!(
            request_content_type_is(&vec![Some(value.to_string())], "application/json"),
            expected,
            "unexpected result for {value}"
        );
    }
    assert!(!request_content_type_is(
        &vec![
            Some("application/json;=utf-8".to_string()),
            Some("application/json".to_string())
        ],
        "application/json"
    ));
    assert!(!request_content_type_is(&vec![None], "application/json"));
    assert!(!request_content_type_is(&Vec::new(), "application/json"));
}

#[test]
fn content_type_uses_extensions_and_fails_closed_for_unknown_names() {
    assert_eq!(get_content_type("photo.jpg"), "image/jpeg");
    assert_eq!(get_content_type("notes.txt"), "text/plain");
    assert_eq!(get_content_type("no-extension"), "application/octet-stream");
}

#[test]
fn whole_files_are_sent_with_their_validators() {
    let response = send(&facts(), &request());
    assert_eq!(response.status, 200);
    assert_eq!(response.headers.get("content-length"), Some("23"));
    assert_eq!(response.headers.get("content-type"), Some("text/plain"));
    assert_eq!(response.headers.get("accept-ranges"), Some("bytes"));
    assert_eq!(
        response.headers.get("cache-control"),
        Some("no-store, private")
    );
    assert_eq!(
        response.headers.get("last-modified"),
        Some("Sun, 06 Nov 1994 08:49:37 GMT")
    );
    assert_eq!(
        response.headers.get("content-disposition"),
        Some("attachment; filename=\"download\"; filename*=UTF-8''notes.txt")
    );
    assert!(matches!(response.body, Body::File(0, 23)));
}

#[test]
fn entity_tags_are_weak_digests_of_what_is_known_of_the_file() {
    let mut input = Vec::new();
    for number in [1u64, 2, 23] {
        input.extend_from_slice(&number.to_le_bytes());
    }
    for number in [784_111_777i64, 5, -3, 7] {
        input.extend_from_slice(&number.to_le_bytes());
    }
    let mut expected = String::from("W/\"");
    for byte in sha2::Sha256::digest(&input) {
        expected.push_str(&format!("{byte:02x}"));
    }
    expected.push('"');
    assert_eq!(etag_of(&facts()), expected);
    assert_eq!(
        send(&facts(), &request()).headers.get("etag"),
        Some(expected.as_str())
    );
    let mut other = facts();
    other.ctime_nsec = 8;
    assert_ne!(etag_of(&other), expected);
}

#[test]
fn clients_with_the_current_version_get_no_body() {
    let tag = etag_of(&facts());
    for value in [tag.clone(), format!("\"other\", {tag}"), "*".to_string(), tag[2..].to_string()] {
        let mut conditional = request();
        conditional.if_none_match = fields(&[&value]);
        let response = send(&facts(), &conditional);
        assert_eq!(response.status, 304, "{value}");
        assert!(matches!(response.body, Body::Empty));
        assert!(response.headers.get("content-length").is_none());
    }
    for value in ["\"other\"", "\"with a blank\"", "no tag at all"] {
        let mut conditional = request();
        conditional.if_none_match = fields(&[value]);
        assert_eq!(send(&facts(), &conditional).status, 200, "{value}");
    }
    let mut conditional = request();
    conditional.if_modified_since = fields(&["Sun, 06 Nov 1994 08:49:37 GMT"]);
    assert_eq!(send(&facts(), &conditional).status, 304);
    conditional.if_modified_since = fields(&["Sun, 06 Nov 1994 08:49:36 GMT"]);
    assert_eq!(send(&facts(), &conditional).status, 200);
    conditional.if_modified_since = fields(&["yesterday"]);
    assert_eq!(send(&facts(), &conditional).status, 200);
    // The entity tag goes before the date.
    conditional.if_modified_since = fields(&["Sun, 06 Nov 1994 08:49:37 GMT"]);
    conditional.if_none_match = fields(&["\"other\""]);
    assert_eq!(send(&facts(), &conditional).status, 200);
}

#[test]
fn clients_with_another_version_are_refused() {
    let tag = etag_of(&facts());
    let mut conditional = request();
    conditional.if_match = fields(&["*"]);
    assert_eq!(send(&facts(), &conditional).status, 200);
    // A weak tag never matches strongly.
    conditional.if_match = fields(&[&tag]);
    assert_eq!(send(&facts(), &conditional).status, 412);
    conditional.if_match = fields(&["*", "*"]);
    assert_eq!(send(&facts(), &conditional).status, 412);
    conditional.if_match = Vec::new();
    conditional.if_unmodified_since = fields(&["Sun, 06 Nov 1994 08:49:36 GMT"]);
    assert_eq!(send(&facts(), &conditional).status, 412);
    conditional.if_unmodified_since = fields(&["Sun, 06 Nov 1994 08:49:37 GMT"]);
    assert_eq!(send(&facts(), &conditional).status, 200);
    // Without a time there is no validator, and no condition.
    let mut timeless = facts();
    timeless.modified = None;
    conditional.if_match = fields(&[&tag]);
    let response = send(&timeless, &conditional);
    assert_eq!(response.status, 200);
    assert!(response.headers.get("etag").is_none());
}

#[test]
fn ranges_are_read_as_bytes_of_the_file() {
    for (value, range) in [
        ("bytes=4-7", ParsedRange::Satisfiable(4, 7)),
        ("bytes=4-", ParsedRange::Satisfiable(4, 22)),
        ("bytes=-5", ParsedRange::Satisfiable(18, 22)),
        ("bytes=-500", ParsedRange::Satisfiable(0, 22)),
        ("Bytes = 4 - 700", ParsedRange::Satisfiable(4, 22)),
        ("bytes=23-", ParsedRange::Unsatisfiable),
        ("bytes=7-4", ParsedRange::Unsatisfiable),
        ("bytes=-0", ParsedRange::Unsatisfiable),
        ("bytes=0-1,3-4", ParsedRange::Unsatisfiable),
        ("bytes=x", ParsedRange::Unsatisfiable),
        ("bytes=99999999999999999999-", ParsedRange::Unsatisfiable),
        ("lines=1-2", ParsedRange::Ignore),
        ("bytes", ParsedRange::Ignore),
    ] {
        assert_eq!(parse_range(value, 23), range, "{value}");
    }
    assert_eq!(parse_range("bytes=0-0", 0), ParsedRange::Unsatisfiable);
    assert_eq!(parse_range("bytes=-1", 0), ParsedRange::Unsatisfiable);
}

#[test]
fn parts_of_files_are_sent_where_one_range_asks_for_them() {
    let mut ranged = request();
    ranged.range = fields(&["bytes=4-7"]);
    let response = send(&facts(), &ranged);
    assert_eq!(response.status, 206);
    assert_eq!(response.headers.get("content-range"), Some("bytes 4-7/23"));
    assert_eq!(response.headers.get("content-length"), Some("4"));
    assert!(matches!(response.body, Body::File(4, 4)));

    ranged.range = fields(&["bytes=40-"]);
    let response = send(&facts(), &ranged);
    assert_eq!(response.status, 416);
    assert_eq!(response.headers.get("content-range"), Some("bytes */23"));
    assert!(matches!(response.body, Body::Empty));

    ranged.range = fields(&["bytes=0-1", "bytes=2-3"]);
    assert_eq!(send(&facts(), &ranged).status, 416);
    ranged.range = fields(&["lines=0-1", "lines=2-3"]);
    assert_eq!(send(&facts(), &ranged).status, 200);
    ranged.range = vec![FieldValue::new(b"bytes=\xff".to_vec()).unwrap()];
    assert_eq!(send(&facts(), &ranged).status, 416);

    ranged.range = fields(&["bytes=4-7"]);
    ranged.has_if_range = true;
    assert!(matches!(send(&facts(), &ranged).body, Body::File(0, 23)));
    ranged.has_if_range = false;
    ranged.head_only = true;
    let response = send(&facts(), &ranged);
    assert_eq!(response.status, 200);
    assert_eq!(response.headers.get("content-length"), Some("23"));
    assert!(matches!(response.body, Body::Empty));
}

#[test]
fn files_that_cannot_be_sent_are_not_found_or_fail() {
    let mut pipe = facts();
    pipe.is_file = false;
    let response = send(&pipe, &request());
    assert_eq!(response.status, 404);
    let mut response = Response::new();
    assert_eq!(
        handle_send_file(
            &mut response,
            &path("/srv/share/gone"),
            OpenedFile::Failed(IoErrorKind::NotFound),
            &request()
        ),
        Ok(())
    );
    assert_eq!(response.status, 404);
    let mut response = Response::new();
    assert_eq!(
        handle_send_file(
            &mut response,
            &path("/srv/share/secret"),
            OpenedFile::Failed(IoErrorKind::PermissionDenied),
            &request()
        ),
        Err(SendFailure::Open(IoErrorKind::PermissionDenied))
    );
    let mut unnamed = path("/srv/share");
    unnamed.push(b"\xff.txt");
    let mut response = Response::new();
    assert_eq!(send_open_file(&mut response, &unnamed, &facts(), &request()), Err(UnnamedFile));
    assert_eq!(response.headers.get("content-type").unwrap(), "text/plain");
    assert!(response.headers.get("content-disposition").is_none());
    assert_eq!(
        handle_send_file(
            &mut Response::new(),
            &unnamed,
            OpenedFile::Opened(facts()),
            &request()
        ),
        Err(SendFailure::Unnamed)
    );
}

#[test]
fn bodies_are_read_in_chunks_up_to_their_length() {
    let mut state = DownloadReadState::new(10, 100_000);
    assert_eq!(state.next_chunk(), Some(65_536));
    assert_eq!(state.advance(60_000), Ok(()));
    assert_eq!(state.offset(), 60_010);
    assert_eq!(state.next_chunk(), Some(40_000));
    assert_eq!(state.advance(0), Err(EndedEarly));
    assert_eq!(
        EndedEarly.message(),
        "download file ended before its advertised length"
    );
    assert_eq!(state.advance(40_000), Ok(()));
    assert_eq!(state.next_chunk(), None);
}

fn assets() -> Vec<EmbeddedAsset> {
    vec![
        EmbeddedAsset {
            name: "index.js".to_string(),
            contents: b"let a;".to_vec(),
            content_type: "application/javascript; charset=UTF-8".to_string(),
        },
        EmbeddedAsset {
            name: "index.css".to_string(),
            contents: b"a{}".to_vec(),
            content_type: "text/css; charset=UTF-8".to_string(),
        },
    ]
}

#[test]
fn assets_are_served_under_a_digest_of_all_of_them() {
    let mut digest = sha2::Sha256::new();
    for asset in assets() {
        for part in [
            asset.name.as_bytes(),
            asset.content_type.as_bytes(),
            &asset.contents[..],
        ] {
            digest.update((part.len() as u64).to_be_bytes());
            digest.update(part);
        }
    }
    let mut expected = String::from("__dufs_assets_");
    for byte in digest.finalize() {
        expected.push_str(&format!("{byte:02x}"));
    }
    expected.push('/');
    let prefix = embedded_assets_prefix(&assets());
    assert_eq!(prefix, expected);

    let mut response = Response::new();
    assert!(handle_internal(
        &mut response,
        &assets(),
        &prefix,
        &format!("{prefix}index.css"),
        false
    ));
    assert_eq!(response.headers.get("content-length"), Some("3"));
    assert_eq!(
        response.headers.get("cache-control"),
        Some("public, max-age=31536000, immutable")
    );
    assert!(matches!(&response.body, Body::Bytes(bytes) if bytes == b"a{}"));
    assert!(is_public_asset_path(
        &assets(),
        &prefix,
        &format!("{prefix}index.js")
    ));

    let mut response = Response::new();
    assert!(handle_internal(
        &mut response,
        &assets(),
        &prefix,
        &format!("{prefix}other.js"),
        false
    ));
    assert_eq!(response.status, 404);
    assert_eq!(
        response.headers.get("x-content-type-options"),
        Some("nosniff")
    );
    assert!(!handle_internal(
        &mut Response::new(),
        &assets(),
        &prefix,
        "index.js",
        false
    ));
    assert!(!is_public_asset_path(&assets(), &prefix, "index.js"));
}

#[test]
fn pages_are_wanted_by_those_who_accept_html() {
    for (value, wanted) in [
        ("text/html", true),
        ("TEXT/HTML", true),
        ("application/json, text/html;q=0.9", true),
        ("text/html;level=1;q=1.000", true),
        ("text/html; q = 0.001", true),
        ("text/html;q=0", false),
        ("text/html;q=0.000", false),
        ("text/html;q=1.001", false),
        ("text/html;q=0.0001", false),
        ("text/html;q=0.9;q=0.8", false),
        ("text/html;level", false),
        ("text/html;q=2", false),
        ("*/*", false),
        ("", false),
    ] {
        assert_eq!(accepts_html(&fields(&[value])), wanted, "{value}");
    }
    assert!(accepts_html(&fields(&["application/json", "text/html"])));
    assert!(!accepts_html(&Vec::new()));
    assert!(!accepts_html(&vec![
        FieldValue::new(b"text/html\xff".to_vec()).unwrap()
    ]));
}

#[test]
fn visitors_without_a_session_are_sent_to_the_login_page() {
    let refused = || {
        let mut response = Response::new();
        response.status = 401;
        response.set_header("content-length", "9");
        response
    };
    let mut response = refused();
    redirect_unauthenticated_page(&mut response, "GET", &fields(&["text/html"]), false);
    assert_eq!(response.status, 303);
    assert_eq!(response.headers.get("location"), Some("/__dufs__/login"));
    assert!(response.headers.get("content-length").is_none());
    for (method, accept, api) in [
        ("POST", "text/html", false),
        ("GET", "application/json", false),
        ("GET", "text/html", true),
    ] {
        let mut response = refused();
        redirect_unauthenticated_page(&mut response, method, &fields(&[accept]), api);
        assert_eq!(response.status, 401);
    }
    let mut response = Response::new();
    redirect_unauthenticated_page(&mut response, "GET", &fields(&["text/html"]), false);
    assert_eq!(response.status, 200);
}

#[test]
fn login_pages_tell_the_bounds_of_a_password() {
    let mut response = Response::new();
    send_login_page_for_get(
        &mut response,
        "<link href=\"/__ASSETS_PREFIX__a.css\"><input minlength=__MIN_PASSWORD_BYTES__ maxlength=__MAX_PASSWORD_BYTES__>",
        "assets/",
        12,
        128,
    );
    assert!(matches!(&response.body, Body::Text(page)
        if page == "<link href=\"/assets/a.css\"><input minlength=12 maxlength=128>"));
    assert_eq!(
        response.headers.get("content-type"),
        Some("text/html; charset=utf-8")
    );
    assert_eq!(
        response.headers.get("cache-control"),
        Some("private, no-store")
    );

    let mut response = Response::new();
    render_administrator_auth_error(&mut response, 429, "too_many_attempts", true, Some(30));
    assert_eq!(response.status, 429);
    assert_eq!(response.headers.get("retry-after"), Some("30"));
    assert!(matches!(&response.body, Body::Envelope(envelope)
        if envelope.code == "too_many_attempts"
            && envelope.message == "Request could not be completed"
            && envelope.retryable));
}

#[test]
fn file_names_in_headers_are_plain() {
    assert_eq!(
        encode_content_disposition_filename("a b\"c.txt"),
        "a%20b%22c.txt"
    );
    let mut response = Response::new();
    set_content_disposition(&mut response, "Grüße\n.txt");
    assert_eq!(
        response.headers.get("content-disposition"),
        Some("attachment; filename=\"download\"; filename*=UTF-8''Gr%C3%BC%C3%9Fe%20.txt")
    );
}

fn accounts(texts: &[&str]) -> Vec<String> {
    texts.iter().map(|text| text.to_string()).collect()
}

fn is_name(name: &str) -> bool {
    name.len() >= 2
        && name
            .bytes()
            .all(|byte| byte.is_ascii_lowercase() || byte.is_ascii_digit())
}

fn is_hash(hash: &str) -> bool {
    hash.starts_with("$argon2id$")
}

#[test]
fn configuration_is_strict_and_does_not_disclose_password_hashes() {
    let account = "admin:$argon2id$v=19$hash".to_string();
    let config = AuthConfig::new(&vec![account.clone()], 8, is_name, is_hash)
        .unwrap_or_else(|error| panic!("{}", error.message()));
    assert!(config.has_users());
    assert_eq!(config.usernames(), vec!["admin".to_string()]);
    assert!(AuthConfig::new(&vec![account.clone(), account.clone()], 8, is_name, is_hash).is_err());
    for username in ["Admin", " admin", "a", "bad@name", "用户"] {
        let error = AuthConfig::new(
            &vec![format!("{username}:$argon2id$v=19$hash")],
            8,
            is_name,
            is_hash,
        )
        .err()
        .unwrap();
        assert!(!error.message().contains("$argon2id"));
    }
    for account in ["admin:plaintext-secret", "admin:", "missing-separator"] {
        let error = AuthConfig::new(&accounts(&[account]), 8, is_name, is_hash)
            .err()
            .unwrap();
        assert!(!error.message().contains("plaintext-secret"));
    }
    assert!(AuthConfig::new(&vec![account; 9], 8, is_name, is_hash).is_err());
}

#[test]
fn accounts_are_refused_for_what_is_wrong_with_them() {
    let refuse = |texts: &[&str]| {
        AuthConfig::new(&accounts(texts), 2, is_name, is_hash)
            .err()
            .unwrap()
    };
    assert_eq!(
        refuse(&["aa:$argon2id$1", "bb:$argon2id$2", "cc:$argon2id$3"]),
        AuthConfigError::TooManyAdministrators
    );
    for (account, fault) in [
        ("nothing", AccountFault::NoSeparator),
        (":$argon2id$1", AccountFault::EmptyField),
        ("A:$argon2id$1", AccountFault::InvalidUsername),
        ("admin:plain", AccountFault::InvalidPasswordHash),
    ] {
        assert_eq!(
            refuse(&[account]),
            AuthConfigError::Account { number: 1, fault },
            "{account}"
        );
    }
    assert_eq!(
        refuse(&["admin:$argon2id$1", "admin:$argon2id$2"]),
        AuthConfigError::Account {
            number: 2,
            fault: AccountFault::DuplicateUsername
        }
    );
    // The first account with a fault is told, and its first fault.
    for (texts, number, fault) in [
        (["admin:$argon2id$1", "admin:plain"], 2, AccountFault::DuplicateUsername),
        (["admin:$argon2id$1", "A:plain"], 2, AccountFault::InvalidUsername),
        (["admin:plain", "nothing"], 1, AccountFault::InvalidPasswordHash),
    ] {
        assert_eq!(refuse(&texts), AuthConfigError::Account { number, fault });
    }
    assert!(!AuthConfig::empty().has_users());
    let config = AuthConfig::new(
        &accounts(&["zoe:$argon2id$1", "adam:$argon2id$2"]),
        2,
        is_name,
        is_hash,
    )
    .unwrap_or_else(|error| panic!("{}", error.message()));
    assert_eq!(config.usernames(), vec!["adam".to_string(), "zoe".to_string()]);
    assert_eq!(config.accounts()[0].1, "$argon2id$2");
}

#[test]
fn listening_addresses_are_printed() {
    let four = || ListenAddress::V4("0.0.0.0".to_string());
    let six = || ListenAddress::V6("::".to_string());
    assert_eq!(
        print_listening(&vec![six()], 5000),
        "Listening on http://[::]:5000/"
    );
    assert_eq!(
        print_listening(&vec![four(), six()], 80),
        "Listening on:\n  http://0.0.0.0:80/\n  http://[::]:80/\n"
    );
    assert_eq!(print_listening(&Vec::new(), 80), "Listening on:\n\n");
}

#[test]
fn requests_remember_their_sender() {
    let mut log = Headers::new();
    log.insert("request", "GET /".to_string());
    let peer = Peer {
        address: "192.0.2.1".to_string(),
        port: 9,
    };
    let mut context = RequestContext::new("HEAD", peer, log, true);
    assert!(context.is_head_request());
    assert_eq!(context.peer().port, 9);
    assert_eq!(context.access_log().get("remote_addr"), Some("192.0.2.1"));
    context.access_log_mut().insert("status", "200".to_string());
    assert_eq!(context.access_log().get("status"), Some("200"));
    assert_eq!(context.access_log().get("request"), Some("GET /"));
}

#[test]
fn field_values_hold_what_a_header_can_hold() {
    assert!(FieldValue::new(b"a\tb".to_vec()).is_some());
    assert!(FieldValue::new(b"a\nb".to_vec()).is_none());
    assert!(FieldValue::new(b"\x7f".to_vec()).is_none());
    assert_eq!(field("text").to_text().as_deref(), Some("text"));
    assert!(FieldValue::new(b"\xff".to_vec()).unwrap().to_text().is_none());
}
