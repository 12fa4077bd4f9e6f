use dufs::path_policy::{
    PathPolicy, BROWSER_COMPONENT_BYTES_LIMIT, BROWSER_RELATIVE_PATH_BYTES_LIMIT,
};
use dufs::paths::LexicalPath;

fn path(text: &str) -> LexicalPath {
    let mut path = LexicalPath::new();
    for name in text.split('/').filter(|name| !name.is_empty()) {
        path.push(name.as_bytes());
    }
    path
}

fn policy() -> PathPolicy {
    let platform = ["/healthz", "/readyz", "/api/v2/auth"]
        .iter()
        .map(|path| path.to_string())
        .collect();
    PathPolicy::new(path("/srv/share"), "__dufs_assets_test/", &platform)
}

#[test]
fn platform_namespaces_are_canonical_and_precisely_reserved() {
    let policy = policy();
    for path in ["/healthz", "/readyz", "/api/v2/auth", "/api/v2/auth/login"] {
        assert!(policy.parse_route(path).is_some(), "{path}");
        assert!(policy.parse_browser_target(path).is_none(), "{path}");
    }
    for path in [
        "/%68ealthz",
        "//healthz",
        "/healthz/",
        "/api//v2/auth",
        "/api/v2/%61uth/login",
        "/api/v2/auth/",
    ] {
        assert!(policy.parse_route(path).is_none(), "{path}");
    }
    for path in [
        "/api",
        "/api/notes.txt",
        "/api/v2/authors",
        "/healthz.txt",
        "/nested/healthz",
        "/%2568ealthz",
    ] {
        assert!(policy.parse_route(path).is_some(), "{path}");
        assert!(policy.parse_browser_target(path).is_some(), "{path}");
    }
    for relative in ["api", "api/v2", "api/v2/auth", "healthz"] {
        assert!(policy.protects_platform_namespace(&path(&format!("/srv/share/{relative}"))));
    }
    assert!(!policy.protects_platform_namespace(&path("/srv/share/api/notes.txt")));
    assert_eq!(
        policy.parse_route("/%252e%252e").unwrap().as_str(),
        "%2e%2e"
    );
}

#[test]
fn route_paths_are_normalized_once() {
    let policy = policy();
    assert_eq!(policy.parse_route("/a%20b/c").unwrap().as_str(), "a b/c");
    assert_eq!(
        policy.parse_route("//ordinary//path/").unwrap().as_str(),
        "ordinary/path"
    );
    assert!(policy.parse_route("/%00").is_none());
    assert!(policy.parse_route("/../escape").is_none());
}

#[test]
fn internal_routes_require_their_canonical_encoding() {
    let policy = policy();
    assert!(policy.parse_route("/__dufs__/health").is_some());
    assert!(policy.parse_route("//__dufs__/health").is_none());
    assert!(policy.parse_route("/__dufs__//health").is_none());
    assert!(policy.parse_route("/__dufs_assets_test/index.js").is_some());
}

#[test]
fn browser_targets_are_non_root_and_exclude_internal_namespaces() {
    let policy = policy();
    assert!(policy
        .parse_browser_target("/folder/file.txt")
        .unwrap()
        .as_path()
        .equals(&path("/srv/share/folder/file.txt")));
    for invalid in [
        "/",
        "relative",
        "/folder//file",
        "/folder/../file",
        "/__dufs__/health",
        "/__dufs_assets_test/index.js",
    ] {
        assert!(policy.parse_browser_target(invalid).is_none(), "{invalid}");
    }
}

#[test]
fn list_targets_share_mutation_rules_but_allow_the_root() {
    let policy = policy();
    assert!(policy
        .parse_list_target("/")
        .unwrap()
        .as_path()
        .equals(&path("/srv/share")));
    assert!(policy
        .parse_list_target("/folder/file.txt")
        .unwrap()
        .as_path()
        .equals(&path("/srv/share/folder/file.txt")));
    for invalid in [
        "relative",
        "/folder//file",
        "/folder/../file",
        "/__dufs__/health",
        "/__dufs_assets_test/index.js",
    ] {
        assert!(policy.parse_list_target(invalid).is_none(), "{invalid}");
    }
}

#[test]
fn rooted_paths_fit_linux_openat_pathname_limits() {
    let policy = policy();
    let longest_component = "a".repeat(BROWSER_COMPONENT_BYTES_LIMIT);
    assert!(policy
        .parse_browser_target(&format!("/{longest_component}"))
        .is_some());
    assert!(policy
        .parse_browser_target(&format!(
            "/{}",
            "a".repeat(BROWSER_COMPONENT_BYTES_LIMIT + 1)
        ))
        .is_none());

    let longest_relative = vec![longest_component.as_str(); 16].join("/");
    assert_eq!(longest_relative.len(), BROWSER_RELATIVE_PATH_BYTES_LIMIT);
    assert!(policy
        .parse_browser_target(&format!("/{longest_relative}"))
        .is_some());

    let overlong_relative = [
        vec![longest_component.as_str(); 15].join("/"),
        "b".repeat(254),
        "c".to_string(),
    ]
    .join("/");
    assert_eq!(
        overlong_relative.len(),
        BROWSER_RELATIVE_PATH_BYTES_LIMIT + 1
    );
    assert!(policy
        .parse_browser_target(&format!("/{overlong_relative}"))
        .is_none());
    assert!(policy
        .parse_route(&format!("/{overlong_relative}"))
        .is_none());
}
