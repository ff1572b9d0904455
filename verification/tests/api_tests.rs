use blindtally::api::{endpoint_url, normalize_base_url, reply_is_success};

#[test]
fn base_url_loses_trailing_slashes() {
    assert_eq!(normalize_base_url("http://127.0.0.1:3000"), "http://127.0.0.1:3000");
    assert_eq!(normalize_base_url("http://127.0.0.1:3000/"), "http://127.0.0.1:3000");
    assert_eq!(normalize_base_url("http://host/api///"), "http://host/api");
    assert_eq!(normalize_base_url("/"), "");
    assert_eq!(normalize_base_url(""), "");
    assert_eq!(normalize_base_url("http://hôst/é/"), "http://hôst/é");
}

#[test]
fn normalizing_twice_changes_nothing() {
    for s in ["a//", "http://x:1/", "", "//", "q"] {
        let once = normalize_base_url(s);
        assert_eq!(normalize_base_url(&once), once);
        assert!(!once.ends_with('/'));
    }
}

#[test]
fn endpoint_url_joins_base_and_path() {
    let base = normalize_base_url("http://127.0.0.1:3000/");
    assert_eq!(endpoint_url(&base, "/keys"), "http://127.0.0.1:3000/keys");
    assert_eq!(endpoint_url(&base, "/results"), "http://127.0.0.1:3000/results");
}

#[test]
fn only_2xx_replies_succeed() {
    for s in [200, 201, 204, 299] {
        assert!(reply_is_success(s), "{s}");
    }
    for s in [0, 100, 199, 300, 301, 400, 404, 409, 500] {
        assert!(!reply_is_success(s), "{s}");
    }
}
