use agentic_api::config::normalize_base_url;

#[test]
fn strip_trailing_v1() {
    assert_eq!(normalize_base_url("http://host:8000/v1"), "http://host:8000");
    assert_eq!(normalize_base_url("http://host:8000/v1/"), "http://host:8000");
}

#[test]
fn no_v1_unchanged() {
    assert_eq!(normalize_base_url("http://host:8000"), "http://host:8000");
    assert_eq!(normalize_base_url("http://host:8000/"), "http://host:8000");
}

#[test]
fn slashes_around_the_version_are_stripped() {
    assert_eq!(normalize_base_url("http://host///v1///"), "http://host");
    assert_eq!(normalize_base_url("http://host////"), "http://host");
}

#[test]
fn one_version_is_stripped_at_a_time() {
    assert_eq!(normalize_base_url("http://host/v1/v1"), "http://host/v1");
    assert_eq!(normalize_base_url("http://host/v1"), "http://host");
}

#[test]
fn other_endings_are_kept() {
    assert_eq!(normalize_base_url("http://host/v10"), "http://host/v10");
    assert_eq!(normalize_base_url("http://hostv1"), "http://hostv1");
    assert_eq!(normalize_base_url("http://h\u{f6}st/p\u{e4}th/"), "http://h\u{f6}st/p\u{e4}th");
}

#[test]
fn nothing_may_be_left() {
    assert_eq!(normalize_base_url(""), "");
    assert_eq!(normalize_base_url("///"), "");
    assert_eq!(normalize_base_url("/v1"), "");
    assert_eq!(normalize_base_url("v1"), "v1");
}
