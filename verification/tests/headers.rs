use dolittle::headers::{HeaderMap, Headers, HeadersMutable, HeadersUtil};

#[test]
fn get_header_test() {
    let mut headers = HeaderMap::new();

    headers.set_header("foO", "paNts");

    assert!(headers.get_header("foo") == Some("paNts".to_string()));
    assert!(headers.get_header("Foo") == Some("paNts".to_string()));
}

#[test]
fn has_header_test() {
    let mut headers = HeaderMap::new();

    headers.set_header("foO", "paNts");

    assert!(headers.has_header("foo"));
    assert!(headers.has_header("Foo"));
}

#[test]
fn has_header_value_test() {
    let mut headers = HeaderMap::new();

    headers.set_header("foO", "paNts");

    assert!(headers.has_header_value("foo", "paNts"));
    assert!(!headers.has_header_value("foo", "pants"));
}

#[test]
fn has_header_keyword_test() {
    let mut headers = HeaderMap::new();

    headers.set_header("foO", "shoes, paNts, frocks");

    assert!(headers.has_header_keyword("foo", "paNts"));
    assert!(headers.has_header_keyword("foo", "pants"));
}

#[test]
fn remove_header_test() {
    let mut headers = HeaderMap::new();

    headers.set_header("foO", "paNts");
    headers.remove_header("fOo");

    assert!(!headers.has_header("foo"));
}

#[test]
fn overwrite_header_test() {
    let mut headers = HeaderMap::new();

    headers.set_header("Accept", "text/plain");
    headers.set_header("ACCEPT", "text/html");

    assert!(headers.get_header("accept") == Some("text/html".to_string()));
}

#[test]
fn keyword_trims_and_folds_case() {
    let mut headers = HeaderMap::new();

    headers.set_header("Connection", "keep-alive ,  UPGRADE");

    assert!(headers.has_header_keyword("Connection", "upgrade"));
    assert!(headers.has_header_keyword("Connection", "Keep-Alive"));
    assert!(!headers.has_header_keyword("Connection", "close"));
}
