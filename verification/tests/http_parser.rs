use dolittle::headers::Headers;
use dolittle::parser::initial_parser;
use dolittle::request::{method_from_token, HttpVersion, Method, Request};

#[allow(non_snake_case)]
#[test]
fn parse_simple_GET() {
    let request = "GET /foo HTTP/1.1\n\n";
    let p = initial_parser();

    let r = p.parse(request.as_bytes());

    assert!(r.success());
    assert!(r.url() == Some("/foo".to_string()));
    assert!(r.method() == Some(Method::GET));
}

#[allow(non_snake_case)]
#[test]
fn parse_simple_GET_in_multiple_chunks() {
    let chunk_1 = "GET /fo";
    let chunk_2 = "o HTTP/1.1\n\n";
    let p = initial_parser();
    let r = p.parse(chunk_1.as_bytes()).parse(chunk_2.as_bytes());

    assert!(r.url() == Some("/foo".to_string()));
}

#[test]
fn parse_headers() {
    let request = "GET /foo HTTP/1.1\nHeader-1: pants\nHeader-2: bar\n\n";

    let p = initial_parser();
    let r = p.parse(request.as_bytes());

    assert!(r.get_header("Header-1") == Some("pants".to_string()));
    assert!(r.get_header("Header-2") == Some("bar".to_string()));
    assert!(r.get_header("Non-Header") == None);
}

#[test]
fn parse_headers_in_multiple_chunks() {
    let chunk_1 = "GET /foo HTTP/1.1\nHe";
    let chunk_2 = "ader-1: pan";
    let chunk_3 = "ts\nHead";
    let chunk_4 = "er-2:";
    let chunk_5 = " bar\n\n";

    let p = initial_parser();
    let r = p
        .parse(chunk_1.as_bytes())
        .parse(chunk_2.as_bytes())
        .parse(chunk_3.as_bytes())
        .parse(chunk_4.as_bytes())
        .parse(chunk_5.as_bytes());

    assert!(r.get_header("Header-1") == Some("pants".to_string()));
    assert!(r.get_header("Header-2") == Some("bar".to_string()));
    assert!(r.get_header("Non-Header") == None);
}

#[test]
fn parse_error() {
    let request = "YURT /foo HTTP/1.1\n\n";
    let p = initial_parser();
    let r = p.parse(request.as_bytes()).finish();

    assert!(!r.success());
    assert!(!r.upgrade());
    assert!("HPE_INVALID_METHOD" == r.error_name());
    assert!("invalid HTTP method" == r.error_description());
}

#[test]
fn parse_upgrade() {
    let request = "GET /demo HTTP/1.1\nUpgrade: WebSocket\nConnection: Upgrade\nHost: example.com\nOrigin: http://example.com\nWebSocket-Protocol: sample\n\nstart of non-http content";

    let p = initial_parser();
    let r = p.parse(request.as_bytes());
    let offset = r.offset;
    let content = &request[offset..];

    assert!(r.success());
    assert!(r.upgrade());
    assert!(content == "start of non-http content");
}

#[test]
fn parse_crlf_line_endings() {
    let request = "GET /foo HTTP/1.1\r\nHeader-1: pants\r\n\r\n";
    let p = initial_parser();
    let r = p.parse(request.as_bytes());

    assert!(r.success());
    assert!(r.http_version() == Some(HttpVersion(1, 1)));
    assert!(r.get_header("Header-1") == Some("pants".to_string()));
}

#[test]
fn parse_bad_version() {
    let request = "GET /foo HTPP/1.1\n\n";
    let p = initial_parser();
    let r = p.parse(request.as_bytes());

    assert!(!r.success());
    assert!("HPE_INVALID_VERSION" == r.error_name());
    assert!("invalid HTTP version" == r.error_description());
}

#[test]
fn parse_cr_without_lf() {
    let request = "GET /foo HTTP/1.1\r\rX";
    let p = initial_parser();
    let r = p.parse(request.as_bytes());

    assert!(!r.success());
    assert!("HPE_LF_EXPECTED" == r.error_name());
    assert!("LF character expected" == r.error_description());
}

#[test]
fn parse_bad_header_token() {
    let request = "GET /foo HTTP/1.1\nGood-Header: ok\n Folded: no\n\n";
    let p = initial_parser();
    let r = p.parse(request.as_bytes());

    assert!(!r.success());
    assert!("HPE_INVALID_HEADER_TOKEN" == r.error_name());
    assert!("invalid character in header" == r.error_description());
}

#[test]
fn parse_eof_mid_request() {
    let request = "GET /foo HTTP/1.1\nHeader-1: pan";
    let p = initial_parser();
    let r = p.parse(request.as_bytes()).finish();

    assert!(!r.success());
    assert!("HPE_INVALID_EOF_STATE" == r.error_name());
    assert!("stream ended at an unexpected time" == r.error_description());
}

#[test]
fn parse_error_latches() {
    let p = initial_parser();
    let r = p.parse("YURT ".as_bytes());
    assert!(!r.success());

    let r2 = r.parse("GET /foo HTTP/1.1\n\n".as_bytes());
    assert!(!r2.success());
    assert!(r2.offset == 0);
    assert!("HPE_INVALID_METHOD" == r2.error_name());
}

#[test]
fn parse_chunk_boundary_invariance() {
    let request = "GET /demo HTTP/1.1\nUpgrade: WebSocket\nConnection: Upgrade\nHost: example.com\n\nXYZ";
    let whole = initial_parser().parse(request.as_bytes());

    for split in 0..request.len() {
        let split_parse = initial_parser()
            .parse(&request.as_bytes()[..split])
            .parse(&request.as_bytes()[split..]);
        assert!(split_parse.success() == whole.success());
        assert!(split_parse.upgrade() == whole.upgrade());
        assert!(split_parse.method() == whole.method());
        assert!(split_parse.http_version() == whole.http_version());
        assert!(split_parse.url() == whole.url());
        assert!(split_parse.get_header("Host") == whole.get_header("Host"));
    }
}

#[test]
fn method_token_mapping() {
    assert!(method_from_token(b"DELETE") == Some(Method::DELETE));
    assert!(method_from_token(b"GET") == Some(Method::GET));
    assert!(method_from_token(b"HEAD") == Some(Method::HEAD));
    assert!(method_from_token(b"POST") == Some(Method::POST));
    assert!(method_from_token(b"PUT") == Some(Method::PUT));
    assert!(method_from_token(b"CONNECT") == Some(Method::CONNECT));
    assert!(method_from_token(b"OPTIONS") == Some(Method::OPTIONS));
    assert!(method_from_token(b"TRACE") == Some(Method::TRACE));
    assert!(method_from_token(b"COPY") == Some(Method::COPY));
    assert!(method_from_token(b"LOCK") == Some(Method::LOCK));
    assert!(method_from_token(b"MKCOL") == Some(Method::MKCOL));
    assert!(method_from_token(b"MOVE") == Some(Method::MOVE));
    assert!(method_from_token(b"PROPFIND") == Some(Method::PROPFIND));
    assert!(method_from_token(b"PROPPATCH") == Some(Method::PROPPATCH));
    assert!(method_from_token(b"SEARCH") == Some(Method::SEARCH));
    assert!(method_from_token(b"UNLOCK") == Some(Method::UNLOCK));
    assert!(method_from_token(b"REPORT") == Some(Method::REPORT));
    assert!(method_from_token(b"MKACTIVITY") == Some(Method::MKACTIVITY));
    assert!(method_from_token(b"CHECKOUT") == Some(Method::CHECKOUT));
    assert!(method_from_token(b"MERGE") == Some(Method::MERGE));
    assert!(method_from_token(b"M-SEARCH") == Some(Method::MSEARCH));
    assert!(method_from_token(b"NOTIFY") == Some(Method::NOTIFY));
    assert!(method_from_token(b"SUBSCRIBE") == Some(Method::SUBSCRIBE));
    assert!(method_from_token(b"UNSUBSCRIBE") == Some(Method::UNSUBSCRIBE));
    assert!(method_from_token(b"PATCH") == Some(Method::PATCH));
    assert!(method_from_token(b"PURGE") == Some(Method::PURGE));
    assert!(method_from_token(b"YURT") == None);
}

#[test]
fn parse_upgrade_stops_consuming() {
    let head = "GET /demo HTTP/1.1\nUpgrade: websocket\nConnection: Upgrade\nHost: h\n\n";
    let mut bytes = head.as_bytes().to_vec();
    bytes.extend_from_slice(&[0x81, 0x01, 0x41]);

    let r = initial_parser().parse(&bytes);

    assert!(r.upgrade());
    assert!(r.offset == head.len());
    assert!(&bytes[r.offset..] == &[0x81, 0x01, 0x41]);
}
