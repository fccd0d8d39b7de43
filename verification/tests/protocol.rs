use dolittle::protocol::{
    accept_key, accept_request, to_websocket_response_str, AcceptResult, RequestData,
    WebsocketAcceptError, WebsocketAcceptance,
};
use dolittle::request::{HttpVersion, Method};

fn acceptable_websocket_request(key: &str) -> RequestData {
    let mut req = RequestData::new();
    req.http_version = Some(HttpVersion(1, 1));
    req.method = Some(Method::GET);

    req.set_header("Host", "example.com");
    req.set_header("Origin", "example.com");
    req.set_header("Upgrade", "websocket, websocket/2.0");
    req.set_header("Connection", "Upgrade, Keep-Alive");
    req.set_header("Sec-WebSocket-Key", key);
    req.set_header("Sec-WebSocket-Version", "13");

    req
}

#[test]
fn websocket_accept_key() {
    let key = "dGhlIHNhbXBsZSBub25jZQ==";
    let accept = "s3pPLMBiTxaQ9kYGzzhZRbK+xOo=";

    assert!(accept_key(key) == accept);
}

#[test]
fn accept_request_base_success() {
    let request = acceptable_websocket_request("dGhlIHNhbXBsZSBub25jZQ==");

    assert!(
        accept_request(&request)
            == Ok(WebsocketAcceptance { key_accept: "s3pPLMBiTxaQ9kYGzzhZRbK+xOo=".to_string() })
    );
}

#[test]
fn accept_request_not_get() {
    let mut request = acceptable_websocket_request("dGhlIHNhbXBsZSBub25jZQ==");
    request.method = Some(Method::POST);
    assert!(accept_request(&request) == Err(WebsocketAcceptError::GET_METHOD_REQUIRED));
}

#[test]
fn accept_request_not_http_1_pt_1() {
    let mut request = acceptable_websocket_request("dGhlIHNhbXBsZSBub25jZQ==");
    request.http_version = Some(HttpVersion(1, 0));
    assert!(accept_request(&request) == Err(WebsocketAcceptError::HTTP_1_PT_1_REQUIRED));
}

#[test]
fn accept_request_missing_host() {
    let mut request = acceptable_websocket_request("dGhlIHNhbXBsZSBub25jZQ==");
    request.remove_header("Host");
    assert!(accept_request(&request) == Err(WebsocketAcceptError::HOST_REQUIRED));
}

#[test]
fn accept_request_missing_websocket_version() {
    let mut request = acceptable_websocket_request("dGhlIHNhbXBsZSBub25jZQ==");
    request.remove_header("Sec-WebSocket-Version");
    assert!(accept_request(&request) == Err(WebsocketAcceptError::WEBSOCKET_VERSION_REQUIRED));
}

#[test]
fn accept_request_incorrect_websocket_version() {
    let mut request = acceptable_websocket_request("dGhlIHNhbXBsZSBub25jZQ==");
    request.set_header("Sec-WebSocket-Version", "12");
    assert!(accept_request(&request) == Err(WebsocketAcceptError::INVALID_WEBSOCKET_VERSION));
}

#[test]
fn accept_request_missing_upgrade() {
    let mut request = acceptable_websocket_request("dGhlIHNhbXBsZSBub25jZQ==");
    request.remove_header("Upgrade");
    assert!(accept_request(&request) == Err(WebsocketAcceptError::UPGRADE_REQUIRED));
}

#[test]
fn accept_request_invalid_upgrade() {
    let mut request = acceptable_websocket_request("dGhlIHNhbXBsZSBub25jZQ==");
    request.set_header("Upgrade", "tls");
    assert!(accept_request(&request) == Err(WebsocketAcceptError::UPGRADE_WEBSOCKET_REQUIRED));
}

#[test]
fn accept_request_missing_connection() {
    let mut request = acceptable_websocket_request("dGhlIHNhbXBsZSBub25jZQ==");
    request.remove_header("Connection");
    assert!(accept_request(&request) == Err(WebsocketAcceptError::CONNECTION_REQUIRED));
}

#[test]
fn accept_request_invalid_connection() {
    let mut request = acceptable_websocket_request("dGhlIHNhbXBsZSBub25jZQ==");
    request.set_header("Connection", "keep-alive");
    assert!(accept_request(&request) == Err(WebsocketAcceptError::CONNECTION_UPGRADE_REQUIRED));
}

#[test]
fn accept_request_missing_key() {
    let mut request = acceptable_websocket_request("dGhlIHNhbXBsZSBub25jZQ==");
    request.remove_header("Sec-WebSocket-Key");
    assert!(accept_request(&request) == Err(WebsocketAcceptError::WEBSOCKET_KEY_REQUIRED));
}

#[test]
fn accept_request_reports_first_failure() {
    let mut request = acceptable_websocket_request("dGhlIHNhbXBsZSBub25jZQ==");
    request.http_version = Some(HttpVersion(1, 0));
    request.method = Some(Method::POST);
    request.remove_header("Host");
    assert!(accept_request(&request) == Err(WebsocketAcceptError::HTTP_1_PT_1_REQUIRED));

    request.http_version = Some(HttpVersion(1, 1));
    assert!(accept_request(&request) == Err(WebsocketAcceptError::GET_METHOD_REQUIRED));

    request.method = Some(Method::GET);
    assert!(accept_request(&request) == Err(WebsocketAcceptError::HOST_REQUIRED));
}

#[test]
fn ok_accept_response_string() {
    let success: AcceptResult = Ok(WebsocketAcceptance { key_accept: "foobarbazbat".to_string() });

    let expected = "HTTP/1.1 101 Switching Protocols\r\nUpgrade: websocket\r\nConnection: Upgrade\r\nSec-WebSocket-Accept: foobarbazbat\r\n\r\n";

    assert!(expected == to_websocket_response_str(&success))
}

#[test]
fn err_accept_response_string() {
    let failure: AcceptResult = Err(WebsocketAcceptError::UPGRADE_REQUIRED);

    let expected = "HTTP/1.1 400 Bad Request\r\n\r\n";
    assert!(expected == to_websocket_response_str(&failure))
}
