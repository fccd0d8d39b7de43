//! The WebSocket handshake: validation of an upgrade request against the
//! required headers, in a fixed order where the first failed check names
//! the rejection, and computation of the `Sec-WebSocket-Accept` key.

use vstd::prelude::*;
use vstd::string::StringSliceAdditionalSpecFns;
use vstd::string::StringExecFns;

use crate::base64::{base64_encode, spec_base64_chars};
use crate::digest::{sha1_digest, sha1_of};
use crate::headers::{HeaderMap, Headers, HeadersUtil};
use crate::request::{HttpVersion, Method, Request};
use crate::strutil::spec_contains_keyword;

verus! {

/// A successful handshake: the computed acceptance key.
#[derive(Clone, PartialEq, Eq, Debug)]
pub struct WebsocketAcceptance {
    pub key_accept: String,
}

/// The rejection reasons, one per handshake check.
#[allow(non_camel_case_types)]
#[derive(Clone, Copy, PartialEq, Eq, Structural, Debug)]
pub enum WebsocketAcceptError {
    GET_METHOD_REQUIRED,
    HTTP_1_PT_1_REQUIRED,
    HOST_REQUIRED,
    WEBSOCKET_VERSION_REQUIRED,
    INVALID_WEBSOCKET_VERSION,
    WEBSOCKET_KEY_REQUIRED,
    UPGRADE_REQUIRED,
    UPGRADE_WEBSOCKET_REQUIRED,
    CONNECTION_REQUIRED,
    CONNECTION_UPGRADE_REQUIRED,
}

pub type AcceptResult = Result<WebsocketAcceptance, WebsocketAcceptError>;

/// The fixed GUID the acceptance key concatenates after the client key.
pub open spec fn spec_guid() -> Seq<u8> {
    "258EAFA5-E914-47DA-95CA-C5AB0DC85B11".spec_bytes()
}

/// The acceptance key: base64 of the SHA-1 digest of the client key bytes
/// followed by the GUID.
pub open spec fn spec_accept_key(key_bytes: Seq<u8>) -> Seq<char> {
    spec_base64_chars(sha1_of(key_bytes + spec_guid()))
}

/// Compute the acceptance key from the client key bytes.
pub fn accept_key_bytes(key: &[u8]) -> (r: String)
    ensures
        r@ == spec_accept_key(key@),
{
    let mut input: Vec<u8> = Vec::new();
    input.extend_from_slice(key);
    input.extend_from_slice("258EAFA5-E914-47DA-95CA-C5AB0DC85B11".as_bytes());
    proof {
        assert(input@ =~= key@ + spec_guid());
    }
    let digest = sha1_digest(input.as_slice());
    base64_encode(digest.as_slice())
}

/// Compute the acceptance key from the client key as a string; the key
/// bytes are used verbatim, without base64-decoding them.
pub fn accept_key(key: &str) -> (r: String)
    ensures
        r@ == spec_accept_key(key.spec_bytes()),
{
    accept_key_bytes(key.as_bytes())
}

/// The first handshake check a request fails, or nothing when it passes
/// all of them. The order of the checks is part of the contract: version,
/// method, `Host`, `Connection` present, `Connection: Upgrade`, `Upgrade`
/// present, `Upgrade: websocket`, `Sec-WebSocket-Version` present and
/// equal to `13`, `Sec-WebSocket-Key` present.
pub open spec fn spec_accept_error<T: Headers + Request>(request: &T) -> Option<
    WebsocketAcceptError,
> {
    if request.spec_http_version() != Some(HttpVersion(1, 1)) {
        Some(WebsocketAcceptError::HTTP_1_PT_1_REQUIRED)
    } else if request.spec_method() != Some(Method::GET) {
        Some(WebsocketAcceptError::GET_METHOD_REQUIRED)
    } else if request.spec_get("Host".spec_bytes()) is None {
        Some(WebsocketAcceptError::HOST_REQUIRED)
    } else if request.spec_get("Connection".spec_bytes()) is None {
        Some(WebsocketAcceptError::CONNECTION_REQUIRED)
    } else if !(request.spec_get("Connection".spec_bytes()) matches Some(v)
        && spec_contains_keyword(v, "Upgrade".spec_bytes())) {
        Some(WebsocketAcceptError::CONNECTION_UPGRADE_REQUIRED)
    } else if request.spec_get("Upgrade".spec_bytes()) is None {
        Some(WebsocketAcceptError::UPGRADE_REQUIRED)
    } else if !(request.spec_get("Upgrade".spec_bytes()) matches Some(v)
        && spec_contains_keyword(v, "websocket".spec_bytes())) {
        Some(WebsocketAcceptError::UPGRADE_WEBSOCKET_REQUIRED)
    } else if request.spec_get("Sec-WebSocket-Version".spec_bytes()) is None {
        Some(WebsocketAcceptError::WEBSOCKET_VERSION_REQUIRED)
    } else if request.spec_get("Sec-WebSocket-Version".spec_bytes()) != Some(
        "13".spec_bytes(),
    ) {
        Some(WebsocketAcceptError::INVALID_WEBSOCKET_VERSION)
    } else if request.spec_get("Sec-WebSocket-Key".spec_bytes()) is None {
        Some(WebsocketAcceptError::WEBSOCKET_KEY_REQUIRED)
    } else {
        None
    }
}

/// Validate an upgrade request. The checks run in the fixed order of
/// [`spec_accept_error`]; on success the acceptance carries the key
/// computed from the request's `Sec-WebSocket-Key` value.
pub fn accept_request<T: Headers + HeadersUtil + Request>(request: &T) -> (r: AcceptResult)
    requires
        request.hwf(),
    ensures
        r matches Err(e) ==> spec_accept_error(request) == Some(e),
        r is Ok ==> spec_accept_error(request) is None,
        r matches Ok(a) ==> (request.spec_get("Sec-WebSocket-Key".spec_bytes()) matches Some(k)
            && a.key_accept@ == spec_accept_key(k)),
{
    let version_ok = match request.http_version() {
        Some(v) => v == HttpVersion(1, 1),
        None => false,
    };
    if !version_ok {
        return Err(WebsocketAcceptError::HTTP_1_PT_1_REQUIRED);
    }
    let method_ok = match request.method() {
        Some(m) => m == Method::GET,
        None => false,
    };
    if !method_ok {
        return Err(WebsocketAcceptError::GET_METHOD_REQUIRED);
    }
    if !request.has_header("Host") {
        return Err(WebsocketAcceptError::HOST_REQUIRED);
    }
    if !request.has_header("Connection") {
        return Err(WebsocketAcceptError::CONNECTION_REQUIRED);
    }
    if !request.has_header_keyword("Connection", "Upgrade") {
        return Err(WebsocketAcceptError::CONNECTION_UPGRADE_REQUIRED);
    }
    if !request.has_header("Upgrade") {
        return Err(WebsocketAcceptError::UPGRADE_REQUIRED);
    }
    if !request.has_header_keyword("Upgrade", "websocket") {
        return Err(WebsocketAcceptError::UPGRADE_WEBSOCKET_REQUIRED);
    }
    if !request.has_header("Sec-WebSocket-Version") {
        return Err(WebsocketAcceptError::WEBSOCKET_VERSION_REQUIRED);
    }
    if !request.has_header_value("Sec-WebSocket-Version", "13") {
        return Err(WebsocketAcceptError::INVALID_WEBSOCKET_VERSION);
    }
    match request.get_header_bytes("Sec-WebSocket-Key") {
        Some(key) => Ok(WebsocketAcceptance { key_accept: accept_key_bytes(key.as_slice()) }),
        None => Err(WebsocketAcceptError::WEBSOCKET_KEY_REQUIRED),
    }
}

/// Whether the request passes every handshake check up to but not
/// including check number `upto`, counting the checks in the order the
/// validator applies them.
pub open spec fn spec_passes_checks_before<T: Headers + Request>(request: &T, upto: int) -> bool {
    &&& (upto > 0 ==> request.spec_http_version() == Some(HttpVersion(1, 1)))
    &&& (upto > 1 ==> request.spec_method() == Some(Method::GET))
    &&& (upto > 2 ==> request.spec_get("Host".spec_bytes()) is Some)
    &&& (upto > 3 ==> request.spec_get("Connection".spec_bytes()) is Some)
    &&& (upto > 4 ==> (request.spec_get("Connection".spec_bytes()) matches Some(v)
        && spec_contains_keyword(v, "Upgrade".spec_bytes())))
    &&& (upto > 5 ==> request.spec_get("Upgrade".spec_bytes()) is Some)
    &&& (upto > 6 ==> (request.spec_get("Upgrade".spec_bytes()) matches Some(v)
        && spec_contains_keyword(v, "websocket".spec_bytes())))
    &&& (upto > 7 ==> request.spec_get("Sec-WebSocket-Version".spec_bytes()) is Some)
    &&& (upto > 8 ==> request.spec_get("Sec-WebSocket-Version".spec_bytes()) == Some(
        "13".spec_bytes(),
    ))
    &&& (upto > 9 ==> request.spec_get("Sec-WebSocket-Key".spec_bytes()) is Some)
}

/// The rejection order law: each variant is returned exactly when its own
/// check fails and every earlier check passes, so a request failing
/// several checks is reported with the earliest of them.
pub proof fn lemma_rejection_order<T: Headers + Request>(request: &T)
    ensures
        (spec_accept_error(request) == Some(WebsocketAcceptError::HTTP_1_PT_1_REQUIRED)
            <==> request.spec_http_version() != Some(HttpVersion(1, 1))),
        (spec_accept_error(request) == Some(WebsocketAcceptError::GET_METHOD_REQUIRED)
            <==> spec_passes_checks_before(request, 1) && request.spec_method() != Some(
            Method::GET,
        )),
        (spec_accept_error(request) == Some(WebsocketAcceptError::HOST_REQUIRED)
            <==> spec_passes_checks_before(request, 2) && request.spec_get(
            "Host".spec_bytes(),
        ) is None),
        (spec_accept_error(request) == Some(WebsocketAcceptError::CONNECTION_REQUIRED)
            <==> spec_passes_checks_before(request, 3) && request.spec_get(
            "Connection".spec_bytes(),
        ) is None),
        (spec_accept_error(request) == Some(WebsocketAcceptError::CONNECTION_UPGRADE_REQUIRED)
            <==> spec_passes_checks_before(request, 4) && !(request.spec_get(
            "Connection".spec_bytes(),
        ) matches Some(v) && spec_contains_keyword(v, "Upgrade".spec_bytes()))),
        (spec_accept_error(request) == Some(WebsocketAcceptError::UPGRADE_REQUIRED)
            <==> spec_passes_checks_before(request, 5) && request.spec_get(
            "Upgrade".spec_bytes(),
        ) is None),
        (spec_accept_error(request) == Some(WebsocketAcceptError::UPGRADE_WEBSOCKET_REQUIRED)
            <==> spec_passes_checks_before(request, 6) && !(request.spec_get(
            "Upgrade".spec_bytes(),
        ) matches Some(v) && spec_contains_keyword(v, "websocket".spec_bytes()))),
        (spec_accept_error(request) == Some(WebsocketAcceptError::WEBSOCKET_VERSION_REQUIRED)
            <==> spec_passes_checks_before(request, 7) && request.spec_get(
            "Sec-WebSocket-Version".spec_bytes(),
        ) is None),
        (spec_accept_error(request) == Some(WebsocketAcceptError::INVALID_WEBSOCKET_VERSION)
            <==> spec_passes_checks_before(request, 8) && request.spec_get(
            "Sec-WebSocket-Version".spec_bytes(),
        ) != Some("13".spec_bytes())),
        (spec_accept_error(request) == Some(WebsocketAcceptError::WEBSOCKET_KEY_REQUIRED)
            <==> spec_passes_checks_before(request, 9) && request.spec_get(
            "Sec-WebSocket-Key".spec_bytes(),
        ) is None),
        (spec_accept_error(request) is None <==> spec_passes_checks_before(request, 10)),
{
}

/// The literal response written for each handshake outcome: the fixed
/// `101 Switching Protocols` block carrying the acceptance key, or the
/// fixed `400 Bad Request` line.
pub open spec fn spec_response_chars(r: AcceptResult) -> Seq<char> {
    match r {
        Ok(a) =>
            "HTTP/1.1 101 Switching Protocols\r\nUpgrade: websocket\r\nConnection: Upgrade\r\nSec-WebSocket-Accept: "@
            + a.key_accept@ + "\r\n\r\n"@,
        Err(_) => "HTTP/1.1 400 Bad Request\r\n\r\n"@,
    }
}

/// Serialise a handshake outcome to the bytes written on the wire.
pub fn to_websocket_response_str(result: &AcceptResult) -> (r: String)
    ensures
        r@ == spec_response_chars(*result),
{
    match result {
        Ok(acceptance) => {
            let mut s = String::from_str(
                "HTTP/1.1 101 Switching Protocols\r\nUpgrade: websocket\r\nConnection: Upgrade\r\nSec-WebSocket-Accept: ",
            );
            s.append(acceptance.key_accept.as_str());
            s.append("\r\n\r\n");
            s
        },
        Err(_) => String::from_str("HTTP/1.1 400 Bad Request\r\n\r\n"),
    }
}

/// A plain request value: the request line facts and the headers, as the
/// validator consumes them.
pub struct RequestData {
    pub http_version: Option<HttpVersion>,
    pub method: Option<Method>,
    pub headers: HeaderMap,
}

impl Headers for RequestData {
    open spec fn hwf(&self) -> bool {
        self.headers.wf()
    }

    open spec fn spec_get(&self, name: Seq<u8>) -> Option<Seq<u8>> {
        self.headers.spec_get(name)
    }

    fn get_header(&self, name: &str) -> (r: Option<String>) {
        self.headers.get_header(name)
    }

    fn has_header(&self, name: &str) -> (r: bool) {
        self.headers.has_header(name)
    }

    fn get_header_bytes(&self, name: &str) -> (r: Option<Vec<u8>>) {
        self.headers.get_header_bytes(name)
    }
}

impl HeadersUtil for RequestData {
    fn has_header_value(&self, name: &str, value: &str) -> (r: bool) {
        self.headers.has_header_value(name, value)
    }

    fn has_header_keyword(&self, name: &str, keyword: &str) -> (r: bool) {
        self.headers.has_header_keyword(name, keyword)
    }
}

impl Request for RequestData {
    open spec fn spec_http_version(&self) -> Option<HttpVersion> {
        self.http_version
    }

    open spec fn spec_method(&self) -> Option<Method> {
        self.method
    }

    fn http_version(&self) -> (r: Option<HttpVersion>) {
        self.http_version
    }

    fn method(&self) -> (r: Option<Method>) {
        self.method
    }
}

impl RequestData {
    /// An empty request: nothing parsed yet, no headers.
    pub fn new() -> (r: RequestData)
        ensures
            r.hwf(),
            r.http_version is None,
            r.method is None,
            r.headers@ == Map::<Seq<u8>, Seq<u8>>::empty(),
    {
        RequestData { http_version: None, method: None, headers: HeaderMap::new() }
    }

    /// Set a header, as [`HeadersMutable`] does on the map itself.
    pub fn set_header(&mut self, name: &str, value: &str)
        requires
            old(self).hwf(),
        ensures
            final(self).hwf(),
            final(self).http_version == old(self).http_version,
            final(self).method == old(self).method,
            final(self).headers@ == old(self).headers@.insert(
                crate::strutil::spec_lower(name.spec_bytes()),
                value.spec_bytes(),
            ),
    {
        self.headers.set_bytes(name.as_bytes(), value.as_bytes());
    }

    /// Remove a header, as [`HeadersMutable`] does on the map itself.
    pub fn remove_header(&mut self, name: &str)
        requires
            old(self).hwf(),
        ensures
            final(self).hwf(),
            final(self).http_version == old(self).http_version,
            final(self).method == old(self).method,
            final(self).headers@ == old(self).headers@.remove(
                crate::strutil::spec_lower(name.spec_bytes()),
            ),
    {
        self.headers.remove_bytes(name.as_bytes());
    }
}

} // verus!
