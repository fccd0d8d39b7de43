//! The request-level data model: the closed set of HTTP methods, the
//! protocol version, and the read-only view of a parsed request.

use vstd::prelude::*;

use crate::strutil::bytes_eq;

verus! {

/// The closed set of request methods the parser recognises.
#[derive(Clone, Copy, PartialEq, Eq, Structural, Debug)]
pub enum Method {
    DELETE,
    GET,
    HEAD,
    POST,
    PUT,
    CONNECT,
    OPTIONS,
    TRACE,
    COPY,
    LOCK,
    MKCOL,
    MOVE,
    PROPFIND,
    PROPPATCH,
    SEARCH,
    UNLOCK,
    REPORT,
    MKACTIVITY,
    CHECKOUT,
    MERGE,
    MSEARCH,
    NOTIFY,
    SUBSCRIBE,
    UNSUBSCRIBE,
    PATCH,
    PURGE,
}

/// An HTTP version as major and minor number.
#[derive(Clone, Copy, PartialEq, Eq, Structural, Debug)]
pub struct HttpVersion(pub u16, pub u16);

/// Read access to the request line of a parsed request.
pub trait Request {
    spec fn spec_http_version(&self) -> Option<HttpVersion>;

    spec fn spec_method(&self) -> Option<Method>;

    fn http_version(&self) -> (r: Option<HttpVersion>)
        ensures
            r == self.spec_http_version(),
    ;

    fn method(&self) -> (r: Option<Method>)
        ensures
            r == self.spec_method(),
    ;
}

/// The method a request-line token names, or nothing for an unknown token.
pub open spec fn spec_method_from_token(t: Seq<u8>) -> Option<Method> {
    if t == seq!['D' as u8, 'E' as u8, 'L' as u8, 'E' as u8, 'T' as u8, 'E' as u8] {
        Some(Method::DELETE)
    } else if t == seq!['G' as u8, 'E' as u8, 'T' as u8] {
        Some(Method::GET)
    } else if t == seq!['H' as u8, 'E' as u8, 'A' as u8, 'D' as u8] {
        Some(Method::HEAD)
    } else if t == seq!['P' as u8, 'O' as u8, 'S' as u8, 'T' as u8] {
        Some(Method::POST)
    } else if t == seq!['P' as u8, 'U' as u8, 'T' as u8] {
        Some(Method::PUT)
    } else if t == seq!['C' as u8, 'O' as u8, 'N' as u8, 'N' as u8, 'E' as u8, 'C' as u8, 'T' as u8] {
        Some(Method::CONNECT)
    } else if t == seq!['O' as u8, 'P' as u8, 'T' as u8, 'I' as u8, 'O' as u8, 'N' as u8, 'S' as u8] {
        Some(Method::OPTIONS)
    } else if t == seq!['T' as u8, 'R' as u8, 'A' as u8, 'C' as u8, 'E' as u8] {
        Some(Method::TRACE)
    } else if t == seq!['C' as u8, 'O' as u8, 'P' as u8, 'Y' as u8] {
        Some(Method::COPY)
    } else if t == seq!['L' as u8, 'O' as u8, 'C' as u8, 'K' as u8] {
        Some(Method::LOCK)
    } else if t == seq!['M' as u8, 'K' as u8, 'C' as u8, 'O' as u8, 'L' as u8] {
        Some(Method::MKCOL)
    } else if t == seq!['M' as u8, 'O' as u8, 'V' as u8, 'E' as u8] {
        Some(Method::MOVE)
    } else if t == seq!['P' as u8, 'R' as u8, 'O' as u8, 'P' as u8, 'F' as u8, 'I' as u8, 'N' as u8, 'D' as u8] {
        Some(Method::PROPFIND)
    } else if t == seq!['P' as u8, 'R' as u8, 'O' as u8, 'P' as u8, 'P' as u8, 'A' as u8, 'T' as u8, 'C' as u8, 'H' as u8] {
        Some(Method::PROPPATCH)
    } else if t == seq!['S' as u8, 'E' as u8, 'A' as u8, 'R' as u8, 'C' as u8, 'H' as u8] {
        Some(Method::SEARCH)
    } else if t == seq!['U' as u8, 'N' as u8, 'L' as u8, 'O' as u8, 'C' as u8, 'K' as u8] {
        Some(Method::UNLOCK)
    } else if t == seq!['R' as u8, 'E' as u8, 'P' as u8, 'O' as u8, 'R' as u8, 'T' as u8] {
        Some(Method::REPORT)
    } else if t == seq!['M' as u8, 'K' as u8, 'A' as u8, 'C' as u8, 'T' as u8, 'I' as u8, 'V' as u8, 'I' as u8, 'T' as u8, 'Y' as u8] {
        Some(Method::MKACTIVITY)
    } else if t == seq!['C' as u8, 'H' as u8, 'E' as u8, 'C' as u8, 'K' as u8, 'O' as u8, 'U' as u8, 'T' as u8] {
        Some(Method::CHECKOUT)
    } else if t == seq!['M' as u8, 'E' as u8, 'R' as u8, 'G' as u8, 'E' as u8] {
        Some(Method::MERGE)
    } else if t == seq!['M' as u8, '-' as u8, 'S' as u8, 'E' as u8, 'A' as u8, 'R' as u8, 'C' as u8, 'H' as u8] {
        Some(Method::MSEARCH)
    } else if t == seq!['N' as u8, 'O' as u8, 'T' as u8, 'I' as u8, 'F' as u8, 'Y' as u8] {
        Some(Method::NOTIFY)
    } else if t == seq!['S' as u8, 'U' as u8, 'B' as u8, 'S' as u8, 'C' as u8, 'R' as u8, 'I' as u8, 'B' as u8, 'E' as u8] {
        Some(Method::SUBSCRIBE)
    } else if t == seq!['U' as u8, 'N' as u8, 'S' as u8, 'U' as u8, 'B' as u8, 'S' as u8, 'C' as u8, 'R' as u8, 'I' as u8, 'B' as u8, 'E' as u8] {
        Some(Method::UNSUBSCRIBE)
    } else if t == seq!['P' as u8, 'A' as u8, 'T' as u8, 'C' as u8, 'H' as u8] {
        Some(Method::PATCH)
    } else if t == seq!['P' as u8, 'U' as u8, 'R' as u8, 'G' as u8, 'E' as u8] {
        Some(Method::PURGE)
    } else {
        None
    }
}

/// Decode a request-line token into a method.
pub fn method_from_token(token: &[u8]) -> (r: Option<Method>)
    ensures
        r == spec_method_from_token(token@),
{
    let d: [u8; 6] = ['D' as u8, 'E' as u8, 'L' as u8, 'E' as u8, 'T' as u8, 'E' as u8];
    if bytes_eq(token, d.as_slice()) {
        return Some(Method::DELETE);
    }
    let g: [u8; 3] = ['G' as u8, 'E' as u8, 'T' as u8];
    if bytes_eq(token, g.as_slice()) {
        return Some(Method::GET);
    }
    let h: [u8; 4] = ['H' as u8, 'E' as u8, 'A' as u8, 'D' as u8];
    if bytes_eq(token, h.as_slice()) {
        return Some(Method::HEAD);
    }
    let po: [u8; 4] = ['P' as u8, 'O' as u8, 'S' as u8, 'T' as u8];
    if bytes_eq(token, po.as_slice()) {
        return Some(Method::POST);
    }
    let pu: [u8; 3] = ['P' as u8, 'U' as u8, 'T' as u8];
    if bytes_eq(token, pu.as_slice()) {
        return Some(Method::PUT);
    }
    let co: [u8; 7] = ['C' as u8, 'O' as u8, 'N' as u8, 'N' as u8, 'E' as u8, 'C' as u8, 'T' as u8];
    if bytes_eq(token, co.as_slice()) {
        return Some(Method::CONNECT);
    }
    let op: [u8; 7] = ['O' as u8, 'P' as u8, 'T' as u8, 'I' as u8, 'O' as u8, 'N' as u8, 'S' as u8];
    if bytes_eq(token, op.as_slice()) {
        return Some(Method::OPTIONS);
    }
    let tr: [u8; 5] = ['T' as u8, 'R' as u8, 'A' as u8, 'C' as u8, 'E' as u8];
    if bytes_eq(token, tr.as_slice()) {
        return Some(Method::TRACE);
    }
    let cp: [u8; 4] = ['C' as u8, 'O' as u8, 'P' as u8, 'Y' as u8];
    if bytes_eq(token, cp.as_slice()) {
        return Some(Method::COPY);
    }
    let lo: [u8; 4] = ['L' as u8, 'O' as u8, 'C' as u8, 'K' as u8];
    if bytes_eq(token, lo.as_slice()) {
        return Some(Method::LOCK);
    }
    let mk: [u8; 5] = ['M' as u8, 'K' as u8, 'C' as u8, 'O' as u8, 'L' as u8];
    if bytes_eq(token, mk.as_slice()) {
        return Some(Method::MKCOL);
    }
    let mv: [u8; 4] = ['M' as u8, 'O' as u8, 'V' as u8, 'E' as u8];
    if bytes_eq(token, mv.as_slice()) {
        return Some(Method::MOVE);
    }
    let pf: [u8; 8] = [
        'P' as u8,
        'R' as u8,
        'O' as u8,
        'P' as u8,
        'F' as u8,
        'I' as u8,
        'N' as u8,
        'D' as u8,
    ];
    if bytes_eq(token, pf.as_slice()) {
        return Some(Method::PROPFIND);
    }
    let pp: [u8; 9] = [
        'P' as u8,
        'R' as u8,
        'O' as u8,
        'P' as u8,
        'P' as u8,
        'A' as u8,
        'T' as u8,
        'C' as u8,
        'H' as u8,
    ];
    if bytes_eq(token, pp.as_slice()) {
        return Some(Method::PROPPATCH);
    }
    let se: [u8; 6] = ['S' as u8, 'E' as u8, 'A' as u8, 'R' as u8, 'C' as u8, 'H' as u8];
    if bytes_eq(token, se.as_slice()) {
        return Some(Method::SEARCH);
    }
    let ul: [u8; 6] = ['U' as u8, 'N' as u8, 'L' as u8, 'O' as u8, 'C' as u8, 'K' as u8];
    if bytes_eq(token, ul.as_slice()) {
        return Some(Method::UNLOCK);
    }
    let re: [u8; 6] = ['R' as u8, 'E' as u8, 'P' as u8, 'O' as u8, 'R' as u8, 'T' as u8];
    if bytes_eq(token, re.as_slice()) {
        return Some(Method::REPORT);
    }
    let ma: [u8; 10] = [
        'M' as u8,
        'K' as u8,
        'A' as u8,
        'C' as u8,
        'T' as u8,
        'I' as u8,
        'V' as u8,
        'I' as u8,
        'T' as u8,
        'Y' as u8,
    ];
    if bytes_eq(token, ma.as_slice()) {
        return Some(Method::MKACTIVITY);
    }
    let ch: [u8; 8] = [
        'C' as u8,
        'H' as u8,
        'E' as u8,
        'C' as u8,
        'K' as u8,
        'O' as u8,
        'U' as u8,
        'T' as u8,
    ];
    if bytes_eq(token, ch.as_slice()) {
        return Some(Method::CHECKOUT);
    }
    let me: [u8; 5] = ['M' as u8, 'E' as u8, 'R' as u8, 'G' as u8, 'E' as u8];
    if bytes_eq(token, me.as_slice()) {
        return Some(Method::MERGE);
    }
    let ms: [u8; 8] = [
        'M' as u8,
        '-' as u8,
        'S' as u8,
        'E' as u8,
        'A' as u8,
        'R' as u8,
        'C' as u8,
        'H' as u8,
    ];
    if bytes_eq(token, ms.as_slice()) {
        return Some(Method::MSEARCH);
    }
    let no: [u8; 6] = ['N' as u8, 'O' as u8, 'T' as u8, 'I' as u8, 'F' as u8, 'Y' as u8];
    if bytes_eq(token, no.as_slice()) {
        return Some(Method::NOTIFY);
    }
    let su: [u8; 9] = [
        'S' as u8,
        'U' as u8,
        'B' as u8,
        'S' as u8,
        'C' as u8,
        'R' as u8,
        'I' as u8,
        'B' as u8,
        'E' as u8,
    ];
    if bytes_eq(token, su.as_slice()) {
        return Some(Method::SUBSCRIBE);
    }
    let un: [u8; 11] = [
        'U' as u8,
        'N' as u8,
        'S' as u8,
        'U' as u8,
        'B' as u8,
        'S' as u8,
        'C' as u8,
        'R' as u8,
        'I' as u8,
        'B' as u8,
        'E' as u8,
    ];
    if bytes_eq(token, un.as_slice()) {
        return Some(Method::UNSUBSCRIBE);
    }
    let pa: [u8; 5] = ['P' as u8, 'A' as u8, 'T' as u8, 'C' as u8, 'H' as u8];
    if bytes_eq(token, pa.as_slice()) {
        return Some(Method::PATCH);
    }
    let pg: [u8; 5] = ['P' as u8, 'U' as u8, 'R' as u8, 'G' as u8, 'E' as u8];
    if bytes_eq(token, pg.as_slice()) {
        return Some(Method::PURGE);
    }
    None
}

} // verus!
