//! The incremental HTTP request parser: a byte-wise state machine over the
//! request grammar (request line, headers, blank line), tolerant of both
//! `LF` and `CRLF` line endings and of chunks split at arbitrary byte
//! boundaries.
//!
//! The parser's meaning is the transition function [`hstep`] folded over
//! the input ([`hrun`]); `parse` is proved to agree with it exactly, which
//! yields chunk-boundary invariance. Once an error is latched or the
//! upgrade boundary is reached, further bytes are not consumed, and
//! `offset` reports how many bytes of the present chunk were.

use vstd::prelude::*;
use vstd::string::StringSliceAdditionalSpecFns;
use vstd::utf8::{decode_utf8, valid_utf8};

use crate::headers::{HeaderMap, Headers, HeadersUtil};
use crate::request::{spec_method_from_token, HttpVersion, Method, Request, method_from_token};
use crate::strutil::{
    contains_keyword, copy_bytes, spec_contains_keyword, spec_lower, utf8_to_string,
};

verus! {

/// Position of the parser within the request grammar.
#[derive(Clone, Copy, PartialEq, Eq, Structural, Debug)]
pub enum HttpState {
    ReqStart,
    ReqMethod,
    UrlStart,
    Url,
    VerH,
    VerHT,
    VerHTT,
    VerHTTP,
    VerSlash,
    VerMajorFirst,
    VerMajor,
    VerMinorFirst,
    VerMinor,
    ReqLineAlmostDone,
    HeaderStart,
    HeaderName,
    HeaderValueOws,
    HeaderValue,
    HeaderLineAlmostDone,
    HeadersAlmostDone,
    BodyDone,
    Upgraded,
    Failed,
}

/// Error codes mirroring the classical HTTP parser errno taxonomy.
#[derive(Clone, Copy, PartialEq, Eq, Structural, Debug)]
pub enum HttpErrno {
    Okay,
    InvalidMethod,
    InvalidUrl,
    InvalidVersion,
    LfExpected,
    InvalidHeaderToken,
    InvalidEofState,
}

/// The mathematical state of an HTTP parser.
pub struct HttpV {
    pub state: HttpState,
    pub errno: HttpErrno,
    pub method: Option<Method>,
    pub http_major: u16,
    pub http_minor: u16,
    pub version: Option<HttpVersion>,
    pub url: Option<Seq<u8>>,
    pub headers: Map<Seq<u8>, Seq<u8>>,
    pub token: Seq<u8>,
    pub partial_name: Seq<u8>,
    pub partial_value: Option<Seq<u8>>,
    pub upgrade: bool,
}

/// States in which the parser consumes no further input.
pub open spec fn http_terminal(s: HttpState) -> bool {
    s is BodyDone || s is Upgraded || s is Failed
}

/// A carriage return.
pub open spec fn is_cr(b: u8) -> bool {
    b == 0x0D
}

/// A line feed.
pub open spec fn is_lf(b: u8) -> bool {
    b == 0x0A
}

/// A method-name byte: an upper-case letter or a hyphen.
pub open spec fn spec_is_method_char(b: u8) -> bool {
    (0x41 <= b <= 0x5A) || b == 0x2D
}

/// An ASCII digit.
pub open spec fn spec_is_digit(b: u8) -> bool {
    0x30 <= b <= 0x39
}

/// A request-target byte: anything above the space character.
pub open spec fn spec_is_url_char(b: u8) -> bool {
    b >= 0x21
}

/// A header-field token byte as the header grammar allows.
pub open spec fn spec_is_token_char(b: u8) -> bool {
    ||| 0x30 <= b <= 0x39
    ||| 0x41 <= b <= 0x5A
    ||| 0x61 <= b <= 0x7A
    ||| b == 0x21
    ||| 0x23 <= b <= 0x27
    ||| b == 0x2A
    ||| b == 0x2B
    ||| b == 0x2D
    ||| b == 0x2E
    ||| b == 0x5E
    ||| b == 0x5F
    ||| b == 0x60
    ||| b == 0x7C
    ||| b == 0x7E
}

/// The lowercased name of the `Upgrade` header.
pub open spec fn spec_key_upgrade() -> Seq<u8> {
    seq!['u' as u8, 'p' as u8, 'g' as u8, 'r' as u8, 'a' as u8, 'd' as u8, 'e' as u8]
}

/// The lowercased name of the `Connection` header.
pub open spec fn spec_key_connection() -> Seq<u8> {
    seq![
        'c' as u8,
        'o' as u8,
        'n' as u8,
        'n' as u8,
        'e' as u8,
        'c' as u8,
        't' as u8,
        'i' as u8,
        'o' as u8,
        'n' as u8,
    ]
}

/// The state with an error latched.
pub open spec fn hfail(v: HttpV, e: HttpErrno) -> HttpV {
    HttpV { state: HttpState::Failed, errno: e, ..v }
}

/// Commit the pending header pair, if a value has been started: the name
/// is lowercased and overwrites any previous entry.
pub open spec fn hcommit(v: HttpV) -> HttpV {
    match v.partial_value {
        Some(pv) => HttpV {
            headers: v.headers.insert(spec_lower(v.partial_name), pv),
            partial_name: Seq::<u8>::empty(),
            partial_value: None,
            ..v
        },
        None => v,
    }
}

/// The headers-complete event: commit the pending pair, record the
/// version, and decide the upgrade bit — set exactly when an `Upgrade`
/// header is present and the `Connection` header lists the `upgrade`
/// keyword.
pub open spec fn hcomplete(v: HttpV) -> HttpV {
    let v1 = hcommit(v);
    let up = v1.headers.contains_key(spec_key_upgrade()) && v1.headers.contains_key(
        spec_key_connection(),
    ) && spec_contains_keyword(v1.headers[spec_key_connection()], spec_key_upgrade());
    HttpV {
        version: Some(HttpVersion(v1.http_major, v1.http_minor)),
        upgrade: up,
        state: if up {
            HttpState::Upgraded
        } else {
            HttpState::BodyDone
        },
        ..v1
    }
}

/// One byte of input applied to a parser state.
pub open spec fn hstep(v: HttpV, b: u8) -> HttpV {
    match v.state {
        HttpState::ReqStart => {
            if is_cr(b) || is_lf(b) {
                v
            } else if spec_is_method_char(b) {
                HttpV { state: HttpState::ReqMethod, token: seq![b], ..v }
            } else {
                hfail(v, HttpErrno::InvalidMethod)
            }
        },
        HttpState::ReqMethod => {
            if spec_is_method_char(b) {
                HttpV { token: v.token.push(b), ..v }
            } else if b == 0x20 {
                match spec_method_from_token(v.token) {
                    Some(m) => HttpV {
                        method: Some(m),
                        token: Seq::<u8>::empty(),
                        state: HttpState::UrlStart,
                        ..v
                    },
                    None => hfail(v, HttpErrno::InvalidMethod),
                }
            } else {
                hfail(v, HttpErrno::InvalidMethod)
            }
        },
        HttpState::UrlStart => {
            if spec_is_url_char(b) {
                HttpV { url: Some(seq![b]), state: HttpState::Url, ..v }
            } else {
                hfail(v, HttpErrno::InvalidUrl)
            }
        },
        HttpState::Url => {
            if b == 0x20 {
                HttpV { state: HttpState::VerH, ..v }
            } else if spec_is_url_char(b) {
                HttpV {
                    url: match v.url {
                        Some(u) => Some(u.push(b)),
                        None => Some(seq![b]),
                    },
                    ..v
                }
            } else if is_cr(b) || is_lf(b) {
                hfail(v, HttpErrno::InvalidVersion)
            } else {
                hfail(v, HttpErrno::InvalidUrl)
            }
        },
        HttpState::VerH => {
            if b == 'H' as u8 {
                HttpV { state: HttpState::VerHT, ..v }
            } else {
                hfail(v, HttpErrno::InvalidVersion)
            }
        },
        HttpState::VerHT => {
            if b == 'T' as u8 {
                HttpV { state: HttpState::VerHTT, ..v }
            } else {
                hfail(v, HttpErrno::InvalidVersion)
            }
        },
        HttpState::VerHTT => {
            if b == 'T' as u8 {
                HttpV { state: HttpState::VerHTTP, ..v }
            } else {
                hfail(v, HttpErrno::InvalidVersion)
            }
        },
        HttpState::VerHTTP => {
            if b == 'P' as u8 {
                HttpV { state: HttpState::VerSlash, ..v }
            } else {
                hfail(v, HttpErrno::InvalidVersion)
            }
        },
        HttpState::VerSlash => {
            if b == '/' as u8 {
                HttpV { state: HttpState::VerMajorFirst, ..v }
            } else {
                hfail(v, HttpErrno::InvalidVersion)
            }
        },
        HttpState::VerMajorFirst => {
            if spec_is_digit(b) {
                HttpV { http_major: (b - 0x30) as u16, state: HttpState::VerMajor, ..v }
            } else {
                hfail(v, HttpErrno::InvalidVersion)
            }
        },
        HttpState::VerMajor => {
            if spec_is_digit(b) {
                let nm = v.http_major * 10 + (b - 0x30);
                if nm > 999 {
                    hfail(v, HttpErrno::InvalidVersion)
                } else {
                    HttpV { http_major: nm as u16, ..v }
                }
            } else if b == '.' as u8 {
                HttpV { state: HttpState::VerMinorFirst, ..v }
            } else {
                hfail(v, HttpErrno::InvalidVersion)
            }
        },
        HttpState::VerMinorFirst => {
            if spec_is_digit(b) {
                HttpV { http_minor: (b - 0x30) as u16, state: HttpState::VerMinor, ..v }
            } else {
                hfail(v, HttpErrno::InvalidVersion)
            }
        },
        HttpState::VerMinor => {
            if spec_is_digit(b) {
                let nm = v.http_minor * 10 + (b - 0x30);
                if nm > 999 {
                    hfail(v, HttpErrno::InvalidVersion)
                } else {
                    HttpV { http_minor: nm as u16, ..v }
                }
            } else if is_cr(b) {
                HttpV { state: HttpState::ReqLineAlmostDone, ..v }
            } else if is_lf(b) {
                HttpV { state: HttpState::HeaderStart, ..v }
            } else {
                hfail(v, HttpErrno::InvalidVersion)
            }
        },
        HttpState::ReqLineAlmostDone => {
            if is_lf(b) {
                HttpV { state: HttpState::HeaderStart, ..v }
            } else {
                hfail(v, HttpErrno::LfExpected)
            }
        },
        HttpState::HeaderStart => {
            if is_cr(b) {
                HttpV { state: HttpState::HeadersAlmostDone, ..v }
            } else if is_lf(b) {
                hcomplete(v)
            } else if spec_is_token_char(b) {
                let v1 = hcommit(v);
                HttpV { partial_name: seq![b], state: HttpState::HeaderName, ..v1 }
            } else {
                hfail(v, HttpErrno::InvalidHeaderToken)
            }
        },
        HttpState::HeaderName => {
            if spec_is_token_char(b) {
                HttpV { partial_name: v.partial_name.push(b), ..v }
            } else if b == 0x3A {
                HttpV { partial_value: Some(Seq::<u8>::empty()), state: HttpState::HeaderValueOws, ..v }
            } else {
                hfail(v, HttpErrno::InvalidHeaderToken)
            }
        },
        HttpState::HeaderValueOws => {
            if b == 0x20 || b == 0x09 {
                v
            } else if is_cr(b) {
                HttpV { state: HttpState::HeaderLineAlmostDone, ..v }
            } else if is_lf(b) {
                HttpV { state: HttpState::HeaderStart, ..v }
            } else {
                HttpV {
                    partial_value: match v.partial_value {
                        Some(pv) => Some(pv.push(b)),
                        None => Some(seq![b]),
                    },
                    state: HttpState::HeaderValue,
                    ..v
                }
            }
        },
        HttpState::HeaderValue => {
            if is_cr(b) {
                HttpV { state: HttpState::HeaderLineAlmostDone, ..v }
            } else if is_lf(b) {
                HttpV { state: HttpState::HeaderStart, ..v }
            } else {
                HttpV {
                    partial_value: match v.partial_value {
                        Some(pv) => Some(pv.push(b)),
                        None => Some(seq![b]),
                    },
                    ..v
                }
            }
        },
        HttpState::HeaderLineAlmostDone => {
            if is_lf(b) {
                HttpV { state: HttpState::HeaderStart, ..v }
            } else {
                hfail(v, HttpErrno::LfExpected)
            }
        },
        HttpState::HeadersAlmostDone => {
            if is_lf(b) {
                hcomplete(v)
            } else {
                hfail(v, HttpErrno::LfExpected)
            }
        },
        HttpState::BodyDone => v,
        HttpState::Upgraded => v,
        HttpState::Failed => v,
    }
}

/// The state after feeding every byte of `bs` in order; terminal states
/// absorb further input.
pub open spec fn hrun(v: HttpV, bs: Seq<u8>) -> HttpV
    decreases bs.len(),
{
    if bs.len() == 0 {
        v
    } else {
        hrun(hstep(v, bs[0]), bs.drop_first())
    }
}

/// How many leading bytes of `bs` the parser consumes before reaching a
/// terminal state.
pub open spec fn hconsumed(v: HttpV, bs: Seq<u8>) -> nat
    decreases bs.len(),
{
    if bs.len() == 0 || http_terminal(v.state) {
        0
    } else {
        1 + hconsumed(hstep(v, bs[0]), bs.drop_first())
    }
}

/// The end-of-input event: in a state where the request is incomplete, an
/// end-of-stream error is latched.
pub open spec fn hfinish(v: HttpV) -> HttpV {
    if http_terminal(v.state) {
        v
    } else {
        hfail(v, HttpErrno::InvalidEofState)
    }
}

/// The state a freshly constructed parser is in.
pub open spec fn http_init() -> HttpV {
    HttpV {
        state: HttpState::ReqStart,
        errno: HttpErrno::Okay,
        method: None,
        http_major: 0,
        http_minor: 0,
        version: None,
        url: None,
        headers: Map::<Seq<u8>, Seq<u8>>::empty(),
        token: Seq::<u8>::empty(),
        partial_name: Seq::<u8>::empty(),
        partial_value: None,
        upgrade: false,
    }
}

/// A terminal parser ignores all further input.
pub proof fn lemma_hrun_terminal(v: HttpV, bs: Seq<u8>)
    requires
        http_terminal(v.state),
    ensures
        hrun(v, bs) == v,
    decreases bs.len(),
{
    if bs.len() > 0 {
        lemma_hrun_terminal(v, bs.drop_first());
    }
}

/// Feeding one more byte is one more step.
pub proof fn lemma_hrun_snoc(v: HttpV, a: Seq<u8>, x: u8)
    ensures
        hrun(v, a.push(x)) == hstep(hrun(v, a), x),
    decreases a.len(),
{
    if a.len() == 0 {
        assert(a.push(x)[0] == x);
        assert(a.push(x).drop_first() =~= Seq::<u8>::empty());
        assert(hrun(hstep(v, x), Seq::<u8>::empty()) == hstep(v, x));
        assert(hrun(v, a) == v);
    } else {
        assert(a.push(x)[0] == a[0]);
        assert(a.push(x).drop_first() =~= a.drop_first().push(x));
        lemma_hrun_snoc(hstep(v, a[0]), a.drop_first(), x);
        assert(hrun(v, a.push(x)) == hrun(hstep(v, a[0]), a.drop_first().push(x)));
        assert(hrun(v, a) == hrun(hstep(v, a[0]), a.drop_first()));
    }
}

/// Chunk-boundary invariance: feeding `a` then `b` reaches the same state
/// as feeding `a + b` in one call.
pub proof fn lemma_hrun_append(v: HttpV, a: Seq<u8>, b: Seq<u8>)
    ensures
        hrun(v, a + b) == hrun(hrun(v, a), b),
    decreases a.len(),
{
    if a.len() == 0 {
        assert(a + b =~= b);
    } else {
        assert((a + b).drop_first() =~= a.drop_first() + b);
        lemma_hrun_append(hstep(v, a[0]), a.drop_first(), b);
    }
}

/// The parser never consumes more bytes than it is given.
pub proof fn lemma_hconsumed_le(v: HttpV, bs: Seq<u8>)
    ensures
        hconsumed(v, bs) <= bs.len(),
    decreases bs.len(),
{
    if !(bs.len() == 0 || http_terminal(v.state)) {
        lemma_hconsumed_le(hstep(v, bs[0]), bs.drop_first());
    }
}

/// Consumption splits over concatenation.
pub proof fn lemma_hconsumed_append(v: HttpV, a: Seq<u8>, b: Seq<u8>)
    ensures
        hconsumed(v, a + b) == hconsumed(v, a) + hconsumed(hrun(v, a), b),
    decreases a.len(),
{
    if a.len() == 0 {
        assert(a + b =~= b);
    } else if http_terminal(v.state) {
        lemma_hrun_terminal(v, a);
    } else {
        assert((a + b).drop_first() =~= a.drop_first() + b);
        lemma_hconsumed_append(hstep(v, a[0]), a.drop_first(), b);
    }
}

fn is_method_char(b: u8) -> (r: bool)
    ensures
        r == spec_is_method_char(b),
{
    (0x41 <= b && b <= 0x5A) || b == 0x2D
}

fn is_token_char(b: u8) -> (r: bool)
    ensures
        r == spec_is_token_char(b),
{
    (0x30 <= b && b <= 0x39) || (0x41 <= b && b <= 0x5A) || (0x61 <= b && b <= 0x7A) || b == 0x21
        || (0x23 <= b && b <= 0x27) || b == 0x2A || b == 0x2B || b == 0x2D || b == 0x2E || b == 0x5E
        || b == 0x5F || b == 0x60 || b == 0x7C || b == 0x7E
}

fn key_upgrade() -> (r: Vec<u8>)
    ensures
        r@ == spec_key_upgrade(),
{
    let k: [u8; 7] = ['u' as u8, 'p' as u8, 'g' as u8, 'r' as u8, 'a' as u8, 'd' as u8, 'e' as u8];
    let r = crate::strutil::copy_bytes(k.as_slice());
    proof {
        assert(r@ =~= spec_key_upgrade());
    }
    r
}

fn key_connection() -> (r: Vec<u8>)
    ensures
        r@ == spec_key_connection(),
{
    let k: [u8; 10] = [
        'c' as u8,
        'o' as u8,
        'n' as u8,
        'n' as u8,
        'e' as u8,
        'c' as u8,
        't' as u8,
        'i' as u8,
        'o' as u8,
        'n' as u8,
    ];
    let r = crate::strutil::copy_bytes(k.as_slice());
    proof {
        assert(r@ =~= spec_key_connection());
    }
    r
}

pub open spec fn view_opt_vec(o: Option<Vec<u8>>) -> Option<Seq<u8>> {
    match o {
        Some(v) => Some(v@),
        None => None,
    }
}

/// The incremental HTTP parser. `parse` returns an advanced copy; `offset`
/// is how many bytes of the chunk most recently given to `parse` were
/// consumed, so after the upgrade bit is set it names the first byte of
/// the non-HTTP payload within that chunk.
pub struct Parser {
    pub state: HttpState,
    pub errno: HttpErrno,
    pub method: Option<Method>,
    pub http_major: u16,
    pub http_minor: u16,
    pub version: Option<HttpVersion>,
    pub url: Option<Vec<u8>>,
    pub headers: HeaderMap,
    pub token: Vec<u8>,
    pub partial_name: Vec<u8>,
    pub partial_value: Option<Vec<u8>>,
    pub upgrade: bool,
    pub offset: usize,
}

impl View for Parser {
    type V = HttpV;

    open spec fn view(&self) -> HttpV {
        HttpV {
            state: self.state,
            errno: self.errno,
            method: self.method,
            http_major: self.http_major,
            http_minor: self.http_minor,
            version: self.version,
            url: view_opt_vec(self.url),
            headers: self.headers@,
            token: self.token@,
            partial_name: self.partial_name@,
            partial_value: view_opt_vec(self.partial_value),
            upgrade: self.upgrade,
        }
    }
}

/// A fresh parser at the start of a request.
pub fn initial_parser() -> (r: Parser)
    ensures
        r@ == http_init(),
        r.inv(),
        r.offset == 0,
{
    let r = Parser {
        state: HttpState::ReqStart,
        errno: HttpErrno::Okay,
        method: None,
        http_major: 0,
        http_minor: 0,
        version: None,
        url: None,
        headers: HeaderMap::new(),
        token: Vec::new(),
        partial_name: Vec::new(),
        partial_value: None,
        upgrade: false,
        offset: 0,
    };
    proof {
        assert(r@.token =~= http_init().token);
        assert(r@.partial_name =~= http_init().partial_name);
    }
    r
}

impl Parser {
    /// The representation invariant: the header store is usable.
    pub open spec fn inv(&self) -> bool {
        self.headers.wf()
    }

    /// Feed `input` to the parser, returning the advanced parser. Bytes
    /// after a latched error or after the upgrade boundary are not
    /// consumed; `offset` in the result tells how many were.
    pub fn parse(&self, input: &[u8]) -> (r: Parser)
        requires
            self.inv(),
        ensures
            r@ == hrun(self@, input@),
            r.inv(),
            r.offset == hconsumed(self@, input@),
            r.offset <= input@.len(),
    {
        let mut state = self.state;
        let mut errno = self.errno;
        let mut method = self.method;
        let mut http_major = self.http_major;
        let mut http_minor = self.http_minor;
        let mut version = self.version;
        let mut url: Option<Vec<u8>> = match &self.url {
            Some(u) => Some(copy_bytes(u.as_slice())),
            None => None,
        };
        let mut headers = self.headers.copy();
        let mut token = copy_bytes(self.token.as_slice());
        let mut partial_name = copy_bytes(self.partial_name.as_slice());
        let mut partial_value: Option<Vec<u8>> = match &self.partial_value {
            Some(pv) => Some(copy_bytes(pv.as_slice())),
            None => None,
        };
        let mut upgrade = self.upgrade;

        let n = input.len();
        let mut i: usize = 0;

        proof {
            assert(input@.take(0) =~= Seq::<u8>::empty());
        }

        while i < n && !(state == HttpState::BodyDone || state == HttpState::Upgraded || state
            == HttpState::Failed)
            invariant
                i <= n,
                n == input@.len(),
                (HttpV {
                    state,
                    errno,
                    method,
                    http_major,
                    http_minor,
                    version,
                    url: view_opt_vec(url),
                    headers: headers@,
                    token: token@,
                    partial_name: partial_name@,
                    partial_value: view_opt_vec(partial_value),
                    upgrade,
                }) == hrun(self@, input@.take(i as int)),
                headers.wf(),
                i == hconsumed(self@, input@.take(i as int)),
            decreases n - i,
        {
            let ghost prefix = input@.take(i as int);
            let ghost cur = hrun(self@, prefix);
            let b = input[i];
            proof {
                assert(input@.take(i as int + 1) =~= prefix.push(b));
                lemma_hrun_snoc(self@, prefix, b);
                assert(prefix + seq![b] =~= prefix.push(b));
                lemma_hconsumed_append(self@, prefix, seq![b]);
                assert(seq![b][0] == b);
                assert(seq![b].drop_first() =~= Seq::<u8>::empty());
                assert(hconsumed(hstep(cur, b), Seq::<u8>::empty()) == 0);
                assert(hconsumed(cur, seq![b]) == 1);
            }
            match state {
                HttpState::ReqStart => {
                    if b == 0x0D || b == 0x0A {
                    } else if is_method_char(b) {
                        token = Vec::new();
                        token.push(b);
                        state = HttpState::ReqMethod;
                        proof {
                            assert(token@ =~= seq![b]);
                        }
                    } else {
                        state = HttpState::Failed;
                        errno = HttpErrno::InvalidMethod;
                    }
                },
                HttpState::ReqMethod => {
                    if is_method_char(b) {
                        token.push(b);
                    } else if b == 0x20 {
                        match method_from_token(token.as_slice()) {
                            Some(m) => {
                                method = Some(m);
                                token = Vec::new();
                                state = HttpState::UrlStart;
                                proof {
                                    assert(token@ =~= Seq::<u8>::empty());
                                }
                            },
                            None => {
                                state = HttpState::Failed;
                                errno = HttpErrno::InvalidMethod;
                            },
                        }
                    } else {
                        state = HttpState::Failed;
                        errno = HttpErrno::InvalidMethod;
                    }
                },
                HttpState::UrlStart => {
                    if b >= 0x21 {
                        let mut u: Vec<u8> = Vec::new();
                        u.push(b);
                        proof {
                            assert(u@ =~= seq![b]);
                        }
                        url = Some(u);
                        state = HttpState::Url;
                    } else {
                        state = HttpState::Failed;
                        errno = HttpErrno::InvalidUrl;
                    }
                },
                HttpState::Url => {
                    if b == 0x20 {
                        state = HttpState::VerH;
                    } else if b >= 0x21 {
                        match url {
                            Some(mut u) => {
                                u.push(b);
                                url = Some(u);
                            },
                            None => {
                                let mut u: Vec<u8> = Vec::new();
                                u.push(b);
                                proof {
                                    assert(u@ =~= seq![b]);
                                }
                                url = Some(u);
                            },
                        }
                    } else if b == 0x0D || b == 0x0A {
                        state = HttpState::Failed;
                        errno = HttpErrno::InvalidVersion;
                    } else {
                        state = HttpState::Failed;
                        errno = HttpErrno::InvalidUrl;
                    }
                },
                HttpState::VerH => {
                    if b == 'H' as u8 {
                        state = HttpState::VerHT;
                    } else {
                        state = HttpState::Failed;
                        errno = HttpErrno::InvalidVersion;
                    }
                },
                HttpState::VerHT => {
                    if b == 'T' as u8 {
                        state = HttpState::VerHTT;
                    } else {
                        state = HttpState::Failed;
                        errno = HttpErrno::InvalidVersion;
                    }
                },
                HttpState::VerHTT => {
                    if b == 'T' as u8 {
                        state = HttpState::VerHTTP;
                    } else {
                        state = HttpState::Failed;
                        errno = HttpErrno::InvalidVersion;
                    }
                },
                HttpState::VerHTTP => {
                    if b == 'P' as u8 {
                        state = HttpState::VerSlash;
                    } else {
                        state = HttpState::Failed;
                        errno = HttpErrno::InvalidVersion;
                    }
                },
                HttpState::VerSlash => {
                    if b == '/' as u8 {
                        state = HttpState::VerMajorFirst;
                    } else {
                        state = HttpState::Failed;
                        errno = HttpErrno::InvalidVersion;
                    }
                },
                HttpState::VerMajorFirst => {
                    if 0x30 <= b && b <= 0x39 {
                        http_major = (b - 0x30) as u16;
                        state = HttpState::VerMajor;
                    } else {
                        state = HttpState::Failed;
                        errno = HttpErrno::InvalidVersion;
                    }
                },
                HttpState::VerMajor => {
                    if 0x30 <= b && b <= 0x39 {
                        let nm: u32 = http_major as u32 * 10 + (b - 0x30) as u32;
                        if nm > 999 {
                            state = HttpState::Failed;
                            errno = HttpErrno::InvalidVersion;
                        } else {
                            http_major = nm as u16;
                        }
                    } else if b == '.' as u8 {
                        state = HttpState::VerMinorFirst;
                    } else {
                        state = HttpState::Failed;
                        errno = HttpErrno::InvalidVersion;
                    }
                },
                HttpState::VerMinorFirst => {
                    if 0x30 <= b && b <= 0x39 {
                        http_minor = (b - 0x30) as u16;
                        state = HttpState::VerMinor;
                    } else {
                        state = HttpState::Failed;
                        errno = HttpErrno::InvalidVersion;
                    }
                },
                HttpState::VerMinor => {
                    if 0x30 <= b && b <= 0x39 {
                        let nm: u32 = http_minor as u32 * 10 + (b - 0x30) as u32;
                        if nm > 999 {
                            state = HttpState::Failed;
                            errno = HttpErrno::InvalidVersion;
                        } else {
                            http_minor = nm as u16;
                        }
                    } else if b == 0x0D {
                        state = HttpState::ReqLineAlmostDone;
                    } else if b == 0x0A {
                        state = HttpState::HeaderStart;
                    } else {
                        state = HttpState::Failed;
                        errno = HttpErrno::InvalidVersion;
                    }
                },
                HttpState::ReqLineAlmostDone => {
                    if b == 0x0A {
                        state = HttpState::HeaderStart;
                    } else {
                        state = HttpState::Failed;
                        errno = HttpErrno::LfExpected;
                    }
                },
                HttpState::HeaderStart => {
                    if b == 0x0D {
                        state = HttpState::HeadersAlmostDone;
                    } else if b == 0x0A {
                        match partial_value {
                            Some(pv) => {
                                headers.set_bytes(partial_name.as_slice(), pv.as_slice());
                                partial_name = Vec::new();
                                partial_value = None;
                                proof {
                                    assert(partial_name@ =~= Seq::<u8>::empty());
                                }
                            },
                            None => {},
                        }
                        let ku = key_upgrade();
                        let kc = key_connection();
                        proof {
                            assert(spec_lower(spec_key_upgrade()) =~= spec_key_upgrade());
                            assert(spec_lower(spec_key_connection()) =~= spec_key_connection());
                        }
                        let has_up = headers.get_bytes(ku.as_slice()).is_some();
                        let conn_kw = match headers.get_bytes(kc.as_slice()) {
                            Some(cv) => contains_keyword(cv.as_slice(), ku.as_slice()),
                            None => false,
                        };
                        upgrade = has_up && conn_kw;
                        version = Some(HttpVersion(http_major, http_minor));
                        state = if upgrade {
                            HttpState::Upgraded
                        } else {
                            HttpState::BodyDone
                        };
                    } else if is_token_char(b) {
                        match partial_value {
                            Some(pv) => {
                                headers.set_bytes(partial_name.as_slice(), pv.as_slice());
                                partial_value = None;
                            },
                            None => {},
                        }
                        partial_name = Vec::new();
                        partial_name.push(b);
                        state = HttpState::HeaderName;
                        proof {
                            assert(partial_name@ =~= seq![b]);
                        }
                    } else {
                        state = HttpState::Failed;
                        errno = HttpErrno::InvalidHeaderToken;
                    }
                },
                HttpState::HeaderName => {
                    if is_token_char(b) {
                        partial_name.push(b);
                    } else if b == 0x3A {
                        partial_value = Some(Vec::new());
                        state = HttpState::HeaderValueOws;
                        proof {
                            assert(view_opt_vec(partial_value) == Some(Seq::<u8>::empty()));
                        }
                    } else {
                        state = HttpState::Failed;
                        errno = HttpErrno::InvalidHeaderToken;
                    }
                },
                HttpState::HeaderValueOws => {
                    if b == 0x20 || b == 0x09 {
                    } else if b == 0x0D {
                        state = HttpState::HeaderLineAlmostDone;
                    } else if b == 0x0A {
                        state = HttpState::HeaderStart;
                    } else {
                        match partial_value {
                            Some(mut pv) => {
                                pv.push(b);
                                partial_value = Some(pv);
                            },
                            None => {
                                let mut pv: Vec<u8> = Vec::new();
                                pv.push(b);
                                proof {
                                    assert(pv@ =~= seq![b]);
                                }
                                partial_value = Some(pv);
                            },
                        }
                        state = HttpState::HeaderValue;
                    }
                },
                HttpState::HeaderValue => {
                    if b == 0x0D {
                        state = HttpState::HeaderLineAlmostDone;
                    } else if b == 0x0A {
                        state = HttpState::HeaderStart;
                    } else {
                        match partial_value {
                            Some(mut pv) => {
                                pv.push(b);
                                partial_value = Some(pv);
                            },
                            None => {
                                let mut pv: Vec<u8> = Vec::new();
                                pv.push(b);
                                proof {
                                    assert(pv@ =~= seq![b]);
                                }
                                partial_value = Some(pv);
                            },
                        }
                    }
                },
                HttpState::HeaderLineAlmostDone => {
                    if b == 0x0A {
                        state = HttpState::HeaderStart;
                    } else {
                        state = HttpState::Failed;
                        errno = HttpErrno::LfExpected;
                    }
                },
                HttpState::HeadersAlmostDone => {
                    if b == 0x0A {
                        match partial_value {
                            Some(pv) => {
                                headers.set_bytes(partial_name.as_slice(), pv.as_slice());
                                partial_name = Vec::new();
                                partial_value = None;
                                proof {
                                    assert(partial_name@ =~= Seq::<u8>::empty());
                                }
                            },
                            None => {},
                        }
                        let ku = key_upgrade();
                        let kc = key_connection();
                        proof {
                            assert(spec_lower(spec_key_upgrade()) =~= spec_key_upgrade());
                            assert(spec_lower(spec_key_connection()) =~= spec_key_connection());
                        }
                        let has_up = headers.get_bytes(ku.as_slice()).is_some();
                        let conn_kw = match headers.get_bytes(kc.as_slice()) {
                            Some(cv) => contains_keyword(cv.as_slice(), ku.as_slice()),
                            None => false,
                        };
                        upgrade = has_up && conn_kw;
                        version = Some(HttpVersion(http_major, http_minor));
                        state = if upgrade {
                            HttpState::Upgraded
                        } else {
                            HttpState::BodyDone
                        };
                    } else {
                        state = HttpState::Failed;
                        errno = HttpErrno::LfExpected;
                    }
                },
                HttpState::BodyDone => {},
                HttpState::Upgraded => {},
                HttpState::Failed => {},
            }
            i = i + 1;
        }

        proof {
            if i == n {
                assert(input@.take(n as int) =~= input@);
            } else {
                let prefix = input@.take(i as int);
                let rest = input@.skip(i as int);
                assert(prefix + rest =~= input@);
                lemma_hrun_append(self@, prefix, rest);
                lemma_hrun_terminal(hrun(self@, prefix), rest);
                lemma_hconsumed_append(self@, prefix, rest);
            }
        }

        Parser {
            state,
            errno,
            method,
            http_major,
            http_minor,
            version,
            url,
            headers,
            token,
            partial_name,
            partial_value,
            upgrade,
            offset: i,
        }
    }

    /// Signal end of input: a request still in progress becomes an
    /// end-of-stream error; a finished, upgraded or failed parser is
    /// unchanged.
    pub fn finish(&self) -> (r: Parser)
        requires
            self.inv(),
        ensures
            r@ == hfinish(self@),
            r.inv(),
            r.offset == 0,
    {
        let mut r = self.parse(&[]);
        proof {
            assert(hrun(self@, Seq::<u8>::empty()) == self@);
        }
        if !(r.state == HttpState::BodyDone || r.state == HttpState::Upgraded || r.state
            == HttpState::Failed) {
            r.state = HttpState::Failed;
            r.errno = HttpErrno::InvalidEofState;
        }
        r
    }

    /// Whether no error has been latched.
    pub fn success(&self) -> (r: bool)
        ensures
            r == (self@.errno is Okay),
    {
        self.errno == HttpErrno::Okay
    }

    /// Whether the upgrade boundary has been reached.
    pub fn upgrade(&self) -> (r: bool)
        ensures
            r == self@.upgrade,
    {
        self.upgrade
    }

    /// The symbolic name of the latched error.
    pub fn error_name(&self) -> (r: &'static str)
        ensures
            r@ == spec_errno_name(self@.errno),
    {
        match self.errno {
            HttpErrno::Okay => "HPE_OK",
            HttpErrno::InvalidMethod => "HPE_INVALID_METHOD",
            HttpErrno::InvalidUrl => "HPE_INVALID_URL",
            HttpErrno::InvalidVersion => "HPE_INVALID_VERSION",
            HttpErrno::LfExpected => "HPE_LF_EXPECTED",
            HttpErrno::InvalidHeaderToken => "HPE_INVALID_HEADER_TOKEN",
            HttpErrno::InvalidEofState => "HPE_INVALID_EOF_STATE",
        }
    }

    /// The human-readable description of the latched error.
    pub fn error_description(&self) -> (r: &'static str)
        ensures
            r@ == spec_errno_description(self@.errno),
    {
        match self.errno {
            HttpErrno::Okay => "success",
            HttpErrno::InvalidMethod => "invalid HTTP method",
            HttpErrno::InvalidUrl => "invalid URL",
            HttpErrno::InvalidVersion => "invalid HTTP version",
            HttpErrno::LfExpected => "LF character expected",
            HttpErrno::InvalidHeaderToken => "invalid character in header",
            HttpErrno::InvalidEofState => "stream ended at an unexpected time",
        }
    }

    /// The request target, when one was seen and it is valid UTF-8.
    pub fn url(&self) -> (r: Option<String>)
        ensures
            r is Some <==> (self@.url matches Some(u) && valid_utf8(u)),
            r matches Some(s) ==> (self@.url matches Some(u) && s@ == decode_utf8(u)),
    {
        match &self.url {
            Some(u) => utf8_to_string(copy_bytes(u.as_slice())),
            None => None,
        }
    }
}

/// The symbolic name each error code exposes.
pub open spec fn spec_errno_name(e: HttpErrno) -> Seq<char> {
    match e {
        HttpErrno::Okay => "HPE_OK"@,
        HttpErrno::InvalidMethod => "HPE_INVALID_METHOD"@,
        HttpErrno::InvalidUrl => "HPE_INVALID_URL"@,
        HttpErrno::InvalidVersion => "HPE_INVALID_VERSION"@,
        HttpErrno::LfExpected => "HPE_LF_EXPECTED"@,
        HttpErrno::InvalidHeaderToken => "HPE_INVALID_HEADER_TOKEN"@,
        HttpErrno::InvalidEofState => "HPE_INVALID_EOF_STATE"@,
    }
}

/// The description each error code exposes.
pub open spec fn spec_errno_description(e: HttpErrno) -> Seq<char> {
    match e {
        HttpErrno::Okay => "success"@,
        HttpErrno::InvalidMethod => "invalid HTTP method"@,
        HttpErrno::InvalidUrl => "invalid URL"@,
        HttpErrno::InvalidVersion => "invalid HTTP version"@,
        HttpErrno::LfExpected => "LF character expected"@,
        HttpErrno::InvalidHeaderToken => "invalid character in header"@,
        HttpErrno::InvalidEofState => "stream ended at an unexpected time"@,
    }
}

impl Headers for Parser {
    open spec fn hwf(&self) -> bool {
        self.inv()
    }

    open spec fn spec_get(&self, name: Seq<u8>) -> Option<Seq<u8>> {
        if self@.headers.contains_key(spec_lower(name)) {
            Some(self@.headers[spec_lower(name)])
        } else {
            None
        }
    }

    fn get_header(&self, name: &str) -> (r: Option<String>) {
        self.headers.get_header(name)
    }

    fn has_header(&self, name: &str) -> (r: bool) {
        self.headers.has_header(name)
    }

    fn get_header_bytes(&self, name: &str) -> (r: Option<Vec<u8>>) {
        self.headers.get_header_bytes(name)
    }
}

impl HeadersUtil for Parser {
    fn has_header_value(&self, name: &str, value: &str) -> (r: bool) {
        self.headers.has_header_value(name, value)
    }

    fn has_header_keyword(&self, name: &str, keyword: &str) -> (r: bool) {
        self.headers.has_header_keyword(name, keyword)
    }
}

impl Request for Parser {
    open spec fn spec_http_version(&self) -> Option<HttpVersion> {
        self@.version
    }

    open spec fn spec_method(&self) -> Option<Method> {
        self@.method
    }

    fn http_version(&self) -> (r: Option<HttpVersion>) {
        self.version
    }

    fn method(&self) -> (r: Option<Method>) {
        self.method
    }
}

} // verus!
