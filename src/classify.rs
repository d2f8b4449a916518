//! Deciding what a request asks for: a tunnel (`CONNECT host:port`), a
//! forwarded request (`GET` of an absolute URI, rewritten for the origin), or
//! a refusal; and the literal replies the proxy sends.
use vstd::prelude::*;
use crate::head::{Header, RequestHead};
use crate::text::{parse_port, port_number, same_text};

verus! {

/// The port a forwarded request goes to when its URI names none.
pub const DEFAULT_ORIGIN_PORT: u16 = 80;

/// A host and port to connect to.
pub struct Endpoint {
    pub host: String,
    pub port: u16,
}

/// What the proxy does with a request.
pub enum Intent {
    /// Open a tunnel to the endpoint.
    Tunnel(Endpoint),
    /// Send the request bytes to the endpoint and relay its answer.
    Forward(Endpoint, Vec<u8>),
    /// Refuse the method.
    Reject,
}

/// Why a request's target cannot be used.
#[derive(PartialEq, Eq, Structural, Clone, Copy, Debug)]
pub enum TargetError {
    /// No target, a `CONNECT` target without `host:port`, or a `GET` target
    /// that is no absolute URI with a host.
    InvalidTarget,
}

/// The parts of an absolute URI that forwarding needs.
pub struct UrlParts {
    pub host: Option<String>,
    pub port: Option<u16>,
    pub path: Vec<u8>,
    pub query: Option<Vec<u8>>,
}

/// What `url::Url::parse` makes of `s`: `None` where it refuses it; else the
/// host, the port written in the URI (none where it is the scheme's default),
/// the path and the query, in serialised form.
pub uninterp spec fn url_parts(s: Seq<char>) -> Option<UrlParts>;

/// Relies on `url::Url::parse` and its accessors `host_str`, `port`, `path`
/// and `query`; the result depends on the text alone.
#[verifier::external_body]
fn parse_url(s: &str) -> (r: Option<UrlParts>)
    ensures
        r == url_parts(s@),
{
    match url::Url::parse(s) {
        Ok(u) => Some(UrlParts {
            host: u.host_str().map(String::from),
            port: u.port(),
            path: u.path().as_bytes().to_vec(),
            query: u.query().map(|q| q.as_bytes().to_vec()),
        }),
        Err(_) => None,
    }
}

/// The bytes of a text, one per character.
pub open spec fn ascii_bytes(s: Seq<char>) -> Seq<u8> {
    s.map_values(|c: char| c as u8)
}

/// Appends the bytes of `s`, one per character.
fn push_text(out: &mut Vec<u8>, s: &str)
    ensures
        final(out)@ == old(out)@ + ascii_bytes(s@),
{
    let n = s.unicode_len();
    let mut i: usize = 0;
    while i < n
        invariant
            n == s@.len(),
            i <= n,
            out@ == old(out)@ + ascii_bytes(s@.take(i as int)),
        decreases n - i,
    {
        let c = s.get_char(i);
        out.push(c as u8);
        i = i + 1;
        assert(ascii_bytes(s@.take(i as int)) =~= ascii_bytes(s@.take(i - 1)).push(c as u8));
    }
    assert(s@.take(n as int) =~= s@);
}

/// Appends bytes.
fn push_bytes(out: &mut Vec<u8>, b: &[u8])
    ensures
        final(out)@ == old(out)@ + b@,
{
    let mut i: usize = 0;
    while i < b.len()
        invariant
            i <= b.len(),
            out@ == old(out)@ + b@.take(i as int),
        decreases b.len() - i,
    {
        out.push(b[i]);
        i = i + 1;
        assert(b@.take(i as int) =~= b@.take(i - 1).push(b@[i - 1]));
    }
    assert(b@.take(b.len() as int) =~= b@);
}

/// `i` is the position of the last `:` of `t`.
pub open spec fn last_colon(t: Seq<char>, i: int) -> bool {
    0 <= i < t.len() && t[i] == ':' && forall|j: int| i < j < t.len() ==> t[j] != ':'
}

/// A `host:port` authority: a non-empty host, then the last `:`, then a
/// decimal port number.
pub open spec fn authority(t: Seq<char>) -> Option<(Seq<char>, u16)> {
    if exists|i: int| last_colon(t, i) {
        let i = choose|i: int| last_colon(t, i);
        match port_number(t.skip(i + 1)) {
            Some(p) => if i > 0 {
                Some((t.take(i), p))
            } else {
                None
            },
            None => None,
        }
    } else {
        None
    }
}

/// Reads a `host:port` authority; see `authority`.
pub fn parse_authority(t: &str) -> (r: Option<Endpoint>)
    ensures
        match authority(t@) {
            Some((h, p)) => r matches Some(e) && e.host@ == h && e.port == p,
            None => r is None,
        },
{
    let n = t.unicode_len();
    let mut i: usize = n;
    while i > 0 && t.get_char(i - 1) != ':'
        invariant
            n == t@.len(),
            i <= n,
            forall|j: int| i <= j < n ==> t@[j] != ':',
        decreases i,
    {
        i = i - 1;
    }
    if i == 0 {
        assert forall|k: int| !last_colon(t@, k) by {
            if 0 <= k < n && t@[k] == ':' {
                assert(t@[k] != ':');
            }
        }
        return None;
    }
    let c = i - 1;
    proof {
        assert(last_colon(t@, c as int));
        let k = choose|k: int| last_colon(t@, k);
        if k < c {
            assert(t@[c as int] != ':');
        }
        if k > c {
            assert(t@[k] != ':');
        }
        assert(t@.skip(i as int) =~= t@.subrange(i as int, n as int));
        assert(t@.take(c as int) =~= t@.subrange(0, c as int));
    }
    let port = parse_port(t.substring_char(i, n));
    match port {
        Some(p) => {
            if c == 0 {
                None
            } else {
                let host = String::from_str(t.substring_char(0, c));
                Some(Endpoint { host, port: p })
            }
        },
        None => None,
    }
}

/// One header line as it is forwarded: name, `": "`, value, line end.
pub open spec fn header_line(h: Header) -> Seq<u8> {
    h.name@ + ascii_bytes(": "@) + h.value@ + ascii_bytes("\r\n"@)
}

/// The header lines, in order.
pub open spec fn header_block(hs: Seq<Header>) -> Seq<u8>
    decreases hs.len(),
{
    if hs.len() == 0 {
        Seq::empty()
    } else {
        header_block(hs.drop_last()) + header_line(hs.last())
    }
}

/// The request target an origin sees: the URI's path, and its query after a `?`.
pub open spec fn origin_target(u: UrlParts) -> Seq<u8> {
    u.path@ + match u.query {
        Some(q) => ascii_bytes("?"@) + q@,
        None => Seq::empty(),
    }
}

/// The request sent to the origin: a `GET` of the origin target, every header
/// of the client's request unchanged and in order, then `Accept: */*` and
/// `Connection: close`, then the blank line.
pub open spec fn rewritten_request(u: UrlParts, hs: Seq<Header>) -> Seq<u8> {
    ascii_bytes("GET "@) + origin_target(u) + ascii_bytes(" HTTP/1.1\r\n"@) + header_block(hs)
        + ascii_bytes("Accept: */*\r\n"@) + ascii_bytes("Connection: close\r\n"@)
        + ascii_bytes("\r\n"@)
}

/// Builds the request sent to the origin; see `rewritten_request`.
pub fn rewrite_request(u: &UrlParts, headers: &Vec<Header>) -> (r: Vec<u8>)
    ensures
        r@ == rewritten_request(*u, headers@),
{
    let mut out: Vec<u8> = Vec::new();
    push_text(&mut out, "GET ");
    push_bytes(&mut out, u.path.as_slice());
    match &u.query {
        Some(q) => {
            push_text(&mut out, "?");
            push_bytes(&mut out, q.as_slice());
        },
        None => {},
    }
    push_text(&mut out, " HTTP/1.1\r\n");
    let ghost start = out@;
    assert(start =~= ascii_bytes("GET "@) + origin_target(*u) + ascii_bytes(" HTTP/1.1\r\n"@));
    let mut i: usize = 0;
    while i < headers.len()
        invariant
            i <= headers.len(),
            out@ == start + header_block(headers@.take(i as int)),
        decreases headers.len() - i,
    {
        let h = &headers[i];
        push_bytes(&mut out, h.name.as_slice());
        push_text(&mut out, ": ");
        push_bytes(&mut out, h.value.as_slice());
        push_text(&mut out, "\r\n");
        assert(headers@.take(i + 1).drop_last() =~= headers@.take(i as int));
        i = i + 1;
        assert(out@ =~= start + header_block(headers@.take(i as int)));
    }
    assert(headers@.take(headers.len() as int) =~= headers@);
    push_text(&mut out, "Accept: */*\r\n");
    push_text(&mut out, "Connection: close\r\n");
    push_text(&mut out, "\r\n");
    assert(out@ =~= rewritten_request(*u, headers@));
    out
}

/// The request's method is `m`.
pub open spec fn method_is(head: RequestHead, m: Seq<char>) -> bool {
    head.method matches Some(x) && x@ == m
}

/// `r` is what a request with head `head` asks for: for `CONNECT`, a tunnel to
/// its `host:port` target; for `GET`, the rewritten request, to the URI's host
/// at the URI's port, or 80; any other method is refused; a target that does
/// not fit its method is invalid.
pub open spec fn classified(head: RequestHead, r: Result<Intent, TargetError>) -> bool {
    if method_is(head, "CONNECT"@) {
        match head.target {
            Some(t) => match authority(t@) {
                Some((h, p)) => r matches Ok(Intent::Tunnel(e)) && e.host@ == h && e.port == p,
                None => r == Err::<Intent, TargetError>(TargetError::InvalidTarget),
            },
            None => r == Err::<Intent, TargetError>(TargetError::InvalidTarget),
        }
    } else if method_is(head, "GET"@) {
        match head.target {
            Some(t) => match url_parts(t@) {
                Some(u) => match u.host {
                    Some(h) => r matches Ok(Intent::Forward(e, req)) && e.host@ == h@ && e.port
                        == match u.port {
                        Some(p) => p,
                        None => 80,
                    } && req@ == rewritten_request(u, head.headers@),
                    None => r == Err::<Intent, TargetError>(TargetError::InvalidTarget),
                },
                None => r == Err::<Intent, TargetError>(TargetError::InvalidTarget),
            },
            None => r == Err::<Intent, TargetError>(TargetError::InvalidTarget),
        }
    } else {
        r matches Ok(Intent::Reject)
    }
}

/// Decides what a request asks for; see `classified`.
pub fn classify(head: &RequestHead) -> (r: Result<Intent, TargetError>)
    ensures
        classified(*head, r),
{
    let (is_connect, is_get) = match &head.method {
        Some(m) => (same_text(m.as_str(), "CONNECT"), same_text(m.as_str(), "GET")),
        None => (false, false),
    };
    if is_connect {
        assert(method_is(*head, "CONNECT"@));
        match &head.target {
            Some(t) => match parse_authority(t.as_str()) {
                Some(e) => Ok(Intent::Tunnel(e)),
                None => Err(TargetError::InvalidTarget),
            },
            None => Err(TargetError::InvalidTarget),
        }
    } else if is_get {
        assert(!method_is(*head, "CONNECT"@));
        match &head.target {
            Some(t) => match parse_url(t.as_str()) {
                Some(u) => match &u.host {
                    Some(h) => {
                        let port = match u.port {
                            Some(p) => p,
                            None => DEFAULT_ORIGIN_PORT,
                        };
                        let req = rewrite_request(&u, &head.headers);
                        Ok(Intent::Forward(Endpoint { host: h.clone(), port }, req))
                    },
                    None => Err(TargetError::InvalidTarget),
                },
                None => Err(TargetError::InvalidTarget),
            },
            None => Err(TargetError::InvalidTarget),
        }
    } else {
        Ok(Intent::Reject)
    }
}

/// The status line that opens an established tunnel.
pub open spec fn established_reply_bytes() -> Seq<u8> {
    ascii_bytes("HTTP/1.1 200 Connection Established\r\n\r\n"@)
}

/// The status line that refuses a method.
pub open spec fn not_allowed_reply_bytes() -> Seq<u8> {
    ascii_bytes("HTTP/1.1 405 Method Not Allowed\r\n\r\n"@)
}

pub fn established_reply() -> (r: Vec<u8>)
    ensures
        r@ == established_reply_bytes(),
{
    let mut out: Vec<u8> = Vec::new();
    push_text(&mut out, "HTTP/1.1 200 Connection Established\r\n\r\n");
    out
}

pub fn not_allowed_reply() -> (r: Vec<u8>)
    ensures
        r@ == not_allowed_reply_bytes(),
{
    let mut out: Vec<u8> = Vec::new();
    push_text(&mut out, "HTTP/1.1 405 Method Not Allowed\r\n\r\n");
    out
}

} // verus!
