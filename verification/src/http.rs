//! The HTTP side of the handshake: CONNECT targets and diagnostic GETs.

use vstd::prelude::*;
use crate::text;
use crate::wire::{ConnectRequest, FrameStep};

verus! {

/// What `httparse` makes of the bytes read so far: `None` while the head is
/// still incomplete, `Some(None)` when they are not a valid request head,
/// and otherwise the request's method and target.
pub uninterp spec fn http_head_of(b: Seq<u8>) -> Option<Option<(Seq<char>, Seq<char>)>>;

/// A parsed HTTP request head.
pub enum HttpHead {
    /// The head is incomplete: read more bytes.
    Partial,
    /// Not a valid request head.
    Malformed,
    /// A complete head with its method and target.
    Head { method: String, path: String },
}

/// Relies on `httparse::Request::parse`, with sixteen header slots: it
/// reports a partial head, a parse error, or a complete head, and on a
/// complete head it yields the request's method and target.
/// [`http_head_of`] names the outcome on the given bytes.
#[verifier::external_body]
fn parse_http_head(buf: &Vec<u8>) -> (r: HttpHead)
    ensures
        r is Partial <==> http_head_of(buf@) is None,
        r is Malformed <==> (http_head_of(buf@) matches Some(h) && h is None),
        r matches HttpHead::Head { method, path } ==> (http_head_of(buf@) matches Some(Some(mp))
            && mp.0 == method@ && mp.1 == path@),
{
    let mut headers = [httparse::EMPTY_HEADER; 16];
    let mut req = httparse::Request::new(&mut headers);
    match req.parse(buf.as_slice()) {
        Ok(status) if status.is_partial() => HttpHead::Partial,
        Ok(_) => match (req.method, req.path) {
            (Some(m), Some(p)) => HttpHead::Head { method: m.to_owned(), path: p.to_owned() },
            _ => HttpHead::Malformed,
        },
        Err(_) => HttpHead::Malformed,
    }
}

/// The position of the last colon in a character string.
pub open spec fn find_last_colon(s: Seq<char>) -> Option<int>
    decreases s.len(),
{
    if s.len() == 0 {
        None
    } else if s.last() == ':' {
        Some(s.len() - 1)
    } else {
        find_last_colon(s.drop_last())
    }
}

/// A CONNECT target split at its last colon: the host part, and the port the
/// characters after the colon denote. Nothing when there is no colon, or no
/// valid port after the last one.
pub open spec fn spec_split_host_port(s: Seq<char>) -> Option<(Seq<char>, u16)> {
    match find_last_colon(s) {
        None => None,
        Some(i) => match text::parse_u16(s.subrange(i + 1, s.len() as int)) {
            None => None,
            Some(p) => Some((s.subrange(0, i), p)),
        },
    }
}

/// Splits a CONNECT target `host:port` at its last colon, so that a
/// bracketed IPv6 literal stays whole in the host part.
pub fn split_host_port(path: &str) -> (r: Option<(String, u16)>)
    ensures
        match spec_split_host_port(path@) {
            None => r is None,
            Some(hp) => r matches Some(x) && x.0@ == hp.0 && x.1 == hp.1,
        },
{
    let cs = text::str_chars(path);
    assert(path@.subrange(0, path@.len() as int) =~= path@);
    let mut i: usize = cs.len();
    while i > 0
        invariant
            i <= cs@.len(),
            cs@ == path@,
            find_last_colon(path@) == find_last_colon(path@.subrange(0, i as int)),
        decreases i,
    {
        assert(path@.subrange(0, i as int).last() == cs@[i - 1]);
        if cs[i - 1] == ':' {
            let port_chars = text::subvec(&cs, i, cs.len());
            match text::parse_port(&port_chars) {
                None => {
                    return None;
                },
                Some(port) => {
                    let host_chars = text::subvec(&cs, 0, i - 1);
                    let hostname = text::chars_string(&host_chars);
                    return Some((hostname, port));
                },
            }
        }
        assert(path@.subrange(0, i as int).drop_last() =~= path@.subrange(0, i - 1));
        i -= 1;
    }
    assert(path@.subrange(0, 0) =~= Seq::<char>::empty());
    None
}

/// What the worker makes of a parsed request head: `CONNECT` carries
/// `host:port` as its target; `GET` is answered inline without proxying;
/// any other method, and a CONNECT target without a usable port, is a
/// protocol error (`None`).
pub open spec fn classify_ok(method: Seq<char>, path: Seq<char>, r: Option<ConnectRequest>) -> bool {
    if method == "CONNECT"@ {
        match spec_split_host_port(path) {
            None => r is None,
            Some(hp) => r matches Some(q) && q matches ConnectRequest::Http { hostname, port }
                && hostname@ == hp.0 && port == hp.1,
        }
    } else if method == "GET"@ {
        r matches Some(q) && q matches ConnectRequest::DiagnosticGet { path: p } && p@ == path
    } else {
        r is None
    }
}

/// Turns a parsed request head into a connect request.
pub fn classify_head(method: &String, path: String) -> (r: Option<ConnectRequest>)
    ensures
        classify_ok(method@, path@, r),
{
    if *method == String::from_str("CONNECT") {
        match split_host_port(path.as_str()) {
            None => None,
            Some((hostname, port)) => Some(ConnectRequest::Http { hostname, port }),
        }
    } else if *method == String::from_str("GET") {
        Some(ConnectRequest::DiagnosticGet { path })
    } else {
        None
    }
}

/// What one step of the HTTP handshake parser owes on the bytes read so far.
pub open spec fn http_frame_ok(b: Seq<u8>, r: FrameStep) -> bool {
    match http_head_of(b) {
        None => r is NeedMore,
        Some(None) => r is Malformed,
        Some(Some(mp)) => match r {
            FrameStep::Request(q) => classify_ok(mp.0, mp.1, Some(q)),
            FrameStep::Malformed => classify_ok(mp.0, mp.1, None),
            _ => false,
        },
    }
}

/// One step of the HTTP handshake parser, on the bytes read so far.
pub fn http_step(buf: &Vec<u8>) -> (r: FrameStep)
    ensures
        http_frame_ok(buf@, r),
{
    match parse_http_head(buf) {
        HttpHead::Partial => FrameStep::NeedMore,
        HttpHead::Malformed => FrameStep::Malformed,
        HttpHead::Head { method, path } => match classify_head(&method, path) {
            Some(q) => FrameStep::Request(q),
            None => FrameStep::Malformed,
        },
    }
}

} // verus!

