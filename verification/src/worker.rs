//! The per-connection worker's decisions.
//!
//! The worker parses the handshake, resolves, dials, acknowledges and
//! relays; the sockets stay outside the library. What the library fixes is
//! every decision along the way: which reply bytes a request is owed,
//! whether anything is dialed at all, and what a resolution failure means
//! for each protocol.

use vstd::prelude::*;
use vstd::string::StringExecFns;
use crate::endpoints::Target;
use crate::ip::IpAddress;
use crate::wire::ConnectRequest;

verus! {

/// The HTTP CONNECT success line: `HTTP/1.0 200 OK` and a blank line.
pub open spec fn http_ok_bytes() -> Seq<u8> {
    seq![72u8, 84, 84, 80, 47, 49, 46, 48, 32, 50, 48, 48, 32, 79, 75, 13, 10, 13, 10]
}

/// The SOCKS4 success reply: `00 5A` and six zero bytes.
pub open spec fn socks_ok_bytes() -> Seq<u8> {
    seq![0u8, 0x5au8, 0u8, 0u8, 0u8, 0u8, 0u8, 0u8]
}

/// The SOCKS4 rejection written on a resolution failure: `00 5B` and six
/// zero bytes.
pub open spec fn socks_reject_bytes() -> Seq<u8> {
    seq![0u8, 0x5bu8, 0u8, 0u8, 0u8, 0u8, 0u8, 0u8]
}

pub fn http_ok_reply() -> (r: Vec<u8>)
    ensures
        r@ == http_ok_bytes(),
{
    let mut r: Vec<u8> = Vec::new();
    r.push(72);
    r.push(84);
    r.push(84);
    r.push(80);
    r.push(47);
    r.push(49);
    r.push(46);
    r.push(48);
    r.push(32);
    r.push(50);
    r.push(48);
    r.push(48);
    r.push(32);
    r.push(79);
    r.push(75);
    r.push(13);
    r.push(10);
    r.push(13);
    r.push(10);
    assert(r@ =~= http_ok_bytes());
    r
}

fn eight_byte_reply(second: u8) -> (r: Vec<u8>)
    ensures
        r@ == seq![0u8, second, 0u8, 0u8, 0u8, 0u8, 0u8, 0u8],
{
    let mut r: Vec<u8> = Vec::new();
    r.push(0);
    r.push(second);
    r.push(0);
    r.push(0);
    r.push(0);
    r.push(0);
    r.push(0);
    r.push(0);
    assert(r@ =~= seq![0u8, second, 0u8, 0u8, 0u8, 0u8, 0u8, 0u8]);
    r
}

pub fn socks_ok_reply() -> (r: Vec<u8>)
    ensures
        r@ == socks_ok_bytes(),
{
    eight_byte_reply(0x5a)
}

pub fn socks_reject_reply() -> (r: Vec<u8>)
    ensures
        r@ == socks_reject_bytes(),
{
    eight_byte_reply(0x5b)
}

/// What a diagnostic GET is answered with: the product banner on `/`, a
/// small JSON document on `/healthcheck`, and a 404 line on anything else.
pub open spec fn spec_diag(path: Seq<char>) -> Seq<char> {
    if path == "/"@ {
        "HTTP/1.0 200 OK\r\n\r\nkubetunnel"@
    } else if path == "/healthcheck"@ {
        "HTTP/1.0 200 OK\r\nContent-Type: application/json\r\n\r\n{\"ok\":true}"@
    } else {
        "HTTP/1.0 404 NO\r\n\r\n"@
    }
}

/// The inline answer to a diagnostic GET.
pub fn diagnostic_reply(path: &String) -> (r: String)
    ensures
        r@ == spec_diag(path@),
{
    if *path == String::from_str("/") {
        String::from_str("HTTP/1.0 200 OK\r\n\r\nkubetunnel")
    } else if *path == String::from_str("/healthcheck") {
        String::from_str("HTTP/1.0 200 OK\r\nContent-Type: application/json\r\n\r\n{\"ok\":true}")
    } else {
        String::from_str("HTTP/1.0 404 NO\r\n\r\n")
    }
}

/// What the worker owes the client once the handshake is parsed.
pub enum Plan {
    /// Answer the diagnostic request inline and close; nothing is
    /// resolved and nothing is dialed.
    Respond { reply: String },
    /// Dial the address the client gave, without resolution; on success
    /// write `ok_reply`, then relay.
    DialDirect { target: Target, ok_reply: Vec<u8> },
    /// Resolve the hostname and dial what it yields; on success write
    /// `ok_reply` once, then relay. When resolution fails, a SOCKS client
    /// is owed `reject_reply` and a clean close; an HTTP client is owed
    /// nothing and the worker fails.
    Resolve { hostname: String, port: u16, ok_reply: Vec<u8>, reject_reply: Option<Vec<u8>> },
}

/// The worker's plan for a parsed request.
///
/// A diagnostic GET is answered inline and alone; a successfully parsed
/// CONNECT is owed exactly one `HTTP/1.0 200 OK` line before any relayed
/// bytes; a served SOCKS4/4a connect is owed exactly the eight bytes
/// `00 5A 00 00 00 00 00 00` before any relayed bytes.
pub fn plan(req: ConnectRequest) -> (p: Plan)
    ensures
        match req {
            ConnectRequest::DiagnosticGet { path } => p matches Plan::Respond { reply } && reply@
                == spec_diag(path@),
            ConnectRequest::Http { hostname, port } => p matches Plan::Resolve {
                hostname: h,
                port: pt,
                ok_reply,
                reject_reply,
            } && h@ == hostname@ && pt == port && ok_reply@ == http_ok_bytes() && reject_reply
                is None,
            ConnectRequest::Socks4Host { hostname, port } => p matches Plan::Resolve {
                hostname: h,
                port: pt,
                ok_reply,
                reject_reply,
            } && h@ == hostname@ && pt == port && ok_reply@ == socks_ok_bytes() && (reject_reply
                matches Some(rr) && rr@ == socks_reject_bytes()),
            ConnectRequest::Socks4Ip { ipv4, port } => p matches Plan::DialDirect {
                target,
                ok_reply,
            } && target.ip matches IpAddress::V4(oc) && oc@ == ipv4@ && target.port == port
                && ok_reply@ == socks_ok_bytes(),
        },
{
    match req {
        ConnectRequest::DiagnosticGet { path } => Plan::Respond {
            reply: diagnostic_reply(&path),
        },
        ConnectRequest::Http { hostname, port } => Plan::Resolve {
            hostname,
            port,
            ok_reply: http_ok_reply(),
            reject_reply: None,
        },
        ConnectRequest::Socks4Host { hostname, port } => Plan::Resolve {
            hostname,
            port,
            ok_reply: socks_ok_reply(),
            reject_reply: Some(socks_reject_reply()),
        },
        ConnectRequest::Socks4Ip { ipv4, port } => Plan::DialDirect {
            target: Target { ip: IpAddress::V4(ipv4), port },
            ok_reply: socks_ok_reply(),
        },
    }
}

/// What the worker does once resolution has answered.
pub enum NextStep<E> {
    /// Dial the targets in order until one connects; on success write the
    /// plan's success reply, then relay.
    Dial { targets: Vec<Target> },
    /// Write this to the client and finish cleanly.
    WriteAndClose { reply: Vec<u8> },
    /// Fail the connection with the resolution error; the client is owed
    /// nothing.
    Fail { error: E },
}

/// Maps a resolution outcome to the worker's next step: a result is
/// dialed, and a failure falls back on the plan's rejection reply where
/// the protocol has one.
pub fn after_resolve<E>(
    reject_reply: Option<Vec<u8>>,
    outcome: Result<Vec<Target>, E>,
) -> (r: NextStep<E>)
    ensures
        match outcome {
            Ok(ts) => r matches NextStep::Dial { targets } && targets@ == ts@,
            Err(e) => match reject_reply {
                Some(rr) => r matches NextStep::WriteAndClose { reply } && reply@ == rr@,
                None => r matches NextStep::Fail { error } && error == e,
            },
        },
{
    match outcome {
        Ok(targets) => NextStep::Dial { targets },
        Err(error) => match reject_reply {
            Some(reply) => NextStep::WriteAndClose { reply },
            None => NextStep::Fail { error },
        },
    }
}

} // verus!
