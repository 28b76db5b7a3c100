//! Framing of the client handshake.
//!
//! The worker reads bytes from the client into a growing buffer and asks,
//! after every read, what the bytes so far mean. The answer is a
//! [`FrameStep`]: keep reading, a complete request, a SOCKS rejection to
//! write back, or a protocol error.

use vstd::prelude::*;
use vstd::utf8::{decode_utf8, valid_utf8};
use crate::text;

verus! {

/// A parsed client handshake.
pub enum ConnectRequest {
    /// An HTTP `CONNECT host:port` request.
    Http { hostname: String, port: u16 },
    /// A SOCKS4 connect to a literal IPv4 address.
    Socks4Ip { ipv4: [u8; 4], port: u16 },
    /// A SOCKS4a connect to a hostname.
    Socks4Host { hostname: String, port: u16 },
    /// An HTTP GET, answered inline for diagnostics; never proxied.
    DiagnosticGet { path: String },
}

/// What the bytes read so far mean.
pub enum FrameStep {
    /// The handshake is incomplete: read more bytes.
    NeedMore,
    /// A complete request.
    Request(ConnectRequest),
    /// A malformed SOCKS command: write this rejection to the client, then
    /// fail the connection.
    SocksReject { reply: Vec<u8> },
    /// A protocol error with nothing owed to the client.
    Malformed,
}

/// The position of the first NUL byte at or after `from`, if any.
pub open spec fn find_nul(b: Seq<u8>, from: int) -> Option<int>
    decreases b.len() - from,
{
    if from >= b.len() {
        None
    } else if b[from] == 0 {
        Some(from)
    } else {
        find_nul(b, from + 1)
    }
}

/// The SOCKS4a marker range: an IP of the form `0.0.0.x` with `x != 0`
/// announces that a hostname follows the user field.
pub open spec fn spec_socks4a_marker(ip: Seq<u8>) -> bool {
    ip[0] == 0 && ip[1] == 0 && ip[2] == 0 && ip[3] != 0
}

/// A sixteen-bit value read from two bytes in network order.
pub open spec fn be16(hi: u8, lo: u8) -> u16 {
    (hi * 256 + lo) as u16
}

/// A found NUL lies within the buffer, at or after the starting point.
proof fn lemma_find_nul_props(b: Seq<u8>, from: int)
    ensures
        find_nul(b, from) matches Some(i) ==> from <= i < b.len() && b[i] == 0,
    decreases b.len() - from,
{
    if from < b.len() && b[from] != 0 {
        lemma_find_nul_props(b, from + 1);
    }
}

fn find_nul_from(b: &Vec<u8>, from: usize) -> (r: Option<usize>)
    ensures
        r is None <==> find_nul(b@, from as int) is None,
        r matches Some(i) ==> find_nul(b@, from as int) == Some(i as int),
{
    let mut i: usize = from;
    while i < b.len()
        invariant
            from <= i,
            find_nul(b@, from as int) == find_nul(b@, i as int),
        decreases b@.len() - i,
    {
        if b[i] == 0 {
            return Some(i);
        }
        i += 1;
    }
    None
}

/// Whether the four header bytes announce a SOCKS4a hostname request.
pub fn socks4a_marker_ip(ip: &[u8; 4]) -> (r: bool)
    ensures
        r == spec_socks4a_marker(ip@),
{
    ip[0] == 0 && ip[1] == 0 && ip[2] == 0 && ip[3] != 0
}

/// What one step of the SOCKS4/4a parser owes on the bytes read so far.
///
/// The frame is `VER CMD PORT[2] IP[4] USER... NUL`, with, in the 4a marker
/// case, `HOSTNAME... NUL` after the user field. A command other than
/// connect is rejected with `00 5B` followed by the client's port and
/// address bytes; a hostname that is not UTF-8 is a protocol error.
pub open spec fn socks_frame_ok(b: Seq<u8>, r: FrameStep) -> bool {
    &&& b.len() < 8 ==> r is NeedMore
    &&& b.len() >= 8 && b[1] != 1 ==> (r matches FrameStep::SocksReject { reply } && reply@
        == seq![0u8, 0x5bu8] + b.subrange(2, 8))
    &&& b.len() >= 8 && b[1] == 1 ==> match find_nul(b, 8) {
        None => r is NeedMore,
        Some(un) => {
            if spec_socks4a_marker(b.subrange(4, 8)) {
                match find_nul(b, un + 1) {
                    None => r is NeedMore,
                    Some(hn) => {
                        let hb = b.subrange(un + 1, hn);
                        if valid_utf8(hb) {
                            r matches FrameStep::Request(q) && q
                                matches ConnectRequest::Socks4Host { hostname, port } && hostname@
                                == decode_utf8(hb) && port == be16(b[2], b[3])
                        } else {
                            r is Malformed
                        }
                    },
                }
            } else {
                r matches FrameStep::Request(q) && q matches ConnectRequest::Socks4Ip {
                    ipv4,
                    port,
                } && ipv4@ == b.subrange(4, 8) && port == be16(b[2], b[3])
            }
        },
    }
}

/// One step of the SOCKS4/4a handshake parser, on the bytes read so far.
pub fn socks_step(buf: &Vec<u8>) -> (r: FrameStep)
    requires
        buf@.len() >= 1,
        buf@[0] == 4,
    ensures
        socks_frame_ok(buf@, r),
{
    if buf.len() < 8 {
        return FrameStep::NeedMore;
    }
    if buf[1] != 1 {
        let mut reply: Vec<u8> = Vec::new();
        reply.push(0);
        reply.push(0x5b);
        let mut k: usize = 2;
        while k < 8
            invariant
                2 <= k <= 8,
                buf@.len() >= 8,
                reply@ == seq![0u8, 0x5bu8] + buf@.subrange(2, k as int),
            decreases 8 - k,
        {
            reply.push(buf[k]);
            assert(buf@.subrange(2, k + 1) =~= buf@.subrange(2, k as int).push(buf@[k as int]));
            k += 1;
        }
        return FrameStep::SocksReject { reply };
    }
    let user_nul = match find_nul_from(buf, 8) {
        Some(i) => i,
        None => {
            return FrameStep::NeedMore;
        },
    };
    proof {
        lemma_find_nul_props(buf@, 8);
    }
    let port: u16 = (buf[2] as u16) * 256 + (buf[3] as u16);
    let ipv4: [u8; 4] = [buf[4], buf[5], buf[6], buf[7]];
    assert(ipv4@ =~= buf@.subrange(4, 8));
    if socks4a_marker_ip(&ipv4) {
        let host_nul = match find_nul_from(buf, user_nul + 1) {
            Some(i) => i,
            None => {
                return FrameStep::NeedMore;
            },
        };
        proof {
            lemma_find_nul_props(buf@, user_nul + 1);
        }
        let mut host_bytes: Vec<u8> = Vec::new();
        let mut k: usize = user_nul + 1;
        while k < host_nul
            invariant
                user_nul + 1 <= k <= host_nul,
                host_nul < buf@.len(),
                host_bytes@ == buf@.subrange(user_nul + 1, k as int),
            decreases host_nul - k,
        {
            host_bytes.push(buf[k]);
            assert(buf@.subrange(user_nul + 1, k + 1) =~= buf@.subrange(
                user_nul + 1,
                k as int,
            ).push(buf@[k as int]));
            k += 1;
        }
        match text::string_from_utf8(host_bytes) {
            Some(hostname) => FrameStep::Request(ConnectRequest::Socks4Host { hostname, port }),
            None => FrameStep::Malformed,
        }
    } else {
        FrameStep::Request(ConnectRequest::Socks4Ip { ipv4, port })
    }
}

/// One step of the handshake parser, on the bytes read so far: the first
/// byte picks the protocol. `'C'` and `'G'` start an HTTP head, `0x04` a
/// SOCKS4/4a frame; any other first byte is a protocol error.
pub fn frame_step(buf: &Vec<u8>) -> (r: FrameStep)
    requires
        buf@.len() >= 1,
    ensures
        buf@[0] == 67 || buf@[0] == 71 ==> crate::http::http_frame_ok(buf@, r),
        buf@[0] == 4 ==> socks_frame_ok(buf@, r),
        buf@[0] != 67 && buf@[0] != 71 && buf@[0] != 4 ==> r is Malformed,
{
    let b0 = buf[0];
    if b0 == 67 || b0 == 71 {
        crate::http::http_step(buf)
    } else if b0 == 4 {
        socks_step(buf)
    } else {
        FrameStep::Malformed
    }
}

} // verus!

