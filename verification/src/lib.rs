//! Verified core of a small forwarding proxy for Kubernetes clusters.
//!
//! The crate holds the pure decision logic of the proxy: framing of the
//! client handshake (HTTP CONNECT, diagnostic GET, SOCKS4/4a), the
//! virtual-hostname router, the `Endpoints`-based resolver policy, the
//! DNS search-list construction, and the per-connection worker plan.
//! The sockets, the Kubernetes API transport and the DNS stub resolver
//! live outside the library and hand it plain values.

pub mod endpoints;
pub mod http;
pub mod ip;
pub mod resolve;
pub mod text;
pub mod wire;
pub mod worker;
