use kubetunnel::wire::{frame_step, socks4a_marker_ip, ConnectRequest, FrameStep};

fn step(bytes: &[u8]) -> FrameStep {
    frame_step(&bytes.to_vec())
}

#[test]
fn socks4_legacy_direct_ip() {
    // CONNECT to 93.184.216.34:443, empty user id.
    let r = step(&[0x04, 0x01, 0x01, 0xBB, 0x5D, 0xB8, 0xD8, 0x22, 0x00]);
    match r {
        FrameStep::Request(ConnectRequest::Socks4Ip { ipv4, port }) => {
            assert_eq!(ipv4, [93, 184, 216, 34]);
            assert_eq!(port, 443);
        },
        _ => panic!("expected a direct SOCKS4 request"),
    }
}

#[test]
fn socks4a_hostname() {
    let mut bytes = vec![0x04, 0x01, 0x01, 0xBB, 0x00, 0x00, 0x00, 0x01, 0x00];
    bytes.extend_from_slice(b"example.com\0");
    match step(&bytes) {
        FrameStep::Request(ConnectRequest::Socks4Host { hostname, port }) => {
            assert_eq!(hostname, "example.com");
            assert_eq!(port, 443);
        },
        _ => panic!("expected a SOCKS4a hostname request"),
    }
}

#[test]
fn socks4a_hostname_utf8() {
    let mut bytes = vec![0x04, 0x01, 0x00, 0x50, 0x00, 0x00, 0x00, 0x07, 0x00];
    bytes.extend_from_slice("bücher.example\0".as_bytes());
    match step(&bytes) {
        FrameStep::Request(ConnectRequest::Socks4Host { hostname, port }) => {
            assert_eq!(hostname, "bücher.example");
            assert_eq!(port, 80);
        },
        _ => panic!("expected a SOCKS4a hostname request"),
    }
}

#[test]
fn socks4a_invalid_utf8_is_malformed() {
    let bytes = vec![
        0x04, 0x01, 0x00, 0x50, 0x00, 0x00, 0x00, 0x01, 0x00, 0xFF, 0xFE, 0x00,
    ];
    assert!(matches!(step(&bytes), FrameStep::Malformed));
}

#[test]
fn socks4_bad_command_is_rejected() {
    // BIND (0x02) instead of CONNECT: reply echoes port and address bytes.
    let r = step(&[0x04, 0x02, 0x01, 0xBB, 0x5D, 0xB8, 0xD8, 0x22, 0x00]);
    match r {
        FrameStep::SocksReject { reply } => {
            assert_eq!(reply, vec![0x00, 0x5B, 0x01, 0xBB, 0x5D, 0xB8, 0xD8, 0x22]);
        },
        _ => panic!("expected a rejection"),
    }
}

#[test]
fn socks4_short_header_needs_more() {
    assert!(matches!(step(&[0x04, 0x01, 0x01]), FrameStep::NeedMore));
}

#[test]
fn socks4_unterminated_user_needs_more() {
    let r = step(&[0x04, 0x01, 0x01, 0xBB, 0x5D, 0xB8, 0xD8, 0x22]);
    assert!(matches!(r, FrameStep::NeedMore));
}

#[test]
fn socks4a_unterminated_hostname_needs_more() {
    let mut bytes = vec![0x04, 0x01, 0x01, 0xBB, 0x00, 0x00, 0x00, 0x01, 0x00];
    bytes.extend_from_slice(b"example");
    assert!(matches!(step(&bytes), FrameStep::NeedMore));
}

#[test]
fn socks4a_marker_range() {
    assert!(socks4a_marker_ip(&[0, 0, 0, 1]));
    assert!(socks4a_marker_ip(&[0, 0, 0, 255]));
    assert!(!socks4a_marker_ip(&[0, 0, 0, 0]));
    assert!(!socks4a_marker_ip(&[0, 0, 1, 1]));
    assert!(!socks4a_marker_ip(&[93, 184, 216, 34]));
}

#[test]
fn http_connect_with_headers() {
    let r = step(b"CONNECT example.com:443 HTTP/1.1\r\nHost: example.com:443\r\n\r\n");
    match r {
        FrameStep::Request(ConnectRequest::Http { hostname, port }) => {
            assert_eq!(hostname, "example.com");
            assert_eq!(port, 443);
        },
        _ => panic!("expected an HTTP CONNECT request"),
    }
}

#[test]
fn http_connect_ipv6_bracketed() {
    let r = step(b"CONNECT [::1]:8080 HTTP/1.1\r\n\r\n");
    match r {
        FrameStep::Request(ConnectRequest::Http { hostname, port }) => {
            assert_eq!(hostname, "[::1]");
            assert_eq!(port, 8080);
        },
        _ => panic!("expected an HTTP CONNECT request"),
    }
}

#[test]
fn http_partial_needs_more() {
    let r = step(b"CONNECT example.com:443 HTTP/1.1\r\nHost: exa");
    assert!(matches!(r, FrameStep::NeedMore));
}

#[test]
fn http_get_is_diagnostic() {
    match step(b"GET /healthcheck HTTP/1.1\r\n\r\n") {
        FrameStep::Request(ConnectRequest::DiagnosticGet { path }) => {
            assert_eq!(path, "/healthcheck");
        },
        _ => panic!("expected a diagnostic request"),
    }
}

#[test]
fn http_other_method_is_malformed() {
    // 'G' starts the HTTP path, but only CONNECT and GET are served.
    assert!(matches!(step(b"GRAB / HTTP/1.1\r\n\r\n"), FrameStep::Malformed));
}

#[test]
fn http_connect_without_port_is_malformed() {
    assert!(matches!(step(b"CONNECT example.com HTTP/1.1\r\n\r\n"), FrameStep::Malformed));
}

#[test]
fn http_connect_bad_port_is_malformed() {
    assert!(matches!(step(b"CONNECT example.com:https HTTP/1.1\r\n\r\n"), FrameStep::Malformed));
    assert!(matches!(step(b"CONNECT example.com: HTTP/1.1\r\n\r\n"), FrameStep::Malformed));
    assert!(matches!(step(b"CONNECT example.com:70000 HTTP/1.1\r\n\r\n"), FrameStep::Malformed));
}

#[test]
fn unknown_first_byte_is_malformed() {
    assert!(matches!(step(&[0x16, 0x03, 0x01]), FrameStep::Malformed));
    assert!(matches!(step(b"PUT / HTTP/1.1\r\n\r\n"), FrameStep::Malformed));
}
