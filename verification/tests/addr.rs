use kubetunnel::http::split_host_port;
use kubetunnel::ip::{parse_ip, IpAddress};
use kubetunnel::text::parse_port;

fn ip(s: &str) -> Option<IpAddress> {
    parse_ip(&s.to_string())
}

#[test]
fn ipv4_literals() {
    assert_eq!(ip("93.184.216.34"), Some(IpAddress::V4([93, 184, 216, 34])));
    assert_eq!(ip("0.0.0.0"), Some(IpAddress::V4([0, 0, 0, 0])));
    assert_eq!(ip("255.255.255.255"), Some(IpAddress::V4([255, 255, 255, 255])));
    assert_eq!(ip("10.1.1.2"), Some(IpAddress::V4([10, 1, 1, 2])));
}

#[test]
fn ipv4_rejects() {
    assert_eq!(ip("256.1.1.1"), None);
    assert_eq!(ip("01.2.3.4"), None);
    assert_eq!(ip("1.2.3"), None);
    assert_eq!(ip("1.2.3.4.5"), None);
    assert_eq!(ip("1.2.3."), None);
    assert_eq!(ip(""), None);
    assert_eq!(ip("example.com"), None);
}

#[test]
fn ipv6_full_form() {
    assert_eq!(
        ip("1:2:3:4:5:6:7:8"),
        Some(IpAddress::V6([1, 2, 3, 4, 5, 6, 7, 8]))
    );
    assert_eq!(
        ip("fe80:0:0:0:0:0:0:1"),
        Some(IpAddress::V6([0xfe80, 0, 0, 0, 0, 0, 0, 1]))
    );
    assert_eq!(
        ip("ABCD:ef01:0:0:0:0:0:0"),
        Some(IpAddress::V6([0xabcd, 0xef01, 0, 0, 0, 0, 0, 0]))
    );
}

#[test]
fn ipv6_compressed() {
    assert_eq!(ip("::1"), Some(IpAddress::V6([0, 0, 0, 0, 0, 0, 0, 1])));
    assert_eq!(ip("::"), Some(IpAddress::V6([0, 0, 0, 0, 0, 0, 0, 0])));
    assert_eq!(ip("1::"), Some(IpAddress::V6([1, 0, 0, 0, 0, 0, 0, 0])));
    assert_eq!(ip("1::8"), Some(IpAddress::V6([1, 0, 0, 0, 0, 0, 0, 8])));
    assert_eq!(
        ip("1:2:3:4:5:6:7::"),
        Some(IpAddress::V6([1, 2, 3, 4, 5, 6, 7, 0]))
    );
}

#[test]
fn ipv6_embedded_ipv4() {
    assert_eq!(
        ip("::ffff:192.168.0.1"),
        Some(IpAddress::V6([0, 0, 0, 0, 0, 0xffff, 0xc0a8, 0x0001]))
    );
    assert_eq!(
        ip("1:2:3:4:5:6:1.2.3.4"),
        Some(IpAddress::V6([1, 2, 3, 4, 5, 6, 0x0102, 0x0304]))
    );
}

#[test]
fn ipv6_rejects() {
    assert_eq!(ip("1::2::3"), None);
    assert_eq!(ip(":::"), None);
    assert_eq!(ip(":1:2:3:4:5:6:7"), None);
    assert_eq!(ip("1:2:3:4:5:6:7"), None);
    assert_eq!(ip("1:2:3:4:5:6:7:8:9"), None);
    assert_eq!(ip("::1:2:3:4:5:6:7:8"), None);
    assert_eq!(ip("12345::"), None);
    assert_eq!(ip("g::1"), None);
    assert_eq!(ip("1:2:3:4:5:6:7:1.2.3.4"), None);
    assert_eq!(ip("1.2.3.4::"), None);
}

#[test]
fn port_strings() {
    assert_eq!(parse_port(&"443".chars().collect()), Some(443));
    assert_eq!(parse_port(&"65535".chars().collect()), Some(65535));
    assert_eq!(parse_port(&"65536".chars().collect()), None);
    assert_eq!(parse_port(&"007".chars().collect()), Some(7));
    assert_eq!(parse_port(&"+81".chars().collect()), Some(81));
    assert_eq!(parse_port(&"".chars().collect()), None);
    assert_eq!(parse_port(&"+".chars().collect()), None);
    assert_eq!(parse_port(&"4 3".chars().collect()), None);
    assert_eq!(parse_port(&"-1".chars().collect()), None);
    assert_eq!(parse_port(&"0".chars().collect()), Some(0));
}

#[test]
fn host_port_split_on_last_colon() {
    assert_eq!(
        split_host_port("example.com:443"),
        Some(("example.com".to_string(), 443))
    );
    assert_eq!(split_host_port("[::1]:8080"), Some(("[::1]".to_string(), 8080)));
    assert_eq!(split_host_port("a:b:90"), Some(("a:b".to_string(), 90)));
    assert_eq!(split_host_port(":90"), Some(("".to_string(), 90)));
    assert_eq!(split_host_port("example.com"), None);
    assert_eq!(split_host_port("example.com:"), None);
    assert_eq!(split_host_port("example.com:https"), None);
}

#[test]
fn char_vector_round_trip() {
    let s = "svc-foo.prod.endpoints.local";
    let cs = kubetunnel::text::str_chars(s);
    assert_eq!(cs, s.chars().collect::<Vec<char>>());
    assert_eq!(kubetunnel::text::chars_string(&cs), s);
    let multi = "bücher.例";
    let cs = kubetunnel::text::str_chars(multi);
    assert_eq!(kubetunnel::text::chars_string(&cs), multi);
}

#[test]
fn splitting_keeps_empty_parts() {
    let cs: Vec<char> = "a..b.".chars().collect();
    let parts = kubetunnel::text::split_chars(&cs, '.');
    let words: Vec<String> = parts.iter().map(|p| p.iter().collect()).collect();
    assert_eq!(words, vec!["a", "", "b", ""]);
    let empty: Vec<char> = Vec::new();
    assert_eq!(kubetunnel::text::split_chars(&empty, '.').len(), 1);
}
