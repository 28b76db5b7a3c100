use kubetunnel::endpoints::{
    find_dns, pair_with_port, resolve_endpoints, EndpointSubset, ResolveError, Target,
};
use kubetunnel::ip::IpAddress;
use kubetunnel::resolve::{match_virtual, route, search_list, ResolveCtx, Route, VirtualKind};

fn subset(ports: &[i32], addresses: &[&str]) -> EndpointSubset {
    EndpointSubset {
        ports: ports.to_vec(),
        addresses: addresses.iter().map(|a| a.to_string()).collect(),
    }
}

fn ctx() -> ResolveCtx {
    ResolveCtx {
        cluster_local: "cluster.local".to_string(),
        default_namespace: "default".to_string(),
        dns_servers: vec![IpAddress::V4([10, 0, 0, 10])],
    }
}

#[test]
fn virtual_grammar_with_namespace() {
    let vh = match_virtual("svc-foo.prod.endpoints.local").expect("should match");
    assert_eq!(vh.name, "svc-foo");
    assert_eq!(vh.namespace.as_deref(), Some("prod"));
    assert_eq!(vh.kind, VirtualKind::Endpoints);
}

#[test]
fn virtual_grammar_without_namespace() {
    let vh = match_virtual("svc-foo.endpoints.local").expect("should match");
    assert_eq!(vh.name, "svc-foo");
    assert_eq!(vh.namespace, None);
    assert_eq!(vh.kind, VirtualKind::Endpoints);
}

#[test]
fn virtual_grammar_trailing_dot() {
    let vh = match_virtual("db.endpoints.local.").expect("should match");
    assert_eq!(vh.name, "db");
    assert_eq!(vh.namespace, None);
}

#[test]
fn virtual_grammar_reserved_kinds() {
    assert_eq!(match_virtual("a.pod.local").unwrap().kind, VirtualKind::Pod);
    assert_eq!(
        match_virtual("a.b.pod-by-name.local").unwrap().kind,
        VirtualKind::PodByName
    );
}

#[test]
fn virtual_grammar_rejects() {
    assert!(match_virtual("example.com").is_none());
    assert!(match_virtual("endpoints.local").is_none());
    assert!(match_virtual("a..endpoints.local").is_none());
    assert!(match_virtual("a.b.c.endpoints.local").is_none());
    assert!(match_virtual("a.services.local").is_none());
    assert!(match_virtual("a_b.endpoints.local").is_none());
    assert!(match_virtual("a.endpoints.local..").is_none());
    let long = "x".repeat(64);
    assert!(match_virtual(&format!("{}.endpoints.local", long)).is_none());
    assert!(match_virtual(&format!("{}.endpoints.local", "x".repeat(63))).is_some());
}

#[test]
fn route_virtual_hostname_to_api() {
    // A matching hostname goes to the Kubernetes API, never to DNS.
    match route("svc-foo.prod.endpoints.local", &"default".to_string()) {
        Route::Endpoints { namespace, name } => {
            assert_eq!(namespace, "prod");
            assert_eq!(name, "svc-foo");
        },
        _ => panic!("expected the endpoints route"),
    }
}

#[test]
fn route_fills_default_namespace() {
    match route("svc-foo.endpoints.local", &"default".to_string()) {
        Route::Endpoints { namespace, name } => {
            assert_eq!(namespace, "default");
            assert_eq!(name, "svc-foo");
        },
        _ => panic!("expected the endpoints route"),
    }
}

#[test]
fn route_other_hostnames_to_dns() {
    // A plain hostname goes to cluster DNS, never to the API.
    assert!(matches!(route("example.com", &"default".to_string()), Route::Dns));
    assert!(matches!(route("10.0.0.1", &"default".to_string()), Route::Dns));
}

#[test]
fn route_reserved_kind_fails() {
    assert!(matches!(route("a.pod.local", &"default".to_string()), Route::Reserved));
    assert!(matches!(
        route("a.b.pod-by-name.local", &"default".to_string()),
        Route::Reserved
    ));
}

#[test]
fn search_list_three_entries_in_order() {
    let list = search_list(&ctx());
    assert_eq!(
        list,
        vec![
            "default.svc.cluster.local".to_string(),
            "svc.cluster.local".to_string(),
            "cluster.local".to_string(),
        ]
    );
}

#[test]
fn endpoints_single_port_overrides() {
    // One distinct port and two addresses: both targets carry that port.
    let subsets = vec![subset(&[80], &["10.1.1.1", "10.1.1.2"])];
    let ts = resolve_endpoints(&subsets, 8080).expect("should resolve");
    assert_eq!(
        ts,
        vec![
            Target { ip: IpAddress::V4([10, 1, 1, 1]), port: 80 },
            Target { ip: IpAddress::V4([10, 1, 1, 2]), port: 80 },
        ]
    );
}

#[test]
fn endpoints_single_port_across_subsets() {
    let subsets = vec![
        subset(&[9090], &["10.1.1.1"]),
        subset(&[9090], &["10.2.2.2", "10.3.3.3"]),
    ];
    let ts = resolve_endpoints(&subsets, 1).expect("should resolve");
    assert_eq!(ts.len(), 3);
    assert!(ts.iter().all(|t| t.port == 9090));
}

#[test]
fn endpoints_many_ports_use_client_port() {
    let subsets = vec![subset(&[80, 443], &["10.1.1.1", "10.1.1.2"])];
    let ts = resolve_endpoints(&subsets, 8080).expect("should resolve");
    assert_eq!(ts.len(), 2);
    assert!(ts.iter().all(|t| t.port == 8080));
    assert_eq!(ts[0].ip, IpAddress::V4([10, 1, 1, 1]));
}

#[test]
fn endpoints_empty_results() {
    let no_ports = vec![subset(&[], &["10.1.1.1"])];
    assert_eq!(resolve_endpoints(&no_ports, 80).unwrap(), vec![]);
    let no_addrs = vec![subset(&[80], &[])];
    assert_eq!(resolve_endpoints(&no_addrs, 80).unwrap(), vec![]);
    let nothing: Vec<EndpointSubset> = vec![];
    assert_eq!(resolve_endpoints(&nothing, 80).unwrap(), vec![]);
}

#[test]
fn endpoints_bad_literal_fails() {
    let subsets = vec![subset(&[80], &["10.1.1.1", "not-an-ip"])];
    match resolve_endpoints(&subsets, 80) {
        Err(ResolveError::BadAddress { literal }) => assert_eq!(literal, "not-an-ip"),
        _ => panic!("expected a bad-address error"),
    }
}

#[test]
fn endpoints_oversized_port_fails() {
    let subsets = vec![subset(&[70000], &["10.1.1.1"])];
    match resolve_endpoints(&subsets, 80) {
        Err(ResolveError::BadPort { port }) => assert_eq!(port, 70000),
        _ => panic!("expected a bad-port error"),
    }
}

#[test]
fn endpoints_ipv6_addresses() {
    let subsets = vec![subset(&[53], &["fd00::1"])];
    let ts = resolve_endpoints(&subsets, 1).expect("should resolve");
    assert_eq!(
        ts,
        vec![Target { ip: IpAddress::V6([0xfd00, 0, 0, 0, 0, 0, 0, 1]), port: 53 }]
    );
}

#[test]
fn dns_bootstrap_filters_port_53() {
    let subsets = vec![
        subset(&[53], &["10.0.0.10"]),
        subset(&[9153], &["10.0.0.99"]),
        subset(&[53, 9153], &["10.0.0.11"]),
    ];
    let ips = find_dns(&subsets).expect("should parse");
    assert_eq!(
        ips,
        vec![IpAddress::V4([10, 0, 0, 10]), IpAddress::V4([10, 0, 0, 11])]
    );
}

#[test]
fn dns_bootstrap_deduplicates_in_order() {
    let subsets = vec![
        subset(&[53], &["10.0.0.10", "10.0.0.11"]),
        subset(&[53], &["10.0.0.10", "10.0.0.12"]),
    ];
    let ips = find_dns(&subsets).expect("should parse");
    assert_eq!(
        ips,
        vec![
            IpAddress::V4([10, 0, 0, 10]),
            IpAddress::V4([10, 0, 0, 11]),
            IpAddress::V4([10, 0, 0, 12]),
        ]
    );
}

#[test]
fn dns_bootstrap_empty_and_bad() {
    let nothing: Vec<EndpointSubset> = vec![];
    assert_eq!(find_dns(&nothing).unwrap(), vec![]);
    let skipped = vec![subset(&[9153], &["bad-literal"])];
    assert_eq!(find_dns(&skipped).unwrap(), vec![]);
    let bad = vec![subset(&[53], &["bad-literal"])];
    assert!(matches!(
        find_dns(&bad),
        Err(ResolveError::BadAddress { .. })
    ));
}

#[test]
fn dns_results_pair_with_client_port() {
    let ips = vec![IpAddress::V4([93, 184, 216, 34]), IpAddress::V6([0, 0, 0, 0, 0, 0, 0, 1])];
    let ts = pair_with_port(ips, 443);
    assert_eq!(
        ts,
        vec![
            Target { ip: IpAddress::V4([93, 184, 216, 34]), port: 443 },
            Target { ip: IpAddress::V6([0, 0, 0, 0, 0, 0, 0, 1]), port: 443 },
        ]
    );
}
