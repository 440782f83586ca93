use surreal_tooling::net::{
    parse_filters, plan_entry, plan_from, port_after_last_colon, UrlHost, parse_port, socket_allowed, EntryPlan, IpAddress, IpNetwork,
    NetFilter, SocketAddress,
};

fn v4(a: u8, b: u8, c: u8, d: u8) -> IpAddress {
    IpAddress::V4(u32::from_be_bytes([a, b, c, d]))
}

fn sock(ip: IpAddress, port: u16) -> SocketAddress {
    SocketAddress { ip, port }
}

#[test]
fn parse_ip_address() {
    let filters = parse_filters(&["192.168.1.1".into()], &[Some(v4(192, 168, 1, 1))], &[vec![]]);
    assert_eq!(filters.len(), 1);
    assert!(filters[0].matches(&sock(v4(192, 168, 1, 1), 8080)));
    assert!(!filters[0].matches(&sock(v4(10, 0, 0, 1), 80)));
}

#[test]
fn parse_cidr() {
    let filters = parse_filters(&["10.0.0.0/8".into()], &[None], &[vec![]]);
    assert_eq!(filters.len(), 1);
    assert!(filters[0].matches(&sock(v4(10, 1, 2, 3), 443)));
    assert!(!filters[0].matches(&sock(v4(192, 168, 1, 1), 443)));
}

#[test]
fn parse_ip_with_port() {
    let filters = parse_filters(&["192.168.1.1:80".into()], &[None], &[vec![]]);
    assert_eq!(filters.len(), 1);
    assert!(filters[0].matches(&sock(v4(192, 168, 1, 1), 80)));
    assert!(!filters[0].matches(&sock(v4(192, 168, 1, 1), 443)));
}

#[test]
fn cidr_keeps_host_bits_and_prefix() {
    match plan_entry("10.1.2.3/16", None) {
        EntryPlan::Filter(NetFilter::Net(net)) => {
            assert_eq!(net, IpNetwork { addr: v4(10, 1, 2, 3), prefix_len: 16 });
        }
        _ => panic!("expected a network"),
    }
    let f = NetFilter::Net(IpNetwork { addr: v4(10, 1, 2, 3), prefix_len: 16 });
    assert!(f.matches(&sock(v4(10, 1, 255, 255), 1)));
    assert!(!f.matches(&sock(v4(10, 2, 0, 0), 1)));
    let all = NetFilter::Net(IpNetwork { addr: v4(0, 0, 0, 0), prefix_len: 0 });
    assert!(all.matches(&sock(v4(255, 255, 255, 255), 9)));
    assert!(!all.matches(&sock(IpAddress::V6(1), 9)));
}

#[test]
fn ipv6_entries() {
    match plan_entry("fd00::/8", None) {
        EntryPlan::Filter(NetFilter::Net(net)) => {
            assert_eq!(net.prefix_len, 8);
            assert!(NetFilter::Net(net).matches(&sock(IpAddress::V6(0xfd12u128 << 112), 1)));
            assert!(!NetFilter::Net(net).matches(&sock(IpAddress::V6(1), 1)));
        }
        _ => panic!("expected a network"),
    }
    match plan_entry("[::1]:8080", None) {
        EntryPlan::Filter(f) => assert_eq!(f, NetFilter::IpPort(IpAddress::V6(1), 8080)),
        _ => panic!("expected an address with port"),
    }
}

#[test]
fn domains_are_resolved_later() {
    match plan_entry("example.com:443", None) {
        EntryPlan::Resolve { host, port } => {
            assert_eq!(host, "example.com");
            assert_eq!(port, Some(443));
        }
        _ => panic!("expected a host to resolve"),
    }
    match plan_entry("example.com", None) {
        EntryPlan::Resolve { host, port } => {
            assert_eq!(host, "example.com");
            assert_eq!(port, None);
        }
        _ => panic!("expected a host to resolve"),
    }
    let filters = parse_filters(
        &["example.com:443".into(), "10.0.0.1".into()],
        &[None, Some(v4(10, 0, 0, 1))],
        &[vec![v4(93, 184, 216, 34), v4(93, 184, 216, 35)], vec![]],
    );
    assert_eq!(filters.len(), 3);
    assert_eq!(filters[0], NetFilter::IpPort(v4(93, 184, 216, 34), 443));
    assert_eq!(filters[1], NetFilter::IpPort(v4(93, 184, 216, 35), 443));
    assert_eq!(filters[2], NetFilter::Net(IpNetwork { addr: v4(10, 0, 0, 1), prefix_len: 32 }));
}

#[test]
fn invalid_entries_are_dropped() {
    assert!(matches!(plan_entry("[zz", None), EntryPlan::Invalid));
    let filters = parse_filters(&["[zz".into()], &[None], &[vec![]]);
    assert!(filters.is_empty());
}

#[test]
fn ports_after_last_colon() {
    assert_eq!(port_after_last_colon("192.168.1.1:80"), Some(80));
    assert_eq!(port_after_last_colon("host"), None);
    assert_eq!(port_after_last_colon("host:+8080"), Some(8080));
    assert_eq!(port_after_last_colon("host:65536"), None);
    assert_eq!(port_after_last_colon("[::1]"), None);
    assert_eq!(parse_port("0065535"), Some(65535));
    assert_eq!(parse_port("+"), None);
    assert_eq!(parse_port(""), None);
    assert_eq!(parse_port("-1"), None);
}

#[test]
fn allow_list_check() {
    let filters = vec![
        NetFilter::IpPort(v4(1, 2, 3, 4), 80),
        NetFilter::Net(IpNetwork { addr: v4(192, 168, 0, 0), prefix_len: 16 }),
    ];
    assert!(socket_allowed(&filters, &sock(v4(1, 2, 3, 4), 80)));
    assert!(!socket_allowed(&filters, &sock(v4(1, 2, 3, 4), 81)));
    assert!(socket_allowed(&filters, &sock(v4(192, 168, 7, 9), 1)));
    assert!(!socket_allowed(&[], &sock(v4(192, 168, 7, 9), 1)));
}

#[test]
fn plans_from_parser_results() {
    let net = IpNetwork { addr: v4(10, 0, 0, 0), prefix_len: 8 };
    assert!(matches!(plan_from("anything", Some(net), None, None), EntryPlan::Filter(NetFilter::Net(n)) if n == net));
    match plan_from("x", None, Some(v4(1, 2, 3, 4)), None) {
        EntryPlan::Filter(NetFilter::Net(n)) => assert_eq!(n, IpNetwork { addr: v4(1, 2, 3, 4), prefix_len: 32 }),
        _ => panic!("expected a single-host network"),
    }
    assert!(matches!(plan_from("x", None, None, None), EntryPlan::Invalid));
    assert!(matches!(plan_from("x", None, None, Some(None)), EntryPlan::NoHost));
    match plan_from("10.1.1.1:443", None, None, Some(Some(UrlHost::Ipv4(u32::from_be_bytes([10, 1, 1, 1]))))) {
        EntryPlan::Filter(NetFilter::IpPort(ip, port)) => assert_eq!((ip, port), (v4(10, 1, 1, 1), 443)),
        _ => panic!("expected an address with a port"),
    }
    match plan_from("db.local:80", None, None, Some(Some(UrlHost::Domain("db.local".to_string())))) {
        EntryPlan::Resolve { host, port } => assert_eq!((host.as_str(), port), ("db.local", Some(80))),
        _ => panic!("expected a host to resolve"),
    }
    match plan_from("db.local", None, None, Some(Some(UrlHost::Domain("db.local".to_string())))) {
        EntryPlan::Resolve { port, .. } => assert_eq!(port, None),
        _ => panic!("expected a host to resolve"),
    }
}
