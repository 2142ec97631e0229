use lcn::network::{generate_subnet_ips, Ipv4Addr};
use lcn::scanner::{info_url, probe_target, sort_by_address, text_le_exec, HostStep, Scan};
use lcn::{HostInfo, LCN_PORT, MAX_CONCURRENT_SCANS};

fn rec(name: &str, addr: &str) -> HostInfo {
    HostInfo { hostname: name.to_string(), hostipv4: addr.to_string() }
}

#[test]
fn probe_target_and_info_url_texts() {
    let ip = Ipv4Addr::new(192, 168, 1, 20);
    assert_eq!(probe_target(ip, LCN_PORT), "192.168.1.20:7979");
    assert_eq!(info_url(ip, LCN_PORT), "http://192.168.1.20:7979/hostinfo");
    assert_eq!(probe_target(Ipv4Addr::new(0, 0, 0, 0), 0), "0.0.0.0:0");
    assert_eq!(probe_target(Ipv4Addr::new(1, 1, 1, 1), 65535), "1.1.1.1:65535");
}

#[test]
fn text_order_is_lexicographic_not_numeric() {
    let a = "10.0.0.10".to_string();
    let b = "10.0.0.2".to_string();
    assert!(text_le_exec(&a, &b));
    assert!(!text_le_exec(&b, &a));
    assert!(text_le_exec(&a, &a));
    assert!(text_le_exec(&"10.0.0".to_string(), &a));
    assert!(!text_le_exec(&a, &"10.0.0".to_string()));
}

#[test]
fn sort_orders_by_address_text() {
    let v = vec![rec("b", "10.0.0.2"), rec("c", "10.0.0.3"), rec("a", "10.0.0.10")];
    let r = sort_by_address(v);
    let addrs: Vec<&str> = r.iter().map(|h| h.hostipv4.as_str()).collect();
    assert_eq!(addrs, vec!["10.0.0.10", "10.0.0.2", "10.0.0.3"]);
    assert_eq!(r[0].hostname, "a");
}

#[test]
fn sort_keeps_order_of_equal_addresses_and_handles_empty() {
    let r = sort_by_address(vec![rec("x", "10.0.0.5"), rec("w", "10.0.0.1"), rec("y", "10.0.0.5")]);
    let names: Vec<&str> = r.iter().map(|h| h.hostname.as_str()).collect();
    assert_eq!(names, vec!["w", "x", "y"]);
    assert!(sort_by_address(Vec::new()).is_empty());
}

#[test]
fn host_steps_probe_then_fetch_only_when_reachable() {
    assert!(matches!(HostStep::start(), HostStep::Probe));
    assert!(matches!(HostStep::after_probe(true), HostStep::Fetch));
    assert!(matches!(HostStep::after_probe(false), HostStep::Done(None)));
    match HostStep::after_fetch(Some(rec("h", "10.0.0.1"))) {
        HostStep::Done(Some(h)) => assert_eq!(h.hostname, "h"),
        _ => panic!("expected a record"),
    }
    assert!(matches!(HostStep::after_fetch(None), HostStep::Done(None)));
}

#[test]
fn scan_never_exceeds_ceiling() {
    let ips = generate_subnet_ips(Ipv4Addr::new(192, 168, 1, 100));
    let mut scan = Scan::new(ips, 3);
    let mut started: Vec<Ipv4Addr> = Vec::new();
    let mut peak = 0;
    while !scan.is_finished() {
        while let Some(ip) = scan.start_next() {
            started.push(ip);
            assert!(scan.in_flight() <= scan.ceiling());
            peak = peak.max(scan.in_flight());
        }
        assert_eq!(scan.start_next(), None);
        scan.complete(None);
    }
    assert_eq!(peak, 3);
    assert_eq!(started.len(), 254);
    assert_eq!(started[0], Ipv4Addr::new(192, 168, 1, 1));
    assert_eq!(started[253], Ipv4Addr::new(192, 168, 1, 254));
}

#[test]
fn scan_with_nothing_reachable_is_empty() {
    let ips = generate_subnet_ips(Ipv4Addr::new(10, 9, 8, 7));
    let mut scan = Scan::new(ips, MAX_CONCURRENT_SCANS);
    while !scan.is_finished() {
        while scan.start_next().is_some() {}
        scan.complete(None);
    }
    assert!(scan.finish().is_empty());
}

#[test]
fn scan_collects_records_sorted_by_address_text() {
    let ips = vec![
        Ipv4Addr::new(10, 0, 0, 2),
        Ipv4Addr::new(10, 0, 0, 3),
        Ipv4Addr::new(10, 0, 0, 10),
    ];
    let mut scan = Scan::new(ips, 2);
    assert_eq!(scan.start_next(), Some(Ipv4Addr::new(10, 0, 0, 2)));
    assert_eq!(scan.start_next(), Some(Ipv4Addr::new(10, 0, 0, 3)));
    assert_eq!(scan.start_next(), None);
    scan.complete(Some(rec("two", "10.0.0.2")));
    assert_eq!(scan.start_next(), Some(Ipv4Addr::new(10, 0, 0, 10)));
    scan.complete(None);
    scan.complete(Some(rec("ten", "10.0.0.10")));
    assert!(scan.is_finished());
    let r = scan.finish();
    let addrs: Vec<&str> = r.iter().map(|h| h.hostipv4.as_str()).collect();
    assert_eq!(addrs, vec!["10.0.0.10", "10.0.0.2"]);
}
