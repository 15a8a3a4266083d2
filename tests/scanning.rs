use webshot::config::{AddressFamily, Protocol, ScanConfig};
use webshot::dns::{IpAddresses, IpType, ResolveError};
use webshot::scanner::{AdmissionGate, NetworkScanner, RunCollector};
use webshot::types::{ScanResult, ScanSummary};

#[test]
fn test_config_defaults() {
    let config = ScanConfig::default();
    assert_eq!(config.target, "127.0.0.1");
    assert_eq!(config.protocol.as_str(), "TCP");
    assert_eq!(
        std::time::Duration::from_millis(config.timeout_ms),
        std::time::Duration::from_secs(5)
    );
    assert_eq!(config.concurrency, 100);
    assert!(!config.random_agent);
    assert!(!config.json_output);
    assert!(config.total_ports() > 0);
}

#[test]
fn test_config_builder_pattern() {
    let config = ScanConfig::new("127.0.0.1".to_string())
        .with_ports(vec![80, 443])
        .with_protocol(Protocol::Tcp)
        .with_timeout(5000)
        .with_concurrency(50)
        .with_random_agent(true)
        .with_json_output(true);

    assert_eq!(config.target, "127.0.0.1");
    assert_eq!(config.ports, vec![80, 443]);
    assert_eq!(config.protocol.as_str(), "TCP");
    assert_eq!(
        std::time::Duration::from_millis(config.timeout_ms),
        std::time::Duration::from_secs(5)
    );
    assert_eq!(config.concurrency, 50);
    assert!(config.random_agent);
    assert!(config.json_output);
    assert_eq!(config.total_ports(), 2);
    assert!(config.is_tcp());
    assert!(!config.is_udp());
}

#[test]
fn test_scan_result_creation() {
    let result = ScanResult::open(
        80,
        "TCP".to_string(),
        "HTTP Server".to_string(),
        "HTTP/1.1 200 OK".to_string(),
        None,
        Some("example.com".to_string()),
    );

    assert_eq!(result.port, 80);
    assert_eq!(result.protocol, "TCP");
    assert!(result.is_open);
    assert_eq!(result.service, "HTTP Server");
    assert_eq!(result.banner, "HTTP/1.1 200 OK");
    assert!(result.target_ip.is_none());
    assert_eq!(result.hostname, Some("example.com".to_string()));
    assert!(result.timestamp_ms > 1_500_000_000_000);

    let closed_result = ScanResult::closed(81, "TCP".to_string(), None, None);

    assert_eq!(closed_result.port, 81);
    assert_eq!(closed_result.protocol, "TCP");
    assert!(!closed_result.is_open);
    assert_eq!(closed_result.service, "Closed");
    assert_eq!(closed_result.banner, "");
}

#[test]
fn test_scan_summary() {
    let summary = ScanSummary::new("127.0.0.1".to_string(), "TCP".to_string(), 1000);

    assert_eq!(summary.total_ports, 1000);
    assert_eq!(summary.open_ports, 0);
    assert_eq!(summary.closed_ports, 0);
    assert_eq!(summary.filtered_ports, 0);
    assert_eq!(summary.target, "127.0.0.1");
    assert_eq!(summary.protocol, "TCP");

    let completed_summary = summary.complete(50, 900, 50);
    assert_eq!(completed_summary.open_ports, 50);
    assert_eq!(completed_summary.closed_ports, 900);
    assert_eq!(completed_summary.filtered_ports, 50);
    assert_eq!(completed_summary.success_rate_hundredths() as f64 / 100.0, 5.0);
}

#[test]
fn success_rate_of_empty_scan_is_zero() {
    let s = ScanSummary::new("h".to_string(), "UDP".to_string(), 0).complete(0, 0, 0);
    assert_eq!(s.success_rate_hundredths(), 0);
    let t = ScanSummary::new("h".to_string(), "UDP".to_string(), 3).complete(1, 2, 0);
    assert_eq!(t.success_rate_hundredths(), 3333);
    assert!(t.end_time_ms >= t.start_time_ms);
}

#[test]
fn scanner_for_ip_literal_and_names() {
    let s = NetworkScanner::for_ip_literal(ScanConfig::new("10.1.2.3".to_string()));
    assert_eq!(s.target_ip(), Some(&"10.1.2.3".to_string()));
    assert!(s.hostname().is_none());
    assert_eq!(s.config().target, "10.1.2.3");

    let addrs = IpAddresses {
        ipv4: Some(IpType::V4("127.0.0.1".to_string())),
        ipv6: Some(IpType::V6("::1".to_string())),
    };
    let tcp = NetworkScanner::for_resolved(ScanConfig::new("localhost".to_string()), &addrs).unwrap();
    assert_eq!(tcp.target_ip(), Some(&"127.0.0.1".to_string()));
    assert_eq!(tcp.hostname(), Some(&"localhost".to_string()));
    let udp = NetworkScanner::for_resolved(
        ScanConfig::new("localhost".to_string()).with_protocol(Protocol::Udp),
        &addrs,
    )
    .unwrap();
    assert_eq!(udp.target_ip(), Some(&"::1".to_string()));
    let chosen = NetworkScanner::for_resolved(
        ScanConfig::new("localhost".to_string())
            .with_protocol(Protocol::Udp)
            .with_address_family(AddressFamily::V4),
        &addrs,
    )
    .unwrap();
    assert_eq!(chosen.target_ip(), Some(&"127.0.0.1".to_string()));

    let v6_only = IpAddresses { ipv4: None, ipv6: Some(IpType::V6("::1".to_string())) };
    assert!(matches!(
        NetworkScanner::for_resolved(ScanConfig::new("h".to_string()), &v6_only),
        Err(ResolveError::NoUsableAddress)
    ));
}

#[test]
fn admission_gate_never_exceeds_limit() {
    let mut gate = AdmissionGate::new(3);
    let mut admitted = 0;
    for _ in 0..10 {
        if gate.try_acquire() {
            admitted += 1;
        }
        assert!(gate.in_flight() <= gate.limit());
    }
    assert_eq!(admitted, 3);
    assert!(!gate.try_acquire());
    gate.release();
    assert_eq!(gate.in_flight(), 2);
    assert!(gate.try_acquire());
    assert_eq!(gate.in_flight(), 3);
}

#[test]
fn refusing_target_gives_closed_entries_only_when_shown() {
    let ports: Vec<u16> = vec![1, 2, 3, 4, 5];
    let mut hidden = RunCollector::new(Protocol::Tcp, false, None);
    let mut shown = RunCollector::new(Protocol::Tcp, true, None);
    for &p in &ports {
        hidden.record(p, None);
        shown.record(p, None);
    }
    assert_eq!(hidden.missed_count(), 5);
    assert_eq!(hidden.into_results().len(), 0);
    let results = shown.into_results();
    assert_eq!(results.len(), ports.len());
    assert!(results.iter().all(|r| !r.is_open && r.service == "Closed" && r.banner.is_empty()));
    assert_eq!(results.iter().map(|r| r.port).collect::<Vec<_>>(), ports);
}

#[test]
fn collector_records_hits_and_summary() {
    let config = ScanConfig::new("example.com".to_string()).with_ports(vec![22, 80, 81]);
    let mut c = RunCollector::new(Protocol::Tcp, false, Some("example.com".to_string()));
    c.record(22, Some((22, "SSH-2.0".to_string(), "SSH".to_string())));
    c.record(80, None);
    c.record(81, Some((81, "Accepts Connections".to_string(), "HTTP Alternative".to_string())));
    assert_eq!(c.open_count(), 2);
    assert_eq!(c.missed_count(), 1);
    let summary = c.summary(&config);
    assert_eq!(summary.total_ports, 3);
    assert_eq!(summary.open_ports, 2);
    assert_eq!(summary.closed_ports, 1);
    assert_eq!(summary.protocol, "TCP");
    assert_eq!(summary.success_rate_hundredths(), 6666);
    let results = c.into_results();
    assert_eq!(results.len(), 2);
    assert_eq!(results[0].service, "SSH");
    assert_eq!(results[0].hostname, Some("example.com".to_string()));
    assert_eq!(results[1].port, 81);
    assert!(results[1].is_open);
}
