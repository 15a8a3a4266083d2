use webshot::tcp::{
    classify_tcp_probe, classify_udp_reply, detect_service_by_port, extract_product,
    extract_vendor, extract_version, fingerprint_response, get_random_user_agent,
    get_service_name, parse_user_agents, service_from_lowered, TcpProbe,
};
use webshot::types::ServiceFingerprint;

#[test]
fn test_extract_version() {
    assert_eq!(extract_version("Apache/2.4.41"), Some("2.4.41".to_string()));
    assert_eq!(extract_version("nginx version 1.18.0"), Some("1.18.0".to_string()));
    assert_eq!(extract_version("MySQL 8.0.26"), Some("8.0.26".to_string()));
}

#[test]
fn test_extract_vendor() {
    assert_eq!(extract_vendor("Apache Software Foundation"), Some("Apache".to_string()));
    assert_eq!(extract_vendor("Microsoft Corporation"), Some("Microsoft".to_string()));
}

#[test]
fn test_extract_product() {
    assert_eq!(extract_product("Apache HTTP Server"), Some("Apache".to_string()));
    assert_eq!(extract_product("MySQL Server"), Some("MySQL".to_string()));
}

#[test]
fn test_service_fingerprint() {
    let fingerprint = ServiceFingerprint::new("HTTP Server".to_string())
        .with_version("2.4.41".to_string())
        .with_vendor("Apache".to_string())
        .with_product("HTTP Server".to_string())
        .with_extra_info("Additional info".to_string());

    assert_eq!(fingerprint.name, "HTTP Server");
    assert_eq!(fingerprint.version, Some("2.4.41".to_string()));
    assert_eq!(fingerprint.vendor, Some("Apache".to_string()));
    assert_eq!(fingerprint.product, Some("HTTP Server".to_string()));
    assert_eq!(fingerprint.extra_info, Some("Additional info".to_string()));
}

#[test]
fn ssh_banner_classifies_as_ssh_with_first_dotted_version() {
    let hit = classify_tcp_probe(22, TcpProbe::Received(b"SSH-2.0-OpenSSH_8.2".to_vec()));
    assert_eq!(
        hit,
        Some((22, "SSH-2.0-OpenSSH_8.2".to_string(), "SSH".to_string()))
    );
    let fp = fingerprint_response("SSH-2.0-OpenSSH_8.2");
    assert_eq!(fp.name, "SSH");
    assert_eq!(fp.version, Some("2.0".to_string()));
    assert_eq!(fp.product, Some("SSH".to_string()));
    assert_eq!(fp.vendor, None);
    assert_eq!(fp.extra_info, Some("SSH-2.0-OpenSSH_8.2".to_string()));
}

#[test]
fn classification_twice_gives_the_same_answer() {
    let bytes = b"220 mail.example.com ESMTP Postfix 3.4.13".to_vec();
    let first = classify_udp_reply(25, Some(bytes.clone()));
    let second = classify_udp_reply(25, Some(bytes));
    assert_eq!(first, second);
    let a = fingerprint_response("220 mail.example.com ESMTP Postfix 3.4.13");
    let b = fingerprint_response("220 mail.example.com ESMTP Postfix 3.4.13");
    assert_eq!(a.name, b.name);
    assert_eq!(a.version, b.version);
    assert_eq!(a.vendor, b.vendor);
    assert_eq!(a.product, b.product);
    assert_eq!(a.extra_info, b.extra_info);
    assert_eq!(a.name, "SMTP");
    assert_eq!(a.version, Some("3.4.13".to_string()));
}

#[test]
fn port_table_lookups() {
    assert_eq!(detect_service_by_port(22), "SSH");
    assert_eq!(detect_service_by_port(443), "HTTPS");
    assert_eq!(detect_service_by_port(11211), "Memcached");
    assert_eq!(detect_service_by_port(70000u32 as u16), "Unknown Service");
    assert_eq!(detect_service_by_port(1), "Unknown Service");
}

#[test]
fn keyword_rules_follow_priority_order() {
    assert_eq!(get_service_name("HTTP/1.1 200 OK"), "HTTP Server");
    assert_eq!(get_service_name("Server: nginx over ssh"), "HTTP Server");
    assert_eq!(get_service_name("220 ProFTPD ready"), "FTP");
    assert_eq!(get_service_name("+OK POP3 server ready"), "POP3");
    assert_eq!(get_service_name("* OK IMAP4rev1"), "IMAP");
    assert_eq!(get_service_name("5.7.2 MySQL"), "MySQL");
    assert_eq!(get_service_name("PostgreSQL 13"), "PostgreSQL");
    assert_eq!(get_service_name("-ERR redis"), "Redis");
    assert_eq!(get_service_name("MongoDB shell"), "MongoDB");
    assert_eq!(get_service_name("Telnet service"), "Telnet");
    assert_eq!(get_service_name("DNS"), "DNS");
    assert_eq!(get_service_name("hello"), "Unknown Service (hello)");
    assert_eq!(get_service_name("  \r\n"), "Unknown Service (  \r\n)");
    assert_eq!(get_service_name(""), "Unknown Service");
}

#[test]
fn unknown_service_keeps_first_fifty_characters() {
    let long = "x".repeat(80);
    let expected = format!("Unknown Service ({})", "x".repeat(50));
    assert_eq!(get_service_name(&long), expected);
}

#[test]
fn lowered_text_is_what_the_rules_read() {
    assert_eq!(service_from_lowered("ssh-2.0", "SSH-2.0"), "SSH");
    assert_eq!(service_from_lowered("SSH-2.0", "SSH-2.0"), "Unknown Service (SSH-2.0)");
}

#[test]
fn tcp_probe_outcomes() {
    assert_eq!(classify_tcp_probe(80, TcpProbe::ConnectFailed), None);
    assert_eq!(
        classify_tcp_probe(80, TcpProbe::Received(Vec::new())),
        Some((80, "Accepts Connections".to_string(), "HTTP".to_string()))
    );
    assert_eq!(
        classify_tcp_probe(3306, TcpProbe::ReadFailed),
        Some((3306, "Accepts Connections".to_string(), "MySQL".to_string()))
    );
    assert_eq!(
        classify_tcp_probe(6379, TcpProbe::ReadTimedOut),
        Some((6379, "Accepts Connections (Timeout)".to_string(), "Redis".to_string()))
    );
}

#[test]
fn udp_reply_outcomes() {
    assert_eq!(classify_udp_reply(53, None), None);
    assert_eq!(
        classify_udp_reply(53, Some(Vec::new())),
        Some((53, String::new(), "DNS".to_string()))
    );
    assert_eq!(
        classify_udp_reply(9999, Some(vec![0x66, 0x6f, 0xff])),
        Some((9999, "fo\u{fffd}".to_string(), "Unknown Service (fo\u{fffd})".to_string()))
    );
}

#[test]
fn fingerprint_without_matches_leaves_fields_unset() {
    let fp = fingerprint_response("hello there");
    assert_eq!(fp.name, "Unknown Service (hello there)");
    assert_eq!(fp.version, None);
    assert_eq!(fp.vendor, None);
    assert_eq!(fp.product, None);
    assert_eq!(fp.extra_info, Some("hello there".to_string()));
}

#[test]
fn user_agent_list_parsing() {
    let agents = parse_user_agents("  agent-one \r\n\n   \nagent-two\n");
    assert_eq!(agents, vec!["agent-one".to_string(), "agent-two".to_string()]);
    let fallback = parse_user_agents("\n \n");
    assert_eq!(
        fallback,
        vec!["Mozilla/5.0 (Windows NT 10.0; Win64; x64) AppleWebKit/537.36".to_string()]
    );
}

#[test]
fn random_user_agent_comes_from_the_list() {
    let agents = vec!["a".to_string(), "b".to_string(), "c".to_string()];
    for _ in 0..20 {
        let picked = get_random_user_agent(&agents);
        assert!(agents.contains(&picked));
    }
    assert_eq!(
        get_random_user_agent(&Vec::new()),
        "Mozilla/5.0 (Windows NT 10.0; Win64; x64) AppleWebKit/537.36"
    );
}

#[test]
fn white_space_response_is_kept_in_the_label() {
    assert_eq!(get_service_name(" "), "Unknown Service ( )");
    assert_eq!(
        classify_udp_reply(7, Some(b"\t".to_vec())),
        Some((7, "\t".to_string(), "Unknown Service (\t)".to_string()))
    );
}
