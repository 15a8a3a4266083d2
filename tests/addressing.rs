use webshot::dns::{
    addresses_from_lookup, choose_address, is_valid_domain, lookup_name, name_from_reverse_lookup,
    IpAddresses, IpType,
    ResolveError,
};
use webshot::utils;

#[test]
fn dns_test_is_valid_domain() {
    assert!(is_valid_domain("example.com"));
    assert!(is_valid_domain("sub.example.com"));
    assert!(!is_valid_domain(""));
    assert!(!is_valid_domain("invalid"));
    assert!(!is_valid_domain(&("a".repeat(64) + ".com")));
}

#[test]
fn utils_test_is_valid_domain() {
    assert!(utils::is_valid_domain("example.com"));
    assert!(utils::is_valid_domain("sub.example.com"));
    assert!(!utils::is_valid_domain(""));
    assert!(!utils::is_valid_domain("invalid"));
}

#[test]
fn domain_label_rules() {
    assert!(is_valid_domain("my-host.example.org"));
    assert!(!is_valid_domain("-bad.example.com"));
    assert!(!is_valid_domain("bad-.example.com"));
    assert!(!is_valid_domain("a..b"));
    assert!(!is_valid_domain(".com"));
    assert!(!is_valid_domain("under_score.com"));
    assert!(is_valid_domain(&("a".repeat(63) + ".com")));
    assert!(is_valid_domain("bücher.de"));
    let long = vec!["abcdefghi"; 26].join(".");
    assert_eq!(long.len(), 259);
    assert!(!is_valid_domain(&long));
    let max = vec!["abcdefghi"; 25].join(".") + ".abc";
    assert_eq!(max.len(), 253);
    assert!(is_valid_domain(&max));
}

#[test]
fn test_ip_type_methods() {
    let ipv4 = IpType::V4("127.0.0.1".to_string());
    let ipv6 = IpType::V6("::1".to_string());

    assert!(ipv4.is_ipv4());
    assert!(!ipv4.is_ipv6());
    assert!(ipv6.is_ipv6());
    assert!(!ipv6.is_ipv4());

    assert_eq!(ipv4.to_string(), "127.0.0.1");
    assert_eq!(ipv6.to_string(), "::1");
}

#[test]
fn lookup_keeps_first_address_of_each_family() {
    let found = vec![
        IpType::V6("::1".to_string()),
        IpType::V4("127.0.0.1".to_string()),
        IpType::V4("10.0.0.1".to_string()),
        IpType::V6("fe80::1".to_string()),
    ];
    let addrs = addresses_from_lookup(&found).unwrap();
    assert_eq!(addrs.count(), 2);
    assert!(addrs.has_ips());
    assert_eq!(addrs.get_all_ips(), vec!["127.0.0.1".to_string(), "::1".to_string()]);
    assert_eq!(addrs.get_primary_ip().unwrap().to_string(), "127.0.0.1");
    assert!(matches!(addresses_from_lookup(&Vec::new()), Err(ResolveError::NoAddresses)));
}

#[test]
fn address_choice_prefers_the_requested_family() {
    let both = IpAddresses {
        ipv4: Some(IpType::V4("1.2.3.4".to_string())),
        ipv6: Some(IpType::V6("::2".to_string())),
    };
    assert_eq!(choose_address(&both, false), Some("1.2.3.4".to_string()));
    assert_eq!(choose_address(&both, true), Some("::2".to_string()));
    let v4_only = IpAddresses { ipv4: Some(IpType::V4("1.2.3.4".to_string())), ipv6: None };
    assert_eq!(choose_address(&v4_only, true), Some("1.2.3.4".to_string()));
    let none = IpAddresses { ipv4: None, ipv6: None };
    assert_eq!(choose_address(&none, false), None);
    assert_eq!(none.count(), 0);
    assert!(!none.has_ips());
    assert!(none.get_primary_ip().is_none());
    assert!(none.get_all_ips().is_empty());
}

#[test]
fn url_targets_resolve_their_host() {
    assert_eq!(lookup_name("https://example.com/path?q=1"), Ok("example.com".to_string()));
    assert_eq!(lookup_name("http://Sub.Example.org:8080/"), Ok("sub.example.org".to_string()));
    assert_eq!(lookup_name("example.com"), Ok("example.com".to_string()));
    assert_eq!(lookup_name("http://"), Err(ResolveError::InvalidDomainFormat));
}

#[test]
fn reverse_lookup_keeps_only_a_distinct_name() {
    assert_eq!(name_from_reverse_lookup("host.example:0", "10.0.0.1"), Some("host.example".to_string()));
    assert_eq!(name_from_reverse_lookup("10.0.0.1:0", "10.0.0.1"), None);
    assert_eq!(name_from_reverse_lookup(":0", "10.0.0.1"), None);
    assert_eq!(name_from_reverse_lookup("plain", "10.0.0.1"), Some("plain".to_string()));
}
