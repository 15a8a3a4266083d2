use webshot::utils::{
    is_valid_port, parse_port_argument, parse_port_range, random_string, PortRangeError,
};

#[test]
fn test_is_valid_port() {
    assert!(is_valid_port(80));
    assert!(is_valid_port(443));
    assert!(is_valid_port(65535));
    assert!(!is_valid_port(0));
    assert!(!is_valid_port(65536u32 as u16));
}

#[test]
fn test_parse_port_range() {
    assert_eq!(parse_port_range("80").unwrap(), vec![80]);
    assert_eq!(parse_port_range("80-443").unwrap(), (80..=443).collect::<Vec<u16>>());
    assert!(parse_port_range("invalid").is_err());
    assert!(parse_port_range("80-").is_err());
    assert!(parse_port_range("-443").is_err());
}

#[test]
fn test_port_range_parsing() {
    let ports = parse_port_range("80").unwrap();
    assert_eq!(ports, vec![80]);

    let ports = parse_port_range("80-443").unwrap();
    assert_eq!(ports, (80..=443).collect::<Vec<u16>>());

    assert!(parse_port_range("invalid").is_err());
    assert!(parse_port_range("80-").is_err());
    assert!(parse_port_range("-443").is_err());
    assert!(parse_port_range("0-100").is_err());
    assert!(parse_port_range("100-50").is_err());
}

#[test]
fn test_utility_functions() {
    assert!(is_valid_port(80));
    assert!(is_valid_port(443));
    assert!(is_valid_port(65535));
    assert!(!is_valid_port(0));
    assert!(!is_valid_port(65536u32 as u16));

    assert!(webshot::utils::is_valid_domain("example.com"));
    assert!(webshot::utils::is_valid_domain("sub.example.com"));
    assert!(!webshot::utils::is_valid_domain(""));
    assert!(!webshot::utils::is_valid_domain("invalid"));
}

#[test]
fn test_random_string_generation() {
    let random1 = random_string(10);
    let random2 = random_string(10);

    assert_eq!(random1.len(), 10);
    assert_eq!(random2.len(), 10);
}

#[test]
fn random_strings_use_letters_and_digits() {
    let s = random_string(200);
    assert_eq!(s.chars().count(), 200);
    assert!(s.chars().all(|c| c.is_ascii_alphanumeric()));
    assert_eq!(random_string(0), "");
}

#[test]
fn range_errors_name_their_cause() {
    assert_eq!(parse_port_range("1-2-3"), Err(PortRangeError::BadFormat));
    assert_eq!(parse_port_range("x-3"), Err(PortRangeError::BadStart));
    assert_eq!(parse_port_range("3-x"), Err(PortRangeError::BadEnd));
    assert_eq!(parse_port_range("0-100"), Err(PortRangeError::RangeOutOfBounds));
    assert_eq!(parse_port_range("5-0"), Err(PortRangeError::RangeOutOfBounds));
    assert_eq!(parse_port_range("100-50"), Err(PortRangeError::Reversed));
    assert_eq!(parse_port_range("abc"), Err(PortRangeError::BadPort));
    assert_eq!(parse_port_range("0"), Err(PortRangeError::PortOutOfBounds));
    assert_eq!(parse_port_range("65536"), Err(PortRangeError::BadPort));
    assert_eq!(parse_port_range("1-65536"), Err(PortRangeError::BadEnd));
    assert_eq!(parse_port_range(""), Err(PortRangeError::BadPort));
    assert_eq!(parse_port_range(" 80"), Err(PortRangeError::BadPort));
    assert!(!PortRangeError::Reversed.message().is_empty());
}

#[test]
fn range_bounds_are_inclusive() {
    assert_eq!(parse_port_range("7-7"), Ok(vec![7]));
    assert_eq!(parse_port_range("+8"), Ok(vec![8]));
    assert_eq!(parse_port_range("65534-65535"), Ok(vec![65534, 65535]));
    let all = parse_port_range("1-65535").unwrap();
    assert_eq!(all.len(), 65535);
    assert_eq!(all[0], 1);
    assert_eq!(all[65534], 65535);
}

#[test]
fn port_argument_lists() {
    assert_eq!(parse_port_argument("22, 80-82 ,443", false), Ok(vec![22, 80, 81, 82, 443]));
    assert_eq!(parse_port_argument(" 80 - 82 ", false), Ok(vec![80, 81, 82]));
    assert_eq!(parse_port_argument(" 8080 ", false), Ok(vec![8080]));
    assert_eq!(parse_port_argument("22,22", false), Ok(vec![22, 22]));
    assert_eq!(parse_port_argument("80,", false), Err(PortRangeError::BadPort));
    assert_eq!(parse_port_argument("5-0", false), Err(PortRangeError::Reversed));
    assert_eq!(parse_port_argument("0-5", false), Err(PortRangeError::RangeOutOfBounds));
    assert_eq!(parse_port_argument("1,0", false), Err(PortRangeError::PortOutOfBounds));
    assert_eq!(parse_port_argument("1-2-3,4", false), Err(PortRangeError::BadFormat));
    let all = parse_port_argument("ignored", true).unwrap();
    assert_eq!(all.len(), 65535);
    assert_eq!(all[65534], 65535);
}
