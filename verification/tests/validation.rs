use uppe::net::{is_private_or_local, parse_ip_address, public_address, IpAddress};
use uppe::url::UrlParts;
use uppe::validation::{
    validate_check_interval, validate_http_target, validate_http_url, validate_monitor_target, validate_port,
    validate_port_allowlist, validate_tcp_target, validate_timeout, ValidationError,
};

#[test]
fn test_validate_http_target() {
    // Valid
    assert!(validate_http_target("https://example.com").is_ok());
    assert!(validate_http_target("http://example.com:8080").is_ok());

    // Invalid - private IPs
    assert!(validate_http_target("http://localhost").is_err());
    assert!(validate_http_target("http://127.0.0.1").is_err());
    assert!(validate_http_target("http://192.168.1.1").is_err());
    assert!(validate_http_target("http://10.0.0.1").is_err());

    // Invalid - wrong scheme
    assert!(validate_http_target("ftp://example.com").is_err());
}

#[test]
fn test_validate_tcp_target() {
    // Valid
    assert!(validate_tcp_target("example.com:80").is_ok());
    assert!(validate_tcp_target("google.com:443").is_ok());

    // Invalid - private IPs
    assert!(validate_tcp_target("127.0.0.1:80").is_err());
    assert!(validate_tcp_target("192.168.1.1:80").is_err());

    // Invalid - blocked ports
    assert!(validate_tcp_target("example.com:22").is_err()); // SSH
    assert!(validate_tcp_target("example.com:3389").is_err()); // RDP

    // Invalid - format
    assert!(validate_tcp_target("example.com").is_err());
    assert!(validate_tcp_target("example.com:").is_err());
}

#[test]
fn test_validate_check_interval() {
    assert!(validate_check_interval(10).is_ok()); // Min
    assert!(validate_check_interval(60).is_ok()); // Normal
    assert!(validate_check_interval(86400).is_ok()); // Max

    assert!(validate_check_interval(5).is_err()); // Too short
    assert!(validate_check_interval(100000).is_err()); // Too long
}

#[test]
fn test_private_ip_detection() {
    assert!(is_private_or_local("localhost"));
    assert!(is_private_or_local("127.0.0.1"));
    assert!(is_private_or_local("192.168.1.1"));
    assert!(is_private_or_local("10.0.0.1"));
    assert!(is_private_or_local("172.16.0.1"));

    assert!(!is_private_or_local("8.8.8.8"));
    assert!(!is_private_or_local("1.1.1.1"));
    assert!(!is_private_or_local("example.com"));
}

#[test]
fn excludes_local_metadata_and_transition_addresses() {
    for ip in [
        "127.0.0.1",
        "10.0.0.1",
        "169.254.169.254",
        "100.64.0.1",
        "::1",
        "::ffff:127.0.0.1",
        "2002:7f00:1::",
        "2001:db8::1",
    ] {
        assert!(!public_address(&parse_ip_address(ip).unwrap()), "{ip}");
    }
    assert!(public_address(&parse_ip_address("8.8.8.8").unwrap()));
    assert!(public_address(&parse_ip_address("2606:4700:4700::1111").unwrap()));
}

#[test]
fn validation_errors_name_the_rule_that_failed() {
    assert_eq!(validate_tcp_target("example.com:22"), Err(ValidationError::BlockedPort(22)));
    assert_eq!(validate_tcp_target("example.com:0"), Err(ValidationError::PortZero));
    assert_eq!(validate_tcp_target("example.com:99999"), Err(ValidationError::InvalidPortNumber));
    assert_eq!(validate_tcp_target("a:b:c"), Err(ValidationError::TcpFormat));
    assert_eq!(validate_tcp_target("10.1.2.3:443"), Err(ValidationError::PrivateAddress));
    assert_eq!(validate_tcp_target("example.com:+443"), Ok(()));
    assert_eq!(validate_check_interval(5), Err(ValidationError::IntervalTooShort(5)));
    assert_eq!(validate_check_interval(100000), Err(ValidationError::IntervalTooLong(100000)));
    assert_eq!(validate_timeout(0), Err(ValidationError::TimeoutTooShort(0)));
    assert_eq!(validate_timeout(301), Err(ValidationError::TimeoutTooLong(301)));
    assert_eq!(validate_timeout(300), Ok(()));
    assert_eq!(validate_port(0), Err(ValidationError::PortZero));
    assert_eq!(validate_port_allowlist(27017), Err(ValidationError::BlockedPort(27017)));
    assert_eq!(validate_port_allowlist(8080), Ok(()));
    assert_eq!(validate_http_target("not a url"), Err(ValidationError::InvalidUrl));
    assert_eq!(validate_http_target("ftp://example.com"), Err(ValidationError::InvalidScheme));
    assert_eq!(validate_http_target("http://example.com:0"), Err(ValidationError::PortZero));
    assert_eq!(validate_monitor_target("example.com", "smtp"), Err(ValidationError::UnsupportedCheckType));
    assert_eq!(validate_monitor_target("localhost", "icmp"), Err(ValidationError::PrivateAddress));
    assert_eq!(validate_monitor_target("example.com", "icmp"), Ok(()));
}

#[test]
fn ip_parsing_follows_std_grammar() {
    let v4 = |t: &str| match parse_ip_address(t) {
        Some(IpAddress::V4(o)) => Some(o),
        _ => None,
    };
    let v6 = |t: &str| match parse_ip_address(t) {
        Some(IpAddress::V6(o)) => Some(o),
        _ => None,
    };
    assert_eq!(v4("1.2.3.4"), Some([1, 2, 3, 4]));
    assert_eq!(v4("255.255.255.255"), Some([255, 255, 255, 255]));
    assert_eq!(v4("0.0.0.0"), Some([0, 0, 0, 0]));
    for bad in ["256.1.1.1", "01.2.3.4", "1.2.3.04", "1.2.3", "1.2.3.4.5", "", "a", ":", ":::",
        "1::2::3", "1.2.3.4::", "12345::", "1:2:3:4:5:6:7:8:9", "[::1]", "::1%eth0",
        "1:2:3:4:5:6:7:1.2.3.4", "1.2.3.4:80"] {
        assert!(parse_ip_address(bad).is_none(), "{bad}");
    }
    assert_eq!(v6("::"), Some([0; 16]));
    assert_eq!(v6("::1"), Some([0, 0, 0, 0, 0, 0, 0, 0, 0, 0, 0, 0, 0, 0, 0, 1]));
    assert_eq!(v6("1::"), Some([0, 1, 0, 0, 0, 0, 0, 0, 0, 0, 0, 0, 0, 0, 0, 0]));
    assert_eq!(v6("FFFF::"), Some([255, 255, 0, 0, 0, 0, 0, 0, 0, 0, 0, 0, 0, 0, 0, 0]));
    assert_eq!(
        v6("1:2:3:4:5:6:7:8"),
        Some([0, 1, 0, 2, 0, 3, 0, 4, 0, 5, 0, 6, 0, 7, 0, 8])
    );
    assert_eq!(
        v6("::ffff:1.2.3.4"),
        Some([0, 0, 0, 0, 0, 0, 0, 0, 0, 0, 255, 255, 1, 2, 3, 4])
    );
    assert_eq!(
        v6("1:2:3:4:5:6:1.2.3.4"),
        Some([0, 1, 0, 2, 0, 3, 0, 4, 0, 5, 0, 6, 1, 2, 3, 4])
    );
    assert_eq!(v6("::1.2.3.4"), Some([0, 0, 0, 0, 0, 0, 0, 0, 0, 0, 0, 0, 1, 2, 3, 4]));
    assert_eq!(v6("fe80::1"), Some([0xfe, 0x80, 0, 0, 0, 0, 0, 0, 0, 0, 0, 0, 0, 0, 0, 1]));
}

fn parts(scheme: &str, host: Option<&str>, port: Option<u16>) -> UrlParts {
    UrlParts {
        scheme: scheme.into(),
        host: host.map(|h| h.to_string()),
        port,
        username: String::new(),
        has_password: false,
        has_fragment: false,
        known_port: port,
    }
}

#[test]
fn parsed_http_urls_are_checked_part_by_part() {
    assert_eq!(validate_http_url(&parts("https", Some("example.com"), None)), Ok(()));
    assert_eq!(validate_http_url(&parts("http", Some("example.com"), Some(8080))), Ok(()));
    assert_eq!(validate_http_url(&parts("ftp", Some("example.com"), None)), Err(ValidationError::InvalidScheme));
    assert_eq!(validate_http_url(&parts("https", Some("127.0.0.1"), None)), Err(ValidationError::PrivateAddress));
    assert_eq!(validate_http_url(&parts("https", Some("localhost"), None)), Err(ValidationError::PrivateAddress));
    assert_eq!(validate_http_url(&parts("http", Some("example.com"), Some(0))), Err(ValidationError::PortZero));
}
