use socks_scanner::config::{
    CliOptions, ConfigError, DEFAULT_TIMEOUT_SECS, Port, PortRange, ScannerConfig, parse_ip_range,
    port_wf,
};
use socks_scanner::socks::IpAddr;

#[test]
fn port_single() {
    assert_eq!(Port::from_str("80"), Ok(Port::Single(80)));
    assert_eq!(Port::from_str("65535"), Ok(Port::Single(65535)));
}

#[test]
fn port_range_entry() {
    assert_eq!(
        Port::from_str("1080-1081"),
        Ok(Port::Range(PortRange { start: 1080, end: 1081 }))
    );
}

#[test]
fn port_rejects_bad_text() {
    assert_eq!(Port::from_str(""), Err(ConfigError::InvalidPortSpec));
    assert_eq!(Port::from_str("abc"), Err(ConfigError::InvalidPortSpec));
    assert_eq!(Port::from_str("70000"), Err(ConfigError::InvalidPortSpec));
    assert_eq!(Port::from_str("1-2-3"), Err(ConfigError::InvalidPortSpec));
    assert_eq!(Port::from_str("-1"), Err(ConfigError::InvalidPortSpec));
}

#[test]
fn port_accepts_leading_zeros() {
    assert_eq!(Port::from_str("0080"), Ok(Port::Single(80)));
}

#[test]
fn port_rejects_huge_numerals() {
    assert_eq!(
        Port::from_str("999999999999999999999999"),
        Err(ConfigError::InvalidPortSpec)
    );
}

#[test]
fn ip_range_accepts_leading_zeros() {
    let (start, end) = parse_ip_range("010.0.0.001-10.0.0.2").unwrap();
    assert_eq!(start, IpAddr::V4(10, 0, 0, 1));
    assert_eq!(end, IpAddr::V4(10, 0, 0, 2));
}

#[test]
fn ip_range_rejects_empty_side() {
    assert_eq!(parse_ip_range("10.0.0.1-"), Err(ConfigError::InvalidEndIp));
    assert_eq!(parse_ip_range("-10.0.0.1"), Err(ConfigError::InvalidStartIp));
}

#[test]
fn port_range_from_str_single_doubles() {
    assert_eq!(PortRange::from_str("10"), Ok(PortRange { start: 10, end: 10 }));
}

#[test]
fn port_range_from_str_pair() {
    assert_eq!(PortRange::from_str("1-2"), Ok(PortRange { start: 1, end: 2 }));
}

#[test]
fn port_range_from_str_ignores_third_part() {
    assert_eq!(PortRange::from_str("1-2-3"), Ok(PortRange { start: 1, end: 2 }));
}

#[test]
fn port_range_from_str_rejects_empty_side() {
    assert_eq!(PortRange::from_str("-1"), Err(ConfigError::InvalidPortSpec));
    assert_eq!(PortRange::from_str("1-"), Err(ConfigError::InvalidPortSpec));
}

#[test]
fn ip_range_parses() {
    let (start, end) = parse_ip_range("10.0.0.1-10.0.0.2").unwrap();
    assert!(matches!(start, IpAddr::V4(10, 0, 0, 1)));
    assert!(matches!(end, IpAddr::V4(10, 0, 0, 2)));
}

#[test]
fn ip_range_needs_exactly_two_parts() {
    assert_eq!(parse_ip_range("10.0.0.1"), Err(ConfigError::InvalidIpRangeFormat));
    assert_eq!(
        parse_ip_range("10.0.0.1-10.0.0.2-10.0.0.3"),
        Err(ConfigError::InvalidIpRangeFormat)
    );
}

#[test]
fn ip_range_tells_bad_sides_apart() {
    assert_eq!(parse_ip_range("300.0.0.1-10.0.0.2"), Err(ConfigError::InvalidStartIp));
    assert_eq!(parse_ip_range("10.0.0.1-10.0.0"), Err(ConfigError::InvalidEndIp));
    assert_eq!(parse_ip_range("10.0.0.1-10.0.0.2.3"), Err(ConfigError::InvalidEndIp));
}

#[test]
fn ipv4_value_is_big_endian() {
    assert_eq!(IpAddr::V4(10, 0, 0, 1).value(), 0x0a000001);
    assert_eq!(IpAddr::V4(255, 255, 255, 255).value(), u32::MAX);
}

#[test]
fn from_options_accepts_valid() {
    let options = CliOptions {
        ip_range: String::from("10.0.0.1-10.0.0.2"),
        socks_versions: vec![4, 5],
        connection_limit: 100,
        ports: vec![Port::Single(80), Port::Range(PortRange { start: 1080, end: 1081 })],
    };
    let config = ScannerConfig::from_options(options).unwrap();
    assert!(matches!(config.ip_range.0, IpAddr::V4(10, 0, 0, 1)));
    assert!(matches!(config.ip_range.1, IpAddr::V4(10, 0, 0, 2)));
    assert_eq!(config.socks_versions, vec![4, 5]);
    assert_eq!(config.connection_limit, 100);
    assert_eq!(config.ports.len(), 2);
    assert_eq!(config.timeout, DEFAULT_TIMEOUT_SECS);
    assert!(matches!(config.target_ip, IpAddr::V4(8, 8, 8, 8)));
    assert_eq!(config.target_port, 53);
}

#[test]
fn from_options_rejects_bad_version() {
    let options = CliOptions {
        ip_range: String::from("10.0.0.1-10.0.0.2"),
        socks_versions: vec![4, 6],
        connection_limit: 100,
        ports: vec![Port::Single(80)],
    };
    assert_eq!(
        ScannerConfig::from_options(options).unwrap_err(),
        ConfigError::InvalidSocksVersion
    );
}

#[test]
fn from_options_rejects_zero_limit() {
    let options = CliOptions {
        ip_range: String::from("10.0.0.1-10.0.0.2"),
        socks_versions: vec![4],
        connection_limit: 0,
        ports: vec![Port::Single(80)],
    };
    assert_eq!(
        ScannerConfig::from_options(options).unwrap_err(),
        ConfigError::InvalidConnectionLimit
    );
}

#[test]
fn from_options_rejects_bad_port_entries() {
    let options = CliOptions {
        ip_range: String::from("10.0.0.1-10.0.0.2"),
        socks_versions: vec![4],
        connection_limit: 100,
        ports: vec![Port::Range(PortRange { start: 2, end: 1 })],
    };
    assert_eq!(ScannerConfig::from_options(options).unwrap_err(), ConfigError::InvalidPortSpec);
    let options_zero = CliOptions {
        ip_range: String::from("10.0.0.1-10.0.0.2"),
        socks_versions: vec![4],
        connection_limit: 100,
        ports: vec![Port::Single(0)],
    };
    assert_eq!(
        ScannerConfig::from_options(options_zero).unwrap_err(),
        ConfigError::InvalidPortSpec
    );
}

#[test]
fn from_options_rejects_out_of_order_range() {
    let options = CliOptions {
        ip_range: String::from("10.0.0.2-10.0.0.1"),
        socks_versions: vec![4],
        connection_limit: 100,
        ports: vec![Port::Single(80)],
    };
    assert_eq!(
        ScannerConfig::from_options(options).unwrap_err(),
        ConfigError::IpRangeOutOfOrder
    );
}

#[test]
fn port_wf_bounds() {
    assert!(port_wf(&Port::Single(1)));
    assert!(!port_wf(&Port::Single(0)));
    assert!(port_wf(&Port::Range(PortRange { start: 1, end: 1 })));
    assert!(!port_wf(&Port::Range(PortRange { start: 0, end: 5 })));
    assert!(!port_wf(&Port::Range(PortRange { start: 5, end: 4 })));
}
