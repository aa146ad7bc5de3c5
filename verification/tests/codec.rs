use socks_scanner::socks::{DecodeError, IpAddr, SocksRequest, SocksResponse, SocksVersion};
use socks_scanner::handshake::{Outcome, classify_response, connect_request_bytes, is_granted};

#[test]
fn socks4_request_layout() {
    let req = SocksRequest { version: SocksVersion::V4, ip: IpAddr::V4(192, 168, 1, 100), port: 80 };
    assert_eq!(req.to_bytes(), vec![4, 1, 0, 80, 192, 168, 1, 100, 0]);
}

#[test]
fn socks5_request_ipv4_layout() {
    let req = SocksRequest { version: SocksVersion::V5, ip: IpAddr::V4(192, 168, 1, 100), port: 80 };
    assert_eq!(req.to_bytes(), vec![5, 1, 0, 1, 192, 168, 1, 100, 0, 80]);
}

#[test]
fn socks5_request_ipv6_layout() {
    let octets: [u8; 16] = [0x20, 0x01, 0x0d, 0xb8, 0, 0, 0, 0, 0, 0, 0, 0, 0, 0, 0, 1];
    let req = SocksRequest { version: SocksVersion::V5, ip: IpAddr::V6(octets), port: 443 };
    let mut expected = vec![5, 1, 0, 4];
    expected.extend_from_slice(&octets);
    expected.push(1);
    expected.push(187);
    assert_eq!(req.to_bytes(), expected);
}

#[test]
fn encode_twice_identical() {
    let req = SocksRequest { version: SocksVersion::V4, ip: IpAddr::V4(10, 0, 0, 1), port: 1080 };
    assert_eq!(req.to_bytes(), req.to_bytes());
    let req5 = SocksRequest { version: SocksVersion::V5, ip: IpAddr::V4(10, 0, 0, 1), port: 1080 };
    assert_eq!(req5.to_bytes(), req5.to_bytes());
}

#[test]
fn socks4_decode_granted_two_bytes() {
    let r = SocksResponse::from_bytes(&SocksVersion::V4, &[0, 0x5a]);
    assert_eq!(r, Ok(SocksResponse::V4(0x5a)));
}

#[test]
fn socks4_decode_denied() {
    let r = SocksResponse::from_bytes(&SocksVersion::V4, &[0, 0x5b]);
    assert_eq!(r, Ok(SocksResponse::V4(0x5b)));
}

#[test]
fn socks4_decode_short_input() {
    assert_eq!(SocksResponse::from_bytes(&SocksVersion::V4, &[0]), Err(DecodeError::Truncated));
    assert_eq!(SocksResponse::from_bytes(&SocksVersion::V4, &[]), Err(DecodeError::Truncated));
}

#[test]
fn socks4_decode_ignores_trailing_bytes() {
    let r = SocksResponse::from_bytes(&SocksVersion::V4, &[0, 0x5a, 9, 9, 9]);
    assert_eq!(r, Ok(SocksResponse::V4(0x5a)));
}

#[test]
fn socks5_decode_ipv4_granted() {
    let r = SocksResponse::from_bytes(&SocksVersion::V5, &[5, 0, 0, 1, 8, 8, 8, 8, 0, 53]);
    assert_eq!(r, Ok(SocksResponse::V5(0, 0)));
}

#[test]
fn socks5_decode_ipv6_denied() {
    let mut bytes = vec![5, 1, 0, 4];
    bytes.extend_from_slice(&[0u8; 16]);
    bytes.push(0);
    bytes.push(53);
    let r = SocksResponse::from_bytes(&SocksVersion::V5, &bytes);
    assert_eq!(r, Ok(SocksResponse::V5(1, 0)));
}

#[test]
fn socks5_decode_domain() {
    let r = SocksResponse::from_bytes(
        &SocksVersion::V5,
        &[5, 0, 0, 3, 7, b'e', b'x', b'a', b'm', b'p', b'l', b'e', 0, 53],
    );
    assert_eq!(r, Ok(SocksResponse::V5(0, 0)));
}

#[test]
fn socks5_domain_length_overruns_buffer() {
    let r = SocksResponse::from_bytes(&SocksVersion::V5, &[5, 0, 0, 3, 200, 0, 53]);
    assert_eq!(r, Err(DecodeError::Truncated));
}

#[test]
fn socks5_invalid_address_type() {
    let r = SocksResponse::from_bytes(&SocksVersion::V5, &[5, 0, 0, 2, 8, 8, 8, 8, 0, 53]);
    assert_eq!(r, Err(DecodeError::InvalidAddressType));
}

#[test]
fn socks5_truncated_header() {
    assert_eq!(SocksResponse::from_bytes(&SocksVersion::V5, &[5, 0, 0]), Err(DecodeError::Truncated));
    assert_eq!(
        SocksResponse::from_bytes(&SocksVersion::V5, &[5, 0, 0, 1, 8, 8]),
        Err(DecodeError::Truncated)
    );
}

#[test]
fn socks5_status_is_first_payload_byte() {
    let r = SocksResponse::from_bytes(&SocksVersion::V5, &[5, 9, 0, 1, 8, 8, 8, 8, 0, 53]);
    assert_eq!(r, Ok(SocksResponse::V5(9, 0)));
}

#[test]
fn grant_codes_per_version() {
    assert!(is_granted(&SocksResponse::V4(0x5a)));
    assert!(!is_granted(&SocksResponse::V4(0x5b)));
    assert!(is_granted(&SocksResponse::V5(0, 0)));
    assert!(!is_granted(&SocksResponse::V5(1, 0)));
}

#[test]
fn classify_socks4_grant_and_deny() {
    assert_eq!(classify_response(&SocksVersion::V4, &[0x00, 0x5a]), Outcome::Granted);
    assert_eq!(classify_response(&SocksVersion::V4, &[0x00, 0x5b]), Outcome::Denied);
}

#[test]
fn classify_undecodable_is_protocol_error() {
    assert_eq!(classify_response(&SocksVersion::V4, &[0x00]), Outcome::ProtocolError);
    assert_eq!(classify_response(&SocksVersion::V5, &[5, 0, 0, 9, 1]), Outcome::ProtocolError);
}

#[test]
fn classify_socks5() {
    assert_eq!(
        classify_response(&SocksVersion::V5, &[5, 0, 0, 1, 8, 8, 8, 8, 0, 53]),
        Outcome::Granted
    );
    assert_eq!(
        classify_response(&SocksVersion::V5, &[5, 5, 0, 1, 8, 8, 8, 8, 0, 53]),
        Outcome::Denied
    );
}

#[test]
fn connect_request_bytes_matches_encoder() {
    let bytes = connect_request_bytes(&SocksVersion::V4, &IpAddr::V4(8, 8, 8, 8), 53);
    assert_eq!(bytes, vec![4, 1, 0, 53, 8, 8, 8, 8, 0]);
    let bytes5 = connect_request_bytes(&SocksVersion::V5, &IpAddr::V4(8, 8, 8, 8), 53);
    assert_eq!(bytes5, vec![5, 1, 0, 1, 8, 8, 8, 8, 0, 53]);
}

#[test]
fn version_from_number_maps_both() {
    assert_eq!(SocksVersion::from_number(4), SocksVersion::V4);
    assert_eq!(SocksVersion::from_number(5), SocksVersion::V5);
}
