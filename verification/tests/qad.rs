use ztna::connector::qad::{build_observed_address as connector_build, parse_observed_address};
use ztna::net::{IpAddr, SockAddr};
use ztna::server::qad::build_observed_address as server_build;

#[test]
fn qad_test_build_observed_address() {
    let addr = SockAddr::v4(203, 0, 113, 5, 54321);
    let msg = server_build(addr).expect("IPv4 should return Some");

    assert_eq!(msg.len(), 7);
    assert_eq!(msg[0], 0x01);
    assert_eq!(msg[1], 203);
    assert_eq!(msg[2], 0);
    assert_eq!(msg[3], 113);
    assert_eq!(msg[4], 5);
    assert_eq!(msg[5], 0xD4);
    assert_eq!(msg[6], 0x31);
}

#[test]
fn test_localhost_address() {
    let addr = SockAddr::v4(127, 0, 0, 1, 4433);
    let msg = server_build(addr).expect("IPv4 should return Some");

    assert_eq!(msg.len(), 7);
    assert_eq!(msg[0], 0x01);
    assert_eq!(msg[1..5], [127, 0, 0, 1]);
    assert_eq!(msg[5], 0x11);
    assert_eq!(msg[6], 0x51);
}

#[test]
fn test_ipv6_returns_none() {
    let addr = SockAddr::new(IpAddr::V6(0, 0, 0, 0, 0, 0, 0, 1), 4433);
    assert!(server_build(addr).is_none());
}

#[test]
fn test_build_observed_address() {
    let addr = SockAddr::v4(192, 168, 1, 100, 12345);
    let msg = connector_build(addr);

    assert_eq!(msg.len(), 7);
    assert_eq!(msg[0], 0x01);
    assert_eq!(msg[1..5], [192, 168, 1, 100]);
    assert_eq!(msg[5..7], [0x30, 0x39]);
}

#[test]
fn test_build_parse_roundtrip() {
    let original = SockAddr::v4(10, 0, 0, 1, 8080);
    let msg = connector_build(original);
    let parsed = parse_observed_address(&msg).unwrap();
    assert_eq!(original, parsed);
}

#[test]
fn test_parse_observed_address() {
    let msg = [0x01, 192, 168, 1, 100, 0x30, 0x39];
    let addr = parse_observed_address(&msg).unwrap();
    assert_eq!(addr.to_text(), "192.168.1.100:12345");
}

#[test]
fn test_parse_observed_address_too_short() {
    let msg = [0x01, 192, 168, 1, 100];
    assert!(parse_observed_address(&msg).is_none());
}

#[test]
fn test_parse_observed_address_wrong_type() {
    let msg = [0x02, 192, 168, 1, 100, 0x30, 0x39];
    assert!(parse_observed_address(&msg).is_none());
}

#[test]
fn connector_qad_of_ipv6_carries_zero_address() {
    let msg = connector_build(SockAddr::new(IpAddr::V6(0, 0, 0, 0, 0, 0, 0, 1), 7));
    assert_eq!(msg, vec![0x01, 0, 0, 0, 0, 0, 7]);
}
