use ztna::connector::forward::{
    classify_ip_packet, echo_reply_to, is_p2p_control_packet, parse_arg, registration_message, IpPacket,
    ALPN_PROTOCOL, DEFAULT_P2P_PORT, DEFAULT_SERVER_PORT, IDLE_TIMEOUT_MS, MAX_DATAGRAM_SIZE, MAX_TCP_PAYLOAD,
};
use ztna::connector::packet::{
    build_icmp_reply, build_tcp_packet, build_udp_packet, icmp_checksum, ip_checksum, tcp_checksum, TCP_ACK, TCP_FIN,
    TCP_PSH, TCP_RST, TCP_SYN,
};

#[test]
fn main_test_ip_checksum() {
    let mut header = [
        0x45, 0x00, 0x00, 0x3c, 0x1c, 0x46, 0x40, 0x00, 0x40, 0x06, 0x00, 0x00, 0xac, 0x10, 0x0a, 0x63, 0xac, 0x10,
        0x0a, 0x0c,
    ];

    let checksum = ip_checksum(&header);
    header[10..12].copy_from_slice(&checksum.to_be_bytes());

    assert_eq!(ip_checksum(&header), 0);
}

#[test]
fn ip_checksum_known_value() {
    let header = [
        0x45, 0x00, 0x00, 0x3c, 0x1c, 0x46, 0x40, 0x00, 0x40, 0x06, 0x00, 0x00, 0xac, 0x10, 0x0a, 0x63, 0xac, 0x10,
        0x0a, 0x0c,
    ];
    assert_eq!(ip_checksum(&header), 0xb1e6);
    assert_eq!(ip_checksum(&[0xff]), 0x00ff);
    assert_eq!(ip_checksum(&[]), 0xffff);
}

#[test]
fn test_build_udp_packet() {
    let packet = build_udp_packet([192, 168, 1, 100], 12345, [10, 0, 0, 1], 80, b"Hello");

    assert_eq!(packet[0], 0x45);
    assert_eq!(packet[9], 17);

    let src_port = u16::from_be_bytes([packet[20], packet[21]]);
    let dst_port = u16::from_be_bytes([packet[22], packet[23]]);
    assert_eq!(src_port, 12345);
    assert_eq!(dst_port, 80);

    assert_eq!(&packet[28..], b"Hello");
    assert_eq!(ip_checksum(&packet[..20]), 0);
    assert_eq!(&packet[24..28], &[0, 13, 0, 0]);
}

#[test]
fn test_constants_match_intermediate() {
    assert_eq!(MAX_DATAGRAM_SIZE, 1350);
    assert_eq!(IDLE_TIMEOUT_MS, 30_000);
    assert_eq!(&ALPN_PROTOCOL, b"ztna-v1");
}

#[test]
fn test_default_p2p_port() {
    assert_eq!(DEFAULT_P2P_PORT, 4434);
    assert_eq!(DEFAULT_SERVER_PORT, 4433);
    assert_eq!(DEFAULT_P2P_PORT, DEFAULT_SERVER_PORT + 1);
}

#[test]
fn test_tcp_flags() {
    assert_eq!(TCP_FIN, 0x01);
    assert_eq!(TCP_SYN, 0x02);
    assert_eq!(TCP_RST, 0x04);
    assert_eq!(TCP_PSH, 0x08);
    assert_eq!(TCP_ACK, 0x10);
    assert_eq!(TCP_SYN | TCP_ACK, 0x12);
    assert_eq!(TCP_FIN | TCP_ACK, 0x11);
    assert_eq!(TCP_PSH | TCP_ACK, 0x18);
}

#[test]
fn test_build_tcp_packet_syn_ack() {
    let packet = build_tcp_packet([10, 100, 0, 1], 80, [192, 168, 1, 100], 54321, 1000, 500, TCP_SYN | TCP_ACK, 65535, &[]);

    assert_eq!(packet[0], 0x45);
    assert_eq!(packet[9], 6);
    assert_eq!(packet.len(), 40);

    let src_port = u16::from_be_bytes([packet[20], packet[21]]);
    let dst_port = u16::from_be_bytes([packet[22], packet[23]]);
    assert_eq!(src_port, 80);
    assert_eq!(dst_port, 54321);

    let seq = u32::from_be_bytes([packet[24], packet[25], packet[26], packet[27]]);
    let ack = u32::from_be_bytes([packet[28], packet[29], packet[30], packet[31]]);
    assert_eq!(seq, 1000);
    assert_eq!(ack, 500);

    assert_eq!(packet[32], 0x50);
    assert_eq!(packet[33], TCP_SYN | TCP_ACK);
}

#[test]
fn test_build_tcp_packet_with_data() {
    let payload = b"HTTP/1.1 200 OK\r\n";
    let packet = build_tcp_packet([10, 0, 0, 1], 8080, [172, 16, 0, 1], 12345, 2000, 1500, TCP_PSH | TCP_ACK, 65535, payload);

    assert_eq!(packet.len(), 40 + payload.len());
    assert_eq!(packet[33], TCP_PSH | TCP_ACK);
    assert_eq!(&packet[40..], payload);
}

#[test]
fn test_tcp_checksum_validity() {
    let packet = build_tcp_packet([192, 168, 1, 1], 80, [192, 168, 1, 2], 54321, 100, 200, TCP_ACK, 65535, b"test");

    let tcp_segment = &packet[20..];
    let result = tcp_checksum([192, 168, 1, 1], [192, 168, 1, 2], tcp_segment);
    assert_eq!(result, 0, "TCP checksum should verify to 0");
}

#[test]
fn test_max_tcp_payload_fits_datagram() {
    assert_eq!(MAX_TCP_PAYLOAD + 40, MAX_DATAGRAM_SIZE);
    assert_eq!(MAX_TCP_PAYLOAD, 1310);
}

#[test]
fn test_build_icmp_reply() {
    let mut echo_request = vec![8, 0, 0, 0, 0x12, 0x34, 0x00, 0x01];
    echo_request.extend_from_slice(b"ping");

    let cksum = icmp_checksum(&echo_request);
    echo_request[2..4].copy_from_slice(&cksum.to_be_bytes());

    let reply = build_icmp_reply([10, 100, 0, 1], [192, 168, 1, 100], &echo_request)
        .expect("valid ICMP echo should produce reply");

    assert_eq!(reply[0], 0x45);
    assert_eq!(reply[9], 1);
    assert_eq!(reply.len(), 20 + echo_request.len());
    assert_eq!(&reply[12..16], &[10, 100, 0, 1]);
    assert_eq!(&reply[16..20], &[192, 168, 1, 100]);
    assert_eq!(reply[20], 0);
    assert_eq!(reply[21], 0);
    assert_eq!(&reply[24..26], &[0x12, 0x34]);
    assert_eq!(&reply[26..28], &[0x00, 0x01]);
    assert_eq!(&reply[28..], b"ping");
    assert_eq!(icmp_checksum(&reply[20..]), 0);
}

#[test]
fn icmp_reply_needs_eight_bytes() {
    assert!(build_icmp_reply([1, 1, 1, 1], [2, 2, 2, 2], &[8, 0, 0, 0, 0, 0, 0]).is_none());
}

#[test]
fn test_icmp_checksum_validity() {
    let data = [0u8, 0, 0, 0, 0x12, 0x34, 0x00, 0x01, b't', b'e', b's', b't'];
    let cksum = icmp_checksum(&data);

    let mut with_cksum = data.to_vec();
    with_cksum[2..4].copy_from_slice(&cksum.to_be_bytes());

    assert_eq!(icmp_checksum(&with_cksum), 0, "ICMP checksum should verify to 0");
}

fn ipv4_packet(protocol: u8, body: &[u8]) -> Vec<u8> {
    let mut p = vec![0x45, 0, 0, 0, 0, 0, 0x40, 0, 64, protocol, 0, 0, 192, 168, 1, 100, 10, 0, 0, 1];
    p.extend_from_slice(body);
    p
}

#[test]
fn classify_packets_by_protocol() {
    assert!(matches!(classify_ip_packet(&[0x45; 10]), IpPacket::Malformed));
    assert!(matches!(classify_ip_packet(&[0x60; 40]), IpPacket::NotIpv4));
    assert!(matches!(classify_ip_packet(&ipv4_packet(6, &[])), IpPacket::Tcp { header_len: 20, .. }));
    assert!(matches!(classify_ip_packet(&ipv4_packet(1, &[])), IpPacket::Ping { header_len: 20, .. }));
    assert!(matches!(classify_ip_packet(&ipv4_packet(47, &[])), IpPacket::Unsupported));
    assert!(matches!(classify_ip_packet(&ipv4_packet(17, &[0, 1, 0, 2])), IpPacket::UdpTruncated));
    let udp = ipv4_packet(17, &[0x30, 0x39, 0, 80, 0, 13, 0, 0, b'H', b'e', b'l', b'l', b'o']);
    match classify_ip_packet(&udp) {
        IpPacket::Udp { src, src_port, dst_port, payload_start, payload_end } => {
            assert_eq!(src, [192, 168, 1, 100]);
            assert_eq!(src_port, 12345);
            assert_eq!(dst_port, 80);
            assert_eq!(&udp[payload_start..payload_end], b"Hello");
        }
        other => panic!("expected UDP, got {:?}", other),
    }
}

#[test]
fn echo_requests_are_answered() {
    let mut request = vec![8, 0, 0, 0, 0x12, 0x34, 0, 1];
    request.extend_from_slice(b"ping");
    let packet = ipv4_packet(1, &request);
    let reply = echo_reply_to(&packet, 20, [192, 168, 1, 100], [10, 0, 0, 1]).unwrap();
    assert_eq!(&reply[12..16], &[10, 0, 0, 1]);
    assert_eq!(&reply[16..20], &[192, 168, 1, 100]);
    assert_eq!(reply[20], 0);
    assert_eq!(icmp_checksum(&reply[20..]), 0);
    let reply_packet = ipv4_packet(1, &[0, 0, 0, 0, 0, 0, 0, 0]);
    assert!(echo_reply_to(&reply_packet, 20, [192, 168, 1, 100], [10, 0, 0, 1]).is_none());
    assert!(echo_reply_to(&ipv4_packet(1, &[8, 0, 0]), 20, [1, 1, 1, 1], [2, 2, 2, 2]).is_none());
}

#[test]
fn p2p_control_packets() {
    assert!(is_p2p_control_packet(&[0x10, 0, 0, 0, 1]));
    assert!(!is_p2p_control_packet(&[0xc0, 0, 0, 0, 1]));
}

#[test]
fn connector_registration_message() {
    assert_eq!(registration_message("echo"), vec![0x11, 4, b'e', b'c', b'h', b'o']);
}

#[test]
fn connector_parse_arg() {
    let args: Vec<String> = vec!["prog".into(), "--server".into(), "1.2.3.4:4433".into(), "--p2p".into()];
    assert_eq!(parse_arg(&args, "--server"), Some("1.2.3.4:4433".to_string()));
    assert_eq!(parse_arg(&args, "--p2p"), None);
    assert_eq!(parse_arg(&args, "--missing"), None);
}
