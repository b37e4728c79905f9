use ztna::test_client::{
    build_ip_udp_packet, count_echo_matches, generate_payload, hex_decode, hex_encode, ip_checksum, parse_arg,
    HexError, ALPN_PROTOCOL, IDLE_TIMEOUT_MS, MAX_DATAGRAM_SIZE,
};

#[test]
fn test_hex_decode() {
    assert_eq!(hex_decode("48454c4c4f").unwrap(), b"HELLO");
    assert_eq!(hex_decode("00ff").unwrap(), vec![0x00, 0xff]);
}

#[test]
fn hex_decode_edge_cases() {
    assert_eq!(hex_decode("  0aFf\n").unwrap(), vec![0x0a, 0xff]);
    assert_eq!(hex_decode(""), Ok(vec![]));
    assert_eq!(hex_decode("abc"), Err(HexError::OddLength));
    assert_eq!(hex_decode("zz"), Err(HexError::InvalidDigit));
    assert_eq!(hex_decode("+f"), Ok(vec![0x0f]));
    assert_eq!(hex_decode("-1"), Err(HexError::InvalidDigit));
    assert_eq!(hex_decode("\u{e9}0"), Err(HexError::InvalidDigit));
    assert_eq!(HexError::OddLength.to_string(), "Hex string must have even length");
}

#[test]
fn test_hex_encode() {
    assert_eq!(hex_encode(b"HELLO"), "48454c4c4f");
}

#[test]
fn hex_round_trip() {
    let data = [0u8, 1, 0x7f, 0x80, 0xfe, 0xff];
    assert_eq!(hex_encode(&data), "00017f80feff");
    assert_eq!(hex_decode(&hex_encode(&data)).unwrap(), data.to_vec());
}

#[test]
fn test_constants() {
    assert_eq!(MAX_DATAGRAM_SIZE, 1350);
    assert_eq!(&ALPN_PROTOCOL, b"ztna-v1");
    assert_eq!(IDLE_TIMEOUT_MS, 30_000);
}

#[test]
fn test_build_ip_udp_packet() {
    let src = ([10, 0, 0, 100], 12345);
    let dst = ([127, 0, 0, 1], 9999);
    let payload = b"Hello";

    let packet = build_ip_udp_packet(src, dst, payload);

    assert_eq!(packet.len(), 33);
    assert_eq!(packet[0], 0x45);
    assert_eq!(packet[9], 17);
    assert_eq!(&packet[12..16], &[10, 0, 0, 100]);
    assert_eq!(&packet[16..20], &[127, 0, 0, 1]);
    assert_eq!(&packet[20..22], &[0x30, 0x39]);
    assert_eq!(&packet[22..24], &[0x27, 0x0F]);
    assert_eq!(&packet[28..], b"Hello");
    assert_eq!(ip_checksum(&packet[..20]), 0);
}

#[test]
fn test_ip_checksum() {
    let header = [
        0x45, 0x00, 0x00, 0x21, 0x00, 0x00, 0x40, 0x00, 0x40, 0x11, 0x00, 0x00, 0x0a, 0x00, 0x00, 0x64, 0x7f, 0x00,
        0x00, 0x01,
    ];
    let checksum = ip_checksum(&header);
    assert!(checksum != 0);
}

#[test]
fn payload_patterns() {
    assert_eq!(generate_payload(3, Some("zeros")), vec![0, 0, 0]);
    assert_eq!(generate_payload(2, Some("ones")), vec![0xff, 0xff]);
    assert_eq!(generate_payload(4, None), vec![0, 1, 2, 3]);
    assert_eq!(generate_payload(2, Some("bogus")), vec![0, 1]);
    let seq = generate_payload(300, Some("sequential"));
    assert_eq!(seq[255], 255);
    assert_eq!(seq[256], 0);
    assert_eq!(generate_payload(16, Some("random")).len(), 16);
}

#[test]
fn echo_matching() {
    let sent = vec![b"one".to_vec(), b"two".to_vec(), b"three".to_vec()];
    let mut r1 = vec![0u8; 28];
    r1.extend_from_slice(b"two");
    let mut r2 = vec![0u8; 28];
    r2.extend_from_slice(b"one");
    let short = b"one".to_vec();
    assert_eq!(count_echo_matches(&sent, &vec![r1, r2, short]), (2, 1));
    assert_eq!(count_echo_matches(&sent, &vec![]), (0, 3));
}

#[test]
fn client_parse_arg() {
    let args: Vec<String> = vec!["c".into(), "--server".into(), "127.0.0.1:4433".into()];
    assert_eq!(parse_arg(&args, "--server"), Some("127.0.0.1:4433".to_string()));
    assert_eq!(parse_arg(&args, "--service"), None);
}
