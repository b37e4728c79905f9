use ztna::net::SockAddr;
use ztna::p2p::resilience::{
    decode_keepalive, encode_keepalive_request, encode_keepalive_response, ActivePath, PathInfo, PathManager, PathState,
    KEEPALIVE_REQUEST, KEEPALIVE_RESPONSE, MISSED_KEEPALIVES_THRESHOLD,
};

fn addr(a: u8, b: u8, c: u8, d: u8, port: u16) -> SockAddr {
    SockAddr::v4(a, b, c, d, port)
}

#[test]
fn test_encode_decode_keepalive_request() {
    let msg = encode_keepalive_request(12345);
    let (is_response, seq) = decode_keepalive(&msg).unwrap();

    assert!(!is_response);
    assert_eq!(seq, 12345);
}

#[test]
fn test_encode_decode_keepalive_response() {
    let msg = encode_keepalive_response(67890);
    let (is_response, seq) = decode_keepalive(&msg).unwrap();

    assert!(is_response);
    assert_eq!(seq, 67890);
}

#[test]
fn test_decode_invalid_keepalive() {
    assert!(decode_keepalive(&[0x10]).is_none());
    assert!(decode_keepalive(&[0x00, 0, 0, 0, 0]).is_none());
}

#[test]
fn keepalive_wire_format() {
    assert_eq!(encode_keepalive_request(0x01020304), [KEEPALIVE_REQUEST, 1, 2, 3, 4]);
    assert_eq!(encode_keepalive_response(7), [KEEPALIVE_RESPONSE, 0, 0, 0, 7]);
    assert_eq!(decode_keepalive(&[KEEPALIVE_RESPONSE, 0, 0, 1, 0, 99]), Some((true, 256)));
}

#[test]
fn test_path_info_creation() {
    let a = addr(192, 168, 1, 100, 5000);
    let path = PathInfo::new(a);

    assert_eq!(path.remote_addr, a);
    assert_eq!(path.state, PathState::Active);
    assert_eq!(path.missed_keepalives, 0);
    assert!(path.is_usable());
}

#[test]
fn test_path_info_keepalive_cycle() {
    let mut path = PathInfo::new(addr(192, 168, 1, 100, 5000));

    assert!(path.should_send_keepalive());

    let seq = path.record_keepalive_sent();
    assert_eq!(seq, 1);

    assert!(!path.should_send_keepalive());

    path.record_keepalive_received(1);
    assert_eq!(path.last_acked_sequence, 1);
    assert_eq!(path.missed_keepalives, 0);
}

#[test]
fn keepalive_timeout_at_fixed_times() {
    let mut path = PathInfo::new_at(addr(192, 168, 1, 100, 5000), 1_000);
    path.record_keepalive_sent_at(1_000);
    assert!(!path.check_timeout_at(5_999));
    assert!(!path.check_timeout_at(6_000));
    assert_eq!(path.state, PathState::Degraded);
    assert_eq!(path.missed_keepalives, 1);
    assert!(!path.check_timeout_at(12_000));
    assert_eq!(path.missed_keepalives, 1);
    path.record_keepalive_sent_at(16_000);
    assert!(!path.check_timeout_at(21_000));
    assert_eq!(path.missed_keepalives, 2);
    assert_eq!(path.state, PathState::Degraded);
    path.record_keepalive_sent_at(31_000);
    assert!(!path.check_timeout_at(35_999));
    assert!(path.check_timeout_at(36_000));
    assert_eq!(path.state, PathState::Failed);
    assert_eq!(path.missed_keepalives, MISSED_KEEPALIVES_THRESHOLD);
    assert!(!path.can_retry_at(36_000 + 29_999));
    assert!(path.can_retry_at(36_000 + 30_000));
}

#[test]
fn one_unanswered_keepalive_counts_once() {
    let mut path = PathInfo::new_at(addr(192, 168, 1, 100, 5000), 0);
    assert_eq!(path.record_keepalive_sent_at(0), 1);
    assert!(!path.check_timeout_at(5_000));
    assert!(!path.check_timeout_at(6_000));
    assert!(!path.check_timeout_at(60_000));
    assert_eq!(path.missed_keepalives, 1);
    assert_eq!(path.state, PathState::Degraded);
    assert!(path.is_usable());
}

#[test]
fn test_path_manager_direct_path() {
    let mut manager = PathManager::new();
    let relay = addr(1, 2, 3, 4, 4433);
    let direct = addr(192, 168, 1, 100, 5000);

    assert_eq!(manager.active_path_type(), ActivePath::NoPath);

    manager.set_relay(relay);
    assert_eq!(manager.active_path_type(), ActivePath::Relay);
    assert_eq!(manager.active_addr(), Some(relay));

    manager.set_direct(direct);
    assert_eq!(manager.active_path_type(), ActivePath::Direct);
    assert_eq!(manager.active_addr(), Some(direct));
    assert!(!manager.is_in_fallback());
}

#[test]
fn test_path_manager_keepalive_poll() {
    let mut manager = PathManager::new();
    let direct = addr(192, 168, 1, 100, 5000);
    manager.set_direct(direct);

    let result = manager.poll_keepalive();
    assert!(result.is_some());

    let (a, msg) = result.unwrap();
    assert_eq!(a, direct);

    let (is_response, seq) = decode_keepalive(&msg).unwrap();
    assert!(!is_response);
    assert_eq!(seq, 1);
}

#[test]
fn test_path_manager_process_keepalive_request() {
    let mut manager = PathManager::new();
    let direct = addr(192, 168, 1, 100, 5000);
    manager.set_direct(direct);

    let request = encode_keepalive_request(42);
    let response = manager.process_keepalive(direct, &request);

    assert!(response.is_some());
    let (is_response, seq) = decode_keepalive(&response.unwrap()).unwrap();
    assert!(is_response);
    assert_eq!(seq, 42);
}

#[test]
fn test_path_manager_process_keepalive_response() {
    let mut manager = PathManager::new();
    let direct = addr(192, 168, 1, 100, 5000);
    manager.set_direct(direct);

    manager.poll_keepalive();

    let response = encode_keepalive_response(1);
    let result = manager.process_keepalive(direct, &response);
    assert!(result.is_none());

    let path = manager.direct_path().unwrap();
    assert_eq!(path.last_acked_sequence, 1);
}

#[test]
fn keepalive_from_another_address_is_ignored() {
    let mut manager = PathManager::new();
    manager.set_direct(addr(192, 168, 1, 100, 5000));
    assert!(manager.process_keepalive(addr(10, 0, 0, 1, 5000), &encode_keepalive_request(1)).is_none());
}

#[test]
fn test_path_manager_fallback() {
    let mut manager = PathManager::new();
    let relay = addr(1, 2, 3, 4, 4433);
    let direct = addr(192, 168, 1, 100, 5000);

    manager.set_relay(relay);
    manager.set_direct_at(direct, 0);
    manager.poll_keepalive_at(0);
    assert!(!manager.check_timeouts_at(5_000));
    manager.poll_keepalive_at(15_000);
    assert!(!manager.check_timeouts_at(20_000));
    manager.poll_keepalive_at(30_000);
    assert!(manager.check_timeouts_at(35_000));

    assert_eq!(manager.active_path_type(), ActivePath::Relay);
    assert!(manager.is_in_fallback());
    assert_eq!(manager.active_addr(), Some(relay));
}

#[test]
fn test_path_state_transitions() {
    let mut path = PathInfo::new(addr(192, 168, 1, 100, 5000));
    assert_eq!(path.state, PathState::Active);

    path.missed_keepalives = 1;
    path.state = PathState::Degraded;
    assert_eq!(path.state, PathState::Degraded);
    assert!(path.is_usable());

    path.record_keepalive_received(1);
    assert_eq!(path.state, PathState::Active);

    path.missed_keepalives = MISSED_KEEPALIVES_THRESHOLD;
    path.state = PathState::Failed;
    path.last_failure = Some(
        std::time::SystemTime::now().duration_since(std::time::UNIX_EPOCH).unwrap().as_millis() as u64,
    );
    assert_eq!(path.state, PathState::Failed);
    assert!(!path.is_usable());

    assert!(!path.can_retry());
}

#[test]
fn test_path_stats() {
    let mut manager = PathManager::new();
    manager.set_direct(addr(192, 168, 1, 100, 5000));

    let stats = manager.stats();
    assert_eq!(stats.active_path, ActivePath::Direct);
    assert!(!stats.in_fallback);
    assert_eq!(stats.direct_state, Some(PathState::Active));
    assert_eq!(stats.missed_keepalives, 0);
}

#[test]
fn test_path_manager_integration() {
    let mut manager = PathManager::new();

    assert_eq!(manager.active_path_type(), ActivePath::NoPath);
    assert!(!manager.is_in_fallback());

    let relay_addr = addr(1, 2, 3, 4, 4433);
    manager.set_relay(relay_addr);
    assert_eq!(manager.active_path_type(), ActivePath::Relay);
    assert_eq!(manager.active_addr(), Some(relay_addr));

    let direct_addr = addr(192, 168, 1, 100, 5000);
    manager.set_direct(direct_addr);
    assert_eq!(manager.active_path_type(), ActivePath::Direct);
    assert_eq!(manager.active_addr(), Some(direct_addr));
    assert!(!manager.is_in_fallback());

    let keepalive = manager.poll_keepalive();
    assert!(keepalive.is_some());
    let (a, msg) = keepalive.unwrap();
    assert_eq!(a, direct_addr);
    assert_eq!(msg[0], KEEPALIVE_REQUEST);

    let request = encode_keepalive_request(42);
    let response = manager.process_keepalive(direct_addr, &request);
    assert!(response.is_some());
    let resp = response.unwrap();
    assert_eq!(resp[0], KEEPALIVE_RESPONSE);

    let stats = manager.stats();
    assert_eq!(stats.active_path, ActivePath::Direct);
    assert!(!stats.in_fallback);
    assert_eq!(stats.missed_keepalives, 0);
}
