use ztna::net::{IpAddr, SockAddr};
use ztna::p2p::candidate::{
    calculate_priority, gather_host_candidates, gather_reflexive_candidate, sort_candidates_by_priority, Candidate,
    CandidateType,
};

fn v4(a: u8, b: u8, c: u8, d: u8, port: u16) -> SockAddr {
    SockAddr::v4(a, b, c, d, port)
}

#[test]
fn test_candidate_type_preference() {
    assert_eq!(CandidateType::Host.type_preference(), 126);
    assert_eq!(CandidateType::ServerReflexive.type_preference(), 100);
    assert_eq!(CandidateType::PeerReflexive.type_preference(), 110);
    assert_eq!(CandidateType::Relay.type_preference(), 0);
}

#[test]
fn test_calculate_priority() {
    let host_priority = calculate_priority(126, 65535, 1);
    assert_eq!(host_priority, (126 << 24) | (65535 << 8) | 255);

    let relay_priority = calculate_priority(0, 65535, 1);
    assert_eq!(relay_priority, (0 << 24) | (65535 << 8) | 255);

    let srflx_priority = calculate_priority(100, 65535, 1);
    let prflx_priority = calculate_priority(110, 65535, 1);

    assert!(host_priority > prflx_priority);
    assert!(prflx_priority > srflx_priority);
    assert!(srflx_priority > relay_priority);
}

#[test]
fn test_host_candidate_creation() {
    let addr = v4(192, 168, 1, 100, 50000);
    let candidate = Candidate::host(addr);

    assert_eq!(candidate.candidate_type, CandidateType::Host);
    assert_eq!(candidate.address, addr);
    assert!(candidate.related_address.is_none());
    assert!(candidate.priority > 0);
    assert!(candidate.foundation.contains("host"));
}

#[test]
fn test_srflx_candidate_creation() {
    let public_addr = v4(203, 0, 113, 50, 50000);
    let base_addr = v4(192, 168, 1, 100, 50000);
    let candidate = Candidate::server_reflexive(public_addr, base_addr);

    assert_eq!(candidate.candidate_type, CandidateType::ServerReflexive);
    assert_eq!(candidate.address, public_addr);
    assert_eq!(candidate.related_address, Some(base_addr));
}

#[test]
fn test_relay_candidate_creation() {
    let relay_addr = v4(10, 0, 0, 1, 4433);
    let base_addr = v4(192, 168, 1, 100, 50000);
    let candidate = Candidate::relay(relay_addr, base_addr);

    assert_eq!(candidate.candidate_type, CandidateType::Relay);
    assert_eq!(candidate.address, relay_addr);
    assert_eq!(candidate.related_address, Some(base_addr));
}

#[test]
fn test_gather_host_candidates() {
    let addrs = vec![v4(192, 168, 1, 100, 50000), v4(127, 0, 0, 1, 50000), v4(10, 0, 0, 5, 50000)];

    let candidates = gather_host_candidates(&addrs, false);
    assert_eq!(candidates.len(), 2);
    assert!(candidates.iter().all(|c| !c.is_loopback()));

    let candidates_with_lo = gather_host_candidates(&addrs, true);
    assert_eq!(candidates_with_lo.len(), 3);
}

#[test]
fn test_gather_reflexive_candidate() {
    let reflexive = v4(203, 0, 113, 50, 50000);
    let base = v4(192, 168, 1, 100, 50000);

    let candidate = gather_reflexive_candidate(reflexive, base);
    assert!(candidate.is_some());

    let same_ip = v4(192, 168, 1, 100, 51000);
    let no_candidate = gather_reflexive_candidate(same_ip, base);
    assert!(no_candidate.is_none());
}

#[test]
fn test_sort_candidates_by_priority() {
    let mut candidates = vec![
        Candidate::relay(v4(10, 0, 0, 1, 4433), v4(192, 168, 1, 1, 5000)),
        Candidate::host(v4(192, 168, 1, 100, 50000)),
        Candidate::server_reflexive(v4(203, 0, 113, 50, 50000), v4(192, 168, 1, 100, 50000)),
    ];

    sort_candidates_by_priority(&mut candidates);

    assert_eq!(candidates[0].candidate_type, CandidateType::Host);
    assert_eq!(candidates[1].candidate_type, CandidateType::ServerReflexive);
    assert_eq!(candidates[2].candidate_type, CandidateType::Relay);
}

#[test]
fn test_candidate_display() {
    let candidate = Candidate::host(v4(192, 168, 1, 100, 50000));
    let display = candidate.to_string();
    assert!(display.contains("host"));
    assert!(display.contains("192.168.1.100:50000"));
    assert!(display.contains("priority"));
}

#[test]
fn test_is_loopback() {
    let loopback = Candidate::host(v4(127, 0, 0, 1, 5000));
    let normal = Candidate::host(v4(192, 168, 1, 1, 5000));

    assert!(loopback.is_loopback());
    assert!(!normal.is_loopback());
}

#[test]
fn candidate_priority_exact_values() {
    let host = Candidate::host(v4(192, 168, 1, 100, 50000));
    assert_eq!(host.priority, (126 << 24) | (65535 << 8) | 255);
    let v6 = Candidate::host(SockAddr::new(IpAddr::V6(0x2001, 0xdb8, 0, 0, 0, 0, 0, 1), 5000));
    assert!(v6.priority < host.priority);
    assert_eq!(host.foundation, "host_192.168.1.100");
}

#[test]
fn candidate_display_exact_text() {
    let candidate = Candidate::host(v4(192, 168, 1, 100, 50000));
    assert_eq!(
        candidate.to_string(),
        format!("host 192.168.1.100:50000 priority {} foundation host_192.168.1.100", candidate.priority)
    );
}

#[test]
fn calculate_priority_clamps_inputs() {
    assert_eq!(calculate_priority(200, 70000, 0), calculate_priority(126, 65535, 1));
    assert_eq!(calculate_priority(0, 0, 300), 0);
}

#[test]
fn test_enumerate_local_addresses() {
    let interfaces = [[127, 0, 0, 1], [192, 168, 1, 100], [10, 0, 0, 5]];
    let addrs = ztna::p2p::candidate::local_addresses_from(&interfaces, 50000);
    assert_eq!(addrs.len(), 2);
    for addr in &addrs {
        assert!(!addr.ip.is_loopback());
        assert_eq!(addr.port, 50000);
    }
}
