use ztna::connector::forward::FlowTable;
use ztna::connector::signaling::{
    gather_candidates_with_observed, host_candidate, P2PSession, P2PSessionManager, P2PSessionState,
};
use ztna::connector::tcp::{parse_tcp_header, TcpHeader, TcpProxy, TcpStep, WriteOutcome};
use ztna::connector::packet::{TCP_ACK, TCP_FIN, TCP_PSH, TCP_RST, TCP_SYN};
use ztna::net::{IpAddr, SockAddr};
use ztna::p2p::candidate::{Candidate, CandidateType};
use ztna::p2p::signaling::SignalingMessage;

#[test]
fn test_session_lifecycle() {
    let mut manager = P2PSessionManager::new();

    manager.create_session(100, vec![]);
    assert!(manager.get_session(100).is_some());

    if let Some(session) = manager.get_session_mut(100) {
        session.set_local_candidates(vec![Candidate::host(SockAddr::v4(192, 168, 1, 1, 5000))]);
        assert_eq!(session.state, P2PSessionState::AwaitingStart);
    }

    manager.remove_session(100);
    assert!(manager.get_session(100).is_none());
}

#[test]
fn connector_candidate_priorities() {
    let c = host_candidate(SockAddr::v4(10, 0, 0, 2, 4434));
    assert_eq!(c.priority, (126 << 24) + 256);
    assert_eq!(c.foundation, "host_10.0.0.2");
}

#[test]
fn gathered_candidates_skip_unchanged_observed_address() {
    let bind = SockAddr::v4(10, 0, 0, 2, 4434);
    let relay = SockAddr::v4(1, 2, 3, 4, 4433);
    let same = gather_candidates_with_observed(bind, Some(bind), Some(relay));
    assert_eq!(same.len(), 2);
    assert_eq!(same[1].candidate_type, CandidateType::Relay);
    let public = SockAddr::v4(203, 0, 113, 9, 4434);
    let all = gather_candidates_with_observed(bind, Some(public), Some(relay));
    assert_eq!(all.len(), 3);
    assert_eq!(all[1].candidate_type, CandidateType::ServerReflexive);
    assert_eq!(all[1].related_address, Some(bind));
}

#[test]
fn sessions_expire_and_punch_on_time() {
    let mut s = P2PSession::new_at(7, vec![], 1_000);
    assert!(!s.is_expired_at(6_000));
    assert!(s.is_expired_at(6_001));
    s.set_punch_start_at(100, 2_000);
    assert_eq!(s.state, P2PSessionState::Punching);
    assert!(!s.should_start_punching_at(2_099));
    assert!(s.should_start_punching_at(2_100));

    let mut m = P2PSessionManager::new();
    m.create_session_at(1, vec![], 0);
    m.create_session_at(2, vec![], 3_000);
    assert_eq!(m.cleanup_expired_at(7_000), vec![1]);
    assert!(m.get_session(2).is_some());
}

#[test]
fn connector_answers_an_offer() {
    let mut m = P2PSessionManager::new();
    let offer = SignalingMessage::CandidateOffer {
        session_id: 5,
        service_id: "svc".to_string(),
        candidates: vec![Candidate::host(SockAddr::v4(192, 168, 1, 100, 5000))],
    };
    let bind = SockAddr::v4(10, 0, 0, 2, 4434);
    let server = SockAddr::v4(1, 2, 3, 4, 4433);
    let answer = m.handle_message_at(offer, bind, None, Some(IpAddr::V4(203, 0, 113, 7)), server, 50);
    match answer {
        Some(SignalingMessage::CandidateAnswer { session_id, candidates }) => {
            assert_eq!(session_id, 5);
            assert_eq!(candidates.len(), 3);
            assert_eq!(candidates[1].address, SockAddr::v4(203, 0, 113, 7, 4434));
        }
        other => panic!("expected an answer, got {:?}", other),
    }
    assert_eq!(m.get_session(5).unwrap().state, P2PSessionState::AwaitingStart);

    let start = SignalingMessage::StartPunching { session_id: 5, start_delay_ms: 100, peer_candidates: vec![] };
    assert!(m.handle_message_at(start, bind, None, None, server, 60).is_none());
    assert!(m.get_session(5).unwrap().should_start_punching_at(160));
}

fn header(flags: u8, seq: u32) -> TcpHeader {
    TcpHeader { src_port: 40000, dst_port: 80, seq, flags, payload_start: 40 }
}

#[test]
fn tcp_proxy_handshake_data_and_close() {
    let agent = [192, 168, 1, 100];
    let service = [10, 0, 0, 1];
    let mut p = TcpProxy::new();

    let (step, out) = p.on_segment(agent, service, &header(TCP_SYN, 1000), 0, 0);
    assert!(matches!(step, TcpStep::Connect));
    assert!(out.is_empty());
    let syn_ack = p.on_connect(agent, service, &header(TCP_SYN, 1000), true, 5000, 0);
    assert_eq!(syn_ack[33], TCP_SYN | TCP_ACK);
    assert_eq!(&syn_ack[24..28], &5000u32.to_be_bytes());
    assert_eq!(&syn_ack[28..32], &1001u32.to_be_bytes());
    assert_eq!(p.len(), 1);

    let (step, _) = p.on_segment(agent, service, &header(TCP_ACK | TCP_PSH, 1001), 4, 1);
    assert!(matches!(step, TcpStep::Write));
    let ack = p.on_write(agent, service, &header(TCP_ACK | TCP_PSH, 1001), 4, WriteOutcome::Wrote(4)).unwrap();
    assert_eq!(&ack[28..32], &1005u32.to_be_bytes());

    let (step, out) = p.on_segment(agent, service, &header(TCP_FIN | TCP_ACK, 1005), 0, 2);
    assert!(matches!(step, TcpStep::Done));
    assert_eq!(out.len(), 1);
    assert_eq!(out[0][33], TCP_FIN | TCP_ACK);
    assert_eq!(p.len(), 0);
}

#[test]
fn tcp_proxy_refused_connection_is_reset() {
    let mut p = TcpProxy::new();
    let rst = p.on_connect([1, 1, 1, 1], [2, 2, 2, 2], &header(TCP_SYN, 9), false, 0, 0);
    assert_eq!(rst[33], TCP_RST | TCP_ACK);
    assert_eq!(p.len(), 0);
}

#[test]
fn tcp_header_parsing() {
    let mut d = vec![0x45u8; 20];
    d.extend_from_slice(&[0x9c, 0x40, 0, 80, 0, 0, 0, 1, 0, 0, 0, 0, 0x50, TCP_SYN, 0xff, 0xff, 0, 0, 0, 0]);
    let h = parse_tcp_header(&d, 20).unwrap();
    assert_eq!(h.src_port, 40000);
    assert_eq!(h.dst_port, 80);
    assert_eq!(h.seq, 1);
    assert_eq!(h.flags, TCP_SYN);
    assert_eq!(h.payload_start, 40);
    assert!(parse_tcp_header(&d[..30], 20).is_none());
}

#[test]
fn udp_flows_remember_and_expire() {
    let mut t = FlowTable::new();
    assert!(t.return_flow().is_none());
    t.touch([192, 168, 1, 100], 5555, 53, 1_000);
    t.touch([192, 168, 1, 101], 6666, 53, 50_000);
    assert_eq!(t.return_flow(), Some(([192, 168, 1, 100], 5555, 53)));
    t.expire(61_000);
    assert_eq!(t.return_flow(), Some(([192, 168, 1, 101], 6666, 53)));
}
