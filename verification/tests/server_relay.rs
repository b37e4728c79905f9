use ztna::net::SockAddr;
use ztna::p2p::candidate::Candidate;
use ztna::p2p::signaling::{SignalingError, SignalingMessage};
use ztna::server::client::Client;
use ztna::server::retry::{
    admit_new_connection, admit_new_connection_at, mint_retry_token, mint_retry_token_at, validate_retry_token,
    validate_retry_token_at, Admission,
};
use ztna::server::router::{
    classify_datagram, parse_registration, registration_ack, registration_nack, DatagramKind, RegistrationRequest,
    RelayState, ServiceRoute, ALPN_PROTOCOL, NACK_INVALID,
};
use ztna::server::registry::ClientType;

fn relay_with(ids: &[u8]) -> RelayState {
    let mut s = RelayState::new(false);
    for id in ids {
        s.add_client(vec![*id], Client::new(SockAddr::v4(10, 0, 0, *id, 5000)));
    }
    s
}

#[test]
fn server_constants() {
    assert_eq!(&ALPN_PROTOCOL, b"ztna-v1");
}

#[test]
fn datagram_kinds() {
    assert_eq!(classify_datagram(&[]), DatagramKind::Empty);
    assert_eq!(classify_datagram(&[0x01, 1]), DatagramKind::AddressDiscovery);
    assert_eq!(classify_datagram(&[0x10]), DatagramKind::Registration);
    assert_eq!(classify_datagram(&[0x11]), DatagramKind::Registration);
    assert_eq!(classify_datagram(&[0x2F]), DatagramKind::ServiceRouted);
    assert_eq!(classify_datagram(&[0x45, 0]), DatagramKind::Raw);
}

#[test]
fn registration_parsing() {
    assert!(matches!(parse_registration(&[0x10]), RegistrationRequest::Ignored));
    assert!(matches!(parse_registration(&[0x10, 5, b'a']), RegistrationRequest::Ignored));
    assert!(matches!(parse_registration(&[0x10, 1, 0xff]), RegistrationRequest::InvalidServiceId));
    match parse_registration(&[0x11, 3, b'w', b'e', b'b']) {
        RegistrationRequest::Valid(t, s) => {
            assert_eq!(t, ClientType::Connector);
            assert_eq!(s, "web");
        }
        other => panic!("unexpected {:?}", other),
    }
    assert_eq!(registration_ack("web"), vec![0x12, 0, 3, b'w', b'e', b'b']);
    assert_eq!(registration_nack(&[], NACK_INVALID), vec![0x13, 0x01, 0]);
}

#[test]
fn registration_then_relay() {
    let mut s = relay_with(&[1, 2]);
    let ack = s.handle_registration(&vec![1], &[0x11, 3, b'w', b'e', b'b']).unwrap();
    assert_eq!(ack, vec![0x12, 0, 3, b'w', b'e', b'b']);
    s.handle_registration(&vec![2], &[0x10, 3, b'w', b'e', b'b']).unwrap();
    assert_eq!(s.route_datagram(&vec![2]), Some(vec![1]));
    assert_eq!(s.route_datagram(&vec![1]), Some(vec![2]));

    match s.route_service_datagram(&vec![2], &[0x2F, 3, b'w', b'e', b'b', 0x45, 0, 1]) {
        ServiceRoute::Forward { dest, packet } => {
            assert_eq!(dest, vec![1]);
            assert_eq!(packet, vec![0x45, 0, 1]);
        }
        other => panic!("unexpected {:?}", other),
    }
    assert!(matches!(s.route_service_datagram(&vec![1], &[0x2F, 3, b'w', b'e', b'b', 0]), ServiceRoute::Unauthorized));
    assert!(matches!(s.route_service_datagram(&vec![2], &[0x2F, 9, b'w']), ServiceRoute::Malformed));
}

#[test]
fn invalid_service_id_is_refused() {
    let mut s = relay_with(&[1]);
    assert_eq!(s.handle_registration(&vec![1], &[0x10, 1, 0xff]), Some(vec![0x13, 0x01, 0]));
    assert_eq!(s.handle_registration(&vec![1], &[0x42, 0]), None);
}

#[test]
fn signaling_offer_without_connector_is_answered_with_an_error() {
    let mut s = relay_with(&[1]);
    let offer = SignalingMessage::CandidateOffer { session_id: 9, service_id: "db".to_string(), candidates: vec![] };
    let out = s.handle_signaling_message_at(&vec![1], 0, offer, 0);
    assert_eq!(out.len(), 1);
    assert_eq!(out[0].0, vec![1]);
    match &out[0].1 {
        SignalingMessage::Error { session_id, code, message } => {
            assert_eq!(*session_id, Some(9));
            assert_eq!(*code, SignalingError::NoConnectorAvailable);
            assert_eq!(message, "No Connector available for service 'db'");
        }
        other => panic!("unexpected {:?}", other),
    }
}

#[test]
fn signaling_offer_answer_and_start() {
    let mut s = relay_with(&[1, 2]);
    s.handle_registration(&vec![1], &[0x11, 2, b'd', b'b']).unwrap();
    let agent_candidates = vec![Candidate::host(SockAddr::v4(192, 168, 1, 100, 5000))];
    let offer = SignalingMessage::CandidateOffer { session_id: 9, service_id: "db".to_string(), candidates: agent_candidates.clone() };
    let out = s.handle_signaling_message_at(&vec![2], 0, offer, 0);
    assert_eq!(out.len(), 1);
    assert_eq!(out[0].0, vec![1]);

    let connector_candidates = vec![Candidate::host(SockAddr::v4(10, 0, 0, 1, 4434))];
    let answer = SignalingMessage::CandidateAnswer { session_id: 9, candidates: connector_candidates.clone() };
    let out = s.handle_signaling_message_at(&vec![1], 4, answer, 10);
    assert!(out.is_empty());

    let started = s.process_ready_sessions();
    assert_eq!(started.len(), 2);
    let mut saw_agent = false;
    let mut saw_connector = false;
    for (dest, msg) in &started {
        match msg {
            SignalingMessage::StartPunching { session_id, start_delay_ms, peer_candidates } => {
                assert_eq!(*session_id, 9);
                assert_eq!(*start_delay_ms, 100);
                if *dest == vec![2] {
                    assert_eq!(peer_candidates, &connector_candidates);
                    saw_agent = true;
                } else {
                    assert_eq!(*dest, vec![1]);
                    assert_eq!(peer_candidates, &agent_candidates);
                    saw_connector = true;
                }
            }
            other => panic!("unexpected {:?}", other),
        }
    }
    assert!(saw_agent && saw_connector);
}

#[test]
fn answer_for_unknown_session_is_refused() {
    let mut s = relay_with(&[1]);
    let answer = SignalingMessage::CandidateAnswer { session_id: 77, candidates: vec![] };
    let out = s.handle_signaling_message_at(&vec![1], 0, answer, 0);
    assert_eq!(out.len(), 1);
    match &out[0].1 {
        SignalingMessage::Error { code, message, .. } => {
            assert_eq!(*code, SignalingError::SessionNotFound);
            assert_eq!(message, "Session 77 not found");
        }
        other => panic!("unexpected {:?}", other),
    }
}

#[test]
fn rotated_connection_ids_keep_four_aliases() {
    let mut s = relay_with(&[1]);
    for k in 10u8..16 {
        s.add_cid_alias(vec![k], &vec![1]);
    }
    assert_eq!(s.resolve_conn_id(&vec![15]), vec![1]);
    assert_eq!(s.resolve_conn_id(&vec![12]), vec![1]);
    assert_eq!(s.resolve_conn_id(&vec![11]), vec![11]);
    assert_eq!(s.resolve_conn_id(&vec![10]), vec![10]);
    assert_eq!(s.resolve_conn_id(&vec![1]), vec![1]);
}

#[test]
fn removing_a_client_drops_its_registrations() {
    let mut s = relay_with(&[1, 2]);
    s.handle_registration(&vec![1], &[0x11, 1, b'x']).unwrap();
    s.handle_registration(&vec![2], &[0x10, 1, b'x']).unwrap();
    s.remove_client(&vec![1]);
    assert_eq!(s.route_datagram(&vec![2]), None);
}

#[test]
fn observed_address_changes() {
    let mut s = relay_with(&[1]);
    assert!(!s.observe_address(&vec![1], SockAddr::v4(10, 0, 0, 1, 5000)));
    assert!(s.observe_address(&vec![1], SockAddr::v4(10, 0, 0, 1, 6000)));
    assert!(!s.observe_address(&vec![9], SockAddr::v4(10, 0, 0, 1, 6000)));
}

#[test]
fn retry_tokens_round_trip() {
    let key = [7u8; 32];
    let nonce = [3u8; 12];
    let addr = SockAddr::v4(192, 168, 1, 100, 5000);
    let token = mint_retry_token_at(&key, &[1, 2, 3, 4], addr, 1_000, &nonce).unwrap();
    assert_eq!(&token[..12], &nonce);
    assert_eq!(validate_retry_token_at(&key, &token, addr, 1_060), Some(vec![1, 2, 3, 4]));
    assert_eq!(validate_retry_token_at(&key, &token, addr, 1_061), None);
    assert_eq!(validate_retry_token_at(&key, &token, SockAddr::v4(192, 168, 1, 101, 5000), 1_000), None);
    assert_eq!(validate_retry_token_at(&[8u8; 32], &token, addr, 1_000), None);
    let mut tampered = token.clone();
    let last = tampered.len() - 1;
    tampered[last] ^= 1;
    assert_eq!(validate_retry_token_at(&key, &tampered, addr, 1_000), None);

    let fresh = mint_retry_token(&key, &[9, 9], addr).unwrap();
    assert_eq!(validate_retry_token(&key, &fresh, addr), Some(vec![9, 9]));
}

#[test]
fn new_connections_are_admitted_by_retry_token() {
    let key = [7u8; 32];
    let addr = SockAddr::v4(192, 168, 1, 100, 5000);
    assert!(matches!(admit_new_connection_at(&key, false, &[], addr, 1_000), Admission::Accept(None)));
    assert!(matches!(admit_new_connection_at(&key, false, &[1, 2, 3], addr, 1_000), Admission::Accept(None)));
    assert!(matches!(admit_new_connection_at(&key, true, &[], addr, 1_000), Admission::SendRetry));
    let token = mint_retry_token_at(&key, &[5, 6, 7], addr, 1_000, &[1u8; 12]).unwrap();
    match admit_new_connection_at(&key, true, &token, addr, 1_030) {
        Admission::Accept(Some(dcid)) => assert_eq!(dcid, vec![5, 6, 7]),
        other => panic!("unexpected admission {:?}", other),
    }
    assert!(matches!(admit_new_connection_at(&key, true, &token, addr, 1_061), Admission::Reject));
    assert!(matches!(admit_new_connection_at(&key, true, &[0u8; 40], addr, 1_000), Admission::Reject));
    let fresh = mint_retry_token(&key, &[9], addr).unwrap();
    match admit_new_connection(&key, true, &fresh, addr) {
        Admission::Accept(Some(dcid)) => assert_eq!(dcid, vec![9]),
        other => panic!("unexpected admission {:?}", other),
    }
}
