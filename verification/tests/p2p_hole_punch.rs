use ztna::net::SockAddr;
use ztna::p2p::candidate::{Candidate, CandidateType};
use ztna::p2p::connectivity::{BindingMessage, BindingResponse};
use ztna::p2p::hole_punch::{
    select_path, should_switch_to_direct, should_switch_to_relay, HolePunchCoordinator, HolePunchResult, HolePunchState,
    PathSelection,
};
use ztna::p2p::signaling::SignalingMessage;

fn addr(a: u8, b: u8, c: u8, d: u8, port: u16) -> SockAddr {
    SockAddr::v4(a, b, c, d, port)
}

fn checking_coordinator() -> HolePunchCoordinator {
    let mut coord = HolePunchCoordinator::new(12345, "test-service".to_string(), true);
    coord.start_gathering(&[addr(192, 168, 1, 100, 5000)]);
    let remote_offer = SignalingMessage::CandidateAnswer {
        session_id: 12345,
        candidates: vec![Candidate::host(addr(192, 168, 1, 200, 5000))],
    };
    coord.process_signaling(remote_offer).unwrap();
    coord.start_checking();
    coord
}

#[test]
fn test_coordinator_creation() {
    let coord = HolePunchCoordinator::new(12345, "test-service".to_string(), true);

    assert_eq!(coord.state(), HolePunchState::Idle);
    assert_eq!(coord.session_id(), 12345);
    assert!(coord.working_address().is_none());
}

#[test]
fn test_gathering_host_candidates() {
    let mut coord = HolePunchCoordinator::new(12345, "test-service".to_string(), true);
    let local_addrs = vec![addr(192, 168, 1, 100, 5000), addr(10, 0, 0, 1, 5000)];

    coord.start_gathering(&local_addrs);

    assert_eq!(coord.state(), HolePunchState::Signaling);
    assert_eq!(coord.local_candidates().len(), 2);
    assert!(coord.local_candidates().iter().all(|c| c.candidate_type == CandidateType::Host));
}

#[test]
fn test_gathering_with_reflexive() {
    let mut coord = HolePunchCoordinator::new(12345, "test-service".to_string(), true);
    coord.set_observed_addr(addr(203, 0, 113, 50, 5000));

    let local_addrs = vec![addr(192, 168, 1, 100, 5000)];
    coord.start_gathering(&local_addrs);

    assert_eq!(coord.local_candidates().len(), 2);
    assert!(coord.local_candidates().iter().any(|c| c.candidate_type == CandidateType::Host));
    assert!(coord.local_candidates().iter().any(|c| c.candidate_type == CandidateType::ServerReflexive));
}

#[test]
fn test_gathering_with_relay() {
    let mut coord = HolePunchCoordinator::new(12345, "test-service".to_string(), true);
    coord.set_intermediate_addr(addr(1, 2, 3, 4, 4433));

    let local_addrs = vec![addr(192, 168, 1, 100, 5000)];
    coord.start_gathering(&local_addrs);

    assert_eq!(coord.local_candidates().len(), 2);
    assert!(coord.local_candidates().iter().any(|c| c.candidate_type == CandidateType::Relay));
}

#[test]
fn test_candidate_offer_generation() {
    let mut coord = HolePunchCoordinator::new(12345, "test-service".to_string(), true);
    coord.start_gathering(&[addr(192, 168, 1, 100, 5000)]);

    let offer = coord.get_candidate_offer();
    assert!(offer.is_some());

    match offer.unwrap() {
        SignalingMessage::CandidateOffer { session_id, service_id, candidates } => {
            assert_eq!(session_id, 12345);
            assert_eq!(service_id, "test-service");
            assert_eq!(candidates.len(), 1);
        }
        _ => panic!("Expected CandidateOffer"),
    }
}

#[test]
fn test_signaling_flow() {
    let mut agent = HolePunchCoordinator::new(12345, "test-service".to_string(), true);
    agent.start_gathering(&[addr(192, 168, 1, 100, 5000)]);

    let mut connector = HolePunchCoordinator::new(12345, "test-service".to_string(), false);
    connector.start_gathering(&[addr(192, 168, 1, 200, 5000)]);

    let offer = agent.get_candidate_offer().unwrap();

    connector.process_signaling(offer).unwrap();
    let answer = connector.poll_signaling_message().unwrap();

    agent.process_signaling(answer).unwrap();

    assert!(!agent.remote_candidates().is_empty());
    assert!(!connector.remote_candidates().is_empty());
}

#[test]
fn test_start_checking() {
    let coord = checking_coordinator();
    assert_eq!(coord.state(), HolePunchState::Checking);
    assert_eq!(coord.check_list().pair_count(), 1);
}

#[test]
fn test_binding_request_poll() {
    let mut coord = checking_coordinator();

    let result = coord.poll_binding_request(4242);
    assert!(result.is_some());

    let (a, msg) = result.unwrap();
    assert_eq!(a, addr(192, 168, 1, 200, 5000));
    assert!(matches!(msg, BindingMessage::Request(_)));
}

#[test]
fn test_binding_response_handling() {
    let mut coord = checking_coordinator();

    let (a, msg) = coord.poll_binding_request(4242).unwrap();
    let txn_id = match msg {
        BindingMessage::Request(req) => req.transaction_id,
        _ => panic!("Expected request"),
    };

    let response = BindingResponse::success(txn_id, a);
    coord.process_binding(a, BindingMessage::Response(response));

    assert_eq!(coord.state(), HolePunchState::Connected);
    assert_eq!(coord.working_address(), Some(a));
}

#[test]
fn test_should_switch_to_direct() {
    assert!(should_switch_to_direct(30, 100));
    assert!(!should_switch_to_direct(80, 100));
}

#[test]
fn test_should_switch_to_relay() {
    assert!(should_switch_to_relay(50, 100, 3));
    assert!(!should_switch_to_relay(50, 100, 0));
}

#[test]
fn switching_thresholds_are_exclusive() {
    assert!(!should_switch_to_direct(50, 100));
    assert!(should_switch_to_direct(49, 100));
    assert!(!should_switch_to_relay(100, 50, 2));
    assert!(should_switch_to_relay(100, 49, 0));
}

#[test]
fn test_result_connected() {
    let mut coord = checking_coordinator();
    let (a, msg) = coord.poll_binding_request(4242).unwrap();
    if let BindingMessage::Request(req) = msg {
        coord.process_binding(a, BindingMessage::Response(BindingResponse::success(req.transaction_id, a)));
    }

    match coord.result() {
        HolePunchResult::DirectPath { remote_addr, .. } => {
            assert_eq!(remote_addr, addr(192, 168, 1, 200, 5000));
        }
        _ => panic!("Expected DirectPath"),
    }
}

#[test]
fn test_result_failed() {
    let mut coord = HolePunchCoordinator::new(12345, "test-service".to_string(), true);
    coord.start_checking();
    assert_eq!(coord.state(), HolePunchState::Failed);

    match coord.result() {
        HolePunchResult::UseRelay { reason } => {
            assert!(reason.contains("failed"));
        }
        _ => panic!("Expected UseRelay"),
    }
}

#[test]
fn result_while_in_progress_names_the_state() {
    let coord = HolePunchCoordinator::new(1, "svc".to_string(), true);
    match coord.result() {
        HolePunchResult::UseRelay { reason } => assert_eq!(reason, "Hole punch not complete: Idle"),
        _ => panic!("Expected UseRelay"),
    }
}

#[test]
fn test_timeout_handling() {
    let mut coord = checking_coordinator();

    while coord.poll_binding_request(4242).is_some() {}

    coord.on_timeout();

    assert!(matches!(coord.state(), HolePunchState::Checking | HolePunchState::Failed));
}

#[test]
fn test_hole_punch_coordinator_integration() {
    let mut agent_coord = HolePunchCoordinator::new(12345, "test-service".to_string(), true);
    let mut conn_coord = HolePunchCoordinator::new(12345, "test-service".to_string(), false);

    agent_coord.start_gathering(&[addr(192, 168, 1, 100, 5000)]);
    assert_eq!(agent_coord.state(), HolePunchState::Signaling);

    conn_coord.start_gathering(&[addr(192, 168, 1, 200, 5000)]);
    assert_eq!(conn_coord.state(), HolePunchState::Signaling);

    let offer = agent_coord.get_candidate_offer().expect("Should have offer");
    conn_coord.process_signaling(offer).expect("Should process offer");
    let answer = conn_coord.poll_signaling_message().expect("Should have answer");
    agent_coord.process_signaling(answer).expect("Should process answer");

    assert!(!agent_coord.remote_candidates().is_empty());
    assert!(!conn_coord.remote_candidates().is_empty());

    assert!(agent_coord.should_start_checking());
    assert!(conn_coord.should_start_checking());

    agent_coord.start_checking();
    conn_coord.start_checking();

    assert_eq!(agent_coord.state(), HolePunchState::Checking);
    assert_eq!(conn_coord.state(), HolePunchState::Checking);

    let (a, request) = agent_coord.poll_binding_request(4242).expect("Should have request");

    let response = conn_coord.process_binding(a, request).expect("Should have response");

    agent_coord.process_binding(addr(192, 168, 1, 200, 5000), response);

    assert_eq!(agent_coord.state(), HolePunchState::Connected);
    assert!(agent_coord.working_address().is_some());
}

#[test]
fn signaling_for_another_session_is_refused() {
    let mut coord = HolePunchCoordinator::new(1, "svc".to_string(), true);
    coord.start_gathering(&[addr(192, 168, 1, 100, 5000)]);
    let msg = SignalingMessage::CandidateAnswer { session_id: 2, candidates: vec![] };
    assert_eq!(coord.process_signaling(msg), Err("Session ID mismatch".to_string()));
}

#[test]
fn test_path_selection_direct_faster() {
    let selection = select_path(Some(50), 200, 0.95 >= 0.8);
    assert_eq!(selection, PathSelection::Direct);
}

#[test]
fn test_path_selection_relay_no_direct() {
    let selection = select_path(None, 100, 0.0 >= 0.8);
    assert_eq!(selection, PathSelection::Relay);
}

#[test]
fn test_path_selection_relay_unreliable() {
    let selection = select_path(Some(50), 200, 0.5 >= 0.8);
    assert_eq!(selection, PathSelection::Relay);
}

#[test]
fn path_selection_threshold() {
    assert_eq!(select_path(Some(70), 100, true), PathSelection::Direct);
    assert_eq!(select_path(Some(71), 100, true), PathSelection::Relay);
}
