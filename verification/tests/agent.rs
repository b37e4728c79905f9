use ztna::agent::{
    path_code, process_packet, registration_message, state_of, Agent, AgentState, ConnectionStatus, PacketAction, Route,
    REG_TYPE_AGENT,
};
use ztna::net::SockAddr;
use ztna::p2p::candidate::Candidate;
use ztna::p2p::connectivity::{BindingMessage, BindingResponse};
use ztna::p2p::hole_punch::HolePunchState;
use ztna::p2p::resilience::{encode_keepalive_request, ActivePath, KEEPALIVE_RESPONSE};
use ztna::p2p::signaling::{encode_message, SignalingMessage};

fn addr(a: u8, b: u8, c: u8, d: u8, port: u16) -> SockAddr {
    SockAddr::v4(a, b, c, d, port)
}

fn connected_agent() -> Agent {
    let mut agent = Agent::new_at(0);
    agent.on_connect_at(addr(1, 2, 3, 4, 4433), 0);
    agent.update_state(Some(ConnectionStatus { closed: false, draining: false, established: true }));
    agent.local_addr = Some(addr(192, 168, 1, 100, 5000));
    agent
}

#[test]
fn test_process_packet() {
    let data = [0u8; 20];
    let action = process_packet(&data);
    assert_eq!(action, PacketAction::Forward);
    assert_eq!(process_packet(&[]), PacketAction::Forward);
}

#[test]
fn test_agent_create_destroy() {
    let agent = Agent::new();
    assert_eq!(agent.state, AgentState::Disconnected);
}

#[test]
fn test_agent_connect() {
    let mut agent = Agent::new();
    agent.on_connect_at(addr(127, 0, 0, 1, 4433), 0);
    assert_eq!(agent.state, AgentState::Connecting);
    assert_eq!(agent.intermediate_addr, Some(addr(127, 0, 0, 1, 4433)));
}

#[test]
fn test_agent_hole_punch_not_connected() {
    let agent = Agent::new();
    let result = agent.start_hole_punching("test-service");
    assert!(result.is_err());
    assert_eq!(result.err().unwrap(), "Not connected to Intermediate Server");
}

#[test]
fn test_agent_path_manager_setup() {
    let agent = Agent::new();
    assert_eq!(agent.active_path(), ActivePath::NoPath);
    assert!(!agent.is_in_fallback());
    let stats = agent.path_stats();
    assert_eq!(stats.missed_keepalives, 0);
}

#[test]
fn test_agent_register_message_format() {
    let msg = registration_message("echo-service").unwrap();
    assert_eq!(msg[0], 0x10);
    assert_eq!(msg[0], REG_TYPE_AGENT);
    assert_eq!(msg[1], 12);
    assert_eq!(&msg[2..], b"echo-service");
    assert!(registration_message(&"x".repeat(256)).is_none());
    assert_eq!(registration_message(&"x".repeat(255)).unwrap().len(), 257);
}

#[test]
fn agent_state_from_connection_status() {
    assert_eq!(state_of(None), AgentState::Disconnected);
    let s = |closed, draining, established| Some(ConnectionStatus { closed, draining, established });
    assert_eq!(state_of(s(true, true, true)), AgentState::Closed);
    assert_eq!(state_of(s(false, true, true)), AgentState::Draining);
    assert_eq!(state_of(s(false, false, true)), AgentState::Connected);
    assert_eq!(state_of(s(false, false, false)), AgentState::Connecting);
}

#[test]
fn agent_routes_packets_by_sender() {
    let agent = connected_agent();
    assert_eq!(agent.route(addr(1, 2, 3, 4, 4433), false), Route::Intermediate);
    assert_eq!(agent.route(addr(10, 0, 0, 1, 4434), true), Route::Peer);
    assert_eq!(agent.route(addr(10, 0, 0, 1, 4434), false), Route::Unknown);
    assert_eq!(path_code(ActivePath::Direct), 0);
    assert_eq!(path_code(ActivePath::Relay), 1);
    assert_eq!(path_code(ActivePath::NoPath), 2);
}

#[test]
fn agent_learns_observed_address() {
    let mut agent = connected_agent();
    agent.on_intermediate_datagram(&[0x01, 203, 0, 113, 5, 0xD4, 0x31]);
    assert_eq!(agent.observed_address, Some(addr(203, 0, 113, 5, 54321)));
    agent.on_intermediate_datagram(&[0x45, 0, 0]);
    assert_eq!(agent.observed_address, Some(addr(203, 0, 113, 5, 54321)));
}

#[test]
fn agent_answers_keepalives_on_the_direct_path() {
    let mut agent = connected_agent();
    let direct = addr(10, 0, 0, 1, 4434);
    agent.path_manager.set_direct_at(direct, 0);
    let resp = agent.on_peer_datagram_at(direct, &encode_keepalive_request(9), 5).unwrap();
    assert_eq!(resp, [KEEPALIVE_RESPONSE, 0, 0, 0, 9]);
    assert!(agent.on_peer_datagram_at(direct, &[0x01, 1, 2, 3, 4, 5, 6], 5).is_none());
    assert!(agent.on_peer_datagram_at(direct, &[0x45, 0, 0, 0, 0], 5).is_none());
}

#[test]
fn agent_hole_punch_end_to_end() {
    let mut agent = connected_agent();
    let (coordinator, offer) = agent.start_hole_punching_at("svc", 77, 0).unwrap();
    match &offer {
        SignalingMessage::CandidateOffer { session_id, service_id, candidates } => {
            assert_eq!(*session_id, 77);
            assert_eq!(service_id, "svc");
            assert_eq!(candidates.len(), 2);
        }
        other => panic!("unexpected {:?}", other),
    }
    agent.set_hole_punch(coordinator);
    assert_eq!(agent.start_hole_punching_at("svc", 78, 0).err().unwrap(), "Hole punching already in progress");

    let connector = Candidate::host(addr(10, 0, 0, 1, 4434));
    agent.handle_signaling_message_at(
        SignalingMessage::CandidateAnswer { session_id: 77, candidates: vec![connector.clone()] },
        10,
    );
    assert_eq!(agent.hole_punch.as_ref().unwrap().state(), HolePunchState::Checking);

    let requests = agent.poll_binding_requests_at(20, [5u8; 12]);
    assert!(!requests.is_empty());
    let (to, msg) = requests[0];
    assert_eq!(to, addr(10, 0, 0, 1, 4434));
    let txn = match msg {
        BindingMessage::Request(r) => r.transaction_id,
        _ => panic!("expected a request"),
    };
    agent.process_binding_response(to, BindingMessage::Response(BindingResponse::success(txn, to)));
    let (working, done) = agent.poll_hole_punch_at(30);
    assert!(done);
    assert_eq!(working, Some(addr(10, 0, 0, 1, 4434)));
    assert!(agent.hole_punch.is_none());
    assert_eq!(agent.active_path(), ActivePath::Direct);
    assert_eq!(agent.active_send_addr(), Some(addr(10, 0, 0, 1, 4434)));
}

#[test]
fn agent_without_local_address_cannot_punch() {
    let mut agent = connected_agent();
    agent.local_addr = None;
    assert_eq!(agent.start_hole_punching_at("svc", 1, 0).err().unwrap(), "No local address available");
}

#[test]
fn agent_frames_signaling_bytes() {
    let mut agent = Agent::new_at(0);
    let frame = encode_message(&[1, 2, 3]).unwrap();
    agent.push_signaling_bytes(&frame[..3]);
    assert!(agent.take_signaling_frames().is_empty());
    agent.push_signaling_bytes(&frame[3..]);
    agent.push_signaling_bytes(&[0, 0]);
    assert_eq!(agent.take_signaling_frames(), vec![vec![1, 2, 3]]);
    assert_eq!(agent.signaling_buffer, vec![0, 0]);
}

#[test]
fn agent_fails_over_to_the_relay() {
    let mut agent = connected_agent();
    let direct = addr(10, 0, 0, 1, 4434);
    agent.path_manager.set_direct_at(direct, 0);
    agent.poll_keepalive_at(0);
    agent.on_timeout_at(5_000);
    agent.poll_keepalive_at(15_000);
    agent.on_timeout_at(20_000);
    agent.poll_keepalive_at(30_000);
    agent.on_timeout_at(35_000);
    assert!(agent.is_in_fallback());
    assert_eq!(agent.active_path(), ActivePath::Relay);
    assert_eq!(agent.active_send_addr(), Some(addr(1, 2, 3, 4, 4433)));
}
