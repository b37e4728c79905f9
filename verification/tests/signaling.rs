use ztna::net::SockAddr;
use ztna::p2p::candidate::{Candidate, CandidateType};
use ztna::p2p::signaling::{
    decode_message, decode_messages, encode_message, generate_session_id, DecodeError, EncodeError, SignalingError,
    SignalingMessage, MAX_MESSAGE_SIZE,
};
use ztna::server::signaling::{SessionManager, SessionState, SignalingSession};

/// The serialized form of `CandidateOffer { session_id, service_id, candidates: [] }`:
/// variant index 0 (u32, little endian), the id (u64), the service id
/// (u64 length and bytes), no candidates (u64 length 0).
fn offer_payload(session_id: u64, service_id: &str) -> Vec<u8> {
    let mut p = Vec::new();
    p.extend_from_slice(&0u32.to_le_bytes());
    p.extend_from_slice(&session_id.to_le_bytes());
    p.extend_from_slice(&(service_id.len() as u64).to_le_bytes());
    p.extend_from_slice(service_id.as_bytes());
    p.extend_from_slice(&0u64.to_le_bytes());
    p
}

/// The serialized form of `CandidateAnswer { session_id, candidates: [] }`.
fn answer_payload(session_id: u64) -> Vec<u8> {
    let mut p = Vec::new();
    p.extend_from_slice(&1u32.to_le_bytes());
    p.extend_from_slice(&session_id.to_le_bytes());
    p.extend_from_slice(&0u64.to_le_bytes());
    p
}

fn sample_candidate() -> Candidate {
    Candidate {
        candidate_type: CandidateType::Host,
        address: SockAddr::v4(192, 168, 1, 100, 50000),
        priority: 2130706431,
        foundation: "host_192.168.1.100".to_string(),
        related_address: None,
    }
}

#[test]
fn test_decode_incomplete() {
    let encoded = encode_message(&offer_payload(1, "test")).unwrap();

    assert!(matches!(decode_message(&encoded[..2]), Err(DecodeError::Incomplete(_))));
    assert!(matches!(decode_message(&encoded[..encoded.len() - 1]), Err(DecodeError::Incomplete(_))));
}

#[test]
fn signaling_test_decode_incomplete() {
    let encoded = encode_message(&offer_payload(1, "test")).unwrap();

    match decode_message(&encoded[..3]) {
        Err(DecodeError::Incomplete(_)) => {}
        other => panic!("Expected Incomplete, got {:?}", other),
    }
}

#[test]
fn test_decode_multiple_messages() {
    let msg1 = offer_payload(1, "svc1");
    let msg2 = answer_payload(1);

    let mut buf = encode_message(&msg1).unwrap();
    buf.extend(encode_message(&msg2).unwrap());

    let (messages, remaining) = decode_messages(&buf);

    assert_eq!(messages.len(), 2);
    assert_eq!(messages[0], msg1);
    assert_eq!(messages[1], msg2);
    assert!(remaining.is_empty());
}

#[test]
fn test_decode_multiple_with_remainder() {
    let mut buf = encode_message(&offer_payload(1, "test")).unwrap();
    buf.extend(&[0x00, 0x00, 0x00, 0x10]);

    let (messages, remaining) = decode_messages(&buf);

    assert_eq!(messages.len(), 1);
    assert_eq!(remaining.len(), 4);
}

#[test]
fn test_message_too_large() {
    let fake_header = (MAX_MESSAGE_SIZE + 1).to_be_bytes();
    assert!(matches!(decode_message(&fake_header), Err(DecodeError::MessageTooLarge(_))));
}

#[test]
fn frame_layout_and_exact_decode() {
    let payload = offer_payload(7, "ab");
    let framed = encode_message(&payload).unwrap();
    assert_eq!(&framed[..4], &(payload.len() as u32).to_be_bytes());
    assert_eq!(&framed[4..], &payload[..]);
    let mut more = framed.clone();
    more.extend_from_slice(&[9, 9]);
    assert_eq!(decode_message(&more), Ok((payload.clone(), framed.len())));
    assert_eq!(decode_message(&framed[..1]), Err(DecodeError::Incomplete(3)));
    assert_eq!(decode_message(&framed[..framed.len() - 2]), Err(DecodeError::Incomplete(2)));
    assert_eq!(decode_message(&[0, 1, 0, 1]), Err(DecodeError::MessageTooLarge(65537)));
    assert_eq!(DecodeError::Incomplete(3).to_string(), "incomplete message, need 3 more bytes");
}

#[test]
fn oversized_payload_is_refused() {
    let payload = vec![0u8; 65537];
    assert_eq!(encode_message(&payload), Err(EncodeError::MessageTooLarge(65537)));
    assert!(encode_message(&vec![0u8; 65536]).is_ok());
}

#[test]
fn test_session_id_extraction() {
    let offer = SignalingMessage::CandidateOffer { session_id: 42, service_id: "test".to_string(), candidates: vec![] };
    assert_eq!(offer.session_id(), Some(42));

    let error = SignalingMessage::Error { session_id: None, code: SignalingError::Unknown, message: "test".to_string() };
    assert_eq!(error.session_id(), None);
}

#[test]
fn test_generate_session_id() {
    let id1 = generate_session_id().unwrap();
    let id2 = generate_session_id().unwrap();

    assert_ne!(id1, id2);
    assert_ne!(id1, 0);
    assert_ne!(id2, 0);
}

#[test]
fn test_session_id_uniqueness() {
    let id1 = generate_session_id();
    let id2 = generate_session_id();
    assert_ne!(id1, id2, "Consecutive CSPRNG session IDs should differ");
}

#[test]
fn test_signaling_error_display() {
    assert_eq!(SignalingError::ServiceNotFound.to_string(), "service not found");
    assert_eq!(SignalingError::SessionTimeout.to_string(), "session timed out");
}

#[test]
fn test_signaling_error_message() {
    let msg = SignalingMessage::error(Some(42), SignalingError::ServiceNotFound, "Service 'foo' not found");

    match msg {
        SignalingMessage::Error { session_id, code, message } => {
            assert_eq!(session_id, Some(42));
            assert_eq!(code, SignalingError::ServiceNotFound);
            assert_eq!(message, "Service 'foo' not found");
        }
        _ => panic!("Expected Error variant"),
    }
}

#[test]
fn test_session_manager_create_and_get() {
    let mut manager = SessionManager::new();
    let conn_id = vec![1u8, 2, 3, 4];

    manager.create_session(100, "my-service".to_string(), conn_id, vec![sample_candidate()]);

    assert!(manager.get_session(100).is_some());
    assert_eq!(manager.session_count(), 1);
    assert_eq!(manager.get_pending_for_service("my-service"), Some(100));
}

#[test]
fn test_session_manager_remove() {
    let mut manager = SessionManager::new();
    let conn_id = vec![1u8, 2, 3, 4];

    manager.create_session(100, "my-service".to_string(), conn_id, vec![]);

    let removed = manager.remove_session(100);
    assert!(removed.is_some());
    assert!(manager.get_session(100).is_none());
    assert!(manager.get_pending_for_service("my-service").is_none());
}

#[test]
fn test_session_state_transitions() {
    let conn_id = vec![1u8, 2, 3, 4];
    let mut session = SignalingSession::new("test".to_string(), conn_id, vec![]);

    assert_eq!(session.state, SessionState::AwaitingAnswer);

    let connector_id = vec![5u8, 6, 7, 8];
    session.set_connector_answer(connector_id, vec![sample_candidate()], 2);

    assert_eq!(session.state, SessionState::ReadyToPunch);
    assert!(session.connector_candidates.is_some());
}

#[test]
fn sessions_expire_after_the_timeout() {
    let mut manager = SessionManager::new();
    manager.create_session_at(1, "a".to_string(), vec![1], vec![], 1_000);
    manager.create_session_at(2, "b".to_string(), vec![2], vec![], 4_000);
    assert_eq!(manager.cleanup_expired_at(6_000), vec![]);
    assert_eq!(manager.cleanup_expired_at(6_001), vec![1]);
    assert!(manager.get_session(1).is_none());
    assert!(manager.get_session(2).is_some());
}
