use ztna::net::{IpAddr, SockAddr};
use ztna::p2p::candidate::{Candidate, CandidateType};
use ztna::p2p::connectivity::{
    calculate_pair_priority, BindingRequest, BindingResponse, CandidatePair, CheckList, CheckState,
};

fn addr(a: u8, b: u8, c: u8, d: u8, port: u16) -> SockAddr {
    SockAddr::v4(a, b, c, d, port)
}

fn host_candidate(a: SockAddr) -> Candidate {
    Candidate::host(a)
}

fn srflx_candidate(public: SockAddr, base: SockAddr) -> Candidate {
    Candidate::server_reflexive(public, base)
}

#[test]
fn test_binding_request_creation() {
    let req = BindingRequest::new(1000, false, 4242);
    assert_eq!(req.priority, 1000);
    assert!(!req.use_candidate);
    assert_ne!(req.transaction_id, [0u8; 12]);
}

#[test]
fn test_binding_response_success() {
    let txn_id = [1u8; 12];
    let a = addr(192, 168, 1, 1, 5000);
    let resp = BindingResponse::success(txn_id, a);

    assert!(resp.success);
    assert_eq!(resp.transaction_id, txn_id);
    assert_eq!(resp.mapped_address, Some(a));
}

#[test]
fn test_binding_response_failure() {
    let txn_id = [2u8; 12];
    let resp = BindingResponse::failure(txn_id);

    assert!(!resp.success);
    assert_eq!(resp.transaction_id, txn_id);
    assert!(resp.mapped_address.is_none());
}

#[test]
fn test_pair_priority_controlling() {
    let priority = calculate_pair_priority(100, 50, true);
    let expected = (1u64 << 32) * 50 + 2 * 100 + 1;
    assert_eq!(priority, expected);
}

#[test]
fn test_pair_priority_controlled() {
    let priority = calculate_pair_priority(50, 100, false);
    let expected = (1u64 << 32) * 50 + 2 * 100 + 1;
    assert_eq!(priority, expected);
}

#[test]
fn pair_priority_equal_candidates() {
    assert_eq!(calculate_pair_priority(7, 7, true), (1u64 << 32) * 7 + 14);
    assert_eq!(calculate_pair_priority(7, 7, false), (1u64 << 32) * 7 + 14);
}

#[test]
fn test_candidate_pair_creation() {
    let local = host_candidate(addr(192, 168, 1, 100, 5000));
    let remote = host_candidate(addr(192, 168, 1, 200, 5000));

    let pair = CandidatePair::new(local.clone(), remote.clone(), true);

    assert_eq!(pair.local, local);
    assert_eq!(pair.remote, remote);
    assert_eq!(pair.state, CheckState::Frozen);
    assert!(!pair.nominated);
}

#[test]
fn test_candidate_pair_check_flow() {
    let local = host_candidate(addr(192, 168, 1, 100, 5000));
    let remote = host_candidate(addr(192, 168, 1, 200, 5000));
    let mut pair = CandidatePair::new(local, remote, true);

    pair.state = CheckState::Waiting;
    let request = pair.start_check(4242);

    assert_eq!(pair.state, CheckState::InProgress);
    assert_eq!(pair.transmit_count, 1);
    assert!(pair.transaction_id.is_some());

    let response = BindingResponse::success(request.transaction_id, addr(203, 0, 113, 50, 5000));
    assert!(pair.handle_response(&response));
    assert_eq!(pair.state, CheckState::Succeeded);
}

#[test]
fn pair_ignores_foreign_transaction() {
    let mut pair =
        CandidatePair::new(host_candidate(addr(192, 168, 1, 100, 5000)), host_candidate(addr(192, 168, 1, 200, 5000)), true);
    pair.state = CheckState::Waiting;
    let request = pair.start_check(1);
    let mut other = request.transaction_id;
    other[0] ^= 0xff;
    assert!(!pair.handle_response(&BindingResponse::success(other, addr(1, 2, 3, 4, 5))));
    assert_eq!(pair.state, CheckState::InProgress);
    assert!(pair.handle_response(&BindingResponse::failure(request.transaction_id)));
    assert_eq!(pair.state, CheckState::Failed);
}

#[test]
fn test_check_list_pair_formation() {
    let mut list = CheckList::new(true);
    let local = vec![host_candidate(addr(192, 168, 1, 100, 5000)), host_candidate(addr(10, 0, 0, 1, 5000))];
    let remote = vec![host_candidate(addr(192, 168, 1, 200, 5000))];

    list.add_pairs(&local, &remote);
    assert_eq!(list.pair_count(), 2);
}

#[test]
fn test_check_list_priority_sorting() {
    let mut list = CheckList::new(true);
    let local = vec![
        host_candidate(addr(192, 168, 1, 100, 5000)),
        srflx_candidate(addr(203, 0, 113, 1, 5000), addr(192, 168, 1, 100, 5000)),
    ];
    let remote = vec![host_candidate(addr(192, 168, 1, 200, 5000))];

    list.add_pairs(&local, &remote);

    let first = list.get_pair(0).unwrap();
    assert_eq!(first.local.candidate_type, CandidateType::Host);
}

#[test]
fn test_check_list_initial_unfreeze() {
    let mut list = CheckList::new(true);
    let local = vec![host_candidate(addr(192, 168, 1, 100, 5000))];
    let remote = vec![host_candidate(addr(192, 168, 1, 200, 5000)), host_candidate(addr(192, 168, 1, 201, 5000))];

    list.add_pairs(&local, &remote);

    let waiting_count = list.pairs_by_state(CheckState::Waiting).len();
    assert!(waiting_count >= 1);
}

#[test]
fn test_check_list_next_request() {
    let mut list = CheckList::new(true);
    let local = vec![host_candidate(addr(192, 168, 1, 100, 5000))];
    let remote = vec![host_candidate(addr(192, 168, 1, 200, 5000))];

    list.add_pairs(&local, &remote);
    list.start();

    let result = list.next_request(4242);
    assert!(result.is_some());

    let (idx, _request, a) = result.unwrap();
    assert_eq!(idx, 0);
    assert_eq!(a, addr(192, 168, 1, 200, 5000));
}

#[test]
fn test_check_list_handle_response() {
    let mut list = CheckList::new(true);
    let local = vec![host_candidate(addr(192, 168, 1, 100, 5000))];
    let remote = vec![host_candidate(addr(192, 168, 1, 200, 5000))];

    list.add_pairs(&local, &remote);
    list.start();

    let (_, request, _) = list.next_request(4242).unwrap();
    let response = BindingResponse::success(request.transaction_id, addr(192, 168, 1, 200, 5000));
    let matched = list.handle_response(&response);

    assert_eq!(matched, Some(0));
    assert!(list.has_succeeded());
}

#[test]
fn test_check_list_completion() {
    let mut list = CheckList::new(true);
    let local = vec![host_candidate(addr(192, 168, 1, 100, 5000))];
    let remote = vec![host_candidate(addr(192, 168, 1, 200, 5000))];

    list.add_pairs(&local, &remote);
    list.start();

    assert!(!list.is_complete());

    let (_, request, _) = list.next_request(4242).unwrap();
    let response = BindingResponse::success(request.transaction_id, addr(1, 2, 3, 4, 5000));
    list.handle_response(&response);

    assert!(list.is_complete());
}

#[test]
fn test_check_list_nomination() {
    let mut list = CheckList::new(true);
    let local = vec![host_candidate(addr(192, 168, 1, 100, 5000))];
    let remote = vec![host_candidate(addr(192, 168, 1, 200, 5000))];

    list.add_pairs(&local, &remote);
    list.start();

    let (idx, request, _) = list.next_request(4242).unwrap();
    let response = BindingResponse::success(request.transaction_id, addr(1, 2, 3, 4, 5000));
    list.handle_response(&response);

    assert!(list.nominate(idx));
    assert!(list.get_pair(idx).unwrap().nominated);
}

#[test]
fn check_list_nominate_refuses_unsucceeded_pair() {
    let mut list = CheckList::new(true);
    list.add_pairs(&[host_candidate(addr(192, 168, 1, 100, 5000))], &[host_candidate(addr(192, 168, 1, 200, 5000))]);
    assert!(!list.nominate(0));
    assert!(!list.nominate(5));
}

#[test]
fn test_exponential_backoff() {
    let local = host_candidate(addr(192, 168, 1, 100, 5000));
    let remote = host_candidate(addr(192, 168, 1, 200, 5000));
    let mut pair = CandidatePair::new(local, remote, true);

    pair.state = CheckState::Waiting;
    pair.start_check(4242);

    assert_eq!(pair.current_rto(), 200);
    pair.record_retransmit();
    assert_eq!(pair.current_rto(), 400);
    pair.record_retransmit();
    assert_eq!(pair.current_rto(), 800);
    pair.record_retransmit();
    assert_eq!(pair.current_rto(), 1600);
    pair.record_retransmit();
    assert_eq!(pair.current_rto(), 1600);
}

#[test]
fn test_ipv4_ipv6_separation() {
    let mut list = CheckList::new(true);
    let local = vec![
        host_candidate(addr(192, 168, 1, 100, 5000)),
        host_candidate(SockAddr::new(IpAddr::V6(0, 0, 0, 0, 0, 0, 0, 1), 5000)),
    ];
    let remote = vec![host_candidate(addr(192, 168, 1, 200, 5000))];

    list.add_pairs(&local, &remote);
    assert_eq!(list.pair_count(), 1);
}
