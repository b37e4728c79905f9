//! Connectivity checks: binding requests and responses over candidate pairs
//! (ICE-style), pair priorities (RFC 8445 section 6.1.2.3) and the check list.
//! Times are milliseconds since the Unix epoch.
use vstd::prelude::*;
use crate::clock::{elapsed, elapsed_ms, now_ms, now_nanos};
use crate::net::SockAddr;
use crate::p2p::candidate::{Candidate, CandidateView, candidate_views};
use crate::sort::{Prioritized, SpecPrioritized, sort_desc, stable_sort_desc, lemma_sort_desc_map,
    lemma_sort_desc_sorted_permutation};
use crate::text::{push_char, push_str};

verus! {

/// Size of a transaction id in bytes.
pub const TRANSACTION_ID_LEN: usize = 12;

/// Initial retransmit interval, in milliseconds.
pub const INITIAL_RTO: u64 = 100;

/// Maximum retransmit interval, in milliseconds.
pub const MAX_RTO: u64 = 1600;

/// Maximum number of transmissions per check.
pub const MAX_RETRANSMITS: u32 = 5;

/// Total timeout for the connectivity checks, in milliseconds.
pub const CHECK_TIMEOUT: u64 = 5000;

/// Minimum interval between binding requests, in milliseconds.
pub const PACE_INTERVAL: u64 = 20;

/// Binding request sent to verify connectivity.
#[derive(Debug, Clone, Copy, PartialEq, Eq)]
pub struct BindingRequest {
    /// Unique transaction identifier
    pub transaction_id: [u8; 12],
    /// Priority of the candidate pair
    pub priority: u64,
    /// Whether the sender nominates the pair
    pub use_candidate: bool,
}

/// Binding response confirming connectivity.
#[derive(Debug, Clone, Copy, PartialEq, Eq)]
pub struct BindingResponse {
    /// Transaction id of the request
    pub transaction_id: [u8; 12],
    /// Whether the check succeeded
    pub success: bool,
    /// Address the request was seen from
    pub mapped_address: Option<SockAddr>,
}

/// A binding request or response.
#[derive(Debug, Clone, Copy, PartialEq, Eq)]
pub enum BindingMessage {
    Request(BindingRequest),
    Response(BindingResponse),
}

/// Little-endian bytes of a value below 2^(8*n).
pub open spec fn le_bytes(x: nat, n: nat) -> Seq<u8>
    decreases n,
{
    if n == 0 {
        Seq::empty()
    } else {
        seq![(x % 256) as u8] + le_bytes(x / 256, (n - 1) as nat)
    }
}

/// Transaction id: the clock in nanoseconds (8 bytes, little-endian), then
/// the process id (4 bytes, little-endian).
pub open spec fn spec_transaction_id(nanos: u64, process_id: u32) -> Seq<u8> {
    le_bytes(nanos as nat, 8) + le_bytes(process_id as nat, 4)
}

/// Builds a transaction id from a clock reading and a process id.
pub fn generate_transaction_id(nanos: u64, process_id: u32) -> (id: [u8; 12])
    ensures
        id@ == spec_transaction_id(nanos, process_id),
{
    let mut id = [0u8; 12];
    let mut x = nanos;
    let mut i: usize = 0;
    assert(pow256(0) == 1);
    assert(id@.subrange(0, 0) + le_bytes(nanos as nat, 8) =~= le_bytes(nanos as nat, 8));
    while i < 8
        invariant
            i <= 8,
            x as nat == nanos as nat / pow256(i as nat),
            id@.len() == 12,
            id@.subrange(0, i as int) + le_bytes(x as nat, (8 - i) as nat) == le_bytes(nanos as nat, 8),
        decreases 8 - i,
    {
        proof {
            lemma_le_bytes_step(x as nat, (8 - i) as nat);
            lemma_pow256_step(i as nat);
            lemma_div_div(nanos as nat, pow256(i as nat), 256);
        }
        id[i] = (x % 256) as u8;
        assert(id@.subrange(0, i + 1) =~= id@.subrange(0, i as int).push((x % 256) as u8));
        x = x / 256;
        i = i + 1;
    }
    let mut y = process_id;
    assert(id@.subrange(8, 8) + le_bytes(process_id as nat, 4) =~= le_bytes(process_id as nat, 4));
    assert(le_bytes(x as nat, 0) =~= Seq::<u8>::empty());
    assert(id@.subrange(0, 8) =~= id@.subrange(0, i as int) + le_bytes(x as nat, (8 - i) as nat));
    while i < 12
        invariant
            8 <= i <= 12,
            y as nat == process_id as nat / pow256((i - 8) as nat),
            id@.len() == 12,
            id@.subrange(0, 8) == le_bytes(nanos as nat, 8),
            id@.subrange(8, i as int) + le_bytes(y as nat, (12 - i) as nat) == le_bytes(process_id as nat, 4),
        decreases 12 - i,
    {
        proof {
            lemma_le_bytes_step(y as nat, (12 - i) as nat);
            lemma_pow256_step((i - 8) as nat);
            lemma_div_div(process_id as nat, pow256((i - 8) as nat), 256);
        }
        let ghost prev = id@;
        id[i] = (y % 256) as u8;
        assert(id@.subrange(0, 8) =~= prev.subrange(0, 8));
        assert(id@.subrange(8, i + 1) =~= id@.subrange(8, i as int).push((y % 256) as u8));
        y = y / 256;
        i = i + 1;
    }
    proof {
        assert(le_bytes(x as nat, 0) =~= Seq::<u8>::empty());
        assert(le_bytes(y as nat, 0) =~= Seq::<u8>::empty());
        assert(id@ =~= id@.subrange(0, 8) + id@.subrange(8, 12));
    }
    id
}

pub open spec fn pow256(n: nat) -> nat
    decreases n,
{
    if n == 0 {
        1
    } else {
        256 * pow256((n - 1) as nat)
    }
}

proof fn lemma_pow256_step(n: nat)
    ensures
        pow256(n + 1) == pow256(n) * 256,
        pow256(n) >= 1,
    decreases n,
{
    if n > 0 {
        lemma_pow256_step((n - 1) as nat);
    }
}

proof fn lemma_div_div(x: nat, a: nat, b: nat)
    requires
        a >= 1,
        b >= 1,
    ensures
        x / a / b == x / (a * b),
{
    vstd::arithmetic::div_mod::lemma_div_denominator(x as int, a as int, b as int);
}

proof fn lemma_le_bytes_step(x: nat, n: nat)
    requires
        n >= 1,
    ensures
        le_bytes(x, n) == seq![(x % 256) as u8] + le_bytes(x / 256, (n - 1) as nat),
{
}

impl BindingRequest {
    /// A binding request with a transaction id made from the clock (now) and
    /// the given process id.
    pub fn new(priority: u64, use_candidate: bool, process_id: u32) -> (r: BindingRequest)
        ensures
            r.priority == priority,
            r.use_candidate == use_candidate,
            exists|nanos: u64| r.transaction_id@ == spec_transaction_id(nanos, process_id),
    {
        let id = generate_transaction_id(now_nanos(), process_id);
        BindingRequest { transaction_id: id, priority, use_candidate }
    }

    /// A binding request with the given transaction id.
    pub fn with_transaction_id(transaction_id: [u8; 12], priority: u64, use_candidate: bool) -> (r: BindingRequest)
        ensures
            r == (BindingRequest { transaction_id, priority, use_candidate }),
    {
        BindingRequest { transaction_id, priority, use_candidate }
    }
}

impl BindingResponse {
    /// A success response, reporting the address the request came from.
    pub fn success(transaction_id: [u8; 12], mapped_address: SockAddr) -> (r: BindingResponse)
        ensures
            r == (BindingResponse { transaction_id, success: true, mapped_address: Some(mapped_address) }),
    {
        BindingResponse { transaction_id, success: true, mapped_address: Some(mapped_address) }
    }

    /// A failure response.
    pub fn failure(transaction_id: [u8; 12]) -> (r: BindingResponse)
        ensures
            r == (BindingResponse { transaction_id, success: false, mapped_address: None }),
    {
        BindingResponse { transaction_id, success: false, mapped_address: None }
    }
}

/// Whether two transaction ids are equal.
pub fn same_transaction_id(a: &[u8; 12], b: &[u8; 12]) -> (r: bool)
    ensures
        r == (a@ == b@),
{
    let mut i: usize = 0;
    while i < 12
        invariant
            i <= 12,
            a@.len() == 12,
            b@.len() == 12,
            forall|k: int| 0 <= k < i ==> a@[k] == b@[k],
        decreases 12 - i,
    {
        if a[i] != b[i] {
            return false;
        }
        i = i + 1;
    }
    assert(a@ =~= b@);
    true
}

/// State of a connectivity check.
#[derive(Debug, Clone, Copy, PartialEq, Eq, Structural)]
pub enum CheckState {
    /// Waiting to be scheduled
    Frozen,
    /// Ready to send a binding request
    Waiting,
    /// Request sent, awaiting the response
    InProgress,
    /// Check succeeded
    Succeeded,
    /// Check failed
    Failed,
}

/// A pair of local and remote candidates to check.
#[derive(Debug, Clone)]
pub struct CandidatePair {
    /// Local candidate
    pub local: Candidate,
    /// Remote candidate
    pub remote: Candidate,
    /// Pair priority (higher = try first)
    pub priority: u64,
    /// Foundation (local and remote foundations joined by ':')
    pub foundation: String,
    /// Current state of the check
    pub state: CheckState,
    /// Number of times the request has been sent
    pub transmit_count: u32,
    /// When the last request was sent
    pub last_sent: Option<u64>,
    /// Transaction id of the outstanding request
    pub transaction_id: Option<[u8; 12]>,
    /// Whether this is the nominated pair
    pub nominated: bool,
}

/// Abstract value of a candidate pair.
pub struct PairView {
    pub local: CandidateView,
    pub remote: CandidateView,
    pub priority: u64,
    pub foundation: Seq<char>,
    pub state: CheckState,
    pub transmit_count: u32,
    pub last_sent: Option<u64>,
    pub transaction_id: Option<Seq<u8>>,
    pub nominated: bool,
}

impl View for CandidatePair {
    type V = PairView;

    open spec fn view(&self) -> PairView {
        PairView {
            local: self.local@,
            remote: self.remote@,
            priority: self.priority,
            foundation: self.foundation@,
            state: self.state,
            transmit_count: self.transmit_count,
            last_sent: self.last_sent,
            transaction_id: match self.transaction_id {
                Some(t) => Some(t@),
                None => None,
            },
            nominated: self.nominated,
        }
    }
}

impl SpecPrioritized for CandidatePair {
    open spec fn spec_priority(&self) -> int {
        self.priority as int
    }
}

impl Prioritized for CandidatePair {
    fn priority_key(&self) -> (r: u64) {
        self.priority
    }
}

impl SpecPrioritized for PairView {
    open spec fn spec_priority(&self) -> int {
        self.priority as int
    }
}

/// Pair priority per RFC 8445: 2^32 * min(G, D) + 2 * max(G, D) + (G > D ? 1 : 0),
/// where G is the controlling side's candidate priority and D the controlled side's.
pub open spec fn pair_priority_formula(local_priority: u32, remote_priority: u32, is_controlling: bool) -> int {
    let g = if is_controlling { local_priority as int } else { remote_priority as int };
    let d = if is_controlling { remote_priority as int } else { local_priority as int };
    let mn = if g < d { g } else { d };
    let mx = if g < d { d } else { g };
    4294967296 * mn + 2 * mx + if g > d { 1int } else { 0int }
}

/// Both sides of a connectivity check compute the same priority for their
/// pair: the controlling side with its candidate as local, the controlled
/// side with the same candidates swapped.
pub proof fn lemma_pair_priority_agrees(controlling_priority: u32, controlled_priority: u32)
    ensures
        pair_priority_formula(controlling_priority, controlled_priority, true) == pair_priority_formula(
            controlled_priority,
            controlling_priority,
            false,
        ),
{
}

/// Calculates a candidate pair priority (see `pair_priority_formula`). The
/// formula fits in 64 bits unless both priorities are `u32::MAX`.
pub fn calculate_pair_priority(local_priority: u32, remote_priority: u32, is_controlling: bool) -> (r: u64)
    requires
        !(local_priority == u32::MAX && remote_priority == u32::MAX),
    ensures
        r as int == pair_priority_formula(local_priority, remote_priority, is_controlling),
{
    let (g, d) = if is_controlling {
        (local_priority as u64, remote_priority as u64)
    } else {
        (remote_priority as u64, local_priority as u64)
    };
    let min = if g < d { g } else { d };
    let max = if g < d { d } else { g };
    let tie_breaker = if g > d { 1u64 } else { 0u64 };
    assert(4294967296 * min <= 18446744065119617024) by (nonlinear_arith)
        requires
            min <= 4294967294,
    ;
    let hi: u64 = 4294967296u64 * min;
    hi + 2 * max + tie_breaker
}

/// The pair that `CandidatePair::new` builds.
pub open spec fn spec_new_pair(l: CandidateView, r: CandidateView, is_controlling: bool) -> PairView {
    PairView {
        local: l,
        remote: r,
        priority: pair_priority_formula(l.priority, r.priority, is_controlling) as u64,
        foundation: l.foundation + seq![':'] + r.foundation,
        state: CheckState::Frozen,
        transmit_count: 0,
        last_sent: None,
        transaction_id: None,
        nominated: false,
    }
}

/// Retransmit timeout after `count` transmissions: 100 ms doubled per
/// transmission (at most four doublings), capped at 1600 ms.
pub open spec fn spec_rto(count: u32) -> u64 {
    if count == 0 {
        100
    } else if count == 1 {
        200
    } else if count == 2 {
        400
    } else if count == 3 {
        800
    } else {
        1600
    }
}

pub open spec fn spec_needs_retransmit(p: CandidatePair, now: u64) -> bool {
    p.state == CheckState::InProgress && p.transmit_count < MAX_RETRANSMITS && match p.last_sent {
        Some(sent) => elapsed(sent, now) >= spec_rto(p.transmit_count),
        None => true,
    }
}

/// The pair after its check starts at `now` with transaction id `id`.
pub open spec fn spec_started(p: CandidatePair, id: [u8; 12], now: u64) -> CandidatePair {
    CandidatePair {
        transaction_id: Some(id),
        state: CheckState::InProgress,
        transmit_count: 1,
        last_sent: Some(now),
        ..p
    }
}

/// The pair after a retransmission at `now`.
pub open spec fn spec_retransmitted(p: CandidatePair, now: u64) -> CandidatePair {
    CandidatePair { transmit_count: (p.transmit_count + 1) as u32, last_sent: Some(now), ..p }
}

/// Whether the pair's outstanding transaction id is `id`.
pub open spec fn matches_transaction(p: CandidatePair, id: [u8; 12]) -> bool {
    p.transaction_id matches Some(t) && t@ == id@
}

/// The pair after a response that matches it.
pub open spec fn spec_answered(p: CandidatePair, success: bool) -> CandidatePair {
    CandidatePair { state: if success { CheckState::Succeeded } else { CheckState::Failed }, ..p }
}

impl CandidatePair {
    /// A frozen pair with its priority and foundation computed.
    pub fn new(local: Candidate, remote: Candidate, is_controlling: bool) -> (p: CandidatePair)
        requires
            !(local.priority == u32::MAX && remote.priority == u32::MAX),
        ensures
            p@ == spec_new_pair(local@, remote@, is_controlling),
    {
        let priority = calculate_pair_priority(local.priority, remote.priority, is_controlling);
        let mut foundation = local.foundation.clone();
        push_char(&mut foundation, ':');
        push_str(&mut foundation, remote.foundation.as_str());
        assert(foundation@ =~= local.foundation@ + seq![':'] + remote.foundation@);
        CandidatePair {
            local,
            remote,
            priority,
            foundation,
            state: CheckState::Frozen,
            transmit_count: 0,
            last_sent: None,
            transaction_id: None,
            nominated: false,
        }
    }

    /// Whether the pair needs a retransmission now.
    pub fn needs_retransmit(&self) -> (r: bool)
        ensures
            exists|now: u64| r == spec_needs_retransmit(*self, now),
    {
        self.needs_retransmit_at(now_ms())
    }

    /// Whether the pair needs a retransmission at `now`: its check is in
    /// progress, fewer than the maximum transmissions were made, and the
    /// retransmit timeout has passed since the last one.
    pub fn needs_retransmit_at(&self, now: u64) -> (r: bool)
        ensures
            r == spec_needs_retransmit(*self, now),
    {
        if self.state != CheckState::InProgress {
            return false;
        }
        if self.transmit_count >= MAX_RETRANSMITS {
            return false;
        }
        match self.last_sent {
            Some(sent) => elapsed_ms(sent, now) >= self.current_rto(),
            None => true,
        }
    }

    /// Current retransmit timeout in milliseconds (exponential backoff).
    pub fn current_rto(&self) -> (r: u64)
        ensures
            r == spec_rto(self.transmit_count),
    {
        let shift: u32 = if self.transmit_count < 4 { self.transmit_count } else { 4 };
        let rto = if shift == 0 {
            INITIAL_RTO
        } else if shift == 1 {
            INITIAL_RTO * 2
        } else if shift == 2 {
            INITIAL_RTO * 4
        } else if shift == 3 {
            INITIAL_RTO * 8
        } else {
            INITIAL_RTO * 16
        };
        if rto < MAX_RTO { rto } else { MAX_RTO }
    }

    /// Whether the pair's check has timed out (checking started at `start_time`).
    pub fn is_timed_out(&self, start_time: u64) -> (r: bool)
        ensures
            exists|now: u64| r == (elapsed(start_time, now) >= CHECK_TIMEOUT && self.state
                == CheckState::InProgress),
    {
        self.is_timed_out_at(start_time, now_ms())
    }

    /// Whether, at `now`, the check timeout has passed since `start_time` while
    /// the check is still in progress.
    pub fn is_timed_out_at(&self, start_time: u64, now: u64) -> (r: bool)
        ensures
            r == (elapsed(start_time, now) >= CHECK_TIMEOUT && self.state == CheckState::InProgress),
    {
        elapsed_ms(start_time, now) >= CHECK_TIMEOUT && self.state == CheckState::InProgress
    }

    /// Starts the check now, with a transaction id made from the clock and
    /// `process_id`; returns the request to send.
    pub fn start_check(&mut self, process_id: u32) -> (req: BindingRequest)
        ensures
            exists|id: [u8; 12], now: u64| *final(self) == spec_started(*old(self), id, now) && req
                == (BindingRequest { transaction_id: id, priority: old(self).priority, use_candidate: old(self).nominated }),
    {
        let id = generate_transaction_id(now_nanos(), process_id);
        self.start_check_at(id, now_ms())
    }

    /// Starts the check at `now` with transaction id `id`: the pair is in
    /// progress with one transmission; returns the request to send.
    pub fn start_check_at(&mut self, id: [u8; 12], now: u64) -> (req: BindingRequest)
        ensures
            *final(self) == spec_started(*old(self), id, now),
            req == (BindingRequest { transaction_id: id, priority: old(self).priority, use_candidate: old(self).nominated }),
    {
        let request = BindingRequest::with_transaction_id(id, self.priority, self.nominated);
        self.transaction_id = Some(id);
        self.state = CheckState::InProgress;
        self.transmit_count = 1;
        self.last_sent = Some(now);
        request
    }

    /// Records a retransmission now.
    pub fn record_retransmit(&mut self)
        requires
            old(self).transmit_count < u32::MAX,
        ensures
            exists|now: u64| *final(self) == spec_retransmitted(*old(self), now),
    {
        self.record_retransmit_at(now_ms())
    }

    /// Records a retransmission at `now`.
    pub fn record_retransmit_at(&mut self, now: u64)
        requires
            old(self).transmit_count < u32::MAX,
        ensures
            *final(self) == spec_retransmitted(*old(self), now),
    {
        self.transmit_count = self.transmit_count + 1;
        self.last_sent = Some(now);
    }

    /// Handles a binding response: if it answers this pair's outstanding
    /// request, the pair succeeds or fails accordingly and the result is true.
    pub fn handle_response(&mut self, response: &BindingResponse) -> (matched: bool)
        ensures
            matched == matches_transaction(*old(self), response.transaction_id),
            matched ==> *final(self) == spec_answered(*old(self), response.success),
            !matched ==> *final(self) == *old(self),
    {
        let m = match &self.transaction_id {
            Some(t) => same_transaction_id(t, &response.transaction_id),
            None => false,
        };
        if !m {
            return false;
        }
        if response.success {
            self.state = CheckState::Succeeded;
        } else {
            self.state = CheckState::Failed;
        }
        true
    }

    /// Marks the check as failed.
    pub fn mark_failed(&mut self)
        ensures
            *final(self) == (CandidatePair { state: CheckState::Failed, ..*old(self) }),
    {
        self.state = CheckState::Failed;
    }

    /// A copy of this pair.
    pub fn duplicate(&self) -> (r: CandidatePair)
        ensures
            r == *self,
    {
        CandidatePair {
            local: self.local.duplicate(),
            remote: self.remote.duplicate(),
            priority: self.priority,
            foundation: self.foundation.clone(),
            state: self.state,
            transmit_count: self.transmit_count,
            last_sent: self.last_sent,
            transaction_id: self.transaction_id,
            nominated: self.nominated,
        }
    }
}

/// Views of a sequence of pairs.
pub open spec fn pair_views(s: Seq<CandidatePair>) -> Seq<PairView> {
    s.map_values(|p: CandidatePair| p@)
}

/// Pairs formed from one local candidate and the remote candidates of the same IP family.
pub open spec fn spec_pair_row(l: CandidateView, remote: Seq<CandidateView>, is_controlling: bool) -> Seq<PairView>
    decreases remote.len(),
{
    if remote.len() == 0 {
        Seq::empty()
    } else {
        let rest = spec_pair_row(l, remote.drop_last(), is_controlling);
        if (l.address.ip is V4) == (remote.last().address.ip is V4) {
            rest.push(spec_new_pair(l, remote.last(), is_controlling))
        } else {
            rest
        }
    }
}

/// Pairs formed from local and remote candidates (local-major order), same IP family only.
pub open spec fn spec_pairs_for(
    local: Seq<CandidateView>,
    remote: Seq<CandidateView>,
    is_controlling: bool,
) -> Seq<PairView>
    decreases local.len(),
{
    if local.len() == 0 {
        Seq::empty()
    } else {
        spec_pairs_for(local.drop_last(), remote, is_controlling) + spec_pair_row(
            local.last(),
            remote,
            is_controlling,
        )
    }
}

/// Whether no pair before index `i` has the foundation of pair `i`.
pub open spec fn first_of_foundation(s: Seq<PairView>, i: int) -> bool {
    forall|j: int| 0 <= j < i ==> s[j].foundation != s[i].foundation
}

/// The first pair of each foundation is set to Waiting.
pub open spec fn unfreeze_initial(s: Seq<PairView>) -> Seq<PairView> {
    Seq::new(
        s.len(),
        |i: int|
            if first_of_foundation(s, i) {
                PairView { state: CheckState::Waiting, ..s[i] }
            } else {
                s[i]
            },
    )
}

/// Index of the succeeded pair of highest priority among the first `k`
/// pairs (the last one on ties).
pub open spec fn best_succeeded(s: Seq<CandidatePair>, k: int) -> Option<int>
    decreases k,
{
    if k <= 0 {
        None
    } else {
        let b = best_succeeded(s, k - 1);
        if s[k - 1].state == CheckState::Succeeded && (b matches Some(j) ==> s[k - 1].priority
            >= s[j].priority) {
            Some(k - 1)
        } else {
            b
        }
    }
}

/// The pair picked as best among the first `k` is a succeeded one whose
/// priority is at least that of every succeeded pair among them (the last
/// such pair on ties); when nothing is picked, none of them succeeded.
pub proof fn lemma_best_succeeded_is_highest(s: Seq<CandidatePair>, k: int)
    requires
        0 <= k <= s.len(),
    ensures
        match best_succeeded(s, k) {
            Some(i) => {
                &&& 0 <= i < k
                &&& s[i].state == CheckState::Succeeded
                &&& forall|j: int| 0 <= j < k && s[j].state == CheckState::Succeeded ==> s[j].priority <= s[i].priority
                &&& forall|j: int| i < j < k && s[j].state == CheckState::Succeeded ==> s[j].priority < s[i].priority
            },
            None => forall|j: int| 0 <= j < k ==> s[j].state != CheckState::Succeeded,
        },
    decreases k,
{
    if k > 0 {
        lemma_best_succeeded_is_highest(s, k - 1);
    }
}

/// Pairs of the first `k` in the given state, in order.
pub open spec fn pairs_in_state(s: Seq<CandidatePair>, state: CheckState, k: int) -> Seq<CandidatePair>
    decreases k,
{
    if k <= 0 {
        Seq::empty()
    } else if s[k - 1].state == state {
        pairs_in_state(s, state, k - 1).push(s[k - 1])
    } else {
        pairs_in_state(s, state, k - 1)
    }
}

/// Manages all candidate pairs and their connectivity checks.
#[derive(Debug)]
pub struct CheckList {
    pairs: Vec<CandidatePair>,
    start_time: Option<u64>,
    is_controlling: bool,
    next_check_index: usize,
    last_check_time: Option<u64>,
}

impl CheckList {
    pub closed spec fn spec_pairs(&self) -> Seq<CandidatePair> {
        self.pairs@
    }

    pub closed spec fn spec_start_time(&self) -> Option<u64> {
        self.start_time
    }

    pub closed spec fn spec_is_controlling(&self) -> bool {
        self.is_controlling
    }

    pub closed spec fn spec_next_check_index(&self) -> nat {
        self.next_check_index as nat
    }

    pub closed spec fn spec_last_check_time(&self) -> Option<u64> {
        self.last_check_time
    }

    /// The invariant: the next index is within the list, every pair in
    /// progress has a transaction id, and no pair was sent more than the
    /// maximum number of times.
    pub open spec fn wf(&self) -> bool {
        &&& self.spec_next_check_index() <= self.spec_pairs().len()
        &&& forall|i: int| 0 <= i < self.spec_pairs().len() ==> (#[trigger] self.spec_pairs()[i]).state
            == CheckState::InProgress ==> self.spec_pairs()[i].transaction_id is Some
        &&& forall|i: int| 0 <= i < self.spec_pairs().len() ==> (#[trigger] self.spec_pairs()[i]).transmit_count
            <= MAX_RETRANSMITS
    }

    /// An empty check list.
    pub fn new(is_controlling: bool) -> (l: CheckList)
        ensures
            l.wf(),
            l.spec_pairs() == Seq::<CandidatePair>::empty(),
            l.spec_start_time() is None,
            l.spec_is_controlling() == is_controlling,
            l.spec_next_check_index() == 0,
            l.spec_last_check_time() is None,
    {
        CheckList {
            pairs: Vec::new(),
            start_time: None,
            is_controlling,
            next_check_index: 0,
            last_check_time: None,
        }
    }

    /// Adds a pair for every local and remote candidate of the same IP family,
    /// sorts all pairs by priority (stable) and unfreezes the first pair of
    /// each foundation.
    pub fn add_pairs(&mut self, local_candidates: &[Candidate], remote_candidates: &[Candidate])
        requires
            old(self).wf(),
            forall|i: int, j: int|
                0 <= i < local_candidates@.len() && 0 <= j < remote_candidates@.len() ==> !(
                #[trigger] local_candidates@[i].priority == u32::MAX && #[trigger] remote_candidates@[j].priority
                == u32::MAX),
        ensures
            final(self).wf(),
            pair_views(final(self).spec_pairs()) == unfreeze_initial(
                sort_desc(
                    pair_views(old(self).spec_pairs()) + spec_pairs_for(
                        candidate_views(local_candidates@),
                        candidate_views(remote_candidates@),
                        old(self).spec_is_controlling(),
                    ),
                ),
            ),
            final(self).spec_start_time() == old(self).spec_start_time(),
            final(self).spec_is_controlling() == old(self).spec_is_controlling(),
            final(self).spec_next_check_index() == old(self).spec_next_check_index(),
            final(self).spec_last_check_time() == old(self).spec_last_check_time(),
    {
        let ghost old_views = pair_views(self.pairs@);
        let ghost lv = candidate_views(local_candidates@);
        let ghost rv = candidate_views(remote_candidates@);
        let mut i: usize = 0;
        assert(lv.subrange(0, 0) =~= Seq::<CandidateView>::empty());
        assert(pair_views(self.pairs@) =~= old_views + spec_pairs_for(lv.subrange(0, 0), rv, self.is_controlling));
        while i < local_candidates.len()
            invariant
                i <= local_candidates@.len(),
                lv == candidate_views(local_candidates@),
                rv == candidate_views(remote_candidates@),
                self.is_controlling == old(self).is_controlling,
                self.start_time == old(self).start_time,
                self.next_check_index == old(self).next_check_index,
                self.last_check_time == old(self).last_check_time,
                self.next_check_index <= self.pairs@.len(),
                pair_views(self.pairs@) == old_views + spec_pairs_for(lv.subrange(0, i as int), rv, self.is_controlling),
                forall|k: int| 0 <= k < self.pairs@.len() ==> (#[trigger] self.pairs@[k]).state == CheckState::InProgress
                    ==> self.pairs@[k].transaction_id is Some,
                forall|k: int| 0 <= k < self.pairs@.len() ==> (#[trigger] self.pairs@[k]).transmit_count <= MAX_RETRANSMITS,
                forall|a: int, b: int|
                    0 <= a < local_candidates@.len() && 0 <= b < remote_candidates@.len() ==> !(
                    #[trigger] local_candidates@[a].priority == u32::MAX && #[trigger] remote_candidates@[b].priority
                    == u32::MAX),
            decreases local_candidates@.len() - i,
        {
            let ghost before = pair_views(self.pairs@);
            let mut j: usize = 0;
            assert(rv.subrange(0, 0) =~= Seq::<CandidateView>::empty());
            assert(pair_views(self.pairs@) =~= before + spec_pair_row(lv[i as int], rv.subrange(0, 0), self.is_controlling));
            while j < remote_candidates.len()
                invariant
                    i < local_candidates@.len(),
                    j <= remote_candidates@.len(),
                    lv == candidate_views(local_candidates@),
                    rv == candidate_views(remote_candidates@),
                    self.is_controlling == old(self).is_controlling,
                    self.start_time == old(self).start_time,
                    self.next_check_index == old(self).next_check_index,
                    self.last_check_time == old(self).last_check_time,
                    self.next_check_index <= self.pairs@.len(),
                    pair_views(self.pairs@) == before + spec_pair_row(lv[i as int], rv.subrange(0, j as int), self.is_controlling),
                    forall|k: int| 0 <= k < self.pairs@.len() ==> (#[trigger] self.pairs@[k]).state == CheckState::InProgress
                        ==> self.pairs@[k].transaction_id is Some,
                    forall|k: int| 0 <= k < self.pairs@.len() ==> (#[trigger] self.pairs@[k]).transmit_count <= MAX_RETRANSMITS,
                    forall|a: int, b: int|
                        0 <= a < local_candidates@.len() && 0 <= b < remote_candidates@.len() ==> !(
                        #[trigger] local_candidates@[a].priority == u32::MAX && #[trigger] remote_candidates@[b].priority
                        == u32::MAX),
                decreases remote_candidates@.len() - j,
            {
                let local = &local_candidates[i];
                let remote = &remote_candidates[j];
                proof {
                    assert(rv.subrange(0, j + 1).drop_last() =~= rv.subrange(0, j as int));
                    assert(rv.subrange(0, j + 1).last() == remote@);
                    assert(lv[i as int] == local@);
                }
                if local.address.is_ipv4() == remote.address.is_ipv4() {
                    let pair = CandidatePair::new(local.duplicate(), remote.duplicate(), self.is_controlling);
                    let ghost prev_pairs = self.pairs@;
                    let ghost pv = pair@;
                    self.pairs.push(pair);
                    proof {
                        assert(pair_views(self.pairs@) =~= pair_views(prev_pairs).push(pv));
                        assert(spec_pair_row(lv[i as int], rv.subrange(0, j + 1), self.is_controlling)
                            == spec_pair_row(lv[i as int], rv.subrange(0, j as int), self.is_controlling).push(
                            spec_new_pair(lv[i as int], rv[j as int], self.is_controlling)));
                        assert(rv[j as int] == remote@);
                    }
                    assert(pair_views(self.pairs@) =~= before + spec_pair_row(lv[i as int], rv.subrange(0, j + 1), self.is_controlling));
                } else {
                    assert(pair_views(self.pairs@) =~= before + spec_pair_row(lv[i as int], rv.subrange(0, j + 1), self.is_controlling));
                }
                j = j + 1;
            }
            proof {
                assert(rv.subrange(0, j as int) =~= rv);
                assert(lv.subrange(0, i + 1).drop_last() =~= lv.subrange(0, i as int));
                assert(lv.subrange(0, i + 1).last() == lv[i as int]);
                assert(pair_views(self.pairs@) =~= old_views + spec_pairs_for(lv.subrange(0, i + 1), rv, self.is_controlling));
            }
            i = i + 1;
        }
        assert(lv.subrange(0, i as int) =~= lv);
        let ghost unsorted = self.pairs@;
        stable_sort_desc(&mut self.pairs);
        proof {
            lemma_sort_desc_map(unsorted, |p: CandidatePair| p@);
            lemma_sort_desc_sorted_permutation(unsorted);
            assert forall|k: int| 0 <= k < self.pairs@.len() implies (#[trigger] self.pairs@[k]).state
                == CheckState::InProgress ==> self.pairs@[k].transaction_id is Some by {
                lemma_in_permutation(unsorted, self.pairs@, k);
            }
            assert forall|k: int| 0 <= k < self.pairs@.len() implies (#[trigger] self.pairs@[k]).transmit_count
                <= MAX_RETRANSMITS by {
                lemma_in_permutation(unsorted, self.pairs@, k);
            }
        }
        self.unfreeze_initial_pairs();
    }

    /// Sets the first pair of each foundation to Waiting.
    fn unfreeze_initial_pairs(&mut self)
        requires
            old(self).wf(),
        ensures
            final(self).wf(),
            pair_views(final(self).pairs@) == unfreeze_initial(pair_views(old(self).pairs@)),
            final(self).start_time == old(self).start_time,
            final(self).is_controlling == old(self).is_controlling,
            final(self).next_check_index == old(self).next_check_index,
            final(self).last_check_time == old(self).last_check_time,
    {
        let ghost orig = pair_views(self.pairs@);
        let ghost orig_pairs = self.pairs@;
        let mut i: usize = 0;
        while i < self.pairs.len()
            invariant
                i <= self.pairs@.len(),
                self.pairs@.len() == orig.len(),
                orig == pair_views(orig_pairs),
                orig_pairs == old(self).pairs@,
                old(self).wf(),
                self.start_time == old(self).start_time,
                self.is_controlling == old(self).is_controlling,
                self.next_check_index == old(self).next_check_index,
                self.last_check_time == old(self).last_check_time,
                forall|k: int| 0 <= k < self.pairs@.len() ==> (#[trigger] self.pairs@[k]).foundation
                    == orig_pairs[k].foundation,
                forall|k: int| 0 <= k < i ==> (#[trigger] self.pairs@[k])@ == unfreeze_initial(orig)[k],
                forall|k: int| i <= k < self.pairs@.len() ==> #[trigger] self.pairs@[k] == orig_pairs[k],
            decreases orig.len() - i,
        {
            let mut first = true;
            let mut j: usize = 0;
            while j < i
                invariant
                    i < self.pairs@.len(),
                    j <= i,
                    self.pairs@.len() == orig.len(),
                    orig == pair_views(orig_pairs),
                    forall|k: int| 0 <= k < self.pairs@.len() ==> (#[trigger] self.pairs@[k]).foundation
                        == orig_pairs[k].foundation,
                    first == forall|m: int| 0 <= m < j ==> orig[m].foundation != #[trigger] orig[i as int].foundation,
                decreases i - j,
            {
                proof {
                    assert(orig[j as int].foundation == self.pairs@[j as int].foundation@);
                    assert(orig[i as int].foundation == self.pairs@[i as int].foundation@);
                }
                if self.pairs[j].foundation == self.pairs[i].foundation {
                    first = false;
                }
                j = j + 1;
            }
            proof {
                assert(first == first_of_foundation(orig, i as int));
                assert(orig[i as int] == orig_pairs[i as int]@);
            }
            if first {
                let mut p = self.pairs[i].duplicate();
                p.state = CheckState::Waiting;
                self.pairs.set(i, p);
            }
            i = i + 1;
        }
        assert(pair_views(self.pairs@) =~= unfreeze_initial(orig));
        assert forall|k: int| 0 <= k < self.pairs@.len() implies (#[trigger] self.pairs@[k]).transmit_count
            <= MAX_RETRANSMITS by {
            assert(self.pairs@[k]@.transmit_count == orig[k].transmit_count);
            assert(orig_pairs[k].transmit_count == old(self).pairs@[k].transmit_count);
        }
        assert forall|k: int| 0 <= k < self.pairs@.len() && (#[trigger] self.pairs@[k]).state
            == CheckState::InProgress implies self.pairs@[k].transaction_id is Some by {
            assert(self.pairs@[k]@.transaction_id == orig[k].transaction_id);
            assert(orig[k].state != CheckState::Waiting);
        }
    }

    /// Starts checking now.
    pub fn start(&mut self)
        requires
            old(self).wf(),
        ensures
            final(self).wf(),
            exists|now: u64| final(self).spec_start_time() == Some(now),
            final(self).spec_pairs() == old(self).spec_pairs(),
            final(self).spec_is_controlling() == old(self).spec_is_controlling(),
            final(self).spec_next_check_index() == 0,
            final(self).spec_last_check_time() is None,
    {
        self.start_at(now_ms())
    }

    /// Starts checking at `now`: scheduling begins again from the first pair.
    pub fn start_at(&mut self, now: u64)
        requires
            old(self).wf(),
        ensures
            final(self).wf(),
            final(self).spec_start_time() == Some(now),
            final(self).spec_pairs() == old(self).spec_pairs(),
            final(self).spec_is_controlling() == old(self).spec_is_controlling(),
            final(self).spec_next_check_index() == 0,
            final(self).spec_last_check_time() is None,
    {
        self.start_time = Some(now);
        self.last_check_time = None;
        self.next_check_index = 0;
    }

    /// Whether requests are paced at `now` (the last one was sent less than
    /// the pacing interval ago).
    pub open spec fn spec_paced(&self, now: u64) -> bool {
        self.spec_last_check_time() matches Some(last) && elapsed(last, now) < PACE_INTERVAL
    }

    /// What `next_request_at` does. When paced, nothing. Otherwise the first
    /// pair that needs a retransmission is retransmitted with its transaction
    /// id; failing that, the first Waiting pair at or after the next index
    /// starts its check with `id` and the next index moves past it. A request
    /// sent records `now` as the last check time. With nothing to send, the
    /// next index moves to the end of the list.
    pub open spec fn spec_next_request(
        pre: CheckList,
        post: CheckList,
        now: u64,
        id: [u8; 12],
        r: Option<(usize, BindingRequest, SockAddr)>,
    ) -> bool {
        let s = pre.spec_pairs();
        &&& post.spec_start_time() == pre.spec_start_time()
        &&& post.spec_is_controlling() == pre.spec_is_controlling()
        &&& if pre.spec_paced(now) {
            r is None && post == pre
        } else if exists|i: int| 0 <= i < s.len() && spec_needs_retransmit(#[trigger] s[i], now) {
            r matches Some((i, req, addr)) && 0 <= i < s.len() && spec_needs_retransmit(s[i as int], now) && (forall|j: int|
                0 <= j < i ==> !spec_needs_retransmit(#[trigger] s[j], now)) && s[i as int].transaction_id
                == Some(req.transaction_id) && req.priority == s[i as int].priority && req.use_candidate
                == s[i as int].nominated && addr == s[i as int].remote.address && post.spec_pairs() == s.update(
                i as int,
                spec_retransmitted(s[i as int], now),
            ) && post.spec_last_check_time() == Some(now) && post.spec_next_check_index()
                == pre.spec_next_check_index()
        } else if exists|k: int| pre.spec_next_check_index() <= k < s.len() && (#[trigger] s[k]).state
            == CheckState::Waiting {
            r matches Some((k, req, addr)) && pre.spec_next_check_index() <= k < s.len() && s[k as int].state
                == CheckState::Waiting && (forall|j: int|
                pre.spec_next_check_index() <= j < k ==> (#[trigger] s[j]).state != CheckState::Waiting) && req
                == (BindingRequest { transaction_id: id, priority: s[k as int].priority, use_candidate: s[k as int].nominated })
                && addr == s[k as int].remote.address && post.spec_pairs() == s.update(
                k as int,
                spec_started(s[k as int], id, now),
            ) && post.spec_last_check_time() == Some(now) && post.spec_next_check_index() == k + 1
        } else {
            r is None && post.spec_pairs() == s && post.spec_last_check_time() == pre.spec_last_check_time()
                && post.spec_next_check_index() == if pre.spec_next_check_index() < s.len() {
                s.len()
            } else {
                pre.spec_next_check_index()
            }
        }
    }

    /// The next binding request to send now (see `next_request_at`), with a
    /// fresh transaction id made from the clock and `process_id`.
    pub fn next_request(&mut self, process_id: u32) -> (r: Option<(usize, BindingRequest, SockAddr)>)
        requires
            old(self).wf(),
        ensures
            final(self).wf(),
            exists|now: u64, id: [u8; 12]| Self::spec_next_request(*old(self), *final(self), now, id, r),
    {
        let id = generate_transaction_id(now_nanos(), process_id);
        self.next_request_at(now_ms(), id)
    }

    /// The next binding request to send at `now`: the pair index, the request
    /// and the remote address (see `spec_next_request`).
    pub fn next_request_at(&mut self, now: u64, id: [u8; 12]) -> (r: Option<(usize, BindingRequest, SockAddr)>)
        requires
            old(self).wf(),
        ensures
            final(self).wf(),
            Self::spec_next_request(*old(self), *final(self), now, id, r),
    {
        if let Some(last) = self.last_check_time {
            if elapsed_ms(last, now) < PACE_INTERVAL {
                return None;
            }
        }
        let ghost s = self.pairs@;
        let mut idx: usize = 0;
        while idx < self.pairs.len()
            invariant
                self.pairs@ == s,
                s == old(self).pairs@,
                old(self).wf(),
                !old(self).spec_paced(now),
                self.next_check_index == old(self).next_check_index,
                self.last_check_time == old(self).last_check_time,
                self.start_time == old(self).start_time,
                self.is_controlling == old(self).is_controlling,
                idx <= s.len(),
                forall|j: int| 0 <= j < idx ==> !spec_needs_retransmit(#[trigger] s[j], now),
            decreases s.len() - idx,
        {
            if self.pairs[idx].needs_retransmit_at(now) {
                let mut pair = self.pairs[idx].duplicate();
                assert(s[idx as int].transaction_id is Some);
                pair.record_retransmit_at(now);
                let txn_id = match pair.transaction_id {
                    Some(t) => t,
                    None => {
                        assert(false);
                        [0u8; 12]
                    },
                };
                let request = BindingRequest::with_transaction_id(txn_id, pair.priority, pair.nominated);
                let addr = pair.remote.address;
                self.pairs.set(idx, pair);
                self.last_check_time = Some(now);
                proof {
                    assert(self.pairs@ == s.update(idx as int, spec_retransmitted(s[idx as int], now)));
                    assert forall|j: int| 0 <= j < self.pairs@.len() implies (#[trigger] self.pairs@[j]).transmit_count
                        <= MAX_RETRANSMITS by {
                        if j != idx {
                            assert(self.pairs@[j] == s[j]);
                        }
                    }
                    assert forall|j: int| 0 <= j < self.pairs@.len() && (#[trigger] self.pairs@[j]).state
                        == CheckState::InProgress implies self.pairs@[j].transaction_id is Some by {
                        if j != idx {
                            assert(self.pairs@[j] == s[j]);
                        }
                    }
                }
                return Some((idx, request, addr));
            }
            idx = idx + 1;
        }
        while self.next_check_index < self.pairs.len()
            invariant
                self.pairs@ == s,
                s == old(self).pairs@,
                old(self).wf(),
                !old(self).spec_paced(now),
                self.start_time == old(self).start_time,
                self.is_controlling == old(self).is_controlling,
                forall|j: int| 0 <= j < s.len() ==> !spec_needs_retransmit(#[trigger] s[j], now),
                old(self).next_check_index <= self.next_check_index <= s.len(),
                self.last_check_time == old(self).last_check_time,
                forall|j: int| old(self).next_check_index <= j < self.next_check_index ==> (#[trigger] s[j]).state
                    != CheckState::Waiting,
            decreases s.len() - self.next_check_index,
        {
            let k = self.next_check_index;
            self.next_check_index = self.next_check_index + 1;
            if self.pairs[k].state == CheckState::Waiting {
                let mut pair = self.pairs[k].duplicate();
                let request = pair.start_check_at(id, now);
                let addr = pair.remote.address;
                self.pairs.set(k, pair);
                self.last_check_time = Some(now);
                proof {
                    assert(self.pairs@ == s.update(k as int, spec_started(s[k as int], id, now)));
                    assert forall|j: int| 0 <= j < self.pairs@.len() implies (#[trigger] self.pairs@[j]).transmit_count
                        <= MAX_RETRANSMITS by {
                        if j != k {
                            assert(self.pairs@[j] == s[j]);
                        }
                    }
                    assert forall|j: int| 0 <= j < self.pairs@.len() && (#[trigger] self.pairs@[j]).state
                        == CheckState::InProgress implies self.pairs@[j].transaction_id is Some by {
                        if j != k {
                            assert(self.pairs@[j] == s[j]);
                        }
                    }
                    assert(!(exists|i: int| 0 <= i < s.len() && spec_needs_retransmit(#[trigger] s[i], now)));
                }
                return Some((k, request, addr));
            }
        }
        proof {
            assert(!(exists|i: int| 0 <= i < s.len() && spec_needs_retransmit(#[trigger] s[i], now)));
            assert(!(exists|k: int| old(self).spec_next_check_index() <= k < s.len() && (#[trigger] s[k]).state
                == CheckState::Waiting));
        }
        None
    }

    /// Handles a binding response; returns the index of the first pair whose
    /// outstanding request it answers. If that pair succeeded, the frozen
    /// pairs of its foundation become Waiting.
    pub fn handle_response(&mut self, response: &BindingResponse) -> (r: Option<usize>)
        requires
            old(self).wf(),
        ensures
            final(self).wf(),
            Self::spec_handle_response(*old(self), *final(self), *response, r),
    {
        let ghost s = self.pairs@;
        let mut idx: usize = 0;
        while idx < self.pairs.len()
            invariant
                self.pairs@ == s,
                s == old(self).pairs@,
                old(self).wf(),
                self.next_check_index == old(self).next_check_index,
                self.last_check_time == old(self).last_check_time,
                self.start_time == old(self).start_time,
                self.is_controlling == old(self).is_controlling,
                idx <= s.len(),
                forall|j: int| 0 <= j < idx ==> !matches_transaction(#[trigger] s[j], response.transaction_id),
            decreases s.len() - idx,
        {
            let mut pair = self.pairs[idx].duplicate();
            if pair.handle_response(response) {
                let succeeded = pair.state == CheckState::Succeeded;
                let foundation = pair.foundation.clone();
                self.pairs.set(idx, pair);
                proof {
                    assert(self.pairs@ == s.update(idx as int, spec_answered(s[idx as int], response.success)));
                    assert forall|j: int| 0 <= j < self.pairs@.len() implies (#[trigger] self.pairs@[j]).transmit_count
                        <= MAX_RETRANSMITS by {
                        if j != idx {
                            assert(self.pairs@[j] == s[j]);
                        }
                    }
                    assert forall|j: int| 0 <= j < self.pairs@.len() && (#[trigger] self.pairs@[j]).state
                        == CheckState::InProgress implies self.pairs@[j].transaction_id is Some by {
                        if j != idx {
                            assert(self.pairs@[j] == s[j]);
                        }
                    }
                    assert(succeeded == response.success);
                    assert(foundation@ == s[idx as int].foundation@);
                }
                if succeeded {
                    self.unfreeze_by_foundation(&foundation);
                }
                return Some(idx);
            }
            idx = idx + 1;
        }
        None
    }

    /// What `handle_response` does (see there).
    pub open spec fn spec_handle_response(pre: CheckList, post: CheckList, response: BindingResponse, r: Option<usize>) -> bool {
        let s = pre.spec_pairs();
        &&& post.spec_start_time() == pre.spec_start_time()
        &&& post.spec_is_controlling() == pre.spec_is_controlling()
        &&& post.spec_next_check_index() == pre.spec_next_check_index()
        &&& post.spec_last_check_time() == pre.spec_last_check_time()
        &&& match r {
            None => (forall|j: int| 0 <= j < s.len() ==> !matches_transaction(#[trigger] s[j], response.transaction_id))
                && post.spec_pairs() == s,
            Some(i) => {
                &&& 0 <= i < s.len()
                &&& matches_transaction(s[i as int], response.transaction_id)
                &&& forall|j: int| 0 <= j < i ==> !matches_transaction(#[trigger] s[j], response.transaction_id)
                &&& post.spec_pairs() == if response.success {
                    unfreeze_foundation(
                        s.update(i as int, spec_answered(s[i as int], true)),
                        s[i as int].foundation@,
                    )
                } else {
                    s.update(i as int, spec_answered(s[i as int], false))
                }
            },
        }
    }

    /// Sets the frozen pairs of a foundation to Waiting.
    fn unfreeze_by_foundation(&mut self, foundation: &String)
        requires
            old(self).wf(),
        ensures
            final(self).wf(),
            final(self).pairs@ == unfreeze_foundation(old(self).pairs@, foundation@),
            final(self).start_time == old(self).start_time,
            final(self).is_controlling == old(self).is_controlling,
            final(self).next_check_index == old(self).next_check_index,
            final(self).last_check_time == old(self).last_check_time,
    {
        let ghost s = self.pairs@;
        let mut i: usize = 0;
        while i < self.pairs.len()
            invariant
                i <= s.len(),
                self.pairs@.len() == s.len(),
                self.start_time == old(self).start_time,
                self.is_controlling == old(self).is_controlling,
                self.next_check_index == old(self).next_check_index,
                self.last_check_time == old(self).last_check_time,
                s == old(self).pairs@,
                forall|k: int| 0 <= k < i ==> #[trigger] self.pairs@[k] == unfreeze_foundation(s, foundation@)[k],
                forall|k: int| i <= k < s.len() ==> #[trigger] self.pairs@[k] == s[k],
            decreases s.len() - i,
        {
            if self.pairs[i].state == CheckState::Frozen && self.pairs[i].foundation == *foundation {
                let mut p = self.pairs[i].duplicate();
                p.state = CheckState::Waiting;
                self.pairs.set(i, p);
            }
            i = i + 1;
        }
        assert(self.pairs@ =~= unfreeze_foundation(s, foundation@));
        assert forall|k: int| 0 <= k < self.pairs@.len() implies (#[trigger] self.pairs@[k]).transmit_count
            <= MAX_RETRANSMITS by {
            assert(self.pairs@[k].transmit_count == s[k].transmit_count);
        }
        assert forall|k: int| 0 <= k < self.pairs@.len() implies (#[trigger] self.pairs@[k]).state
            == CheckState::InProgress ==> self.pairs@[k].transaction_id is Some by {
            assert(self.pairs@[k].transaction_id == s[k].transaction_id);
        }
    }

    /// Fails the checks in progress that reached the maximum number of
    /// transmissions or whose timeout passed now.
    pub fn handle_timeouts(&mut self)
        requires
            old(self).wf(),
        ensures
            final(self).wf(),
            exists|now: u64| Self::spec_handle_timeouts(*old(self), *final(self), now),
    {
        self.handle_timeouts_at(now_ms())
    }

    /// What `handle_timeouts_at` does: before checking started nothing;
    /// otherwise each pair in progress that was sent the maximum number of
    /// times, or whose check timeout has passed at `now`, fails.
    pub open spec fn spec_handle_timeouts(pre: CheckList, post: CheckList, now: u64) -> bool {
        &&& post.spec_start_time() == pre.spec_start_time()
        &&& post.spec_is_controlling() == pre.spec_is_controlling()
        &&& post.spec_next_check_index() == pre.spec_next_check_index()
        &&& post.spec_last_check_time() == pre.spec_last_check_time()
        &&& match pre.spec_start_time() {
            None => post.spec_pairs() == pre.spec_pairs(),
            Some(start) => post.spec_pairs() == timed_out_failed(pre.spec_pairs(), start, now),
        }
    }

    /// Fails the checks in progress that reached the maximum number of
    /// transmissions or whose timeout passed at `now`.
    pub fn handle_timeouts_at(&mut self, now: u64)
        requires
            old(self).wf(),
        ensures
            final(self).wf(),
            Self::spec_handle_timeouts(*old(self), *final(self), now),
    {
        let start = match self.start_time {
            Some(s) => s,
            None => return,
        };
        let ghost s = self.pairs@;
        let mut i: usize = 0;
        while i < self.pairs.len()
            invariant
                i <= s.len(),
                self.pairs@.len() == s.len(),
                self.start_time == old(self).start_time,
                self.start_time == Some(start),
                self.is_controlling == old(self).is_controlling,
                self.next_check_index == old(self).next_check_index,
                self.last_check_time == old(self).last_check_time,
                s == old(self).pairs@,
                forall|k: int| 0 <= k < i ==> #[trigger] self.pairs@[k] == timed_out_failed(s, start, now)[k],
                forall|k: int| i <= k < s.len() ==> #[trigger] self.pairs@[k] == s[k],
            decreases s.len() - i,
        {
            if self.pairs[i].state == CheckState::InProgress && (self.pairs[i].transmit_count >= MAX_RETRANSMITS
                || self.pairs[i].is_timed_out_at(start, now)) {
                let mut p = self.pairs[i].duplicate();
                p.mark_failed();
                self.pairs.set(i, p);
            }
            i = i + 1;
        }
        assert(self.pairs@ =~= timed_out_failed(s, start, now));
        assert forall|k: int| 0 <= k < self.pairs@.len() implies (#[trigger] self.pairs@[k]).transmit_count
            <= MAX_RETRANSMITS by {
            assert(self.pairs@[k].transmit_count == s[k].transmit_count);
        }
        assert forall|k: int| 0 <= k < self.pairs@.len() implies (#[trigger] self.pairs@[k]).state
            == CheckState::InProgress ==> self.pairs@[k].transaction_id is Some by {
            assert(self.pairs@[k].transaction_id == s[k].transaction_id);
        }
    }

    /// The succeeded pair of highest priority (the last one on ties), if any.
    pub fn get_best_succeeded(&self) -> (r: Option<&CandidatePair>)
        ensures
            match best_succeeded(self.spec_pairs(), self.spec_pairs().len() as int) {
                Some(i) => r is Some && *r->0 == self.spec_pairs()[i],
                None => r is None,
            },
    {
        let ghost s = self.pairs@;
        let mut best: Option<usize> = None;
        let mut i: usize = 0;
        while i < self.pairs.len()
            invariant
                s == self.pairs@,
                i <= s.len(),
                match best_succeeded(s, i as int) {
                    Some(j) => best == Some(j as usize) && 0 <= j < i,
                    None => best is None,
                },
            decreases s.len() - i,
        {
            if self.pairs[i].state == CheckState::Succeeded {
                match best {
                    Some(b) => {
                        if self.pairs[i].priority >= self.pairs[b].priority {
                            best = Some(i);
                        }
                    },
                    None => {
                        best = Some(i);
                    },
                }
            }
            i = i + 1;
        }
        match best {
            Some(b) => Some(&self.pairs[b]),
            None => None,
        }
    }

    /// Whether every check has completed (succeeded or failed).
    pub fn is_complete(&self) -> (r: bool)
        ensures
            r == forall|i: int| 0 <= i < self.spec_pairs().len() ==> ((#[trigger] self.spec_pairs()[i]).state
                == CheckState::Succeeded || self.spec_pairs()[i].state == CheckState::Failed),
    {
        let mut i: usize = 0;
        while i < self.pairs.len()
            invariant
                i <= self.pairs@.len(),
                forall|k: int| 0 <= k < i ==> ((#[trigger] self.pairs@[k]).state == CheckState::Succeeded
                    || self.pairs@[k].state == CheckState::Failed),
            decreases self.pairs@.len() - i,
        {
            if self.pairs[i].state != CheckState::Succeeded && self.pairs[i].state != CheckState::Failed {
                return false;
            }
            i = i + 1;
        }
        true
    }

    /// Whether any check succeeded.
    pub fn has_succeeded(&self) -> (r: bool)
        ensures
            r == exists|i: int| 0 <= i < self.spec_pairs().len() && (#[trigger] self.spec_pairs()[i]).state
                == CheckState::Succeeded,
    {
        let mut i: usize = 0;
        while i < self.pairs.len()
            invariant
                i <= self.pairs@.len(),
                forall|k: int| 0 <= k < i ==> (#[trigger] self.pairs@[k]).state != CheckState::Succeeded,
            decreases self.pairs@.len() - i,
        {
            if self.pairs[i].state == CheckState::Succeeded {
                return true;
            }
            i = i + 1;
        }
        false
    }

    /// Whether the overall check timeout has passed now.
    pub fn is_timed_out(&self) -> (r: bool)
        ensures
            exists|now: u64| r == Self::spec_timed_out(*self, now),
    {
        self.is_timed_out_at(now_ms())
    }

    /// Whether checking started and the check timeout has passed at `now`.
    pub open spec fn spec_timed_out(l: CheckList, now: u64) -> bool {
        l.spec_start_time() matches Some(start) && elapsed(start, now) >= CHECK_TIMEOUT
    }

    /// Whether the overall check timeout has passed at `now`.
    pub fn is_timed_out_at(&self, now: u64) -> (r: bool)
        ensures
            r == Self::spec_timed_out(*self, now),
    {
        match self.start_time {
            Some(start) => elapsed_ms(start, now) >= CHECK_TIMEOUT,
            None => false,
        }
    }

    /// Number of pairs.
    pub fn pair_count(&self) -> (r: usize)
        ensures
            r == self.spec_pairs().len(),
    {
        self.pairs.len()
    }

    /// The pairs in a given state, in order.
    pub fn pairs_by_state(&self, state: CheckState) -> (r: Vec<&CandidatePair>)
        ensures
            r@.map_values(|p: &CandidatePair| *p) == pairs_in_state(self.spec_pairs(), state, self.spec_pairs().len() as int),
    {
        let mut r: Vec<&CandidatePair> = Vec::new();
        let mut i: usize = 0;
        while i < self.pairs.len()
            invariant
                i <= self.pairs@.len(),
                r@.map_values(|p: &CandidatePair| *p) == pairs_in_state(self.pairs@, state, i as int),
            decreases self.pairs@.len() - i,
        {
            if self.pairs[i].state == state {
                r.push(&self.pairs[i]);
            }
            assert(r@.map_values(|p: &CandidatePair| *p) =~= pairs_in_state(self.pairs@, state, i + 1));
            i = i + 1;
        }
        r
    }

    /// The pair at an index, if there is one.
    pub fn get_pair(&self, index: usize) -> (r: Option<&CandidatePair>)
        ensures
            index < self.spec_pairs().len() ==> r is Some && *r->0 == self.spec_pairs()[index as int],
            index >= self.spec_pairs().len() ==> r is None,
    {
        if index < self.pairs.len() {
            Some(&self.pairs[index])
        } else {
            None
        }
    }

    /// Nominates a succeeded pair; returns whether it was nominated.
    pub fn nominate(&mut self, index: usize) -> (r: bool)
        requires
            old(self).wf(),
        ensures
            final(self).wf(),
            r == (index < old(self).spec_pairs().len() && old(self).spec_pairs()[index as int].state
                == CheckState::Succeeded),
            r ==> final(self).spec_pairs() == old(self).spec_pairs().update(
                index as int,
                CandidatePair { nominated: true, ..old(self).spec_pairs()[index as int] },
            ),
            !r ==> final(self).spec_pairs() == old(self).spec_pairs(),
            final(self).spec_start_time() == old(self).spec_start_time(),
            final(self).spec_is_controlling() == old(self).spec_is_controlling(),
            final(self).spec_next_check_index() == old(self).spec_next_check_index(),
            final(self).spec_last_check_time() == old(self).spec_last_check_time(),
    {
        if index < self.pairs.len() {
            if self.pairs[index].state == CheckState::Succeeded {
                let mut p = self.pairs[index].duplicate();
                p.nominated = true;
                self.pairs.set(index, p);
                return true;
            }
        }
        false
    }
}

/// Frozen pairs of the foundation become Waiting.
pub open spec fn unfreeze_foundation(s: Seq<CandidatePair>, foundation: Seq<char>) -> Seq<CandidatePair> {
    Seq::new(
        s.len(),
        |i: int|
            if s[i].state == CheckState::Frozen && s[i].foundation@ == foundation {
                CandidatePair { state: CheckState::Waiting, ..s[i] }
            } else {
                s[i]
            },
    )
}

/// Pairs in progress that were sent the maximum number of times, or whose
/// check timeout (from `start`) passed at `now`, fail.
pub open spec fn timed_out_failed(s: Seq<CandidatePair>, start: u64, now: u64) -> Seq<CandidatePair> {
    Seq::new(
        s.len(),
        |i: int|
            if s[i].state == CheckState::InProgress && (s[i].transmit_count >= MAX_RETRANSMITS || elapsed(start, now)
                >= CHECK_TIMEOUT) {
                CandidatePair { state: CheckState::Failed, ..s[i] }
            } else {
                s[i]
            },
    )
}

proof fn lemma_in_permutation(a: Seq<CandidatePair>, b: Seq<CandidatePair>, k: int)
    requires
        b == sort_desc(a),
        0 <= k < b.len(),
    ensures
        exists|m: int| 0 <= m < a.len() && a[m] == b[k],
{
    broadcast use vstd::seq_lib::group_to_multiset_ensures;
    lemma_sort_desc_sorted_permutation(a);
    assert(b.contains(b[k]));
    assert(b.to_multiset().count(b[k]) > 0);
    assert(a.to_multiset().count(b[k]) > 0);
    assert(a.contains(b[k]));
}

} // verus!
