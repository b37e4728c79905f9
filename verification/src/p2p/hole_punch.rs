//! Hole punching coordination: gathering local candidates, exchanging them
//! through the relay server (signaling), running the connectivity checks and
//! deciding between the direct path and the relay.
//!
//! ```text
//! Idle -> Gathering -> Signaling -> Checking -> Connected
//!                                       |
//!                                    Failed -> FallbackRelay
//! ```
//!
//! Messages are handed in and out as values; their byte encoding is the
//! caller's. Times are milliseconds since the Unix epoch.
use vstd::prelude::*;
use crate::clock::{elapsed, elapsed_ms, now_ms, now_nanos};
use crate::net::SockAddr;
use crate::p2p::candidate::{
    Candidate, CandidateType, CandidateView, candidate_views, clone_candidates, gather_host_candidates,
    gather_reflexive_candidate, gather_relay_candidate, priority_formula, spec_candidate,
    spec_host_candidates, spec_local_preference, spec_type_preference,
};
use crate::p2p::connectivity::{
    BindingMessage, BindingResponse, CheckList, CheckState, best_succeeded, generate_transaction_id,
    pair_views, spec_pairs_for, unfreeze_initial,
};
use crate::p2p::signaling::SignalingMessage;
use crate::sort::sort_desc;
use crate::text::push_str;

verus! {

/// Total timeout of the hole punching process, in milliseconds.
pub const HOLE_PUNCH_TIMEOUT: u64 = 10000;

/// Timeout of the signaling exchange, in milliseconds.
pub const SIGNALING_TIMEOUT: u64 = 5000;

/// Delay before starting hole punching (coordination), in milliseconds.
pub const DEFAULT_START_DELAY_MS: u64 = 100;

/// State of the hole punching process.
#[derive(Debug, Clone, Copy, PartialEq, Eq, Structural)]
pub enum HolePunchState {
    /// Not started
    Idle,
    /// Gathering local candidates
    Gathering,
    /// Exchanging candidates via signaling
    Signaling,
    /// Waiting for the coordinated start
    WaitingToStart,
    /// Performing connectivity checks
    Checking,
    /// Direct connection established
    Connected,
    /// All checks failed
    Failed,
    /// Falling back to the relay
    FallbackRelay,
}

/// Name of a state, as it is printed.
pub open spec fn state_name(s: HolePunchState) -> Seq<char> {
    match s {
        HolePunchState::Idle => "Idle"@,
        HolePunchState::Gathering => "Gathering"@,
        HolePunchState::Signaling => "Signaling"@,
        HolePunchState::WaitingToStart => "WaitingToStart"@,
        HolePunchState::Checking => "Checking"@,
        HolePunchState::Connected => "Connected"@,
        HolePunchState::Failed => "Failed"@,
        HolePunchState::FallbackRelay => "FallbackRelay"@,
    }
}

impl HolePunchState {
    /// Name of the state.
    pub fn name(&self) -> (r: &'static str)
        ensures
            r@ == state_name(*self),
    {
        match self {
            HolePunchState::Idle => "Idle",
            HolePunchState::Gathering => "Gathering",
            HolePunchState::Signaling => "Signaling",
            HolePunchState::WaitingToStart => "WaitingToStart",
            HolePunchState::Checking => "Checking",
            HolePunchState::Connected => "Connected",
            HolePunchState::Failed => "Failed",
            HolePunchState::FallbackRelay => "FallbackRelay",
        }
    }
}

/// Result of a hole punch attempt.
#[derive(Debug, Clone)]
pub enum HolePunchResult {
    /// Direct path established
    DirectPath {
        /// Remote address for the direct connection
        remote_addr: SockAddr,
        /// Round-trip time in milliseconds, if measured
        rtt: Option<u64>,
    },
    /// The relay must be used (direct failed or was not attempted)
    UseRelay {
        /// Why the relay is used
        reason: String,
    },
}

/// Abstract state of a coordinator.
pub struct CoordinatorView {
    pub state: HolePunchState,
    pub session_id: u64,
    pub service_id: Seq<char>,
    pub is_controlling: bool,
    pub local_candidates: Seq<Candidate>,
    pub remote_candidates: Seq<Candidate>,
    pub check_list: CheckList,
    pub start_time: Option<u64>,
    /// When the start signal came and the delay it asked for
    pub check_start: Option<(u64, u64)>,
    pub intermediate_addr: Option<SockAddr>,
    pub observed_addr: Option<SockAddr>,
    pub working_addr: Option<SockAddr>,
    pub outgoing_messages: Seq<SignalingMessage>,
    pub outgoing_bindings: Seq<(SockAddr, BindingMessage)>,
}

/// Coordinator for the hole punching process.
#[derive(Debug)]
pub struct HolePunchCoordinator {
    state: HolePunchState,
    session_id: u64,
    service_id: String,
    is_controlling: bool,
    local_candidates: Vec<Candidate>,
    remote_candidates: Vec<Candidate>,
    check_list: CheckList,
    start_time: Option<u64>,
    check_start: Option<(u64, u64)>,
    intermediate_addr: Option<SockAddr>,
    observed_addr: Option<SockAddr>,
    working_addr: Option<SockAddr>,
    outgoing_messages: Vec<SignalingMessage>,
    outgoing_bindings: Vec<(SockAddr, BindingMessage)>,
}

impl View for HolePunchCoordinator {
    type V = CoordinatorView;

    closed spec fn view(&self) -> CoordinatorView {
        CoordinatorView {
            state: self.state,
            session_id: self.session_id,
            service_id: self.service_id@,
            is_controlling: self.is_controlling,
            local_candidates: self.local_candidates@,
            remote_candidates: self.remote_candidates@,
            check_list: self.check_list,
            start_time: self.start_time,
            check_start: self.check_start,
            intermediate_addr: self.intermediate_addr,
            observed_addr: self.observed_addr,
            working_addr: self.working_addr,
            outgoing_messages: self.outgoing_messages@,
            outgoing_bindings: self.outgoing_bindings@,
        }
    }
}

/// No local candidate has the largest priority (gathered candidates stay
/// below 2^31), so every pair priority fits in 64 bits.
pub open spec fn local_priorities_ok(s: Seq<Candidate>) -> bool {
    forall|i: int| 0 <= i < s.len() ==> (#[trigger] s[i]).priority < u32::MAX
}

/// Local candidates gathered from local addresses: a host candidate for each
/// non-loopback address, then a server reflexive candidate for the observed
/// address (unless it has the first address's IP), then a relay candidate
/// for the relay server; both based on the first address, if there is one.
pub open spec fn spec_gathered(
    addrs: Seq<SockAddr>,
    observed: Option<SockAddr>,
    intermediate: Option<SockAddr>,
) -> Seq<CandidateView> {
    let hosts = spec_host_candidates(addrs, false);
    let with_srflx = if observed is Some && addrs.len() > 0 && observed->0.ip != addrs[0].ip {
        hosts.push(spec_candidate(CandidateType::ServerReflexive, observed->0, Some(addrs[0])))
    } else {
        hosts
    };
    if intermediate is Some && addrs.len() > 0 {
        with_srflx.push(spec_candidate(CandidateType::Relay, intermediate->0, Some(addrs[0])))
    } else {
        with_srflx
    }
}

/// Whether every check completed (succeeded or failed).
pub open spec fn checks_complete(s: Seq<crate::p2p::connectivity::CandidatePair>) -> bool {
    forall|i: int| 0 <= i < s.len() ==> ((#[trigger] s[i]).state == CheckState::Succeeded || s[i].state
        == CheckState::Failed)
}

/// Whether any check succeeded.
pub open spec fn checks_succeeded(s: Seq<crate::p2p::connectivity::CandidatePair>) -> bool {
    exists|i: int| 0 <= i < s.len() && (#[trigger] s[i]).state == CheckState::Succeeded
}

/// The state and working address after looking at the check list at `now`
/// while checking: failed when the checks timed out with no success;
/// when every check completed, connected to the best succeeded pair's remote
/// address if one succeeded, else failed; otherwise unchanged.
pub open spec fn spec_after_checks(
    cl: CheckList,
    now: u64,
    state: HolePunchState,
    working: Option<SockAddr>,
) -> (HolePunchState, Option<SockAddr>) {
    let s = cl.spec_pairs();
    if CheckList::spec_timed_out(cl, now) && !checks_succeeded(s) {
        (HolePunchState::Failed, working)
    } else if checks_complete(s) {
        if checks_succeeded(s) {
            match best_succeeded(s, s.len() as int) {
                Some(i) => (HolePunchState::Connected, Some(s[i].remote.address)),
                None => (state, working),
            }
        } else {
            (HolePunchState::Failed, working)
        }
    } else {
        (state, working)
    }
}

proof fn lemma_candidate_priority(t: CandidateType, addr: SockAddr, rel: Option<SockAddr>)
    ensures
        spec_candidate(t, addr, rel).priority < u32::MAX,
{
    let f = priority_formula(spec_type_preference(t), spec_local_preference(addr), 1);
    assert(0 <= f < 2147483648);
}

proof fn lemma_host_priorities(addrs: Seq<SockAddr>, include_loopback: bool)
    ensures
        forall|i: int| 0 <= i < spec_host_candidates(addrs, include_loopback).len()
            ==> (#[trigger] spec_host_candidates(addrs, include_loopback)[i]).priority < u32::MAX,
    decreases addrs.len(),
{
    if addrs.len() > 0 {
        lemma_host_priorities(addrs.drop_last(), include_loopback);
        lemma_candidate_priority(CandidateType::Host, addrs.last(), None);
    }
}

proof fn lemma_gathered_priorities(
    addrs: Seq<SockAddr>,
    observed: Option<SockAddr>,
    intermediate: Option<SockAddr>,
)
    ensures
        forall|i: int| 0 <= i < spec_gathered(addrs, observed, intermediate).len()
            ==> (#[trigger] spec_gathered(addrs, observed, intermediate)[i]).priority < u32::MAX,
{
    lemma_host_priorities(addrs, false);
    if addrs.len() > 0 {
        if observed is Some {
            lemma_candidate_priority(CandidateType::ServerReflexive, observed->0, Some(addrs[0]));
        }
        if intermediate is Some {
            lemma_candidate_priority(CandidateType::Relay, intermediate->0, Some(addrs[0]));
        }
    }
}

/// The message that answers with the local candidates.
pub open spec fn is_answer(m: SignalingMessage, session_id: u64, local: Seq<Candidate>) -> bool {
    m matches SignalingMessage::CandidateAnswer { session_id: s, candidates: c } && s == session_id && c@ == local
}

/// The coordinator after a message of its own session (see
/// `process_signaling_at`); the error cases are apart.
pub open spec fn spec_signaled(pre: CoordinatorView, post: CoordinatorView, msg: SignalingMessage, now: u64) -> bool {
    match msg {
        SignalingMessage::CandidateOffer { candidates, .. } => {
            &&& post == CoordinatorView {
                remote_candidates: candidates@,
                outgoing_messages: post.outgoing_messages,
                ..pre
            }
            &&& if pre.is_controlling {
                post.outgoing_messages == pre.outgoing_messages
            } else {
                &&& post.outgoing_messages.len() == pre.outgoing_messages.len() + 1
                &&& post.outgoing_messages.drop_last() == pre.outgoing_messages
                &&& is_answer(post.outgoing_messages.last(), pre.session_id, pre.local_candidates)
            }
        },
        SignalingMessage::CandidateAnswer { candidates, .. } => post == CoordinatorView {
            remote_candidates: candidates@,
            ..pre
        },
        SignalingMessage::StartPunching { start_delay_ms, peer_candidates, .. } => post == CoordinatorView {
            remote_candidates: if peer_candidates@.len() > 0 {
                peer_candidates@
            } else {
                pre.remote_candidates
            },
            check_start: Some((now, start_delay_ms)),
            state: HolePunchState::WaitingToStart,
            ..pre
        },
        SignalingMessage::PunchingResult { success, working_address, .. } => post == if success {
            CoordinatorView { working_addr: working_address, state: HolePunchState::Connected, ..pre }
        } else {
            CoordinatorView { state: HolePunchState::FallbackRelay, ..pre }
        },
        SignalingMessage::Error { .. } => post == pre,
    }
}

/// Whether a message is for another session than `session_id` (and is no
/// error message, which is not matched that way).
pub open spec fn foreign_session(msg: SignalingMessage, session_id: u64) -> bool {
    !(msg is Error) && crate::p2p::signaling::spec_message_session_id(msg) != Some(session_id)
}

impl HolePunchCoordinator {
    /// The invariant: the check list is well formed and no local candidate
    /// has the largest priority.
    pub open spec fn wf(&self) -> bool {
        &&& self@.check_list.wf()
        &&& local_priorities_ok(self@.local_candidates)
    }

    /// A coordinator in the Idle state with nothing gathered.
    pub fn new(session_id: u64, service_id: String, is_controlling: bool) -> (c: HolePunchCoordinator)
        ensures
            c.wf(),
            c@.state == HolePunchState::Idle,
            c@.session_id == session_id,
            c@.service_id == service_id@,
            c@.is_controlling == is_controlling,
            c@.local_candidates.len() == 0,
            c@.remote_candidates.len() == 0,
            c@.check_list.spec_pairs().len() == 0,
            c@.check_list.spec_start_time() is None,
            c@.check_list.spec_is_controlling() == is_controlling,
            c@.start_time is None,
            c@.check_start is None,
            c@.intermediate_addr is None,
            c@.observed_addr is None,
            c@.working_addr is None,
            c@.outgoing_messages.len() == 0,
            c@.outgoing_bindings.len() == 0,
    {
        HolePunchCoordinator {
            state: HolePunchState::Idle,
            session_id,
            service_id,
            is_controlling,
            local_candidates: Vec::new(),
            remote_candidates: Vec::new(),
            check_list: CheckList::new(is_controlling),
            start_time: None,
            check_start: None,
            intermediate_addr: None,
            observed_addr: None,
            working_addr: None,
            outgoing_messages: Vec::new(),
            outgoing_bindings: Vec::new(),
        }
    }

    /// The current state.
    pub fn state(&self) -> (r: HolePunchState)
        ensures
            r == self@.state,
    {
        self.state
    }

    /// The session id.
    pub fn session_id(&self) -> (r: u64)
        ensures
            r == self@.session_id,
    {
        self.session_id
    }

    /// The working address, if hole punching succeeded.
    pub fn working_address(&self) -> (r: Option<SockAddr>)
        ensures
            r == self@.working_addr,
    {
        self.working_addr
    }

    /// Sets the relay server address (for the relay candidate).
    pub fn set_intermediate_addr(&mut self, addr: SockAddr)
        ensures
            final(self)@ == (CoordinatorView { intermediate_addr: Some(addr), ..old(self)@ }),
    {
        self.intermediate_addr = Some(addr);
    }

    /// Sets the address observed by the relay server.
    pub fn set_observed_addr(&mut self, addr: SockAddr)
        ensures
            final(self)@ == (CoordinatorView { observed_addr: Some(addr), ..old(self)@ }),
    {
        self.observed_addr = Some(addr);
    }

    /// Gathers the local candidates now and moves to Signaling.
    pub fn start_gathering(&mut self, local_addresses: &[SockAddr])
        requires
            old(self).wf(),
        ensures
            final(self).wf(),
            exists|now: u64| Self::spec_gathering(old(self)@, final(self)@, local_addresses@, now),
    {
        self.start_gathering_at(local_addresses, now_ms())
    }

    /// What `start_gathering_at` does: the process starts at `now`, the local
    /// candidates are those gathered (see `spec_gathered`), and the state is
    /// Signaling.
    pub open spec fn spec_gathering(
        pre: CoordinatorView,
        post: CoordinatorView,
        addrs: Seq<SockAddr>,
        now: u64,
    ) -> bool {
        &&& candidate_views(post.local_candidates) == spec_gathered(addrs, pre.observed_addr, pre.intermediate_addr)
        &&& post == CoordinatorView {
            state: HolePunchState::Signaling,
            start_time: Some(now),
            local_candidates: post.local_candidates,
            ..pre
        }
    }

    /// Gathers the local candidates at `now` and moves to Signaling.
    pub fn start_gathering_at(&mut self, local_addresses: &[SockAddr], now: u64)
        requires
            old(self).wf(),
        ensures
            final(self).wf(),
            Self::spec_gathering(old(self)@, final(self)@, local_addresses@, now),
    {
        self.state = HolePunchState::Gathering;
        self.start_time = Some(now);
        let mut local = gather_host_candidates(local_addresses, false);
        let ghost addrs = local_addresses@;
        if let Some(observed) = self.observed_addr {
            if local_addresses.len() > 0 {
                let base = local_addresses[0];
                if let Some(srflx) = gather_reflexive_candidate(observed, base) {
                    local.push(srflx);
                }
            }
        }
        if let Some(intermediate) = self.intermediate_addr {
            if local_addresses.len() > 0 {
                let base = local_addresses[0];
                let relay = gather_relay_candidate(intermediate, base);
                local.push(relay);
            }
        }
        proof {
            assert(candidate_views(local@) =~= spec_gathered(addrs, self.observed_addr, self.intermediate_addr));
            lemma_gathered_priorities(addrs, self.observed_addr, self.intermediate_addr);
            assert forall|i: int| 0 <= i < local@.len() implies (#[trigger] local@[i]).priority < u32::MAX by {
                assert(candidate_views(local@)[i].priority == local@[i].priority);
            }
        }
        self.local_candidates = local;
        self.state = HolePunchState::Signaling;
    }

    /// The candidate offer to send to the relay server, while signaling.
    pub fn get_candidate_offer(&self) -> (r: Option<SignalingMessage>)
        ensures
            self@.state != HolePunchState::Signaling ==> r is None,
            self@.state == HolePunchState::Signaling ==> (r matches Some(
                SignalingMessage::CandidateOffer { session_id, service_id, candidates },
            ) && session_id == self@.session_id && service_id@ == self@.service_id && candidates@
                == self@.local_candidates),
    {
        if self.state != HolePunchState::Signaling {
            return None;
        }
        Some(
            SignalingMessage::CandidateOffer {
                session_id: self.session_id,
                service_id: self.service_id.clone(),
                candidates: clone_candidates(&self.local_candidates),
            },
        )
    }

    /// Handles a signaling message now (see `process_signaling_at`).
    pub fn process_signaling(&mut self, msg: SignalingMessage) -> (r: Result<(), String>)
        requires
            old(self).wf(),
        ensures
            final(self).wf(),
            exists|now: u64| Self::spec_process_signaling(old(self)@, final(self)@, msg, now, r),
    {
        self.process_signaling_at(msg, now_ms())
    }

    /// What `process_signaling_at` does. A message for another session is
    /// refused with "Session ID mismatch"; an error message for this session
    /// is refused with "Signaling error: " and its text, one for another
    /// session is ignored. Otherwise see `spec_signaled`.
    pub open spec fn spec_process_signaling(
        pre: CoordinatorView,
        post: CoordinatorView,
        msg: SignalingMessage,
        now: u64,
        r: Result<(), String>,
    ) -> bool {
        if foreign_session(msg, pre.session_id) {
            post == pre && (r matches Err(e) && e@ == "Session ID mismatch"@)
        } else {
            match msg {
                SignalingMessage::Error { session_id, message, .. } => post == pre && if session_id == Some(
                    pre.session_id,
                ) {
                    r matches Err(e) && e@ == "Signaling error: "@ + message@
                } else {
                    r is Ok
                },
                _ => r is Ok && spec_signaled(pre, post, msg, now),
            }
        }
    }

    /// A punching result of the coordinator's own session is accepted: on
    /// success the coordinator is connected through the reported working
    /// address, otherwise it falls back to the relay with its working
    /// address unchanged; its session, candidates and checks stay as they
    /// were.
    pub proof fn lemma_punching_result_settles(
        pre: CoordinatorView,
        post: CoordinatorView,
        msg: SignalingMessage,
        now: u64,
        r: Result<(), String>,
    )
        requires
            Self::spec_process_signaling(pre, post, msg, now, r),
            msg is PunchingResult,
            crate::p2p::signaling::spec_message_session_id(msg) == Some(pre.session_id),
        ensures
            r is Ok,
            match msg {
                SignalingMessage::PunchingResult { success, working_address, .. } => if success {
                    post.state == HolePunchState::Connected && post.working_addr == working_address
                } else {
                    post.state == HolePunchState::FallbackRelay && post.working_addr == pre.working_addr
                },
                _ => true,
            },
            post.session_id == pre.session_id,
            post.local_candidates == pre.local_candidates,
            post.remote_candidates == pre.remote_candidates,
            post.check_list == pre.check_list,
            post.outgoing_messages == pre.outgoing_messages,
    {
    }

    /// Handles a signaling message received at `now`: candidates of the
    /// peer are stored (the controlled side answers an offer with its own
    /// candidates), a start signal schedules the checks, a punching result
    /// ends the process.
    pub fn process_signaling_at(&mut self, msg: SignalingMessage, now: u64) -> (r: Result<(), String>)
        requires
            old(self).wf(),
        ensures
            final(self).wf(),
            Self::spec_process_signaling(old(self)@, final(self)@, msg, now, r),
    {
        let mismatch = match &msg {
            SignalingMessage::CandidateOffer { session_id, .. } => *session_id != self.session_id,
            SignalingMessage::CandidateAnswer { session_id, .. } => *session_id != self.session_id,
            SignalingMessage::StartPunching { session_id, .. } => *session_id != self.session_id,
            SignalingMessage::PunchingResult { session_id, .. } => *session_id != self.session_id,
            SignalingMessage::Error { .. } => false,
        };
        if mismatch {
            return Err(String::from_str("Session ID mismatch"));
        }
        match msg {
            SignalingMessage::CandidateOffer { candidates, .. } => {
                self.remote_candidates = candidates;
                if !self.is_controlling {
                    let answer = SignalingMessage::CandidateAnswer {
                        session_id: self.session_id,
                        candidates: clone_candidates(&self.local_candidates),
                    };
                    self.outgoing_messages.push(answer);
                    assert(self.outgoing_messages@.drop_last() =~= old(self).outgoing_messages@);
                }
            },
            SignalingMessage::CandidateAnswer { candidates, .. } => {
                self.remote_candidates = candidates;
            },
            SignalingMessage::StartPunching { start_delay_ms, peer_candidates, .. } => {
                if peer_candidates.len() > 0 {
                    self.remote_candidates = peer_candidates;
                }
                self.check_start = Some((now, start_delay_ms));
                self.state = HolePunchState::WaitingToStart;
            },
            SignalingMessage::PunchingResult { success, working_address, .. } => {
                if success {
                    self.working_addr = working_address;
                    self.state = HolePunchState::Connected;
                } else {
                    self.state = HolePunchState::FallbackRelay;
                }
            },
            SignalingMessage::Error { session_id, message, .. } => {
                if session_id == Some(self.session_id) {
                    let mut e = String::from_str("Signaling error: ");
                    push_str(&mut e, message.as_str());
                    return Err(e);
                }
            },
        }
        Ok(())
    }

    /// Whether the connectivity checks should start now.
    pub fn should_start_checking(&self) -> (r: bool)
        ensures
            exists|now: u64| r == Self::spec_should_start(self@, now),
    {
        self.should_start_checking_at(now_ms())
    }

    /// When waiting for the start signal's time, whether the delay has
    /// passed at `now`; while signaling, whether there are local and remote
    /// candidates; otherwise false.
    pub open spec fn spec_should_start(c: CoordinatorView, now: u64) -> bool {
        match c.state {
            HolePunchState::WaitingToStart => c.check_start matches Some((at, delay)) && elapsed(at, now) >= delay,
            HolePunchState::Signaling => c.remote_candidates.len() > 0 && c.local_candidates.len() > 0,
            _ => false,
        }
    }

    /// Whether the connectivity checks should start at `now`.
    pub fn should_start_checking_at(&self, now: u64) -> (r: bool)
        ensures
            r == Self::spec_should_start(self@, now),
    {
        match self.state {
            HolePunchState::WaitingToStart => match self.check_start {
                Some((at, delay)) => elapsed_ms(at, now) >= delay,
                None => false,
            },
            HolePunchState::Signaling => self.remote_candidates.len() > 0 && self.local_candidates.len() > 0,
            _ => false,
        }
    }

    /// Starts the connectivity checks now.
    pub fn start_checking(&mut self)
        requires
            old(self).wf(),
        ensures
            final(self).wf(),
            exists|now: u64| Self::spec_start_checking(old(self)@, final(self)@, now),
    {
        self.start_checking_at(now_ms())
    }

    /// What `start_checking_at` does: with no local or no remote candidate the
    /// process fails; otherwise a new check list pairs them (see
    /// `CheckList::add_pairs`), checking starts at `now` and the state is
    /// Checking.
    pub open spec fn spec_start_checking(pre: CoordinatorView, post: CoordinatorView, now: u64) -> bool {
        if pre.local_candidates.len() == 0 || pre.remote_candidates.len() == 0 {
            post == CoordinatorView { state: HolePunchState::Failed, ..pre }
        } else {
            let cl = post.check_list;
            &&& post == CoordinatorView { state: HolePunchState::Checking, check_list: cl, ..pre }
            &&& pair_views(cl.spec_pairs()) == unfreeze_initial(
                sort_desc(
                    spec_pairs_for(
                        candidate_views(pre.local_candidates),
                        candidate_views(pre.remote_candidates),
                        pre.is_controlling,
                    ),
                ),
            )
            &&& cl.spec_start_time() == Some(now)
            &&& cl.spec_is_controlling() == pre.is_controlling
            &&& cl.spec_next_check_index() == 0
            &&& cl.spec_last_check_time() is None
        }
    }

    /// Starts the connectivity checks at `now`.
    pub fn start_checking_at(&mut self, now: u64)
        requires
            old(self).wf(),
        ensures
            final(self).wf(),
            Self::spec_start_checking(old(self)@, final(self)@, now),
    {
        if self.local_candidates.len() == 0 || self.remote_candidates.len() == 0 {
            self.state = HolePunchState::Failed;
            return;
        }
        let mut cl = CheckList::new(self.is_controlling);
        assert(pair_views(cl.spec_pairs()) =~= Seq::<crate::p2p::connectivity::PairView>::empty());
        cl.add_pairs(self.local_candidates.as_slice(), self.remote_candidates.as_slice());
        assert(Seq::<crate::p2p::connectivity::PairView>::empty() + spec_pairs_for(
            candidate_views(self.local_candidates@),
            candidate_views(self.remote_candidates@),
            self.is_controlling,
        ) =~= spec_pairs_for(
            candidate_views(self.local_candidates@),
            candidate_views(self.remote_candidates@),
            self.is_controlling,
        ));
        cl.start_at(now);
        self.check_list = cl;
        self.state = HolePunchState::Checking;
    }

    /// The next binding request to send now, with a transaction id made from
    /// the clock and `process_id` (see `poll_binding_request_at`).
    pub fn poll_binding_request(&mut self, process_id: u32) -> (r: Option<(SockAddr, BindingMessage)>)
        requires
            old(self).wf(),
        ensures
            final(self).wf(),
            exists|now: u64, id: [u8; 12]| Self::spec_poll_binding(old(self)@, final(self)@, now, id, r),
    {
        let id = generate_transaction_id(now_nanos(), process_id);
        self.poll_binding_request_at(now_ms(), id)
    }

    /// What `poll_binding_request_at` does: nothing unless checking; a queued
    /// binding message first (the last one queued); otherwise the check
    /// list's next request (see `CheckList::next_request_at`), with its
    /// remote address.
    pub open spec fn spec_poll_binding(
        pre: CoordinatorView,
        post: CoordinatorView,
        now: u64,
        id: [u8; 12],
        r: Option<(SockAddr, BindingMessage)>,
    ) -> bool {
        if pre.state != HolePunchState::Checking {
            r is None && post == pre
        } else if pre.outgoing_bindings.len() > 0 {
            r == Some(pre.outgoing_bindings.last()) && post == CoordinatorView {
                outgoing_bindings: pre.outgoing_bindings.drop_last(),
                ..pre
            }
        } else {
            exists|n: Option<(usize, crate::p2p::connectivity::BindingRequest, SockAddr)>|
                #[trigger] CheckList::spec_next_request(pre.check_list, post.check_list, now, id, n) && post
                    == CoordinatorView { check_list: post.check_list, ..pre } && match n {
                    Some((_, req, addr)) => r == Some((addr, BindingMessage::Request(req))),
                    None => r is None,
                }
        }
    }

    /// The next binding request to send at `now`, with transaction id `id` for
    /// a check that starts.
    pub fn poll_binding_request_at(&mut self, now: u64, id: [u8; 12]) -> (r: Option<(SockAddr, BindingMessage)>)
        requires
            old(self).wf(),
        ensures
            final(self).wf(),
            Self::spec_poll_binding(old(self)@, final(self)@, now, id, r),
    {
        if self.state != HolePunchState::Checking {
            return None;
        }
        if self.outgoing_bindings.len() > 0 {
            let b = self.outgoing_bindings.pop();
            assert(self.outgoing_bindings@ =~= old(self).outgoing_bindings@.drop_last());
            return b;
        }
        let n = self.check_list.next_request_at(now, id);
        match n {
            Some((_idx, request, addr)) => Some((addr, BindingMessage::Request(request))),
            None => None,
        }
    }

    /// Handles a binding message from `from`: a request is answered with a
    /// success response that reports `from`; a response goes to the check
    /// list, and once it matched a pair, the best succeeded pair (if any)
    /// gives the working address and the state becomes Connected.
    pub fn process_binding(&mut self, from: SockAddr, msg: BindingMessage) -> (r: Option<BindingMessage>)
        requires
            old(self).wf(),
        ensures
            final(self).wf(),
            match msg {
                BindingMessage::Request(req) => final(self)@ == old(self)@ && r == Some(
                    BindingMessage::Response(
                        BindingResponse {
                            transaction_id: req.transaction_id,
                            success: true,
                            mapped_address: Some(from),
                        },
                    ),
                ),
                BindingMessage::Response(resp) => r is None && exists|m: Option<usize>|
                    #[trigger] CheckList::spec_handle_response(old(self)@.check_list, final(self)@.check_list, resp, m)
                        && {
                        let s = final(self)@.check_list.spec_pairs();
                        if m is Some && best_succeeded(s, s.len() as int) is Some {
                            final(self)@ == CoordinatorView {
                                check_list: final(self)@.check_list,
                                working_addr: Some(s[best_succeeded(s, s.len() as int)->0].remote.address),
                                state: HolePunchState::Connected,
                                ..old(self)@
                            }
                        } else {
                            final(self)@ == CoordinatorView { check_list: final(self)@.check_list, ..old(self)@ }
                        }
                    },
            },
    {
        match msg {
            BindingMessage::Request(request) => {
                let response = BindingResponse::success(request.transaction_id, from);
                Some(BindingMessage::Response(response))
            },
            BindingMessage::Response(response) => {
                let m = self.check_list.handle_response(&response);
                if m.is_some() {
                    let best = self.check_list.get_best_succeeded();
                    match best {
                        Some(pair) => {
                            let addr = pair.remote.address;
                            self.working_addr = Some(addr);
                            self.state = HolePunchState::Connected;
                        },
                        None => {},
                    }
                }
                None
            },
        }
    }

    /// Handles timeouts now (see `on_timeout_at`).
    pub fn on_timeout(&mut self)
        requires
            old(self).wf(),
        ensures
            final(self).wf(),
            exists|now: u64| Self::spec_on_timeout(old(self)@, final(self)@, now),
    {
        self.on_timeout_at(now_ms())
    }

    /// What `on_timeout_at` does: while checking, the check list handles its
    /// timeouts and is looked at (see `spec_after_checks`); then, once the
    /// whole process has run for the hole punch timeout, any state but
    /// Connected becomes Failed.
    pub open spec fn spec_on_timeout(pre: CoordinatorView, post: CoordinatorView, now: u64) -> bool {
        let checking = pre.state == HolePunchState::Checking;
        let cl = post.check_list;
        let (s1, w1) = if checking {
            spec_after_checks(cl, now, pre.state, pre.working_addr)
        } else {
            (pre.state, pre.working_addr)
        };
        let expired = pre.start_time matches Some(start) && elapsed(start, now) >= HOLE_PUNCH_TIMEOUT;
        &&& if checking {
            CheckList::spec_handle_timeouts(pre.check_list, cl, now)
        } else {
            cl == pre.check_list
        }
        &&& post == CoordinatorView {
            check_list: cl,
            state: if expired && s1 != HolePunchState::Connected {
                HolePunchState::Failed
            } else {
                s1
            },
            working_addr: w1,
            ..pre
        }
    }

    /// Handles timeouts at `now`.
    pub fn on_timeout_at(&mut self, now: u64)
        requires
            old(self).wf(),
        ensures
            final(self).wf(),
            Self::spec_on_timeout(old(self)@, final(self)@, now),
    {
        if self.state == HolePunchState::Checking {
            self.check_list.handle_timeouts_at(now);
            let succeeded = self.check_list.has_succeeded();
            if self.check_list.is_timed_out_at(now) && !succeeded {
                self.state = HolePunchState::Failed;
            } else if self.check_list.is_complete() {
                if succeeded {
                    match self.check_list.get_best_succeeded() {
                        Some(pair) => {
                            let addr = pair.remote.address;
                            self.working_addr = Some(addr);
                            self.state = HolePunchState::Connected;
                        },
                        None => {},
                    }
                } else {
                    self.state = HolePunchState::Failed;
                }
            }
        }
        if let Some(start) = self.start_time {
            if elapsed_ms(start, now) >= HOLE_PUNCH_TIMEOUT {
                if self.state != HolePunchState::Connected {
                    self.state = HolePunchState::Failed;
                }
            }
        }
    }

    /// The next outgoing signaling message (the last one queued).
    pub fn poll_signaling_message(&mut self) -> (r: Option<SignalingMessage>)
        requires
            old(self).wf(),
        ensures
            final(self).wf(),
            old(self)@.outgoing_messages.len() == 0 ==> r is None && final(self)@ == old(self)@,
            old(self)@.outgoing_messages.len() > 0 ==> r == Some(old(self)@.outgoing_messages.last())
                && final(self)@ == (CoordinatorView {
                outgoing_messages: old(self)@.outgoing_messages.drop_last(),
                ..old(self)@
            }),
    {
        let r = self.outgoing_messages.pop();
        assert(old(self)@.outgoing_messages.len() > 0 ==> self.outgoing_messages@
            =~= old(self)@.outgoing_messages.drop_last());
        r
    }

    /// The result of hole punching: the direct path when connected with a
    /// working address, otherwise the relay with the reason.
    pub fn result(&self) -> (r: HolePunchResult)
        ensures
            match self@.state {
                HolePunchState::Connected => match self@.working_addr {
                    Some(addr) => r == (HolePunchResult::DirectPath { remote_addr: addr, rtt: None }),
                    None => r matches HolePunchResult::UseRelay { reason } && reason@
                        == "Connected but no working address"@,
                },
                HolePunchState::Failed | HolePunchState::FallbackRelay => r matches HolePunchResult::UseRelay {
                    reason,
                } && reason@ == "All connectivity checks failed"@,
                _ => r matches HolePunchResult::UseRelay { reason } && reason@ == "Hole punch not complete: "@
                    + state_name(self@.state),
            },
    {
        match self.state {
            HolePunchState::Connected => match self.working_addr {
                Some(addr) => HolePunchResult::DirectPath { remote_addr: addr, rtt: None },
                None => HolePunchResult::UseRelay { reason: String::from_str("Connected but no working address") },
            },
            HolePunchState::Failed | HolePunchState::FallbackRelay => HolePunchResult::UseRelay {
                reason: String::from_str("All connectivity checks failed"),
            },
            _ => {
                let mut reason = String::from_str("Hole punch not complete: ");
                push_str(&mut reason, self.state.name());
                HolePunchResult::UseRelay { reason }
            },
        }
    }

    /// The local candidates.
    pub fn local_candidates(&self) -> (r: &[Candidate])
        ensures
            r@ == self@.local_candidates,
    {
        self.local_candidates.as_slice()
    }

    /// The remote candidates.
    pub fn remote_candidates(&self) -> (r: &[Candidate])
        ensures
            r@ == self@.remote_candidates,
    {
        self.remote_candidates.as_slice()
    }

    /// The check list.
    pub fn check_list(&self) -> (r: &CheckList)
        ensures
            *r == self@.check_list,
    {
        &self.check_list
    }
}

/// Path selection decision.
#[derive(Debug, Clone, Copy, PartialEq, Eq, Structural)]
pub enum PathSelection {
    /// Use the direct P2P path
    Direct,
    /// Use the relay
    Relay,
}

/// Chooses the path for traffic (round trips in milliseconds): the relay
/// without a direct round trip or when the direct path is not reliable
/// (its success rate under 80%, which the caller measures), the direct path
/// when it takes at most 70% of the relay's round trip, else the relay.
pub fn select_path(direct_rtt: Option<u64>, relay_rtt: u64, direct_reliable: bool) -> (r: PathSelection)
    ensures
        r == match direct_rtt {
            None => PathSelection::Relay,
            Some(d) => if !direct_reliable {
                PathSelection::Relay
            } else if 100 * d <= 70 * relay_rtt {
                PathSelection::Direct
            } else {
                PathSelection::Relay
            },
        },
{
    let d = match direct_rtt {
        Some(d) => d,
        None => {
            return PathSelection::Relay;
        },
    };
    if !direct_reliable {
        return PathSelection::Relay;
    }
    if (d as u128) * 100 <= (relay_rtt as u128) * 70 {
        PathSelection::Direct
    } else {
        PathSelection::Relay
    }
}

/// Whether to switch from the relay to the direct path: the direct round
/// trip is less than half the relay's (times in milliseconds).
pub fn should_switch_to_direct(direct_rtt: u64, relay_rtt: u64) -> (r: bool)
    ensures
        r == (2 * direct_rtt < relay_rtt),
{
    direct_rtt < relay_rtt && direct_rtt < relay_rtt - direct_rtt
}

/// Whether to switch from the direct path to the relay: after three or more
/// consecutive failures, or when the relay's round trip is less than half
/// the direct one's (times in milliseconds).
pub fn should_switch_to_relay(direct_rtt: u64, relay_rtt: u64, consecutive_failures: u32) -> (r: bool)
    ensures
        r == (consecutive_failures >= 3 || 2 * relay_rtt < direct_rtt),
{
    if consecutive_failures >= 3 {
        return true;
    }
    relay_rtt < direct_rtt && relay_rtt < direct_rtt - relay_rtt
}

/// The two switching rules never both fire while the direct path has had
/// fewer than three consecutive failures: a path that one rule switches to
/// is never switched away from by the other on the same measurements.
pub proof fn lemma_switching_is_stable(direct_rtt: u64, relay_rtt: u64, consecutive_failures: u32)
    requires
        consecutive_failures < 3,
    ensures
        !((2 * direct_rtt < relay_rtt) && (consecutive_failures >= 3 || 2 * relay_rtt < direct_rtt)),
{
}

} // verus!
