//! P2P signaling on the Connector side: its candidates, the sessions it
//! keeps while an Agent punches a hole to it, and its answers to the relay
//! server's signaling messages. Times are milliseconds since the Unix epoch.
use vstd::prelude::*;
use crate::clock::{elapsed, elapsed_ms, now_ms};
use crate::net::{IpAddr, SockAddr, push_ip_text};
use crate::p2p::candidate::{Candidate, CandidateType, candidate_views, clone_candidates, spec_foundation, type_label};
use crate::text::{push_char, push_str};
use crate::vecmap::{VecMap, entries_map, lemma_entries_map_at};

pub use crate::p2p::signaling::{DecodeError, HEADER_LEN, MAX_MESSAGE_SIZE, SignalingError, SignalingMessage, decode_message, encode_message};

verus! {

/// How long a session may wait for the start signal, in milliseconds.
pub const SIGNALING_TIMEOUT: u64 = 5000;

/// Priority of a Connector candidate: the type preference shifted by 24
/// bits, local preference 1 and component 0 (RFC 5245 formula).
pub open spec fn connector_priority(t: CandidateType) -> u32 {
    (crate::p2p::candidate::spec_type_preference(t) as int * 16777216 + 256) as u32
}

/// A candidate the Connector makes.
pub open spec fn connector_candidate(t: CandidateType, addr: SockAddr, related: Option<SockAddr>) -> crate::p2p::candidate::CandidateView {
    crate::p2p::candidate::CandidateView {
        candidate_type: t,
        address: addr,
        priority: connector_priority(t),
        foundation: spec_foundation(t, addr),
        related_address: related,
    }
}

fn make_candidate(t: CandidateType, address: SockAddr, related: Option<SockAddr>) -> (c: Candidate)
    ensures
        c@ == connector_candidate(t, address, related),
{
    let priority = t.type_preference() * 16777216 + 256;
    let mut foundation = String::new();
    push_str(&mut foundation, t.label());
    push_char(&mut foundation, '_');
    push_ip_text(&mut foundation, address.ip);
    assert(foundation@ =~= spec_foundation(t, address));
    Candidate { candidate_type: t, address, priority, foundation, related_address: related }
}

/// A host candidate of the Connector.
pub fn host_candidate(address: SockAddr) -> (c: Candidate)
    ensures
        c@ == connector_candidate(CandidateType::Host, address, None),
{
    make_candidate(CandidateType::Host, address, None)
}

/// A server reflexive candidate of the Connector.
pub fn server_reflexive_candidate(address: SockAddr, base: SockAddr) -> (c: Candidate)
    ensures
        c@ == connector_candidate(CandidateType::ServerReflexive, address, Some(base)),
{
    make_candidate(CandidateType::ServerReflexive, address, Some(base))
}

/// A relay candidate of the Connector.
pub fn relay_candidate(address: SockAddr, base: SockAddr) -> (c: Candidate)
    ensures
        c@ == connector_candidate(CandidateType::Relay, address, Some(base)),
{
    make_candidate(CandidateType::Relay, address, Some(base))
}

/// The Connector's candidates: the host candidate of its bound address,
/// a server reflexive one when the observed address differs from it, and a
/// relay one for the relay server.
pub open spec fn spec_gathered(bind: SockAddr, observed: Option<SockAddr>, intermediate: Option<SockAddr>) -> Seq<crate::p2p::candidate::CandidateView> {
    let hosts = seq![connector_candidate(CandidateType::Host, bind, None)];
    let with_srflx = match observed {
        Some(o) => if o != bind {
            hosts.push(connector_candidate(CandidateType::ServerReflexive, o, Some(bind)))
        } else {
            hosts
        },
        None => hosts,
    };
    match intermediate {
        Some(i) => with_srflx.push(connector_candidate(CandidateType::Relay, i, Some(bind))),
        None => with_srflx,
    }
}

/// Gathers the Connector's candidates (see `spec_gathered`).
pub fn gather_candidates_with_observed(
    bind_addr: SockAddr,
    observed_addr: Option<SockAddr>,
    intermediate_addr: Option<SockAddr>,
) -> (r: Vec<Candidate>)
    ensures
        candidate_views(r@) == spec_gathered(bind_addr, observed_addr, intermediate_addr),
{
    let mut candidates: Vec<Candidate> = Vec::new();
    candidates.push(host_candidate(bind_addr));
    match observed_addr {
        Some(observed) => {
            if observed != bind_addr {
                candidates.push(server_reflexive_candidate(observed, bind_addr));
            }
        },
        None => {},
    }
    match intermediate_addr {
        Some(intermediate) => {
            candidates.push(relay_candidate(intermediate, bind_addr));
        },
        None => {},
    }
    assert(candidate_views(candidates@) =~= spec_gathered(bind_addr, observed_addr, intermediate_addr));
    candidates
}

/// State of a P2P session on the Connector side.
#[derive(Debug, Clone, Copy, PartialEq, Eq, Structural)]
pub enum P2PSessionState {
    /// Offer received, answer being prepared
    AwaitingAnswer,
    /// Answer sent, waiting for the start signal
    AwaitingStart,
    /// Hole punching in progress
    Punching,
    /// Direct connection established
    Connected,
    /// Falling back to the relay
    FallbackRelay,
}

/// A P2P session on the Connector side.
#[derive(Debug)]
pub struct P2PSession {
    /// Session id
    pub session_id: u64,
    /// The Agent's candidates
    pub agent_candidates: Vec<Candidate>,
    /// Our candidates
    pub local_candidates: Vec<Candidate>,
    /// Current state
    pub state: P2PSessionState,
    /// When the session was created
    pub created_at: u64,
    /// Working address, once connected
    pub working_address: Option<SockAddr>,
    /// When the start signal came and the delay it asked for
    pub punch_start: Option<(u64, u64)>,
}

impl P2PSession {
    /// A session created now from an offer.
    pub fn new(session_id: u64, agent_candidates: Vec<Candidate>) -> (s: P2PSession)
        ensures
            s.session_id == session_id,
            s.agent_candidates == agent_candidates,
            s.local_candidates@.len() == 0,
            s.state == P2PSessionState::AwaitingAnswer,
            s.working_address is None,
            s.punch_start is None,
    {
        Self::new_at(session_id, agent_candidates, now_ms())
    }

    /// A session created at `now` from an offer.
    pub fn new_at(session_id: u64, agent_candidates: Vec<Candidate>, now: u64) -> (s: P2PSession)
        ensures
            s.session_id == session_id,
            s.agent_candidates == agent_candidates,
            s.local_candidates@.len() == 0,
            s.state == P2PSessionState::AwaitingAnswer,
            s.created_at == now,
            s.working_address is None,
            s.punch_start is None,
    {
        P2PSession {
            session_id,
            agent_candidates,
            local_candidates: Vec::new(),
            state: P2PSessionState::AwaitingAnswer,
            created_at: now,
            working_address: None,
            punch_start: None,
        }
    }

    /// Stores our candidates: the answer is sent, the start signal awaited.
    pub fn set_local_candidates(&mut self, candidates: Vec<Candidate>)
        ensures
            *final(self) == (P2PSession { local_candidates: candidates, state: P2PSessionState::AwaitingStart, ..*old(self) }),
    {
        self.local_candidates = candidates;
        self.state = P2PSessionState::AwaitingStart;
    }

    /// Records the start signal now with its delay: punching.
    pub fn set_punch_start(&mut self, delay_ms: u64)
        ensures
            exists|now: u64| #[trigger] punch_started(*old(self), *final(self), now, delay_ms),
    {
        let now = now_ms();
        self.set_punch_start_at(delay_ms, now);
        assert(punch_started(*old(self), *self, now, delay_ms));
    }

    /// Records the start signal at `now` with its delay: punching.
    pub fn set_punch_start_at(&mut self, delay_ms: u64, now: u64)
        ensures
            *final(self) == (P2PSession { punch_start: Some((now, delay_ms)), state: P2PSessionState::Punching, ..*old(self) }),
    {
        self.punch_start = Some((now, delay_ms));
        self.state = P2PSessionState::Punching;
    }

    /// Whether punching should start now.
    pub fn should_start_punching(&self) -> (r: bool)
        ensures
            exists|now: u64| r == spec_should_punch(*self, now),
    {
        self.should_start_punching_at(now_ms())
    }

    /// Whether punching should start at `now`: punching, and the delay of
    /// the start signal has passed.
    pub fn should_start_punching_at(&self, now: u64) -> (r: bool)
        ensures
            r == spec_should_punch(*self, now),
    {
        match (self.state, self.punch_start) {
            (P2PSessionState::Punching, Some((at, d))) => elapsed_ms(at, now) >= d,
            _ => false,
        }
    }

    /// Whether the session has timed out now.
    pub fn is_expired(&self) -> (r: bool)
        ensures
            exists|now: u64| r == (elapsed(self.created_at, now) > SIGNALING_TIMEOUT),
    {
        self.is_expired_at(now_ms())
    }

    /// Whether the session has timed out at `now` (more than the signaling
    /// timeout since its creation).
    pub fn is_expired_at(&self, now: u64) -> (r: bool)
        ensures
            r == (elapsed(self.created_at, now) > SIGNALING_TIMEOUT),
    {
        elapsed_ms(self.created_at, now) > SIGNALING_TIMEOUT
    }

    /// The direct connection works at `addr`.
    pub fn set_connected(&mut self, addr: SockAddr)
        ensures
            *final(self) == (P2PSession { working_address: Some(addr), state: P2PSessionState::Connected, ..*old(self) }),
    {
        self.working_address = Some(addr);
        self.state = P2PSessionState::Connected;
    }

    /// Hole punching failed: the relay is used.
    pub fn set_fallback(&mut self)
        ensures
            *final(self) == (P2PSession { state: P2PSessionState::FallbackRelay, ..*old(self) }),
    {
        self.state = P2PSessionState::FallbackRelay;
    }
}

/// `post` is `pre` with the start signal recorded at `now` with `delay`.
pub open spec fn punch_started(pre: P2PSession, post: P2PSession, now: u64, delay: u64) -> bool {
    post == (P2PSession { punch_start: Some((now, delay)), state: P2PSessionState::Punching, ..pre })
}

/// Whether a session should start punching at `now`: punching, and the
/// delay of the start signal has passed.
pub open spec fn spec_should_punch(s: P2PSession, now: u64) -> bool {
    s.state == P2PSessionState::Punching && (s.punch_start matches Some((at, d)) && elapsed(at, now) >= d)
}

/// The Connector's P2P sessions.
#[derive(Debug)]
pub struct P2PSessionManager {
    sessions: VecMap<u64, P2PSession>,
}

impl P2PSessionManager {
    /// Sessions by id.
    pub closed spec fn spec_sessions(&self) -> Map<u64, P2PSession> {
        self.sessions@
    }

    /// Session ids in order of creation.
    pub closed spec fn spec_ids(&self) -> Seq<u64> {
        self.sessions.spec_entries().map_values(|e: (u64, P2PSession)| e.0)
    }

    /// The invariant of the map.
    pub closed spec fn wf(&self) -> bool {
        self.sessions.wf()
    }

    /// No sessions.
    pub fn new() -> (m: P2PSessionManager)
        ensures
            m.wf(),
            m.spec_sessions() == Map::<u64, P2PSession>::empty(),
    {
        P2PSessionManager { sessions: VecMap::new() }
    }

    /// Creates a session now from an offer (see `create_session_at`).
    pub fn create_session(&mut self, session_id: u64, agent_candidates: Vec<Candidate>)
        requires
            old(self).wf(),
        ensures
            final(self).wf(),
            final(self).spec_sessions().contains_key(session_id),
            final(self).spec_sessions() == old(self).spec_sessions().insert(session_id, final(self).spec_sessions()[session_id]),
            final(self).spec_sessions()[session_id].agent_candidates == agent_candidates,
            final(self).spec_sessions()[session_id].state == P2PSessionState::AwaitingAnswer,
    {
        self.create_session_at(session_id, agent_candidates, now_ms())
    }

    /// Creates a session at `now` from an offer, replacing any with that id.
    pub fn create_session_at(&mut self, session_id: u64, agent_candidates: Vec<Candidate>, now: u64)
        requires
            old(self).wf(),
        ensures
            final(self).wf(),
            final(self).spec_sessions().contains_key(session_id),
            final(self).spec_sessions() == old(self).spec_sessions().insert(session_id, final(self).spec_sessions()[session_id]),
            final(self).spec_sessions()[session_id].session_id == session_id,
            final(self).spec_sessions()[session_id].agent_candidates == agent_candidates,
            final(self).spec_sessions()[session_id].local_candidates@.len() == 0,
            final(self).spec_sessions()[session_id].state == P2PSessionState::AwaitingAnswer,
            final(self).spec_sessions()[session_id].created_at == now,
            final(self).spec_sessions()[session_id].working_address is None,
            final(self).spec_sessions()[session_id].punch_start is None,
    {
        let s = P2PSession::new_at(session_id, agent_candidates, now);
        self.sessions.insert(session_id, s);
    }

    /// The session with an id, if any.
    pub fn get_session(&self, session_id: u64) -> (r: Option<&P2PSession>)
        requires
            self.wf(),
        ensures
            self.spec_sessions().contains_key(session_id) ==> r is Some && *r->0 == self.spec_sessions()[session_id],
            !self.spec_sessions().contains_key(session_id) ==> r is None,
    {
        self.sessions.get(&session_id)
    }

    /// The session with an id, to change in place, if any.
    pub fn get_session_mut(&mut self, session_id: u64) -> (r: Option<&mut P2PSession>)
        requires
            old(self).wf(),
        ensures
            r is Some <==> old(self).spec_sessions().contains_key(session_id),
            match r {
                Some(s) => *s == old(self).spec_sessions()[session_id] && final(self).wf() && final(self).spec_sessions()
                    == old(self).spec_sessions().insert(session_id, *final(s)),
                None => *final(self) == *old(self),
            },
    {
        self.sessions.get_mut(&session_id)
    }

    /// Removes a session.
    pub fn remove_session(&mut self, session_id: u64) -> (r: Option<P2PSession>)
        requires
            old(self).wf(),
        ensures
            final(self).wf(),
            final(self).spec_sessions() == old(self).spec_sessions().remove(session_id),
            old(self).spec_sessions().contains_key(session_id) ==> r == Some(old(self).spec_sessions()[session_id]),
            !old(self).spec_sessions().contains_key(session_id) ==> r is None,
    {
        self.sessions.remove(&session_id)
    }

    /// Removes the sessions that expired now; returns their ids.
    pub fn cleanup_expired(&mut self) -> (r: Vec<u64>)
        requires
            old(self).wf(),
        ensures
            final(self).wf(),
            exists|now: u64| Self::spec_cleanup(*old(self), *final(self), now, r@),
    {
        self.cleanup_expired_at(now_ms())
    }

    /// The manager after removing the sessions expired at `now`, whose ids
    /// are `ids` in order of creation.
    pub open spec fn spec_cleanup(pre: P2PSessionManager, post: P2PSessionManager, now: u64, ids: Seq<u64>) -> bool {
        let expired = |id: u64| pre.spec_sessions().contains_key(id) && elapsed(pre.spec_sessions()[id].created_at, now) > SIGNALING_TIMEOUT;
        &&& ids == pre.spec_ids().filter(expired)
        &&& post.spec_sessions() == pre.spec_sessions().remove_keys(ids.to_set())
    }

    /// Removes the sessions that expired at `now`; returns their ids.
    pub fn cleanup_expired_at(&mut self, now: u64) -> (r: Vec<u64>)
        requires
            old(self).wf(),
        ensures
            final(self).wf(),
            Self::spec_cleanup(*old(self), *final(self), now, r@),
    {
        let ghost ids0 = self.spec_ids();
        let ghost sessions0 = self.spec_sessions();
        let ghost expired = |id: u64| sessions0.contains_key(id) && elapsed(sessions0[id].created_at, now) > SIGNALING_TIMEOUT;
        let mut found: Vec<u64> = Vec::new();
        let mut i: usize = 0;
        while i < self.sessions.len()
            invariant
                self.wf(),
                self.spec_ids() == ids0,
                self.spec_sessions() == sessions0,
                i <= ids0.len(),
                expired == (|id: u64| sessions0.contains_key(id) && elapsed(sessions0[id].created_at, now) > SIGNALING_TIMEOUT),
                found@ == ids0.subrange(0, i as int).filter(expired),
            decreases ids0.len() - i,
        {
            let (id, session) = self.sessions.entry_at(i);
            proof {
                lemma_entries_map_at(self.sessions.spec_entries(), i as int);
                assert(ids0[i as int] == *id);
                assert(ids0.subrange(0, i + 1) =~= ids0.subrange(0, i as int).push(ids0[i as int]));
                ids0.subrange(0, i as int).lemma_filter_push(ids0[i as int], expired);
            }
            let e = session.is_expired_at(now);
            assert(e == expired(ids0[i as int]));
            if e {
                found.push(*id);
            }
            i = i + 1;
        }
        assert(ids0.subrange(0, i as int) =~= ids0);
        let mut j: usize = 0;
        while j < found.len()
            invariant
                self.wf(),
                j <= found@.len(),
                self.spec_sessions() == sessions0.remove_keys(found@.subrange(0, j as int).to_set()),
            decreases found@.len() - j,
        {
            let id = found[j];
            proof {
                assert(found@.subrange(0, j + 1) =~= found@.subrange(0, j as int).push(id));
                found@.subrange(0, j as int).lemma_push_to_set_commute(id);
            }
            self.sessions.remove(&id);
            assert(self.spec_sessions() =~= sessions0.remove_keys(found@.subrange(0, j + 1).to_set()));
            j = j + 1;
        }
        assert(found@.subrange(0, j as int) =~= found@);
        found
    }

    /// Handles a signaling message from the relay server at `now`; returns
    /// the answer to send, if any (see `spec_handle`).
    pub fn handle_message_at(
        &mut self,
        msg: SignalingMessage,
        bind_addr: SockAddr,
        observed_addr: Option<SockAddr>,
        external_ip: Option<IpAddr>,
        server_addr: SockAddr,
        now: u64,
    ) -> (answer: Option<SignalingMessage>)
        requires
            old(self).wf(),
        ensures
            final(self).wf(),
            Self::spec_handle(*old(self), *final(self), msg, bind_addr, observed_addr, external_ip, server_addr, now, answer),
    {
        let ghost m0 = self.spec_sessions();
        match msg {
            SignalingMessage::CandidateOffer { session_id, candidates, .. } => {
                self.create_session_at(session_id, candidates, now);
                let effective = match external_ip {
                    Some(ip) => Some(SockAddr { ip, port: bind_addr.port }),
                    None => observed_addr,
                };
                let local = gather_candidates_with_observed(bind_addr, effective, Some(server_addr));
                let copy = clone_candidates(&local);
                let ghost m1 = self.spec_sessions();
                match self.sessions.get_mut(&session_id) {
                    Some(s) => {
                        s.set_local_candidates(copy);
                    },
                    None => {},
                }
                assert(self.spec_sessions() =~= m1.insert(session_id, self.spec_sessions()[session_id]));
                assert(self.spec_sessions() =~= m0.insert(session_id, self.spec_sessions()[session_id]));
                Some(SignalingMessage::CandidateAnswer { session_id, candidates: local })
            },
            SignalingMessage::StartPunching { session_id, start_delay_ms, peer_candidates } => {
                match self.sessions.get_mut(&session_id) {
                    Some(s) => {
                        if peer_candidates.len() > 0 {
                            s.agent_candidates = peer_candidates;
                        }
                        s.set_punch_start_at(start_delay_ms, now);
                    },
                    None => {},
                }
                None
            },
            SignalingMessage::PunchingResult { session_id, success, working_address } => {
                match self.sessions.get_mut(&session_id) {
                    Some(s) => {
                        if success {
                            match working_address {
                                Some(addr) => s.set_connected(addr),
                                None => {
                                    assert(m0.insert(session_id, *s) =~= m0);
                                },
                            }
                        } else {
                            s.set_fallback();
                        }
                    },
                    None => {},
                }
                None
            },
            SignalingMessage::CandidateAnswer { .. } => None,
            SignalingMessage::Error { session_id, .. } => {
                match session_id {
                    Some(sid) => {
                        self.remove_session(sid);
                    },
                    None => {},
                }
                None
            },
        }
    }

    /// What `handle_message_at` does. An offer opens a session with the
    /// Agent's candidates and is answered with the Connector's candidates
    /// (with the external IP and the bound port as observed address when
    /// set), which the session keeps; a start signal updates the Agent's
    /// candidates when it carries some and starts punching; a punching
    /// result connects (with a working address) or falls back; an error for
    /// a session ends it.
    pub open spec fn spec_handle(
        pre: P2PSessionManager,
        post: P2PSessionManager,
        msg: SignalingMessage,
        bind: SockAddr,
        observed: Option<SockAddr>,
        external_ip: Option<IpAddr>,
        server: SockAddr,
        now: u64,
        answer: Option<SignalingMessage>,
    ) -> bool {
        let m = pre.spec_sessions();
        match msg {
            SignalingMessage::CandidateOffer { session_id, candidates, .. } => {
                let effective = match external_ip {
                    Some(ip) => Some(SockAddr { ip, port: bind.port }),
                    None => observed,
                };
                let local = spec_gathered(bind, effective, Some(server));
                &&& answer matches Some(SignalingMessage::CandidateAnswer { session_id: s, candidates: c }) && s
                    == session_id && candidate_views(c@) == local
                &&& post.spec_sessions().contains_key(session_id)
                &&& post.spec_sessions() == m.insert(session_id, post.spec_sessions()[session_id])
                &&& {
                    let p = post.spec_sessions()[session_id];
                    &&& p.session_id == session_id
                    &&& p.agent_candidates == candidates
                    &&& candidate_views(p.local_candidates@) == local
                    &&& p.state == P2PSessionState::AwaitingStart
                    &&& p.created_at == now
                    &&& p.working_address is None
                    &&& p.punch_start is None
                }
            },
            SignalingMessage::StartPunching { session_id, start_delay_ms, peer_candidates } => {
                &&& answer is None
                &&& post.spec_sessions() == if m.contains_key(session_id) {
                    m.insert(
                        session_id,
                        P2PSession {
                            agent_candidates: if peer_candidates@.len() > 0 {
                                peer_candidates
                            } else {
                                m[session_id].agent_candidates
                            },
                            punch_start: Some((now, start_delay_ms)),
                            state: P2PSessionState::Punching,
                            ..m[session_id]
                        },
                    )
                } else {
                    m
                }
            },
            SignalingMessage::PunchingResult { session_id, success, working_address } => {
                &&& answer is None
                &&& post.spec_sessions() == if m.contains_key(session_id) {
                    if success {
                        match working_address {
                            Some(a) => m.insert(
                                session_id,
                                P2PSession { working_address: Some(a), state: P2PSessionState::Connected, ..m[session_id] },
                            ),
                            None => m,
                        }
                    } else {
                        m.insert(session_id, P2PSession { state: P2PSessionState::FallbackRelay, ..m[session_id] })
                    }
                } else {
                    m
                }
            },
            SignalingMessage::CandidateAnswer { .. } => answer is None && post.spec_sessions() == m,
            SignalingMessage::Error { session_id, .. } => answer is None && post.spec_sessions() == match session_id {
                Some(sid) => m.remove(sid),
                None => m,
            },
        }
    }
}

impl Default for P2PSessionManager {
    fn default() -> (m: P2PSessionManager)
        ensures
            m.wf(),
            m.spec_sessions() == Map::<u64, P2PSession>::empty(),
    {
        P2PSessionManager::new()
    }
}

} // verus!
