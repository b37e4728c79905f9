//! Signaling sessions tracked by the relay server while an Agent and a
//! Connector exchange candidates for hole punching. Times are milliseconds
//! since the Unix epoch.
use vstd::prelude::*;
use crate::clock::{elapsed, elapsed_ms, now_ms};
use crate::p2p::candidate::Candidate;
use crate::vecmap::{VecMap, entries_map, keys_unique, lemma_entries_map_at};

pub use crate::p2p::candidate::CandidateType;
pub use crate::p2p::signaling::{
    DecodeError, HEADER_LEN, MAX_MESSAGE_SIZE, SignalingError, SignalingMessage, decode_message,
    encode_message,
};

verus! {

/// How long a signaling session may wait, in milliseconds.
pub const SIGNALING_TIMEOUT: u64 = 5000;

/// Delay before the peers start hole punching, in milliseconds.
pub const PUNCH_START_DELAY_MS: u64 = 100;

/// State of a signaling session.
#[derive(Debug, Clone, Copy, PartialEq, Eq, Structural)]
pub enum SessionState {
    /// Waiting for the Connector's answer
    AwaitingAnswer,
    /// Candidates exchanged, ready to start punching
    ReadyToPunch,
    /// Hole punching in progress
    Punching,
}

/// A signaling session between an Agent and a Connector.
#[derive(Debug)]
pub struct SignalingSession {
    /// Service being connected to
    pub service_id: String,
    /// Agent's connection id
    pub agent_conn_id: Vec<u8>,
    /// Connector's connection id (set when the answer arrives)
    pub connector_conn_id: Option<Vec<u8>>,
    /// Agent's candidates
    pub agent_candidates: Vec<Candidate>,
    /// Connector's candidates (set when the answer arrives)
    pub connector_candidates: Option<Vec<Candidate>>,
    /// Current state
    pub state: SessionState,
    /// When the session was created
    pub created_at: u64,
    /// Stream used for signaling on the Connector side
    pub connector_stream_id: Option<u64>,
}

/// Whether `s` is a fresh session created at `now`.
pub open spec fn is_new_session(
    s: SignalingSession,
    service: Seq<char>,
    agent: Seq<u8>,
    candidates: Seq<Candidate>,
    now: u64,
) -> bool {
    &&& s.service_id@ == service
    &&& s.agent_conn_id@ == agent
    &&& s.connector_conn_id is None
    &&& s.agent_candidates@ == candidates
    &&& s.connector_candidates is None
    &&& s.state == SessionState::AwaitingAnswer
    &&& s.created_at == now
    &&& s.connector_stream_id is None
}

/// Whether a session created at `created_at` has expired at `now`.
pub open spec fn spec_expired(created_at: u64, now: u64) -> bool {
    elapsed(created_at, now) > SIGNALING_TIMEOUT
}

impl SignalingSession {
    /// A session created now from a candidate offer.
    pub fn new(service_id: String, agent_conn_id: Vec<u8>, agent_candidates: Vec<Candidate>) -> (s: SignalingSession)
        ensures
            exists|now: u64| is_new_session(s, service_id@, agent_conn_id@, agent_candidates@, now),
    {
        Self::new_at(service_id, agent_conn_id, agent_candidates, now_ms())
    }

    /// A session created at `now` from a candidate offer.
    pub fn new_at(
        service_id: String,
        agent_conn_id: Vec<u8>,
        agent_candidates: Vec<Candidate>,
        now: u64,
    ) -> (s: SignalingSession)
        ensures
            is_new_session(s, service_id@, agent_conn_id@, agent_candidates@, now),
    {
        SignalingSession {
            service_id,
            agent_conn_id,
            connector_conn_id: None,
            agent_candidates,
            connector_candidates: None,
            state: SessionState::AwaitingAnswer,
            created_at: now,
            connector_stream_id: None,
        }
    }

    /// Whether the session has timed out now.
    pub fn is_expired(&self) -> (r: bool)
        ensures
            exists|now: u64| r == spec_expired(self.created_at, now),
    {
        self.is_expired_at(now_ms())
    }

    /// Whether the session has timed out at `now` (more than the signaling
    /// timeout since its creation).
    pub fn is_expired_at(&self, now: u64) -> (r: bool)
        ensures
            r == spec_expired(self.created_at, now),
    {
        elapsed_ms(self.created_at, now) > SIGNALING_TIMEOUT
    }

    /// Records the Connector's answer: the session is ready to punch.
    pub fn set_connector_answer(&mut self, connector_conn_id: Vec<u8>, candidates: Vec<Candidate>, stream_id: u64)
        ensures
            final(self).service_id == old(self).service_id,
            final(self).agent_conn_id == old(self).agent_conn_id,
            final(self).agent_candidates == old(self).agent_candidates,
            final(self).created_at == old(self).created_at,
            final(self).connector_conn_id == Some(connector_conn_id),
            final(self).connector_candidates == Some(candidates),
            final(self).connector_stream_id == Some(stream_id),
            final(self).state == SessionState::ReadyToPunch,
    {
        self.connector_conn_id = Some(connector_conn_id);
        self.connector_candidates = Some(candidates);
        self.connector_stream_id = Some(stream_id);
        self.state = SessionState::ReadyToPunch;
    }
}

/// The service ids of the sessions in a map whose ids are in `ids`.
pub open spec fn services_of(sessions: Map<u64, SignalingSession>, ids: Set<u64>) -> Set<Seq<char>> {
    Set::new(|s: Seq<char>| exists|id: u64| ids.contains(id) && sessions.contains_key(id) && #[trigger] sessions[id].service_id@ == s)
}

/// Manages the active signaling sessions.
#[derive(Debug)]
pub struct SessionManager {
    sessions: VecMap<u64, SignalingSession>,
    pending_by_service: VecMap<String, u64>,
}

impl SessionManager {
    /// Sessions by id.
    pub closed spec fn spec_sessions(&self) -> Map<u64, SignalingSession> {
        self.sessions@
    }

    /// Session ids in order of creation.
    pub closed spec fn spec_ids(&self) -> Seq<u64> {
        self.sessions.spec_entries().map_values(|e: (u64, SignalingSession)| e.0)
    }

    /// Pending session of each service.
    pub closed spec fn spec_pending(&self) -> Map<Seq<char>, u64> {
        self.pending_by_service@
    }

    /// The invariant of the two maps.
    pub closed spec fn wf(&self) -> bool {
        self.sessions.wf() && self.pending_by_service.wf()
    }

    /// The ids are those of the sessions, each once.
    pub proof fn lemma_ids(&self)
        requires
            self.wf(),
        ensures
            forall|i: int| 0 <= i < self.spec_ids().len() ==> self.spec_sessions().contains_key(#[trigger] self.spec_ids()[i]),
            forall|id: u64| self.spec_sessions().contains_key(id) ==> self.spec_ids().contains(id),
    {
        let s = self.sessions.spec_entries();
        assert forall|i: int| 0 <= i < self.spec_ids().len() implies self.spec_sessions().contains_key(#[trigger] self.spec_ids()[i]) by {
            lemma_entries_map_at(s, i);
        }
        assert forall|id: u64| self.spec_sessions().contains_key(id) implies self.spec_ids().contains(id) by {
            let j = choose|j: int| 0 <= j < s.len() && #[trigger] s[j].0@ == id;
            assert(self.spec_ids()[j] == id);
        }
    }

    /// No sessions.
    pub fn new() -> (m: SessionManager)
        ensures
            m.wf(),
            m.spec_sessions() == Map::<u64, SignalingSession>::empty(),
            m.spec_ids() == Seq::<u64>::empty(),
            m.spec_pending() == Map::<Seq<char>, u64>::empty(),
    {
        let m = SessionManager { sessions: VecMap::new(), pending_by_service: VecMap::new() };
        assert(m.spec_ids() =~= Seq::<u64>::empty());
        m
    }

    /// Creates a session now from a candidate offer (see `create_session_at`).
    pub fn create_session(&mut self, session_id: u64, service_id: String, agent_conn_id: Vec<u8>, candidates: Vec<Candidate>)
        requires
            old(self).wf(),
        ensures
            final(self).wf(),
            exists|now: u64| Self::spec_created(*old(self), *final(self), session_id, service_id@, agent_conn_id@, candidates@, now),
    {
        self.create_session_at(session_id, service_id, agent_conn_id, candidates, now_ms())
    }

    /// The manager after a session was created: the session is stored under
    /// its id (replacing any session with that id) and is the pending session
    /// of its service.
    pub open spec fn spec_created(
        pre: SessionManager,
        post: SessionManager,
        session_id: u64,
        service: Seq<char>,
        agent: Seq<u8>,
        candidates: Seq<Candidate>,
        now: u64,
    ) -> bool {
        &&& post.spec_sessions().contains_key(session_id)
        &&& is_new_session(post.spec_sessions()[session_id], service, agent, candidates, now)
        &&& post.spec_sessions() == pre.spec_sessions().insert(session_id, post.spec_sessions()[session_id])
        &&& post.spec_pending() == pre.spec_pending().insert(service, session_id)
    }

    /// Creates a session at `now` from a candidate offer.
    pub fn create_session_at(
        &mut self,
        session_id: u64,
        service_id: String,
        agent_conn_id: Vec<u8>,
        candidates: Vec<Candidate>,
        now: u64,
    )
        requires
            old(self).wf(),
        ensures
            final(self).wf(),
            Self::spec_created(*old(self), *final(self), session_id, service_id@, agent_conn_id@, candidates@, now),
    {
        let ghost service = service_id@;
        let ghost agent = agent_conn_id@;
        let ghost cands = candidates@;
        let key = service_id.clone();
        let session = SignalingSession::new_at(service_id, agent_conn_id, candidates, now);
        self.sessions.insert(session_id, session);
        self.pending_by_service.insert(key, session_id);
        assert(self.spec_sessions().contains_key(session_id));
        assert(is_new_session(self.spec_sessions()[session_id], service, agent, cands, now));
    }

    /// The session with an id, if any.
    pub fn get_session(&self, session_id: u64) -> (r: Option<&SignalingSession>)
        requires
            self.wf(),
        ensures
            self.spec_sessions().contains_key(session_id) ==> r is Some && *r->0 == self.spec_sessions()[session_id],
            !self.spec_sessions().contains_key(session_id) ==> r is None,
    {
        self.sessions.get(&session_id)
    }

    /// The session with an id, to change in place, if any.
    pub fn get_session_mut(&mut self, session_id: u64) -> (r: Option<&mut SignalingSession>)
        requires
            old(self).wf(),
        ensures
            r is Some <==> old(self).spec_sessions().contains_key(session_id),
            match r {
                Some(s) => *s == old(self).spec_sessions()[session_id] && final(self).wf() && final(self).spec_sessions()
                    == old(self).spec_sessions().insert(session_id, *final(s)) && final(self).spec_ids()
                    == old(self).spec_ids() && final(self).spec_pending() == old(self).spec_pending(),
                None => *final(self) == *old(self),
            },
    {
        self.sessions.get_mut(&session_id)
    }

    /// The pending session of a service, if any.
    pub fn get_pending_for_service(&self, service_id: &str) -> (r: Option<u64>)
        requires
            self.wf(),
        ensures
            self.spec_pending().contains_key(service_id@) ==> r == Some(self.spec_pending()[service_id@]),
            !self.spec_pending().contains_key(service_id@) ==> r is None,
    {
        let key = String::from_str(service_id);
        match self.pending_by_service.get(&key) {
            Some(id) => Some(*id),
            None => None,
        }
    }

    /// Removes a session, and the pending entry of its service.
    pub fn remove_session(&mut self, session_id: u64) -> (r: Option<SignalingSession>)
        requires
            old(self).wf(),
        ensures
            final(self).wf(),
            final(self).spec_sessions() == old(self).spec_sessions().remove(session_id),
            old(self).spec_sessions().contains_key(session_id) ==> r == Some(old(self).spec_sessions()[session_id])
                && final(self).spec_pending() == old(self).spec_pending().remove(
                old(self).spec_sessions()[session_id].service_id@,
            ),
            !old(self).spec_sessions().contains_key(session_id) ==> r is None && final(self).spec_pending()
                == old(self).spec_pending(),
            forall|i: int| 0 <= i < final(self).spec_ids().len() ==> #[trigger] final(self).spec_ids()[i] != session_id,
            old(self).spec_ids().contains(session_id) ==> exists|i: int|
                0 <= i < old(self).spec_ids().len() && #[trigger] old(self).spec_ids()[i] == session_id
                    && final(self).spec_ids() == old(self).spec_ids().remove(i),
            !old(self).spec_ids().contains(session_id) ==> final(self).spec_ids() == old(self).spec_ids(),
    {
        let ghost pre = self.sessions.spec_entries();
        let removed = self.sessions.remove(&session_id);
        proof {
            let post = self.sessions.spec_entries();
            if entries_map(pre).contains_key(session_id) {
                let i = choose|i: int| 0 <= i < pre.len() && #[trigger] pre[i].0@ == session_id && post == pre.remove(i);
                assert(self.spec_ids() =~= old(self).spec_ids().remove(i));
                assert forall|k: int| 0 <= k < self.spec_ids().len() implies #[trigger] self.spec_ids()[k] != session_id by {
                    let k2 = if k < i { k } else { k + 1 };
                    assert(self.spec_ids()[k] == pre[k2].0);
                    assert(pre[k2].0@ != pre[i].0@);
                }
                assert(old(self).spec_ids()[i] == session_id);
            } else {
                assert forall|k: int| 0 <= k < self.spec_ids().len() implies #[trigger] self.spec_ids()[k] != session_id by {
                    assert(self.spec_ids()[k] == pre[k].0);
                    if pre[k].0@ == session_id {
                        assert(crate::vecmap::has_key(pre, session_id));
                    }
                }
                assert(!old(self).spec_ids().contains(session_id));
                assert(self.spec_ids() =~= old(self).spec_ids());
            }
        }
        match removed {
            Some(session) => {
                self.pending_by_service.remove(&session.service_id);
                Some(session)
            },
            None => None,
        }
    }

    /// Removes the sessions that expired now; returns their ids.
    pub fn cleanup_expired(&mut self) -> (r: Vec<u64>)
        requires
            old(self).wf(),
        ensures
            final(self).wf(),
            exists|now: u64| Self::spec_cleanup(*old(self), *final(self), now, r@),
    {
        self.cleanup_expired_at(now_ms())
    }

    /// The manager after removing the sessions expired at `now`: `ids` are
    /// their ids in order of creation; their sessions and the pending entries
    /// of their services are gone.
    pub open spec fn spec_cleanup(pre: SessionManager, post: SessionManager, now: u64, ids: Seq<u64>) -> bool {
        let expired = |id: u64| pre.spec_sessions().contains_key(id) && spec_expired(pre.spec_sessions()[id].created_at, now);
        &&& ids == pre.spec_ids().filter(expired)
        &&& post.spec_sessions() == pre.spec_sessions().remove_keys(ids.to_set())
        &&& post.spec_pending() == pre.spec_pending().remove_keys(services_of(pre.spec_sessions(), ids.to_set()))
    }

    /// Removes the sessions that expired at `now`; returns their ids.
    pub fn cleanup_expired_at(&mut self, now: u64) -> (r: Vec<u64>)
        requires
            old(self).wf(),
        ensures
            final(self).wf(),
            Self::spec_cleanup(*old(self), *final(self), now, r@),
    {
        let ghost ids0 = self.spec_ids();
        let ghost sessions0 = self.spec_sessions();
        let ghost expired = |id: u64| sessions0.contains_key(id) && spec_expired(sessions0[id].created_at, now);
        proof {
            self.lemma_ids();
        }
        let mut found: Vec<u64> = Vec::new();
        let mut i: usize = 0;
        while i < self.sessions.len()
            invariant
                self.wf(),
                self.spec_ids() == ids0,
                self.spec_sessions() == sessions0,
                i <= ids0.len(),
                expired == (|id: u64| sessions0.contains_key(id) && spec_expired(sessions0[id].created_at, now)),
                found@ == ids0.subrange(0, i as int).filter(expired),
                forall|k: int| 0 <= k < ids0.len() ==> sessions0.contains_key(#[trigger] ids0[k]),
            decreases ids0.len() - i,
        {
            let (id, session) = self.sessions.entry_at(i);
            proof {
                lemma_entries_map_at(self.sessions.spec_entries(), i as int);
                assert(ids0[i as int] == *id);
                assert(ids0.subrange(0, i + 1) =~= ids0.subrange(0, i as int).push(ids0[i as int]));
                ids0.subrange(0, i as int).lemma_filter_push(ids0[i as int], expired);
            }
            let e = session.is_expired_at(now);
            assert(sessions0[*id] == *session);
            assert(sessions0.contains_key(ids0[i as int]));
            assert(spec_expired(sessions0[ids0[i as int]].created_at, now) == e);
            assert(e == expired(ids0[i as int]));
            if e {
                found.push(*id);
            }
            i = i + 1;
        }
        assert(ids0.subrange(0, i as int) =~= ids0);
        let ghost pending0 = self.spec_pending();
        let mut j: usize = 0;
        while j < found.len()
            invariant
                self.wf(),
                j <= found@.len(),
                expired == (|id: u64| sessions0.contains_key(id) && spec_expired(sessions0[id].created_at, now)),
                found@ == ids0.filter(expired),
                self.spec_sessions() == sessions0.remove_keys(found@.subrange(0, j as int).to_set()),
                self.spec_pending() == pending0.remove_keys(services_of(sessions0, found@.subrange(0, j as int).to_set())),
                forall|a: int| 0 <= a < found@.len() ==> #[trigger] sessions0.contains_key(found@[a]),
            decreases found@.len() - j,
        {
            let id = found[j];
            let ghost done = found@.subrange(0, j as int).to_set();
            let ghost next = found@.subrange(0, j + 1).to_set();
            proof {
                assert(found@.subrange(0, j + 1) =~= found@.subrange(0, j as int).push(id));
                found@.subrange(0, j as int).lemma_push_to_set_commute(id);
            }
            assert(next =~= done.insert(id));
            let ghost was_done = done.contains(id);
            self.remove_session(id);
            proof {
                assert(self.spec_sessions() =~= sessions0.remove_keys(next));
                if was_done {
                    assert(next =~= done);
                } else {
                    assert(services_of(sessions0, next) =~= services_of(sessions0, done).insert(sessions0[id].service_id@)) by {
                        assert forall|s: Seq<char>| services_of(sessions0, next).contains(s) implies services_of(sessions0, done).insert(sessions0[id].service_id@).contains(s) by {
                            let x = choose|x: u64| next.contains(x) && sessions0.contains_key(x) && #[trigger] sessions0[x].service_id@ == s;
                            if x != id {
                                assert(done.contains(x));
                            }
                        }
                        assert forall|s: Seq<char>| services_of(sessions0, done).insert(sessions0[id].service_id@).contains(s) implies services_of(sessions0, next).contains(s) by {
                            if s == sessions0[id].service_id@ {
                                assert(next.contains(id));
                            } else {
                                let x = choose|x: u64| done.contains(x) && sessions0.contains_key(x) && #[trigger] sessions0[x].service_id@ == s;
                                assert(next.contains(x));
                            }
                        }
                    }
                    assert(self.spec_pending() =~= pending0.remove_keys(services_of(sessions0, next)));
                }
            }
            j = j + 1;
        }
        assert(found@.subrange(0, j as int) =~= found@);
        found
    }

    /// Number of active sessions.
    pub fn session_count(&self) -> (r: usize)
        requires
            self.wf(),
        ensures
            r == self.spec_ids().len(),
    {
        self.sessions.len()
    }

    /// The sessions with their ids, in order of creation.
    pub fn sessions_iter(&self) -> (r: Vec<(u64, &SignalingSession)>)
        requires
            self.wf(),
        ensures
            r@.len() == self.spec_ids().len(),
            forall|i: int| 0 <= i < r@.len() ==> (#[trigger] r@[i]).0 == self.spec_ids()[i] && *r@[i].1
                == self.spec_sessions()[self.spec_ids()[i]],
    {
        let mut r: Vec<(u64, &SignalingSession)> = Vec::new();
        let mut i: usize = 0;
        while i < self.sessions.len()
            invariant
                self.wf(),
                i <= self.spec_ids().len(),
                r@.len() == i,
                forall|k: int| 0 <= k < i ==> (#[trigger] r@[k]).0 == self.spec_ids()[k] && *r@[k].1
                    == self.spec_sessions()[self.spec_ids()[k]],
            decreases self.spec_ids().len() - i,
        {
            let (id, session) = self.sessions.entry_at(i);
            proof {
                lemma_entries_map_at(self.sessions.spec_entries(), i as int);
            }
            r.push((*id, session));
            i = i + 1;
        }
        r
    }
}

impl Default for SessionManager {
    fn default() -> (m: SessionManager)
        ensures
            m.wf(),
            m.spec_sessions() == Map::<u64, SignalingSession>::empty(),
            m.spec_ids() == Seq::<u64>::empty(),
            m.spec_pending() == Map::<Seq<char>, u64>::empty(),
    {
        SessionManager::new()
    }
}

} // verus!
