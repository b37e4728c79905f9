//! The Agent's decisions: its connection state, the datagrams it reads from
//! the relay server and from Connectors, its registration message, hole
//! punching towards a Connector and the path (direct or relayed) that its
//! traffic takes. The QUIC connections themselves are driven around it.
//! Times are milliseconds since the Unix epoch.
use vstd::prelude::*;
use crate::clock::now_ms;
use crate::connector::qad::{parse_observed_address, spec_parse_observed, QAD_OBSERVED_ADDRESS};
use crate::net::SockAddr;
use crate::p2p::connectivity::BindingMessage;
use crate::p2p::candidate::candidate_views;
use crate::p2p::hole_punch::{spec_gathered, CoordinatorView, HolePunchCoordinator, HolePunchState};
use crate::p2p::resilience::{ActivePath, PathManager, PathState, PathStats, KEEPALIVE_REQUEST, KEEPALIVE_RESPONSE, MISSED_KEEPALIVES_THRESHOLD};
use crate::p2p::signaling::{decode_messages, generate_session_id, split_frames, SignalingMessage};

verus! {

/// Maximum UDP payload size of QUIC packets.
pub const MAX_DATAGRAM_SIZE: usize = 1350;

/// QUIC idle timeout, in milliseconds.
pub const IDLE_TIMEOUT_MS: u64 = 30000;

/// Registration message type of an Agent.
pub const REG_TYPE_AGENT: u8 = 0x10;

/// What to do with a packet from the host.
#[derive(Debug, Clone, Copy, PartialEq, Eq, Structural)]
pub enum PacketAction {
    Drop,
    Forward,
}

/// The Agent's connection state (that of its connection to the relay
/// server).
#[derive(Debug, Clone, Copy, PartialEq, Eq, Structural)]
pub enum AgentState {
    Disconnected,
    Connecting,
    Connected,
    Draining,
    Closed,
    Error,
}

/// Result codes of the Agent's operations.
#[derive(Debug, Clone, Copy, PartialEq, Eq, Structural)]
pub enum AgentResult {
    Success,
    InvalidPointer,
    InvalidAddress,
    ConnectionFailed,
    NotConnected,
    BufferTooSmall,
    NoData,
    QuicError,
    PanicCaught,
}

/// What a QUIC connection reports of itself.
#[derive(Debug, Clone, Copy, PartialEq, Eq, Structural)]
pub struct ConnectionStatus {
    pub closed: bool,
    pub draining: bool,
    pub established: bool,
}

/// The Agent's state for a relay connection in a given status (or none).
pub open spec fn spec_state_of(conn: Option<ConnectionStatus>) -> AgentState {
    match conn {
        None => AgentState::Disconnected,
        Some(c) => if c.closed {
            AgentState::Closed
        } else if c.draining {
            AgentState::Draining
        } else if c.established {
            AgentState::Connected
        } else {
            AgentState::Connecting
        },
    }
}

/// The Agent's state for a relay connection in a given status (or none).
pub fn state_of(conn: Option<ConnectionStatus>) -> (r: AgentState)
    ensures
        r == spec_state_of(conn),
{
    match conn {
        None => AgentState::Disconnected,
        Some(c) => if c.closed {
            AgentState::Closed
        } else if c.draining {
            AgentState::Draining
        } else if c.established {
            AgentState::Connected
        } else {
            AgentState::Connecting
        },
    }
}

/// The registration message of an Agent for a service:
/// `[0x10, length, service id bytes...]`, or `None` for an id longer than
/// 255 bytes.
pub open spec fn spec_registration(service_id: Seq<char>) -> Option<Seq<u8>> {
    let id = vstd::utf8::encode_utf8(service_id);
    if id.len() > 255 {
        None
    } else {
        Some(seq![REG_TYPE_AGENT, id.len() as u8] + id)
    }
}

/// Builds the registration message of an Agent for a service.
pub fn registration_message(service_id: &str) -> (r: Option<Vec<u8>>)
    ensures
        match r {
            Some(v) => spec_registration(service_id@) == Some(v@),
            None => spec_registration(service_id@) is None,
        },
{
    let id = service_id.as_bytes();
    if id.len() > 255 {
        return None;
    }
    let mut msg: Vec<u8> = Vec::new();
    msg.push(REG_TYPE_AGENT);
    msg.push(id.len() as u8);
    crate::bytes::push_bytes(&mut msg, id);
    assert(msg@ =~= seq![REG_TYPE_AGENT, id@.len() as u8] + id@);
    Some(msg)
}

/// Decides on a packet from the host: every packet is forwarded, whether
/// or not it parses as IPv4 or IPv6 (the parse is made and its result not
/// used).
pub fn process_packet(data: &[u8]) -> (r: PacketAction)
    ensures
        r == PacketAction::Forward,
{
    if data.len() == 0 {
        return PacketAction::Forward;
    }
    let _parses = ip_packet_parses(data);
    PacketAction::Forward
}

/// Whether `etherparse::SlicedPacket::from_ip` accepts the bytes.
pub uninterp spec fn etherparse_ip_parses(data: Seq<u8>) -> bool;

/// `etherparse::SlicedPacket::from_ip`: whether the bytes slice as an IPv4
/// or IPv6 packet; the answer is named `etherparse_ip_parses`.
#[verifier::external_body]
fn ip_packet_parses(data: &[u8]) -> (r: bool)
    ensures
        r == etherparse_ip_parses(data@),
{
    etherparse::SlicedPacket::from_ip(data).is_ok()
}

/// Where a UDP packet received by the Agent goes.
#[derive(Debug, Clone, Copy, PartialEq, Eq, Structural)]
pub enum Route {
    /// The relay server's connection
    Intermediate,
    /// The P2P connection with that Connector
    Peer,
    /// Nobody: the sender is unknown
    Unknown,
}

/// The code of a path kind at the FFI: Direct 0, Relay 1, none 2.
pub open spec fn spec_path_code(p: ActivePath) -> u8 {
    match p {
        ActivePath::Direct => 0,
        ActivePath::Relay => 1,
        ActivePath::NoPath => 2,
    }
}

/// The code of a path kind at the FFI.
pub fn path_code(p: ActivePath) -> (r: u8)
    ensures
        r == spec_path_code(p),
{
    match p {
        ActivePath::Direct => 0,
        ActivePath::Relay => 1,
        ActivePath::NoPath => 2,
    }
}

/// Whether a datagram from a Connector is a keepalive: five bytes at least,
/// starting with the keepalive request or response type.
pub open spec fn is_keepalive_datagram(data: Seq<u8>) -> bool {
    data.len() >= 5 && (data[0] == KEEPALIVE_REQUEST || data[0] == KEEPALIVE_RESPONSE)
}

/// The Agent: its connection state and what it learnt, its hole punching
/// in progress and its paths.
#[derive(Debug)]
pub struct Agent {
    /// The relay server's address, once connecting
    pub intermediate_addr: Option<SockAddr>,
    /// The local address, once known
    pub local_addr: Option<SockAddr>,
    /// Connection state (that of the relay connection)
    pub state: AgentState,
    /// Last activity time
    pub last_activity: u64,
    /// Our public address as the relay server observed it
    pub observed_address: Option<SockAddr>,
    /// Signaling bytes received and not yet framed
    pub signaling_buffer: Vec<u8>,
    /// Hole punching in progress, if any
    pub hole_punch: Option<HolePunchCoordinator>,
    /// Paths and their keepalives
    pub path_manager: PathManager,
}

impl Agent {
    /// The invariant: a hole punching in progress is well formed, and the
    /// direct path has not counted more missed keepalives than the threshold
    /// (it fails when it reaches it).
    pub open spec fn wf(&self) -> bool {
        &&& self.hole_punch matches Some(c) ==> c.wf()
        &&& missed_bounded(self.path_manager)
    }

    /// A new Agent created at `now`: disconnected, knowing nothing.
    pub fn new_at(now: u64) -> (a: Agent)
        ensures
            a.wf(),
            a.intermediate_addr is None,
            a.local_addr is None,
            a.state == AgentState::Disconnected,
            a.last_activity == now,
            a.observed_address is None,
            a.signaling_buffer@.len() == 0,
            a.hole_punch is None,
            a.path_manager.spec_direct_path() is None,
            a.path_manager.spec_relay_addr() is None,
            a.path_manager.spec_active_path() == ActivePath::NoPath,
            !a.path_manager.spec_in_fallback(),
    {
        Agent {
            intermediate_addr: None,
            local_addr: None,
            state: AgentState::Disconnected,
            last_activity: now,
            observed_address: None,
            signaling_buffer: Vec::new(),
            hole_punch: None,
            path_manager: PathManager::new(),
        }
    }

    /// A new Agent, created now.
    pub fn new() -> (a: Agent)
        ensures
            a.wf(),
            a.intermediate_addr is None,
            a.local_addr is None,
            a.state == AgentState::Disconnected,
            a.observed_address is None,
            a.signaling_buffer@.len() == 0,
            a.hole_punch is None,
            a.path_manager.spec_direct_path() is None,
            a.path_manager.spec_relay_addr() is None,
            a.path_manager.spec_active_path() == ActivePath::NoPath,
            !a.path_manager.spec_in_fallback(),
    {
        Agent::new_at(now_ms())
    }

    /// The relay connection to `server_addr` was opened at `now`: the Agent
    /// is connecting, and the relay is a path.
    pub fn on_connect_at(&mut self, server_addr: SockAddr, now: u64)
        ensures
            final(self).wf() == old(self).wf(),
            final(self).intermediate_addr == Some(server_addr),
            final(self).state == AgentState::Connecting,
            final(self).last_activity == now,
            final(self).local_addr == old(self).local_addr,
            final(self).observed_address == old(self).observed_address,
            final(self).signaling_buffer == old(self).signaling_buffer,
            final(self).hole_punch == old(self).hole_punch,
            final(self).path_manager.spec_relay_addr() == Some(server_addr),
            final(self).path_manager.spec_direct_path() == old(self).path_manager.spec_direct_path(),
            final(self).path_manager.spec_in_fallback() == old(self).path_manager.spec_in_fallback(),
            final(self).path_manager.spec_active_path() == if old(self).path_manager.spec_active_path()
                == ActivePath::NoPath {
                ActivePath::Relay
            } else {
                old(self).path_manager.spec_active_path()
            },
    {
        self.intermediate_addr = Some(server_addr);
        self.state = AgentState::Connecting;
        self.last_activity = now;
        self.path_manager.set_relay(server_addr);
    }

    /// Where a packet from `from` goes: to the relay connection when it
    /// comes from the relay server, to a P2P connection when one exists with
    /// that address (`is_peer`), nowhere otherwise.
    pub fn route(&self, from: SockAddr, is_peer: bool) -> (r: Route)
        ensures
            r == if self.intermediate_addr == Some(from) {
                Route::Intermediate
            } else if is_peer {
                Route::Peer
            } else {
                Route::Unknown
            },
    {
        match self.intermediate_addr {
            Some(a) => if a == from {
                return Route::Intermediate;
            },
            None => {},
        }
        if is_peer {
            Route::Peer
        } else {
            Route::Unknown
        }
    }

    /// Updates the state from the relay connection's status.
    pub fn update_state(&mut self, conn: Option<ConnectionStatus>)
        ensures
            *final(self) == (Agent { state: spec_state_of(conn), ..*old(self) }),
    {
        self.state = state_of(conn);
    }

    /// Reads a datagram from the relay server: an observed address message
    /// (seven bytes at least) sets the observed address; anything else is a
    /// tunneled packet and changes nothing here.
    pub fn on_intermediate_datagram(&mut self, data: &[u8])
        ensures
            *final(self) == (Agent {
                observed_address: match spec_parse_observed(data@) {
                    Some(a) => Some(a),
                    None => old(self).observed_address,
                },
                ..*old(self)
            }),
    {
        match parse_observed_address(data) {
            Some(a) => {
                self.observed_address = Some(a);
            },
            None => {},
        }
    }

    /// Reads a datagram from the Connector at `from` at `now`; returns the
    /// keepalive response to send back, if any. An observed address message
    /// is ignored; a keepalive goes to the path manager; anything else is a
    /// tunneled packet and changes nothing here.
    pub fn on_peer_datagram_at(&mut self, from: SockAddr, data: &[u8], now: u64) -> (r: Option<[u8; 5]>)
        requires
            old(self).wf(),
        ensures
            final(self).wf(),
            data@.len() > 0 && data@[0] == QAD_OBSERVED_ADDRESS || !is_keepalive_datagram(data@) ==> r is None
                && *final(self) == *old(self),
            !(data@.len() > 0 && data@[0] == QAD_OBSERVED_ADDRESS) && is_keepalive_datagram(data@) ==> PathManager::spec_process_keepalive(
                old(self).path_manager,
                final(self).path_manager,
                from,
                data@,
                r,
                now,
            ) && *final(self) == (Agent { path_manager: final(self).path_manager, ..*old(self) }),
    {
        if data.len() > 0 && data[0] == QAD_OBSERVED_ADDRESS {
            return None;
        }
        if data.len() >= 5 && (data[0] == KEEPALIVE_REQUEST || data[0] == KEEPALIVE_RESPONSE) {
            return self.path_manager.process_keepalive_at(from, data, now);
        }
        None
    }

    /// Prepares hole punching for a service at `now` with a session id: the
    /// coordinator (controlling side) with the relay server's address and
    /// the observed address, its local candidates gathered from the local
    /// address, and the candidate offer to send. Refused while a hole
    /// punching is in progress, while not connected, and without a local
    /// address.
    pub fn start_hole_punching_at(&self, service_id: &str, session_id: u64, now: u64) -> (r: Result<
        (HolePunchCoordinator, SignalingMessage),
        String,
    >)
        ensures
            self.hole_punch is Some ==> (r matches Err(e) && e@ == "Hole punching already in progress"@),
            self.hole_punch is None && self.state != AgentState::Connected ==> (r matches Err(e) && e@
                == "Not connected to Intermediate Server"@),
            self.hole_punch is None && self.state == AgentState::Connected && self.local_addr is None ==> (r matches Err(
                e,
            ) && e@ == "No local address available"@),
            self.hole_punch is None && self.state == AgentState::Connected && self.local_addr is Some ==> (r matches Ok(
                (c, offer),
            ) && c.wf() && prepared(c@, session_id, service_id@, self.local_addr->0, self.observed_address, self.intermediate_addr, now)
                && (offer matches SignalingMessage::CandidateOffer { session_id: s, service_id: sv, candidates } && s
                == session_id && sv@ == service_id@ && candidates@ == c@.local_candidates)),
    {
        if self.hole_punch.is_some() {
            return Err(String::from_str("Hole punching already in progress"));
        }
        if self.state != AgentState::Connected {
            return Err(String::from_str("Not connected to Intermediate Server"));
        }
        let local = match self.local_addr {
            Some(a) => a,
            None => {
                return Err(String::from_str("No local address available"));
            },
        };
        let mut c = HolePunchCoordinator::new(session_id, String::from_str(service_id), true);
        match self.intermediate_addr {
            Some(a) => c.set_intermediate_addr(a),
            None => {},
        }
        match self.observed_address {
            Some(a) => c.set_observed_addr(a),
            None => {},
        }
        let addrs: Vec<SockAddr> = vec![local];
        assert(addrs@ =~= seq![local]);
        c.start_gathering_at(addrs.as_slice(), now);
        let offer = c.get_candidate_offer();
        match offer {
            Some(o) => Ok((c, o)),
            None => Err(String::from_str("Failed to generate candidate offer")),
        }
    }

    /// Prepares hole punching for a service now, with a random session id
    /// (see `start_hole_punching_at`); refused as "SystemRandom failed" when
    /// the generator fails.
    pub fn start_hole_punching(&self, service_id: &str) -> (r: Result<(HolePunchCoordinator, SignalingMessage), String>)
        ensures
            self.hole_punch is Some ==> (r matches Err(e) && e@ == "Hole punching already in progress"@),
            self.hole_punch is None && self.state != AgentState::Connected ==> (r matches Err(e) && e@
                == "Not connected to Intermediate Server"@),
            r matches Ok((c, offer)) ==> c.wf() && exists|session_id: u64, now: u64| #[trigger]
                prepared(c@, session_id, service_id@, self.local_addr->0, self.observed_address, self.intermediate_addr, now)
                && self.local_addr is Some && (offer matches SignalingMessage::CandidateOffer { session_id: s, service_id: sv, candidates } && s
                == session_id && sv@ == service_id@ && candidates@ == c@.local_candidates),
    {
        if self.hole_punch.is_some() {
            return Err(String::from_str("Hole punching already in progress"));
        }
        if self.state != AgentState::Connected {
            return Err(String::from_str("Not connected to Intermediate Server"));
        }
        match generate_session_id() {
            Some(id) => self.start_hole_punching_at(service_id, id, now_ms()),
            None => Err(String::from_str("SystemRandom failed")),
        }
    }

    /// Keeps a prepared hole punching as the one in progress (once its offer
    /// was sent).
    pub fn set_hole_punch(&mut self, c: HolePunchCoordinator)
        requires
            old(self).wf(),
            c.wf(),
        ensures
            final(self).wf(),
            *final(self) == (Agent { hole_punch: Some(c), ..*old(self) }),
    {
        self.hole_punch = Some(c);
    }

    /// Appends signaling bytes received from the relay server.
    pub fn push_signaling_bytes(&mut self, data: &[u8])
        ensures
            final(self).signaling_buffer@ == old(self).signaling_buffer@ + data@,
            *final(self) == (Agent { signaling_buffer: final(self).signaling_buffer, ..*old(self) }),
    {
        crate::bytes::push_bytes(&mut self.signaling_buffer, data);
    }

    /// Takes the complete signaling frames out of the buffer; returns their
    /// payloads in order, and keeps the bytes from the first frame that
    /// cannot be read yet.
    pub fn take_signaling_frames(&mut self) -> (r: Vec<Vec<u8>>)
        ensures
            r@.map_values(|v: Vec<u8>| v@) == split_frames(old(self).signaling_buffer@).0,
            final(self).signaling_buffer@ == split_frames(old(self).signaling_buffer@).1,
            *final(self) == (Agent { signaling_buffer: final(self).signaling_buffer, ..*old(self) }),
    {
        let (frames, rest) = decode_messages(self.signaling_buffer.as_slice());
        self.signaling_buffer = rest;
        frames
    }

    /// Hands a signaling message to the hole punching in progress at `now`
    /// (without one, nothing happens): the coordinator processes it (a
    /// refusal is dropped), then starts its checks if it should.
    pub fn handle_signaling_message_at(&mut self, msg: SignalingMessage, now: u64)
        requires
            old(self).wf(),
        ensures
            final(self).wf(),
            old(self).hole_punch is None ==> *final(self) == *old(self),
            old(self).hole_punch is Some ==> (final(self).hole_punch matches Some(c2) && exists|
                mid: CoordinatorView,
                res: Result<(), String>,
            | #[trigger] HolePunchCoordinator::spec_process_signaling(old(self).hole_punch->0@, mid, msg, now, res) && if HolePunchCoordinator::spec_should_start(mid, now) {
                HolePunchCoordinator::spec_start_checking(mid, c2@, now)
            } else {
                c2@ == mid
            }) && *final(self) == (Agent { hole_punch: final(self).hole_punch, ..*old(self) }),
    {
        match &mut self.hole_punch {
            Some(c) => {
                let res = c.process_signaling_at(msg, now);
                let ghost mid = c@;
                if c.should_start_checking_at(now) {
                    c.start_checking_at(now);
                }
                assert(HolePunchCoordinator::spec_process_signaling(old(self).hole_punch->0@, mid, msg, now, res));
            },
            None => {},
        }
    }

    /// Advances the hole punching in progress at `now` (see `spec_poll_hole_punch`).
    pub fn poll_hole_punch_at(&mut self, now: u64) -> (r: (Option<SockAddr>, bool))
        requires
            old(self).wf(),
        ensures
            final(self).wf(),
            spec_poll_hole_punch(*old(self), *final(self), now, r),
    {
        let ghost pre = *self;
        let (addr, done) = match &mut self.hole_punch {
            Some(c) => {
                c.on_timeout_at(now);
                let st = c.state();
                if st == HolePunchState::Connected {
                    (c.working_address(), true)
                } else if st == HolePunchState::Failed || st == HolePunchState::FallbackRelay {
                    (None, true)
                } else {
                    (None, false)
                }
            },
            None => {
                return (None, false);
            },
        };
        let ghost w = self.hole_punch->0@;
        if done {
            match addr {
                Some(a) => self.path_manager.set_direct_at(a, now),
                None => {},
            }
            self.hole_punch = None;
        }
        assert(HolePunchCoordinator::spec_on_timeout(pre.hole_punch->0@, w, now));
        (addr, done)
    }

    /// Takes the binding requests to send at `now` from the hole punching in
    /// progress, as the coordinator hands them out one after the other until
    /// it has none (see `polled`); a check that starts gets transaction id
    /// `id`.
    pub fn poll_binding_requests_at(&mut self, now: u64, id: [u8; 12]) -> (r: Vec<(SockAddr, BindingMessage)>)
        requires
            old(self).wf(),
        ensures
            final(self).wf(),
            old(self).hole_punch is None ==> r@.len() == 0 && *final(self) == *old(self),
            old(self).hole_punch is Some ==> (final(self).hole_punch matches Some(c2) && exists|views: Seq<CoordinatorView>|
                #[trigger] poll_chain(views, now, id, r@) && views[0] == old(self).hole_punch->0@
                    && HolePunchCoordinator::spec_poll_binding(views.last(), c2@, now, id, None)) && *final(self) == (Agent {
                hole_punch: final(self).hole_punch,
                ..*old(self)
            }),
    {
        let mut out: Vec<(SockAddr, BindingMessage)> = Vec::new();
        let ghost start = self.hole_punch->0@;
        match &mut self.hole_punch {
            Some(c) => {
                let ghost mut views: Seq<CoordinatorView> = seq![start];
                loop
                    invariant_except_break
                        c.wf(),
                        poll_chain(views, now, id, out@),
                        views[0] == start,
                        views.last() == c@,
                    ensures
                        c.wf(),
                        poll_chain(views, now, id, out@),
                        views[0] == start,
                        HolePunchCoordinator::spec_poll_binding(views.last(), c@, now, id, None),
                    decreases binding_measure(c@, now),
                {
                    let ghost before = c@;
                    let ghost done = out@;
                    match c.poll_binding_request_at(now, id) {
                        Some(x) => {
                            out.push(x);
                            proof {
                                let old_views = views;
                                views = views.push(c@);
                                assert forall|i: int| 0 <= i < out@.len() implies #[trigger] chain_step(views, now, id, out@, i) by {
                                    if i < done.len() {
                                        assert(chain_step(old_views, now, id, done, i));
                                    }
                                }
                                lemma_poll_measure(before, c@, now, id, Some(x));
                            }
                        },
                        None => {
                            break;
                        },
                    }
                }
                assert(poll_chain(views, now, id, out@));
            },
            None => {},
        }
        out
    }

    /// Hands a binding message from `from` to the hole punching in progress,
    /// if any; the answer to a request is dropped.
    pub fn process_binding_response(&mut self, from: SockAddr, msg: BindingMessage)
        requires
            old(self).wf(),
        ensures
            final(self).wf(),
            old(self).hole_punch is None ==> *final(self) == *old(self),
            old(self).hole_punch is Some ==> (final(self).hole_punch matches Some(c2) && exists|a: Option<BindingMessage>|
                #[trigger] processed(old(self).hole_punch->0, c2, from, msg, a)) && *final(self) == (Agent {
                hole_punch: final(self).hole_punch,
                ..*old(self)
            }),
    {
        match &mut self.hole_punch {
            Some(c) => {
                let ghost pre = *c;
                let a = c.process_binding(from, msg);
                assert(processed(pre, *c, from, msg, a));
            },
            None => {},
        }
    }

    /// Handles timeouts at `now`: the direct path is checked for a keepalive
    /// timeout (failing over to the relay), then a failed direct path whose
    /// cooldown has passed starts recovering.
    pub fn on_timeout_at(&mut self, now: u64)
        requires
            old(self).wf(),
        ensures
            final(self).wf(),
            exists|mid: PathManager, failover: bool, recovered: bool|
                #[trigger] PathManager::spec_check_timeouts(old(self).path_manager, mid, failover, now)
                    && #[trigger] PathManager::spec_attempt_recovery(mid, final(self).path_manager, recovered, now),
            *final(self) == (Agent { path_manager: final(self).path_manager, ..*old(self) }),
    {
        let failover = self.path_manager.check_timeouts_at(now);
        let ghost mid = self.path_manager;
        let recovered = self.path_manager.attempt_recovery_at(now);
        assert(PathManager::spec_check_timeouts(old(self).path_manager, mid, failover, now));
        assert(PathManager::spec_attempt_recovery(mid, self.path_manager, recovered, now));
    }

    /// The keepalive to send at `now` on the direct path, if one is due.
    pub fn poll_keepalive_at(&mut self, now: u64) -> (r: Option<(SockAddr, [u8; 5])>)
        requires
            old(self).wf(),
        ensures
            final(self).wf(),
            PathManager::spec_poll_keepalive(old(self).path_manager, final(self).path_manager, r, now),
            *final(self) == (Agent { path_manager: final(self).path_manager, ..*old(self) }),
    {
        self.path_manager.poll_keepalive_at(now)
    }

    /// The kind of the active path.
    pub fn active_path(&self) -> (r: ActivePath)
        ensures
            r == self.path_manager.spec_active_path(),
    {
        self.path_manager.active_path_type()
    }

    /// Whether traffic fell back to the relay.
    pub fn is_in_fallback(&self) -> (r: bool)
        ensures
            r == self.path_manager.spec_in_fallback(),
    {
        self.path_manager.is_in_fallback()
    }

    /// Path statistics.
    pub fn path_stats(&self) -> (s: PathStats)
        ensures
            s.active_path == self.path_manager.spec_active_path(),
            s.in_fallback == self.path_manager.spec_in_fallback(),
            match self.path_manager.spec_direct_path() {
                Some(p) => s.direct_rtt == p.rtt && s.direct_state == Some(p.state) && s.missed_keepalives
                    == p.missed_keepalives,
                None => s.direct_rtt is None && s.direct_state is None && s.missed_keepalives == 0,
            },
    {
        self.path_manager.stats()
    }

    /// The address to send traffic to on the active path.
    pub fn active_send_addr(&self) -> (r: Option<SockAddr>)
        ensures
            r == self.path_manager.spec_active_addr(),
    {
        self.path_manager.active_addr()
    }
}

/// The direct path has not counted more missed keepalives than the
/// threshold, and has failed when it reached it.
pub open spec fn missed_bounded(m: PathManager) -> bool {
    match m.spec_direct_path() {
        Some(p) => p.missed_keepalives < MISSED_KEEPALIVES_THRESHOLD || (p.state == PathState::Failed
            && p.missed_keepalives <= MISSED_KEEPALIVES_THRESHOLD),
        None => true,
    }
}

/// What `poll_hole_punch_at` does. Without a hole punching in progress:
/// `(None, false)` and nothing changes. Otherwise its timeouts are handled
/// at `now`; when it connected, its working address is returned as done and
/// becomes the direct path; when it failed or fell back to the relay, it is
/// done without an address; in both cases it is no longer in progress.
/// Otherwise it is not done.
pub open spec fn spec_poll_hole_punch(pre: Agent, post: Agent, now: u64, r: (Option<SockAddr>, bool)) -> bool {
    match pre.hole_punch {
        None => r == (None::<SockAddr>, false) && post == pre,
        Some(c) => exists|w: CoordinatorView|
            #[trigger] HolePunchCoordinator::spec_on_timeout(c@, w, now) && {
                let done = w.state == HolePunchState::Connected || w.state == HolePunchState::Failed || w.state
                    == HolePunchState::FallbackRelay;
                let addr = if w.state == HolePunchState::Connected {
                    w.working_addr
                } else {
                    None
                };
                &&& r == (addr, done)
                &&& post == (Agent { hole_punch: post.hole_punch, path_manager: post.path_manager, ..pre })
                &&& if done {
                    post.hole_punch is None && match addr {
                        Some(a) => post.path_manager.spec_direct_path() == Some(
                            crate::p2p::resilience::spec_new_path(a, now),
                        ) && post.path_manager.spec_relay_addr() == pre.path_manager.spec_relay_addr()
                            && post.path_manager.spec_active_path() == ActivePath::Direct
                            && !post.path_manager.spec_in_fallback(),
                        None => post.path_manager == pre.path_manager,
                    }
                } else {
                    post.hole_punch matches Some(c2) && c2@ == w && post.path_manager == pre.path_manager
                }
            },
    }
}

/// Poll `i` of a chain: the coordinator went from `views[i]` to
/// `views[i + 1]` handing out `r[i]`.
pub open spec fn chain_step(views: Seq<CoordinatorView>, now: u64, id: [u8; 12], r: Seq<(SockAddr, BindingMessage)>, i: int) -> bool {
    HolePunchCoordinator::spec_poll_binding(views[i], views[i + 1], now, id, Some(r[i]))
}

/// The coordinator went through `views`, handing out the binding messages
/// `r`, one poll each, at `now` with transaction id `id`.
pub open spec fn poll_chain(views: Seq<CoordinatorView>, now: u64, id: [u8; 12], r: Seq<(SockAddr, BindingMessage)>) -> bool {
    &&& views.len() == r.len() + 1
    &&& forall|i: int| 0 <= i < r.len() ==> #[trigger] chain_step(views, now, id, r, i)
}

/// What is left to poll at `now`: the queued binding messages, and one
/// check while checking and not paced.
pub open spec fn binding_measure(c: CoordinatorView, now: u64) -> nat {
    c.outgoing_bindings.len() + if c.state == HolePunchState::Checking && !c.check_list.spec_paced(now) {
        1nat
    } else {
        0nat
    }
}

proof fn lemma_poll_measure(
    pre: CoordinatorView,
    post: CoordinatorView,
    now: u64,
    id: [u8; 12],
    r: Option<(SockAddr, BindingMessage)>,
)
    requires
        HolePunchCoordinator::spec_poll_binding(pre, post, now, id, r),
        r is Some,
    ensures
        binding_measure(post, now) < binding_measure(pre, now),
{
    if pre.state == HolePunchState::Checking && pre.outgoing_bindings.len() == 0 {
        let n = choose|n: Option<(usize, crate::p2p::connectivity::BindingRequest, SockAddr)>|
            #[trigger] crate::p2p::connectivity::CheckList::spec_next_request(pre.check_list, post.check_list, now, id, n)
                && post == CoordinatorView { check_list: post.check_list, ..pre } && match n {
                Some((_, req, addr)) => r == Some((addr, BindingMessage::Request(req))),
                None => r is None,
            };
        assert(!pre.check_list.spec_paced(now));
        assert(post.check_list.spec_paced(now));
    }
}

/// The coordinator `post` after `pre` handled a binding message from
/// `from` and answered `a` (see `HolePunchCoordinator::process_binding`).
pub open spec fn processed(
    pre: HolePunchCoordinator,
    post: HolePunchCoordinator,
    from: SockAddr,
    msg: BindingMessage,
    a: Option<BindingMessage>,
) -> bool {
    &&& post.wf()
    &&& match msg {
        BindingMessage::Request(req) => post@ == pre@ && a == Some(
            BindingMessage::Response(
                crate::p2p::connectivity::BindingResponse {
                    transaction_id: req.transaction_id,
                    success: true,
                    mapped_address: Some(from),
                },
            ),
        ),
        BindingMessage::Response(resp) => a is None && exists|m: Option<usize>|
            #[trigger] crate::p2p::connectivity::CheckList::spec_handle_response(pre@.check_list, post@.check_list, resp, m)
                && {
                let s = post@.check_list.spec_pairs();
                if m is Some && crate::p2p::connectivity::best_succeeded(s, s.len() as int) is Some {
                    post@ == CoordinatorView {
                        check_list: post@.check_list,
                        working_addr: Some(s[crate::p2p::connectivity::best_succeeded(s, s.len() as int)->0].remote.address),
                        state: HolePunchState::Connected,
                        ..pre@
                    }
                } else {
                    post@ == CoordinatorView { check_list: post@.check_list, ..pre@ }
                }
            },
    }
}

/// A coordinator prepared for hole punching: controlling, for the session
/// and the service, signaling since `now` with the candidates gathered from
/// the local address, the observed address and the relay server's address,
/// and nothing else yet.
pub open spec fn prepared(
    c: CoordinatorView,
    session_id: u64,
    service_id: Seq<char>,
    local: SockAddr,
    observed: Option<SockAddr>,
    intermediate: Option<SockAddr>,
    now: u64,
) -> bool {
    &&& c.state == HolePunchState::Signaling
    &&& c.session_id == session_id
    &&& c.service_id == service_id
    &&& c.is_controlling
    &&& candidate_views(c.local_candidates) == spec_gathered(seq![local], observed, intermediate)
    &&& c.remote_candidates.len() == 0
    &&& c.check_list.spec_pairs().len() == 0
    &&& c.check_list.spec_start_time() is None
    &&& c.check_list.spec_is_controlling()
    &&& c.start_time == Some(now)
    &&& c.check_start is None
    &&& c.intermediate_addr == intermediate
    &&& c.observed_addr == observed
    &&& c.working_addr is None
    &&& c.outgoing_messages.len() == 0
    &&& c.outgoing_bindings.len() == 0
}

} // verus!
