//! The relay server's decisions: what each received datagram is, how a
//! registration is answered, where relayed traffic goes, how signaling
//! messages are relayed between the peers of a session, and how rotated
//! connection ids map back to their connection. The network loop carries
//! out what these functions decide.
use vstd::prelude::*;
use crate::bytes::copy_range;
use crate::clock::now_ms;
use crate::p2p::candidate::{Candidate, clone_candidates};
use crate::server::auth::{
    extract_identity, opt_strings, spec_authorized, spec_authorized_for, x509_common_name, x509_parses, x509_san_dns_names,
    is_authorized_for_service, ClientIdentity,
};
use crate::server::client::Client;
use crate::server::registry::{ClientType, Registry, agent_at};
use crate::server::signaling::{
    PUNCH_START_DELAY_MS, SessionManager, SessionState, SignalingError, SignalingMessage, SignalingSession,
    is_new_session,
};
use crate::text::{decimal, push_decimal, push_str, string_from_utf8};
use crate::vecmap::{VecMap, bytes_eq, entries_map, lemma_entries_map_at};

verus! {

/// Maximum UDP payload size of QUIC packets.
pub const MAX_DATAGRAM_SIZE: usize = 1350;

/// QUIC idle timeout, in milliseconds.
pub const IDLE_TIMEOUT_MS: u64 = 30000;

/// ALPN protocol identifier: the bytes of "ztna-v1".
pub const ALPN_PROTOCOL: [u8; 7] = [0x7a, 0x74, 0x6e, 0x61, 0x2d, 0x76, 0x31];

/// Default server port.
pub const DEFAULT_PORT: u16 = 4433;

/// Maximum age of a retry token, in seconds.
pub const RETRY_TOKEN_MAX_AGE_SECS: u64 = 60;

/// Registration acknowledgement.
pub const REG_TYPE_ACK: u8 = 0x12;

/// Registration refusal.
pub const REG_TYPE_NACK: u8 = 0x13;

/// Refusal status: invalid request.
pub const NACK_INVALID: u8 = 0x01;

/// Refusal status: not authorized.
pub const NACK_DENIED: u8 = 0x02;

/// Interval between connection id rotations, in seconds.
pub const CID_ROTATION_INTERVAL_SECS: u64 = 300;

/// Most rotated connection ids kept per connection.
pub const MAX_CID_ALIASES: usize = 4;

/// What a received datagram is, by its first byte.
#[derive(Debug, Clone, Copy, PartialEq, Eq, Structural)]
pub enum DatagramKind {
    /// Nothing in it
    Empty,
    /// Address discovery message (0x01), which the server ignores
    AddressDiscovery,
    /// Registration (0x10 Agent, 0x11 Connector)
    Registration,
    /// IP packet routed by service id (0x2F)
    ServiceRouted,
    /// Raw IP packet, relayed to the paired connection
    Raw,
}

/// Kind of a datagram.
pub open spec fn spec_datagram_kind(d: Seq<u8>) -> DatagramKind {
    if d.len() == 0 {
        DatagramKind::Empty
    } else if d[0] == 0x01 {
        DatagramKind::AddressDiscovery
    } else if d[0] == 0x10 || d[0] == 0x11 {
        DatagramKind::Registration
    } else if d[0] == 0x2F {
        DatagramKind::ServiceRouted
    } else {
        DatagramKind::Raw
    }
}

/// Classifies a received datagram.
pub fn classify_datagram(d: &[u8]) -> (r: DatagramKind)
    ensures
        r == spec_datagram_kind(d@),
{
    if d.len() == 0 {
        DatagramKind::Empty
    } else if d[0] == 0x01 {
        DatagramKind::AddressDiscovery
    } else if d[0] == 0x10 || d[0] == 0x11 {
        DatagramKind::Registration
    } else if d[0] == 0x2F {
        DatagramKind::ServiceRouted
    } else {
        DatagramKind::Raw
    }
}

/// A registration datagram, read.
#[derive(Debug)]
pub enum RegistrationRequest {
    /// Too short, truncated or of another type: no answer
    Ignored,
    /// The service id is not valid UTF-8: refused as invalid
    InvalidServiceId,
    /// A registration of a client type for a service
    Valid(ClientType, String),
}

/// The service id bytes of `[type, len, id...]` when they are all there.
pub open spec fn id_bytes(d: Seq<u8>) -> Option<Seq<u8>> {
    if d.len() < 2 || d.len() < 2 + d[1] {
        None
    } else {
        Some(d.subrange(2, 2 + d[1] as int))
    }
}

/// Reads a registration datagram `[0x10 | 0x11, id_len, service_id...]`.
pub fn parse_registration(d: &[u8]) -> (r: RegistrationRequest)
    ensures
        d@.len() < 2 || !(d@[0] == 0x10 || d@[0] == 0x11) || id_bytes(d@) is None ==> r is Ignored,
        d@.len() >= 2 && (d@[0] == 0x10 || d@[0] == 0x11) && id_bytes(d@) is Some ==> {
            let b = id_bytes(d@)->0;
            if vstd::utf8::valid_utf8(b) {
                r matches RegistrationRequest::Valid(t, s) && t == (if d@[0] == 0x10 {
                    ClientType::Agent
                } else {
                    ClientType::Connector
                }) && s@ == vstd::utf8::decode_utf8(b)
            } else {
                r is InvalidServiceId
            }
        },
{
    if d.len() < 2 {
        return RegistrationRequest::Ignored;
    }
    let client_type = if d[0] == 0x10 {
        ClientType::Agent
    } else if d[0] == 0x11 {
        ClientType::Connector
    } else {
        return RegistrationRequest::Ignored;
    };
    let id_len = d[1] as usize;
    if d.len() < 2 + id_len {
        return RegistrationRequest::Ignored;
    }
    match string_from_utf8(copy_range(d, 2, 2 + id_len)) {
        Some(s) => RegistrationRequest::Valid(client_type, s),
        None => RegistrationRequest::InvalidServiceId,
    }
}

/// A registration answer: `[kind, status, len, id...]`, the length taken
/// modulo 256.
pub open spec fn registration_reply(kind: u8, status: u8, id: Seq<u8>) -> Seq<u8> {
    seq![kind, status, (id.len() % 256) as u8] + id
}

/// The acknowledgement of a registration for `service_id`.
pub fn registration_ack(service_id: &str) -> (r: Vec<u8>)
    ensures
        r@ == registration_reply(REG_TYPE_ACK, 0, vstd::utf8::encode_utf8(service_id@)),
{
    registration_nack_or_ack(REG_TYPE_ACK, service_id.as_bytes(), 0)
}

/// The refusal of a registration, with its status and the service id bytes.
pub fn registration_nack(service_id_bytes: &[u8], status: u8) -> (r: Vec<u8>)
    ensures
        r@ == registration_reply(REG_TYPE_NACK, status, service_id_bytes@),
{
    registration_nack_or_ack(REG_TYPE_NACK, service_id_bytes, status)
}

fn registration_nack_or_ack(kind: u8, id: &[u8], status: u8) -> (r: Vec<u8>)
    ensures
        r@ == registration_reply(kind, status, id@),
{
    let mut msg: Vec<u8> = Vec::new();
    msg.push(kind);
    msg.push(status);
    msg.push((id.len() % 256) as u8);
    crate::bytes::push_bytes(&mut msg, id);
    assert(msg@ =~= registration_reply(kind, status, id@));
    msg
}

/// Where a service-routed datagram goes.
#[derive(Debug)]
pub enum ServiceRoute {
    /// Too short, truncated, or the service id is not valid UTF-8
    Malformed,
    /// The sender is not a registered Agent for the service
    Unauthorized,
    /// No Connector is registered for the service
    NoConnector,
    /// The IP packet goes to this connection
    Forward { dest: Vec<u8>, packet: Vec<u8> },
}

/// Text of the error for an offer whose service has no Connector.
pub open spec fn no_connector_text(service: Seq<char>) -> Seq<char> {
    "No Connector available for service '"@ + service + "'"@
}

/// Text of the error for an answer to an unknown session.
pub open spec fn session_not_found_text(session_id: u64) -> Seq<char> {
    "Session "@ + decimal(session_id as nat) + " not found"@
}

/// Whether `m` is the error message with these contents.
pub open spec fn is_error_message(m: SignalingMessage, session_id: Option<u64>, code: SignalingError, text: Seq<char>) -> bool {
    m matches SignalingMessage::Error { session_id: s, code: c, message } && s == session_id && c == code
        && message@ == text
}

/// The peer of `from` in a session: the Connector (if it answered) when
/// `from` is the Agent, else the Agent.
pub open spec fn session_peer(s: SignalingSession, from: Seq<u8>) -> Option<Seq<u8>> {
    if from == s.agent_conn_id@ {
        match s.connector_conn_id {
            Some(c) => Some(c@),
            None => None,
        }
    } else {
        Some(s.agent_conn_id@)
    }
}

/// Outgoing messages, by destination connection id.
pub open spec fn out_view(out: Seq<(Vec<u8>, SignalingMessage)>) -> Seq<(Seq<u8>, SignalingMessage)> {
    out.map_values(|e: (Vec<u8>, SignalingMessage)| (e.0@, e.1))
}

/// Whether `s` is the session `old` after the Connector `from` answered
/// with `candidates` on `stream_id`.
pub open spec fn is_answered(old: SignalingSession, s: SignalingSession, from: Seq<u8>, candidates: Seq<Candidate>, stream_id: u64) -> bool {
    &&& s.service_id == old.service_id
    &&& s.agent_conn_id == old.agent_conn_id
    &&& s.agent_candidates == old.agent_candidates
    &&& s.created_at == old.created_at
    &&& s.connector_conn_id matches Some(c) && c@ == from
    &&& s.connector_candidates matches Some(c) && c@ == candidates
    &&& s.connector_stream_id == Some(stream_id)
    &&& s.state == SessionState::ReadyToPunch
}

/// Number of entries of an alias table that point to `canonical`.
pub open spec fn alias_count(s: Seq<(Vec<u8>, Vec<u8>)>, canonical: Seq<u8>) -> nat
    decreases s.len(),
{
    if s.len() == 0 {
        0
    } else {
        alias_count(s.drop_last(), canonical) + if s.last().1@ == canonical {
            1nat
        } else {
            0nat
        }
    }
}

/// A session ready to punch: its id, the Agent's and Connector's ids and candidates.
pub type ReadyEntry = (u64, Seq<u8>, Seq<u8>, Seq<Candidate>, Seq<Candidate>);

/// Whether a session is ready to punch, with the Connector's answer.
pub open spec fn is_ready(s: SignalingSession) -> bool {
    s.state == SessionState::ReadyToPunch && s.connector_conn_id is Some && s.connector_candidates is Some
}

/// The ready sessions among `ids`, in order.
pub open spec fn ready_entries(sessions: Map<u64, SignalingSession>, ids: Seq<u64>) -> Seq<ReadyEntry>
    decreases ids.len(),
{
    if ids.len() == 0 {
        Seq::empty()
    } else {
        let rest = ready_entries(sessions, ids.drop_last());
        let s = sessions[ids.last()];
        if is_ready(s) {
            rest.push((ids.last(), s.agent_conn_id@, s.connector_conn_id->0@, s.agent_candidates@, s.connector_candidates->0@))
        } else {
            rest
        }
    }
}

/// Views of collected ready sessions.
pub open spec fn ready_view(r: Seq<(u64, Vec<u8>, Vec<u8>, Vec<Candidate>, Vec<Candidate>)>) -> Seq<ReadyEntry> {
    r.map_values(|e: (u64, Vec<u8>, Vec<u8>, Vec<Candidate>, Vec<Candidate>)| (e.0, e.1@, e.2@, e.3@, e.4@))
}

proof fn lemma_ready_entries_in(sessions: Map<u64, SignalingSession>, ids: Seq<u64>)
    requires
        forall|m: int| 0 <= m < ids.len() ==> sessions.contains_key(#[trigger] ids[m]),
    ensures
        forall|k: int| 0 <= k < ready_entries(sessions, ids).len() ==> sessions.contains_key(#[trigger] ready_entries(sessions, ids)[k].0),
    decreases ids.len(),
{
    if ids.len() > 0 {
        let d = ids.drop_last();
        assert forall|m: int| 0 <= m < d.len() implies sessions.contains_key(#[trigger] d[m]) by {
            assert(d[m] == ids[m]);
        }
        lemma_ready_entries_in(sessions, d);
        assert(sessions.contains_key(ids[ids.len() - 1]));
        let rest = ready_entries(sessions, d);
        let all = ready_entries(sessions, ids);
        assert forall|k: int| 0 <= k < all.len() implies sessions.contains_key(#[trigger] all[k].0) by {
            if k < rest.len() {
                assert(all[k] == rest[k]);
            } else {
                assert(all[k].0 == ids.last());
            }
        }
    }
}

/// Whether messages `2k` and `2k+1` are the start signals of a ready session.
pub open spec fn start_pair(out: Seq<(Seq<u8>, SignalingMessage)>, k: int, e: ReadyEntry) -> bool {
    &&& out[2 * k].0 == e.1
    &&& out[2 * k].1 matches SignalingMessage::StartPunching { session_id, start_delay_ms, peer_candidates }
        && session_id == e.0 && start_delay_ms == PUNCH_START_DELAY_MS && peer_candidates@ == e.4
    &&& out[2 * k + 1].0 == e.2
    &&& out[2 * k + 1].1 matches SignalingMessage::StartPunching { session_id, start_delay_ms, peer_candidates }
        && session_id == e.0 && start_delay_ms == PUNCH_START_DELAY_MS && peer_candidates@ == e.3
}

/// The sessions after the ones listed started punching.
pub open spec fn punched(sessions: Map<u64, SignalingSession>, done: Seq<ReadyEntry>) -> Map<u64, SignalingSession> {
    Map::new(
        |id: u64| sessions.contains_key(id),
        |id: u64| if exists|k: int| 0 <= k < done.len() && #[trigger] done[k].0 == id {
            SignalingSession { state: SessionState::Punching, ..sessions[id] }
        } else {
            sessions[id]
        },
    )
}

/// Views of alias entries.
pub open spec fn alias_view(s: Seq<(Vec<u8>, Vec<u8>)>) -> Seq<(Seq<u8>, Seq<u8>)> {
    s.map_values(|e: (Vec<u8>, Vec<u8>)| (e.0@, e.1@))
}

/// The alias entries after `new` points to `canonical`: in place if `new`
/// was an alias already, else last.
pub open spec fn with_alias(v: Seq<(Seq<u8>, Seq<u8>)>, new: Seq<u8>, canonical: Seq<u8>) -> Seq<(Seq<u8>, Seq<u8>)> {
    if exists|k: int| 0 <= k < v.len() && #[trigger] v[k].0 == new {
        v.update(choose|k: int| 0 <= k < v.len() && #[trigger] v[k].0 == new, (new, canonical))
    } else {
        v.push((new, canonical))
    }
}

/// Number of alias entries that point to `canonical`.
pub open spec fn count_aliases(v: Seq<(Seq<u8>, Seq<u8>)>, canonical: Seq<u8>) -> int
    decreases v.len(),
{
    if v.len() == 0 {
        0
    } else {
        count_aliases(v.drop_last(), canonical) + if v.last().1 == canonical {
            1int
        } else {
            0int
        }
    }
}

/// The aliases of `canonical` beyond the most kept: the oldest ones go.
pub open spec fn stale_aliases(v: Seq<(Seq<u8>, Seq<u8>)>, canonical: Seq<u8>) -> Set<Seq<u8>> {
    let excess = count_aliases(v, canonical) - MAX_CID_ALIASES;
    Set::new(
        |key: Seq<u8>|
            exists|k: int|
                0 <= k < v.len() && #[trigger] v[k].0 == key && v[k].1 == canonical && count_aliases(v.subrange(0, k), canonical)
                    < excess,
    )
}

/// Views of a list of byte strings.
pub open spec fn bytes_views(s: Seq<Vec<u8>>) -> Seq<Seq<u8>> {
    s.map_values(|x: Vec<u8>| x@)
}

/// View of an alias map.
pub open spec fn alias_map_view(m: Map<Seq<u8>, Vec<u8>>) -> Map<Seq<u8>, Seq<u8>> {
    m.map_values(|v: Vec<u8>| v@)
}

proof fn lemma_count_aliases_nonneg(v: Seq<(Seq<u8>, Seq<u8>)>, canonical: Seq<u8>)
    ensures
        count_aliases(v, canonical) >= 0,
    decreases v.len(),
{
    if v.len() > 0 {
        lemma_count_aliases_nonneg(v.drop_last(), canonical);
    }
}

/// The connection ids whose alias entry points to `canonical`.
pub open spec fn aliases_of(m: Map<Seq<u8>, Seq<u8>>, canonical: Seq<u8>) -> Set<Seq<u8>> {
    m.dom().filter(|k: Seq<u8>| m[k] == canonical)
}

/// The aliases of `canonical` in `v` with at least `e` aliases of it before
/// them.
pub open spec fn later_aliases(v: Seq<(Seq<u8>, Seq<u8>)>, canonical: Seq<u8>, e: int) -> Set<Seq<u8>> {
    Set::new(
        |key: Seq<u8>|
            exists|k: int|
                0 <= k < v.len() && #[trigger] v[k].0 == key && v[k].1 == canonical && count_aliases(v.subrange(0, k), canonical)
                    >= e,
    )
}

proof fn lemma_later_aliases_len(v: Seq<(Seq<u8>, Seq<u8>)>, canonical: Seq<u8>, e: int)
    requires
        e >= 0,
        forall|i: int, j: int| 0 <= i < v.len() && 0 <= j < v.len() && i != j ==> #[trigger] v[i].0 != #[trigger] v[j].0,
    ensures
        later_aliases(v, canonical, e).finite(),
        later_aliases(v, canonical, e).len() == if count_aliases(v, canonical) > e {
            count_aliases(v, canonical) - e
        } else {
            0
        },
    decreases v.len(),
{
    let s = later_aliases(v, canonical, e);
    if v.len() == 0 {
        assert(s =~= Set::<Seq<u8>>::empty());
    } else {
        let w = v.drop_last();
        let x = v.last();
        lemma_later_aliases_len(w, canonical, e);
        lemma_count_aliases_nonneg(w, canonical);
        let sw = later_aliases(w, canonical, e);
        assert forall|k: int| 0 <= k < w.len() implies #[trigger] v.subrange(0, k) == w.subrange(0, k) by {
            assert(v.subrange(0, k) =~= w.subrange(0, k));
        }
        assert(v.subrange(0, v.len() - 1) =~= w);
        if x.1 == canonical && count_aliases(w, canonical) >= e {
            assert(s =~= sw.insert(x.0)) by {
                assert forall|key: Seq<u8>| s.contains(key) <==> sw.insert(x.0).contains(key) by {
                    if s.contains(key) {
                        let k = choose|k: int|
                            0 <= k < v.len() && #[trigger] v[k].0 == key && v[k].1 == canonical && count_aliases(
                                v.subrange(0, k),
                                canonical,
                            ) >= e;
                        if k < w.len() {
                            assert(w[k].0 == key);
                        }
                    }
                    if sw.contains(key) {
                        let k = choose|k: int|
                            0 <= k < w.len() && #[trigger] w[k].0 == key && w[k].1 == canonical && count_aliases(
                                w.subrange(0, k),
                                canonical,
                            ) >= e;
                        assert(v[k].0 == key);
                    }
                    if key == x.0 {
                        assert(v[v.len() - 1].0 == key);
                    }
                }
            }
            assert(!sw.contains(x.0)) by {
                if sw.contains(x.0) {
                    let k = choose|k: int|
                        0 <= k < w.len() && #[trigger] w[k].0 == x.0 && w[k].1 == canonical && count_aliases(
                            w.subrange(0, k),
                            canonical,
                        ) >= e;
                    assert(v[k].0 == v[v.len() - 1].0);
                }
            }
        } else {
            assert(s =~= sw) by {
                assert forall|key: Seq<u8>| s.contains(key) <==> sw.contains(key) by {
                    if s.contains(key) {
                        let k = choose|k: int|
                            0 <= k < v.len() && #[trigger] v[k].0 == key && v[k].1 == canonical && count_aliases(
                                v.subrange(0, k),
                                canonical,
                            ) >= e;
                        if k < w.len() {
                            assert(w[k].0 == key);
                        }
                    }
                    if sw.contains(key) {
                        let k = choose|k: int|
                            0 <= k < w.len() && #[trigger] w[k].0 == key && w[k].1 == canonical && count_aliases(
                                w.subrange(0, k),
                                canonical,
                            ) >= e;
                        assert(v[k].0 == key);
                    }
                }
            }
        }
    }
}

/// Once its stale aliases are gone, a connection has at most
/// `MAX_CID_ALIASES` aliases.
proof fn lemma_aliases_bounded(e1: Seq<(Vec<u8>, Vec<u8>)>, canonical: Seq<u8>)
    requires
        crate::vecmap::keys_unique(e1),
    ensures
        aliases_of(alias_map_view(entries_map(e1)).remove_keys(stale_aliases(alias_view(e1), canonical)), canonical).finite(),
        aliases_of(alias_map_view(entries_map(e1)).remove_keys(stale_aliases(alias_view(e1), canonical)), canonical).len()
            <= MAX_CID_ALIASES,
{
    let v = alias_view(e1);
    let m = alias_map_view(entries_map(e1)).remove_keys(stale_aliases(v, canonical));
    let excess = count_aliases(v, canonical) - MAX_CID_ALIASES;
    let e = if excess > 0 {
        excess
    } else {
        0
    };
    assert forall|i: int, j: int| 0 <= i < v.len() && 0 <= j < v.len() && i != j implies #[trigger] v[i].0 != #[trigger] v[j].0 by {
        assert(e1[i].0@ != e1[j].0@);
    }
    lemma_later_aliases_len(v, canonical, e);
    assert(aliases_of(m, canonical) =~= later_aliases(v, canonical, e)) by {
        assert forall|key: Seq<u8>| aliases_of(m, canonical).contains(key) <==> later_aliases(v, canonical, e).contains(key) by {
            if aliases_of(m, canonical).contains(key) {
                crate::vecmap::lemma_entries_map_key(e1, key);
                let j = choose|j: int| 0 <= j < e1.len() && #[trigger] e1[j].0@ == key && entries_map(e1)[key] == e1[j].1;
                assert(v[j].0 == key && v[j].1 == canonical);
                lemma_count_aliases_nonneg(v.subrange(0, j), canonical);
                if count_aliases(v.subrange(0, j), canonical) < e {
                    assert(stale_aliases(v, canonical).contains(key));
                }
            }
            if later_aliases(v, canonical, e).contains(key) {
                let k = choose|k: int|
                    0 <= k < v.len() && #[trigger] v[k].0 == key && v[k].1 == canonical && count_aliases(v.subrange(0, k), canonical)
                        >= e;
                crate::vecmap::lemma_entries_map_at(e1, k);
                assert(e1[k].0@ == key);
                if stale_aliases(v, canonical).contains(key) {
                    let k2 = choose|k2: int|
                        0 <= k2 < v.len() && #[trigger] v[k2].0 == key && v[k2].1 == canonical && count_aliases(
                            v.subrange(0, k2),
                            canonical,
                        ) < excess;
                    assert(k2 == k);
                }
            }
        }
    }
}

proof fn lemma_with_alias(pre: Seq<(Vec<u8>, Vec<u8>)>, post: Seq<(Vec<u8>, Vec<u8>)>, k: Vec<u8>, v: Vec<u8>)
    requires
        crate::vecmap::keys_unique(pre),
        entries_map(pre).contains_key(k@) ==> exists|i: int|
            0 <= i < pre.len() && #[trigger] pre[i].0@ == k@ && post == pre.update(i, (k, v)),
        !entries_map(pre).contains_key(k@) ==> post == pre.push((k, v)),
    ensures
        alias_view(post) == with_alias(alias_view(pre), k@, v@),
{
    let pv = alias_view(pre);
    if exists|j: int| 0 <= j < pv.len() && #[trigger] pv[j].0 == k@ {
        let j = choose|j: int| 0 <= j < pv.len() && #[trigger] pv[j].0 == k@;
        assert(pre[j].0@ == k@);
        assert(crate::vecmap::has_key(pre, k@));
        let i = choose|i: int| 0 <= i < pre.len() && #[trigger] pre[i].0@ == k@ && post == pre.update(i, (k, v));
        if i != j {
            assert(pre[i].0@ != pre[j].0@);
        }
        assert(alias_view(post) =~= pv.update(j, (k@, v@)));
    } else {
        assert forall|i: int| 0 <= i < pre.len() implies #[trigger] pre[i].0@ != k@ by {
            assert(pv[i].0 == pre[i].0@);
        }
        assert(alias_view(post) =~= pv.push((k@, v@)));
    }
}

/// The clients after the one with `conn` (if connected) took the identity
/// in the certificate `der`: its Common Name and the services its SAN DNS
/// names authorize.
pub open spec fn authenticated(pre: Map<Seq<u8>, Client>, post: Map<Seq<u8>, Client>, conn: Seq<u8>, der: Seq<u8>) -> bool {
    if pre.contains_key(conn) {
        let c = post[conn];
        &&& post == pre.insert(conn, c)
        &&& c == (Client {
            authenticated_identity: c.authenticated_identity,
            authenticated_services: c.authenticated_services,
            ..pre[conn]
        })
        &&& c.authenticated_identity matches Some(n) && n@ == x509_common_name(der)->0
        &&& opt_strings(c.authenticated_services) == spec_authorized(x509_san_dns_names(der))
    } else {
        post == pre
    }
}

/// The relay server's routing state.
#[derive(Debug)]
pub struct RelayState {
    /// Connected clients by connection id
    pub clients: VecMap<Vec<u8>, Client>,
    /// Routing registry
    pub registry: Registry,
    /// Signaling sessions
    pub sessions: SessionManager,
    /// Rotated connection ids, each to the id of its connection
    pub cid_aliases: VecMap<Vec<u8>, Vec<u8>>,
    /// Whether client certificates are required
    pub require_client_cert: bool,
}

impl RelayState {
    /// The invariant: all maps well formed.
    pub open spec fn wf(&self) -> bool {
        &&& self.clients.wf()
        &&& forall|k: Seq<u8>| self.clients@.contains_key(k) ==> (#[trigger] self.clients@[k]).wf()
        &&& self.registry.wf()
        &&& self.sessions.wf()
        &&& self.cid_aliases.wf()
    }

    /// An empty state.
    pub fn new(require_client_cert: bool) -> (r: RelayState)
        ensures
            r.wf(),
            r.clients@ == Map::<Seq<u8>, Client>::empty(),
            r.registry@.connectors == Map::<Seq<char>, Seq<u8>>::empty(),
            r.registry@.agents == Seq::<(Seq<u8>, Seq<Seq<char>>)>::empty(),
            r.registry@.connector_services == Map::<Seq<u8>, Seq<char>>::empty(),
            r.sessions.spec_sessions() == Map::<u64, SignalingSession>::empty(),
            r.sessions.spec_pending() == Map::<Seq<char>, u64>::empty(),
            r.cid_aliases@ == Map::<Seq<u8>, Vec<u8>>::empty(),
            r.require_client_cert == require_client_cert,
    {
        RelayState {
            clients: VecMap::new(),
            registry: Registry::new(),
            sessions: SessionManager::new(),
            cid_aliases: VecMap::new(),
            require_client_cert,
        }
    }

    /// The connection a destination connection id belongs to: itself when it
    /// is a client's id, else the connection a rotated id points to, else
    /// itself.
    pub fn resolve_conn_id(&self, dcid: &Vec<u8>) -> (r: Vec<u8>)
        requires
            self.wf(),
        ensures
            r@ == if self.clients@.contains_key(dcid@) {
                dcid@
            } else if self.cid_aliases@.contains_key(dcid@) {
                self.cid_aliases@[dcid@]@
            } else {
                dcid@
            },
    {
        if self.clients.contains_key(dcid) {
            return copy_range(dcid.as_slice(), 0, dcid.len());
        }
        match self.cid_aliases.get(dcid) {
            Some(c) => copy_range(c.as_slice(), 0, c.len()),
            None => copy_range(dcid.as_slice(), 0, dcid.len()),
        }
    }

    /// Adds a client under its connection id.
    pub fn add_client(&mut self, conn_id: Vec<u8>, client: Client)
        requires
            old(self).wf(),
            client.wf(),
        ensures
            final(self).wf(),
            final(self).clients@ == old(self).clients@.insert(conn_id@, client),
            final(self).registry == old(self).registry,
            final(self).sessions == old(self).sessions,
            final(self).cid_aliases == old(self).cid_aliases,
            final(self).require_client_cert == old(self).require_client_cert,
    {
        self.clients.insert(conn_id, client);
    }

    /// Records the address a packet of a client came from; a new address
    /// must be told to the client again. Returns whether it changed.
    pub fn observe_address(&mut self, conn_id: &Vec<u8>, from: crate::net::SockAddr) -> (changed: bool)
        requires
            old(self).wf(),
        ensures
            final(self).wf(),
            changed == (old(self).clients@.contains_key(conn_id@) && old(self).clients@[conn_id@].observed_addr != from),
            changed ==> final(self).clients@ == old(self).clients@.insert(
                conn_id@,
                Client { observed_addr: from, qad_sent: false, ..old(self).clients@[conn_id@] },
            ),
            !changed ==> final(self).clients@ == old(self).clients@,
            final(self).registry == old(self).registry,
            final(self).sessions == old(self).sessions,
            final(self).cid_aliases == old(self).cid_aliases,
            final(self).require_client_cert == old(self).require_client_cert,
    {
        match self.clients.get_mut(conn_id) {
            Some(c) => {
                if c.observed_addr != from {
                    c.observed_addr = from;
                    c.qad_sent = false;
                    true
                } else {
                    false
                }
            },
            None => false,
        }
    }

    /// Handles a registration datagram from `conn_id`; returns the answer to
    /// send, if any (see `spec_registration`).
    pub fn handle_registration(&mut self, conn_id: &Vec<u8>, dgram: &[u8]) -> (reply: Option<Vec<u8>>)
        requires
            old(self).wf(),
        ensures
            final(self).wf(),
            Self::spec_registration(*old(self), *final(self), conn_id@, dgram@, match reply {
                Some(v) => Some(v@),
                None => None,
            }),
    {
        let (client_type, service_id) = match parse_registration(dgram) {
            RegistrationRequest::Ignored => {
                return None;
            },
            RegistrationRequest::InvalidServiceId => {
                return Some(registration_nack(&[], NACK_INVALID));
            },
            RegistrationRequest::Valid(t, s) => (t, s),
        };
        if self.require_client_cert {
            match self.clients.get(conn_id) {
                Some(client) => match &client.authenticated_services {
                    Some(services) => {
                        if services.len() > 0 {
                            let identity = ClientIdentity {
                                common_name: match &client.authenticated_identity {
                                    Some(n) => n.clone(),
                                    None => String::new(),
                                },
                                authorized_services: Some(crate::server::registry::clone_strings(services)),
                            };
                            if !is_authorized_for_service(&identity, service_id.as_str(), &client_type) {
                                return Some(registration_nack(service_id.as_str().as_bytes(), NACK_DENIED));
                            }
                        }
                    },
                    None => {},
                },
                None => {},
            }
        }
        let ghost pre_clients = self.clients@;
        match self.clients.get_mut(conn_id) {
            Some(c) => {
                c.client_type = Some(client_type);
                c.registered_id = Some(service_id.clone());
            },
            None => {},
        }
        let ack = registration_ack(service_id.as_str());
        let conn = copy_range(conn_id.as_slice(), 0, conn_id.len());
        assert(conn@ =~= conn_id@);
        self.registry.register(conn, client_type, service_id);
        Some(ack)
    }

    /// Where a service-routed datagram `[0x2F, id_len, service_id..., packet...]`
    /// from `from` goes: to the Connector of the service, when the sender is
    /// a registered Agent for it.
    pub fn route_service_datagram(&self, from: &Vec<u8>, dgram: &[u8]) -> (r: ServiceRoute)
        requires
            self.wf(),
        ensures
            Self::spec_service_route(*self, from@, dgram@, r),
    {
        if dgram.len() < 3 {
            return ServiceRoute::Malformed;
        }
        let id_len = dgram[1] as usize;
        if dgram.len() < 2 + id_len {
            return ServiceRoute::Malformed;
        }
        let service_id = match string_from_utf8(copy_range(dgram, 2, 2 + id_len)) {
            Some(s) => s,
            None => {
                return ServiceRoute::Malformed;
            },
        };
        if !self.registry.is_agent_for_service(from, service_id.as_str()) {
            return ServiceRoute::Unauthorized;
        }
        match self.registry.find_connector_for_service(service_id.as_str()) {
            Some(dest) => ServiceRoute::Forward { dest, packet: copy_range(dgram, 2 + id_len, dgram.len()) },
            None => ServiceRoute::NoConnector,
        }
    }

    /// What `route_service_datagram` gives (see there).
    pub open spec fn spec_service_route(s: RelayState, from: Seq<u8>, d: Seq<u8>, r: ServiceRoute) -> bool {
        if d.len() < 3 || d.len() < 2 + d[1] || !vstd::utf8::valid_utf8(d.subrange(2, 2 + d[1] as int)) {
            r is Malformed
        } else {
            let service = vstd::utf8::decode_utf8(d.subrange(2, 2 + d[1] as int));
            if !(exists|i: int| #[trigger] agent_at(s.registry@.agents, i, from) && s.registry@.agents[i].1.contains(service)) {
                r is Unauthorized
            } else if !s.registry@.connectors.contains_key(service) {
                r is NoConnector
            } else {
                r matches ServiceRoute::Forward { dest, packet } && dest@ == s.registry@.connectors[service]
                    && packet@ == d.subrange(2 + d[1] as int, d.len() as int)
            }
        }
    }

    /// Where a raw datagram from `from` goes (see `Registry::find_destination`).
    pub fn route_datagram(&self, from: &Vec<u8>) -> (r: Option<Vec<u8>>)
        requires
            self.wf(),
        ensures
            Registry::spec_find_destination(self.registry@, from@, match r {
                Some(v) => Some(v@),
                None => None,
            }),
    {
        self.registry.find_destination(from)
    }

    /// Handles a signaling message from `from` now (see
    /// `handle_signaling_message_at`).
    pub fn handle_signaling_message(&mut self, from: &Vec<u8>, stream_id: u64, msg: SignalingMessage) -> (out: Vec<(Vec<u8>, SignalingMessage)>)
        requires
            old(self).wf(),
        ensures
            final(self).wf(),
            exists|now: u64| Self::spec_signaling(*old(self), *final(self), from@, stream_id, msg, now, out_view(out@)),
    {
        self.handle_signaling_message_at(from, stream_id, msg, now_ms())
    }

    /// What `handle_signaling_message_at` does. An offer for a service with a
    /// Connector opens a session and goes to the Connector; without one, the
    /// sender gets a NoConnectorAvailable error. An answer completes its
    /// session (or the sender gets a SessionNotFound error). A punching
    /// result goes to the sender's peer in the session. An error for a
    /// session goes to the sender's peer, and the session ends. A start
    /// signal from a client is ignored.
    pub open spec fn spec_signaling(
        pre: RelayState,
        post: RelayState,
        from: Seq<u8>,
        stream_id: u64,
        msg: SignalingMessage,
        now: u64,
        out: Seq<(Seq<u8>, SignalingMessage)>,
    ) -> bool {
        &&& post.clients == pre.clients
        &&& post.registry == pre.registry
        &&& post.cid_aliases == pre.cid_aliases
        &&& post.require_client_cert == pre.require_client_cert
        &&& match msg {
            SignalingMessage::CandidateOffer { session_id, service_id, candidates } => {
                if pre.registry@.connectors.contains_key(service_id@) {
                    &&& SessionManager::spec_created(pre.sessions, post.sessions, session_id, service_id@, from, candidates@, now)
                    &&& out.len() == 1
                    &&& out[0].0 == pre.registry@.connectors[service_id@]
                    &&& out[0].1 matches SignalingMessage::CandidateOffer { session_id: s, service_id: v, candidates: c }
                    &&& s == session_id && v@ == service_id@ && c@ == candidates@
                } else {
                    &&& post.sessions == pre.sessions
                    &&& out.len() == 1
                    &&& out[0].0 == from
                    &&& is_error_message(out[0].1, Some(session_id), SignalingError::NoConnectorAvailable, no_connector_text(service_id@))
                }
            },
            SignalingMessage::CandidateAnswer { session_id, candidates } => {
                if pre.sessions.spec_sessions().contains_key(session_id) {
                    &&& out.len() == 0
                    &&& post.sessions.spec_sessions().contains_key(session_id)
                    &&& is_answered(pre.sessions.spec_sessions()[session_id], post.sessions.spec_sessions()[session_id], from, candidates@, stream_id)
                    &&& post.sessions.spec_sessions() == pre.sessions.spec_sessions().insert(session_id, post.sessions.spec_sessions()[session_id])
                    &&& post.sessions.spec_ids() == pre.sessions.spec_ids()
                    &&& post.sessions.spec_pending() == pre.sessions.spec_pending()
                } else {
                    &&& post.sessions == pre.sessions
                    &&& out.len() == 1
                    &&& out[0].0 == from
                    &&& is_error_message(out[0].1, Some(session_id), SignalingError::SessionNotFound, session_not_found_text(session_id))
                }
            },
            SignalingMessage::PunchingResult { session_id, success, working_address } => {
                &&& post.sessions == pre.sessions
                &&& if pre.sessions.spec_sessions().contains_key(session_id) && session_peer(pre.sessions.spec_sessions()[session_id], from) is Some {
                    &&& out.len() == 1
                    &&& out[0].0 == session_peer(pre.sessions.spec_sessions()[session_id], from)->0
                    &&& out[0].1 == (SignalingMessage::PunchingResult { session_id, success, working_address })
                } else {
                    out.len() == 0
                }
            },
            SignalingMessage::StartPunching { .. } => post.sessions == pre.sessions && out.len() == 0,
            SignalingMessage::Error { session_id, code, message } => {
                match session_id {
                    None => post.sessions == pre.sessions && out.len() == 0,
                    Some(sid) => {
                        &&& post.sessions.spec_sessions() == pre.sessions.spec_sessions().remove(sid)
                        &&& post.sessions.spec_pending() == if pre.sessions.spec_sessions().contains_key(sid) {
                            pre.sessions.spec_pending().remove(pre.sessions.spec_sessions()[sid].service_id@)
                        } else {
                            pre.sessions.spec_pending()
                        }
                        &&& if pre.sessions.spec_sessions().contains_key(sid) && session_peer(pre.sessions.spec_sessions()[sid], from) is Some {
                            &&& out.len() == 1
                            &&& out[0].0 == session_peer(pre.sessions.spec_sessions()[sid], from)->0
                            &&& is_error_message(out[0].1, Some(sid), code, message@)
                        } else {
                            out.len() == 0
                        }
                    },
                }
            },
        }
    }

    /// A punching result or an error for a known session, from its Agent,
    /// goes alone to the Connector that answered the session (nowhere while
    /// none has); from anyone else it goes to the session's Agent. A
    /// punching result is passed on unchanged.
    pub proof fn lemma_results_reach_the_peer(
        pre: RelayState,
        post: RelayState,
        from: Seq<u8>,
        stream_id: u64,
        msg: SignalingMessage,
        now: u64,
        out: Seq<(Seq<u8>, SignalingMessage)>,
        sid: u64,
    )
        requires
            Self::spec_signaling(pre, post, from, stream_id, msg, now, out),
            msg is PunchingResult || msg is Error,
            crate::p2p::signaling::spec_message_session_id(msg) == Some(sid),
            pre.sessions.spec_sessions().contains_key(sid),
        ensures
            ({
                let s = pre.sessions.spec_sessions()[sid];
                &&& from == s.agent_conn_id@ && s.connector_conn_id is Some ==> out.len() == 1 && out[0].0
                    == s.connector_conn_id->0@
                &&& from == s.agent_conn_id@ && s.connector_conn_id is None ==> out.len() == 0
                &&& from != s.agent_conn_id@ ==> out.len() == 1 && out[0].0 == s.agent_conn_id@
                &&& msg is PunchingResult && out.len() == 1 ==> out[0].1 == msg
            }),
    {
    }

    /// Handles a signaling message from `from` received at `now` on
    /// `stream_id`; returns the messages to send and their destinations.
    pub fn handle_signaling_message_at(
        &mut self,
        from: &Vec<u8>,
        stream_id: u64,
        msg: SignalingMessage,
        now: u64,
    ) -> (out: Vec<(Vec<u8>, SignalingMessage)>)
        requires
            old(self).wf(),
        ensures
            final(self).wf(),
            Self::spec_signaling(*old(self), *final(self), from@, stream_id, msg, now, out_view(out@)),
    {
        let mut out: Vec<(Vec<u8>, SignalingMessage)> = Vec::new();
        let from_copy = copy_range(from.as_slice(), 0, from.len());
        assert(from_copy@ =~= from@);
        match msg {
            SignalingMessage::CandidateOffer { session_id, service_id, candidates } => {
                match self.registry.find_connector_for_service(service_id.as_str()) {
                    Some(connector) => {
                        let forwarded = clone_candidates(&candidates);
                        self.sessions.create_session_at(session_id, service_id.clone(), from_copy, candidates, now);
                        out.push((connector, SignalingMessage::CandidateOffer { session_id, service_id, candidates: forwarded }));
                    },
                    None => {
                        let mut text = String::from_str("No Connector available for service '");
                        push_str(&mut text, service_id.as_str());
                        push_str(&mut text, "'");
                        proof {
                            reveal_strlit("No Connector available for service '");
                            reveal_strlit("'");
                        }
                        assert(text@ =~= no_connector_text(service_id@));
                        out.push((from_copy, SignalingMessage::Error {
                            session_id: Some(session_id),
                            code: SignalingError::NoConnectorAvailable,
                            message: text,
                        }));
                    },
                }
            },
            SignalingMessage::CandidateAnswer { session_id, candidates } => {
                match self.sessions.get_session_mut(session_id) {
                    Some(session) => {
                        session.set_connector_answer(from_copy, candidates, stream_id);
                    },
                    None => {
                        let mut text = String::from_str("Session ");
                        push_decimal(&mut text, session_id);
                        push_str(&mut text, " not found");
                        proof {
                            reveal_strlit("Session ");
                            reveal_strlit(" not found");
                        }
                        assert(text@ =~= session_not_found_text(session_id));
                        out.push((from_copy, SignalingMessage::Error {
                            session_id: Some(session_id),
                            code: SignalingError::SessionNotFound,
                            message: text,
                        }));
                    },
                }
            },
            SignalingMessage::PunchingResult { session_id, success, working_address } => {
                match self.peer_of(session_id, from) {
                    Some(peer) => {
                        out.push((peer, SignalingMessage::PunchingResult { session_id, success, working_address }));
                    },
                    None => {},
                }
            },
            SignalingMessage::StartPunching { .. } => {},
            SignalingMessage::Error { session_id, code, message } => {
                match session_id {
                    Some(sid) => {
                        match self.peer_of(sid, from) {
                            Some(peer) => {
                                out.push((peer, SignalingMessage::Error { session_id, code, message }));
                            },
                            None => {},
                        }
                        self.sessions.remove_session(sid);
                    },
                    None => {},
                }
            },
        }
        out
    }

    /// The peer of `from` in a session, if the session exists and has one.
    fn peer_of(&self, session_id: u64, from: &Vec<u8>) -> (r: Option<Vec<u8>>)
        requires
            self.wf(),
        ensures
            match r {
                Some(p) => self.sessions.spec_sessions().contains_key(session_id) && session_peer(
                    self.sessions.spec_sessions()[session_id],
                    from@,
                ) == Some(p@),
                None => !self.sessions.spec_sessions().contains_key(session_id) || session_peer(
                    self.sessions.spec_sessions()[session_id],
                    from@,
                ) is None,
            },
    {
        match self.sessions.get_session(session_id) {
            Some(session) => {
                if bytes_eq(from.as_slice(), session.agent_conn_id.as_slice()) {
                    match &session.connector_conn_id {
                        Some(c) => {
                            let r = copy_range(c.as_slice(), 0, c.len());
                            assert(r@ =~= c@);
                            Some(r)
                        },
                        None => None,
                    }
                } else {
                    let r = copy_range(session.agent_conn_id.as_slice(), 0, session.agent_conn_id.len());
                    assert(r@ =~= session.agent_conn_id@);
                    Some(r)
                }
            },
            None => None,
        }
    }

    /// Sends the start signal of every session that is ready to punch, in
    /// order of creation (see `spec_ready_sessions`).
    pub fn process_ready_sessions(&mut self) -> (out: Vec<(Vec<u8>, SignalingMessage)>)
        requires
            old(self).wf(),
        ensures
            final(self).wf(),
            Self::spec_ready_sessions(*old(self), *final(self), out_view(out@)),
    {
        let ghost pre = self.sessions.spec_sessions();
        let ghost ids = self.sessions.spec_ids();
        proof {
            self.sessions.lemma_ids();
        }
        let list = self.sessions.sessions_iter();
        let mut ready: Vec<(u64, Vec<u8>, Vec<u8>, Vec<Candidate>, Vec<Candidate>)> = Vec::new();
        let mut i: usize = 0;
        while i < list.len()
            invariant
                list@.len() == ids.len(),
                forall|k: int| 0 <= k < list@.len() ==> (#[trigger] list@[k]).0 == ids[k] && *list@[k].1 == pre[ids[k]],
                i <= ids.len(),
                ready_view(ready@) == ready_entries(pre, ids.subrange(0, i as int)),
            decreases ids.len() - i,
        {
            let (id, session) = list[i];
            proof {
                assert(ids.subrange(0, i + 1).drop_last() =~= ids.subrange(0, i as int));
                assert(ids.subrange(0, i + 1).last() == id);
            }
            if session.state == SessionState::ReadyToPunch {
                match (&session.connector_conn_id, &session.connector_candidates) {
                    (Some(c), Some(cc)) => {
                        let agent = copy_range(session.agent_conn_id.as_slice(), 0, session.agent_conn_id.len());
                        let connector = copy_range(c.as_slice(), 0, c.len());
                        assert(agent@ =~= session.agent_conn_id@);
                        assert(connector@ =~= c@);
                        ready.push((id, agent, connector, clone_candidates(&session.agent_candidates), clone_candidates(cc)));
                        assert(ready_view(ready@) =~= ready_entries(pre, ids.subrange(0, i + 1)));
                    },
                    _ => {
                        assert(ready_view(ready@) =~= ready_entries(pre, ids.subrange(0, i + 1)));
                    },
                }
            } else {
                assert(ready_view(ready@) =~= ready_entries(pre, ids.subrange(0, i + 1)));
            }
            i = i + 1;
        }
        assert(ids.subrange(0, i as int) =~= ids);
        let ghost entries = ready_entries(pre, ids);
        proof {
            lemma_ready_entries_in(pre, ids);
        }
        let mut out: Vec<(Vec<u8>, SignalingMessage)> = Vec::new();
        let mut j: usize = 0;
        while j < ready.len()
            invariant
                self.wf(),
                ready_view(ready@) == entries,
                entries == ready_entries(pre, ids),
                j <= ready@.len(),
                out@.len() == 2 * j,
                forall|k: int| 0 <= k < j ==> #[trigger] start_pair(out_view(out@), k, entries[k]),
                self.sessions.spec_sessions() == punched(pre, entries.subrange(0, j as int)),
                self.sessions.spec_ids() == ids,
                self.sessions.spec_pending() == old(self).sessions.spec_pending(),
                self.clients == old(self).clients,
                self.registry == old(self).registry,
                self.cid_aliases == old(self).cid_aliases,
                self.require_client_cert == old(self).require_client_cert,
                forall|k: int| 0 <= k < entries.len() ==> pre.contains_key(#[trigger] entries[k].0),
            decreases ready@.len() - j,
        {
            let (id, agent, connector, agent_candidates, connector_candidates) = (
                ready[j].0,
                copy_range(ready[j].1.as_slice(), 0, ready[j].1.len()),
                copy_range(ready[j].2.as_slice(), 0, ready[j].2.len()),
                clone_candidates(&ready[j].3),
                clone_candidates(&ready[j].4),
            );
            proof {
                assert(ready_view(ready@)[j as int] == entries[j as int]);
                assert(agent@ =~= entries[j as int].1);
                assert(connector@ =~= entries[j as int].2);
                assert(agent_candidates@ == entries[j as int].3);
                assert(connector_candidates@ == entries[j as int].4);
            }
            let ghost before = out@;
            out.push((agent, SignalingMessage::StartPunching {
                session_id: id,
                start_delay_ms: PUNCH_START_DELAY_MS,
                peer_candidates: connector_candidates,
            }));
            out.push((connector, SignalingMessage::StartPunching {
                session_id: id,
                start_delay_ms: PUNCH_START_DELAY_MS,
                peer_candidates: agent_candidates,
            }));
            proof {
                assert(ready_view(ready@)[j as int] == entries[j as int]);
                assert forall|k: int| 0 <= k < j + 1 implies #[trigger] start_pair(out_view(out@), k, entries[k]) by {
                    if k < j {
                        assert(out_view(out@)[2 * k] == out_view(before)[2 * k]);
                        assert(out_view(out@)[2 * k + 1] == out_view(before)[2 * k + 1]);
                        assert(start_pair(out_view(before), k, entries[k]));
                    }
                }
            }
            let ghost mid = self.sessions.spec_sessions();
            assert(id == entries[j as int].0);
            assert(pre.contains_key(entries[j as int].0));
            assert(mid.contains_key(id));
            match self.sessions.get_session_mut(id) {
                Some(s) => {
                    s.state = SessionState::Punching;
                },
                None => {},
            }
            proof {
                let done2 = entries.subrange(0, j + 1);
                assert(done2[j as int].0 == id);
                assert(self.sessions.spec_sessions()[id] == SignalingSession { state: SessionState::Punching, ..pre[id] });
                assert(entries.subrange(0, j + 1) =~= entries.subrange(0, j as int).push(entries[j as int]));
                assert(self.sessions.spec_sessions() =~= punched(pre, entries.subrange(0, j + 1)));
            }
            j = j + 1;
        }
        assert(entries.subrange(0, j as int) =~= entries);
        out
    }

    /// What `process_ready_sessions` does: for each session that is ready to
    /// punch with the Connector's id and candidates, in order of creation,
    /// the Agent gets a start signal with the Connector's candidates and the
    /// Connector one with the Agent's; those sessions are then punching.
    pub open spec fn spec_ready_sessions(pre: RelayState, post: RelayState, out: Seq<(Seq<u8>, SignalingMessage)>) -> bool {
        let entries = ready_entries(pre.sessions.spec_sessions(), pre.sessions.spec_ids());
        &&& out.len() == 2 * entries.len()
        &&& forall|k: int| 0 <= k < entries.len() ==> #[trigger] start_pair(out, k, entries[k])
        &&& post.sessions.spec_sessions() == punched(pre.sessions.spec_sessions(), entries)
        &&& post.sessions.spec_ids() == pre.sessions.spec_ids()
        &&& post.sessions.spec_pending() == pre.sessions.spec_pending()
        &&& post.clients == pre.clients
        &&& post.registry == pre.registry
        &&& post.cid_aliases == pre.cid_aliases
        &&& post.require_client_cert == pre.require_client_cert
    }

    /// Records a rotated connection id `new_cid` of the connection
    /// `canonical`; of its aliases, only the newest four are kept (see
    /// `stale_aliases`).
    pub fn add_cid_alias(&mut self, new_cid: Vec<u8>, canonical: &Vec<u8>)
        requires
            old(self).wf(),
        ensures
            final(self).wf(),
            alias_map_view(final(self).cid_aliases@) == alias_map_view(old(self).cid_aliases@).insert(
                new_cid@,
                canonical@,
            ).remove_keys(stale_aliases(with_alias(alias_view(old(self).cid_aliases.spec_entries()), new_cid@, canonical@), canonical@)),
            aliases_of(alias_map_view(final(self).cid_aliases@), canonical@).finite(),
            aliases_of(alias_map_view(final(self).cid_aliases@), canonical@).len() <= MAX_CID_ALIASES,
            final(self).clients == old(self).clients,
            final(self).registry == old(self).registry,
            final(self).sessions == old(self).sessions,
            final(self).require_client_cert == old(self).require_client_cert,
    {
        let ghost pre = self.cid_aliases.spec_entries();
        let ghost gk = new_cid;
        let ghost can = canonical@;
        let value = copy_range(canonical.as_slice(), 0, canonical.len());
        assert(value@ =~= can);
        let ghost gv = value;
        self.cid_aliases.insert(new_cid, value);
        let ghost e1 = self.cid_aliases.spec_entries();
        let ghost v1 = alias_view(e1);
        proof {
            lemma_with_alias(pre, e1, gk, gv);
            assert(alias_map_view(self.cid_aliases@) =~= alias_map_view(old(self).cid_aliases@).insert(gk@, can));
        }
        let n = self.cid_aliases.len();
        let mut count: usize = 0;
        let mut i: usize = 0;
        while i < n
            invariant
                n == e1.len(),
                e1 == self.cid_aliases.spec_entries(),
                v1 == alias_view(e1),
                i <= n,
                count == count_aliases(v1.subrange(0, i as int), can),
                count <= i,
                can == canonical@,
            decreases n - i,
        {
            let (_k, v) = self.cid_aliases.entry_at(i);
            proof {
                assert(v1.subrange(0, i + 1).drop_last() =~= v1.subrange(0, i as int));
                assert(v1[i as int].1 == v@);
            }
            if bytes_eq(v.as_slice(), canonical.as_slice()) {
                count = count + 1;
            }
            i = i + 1;
        }
        assert(v1.subrange(0, n as int) =~= v1);
        let ghost stale_set = stale_aliases(v1, can);
        if count <= MAX_CID_ALIASES {
            proof {
                assert(stale_set =~= Set::<Seq<u8>>::empty()) by {
                    assert forall|key: Seq<u8>| !stale_set.contains(key) by {
                        lemma_count_aliases_nonneg(v1, can);
                        if stale_set.contains(key) {
                            let k = choose|k: int|
                                0 <= k < v1.len() && #[trigger] v1[k].0 == key && v1[k].1 == can && count_aliases(v1.subrange(0, k), can)
                                    < count_aliases(v1, can) - MAX_CID_ALIASES;
                            lemma_count_aliases_nonneg(v1.subrange(0, k), can);
                        }
                    }
                }
                assert(alias_map_view(self.cid_aliases@).remove_keys(stale_set) =~= alias_map_view(self.cid_aliases@));
                lemma_aliases_bounded(e1, can);
            }
            return;
        }
        let excess = count - MAX_CID_ALIASES;
        let mut stale: Vec<Vec<u8>> = Vec::new();
        let mut seen: usize = 0;
        let mut i: usize = 0;
        while i < n
            invariant
                n == e1.len(),
                e1 == self.cid_aliases.spec_entries(),
                v1 == alias_view(e1),
                i <= n,
                seen == count_aliases(v1.subrange(0, i as int), can),
                seen <= i,
                excess == count_aliases(v1, can) - MAX_CID_ALIASES,
                can == canonical@,
                forall|key: Seq<u8>| bytes_views(stale@).contains(key) <==> exists|k: int|
                    0 <= k < i && #[trigger] v1[k].0 == key && v1[k].1 == can && count_aliases(v1.subrange(0, k), can) < excess,
            decreases n - i,
        {
            let (k, v) = self.cid_aliases.entry_at(i);
            let ghost before = stale@;
            proof {
                assert(v1.subrange(0, i + 1).drop_last() =~= v1.subrange(0, i as int));
                assert(v1[i as int].1 == v@);
                assert(v1[i as int].0 == k@);
            }
            if bytes_eq(v.as_slice(), canonical.as_slice()) {
                if seen < excess {
                    stale.push(copy_range(k.as_slice(), 0, k.len()));
                }
                seen = seen + 1;
            }
            proof {
                assert forall|key: Seq<u8>| bytes_views(stale@).contains(key) <==> exists|m: int|
                    0 <= m < i + 1 && #[trigger] v1[m].0 == key && v1[m].1 == can && count_aliases(v1.subrange(0, m), can) < excess by {
                    if bytes_views(stale@).contains(key) {
                        let p = choose|p: int| 0 <= p < stale@.len() && #[trigger] bytes_views(stale@)[p] == key;
                        if p < before.len() {
                            assert(bytes_views(before)[p] == key);
                            assert(bytes_views(before).contains(key));
                        } else {
                            assert(v1[i as int].0 == key);
                        }
                    }
                    if exists|m: int| 0 <= m < i + 1 && #[trigger] v1[m].0 == key && v1[m].1 == can && count_aliases(v1.subrange(0, m), can) < excess {
                        let m = choose|m: int| 0 <= m < i + 1 && #[trigger] v1[m].0 == key && v1[m].1 == can && count_aliases(v1.subrange(0, m), can) < excess;
                        if m < i {
                            assert(bytes_views(before).contains(key));
                            let p = choose|p: int| 0 <= p < before.len() && #[trigger] bytes_views(before)[p] == key;
                            assert(bytes_views(stale@)[p] == key);
                        } else {
                            let p = stale@.len() - 1;
                            assert(bytes_views(stale@)[p] == key);
                        }
                    }
                }
            }
            i = i + 1;
        }
        assert(v1.subrange(0, n as int) =~= v1);
        let ghost sv = bytes_views(stale@);
        assert(sv.to_set() =~= stale_set) by {
            assert forall|key: Seq<u8>| sv.to_set().contains(key) <==> stale_set.contains(key) by {
                assert(sv.to_set().contains(key) <==> sv.contains(key));
            }
        }
        let ghost m1 = alias_map_view(self.cid_aliases@);
        let mut j: usize = 0;
        while j < stale.len()
            invariant
                self.cid_aliases.wf(),
                j <= stale@.len(),
                sv == bytes_views(stale@),
                alias_map_view(self.cid_aliases@) == m1.remove_keys(sv.subrange(0, j as int).to_set()),
                self.clients == old(self).clients,
                self.registry == old(self).registry,
                self.sessions == old(self).sessions,
                self.require_client_cert == old(self).require_client_cert,
            decreases stale@.len() - j,
        {
            let ghost done = sv.subrange(0, j as int).to_set();
            proof {
                assert(sv.subrange(0, j + 1) =~= sv.subrange(0, j as int).push(sv[j as int]));
                sv.subrange(0, j as int).lemma_push_to_set_commute(sv[j as int]);
            }
            let ghost prev = alias_map_view(self.cid_aliases@);
            assert(sv[j as int] == stale@[j as int]@);
            self.cid_aliases.remove(&stale[j]);
            assert(alias_map_view(self.cid_aliases@) =~= prev.remove(sv[j as int]));
            assert(sv.subrange(0, j + 1).to_set() =~= sv.subrange(0, j as int).to_set().insert(sv[j as int]));
            assert(alias_map_view(self.cid_aliases@) =~= m1.remove_keys(sv.subrange(0, j + 1).to_set()));
            j = j + 1;
        }
        assert(sv.subrange(0, j as int) =~= sv);
        proof {
            lemma_aliases_bounded(e1, can);
        }
    }

    /// Forgets a closed connection: it leaves the registry and the clients,
    /// and the rotated ids that pointed to it go.
    pub fn remove_client(&mut self, conn_id: &Vec<u8>)
        requires
            old(self).wf(),
        ensures
            final(self).wf(),
            crate::server::registry::spec_unregister(old(self).registry@, final(self).registry@, conn_id@),
            final(self).clients@ == old(self).clients@.remove(conn_id@),
            alias_map_view(final(self).cid_aliases@) == alias_map_view(old(self).cid_aliases@).remove_keys(
                Set::new(|k: Seq<u8>| old(self).cid_aliases@.contains_key(k) && old(self).cid_aliases@[k]@ == conn_id@),
            ),
            final(self).sessions == old(self).sessions,
            final(self).require_client_cert == old(self).require_client_cert,
    {
        self.registry.unregister(conn_id);
        self.clients.remove(conn_id);
        let ghost reg1 = self.registry;
        let ghost m0 = self.cid_aliases@;
        let ghost gone = Set::new(|k: Seq<u8>| m0.contains_key(k) && m0[k]@ == conn_id@);
        let mut stale: Vec<Vec<u8>> = Vec::new();
        let n = self.cid_aliases.len();
        let ghost e = self.cid_aliases.spec_entries();
        let mut i: usize = 0;
        while i < n
            invariant
                n == e.len(),
                e == self.cid_aliases.spec_entries(),
                m0 == self.cid_aliases@,
                self.cid_aliases.wf(),
                self.registry == reg1,
                self.registry.wf(),
                self.sessions == old(self).sessions,
                self.require_client_cert == old(self).require_client_cert,
                self.clients@ == old(self).clients@.remove(conn_id@),
                self.clients.wf(),
                forall|k: Seq<u8>| self.clients@.contains_key(k) ==> (#[trigger] self.clients@[k]).wf(),
                i <= n,
                forall|key: Seq<u8>| bytes_views(stale@).contains(key) <==> exists|k: int|
                    0 <= k < i && #[trigger] e[k].0@ == key && e[k].1@ == conn_id@,
            decreases n - i,
        {
            let (k, v) = self.cid_aliases.entry_at(i);
            let ghost before = stale@;
            if bytes_eq(v.as_slice(), conn_id.as_slice()) {
                stale.push(copy_range(k.as_slice(), 0, k.len()));
            }
            proof {
                assert forall|key: Seq<u8>| bytes_views(stale@).contains(key) <==> exists|m: int|
                    0 <= m < i + 1 && #[trigger] e[m].0@ == key && e[m].1@ == conn_id@ by {
                    if bytes_views(stale@).contains(key) {
                        let p = choose|p: int| 0 <= p < stale@.len() && #[trigger] bytes_views(stale@)[p] == key;
                        if p < before.len() {
                            assert(bytes_views(before)[p] == key);
                            assert(bytes_views(before).contains(key));
                        } else {
                            assert(e[i as int].0@ == key);
                        }
                    }
                    if exists|m: int| 0 <= m < i + 1 && #[trigger] e[m].0@ == key && e[m].1@ == conn_id@ {
                        let m = choose|m: int| 0 <= m < i + 1 && #[trigger] e[m].0@ == key && e[m].1@ == conn_id@;
                        if m < i {
                            assert(bytes_views(before).contains(key));
                            let p = choose|p: int| 0 <= p < before.len() && #[trigger] bytes_views(before)[p] == key;
                            assert(bytes_views(stale@)[p] == key);
                        } else {
                            let p = stale@.len() - 1;
                            assert(bytes_views(stale@)[p] == key);
                        }
                    }
                }
            }
            i = i + 1;
        }
        let ghost sv = bytes_views(stale@);
        assert(sv.to_set() =~= gone) by {
            assert forall|key: Seq<u8>| sv.to_set().contains(key) <==> gone.contains(key) by {
                assert(sv.to_set().contains(key) <==> sv.contains(key));
                if gone.contains(key) {
                    crate::vecmap::lemma_entries_map_key(e, key);
                }
                if sv.contains(key) {
                    let k = choose|k: int| 0 <= k < n && #[trigger] e[k].0@ == key && e[k].1@ == conn_id@;
                    lemma_entries_map_at(e, k);
                }
            }
        }
        let ghost m1 = alias_map_view(self.cid_aliases@);
        let mut j: usize = 0;
        while j < stale.len()
            invariant
                self.cid_aliases.wf(),
                self.registry == reg1,
                self.registry.wf(),
                self.sessions == old(self).sessions,
                self.require_client_cert == old(self).require_client_cert,
                self.clients@ == old(self).clients@.remove(conn_id@),
                self.clients.wf(),
                forall|k: Seq<u8>| self.clients@.contains_key(k) ==> (#[trigger] self.clients@[k]).wf(),
                j <= stale@.len(),
                sv == bytes_views(stale@),
                alias_map_view(self.cid_aliases@) == m1.remove_keys(sv.subrange(0, j as int).to_set()),
            decreases stale@.len() - j,
        {
            proof {
                assert(sv.subrange(0, j + 1) =~= sv.subrange(0, j as int).push(sv[j as int]));
                sv.subrange(0, j as int).lemma_push_to_set_commute(sv[j as int]);
            }
            let ghost prev = alias_map_view(self.cid_aliases@);
            assert(sv[j as int] == stale@[j as int]@);
            self.cid_aliases.remove(&stale[j]);
            assert(alias_map_view(self.cid_aliases@) =~= prev.remove(sv[j as int]));
            assert(sv.subrange(0, j + 1).to_set() =~= sv.subrange(0, j as int).to_set().insert(sv[j as int]));
            assert(alias_map_view(self.cid_aliases@) =~= m1.remove_keys(sv.subrange(0, j + 1).to_set()));
            j = j + 1;
        }
        assert(sv.subrange(0, j as int) =~= sv);
        assert(alias_map_view(self.cid_aliases@) =~= alias_map_view(old(self).cid_aliases@).remove_keys(gone));
    }

    /// Marks that the observed address was sent to a client.
    pub fn mark_qad_sent(&mut self, conn_id: &Vec<u8>)
        requires
            old(self).wf(),
        ensures
            final(self).wf(),
            old(self).clients@.contains_key(conn_id@) ==> final(self).clients@ == old(self).clients@.insert(
                conn_id@,
                Client { qad_sent: true, ..old(self).clients@[conn_id@] },
            ),
            !old(self).clients@.contains_key(conn_id@) ==> final(self).clients@ == old(self).clients@,
            final(self).registry == old(self).registry,
            final(self).sessions == old(self).sessions,
            final(self).cid_aliases == old(self).cid_aliases,
            final(self).require_client_cert == old(self).require_client_cert,
    {
        match self.clients.get_mut(conn_id) {
            Some(c) => {
                c.qad_sent = true;
            },
            None => {},
        }
    }

    /// Authenticates an established client from its peer certificate, if it
    /// sent one: a certificate that names a Common Name gives the client its
    /// identity; otherwise, when certificates are required, the result is
    /// the reason to close the connection with ("invalid client cert", or
    /// "client cert required" without a certificate).
    pub fn authenticate(&mut self, conn_id: &Vec<u8>, peer_cert: Option<&[u8]>) -> (close: Option<&'static str>)
        requires
            old(self).wf(),
        ensures
            final(self).wf(),
            final(self).registry == old(self).registry,
            final(self).sessions == old(self).sessions,
            final(self).cid_aliases == old(self).cid_aliases,
            final(self).require_client_cert == old(self).require_client_cert,
            match peer_cert {
                None => final(self).clients@ == old(self).clients@ && if old(self).require_client_cert {
                    close matches Some(m) && m@ == "client cert required"@
                } else {
                    close is None
                },
                Some(der) => if x509_parses(der@) && x509_common_name(der@) is Some {
                    close is None && authenticated(old(self).clients@, final(self).clients@, conn_id@, der@)
                } else {
                    final(self).clients@ == old(self).clients@ && if old(self).require_client_cert {
                        close matches Some(m) && m@ == "invalid client cert"@
                    } else {
                        close is None
                    }
                },
            },
    {
        match peer_cert {
            Some(der) => match extract_identity(der) {
                Ok(identity) => {
                    self.set_identity(conn_id, identity);
                    None
                },
                Err(_) => {
                    if self.require_client_cert {
                        Some("invalid client cert")
                    } else {
                        None
                    }
                },
            },
            None => {
                if self.require_client_cert {
                    Some("client cert required")
                } else {
                    None
                }
            },
        }
    }

    /// Records the identity from a client's certificate.
    pub fn set_identity(&mut self, conn_id: &Vec<u8>, identity: ClientIdentity)
        requires
            old(self).wf(),
        ensures
            final(self).wf(),
            old(self).clients@.contains_key(conn_id@) ==> final(self).clients@ == old(self).clients@.insert(
                conn_id@,
                Client {
                    authenticated_identity: Some(identity.common_name),
                    authenticated_services: identity.authorized_services,
                    ..old(self).clients@[conn_id@]
                },
            ),
            !old(self).clients@.contains_key(conn_id@) ==> final(self).clients@ == old(self).clients@,
            final(self).registry == old(self).registry,
            final(self).sessions == old(self).sessions,
            final(self).cid_aliases == old(self).cid_aliases,
            final(self).require_client_cert == old(self).require_client_cert,
    {
        match self.clients.get_mut(conn_id) {
            Some(c) => {
                c.authenticated_identity = Some(identity.common_name);
                c.authenticated_services = identity.authorized_services;
            },
            None => {},
        }
    }

    /// What `handle_registration` does. Ignored datagrams get no answer; an
    /// invalid service id is refused as invalid with no id; when certificates
    /// are required and the client's certificate names services, a service
    /// outside them is refused as denied; otherwise the client records its
    /// type and service, the registry registers it, and the answer is an
    /// acknowledgement with the service id.
    pub open spec fn spec_registration(
        pre: RelayState,
        post: RelayState,
        conn: Seq<u8>,
        d: Seq<u8>,
        reply: Option<Seq<u8>>,
    ) -> bool {
        if d.len() < 2 || !(d[0] == 0x10 || d[0] == 0x11) || id_bytes(d) is None {
            reply is None && post == pre
        } else if !vstd::utf8::valid_utf8(id_bytes(d)->0) {
            reply == Some(registration_reply(REG_TYPE_NACK, NACK_INVALID, Seq::empty())) && post == pre
        } else {
            let t = if d[0] == 0x10 {
                ClientType::Agent
            } else {
                ClientType::Connector
            };
            let service = vstd::utf8::decode_utf8(id_bytes(d)->0);
            let bytes = vstd::utf8::encode_utf8(service);
            let denied = pre.require_client_cert && pre.clients@.contains_key(conn) && (
            pre.clients@[conn].authenticated_services matches Some(s) && s@.len() > 0
                && !spec_authorized_for(opt_strings(Some(s)), service, t));
            if denied {
                reply == Some(registration_reply(REG_TYPE_NACK, NACK_DENIED, bytes)) && post == pre
            } else {
                &&& reply == Some(registration_reply(REG_TYPE_ACK, 0, bytes))
                &&& crate::server::registry::spec_register(pre.registry@, post.registry@, conn, t, service)
                &&& post.clients@ == if pre.clients@.contains_key(conn) {
                    pre.clients@.insert(conn, post.clients@[conn])
                } else {
                    pre.clients@
                }
                &&& pre.clients@.contains_key(conn) ==> {
                    let c = post.clients@[conn];
                    let p = pre.clients@[conn];
                    &&& c.client_type == Some(t)
                    &&& c.registered_id matches Some(r) && r@ == service
                    &&& c.observed_addr == p.observed_addr
                    &&& c.qad_sent == p.qad_sent
                    &&& c.signaling_buffers == p.signaling_buffers
                    &&& c.authenticated_identity == p.authenticated_identity
                    &&& c.authenticated_services == p.authenticated_services
                }
                &&& post.sessions == pre.sessions
                &&& post.cid_aliases == pre.cid_aliases
                &&& post.require_client_cert == pre.require_client_cert
            }
        }
    }
}

} // verus!
