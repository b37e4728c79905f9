//! Path resilience: keepalives on the direct path and fallback to the relay.
//!
//! Keepalives are sent every 15 seconds; three missed keepalives mark the
//! direct path failed, and traffic falls back to the relay path. Times are
//! milliseconds since the Unix epoch.
use vstd::prelude::*;
use crate::bytes::{be32, from_be32, u32_from_be, u32_to_be, lemma_be32_roundtrip};
use crate::clock::{elapsed, elapsed_ms, now_ms};
use crate::net::SockAddr;

verus! {

/// Keepalive interval (15 seconds), in milliseconds.
pub const KEEPALIVE_INTERVAL: u64 = 15_000;

/// Number of missed keepalives before a path is considered failed.
pub const MISSED_KEEPALIVES_THRESHOLD: u32 = 3;

/// How long to wait for a keepalive response (5 seconds), in milliseconds.
pub const KEEPALIVE_TIMEOUT: u64 = 5_000;

/// Minimum time between recovery attempts (30 seconds), in milliseconds.
pub const FALLBACK_COOLDOWN: u64 = 30_000;

/// Keepalive request message type.
pub const KEEPALIVE_REQUEST: u8 = 0x10;

/// Keepalive response message type.
pub const KEEPALIVE_RESPONSE: u8 = 0x11;

/// Wire form of a keepalive: type byte, then the sequence number big-endian.
pub open spec fn keepalive_bytes(msg_type: u8, sequence: u32) -> Seq<u8> {
    seq![msg_type] + be32(sequence)
}

/// What `decode_keepalive` returns for some bytes.
pub open spec fn spec_decode_keepalive(data: Seq<u8>) -> Option<(bool, u32)> {
    if data.len() < 5 || (data[0] != KEEPALIVE_REQUEST && data[0] != KEEPALIVE_RESPONSE) {
        None
    } else {
        Some((data[0] == KEEPALIVE_RESPONSE, from_be32(data[1], data[2], data[3], data[4])))
    }
}

fn encode_keepalive(msg_type: u8, sequence: u32) -> (r: [u8; 5])
    ensures
        r@ == keepalive_bytes(msg_type, sequence),
{
    let b = u32_to_be(sequence);
    let r = [msg_type, b[0], b[1], b[2], b[3]];
    assert(r@ =~= keepalive_bytes(msg_type, sequence));
    r
}

/// Encodes a keepalive request.
pub fn encode_keepalive_request(sequence: u32) -> (r: [u8; 5])
    ensures
        r@ == keepalive_bytes(KEEPALIVE_REQUEST, sequence),
{
    encode_keepalive(KEEPALIVE_REQUEST, sequence)
}

/// Encodes a keepalive response.
pub fn encode_keepalive_response(sequence: u32) -> (r: [u8; 5])
    ensures
        r@ == keepalive_bytes(KEEPALIVE_RESPONSE, sequence),
{
    encode_keepalive(KEEPALIVE_RESPONSE, sequence)
}

/// Decodes a keepalive: `(is_response, sequence)`, or `None` if the data is
/// shorter than 5 bytes or of another type.
pub fn decode_keepalive(data: &[u8]) -> (r: Option<(bool, u32)>)
    ensures
        r == spec_decode_keepalive(data@),
{
    if data.len() < 5 {
        return None;
    }
    let msg_type = data[0];
    if msg_type != KEEPALIVE_REQUEST && msg_type != KEEPALIVE_RESPONSE {
        return None;
    }
    let sequence = u32_from_be(data[1], data[2], data[3], data[4]);
    Some((msg_type == KEEPALIVE_RESPONSE, sequence))
}

/// Decoding an encoded keepalive gives back its kind and sequence number.
pub proof fn lemma_keepalive_roundtrip(sequence: u32)
    ensures
        spec_decode_keepalive(keepalive_bytes(KEEPALIVE_REQUEST, sequence)) == Some((false, sequence)),
        spec_decode_keepalive(keepalive_bytes(KEEPALIVE_RESPONSE, sequence)) == Some((true, sequence)),
{
    lemma_be32_roundtrip(sequence);
}

/// State of a P2P path.
#[derive(Debug, Clone, Copy, PartialEq, Eq, Structural)]
pub enum PathState {
    /// Path is active and healthy
    Active,
    /// Some keepalives were missed
    Degraded,
    /// The missed-keepalive threshold was reached
    Failed,
    /// After a failure, trying again
    Recovering,
}

/// Information about a P2P path (times in milliseconds since the Unix epoch).
#[derive(Debug, Clone, Copy)]
pub struct PathInfo {
    /// Remote address of this path
    pub remote_addr: SockAddr,
    /// Current path state
    pub state: PathState,
    /// When the last keepalive was sent
    pub last_keepalive_sent: Option<u64>,
    /// When the last keepalive response was received
    pub last_keepalive_received: Option<u64>,
    /// Next keepalive sequence number to send
    pub next_sequence: u32,
    /// Last sequence acknowledged by a response
    pub last_acked_sequence: u32,
    /// Consecutive missed keepalives
    pub missed_keepalives: u32,
    /// Sequence number of the last keepalive counted as missed, so that each
    /// keepalive counts once however often it is checked
    pub last_missed_sequence: Option<u32>,
    /// Estimated round-trip time, in milliseconds
    pub rtt: Option<u64>,
    /// When the path was established
    pub established_at: u64,
    /// When the path last failed
    pub last_failure: Option<u64>,
}

/// Sequence number of the last keepalive sent (the one before `next`, wrapping).
pub open spec fn previous_sequence(next: u32) -> u32 {
    if next == 0 {
        u32::MAX
    } else {
        (next - 1) as u32
    }
}

/// A fresh path established at `now`.
pub open spec fn spec_new_path(addr: SockAddr, now: u64) -> PathInfo {
    PathInfo {
        remote_addr: addr,
        state: PathState::Active,
        last_keepalive_sent: None,
        last_keepalive_received: None,
        next_sequence: 1,
        last_acked_sequence: 0,
        missed_keepalives: 0,
        last_missed_sequence: None,
        rtt: None,
        established_at: now,
        last_failure: None,
    }
}

pub open spec fn spec_should_send_keepalive(p: PathInfo, now: u64) -> bool {
    p.state != PathState::Failed && match p.last_keepalive_sent {
        None => true,
        Some(last) => elapsed(last, now) >= KEEPALIVE_INTERVAL,
    }
}

/// The path after a keepalive is sent at `now`: the sequence number advances (wrapping).
pub open spec fn spec_keepalive_sent(p: PathInfo, now: u64) -> PathInfo {
    PathInfo { next_sequence: p.next_sequence.wrapping_add(1), last_keepalive_sent: Some(now), ..p }
}

/// The path after a keepalive response with `sequence` arrives at `now`.
pub open spec fn spec_keepalive_received(p: PathInfo, sequence: u32, now: u64) -> PathInfo {
    PathInfo {
        rtt: match p.last_keepalive_sent {
            Some(sent) => if sequence == previous_sequence(p.next_sequence) {
                Some(elapsed(sent, now))
            } else {
                p.rtt
            },
            None => p.rtt,
        },
        last_keepalive_received: Some(now),
        last_acked_sequence: sequence,
        missed_keepalives: 0,
        state: match p.state {
            PathState::Degraded | PathState::Recovering => PathState::Active,
            s => s,
        },
        ..p
    }
}

/// A keepalive sent at `sent` (it gets the path's next sequence number)
/// and answered at `now`, not earlier: the round trip `now - sent` is
/// measured, that keepalive is acknowledged, and the missed count clears.
pub proof fn lemma_keepalive_round_trip(p: PathInfo, sent: u64, now: u64)
    requires
        sent <= now,
    ensures
        ({
            let r = spec_keepalive_received(spec_keepalive_sent(p, sent), p.next_sequence, now);
            &&& r.rtt == Some((now - sent) as u64)
            &&& r.last_acked_sequence == p.next_sequence
            &&& r.last_keepalive_received == Some(now)
            &&& r.missed_keepalives == 0
        }),
{
}

/// Whether the last keepalive sent is unanswered and has timed out at `now`.
pub open spec fn keepalive_overdue(p: PathInfo, now: u64) -> bool {
    p.state != PathState::Failed && match p.last_keepalive_sent {
        Some(sent) => p.last_acked_sequence != previous_sequence(p.next_sequence) && elapsed(sent, now)
            >= KEEPALIVE_TIMEOUT,
        None => false,
    }
}

/// Whether the last keepalive sent is overdue at `now` and not yet counted
/// as missed.
pub open spec fn newly_missed(p: PathInfo, now: u64) -> bool {
    keepalive_overdue(p, now) && p.last_missed_sequence != Some(previous_sequence(p.next_sequence))
}

/// The path after a timeout check at `now`, and whether it just failed: an
/// overdue keepalive is counted as missed once; at the threshold of missed
/// keepalives the path fails, below it the path is degraded.
pub open spec fn spec_check_timeout(p: PathInfo, now: u64) -> (PathInfo, bool) {
    if newly_missed(p, now) {
        let missed = (p.missed_keepalives + 1) as u32;
        let counted = Some(previous_sequence(p.next_sequence));
        if missed >= MISSED_KEEPALIVES_THRESHOLD {
            (
                PathInfo {
                    missed_keepalives: missed,
                    last_missed_sequence: counted,
                    state: PathState::Failed,
                    last_failure: Some(now),
                    ..p
                },
                true,
            )
        } else {
            (PathInfo { missed_keepalives: missed, last_missed_sequence: counted, state: PathState::Degraded, ..p }, false)
        }
    } else {
        (p, false)
    }
}

/// Checking again without a new keepalive changes nothing: once the last
/// keepalive sent is overdue, a check counts it, and later checks (at any
/// time) neither count it again nor fail the path.
pub proof fn lemma_keepalive_counted_once(p: PathInfo, now1: u64, now2: u64)
    requires
        keepalive_overdue(p, now1),
    ensures
        spec_check_timeout(spec_check_timeout(p, now1).0, now2) == (spec_check_timeout(p, now1).0, false),
{
}

pub open spec fn spec_can_retry(p: PathInfo, now: u64) -> bool {
    match p.last_failure {
        None => true,
        Some(t) => elapsed(t, now) >= FALLBACK_COOLDOWN,
    }
}

/// The path after a recovery attempt at `now`.
pub open spec fn spec_start_recovery(p: PathInfo, now: u64) -> PathInfo {
    if p.state == PathState::Failed && spec_can_retry(p, now) {
        PathInfo { state: PathState::Recovering, missed_keepalives: 0, last_keepalive_sent: None, ..p }
    } else {
        p
    }
}

pub open spec fn spec_is_usable(p: PathInfo) -> bool {
    p.state != PathState::Failed
}

impl PathInfo {
    /// A new active path to `remote_addr`, established now.
    pub fn new(remote_addr: SockAddr) -> (p: PathInfo)
        ensures
            exists|now: u64| p == spec_new_path(remote_addr, now),
    {
        Self::new_at(remote_addr, now_ms())
    }

    /// A new active path to `remote_addr`, established at `now`.
    pub fn new_at(remote_addr: SockAddr, now: u64) -> (p: PathInfo)
        ensures
            p == spec_new_path(remote_addr, now),
    {
        PathInfo {
            remote_addr,
            state: PathState::Active,
            last_keepalive_sent: None,
            last_keepalive_received: None,
            next_sequence: 1,
            last_acked_sequence: 0,
            missed_keepalives: 0,
            last_missed_sequence: None,
            rtt: None,
            established_at: now,
            last_failure: None,
        }
    }

    /// Whether a keepalive should be sent now.
    pub fn should_send_keepalive(&self) -> (r: bool)
        ensures
            exists|now: u64| r == spec_should_send_keepalive(*self, now),
    {
        self.should_send_keepalive_at(now_ms())
    }

    /// Whether a keepalive should be sent at `now`: never on a failed path;
    /// otherwise if none was sent yet or the interval has elapsed.
    pub fn should_send_keepalive_at(&self, now: u64) -> (r: bool)
        ensures
            r == spec_should_send_keepalive(*self, now),
    {
        match self.state {
            PathState::Failed => false,
            _ => match self.last_keepalive_sent {
                None => true,
                Some(last) => elapsed_ms(last, now) >= KEEPALIVE_INTERVAL,
            },
        }
    }

    /// Records that a keepalive is sent now; returns its sequence number.
    pub fn record_keepalive_sent(&mut self) -> (seq: u32)
        ensures
            seq == old(self).next_sequence,
            exists|now: u64| *final(self) == spec_keepalive_sent(*old(self), now),
    {
        let now = now_ms();
        self.record_keepalive_sent_at(now)
    }

    /// Records that a keepalive is sent at `now`; returns its sequence number.
    pub fn record_keepalive_sent_at(&mut self, now: u64) -> (seq: u32)
        ensures
            seq == old(self).next_sequence,
            *final(self) == spec_keepalive_sent(*old(self), now),
    {
        let seq = self.next_sequence;
        self.next_sequence = self.next_sequence.wrapping_add(1);
        self.last_keepalive_sent = Some(now);
        seq
    }

    /// Records a keepalive response received now.
    pub fn record_keepalive_received(&mut self, sequence: u32)
        ensures
            exists|now: u64| *final(self) == spec_keepalive_received(*old(self), sequence, now),
    {
        let now = now_ms();
        self.record_keepalive_received_at(sequence, now)
    }

    /// Records a keepalive response received at `now`: measures the RTT if it
    /// answers the latest keepalive, resets the missed count, and returns a
    /// degraded or recovering path to active.
    pub fn record_keepalive_received_at(&mut self, sequence: u32, now: u64)
        ensures
            *final(self) == spec_keepalive_received(*old(self), sequence, now),
    {
        if let Some(sent_time) = self.last_keepalive_sent {
            if sequence == self.next_sequence.wrapping_sub(1) {
                self.rtt = Some(elapsed_ms(sent_time, now));
            }
        }
        self.last_keepalive_received = Some(now);
        self.last_acked_sequence = sequence;
        self.missed_keepalives = 0;
        match self.state {
            PathState::Degraded => self.state = PathState::Active,
            PathState::Recovering => self.state = PathState::Active,
            _ => {},
        }
    }

    /// Checks for a keepalive timeout now; returns true if the path just failed.
    pub fn check_timeout(&mut self) -> (failed: bool)
        requires
            old(self).missed_keepalives < u32::MAX,
        ensures
            exists|now: u64| (*final(self), failed) == spec_check_timeout(*old(self), now),
    {
        let now = now_ms();
        self.check_timeout_at(now)
    }

    /// Checks for a keepalive timeout at `now`: an unanswered keepalive older
    /// than the timeout counts as missed, once; at the threshold the path
    /// fails, below it the path is degraded. Returns true if the path just
    /// failed.
    pub fn check_timeout_at(&mut self, now: u64) -> (failed: bool)
        requires
            old(self).missed_keepalives < u32::MAX,
        ensures
            (*final(self), failed) == spec_check_timeout(*old(self), now),
    {
        if self.state == PathState::Failed {
            return false;
        }
        if let Some(sent_time) = self.last_keepalive_sent {
            let expected_response_seq = self.next_sequence.wrapping_sub(1);
            let counted = match self.last_missed_sequence {
                Some(s) => s == expected_response_seq,
                None => false,
            };
            if self.last_acked_sequence != expected_response_seq && !counted && elapsed_ms(sent_time, now)
                >= KEEPALIVE_TIMEOUT {
                self.missed_keepalives = self.missed_keepalives + 1;
                self.last_missed_sequence = Some(expected_response_seq);
                if self.missed_keepalives >= MISSED_KEEPALIVES_THRESHOLD {
                    self.state = PathState::Failed;
                    self.last_failure = Some(now);
                    return true;
                } else if self.missed_keepalives > 0 {
                    self.state = PathState::Degraded;
                }
            }
        }
        false
    }

    /// Whether the path may be retried now (the cooldown after a failure has passed).
    pub fn can_retry(&self) -> (r: bool)
        ensures
            exists|now: u64| r == spec_can_retry(*self, now),
    {
        self.can_retry_at(now_ms())
    }

    /// Whether the path may be retried at `now`.
    pub fn can_retry_at(&self, now: u64) -> (r: bool)
        ensures
            r == spec_can_retry(*self, now),
    {
        match self.last_failure {
            None => true,
            Some(failure_time) => elapsed_ms(failure_time, now) >= FALLBACK_COOLDOWN,
        }
    }

    /// Starts recovery of a failed path, if the cooldown has passed.
    pub fn start_recovery(&mut self)
        ensures
            exists|now: u64| *final(self) == spec_start_recovery(*old(self), now),
    {
        let now = now_ms();
        self.start_recovery_at(now)
    }

    /// Starts recovery of a failed path at `now`, if the cooldown has passed.
    pub fn start_recovery_at(&mut self, now: u64)
        ensures
            *final(self) == spec_start_recovery(*old(self), now),
    {
        if self.state == PathState::Failed && self.can_retry_at(now) {
            self.state = PathState::Recovering;
            self.missed_keepalives = 0;
            self.last_keepalive_sent = None;
        }
    }

    /// Whether the path can carry data (not failed).
    pub fn is_usable(&self) -> (r: bool)
        ensures
            r == spec_is_usable(*self),
    {
        match self.state {
            PathState::Active | PathState::Degraded | PathState::Recovering => true,
            PathState::Failed => false,
        }
    }
}

/// Which path is currently active.
#[derive(Debug, Clone, Copy, PartialEq, Eq, Structural)]
pub enum ActivePath {
    /// Direct P2P path
    Direct,
    /// Relay through the relay server
    Relay,
    /// No path available
    NoPath,
}

/// Path statistics for monitoring.
#[derive(Debug, Clone, Copy)]
pub struct PathStats {
    /// Currently active path
    pub active_path: ActivePath,
    /// Whether in fallback mode
    pub in_fallback: bool,
    /// Direct path RTT in milliseconds (if measured)
    pub direct_rtt: Option<u64>,
    /// Direct path state
    pub direct_state: Option<PathState>,
    /// Missed keepalives on the direct path
    pub missed_keepalives: u32,
}

/// Manages the direct path and the relay fallback.
#[derive(Debug)]
pub struct PathManager {
    direct_path: Option<PathInfo>,
    relay_addr: Option<SockAddr>,
    active_path: ActivePath,
    in_fallback: bool,
}

impl PathManager {
    pub closed spec fn spec_direct_path(&self) -> Option<PathInfo> {
        self.direct_path
    }

    pub closed spec fn spec_relay_addr(&self) -> Option<SockAddr> {
        self.relay_addr
    }

    pub closed spec fn spec_active_path(&self) -> ActivePath {
        self.active_path
    }

    pub closed spec fn spec_in_fallback(&self) -> bool {
        self.in_fallback
    }

    /// The address traffic goes to on the active path.
    pub open spec fn spec_active_addr(&self) -> Option<SockAddr> {
        match self.spec_active_path() {
            ActivePath::Direct => match self.spec_direct_path() {
                Some(p) => Some(p.remote_addr),
                None => None,
            },
            ActivePath::Relay => self.spec_relay_addr(),
            ActivePath::NoPath => None,
        }
    }

    /// Whether the manager's direct path can count one more missed keepalive.
    pub open spec fn wf(&self) -> bool {
        match self.spec_direct_path() {
            Some(p) => p.missed_keepalives < u32::MAX,
            None => true,
        }
    }

    /// A manager with no path.
    pub fn new() -> (m: PathManager)
        ensures
            m.spec_direct_path() is None,
            m.spec_relay_addr() is None,
            m.spec_active_path() == ActivePath::NoPath,
            !m.spec_in_fallback(),
    {
        PathManager { direct_path: None, relay_addr: None, active_path: ActivePath::NoPath, in_fallback: false }
    }

    /// Sets the relay address; the relay becomes active if no path was.
    pub fn set_relay(&mut self, addr: SockAddr)
        ensures
            final(self).spec_relay_addr() == Some(addr),
            final(self).spec_direct_path() == old(self).spec_direct_path(),
            final(self).spec_in_fallback() == old(self).spec_in_fallback(),
            final(self).spec_active_path() == if old(self).spec_active_path() == ActivePath::NoPath {
                ActivePath::Relay
            } else {
                old(self).spec_active_path()
            },
    {
        self.relay_addr = Some(addr);
        if self.active_path == ActivePath::NoPath {
            self.active_path = ActivePath::Relay;
        }
    }

    /// Establishes the direct path now and makes it active.
    pub fn set_direct(&mut self, addr: SockAddr)
        ensures
            exists|now: u64| final(self).spec_direct_path() == Some(spec_new_path(addr, now)),
            final(self).spec_relay_addr() == old(self).spec_relay_addr(),
            final(self).spec_active_path() == ActivePath::Direct,
            !final(self).spec_in_fallback(),
    {
        let now = now_ms();
        self.set_direct_at(addr, now)
    }

    /// Establishes the direct path at `now` and makes it active.
    pub fn set_direct_at(&mut self, addr: SockAddr, now: u64)
        ensures
            final(self).spec_direct_path() == Some(spec_new_path(addr, now)),
            final(self).spec_relay_addr() == old(self).spec_relay_addr(),
            final(self).spec_active_path() == ActivePath::Direct,
            !final(self).spec_in_fallback(),
    {
        self.direct_path = Some(PathInfo::new_at(addr, now));
        self.active_path = ActivePath::Direct;
        self.in_fallback = false;
    }

    /// The address of the active path.
    pub fn active_addr(&self) -> (r: Option<SockAddr>)
        ensures
            r == self.spec_active_addr(),
    {
        match self.active_path {
            ActivePath::Direct => match &self.direct_path {
                Some(p) => Some(p.remote_addr),
                None => None,
            },
            ActivePath::Relay => self.relay_addr,
            ActivePath::NoPath => None,
        }
    }

    pub fn active_path_type(&self) -> (r: ActivePath)
        ensures
            r == self.spec_active_path(),
    {
        self.active_path
    }

    pub fn is_in_fallback(&self) -> (r: bool)
        ensures
            r == self.spec_in_fallback(),
    {
        self.in_fallback
    }

    pub fn direct_path(&self) -> (r: Option<&PathInfo>)
        ensures
            match self.spec_direct_path() {
                Some(p) => r is Some && *r->0 == p,
                None => r is None,
            },
    {
        match &self.direct_path {
            Some(p) => Some(p),
            None => None,
        }
    }

    pub fn direct_path_mut(&mut self) -> (r: Option<&mut PathInfo>)
        ensures
            final(self).spec_relay_addr() == old(self).spec_relay_addr(),
            final(self).spec_active_path() == old(self).spec_active_path(),
            final(self).spec_in_fallback() == old(self).spec_in_fallback(),
            match old(self).spec_direct_path() {
                Some(p) => r is Some && *r->0 == p && final(self).spec_direct_path() == Some(
                    *final(r->0),
                ),
                None => r is None && final(self).spec_direct_path() is None,
            },
    {
        self.direct_path.as_mut()
    }

    /// Whether a keepalive is due at `now` on the direct path (never without one).
    pub open spec fn spec_should_send(m: PathManager, now: u64) -> bool {
        match m.spec_direct_path() {
            Some(p) => spec_should_send_keepalive(p, now),
            None => false,
        }
    }

    /// Whether a keepalive should be sent now on the direct path.
    pub fn should_send_keepalive(&self) -> (r: bool)
        ensures
            exists|now: u64| r == Self::spec_should_send(*self, now),
    {
        self.should_send_keepalive_at(now_ms())
    }

    /// Whether a keepalive should be sent at `now` on the direct path.
    pub fn should_send_keepalive_at(&self, now: u64) -> (r: bool)
        ensures
            r == Self::spec_should_send(*self, now),
    {
        match &self.direct_path {
            Some(p) => p.should_send_keepalive_at(now),
            None => false,
        }
    }

    /// The keepalive request to send now, if one is due.
    pub fn poll_keepalive(&mut self) -> (r: Option<(SockAddr, [u8; 5])>)
        ensures
            exists|now: u64| Self::spec_poll_keepalive(*old(self), *final(self), r, now),
    {
        let now = now_ms();
        self.poll_keepalive_at(now)
    }

    /// What `poll_keepalive_at` does: if a keepalive is due on the direct path,
    /// it is recorded as sent and a request with its sequence number goes to
    /// the path's address; otherwise nothing changes.
    pub open spec fn spec_poll_keepalive(
        pre: PathManager,
        post: PathManager,
        r: Option<(SockAddr, [u8; 5])>,
        now: u64,
    ) -> bool {
        post.spec_relay_addr() == pre.spec_relay_addr() && post.spec_active_path()
            == pre.spec_active_path() && post.spec_in_fallback() == pre.spec_in_fallback() && match pre.spec_direct_path() {
            Some(p) => if spec_should_send_keepalive(p, now) {
                post.spec_direct_path() == Some(spec_keepalive_sent(p, now)) && r is Some && (r->0).0 == p.remote_addr && (r->0).1@ == keepalive_bytes(
                    KEEPALIVE_REQUEST,
                    p.next_sequence,
                )
            } else {
                post.spec_direct_path() == pre.spec_direct_path() && r is None
            },
            None => post.spec_direct_path() is None && r is None,
        }
    }

    /// The keepalive request to send at `now`, if one is due.
    pub fn poll_keepalive_at(&mut self, now: u64) -> (r: Option<(SockAddr, [u8; 5])>)
        ensures
            Self::spec_poll_keepalive(*old(self), *final(self), r, now),
    {
        match &mut self.direct_path {
            Some(path) => {
                if path.should_send_keepalive_at(now) {
                    let seq = path.record_keepalive_sent_at(now);
                    let msg = encode_keepalive_request(seq);
                    Some((path.remote_addr, msg))
                } else {
                    None
                }
            },
            None => None,
        }
    }

    /// Processes a keepalive received now (see `process_keepalive_at`).
    pub fn process_keepalive(&mut self, from: SockAddr, data: &[u8]) -> (r: Option<[u8; 5]>)
        ensures
            exists|now: u64| Self::spec_process_keepalive(*old(self), *final(self), from, data@, r, now),
    {
        let now = now_ms();
        self.process_keepalive_at(from, data, now)
    }

    /// What `process_keepalive_at` does: a valid keepalive from the direct
    /// path's address is handled; a request is answered with a response that
    /// carries the same sequence number, a response is recorded on the path.
    /// Anything else changes nothing and is not answered.
    pub open spec fn spec_process_keepalive(
        pre: PathManager,
        post: PathManager,
        from: SockAddr,
        data: Seq<u8>,
        r: Option<[u8; 5]>,
        now: u64,
    ) -> bool {
        post.spec_relay_addr() == pre.spec_relay_addr() && post.spec_active_path()
            == pre.spec_active_path() && post.spec_in_fallback() == pre.spec_in_fallback() && match (
            spec_decode_keepalive(data),
            pre.spec_direct_path(),
        ) {
            (Some((is_response, sequence)), Some(p)) => if p.remote_addr == from {
                if is_response {
                    r is None && post.spec_direct_path() == Some(
                        spec_keepalive_received(p, sequence, now),
                    )
                } else {
                    r is Some && r->0@ == keepalive_bytes(KEEPALIVE_RESPONSE, sequence)
                        && post.spec_direct_path() == pre.spec_direct_path()
                }
            } else {
                r is None && post.spec_direct_path() == pre.spec_direct_path()
            },
            _ => r is None && post.spec_direct_path() == pre.spec_direct_path(),
        }
    }

    /// Processes a keepalive received at `now`; returns the response to send
    /// if it was a request.
    pub fn process_keepalive_at(&mut self, from: SockAddr, data: &[u8], now: u64) -> (r: Option<[u8; 5]>)
        ensures
            Self::spec_process_keepalive(*old(self), *final(self), from, data@, r, now),
    {
        let decoded = decode_keepalive(data);
        match decoded {
            None => None,
            Some((is_response, sequence)) => match &mut self.direct_path {
                Some(path) => {
                    if path.remote_addr == from {
                        if is_response {
                            path.record_keepalive_received_at(sequence, now);
                            None
                        } else {
                            Some(encode_keepalive_response(sequence))
                        }
                    } else {
                        None
                    }
                },
                None => None,
            },
        }
    }

    /// Checks the direct path for a timeout now; see `check_timeouts_at`.
    pub fn check_timeouts(&mut self) -> (failover: bool)
        requires
            old(self).wf(),
        ensures
            exists|now: u64| Self::spec_check_timeouts(*old(self), *final(self), failover, now),
    {
        let now = now_ms();
        self.check_timeouts_at(now)
    }

    /// What `check_timeouts_at` does: the direct path is checked for a
    /// keepalive timeout; if it just failed and a relay is known, the relay
    /// becomes active and the manager is in fallback (the result is true).
    pub open spec fn spec_check_timeouts(pre: PathManager, post: PathManager, failover: bool, now: u64) -> bool {
        post.spec_relay_addr() == pre.spec_relay_addr() && match pre.spec_direct_path() {
            Some(p) => {
                let (q, failed) = spec_check_timeout(p, now);
                post.spec_direct_path() == Some(q) && failover == (failed && pre.spec_relay_addr() is Some)
                    && if failover {
                    post.spec_active_path() == ActivePath::Relay && post.spec_in_fallback()
                } else {
                    post.spec_active_path() == pre.spec_active_path() && post.spec_in_fallback()
                        == pre.spec_in_fallback()
                }
            },
            None => post == pre && !failover,
        }
    }

    /// Checks the direct path for a timeout at `now` and fails over to the
    /// relay; returns true if a failover happened.
    pub fn check_timeouts_at(&mut self, now: u64) -> (failover: bool)
        requires
            old(self).wf(),
        ensures
            Self::spec_check_timeouts(*old(self), *final(self), failover, now),
    {
        let relay_known = self.relay_addr.is_some();
        match &mut self.direct_path {
            Some(path) => {
                if path.check_timeout_at(now) {
                    if relay_known {
                        self.active_path = ActivePath::Relay;
                        self.in_fallback = true;
                        return true;
                    }
                }
                false
            },
            None => false,
        }
    }

    /// Attempts recovery of a failed direct path now; see `attempt_recovery_at`.
    pub fn attempt_recovery(&mut self) -> (r: bool)
        ensures
            exists|now: u64| Self::spec_attempt_recovery(*old(self), *final(self), r, now),
    {
        let now = now_ms();
        self.attempt_recovery_at(now)
    }

    /// What `attempt_recovery_at` does: a failed direct path whose cooldown
    /// has passed starts recovering (the result is true); the active path
    /// does not change.
    pub open spec fn spec_attempt_recovery(pre: PathManager, post: PathManager, r: bool, now: u64) -> bool {
        post.spec_relay_addr() == pre.spec_relay_addr() && post.spec_active_path() == pre.spec_active_path()
            && post.spec_in_fallback() == pre.spec_in_fallback() && match pre.spec_direct_path() {
            Some(p) => if p.state == PathState::Failed && spec_can_retry(p, now) {
                r && post.spec_direct_path() == Some(spec_start_recovery(p, now))
            } else {
                !r && post.spec_direct_path() == pre.spec_direct_path()
            },
            None => !r && post.spec_direct_path() is None,
        }
    }

    /// Attempts recovery of a failed direct path at `now`.
    pub fn attempt_recovery_at(&mut self, now: u64) -> (r: bool)
        ensures
            Self::spec_attempt_recovery(*old(self), *final(self), r, now),
    {
        match &mut self.direct_path {
            Some(path) => {
                if path.state == PathState::Failed && path.can_retry_at(now) {
                    path.start_recovery_at(now);
                    return true;
                }
                false
            },
            None => false,
        }
    }

    /// Switches back to the direct path if it is active again.
    pub fn switch_to_direct(&mut self)
        ensures
            final(self).spec_direct_path() == old(self).spec_direct_path(),
            final(self).spec_relay_addr() == old(self).spec_relay_addr(),
            match old(self).spec_direct_path() {
                Some(p) => if p.state == PathState::Active {
                    final(self).spec_active_path() == ActivePath::Direct && !final(self).spec_in_fallback()
                } else {
                    final(self).spec_active_path() == old(self).spec_active_path()
                        && final(self).spec_in_fallback() == old(self).spec_in_fallback()
                },
                None => final(self).spec_active_path() == old(self).spec_active_path()
                    && final(self).spec_in_fallback() == old(self).spec_in_fallback(),
            },
    {
        if let Some(path) = &self.direct_path {
            if path.state == PathState::Active {
                self.active_path = ActivePath::Direct;
                self.in_fallback = false;
            }
        }
    }

    /// Path statistics.
    pub fn stats(&self) -> (s: PathStats)
        ensures
            s.active_path == self.spec_active_path(),
            s.in_fallback == self.spec_in_fallback(),
            match self.spec_direct_path() {
                Some(p) => s.direct_rtt == p.rtt && s.direct_state == Some(p.state) && s.missed_keepalives
                    == p.missed_keepalives,
                None => s.direct_rtt is None && s.direct_state is None && s.missed_keepalives == 0,
            },
    {
        PathStats {
            active_path: self.active_path,
            in_fallback: self.in_fallback,
            direct_rtt: match &self.direct_path {
                Some(p) => p.rtt,
                None => None,
            },
            direct_state: match &self.direct_path {
                Some(p) => Some(p.state),
                None => None,
            },
            missed_keepalives: match &self.direct_path {
                Some(p) => p.missed_keepalives,
                None => 0,
            },
        }
    }
}

impl Default for PathManager {
    fn default() -> (m: PathManager)
        ensures
            m.spec_direct_path() is None,
            m.spec_relay_addr() is None,
            m.spec_active_path() == ActivePath::NoPath,
            !m.spec_in_fallback(),
    {
        PathManager::new()
    }
}

} // verus!
