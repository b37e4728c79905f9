//! The Connector's TCP proxy: Agents' TCP segments arrive as IPv4 packets
//! through the tunnel, and each connection is carried to the backend
//! service over a real TCP stream. These are the decisions; the caller
//! opens, writes and reads the streams and reports what happened. Times are
//! milliseconds since the Unix epoch.
use vstd::prelude::*;
use crate::bytes::{from_be16, from_be32, u16_from_be, u32_from_be};
use crate::clock::{elapsed, elapsed_ms};
use crate::connector::forward::{MAX_TCP_SESSIONS, TCP_SESSION_TIMEOUT_SECS};
use crate::connector::packet::{TCP_ACK, TCP_FIN, TCP_PSH, TCP_RST, TCP_SYN, build_tcp_packet, tcp_packet};
use crate::vecmap::{VecMap, lemma_entries_map_at};

verus! {

/// The TCP header fields the proxy reads.
#[derive(Debug, Clone, Copy)]
pub struct TcpHeader {
    pub src_port: u16,
    pub dst_port: u16,
    pub seq: u32,
    pub flags: u8,
    /// Where the payload starts in the packet
    pub payload_start: usize,
}

/// Reads the TCP header after an IPv4 header of `ip_header_len` bytes; none
/// if it is cut.
pub fn parse_tcp_header(d: &[u8], ip_header_len: usize) -> (r: Option<TcpHeader>)
    requires
        d@.len() + 64 <= usize::MAX,
    ensures
        d@.len() < ip_header_len + 20 ==> r is None,
        d@.len() >= ip_header_len + 20 ==> ({
            let t = ip_header_len as int;
            r matches Some(h) && h.src_port == from_be16(d@[t], d@[t + 1]) && h.dst_port == from_be16(
                d@[t + 2],
                d@[t + 3],
            ) && h.seq == from_be32(d@[t + 4], d@[t + 5], d@[t + 6], d@[t + 7]) && h.flags == d@[t + 13]
                && h.payload_start == t + (d@[t + 12] / 16) * 4
        }),
{
    if ip_header_len > d.len() || d.len() - ip_header_len < 20 {
        return None;
    }
    let t = ip_header_len;
    let src_port = u16_from_be(d[t], d[t + 1]);
    let dst_port = u16_from_be(d[t + 2], d[t + 3]);
    let seq = u32_from_be(d[t + 4], d[t + 5], d[t + 6], d[t + 7]);
    let data_offset = ((d[t + 12] / 16) as usize) * 4;
    Some(TcpHeader { src_port, dst_port, seq, flags: d[t + 13], payload_start: t + data_offset })
}

/// The key of a TCP flow: agent address and port, service address and port.
pub open spec fn tcp_flow_key(src: [u8; 4], src_port: u16, dst: [u8; 4], dst_port: u16) -> u128 {
    (src[0] as int * 0x1_0000_0000_0000_0000_0000_0000_00 + src[1] as int * 0x1_0000_0000_0000_0000_0000_0000
        + src[2] as int * 0x1_0000_0000_0000_0000_0000_00 + src[3] as int * 0x1_0000_0000_0000_0000_0000 + src_port as int
        * 0x1_0000_0000_0000_0000 + dst[0] as int * 0x1_0000_0000_0000_00 + dst[1] as int * 0x1_0000_0000_0000
        + dst[2] as int * 0x1_0000_0000_00 + dst[3] as int * 0x1_0000_0000 + dst_port as int) as u128
}

/// The key of a TCP flow.
pub fn make_tcp_flow_key(src: [u8; 4], src_port: u16, dst: [u8; 4], dst_port: u16) -> (r: u128)
    ensures
        r == tcp_flow_key(src, src_port, dst, dst_port),
{
    (src[0] as u128) * 0x1_0000_0000_0000_0000_0000_0000_00 + (src[1] as u128) * 0x1_0000_0000_0000_0000_0000_0000
        + (src[2] as u128) * 0x1_0000_0000_0000_0000_0000_00 + (src[3] as u128) * 0x1_0000_0000_0000_0000_0000 + (
    src_port as u128) * 0x1_0000_0000_0000_0000 + (dst[0] as u128) * 0x1_0000_0000_0000_00 + (dst[1] as u128)
        * 0x1_0000_0000_0000 + (dst[2] as u128) * 0x1_0000_0000_00 + (dst[3] as u128) * 0x1_0000_0000 + dst_port as u128
}

/// A proxied TCP connection.
#[derive(Debug, Clone, Copy)]
pub struct TcpSession {
    /// Our next sequence number
    pub our_seq: u32,
    /// The Agent's next expected sequence number
    pub their_seq: u32,
    /// The Agent's address
    pub agent_ip: [u8; 4],
    /// The Agent's port
    pub agent_port: u16,
    /// The service address the Agent connected to
    pub service_ip: [u8; 4],
    /// The service port
    pub service_port: u16,
    /// Last activity
    pub last_active: u64,
    /// Whether the handshake completed
    pub established: bool,
}

/// What the caller does next for a segment.
#[derive(Debug, Clone, Copy)]
pub enum TcpStep {
    /// Nothing more
    Done,
    /// Open a connection to the backend, then call `on_connect`
    Connect,
    /// Write the payload to the session's stream, then call `on_write`
    Write,
}

/// Outcome of writing to a backend stream.
#[derive(Debug, Clone, Copy)]
pub enum WriteOutcome {
    /// This many bytes were written
    Wrote(usize),
    /// The stream would block
    WouldBlock,
    /// The write failed
    Failed,
}

/// `a + b` modulo 2^32, as `wrapping_add` computes it.
pub open spec fn wrap_add(a: u32, b: int) -> u32 {
    ((a + b) % 0x1_0000_0000) as u32
}

fn wrapping_add32(a: u32, b: u64) -> (r: u32)
    ensures
        r == wrap_add(a, b as int),
{
    ((a as u128 + b as u128) % 0x1_0000_0000) as u32
}

/// The reply segment from the service side of a flow to the Agent.
pub open spec fn reply(src: [u8; 4], h: TcpHeader, dst: [u8; 4], seq: u32, ack: u32, flags: u8, window: u16) -> Seq<u8> {
    tcp_packet(dst, h.dst_port, src, h.src_port, seq, ack, flags, window, Seq::empty())
}

/// The sessions of the TCP proxy.
#[derive(Debug)]
pub struct TcpProxy {
    pub sessions: VecMap<u128, TcpSession>,
}

impl TcpProxy {
    /// The invariant of the map.
    pub open spec fn wf(&self) -> bool {
        self.sessions.wf()
    }

    /// No sessions.
    pub fn new() -> (p: TcpProxy)
        ensures
            p.wf(),
            p.sessions@ == Map::<u128, TcpSession>::empty(),
    {
        TcpProxy { sessions: VecMap::new() }
    }

    /// Number of sessions.
    pub fn len(&self) -> (r: usize)
        requires
            self.wf(),
        ensures
            r == self.sessions.spec_entries().len(),
    {
        self.sessions.len()
    }

    /// Decides on a segment from `src` to `dst` with header `h` and a payload
    /// of `payload_len` bytes (see `spec_segment`).
    #[verifier::rlimit(50)]
    pub fn on_segment(&mut self, src: [u8; 4], dst: [u8; 4], h: &TcpHeader, payload_len: usize, now: u64) -> (r: (
        TcpStep,
        Vec<Vec<u8>>,
    ))
        requires
            old(self).wf(),
        ensures
            final(self).wf(),
            Self::spec_segment(*old(self), *final(self), src, dst, *h, payload_len as nat, now, r.0, r.1@.map_values(|p: Vec<u8>| p@)),
    {
        let key = make_tcp_flow_key(src, h.src_port, dst, h.dst_port);
        let mut out: Vec<Vec<u8>> = Vec::new();
        if h.flags & TCP_SYN != 0 && h.flags & TCP_ACK == 0 {
            if self.sessions.len() >= MAX_TCP_SESSIONS {
                let pkt = build_tcp_packet(dst, h.dst_port, src, h.src_port, 0, wrapping_add32(h.seq, 1), TCP_RST | TCP_ACK, 0, &[]);
                let ghost pv = pkt@;
                out.push(pkt);
                assert(out@.map_values(|p: Vec<u8>| p@) =~= seq![pv]);
                return (TcpStep::Done, out);
            }
            assert(out@.map_values(|p: Vec<u8>| p@) =~= Seq::<Seq<u8>>::empty());
            return (TcpStep::Connect, out);
        }
        assert(out@.map_values(|p: Vec<u8>| p@) =~= Seq::<Seq<u8>>::empty());
        if h.flags & TCP_RST != 0 {
            self.sessions.remove(&key);
            return (TcpStep::Done, out);
        }
        if h.flags & TCP_FIN != 0 {
            match self.sessions.remove(&key) {
                Some(s) => {
                    let pkt = build_tcp_packet(
                        dst,
                        h.dst_port,
                        src,
                        h.src_port,
                        s.our_seq,
                        wrapping_add32(h.seq, 1 + (payload_len as u64 % 0x1_0000_0000)),
                        TCP_FIN | TCP_ACK,
                        65535,
                        &[],
                    );
                    let ghost pv = pkt@;
                    out.push(pkt);
                    assert(out@.map_values(|p: Vec<u8>| p@) =~= seq![pv]);
                },
                None => {},
            }
            return (TcpStep::Done, out);
        }
        if h.flags & TCP_ACK != 0 {
            match self.sessions.get_mut(&key) {
                Some(s) => {
                    s.last_active = now;
                    s.established = true;
                    if payload_len > 0 {
                        return (TcpStep::Write, out);
                    }
                },
                None => {},
            }
        }
        (TcpStep::Done, out)
    }

    /// What `on_segment` decides. A SYN (without ACK) is refused with a reset
    /// when the session table is full, else the backend is to be connected.
    /// A reset drops the session. A FIN drops the session and is answered
    /// with FIN+ACK. An ACK of a known session marks it established and
    /// active now; with payload, the payload is to be written.
    pub open spec fn spec_segment(
        pre: TcpProxy,
        post: TcpProxy,
        src: [u8; 4],
        dst: [u8; 4],
        h: TcpHeader,
        payload_len: nat,
        now: u64,
        step: TcpStep,
        out: Seq<Seq<u8>>,
    ) -> bool {
        let key = tcp_flow_key(src, h.src_port, dst, h.dst_port);
        let m = pre.sessions@;
        if h.flags & TCP_SYN != 0 && h.flags & TCP_ACK == 0 {
            &&& post.sessions == pre.sessions
            &&& if pre.sessions.spec_entries().len() >= MAX_TCP_SESSIONS {
                step is Done && out == seq![reply(src, h, dst, 0, wrap_add(h.seq, 1), TCP_RST | TCP_ACK, 0)]
            } else {
                step is Connect && out.len() == 0
            }
        } else if h.flags & TCP_RST != 0 {
            step is Done && out.len() == 0 && post.sessions@ == m.remove(key)
        } else if h.flags & TCP_FIN != 0 {
            &&& step is Done
            &&& post.sessions@ == m.remove(key)
            &&& if m.contains_key(key) {
                out == seq![reply(src, h, dst, m[key].our_seq, wrap_add(h.seq, (1 + payload_len % 0x1_0000_0000) as int), TCP_FIN | TCP_ACK, 65535)]
            } else {
                out.len() == 0
            }
        } else if h.flags & TCP_ACK != 0 && m.contains_key(key) {
            &&& out.len() == 0
            &&& post.sessions@ == m.insert(key, TcpSession { last_active: now, established: true, ..m[key] })
            &&& if payload_len > 0 {
                step is Write
            } else {
                step is Done
            }
        } else {
            step is Done && out.len() == 0 && post.sessions@ == m
        }
    }

    /// A FIN (without SYN or RST) on a known session closes the session and
    /// is answered with one FIN+ACK carrying the session's sequence number
    /// and acknowledging the segment's sequence number plus its payload
    /// length plus one (the FIN takes a sequence number), modulo 2^32.
    pub proof fn lemma_fin_is_acknowledged(
        pre: TcpProxy,
        post: TcpProxy,
        src: [u8; 4],
        dst: [u8; 4],
        h: TcpHeader,
        payload_len: nat,
        now: u64,
        step: TcpStep,
        out: Seq<Seq<u8>>,
    )
        requires
            Self::spec_segment(pre, post, src, dst, h, payload_len, now, step, out),
            h.flags & TCP_SYN == 0,
            h.flags & TCP_RST == 0,
            h.flags & TCP_FIN != 0,
            pre.sessions@.contains_key(tcp_flow_key(src, h.src_port, dst, h.dst_port)),
        ensures
            post.sessions@ == pre.sessions@.remove(tcp_flow_key(src, h.src_port, dst, h.dst_port)),
            out.len() == 1,
            out[0] == tcp_packet(
                dst,
                h.dst_port,
                src,
                h.src_port,
                pre.sessions@[tcp_flow_key(src, h.src_port, dst, h.dst_port)].our_seq,
                ((h.seq + payload_len + 1) % 0x1_0000_0000) as u32,
                TCP_FIN | TCP_ACK,
                65535,
                Seq::empty(),
            ),
    {
        vstd::arithmetic::div_mod::lemma_add_mod_noop_right(h.seq + 1, payload_len as int, 0x1_0000_0000);
        assert(h.seq + (1 + payload_len % 0x1_0000_0000) == h.seq + 1 + payload_len % 0x1_0000_0000);
    }

    /// A segment never adds a session, and it asks for a backend connection
    /// (after which `on_connect` adds one) only while the table holds fewer
    /// than `MAX_TCP_SESSIONS` sessions, leaving the table as it was: so the
    /// table never grows past the limit.
    pub proof fn lemma_segment_keeps_table_bounded(
        pre: TcpProxy,
        post: TcpProxy,
        src: [u8; 4],
        dst: [u8; 4],
        h: TcpHeader,
        payload_len: nat,
        now: u64,
        step: TcpStep,
        out: Seq<Seq<u8>>,
    )
        requires
            Self::spec_segment(pre, post, src, dst, h, payload_len, now, step, out),
        ensures
            post.sessions@.dom().subset_of(pre.sessions@.dom()),
            step is Connect ==> pre.sessions.spec_entries().len() < MAX_TCP_SESSIONS && post.sessions == pre.sessions,
    {
    }

    /// Handling a segment, and then the backend connection it may ask for
    /// (one session added under some key when it opens), keeps the session
    /// table within `MAX_TCP_SESSIONS` and adds at most one session.
    pub proof fn lemma_table_stays_bounded(
        pre: TcpProxy,
        mid: TcpProxy,
        post: TcpProxy,
        src: [u8; 4],
        dst: [u8; 4],
        h: TcpHeader,
        payload_len: nat,
        now: u64,
        step: TcpStep,
        out: Seq<Seq<u8>>,
        k: u128,
        v: TcpSession,
    )
        requires
            pre.wf(),
            pre.sessions@.dom().len() <= MAX_TCP_SESSIONS,
            Self::spec_segment(pre, mid, src, dst, h, payload_len, now, step, out),
            step is Connect ==> post.sessions@ == mid.sessions@.insert(k, v) || post.sessions@ == mid.sessions@,
            !(step is Connect) ==> post.sessions@ == mid.sessions@,
        ensures
            post.sessions@.dom().finite(),
            post.sessions@.dom().len() <= MAX_TCP_SESSIONS,
            post.sessions@.dom().len() <= pre.sessions@.dom().len() + 1,
    {
        Self::lemma_segment_keeps_table_bounded(pre, mid, src, dst, h, payload_len, now, step, out);
        crate::vecmap::lemma_entries_map_len(pre.sessions.spec_entries());
        let d0 = pre.sessions@.dom();
        let d1 = mid.sessions@.dom();
        vstd::set_lib::lemma_len_subset(d1, d0);
        if step is Connect {
            assert(d1 == d0);
            if post.sessions@ == mid.sessions@.insert(k, v) {
                assert(post.sessions@.dom() =~= d1.insert(k));
            }
        }
    }

    /// After a SYN, the backend connection was opened (`connected`) or not:
    /// a new session with initial sequence number `isn` is answered with
    /// SYN+ACK; a failure with a reset.
    pub fn on_connect(&mut self, src: [u8; 4], dst: [u8; 4], h: &TcpHeader, connected: bool, isn: u32, now: u64) -> (out: Vec<u8>)
        requires
            old(self).wf(),
        ensures
            final(self).wf(),
            connected ==> out@ == reply(src, *h, dst, isn, wrap_add(h.seq, 1), TCP_SYN | TCP_ACK, 65535) && final(self).sessions@
                == old(self).sessions@.insert(
                tcp_flow_key(src, h.src_port, dst, h.dst_port),
                TcpSession {
                    our_seq: wrap_add(isn, 1),
                    their_seq: wrap_add(h.seq, 1),
                    agent_ip: src,
                    agent_port: h.src_port,
                    service_ip: dst,
                    service_port: h.dst_port,
                    last_active: now,
                    established: false,
                },
            ),
            !connected ==> out@ == reply(src, *h, dst, 0, wrap_add(h.seq, 1), TCP_RST | TCP_ACK, 0) && final(self).sessions
                == old(self).sessions,
    {
        if connected {
            let key = make_tcp_flow_key(src, h.src_port, dst, h.dst_port);
            let session = TcpSession {
                our_seq: wrapping_add32(isn, 1),
                their_seq: wrapping_add32(h.seq, 1),
                agent_ip: src,
                agent_port: h.src_port,
                service_ip: dst,
                service_port: h.dst_port,
                last_active: now,
                established: false,
            };
            self.sessions.insert(key, session);
            build_tcp_packet(dst, h.dst_port, src, h.src_port, isn, wrapping_add32(h.seq, 1), TCP_SYN | TCP_ACK, 65535, &[])
        } else {
            build_tcp_packet(dst, h.dst_port, src, h.src_port, 0, wrapping_add32(h.seq, 1), TCP_RST | TCP_ACK, 0, &[])
        }
    }

    /// After writing a segment's payload to the backend: the written bytes
    /// are acknowledged; a failed write resets the connection and drops the
    /// session; a blocked write is left for the Agent to retransmit.
    pub fn on_write(&mut self, src: [u8; 4], dst: [u8; 4], h: &TcpHeader, payload_len: usize, outcome: WriteOutcome) -> (out: Option<Vec<u8>>)
        requires
            old(self).wf(),
        ensures
            final(self).wf(),
            ({
                let key = tcp_flow_key(src, h.src_port, dst, h.dst_port);
                let m = old(self).sessions@;
                if !m.contains_key(key) {
                    out is None && final(self).sessions == old(self).sessions
                } else {
                    match outcome {
                        WriteOutcome::Wrote(n) => {
                            let their = wrap_add(h.seq, n as int % 0x1_0000_0000);
                            &&& final(self).sessions@ == m.insert(key, TcpSession { their_seq: their, ..m[key] })
                            &&& out matches Some(p) && p@ == reply(src, *h, dst, m[key].our_seq, their, TCP_ACK, 65535)
                        },
                        WriteOutcome::WouldBlock => out is None && final(self).sessions == old(self).sessions,
                        WriteOutcome::Failed => {
                            &&& final(self).sessions@ == m.remove(key)
                            &&& out matches Some(p) && p@ == reply(
                                src,
                                *h,
                                dst,
                                m[key].our_seq,
                                wrap_add(h.seq, payload_len as int % 0x1_0000_0000),
                                TCP_RST | TCP_ACK,
                                0,
                            )
                        },
                    }
                }
            }),
    {
        let key = make_tcp_flow_key(src, h.src_port, dst, h.dst_port);
        let our_seq = match self.sessions.get(&key) {
            Some(s) => s.our_seq,
            None => {
                return None;
            },
        };
        match outcome {
            WriteOutcome::Wrote(n) => {
                let their = wrapping_add32(h.seq, n as u64 % 0x1_0000_0000);
                match self.sessions.get_mut(&key) {
                    Some(s) => {
                        s.their_seq = their;
                    },
                    None => {},
                }
                Some(build_tcp_packet(dst, h.dst_port, src, h.src_port, our_seq, their, TCP_ACK, 65535, &[]))
            },
            WriteOutcome::WouldBlock => None,
            WriteOutcome::Failed => {
                self.sessions.remove(&key);
                Some(build_tcp_packet(
                    dst,
                    h.dst_port,
                    src,
                    h.src_port,
                    our_seq,
                    wrapping_add32(h.seq, payload_len as u64 % 0x1_0000_0000),
                    TCP_RST | TCP_ACK,
                    0,
                    &[],
                ))
            },
        }
    }

    /// The segment to the Agent of the session `key` from the backend: with
    /// `data` read (PSH+ACK carrying it, our sequence number advanced and the
    /// session active now), the backend closed (FIN+ACK, session dropped)
    /// or a read error (reset, session dropped). Sessions not established,
    /// or unknown, get nothing.
    pub fn on_backend(&mut self, key: u128, data: Option<&[u8]>, closed: bool, now: u64) -> (out: Option<Vec<u8>>)
        requires
            old(self).wf(),
            data matches Some(d) ==> d@.len() + 40 <= usize::MAX,
        ensures
            final(self).wf(),
            ({
                let m = old(self).sessions@;
                if !m.contains_key(key) || !m[key].established {
                    out is None && final(self).sessions == old(self).sessions
                } else {
                    let s = m[key];
                    match data {
                        Some(d) => {
                            &&& out matches Some(p) && p@ == tcp_packet(
                                s.service_ip,
                                s.service_port,
                                s.agent_ip,
                                s.agent_port,
                                s.our_seq,
                                s.their_seq,
                                TCP_PSH | TCP_ACK,
                                65535,
                                d@,
                            )
                            &&& final(self).sessions@ == m.insert(
                                key,
                                TcpSession { our_seq: wrap_add(s.our_seq, d@.len() as int % 0x1_0000_0000), last_active: now, ..s },
                            )
                        },
                        None => {
                            &&& final(self).sessions@ == m.remove(key)
                            &&& out matches Some(p) && p@ == if closed {
                                tcp_packet(s.service_ip, s.service_port, s.agent_ip, s.agent_port, s.our_seq, s.their_seq, TCP_FIN | TCP_ACK, 65535, Seq::empty())
                            } else {
                                tcp_packet(s.service_ip, s.service_port, s.agent_ip, s.agent_port, s.our_seq, s.their_seq, TCP_RST | TCP_ACK, 0, Seq::empty())
                            }
                        },
                    }
                }
            }),
    {
        let s = match self.sessions.get(&key) {
            Some(s) => *s,
            None => {
                return None;
            },
        };
        if !s.established {
            return None;
        }
        match data {
            Some(d) => {
                let p = build_tcp_packet(
                    s.service_ip,
                    s.service_port,
                    s.agent_ip,
                    s.agent_port,
                    s.our_seq,
                    s.their_seq,
                    TCP_PSH | TCP_ACK,
                    65535,
                    d,
                );
                match self.sessions.get_mut(&key) {
                    Some(x) => {
                        x.our_seq = wrapping_add32(s.our_seq, d.len() as u64 % 0x1_0000_0000);
                        x.last_active = now;
                    },
                    None => {},
                }
                Some(p)
            },
            None => {
                self.sessions.remove(&key);
                if closed {
                    Some(build_tcp_packet(s.service_ip, s.service_port, s.agent_ip, s.agent_port, s.our_seq, s.their_seq, TCP_FIN | TCP_ACK, 65535, &[]))
                } else {
                    Some(build_tcp_packet(s.service_ip, s.service_port, s.agent_ip, s.agent_port, s.our_seq, s.their_seq, TCP_RST | TCP_ACK, 0, &[]))
                }
            },
        }
    }

    /// The keys of the established sessions, in order of creation.
    pub fn established_keys(&self) -> (r: Vec<u128>)
        requires
            self.wf(),
        ensures
            forall|k: u128| r@.contains(k) <==> self.sessions@.contains_key(k) && self.sessions@[k].established,
    {
        let ghost e = self.sessions.spec_entries();
        let mut r: Vec<u128> = Vec::new();
        let mut i: usize = 0;
        while i < self.sessions.len()
            invariant
                e == self.sessions.spec_entries(),
                self.sessions.wf(),
                i <= e.len(),
                forall|k: u128| r@.contains(k) <==> exists|j: int| 0 <= j < i && #[trigger] e[j].0 == k && e[j].1.established,
            decreases e.len() - i,
        {
            let (k, s) = self.sessions.entry_at(i);
            let ghost before = r@;
            if s.established {
                r.push(*k);
            }
            proof {
                assert forall|x: u128| r@.contains(x) <==> exists|j: int| 0 <= j < i + 1 && #[trigger] e[j].0 == x && e[j].1.established by {
                    if r@.contains(x) {
                        let p = choose|p: int| 0 <= p < r@.len() && r@[p] == x;
                        if p < before.len() {
                            assert(before.contains(x));
                        }
                    }
                    if exists|j: int| 0 <= j < i + 1 && #[trigger] e[j].0 == x && e[j].1.established {
                        let j = choose|j: int| 0 <= j < i + 1 && #[trigger] e[j].0 == x && e[j].1.established;
                        if j < i {
                            assert(before.contains(x));
                            let p = choose|p: int| 0 <= p < before.len() && before[p] == x;
                            assert(r@[p] == x);
                        } else {
                            assert(r@[r@.len() - 1] == x);
                        }
                    }
                }
            }
            i = i + 1;
        }
        proof {
            assert forall|k: u128| r@.contains(k) <==> self.sessions@.contains_key(k) && self.sessions@[k].established by {
                if r@.contains(k) {
                    let j = choose|j: int| 0 <= j < i && #[trigger] e[j].0 == k && e[j].1.established;
                    lemma_entries_map_at(e, j);
                }
                if self.sessions@.contains_key(k) && self.sessions@[k].established {
                    crate::vecmap::lemma_entries_map_key(e, k);
                }
            }
        }
        r
    }

    /// Drops the sessions idle for the session timeout or longer at `now`;
    /// returns their keys.
    pub fn expire(&mut self, now: u64) -> (gone: Vec<u128>)
        requires
            old(self).wf(),
        ensures
            final(self).wf(),
            final(self).sessions@ == old(self).sessions@.restrict(
                Set::new(|k: u128| elapsed(old(self).sessions@[k].last_active, now) < TCP_SESSION_TIMEOUT_SECS * 1000),
            ),
            forall|k: u128| gone@.contains(k) <==> old(self).sessions@.contains_key(k) && elapsed(
                old(self).sessions@[k].last_active,
                now,
            ) >= TCP_SESSION_TIMEOUT_SECS * 1000,
    {
        let ghost m0 = self.sessions@;
        let ghost keep = Set::new(|k: u128| elapsed(m0[k].last_active, now) < TCP_SESSION_TIMEOUT_SECS * 1000);
        let ghost e = self.sessions.spec_entries();
        let n = self.sessions.len();
        let mut stale: Vec<u128> = Vec::new();
        let mut i: usize = 0;
        while i < n
            invariant
                n == e.len(),
                e == self.sessions.spec_entries(),
                m0 == self.sessions@,
                self.sessions.wf(),
                i <= n,
                forall|k: u128| stale@.contains(k) <==> exists|j: int|
                    0 <= j < i && #[trigger] e[j].0 == k && elapsed(e[j].1.last_active, now) >= TCP_SESSION_TIMEOUT_SECS * 1000,
            decreases n - i,
        {
            let (k, s) = self.sessions.entry_at(i);
            assert(e[i as int].0 == *k && e[i as int].1 == *s);
            let ghost before = stale@;
            if elapsed_ms(s.last_active, now) >= TCP_SESSION_TIMEOUT_SECS * 1000 {
                stale.push(*k);
            }
            proof {
                assert forall|x: u128| stale@.contains(x) <==> exists|j: int|
                    0 <= j < i + 1 && #[trigger] e[j].0 == x && elapsed(e[j].1.last_active, now) >= TCP_SESSION_TIMEOUT_SECS * 1000 by {
                    if stale@.contains(x) {
                        let p = choose|p: int| 0 <= p < stale@.len() && stale@[p] == x;
                        if p < before.len() {
                            assert(before.contains(x));
                        }
                    }
                    if exists|j: int| 0 <= j < i + 1 && #[trigger] e[j].0 == x && elapsed(e[j].1.last_active, now) >= TCP_SESSION_TIMEOUT_SECS * 1000 {
                        let j = choose|j: int| 0 <= j < i + 1 && #[trigger] e[j].0 == x && elapsed(e[j].1.last_active, now) >= TCP_SESSION_TIMEOUT_SECS * 1000;
                        if j < i {
                            assert(before.contains(x));
                            let p = choose|p: int| 0 <= p < before.len() && before[p] == x;
                            assert(stale@[p] == x);
                        } else {
                            assert(stale@[stale@.len() - 1] == x);
                        }
                    }
                }
            }
            i = i + 1;
        }
        let ghost goneset = stale@.to_set();
        assert(goneset =~= Set::new(|k: u128| m0.contains_key(k) && !keep.contains(k))) by {
            assert forall|k: u128| goneset.contains(k) <==> (m0.contains_key(k) && !keep.contains(k)) by {
                if goneset.contains(k) {
                    let j = choose|j: int| 0 <= j < n && #[trigger] e[j].0 == k && elapsed(e[j].1.last_active, now) >= TCP_SESSION_TIMEOUT_SECS * 1000;
                    lemma_entries_map_at(e, j);
                }
                if m0.contains_key(k) && !keep.contains(k) {
                    crate::vecmap::lemma_entries_map_key(e, k);
                }
            }
        }
        let mut j: usize = 0;
        while j < stale.len()
            invariant
                self.sessions.wf(),
                j <= stale@.len(),
                goneset == stale@.to_set(),
                self.sessions@ == m0.remove_keys(stale@.subrange(0, j as int).to_set()),
            decreases stale@.len() - j,
        {
            proof {
                assert(stale@.subrange(0, j + 1) =~= stale@.subrange(0, j as int).push(stale@[j as int]));
                stale@.subrange(0, j as int).lemma_push_to_set_commute(stale@[j as int]);
            }
            self.sessions.remove(&stale[j]);
            assert(self.sessions@ =~= m0.remove_keys(stale@.subrange(0, j + 1).to_set()));
            j = j + 1;
        }
        assert(stale@.subrange(0, j as int) =~= stale@);
        assert(self.sessions@ =~= m0.restrict(keep));
        assert forall|k: u128| stale@.contains(k) <==> m0.contains_key(k) && elapsed(m0[k].last_active, now)
            >= TCP_SESSION_TIMEOUT_SECS * 1000 by {
            assert(stale@.contains(k) <==> goneset.contains(k));
        }
        stale
    }
}

} // verus!
