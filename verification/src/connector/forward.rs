//! What the Connector does with the IPv4 packets it receives through the
//! tunnel: which protocol they carry and what of them is forwarded, how P2P
//! control packets are told from QUIC packets, and the UDP flows it keeps
//! for return traffic. Times are milliseconds since the Unix epoch.
use vstd::prelude::*;
use crate::bytes::{copy_range, from_be16, opt_bytes, u16_from_be};
use crate::clock::{elapsed, elapsed_ms};
use crate::connector::packet::{build_icmp_reply, checked_ipv4_header, echo_reply_body};
use crate::vecmap::{VecMap, entries_map, lemma_entries_map_at};

verus! {

/// Maximum UDP payload size of QUIC packets.
pub const MAX_DATAGRAM_SIZE: usize = 1350;

/// QUIC idle timeout, in milliseconds.
pub const IDLE_TIMEOUT_MS: u64 = 30000;

/// ALPN protocol identifier: the bytes of "ztna-v1".
pub const ALPN_PROTOCOL: [u8; 7] = [0x7a, 0x74, 0x6e, 0x61, 0x2d, 0x76, 0x31];

/// Interval between keepalives to the relay server, in seconds.
pub const KEEPALIVE_INTERVAL_SECS: u64 = 10;

/// Default relay server port.
pub const DEFAULT_SERVER_PORT: u16 = 4433;

/// Default port of the local service.
pub const DEFAULT_FORWARD_PORT: u16 = 8080;

/// Default port for direct P2P connections.
pub const DEFAULT_P2P_PORT: u16 = 4434;

/// Registration type of a Connector.
pub const REG_TYPE_CONNECTOR: u8 = 0x11;

/// Largest TCP payload that fits a datagram with its IPv4 and TCP headers.
pub const MAX_TCP_PAYLOAD: usize = 1310;

/// Idle time after which a TCP session is dropped, in seconds.
pub const TCP_SESSION_TIMEOUT_SECS: u64 = 120;

/// Most TCP sessions at once.
pub const MAX_TCP_SESSIONS: usize = 256;

/// Idle time after which a UDP flow is forgotten, in seconds.
pub const UDP_FLOW_TIMEOUT_SECS: u64 = 60;

/// Keepalive request on the direct path.
pub const KEEPALIVE_REQUEST: u8 = 0x10;

/// Keepalive response on the direct path.
pub const KEEPALIVE_RESPONSE: u8 = 0x11;

/// Whether a packet is a P2P control message rather than QUIC: QUIC packets
/// have one of the two high bits of their first byte set.
pub fn is_p2p_control_packet(data: &[u8]) -> (r: bool)
    ensures
        r == (data@.len() > 0 && data@[0] & 0xC0 == 0),
{
    data.len() > 0 && (data[0] & 0xC0) == 0
}

/// What to do with a P2P control packet.
#[derive(Debug, Clone, Copy)]
pub enum ControlAction {
    /// Nothing
    Ignore,
    /// Send this keepalive response back
    KeepaliveResponse([u8; 5]),
    /// Read it as a binding message
    Binding,
}

/// The decision on a P2P control packet: a 5-byte keepalive request is
/// echoed as a response, other keepalives are ignored, anything else is a
/// binding message.
pub fn control_action(data: &[u8]) -> (r: ControlAction)
    ensures
        data@.len() == 0 ==> r is Ignore,
        data@.len() > 0 && data@[0] == KEEPALIVE_REQUEST ==> if data@.len() == 5 {
            r matches ControlAction::KeepaliveResponse(resp) && resp@ == seq![KEEPALIVE_RESPONSE] + data@.subrange(1, 5)
        } else {
            r is Ignore
        },
        data@.len() > 0 && data@[0] == KEEPALIVE_RESPONSE ==> r is Ignore,
        data@.len() > 0 && data@[0] != KEEPALIVE_REQUEST && data@[0] != KEEPALIVE_RESPONSE ==> r is Binding,
{
    if data.len() == 0 {
        return ControlAction::Ignore;
    }
    if data[0] == KEEPALIVE_REQUEST {
        if data.len() == 5 {
            let resp = [KEEPALIVE_RESPONSE, data[1], data[2], data[3], data[4]];
            assert(resp@ =~= seq![KEEPALIVE_RESPONSE] + data@.subrange(1, 5));
            ControlAction::KeepaliveResponse(resp)
        } else {
            ControlAction::Ignore
        }
    } else if data[0] == KEEPALIVE_RESPONSE {
        ControlAction::Ignore
    } else {
        ControlAction::Binding
    }
}

/// What an IPv4 packet from the tunnel is.
#[derive(Debug, Clone, Copy)]
pub enum IpPacket {
    /// Shorter than an IPv4 header, or its header is cut
    Malformed,
    /// Not IPv4
    NotIpv4,
    /// TCP, with the header length
    Tcp { header_len: usize, src: [u8; 4], dst: [u8; 4] },
    /// ICMP (protocol 1), with the header length
    Ping { header_len: usize, src: [u8; 4], dst: [u8; 4] },
    /// UDP: ports and the payload's range
    Udp { src: [u8; 4], src_port: u16, dst_port: u16, payload_start: usize, payload_end: usize },
    /// UDP whose header or payload is cut
    UdpTruncated,
    /// Another protocol
    Unsupported,
}

/// The IPv4 header length of a packet (its IHL in bytes).
pub open spec fn ip_header_len(d: Seq<u8>) -> int {
    ((d[0] % 16) * 4) as int
}

/// Source address of an IPv4 packet.
pub open spec fn ip_src(d: Seq<u8>) -> Seq<u8> {
    d.subrange(12, 16)
}

/// Destination address of an IPv4 packet.
pub open spec fn ip_dst(d: Seq<u8>) -> Seq<u8> {
    d.subrange(16, 20)
}

/// What `classify_ip_packet` gives.
pub open spec fn spec_ip_packet(d: Seq<u8>, r: IpPacket) -> bool {
    if d.len() < 20 {
        r is Malformed
    } else if d[0] / 16 != 4 {
        r is NotIpv4
    } else if d.len() < ip_header_len(d) {
        r is Malformed
    } else if d[9] == 6 {
        r matches IpPacket::Tcp { header_len, src, dst } && header_len == ip_header_len(d) && src@ == ip_src(d)
            && dst@ == ip_dst(d)
    } else if d[9] == 1 {
        r matches IpPacket::Ping { header_len, src, dst } && header_len == ip_header_len(d) && src@ == ip_src(d)
            && dst@ == ip_dst(d)
    } else if d[9] != 17 {
        r is Unsupported
    } else {
        let h = ip_header_len(d);
        if d.len() < h + 8 {
            r is UdpTruncated
        } else {
            let udp_len = from_be16(d[h + 4], d[h + 5]) as int;
            let payload_len = if udp_len >= 8 {
                udp_len - 8
            } else {
                0
            };
            if d.len() < h + 8 + payload_len {
                r is UdpTruncated
            } else {
                r matches IpPacket::Udp { src, src_port, dst_port, payload_start, payload_end } && src@ == ip_src(d)
                    && src_port == from_be16(d[h], d[h + 1]) && dst_port == from_be16(d[h + 2], d[h + 3])
                    && payload_start == h + 8 && payload_end == h + 8 + payload_len
            }
        }
    }
}

fn octets(d: &[u8], at: usize) -> (r: [u8; 4])
    requires
        at + 4 <= d@.len(),
    ensures
        r@ == d@.subrange(at as int, at + 4),
{
    let r = [d[at], d[at + 1], d[at + 2], d[at + 3]];
    assert(r@ =~= d@.subrange(at as int, at + 4));
    r
}

/// Classifies an IPv4 packet received through the tunnel.
pub fn classify_ip_packet(d: &[u8]) -> (r: IpPacket)
    ensures
        spec_ip_packet(d@, r),
{
    if d.len() < 20 {
        return IpPacket::Malformed;
    }
    if d[0] / 16 != 4 {
        return IpPacket::NotIpv4;
    }
    let h = ((d[0] % 16) as usize) * 4;
    if d.len() < h {
        return IpPacket::Malformed;
    }
    let protocol = d[9];
    let src = octets(d, 12);
    let dst = octets(d, 16);
    if protocol == 6 {
        return IpPacket::Tcp { header_len: h, src, dst };
    }
    if protocol == 1 {
        return IpPacket::Ping { header_len: h, src, dst };
    }
    if protocol != 17 {
        return IpPacket::Unsupported;
    }
    if d.len() < h + 8 {
        return IpPacket::UdpTruncated;
    }
    let src_port = u16_from_be(d[h], d[h + 1]);
    let dst_port = u16_from_be(d[h + 2], d[h + 3]);
    let udp_len = u16_from_be(d[h + 4], d[h + 5]) as usize;
    let payload_len = if udp_len >= 8 { udp_len - 8 } else { 0 };
    if d.len() < h + 8 + payload_len {
        return IpPacket::UdpTruncated;
    }
    IpPacket::Udp { src, src_port, dst_port, payload_start: h + 8, payload_end: h + 8 + payload_len }
}

/// The answer to an ICMP packet whose IPv4 header is `h` bytes, from `src`
/// to `dst`: an echo request (type 8, code 0, a header of 8 bytes at least)
/// is answered from `dst` to `src` with its echo reply; anything else gets
/// no answer.
pub open spec fn echo_reply(d: Seq<u8>, h: usize, src: [u8; 4], dst: [u8; 4]) -> Option<Seq<u8>> {
    if d.len() < h + 8 || d[h as int] != 8 || d[h + 1] != 0 {
        None
    } else {
        let request = d.subrange(h as int, d.len() as int);
        Some(checked_ipv4_header(20 + request.len(), 1, dst, src) + echo_reply_body(request))
    }
}

/// Answers an ICMP packet received through the tunnel (see `echo_reply`).
pub fn echo_reply_to(d: &[u8], header_len: usize, src: [u8; 4], dst: [u8; 4]) -> (r: Option<Vec<u8>>)
    requires
        header_len <= d@.len(),
        d@.len() + 20 <= usize::MAX,
    ensures
        opt_bytes(r) == echo_reply(d@, header_len, src, dst),
{
    if d.len() < header_len + 8 {
        return None;
    }
    if d[header_len] != 8 || d[header_len + 1] != 0 {
        return None;
    }
    let request = copy_range(d, header_len, d.len());
    build_icmp_reply(dst, src, request.as_slice())
}

/// The key of a UDP flow: agent address, agent port, service port.
pub open spec fn flow_key(src: [u8; 4], src_port: u16, dst_port: u16) -> u64 {
    (src[0] as int * 0x1_0000_0000_0000_00 + src[1] as int * 0x1_0000_0000_0000 + src[2] as int * 0x1_0000_0000_00
        + src[3] as int * 0x1_0000_0000 + src_port as int * 0x1_0000 + dst_port as int) as u64
}

fn make_flow_key(src: [u8; 4], src_port: u16, dst_port: u16) -> (r: u64)
    ensures
        r == flow_key(src, src_port, dst_port),
{
    (src[0] as u64) * 0x1_0000_0000_0000_00 + (src[1] as u64) * 0x1_0000_0000_0000 + (src[2] as u64) * 0x1_0000_0000_00
        + (src[3] as u64) * 0x1_0000_0000 + (src_port as u64) * 0x1_0000 + dst_port as u64
}

/// The parts of a flow key.
pub open spec fn flow_parts(k: u64) -> ([u8; 4], u16, u16) {
    (
        [(k / 0x1_0000_0000_0000_00) as u8, ((k / 0x1_0000_0000_0000) % 256) as u8, ((k / 0x1_0000_0000_00) % 256) as u8, (
        (k / 0x1_0000_0000) % 256) as u8],
        ((k / 0x1_0000) % 0x1_0000) as u16,
        (k % 0x1_0000) as u16,
    )
}

/// UDP flows seen from Agents, with the time each was last used, in order
/// of first use.
#[derive(Debug)]
pub struct FlowTable {
    pub flows: VecMap<u64, u64>,
}

impl FlowTable {
    /// The invariant of the map.
    pub open spec fn wf(&self) -> bool {
        self.flows.wf()
    }

    /// No flows.
    pub fn new() -> (t: FlowTable)
        ensures
            t.wf(),
            t.flows@ == Map::<u64, u64>::empty(),
    {
        FlowTable { flows: VecMap::new() }
    }

    /// Records that a flow was used at `now`.
    pub fn touch(&mut self, src: [u8; 4], src_port: u16, dst_port: u16, now: u64)
        requires
            old(self).wf(),
        ensures
            final(self).wf(),
            final(self).flows@ == old(self).flows@.insert(flow_key(src, src_port, dst_port), now),
    {
        let k = make_flow_key(src, src_port, dst_port);
        self.flows.insert(k, now);
    }

    /// The flow that return traffic goes to: the oldest one kept (agent
    /// address, agent port, service port).
    pub fn return_flow(&self) -> (r: Option<([u8; 4], u16, u16)>)
        requires
            self.wf(),
        ensures
            self.flows.spec_entries().len() == 0 ==> r is None,
            self.flows.spec_entries().len() > 0 ==> (r matches Some((a, p, q)) && (a@, p, q) == ({
                let parts = flow_parts(self.flows.spec_entries()[0].0);
                (parts.0@, parts.1, parts.2)
            })),
    {
        if self.flows.len() == 0 {
            return None;
        }
        let (k, _t) = self.flows.entry_at(0);
        let k = *k;
        let a = [(k / 0x1_0000_0000_0000_00) as u8, ((k / 0x1_0000_0000_0000) % 256) as u8, ((k / 0x1_0000_0000_00) % 256) as u8, (
        (k / 0x1_0000_0000) % 256) as u8];
        let r = (a, ((k / 0x1_0000) % 0x1_0000) as u16, (k % 0x1_0000) as u16);
        assert(a@ =~= flow_parts(k).0@);
        Some(r)
    }

    /// Forgets the flows idle for the flow timeout or longer at `now`.
    pub fn expire(&mut self, now: u64)
        requires
            old(self).wf(),
        ensures
            final(self).wf(),
            final(self).flows@ == old(self).flows@.restrict(
                Set::new(|k: u64| elapsed(old(self).flows@[k], now) < UDP_FLOW_TIMEOUT_SECS * 1000),
            ),
    {
        let ghost m0 = self.flows@;
        let ghost keep = Set::new(|k: u64| elapsed(m0[k], now) < UDP_FLOW_TIMEOUT_SECS * 1000);
        let ghost e = self.flows.spec_entries();
        let n = self.flows.len();
        let mut stale: Vec<u64> = Vec::new();
        let mut i: usize = 0;
        while i < n
            invariant
                n == e.len(),
                e == self.flows.spec_entries(),
                m0 == self.flows@,
                self.flows.wf(),
                i <= n,
                forall|k: u64| stale@.contains(k) <==> exists|j: int|
                    0 <= j < i && #[trigger] e[j].0 == k && elapsed(e[j].1, now) >= UDP_FLOW_TIMEOUT_SECS * 1000,
            decreases n - i,
        {
            let (k, t) = self.flows.entry_at(i);
            assert(e[i as int].0 == *k && e[i as int].1 == *t);
            let ghost before = stale@;
            if elapsed_ms(*t, now) >= UDP_FLOW_TIMEOUT_SECS * 1000 {
                stale.push(*k);
            }
            proof {
                assert forall|k: u64| stale@.contains(k) <==> exists|j: int|
                    0 <= j < i + 1 && #[trigger] e[j].0 == k && elapsed(e[j].1, now) >= UDP_FLOW_TIMEOUT_SECS * 1000 by {
                    if stale@.contains(k) {
                        let p = choose|p: int| 0 <= p < stale@.len() && stale@[p] == k;
                        if p < before.len() {
                            assert(before.contains(k));
                        }
                    }
                    if exists|j: int| 0 <= j < i + 1 && #[trigger] e[j].0 == k && elapsed(e[j].1, now) >= UDP_FLOW_TIMEOUT_SECS * 1000 {
                        let j = choose|j: int| 0 <= j < i + 1 && #[trigger] e[j].0 == k && elapsed(e[j].1, now) >= UDP_FLOW_TIMEOUT_SECS * 1000;
                        if j < i {
                            assert(before.contains(k));
                            let p = choose|p: int| 0 <= p < before.len() && before[p] == k;
                            assert(stale@[p] == k);
                        } else {
                            assert(stale@[stale@.len() - 1] == k);
                        }
                    }
                }
            }
            i = i + 1;
        }
        let ghost gone = stale@.to_set();
        assert(gone =~= Set::new(|k: u64| m0.contains_key(k) && !keep.contains(k))) by {
            assert forall|k: u64| gone.contains(k) <==> (m0.contains_key(k) && !keep.contains(k)) by {
                if gone.contains(k) {
                    let j = choose|j: int| 0 <= j < n && #[trigger] e[j].0 == k && elapsed(e[j].1, now) >= UDP_FLOW_TIMEOUT_SECS * 1000;
                    lemma_entries_map_at(e, j);
                }
                if m0.contains_key(k) && !keep.contains(k) {
                    crate::vecmap::lemma_entries_map_key(e, k);
                }
            }
        }
        let mut j: usize = 0;
        while j < stale.len()
            invariant
                self.flows.wf(),
                j <= stale@.len(),
                gone == stale@.to_set(),
                self.flows@ == m0.remove_keys(stale@.subrange(0, j as int).to_set()),
            decreases stale@.len() - j,
        {
            proof {
                assert(stale@.subrange(0, j + 1) =~= stale@.subrange(0, j as int).push(stale@[j as int]));
                stale@.subrange(0, j as int).lemma_push_to_set_commute(stale@[j as int]);
            }
            self.flows.remove(&stale[j]);
            assert(self.flows@ =~= m0.remove_keys(stale@.subrange(0, j + 1).to_set()));
            j = j + 1;
        }
        assert(stale@.subrange(0, j as int) =~= stale@);
        assert(self.flows@ =~= m0.restrict(keep));
    }
}

/// The registration message of a Connector for a service:
/// `[0x11, length (modulo 256), service id bytes...]`.
pub fn registration_message(service_id: &str) -> (r: Vec<u8>)
    ensures
        r@ == seq![REG_TYPE_CONNECTOR, (vstd::utf8::encode_utf8(service_id@).len() % 256) as u8] + vstd::utf8::encode_utf8(
            service_id@,
        ),
{
    let id = service_id.as_bytes();
    let mut msg: Vec<u8> = Vec::new();
    msg.push(REG_TYPE_CONNECTOR);
    msg.push((id.len() % 256) as u8);
    crate::bytes::push_bytes(&mut msg, id);
    assert(msg@ =~= seq![REG_TYPE_CONNECTOR, (id@.len() % 256) as u8] + id@);
    msg
}

/// Whether `i` is the first index of `flag` in `args`.
pub open spec fn first_flag(args: Seq<String>, flag: Seq<char>, i: int) -> bool {
    0 <= i < args.len() && args[i]@ == flag && forall|j: int| 0 <= j < i ==> (#[trigger] args[j])@ != flag
}

/// The value after `flag` in a list of arguments, if the flag is there and
/// is followed by a value (the first occurrence of the flag counts).
pub fn parse_arg(args: &Vec<String>, flag: &str) -> (r: Option<String>)
    ensures
        r is Some ==> exists|i: int| #[trigger] first_flag(args@, flag@, i) && i + 1 < args@.len() && r->0@ == args@[i + 1]@,
        r is None ==> (forall|i: int| 0 <= i < args@.len() ==> (#[trigger] args@[i])@ != flag@) || exists|i: int|
            #[trigger] first_flag(args@, flag@, i) && i + 1 == args@.len(),
{
    let target = String::from_str(flag);
    let mut i: usize = 0;
    while i < args.len()
        invariant
            i <= args@.len(),
            target@ == flag@,
            forall|j: int| 0 <= j < i ==> (#[trigger] args@[j])@ != flag@,
        decreases args@.len() - i,
    {
        if args[i] == target {
            assert(first_flag(args@, flag@, i as int));
            if i + 1 < args.len() {
                return Some(args[i + 1].clone());
            } else {
                return None;
            }
        }
        i = i + 1;
    }
    None
}

} // verus!
