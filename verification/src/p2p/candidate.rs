//! ICE candidates: types, priorities (RFC 8445 section 5.1.2.1) and gathering.
use vstd::prelude::*;
use crate::net::{IpAddr, SockAddr, ip_text, spec_is_link_local, spec_is_loopback, push_ip_text};
use crate::sort::{Prioritized, SpecPrioritized, sort_desc, stable_sort_desc};
use crate::text::{push_char, push_str};

verus! {

/// Type preference for host candidates (highest priority).
pub const HOST_TYPE_PREF: u32 = 126;

/// Type preference for server reflexive candidates.
pub const SRFLX_TYPE_PREF: u32 = 100;

/// Type preference for peer reflexive candidates.
pub const PRFLX_TYPE_PREF: u32 = 110;

/// Type preference for relay candidates (lowest priority).
pub const RELAY_TYPE_PREF: u32 = 0;

/// Local preference for IPv4 addresses.
pub const IPV4_LOCAL_PREF: u32 = 65535;

/// Local preference for IPv6 addresses.
pub const IPV6_LOCAL_PREF: u32 = 65534;

/// Component ID (a single component is used).
pub const COMPONENT_ID: u32 = 1;

/// Type of ICE candidate.
#[derive(Debug, Clone, Copy, PartialEq, Eq, Hash, Structural)]
pub enum CandidateType {
    /// Local network interface address
    Host,
    /// Server reflexive (public address from address discovery)
    ServerReflexive,
    /// Peer reflexive (discovered during connectivity checks)
    PeerReflexive,
    /// Relay candidate (via the relay server)
    Relay,
}

pub open spec fn spec_type_preference(t: CandidateType) -> u32 {
    match t {
        CandidateType::Host => 126,
        CandidateType::ServerReflexive => 100,
        CandidateType::PeerReflexive => 110,
        CandidateType::Relay => 0,
    }
}

/// Short label of a candidate type.
pub open spec fn type_label(t: CandidateType) -> Seq<char> {
    match t {
        CandidateType::Host => "host"@,
        CandidateType::ServerReflexive => "srflx"@,
        CandidateType::PeerReflexive => "prflx"@,
        CandidateType::Relay => "relay"@,
    }
}

impl CandidateType {
    /// Type preference value used in priority calculation.
    pub fn type_preference(&self) -> (r: u32)
        ensures
            r == spec_type_preference(*self),
    {
        match self {
            CandidateType::Host => HOST_TYPE_PREF,
            CandidateType::ServerReflexive => SRFLX_TYPE_PREF,
            CandidateType::PeerReflexive => PRFLX_TYPE_PREF,
            CandidateType::Relay => RELAY_TYPE_PREF,
        }
    }

    /// Short label ("host", "srflx", "prflx", "relay").
    pub fn label(&self) -> (r: &'static str)
        ensures
            r@ == type_label(*self),
    {
        match self {
            CandidateType::Host => "host",
            CandidateType::ServerReflexive => "srflx",
            CandidateType::PeerReflexive => "prflx",
            CandidateType::Relay => "relay",
        }
    }

    /// Text form of the type (its label).
    pub fn to_string(&self) -> (r: String)
        ensures
            r@ == type_label(*self),
    {
        String::from_str(self.label())
    }
}

/// Candidate priority per RFC 8445:
/// 2^24 * type_preference + 2^8 * local_preference + (256 - component_id),
/// with type_preference capped at 126, local_preference at 65535 and
/// component_id clamped to 1..=256.
pub open spec fn priority_formula(type_pref: u32, local_pref: u32, component_id: u32) -> int {
    let t = if type_pref > 126 { 126 } else { type_pref as int };
    let l = if local_pref > 65535 { 65535 } else { local_pref as int };
    let c = if component_id < 1 { 1 } else if component_id > 256 { 256 } else { component_id as int };
    16777216 * t + 256 * l + (256 - c)
}

/// Calculates a candidate priority (see `priority_formula`).
pub fn calculate_priority(type_pref: u32, local_pref: u32, component_id: u32) -> (r: u32)
    ensures
        r as int == priority_formula(type_pref, local_pref, component_id),
{
    let t: u32 = if type_pref > 126 { 126 } else { type_pref };
    let l: u32 = if local_pref > 65535 { 65535 } else { local_pref };
    let c: u32 = if component_id < 1 { 1 } else if component_id > 256 { 256 } else { component_id };
    let low: u32 = 256 - c;
    let r = (t << 24) | (l << 8) | low;
    assert(r == 16777216 * t + 256 * l + low) by (bit_vector)
        requires
            t <= 126,
            l <= 65535,
            low <= 255,
            r == (t << 24) | (l << 8) | low,
    ;
    r
}

/// Of two candidates for the same address, the one of the preferred type
/// has the higher priority: host above peer reflexive above server
/// reflexive above relay.
pub proof fn lemma_type_orders_priority(addr: SockAddr, r1: Option<SockAddr>, r2: Option<SockAddr>)
    ensures
        spec_candidate(CandidateType::Host, addr, r1).priority > spec_candidate(CandidateType::PeerReflexive, addr, r2).priority,
        spec_candidate(CandidateType::PeerReflexive, addr, r1).priority > spec_candidate(CandidateType::ServerReflexive, addr, r2).priority,
        spec_candidate(CandidateType::ServerReflexive, addr, r1).priority > spec_candidate(CandidateType::Relay, addr, r2).priority,
{
}

/// Local preference of an address: IPv4 before IPv6.
pub open spec fn spec_local_preference(addr: SockAddr) -> u32 {
    match addr.ip {
        IpAddr::V4(..) => 65535,
        IpAddr::V6(..) => 65534,
    }
}

fn local_preference(addr: &SockAddr) -> (r: u32)
    ensures
        r == spec_local_preference(*addr),
{
    match addr.ip {
        IpAddr::V4(..) => IPV4_LOCAL_PREF,
        IpAddr::V6(..) => IPV6_LOCAL_PREF,
    }
}

/// Foundation text: the type label, an underscore and the IP address (the port does not count).
pub open spec fn spec_foundation(t: CandidateType, addr: SockAddr) -> Seq<char> {
    type_label(t) + seq!['_'] + ip_text(addr.ip)
}

fn generate_foundation(candidate_type: CandidateType, addr: &SockAddr) -> (s: String)
    ensures
        s@ == spec_foundation(candidate_type, *addr),
{
    let mut s = String::new();
    push_str(&mut s, candidate_type.label());
    push_char(&mut s, '_');
    push_ip_text(&mut s, addr.ip);
    assert(s@ =~= spec_foundation(candidate_type, *addr));
    s
}

/// An ICE candidate: a potential address for connectivity.
#[derive(Debug, Clone, PartialEq, Eq)]
pub struct Candidate {
    /// Type of candidate (host, srflx, prflx, relay)
    pub candidate_type: CandidateType,
    /// Transport address
    pub address: SockAddr,
    /// Priority (higher = more preferred)
    pub priority: u32,
    /// Foundation string for candidate pairing
    pub foundation: String,
    /// Related address (e.g., host address for srflx)
    pub related_address: Option<SockAddr>,
}

/// Abstract value of a candidate.
pub struct CandidateView {
    pub candidate_type: CandidateType,
    pub address: SockAddr,
    pub priority: u32,
    pub foundation: Seq<char>,
    pub related_address: Option<SockAddr>,
}

impl View for Candidate {
    type V = CandidateView;

    open spec fn view(&self) -> CandidateView {
        CandidateView {
            candidate_type: self.candidate_type,
            address: self.address,
            priority: self.priority,
            foundation: self.foundation@,
            related_address: self.related_address,
        }
    }
}

/// The candidate that `Candidate::new` builds.
pub open spec fn spec_candidate(
    t: CandidateType,
    addr: SockAddr,
    related: Option<SockAddr>,
) -> CandidateView {
    CandidateView {
        candidate_type: t,
        address: addr,
        priority: priority_formula(spec_type_preference(t), spec_local_preference(addr), 1) as u32,
        foundation: spec_foundation(t, addr),
        related_address: related,
    }
}

/// Views of a sequence of candidates.
pub open spec fn candidate_views(s: Seq<Candidate>) -> Seq<CandidateView> {
    s.map_values(|c: Candidate| c@)
}

impl Candidate {
    /// Creates a candidate with its priority and foundation computed.
    pub fn new(
        candidate_type: CandidateType,
        address: SockAddr,
        related_address: Option<SockAddr>,
    ) -> (c: Candidate)
        ensures
            c@ == spec_candidate(candidate_type, address, related_address),
    {
        let local_pref = local_preference(&address);
        let priority = calculate_priority(candidate_type.type_preference(), local_pref, COMPONENT_ID);
        let foundation = generate_foundation(candidate_type, &address);
        Candidate { candidate_type, address, priority, foundation, related_address }
    }

    /// A host candidate for a local address.
    pub fn host(address: SockAddr) -> (c: Candidate)
        ensures
            c@ == spec_candidate(CandidateType::Host, address, None),
    {
        Self::new(CandidateType::Host, address, None)
    }

    /// A server reflexive candidate for an observed public address.
    pub fn server_reflexive(public_address: SockAddr, base_address: SockAddr) -> (c: Candidate)
        ensures
            c@ == spec_candidate(CandidateType::ServerReflexive, public_address, Some(base_address)),
    {
        Self::new(CandidateType::ServerReflexive, public_address, Some(base_address))
    }

    /// A relay candidate via the relay server.
    pub fn relay(relay_address: SockAddr, base_address: SockAddr) -> (c: Candidate)
        ensures
            c@ == spec_candidate(CandidateType::Relay, relay_address, Some(base_address)),
    {
        Self::new(CandidateType::Relay, relay_address, Some(base_address))
    }

    pub fn is_loopback(&self) -> (r: bool)
        ensures
            r == spec_is_loopback(self.address.ip),
    {
        self.address.ip.is_loopback()
    }

    pub fn is_link_local(&self) -> (r: bool)
        ensures
            r == spec_is_link_local(self.address.ip),
    {
        self.address.ip.is_link_local()
    }

    /// A copy of this candidate.
    pub fn duplicate(&self) -> (r: Candidate)
        ensures
            r == *self,
    {
        Candidate {
            candidate_type: self.candidate_type,
            address: self.address,
            priority: self.priority,
            foundation: self.foundation.clone(),
            related_address: self.related_address,
        }
    }

    /// Text form: "<type> <address> priority <p> foundation <f>".
    pub fn to_string(&self) -> (s: String)
        ensures
            s@ == type_label(self.candidate_type) + seq![' '] + crate::net::sock_text(self.address)
                + " priority "@ + crate::text::decimal(self.priority as nat) + " foundation "@
                + self.foundation@,
    {
        let mut s = String::new();
        push_str(&mut s, self.candidate_type.label());
        push_char(&mut s, ' ');
        crate::net::push_sock_text(&mut s, self.address);
        push_str(&mut s, " priority ");
        crate::text::push_decimal(&mut s, self.priority as u64);
        push_str(&mut s, " foundation ");
        push_str(&mut s, self.foundation.as_str());
        assert(s@ =~= type_label(self.candidate_type) + seq![' '] + crate::net::sock_text(self.address)
                + " priority "@ + crate::text::decimal(self.priority as nat) + " foundation "@
                + self.foundation@);
        s
    }
}

impl SpecPrioritized for Candidate {
    open spec fn spec_priority(&self) -> int {
        self.priority as int
    }
}

impl Prioritized for Candidate {
    fn priority_key(&self) -> (r: u64) {
        self.priority as u64
    }
}

/// A copy of a list of candidates.
pub fn clone_candidates(v: &Vec<Candidate>) -> (r: Vec<Candidate>)
    ensures
        r@ == v@,
{
    let mut r: Vec<Candidate> = Vec::new();
    let mut i: usize = 0;
    while i < v.len()
        invariant
            i <= v@.len(),
            r@ == v@.subrange(0, i as int),
        decreases v@.len() - i,
    {
        r.push(v[i].duplicate());
        assert(r@ =~= v@.subrange(0, i + 1));
        i = i + 1;
    }
    assert(v@.subrange(0, i as int) =~= v@);
    r
}

/// Host candidates for the addresses that are kept (all, or only non-loopback ones).
pub open spec fn spec_host_candidates(addrs: Seq<SockAddr>, include_loopback: bool) -> Seq<CandidateView>
    decreases addrs.len(),
{
    if addrs.len() == 0 {
        Seq::empty()
    } else {
        let rest = spec_host_candidates(addrs.drop_last(), include_loopback);
        if include_loopback || !spec_is_loopback(addrs.last().ip) {
            rest.push(spec_candidate(CandidateType::Host, addrs.last(), None))
        } else {
            rest
        }
    }
}

/// Creates host candidates from local addresses, skipping loopback addresses
/// unless `include_loopback` is set.
pub fn gather_host_candidates(local_addrs: &[SockAddr], include_loopback: bool) -> (r: Vec<Candidate>)
    ensures
        candidate_views(r@) == spec_host_candidates(local_addrs@, include_loopback),
{
    let mut r: Vec<Candidate> = Vec::new();
    let mut i: usize = 0;
    while i < local_addrs.len()
        invariant
            i <= local_addrs@.len(),
            candidate_views(r@) == spec_host_candidates(local_addrs@.subrange(0, i as int), include_loopback),
        decreases local_addrs@.len() - i,
    {
        let addr = local_addrs[i];
        proof {
            assert(local_addrs@.subrange(0, i + 1).drop_last() =~= local_addrs@.subrange(0, i as int));
        }
        if include_loopback || !addr.ip.is_loopback() {
            let c = Candidate::host(addr);
            r.push(c);
        }
        assert(candidate_views(r@) =~= spec_host_candidates(local_addrs@.subrange(0, i + 1), include_loopback));
        i = i + 1;
    }
    assert(local_addrs@.subrange(0, i as int) =~= local_addrs@);
    r
}

/// The local socket addresses on `port` for the IPv4 addresses of the
/// network interfaces, in order, loopback ones left out.
pub open spec fn spec_local_addresses(ips: Seq<[u8; 4]>, port: u16) -> Seq<SockAddr>
    decreases ips.len(),
{
    if ips.len() == 0 {
        Seq::empty()
    } else {
        let rest = spec_local_addresses(ips.drop_last(), port);
        if ips.last()[0] == 127 {
            rest
        } else {
            rest.push(SockAddr { ip: IpAddr::V4(ips.last()[0], ips.last()[1], ips.last()[2], ips.last()[3]), port })
        }
    }
}

/// The local socket addresses on `port` for the IPv4 addresses of the
/// network interfaces (see `spec_local_addresses`).
pub fn local_addresses_from(ips: &[[u8; 4]], port: u16) -> (r: Vec<SockAddr>)
    ensures
        r@ == spec_local_addresses(ips@, port),
{
    let mut r: Vec<SockAddr> = Vec::new();
    let mut i: usize = 0;
    while i < ips.len()
        invariant
            i <= ips@.len(),
            r@ == spec_local_addresses(ips@.subrange(0, i as int), port),
        decreases ips@.len() - i,
    {
        let ip = ips[i];
        proof {
            assert(ips@.subrange(0, i + 1).drop_last() =~= ips@.subrange(0, i as int));
        }
        if ip[0] != 127 {
            r.push(SockAddr { ip: IpAddr::V4(ip[0], ip[1], ip[2], ip[3]), port });
        }
        assert(r@ =~= spec_local_addresses(ips@.subrange(0, i + 1), port));
        i = i + 1;
    }
    assert(ips@.subrange(0, i as int) =~= ips@);
    r
}

/// Creates a server reflexive candidate, unless the observed address has the
/// same IP as the base address (no NAT in between).
pub fn gather_reflexive_candidate(reflexive_addr: SockAddr, base_addr: SockAddr) -> (r: Option<Candidate>)
    ensures
        reflexive_addr.ip == base_addr.ip ==> r is None,
        reflexive_addr.ip != base_addr.ip ==> r is Some && r->0@ == spec_candidate(
            CandidateType::ServerReflexive,
            reflexive_addr,
            Some(base_addr),
        ),
{
    if reflexive_addr.ip == base_addr.ip {
        return None;
    }
    Some(Candidate::server_reflexive(reflexive_addr, base_addr))
}

/// Creates a relay candidate for the relay server address.
pub fn gather_relay_candidate(intermediate_addr: SockAddr, base_addr: SockAddr) -> (r: Candidate)
    ensures
        r@ == spec_candidate(CandidateType::Relay, intermediate_addr, Some(base_addr)),
{
    Candidate::relay(intermediate_addr, base_addr)
}

/// Sorts candidates by priority, highest first; equal priorities keep their order.
pub fn sort_candidates_by_priority(candidates: &mut Vec<Candidate>)
    ensures
        final(candidates)@ == sort_desc(old(candidates)@),
{
    stable_sort_desc(candidates);
}

} // verus!
