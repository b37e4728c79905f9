//! Plain-value model of IP and socket addresses and their textual form.
use vstd::prelude::*;
use crate::text::{decimal, hex_lower, push_char, push_decimal, push_hex, push_str};

verus! {

/// An IP address: four octets (IPv4) or eight 16-bit segments (IPv6).
#[derive(Debug, Clone, Copy, PartialEq, Eq, Hash, Structural)]
pub enum IpAddr {
    V4(u8, u8, u8, u8),
    V6(u16, u16, u16, u16, u16, u16, u16, u16),
}

/// A transport address: an IP address and a port.
#[derive(Debug, Clone, Copy, PartialEq, Eq, Hash, Structural)]
pub struct SockAddr {
    pub ip: IpAddr,
    pub port: u16,
}

/// The eight segments of an IPv6 address, in order.
pub open spec fn v6_segments(ip: IpAddr) -> Seq<u16> {
    match ip {
        IpAddr::V6(a, b, c, d, e, f, g, h) => seq![a, b, c, d, e, f, g, h],
        IpAddr::V4(..) => Seq::empty(),
    }
}

/// Whether the address is a loopback address (127.0.0.0/8 or ::1).
pub open spec fn spec_is_loopback(ip: IpAddr) -> bool {
    match ip {
        IpAddr::V4(a, _, _, _) => a == 127,
        IpAddr::V6(a, b, c, d, e, f, g, h) => a == 0 && b == 0 && c == 0 && d == 0 && e == 0
            && f == 0 && g == 0 && h == 1,
    }
}

/// Whether the address is link-local (169.254.0.0/16 or fe80::/10).
pub open spec fn spec_is_link_local(ip: IpAddr) -> bool {
    match ip {
        IpAddr::V4(a, b, _, _) => a == 169 && b == 254,
        IpAddr::V6(a, ..) => 0xfe80 <= a && a <= 0xfebf,
    }
}

/// Dotted-decimal text of an IPv4 address.
pub open spec fn v4_text(a: u8, b: u8, c: u8, d: u8) -> Seq<char> {
    decimal(a as nat) + seq!['.'] + decimal(b as nat) + seq!['.'] + decimal(c as nat) + seq!['.']
        + decimal(d as nat)
}

/// Colon-separated lower-case hexadecimal segments.
pub open spec fn hex_groups(s: Seq<u16>) -> Seq<char>
    decreases s.len(),
{
    if s.len() == 0 {
        Seq::empty()
    } else if s.len() == 1 {
        hex_lower(s[0] as nat)
    } else {
        hex_groups(s.drop_last()) + seq![':'] + hex_lower(s.last() as nat)
    }
}

/// Number of consecutive zero segments starting at index `i`.
pub open spec fn zero_run(s: Seq<u16>, i: int) -> nat
    decreases s.len() - i,
{
    if 0 <= i < s.len() && s[i] == 0 {
        1 + zero_run(s, i + 1)
    } else {
        0
    }
}

/// Length of the longest run of zero segments starting before index `k`.
pub open spec fn longest_zero_run(s: Seq<u16>, k: int) -> nat
    decreases k,
{
    if k <= 0 {
        0
    } else {
        let prev = longest_zero_run(s, k - 1);
        if zero_run(s, k - 1) > prev {
            zero_run(s, k - 1)
        } else {
            prev
        }
    }
}

/// The first index before `k` at which a run of `len` zero segments starts (0 if none).
pub open spec fn first_run_start(s: Seq<u16>, k: int, len: nat) -> int
    decreases k,
{
    if k <= 0 {
        0
    } else if exists|j: int| 0 <= j < k - 1 && zero_run(s, j) == len {
        first_run_start(s, k - 1, len)
    } else {
        k - 1
    }
}

/// Whether an IPv6 address is an IPv4-mapped address (::ffff:a.b.c.d).
pub open spec fn is_v4_mapped(s: Seq<u16>) -> bool {
    s.len() == 8 && s[0] == 0 && s[1] == 0 && s[2] == 0 && s[3] == 0 && s[4] == 0 && s[5]
        == 0xffff
}

/// Text of an IPv6 address: IPv4-mapped addresses as `::ffff:a.b.c.d`; otherwise
/// lower-case hexadecimal groups, with the first longest run of two or more
/// zero groups written as `::`.
pub open spec fn v6_text(s: Seq<u16>) -> Seq<char> {
    if is_v4_mapped(s) {
        seq![':', ':', 'f', 'f', 'f', 'f', ':'] + v4_text(
            (s[6] / 256) as u8,
            (s[6] % 256) as u8,
            (s[7] / 256) as u8,
            (s[7] % 256) as u8,
        )
    } else {
        let len = longest_zero_run(s, 8);
        let start = first_run_start(s, 8, len);
        if len > 1 {
            hex_groups(s.subrange(0, start)) + seq![':', ':'] + hex_groups(
                s.subrange(start + len, 8),
            )
        } else {
            hex_groups(s)
        }
    }
}

/// Text of an IP address.
pub open spec fn ip_text(ip: IpAddr) -> Seq<char> {
    match ip {
        IpAddr::V4(a, b, c, d) => v4_text(a, b, c, d),
        IpAddr::V6(..) => v6_text(v6_segments(ip)),
    }
}

impl IpAddr {
    pub fn is_ipv4(&self) -> (r: bool)
        ensures
            r == (*self is V4),
    {
        match self {
            IpAddr::V4(..) => true,
            IpAddr::V6(..) => false,
        }
    }

    pub fn is_loopback(&self) -> (r: bool)
        ensures
            r == spec_is_loopback(*self),
    {
        match *self {
            IpAddr::V4(a, _, _, _) => a == 127,
            IpAddr::V6(a, b, c, d, e, f, g, h) => a == 0 && b == 0 && c == 0 && d == 0 && e == 0
                && f == 0 && g == 0 && h == 1,
        }
    }

    pub fn is_link_local(&self) -> (r: bool)
        ensures
            r == spec_is_link_local(*self),
    {
        match *self {
            IpAddr::V4(a, b, _, _) => a == 169 && b == 254,
            IpAddr::V6(a, ..) => {
                let masked = a & 0xffc0u16;
                assert(masked == 0xfe80u16 <==> (0xfe80 <= a && a <= 0xfebf)) by (bit_vector)
                    requires
                        masked == a & 0xffc0u16,
                ;
                masked == 0xfe80
            },
        }
    }

    /// Renders the address as text (dotted decimal for IPv4, RFC 5952 style for IPv6).
    pub fn to_text(&self) -> (s: String)
        ensures
            s@ == ip_text(*self),
    {
        let mut s = String::new();
        push_ip_text(&mut s, *self);
        assert(s@ =~= ip_text(*self));
        s
    }
}

/// Appends dotted-decimal IPv4 text.
pub fn push_v4_text(s: &mut String, a: u8, b: u8, c: u8, d: u8)
    ensures
        final(s)@ == old(s)@ + v4_text(a, b, c, d),
{
    push_decimal(s, a as u64);
    push_char(s, '.');
    push_decimal(s, b as u64);
    push_char(s, '.');
    push_decimal(s, c as u64);
    push_char(s, '.');
    push_decimal(s, d as u64);
    assert(final(s)@ =~= old(s)@ + v4_text(a, b, c, d));
}

/// Appends colon-separated hexadecimal groups `segs[from..to]`.
fn push_hex_groups(s: &mut String, segs: &[u16; 8], from: usize, to: usize)
    requires
        from <= to <= 8,
    ensures
        final(s)@ == old(s)@ + hex_groups(segs@.subrange(from as int, to as int)),
{
    let ghost start = old(s)@;
    let mut i = from;
    while i < to
        invariant
            from <= i <= to <= 8,
            s@ == start + hex_groups(segs@.subrange(from as int, i as int)),
        decreases to - i,
    {
        let ghost before = s@;
        if i > from {
            push_char(s, ':');
        }
        push_hex(s, segs[i]);
        proof {
            let sub = segs@.subrange(from as int, i + 1);
            assert(sub.drop_last() =~= segs@.subrange(from as int, i as int));
            assert(sub.last() == segs@[i as int]);
            if i == from {
                assert(segs@.subrange(from as int, i as int) =~= Seq::<u16>::empty());
                assert(sub.len() == 1);
            }
            assert(s@ =~= start + hex_groups(sub));
        }
        i = i + 1;
    }
}

/// Length of the zero run starting at `i` in `segs`.
fn zero_run_at(segs: &[u16; 8], i: usize) -> (n: usize)
    requires
        i <= 8,
    ensures
        n == zero_run(segs@, i as int),
        i + n <= 8,
{
    let mut j = i;
    while j < 8 && segs[j] == 0
        invariant
            i <= j <= 8,
            forall|k: int| i <= k < j ==> segs@[k] == 0,
            zero_run(segs@, i as int) == (j - i) + zero_run(segs@, j as int),
        decreases 8 - j,
    {
        proof {
            lemma_zero_run_step(segs@, i as int, j as int);
        }
        j = j + 1;
    }
    proof {
        assert(zero_run(segs@, j as int) == 0);
    }
    j - i
}

proof fn lemma_zero_run_step(s: Seq<u16>, i: int, j: int)
    requires
        0 <= i <= j < s.len(),
        s[j] == 0,
        zero_run(s, i) == (j - i) + zero_run(s, j),
    ensures
        zero_run(s, i) == (j + 1 - i) + zero_run(s, j + 1),
{
}

proof fn lemma_first_run_start_bound(s: Seq<u16>, k: int, len: nat)
    requires
        k >= 0,
    ensures
        0 <= first_run_start(s, k, len) <= if k > 0 { k - 1 } else { 0 },
    decreases k,
{
    if k > 0 {
        lemma_first_run_start_bound(s, k - 1, len);
    }
}

proof fn lemma_first_run_start_same(s: Seq<u16>, k: int, len: nat)
    requires
        k >= 0,
        exists|j: int| 0 <= j < k && zero_run(s, j) == len,
    ensures
        zero_run(s, first_run_start(s, k, len)) == len,
        forall|j: int| 0 <= j < first_run_start(s, k, len) ==> zero_run(s, j) != len,
    decreases k,
{
    if exists|j: int| 0 <= j < k - 1 && zero_run(s, j) == len {
        lemma_first_run_start_same(s, k - 1, len);
    } else {
    }
}

proof fn lemma_longest_achieved(s: Seq<u16>, k: int)
    requires
        k >= 1,
    ensures
        exists|j: int| 0 <= j < k && zero_run(s, j) == longest_zero_run(s, k),
        forall|j: int| 0 <= j < k ==> zero_run(s, j) <= longest_zero_run(s, k),
    decreases k,
{
    if k > 1 {
        lemma_longest_achieved(s, k - 1);
        if zero_run(s, k - 1) > longest_zero_run(s, k - 1) {
            assert(zero_run(s, k - 1) == longest_zero_run(s, k));
        } else {
            let w = choose|j: int| 0 <= j < k - 1 && zero_run(s, j) == longest_zero_run(s, k - 1);
            assert(zero_run(s, w) == longest_zero_run(s, k));
        }
    } else {
        assert(longest_zero_run(s, 0) == 0);
        assert(zero_run(s, 0) == longest_zero_run(s, 1));
    }
}

/// Finds the first longest zero run: (start, length).
fn longest_zero_span(segs: &[u16; 8]) -> (r: (usize, usize))
    ensures
        r.1 == longest_zero_run(segs@, 8),
        r.0 == first_run_start(segs@, 8, r.1 as nat),
        r.0 + r.1 <= 8,
{
    let mut best_start: usize = 0;
    let mut best_len: usize = 0;
    let mut i: usize = 0;
    while i < 8
        invariant
            i <= 8,
            best_len == longest_zero_run(segs@, i as int),
            i > 0 ==> best_start == first_run_start(segs@, i as int, best_len as nat),
            i == 0 ==> best_start == 0,
            best_start + best_len <= 8,
            i > 0 ==> zero_run(segs@, best_start as int) == best_len,
            i > 0 ==> best_start < i,
        decreases 8 - i,
    {
        let n = zero_run_at(segs, i);
        proof {
            if i > 0 {
                lemma_longest_achieved(segs@, i as int);
                lemma_first_run_start_same(segs@, i as int, best_len as nat);
            }
        }
        if n > best_len || i == 0 {
            proof {
                if i > 0 {
                    assert forall|j: int| 0 <= j < i implies zero_run(segs@, j) != n by {
                        assert(zero_run(segs@, j) <= best_len);
                    }
                }
                assert(!(exists|j: int| 0 <= j < i && zero_run(segs@, j) == n as nat));
            }
            best_start = i;
            best_len = n;
        } else {
            proof {
                assert(zero_run(segs@, best_start as int) == best_len);
                assert(exists|j: int| 0 <= j < i && zero_run(segs@, j) == best_len as nat);
            }
        }
        i = i + 1;
    }
    (best_start, best_len)
}

/// Appends the text of an IP address.
pub fn push_ip_text(s: &mut String, ip: IpAddr)
    ensures
        final(s)@ == old(s)@ + ip_text(ip),
{
    match ip {
        IpAddr::V4(a, b, c, d) => push_v4_text(s, a, b, c, d),
        IpAddr::V6(a, b, c, d, e, f, g, h) => {
            let segs: [u16; 8] = [a, b, c, d, e, f, g, h];
            assert(segs@ =~= v6_segments(ip));
            if a == 0 && b == 0 && c == 0 && d == 0 && e == 0 && f == 0xffff {
                push_str(s, "::ffff:");
                proof {
                    reveal_strlit("::ffff:");
                }
                push_v4_text(s, (g / 256) as u8, (g % 256) as u8, (h / 256) as u8, (h % 256) as u8);
                assert(final(s)@ =~= old(s)@ + ip_text(ip));
            } else {
                let (start, len) = longest_zero_span(&segs);
                proof {
                    lemma_first_run_start_bound(segs@, 8, len as nat);
                }
                if len > 1 {
                    push_hex_groups(s, &segs, 0, start);
                    push_char(s, ':');
                    push_char(s, ':');
                    push_hex_groups(s, &segs, start + len, 8);
                    assert(final(s)@ =~= old(s)@ + ip_text(ip));
                } else {
                    push_hex_groups(s, &segs, 0, 8);
                    assert(segs@.subrange(0, 8) =~= segs@);
                    assert(final(s)@ =~= old(s)@ + ip_text(ip));
                }
            }
        },
    }
}

/// Text of a socket address: `a.b.c.d:port` or `[v6]:port`.
pub open spec fn sock_text(addr: SockAddr) -> Seq<char> {
    match addr.ip {
        IpAddr::V4(..) => ip_text(addr.ip) + seq![':'] + decimal(addr.port as nat),
        IpAddr::V6(..) => seq!['['] + ip_text(addr.ip) + seq![']', ':'] + decimal(addr.port as nat),
    }
}

/// Appends the text of a socket address.
pub fn push_sock_text(s: &mut String, addr: SockAddr)
    ensures
        final(s)@ == old(s)@ + sock_text(addr),
{
    if addr.ip.is_ipv4() {
        push_ip_text(s, addr.ip);
    } else {
        push_char(s, '[');
        push_ip_text(s, addr.ip);
        push_char(s, ']');
    }
    push_char(s, ':');
    push_decimal(s, addr.port as u64);
    assert(final(s)@ =~= old(s)@ + sock_text(addr));
}

impl SockAddr {
    /// Renders the socket address as text.
    pub fn to_text(&self) -> (s: String)
        ensures
            s@ == sock_text(*self),
    {
        let mut s = String::new();
        push_sock_text(&mut s, *self);
        assert(s@ =~= sock_text(*self));
        s
    }

    pub fn new(ip: IpAddr, port: u16) -> (r: SockAddr)
        ensures
            r.ip == ip,
            r.port == port,
    {
        SockAddr { ip, port }
    }

    /// An IPv4 socket address `a.b.c.d:port`.
    pub fn v4(a: u8, b: u8, c: u8, d: u8, port: u16) -> (r: SockAddr)
        ensures
            r.ip == IpAddr::V4(a, b, c, d),
            r.port == port,
    {
        SockAddr { ip: IpAddr::V4(a, b, c, d), port }
    }

    pub fn ip(&self) -> (r: IpAddr)
        ensures
            r == self.ip,
    {
        self.ip
    }

    pub fn port(&self) -> (r: u16)
        ensures
            r == self.port,
    {
        self.port
    }

    pub fn is_ipv4(&self) -> (r: bool)
        ensures
            r == (self.ip is V4),
    {
        self.ip.is_ipv4()
    }
}

} // verus!
