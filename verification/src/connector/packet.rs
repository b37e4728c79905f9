//! IPv4 packets built by the Connector (UDP, TCP, ICMP echo replies) and the
//! Internet checksum (RFC 1071) they carry. Addresses are four octets.
use vstd::prelude::*;
use crate::bytes::{be16, be32, push_be16, push_be32, push_bytes};

verus! {

/// TCP flag FIN.
pub const TCP_FIN: u8 = 0x01;

/// TCP flag SYN.
pub const TCP_SYN: u8 = 0x02;

/// TCP flag RST.
pub const TCP_RST: u8 = 0x04;

/// TCP flag PSH.
pub const TCP_PSH: u8 = 0x08;

/// TCP flag ACK.
pub const TCP_ACK: u8 = 0x10;

/// The 16-bit word at even offset `j` (a missing low byte counts as zero).
pub open spec fn word_at(d: Seq<u8>, j: int) -> nat {
    (d[j] as nat) * 256 + if j + 1 < d.len() {
        d[j + 1] as nat
    } else {
        0nat
    }
}

/// Sum of the first `n` 16-bit words of `d`.
pub open spec fn sum_words(d: Seq<u8>, n: nat) -> nat
    decreases n,
{
    if n == 0 {
        0
    } else {
        sum_words(d, (n - 1) as nat) + word_at(d, 2 * (n - 1))
    }
}

/// Number of 16-bit words of `d` (the last may be half).
pub open spec fn word_count(d: Seq<u8>) -> nat {
    ((d.len() + 1) / 2) as nat
}

/// Folds the carries of a sum into 16 bits (one's complement addition).
pub open spec fn fold16(x: nat) -> nat
    decreases x,
{
    if x < 65536 {
        x
    } else {
        fold16(x % 65536 + x / 65536)
    }
}

/// The one's complement of the folded sum, taken modulo 2^32 first as a
/// 32-bit accumulator does.
pub open spec fn finish(total: nat) -> u16 {
    (65535 - fold16(total % 0x1_0000_0000)) as u16
}

/// The Internet checksum of `d` added to a sum `base` (a pseudo-header).
pub open spec fn checksum_with(base: nat, d: Seq<u8>) -> u16 {
    finish(base + sum_words(d, word_count(d)))
}

/// Adds `w` to a 32-bit accumulator, wrapping.
fn add32(sum: u32, w: u32) -> (r: u32)
    ensures
        r == (sum + w) % 0x1_0000_0000,
{
    ((sum as u64 + w as u64) % 0x1_0000_0000) as u32
}

/// The sum of the words of `d` added to the 32-bit accumulator `start`.
fn sum_into(start: u32, d: &[u8]) -> (r: u32)
    ensures
        r == (start + sum_words(d@, word_count(d@))) % 0x1_0000_0000,
{
    let n = d.len() / 2 + d.len() % 2;
    let mut sum = start;
    let mut w: usize = 0;
    while w < n
        invariant
            n == word_count(d@),
            w <= n,
            sum == (start + sum_words(d@, w as nat)) % 0x1_0000_0000,
        decreases n - w,
    {
        let i = 2 * w;
        let word: u32 = if i + 1 < d.len() {
            (d[i] as u32) * 256 + d[i + 1] as u32
        } else {
            (d[i] as u32) * 256
        };
        assert(word == word_at(d@, i as int));
        proof {
            vstd::arithmetic::div_mod::lemma_add_mod_noop(start + sum_words(d@, w as nat), word as int, 0x1_0000_0000);
            vstd::arithmetic::div_mod::lemma_mod_twice(word as int, 0x1_0000_0000);
        }
        sum = add32(sum, word);
        w = w + 1;
    }
    sum
}

/// Folds the carries of a 32-bit sum and complements it.
fn fold_complement(sum: u32) -> (r: u16)
    ensures
        r == (65535 - fold16(sum as nat)) as u16,
{
    let mut s = sum;
    while s >= 65536
        invariant
            fold16(s as nat) == fold16(sum as nat),
        decreases s,
    {
        assert(s & 0xFFFF == s % 65536 && s >> 16 == s / 65536) by (bit_vector);
        s = (s & 0xFFFF) + (s >> 16);
    }
    proof {
        lemma_fold16_small(s as nat);
    }
    (65535 - s) as u16
}

proof fn lemma_fold16_small(x: nat)
    ensures
        fold16(x) <= 65535,
    decreases x,
{
    if x >= 65536 {
        assert(x % 65536 + x / 65536 < x) by (nonlinear_arith)
            requires
                x >= 65536,
        ;
        lemma_fold16_small(x % 65536 + x / 65536);
    }
}

/// The Internet checksum of `d`: the one's complement of the one's
/// complement sum of its 16-bit big-endian words.
pub fn internet_checksum(d: &[u8]) -> (r: u16)
    ensures
        r == checksum_with(0, d@),
{
    let s = sum_into(0, d);
    fold_complement(s)
}

/// The IPv4 header checksum.
pub fn ip_checksum(header: &[u8]) -> (r: u16)
    ensures
        r == checksum_with(0, header@),
{
    internet_checksum(header)
}

/// The ICMP checksum.
pub fn icmp_checksum(data: &[u8]) -> (r: u16)
    ensures
        r == checksum_with(0, data@),
{
    internet_checksum(data)
}

/// Sum of the TCP pseudo-header words: addresses, protocol (6) and the
/// segment length (taken modulo 2^32).
pub open spec fn pseudo_sum(src: [u8; 4], dst: [u8; 4], len: nat) -> nat {
    (src[0] as nat) * 256 + src[1] as nat + (src[2] as nat) * 256 + src[3] as nat + (dst[0] as nat) * 256
        + dst[1] as nat + (dst[2] as nat) * 256 + dst[3] as nat + 6 + len % 0x1_0000_0000
}

/// The TCP checksum of a segment over its pseudo-header.
pub fn tcp_checksum(src_ip: [u8; 4], dst_ip: [u8; 4], tcp_segment: &[u8]) -> (r: u16)
    ensures
        r == checksum_with(pseudo_sum(src_ip, dst_ip, tcp_segment@.len()), tcp_segment@),
{
    let base: u32 = (src_ip[0] as u32) * 256 + src_ip[1] as u32 + (src_ip[2] as u32) * 256 + src_ip[3] as u32 + (
    dst_ip[0] as u32) * 256 + dst_ip[1] as u32 + (dst_ip[2] as u32) * 256 + dst_ip[3] as u32 + 6;
    let len32: u32 = ((tcp_segment.len() as u64) % 0x1_0000_0000) as u32;
    let start = add32(base, len32);
    let s = sum_into(start, tcp_segment);
    proof {
        let b = pseudo_sum(src_ip, dst_ip, tcp_segment@.len());
        let w = sum_words(tcp_segment@, word_count(tcp_segment@));
        vstd::arithmetic::div_mod::lemma_add_mod_noop(b as int, w as int, 0x1_0000_0000);
        vstd::arithmetic::div_mod::lemma_add_mod_noop((base + len32) as int, w as int, 0x1_0000_0000);
        vstd::arithmetic::div_mod::lemma_mod_twice((base + len32) as int, 0x1_0000_0000);
    }
    fold_complement(s)
}

/// An IPv4 header without options: version 4, header length 5 words, total
/// length (modulo 2^16), don't fragment, TTL 64, the protocol, the checksum
/// and the addresses.
pub open spec fn ipv4_header(total_len: nat, protocol: u8, checksum: u16, src: [u8; 4], dst: [u8; 4]) -> Seq<u8> {
    seq![0x45u8, 0] + be16((total_len % 65536) as u16) + seq![0u8, 0, 0x40, 0, 64, protocol] + be16(checksum)
        + src@ + dst@
}

/// The IPv4 header with its checksum computed.
pub open spec fn checked_ipv4_header(total_len: nat, protocol: u8, src: [u8; 4], dst: [u8; 4]) -> Seq<u8> {
    ipv4_header(total_len, protocol, checksum_with(0, ipv4_header(total_len, protocol, 0, src, dst)), src, dst)
}

fn push_ipv4_header(p: &mut Vec<u8>, total_len: usize, protocol: u8, src: [u8; 4], dst: [u8; 4])
    ensures
        final(p)@ == old(p)@ + checked_ipv4_header(total_len as nat, protocol, src, dst),
{
    let mut h: Vec<u8> = Vec::new();
    push_ipv4_fields(&mut h, total_len, protocol, 0, src, dst);
    let c = ip_checksum(h.as_slice());
    push_ipv4_fields(p, total_len, protocol, c, src, dst);
}

fn push_ipv4_fields(p: &mut Vec<u8>, total_len: usize, protocol: u8, checksum: u16, src: [u8; 4], dst: [u8; 4])
    ensures
        final(p)@ == old(p)@ + ipv4_header(total_len as nat, protocol, checksum, src, dst),
{
    p.push(0x45);
    p.push(0);
    push_be16(p, (total_len % 65536) as u16);
    p.push(0);
    p.push(0);
    p.push(0x40);
    p.push(0);
    p.push(64);
    p.push(protocol);
    push_be16(p, checksum);
    push_bytes(p, src.as_slice());
    push_bytes(p, dst.as_slice());
    assert(final(p)@ =~= old(p)@ + ipv4_header(total_len as nat, protocol, checksum, src, dst));
}

/// An IPv4/UDP packet: header, UDP header (ports, length modulo 2^16, zero
/// checksum) and payload.
pub open spec fn udp_packet(src: [u8; 4], src_port: u16, dst: [u8; 4], dst_port: u16, payload: Seq<u8>) -> Seq<u8> {
    let udp_len = 8 + payload.len();
    checked_ipv4_header(20 + udp_len, 17, src, dst) + be16(src_port) + be16(dst_port) + be16((udp_len % 65536) as u16)
        + seq![0u8, 0] + payload
}

/// Builds an IPv4/UDP packet.
pub fn build_udp_packet(src_ip: [u8; 4], src_port: u16, dst_ip: [u8; 4], dst_port: u16, payload: &[u8]) -> (r: Vec<u8>)
    requires
        payload@.len() + 28 <= usize::MAX,
    ensures
        r@ == udp_packet(src_ip, src_port, dst_ip, dst_port, payload@),
{
    let udp_len = 8 + payload.len();
    let total_len = 20 + udp_len;
    let mut p: Vec<u8> = Vec::new();
    push_ipv4_header(&mut p, total_len, 17, src_ip, dst_ip);
    push_be16(&mut p, src_port);
    push_be16(&mut p, dst_port);
    push_be16(&mut p, (udp_len % 65536) as u16);
    p.push(0);
    p.push(0);
    push_bytes(&mut p, payload);
    assert(p@ =~= udp_packet(src_ip, src_port, dst_ip, dst_port, payload@));
    p
}

/// A TCP segment: ports, sequence and acknowledgement numbers, data offset
/// 5 words, flags, window, the checksum, no urgent pointer, and the payload.
pub open spec fn tcp_segment(
    src_port: u16,
    dst_port: u16,
    seq: u32,
    ack: u32,
    flags: u8,
    window: u16,
    checksum: u16,
    payload: Seq<u8>,
) -> Seq<u8> {
    be16(src_port) + be16(dst_port) + be32(seq) + be32(ack) + seq![0x50u8, flags] + be16(window) + be16(checksum)
        + seq![0u8, 0] + payload
}

/// An IPv4/TCP packet with both checksums computed.
pub open spec fn tcp_packet(
    src: [u8; 4],
    src_port: u16,
    dst: [u8; 4],
    dst_port: u16,
    seq: u32,
    ack: u32,
    flags: u8,
    window: u16,
    payload: Seq<u8>,
) -> Seq<u8> {
    let zero = tcp_segment(src_port, dst_port, seq, ack, flags, window, 0, payload);
    let c = checksum_with(pseudo_sum(src, dst, zero.len()), zero);
    checked_ipv4_header(40 + payload.len(), 6, src, dst) + tcp_segment(src_port, dst_port, seq, ack, flags, window, c, payload)
}

fn push_tcp_segment(
    p: &mut Vec<u8>,
    src_port: u16,
    dst_port: u16,
    seq: u32,
    ack: u32,
    flags: u8,
    window: u16,
    checksum: u16,
    payload: &[u8],
)
    ensures
        final(p)@ == old(p)@ + tcp_segment(src_port, dst_port, seq, ack, flags, window, checksum, payload@),
{
    push_be16(p, src_port);
    push_be16(p, dst_port);
    push_be32(p, seq);
    push_be32(p, ack);
    p.push(0x50);
    p.push(flags);
    push_be16(p, window);
    push_be16(p, checksum);
    p.push(0);
    p.push(0);
    push_bytes(p, payload);
    assert(final(p)@ =~= old(p)@ + tcp_segment(src_port, dst_port, seq, ack, flags, window, checksum, payload@));
}

/// Builds an IPv4/TCP packet.
pub fn build_tcp_packet(
    src_ip: [u8; 4],
    src_port: u16,
    dst_ip: [u8; 4],
    dst_port: u16,
    seq: u32,
    ack: u32,
    flags: u8,
    window: u16,
    payload: &[u8],
) -> (r: Vec<u8>)
    requires
        payload@.len() + 40 <= usize::MAX,
    ensures
        r@ == tcp_packet(src_ip, src_port, dst_ip, dst_port, seq, ack, flags, window, payload@),
{
    let mut seg: Vec<u8> = Vec::new();
    push_tcp_segment(&mut seg, src_port, dst_port, seq, ack, flags, window, 0, payload);
    assert(seg@ =~= tcp_segment(src_port, dst_port, seq, ack, flags, window, 0, payload@));
    let c = tcp_checksum(src_ip, dst_ip, seg.as_slice());
    let mut p: Vec<u8> = Vec::new();
    push_ipv4_header(&mut p, 40 + payload.len(), 6, src_ip, dst_ip);
    push_tcp_segment(&mut p, src_port, dst_port, seq, ack, flags, window, c, payload);
    assert(p@ =~= tcp_packet(src_ip, src_port, dst_ip, dst_port, seq, ack, flags, window, payload@));
    p
}

/// The ICMP echo reply to a request: the request with type 0 and its
/// checksum recomputed.
pub open spec fn echo_reply_body(request: Seq<u8>) -> Seq<u8> {
    let zeroed = request.update(0, 0).update(2, 0).update(3, 0);
    zeroed.update(2, be16(checksum_with(0, zeroed))[0]).update(3, be16(checksum_with(0, zeroed))[1])
}

/// Builds the ICMP echo reply packet to an echo request (at least 8 bytes),
/// from `src_ip` to `dst_ip`.
pub fn build_icmp_reply(src_ip: [u8; 4], dst_ip: [u8; 4], echo_request: &[u8]) -> (r: Option<Vec<u8>>)
    requires
        echo_request@.len() + 20 <= usize::MAX,
    ensures
        echo_request@.len() < 8 ==> r is None,
        echo_request@.len() >= 8 ==> (r matches Some(p) && p@ == checked_ipv4_header(
            20 + echo_request@.len(),
            1,
            src_ip,
            dst_ip,
        ) + echo_reply_body(echo_request@)),
{
    if echo_request.len() < 8 {
        return None;
    }
    let mut body: Vec<u8> = Vec::new();
    push_bytes(&mut body, echo_request);
    body.set(0, 0);
    body.set(2, 0);
    body.set(3, 0);
    let c = icmp_checksum(body.as_slice());
    let cb = crate::bytes::u16_to_be(c);
    body.set(2, cb[0]);
    body.set(3, cb[1]);
    let mut p: Vec<u8> = Vec::new();
    push_ipv4_header(&mut p, 20 + echo_request.len(), 1, src_ip, dst_ip);
    push_bytes(&mut p, body.as_slice());
    proof {
        assert(body@ =~= echo_reply_body(echo_request@));
    }
    Some(p)
}

/// Replacing a zero word at even offset `k` adds the new word to the sum.
proof fn lemma_sum_words_update(d: Seq<u8>, k: int, hi: u8, lo: u8, n: nat)
    requires
        0 <= k,
        k % 2 == 0,
        k + 1 < d.len(),
        d[k] == 0,
        d[k + 1] == 0,
        n <= word_count(d),
    ensures
        sum_words(d.update(k, hi).update(k + 1, lo), n) == sum_words(d, n) + if 2 * n > k {
            (hi as nat) * 256 + lo as nat
        } else {
            0nat
        },
    decreases n,
{
    let e = d.update(k, hi).update(k + 1, lo);
    if n > 0 {
        lemma_sum_words_update(d, k, hi, lo, (n - 1) as nat);
        let j = 2 * (n - 1);
        if j == k {
            assert(word_at(e, j) == (hi as nat) * 256 + lo as nat);
            assert(word_at(d, j) == 0);
        } else {
            assert(e[j] == d[j]);
            if j + 1 < d.len() {
                assert(e[j + 1] == d[j + 1]);
            }
            assert(word_at(e, j) == word_at(d, j));
        }
    }
}

/// Folding keeps the value modulo 65535, stays within 16 bits and is zero
/// only for zero.
proof fn lemma_fold16(x: nat)
    ensures
        fold16(x) % 65535 == x % 65535,
        fold16(x) <= 65535,
        x > 0 ==> fold16(x) > 0,
    decreases x,
{
    if x >= 65536 {
        let y = x % 65536 + x / 65536;
        assert(y < x && y % 65535 == x % 65535 && y > 0) by (nonlinear_arith)
            requires
                x >= 65536,
                y == x % 65536 + x / 65536,
        {
            let q = x / 65536;
            let r = x % 65536;
            assert(x == 65536 * q + r);
            assert(x == 65535 * q + y);
        }
        lemma_fold16(y);
    }
}

/// A checksum written into its zeroed field makes the checksum zero, while
/// the sum stays below 2^32 (every packet of at most 64 KiB).
pub proof fn lemma_checksum_verifies(base: nat, d: Seq<u8>, k: int)
    requires
        0 <= k,
        k % 2 == 0,
        k + 1 < d.len(),
        d[k] == 0,
        d[k + 1] == 0,
        base + sum_words(d, word_count(d)) + 65535 < 0x1_0000_0000,
    ensures
        checksum_with(
            base,
            d.update(k, be16(checksum_with(base, d))[0]).update(k + 1, be16(checksum_with(base, d))[1]),
        ) == 0,
{
    let s = base + sum_words(d, word_count(d));
    let c = checksum_with(base, d);
    lemma_fold16(s);
    assert(s % 0x1_0000_0000 == s);
    let hi = be16(c)[0];
    let lo = be16(c)[1];
    assert((hi as nat) * 256 + lo as nat == c);
    lemma_sum_words_update(d, k, hi, lo, word_count(d));
    let e = d.update(k, hi).update(k + 1, lo);
    let s2 = base + sum_words(e, word_count(e));
    assert(word_count(e) == word_count(d));
    assert(2 * word_count(d) > k);
    assert(s2 == s + c);
    assert(c == 65535 - fold16(s));
    assert(s2 % 0x1_0000_0000 == s2);
    lemma_fold16(s2);
    assert(s2 % 65535 == 0) by (nonlinear_arith)
        requires
            s2 == s + 65535 - fold16(s),
            fold16(s) % 65535 == s % 65535,
            fold16(s) <= 65535,
    ;
    assert(s2 > 0) by {
        if fold16(s) == 65535 {
            assert(s > 0);
        }
    }
    assert(fold16(s2) == 65535);
}

proof fn lemma_sum_words_bound(d: Seq<u8>, n: nat)
    ensures
        sum_words(d, n) <= 65535 * n,
    decreases n,
{
    if n > 0 {
        lemma_sum_words_bound(d, (n - 1) as nat);
        let j = 2 * (n - 1);
        assert(word_at(d, j) <= 65535);
    }
}

/// Every IPv4 header built here verifies: its checksum over the header with
/// the checksum written in is zero.
pub proof fn lemma_ipv4_header_verifies(total_len: nat, protocol: u8, src: [u8; 4], dst: [u8; 4])
    ensures
        checksum_with(0, checked_ipv4_header(total_len, protocol, src, dst)) == 0,
{
    let d = ipv4_header(total_len, protocol, 0, src, dst);
    let c = checksum_with(0, d);
    lemma_sum_words_bound(d, word_count(d));
    lemma_checksum_verifies(0, d, 10);
    assert(d.update(10, be16(c)[0]).update(11, be16(c)[1]) =~= checked_ipv4_header(total_len, protocol, src, dst));
}

/// The TCP checksum of every segment built here (up to 64 KiB) verifies:
/// over the pseudo-header and the segment with its checksum it is zero.
pub proof fn lemma_tcp_segment_verifies(
    src: [u8; 4],
    src_port: u16,
    dst: [u8; 4],
    dst_port: u16,
    seq: u32,
    ack: u32,
    flags: u8,
    window: u16,
    payload: Seq<u8>,
)
    requires
        20 + payload.len() <= 65535,
    ensures
        ({
            let zero = tcp_segment(src_port, dst_port, seq, ack, flags, window, 0, payload);
            let c = checksum_with(pseudo_sum(src, dst, zero.len()), zero);
            let seg = tcp_segment(src_port, dst_port, seq, ack, flags, window, c, payload);
            checksum_with(pseudo_sum(src, dst, seg.len()), seg) == 0
        }),
{
    let zero = tcp_segment(src_port, dst_port, seq, ack, flags, window, 0, payload);
    let base = pseudo_sum(src, dst, zero.len());
    let c = checksum_with(base, zero);
    lemma_sum_words_bound(zero, word_count(zero));
    assert(65535 * word_count(zero) <= 65535 * 32768) by (nonlinear_arith)
        requires
            word_count(zero) <= 32768,
    ;
    lemma_checksum_verifies(base, zero, 16);
    assert(zero.update(16, be16(c)[0]).update(17, be16(c)[1]) =~= tcp_segment(
        src_port,
        dst_port,
        seq,
        ack,
        flags,
        window,
        c,
        payload,
    ));
}

/// The ICMP checksum of every echo reply built here (up to 64 KiB)
/// verifies.
pub proof fn lemma_icmp_reply_verifies(request: Seq<u8>)
    requires
        8 <= request.len() <= 65535,
    ensures
        checksum_with(0, echo_reply_body(request)) == 0,
{
    let zeroed = request.update(0, 0).update(2, 0).update(3, 0);
    lemma_sum_words_bound(zeroed, word_count(zeroed));
    assert(65535 * word_count(zeroed) <= 65535 * 32768) by (nonlinear_arith)
        requires
            word_count(zeroed) <= 32768,
    ;
    lemma_checksum_verifies(0, zeroed, 2);
}

} // verus!
