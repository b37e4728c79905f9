//! Stateless retry tokens. A token is a random 12-byte nonce followed by the
//! AES-256-GCM sealing (no associated data) of
//! `[addr_len, addr text..., dcid_len, dcid..., timestamp (u64 BE, seconds)]`,
//! where the address text is the client's socket address as printed.
use vstd::prelude::*;
use crate::bytes::{be64, copy_range, from_be64, opt_bytes, push_be64, push_bytes, u32_from_be};
use crate::clock::epoch_ms;
use crate::net::{SockAddr, sock_text};
use crate::server::router::RETRY_TOKEN_MAX_AGE_SECS;
use crate::vecmap::bytes_eq;

verus! {

/// The longest plaintext AES-GCM seals: (2^32 - 2) blocks of 16 bytes.
pub const AES_GCM_MAX_INPUT: u64 = 0xf_ffff_ffe0;

/// AES-256-GCM sealing of `plaintext` under `key` and `nonce`, without
/// associated data: the ciphertext, then the 16-byte tag.
pub uninterp spec fn aes256gcm_seal(key: Seq<u8>, nonce: Seq<u8>, plaintext: Seq<u8>) -> Seq<u8>;

/// AES-256-GCM opening of `ciphertext` (with its tag) under `key` and
/// `nonce`, without associated data: the plaintext when it authenticates.
pub uninterp spec fn aes256gcm_open(key: Seq<u8>, nonce: Seq<u8>, ciphertext: Seq<u8>) -> Option<Seq<u8>>;

/// Seals `plaintext` with `ring::aead::LessSafeKey::seal_in_place_append_tag`
/// (AES-256-GCM key from `key`, nonce `nonce`, empty associated data).
/// The result is the sealing named `aes256gcm_seal`. A 32-byte key is
/// always accepted, and ring refuses only a plaintext longer than its
/// AES-GCM limit, `MAX_IN_OUT_LEN` ((2^32 - 2) blocks of 16 bytes; on a
/// 32-bit target every length is below it): then nothing is returned.
#[verifier::external_body]
fn seal(key: &[u8; 32], nonce: &[u8; 12], plaintext: Vec<u8>) -> (r: Option<Vec<u8>>)
    ensures
        r is Some <==> plaintext@.len() <= AES_GCM_MAX_INPUT,
        r matches Some(c) ==> c@ == aes256gcm_seal(key@, nonce@, plaintext@),
{
    let k = ring::aead::LessSafeKey::new(ring::aead::UnboundKey::new(&ring::aead::AES_256_GCM, key).ok()?);
    let mut in_out = plaintext;
    k.seal_in_place_append_tag(ring::aead::Nonce::assume_unique_for_key(*nonce), ring::aead::Aad::empty(), &mut in_out)
        .ok()?;
    Some(in_out)
}

/// Opens `ciphertext` with `ring::aead::LessSafeKey::open_in_place`
/// (AES-256-GCM key from `key`, nonce `nonce`, empty associated data): the
/// opening named `aes256gcm_open`. A sealing under the same key and nonce
/// of a plaintext that ring seals (at most `AES_GCM_MAX_INPUT` bytes) opens
/// to that plaintext, which is what authenticated encryption is.
#[verifier::external_body]
fn open(key: &[u8; 32], nonce: &[u8; 12], ciphertext: Vec<u8>) -> (r: Option<Vec<u8>>)
    ensures
        opt_bytes(r) == aes256gcm_open(key@, nonce@, ciphertext@),
        forall|p: Seq<u8>|
            p.len() <= AES_GCM_MAX_INPUT && ciphertext@ == #[trigger] aes256gcm_seal(key@, nonce@, p) ==> opt_bytes(r)
                == Some(p),
{
    let k = ring::aead::LessSafeKey::new(ring::aead::UnboundKey::new(&ring::aead::AES_256_GCM, key).ok()?);
    let mut in_out = ciphertext;
    let p = k.open_in_place(ring::aead::Nonce::assume_unique_for_key(*nonce), ring::aead::Aad::empty(), &mut in_out)
        .ok()?;
    Some(p.to_vec())
}

/// The address text of a socket address, as UTF-8 bytes.
pub open spec fn addr_bytes(addr: SockAddr) -> Seq<u8> {
    vstd::utf8::encode_utf8(sock_text(addr))
}

/// The plaintext of a token: address length and text, connection id length
/// and bytes, timestamp; lengths modulo 256.
pub open spec fn token_plaintext(addr: SockAddr, dcid: Seq<u8>, timestamp: u64) -> Seq<u8> {
    let a = addr_bytes(addr);
    seq![(a.len() % 256) as u8] + a + seq![(dcid.len() % 256) as u8] + dcid + be64(timestamp)
}

/// The connection id a token plaintext carries, when its address is `addr`
/// and it is at most the maximum age old at `now` (seconds).
pub open spec fn parse_token_plaintext(p: Seq<u8>, addr: SockAddr, now: u64) -> Option<Seq<u8>> {
    if p.len() == 0 {
        None
    } else {
        let al = p[0] as int;
        if p.len() < 1 + al + 1 {
            None
        } else {
            let dl = p[1 + al] as int;
            if p.len() < 2 + al + dl + 8 {
                None
            } else {
                let ts = from_be64(p.subrange(2 + al + dl, 2 + al + dl + 8));
                if p.subrange(1, 1 + al) != addr_bytes(addr) {
                    None
                } else if now >= ts && now - ts > RETRY_TOKEN_MAX_AGE_SECS {
                    None
                } else {
                    Some(p.subrange(2 + al, 2 + al + dl))
                }
            }
        }
    }
}

/// The token that `mint_retry_token_at` makes.
pub open spec fn spec_token(key: Seq<u8>, nonce: Seq<u8>, addr: SockAddr, dcid: Seq<u8>, timestamp: u64) -> Seq<u8> {
    nonce + aes256gcm_seal(key, nonce, token_plaintext(addr, dcid, timestamp))
}

/// The connection id a token gives back at `now` (see `validate_retry_token_at`).
pub open spec fn spec_validate(key: Seq<u8>, token: Seq<u8>, addr: SockAddr, now: u64) -> Option<Seq<u8>> {
    if token.len() < 12 {
        None
    } else {
        match aes256gcm_open(key, token.subrange(0, 12), token.subrange(12, token.len() as int)) {
            None => None,
            Some(p) => parse_token_plaintext(p, addr, now),
        }
    }
}

/// The plaintext of a token for `addr` and `dcid` at `timestamp`.
pub fn retry_token_plaintext(addr: SockAddr, dcid: &[u8], timestamp: u64) -> (r: Vec<u8>)
    ensures
        r@ == token_plaintext(addr, dcid@, timestamp),
{
    let text = addr.to_text();
    let a = text.as_str().as_bytes();
    let mut p: Vec<u8> = Vec::new();
    p.push((a.len() % 256) as u8);
    push_bytes(&mut p, a);
    p.push((dcid.len() % 256) as u8);
    push_bytes(&mut p, dcid);
    push_be64(&mut p, timestamp);
    assert(p@ =~= token_plaintext(addr, dcid@, timestamp));
    p
}

/// Reads the 64-bit big-endian value at `at`.
fn read_be64(s: &[u8], at: usize) -> (r: u64)
    requires
        at + 8 <= s@.len(),
    ensures
        r == from_be64(s@.subrange(at as int, at + 8)),
{
    let hi = u32_from_be(s[at], s[at + 1], s[at + 2], s[at + 3]);
    let lo = u32_from_be(s[at + 4], s[at + 5], s[at + 6], s[at + 7]);
    let r = (hi as u64) * 0x1_0000_0000 + lo as u64;
    assert(s@.subrange(at as int, at + 8)[0] == s@[at as int]);
    assert(s@.subrange(at as int, at + 8)[7] == s@[at + 7]);
    r
}

/// The connection id in a token plaintext, if it was made for `addr` and is
/// fresh at `now` (seconds).
pub fn parse_retry_plaintext(p: &[u8], addr: SockAddr, now: u64) -> (r: Option<Vec<u8>>)
    ensures
        match r {
            Some(d) => parse_token_plaintext(p@, addr, now) == Some(d@),
            None => parse_token_plaintext(p@, addr, now) is None,
        },
{
    if p.len() == 0 {
        return None;
    }
    let al = p[0] as usize;
    if p.len() < 1 + al + 1 {
        return None;
    }
    let dl = p[1 + al] as usize;
    if p.len() < 2 + al + dl + 8 {
        return None;
    }
    let ts = read_be64(p, 2 + al + dl);
    let text = addr.to_text();
    let expected = text.as_str().as_bytes();
    let token_addr = copy_range(p, 1, 1 + al);
    if !bytes_eq(token_addr.as_slice(), expected) {
        return None;
    }
    if now >= ts && now - ts > RETRY_TOKEN_MAX_AGE_SECS {
        return None;
    }
    Some(copy_range(p, 2 + al, 2 + al + dl))
}

/// Mints a retry token now, for the connection id `dcid` of a client at
/// `addr`, with a random nonce; `None` if the clock reads before the Unix
/// epoch, or the generator or the sealing failed.
pub fn mint_retry_token(key: &[u8; 32], dcid: &[u8], addr: SockAddr) -> (r: Option<Vec<u8>>)
    ensures
        r matches Some(t) ==> exists|nonce: [u8; 12], timestamp: u64| t@ == spec_token(key@, nonce@, addr, dcid@, timestamp),
{
    let timestamp = match epoch_ms() {
        Some(t) => t / 1000,
        None => {
            return None;
        },
    };
    let nonce_bytes = match crate::random::random_bytes(12) {
        Some(b) => b,
        None => {
            return None;
        },
    };
    let mut nonce = [0u8; 12];
    let mut i: usize = 0;
    while i < 12
        invariant
            i <= 12,
            nonce_bytes@.len() == 12,
        decreases 12 - i,
    {
        nonce[i] = nonce_bytes[i];
        i = i + 1;
    }
    mint_retry_token_at(key, dcid, addr, timestamp, &nonce)
}

/// Mints the retry token for `dcid` and `addr` at `timestamp` (seconds) with
/// `nonce`: the nonce, then the sealed plaintext. Only a plaintext too long
/// to seal (far beyond any connection id) gives no token.
pub fn mint_retry_token_at(key: &[u8; 32], dcid: &[u8], addr: SockAddr, timestamp: u64, nonce: &[u8; 12]) -> (r: Option<Vec<u8>>)
    ensures
        r is Some <==> token_plaintext(addr, dcid@, timestamp).len() <= AES_GCM_MAX_INPUT,
        r matches Some(t) ==> t@ == spec_token(key@, nonce@, addr, dcid@, timestamp),
{
    let plaintext = retry_token_plaintext(addr, dcid, timestamp);
    let sealed = match seal(key, nonce, plaintext) {
        Some(c) => c,
        None => {
            return None;
        },
    };
    let mut token: Vec<u8> = Vec::new();
    push_bytes(&mut token, nonce.as_slice());
    push_bytes(&mut token, sealed.as_slice());
    Some(token)
}

/// Validates a retry token now from a client at `addr`; returns the
/// connection id it was minted for. A token that is valid at no time (too
/// short, not opening under the key, or made for another address) gives
/// nothing; so does any token while the clock reads before the Unix epoch.
pub fn validate_retry_token(key: &[u8; 32], token: &[u8], addr: SockAddr) -> (r: Option<Vec<u8>>)
    ensures
        r matches Some(d) ==> exists|now: u64| #[trigger] spec_validate(key@, token@, addr, now) == Some(d@),
        (forall|now: u64| #[trigger] spec_validate(key@, token@, addr, now) is None) ==> r is None,
{
    match epoch_ms() {
        Some(t) => {
            let now = t / 1000;
            let r = validate_retry_token_at(key, token, addr, now);
            proof {
                if r is Some {
                    assert(spec_validate(key@, token@, addr, now) == Some(r->0@));
                }
                assert(spec_validate(key@, token@, addr, now) is None ==> r is None);
            }
            r
        },
        None => None,
    }
}

/// Validates a retry token at `now` (seconds) from a client at `addr`:
/// it must open under the key and carry `addr` and a timestamp at most the
/// maximum age old. A token minted for `addr` and a connection id gives that
/// connection id back while it is fresh; a token minted for another address
/// gives nothing, fresh or not.
pub fn validate_retry_token_at(key: &[u8; 32], token: &[u8], addr: SockAddr, now: u64) -> (r: Option<Vec<u8>>)
    ensures
        match r {
            Some(d) => spec_validate(key@, token@, addr, now) == Some(d@),
            None => spec_validate(key@, token@, addr, now) is None,
        },
        forall|nonce: Seq<u8>, dcid: Seq<u8>, ts: u64|
            nonce.len() == 12 && token@ == #[trigger] spec_token(key@, nonce, addr, dcid, ts) && addr_bytes(addr).len()
                <= 255 && dcid.len() <= 255 ==> if now >= ts && now - ts > RETRY_TOKEN_MAX_AGE_SECS {
                r is None
            } else {
                r matches Some(d) && d@ == dcid
            },
        forall|nonce: Seq<u8>, other: SockAddr, dcid: Seq<u8>, ts: u64|
            nonce.len() == 12 && token@ == #[trigger] spec_token(key@, nonce, other, dcid, ts) && addr_bytes(other)
                != addr_bytes(addr) && addr_bytes(other).len() <= 255 && dcid.len() <= 255 ==> r is None,
{
    if token.len() < 12 {
        return None;
    }
    let mut nonce = [0u8; 12];
    let mut i: usize = 0;
    while i < 12
        invariant
            i <= 12,
            token@.len() >= 12,
            forall|k: int| 0 <= k < i ==> nonce@[k] == token@[k],
        decreases 12 - i,
    {
        nonce[i] = token[i];
        i = i + 1;
    }
    assert(nonce@ =~= token@.subrange(0, 12));
    let ciphertext = copy_range(token, 12, token.len());
    let ghost ct = ciphertext@;
    let r = match open(key, &nonce, ciphertext) {
        Some(p) => parse_retry_plaintext(p.as_slice(), addr, now),
        None => None,
    };
    assert forall|n: Seq<u8>, dcid: Seq<u8>, ts: u64|
        n.len() == 12 && token@ == #[trigger] spec_token(key@, n, addr, dcid, ts) && addr_bytes(addr).len()
            <= 255 && dcid.len() <= 255 implies if now >= ts && now - ts > RETRY_TOKEN_MAX_AGE_SECS {
            r is None
        } else {
            r matches Some(d) && d@ == dcid
        } by {
        let pt = token_plaintext(addr, dcid, ts);
        assert(token@.subrange(0, 12) =~= n);
        assert(ct =~= aes256gcm_seal(key@, n, pt));
        lemma_parse_plaintext(addr, dcid, ts, now);
    }
    assert forall|n: Seq<u8>, other: SockAddr, dcid: Seq<u8>, ts: u64|
        n.len() == 12 && token@ == #[trigger] spec_token(key@, n, other, dcid, ts) && addr_bytes(other) != addr_bytes(
            addr,
        ) && addr_bytes(other).len() <= 255 && dcid.len() <= 255 implies r is None by {
        let pt = token_plaintext(other, dcid, ts);
        assert(token@.subrange(0, 12) =~= n);
        assert(ct =~= aes256gcm_seal(key@, n, pt));
        lemma_parse_other_address(other, addr, dcid, ts, now);
    }
    r
}

/// What the server does with the Initial packet of a new connection.
#[derive(Debug)]
pub enum Admission {
    /// Answer with a Retry carrying a fresh token
    SendRetry,
    /// Drop the packet: its retry token is not valid
    Reject,
    /// Accept the connection, with the original destination connection id
    /// that a retry token carried
    Accept(Option<Vec<u8>>),
}

/// What `admit_new_connection_at` decides (see there).
pub open spec fn spec_admission(key: Seq<u8>, enable_retry: bool, token: Seq<u8>, addr: SockAddr, now: u64, r: Admission) -> bool {
    if !enable_retry {
        r matches Admission::Accept(None)
    } else if token.len() == 0 {
        r is SendRetry
    } else {
        match spec_validate(key, token, addr, now) {
            Some(d) => r matches Admission::Accept(Some(o)) && o@ == d,
            None => r is Reject,
        }
    }
}

/// Decides on a new connection at `now` (seconds): without stateless retry
/// it is accepted; with it, a packet without a token is answered with a
/// Retry, and one with a token is accepted with the connection id the token
/// was minted for while the token is valid, else dropped.
pub fn admit_new_connection_at(key: &[u8; 32], enable_retry: bool, token: &[u8], addr: SockAddr, now: u64) -> (r: Admission)
    ensures
        spec_admission(key@, enable_retry, token@, addr, now, r),
{
    if !enable_retry {
        return Admission::Accept(None);
    }
    if token.len() == 0 {
        return Admission::SendRetry;
    }
    match validate_retry_token_at(key, token, addr, now) {
        Some(d) => Admission::Accept(Some(d)),
        None => Admission::Reject,
    }
}

/// Decides on a new connection now (see `admit_new_connection_at`): the
/// token is validated with the clock (`validate_retry_token`).
pub fn admit_new_connection(key: &[u8; 32], enable_retry: bool, token: &[u8], addr: SockAddr) -> (r: Admission)
    ensures
        !enable_retry ==> r matches Admission::Accept(None),
        enable_retry && token@.len() == 0 ==> r is SendRetry,
        enable_retry && token@.len() > 0 ==> (r is Reject || r matches Admission::Accept(Some(_))),
        r matches Admission::Accept(Some(d)) ==> exists|now: u64| #[trigger] spec_validate(key@, token@, addr, now) == Some(d@),
        enable_retry && token@.len() > 0 && (forall|now: u64| #[trigger] spec_validate(key@, token@, addr, now) is None)
            ==> r is Reject,
{
    if !enable_retry {
        return Admission::Accept(None);
    }
    if token.len() == 0 {
        return Admission::SendRetry;
    }
    match validate_retry_token(key, token, addr) {
        Some(d) => Admission::Accept(Some(d)),
        None => Admission::Reject,
    }
}

/// A plaintext reads back as its connection id while fresh.
proof fn lemma_parse_plaintext(addr: SockAddr, dcid: Seq<u8>, ts: u64, now: u64)
    requires
        addr_bytes(addr).len() <= 255,
        dcid.len() <= 255,
    ensures
        parse_token_plaintext(token_plaintext(addr, dcid, ts), addr, now) == if now >= ts && now - ts
            > RETRY_TOKEN_MAX_AGE_SECS {
            None
        } else {
            Some(dcid)
        },
{
    let a = addr_bytes(addr);
    let p = token_plaintext(addr, dcid, ts);
    let al = a.len() as int;
    let dl = dcid.len() as int;
    assert(p[0] as int == al);
    assert(p[1 + al] as int == dl);
    assert(p.subrange(1, 1 + al) =~= a);
    assert(p.subrange(2 + al, 2 + al + dl) =~= dcid);
    assert(p.subrange(2 + al + dl, 2 + al + dl + 8) =~= be64(ts));
    crate::bytes::lemma_be64_roundtrip(ts);
}

/// A plaintext made for one address reads back as nothing from another.
proof fn lemma_parse_other_address(minted_for: SockAddr, addr: SockAddr, dcid: Seq<u8>, ts: u64, now: u64)
    requires
        addr_bytes(minted_for).len() <= 255,
        addr_bytes(minted_for) != addr_bytes(addr),
        dcid.len() <= 255,
    ensures
        parse_token_plaintext(token_plaintext(minted_for, dcid, ts), addr, now) is None,
{
    let a = addr_bytes(minted_for);
    let p = token_plaintext(minted_for, dcid, ts);
    let al = a.len() as int;
    assert(p[0] as int == al);
    assert(p[1 + al] as int == dcid.len());
    assert(p.subrange(1, 1 + al) =~= a);
}

} // verus!
