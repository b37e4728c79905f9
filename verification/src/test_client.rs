//! What the end-to-end QUIC test client computes: hexadecimal payloads, the
//! payload patterns it sends, the IPv4/UDP packets that carry them through
//! the relay, and how many echoed payloads came back.
use vstd::prelude::*;
use vstd::string::StrSliceExecFns;
use crate::connector::packet::{build_udp_packet, udp_packet};
use crate::random::fill_random;
use crate::text::{hex_byte, hex_digit, hex_digit_char, push_char};
use crate::vecmap::bytes_eq;

pub use crate::connector::forward::parse_arg;
pub use crate::connector::packet::ip_checksum;

verus! {

/// Maximum UDP payload size of QUIC packets.
pub const MAX_DATAGRAM_SIZE: usize = 1350;

/// QUIC idle timeout, in milliseconds.
pub const IDLE_TIMEOUT_MS: u64 = 30000;

/// ALPN protocol identifier: the bytes of "ztna-v1".
pub const ALPN_PROTOCOL: [u8; 7] = [0x7a, 0x74, 0x6e, 0x61, 0x2d, 0x76, 0x31];

/// Whether a character has the Unicode `White_Space` property (what
/// `str::trim` removes).
pub open spec fn is_white_space(c: char) -> bool {
    ||| '\t' <= c <= '\r'
    ||| c == ' '
    ||| c == '\u{85}'
    ||| c == '\u{a0}'
    ||| c == '\u{1680}'
    ||| '\u{2000}' <= c <= '\u{200a}'
    ||| c == '\u{2028}'
    ||| c == '\u{2029}'
    ||| c == '\u{202f}'
    ||| c == '\u{205f}'
    ||| c == '\u{3000}'
}

/// The text without its leading white space.
pub open spec fn trim_start(s: Seq<char>) -> Seq<char>
    decreases s.len(),
{
    if s.len() > 0 && is_white_space(s[0]) {
        trim_start(s.drop_first())
    } else {
        s
    }
}

/// The text without its trailing white space.
pub open spec fn trim_end(s: Seq<char>) -> Seq<char>
    decreases s.len(),
{
    if s.len() > 0 && is_white_space(s.last()) {
        trim_end(s.drop_last())
    } else {
        s
    }
}

/// The text without white space at either end.
pub open spec fn trim(s: Seq<char>) -> Seq<char> {
    trim_end(trim_start(s))
}

/// Whether every character of the text is ASCII.
pub open spec fn ascii_text(t: Seq<char>) -> bool {
    forall|i: int| 0 <= i < t.len() ==> #[trigger] t[i] <= '\u{7f}'
}

/// The value of a hexadecimal digit (either case).
pub open spec fn hex_value(c: char) -> Option<u8> {
    if '0' <= c <= '9' {
        Some((c as u32 - 48) as u8)
    } else if 'a' <= c <= 'f' {
        Some((c as u32 - 87) as u8)
    } else if 'A' <= c <= 'F' {
        Some((c as u32 - 55) as u8)
    } else {
        None
    }
}

/// The byte that two characters stand for in base 16, as `u8::from_str_radix`
/// reads them: two digits, or a plus sign and one digit.
pub open spec fn pair_value(a: char, b: char) -> Option<u8> {
    if a == '+' {
        hex_value(b)
    } else {
        match (hex_value(a), hex_value(b)) {
            (Some(x), Some(y)) => Some((x * 16 + y) as u8),
            _ => None,
        }
    }
}

/// Whether every pair of characters of `t` stands for a byte.
pub open spec fn pairs_valid(t: Seq<char>) -> bool {
    forall|i: int| 0 <= i < t.len() / 2 ==> (#[trigger] pair_value(t[2 * i], t[2 * i + 1])) is Some
}

/// The bytes that the pairs of characters of `t` stand for.
pub open spec fn pairs_bytes(t: Seq<char>) -> Seq<u8> {
    Seq::new(t.len() / 2, |i: int| pair_value(t[2 * i], t[2 * i + 1])->0)
}

/// Why a hexadecimal text was refused.
#[derive(Debug, Clone, Copy, PartialEq, Eq, Structural)]
pub enum HexError {
    /// The text has an odd length
    OddLength,
    /// A pair of characters is no byte in base 16
    InvalidDigit,
}

impl HexError {
    /// The message of the error.
    pub fn to_string(&self) -> (s: String)
        ensures
            s@ == match *self {
                HexError::OddLength => "Hex string must have even length"@,
                HexError::InvalidDigit => "invalid digit found in string"@,
            },
    {
        match self {
            HexError::OddLength => String::from_str("Hex string must have even length"),
            HexError::InvalidDigit => String::from_str("invalid digit found in string"),
        }
    }
}

fn is_white_space_char(c: char) -> (r: bool)
    ensures
        r == is_white_space(c),
{
    ('\t' <= c && c <= '\r') || c == ' ' || c == '\u{85}' || c == '\u{a0}' || c == '\u{1680}' || ('\u{2000}' <= c
        && c <= '\u{200a}') || c == '\u{2028}' || c == '\u{2029}' || c == '\u{202f}' || c == '\u{205f}' || c
        == '\u{3000}'
}

fn hex_value_of(c: char) -> (r: Option<u8>)
    ensures
        r == hex_value(c),
{
    if '0' <= c && c <= '9' {
        Some((c as u32 - 48) as u8)
    } else if 'a' <= c && c <= 'f' {
        Some((c as u32 - 87) as u8)
    } else if 'A' <= c && c <= 'F' {
        Some((c as u32 - 55) as u8)
    } else {
        None
    }
}

fn pair_value_of(a: char, b: char) -> (r: Option<u8>)
    ensures
        r == pair_value(a, b),
{
    if a == '+' {
        hex_value_of(b)
    } else {
        match (hex_value_of(a), hex_value_of(b)) {
            (Some(x), Some(y)) => Some(x * 16 + y),
            _ => None,
        }
    }
}

/// The characters of a text.
fn chars_of(s: &str) -> (r: Vec<char>)
    ensures
        r@ == s@,
{
    let n = s.unicode_len();
    let mut r: Vec<char> = Vec::new();
    let mut i: usize = 0;
    while i < n
        invariant
            n == s@.len(),
            i <= n,
            r@ == s@.subrange(0, i as int),
        decreases n - i,
    {
        r.push(s.get_char(i));
        assert(r@ =~= s@.subrange(0, i + 1));
        i = i + 1;
    }
    assert(r@ =~= s@);
    r
}

/// The bounds of the text without white space at either end.
fn trim_bounds(cs: &Vec<char>) -> (r: (usize, usize))
    ensures
        r.0 <= r.1 <= cs@.len(),
        cs@.subrange(r.0 as int, r.1 as int) == trim(cs@),
{
    let n = cs.len();
    let mut a: usize = 0;
    assert(cs@.subrange(0, n as int) =~= cs@);
    while a < n && is_white_space_char(cs[a])
        invariant
            n == cs@.len(),
            a <= n,
            trim_start(cs@) == trim_start(cs@.subrange(a as int, n as int)),
        decreases n - a,
    {
        assert(cs@.subrange(a as int, n as int).drop_first() =~= cs@.subrange(a + 1, n as int));
        a = a + 1;
    }
    assert(trim_start(cs@) == cs@.subrange(a as int, n as int));
    let mut b: usize = n;
    while b > a && is_white_space_char(cs[b - 1])
        invariant
            n == cs@.len(),
            a <= b <= n,
            trim_start(cs@) == cs@.subrange(a as int, n as int),
            trim(cs@) == trim_end(cs@.subrange(a as int, b as int)),
        decreases b - a,
    {
        assert(cs@.subrange(a as int, b as int).drop_last() =~= cs@.subrange(a as int, b - 1));
        b = b - 1;
    }
    (a, b)
}

/// Decodes a hexadecimal text (white space at either end is ignored): each
/// pair of characters is one byte. On ASCII text the result is exact; text
/// with other characters is refused.
pub fn hex_decode(s: &str) -> (r: Result<Vec<u8>, HexError>)
    ensures
        ascii_text(trim(s@)) && trim(s@).len() % 2 == 1 ==> r == Err::<Vec<u8>, HexError>(
            HexError::OddLength,
        ),
        ascii_text(trim(s@)) && trim(s@).len() % 2 == 0 && pairs_valid(trim(s@)) ==> (r matches Ok(
            v,
        ) && v@ == pairs_bytes(trim(s@))),
        ascii_text(trim(s@)) && trim(s@).len() % 2 == 0 && !pairs_valid(trim(s@)) ==> r
            == Err::<Vec<u8>, HexError>(HexError::InvalidDigit),
        !ascii_text(trim(s@)) ==> r is Err,
{
    let cs = chars_of(s);
    let (a, b) = trim_bounds(&cs);
    let ghost t = trim(s@);
    let mut k: usize = a;
    while k < b
        invariant
            a <= k <= b <= cs@.len(),
            t == cs@.subrange(a as int, b as int),
            t == trim(s@),
            forall|j: int| a <= j < k ==> cs@[j] <= '\u{7f}',
        decreases b - k,
    {
        if cs[k] > '\u{7f}' {
            assert(t[k - a] == cs@[k as int]);
            assert(!ascii_text(t));
            return Err(HexError::InvalidDigit);
        }
        k = k + 1;
    }
    assert(ascii_text(t)) by {
        assert forall|j: int| 0 <= j < t.len() implies #[trigger] t[j] <= '\u{7f}' by {
            assert(t[j] == cs@[a + j]);
        }
    }
    assert(t.len() == b - a);
    if (b - a) % 2 == 1 {
        return Err(HexError::OddLength);
    }
    let m = (b - a) / 2;
    let mut out: Vec<u8> = Vec::new();
    let mut i: usize = 0;
    while i < m
        invariant
            a <= b <= cs@.len(),
            t == cs@.subrange(a as int, b as int),
            t == trim(s@),
            ascii_text(t),
            t.len() % 2 == 0,
            m == t.len() / 2,
            i <= m,
            out@.len() == i,
            forall|j: int| 0 <= j < i ==> (#[trigger] pair_value(t[2 * j], t[2 * j + 1])) is Some && out@[j]
                == pair_value(t[2 * j], t[2 * j + 1])->0,
        decreases m - i,
    {
        let x = a + 2 * i;
        assert(t[2 * i] == cs@[x as int] && t[2 * i + 1] == cs@[x + 1]);
        match pair_value_of(cs[x], cs[x + 1]) {
            Some(v) => {
                out.push(v);
            },
            None => {
                assert(pair_value(t[2 * i], t[2 * i + 1]) is None);
                assert(!pairs_valid(t));
                return Err(HexError::InvalidDigit);
            },
        }
        i = i + 1;
    }
    assert(out@ =~= pairs_bytes(t));
    Ok(out)
}

/// Lower-case hexadecimal rendering of bytes, two digits a byte.
pub open spec fn hex_text(d: Seq<u8>) -> Seq<char>
    decreases d.len(),
{
    if d.len() == 0 {
        Seq::empty()
    } else {
        hex_text(d.drop_last()) + hex_byte(d.last())
    }
}

/// Renders bytes in lower-case hexadecimal, two digits a byte.
pub fn hex_encode(data: &[u8]) -> (s: String)
    ensures
        s@ == hex_text(data@),
{
    let mut s = String::new();
    let mut i: usize = 0;
    while i < data.len()
        invariant
            i <= data@.len(),
            s@ == hex_text(data@.subrange(0, i as int)),
        decreases data@.len() - i,
    {
        let b = data[i];
        push_char(&mut s, hex_digit_char(b / 16));
        push_char(&mut s, hex_digit_char(b % 16));
        assert(data@.subrange(0, i + 1).drop_last() =~= data@.subrange(0, i as int));
        assert(s@ =~= hex_text(data@.subrange(0, i + 1)));
        i = i + 1;
    }
    assert(data@.subrange(0, i as int) =~= data@);
    s
}

proof fn lemma_hex_digit_value(n: nat)
    requires
        n < 16,
    ensures
        hex_value(hex_digit(n)) == Some(n as u8),
        !is_white_space(hex_digit(n)),
        hex_digit(n) <= '\u{7f}',
        hex_digit(n) != '+',
{
}

proof fn lemma_hex_text_at(d: Seq<u8>)
    ensures
        hex_text(d).len() == 2 * d.len(),
        forall|i: int|
            0 <= i < d.len() ==> hex_text(d)[2 * i] == hex_digit((d[i] / 16) as nat) && hex_text(d)[2 * i + 1]
                == hex_digit((d[i] % 16) as nat),
    decreases d.len(),
{
    if d.len() > 0 {
        lemma_hex_text_at(d.drop_last());
        let t = hex_text(d);
        assert forall|i: int| 0 <= i < d.len() implies t[2 * i] == hex_digit((d[i] / 16) as nat) && t[2 * i + 1]
            == hex_digit((d[i] % 16) as nat) by {
            if i < d.len() - 1 {
                assert(d.drop_last()[i] == d[i]);
            }
        }
    }
}

/// Decoding the hexadecimal rendering of bytes gives the bytes back: the
/// rendering is ASCII, of even length, has no white space to trim, and each
/// pair of its characters stands for one of the bytes.
pub proof fn lemma_hex_roundtrip(d: Seq<u8>)
    ensures
        trim(hex_text(d)) == hex_text(d),
        ascii_text(hex_text(d)),
        hex_text(d).len() % 2 == 0,
        pairs_valid(hex_text(d)),
        pairs_bytes(hex_text(d)) == d,
{
    let t = hex_text(d);
    lemma_hex_text_at(d);
    assert forall|j: int| 0 <= j < t.len() implies !is_white_space(#[trigger] t[j]) && t[j] <= '\u{7f}' && hex_value(t[j]) is Some by {
        let i = j / 2;
        if j % 2 == 0 {
            assert(j == 2 * i);
            lemma_hex_digit_value((d[i] / 16) as nat);
        } else {
            assert(j == 2 * i + 1);
            lemma_hex_digit_value((d[i] % 16) as nat);
        }
    }
    if t.len() > 0 {
        assert(!is_white_space(t[0]));
        assert(!is_white_space(t.last()));
    }
    assert(trim_start(t) == t);
    assert(trim_end(t) == t);
    assert forall|i: int| 0 <= i < t.len() / 2 implies (#[trigger] pair_value(t[2 * i], t[2 * i + 1])) is Some
        && pair_value(t[2 * i], t[2 * i + 1])->0 == d[i] by {
        lemma_hex_digit_value((d[i] / 16) as nat);
        lemma_hex_digit_value((d[i] % 16) as nat);
    }
    assert(pairs_bytes(t) =~= d);
}

/// The payload of `size` bytes with a pattern: all zeros, all 0xFF, random
/// bytes, or (by default, and for an unknown pattern) the sequence 0, 1, 2,
/// ... modulo 256.
pub open spec fn spec_payload(size: nat, pattern: Option<Seq<char>>, d: Seq<u8>) -> bool {
    &&& d.len() == size
    &&& pattern == Some("zeros"@) ==> forall|i: int| 0 <= i < size ==> d[i] == 0
    &&& pattern == Some("ones"@) ==> forall|i: int| 0 <= i < size ==> d[i] == 0xFF
    &&& pattern != Some("zeros"@) && pattern != Some("ones"@) && pattern != Some("random"@) ==> forall|i: int|
        0 <= i < size ==> d[i] == i % 256
}

fn str_equals(s: &str, t: &str) -> (r: bool)
    ensures
        r == (s@ == t@),
{
    String::from_str(s) == String::from_str(t)
}

fn filled(size: usize, b: u8) -> (v: Vec<u8>)
    ensures
        v@.len() == size,
        forall|i: int| 0 <= i < size ==> v@[i] == b,
{
    let mut v: Vec<u8> = Vec::new();
    let mut i: usize = 0;
    while i < size
        invariant
            i <= size,
            v@.len() == i,
            forall|j: int| 0 <= j < i ==> v@[j] == b,
        decreases size - i,
    {
        v.push(b);
        i = i + 1;
    }
    v
}

/// Generates a payload of `size` bytes with a pattern (see `spec_payload`).
pub fn generate_payload(size: usize, pattern: Option<&str>) -> (r: Vec<u8>)
    ensures
        spec_payload(
            size as nat,
            match pattern {
                Some(p) => Some(p@),
                None => None,
            },
            r@,
        ),
{
    proof {
        reveal_strlit("zeros");
        reveal_strlit("ones");
        reveal_strlit("random");
        assert("zeros"@.len() == 5 && "ones"@.len() == 4 && "random"@.len() == 6);
    }
    let kind: u8 = match pattern {
        Some(p) => if str_equals(p, "zeros") {
            0
        } else if str_equals(p, "ones") {
            1
        } else if str_equals(p, "random") {
            2
        } else {
            3
        },
        None => 3,
    };
    if kind == 0 {
        return filled(size, 0);
    }
    if kind == 1 {
        return filled(size, 0xFF);
    }
    if kind == 2 {
        let mut v = filled(size, 0);
        let _ = fill_random(&mut v);
        return v;
    }
    let mut v: Vec<u8> = Vec::new();
    let mut i: usize = 0;
    while i < size
        invariant
            i <= size,
            v@.len() == i,
            forall|j: int| 0 <= j < i ==> v@[j] == j % 256,
        decreases size - i,
    {
        v.push((i % 256) as u8);
        i = i + 1;
    }
    v
}

/// Builds the IPv4/UDP packet that carries `payload` from `src` to `dst`
/// through the relay (payloads up to 65507 bytes, so that the lengths fit
/// their 16-bit fields).
pub fn build_ip_udp_packet(src: ([u8; 4], u16), dst: ([u8; 4], u16), payload: &[u8]) -> (r: Vec<u8>)
    requires
        payload@.len() <= 65507,
    ensures
        r@ == udp_packet(src.0, src.1, dst.0, dst.1, payload@),
{
    build_udp_packet(src.0, src.1, dst.0, dst.1, payload)
}

/// Whether one of the responses (IPv4/UDP packets) carries `sent` as its
/// payload, after the 28 bytes of the two headers.
pub open spec fn echoed(sent: Seq<u8>, responses: Seq<Seq<u8>>) -> bool {
    exists|j: int|
        0 <= j < responses.len() && responses[j].len() >= 28 && #[trigger] responses[j].subrange(28, responses[j].len() as int)
            == sent
}

/// How many of the sent payloads came back echoed.
pub open spec fn echo_matches(sent: Seq<Seq<u8>>, responses: Seq<Seq<u8>>) -> nat
    decreases sent.len(),
{
    if sent.len() == 0 {
        0
    } else {
        echo_matches(sent.drop_last(), responses) + if echoed(sent.last(), responses) {
            1nat
        } else {
            0nat
        }
    }
}

/// The views of a list of byte buffers.
pub open spec fn buffers_view(s: Seq<Vec<u8>>) -> Seq<Seq<u8>> {
    s.map_values(|x: Vec<u8>| x@)
}

fn find_echo(sent: &[u8], responses: &Vec<Vec<u8>>) -> (r: bool)
    ensures
        r == echoed(sent@, buffers_view(responses@)),
{
    let ghost rs = buffers_view(responses@);
    let mut j: usize = 0;
    while j < responses.len()
        invariant
            j <= responses@.len(),
            rs == buffers_view(responses@),
            forall|k: int|
                0 <= k < j ==> !(rs[k].len() >= 28 && #[trigger] rs[k].subrange(28, rs[k].len() as int) == sent@),
        decreases responses@.len() - j,
    {
        let resp = &responses[j];
        assert(rs[j as int] == resp@);
        if resp.len() >= 28 {
            let tail = crate::bytes::copy_range(resp.as_slice(), 28, resp.len());
            if bytes_eq(tail.as_slice(), sent) {
                return true;
            }
        }
        j = j + 1;
    }
    false
}

/// Counts the sent payloads that came back echoed: `(matches, mismatches)`.
pub fn count_echo_matches(sent: &Vec<Vec<u8>>, responses: &Vec<Vec<u8>>) -> (r: (usize, usize))
    ensures
        r.0 == echo_matches(buffers_view(sent@), buffers_view(responses@)),
        r.0 + r.1 == sent@.len(),
{
    let ghost ss = buffers_view(sent@);
    let mut matches: usize = 0;
    let mut i: usize = 0;
    while i < sent.len()
        invariant
            i <= sent@.len(),
            ss == buffers_view(sent@),
            matches == echo_matches(ss.subrange(0, i as int), buffers_view(responses@)),
            matches <= i,
        decreases sent@.len() - i,
    {
        let found = find_echo(sent[i].as_slice(), responses);
        assert(ss.subrange(0, i + 1).drop_last() =~= ss.subrange(0, i as int));
        assert(ss[i as int] == sent@[i as int]@);
        if found {
            matches = matches + 1;
        }
        i = i + 1;
    }
    assert(ss.subrange(0, i as int) =~= ss);
    (matches, sent.len() - matches)
}

} // verus!
