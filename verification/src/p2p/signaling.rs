//! Signaling messages for candidate exchange through the relay server, and
//! their framing: a 4-byte big-endian length, then the serialized payload.
use vstd::prelude::*;
use crate::bytes::{be32, from_be32, push_be32, push_bytes, copy_range, u32_from_be, lemma_be32_roundtrip};
use crate::net::SockAddr;
use crate::p2p::candidate::Candidate;
use crate::text::{decimal, push_decimal, push_str};

verus! {

/// Maximum signaling payload size (64 KiB).
pub const MAX_MESSAGE_SIZE: u32 = 65536;

/// Signaling timeout in milliseconds.
pub const SIGNALING_TIMEOUT_MS: u64 = 5000;

/// Length of the frame header (the 4-byte length).
pub const HEADER_LEN: usize = 4;

/// Signaling error codes.
#[derive(Debug, Clone, Copy, PartialEq, Eq, Structural)]
pub enum SignalingError {
    /// Unknown or internal error
    Unknown,
    /// Service not found
    ServiceNotFound,
    /// No connector available for the service
    NoConnectorAvailable,
    /// Session not found
    SessionNotFound,
    /// Session timed out
    SessionTimeout,
    /// Invalid message format
    InvalidMessage,
    /// Peer rejected the offer
    PeerRejected,
}

pub open spec fn signaling_error_text(e: SignalingError) -> Seq<char> {
    match e {
        SignalingError::Unknown => "unknown error"@,
        SignalingError::ServiceNotFound => "service not found"@,
        SignalingError::NoConnectorAvailable => "no connector available"@,
        SignalingError::SessionNotFound => "session not found"@,
        SignalingError::SessionTimeout => "session timed out"@,
        SignalingError::InvalidMessage => "invalid message"@,
        SignalingError::PeerRejected => "peer rejected"@,
    }
}

impl SignalingError {
    /// Human-readable description of the error code.
    pub fn to_string(&self) -> (s: String)
        ensures
            s@ == signaling_error_text(*self),
    {
        let t = match self {
            SignalingError::Unknown => "unknown error",
            SignalingError::ServiceNotFound => "service not found",
            SignalingError::NoConnectorAvailable => "no connector available",
            SignalingError::SessionNotFound => "session not found",
            SignalingError::SessionTimeout => "session timed out",
            SignalingError::InvalidMessage => "invalid message",
            SignalingError::PeerRejected => "peer rejected",
        };
        String::from_str(t)
    }
}

/// Signaling messages for P2P coordination.
#[allow(inconsistent_fields)]
#[derive(Debug, Clone, PartialEq, Eq)]
pub enum SignalingMessage {
    /// The controlling side sends its candidates to the controlled side
    CandidateOffer { session_id: u64, service_id: String, candidates: Vec<Candidate> },
    /// The controlled side answers with its candidates
    CandidateAnswer { session_id: u64, candidates: Vec<Candidate> },
    /// The relay server tells both sides to start hole punching
    StartPunching { session_id: u64, start_delay_ms: u64, peer_candidates: Vec<Candidate> },
    /// Result of hole punching
    PunchingResult { session_id: u64, success: bool, working_address: Option<SockAddr> },
    /// Error response
    Error { session_id: Option<u64>, code: SignalingError, message: String },
}

/// The session id a message carries, if any.
pub open spec fn spec_message_session_id(m: SignalingMessage) -> Option<u64> {
    match m {
        SignalingMessage::CandidateOffer { session_id, .. } => Some(session_id),
        SignalingMessage::CandidateAnswer { session_id, .. } => Some(session_id),
        SignalingMessage::StartPunching { session_id, .. } => Some(session_id),
        SignalingMessage::PunchingResult { session_id, .. } => Some(session_id),
        SignalingMessage::Error { session_id, .. } => session_id,
    }
}

impl SignalingMessage {
    /// The session id of the message, if it has one.
    pub fn session_id(&self) -> (r: Option<u64>)
        ensures
            r == spec_message_session_id(*self),
    {
        match self {
            SignalingMessage::CandidateOffer { session_id, .. } => Some(*session_id),
            SignalingMessage::CandidateAnswer { session_id, .. } => Some(*session_id),
            SignalingMessage::StartPunching { session_id, .. } => Some(*session_id),
            SignalingMessage::PunchingResult { session_id, .. } => Some(*session_id),
            SignalingMessage::Error { session_id, .. } => *session_id,
        }
    }

    /// Whether this is an error message.
    pub fn is_error(&self) -> (r: bool)
        ensures
            r == (*self is Error),
    {
        match self {
            SignalingMessage::Error { .. } => true,
            _ => false,
        }
    }

    /// An error message for a session.
    pub fn error(session_id: Option<u64>, code: SignalingError, message: &str) -> (m: SignalingMessage)
        ensures
            m matches SignalingMessage::Error { session_id: s, code: c, message: t } && s == session_id && c
                == code && t@ == message@,
    {
        SignalingMessage::Error { session_id, code, message: String::from_str(message) }
    }
}

/// Errors of message encoding.
#[derive(Debug, Clone, PartialEq, Eq)]
pub enum EncodeError {
    /// Serialization failed
    Serialization(String),
    /// The payload exceeds the maximum size
    MessageTooLarge(usize),
}

impl EncodeError {
    /// Human-readable description.
    pub fn to_string(&self) -> (s: String)
        ensures
            s@ == match self {
                EncodeError::Serialization(e) => "serialization error: "@ + e@,
                EncodeError::MessageTooLarge(n) => "message too large: "@ + decimal(*n as nat)
                    + " bytes (max 65536)"@,
            },
    {
        let mut s = String::new();
        match self {
            EncodeError::Serialization(e) => {
                push_str(&mut s, "serialization error: ");
                push_str(&mut s, e.as_str());
            },
            EncodeError::MessageTooLarge(n) => {
                push_str(&mut s, "message too large: ");
                push_decimal(&mut s, *n as u64);
                push_str(&mut s, " bytes (max 65536)");
            },
        }
        proof {
            match self {
                EncodeError::Serialization(e) => {
                    assert(s@ =~= "serialization error: "@ + e@);
                },
                EncodeError::MessageTooLarge(n) => {
                    assert(s@ =~= "message too large: "@ + decimal(*n as nat) + " bytes (max 65536)"@);
                },
            }
        }
        s
    }
}

/// Errors of message decoding.
#[derive(Debug, Clone, PartialEq, Eq)]
pub enum DecodeError {
    /// Not enough data (need N more bytes)
    Incomplete(usize),
    /// Deserialization failed
    Deserialization(String),
    /// The announced length exceeds the maximum size
    MessageTooLarge(usize),
}

impl DecodeError {
    /// Human-readable description.
    pub fn to_string(&self) -> (s: String)
        ensures
            s@ == match self {
                DecodeError::Incomplete(n) => "incomplete message, need "@ + decimal(*n as nat)
                    + " more bytes"@,
                DecodeError::Deserialization(e) => "deserialization error: "@ + e@,
                DecodeError::MessageTooLarge(n) => "message too large: "@ + decimal(*n as nat)
                    + " bytes (max 65536)"@,
            },
    {
        let mut s = String::new();
        match self {
            DecodeError::Incomplete(n) => {
                push_str(&mut s, "incomplete message, need ");
                push_decimal(&mut s, *n as u64);
                push_str(&mut s, " more bytes");
            },
            DecodeError::Deserialization(e) => {
                push_str(&mut s, "deserialization error: ");
                push_str(&mut s, e.as_str());
            },
            DecodeError::MessageTooLarge(n) => {
                push_str(&mut s, "message too large: ");
                push_decimal(&mut s, *n as u64);
                push_str(&mut s, " bytes (max 65536)");
            },
        }
        proof {
            match self {
                DecodeError::Incomplete(n) => {
                    assert(s@ =~= "incomplete message, need "@ + decimal(*n as nat) + " more bytes"@);
                },
                DecodeError::Deserialization(e) => {
                    assert(s@ =~= "deserialization error: "@ + e@);
                },
                DecodeError::MessageTooLarge(n) => {
                    assert(s@ =~= "message too large: "@ + decimal(*n as nat) + " bytes (max 65536)"@);
                },
            }
        }
        s
    }
}

/// A frame: the payload length (big-endian, 4 bytes), then the payload.
pub open spec fn frame(payload: Seq<u8>) -> Seq<u8> {
    be32(payload.len() as u32) + payload
}

/// Outcome of reading one frame from the front of a buffer.
pub enum FrameRead {
    /// A payload, and the number of bytes the frame takes
    Frame(Seq<u8>, nat),
    /// Not enough data: this many more bytes are needed
    Incomplete(nat),
    /// The announced payload length is over the maximum
    TooLarge(nat),
}

/// Reads one frame from the front of `buf`.
pub open spec fn read_frame(buf: Seq<u8>) -> FrameRead {
    if buf.len() < 4 {
        FrameRead::Incomplete((4 - buf.len()) as nat)
    } else {
        let len = from_be32(buf[0], buf[1], buf[2], buf[3]) as nat;
        if len > MAX_MESSAGE_SIZE {
            FrameRead::TooLarge(len)
        } else if buf.len() < 4 + len {
            FrameRead::Incomplete((4 + len - buf.len()) as nat)
        } else {
            FrameRead::Frame(buf.subrange(4, 4 + len as int), 4 + len)
        }
    }
}

/// Frames a serialized message payload with its length.
pub fn encode_message(payload: &[u8]) -> (r: Result<Vec<u8>, EncodeError>)
    ensures
        payload@.len() > MAX_MESSAGE_SIZE ==> (r matches Err(EncodeError::MessageTooLarge(n)) && n
            == payload@.len()),
        payload@.len() <= MAX_MESSAGE_SIZE ==> (r matches Ok(v) && v@ == frame(payload@)),
{
    if payload.len() > MAX_MESSAGE_SIZE as usize {
        return Err(EncodeError::MessageTooLarge(payload.len()));
    }
    let mut buf: Vec<u8> = Vec::new();
    push_be32(&mut buf, payload.len() as u32);
    push_bytes(&mut buf, payload);
    Ok(buf)
}

/// Reads one framed message payload from the front of `buf`; returns the
/// payload and the number of bytes consumed.
pub fn decode_message(buf: &[u8]) -> (r: Result<(Vec<u8>, usize), DecodeError>)
    ensures
        match read_frame(buf@) {
            FrameRead::Frame(p, n) => r matches Ok((v, k)) && v@ == p && k == n,
            FrameRead::Incomplete(n) => r matches Err(DecodeError::Incomplete(k)) && k == n,
            FrameRead::TooLarge(n) => r matches Err(DecodeError::MessageTooLarge(k)) && k == n,
        },
{
    if buf.len() < HEADER_LEN {
        return Err(DecodeError::Incomplete(HEADER_LEN - buf.len()));
    }
    let length = u32_from_be(buf[0], buf[1], buf[2], buf[3]);
    if length > MAX_MESSAGE_SIZE {
        return Err(DecodeError::MessageTooLarge(length as usize));
    }
    let total_len = HEADER_LEN + length as usize;
    if buf.len() < total_len {
        return Err(DecodeError::Incomplete(total_len - buf.len()));
    }
    let payload = copy_range(buf, HEADER_LEN, total_len);
    Ok((payload, total_len))
}

/// Reading a frame back gives the payload and the frame's length.
pub proof fn lemma_frame_roundtrip(payload: Seq<u8>, rest: Seq<u8>)
    requires
        payload.len() <= MAX_MESSAGE_SIZE,
    ensures
        read_frame(frame(payload) + rest) == FrameRead::Frame(payload, 4 + payload.len()),
{
    lemma_be32_roundtrip(payload.len() as u32);
    let b = frame(payload) + rest;
    assert(b.subrange(4, 4 + payload.len() as int) =~= payload);
}

/// Payloads of the complete frames at the front of `buf`, in order, and the
/// bytes from the first frame that cannot be read on.
pub open spec fn split_frames(buf: Seq<u8>) -> (Seq<Seq<u8>>, Seq<u8>)
    decreases buf.len(),
{
    if buf.len() == 0 {
        (Seq::empty(), buf)
    } else {
        match read_frame(buf) {
            FrameRead::Frame(p, n) => {
                let (ps, rest) = split_frames(buf.subrange(n as int, buf.len() as int));
                (seq![p] + ps, rest)
            },
            _ => (Seq::empty(), buf),
        }
    }
}

/// The frames of `payloads`, one after the other.
pub open spec fn frames(payloads: Seq<Seq<u8>>) -> Seq<u8>
    decreases payloads.len(),
{
    if payloads.len() == 0 {
        Seq::empty()
    } else {
        frame(payloads[0]) + frames(payloads.drop_first())
    }
}

/// Splitting a buffer of frames gives back their payloads, in order, and
/// the bytes after them (when those do not start a complete frame).
pub proof fn lemma_split_frames(payloads: Seq<Seq<u8>>, rest: Seq<u8>)
    requires
        forall|i: int| 0 <= i < payloads.len() ==> (#[trigger] payloads[i]).len() <= MAX_MESSAGE_SIZE,
        rest.len() == 0 || !(read_frame(rest) is Frame),
    ensures
        split_frames(frames(payloads) + rest) == (payloads, rest),
    decreases payloads.len(),
{
    if payloads.len() == 0 {
        assert(frames(payloads) + rest =~= rest);
    } else {
        let p = payloads[0];
        let tail = payloads.drop_first();
        assert forall|i: int| 0 <= i < tail.len() implies (#[trigger] tail[i]).len() <= MAX_MESSAGE_SIZE by {
            assert(tail[i] == payloads[i + 1]);
        }
        lemma_split_frames(tail, rest);
        let buf = frames(payloads) + rest;
        assert(buf =~= frame(p) + (frames(tail) + rest));
        lemma_frame_roundtrip(p, frames(tail) + rest);
        assert(buf.subrange(4 + p.len() as int, buf.len() as int) =~= frames(tail) + rest);
        assert(buf.len() > 0);
        assert(seq![p] + tail =~= payloads);
    }
}

/// Splits a buffer into the payloads of its complete frames and the remaining bytes.
pub fn decode_messages(buf: &[u8]) -> (r: (Vec<Vec<u8>>, Vec<u8>))
    ensures
        r.0@.map_values(|v: Vec<u8>| v@) == split_frames(buf@).0,
        r.1@ == split_frames(buf@).1,
{
    let mut messages: Vec<Vec<u8>> = Vec::new();
    let mut pos: usize = 0;
    let ghost full = buf@;
    assert(full.subrange(0, full.len() as int) =~= full);
    assert(messages@.map_values(|v: Vec<u8>| v@) =~= Seq::<Seq<u8>>::empty());
    while pos < buf.len()
        invariant_except_break
            full == buf@,
            pos <= buf@.len(),
            split_frames(full).0 == messages@.map_values(|v: Vec<u8>| v@) + split_frames(
                full.subrange(pos as int, full.len() as int),
            ).0,
            split_frames(full).1 == split_frames(full.subrange(pos as int, full.len() as int)).1,
        ensures
            full == buf@,
            pos <= buf@.len(),
            split_frames(full).0 == messages@.map_values(|v: Vec<u8>| v@),
            split_frames(full).1 == full.subrange(pos as int, full.len() as int),
        decreases buf@.len() - pos,
    {
        let rest = copy_range(buf, pos, buf.len());
        let ghost tail = full.subrange(pos as int, full.len() as int);
        assert(rest@ == tail);
        match decode_message(rest.as_slice()) {
            Ok((msg, consumed)) => {
                proof {
                    let t2 = tail.subrange(consumed as int, tail.len() as int);
                    assert(t2 =~= full.subrange(pos + consumed, full.len() as int));
                    assert(messages@.push(msg).map_values(|v: Vec<u8>| v@) =~= messages@.map_values(
                        |v: Vec<u8>| v@,
                    ) + seq![msg@]);
                }
                messages.push(msg);
                pos = pos + consumed;
                proof {
                    let tail_now = full.subrange(pos as int, full.len() as int);
                    assert(split_frames(tail).0 =~= seq![msg@] + split_frames(tail_now).0);
                }
            },
            Err(_) => {
                break;
            },
        }
    }
    proof {
        if pos == buf.len() {
            assert(full.subrange(pos as int, full.len() as int) =~= Seq::<u8>::empty());
        }
    }
    let remaining = copy_range(buf, pos, buf.len());
    (messages, remaining)
}

/// A random session id from the operating system's generator (native byte
/// order), or `None` if the generator failed.
pub fn generate_session_id() -> (r: Option<u64>)
{
    match crate::random::random_bytes(8) {
        Some(b) => {
            let mut x: u64 = 0;
            let mut i: usize = 0;
            while i < 8
                invariant
                    i <= 8,
                    b@.len() == 8,
                decreases 8 - i,
            {
                x = x.wrapping_mul(256).wrapping_add(b[7 - i] as u64);
                i = i + 1;
            }
            Some(x)
        },
        None => None,
    }
}

} // verus!
