//! Address discovery messages on the Connector side: the address the relay
//! server saw, as `[0x01, IPv4 (4 bytes), port (2 bytes, big-endian)]`.
use vstd::prelude::*;
use crate::bytes::{be16, push_be16, u16_from_be, lemma_be16_roundtrip};
use crate::net::{IpAddr, SockAddr};

verus! {

/// Message type of an observed address.
pub const QAD_OBSERVED_ADDRESS: u8 = 0x01;

/// The IPv4 address carried for an address: itself, an IPv4-mapped IPv6
/// address as its IPv4 address, any other IPv6 address as 0.0.0.0.
pub open spec fn carried_v4(ip: IpAddr) -> (u8, u8, u8, u8) {
    match ip {
        IpAddr::V4(a, b, c, d) => (a, b, c, d),
        IpAddr::V6(s0, s1, s2, s3, s4, s5, s6, s7) => if s0 == 0 && s1 == 0 && s2 == 0 && s3 == 0 && s4 == 0 && s5
            == 0xffff {
            ((s6 / 256) as u8, (s6 % 256) as u8, (s7 / 256) as u8, (s7 % 256) as u8)
        } else {
            (0, 0, 0, 0)
        },
    }
}

/// The message for an address.
pub open spec fn observed_message(addr: SockAddr) -> Seq<u8> {
    let (a, b, c, d) = carried_v4(addr.ip);
    seq![QAD_OBSERVED_ADDRESS, a, b, c, d] + be16(addr.port)
}

/// Builds the observed address message for `addr`.
pub fn build_observed_address(addr: SockAddr) -> (r: Vec<u8>)
    ensures
        r@ == observed_message(addr),
{
    let (a, b, c, d) = match addr.ip {
        IpAddr::V4(a, b, c, d) => (a, b, c, d),
        IpAddr::V6(s0, s1, s2, s3, s4, s5, s6, s7) => {
            if s0 == 0 && s1 == 0 && s2 == 0 && s3 == 0 && s4 == 0 && s5 == 0xffff {
                ((s6 / 256) as u8, (s6 % 256) as u8, (s7 / 256) as u8, (s7 % 256) as u8)
            } else {
                (0u8, 0u8, 0u8, 0u8)
            }
        },
    };
    let mut msg: Vec<u8> = Vec::new();
    msg.push(QAD_OBSERVED_ADDRESS);
    msg.push(a);
    msg.push(b);
    msg.push(c);
    msg.push(d);
    push_be16(&mut msg, addr.port);
    assert(msg@ =~= observed_message(addr));
    msg
}

/// The address an observed address message carries: at least seven bytes
/// starting with the message type.
pub open spec fn spec_parse_observed(data: Seq<u8>) -> Option<SockAddr> {
    if data.len() < 7 || data[0] != QAD_OBSERVED_ADDRESS {
        None
    } else {
        Some(SockAddr { ip: IpAddr::V4(data[1], data[2], data[3], data[4]), port: crate::bytes::from_be16(data[5], data[6]) })
    }
}

/// Parses an observed address message.
pub fn parse_observed_address(data: &[u8]) -> (r: Option<SockAddr>)
    ensures
        r == spec_parse_observed(data@),
{
    if data.len() < 7 {
        return None;
    }
    if data[0] != QAD_OBSERVED_ADDRESS {
        return None;
    }
    let port = u16_from_be(data[5], data[6]);
    Some(SockAddr { ip: IpAddr::V4(data[1], data[2], data[3], data[4]), port })
}

/// An IPv4 address reads back from the message built for it.
pub proof fn lemma_observed_roundtrip(addr: SockAddr)
    requires
        addr.ip is V4,
    ensures
        spec_parse_observed(observed_message(addr)) == Some(addr),
{
    lemma_be16_roundtrip(addr.port);
}

} // verus!
