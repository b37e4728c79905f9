//! Address discovery messages sent by the relay server: the address a
//! client's packets came from.
use vstd::prelude::*;
use crate::bytes::{be16, push_be16};
use crate::net::{IpAddr, SockAddr};

verus! {

/// Message type of an observed address.
pub const QAD_OBSERVED_ADDRESS: u8 = 0x01;

/// An observed IPv4 address message: the type, the four address bytes and
/// the port (big-endian).
pub open spec fn observed_address_bytes(a: u8, b: u8, c: u8, d: u8, port: u16) -> Seq<u8> {
    seq![QAD_OBSERVED_ADDRESS, a, b, c, d] + be16(port)
}

/// The observed address message for `addr`; none for IPv6, which the
/// message cannot carry.
pub fn build_observed_address(addr: SockAddr) -> (r: Option<Vec<u8>>)
    ensures
        match addr.ip {
            IpAddr::V4(a, b, c, d) => r matches Some(m) && m@ == observed_address_bytes(a, b, c, d, addr.port),
            IpAddr::V6(..) => r is None,
        },
{
    match addr.ip {
        IpAddr::V4(a, b, c, d) => {
            let mut msg: Vec<u8> = Vec::new();
            msg.push(QAD_OBSERVED_ADDRESS);
            msg.push(a);
            msg.push(b);
            msg.push(c);
            msg.push(d);
            push_be16(&mut msg, addr.port);
            assert(msg@ =~= observed_address_bytes(a, b, c, d, addr.port));
            Some(msg)
        },
        IpAddr::V6(..) => None,
    }
}

} // verus!
