//! What the relay server keeps about a connected client, apart from the
//! QUIC connection itself.
use vstd::prelude::*;
use crate::net::SockAddr;
use crate::vecmap::VecMap;

pub use crate::server::registry::ClientType;

verus! {

/// State of a connected client.
#[derive(Debug)]
pub struct Client {
    /// Observed source address (for address discovery)
    pub observed_addr: SockAddr,
    /// Type of client, once registered
    pub client_type: Option<ClientType>,
    /// Registered service id, once registered
    pub registered_id: Option<String>,
    /// Whether the observed address was sent to the client
    pub qad_sent: bool,
    /// Signaling data received so far, per stream
    pub signaling_buffers: VecMap<u64, Vec<u8>>,
    /// Identity (common name) from the client certificate
    pub authenticated_identity: Option<String>,
    /// Services the certificate authorizes; `None` allows all
    pub authenticated_services: Option<Vec<String>>,
}

impl Client {
    /// The invariant: the buffer map is well formed.
    pub open spec fn wf(&self) -> bool {
        self.signaling_buffers.wf()
    }

    /// A client seen at `observed_addr`, not yet registered or authenticated.
    pub fn new(observed_addr: SockAddr) -> (c: Client)
        ensures
            c.wf(),
            c.observed_addr == observed_addr,
            c.client_type is None,
            c.registered_id is None,
            !c.qad_sent,
            c.signaling_buffers@ == Map::<u64, Vec<u8>>::empty(),
            c.authenticated_identity is None,
            c.authenticated_services is None,
    {
        Client {
            observed_addr,
            client_type: None,
            registered_id: None,
            qad_sent: false,
            signaling_buffers: VecMap::new(),
            authenticated_identity: None,
            authenticated_services: None,
        }
    }

    /// The signaling buffer of a stream, created empty if there is none.
    pub fn get_signaling_buffer(&mut self, stream_id: u64) -> (r: &mut Vec<u8>)
        requires
            old(self).wf(),
        ensures
            old(self).signaling_buffers@.contains_key(stream_id) ==> *r == old(self).signaling_buffers@[stream_id],
            !old(self).signaling_buffers@.contains_key(stream_id) ==> r@ == Seq::<u8>::empty(),
            final(self).wf(),
            final(self).signaling_buffers@ == old(self).signaling_buffers@.insert(stream_id, *final(r)),
            final(self).observed_addr == old(self).observed_addr,
            final(self).client_type == old(self).client_type,
            final(self).registered_id == old(self).registered_id,
            final(self).qad_sent == old(self).qad_sent,
            final(self).authenticated_identity == old(self).authenticated_identity,
            final(self).authenticated_services == old(self).authenticated_services,
    {
        self.signaling_buffers.get_or_insert_mut(stream_id, Vec::new())
    }

    /// Drops the signaling buffer of a stream.
    pub fn remove_signaling_buffer(&mut self, stream_id: u64)
        requires
            old(self).wf(),
        ensures
            final(self).wf(),
            final(self).signaling_buffers@ == old(self).signaling_buffers@.remove(stream_id),
            final(self).observed_addr == old(self).observed_addr,
            final(self).client_type == old(self).client_type,
            final(self).registered_id == old(self).registered_id,
            final(self).qad_sent == old(self).qad_sent,
            final(self).authenticated_identity == old(self).authenticated_identity,
            final(self).authenticated_services == old(self).authenticated_services,
    {
        self.signaling_buffers.remove(&stream_id);
    }
}

} // verus!
