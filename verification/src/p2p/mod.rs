//! Direct peer-to-peer connectivity: ICE-style candidates, connectivity
//! checks, hole-punch coordination, path resilience and signaling framing.
pub mod candidate;
pub mod connectivity;
pub mod hole_punch;
pub mod resilience;
pub mod signaling;
