//! Verified core of a zero-trust network access tunnel: ICE-style P2P
//! candidate handling, connectivity checks, hole-punch coordination, path
//! resilience, signaling framing, the relay server's routing registry and
//! session bookkeeping, client authorization, address discovery messages,
//! metrics rendering and IPv4 packet construction.
pub mod bytes;
pub mod clock;
pub mod text;
pub mod net;
pub mod sort;
pub mod p2p;
pub mod random;
pub mod vecmap;
pub mod server;
pub mod metrics_text;
pub mod connector;
pub mod test_client;
pub mod agent;
