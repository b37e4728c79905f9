//! The App Connector's logic: address discovery messages, metrics, P2P
//! signaling sessions, IPv4 packet construction and checksums, and the
//! decisions on the traffic it forwards.
pub mod metrics;
pub mod qad;
pub mod packet;
pub mod forward;
pub mod tcp;
pub mod signaling;
