//! The relay server's logic: client registry, signaling sessions, client
//! authorization, address discovery messages, metrics and the routing
//! decisions that the network loop carries out.
pub mod registry;
pub mod signaling;
pub mod client;
pub mod auth;
pub mod router;
pub mod retry;
pub mod metrics;
pub mod qad;
