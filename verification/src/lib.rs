//! Core of a point-to-point message relay: a registry of live sessions keyed
//! by identity, a router that resolves a target identity and appends to its
//! outbound queue, a per-connection handler state machine, and an output
//! adapter that drains a session's queue in order.

pub mod message;
pub mod registry;
pub mod router;
pub mod handler;
pub mod laws;
