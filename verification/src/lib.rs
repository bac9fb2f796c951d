//! A verified core for a topic-based fan-out bridge: a routing-key codec,
//! a registry of live client connections, a heartbeat sweep cycle that
//! evicts dead connections, and broadcast target selection.

pub mod dispatcher;
pub mod errors;
pub mod listener;
pub mod registry;
pub mod sweeper;
pub mod routing_key;
