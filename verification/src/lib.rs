//! A server-side event broadcaster: a registry of connected streaming
//! clients, identifier assignment for new subscribers, fan-out of text
//! messages to every registered client, and eviction of clients whose
//! delivery handle has failed a keepalive probe.
//!
//! The registry itself holds no lock and performs no I/O: the surrounding
//! service wraps a [`registry::Registry`] in a mutex, takes snapshots under
//! the lock, and awaits deliveries outside it.

pub mod ids;
pub mod messages;
pub mod registry;
