//! The session layer of a peer-to-peer node: packet framing, the per-connection
//! session state machine, the supervisor's admission rules, the registry of
//! connected peers, and the subscriber's side of the internal broadcast bus.
//!
//! Everything here decides and nothing here waits: sockets, timers, tasks and
//! channels belong to the program that drives these types.

pub mod address;
pub mod buffer;
pub mod codec;
pub mod manager;
pub mod models;
pub mod node;
pub mod registry;
pub mod session;
pub mod stream;
