//! Control plane of a selective forwarding unit: the pool of media workers,
//! the registry of rooms, and the negotiation state machine of one peer
//! connection.
//!
//! The media engine itself is driven from outside this crate. Every function
//! here works on plain values: it takes the current state and what happened,
//! and returns the next state together with the commands the caller has to
//! carry out against the engine or the socket.

pub mod connect;
pub mod guarantees;
pub mod message;
pub mod ordered;
pub mod room;
pub mod websocket;
pub mod worker;
