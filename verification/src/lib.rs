//! Core of a multi-user text chat room: the room coordinator.
//!
//! The coordinator is the single owner of all shared room state — the
//! membership roster and the durable name/password registry — and turns each
//! incoming [`message::Request`] into a state change, a list of unicast
//! replies, and at most one room-wide broadcast.  Socket handling, line
//! framing and channel plumbing live outside this crate; the coordinator
//! itself is a pure, fully specified state machine.

pub mod message;
pub mod registry;
pub mod roster;
pub mod server;
pub mod laws;
