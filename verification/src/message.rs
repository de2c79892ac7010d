//! Protocol types exchanged between connection handlers and the coordinator.

use vstd::prelude::*;

verus! {

/// Identifies one client connection for the lifetime of the process.
pub type Address = u64;

/// A display record (name + address) describing a connected participant,
/// used in membership listings.
#[derive(Debug, Clone)]
pub struct Member {
    pub name: String,
    pub addr: Address,
}

/// One request from a connection handler, tagged with its origin.
pub struct Request {
    pub addr: Address,
    pub body: RequestBody,
}

/// What a connection asks the coordinator to do.
pub enum RequestBody {
    Join,
    Leave,
    List,
    Rename { name: String, password: String },
    Register { name: String, password: String },
    Submit { message: String },
    UnicastMessage { message: String },
}

/// A notification emitted by the coordinator, either addressed to one
/// connection or fanned out to every current member.
#[derive(Debug, Clone)]
pub enum Notify {
    Unicast(UnicastNotify),
    Broadcast(BroadcastNotify),
}

/// A reply delivered to exactly one connection.
#[derive(Debug, Clone)]
pub enum UnicastNotify {
    Join { name: String },
    Leave,
    List(Vec<Member>),
    Rename(bool),
    Register(bool),
    Submit(bool),
    Message(String),
}

/// An announcement delivered to every currently-connected member.
#[derive(Debug, Clone)]
pub enum BroadcastNotify {
    Join { name: String, addr: Address },
    Leave { name: String, addr: Address },
    Rename { old_name: String, new_name: String, addr: Address },
    Register { name: String, addr: Address },
    Submit { name: String, addr: Address, message: String },
}

} // verus!
