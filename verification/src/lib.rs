//! A small game-networking layer: a hub (server) that tracks players by the
//! socket address they connect from, and clients that exchange messages with
//! it over a reliable TCP stream and an unreliable UDP socket.
//!
//! The verified part holds the decisions of the networking code: how player
//! ids are handed out and looked up, how messages are routed to connection
//! threads, and how messages are framed and compressed on the wire.
use vstd::prelude::*;

pub mod addr;
pub mod channel;
pub mod client;
pub mod compression;
pub mod hub;
pub mod messages;
pub mod nodes;
pub mod registry;
pub mod wire;

verus! {

} // verus!
