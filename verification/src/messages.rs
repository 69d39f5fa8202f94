//! The messages that flow between the parts of a hub and its users.
use vstd::prelude::*;

use crate::addr::PeerAddr;

verus! {

/// A player's id: handed out by the hub, one per address ever seen.
pub type PlayerID = u32;

/// What the hub reports to its user.
#[derive(Debug, PartialEq)]
pub enum OutMsg<T> {
    /// A player connected; it has the given id.
    PlayerConnected(PlayerID),
    /// A player's connection ended.
    PlayerDisconnected(PlayerID),
    /// A message arrived from a connected player.
    NewFax(PlayerID, T),
}

/// What the network side of a hub reports upwards, by address.
pub enum UpMsg<T> {
    PlayerConnected(PeerAddr),
    PlayerDisconnected(PeerAddr),
    NewFax(PeerAddr, T),
}

/// What the user side of a hub asks the network side to do.
pub enum DownMsg<T> {
    /// Send a message to an address; the flag asks for the reliable (TCP)
    /// stream rather than a UDP datagram.
    SendFax(PeerAddr, T, bool),
    /// Close the connection to an address.
    DropPlayer(PeerAddr),
}

/// What the network side of a hub hands the thread that owns one connection.
pub enum ToNodeMsg<T> {
    /// Shut the connection down.
    Die,
    /// Write a message to the connection.
    NewFax(T),
}

/// What the thread that owns a connection reports back.
pub enum FromNodeMsg {
    /// The connection to the address has ended.
    IveDied(PeerAddr),
}

/// Why a channel operation of a hub or a client failed.
#[derive(Debug, PartialEq, Clone, Copy)]
pub enum LinkError {
    /// The other end of a channel is gone: the network threads have stopped.
    Disconnected,
    /// The network side reported an event that contradicts the hub's state
    /// (a second connect from a connected address, a disconnect from an
    /// address that is not connected, or no id left to hand out).
    ProtocolViolation,
}

} // verus!
