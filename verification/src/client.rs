//! The user side and the network side of a client.
use vstd::prelude::*;

use crossbeam_channel::{Receiver, Sender};

use crate::channel::{RecvLink, SendLink};
use crate::messages::LinkError;

verus! {

/// The handle that the user of a client holds: messages to the hub go down
/// with a flag that asks for the reliable stream, messages from the hub
/// come up.
#[verifier::reject_recursive_types(T)]
pub struct NetClientTop<T> {
    pub down: SendLink<(T, bool)>,
    pub up: RecvLink<T>,
}

impl<T> NetClientTop<T> {
    /// The messages that the down channel has taken, with their flags, in
    /// order.
    pub open spec fn sent(&self) -> Seq<(T, bool)> {
        self.down.log()
    }

    /// The messages taken from the up channel, in order.
    pub open spec fn heard(&self) -> Seq<T> {
        self.up.log()
    }

    /// Whether the up channel has been found closed: a waiting receive came
    /// back empty, which happens only once the channel is empty and the
    /// network side has dropped every sender of it.
    pub open spec fn network_gone(&self) -> bool {
        self.up.closed()
    }

    /// A handle over the channels to and from the network side.
    pub fn new(down: Sender<(T, bool)>, up: Receiver<T>) -> (client: NetClientTop<T>)
        ensures
            client.sent() == Seq::<(T, bool)>::empty(),
            client.heard() == Seq::<T>::empty(),
            !client.network_gone(),
    {
        NetClientTop { down: SendLink::new(down), up: RecvLink::new(up) }
    }

    /// Hands the message, with the flag that asks for the reliable stream, to
    /// the network side. Fails only when the network side is gone.
    pub fn send_msg(&mut self, message: T, reliable: bool) -> (r: Result<(), LinkError>)
        ensures
            r is Ok ==> final(self).sent() == old(self).sent().push((message, reliable)),
            r matches Err(e) ==> e is Disconnected && final(self).sent() == old(self).sent(),
            final(self).heard() == old(self).heard(),
            final(self).network_gone() == old(self).network_gone(),
    {
        match self.down.send((message, reliable)) {
            Ok(()) => Ok(()),
            Err(_) => Err(LinkError::Disconnected),
        }
    }

    /// Waits for the next message from the hub, the next one the up channel
    /// delivers; `None` once the network side is gone.
    pub fn recv(&mut self) -> (r: Option<T>)
        ensures
            r matches Some(m) ==> final(self).heard() == old(self).heard().push(m),
            r is None ==> final(self).heard() == old(self).heard(),
            r is None ==> final(self).network_gone(),
            old(self).network_gone() ==> final(self).network_gone(),
            final(self).sent() == old(self).sent(),
    {
        self.up.recv()
    }
}

/// The network side of a client: the hub's address as given by the user, and
/// the other ends of the user's channels.
#[verifier::reject_recursive_types(T)]
pub struct NetClientBottom<T> {
    pub conn_address: String,
    pub up: Sender<T>,
    pub down: Receiver<(T, bool)>,
}

} // verus!
