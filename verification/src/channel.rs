//! The channels between the threads of a hub or a client, each end with the
//! record of the messages that passed through it.
use vstd::prelude::*;

use crossbeam_channel::{Receiver, Sender};

verus! {

#[verifier::external_type_specification]
#[verifier::external_body]
#[verifier::reject_recursive_types(T)]
pub struct ExSender<T>(Sender<T>);

#[verifier::external_type_specification]
#[verifier::external_body]
#[verifier::reject_recursive_types(T)]
pub struct ExReceiver<T>(Receiver<T>);

/// `Sender::send`: queues the message, or hands it back when every receiver
/// of the channel is gone. Whether that has happened depends on other
/// threads, so the outcome is not stated; a failure returns the very message
/// that was given.
#[verifier::external_body]
fn channel_send<M>(sender: &Sender<M>, msg: M) -> (r: Result<(), M>)
    ensures
        r matches Err(m) ==> m == msg,
{
    match sender.send(msg) {
        Ok(()) => Ok(()),
        Err(e) => Err(e.0),
    }
}

/// `Receiver::recv`: waits for the next message, or gives `None` once the
/// channel is empty and every sender is gone. What arrives depends on other
/// threads; nothing is stated of it.
#[verifier::external_body]
fn channel_recv<M>(receiver: &Receiver<M>) -> Option<M> {
    receiver.recv().ok()
}

/// `Receiver::try_recv`: the next message if one is waiting, `None` if the
/// channel is empty or closed. What arrives depends on other threads;
/// nothing is stated of it.
#[verifier::external_body]
fn channel_try_recv<M>(receiver: &Receiver<M>) -> Option<M> {
    receiver.try_recv().ok()
}

/// `Receiver::len`: how many messages are waiting; it changes as other
/// threads send, so nothing is stated of it.
#[verifier::external_body]
fn channel_len<M>(receiver: &Receiver<M>) -> usize {
    receiver.len()
}

/// The sending end of a channel, with every message that the channel has
/// taken from it, in order.
#[verifier::reject_recursive_types(M)]
pub struct SendLink<M> {
    sender: Sender<M>,
    log: Ghost<Seq<M>>,
}

impl<M> SendLink<M> {
    /// The messages that the channel has taken from this end, in order.
    pub closed spec fn log(&self) -> Seq<M> {
        self.log@
    }

    /// This end of a channel, with nothing sent yet.
    pub fn new(sender: Sender<M>) -> (link: SendLink<M>)
        ensures
            link.log() == Seq::<M>::empty(),
    {
        SendLink { sender, log: Ghost(Seq::empty()) }
    }

    /// Hands `msg` to the channel. When the channel takes it, it is the next
    /// entry of the record; when every receiver is gone, it comes back and
    /// the record stays as it was.
    pub fn send(&mut self, msg: M) -> (r: Result<(), M>)
        ensures
            r is Ok ==> final(self).log() == old(self).log().push(msg),
            r matches Err(m) ==> m == msg && final(self).log() == old(self).log(),
    {
        let ghost handed = msg;
        let r = channel_send(&self.sender, msg);
        if r.is_ok() {
            self.log = Ghost(self.log@.push(handed));
        }
        r
    }
}

/// The receiving end of a channel, with every message taken from it, in
/// order, whether it has been seen closed, and the points of its record at
/// which it was drained.
#[verifier::reject_recursive_types(M)]
pub struct RecvLink<M> {
    receiver: Receiver<M>,
    log: Ghost<Seq<M>>,
    closed: Ghost<bool>,
    marks: Ghost<Seq<nat>>,
}

impl<M> RecvLink<M> {
    /// The messages taken from this end, in order.
    pub closed spec fn log(&self) -> Seq<M> {
        self.log@
    }

    /// Whether a waiting receive on this end has come back empty, which it
    /// does only once the channel is empty and every sender is gone (a
    /// closed channel stays closed).
    pub closed spec fn closed(&self) -> bool {
        self.closed@
    }

    /// For each drain of this end, the length of the record once every
    /// message that waited when the drain began had been taken (or the
    /// channel had been found empty).
    pub closed spec fn marks(&self) -> Seq<nat> {
        self.marks@
    }

    /// This end of a channel, with nothing taken yet.
    pub fn new(receiver: Receiver<M>) -> (link: RecvLink<M>)
        ensures
            link.log() == Seq::<M>::empty(),
            !link.closed(),
            link.marks() == Seq::<nat>::empty(),
    {
        RecvLink {
            receiver,
            log: Ghost(Seq::empty()),
            closed: Ghost(false),
            marks: Ghost(Seq::empty()),
        }
    }

    /// Waits for the next message; `None` only once the channel is empty and
    /// every sender is gone, and then the end is recorded as closed. A
    /// message taken is the next entry of the record.
    pub fn recv(&mut self) -> (r: Option<M>)
        ensures
            r matches Some(m) ==> final(self).log() == old(self).log().push(m),
            r is None ==> final(self).log() == old(self).log(),
            r is None ==> final(self).closed(),
            r is Some ==> final(self).closed() == old(self).closed(),
            final(self).marks() == old(self).marks(),
    {
        let r = channel_recv(&self.receiver);
        match &r {
            Some(m) => {
                self.log = Ghost(self.log@.push(*m));
            },
            None => {
                self.closed = Ghost(true);
            },
        }
        r
    }

    /// The next message if one is waiting, without waiting; a message taken
    /// is the next entry of the record. `None` says only that nothing was
    /// waiting.
    pub fn try_recv(&mut self) -> (r: Option<M>)
        ensures
            r matches Some(m) ==> final(self).log() == old(self).log().push(m),
            r is None ==> final(self).log() == old(self).log(),
            final(self).closed() == old(self).closed(),
            final(self).marks() == old(self).marks(),
    {
        let r = channel_try_recv(&self.receiver);
        if let Some(m) = &r {
            self.log = Ghost(self.log@.push(*m));
        }
        r
    }

    /// How many messages are waiting now.
    pub fn waiting(&self) -> usize {
        channel_len(&self.receiver)
    }

    /// Takes every message waiting now, in order; they are the next entries
    /// of the record, and the drain is marked at the record's new length.
    pub fn take_waiting(&mut self) -> (taken: Vec<M>)
        ensures
            final(self).log() == old(self).log() + taken@,
            final(self).closed() == old(self).closed(),
            final(self).marks() == old(self).marks().push(final(self).log().len()),
    {
        let n = channel_len(&self.receiver);
        let mut taken: Vec<M> = Vec::new();
        let mut i: usize = 0;
        while i < n
            invariant
                self.log() == old(self).log() + taken@,
                self.closed() == old(self).closed(),
                self.marks() == old(self).marks(),
            decreases n - i,
        {
            match channel_try_recv(&self.receiver) {
                Some(m) => {
                    let ghost g = m;
                    self.log = Ghost(self.log@.push(g));
                    taken.push(m);
                    assert(self.log() =~= old(self).log() + taken@);
                    i = i + 1;
                },
                None => {
                    i = n;
                },
            }
        }
        self.marks = Ghost(self.marks@.push(self.log@.len()));
        taken
    }
}

} // verus!
