//! The user side of a hub.
use vstd::prelude::*;

use crossbeam_channel::{Receiver, Sender};

use crate::channel::{RecvLink, SendLink};
use crate::messages::{DownMsg, LinkError, OutMsg, PlayerID, UpMsg};
use crate::registry::{
    initial_view, lemma_run_push, law_run_keeps_wf, next_view, replies, reply, run,
    PlayerRegistry, RegistryView,
};

verus! {

/// The handle that the user of a hub holds: it turns the network side's
/// events into player events, and turns requests by player id into requests
/// by address for the network side.
///
/// Events are taken from the network side whenever the handle is used: the
/// registry follows every event taken so far, and what the user is told of
/// those events waits in a queue until `recv_step` hands it out, in order.
#[verifier::reject_recursive_types(T)]
pub struct NetHubTop<T> {
    down: SendLink<DownMsg<T>>,
    up: RecvLink<UpMsg<T>>,
    connected_players: PlayerRegistry,
    pending: Vec<Result<Option<OutMsg<T>>, LinkError>>,
    delivered: Ghost<Seq<Result<Option<OutMsg<T>>, LinkError>>>,
}

/// `added` is one message per player of `ids`, in that order: a copy of
/// `message` to the player's address, with the given transport. The ids are
/// connected players, each at most once.
pub open spec fn fans_out<T: Clone>(
    v: RegistryView,
    ids: Seq<u32>,
    message: T,
    reliable: bool,
    added: Seq<DownMsg<T>>,
) -> bool {
    &&& ids.no_duplicates()
    &&& added.len() == ids.len()
    &&& forall|i: int| 0 <= i < ids.len() ==> v.connected.dom().contains(#[trigger] ids[i])
    &&& forall|i: int|
        0 <= i < ids.len() ==> (#[trigger] added[i] matches DownMsg::SendFax(a, m, r) && a
            == v.connected[ids[i]] && cloned(message, m) && r == reliable)
}

/// `longer` is `shorter` followed by more entries.
pub open spec fn extends<M>(longer: Seq<M>, shorter: Seq<M>) -> bool {
    shorter.len() <= longer.len() && longer.take(shorter.len() as int) == shorter
}

proof fn lemma_extends_itself<M>(s: Seq<M>)
    ensures
        extends(s, s),
{
    assert(s.take(s.len() as int) =~= s);
}

/// Applies one event to the registry, saying what the user is told of it.
fn take_event<T>(registry: &mut PlayerRegistry, m: UpMsg<T>) -> (r: Result<
    Option<OutMsg<T>>,
    LinkError,
>)
    requires
        old(registry).wf(),
    ensures
        final(registry).wf(),
        final(registry)@ == next_view(old(registry)@, m),
        r == reply(old(registry)@, m),
{
    if registry.admits(&m) {
        Ok(registry.apply(m))
    } else {
        Err(LinkError::ProtocolViolation)
    }
}

impl<T> NetHubTop<T> {
    /// The registry of players behind the handle.
    pub closed spec fn players(&self) -> RegistryView {
        self.connected_players@
    }

    /// The requests that the down channel has taken, in order.
    pub closed spec fn sent(&self) -> Seq<DownMsg<T>> {
        self.down.log()
    }

    /// The events taken from the up channel, in order.
    pub closed spec fn heard(&self) -> Seq<UpMsg<T>> {
        self.up.log()
    }

    /// Whether the up channel has been found closed: a waiting receive came
    /// back empty, which happens only once the channel is empty and the
    /// network side has dropped every sender of it.
    pub closed spec fn network_gone(&self) -> bool {
        self.up.closed()
    }

    /// For each catch-up with the network side, the length of `heard` once
    /// every event that waited on the up channel when it began had been
    /// taken.
    pub closed spec fn drains(&self) -> Seq<nat> {
        self.up.marks()
    }

    /// What the user has been told so far by `recv_step`, in order.
    pub closed spec fn delivered(&self) -> Seq<Result<Option<OutMsg<T>>, LinkError>> {
        self.delivered@
    }

    /// What the user is yet to be told of the events taken, in order.
    pub closed spec fn pending(&self) -> Seq<Result<Option<OutMsg<T>>, LinkError>> {
        self.pending@
    }

    /// The handle's invariant: the registry is the run of every event taken,
    /// and what the user has been told, followed by what waits, is the reply
    /// to each of those events, in order.
    pub open spec fn wf(&self) -> bool {
        &&& self.players().wf()
        &&& self.players() == run(initial_view(), self.heard())
        &&& self.delivered() + self.pending() == replies(initial_view(), self.heard())
    }

    /// A handle over the channels to and from the network side, with no
    /// players yet.
    pub fn new(down: Sender<DownMsg<T>>, up: Receiver<UpMsg<T>>) -> (hub: NetHubTop<T>)
        ensures
            hub.wf(),
            hub.players() == initial_view(),
            hub.sent() == Seq::<DownMsg<T>>::empty(),
            hub.heard() == Seq::<UpMsg<T>>::empty(),
            hub.delivered() == Seq::<Result<Option<OutMsg<T>>, LinkError>>::empty(),
            !hub.network_gone(),
            hub.drains() == Seq::<nat>::empty(),
    {
        let hub = NetHubTop {
            down: SendLink::new(down),
            up: RecvLink::new(up),
            connected_players: PlayerRegistry::new(),
            pending: Vec::new(),
            delivered: Ghost(Seq::empty()),
        };
        assert(hub.players().ever =~= Map::empty());
        assert(hub.players().connected =~= Map::empty());
        assert(hub.delivered() + hub.pending() =~= Seq::empty());
        hub
    }

    /// The registry of players.
    pub fn registry(&self) -> (r: &PlayerRegistry)
        ensures
            r@ == self.players(),
    {
        &self.connected_players
    }

    /// Takes one event from the up channel into the registry and the queue.
    fn absorb(&mut self, m: UpMsg<T>)
        requires
            old(self).connected_players.wf(),
            old(self).players() == run(initial_view(), old(self).heard().drop_last()),
            old(self).delivered() + old(self).pending() == replies(
                initial_view(),
                old(self).heard().drop_last(),
            ),
            old(self).heard().len() > 0,
            old(self).heard().last() == m,
        ensures
            final(self).wf(),
            final(self).sent() == old(self).sent(),
            final(self).heard() == old(self).heard(),
            final(self).delivered() == old(self).delivered(),
            final(self).network_gone() == old(self).network_gone(),
            final(self).drains() == old(self).drains(),
    {
        let ghost h = self.heard().drop_last();
        proof {
            lemma_run_push(initial_view(), h, m);
            assert(h.push(m) =~= self.heard());
            law_run_keeps_wf(initial_view(), self.heard());
        }
        let r = take_event(&mut self.connected_players, m);
        self.pending.push(r);
        assert(self.delivered() + self.pending() =~= replies(initial_view(), self.heard()));
    }

    /// Takes every event that is waiting on the up channel now.
    fn catch_up(&mut self)
        requires
            old(self).wf(),
        ensures
            final(self).wf(),
            final(self).sent() == old(self).sent(),
            final(self).delivered() == old(self).delivered(),
            extends(final(self).heard(), old(self).heard()),
            final(self).network_gone() == old(self).network_gone(),
            final(self).drains() == old(self).drains().push(final(self).heard().len()),
    {
        let ghost h0 = self.heard();
        let mut rest = self.up.take_waiting();
        let ghost all = rest@;
        let ghost marks = self.drains();
        let mut j: usize = 0;
        let total = rest.len();
        assert(all.len() == total);
        while rest.len() > 0
            invariant
                all.len() <= usize::MAX,
                self.heard() == h0 + all,
                rest@ == all.skip(j as int),
                j <= all.len(),
                self.connected_players.wf(),
                self.players() == run(initial_view(), h0 + all.take(j as int)),
                self.delivered() + self.pending() == replies(initial_view(), h0 + all.take(j as int)),
                self.sent() == old(self).sent(),
                self.delivered() == old(self).delivered(),
                self.network_gone() == old(self).network_gone(),
                self.drains() == marks,
                marks == old(self).drains().push(self.heard().len()),
            decreases rest.len(),
        {
            let ghost prefix = h0 + all.take(j as int);
            let m = rest.remove(0);
            assert(m == all[j as int]);
            proof {
                lemma_run_push(initial_view(), prefix, m);
                assert(prefix.push(m) =~= h0 + all.take(j + 1));
                assert(rest@ =~= all.skip(j + 1));
            }
            let r = take_event(&mut self.connected_players, m);
            self.pending.push(r);
            j = j + 1;
            assert(self.delivered() + self.pending() =~= replies(
                initial_view(),
                h0 + all.take(j as int),
            ));
        }
        proof {
            assert(all.take(j as int) =~= all);
            lemma_extends_itself(h0);
            assert(self.heard().take(h0.len() as int) =~= h0);
        }
    }

    /// Hands the user what it is to be told next: the oldest reply that waits,
    /// or else the reply to the next event of the network side (waiting for
    /// it). `Ok(Some(..))` is an event for the user; `Ok(None)` answers a
    /// message from an address that is not connected, which is dropped;
    /// `ProtocolViolation` answers an event that the registry does not admit.
    /// `Disconnected` comes only when nothing waits and the network side is
    /// gone. Whatever the network delivers, the replies handed out are the
    /// replies to the events taken, one each, in the order of the events.
    pub fn recv_step(&mut self) -> (r: Result<Option<OutMsg<T>>, LinkError>)
        requires
            old(self).wf(),
        ensures
            final(self).wf(),
            final(self).drains() == old(self).drains(),
            old(self).network_gone() ==> final(self).network_gone(),
            r == Err::<Option<OutMsg<T>>, LinkError>(LinkError::Disconnected) ==> final(self).network_gone(),
            final(self).sent() == old(self).sent(),
            extends(final(self).heard(), old(self).heard()),
            r != Err::<Option<OutMsg<T>>, LinkError>(LinkError::Disconnected) ==> final(self).delivered() == old(self).delivered().push(r),
            r == Err::<Option<OutMsg<T>>, LinkError>(LinkError::Disconnected) ==> {
                &&& old(self).pending().len() == 0
                &&& final(self).heard() == old(self).heard()
                &&& final(self).delivered() == old(self).delivered()
                &&& final(self).players() == old(self).players()
            },
    {
        proof {
            lemma_extends_itself(self.heard());
        }
        if self.pending.len() == 0 {
            let ghost before = self.heard();
            match self.up.recv() {
                None => {
                    return Err(LinkError::Disconnected);
                },
                Some(m) => {
                    proof {
                        assert(self.heard().drop_last() =~= before);
                        assert(self.delivered() + self.pending() =~= self.delivered());
                    }
                    self.absorb(m);
                    assert(self.heard().take(before.len() as int) =~= before);
                },
            }
        }
        let ghost d = self.delivered();
        let ghost p = self.pending();
        let r = self.pending.remove(0);
        self.delivered = Ghost(self.delivered@.push(r));
        assert(self.delivered() + self.pending() =~= d + p);
        proof {
            if r == Err::<Option<OutMsg<T>>, LinkError>(LinkError::Disconnected) {
                assert((d + p)[d.len() as int] == r);
                assert(replies(initial_view(), self.heard())[d.len() as int] == r);
                assert(replies(initial_view(), self.heard()).contains(r));
                lemma_replies_never_disconnected(initial_view(), self.heard());
            }
        }
        r
    }

    /// Like `recv_step`, without waiting: the oldest reply that waits, or
    /// else the reply to an event that waits on the up channel now; `None`
    /// when neither waits (or the network side is gone), with nothing
    /// changed. A reply that already waits is always handed out.
    pub fn try_recv_step(&mut self) -> (r: Option<Result<Option<OutMsg<T>>, LinkError>>)
        requires
            old(self).wf(),
        ensures
            final(self).wf(),
            final(self).drains() == old(self).drains(),
            final(self).network_gone() == old(self).network_gone(),
            final(self).sent() == old(self).sent(),
            extends(final(self).heard(), old(self).heard()),
            old(self).pending().len() > 0 ==> r is Some,
            r matches Some(x) ==> {
                &&& x != Err::<Option<OutMsg<T>>, LinkError>(LinkError::Disconnected)
                &&& final(self).delivered() == old(self).delivered().push(x)
            },
            r is None ==> {
                &&& old(self).pending().len() == 0
                &&& final(self).heard() == old(self).heard()
                &&& final(self).delivered() == old(self).delivered()
                &&& final(self).players() == old(self).players()
            },
    {
        proof {
            lemma_extends_itself(self.heard());
        }
        if self.pending.len() == 0 {
            let ghost before = self.heard();
            match self.up.try_recv() {
                None => {
                    return None;
                },
                Some(m) => {
                    proof {
                        assert(self.heard().drop_last() =~= before);
                        assert(self.delivered() + self.pending() =~= self.delivered());
                    }
                    self.absorb(m);
                    assert(self.heard().take(before.len() as int) =~= before);
                },
            }
        }
        let ghost d = self.delivered();
        let ghost p = self.pending();
        let r = self.pending.remove(0);
        self.delivered = Ghost(self.delivered@.push(r));
        assert(self.delivered() + self.pending() =~= d + p);
        proof {
            if r == Err::<Option<OutMsg<T>>, LinkError>(LinkError::Disconnected) {
                assert((d + p)[d.len() as int] == r);
                assert(replies(initial_view(), self.heard())[d.len() as int] == r);
                assert(replies(initial_view(), self.heard()).contains(r));
                lemma_replies_never_disconnected(initial_view(), self.heard());
            }
        }
        Some(r)
    }

    /// Hands a request to the network side.
    fn send_now(&mut self, request: DownMsg<T>) -> (r: Result<(), LinkError>)
        requires
            old(self).wf(),
        ensures
            final(self).wf(),
            final(self).drains() == old(self).drains(),
            final(self).network_gone() == old(self).network_gone(),
            final(self).players() == old(self).players(),
            final(self).heard() == old(self).heard(),
            final(self).delivered() == old(self).delivered(),
            r is Ok ==> final(self).sent() == old(self).sent().push(request),
            r matches Err(e) ==> e is Disconnected && final(self).sent() == old(self).sent(),
    {
        match self.down.send(request) {
            Ok(()) => Ok(()),
            Err(_) => Err(LinkError::Disconnected),
        }
    }

    /// Takes the events that wait on the network side, then asks the network
    /// side to close a connected player's connection: a drop request for the
    /// player's address; does nothing for a player that is not connected.
    /// Fails only where it sent and the network side is gone.
    pub fn kick(&mut self, player: PlayerID) -> (r: Result<(), LinkError>)
        requires
            old(self).wf(),
        ensures
            final(self).wf(),
            final(self).drains() == old(self).drains().push(final(self).heard().len()),
            final(self).network_gone() == old(self).network_gone(),
            extends(final(self).heard(), old(self).heard()),
            final(self).delivered() == old(self).delivered(),
            !final(self).players().connected.dom().contains(player) ==> r is Ok && final(self).sent() == old(self).sent(),
            final(self).players().connected.dom().contains(player) && r is Ok ==> final(self).sent() == old(self).sent().push(
                DownMsg::DropPlayer(final(self).players().connected[player]),
            ),
            r matches Err(e) ==> {
                &&& e is Disconnected
                &&& final(self).players().connected.dom().contains(player)
                &&& final(self).sent() == old(self).sent()
            },
    {
        self.catch_up();
        match self.connected_players.address_of(player) {
            Some(address) => self.send_now(DownMsg::DropPlayer(address)),
            None => Ok(()),
        }
    }

    /// Sends a copy of `message` to a player's address, or nothing.
    fn send_to(&mut self, player: PlayerID, message: T, reliable: bool) -> (r: Result<
        (),
        LinkError,
    >)
        requires
            old(self).wf(),
        ensures
            final(self).wf(),
            final(self).drains() == old(self).drains(),
            final(self).network_gone() == old(self).network_gone(),
            final(self).players() == old(self).players(),
            final(self).heard() == old(self).heard(),
            final(self).delivered() == old(self).delivered(),
            !old(self).players().connected.dom().contains(player) ==> r is Ok && final(self).sent()
                == old(self).sent(),
            old(self).players().connected.dom().contains(player) && r is Ok ==> final(self).sent()
                == old(self).sent().push(
                DownMsg::SendFax(old(self).players().connected[player], message, reliable),
            ),
            r matches Err(e) ==> {
                &&& e is Disconnected
                &&& old(self).players().connected.dom().contains(player)
                &&& final(self).sent() == old(self).sent()
            },
    {
        match self.connected_players.address_of(player) {
            Some(address) => self.send_now(DownMsg::SendFax(address, message, reliable)),
            None => Ok(()),
        }
    }

    /// Takes the events that wait on the network side, then asks the network
    /// side to send a message to a connected player's address, over the
    /// reliable stream or as a datagram; does nothing for a player that is not
    /// connected. Fails only where it sent and the network side is gone.
    pub fn send_msg(&mut self, player: PlayerID, message: T, reliable: bool) -> (r: Result<
        (),
        LinkError,
    >)
        requires
            old(self).wf(),
        ensures
            final(self).wf(),
            final(self).drains() == old(self).drains().push(final(self).heard().len()),
            final(self).network_gone() == old(self).network_gone(),
            extends(final(self).heard(), old(self).heard()),
            final(self).delivered() == old(self).delivered(),
            !final(self).players().connected.dom().contains(player) ==> r is Ok && final(self).sent() == old(self).sent(),
            final(self).players().connected.dom().contains(player) && r is Ok ==> final(self).sent() == old(self).sent().push(
                DownMsg::SendFax(final(self).players().connected[player], message, reliable),
            ),
            r matches Err(e) ==> {
                &&& e is Disconnected
                &&& final(self).players().connected.dom().contains(player)
                &&& final(self).sent() == old(self).sent()
            },
    {
        self.catch_up();
        self.send_to(player, message, reliable)
    }

    /// Takes the events that wait on the network side, then sends a copy of a
    /// message to every connected player, each once, in no particular order,
    /// stopping at the first failure.
    pub fn send_msg_all(&mut self, message: T, reliable: bool) -> (r: Result<(), LinkError>) where
        T: Clone,
        requires
            old(self).wf(),
        ensures
            final(self).wf(),
            final(self).drains() == old(self).drains().push(final(self).heard().len()),
            final(self).network_gone() == old(self).network_gone(),
            extends(final(self).heard(), old(self).heard()),
            final(self).delivered() == old(self).delivered(),
            r matches Err(e) ==> e is Disconnected && !final(self).players().connected.dom().is_empty(),
            extends(final(self).sent(), old(self).sent()),
            exists|ids: Seq<u32>|
                #[trigger] fans_out(
                    final(self).players(),
                    ids,
                    message,
                    reliable,
                    final(self).sent().skip(old(self).sent().len() as int),
                ) && (r is Ok ==> forall|k: u32|
                    final(self).players().connected.dom().contains(k) ==> ids.contains(k)),
    {
        self.catch_up();
        let players = self.connected_players.connected_ids();
        let ghost start = self.players();
        let ghost log = self.sent();
        let ghost heard = self.heard();
        let ghost drains_now = self.drains();
        let mut i: usize = 0;
        proof {
            lemma_extends_itself(self.sent());
            assert(self.sent().skip(log.len() as int) =~= Seq::<DownMsg<T>>::empty());
        }
        while i < players.len()
            invariant
                self.wf(),
                self.players() == start,
                log == old(self).sent(),
                self.heard() == heard,
                extends(heard, old(self).heard()),
                self.drains() == drains_now,
                drains_now == old(self).drains().push(heard.len()),
                self.network_gone() == old(self).network_gone(),
                self.delivered() == old(self).delivered(),
                i <= players.len(),
                players@.no_duplicates(),
                forall|k: u32| players@.contains(k) <==> start.connected.dom().contains(k),
                extends(self.sent(), log),
                fans_out(
                    start,
                    players@.take(i as int),
                    message,
                    reliable,
                    self.sent().skip(log.len() as int),
                ),
            decreases players.len() - i,
        {
            let player = players[i];
            assert(players@.contains(player));
            assert(start.connected.dom().contains(player));
            let copy = message.clone();
            let ghost before = self.sent();
            match self.send_to(player, copy, reliable) {
                Ok(()) => {
                    proof {
                        let ids = players@.take(i + 1);
                        assert(ids =~= players@.take(i as int).push(player));
                        assert(self.sent().skip(log.len() as int) =~= before.skip(
                            log.len() as int,
                        ).push(DownMsg::SendFax(start.connected[player], copy, reliable)));
                        assert(self.sent().take(log.len() as int) =~= log);
                        assert(ids.no_duplicates()) by {
                            assert forall|a: int, b: int|
                                0 <= a < ids.len() && 0 <= b < ids.len() && a != b implies ids[a]
                                != ids[b] by {
                                assert(ids[a] == players@[a] && ids[b] == players@[b]);
                            }
                        }
                        assert(forall|j: int| 0 <= j < ids.len() ==> ids[j] == players@[j]);
                    }
                },
                Err(e) => {
                    return Err(e);
                },
            }
            i = i + 1;
        }
        proof {
            assert(players@.take(i as int) =~= players@);
        }
        Ok(())
    }
}

/// What a hub has told its user is, in order, the replies to the first
/// events taken from the network side, each exactly once; the replies still
/// owed are those to the events after them.
pub proof fn law_replies_in_order<T>(hub: NetHubTop<T>)
    requires
        hub.wf(),
    ensures
        hub.delivered().len() <= replies(initial_view(), hub.heard()).len(),
        hub.delivered() == replies(initial_view(), hub.heard()).take(hub.delivered().len() as int),
        hub.pending() == replies(initial_view(), hub.heard()).skip(hub.delivered().len() as int),
{
    let all = replies(initial_view(), hub.heard());
    assert(all.take(hub.delivered().len() as int) =~= hub.delivered());
    assert(all.skip(hub.delivered().len() as int) =~= hub.pending());
}

/// No reply to an event is `Disconnected`: that answer comes only from a
/// closed channel.
proof fn lemma_replies_never_disconnected<T>(v: RegistryView, events: Seq<UpMsg<T>>)
    ensures
        !replies(v, events).contains(Err(LinkError::Disconnected)),
    decreases events.len(),
{
    if events.len() > 0 {
        lemma_replies_never_disconnected(v, events.drop_last());
        let rs = replies(v, events.drop_last());
        let x = reply(run(v, events.drop_last()), events.last());
        assert(replies(v, events) == rs.push(x));
        if replies(v, events).contains(Err(LinkError::Disconnected)) {
            let j = choose|j: int|
                0 <= j < replies(v, events).len() && replies(v, events)[j] == Err::<
                    Option<OutMsg<T>>,
                    LinkError,
                >(LinkError::Disconnected);
            if j < rs.len() {
                assert(rs[j] == replies(v, events)[j]);
            }
        }
    }
}

} // verus!
