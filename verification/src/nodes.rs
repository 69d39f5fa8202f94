//! The network side of a hub: one connection thread per connected address,
//! each reachable through a handle ("kill switch") that the hub keeps.
use vstd::prelude::*;

use std::collections::BTreeMap;

use crate::addr::PeerAddr;
use crate::messages::{DownMsg, ToNodeMsg, UpMsg};
use crate::registry::{
    has_value, initial_view, key_of, law_ids_are_permanent, law_run_keeps_wf, lemma_run_push,
    lemma_unique_keys, next_view, replies, run, RegistryView,
};

verus! {

broadcast use vstd::laws_cmp::group_laws_cmp;

/// Where the network side sends a request from the user side.
pub enum DownRoute<'a, H, T> {
    /// To the connection thread behind the handle.
    Node(&'a H, ToNodeMsg<T>),
    /// As a UDP datagram to the address.
    Datagram(PeerAddr, T),
    /// Nowhere: there is no connection to the address.
    Nothing,
}

/// The request that a user-side message makes of a connection thread, and
/// the address of that connection: `None` for an unreliable message, which
/// goes out as a datagram instead.
pub open spec fn node_request<T>(msg: DownMsg<T>) -> Option<(PeerAddr, ToNodeMsg<T>)> {
    match msg {
        DownMsg::SendFax(a, data, reliable) => if reliable {
            Some((a, ToNodeMsg::NewFax(data)))
        } else {
            None
        },
        DownMsg::DropPlayer(a) => Some((a, ToNodeMsg::Die)),
    }
}

/// What a request asks of a connection thread: a reliable message is
/// written by the thread of its address, an unreliable one never reaches a
/// thread (it goes out as a datagram), and a drop request shuts the thread
/// of its address down. No request asks a thread for anything else.
pub proof fn law_node_request<T>(msg: DownMsg<T>)
    ensures
        msg matches DownMsg::SendFax(a, data, reliable) ==> (node_request(msg) is None <==> !reliable),
        msg matches DownMsg::SendFax(a, data, true) ==> node_request(msg) == Some(
            (a, ToNodeMsg::NewFax(data)),
        ),
        msg matches DownMsg::DropPlayer(a) ==> node_request(msg) == Some((a, ToNodeMsg::<T>::Die)),
        node_request(msg) matches Some((a, ToNodeMsg::Die)) ==> msg == DownMsg::<T>::DropPlayer(a),
{
}

/// The handles of the live connection threads, by address. A connection
/// thread is live only while its handle is here.
pub struct NodeTable<H> {
    kill_switches: BTreeMap<PeerAddr, H>,
}

impl<H> View for NodeTable<H> {
    type V = Map<PeerAddr, H>;

    closed spec fn view(&self) -> Map<PeerAddr, H> {
        self.kill_switches@
    }
}

impl<H> NodeTable<H> {
    /// A table with no connections.
    pub fn new() -> (t: NodeTable<H>)
        ensures
            t@.dom().is_empty(),
    {
        NodeTable { kill_switches: BTreeMap::new() }
    }

    /// Whether a connection from `addr` is live.
    pub fn is_live(&self, addr: &PeerAddr) -> (b: bool)
        ensures
            b == self@.dom().contains(*addr),
    {
        self.kill_switches.contains_key(addr)
    }

    /// A new TCP connection came in from `addr`. If a connection from that
    /// address is already live, the new one is ignored (`None`): nothing is
    /// announced and the table stays as it is; otherwise the user side is
    /// told that a player connected.
    pub fn on_new_stream<T>(&self, addr: PeerAddr) -> (r: Option<UpMsg<T>>)
        ensures
            r == (if self@.dom().contains(addr) {
                None
            } else {
                Some(UpMsg::<T>::PlayerConnected(addr))
            }),
            r == node_step::<T>(self@.dom(), NodeEvent::Stream(addr)).1,
    {
        if self.kill_switches.contains_key(&addr) {
            None
        } else {
            Some(UpMsg::PlayerConnected(addr))
        }
    }

    /// Keeps the handle of the connection thread just started for `addr`.
    pub fn register_node(&mut self, addr: PeerAddr, handle: H)
        requires
            !old(self)@.dom().contains(addr),
        ensures
            final(self)@ == old(self)@.insert(addr, handle),
            final(self)@.dom() == node_step::<()>(old(self)@.dom(), NodeEvent::Stream(addr)).0,
    {
        self.kill_switches.insert(addr, handle);
    }

    /// Routes a request from the user side: a reliable message goes to the
    /// connection thread of its address, an unreliable one goes out as a
    /// datagram, and a drop request asks the connection thread to shut down.
    /// Requests for an address without a live connection go nowhere (an
    /// unreliable message is sent all the same).
    pub fn route_down<T>(&self, msg: DownMsg<T>) -> (r: DownRoute<'_, H, T>)
        ensures
            match node_request(msg) {
                Some((a, m)) => if self@.dom().contains(a) {
                    r matches DownRoute::Node(h, n) && *h == self@[a] && n == m
                } else {
                    r is Nothing
                },
                None => msg matches DownMsg::SendFax(a, data, _) && r == DownRoute::<H, T>::Datagram(
                    a,
                    data,
                ),
            },
            msg matches DownMsg::SendFax(a, data, false) ==> r
                == DownRoute::<H, T>::Datagram(a, data),
            msg matches DownMsg::SendFax(a, data, true) ==> if self@.dom().contains(
                a,
            ) {
                r matches DownRoute::Node(h, n) && *h == self@[a] && n == ToNodeMsg::NewFax(data)
            } else {
                r is Nothing
            },
            msg matches DownMsg::DropPlayer(a) ==> if self@.dom().contains(a) {
                r matches DownRoute::Node(h, n) && *h == self@[a] && n is Die
            } else {
                r is Nothing
            },
    {
        match msg {
            DownMsg::SendFax(address, data, reliable) => {
                if reliable {
                    match self.kill_switches.get(&address) {
                        Some(sender) => DownRoute::Node(sender, ToNodeMsg::NewFax(data)),
                        None => DownRoute::Nothing,
                    }
                } else {
                    DownRoute::Datagram(address, data)
                }
            },
            DownMsg::DropPlayer(address) => {
                match self.kill_switches.get(&address) {
                    Some(sender) => DownRoute::Node(sender, ToNodeMsg::Die),
                    None => DownRoute::Nothing,
                }
            },
        }
    }

    /// The connection thread of `addr` has ended: its handle goes, and the
    /// user side is told that the player disconnected.
    pub fn on_node_died<T>(&mut self, addr: PeerAddr) -> (r: UpMsg<T>)
        requires
            old(self)@.dom().contains(addr),
        ensures
            final(self)@ == old(self)@.remove(addr),
            r == UpMsg::<T>::PlayerDisconnected(addr),
            Some(r) == node_step::<T>(old(self)@.dom(), NodeEvent::Died(addr)).1,
            final(self)@.dom() == node_step::<T>(old(self)@.dom(), NodeEvent::Died(addr)).0,
    {
        self.kill_switches.remove(&addr);
        UpMsg::PlayerDisconnected(addr)
    }
}

} // verus!


verus! {

/// What happens to the network side of a hub: a TCP connection comes in
/// from an address, or the connection thread of an address ends.
pub enum NodeEvent {
    Stream(PeerAddr),
    Died(PeerAddr),
}

/// The live addresses after an event, and what the user side is told: a
/// connection from a live address is ignored, a new one is registered and
/// announced; the end of a live connection is
/// announced and its address forgotten (the end of one that is not live does
/// not happen: the hub fails there).
pub open spec fn node_step<T>(live: Set<PeerAddr>, e: NodeEvent) -> (Set<PeerAddr>, Option<
    UpMsg<T>,
>) {
    match e {
        NodeEvent::Stream(a) => if live.contains(a) {
            (live, None)
        } else {
            (live.insert(a), Some(UpMsg::PlayerConnected(a)))
        },
        NodeEvent::Died(a) => if live.contains(a) {
            (live.remove(a), Some(UpMsg::PlayerDisconnected(a)))
        } else {
            (live, None)
        },
    }
}

/// The two halves of a hub agree: while the registry's connected addresses
/// are the network side's live connections, every connect and disconnect
/// that the network side announces is one the registry admits (a new
/// address also needs a fresh id), and after both have taken it they agree
/// again. (`law_network_run` carries this over whole runs.)
pub proof fn law_network_events_are_admitted<T>(
    v: RegistryView,
    live: Set<PeerAddr>,
    e: NodeEvent,
)
    requires
        v.wf(),
        forall|a: PeerAddr| live.contains(a) <==> has_value(v.connected, a),
        e matches NodeEvent::Stream(a) ==> has_value(v.ever, a) || v.next_id < u32::MAX,
    ensures
        ({
            let (live2, out) = node_step::<T>(live, e);
            &&& out matches Some(m) ==> {
                &&& v.admits(m)
                &&& forall|a: PeerAddr| live2.contains(a) <==> has_value(v.step(m).0.connected, a)
            }
            &&& out is None ==> live2 == live
            &&& out matches Some(m) ==> (m is PlayerConnected || m is PlayerDisconnected)
        }),
{
    lemma_unique_keys(v);
    let (live2, out) = node_step::<T>(live, e);
    match e {
        NodeEvent::Stream(a) => {
            if !live.contains(a) {
                let m = UpMsg::<T>::PlayerConnected(a);
                let w = v.step(m).0;
                let id = v.id_for(a);
                assert(!v.connected.dom().contains(id)) by {
                    if v.connected.dom().contains(id) {
                        assert(v.connected[id] == v.ever[id]);
                        if has_value(v.ever, a) {
                            assert(v.ever[id] == a);
                        }
                    }
                }
                assert forall|x: PeerAddr| live2.contains(x) <==> has_value(w.connected, x) by {
                    if has_value(w.connected, x) && x != a {
                        let k = choose|k: u32| w.connected.dom().contains(k) && w.connected[k] == x;
                        assert(k != id);
                        assert(v.connected.dom().contains(k) && v.connected[k] == x);
                    }
                    if live.contains(x) {
                        let k = choose|k: u32| v.connected.dom().contains(k) && v.connected[k] == x;
                        assert(w.connected.dom().contains(k) && w.connected[k] == x);
                    }
                    assert(w.connected.dom().contains(id) && w.connected[id] == a);
                }
            }
        },
        NodeEvent::Died(a) => {
            if live.contains(a) {
                let m = UpMsg::<T>::PlayerDisconnected(a);
                let w = v.step(m).0;
                let id = key_of(v.connected, a);
                assert(v.connected.dom().contains(id) && v.connected[id] == a);
                assert forall|x: PeerAddr| live2.contains(x) <==> has_value(w.connected, x) by {
                    if has_value(w.connected, x) {
                        let k = choose|k: u32| w.connected.dom().contains(k) && w.connected[k] == x;
                        assert(v.connected.dom().contains(k) && v.connected[k] == x);
                        assert(k != id);
                        assert(x != a);
                    }
                    if live2.contains(x) {
                        let k = choose|k: u32| v.connected.dom().contains(k) && v.connected[k] == x;
                        assert(k != id);
                        assert(w.connected.dom().contains(k) && w.connected[k] == x);
                    }
                }
            }
        },
    }
}

/// The live addresses after a sequence of network events, and the events
/// announced on the up channel, in order.
pub open spec fn node_run<T>(live: Set<PeerAddr>, events: Seq<NodeEvent>) -> (
    Set<PeerAddr>,
    Seq<UpMsg<T>>,
)
    decreases events.len(),
{
    if events.len() == 0 {
        (live, Seq::empty())
    } else {
        let (l, ups) = node_run::<T>(live, events.drop_last());
        let (l2, out) = node_step::<T>(l, events.last());
        (
            l2,
            match out {
                Some(m) => ups.push(m),
                None => ups,
            },
        )
    }
}

/// The registry's connected addresses are exactly the live connections.
pub open spec fn agree(v: RegistryView, live: Set<PeerAddr>) -> bool {
    forall|a: PeerAddr| live.contains(a) <==> has_value(v.connected, a)
}

proof fn lemma_next_view_grows<T>(v: RegistryView, m: UpMsg<T>)
    requires
        v.wf(),
    ensures
        v.next_id <= next_view(v, m).next_id,
{
    if v.admits(m) {
        law_ids_are_permanent(v, m);
    }
}

/// Over any run of the network side, the two halves of a hub stay in step:
/// every event announced on the up channel is admitted by the registry (so
/// no reply is an error, and for each address connects and disconnects
/// alternate, starting with a connect), and after the run the registry's
/// connected addresses are exactly the live connections. This needs a fresh
/// id for every new address, so the run must end with ids to spare.
pub proof fn law_network_run<T>(v: RegistryView, live: Set<PeerAddr>, events: Seq<NodeEvent>)
    requires
        v.wf(),
        agree(v, live),
        run(v, node_run::<T>(live, events).1).next_id < u32::MAX,
    ensures
        ({
            let (l, ups) = node_run::<T>(live, events);
            &&& agree(run(v, ups), l)
            &&& replies(v, ups).len() == ups.len()
            &&& forall|i: int| 0 <= i < ups.len() ==> (#[trigger] replies(v, ups)[i]) is Ok
            &&& forall|i: int|
                0 <= i < ups.len() ==> (#[trigger] ups[i] is PlayerConnected || ups[i] is PlayerDisconnected)
        }),
    decreases events.len(),
{
    let (l2, ups2) = node_run::<T>(live, events);
    if events.len() == 0 {
        assert(ups2 =~= Seq::<UpMsg<T>>::empty());
    } else {
        let (l, ups) = node_run::<T>(live, events.drop_last());
        let (lx, out) = node_step::<T>(l, events.last());
        law_run_keeps_wf(v, ups);
        let w = run(v, ups);
        match out {
            Some(m) => {
                lemma_run_push(v, ups, m);
                lemma_next_view_grows(w, m);
                assert(ups2 == ups.push(m));
            },
            None => {
                assert(ups2 == ups);
            },
        }
        assert(w.next_id < u32::MAX);
        law_network_run::<T>(v, live, events.drop_last());
        law_network_events_are_admitted::<T>(w, l, events.last());
        match out {
            Some(m) => {
                assert(next_view(w, m) == w.step(m).0);
                assert forall|i: int| 0 <= i < ups2.len() implies (#[trigger] replies(v, ups2)[i]) is Ok by {
                    if i < ups.len() {
                        assert(replies(v, ups2)[i] == replies(v, ups)[i]);
                    }
                }
                assert forall|i: int|
                    0 <= i < ups2.len() implies (#[trigger] ups2[i] is PlayerConnected || ups2[i] is PlayerDisconnected) by {
                    if i < ups.len() {
                        assert(ups2[i] == ups[i]);
                    }
                }
            },
            None => {},
        }
    }
}

/// From a hub with no players and no connections, over any run of the
/// network side that leaves ids to spare, the registry's connected players
/// are, at the end, exactly the live connections, each paired with its own
/// address, and every event announced was admitted.
pub proof fn law_network_run_from_start<T>(events: Seq<NodeEvent>)
    requires
        run(initial_view(), node_run::<T>(Set::empty(), events).1).next_id < u32::MAX,
    ensures
        ({
            let (l, ups) = node_run::<T>(Set::empty(), events);
            &&& run(initial_view(), ups).wf()
            &&& agree(run(initial_view(), ups), l)
            &&& forall|i: int| 0 <= i < ups.len() ==> (#[trigger] replies(initial_view(), ups)[i]) is Ok
        }),
{
    let (l, ups) = node_run::<T>(Set::empty(), events);
    assert(agree(initial_view(), Set::empty()));
    law_network_run::<T>(initial_view(), Set::empty(), events);
    law_run_keeps_wf(initial_view(), ups);
}

} // verus!
