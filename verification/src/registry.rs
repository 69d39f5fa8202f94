//! The hub's registry of players: which id belongs to which address, and
//! which players are connected now.
use vstd::prelude::*;

use bimap::{BiHashMap, Overwritten};

use crate::addr::PeerAddr;
use crate::messages::{LinkError, OutMsg, PlayerID, UpMsg};

verus! {

#[verifier::external_type_specification]
#[verifier::external_body]
#[verifier::reject_recursive_types(L)]
#[verifier::reject_recursive_types(R)]
#[verifier::reject_recursive_types(LS)]
#[verifier::reject_recursive_types(RS)]
pub struct ExBiHashMap<L, R, LS, RS>(BiHashMap<L, R, LS, RS>);

/// The bimap of player ids and addresses.
pub type PeerBiMap = BiHashMap<u32, PeerAddr>;

/// The pairs that a bimap of ids and addresses holds, as a map from the left
/// (id) side to the right (address) side.
pub uninterp spec fn bimap_pairs(m: PeerBiMap) -> Map<u32, PeerAddr>;

/// Whether some key of `m` maps to `a`.
pub open spec fn has_value(m: Map<u32, PeerAddr>, a: PeerAddr) -> bool {
    exists|k: u32| m.dom().contains(k) && m[k] == a
}

/// A key of `m` that maps to `a` (the only one where `m` is injective).
pub open spec fn key_of(m: Map<u32, PeerAddr>, a: PeerAddr) -> u32 {
    choose|k: u32| m.dom().contains(k) && m[k] == a
}

/// No two keys of `m` map to the same address.
pub open spec fn injective(m: Map<u32, PeerAddr>) -> bool {
    forall|j: u32, k: u32|
        m.dom().contains(j) && m.dom().contains(k) && #[trigger] m[j] == #[trigger] m[k] ==> j == k
}

/// The pairs of a bimap after inserting `(l, r)`: any pair with left value
/// `l` or right value `r` is gone, and `(l, r)` is there.
pub open spec fn bimap_insert_spec(m: Map<u32, PeerAddr>, l: u32, r: PeerAddr) -> Map<
    u32,
    PeerAddr,
> {
    Map::new(
        |k: u32| k == l || (m.dom().contains(k) && m[k] != r),
        |k: u32|
            if k == l {
                r
            } else {
                m[k]
            },
    )
}

/// What `BiHashMap::insert` reports it overwrote.
pub enum Displaced {
    Neither,
    Left(u32, PeerAddr),
    Right(u32, PeerAddr),
    Pair(u32, PeerAddr),
    Both((u32, PeerAddr), (u32, PeerAddr)),
}

impl Displaced {
    /// Whether any pair was overwritten, as a predicate.
    pub open spec fn did_overwrite_spec(&self) -> bool {
        !(self is Neither)
    }

    /// Whether any pair was overwritten.
    pub fn did_overwrite(&self) -> (b: bool)
        ensures
            b == self.did_overwrite_spec(),
    {
        match self {
            Displaced::Neither => false,
            _ => true,
        }
    }
}

/// `BiHashMap::new`: an empty bimap.
#[verifier::external_body]
fn bimap_new() -> (m: PeerBiMap)
    ensures
        bimap_pairs(m).dom().is_empty(),
{
    BiHashMap::new()
}

/// `BiHashMap::insert`: removes the pair with left value `left` and the pair
/// with right value `right`, if any, then adds `(left, right)`; it reports
/// `Neither` exactly when neither value was present. Which pairs the other
/// variants carry is not stated here.
#[verifier::external_body]
fn bimap_insert(m: &mut PeerBiMap, left: u32, right: PeerAddr) -> (d: Displaced)
    ensures
        bimap_pairs(*final(m)) == bimap_insert_spec(bimap_pairs(*old(m)), left, right),
        (d is Neither) <==> (!bimap_pairs(*old(m)).dom().contains(left) && !has_value(
            bimap_pairs(*old(m)),
            right,
        )),
{
    match m.insert(left, right) {
        Overwritten::Neither => Displaced::Neither,
        Overwritten::Left(l, r) => Displaced::Left(l, r),
        Overwritten::Right(l, r) => Displaced::Right(l, r),
        Overwritten::Pair(l, r) => Displaced::Pair(l, r),
        Overwritten::Both(a, b) => Displaced::Both(a, b),
    }
}

/// `BiHashMap::get_by_left`: the address paired with `left`, if any.
#[verifier::external_body]
fn bimap_get_by_left(m: &PeerBiMap, left: &u32) -> (r: Option<PeerAddr>)
    ensures
        r == (if bimap_pairs(*m).dom().contains(*left) {
            Some(bimap_pairs(*m)[*left])
        } else {
            None
        }),
{
    m.get_by_left(left).copied()
}

/// `BiHashMap::get_by_right`: the id paired with `right`, if any.
#[verifier::external_body]
fn bimap_get_by_right(m: &PeerBiMap, right: &PeerAddr) -> (r: Option<u32>)
    ensures
        r matches Some(k) ==> bimap_pairs(*m).dom().contains(k) && bimap_pairs(*m)[k] == *right,
        r is None <==> !has_value(bimap_pairs(*m), *right),
{
    m.get_by_right(right).copied()
}

/// `BiHashMap::contains_right`: whether some pair has right value `right`.
#[verifier::external_body]
fn bimap_contains_right(m: &PeerBiMap, right: &PeerAddr) -> (b: bool)
    ensures
        b == has_value(bimap_pairs(*m), *right),
{
    m.contains_right(right)
}

/// `BiHashMap::remove_by_right`: removes and returns the pair with right
/// value `right`, if any.
#[verifier::external_body]
fn bimap_remove_by_right(m: &mut PeerBiMap, right: &PeerAddr) -> (r: Option<
    (u32, PeerAddr),
>)
    ensures
        match r {
            Some((k, a)) => {
                &&& a == *right
                &&& bimap_pairs(*old(m)).dom().contains(k)
                &&& bimap_pairs(*old(m))[k] == *right
                &&& bimap_pairs(*final(m)) == bimap_pairs(*old(m)).remove(k)
            },
            None => {
                &&& !has_value(bimap_pairs(*old(m)), *right)
                &&& bimap_pairs(*final(m)) == bimap_pairs(*old(m))
            },
        },
{
    m.remove_by_right(right)
}

/// `BiHashMap::left_values`, collected: every left value once, in the
/// bimap's own (unspecified) order.
#[verifier::external_body]
fn bimap_left_values(m: &PeerBiMap) -> (v: Vec<u32>)
    ensures
        v@.no_duplicates(),
        forall|k: u32| v@.contains(k) <==> bimap_pairs(*m).dom().contains(k),
{
    m.left_values().copied().collect()
}

} // verus!

verus! {

/// The registry as plain values: the next fresh id, every id ever handed
/// out with its address, and the ids of the players connected now.
pub struct RegistryView {
    pub next_id: u32,
    pub ever: Map<u32, PeerAddr>,
    pub connected: Map<u32, PeerAddr>,
}

impl RegistryView {
    /// The registry's invariant: ids are handed out from 0 upwards, one per
    /// address, and every connected player is paired with its own address.
    pub open spec fn wf(self) -> bool {
        &&& injective(self.ever)
        &&& forall|k: u32| #[trigger] self.ever.dom().contains(k) <==> k < self.next_id
        &&& forall|k: u32| #[trigger]
            self.connected.dom().contains(k) ==> self.ever.dom().contains(k) && self.connected[k]
                == self.ever[k]
    }

    /// The id that a connection from `a` gets: the one it had before, or
    /// the next fresh one.
    pub open spec fn id_for(self, a: PeerAddr) -> u32 {
        if has_value(self.ever, a) {
            key_of(self.ever, a)
        } else {
            self.next_id
        }
    }

    /// The events that the registry can take: the network side never reports
    /// a second connect from a connected address, nor a disconnect from an
    /// address that is not connected, and a new address needs a fresh id.
    pub open spec fn admits<T>(self, msg: UpMsg<T>) -> bool {
        match msg {
            UpMsg::PlayerConnected(a) => !has_value(self.connected, a) && (has_value(self.ever, a)
                || self.next_id < u32::MAX),
            UpMsg::PlayerDisconnected(a) => has_value(self.connected, a),
            UpMsg::NewFax(_, _) => true,
        }
    }

    /// One event: the registry after it and what the user is told.
    pub open spec fn step<T>(self, msg: UpMsg<T>) -> (RegistryView, Option<OutMsg<T>>) {
        match msg {
            UpMsg::PlayerConnected(a) => {
                let id = self.id_for(a);
                let next_id = if has_value(self.ever, a) {
                    self.next_id
                } else {
                    (self.next_id + 1) as u32
                };
                (
                    RegistryView {
                        next_id,
                        ever: self.ever.insert(id, a),
                        connected: self.connected.insert(id, a),
                    },
                    Some(OutMsg::PlayerConnected(id)),
                )
            },
            UpMsg::PlayerDisconnected(a) => {
                let id = key_of(self.connected, a);
                (
                    RegistryView {
                        next_id: self.next_id,
                        ever: self.ever,
                        connected: self.connected.remove(id),
                    },
                    Some(OutMsg::PlayerDisconnected(id)),
                )
            },
            UpMsg::NewFax(a, data) => {
                if has_value(self.connected, a) {
                    (self, Some(OutMsg::NewFax(key_of(self.connected, a), data)))
                } else {
                    (self, None)
                }
            },
        }
    }
}

/// The hub's registry of players.
pub struct PlayerRegistry {
    next_player_id: u32,
    all_players_ever: PeerBiMap,
    connected_players: PeerBiMap,
}

impl View for PlayerRegistry {
    type V = RegistryView;

    closed spec fn view(&self) -> RegistryView {
        RegistryView {
            next_id: self.next_player_id,
            ever: bimap_pairs(self.all_players_ever),
            connected: bimap_pairs(self.connected_players),
        }
    }
}

/// In a registry that keeps its invariant, the connected map is injective
/// too, and the key that `key_of` picks is the only key of its address.
pub proof fn lemma_unique_keys(v: RegistryView)
    requires
        v.wf(),
    ensures
        injective(v.connected),
        forall|k: u32| v.ever.dom().contains(k) ==> key_of(v.ever, #[trigger] v.ever[k]) == k,
        forall|k: u32|
            v.connected.dom().contains(k) ==> key_of(v.connected, #[trigger] v.connected[k]) == k,
{
    assert forall|k: u32| v.ever.dom().contains(k) implies key_of(
        v.ever,
        #[trigger] v.ever[k],
    ) == k by {
        let j = key_of(v.ever, v.ever[k]);
        assert(v.ever.dom().contains(j) && v.ever[j] == v.ever[k]);
    }
    assert forall|k: u32| v.connected.dom().contains(k) implies key_of(
        v.connected,
        #[trigger] v.connected[k],
    ) == k by {
        let a = v.connected[k];
        let j = key_of(v.connected, a);
        assert(v.connected.dom().contains(j) && v.connected[j] == a);
        assert(v.ever[j] == a && v.ever[k] == a);
    }
    assert forall|j: u32, k: u32|
        v.connected.dom().contains(j) && v.connected.dom().contains(k) && #[trigger] v.connected[j]
            == #[trigger] v.connected[k] implies j == k by {
        assert(v.ever[j] == v.ever[k]);
    }
}

impl PlayerRegistry {
    /// The registry's invariant.
    pub open spec fn wf(&self) -> bool {
        self@.wf()
    }

    /// An empty registry: no players yet, the first id to hand out is 0.
    pub fn new() -> (r: PlayerRegistry)
        ensures
            r.wf(),
            r@.next_id == 0,
            r@.ever.dom().is_empty(),
            r@.connected.dom().is_empty(),
    {
        PlayerRegistry {
            next_player_id: 0,
            all_players_ever: bimap_new(),
            connected_players: bimap_new(),
        }
    }

    /// The address of a connected player, if the player is connected.
    pub fn address_of(&self, player: PlayerID) -> (r: Option<PeerAddr>)
        ensures
            r == (if self@.connected.dom().contains(player) {
                Some(self@.connected[player])
            } else {
                None
            }),
    {
        bimap_get_by_left(&self.connected_players, &player)
    }

    /// The ids of the connected players, each once, in no particular order.
    pub fn connected_ids(&self) -> (ids: Vec<PlayerID>)
        ensures
            ids@.no_duplicates(),
            forall|k: u32| ids@.contains(k) <==> self@.connected.dom().contains(k),
    {
        bimap_left_values(&self.connected_players)
    }

    /// The id that the next new address will get.
    pub fn next_player_id(&self) -> (n: PlayerID)
        ensures
            n == self@.next_id,
    {
        self.next_player_id
    }

    /// Whether the registry can take `msg` (see [`RegistryView::admits`]).
    pub fn admits<T>(&self, msg: &UpMsg<T>) -> (b: bool)
        ensures
            b == self@.admits(*msg),
    {
        match msg {
            UpMsg::PlayerConnected(a) => {
                !bimap_contains_right(&self.connected_players, a) && (bimap_contains_right(
                    &self.all_players_ever,
                    a,
                ) || self.next_player_id < u32::MAX)
            },
            UpMsg::PlayerDisconnected(a) => bimap_contains_right(&self.connected_players, a),
            UpMsg::NewFax(_, _) => true,
        }
    }

    /// Takes one event from the network side and says what the user is told:
    /// a connecting address gets its old id back or the next fresh one, a
    /// disconnect reports the player's id, and a message is attributed to
    /// the id of the connected address it came from (and dropped if that
    /// address is not connected).
    pub fn apply<T>(&mut self, msg: UpMsg<T>) -> (out: Option<OutMsg<T>>)
        requires
            old(self).wf(),
            old(self)@.admits(msg),
        ensures
            final(self).wf(),
            (final(self)@, out) == old(self)@.step(msg),
    {
        let ghost v = self@;
        proof {
            lemma_unique_keys(v);
        }
        match msg {
            UpMsg::PlayerConnected(address) => {
                if !bimap_contains_right(&self.all_players_ever, &address) {
                    let ghost e = bimap_pairs(self.all_players_ever);
                    bimap_insert(&mut self.all_players_ever, self.next_player_id, address);
                    assert(bimap_pairs(self.all_players_ever) =~= e.insert(v.next_id, address));
                    self.next_player_id = self.next_player_id + 1;
                }
                let ghost e2 = bimap_pairs(self.all_players_ever);
                assert(e2 =~= v.ever.insert(v.id_for(address), address));
                assert(e2.dom().contains(v.id_for(address)));
                assert(injective(e2)) by {
                    assert forall|j: u32, k: u32|
                        e2.dom().contains(j) && e2.dom().contains(k) && #[trigger] e2[j]
                            == #[trigger] e2[k] implies j == k by {
                        if j != v.id_for(address) && k != v.id_for(address) {
                            assert(v.ever[j] == v.ever[k]);
                        }
                    }
                }
                let my_id = match bimap_get_by_right(&self.all_players_ever, &address) {
                    Some(id) => id,
                    None => {
                        proof {
                            assert(e2[v.id_for(address)] == address);
                        }
                        0
                    },
                };
                assert(my_id == v.id_for(address));
                let ghost c = bimap_pairs(self.connected_players);
                assert(!c.dom().contains(my_id)) by {
                    if c.dom().contains(my_id) {
                        assert(c[my_id] == address);
                    }
                }
                let displaced = bimap_insert(&mut self.connected_players, my_id, address);
                assert(!displaced.did_overwrite_spec());
                assert(bimap_pairs(self.connected_players) =~= c.insert(my_id, address));
                Some(OutMsg::PlayerConnected(my_id))
            },
            UpMsg::PlayerDisconnected(address) => {
                match bimap_remove_by_right(&mut self.connected_players, &address) {
                    Some((my_id, _)) => Some(OutMsg::PlayerDisconnected(my_id)),
                    None => None,
                }
            },
            UpMsg::NewFax(address, data) => {
                match bimap_get_by_right(&self.connected_players, &address) {
                    Some(my_id) => Some(OutMsg::NewFax(my_id, data)),
                    None => None,
                }
            },
        }
    }
}

} // verus!

verus! {

/// Every event that the registry admits keeps its invariant.
pub proof fn law_step_keeps_wf<T>(v: RegistryView, msg: UpMsg<T>)
    requires
        v.wf(),
        v.admits(msg),
    ensures
        v.step(msg).0.wf(),
{
    lemma_unique_keys(v);
    let w = v.step(msg).0;
    match msg {
        UpMsg::PlayerConnected(a) => {
            let id = v.id_for(a);
            assert(injective(w.ever)) by {
                assert forall|j: u32, k: u32|
                    w.ever.dom().contains(j) && w.ever.dom().contains(k) && #[trigger] w.ever[j]
                        == #[trigger] w.ever[k] implies j == k by {
                    if j != id && k != id {
                        assert(v.ever[j] == v.ever[k]);
                    }
                }
            }
        },
        UpMsg::PlayerDisconnected(a) => {},
        UpMsg::NewFax(a, d) => {},
    }
}

/// An id, once handed out, stays paired with its address, and the next
/// fresh id never goes down.
pub proof fn law_ids_are_permanent<T>(v: RegistryView, msg: UpMsg<T>)
    requires
        v.wf(),
        v.admits(msg),
    ensures
        v.next_id <= v.step(msg).0.next_id,
        forall|k: u32|
            v.ever.dom().contains(k) ==> v.step(msg).0.ever.dom().contains(k) && #[trigger] v.step(
                msg,
            ).0.ever[k] == v.ever[k],
{
    lemma_unique_keys(v);
}

/// A new address gets the next fresh id; an address seen before gets the id
/// it had; either way the user is told that id, and the player is then
/// connected at that address.
pub proof fn law_connect_assigns_id<T>(v: RegistryView, a: PeerAddr)
    requires
        v.wf(),
        v.admits(UpMsg::<T>::PlayerConnected(a)),
    ensures
        ({
            let (w, out) = v.step(UpMsg::<T>::PlayerConnected(a));
            let id = v.id_for(a);
            &&& out == Some(OutMsg::<T>::PlayerConnected(id))
            &&& !has_value(v.ever, a) ==> id == v.next_id && w.next_id == v.next_id + 1
            &&& has_value(v.ever, a) ==> v.ever.dom().contains(id) && v.ever[id] == a
            &&& w.connected.dom().contains(id) && w.connected[id] == a
            &&& w.ever.dom().contains(id) && w.ever[id] == a
        }),
{
    lemma_unique_keys(v);
}

/// A player that disconnects and connects again from the same address gets
/// the same id back.
pub proof fn law_reconnect_keeps_id<T>(v: RegistryView, a: PeerAddr)
    requires
        v.wf(),
        v.admits(UpMsg::<T>::PlayerConnected(a)),
    ensures
        ({
            let (v1, o1) = v.step(UpMsg::<T>::PlayerConnected(a));
            let (v2, o2) = v1.step(UpMsg::<T>::PlayerDisconnected(a));
            let (v3, o3) = v2.step(UpMsg::<T>::PlayerConnected(a));
            let id = v.id_for(a);
            &&& v1.admits(UpMsg::<T>::PlayerDisconnected(a))
            &&& v2.admits(UpMsg::<T>::PlayerConnected(a))
            &&& o1 == Some(OutMsg::<T>::PlayerConnected(id))
            &&& o2 == Some(OutMsg::<T>::PlayerDisconnected(id))
            &&& o3 == Some(OutMsg::<T>::PlayerConnected(id))
            &&& v3.wf()
        }),
{
    let (v1, o1) = v.step(UpMsg::<T>::PlayerConnected(a));
    law_step_keeps_wf(v, UpMsg::<T>::PlayerConnected(a));
    lemma_unique_keys(v1);
    let id = v.id_for(a);
    assert(v1.connected[id] == a);
    assert(v1.admits(UpMsg::<T>::PlayerDisconnected(a)));
    assert(key_of(v1.connected, a) == id);
    let (v2, o2) = v1.step(UpMsg::<T>::PlayerDisconnected(a));
    law_step_keeps_wf(v1, UpMsg::<T>::PlayerDisconnected(a));
    lemma_unique_keys(v2);
    assert(!has_value(v2.connected, a)) by {
        if has_value(v2.connected, a) {
            let k = choose|k: u32| v2.connected.dom().contains(k) && v2.connected[k] == a;
            assert(v1.connected[k] == a);
        }
    }
    assert(v2.ever[id] == a);
    assert(has_value(v2.ever, a));
    assert(v2.id_for(a) == id);
    law_step_keeps_wf(v2, UpMsg::<T>::PlayerConnected(a));
}

/// After a disconnect the player's id no longer leads to an address, so the
/// user's messages to it go nowhere.
pub proof fn law_disconnect_forgets_address<T>(v: RegistryView, a: PeerAddr)
    requires
        v.wf(),
        v.admits(UpMsg::<T>::PlayerDisconnected(a)),
    ensures
        ({
            let (w, out) = v.step(UpMsg::<T>::PlayerDisconnected(a));
            let id = key_of(v.connected, a);
            &&& v.connected.dom().contains(id) && v.connected[id] == a
            &&& out == Some(OutMsg::<T>::PlayerDisconnected(id))
            &&& !w.connected.dom().contains(id)
            &&& !has_value(w.connected, a)
        }),
{
    lemma_unique_keys(v);
    let (w, out) = v.step(UpMsg::<T>::PlayerDisconnected(a));
    let id = key_of(v.connected, a);
    assert(!has_value(w.connected, a)) by {
        if has_value(w.connected, a) {
            let k = choose|k: u32| w.connected.dom().contains(k) && w.connected[k] == a;
            assert(v.connected[k] == a);
        }
    }
}

/// A message is passed to the user exactly when its address is connected,
/// under that player's id; messages never change the registry.
pub proof fn law_fax_from_connected_only<T>(v: RegistryView, a: PeerAddr, data: T)
    requires
        v.wf(),
    ensures
        ({
            let (w, out) = v.step(UpMsg::NewFax(a, data));
            &&& w == v
            &&& out is Some <==> has_value(v.connected, a)
            &&& out matches Some(o) ==> o == OutMsg::NewFax(key_of(v.connected, a), data)
                && v.connected[key_of(v.connected, a)] == a
        }),
{
}

/// Two different addresses never share an id.
pub proof fn law_distinct_addresses_distinct_ids(v: RegistryView, a: PeerAddr, b: PeerAddr)
    requires
        v.wf(),
        has_value(v.ever, a),
        has_value(v.ever, b),
        a != b,
    ensures
        v.id_for(a) != v.id_for(b),
{
}

} // verus!

verus! {

/// The registry before any event: no players, the first id is 0.
pub open spec fn initial_view() -> RegistryView {
    RegistryView { next_id: 0, ever: Map::empty(), connected: Map::empty() }
}

/// The registry after an event: its step where it admits the event,
/// unchanged where it does not.
pub open spec fn next_view<T>(v: RegistryView, m: UpMsg<T>) -> RegistryView {
    if v.admits(m) {
        v.step(m).0
    } else {
        v
    }
}

/// What the user is told of an event: the step's output where the registry
/// admits the event, `ProtocolViolation` where it does not.
pub open spec fn reply<T>(v: RegistryView, m: UpMsg<T>) -> Result<Option<OutMsg<T>>, LinkError> {
    if v.admits(m) {
        Ok(v.step(m).1)
    } else {
        Err(LinkError::ProtocolViolation)
    }
}

/// The registry after a sequence of events, from `v`.
pub open spec fn run<T>(v: RegistryView, events: Seq<UpMsg<T>>) -> RegistryView
    decreases events.len(),
{
    if events.len() == 0 {
        v
    } else {
        next_view(run(v, events.drop_last()), events.last())
    }
}

/// What the user is told of each of a sequence of events, in order, from
/// `v`.
pub open spec fn replies<T>(v: RegistryView, events: Seq<UpMsg<T>>) -> Seq<
    Result<Option<OutMsg<T>>, LinkError>,
>
    decreases events.len(),
{
    if events.len() == 0 {
        Seq::empty()
    } else {
        replies(v, events.drop_last()).push(reply(run(v, events.drop_last()), events.last()))
    }
}

/// One more event extends the run and its replies by that event's effect.
pub proof fn lemma_run_push<T>(v: RegistryView, events: Seq<UpMsg<T>>, m: UpMsg<T>)
    ensures
        run(v, events.push(m)) == next_view(run(v, events), m),
        replies(v, events.push(m)) == replies(v, events).push(reply(run(v, events), m)),
        replies(v, events).len() == events.len(),
    decreases events.len(),
{
    assert(events.push(m).drop_last() =~= events);
    if events.len() > 0 {
        lemma_run_push(v, events.drop_last(), events.last());
        assert(events.drop_last().push(events.last()) =~= events);
    }
}

/// The registry keeps its invariant over any sequence of events, whatever
/// the network side reports: an event that it does not admit leaves it as
/// it was.
pub proof fn law_run_keeps_wf<T>(v: RegistryView, events: Seq<UpMsg<T>>)
    requires
        v.wf(),
    ensures
        run(v, events).wf(),
    decreases events.len(),
{
    if events.len() > 0 {
        law_run_keeps_wf(v, events.drop_last());
        let w = run(v, events.drop_last());
        if w.admits(events.last()) {
            law_step_keeps_wf(w, events.last());
        }
    }
}

/// Over any sequence of events, an id once handed out stays paired with its
/// address, and the next fresh id never goes down: an address keeps one id
/// for the whole run.
pub proof fn law_run_ids_are_permanent<T>(v: RegistryView, events: Seq<UpMsg<T>>, k: u32)
    requires
        v.wf(),
        v.ever.dom().contains(k),
    ensures
        run(v, events).ever.dom().contains(k),
        run(v, events).ever[k] == v.ever[k],
        v.next_id <= run(v, events).next_id,
    decreases events.len(),
{
    if events.len() > 0 {
        law_run_ids_are_permanent(v, events.drop_last(), k);
        law_run_keeps_wf(v, events.drop_last());
        let w = run(v, events.drop_last());
        if w.admits(events.last()) {
            law_ids_are_permanent(w, events.last());
        }
    }
}

/// From the empty registry, the ids handed out over any sequence of events
/// are exactly `0, 1, ..., next_id - 1`, one per address, and the connected
/// players are paired with their own addresses.
pub proof fn law_run_from_start<T>(events: Seq<UpMsg<T>>)
    ensures
        run(initial_view(), events).wf(),
{
    law_run_keeps_wf(initial_view(), events);
}

} // verus!
