use netfax::addr::PeerAddr;
use netfax::messages::{OutMsg, UpMsg};
use netfax::registry::PlayerRegistry;

const A: PeerAddr = (4, 0x0a00_0001, 5000, 0, 0);
const B: PeerAddr = (4, 0x0a00_0002, 5000, 0, 0);
const C: PeerAddr = (6, 1, 5000, 0, 0);

fn step(r: &mut PlayerRegistry, m: UpMsg<String>) -> Option<OutMsg<String>> {
    assert!(r.admits(&m));
    r.apply(m)
}

#[test]
fn first_players_get_ids_from_zero() {
    let mut r = PlayerRegistry::new();
    assert_eq!(r.next_player_id(), 0);
    assert_eq!(step(&mut r, UpMsg::PlayerConnected(A)), Some(OutMsg::PlayerConnected(0)));
    assert_eq!(step(&mut r, UpMsg::PlayerConnected(B)), Some(OutMsg::PlayerConnected(1)));
    assert_eq!(r.next_player_id(), 2);
    assert_eq!(r.address_of(0), Some(A));
    assert_eq!(r.address_of(1), Some(B));
    assert_eq!(r.address_of(2), None);
}

#[test]
fn messages_are_attributed_to_their_sender() {
    let mut r = PlayerRegistry::new();
    step(&mut r, UpMsg::PlayerConnected(A));
    step(&mut r, UpMsg::PlayerConnected(B));
    assert_eq!(
        step(&mut r, UpMsg::NewFax(B, "yes1".to_string())),
        Some(OutMsg::NewFax(1, "yes1".to_string()))
    );
    assert_eq!(
        step(&mut r, UpMsg::NewFax(A, "2hi1".to_string())),
        Some(OutMsg::NewFax(0, "2hi1".to_string()))
    );
}

#[test]
fn messages_from_strangers_are_dropped() {
    let mut r = PlayerRegistry::new();
    step(&mut r, UpMsg::PlayerConnected(A));
    assert_eq!(step(&mut r, UpMsg::NewFax(C, "who".to_string())), None);
    assert_eq!(r.next_player_id(), 1);
}

#[test]
fn reconnecting_keeps_the_id() {
    let mut r = PlayerRegistry::new();
    step(&mut r, UpMsg::PlayerConnected(A));
    step(&mut r, UpMsg::PlayerConnected(B));
    assert_eq!(step(&mut r, UpMsg::PlayerDisconnected(A)), Some(OutMsg::PlayerDisconnected(0)));
    assert_eq!(r.address_of(0), None);
    assert_eq!(step(&mut r, UpMsg::NewFax(A, "late".to_string())), None);
    assert_eq!(step(&mut r, UpMsg::PlayerConnected(C)), Some(OutMsg::PlayerConnected(2)));
    assert_eq!(step(&mut r, UpMsg::PlayerConnected(A)), Some(OutMsg::PlayerConnected(0)));
    assert_eq!(r.address_of(0), Some(A));
    assert_eq!(r.next_player_id(), 3);
}

#[test]
fn impossible_events_are_not_admitted() {
    let mut r = PlayerRegistry::new();
    assert!(!r.admits(&UpMsg::<u8>::PlayerDisconnected(A)));
    assert!(r.admits(&UpMsg::<u8>::PlayerConnected(A)));
    r.apply(UpMsg::<u8>::PlayerConnected(A));
    assert!(!r.admits(&UpMsg::<u8>::PlayerConnected(A)));
    assert!(r.admits(&UpMsg::<u8>::PlayerDisconnected(A)));
    assert!(r.admits(&UpMsg::<u8>::NewFax(B, 1)));
}

#[test]
fn connected_ids_lists_each_connected_player_once() {
    let mut r = PlayerRegistry::new();
    step(&mut r, UpMsg::PlayerConnected(A));
    step(&mut r, UpMsg::PlayerConnected(B));
    step(&mut r, UpMsg::PlayerConnected(C));
    step(&mut r, UpMsg::PlayerDisconnected(B));
    let mut ids = r.connected_ids();
    ids.sort();
    assert_eq!(ids, vec![0, 2]);
}
