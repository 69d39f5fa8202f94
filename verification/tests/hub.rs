use crossbeam_channel::unbounded;

use netfax::addr::PeerAddr;
use netfax::client::NetClientTop;
use netfax::hub::NetHubTop;
use netfax::messages::{DownMsg, LinkError, OutMsg, UpMsg};

const A: PeerAddr = (4, 0x1931_dfb5, 50000, 0, 0);
const B: PeerAddr = (4, 0x1931_dfb5, 50001, 0, 0);

fn next(hub: &mut NetHubTop<String>) -> OutMsg<String> {
    loop {
        if let Some(out) = hub.recv_step().unwrap() {
            return out;
        }
    }
}

fn fax(d: DownMsg<String>) -> (PeerAddr, String, bool) {
    match d {
        DownMsg::SendFax(a, m, r) => (a, m, r),
        DownMsg::DropPlayer(_) => panic!("expected a message"),
    }
}

#[test]
fn hub_conversation() {
    let (down_tx, down_rx) = unbounded();
    let (up_tx, up_rx) = unbounded();
    let mut server = NetHubTop::<String>::new(down_tx, up_rx);

    up_tx.send(UpMsg::PlayerConnected(A)).unwrap();
    assert_eq!(next(&mut server), OutMsg::PlayerConnected(0));
    server.send_msg(0, "anyoneThere1".to_string(), true).unwrap();
    server.send_msg(0, "anyoneThere2".to_string(), false).unwrap();
    assert_eq!(fax(down_rx.recv().unwrap()), (A, "anyoneThere1".to_string(), true));
    assert_eq!(fax(down_rx.recv().unwrap()), (A, "anyoneThere2".to_string(), false));

    up_tx.send(UpMsg::NewFax(A, "yes1".to_string())).unwrap();
    assert_eq!(next(&mut server), OutMsg::NewFax(0, "yes1".to_string()));

    up_tx.send(UpMsg::NewFax(B, "stranger".to_string())).unwrap();
    up_tx.send(UpMsg::PlayerConnected(B)).unwrap();
    assert_eq!(next(&mut server), OutMsg::PlayerConnected(1));
    up_tx.send(UpMsg::NewFax(B, "2hi1".to_string())).unwrap();
    assert_eq!(next(&mut server), OutMsg::NewFax(1, "2hi1".to_string()));
}

#[test]
fn messages_to_unknown_players_are_not_sent() {
    let (down_tx, down_rx) = unbounded();
    let (_up_tx, up_rx) = unbounded::<UpMsg<String>>();
    let mut server = NetHubTop::<String>::new(down_tx, up_rx);
    server.send_msg(3, "nobody".to_string(), true).unwrap();
    server.kick(3).unwrap();
    server.send_msg_all("all".to_string(), true).unwrap();
    assert!(down_rx.try_recv().is_err());
}

#[test]
fn kick_and_send_to_all() {
    let (down_tx, down_rx) = unbounded();
    let (up_tx, up_rx) = unbounded();
    let mut server = NetHubTop::<String>::new(down_tx, up_rx);
    up_tx.send(UpMsg::PlayerConnected(A)).unwrap();
    up_tx.send(UpMsg::PlayerConnected(B)).unwrap();
    next(&mut server);
    next(&mut server);
    server.send_msg_all("hello".to_string(), true).unwrap();
    let mut got = vec![fax(down_rx.recv().unwrap()), fax(down_rx.recv().unwrap())];
    got.sort();
    assert_eq!(got, vec![(A, "hello".to_string(), true), (B, "hello".to_string(), true)]);
    server.kick(1).unwrap();
    match down_rx.recv().unwrap() {
        DownMsg::DropPlayer(a) => assert_eq!(a, B),
        DownMsg::SendFax(..) => panic!("expected a drop"),
    }
    up_tx.send(UpMsg::PlayerDisconnected(B)).unwrap();
    assert_eq!(next(&mut server), OutMsg::PlayerDisconnected(1));
    assert_eq!(server.registry().address_of(1), None);
}

#[test]
fn impossible_events_and_closed_channels_are_reported() {
    let (down_tx, down_rx) = unbounded();
    let (up_tx, up_rx) = unbounded();
    let mut server = NetHubTop::<String>::new(down_tx, up_rx);
    up_tx.send(UpMsg::PlayerDisconnected(A)).unwrap();
    assert_eq!(server.recv_step(), Err(LinkError::ProtocolViolation));
    up_tx.send(UpMsg::PlayerConnected(A)).unwrap();
    assert_eq!(server.recv_step(), Ok(Some(OutMsg::PlayerConnected(0))));
    drop(down_rx);
    assert_eq!(server.kick(0), Err(LinkError::Disconnected));
    drop(up_tx);
    assert_eq!(server.recv_step(), Err(LinkError::Disconnected));
}

#[test]
fn client_channels() {
    let (down_tx, down_rx) = unbounded();
    let (up_tx, up_rx) = unbounded();
    let mut client = NetClientTop::<String>::new(down_tx, up_rx);
    client.send_msg("yes1".to_string(), false).unwrap();
    assert_eq!(down_rx.recv().unwrap(), ("yes1".to_string(), false));
    up_tx.send("anyoneThere1".to_string()).unwrap();
    assert_eq!(client.recv(), Some("anyoneThere1".to_string()));
    drop(up_tx);
    assert_eq!(client.recv(), None);
    drop(down_rx);
    assert_eq!(client.send_msg("late".to_string(), true), Err(LinkError::Disconnected));
}

#[test]
fn sends_see_connects_not_yet_received() {
    let (down_tx, down_rx) = unbounded();
    let (up_tx, up_rx) = unbounded();
    let mut server = NetHubTop::<String>::new(down_tx, up_rx);
    up_tx.send(UpMsg::PlayerConnected(A)).unwrap();
    up_tx.send(UpMsg::NewFax(A, "early".to_string())).unwrap();
    server.send_msg(0, "welcome".to_string(), true).unwrap();
    assert_eq!(fax(down_rx.recv().unwrap()), (A, "welcome".to_string(), true));
    assert_eq!(next(&mut server), OutMsg::PlayerConnected(0));
    assert_eq!(next(&mut server), OutMsg::NewFax(0, "early".to_string()));
}

#[test]
fn replies_come_in_the_order_of_events() {
    let (down_tx, _down_rx) = unbounded();
    let (up_tx, up_rx) = unbounded();
    let mut server = NetHubTop::<String>::new(down_tx, up_rx);
    up_tx.send(UpMsg::PlayerConnected(A)).unwrap();
    up_tx.send(UpMsg::PlayerConnected(A)).unwrap();
    up_tx.send(UpMsg::NewFax(B, "stranger".to_string())).unwrap();
    up_tx.send(UpMsg::PlayerConnected(B)).unwrap();
    server.kick(7).unwrap();
    assert_eq!(server.recv_step(), Ok(Some(OutMsg::PlayerConnected(0))));
    assert_eq!(server.recv_step(), Err(LinkError::ProtocolViolation));
    assert_eq!(server.recv_step(), Ok(None));
    assert_eq!(server.recv_step(), Ok(Some(OutMsg::PlayerConnected(1))));
}

#[test]
fn try_recv_step_does_not_wait() {
    let (down_tx, _down_rx) = unbounded();
    let (up_tx, up_rx) = unbounded();
    let mut server = NetHubTop::<String>::new(down_tx, up_rx);
    assert_eq!(server.try_recv_step(), None);
    up_tx.send(UpMsg::PlayerConnected(A)).unwrap();
    up_tx.send(UpMsg::NewFax(A, "hi".to_string())).unwrap();
    assert_eq!(server.try_recv_step(), Some(Ok(Some(OutMsg::PlayerConnected(0)))));
    assert_eq!(server.try_recv_step(), Some(Ok(Some(OutMsg::NewFax(0, "hi".to_string())))));
    assert_eq!(server.try_recv_step(), None);
}
