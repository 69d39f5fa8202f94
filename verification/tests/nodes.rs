use netfax::addr::{companion_udp_addr, PeerAddr};
use netfax::messages::{DownMsg, OutMsg, ToNodeMsg, UpMsg};
use netfax::registry::PlayerRegistry;
use netfax::nodes::{DownRoute, NodeTable};

const A: PeerAddr = (4, 0x7f00_0001, 40000, 0, 0);
const B: PeerAddr = (6, 1, 40000, 0, 0);

#[test]
fn connections_are_announced_once() {
    let mut table: NodeTable<u32> = NodeTable::new();
    match table.on_new_stream::<String>(A) {
        Some(UpMsg::PlayerConnected(a)) => assert_eq!(a, A),
        _ => panic!("expected a connect"),
    }
    table.register_node(A, 11);
    assert!(table.is_live(&A));
    assert!(table.on_new_stream::<String>(A).is_none());
    assert!(table.on_new_stream::<String>(B).is_some());
}

#[test]
fn requests_are_routed_by_address() {
    let mut table: NodeTable<u32> = NodeTable::new();
    table.register_node(A, 11);
    match table.route_down(DownMsg::SendFax(A, "hi".to_string(), true)) {
        DownRoute::Node(h, ToNodeMsg::NewFax(m)) => {
            assert_eq!(*h, 11);
            assert_eq!(m, "hi");
        }
        _ => panic!("expected the connection"),
    }
    match table.route_down(DownMsg::SendFax(B, "udp".to_string(), false)) {
        DownRoute::Datagram(a, m) => {
            assert_eq!(a, B);
            assert_eq!(m, "udp");
        }
        _ => panic!("expected a datagram"),
    }
    assert!(matches!(table.route_down(DownMsg::SendFax(B, "x".to_string(), true)), DownRoute::Nothing));
    assert!(matches!(table.route_down(DownMsg::<String>::DropPlayer(A)), DownRoute::Node(&11, ToNodeMsg::Die)));
    assert!(matches!(table.route_down(DownMsg::<String>::DropPlayer(B)), DownRoute::Nothing));
}

#[test]
fn dead_connections_are_forgotten() {
    let mut table: NodeTable<u32> = NodeTable::new();
    table.register_node(A, 11);
    match table.on_node_died::<String>(A) {
        UpMsg::PlayerDisconnected(a) => assert_eq!(a, A),
        _ => panic!("expected a disconnect"),
    }
    assert!(!table.is_live(&A));
    assert!(matches!(table.route_down(DownMsg::SendFax(A, "x".to_string(), true)), DownRoute::Nothing));
    assert!(table.on_new_stream::<String>(A).is_some());
}

#[test]
fn udp_side_is_one_port_up() {
    assert_eq!(companion_udp_addr((4, 0x1931_dfb5, 7767, 0, 0)), (4, 0x1931_dfb5, 7768, 0, 0));
    assert_eq!(companion_udp_addr(B), (6, 1, 40001, 0, 0));
}

#[test]
fn network_and_registry_agree() {
    let mut table: NodeTable<u32> = NodeTable::new();
    let mut registry = PlayerRegistry::new();
    let mut outs = vec![];
    for (addr, dies) in [(A, false), (B, false), (A, true), (A, false), (B, true)] {
        let up = if dies {
            table.on_node_died::<String>(addr)
        } else {
            let up = table.on_new_stream::<String>(addr).unwrap();
            table.register_node(addr, 0);
            up
        };
        assert!(registry.admits(&up));
        outs.push(registry.apply(up).unwrap());
    }
    assert_eq!(
        outs,
        vec![
            OutMsg::PlayerConnected(0),
            OutMsg::PlayerConnected(1),
            OutMsg::PlayerDisconnected(0),
            OutMsg::PlayerConnected(0),
            OutMsg::PlayerDisconnected(1),
        ]
    );
}

#[test]
fn duplicate_connections_are_ignored() {
    let mut table: NodeTable<u32> = NodeTable::new();
    table.register_node(A, 11);
    assert!(table.on_new_stream::<String>(A).is_none());
    assert!(table.is_live(&A));
    assert!(matches!(table.route_down(DownMsg::<String>::DropPlayer(A)), DownRoute::Node(&11, ToNodeMsg::Die)));
    assert!(table.on_new_stream::<String>(B).is_some());
}
