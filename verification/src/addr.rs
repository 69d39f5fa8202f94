//! Peer addresses as plain integers.
use vstd::prelude::*;

verus! {

/// A socket address as plain integers: `(family, ip, port, flowinfo, scope_id)`.
///
/// `family` is `4` or `6`; for IPv4 the address occupies the low 32 bits of
/// `ip` and `flowinfo` and `scope_id` are zero. Two addresses are the same
/// peer exactly when all five components agree, as for `std::net::SocketAddr`.
pub type PeerAddr = (u8, u128, u16, u32, u32);

/// The port of an address.
pub open spec fn port_of(a: PeerAddr) -> u16 {
    a.2
}

/// The address with the same host and the next port: the UDP side of a hub
/// listens one port above its TCP side.
pub open spec fn companion_spec(a: PeerAddr) -> PeerAddr {
    (a.0, a.1, (a.2 + 1) as u16, a.3, a.4)
}

/// The UDP address that belongs to a TCP address: same host, port plus one.
pub fn companion_udp_addr(tcp: PeerAddr) -> (udp: PeerAddr)
    requires
        tcp.2 < u16::MAX,
    ensures
        udp == companion_spec(tcp),
        port_of(udp) == port_of(tcp) + 1,
{
    (tcp.0, tcp.1, tcp.2 + 1, tcp.3, tcp.4)
}

} // verus!
