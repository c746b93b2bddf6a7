//! What the connection reports to the game: connection events and the data
//! of received messages.
use vstd::prelude::*;

verus! {

/// A change of the connection to the server.
#[derive(Debug, Clone, Copy, PartialEq, Eq)]
pub enum ConnectionEvent {
    Connected,
    Disconnected,
    Error,
}

/// The address of a peer: an IP address and a port.
#[allow(inconsistent_fields)]
#[derive(Debug, Clone, Copy, PartialEq, Eq)]
pub enum SocketAddress {
    /// An IPv4 address (its four octets, most significant first) and a port.
    V4 { ip: u32, port: u16 },
    /// An IPv6 address (its sixteen octets, most significant first), a port,
    /// the flow information and the scope id.
    V6 { ip: u128, port: u16, flowinfo: u32, scope_id: u32 },
}

impl SocketAddress {
    /// The unspecified IPv4 address with port 0 (`0.0.0.0:0`).
    pub fn unspecified() -> (a: SocketAddress)
        ensures
            a == (SocketAddress::V4 { ip: 0, port: 0 }),
    {
        SocketAddress::V4 { ip: 0, port: 0 }
    }

    /// A copy of this address.
    pub fn copy(&self) -> (a: SocketAddress)
        ensures
            a == *self,
    {
        match self {
            SocketAddress::V4 { ip, port } => SocketAddress::V4 { ip: *ip, port: *port },
            SocketAddress::V6 { ip, port, flowinfo, scope_id } => SocketAddress::V6 {
                ip: *ip,
                port: *port,
                flowinfo: *flowinfo,
                scope_id: *scope_id,
            },
        }
    }
}

/// The data of a message received from the network.
#[derive(Debug)]
pub struct NetworkData {
    /// Where the message came from.
    pub source: SocketAddress,
    /// The header that framed the message.
    pub header: u8,
    /// The message's bytes.
    pub data: Vec<u8>,
}

} // verus!
