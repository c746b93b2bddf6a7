//! The errors of the networking layer.
use vstd::prelude::*;
use crate::networking::connection_events::SocketAddress;

verus! {

/// An I/O error of the standard library.
#[verifier::external_type_specification]
#[verifier::external_body]
pub struct ExIoError(std::io::Error);

/// What can go wrong in the networking layer.
#[derive(Debug)]
pub enum NetworkError {
    /// Accepting a new connection failed.
    Accept(std::io::Error),
    /// No connection has this address.
    ConnectionNotFound(SocketAddress),
    /// The connection with this address is closed.
    ChannelClosed(SocketAddress),
    /// The client is not connected to any server.
    NotConnected,
    /// Listening for new connections failed.
    Listen(std::io::Error),
    /// Connecting failed.
    Connection(std::io::Error),
}

} // verus!
