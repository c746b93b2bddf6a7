//! The connection events and message data, as the connection manager uses
//! them.
pub use crate::networking::connection_events::{ConnectionEvent, NetworkData, SocketAddress};
