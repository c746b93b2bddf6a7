//! The kinds of messages that the game listens to, with their headers.
use vstd::prelude::*;
use crate::new_networking::network_plugin::NetworkMessage;

verus! {

/// The header by which the game registers state updates.
pub const STATE_UPDATE_MESSAGE_HEADER: u8 = 10;
/// The header by which the game registers the initial state.
pub const INITIAL_STATE_MESSAGE_HEADER: u8 = 11;

/// A state update: header 10.
pub struct GameStateUpdateMessage {}

impl NetworkMessage for GameStateUpdateMessage {
    open spec fn spec_header() -> u8 {
        STATE_UPDATE_MESSAGE_HEADER
    }

    fn header() -> (h: u8) {
        STATE_UPDATE_MESSAGE_HEADER
    }
}

/// The initial state: header 11.
pub struct InitialStateMessage {}

impl NetworkMessage for InitialStateMessage {
    open spec fn spec_header() -> u8 {
        INITIAL_STATE_MESSAGE_HEADER
    }

    fn header() -> (h: u8) {
        INITIAL_STATE_MESSAGE_HEADER
    }
}

/// A client connected: header 0.
pub struct ClientConnectMessage {}

impl NetworkMessage for ClientConnectMessage {
    open spec fn spec_header() -> u8 {
        0
    }

    fn header() -> (h: u8) {
        0
    }
}

/// A client disconnected: header 1.
pub struct ClientDisconnectMessage {}

impl NetworkMessage for ClientDisconnectMessage {
    open spec fn spec_header() -> u8 {
        1
    }

    fn header() -> (h: u8) {
        1
    }
}

} // verus!
