//! A simpler state-receiving task: only full game states are
//! taken.
use vstd::prelude::*;
use crate::networking::listen::{Incoming, FULL_STATE_HEADER};
use crate::new_networking::serialization::split_header;

verus! {

/// What to do with what the websocket stream yielded.
#[derive(Debug, PartialEq, Eq)]
pub enum GameStateRoute {
    /// Decode a full game state and pass it on.
    FullState { payload: Vec<u8> },
    /// Nothing to do; read on.
    Ignore,
    /// Stop reading: the connection is over, or an empty message came.
    Stop,
}

/// Decides what to do with what the websocket stream yielded: an empty
/// binary message stops the task; a binary message with header 0 is a
/// full state; other binary messages are ignored; a close, a failure or
/// the end of the stream stops the task; anything else is ignored.
pub fn route_game_state(incoming: Incoming) -> (r: GameStateRoute)
    ensures
        match incoming {
            Incoming::Binary(msg) => if msg@.len() == 0 {
                r is Stop
            } else if msg@[0] == FULL_STATE_HEADER {
                r matches GameStateRoute::FullState { payload } && payload@ == msg@.drop_first()
            } else {
                r is Ignore
            },
            Incoming::Other => r is Ignore,
            _ => r is Stop,
        },
{
    match incoming {
        Incoming::Binary(msg) => match split_header(msg) {
            None => GameStateRoute::Stop,
            Some((header, payload)) => {
                if header == FULL_STATE_HEADER {
                    GameStateRoute::FullState { payload }
                } else {
                    GameStateRoute::Ignore
                }
            },
        },
        Incoming::Other => GameStateRoute::Ignore,
        _ => GameStateRoute::Stop,
    }
}

} // verus!
