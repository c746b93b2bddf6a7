//! What the state-receiving task does with each message that the server
//! sends: full states and state updates go on to the game.
use vstd::prelude::*;
use crate::networking::listen::{
    Incoming, CLIENT_INPUT_HEADER, CLIENT_JOINED_HEADER, FULL_STATE_HEADER, STATE_UPDATE_HEADER,
};
use crate::new_networking::serialization::split_header;

verus! {

/// What to do with what the websocket stream yielded.
#[derive(Debug, PartialEq, Eq)]
pub enum StateRoute {
    /// Decode a full game state and pass it on.
    FullState { payload: Vec<u8> },
    /// Decode a state update and pass it on when it names an entity.
    StateUpdate { payload: Vec<u8> },
    /// The server sent back a client input, which it should not do.
    MisdirectedInput,
    /// A client joined (reported only).
    ClientJoined { payload: Vec<u8> },
    /// A header that no kind of message uses.
    InvalidHeader { header: u8 },
    /// Nothing to do; read on.
    Ignore,
    /// Stop reading: the connection is over.
    Stop,
}

/// Decides what to do with what the websocket stream yielded: a binary
/// message is dispatched on its header byte (an empty one is ignored); a
/// close, a failure or the end of the stream stops the task; anything
/// else is ignored.
pub fn route_state_message(incoming: Incoming) -> (r: StateRoute)
    ensures
        match incoming {
            Incoming::Binary(msg) => if msg@.len() == 0 {
                r is Ignore
            } else {
                let h = msg@[0];
                let p = msg@.drop_first();
                if h == FULL_STATE_HEADER {
                    r matches StateRoute::FullState { payload } && payload@ == p
                } else if h == CLIENT_INPUT_HEADER {
                    r is MisdirectedInput
                } else if h == CLIENT_JOINED_HEADER {
                    r matches StateRoute::ClientJoined { payload } && payload@ == p
                } else if h == STATE_UPDATE_HEADER {
                    r matches StateRoute::StateUpdate { payload } && payload@ == p
                } else {
                    r matches StateRoute::InvalidHeader { header } && header == h
                }
            },
            Incoming::Other => r is Ignore,
            _ => r is Stop,
        },
{
    match incoming {
        Incoming::Binary(msg) => match split_header(msg) {
            None => StateRoute::Ignore,
            Some((header, payload)) => {
                if header == FULL_STATE_HEADER {
                    StateRoute::FullState { payload }
                } else if header == CLIENT_INPUT_HEADER {
                    StateRoute::MisdirectedInput
                } else if header == CLIENT_JOINED_HEADER {
                    StateRoute::ClientJoined { payload }
                } else if header == STATE_UPDATE_HEADER {
                    StateRoute::StateUpdate { payload }
                } else {
                    StateRoute::InvalidHeader { header }
                }
            },
        },
        Incoming::Other => StateRoute::Ignore,
        _ => StateRoute::Stop,
    }
}

} // verus!
