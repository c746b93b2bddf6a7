//! Client-side logic of a websocket game client: the framing and protobuf
//! wire format of the messages exchanged with the game server, the routing of
//! received messages, the send loop's decisions, and the player bookkeeping.
pub mod wire;
pub mod proto;
pub mod broadcast_gameinput;
pub mod receive_state;
pub mod networking;
pub mod new_networking;
pub mod game;
pub mod gameplay;
pub mod utils;
