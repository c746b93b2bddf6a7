//! The connection to the game server: what is sent, what is received.
pub mod broadcast;
pub mod broadcast_gameinput;
pub mod connection_events;
pub mod listen;
pub mod net_errors;
pub mod network_messages;
pub mod receive_state;
