//! The protobuf messages of the game protocol.
pub mod state_messages;
