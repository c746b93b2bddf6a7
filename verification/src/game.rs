//! The game world as the client keeps it.
pub mod components;
pub mod game_world;
pub mod update_internal_state;
