//! Bookkeeping of the entities that the server reports.
pub mod manage_game_objects;
pub mod update_internal_state;
