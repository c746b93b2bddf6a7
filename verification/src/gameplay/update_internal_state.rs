//! Keeping the game world in step with the server.
pub use crate::gameplay::manage_game_objects::add_entities;
use vstd::prelude::*;

verus! {

/// Listens for changes of the game state. It does nothing yet.
pub fn listen_for_state_changes() {
}

} // verus!
