//! The components that the game attaches to player entities.
use vstd::prelude::*;
use crate::game::game_world::EntityState;

verus! {

/// A player entity of the game world, as the client shows it.
#[derive(Debug, Default)]
pub struct Player {
    /// Whether the player currently holds the action button down.
    pub pressed: bool,
}

impl Player {
    /// A player that has not pressed anything yet.
    pub fn new() -> (p: Player)
        ensures
            !p.pressed,
    {
        Player { pressed: false }
    }

    /// Takes over what the server reports of this player.
    pub fn update_with_proto(&mut self, updated_data: EntityState)
        ensures
            final(self).pressed == updated_data.pressed,
    {
        self.pressed = updated_data.pressed;
    }
}

/// Marks the player that this client controls.
#[derive(Debug)]
pub struct ControlledPlayer;

} // verus!
