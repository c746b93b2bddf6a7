//! The game world as the server reports it.
use vstd::prelude::*;
use std::collections::HashMap;

verus! {

broadcast use vstd::std_specs::hash::group_hash_axioms;

/// What the server reports of a player or other entity: its id, its
/// position (each coordinate as the bits of an IEEE 754 single-precision
/// number), and whether its action button is down.
#[derive(Debug, Clone, Copy, PartialEq, Eq)]
pub struct EntityState {
    pub id: u32,
    pub x_bits: u32,
    pub y_bits: u32,
    pub pressed: bool,
}

/// The players and bodies of the game world, by id. Bodies are kept as the
/// bytes of their encoding.
pub struct GameWorld {
    pub players: HashMap<u32, EntityState>,
    pub bodies: HashMap<u32, Vec<u8>>,
}

impl GameWorld {
    /// A world with no players and no bodies.
    pub fn new() -> (w: GameWorld)
        ensures
            w.players@ == Map::<u32, EntityState>::empty(),
            w.bodies@ == Map::<u32, Vec<u8>>::empty(),
    {
        GameWorld { players: HashMap::new(), bodies: HashMap::new() }
    }
}

} // verus!
