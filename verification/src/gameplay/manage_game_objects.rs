//! Adding the entities that the server reports to the game world.
use vstd::prelude::*;
use crate::game::game_world::{EntityState, GameWorld};

verus! {

broadcast use vstd::std_specs::hash::group_hash_axioms;

/// `m` after each entity of `es`, in order, is put under its id.
pub open spec fn insert_all(m: Map<u32, EntityState>, es: Seq<EntityState>) -> Map<
    u32,
    EntityState,
>
    decreases es.len(),
{
    if es.len() == 0 {
        m
    } else {
        insert_all(m, es.drop_last()).insert(es.last().id, es.last())
    }
}

/// Puts each entity under its id in the world's players, in order: a later
/// entity with the same id replaces an earlier one.
pub fn add_entities(game_world: &mut GameWorld, entities: Vec<EntityState>)
    ensures
        final(game_world).players@ == insert_all(old(game_world).players@, entities@),
        final(game_world).bodies@ == old(game_world).bodies@,
{
    let ghost start = game_world.players@;
    let mut i: usize = 0;
    while i < entities.len()
        invariant
            i <= entities@.len(),
            game_world.players@ == insert_all(start, entities@.take(i as int)),
            game_world.bodies@ == old(game_world).bodies@,
        decreases entities@.len() - i,
    {
        let e = entities[i];
        assert(entities@.take(i + 1).drop_last() =~= entities@.take(i as int));
        game_world.players.insert(e.id, e);
        i = i + 1;
    }
    assert(entities@.take(i as int) =~= entities@);
}

/// After `insert_all`, the id of an entity that no later entity shares maps
/// to that entity.
pub proof fn lemma_insert_all_last_wins(m: Map<u32, EntityState>, es: Seq<EntityState>, i: int)
    requires
        0 <= i < es.len(),
        forall|j: int| i < j < es.len() ==> es[j].id != es[i].id,
    ensures
        insert_all(m, es).contains_key(es[i].id),
        insert_all(m, es)[es[i].id] == es[i],
    decreases es.len(),
{
    if i < es.len() - 1 {
        let init = es.drop_last();
        assert forall|j: int| i < j < init.len() implies init[j].id != init[i].id by {
            assert(init[j] == es[j]);
        }
        lemma_insert_all_last_wins(m, init, i);
        assert(init[i] == es[i]);
    }
}

/// After `insert_all`, an id that no entity has keeps what it had.
pub proof fn lemma_insert_all_untouched(m: Map<u32, EntityState>, es: Seq<EntityState>, k: u32)
    requires
        forall|j: int| 0 <= j < es.len() ==> es[j].id != k,
    ensures
        insert_all(m, es).contains_key(k) == m.contains_key(k),
        m.contains_key(k) ==> insert_all(m, es)[k] == m[k],
    decreases es.len(),
{
    if es.len() > 0 {
        let init = es.drop_last();
        assert forall|j: int| 0 <= j < init.len() implies init[j].id != k by {
            assert(init[j] == es[j]);
        }
        lemma_insert_all_untouched(m, init, k);
        assert(es[es.len() - 1].id != k);
    }
}

} // verus!
