//! What the game does with the network events: a state update updates the
//! players that the client already shows and spawns the others; the initial
//! state records the client's id and spawns every player of the full state.
use vstd::prelude::*;
use crate::networking::network_messages::{INITIAL_STATE_MESSAGE_HEADER, STATE_UPDATE_MESSAGE_HEADER};
use crate::proto::state_messages::{self, GameStateUpdate, InitialState};

verus! {

/// The header under which state updates reach the game.
pub const STATE_UPDATE_EVENT: u8 = STATE_UPDATE_MESSAGE_HEADER;
/// The header under which the initial state reaches the game.
pub const INITIAL_STATE_EVENT: u8 = INITIAL_STATE_MESSAGE_HEADER;

/// What the game does with one network event.
#[derive(Debug, PartialEq, Eq)]
pub enum NetworkEventPlan {
    /// Update or spawn each of these players (their encodings, in order).
    UpdatePlayers { players: Vec<Vec<u8>> },
    /// Record the client's id, and spawn each of these players.
    Initialize { client_id: u32, players: Vec<Vec<u8>> },
    /// Nothing to do.
    Nothing,
}

/// The players of a decoded state update, or none when it did not decode.
pub open spec fn update_players_or_none(u: Option<state_messages::UpdateModel>) -> Seq<Seq<u8>> {
    match u {
        Some(m) => m.players,
        None => Seq::empty(),
    }
}

/// Decides what to do with the network event that came under `header` with
/// `data`. A message that does not decode counts as the default message:
/// no players, client id 0.
pub fn plan_network_event(header: u8, data: &[u8]) -> (r: NetworkEventPlan)
    ensures
        header == STATE_UPDATE_EVENT ==> (r matches NetworkEventPlan::UpdatePlayers { players }
            && players.deep_view() == update_players_or_none(state_messages::decode_update(data@))),
        header == INITIAL_STATE_EVENT ==> (r matches NetworkEventPlan::Initialize {
            client_id,
            players,
        } && match state_messages::decode_initial(data@) {
            Some(m) => client_id == m.client_id && players.deep_view() == update_players_or_none(
                m.full_state,
            ),
            None => client_id == 0 && players.deep_view() == Seq::<Seq<u8>>::empty(),
        }),
        header != STATE_UPDATE_EVENT && header != INITIAL_STATE_EVENT ==> r is Nothing,
{
    if header == STATE_UPDATE_EVENT {
        let update = match GameStateUpdate::from_reader(data) {
            Ok(u) => u,
            Err(_) => GameStateUpdate::default(),
        };
        NetworkEventPlan::UpdatePlayers { players: update.players }
    } else if header == INITIAL_STATE_EVENT {
        let init = match InitialState::from_reader(data) {
            Ok(m) => m,
            Err(_) => InitialState::default(),
        };
        let full = match init.full_state {
            Some(u) => u,
            None => GameStateUpdate::default(),
        };
        NetworkEventPlan::Initialize { client_id: init.client_id, players: full.players }
    } else {
        NetworkEventPlan::Nothing
    }
}

/// A written state update, received as a network event, lists the players
/// that were written, in order.
pub proof fn lemma_written_update_lists_its_players(u: state_messages::UpdateModel)
    requires
        state_messages::items_fit_u32(u.players),
        state_messages::items_fit_u32(u.bodies),
    ensures
        update_players_or_none(state_messages::decode_update(state_messages::encode_update(u)))
            == u.players,
{
    state_messages::lemma_update_roundtrip(u);
}

/// A written initial state, received as a network event, gives the client
/// id and the players of its full state that were written.
pub proof fn lemma_written_initial_gives_id_and_players(m: state_messages::InitialModel)
    requires
        m.full_state matches Some(u) ==> {
            &&& state_messages::items_fit_u32(u.players)
            &&& state_messages::items_fit_u32(u.bodies)
            &&& state_messages::encode_update(u).len() < 0x1_0000_0000
        },
    ensures
        state_messages::decode_initial(state_messages::encode_initial(m)) matches Some(d)
            && d.client_id == m.client_id && update_players_or_none(d.full_state)
            == update_players_or_none(m.full_state),
{
    state_messages::lemma_initial_roundtrip(m);
}

/// What to do for one player of a state update.
#[derive(Debug, Clone, Copy, PartialEq, Eq)]
pub enum PlayerUpdate {
    /// Update the local player at this index.
    Update { local: usize },
    /// No local player has this id: spawn one.
    Spawn,
}

/// The first index of `id` in `ids`, if any.
pub open spec fn first_index_of(ids: Seq<u32>, id: u32, k: int) -> bool {
    0 <= k < ids.len() && ids[k] == id && forall|j: int| 0 <= j < k ==> ids[j] != id
}

/// The first local player with the id `id`.
fn find_local(local_ids: &Vec<u32>, id: u32) -> (r: Option<usize>)
    ensures
        match r {
            Some(k) => first_index_of(local_ids@, id, k as int),
            None => forall|j: int| 0 <= j < local_ids@.len() ==> local_ids@[j] != id,
        },
{
    let mut k: usize = 0;
    while k < local_ids.len()
        invariant
            k <= local_ids@.len(),
            forall|j: int| 0 <= j < k ==> local_ids@[j] != id,
        decreases local_ids@.len() - k,
    {
        if local_ids[k] == id {
            return Some(k);
        }
        k = k + 1;
    }
    None
}

/// For each player of a state update (by id, in order), decides whether it
/// updates a local player (the first one with the same id) or is spawned.
/// Players spawned here are not matched by later players of the same update.
pub fn plan_player_updates(updated_ids: &Vec<u32>, local_ids: &Vec<u32>) -> (r: Vec<PlayerUpdate>)
    ensures
        r@.len() == updated_ids@.len(),
        forall|i: int|
            0 <= i < r@.len() ==> match #[trigger] r@[i] {
                PlayerUpdate::Update { local } => first_index_of(
                    local_ids@,
                    updated_ids@[i],
                    local as int,
                ),
                PlayerUpdate::Spawn => forall|j: int|
                    0 <= j < local_ids@.len() ==> local_ids@[j] != updated_ids@[i],
            },
{
    let mut r: Vec<PlayerUpdate> = Vec::new();
    let mut i: usize = 0;
    while i < updated_ids.len()
        invariant
            i <= updated_ids@.len(),
            r@.len() == i,
            forall|k: int|
                0 <= k < r@.len() ==> match #[trigger] r@[k] {
                    PlayerUpdate::Update { local } => first_index_of(
                        local_ids@,
                        updated_ids@[k],
                        local as int,
                    ),
                    PlayerUpdate::Spawn => forall|j: int|
                        0 <= j < local_ids@.len() ==> local_ids@[j] != updated_ids@[k],
                },
        decreases updated_ids@.len() - i,
    {
        let step = match find_local(local_ids, updated_ids[i]) {
            Some(local) => PlayerUpdate::Update { local },
            None => PlayerUpdate::Spawn,
        };
        r.push(step);
        i = i + 1;
    }
    r
}

} // verus!
