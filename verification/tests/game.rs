use ws_game_client::game::components::Player;
use ws_game_client::game::game_world::{EntityState, GameWorld};
use ws_game_client::game::update_internal_state::{
    plan_network_event, plan_player_updates, NetworkEventPlan, PlayerUpdate,
};
use ws_game_client::gameplay::manage_game_objects::add_entities;
use ws_game_client::gameplay::update_internal_state::listen_for_state_changes;
use ws_game_client::new_networking::network_plugin::SyncChannel;
use ws_game_client::utils::{get_platform_graphics_api, GraphicsApi, TargetOs};

fn entity(id: u32, x: f32, pressed: bool) -> EntityState {
    EntityState { id, x_bits: x.to_bits(), y_bits: 0.0f32.to_bits(), pressed }
}

#[test]
fn new_player_is_not_pressed() {
    assert!(!Player::new().pressed);
}

#[test]
fn player_takes_over_the_reported_button() {
    let mut p = Player::new();
    p.update_with_proto(entity(1, 0.5, true));
    assert!(p.pressed);
    p.update_with_proto(entity(1, 0.5, false));
    assert!(!p.pressed);
}

#[test]
fn new_world_is_empty() {
    let w = GameWorld::new();
    assert!(w.players.is_empty());
    assert!(w.bodies.is_empty());
}

#[test]
fn later_entities_replace_earlier_ones() {
    let mut w = GameWorld::new();
    add_entities(&mut w, vec![entity(1, 1.0, false), entity(2, 2.0, false), entity(1, 3.0, true)]);
    assert_eq!(w.players.len(), 2);
    assert_eq!(w.players[&1], entity(1, 3.0, true));
    assert_eq!(w.players[&2], entity(2, 2.0, false));
    add_entities(&mut w, vec![]);
    assert_eq!(w.players.len(), 2);
    add_entities(&mut w, vec![entity(2, 5.0, true)]);
    assert_eq!(w.players[&2], entity(2, 5.0, true));
    assert_eq!(w.players[&1], entity(1, 3.0, true));
}

#[test]
fn updates_match_the_first_local_player_with_the_id() {
    let plan = plan_player_updates(&vec![5, 7, 5, 9], &vec![7, 5, 5]);
    assert_eq!(
        plan,
        vec![
            PlayerUpdate::Update { local: 1 },
            PlayerUpdate::Update { local: 0 },
            PlayerUpdate::Update { local: 1 },
            PlayerUpdate::Spawn,
        ]
    );
    assert_eq!(plan_player_updates(&vec![3, 3], &vec![]), vec![PlayerUpdate::Spawn, PlayerUpdate::Spawn]);
    assert!(plan_player_updates(&vec![], &vec![1]).is_empty());
}

#[test]
fn state_update_events_list_their_players() {
    assert_eq!(
        plan_network_event(10, &[10, 1, 4, 18, 0, 10, 0]),
        NetworkEventPlan::UpdatePlayers { players: vec![vec![4], vec![]] }
    );
    // a malformed update counts as an empty one
    assert_eq!(plan_network_event(10, &[10, 9]), NetworkEventPlan::UpdatePlayers { players: vec![] });
}

#[test]
fn initial_state_events_give_the_id_and_the_players() {
    assert_eq!(
        plan_network_event(11, &[8, 42, 18, 3, 10, 1, 6]),
        NetworkEventPlan::Initialize { client_id: 42, players: vec![vec![6]] }
    );
    assert_eq!(
        plan_network_event(11, &[8, 42]),
        NetworkEventPlan::Initialize { client_id: 42, players: vec![] }
    );
    assert_eq!(
        plan_network_event(11, &[8]),
        NetworkEventPlan::Initialize { client_id: 0, players: vec![] }
    );
}

#[test]
fn other_events_are_left_alone() {
    assert_eq!(plan_network_event(0, &[1, 2]), NetworkEventPlan::Nothing);
    assert_eq!(plan_network_event(3, &[10, 1, 4]), NetworkEventPlan::Nothing);
}

#[test]
fn graphics_api_per_platform() {
    assert_eq!(get_platform_graphics_api(TargetOs::Windows), GraphicsApi::Dx12);
    assert_eq!(get_platform_graphics_api(TargetOs::MacOs), GraphicsApi::Metal);
    assert_eq!(get_platform_graphics_api(TargetOs::Linux), GraphicsApi::Gl);
}

#[test]
fn sync_channel_passes_values_in_order() {
    let c: SyncChannel<u32> = SyncChannel::new();
    c.sender.send(1).unwrap();
    c.sender.send(2).unwrap();
    assert_eq!(c.receiver.try_recv().unwrap(), 1);
    assert_eq!(c.receiver.try_recv().unwrap(), 2);
    assert!(c.receiver.try_recv().is_err());
}

#[test]
fn state_change_listener_runs() {
    listen_for_state_changes();
}
