use ws_game_client::proto::state_messages::{GameStateUpdate, InitialState};

fn update(players: Vec<Vec<u8>>, bodies: Vec<Vec<u8>>) -> GameStateUpdate {
    GameStateUpdate { players, bodies }
}

fn write_update(u: &GameStateUpdate) -> Vec<u8> {
    let mut out = Vec::new();
    u.write_message(&mut out).unwrap();
    out
}

fn write_initial(m: &InitialState) -> Vec<u8> {
    let mut out = Vec::new();
    m.write_message(&mut out).unwrap();
    out
}

#[test]
fn update_encodes_players_then_bodies() {
    let u = update(vec![vec![1, 2]], vec![vec![]]);
    assert_eq!(write_update(&u), vec![10, 2, 1, 2, 18, 0]);
    assert_eq!(u.get_size(), 6);
}

#[test]
fn empty_update_encodes_to_nothing() {
    let u = GameStateUpdate::new();
    assert_eq!(write_update(&u), Vec::<u8>::new());
    assert_eq!(u.get_size(), 0);
    let d = GameStateUpdate::from_reader(&[]).unwrap();
    assert!(d.players.is_empty() && d.bodies.is_empty());
}

#[test]
fn write_appends_to_what_is_there() {
    let u = update(vec![vec![9]], vec![]);
    let mut out = vec![0xaa];
    u.write_message(&mut out).unwrap();
    assert_eq!(out, vec![0xaa, 10, 1, 9]);
}

#[test]
fn update_roundtrip() {
    let u = update(vec![vec![1, 2, 3], vec![], vec![7; 200]], vec![vec![4], vec![5, 6]]);
    let bytes = write_update(&u);
    assert_eq!(bytes.len(), u.get_size());
    let d = GameStateUpdate::from_reader(&bytes).unwrap();
    assert_eq!(d.players, u.players);
    assert_eq!(d.bodies, u.bodies);
}

#[test]
fn long_item_length_takes_two_bytes() {
    let u = update(vec![vec![7; 200]], vec![]);
    let bytes = write_update(&u);
    assert_eq!(&bytes[..3], &[10, 0xc8, 0x01]);
    assert_eq!(u.get_size(), 203);
}

#[test]
fn interleaved_fields_keep_their_order() {
    let bytes = [18, 1, 5, 10, 1, 1, 18, 1, 6, 10, 1, 2];
    let d = GameStateUpdate::from_reader(&bytes).unwrap();
    assert_eq!(d.players, vec![vec![1], vec![2]]);
    assert_eq!(d.bodies, vec![vec![5], vec![6]]);
}

#[test]
fn unknown_fields_are_skipped() {
    // field 1 as a varint, field 3 as fixed32, field 4 as fixed64, field 5 length-delimited
    let bytes = [
        8, 0x96, 0x01, 29, 1, 2, 3, 4, 33, 1, 2, 3, 4, 5, 6, 7, 8, 42, 2, 9, 9, 10, 1, 7,
    ];
    let d = GameStateUpdate::from_reader(&bytes).unwrap();
    assert_eq!(d.players, vec![vec![7]]);
    assert!(d.bodies.is_empty());
}

#[test]
fn truncated_field_is_refused() {
    assert!(GameStateUpdate::from_reader(&[10, 5, 1, 2]).is_err());
    assert!(GameStateUpdate::from_reader(&[10]).is_err());
    assert!(GameStateUpdate::from_reader(&[0x80]).is_err());
    assert!(GameStateUpdate::from_reader(&[29, 1, 2]).is_err());
}

#[test]
fn groups_and_unknown_wire_types_are_refused() {
    assert!(GameStateUpdate::from_reader(&[11, 0]).is_err());
    assert!(GameStateUpdate::from_reader(&[12, 0]).is_err());
    assert!(GameStateUpdate::from_reader(&[14, 0]).is_err());
}

#[test]
fn overlong_varint_is_refused() {
    let bytes = [0xff; 10];
    assert!(GameStateUpdate::from_reader(&bytes).is_err());
}

#[test]
fn initial_state_encoding() {
    let m = InitialState { client_id: 300, full_state: Some(update(vec![vec![1, 2]], vec![vec![]])) };
    let bytes = write_initial(&m);
    assert_eq!(bytes, vec![8, 0xac, 0x02, 18, 6, 10, 2, 1, 2, 18, 0]);
    assert_eq!(m.get_size(), 11);
}

#[test]
fn zero_client_id_is_not_written() {
    let m = InitialState { client_id: 0, full_state: None };
    assert_eq!(write_initial(&m), Vec::<u8>::new());
    assert_eq!(m.get_size(), 0);
    let d = InitialState::from_reader(&[]).unwrap();
    assert_eq!(d.client_id, 0);
    assert!(d.full_state.is_none());
}

#[test]
fn empty_full_state_is_written() {
    let m = InitialState { client_id: 0, full_state: Some(GameStateUpdate::new()) };
    assert_eq!(write_initial(&m), vec![18, 0]);
    let d = InitialState::from_reader(&[18, 0]).unwrap();
    let full = d.full_state.unwrap();
    assert!(full.players.is_empty() && full.bodies.is_empty());
}

#[test]
fn initial_state_roundtrip() {
    let m = InitialState {
        client_id: u32::MAX,
        full_state: Some(update(vec![vec![3; 130]], vec![vec![1], vec![2]])),
    };
    let bytes = write_initial(&m);
    assert_eq!(bytes.len(), m.get_size());
    let d = InitialState::from_reader(&bytes).unwrap();
    assert_eq!(d.client_id, u32::MAX);
    let full = d.full_state.unwrap();
    assert_eq!(full.players, vec![vec![3; 130]]);
    assert_eq!(full.bodies, vec![vec![1], vec![2]]);
}

#[test]
fn later_fields_replace_earlier_ones() {
    let bytes = [8, 1, 18, 2, 10, 0, 8, 2, 18, 0];
    let d = InitialState::from_reader(&bytes).unwrap();
    assert_eq!(d.client_id, 2);
    let full = d.full_state.unwrap();
    assert!(full.players.is_empty());
}

#[test]
fn client_id_keeps_low_32_bits_of_a_longer_varint() {
    // 2^32 + 5 as a varint: the reader keeps the low 32 bits
    let bytes = [8, 0x85, 0x80, 0x80, 0x80, 0x10];
    let d = InitialState::from_reader(&bytes).unwrap();
    assert_eq!(d.client_id, 5);
}

#[test]
fn malformed_full_state_is_refused() {
    assert!(InitialState::from_reader(&[18, 2, 10, 5]).is_err());
    assert!(InitialState::from_reader(&[18, 3, 10]).is_err());
    assert!(InitialState::from_reader(&[8]).is_err());
}

#[test]
fn defaults() {
    let u = GameStateUpdate::default();
    assert!(u.players.is_empty() && u.bodies.is_empty());
    let m = InitialState::default();
    assert_eq!(m.client_id, 0);
    assert!(m.full_state.is_none());
}

#[test]
fn initial_state_size_equals_bytes_written() {
    let cases = vec![
        InitialState::default(),
        InitialState { client_id: 300, full_state: None },
        InitialState { client_id: 0, full_state: Some(GameStateUpdate::default()) },
        InitialState { client_id: 1, full_state: Some(update(vec![vec![7; 200]], vec![vec![], vec![1]])) },
    ];
    let expected_sizes = vec![0, 3, 2, 213];
    for (m, size) in cases.iter().zip(expected_sizes) {
        assert_eq!(m.get_size(), size);
        assert_eq!(write_initial(m).len(), size);
    }
    assert_eq!(write_initial(&cases[1]), vec![0x08, 0xAC, 0x02]);
    assert_eq!(write_initial(&cases[2]), vec![0x12, 0x00]);
}

#[test]
fn update_size_equals_bytes_written() {
    let u = update(vec![vec![1; 130], vec![]], vec![vec![2, 3]]);
    assert_eq!(u.get_size(), 1 + 2 + 130 + 1 + 1 + 1 + 1 + 2);
    assert_eq!(write_update(&u).len(), u.get_size());
}

#[test]
fn a_length_past_the_input_is_refused() {
    assert!(GameStateUpdate::from_reader(&[10, 0xff, 0xff, 0xff, 0xff, 0x0f, 1, 2]).is_err());
    assert!(InitialState::from_reader(&[18, 0xff, 0xff, 0xff, 0xff, 0x0f]).is_err());
}
