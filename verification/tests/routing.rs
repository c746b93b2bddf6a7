use ws_game_client::new_networking::serialization::proto_serialize;
use ws_game_client::proto::state_messages::{GameStateUpdate, InitialState};
use ws_game_client::networking::connection_events::SocketAddress;
use ws_game_client::networking::listen::{
    register_header, route_incoming, send_event_for_message, Incoming, ListenAction,
};
use ws_game_client::networking::network_messages::{
    ClientConnectMessage, ClientDisconnectMessage, GameStateUpdateMessage, InitialStateMessage,
};
use ws_game_client::networking::receive_state::{route_state_message, StateRoute};
use ws_game_client::new_networking::network_plugin::NetworkMessage;
use ws_game_client::receive_state::{route_game_state, GameStateRoute};

/// The headers that the game registers: state updates and initial states.
fn registered() -> Vec<u8> {
    vec![GameStateUpdateMessage::header(), InitialStateMessage::header()]
}

#[test]
fn listen_dispatches_on_the_header() {
    assert_eq!(route_incoming(Incoming::Binary(vec![]), &registered()), ListenAction::Ignore);
    assert_eq!(
        route_incoming(Incoming::Binary(vec![0, 1, 2]), &registered()),
        ListenAction::FullState { payload: vec![1, 2] }
    );
    assert_eq!(route_incoming(Incoming::Binary(vec![1, 1]), &registered()), ListenAction::MisdirectedInput);
    assert_eq!(
        route_incoming(Incoming::Binary(vec![2, 8, 1]), &registered()),
        ListenAction::ClientJoined { payload: vec![8, 1] }
    );
    assert_eq!(route_incoming(Incoming::Binary(vec![9]), &registered()), ListenAction::InvalidHeader { header: 9 });
}

#[test]
fn listen_stores_updates_that_name_a_player() {
    let wire_kinds: Vec<u8> = vec![3, 4];
    assert_eq!(
        route_incoming(Incoming::Binary(vec![3, 10, 1, 5]), &wire_kinds),
        ListenAction::Store { header: 3, payload: vec![10, 1, 5] }
    );
    // no players
    assert_eq!(route_incoming(Incoming::Binary(vec![3, 18, 1, 5]), &wire_kinds), ListenAction::Ignore);
    assert_eq!(route_incoming(Incoming::Binary(vec![3]), &wire_kinds), ListenAction::Ignore);
    // malformed
    assert_eq!(route_incoming(Incoming::Binary(vec![3, 10, 4, 5]), &wire_kinds), ListenAction::Ignore);
}

#[test]
fn listen_stores_initial_states_that_decode() {
    let wire_kinds: Vec<u8> = vec![3, 4];
    assert_eq!(
        route_incoming(Incoming::Binary(vec![4, 8, 7]), &wire_kinds),
        ListenAction::Store { header: 4, payload: vec![8, 7] }
    );
    assert_eq!(
        route_incoming(Incoming::Binary(vec![4]), &wire_kinds),
        ListenAction::Store { header: 4, payload: vec![] }
    );
    assert_eq!(route_incoming(Incoming::Binary(vec![4, 8]), &wire_kinds), ListenAction::Ignore);
}

#[test]
fn listen_stops_on_close_failure_and_end() {
    assert_eq!(route_incoming(Incoming::Close, &registered()), ListenAction::StopReading);
    assert_eq!(route_incoming(Incoming::Failed, &registered()), ListenAction::StopReading);
    assert_eq!(route_incoming(Incoming::End, &registered()), ListenAction::StopReading);
    assert_eq!(route_incoming(Incoming::Other, &registered()), ListenAction::Ignore);
}

#[test]
fn state_receiver_dispatches_on_the_header() {
    assert_eq!(route_state_message(Incoming::Binary(vec![])), StateRoute::Ignore);
    assert_eq!(
        route_state_message(Incoming::Binary(vec![0, 4])),
        StateRoute::FullState { payload: vec![4] }
    );
    assert_eq!(route_state_message(Incoming::Binary(vec![1])), StateRoute::MisdirectedInput);
    assert_eq!(
        route_state_message(Incoming::Binary(vec![2, 3])),
        StateRoute::ClientJoined { payload: vec![3] }
    );
    assert_eq!(
        route_state_message(Incoming::Binary(vec![3, 1, 2])),
        StateRoute::StateUpdate { payload: vec![1, 2] }
    );
    assert_eq!(route_state_message(Incoming::Binary(vec![4])), StateRoute::InvalidHeader { header: 4 });
    assert_eq!(route_state_message(Incoming::Close), StateRoute::Stop);
    assert_eq!(route_state_message(Incoming::Failed), StateRoute::Stop);
    assert_eq!(route_state_message(Incoming::Other), StateRoute::Ignore);
}

#[test]
fn first_state_receiver_takes_only_full_states() {
    assert_eq!(route_game_state(Incoming::Binary(vec![])), GameStateRoute::Stop);
    assert_eq!(
        route_game_state(Incoming::Binary(vec![0, 5, 6])),
        GameStateRoute::FullState { payload: vec![5, 6] }
    );
    assert_eq!(route_game_state(Incoming::Binary(vec![3, 5])), GameStateRoute::Ignore);
    assert_eq!(route_game_state(Incoming::End), GameStateRoute::Stop);
    assert_eq!(route_game_state(Incoming::Other), GameStateRoute::Ignore);
}

#[test]
fn message_headers() {
    assert_eq!(GameStateUpdateMessage::header(), 10);
    assert_eq!(InitialStateMessage::header(), 11);
    assert_eq!(ClientConnectMessage::header(), 0);
    assert_eq!(ClientDisconnectMessage::header(), 1);
}

#[test]
fn stored_messages_become_events_in_order() {
    let mut store = vec![vec![1], vec![2, 3], vec![]];
    let server = Some(SocketAddress::V4 { ip: 0x7f00_0001, port: 8080 });
    let events = send_event_for_message::<GameStateUpdateMessage>(&mut store, &server);
    assert!(store.is_empty());
    assert_eq!(events.len(), 3);
    assert_eq!(events[0].data, vec![1]);
    assert_eq!(events[1].data, vec![2, 3]);
    assert_eq!(events[2].data, Vec::<u8>::new());
    for e in &events {
        assert_eq!(e.header, 10);
        assert_eq!(e.source, SocketAddress::V4 { ip: 0x7f00_0001, port: 8080 });
    }
}

#[test]
fn events_without_a_connection_come_from_the_unspecified_address() {
    let mut store = vec![vec![4]];
    let events = send_event_for_message::<InitialStateMessage>(&mut store, &None);
    assert_eq!(events.len(), 1);
    assert_eq!(events[0].header, 11);
    assert_eq!(events[0].source, SocketAddress::V4 { ip: 0, port: 0 });
    assert_eq!(events[0].source, SocketAddress::unspecified());
    let mut empty: Vec<Vec<u8>> = vec![];
    assert!(send_event_for_message::<ClientConnectMessage>(&mut empty, &None).is_empty());
}

#[test]
fn a_written_and_framed_update_is_stored_as_written() {
    let u = GameStateUpdate { players: vec![vec![1, 2]], bodies: vec![vec![3]] };
    let mut body = Vec::new();
    u.write_message(&mut body).unwrap();
    let msg = proto_serialize(&body, 3);
    assert_eq!(route_incoming(Incoming::Binary(msg), &vec![3]), ListenAction::Store { header: 3, payload: body });

    let m = InitialState { client_id: 7, full_state: Some(u) };
    let mut body = Vec::new();
    m.write_message(&mut body).unwrap();
    let msg = proto_serialize(&body, 4);
    assert_eq!(route_incoming(Incoming::Binary(msg), &vec![4]), ListenAction::Store { header: 4, payload: body });
}

#[test]
fn listen_keeps_messages_sent_under_their_registered_header() {
    assert_eq!(
        route_incoming(Incoming::Binary(vec![10, 10, 1, 5]), &registered()),
        ListenAction::Store { header: 10, payload: vec![10, 1, 5] }
    );
    assert_eq!(route_incoming(Incoming::Binary(vec![10, 18, 1, 5]), &registered()), ListenAction::Ignore);
    assert_eq!(
        route_incoming(Incoming::Binary(vec![11, 8, 7]), &registered()),
        ListenAction::Store { header: 11, payload: vec![8, 7] }
    );
    assert_eq!(route_incoming(Incoming::Binary(vec![11, 8]), &registered()), ListenAction::Ignore);
}

#[test]
fn listen_reports_kinds_that_the_game_did_not_register() {
    let none: Vec<u8> = vec![];
    assert_eq!(
        route_incoming(Incoming::Binary(vec![3, 10, 1, 5]), &none),
        ListenAction::Unregistered { header: 3 }
    );
    assert_eq!(
        route_incoming(Incoming::Binary(vec![11, 8, 7]), &none),
        ListenAction::Unregistered { header: 11 }
    );
    let only_updates: Vec<u8> = vec![10];
    assert_eq!(
        route_incoming(Incoming::Binary(vec![4, 8, 7]), &only_updates),
        ListenAction::Unregistered { header: 4 }
    );
    assert_eq!(
        route_incoming(Incoming::Binary(vec![10, 10, 1, 5]), &only_updates),
        ListenAction::Store { header: 10, payload: vec![10, 1, 5] }
    );
    // the game registers 10 and 11, not the headers 3 and 4 that the server writes
    assert_eq!(
        route_incoming(Incoming::Binary(vec![3, 10, 1, 5]), &registered()),
        ListenAction::Unregistered { header: 3 }
    );
    assert_eq!(
        route_incoming(Incoming::Binary(vec![4, 8, 7]), &registered()),
        ListenAction::Unregistered { header: 4 }
    );
    // a malformed message is dropped before the registry is asked
    assert_eq!(route_incoming(Incoming::Binary(vec![4, 8]), &none), ListenAction::Ignore);
}

#[test]
fn an_update_sent_under_its_header_reaches_the_game_as_an_event() {
    let u = GameStateUpdate { players: vec![vec![8, 1]], bodies: vec![] };
    let mut body = Vec::new();
    u.write_message(&mut body).unwrap();
    let msg = proto_serialize(&body, GameStateUpdateMessage::header());
    let mut store: Vec<Vec<u8>> = vec![];
    match route_incoming(Incoming::Binary(msg), &registered()) {
        ListenAction::Store { header, payload } => {
            assert_eq!(header, 10);
            store.push(payload);
        }
        other => panic!("not stored: {:?}", other),
    }
    let events = send_event_for_message::<GameStateUpdateMessage>(&mut store, &None);
    assert_eq!(events.len(), 1);
    assert_eq!(events[0].header, 10);
    assert_eq!(events[0].data, body);
}

#[test]
fn a_header_is_registered_once() {
    let mut registered: Vec<u8> = vec![];
    assert!(register_header(&mut registered, GameStateUpdateMessage::header()));
    assert!(register_header(&mut registered, InitialStateMessage::header()));
    assert_eq!(registered, vec![10, 11]);
    assert!(!register_header(&mut registered, 10));
    assert_eq!(registered, vec![10, 11]);
    assert_eq!(
        route_incoming(Incoming::Binary(vec![11, 8, 7]), &registered),
        ListenAction::Store { header: 11, payload: vec![8, 7] }
    );
}
