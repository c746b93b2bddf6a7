use ws_game_client::broadcast_gameinput;
use ws_game_client::networking::broadcast_gameinput as client_input;
use ws_game_client::new_networking::serialization::{proto_serialize, split_header};

#[test]
fn proto_serialize_puts_the_header_first() {
    assert_eq!(proto_serialize(&[1, 2, 3], 7), vec![7, 1, 2, 3]);
    assert_eq!(proto_serialize(&[], 4), vec![4]);
}

#[test]
fn game_input_has_header_zero() {
    assert_eq!(broadcast_gameinput::serialize_gameinput(&[9, 8]), vec![0, 9, 8]);
}

#[test]
fn client_input_has_header_one() {
    assert_eq!(client_input::serialize_gameinput(&[9, 8]), vec![1, 9, 8]);
}

#[test]
fn split_header_undoes_framing() {
    let framed = proto_serialize(&[5, 6], 3);
    assert_eq!(split_header(framed), Some((3, vec![5, 6])));
    assert_eq!(split_header(vec![3]), Some((3, vec![])));
    assert_eq!(split_header(vec![]), None);
}
