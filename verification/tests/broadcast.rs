use ws_game_client::networking::broadcast::{broadcast_step, BroadcastState, Poll};
use ws_game_client::new_networking::broadcast::{forward_step, ForwardAction};

#[test]
fn impulse_messages_are_sent_at_once() {
    let r = broadcast_step(BroadcastState::PollImpulse, Poll::Message(vec![1]));
    assert_eq!(r.next, BroadcastState::PollConstant);
    assert_eq!(r.send, Some(vec![1]));
    assert!(!r.tick);
    let r = broadcast_step(BroadcastState::PollImpulse, Poll::Empty);
    assert_eq!(r.next, BroadcastState::PollConstant);
    assert_eq!(r.send, None);
}

#[test]
fn no_constant_message_waits_for_the_tick() {
    let r = broadcast_step(BroadcastState::PollConstant, Poll::Empty);
    assert_eq!(r.next, BroadcastState::PollImpulse);
    assert_eq!(r.send, None);
    assert!(r.tick);
}

#[test]
fn the_first_constant_message_is_kept_and_the_rest_dropped() {
    let r = broadcast_step(BroadcastState::PollConstant, Poll::Message(vec![1]));
    assert_eq!(r.next, BroadcastState::Drain { pending: vec![1] });
    let r = broadcast_step(r.next, Poll::Message(vec![2]));
    assert_eq!(r.next, BroadcastState::Drain { pending: vec![1] });
    assert_eq!(r.send, None);
    let r = broadcast_step(r.next, Poll::Empty);
    assert_eq!(r.send, Some(vec![1]));
    assert!(r.tick);
    assert_eq!(r.next, BroadcastState::PollImpulse);
}

#[test]
fn an_empty_constant_message_is_not_sent() {
    let r = broadcast_step(BroadcastState::Drain { pending: vec![] }, Poll::Empty);
    assert_eq!(r.send, None);
    assert!(!r.tick);
    assert_eq!(r.next, BroadcastState::PollImpulse);
}

#[test]
fn a_closed_queue_stops_the_loop_for_good() {
    for state in [
        BroadcastState::PollImpulse,
        BroadcastState::PollConstant,
        BroadcastState::Drain { pending: vec![3] },
    ] {
        let r = broadcast_step(state, Poll::Disconnected);
        assert_eq!(r.next, BroadcastState::Stopped);
        assert_eq!(r.send, None);
    }
    let r = broadcast_step(BroadcastState::Stopped, Poll::Message(vec![1]));
    assert_eq!(r.next, BroadcastState::Stopped);
    assert_eq!(r.send, None);
    assert!(!r.tick);
}

#[test]
fn plain_loop_forwards_every_message() {
    assert_eq!(forward_step(Poll::Message(vec![4, 5])), ForwardAction::Send(vec![4, 5]));
    assert_eq!(forward_step(Poll::Empty), ForwardAction::Retry);
    assert_eq!(forward_step(Poll::Disconnected), ForwardAction::ReportAndRetry);
}
