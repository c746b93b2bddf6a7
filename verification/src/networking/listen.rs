//! What the listening task does with each message that the server sends,
//! and how stored messages become events for the game.
use vstd::prelude::*;
use crate::networking::connection_events::{NetworkData, SocketAddress};
use crate::new_networking::network_plugin::NetworkMessage;
use crate::networking::network_messages::{INITIAL_STATE_MESSAGE_HEADER, STATE_UPDATE_MESSAGE_HEADER};
use crate::new_networking::serialization::{framed, split_header};
use crate::proto::state_messages::{self, GameStateUpdate, InitialState};

verus! {

/// Header of a full game state.
pub const FULL_STATE_HEADER: u8 = 0;
/// Header of a client input (which only the client sends).
pub const CLIENT_INPUT_HEADER: u8 = 1;
/// Header of the news that a client joined.
pub const CLIENT_JOINED_HEADER: u8 = 2;
/// Header of a state update.
pub const STATE_UPDATE_HEADER: u8 = 3;
/// Header of the initial state.
pub const INITIAL_STATE_HEADER: u8 = 4;

/// What the websocket stream yields next.
#[derive(Debug)]
pub enum Incoming {
    /// A binary message and its bytes.
    Binary(Vec<u8>),
    /// The peer closed the connection.
    Close,
    /// A text, ping, pong or raw frame.
    Other,
    /// Reading from the websocket failed.
    Failed,
    /// The stream has ended.
    End,
}

/// What to do with what the websocket stream yielded.
#[derive(Debug, PartialEq, Eq)]
pub enum ListenAction {
    /// A full game state arrived (reported only).
    FullState { payload: Vec<u8> },
    /// The server sent back a client input, which it should not do.
    MisdirectedInput,
    /// A client joined (reported only).
    ClientJoined { payload: Vec<u8> },
    /// Keep the payload under the header it came with, for the game to
    /// take.
    Store { header: u8, payload: Vec<u8> },
    /// A message under a header that the game has not registered (reported
    /// only).
    Unregistered { header: u8 },
    /// A header that no kind of message uses.
    InvalidHeader { header: u8 },
    /// Nothing to do; read on.
    Ignore,
    /// Stop reading from this stream.
    StopReading,
}

/// A message that came under the header `kind`, with payload `p`, is kept
/// under `kind` when the game registered that header, and reported
/// otherwise.
pub open spec fn kept_if_registered(registered: Seq<u8>, kind: u8, p: Seq<u8>, a: ListenAction) -> bool {
    if registered.contains(kind) {
        a matches ListenAction::Store { header, payload } && header == kind && payload@ == p
    } else {
        a matches ListenAction::Unregistered { header } && header == kind
    }
}

/// Whether `h` announces a state update: the header 3 that the server
/// writes, or the header 10 of the message kind itself.
pub open spec fn is_update_header(h: u8) -> bool {
    h == STATE_UPDATE_HEADER || h == STATE_UPDATE_MESSAGE_HEADER
}

/// Whether `h` announces an initial state: the header 4 that the server
/// writes, or the header 11 of the message kind itself.
pub open spec fn is_initial_header(h: u8) -> bool {
    h == INITIAL_STATE_HEADER || h == INITIAL_STATE_MESSAGE_HEADER
}

/// The action that a binary message `msg` calls for, when the game has
/// registered the headers `registered`.
pub open spec fn binary_action_holds(msg: Seq<u8>, registered: Seq<u8>, a: ListenAction) -> bool {
    if msg.len() == 0 {
        a is Ignore
    } else {
        let h = msg[0];
        let p = msg.drop_first();
        if h == FULL_STATE_HEADER {
            a matches ListenAction::FullState { payload } && payload@ == p
        } else if h == CLIENT_INPUT_HEADER {
            a is MisdirectedInput
        } else if h == CLIENT_JOINED_HEADER {
            a matches ListenAction::ClientJoined { payload } && payload@ == p
        } else if is_update_header(h) {
            if state_messages::decode_update(p) matches Some(u) && u.players.len() > 0 {
                kept_if_registered(registered, h, p, a)
            } else {
                a is Ignore
            }
        } else if is_initial_header(h) {
            if state_messages::decode_initial(p) is Some {
                kept_if_registered(registered, h, p, a)
            } else {
                a is Ignore
            }
        } else {
            a matches ListenAction::InvalidHeader { header } && header == h
        }
    }
}

/// Whether `header` is among the registered headers.
pub fn is_registered(registered: &Vec<u8>, header: u8) -> (b: bool)
    ensures
        b == registered@.contains(header),
{
    let mut i: usize = 0;
    while i < registered.len()
        invariant
            i <= registered@.len(),
            forall|j: int| 0 <= j < i ==> registered@[j] != header,
        decreases registered@.len() - i,
    {
        if registered[i] == header {
            assert(registered@[i as int] == header);
            return true;
        }
        i = i + 1;
    }
    false
}

/// Registers `header` among the headers whose messages the game listens
/// to. A header is registered once: registering it again is refused, and
/// the registry is left as it was.
pub fn register_header(registered: &mut Vec<u8>, header: u8) -> (added: bool)
    ensures
        added == !old(registered)@.contains(header),
        final(registered)@ == if added {
            old(registered)@.push(header)
        } else {
            old(registered)@
        },
{
    if is_registered(registered, header) {
        false
    } else {
        registered.push(header);
        true
    }
}

/// The action for a payload that came under the header `kind`.
fn keep_if_registered(registered: &Vec<u8>, kind: u8, payload: Vec<u8>) -> (a: ListenAction)
    ensures
        kept_if_registered(registered@, kind, payload@, a),
{
    if is_registered(registered, kind) {
        ListenAction::Store { header: kind, payload }
    } else {
        ListenAction::Unregistered { header: kind }
    }
}

/// Decides what to do with what the websocket stream yielded, given the
/// headers under which the game registered the message kinds it listens
/// to. A binary message is split into its header and payload and
/// dispatched on the header. A state update (header 3 as the server writes
/// it, or 10, the header of its message kind) is kept when it decodes and
/// names at least one player; an initial state (header 4, or 11) is kept
/// when it decodes. Each is kept under the header it came with, when the
/// game registered that header, and reported instead of kept otherwise. A close, a failure or the end of the stream stops the reading;
/// anything else is ignored.
pub fn route_incoming(incoming: Incoming, registered: &Vec<u8>) -> (a: ListenAction)
    ensures
        match incoming {
            Incoming::Binary(msg) => binary_action_holds(msg@, registered@, a),
            Incoming::Other => a is Ignore,
            _ => a is StopReading,
        },
{
    match incoming {
        Incoming::Binary(msg) => {
            match split_header(msg) {
                None => ListenAction::Ignore,
                Some((header, payload)) => {
                    if header == FULL_STATE_HEADER {
                        ListenAction::FullState { payload }
                    } else if header == CLIENT_INPUT_HEADER {
                        ListenAction::MisdirectedInput
                    } else if header == CLIENT_JOINED_HEADER {
                        ListenAction::ClientJoined { payload }
                    } else if header == STATE_UPDATE_HEADER || header == STATE_UPDATE_MESSAGE_HEADER {
                        match GameStateUpdate::from_reader(payload.as_slice()) {
                            Ok(update) => {
                                if update.players.len() == 0 {
                                    ListenAction::Ignore
                                } else {
                                    keep_if_registered(registered, header, payload)
                                }
                            },
                            Err(_) => ListenAction::Ignore,
                        }
                    } else if header == INITIAL_STATE_HEADER || header == INITIAL_STATE_MESSAGE_HEADER {
                        match InitialState::from_reader(payload.as_slice()) {
                            Ok(_) => keep_if_registered(registered, header, payload),
                            Err(_) => ListenAction::Ignore,
                        }
                    } else {
                        ListenAction::InvalidHeader { header }
                    }
                },
            }
        },
        Incoming::Other => ListenAction::Ignore,
        _ => ListenAction::StopReading,
    }
}

/// A state update that names at least one player, written and framed with
/// a state-update header (3 or 10), is kept by the listener under that
/// header, as it was written, once the game has registered the header.
pub proof fn lemma_framed_update_is_stored(
    h: u8,
    u: state_messages::UpdateModel,
    registered: Seq<u8>,
    a: ListenAction,
)
    requires
        is_update_header(h),
        state_messages::items_fit_u32(u.players),
        state_messages::items_fit_u32(u.bodies),
        u.players.len() > 0,
        registered.contains(h),
        binary_action_holds(framed(h, state_messages::encode_update(u)), registered, a),
    ensures
        a matches ListenAction::Store { header, payload } && header == h
            && payload@ == state_messages::encode_update(u),
{
    let msg = framed(h, state_messages::encode_update(u));
    assert(msg.drop_first() =~= state_messages::encode_update(u));
    state_messages::lemma_update_roundtrip(u);
}

/// An initial state, written and framed with an initial-state header (4 or
/// 11), is kept by the listener under that header, as it was written, once
/// the game has registered the header.
pub proof fn lemma_framed_initial_is_stored(
    h: u8,
    m: state_messages::InitialModel,
    registered: Seq<u8>,
    a: ListenAction,
)
    requires
        is_initial_header(h),
        m.full_state matches Some(u) ==> {
            &&& state_messages::items_fit_u32(u.players)
            &&& state_messages::items_fit_u32(u.bodies)
            &&& state_messages::encode_update(u).len() < 0x1_0000_0000
        },
        registered.contains(h),
        binary_action_holds(framed(h, state_messages::encode_initial(m)), registered, a),
    ensures
        a matches ListenAction::Store { header, payload } && header == h
            && payload@ == state_messages::encode_initial(m),
{
    let msg = framed(h, state_messages::encode_initial(m));
    assert(msg.drop_first() =~= state_messages::encode_initial(m));
    state_messages::lemma_initial_roundtrip(m);
}

/// What the listener does with a state update sent under a state-update
/// header `h` (3 as the server writes it, or 10) with payload `p`: an update
/// that decodes (its fields in any order, unknown fields skipped) and names
/// at least one player is kept under `h`, exactly as it came, when the game
/// registered `h`, and reported as unregistered otherwise; any other payload
/// is dropped.
pub proof fn lemma_update_routing(h: u8, p: Seq<u8>, registered: Seq<u8>, a: ListenAction)
    requires
        h == 3u8 || h == 10u8,
        binary_action_holds(seq![h] + p, registered, a),
    ensures
        (state_messages::decode_update(p) matches Some(u) && u.players.len() > 0)
            && registered.contains(h) ==> (a matches ListenAction::Store { header, payload }
            && header == h && payload@ == p),
        (state_messages::decode_update(p) matches Some(u) && u.players.len() > 0)
            && !registered.contains(h) ==> (a matches ListenAction::Unregistered { header }
            && header == h),
        !(state_messages::decode_update(p) matches Some(u) && u.players.len() > 0) ==> a
            == ListenAction::Ignore,
{
    let msg = seq![h] + p;
    assert(msg[0] == h);
    assert(msg.drop_first() =~= p);
}

/// A state update sent under a registered state-update header (3 or 10) is
/// kept under that header, exactly as it came, whatever the order of its
/// players, bodies and unknown length-delimited fields, as long as one of
/// its fields is a player.
pub proof fn lemma_update_in_any_field_order_is_kept(
    h: u8,
    fields: Seq<(u32, Seq<u8>)>,
    i: int,
    registered: Seq<u8>,
    a: ListenAction,
)
    requires
        h == 3u8 || h == 10u8,
        registered.contains(h),
        state_messages::fields_well_formed(fields),
        0 <= i < fields.len(),
        fields[i].0 == 10u32,
        binary_action_holds(seq![h] + state_messages::encode_fields(fields), registered, a),
    ensures
        a matches ListenAction::Store { header, payload } && header == h
            && payload@ == state_messages::encode_fields(fields),
{
    state_messages::lemma_decode_fields(fields);
    state_messages::lemma_fields_name_a_player(fields, state_messages::empty_update(), i);
    lemma_update_routing(h, state_messages::encode_fields(fields), registered, a);
}

/// What the listener does with an initial state sent under an initial-state
/// header `h` (4 as the server writes it, or 11) with payload `p`: one that
/// decodes (its fields in any order, unknown fields skipped) is kept under
/// `h`, exactly as it came, when the game registered `h`, and reported as
/// unregistered otherwise; any other payload is dropped.
pub proof fn lemma_initial_routing(h: u8, p: Seq<u8>, registered: Seq<u8>, a: ListenAction)
    requires
        h == 4u8 || h == 11u8,
        binary_action_holds(seq![h] + p, registered, a),
    ensures
        state_messages::decode_initial(p) is Some && registered.contains(h) ==> (a matches ListenAction::Store {
            header,
            payload,
        } && header == h && payload@ == p),
        state_messages::decode_initial(p) is Some && !registered.contains(h) ==> (a matches ListenAction::Unregistered {
            header,
        } && header == h),
        state_messages::decode_initial(p) is None ==> a == ListenAction::Ignore,
{
    let msg = seq![h] + p;
    assert(msg[0] == h);
    assert(msg.drop_first() =~= p);
}

/// An initial state sent under a registered initial-state header (4 or 11)
/// is kept under that header, exactly as it came, whatever the order of its
/// client-id, full-state and unknown length-delimited fields.
pub proof fn lemma_initial_in_any_field_order_is_kept(
    h: u8,
    fields: Seq<state_messages::InitialField>,
    registered: Seq<u8>,
    a: ListenAction,
)
    requires
        h == 4u8 || h == 11u8,
        registered.contains(h),
        forall|i: int|
            0 <= i < fields.len() ==> state_messages::initial_field_well_formed(#[trigger] fields[i]),
        binary_action_holds(seq![h] + state_messages::encode_initial_fields(fields), registered, a),
    ensures
        a matches ListenAction::Store { header, payload } && header == h
            && payload@ == state_messages::encode_initial_fields(fields),
{
    state_messages::lemma_decode_initial_fields(fields);
    lemma_initial_routing(h, state_messages::encode_initial_fields(fields), registered, a);
}

/// What the listener does with every other binary message: an empty one is
/// dropped; under header 0 a full state and under header 2 the news of a
/// joined client are reported with the payload as it came; header 1 (a
/// client input, which the server should not send) is reported; any header
/// that no kind of message uses is reported as invalid. None of them is
/// ever kept for the game.
pub proof fn lemma_other_routing(msg: Seq<u8>, registered: Seq<u8>, a: ListenAction)
    requires
        binary_action_holds(msg, registered, a),
        msg.len() == 0 || !(msg[0] == 3u8 || msg[0] == 4u8 || msg[0] == 10u8 || msg[0] == 11u8),
    ensures
        msg.len() == 0 ==> a == ListenAction::Ignore,
        msg.len() > 0 && msg[0] == 0u8 ==> (a matches ListenAction::FullState { payload }
            && payload@ == msg.drop_first()),
        msg.len() > 0 && msg[0] == 1u8 ==> a == ListenAction::MisdirectedInput,
        msg.len() > 0 && msg[0] == 2u8 ==> (a matches ListenAction::ClientJoined { payload }
            && payload@ == msg.drop_first()),
        msg.len() > 0 && msg[0] > 2u8 ==> (a matches ListenAction::InvalidHeader { header }
            && header == msg[0]),
        !(a is Store),
{
}

/// Turns the stored messages of one kind into events, in the order they
/// were stored, and leaves the store empty. Each event carries the
/// message's header and the address of the server, or `0.0.0.0:0` when
/// there is no connection.
pub fn send_event_for_message<T: NetworkMessage>(
    messages: &mut Vec<Vec<u8>>,
    server_address: &Option<SocketAddress>,
) -> (events: Vec<NetworkData>)
    ensures
        final(messages)@.len() == 0,
        events@.len() == old(messages)@.len(),
        forall|i: int|
            0 <= i < events@.len() ==> {
                &&& #[trigger] events@[i].data == old(messages)@[i]
                &&& events@[i].header == T::spec_header()
                &&& events@[i].source == match server_address {
                    Some(a) => *a,
                    None => SocketAddress::V4 { ip: 0, port: 0 },
                }
            },
{
    let ghost all = messages@;
    let mut taken: Vec<Vec<u8>> = Vec::new();
    std::mem::swap(messages, &mut taken);
    let header = T::header();
    let mut events: Vec<NetworkData> = Vec::new();
    while taken.len() > 0
        invariant
            events@.len() + taken@.len() == all.len(),
            taken@ == all.skip(events@.len() as int),
            header == T::spec_header(),
            messages@.len() == 0,
            forall|i: int|
                0 <= i < events@.len() ==> {
                    &&& #[trigger] events@[i].data == all[i]
                    &&& events@[i].header == T::spec_header()
                    &&& events@[i].source == match server_address {
                        Some(a) => *a,
                        None => SocketAddress::V4 { ip: 0, port: 0 },
                    }
                },
        decreases taken@.len(),
    {
        let ghost before = taken@;
        let data = taken.remove(0);
        assert(taken@ =~= all.skip((events@.len() + 1) as int));
        let source = match server_address {
            Some(a) => a.copy(),
            None => SocketAddress::unspecified(),
        };
        events.push(NetworkData { source, header, data });
    }
    events
}

} // verus!
