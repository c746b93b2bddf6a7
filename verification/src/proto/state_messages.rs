//! The state messages that the server sends: a state update (the players and
//! bodies that changed) and the initial state (the client's id and the full
//! state). Their protobuf layout:
//!
//! ```text
//! message GameStateUpdate { repeated Player players = 1; repeated Body bodies = 2; }
//! message InitialState { uint32 client_id = 1; GameStateUpdate full_state = 2; }
//! ```
//!
//! `Player` and `Body` are nested messages whose own layout this library does
//! not read: each is kept as the bytes of its encoding.
use vstd::prelude::*;
use vstd::slice::{slice_subrange, slice_to_vec};
use crate::wire;

verus! {

/// The field tag of `GameStateUpdate.players` (field 1, length-delimited).
pub const PLAYERS_TAG: u32 = 10;
/// The field tag of `GameStateUpdate.bodies` (field 2, length-delimited).
pub const BODIES_TAG: u32 = 18;
/// The field tag of `InitialState.client_id` (field 1, varint).
pub const CLIENT_ID_TAG: u32 = 8;
/// The field tag of `InitialState.full_state` (field 2, length-delimited).
pub const FULL_STATE_TAG: u32 = 18;

/// A state update: the encoded players and bodies, in the order received.
/// Each player and body is kept as the bytes of its own message; the layout
/// of those messages belongs to the game protocol's definitions, which are
/// not part of this crate, so nothing here checks it.
#[derive(Debug, Clone)]
pub struct GameStateUpdate {
    pub players: Vec<Vec<u8>>,
    pub bodies: Vec<Vec<u8>>,
}

/// What a state update holds.
pub struct UpdateModel {
    pub players: Seq<Seq<u8>>,
    pub bodies: Seq<Seq<u8>>,
}

impl View for GameStateUpdate {
    type V = UpdateModel;

    open spec fn view(&self) -> UpdateModel {
        UpdateModel { players: self.players.deep_view(), bodies: self.bodies.deep_view() }
    }
}

/// The initial state: the id the server gave this client, and the full
/// state of the game world.
#[derive(Debug, Clone)]
pub struct InitialState {
    pub client_id: u32,
    pub full_state: Option<GameStateUpdate>,
}

/// What an initial state holds.
pub struct InitialModel {
    pub client_id: u32,
    pub full_state: Option<UpdateModel>,
}

impl View for InitialState {
    type V = InitialModel;

    open spec fn view(&self) -> InitialModel {
        InitialModel {
            client_id: self.client_id,
            full_state: match self.full_state {
                Some(u) => Some(u@),
                None => None,
            },
        }
    }
}

/// The empty update: what decoding starts from.
pub open spec fn empty_update() -> UpdateModel {
    UpdateModel { players: Seq::empty(), bodies: Seq::empty() }
}

/// The default initial state: what decoding starts from.
pub open spec fn default_initial() -> InitialModel {
    InitialModel { client_id: 0, full_state: None }
}

// ---------------------------------------------------------------------------
// Encoding.

/// A repeated length-delimited field: each item with its tag, in order.
pub open spec fn encode_repeated(tag: u32, items: Seq<Seq<u8>>) -> Seq<u8>
    decreases items.len(),
{
    if items.len() == 0 {
        Seq::empty()
    } else {
        wire::varint_bytes(tag as u64) + wire::len_delimited_bytes(items[0]) + encode_repeated(
            tag,
            items.drop_first(),
        )
    }
}

/// The encoding of a state update: all players, then all bodies.
pub open spec fn encode_update(m: UpdateModel) -> Seq<u8> {
    encode_repeated(PLAYERS_TAG, m.players) + encode_repeated(BODIES_TAG, m.bodies)
}

/// The encoding of an initial state: the client id when it is not zero,
/// then the full state when there is one.
pub open spec fn encode_initial(m: InitialModel) -> Seq<u8> {
    (if m.client_id != 0 {
        wire::varint_bytes(CLIENT_ID_TAG as u64) + wire::varint_bytes(m.client_id as u64)
    } else {
        Seq::empty()
    }) + match m.full_state {
        Some(u) => wire::varint_bytes(FULL_STATE_TAG as u64) + wire::len_delimited_bytes(encode_update(u)),
        None => Seq::empty(),
    }
}

// ---------------------------------------------------------------------------
// Decoding.

/// Decodes the fields in `s` onto `acc`: players and bodies are appended in
/// the order they come, fields with other tags are skipped.
#[verifier::opaque]
pub open spec fn decode_update_from(s: Seq<u8>, acc: UpdateModel) -> Option<UpdateModel>
    decreases s.len(),
{
    if s.len() == 0 {
        Some(acc)
    } else {
        match wire::read_varint32_spec(s) {
            None => None,
            Some((tag, n)) => {
                proof {
                    wire::lemma_read_bounds(s, tag);
                    wire::lemma_read_bounds(s.skip(n as int), tag);
                }
                let after_tag = s.skip(n as int);
                if tag == PLAYERS_TAG {
                    match wire::read_bytes_spec(after_tag) {
                        None => None,
                        Some((d, k)) => decode_update_from(
                            after_tag.skip(k as int),
                            UpdateModel { players: acc.players.push(d), bodies: acc.bodies },
                        ),
                    }
                } else if tag == BODIES_TAG {
                    match wire::read_bytes_spec(after_tag) {
                        None => None,
                        Some((d, k)) => decode_update_from(
                            after_tag.skip(k as int),
                            UpdateModel { players: acc.players, bodies: acc.bodies.push(d) },
                        ),
                    }
                } else {
                    match wire::skip_unknown_spec(after_tag, tag) {
                        None => None,
                        Some(k) => decode_update_from(after_tag.skip(k as int), acc),
                    }
                }
            },
        }
    }
}

/// The state update that `s` encodes, if it is well formed.
pub open spec fn decode_update(s: Seq<u8>) -> Option<UpdateModel> {
    decode_update_from(s, empty_update())
}

/// Decodes the fields in `s` onto `acc`: a later client id or full state
/// replaces an earlier one, fields with other tags are skipped.
#[verifier::opaque]
pub open spec fn decode_initial_from(s: Seq<u8>, acc: InitialModel) -> Option<InitialModel>
    decreases s.len(),
{
    if s.len() == 0 {
        Some(acc)
    } else {
        match wire::read_varint32_spec(s) {
            None => None,
            Some((tag, n)) => {
                proof {
                    wire::lemma_read_bounds(s, tag);
                    wire::lemma_read_bounds(s.skip(n as int), tag);
                }
                let after_tag = s.skip(n as int);
                if tag == CLIENT_ID_TAG {
                    match wire::read_varint32_spec(after_tag) {
                        None => None,
                        Some((v, k)) => decode_initial_from(
                            after_tag.skip(k as int),
                            InitialModel { client_id: v, full_state: acc.full_state },
                        ),
                    }
                } else if tag == FULL_STATE_TAG {
                    match wire::read_bytes_spec(after_tag) {
                        None => None,
                        Some((d, k)) => match decode_update(d) {
                            None => None,
                            Some(u) => decode_initial_from(
                                after_tag.skip(k as int),
                                InitialModel { client_id: acc.client_id, full_state: Some(u) },
                            ),
                        },
                    }
                } else {
                    match wire::skip_unknown_spec(after_tag, tag) {
                        None => None,
                        Some(k) => decode_initial_from(after_tag.skip(k as int), acc),
                    }
                }
            },
        }
    }
}

/// The initial state that `s` encodes, if it is well formed.
pub open spec fn decode_initial(s: Seq<u8>) -> Option<InitialModel> {
    decode_initial_from(s, default_initial())
}


/// `acc` with one more player (`tag` 10) or body (`tag` 18).
pub open spec fn update_with_item(acc: UpdateModel, tag: u32, d: Seq<u8>) -> UpdateModel {
    if tag == PLAYERS_TAG {
        UpdateModel { players: acc.players.push(d), bodies: acc.bodies }
    } else {
        UpdateModel { players: acc.players, bodies: acc.bodies.push(d) }
    }
}

// ---------------------------------------------------------------------------
// One step of decoding at a time.

pub proof fn lemma_update_end(acc: UpdateModel)
    ensures
        decode_update_from(Seq::empty(), acc) == Some(acc),
{
    reveal(decode_update_from);
}

pub proof fn lemma_update_bad_tag(s: Seq<u8>, acc: UpdateModel)
    requires
        s.len() > 0,
        wire::read_varint32_spec(s) is None,
    ensures
        decode_update_from(s, acc) is None,
{
    reveal(decode_update_from);
}

pub proof fn lemma_update_item(s: Seq<u8>, acc: UpdateModel, tag: u32, n: nat)
    requires
        s.len() > 0,
        wire::read_varint32_spec(s) == Some((tag, n)),
        tag == PLAYERS_TAG || tag == BODIES_TAG,
    ensures
        decode_update_from(s, acc) == match wire::read_bytes_spec(s.skip(n as int)) {
            None => None,
            Some((d, k)) => decode_update_from(
                s.skip(n as int).skip(k as int),
                update_with_item(acc, tag, d),
            ),
        },
{
    reveal(decode_update_from);
}

pub proof fn lemma_update_unknown(s: Seq<u8>, acc: UpdateModel, tag: u32, n: nat)
    requires
        s.len() > 0,
        wire::read_varint32_spec(s) == Some((tag, n)),
        tag != PLAYERS_TAG && tag != BODIES_TAG,
    ensures
        decode_update_from(s, acc) == match wire::skip_unknown_spec(s.skip(n as int), tag) {
            None => None,
            Some(k) => decode_update_from(s.skip(n as int).skip(k as int), acc),
        },
{
    reveal(decode_update_from);
}

pub proof fn lemma_initial_end(acc: InitialModel)
    ensures
        decode_initial_from(Seq::empty(), acc) == Some(acc),
{
    reveal(decode_initial_from);
}

pub proof fn lemma_initial_bad_tag(s: Seq<u8>, acc: InitialModel)
    requires
        s.len() > 0,
        wire::read_varint32_spec(s) is None,
    ensures
        decode_initial_from(s, acc) is None,
{
    reveal(decode_initial_from);
}

pub proof fn lemma_initial_client_id(s: Seq<u8>, acc: InitialModel, n: nat)
    requires
        s.len() > 0,
        wire::read_varint32_spec(s) == Some((CLIENT_ID_TAG, n)),
    ensures
        decode_initial_from(s, acc) == match wire::read_varint32_spec(s.skip(n as int)) {
            None => None,
            Some((v, k)) => decode_initial_from(
                s.skip(n as int).skip(k as int),
                InitialModel { client_id: v, full_state: acc.full_state },
            ),
        },
{
    reveal(decode_initial_from);
}

pub proof fn lemma_initial_full_state(s: Seq<u8>, acc: InitialModel, n: nat)
    requires
        s.len() > 0,
        wire::read_varint32_spec(s) == Some((FULL_STATE_TAG, n)),
    ensures
        decode_initial_from(s, acc) == match wire::read_bytes_spec(s.skip(n as int)) {
            None => None,
            Some((d, k)) => match decode_update(d) {
                None => None,
                Some(u) => decode_initial_from(
                    s.skip(n as int).skip(k as int),
                    InitialModel { client_id: acc.client_id, full_state: Some(u) },
                ),
            },
        },
{
    reveal(decode_initial_from);
}

pub proof fn lemma_initial_unknown(s: Seq<u8>, acc: InitialModel, tag: u32, n: nat)
    requires
        s.len() > 0,
        wire::read_varint32_spec(s) == Some((tag, n)),
        tag != CLIENT_ID_TAG && tag != FULL_STATE_TAG,
    ensures
        decode_initial_from(s, acc) == match wire::skip_unknown_spec(s.skip(n as int), tag) {
            None => None,
            Some(k) => decode_initial_from(s.skip(n as int).skip(k as int), acc),
        },
{
    reveal(decode_initial_from);
}

impl Default for GameStateUpdate {
    /// An update with no players and no bodies.
    fn default() -> (u: GameStateUpdate)
        ensures
            u@ == empty_update(),
    {
        GameStateUpdate::new()
    }
}

impl Default for InitialState {
    /// Client id 0 and no full state.
    fn default() -> (m: InitialState)
        ensures
            m@ == default_initial(),
    {
        InitialState { client_id: 0, full_state: None }
    }
}

// ---------------------------------------------------------------------------
// Reading.

impl GameStateUpdate {
    /// An update with no players and no bodies.
    pub fn new() -> (u: GameStateUpdate)
        ensures
            u@ == empty_update(),
    {
        let u = GameStateUpdate { players: Vec::new(), bodies: Vec::new() };
        assert(u@.players =~= Seq::<Seq<u8>>::empty());
        assert(u@.bodies =~= Seq::<Seq<u8>>::empty());
        u
    }

    /// Decodes a state update from `bytes`, which hold exactly its fields
    /// (no length in front). Fails exactly when `decode_update` does. The
    /// players and bodies are taken as they are: an update whose player or
    /// body bytes are not a well-formed message of their own is still
    /// accepted, to be checked by whoever decodes them.
    pub fn from_reader(bytes: &[u8]) -> (r: Result<GameStateUpdate, wire::WireError>)
        ensures
            match r {
                Ok(u) => decode_update(bytes@) == Some(u@),
                Err(_) => decode_update(bytes@) is None,
            },
    {
        let mut msg = GameStateUpdate::new();
        let mut pos: usize = 0;
        assert(bytes@.skip(0) =~= bytes@);
        while pos < bytes.len()
            invariant
                pos <= bytes@.len(),
                decode_update(bytes@) == decode_update_from(bytes@.skip(pos as int), msg@),
            decreases bytes@.len() - pos,
        {
            let ghost s = bytes@.skip(pos as int);
            let rest = slice_subrange(bytes, pos, bytes.len());
            assert(rest@ =~= s);
            let (tag, left) = match wire::pb_next_tag(rest) {
                Ok(x) => x,
                Err(e) => {
                    proof {
                        lemma_update_bad_tag(s, msg@);
                    }
                    return Err(wire::WireError::Protobuf(e));
                },
            };
            proof {
                wire::lemma_read_bounds(s, tag);
            }
            let ghost n: nat = (s.len() - left) as nat;
            let ghost after_tag = s.skip(s.len() - left);
            pos = bytes.len() - left;
            assert(bytes@.skip(pos as int) =~= after_tag);
            let rest = slice_subrange(bytes, pos, bytes.len());
            if tag == PLAYERS_TAG || tag == BODIES_TAG {
                proof {
                    lemma_update_item(s, msg@, tag, n);
                }
                let (d, left2) = match wire::read_len_delimited(rest) {
                    Ok(x) => x,
                    Err(e) => return Err(e),
                };
                proof {
                    wire::lemma_read_bounds(after_tag, tag);
                }
                let item = slice_to_vec(d);
                assert(item.deep_view() =~= d@);
                let ghost old_msg = msg@;
                if tag == PLAYERS_TAG {
                    msg.players.push(item);
                    assert(msg@.players =~= old_msg.players.push(d@));
                    assert(msg@.bodies =~= old_msg.bodies);
                    assert(msg@ == update_with_item(old_msg, tag, d@));
                } else {
                    msg.bodies.push(item);
                    assert(msg@.bodies =~= old_msg.bodies.push(d@));
                    assert(msg@.players =~= old_msg.players);
                    assert(msg@ == update_with_item(old_msg, tag, d@));
                }
                pos = bytes.len() - left2;
                assert(bytes@.skip(pos as int) =~= after_tag.skip(after_tag.len() - left2));
            } else {
                proof {
                    lemma_update_unknown(s, msg@, tag, n);
                }
                let left2 = match wire::pb_skip_unknown(rest, tag) {
                    Ok(x) => x,
                    Err(e) => return Err(wire::WireError::Protobuf(e)),
                };
                proof {
                    wire::lemma_read_bounds(after_tag, tag);
                }
                pos = bytes.len() - left2;
                assert(bytes@.skip(pos as int) =~= after_tag.skip(after_tag.len() - left2));
            }
        }
        assert(bytes@.skip(pos as int) =~= Seq::<u8>::empty());
        proof {
            lemma_update_end(msg@);
        }
        Ok(msg)
    }
}

impl InitialState {
    /// Decodes an initial state from `bytes`, which hold exactly its fields
    /// (no length in front). Fails exactly when `decode_initial` does.
    pub fn from_reader(bytes: &[u8]) -> (r: Result<InitialState, wire::WireError>)
        ensures
            match r {
                Ok(m) => decode_initial(bytes@) == Some(m@),
                Err(_) => decode_initial(bytes@) is None,
            },
    {
        let mut msg = InitialState { client_id: 0, full_state: None };
        let mut pos: usize = 0;
        assert(bytes@.skip(0) =~= bytes@);
        while pos < bytes.len()
            invariant
                pos <= bytes@.len(),
                decode_initial(bytes@) == decode_initial_from(bytes@.skip(pos as int), msg@),
            decreases bytes@.len() - pos,
        {
            let ghost s = bytes@.skip(pos as int);
            let rest = slice_subrange(bytes, pos, bytes.len());
            assert(rest@ =~= s);
            let (tag, left) = match wire::pb_next_tag(rest) {
                Ok(x) => x,
                Err(e) => {
                    proof {
                        lemma_initial_bad_tag(s, msg@);
                    }
                    return Err(wire::WireError::Protobuf(e));
                },
            };
            proof {
                wire::lemma_read_bounds(s, tag);
            }
            let ghost n: nat = (s.len() - left) as nat;
            let ghost after_tag = s.skip(s.len() - left);
            pos = bytes.len() - left;
            assert(bytes@.skip(pos as int) =~= after_tag);
            let rest = slice_subrange(bytes, pos, bytes.len());
            if tag == CLIENT_ID_TAG {
                proof {
                    lemma_initial_client_id(s, msg@, n);
                }
                let (v, left2) = match wire::pb_read_uint32(rest) {
                    Ok(x) => x,
                    Err(e) => return Err(wire::WireError::Protobuf(e)),
                };
                proof {
                    wire::lemma_read_bounds(after_tag, tag);
                }
                msg.client_id = v;
                pos = bytes.len() - left2;
                assert(bytes@.skip(pos as int) =~= after_tag.skip(after_tag.len() - left2));
            } else if tag == FULL_STATE_TAG {
                proof {
                    lemma_initial_full_state(s, msg@, n);
                }
                let (d, left2) = match wire::read_len_delimited(rest) {
                    Ok(x) => x,
                    Err(e) => return Err(e),
                };
                proof {
                    wire::lemma_read_bounds(after_tag, tag);
                }
                let full = match GameStateUpdate::from_reader(d) {
                    Ok(u) => u,
                    Err(e) => return Err(e),
                };
                msg.full_state = Some(full);
                pos = bytes.len() - left2;
                assert(bytes@.skip(pos as int) =~= after_tag.skip(after_tag.len() - left2));
            } else {
                proof {
                    lemma_initial_unknown(s, msg@, tag, n);
                }
                let left2 = match wire::pb_skip_unknown(rest, tag) {
                    Ok(x) => x,
                    Err(e) => return Err(wire::WireError::Protobuf(e)),
                };
                proof {
                    wire::lemma_read_bounds(after_tag, tag);
                }
                pos = bytes.len() - left2;
                assert(bytes@.skip(pos as int) =~= after_tag.skip(after_tag.len() - left2));
            }
        }
        assert(bytes@.skip(pos as int) =~= Seq::<u8>::empty());
        proof {
            lemma_initial_end(msg@);
        }
        Ok(msg)
    }
}

// ---------------------------------------------------------------------------
// Writing.

/// Every item of `items` is shorter than 4 GiB: its length fits the 32-bit
/// varint that the reader takes it from.
pub open spec fn items_fit_u32(items: Seq<Seq<u8>>) -> bool {
    forall|i: int| 0 <= i < items.len() ==> #[trigger] items[i].len() < 0x1_0000_0000
}

/// `acc` with `items` appended to its players (`tag` 10) or bodies.
pub open spec fn update_with_items(acc: UpdateModel, tag: u32, items: Seq<Seq<u8>>) -> UpdateModel {
    if tag == PLAYERS_TAG {
        UpdateModel { players: acc.players + items, bodies: acc.bodies }
    } else {
        UpdateModel { players: acc.players, bodies: acc.bodies + items }
    }
}

/// Decoding a written repeated field appends its items, then goes on with
/// what follows.
pub proof fn lemma_decode_repeated(
    tag: u32,
    items: Seq<Seq<u8>>,
    tail: Seq<u8>,
    acc: UpdateModel,
)
    requires
        tag == PLAYERS_TAG || tag == BODIES_TAG,
        items_fit_u32(items),
    ensures
        decode_update_from(encode_repeated(tag, items) + tail, acc) == decode_update_from(
            tail,
            update_with_items(acc, tag, items),
        ),
    decreases items.len(),
{
    if items.len() == 0 {
        assert(encode_repeated(tag, items) + tail =~= tail);
        assert(acc.players + items =~= acc.players);
        assert(acc.bodies + items =~= acc.bodies);
        assert(update_with_items(acc, tag, items) == acc);
    } else {
        let d = items[0];
        let rest = items.drop_first();
        let y = encode_repeated(tag, rest) + tail;
        let s = encode_repeated(tag, items) + tail;
        assert(wire::varint_bytes(tag as u64).len() == 1);
        assert(s =~= wire::varint_bytes(tag as u64) + (wire::len_delimited_bytes(d) + y));
        wire::lemma_read_varint32_of_written(tag, wire::len_delimited_bytes(d) + y);
        lemma_update_item(s, acc, tag, 1);
        assert(s.skip(1) =~= wire::len_delimited_bytes(d) + y);
        wire::lemma_read_bytes_of_written(d, y);
        let l = wire::len_delimited_bytes(d).len();
        assert(s.skip(1).skip(l as int) =~= y);
        let acc1 = update_with_item(acc, tag, d);
        assert(items_fit_u32(rest)) by {
            assert forall|i: int| 0 <= i < rest.len() implies #[trigger] rest[i].len()
                < 0x1_0000_0000 by {
                assert(rest[i] == items[i + 1]);
            }
        }
        lemma_decode_repeated(tag, rest, tail, acc1);
        assert(acc.players.push(d) + rest =~= acc.players + items);
        assert(acc.bodies.push(d) + rest =~= acc.bodies + items);
        assert(update_with_items(acc1, tag, rest) == update_with_items(acc, tag, items));
    }
}

/// A state update that is written and read back is the same update, when
/// every player and body encoding is shorter than 4 GiB.
pub proof fn lemma_update_roundtrip(m: UpdateModel)
    requires
        items_fit_u32(m.players),
        items_fit_u32(m.bodies),
    ensures
        decode_update(encode_update(m)) == Some(m),
{
    let bodies_part = encode_repeated(BODIES_TAG, m.bodies);
    assert(encode_update(m) =~= encode_repeated(PLAYERS_TAG, m.players) + bodies_part);
    lemma_decode_repeated(PLAYERS_TAG, m.players, bodies_part, empty_update());
    let acc1 = update_with_items(empty_update(), PLAYERS_TAG, m.players);
    assert(bodies_part =~= bodies_part + Seq::<u8>::empty());
    lemma_decode_repeated(BODIES_TAG, m.bodies, Seq::<u8>::empty(), acc1);
    lemma_update_end(update_with_items(acc1, BODIES_TAG, m.bodies));
    assert(Seq::<Seq<u8>>::empty() + m.players =~= m.players);
    assert(Seq::<Seq<u8>>::empty() + m.bodies =~= m.bodies);
}

/// An initial state that is written and read back is the same state, when
/// every player and body encoding of its full state is shorter than 4 GiB,
/// and so is the whole encoding of the full state.
pub proof fn lemma_initial_roundtrip(m: InitialModel)
    requires
        m.full_state matches Some(u) ==> {
            &&& items_fit_u32(u.players)
            &&& items_fit_u32(u.bodies)
            &&& encode_update(u).len() < 0x1_0000_0000
        },
    ensures
        decode_initial(encode_initial(m)) == Some(m),
{
    let b = match m.full_state {
        Some(u) => wire::varint_bytes(FULL_STATE_TAG as u64) + wire::len_delimited_bytes(
            encode_update(u),
        ),
        None => Seq::<u8>::empty(),
    };
    let acc = InitialModel { client_id: m.client_id, full_state: None };
    assert(wire::varint_bytes(CLIENT_ID_TAG as u64).len() == 1);
    assert(wire::varint_bytes(FULL_STATE_TAG as u64).len() == 1);
    // The client id, when it is written.
    assert(decode_initial(encode_initial(m)) == decode_initial_from(b, acc)) by {
        let s = encode_initial(m);
        if m.client_id != 0 {
            let vc = wire::varint_bytes(m.client_id as u64);
            assert(s =~= wire::varint_bytes(CLIENT_ID_TAG as u64) + (vc + b));
            wire::lemma_read_varint32_of_written(CLIENT_ID_TAG, vc + b);
            lemma_initial_client_id(s, default_initial(), 1);
            assert(s.skip(1) =~= vc + b);
            wire::lemma_read_varint32_of_written(m.client_id, b);
            assert(s.skip(1).skip(vc.len() as int) =~= b);
        } else {
            assert(s =~= b);
            assert(acc == default_initial());
        }
    }
    // The full state, when there is one.
    match m.full_state {
        Some(u) => {
            let e = encode_update(u);
            assert(b =~= wire::varint_bytes(FULL_STATE_TAG as u64) + (wire::len_delimited_bytes(e)
                + Seq::<u8>::empty()));
            wire::lemma_read_varint32_of_written(
                FULL_STATE_TAG,
                wire::len_delimited_bytes(e) + Seq::<u8>::empty(),
            );
            lemma_initial_full_state(b, acc, 1);
            assert(b.skip(1) =~= wire::len_delimited_bytes(e) + Seq::<u8>::empty());
            wire::lemma_read_bytes_of_written(e, Seq::<u8>::empty());
            lemma_update_roundtrip(u);
            assert(b.skip(1).skip(wire::len_delimited_bytes(e).len() as int) =~= Seq::<u8>::empty());
            lemma_initial_end(InitialModel { client_id: m.client_id, full_state: Some(u) });
        },
        None => {
            lemma_initial_end(acc);
        },
    }
}

/// One item of a repeated field: its tag, its length, its bytes.
pub open spec fn encode_item(tag: u32, d: Seq<u8>) -> Seq<u8> {
    wire::varint_bytes(tag as u64) + wire::len_delimited_bytes(d)
}

/// The encoding of a repeated field is the encoding of its items in turn.
pub proof fn lemma_encode_repeated_push(tag: u32, items: Seq<Seq<u8>>, d: Seq<u8>)
    ensures
        encode_repeated(tag, items.push(d)) == encode_repeated(tag, items) + encode_item(tag, d),
    decreases items.len(),
{
    if items.len() == 0 {
        assert(items.push(d).drop_first() =~= Seq::<Seq<u8>>::empty());
        assert(encode_repeated(tag, Seq::<Seq<u8>>::empty()) == Seq::<u8>::empty());
        assert(items.push(d)[0] == d);
        assert(encode_repeated(tag, items) == Seq::<u8>::empty());
        assert(encode_repeated(tag, items.push(d)) =~= encode_item(tag, d));
    } else {
        lemma_encode_repeated_push(tag, items.drop_first(), d);
        assert(items.push(d).drop_first() =~= items.drop_first().push(d));
        assert(encode_repeated(tag, items.push(d)) =~= encode_repeated(tag, items) + encode_item(
            tag,
            d,
        ));
    }
}

/// A prefix of a repeated field encodes to no more bytes than the whole.
pub proof fn lemma_encode_repeated_prefix_len(tag: u32, items: Seq<Seq<u8>>, i: int)
    requires
        0 <= i <= items.len(),
    ensures
        encode_repeated(tag, items.take(i)).len() <= encode_repeated(tag, items).len(),
    decreases items.len() - i,
{
    if i < items.len() {
        lemma_encode_repeated_prefix_len(tag, items, i + 1);
        assert(items.take(i + 1) =~= items.take(i).push(items[i]));
        lemma_encode_repeated_push(tag, items.take(i), items[i]);
    } else {
        assert(items.take(i) =~= items);
    }
}

// ---------------------------------------------------------------------------
// Decoding fields in any order.

/// Length-delimited fields, each its tag and its bytes, written one after
/// the other.
pub open spec fn encode_fields(fields: Seq<(u32, Seq<u8>)>) -> Seq<u8>
    decreases fields.len(),
{
    if fields.len() == 0 {
        Seq::empty()
    } else {
        wire::varint_bytes(fields[0].0 as u64) + wire::len_delimited_bytes(fields[0].1)
            + encode_fields(fields.drop_first())
    }
}

/// `acc` with the players (tag 10) and bodies (tag 18) of `fields` appended
/// in the order they come; fields with other tags add nothing.
pub open spec fn update_of_fields(fields: Seq<(u32, Seq<u8>)>, acc: UpdateModel) -> UpdateModel
    decreases fields.len(),
{
    if fields.len() == 0 {
        acc
    } else {
        let t = fields[0].0;
        let d = fields[0].1;
        update_of_fields(
            fields.drop_first(),
            if t == PLAYERS_TAG {
                UpdateModel { players: acc.players.push(d), bodies: acc.bodies }
            } else if t == BODIES_TAG {
                UpdateModel { players: acc.players, bodies: acc.bodies.push(d) }
            } else {
                acc
            },
        )
    }
}

/// Whether every field is length-delimited (its tag's low three bits are
/// 2) and shorter than 4 GiB.
pub open spec fn fields_well_formed(fields: Seq<(u32, Seq<u8>)>) -> bool {
    forall|i: int| 0 <= i < fields.len() ==> {
        &&& #[trigger] fields[i].0 % 8 == 2
        &&& fields[i].1.len() < 0x1_0000_0000
    }
}

proof fn lemma_decode_fields_from(fields: Seq<(u32, Seq<u8>)>, acc: UpdateModel)
    requires
        fields_well_formed(fields),
    ensures
        decode_update_from(encode_fields(fields), acc) == Some(update_of_fields(fields, acc)),
    decreases fields.len(),
{
    if fields.len() == 0 {
        lemma_update_end(acc);
    } else {
        let t = fields[0].0;
        let d = fields[0].1;
        assert(t % 8 == 2 && d.len() < 0x1_0000_0000) by {
            assert(fields[0].0 % 8 == 2);
        }
        let tail = fields.drop_first();
        assert(fields_well_formed(tail)) by {
            assert forall|i: int| 0 <= i < tail.len() implies #[trigger] tail[i].0 % 8 == 2
                && tail[i].1.len() < 0x1_0000_0000 by {
                assert(tail[i] == fields[i + 1]);
                assert(fields[i + 1].0 % 8 == 2);
            }
        }
        let rest = encode_fields(tail);
        let tb = wire::varint_bytes(t as u64);
        let ld = wire::len_delimited_bytes(d);
        let s = encode_fields(fields);
        assert(s =~= tb + (ld + rest));
        wire::lemma_read_varint32_of_written(t, ld + rest);
        let n = tb.len();
        assert(s.skip(n as int) =~= ld + rest);
        wire::lemma_varint_bytes_len_at_most_10(t as u64);
        lemma_decode_fields_from(tail, acc);
        if t == PLAYERS_TAG || t == BODIES_TAG {
            lemma_update_item(s, acc, t, n);
            wire::lemma_read_bytes_of_written(d, rest);
            assert((ld + rest).skip(ld.len() as int) =~= rest);
            lemma_decode_fields_from(tail, update_with_item(acc, t, d));
        } else {
            lemma_update_unknown(s, acc, t, n);
            let vb = wire::varint_bytes(d.len() as u64);
            wire::lemma_varint_bytes_len_at_most_10(d.len() as u64);
            wire::lemma_varint_extent(d.len() as u64, d + rest, 10);
            assert(ld + rest =~= vb + (d + rest));
            assert(wire::skip_unknown_spec(ld + rest, t) == Some(ld.len()));
            assert((ld + rest).skip(ld.len() as int) =~= rest);
        }
    }
}

/// A field tagged 10 among `fields` adds a player.
pub proof fn lemma_fields_name_a_player(fields: Seq<(u32, Seq<u8>)>, acc: UpdateModel, i: int)
    requires
        0 <= i < fields.len(),
        fields[i].0 == PLAYERS_TAG,
    ensures
        update_of_fields(fields, acc).players.len() > acc.players.len(),
    decreases fields.len(),
{
    lemma_fields_keep_players(fields.drop_first(), acc);
    let t = fields[0].0;
    let d = fields[0].1;
    let next = if t == PLAYERS_TAG {
        UpdateModel { players: acc.players.push(d), bodies: acc.bodies }
    } else if t == BODIES_TAG {
        UpdateModel { players: acc.players, bodies: acc.bodies.push(d) }
    } else {
        acc
    };
    lemma_fields_keep_players(fields.drop_first(), next);
    if i > 0 {
        assert(fields.drop_first()[i - 1] == fields[i]);
        lemma_fields_name_a_player(fields.drop_first(), next, i - 1);
    }
}

/// Fields never take players away.
proof fn lemma_fields_keep_players(fields: Seq<(u32, Seq<u8>)>, acc: UpdateModel)
    ensures
        update_of_fields(fields, acc).players.len() >= acc.players.len(),
    decreases fields.len(),
{
    if fields.len() > 0 {
        let t = fields[0].0;
        let d = fields[0].1;
        let next = if t == PLAYERS_TAG {
            UpdateModel { players: acc.players.push(d), bodies: acc.bodies }
        } else if t == BODIES_TAG {
            UpdateModel { players: acc.players, bodies: acc.bodies.push(d) }
        } else {
            acc
        };
        lemma_fields_keep_players(fields.drop_first(), next);
    }
}

/// Length-delimited fields decode, in whatever order they come, to the
/// state update whose players are the fields tagged 10 and whose bodies are
/// the fields tagged 18, each list in the order of the fields; fields with
/// other tags are skipped.
pub proof fn lemma_decode_fields(fields: Seq<(u32, Seq<u8>)>)
    requires
        fields_well_formed(fields),
    ensures
        decode_update(encode_fields(fields)) == Some(update_of_fields(fields, empty_update())),
{
    lemma_decode_fields_from(fields, empty_update());
}

/// One field of an initial state: a client id, a full state given by its
/// own fields, or a length-delimited field of another tag.
pub enum InitialField {
    ClientId(u32),
    FullState(Seq<(u32, Seq<u8>)>),
    Unknown(u32, Seq<u8>),
}

/// The bytes of one field of an initial state.
pub open spec fn encode_initial_field(f: InitialField) -> Seq<u8> {
    match f {
        InitialField::ClientId(v) => wire::varint_bytes(CLIENT_ID_TAG as u64) + wire::varint_bytes(
            v as u64,
        ),
        InitialField::FullState(fs) => wire::varint_bytes(FULL_STATE_TAG as u64)
            + wire::len_delimited_bytes(encode_fields(fs)),
        InitialField::Unknown(t, d) => wire::varint_bytes(t as u64) + wire::len_delimited_bytes(d),
    }
}

/// Fields of an initial state written one after the other.
pub open spec fn encode_initial_fields(fields: Seq<InitialField>) -> Seq<u8>
    decreases fields.len(),
{
    if fields.len() == 0 {
        Seq::empty()
    } else {
        encode_initial_field(fields[0]) + encode_initial_fields(fields.drop_first())
    }
}

/// `acc` after the fields: the last client id and the last full state win;
/// fields of other tags change nothing.
pub open spec fn initial_of_fields(fields: Seq<InitialField>, acc: InitialModel) -> InitialModel
    decreases fields.len(),
{
    if fields.len() == 0 {
        acc
    } else {
        initial_of_fields(
            fields.drop_first(),
            match fields[0] {
                InitialField::ClientId(v) => InitialModel { client_id: v, full_state: acc.full_state },
                InitialField::FullState(fs) => InitialModel {
                    client_id: acc.client_id,
                    full_state: Some(update_of_fields(fs, empty_update())),
                },
                InitialField::Unknown(_, _) => acc,
            },
        )
    }
}

/// Whether a field of an initial state can be written as described: a full
/// state's own fields well formed and shorter than 4 GiB in all, an
/// unknown field length-delimited, shorter than 4 GiB and not tagged as a
/// full state.
pub open spec fn initial_field_well_formed(f: InitialField) -> bool {
    match f {
        InitialField::ClientId(_) => true,
        InitialField::FullState(fs) => fields_well_formed(fs) && encode_fields(fs).len() < 0x1_0000_0000,
        InitialField::Unknown(t, d) => t % 8 == 2 && t != FULL_STATE_TAG && d.len() < 0x1_0000_0000,
    }
}

proof fn lemma_decode_initial_fields_from(fields: Seq<InitialField>, acc: InitialModel)
    requires
        forall|i: int| 0 <= i < fields.len() ==> initial_field_well_formed(#[trigger] fields[i]),
    ensures
        decode_initial_from(encode_initial_fields(fields), acc) == Some(initial_of_fields(fields, acc)),
    decreases fields.len(),
{
    if fields.len() == 0 {
        lemma_initial_end(acc);
    } else {
        let f = fields[0];
        assert(initial_field_well_formed(f));
        let tail = fields.drop_first();
        assert forall|i: int| 0 <= i < tail.len() implies initial_field_well_formed(#[trigger] tail[i]) by {
            assert(tail[i] == fields[i + 1]);
        }
        let rest = encode_initial_fields(tail);
        let s = encode_initial_fields(fields);
        let next = match f {
            InitialField::ClientId(v) => InitialModel { client_id: v, full_state: acc.full_state },
            InitialField::FullState(fs) => InitialModel {
                client_id: acc.client_id,
                full_state: Some(update_of_fields(fs, empty_update())),
            },
            InitialField::Unknown(_, _) => acc,
        };
        lemma_decode_initial_fields_from(tail, next);
        match f {
            InitialField::ClientId(v) => {
                let tb = wire::varint_bytes(CLIENT_ID_TAG as u64);
                let vb = wire::varint_bytes(v as u64);
                assert(s =~= tb + (vb + rest));
                wire::lemma_read_varint32_of_written(CLIENT_ID_TAG, vb + rest);
                assert(s.skip(tb.len() as int) =~= vb + rest);
                lemma_initial_client_id(s, acc, tb.len());
                wire::lemma_read_varint32_of_written(v, rest);
                assert((vb + rest).skip(vb.len() as int) =~= rest);
            },
            InitialField::FullState(fs) => {
                let tb = wire::varint_bytes(FULL_STATE_TAG as u64);
                let d = encode_fields(fs);
                let ld = wire::len_delimited_bytes(d);
                assert(s =~= tb + (ld + rest));
                wire::lemma_read_varint32_of_written(FULL_STATE_TAG, ld + rest);
                assert(s.skip(tb.len() as int) =~= ld + rest);
                lemma_initial_full_state(s, acc, tb.len());
                wire::lemma_read_bytes_of_written(d, rest);
                assert((ld + rest).skip(ld.len() as int) =~= rest);
                lemma_decode_fields(fs);
            },
            InitialField::Unknown(t, d) => {
                let tb = wire::varint_bytes(t as u64);
                let ld = wire::len_delimited_bytes(d);
                assert(s =~= tb + (ld + rest));
                wire::lemma_read_varint32_of_written(t, ld + rest);
                assert(s.skip(tb.len() as int) =~= ld + rest);
                lemma_initial_unknown(s, acc, t, tb.len());
                let vb = wire::varint_bytes(d.len() as u64);
                wire::lemma_varint_bytes_len_at_most_10(d.len() as u64);
                wire::lemma_varint_extent(d.len() as u64, d + rest, 10);
                assert(ld + rest =~= vb + (d + rest));
                assert(wire::skip_unknown_spec(ld + rest, t) == Some(ld.len()));
                assert((ld + rest).skip(ld.len() as int) =~= rest);
            },
        }
    }
}

/// Fields of an initial state decode, in whatever order they come, to the
/// initial state whose client id is that of the last client-id field (0
/// when there is none) and whose full state is the update that the last
/// full-state field holds (none when there is none); length-delimited
/// fields of other tags are skipped.
pub proof fn lemma_decode_initial_fields(fields: Seq<InitialField>)
    requires
        forall|i: int| 0 <= i < fields.len() ==> initial_field_well_formed(#[trigger] fields[i]),
    ensures
        decode_initial(encode_initial_fields(fields)) == Some(initial_of_fields(fields, default_initial())),
{
    lemma_decode_initial_fields_from(fields, default_initial());
}

// ---------------------------------------------------------------------------
// Sizes.

/// The size of a repeated length-delimited field, counted item by item: a
/// byte of tag, the varint of the item's length, and the item's bytes.
pub open spec fn repeated_size(items: Seq<Seq<u8>>) -> nat
    decreases items.len(),
{
    if items.len() == 0 {
        0
    } else {
        1 + wire::varint_bytes(items[0].len() as u64).len() + items[0].len() + repeated_size(
            items.drop_first(),
        )
    }
}

/// The size of a state update, counted field by field: its players, then
/// its bodies.
pub open spec fn update_size(m: UpdateModel) -> nat {
    repeated_size(m.players) + repeated_size(m.bodies)
}

/// The size of an initial state, counted field by field: a byte of tag and
/// the varint of the client id unless the id is zero; a byte of tag, the
/// varint of the update's size and the update itself when there is one.
pub open spec fn initial_size(m: InitialModel) -> nat {
    (if m.client_id == 0 {
        0
    } else {
        1 + wire::varint_bytes(m.client_id as u64).len()
    }) + match m.full_state {
        Some(u) => 1 + wire::varint_bytes(update_size(u) as u64).len() + update_size(u),
        None => 0,
    }
}

/// A repeated field under a one-byte tag encodes to as many bytes as
/// `repeated_size` counts.
proof fn lemma_repeated_size(tag: u32, items: Seq<Seq<u8>>)
    requires
        wire::varint_bytes(tag as u64).len() == 1,
    ensures
        encode_repeated(tag, items).len() == repeated_size(items),
    decreases items.len(),
{
    if items.len() > 0 {
        lemma_repeated_size(tag, items.drop_first());
    }
}

/// What `GameStateUpdate::write_message` writes is as long as
/// `GameStateUpdate::get_size` counts, for every update.
pub proof fn lemma_update_size(m: UpdateModel)
    ensures
        encode_update(m).len() == update_size(m),
{
    assert(wire::varint_bytes(PLAYERS_TAG as u64).len() == 1);
    assert(wire::varint_bytes(BODIES_TAG as u64).len() == 1);
    lemma_repeated_size(PLAYERS_TAG, m.players);
    lemma_repeated_size(BODIES_TAG, m.bodies);
}

/// What `InitialState::write_message` writes is as long as
/// `InitialState::get_size` counts, for every initial state.
pub proof fn lemma_initial_size(m: InitialModel)
    ensures
        encode_initial(m).len() == initial_size(m),
{
    assert(wire::varint_bytes(CLIENT_ID_TAG as u64).len() == 1);
    assert(wire::varint_bytes(FULL_STATE_TAG as u64).len() == 1);
    if let Some(u) = m.full_state {
        lemma_update_size(u);
    }
}

/// Appends a repeated length-delimited field to `out`.
fn write_repeated(out: &mut Vec<u8>, tag: u32, items: &Vec<Vec<u8>>) -> (r: Result<(), wire::WireError>)
    ensures
        r is Ok,
        final(out)@ == old(out)@ + encode_repeated(tag, items.deep_view()),
{
    let ghost start = out@;
    let mut i: usize = 0;
    assert(items.deep_view().take(0) =~= Seq::<Seq<u8>>::empty());
    assert(start =~= start + encode_repeated(tag, Seq::<Seq<u8>>::empty()));
    while i < items.len()
        invariant
            i <= items@.len(),
            out@ == start + encode_repeated(tag, items.deep_view().take(i as int)),
        decreases items@.len() - i,
    {
        let item = &items[i];
        let r1 = wire::pb_write_tag(out, tag);
        let r2 = wire::pb_write_bytes(out, item.as_slice());
        proof {
            let dv = items.deep_view();
            assert(item.deep_view() =~= item@);
            assert(dv[i as int] == item@);
            assert(dv.take(i + 1) =~= dv.take(i as int).push(item@));
            lemma_encode_repeated_push(tag, dv.take(i as int), item@);
        }
        i = i + 1;
    }
    assert(items.deep_view().take(i as int) =~= items.deep_view());
    Ok(())
}

/// The size of a repeated length-delimited field, as `get_size` counts it.
fn size_repeated(tag: u32, items: &Vec<Vec<u8>>) -> (n: usize)
    requires
        wire::varint_bytes(tag as u64).len() == 1,
        encode_repeated(tag, items.deep_view()).len() <= usize::MAX,
    ensures
        n == encode_repeated(tag, items.deep_view()).len(),
{
    let mut n: usize = 0;
    let mut i: usize = 0;
    let ghost dv = items.deep_view();
    assert(dv.take(0) =~= Seq::<Seq<u8>>::empty());
    while i < items.len()
        invariant
            i <= items@.len(),
            dv == items.deep_view(),
            wire::varint_bytes(tag as u64).len() == 1,
            encode_repeated(tag, dv).len() <= usize::MAX,
            n == encode_repeated(tag, dv.take(i as int)).len(),
        decreases items@.len() - i,
    {
        let item = &items[i];
        proof {
            assert(item.deep_view() =~= item@);
            assert(dv[i as int] == item@);
            assert(dv.take(i + 1) =~= dv.take(i as int).push(item@));
            lemma_encode_repeated_push(tag, dv.take(i as int), item@);
            lemma_encode_repeated_prefix_len(tag, dv, i + 1);
        }
        n = n + 1 + wire::pb_sizeof_len(item.len());
        i = i + 1;
    }
    assert(dv.take(i as int) =~= dv);
    n
}

impl GameStateUpdate {
    /// Appends the update's fields to `out` (no length in front): all
    /// players, then all bodies.
    pub fn write_message(&self, out: &mut Vec<u8>) -> (r: Result<(), wire::WireError>)
        ensures
            r is Ok,
            final(out)@ == old(out)@ + encode_update(self@),
    {
        let r1 = write_repeated(out, PLAYERS_TAG, &self.players);
        let r2 = write_repeated(out, BODIES_TAG, &self.bodies);
        assert(out@ =~= old(out)@ + encode_update(self@));
        Ok(())
    }

    /// The number of bytes that `write_message` writes.
    pub fn get_size(&self) -> (n: usize)
        requires
            update_size(self@) <= usize::MAX,
        ensures
            n == update_size(self@),
            n == encode_update(self@).len(),
    {
        proof {
            lemma_update_size(self@);
        }
        assert(wire::varint_bytes(PLAYERS_TAG as u64).len() == 1);
        assert(wire::varint_bytes(BODIES_TAG as u64).len() == 1);
        let a = size_repeated(PLAYERS_TAG, &self.players);
        let b = size_repeated(BODIES_TAG, &self.bodies);
        a + b
    }
}

impl InitialState {
    /// Appends the initial state's fields to `out` (no length in front): the
    /// client id unless it is zero, then the full state, length first, when
    /// there is one.
    pub fn write_message(&self, out: &mut Vec<u8>) -> (r: Result<(), wire::WireError>)
        requires
            self.full_state matches Some(u) ==> update_size(u@) <= usize::MAX,
        ensures
            r is Ok,
            final(out)@ == old(out)@ + encode_initial(self@),
    {
        let ghost start = out@;
        if self.client_id != 0 {
            let r1 = wire::pb_write_tag(out, CLIENT_ID_TAG);
            let r2 = wire::pb_write_uint32(out, self.client_id);
        }
        let ghost mid = out@;
        match &self.full_state {
            Some(u) => {
                let r3 = wire::pb_write_tag(out, FULL_STATE_TAG);
                let len = u.get_size();
                let r4 = wire::pb_write_varint(out, len as u64);
                let r5 = u.write_message(out);
                assert(out@ =~= start + encode_initial(self@));
            },
            None => {
                assert(out@ =~= start + encode_initial(self@));
            },
        }
        Ok(())
    }

    /// The number of bytes that `write_message` writes.
    pub fn get_size(&self) -> (n: usize)
        requires
            initial_size(self@) <= usize::MAX,
        ensures
            n == initial_size(self@),
            n == encode_initial(self@).len(),
    {
        proof {
            lemma_initial_size(self@);
        }
        assert(wire::varint_bytes(CLIENT_ID_TAG as u64).len() == 1);
        assert(wire::varint_bytes(FULL_STATE_TAG as u64).len() == 1);
        let a: usize = if self.client_id == 0 {
            0
        } else {
            1 + wire::pb_sizeof_varint(self.client_id as u64)
        };
        let b: usize = match &self.full_state {
            Some(u) => {
                let inner = u.get_size();
                1 + wire::pb_sizeof_len(inner)
            },
            None => 0,
        };
        a + b
    }
}

} // verus!
