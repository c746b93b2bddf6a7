//! The game input that the client sends.
use vstd::prelude::*;
use crate::new_networking::serialization::{framed, proto_serialize};

verus! {

/// The header of a game input frame.
pub const GAME_INPUT_HEADER: u8 = 0;

/// Frames an encoded game input for the websocket: the header byte 0, then
/// the input's bytes.
pub fn serialize_gameinput(input: &[u8]) -> (out: Vec<u8>)
    ensures
        out@ == framed(GAME_INPUT_HEADER, input@),
{
    proto_serialize(input, GAME_INPUT_HEADER)
}

} // verus!
