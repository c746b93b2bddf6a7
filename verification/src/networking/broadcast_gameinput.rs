//! The client input that the client sends.
use vstd::prelude::*;
use crate::new_networking::serialization::{framed, proto_serialize};

verus! {

/// The header of a client input frame.
pub const CLIENT_INPUT_HEADER: u8 = 1;

/// Frames an encoded client input for the websocket: the header byte 1,
/// then the input's bytes.
pub fn serialize_gameinput(input: &[u8]) -> (out: Vec<u8>)
    ensures
        out@ == framed(CLIENT_INPUT_HEADER, input@),
{
    proto_serialize(input, CLIENT_INPUT_HEADER)
}

} // verus!
