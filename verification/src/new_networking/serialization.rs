//! Framing of the messages on the websocket: one header byte that tells the
//! message's kind, then the message's protobuf encoding.
use vstd::prelude::*;
use vstd::slice::slice_to_vec;
use crate::wire;

verus! {

/// The bytes of a framed message.
pub open spec fn framed(header: u8, body: Seq<u8>) -> Seq<u8> {
    seq![header] + body
}

/// Frames an encoded message for the websocket: `message_header`, then the
/// message's bytes.
pub fn proto_serialize(data: &[u8], message_header: u8) -> (out: Vec<u8>)
    ensures
        out@ == framed(message_header, data@),
{
    let mut out: Vec<u8> = Vec::new();
    let r = wire::pb_write_u8(&mut out, message_header);
    let mut body = slice_to_vec(data);
    out.append(&mut body);
    assert(out@ =~= framed(message_header, data@));
    out
}

/// Splits a received frame into its header and its body; `None` for an
/// empty frame.
pub fn split_header(msg: Vec<u8>) -> (r: Option<(u8, Vec<u8>)>)
    ensures
        msg@.len() == 0 ==> r is None,
        msg@.len() > 0 ==> (r matches Some((h, body)) && h == msg@[0] && body@ == msg@.drop_first()),
{
    let mut msg = msg;
    if msg.len() == 0 {
        return None;
    }
    let ghost whole = msg@;
    let header = msg.remove(0);
    assert(msg@ =~= whole.drop_first());
    Some((header, msg))
}

/// Splitting a framed message gives back its header and its body.
pub proof fn lemma_split_framed(header: u8, body: Seq<u8>)
    ensures
        framed(header, body).len() > 0,
        framed(header, body)[0] == header,
        framed(header, body).drop_first() == body,
{
    assert(framed(header, body).drop_first() =~= body);
}

} // verus!
