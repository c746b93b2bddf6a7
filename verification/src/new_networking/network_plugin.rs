//! The pieces that the networking plugin hands around: the plugin itself,
//! a synchronous channel, and the kinds of messages that the game listens to.
use vstd::prelude::*;

verus! {

/// The plugin that adds the websocket client to the game.
#[derive(Default, Copy, Clone, Debug)]
pub struct ClientPlugin;

/// The sending half of a channel of the `crossbeam_channel` crate.
#[verifier::external_type_specification]
#[verifier::external_body]
#[verifier::reject_recursive_types(T)]
pub struct ExCrossbeamSender<T>(crossbeam_channel::Sender<T>);

/// The receiving half of a channel of the `crossbeam_channel` crate.
#[verifier::external_type_specification]
#[verifier::external_body]
#[verifier::reject_recursive_types(T)]
pub struct ExCrossbeamReceiver<T>(crossbeam_channel::Receiver<T>);

/// Calls `crossbeam_channel::unbounded`: a new channel of unbounded capacity,
/// its two halves connected to each other. Nothing is claimed of them.
#[verifier::external_body]
fn unbounded_channel<T>() -> (crossbeam_channel::Sender<T>, crossbeam_channel::Receiver<T>) {
    crossbeam_channel::unbounded()
}

/// A channel that passes values between threads synchronously.
#[verifier::reject_recursive_types(T)]
pub struct SyncChannel<T> {
    pub sender: crossbeam_channel::Sender<T>,
    pub receiver: crossbeam_channel::Receiver<T>,
}

impl<T> SyncChannel<T> {
    /// A new, empty channel of unbounded capacity.
    pub fn new() -> Self {
        let (sender, receiver) = unbounded_channel();
        SyncChannel { sender, receiver }
    }
}

/// A kind of message that the server sends, told apart by its header byte.
pub trait NetworkMessage {
    /// The header byte of this kind of message.
    spec fn spec_header() -> u8;

    /// The header byte of this kind of message.
    fn header() -> (h: u8)
        ensures
            h == Self::spec_header(),
    ;
}

} // verus!
