//! The decisions of the plain send loop: every queued message is sent.
use vstd::prelude::*;
use crate::networking::broadcast::Poll;

verus! {

/// What the plain send loop does after one poll of its queue.
#[derive(Debug, PartialEq, Eq)]
pub enum ForwardAction {
    /// Send this message to the server.
    Send(Vec<u8>),
    /// Nothing queued; poll again.
    Retry,
    /// The queue is closed; report it and poll again.
    ReportAndRetry,
}

/// Decides what the plain send loop does with what the poll found.
pub fn forward_step(poll: Poll) -> (a: ForwardAction)
    ensures
        match poll {
            Poll::Message(m) => a == ForwardAction::Send(m),
            Poll::Empty => a is Retry,
            Poll::Disconnected => a is ReportAndRetry,
        },
{
    match poll {
        Poll::Message(m) => ForwardAction::Send(m),
        Poll::Empty => ForwardAction::Retry,
        Poll::Disconnected => ForwardAction::ReportAndRetry,
    }
}

} // verus!
