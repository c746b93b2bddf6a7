//! The decisions of the send loop. Two queues feed it: impulse messages
//! (sent once each, such as a click) and constant messages (of which only
//! one is sent per tick, such as the mouse position). Each round the loop
//! sends the next impulse message, if any; then takes the next constant
//! message, drops the others queued behind it, and sends it unless it is
//! empty, then waits for the next tick. A closed queue ends the loop.
use vstd::prelude::*;

verus! {

/// What one poll of a message queue found.
#[derive(Debug)]
pub enum Poll {
    /// A message, taken off the queue.
    Message(Vec<u8>),
    /// The queue is empty for now.
    Empty,
    /// The queue is closed: its sender is gone.
    Disconnected,
}

/// Where the send loop stands, that is, which queue it polls next.
#[derive(Debug, PartialEq, Eq)]
pub enum BroadcastState {
    /// About to poll the impulse queue.
    PollImpulse,
    /// About to poll the constant queue.
    PollConstant,
    /// Dropping the constant messages queued behind `pending`, which is the
    /// one to send.
    Drain { pending: Vec<u8> },
    /// The loop has ended.
    Stopped,
}

/// What the loop does after one poll: it sends `send` when there is one,
/// then waits for the next tick when `tick` holds, then goes on in `next`.
#[derive(Debug)]
pub struct BroadcastStep {
    pub next: BroadcastState,
    pub send: Option<Vec<u8>>,
    pub tick: bool,
}

/// One step of the send loop: from where it stands and what the poll of the
/// queue that it polls found, to what it does and where it goes.
pub fn broadcast_step(state: BroadcastState, poll: Poll) -> (r: BroadcastStep)
    ensures
        match state {
            BroadcastState::Stopped => r.next is Stopped && r.send is None && !r.tick,
            BroadcastState::PollImpulse => match poll {
                Poll::Message(m) => r.next is PollConstant && r.send == Some(m) && !r.tick,
                Poll::Empty => r.next is PollConstant && r.send is None && !r.tick,
                Poll::Disconnected => r.next is Stopped && r.send is None && !r.tick,
            },
            BroadcastState::PollConstant => match poll {
                Poll::Message(m) => (r.next matches BroadcastState::Drain { pending }
                    && pending == m) && r.send is None && !r.tick,
                Poll::Empty => r.next is PollImpulse && r.send is None && r.tick,
                Poll::Disconnected => r.next is Stopped && r.send is None && !r.tick,
            },
            BroadcastState::Drain { pending } => match poll {
                Poll::Message(_) => (r.next matches BroadcastState::Drain { pending: p }
                    && p == pending) && r.send is None && !r.tick,
                Poll::Empty => if pending@.len() == 0 {
                    r.next is PollImpulse && r.send is None && !r.tick
                } else {
                    r.next is PollImpulse && r.send == Some(pending) && r.tick
                },
                Poll::Disconnected => r.next is Stopped && r.send is None && !r.tick,
            },
        },
{
    match state {
        BroadcastState::Stopped => BroadcastStep { next: BroadcastState::Stopped, send: None, tick: false },
        BroadcastState::PollImpulse => match poll {
            Poll::Message(m) => BroadcastStep { next: BroadcastState::PollConstant, send: Some(m), tick: false },
            Poll::Empty => BroadcastStep { next: BroadcastState::PollConstant, send: None, tick: false },
            Poll::Disconnected => BroadcastStep { next: BroadcastState::Stopped, send: None, tick: false },
        },
        BroadcastState::PollConstant => match poll {
            Poll::Message(m) => BroadcastStep {
                next: BroadcastState::Drain { pending: m },
                send: None,
                tick: false,
            },
            Poll::Empty => BroadcastStep { next: BroadcastState::PollImpulse, send: None, tick: true },
            Poll::Disconnected => BroadcastStep { next: BroadcastState::Stopped, send: None, tick: false },
        },
        BroadcastState::Drain { pending } => match poll {
            Poll::Message(_) => BroadcastStep {
                next: BroadcastState::Drain { pending },
                send: None,
                tick: false,
            },
            Poll::Empty => {
                if pending.len() == 0 {
                    BroadcastStep { next: BroadcastState::PollImpulse, send: None, tick: false }
                } else {
                    BroadcastStep { next: BroadcastState::PollImpulse, send: Some(pending), tick: true }
                }
            },
            Poll::Disconnected => BroadcastStep { next: BroadcastState::Stopped, send: None, tick: false },
        },
    }
}

} // verus!
