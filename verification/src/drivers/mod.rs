//! What every transport driver has in common: the decisions of its receive
//! and send tasks, and its life cycle.
//!
//! A driver runs a receive task (transport to hub) and a send task (hub to
//! transport). Reading, writing, waiting and the bus itself are the
//! caller's; what to do with each outcome is decided here.

pub mod driver;
pub mod fake;
pub mod info;
pub mod lifecycle;
pub mod rest;
pub mod tcp;
pub mod udp;

use crate::protocol::{read_all_messages, Protocol};
use crate::frame::{consumed_of, frames_of};
use crate::stats::driver::{counted_all, side_after, side_view, DriverStatsInner};
use vstd::prelude::*;

verus! {

/// Delay before a driver tries to get its transport back, in milliseconds.
pub const RECONNECT_DELAY_MILLIS: u64 = 1000;

/// Whether a task goes on or ends. When either task of a driver ends, both
/// are torn down and the driver reconnects.
#[derive(Clone, Copy, Debug, PartialEq, Eq, Structural)]
pub enum TaskStep {
    Continue,
    Stop,
}

/// How a read from the transport ended.
#[derive(Clone, Copy, Debug, PartialEq, Eq, Structural)]
pub enum ReadOutcome {
    /// So many bytes were received. None means that the peer closed.
    Received { bytes: usize },
    /// The read failed.
    Failed,
}

/// How a write to the transport ended.
#[derive(Clone, Copy, Debug, PartialEq, Eq, Structural)]
pub enum WriteOutcome {
    /// The frame was written.
    Written,
    /// The peer refused the datagram.
    ConnectionRefused,
    /// Any other failure.
    Failed,
}

/// Why the bus handed no message to a subscriber.
#[derive(Clone, Copy, Debug, PartialEq, Eq, Structural)]
pub enum BusError {
    /// The subscriber fell behind and so many messages were dropped for it.
    Lagged { skipped: u64 },
    /// Every sender is gone.
    Closed,
}

/// What the send task does with a message from the bus.
#[derive(Clone, Copy, Debug, PartialEq, Eq, Structural)]
pub enum Delivery {
    /// Write the frame to the peer.
    Send,
    /// The message came from that peer: do not send it back.
    Skip,
}

/// Whether `message` came in from `peer`.
pub open spec fn came_from(message: Protocol, peer: Seq<char>) -> bool {
    message.origin@ == peer
}

/// Loopback suppression: a message is delivered to a peer unless it
/// originated at that peer.
pub fn delivery_to(message: &Protocol, peer: &String) -> (delivery: Delivery)
    ensures
        delivery == if came_from(*message, peer@) {
            Delivery::Skip
        } else {
            Delivery::Send
        },
        came_from(*message, peer@) ==> delivery != Delivery::Send,
{
    if message.origin == *peer {
        Delivery::Skip
    } else {
        Delivery::Send
    }
}

/// The receive task after a read: it goes on after data, and ends when the
/// peer closed or the read failed.
pub fn after_read(outcome: ReadOutcome) -> (step: TaskStep)
    ensures
        step == match outcome {
            ReadOutcome::Received { bytes } => if bytes > 0 {
                TaskStep::Continue
            } else {
                TaskStep::Stop
            },
            ReadOutcome::Failed => TaskStep::Stop,
        },
{
    match outcome {
        ReadOutcome::Received { bytes } => if bytes > 0 {
            TaskStep::Continue
        } else {
            TaskStep::Stop
        },
        ReadOutcome::Failed => TaskStep::Stop,
    }
}

/// How the send task goes on after a write: a refused datagram is passed
/// over, any other failure ends the task.
pub open spec fn step_after_write(outcome: WriteOutcome) -> TaskStep {
    match outcome {
        WriteOutcome::Written => TaskStep::Continue,
        WriteOutcome::ConnectionRefused => TaskStep::Continue,
        WriteOutcome::Failed => TaskStep::Stop,
    }
}

/// The send task after a write.
pub fn after_write(outcome: WriteOutcome) -> (step: TaskStep)
    ensures
        step == step_after_write(outcome),
{
    match outcome {
        WriteOutcome::Written => TaskStep::Continue,
        WriteOutcome::ConnectionRefused => TaskStep::Continue,
        WriteOutcome::Failed => TaskStep::Stop,
    }
}

/// Whether the output statistics count a write: only one that succeeded.
pub fn counts_as_sent(outcome: WriteOutcome) -> (counted: bool)
    ensures
        counted == (outcome == WriteOutcome::Written),
{
    match outcome {
        WriteOutcome::Written => true,
        _ => false,
    }
}

/// The send task after the bus handed it no message: a subscriber that
/// lagged goes on with the next message; once the bus is closed nothing
/// can arrive any more and the task ends.
pub fn after_bus_error(error: BusError) -> (step: TaskStep)
    ensures
        step == match error {
            BusError::Lagged { .. } => TaskStep::Continue,
            BusError::Closed => TaskStep::Stop,
        },
{
    match error {
        BusError::Lagged { .. } => TaskStep::Continue,
        BusError::Closed => TaskStep::Stop,
    }
}

/// The work of a receive task on what it has read: cuts the complete
/// frames out of `buf`, where the bytes read were appended, and counts each
/// as input. The messages are the ones to hand to the input callbacks and
/// to publish, in order.
pub fn receive(stats: &mut DriverStatsInner, origin: &str, buf: &mut Vec<u8>) -> (messages: Vec<
    Protocol,
>)
    ensures
        messages@.len() == frames_of(old(buf)@).len(),
        forall|i: int|
            0 <= i < messages@.len() ==> (#[trigger] messages@[i]).packet@ == frames_of(
                old(buf)@,
            )[i],
        forall|i: int| 0 <= i < messages@.len() ==> (#[trigger] messages@[i]).origin@ == origin@,
        consumed_of(old(buf)@) <= old(buf)@.len(),
        final(buf)@ == old(buf)@.subrange(
            consumed_of(old(buf)@) as int,
            old(buf)@.len() as int,
        ),
        side_view(final(stats).input) == counted_all(side_view(old(stats).input), messages@),
        final(stats).output == old(stats).output,
{
    let messages = read_all_messages(origin, buf);
    stats.update_input_all(&messages);
    messages
}

/// The work of a send task after it wrote `message`: a write that
/// succeeded is counted as output, and the outcome decides whether the task
/// goes on.
pub fn record_write(stats: &mut DriverStatsInner, message: &Protocol, outcome: WriteOutcome) -> (step:
    TaskStep)
    ensures
        step == step_after_write(outcome),
        final(stats).input == old(stats).input,
        outcome == WriteOutcome::Written ==> side_view(final(stats).output) == side_after(
            old(stats).output,
            *message,
        ),
        outcome != WriteOutcome::Written ==> final(stats).output == old(stats).output,
{
    if counts_as_sent(outcome) {
        stats.update_output(message);
    }
    after_write(outcome)
}

} // verus!
