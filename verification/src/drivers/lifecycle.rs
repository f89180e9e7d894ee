//! The life cycle of a driver: `Created -> Running <-> Reconnecting -> Stopped`.
//!
//! A driver that runs keeps its transport and its two tasks alive by
//! itself. When a task ends or the transport cannot be had, it waits for
//! [`RECONNECT_DELAY_MILLIS`] and tries again; only a cancellation stops it.

use super::RECONNECT_DELAY_MILLIS;
use vstd::prelude::*;

verus! {

/// Where a driver stands.
#[derive(Clone, Copy, Debug, PartialEq, Eq, Structural)]
pub enum DriverState {
    /// Built, not yet run.
    Created,
    /// Running: acquiring its transport, or with both tasks at work.
    Running,
    /// Without transport, waiting to try again.
    Reconnecting,
    /// Cancelled. A stopped driver stays stopped.
    Stopped,
}

/// What happens to a driver.
#[derive(Clone, Copy, Debug, PartialEq, Eq, Structural)]
pub enum DriverEvent {
    /// The driver is run for the first time.
    Started,
    /// The transport was bound, opened or connected.
    TransportAcquired,
    /// The transport could not be bound, opened or connected.
    TransportFailed,
    /// The receive task or the send task ended.
    TaskEnded,
    /// The hub removes the driver or shuts down.
    Cancelled,
}

/// What the driver's runner does next.
#[derive(Clone, Copy, Debug, PartialEq, Eq, Structural)]
pub enum DriverAction {
    /// Nothing.
    Idle,
    /// Try to acquire the transport.
    Acquire,
    /// Subscribe to the bus and run the receive and the send task.
    RunTasks,
    /// Tear both tasks down, wait so many milliseconds, then try to acquire
    /// the transport again.
    RetryAfter { millis: u64 },
    /// Tear both tasks down for good.
    Teardown,
}

/// The transition function of the life cycle.
pub open spec fn step(state: DriverState, event: DriverEvent) -> (DriverState, DriverAction) {
    match (state, event) {
        (DriverState::Stopped, _) => (DriverState::Stopped, DriverAction::Idle),
        (_, DriverEvent::Cancelled) => (DriverState::Stopped, DriverAction::Teardown),
        (DriverState::Created, DriverEvent::Started) => (
            DriverState::Running,
            DriverAction::Acquire,
        ),
        (DriverState::Created, _) => (DriverState::Created, DriverAction::Idle),
        (_, DriverEvent::Started) => (state, DriverAction::Idle),
        (_, DriverEvent::TransportAcquired) => (DriverState::Running, DriverAction::RunTasks),
        (_, DriverEvent::TransportFailed) => (
            DriverState::Reconnecting,
            DriverAction::RetryAfter { millis: RECONNECT_DELAY_MILLIS },
        ),
        (_, DriverEvent::TaskEnded) => (
            DriverState::Reconnecting,
            DriverAction::RetryAfter { millis: RECONNECT_DELAY_MILLIS },
        ),
    }
}

/// The state of a driver after `events`, in order, from `state`.
pub open spec fn state_after(state: DriverState, events: Seq<DriverEvent>) -> DriverState
    decreases events.len(),
{
    if events.len() == 0 {
        state
    } else {
        step(state_after(state, events.drop_last()), events.last()).0
    }
}

/// The state that follows `state` on `event`, and what to do then.
pub fn next(state: DriverState, event: DriverEvent) -> (result: (DriverState, DriverAction))
    ensures
        result == step(state, event),
{
    match state {
        DriverState::Stopped => (DriverState::Stopped, DriverAction::Idle),
        DriverState::Created => match event {
            DriverEvent::Cancelled => (DriverState::Stopped, DriverAction::Teardown),
            DriverEvent::Started => (DriverState::Running, DriverAction::Acquire),
            _ => (DriverState::Created, DriverAction::Idle),
        },
        DriverState::Running | DriverState::Reconnecting => match event {
            DriverEvent::Cancelled => (DriverState::Stopped, DriverAction::Teardown),
            DriverEvent::Started => (state, DriverAction::Idle),
            DriverEvent::TransportAcquired => (DriverState::Running, DriverAction::RunTasks),
            DriverEvent::TransportFailed | DriverEvent::TaskEnded => (
                DriverState::Reconnecting,
                DriverAction::RetryAfter { millis: RECONNECT_DELAY_MILLIS },
            ),
        },
    }
}

/// Restart: a running driver of which a task ends waits one reconnect delay
/// and is running again, with both tasks, as soon as its transport is
/// acquired. No event from the hub is needed for that.
pub proof fn lemma_restart()
    ensures
        step(DriverState::Running, DriverEvent::TaskEnded) == (
            DriverState::Reconnecting,
            DriverAction::RetryAfter { millis: RECONNECT_DELAY_MILLIS },
        ),
        step(DriverState::Reconnecting, DriverEvent::TransportAcquired) == (
            DriverState::Running,
            DriverAction::RunTasks,
        ),
        state_after(
            DriverState::Running,
            seq![DriverEvent::TaskEnded, DriverEvent::TransportAcquired],
        ) == DriverState::Running,
{
    let events = seq![DriverEvent::TaskEnded, DriverEvent::TransportAcquired];
    assert(events.drop_last() =~= seq![DriverEvent::TaskEnded]);
    assert(events.drop_last().drop_last() =~= Seq::<DriverEvent>::empty());
    reveal_with_fuel(state_after, 3);
}

/// A driver that is not stopped and loses its transport any number of times
/// without being cancelled is reconnecting or running: it never gives up.
pub proof fn lemma_never_gives_up(state: DriverState, events: Seq<DriverEvent>)
    requires
        state == DriverState::Running || state == DriverState::Reconnecting,
        forall|i: int| 0 <= i < events.len() ==> events[i] != DriverEvent::Cancelled,
    ensures
        state_after(state, events) == DriverState::Running || state_after(state, events)
            == DriverState::Reconnecting,
    decreases events.len(),
{
    if events.len() > 0 {
        lemma_never_gives_up(state, events.drop_last());
    }
}

/// Cancellation stops a driver in any state, and a stopped driver stays
/// stopped whatever happens.
pub proof fn lemma_cancelled_stays_stopped(
    state: DriverState,
    before: Seq<DriverEvent>,
    after: Seq<DriverEvent>,
)
    ensures
        state_after(state, before.push(DriverEvent::Cancelled) + after) == DriverState::Stopped,
    decreases after.len(),
{
    let events = before.push(DriverEvent::Cancelled) + after;
    if after.len() == 0 {
        assert(events =~= before.push(DriverEvent::Cancelled));
        assert(events.drop_last() =~= before);
    } else {
        assert(events.drop_last() =~= before.push(DriverEvent::Cancelled) + after.drop_last());
        lemma_cancelled_stays_stopped(state, before, after.drop_last());
    }
}

} // verus!
