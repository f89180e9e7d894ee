use mavlink_server::drivers::lifecycle::{next, DriverAction, DriverEvent, DriverState};
use mavlink_server::drivers::RECONNECT_DELAY_MILLIS;

const STATES: [DriverState; 4] = [
    DriverState::Created,
    DriverState::Running,
    DriverState::Reconnecting,
    DriverState::Stopped,
];

const EVENTS: [DriverEvent; 5] = [
    DriverEvent::Started,
    DriverEvent::TransportAcquired,
    DriverEvent::TransportFailed,
    DriverEvent::TaskEnded,
    DriverEvent::Cancelled,
];

#[test]
fn driver_starts_by_acquiring_its_transport() {
    assert_eq!(
        next(DriverState::Created, DriverEvent::Started),
        (DriverState::Running, DriverAction::Acquire)
    );
    assert_eq!(
        next(DriverState::Running, DriverEvent::TransportAcquired),
        (DriverState::Running, DriverAction::RunTasks)
    );
    // Nothing else moves a driver that was never run.
    for event in [
        DriverEvent::TransportAcquired,
        DriverEvent::TransportFailed,
        DriverEvent::TaskEnded,
    ] {
        assert_eq!(
            next(DriverState::Created, event),
            (DriverState::Created, DriverAction::Idle)
        );
    }
}

#[test]
fn driver_restart() {
    assert_eq!(RECONNECT_DELAY_MILLIS, 1000);
    // The transport is closed under a running driver: a task ends.
    let (state, action) = next(DriverState::Running, DriverEvent::TaskEnded);
    assert_eq!(state, DriverState::Reconnecting);
    assert_eq!(action, DriverAction::RetryAfter { millis: 1000 });
    // The transport comes back at the first try.
    let (state, action) = next(state, DriverEvent::TransportAcquired);
    assert_eq!(state, DriverState::Running);
    assert_eq!(action, DriverAction::RunTasks);
}

#[test]
fn driver_retries_until_the_transport_is_back() {
    let mut state = DriverState::Running;
    let mut waited = 0;
    for _ in 0..10 {
        let (then, action) = next(state, DriverEvent::TransportFailed);
        assert_eq!(then, DriverState::Reconnecting);
        match action {
            DriverAction::RetryAfter { millis } => waited += millis,
            other => panic!("{:?}", other),
        }
        state = then;
    }
    assert_eq!(waited, 10_000);
    assert_eq!(
        next(state, DriverEvent::TransportAcquired),
        (DriverState::Running, DriverAction::RunTasks)
    );
}

#[test]
fn driver_stops_on_cancellation_and_stays_stopped() {
    for state in [
        DriverState::Created,
        DriverState::Running,
        DriverState::Reconnecting,
    ] {
        assert_eq!(
            next(state, DriverEvent::Cancelled),
            (DriverState::Stopped, DriverAction::Teardown)
        );
    }
    for event in EVENTS {
        assert_eq!(
            next(DriverState::Stopped, event),
            (DriverState::Stopped, DriverAction::Idle)
        );
    }
}

#[test]
fn driver_is_started_once() {
    assert_eq!(
        next(DriverState::Running, DriverEvent::Started),
        (DriverState::Running, DriverAction::Idle)
    );
    assert_eq!(
        next(DriverState::Reconnecting, DriverEvent::Started),
        (DriverState::Reconnecting, DriverAction::Idle)
    );
}

#[test]
fn only_cancellation_leads_to_stopped() {
    for state in STATES {
        for event in EVENTS {
            let (then, _) = next(state, event);
            if then == DriverState::Stopped {
                assert!(state == DriverState::Stopped || event == DriverEvent::Cancelled);
            }
        }
    }
}
