use mavlink_server::drivers::fake::{FakeSink, FakeSource};
use mavlink_server::drivers::{after_bus_error, BusError, TaskStep};
use mavlink_server::protocol::Protocol;
use std::sync::Arc;
use tokio::sync::broadcast;
use tokio::sync::broadcast::error::TryRecvError;

#[test]
fn bus_lag() {
    let (sender, mut subscriber) = broadcast::channel::<Arc<Protocol>>(10_000);
    let mut source = FakeSource::builder("source", 1).build();
    let mut sink = FakeSink::builder("sink").build();

    // The subscriber sleeps while the source emits 20 000 messages.
    for _ in 0..20_000 {
        let message = Arc::new(source.emit());
        assert!(sender.send(message).is_ok());
    }

    let mut lag_signals = 0;
    let mut skipped_in_all = 0;
    let mut received: Vec<Arc<Protocol>> = Vec::new();
    loop {
        let step = match subscriber.try_recv() {
            Ok(message) => {
                sink.receive(&message);
                received.push(message);
                TaskStep::Continue
            }
            Err(TryRecvError::Lagged(skipped)) => {
                lag_signals += 1;
                skipped_in_all += skipped;
                after_bus_error(BusError::Lagged { skipped })
            }
            Err(TryRecvError::Closed) => after_bus_error(BusError::Closed),
            Err(TryRecvError::Empty) => break,
        };
        assert_eq!(step, TaskStep::Continue);
    }

    // The channel holds its capacity rounded up to a power of two, and
    // tells the subscriber how many messages it dropped before those.
    assert!(lag_signals >= 1);
    assert!(received.len() <= 16_384);
    assert!(skipped_in_all >= 20_000 - 16_384);
    assert_eq!(received.len() as u64 + skipped_in_all, 20_000);
    assert_eq!(sink.stats.stats.input_messages(), received.len() as u64);
    // What arrives after the gap arrives in order.
    for pair in received.windows(2) {
        assert_eq!(
            pair[1].packet.sequence(),
            pair[0].packet.sequence().wrapping_add(1)
        );
    }
}

#[test]
fn bus_keeps_the_order_of_one_ingress() {
    let (sender, mut first) = broadcast::channel::<Arc<Protocol>>(10_000);
    let mut second = sender.subscribe();
    let mut source = FakeSource::builder("source", 1).build();
    let mut published = Vec::new();
    for _ in 0..1_000 {
        let message = Arc::new(source.emit());
        published.push(message.clone());
        sender.send(message).unwrap();
    }
    for subscriber in [&mut first, &mut second] {
        let mut seen = Vec::new();
        while let Ok(message) = subscriber.try_recv() {
            seen.push(message);
        }
        assert_eq!(seen, published);
    }
}

#[test]
fn closed_bus_ends_the_send_task() {
    let (sender, mut subscriber) = broadcast::channel::<Arc<Protocol>>(16);
    drop(sender);
    match subscriber.try_recv() {
        Err(TryRecvError::Closed) => {
            assert_eq!(after_bus_error(BusError::Closed), TaskStep::Stop)
        }
        other => panic!("{:?}", other),
    }
}
