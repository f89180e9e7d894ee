use mavlink_server::drivers::fake::FakeSource;
use mavlink_server::packet::Packet;
use mavlink_server::protocol::Protocol;
use mavlink_server::stats::driver::{DriverStats, DriverStatsInner, DriverUuid};
use mavlink_server::stats::{Counters, StatsInner};

fn message_with_id(message_id: u32, payload_len: u8, timestamp: u64) -> Protocol {
    let mut frame = vec![0u8; 12 + payload_len as usize];
    frame[0] = 0xFD;
    frame[1] = payload_len;
    frame[7] = message_id as u8;
    frame[8] = (message_id >> 8) as u8;
    frame[9] = (message_id >> 16) as u8;
    Protocol::new_with_timestamp(timestamp, "t", Packet::from_bytes(frame).unwrap())
}

#[test]
fn counters_count_bytes_messages_and_times() {
    let mut counters = Counters::new();
    assert_eq!(counters.messages, 0);
    assert_eq!(counters.bytes, 0);
    assert_eq!(counters.first_message_time, None);
    assert_eq!(counters.last_message_time, None);
    assert_eq!(counters.elapsed_micros(), None);

    counters.update(21, 1_000);
    assert_eq!(counters.messages, 1);
    assert_eq!(counters.bytes, 21);
    assert_eq!(counters.first_message_time, Some(1_000));
    assert_eq!(counters.last_message_time, Some(1_000));
    assert_eq!(counters.elapsed_micros(), Some(0));

    counters.update(30, 5_000);
    assert_eq!(counters.messages, 2);
    assert_eq!(counters.bytes, 51);
    assert_eq!(counters.first_message_time, Some(1_000));
    assert_eq!(counters.last_message_time, Some(5_000));
    assert_eq!(counters.elapsed_micros(), Some(4_000));
}

#[test]
fn counters_rates_are_counts_over_elapsed_time() {
    let mut counters = Counters::new();
    assert_eq!(counters.messages_per_second(), None);
    counters.update(100, 0);
    // One message: no time has passed.
    assert_eq!(counters.messages_per_second(), None);
    assert_eq!(counters.bytes_per_second(), None);
    counters.update(100, 1_000_000);
    counters.update(100, 2_000_000);
    // 3 messages and 300 bytes in 2 seconds, rounded down.
    assert_eq!(counters.messages_per_second(), Some(1));
    assert_eq!(counters.bytes_per_second(), Some(150));

    let fast = Counters {
        bytes: 2_100,
        messages: 100,
        first_message_time: Some(10),
        last_message_time: Some(260),
    };
    // 100 messages in 250 microseconds.
    assert_eq!(fast.messages_per_second(), Some(400_000));
    assert_eq!(fast.bytes_per_second(), Some(8_400_000));

    let huge = Counters {
        bytes: u64::MAX,
        messages: u64::MAX,
        first_message_time: Some(0),
        last_message_time: Some(1),
    };
    assert_eq!(huge.messages_per_second(), Some(u64::MAX));

    let backwards = Counters {
        bytes: 1,
        messages: 2,
        first_message_time: Some(10),
        last_message_time: Some(5),
    };
    assert_eq!(backwards.elapsed_micros(), None);
    assert_eq!(backwards.messages_per_second(), None);
}

#[test]
fn counters_saturate_and_never_decrease() {
    let mut counters = Counters {
        bytes: u64::MAX - 10,
        messages: u64::MAX - 1,
        first_message_time: Some(1),
        last_message_time: Some(2),
    };
    let mut last = counters;
    for step in 0..5u64 {
        counters.update(7, 3 + step);
        assert!(counters.messages >= last.messages);
        assert!(counters.bytes >= last.bytes);
        last = counters;
    }
    assert_eq!(counters.messages, u64::MAX);
    assert_eq!(counters.bytes, u64::MAX);
    assert_eq!(counters.first_message_time, Some(1));
    assert_eq!(counters.last_message_time, Some(7));
}

#[test]
fn counters_merge_sums_and_widens_the_interval() {
    let mut a = Counters {
        bytes: 10,
        messages: 1,
        first_message_time: Some(50),
        last_message_time: Some(60),
    };
    let b = Counters {
        bytes: 32,
        messages: 3,
        first_message_time: Some(40),
        last_message_time: Some(55),
    };
    a.merge(&b);
    assert_eq!(
        a,
        Counters {
            bytes: 42,
            messages: 4,
            first_message_time: Some(40),
            last_message_time: Some(60),
        }
    );
    let mut empty = Counters::new();
    empty.merge(&Counters::new());
    assert_eq!(empty, Counters::new());
    empty.merge(&b);
    assert_eq!(empty, b);
    let mut full = Counters {
        bytes: u64::MAX,
        messages: u64::MAX,
        first_message_time: None,
        last_message_time: None,
    };
    full.merge(&b);
    assert_eq!(full.bytes, u64::MAX);
    assert_eq!(full.messages, u64::MAX);
    assert_eq!(full.first_message_time, Some(40));
}

#[test]
fn stats_keep_a_histogram_by_message_id() {
    let mut stats = StatsInner::new();
    assert_eq!(stats.messages(), 0);
    assert_eq!(stats.bytes(), 0);
    assert_eq!(stats.first_message_time(), None);
    assert_eq!(stats.last_message_time(), None);
    assert_eq!(stats.for_message(0), None);
    assert!(stats.per_message_id().is_empty());

    stats.update(0, 21, 100);
    stats.update(30, 40, 200);
    stats.update(0, 21, 300);

    assert_eq!(stats.messages(), 3);
    assert_eq!(stats.bytes(), 82);
    assert_eq!(stats.first_message_time(), Some(100));
    assert_eq!(stats.last_message_time(), Some(300));
    assert_eq!(
        stats.total(),
        Counters {
            bytes: 82,
            messages: 3,
            first_message_time: Some(100),
            last_message_time: Some(300),
        }
    );
    assert_eq!(
        stats.for_message(0),
        Some(Counters {
            bytes: 42,
            messages: 2,
            first_message_time: Some(100),
            last_message_time: Some(300),
        })
    );
    assert_eq!(
        stats.for_message(30),
        Some(Counters {
            bytes: 40,
            messages: 1,
            first_message_time: Some(200),
            last_message_time: Some(200),
        })
    );
    assert_eq!(stats.for_message(1), None);
    let histogram = stats.per_message_id();
    assert_eq!(histogram.len(), 2);
    assert_eq!(histogram[&0].messages, 2);
    assert_eq!(histogram[&30].messages, 1);
    assert_eq!(stats.clone(), stats);
}

#[test]
fn driver_stats_count_each_direction_apart() {
    let mut stats = DriverStatsInner::new();
    assert!(stats.input.is_none());
    assert!(stats.output.is_none());
    assert_eq!(stats.input_messages(), 0);
    assert_eq!(stats.output_messages(), 0);
    assert_eq!(stats.input_first_message_time(), None);

    let heartbeat = message_with_id(0, 9, 1_000);
    let attitude = message_with_id(30, 28, 2_000);
    stats.update_input(&heartbeat);
    stats.update_input(&attitude);
    stats.update_output(&attitude);

    assert_eq!(stats.input_messages(), 2);
    assert_eq!(stats.output_messages(), 1);
    assert_eq!(stats.input_first_message_time(), Some(1_000));
    assert_eq!(stats.output_first_message_time(), Some(2_000));
    assert_eq!(stats.input_total().bytes, 21 + 40);
    assert_eq!(stats.output_total().bytes, 40);
    let input = stats.input.as_ref().unwrap();
    assert_eq!(input.for_message(0).unwrap().messages, 1);
    assert_eq!(input.for_message(30).unwrap().bytes, 40);
    let output = stats.output.as_ref().unwrap();
    assert_eq!(output.for_message(0), None);

    let copy = stats.clone();
    assert_eq!(copy, stats);
}

#[test]
fn driver_stats_count_a_batch_in_order() {
    let mut stats = DriverStatsInner::new();
    stats.update_input_all(&Vec::new());
    assert!(stats.input.is_none());
    let batch = vec![
        message_with_id(1, 0, 10),
        message_with_id(2, 1, 20),
        message_with_id(1, 2, 30),
    ];
    stats.update_input_all(&batch);
    assert_eq!(stats.input_messages(), 3);
    assert_eq!(stats.input_total().bytes, 12 + 13 + 14);
    assert_eq!(stats.input_total().first_message_time, Some(10));
    assert_eq!(stats.input_total().last_message_time, Some(30));
    assert!(stats.output.is_none());
}

#[test]
fn stats_reset() {
    let mut source = FakeSource::builder("t", 1).build();
    let mut stats = DriverStatsInner::new();
    for _ in 0..100 {
        let message = source.emit();
        stats.update_input(&message);
    }
    assert!(stats.input_messages() >= 100);
    assert!(stats.input_first_message_time().is_some());

    stats.reset();

    assert_eq!(stats.input_messages(), 0);
    assert_eq!(stats.input_first_message_time(), None);
    assert_eq!(stats.output_messages(), 0);
    assert!(stats.input.is_none());
    assert!(stats.output.is_none());
}

#[test]
fn stats_never_decrease_between_resets() {
    let mut stats = DriverStatsInner::new();
    let mut messages = 0;
    let mut bytes = 0;
    for i in 0..300u32 {
        stats.update_input(&message_with_id(i % 7, (i % 200) as u8, i as u64));
        let total = stats.input_total();
        assert!(total.messages >= messages);
        assert!(total.bytes >= bytes);
        messages = total.messages;
        bytes = total.bytes;
    }
    assert_eq!(messages, 300);
}

#[test]
fn driver_stats_carry_name_and_kind() {
    let stats = DriverStats::new("mine", "FakeSink");
    assert_eq!(stats.name, "mine");
    assert_eq!(stats.driver_type, "FakeSink");
    assert!(stats.stats.input.is_none());
    assert!(stats.stats.output.is_none());
    assert_eq!(stats.clone(), stats);
}

#[test]
fn driver_uuid_is_the_v5_uuid_of_the_name() {
    // The version-5 UUID of "example.org" in the DNS namespace.
    let expected = 0xaad03681_8b63_5304_89e0_8ca8f49461b5u128;
    assert_eq!(DriverUuid::from_name("example.org").value, expected);
    assert_eq!(
        DriverUuid::from_name("example.org"),
        DriverUuid::from_name("example.org")
    );
    assert_ne!(
        DriverUuid::from_name("a").value,
        DriverUuid::from_name("b").value
    );
    assert_eq!(
        uuid::Uuid::from_u128(DriverUuid::from_name("t").value),
        uuid::Uuid::new_v5(&uuid::Uuid::NAMESPACE_DNS, b"t")
    );
}

#[test]
fn stats_merge_adds_up_by_message_id() {
    let mut first = StatsInner::new();
    first.update(0, 21, 100);
    first.update(30, 40, 200);
    let mut second = StatsInner::new();
    second.update(30, 40, 50);
    second.update(33, 36, 400);

    first.merge(&second);

    assert_eq!(first.messages(), 4);
    assert_eq!(first.bytes(), 21 + 40 + 40 + 36);
    assert_eq!(first.first_message_time(), Some(50));
    assert_eq!(first.last_message_time(), Some(400));
    assert_eq!(first.per_message_id().len(), 3);
    assert_eq!(first.for_message(0).unwrap().messages, 1);
    assert_eq!(
        first.for_message(30),
        Some(Counters {
            bytes: 80,
            messages: 2,
            first_message_time: Some(50),
            last_message_time: Some(200),
        })
    );
    assert_eq!(first.for_message(33).unwrap().bytes, 36);

    let before = first.clone();
    first.merge(&StatsInner::new());
    assert_eq!(first, before);
}
