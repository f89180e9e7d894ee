use mavlink::ardupilotmega::{
    MavAutopilot, MavMessage, MavModeFlag, MavState, MavType, HEARTBEAT_DATA,
};
use mavlink::Message;
use mavlink_server::drivers::fake::{FakeSink, FakeSource};
use mavlink_server::protocol::Protocol;
use mavlink_server::stats::driver::DriverUuid;
use std::sync::Arc;
use tokio::sync::broadcast;

fn expected_heartbeat(sequence: u8) -> Vec<u8> {
    let header = mavlink::MavHeader {
        sequence,
        system_id: 1,
        component_id: 2,
    };
    let data = MavMessage::HEARTBEAT(HEARTBEAT_DATA {
        custom_mode: 5,
        mavtype: MavType::MAV_TYPE_QUADROTOR,
        autopilot: MavAutopilot::MAV_AUTOPILOT_ARDUPILOTMEGA,
        base_mode: MavModeFlag::MAV_MODE_FLAG_MANUAL_INPUT_ENABLED
            | MavModeFlag::MAV_MODE_FLAG_STABILIZE_ENABLED
            | MavModeFlag::MAV_MODE_FLAG_GUIDED_ENABLED
            | MavModeFlag::MAV_MODE_FLAG_CUSTOM_MODE_ENABLED,
        system_status: MavState::MAV_STATE_STANDBY,
        mavlink_version: 3,
    });
    let mut buf = Vec::new();
    mavlink::write_v2_msg(&mut buf, header, &data).unwrap();
    buf
}

#[test]
fn loopback_test() {
    let (hub_sender, _) = broadcast::channel::<Arc<Protocol>>(10000);

    let number_of_messages = 800;
    let timeout_time = std::time::Duration::from_secs(1);
    let started = std::time::Instant::now();

    let mut source_messages: Vec<Arc<Protocol>> = Vec::with_capacity(1000);
    let mut sink_messages: Vec<Arc<Protocol>> = Vec::with_capacity(1000);

    let mut sink = FakeSink::builder("test").build();
    let mut hub_receiver = hub_sender.subscribe();
    let mut source = FakeSource::builder("test", 1).build();

    while sink_messages.len() < number_of_messages {
        let message = Arc::new(source.emit());
        source_messages.push(message.clone());
        hub_sender.send(message).unwrap();

        while let Ok(message) = hub_receiver.try_recv() {
            sink.receive(&message);
            sink_messages.push(message);
        }
    }

    assert!(started.elapsed() < timeout_time);
    assert!(source_messages.len() >= number_of_messages);
    assert!(sink_messages.len() >= number_of_messages);
    assert_eq!(source_messages, sink_messages);

    assert_eq!(source.stats.stats.output_messages(), 800);
    assert_eq!(sink.stats.stats.input_messages(), 800);
    assert_eq!(source.stats.stats.input_messages(), 0);
    assert_eq!(sink.stats.stats.output_messages(), 0);
}

#[test]
fn fake_source_heartbeat_is_spelt_out() {
    let mut source = FakeSource::builder("bytes", 1).build();
    source.sequence = 0x2A;
    let message = source.emit();
    let body = [
        0xFDu8, 9, 0, 0, 0x2A, 1, 2, 0, 0, 0, 5, 0, 0, 0, 2, 3, 89, 3, 3,
    ];
    let crc = mavlink::calculate_crc(&body[1..], MavMessage::extra_crc(0));
    let mut expected = body.to_vec();
    expected.push((crc % 256) as u8);
    expected.push((crc / 256) as u8);
    assert_eq!(message.raw_bytes(), &expected[..]);
    assert_eq!(MavMessage::extra_crc(0), 50);
}

#[test]
fn fake_source_emits_the_heartbeat() {
    let mut source = FakeSource::builder("src", 10_000).build();
    assert_eq!(source.name, "src");
    assert_eq!(source.period_micros, 10_000);
    assert_eq!(source.sequence, 0);
    assert_eq!(source.uuid, DriverUuid::from_name("src"));
    assert_eq!(source.stats.name, "src");
    assert_eq!(source.stats.driver_type, "FakeSource");

    let message = source.emit();
    assert_eq!(message.origin, "FakeSource");
    assert_eq!(message.raw_bytes(), &expected_heartbeat(0)[..]);
    assert_eq!(message.raw_bytes().len(), 21);
    assert_eq!(message.packet.system_id(), 1);
    assert_eq!(message.packet.component_id(), 2);
    assert_eq!(message.packet.sequence(), 0);
    assert_eq!(message.packet.message_id(), 0);
    assert!(message.packet.has_valid_crc());
    assert_eq!(source.sequence, 1);

    let message = source.emit();
    assert_eq!(message.raw_bytes(), &expected_heartbeat(1)[..]);
    assert_eq!(source.sequence, 2);
    assert_eq!(source.stats.stats.output_messages(), 2);
    assert_eq!(source.stats.stats.output_total().bytes, 42);
    let output = source.stats.stats.output.as_ref().unwrap();
    assert_eq!(output.for_message(0).unwrap().messages, 2);
    assert!(source.stats.stats.input.is_none());
}

#[test]
fn fake_source_sequence_wraps_after_255() {
    let mut source = FakeSource::builder("wrap", 1).build();
    for expected in 0..=255u8 {
        let message = source.emit();
        assert_eq!(message.packet.sequence(), expected);
    }
    assert_eq!(source.sequence, 0);
    let message = source.emit();
    assert_eq!(message.packet.sequence(), 0);
    assert_eq!(message.raw_bytes(), &expected_heartbeat(0)[..]);
    assert_eq!(source.sequence, 1);
    assert_eq!(source.stats.stats.output_messages(), 257);
}

#[test]
fn fake_sink_counts_and_says_whether_to_print() {
    let mut quiet = FakeSink::builder("quiet").build();
    let mut loud = FakeSink::builder("loud").print().build();
    assert!(!quiet.print);
    assert!(loud.print);
    assert_eq!(loud.name, "loud");
    assert_eq!(loud.uuid, DriverUuid::from_name("loud"));
    assert_eq!(loud.stats.driver_type, "FakeSink");
    assert_eq!(loud.stats.name, "loud");

    let mut source = FakeSource::builder("s", 1).build();
    let message = source.emit();
    assert!(!quiet.receive(&message));
    assert!(loud.receive(&message));
    assert!(loud.receive(&message));
    assert_eq!(quiet.stats.stats.input_messages(), 1);
    assert_eq!(loud.stats.stats.input_messages(), 2);
    assert_eq!(loud.stats.stats.input_total().bytes, 42);
    assert_eq!(
        loud.stats.stats.input_first_message_time(),
        Some(message.timestamp)
    );
    assert!(loud.stats.stats.output.is_none());
}
