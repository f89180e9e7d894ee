use mavlink_server::drivers::fake::FakeSource;
use mavlink_server::drivers::udp::client::UdpClient;
use mavlink_server::drivers::udp::server::{PeerTable, UdpServer};
use mavlink_server::drivers::{
    after_bus_error, after_read, after_write, counts_as_sent, delivery_to, BusError, Delivery,
    ReadOutcome, TaskStep, WriteOutcome,
};
use mavlink_server::packet::Packet;
use mavlink_server::protocol::Protocol;
use mavlink_server::stats::driver::DriverUuid;

fn frame_from(system_id: u8, component_id: u8, sequence: u8) -> Vec<u8> {
    let mut source = FakeSource::builder("frames", 1).build();
    source.sequence = sequence;
    let mut frame = source.emit().raw_bytes().to_vec();
    frame[5] = system_id;
    frame[6] = component_id;
    let crc = mavlink::calculate_crc(&frame[1..19], 50);
    frame[19..21].copy_from_slice(&crc.to_le_bytes());
    frame
}

fn sorted(mut addresses: Vec<String>) -> Vec<String> {
    addresses.sort();
    addresses
}

fn message_from(origin: &str) -> Protocol {
    Protocol::new_with_timestamp(
        7,
        origin,
        Packet::from_bytes(frame_from(9, 9, 0)).unwrap(),
    )
}

#[test]
fn peer_table_holds_one_address_per_system_and_component() {
    let mut table = PeerTable::new();
    assert_eq!(table.len(), 0);
    assert!(table.observe(1, 1, "10.0.0.1:1000"));
    assert!(table.observe(1, 2, "10.0.0.2:1000"));
    assert!(table.observe(2, 1, "10.0.0.3:1000"));
    assert_eq!(table.len(), 3);

    // Heard again, from the same and from another address: the last one wins.
    assert!(!table.observe(1, 1, "10.0.0.1:1000"));
    assert!(!table.observe(1, 2, "10.0.0.9:2000"));
    assert_eq!(table.len(), 3);

    assert_eq!(
        sorted(table.targets(&"nobody".to_string())),
        vec![
            "10.0.0.1:1000".to_string(),
            "10.0.0.3:1000".to_string(),
            "10.0.0.9:2000".to_string(),
        ]
    );
    assert_eq!(table.address_of(1, 1), Some(&"10.0.0.1:1000".to_string()));
    assert_eq!(table.address_of(1, 2), Some(&"10.0.0.9:2000".to_string()));
    assert_eq!(table.address_of(2, 1), Some(&"10.0.0.3:1000".to_string()));
    assert_eq!(table.address_of(2, 2), None);
    // System and component are not mixed up.
    assert_eq!(table.address_of(0, 1), None);
    assert!(table.observe(0, 1, "10.0.0.4:1000"));
    assert!(table.observe(255, 255, "10.0.0.5:1000"));
    assert!(table.observe(0, 0, "10.0.0.6:1000"));
    assert_eq!(table.len(), 6);
}

#[test]
fn peer_table_stays_unique_under_many_receives() {
    let mut table = PeerTable::new();
    for round in 0..20u32 {
        for system_id in 0..8u8 {
            for component_id in 0..4u8 {
                let address = format!("10.0.{}.{}:{}", system_id, component_id, round);
                let is_new = table.observe(system_id, component_id, &address);
                assert_eq!(is_new, round == 0);
            }
        }
        assert_eq!(table.len(), 32);
    }
    let targets = table.targets(&String::new());
    assert_eq!(targets.len(), 32);
    for target in &targets {
        assert!(target.ends_with(":19"));
    }
}

#[test]
fn peer_table_never_sends_back_to_the_origin() {
    let mut table = PeerTable::new();
    table.observe(1, 1, "a:1");
    table.observe(2, 1, "b:1");
    table.observe(3, 1, "a:1");
    table.observe(4, 1, "c:1");
    assert_eq!(
        sorted(table.targets(&"a:1".to_string())),
        vec!["b:1".to_string(), "c:1".to_string()]
    );
    assert_eq!(
        sorted(table.targets(&"b:1".to_string())),
        vec!["a:1".to_string(), "a:1".to_string(), "c:1".to_string()]
    );
    assert!(PeerTable::new().targets(&"a:1".to_string()).is_empty());
}

#[test]
fn udp_server_learns_its_peers_from_datagrams() {
    let mut server = UdpServer::new("127.0.0.1:14550");
    assert_eq!(server.local_addr, "127.0.0.1:14550");
    assert_eq!(server.clients.len(), 0);
    assert_eq!(server.uuid, DriverUuid::from_name("127.0.0.1:14550"));
    assert_eq!(server.stats.driver_type, "UdpServer");

    let mut datagram = frame_from(1, 1, 0);
    datagram.extend_from_slice(&frame_from(1, 2, 1));
    datagram.extend_from_slice(&frame_from(1, 1, 2)[..7]);
    let messages = server.on_datagram(datagram, "192.168.0.5:4000");

    assert_eq!(messages.len(), 2);
    assert_eq!(messages[0].origin, "192.168.0.5:4000");
    assert_eq!(messages[0].raw_bytes(), &frame_from(1, 1, 0)[..]);
    assert_eq!(messages[1].raw_bytes(), &frame_from(1, 2, 1)[..]);
    assert_eq!(server.clients.len(), 2);
    assert_eq!(server.stats.stats.input_messages(), 2);
    assert_eq!(server.stats.stats.input_total().bytes, 42);

    // The same system and component from a new address: still two peers.
    let messages = server.on_datagram(frame_from(1, 1, 3), "192.168.0.6:4000");
    assert_eq!(messages.len(), 1);
    assert_eq!(server.clients.len(), 2);
    assert_eq!(
        sorted(server.deliveries(&message_from("elsewhere"))),
        vec!["192.168.0.5:4000".to_string(), "192.168.0.6:4000".to_string()]
    );
    assert_eq!(
        server.clients.address_of(1, 1),
        Some(&"192.168.0.6:4000".to_string())
    );

    // Noise teaches nothing.
    let messages = server.on_datagram(vec![1, 2, 3], "192.168.0.7:4000");
    assert!(messages.is_empty());
    assert_eq!(server.clients.len(), 2);
    assert_eq!(server.stats.stats.input_messages(), 3);
}

#[test]
fn udp_client_server_echo() {
    let mut server = UdpServer::new("127.0.0.1:14550");
    let mut client = UdpClient::new("127.0.0.1:14550");
    let client_socket = "127.0.0.1:50000";

    // The client's first frame registers it with the server.
    let hello = frame_from(1, 1, 0);
    let seen_by_server = server.on_datagram(hello, client_socket);
    assert_eq!(seen_by_server.len(), 1);
    assert_eq!(server.clients.len(), 1);

    // A heartbeat injected into the bus with a synthetic origin.
    let injected = message_from("synthetic");

    // The server routes it to its single registered peer.
    let targets = server.deliveries(&injected);
    assert_eq!(targets, vec![client_socket.to_string()]);
    assert_eq!(
        server.on_written(&injected, WriteOutcome::Written),
        TaskStep::Continue
    );
    assert_eq!(server.stats.stats.output_messages(), 1);

    // The client sends it on to the server as well: it came from neither.
    assert_eq!(
        client.delivery(&injected, &client.remote_addr.clone()),
        Delivery::Send
    );

    // What the server sent arrives at the client with the server as origin,
    // and the client does not send it back there.
    let mut buf = injected.raw_bytes().to_vec();
    let echoed = client.on_datagram(&mut buf, "127.0.0.1:14550");
    assert_eq!(echoed.len(), 1);
    assert!(buf.is_empty());
    assert_eq!(echoed[0].origin, "127.0.0.1:14550");
    assert_eq!(
        client.delivery(&echoed[0], &client.remote_addr.clone()),
        Delivery::Skip
    );
    assert_eq!(client.stats.stats.input_messages(), 1);
    assert_eq!(client.stats.stats.output_messages(), 0);

    // And the server does not send the client's own frames back to it.
    assert!(server.deliveries(&seen_by_server[0]).is_empty());
}

#[test]
fn udp_client_keeps_partial_frames_between_datagrams() {
    let mut client = UdpClient::new("10.1.1.1:14550");
    assert_eq!(client.remote_addr, "10.1.1.1:14550");
    assert_eq!(client.uuid, DriverUuid::from_name("10.1.1.1:14550"));
    assert_eq!(client.stats.driver_type, "UdpClient");
    assert_eq!(client.stats.name, "10.1.1.1:14550");

    let frame = frame_from(3, 4, 5);
    let mut buf = frame[..12].to_vec();
    assert!(client.on_datagram(&mut buf, "10.1.1.1:14550").is_empty());
    assert_eq!(buf.len(), 12);
    buf.extend_from_slice(&frame[12..]);
    let messages = client.on_datagram(&mut buf, "10.1.1.1:14550");
    assert_eq!(messages.len(), 1);
    assert_eq!(messages[0].packet.system_id(), 3);
    assert_eq!(messages[0].packet.component_id(), 4);
    assert!(buf.is_empty());
    assert_eq!(client.stats.stats.input_messages(), 1);
}

#[test]
fn loopback_is_suppressed_by_origin() {
    let message = message_from("10.0.0.1:14550");
    assert_eq!(
        delivery_to(&message, &"10.0.0.1:14550".to_string()),
        Delivery::Skip
    );
    assert_eq!(
        delivery_to(&message, &"10.0.0.1:14551".to_string()),
        Delivery::Send
    );
    assert_eq!(delivery_to(&message, &String::new()), Delivery::Send);
}

#[test]
fn send_task_survives_refused_datagrams_only() {
    assert_eq!(after_write(WriteOutcome::Written), TaskStep::Continue);
    assert_eq!(
        after_write(WriteOutcome::ConnectionRefused),
        TaskStep::Continue
    );
    assert_eq!(after_write(WriteOutcome::Failed), TaskStep::Stop);
    assert!(counts_as_sent(WriteOutcome::Written));
    assert!(!counts_as_sent(WriteOutcome::ConnectionRefused));
    assert!(!counts_as_sent(WriteOutcome::Failed));

    let mut client = UdpClient::new("10.1.1.1:14550");
    let message = message_from("bus");
    assert_eq!(
        client.on_written(&message, WriteOutcome::ConnectionRefused),
        TaskStep::Continue
    );
    assert_eq!(client.stats.stats.output_messages(), 0);
    assert_eq!(
        client.on_written(&message, WriteOutcome::Written),
        TaskStep::Continue
    );
    assert_eq!(client.stats.stats.output_messages(), 1);
    assert_eq!(client.stats.stats.output_total().bytes, 21);
    assert_eq!(
        client.on_written(&message, WriteOutcome::Failed),
        TaskStep::Stop
    );
    assert_eq!(client.stats.stats.output_messages(), 1);
}

#[test]
fn receive_task_ends_when_the_peer_closes() {
    assert_eq!(
        after_read(ReadOutcome::Received { bytes: 21 }),
        TaskStep::Continue
    );
    assert_eq!(
        after_read(ReadOutcome::Received { bytes: 0 }),
        TaskStep::Stop
    );
    assert_eq!(after_read(ReadOutcome::Failed), TaskStep::Stop);
}

#[test]
fn lagging_subscriber_goes_on() {
    assert_eq!(
        after_bus_error(BusError::Lagged { skipped: 10_000 }),
        TaskStep::Continue
    );
    assert_eq!(after_bus_error(BusError::Closed), TaskStep::Stop);
}
