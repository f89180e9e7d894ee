use mavlink_server::callbacks::{verdict, Callbacks, Verdict};
use mavlink_server::drivers::driver::{create_driver, Driver, DriverKind};
use mavlink_server::drivers::info::EndpointUrl;

#[test]
fn observers_are_kept_in_the_order_of_registration() {
    let mut chain: Callbacks<&'static str> = Callbacks::new();
    assert_eq!(chain.len(), 0);
    assert!(chain.call_all().is_empty());
    chain.add_callback("first");
    chain.add_callback("second");
    chain.add_callback("first");
    assert_eq!(chain.len(), 3);
    assert_eq!(chain.call_all(), ["first", "second", "first"]);
}

#[test]
fn one_rejection_drops_the_message() {
    assert_eq!(verdict(&[]), Verdict::Deliver);
    assert_eq!(verdict(&[true]), Verdict::Deliver);
    assert_eq!(verdict(&[true, true, true]), Verdict::Deliver);
    assert_eq!(verdict(&[false]), Verdict::Drop);
    assert_eq!(verdict(&[true, false, true]), Verdict::Drop);
    assert_eq!(verdict(&[true, true, false]), Verdict::Drop);
}

#[test]
fn observers_decide_by_their_answers() {
    let mut chain: Callbacks<Box<dyn Fn(u32) -> Result<(), String>>> = Callbacks::new();
    chain.add_callback(Box::new(|_| Ok(())));
    chain.add_callback(Box::new(|n| {
        if n % 2 == 0 {
            Ok(())
        } else {
            Err("odd".to_string())
        }
    }));
    let ask = |n: u32| {
        let answers: Vec<bool> = chain
            .call_all()
            .iter()
            .map(|callback| callback(n).is_ok())
            .collect();
        verdict(&answers)
    };
    assert_eq!(ask(2), Verdict::Deliver);
    assert_eq!(ask(3), Verdict::Drop);
}

fn url(scheme: &str, host: Option<&str>, port: Option<u16>) -> EndpointUrl {
    EndpointUrl {
        scheme: scheme.to_string(),
        host: host.map(str::to_string),
        port,
        query: Vec::new(),
    }
}

#[test]
fn schemes_select_the_kind_of_driver() {
    let kinds = [
        ("udpc", DriverKind::UdpClient),
        ("udpclient", DriverKind::UdpClient),
        ("udpout", DriverKind::UdpClient),
        ("udps", DriverKind::UdpServer),
        ("udpserver", DriverKind::UdpServer),
        ("udpin", DriverKind::UdpServer),
        ("tcpc", DriverKind::TcpClient),
        ("tcpclient", DriverKind::TcpClient),
        ("rest", DriverKind::Rest),
        ("fakesrc", DriverKind::FakeSource),
        ("fakesource", DriverKind::FakeSource),
        ("fakes", DriverKind::FakeSource),
        ("fakec", DriverKind::FakeSink),
        ("fakesink", DriverKind::FakeSink),
        ("fakeclient", DriverKind::FakeSink),
    ];
    for (scheme, kind) in kinds {
        assert_eq!(DriverKind::from_scheme(&scheme.to_string()), Some(kind));
    }
    for scheme in ["", "udp", "http", "UDPC", "udpc ", "fake", "fakeserver", "serial"] {
        assert_eq!(DriverKind::from_scheme(&scheme.to_string()), None);
    }
    assert_eq!(DriverKind::UdpClient.name(), "UdpClient");
    assert_eq!(DriverKind::UdpServer.name(), "UdpServer");
    assert_eq!(DriverKind::TcpClient.name(), "TcpClient");
    assert_eq!(DriverKind::FakeSink.name(), "FakeSink");
    assert_eq!(DriverKind::FakeSource.name(), "FakeSource");
    assert_eq!(DriverKind::Rest.name(), "Rest");
}

#[test]
fn endpoints_make_their_drivers() {
    match create_driver(&url("udpout", Some("10.0.0.1"), Some(14550))) {
        Some(Driver::UdpClient(client)) => assert_eq!(client.remote_addr, "10.0.0.1:14550"),
        other => panic!("{:?}", other),
    }
    match create_driver(&url("udpin", Some("0.0.0.0"), Some(14551))) {
        Some(Driver::UdpServer(server)) => assert_eq!(server.local_addr, "0.0.0.0:14551"),
        other => panic!("{:?}", other),
    }
    match create_driver(&url("tcpclient", Some("host"), Some(5760))) {
        Some(Driver::TcpClient(client)) => assert_eq!(client.remote_addr, "host:5760"),
        other => panic!("{:?}", other),
    }
    assert!(matches!(
        create_driver(&url("rest", Some("0.0.0.0"), Some(8000))),
        Some(Driver::Rest(_))
    ));
    assert!(matches!(
        create_driver(&url("fakec", None, None)),
        Some(Driver::FakeSink(_))
    ));
    let mut with_period = url("fakes", Some("heartbeat"), None);
    with_period.query = vec![("period".to_string(), "250".to_string())];
    match create_driver(&with_period) {
        Some(Driver::FakeSource(source)) => assert_eq!(source.period_micros, 250_000),
        other => panic!("{:?}", other),
    }
    assert!(create_driver(&url("udpc", Some("10.0.0.1"), None)).is_none());
    assert!(create_driver(&url("tcpc", None, Some(1))).is_none());
    assert!(create_driver(&url("serial", Some("x"), Some(1))).is_none());
}
