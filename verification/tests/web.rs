use mavlink_server::web::broadcast_recipients;
use mavlink_server::drivers::rest::parameters::{firmware_and_version, PARAMETERS_FILE};
use mavlink_server::web::endpoints::{
    file_or_index, Info, InfoContent, MAVLinkHelperQuery, WebsocketQuery,
};

#[test]
fn info_has_the_version_of_the_interface() {
    let service = InfoContent {
        name: "mavlink-server".to_string(),
        version: "0.0.0".to_string(),
        sha: "abcdef".to_string(),
        build_date: "today".to_string(),
        authors: "someone".to_string(),
    };
    let info = Info::new(service.clone());
    assert_eq!(info.version, 0);
    assert_eq!(info.service, service);
    assert_eq!(Info::default().version, 0);
    assert_eq!(Info::default().service, InfoContent::default());
}

#[test]
fn websocket_filter_defaults_to_everything() {
    let all = WebsocketQuery { filter: None };
    assert_eq!(all.filter_or_all(), ".*");
    let some = WebsocketQuery {
        filter: Some("HEARTBEAT|ATTITUDE".to_string()),
    };
    assert_eq!(some.filter_or_all(), "HEARTBEAT|ATTITUDE");
    let query = MAVLinkHelperQuery {
        name: "HEARTBEAT".to_string(),
    };
    assert_eq!(query.name, "HEARTBEAT");
}

#[test]
fn websocket_messages_go_to_everyone_but_the_sender() {
    let clients = vec![10u128, 20, 30, 40];
    assert_eq!(broadcast_recipients(&clients, 20), vec![10, 30, 40]);
    assert_eq!(broadcast_recipients(&clients, 10), vec![20, 30, 40]);
    assert_eq!(broadcast_recipients(&clients, 99), vec![10, 20, 30, 40]);
    assert!(broadcast_recipients(&Vec::new(), 1).is_empty());
    assert!(broadcast_recipients(&vec![1], 1).is_empty());
}

#[test]
fn requests_without_a_file_get_the_index_page() {
    assert_eq!(file_or_index(None), "index.html");
    assert_eq!(file_or_index(Some("")), "index.html");
    assert_eq!(file_or_index(Some("app.js")), "app.js");
    assert_eq!(file_or_index(Some("index.html")), "index.html");
}

#[test]
fn parameter_folders_name_firmware_and_version() {
    assert_eq!(PARAMETERS_FILE, "apm.pdef.json");
    assert_eq!(
        firmware_and_version("Copter-4.3"),
        Some(("Copter".to_string(), "4.3".to_string()))
    );
    assert_eq!(
        firmware_and_version("Rover-4.2-beta"),
        Some(("Rover".to_string(), "4.2".to_string()))
    );
    assert_eq!(
        firmware_and_version("Sub-"),
        Some(("Sub".to_string(), String::new()))
    );
    assert_eq!(
        firmware_and_version("-4.0"),
        Some((String::new(), "4.0".to_string()))
    );
    assert_eq!(
        firmware_and_version("Flugzeug\u{00e4}-1.0"),
        Some(("Flugzeug\u{00e4}".to_string(), "1.0".to_string()))
    );
    assert_eq!(firmware_and_version("Copter"), None);
    assert_eq!(firmware_and_version(""), None);
}
