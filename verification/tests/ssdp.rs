use wlin_pronet::upnp::ssdp::{
    Received, SsdpClient, SsdpDevice, SsdpNotification, SsdpNotificationListener,
};
use wlin_pronet::ErrorKind;

fn parse_response(text: &str) -> Option<SsdpDevice> {
    SsdpClient::parse_response(text)
}

fn parse_notification(text: &str) -> Option<SsdpNotification> {
    SsdpNotificationListener::parse_notification(text)
}

fn device(location: &str, usn: &str, server: &str, st: &str, cache_control: &str) -> SsdpDevice {
    SsdpDevice {
        location: location.to_string(),
        usn: usn.to_string(),
        server: server.to_string(),
        st: st.to_string(),
        cache_control: cache_control.to_string(),
    }
}

#[test]
fn search_response_with_all_headers() {
    let text = "HTTP/1.1 200 OK\r\nLOCATION: http://192.168.1.1:80/desc.xml\r\nUSN: uuid:abc::upnp:rootdevice\r\nSERVER: TestServer/1.0\r\nST: upnp:rootdevice\r\nCACHE-CONTROL: max-age=1800\r\n\r\n";
    assert_eq!(
        parse_response(text),
        Some(device(
            "http://192.168.1.1:80/desc.xml",
            "uuid:abc::upnp:rootdevice",
            "TestServer/1.0",
            "upnp:rootdevice",
            "max-age=1800",
        ))
    );
}

#[test]
fn search_response_without_location_is_dropped() {
    let text = "HTTP/1.1 200 OK\r\nUSN: uuid:abc\r\nST: upnp:rootdevice\r\n\r\n";
    assert_eq!(parse_response(text), None);
}

#[test]
fn search_response_with_other_status_is_dropped() {
    let text = "HTTP/1.1 404 Not Found\r\nLOCATION: http://192.168.1.1/desc.xml\r\n\r\n";
    assert_eq!(parse_response(text), None);
    assert_eq!(parse_response(""), None);
}

#[test]
fn search_response_headers_ignore_case_and_space() {
    let text = "HTTP/1.1 200 OK\nlocation:http://10.0.0.2/d.xml\n  Usn :  uuid:x  \nsT: a:b:c\n";
    assert_eq!(
        parse_response(text),
        Some(device("http://10.0.0.2/d.xml", "uuid:x", "", "a:b:c", ""))
    );
}

#[test]
fn search_response_last_header_wins() {
    let text = "HTTP/1.1 200 OK\r\nLOCATION: http://a/\r\nLOCATION: http://b/\r\n";
    assert_eq!(parse_response(text).unwrap().location, "http://b/");
    let emptied = "HTTP/1.1 200 OK\r\nLOCATION: http://a/\r\nLOCATION:\r\n";
    assert_eq!(parse_response(emptied), None);
}

#[test]
fn notification_alive() {
    let text = "NOTIFY * HTTP/1.1\r\nHOST: 239.255.255.250:1900\r\nNT: upnp:rootdevice\r\nNTS: ssdp:alive\r\nLOCATION: http://192.168.1.9/desc.xml\r\nUSN: uuid:9\r\nSERVER: S/1\r\nCACHE-CONTROL: max-age=60\r\n\r\n";
    assert_eq!(
        parse_notification(text),
        Some(SsdpNotification::Alive(device(
            "http://192.168.1.9/desc.xml",
            "uuid:9",
            "S/1",
            "upnp:rootdevice",
            "max-age=60",
        )))
    );
}

#[test]
fn notification_byebye() {
    let text = "NOTIFY * HTTP/1.1\r\nNT: upnp:rootdevice\r\nNTS: ssdp:byebye\r\nUSN: uuid:9\r\nLOCATION: http://ignored/\r\n\r\n";
    assert_eq!(
        parse_notification(text),
        Some(SsdpNotification::ByeBye {
            usn: "uuid:9".to_string(),
            nt: "upnp:rootdevice".to_string(),
        })
    );
}

#[test]
fn notification_update_without_location() {
    let text = "NOTIFY * HTTP/1.1\r\nNTS: ssdp:update\r\nUSN: uuid:9\r\n\r\n";
    assert_eq!(parse_notification(text), None);
    let empty = "NOTIFY * HTTP/1.1\r\nNTS: ssdp:update\r\nLOCATION:\r\nUSN: uuid:9\r\n\r\n";
    assert_eq!(parse_notification(empty), None);
}

#[test]
fn notification_update_with_location() {
    let text = "NOTIFY * HTTP/1.1\r\nNTS: ssdp:update\r\nLocation: http://a/\r\nUSN: uuid:9\r\n\r\n";
    assert_eq!(
        parse_notification(text),
        Some(SsdpNotification::Update(device("http://a/", "uuid:9", "", "", "")))
    );
}

#[test]
fn notification_alive_without_location() {
    let text = "NOTIFY * HTTP/1.1\r\nNT: upnp:rootdevice\r\nNTS: ssdp:alive\r\nUSN: uuid:abc::upnp:rootdevice\r\n\r\n";
    assert_eq!(parse_notification(text), None);
}

#[test]
fn notification_byebye_needs_no_location() {
    let text = "NOTIFY * HTTP/1.1\r\nNT: t\r\nNTS: ssdp:byebye\r\nUSN: u\r\n\r\n";
    assert_eq!(
        parse_notification(text),
        Some(SsdpNotification::ByeBye { usn: "u".to_string(), nt: "t".to_string() })
    );
}

#[test]
fn notification_without_known_sub_type_is_dropped() {
    assert_eq!(parse_notification("NOTIFY * HTTP/1.1\r\nNT: x\r\n\r\n"), None);
    assert_eq!(parse_notification("NOTIFY * HTTP/1.1\r\nNTS: ssdp:other\r\n\r\n"), None);
    assert_eq!(parse_notification("NOTIFY * HTTP/1.1\r\nNTS: SSDP:ALIVE\r\n\r\n"), None);
    assert_eq!(parse_notification("NOTIFY * HTTP/1.1"), None);
    assert_eq!(parse_notification("M-SEARCH * HTTP/1.1\r\nNTS: ssdp:alive\r\n\r\n"), None);
}

#[test]
fn notification_ignores_headers_on_the_request_line() {
    let text = "NOTIFY * HTTP/1.1 NTS: ssdp:alive\r\nUSN: uuid:1\r\n";
    assert_eq!(parse_notification(text), None);
}

#[test]
fn search_request_text() {
    let client = SsdpClient::new().unwrap();
    let search = client.search("upnp:rootdevice");
    assert_eq!(
        search.request,
        "M-SEARCH * HTTP/1.1\r\nHOST: 239.255.255.250:1900\r\nMAN: \"ssdp:discover\"\r\nMX: 3\r\nST: upnp:rootdevice\r\n\r\n"
    );
    assert_eq!(search.timeout_ms, 5000);
    assert!(search.devices.is_empty());
}

#[test]
fn discover_searches_for_everything() {
    let client = SsdpClient::default().with_timeout(1500);
    assert_eq!(client.timeout_ms(), 1500);
    let search = client.discover();
    assert!(search.request.ends_with("ST: ssdp:all\r\n\r\n"));
    assert_eq!(search.timeout_ms, 1500);
}

#[test]
fn search_collects_valid_responses_until_timeout() {
    let client = SsdpClient::new().unwrap();
    let mut search = client.discover();
    let first = b"HTTP/1.1 200 OK\r\nLOCATION: http://a/\r\nUSN: one\r\n\r\n".to_vec();
    let noise = b"garbage".to_vec();
    let second = b"HTTP/1.1 200 OK\r\nLocation: http://b/\r\nUSN: two\r\n\r\n".to_vec();
    assert!(search.receive(&Received::Datagram(first)));
    assert!(search.receive(&Received::Datagram(noise)));
    assert!(search.receive(&Received::Failed("reset".to_string())));
    assert!(search.receive(&Received::Datagram(second)));
    assert!(!search.receive(&Received::TimedOut));
    let devices = search.into_devices();
    assert_eq!(devices.len(), 2);
    assert_eq!(devices[0], device("http://a/", "one", "", "", ""));
    assert_eq!(devices[1], device("http://b/", "two", "", "", ""));
}

#[test]
fn search_budget() {
    let search = SsdpClient::new().unwrap().with_timeout(3000).search("ssdp:all");
    assert_eq!(search.destination, "239.255.255.250:1900");
    assert!(search.within_budget(0));
    assert!(search.within_budget(2999));
    assert!(!search.within_budget(3000));
    assert!(!SsdpClient::new().unwrap().with_timeout(0).discover().within_budget(0));
}

#[test]
fn search_without_responses_is_empty() {
    let mut search = SsdpClient::new().unwrap().search("ssdp:all");
    assert!(!search.receive(&Received::TimedOut));
    assert!(search.into_devices().is_empty());
}

#[test]
fn datagram_with_invalid_utf8_is_read_lossily() {
    let mut search = SsdpClient::new().unwrap().search("ssdp:all");
    let mut bytes = b"HTTP/1.1 200 OK\r\nLOCATION: http://a/\r\nSERVER: x".to_vec();
    bytes.push(0xFF);
    bytes.extend_from_slice(b"y\r\n\r\n");
    assert!(search.receive(&Received::Datagram(bytes)));
    assert_eq!(search.devices.len(), 1);
    assert_eq!(search.devices[0].server, "x\u{FFFD}y");
}

#[test]
fn listener_reads_each_receive() {
    let listener = SsdpNotificationListener::new().unwrap();
    assert_eq!(listener.port, 1900);
    assert_eq!(listener.poll_ms, 1000);
    let bye = b"NOTIFY * HTTP/1.1\r\nNT: t\r\nNTS: ssdp:byebye\r\nUSN: u\r\n\r\n".to_vec();
    assert_eq!(
        listener.recv_notification(&Received::Datagram(bye)),
        Ok(Some(SsdpNotification::ByeBye { usn: "u".to_string(), nt: "t".to_string() }))
    );
    assert_eq!(listener.recv_notification(&Received::Datagram(b"noise".to_vec())), Ok(None));
    assert_eq!(listener.recv_notification(&Received::TimedOut), Ok(None));
    let failed = listener.recv_notification(&Received::Failed("socket closed".to_string()));
    let error = failed.unwrap_err();
    assert_eq!(error.kind, ErrorKind::Network);
    assert_eq!(error.status, 0);
    assert_eq!(error.detail, "socket closed");
}

#[test]
fn white_space_of_every_kind_is_trimmed() {
    let text = "HTTP/1.1 200 OK\n\u{3000}LOCATION\u{A0}:\t\u{2003}http://a/\u{85}\u{2028}\n";
    assert_eq!(parse_response(text).unwrap().location, "http://a/");
    let kept = "HTTP/1.1 200 OK\nLOCATION: \u{200B}http://a/\n";
    assert_eq!(parse_response(kept).unwrap().location, "\u{200B}http://a/");
}

#[test]
fn header_names_match_ascii_letters_only() {
    let text = "HTTP/1.1 200 OK\nLOCATION: http://a/\nU\u{17F}N: x\n";
    assert_eq!(parse_response(text).unwrap().usn, "");
}
