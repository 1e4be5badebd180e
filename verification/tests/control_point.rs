use wlin_pronet::{AttributeMap, Subscription, UpnpControlPoint};

#[test]
fn control_point_composes_the_clients() {
    let point = UpnpControlPoint::new().unwrap().with_timeout(2000);
    let search = point.discover_devices();
    assert_eq!(search.timeout_ms, 2000);
    assert!(search.request.contains("ST: ssdp:all\r\n"));
    assert!(point.search_devices("upnp:rootdevice").request.contains("ST: upnp:rootdevice\r\n"));
    assert_eq!(point.get_device_description("http://d/desc.xml").url, "http://d/desc.xml");
    assert_eq!(
        point.get_service_description("http://d/desc.xml", "scpd.xml").unwrap().url,
        "http://d/scpd.xml"
    );
    let listener = point.listen_notifications().unwrap();
    assert_eq!(listener.port, 1900);
}

#[test]
fn control_point_uses_its_callback_port() {
    let point = UpnpControlPoint::with_callback_port(9100).unwrap();
    let request = point.subscribe_events("http://d/evt", &["10.0.0.2".to_string()], 60);
    assert_eq!(request.headers[0].1, "<http://10.0.0.2:9100/notify>");
    let default = UpnpControlPoint::new().unwrap();
    let request = default.subscribe_events("http://d/evt", &["10.0.0.2".to_string()], 60);
    assert_eq!(request.headers[0].1, "<http://10.0.0.2:8008/notify>");
    let subscription = Subscription {
        sid: "uuid:1".to_string(),
        timeout: 60,
        event_sub_url: "http://d/evt".to_string(),
        created_at: 0,
    };
    assert_eq!(default.renew_subscription(&subscription, 0).headers[1].1, "Second-infinite");
    assert_eq!(default.unsubscribe(&subscription).method, "UNSUBSCRIBE");
}

#[test]
fn control_point_actions_and_events() {
    let point = UpnpControlPoint::new().unwrap();
    let mut arguments = AttributeMap::new();
    arguments.insert("InstanceID".to_string(), "0".to_string());
    let request = point.invoke_action("http://d/ctl", "urn:x:service:AVTransport:1", "Play", &arguments);
    assert_eq!(request.headers[1].1, "\"urn:x:service:AVTransport:1#Play\"");
    let found = point.parse_soap_response(&request.body).unwrap();
    assert_eq!(found.get("InstanceID"), Some(&"0".to_string()));
    let event = UpnpControlPoint::parse_event_message(
        "<propertyset><property><State>PLAYING</State></property></propertyset>",
    )
    .unwrap();
    assert_eq!(event.get("State"), Some(&"PLAYING".to_string()));
}
