use wlin_pronet::upnp::gena::{GenaClient, Subscription};
use wlin_pronet::{AttributeMap, ErrorKind, HttpResponse};

fn response(status: u16, headers: &[(&str, &str)], body: &str) -> HttpResponse {
    HttpResponse {
        status,
        headers: headers.iter().map(|(n, v)| (n.to_string(), v.to_string())).collect(),
        body: body.to_string(),
    }
}

fn pairs(map: &AttributeMap) -> Vec<(String, String)> {
    let mut all = Vec::new();
    for i in 0..map.len() {
        let (name, value) = map.entry(i);
        all.push((name.clone(), value.clone()));
    }
    all
}

fn subscription() -> Subscription {
    Subscription {
        sid: "uuid:xyz".to_string(),
        timeout: 1800,
        event_sub_url: "http://192.168.1.1:1234/evt".to_string(),
        created_at: 100,
    }
}

#[test]
fn subscribe_request_lists_callbacks() {
    let client = GenaClient::new(9000);
    let hosts = vec!["192.168.1.5".to_string(), "10.0.0.5".to_string()];
    let request = client.subscribe("http://192.168.1.1:1234/evt", &hosts, 300);
    assert_eq!(request.method, "SUBSCRIBE");
    assert_eq!(request.url, "http://192.168.1.1:1234/evt");
    assert_eq!(
        request.headers,
        vec![
            (
                "CALLBACK".to_string(),
                "<http://192.168.1.5:9000/notify> <http://10.0.0.5:9000/notify>".to_string()
            ),
            ("NT".to_string(), "upnp:event".to_string()),
            ("TIMEOUT".to_string(), "Second-300".to_string()),
        ]
    );
    assert_eq!(request.body, "");
}

#[test]
fn subscribe_request_for_an_infinite_lease() {
    let client = GenaClient::default();
    assert_eq!(client.port(), 8008);
    let request = client.subscribe("http://d/evt", &["h".to_string()], 0);
    assert_eq!(request.headers[0].1, "<http://h:8008/notify>");
    assert_eq!(request.headers[2].1, "Second-infinite");
    let none = client.subscribe("http://d/evt", &[], 4294967295);
    assert_eq!(none.headers[0].1, "");
    assert_eq!(none.headers[2].1, "Second-4294967295");
}

#[test]
fn subscribe_response_with_sid_and_timeout() {
    let answer = response(200, &[("SID", "uuid:xyz"), ("TIMEOUT", "Second-1800")], "");
    let sub = GenaClient::subscribe_response("http://d/evt", &answer, 42).unwrap();
    assert_eq!(sub.sid, "uuid:xyz");
    assert_eq!(sub.timeout, 1800);
    assert_eq!(sub.event_sub_url, "http://d/evt");
    assert_eq!(sub.created_at, 42);
}

#[test]
fn subscribe_response_without_timeout_defaults() {
    let answer = response(200, &[("sid", "uuid:xyz")], "");
    let sub = GenaClient::subscribe_response("http://d/evt", &answer, 0).unwrap();
    assert_eq!(sub.sid, "uuid:xyz");
    assert_eq!(sub.timeout, 1800);
}

#[test]
fn subscribe_response_lease_forms() {
    let lease = |value: &str| {
        let answer = response(200, &[("SID", "s"), ("Timeout", value)], "");
        GenaClient::subscribe_response("u", &answer, 0).unwrap().timeout
    };
    assert_eq!(lease("Second-300"), 300);
    assert_eq!(lease("Second-0"), 0);
    assert_eq!(lease("Second-+7"), 7);
    assert_eq!(lease("Second-007"), 7);
    assert_eq!(lease("Second-4294967295"), 4294967295);
    assert_eq!(lease("Second-4294967296"), 1800);
    assert_eq!(lease("Second-99999999999999999999999"), 1800);
    assert_eq!(lease("Second-infinite"), 0);
    assert_eq!(lease("Second-Infinite"), 1800);
    assert_eq!(lease("Second-infinite "), 1800);
    assert_eq!(lease("Second-"), 1800);
    assert_eq!(lease("Second-+"), 1800);
    assert_eq!(lease("Second--1"), 1800);
    assert_eq!(lease("Second-12a"), 1800);
    assert_eq!(lease("Second- 12"), 1800);
    assert_eq!(lease("second-300"), 1800);
    assert_eq!(lease("300"), 1800);
}

#[test]
fn subscribe_response_failures() {
    let refused = response(412, &[("SID", "uuid:xyz")], "precondition failed");
    let error = GenaClient::subscribe_response("u", &refused, 0).unwrap_err();
    assert_eq!(error.kind, ErrorKind::Subscribe);
    assert_eq!(error.status, 412);
    assert_eq!(error.detail, "precondition failed");
    let nameless = response(200, &[("TIMEOUT", "Second-1800")], "ok");
    let error = GenaClient::subscribe_response("u", &nameless, 0).unwrap_err();
    assert_eq!(error.kind, ErrorKind::Subscribe);
    assert_eq!(error.status, 200);
    assert_eq!(error.detail, "Missing SID header");
}

#[test]
fn first_header_of_a_name_counts() {
    let answer = response(200, &[("SID", "first"), ("sid", "second")], "");
    assert_eq!(answer.header("Sid"), Some("first".to_string()));
    assert_eq!(answer.header("SIDE"), None);
    assert_eq!(GenaClient::subscribe_response("u", &answer, 0).unwrap().sid, "first");
}

#[test]
fn renew_request_names_the_subscription() {
    let request = GenaClient::new(8008).renew(&subscription(), 600);
    assert_eq!(request.method, "SUBSCRIBE");
    assert_eq!(request.url, "http://192.168.1.1:1234/evt");
    assert_eq!(
        request.headers,
        vec![
            ("SID".to_string(), "uuid:xyz".to_string()),
            ("TIMEOUT".to_string(), "Second-600".to_string()),
        ]
    );
}

#[test]
fn renew_keeps_the_identifier() {
    let answer = response(200, &[("SID", "uuid:other"), ("TIMEOUT", "Second-600")], "");
    let old = subscription();
    let new = GenaClient::renew_response(&old, &answer, 777).unwrap();
    assert_eq!(new.sid, old.sid);
    assert_eq!(new.event_sub_url, old.event_sub_url);
    assert_eq!(new.timeout, 600);
    assert_eq!(new.created_at, 777);
    let silent = response(204, &[], "");
    assert_eq!(GenaClient::renew_response(&old, &silent, 1).unwrap().timeout, 1800);
}

#[test]
fn renew_refused() {
    let answer = response(500, &[], "no");
    let error = GenaClient::renew_response(&subscription(), &answer, 0).unwrap_err();
    assert_eq!(error.kind, ErrorKind::Subscribe);
    assert_eq!(error.status, 500);
    assert_eq!(error.detail, "no");
}

#[test]
fn unsubscribe_exchange() {
    let request = GenaClient::new(8008).unsubscribe(&subscription());
    assert_eq!(request.method, "UNSUBSCRIBE");
    assert_eq!(request.url, "http://192.168.1.1:1234/evt");
    assert_eq!(request.headers, vec![("SID".to_string(), "uuid:xyz".to_string())]);
    assert_eq!(GenaClient::unsubscribe_response(&response(200, &[], "")), Ok(()));
    assert_eq!(GenaClient::unsubscribe_response(&response(299, &[], "")), Ok(()));
    let error = GenaClient::unsubscribe_response(&response(412, &[], "gone")).unwrap_err();
    assert_eq!(error.kind, ErrorKind::Unsubscribe);
    assert_eq!(error.status, 412);
    assert_eq!(error.detail, "gone");
    assert!(GenaClient::unsubscribe_response(&response(199, &[], "")).is_err());
    assert!(GenaClient::unsubscribe_response(&response(300, &[], "")).is_err());
}

#[test]
fn event_message_with_two_properties() {
    let body = "<?xml version=\"1.0\"?>\n<propertyset>\n  <property><Volume>42</Volume></property>\n  <property>\n    <Mute>0</Mute>\n  </property>\n</propertyset>";
    let found = GenaClient::parse_event_message(body).unwrap();
    assert_eq!(
        pairs(&found),
        vec![
            ("Volume".to_string(), "42".to_string()),
            ("Mute".to_string(), "0".to_string()),
        ]
    );
    assert_eq!(found.get("Mute"), Some(&"0".to_string()));
    assert_eq!(found.get("Other"), None);
}

#[test]
fn event_message_resolves_entities() {
    let body = "<propertyset><property><LastChange>&lt;Event a=&quot;1&quot;&gt; &amp; &apos;x&apos; &#65;</LastChange></property></propertyset>";
    let found = GenaClient::parse_event_message(body).unwrap();
    assert_eq!(pairs(&found), vec![("LastChange".to_string(), "<Event a=\"1\"> & 'x' A".to_string())]);
}

#[test]
fn event_message_later_value_wins() {
    let body = "<propertyset><property><A>1</A></property><property><B>2</B></property><property><A>3</A></property></propertyset>";
    let found = GenaClient::parse_event_message(body).unwrap();
    assert_eq!(
        pairs(&found),
        vec![("A".to_string(), "3".to_string()), ("B".to_string(), "2".to_string())]
    );
}

#[test]
fn event_message_outside_of_properties_is_ignored() {
    let body = "<propertyset><A>1</A><property></property><B>2</B></propertyset>";
    assert!(GenaClient::parse_event_message(body).unwrap().is_empty());
    assert!(GenaClient::parse_event_message("").unwrap().is_empty());
    let prefixed = "<e:propertyset><e:property><A>1</A></e:property></e:propertyset>";
    assert!(GenaClient::parse_event_message(prefixed).unwrap().is_empty());
}

#[test]
fn event_message_malformed() {
    let error = GenaClient::parse_event_message("<propertyset><property><A>1</B></property></propertyset>")
        .unwrap_err();
    assert_eq!(error.kind, ErrorKind::EventParse);
    assert_eq!(error.detail, "XML parse error");
    assert!(GenaClient::parse_event_message("<propertyset><property").is_err());
    let bad_value = "<propertyset><property><A>&nosuch;</A></property></propertyset>";
    assert!(GenaClient::parse_event_message(bad_value).is_err());
    let bad_elsewhere = "<propertyset>&nosuch;<property><A>1</A></property></propertyset>";
    assert_eq!(GenaClient::parse_event_message(bad_elsewhere).unwrap().len(), 1);
}

#[test]
fn subscribe_response_with_an_infinite_lease() {
    let answer = response(200, &[("SID", "uuid:xyz"), ("TIMEOUT", "Second-infinite")], "");
    let sub = GenaClient::subscribe_response("http://d/evt", &answer, 9).unwrap();
    assert_eq!(sub.sid, "uuid:xyz");
    assert_eq!(sub.timeout, 0);
    let renewed = GenaClient::renew_response(&subscription(), &answer, 9).unwrap();
    assert_eq!(renewed.timeout, 0);
    assert_eq!(renewed.sid, "uuid:xyz");
}

#[test]
fn lease_is_granted_as_asked() {
    let client = GenaClient::new(8008);
    for seconds in [0u32, 1, 60, 1800, 4294967295] {
        let asked = client.renew(&subscription(), seconds).headers[1].1.clone();
        let answer = response(200, &[("TIMEOUT", asked.as_str())], "");
        let granted = GenaClient::renew_response(&subscription(), &answer, 0).unwrap();
        assert_eq!(granted.timeout, seconds);
    }
}

#[test]
fn event_value_in_a_cdata_section() {
    let body = "<propertyset><property><LastChange><![CDATA[<Event a=\"1\"/>]]></LastChange></property></propertyset>";
    let found = GenaClient::parse_event_message(body).unwrap();
    assert_eq!(pairs(&found), vec![("LastChange".to_string(), "<Event a=\"1\"/>".to_string())]);
}
