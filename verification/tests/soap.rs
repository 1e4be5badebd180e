use wlin_pronet::upnp::soap::SoapClient;
use wlin_pronet::xml::{read_events, XmlEvent};
use wlin_pronet::{AttributeMap, ErrorKind, HttpResponse};

fn arguments(pairs: &[(&str, &str)]) -> AttributeMap {
    let mut map = AttributeMap::new();
    for (name, value) in pairs {
        map.insert(name.to_string(), value.to_string());
    }
    map
}

fn pairs(map: &AttributeMap) -> Vec<(String, String)> {
    let mut all = Vec::new();
    for i in 0..map.len() {
        let (name, value) = map.entry(i);
        all.push((name.clone(), value.clone()));
    }
    all
}

const SERVICE: &str = "urn:schemas-upnp-org:service:WANIPConnection:1";

#[test]
fn request_envelope_text() {
    let xml = SoapClient::build_soap_request(
        SERVICE,
        "AddPortMapping",
        &arguments(&[("NewExternalPort", "8080"), ("NewProtocol", "TCP")]),
    );
    assert_eq!(
        xml,
        "<?xml version=\"1.0\"?>\n<s:Envelope xmlns:s=\"http://schemas.xmlsoap.org/soap/envelope/\" s:encodingStyle=\"http://schemas.xmlsoap.org/soap/encoding/\">\n  <s:Body>\n    <u:AddPortMapping xmlns:u=\"urn:schemas-upnp-org:service:WANIPConnection:1\">\n<NewExternalPort>8080</NewExternalPort>\n<NewProtocol>TCP</NewProtocol>\n    </u:AddPortMapping>\n  </s:Body>\n</s:Envelope>"
    );
}

#[test]
fn request_envelope_without_arguments() {
    let xml = SoapClient::build_soap_request(SERVICE, "GetExternalIPAddress", &AttributeMap::new());
    assert!(xml.contains("    <u:GetExternalIPAddress xmlns:u=\"urn:schemas-upnp-org:service:WANIPConnection:1\">\n    </u:GetExternalIPAddress>\n"));
}

#[test]
fn escape_replaces_the_five_characters() {
    assert_eq!(SoapClient::escape_xml("a&b<c>d\"e'f"), "a&amp;b&lt;c&gt;d&quot;e&apos;f");
    assert_eq!(SoapClient::escape_xml("&amp;"), "&amp;amp;");
    assert_eq!(SoapClient::escape_xml(""), "");
    assert_eq!(SoapClient::escape_xml("plain \u{4e2d}\u{6587}"), "plain \u{4e2d}\u{6587}");
}

#[test]
fn action_request_headers() {
    let request = SoapClient::new().call_action(
        "http://192.168.1.1:1234/ctl/WANIP",
        SERVICE,
        "GetExternalIPAddress",
        &AttributeMap::new(),
    );
    assert_eq!(request.method, "POST");
    assert_eq!(request.url, "http://192.168.1.1:1234/ctl/WANIP");
    assert_eq!(
        request.headers,
        vec![
            ("Content-Type".to_string(), "text/xml; charset=\"utf-8\"".to_string()),
            (
                "SOAPAction".to_string(),
                "\"urn:schemas-upnp-org:service:WANIPConnection:1#GetExternalIPAddress\"".to_string()
            ),
        ]
    );
    assert_eq!(
        request.body,
        SoapClient::build_soap_request(SERVICE, "GetExternalIPAddress", &AttributeMap::new())
    );
}

#[test]
fn action_response_status() {
    let ok = HttpResponse { status: 200, headers: vec![], body: "<x/>".to_string() };
    assert_eq!(SoapClient::action_response(&ok), Ok("<x/>".to_string()));
    let fault = HttpResponse { status: 500, headers: vec![], body: "<fault/>".to_string() };
    let error = SoapClient::action_response(&fault).unwrap_err();
    assert_eq!(error.kind, ErrorKind::Action);
    assert_eq!(error.status, 500);
    assert_eq!(error.detail, "<fault/>");
}

#[test]
fn response_with_one_result() {
    let xml = "<?xml version=\"1.0\"?>\n<s:Envelope xmlns:s=\"http://schemas.xmlsoap.org/soap/envelope/\" s:encodingStyle=\"http://schemas.xmlsoap.org/soap/encoding/\">\n<s:Body>\n<u:GetExternalIPAddressResponse xmlns:u=\"urn:schemas-upnp-org:service:WANIPConnection:1\">\n<NewExternalIPAddress>203.0.113.5</NewExternalIPAddress>\n</u:GetExternalIPAddressResponse>\n</s:Body>\n</s:Envelope>";
    let found = SoapClient::new().parse_response(xml).unwrap();
    assert_eq!(
        pairs(&found),
        vec![("NewExternalIPAddress".to_string(), "203.0.113.5".to_string())]
    );
}

#[test]
fn response_on_one_line_with_attributes_and_nesting() {
    let xml = "<s:Envelope><s:Header><Ignored>1</Ignored></s:Header><s:Body><u:R><A attr=\"1\">x</A><B/><C><D>in</D>ner</C><A>y</A></u:R></s:Body></s:Envelope>";
    let found = SoapClient::new().parse_response(xml).unwrap();
    assert_eq!(
        pairs(&found),
        vec![
            ("A".to_string(), "y".to_string()),
            ("B".to_string(), "".to_string()),
            ("C".to_string(), "inner".to_string()),
        ]
    );
}

#[test]
fn response_without_body_has_no_results() {
    let found = SoapClient::new().parse_response("<a><b><c><d>1</d></c></b></a>").unwrap();
    assert!(found.is_empty());
    assert!(SoapClient::new().parse_response("").unwrap().is_empty());
}

#[test]
fn response_malformed() {
    let error = SoapClient::new().parse_response("<s:Envelope><s:Body></s:Envelope>").unwrap_err();
    assert_eq!(error.kind, ErrorKind::Parse);
    assert_eq!(error.status, 0);
    assert!(SoapClient::new()
        .parse_response("<e><Body><r><A>&bogus;</A></r></Body></e>")
        .is_err());
}

#[test]
fn arguments_survive_the_round_trip() {
    let sent = arguments(&[
        ("Plain", "value"),
        ("Markup", "<a href=\"x\">Tom & Jerry's</a>"),
        ("Entities", "&amp; &lt; &#65;"),
        ("Empty", ""),
        ("Unicode", "\u{4e2d}\u{6587} \u{1F600}"),
    ]);
    let xml = SoapClient::build_soap_request(SERVICE, "Do", &sent);
    let received = SoapClient::new().parse_response(&xml).unwrap();
    assert_eq!(pairs(&received), pairs(&sent));
}

fn start(name: &str) -> XmlEvent {
    XmlEvent::Start(name.to_string())
}

fn end(name: &str) -> XmlEvent {
    XmlEvent::End(name.to_string())
}

fn text(data: &str) -> XmlEvent {
    XmlEvent::Text(data.to_string())
}

#[test]
fn request_envelope_is_read_as_it_is_written() {
    let xml = SoapClient::build_soap_request(
        SERVICE,
        "Do",
        &arguments(&[("A", "1 < 2 & \"3\""), ("B", ""), ("C", " c ")]),
    );
    assert_eq!(
        read_events(&xml, false),
        Some(vec![
            XmlEvent::Other,
            text("\n"),
            start("s:Envelope"),
            text("\n  "),
            start("s:Body"),
            text("\n    "),
            start("u:Do"),
            text("\n"),
            start("A"),
            text("1 < 2 & \"3\""),
            end("A"),
            text("\n"),
            start("B"),
            end("B"),
            text("\n"),
            start("C"),
            text(" c "),
            end("C"),
            text("\n    "),
            end("u:Do"),
            text("\n  "),
            end("s:Body"),
            text("\n"),
            end("s:Envelope"),
        ])
    );
}

#[test]
fn events_with_and_without_white_space() {
    let xml = "<a>\n  <b> x </b>\n  <c/><!-- note --><![CDATA[raw]]>\n</a>\n";
    assert_eq!(
        read_events(xml, true),
        Some(vec![
            start("a"),
            start("b"),
            text("x"),
            end("b"),
            XmlEvent::Empty("c".to_string()),
            XmlEvent::Other,
            XmlEvent::CData("raw".to_string()),
            end("a"),
        ])
    );
    assert_eq!(
        read_events(xml, false),
        Some(vec![
            start("a"),
            text("\n  "),
            start("b"),
            text(" x "),
            end("b"),
            text("\n  "),
            XmlEvent::Empty("c".to_string()),
            XmlEvent::Other,
            XmlEvent::CData("raw".to_string()),
            text("\n"),
            end("a"),
            text("\n"),
        ])
    );
    assert_eq!(read_events("", true), Some(vec![]));
    assert_eq!(read_events("<a>&bad;</a>", true), Some(vec![start("a"), XmlEvent::BadText, end("a")]));
    assert_eq!(read_events("<a></b>", true), None);
    assert_eq!(read_events("<a", true), None);
}

#[test]
fn values_keep_their_white_space() {
    let sent = arguments(&[("Padded", "  two  spaces  "), ("Lines", "a\nb")]);
    let xml = SoapClient::build_soap_request(SERVICE, "Do", &sent);
    let received = SoapClient::new().parse_response(&xml).unwrap();
    assert_eq!(pairs(&received), pairs(&sent));
}

#[test]
fn response_value_in_a_cdata_section() {
    let xml = "<s:Envelope><s:Body><u:R><A><![CDATA[<b>&amp;</b>]]></A><B>x<![CDATA[ y ]]>z</B></u:R></s:Body></s:Envelope>";
    let found = SoapClient::new().parse_response(xml).unwrap();
    assert_eq!(
        pairs(&found),
        vec![
            ("A".to_string(), "<b>&amp;</b>".to_string()),
            ("B".to_string(), "x y z".to_string()),
        ]
    );
}
