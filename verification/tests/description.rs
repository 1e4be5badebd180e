use wlin_pronet::upnp::http_client::HttpClient;
use wlin_pronet::{
    DeviceDescriptionInfo, DeviceInfo, ErrorKind, HttpResponse, SsdpDevice, UpnpControlPoint,
};

const DOCUMENT: &str = "<?xml version=\"1.0\"?>\n<root xmlns=\"urn:schemas-upnp-org:device-1-0\">\n  <specVersion><major>1</major><minor>0</minor></specVersion>\n  <device>\n    <deviceType>urn:schemas-upnp-org:device:InternetGatewayDevice:1</deviceType>\n    <friendlyName>Router &amp; Co</friendlyName>\n    <manufacturer>Acme</manufacturer>\n    <modelName>R1</modelName>\n    <modelNumber>7</modelNumber>\n    <UDN>uuid:1234</UDN>\n    <serviceList>\n      <service>\n        <serviceType>urn:schemas-upnp-org:service:WANIPConnection:1</serviceType>\n        <serviceId>urn:upnp-org:serviceId:WANIPConn1</serviceId>\n        <SCPDURL>/scpd/WANIP.xml</SCPDURL>\n        <controlURL>/ctl/WANIP</controlURL>\n        <eventSubURL>/evt/WANIP</eventSubURL>\n      </service>\n    </serviceList>\n    <deviceList>\n      <device>\n        <deviceType>nested</deviceType>\n        <serviceList><service><serviceType>inner</serviceType></service></serviceList>\n      </device>\n    </deviceList>\n  </device>\n</root>";

fn answer(status: u16, body: &str) -> HttpResponse {
    HttpResponse { status, headers: vec![], body: body.to_string() }
}

#[test]
fn description_request() {
    let request = HttpClient::new().get_device_description("http://192.168.1.1:1234/desc.xml");
    assert_eq!(request.method, "GET");
    assert_eq!(request.url, "http://192.168.1.1:1234/desc.xml");
    assert_eq!(
        request.headers,
        vec![
            ("User-Agent".to_string(), "Mozilla/5.0".to_string()),
            ("Accept".to_string(), "text/xml, application/xml, */*".to_string()),
        ]
    );
    assert_eq!(request.body, "");
}

#[test]
fn client_settings() {
    let client = HttpClient::default();
    assert_eq!(client.timeout_ms, 30000);
    assert_eq!(client.connect_timeout_ms, 10000);
    assert!(!client.use_proxy);
}

#[test]
fn description_with_one_service() {
    let description = HttpClient::device_description_response(&answer(200, DOCUMENT)).unwrap();
    let device = &description.device;
    assert_eq!(device.device_type, "urn:schemas-upnp-org:device:InternetGatewayDevice:1");
    assert_eq!(device.friendly_name, "Router & Co");
    assert_eq!(device.manufacturer, "Acme");
    assert_eq!(device.manufacturer_url, "");
    assert_eq!(device.model_description, "");
    assert_eq!(device.model_name, "R1");
    assert_eq!(device.model_number, "7");
    assert_eq!(device.model_url, "");
    assert_eq!(device.serial_number, "");
    assert_eq!(device.udn, "uuid:1234");
    assert_eq!(device.service_list.services.len(), 1);
    let service = &device.service_list.services[0];
    assert_eq!(service.service_type, "urn:schemas-upnp-org:service:WANIPConnection:1");
    assert_eq!(service.service_id, "urn:upnp-org:serviceId:WANIPConn1");
    assert_eq!(service.scpd_url, "/scpd/WANIP.xml");
    assert_eq!(service.control_url, "/ctl/WANIP");
    assert_eq!(service.event_sub_url, "/evt/WANIP");
}

#[test]
fn control_url_resolves_against_the_location() {
    let description = HttpClient::parse_device_description(DOCUMENT).unwrap();
    let control_url = &description.device.service_list.services[0].control_url;
    assert_eq!(
        HttpClient::resolve_url("http://192.168.1.1:1234/desc.xml", control_url),
        Ok("http://192.168.1.1:1234/ctl/WANIP".to_string())
    );
}

#[test]
fn resolve_url_forms() {
    let base = "http://192.168.1.1:1234/dir/desc.xml";
    assert_eq!(HttpClient::resolve_url(base, "scpd.xml").unwrap(), "http://192.168.1.1:1234/dir/scpd.xml");
    assert_eq!(HttpClient::resolve_url(base, "../x?y=1").unwrap(), "http://192.168.1.1:1234/x?y=1");
    assert_eq!(HttpClient::resolve_url(base, "http://other/x").unwrap(), "http://other/x");
    assert_eq!(HttpClient::resolve_url("not a url", "https://other/x y").unwrap(), "https://other/x y");
    assert_eq!(HttpClient::resolve_url(base, "//host/p").unwrap(), "http://host/p");
    assert_eq!(HttpClient::resolve_url(base, "HTTP://Other/x").unwrap(), "http://other/x");
    let error = HttpClient::resolve_url("not a url", "/ctl").unwrap_err();
    assert_eq!(error.kind, ErrorKind::InvalidUrl);
    assert_eq!(error.detail, "/ctl");
}

#[test]
fn service_description_exchange() {
    let client = HttpClient::new();
    let request = client.get_service_description("http://192.168.1.1:1234/desc.xml", "/scpd/WANIP.xml").unwrap();
    assert_eq!(request.method, "GET");
    assert_eq!(request.url, "http://192.168.1.1:1234/scpd/WANIP.xml");
    assert!(request.headers.is_empty());
    assert!(client.get_service_description("", "x").is_err());
    assert_eq!(HttpClient::service_description_response(&answer(404, "<scpd/>")), "<scpd/>");
}

#[test]
fn description_without_services() {
    let xml = "<root><device><deviceType>t</deviceType><friendlyName>n</friendlyName><manufacturer>m</manufacturer><modelName>o</modelName><UDN>u</UDN></device></root>";
    let description = HttpClient::parse_device_description(xml).unwrap();
    assert!(description.device.service_list.services.is_empty());
    let empty_list = "<root><device><deviceType>t</deviceType><friendlyName>n</friendlyName><manufacturer>m</manufacturer><modelName>o</modelName><UDN/><serviceList/></device></root>";
    let description = HttpClient::parse_device_description(empty_list).unwrap();
    assert!(description.device.service_list.services.is_empty());
    assert_eq!(description.device.udn, "");
}

#[test]
fn description_services_keep_their_order() {
    let xml = "<root><device><deviceType>t</deviceType><friendlyName>n</friendlyName><manufacturer>m</manufacturer><modelName>o</modelName><UDN>u</UDN><serviceList><service><serviceType>a</serviceType><serviceId>1</serviceId><SCPDURL>s</SCPDURL><controlURL>c</controlURL><eventSubURL>e</eventSubURL></service><service><eventSubURL>e2</eventSubURL><controlURL>c2</controlURL><SCPDURL>s2</SCPDURL><serviceId>2</serviceId><serviceType>b</serviceType></service></serviceList></device></root>";
    let description = HttpClient::parse_device_description(xml).unwrap();
    let services = &description.device.service_list.services;
    assert_eq!(services.len(), 2);
    assert_eq!(services[0].service_type, "a");
    assert_eq!(services[1].service_type, "b");
    assert_eq!(services[1].control_url, "c2");
}

#[test]
fn description_failures() {
    let refused = HttpClient::device_description_response(&answer(404, "not found")).unwrap_err();
    assert_eq!(refused.kind, ErrorKind::Fetch);
    assert_eq!(refused.status, 404);
    assert_eq!(refused.detail, "not found");
    let empty = HttpClient::device_description_response(&answer(200, "")).unwrap_err();
    assert_eq!(empty.kind, ErrorKind::Fetch);
    assert_eq!(empty.status, 200);
    assert_eq!(empty.detail, "Received empty XML response");
    let broken = HttpClient::device_description_response(&answer(200, "<root><device></root>")).unwrap_err();
    assert_eq!(broken.kind, ErrorKind::Parse);
    assert_eq!(broken.status, 0);
    assert_eq!(broken.detail, "Failed to parse XML");
}

#[test]
fn description_shape_is_required() {
    let good = "<root><device><deviceType>t</deviceType><friendlyName>n</friendlyName><manufacturer>m</manufacturer><modelName>o</modelName><UDN>u</UDN></device></root>";
    assert!(HttpClient::parse_device_description(good).is_some());
    assert!(HttpClient::parse_device_description("<root/>").is_none());
    assert!(HttpClient::parse_device_description("just text").is_none());
    let missing = good.replace("<UDN>u</UDN>", "");
    assert!(HttpClient::parse_device_description(&missing).is_none());
    let twice = good.replace("<UDN>u</UDN>", "<UDN>u</UDN><UDN>v</UDN>");
    assert!(HttpClient::parse_device_description(&twice).is_none());
    let device_twice = good.replace("</root>", "<device/></root>");
    assert!(HttpClient::parse_device_description(&device_twice).is_none());
    let partial_service = good.replace("</device>", "<serviceList><service><serviceType>a</serviceType></service></serviceList></device>");
    assert!(HttpClient::parse_device_description(&partial_service).is_none());
    let bad_entity = good.replace("<UDN>u</UDN>", "<UDN>&what;</UDN>");
    assert!(HttpClient::parse_device_description(&bad_entity).is_none());
    let unclosed = good.replace("</device></root>", "");
    assert!(HttpClient::parse_device_description(&unclosed).is_none());
    let unknown = good.replace("<UDN>u</UDN>", "<UDN>u</UDN><presentationURL>&what;</presentationURL>");
    assert!(HttpClient::parse_device_description(&unknown).is_some());
}

#[test]
fn summary_of_a_description() {
    let description = HttpClient::parse_device_description(DOCUMENT).unwrap();
    let info = DeviceDescriptionInfo::from(description);
    assert_eq!(info.device_type, "urn:schemas-upnp-org:device:InternetGatewayDevice:1");
    assert_eq!(info.friendly_name, "Router & Co");
    assert_eq!(info.manufacturer, "Acme");
    assert_eq!(info.model_name, "R1");
    assert_eq!(info.udn, "uuid:1234");
    assert_eq!(info.services.len(), 1);
    assert_eq!(info.services[0].service_type, "urn:schemas-upnp-org:service:WANIPConnection:1");
    assert_eq!(info.services[0].service_id, "urn:upnp-org:serviceId:WANIPConn1");
    assert_eq!(info.services[0].control_url, "/ctl/WANIP");
}

#[test]
fn summary_of_an_announcement() {
    let device = SsdpDevice {
        location: "l".to_string(),
        usn: "u".to_string(),
        server: "s".to_string(),
        st: "t".to_string(),
        cache_control: "c".to_string(),
    };
    let info = DeviceInfo::from(device);
    assert_eq!(
        (info.location, info.usn, info.server, info.st, info.cache_control),
        ("l".to_string(), "u".to_string(), "s".to_string(), "t".to_string(), "c".to_string())
    );
}

#[test]
fn description_field_in_a_cdata_section() {
    let xml = "<root><device><deviceType>t</deviceType><friendlyName><![CDATA[Living <Room>]]></friendlyName><manufacturer>m</manufacturer><modelName>o</modelName><UDN>u</UDN></device></root>";
    let description = HttpClient::parse_device_description(xml).unwrap();
    assert_eq!(description.device.friendly_name, "Living <Room>");
}

#[test]
fn control_point_by_default() {
    let point = UpnpControlPoint::default();
    assert_eq!(point.discover_devices().timeout_ms, 5000);
    let request = point.subscribe_events("http://d/evt", &["h".to_string()], 1);
    assert_eq!(request.headers[0].1, "<http://h:8008/notify>");
    assert_eq!(point, UpnpControlPoint::new().unwrap());
}
