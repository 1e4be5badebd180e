use wlin_pronet::helper::{digit_uppercase, fib_rec};
use wlin_pronet::mdns::{
    collect, common_service_types, note_service_types, per_service_timeout, resolve, BrowseEvent,
};
use wlin_pronet::snmp::oids;
use wlin_pronet::{
    AttributeMap, MdnsService, ServiceCache, SnmpClient, SnmpTrapListener, SnmpValue, SnmpVersion,
};

fn service(service_type: &str, instance_name: &str, port: u16) -> MdnsService {
    MdnsService {
        service_type: service_type.to_string(),
        instance_name: instance_name.to_string(),
        hostname: "host.local.".to_string(),
        addresses: vec!["192.168.1.7".to_string()],
        port,
        txt_records: vec![("path".to_string(), "/".to_string())],
        subtypes: vec![],
        priority: None,
        weight: None,
    }
}

#[test]
fn cache_starts_empty() {
    let cache = ServiceCache::new();
    assert_eq!(cache.len(), 0);
    assert!(cache.is_empty());
    assert!(cache.get_all().is_empty());
    assert_eq!(cache.get("_http._tcp.local.", "a"), None);
}

#[test]
fn cache_add_and_get() {
    let mut cache = ServiceCache::new();
    cache.add(service("_http._tcp.local.", "a", 80));
    cache.add(service("_ssh._tcp.local.", "a", 22));
    assert_eq!(cache.len(), 2);
    assert!(!cache.is_empty());
    assert_eq!(cache.get("_http._tcp.local.", "a"), Some(&service("_http._tcp.local.", "a", 80)));
    assert_eq!(cache.get("_ssh._tcp.local.", "a").unwrap().port, 22);
    assert_eq!(cache.get("_ssh._tcp.local.", "b"), None);
}

#[test]
fn cache_add_replaces_the_same_key() {
    let mut cache = ServiceCache::new();
    cache.add(service("t", "a", 1));
    cache.add(service("t", "b", 2));
    cache.add(service("t", "a", 3));
    assert_eq!(cache.len(), 2);
    assert_eq!(cache.get("t", "a").unwrap().port, 3);
    assert_eq!(cache.get_all(), vec![service("t", "a", 3), service("t", "b", 2)]);
    cache.add(service("t:a", "", 4));
    cache.add(service("t", "a:", 5));
    assert_eq!(cache.len(), 3);
    assert_eq!(cache.get("t:a", "").unwrap().port, 5);
}

#[test]
fn cache_remove() {
    let mut cache = ServiceCache::new();
    cache.add(service("t", "a", 1));
    cache.add(service("t", "b", 2));
    cache.add(service("t", "c", 3));
    cache.remove("t", "b");
    assert_eq!(cache.get_all(), vec![service("t", "a", 1), service("t", "c", 3)]);
    cache.remove("t", "missing");
    assert_eq!(cache.len(), 2);
    let copy = cache.clone();
    cache.remove("t", "a");
    cache.remove("t", "c");
    assert!(cache.is_empty());
    assert_eq!(copy.len(), 2);
}

#[test]
fn attribute_map_keeps_first_places() {
    let mut map = AttributeMap::new();
    assert!(map.is_empty());
    map.insert("b".to_string(), "1".to_string());
    map.insert("a".to_string(), "2".to_string());
    map.insert("b".to_string(), "3".to_string());
    assert_eq!(map.len(), 2);
    assert_eq!(map.entry(0), (&"b".to_string(), &"3".to_string()));
    assert_eq!(map.entry(1), (&"a".to_string(), &"2".to_string()));
    assert_eq!(map.get("a"), Some(&"2".to_string()));
    assert_eq!(map.get("c"), None);
    let copy = map.clone();
    assert_eq!(copy, map);
}

#[test]
fn fib_rec_values() {
    assert_eq!(fib_rec(-3), 1);
    assert_eq!(fib_rec(0), 1);
    assert_eq!(fib_rec(1), 1);
    assert_eq!(fib_rec(2), 2);
    assert_eq!(fib_rec(3), 3);
    assert_eq!(fib_rec(10), 89);
    assert_eq!(fib_rec(20), 10946);
}

#[test]
fn snmp_client_settings() {
    let client = SnmpClient::new("private".to_string()).unwrap();
    assert_eq!(client.community, "private");
    assert_eq!(client.version, SnmpVersion::V2c);
    assert_eq!(client.timeout_ms, 5000);
    let client = client.with_version(SnmpVersion::V3).with_timeout(250);
    assert_eq!(client.community, "private");
    assert_eq!(client.version, SnmpVersion::V3);
    assert_eq!(client.timeout_ms, 250);
    let default = SnmpClient::default();
    assert_eq!(default.community, "public");
    assert_eq!(default.version, SnmpVersion::V2c);
}

#[test]
fn snmp_operations_are_refused() {
    let mut client = SnmpClient::default();
    let refusal = "请使用专用 SNMP 库实现";
    assert!(client.connect("192.168.1.1:161").unwrap_err().message.starts_with("SNMP 是框架实现。"));
    assert!(client.connect("x").unwrap_err().message.ends_with("snmp-usm = \"0.3\""));
    assert_eq!(client, SnmpClient::default());
    assert_eq!(client.get(oids::system::SYS_NAME).unwrap_err().message, refusal);
    assert_eq!(client.get_next("1.3").unwrap_err().message, refusal);
    assert_eq!(client.walk("1.3").unwrap_err().message, refusal);
    assert_eq!(client.get_system_info().unwrap_err().message, refusal);
    assert_eq!(client.get_integer("1.3").unwrap_err().message, refusal);
    assert_eq!(client.get_bulk(&["1.3", "1.4"]).unwrap_err().message, refusal);
    assert_eq!(client.set("1.3", SnmpValue::Integer(1)).unwrap_err().message, refusal);
}

#[test]
fn snmp_trap_listener() {
    let mut listener = SnmpTrapListener::new("0.0.0.0:162".to_string()).unwrap();
    assert_eq!(listener.bind_addr, "0.0.0.0:162");
    assert_eq!(listener.recv().unwrap_err().message, "请使用专用 SNMP 库实现 TRAP 接收");
    assert_eq!(listener.set_timeout(1000).unwrap_err().message, "请使用专用 SNMP 库实现");
    assert_eq!(listener.bind_addr, "0.0.0.0:162");
    assert_eq!(SnmpTrapListener::default().bind_addr, "0.0.0.0:1162");
}

#[test]
fn well_known_oids() {
    assert_eq!(oids::system::SYS_DESCR, "1.3.6.1.2.1.1.1.0");
    assert_eq!(oids::system::SYS_UPTIME, "1.3.6.1.2.1.1.3.0");
    assert_eq!(oids::interfaces::IF_OUT_OCTETS, "1.3.6.1.2.1.2.2.1.16");
    assert_eq!(oids::ip::IP_FORWARDING, "1.3.6.1.2.1.4.1.0");
    assert_eq!(oids::tcp::TCP_CURR_ESTAB, "1.3.6.1.2.1.6.9.0");
    assert_eq!(oids::udp::UDP_OUT_DATAGRAMS, "1.3.6.1.2.1.7.4.0");
    assert_eq!(oids::host::HR_PROCESSOR_LOAD, "1.3.6.1.2.1.25.3.3.1.2");
}

#[test]
fn browse_collects_resolved_services() {
    let mut found = Vec::new();
    collect(&mut found, &BrowseEvent::Other);
    collect(&mut found, &BrowseEvent::Resolved(service("t", "a", 1)));
    collect(
        &mut found,
        &BrowseEvent::Removed { service_type: "t".to_string(), instance_name: "a".to_string() },
    );
    collect(&mut found, &BrowseEvent::Resolved(service("t", "a", 2)));
    assert_eq!(found, vec![service("t", "a", 1), service("t", "a", 2)]);
}

#[test]
fn browse_events_move_the_cache() {
    let mut cache = ServiceCache::new();
    cache.apply(&BrowseEvent::Resolved(service("t", "a", 1)));
    cache.apply(&BrowseEvent::Resolved(service("t", "b", 2)));
    cache.apply(&BrowseEvent::Other);
    assert_eq!(cache.len(), 2);
    cache.apply(&BrowseEvent::Removed { service_type: "t".to_string(), instance_name: "a".to_string() });
    assert_eq!(cache.get_all(), vec![service("t", "b", 2)]);
}

#[test]
fn resolve_matches_part_of_the_name() {
    let event = BrowseEvent::Resolved(service("_http._tcp.local.", "printer._http._tcp.local.", 80));
    assert_eq!(resolve(&event, "printer").unwrap().port, 80);
    assert_eq!(resolve(&event, "_http").unwrap().port, 80);
    assert_eq!(resolve(&event, "").unwrap().port, 80);
    assert_eq!(resolve(&event, "printer._http._tcp.local.").unwrap().port, 80);
    assert_eq!(resolve(&event, "scanner"), None);
    assert_eq!(resolve(&event, "printer._http._tcp.local.x"), None);
    assert_eq!(resolve(&BrowseEvent::Other, ""), None);
}

#[test]
fn service_types_are_noted_once() {
    let mut announced = service("_services._dns-sd._udp.local.", "x", 0);
    announced.txt_records = vec![
        ("".to_string(), "_http._tcp".to_string()),
        ("name".to_string(), "_ignored._tcp".to_string()),
        ("".to_string(), "_ssh._tcp".to_string()),
        ("".to_string(), "_http._tcp".to_string()),
    ];
    let mut types = vec!["_ssh._tcp".to_string()];
    note_service_types(&mut types, &BrowseEvent::Resolved(announced));
    assert_eq!(types, vec!["_ssh._tcp".to_string(), "_http._tcp".to_string()]);
    note_service_types(&mut types, &BrowseEvent::Other);
    assert_eq!(types.len(), 2);
}

#[test]
fn sweep_shares_its_time_evenly() {
    let types = common_service_types();
    assert_eq!(types.len(), 12);
    assert_eq!(types[0], "_http._tcp.local.");
    assert_eq!(types[11], "_hap._tcp.local.");
    assert_eq!(per_service_timeout(12000), 1000);
    assert_eq!(per_service_timeout(11), 0);
    assert_eq!(per_service_timeout(u64::MAX), 1537228672809129301);
}

#[test]
fn amounts_in_capital_numerals() {
    let cases: [(u64, u8, &str); 28] = [
        (0, 0, "零元整"),
        (0, 5, "零元伍分"),
        (0, 50, "零元伍角"),
        (0, 99, "零元玖角玖分"),
        (1, 0, "壹元整"),
        (10, 0, "壹拾元整"),
        (20, 0, "贰拾元整"),
        (100, 0, "壹佰元整"),
        (101, 0, "壹佰零壹元整"),
        (110, 0, "壹佰壹拾元整"),
        (1001, 0, "壹仟零壹元整"),
        (1010, 0, "壹仟零壹拾元整"),
        (1234, 56, "壹仟贰佰叁拾肆元伍角陆分"),
        (10000, 0, "壹万元整"),
        (10001, 0, "壹万零壹元整"),
        (100000, 0, "壹拾万元整"),
        (100100, 0, "壹拾万零壹佰元整"),
        (1000000, 10, "壹佰万元壹角"),
        (100000000, 0, "壹亿元整"),
        (100000001, 0, "壹亿零壹元整"),
        (100010001, 1, "壹亿零壹万零壹元壹分"),
        (1000000000, 0, "壹拾亿元整"),
        (99999999999, 99, "玖佰玖拾玖亿玖仟玖佰玖拾玖万玖仟玖佰玖拾玖元玖角玖分"),
        (12345678901, 23, "壹佰贰拾叁亿肆仟伍佰陆拾柒万捌仟玖佰零壹元贰角叁分"),
        (100001, 0, "壹拾万零壹元整"),
        (10100, 0, "壹万零壹佰元整"),
        (20000000, 0, "贰仟万元整"),
        (20003000, 7, "贰仟万叁仟元柒分"),
    ];
    for (units, cents, expected) in cases {
        assert_eq!(digit_uppercase(units, cents), Ok(expected.to_string()));
    }
}

#[test]
fn amounts_out_of_range_are_refused() {
    assert_eq!(digit_uppercase(100000000000, 0), Err("Invalid number"));
    assert_eq!(digit_uppercase(u64::MAX, 0), Err("Invalid number"));
    assert_eq!(digit_uppercase(1, 100), Err("Invalid number"));
    assert_eq!(digit_uppercase(99999999999, 0).unwrap(), "玖佰玖拾玖亿玖仟玖佰玖拾玖万玖仟玖佰玖拾玖元整");
}

#[test]
fn fib_rec_at_its_limit() {
    assert_eq!(fib_rec(30), 1346269);
}
