use testctl::protocol::messages::{
    new_request_id, timestamp_at, utc_now, EventType, Message, Method, ResponseResult,
};
use testctl::protocol::transport::{
    default_route_command, ip_address_command, link_up_command, UsbGadgetConfig,
    DEFAULT_TCP_PORT,
};
use testctl::protocol::error_codes;

fn object(pairs: &[(&str, serde_json::Value)]) -> serde_json::Value {
    let mut m = serde_json::Map::new();
    for (k, v) in pairs {
        m.insert(k.to_string(), v.clone());
    }
    serde_json::Value::Object(m)
}

fn text(s: &str) -> serde_json::Value {
    serde_json::Value::String(s.to_string())
}

#[test]
fn test_message_serialization() {
    let params = object(&[("suite", text("api_tests")), ("test_case", text("test_dns_status"))]);
    let msg = Message::request(Method::TestStart, params.clone());

    match msg {
        Message::Request(req) => {
            assert!(matches!(req.method, Method::TestStart));
            assert_eq!(req.params, params);
        }
        _ => panic!("Expected Request"),
    }
}

#[test]
fn test_response_success() {
    let msg = Message::success("test-123".to_string(), object(&[("status", text("ok"))]));

    match msg {
        Message::Response(resp) => {
            assert_eq!(resp.id, "test-123");
            match resp.result {
                ResponseResult::Success { .. } => {}
                _ => panic!("Expected success"),
            }
        }
        _ => panic!("Expected Response"),
    }
}

#[test]
fn test_event() {
    let msg = Message::event(
        EventType::TestProgress,
        object(&[("progress", serde_json::Value::from(50))]),
    );

    match msg {
        Message::Event(evt) => {
            assert!(matches!(evt.event, EventType::TestProgress));
        }
        _ => panic!("Expected Event"),
    }
}

#[test]
fn error_response_has_no_data() {
    match Message::error("r1".to_string(), error_codes::TEST_NOT_FOUND, "Test not found: x".to_string()) {
        Message::Response(resp) => match resp.result {
            ResponseResult::Error { error } => {
                assert_eq!(error.code, -32000);
                assert_eq!(error.message, "Test not found: x");
                assert!(error.data.is_none());
            }
            _ => panic!("Expected error"),
        },
        _ => panic!("Expected Response"),
    }
}

#[test]
fn request_ids_are_v4_uuids() {
    let a = new_request_id();
    let b = new_request_id();
    assert_eq!(a.len(), 36);
    assert_ne!(a, b);
    let chars: Vec<char> = a.chars().collect();
    assert_eq!(chars[8], '-');
    assert_eq!(chars[13], '-');
    assert_eq!(chars[14], '4');
    assert!("89ab".contains(chars[19]));
    match Message::request(Method::Ping, object(&[])) {
        Message::Request(r) => assert_eq!(r.id.len(), 36),
        _ => panic!("Expected Request"),
    }
}

#[test]
fn gadget_configurations() {
    let m = UsbGadgetConfig::master();
    assert_eq!(m.interface, "usb0");
    assert_eq!(m.ip, "192.168.100.1");
    assert_eq!(m.peer_ip, "192.168.100.2");
    assert_eq!(m.netmask, 24);
    let r = UsbGadgetConfig::remote();
    assert_eq!(r.ip, "192.168.100.2");
    assert_eq!(r.peer_ip, "192.168.100.1");
    let d = UsbGadgetConfig::default();
    assert_eq!(d.ip, m.ip);
    assert_eq!(DEFAULT_TCP_PORT, 9999);
    assert_eq!(m.bind_address(), "192.168.100.1:9999");
    assert_eq!(m.peer_address(), "192.168.100.2:9999");
    let c = r.address_command();
    assert_eq!(c.program, "ip");
    assert_eq!(c.args, vec!["addr", "add", "192.168.100.2/24", "dev", "usb0"]);
    assert_eq!(r.link_up_command().args, vec!["link", "set", "usb0", "up"]);
    assert_eq!(ip_address_command("10.0.0.5", 8, "eth1").args, vec!["addr", "add", "10.0.0.5/8", "dev", "eth1"]);
    assert_eq!(link_up_command("usb1").args, vec!["link", "set", "usb1", "up"]);
    assert_eq!(default_route_command("10.0.0.1").args, vec!["route", "add", "default", "via", "10.0.0.1"]);
}

#[test]
fn utc_now_reads_the_clock() {
    let t = utc_now();
    let since = std::time::SystemTime::now().duration_since(std::time::UNIX_EPOCH).unwrap();
    assert!(t.nanos < 1_000_000_000);
    assert!(t.secs <= since.as_secs() as i64);
    assert!(t.secs + 5 >= since.as_secs() as i64);
}

#[test]
fn timestamps_round_down_before_the_epoch() {
    let t = timestamp_at(-1);
    assert_eq!((t.secs, t.nanos), (-1, 999_999_999));
    let t = timestamp_at(-2_000_000_000);
    assert_eq!((t.secs, t.nanos), (-2, 0));
    let t = timestamp_at(1_500_000_001);
    assert_eq!((t.secs, t.nanos), (1, 500_000_001));
}
