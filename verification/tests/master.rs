use testctl::master::{
    command_request, hub_command_request, interactive_action, parse_hub_role, parse_set_role,
    request_id_of, response_outcome, signed_decimal_string, wait_step, Command, HubCommand,
    InteractiveAction, RequestSpec, WaitStep,
};
use testctl::protocol::messages::{
    DeviceRole, EventType, HubDeviceRole, Message, Method, Response, ResponseResult,
};

fn empty() -> serde_json::Value {
    serde_json::Value::Object(serde_json::Map::new())
}

fn sent(line: &str) -> RequestSpec {
    match interactive_action(line) {
        InteractiveAction::Send(r) => r,
        other => panic!("expected a request for {:?}, got {:?}", line, other),
    }
}

fn printed(line: &str) -> String {
    match interactive_action(line) {
        InteractiveAction::Print(m) => m,
        other => panic!("expected a message for {:?}, got {:?}", line, other),
    }
}

#[test]
fn hub_roles_parse_in_any_case() {
    assert_eq!(parse_hub_role("master"), Ok(HubDeviceRole::Master));
    assert_eq!(parse_hub_role("UUT"), Ok(HubDeviceRole::Uut));
    assert_eq!(parse_hub_role("sLaVe"), Ok(HubDeviceRole::Slave));
    assert_eq!(
        parse_hub_role("boss"),
        Err("Invalid role: boss. Must be 'master', 'uut', or 'slave'".to_string())
    );
    assert_eq!(parse_set_role("Uut"), Ok(DeviceRole::Uut));
    assert_eq!(parse_set_role("master"), Err("Invalid role: master. Must be 'uut' or 'slave'".to_string()));
}

#[test]
fn interactive_lines() {
    assert!(matches!(interactive_action("   "), InteractiveAction::Skip));
    assert!(matches!(interactive_action("quit"), InteractiveAction::Quit));
    assert!(matches!(interactive_action(" exit "), InteractiveAction::Quit));
    assert!(matches!(sent("ping"), RequestSpec::Ping));
    assert!(matches!(sent("info"), RequestSpec::GetInfo));
    match sent("start api_tests extra") {
        RequestSpec::TestStart(p) => {
            assert_eq!(p.suite, "api_tests");
            assert!(p.test_case.is_none() && p.timeout.is_none() && p.config.is_none());
        }
        other => panic!("{:?}", other),
    }
    assert_eq!(printed("start"), "Usage: start <suite>");
    match sent("results test-1") {
        RequestSpec::TestResults(p) => {
            assert_eq!(p.test_id, "test-1");
            assert!(p.include_logs);
        }
        other => panic!("{:?}", other),
    }
    match sent("abort test-2") {
        RequestSpec::TestAbort(p) => assert_eq!(p.reason.as_deref(), Some("User requested")),
        other => panic!("{:?}", other),
    }
    assert_eq!(printed("abort"), "Usage: abort <test_id>");
    match sent("network") {
        RequestSpec::NetworkStatus { interface } => assert_eq!(interface, "usb0"),
        other => panic!("{:?}", other),
    }
    match sent("network eth0") {
        RequestSpec::NetworkStatus { interface } => assert_eq!(interface, "eth0"),
        other => panic!("{:?}", other),
    }
    assert_eq!(printed("dance"), "Unknown command: dance");
}

#[test]
fn interactive_hub_lines() {
    assert_eq!(printed("hub"), "Usage: hub <list|discover|status|on|off|reserve|release>");
    assert!(matches!(sent("hub list"), RequestSpec::HubList));
    assert!(matches!(sent("hub discover"), RequestSpec::HubDiscover));
    assert_eq!(printed("hub status"), "Usage: hub status <hub_id>");
    match sent("hub on 2109:2817 3") {
        RequestSpec::HubPortPowerOn(p) => {
            assert_eq!(p.hub_id, "2109:2817");
            assert_eq!(p.port, 3);
        }
        other => panic!("{:?}", other),
    }
    assert_eq!(printed("hub off h 999"), "Invalid port number");
    assert_eq!(printed("hub off h"), "Usage: hub off <hub_id> <port>");
    match sent("hub reserve h 1") {
        RequestSpec::HubPortReserve(p) => {
            assert_eq!(p.requester, HubDeviceRole::Master);
            assert!(p.duration_secs.is_none() && !p.power_on);
        }
        other => panic!("{:?}", other),
    }
    match sent("hub release h 1 UUT") {
        RequestSpec::HubPortRelease(p) => {
            assert_eq!(p.releaser, HubDeviceRole::Uut);
            assert!(!p.power_off);
        }
        other => panic!("{:?}", other),
    }
    assert_eq!(
        printed("hub reserve h 1 boss"),
        "Invalid role: Invalid role: boss. Must be 'master', 'uut', or 'slave'"
    );
    assert_eq!(printed("hub release h"), "Usage: hub release <hub_id> <port> [role]");
    assert_eq!(printed("hub fly"), "Unknown hub command: fly");
}

#[test]
fn commands_map_to_requests() {
    match command_request(Command::SetRole { role: "SLAVE".to_string() }) {
        Ok(Some(RequestSpec::SetRole(p))) => assert_eq!(p.role, DeviceRole::Slave),
        other => panic!("{:?}", other),
    }
    assert!(command_request(Command::SetRole { role: "x".to_string() }).is_err());
    assert!(matches!(command_request(Command::Interactive), Ok(None)));
    match command_request(Command::TestStart { suite: "s".to_string(), test_case: Some("c".to_string()), timeout: Some(5) }) {
        Ok(Some(RequestSpec::TestStart(p))) => {
            assert_eq!(p.test_case.as_deref(), Some("c"));
            assert_eq!(p.timeout, Some(5));
        }
        other => panic!("{:?}", other),
    }
    match hub_command_request(HubCommand::Reserve { hub_id: "h".to_string(), port: 2, role: "uut".to_string(), duration: Some(60), power_on: true }) {
        Ok(RequestSpec::HubPortReserve(p)) => {
            assert_eq!(p.duration_secs, Some(60));
            assert!(p.power_on);
            assert_eq!(p.requester, HubDeviceRole::Uut);
        }
        other => panic!("{:?}", other),
    }
    let r = command_request(Command::Hub(HubCommand::Status { hub_id: "h".to_string() })).unwrap().unwrap();
    assert_eq!(r.method(), Method::HubStatus);
    assert_eq!(sent("hub reserve h 1").method(), Method::HubPortReserve);
}

#[test]
fn waiting_for_the_answer() {
    let req = Message::request(Method::Ping, empty());
    let id = request_id_of(&req).unwrap();
    assert_eq!(request_id_of(&Message::success("x".to_string(), empty())), Err("Expected request message".to_string()));
    match wait_step(&id, Message::success(id.clone(), empty())) {
        WaitStep::Answer(r) => assert_eq!(r.id, id),
        other => panic!("{:?}", other),
    }
    assert!(matches!(wait_step(&id, Message::success("other".to_string(), empty())), WaitStep::Skip));
    assert!(matches!(wait_step(&id, Message::event(EventType::Log, empty())), WaitStep::Show(_)));
    assert!(matches!(wait_step(&id, Message::request(Method::Ping, empty())), WaitStep::Skip));
}

#[test]
fn answers_become_results_or_errors() {
    let ok = Response { id: "1".to_string(), result: ResponseResult::Success { result: empty() } };
    assert_eq!(response_outcome(ok), Ok(empty()));
    match Message::error("1".to_string(), -32102, "Port already reserved by: master".to_string()) {
        Message::Response(resp) => assert_eq!(
            response_outcome(resp),
            Err("Error -32102: Port already reserved by: master".to_string())
        ),
        _ => panic!("Expected Response"),
    }
    assert_eq!(signed_decimal_string(i32::MIN), "-2147483648");
    assert_eq!(signed_decimal_string(0), "0");
    assert_eq!(signed_decimal_string(7), "7");
}
