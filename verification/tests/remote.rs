use testctl::protocol::error_codes;
use testctl::protocol::messages::{
    ErrorInfo, Message, Method, ResponseResult,
    DeviceRole, HubDeviceRole, HubPortPowerState, SetRoleParams, TestAbortParams,
    TestResultsParams, TestStartParams, TestStatus, UtcTimestamp,
};
use testctl::remote::{
    answer, network_status_failure, network_step_failure, NetworkStep,
    hub_device_role_to_usb_hub_role, hub_discover_reply, hub_status_reply, interface_is_up,
    invalid_parameters, invalid_params, ip_candidates, parse_device_role, parse_mac_from_output,
    power_reply, release_reply, reservation_duration, reserve_reply, uhubctl_unavailable,
    usb_hub_to_hub_info, RemoteState,
};
use testctl::usb_hub::manager::ManagerError;
use testctl::usb_hub::types::{DeviceRole as HubRole, PortReservation, PowerState, UsbHub, UsbPort};

fn at(secs: i64) -> UtcTimestamp {
    UtcTimestamp { secs, nanos: 0 }
}

fn start(state: &mut RemoteState, suite: &str) -> String {
    state
        .start_test(
            TestStartParams { suite: suite.to_string(), test_case: None, config: None, timeout: None },
            at(1),
        )
        .test_id
}

#[test]
fn tests_get_consecutive_ids() {
    let mut s = RemoteState::new(DeviceRole::Uut);
    assert_eq!(start(&mut s, "api_tests"), "test-1");
    assert_eq!(start(&mut s, "api_tests"), "test-2");
    assert_eq!(s.test_counter, 2);
    let r = s.test_results(&TestResultsParams { test_id: "test-1".to_string(), include_logs: true }).unwrap();
    assert_eq!(r.status, TestStatus::Running);
    assert_eq!(r.suite, "api_tests");
    assert!(r.logs.unwrap().is_empty());
    assert!(r.end_time.is_none());
    let r = s.test_results(&TestResultsParams { test_id: "test-1".to_string(), include_logs: false }).unwrap();
    assert!(r.logs.is_none());
}

#[test]
fn abort_marks_the_test() {
    let mut s = RemoteState::new(DeviceRole::Slave);
    let id = start(&mut s, "integration_tests");
    s.abort_test(TestAbortParams { test_id: id.clone(), reason: Some("stop".to_string()) }, at(5)).unwrap();
    let r = s.test_results(&TestResultsParams { test_id: id.clone(), include_logs: false }).unwrap();
    assert_eq!(r.status, TestStatus::Aborted);
    assert_eq!(r.end_time, Some(at(5)));
    assert_eq!(r.error.as_deref(), Some("stop"));
    let e = s.cancel_test(TestAbortParams { test_id: "test-9".to_string(), reason: None }, at(6)).unwrap_err();
    assert_eq!(e.code, error_codes::TEST_NOT_FOUND);
    assert_eq!(e.message, "Test not found: test-9");
    let e = s.test_results(&TestResultsParams { test_id: "x".to_string(), include_logs: true }).unwrap_err();
    assert_eq!(e.message, "Test not found: x");
}

#[test]
fn abort_leaves_other_tests_alone() {
    let mut s = RemoteState::new(DeviceRole::Uut);
    let mut ids = Vec::new();
    for _ in 0..12 {
        ids.push(start(&mut s, "api_tests"));
    }
    let mut sorted = ids.clone();
    sorted.sort();
    sorted.dedup();
    assert_eq!(sorted.len(), 12);
    assert_eq!(ids[9], "test-10");
    assert_eq!(ids[10], "test-11");
    s.abort_test(TestAbortParams { test_id: "test-1".to_string(), reason: None }, at(7)).unwrap();
    let other = s.test_results(&TestResultsParams { test_id: "test-11".to_string(), include_logs: true }).unwrap();
    assert_eq!(other.status, TestStatus::Running);
    assert!(other.end_time.is_none());
    let aborted = s.test_results(&TestResultsParams { test_id: "test-1".to_string(), include_logs: true }).unwrap();
    assert_eq!(aborted.status, TestStatus::Aborted);
    assert_eq!(aborted.error, None);
    assert_eq!(aborted.suite, "api_tests");
}

#[test]
fn role_and_info() {
    let mut s = RemoteState::new(DeviceRole::Uut);
    assert_eq!(s.set_role(SetRoleParams { role: DeviceRole::Slave }), DeviceRole::Slave);
    assert_eq!(s.role, DeviceRole::Slave);
    let info = s.device_info("box".to_string(), "0.1.0".to_string(), 42);
    assert_eq!(info.protocol_version, "1.0");
    assert_eq!(info.role, DeviceRole::Slave);
    assert_eq!(info.test_suites, vec!["api_tests", "integration_tests"]);
    assert_eq!(info.uptime, 42);
    assert_eq!(parse_device_role("UUT"), Some(DeviceRole::Uut));
    assert_eq!(parse_device_role("Slave"), Some(DeviceRole::Slave));
    assert_eq!(parse_device_role("master"), None);
}

#[test]
fn hub_error_codes() {
    let e = hub_status_reply(Err(ManagerError::HubNotFound("h".to_string()))).unwrap_err();
    assert_eq!(e.code, error_codes::HUB_NOT_FOUND);
    assert_eq!(e.message, "Failed to get hub status: Hub not found: h");
    let e = hub_status_reply(Err(ManagerError::ReservationNotFound)).unwrap_err();
    assert_eq!(e.code, error_codes::INTERNAL_ERROR);
    let e = power_reply(true, Err(ManagerError::PortNotFound(3))).unwrap_err();
    assert_eq!(e.code, error_codes::HUB_PORT_NOT_FOUND);
    assert_eq!(e.message, "Failed to power on port: Port not found: 3");
    let e = power_reply(false, Err(ManagerError::ReservationNotFound)).unwrap_err();
    assert_eq!(e.code, error_codes::HUB_POWER_CONTROL_FAILED);
    assert_eq!(e.message, "Failed to power off port: Reservation not found");
    let e = reserve_reply(Err(ManagerError::PortAlreadyReserved(HubRole::Master))).unwrap_err();
    assert_eq!(e.code, error_codes::HUB_PORT_ALREADY_RESERVED);
    assert_eq!(e.message, "Failed to reserve port: Port already reserved by: master");
    let e = reserve_reply(Err(ManagerError::ReservationNotFound)).unwrap_err();
    assert_eq!(e.code, error_codes::HUB_INVALID_OPERATION);
    let e = release_reply(Err(ManagerError::ReservationNotFound)).unwrap_err();
    assert_eq!(e.code, error_codes::HUB_RESERVATION_NOT_FOUND);
    let e = release_reply(Err(ManagerError::InvalidOperation("x".to_string()))).unwrap_err();
    assert_eq!(e.code, error_codes::HUB_INVALID_OPERATION);
    let e = release_reply(Err(ManagerError::PortAlreadyReserved(HubRole::Uut))).unwrap_err();
    assert_eq!(e.code, error_codes::INTERNAL_ERROR);
    assert!(release_reply(Ok(())).is_ok());
    let e = hub_discover_reply(Err(ManagerError::HubNotFound("q".to_string()))).unwrap_err();
    assert_eq!(e.code, error_codes::INTERNAL_ERROR);
    assert_eq!(uhubctl_unavailable().code, -32105);
    assert_eq!(invalid_params("bad").message, "Invalid params: bad");
    assert_eq!(invalid_parameters("bad").message, "Invalid parameters: bad");
    assert_eq!(invalid_parameters("bad").code, -32602);
}

#[test]
fn hub_descriptions() {
    let mut p = UsbPort { port_number: 2, power_state: PowerState::On, connected_device: None, reservation: None };
    p.reservation = Some(PortReservation::new_at(hub_device_role_to_usb_hub_role(HubDeviceRole::Uut), Some(7), 3));
    let hub = UsbHub {
        id: "a:b".to_string(),
        vendor_id: "a".to_string(),
        product_id: "b".to_string(),
        location: "1".to_string(),
        name: None,
        ports: vec![p],
    };
    let info = usb_hub_to_hub_info(hub.clone());
    assert_eq!(info.id, "a:b");
    assert_eq!(info.ports[0].power_state, HubPortPowerState::On);
    let r = info.ports[0].reservation.as_ref().unwrap();
    assert_eq!(r.reserved_by, HubDeviceRole::Uut);
    assert_eq!(r.reserved_at, 3);
    assert_eq!(r.expires_at, Some(10));
    let d = hub_discover_reply(Ok(vec![hub.clone(), hub])).unwrap();
    assert_eq!(d.discovered, 2);
    assert_eq!(reservation_duration(Some(300)), Some(300_000_000_000));
    assert_eq!(reservation_duration(None), None);
}

#[test]
fn ip_output_parsing() {
    let out = "3: usb0: <BROADCAST,MULTICAST,UP,LOWER_UP> mtu 1500 qdisc pfifo_fast state UP group default qlen 1000\n    link/ether 02:11:22:33:44:55 brd ff:ff:ff:ff:ff:ff\n    inet 192.168.100.2/24 brd 192.168.100.255 scope global usb0\n    inet6 fe80::11:22ff:fe33:4455/64 scope link\n";
    assert_eq!(parse_mac_from_output(out), Some("02:11:22:33:44:55".to_string()));
    assert_eq!(ip_candidates(out), vec!["192.168.100.2", "fe80::11:22ff:fe33:4455"]);
    assert!(interface_is_up(out));
    assert!(!interface_is_up("state DOWN"));
    assert_eq!(parse_mac_from_output("link/ether\nfoo"), None);
    assert!(ip_candidates("inet\n").is_empty());
}

#[test]
fn every_request_is_answered_under_its_id() {
    let req = match Message::request(Method::Ping, serde_json::Value::Null) {
        Message::Request(r) => r,
        _ => panic!("not a request"),
    };
    match answer(&req, Ok(serde_json::Value::Bool(true))) {
        Message::Response(r) => {
            assert_eq!(r.id, req.id);
            assert!(matches!(r.result, ResponseResult::Success { result: serde_json::Value::Bool(true) }));
        }
        _ => panic!("not a response"),
    }
    let e = ErrorInfo { code: -32001, message: "Test not found: x".to_string(), data: None };
    match answer(&req, Err(e)) {
        Message::Response(r) => {
            assert_eq!(r.id, req.id);
            match r.result {
                ResponseResult::Error { error } => {
                    assert_eq!(error.code, -32001);
                    assert_eq!(error.message, "Test not found: x");
                }
                _ => panic!("not an error"),
            }
        }
        _ => panic!("not a response"),
    }
}

#[test]
fn network_step_failures() {
    let e = network_step_failure(NetworkStep::AddAddress, "denied").unwrap();
    assert_eq!(e.code, error_codes::NETWORK_CONFIG_FAILED);
    assert_eq!(e.message, "Failed to configure IP: denied");
    let e = network_step_failure(NetworkStep::LinkUp, "no such device").unwrap();
    assert_eq!(e.message, "Failed to bring interface up: no such device");
    assert!(network_step_failure(NetworkStep::DefaultRoute, "x").is_none());
    let e = network_status_failure("gone");
    assert_eq!(e.code, error_codes::INTERNAL_ERROR);
    assert_eq!(e.message, "Failed to get network status: gone");
}
