//! The remote device (UUT or slave): its role, the tests it runs, its hub
//! manager, and how it answers requests.
//!
//! Decoding request parameters and encoding results as JSON is left to the
//! caller; these functions take and give the typed values.
use vstd::prelude::*;

use crate::protocol::error_codes::{
    HUB_INVALID_OPERATION, HUB_NOT_FOUND, HUB_PORT_ALREADY_RESERVED, HUB_PORT_NOT_FOUND,
    HUB_POWER_CONTROL_FAILED, HUB_RESERVATION_NOT_FOUND, INTERNAL_ERROR, INVALID_PARAMS,
    NETWORK_CONFIG_FAILED,
    TEST_NOT_FOUND, UHUBCTL_NOT_AVAILABLE,
};
use crate::protocol::messages::{
    DeviceInfo, DeviceRole, ErrorInfo, HubDeviceRole, Message, Request, Response, ResponseResult, HubDiscoverResult, HubInfo, HubListResult,
    HubPortInfo, HubPortPowerState, HubPortReservationInfo, LogEntry, LogEntryView, SetRoleParams,
    TestAbortParams, TestRecordView, TestResultsData, TestResultsParams, TestStartParams,
    TestStartResult, TestStatus, UtcTimestamp, PROTOCOL_VERSION,
};
use crate::store::Store;
use crate::text::{
    chars_of, joined, contains, contains_exec, decimal, decimal_string, find, find_exec,
    lemma_decimal_injective, lemma_find_spec, lines, lines_exec, lowercases_to, lowercases_to_exec, split_ws, split_ws_exec, string_from, sub_chars, trim,
    trim_exec,
};
use crate::usb_hub::manager::{manager_error_text, FaultView, ManagerError, UsbHubManager};
use crate::usb_hub::types::{opt_str, Nanos, PowerState, UsbHub, UsbHubView, UsbPort, UsbPortView};
use crate::usb_hub::types::DeviceRole as HubRole;

verus! {

/// The ID given to the `n`-th test started: `test-<n>`.
pub open spec fn test_id_text(n: nat) -> Seq<char> {
    seq!['t', 'e', 's', 't', '-'] + decimal(n)
}

/// The record of a test started at `now`: running, with no results and an empty log.
pub open spec fn started_record(
    test_id: Seq<char>,
    suite: Seq<char>,
    test_case: Option<Seq<char>>,
    now: UtcTimestamp,
) -> TestRecordView {
    TestRecordView {
        test_id,
        status: TestStatus::Running,
        suite,
        test_case,
        start_time: now,
        end_time: None,
        passed: 0,
        failed: 0,
        error: None,
        logs: Some(Seq::<LogEntryView>::empty()),
    }
}

/// The record of a test aborted at `now` for `reason`.
pub open spec fn aborted_record(r: TestRecordView, reason: Option<Seq<char>>, now: UtcTimestamp) -> TestRecordView {
    TestRecordView { status: TestStatus::Aborted, end_time: Some(now), error: reason, ..r }
}

/// What TestResults reports of a record: the record, without its log unless asked.
pub open spec fn reported_record(r: TestRecordView, include_logs: bool) -> TestRecordView {
    if include_logs {
        r
    } else {
        TestRecordView { logs: None, ..r }
    }
}

/// An error without data.
pub open spec fn error_is(e: ErrorInfo, code: i32, message: Seq<char>) -> bool {
    e.code == code && e.message@ == message && e.data is None
}

fn error_info(code: i32, message: String) -> (e: ErrorInfo)
    ensures
        error_is(e, code, message@),
{
    ErrorInfo { code, message, data: None }
}

/// State of a remote device.
pub struct RemoteState {
    /// The device's role.
    pub role: DeviceRole,
    /// The tests started, by ID.
    pub tests: Store<TestResultsData>,
    /// How many tests have been started.
    pub test_counter: u64,
    /// The manager of the USB hubs attached to the device.
    pub hub_manager: UsbHubManager,
}

impl RemoteState {
    /// The tests, by ID.
    pub open spec fn tests(&self) -> Map<Seq<char>, TestRecordView> {
        self.tests@
    }

    /// A device in `role`, with no tests and no hubs, using `uhubctl` from the search path.
    pub fn new(role: DeviceRole) -> (s: Self)
        ensures
            s.role == role,
            s.test_counter == 0,
            s.tests() == Map::<Seq<char>, TestRecordView>::empty(),
            s.hub_manager@ == Map::<Seq<char>, crate::usb_hub::types::UsbHubView>::empty(),
    {
        RemoteState {
            role,
            tests: Store::new(),
            test_counter: 0,
            hub_manager: UsbHubManager::new(None),
        }
    }

    /// SetRole: takes the role, and reports it.
    pub fn set_role(&mut self, params: SetRoleParams) -> (r: DeviceRole)
        ensures
            r == params.role,
            final(self).role == params.role,
            final(self).tests() == old(self).tests(),
            final(self).test_counter == old(self).test_counter,
    {
        self.role = params.role;
        params.role
    }

    /// TestStart: records a new running test under the next ID, and reports it.
    pub fn start_test(&mut self, params: TestStartParams, now: UtcTimestamp) -> (r: TestStartResult)
        requires
            old(self).test_counter < u64::MAX,
        ensures
            final(self).test_counter == old(self).test_counter + 1,
            r.test_id@ == test_id_text(final(self).test_counter as nat),
            r.status == TestStatus::Running,
            final(self).tests() == old(self).tests().insert(
                r.test_id@,
                started_record(r.test_id@, params.suite@, opt_str(params.test_case), now),
            ),
            final(self).role == old(self).role,
    {
        self.test_counter = self.test_counter + 1;
        let n = decimal_string(self.test_counter);
        let test_id = joined("test-", n.as_str());
        proof {
            reveal_strlit("test-");
        }
        let record = TestResultsData {
            test_id: test_id.clone(),
            status: TestStatus::Running,
            suite: params.suite,
            test_case: params.test_case,
            start_time: now,
            end_time: None,
            passed: 0,
            failed: 0,
            error: None,
            logs: Some(Vec::new()),
        };
        proof {
            assert(crate::protocol::messages::logs_view(Seq::<LogEntry>::empty())
                == Seq::<LogEntryView>::empty());
        }
        self.tests.insert(test_id.clone(), record);
        TestStartResult { test_id, status: TestStatus::Running }
    }

    /// TestAbort: marks the test aborted now, with the reason as its error.
    pub fn abort_test(&mut self, params: TestAbortParams, now: UtcTimestamp) -> (r: Result<(), ErrorInfo>)
        ensures
            old(self).tests().contains_key(params.test_id@) ==> {
                &&& r is Ok
                &&& final(self).tests() == old(self).tests().insert(
                    params.test_id@,
                    aborted_record(
                        old(self).tests()[params.test_id@],
                        opt_str(params.reason),
                        now,
                    ),
                )
            },
            !old(self).tests().contains_key(params.test_id@) ==> {
                &&& r matches Err(e) && error_is(e, TEST_NOT_FOUND, "Test not found: "@ + params.test_id@)
                &&& final(self).tests() == old(self).tests()
            },
            final(self).role == old(self).role,
            final(self).test_counter == old(self).test_counter,
    {
        let current = match self.tests.get(params.test_id.as_str()) {
            None => {
                return Err(error_info(TEST_NOT_FOUND, joined("Test not found: ", params.test_id.as_str())));
            },
            Some(t) => t.clone(),
        };
        let mut record = current;
        record.status = TestStatus::Aborted;
        record.end_time = Some(now);
        record.error = params.reason;
        self.tests.insert(params.test_id, record);
        Ok(())
    }

    /// TestCancel: as TestAbort.
    pub fn cancel_test(&mut self, params: TestAbortParams, now: UtcTimestamp) -> (r: Result<(), ErrorInfo>)
        ensures
            old(self).tests().contains_key(params.test_id@) ==> {
                &&& r is Ok
                &&& final(self).tests() == old(self).tests().insert(
                    params.test_id@,
                    aborted_record(
                        old(self).tests()[params.test_id@],
                        opt_str(params.reason),
                        now,
                    ),
                )
            },
            !old(self).tests().contains_key(params.test_id@) ==> {
                &&& r matches Err(e) && error_is(e, TEST_NOT_FOUND, "Test not found: "@ + params.test_id@)
                &&& final(self).tests() == old(self).tests()
            },
            final(self).role == old(self).role,
            final(self).test_counter == old(self).test_counter,
    {
        self.abort_test(params, now)
    }

    /// TestResults: the record of the test, without its log unless asked.
    pub fn test_results(&self, params: &TestResultsParams) -> (r: Result<TestResultsData, ErrorInfo>)
        ensures
            self.tests().contains_key(params.test_id@) ==> (r matches Ok(t) && t@ == reported_record(
                self.tests()[params.test_id@],
                params.include_logs,
            )),
            !self.tests().contains_key(params.test_id@) ==> (r matches Err(e) && error_is(
                e,
                TEST_NOT_FOUND,
                "Test not found: "@ + params.test_id@,
            )),
    {
        match self.tests.get(params.test_id.as_str()) {
            None => Err(error_info(TEST_NOT_FOUND, joined("Test not found: ", params.test_id.as_str()))),
            Some(t) => {
                let mut result = t.clone();
                if !params.include_logs {
                    result.logs = None;
                }
                Ok(result)
            },
        }
    }

    /// GetInfo: the device's information, given its host name, software version
    /// and uptime.
    pub fn device_info(&self, hostname: String, version: String, uptime: u64) -> (r: DeviceInfo)
        ensures
            r.hostname == hostname,
            r.role == self.role,
            r.protocol_version@ == PROTOCOL_VERSION@,
            r.version == version,
            r.uptime == uptime,
            r.test_suites@.len() == 2,
            r.test_suites@[0]@ == "api_tests"@,
            r.test_suites@[1]@ == "integration_tests"@,
    {
        let mut suites: Vec<String> = Vec::new();
        suites.push(String::from_str("api_tests"));
        suites.push(String::from_str("integration_tests"));
        DeviceInfo {
            hostname,
            role: self.role,
            protocol_version: String::from_str(PROTOCOL_VERSION),
            version,
            uptime,
            test_suites: suites,
        }
    }
}

/// The one response to request `req`: under its ID, the result the request's
/// handling gave, or the error it met.
pub fn answer(req: &Request, outcome: Result<serde_json::Value, ErrorInfo>) -> (m: Message)
    ensures
        m matches Message::Response(r) && r.id == req.id && match outcome {
            Ok(v) => r.result == ResponseResult::Success { result: v },
            Err(e) => r.result == ResponseResult::Error { error: e },
        },
{
    let result = match outcome {
        Ok(v) => ResponseResult::Success { result: v },
        Err(e) => ResponseResult::Error { error: e },
    };
    Message::Response(Response { id: req.id.clone(), result })
}

/// A step of configuring a network interface.
#[derive(Debug, Clone, Copy, PartialEq, Eq, Structural)]
pub enum NetworkStep {
    /// Adding the address to the interface.
    AddAddress,
    /// Bringing the interface up.
    LinkUp,
    /// Adding the default route through the gateway.
    DefaultRoute,
}

/// What a step of configuring a network interface that could not be run (for
/// `reason`) does to the request: the error that ends it, or `None` where the
/// configuration goes on (a default route that could not be added is only
/// reported in the log).
pub fn network_step_failure(step: NetworkStep, reason: &str) -> (r: Option<ErrorInfo>)
    ensures
        match step {
            NetworkStep::AddAddress => r matches Some(e) && error_is(
                e,
                NETWORK_CONFIG_FAILED,
                "Failed to configure IP: "@ + reason@,
            ),
            NetworkStep::LinkUp => r matches Some(e) && error_is(
                e,
                NETWORK_CONFIG_FAILED,
                "Failed to bring interface up: "@ + reason@,
            ),
            NetworkStep::DefaultRoute => r is None,
        },
{
    match step {
        NetworkStep::AddAddress => Some(
            error_info(NETWORK_CONFIG_FAILED, joined("Failed to configure IP: ", reason)),
        ),
        NetworkStep::LinkUp => Some(
            error_info(NETWORK_CONFIG_FAILED, joined("Failed to bring interface up: ", reason)),
        ),
        NetworkStep::DefaultRoute => None,
    }
}

/// The error for a network status that could not be read (for `reason`).
pub fn network_status_failure(reason: &str) -> (e: ErrorInfo)
    ensures
        error_is(e, INTERNAL_ERROR, "Failed to get network status: "@ + reason@),
{
    error_info(INTERNAL_ERROR, joined("Failed to get network status: ", reason))
}

/// The error for request parameters that could not be decoded (test requests).
pub fn invalid_params(detail: &str) -> (e: ErrorInfo)
    ensures
        error_is(e, INVALID_PARAMS, "Invalid params: "@ + detail@),
{
    error_info(INVALID_PARAMS, joined("Invalid params: ", detail))
}

/// The error for request parameters that could not be decoded (hub requests).
pub fn invalid_parameters(detail: &str) -> (e: ErrorInfo)
    ensures
        error_is(e, INVALID_PARAMS, "Invalid parameters: "@ + detail@),
{
    error_info(INVALID_PARAMS, joined("Invalid parameters: ", detail))
}

/// The error for hub discovery on a device without `uhubctl`.
pub fn uhubctl_unavailable() -> (e: ErrorInfo)
    ensures
        error_is(e, UHUBCTL_NOT_AVAILABLE, "uhubctl is not available on this system"@),
{
    error_info(UHUBCTL_NOT_AVAILABLE, String::from_str("uhubctl is not available on this system"))
}

// Conversions between the hub manager's types and the protocol's.

/// The hub manager's role for a protocol hub role.
pub open spec fn hub_role(r: HubDeviceRole) -> HubRole {
    match r {
        HubDeviceRole::Master => HubRole::Master,
        HubDeviceRole::Uut => HubRole::Uut,
        HubDeviceRole::Slave => HubRole::Slave,
    }
}

/// The hub manager's role for a protocol hub role.
pub fn hub_device_role_to_usb_hub_role(role: HubDeviceRole) -> (r: HubRole)
    ensures
        r == hub_role(role),
{
    match role {
        HubDeviceRole::Master => HubRole::Master,
        HubDeviceRole::Uut => HubRole::Uut,
        HubDeviceRole::Slave => HubRole::Slave,
    }
}

/// The protocol hub role for a role of the hub manager.
pub fn usb_hub_role_to_hub_device_role(role: HubRole) -> (r: HubDeviceRole)
    ensures
        hub_role(r) == role,
{
    match role {
        HubRole::Master => HubDeviceRole::Master,
        HubRole::Uut => HubDeviceRole::Uut,
        HubRole::Slave => HubDeviceRole::Slave,
    }
}

/// The protocol's description of a port: the same number, power state, device and
/// reservation.
pub open spec fn port_info_matches(i: HubPortInfo, p: UsbPortView) -> bool {
    &&& i.port_number == p.port_number
    &&& (i.power_state == HubPortPowerState::On <==> p.power_state == PowerState::On)
    &&& opt_str(i.connected_device) == p.connected_device
    &&& match (i.reservation, p.reservation) {
        (None, None) => true,
        (Some(a), Some(b)) => hub_role(a.reserved_by) == b.reserved_by && a.reserved_at
            == b.reserved_at && a.expires_at == b.expires_at && opt_str(a.device_id) == b.device_id,
        _ => false,
    }
}

/// The protocol's description of a hub port.
pub fn usb_port_to_hub_port_info(port: UsbPort) -> (r: HubPortInfo)
    ensures
        port_info_matches(r, port@),
{
    let power_state = match port.power_state {
        PowerState::On => HubPortPowerState::On,
        PowerState::Off => HubPortPowerState::Off,
    };
    let reservation = match port.reservation {
        Some(res) => Some(
            HubPortReservationInfo {
                reserved_by: usb_hub_role_to_hub_device_role(res.reserved_by),
                reserved_at: res.reserved_at,
                expires_at: res.expires_at,
                device_id: res.device_id,
            },
        ),
        None => None,
    };
    HubPortInfo {
        port_number: port.port_number,
        power_state,
        connected_device: port.connected_device,
        reservation,
    }
}

/// The protocol's description of a hub: the same fields, and its ports described
/// in order.
pub open spec fn hub_info_matches(i: HubInfo, h: UsbHubView) -> bool {
    &&& i.id@ == h.id
    &&& i.vendor_id@ == h.vendor_id
    &&& i.product_id@ == h.product_id
    &&& i.location@ == h.location
    &&& opt_str(i.name) == h.name
    &&& i.ports@.len() == h.ports.len()
    &&& forall|j: int| 0 <= j < i.ports@.len() ==> port_info_matches(#[trigger] i.ports@[j], h.ports[j])
}

/// The protocol's description of a hub.
pub fn usb_hub_to_hub_info(hub: UsbHub) -> (r: HubInfo)
    ensures
        hub_info_matches(r, hub@),
{
    let ghost hub_ports = hub.ports@;
    let mut ports: Vec<HubPortInfo> = Vec::new();
    let mut source = hub.ports;
    let mut i: usize = 0;
    let n = source.len();
    while i < n
        invariant
            i <= n,
            n == hub_ports.len(),
            source@ == hub_ports,
            ports@.len() == i,
            forall|j: int| 0 <= j < i ==> port_info_matches(#[trigger] ports@[j], hub_ports[j]@),
        decreases n - i,
    {
        let p = source[i].clone();
        ports.push(usb_port_to_hub_port_info(p));
        i = i + 1;
    }
    HubInfo {
        id: hub.id,
        vendor_id: hub.vendor_id,
        product_id: hub.product_id,
        location: hub.location,
        name: hub.name,
        ports,
    }
}

fn hub_infos(hubs: Vec<UsbHub>) -> (r: Vec<HubInfo>)
    ensures
        r@.len() == hubs@.len(),
        forall|j: int| 0 <= j < r@.len() ==> hub_info_matches(#[trigger] r@[j], hubs@[j]@),
{
    let ghost hv = hubs@;
    let mut r: Vec<HubInfo> = Vec::new();
    let mut i: usize = 0;
    while i < hubs.len()
        invariant
            i <= hubs.len(),
            hubs@ == hv,
            r@.len() == i,
            forall|j: int| 0 <= j < i ==> hub_info_matches(#[trigger] r@[j], hv[j]@),
        decreases hubs.len() - i,
    {
        let h = hubs[i].clone();
        assert(h@ == hv[i as int]@);
        let info = usb_hub_to_hub_info(h);
        assert(hub_info_matches(info, hv[i as int]@));
        r.push(info);
        i = i + 1;
    }
    r
}

/// HubList: the registered hubs described.
pub fn hub_list_result(hubs: Vec<UsbHub>) -> (r: HubListResult)
    ensures
        r.hubs@.len() == hubs@.len(),
        forall|j: int| 0 <= j < r.hubs@.len() ==> hub_info_matches(#[trigger] r.hubs@[j], hubs@[j]@),
{
    HubListResult { hubs: hub_infos(hubs) }
}

// Answers to hub requests.

/// The error code for a failed HubStatus.
pub open spec fn status_error_code(e: FaultView) -> i32 {
    match e {
        FaultView::HubNotFound(_) => HUB_NOT_FOUND,
        _ => INTERNAL_ERROR,
    }
}

/// The error code for a failed HubPortPowerOn or HubPortPowerOff.
pub open spec fn power_error_code(e: FaultView) -> i32 {
    match e {
        FaultView::HubNotFound(_) => HUB_NOT_FOUND,
        FaultView::PortNotFound(_) => HUB_PORT_NOT_FOUND,
        _ => HUB_POWER_CONTROL_FAILED,
    }
}

/// The error code for a failed HubPortReserve.
pub open spec fn reserve_error_code(e: FaultView) -> i32 {
    match e {
        FaultView::HubNotFound(_) => HUB_NOT_FOUND,
        FaultView::PortNotFound(_) => HUB_PORT_NOT_FOUND,
        FaultView::PortAlreadyReserved(_) => HUB_PORT_ALREADY_RESERVED,
        _ => HUB_INVALID_OPERATION,
    }
}

/// The error code for a failed HubPortRelease.
pub open spec fn release_error_code(e: FaultView) -> i32 {
    match e {
        FaultView::HubNotFound(_) => HUB_NOT_FOUND,
        FaultView::PortNotFound(_) => HUB_PORT_NOT_FOUND,
        FaultView::ReservationNotFound => HUB_RESERVATION_NOT_FOUND,
        FaultView::InvalidOperation(_) => HUB_INVALID_OPERATION,
        _ => INTERNAL_ERROR,
    }
}

fn failure(code: i32, prefix: &str, e: &ManagerError) -> (r: ErrorInfo)
    ensures
        error_is(r, code, prefix@ + manager_error_text(*e)),
{
    let text = e.to_string();
    error_info(code, joined(prefix, text.as_str()))
}

/// HubDiscover: the hubs found, or the error.
pub fn hub_discover_reply(found: Result<Vec<UsbHub>, ManagerError>) -> (r: Result<HubDiscoverResult, ErrorInfo>)
    ensures
        match found {
            Ok(hubs) => r matches Ok(d) && d.discovered == hubs@.len() && d.hubs@.len() == hubs@.len()
                && forall|j: int| 0 <= j < d.hubs@.len() ==> hub_info_matches(#[trigger] d.hubs@[j], hubs@[j]@),
            Err(e) => r matches Err(x) && error_is(x, INTERNAL_ERROR, "Failed to discover hubs: "@ + manager_error_text(e)),
        },
{
    match found {
        Ok(hubs) => {
            let infos = hub_infos(hubs);
            Ok(HubDiscoverResult { discovered: infos.len(), hubs: infos })
        },
        Err(e) => Err(failure(INTERNAL_ERROR, "Failed to discover hubs: ", &e)),
    }
}

/// HubStatus: the hub described, or the error.
pub fn hub_status_reply(status: Result<UsbHub, ManagerError>) -> (r: Result<HubInfo, ErrorInfo>)
    ensures
        match status {
            Ok(h) => r matches Ok(i) && hub_info_matches(i, h@),
            Err(e) => r matches Err(x) && error_is(x, status_error_code(e@), "Failed to get hub status: "@ + manager_error_text(e)),
        },
{
    match status {
        Ok(h) => Ok(usb_hub_to_hub_info(h)),
        Err(e) => {
            let code = match &e {
                ManagerError::HubNotFound(_) => HUB_NOT_FOUND,
                _ => INTERNAL_ERROR,
            };
            Err(failure(code, "Failed to get hub status: ", &e))
        },
    }
}

/// HubPortPowerOn (`on`) or HubPortPowerOff: success, or the error.
pub fn power_reply(on: bool, done: Result<(), ManagerError>) -> (r: Result<(), ErrorInfo>)
    ensures
        match done {
            Ok(()) => r is Ok,
            Err(e) => r matches Err(x) && error_is(
                x,
                power_error_code(e@),
                (if on {
                    "Failed to power on port: "@
                } else {
                    "Failed to power off port: "@
                }) + manager_error_text(e),
            ),
        },
{
    match done {
        Ok(()) => Ok(()),
        Err(e) => {
            let code = match &e {
                ManagerError::HubNotFound(_) => HUB_NOT_FOUND,
                ManagerError::PortNotFound(_) => HUB_PORT_NOT_FOUND,
                _ => HUB_POWER_CONTROL_FAILED,
            };
            if on {
                Err(failure(code, "Failed to power on port: ", &e))
            } else {
                Err(failure(code, "Failed to power off port: ", &e))
            }
        },
    }
}

/// HubPortReserve: success, or the error.
pub fn reserve_reply(done: Result<(), ManagerError>) -> (r: Result<(), ErrorInfo>)
    ensures
        match done {
            Ok(()) => r is Ok,
            Err(e) => r matches Err(x) && error_is(x, reserve_error_code(e@), "Failed to reserve port: "@ + manager_error_text(e)),
        },
{
    match done {
        Ok(()) => Ok(()),
        Err(e) => {
            let code = match &e {
                ManagerError::HubNotFound(_) => HUB_NOT_FOUND,
                ManagerError::PortNotFound(_) => HUB_PORT_NOT_FOUND,
                ManagerError::PortAlreadyReserved(_) => HUB_PORT_ALREADY_RESERVED,
                _ => HUB_INVALID_OPERATION,
            };
            Err(failure(code, "Failed to reserve port: ", &e))
        },
    }
}

/// HubPortRelease: success, or the error.
pub fn release_reply(done: Result<(), ManagerError>) -> (r: Result<(), ErrorInfo>)
    ensures
        match done {
            Ok(()) => r is Ok,
            Err(e) => r matches Err(x) && error_is(x, release_error_code(e@), "Failed to release port: "@ + manager_error_text(e)),
        },
{
    match done {
        Ok(()) => Ok(()),
        Err(e) => {
            let code = match &e {
                ManagerError::HubNotFound(_) => HUB_NOT_FOUND,
                ManagerError::PortNotFound(_) => HUB_PORT_NOT_FOUND,
                ManagerError::ReservationNotFound => HUB_RESERVATION_NOT_FOUND,
                ManagerError::InvalidOperation(_) => HUB_INVALID_OPERATION,
                _ => INTERNAL_ERROR,
            };
            Err(failure(code, "Failed to release port: ", &e))
        },
    }
}

/// A reservation duration given in whole seconds, in nanoseconds.
pub fn reservation_duration(duration_secs: Option<u64>) -> (r: Option<Nanos>)
    ensures
        r == match duration_secs {
            Some(s) => Some((s * 1_000_000_000) as u128),
            None => None::<u128>,
        },
{
    match duration_secs {
        Some(s) => Some((s as u128) * 1_000_000_000),
        None => None,
    }
}

// Reading the output of `ip addr show`.

/// Marks the line with the hardware address.
pub open spec fn ether_marker() -> Seq<char> {
    seq!['l', 'i', 'n', 'k', '/', 'e', 't', 'h', 'e', 'r']
}

/// The hardware address in `ls`: the second word of the first line that
/// mentions `link/ether` and has at least two words.
pub open spec fn mac_in(ls: Seq<Seq<char>>) -> Option<Seq<char>>
    decreases ls.len(),
{
    if ls.len() == 0 {
        None
    } else {
        let parts = split_ws(trim(ls[0]));
        if contains(ls[0], ether_marker()) && parts.len() >= 2 {
            Some(parts[1])
        } else {
            mac_in(ls.drop_first())
        }
    }
}

/// The hardware address that `ip addr show` reports.
pub fn parse_mac_from_output(output: &str) -> (r: Option<String>)
    ensures
        match r {
            Some(m) => mac_in(lines(output@)) == Some(m@),
            None => mac_in(lines(output@)) is None,
        },
{
    let chars = chars_of(output);
    let ls = lines_exec(chars.as_slice());
    let ghost lv = ls@.map_values(|l: Vec<char>| l@);
    let marker: Vec<char> = vec!['l', 'i', 'n', 'k', '/', 'e', 't', 'h', 'e', 'r'];
    assert(marker@ == ether_marker());
    let mut i: usize = 0;
    assert(lv.skip(0) == lv);
    while i < ls.len()
        invariant
            i <= ls.len(),
            lv == ls@.map_values(|l: Vec<char>| l@),
            lv == lines(output@),
            marker@ == ether_marker(),
            mac_in(lv) == mac_in(lv.skip(i as int)),
        decreases ls.len() - i,
    {
        let ghost rest = lv.skip(i as int);
        assert(rest[0] == ls@[i as int]@);
        assert(rest.drop_first() == lv.skip(i + 1));
        if contains_exec(ls[i].as_slice(), marker.as_slice()) {
            let t = trim_exec(ls[i].as_slice());
            let parts = split_ws_exec(t.as_slice());
            if parts.len() >= 2 {
                assert(split_ws(trim(rest[0]))[1] == parts@[1]@);
                return Some(string_from(parts[1].as_slice()));
            }
        }
        i = i + 1;
    }
    None
}

/// Marks the lines with an IPv4 address.
pub open spec fn inet_marker() -> Seq<char> {
    seq!['i', 'n', 'e', 't', ' ']
}

/// Marks the lines with an IPv6 address.
pub open spec fn inet6_marker() -> Seq<char> {
    seq!['i', 'n', 'e', 't', '6', ' ']
}

/// `t` up to its first `/`.
pub open spec fn before_slash(t: Seq<char>) -> Seq<char> {
    match find(t, seq!['/']) {
        Some(k) => t.take(k),
        None => t,
    }
}

/// The addresses that `ls` offers, in order: of each line that mentions `inet `
/// or `inet6 ` and has at least two words, the second word up to its `/`.
pub open spec fn ip_candidates_in(ls: Seq<Seq<char>>) -> Seq<Seq<char>>
    decreases ls.len(),
{
    if ls.len() == 0 {
        Seq::empty()
    } else {
        let rest = ip_candidates_in(ls.drop_first());
        let parts = split_ws(trim(ls[0]));
        if (contains(ls[0], inet_marker()) || contains(ls[0], inet6_marker())) && parts.len() >= 2 {
            seq![before_slash(parts[1])] + rest
        } else {
            rest
        }
    }
}

/// The addresses that `ip addr show` offers, in order; the device's address is
/// the first of them that parses as an IP address.
pub fn ip_candidates(output: &str) -> (r: Vec<String>)
    ensures
        r@.map_values(|c: String| c@) == ip_candidates_in(lines(output@)),
{
    let chars = chars_of(output);
    let ls = lines_exec(chars.as_slice());
    let ghost lv = ls@.map_values(|l: Vec<char>| l@);
    let m4: Vec<char> = vec!['i', 'n', 'e', 't', ' '];
    let m6: Vec<char> = vec!['i', 'n', 'e', 't', '6', ' '];
    let slash: Vec<char> = vec!['/'];
    assert(m4@ == inet_marker());
    assert(m6@ == inet6_marker());
    assert(slash@ == seq!['/']);
    let mut out: Vec<String> = Vec::new();
    let mut i: usize = 0;
    assert(lv.skip(0) == lv);
    assert(out@.map_values(|c: String| c@) == Seq::<Seq<char>>::empty());
    while i < ls.len()
        invariant
            i <= ls.len(),
            lv == ls@.map_values(|l: Vec<char>| l@),
            lv == lines(output@),
            m4@ == inet_marker(),
            m6@ == inet6_marker(),
            slash@ == seq!['/'],
            ip_candidates_in(lv) == out@.map_values(|c: String| c@) + ip_candidates_in(
                lv.skip(i as int),
            ),
        decreases ls.len() - i,
    {
        let ghost rest = lv.skip(i as int);
        assert(rest[0] == ls@[i as int]@);
        assert(rest.drop_first() == lv.skip(i + 1));
        if contains_exec(ls[i].as_slice(), m4.as_slice()) || contains_exec(ls[i].as_slice(), m6.as_slice()) {
            let t = trim_exec(ls[i].as_slice());
            let parts = split_ws_exec(t.as_slice());
            if parts.len() >= 2 {
                let word = &parts[1];
                assert(split_ws(trim(rest[0]))[1] == word@);
                proof {
                    lemma_find_spec(word@, slash@);
                }
                let cand = match find_exec(word.as_slice(), slash.as_slice()) {
                    Some(k) => sub_chars(word.as_slice(), 0, k),
                    None => sub_chars(word.as_slice(), 0, word.len()),
                };
                proof {
                    assert(word@.subrange(0, word@.len() as int) == word@);
                }
                assert(cand@ == before_slash(word@));
                let ghost before = out@;
                out.push(string_from(cand.as_slice()));
                proof {
                    let a = before.map_values(|c: String| c@);
                    assert(out@.map_values(|c: String| c@) == a.push(cand@));
                    assert(a + (seq![cand@] + ip_candidates_in(rest.drop_first())) == a.push(cand@)
                        + ip_candidates_in(rest.drop_first()));
                }
            }
        }
        i = i + 1;
    }
    proof {
        assert(lv.skip(ls.len() as int) == Seq::<Seq<char>>::empty());
    }
    out
}

/// Whether `ip addr show` reports the interface up.
pub fn interface_is_up(output: &str) -> (b: bool)
    ensures
        b == contains(output@, seq!['s', 't', 'a', 't', 'e', ' ', 'U', 'P']),
{
    let chars = chars_of(output);
    let pat: Vec<char> = vec!['s', 't', 'a', 't', 'e', ' ', 'U', 'P'];
    contains_exec(chars.as_slice(), pat.as_slice())
}

/// The role that the `--role` option names: `uut` or `slave`, in any case.
pub fn parse_device_role(name: &str) -> (r: Option<DeviceRole>)
    ensures
        lowercases_to(name@, seq!['u', 'u', 't']) ==> r == Some(DeviceRole::Uut),
        lowercases_to(name@, seq!['s', 'l', 'a', 'v', 'e']) ==> r == Some(DeviceRole::Slave),
        !lowercases_to(name@, seq!['u', 'u', 't']) && !lowercases_to(
            name@,
            seq!['s', 'l', 'a', 'v', 'e'],
        ) ==> r is None,
{
    let chars = chars_of(name);
    let uut: Vec<char> = vec!['u', 'u', 't'];
    let slave: Vec<char> = vec!['s', 'l', 'a', 'v', 'e'];
    if lowercases_to_exec(chars.as_slice(), uut.as_slice()) {
        Some(DeviceRole::Uut)
    } else if lowercases_to_exec(chars.as_slice(), slave.as_slice()) {
        Some(DeviceRole::Slave)
    } else {
        None
    }
}


// Laws of the test records.

/// Every test ID on record was issued by one of the first `counter` starts.
pub open spec fn ids_issued(tests: Map<Seq<char>, TestRecordView>, counter: nat) -> bool {
    forall|id: Seq<char>|
        #[trigger] tests.contains_key(id) ==> exists|k: nat|
            1 <= k <= counter && id == #[trigger] test_id_text(k)
}

/// Two starts never give the same test ID.
pub proof fn law_test_ids_are_distinct(n: nat, m: nat)
    requires
        n != m,
    ensures
        test_id_text(n) != test_id_text(m),
{
    if test_id_text(n) == test_id_text(m) {
        assert(test_id_text(n).skip(5) == decimal(n));
        assert(test_id_text(m).skip(5) == decimal(m));
        lemma_decimal_injective(n, m);
    }
}

/// Starting a test never replaces a test on record: the new ID is not yet on
/// record, and afterwards every ID on record is still one that was issued.
pub proof fn law_start_never_replaces_a_test(
    tests: Map<Seq<char>, TestRecordView>,
    counter: nat,
    suite: Seq<char>,
    test_case: Option<Seq<char>>,
    now: UtcTimestamp,
)
    requires
        ids_issued(tests, counter),
    ensures
        !tests.contains_key(test_id_text(counter + 1)),
        ids_issued(
            tests.insert(
                test_id_text(counter + 1),
                started_record(test_id_text(counter + 1), suite, test_case, now),
            ),
            counter + 1,
        ),
{
    let id = test_id_text(counter + 1);
    if tests.contains_key(id) {
        let k = choose|k: nat| 1 <= k <= counter && id == #[trigger] test_id_text(k);
        law_test_ids_are_distinct(k, counter + 1);
    }
    let t2 = tests.insert(id, started_record(id, suite, test_case, now));
    assert forall|x: Seq<char>| #[trigger] t2.contains_key(x) implies exists|k: nat|
        1 <= k <= counter + 1 && x == #[trigger] test_id_text(k) by {
        if x == id {
            assert(1 <= counter + 1 <= counter + 1 && x == test_id_text(counter + 1));
        } else {
            assert(tests.contains_key(x));
            let k = choose|k: nat| 1 <= k <= counter && x == #[trigger] test_id_text(k);
            assert(1 <= k <= counter + 1 && x == test_id_text(k));
        }
    }
}

/// What TestResults reports right after a start: the running record, with an
/// empty log if the log is asked for.
pub proof fn law_results_after_start(
    tests: Map<Seq<char>, TestRecordView>,
    id: Seq<char>,
    suite: Seq<char>,
    test_case: Option<Seq<char>>,
    now: UtcTimestamp,
    include_logs: bool,
)
    ensures
        ({
            let after = tests.insert(id, started_record(id, suite, test_case, now));
            &&& after.contains_key(id)
            &&& reported_record(after[id], include_logs).status == TestStatus::Running
            &&& reported_record(after[id], include_logs).test_id == id
            &&& reported_record(after[id], include_logs).suite == suite
            &&& reported_record(after[id], include_logs).end_time is None
            &&& reported_record(after[id], include_logs).logs == (if include_logs {
                Some(Seq::<LogEntryView>::empty())
            } else {
                None
            })
        }),
{
}

/// Aborting a test on record leaves it on record, aborted at that time with the
/// reason as its error, and leaves every other test as it was.
pub proof fn law_abort_touches_only_its_test(
    tests: Map<Seq<char>, TestRecordView>,
    id: Seq<char>,
    reason: Option<Seq<char>>,
    now: UtcTimestamp,
    other: Seq<char>,
)
    requires
        tests.contains_key(id),
        other != id,
    ensures
        ({
            let after = tests.insert(id, aborted_record(tests[id], reason, now));
            &&& after.dom() == tests.dom()
            &&& after[id].status == TestStatus::Aborted
            &&& after[id].end_time == Some(now)
            &&& after[id].error == reason
            &&& after[id].test_id == tests[id].test_id
            &&& after[id].suite == tests[id].suite
            &&& after[id].start_time == tests[id].start_time
            &&& after[other] == tests[other]
        }),
{
    let after = tests.insert(id, aborted_record(tests[id], reason, now));
    assert(after.dom() == tests.dom());
}

} // verus!
