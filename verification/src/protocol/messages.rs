//! Messages of the test control protocol, and the parameters and results that
//! its requests carry.
use vstd::prelude::*;

use crate::usb_hub::types::{clock_reads, current_time, opt_str, clone_opt_str, Instant};

verus! {

/// A JSON value, as `serde_json` represents it. Requests, responses and events
/// carry one; the library hands it on without looking inside.
#[verifier::external_type_specification]
#[verifier::external_body]
pub struct ExJsonValue(serde_json::Value);

/// `<serde_json::Value as Clone>::clone`, which `serde_json` derives: the copy is
/// the same value.
pub assume_specification[ <serde_json::Value as Clone>::clone ](v: &serde_json::Value) -> (r:
    serde_json::Value)
    ensures
        r == *v,
;

/// A point in time in UTC: whole seconds since the UNIX epoch and the nanoseconds
/// past them.
#[derive(Debug, Clone, Copy, PartialEq, Eq, Structural)]
pub struct UtcTimestamp {
    pub secs: i64,
    pub nanos: u32,
}

/// The time `n` nanoseconds after the UNIX epoch, in whole seconds and nanoseconds.
pub open spec fn timestamp_of(n: Instant) -> UtcTimestamp {
    UtcTimestamp { secs: (n / 1_000_000_000) as i64, nanos: (n % 1_000_000_000) as u32 }
}

/// The instant `n` in whole seconds (rounded down) and the nanoseconds past them.
pub fn timestamp_at(n: Instant) -> (t: UtcTimestamp)
    requires
        clock_reads(n),
    ensures
        t == timestamp_of(n),
{
    let d: u128 = 1_000_000_000;
    if n >= 0 {
        let m = n as u128;
        let q = m / d;
        let r = m % d;
        proof {
            vstd::arithmetic::div_mod::lemma_fundamental_div_mod(m as int, d as int);
            vstd::arithmetic::div_mod::lemma_fundamental_div_mod_converse(
                n as int,
                1_000_000_000,
                q as int,
                r as int,
            );
        }
        assert(q <= 9_223_372_036_854_775_807) by (nonlinear_arith)
            requires
                m <= 9_223_372_036_854_775_807_999_999_999,
                q == m / 1_000_000_000,
        ;
        UtcTimestamp { secs: q as i64, nanos: r as u32 }
    } else {
        let m = (-n) as u128;
        let q = m / d;
        let r = m % d;
        proof {
            vstd::arithmetic::div_mod::lemma_fundamental_div_mod(m as int, d as int);
        }
        assert(q <= 9_223_372_036_854_775_808) by (nonlinear_arith)
            requires
                m <= 9_223_372_036_854_775_808_000_000_000,
                q == m / 1_000_000_000,
        ;
        if r == 0 {
            proof {
                assert(n as int == (-(q as int)) * 1_000_000_000 + 0) by (nonlinear_arith)
                    requires
                        m as int == q * 1_000_000_000 + r,
                        r == 0,
                        n as int == -(m as int),
                ;
                vstd::arithmetic::div_mod::lemma_fundamental_div_mod_converse(
                    n as int,
                    1_000_000_000,
                    -(q as int),
                    0,
                );
            }
            UtcTimestamp { secs: -(q as i128) as i64, nanos: 0 }
        } else {
            proof {
                assert(n as int == (-(q as int) - 1) * 1_000_000_000 + (1_000_000_000 - r)) by (nonlinear_arith)
                    requires
                        m as int == q * 1_000_000_000 + r,
                        n as int == -(m as int),
                ;
                vstd::arithmetic::div_mod::lemma_fundamental_div_mod_converse(
                    n as int,
                    1_000_000_000,
                    -(q as int) - 1,
                    1_000_000_000 - r,
                );
            }
            UtcTimestamp { secs: (-(q as i128) - 1) as i64, nanos: (d - r) as u32 }
        }
    }
}

/// The current time in UTC as the system clock reads it: whole seconds
/// (rounded down, so negative before the UNIX epoch) and nanoseconds past them.
///
/// Which instant the clock reads is not stated.
pub fn utc_now() -> (t: UtcTimestamp)
    ensures
        exists|n: Instant| clock_reads(n) && t == #[trigger] timestamp_of(n),
{
    let n = current_time();
    timestamp_at(n)
}

/// `c` is a lower-case hexadecimal digit.
pub open spec fn is_lower_hex(c: char) -> bool {
    ('0' <= c && c <= '9') || ('a' <= c && c <= 'f')
}

/// `s` is a random (version 4) UUID in hyphenated lower-case form:
/// `xxxxxxxx-xxxx-4xxx-Yxxx-xxxxxxxxxxxx` where `Y` is one of `8`, `9`, `a`, `b`.
pub open spec fn uuid_v4_text(s: Seq<char>) -> bool {
    &&& s.len() == 36
    &&& forall|i: int|
        0 <= i < 36 ==> if i == 8 || i == 13 || i == 18 || i == 23 {
            s[i] == '-'
        } else {
            is_lower_hex(#[trigger] s[i])
        }
    &&& s[14] == '4'
    &&& (s[19] == '8' || s[19] == '9' || s[19] == 'a' || s[19] == 'b')
}

/// `uuid::Uuid::new_v4().to_string()`: a fresh random UUID, hyphenated.
///
/// Which UUID comes is not stated, only its form: the version and variant bits
/// that `new_v4` sets, written by `Display` as 36 lower-case characters.
#[verifier::external_body]
pub fn new_request_id() -> (id: String)
    ensures
        uuid_v4_text(id@),
{
    uuid::Uuid::new_v4().to_string()
}

/// A protocol message.
#[derive(Debug, Clone)]
pub enum Message {
    /// Request from master to remote.
    Request(Request),
    /// Response from remote to master.
    Response(Response),
    /// Event notification (no response expected).
    Event(Event),
}

/// Version of the protocol.
pub const PROTOCOL_VERSION: &'static str = "1.0";

/// Request from master to remote.
#[derive(Debug, Clone)]
pub struct Request {
    /// Unique request ID.
    pub id: String,
    /// Request method.
    pub method: Method,
    /// Request parameters.
    pub params: serde_json::Value,
}

/// Request methods.
#[derive(Debug, Clone, Copy, PartialEq, Eq, Structural)]
pub enum Method {
    /// Start a test.
    TestStart,
    /// Abort a running test.
    TestAbort,
    /// Cancel a test.
    TestCancel,
    /// Get test results.
    TestResults,
    /// Get test status.
    TestStatus,
    /// Configure a network interface.
    NetworkConfigure,
    /// Get network status.
    NetworkStatus,
    /// Set the device role (uut or slave).
    SetRole,
    /// Ping (keepalive).
    Ping,
    /// Get device info.
    GetInfo,
    /// List the USB hubs.
    HubList,
    /// Get the status of a hub.
    HubStatus,
    /// Power on a hub port.
    HubPortPowerOn,
    /// Power off a hub port.
    HubPortPowerOff,
    /// Reserve a hub port for exclusive access.
    HubPortReserve,
    /// Release a hub port reservation.
    HubPortRelease,
    /// Discover the hubs and refresh the list.
    HubDiscover,
}

/// Response from remote to master.
#[derive(Debug, Clone)]
pub struct Response {
    /// ID of the request this answers.
    pub id: String,
    /// The result.
    pub result: ResponseResult,
}

/// Outcome of a request: a result, or an error.
#[derive(Debug, Clone)]
pub enum ResponseResult {
    Success { result: serde_json::Value },
    Error { error: ErrorInfo },
}

/// Error information.
#[derive(Debug, Clone)]
pub struct ErrorInfo {
    pub code: i32,
    pub message: String,
    pub data: Option<serde_json::Value>,
}

/// Event notification.
#[derive(Debug, Clone)]
pub struct Event {
    /// Event type.
    pub event: EventType,
    /// Event data.
    pub data: serde_json::Value,
    /// When the event happened.
    pub timestamp: UtcTimestamp,
}

/// Event types.
#[derive(Debug, Clone, Copy, PartialEq, Eq, Structural)]
pub enum EventType {
    TestStarted,
    TestProgress,
    TestCompleted,
    TestFailed,
    Log,
    NetworkChanged,
    DeviceError,
    HubConnected,
    HubDisconnected,
    HubPortPowerChanged,
    HubDeviceConnected,
    HubDeviceDisconnected,
    HubReservationExpired,
}

impl Message {
    /// A request for `method` with `params`, under a fresh random ID.
    pub fn request(method: Method, params: serde_json::Value) -> (m: Message)
        ensures
            m matches Message::Request(r) && r.method == method && r.params == params
                && uuid_v4_text(r.id@),
    {
        Message::Request(Request { id: new_request_id(), method, params })
    }

    /// A successful response to request `id`.
    pub fn success(id: String, result: serde_json::Value) -> (m: Message)
        ensures
            m == Message::Response(
                Response { id, result: ResponseResult::Success { result } },
            ),
    {
        Message::Response(Response { id, result: ResponseResult::Success { result } })
    }

    /// An error response to request `id`, without data.
    pub fn error(id: String, code: i32, message: String) -> (m: Message)
        ensures
            m == Message::Response(
                Response {
                    id,
                    result: ResponseResult::Error { error: ErrorInfo { code, message, data: None } },
                },
            ),
    {
        Message::Response(
            Response {
                id,
                result: ResponseResult::Error { error: ErrorInfo { code, message, data: None } },
            },
        )
    }

    /// An event of type `event` with `data`, stamped with the current time.
    pub fn event(event: EventType, data: serde_json::Value) -> (m: Message)
        ensures
            m matches Message::Event(e) && e.event == event && e.data == data && exists|n: Instant|
                clock_reads(n) && e.timestamp == #[trigger] timestamp_of(n),
    {
        Message::Event(Event { event, data, timestamp: utc_now() })
    }
}

// Request parameter types

/// TestStart parameters.
#[derive(Debug, Clone)]
pub struct TestStartParams {
    /// Test suite name.
    pub suite: String,
    /// Test case name (all cases when absent).
    pub test_case: Option<String>,
    /// Test configuration.
    pub config: Option<serde_json::Value>,
    /// Timeout in seconds.
    pub timeout: Option<u64>,
}

/// TestAbort parameters.
#[derive(Debug, Clone)]
pub struct TestAbortParams {
    /// Test ID to abort.
    pub test_id: String,
    /// Reason for the abort.
    pub reason: Option<String>,
}

/// TestResults parameters.
#[derive(Debug, Clone)]
pub struct TestResultsParams {
    /// Test ID.
    pub test_id: String,
    /// Include detailed logs.
    pub include_logs: bool,
}

/// SetRole parameters.
#[derive(Debug, Clone, Copy)]
pub struct SetRoleParams {
    /// Device role.
    pub role: DeviceRole,
}

/// Role of a remote device.
#[derive(Debug, Clone, Copy, PartialEq, Eq, Structural)]
pub enum DeviceRole {
    /// Unit under test.
    Uut,
    /// Helper device.
    Slave,
}

/// HubStatus parameters.
#[derive(Debug, Clone)]
pub struct HubStatusParams {
    pub hub_id: String,
}

/// HubPortPowerOn parameters.
#[derive(Debug, Clone)]
pub struct HubPortPowerOnParams {
    pub hub_id: String,
    pub port: u8,
}

/// HubPortPowerOff parameters.
#[derive(Debug, Clone)]
pub struct HubPortPowerOffParams {
    pub hub_id: String,
    pub port: u8,
}

/// HubPortReserve parameters.
#[derive(Debug, Clone)]
pub struct HubPortReserveParams {
    pub hub_id: String,
    pub port: u8,
    /// Requesting device role.
    pub requester: HubDeviceRole,
    /// Reservation duration in seconds (for good when absent).
    pub duration_secs: Option<u64>,
    /// Also power on the port.
    pub power_on: bool,
}

/// HubPortRelease parameters.
#[derive(Debug, Clone)]
pub struct HubPortReleaseParams {
    pub hub_id: String,
    pub port: u8,
    /// Releasing device role.
    pub releaser: HubDeviceRole,
    /// Also power off the port.
    pub power_off: bool,
}

/// Role of a device that uses a hub (the master included).
#[derive(Debug, Clone, Copy, PartialEq, Eq, Hash, Structural)]
pub enum HubDeviceRole {
    Master,
    Uut,
    Slave,
}

// Response result types

/// TestStart result.
#[derive(Debug, Clone)]
pub struct TestStartResult {
    /// Assigned test ID.
    pub test_id: String,
    /// Test status.
    pub status: TestStatus,
}

/// Test status.
#[derive(Debug, Clone, Copy, PartialEq, Eq, Structural)]
pub enum TestStatus {
    Queued,
    Running,
    Passed,
    Failed,
    Aborted,
    Cancelled,
}

/// The record of a test, as TestResults reports it.
#[derive(Debug)]
pub struct TestResultsData {
    pub test_id: String,
    pub status: TestStatus,
    pub suite: String,
    pub test_case: Option<String>,
    pub start_time: UtcTimestamp,
    pub end_time: Option<UtcTimestamp>,
    /// Number of assertions passed.
    pub passed: u32,
    /// Number of assertions failed.
    pub failed: u32,
    /// Error message (if failed or aborted).
    pub error: Option<String>,
    /// Test logs.
    pub logs: Option<Vec<LogEntry>>,
}

/// Log entry.
#[derive(Debug)]
pub struct LogEntry {
    pub timestamp: UtcTimestamp,
    pub level: LogLevel,
    pub message: String,
}

/// The abstract value of a log entry.
pub struct LogEntryView {
    pub timestamp: UtcTimestamp,
    pub level: LogLevel,
    pub message: Seq<char>,
}

impl View for LogEntry {
    type V = LogEntryView;

    open spec fn view(&self) -> LogEntryView {
        LogEntryView { timestamp: self.timestamp, level: self.level, message: self.message@ }
    }
}

impl Clone for LogEntry {
    fn clone(&self) -> (r: Self)
        ensures
            r@ == self@,
    {
        LogEntry { timestamp: self.timestamp, level: self.level, message: self.message.clone() }
    }
}

/// The views of log entries.
pub open spec fn logs_view(logs: Seq<LogEntry>) -> Seq<LogEntryView> {
    logs.map_values(|e: LogEntry| e@)
}

/// The view of optional log entries.
pub open spec fn opt_logs(logs: Option<Vec<LogEntry>>) -> Option<Seq<LogEntryView>> {
    match logs {
        Some(v) => Some(logs_view(v@)),
        None => None,
    }
}

/// A copy of some log entries.
pub fn clone_logs(logs: &Vec<LogEntry>) -> (r: Vec<LogEntry>)
    ensures
        logs_view(r@) == logs_view(logs@),
{
    let mut r: Vec<LogEntry> = Vec::new();
    let mut i: usize = 0;
    while i < logs.len()
        invariant
            i <= logs.len(),
            logs_view(r@) == logs_view(logs@.take(i as int)),
        decreases logs.len() - i,
    {
        let ghost before = r@;
        r.push(logs[i].clone());
        assert(logs@.take(i + 1) == logs@.take(i as int).push(logs@[i as int]));
        assert(logs_view(r@) == logs_view(before).push(logs@[i as int]@));
        assert(logs_view(logs@.take(i + 1)) == logs_view(logs@.take(i as int)).push(
            logs@[i as int]@,
        ));
        i = i + 1;
    }
    assert(logs@.take(logs.len() as int) == logs@);
    r
}

/// The abstract value of a test record.
pub struct TestRecordView {
    pub test_id: Seq<char>,
    pub status: TestStatus,
    pub suite: Seq<char>,
    pub test_case: Option<Seq<char>>,
    pub start_time: UtcTimestamp,
    pub end_time: Option<UtcTimestamp>,
    pub passed: u32,
    pub failed: u32,
    pub error: Option<Seq<char>>,
    pub logs: Option<Seq<LogEntryView>>,
}

impl View for TestResultsData {
    type V = TestRecordView;

    open spec fn view(&self) -> TestRecordView {
        TestRecordView {
            test_id: self.test_id@,
            status: self.status,
            suite: self.suite@,
            test_case: opt_str(self.test_case),
            start_time: self.start_time,
            end_time: self.end_time,
            passed: self.passed,
            failed: self.failed,
            error: opt_str(self.error),
            logs: opt_logs(self.logs),
        }
    }
}

impl Clone for TestResultsData {
    fn clone(&self) -> (r: Self)
        ensures
            r@ == self@,
    {
        let logs = match &self.logs {
            Some(l) => Some(clone_logs(l)),
            None => None,
        };
        TestResultsData {
            test_id: self.test_id.clone(),
            status: self.status,
            suite: self.suite.clone(),
            test_case: clone_opt_str(&self.test_case),
            start_time: self.start_time,
            end_time: self.end_time,
            passed: self.passed,
            failed: self.failed,
            error: clone_opt_str(&self.error),
            logs,
        }
    }
}

/// Log level.
#[derive(Debug, Clone, Copy, PartialEq, Eq, Structural)]
pub enum LogLevel {
    Debug,
    Info,
    Warn,
    Error,
}

/// GetInfo result.
#[derive(Debug)]
pub struct DeviceInfo {
    pub hostname: String,
    pub role: DeviceRole,
    pub protocol_version: String,
    pub version: String,
    /// Uptime in seconds.
    pub uptime: u64,
    /// Available test suites.
    pub test_suites: Vec<String>,
}

/// USB hub information.
#[derive(Debug)]
pub struct HubInfo {
    pub id: String,
    pub vendor_id: String,
    pub product_id: String,
    pub location: String,
    pub name: Option<String>,
    pub ports: Vec<HubPortInfo>,
}

/// USB hub port information.
#[derive(Debug)]
pub struct HubPortInfo {
    pub port_number: u8,
    pub power_state: HubPortPowerState,
    pub connected_device: Option<String>,
    pub reservation: Option<HubPortReservationInfo>,
}

/// Hub port power state.
#[derive(Debug, Clone, Copy, PartialEq, Eq, Structural)]
pub enum HubPortPowerState {
    On,
    Off,
}

/// Hub port reservation information. Its instants are those the hub manager
/// records (nanoseconds since the UNIX epoch).
#[derive(Debug)]
pub struct HubPortReservationInfo {
    pub reserved_by: HubDeviceRole,
    pub reserved_at: Instant,
    pub expires_at: Option<Instant>,
    pub device_id: Option<String>,
}

/// HubList result.
#[derive(Debug)]
pub struct HubListResult {
    pub hubs: Vec<HubInfo>,
}

/// HubDiscover result.
#[derive(Debug)]
pub struct HubDiscoverResult {
    pub discovered: usize,
    pub hubs: Vec<HubInfo>,
}

} // verus!
