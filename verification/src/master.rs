//! The master (test coordinator): which request each command sends, how an
//! interactive line is read, and how the answer to a request is recognised.
//!
//! Encoding parameters as JSON, sending and receiving are left to the caller.
use vstd::prelude::*;

use crate::protocol::messages::{
    DeviceRole, ErrorInfo, HubDeviceRole, HubPortPowerOffParams, HubPortPowerOnParams,
    HubPortReleaseParams, HubPortReserveParams, HubStatusParams, Message, Method, Response,
    ResponseResult, SetRoleParams, TestAbortParams, TestResultsParams, TestStartParams,
};
use crate::text::{
    chars_eq, chars_of, joined, decimal, decimal_string, lowercases_to, lowercases_to_exec,
    parse_u8, parse_u8_exec, split_ws, split_ws_exec, string_from, trim, trim_exec,
};
use crate::usb_hub::types::opt_str;

verus! {

/// A request to send, with its parameters in typed form.
#[derive(Debug)]
pub enum RequestSpec {
    Ping,
    GetInfo,
    SetRole(SetRoleParams),
    TestStart(TestStartParams),
    TestResults(TestResultsParams),
    TestAbort(TestAbortParams),
    /// NetworkConfigure, with the addresses as given (to be parsed as IP addresses).
    NetworkConfigure { interface: String, ip: String, netmask: u8, gateway: Option<String> },
    NetworkStatus { interface: String },
    HubList,
    HubDiscover,
    HubStatus(HubStatusParams),
    HubPortPowerOn(HubPortPowerOnParams),
    HubPortPowerOff(HubPortPowerOffParams),
    HubPortReserve(HubPortReserveParams),
    HubPortRelease(HubPortReleaseParams),
}

/// The method of a request.
pub open spec fn method_of(r: RequestSpec) -> Method {
    match r {
        RequestSpec::Ping => Method::Ping,
        RequestSpec::GetInfo => Method::GetInfo,
        RequestSpec::SetRole(_) => Method::SetRole,
        RequestSpec::TestStart(_) => Method::TestStart,
        RequestSpec::TestResults(_) => Method::TestResults,
        RequestSpec::TestAbort(_) => Method::TestAbort,
        RequestSpec::NetworkConfigure { .. } => Method::NetworkConfigure,
        RequestSpec::NetworkStatus { .. } => Method::NetworkStatus,
        RequestSpec::HubList => Method::HubList,
        RequestSpec::HubDiscover => Method::HubDiscover,
        RequestSpec::HubStatus(_) => Method::HubStatus,
        RequestSpec::HubPortPowerOn(_) => Method::HubPortPowerOn,
        RequestSpec::HubPortPowerOff(_) => Method::HubPortPowerOff,
        RequestSpec::HubPortReserve(_) => Method::HubPortReserve,
        RequestSpec::HubPortRelease(_) => Method::HubPortRelease,
    }
}

impl RequestSpec {
    /// The method of the request.
    pub fn method(&self) -> (m: Method)
        ensures
            m == method_of(*self),
    {
        match self {
            RequestSpec::Ping => Method::Ping,
            RequestSpec::GetInfo => Method::GetInfo,
            RequestSpec::SetRole(_) => Method::SetRole,
            RequestSpec::TestStart(_) => Method::TestStart,
            RequestSpec::TestResults(_) => Method::TestResults,
            RequestSpec::TestAbort(_) => Method::TestAbort,
            RequestSpec::NetworkConfigure { .. } => Method::NetworkConfigure,
            RequestSpec::NetworkStatus { .. } => Method::NetworkStatus,
            RequestSpec::HubList => Method::HubList,
            RequestSpec::HubDiscover => Method::HubDiscover,
            RequestSpec::HubStatus(_) => Method::HubStatus,
            RequestSpec::HubPortPowerOn(_) => Method::HubPortPowerOn,
            RequestSpec::HubPortPowerOff(_) => Method::HubPortPowerOff,
            RequestSpec::HubPortReserve(_) => Method::HubPortReserve,
            RequestSpec::HubPortRelease(_) => Method::HubPortRelease,
        }
    }
}

// Roles named on the command line.

/// The hub role that `name` names, in any case.
pub open spec fn hub_role_named(name: Seq<char>) -> Option<HubDeviceRole> {
    if lowercases_to(name, seq!['m', 'a', 's', 't', 'e', 'r']) {
        Some(HubDeviceRole::Master)
    } else if lowercases_to(name, seq!['u', 'u', 't']) {
        Some(HubDeviceRole::Uut)
    } else if lowercases_to(name, seq!['s', 'l', 'a', 'v', 'e']) {
        Some(HubDeviceRole::Slave)
    } else {
        None
    }
}

/// The message for a name that is no hub role.
pub open spec fn hub_role_error(name: Seq<char>) -> Seq<char> {
    "Invalid role: "@ + name + ". Must be 'master', 'uut', or 'slave'"@
}

/// The hub role named `role` (`master`, `uut` or `slave`, in any case).
pub fn parse_hub_role(role: &str) -> (r: Result<HubDeviceRole, String>)
    ensures
        match hub_role_named(role@) {
            Some(h) => r == Ok::<HubDeviceRole, String>(h),
            None => r matches Err(m) && m@ == hub_role_error(role@),
        },
{
    let chars = chars_of(role);
    let master: Vec<char> = vec!['m', 'a', 's', 't', 'e', 'r'];
    let uut: Vec<char> = vec!['u', 'u', 't'];
    let slave: Vec<char> = vec!['s', 'l', 'a', 'v', 'e'];
    if lowercases_to_exec(chars.as_slice(), master.as_slice()) {
        Ok(HubDeviceRole::Master)
    } else if lowercases_to_exec(chars.as_slice(), uut.as_slice()) {
        Ok(HubDeviceRole::Uut)
    } else if lowercases_to_exec(chars.as_slice(), slave.as_slice()) {
        Ok(HubDeviceRole::Slave)
    } else {
        let a = joined("Invalid role: ", role);
        Err(joined(a.as_str(), ". Must be 'master', 'uut', or 'slave'"))
    }
}

/// The device role that `name` names, in any case.
pub open spec fn device_role_named(name: Seq<char>) -> Option<DeviceRole> {
    if lowercases_to(name, seq!['u', 'u', 't']) {
        Some(DeviceRole::Uut)
    } else if lowercases_to(name, seq!['s', 'l', 'a', 'v', 'e']) {
        Some(DeviceRole::Slave)
    } else {
        None
    }
}

/// The device role named `role` (`uut` or `slave`, in any case), for SetRole.
pub fn parse_set_role(role: &str) -> (r: Result<DeviceRole, String>)
    ensures
        match device_role_named(role@) {
            Some(d) => r == Ok::<DeviceRole, String>(d),
            None => r matches Err(m) && m@ == "Invalid role: "@ + role@
                + ". Must be 'uut' or 'slave'"@,
        },
{
    let chars = chars_of(role);
    let uut: Vec<char> = vec!['u', 'u', 't'];
    let slave: Vec<char> = vec!['s', 'l', 'a', 'v', 'e'];
    if lowercases_to_exec(chars.as_slice(), uut.as_slice()) {
        Ok(DeviceRole::Uut)
    } else if lowercases_to_exec(chars.as_slice(), slave.as_slice()) {
        Ok(DeviceRole::Slave)
    } else {
        let a = joined("Invalid role: ", role);
        Err(joined(a.as_str(), ". Must be 'uut' or 'slave'"))
    }
}

// Commands of the command line.

/// A hub command of the command line.
#[derive(Debug)]
pub enum HubCommand {
    List,
    Discover,
    Status { hub_id: String },
    PowerOn { hub_id: String, port: u8 },
    PowerOff { hub_id: String, port: u8 },
    Reserve { hub_id: String, port: u8, role: String, duration: Option<u64>, power_on: bool },
    Release { hub_id: String, port: u8, role: String, power_off: bool },
}

/// A command of the command line.
#[derive(Debug)]
pub enum Command {
    Ping,
    Info,
    SetRole { role: String },
    TestStart { suite: String, test_case: Option<String>, timeout: Option<u64> },
    TestResults { test_id: String, logs: bool },
    TestAbort { test_id: String, reason: Option<String> },
    NetworkConfigure { interface: String, ip: String, netmask: u8, gateway: Option<String> },
    NetworkStatus { interface: String },
    Hub(HubCommand),
    Interactive,
}

/// The request that a hub command sends, or why it sends none.
pub open spec fn hub_command_sends(c: HubCommand, r: Result<RequestSpec, String>) -> bool {
    match c {
        HubCommand::List => r matches Ok(RequestSpec::HubList),
        HubCommand::Discover => r matches Ok(RequestSpec::HubDiscover),
        HubCommand::Status { hub_id } => r matches Ok(RequestSpec::HubStatus(p)) && p.hub_id
            == hub_id,
        HubCommand::PowerOn { hub_id, port } => r matches Ok(RequestSpec::HubPortPowerOn(p))
            && p.hub_id == hub_id && p.port == port,
        HubCommand::PowerOff { hub_id, port } => r matches Ok(RequestSpec::HubPortPowerOff(p))
            && p.hub_id == hub_id && p.port == port,
        HubCommand::Reserve { hub_id, port, role, duration, power_on } => match hub_role_named(
            role@,
        ) {
            Some(h) => r matches Ok(RequestSpec::HubPortReserve(p)) && p.hub_id == hub_id && p.port
                == port && p.requester == h && p.duration_secs == duration && p.power_on
                == power_on,
            None => r matches Err(m) && m@ == hub_role_error(role@),
        },
        HubCommand::Release { hub_id, port, role, power_off } => match hub_role_named(role@) {
            Some(h) => r matches Ok(RequestSpec::HubPortRelease(p)) && p.hub_id == hub_id && p.port
                == port && p.releaser == h && p.power_off == power_off,
            None => r matches Err(m) && m@ == hub_role_error(role@),
        },
    }
}

/// The request that a hub command sends.
pub fn hub_command_request(cmd: HubCommand) -> (r: Result<RequestSpec, String>)
    ensures
        hub_command_sends(cmd, r),
{
    match cmd {
        HubCommand::List => Ok(RequestSpec::HubList),
        HubCommand::Discover => Ok(RequestSpec::HubDiscover),
        HubCommand::Status { hub_id } => Ok(RequestSpec::HubStatus(HubStatusParams { hub_id })),
        HubCommand::PowerOn { hub_id, port } => Ok(
            RequestSpec::HubPortPowerOn(HubPortPowerOnParams { hub_id, port }),
        ),
        HubCommand::PowerOff { hub_id, port } => Ok(
            RequestSpec::HubPortPowerOff(HubPortPowerOffParams { hub_id, port }),
        ),
        HubCommand::Reserve { hub_id, port, role, duration, power_on } => {
            let requester = parse_hub_role(role.as_str())?;
            Ok(
                RequestSpec::HubPortReserve(
                    HubPortReserveParams {
                        hub_id,
                        port,
                        requester,
                        duration_secs: duration,
                        power_on,
                    },
                ),
            )
        },
        HubCommand::Release { hub_id, port, role, power_off } => {
            let releaser = parse_hub_role(role.as_str())?;
            Ok(
                RequestSpec::HubPortRelease(
                    HubPortReleaseParams { hub_id, port, releaser, power_off },
                ),
            )
        },
    }
}

/// The request that a command sends (`None` for the interactive session), or why
/// it sends none.
pub open spec fn command_sends(c: Command, r: Result<Option<RequestSpec>, String>) -> bool {
    match c {
        Command::Ping => r matches Ok(Some(RequestSpec::Ping)),
        Command::Info => r matches Ok(Some(RequestSpec::GetInfo)),
        Command::SetRole { role } => match device_role_named(role@) {
            Some(d) => r matches Ok(Some(RequestSpec::SetRole(p))) && p.role == d,
            None => r matches Err(m) && m@ == "Invalid role: "@ + role@
                + ". Must be 'uut' or 'slave'"@,
        },
        Command::TestStart { suite, test_case, timeout } => r matches Ok(
            Some(RequestSpec::TestStart(p)),
        ) && p.suite == suite && p.test_case == test_case && p.config is None && p.timeout
            == timeout,
        Command::TestResults { test_id, logs } => r matches Ok(Some(RequestSpec::TestResults(p)))
            && p.test_id == test_id && p.include_logs == logs,
        Command::TestAbort { test_id, reason } => r matches Ok(Some(RequestSpec::TestAbort(p)))
            && p.test_id == test_id && p.reason == reason,
        Command::NetworkConfigure { interface, ip, netmask, gateway } => r matches Ok(
            Some(RequestSpec::NetworkConfigure { interface: i, ip: a, netmask: m, gateway: g }),
        ) && i == interface && a == ip && m == netmask && g == gateway,
        Command::NetworkStatus { interface } => r matches Ok(
            Some(RequestSpec::NetworkStatus { interface: i }),
        ) && i == interface,
        Command::Hub(h) => match r {
            Ok(Some(q)) => hub_command_sends(h, Ok(q)),
            Ok(None) => false,
            Err(m) => hub_command_sends(h, Err(m)),
        },
        Command::Interactive => r matches Ok(None),
    }
}

/// The request that a command sends (`None` for the interactive session).
pub fn command_request(cmd: Command) -> (r: Result<Option<RequestSpec>, String>)
    ensures
        command_sends(cmd, r),
{
    match cmd {
        Command::Ping => Ok(Some(RequestSpec::Ping)),
        Command::Info => Ok(Some(RequestSpec::GetInfo)),
        Command::SetRole { role } => {
            let role = parse_set_role(role.as_str())?;
            Ok(Some(RequestSpec::SetRole(SetRoleParams { role })))
        },
        Command::TestStart { suite, test_case, timeout } => Ok(
            Some(RequestSpec::TestStart(TestStartParams { suite, test_case, config: None, timeout })),
        ),
        Command::TestResults { test_id, logs } => Ok(
            Some(RequestSpec::TestResults(TestResultsParams { test_id, include_logs: logs })),
        ),
        Command::TestAbort { test_id, reason } => Ok(
            Some(RequestSpec::TestAbort(TestAbortParams { test_id, reason })),
        ),
        Command::NetworkConfigure { interface, ip, netmask, gateway } => Ok(
            Some(RequestSpec::NetworkConfigure { interface, ip, netmask, gateway }),
        ),
        Command::NetworkStatus { interface } => Ok(Some(RequestSpec::NetworkStatus { interface })),
        Command::Hub(h) => {
            let q = hub_command_request(h)?;
            Ok(Some(q))
        },
        Command::Interactive => Ok(None),
    }
}

// Waiting for the answer to a request.

/// The ID of a request message.
pub fn request_id_of(msg: &Message) -> (r: Result<String, String>)
    ensures
        match msg {
            Message::Request(q) => r == Ok::<String, String>(q.id),
            _ => r matches Err(m) && m@ == "Expected request message"@,
        },
{
    match msg {
        Message::Request(q) => Ok(q.id.clone()),
        _ => Err(String::from_str("Expected request message")),
    }
}

/// What a message received while waiting for the answer to a request is.
#[derive(Debug)]
pub enum WaitStep {
    /// The answer.
    Answer(Response),
    /// An event, to be shown.
    Show(crate::protocol::messages::Event),
    /// Anything else, to be passed over.
    Skip,
}

/// Sorts a message received while waiting for the answer to request `request_id`:
/// the response with that ID ends the wait, events are shown, the rest is passed over.
pub fn wait_step(request_id: &String, msg: Message) -> (r: WaitStep)
    ensures
        match msg {
            Message::Response(resp) => if resp.id@ == request_id@ {
                r == WaitStep::Answer(resp)
            } else {
                r is Skip
            },
            Message::Event(e) => r == WaitStep::Show(e),
            Message::Request(_) => r is Skip,
        },
{
    match msg {
        Message::Response(resp) => {
            if resp.id == *request_id {
                WaitStep::Answer(resp)
            } else {
                WaitStep::Skip
            }
        },
        Message::Event(e) => WaitStep::Show(e),
        Message::Request(_) => WaitStep::Skip,
    }
}

/// The decimal representation of a signed number.
pub open spec fn signed_decimal(n: int) -> Seq<char> {
    if n < 0 {
        seq!['-'] + decimal((-n) as nat)
    } else {
        decimal(n as nat)
    }
}

/// The decimal representation of `n`.
pub fn signed_decimal_string(n: i32) -> (s: String)
    ensures
        s@ == signed_decimal(n as int),
{
    if n < 0 {
        let m = (-(n as i64)) as u64;
        let d = decimal_string(m);
        let s = joined("-", d.as_str());
        proof {
            reveal_strlit("-");
        }
        s
    } else {
        decimal_string(n as u64)
    }
}

/// The outcome of an answer: its result, or the error it reports as
/// `Error <code>: <message>`.
pub fn response_outcome(resp: Response) -> (r: Result<serde_json::Value, String>)
    ensures
        match resp.result {
            ResponseResult::Success { result } => r == Ok::<serde_json::Value, String>(result),
            ResponseResult::Error { error } => r matches Err(m) && m@ == "Error "@
                + signed_decimal(error.code as int) + ": "@ + error.message@,
        },
{
    match resp.result {
        ResponseResult::Success { result } => Ok(result),
        ResponseResult::Error { error } => {
            let code = signed_decimal_string(error.code);
            let a = joined("Error ", code.as_str());
            let b = joined(a.as_str(), ": ");
            Err(joined(b.as_str(), error.message.as_str()))
        },
    }
}

// The interactive session.

/// What a line typed in the interactive session asks for.
#[derive(Debug)]
pub enum InteractiveAction {
    /// End the session.
    Quit,
    /// Nothing (an empty line).
    Skip,
    /// Send a request and show its answer.
    Send(RequestSpec),
    /// Show a message.
    Print(String),
}

/// The action is to show `msg`.
pub open spec fn prints(a: InteractiveAction, msg: Seq<char>) -> bool {
    a matches InteractiveAction::Print(m) && m@ == msg
}

/// What a `hub ...` line asks for, given its words.
pub open spec fn hub_line_means(t: Seq<Seq<char>>, a: InteractiveAction) -> bool {
    if t.len() < 2 {
        prints(a, "Usage: hub <list|discover|status|on|off|reserve|release>"@)
    } else {
        let sub = t[1];
        if sub == seq!['l', 'i', 's', 't'] {
            a matches InteractiveAction::Send(RequestSpec::HubList)
        } else if sub == seq!['d', 'i', 's', 'c', 'o', 'v', 'e', 'r'] {
            a matches InteractiveAction::Send(RequestSpec::HubDiscover)
        } else if sub == seq!['s', 't', 'a', 't', 'u', 's'] {
            if t.len() < 3 {
                prints(a, "Usage: hub status <hub_id>"@)
            } else {
                a matches InteractiveAction::Send(RequestSpec::HubStatus(p)) && p.hub_id@ == t[2]
            }
        } else if sub == seq!['o', 'n'] {
            if t.len() < 4 {
                prints(a, "Usage: hub on <hub_id> <port>"@)
            } else {
                match parse_u8(t[3]) {
                    None => prints(a, "Invalid port number"@),
                    Some(n) => a matches InteractiveAction::Send(RequestSpec::HubPortPowerOn(p))
                        && p.hub_id@ == t[2] && p.port == n,
                }
            }
        } else if sub == seq!['o', 'f', 'f'] {
            if t.len() < 4 {
                prints(a, "Usage: hub off <hub_id> <port>"@)
            } else {
                match parse_u8(t[3]) {
                    None => prints(a, "Invalid port number"@),
                    Some(n) => a matches InteractiveAction::Send(RequestSpec::HubPortPowerOff(p))
                        && p.hub_id@ == t[2] && p.port == n,
                }
            }
        } else if sub == seq!['r', 'e', 's', 'e', 'r', 'v', 'e'] {
            if t.len() < 4 {
                prints(a, "Usage: hub reserve <hub_id> <port> [role]"@)
            } else {
                let role = if t.len() > 4 {
                    t[4]
                } else {
                    seq!['m', 'a', 's', 't', 'e', 'r']
                };
                match parse_u8(t[3]) {
                    None => prints(a, "Invalid port number"@),
                    Some(n) => match hub_role_named(role) {
                        None => prints(a, "Invalid role: "@ + hub_role_error(role)),
                        Some(h) => a matches InteractiveAction::Send(
                            RequestSpec::HubPortReserve(p),
                        ) && p.hub_id@ == t[2] && p.port == n && p.requester == h
                            && p.duration_secs is None && !p.power_on,
                    },
                }
            }
        } else if sub == seq!['r', 'e', 'l', 'e', 'a', 's', 'e'] {
            if t.len() < 4 {
                prints(a, "Usage: hub release <hub_id> <port> [role]"@)
            } else {
                let role = if t.len() > 4 {
                    t[4]
                } else {
                    seq!['m', 'a', 's', 't', 'e', 'r']
                };
                match parse_u8(t[3]) {
                    None => prints(a, "Invalid port number"@),
                    Some(n) => match hub_role_named(role) {
                        None => prints(a, "Invalid role: "@ + hub_role_error(role)),
                        Some(h) => a matches InteractiveAction::Send(
                            RequestSpec::HubPortRelease(p),
                        ) && p.hub_id@ == t[2] && p.port == n && p.releaser == h && !p.power_off,
                    },
                }
            }
        } else {
            prints(a, "Unknown hub command: "@ + sub)
        }
    }
}

/// What a line of the interactive session asks for, given its words.
pub open spec fn line_means(t: Seq<Seq<char>>, a: InteractiveAction) -> bool {
    if t.len() == 0 {
        a is Skip
    } else {
        let cmd = t[0];
        if cmd == seq!['q', 'u', 'i', 't'] || cmd == seq!['e', 'x', 'i', 't'] {
            a is Quit
        } else if cmd == seq!['p', 'i', 'n', 'g'] {
            a matches InteractiveAction::Send(RequestSpec::Ping)
        } else if cmd == seq!['i', 'n', 'f', 'o'] {
            a matches InteractiveAction::Send(RequestSpec::GetInfo)
        } else if cmd == seq!['s', 't', 'a', 'r', 't'] {
            if t.len() < 2 {
                prints(a, "Usage: start <suite>"@)
            } else {
                a matches InteractiveAction::Send(RequestSpec::TestStart(p)) && p.suite@ == t[1]
                    && p.test_case is None && p.config is None && p.timeout is None
            }
        } else if cmd == seq!['r', 'e', 's', 'u', 'l', 't', 's'] {
            if t.len() < 2 {
                prints(a, "Usage: results <test_id>"@)
            } else {
                a matches InteractiveAction::Send(RequestSpec::TestResults(p)) && p.test_id@ == t[1]
                    && p.include_logs
            }
        } else if cmd == seq!['a', 'b', 'o', 'r', 't'] {
            if t.len() < 2 {
                prints(a, "Usage: abort <test_id>"@)
            } else {
                a matches InteractiveAction::Send(RequestSpec::TestAbort(p)) && p.test_id@ == t[1]
                    && opt_str(p.reason) == Some("User requested"@)
            }
        } else if cmd == seq!['n', 'e', 't', 'w', 'o', 'r', 'k'] {
            a matches InteractiveAction::Send(RequestSpec::NetworkStatus { interface: i }) && i@
                == if t.len() >= 2 {
                t[1]
            } else {
                "usb0"@
            }
        } else if cmd == seq!['h', 'u', 'b'] {
            hub_line_means(t, a)
        } else {
            prints(a, "Unknown command: "@ + cmd)
        }
    }
}

/// The words of a line of the interactive session.
pub open spec fn line_words(line: Seq<char>) -> Seq<Seq<char>> {
    split_ws(trim(line))
}

fn is_word(t: &Vec<char>, w: Vec<char>) -> (b: bool)
    ensures
        b == (t@ == w@),
{
    chars_eq(t.as_slice(), w.as_slice())
}

fn text(v: &Vec<char>) -> (s: String)
    ensures
        s@ == v@,
{
    string_from(v.as_slice())
}

fn print(msg: &str) -> (a: InteractiveAction)
    ensures
        prints(a, msg@),
{
    InteractiveAction::Print(String::from_str(msg))
}

fn hub_line_action(t: &Vec<Vec<char>>) -> (a: InteractiveAction)
    requires
        t@.len() >= 1,
    ensures
        hub_line_means(t@.map_values(|w: Vec<char>| w@), a),
{
    let ghost tv = t@.map_values(|w: Vec<char>| w@);
    if t.len() < 2 {
        return print("Usage: hub <list|discover|status|on|off|reserve|release>");
    }
    let sub = &t[1];
    assert(tv[1] == sub@);
    if is_word(sub, vec!['l', 'i', 's', 't']) {
        InteractiveAction::Send(RequestSpec::HubList)
    } else if is_word(sub, vec!['d', 'i', 's', 'c', 'o', 'v', 'e', 'r']) {
        InteractiveAction::Send(RequestSpec::HubDiscover)
    } else if is_word(sub, vec!['s', 't', 'a', 't', 'u', 's']) {
        if t.len() < 3 {
            print("Usage: hub status <hub_id>")
        } else {
            assert(tv[2] == t@[2]@);
            InteractiveAction::Send(RequestSpec::HubStatus(HubStatusParams { hub_id: text(&t[2]) }))
        }
    } else if is_word(sub, vec!['o', 'n']) || is_word(sub, vec!['o', 'f', 'f']) {
        let on = is_word(sub, vec!['o', 'n']);
        if t.len() < 4 {
            if on {
                print("Usage: hub on <hub_id> <port>")
            } else {
                print("Usage: hub off <hub_id> <port>")
            }
        } else {
            assert(tv[2] == t@[2]@);
            assert(tv[3] == t@[3]@);
            match parse_u8_exec(t[3].as_slice()) {
                None => print("Invalid port number"),
                Some(port) => {
                    let hub_id = text(&t[2]);
                    if on {
                        InteractiveAction::Send(
                            RequestSpec::HubPortPowerOn(HubPortPowerOnParams { hub_id, port }),
                        )
                    } else {
                        InteractiveAction::Send(
                            RequestSpec::HubPortPowerOff(HubPortPowerOffParams { hub_id, port }),
                        )
                    }
                },
            }
        }
    } else if is_word(sub, vec!['r', 'e', 's', 'e', 'r', 'v', 'e']) || is_word(
        sub,
        vec!['r', 'e', 'l', 'e', 'a', 's', 'e'],
    ) {
        let reserve = is_word(sub, vec!['r', 'e', 's', 'e', 'r', 'v', 'e']);
        if t.len() < 4 {
            if reserve {
                print("Usage: hub reserve <hub_id> <port> [role]")
            } else {
                print("Usage: hub release <hub_id> <port> [role]")
            }
        } else {
            assert(tv[2] == t@[2]@);
            assert(tv[3] == t@[3]@);
            let role: Vec<char> = if t.len() > 4 {
                assert(tv[4] == t@[4]@);
                t[4].clone()
            } else {
                vec!['m', 'a', 's', 't', 'e', 'r']
            };
            match parse_u8_exec(t[3].as_slice()) {
                None => print("Invalid port number"),
                Some(port) => {
                    let role_text = text(&role);
                    match parse_hub_role(role_text.as_str()) {
                        Err(e) => InteractiveAction::Print(joined("Invalid role: ", e.as_str())),
                        Ok(h) => {
                            let hub_id = text(&t[2]);
                            if reserve {
                                InteractiveAction::Send(
                                    RequestSpec::HubPortReserve(
                                        HubPortReserveParams {
                                            hub_id,
                                            port,
                                            requester: h,
                                            duration_secs: None,
                                            power_on: false,
                                        },
                                    ),
                                )
                            } else {
                                InteractiveAction::Send(
                                    RequestSpec::HubPortRelease(
                                        HubPortReleaseParams {
                                            hub_id,
                                            port,
                                            releaser: h,
                                            power_off: false,
                                        },
                                    ),
                                )
                            }
                        },
                    }
                },
            }
        }
    } else {
        let name = text(sub);
        InteractiveAction::Print(joined("Unknown hub command: ", name.as_str()))
    }
}

/// What a line typed in the interactive session asks for.
pub fn interactive_action(line: &str) -> (a: InteractiveAction)
    ensures
        line_means(line_words(line@), a),
{
    let chars = chars_of(line);
    let trimmed = trim_exec(chars.as_slice());
    let t = split_ws_exec(trimmed.as_slice());
    let ghost tv = t@.map_values(|w: Vec<char>| w@);
    assert(tv == line_words(line@));
    if t.len() == 0 {
        return InteractiveAction::Skip;
    }
    let cmd = &t[0];
    assert(tv[0] == cmd@);
    if is_word(cmd, vec!['q', 'u', 'i', 't']) || is_word(cmd, vec!['e', 'x', 'i', 't']) {
        InteractiveAction::Quit
    } else if is_word(cmd, vec!['p', 'i', 'n', 'g']) {
        InteractiveAction::Send(RequestSpec::Ping)
    } else if is_word(cmd, vec!['i', 'n', 'f', 'o']) {
        InteractiveAction::Send(RequestSpec::GetInfo)
    } else if is_word(cmd, vec!['s', 't', 'a', 'r', 't']) {
        if t.len() < 2 {
            print("Usage: start <suite>")
        } else {
            assert(tv[1] == t@[1]@);
            InteractiveAction::Send(
                RequestSpec::TestStart(
                    TestStartParams { suite: text(&t[1]), test_case: None, config: None, timeout: None },
                ),
            )
        }
    } else if is_word(cmd, vec!['r', 'e', 's', 'u', 'l', 't', 's']) {
        if t.len() < 2 {
            print("Usage: results <test_id>")
        } else {
            assert(tv[1] == t@[1]@);
            InteractiveAction::Send(
                RequestSpec::TestResults(TestResultsParams { test_id: text(&t[1]), include_logs: true }),
            )
        }
    } else if is_word(cmd, vec!['a', 'b', 'o', 'r', 't']) {
        if t.len() < 2 {
            print("Usage: abort <test_id>")
        } else {
            assert(tv[1] == t@[1]@);
            InteractiveAction::Send(
                RequestSpec::TestAbort(
                    TestAbortParams {
                        test_id: text(&t[1]),
                        reason: Some(String::from_str("User requested")),
                    },
                ),
            )
        }
    } else if is_word(cmd, vec!['n', 'e', 't', 'w', 'o', 'r', 'k']) {
        let interface = if t.len() >= 2 {
            assert(tv[1] == t@[1]@);
            text(&t[1])
        } else {
            String::from_str("usb0")
        };
        InteractiveAction::Send(RequestSpec::NetworkStatus { interface })
    } else if is_word(cmd, vec!['h', 'u', 'b']) {
        hub_line_action(&t)
    } else {
        let name = text(cmd);
        InteractiveAction::Print(joined("Unknown command: ", name.as_str()))
    }
}

} // verus!
