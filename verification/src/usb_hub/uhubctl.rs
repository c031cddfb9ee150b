//! The `uhubctl` command-line tool: the invocations the library makes of it, how
//! their outcome is read, and the parser of its hub listing.
//!
//! Running a command is left to the caller: it hands back a `CommandOutcome`.
use vstd::prelude::*;

use super::types::{hubs_view, ports_view, PowerState, UsbHub, UsbHubView, UsbPort, UsbPortView};
use crate::command::{args_view, text_arg, CommandLine, CommandOutcome, CommandOutput};
use crate::text::{
    between, between_exec, chars_of, joined, contains, contains_exec, decimal, decimal_string,
    find, find_exec, lemma_find_spec, lines, lines_exec, parse_u8, parse_u8_exec, starts_with,
    starts_with_exec, string_from, sub_chars, trim, trim_exec,
};
use vstd::string::StringExecFns;

verus! {

/// An error of the `uhubctl` tool.
#[derive(Debug)]
pub enum UhubctlError {
    CommandFailed(String),
    ParseError(String),
    NotFound(String),
}

impl UhubctlError {
    /// The message of the error, as it is displayed.
    pub fn to_string(&self) -> (s: String)
        ensures
            s@ == uhubctl_error_text(*self),
    {
        match self {
            UhubctlError::CommandFailed(m) => joined("Command failed: ", m.as_str()),
            UhubctlError::ParseError(m) => joined("Parse error: ", m.as_str()),
            UhubctlError::NotFound(m) => joined("Not found: ", m.as_str()),
        }
    }
}

/// The abstract value of a `uhubctl` error.
pub enum UhubctlErrorView {
    CommandFailed(Seq<char>),
    ParseError(Seq<char>),
    NotFound(Seq<char>),
}

impl View for UhubctlError {
    type V = UhubctlErrorView;

    open spec fn view(&self) -> UhubctlErrorView {
        match self {
            UhubctlError::CommandFailed(m) => UhubctlErrorView::CommandFailed(m@),
            UhubctlError::ParseError(m) => UhubctlErrorView::ParseError(m@),
            UhubctlError::NotFound(m) => UhubctlErrorView::NotFound(m@),
        }
    }
}

/// The displayed message of a `uhubctl` error.
pub open spec fn uhubctl_error_text(e: UhubctlError) -> Seq<char> {
    match e {
        UhubctlError::CommandFailed(m) => "Command failed: "@ + m@,
        UhubctlError::ParseError(m) => "Parse error: "@ + m@,
        UhubctlError::NotFound(m) => "Not found: "@ + m@,
    }
}

/// The error for a command that could not be run, or that did not succeed.
pub open spec fn failure_of(outcome: CommandOutcome) -> Option<Seq<char>> {
    match outcome {
        Err(e) => Some("Failed to execute uhubctl: "@ + e@),
        Ok(out) => if out.success {
            None
        } else {
            Some(out.stderr@)
        },
    }
}

/// The arguments that set the power of `port` of the hub at `location`.
pub open spec fn power_args(location: Seq<char>, port: u8, on: bool) -> Seq<Seq<char>> {
    seq![
        seq!['-', 'l'],
        location,
        seq!['-', 'p'],
        decimal(port as nat),
        seq!['-', 'a'],
        if on {
            seq!['1']
        } else {
            seq!['0']
        },
    ]
}

/// Wrapper for the `uhubctl` command-line tool.
#[derive(Debug)]
pub struct Uhubctl {
    pub uhubctl_path: String,
}

/// The program name used when no path is given.
pub open spec fn default_program() -> Seq<char> {
    seq!['u', 'h', 'u', 'b', 'c', 't', 'l']
}

fn default_program_exec() -> (s: String)
    ensures
        s@ == default_program(),
{
    let v: Vec<char> = vec!['u', 'h', 'u', 'b', 'c', 't', 'l'];
    string_from(v.as_slice())
}

/// The first line of a `uhubctl` hub report.
pub open spec fn header_prefix() -> Seq<char> {
    seq![
        'C', 'u', 'r', 'r', 'e', 'n', 't', ' ', 's', 't', 'a', 't', 'u', 's', ' ', 'f', 'o',
        'r', ' ', 'h', 'u', 'b',
    ]
}

/// Marks a port line.
pub open spec fn port_marker() -> Seq<char> {
    seq!['P', 'o', 'r', 't', ' ']
}

/// Marks a powered port.
pub open spec fn power_marker() -> Seq<char> {
    seq!['p', 'o', 'w', 'e', 'r']
}

/// The hub that a header line announces, without ports: its location stands
/// between `"hub "` and `" ["`, its `vendor:product` ids between `"["` and the
/// next space, and they must hold exactly one `':'`.
pub open spec fn header_hub(line: Seq<char>) -> Option<UsbHubView> {
    match between(line, seq!['h', 'u', 'b', ' '], seq![' ', '[']) {
        None => None,
        Some(location) => match between(line, seq!['['], seq![' ']) {
            None => None,
            Some(ids) => match find(ids, seq![':']) {
                None => None,
                Some(k) => if contains(ids.skip(k + 1), seq![':']) {
                    None
                } else {
                    Some(
                        UsbHubView {
                            id: ids.take(k) + seq![':'] + ids.skip(k + 1),
                            vendor_id: ids.take(k),
                            product_id: ids.skip(k + 1),
                            location,
                            name: None,
                            ports: Seq::empty(),
                        },
                    )
                },
            },
        },
    }
}

/// The port that a port line describes: its number stands between `"Port "` and
/// the next `':'`, and the port is powered when the line mentions `"power"`.
pub open spec fn port_entry(line: Seq<char>) -> Option<UsbPortView> {
    match between(line, port_marker(), seq![':']) {
        None => None,
        Some(num) => match parse_u8(trim(num)) {
            None => None,
            Some(n) => Some(
                UsbPortView {
                    port_number: n,
                    power_state: if contains(line, power_marker()) {
                        PowerState::On
                    } else {
                        PowerState::Off
                    },
                    connected_device: None,
                    reservation: None,
                },
            ),
        },
    }
}

/// Where the parser stands after some lines: the hubs completed, the hub being
/// read, and the ports read since the last hub was completed.
pub struct ParseState {
    pub hubs: Seq<UsbHubView>,
    pub current: Option<UsbHubView>,
    pub ports: Seq<UsbPortView>,
}

/// `h` with the ports `ports`.
pub open spec fn with_ports(h: UsbHubView, ports: Seq<UsbPortView>) -> UsbHubView {
    UsbHubView { ports, ..h }
}

/// The parser after one more line. A header line completes the hub being read,
/// if any, with the ports read so far, and starts the hub it announces (none if
/// it is malformed). A port line adds its port. Other lines change nothing.
pub open spec fn parse_step(st: ParseState, raw: Seq<char>) -> ParseState {
    let line = trim(raw);
    if starts_with(line, header_prefix()) {
        let closed = match st.current {
            Some(h) => ParseState {
                hubs: st.hubs.push(with_ports(h, st.ports)),
                current: None,
                ports: Seq::empty(),
            },
            None => st,
        };
        ParseState { current: header_hub(line), ..closed }
    } else if contains(line, port_marker()) {
        match port_entry(line) {
            Some(p) => ParseState { ports: st.ports.push(p), ..st },
            None => st,
        }
    } else {
        st
    }
}

/// The parser after the lines `ls`.
pub open spec fn parse_lines(ls: Seq<Seq<char>>) -> ParseState
    decreases ls.len(),
{
    if ls.len() == 0 {
        ParseState { hubs: Seq::empty(), current: None, ports: Seq::empty() }
    } else {
        parse_step(parse_lines(ls.drop_last()), ls.last())
    }
}

/// The hubs read once all lines are seen: the hub being read is completed.
pub open spec fn finish(st: ParseState) -> Seq<UsbHubView> {
    match st.current {
        Some(h) => st.hubs.push(with_ports(h, st.ports)),
        None => st.hubs,
    }
}

/// The hubs that a `uhubctl` report lists.
pub open spec fn hub_list(output: Seq<char>) -> Seq<UsbHubView> {
    finish(parse_lines(lines(output)))
}

/// The view of an optional hub.
pub open spec fn opt_hub(o: Option<UsbHub>) -> Option<UsbHubView> {
    match o {
        Some(h) => Some(h@),
        None => None,
    }
}

/// The interpretation of a finished command: success, or the failure it reports.
pub fn command_status(outcome: CommandOutcome) -> (r: Result<CommandOutput, UhubctlError>)
    ensures
        match failure_of(outcome) {
            Some(msg) => r matches Err(UhubctlError::CommandFailed(m)) && m@ == msg,
            None => r matches Ok(out) && outcome == Ok::<CommandOutput, String>(out),
        },
{
    match outcome {
        Err(e) => Err(UhubctlError::CommandFailed(joined("Failed to execute uhubctl: ", e.as_str()))),
        Ok(out) => {
            if out.success {
                Ok(out)
            } else {
                Err(UhubctlError::CommandFailed(out.stderr))
            }
        },
    }
}

fn header_hub_exec(line: &[char]) -> (r: Option<UsbHub>)
    ensures
        opt_hub(r) == header_hub(line@),
        r matches Some(h) ==> h.ports@.len() == 0,
{
    let hub_pat: Vec<char> = vec!['h', 'u', 'b', ' '];
    let loc_end: Vec<char> = vec![' ', '['];
    let open_pat: Vec<char> = vec!['['];
    let space: Vec<char> = vec![' '];
    let colon: Vec<char> = vec![':'];
    assert(hub_pat@ == seq!['h', 'u', 'b', ' ']);
    assert(loc_end@ == seq![' ', '[']);
    assert(open_pat@ == seq!['[']);
    assert(space@ == seq![' ']);
    assert(colon@ == seq![':']);
    match between_exec(line, hub_pat.as_slice(), loc_end.as_slice()) {
        None => None,
        Some(location) => match between_exec(line, open_pat.as_slice(), space.as_slice()) {
            None => None,
            Some(ids) => {
                proof {
                    lemma_find_spec(ids@, colon@);
                }
                match find_exec(ids.as_slice(), colon.as_slice()) {
                    None => None,
                    Some(k) => {
                        assert(find(ids@, colon@) == Some(k as int));
                        let ids_len = ids.len();
                        assert(k + 1 <= ids_len);
                        let product = sub_chars(ids.as_slice(), k + 1, ids_len);
                        let vendor = sub_chars(ids.as_slice(), 0, k);
                        if contains_exec(product.as_slice(), colon.as_slice()) {
                            None
                        } else {
                            let vendor_id = string_from(vendor.as_slice());
                            let product_id = string_from(product.as_slice());
                            let head = joined(vendor_id.as_str(), ":");
                            let id = joined(head.as_str(), product_id.as_str());
                            proof {
                                reveal_strlit(":");
                                assert(vendor@ == ids@.take(k as int));
                                assert(product@ == ids@.skip(k + 1));
                            }
                            let hub = UsbHub {
                                id,
                                vendor_id,
                                product_id,
                                location: string_from(location.as_slice()),
                                name: None,
                                ports: Vec::new(),
                            };
                            assert(ports_view(hub.ports@) == Seq::<UsbPortView>::empty());
                            assert(between(line@, seq!['h', 'u', 'b', ' '], seq![' ', '[']) == Some(location@));
                            assert(between(line@, seq!['['], seq![' ']) == Some(ids@));
                            assert(find(ids@, seq![':']) == Some(k as int));
                            assert(!contains(ids@.skip(k + 1), seq![':']));
                            assert(hub@.id == ids@.take(k as int) + seq![':'] + ids@.skip(k + 1));
                            assert(hub@.location == location@);
                            Some(hub)
                        }
                    },
                }
            },
        },
    }
}

fn port_entry_exec(line: &[char]) -> (r: Option<UsbPort>)
    ensures
        match r {
            Some(p) => port_entry(line@) == Some(p@),
            None => port_entry(line@) is None,
        },
{
    let marker: Vec<char> = vec!['P', 'o', 'r', 't', ' '];
    let colon: Vec<char> = vec![':'];
    let power: Vec<char> = vec!['p', 'o', 'w', 'e', 'r'];
    assert(marker@ == port_marker());
    assert(colon@ == seq![':']);
    assert(power@ == power_marker());
    match between_exec(line, marker.as_slice(), colon.as_slice()) {
        None => None,
        Some(num) => {
            let t = trim_exec(num.as_slice());
            match parse_u8_exec(t.as_slice()) {
                None => None,
                Some(n) => {
                    let power_state = if contains_exec(line, power.as_slice()) {
                        PowerState::On
                    } else {
                        PowerState::Off
                    };
                    Some(UsbPort { port_number: n, power_state, connected_device: None, reservation: None })
                },
            }
        },
    }
}

impl Uhubctl {
    /// The tool at `uhubctl_path`, or `uhubctl` found on the search path.
    pub fn new(uhubctl_path: Option<String>) -> (r: Self)
        ensures
            r.uhubctl_path@ == match uhubctl_path {
                Some(p) => p@,
                None => default_program(),
            },
    {
        match uhubctl_path {
            Some(p) => Uhubctl { uhubctl_path: p },
            None => Uhubctl { uhubctl_path: default_program_exec() },
        }
    }

    /// The tool `uhubctl` found on the search path.
    pub fn default() -> (r: Self)
        ensures
            r.uhubctl_path@ == default_program(),
    {
        Uhubctl { uhubctl_path: default_program_exec() }
    }

    /// The invocation that lists all hubs: the tool without arguments.
    pub fn list_hubs_command(&self) -> (c: CommandLine)
        ensures
            c.program@ == self.uhubctl_path@,
            c.args@.len() == 0,
    {
        CommandLine { program: self.uhubctl_path.clone(), args: Vec::new() }
    }

    /// The hubs listed by a run of the list command.
    pub fn list_hubs(&self, outcome: CommandOutcome) -> (r: Result<Vec<UsbHub>, UhubctlError>)
        ensures
            match failure_of(outcome) {
                Some(msg) => r matches Err(UhubctlError::CommandFailed(m)) && m@ == msg,
                None => r matches Ok(hubs) && hubs_view(hubs@) == hub_list(outcome->Ok_0.stdout@),
            },
    {
        match command_status(outcome) {
            Err(e) => Err(e),
            Ok(out) => self.parse_hub_list(out.stdout.as_str()),
        }
    }

    /// The invocation that switches `port` of the hub at `location` on.
    pub fn power_on(&self, location: &str, port: u8) -> (c: CommandLine)
        ensures
            c.program@ == self.uhubctl_path@,
            args_view(c.args@) == power_args(location@, port, true),
    {
        self.set_power(location, port, true)
    }

    /// The invocation that switches `port` of the hub at `location` off.
    pub fn power_off(&self, location: &str, port: u8) -> (c: CommandLine)
        ensures
            c.program@ == self.uhubctl_path@,
            args_view(c.args@) == power_args(location@, port, false),
    {
        self.set_power(location, port, false)
    }

    /// The invocation that sets the power of `port` of the hub at `location`:
    /// `-l <location> -p <port> -a 1` to switch it on, `-a 0` to switch it off.
    pub fn set_power(&self, location: &str, port: u8, on: bool) -> (c: CommandLine)
        ensures
            c.program@ == self.uhubctl_path@,
            args_view(c.args@) == power_args(location@, port, on),
    {
        let a0 = text_arg(vec!['-', 'l']);
        let a1 = String::from_str(location);
        let a2 = text_arg(vec!['-', 'p']);
        let a3 = decimal_string(port as u64);
        let a4 = text_arg(vec!['-', 'a']);
        let a5 = if on {
            text_arg(vec!['1'])
        } else {
            text_arg(vec!['0'])
        };
        let args: Vec<String> = vec![a0, a1, a2, a3, a4, a5];
        assert(args@.len() == 6);
        assert(args@[0]@ == seq!['-', 'l']);
        assert(args@[1]@ == location@);
        assert(args@[2]@ == seq!['-', 'p']);
        assert(args@[3]@ == decimal(port as nat));
        assert(args@[4]@ == seq!['-', 'a']);
        assert(args@[5]@ == (if on { seq!['1'] } else { seq!['0'] }));
        let c = CommandLine { program: self.uhubctl_path.clone(), args };
        assert(args_view(c.args@) =~= power_args(location@, port, on));
        c
    }

    /// The result of a run of a power command.
    pub fn power_result(outcome: CommandOutcome) -> (r: Result<(), UhubctlError>)
        ensures
            match failure_of(outcome) {
                Some(msg) => r matches Err(UhubctlError::CommandFailed(m)) && m@ == msg,
                None => r is Ok,
            },
    {
        match command_status(outcome) {
            Err(e) => Err(e),
            Ok(_) => Ok(()),
        }
    }

    /// The invocation that reports the hub at `location`: `-l <location>`.
    pub fn hub_status_command(&self, location: &str) -> (c: CommandLine)
        ensures
            c.program@ == self.uhubctl_path@,
            args_view(c.args@) == seq![seq!['-', 'l'], location@],
    {
        let a0 = text_arg(vec!['-', 'l']);
        let a1 = String::from_str(location);
        let args: Vec<String> = vec![a0, a1];
        let c = CommandLine { program: self.uhubctl_path.clone(), args };
        assert(args_view(c.args@) =~= seq![seq!['-', 'l'], location@]);
        c
    }

    /// The hub at `location`, as a run of the status command reports it: the first
    /// listed hub whose location is `location`.
    #[verifier::loop_isolation(false)]
    pub fn get_hub_status(&self, location: &str, outcome: CommandOutcome) -> (r: Result<
        UsbHub,
        UhubctlError,
    >)
        ensures
            match failure_of(outcome) {
                Some(msg) => r matches Err(UhubctlError::CommandFailed(m)) && m@ == msg,
                None => {
                    let hubs = hub_list(outcome->Ok_0.stdout@);
                    match r {
                        Ok(h) => exists|i: int|
                            0 <= i < hubs.len() && hubs[i] == h@ && h@.location == location@
                                && forall|j: int| 0 <= j < i ==> hubs[j].location != location@,
                        Err(e) => e matches UhubctlError::NotFound(m) && m@
                            == "Hub not found at location: "@ + location@ && forall|j: int|
                            0 <= j < hubs.len() ==> hubs[j].location != location@,
                    }
                },
            },
    {
        let ghost listed = hub_list(outcome->Ok_0.stdout@);
        let hubs = match self.list_hubs(outcome) {
            Err(e) => {
                return Err(e);
            },
            Ok(hubs) => hubs,
        };
        let ghost hv = hubs_view(hubs@);
        assert(hv == listed);
        let loc = String::from_str(location);
        let mut i: usize = 0;
        while i < hubs.len()
            invariant
                i <= hubs.len(),
                hv == hubs_view(hubs@),
                hv == listed,
                loc@ == location@,
                forall|j: int| 0 <= j < i ==> hv[j].location != location@,
            decreases hubs.len() - i,
        {
            if hubs[i].location == loc {
                let found = hubs[i].clone();
                assert(hv[i as int] == hubs@[i as int]@);
                assert(listed[i as int] == found@);
                return Ok(found);
            }
            assert(hv[i as int] == hubs@[i as int]@);
            i = i + 1;
        }
        Err(UhubctlError::NotFound(joined("Hub not found at location: ", location)))
    }

    /// The hubs that a `uhubctl` report lists: each header line
    /// `Current status for hub <location> [<vendor>:<product> ...]` starts a hub,
    /// and each line `Port <n>: ...` that follows adds a port, powered when the
    /// line mentions `power`.
    pub fn parse_hub_list(&self, output: &str) -> (r: Result<Vec<UsbHub>, UhubctlError>)
        ensures
            r matches Ok(hubs) && hubs_view(hubs@) == hub_list(output@),
    {
        let chars = chars_of(output);
        let ls = lines_exec(chars.as_slice());
        let ghost lv = ls@.map_values(|l: Vec<char>| l@);
        let header: Vec<char> = vec![
            'C', 'u', 'r', 'r', 'e', 'n', 't', ' ', 's', 't', 'a', 't', 'u', 's', ' ', 'f', 'o',
            'r', ' ', 'h', 'u', 'b',
        ];
        let marker: Vec<char> = vec!['P', 'o', 'r', 't', ' '];
        let mut hubs: Vec<UsbHub> = Vec::new();
        let mut current: Option<UsbHub> = None;
        let mut ports: Vec<UsbPort> = Vec::new();
        let mut i: usize = 0;
        assert(lv.take(0) == Seq::<Seq<char>>::empty());
        assert(hubs_view(hubs@) == Seq::<UsbHubView>::empty());
        assert(ports_view(ports@) == Seq::<UsbPortView>::empty());
        assert(header@ == header_prefix());
        assert(marker@ == port_marker());
        while i < ls.len()
            invariant
                i <= ls.len(),
                lv == ls@.map_values(|l: Vec<char>| l@),
                lv == lines(output@),
                header@ == header_prefix(),
                marker@ == port_marker(),
                current matches Some(h) ==> h.ports@.len() == 0,
                parse_lines(lv.take(i as int)) == (ParseState {
                    hubs: hubs_view(hubs@),
                    current: opt_hub(current),
                    ports: ports_view(ports@),
                }),
            decreases ls.len() - i,
        {
            let ghost before = parse_lines(lv.take(i as int));
            proof {
                assert(lv.take(i + 1).drop_last() == lv.take(i as int));
                assert(lv.take(i + 1).last() == ls@[i as int]@);
            }
            let line = trim_exec(ls[i].as_slice());
            if starts_with_exec(line.as_slice(), header.as_slice()) {
                let taken = current;
                current = None;
                match taken {
                    Some(h) => {
                        let mut hub = h;
                        let done_ports = ports;
                        ports = Vec::new();
                        hub.ports = done_ports;
                        let ghost old_hubs = hubs@;
                        hubs.push(hub);
                        proof {
                            assert(hubs_view(hubs@) == hubs_view(old_hubs).push(hub@));
                            assert(ports_view(ports@) == Seq::<UsbPortView>::empty());
                        }
                    },
                    None => {},
                }
                current = header_hub_exec(line.as_slice());
            } else if contains_exec(line.as_slice(), marker.as_slice()) {
                match port_entry_exec(line.as_slice()) {
                    Some(p) => {
                        let ghost old_ports = ports@;
                        ports.push(p);
                        proof {
                            assert(ports_view(ports@) == ports_view(old_ports).push(p@));
                        }
                    },
                    None => {},
                }
            }
            i = i + 1;
        }
        proof {
            assert(lv.take(ls.len() as int) == lv);
        }
        match current {
            Some(h) => {
                let mut hub = h;
                hub.ports = ports;
                let ghost old_hubs = hubs@;
                hubs.push(hub);
                proof {
                    assert(hubs_view(hubs@) == hubs_view(old_hubs).push(hub@));
                }
            },
            None => {},
        }
        Ok(hubs)
    }

    /// The text between the first `start` in `text` and the first `end` after it.
    pub fn extract_between(&self, text: &str, start: &str, end: &str) -> (r: Option<String>)
        ensures
            match r {
                Some(s) => between(text@, start@, end@) == Some(s@),
                None => between(text@, start@, end@) is None,
            },
    {
        let t = chars_of(text);
        let s = chars_of(start);
        let e = chars_of(end);
        match between_exec(t.as_slice(), s.as_slice(), e.as_slice()) {
            Some(v) => Some(string_from(v.as_slice())),
            None => None,
        }
    }

    /// The invocation that asks the tool for its version.
    pub fn version_command(&self) -> (c: CommandLine)
        ensures
            c.program@ == self.uhubctl_path@,
            args_view(c.args@) == seq![seq!['-', '-', 'v', 'e', 'r', 's', 'i', 'o', 'n']],
    {
        let a0 = text_arg(vec!['-', '-', 'v', 'e', 'r', 's', 'i', 'o', 'n']);
        let args: Vec<String> = vec![a0];
        let c = CommandLine { program: self.uhubctl_path.clone(), args };
        assert(args_view(c.args@) =~= seq![seq!['-', '-', 'v', 'e', 'r', 's', 'i', 'o', 'n']]);
        c
    }

    /// Whether a run of the version command shows the tool available: it ran and
    /// succeeded.
    pub fn is_available(outcome: &CommandOutcome) -> (b: bool)
        ensures
            b == (outcome matches Ok(out) && out.success),
    {
        match outcome {
            Ok(out) => out.success,
            Err(_) => false,
        }
    }
}

} // verus!
