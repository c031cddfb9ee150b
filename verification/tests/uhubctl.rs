use testctl::usb_hub::types::PowerState;
use testctl::usb_hub::uhubctl::{Uhubctl, UhubctlError};
use testctl::command::CommandOutput;

#[test]
fn test_parse_uhubctl_output() {
    let uhubctl = Uhubctl::default();
    let output = r#"
Current status for hub 1-1.4 [2109:2817 USB2.0 Hub, USB 2.00, 4 ports]
  Port 1: 0100 power
  Port 2: 0100 power
  Port 3: 0503 power highspeed enable connect [05e3:0749 USB2.0 Hub]
  Port 4: 0100 power
        "#;

    let hubs = uhubctl.parse_hub_list(output).unwrap();
    assert_eq!(hubs.len(), 1);

    let hub = &hubs[0];
    assert_eq!(hub.location, "1-1.4");
    assert_eq!(hub.vendor_id, "2109");
    assert_eq!(hub.product_id, "2817");
    assert_eq!(hub.ports.len(), 4);

    assert_eq!(hub.ports[0].port_number, 1);
    assert_eq!(hub.ports[0].power_state, PowerState::On);

    assert_eq!(hub.ports[2].port_number, 3);
    assert_eq!(hub.ports[2].power_state, PowerState::On);
}

#[test]
fn parse_several_hubs_and_unpowered_ports() {
    let uhubctl = Uhubctl::new(Some("/usr/sbin/uhubctl".to_string()));
    let output = "Current status for hub 1-1 [0424:2514 USB 2.0 Hub, USB 2.00, 2 ports]\r\n  Port 1: 0000 off\n  Port 2: 0100 power\nCurrent status for hub 2 [1d6b:0003 xHCI Host Controller, USB 3.00, 1 ports]\n  Port 1: 02a0 power 5gbps Rx.Detect\n";
    let hubs = uhubctl.parse_hub_list(output).unwrap();
    assert_eq!(hubs.len(), 2);
    assert_eq!(hubs[0].id, "0424:2514");
    assert_eq!(hubs[0].location, "1-1");
    assert_eq!(hubs[0].ports.len(), 2);
    assert_eq!(hubs[0].ports[0].power_state, PowerState::Off);
    assert_eq!(hubs[0].ports[1].power_state, PowerState::On);
    assert_eq!(hubs[1].id, "1d6b:0003");
    assert_eq!(hubs[1].location, "2");
    assert_eq!(hubs[1].ports.len(), 1);
    assert!(hubs[1].name.is_none());
}

#[test]
fn parse_skips_malformed_headers_and_ports() {
    let uhubctl = Uhubctl::default();
    // A header without `vendor:product` starts no hub; the ports read after it
    // stay pending and go to the next hub that is completed.
    let output = "Current status for hub 3 [nocolon ports]\n Port 7: 0100 power\nCurrent status for hub 4 [aaaa:bbbb x]\n Port x: bad\n Port 300: 0100 power\n Port +2: 0000\n";
    let hubs = uhubctl.parse_hub_list(output).unwrap();
    assert_eq!(hubs.len(), 1);
    assert_eq!(hubs[0].location, "4");
    assert_eq!(hubs[0].ports.len(), 2);
    assert_eq!(hubs[0].ports[0].port_number, 7);
    assert_eq!(hubs[0].ports[1].port_number, 2);
    assert_eq!(hubs[0].ports[1].power_state, PowerState::Off);
}

#[test]
fn parse_empty_output() {
    let uhubctl = Uhubctl::default();
    assert!(uhubctl.parse_hub_list("").unwrap().is_empty());
    assert!(uhubctl.parse_hub_list("No compatible devices detected!\n").unwrap().is_empty());
}

#[test]
fn extract_between_finds_first_occurrences() {
    let u = Uhubctl::default();
    assert_eq!(u.extract_between("Port 12: x", "Port ", ":"), Some("12".to_string()));
    assert_eq!(u.extract_between("a[b c[d e", "[", " "), Some("b".to_string()));
    assert_eq!(u.extract_between("abc", "x", "c"), None);
    assert_eq!(u.extract_between("abc", "a", "x"), None);
}

#[test]
fn power_commands() {
    let u = Uhubctl::default();
    let on = u.power_on("1-1.4", 3);
    assert_eq!(on.program, "uhubctl");
    assert_eq!(on.args, vec!["-l", "1-1.4", "-p", "3", "-a", "1"]);
    let off = u.power_off("2", 255);
    assert_eq!(off.args, vec!["-l", "2", "-p", "255", "-a", "0"]);
    let status = u.hub_status_command("1-1");
    assert_eq!(status.args, vec!["-l", "1-1"]);
    assert!(u.list_hubs_command().args.is_empty());
    assert_eq!(u.version_command().args, vec!["--version"]);
}

#[test]
fn command_outcomes() {
    let u = Uhubctl::default();
    let failed = u.list_hubs(Ok(CommandOutput {
        success: false,
        stdout: String::new(),
        stderr: "permission denied".to_string(),
    }));
    match failed {
        Err(UhubctlError::CommandFailed(m)) => assert_eq!(m, "permission denied"),
        other => panic!("unexpected {:?}", other),
    }
    match Uhubctl::power_result(Err("No such file or directory".to_string())) {
        Err(UhubctlError::CommandFailed(m)) => {
            assert_eq!(m, "Failed to execute uhubctl: No such file or directory")
        }
        other => panic!("unexpected {:?}", other),
    }
    assert!(Uhubctl::power_result(Ok(CommandOutput {
        success: true,
        stdout: String::new(),
        stderr: String::new()
    }))
    .is_ok());
    assert!(!Uhubctl::is_available(&Err("x".to_string())));
}

#[test]
fn hub_status_by_location() {
    let u = Uhubctl::default();
    let out = || {
        Ok(CommandOutput {
            success: true,
            stdout: "Current status for hub 1-1 [0424:2514 hub]\n Port 1: 0100 power\nCurrent status for hub 1-2 [0424:2515 hub]\n".to_string(),
            stderr: String::new(),
        })
    };
    let hub = u.get_hub_status("1-2", out()).unwrap();
    assert_eq!(hub.product_id, "2515");
    match u.get_hub_status("9", out()) {
        Err(UhubctlError::NotFound(m)) => assert_eq!(m, "Hub not found at location: 9"),
        other => panic!("unexpected {:?}", other),
    }
    assert_eq!(
        UhubctlError::NotFound("x".to_string()).to_string(),
        "Not found: x"
    );
}

#[test]
fn joined_reports_list_both_in_order() {
    let u = Uhubctl::default();
    let a = "Current status for hub 1-1 [05e3:0608 Hub, USB 2.00, 2 ports]\n  Port 1: 0100 power\n  Port 2: 0000 off\n";
    let b = "\nCurrent status for hub 2-3 [2109:2817 Hub, USB 2.00, 1 ports]\n  Port 1: 0503 power connect\n";
    let joined = format!("{}{}", a, b);
    let all = u.parse_hub_list(&joined).unwrap();
    let first = u.parse_hub_list(a).unwrap();
    let second = u.parse_hub_list(b).unwrap();
    assert_eq!(all.len(), first.len() + second.len());
    assert_eq!(all.len(), 2);
    assert_eq!(all[0].location, first[0].location);
    assert_eq!(all[0].ports.len(), 2);
    assert_eq!(all[0].ports[1].power_state, PowerState::Off);
    assert_eq!(all[1].id, second[0].id);
    assert_eq!(all[1].id, "2109:2817");
    assert_eq!(all[1].ports.len(), 1);
    assert!(all[1].name.is_none());
    assert!(all[1].ports[0].connected_device.is_none());
}
