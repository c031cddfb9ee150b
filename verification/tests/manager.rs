use testctl::usb_hub::manager::{ManagerError, UsbHubManager};
use testctl::usb_hub::types::{DeviceRole, PortReservation, PowerState, UsbHub, UsbPort};
use testctl::usb_hub::uhubctl::UhubctlError;

const SEC: u128 = 1_000_000_000;
const TSEC: i128 = 1_000_000_000;

fn port(n: u8) -> UsbPort {
    UsbPort { port_number: n, power_state: PowerState::Off, connected_device: None, reservation: None }
}

fn test_hub() -> UsbHub {
    UsbHub {
        id: "test:hub".to_string(),
        vendor_id: "1234".to_string(),
        product_id: "5678".to_string(),
        location: "1-1".to_string(),
        name: Some("Test Hub".to_string()),
        ports: vec![port(1)],
    }
}

fn manager_with(hubs: Vec<UsbHub>) -> UsbHubManager {
    let mut manager = UsbHubManager::new(None);
    manager.discover_hubs(Ok(hubs)).unwrap();
    manager
}

#[test]
fn test_port_reservation() {
    let mut manager = manager_with(vec![test_hub()]);

    // Test reservation
    let result = manager.reserve_port("test:hub", 1, DeviceRole::Master, None);
    assert!(result.is_ok());

    // Test double reservation
    let result = manager.reserve_port("test:hub", 1, DeviceRole::Uut, None);
    assert!(matches!(result, Err(ManagerError::PortAlreadyReserved(_))));

    // Test release
    let result = manager.release_port("test:hub", 1, DeviceRole::Master);
    assert!(result.is_ok());

    // Test release when not reserved
    let result = manager.release_port("test:hub", 1, DeviceRole::Master);
    assert!(matches!(result, Err(ManagerError::ReservationNotFound)));
}

#[test]
fn reservation_errors_name_the_cause() {
    let mut m = manager_with(vec![test_hub()]);
    let now = 10 * TSEC;
    match m.reserve_port_at("nope", 1, DeviceRole::Uut, None, now) {
        Err(ManagerError::HubNotFound(id)) => assert_eq!(id, "nope"),
        other => panic!("unexpected {:?}", other),
    }
    assert!(matches!(m.reserve_port_at("test:hub", 9, DeviceRole::Uut, None, now), Err(ManagerError::PortNotFound(9))));
    m.reserve_port_at("test:hub", 1, DeviceRole::Uut, Some(5 * SEC), now).unwrap();
    match m.reserve_port_at("test:hub", 1, DeviceRole::Slave, None, now) {
        Err(e) => {
            assert!(matches!(e, ManagerError::PortAlreadyReserved(DeviceRole::Uut)));
            assert_eq!(e.to_string(), "Port already reserved by: uut");
        }
        Ok(()) => panic!("double reservation"),
    }
    match m.release_port("test:hub", 1, DeviceRole::Slave) {
        Err(e) => {
            assert_eq!(
                e.to_string(),
                "Invalid operation: Port is reserved by uut, cannot be released by slave"
            );
        }
        Ok(()) => panic!("release by another role"),
    }
    assert_eq!(ManagerError::PortNotFound(9).to_string(), "Port not found: 9");
    assert_eq!(ManagerError::HubNotFound("h".to_string()).to_string(), "Hub not found: h");
    assert_eq!(ManagerError::ReservationNotFound.to_string(), "Reservation not found");
    assert_eq!(
        ManagerError::UhubctlError(UhubctlError::CommandFailed("boom".to_string())).to_string(),
        "Uhubctl error: Command failed: boom"
    );
}

#[test]
fn reservation_expires() {
    let mut m = manager_with(vec![test_hub()]);
    let t0 = 100 * TSEC;
    m.reserve_port_at("test:hub", 1, DeviceRole::Uut, Some(60 * SEC), t0).unwrap();
    // Still held at the expiry instant, taken over just after it.
    assert!(m.reserve_port_at("test:hub", 1, DeviceRole::Slave, None, t0 + 60 * TSEC).is_err());
    assert!(m.reserve_port_at("test:hub", 1, DeviceRole::Slave, None, t0 + 60 * TSEC + 1).is_ok());
    let hub = m.get_hub("test:hub").unwrap();
    let r = hub.ports[0].reservation.as_ref().unwrap();
    assert_eq!(r.reserved_by, DeviceRole::Slave);
    assert_eq!(r.expires_at, None);
}

#[test]
fn cleanup_counts_and_drops_expired() {
    let mut hub = test_hub();
    hub.ports = vec![port(1), port(2), port(3)];
    let mut m = manager_with(vec![hub]);
    m.reserve_port_at("test:hub", 1, DeviceRole::Uut, Some(SEC), 0).unwrap();
    m.reserve_port_at("test:hub", 2, DeviceRole::Slave, None, 0).unwrap();
    m.reserve_port_at("test:hub", 3, DeviceRole::Master, Some(100 * SEC), 0).unwrap();
    assert_eq!(m.cleanup_expired_reservations_at(50 * TSEC), 1);
    let hub = m.get_hub("test:hub").unwrap();
    assert!(hub.ports[0].reservation.is_none());
    assert!(hub.ports[1].reservation.is_some());
    assert!(hub.ports[2].reservation.is_some());
    assert_eq!(m.cleanup_expired_reservations_at(50 * TSEC), 0);
    assert_eq!(m.get_reserved_ports_at(DeviceRole::Master, 50 * TSEC), vec![("test:hub".to_string(), 3)]);
    assert!(m.get_reserved_ports_at(DeviceRole::Master, 200 * TSEC).is_empty());
    assert_eq!(m.get_reserved_ports_at(DeviceRole::Slave, 200 * TSEC), vec![("test:hub".to_string(), 2)]);
}

#[test]
fn power_records_state_and_keeps_reservation() {
    let mut m = manager_with(vec![test_hub()]);
    m.reserve_port_at("test:hub", 1, DeviceRole::Uut, None, 0).unwrap();
    assert_eq!(m.hub_location("test:hub").unwrap(), "1-1");
    m.power_on_port("test:hub", 1, Ok(())).unwrap();
    let hub = m.get_hub("test:hub").unwrap();
    assert_eq!(hub.ports[0].power_state, PowerState::On);
    assert!(hub.ports[0].reservation.is_some());
    let failed = m.power_off_port("test:hub", 1, Err(UhubctlError::CommandFailed("x".to_string())));
    assert!(matches!(failed, Err(ManagerError::UhubctlError(_))));
    assert_eq!(m.get_hub("test:hub").unwrap().ports[0].power_state, PowerState::On);
    // A port the hub does not list is left alone.
    assert!(m.power_on_port("test:hub", 7, Ok(())).is_ok());
    assert!(matches!(m.power_on_port("other", 1, Ok(())), Err(ManagerError::HubNotFound(_))));
}

#[test]
fn failed_power_on_releases_reservation() {
    let mut m = manager_with(vec![test_hub()]);
    let loc = m.reserve_and_power_on_at("test:hub", 1, DeviceRole::Slave, None, 5).unwrap();
    assert_eq!(loc, "1-1");
    let r = m.finish_reserve_and_power_on("test:hub", 1, DeviceRole::Slave, Err(UhubctlError::CommandFailed("no".to_string())));
    assert!(matches!(r, Err(ManagerError::UhubctlError(_))));
    let hub = m.get_hub("test:hub").unwrap();
    assert!(hub.ports[0].reservation.is_none());
    assert_eq!(hub.ports[0].power_state, PowerState::Off);

    m.reserve_and_power_on_at("test:hub", 1, DeviceRole::Slave, None, 5).unwrap();
    m.finish_reserve_and_power_on("test:hub", 1, DeviceRole::Slave, Ok(())).unwrap();
    let hub = m.get_hub("test:hub").unwrap();
    assert_eq!(hub.ports[0].power_state, PowerState::On);
    assert_eq!(hub.ports[0].reservation.as_ref().unwrap().reserved_by, DeviceRole::Slave);

    m.power_off_and_release("test:hub", 1, DeviceRole::Slave, Ok(())).unwrap();
    let hub = m.get_hub("test:hub").unwrap();
    assert_eq!(hub.ports[0].power_state, PowerState::Off);
    assert!(hub.ports[0].reservation.is_none());
}

#[test]
fn refresh_keeps_active_reservations() {
    let mut hub = test_hub();
    hub.ports = vec![port(1), port(2)];
    let mut m = manager_with(vec![hub]);
    m.reserve_port_at("test:hub", 1, DeviceRole::Uut, None, 0).unwrap();
    m.reserve_port_at("test:hub", 2, DeviceRole::Uut, Some(SEC), 0).unwrap();
    let mut fresh = test_hub();
    fresh.ports = vec![port(2), port(1), port(3)];
    fresh.ports[1].power_state = PowerState::On;
    let merged = m.refresh_hub_at("test:hub", Ok(fresh), 10 * TSEC).unwrap();
    assert_eq!(merged.ports.len(), 3);
    assert!(merged.ports[0].reservation.is_none()); // port 2: expired
    assert_eq!(merged.ports[1].reservation.as_ref().unwrap().reserved_by, DeviceRole::Uut);
    assert_eq!(merged.ports[1].power_state, PowerState::On);
    assert!(merged.ports[2].reservation.is_none());
    assert_eq!(m.get_hub("test:hub").unwrap().ports.len(), 3);
    assert!(matches!(m.refresh_hub_at("none", Ok(test_hub()), 0), Err(ManagerError::HubNotFound(_))));
}

#[test]
fn discovery_registers_by_id_and_lists() {
    let mut m = UsbHubManager::new(Some("/opt/uhubctl".to_string()));
    assert!(m.list_hubs().is_empty());
    let mut a = test_hub();
    a.id = "a:1".to_string();
    let mut b = test_hub();
    b.id = "b:2".to_string();
    let mut a2 = test_hub();
    a2.id = "a:1".to_string();
    a2.location = "9".to_string();
    let found = m.discover_hubs(Ok(vec![a, b, a2])).unwrap();
    assert_eq!(found.len(), 3);
    let listed = m.list_hubs();
    assert_eq!(listed.len(), 2);
    assert_eq!(m.get_hub("a:1").unwrap().location, "9");
    assert_eq!(m.tool().uhubctl_path, "/opt/uhubctl");
    let err = m.discover_hubs(Err(UhubctlError::CommandFailed("x".to_string())));
    assert!(matches!(err, Err(ManagerError::UhubctlError(_))));
    assert!(matches!(m.get_hub("zzz"), Err(ManagerError::HubNotFound(_))));
}

#[test]
fn reservation_values() {
    let r = PortReservation::new_at(DeviceRole::Master, Some(30 * SEC), 1000);
    assert_eq!(r.reserved_at, 1000);
    assert_eq!(r.expires_at, Some(1000 + 30 * TSEC));
    assert!(!r.is_expired_at(1000 + 30 * TSEC));
    assert!(r.is_expired_at(1001 + 30 * TSEC));
    let forever = PortReservation::new(DeviceRole::Uut, None);
    assert!(!forever.is_expired());
    assert!(forever.device_id.is_none());
    let short = PortReservation::new(DeviceRole::Uut, Some(0));
    assert_eq!(short.expires_at, Some(short.reserved_at));
    assert_eq!(DeviceRole::Master.to_string(), "master");
}

#[test]
fn clock_reading_operations() {
    let mut m = manager_with(vec![UsbHub { ports: vec![port(1), port(2), port(3)], ..test_hub() }]);
    // Made at the epoch for one nanosecond: long expired by now.
    m.reserve_port_at("test:hub", 1, DeviceRole::Uut, Some(1), 0).unwrap();
    m.reserve_port("test:hub", 2, DeviceRole::Uut, Some(3600 * SEC)).unwrap();
    m.reserve_port("test:hub", 3, DeviceRole::Slave, None).unwrap();
    assert_eq!(m.get_reserved_ports(DeviceRole::Uut), vec![("test:hub".to_string(), 2)]);
    assert_eq!(m.cleanup_expired_reservations(), 1);
    assert_eq!(m.cleanup_expired_reservations(), 0);
    assert!(m.get_hub("test:hub").unwrap().ports[0].reservation.is_none());
    // The expired port can be reserved again, the held ones cannot.
    m.reserve_port("test:hub", 1, DeviceRole::Master, None).unwrap();
    assert!(matches!(
        m.reserve_port("test:hub", 2, DeviceRole::Master, None),
        Err(ManagerError::PortAlreadyReserved(DeviceRole::Uut))
    ));
    let merged = m.refresh_hub("test:hub", Ok(UsbHub { ports: vec![port(1), port(2)], ..test_hub() })).unwrap();
    assert_eq!(merged.ports[1].reservation.as_ref().unwrap().reserved_by, DeviceRole::Uut);
    assert_eq!(merged.ports.len(), 2);
}

#[test]
fn reservation_past_the_clock_is_refused() {
    let mut m = manager_with(vec![test_hub()]);
    match m.reserve_port("test:hub", 1, DeviceRole::Uut, Some(u128::MAX / 2)) {
        Err(ManagerError::InvalidOperation(msg)) => {
            assert_eq!(msg, "overflow when adding duration to instant")
        }
        other => panic!("unexpected {:?}", other),
    }
    assert!(m.get_hub("test:hub").unwrap().ports[0].reservation.is_none());
    assert!(m.reserve_and_power_on("test:hub", 1, DeviceRole::Uut, Some(u128::MAX / 2)).is_err());
    let loc = m.reserve_and_power_on("test:hub", 1, DeviceRole::Uut, Some(SEC)).unwrap();
    assert_eq!(loc, "1-1");
}

#[test]
fn refused_release_leaves_the_port_powered() {
    let mut m = manager_with(vec![test_hub()]);
    m.reserve_port_at("test:hub", 1, DeviceRole::Uut, None, 0).unwrap();
    m.power_on_port("test:hub", 1, Ok(())).unwrap();
    match m.release_check("test:hub", 1, DeviceRole::Master) {
        Err(ManagerError::InvalidOperation(msg)) => {
            assert_eq!(msg, "Port is reserved by uut, cannot be released by master")
        }
        other => panic!("unexpected {:?}", other),
    }
    assert!(matches!(
        m.power_off_and_release("test:hub", 1, DeviceRole::Master, Ok(())),
        Err(ManagerError::InvalidOperation(_))
    ));
    let p = &m.get_hub("test:hub").unwrap().ports[0];
    assert_eq!(p.power_state, PowerState::On);
    assert_eq!(p.reservation.as_ref().unwrap().reserved_by, DeviceRole::Uut);
    assert_eq!(m.release_check("test:hub", 1, DeviceRole::Uut).unwrap(), "1-1");
    assert!(matches!(m.release_check("test:hub", 7, DeviceRole::Uut), Err(ManagerError::PortNotFound(7))));
    m.power_off_and_release("test:hub", 1, DeviceRole::Uut, Ok(())).unwrap();
    let p = &m.get_hub("test:hub").unwrap().ports[0];
    assert_eq!(p.power_state, PowerState::Off);
    assert!(p.reservation.is_none());
}

#[test]
fn lookup_errors_come_before_the_duration_check() {
    let mut m = manager_with(vec![test_hub()]);
    let huge = Some(u128::MAX / 2);
    assert!(matches!(m.reserve_port("nope", 1, DeviceRole::Uut, huge), Err(ManagerError::HubNotFound(_))));
    assert!(matches!(m.reserve_port("test:hub", 9, DeviceRole::Uut, huge), Err(ManagerError::PortNotFound(9))));
    m.reserve_port("test:hub", 1, DeviceRole::Slave, None).unwrap();
    assert!(matches!(
        m.reserve_port_at("test:hub", 1, DeviceRole::Uut, huge, 10),
        Err(ManagerError::PortAlreadyReserved(DeviceRole::Slave))
    ));
    assert!(matches!(
        m.reserve_and_power_on("nope", 1, DeviceRole::Uut, huge),
        Err(ManagerError::HubNotFound(_))
    ));
}

#[test]
fn reservations_before_the_epoch_expire() {
    let r = PortReservation::new_at(DeviceRole::Uut, Some(SEC), -5 * TSEC);
    assert_eq!(r.expires_at, Some(-4 * TSEC));
    assert!(!r.is_expired_at(-4 * TSEC));
    assert!(r.is_expired_at(-3 * TSEC));
    let mut m = manager_with(vec![test_hub()]);
    m.reserve_port_at("test:hub", 1, DeviceRole::Uut, Some(SEC), -10 * TSEC).unwrap();
    assert_eq!(m.cleanup_expired_reservations_at(-8 * TSEC), 1);
}
