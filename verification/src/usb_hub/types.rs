//! Hubs, ports, roles and port reservations.
//!
//! Points in time are nanoseconds since the UNIX epoch (`Instant`), durations
//! are nanoseconds (`Nanos`).
use vstd::prelude::*;

use crate::text::{joined, decimal, decimal_string};

verus! {

/// A point in time: nanoseconds since the UNIX epoch (negative before it).
pub type Instant = i128;

/// A length of time in nanoseconds.
pub type Nanos = u128;

/// The latest instant the system clock can report (`i64::MAX` seconds and
/// 999 999 999 nanoseconds after the epoch).
pub const MAX_INSTANT: i128 = 9_223_372_036_854_775_807_999_999_999i128;

/// The earliest instant the system clock can report (`i64::MIN` seconds after
/// the epoch).
pub const MIN_INSTANT: i128 = -9_223_372_036_854_775_808_000_000_000i128;

/// The longest length of time a `Duration` can hold (`u64::MAX` seconds and
/// 999 999 999 nanoseconds).
pub const MAX_DURATION: u128 = 18_446_744_073_709_551_615_999_999_999u128;

/// `t` is an instant the system clock can report.
pub open spec fn clock_reads(t: Instant) -> bool {
    MIN_INSTANT <= t <= MAX_INSTANT
}

/// `SystemTime::now()`, as nanoseconds since the UNIX epoch: the length of
/// `duration_since(UNIX_EPOCH)` where the clock is past the epoch, and minus the
/// length that the error reports where it is before it.
///
/// What the clock reads is not stated; only that it is within the range of
/// `SystemTime` on this platform.
#[verifier::external_body]
pub fn current_time() -> (t: Instant)
    ensures
        clock_reads(t),
{
    match std::time::SystemTime::now().duration_since(std::time::UNIX_EPOCH) {
        Ok(d) => d.as_nanos() as i128,
        Err(e) => -(e.duration().as_nanos() as i128),
    }
}

/// Power state of a hub port.
#[derive(Clone, Copy, Debug, PartialEq, Eq, Structural)]
pub enum PowerState {
    On,
    Off,
}

/// The role of a device that uses a hub port.
#[derive(Clone, Copy, Debug, PartialEq, Eq, Hash, Structural)]
pub enum DeviceRole {
    Master,
    Uut,
    Slave,
}

/// The name of a role, in lower case.
pub open spec fn role_name(r: DeviceRole) -> Seq<char> {
    match r {
        DeviceRole::Master => seq!['m', 'a', 's', 't', 'e', 'r'],
        DeviceRole::Uut => seq!['u', 'u', 't'],
        DeviceRole::Slave => seq!['s', 'l', 'a', 'v', 'e'],
    }
}

impl DeviceRole {
    /// The role's name: `"master"`, `"uut"` or `"slave"`.
    pub fn to_string(&self) -> (s: String)
        ensures
            s@ == role_name(*self),
    {
        let v: Vec<char> = match self {
            DeviceRole::Master => vec!['m', 'a', 's', 't', 'e', 'r'],
            DeviceRole::Uut => vec!['u', 'u', 't'],
            DeviceRole::Slave => vec!['s', 'l', 'a', 'v', 'e'],
        };
        crate::text::string_from(v.as_slice())
    }
}

/// The view of an optional string.
pub open spec fn opt_str(o: Option<String>) -> Option<Seq<char>> {
    match o {
        Some(s) => Some(s@),
        None => None,
    }
}

/// A copy of an optional string.
pub fn clone_opt_str(o: &Option<String>) -> (r: Option<String>)
    ensures
        r == *o,
{
    match o {
        Some(s) => Some(s.clone()),
        None => None,
    }
}

/// The abstract value of a reservation.
pub struct ReservationView {
    pub reserved_by: DeviceRole,
    pub reserved_at: Instant,
    pub expires_at: Option<Instant>,
    pub device_id: Option<Seq<char>>,
}

/// Exclusive use of a port by one role, possibly until some instant.
#[derive(Debug)]
pub struct PortReservation {
    pub reserved_by: DeviceRole,
    pub reserved_at: Instant,
    pub expires_at: Option<Instant>,
    pub device_id: Option<String>,
}

impl View for PortReservation {
    type V = ReservationView;

    open spec fn view(&self) -> ReservationView {
        ReservationView {
            reserved_by: self.reserved_by,
            reserved_at: self.reserved_at,
            expires_at: self.expires_at,
            device_id: opt_str(self.device_id),
        }
    }
}

/// A reservation has expired at `now` when it has an expiry instant and `now` is past it.
pub open spec fn expired_at(r: ReservationView, now: Instant) -> bool {
    match r.expires_at {
        Some(e) => now > e,
        None => false,
    }
}

/// The reservation made by `by` at `now`, lasting `duration` (forever when `None`).
pub open spec fn reservation_made(by: DeviceRole, now: Instant, duration: Option<Nanos>) -> ReservationView {
    ReservationView {
        reserved_by: by,
        reserved_at: now,
        expires_at: match duration {
            Some(d) => Some((now + d) as i128),
            None => None,
        },
        device_id: None,
    }
}

/// The expiry can be computed: the duration is one a `Duration` can hold, and
/// the expiry does not pass the latest instant of the clock.
pub open spec fn duration_fits(now: Instant, duration: Option<Nanos>) -> bool {
    match duration {
        Some(d) => d <= MAX_DURATION && now + d <= MAX_INSTANT,
        None => true,
    }
}

impl Clone for PortReservation {
    fn clone(&self) -> (r: Self)
        ensures
            r == *self,
    {
        PortReservation {
            reserved_by: self.reserved_by,
            reserved_at: self.reserved_at,
            expires_at: self.expires_at,
            device_id: clone_opt_str(&self.device_id),
        }
    }
}

impl PortReservation {
    /// A reservation by `reserved_by` made at `now`, expiring `duration` later
    /// (never when `duration` is `None`).
    pub fn new_at(reserved_by: DeviceRole, duration: Option<Nanos>, now: Instant) -> (r: Self)
        requires
            duration_fits(now, duration),
        ensures
            r@ == reservation_made(reserved_by, now, duration),
    {
        let expires_at = match duration {
            Some(d) => Some(now + d as i128),
            None => None,
        };
        PortReservation { reserved_by, reserved_at: now, expires_at, device_id: None }
    }

    /// A reservation by `reserved_by` made now, expiring `duration` later
    /// (never when `duration` is `None`).
    pub fn new(reserved_by: DeviceRole, duration: Option<Nanos>) -> (r: Self)
        requires
            duration matches Some(d) ==> d <= MAX_DURATION,
        ensures
            exists|now: Instant| clock_reads(now) && r@ == reservation_made(reserved_by, now, duration),
    {
        let now = current_time();
        let expires_at = match duration {
            Some(d) => Some(now + d as i128),
            None => None,
        };
        let r = PortReservation { reserved_by, reserved_at: now, expires_at, device_id: None };
        assert(r@ == reservation_made(reserved_by, now, duration));
        r
    }

    /// Whether the reservation has expired at `now`.
    pub fn is_expired_at(&self, now: Instant) -> (b: bool)
        ensures
            b == expired_at(self@, now),
    {
        match self.expires_at {
            Some(e) => now > e,
            None => false,
        }
    }

    /// Whether the reservation has expired by the time the clock is read.
    /// A reservation without an expiry never expires.
    pub fn is_expired(&self) -> (b: bool)
        ensures
            self.expires_at is None ==> !b,
            exists|now: Instant| clock_reads(now) && b == expired_at(self@, now),
    {
        let now = current_time();
        self.is_expired_at(now)
    }
}

/// The abstract value of a port.
pub struct UsbPortView {
    pub port_number: u8,
    pub power_state: PowerState,
    pub connected_device: Option<Seq<char>>,
    pub reservation: Option<ReservationView>,
}

/// One downstream port of a hub.
#[derive(Debug)]
pub struct UsbPort {
    pub port_number: u8,
    pub power_state: PowerState,
    pub connected_device: Option<String>,
    pub reservation: Option<PortReservation>,
}

/// The view of an optional reservation.
pub open spec fn opt_reservation(o: Option<PortReservation>) -> Option<ReservationView> {
    match o {
        Some(r) => Some(r@),
        None => None,
    }
}

impl View for UsbPort {
    type V = UsbPortView;

    open spec fn view(&self) -> UsbPortView {
        UsbPortView {
            port_number: self.port_number,
            power_state: self.power_state,
            connected_device: opt_str(self.connected_device),
            reservation: opt_reservation(self.reservation),
        }
    }
}

/// A copy of an optional reservation.
pub fn clone_opt_reservation(o: &Option<PortReservation>) -> (r: Option<PortReservation>)
    ensures
        r == *o,
{
    match o {
        Some(x) => Some(x.clone()),
        None => None,
    }
}

impl Clone for UsbPort {
    fn clone(&self) -> (r: Self)
        ensures
            r == *self,
    {
        UsbPort {
            port_number: self.port_number,
            power_state: self.power_state,
            connected_device: clone_opt_str(&self.connected_device),
            reservation: clone_opt_reservation(&self.reservation),
        }
    }
}

/// The views of a sequence of ports.
pub open spec fn ports_view(ports: Seq<UsbPort>) -> Seq<UsbPortView> {
    ports.map_values(|p: UsbPort| p@)
}

/// The abstract value of a hub.
pub struct UsbHubView {
    pub id: Seq<char>,
    pub vendor_id: Seq<char>,
    pub product_id: Seq<char>,
    pub location: Seq<char>,
    pub name: Option<Seq<char>>,
    pub ports: Seq<UsbPortView>,
}

/// A USB hub whose ports can be switched on and off.
#[derive(Debug)]
pub struct UsbHub {
    pub id: String,
    pub vendor_id: String,
    pub product_id: String,
    pub location: String,
    pub name: Option<String>,
    pub ports: Vec<UsbPort>,
}

impl View for UsbHub {
    type V = UsbHubView;

    open spec fn view(&self) -> UsbHubView {
        UsbHubView {
            id: self.id@,
            vendor_id: self.vendor_id@,
            product_id: self.product_id@,
            location: self.location@,
            name: opt_str(self.name),
            ports: ports_view(self.ports@),
        }
    }
}

/// A copy of a sequence of ports.
pub fn clone_ports(ports: &Vec<UsbPort>) -> (r: Vec<UsbPort>)
    ensures
        r@ == ports@,
{
    let mut r: Vec<UsbPort> = Vec::new();
    let mut i: usize = 0;
    while i < ports.len()
        invariant
            i <= ports.len(),
            r@ == ports@.take(i as int),
        decreases ports.len() - i,
    {
        r.push(ports[i].clone());
        assert(ports@.take(i + 1) == ports@.take(i as int).push(ports@[i as int]));
        i = i + 1;
    }
    assert(ports@.take(ports.len() as int) == ports@);
    r
}

impl Clone for UsbHub {
    fn clone(&self) -> (r: Self)
        ensures
            r@ == self@,
    {
        UsbHub {
            id: self.id.clone(),
            vendor_id: self.vendor_id.clone(),
            product_id: self.product_id.clone(),
            location: self.location.clone(),
            name: clone_opt_str(&self.name),
            ports: clone_ports(&self.ports),
        }
    }
}

/// The views of a sequence of hubs.
pub open spec fn hubs_view(hubs: Seq<UsbHub>) -> Seq<UsbHubView> {
    hubs.map_values(|h: UsbHub| h@)
}

/// A copy of a sequence of hubs.
pub fn clone_hubs(hubs: &Vec<UsbHub>) -> (r: Vec<UsbHub>)
    ensures
        hubs_view(r@) == hubs_view(hubs@),
{
    let mut r: Vec<UsbHub> = Vec::new();
    let mut i: usize = 0;
    while i < hubs.len()
        invariant
            i <= hubs.len(),
            hubs_view(r@) == hubs_view(hubs@.take(i as int)),
        decreases hubs.len() - i,
    {
        let ghost old_r = r@;
        r.push(hubs[i].clone());
        assert(hubs@.take(i + 1) == hubs@.take(i as int).push(hubs@[i as int]));
        assert(hubs_view(r@) == hubs_view(old_r).push(hubs@[i as int]@));
        assert(hubs_view(hubs@.take(i + 1)) == hubs_view(hubs@.take(i as int)).push(
            hubs@[i as int]@,
        ));
        i = i + 1;
    }
    assert(hubs@.take(hubs.len() as int) == hubs@);
    r
}

/// A port of a particular hub.
#[derive(Debug)]
pub struct HubPortId {
    pub hub_id: String,
    pub port_number: u8,
}

impl HubPortId {
    /// `"<hub_id>:<port_number>"`.
    pub fn to_string(&self) -> (s: String)
        ensures
            s@ == self.hub_id@ + seq![':'] + decimal(self.port_number as nat),
    {
        let head = joined(self.hub_id.as_str(), ":");
        let num = decimal_string(self.port_number as u64);
        let s = joined(head.as_str(), num.as_str());
        proof {
            reveal_strlit(":");
        }
        s
    }
}

} // verus!
