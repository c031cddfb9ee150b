//! The hub manager: the registered hubs and the reservations of their ports.
//!
//! Operations that need the `uhubctl` tool take the outcome of running it as an
//! argument; operations that depend on the time take the current instant.
use vstd::prelude::*;

use super::types::{
    clone_hubs, current_time, duration_fits, expired_at, hubs_view, role_name, DeviceRole, Instant, Nanos,
    PortReservation, PowerState, ReservationView, UsbHub, UsbHubView, UsbPort, UsbPortView,
    clock_reads, MAX_DURATION, MAX_INSTANT,
};
use super::uhubctl::{uhubctl_error_text, Uhubctl, UhubctlError, UhubctlErrorView};
use crate::text::{joined, decimal, decimal_string};

verus! {

/// An error of the hub manager.
#[derive(Debug)]
pub enum ManagerError {
    UhubctlError(UhubctlError),
    HubNotFound(String),
    PortNotFound(u8),
    PortAlreadyReserved(DeviceRole),
    ReservationNotFound,
    InvalidOperation(String),
}

/// The abstract value of a manager error.
pub enum FaultView {
    Uhubctl(UhubctlErrorView),
    HubNotFound(Seq<char>),
    PortNotFound(u8),
    PortAlreadyReserved(DeviceRole),
    ReservationNotFound,
    InvalidOperation(Seq<char>),
}

impl View for ManagerError {
    type V = FaultView;

    open spec fn view(&self) -> FaultView {
        match self {
            ManagerError::UhubctlError(e) => FaultView::Uhubctl(e@),
            ManagerError::HubNotFound(id) => FaultView::HubNotFound(id@),
            ManagerError::PortNotFound(p) => FaultView::PortNotFound(*p),
            ManagerError::PortAlreadyReserved(by) => FaultView::PortAlreadyReserved(*by),
            ManagerError::ReservationNotFound => FaultView::ReservationNotFound,
            ManagerError::InvalidOperation(m) => FaultView::InvalidOperation(m@),
        }
    }
}

/// The displayed message of a manager error.
pub open spec fn manager_error_text(e: ManagerError) -> Seq<char> {
    match e {
        ManagerError::UhubctlError(u) => "Uhubctl error: "@ + uhubctl_error_text(u),
        ManagerError::HubNotFound(id) => "Hub not found: "@ + id@,
        ManagerError::PortNotFound(p) => "Port not found: "@ + decimal(p as nat),
        ManagerError::PortAlreadyReserved(by) => "Port already reserved by: "@ + role_name(by),
        ManagerError::ReservationNotFound => "Reservation not found"@,
        ManagerError::InvalidOperation(m) => "Invalid operation: "@ + m@,
    }
}

impl ManagerError {
    /// The message of the error, as it is displayed.
    pub fn to_string(&self) -> (s: String)
        ensures
            s@ == manager_error_text(*self),
    {
        match self {
            ManagerError::UhubctlError(e) => {
                let inner = e.to_string();
                joined("Uhubctl error: ", inner.as_str())
            },
            ManagerError::HubNotFound(id) => joined("Hub not found: ", id.as_str()),
            ManagerError::PortNotFound(p) => {
                let n = decimal_string(*p as u64);
                joined("Port not found: ", n.as_str())
            },
            ManagerError::PortAlreadyReserved(by) => {
                let n = by.to_string();
                joined("Port already reserved by: ", n.as_str())
            },
            ManagerError::ReservationNotFound => String::from_str("Reservation not found"),
            ManagerError::InvalidOperation(m) => joined("Invalid operation: ", m.as_str()),
        }
    }
}

/// The view of the result of an operation.
pub open spec fn outcome_view(r: Result<(), ManagerError>) -> Result<(), FaultView> {
    match r {
        Ok(()) => Ok(()),
        Err(e) => Err(e@),
    }
}

/// The view of the outcome of a `uhubctl` run.
pub open spec fn tool_view(r: Result<(), UhubctlError>) -> Result<(), UhubctlErrorView> {
    match r {
        Ok(()) => Ok(()),
        Err(e) => Err(e@),
    }
}

/// The message with which a release by `by` of a port reserved by `holder` is refused.
pub open spec fn release_refusal(holder: DeviceRole, by: DeviceRole) -> Seq<char> {
    "Port is reserved by "@ + role_name(holder) + ", cannot be released by "@ + role_name(by)
}

/// The message with which a reservation is refused whose end would lie past the
/// latest instant the clock can show.
pub open spec fn expiry_overflow() -> Seq<char> {
    "overflow when adding duration to instant"@
}

/// The view of the result of an operation that reports a hub.
pub open spec fn hub_result_view(r: Result<UsbHub, ManagerError>) -> Result<UsbHubView, FaultView> {
    match r {
        Ok(h) => Ok(h@),
        Err(e) => Err(e@),
    }
}

/// The registered hubs, by key.
pub type HubMap = Map<Seq<char>, UsbHubView>;

/// The position of the first port numbered `n`, searching from `i`.
pub open spec fn port_index_from(ports: Seq<UsbPortView>, n: u8, i: int) -> Option<int>
    decreases ports.len() - i,
{
    if i < 0 || i >= ports.len() {
        None
    } else if ports[i].port_number == n {
        Some(i)
    } else {
        port_index_from(ports, n, i + 1)
    }
}

/// The position of the first port numbered `n`.
pub open spec fn port_index(ports: Seq<UsbPortView>, n: u8) -> Option<int> {
    port_index_from(ports, n, 0)
}

/// What a port search finds: the first port with the number, at or after `i`.
pub proof fn lemma_port_index_from(ports: Seq<UsbPortView>, n: u8, i: int)
    requires
        0 <= i,
    ensures
        match port_index_from(ports, n, i) {
            Some(k) => i <= k < ports.len() && ports[k].port_number == n && forall|j: int|
                i <= j < k ==> ports[j].port_number != n,
            None => forall|j: int| i <= j < ports.len() ==> ports[j].port_number != n,
        },
    decreases ports.len() - i,
{
    if i < ports.len() && ports[i].port_number != n {
        lemma_port_index_from(ports, n, i + 1);
    }
}

/// `h` with the reservation of its port at `i` replaced by `r`.
pub open spec fn with_reservation(h: UsbHubView, i: int, r: Option<ReservationView>) -> UsbHubView {
    UsbHubView { ports: h.ports.update(i, UsbPortView { reservation: r, ..h.ports[i] }), ..h }
}

/// `h` with the power state of its port at `i` replaced by `p`.
pub open spec fn with_power(h: UsbHubView, i: int, p: PowerState) -> UsbHubView {
    UsbHubView { ports: h.ports.update(i, UsbPortView { power_state: p, ..h.ports[i] }), ..h }
}

/// Replacing a port's power state keeps where each port number is found.
pub proof fn lemma_port_index_with_power(h: UsbHubView, i: int, p: PowerState, n: u8)
    requires
        0 <= i < h.ports.len(),
    ensures
        port_index(with_power(h, i, p).ports, n) == port_index(h.ports, n),
{
    let h2 = with_power(h, i, p);
    assert forall|j: int| 0 <= j < h2.ports.len() implies #[trigger] h2.ports[j].port_number
        == h.ports[j].port_number by {}
    super::laws::lemma_port_index_same_numbers(h2.ports, h.ports, n, 0);
}

/// A reservation that holds at `now`: present and not expired.
pub open spec fn active_at(r: Option<ReservationView>, now: Instant) -> bool {
    r matches Some(res) && !expired_at(res, now)
}

/// What reserving `port` of hub `hub_id` for `by` at `now` does: the hubs after
/// it and its result.
pub open spec fn reserve_spec(
    m: HubMap,
    hub_id: Seq<char>,
    port: u8,
    by: DeviceRole,
    duration: Option<Nanos>,
    now: Instant,
) -> (HubMap, Result<(), FaultView>) {
    if !m.contains_key(hub_id) {
        (m, Err(FaultView::HubNotFound(hub_id)))
    } else {
        let h = m[hub_id];
        match port_index(h.ports, port) {
            None => (m, Err(FaultView::PortNotFound(port))),
            Some(i) => {
                let current = h.ports[i].reservation;
                if active_at(current, now) {
                    (m, Err(FaultView::PortAlreadyReserved(current->Some_0.reserved_by)))
                } else {
                    (
                        m.insert(
                            hub_id,
                            with_reservation(
                                h,
                                i,
                                Some(super::types::reservation_made(by, now, duration)),
                            ),
                        ),
                        Ok(()),
                    )
                }
            },
        }
    }
}

/// What reserving at `now` does when the reservation's end may lie past the
/// latest instant the clock can show: as `reserve_spec`, except that a
/// reservation that would be made with such an end is refused and nothing
/// changes.
pub open spec fn reserve_now_spec(
    m: HubMap,
    hub_id: Seq<char>,
    port: u8,
    by: DeviceRole,
    duration: Option<Nanos>,
    now: Instant,
) -> (HubMap, Result<(), FaultView>) {
    let (m1, r) = reserve_spec(m, hub_id, port, by, duration, now);
    if r is Ok && !duration_fits(now, duration) {
        (m, Err(FaultView::InvalidOperation(expiry_overflow())))
    } else {
        (m1, r)
    }
}

/// What releasing `port` of hub `hub_id` by `by` does: the hubs after it and its
/// result. Only the holder of a reservation can release it, expired or not.
pub open spec fn release_spec(m: HubMap, hub_id: Seq<char>, port: u8, by: DeviceRole) -> (
    HubMap,
    Result<(), FaultView>,
) {
    if !m.contains_key(hub_id) {
        (m, Err(FaultView::HubNotFound(hub_id)))
    } else {
        let h = m[hub_id];
        match port_index(h.ports, port) {
            None => (m, Err(FaultView::PortNotFound(port))),
            Some(i) => match h.ports[i].reservation {
                None => (m, Err(FaultView::ReservationNotFound)),
                Some(r) => if r.reserved_by != by {
                    (m, Err(FaultView::InvalidOperation(release_refusal(r.reserved_by, by))))
                } else {
                    (m.insert(hub_id, with_reservation(h, i, None)), Ok(()))
                },
            },
        }
    }
}

/// What switching `port` of hub `hub_id` to `state` does, given the outcome of
/// the `uhubctl` run: the hubs after it and its result. A port that the hub
/// does not list is left alone.
pub open spec fn power_spec(
    m: HubMap,
    hub_id: Seq<char>,
    port: u8,
    state: PowerState,
    tool: Result<(), UhubctlErrorView>,
) -> (HubMap, Result<(), FaultView>) {
    if !m.contains_key(hub_id) {
        (m, Err(FaultView::HubNotFound(hub_id)))
    } else {
        match tool {
            Err(e) => (m, Err(FaultView::Uhubctl(e))),
            Ok(()) => {
                let h = m[hub_id];
                match port_index(h.ports, port) {
                    None => (m, Ok(())),
                    Some(i) => (m.insert(hub_id, with_power(h, i, state)), Ok(())),
                }
            },
        }
    }
}

/// The second half of reserving and powering on: power on; if that fails,
/// release the reservation again and report the failure.
pub open spec fn finish_reserve_and_power_on_spec(
    m: HubMap,
    hub_id: Seq<char>,
    port: u8,
    by: DeviceRole,
    tool: Result<(), UhubctlErrorView>,
) -> (HubMap, Result<(), FaultView>) {
    let (m1, r1) = power_spec(m, hub_id, port, PowerState::On, tool);
    match r1 {
        Ok(()) => (m1, Ok(())),
        Err(e) => (release_spec(m1, hub_id, port, by).0, Err(e)),
    }
}

/// Powering off and releasing, as one step: a release that would be refused is
/// refused before the port is touched; otherwise the port is powered off, then
/// released if that succeeded.
pub open spec fn power_off_and_release_spec(
    m: HubMap,
    hub_id: Seq<char>,
    port: u8,
    by: DeviceRole,
    tool: Result<(), UhubctlErrorView>,
) -> (HubMap, Result<(), FaultView>) {
    match release_spec(m, hub_id, port, by).1 {
        Err(e) => (m, Err(e)),
        Ok(()) => {
            let (m1, r1) = power_spec(m, hub_id, port, PowerState::Off, tool);
            match r1 {
                Ok(()) => release_spec(m1, hub_id, port, by),
                Err(e) => (m1, Err(e)),
            }
        },
    }
}

/// The port with its reservation dropped if it has expired at `now`.
pub open spec fn port_cleared(p: UsbPortView, now: Instant) -> UsbPortView {
    if p.reservation matches Some(r) && expired_at(r, now) {
        UsbPortView { reservation: None, ..p }
    } else {
        p
    }
}

/// The hub with every reservation that has expired at `now` dropped.
pub open spec fn hub_cleared(h: UsbHubView, now: Instant) -> UsbHubView {
    UsbHubView { ports: h.ports.map_values(|p: UsbPortView| port_cleared(p, now)), ..h }
}

/// The number of ports whose reservation has expired at `now`.
pub open spec fn expired_count(ports: Seq<UsbPortView>, now: Instant) -> nat
    decreases ports.len(),
{
    if ports.len() == 0 {
        0
    } else {
        expired_count(ports.drop_last(), now) + if ports.last().reservation matches Some(r)
            && expired_at(r, now) {
            1nat
        } else {
            0nat
        }
    }
}

/// The number of expired reservations over the hubs at `keys`.
pub open spec fn expired_total(m: HubMap, keys: Seq<Seq<char>>, now: Instant) -> nat
    decreases keys.len(),
{
    if keys.len() == 0 {
        0
    } else {
        expired_total(m, keys.drop_last(), now) + expired_count(m[keys.last()].ports, now)
    }
}

/// The number of ports that carry a reservation, expired or not.
pub open spec fn reserved_count(ports: Seq<UsbPortView>) -> nat
    decreases ports.len(),
{
    if ports.len() == 0 {
        0
    } else {
        reserved_count(ports.drop_last()) + if ports.last().reservation is Some {
            1nat
        } else {
            0nat
        }
    }
}

/// The number of reservations, expired or not, over the hubs at `keys`.
pub open spec fn reserved_total(m: HubMap, keys: Seq<Seq<char>>) -> nat
    decreases keys.len(),
{
    if keys.len() == 0 {
        0
    } else {
        reserved_total(m, keys.drop_last()) + reserved_count(m[keys.last()].ports)
    }
}

/// However the clock reads, no more reservations have expired than there are.
pub proof fn lemma_expired_within_reserved(m: HubMap, keys: Seq<Seq<char>>, now: Instant)
    ensures
        expired_total(m, keys, now) <= reserved_total(m, keys),
    decreases keys.len(),
{
    if keys.len() > 0 {
        lemma_expired_within_reserved(m, keys.drop_last(), now);
        lemma_expired_count_within(m[keys.last()].ports, now);
    }
}

/// However the clock reads, no more ports of a hub have an expired reservation
/// than have a reservation.
pub proof fn lemma_expired_count_within(ports: Seq<UsbPortView>, now: Instant)
    ensures
        expired_count(ports, now) <= reserved_count(ports),
    decreases ports.len(),
{
    if ports.len() > 0 {
        lemma_expired_count_within(ports.drop_last(), now);
    }
}

/// The ports of hub `key` reserved by `role` and not expired at `now`, as
/// `(key, port number)` pairs in port order.
pub open spec fn held_in_hub(key: Seq<char>, ports: Seq<UsbPortView>, role: DeviceRole, now: Instant) -> Seq<(Seq<char>, u8)>
    decreases ports.len(),
{
    if ports.len() == 0 {
        Seq::empty()
    } else {
        let p = ports.last();
        let rest = held_in_hub(key, ports.drop_last(), role, now);
        if p.reservation matches Some(r) && r.reserved_by == role && !expired_at(r, now) {
            rest.push((key, p.port_number))
        } else {
            rest
        }
    }
}

/// The ports reserved by `role` and not expired at `now`, over the hubs at `keys`.
pub open spec fn held_ports(m: HubMap, keys: Seq<Seq<char>>, role: DeviceRole, now: Instant) -> Seq<(Seq<char>, u8)>
    decreases keys.len(),
{
    if keys.len() == 0 {
        Seq::empty()
    } else {
        held_ports(m, keys.drop_last(), role, now) + held_in_hub(keys.last(), m[keys.last()].ports, role, now)
    }
}

/// A port of a freshly read hub, keeping the reservation that the previous state
/// of the hub held on the first port with its number, when that has not expired at `now`.
pub open spec fn merged_port(old: UsbHubView, q: UsbPortView, now: Instant) -> UsbPortView {
    match port_index(old.ports, q.port_number) {
        Some(j) => if active_at(old.ports[j].reservation, now) {
            UsbPortView { reservation: old.ports[j].reservation, ..q }
        } else {
            q
        },
        None => q,
    }
}

/// A freshly read hub, keeping the reservations of `old` that hold at `now`.
pub open spec fn merged_hub(old: UsbHubView, fresh: UsbHubView, now: Instant) -> UsbHubView {
    UsbHubView { ports: fresh.ports.map_values(|q: UsbPortView| merged_port(old, q, now)), ..fresh }
}

/// The view of the outcome of reading a hub's status.
pub open spec fn status_view(r: Result<UsbHub, UhubctlError>) -> Result<UsbHubView, UhubctlErrorView> {
    match r {
        Ok(h) => Ok(h@),
        Err(e) => Err(e@),
    }
}

/// What refreshing hub `hub_id` from a status reading does: the hubs after it
/// and the hub it reports.
pub open spec fn refresh_spec(
    m: HubMap,
    hub_id: Seq<char>,
    status: Result<UsbHubView, UhubctlErrorView>,
    now: Instant,
) -> (HubMap, Result<UsbHubView, FaultView>) {
    if !m.contains_key(hub_id) {
        (m, Err(FaultView::HubNotFound(hub_id)))
    } else {
        match status {
            Err(e) => (m, Err(FaultView::Uhubctl(e))),
            Ok(fresh) => {
                let merged = merged_hub(m[hub_id], fresh, now);
                (m.insert(hub_id, merged), Ok(merged))
            },
        }
    }
}

/// The hubs after registering `hubs` in order, each under its id.
pub open spec fn register_all(m: HubMap, hubs: Seq<UsbHubView>) -> HubMap
    decreases hubs.len(),
{
    if hubs.len() == 0 {
        m
    } else {
        register_all(m, hubs.drop_last()).insert(hubs.last().id, hubs.last())
    }
}

/// The keys of `entries`, in order.
pub open spec fn keys_of(entries: Seq<HubEntry>) -> Seq<Seq<char>> {
    entries.map_values(|e: HubEntry| e.key@)
}

/// Where key `k` stands among `keys`.
pub open spec fn key_index(keys: Seq<Seq<char>>, k: Seq<char>) -> int {
    choose|i: int| 0 <= i < keys.len() && keys[i] == k
}

/// The map from keys to hubs that `entries` holds.
pub open spec fn entries_map(entries: Seq<HubEntry>) -> HubMap {
    Map::new(
        |k: Seq<char>| keys_of(entries).contains(k),
        |k: Seq<char>| entries[key_index(keys_of(entries), k)].hub@,
    )
}

/// No key occurs twice.
pub open spec fn distinct_keys(keys: Seq<Seq<char>>) -> bool {
    forall|i: int, j: int| 0 <= i < keys.len() && 0 <= j < keys.len() && i != j ==> keys[i] != keys[j]
}

/// A registered hub under its key.
#[derive(Debug)]
pub struct HubEntry {
    pub key: String,
    pub hub: UsbHub,
}

/// The hub manager: the tool that controls the hubs, and the registered hubs
/// with the reservations of their ports.
pub struct UsbHubManager {
    uhubctl: Uhubctl,
    entries: Vec<HubEntry>,
}

impl View for UsbHubManager {
    type V = HubMap;

    closed spec fn view(&self) -> HubMap {
        entries_map(self.entries@)
    }
}

/// The hub at `key_index` in `entries` is the one the map holds under its key.
proof fn lemma_entries_map_at(entries: Seq<HubEntry>, i: int)
    requires
        distinct_keys(keys_of(entries)),
        0 <= i < entries.len(),
    ensures
        entries_map(entries).contains_key(entries[i].key@),
        entries_map(entries)[entries[i].key@] == entries[i].hub@,
        key_index(keys_of(entries), entries[i].key@) == i,
{
    let keys = keys_of(entries);
    assert(keys[i] == entries[i].key@);
    let j = key_index(keys, entries[i].key@);
    assert(0 <= j < keys.len() && keys[j] == entries[i].key@);
}

/// Replacing the hub of entry `i` (keeping its key) updates the map at that key.
proof fn lemma_entries_map_set(entries: Seq<HubEntry>, i: int, e: HubEntry)
    requires
        distinct_keys(keys_of(entries)),
        0 <= i < entries.len(),
        e.key@ == entries[i].key@,
    ensures
        keys_of(entries.update(i, e)) == keys_of(entries),
        entries_map(entries.update(i, e)) == entries_map(entries).insert(e.key@, e.hub@),
{
    let ne = entries.update(i, e);
    assert(keys_of(ne) =~= keys_of(entries));
    let m1 = entries_map(ne);
    let m2 = entries_map(entries).insert(e.key@, e.hub@);
    assert(keys_of(entries)[i] == e.key@);
    assert(m1.dom() =~= m2.dom());
    assert forall|k: Seq<char>| #[trigger] m1.contains_key(k) implies m1[k] == m2[k] by {
        let j = key_index(keys_of(ne), k);
        if k == e.key@ {
            lemma_entries_map_at(ne, i);
        } else {
            assert(keys_of(ne)[j] == k);
            assert(j != i);
            assert(ne[j] == entries[j]);
        }
    }
    assert(m1 =~= m2);
}

/// Appending an entry with a new key adds it to the map.
proof fn lemma_entries_map_push(entries: Seq<HubEntry>, e: HubEntry)
    requires
        distinct_keys(keys_of(entries)),
        !keys_of(entries).contains(e.key@),
    ensures
        keys_of(entries.push(e)) == keys_of(entries).push(e.key@),
        distinct_keys(keys_of(entries.push(e))),
        entries_map(entries.push(e)) == entries_map(entries).insert(e.key@, e.hub@),
{
    let ne = entries.push(e);
    assert(keys_of(ne) =~= keys_of(entries).push(e.key@));
    let m1 = entries_map(ne);
    let m2 = entries_map(entries).insert(e.key@, e.hub@);
    assert forall|a: int, b: int|
        0 <= a < keys_of(ne).len() && 0 <= b < keys_of(ne).len() && a != b implies keys_of(
        ne,
    )[a] != keys_of(ne)[b] by {
        if a == entries.len() {
            assert(keys_of(entries)[b] == keys_of(ne)[b]);
        } else if b == entries.len() {
            assert(keys_of(entries)[a] == keys_of(ne)[a]);
        }
    }
    assert forall|k: Seq<char>| #[trigger] m1.contains_key(k) implies m2.contains_key(k) && m1[k]
        == m2[k] by {
        let j = key_index(keys_of(ne), k);
        if k == e.key@ {
            lemma_entries_map_at(ne, entries.len() as int);
        } else {
            assert(keys_of(ne)[j] == k);
            assert(j < entries.len());
            assert(keys_of(entries)[j] == k);
            lemma_entries_map_at(entries, j);
        }
    }
    assert forall|k: Seq<char>| m2.contains_key(k) implies #[trigger] m1.contains_key(k) by {
        if k != e.key@ {
            let j = choose|j: int| 0 <= j < keys_of(entries).len() && keys_of(entries)[j] == k;
            assert(keys_of(ne)[j] == k);
        } else {
            assert(keys_of(ne)[entries.len() as int] == k);
        }
    }
    assert(m1 =~= m2);
}

/// Counting expired reservations over a prefix of the ports counts no more.
proof fn lemma_expired_count_prefix(ports: Seq<UsbPortView>, k: int, now: Instant)
    requires
        0 <= k <= ports.len(),
    ensures
        expired_count(ports.take(k), now) <= expired_count(ports, now),
    decreases ports.len(),
{
    if k < ports.len() {
        assert(ports.drop_last().take(k) == ports.take(k));
        lemma_expired_count_prefix(ports.drop_last(), k, now);
    } else {
        assert(ports.take(k) == ports);
    }
}

/// Counting expired reservations over a prefix of the hubs counts no more.
proof fn lemma_expired_total_prefix(m: HubMap, keys: Seq<Seq<char>>, k: int, now: Instant)
    requires
        0 <= k <= keys.len(),
    ensures
        expired_total(m, keys.take(k), now) <= expired_total(m, keys, now),
    decreases keys.len(),
{
    if k < keys.len() {
        assert(keys.drop_last().take(k) == keys.take(k));
        lemma_expired_total_prefix(m, keys.drop_last(), k, now);
    } else {
        assert(keys.take(k) == keys);
    }
}

/// The views of `(key, port)` pairs.
pub open spec fn pairs_view(v: Seq<(String, u8)>) -> Seq<(Seq<char>, u8)> {
    v.map_values(|p: (String, u8)| (p.0@, p.1))
}

/// The position of the first port numbered `n` in `ports`.
fn find_port(ports: &Vec<UsbPort>, n: u8) -> (r: Option<usize>)
    ensures
        match r {
            Some(i) => i < ports@.len() && port_index(super::types::ports_view(ports@), n) == Some(
                i as int,
            ),
            None => port_index(super::types::ports_view(ports@), n) is None,
        },
{
    let ghost pv = super::types::ports_view(ports@);
    proof {
        lemma_port_index_from(pv, n, 0);
    }
    let mut i: usize = 0;
    while i < ports.len()
        invariant
            i <= ports.len(),
            pv == super::types::ports_view(ports@),
            port_index(pv, n) == port_index_from(pv, n, i as int),
        decreases ports.len() - i,
    {
        if ports[i].port_number == n {
            return Some(i);
        }
        i = i + 1;
    }
    None
}

/// Whether the end of a reservation made at `now` for `duration` can be shown
/// by the clock.
fn expiry_fits(now: Instant, duration: Option<Nanos>) -> (b: bool)
    ensures
        b == duration_fits(now, duration),
{
    match duration {
        Some(d) => d <= MAX_DURATION && now <= MAX_INSTANT - d as i128,
        None => true,
    }
}

impl UsbHubManager {
    #[verifier::type_invariant]
    spec fn keys_distinct(&self) -> bool {
        distinct_keys(keys_of(self.entries@))
    }

    /// The keys of the registered hubs, in the order `list_hubs` reports them.
    pub closed spec fn key_order(&self) -> Seq<Seq<char>> {
        keys_of(self.entries@)
    }

    /// A manager using `uhubctl` at `uhubctl_path` (or on the search path), with no hubs.
    pub fn new(uhubctl_path: Option<String>) -> (r: Self)
        ensures
            r@ == HubMap::empty(),
            r.key_order().len() == 0,
            r.uhubctl().uhubctl_path@ == match uhubctl_path {
                Some(p) => p@,
                None => super::uhubctl::default_program(),
            },
    {
        let r = UsbHubManager { uhubctl: Uhubctl::new(uhubctl_path), entries: Vec::new() };
        assert(r@ =~= HubMap::empty());
        r
    }

    /// The tool this manager uses.
    pub closed spec fn uhubctl(&self) -> Uhubctl {
        self.uhubctl
    }

    /// The tool this manager uses.
    pub fn tool(&self) -> (t: &Uhubctl)
        ensures
            *t == self.uhubctl(),
    {
        &self.uhubctl
    }

    /// The entry registered under `hub_id`.
    fn find_entry(&self, hub_id: &str) -> (r: Option<usize>)
        ensures
            match r {
                Some(i) => i < self.entries@.len() && self.entries@[i as int].key@ == hub_id@
                    && self@.contains_key(hub_id@) && self@[hub_id@] == self.entries@[i as int].hub@,
                None => !self@.contains_key(hub_id@),
            },
    {
        proof {
            use_type_invariant(self);
        }
        let key = String::from_str(hub_id);
        let mut i: usize = 0;
        while i < self.entries.len()
            invariant
                i <= self.entries.len(),
                key@ == hub_id@,
                distinct_keys(keys_of(self.entries@)),
                forall|j: int| 0 <= j < i ==> self.entries@[j].key@ != hub_id@,
            decreases self.entries.len() - i,
        {
            if self.entries[i].key == key {
                proof {
                    lemma_entries_map_at(self.entries@, i as int);
                }
                return Some(i);
            }
            i = i + 1;
        }
        proof {
            if keys_of(self.entries@).contains(hub_id@) {
                let j = choose|j: int|
                    0 <= j < keys_of(self.entries@).len() && keys_of(self.entries@)[j] == hub_id@;
                assert(self.entries@[j].key@ == hub_id@);
            }
        }
        None
    }

    /// Registers the hubs of a listing, each under its id (a later hub replacing an
    /// earlier one with the same id), and reports them.
    pub fn discover_hubs(&mut self, listed: Result<Vec<UsbHub>, UhubctlError>) -> (r: Result<
        Vec<UsbHub>,
        ManagerError,
    >)
        ensures
            match listed {
                Err(e) => {
                    &&& final(self)@ == old(self)@
                    &&& r matches Err(ManagerError::UhubctlError(f)) && f@ == e@
                },
                Ok(hubs) => {
                    &&& final(self)@ == register_all(old(self)@, hubs_view(hubs@))
                    &&& r matches Ok(found) && hubs_view(found@) == hubs_view(hubs@)
                },
            },
            final(self).uhubctl() == old(self).uhubctl(),
    {
        let hubs = match listed {
            Err(e) => {
                return Err(ManagerError::UhubctlError(e));
            },
            Ok(hubs) => hubs,
        };
        let ghost hv = hubs_view(hubs@);
        let ghost start = self@;
        let mut i: usize = 0;
        assert(hv.take(0) == Seq::<UsbHubView>::empty());
        while i < hubs.len()
            invariant
                i <= hubs.len(),
                hv == hubs_view(hubs@),
                self@ == register_all(start, hv.take(i as int)),
                self.uhubctl() == old(self).uhubctl(),
            decreases hubs.len() - i,
        {
            proof {
                assert(hv.take(i + 1).drop_last() == hv.take(i as int));
                assert(hv.take(i + 1).last() == hubs@[i as int]@);
            }
            let hub = hubs[i].clone();
            let key = hubs[i].id.clone();
            self.register(key, hub);
            i = i + 1;
        }
        proof {
            assert(hv.take(hubs.len() as int) == hv);
        }
        Ok(hubs)
    }

    /// Registers `hub` under `key`, replacing what was there.
    fn register(&mut self, key: String, hub: UsbHub)
        ensures
            final(self)@ == old(self)@.insert(key@, hub@),
            final(self).uhubctl() == old(self).uhubctl(),
    {
        proof {
            use_type_invariant(&*self);
        }
        match self.find_entry(key.as_str()) {
            Some(i) => {
                let ghost old_entries = self.entries@;
                let e = HubEntry { key, hub };
                proof {
                    lemma_entries_map_set(old_entries, i as int, e);
                }
                let mut entries: Vec<HubEntry> = Vec::new();
                std::mem::swap(&mut entries, &mut self.entries);
                entries.set(i, e);
                self.entries = entries;
            },
            None => {
                let ghost old_entries = self.entries@;
                let e = HubEntry { key, hub };
                proof {
                    if keys_of(old_entries).contains(e.key@) {
                        let j = choose|j: int|
                            0 <= j < keys_of(old_entries).len() && keys_of(old_entries)[j]
                                == e.key@;
                        lemma_entries_map_at(old_entries, j);
                    }
                    lemma_entries_map_push(old_entries, e);
                }
                let mut entries: Vec<HubEntry> = Vec::new();
                std::mem::swap(&mut entries, &mut self.entries);
                entries.push(e);
                self.entries = entries;
            },
        }
    }

    /// The registered hubs, in key order.
    pub fn list_hubs(&self) -> (r: Vec<UsbHub>)
        ensures
            r@.len() == self.key_order().len(),
            forall|i: int|
                0 <= i < r@.len() ==> #[trigger] r@[i]@ == self@[self.key_order()[i]],
            distinct_keys(self.key_order()),
            forall|k: Seq<char>| self@.contains_key(k) <==> self.key_order().contains(k),
    {
        proof {
            use_type_invariant(self);
        }
        let mut r: Vec<UsbHub> = Vec::new();
        let mut i: usize = 0;
        while i < self.entries.len()
            invariant
                i <= self.entries.len(),
                r@.len() == i,
                distinct_keys(keys_of(self.entries@)),
                forall|j: int| 0 <= j < i ==> #[trigger] r@[j]@ == self.entries@[j].hub@,
            decreases self.entries.len() - i,
        {
            r.push(self.entries[i].hub.clone());
            i = i + 1;
        }
        proof {
            assert forall|j: int| 0 <= j < r@.len() implies #[trigger] r@[j]@
                == self@[self.key_order()[j]] by {
                lemma_entries_map_at(self.entries@, j);
            }
        }
        r
    }

    /// The hub registered under `hub_id`.
    pub fn get_hub(&self, hub_id: &str) -> (r: Result<UsbHub, ManagerError>)
        ensures
            match r {
                Ok(h) => self@.contains_key(hub_id@) && h@ == self@[hub_id@],
                Err(e) => !self@.contains_key(hub_id@) && e@ == FaultView::HubNotFound(hub_id@),
            },
    {
        match self.find_entry(hub_id) {
            Some(i) => Ok(self.entries[i].hub.clone()),
            None => Err(ManagerError::HubNotFound(String::from_str(hub_id))),
        }
    }

    /// The location of the hub registered under `hub_id`: where the tool is told
    /// to act on it.
    pub fn hub_location(&self, hub_id: &str) -> (r: Result<String, ManagerError>)
        ensures
            match r {
                Ok(loc) => self@.contains_key(hub_id@) && loc@ == self@[hub_id@].location,
                Err(e) => !self@.contains_key(hub_id@) && e@ == FaultView::HubNotFound(hub_id@),
            },
    {
        match self.find_entry(hub_id) {
            Some(i) => Ok(self.entries[i].hub.location.clone()),
            None => Err(ManagerError::HubNotFound(String::from_str(hub_id))),
        }
    }

    /// Replaces the hub of the entry at `i`, keeping its key.
    fn set_hub(&mut self, i: usize, hub: UsbHub)
        requires
            i < old(self).entries@.len(),
        ensures
            final(self)@ == old(self)@.insert(old(self).entries@[i as int].key@, hub@),
            final(self).key_order() == old(self).key_order(),
            final(self).entries@.len() == old(self).entries@.len(),
            final(self).entries@[i as int].key@ == old(self).entries@[i as int].key@,
            final(self).uhubctl() == old(self).uhubctl(),
    {
        proof {
            use_type_invariant(&*self);
        }
        let key = self.entries[i].key.clone();
        let e = HubEntry { key, hub };
        let ghost old_entries = self.entries@;
        proof {
            lemma_entries_map_set(old_entries, i as int, e);
        }
        let mut entries: Vec<HubEntry> = Vec::new();
        std::mem::swap(&mut entries, &mut self.entries);
        entries.set(i, e);
        self.entries = entries;
    }

    /// Reserves `port` of hub `hub_id` for `reserved_by` at `now`, as
    /// `reserve_now_spec` says.
    fn reserve_checked(
        &mut self,
        hub_id: &str,
        port_number: u8,
        reserved_by: DeviceRole,
        duration: Option<Nanos>,
        now: Instant,
    ) -> (r: Result<(), ManagerError>)
        ensures
            (final(self)@, outcome_view(r)) == reserve_now_spec(
                old(self)@,
                hub_id@,
                port_number,
                reserved_by,
                duration,
                now,
            ),
            final(self).key_order() == old(self).key_order(),
            final(self).uhubctl() == old(self).uhubctl(),
    {
        let i = match self.find_entry(hub_id) {
            None => {
                return Err(ManagerError::HubNotFound(String::from_str(hub_id)));
            },
            Some(i) => i,
        };
        let mut hub = self.entries[i].hub.clone();
        let j = match find_port(&hub.ports, port_number) {
            None => {
                return Err(ManagerError::PortNotFound(port_number));
            },
            Some(j) => j,
        };
        let mut p = hub.ports[j].clone();
        match &p.reservation {
            Some(existing) => {
                if !existing.is_expired_at(now) {
                    return Err(ManagerError::PortAlreadyReserved(existing.reserved_by));
                }
            },
            None => {},
        }
        if !expiry_fits(now, duration) {
            return Err(
                ManagerError::InvalidOperation(
                    String::from_str("overflow when adding duration to instant"),
                ),
            );
        }
        p.reservation = Some(PortReservation::new_at(reserved_by, duration, now));
        let ghost old_hub = hub@;
        let ghost pv = p@;
        hub.ports.set(j, p);
        proof {
            assert(super::types::ports_view(hub.ports@) =~= old_hub.ports.update(j as int, pv));
            assert(hub@ == with_reservation(
                old_hub,
                j as int,
                Some(super::types::reservation_made(reserved_by, now, duration)),
            ));
        }
        self.set_hub(i, hub);
        Ok(())
    }

    /// Reserves `port` of hub `hub_id` for `reserved_by` at `now`, for `duration`
    /// (for good when `None`). A reservation that holds at `now` refuses it.
    pub fn reserve_port_at(
        &mut self,
        hub_id: &str,
        port_number: u8,
        reserved_by: DeviceRole,
        duration: Option<Nanos>,
        now: Instant,
    ) -> (r: Result<(), ManagerError>)
        requires
            reserve_spec(old(self)@, hub_id@, port_number, reserved_by, duration, now).1 is Ok
                ==> duration_fits(now, duration),
        ensures
            (final(self)@, outcome_view(r)) == reserve_spec(
                old(self)@,
                hub_id@,
                port_number,
                reserved_by,
                duration,
                now,
            ),
            final(self).key_order() == old(self).key_order(),
            final(self).uhubctl() == old(self).uhubctl(),
    {
        self.reserve_checked(hub_id, port_number, reserved_by, duration, now)
    }

    /// Whether `released_by` may release the reservation of `port` of hub
    /// `hub_id`: the location of its hub where the release would go through,
    /// otherwise the error with which it would be refused. Nothing changes.
    pub fn release_check(&self, hub_id: &str, port_number: u8, released_by: DeviceRole) -> (r:
        Result<String, ManagerError>)
        ensures
            match release_spec(self@, hub_id@, port_number, released_by).1 {
                Ok(()) => r matches Ok(loc) && loc@ == self@[hub_id@].location,
                Err(e) => r matches Err(f) && f@ == e,
            },
    {
        let i = match self.find_entry(hub_id) {
            None => {
                return Err(ManagerError::HubNotFound(String::from_str(hub_id)));
            },
            Some(i) => i,
        };
        let hub = &self.entries[i].hub;
        let j = match find_port(&hub.ports, port_number) {
            None => {
                return Err(ManagerError::PortNotFound(port_number));
            },
            Some(j) => j,
        };
        assert(hub.ports@[j as int]@ == self@[hub_id@].ports[j as int]);
        match &hub.ports[j].reservation {
            Some(existing) => {
                if existing.reserved_by != released_by {
                    let holder = existing.reserved_by.to_string();
                    let by = released_by.to_string();
                    let a = joined("Port is reserved by ", holder.as_str());
                    let b = joined(a.as_str(), ", cannot be released by ");
                    let msg = joined(b.as_str(), by.as_str());
                    Err(ManagerError::InvalidOperation(msg))
                } else {
                    Ok(hub.location.clone())
                }
            },
            None => Err(ManagerError::ReservationNotFound),
        }
    }

    /// Releases the reservation of `port` of hub `hub_id`, which only its holder
    /// `released_by` can do.
    pub fn release_port(&mut self, hub_id: &str, port_number: u8, released_by: DeviceRole) -> (r:
        Result<(), ManagerError>)
        ensures
            (final(self)@, outcome_view(r)) == release_spec(
                old(self)@,
                hub_id@,
                port_number,
                released_by,
            ),
            final(self).key_order() == old(self).key_order(),
            final(self).uhubctl() == old(self).uhubctl(),
    {
        let i = match self.find_entry(hub_id) {
            None => {
                return Err(ManagerError::HubNotFound(String::from_str(hub_id)));
            },
            Some(i) => i,
        };
        let mut hub = self.entries[i].hub.clone();
        let j = match find_port(&hub.ports, port_number) {
            None => {
                return Err(ManagerError::PortNotFound(port_number));
            },
            Some(j) => j,
        };
        let mut p = hub.ports[j].clone();
        match &p.reservation {
            Some(existing) => {
                if existing.reserved_by != released_by {
                    let holder = existing.reserved_by.to_string();
                    let by = released_by.to_string();
                    let a = joined("Port is reserved by ", holder.as_str());
                    let b = joined(a.as_str(), ", cannot be released by ");
                    let msg = joined(b.as_str(), by.as_str());
                    return Err(ManagerError::InvalidOperation(msg));
                }
            },
            None => {
                return Err(ManagerError::ReservationNotFound);
            },
        }
        p.reservation = None;
        let ghost old_hub = hub@;
        let ghost pv = p@;
        hub.ports.set(j, p);
        proof {
            assert(super::types::ports_view(hub.ports@) =~= old_hub.ports.update(j as int, pv));
            assert(hub@ == with_reservation(old_hub, j as int, None));
        }
        self.set_hub(i, hub);
        Ok(())
    }

    /// Records the power state of a port after the tool was run to set it.
    fn apply_power(&mut self, hub_id: &str, port_number: u8, state: PowerState, tool: Result<(), UhubctlError>) -> (r: Result<(), ManagerError>)
        ensures
            (final(self)@, outcome_view(r)) == power_spec(
                old(self)@,
                hub_id@,
                port_number,
                state,
                tool_view(tool),
            ),
            final(self).key_order() == old(self).key_order(),
            final(self).uhubctl() == old(self).uhubctl(),
    {
        let i = match self.find_entry(hub_id) {
            None => {
                return Err(ManagerError::HubNotFound(String::from_str(hub_id)));
            },
            Some(i) => i,
        };
        match tool {
            Err(e) => {
                return Err(ManagerError::UhubctlError(e));
            },
            Ok(()) => {},
        }
        let mut hub = self.entries[i].hub.clone();
        match find_port(&hub.ports, port_number) {
            None => {
                proof {
                    assert(self@.insert(hub_id@, self@[hub_id@]) == self@);
                }
                Ok(())
            },
            Some(j) => {
                let mut p = hub.ports[j].clone();
                p.power_state = state;
                let ghost old_hub = hub@;
                let ghost pv = p@;
                hub.ports.set(j, p);
                proof {
                    assert(super::types::ports_view(hub.ports@) =~= old_hub.ports.update(
                        j as int,
                        pv,
                    ));
                    assert(hub@ == with_power(old_hub, j as int, state));
                }
                self.set_hub(i, hub);
                Ok(())
            },
        }
    }

    /// Records that `port` of hub `hub_id` was switched on, given the outcome of
    /// running the tool's power-on command for it.
    pub fn power_on_port(&mut self, hub_id: &str, port_number: u8, tool: Result<(), UhubctlError>) -> (r: Result<(), ManagerError>)
        ensures
            (final(self)@, outcome_view(r)) == power_spec(
                old(self)@,
                hub_id@,
                port_number,
                PowerState::On,
                tool_view(tool),
            ),
            final(self).key_order() == old(self).key_order(),
            final(self).uhubctl() == old(self).uhubctl(),
    {
        self.apply_power(hub_id, port_number, PowerState::On, tool)
    }

    /// Records that `port` of hub `hub_id` was switched off, given the outcome of
    /// running the tool's power-off command for it.
    pub fn power_off_port(&mut self, hub_id: &str, port_number: u8, tool: Result<(), UhubctlError>) -> (r: Result<(), ManagerError>)
        ensures
            (final(self)@, outcome_view(r)) == power_spec(
                old(self)@,
                hub_id@,
                port_number,
                PowerState::Off,
                tool_view(tool),
            ),
            final(self).key_order() == old(self).key_order(),
            final(self).uhubctl() == old(self).uhubctl(),
    {
        self.apply_power(hub_id, port_number, PowerState::Off, tool)
    }

    /// First half of reserving and powering on a port: reserves it, and gives the
    /// location of its hub, where the tool is to switch the port on.
    pub fn reserve_and_power_on_at(
        &mut self,
        hub_id: &str,
        port_number: u8,
        reserved_by: DeviceRole,
        duration: Option<Nanos>,
        now: Instant,
    ) -> (r: Result<String, ManagerError>)
        requires
            reserve_spec(old(self)@, hub_id@, port_number, reserved_by, duration, now).1 is Ok
                ==> duration_fits(now, duration),
        ensures
            ({
                let (m, res) = reserve_spec(
                    old(self)@,
                    hub_id@,
                    port_number,
                    reserved_by,
                    duration,
                    now,
                );
                &&& final(self)@ == m
                &&& match r {
                    Ok(loc) => res is Ok && loc@ == m[hub_id@].location,
                    Err(e) => res == Err::<(), FaultView>(e@),
                }
            }),
            final(self).key_order() == old(self).key_order(),
            final(self).uhubctl() == old(self).uhubctl(),
    {
        match self.reserve_port_at(hub_id, port_number, reserved_by, duration, now) {
            Err(e) => Err(e),
            Ok(()) => self.hub_location(hub_id),
        }
    }

    /// Second half of reserving and powering on a port: records the outcome of the
    /// tool's power-on command; if the port could not be powered on, the
    /// reservation is released again and the failure reported.
    pub fn finish_reserve_and_power_on(
        &mut self,
        hub_id: &str,
        port_number: u8,
        reserved_by: DeviceRole,
        tool: Result<(), UhubctlError>,
    ) -> (r: Result<(), ManagerError>)
        ensures
            (final(self)@, outcome_view(r)) == finish_reserve_and_power_on_spec(
                old(self)@,
                hub_id@,
                port_number,
                reserved_by,
                tool_view(tool),
            ),
            final(self).key_order() == old(self).key_order(),
            final(self).uhubctl() == old(self).uhubctl(),
    {
        match self.power_on_port(hub_id, port_number, tool) {
            Ok(()) => Ok(()),
            Err(e) => {
                let _ = self.release_port(hub_id, port_number, reserved_by);
                Err(e)
            },
        }
    }

    /// Powers off and releases `port` of hub `hub_id` as one step. A release that
    /// `released_by` may not make is refused first, with nothing changed (the
    /// caller learns this from `release_check` before running the tool).
    /// Otherwise records that the port was switched off, given the outcome of
    /// running the tool's power-off command, and then releases its reservation.
    pub fn power_off_and_release(
        &mut self,
        hub_id: &str,
        port_number: u8,
        released_by: DeviceRole,
        tool: Result<(), UhubctlError>,
    ) -> (r: Result<(), ManagerError>)
        ensures
            (final(self)@, outcome_view(r)) == power_off_and_release_spec(
                old(self)@,
                hub_id@,
                port_number,
                released_by,
                tool_view(tool),
            ),
            final(self).key_order() == old(self).key_order(),
            final(self).uhubctl() == old(self).uhubctl(),
    {
        match self.release_check(hub_id, port_number, released_by) {
            Err(e) => {
                return Err(e);
            },
            Ok(_) => {},
        }
        let ghost m0 = self@;
        proof {
            let i = port_index(m0[hub_id@].ports, port_number)->Some_0;
            lemma_port_index_from(m0[hub_id@].ports, port_number, 0);
            lemma_port_index_with_power(m0[hub_id@], i, PowerState::Off, port_number);
        }
        match self.power_off_port(hub_id, port_number, tool) {
            Err(e) => Err(e),
            Ok(()) => self.release_port(hub_id, port_number, released_by),
        }
    }

    /// Reads a hub's status into the registered hub `hub_id`, keeping each
    /// reservation that still holds at `now` on the port with the same number;
    /// reports the hub as registered now.
    pub fn refresh_hub_at(&mut self, hub_id: &str, status: Result<UsbHub, UhubctlError>, now: Instant) -> (r: Result<UsbHub, ManagerError>)
        ensures
            ({
                let (m, res) = refresh_spec(old(self)@, hub_id@, status_view(status), now);
                &&& final(self)@ == m
                &&& match r {
                    Ok(h) => res == Ok::<UsbHubView, FaultView>(h@),
                    Err(e) => res == Err::<UsbHubView, FaultView>(e@),
                }
            }),
            final(self).key_order() == old(self).key_order(),
            final(self).uhubctl() == old(self).uhubctl(),
    {
        let i = match self.find_entry(hub_id) {
            None => {
                return Err(ManagerError::HubNotFound(String::from_str(hub_id)));
            },
            Some(i) => i,
        };
        let fresh = match status {
            Err(e) => {
                return Err(ManagerError::UhubctlError(e));
            },
            Ok(h) => h,
        };
        let ghost old_hub = self.entries@[i as int].hub@;
        let ghost fv = fresh@;
        let mut ports: Vec<UsbPort> = Vec::new();
        let mut k: usize = 0;
        while k < fresh.ports.len()
            invariant
                k <= fresh.ports.len(),
                i < self.entries@.len(),
                old_hub == self.entries@[i as int].hub@,
                fv == fresh@,
                super::types::ports_view(ports@) == fv.ports.take(k as int).map_values(
                    |q: UsbPortView| merged_port(old_hub, q, now),
                ),
            decreases fresh.ports.len() - k,
        {
            let mut q = fresh.ports[k].clone();
            let ghost qv = fv.ports[k as int];
            assert(q@ == qv);
            match find_port(&self.entries[i].hub.ports, q.port_number) {
                Some(j) => {
                    match &self.entries[i].hub.ports[j].reservation {
                        Some(res) => {
                            if !res.is_expired_at(now) {
                                q.reservation = Some(res.clone());
                            }
                        },
                        None => {},
                    }
                },
                None => {},
            }
            assert(q@ == merged_port(old_hub, qv, now));
            let ghost before = ports@;
            ports.push(q);
            proof {
                assert(fv.ports.take(k + 1) == fv.ports.take(k as int).push(qv));
                assert(super::types::ports_view(ports@) == super::types::ports_view(before).push(
                    merged_port(old_hub, qv, now),
                ));
                assert(fv.ports.take(k + 1).map_values(|q: UsbPortView| merged_port(old_hub, q, now))
                    =~= fv.ports.take(k as int).map_values(
                    |q: UsbPortView| merged_port(old_hub, q, now),
                ).push(merged_port(old_hub, qv, now)));
            }
            k = k + 1;
        }
        let merged = UsbHub {
            id: fresh.id,
            vendor_id: fresh.vendor_id,
            product_id: fresh.product_id,
            location: fresh.location,
            name: fresh.name,
            ports,
        };
        proof {
            assert(fv.ports.take(fv.ports.len() as int) == fv.ports);
            assert(merged@ == merged_hub(old_hub, fv, now));
        }
        let reported = merged.clone();
        self.set_hub(i, merged);
        Ok(reported)
    }

    /// Drops every reservation that has expired at `now`, and counts them.
    pub fn cleanup_expired_reservations_at(&mut self, now: Instant) -> (count: usize)
        requires
            expired_total(old(self)@, old(self).key_order(), now) <= usize::MAX,
        ensures
            final(self)@ == old(self)@.map_values(|h: UsbHubView| hub_cleared(h, now)),
            count == expired_total(old(self)@, old(self).key_order(), now),
            forall|i: int|
                0 <= i < final(self).key_order().len() ==> final(self)@.contains_key(
                    #[trigger] final(self).key_order()[i],
                ),
            forall|k: Seq<char>| final(self)@.contains_key(k) <==> final(self).key_order().contains(k),
            distinct_keys(final(self).key_order()),
            final(self).key_order() == old(self).key_order(),
            final(self).uhubctl() == old(self).uhubctl(),
    {
        proof {
            use_type_invariant(&*self);
        }
        let ghost start = self@;
        let ghost keys = self.key_order();
        let mut count: usize = 0;
        let mut i: usize = 0;
        assert(keys.take(0) == Seq::<Seq<char>>::empty());
        while i < self.entries.len()
            invariant
                i <= self.entries.len(),
                keys == self.key_order(),
                keys.len() == self.entries@.len(),
                distinct_keys(keys),
                self.uhubctl() == old(self).uhubctl(),
                self@.dom() == start.dom(),
                forall|k: Seq<char>| keys.contains(k) <==> start.contains_key(k),
                forall|j: int|
                    0 <= j < keys.len() ==> #[trigger] self@[keys[j]] == if j < i {
                        hub_cleared(start[keys[j]], now)
                    } else {
                        start[keys[j]]
                    },
                count == expired_total(start, keys.take(i as int), now),
                expired_total(start, keys, now) <= usize::MAX,
            decreases self.entries.len() - i,
        {
            proof {
                lemma_entries_map_at(self.entries@, i as int);
                assert(self.entries@[i as int].key@ == keys[i as int]);
            }
            let ghost hv = self.entries@[i as int].hub@;
            assert(hv == start[keys[i as int]]);
            let mut hub = self.entries[i].hub.clone();
            let mut ports: Vec<UsbPort> = Vec::new();
            let mut here: usize = 0;
            let mut k: usize = 0;
            proof {
                assert(keys.take(i + 1).drop_last() == keys.take(i as int));
                assert(keys.take(i + 1).last() == keys[i as int]);
                lemma_expired_total_prefix(start, keys, i + 1, now);
                assert(hv.ports.take(0) == Seq::<UsbPortView>::empty());
            }
            while k < hub.ports.len()
                invariant
                    k <= hub.ports.len(),
                    hub@ == hv,
                    here == expired_count(hv.ports.take(k as int), now),
                    count + expired_count(hv.ports, now) <= usize::MAX,
                    super::types::ports_view(ports@) == hv.ports.take(k as int).map_values(
                        |p: UsbPortView| port_cleared(p, now),
                    ),
                decreases hub.ports.len() - k,
            {
                let mut p = hub.ports[k].clone();
                let ghost pv = hv.ports[k as int];
                assert(p@ == pv);
                proof {
                    assert(hv.ports.take(k + 1).drop_last() == hv.ports.take(k as int));
                    assert(hv.ports.take(k + 1).last() == pv);
                    lemma_expired_count_prefix(hv.ports, k + 1, now);
                }
                let expired = match &p.reservation {
                    Some(res) => res.is_expired_at(now),
                    None => false,
                };
                if expired {
                    p.reservation = None;
                    here = here + 1;
                }
                assert(p@ == port_cleared(pv, now));
                let ghost before = ports@;
                ports.push(p);
                proof {
                    assert(super::types::ports_view(ports@) == super::types::ports_view(before).push(
                        port_cleared(pv, now),
                    ));
                    assert(hv.ports.take(k + 1) == hv.ports.take(k as int).push(pv));
                    assert(hv.ports.take(k + 1).map_values(|p: UsbPortView| port_cleared(p, now))
                        =~= hv.ports.take(k as int).map_values(
                        |p: UsbPortView| port_cleared(p, now),
                    ).push(port_cleared(pv, now)));
                }
                k = k + 1;
            }
            proof {
                assert(hv.ports.take(hv.ports.len() as int) == hv.ports);
            }
            hub.ports = ports;
            assert(hub@ == hub_cleared(hv, now));
            count = count + here;
            let ghost before_map = self@;
            self.set_hub(i, hub);
            proof {
                assert forall|j: int| 0 <= j < keys.len() implies #[trigger] self@[keys[j]] == if j
                    < i + 1 {
                    hub_cleared(start[keys[j]], now)
                } else {
                    start[keys[j]]
                } by {
                    if j != i {
                        assert(keys[j] != keys[i as int]);
                    }
                }
                assert(self@.dom() =~= before_map.dom().insert(keys[i as int]));
                assert(before_map.dom().contains(keys[i as int]));
                assert(self@.dom() =~= start.dom());
            }
            i = i + 1;
        }
        proof {
            assert(keys.take(keys.len() as int) == keys);
            let target = start.map_values(|h: UsbHubView| hub_cleared(h, now));
            assert forall|k: Seq<char>| #[trigger] self@.contains_key(k) implies self@[k]
                == target[k] by {
                assert(keys.contains(k));
                let j = choose|j: int| 0 <= j < keys.len() && keys[j] == k;
                assert(self@[keys[j]] == hub_cleared(start[keys[j]], now));
            }
            assert(self@ =~= target);
        }
        count
    }

    /// The ports reserved by `role` whose reservation holds at `now`, as
    /// `(hub key, port number)` pairs, in key order and then port order.
    pub fn get_reserved_ports_at(&self, role: DeviceRole, now: Instant) -> (r: Vec<(String, u8)>)
        ensures
            pairs_view(r@) == held_ports(self@, self.key_order(), role, now),
            forall|k: Seq<char>| self@.contains_key(k) <==> self.key_order().contains(k),
            distinct_keys(self.key_order()),
    {
        proof {
            use_type_invariant(self);
        }
        let ghost keys = self.key_order();
        let mut r: Vec<(String, u8)> = Vec::new();
        let mut i: usize = 0;
        assert(keys.take(0) == Seq::<Seq<char>>::empty());
        assert(pairs_view(r@) == Seq::<(Seq<char>, u8)>::empty());
        while i < self.entries.len()
            invariant
                i <= self.entries.len(),
                keys == self.key_order(),
                keys.len() == self.entries@.len(),
                distinct_keys(keys),
                pairs_view(r@) == held_ports(self@, keys.take(i as int), role, now),
            decreases self.entries.len() - i,
        {
            proof {
                lemma_entries_map_at(self.entries@, i as int);
                assert(self.entries@[i as int].key@ == keys[i as int]);
                assert(keys.take(i + 1).drop_last() == keys.take(i as int));
                assert(keys.take(i + 1).last() == keys[i as int]);
            }
            let ghost hv = self.entries@[i as int].hub@;
            let ghost key = keys[i as int];
            let ghost base = pairs_view(r@);
            let mut k: usize = 0;
            assert(hv.ports.take(0) == Seq::<UsbPortView>::empty());
            assert(base + held_in_hub(key, hv.ports.take(0), role, now) == base);
            while k < self.entries[i].hub.ports.len()
                invariant
                    i < self.entries@.len(),
                    k <= self.entries@[i as int].hub.ports@.len(),
                    hv == self.entries@[i as int].hub@,
                    key == self.entries@[i as int].key@,
                    pairs_view(r@) == base + held_in_hub(key, hv.ports.take(k as int), role, now),
                decreases self.entries@[i as int].hub.ports@.len() - k,
            {
                let ghost pv = hv.ports[k as int];
                proof {
                    assert(hv.ports.take(k + 1).drop_last() == hv.ports.take(k as int));
                    assert(hv.ports.take(k + 1).last() == pv);
                }
                let port = &self.entries[i].hub.ports[k];
                assert(port@ == pv);
                let held = match &port.reservation {
                    Some(res) => res.reserved_by == role && !res.is_expired_at(now),
                    None => false,
                };
                if held {
                    let ghost before = r@;
                    r.push((self.entries[i].key.clone(), port.port_number));
                    proof {
                        assert(pairs_view(r@) == pairs_view(before).push((key, pv.port_number)));
                    }
                }
                k = k + 1;
            }
            proof {
                assert(hv.ports.take(hv.ports.len() as int) == hv.ports);
            }
            i = i + 1;
        }
        proof {
            assert(keys.take(keys.len() as int) == keys);
        }
        r
    }

    /// Reserves `port` of hub `hub_id` for `reserved_by`, now as the system clock
    /// reads, for `duration` (for good when `None`). A reservation that still
    /// holds refuses it. Where the reservation would be made but would end past
    /// the latest instant the clock can show, it is refused and nothing changes.
    ///
    /// Which instant the clock reads is not stated; the outcome is the one of
    /// `reserve_now_spec` at some instant the clock can show.
    pub fn reserve_port(
        &mut self,
        hub_id: &str,
        port_number: u8,
        reserved_by: DeviceRole,
        duration: Option<Nanos>,
    ) -> (r: Result<(), ManagerError>)
        ensures
            exists|now: Instant|
                clock_reads(now) && (final(self)@, outcome_view(r)) == #[trigger] reserve_now_spec(
                    old(self)@,
                    hub_id@,
                    port_number,
                    reserved_by,
                    duration,
                    now,
                ),
            final(self).key_order() == old(self).key_order(),
            final(self).uhubctl() == old(self).uhubctl(),
    {
        let now = current_time();
        let r = self.reserve_checked(hub_id, port_number, reserved_by, duration, now);
        assert((self@, outcome_view(r)) == reserve_now_spec(
            old(self)@,
            hub_id@,
            port_number,
            reserved_by,
            duration,
            now,
        ));
        r
    }

    /// First half of reserving and powering on a port, now as the system clock
    /// reads: reserves it as `reserve_port` does, and gives the location of its
    /// hub, where the tool is to switch the port on.
    ///
    /// Which instant the clock reads is not stated; the reservation's outcome is
    /// the one of `reserve_now_spec` at some instant the clock can show.
    pub fn reserve_and_power_on(
        &mut self,
        hub_id: &str,
        port_number: u8,
        reserved_by: DeviceRole,
        duration: Option<Nanos>,
    ) -> (r: Result<String, ManagerError>)
        ensures
            exists|now: Instant|
                clock_reads(now) && final(self)@ == (#[trigger] reserve_now_spec(
                    old(self)@,
                    hub_id@,
                    port_number,
                    reserved_by,
                    duration,
                    now,
                )).0 && match r {
                    Ok(loc) => reserve_now_spec(
                        old(self)@,
                        hub_id@,
                        port_number,
                        reserved_by,
                        duration,
                        now,
                    ).1 is Ok && loc@ == final(self)@[hub_id@].location,
                    Err(e) => reserve_now_spec(
                        old(self)@,
                        hub_id@,
                        port_number,
                        reserved_by,
                        duration,
                        now,
                    ).1 == Err::<(), FaultView>(e@),
                },
            final(self).key_order() == old(self).key_order(),
            final(self).uhubctl() == old(self).uhubctl(),
    {
        let now = current_time();
        let r = match self.reserve_checked(hub_id, port_number, reserved_by, duration, now) {
            Err(e) => Err(e),
            Ok(()) => self.hub_location(hub_id),
        };
        assert(self@ == reserve_now_spec(
            old(self)@,
            hub_id@,
            port_number,
            reserved_by,
            duration,
            now,
        ).0);
        r
    }

    /// Reads a hub's status into the registered hub `hub_id` as `refresh_hub_at`
    /// does, keeping the reservations that still hold now as the system clock
    /// reads.
    ///
    /// Which instant the clock reads is not stated; the outcome is the one of
    /// `refresh_hub_at` at some instant the clock can show.
    pub fn refresh_hub(&mut self, hub_id: &str, status: Result<UsbHub, UhubctlError>) -> (r: Result<
        UsbHub,
        ManagerError,
    >)
        ensures
            exists|now: Instant|
                clock_reads(now) && (final(self)@, hub_result_view(r)) == #[trigger] refresh_spec(
                    old(self)@,
                    hub_id@,
                    status_view(status),
                    now,
                ),
            final(self).key_order() == old(self).key_order(),
            final(self).uhubctl() == old(self).uhubctl(),
    {
        let ghost st = status_view(status);
        let now = current_time();
        let r = self.refresh_hub_at(hub_id, status, now);
        assert((self@, hub_result_view(r)) == refresh_spec(old(self)@, hub_id@, st, now));
        r
    }

    /// Drops every reservation that has expired, now as the system clock reads,
    /// and counts them.
    ///
    /// Which instant the clock reads is not stated; the outcome is the one of
    /// `cleanup_expired_reservations_at` at some instant the clock can show.
    pub fn cleanup_expired_reservations(&mut self) -> (count: usize)
        requires
            reserved_total(old(self)@, old(self).key_order()) <= usize::MAX,
        ensures
            exists|now: Instant|
                clock_reads(now) && final(self)@ == old(self)@.map_values(
                    |h: UsbHubView| hub_cleared(h, now),
                ) && count == #[trigger] expired_total(old(self)@, old(self).key_order(), now),
            forall|i: int|
                0 <= i < final(self).key_order().len() ==> final(self)@.contains_key(
                    #[trigger] final(self).key_order()[i],
                ),
            forall|k: Seq<char>| final(self)@.contains_key(k) <==> final(self).key_order().contains(k),
            distinct_keys(final(self).key_order()),
            final(self).key_order() == old(self).key_order(),
            final(self).uhubctl() == old(self).uhubctl(),
    {
        let now = current_time();
        proof {
            lemma_expired_within_reserved(self@, self.key_order(), now);
        }
        let count = self.cleanup_expired_reservations_at(now);
        assert(count == expired_total(old(self)@, old(self).key_order(), now));
        count
    }

    /// The ports reserved by `role` whose reservation still holds now, as the
    /// system clock reads, as `(hub key, port number)` pairs, in key order and
    /// then port order.
    ///
    /// Which instant the clock reads is not stated; the result is the one of
    /// `get_reserved_ports_at` at some instant the clock can show.
    pub fn get_reserved_ports(&self, role: DeviceRole) -> (r: Vec<(String, u8)>)
        ensures
            exists|now: Instant|
                clock_reads(now) && pairs_view(r@) == #[trigger] held_ports(
                    self@,
                    self.key_order(),
                    role,
                    now,
                ),
            forall|k: Seq<char>| self@.contains_key(k) <==> self.key_order().contains(k),
            distinct_keys(self.key_order()),
    {
        let now = current_time();
        let r = self.get_reserved_ports_at(role, now);
        assert(pairs_view(r@) == held_ports(self@, self.key_order(), role, now));
        r
    }

    /// Whether a run of the tool's version command shows it available.
    pub fn is_uhubctl_available(&self, outcome: &crate::command::CommandOutcome) -> (b: bool)
        ensures
            b == (outcome matches Ok(out) && out.success),
    {
        Uhubctl::is_available(outcome)
    }
}

} // verus!
