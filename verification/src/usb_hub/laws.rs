//! Laws of port reservations and hub power control.
use vstd::prelude::*;

use super::manager::{
    active_at, expired_count, held_in_hub, held_ports, merged_port, power_off_and_release_spec, expired_total, finish_reserve_and_power_on_spec, hub_cleared, port_cleared,
    port_index, port_index_from, power_spec, refresh_spec, release_spec, reserve_spec,
    with_reservation, FaultView, HubMap,
};
use super::types::{
    duration_fits, expired_at, reservation_made, DeviceRole, Instant, Nanos, PowerState, UsbHubView,
    UsbPortView,
};
use super::uhubctl::UhubctlErrorView;

verus! {

/// Port searches agree on port sequences that number their ports alike.
pub proof fn lemma_port_index_same_numbers(a: Seq<UsbPortView>, b: Seq<UsbPortView>, n: u8, i: int)
    requires
        a.len() == b.len(),
        forall|j: int| 0 <= j < a.len() ==> #[trigger] a[j].port_number == b[j].port_number,
    ensures
        port_index_from(a, n, i) == port_index_from(b, n, i),
    decreases a.len() - i,
{
    if 0 <= i < a.len() && a[i].port_number != n {
        lemma_port_index_same_numbers(a, b, n, i + 1);
    }
}

/// Replacing a port's reservation keeps where each port number is found.
pub proof fn lemma_port_index_with_reservation(h: UsbHubView, i: int, r: Option<super::types::ReservationView>, n: u8)
    requires
        0 <= i < h.ports.len(),
    ensures
        port_index(with_reservation(h, i, r).ports, n) == port_index(h.ports, n),
{
    let h2 = with_reservation(h, i, r);
    assert forall|j: int| 0 <= j < h2.ports.len() implies #[trigger] h2.ports[j].port_number
        == h.ports[j].port_number by {}
    lemma_port_index_same_numbers(h2.ports, h.ports, n, 0);
}

/// A reservation is exclusive: while it holds, nobody (its holder included) can
/// reserve the port; the attempt names the holder and changes nothing.
pub proof fn law_reservation_is_exclusive(
    m: HubMap,
    hub_id: Seq<char>,
    port: u8,
    by: DeviceRole,
    duration: Option<Nanos>,
    now: Instant,
)
    requires
        m.contains_key(hub_id),
        port_index(m[hub_id].ports, port) matches Some(i) && active_at(
            m[hub_id].ports[i].reservation,
            now,
        ),
    ensures
        ({
            let i = port_index(m[hub_id].ports, port)->Some_0;
            reserve_spec(m, hub_id, port, by, duration, now) == (
                m,
                Err::<(), FaultView>(
                    FaultView::PortAlreadyReserved(
                        m[hub_id].ports[i].reservation->Some_0.reserved_by,
                    ),
                ),
            )
        }),
{
}

/// A successful reservation holds, for its holder, at every instant from when it
/// was made until it expires: any other reservation of the port is refused then.
pub proof fn law_reservation_holds_until_expiry(
    m: HubMap,
    hub_id: Seq<char>,
    port: u8,
    by: DeviceRole,
    duration: Option<Nanos>,
    now: Instant,
    later: Instant,
    other: DeviceRole,
    other_duration: Option<Nanos>,
)
    requires
        reserve_spec(m, hub_id, port, by, duration, now).1 is Ok,
        super::types::duration_fits(now, duration),
        now <= later,
        duration matches Some(d) ==> later <= now + d,
    ensures
        ({
            let m1 = reserve_spec(m, hub_id, port, by, duration, now).0;
            reserve_spec(m1, hub_id, port, other, other_duration, later) == (
                m1,
                Err::<(), FaultView>(FaultView::PortAlreadyReserved(by)),
            )
        }),
{
    let h = m[hub_id];
    super::manager::lemma_port_index_from(h.ports, port, 0);
    let i = port_index(h.ports, port)->Some_0;
    let res = reservation_made(by, now, duration);
    lemma_port_index_with_reservation(h, i, Some(res), port);
    let m1 = reserve_spec(m, hub_id, port, by, duration, now).0;
    assert(m1[hub_id] == with_reservation(h, i, Some(res)));
    assert(m1[hub_id].ports[i].reservation == Some(res));
    assert(!expired_at(res, later));
}

/// Releasing undoes reserving: after a successful reservation of a port that held
/// no reservation, the holder's release succeeds and the hubs are as before.
pub proof fn law_release_undoes_reserve(
    m: HubMap,
    hub_id: Seq<char>,
    port: u8,
    by: DeviceRole,
    duration: Option<Nanos>,
    now: Instant,
)
    requires
        reserve_spec(m, hub_id, port, by, duration, now).1 is Ok,
        m[hub_id].ports[port_index(m[hub_id].ports, port)->Some_0].reservation is None,
    ensures
        release_spec(reserve_spec(m, hub_id, port, by, duration, now).0, hub_id, port, by) == (
            m,
            Ok::<(), FaultView>(()),
        ),
{
    let h = m[hub_id];
    super::manager::lemma_port_index_from(h.ports, port, 0);
    let i = port_index(h.ports, port)->Some_0;
    let res = Some(reservation_made(by, now, duration));
    lemma_port_index_with_reservation(h, i, res, port);
    let h1 = with_reservation(h, i, res);
    let h2 = with_reservation(h1, i, None);
    assert(h2.ports =~= h.ports);
    assert(h2 == h);
    let m1 = m.insert(hub_id, h1);
    assert(m1.insert(hub_id, h2) =~= m);
}

/// Only the holder can release a reservation: anyone else is refused, and
/// nothing changes.
pub proof fn law_release_by_other_is_refused(m: HubMap, hub_id: Seq<char>, port: u8, by: DeviceRole)
    requires
        m.contains_key(hub_id),
        port_index(m[hub_id].ports, port) matches Some(i) && m[hub_id].ports[i].reservation matches Some(
            r,
        ) && r.reserved_by != by,
    ensures
        release_spec(m, hub_id, port, by).0 == m,
        release_spec(m, hub_id, port, by).1 matches Err(FaultView::InvalidOperation(_)),
{
}

/// Releasing a port that holds no reservation is refused, and nothing changes.
pub proof fn law_release_unreserved_is_refused(m: HubMap, hub_id: Seq<char>, port: u8, by: DeviceRole)
    requires
        m.contains_key(hub_id),
        port_index(m[hub_id].ports, port) matches Some(i) && m[hub_id].ports[i].reservation is None,
    ensures
        release_spec(m, hub_id, port, by) == (m, Err::<(), FaultView>(FaultView::ReservationNotFound)),
{
}

/// Reserving succeeds exactly when the hub is registered, lists the port, and no
/// reservation of the port holds at that instant.
pub proof fn law_reserve_succeeds_iff_free(
    m: HubMap,
    hub_id: Seq<char>,
    port: u8,
    by: DeviceRole,
    duration: Option<Nanos>,
    now: Instant,
)
    ensures
        reserve_spec(m, hub_id, port, by, duration, now).1 is Ok <==> ({
            &&& m.contains_key(hub_id)
            &&& port_index(m[hub_id].ports, port) is Some
            &&& !active_at(
                m[hub_id].ports[port_index(m[hub_id].ports, port)->Some_0].reservation,
                now,
            )
        }),
{
}

/// Switching power leaves every reservation as it was, and registers no hub.
pub proof fn law_power_keeps_reservations(
    m: HubMap,
    hub_id: Seq<char>,
    port: u8,
    state: PowerState,
    tool: Result<(), UhubctlErrorView>,
)
    ensures
        ({
            let m1 = power_spec(m, hub_id, port, state, tool).0;
            &&& m1.dom() == m.dom()
            &&& forall|k: Seq<char>|
                #![trigger m1[k]]
                m.contains_key(k) ==> m1[k].ports.len() == m[k].ports.len() && forall|j: int|
                    0 <= j < m[k].ports.len() ==> #[trigger] m1[k].ports[j].reservation
                        == m[k].ports[j].reservation
        }),
{
    let (m1, r1) = power_spec(m, hub_id, port, state, tool);
    if m.contains_key(hub_id) && tool is Ok {
        if let Some(i) = port_index(m[hub_id].ports, port) {
            super::manager::lemma_port_index_from(m[hub_id].ports, port, 0);
            assert(m1.dom() =~= m.dom());
        }
    }
}

/// A failed power-on undoes the reservation made for it: when the port held no
/// reservation, the hubs end as they were before reserving, and the tool's
/// failure is reported.
pub proof fn law_failed_power_on_rolls_back(
    m: HubMap,
    hub_id: Seq<char>,
    port: u8,
    by: DeviceRole,
    duration: Option<Nanos>,
    now: Instant,
    failure: UhubctlErrorView,
)
    requires
        reserve_spec(m, hub_id, port, by, duration, now).1 is Ok,
        m[hub_id].ports[port_index(m[hub_id].ports, port)->Some_0].reservation is None,
    ensures
        finish_reserve_and_power_on_spec(
            reserve_spec(m, hub_id, port, by, duration, now).0,
            hub_id,
            port,
            by,
            Err(failure),
        ) == (m, Err::<(), FaultView>(FaultView::Uhubctl(failure))),
{
    law_release_undoes_reserve(m, hub_id, port, by, duration, now);
}

/// Once expired, a reservation stays expired.
pub proof fn law_expiry_is_permanent(r: super::types::ReservationView, t: Instant, later: Instant)
    requires
        expired_at(r, t),
        t <= later,
    ensures
        expired_at(r, later),
{
}

/// Cleaning up leaves no reservation that has expired at that instant, keeps every
/// other reservation, and changes nothing else.
pub proof fn law_cleanup_drops_exactly_expired(h: UsbHubView, now: Instant)
    ensures
        ({
            let c = hub_cleared(h, now);
            &&& c.ports.len() == h.ports.len()
            &&& forall|j: int|
                0 <= j < c.ports.len() ==> {
                    &&& !(#[trigger] c.ports[j].reservation matches Some(r) && expired_at(r, now))
                    &&& !(h.ports[j].reservation matches Some(r) && expired_at(r, now))
                        ==> c.ports[j] == h.ports[j]
                    &&& c.ports[j].port_number == h.ports[j].port_number
                    &&& c.ports[j].power_state == h.ports[j].power_state
                }
            &&& c.id == h.id && c.location == h.location
        }),
{
    let c = hub_cleared(h, now);
    assert forall|j: int| 0 <= j < c.ports.len() implies c.ports[j] == port_cleared(
        h.ports[j],
        now,
    ) by {}
}

/// Powering off and releasing is one step: where the release would be refused,
/// nothing changes (the port keeps its power and its reservation) whatever the
/// tool reported, and the refusal is the answer.
pub proof fn law_refused_release_powers_nothing_off(
    m: HubMap,
    hub_id: Seq<char>,
    port: u8,
    by: DeviceRole,
    tool: Result<(), super::uhubctl::UhubctlErrorView>,
)
    requires
        release_spec(m, hub_id, port, by).1 is Err,
    ensures
        power_off_and_release_spec(m, hub_id, port, by, tool) == (m, release_spec(
            m,
            hub_id,
            port,
            by,
        ).1),
{
}

/// After a hub is cleared at `now`, none of its ports has an expired reservation.
pub proof fn lemma_cleared_ports_count_none(ports: Seq<UsbPortView>, now: Instant)
    ensures
        expired_count(ports.map_values(|p: UsbPortView| port_cleared(p, now)), now) == 0,
    decreases ports.len(),
{
    let c = ports.map_values(|p: UsbPortView| port_cleared(p, now));
    if ports.len() > 0 {
        lemma_cleared_ports_count_none(ports.drop_last(), now);
        assert(c.drop_last() =~= ports.drop_last().map_values(|p: UsbPortView| port_cleared(p, now)));
        assert(c.last() == port_cleared(ports.last(), now));
    }
}

/// Clearing is done once: after a cleanup at `now`, a second cleanup at the same
/// instant finds no expired reservation (it counts 0) and changes no hub.
pub proof fn law_cleanup_is_idempotent(m: HubMap, keys: Seq<Seq<char>>, now: Instant)
    requires
        forall|i: int| 0 <= i < keys.len() ==> m.contains_key(#[trigger] keys[i]),
    ensures
        ({
            let c = m.map_values(|h: UsbHubView| hub_cleared(h, now));
            &&& expired_total(c, keys, now) == 0
            &&& c.map_values(|h: UsbHubView| hub_cleared(h, now)) == c
        }),
    decreases keys.len(),
{
    let c = m.map_values(|h: UsbHubView| hub_cleared(h, now));
    if keys.len() > 0 {
        law_cleanup_is_idempotent(m, keys.drop_last(), now);
        let k = keys.last();
        assert(m.contains_key(keys[keys.len() - 1]));
        lemma_cleared_ports_count_none(m[k].ports, now);
    }
    let cc = c.map_values(|h: UsbHubView| hub_cleared(h, now));
    assert forall|k: Seq<char>| #[trigger] c.contains_key(k) implies cc[k] == c[k] by {
        let h = m[k];
        let once = hub_cleared(h, now);
        assert(hub_cleared(once, now).ports =~= once.ports);
    }
    assert(cc =~= c);
}

/// Refreshing a hub keeps, on each port of the fresh reading, the reservation that
/// held at that instant on the first port with the same number.
pub proof fn law_refresh_keeps_active_reservations(
    m: HubMap,
    hub_id: Seq<char>,
    fresh: UsbHubView,
    now: Instant,
    q: int,
)
    requires
        m.contains_key(hub_id),
        0 <= q < fresh.ports.len(),
        port_index(m[hub_id].ports, fresh.ports[q].port_number) matches Some(j) && active_at(
            m[hub_id].ports[j].reservation,
            now,
        ),
    ensures
        ({
            let (m1, r) = refresh_spec(m, hub_id, Ok(fresh), now);
            let j = port_index(m[hub_id].ports, fresh.ports[q].port_number)->Some_0;
            &&& r == Ok::<UsbHubView, FaultView>(m1[hub_id])
            &&& m1[hub_id].ports[q].reservation == m[hub_id].ports[j].reservation
            &&& m1[hub_id].ports[q].port_number == fresh.ports[q].port_number
            &&& m1[hub_id].ports[q].power_state == fresh.ports[q].power_state
        }),
{
}


// What listing, cleaning up and refreshing give, port by port.

/// Port `p` is reserved by `role`, and its reservation holds at `now`.
pub open spec fn held_by(p: UsbPortView, role: DeviceRole, now: Instant) -> bool {
    p.reservation matches Some(r) && r.reserved_by == role && !expired_at(r, now)
}

/// `e` names, by its hub's key and its number, a port of a hub at `keys` that
/// `role` holds at `now`.
pub open spec fn names_held_port(
    m: HubMap,
    keys: Seq<Seq<char>>,
    role: DeviceRole,
    now: Instant,
    e: (Seq<char>, u8),
) -> bool {
    exists|a: int, j: int|
        0 <= a < keys.len() && 0 <= j < m[keys[a]].ports.len() && #[trigger] held_by(
            m[keys[a]].ports[j],
            role,
            now,
        ) && e == (keys[a], m[keys[a]].ports[j].port_number)
}

/// How many of `ports` are held by `role` at `now`.
pub open spec fn held_count_in(ports: Seq<UsbPortView>, role: DeviceRole, now: Instant) -> nat
    decreases ports.len(),
{
    if ports.len() == 0 {
        0
    } else {
        held_count_in(ports.drop_last(), role, now) + if held_by(ports.last(), role, now) {
            1nat
        } else {
            0nat
        }
    }
}

/// How many ports of the hubs at `keys` are held by `role` at `now`.
pub open spec fn held_count(m: HubMap, keys: Seq<Seq<char>>, role: DeviceRole, now: Instant) -> nat
    decreases keys.len(),
{
    if keys.len() == 0 {
        0
    } else {
        held_count(m, keys.drop_last(), role, now) + held_count_in(m[keys.last()].ports, role, now)
    }
}

proof fn lemma_held_in_hub(key: Seq<char>, ports: Seq<UsbPortView>, role: DeviceRole, now: Instant)
    ensures
        forall|j: int|
            0 <= j < ports.len() && held_by(ports[j], role, now) ==> held_in_hub(
                key,
                ports,
                role,
                now,
            ).contains((key, #[trigger] ports[j].port_number)),
        forall|t: int|
            0 <= t < held_in_hub(key, ports, role, now).len() ==> exists|j: int|
                0 <= j < ports.len() && held_by(ports[j], role, now) && #[trigger] held_in_hub(
                    key,
                    ports,
                    role,
                    now,
                )[t] == (key, ports[j].port_number),
        held_in_hub(key, ports, role, now).len() == held_count_in(ports, role, now),
    decreases ports.len(),
{
    if ports.len() > 0 {
        let prev = ports.drop_last();
        lemma_held_in_hub(key, prev, role, now);
        let r0 = held_in_hub(key, prev, role, now);
        let r = held_in_hub(key, ports, role, now);
        let n = ports.len() - 1;
        assert forall|j: int|
            0 <= j < ports.len() && held_by(ports[j], role, now) implies r.contains(
            (key, #[trigger] ports[j].port_number),
        ) by {
            if j < n {
                assert(prev[j] == ports[j]);
                assert(r0.contains((key, prev[j].port_number)));
                let t = choose|t: int| 0 <= t < r0.len() && r0[t] == (key, prev[j].port_number);
                assert(r[t] == r0[t]);
            } else {
                assert(r[r.len() - 1] == (key, ports[j].port_number));
            }
        }
        assert forall|t: int| 0 <= t < r.len() implies exists|j: int|
            0 <= j < ports.len() && held_by(ports[j], role, now) && #[trigger] r[t] == (
                key,
                ports[j].port_number,
            ) by {
            if t < r0.len() {
                assert(r[t] == r0[t]);
                let j = choose|j: int|
                    0 <= j < prev.len() && held_by(prev[j], role, now) && #[trigger] r0[t] == (
                        key,
                        prev[j].port_number,
                    );
                assert(prev[j] == ports[j]);
            } else {
                assert(r[t] == (key, ports[n].port_number));
            }
        }
    }
}

/// The ports listed as reserved by `role` at `now` over the hubs at `keys` are
/// exactly the held ones: every port of every hub that `role` holds at `now` is
/// listed under its hub's key, everything listed is such a port, and the list
/// has one entry per held port.
pub proof fn law_reserved_ports_are_the_held_ones(
    m: HubMap,
    keys: Seq<Seq<char>>,
    role: DeviceRole,
    now: Instant,
)
    ensures
        forall|a: int, j: int|
            0 <= a < keys.len() && 0 <= j < m[keys[a]].ports.len() && held_by(
                m[keys[a]].ports[j],
                role,
                now,
            ) ==> held_ports(m, keys, role, now).contains(
                (keys[a], #[trigger] m[keys[a]].ports[j].port_number),
            ),
        forall|t: int|
            0 <= t < held_ports(m, keys, role, now).len() ==> names_held_port(
                m,
                keys,
                role,
                now,
                #[trigger] held_ports(m, keys, role, now)[t],
            ),
        held_ports(m, keys, role, now).len() == held_count(m, keys, role, now),
    decreases keys.len(),
{
    if keys.len() > 0 {
        let prev = keys.drop_last();
        let k = keys.last();
        let n = keys.len() - 1;
        law_reserved_ports_are_the_held_ones(m, prev, role, now);
        lemma_held_in_hub(k, m[k].ports, role, now);
        let r0 = held_ports(m, prev, role, now);
        let r1 = held_in_hub(k, m[k].ports, role, now);
        let r = held_ports(m, keys, role, now);
        assert(r == r0 + r1);
        assert forall|a: int, j: int|
            0 <= a < keys.len() && 0 <= j < m[keys[a]].ports.len() && held_by(
                m[keys[a]].ports[j],
                role,
                now,
            ) implies r.contains((keys[a], #[trigger] m[keys[a]].ports[j].port_number)) by {
            let e = (keys[a], m[keys[a]].ports[j].port_number);
            if a < n {
                assert(prev[a] == keys[a]);
                assert(r0.contains((prev[a], m[prev[a]].ports[j].port_number)));
                let t = choose|t: int| 0 <= t < r0.len() && r0[t] == e;
                assert(r[t] == r0[t]);
            } else {
                assert(r1.contains((k, m[k].ports[j].port_number)));
                let t = choose|t: int| 0 <= t < r1.len() && r1[t] == e;
                assert(r[r0.len() + t] == r1[t]);
            }
        }
        assert forall|t: int| 0 <= t < r.len() implies names_held_port(
            m,
            keys,
            role,
            now,
            #[trigger] r[t],
        ) by {
            if t < r0.len() {
                assert(r[t] == r0[t]);
                assert(names_held_port(m, prev, role, now, r0[t]));
                let (a, j) = choose|a: int, j: int|
                    0 <= a < prev.len() && 0 <= j < m[prev[a]].ports.len() && #[trigger] held_by(
                        m[prev[a]].ports[j],
                        role,
                        now,
                    ) && r0[t] == (prev[a], m[prev[a]].ports[j].port_number);
                assert(prev[a] == keys[a]);
                assert(0 <= a < keys.len() && 0 <= j < m[keys[a]].ports.len() && held_by(
                    m[keys[a]].ports[j],
                    role,
                    now,
                ) && r[t] == (keys[a], m[keys[a]].ports[j].port_number));
            } else {
                let u = t - r0.len();
                assert(r[t] == r1[u]);
                let j = choose|j: int|
                    0 <= j < m[k].ports.len() && held_by(m[k].ports[j], role, now)
                        && #[trigger] r1[u] == (k, m[k].ports[j].port_number);
                assert(keys[n] == k);
                assert(0 <= n < keys.len() && 0 <= j < m[keys[n]].ports.len() && held_by(
                    m[keys[n]].ports[j],
                    role,
                    now,
                ) && r[t] == (keys[n], m[keys[n]].ports[j].port_number));
            }
        }
    }
}

/// How many ports carry a reservation in `before` and none at the same place in
/// `after`.
pub open spec fn cleared_in(before: Seq<UsbPortView>, after: Seq<UsbPortView>) -> nat
    decreases before.len(),
{
    if before.len() == 0 {
        0
    } else {
        cleared_in(before.drop_last(), after.drop_last()) + if before.last().reservation is Some
            && after.last().reservation is None {
            1nat
        } else {
            0nat
        }
    }
}

/// How many ports of the hubs at `keys` carry a reservation in `before` and none
/// in `after`.
pub open spec fn cleared_total(before: HubMap, after: HubMap, keys: Seq<Seq<char>>) -> nat
    decreases keys.len(),
{
    if keys.len() == 0 {
        0
    } else {
        cleared_total(before, after, keys.drop_last()) + cleared_in(
            before[keys.last()].ports,
            after[keys.last()].ports,
        )
    }
}

proof fn lemma_cleared_in_hub(ports: Seq<UsbPortView>, now: Instant)
    ensures
        expired_count(ports, now) == cleared_in(
            ports,
            ports.map_values(|p: UsbPortView| port_cleared(p, now)),
        ),
    decreases ports.len(),
{
    if ports.len() > 0 {
        let c = ports.map_values(|p: UsbPortView| port_cleared(p, now));
        lemma_cleared_in_hub(ports.drop_last(), now);
        assert(c.drop_last() =~= ports.drop_last().map_values(
            |p: UsbPortView| port_cleared(p, now),
        ));
        assert(c.last() == port_cleared(ports.last(), now));
    }
}

/// The count a cleanup at `now` reports is the number of reservations it takes
/// away: of ports, over the hubs at `keys`, that carry a reservation before the
/// cleanup and none after it.
pub proof fn law_cleanup_counts_what_it_clears(m: HubMap, keys: Seq<Seq<char>>, now: Instant)
    requires
        forall|i: int| 0 <= i < keys.len() ==> m.contains_key(#[trigger] keys[i]),
    ensures
        expired_total(m, keys, now) == cleared_total(
            m,
            m.map_values(|h: UsbHubView| hub_cleared(h, now)),
            keys,
        ),
    decreases keys.len(),
{
    if keys.len() > 0 {
        let k = keys.last();
        assert(m.contains_key(keys[keys.len() - 1]));
        law_cleanup_counts_what_it_clears(m, keys.drop_last(), now);
        lemma_cleared_in_hub(m[k].ports, now);
    }
}

/// Refreshing hub `hub_id` from a fresh reading reports, and records, the fresh
/// reading: its ids, location, name and number of ports, and on each port its
/// number, power state and device. Each port keeps the reservation that held at
/// `now` on the first recorded port with its number, and otherwise has the
/// reading's own.
pub proof fn law_refresh_takes_the_fresh_reading(
    m: HubMap,
    hub_id: Seq<char>,
    fresh: UsbHubView,
    now: Instant,
)
    requires
        m.contains_key(hub_id),
    ensures
        ({
            let (m1, r) = refresh_spec(m, hub_id, Ok(fresh), now);
            let h = m1[hub_id];
            &&& r == Ok::<UsbHubView, FaultView>(h)
            &&& m1 == m.insert(hub_id, h)
            &&& h.id == fresh.id && h.vendor_id == fresh.vendor_id && h.product_id
                == fresh.product_id
            &&& h.location == fresh.location && h.name == fresh.name
            &&& h.ports.len() == fresh.ports.len()
            &&& forall|q: int|
                0 <= q < fresh.ports.len() ==> {
                    &&& (#[trigger] h.ports[q]).port_number == fresh.ports[q].port_number
                    &&& h.ports[q].power_state == fresh.ports[q].power_state
                    &&& h.ports[q].connected_device == fresh.ports[q].connected_device
                    &&& h.ports[q].reservation == match port_index(
                        m[hub_id].ports,
                        fresh.ports[q].port_number,
                    ) {
                        Some(j) => if active_at(m[hub_id].ports[j].reservation, now) {
                            m[hub_id].ports[j].reservation
                        } else {
                            fresh.ports[q].reservation
                        },
                        None => fresh.ports[q].reservation,
                    }
                }
        }),
{
    let (m1, r) = refresh_spec(m, hub_id, Ok(fresh), now);
    let h = m1[hub_id];
    assert forall|q: int| 0 <= q < fresh.ports.len() implies #[trigger] h.ports[q] == merged_port(
        m[hub_id],
        fresh.ports[q],
        now,
    ) by {}
}

} // verus!
