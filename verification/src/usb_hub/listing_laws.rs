//! Laws of reading a `uhubctl` hub report: which hubs it yields, in which
//! order, and where each of their ports comes from.
use vstd::prelude::*;

use super::types::{UsbHubView, UsbPortView};
use super::uhubctl::{
    header_hub, header_prefix, hub_list, parse_lines, parse_step, port_entry, port_marker,
    with_ports, ParseState,
};
use crate::text::{contains, lemma_lines_append, lines, starts_with, trim};

verus! {

/// The line, trimmed, starts a hub report.
pub open spec fn is_header(raw: Seq<char>) -> bool {
    starts_with(trim(raw), header_prefix())
}

/// The hubs, without ports, that the well-formed header lines of `ls` announce,
/// in the order of the lines.
pub open spec fn announced(ls: Seq<Seq<char>>) -> Seq<UsbHubView>
    decreases ls.len(),
{
    if ls.len() == 0 {
        Seq::empty()
    } else {
        let rest = announced(ls.drop_last());
        let l = ls.last();
        if is_header(l) && header_hub(trim(l)) is Some {
            rest.push(header_hub(trim(l))->Some_0)
        } else {
            rest
        }
    }
}

/// The hubs with their ports left out.
pub open spec fn without_ports(hs: Seq<UsbHubView>) -> Seq<UsbHubView> {
    hs.map_values(|h: UsbHubView| with_ports(h, Seq::empty()))
}

/// `l` is a port line (not a header) that describes port `p`.
pub open spec fn port_line(l: Seq<char>, p: UsbPortView) -> bool {
    &&& !is_header(l)
    &&& contains(trim(l), port_marker())
    &&& port_entry(trim(l)) == Some(p)
}

/// Some line of `ls` describes port `p`.
pub open spec fn traced(ls: Seq<Seq<char>>, p: UsbPortView) -> bool {
    exists|k: int| 0 <= k < ls.len() && #[trigger] port_line(ls[k], p)
}

/// Every port that the parser holds, pending or in a completed hub, comes from a
/// line of `ls`.
pub open spec fn all_traced(ls: Seq<Seq<char>>, st: ParseState) -> bool {
    &&& forall|j: int| 0 <= j < st.ports.len() ==> #[trigger] traced(ls, st.ports[j])
    &&& forall|i: int, j: int|
        0 <= i < st.hubs.len() && 0 <= j < st.hubs[i].ports.len() ==> #[trigger] traced(
            ls,
            st.hubs[i].ports[j],
        )
}

/// The hub being read, as a sequence of at most one hub.
pub open spec fn current_seq(st: ParseState) -> Seq<UsbHubView> {
    match st.current {
        Some(h) => seq![h],
        None => Seq::empty(),
    }
}

/// A port traced in a prefix of the lines is traced in the lines.
proof fn lemma_traced_extends(ls: Seq<Seq<char>>, p: UsbPortView)
    requires
        ls.len() > 0,
        traced(ls.drop_last(), p),
    ensures
        traced(ls, p),
{
    let k = choose|k: int| 0 <= k < ls.drop_last().len() && #[trigger] port_line(ls.drop_last()[k], p);
    assert(ls[k] == ls.drop_last()[k]);
}

/// The parser's completed hubs and the hub being read are the announced hubs;
/// the hub being read has no ports yet; every port it holds comes from a line.
proof fn lemma_parse_lines_shape(ls: Seq<Seq<char>>)
    ensures
        parse_lines(ls).current matches Some(h) ==> h.ports == Seq::<UsbPortView>::empty(),
        without_ports(parse_lines(ls).hubs) + current_seq(parse_lines(ls)) == announced(ls),
        all_traced(ls, parse_lines(ls)),
    decreases ls.len(),
{
    if ls.len() > 0 {
        let prev = ls.drop_last();
        lemma_parse_lines_shape(prev);
        let st = parse_lines(prev);
        let l = ls.last();
        let line = trim(l);
        let st2 = parse_step(st, l);
        assert(parse_lines(ls) == st2);
        // Every port held before is still traced.
        assert forall|j: int| 0 <= j < st.ports.len() implies #[trigger] traced(ls, st.ports[j]) by {
            assert(traced(prev, st.ports[j]));
            lemma_traced_extends(ls, st.ports[j]);
        }
        assert forall|i: int, j: int|
            0 <= i < st.hubs.len() && 0 <= j < st.hubs[i].ports.len() implies #[trigger] traced(
            ls,
            st.hubs[i].ports[j],
        ) by {
            assert(traced(prev, st.hubs[i].ports[j]));
            lemma_traced_extends(ls, st.hubs[i].ports[j]);
        }
        if starts_with(line, header_prefix()) {
            match st.current {
                Some(h) => {
                    let closed = with_ports(h, st.ports);
                    assert(with_ports(closed, Seq::empty()) == h);
                    assert(without_ports(st.hubs.push(closed)) =~= without_ports(st.hubs).push(h));
                    assert(st2.hubs == st.hubs.push(closed));
                    assert forall|i: int, j: int|
                        0 <= i < st2.hubs.len() && 0 <= j < st2.hubs[i].ports.len() implies #[trigger] traced(
                        ls,
                        st2.hubs[i].ports[j],
                    ) by {
                        if i < st.hubs.len() {
                            assert(st2.hubs[i] == st.hubs[i]);
                        } else {
                            assert(st2.hubs[i].ports == st.ports);
                        }
                    }
                },
                None => {},
            }
            assert(without_ports(st2.hubs) + current_seq(st2) =~= announced(ls));
        } else if contains(line, port_marker()) {
            match port_entry(line) {
                Some(p) => {
                    assert(port_line(ls[ls.len() - 1], p));
                    assert(traced(ls, p));
                    assert forall|j: int| 0 <= j < st2.ports.len() implies #[trigger] traced(
                        ls,
                        st2.ports[j],
                    ) by {
                        if j < st.ports.len() {
                            assert(st2.ports[j] == st.ports[j]);
                        }
                    }
                },
                None => {},
            }
        }
    }
}

/// The hubs of a report are exactly the hubs that its well-formed header lines
/// announce, in the order of those lines; a malformed header starts no hub.
pub proof fn law_listing_follows_headers(output: Seq<char>)
    ensures
        without_ports(hub_list(output)) == announced(lines(output)),
{
    let st = parse_lines(lines(output));
    lemma_parse_lines_shape(lines(output));
    match st.current {
        Some(h) => {
            assert(with_ports(with_ports(h, st.ports), Seq::empty()) == h);
            assert(without_ports(st.hubs.push(with_ports(h, st.ports))) =~= without_ports(
                st.hubs,
            ).push(h));
            assert(without_ports(st.hubs) + current_seq(st) =~= without_ports(st.hubs).push(h));
        },
        None => {
            assert(without_ports(st.hubs) + current_seq(st) =~= without_ports(st.hubs));
        },
    }
}

/// Every port of every hub of a report comes from a port line of the report
/// (one that is not a header): its number and power state are the ones that line
/// gives, and it has no device and no reservation.
pub proof fn law_listed_ports_come_from_lines(output: Seq<char>, i: int, j: int)
    requires
        0 <= i < hub_list(output).len(),
        0 <= j < hub_list(output)[i].ports.len(),
    ensures
        exists|k: int|
            0 <= k < lines(output).len() && #[trigger] port_line(
                lines(output)[k],
                hub_list(output)[i].ports[j],
            ),
        hub_list(output)[i].ports[j].connected_device is None,
        hub_list(output)[i].ports[j].reservation is None,
{
    let ls = lines(output);
    let st = parse_lines(ls);
    lemma_parse_lines_shape(ls);
    let hs = hub_list(output);
    match st.current {
        Some(h) => {
            if i == st.hubs.len() {
                assert(hs[i].ports == st.ports);
                assert(traced(ls, st.ports[j]));
            } else {
                assert(hs[i] == st.hubs[i]);
                assert(traced(ls, st.hubs[i].ports[j]));
            }
        },
        None => {
            assert(traced(ls, st.hubs[i].ports[j]));
        },
    }
    let k = choose|k: int| 0 <= k < ls.len() && #[trigger] port_line(ls[k], hs[i].ports[j]);
    assert(port_entry(trim(ls[k])) == Some(hs[i].ports[j]));
}

/// Every hub of a report is the one a well-formed header line announces: its ids
/// are the two `':'`-halves of the header's token, its id is them joined by
/// `':'`, and it has no name.
pub proof fn law_listed_hub_ids(output: Seq<char>, i: int)
    requires
        0 <= i < hub_list(output).len(),
    ensures
        exists|k: int|
            0 <= k < lines(output).len() && is_header(lines(output)[k]) && #[trigger] header_hub(
                trim(lines(output)[k]),
            ) == Some(with_ports(hub_list(output)[i], Seq::empty())),
        hub_list(output)[i].id == hub_list(output)[i].vendor_id + seq![':']
            + hub_list(output)[i].product_id,
        hub_list(output)[i].name is None,
{
    let ls = lines(output);
    law_listing_follows_headers(output);
    lemma_announced_from_headers(ls, i);
    let hs = hub_list(output);
    assert(without_ports(hs)[i] == with_ports(hs[i], Seq::empty()));
    let k = choose|k: int|
        0 <= k < ls.len() && is_header(ls[k]) && #[trigger] header_hub(trim(ls[k])) == Some(
            announced(ls)[i],
        );
    assert(header_hub(trim(ls[k])) == Some(with_ports(hs[i], Seq::empty())));
}

/// Each announced hub comes from a well-formed header line.
proof fn lemma_announced_from_headers(ls: Seq<Seq<char>>, i: int)
    requires
        0 <= i < announced(ls).len(),
    ensures
        exists|k: int|
            0 <= k < ls.len() && is_header(ls[k]) && #[trigger] header_hub(trim(ls[k])) == Some(
                announced(ls)[i],
            ),
    decreases ls.len(),
{
    let prev = ls.drop_last();
    if i < announced(prev).len() {
        lemma_announced_from_headers(prev, i);
        let k = choose|k: int|
            0 <= k < prev.len() && is_header(prev[k]) && #[trigger] header_hub(trim(prev[k]))
                == Some(announced(prev)[i]);
        assert(ls[k] == prev[k]);
        assert(header_hub(trim(ls[k])) == Some(announced(ls)[i]));
    } else {
        let k = ls.len() - 1;
        assert(header_hub(trim(ls[k])) == Some(announced(ls)[i]));
    }
}


// Reports in blocks.

/// No line of `ls` starts a hub report.
pub open spec fn header_free(ls: Seq<Seq<char>>) -> bool
    decreases ls.len(),
{
    ls.len() == 0 || (header_free(ls.drop_last()) && !is_header(ls.last()))
}

/// Every header line of `ls` is well-formed.
pub open spec fn headers_well_formed(ls: Seq<Seq<char>>) -> bool
    decreases ls.len(),
{
    ls.len() == 0 || (headers_well_formed(ls.drop_last()) && (is_header(ls.last())
        ==> header_hub(trim(ls.last())) is Some))
}

/// No port line comes before the first header line of `ls`.
pub open spec fn no_leading_ports(ls: Seq<Seq<char>>) -> bool
    decreases ls.len(),
{
    ls.len() == 0 || (no_leading_ports(ls.drop_last()) && (header_free(ls)
        ==> !contains(trim(ls.last()), port_marker())))
}

/// The ports that the port lines of `ls` describe, in order.
pub open spec fn ports_of(ls: Seq<Seq<char>>) -> Seq<UsbPortView>
    decreases ls.len(),
{
    if ls.len() == 0 {
        Seq::empty()
    } else {
        let l = ls.last();
        let rest = ports_of(ls.drop_last());
        if !is_header(l) && contains(trim(l), port_marker()) && port_entry(trim(l)) is Some {
            rest.push(port_entry(trim(l))->Some_0)
        } else {
            rest
        }
    }
}

/// The parser before any line.
pub open spec fn start_state() -> ParseState {
    ParseState { hubs: Seq::empty(), current: None, ports: Seq::empty() }
}

/// The parser from `st` after the lines `ls`.
pub open spec fn parse_from(st: ParseState, ls: Seq<Seq<char>>) -> ParseState
    decreases ls.len(),
{
    if ls.len() == 0 {
        st
    } else {
        parse_step(parse_from(st, ls.drop_last()), ls.last())
    }
}

/// `st` with the hubs `hs` completed before its own.
pub open spec fn after_hubs(hs: Seq<UsbHubView>, st: ParseState) -> ParseState {
    ParseState { hubs: hs + st.hubs, ..st }
}

/// Reading two runs of lines reads the second from where the first left off.
proof fn lemma_parse_lines_append(ls1: Seq<Seq<char>>, ls2: Seq<Seq<char>>)
    ensures
        parse_lines(ls1 + ls2) == parse_from(parse_lines(ls1), ls2),
    decreases ls2.len(),
{
    if ls2.len() == 0 {
        assert(ls1 + ls2 =~= ls1);
    } else {
        assert((ls1 + ls2).drop_last() =~= ls1 + ls2.drop_last());
        assert((ls1 + ls2).last() == ls2.last());
        lemma_parse_lines_append(ls1, ls2.drop_last());
    }
}

/// Reading from the start is reading the lines.
proof fn lemma_parse_from_start(ls: Seq<Seq<char>>)
    ensures
        parse_from(start_state(), ls) == parse_lines(ls),
    decreases ls.len(),
{
    if ls.len() > 0 {
        lemma_parse_from_start(ls.drop_last());
    }
}

/// Hubs completed earlier stay ahead of whatever one more line completes.
proof fn lemma_step_after_hubs(hs: Seq<UsbHubView>, s0: ParseState, l: Seq<char>)
    ensures
        parse_step(after_hubs(hs, s0), l) == after_hubs(hs, parse_step(s0, l)),
{
    if starts_with(trim(l), header_prefix()) {
        match s0.current {
            Some(h) => {
                assert((hs + s0.hubs).push(with_ports(h, s0.ports)) =~= hs + s0.hubs.push(
                    with_ports(h, s0.ports),
                ));
            },
            None => {},
        }
    }
}

/// Hubs completed earlier stay ahead of whatever the lines complete.
proof fn lemma_parse_from_after_hubs(hs: Seq<UsbHubView>, st: ParseState, ls: Seq<Seq<char>>)
    ensures
        parse_from(after_hubs(hs, st), ls) == after_hubs(hs, parse_from(st, ls)),
    decreases ls.len(),
{
    if ls.len() > 0 {
        lemma_parse_from_after_hubs(hs, st, ls.drop_last());
        lemma_step_after_hubs(hs, parse_from(st, ls.drop_last()), ls.last());
    }
}

/// The hubs read once the lines end, from a state with earlier hubs completed.
proof fn lemma_finish_after_hubs(hs: Seq<UsbHubView>, st: ParseState)
    ensures
        super::uhubctl::finish(after_hubs(hs, st)) == hs + super::uhubctl::finish(st),
{
    match st.current {
        Some(h) => {
            assert((hs + st.hubs).push(with_ports(h, st.ports)) =~= hs + st.hubs.push(
                with_ports(h, st.ports),
            ));
        },
        None => {},
    }
}

/// Lines before any header, with no port line among them, change nothing; once
/// a header has come, the lines read from a hub in progress give the hubs read
/// from the start, after the hubs that hub in progress completes.
proof fn lemma_parse_from_open_hub(st: ParseState, ls: Seq<Seq<char>>)
    requires
        st.current is Some,
        no_leading_ports(ls),
    ensures
        header_free(ls) ==> parse_from(st, ls) == st && parse_lines(ls) == start_state(),
        !header_free(ls) ==> parse_from(st, ls) == after_hubs(
            super::uhubctl::finish(st),
            parse_lines(ls),
        ),
    decreases ls.len(),
{
    if ls.len() > 0 {
        let prev = ls.drop_last();
        let l = ls.last();
        lemma_parse_from_open_hub(st, prev);
        let f = super::uhubctl::finish(st);
        if header_free(prev) {
            if is_header(l) {
                let h = st.current->Some_0;
                assert(f == st.hubs.push(with_ports(h, st.ports)));
                assert(Seq::<UsbHubView>::empty().push(with_ports(h, st.ports)) =~= seq![
                    with_ports(h, st.ports),
                ]);
                assert(f + Seq::<UsbHubView>::empty() =~= f);
                assert(parse_step(st, l) == after_hubs(f, parse_step(start_state(), l)));
            } else {
                assert(!contains(trim(l), port_marker()));
            }
        } else {
            let s0 = parse_lines(prev);
            assert(parse_from(st, prev) == after_hubs(f, s0));
            lemma_step_after_hubs(f, s0, l);
        }
    }
}

/// Lines whose headers are all well-formed, with no port line before the first
/// header, leave the parser at its start if they hold no header, and with a hub
/// in progress otherwise.
proof fn lemma_parse_lines_opened(ls: Seq<Seq<char>>)
    requires
        headers_well_formed(ls),
        no_leading_ports(ls),
    ensures
        header_free(ls) ==> parse_lines(ls) == start_state(),
        !header_free(ls) ==> parse_lines(ls).current is Some,
    decreases ls.len(),
{
    if ls.len() > 0 {
        let prev = ls.drop_last();
        let l = ls.last();
        lemma_parse_lines_opened(prev);
        if header_free(prev) && !is_header(l) {
            assert(!contains(trim(l), port_marker()));
        }
    }
}

/// Two reports read together give the hubs of the first followed by those of the
/// second, where the first ends with a line break (or is empty), in each every
/// header line is well-formed and no port line comes before the first header.
pub proof fn law_listing_of_joined_reports(a: Seq<char>, b: Seq<char>)
    requires
        a.len() == 0 || a.last() == '\n',
        headers_well_formed(lines(a)),
        no_leading_ports(lines(a)),
        no_leading_ports(lines(b)),
    ensures
        hub_list(a + b) == hub_list(a) + hub_list(b),
{
    let la = lines(a);
    let lb = lines(b);
    lemma_lines_append(a, b);
    lemma_parse_lines_append(la, lb);
    lemma_parse_lines_opened(la);
    let sa = parse_lines(la);
    if header_free(la) {
        lemma_parse_from_start(lb);
        assert(hub_list(a) == Seq::<UsbHubView>::empty());
        assert(hub_list(a) + hub_list(b) =~= hub_list(b));
    } else {
        lemma_parse_from_open_hub(sa, lb);
        if header_free(lb) {
            assert(hub_list(b) == Seq::<UsbHubView>::empty());
            assert(hub_list(a) + hub_list(b) =~= hub_list(a));
        } else {
            lemma_finish_after_hubs(super::uhubctl::finish(sa), parse_lines(lb));
        }
    }
}

/// The lines of one hub's report, read from its header on, hold that hub in
/// progress with the ports of the lines after the header.
proof fn lemma_one_report_state(ls: Seq<Seq<char>>)
    requires
        ls.len() > 0,
        is_header(ls[0]),
        header_hub(trim(ls[0])) is Some,
        header_free(ls.drop_first()),
    ensures
        parse_lines(ls) == (ParseState {
            hubs: Seq::empty(),
            current: header_hub(trim(ls[0])),
            ports: ports_of(ls.drop_first()),
        }),
    decreases ls.len(),
{
    let l = ls.last();
    if ls.len() == 1 {
        assert(ls.drop_last() =~= Seq::<Seq<char>>::empty());
        assert(ls.drop_first() =~= Seq::<Seq<char>>::empty());
        assert(l == ls[0]);
        assert(parse_lines(ls) == parse_step(start_state(), l));
        assert(starts_with(trim(l), header_prefix()));
    } else {
        let prev = ls.drop_last();
        let rest = ls.drop_first();
        assert(prev[0] == ls[0]);
        assert(prev.drop_first() =~= rest.drop_last());
        assert(rest.last() == l);
        assert(header_free(rest.drop_last()) && !is_header(rest.last()));
        lemma_one_report_state(prev);
        let s0 = parse_lines(prev);
        assert(parse_lines(ls) == parse_step(s0, l));
        assert(!starts_with(trim(l), header_prefix()));
        assert(ports_of(rest) == if !is_header(l) && contains(trim(l), port_marker())
            && port_entry(trim(l)) is Some {
            ports_of(rest.drop_last()).push(port_entry(trim(l))->Some_0)
        } else {
            ports_of(rest.drop_last())
        });
    }
}

/// A report of one hub, a well-formed header line followed by lines none of
/// which is a header, lists exactly that hub, with the ports of its port lines
/// in order.
pub proof fn law_listing_of_one_report(output: Seq<char>)
    requires
        lines(output).len() > 0,
        is_header(lines(output)[0]),
        header_hub(trim(lines(output)[0])) is Some,
        header_free(lines(output).drop_first()),
    ensures
        hub_list(output) == seq![
            with_ports(
                header_hub(trim(lines(output)[0]))->Some_0,
                ports_of(lines(output).drop_first()),
            ),
        ],
{
    lemma_one_report_state(lines(output));
    assert(Seq::<UsbHubView>::empty().push(
        with_ports(
            header_hub(trim(lines(output)[0]))->Some_0,
            ports_of(lines(output).drop_first()),
        ),
    ) =~= seq![
        with_ports(
            header_hub(trim(lines(output)[0]))->Some_0,
            ports_of(lines(output).drop_first()),
        ),
    ]);
}


// Which ports belong to which hub.

/// The positions of the header lines of `ls`, in order.
pub open spec fn header_positions(ls: Seq<Seq<char>>) -> Seq<int>
    decreases ls.len(),
{
    if ls.len() == 0 {
        Seq::empty()
    } else {
        let rest = header_positions(ls.drop_last());
        if is_header(ls.last()) {
            rest.push(ls.len() - 1)
        } else {
            rest
        }
    }
}

/// The lines strictly between the `i`-th header line of `ls` and the next header
/// line (or the end).
pub open spec fn section(ls: Seq<Seq<char>>, i: int) -> Seq<Seq<char>> {
    let p = header_positions(ls);
    let end = if i + 1 < p.len() {
        p[i + 1]
    } else {
        ls.len() as int
    };
    ls.subrange(p[i] + 1, end)
}

/// The header positions lie within the lines, in increasing order, and there
/// are none exactly where no line is a header.
proof fn lemma_header_positions(ls: Seq<Seq<char>>)
    ensures
        header_free(ls) <==> header_positions(ls).len() == 0,
        forall|i: int|
            0 <= i < header_positions(ls).len() ==> 0 <= #[trigger] header_positions(ls)[i]
                < ls.len(),
        forall|i: int|
            0 <= i < header_positions(ls).len() - 1 ==> #[trigger] header_positions(ls)[i]
                < header_positions(ls)[i + 1],
    decreases ls.len(),
{
    if ls.len() > 0 {
        lemma_header_positions(ls.drop_last());
    }
}

/// After the lines `ls`, each completed hub holds the ports of the lines after
/// its header up to the next header, and the hub in progress those after the
/// last header.
proof fn lemma_sections_state(ls: Seq<Seq<char>>)
    requires
        headers_well_formed(ls),
        no_leading_ports(ls),
    ensures
        ({
            let p = header_positions(ls);
            let st = parse_lines(ls);
            &&& p.len() == 0 ==> st == start_state()
            &&& p.len() > 0 ==> {
                &&& st.current is Some
                &&& st.hubs.len() == p.len() - 1
                &&& forall|i: int|
                    0 <= i < p.len() - 1 ==> (#[trigger] st.hubs[i]).ports == ports_of(
                        ls.subrange(p[i] + 1, p[i + 1]),
                    )
                &&& st.ports == ports_of(ls.subrange(p[p.len() - 1] + 1, ls.len() as int))
            }
        }),
    decreases ls.len(),
{
    lemma_header_positions(ls);
    if ls.len() > 0 {
        let prev = ls.drop_last();
        let n = ls.len() - 1;
        let l = ls.last();
        lemma_sections_state(prev);
        lemma_header_positions(prev);
        let pp = header_positions(prev);
        let p = header_positions(ls);
        let s0 = parse_lines(prev);
        let st = parse_lines(ls);
        assert(st == parse_step(s0, l));
        assert forall|a: int, b: int| 0 <= a <= b <= n implies #[trigger] prev.subrange(a, b)
            == ls.subrange(a, b) by {
            assert(prev.subrange(a, b) =~= ls.subrange(a, b));
        }
        if is_header(l) {
            assert(p == pp.push(n));
            assert(header_hub(trim(l)) is Some);
            assert(ls.subrange(n + 1, n + 1) =~= Seq::<Seq<char>>::empty());
            if pp.len() > 0 {
                let k = pp.len() - 1;
                let h = s0.current->Some_0;
                assert(st.hubs == s0.hubs.push(with_ports(h, s0.ports)));
                assert(prev.subrange(pp[k] + 1, n) == ls.subrange(pp[k] + 1, n));
                assert forall|i: int| 0 <= i < p.len() - 1 implies (#[trigger] st.hubs[i]).ports
                    == ports_of(ls.subrange(p[i] + 1, p[i + 1])) by {
                    if i < k {
                        assert(st.hubs[i] == s0.hubs[i]);
                        assert(prev.subrange(pp[i] + 1, pp[i + 1]) == ls.subrange(
                            pp[i] + 1,
                            pp[i + 1],
                        ));
                    } else {
                        assert(st.hubs[i] == with_ports(h, s0.ports));
                    }
                }
            } else {
                assert(s0 == start_state());
            }
        } else {
            assert(p == pp);
            if pp.len() == 0 {
                assert(header_free(ls));
                assert(!contains(trim(l), port_marker()));
            } else {
                let a = pp[pp.len() - 1] + 1;
                let sub = ls.subrange(a, n + 1);
                assert(sub.drop_last() =~= ls.subrange(a, n));
                assert(sub.last() == l);
                assert(prev.subrange(a, n) == ls.subrange(a, n));
                assert forall|i: int| 0 <= i < p.len() - 1 implies (#[trigger] st.hubs[i]).ports
                    == ports_of(ls.subrange(p[i] + 1, p[i + 1])) by {
                    assert(st.hubs[i] == s0.hubs[i]);
                    assert(prev.subrange(pp[i] + 1, pp[i + 1]) == ls.subrange(pp[i] + 1, pp[i + 1]));
                }
            }
        }
    }
}

/// In a report whose header lines are all well-formed and where no port line
/// comes before the first header, there is one hub per header line, and the
/// `i`-th hub holds exactly the ports of the lines strictly between the `i`-th
/// header line and the next one (or the end), in order: no port goes to
/// another hub.
pub proof fn law_listed_ports_by_section(output: Seq<char>)
    requires
        headers_well_formed(lines(output)),
        no_leading_ports(lines(output)),
    ensures
        hub_list(output).len() == header_positions(lines(output)).len(),
        forall|i: int|
            0 <= i < hub_list(output).len() ==> (#[trigger] hub_list(output)[i]).ports == ports_of(
                section(lines(output), i),
            ),
{
    let ls = lines(output);
    lemma_sections_state(ls);
    let p = header_positions(ls);
    let st = parse_lines(ls);
    if p.len() > 0 {
        let h = st.current->Some_0;
        let hs = hub_list(output);
        assert(hs == st.hubs.push(with_ports(h, st.ports)));
        assert forall|i: int| 0 <= i < hs.len() implies (#[trigger] hs[i]).ports == ports_of(
            section(ls, i),
        ) by {
            if i < p.len() - 1 {
                assert(hs[i] == st.hubs[i]);
            }
        }
    }
}

} // verus!
