//! What holds of the daemon whatever it is asked.

use vstd::prelude::*;
use vstd::string::*;

use crate::daemon::protocol::{Command, Request, RouteV};
use crate::daemon::state::{
    all_registered, dead_ids, first_unleased, instance_id, instance_index, instances_left,
    known_entries, lease_dropped, lease_given, leases_without, next_state, owner_of, reservation,
    resynced, routes_elsewhere, routes_left, targets, DaemonV, HostPorts, InstanceV, INSTANCE_TTL,
    PORT_TRIES,
};
use crate::proxy::{
    port_of, port_of_push, register_then_find, routes_without, unique_hosts, without_host,
    PortReservation,
};
use crate::text::{dec, dec_injective, dec_is_digits, is_digit};

verus! {

/// Whether no two items have the same key.
pub open spec fn distinct<T, K>(s: Seq<T>, key: spec_fn(T) -> K) -> bool {
    forall|i: int, j: int| 0 <= i < j < s.len() ==> key(#[trigger] s[i]) != key(#[trigger] s[j])
}

/// Items that are left out of a sequence leave the keys of the others distinct.
pub proof fn distinct_filter<T, K>(s: Seq<T>, keep: spec_fn(T) -> bool, key: spec_fn(T) -> K)
    requires
        distinct(s, key),
    ensures
        distinct(s.filter(keep), key),
        forall|i: int|
            0 <= i < s.filter(keep).len() ==> s.contains(#[trigger] s.filter(keep)[i]) && keep(
                s.filter(keep)[i],
            ),
    decreases s.len(),
{
    reveal(Seq::filter);
    if s.len() > 0 {
        let d = s.drop_last();
        let f = s.filter(keep);
        let fd = d.filter(keep);
        assert(forall|i: int| 0 <= i < d.len() ==> d[i] == s[i]);
        distinct_filter(d, keep, key);
        assert forall|i: int| 0 <= i < f.len() implies s.contains(#[trigger] f[i]) && keep(f[i]) by {
            if i < fd.len() {
                assert(f[i] == fd[i]);
                let m = choose|m: int| 0 <= m < d.len() && d[m] == fd[i];
                assert(s[m] == f[i]);
            } else {
                assert(s[s.len() - 1] == f[i]);
            }
        }
        assert forall|i: int, j: int| 0 <= i < j < f.len() implies key(#[trigger] f[i]) != key(
            #[trigger] f[j],
        ) by {
            assert(f[i] == fd[i]);
            if j < fd.len() {
                assert(f[j] == fd[j]);
            } else {
                let m = choose|m: int| 0 <= m < d.len() && d[m] == fd[i];
                assert(key(s[m]) != key(s[s.len() - 1]));
            }
        }
    }
}

proof fn lease_dropped_filter(l: Seq<(u16, Seq<char>)>, port: u16)
    ensures
        lease_dropped(l, port) == l.filter(|e: (u16, Seq<char>)| e.0 != port),
    decreases l.len(),
{
    reveal(Seq::filter);
    if l.len() > 0 {
        lease_dropped_filter(l.drop_last(), port);
    } else {
        assert(lease_dropped(l, port) =~= l.filter(|e: (u16, Seq<char>)| e.0 != port));
    }
}

proof fn leases_without_filter(l: Seq<(u16, Seq<char>)>, owners: Seq<Seq<char>>)
    ensures
        leases_without(l, owners) == l.filter(|e: (u16, Seq<char>)| !owners.contains(e.1)),
    decreases l.len(),
{
    reveal(Seq::filter);
    if l.len() > 0 {
        leases_without_filter(l.drop_last(), owners);
    } else {
        assert(leases_without(l, owners) =~= l.filter(
            |e: (u16, Seq<char>)| !owners.contains(e.1),
        ));
    }
}

proof fn routes_left_filter(r: Seq<RouteV>, owners: Seq<Seq<char>>)
    ensures
        routes_left(r, owners) == r.filter(|e: RouteV| !owners.contains(e.instance)),
    decreases r.len(),
{
    reveal(Seq::filter);
    if r.len() > 0 {
        routes_left_filter(r.drop_last(), owners);
    } else {
        assert(routes_left(r, owners) =~= r.filter(|e: RouteV| !owners.contains(e.instance)));
    }
}

proof fn routes_elsewhere_filter(r: Seq<RouteV>, hostname: Seq<char>)
    ensures
        routes_elsewhere(r, hostname) == r.filter(|e: RouteV| e.hostname != hostname),
    decreases r.len(),
{
    reveal(Seq::filter);
    if r.len() > 0 {
        routes_elsewhere_filter(r.drop_last(), hostname);
    } else {
        assert(routes_elsewhere(r, hostname) =~= r.filter(|e: RouteV| e.hostname != hostname));
    }
}

proof fn instances_left_filter(v: Seq<InstanceV>, ids: Seq<Seq<char>>)
    ensures
        instances_left(v, ids) == v.filter(|e: InstanceV| !ids.contains(e.state.id)),
    decreases v.len(),
{
    reveal(Seq::filter);
    if v.len() > 0 {
        instances_left_filter(v.drop_last(), ids);
    } else {
        assert(instances_left(v, ids) =~= v.filter(|e: InstanceV| !ids.contains(e.state.id)));
    }
}

/// The port of a lease.
pub open spec fn lease_port() -> spec_fn((u16, Seq<char>)) -> u16 {
    |e: (u16, Seq<char>)| e.0
}

/// The hostname of a route.
pub open spec fn route_host() -> spec_fn(RouteV) -> Seq<char> {
    |r: RouteV| r.hostname
}

/// The id of an instance.
pub open spec fn id_of() -> spec_fn(InstanceV) -> Seq<char> {
    |i: InstanceV| i.state.id
}

/// Whether the instance's id carries the number.
pub open spec fn has_number(i: InstanceV, n: nat) -> bool {
    i.state.id == instance_id(i.state.name, n)
}

/// Whether the instance's id carries a number that was given out.
pub open spec fn numbered(i: InstanceV, seq: nat) -> bool {
    exists|n: nat| n <= seq && #[trigger] has_number(i, n)
}

impl DaemonV {
    /// What holds of the daemon at all times: no two instances have the same id, no
    /// port is leased twice, no hostname is routed twice, and the shared proxy
    /// sends every hostname where its route says.
    pub open spec fn ok(self) -> bool {
        &&& distinct(self.instances, id_of())
        &&& forall|i: int|
            0 <= i < self.instances.len() ==> numbered(#[trigger] self.instances[i], self.seq)
        &&& distinct(self.leases, lease_port())
        &&& distinct(self.routes, route_host())
        &&& forall|h: Seq<char>|
            #[trigger] port_of(self.registry, h) == port_of(targets(self.routes), h)
    }
}

/// What is left of the leases when one ends, found port by port.
pub proof fn owner_after_drop(l: Seq<(u16, Seq<char>)>, port: u16, other: u16)
    ensures
        owner_of(lease_dropped(l, port), other) == if other == port {
            None
        } else {
            owner_of(l, other)
        },
    decreases l.len(),
{
    if l.len() > 0 {
        owner_after_drop(l.drop_last(), port, other);
        owner_push(l.drop_last(), l.last(), other);
        assert(l.drop_last().push(l.last()) =~= l);
        owner_push(lease_dropped(l.drop_last(), port), l.last(), other);
    }
}

/// A lease at the end is found where no earlier one has the port.
pub proof fn owner_push(l: Seq<(u16, Seq<char>)>, e: (u16, Seq<char>), port: u16)
    ensures
        owner_of(l.push(e), port) == match owner_of(l, port) {
            Some(o) => Some(o),
            None => if e.0 == port {
                Some(e.1)
            } else {
                None
            },
        },
    decreases l.len(),
{
    let all = l.push(e);
    if l.len() > 0 {
        owner_push(l.drop_first(), e, port);
        assert(all.drop_first() =~= l.drop_first().push(e));
        assert(all[0] == l[0]);
    } else {
        assert(all.drop_first() =~= l);
        assert(owner_of(l, port) is None);
    }
}

/// A port that is given to an owner is that owner's, and every other port is whose
/// it was.
pub proof fn owner_after_give(
    l: Seq<(u16, Seq<char>)>,
    port: u16,
    owner: Seq<char>,
    other: u16,
)
    ensures
        owner_of(lease_given(l, port, owner), other) == if other == port {
            Some(owner)
        } else {
            owner_of(l, other)
        },
{
    owner_after_drop(l, port, other);
    owner_push(lease_dropped(l, port), (port, owner), other);
}

proof fn lease_dropped_distinct(l: Seq<(u16, Seq<char>)>, port: u16)
    requires
        distinct(l, lease_port()),
    ensures
        distinct(lease_dropped(l, port), lease_port()),
        forall|i: int|
            0 <= i < lease_dropped(l, port).len() ==> (#[trigger] lease_dropped(l, port)[i]).0
                != port,
{
    lease_dropped_filter(l, port);
    distinct_filter(l, |e: (u16, Seq<char>)| e.0 != port, lease_port());
}

proof fn lease_given_distinct(l: Seq<(u16, Seq<char>)>, port: u16, owner: Seq<char>)
    requires
        distinct(l, lease_port()),
    ensures
        distinct(lease_given(l, port, owner), lease_port()),
{
    lease_dropped_distinct(l, port);
    let d = lease_dropped(l, port);
    let g = lease_given(l, port, owner);
    assert(forall|i: int| 0 <= i < d.len() ==> g[i] == d[i]);
    assert forall|i: int, j: int| 0 <= i < j < g.len() implies lease_port()(#[trigger] g[i])
        != lease_port()(#[trigger] g[j]) by {
        assert(g[i] == d[i]);
        if j < d.len() {
            assert(g[j] == d[j]);
        }
    }
}

/// The hostnames and ports of the routes without a hostname.
proof fn targets_elsewhere(r: Seq<RouteV>, hostname: Seq<char>)
    ensures
        targets(routes_elsewhere(r, hostname)) == routes_without(targets(r), hostname),
    decreases r.len(),
{
    if r.len() > 0 {
        targets_elsewhere(r.drop_last(), hostname);
        assert(targets(r).drop_last() =~= targets(r.drop_last()));
        assert(targets(r).last() == (r.last().hostname, r.last().port));
        let rest = routes_elsewhere(r.drop_last(), hostname);
        assert(targets(rest.push(r.last())) =~= targets(rest).push(
            (r.last().hostname, r.last().port),
        ));
    } else {
        assert(targets(routes_elsewhere(r, hostname)) =~= routes_without(targets(r), hostname));
    }
}

/// A registry after all routes were registered leads where the last of them says.
proof fn all_registered_find(
    registry: Seq<(Seq<char>, u16)>,
    routes: Seq<(Seq<char>, u16)>,
    h: Seq<char>,
)
    requires
        unique_hosts(routes),
    ensures
        port_of(all_registered(registry, routes), h) == match port_of(routes, h) {
            Some(p) => Some(p),
            None => port_of(registry, h),
        },
    decreases routes.len(),
{
    if routes.len() > 0 {
        let d = routes.drop_last();
        assert(forall|i: int| 0 <= i < d.len() ==> d[i] == routes[i]);
        assert(unique_hosts(d));
        all_registered_find(registry, d, h);
        let before = all_registered(registry, d);
        register_then_find(before, routes.last().0, routes.last().1, h);
        port_of_push(d, routes.last(), h);
        assert(d.push(routes.last()) =~= routes);
        if h == routes.last().0 {
            not_among(d, h);
        }
    }
}

/// A hostname that no route has is found nowhere.
proof fn not_among(routes: Seq<(Seq<char>, u16)>, h: Seq<char>)
    requires
        forall|i: int| 0 <= i < routes.len() ==> (#[trigger] routes[i]).0 != h,
    ensures
        port_of(routes, h) is None,
    decreases routes.len(),
{
    if routes.len() > 0 {
        let t = routes.drop_first();
        assert(forall|i: int| 0 <= i < t.len() ==> t[i] == routes[i + 1]);
        not_among(t, h);
    }
}

/// What is kept of a registry leads nowhere that the routes do not name.
proof fn known_entries_find(
    registry: Seq<(Seq<char>, u16)>,
    routes: Seq<(Seq<char>, u16)>,
    h: Seq<char>,
)
    requires
        port_of(routes, h) is None,
    ensures
        port_of(known_entries(registry, routes), h) is None,
    decreases registry.len(),
{
    if registry.len() > 0 {
        known_entries_find(registry.drop_last(), routes, h);
        port_of_push(known_entries(registry.drop_last(), routes), registry.last(), h);
    }
}

/// A registry that is brought in line with the routes leads where they say.
pub proof fn resync_agrees(
    registry: Seq<(Seq<char>, u16)>,
    routes: Seq<(Seq<char>, u16)>,
    h: Seq<char>,
)
    requires
        unique_hosts(routes),
    ensures
        port_of(resynced(registry, routes), h) == port_of(routes, h),
{
    all_registered_find(known_entries(registry, routes), routes, h);
    if port_of(routes, h) is None {
        known_entries_find(registry, routes, h);
    }
}

proof fn targets_unique(r: Seq<RouteV>)
    requires
        distinct(r, route_host()),
    ensures
        unique_hosts(targets(r)),
{
    let t = targets(r);
    assert forall|i: int, j: int| 0 <= i < j < t.len() implies (#[trigger] t[i]).0 != (
    #[trigger] t[j]).0 by {
        assert(route_host()(r[i]) != route_host()(r[j]));
    }
}

/// The number that an instance id carries is told by its text.
pub proof fn number_injective(a: Seq<char>, m: nat, b: Seq<char>, n: nat)
    requires
        instance_id(a, m) == instance_id(b, n),
    ensures
        m == n,
{
    reveal_strlit("-");
    let s = instance_id(a, m);
    let t = instance_id(b, n);
    dec_is_digits(m);
    dec_is_digits(n);
    let x = dec(m).len() as int;
    let y = dec(n).len() as int;
    assert(s.skip(s.len() - x) =~= dec(m));
    assert(t.skip(t.len() - y) =~= dec(n));
    assert(s[s.len() - x - 1] == '-');
    assert(t[t.len() - y - 1] == '-');
    if x < y {
        assert(t[t.len() - x - 1] == dec(n)[y - x - 1]);
        assert(is_digit(dec(n)[y - x - 1]));
    } else if y < x {
        assert(s[s.len() - y - 1] == dec(m)[x - y - 1]);
        assert(is_digit(dec(m)[x - y - 1]));
    } else {
        dec_injective(m, n);
    }
}

/// The index of an instance is one of its list.
proof fn instance_index_ok(v: Seq<InstanceV>, id: Seq<char>, from: int)
    requires
        0 <= from,
    ensures
        match instance_index(v, id, from) {
            Some(i) => from <= i < v.len() && v[i].state.id == id,
            None => forall|j: int| from <= j < v.len() ==> (#[trigger] v[j]).state.id != id,
        },
    decreases v.len() - from,
{
    if from < v.len() && v[from].state.id != id {
        instance_index_ok(v, id, from + 1);
    }
}

/// Instances that keep their ids and names keep what holds of them.
proof fn same_ids_ok(d: DaemonV, v: Seq<InstanceV>)
    requires
        d.ok(),
        v.len() == d.instances.len(),
        forall|i: int|
            0 <= i < v.len() ==> (#[trigger] v[i]).state.id == d.instances[i].state.id
                && v[i].state.name == d.instances[i].state.name,
    ensures
        (DaemonV { instances: v, ..d }).ok(),
{
    assert forall|i: int, j: int| 0 <= i < j < v.len() implies id_of()(#[trigger] v[i]) != id_of()(
        #[trigger] v[j],
    ) by {
        assert(id_of()(d.instances[i]) != id_of()(d.instances[j]));
    }
    assert forall|i: int| 0 <= i < v.len() implies numbered(#[trigger] v[i], d.seq) by {
        assert(numbered(d.instances[i], d.seq));
        let n = choose|n: nat| n <= d.seq && #[trigger] has_number(d.instances[i], n);
        assert(has_number(v[i], n));
    }
}

proof fn left_by_ok(d: DaemonV, ids: Seq<Seq<char>>)
    requires
        d.ok(),
    ensures
        d.left_by(ids).ok(),
{
    let t = d.left_by(ids);
    instances_left_filter(d.instances, ids);
    distinct_filter(d.instances, |e: InstanceV| !ids.contains(e.state.id), id_of());
    assert forall|i: int| 0 <= i < t.instances.len() implies numbered(
        #[trigger] t.instances[i],
        t.seq,
    ) by {
        let m = choose|m: int| 0 <= m < d.instances.len() && d.instances[m] == t.instances[i];
        assert(numbered(d.instances[m], d.seq));
    }
    leases_without_filter(d.leases, ids);
    distinct_filter(d.leases, |e: (u16, Seq<char>)| !ids.contains(e.1), lease_port());
    routes_left_filter(d.routes, ids);
    distinct_filter(d.routes, |e: RouteV| !ids.contains(e.instance), route_host());
    targets_unique(t.routes);
    assert forall|h: Seq<char>| #[trigger] port_of(t.registry, h) == port_of(
        targets(t.routes),
        h,
    ) by {
        resync_agrees(d.registry, targets(t.routes), h);
    }
}

proof fn unrouted_ok(d: DaemonV, hostname: Seq<char>)
    requires
        d.ok(),
    ensures
        d.unrouted(hostname).ok(),
        forall|i: int|
            0 <= i < d.unrouted(hostname).routes.len() ==> (#[trigger] d.unrouted(
                hostname,
            ).routes[i]).hostname != hostname,
{
    let t = d.unrouted(hostname);
    routes_elsewhere_filter(d.routes, hostname);
    distinct_filter(d.routes, |e: RouteV| e.hostname != hostname, route_host());
    if let Some(p) = port_of(targets(d.routes), hostname) {
        lease_dropped_distinct(d.leases, p);
    }
    targets_elsewhere(d.routes, hostname);
    assert forall|h: Seq<char>| #[trigger] port_of(t.registry, h) == port_of(
        targets(t.routes),
        h,
    ) by {
        without_host(d.registry, hostname, h);
        without_host(targets(d.routes), hostname, h);
        assert(port_of(d.registry, h) == port_of(targets(d.routes), h));
    }
}

proof fn routed_ok(d: DaemonV, id: Seq<char>, hostname: Seq<char>, port: u16)
    requires
        d.ok(),
    ensures
        d.routed(id, hostname, port).ok(),
{
    let u = d.unrouted(hostname);
    let t = d.routed(id, hostname, port);
    unrouted_ok(d, hostname);
    lease_given_distinct(u.leases, port, id);
    let r = u.routes;
    assert(forall|i: int| 0 <= i < r.len() ==> t.routes[i] == r[i]);
    assert forall|i: int, j: int| 0 <= i < j < t.routes.len() implies route_host()(
        #[trigger] t.routes[i],
    ) != route_host()(#[trigger] t.routes[j]) by {
        assert(t.routes[i] == r[i]);
        if j < r.len() {
            assert(t.routes[j] == r[j]);
            assert(route_host()(r[i]) != route_host()(r[j]));
        } else {
            assert(r[i].hostname != hostname);
        }
    }
    assert(targets(t.routes) =~= targets(r).push((hostname, port)));
    assert forall|h: Seq<char>| #[trigger] port_of(t.registry, h) == port_of(
        targets(t.routes),
        h,
    ) by {
        register_then_find(d.registry, hostname, port, h);
        port_of_push(targets(r), (hostname, port), h);
        targets_elsewhere(d.routes, hostname);
        without_host(targets(d.routes), hostname, h);
        assert(port_of(d.registry, h) == port_of(targets(d.routes), h));
    }
}

/// Whatever the daemon is asked, what holds of it goes on to hold.
pub proof fn stays_ok(d: DaemonV, req: Request, now: u64, host: HostPorts)
    requires
        d.ok(),
    ensures
        next_state(d, req, now, host).ok(),
{
    let t = next_state(d, req, now, host);
    match req {
        Request::Register { name, dir, pid } => {
            let id = instance_id(name@, d.seq + 1);
            let v = d.instances;
            let inst = t.instances.last();
            assert(forall|i: int| 0 <= i < v.len() ==> t.instances[i] == v[i]);
            assert(has_number(inst, d.seq + 1));
            assert forall|i: int| 0 <= i < t.instances.len() implies numbered(
                #[trigger] t.instances[i],
                t.seq,
            ) by {
                if i < v.len() {
                    assert(numbered(v[i], d.seq));
                    let n = choose|n: nat| n <= d.seq && #[trigger] has_number(v[i], n);
                    assert(n <= t.seq && has_number(t.instances[i], n));
                }
            }
            assert forall|i: int, j: int| 0 <= i < j < t.instances.len() implies id_of()(
                #[trigger] t.instances[i],
            ) != id_of()(#[trigger] t.instances[j]) by {
                if j < v.len() {
                    assert(id_of()(v[i]) != id_of()(v[j]));
                } else {
                    assert(numbered(v[i], d.seq));
                    let n = choose|n: nat| n <= d.seq && #[trigger] has_number(v[i], n);
                    if v[i].state.id == id {
                        number_injective(v[i].state.name, n, name@, d.seq + 1);
                    }
                }
            }
        },
        Request::Deregister { instance } => {
            left_by_ok(d, seq![instance@]);
        },
        Request::Update { instance, .. } => {
            instance_index_ok(d.instances, instance@, 0);
            same_ids_ok(d, t.instances);
        },
        Request::AllocatePort { instance } => {
            if let Some(r) = reservation(d.leases, None, host.preferred_free, host.offers@) {
                lease_given_distinct(d.leases, r.port, instance@);
            }
        },
        Request::ReservePort { instance, preferred } => {
            if let Some(r) = reservation(d.leases, preferred, host.preferred_free, host.offers@) {
                lease_given_distinct(d.leases, r.port, instance@);
            }
        },
        Request::ReleasePort { port, .. } => {
            lease_dropped_distinct(d.leases, port);
        },
        Request::RegisterRoute { instance, hostname, port } => {
            routed_ok(d, instance@, hostname@, port);
        },
        Request::RemoveRoute { hostname } => {
            unrouted_ok(d, hostname@);
        },
        Request::GetState => {
            left_by_ok(d, dead_ids(d.instances, now));
        },
        Request::PollCommands { instance } => {
            instance_index_ok(d.instances, instance@, 0);
            same_ids_ok(d, t.instances);
        },
        Request::Trigger { instance, resource } => {
            queued_ok(d, instance@, Command::Trigger { resource });
        },
        Request::Restart { instance, resource } => {
            queued_ok(d, instance@, Command::Restart { resource });
        },
        Request::SetPort { instance, resource, port } => {
            queued_ok(d, instance@, Command::SetPort { resource, port });
        },
        Request::SetPaused { instance, resource, paused } => {
            queued_ok(d, instance@, Command::SetPaused { resource, paused });
        },
        Request::SetTiltfileArgs { instance, args } => {
            queued_ok(d, instance@, Command::SetTiltfileArgs { args });
        },
        Request::ShutdownProject { .. } => {
            same_ids_ok(d, t.instances);
        },
        Request::ShutdownDaemon => {
            same_ids_ok(d, t.instances);
            assert(targets(t.routes) =~= Seq::empty());
            assert forall|h: Seq<char>| #[trigger] port_of(t.registry, h) == port_of(
                targets(t.routes),
                h,
            ) by {
                resync_agrees(d.registry, Seq::empty(), h);
            }
        },
        _ => {},
    }
}

proof fn queued_ok(d: DaemonV, id: Seq<char>, c: Command)
    requires
        d.ok(),
    ensures
        d.queued(id, c).ok(),
{
    instance_index_ok(d.instances, id, 0);
    same_ids_ok(d, d.queued(id, c).instances);
}

/// The first port that is not leased is not leased, and is one of the offered ones.
proof fn first_unleased_ok(l: Seq<(u16, Seq<char>)>, offers: Seq<Option<u16>>, from: int)
    requires
        0 <= from,
    ensures
        match first_unleased(l, offers, from) {
            Some(p) => owner_of(l, p) is None && offers.contains(Some(p)),
            None => forall|i: int|
                from <= i < offers.len() && i < PORT_TRIES ==> (#[trigger] offers[i] is None
                    || owner_of(l, offers[i]->0) is Some),
        },
    decreases offers.len() - from,
{
    if from < offers.len() && from < PORT_TRIES {
        if offers[from] is None || owner_of(l, offers[from]->0) is Some {
            first_unleased_ok(l, offers, from + 1);
        } else {
            assert(offers[from] == Some(first_unleased(l, offers, from)->0));
        }
    }
}

/// A reserved port was leased to nobody and is then leased to the instance that
/// asked; all other leases stay. So no two instances ever hold the same port.
pub proof fn reserve_exclusive(
    d: DaemonV,
    id: Seq<char>,
    preferred: Option<u16>,
    host: HostPorts,
    other: u16,
)
    ensures
        match reservation(d.leases, preferred, host.preferred_free, host.offers@) {
            Some(r) => {
                let t = d.leased(id, Some(r));
                &&& owner_of(d.leases, r.port) is None
                &&& owner_of(t.leases, r.port) == Some(id)
                &&& other != r.port ==> owner_of(t.leases, other) == owner_of(d.leases, other)
                &&& r.preferred == preferred
                &&& r.conflict <==> (preferred is Some && preferred != Some(r.port)) || (
                preferred is Some && !host.preferred_free)
            },
            None => forall|i: int|
                0 <= i < host.offers@.len() && i < PORT_TRIES ==> (
                #[trigger] host.offers@[i] is None || owner_of(d.leases, host.offers@[i]->0) is Some),
        },
{
    first_unleased_ok(d.leases, host.offers@, 0);
    if let Some(r) = reservation(d.leases, preferred, host.preferred_free, host.offers@) {
        owner_after_give(d.leases, r.port, id, r.port);
        owner_after_give(d.leases, r.port, id, other);
    }
}

/// The preferred port is given whenever it is neither leased nor in use.
pub proof fn preferred_port_given(d: DaemonV, port: u16, host: HostPorts)
    requires
        owner_of(d.leases, port) is None,
        host.preferred_free,
    ensures
        reservation(d.leases, Some(port), host.preferred_free, host.offers@) == Some(
            PortReservation { port, preferred: Some(port), conflict: false },
        ),
{
}

/// Offering more free ports after none of the first would do is offering them all
/// at once, as long as there are not too many offers.
pub proof fn reserve_in_steps(
    l: Seq<(u16, Seq<char>)>,
    preferred: Option<u16>,
    first: Seq<Option<u16>>,
    more: Seq<Option<u16>>,
)
    requires
        first.len() + more.len() <= PORT_TRIES,
    ensures
        reservation(l, preferred, false, first + more) == match reservation(
            l,
            preferred,
            false,
            first,
        ) {
            Some(r) => Some(r),
            None => reservation(l, preferred, false, more),
        },
{
    first_unleased_concat(l, first, more, 0);
}

proof fn first_unleased_concat(
    l: Seq<(u16, Seq<char>)>,
    first: Seq<Option<u16>>,
    more: Seq<Option<u16>>,
    from: int,
)
    requires
        first.len() + more.len() <= PORT_TRIES,
        0 <= from <= first.len(),
    ensures
        first_unleased(l, first + more, from) == match first_unleased(l, first, from) {
            Some(p) => Some(p),
            None => first_unleased(l, more, 0),
        },
    decreases first.len() - from,
{
    if from < first.len() {
        assert((first + more)[from] == first[from]);
        first_unleased_concat(l, first, more, from + 1);
    } else {
        first_unleased_shift(l, first, more, 0);
    }
}

proof fn first_unleased_shift(
    l: Seq<(u16, Seq<char>)>,
    first: Seq<Option<u16>>,
    more: Seq<Option<u16>>,
    from: int,
)
    requires
        first.len() + more.len() <= PORT_TRIES,
        0 <= from <= more.len(),
    ensures
        first_unleased(l, first + more, first.len() + from) == first_unleased(l, more, from),
    decreases more.len() - from,
{
    if from < more.len() {
        assert((first + more)[first.len() + from] == more[from]);
        first_unleased_shift(l, first, more, from + 1);
    }
}

/// A registered route is where the shared proxy sends its hostname, and its port
/// is leased to the instance.
pub proof fn route_registered(d: DaemonV, id: Seq<char>, hostname: Seq<char>, port: u16)
    ensures
        port_of(d.routed(id, hostname, port).registry, hostname) == Some(port),
        owner_of(d.routed(id, hostname, port).leases, port) == Some(id),
{
    register_then_find(d.registry, hostname, port, hostname);
    owner_after_give(d.unrouted(hostname).leases, port, id, port);
}

/// Removing a route ends the lease of its port where no other route leads there.
pub proof fn route_removed(d: DaemonV, hostname: Seq<char>, port: u16)
    requires
        port_of(targets(d.routes), hostname) == Some(port),
        !crate::daemon::state::port_in_use(routes_elsewhere(d.routes, hostname), port),
    ensures
        owner_of(d.unrouted(hostname).leases, port) is None,
        port_of(d.unrouted(hostname).registry, hostname) is None,
{
    owner_after_drop(d.leases, port, port);
    without_host(d.registry, hostname, hostname);
}

/// A port is given back by its owner alone.
pub proof fn release_by_owner(d: DaemonV, id: Seq<char>, port: u16)
    ensures
        owner_of(d.leases, port) == Some(id) ==> owner_of(d.released(id, port).leases, port) is None,
        owner_of(d.leases, port) != Some(id) ==> d.released(id, port) == d,
{
    owner_after_drop(d.leases, port, port);
}

/// Nothing is left of an instance that deregistered.
pub proof fn deregister_complete(d: DaemonV, id: Seq<char>)
    requires
        d.ok(),
    ensures
        d.left_by(seq![id]).instance(id) is None,
        forall|i: int|
            0 <= i < d.left_by(seq![id]).routes.len() ==> (#[trigger] d.left_by(
                seq![id],
            ).routes[i]).instance != id,
        forall|i: int|
            0 <= i < d.left_by(seq![id]).leases.len() ==> (#[trigger] d.left_by(
                seq![id],
            ).leases[i]).1 != id,
{
    let ids = seq![id];
    assert(ids[0] == id);
    instances_left_filter(d.instances, ids);
    distinct_filter(d.instances, |e: InstanceV| !ids.contains(e.state.id), id_of());
    leases_without_filter(d.leases, ids);
    distinct_filter(d.leases, |e: (u16, Seq<char>)| !ids.contains(e.1), lease_port());
    routes_left_filter(d.routes, ids);
    distinct_filter(d.routes, |e: RouteV| !ids.contains(e.instance), route_host());
    let t = d.left_by(ids);
    instance_index_ok(t.instances, id, 0);
    assert(forall|i: int|
        0 <= i < t.instances.len() ==> !ids.contains((#[trigger] t.instances[i]).state.id));
    assert(forall|i: int|
        0 <= i < t.routes.len() ==> !ids.contains((#[trigger] t.routes[i]).instance));
    assert(forall|i: int| 0 <= i < t.leases.len() ==> !ids.contains((#[trigger] t.leases[i]).1));
}

/// The ids of the instances that were not heard of for too long are those of such
/// instances.
proof fn dead_ids_are(v: Seq<InstanceV>, now: u64, id: Seq<char>)
    ensures
        dead_ids(v, now).contains(id) <==> exists|i: int|
            0 <= i < v.len() && (#[trigger] v[i]).state.id == id && now - v[i].last_seen
                > INSTANCE_TTL,
    decreases v.len(),
{
    if v.len() > 0 {
        let d = v.drop_last();
        let rest = dead_ids(d, now);
        let all = dead_ids(v, now);
        dead_ids_are(d, now, id);
        if all.contains(id) {
            let k = choose|k: int| 0 <= k < all.len() && all[k] == id;
            if k < rest.len() {
                assert(rest[k] == id);
                let i = choose|i: int|
                    0 <= i < d.len() && (#[trigger] d[i]).state.id == id && now - d[i].last_seen
                        > INSTANCE_TTL;
                assert(v[i] == d[i]);
            } else {
                assert(v[v.len() - 1].state.id == id);
            }
        }
        if exists|i: int|
            0 <= i < v.len() && (#[trigger] v[i]).state.id == id && now - v[i].last_seen
                > INSTANCE_TTL {
            let i = choose|i: int|
                0 <= i < v.len() && (#[trigger] v[i]).state.id == id && now - v[i].last_seen
                    > INSTANCE_TTL;
            if i < d.len() {
                assert(d[i] == v[i]);
                let k = choose|k: int| 0 <= k < rest.len() && rest[k] == id;
                assert(all[k] == id);
            } else {
                assert(all[all.len() - 1] == id);
            }
        }
    }
}

/// What is asked for is among what is left.
proof fn kept_by_filter<T>(s: Seq<T>, keep: spec_fn(T) -> bool, i: int)
    requires
        0 <= i < s.len(),
        keep(s[i]),
    ensures
        s.filter(keep).contains(s[i]),
    decreases s.len(),
{
    reveal(Seq::filter);
    let f = s.filter(keep);
    let d = s.drop_last();
    if i == s.len() - 1 {
        assert(f[f.len() - 1] == s[i]);
    } else {
        assert(d[i] == s[i]);
        kept_by_filter(d, keep, i);
        let k = choose|k: int| 0 <= k < d.filter(keep).len() && d.filter(keep)[k] == s[i];
        assert(f[k] == s[i]);
    }
}

/// An instance that was not heard of for too long is forgotten, with its routes and its
/// leases; every other one stays.
pub proof fn prune_exact(d: DaemonV, now: u64)
    requires
        d.ok(),
    ensures
        forall|i: int|
            0 <= i < d.pruned(now).instances.len() ==> now - (#[trigger] d.pruned(
                now,
            ).instances[i]).last_seen <= INSTANCE_TTL,
        forall|i: int|
            0 <= i < d.instances.len() && now - d.instances[i].last_seen <= INSTANCE_TTL
                ==> d.pruned(now).instances.contains(#[trigger] d.instances[i]),
        forall|i: int, j: int|
            0 <= i < d.instances.len() && now - d.instances[i].last_seen > INSTANCE_TTL && 0 <= j
                < d.pruned(now).routes.len() ==> (#[trigger] d.pruned(now).routes[j]).instance != (
            #[trigger] d.instances[i]).state.id,
        forall|i: int, j: int|
            0 <= i < d.instances.len() && now - d.instances[i].last_seen > INSTANCE_TTL && 0 <= j
                < d.pruned(now).leases.len() ==> (#[trigger] d.pruned(now).leases[j]).1 != (
            #[trigger] d.instances[i]).state.id,
{
    let ids = dead_ids(d.instances, now);
    let t = d.pruned(now);
    let keep = |e: InstanceV| !ids.contains(e.state.id);
    instances_left_filter(d.instances, ids);
    distinct_filter(d.instances, keep, id_of());
    leases_without_filter(d.leases, ids);
    distinct_filter(d.leases, |e: (u16, Seq<char>)| !ids.contains(e.1), lease_port());
    routes_left_filter(d.routes, ids);
    distinct_filter(d.routes, |e: RouteV| !ids.contains(e.instance), route_host());
    assert forall|i: int| 0 <= i < d.instances.len() implies ids.contains(
        (#[trigger] d.instances[i]).state.id,
    ) == (now - d.instances[i].last_seen > INSTANCE_TTL) by {
        dead_ids_are(d.instances, now, d.instances[i].state.id);
        if ids.contains(d.instances[i].state.id) {
            let j = choose|j: int|
                0 <= j < d.instances.len() && (#[trigger] d.instances[j]).state.id
                    == d.instances[i].state.id && now - d.instances[j].last_seen > INSTANCE_TTL;
            assert(id_of()(d.instances[i]) == id_of()(d.instances[j]));
            assert(i == j);
        }
    }
    if ids.len() == 0 {
        assert forall|i: int| 0 <= i < d.instances.len() implies now - (
        #[trigger] d.instances[i]).last_seen <= INSTANCE_TTL && d.instances.contains(
            d.instances[i],
        ) by {
            assert(!ids.contains(d.instances[i].state.id));
        }
    } else {
        assert forall|i: int| 0 <= i < t.instances.len() implies now - (
        #[trigger] t.instances[i]).last_seen <= INSTANCE_TTL by {
            let j = choose|j: int| 0 <= j < d.instances.len() && d.instances[j] == t.instances[i];
            assert(keep(t.instances[i]));
            assert(!ids.contains(d.instances[j].state.id));
        }
        assert forall|i: int|
            0 <= i < d.instances.len() && now - d.instances[i].last_seen
                <= INSTANCE_TTL implies t.instances.contains(#[trigger] d.instances[i]) by {
            assert(keep(d.instances[i]));
            kept_by_filter(d.instances, keep, i);
        }
        assert(forall|i: int|
            0 <= i < t.routes.len() ==> !ids.contains((#[trigger] t.routes[i]).instance));
        assert(forall|i: int|
            0 <= i < t.leases.len() ==> !ids.contains((#[trigger] t.leases[i]).1));
    }
}

/// A command that is queued for a known instance is among those that its next poll
/// takes, and a second poll takes none.
pub proof fn queued_then_polled(d: DaemonV, id: Seq<char>, c: Command, now: u64)
    requires
        d.instance(id) is Some,
    ensures
        d.queued(id, c).instance(id) is Some,
        d.queued(id, c).instance(id)->0.commands == d.instance(id)->0.commands.push(c),
        d.polled(id, now).instance(id) is Some,
        d.polled(id, now).instance(id)->0.commands == Seq::<Command>::empty(),
{
    instance_index_ok(d.instances, id, 0);
    let i = instance_index(d.instances, id, 0)->0;
    first_with_id(d.instances, id, i, 0);
    let q = d.queued(id, c).instances;
    let p = d.polled(id, now).instances;
    index_is_first(q, id, i, 0);
    index_is_first(p, id, i, 0);
}

proof fn first_with_id(v: Seq<InstanceV>, id: Seq<char>, i: int, from: int)
    requires
        0 <= from,
        instance_index(v, id, from) == Some(i),
    ensures
        forall|j: int| from <= j < i ==> (#[trigger] v[j]).state.id != id,
    decreases v.len() - from,
{
    if from < v.len() && v[from].state.id != id {
        first_with_id(v, id, i, from + 1);
    }
}

proof fn index_is_first(v: Seq<InstanceV>, id: Seq<char>, i: int, from: int)
    requires
        0 <= from <= i < v.len(),
        v[i].state.id == id,
        forall|j: int| from <= j < i ==> (#[trigger] v[j]).state.id != id,
    ensures
        instance_index(v, id, from) == Some(i),
    decreases i - from,
{
    if from < i {
        index_is_first(v, id, i, from + 1);
    }
}

} // verus!
