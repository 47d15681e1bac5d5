//! What the daemon does for its instances, whatever they ask.

use vstd::prelude::*;
use vstd::string::*;

use crate::daemon::log_ring::RingV;
use crate::daemon::protocol::{Command, Request, ResourceSnapshot, RouteV, SnapshotV};
use crate::daemon::state::{
    answers, dead_ids, gathered_objects, id_stem, instance_id, instance_index, instances_left,
    leases_without,
    next_state, reservation, ring_appended, ring_index, routes_elsewhere, routes_left,
    states_in, wanted_objects, DaemonV, HostPorts, InstanceV,
};
use crate::text::{dec, is_alnum, trim_both, Class};

verus! {

/// The leases that are left are those of other owners.
proof fn leases_left_told(v: Seq<(u16, Seq<char>)>, owners: Seq<Seq<char>>, x: (u16, Seq<char>))
    ensures
        leases_without(v, owners).contains(x) <==> v.contains(x) && !owners.contains(x.1),
    decreases v.len(),
{
    if v.len() > 0 {
        let d = v.drop_last();
        let rest = leases_without(d, owners);
        let all = leases_without(v, owners);
        leases_left_told(d, owners, x);
        assert(v.last() == v[v.len() - 1]);
        if all.contains(x) && !rest.contains(x) {
            let i = choose|i: int| 0 <= i < all.len() && all[i] == x;
            if i < rest.len() {
                assert(rest[i] == x);
            }
        }
        if rest.contains(x) {
            let i = choose|i: int| 0 <= i < rest.len() && rest[i] == x;
            assert(all[i] == x);
            let j = choose|j: int| 0 <= j < d.len() && d[j] == x;
            assert(v[j] == x);
        }
        if v.contains(x) && !owners.contains(x.1) {
            let j = choose|j: int| 0 <= j < v.len() && v[j] == x;
            if j < d.len() {
                assert(d[j] == x);
            } else {
                assert(all[rest.len() as int] == x);
            }
        }
    }
}

/// The routes that are left are those of other owners.
proof fn routes_left_told(v: Seq<RouteV>, owners: Seq<Seq<char>>, x: RouteV)
    ensures
        routes_left(v, owners).contains(x) <==> v.contains(x) && !owners.contains(x.instance),
    decreases v.len(),
{
    if v.len() > 0 {
        let d = v.drop_last();
        let rest = routes_left(d, owners);
        let all = routes_left(v, owners);
        routes_left_told(d, owners, x);
        assert(v.last() == v[v.len() - 1]);
        if all.contains(x) && !rest.contains(x) {
            let i = choose|i: int| 0 <= i < all.len() && all[i] == x;
            if i < rest.len() {
                assert(rest[i] == x);
            }
        }
        if rest.contains(x) {
            let i = choose|i: int| 0 <= i < rest.len() && rest[i] == x;
            assert(all[i] == x);
            let j = choose|j: int| 0 <= j < d.len() && d[j] == x;
            assert(v[j] == x);
        }
        if v.contains(x) && !owners.contains(x.instance) {
            let j = choose|j: int| 0 <= j < v.len() && v[j] == x;
            if j < d.len() {
                assert(d[j] == x);
            } else {
                assert(all[rest.len() as int] == x);
            }
        }
    }
}

/// The instances that are left are the others.
proof fn instances_left_told(v: Seq<InstanceV>, ids: Seq<Seq<char>>, x: InstanceV)
    ensures
        instances_left(v, ids).contains(x) <==> v.contains(x) && !ids.contains(x.state.id),
    decreases v.len(),
{
    if v.len() > 0 {
        let d = v.drop_last();
        let rest = instances_left(d, ids);
        let all = instances_left(v, ids);
        instances_left_told(d, ids, x);
        assert(v.last() == v[v.len() - 1]);
        if all.contains(x) && !rest.contains(x) {
            let i = choose|i: int| 0 <= i < all.len() && all[i] == x;
            if i < rest.len() {
                assert(rest[i] == x);
            }
        }
        if rest.contains(x) {
            let i = choose|i: int| 0 <= i < rest.len() && rest[i] == x;
            assert(all[i] == x);
            let j = choose|j: int| 0 <= j < d.len() && d[j] == x;
            assert(v[j] == x);
        }
        if v.contains(x) && !ids.contains(x.state.id) {
            let j = choose|j: int| 0 <= j < v.len() && v[j] == x;
            if j < d.len() {
                assert(d[j] == x);
            } else {
                assert(all[rest.len() as int] == x);
            }
        }
    }
}

/// What leaves with an instance is its own: every other instance stays as it is, and so do
/// the routes and leases of all others.
pub proof fn leaving_spares_others(
    d: DaemonV,
    id: Seq<char>,
    inst: InstanceV,
    route: RouteV,
    lease: (u16, Seq<char>),
)
    ensures
        d.left_by(seq![id]).instances.contains(inst) <==> d.instances.contains(inst)
            && inst.state.id != id,
        d.left_by(seq![id]).routes.contains(route) <==> d.routes.contains(route) && route.instance
            != id,
        d.left_by(seq![id]).leases.contains(lease) <==> d.leases.contains(lease) && lease.1 != id,
        d.left_by(seq![id]).seq == d.seq,
        d.left_by(seq![id]).shutting_down == d.shutting_down,
{
    let ids = seq![id];
    assert(ids[0] == id);
    assert forall|x: Seq<char>| ids.contains(x) <==> x == id by {
        if ids.contains(x) {
            let i = choose|i: int| 0 <= i < ids.len() && ids[i] == x;
            assert(i == 0);
        }
    }
    instances_left_told(d.instances, ids, inst);
    routes_left_told(d.routes, ids, route);
    leases_left_told(d.leases, ids, lease);
}

proof fn index_found(v: Seq<InstanceV>, id: Seq<char>, from: int, i: int)
    requires
        0 <= from <= i < v.len(),
        v[i].state.id == id,
        forall|j: int| from <= j < i ==> (#[trigger] v[j]).state.id != id,
    ensures
        instance_index(v, id, from) == Some(i),
    decreases i - from,
{
    if from < i {
        assert(v[from].state.id != id);
        index_found(v, id, from + 1, i);
    }
}

proof fn index_first(v: Seq<InstanceV>, id: Seq<char>, from: int)
    requires
        0 <= from,
    ensures
        match instance_index(v, id, from) {
            Some(i) => from <= i < v.len() && v[i].state.id == id && forall|j: int|
                from <= j < i ==> (#[trigger] v[j]).state.id != id,
            None => forall|j: int| from <= j < v.len() ==> (#[trigger] v[j]).state.id != id,
        },
    decreases v.len() - from,
{
    if from < v.len() && v[from].state.id != id {
        index_first(v, id, from + 1);
    }
}

/// An instance that registers is known by a new id, as it said who it is, with nothing
/// reported yet and no command waiting; the others are as they were.
pub proof fn joining_told(
    d: DaemonV,
    name: Seq<char>,
    dir: Seq<char>,
    pid: u32,
    now: u64,
    other: Seq<char>,
)
    requires
        d.instance(instance_id(name, d.seq + 1)) is None,
    ensures
        ({
            let id = instance_id(name, d.seq + 1);
            let t = d.joined(name, dir, pid, now);
            &&& t.instance(id) is Some
            &&& t.instance(id)->0.state.id == id
            &&& t.instance(id)->0.state.name == name
            &&& t.instance(id)->0.state.dir == dir
            &&& t.instance(id)->0.state.pid == pid
            &&& t.instance(id)->0.state.resources.len() == 0
            &&& t.instance(id)->0.state.objects.len() == 0
            &&& t.instance(id)->0.state.api_addr is None
            &&& t.instance(id)->0.commands.len() == 0
            &&& t.instance(id)->0.last_seen == now
            &&& other != id ==> t.instance(other) == d.instance(other)
            &&& t.routes == d.routes && t.leases == d.leases && t.registry == d.registry
            &&& t.seq == d.seq + 1
        }),
{
    let id = instance_id(name, d.seq + 1);
    let v = d.instances;
    let t = d.joined(name, dir, pid, now);
    let w = t.instances;
    index_first(v, id, 0);
    assert forall|j: int| 0 <= j < v.len() implies (#[trigger] w[j]).state.id != id by {
        assert(w[j] == v[j]);
    }
    index_found(w, id, 0, v.len() as int);
    if other != id {
        index_first(v, other, 0);
        index_first(w, other, 0);
        if let Some(i) = instance_index(v, other, 0) {
            assert forall|j: int| 0 <= j < i implies (#[trigger] w[j]).state.id != other by {
                assert(w[j] == v[j]);
            }
            index_found(w, other, 0, i);
        } else {
            if let Some(i) = instance_index(w, other, 0) {
                assert(w[i].state.id == other);
                if i < v.len() {
                    assert(w[i] == v[i]);
                }
            }
        }
    }
}

/// What an instance reports is what is known of it from then on; who it is stays, and so do
/// the commands that wait for it. Reports of others change nothing of it.
pub proof fn report_told(
    d: DaemonV,
    id: Seq<char>,
    resources: Seq<ResourceSnapshot>,
    batches: Seq<(Seq<char>, Seq<Seq<char>>)>,
    objects: Seq<SnapshotV>,
    api_addr: Option<String>,
    now: u64,
    other: Seq<char>,
)
    requires
        d.instance(id) is Some,
    ensures
        ({
            let t = d.reported(id, resources, batches, objects, api_addr, now);
            let before = d.instance(id)->0;
            &&& t.instance(id) is Some
            &&& t.instance(id)->0.state.resources == resources
            &&& t.instance(id)->0.state.objects == objects
            &&& t.instance(id)->0.state.api_addr == api_addr
            &&& t.instance(id)->0.state.name == before.state.name
            &&& t.instance(id)->0.state.dir == before.state.dir
            &&& t.instance(id)->0.state.pid == before.state.pid
            &&& t.instance(id)->0.commands == before.commands
            &&& t.instance(id)->0.last_seen == now
            &&& other != id ==> t.instance(other) == d.instance(other)
            &&& t.routes == d.routes && t.leases == d.leases
        }),
{
    let t = d.reported(id, resources, batches, objects, api_addr, now);
    let i = instance_index(d.instances, id, 0)->0;
    index_first(d.instances, id, 0);
    changed_one(d.instances, id, i, t.instances[i], other);
}

/// One instance changed, under the same id.
proof fn changed_one(v: Seq<InstanceV>, id: Seq<char>, i: int, x: InstanceV, other: Seq<char>)
    requires
        instance_index(v, id, 0) == Some(i),
        0 <= i < v.len(),
        x.state.id == id,
    ensures
        instance_index(v.update(i, x), id, 0) == Some(i),
        other != id ==> instance_index(v.update(i, x), other, 0) == instance_index(v, other, 0),
        other != id && instance_index(v, other, 0) is Some ==> v.update(i, x)[instance_index(
            v,
            other,
            0,
        )->0] == v[instance_index(v, other, 0)->0],
{
    let w = v.update(i, x);
    index_first(v, id, 0);
    assert forall|j: int| 0 <= j < i implies (#[trigger] w[j]).state.id != id by {
        assert(w[j] == v[j]);
    }
    index_found(w, id, 0, i);
    if other != id {
        index_first(v, other, 0);
        index_first(w, other, 0);
        if let Some(k) = instance_index(v, other, 0) {
            assert(k != i);
            assert forall|j: int| 0 <= j < k implies (#[trigger] w[j]).state.id != other by {
                if j != i {
                    assert(w[j] == v[j]);
                }
            }
            index_found(w, other, 0, k);
        } else if let Some(k) = instance_index(w, other, 0) {
            if k != i {
                assert(w[k] == v[k]);
            }
        }
    }
}

/// What is asked of an instance waits for it as the command that was asked for, behind the
/// others; nothing else changes.
pub proof fn requests_wait(
    d: DaemonV,
    id: String,
    resource: String,
    port: u16,
    paused: bool,
    args: Vec<String>,
    now: u64,
    host: HostPorts,
    other: Seq<char>,
)
    requires
        d.instance(id@) is Some,
        other != id@,
    ensures
        ({
            let before = d.instance(id@)->0.commands;
            let trigger = next_state(d, Request::Trigger { instance: id, resource }, now, host);
            let restart = next_state(d, Request::Restart { instance: id, resource }, now, host);
            let moved = next_state(d, Request::SetPort { instance: id, resource, port }, now, host);
            let pause = next_state(
                d,
                Request::SetPaused { instance: id, resource, paused },
                now,
                host,
            );
            let given = next_state(d, Request::SetTiltfileArgs { instance: id, args }, now, host);
            &&& trigger.instance(id@)->0.commands == before.push(Command::Trigger { resource })
            &&& restart.instance(id@)->0.commands == before.push(Command::Restart { resource })
            &&& moved.instance(id@)->0.commands == before.push(Command::SetPort { resource, port })
            &&& pause.instance(id@)->0.commands == before.push(
                Command::SetPaused { resource, paused },
            )
            &&& given.instance(id@)->0.commands == before.push(Command::SetTiltfileArgs { args })
            &&& trigger.instance(other) == d.instance(other)
            &&& restart.instance(other) == d.instance(other)
            &&& moved.instance(other) == d.instance(other)
            &&& pause.instance(other) == d.instance(other)
            &&& given.instance(other) == d.instance(other)
            &&& trigger.routes == d.routes && trigger.leases == d.leases
        }),
{
    let i = instance_index(d.instances, id@, 0)->0;
    index_first(d.instances, id@, 0);
    let v = d.instances;
    changed_one(v, id@, i, told_one(v[i], Command::Trigger { resource }), other);
    changed_one(v, id@, i, told_one(v[i], Command::Restart { resource }), other);
    changed_one(v, id@, i, told_one(v[i], Command::SetPort { resource, port }), other);
    changed_one(v, id@, i, told_one(v[i], Command::SetPaused { resource, paused }), other);
    changed_one(v, id@, i, told_one(v[i], Command::SetTiltfileArgs { args }), other);
}

spec fn told_one(i: InstanceV, c: Command) -> InstanceV {
    InstanceV { commands: i.commands.push(c), ..i }
}

/// To stop a project is to tell each of its instances to shut down, and no other.
pub proof fn project_stop_told(d: DaemonV, dir: Seq<char>, i: int)
    requires
        0 <= i < d.instances.len(),
    ensures
        d.project_stopped(dir).instances.len() == d.instances.len(),
        d.instances[i].state.dir == dir ==> d.project_stopped(dir).instances[i] == (InstanceV {
            commands: d.instances[i].commands.push(Command::Shutdown),
            ..d.instances[i]
        }),
        d.instances[i].state.dir != dir ==> d.project_stopped(dir).instances[i] == d.instances[i],
        d.project_stopped(dir).routes == d.routes,
        d.project_stopped(dir).leases == d.leases,
        !d.shutting_down ==> !d.project_stopped(dir).shutting_down,
{
}

/// To stop the daemon is to tell all instances to shut down; no route and no lease is left.
pub proof fn daemon_stop_told(d: DaemonV, i: int, host: Seq<char>)
    requires
        0 <= i < d.instances.len(),
    ensures
        d.stopped().instances.len() == d.instances.len(),
        d.stopped().instances[i] == (InstanceV {
            commands: d.instances[i].commands.push(Command::Shutdown),
            ..d.instances[i]
        }),
        d.stopped().routes.len() == 0,
        d.stopped().leases.len() == 0,
        d.stopped().shutting_down,
        crate::proxy::port_of(d.stopped().registry, host) is None,
{
    let none = Seq::<(Seq<char>, u16)>::empty();
    assert(crate::proxy::unique_hosts(none));
    crate::daemon::laws::resync_agrees(d.registry, none, host);
}

/// The instances that are told to stop are those of the directory, in order.
pub proof fn stopped_listed(a: Seq<InstanceV>, x: InstanceV, dir: Seq<char>)
    ensures
        x.state.dir == dir ==> states_in(a.push(x), dir) == states_in(a, dir).push(x.state),
        x.state.dir != dir ==> states_in(a.push(x), dir) == states_in(a, dir),
        states_in(Seq::empty(), dir).len() == 0,
{
    assert(a.push(x).drop_last() =~= a);
}

/// A route that is registered is there, as the only one of its hostname; the routes of all
/// other hostnames stay.
pub proof fn route_told(d: DaemonV, id: Seq<char>, hostname: Seq<char>, port: u16, x: RouteV)
    ensures
        d.routed(id, hostname, port).routes.contains(x) <==> (x.hostname == hostname && x.port
            == port && x.instance == id) || (d.routes.contains(x) && x.hostname != hostname),
        d.unrouted(hostname).routes.contains(x) <==> d.routes.contains(x) && x.hostname != hostname,
        d.routed(id, hostname, port).instances == d.instances,
{
    elsewhere_told(d.routes, hostname, x);
    let rest = routes_elsewhere(d.routes, hostname);
    let new = RouteV { hostname, port, instance: id };
    let all = rest.push(new);
    if all.contains(x) {
        let i = choose|i: int| 0 <= i < all.len() && all[i] == x;
        if i < rest.len() {
            assert(rest[i] == x);
        }
    }
    if rest.contains(x) {
        let i = choose|i: int| 0 <= i < rest.len() && rest[i] == x;
        assert(all[i] == x);
    }
    if x.hostname == hostname && x.port == port && x.instance == id {
        assert(all[rest.len() as int] == x);
    }
}

proof fn elsewhere_told(v: Seq<RouteV>, hostname: Seq<char>, x: RouteV)
    ensures
        routes_elsewhere(v, hostname).contains(x) <==> v.contains(x) && x.hostname != hostname,
    decreases v.len(),
{
    if v.len() > 0 {
        let d = v.drop_last();
        let rest = routes_elsewhere(d, hostname);
        let all = routes_elsewhere(v, hostname);
        elsewhere_told(d, hostname, x);
        assert(v.last() == v[v.len() - 1]);
        if all.contains(x) && !rest.contains(x) {
            let i = choose|i: int| 0 <= i < all.len() && all[i] == x;
            if i < rest.len() {
                assert(rest[i] == x);
            }
        }
        if rest.contains(x) {
            let i = choose|i: int| 0 <= i < rest.len() && rest[i] == x;
            assert(all[i] == x);
            let j = choose|j: int| 0 <= j < d.len() && d[j] == x;
            assert(v[j] == x);
        }
        if v.contains(x) && x.hostname != hostname {
            let j = choose|j: int| 0 <= j < v.len() && v[j] == x;
            if j < d.len() {
                assert(d[j] == x);
            } else {
                assert(all[rest.len() as int] == x);
            }
        }
    }
}

/// A port that another route still leads to stays leased when a route is removed, and a
/// hostname that has no route changes no lease.
pub proof fn lease_outlives_route(d: DaemonV, hostname: Seq<char>, port: u16)
    ensures
        crate::proxy::port_of(crate::daemon::state::targets(d.routes), hostname) == Some(port) && (
        exists|i: int|
            0 <= i < routes_elsewhere(d.routes, hostname).len() && (#[trigger] routes_elsewhere(
                d.routes,
                hostname,
            )[i]).port == port) ==> d.unrouted(hostname).leases == d.leases,
        crate::proxy::port_of(crate::daemon::state::targets(d.routes), hostname) is None
            ==> d.unrouted(hostname).leases == d.leases,
{
}

/// The objects that are asked for are those of all instances, in order, but for those of
/// another kind.
pub proof fn objects_gathered(
    a: Seq<InstanceV>,
    x: InstanceV,
    objects: Seq<SnapshotV>,
    o: SnapshotV,
    kind: Seq<char>,
)
    ensures
        gathered_objects(a.push(x), Some(kind)) == gathered_objects(a, Some(kind))
            + wanted_objects(x.state.objects, Some(kind)),
        gathered_objects(a.push(x), None) == gathered_objects(a, None) + wanted_objects(
            x.state.objects,
            None,
        ),
        o.kind == kind ==> wanted_objects(objects.push(o), Some(kind)) == wanted_objects(
            objects,
            Some(kind),
        ).push(o),
        o.kind != kind ==> wanted_objects(objects.push(o), Some(kind)) == wanted_objects(
            objects,
            Some(kind),
        ),
        wanted_objects(objects, None) == objects,
        gathered_objects(Seq::empty(), None).len() == 0,
    decreases objects.len(),
{
    assert(a.push(x).drop_last() =~= a);
    assert(objects.push(o).drop_last() =~= objects);
    if objects.len() > 0 {
        objects_gathered(a, x, objects.drop_last(), o, kind);
        assert(objects.drop_last().push(objects.last()) =~= objects);
    } else {
        assert(wanted_objects(objects, None) =~= objects);
    }
}

/// What is reported of a resource's logs can be read, by its name, and no other log
/// changes.
pub proof fn lines_logged(
    logs: Seq<(Seq<char>, RingV)>,
    resource: Seq<char>,
    lines: Seq<Seq<char>>,
    other: Seq<char>,
)
    ensures
        ({
            let t = ring_appended(logs, resource, lines);
            &&& ring_index(t, resource, 0) is Some
            &&& t[ring_index(t, resource, 0)->0].1 == (match ring_index(logs, resource, 0) {
                Some(i) => logs[i].1.appended(lines),
                None => (RingV { lines: Seq::empty(), start: 0 }).appended(lines),
            })
            &&& other != resource ==> ring_index(t, other, 0) == ring_index(logs, other, 0)
            &&& other != resource && ring_index(logs, other, 0) is Some ==> t[ring_index(
                t,
                other,
                0,
            )->0] == logs[ring_index(logs, other, 0)->0]
        }),
{
    let t = ring_appended(logs, resource, lines);
    ring_first(logs, resource, 0);
    ring_first(t, resource, 0);
    ring_first(logs, other, 0);
    ring_first(t, other, 0);
    match ring_index(logs, resource, 0) {
        Some(i) => {
            assert(t[i].0 == resource);
            if let Some(k) = ring_index(t, resource, 0) {
                if k < i {
                    assert(t[k] == logs[k]);
                }
            }
        },
        None => {
            assert(t[logs.len() as int].0 == resource);
            if let Some(k) = ring_index(t, resource, 0) {
                if k < logs.len() {
                    assert(t[k] == logs[k]);
                }
            }
        },
    }
    if other != resource {
        if let Some(k) = ring_index(logs, other, 0) {
            assert(t[k] == logs[k]);
            if let Some(m) = ring_index(t, other, 0) {
                if m < k {
                    assert(t[m].0 == logs[m].0);
                }
            }
        } else if let Some(m) = ring_index(t, other, 0) {
            if m < logs.len() {
                assert(t[m].0 == logs[m].0);
            }
        }
    }
}

proof fn ring_first(v: Seq<(Seq<char>, RingV)>, name: Seq<char>, from: int)
    requires
        0 <= from,
    ensures
        match ring_index(v, name, from) {
            Some(i) => from <= i < v.len() && v[i].0 == name && forall|j: int|
                from <= j < i ==> (#[trigger] v[j]).0 != name,
            None => forall|j: int| from <= j < v.len() ==> (#[trigger] v[j]).0 != name,
        },
    decreases v.len() - from,
{
    if from < v.len() && v[from].0 != name {
        ring_first(v, name, from + 1);
    }
}

/// A log keeps its last lines, four hundred of them where there are so many and all where
/// there are not, in order.
pub proof fn ring_full(ring: RingV, lines: Seq<Seq<char>>, k: int)
    requires
        ring.lines.len() <= 400,
    ensures
        ring.lines.len() + lines.len() <= 400 ==> ring.appended(lines).lines == ring.lines + lines,
        ring.lines.len() + lines.len() >= 400 ==> ring.appended(lines).lines.len() == 400,
        0 <= k < ring.appended(lines).lines.len() ==> ring.appended(
            lines,
        ).lines[ring.appended(lines).lines.len() - 1 - k] == (ring.lines + lines)[ring.lines.len()
            + lines.len() - 1 - k],
{
    let all = ring.lines + lines;
    if all.len() <= 400 {
        assert(all.skip(0) =~= all);
    }
}

/// An instance is given up when it was not heard of for more than ten seconds, and not
/// before; fifty offers of the host are tried before a port is given up.
pub proof fn patience_told(
    a: Seq<InstanceV>,
    x: InstanceV,
    now: u64,
    leases: Seq<(u16, Seq<char>)>,
    offers: Seq<Option<u16>>,
    port: u16,
    i: int,
)
    ensures
        now - x.last_seen > 10000 ==> dead_ids(a.push(x), now) == dead_ids(a, now).push(x.state.id),
        now - x.last_seen <= 10000 ==> dead_ids(a.push(x), now) == dead_ids(a, now),
        dead_ids(Seq::empty(), now).len() == 0,
        0 <= i < offers.len() && i < 50 && offers[i] == Some(port)
            && crate::daemon::state::owner_of(leases, port) is None && (forall|j: int|
            0 <= j < i ==> (#[trigger] offers[j]) is None) ==> reservation(
            leases,
            None,
            false,
            offers,
        ) is Some && reservation(leases, None, false, offers)->0.port == port && !reservation(
            leases,
            None,
            false,
            offers,
        )->0.conflict,
{
    assert(a.push(x).drop_last() =~= a);
    if 0 <= i < offers.len() && i < 50 && offers[i] == Some(port)
        && crate::daemon::state::owner_of(leases, port) is None && forall|j: int|
        0 <= j < i ==> (#[trigger] offers[j]) is None {
        offered(leases, offers, port, i, 0);
    }
}

proof fn offered(
    leases: Seq<(u16, Seq<char>)>,
    offers: Seq<Option<u16>>,
    port: u16,
    i: int,
    from: int,
)
    requires
        0 <= from <= i < offers.len(),
        i < 50,
        offers[i] == Some(port),
        crate::daemon::state::owner_of(leases, port) is None,
        forall|j: int| 0 <= j < i ==> (#[trigger] offers[j]) is None,
    ensures
        crate::daemon::state::first_unleased(leases, offers, from) == Some(port),
    decreases i - from,
{
    if from < i {
        assert(offers[from] is None);
        offered(leases, offers, port, i, from + 1);
    }
}

/// The id of an instance is its name, as far as it is made of letters and digits, and a
/// number; other signs become hyphens, none at the ends; without any letter it is `app`.
pub proof fn ids_told(name: Seq<char>, n: nat)
    ensures
        name.len() > 0 && (forall|i: int| 0 <= i < name.len() ==> is_alnum(#[trigger] name[i]))
            ==> instance_id(name, n) == name + "-"@ + dec(n),
        (forall|i: int| 0 <= i < name.len() ==> !is_alnum(#[trigger] name[i])) ==> instance_id(
            name,
            n,
        ) == "app-"@ + dec(n),
        name.len() > 0 && is_alnum(name[0]) && is_alnum(name.last()) ==> id_stem(name).len()
            == name.len() && forall|i: int|
            0 <= i < name.len() ==> #[trigger] id_stem(name)[i] == (if is_alnum(name[i]) {
                name[i]
            } else {
                '-'
            }),
{
    let s = crate::daemon::state::dashed(name);
    if name.len() > 0 && is_alnum(name[0]) && is_alnum(name.last()) {
        assert(s[0] == name[0] && s.last() == name.last());
        assert(s[0] != '-' && s.last() != '-');
        assert(trim_both(s, Class::Is('-')) == s);
    }
    if name.len() > 0 && forall|i: int| 0 <= i < name.len() ==> is_alnum(#[trigger] name[i]) {
        assert(is_alnum(name[0]) && is_alnum(name[name.len() - 1]));
        assert(s =~= name);
        assert(s[0] != '-' && s.last() != '-');
        assert(trim_both(s, Class::Is('-')) == s);
    }
    if forall|i: int| 0 <= i < name.len() ==> !is_alnum(#[trigger] name[i]) {
        assert forall|i: int| 0 <= i < s.len() implies #[trigger] s[i] == '-' by {
            assert(!is_alnum(name[i]));
        }
        all_trimmed(s);
        reveal_strlit("app");
        reveal_strlit("-");
        reveal_strlit("app-");
        assert("app"@ + "-"@ + dec(n) =~= "app-"@ + dec(n));
    }
}

proof fn all_trimmed(s: Seq<char>)
    requires
        forall|i: int| 0 <= i < s.len() ==> #[trigger] s[i] == '-',
    ensures
        trim_both(s, Class::Is('-')).len() == 0,
    decreases s.len(),
{
    if s.len() > 0 {
        assert(s[0] == '-');
        let d = s.drop_first();
        assert forall|i: int| 0 <= i < d.len() implies #[trigger] d[i] == '-' by {
            assert(d[i] == s[i + 1]);
        }
        all_trimmed(d);
    }
}

/// A request about an instance that is not known is refused, and one about an instance that
/// is known is taken.
pub proof fn unknown_refused(
    d: DaemonV,
    id: String,
    resource: String,
    port: u16,
    paused: bool,
    args: Vec<String>,
    now: u64,
    host: HostPorts,
    r: crate::daemon::protocol::Response,
)
    ensures
        answers(d, Request::Trigger { instance: id, resource }, now, host, r) || answers(
            d,
            Request::Restart { instance: id, resource },
            now,
            host,
            r,
        ) || answers(d, Request::SetPort { instance: id, resource, port }, now, host, r) || answers(
            d,
            Request::SetPaused { instance: id, resource, paused },
            now,
            host,
            r,
        ) || answers(d, Request::SetTiltfileArgs { instance: id, args }, now, host, r) ==> {
            &&& d.instance(id@) is Some ==> r is Done
            &&& d.instance(id@) is None ==> (r matches crate::daemon::protocol::Response::Error(e)
                && e@ == "unknown instance "@ + id@)
        },
{
}

/// What is asked of the daemon itself is answered with what it knows: the id of a new
/// instance, the ports that it gives, the commands that wait, and the state that is left
/// when instances that are gone were taken out.
pub proof fn answers_told(
    d: DaemonV,
    name: String,
    dir: String,
    pid: u32,
    id: String,
    preferred: Option<u16>,
    now: u64,
    host: HostPorts,
    r: crate::daemon::protocol::Response,
)
    ensures
        answers(d, Request::Register { name, dir, pid }, now, host, r) ==> (r matches
            crate::daemon::protocol::Response::Registered { instance } && instance@ == instance_id(
            name@,
            d.seq + 1,
        )),
        answers(d, Request::ReservePort { instance: id, preferred }, now, host, r) ==> {
            &&& reservation(d.leases, preferred, host.preferred_free, host.offers@) is None ==> r
                is Error
            &&& reservation(d.leases, preferred, host.preferred_free, host.offers@) matches Some(p)
                ==> (r matches crate::daemon::protocol::Response::ReservedPort {
                port,
                preferred: asked,
                conflict,
            } && port == p.port && asked == p.preferred && conflict == p.conflict)
        },
        answers(d, Request::PollCommands { instance: id }, now, host, r) ==> (r matches
            crate::daemon::protocol::Response::Commands(c) && (d.instance(id@) matches Some(i)
            ==> c@ == i.commands) && (d.instance(id@) is None ==> c@.len() == 0)),
        answers(d, Request::GetState, now, host, r) ==> (r matches
            crate::daemon::protocol::Response::State(s) && s.instances@.len() == d.pruned(
            now,
        ).instances.len() && s.routes@.len() == d.pruned(now).routes.len() && s.proxy_port
            == d.proxy_port),
        answers(d, Request::Ping, now, host, r) ==> r is Done,
{
    if answers(d, Request::GetState, now, host, r) {
        if let crate::daemon::protocol::Response::State(s) = r {
            assert(crate::daemon::protocol::states_view(s.instances@).len() == s.instances@.len());
            assert(crate::daemon::protocol::infos_view(s.routes@).len() == s.routes@.len());
            assert(crate::daemon::state::states_of(d.pruned(now).instances).len() == d.pruned(
                now,
            ).instances.len());
        }
    }
}

/// The daemon reads as well as it is told: asking for state takes out what is gone, asking
/// for logs or objects changes nothing.
pub proof fn reading_changes_nothing(
    d: DaemonV,
    id: String,
    resource: String,
    since: u64,
    kind: Option<String>,
    now: u64,
    host: HostPorts,
)
    ensures
        next_state(d, Request::Ping, now, host) == d,
        next_state(d, Request::GetLogs { instance: id, resource, since }, now, host) == d,
        next_state(d, Request::GetObjects { kind }, now, host) == d,
        next_state(d, Request::GetState, now, host) == d.pruned(now),
        next_state(d, Request::Deregister { instance: id }, now, host) == d.left_by(seq![id@]),
        next_state(d, Request::ShutdownDaemon, now, host).shutting_down,
{
}

/// Logs that are reported together are taken one batch after the other.
pub proof fn batches_in_order(
    logs: Seq<(Seq<char>, RingV)>,
    a: Seq<(Seq<char>, Seq<Seq<char>>)>,
    b: Seq<(Seq<char>, Seq<Seq<char>>)>,
    resource: Seq<char>,
    lines: Seq<Seq<char>>,
)
    ensures
        crate::daemon::state::rings_appended(logs, a + b) == crate::daemon::state::rings_appended(
            crate::daemon::state::rings_appended(logs, a),
            b,
        ),
        crate::daemon::state::rings_appended(logs, seq![(resource, lines)]) == ring_appended(
            logs,
            resource,
            lines,
        ),
        crate::daemon::state::rings_appended(logs, Seq::empty()) == logs,
    decreases b.len(),
{
    let one = seq![(resource, lines)];
    assert(one.drop_last() =~= Seq::empty());
    assert(one.last() == (resource, lines));
    reveal_with_fuel(crate::daemon::state::rings_appended, 2);
    if b.len() > 0 {
        assert((a + b).drop_last() =~= a + b.drop_last());
        assert((a + b).last() == b.last());
        batches_in_order(logs, a, b.drop_last(), resource, lines);
    } else {
        assert(a + b =~= a);
    }
}

/// The daemon is started with its port, domain and host, and with TLS and the local network
/// just where they are asked for.
pub proof fn daemon_started_with(port: u16, tld: Seq<char>, host: Seq<char>)
    ensures
        crate::daemon::client::daemon_args_of(port, tld, host, false, false) == seq![
            "daemon"@,
            "--proxy-port"@,
            dec(port as nat),
            "--tld"@,
            tld,
            "--host"@,
            host,
        ],
        crate::daemon::client::daemon_args_of(port, tld, host, true, false)
            == crate::daemon::client::daemon_args_of(port, tld, host, false, false).push("--tls"@),
        crate::daemon::client::daemon_args_of(port, tld, host, false, true)
            == crate::daemon::client::daemon_args_of(port, tld, host, false, false).push("--lan"@),
        crate::daemon::client::daemon_args_of(port, tld, host, true, true)
            == crate::daemon::client::daemon_args_of(port, tld, host, true, false).push("--lan"@),
{
}

} // verus!
