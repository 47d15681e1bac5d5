//! The state of the daemon and what each request does to it.

use vstd::prelude::*;
use vstd::string::*;

use crate::daemon::log_ring::{LogRing, RingV};
use crate::daemon::protocol::{
    infos_view, snapshots_view, states_view, ApiObjectSnapshot, Command, DashboardState,
    InstanceState, InstanceStateV, Request, ResourceSnapshot, Response, RouteInfo, RouteV,
    SnapshotV,
};
use crate::proxy::{port_of, registered, routes_view, routes_without, PortReservation, ProxyRegistry};
use crate::text::{
    alnum, cat, cat3, chars_of, dec, decimal, is_alnum, owned, same, string_of, texts, trim_both,
    trimmed_both, Class,
};

verus! {

/// Instances that were not heard of for longer than this, in milliseconds, are
/// dropped.
pub const INSTANCE_TTL: u64 = 10000;

/// What the daemon keeps of an instance, as a mathematical object.
pub struct InstanceV {
    pub state: InstanceStateV,
    pub logs: Seq<(Seq<char>, RingV)>,
    pub commands: Seq<Command>,
    pub last_seen: u64,
}

/// What the daemon keeps of an instance. Times are in milliseconds.
#[derive(Debug)]
pub struct Instance {
    pub state: InstanceState,
    pub logs: Vec<(String, LogRing)>,
    pub commands: Vec<Command>,
    pub last_seen: u64,
}

/// The rings of an instance, each with the name of its resource.
pub open spec fn logs_view(v: Seq<(String, LogRing)>) -> Seq<(Seq<char>, RingV)> {
    v.map_values(|e: (String, LogRing)| (e.0@, e.1@))
}

impl View for Instance {
    type V = InstanceV;

    open spec fn view(&self) -> InstanceV {
        InstanceV {
            state: self.state@,
            logs: logs_view(self.logs@),
            commands: self.commands@,
            last_seen: self.last_seen,
        }
    }
}

/// The contents of a list of instances.
pub open spec fn instances_view(v: Seq<Instance>) -> Seq<InstanceV> {
    v.map_values(|i: Instance| i@)
}

/// The daemon as a mathematical object.
pub struct DaemonV {
    pub instances: Seq<InstanceV>,
    pub seq: nat,
    pub leases: Seq<(u16, Seq<char>)>,
    pub routes: Seq<RouteV>,
    pub shutting_down: bool,
    pub registry: Seq<(Seq<char>, u16)>,
    pub proxy_port: u16,
    pub tld: Seq<char>,
}

/// The contents of a list of leases: ports and their owners.
pub open spec fn leases_view(v: Seq<(u16, String)>) -> Seq<(u16, Seq<char>)> {
    v.map_values(|e: (u16, String)| (e.0, e.1@))
}

/// The owner of a leased port.
pub open spec fn owner_of(leases: Seq<(u16, Seq<char>)>, port: u16) -> Option<Seq<char>>
    decreases leases.len(),
{
    if leases.len() == 0 {
        None
    } else if leases[0].0 == port {
        Some(leases[0].1)
    } else {
        owner_of(leases.drop_first(), port)
    }
}

/// The leases of the other ports.
pub open spec fn lease_dropped(leases: Seq<(u16, Seq<char>)>, port: u16) -> Seq<(u16, Seq<char>)>
    decreases leases.len(),
{
    if leases.len() == 0 {
        Seq::empty()
    } else {
        let rest = lease_dropped(leases.drop_last(), port);
        if leases.last().0 == port {
            rest
        } else {
            rest.push(leases.last())
        }
    }
}

/// The leases after the port was given to the owner.
pub open spec fn lease_given(
    leases: Seq<(u16, Seq<char>)>,
    port: u16,
    owner: Seq<char>,
) -> Seq<(u16, Seq<char>)> {
    lease_dropped(leases, port).push((port, owner))
}

/// The leases whose owners are not among the given ones.
pub open spec fn leases_without(
    leases: Seq<(u16, Seq<char>)>,
    owners: Seq<Seq<char>>,
) -> Seq<(u16, Seq<char>)>
    decreases leases.len(),
{
    if leases.len() == 0 {
        Seq::empty()
    } else {
        let rest = leases_without(leases.drop_last(), owners);
        if owners.contains(leases.last().1) {
            rest
        } else {
            rest.push(leases.last())
        }
    }
}

/// The routes whose instances are not among the given ones.
pub open spec fn routes_left(routes: Seq<RouteV>, owners: Seq<Seq<char>>) -> Seq<RouteV>
    decreases routes.len(),
{
    if routes.len() == 0 {
        Seq::empty()
    } else {
        let rest = routes_left(routes.drop_last(), owners);
        if owners.contains(routes.last().instance) {
            rest
        } else {
            rest.push(routes.last())
        }
    }
}

/// The routes with another hostname.
pub open spec fn routes_elsewhere(routes: Seq<RouteV>, hostname: Seq<char>) -> Seq<RouteV>
    decreases routes.len(),
{
    if routes.len() == 0 {
        Seq::empty()
    } else {
        let rest = routes_elsewhere(routes.drop_last(), hostname);
        if routes.last().hostname == hostname {
            rest
        } else {
            rest.push(routes.last())
        }
    }
}

/// The hostnames of the routes with their ports.
pub open spec fn targets(routes: Seq<RouteV>) -> Seq<(Seq<char>, u16)> {
    routes.map_values(|r: RouteV| (r.hostname, r.port))
}

/// Whether a route leads to the port.
pub open spec fn port_in_use(routes: Seq<RouteV>, port: u16) -> bool {
    exists|i: int| 0 <= i < routes.len() && (#[trigger] routes[i]).port == port
}

/// The registry entries whose hostnames are among those of the routes.
pub open spec fn known_entries(
    registry: Seq<(Seq<char>, u16)>,
    routes: Seq<(Seq<char>, u16)>,
) -> Seq<(Seq<char>, u16)>
    decreases registry.len(),
{
    if registry.len() == 0 {
        Seq::empty()
    } else {
        let rest = known_entries(registry.drop_last(), routes);
        if port_of(routes, registry.last().0) is Some {
            rest.push(registry.last())
        } else {
            rest
        }
    }
}

/// The registry after every route was registered, in order.
pub open spec fn all_registered(
    registry: Seq<(Seq<char>, u16)>,
    routes: Seq<(Seq<char>, u16)>,
) -> Seq<(Seq<char>, u16)>
    decreases routes.len(),
{
    if routes.len() == 0 {
        registry
    } else {
        let before = all_registered(registry, routes.drop_last());
        registered(before, routes.last().0, routes.last().1)
    }
}

/// The registry brought in line with the routes: what they do not name is taken
/// out, what they name is registered.
pub open spec fn resynced(
    registry: Seq<(Seq<char>, u16)>,
    routes: Seq<(Seq<char>, u16)>,
) -> Seq<(Seq<char>, u16)> {
    all_registered(known_entries(registry, routes), routes)
}

/// The index, not before `from`, of the instance with the id.
pub open spec fn instance_index(instances: Seq<InstanceV>, id: Seq<char>, from: int) -> Option<int>
    decreases instances.len() - from,
{
    if from < 0 || from >= instances.len() {
        None
    } else if instances[from].state.id == id {
        Some(from)
    } else {
        instance_index(instances, id, from + 1)
    }
}

/// The index, not before `from`, of the resource's ring.
pub open spec fn ring_index(
    logs: Seq<(Seq<char>, RingV)>,
    resource: Seq<char>,
    from: int,
) -> Option<int>
    decreases logs.len() - from,
{
    if from < 0 || from >= logs.len() {
        None
    } else if logs[from].0 == resource {
        Some(from)
    } else {
        ring_index(logs, resource, from + 1)
    }
}

/// The rings after lines of one resource were appended; a resource without a ring
/// gets one.
pub open spec fn ring_appended(
    logs: Seq<(Seq<char>, RingV)>,
    resource: Seq<char>,
    lines: Seq<Seq<char>>,
) -> Seq<(Seq<char>, RingV)> {
    match ring_index(logs, resource, 0) {
        Some(i) => logs.update(i, (resource, logs[i].1.appended(lines))),
        None => logs.push((resource, RingV::empty().appended(lines))),
    }
}

/// The contents of log lines under the names of their resources.
pub open spec fn batches_view(v: Seq<(String, Vec<String>)>) -> Seq<(Seq<char>, Seq<Seq<char>>)> {
    v.map_values(|e: (String, Vec<String>)| (e.0@, texts(e.1@)))
}

/// The rings after all batches were appended, in order.
pub open spec fn rings_appended(
    logs: Seq<(Seq<char>, RingV)>,
    batches: Seq<(Seq<char>, Seq<Seq<char>>)>,
) -> Seq<(Seq<char>, RingV)>
    decreases batches.len(),
{
    if batches.len() == 0 {
        logs
    } else {
        ring_appended(
            rings_appended(logs, batches.drop_last()),
            batches.last().0,
            batches.last().1,
        )
    }
}

/// The number of lines in the batches.
pub open spec fn lines_in(batches: Seq<(Seq<char>, Seq<Seq<char>>)>) -> nat
    decreases batches.len(),
{
    if batches.len() == 0 {
        0
    } else {
        lines_in(batches.drop_last()) + batches.last().1.len()
    }
}

/// The name with every character but ASCII letters and digits made a hyphen.
pub open spec fn dashed(name: Seq<char>) -> Seq<char> {
    name.map_values(
        |c: char|
            if is_alnum(c) {
                c
            } else {
                '-'
            },
    )
}

/// The part of an instance id that comes from its name.
pub open spec fn id_stem(name: Seq<char>) -> Seq<char> {
    let s = trim_both(dashed(name), Class::Is('-'));
    if s.len() == 0 {
        "app"@
    } else {
        s
    }
}

/// The id of the instance with the given number.
pub open spec fn instance_id(name: Seq<char>, n: nat) -> Seq<char> {
    id_stem(name) + "-"@ + dec(n)
}

/// Makes a name the beginning of an instance id.
pub fn sanitize(name: &str) -> (r: String)
    ensures
        r@ == id_stem(name@),
{
    let cs = chars_of(name);
    let mut out: Vec<char> = Vec::new();
    let mut i: usize = 0;
    while i < cs.len()
        invariant
            i <= cs@.len(),
            cs@ == name@,
            out@ =~= dashed(name@).take(i as int),
        decreases cs@.len() - i,
    {
        out.push(
            if alnum(cs[i]) {
                cs[i]
            } else {
                '-'
            },
        );
        i += 1;
    }
    assert(out@ =~= dashed(name@));
    let s = trimmed_both(string_of(out.as_slice()).as_str(), Class::Is('-'));
    if s.as_str().is_empty() {
        owned("app")
    } else {
        s
    }
}

/// How often a free port is asked of the host for one reservation.
pub const PORT_TRIES: usize = 50;

/// What the host says of its ports: whether the preferred one can be bound, and what it
/// offered each time that it was asked for a free one. It offers nothing where it has
/// none.
#[derive(Debug)]
pub struct HostPorts {
    pub preferred_free: bool,
    pub offers: Vec<Option<u16>>,
}

/// The first of the offered ports, not before `from`, that is not leased. No more than
/// the allowed number of offers is looked at.
pub open spec fn first_unleased(
    leases: Seq<(u16, Seq<char>)>,
    offers: Seq<Option<u16>>,
    from: int,
) -> Option<u16>
    decreases offers.len() - from,
{
    if from < 0 || from >= offers.len() || from >= PORT_TRIES {
        None
    } else {
        match offers[from] {
            Some(p) if owner_of(leases, p) is None => Some(p),
            _ => first_unleased(leases, offers, from + 1),
        }
    }
}

/// What comes next in the search for a port.
#[derive(Debug, Clone, Copy, PartialEq, Eq, Structural)]
pub enum SearchStep {
    /// The host is asked for another free port.
    Ask,
    /// What the host offered decides.
    Settle,
}

/// What comes next in the search for a port: another is asked for where nothing can be
/// reserved yet and the host was not asked too often.
pub open spec fn search_next(found: Option<PortReservation>, tries: nat) -> SearchStep {
    if found is None && tries < PORT_TRIES {
        SearchStep::Ask
    } else {
        SearchStep::Settle
    }
}

/// Which port is reserved: the preferred one where it is neither leased nor in
/// use, else the first offered one that is not leased.
pub open spec fn reservation(
    leases: Seq<(u16, Seq<char>)>,
    preferred: Option<u16>,
    preferred_free: bool,
    offers: Seq<Option<u16>>,
) -> Option<PortReservation> {
    match preferred {
        Some(p) if owner_of(leases, p) is None && preferred_free => Some(
            PortReservation { port: p, preferred, conflict: false },
        ),
        _ => match first_unleased(leases, offers, 0) {
            Some(port) => Some(PortReservation { port, preferred, conflict: preferred is Some }),
            None => None,
        },
    }
}

/// The instances whose ids are not among the given ones.
pub open spec fn instances_left(instances: Seq<InstanceV>, ids: Seq<Seq<char>>) -> Seq<InstanceV>
    decreases instances.len(),
{
    if instances.len() == 0 {
        Seq::empty()
    } else {
        let rest = instances_left(instances.drop_last(), ids);
        if ids.contains(instances.last().state.id) {
            rest
        } else {
            rest.push(instances.last())
        }
    }
}

/// Whether the text is among the others.
pub fn among(s: &str, v: &Vec<String>) -> (r: bool)
    ensures
        r == texts(v@).contains(s@),
{
    let mut i: usize = 0;
    while i < v.len()
        invariant
            i <= v@.len(),
            forall|j: int| 0 <= j < i ==> texts(v@)[j] != s@,
        decreases v@.len() - i,
    {
        if same(v[i].as_str(), s) {
            assert(texts(v@)[i as int] == s@);
            return true;
        }
        i += 1;
    }
    false
}

/// Ends the lease of a port.
fn drop_lease(v: &mut Vec<(u16, String)>, port: u16)
    ensures
        leases_view(final(v)@) == lease_dropped(leases_view(old(v)@), port),
{
    let ghost all = leases_view(v@);
    let ghost mut done: int = 0;
    let mut i: usize = 0;
    proof {
        assert(lease_dropped(all.take(0), port) =~= Seq::empty());
        assert(all =~= lease_dropped(all.take(0), port) + all.skip(0));
    }
    while i < v.len()
        invariant
            all == leases_view(old(v)@),
            0 <= done <= all.len(),
            i == lease_dropped(all.take(done), port).len(),
            leases_view(v@) == lease_dropped(all.take(done), port) + all.skip(done),
        decreases v@.len() - i,
    {
        let ghost before = v@;
        let ghost kept = lease_dropped(all.take(done), port);
        proof {
            assert(leases_view(v@)[i as int] == all.skip(done)[0]);
            assert(all.skip(done)[0] == all[done]);
            assert(all.take(done + 1).drop_last() =~= all.take(done));
            assert(all.take(done + 1).last() == all[done]);
        }
        if v[i].0 == port {
            v.remove(i);
            proof {
                assert(leases_view(v@) =~= leases_view(before).remove(i as int));
                assert(leases_view(v@) =~= kept + all.skip(done + 1));
            }
        } else {
            proof {
                assert(leases_view(v@) =~= kept.push(all[done]) + all.skip(done + 1));
            }
            i += 1;
        }
        proof {
            done = done + 1;
        }
    }
    proof {
        let kept = lease_dropped(all.take(done), port);
        assert(leases_view(v@).len() == kept.len() + all.skip(done).len());
        assert(all.take(done) =~= all);
        assert(leases_view(v@) =~= kept);
    }
}

/// Ends the leases of the owners.
fn drop_leases_of(v: &mut Vec<(u16, String)>, owners: &Vec<String>)
    ensures
        leases_view(final(v)@) == leases_without(leases_view(old(v)@), texts(owners@)),
{
    let ghost all = leases_view(v@);
    let ghost mut done: int = 0;
    let mut i: usize = 0;
    proof {
        assert(leases_without(all.take(0), texts(owners@)) =~= Seq::empty());
        assert(all =~= leases_without(all.take(0), texts(owners@)) + all.skip(0));
    }
    while i < v.len()
        invariant
            all == leases_view(old(v)@),
            0 <= done <= all.len(),
            i == leases_without(all.take(done), texts(owners@)).len(),
            leases_view(v@) == leases_without(all.take(done), texts(owners@)) + all.skip(done),
        decreases v@.len() - i,
    {
        let ghost before = v@;
        let ghost kept = leases_without(all.take(done), texts(owners@));
        proof {
            assert(leases_view(v@)[i as int] == all.skip(done)[0]);
            assert(all.skip(done)[0] == all[done]);
            assert(all.take(done + 1).drop_last() =~= all.take(done));
            assert(all.take(done + 1).last() == all[done]);
        }
        if among(v[i].1.as_str(), owners) {
            v.remove(i);
            proof {
                assert(leases_view(v@) =~= leases_view(before).remove(i as int));
                assert(leases_view(v@) =~= kept + all.skip(done + 1));
            }
        } else {
            proof {
                assert(leases_view(v@) =~= kept.push(all[done]) + all.skip(done + 1));
            }
            i += 1;
        }
        proof {
            done = done + 1;
        }
    }
    proof {
        let kept = leases_without(all.take(done), texts(owners@));
        assert(leases_view(v@).len() == kept.len() + all.skip(done).len());
        assert(all.take(done) =~= all);
        assert(leases_view(v@) =~= kept);
    }
}

/// Takes out the routes of the instances.
fn drop_routes_of(v: &mut Vec<RouteInfo>, owners: &Vec<String>)
    ensures
        infos_view(final(v)@) == routes_left(infos_view(old(v)@), texts(owners@)),
{
    let ghost all = infos_view(v@);
    let ghost mut done: int = 0;
    let mut i: usize = 0;
    proof {
        assert(routes_left(all.take(0), texts(owners@)) =~= Seq::empty());
        assert(all =~= routes_left(all.take(0), texts(owners@)) + all.skip(0));
    }
    while i < v.len()
        invariant
            all == infos_view(old(v)@),
            0 <= done <= all.len(),
            i == routes_left(all.take(done), texts(owners@)).len(),
            infos_view(v@) == routes_left(all.take(done), texts(owners@)) + all.skip(done),
        decreases v@.len() - i,
    {
        let ghost before = v@;
        let ghost kept = routes_left(all.take(done), texts(owners@));
        proof {
            assert(infos_view(v@)[i as int] == all.skip(done)[0]);
            assert(all.skip(done)[0] == all[done]);
            assert(all.take(done + 1).drop_last() =~= all.take(done));
            assert(all.take(done + 1).last() == all[done]);
        }
        if among(v[i].instance.as_str(), owners) {
            v.remove(i);
            proof {
                assert(infos_view(v@) =~= infos_view(before).remove(i as int));
                assert(infos_view(v@) =~= kept + all.skip(done + 1));
            }
        } else {
            proof {
                assert(infos_view(v@) =~= kept.push(all[done]) + all.skip(done + 1));
            }
            i += 1;
        }
        proof {
            done = done + 1;
        }
    }
    proof {
        let kept = routes_left(all.take(done), texts(owners@));
        assert(infos_view(v@).len() == kept.len() + all.skip(done).len());
        assert(all.take(done) =~= all);
        assert(infos_view(v@) =~= kept);
    }
}

/// Takes out the routes with the hostname.
fn drop_route(v: &mut Vec<RouteInfo>, hostname: &str)
    ensures
        infos_view(final(v)@) == routes_elsewhere(infos_view(old(v)@), hostname@),
{
    let ghost all = infos_view(v@);
    let ghost mut done: int = 0;
    let mut i: usize = 0;
    proof {
        assert(routes_elsewhere(all.take(0), hostname@) =~= Seq::empty());
        assert(all =~= routes_elsewhere(all.take(0), hostname@) + all.skip(0));
    }
    while i < v.len()
        invariant
            all == infos_view(old(v)@),
            0 <= done <= all.len(),
            i == routes_elsewhere(all.take(done), hostname@).len(),
            infos_view(v@) == routes_elsewhere(all.take(done), hostname@) + all.skip(done),
        decreases v@.len() - i,
    {
        let ghost before = v@;
        let ghost kept = routes_elsewhere(all.take(done), hostname@);
        proof {
            assert(infos_view(v@)[i as int] == all.skip(done)[0]);
            assert(all.skip(done)[0] == all[done]);
            assert(all.take(done + 1).drop_last() =~= all.take(done));
            assert(all.take(done + 1).last() == all[done]);
        }
        if same(v[i].hostname.as_str(), hostname) {
            v.remove(i);
            proof {
                assert(infos_view(v@) =~= infos_view(before).remove(i as int));
                assert(infos_view(v@) =~= kept + all.skip(done + 1));
            }
        } else {
            proof {
                assert(infos_view(v@) =~= kept.push(all[done]) + all.skip(done + 1));
            }
            i += 1;
        }
        proof {
            done = done + 1;
        }
    }
    proof {
        let kept = routes_elsewhere(all.take(done), hostname@);
        assert(infos_view(v@).len() == kept.len() + all.skip(done).len());
        assert(all.take(done) =~= all);
        assert(infos_view(v@) =~= kept);
    }
}

/// Takes out the instances with the ids.
fn drop_instances(v: &mut Vec<Instance>, ids: &Vec<String>)
    ensures
        instances_view(final(v)@) == instances_left(instances_view(old(v)@), texts(ids@)),
{
    let ghost all = instances_view(v@);
    let ghost mut done: int = 0;
    let mut i: usize = 0;
    proof {
        assert(instances_left(all.take(0), texts(ids@)) =~= Seq::empty());
        assert(all =~= instances_left(all.take(0), texts(ids@)) + all.skip(0));
    }
    while i < v.len()
        invariant
            all == instances_view(old(v)@),
            0 <= done <= all.len(),
            i == instances_left(all.take(done), texts(ids@)).len(),
            instances_view(v@) == instances_left(all.take(done), texts(ids@)) + all.skip(done),
        decreases v@.len() - i,
    {
        let ghost before = v@;
        let ghost kept = instances_left(all.take(done), texts(ids@));
        proof {
            assert(instances_view(v@)[i as int] == all.skip(done)[0]);
            assert(all.skip(done)[0] == all[done]);
            assert(all.take(done + 1).drop_last() =~= all.take(done));
            assert(all.take(done + 1).last() == all[done]);
        }
        if among(v[i].state.id.as_str(), ids) {
            v.remove(i);
            proof {
                assert(instances_view(v@) =~= instances_view(before).remove(i as int));
                assert(instances_view(v@) =~= kept + all.skip(done + 1));
            }
        } else {
            proof {
                assert(instances_view(v@) =~= kept.push(all[done]) + all.skip(done + 1));
            }
            i += 1;
        }
        proof {
            done = done + 1;
        }
    }
    proof {
        let kept = instances_left(all.take(done), texts(ids@));
        assert(instances_view(v@).len() == kept.len() + all.skip(done).len());
        assert(all.take(done) =~= all);
        assert(instances_view(v@) =~= kept);
    }
}

/// The ids of the instances that were not heard of for too long.
pub open spec fn dead_ids(instances: Seq<InstanceV>, now: u64) -> Seq<Seq<char>>
    decreases instances.len(),
{
    if instances.len() == 0 {
        Seq::empty()
    } else {
        let rest = dead_ids(instances.drop_last(), now);
        if now - instances.last().last_seen > INSTANCE_TTL {
            rest.push(instances.last().state.id)
        } else {
            rest
        }
    }
}

/// The instances of the project directory.
pub open spec fn states_in(instances: Seq<InstanceV>, dir: Seq<char>) -> Seq<InstanceStateV>
    decreases instances.len(),
{
    if instances.len() == 0 {
        Seq::empty()
    } else {
        let rest = states_in(instances.drop_last(), dir);
        if instances.last().state.dir == dir {
            rest.push(instances.last().state)
        } else {
            rest
        }
    }
}

/// The states of all instances.
pub open spec fn states_of(instances: Seq<InstanceV>) -> Seq<InstanceStateV> {
    instances.map_values(|i: InstanceV| i.state)
}

/// Whether an object is asked for.
pub open spec fn wanted(o: SnapshotV, kind: Option<Seq<char>>) -> bool {
    match kind {
        Some(k) => o.kind == k,
        None => true,
    }
}

/// The objects that are asked for.
pub open spec fn wanted_objects(objects: Seq<SnapshotV>, kind: Option<Seq<char>>) -> Seq<SnapshotV>
    decreases objects.len(),
{
    if objects.len() == 0 {
        Seq::empty()
    } else {
        let rest = wanted_objects(objects.drop_last(), kind);
        if wanted(objects.last(), kind) {
            rest.push(objects.last())
        } else {
            rest
        }
    }
}

/// The objects of all instances that are asked for.
pub open spec fn gathered_objects(
    instances: Seq<InstanceV>,
    kind: Option<Seq<char>>,
) -> Seq<SnapshotV>
    decreases instances.len(),
{
    if instances.len() == 0 {
        Seq::empty()
    } else {
        gathered_objects(instances.drop_last(), kind) + wanted_objects(
            instances.last().state.objects,
            kind,
        )
    }
}

/// The instance with a command behind those queued for it.
pub open spec fn told(i: InstanceV, c: Command) -> InstanceV {
    InstanceV { commands: i.commands.push(c), ..i }
}

impl DaemonV {
    /// The instance with the id.
    pub open spec fn instance(self, id: Seq<char>) -> Option<InstanceV> {
        match instance_index(self.instances, id, 0) {
            Some(i) => Some(self.instances[i]),
            None => None,
        }
    }

    /// The daemon after an instance came to it.
    pub open spec fn joined(self, name: Seq<char>, dir: Seq<char>, pid: u32, now: u64) -> DaemonV {
        let id = instance_id(name, self.seq + 1);
        DaemonV {
            seq: self.seq + 1,
            instances: self.instances.push(
                InstanceV {
                    state: InstanceStateV {
                        id,
                        name,
                        dir,
                        pid,
                        resources: Seq::empty(),
                        objects: Seq::empty(),
                        api_addr: None,
                    },
                    logs: Seq::empty(),
                    commands: Seq::empty(),
                    last_seen: now,
                },
            ),
            ..self
        }
    }

    /// The daemon without some instances, their routes and their leases.
    pub open spec fn left_by(self, ids: Seq<Seq<char>>) -> DaemonV {
        let routes = routes_left(self.routes, ids);
        DaemonV {
            instances: instances_left(self.instances, ids),
            routes,
            leases: leases_without(self.leases, ids),
            registry: resynced(self.registry, targets(routes)),
            ..self
        }
    }

    /// The daemon without the instances that were not heard of for too long.
    pub open spec fn pruned(self, now: u64) -> DaemonV {
        let dead = dead_ids(self.instances, now);
        if dead.len() == 0 {
            self
        } else {
            self.left_by(dead)
        }
    }

    /// The daemon after an instance reported.
    pub open spec fn reported(
        self,
        id: Seq<char>,
        resources: Seq<ResourceSnapshot>,
        batches: Seq<(Seq<char>, Seq<Seq<char>>)>,
        objects: Seq<SnapshotV>,
        api_addr: Option<String>,
        now: u64,
    ) -> DaemonV {
        match instance_index(self.instances, id, 0) {
            Some(i) => {
                let inst = self.instances[i];
                DaemonV {
                    instances: self.instances.update(
                        i,
                        InstanceV {
                            state: InstanceStateV { resources, objects, api_addr, ..inst.state },
                            logs: rings_appended(inst.logs, batches),
                            last_seen: now,
                            ..inst
                        },
                    ),
                    ..self
                }
            },
            None => self,
        }
    }

    /// The daemon after a port was reserved for an instance.
    pub open spec fn leased(self, id: Seq<char>, r: Option<PortReservation>) -> DaemonV {
        match r {
            Some(res) => DaemonV { leases: lease_given(self.leases, res.port, id), ..self },
            None => self,
        }
    }

    /// The daemon after an instance gave a port back; only its owner can.
    pub open spec fn released(self, id: Seq<char>, port: u16) -> DaemonV {
        if owner_of(self.leases, port) == Some(id) {
            DaemonV { leases: lease_dropped(self.leases, port), ..self }
        } else {
            self
        }
    }

    /// The daemon without the route of a hostname; its port's lease ends where no
    /// other route leads to it.
    pub open spec fn unrouted(self, hostname: Seq<char>) -> DaemonV {
        let routes = routes_elsewhere(self.routes, hostname);
        DaemonV {
            routes,
            leases: match port_of(targets(self.routes), hostname) {
                Some(p) if !port_in_use(routes, p) => lease_dropped(self.leases, p),
                _ => self.leases,
            },
            registry: routes_without(self.registry, hostname),
            ..self
        }
    }

    /// The daemon after an instance registered a route.
    pub open spec fn routed(self, id: Seq<char>, hostname: Seq<char>, port: u16) -> DaemonV {
        let without = self.unrouted(hostname);
        DaemonV {
            routes: without.routes.push(RouteV { hostname, port, instance: id }),
            leases: lease_given(without.leases, port, id),
            registry: registered(self.registry, hostname, port),
            ..self
        }
    }

    /// The daemon after a command was queued for an instance.
    pub open spec fn queued(self, id: Seq<char>, c: Command) -> DaemonV {
        match instance_index(self.instances, id, 0) {
            Some(i) => DaemonV {
                instances: self.instances.update(i, told(self.instances[i], c)),
                ..self
            },
            None => self,
        }
    }

    /// The daemon after an instance took its commands.
    pub open spec fn polled(self, id: Seq<char>, now: u64) -> DaemonV {
        match instance_index(self.instances, id, 0) {
            Some(i) => DaemonV {
                instances: self.instances.update(
                    i,
                    InstanceV { commands: Seq::empty(), last_seen: now, ..self.instances[i] },
                ),
                ..self
            },
            None => self,
        }
    }

    /// The daemon after the instances of a project directory were told to stop.
    pub open spec fn project_stopped(self, dir: Seq<char>) -> DaemonV {
        DaemonV {
            instances: self.instances.map_values(
                |i: InstanceV|
                    if i.state.dir == dir {
                        told(i, Command::Shutdown)
                    } else {
                        i
                    },
            ),
            ..self
        }
    }

    /// The daemon after all instances were told to stop.
    pub open spec fn stopped(self) -> DaemonV {
        DaemonV {
            instances: self.instances.map_values(|i: InstanceV| told(i, Command::Shutdown)),
            routes: Seq::empty(),
            leases: Seq::empty(),
            registry: resynced(self.registry, Seq::empty()),
            shutting_down: true,
            ..self
        }
    }

    /// The log lines of a resource from a cursor on, and the next cursor.
    pub open spec fn logs(self, id: Seq<char>, resource: Seq<char>, since: u64) -> (
        Seq<Seq<char>>,
        nat,
    ) {
        match self.instance(id) {
            Some(inst) => match ring_index(inst.logs, resource, 0) {
                Some(i) => (inst.logs[i].1.newer(since as nat), inst.logs[i].1.end()),
                None => (Seq::empty(), 0),
            },
            None => (Seq::empty(), 0),
        }
    }

    /// Whether every ring of every instance leaves room for `n` more lines.
    pub open spec fn log_room(self, n: nat) -> bool {
        forall|i: int, j: int|
            0 <= i < self.instances.len() && 0 <= j < self.instances[i].logs.len() ==> (
            #[trigger] self.instances[i].logs[j]).1.end() + n <= u64::MAX
    }
}

/// The daemon: one for each machine.
#[derive(Debug)]
pub struct Daemon {
    instances: Vec<Instance>,
    seq: u64,
    leased_ports: Vec<(u16, String)>,
    routes: Vec<RouteInfo>,
    shutting_down: bool,
    registry: ProxyRegistry,
    proxy_port: u16,
    tld: String,
}

impl View for Daemon {
    type V = DaemonV;

    closed spec fn view(&self) -> DaemonV {
        DaemonV {
            instances: instances_view(self.instances@),
            seq: self.seq as nat,
            leases: leases_view(self.leased_ports@),
            routes: infos_view(self.routes@),
            shutting_down: self.shutting_down,
            registry: self.registry@,
            proxy_port: self.proxy_port,
            tld: self.tld@,
        }
    }
}

impl Daemon {
    /// A daemon that knows of no instance.
    pub fn new(proxy_port: u16, tld: &str) -> (r: Daemon)
        ensures
            r@ == (DaemonV {
                instances: Seq::empty(),
                seq: 0,
                leases: Seq::empty(),
                routes: Seq::empty(),
                shutting_down: false,
                registry: Seq::empty(),
                proxy_port,
                tld: tld@,
            }),
    {
        let r = Daemon {
            instances: Vec::new(),
            seq: 0,
            leased_ports: Vec::new(),
            routes: Vec::new(),
            shutting_down: false,
            registry: ProxyRegistry::new(),
            proxy_port,
            tld: owned(tld),
        };
        assert(r@.instances =~= Seq::empty());
        assert(r@.leases =~= Seq::empty());
        assert(r@.routes =~= Seq::empty());
        r
    }

    /// The backend port that the shared proxy sends a host's requests to.
    pub fn lookup(&self, host: &str) -> (r: Option<u16>)
        ensures
            r == crate::proxy::backend(self@.registry, host@),
    {
        self.registry.lookup(host)
    }

    /// The shared proxy's registry.
    pub fn registry(&self) -> (r: &ProxyRegistry)
        ensures
            r@ == self@.registry,
    {
        &self.registry
    }

    /// Whether a port is leased.
    pub fn is_leased(&self, port: u16) -> (r: bool)
        ensures
            r == (owner_of(self@.leases, port) is Some),
    {
        self.owned_by(port, None)
    }

    /// Whether a port is leased, and by the given instance if one is given.
    fn owned_by(&self, port: u16, instance: Option<&str>) -> (r: bool)
        ensures
            r == match owner_of(self@.leases, port) {
                Some(o) => match instance {
                    Some(id) => id@ == o,
                    None => true,
                },
                None => false,
            },
    {
        let ghost all = self@.leases;
        let mut i: usize = 0;
        assert(all.skip(0) =~= all);
        while i < self.leased_ports.len()
            invariant
                i <= self.leased_ports@.len(),
                all == leases_view(self.leased_ports@),
                all == self@.leases,
                owner_of(all, port) == owner_of(all.skip(i as int), port),
            decreases self.leased_ports@.len() - i,
        {
            let ghost rest = all.skip(i as int);
            assert(rest[0] == (self.leased_ports@[i as int].0, self.leased_ports@[i as int].1@));
            assert(rest.drop_first() =~= all.skip(i + 1));
            if self.leased_ports[i].0 == port {
                return match instance {
                    Some(id) => same(id, self.leased_ports[i].1.as_str()),
                    None => true,
                };
            }
            i += 1;
        }
        false
    }

    /// The index of the instance with the id.
    fn index_of(&self, id: &str) -> (r: Option<usize>)
        ensures
            match r {
                Some(i) => i < self.instances@.len() && instance_index(self@.instances, id@, 0)
                    == Some(i as int),
                None => instance_index(self@.instances, id@, 0) is None,
            },
    {
        let mut i: usize = 0;
        while i < self.instances.len()
            invariant
                i <= self.instances@.len(),
                instance_index(self@.instances, id@, 0) == instance_index(
                    self@.instances,
                    id@,
                    i as int,
                ),
            decreases self.instances@.len() - i,
        {
            if same(self.instances[i].state.id.as_str(), id) {
                return Some(i);
            }
            i += 1;
        }
        None
    }

    /// The port of the route with the hostname.
    fn route_port(&self, hostname: &str) -> (r: Option<u16>)
        ensures
            r == port_of(targets(self@.routes), hostname@),
    {
        let ghost all = targets(self@.routes);
        let mut i: usize = 0;
        assert(all.skip(0) =~= all);
        while i < self.routes.len()
            invariant
                i <= self.routes@.len(),
                all == targets(infos_view(self.routes@)),
                all == targets(self@.routes),
                port_of(all, hostname@) == port_of(all.skip(i as int), hostname@),
            decreases self.routes@.len() - i,
        {
            let ghost rest = all.skip(i as int);
            assert(rest[0] == (self.routes@[i as int].hostname@, self.routes@[i as int].port));
            assert(rest.drop_first() =~= all.skip(i + 1));
            if same(self.routes[i].hostname.as_str(), hostname) {
                return Some(self.routes[i].port);
            }
            i += 1;
        }
        None
    }

    /// Registers a new instance and returns its id.
    pub fn register(&mut self, name: String, dir: String, pid: u32, now: u64) -> (r: String)
        requires
            old(self)@.seq < u64::MAX,
        ensures
            r@ == instance_id(name@, old(self)@.seq + 1),
            final(self)@ == old(self)@.joined(name@, dir@, pid, now),
    {
        self.seq += 1;
        let id: String = cat3(
            sanitize(name.as_str()).as_str(),
            "-",
            decimal(self.seq).as_str(),
        );
        let ghost before = self.instances@;
        let inst = Instance {
            state: InstanceState {
                id: id.clone(),
                name,
                dir,
                pid,
                resources: Vec::new(),
                objects: Vec::new(),
                api_addr: None,
            },
            logs: Vec::new(),
            commands: Vec::new(),
            last_seen: now,
        };
        assert(inst@.logs =~= Seq::empty());
        assert(inst@.state.objects =~= Seq::empty());
        self.instances.push(inst);
        assert(instances_view(self.instances@) =~= instances_view(before).push(inst@));
        id
    }

    /// Brings the registry in line with the routes.
    fn resync_registry(&mut self)
        ensures
            final(self)@ == (DaemonV {
                registry: resynced(old(self)@.registry, targets(old(self)@.routes)),
                ..old(self)@
            }),
    {
        let ghost wanted_routes = targets(self@.routes);
        let existing = self.registry.snapshot();
        let ghost entries = routes_view(existing@);
        let ghost registry0 = self.registry@;
        let mut i: usize = 0;
        let mut rest: ProxyRegistry = ProxyRegistry::new();
        assert(known_entries(entries.take(0), wanted_routes) =~= Seq::empty());
        while i < existing.len()
            invariant
                i <= existing@.len(),
                entries == routes_view(existing@),
                *self == *old(self),
                wanted_routes == targets(self@.routes),
                rest@ == known_entries(entries.take(i as int), wanted_routes),
            decreases existing@.len() - i,
        {
            proof {
                assert(entries.take(i + 1).drop_last() =~= entries.take(i as int));
                assert(entries.take(i + 1).last() == entries[i as int]);
            }
            if self.route_port(existing[i].hostname.as_str()).is_some() {
                rest.keep(&existing[i]);
            }
            i += 1;
        }
        assert(entries.take(i as int) =~= entries);
        let ghost known = rest@;
        let mut k: usize = 0;
        assert(all_registered(known, wanted_routes.take(0)) == known);
        while k < self.routes.len()
            invariant
                k <= self.routes@.len(),
                *self == *old(self),
                wanted_routes == targets(infos_view(self.routes@)),
                rest@ == all_registered(known, wanted_routes.take(k as int)),
            decreases self.routes@.len() - k,
        {
            proof {
                assert(wanted_routes.take(k + 1).drop_last() =~= wanted_routes.take(k as int));
                assert(wanted_routes.take(k + 1).last() == wanted_routes[k as int]);
            }
            rest.register(self.routes[k].hostname.as_str(), self.routes[k].port);
            k += 1;
        }
        assert(wanted_routes.take(k as int) =~= wanted_routes);
        self.registry = rest;
    }

    /// Takes out instances with their routes and leases.
    fn drop_all(&mut self, ids: &Vec<String>)
        ensures
            final(self)@ == old(self)@.left_by(texts(ids@)),
    {
        drop_instances(&mut self.instances, ids);
        drop_routes_of(&mut self.routes, ids);
        drop_leases_of(&mut self.leased_ports, ids);
        self.resync_registry();
    }

    /// Takes out an instance with its routes and leases.
    pub fn deregister(&mut self, instance: &str)
        ensures
            final(self)@ == old(self)@.left_by(seq![instance@]),
    {
        let mut ids: Vec<String> = Vec::new();
        ids.push(owned(instance));
        assert(texts(ids@) =~= seq![instance@]);
        self.drop_all(&ids);
    }

    /// Drops the instances that were not heard of for too long, with their routes
    /// and leases.
    pub fn prune(&mut self, now: u64)
        ensures
            final(self)@ == old(self)@.pruned(now),
    {
        broadcast use crate::text::texts_push;

        let mut dead: Vec<String> = Vec::new();
        let ghost all = self@.instances;
        let mut i: usize = 0;
        assert(texts(dead@) =~= dead_ids(all.take(0), now));
        while i < self.instances.len()
            invariant
                i <= self.instances@.len(),
                *self == *old(self),
                all == instances_view(self.instances@),
                texts(dead@) == dead_ids(all.take(i as int), now),
            decreases self.instances@.len() - i,
        {
            proof {
                assert(all.take(i + 1).drop_last() =~= all.take(i as int));
                assert(all.take(i + 1).last() == self.instances@[i as int]@);
            }
            let seen: u64 = self.instances[i].last_seen;
            if now > seen && now - seen > INSTANCE_TTL {
                dead.push(self.instances[i].state.id.clone());
            }
            i += 1;
        }
        assert(all.take(i as int) =~= all);
        if dead.len() > 0 {
            assert(texts(dead@).len() > 0);
            self.drop_all(&dead);
        } else {
            assert(texts(dead@).len() == 0);
        }
    }
}

/// Appending to one ring leaves at most as many more lines in each.
proof fn ring_appended_room(
    logs: Seq<(Seq<char>, RingV)>,
    resource: Seq<char>,
    lines: Seq<Seq<char>>,
    bound: int,
)
    requires
        forall|j: int| 0 <= j < logs.len() ==> (#[trigger] logs[j]).1.end() + lines.len() <= bound,
        lines.len() <= bound,
    ensures
        forall|j: int|
            0 <= j < ring_appended(logs, resource, lines).len() ==> (#[trigger] ring_appended(
                logs,
                resource,
                lines,
            )[j]).1.end() <= bound,
{
    ring_index_ok(logs, resource, 0);
}

/// The index of a ring is one of its list.
proof fn ring_index_ok(logs: Seq<(Seq<char>, RingV)>, resource: Seq<char>, from: int)
    requires
        0 <= from,
    ensures
        match ring_index(logs, resource, from) {
            Some(i) => from <= i < logs.len() && logs[i].0 == resource,
            None => forall|j: int| from <= j < logs.len() ==> (#[trigger] logs[j]).0 != resource,
        },
    decreases logs.len() - from,
{
    if from < logs.len() && logs[from].0 != resource {
        ring_index_ok(logs, resource, from + 1);
    }
}

/// Appends lines to the ring of a resource.
fn append_ring(logs: &mut Vec<(String, LogRing)>, resource: String, lines: Vec<String>)
    requires
        forall|j: int|
            0 <= j < old(logs)@.len() ==> (#[trigger] old(logs)@[j]).1@.end() + lines@.len()
                <= u64::MAX,
    ensures
        logs_view(final(logs)@) == ring_appended(logs_view(old(logs)@), resource@, texts(lines@)),
{
    let ghost all = logs_view(logs@);
    let mut i: usize = 0;
    while i < logs.len()
        invariant
            i <= logs@.len(),
            *logs == *old(logs),
            all == logs_view(logs@),
            ring_index(all, resource@, 0) == ring_index(all, resource@, i as int),
            forall|j: int|
                0 <= j < logs@.len() ==> (#[trigger] logs@[j]).1@.end() + lines@.len() <= u64::MAX,
        decreases logs@.len() - i,
    {
        assert(all[i as int] == (logs@[i as int].0@, logs@[i as int].1@));
        if same(logs[i].0.as_str(), resource.as_str()) {
            assert(logs@[i as int].1@.end() + lines@.len() <= u64::MAX);
            let ghost before = logs@;
            logs[i].1.append(lines);
            assert(logs_view(logs@) =~= all.update(
                i as int,
                (resource@, all[i as int].1.appended(texts(lines@))),
            ));
            return;
        }
        i += 1;
    }
    let mut ring = LogRing::new();
    assert(lines@.len() == lines.len());
    ring.append(lines);
    let ghost before = logs@;
    logs.push((resource, ring));
    assert(logs_view(logs@) =~= logs_view(before).push((resource@, ring@)));
}

/// Appends all batches to the rings of their resources.
fn append_rings(logs: &mut Vec<(String, LogRing)>, batches: Vec<(String, Vec<String>)>)
    requires
        forall|j: int|
            0 <= j < old(logs)@.len() ==> (#[trigger] old(logs)@[j]).1@.end() + lines_in(
                batches_view(batches@),
            ) <= u64::MAX,
        lines_in(batches_view(batches@)) <= u64::MAX,
    ensures
        logs_view(final(logs)@) == rings_appended(logs_view(old(logs)@), batches_view(batches@)),
{
    let ghost all = batches_view(batches@);
    let ghost logs0 = logs_view(logs@);
    let mut rest = batches;
    let ghost mut done: int = 0;
    proof {
        assert(all.take(0) =~= Seq::empty());
        assert(all.skip(0) =~= all);
        assert forall|j: int| 0 <= j < logs0.len() implies (#[trigger] logs0[j]).1.end() + lines_in(
            all,
        ) <= u64::MAX by {
            assert(logs0[j].1 == logs@[j].1@);
        }
    }
    while rest.len() > 0
        invariant
            0 <= done <= all.len(),
            batches_view(rest@) == all.skip(done),
            logs_view(logs@) == rings_appended(logs0, all.take(done)),
            lines_in(all) <= u64::MAX,
            forall|j: int|
                0 <= j < logs_view(logs@).len() ==> (#[trigger] logs_view(logs@)[j]).1.end() + (
                lines_in(all) - lines_in(all.take(done))) <= u64::MAX,
            lines_in(all.take(done)) <= lines_in(all),
        decreases rest@.len(),
    {
        let ghost rest0 = rest@;
        let ghost before = logs_view(logs@);
        let (resource, lines) = rest.remove(0);
        proof {
            assert(batches_view(rest0).len() == all.len() - done);
            assert(batches_view(rest0)[0] == all.skip(done)[0]);
            assert(all.skip(done)[0] == all[done]);
            assert(all[done] == (resource@, texts(lines@)));
            assert(batches_view(rest@) =~= batches_view(rest0).remove(0));
            assert(batches_view(rest@) =~= all.skip(done + 1));
            assert(all.take(done + 1).drop_last() =~= all.take(done));
            assert(all.take(done + 1).last() == all[done]);
            lines_in_grows(all, done + 1);
            assert(lines_in(all.take(done + 1)) == lines_in(all.take(done)) + lines@.len());
            assert forall|j: int| 0 <= j < logs@.len() implies (#[trigger] logs@[j]).1@.end()
                + lines@.len() <= u64::MAX by {
                assert(before[j].1 == logs@[j].1@);
            }
            let bound = u64::MAX - (lines_in(all) - lines_in(all.take(done + 1)));
            ring_appended_room(before, resource@, texts(lines@), bound);
        }
        append_ring(logs, resource, lines);
        proof {
            done = done + 1;
        }
    }
    assert(all.take(done) =~= all);
}

/// No part of the batches has more lines than all of them.
proof fn lines_in_grows(batches: Seq<(Seq<char>, Seq<Seq<char>>)>, n: int)
    requires
        0 <= n <= batches.len(),
    ensures
        lines_in(batches.take(n)) <= lines_in(batches),
    decreases batches.len() - n,
{
    if n == batches.len() {
        assert(batches.take(n) =~= batches);
    } else {
        lines_in_grows(batches, n + 1);
        assert(batches.take(n + 1).drop_last() =~= batches.take(n));
    }
}

impl Daemon {
    /// Takes the report of an instance; returns whether the instance is known.
    pub fn update(
        &mut self,
        instance: &str,
        resources: Vec<ResourceSnapshot>,
        logs: Vec<(String, Vec<String>)>,
        objects: Vec<ApiObjectSnapshot>,
        api_addr: Option<String>,
        now: u64,
    ) -> (r: bool)
        requires
            old(self)@.log_room(lines_in(batches_view(logs@))),
            lines_in(batches_view(logs@)) <= u64::MAX,
        ensures
            r == (old(self)@.instance(instance@) is Some),
            final(self)@ == old(self)@.reported(
                instance@,
                resources@,
                batches_view(logs@),
                snapshots_view(objects@),
                api_addr,
                now,
            ),
    {
        match self.index_of(instance) {
            Some(i) => {
                proof {
                    let inst = self.instances@[i as int];
                    assert forall|j: int| 0 <= j < inst.logs@.len() implies (
                    #[trigger] inst.logs@[j]).1@.end() + lines_in(batches_view(logs@))
                        <= u64::MAX by {
                        assert(self@.instances[i as int].logs[j].1 == inst.logs@[j].1@);
                    }
                }
                let ghost before = self.instances@;
                self.instances[i].state.resources = resources;
                self.instances[i].state.objects = objects;
                self.instances[i].state.api_addr = api_addr;
                self.instances[i].last_seen = now;
                append_rings(&mut self.instances[i].logs, logs);
                assert(instances_view(self.instances@) =~= instances_view(before).update(
                    i as int,
                    self.instances@[i as int]@,
                ));
                true
            },
            None => false,
        }
    }

    /// Which port would be reserved: the preferred one where it is neither leased nor in
    /// use, else the first offered one that is not leased.
    fn find_port(&self, preferred: Option<u16>, host: &HostPorts) -> (r: Option<PortReservation>)
        ensures
            r == reservation(self@.leases, preferred, host.preferred_free, host.offers@),
    {
        if let Some(port) = preferred {
            if !self.is_leased(port) && host.preferred_free {
                return Some(PortReservation { port, preferred, conflict: false });
            }
        }
        let mut i: usize = 0;
        while i < host.offers.len() && i < PORT_TRIES
            invariant
                i <= host.offers@.len(),
                i <= PORT_TRIES,
                first_unleased(self@.leases, host.offers@, 0) == first_unleased(
                    self@.leases,
                    host.offers@,
                    i as int,
                ),
                reservation(self@.leases, preferred, host.preferred_free, host.offers@) == (
                match first_unleased(self@.leases, host.offers@, 0) {
                    Some(port) => Some(
                        PortReservation { port, preferred, conflict: preferred is Some },
                    ),
                    None => None,
                }),
            decreases host.offers@.len() - i,
        {
            if let Some(port) = host.offers[i] {
                if !self.is_leased(port) {
                    return Some(PortReservation { port, preferred, conflict: preferred.is_some() });
                }
            }
            i += 1;
        }
        None
    }

    /// What comes next in the search for a port, after what the host offered so far:
    /// another is asked for where nothing can be reserved yet, a limited number of times.
    pub fn search_step(&self, preferred: Option<u16>, host: &HostPorts) -> (r: SearchStep)
        ensures
            r == search_next(
                reservation(self@.leases, preferred, host.preferred_free, host.offers@),
                host.offers@.len(),
            ),
    {
        if self.find_port(preferred, host).is_none() && host.offers.len() < PORT_TRIES {
            SearchStep::Ask
        } else {
            SearchStep::Settle
        }
    }

    /// Reserves a port for an instance: the preferred one where it is neither
    /// leased nor in use, else the first offered one that is not leased.
    pub fn reserve_port(&mut self, instance: &str, preferred: Option<u16>, host: &HostPorts) -> (r:
        Option<PortReservation>)
        ensures
            r == reservation(
                old(self)@.leases,
                preferred,
                host.preferred_free,
                host.offers@,
            ),
            final(self)@ == old(self)@.leased(instance@, r),
    {
        let found = self.find_port(preferred, host);
        if let Some(r) = &found {
            self.lease(r.port, instance);
        }
        found
    }

    /// Leases a port to an instance.
    fn lease(&mut self, port: u16, instance: &str)
        ensures
            final(self)@ == (DaemonV {
                leases: lease_given(old(self)@.leases, port, instance@),
                ..old(self)@
            }),
    {
        drop_lease(&mut self.leased_ports, port);
        let ghost before = self.leased_ports@;
        self.leased_ports.push((port, owned(instance)));
        assert(leases_view(self.leased_ports@) =~= leases_view(before).push((port, instance@)));
    }

    /// Ends the lease of a port; only its owner can.
    pub fn release_port(&mut self, instance: &str, port: u16)
        ensures
            final(self)@ == old(self)@.released(instance@, port),
    {
        if self.owned_by(port, Some(instance)) {
            drop_lease(&mut self.leased_ports, port);
        }
    }

    /// Takes out the route of a hostname, and the lease of its port where no other
    /// route leads to it.
    pub fn remove_route(&mut self, hostname: &str)
        ensures
            final(self)@ == old(self)@.unrouted(hostname@),
    {
        let previous = self.route_port(hostname);
        self.registry.remove(hostname);
        drop_route(&mut self.routes, hostname);
        if let Some(port) = previous {
            if !self.route_uses(port) {
                drop_lease(&mut self.leased_ports, port);
            }
        }
    }

    /// Whether a route leads to the port.
    fn route_uses(&self, port: u16) -> (r: bool)
        ensures
            r == port_in_use(self@.routes, port),
    {
        let mut i: usize = 0;
        while i < self.routes.len()
            invariant
                i <= self.routes@.len(),
                forall|j: int| 0 <= j < i ==> (#[trigger] self@.routes[j]).port != port,
            decreases self.routes@.len() - i,
        {
            if self.routes[i].port == port {
                assert(self@.routes[i as int].port == port);
                return true;
            }
            i += 1;
        }
        false
    }

    /// Registers a route of an instance, instead of any other for the hostname, and
    /// leases its port to the instance.
    pub fn register_route(&mut self, instance: &str, hostname: &str, port: u16)
        ensures
            final(self)@ == old(self)@.routed(instance@, hostname@, port),
    {
        self.registry.register(hostname, port);
        let ghost registry = self.registry@;
        let previous = self.route_port(hostname);
        drop_route(&mut self.routes, hostname);
        if let Some(p) = previous {
            if !self.route_uses(p) {
                drop_lease(&mut self.leased_ports, p);
            }
        }
        self.lease(port, instance);
        let route = RouteInfo { hostname: owned(hostname), port, instance: owned(instance) };
        let ghost before = self.routes@;
        self.routes.push(route);
        assert(infos_view(self.routes@) =~= infos_view(before).push(route@));
    }

    /// The states of the instances.
    fn states(&self) -> (r: Vec<InstanceState>)
        ensures
            states_view(r@) == states_of(self@.instances),
    {
        let mut r: Vec<InstanceState> = Vec::new();
        let ghost all = states_of(self@.instances);
        let mut i: usize = 0;
        assert(states_view(r@) =~= all.take(0));
        while i < self.instances.len()
            invariant
                i <= self.instances@.len(),
                all == states_of(instances_view(self.instances@)),
                states_view(r@) == all.take(i as int),
            decreases self.instances@.len() - i,
        {
            let state: InstanceState = self.instances[i].state.clone();
            let ghost before = r@;
            r.push(state);
            assert(states_view(r@) =~= states_view(before).push(state@));
            assert(all.take(i + 1) =~= all.take(i as int).push(self.instances@[i as int]@.state));
            i += 1;
        }
        assert(all.take(i as int) =~= all);
        r
    }

    /// The state that the dashboard shows, once the instances that were not heard
    /// of for too long are dropped.
    pub fn get_state(&mut self, now: u64) -> (r: DashboardState)
        ensures
            final(self)@ == old(self)@.pruned(now),
            states_view(r.instances@) == states_of(final(self)@.instances),
            infos_view(r.routes@) == final(self)@.routes,
            r.proxy_port == old(self)@.proxy_port,
            r.tld@ == old(self)@.tld,
    {
        self.prune(now);
        let mut routes: Vec<RouteInfo> = Vec::new();
        let mut i: usize = 0;
        while i < self.routes.len()
            invariant
                i <= self.routes@.len(),
                routes@ =~= self.routes@.take(i as int),
            decreases self.routes@.len() - i,
        {
            routes.push(self.routes[i].clone());
            i += 1;
        }
        assert(routes@ =~= self.routes@);
        DashboardState {
            instances: self.states(),
            routes,
            proxy_port: self.proxy_port,
            tld: self.tld.clone(),
        }
    }

    /// The log lines of a resource from a cursor on, and the next cursor.
    pub fn get_logs(&self, instance: &str, resource: &str, since: u64) -> (r: (Vec<String>, u64))
        requires
            self@.log_room(0),
        ensures
            texts(r.0@) == self@.logs(instance@, resource@, since).0,
            r.1 == self@.logs(instance@, resource@, since).1,
    {
        match self.index_of(instance) {
            Some(n) => {
                let ghost all = self@.instances[n as int].logs;
                let mut i: usize = 0;
                while i < self.instances[n].logs.len()
                    invariant
                        n < self.instances@.len(),
                        i <= self.instances@[n as int].logs@.len(),
                        instance_index(self@.instances, instance@, 0) == Some(n as int),
                        all == self@.instances[n as int].logs,
                        all == logs_view(self.instances@[n as int].logs@),
                        ring_index(all, resource@, 0) == ring_index(all, resource@, i as int),
                        self@.log_room(0),
                    decreases self.instances@[n as int].logs@.len() - i,
                {
                    let entry = &self.instances[n].logs[i];
                    assert(all[i as int] == (entry.0@, entry.1@));
                    if same(entry.0.as_str(), resource) {
                        assert(self@.instances[n as int].logs[i as int].1.end() <= u64::MAX);
                        return entry.1.since(since);
                    }
                    i += 1;
                }
                let r: Vec<String> = Vec::new();
                assert(texts(r@) =~= Seq::empty());
                (r, 0)
            },
            None => {
                let r: Vec<String> = Vec::new();
                assert(texts(r@) =~= Seq::empty());
                (r, 0)
            },
        }
    }
}

impl Daemon {
    /// Takes the commands queued for an instance.
    pub fn poll_commands(&mut self, instance: &str, now: u64) -> (r: Vec<Command>)
        ensures
            final(self)@ == old(self)@.polled(instance@, now),
            r@ == match old(self)@.instance(instance@) {
                Some(i) => i.commands,
                None => Seq::empty(),
            },
    {
        let mut r: Vec<Command> = Vec::new();
        match self.index_of(instance) {
            Some(i) => {
                let ghost before = self.instances@;
                self.instances[i].last_seen = now;
                r.append(&mut self.instances[i].commands);
                assert(instances_view(self.instances@) =~= instances_view(before).update(
                    i as int,
                    self.instances@[i as int]@,
                ));
                assert(r@ =~= before[i as int].commands@);
                r
            },
            None => r,
        }
    }

    /// Queues a command for an instance; returns whether the instance is known.
    pub fn queue(&mut self, instance: &str, command: Command) -> (r: bool)
        ensures
            r == (old(self)@.instance(instance@) is Some),
            final(self)@ == old(self)@.queued(instance@, command),
    {
        match self.index_of(instance) {
            Some(i) => {
                let ghost before = self.instances@;
                self.instances[i].commands.push(command);
                assert(instances_view(self.instances@) =~= instances_view(before).update(
                    i as int,
                    told(before[i as int]@, command),
                ));
                true
            },
            None => false,
        }
    }

    /// Tells the instances of a project directory to stop, and returns them.
    pub fn shutdown_project(&mut self, dir: &str) -> (r: Vec<InstanceState>)
        ensures
            final(self)@ == old(self)@.project_stopped(dir@),
            states_view(r@) == states_in(old(self)@.instances, dir@),
    {
        let ghost all = self@.instances;
        let ghost told_all = self@.project_stopped(dir@).instances;
        let mut r: Vec<InstanceState> = Vec::new();
        let mut i: usize = 0;
        proof {
            assert(states_view(r@) =~= states_in(all.take(0), dir@));
            assert(all =~= told_all.take(0) + all.skip(0));
        }
        while i < self.instances.len()
            invariant
                i <= self.instances@.len(),
                self.instances@.len() == all.len(),
                told_all.len() == all.len(),
                all == old(self)@.instances,
                told_all == old(self)@.project_stopped(dir@).instances,
                self@ == (DaemonV { instances: self@.instances, ..old(self)@ }),
                self@.instances == told_all.take(i as int) + all.skip(i as int),
                states_view(r@) == states_in(all.take(i as int), dir@),
            decreases self.instances@.len() - i,
        {
            let ghost before = self@.instances;
            proof {
                assert(before[i as int] == all.skip(i as int)[0]);
                assert(self.instances@[i as int]@ == all[i as int]);
                assert(all.take(i + 1).drop_last() =~= all.take(i as int));
                assert(all.take(i + 1).last() == all[i as int]);
            }
            if same(self.instances[i].state.dir.as_str(), dir) {
                let state: InstanceState = self.instances[i].state.clone();
                let ghost r0 = r@;
                r.push(state);
                assert(states_view(r@) =~= states_view(r0).push(state@));
                self.instances[i].commands.push(Command::Shutdown);
                assert(self@.instances =~= before.update(
                    i as int,
                    told(all[i as int], Command::Shutdown),
                ));
            }
            assert(self@.instances =~= told_all.take(i + 1) + all.skip(i + 1));
            i += 1;
        }
        proof {
            assert(all.take(i as int) =~= all);
            assert(self@.instances =~= told_all);
        }
        r
    }

    /// Tells all instances to stop, drops all routes and leases, and returns the
    /// instances and whether this is the first time.
    pub fn shutdown_daemon(&mut self) -> (r: (Vec<InstanceState>, bool))
        ensures
            final(self)@ == old(self)@.stopped(),
            states_view(r.0@) == states_of(old(self)@.instances),
            r.1 == !old(self)@.shutting_down,
    {
        let states = self.states();
        let first = !self.shutting_down;
        let ghost all = self@.instances;
        let ghost told_all = self@.stopped().instances;
        let mut i: usize = 0;
        assert(all =~= told_all.take(0) + all.skip(0));
        while i < self.instances.len()
            invariant
                i <= self.instances@.len(),
                self.instances@.len() == all.len(),
                told_all.len() == all.len(),
                all == old(self)@.instances,
                told_all == old(self)@.stopped().instances,
                self@ == (DaemonV { instances: self@.instances, ..old(self)@ }),
                self@.instances == told_all.take(i as int) + all.skip(i as int),
            decreases self.instances@.len() - i,
        {
            let ghost before = self@.instances;
            assert(before[i as int] == all.skip(i as int)[0]);
            assert(self.instances@[i as int]@ == all[i as int]);
            self.instances[i].commands.push(Command::Shutdown);
            assert(self@.instances =~= before.update(
                i as int,
                told(all[i as int], Command::Shutdown),
            ));
            assert(self@.instances =~= told_all.take(i + 1) + all.skip(i + 1));
            i += 1;
        }
        assert(self@.instances =~= told_all);
        self.routes.clear();
        self.leased_ports.clear();
        assert(self@.routes =~= Seq::empty());
        assert(self@.leases =~= Seq::empty());
        assert(targets(self@.routes) =~= Seq::empty());
        self.resync_registry();
        self.shutting_down = true;
        (states, first)
    }

    /// The API objects of all instances, of one kind if one is given.
    pub fn get_objects(&self, kind: Option<&str>) -> (r: Vec<ApiObjectSnapshot>)
        ensures
            snapshots_view(r@) == gathered_objects(
                self@.instances,
                match kind {
                    Some(k) => Some(k@),
                    None => None,
                },
            ),
    {
        let ghost all = self@.instances;
        let ghost want: Option<Seq<char>> = match kind {
            Some(k) => Some(k@),
            None => None,
        };
        let mut r: Vec<ApiObjectSnapshot> = Vec::new();
        let mut i: usize = 0;
        assert(snapshots_view(r@) =~= gathered_objects(all.take(0), want));
        while i < self.instances.len()
            invariant
                i <= self.instances@.len(),
                all == instances_view(self.instances@),
                want == (match kind {
                    Some(k) => Some(k@),
                    None => None,
                }),
                snapshots_view(r@) == gathered_objects(all.take(i as int), want),
            decreases self.instances@.len() - i,
        {
            proof {
                assert(all.take(i + 1).drop_last() =~= all.take(i as int));
                assert(all.take(i + 1).last() == all[i as int]);
            }
            append_wanted(&mut r, &self.instances[i].state.objects, kind);
            i += 1;
        }
        assert(all.take(i as int) =~= all);
        r
    }
}

/// Adds the objects that are asked for.
fn append_wanted(r: &mut Vec<ApiObjectSnapshot>, objects: &Vec<ApiObjectSnapshot>, kind: Option<&str>)
    ensures
        snapshots_view(final(r)@) == snapshots_view(old(r)@) + wanted_objects(
            snapshots_view(objects@),
            match kind {
                Some(k) => Some(k@),
                None => None,
            },
        ),
{
    let ghost all = snapshots_view(objects@);
    let ghost r0 = snapshots_view(r@);
    let ghost want: Option<Seq<char>> = match kind {
        Some(k) => Some(k@),
        None => None,
    };
    let mut i: usize = 0;
    assert(r0 =~= r0 + wanted_objects(all.take(0), want));
    while i < objects.len()
        invariant
            i <= objects@.len(),
            all == snapshots_view(objects@),
            want == (match kind {
                Some(k) => Some(k@),
                None => None,
            }),
            snapshots_view(r@) == r0 + wanted_objects(all.take(i as int), want),
        decreases objects@.len() - i,
    {
        proof {
            assert(all.take(i + 1).drop_last() =~= all.take(i as int));
            assert(all.take(i + 1).last() == objects@[i as int]@);
        }
        let take = match kind {
            Some(k) => same(objects[i].kind.as_str(), k),
            None => true,
        };
        if take {
            let o: ApiObjectSnapshot = objects[i].clone();
            let ghost before = r@;
            r.push(o);
            assert(snapshots_view(r@) =~= snapshots_view(before).push(o@));
            assert(snapshots_view(r@) =~= r0 + wanted_objects(all.take(i as int), want).push(o@));
        }
        i += 1;
    }
    assert(all.take(i as int) =~= all);
}

/// The reply to a request, and what is left to be done outside: a hostname to
/// advertise, or the daemon's end.
#[derive(Debug)]
pub struct Reply {
    pub response: Response,
    pub advertise: Option<String>,
    pub exit: bool,
}

/// The daemon after a request.
pub open spec fn next_state(d: DaemonV, req: Request, now: u64, host: HostPorts) -> DaemonV {
    match req {
        Request::Ping => d,
        Request::Register { name, dir, pid } => d.joined(name@, dir@, pid, now),
        Request::Deregister { instance } => d.left_by(seq![instance@]),
        Request::Update { instance, resources, logs, objects, api_addr } => d.reported(
            instance@,
            resources@,
            batches_view(logs@),
            snapshots_view(objects@),
            api_addr,
            now,
        ),
        Request::AllocatePort { instance } => d.leased(
            instance@,
            reservation(d.leases, None, host.preferred_free, host.offers@),
        ),
        Request::ReservePort { instance, preferred } => d.leased(
            instance@,
            reservation(d.leases, preferred, host.preferred_free, host.offers@),
        ),
        Request::ReleasePort { instance, port } => d.released(instance@, port),
        Request::RegisterRoute { instance, hostname, port } => d.routed(
            instance@,
            hostname@,
            port,
        ),
        Request::RemoveRoute { hostname } => d.unrouted(hostname@),
        Request::GetState => d.pruned(now),
        Request::GetLogs { .. } => d,
        Request::PollCommands { instance } => d.polled(instance@, now),
        Request::Trigger { instance, resource } => d.queued(
            instance@,
            Command::Trigger { resource },
        ),
        Request::Restart { instance, resource } => d.queued(
            instance@,
            Command::Restart { resource },
        ),
        Request::SetPort { instance, resource, port } => d.queued(
            instance@,
            Command::SetPort { resource, port },
        ),
        Request::SetPaused { instance, resource, paused } => d.queued(
            instance@,
            Command::SetPaused { resource, paused },
        ),
        Request::ShutdownProject { dir } => d.project_stopped(dir@),
        Request::ShutdownDaemon => d.stopped(),
        Request::GetObjects { .. } => d,
        Request::SetTiltfileArgs { instance, args } => d.queued(
            instance@,
            Command::SetTiltfileArgs { args },
        ),
    }
}

/// Whether the response is done where the instance is known, else the error that
/// names it.
pub open spec fn known_or_error(d: DaemonV, id: Seq<char>, r: Response) -> bool {
    match d.instance(id) {
        Some(_) => r is Done,
        None => r matches Response::Error(e) && e@ == "unknown instance "@ + id,
    }
}

/// Whether the response is the right one to the request.
pub open spec fn answers(d: DaemonV, req: Request, now: u64, host: HostPorts, r: Response) -> bool {
    match req {
        Request::Ping => r is Done,
        Request::Register { name, .. } => r matches Response::Registered { instance }
            && instance@ == instance_id(name@, d.seq + 1),
        Request::Deregister { .. } => r is Done,
        Request::Update { instance, .. } => known_or_error(d, instance@, r),
        Request::AllocatePort { .. } => match reservation(
            d.leases,
            None,
            host.preferred_free,
            host.offers@,
        ) {
            Some(res) => r == (Response::Port { port: res.port }),
            None => r matches Response::Error(e) && e@ == "could not allocate a free port"@,
        },
        Request::ReservePort { preferred, .. } => match reservation(
            d.leases,
            preferred,
            host.preferred_free,
            host.offers@,
        ) {
            Some(res) => r == (Response::ReservedPort {
                port: res.port,
                preferred: res.preferred,
                conflict: res.conflict,
            }),
            None => r matches Response::Error(e) && e@ == "could not allocate a free port"@,
        },
        Request::ReleasePort { .. } => r is Done,
        Request::RegisterRoute { .. } => r is Done,
        Request::RemoveRoute { .. } => r is Done,
        Request::GetState => r matches Response::State(s) && {
            &&& states_view(s.instances@) == states_of(d.pruned(now).instances)
            &&& infos_view(s.routes@) == d.pruned(now).routes
            &&& s.proxy_port == d.proxy_port
            &&& s.tld@ == d.tld
        },
        Request::GetLogs { instance, resource, since } => r matches Response::Logs { lines, cursor }
            && {
            &&& texts(lines@) == d.logs(instance@, resource@, since).0
            &&& cursor == d.logs(instance@, resource@, since).1
        },
        Request::PollCommands { instance } => r matches Response::Commands(c) && c@ == (
        match d.instance(instance@) {
            Some(i) => i.commands,
            None => Seq::empty(),
        }),
        Request::Trigger { instance, .. } => known_or_error(d, instance@, r),
        Request::Restart { instance, .. } => known_or_error(d, instance@, r),
        Request::SetPort { instance, .. } => known_or_error(d, instance@, r),
        Request::SetPaused { instance, .. } => known_or_error(d, instance@, r),
        Request::ShutdownProject { dir } => r matches Response::ShutdownQueued { instances }
            && states_view(instances@) == states_in(d.instances, dir@),
        Request::ShutdownDaemon => r matches Response::ShutdownQueued { instances } && states_view(
            instances@,
        ) == states_of(d.instances),
        Request::GetObjects { kind } => r matches Response::Objects(o) && snapshots_view(o@)
            == gathered_objects(
            d.instances,
            match kind {
                Some(k) => Some(k@),
                None => None,
            },
        ),
        Request::SetTiltfileArgs { instance, .. } => known_or_error(d, instance@, r),
    }
}

/// Whether the counters leave room for what the request adds.
pub open spec fn request_fits(d: DaemonV, req: Request) -> bool {
    match req {
        Request::Register { .. } => d.seq < u64::MAX,
        Request::Update { logs, .. } => lines_in(batches_view(logs@)) <= u64::MAX && d.log_room(
            lines_in(batches_view(logs@)),
        ),
        Request::GetLogs { .. } => d.log_room(0),
        _ => true,
    }
}

/// The number of lines in the batches, where it fits in 64 bits.
fn count_lines(logs: &Vec<(String, Vec<String>)>) -> (r: Option<u64>)
    ensures
        match r {
            Some(n) => n == lines_in(batches_view(logs@)),
            None => lines_in(batches_view(logs@)) > u64::MAX,
        },
{
    let ghost all = batches_view(logs@);
    let mut n: u64 = 0;
    let mut i: usize = 0;
    while i < logs.len()
        invariant
            i <= logs@.len(),
            all == batches_view(logs@),
            n == lines_in(all.take(i as int)),
        decreases logs@.len() - i,
    {
        let len: usize = logs[i].1.len();
        proof {
            assert(all.take(i + 1).drop_last() =~= all.take(i as int));
            assert(all.take(i + 1).last() == all[i as int]);
            assert(all[i as int].1.len() == len);
            lines_in_grows(all, i + 1);
        }
        if n > u64::MAX - len as u64 {
            return None;
        }
        n = n + len as u64;
        i += 1;
    }
    assert(all.take(i as int) =~= all);
    Some(n)
}

/// Whether every ring leaves room for `n` more lines.
fn rings_room(logs: &Vec<(String, LogRing)>, n: u64) -> (r: bool)
    ensures
        r == forall|j: int|
            0 <= j < logs@.len() ==> (#[trigger] logs_view(logs@)[j]).1.end() + n <= u64::MAX,
{
    let ghost all = logs_view(logs@);
    let mut i: usize = 0;
    while i < logs.len()
        invariant
            i <= logs@.len(),
            all == logs_view(logs@),
            forall|j: int| 0 <= j < i ==> (#[trigger] all[j]).1.end() + n <= u64::MAX,
        decreases logs@.len() - i,
    {
        assert(all[i as int].1 == logs@[i as int].1@);
        if !logs[i].1.room(n) {
            return false;
        }
        i += 1;
    }
    true
}

impl Daemon {
    /// Whether the rings of all instances leave room for `n` more lines.
    fn has_log_room(&self, n: u64) -> (r: bool)
        ensures
            r == self@.log_room(n as nat),
    {
        let ghost all = self@.instances;
        let mut i: usize = 0;
        while i < self.instances.len()
            invariant
                i <= self.instances@.len(),
                all == instances_view(self.instances@),
                all == self@.instances,
                forall|k: int, j: int|
                    0 <= k < i && 0 <= j < all[k].logs.len() ==> (
                    #[trigger] all[k].logs[j]).1.end() + n <= u64::MAX,
            decreases self.instances@.len() - i,
        {
            let fits = rings_room(&self.instances[i].logs, n);
            assert(all[i as int].logs == logs_view(self.instances@[i as int].logs@));
            if !fits {
                return false;
            }
            i += 1;
        }
        true
    }

    /// Whether the counters leave room for what the request adds.
    pub fn fits(&self, req: &Request) -> (r: bool)
        ensures
            r == request_fits(self@, *req),
    {
        match req {
            Request::Register { .. } => self.seq < u64::MAX,
            Request::Update { logs, .. } => match count_lines(logs) {
                Some(n) => self.has_log_room(n),
                None => false,
            },
            Request::GetLogs { .. } => self.has_log_room(0),
            _ => true,
        }
    }
}

/// The response to a request for an instance: done where it is known.
fn known_response(known: bool, instance: &str) -> (r: Response)
    ensures
        known ==> r is Done,
        !known ==> (r matches Response::Error(e) && e@ == "unknown instance "@ + instance@),
{
    if known {
        Response::Done
    } else {
        Response::Error(cat("unknown instance ", instance))
    }
}

fn plain(response: Response) -> (r: Reply)
    ensures
        r.response == response,
        r.advertise is None,
        !r.exit,
{
    Reply { response, advertise: None, exit: false }
}

impl Daemon {
    /// Carries out a request. Routes are advertised where `lan` is set; the first
    /// request to shut down asks for the daemon's end.
    pub fn handle(&mut self, req: Request, now: u64, host: &HostPorts, lan: bool) -> (r: Reply)
        requires
            request_fits(old(self)@, req),
        ensures
            final(self)@ == next_state(old(self)@, req, now, *host),
            answers(old(self)@, req, now, *host, r.response),
            match req {
                Request::RegisterRoute { hostname, .. } if lan => r.advertise is Some
                    && r.advertise->0@ == hostname@,
                _ => r.advertise is None,
            },
            r.exit == (req is ShutdownDaemon && !old(self)@.shutting_down),
    {
        match req {
            Request::Ping => plain(Response::Done),
            Request::Register { name, dir, pid } => {
                let instance = self.register(name, dir, pid, now);
                plain(Response::Registered { instance })
            },
            Request::Deregister { instance } => {
                self.deregister(instance.as_str());
                plain(Response::Done)
            },
            Request::Update { instance, resources, logs, objects, api_addr } => {
                let known = self.update(
                    instance.as_str(),
                    resources,
                    logs,
                    objects,
                    api_addr,
                    now,
                );
                plain(known_response(known, instance.as_str()))
            },
            Request::AllocatePort { instance } => match self.reserve_port(
                instance.as_str(),
                None,
                host,
            ) {
                Some(res) => plain(Response::Port { port: res.port }),
                None => plain(Response::Error(owned("could not allocate a free port"))),
            },
            Request::ReservePort { instance, preferred } => match self.reserve_port(
                instance.as_str(),
                preferred,
                host,
            ) {
                Some(res) => plain(
                    Response::ReservedPort {
                        port: res.port,
                        preferred: res.preferred,
                        conflict: res.conflict,
                    },
                ),
                None => plain(Response::Error(owned("could not allocate a free port"))),
            },
            Request::ReleasePort { instance, port } => {
                self.release_port(instance.as_str(), port);
                plain(Response::Done)
            },
            Request::RegisterRoute { instance, hostname, port } => {
                self.register_route(instance.as_str(), hostname.as_str(), port);
                Reply {
                    response: Response::Done,
                    advertise: if lan {
                        Some(hostname)
                    } else {
                        None
                    },
                    exit: false,
                }
            },
            Request::RemoveRoute { hostname } => {
                self.remove_route(hostname.as_str());
                plain(Response::Done)
            },
            Request::GetState => {
                let state = self.get_state(now);
                plain(Response::State(state))
            },
            Request::GetLogs { instance, resource, since } => {
                let (lines, cursor) = self.get_logs(instance.as_str(), resource.as_str(), since);
                plain(Response::Logs { lines, cursor })
            },
            Request::PollCommands { instance } => {
                let commands = self.poll_commands(instance.as_str(), now);
                plain(Response::Commands(commands))
            },
            Request::Trigger { instance, resource } => {
                let known = self.queue(instance.as_str(), Command::Trigger { resource });
                plain(known_response(known, instance.as_str()))
            },
            Request::Restart { instance, resource } => {
                let known = self.queue(instance.as_str(), Command::Restart { resource });
                plain(known_response(known, instance.as_str()))
            },
            Request::SetPort { instance, resource, port } => {
                let known = self.queue(instance.as_str(), Command::SetPort { resource, port });
                plain(known_response(known, instance.as_str()))
            },
            Request::SetPaused { instance, resource, paused } => {
                let known = self.queue(
                    instance.as_str(),
                    Command::SetPaused { resource, paused },
                );
                plain(known_response(known, instance.as_str()))
            },
            Request::ShutdownProject { dir } => {
                let instances = self.shutdown_project(dir.as_str());
                plain(Response::ShutdownQueued { instances })
            },
            Request::ShutdownDaemon => {
                let (instances, first) = self.shutdown_daemon();
                Reply {
                    response: Response::ShutdownQueued { instances },
                    advertise: None,
                    exit: first,
                }
            },
            Request::GetObjects { kind } => {
                let objects = match &kind {
                    Some(k) => self.get_objects(Some(k.as_str())),
                    None => self.get_objects(None),
                };
                plain(Response::Objects(objects))
            },
            Request::SetTiltfileArgs { instance, args } => {
                let known = self.queue(instance.as_str(), Command::SetTiltfileArgs { args });
                plain(known_response(known, instance.as_str()))
            },
        }
    }
}

} // verus!
