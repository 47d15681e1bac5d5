//! The named ports that the config asks for, and the services that follow from it.

use vstd::prelude::*;
use vstd::string::*;

use crate::engine::log::{line, log_v, logs, logs_push, Level, LogLine, LogV};
use crate::engine::services::{
    distinct_services, endpoint_of, service_found, service_index, service_removed, service_set,
    EndpointV, ServiceEndpoint, ServiceRegistry,
};
use crate::manifest::{Manifest, NamedPortLease};
use crate::proxy::PortReservation;
use crate::proxy_handle::ProxyHandle;
use crate::text::{debug_text, debugged, dec, decimal, owned, same};

verus! {

/// The named ports that are wanted: names, and the preferred port of each.
pub open spec fn wants_view(v: Seq<(String, Option<u16>)>) -> Seq<(Seq<char>, Option<u16>)> {
    v.map_values(|e: (String, Option<u16>)| (e.0@, e.1))
}

/// The index of the wanted port of a name, not before `i`; the number of wanted ports
/// where there is none.
pub open spec fn want_index(v: Seq<(Seq<char>, Option<u16>)>, name: Seq<char>, i: int) -> int
    decreases v.len() - i,
{
    if i < 0 || i >= v.len() {
        v.len() as int
    } else if v[i].0 == name {
        i
    } else {
        want_index(v, name, i + 1)
    }
}

/// The preference for the port of a name, where one is wanted.
pub open spec fn want_of(v: Seq<(Seq<char>, Option<u16>)>, name: Seq<char>) -> Option<Option<u16>> {
    let i = want_index(v, name, 0);
    if i < v.len() {
        Some(v[i].1)
    } else {
        None
    }
}

/// The wanted ports with the one of a name set.
pub open spec fn want_set(
    v: Seq<(Seq<char>, Option<u16>)>,
    name: Seq<char>,
    preferred: Option<u16>,
) -> Seq<(Seq<char>, Option<u16>)> {
    let i = want_index(v, name, 0);
    if i < v.len() {
        v.update(i, (name, preferred))
    } else {
        v.push((name, preferred))
    }
}

/// The ports that the leases of the config ask for: one for each name, as the last
/// lease of that name says.
pub open spec fn wanted(leases: Seq<NamedPortLease>) -> Seq<(Seq<char>, Option<u16>)>
    decreases leases.len(),
{
    if leases.len() == 0 {
        Seq::empty()
    } else {
        want_set(wanted(leases.drop_last()), leases.last().name@, leases.last().preferred)
    }
}

fn index_of_want(v: &Vec<(String, Option<u16>)>, name: &str) -> (r: usize)
    ensures
        r == want_index(wants_view(v@), name@, 0),
        r <= v@.len(),
{
    let ghost all = wants_view(v@);
    let mut i: usize = 0;
    while i < v.len()
        invariant
            i <= v@.len(),
            all == wants_view(v@),
            want_index(all, name@, 0) == want_index(all, name@, i as int),
        decreases v@.len() - i,
    {
        assert(all[i as int].0 == v@[i as int].0@);
        if same(v[i].0.as_str(), name) {
            return i;
        }
        i += 1;
    }
    i
}

/// The ports that the leases of the config ask for.
pub fn desired_port_leases(port_leases: &Vec<NamedPortLease>) -> (r: Vec<(String, Option<u16>)>)
    ensures
        wants_view(r@) == wanted(port_leases@),
{
    let mut r: Vec<(String, Option<u16>)> = Vec::new();
    let mut i: usize = 0;
    assert(wants_view(r@) =~= wanted(port_leases@.take(0)));
    while i < port_leases.len()
        invariant
            i <= port_leases@.len(),
            wants_view(r@) == wanted(port_leases@.take(i as int)),
        decreases port_leases@.len() - i,
    {
        proof {
            assert(port_leases@.take(i + 1).drop_last() =~= port_leases@.take(i as int));
            assert(port_leases@.take(i + 1).last() == port_leases@[i as int]);
        }
        let ghost before = wants_view(r@);
        let lease = &port_leases[i];
        let k: usize = index_of_want(&r, lease.name.as_str());
        if k < r.len() {
            r.set(k, (lease.name.clone(), lease.preferred));
            assert(wants_view(r@) =~= before.update(k as int, (lease.name@, lease.preferred)));
        } else {
            r.push((lease.name.clone(), lease.preferred));
            assert(wants_view(r@) =~= before.push((lease.name@, lease.preferred)));
        }
        i += 1;
    }
    assert(port_leases@.take(i as int) =~= port_leases@);
    r
}

/// The named ports that are held.
pub open spec fn held_view(v: Seq<(String, PortReservation)>) -> Seq<(Seq<char>, PortReservation)> {
    v.map_values(|e: (String, PortReservation)| (e.0@, e.1))
}

/// Whether a held port is still wanted as it was.
pub open spec fn still_wanted(
    e: (Seq<char>, PortReservation),
    wants: Seq<(Seq<char>, Option<u16>)>,
) -> bool {
    want_of(wants, e.0) == Some(e.1.preferred)
}

/// The held ports that are still wanted as they were.
pub open spec fn kept_ports(
    held: Seq<(Seq<char>, PortReservation)>,
    wants: Seq<(Seq<char>, Option<u16>)>,
) -> Seq<(Seq<char>, PortReservation)>
    decreases held.len(),
{
    if held.len() == 0 {
        Seq::empty()
    } else if still_wanted(held.last(), wants) {
        kept_ports(held.drop_last(), wants).push(held.last())
    } else {
        kept_ports(held.drop_last(), wants)
    }
}

/// The numbers of the held ports that are to be given back.
pub open spec fn freed_ports(
    held: Seq<(Seq<char>, PortReservation)>,
    wants: Seq<(Seq<char>, Option<u16>)>,
) -> Seq<u16>
    decreases held.len(),
{
    if held.len() == 0 {
        Seq::empty()
    } else if still_wanted(held.last(), wants) {
        freed_ports(held.drop_last(), wants)
    } else {
        freed_ports(held.drop_last(), wants).push(held.last().1.port)
    }
}

/// The services without those of the ports that are to be given back.
pub open spec fn services_left(
    services: Seq<(Seq<char>, EndpointV)>,
    held: Seq<(Seq<char>, PortReservation)>,
    wants: Seq<(Seq<char>, Option<u16>)>,
) -> Seq<(Seq<char>, EndpointV)>
    decreases held.len(),
{
    if held.len() == 0 {
        services
    } else {
        let rest = services_left(services, held.drop_last(), wants);
        if still_wanted(held.last(), wants) {
            rest
        } else {
            service_removed(rest, held.last().0)
        }
    }
}

/// Whether a port is held under a name.
pub open spec fn holds_name(held: Seq<(Seq<char>, PortReservation)>, name: Seq<char>) -> bool {
    exists|i: int| 0 <= i < held.len() && (#[trigger] held[i]).0 == name
}

/// The wanted ports that are not held yet.
pub open spec fn missing_ports(
    held: Seq<(Seq<char>, PortReservation)>,
    wants: Seq<(Seq<char>, Option<u16>)>,
) -> Seq<(Seq<char>, Option<u16>)>
    decreases wants.len(),
{
    if wants.len() == 0 {
        Seq::empty()
    } else if holds_name(held, wants.last().0) {
        missing_ports(held, wants.drop_last())
    } else {
        missing_ports(held, wants.drop_last()).push(wants.last())
    }
}

/// The port that a name gets: the reserved one, else a free one; nothing where there
/// is neither.
pub open spec fn settled_port(
    preferred: Option<u16>,
    reserved: Option<PortReservation>,
    free: Result<u16, String>,
) -> Option<PortReservation> {
    match reserved {
        Some(r) => Some(r),
        None => match free {
            Ok(port) => Some(PortReservation { port, preferred, conflict: preferred is Some }),
            Err(_) => None,
        },
    }
}

/// What is logged when a name gets its port.
pub open spec fn port_logs(
    name: Seq<char>,
    span: Seq<char>,
    settled: Option<PortReservation>,
    error: Seq<char>,
) -> Seq<LogV> {
    match settled {
        None => seq![
            log_v(
                span,
                Level::Error,
                "Could not allocate starling_port("@ + debugged(name) + "): "@ + error + "\n"@,
            ),
        ],
        Some(r) => if r.conflict && r.preferred is Some {
            seq![
                log_v(
                    span,
                    Level::Warn,
                    "Configured starling_port("@ + debugged(name) + ", preferred="@ + dec(
                        r.preferred->0 as nat,
                    ) + ") is unavailable; using fallback port "@ + dec(r.port as nat) + "\n"@,
                ),
            ]
        } else {
            Seq::empty()
        },
    }
}

/// The named ports that an engine holds, each under its own name.
#[derive(Debug)]
pub struct NamedPorts {
    held: Vec<(String, PortReservation)>,
}

impl View for NamedPorts {
    type V = Seq<(Seq<char>, PortReservation)>;

    closed spec fn view(&self) -> Seq<(Seq<char>, PortReservation)> {
        held_view(self.held@)
    }
}

/// The port reserved without a proxy: the preferred one.
pub fn unproxied_port(preferred: Option<u16>) -> (r: Option<PortReservation>)
    ensures
        r == (match preferred {
            Some(port) => Some(PortReservation { port, preferred, conflict: false }),
            None => None,
        }),
{
    match preferred {
        Some(port) => Some(PortReservation { port, preferred, conflict: false }),
        None => None,
    }
}

impl NamedPorts {
    /// No ports.
    pub fn new() -> (r: NamedPorts)
        ensures
            r@ == Seq::<(Seq<char>, PortReservation)>::empty(),
    {
        let r = NamedPorts { held: Vec::new() };
        assert(r@ =~= Seq::empty());
        r
    }

    /// Lets go of the ports that are no longer wanted as they were, and of their
    /// services; returns the ports that are to be given back.
    pub fn drop_stale(&mut self, wants: &Vec<(String, Option<u16>)>, services: &mut ServiceRegistry)
        -> (r: Vec<u16>)
        requires
            old(services).ok(),
        ensures
            r@ == freed_ports(old(self)@, wants_view(wants@)),
            final(self)@ == kept_ports(old(self)@, wants_view(wants@)),
            final(services)@ == services_left(old(services)@, old(self)@, wants_view(wants@)),
            final(services).ok(),
    {
        let ghost all = self@;
        let ghost w = wants_view(wants@);
        let ghost s0 = services@;
        let mut kept: Vec<(String, PortReservation)> = Vec::new();
        let mut freed: Vec<u16> = Vec::new();
        let mut i: usize = 0;
        assert(held_view(kept@) =~= kept_ports(all.take(0), w));
        assert(freed@ =~= freed_ports(all.take(0), w));
        while i < self.held.len()
            invariant
                i <= self.held@.len(),
                all == held_view(self.held@),
                w == wants_view(wants@),
                held_view(kept@) == kept_ports(all.take(i as int), w),
                freed@ == freed_ports(all.take(i as int), w),
                services@ == services_left(s0, all.take(i as int), w),
                services.ok(),
            decreases self.held@.len() - i,
        {
            proof {
                assert(all.take(i + 1).drop_last() =~= all.take(i as int));
                assert(all.take(i + 1).last() == (self.held@[i as int].0@, self.held@[i as int].1));
            }
            let e = &self.held[i];
            let name = e.0.clone();
            let reservation = e.1;
            let k: usize = index_of_want(wants, name.as_str());
            let mut keep = false;
            if k < wants.len() {
                assert(w[k as int].1 == wants@[k as int].1);
                keep = same_preference(wants[k].1, reservation.preferred);
            }
            if keep {
                let ghost before = held_view(kept@);
                kept.push((name, reservation));
                assert(held_view(kept@) =~= before.push((name@, reservation)));
            } else {
                freed.push(reservation.port);
                services.remove(name.as_str());
            }
            i += 1;
        }
        assert(all.take(i as int) =~= all);
        self.held = kept;
        freed
    }

    /// Whether a port is held under a name.
    fn holds(&self, name: &str) -> (r: bool)
        ensures
            r == holds_name(self@, name@),
    {
        let mut i: usize = 0;
        while i < self.held.len()
            invariant
                i <= self.held@.len(),
                forall|j: int| 0 <= j < i ==> (#[trigger] self@[j]).0 != name@,
            decreases self.held@.len() - i,
        {
            assert(self@[i as int].0 == self.held@[i as int].0@);
            if same(self.held[i].0.as_str(), name) {
                return true;
            }
            i += 1;
        }
        false
    }

    /// The wanted ports that are not held yet.
    pub fn missing(&self, wants: &Vec<(String, Option<u16>)>) -> (r: Vec<(String, Option<u16>)>)
        ensures
            wants_view(r@) == missing_ports(self@, wants_view(wants@)),
    {
        let ghost all = wants_view(wants@);
        let mut r: Vec<(String, Option<u16>)> = Vec::new();
        let mut i: usize = 0;
        assert(wants_view(r@) =~= missing_ports(self@, all.take(0)));
        while i < wants.len()
            invariant
                i <= wants@.len(),
                all == wants_view(wants@),
                wants_view(r@) == missing_ports(self@, all.take(i as int)),
            decreases wants@.len() - i,
        {
            proof {
                assert(all.take(i + 1).drop_last() =~= all.take(i as int));
                assert(all.take(i + 1).last() == (wants@[i as int].0@, wants@[i as int].1));
            }
            let name = wants[i].0.clone();
            if !self.holds(name.as_str()) {
                let ghost before = wants_view(r@);
                let preferred = wants[i].1;
                r.push((name, preferred));
                assert(wants_view(r@) =~= before.push((name@, preferred)));
            }
            i += 1;
        }
        assert(all.take(i as int) =~= all);
        r
    }

    /// Takes the port that a missing name gets: the reserved one, else a free one.
    /// Where there is neither, the name stays without a port. Returns what is logged.
    pub fn settle(
        &mut self,
        name: &str,
        preferred: Option<u16>,
        reserved: Option<PortReservation>,
        free: Result<u16, String>,
        span: &str,
    ) -> (r: Vec<LogLine>)
        ensures
            ({
                let settled = settled_port(preferred, reserved, free);
                &&& final(self)@ == (match settled {
                    Some(p) => old(self)@.push((name@, p)),
                    None => old(self)@,
                })
                &&& logs(r@) == port_logs(
                    name@,
                    span@,
                    settled,
                    match free {
                        Err(e) => e@,
                        Ok(_) => Seq::empty(),
                    },
                )
            }),
    {
        broadcast use logs_push;

        let mut log: Vec<LogLine> = Vec::new();
        assert(logs(log@) =~= Seq::empty());
        let settled = match reserved {
            Some(r) => r,
            None => match free {
                Ok(port) => PortReservation { port, preferred, conflict: preferred.is_some() },
                Err(e) => {
                    let mut text = owned("Could not allocate starling_port(");
                    text.append(debug_text(name).as_str());
                    text.append("): ");
                    text.append(e.as_str());
                    text.append("\n");
                    log.push(line(span, Level::Error, text));
                    assert(logs(log@) =~= port_logs(name@, span@, None, e@));
                    return log;
                },
            },
        };
        if settled.conflict {
            if let Some(p) = settled.preferred {
                let mut text = owned("Configured starling_port(");
                text.append(debug_text(name).as_str());
                text.append(", preferred=");
                text.append(decimal(p as u64).as_str());
                text.append(") is unavailable; using fallback port ");
                text.append(decimal(settled.port as u64).as_str());
                text.append("\n");
                log.push(line(span, Level::Warn, text));
            }
        }
        let ghost before = self.held@;
        self.held.push((owned(name), settled));
        proof {
            assert(held_view(self.held@) =~= held_view(before).push((name@, settled)));
            assert(logs(log@) =~= port_logs(
                name@,
                span@,
                Some(settled),
                match free {
                    Err(e) => e@,
                    Ok(_) => Seq::empty(),
                },
            ));
        }
        log
    }
}

fn same_preference(a: Option<u16>, b: Option<u16>) -> (r: bool)
    ensures
        r == (a == b),
{
    match (a, b) {
        (Some(x), Some(y)) => x == y,
        (None, None) => true,
        _ => false,
    }
}

/// Once the stale ports are dropped, none is stale: dropping them again changes
/// nothing, and no port is given back twice.
pub proof fn dropped_once(
    held: Seq<(Seq<char>, PortReservation)>,
    wants: Seq<(Seq<char>, Option<u16>)>,
)
    ensures
        kept_ports(kept_ports(held, wants), wants) == kept_ports(held, wants),
        freed_ports(kept_ports(held, wants), wants) == Seq::<u16>::empty(),
    decreases held.len(),
{
    let k = kept_ports(held, wants);
    if held.len() == 0 {
        assert(kept_ports(k, wants) =~= k);
    } else {
        dropped_once(held.drop_last(), wants);
        if still_wanted(held.last(), wants) {
            assert(k.drop_last() =~= kept_ports(held.drop_last(), wants));
            assert(k.last() == held.last());
        }
    }
}

/// The services of a resource that serves: its hostname and URL are known where there
/// is a proxy.
pub open spec fn declared_endpoint(
    before: Option<EndpointV>,
    name: Seq<char>,
    proxy: Option<ProxyHandle>,
) -> EndpointV {
    let e = match before {
        Some(e) => e,
        None => EndpointV { host: None, port: None, url: None },
    };
    match proxy {
        Some(p) => EndpointV { host: Some(p.host_of(name)), url: Some(p.url_of(name)), ..e },
        None => e,
    }
}

/// The services with those of the resources that serve.
pub open spec fn declared(
    services: Seq<(Seq<char>, EndpointV)>,
    ms: Seq<Manifest>,
    proxy: Option<ProxyHandle>,
) -> Seq<(Seq<char>, EndpointV)>
    decreases ms.len(),
{
    if ms.len() == 0 {
        services
    } else {
        let rest = declared(services, ms.drop_last(), proxy);
        let m = ms.last();
        if m.serve_cmd.argv@.len() == 0 {
            rest
        } else {
            service_set(
                rest,
                m.name@,
                declared_endpoint(endpoint_of(rest, m.name@), m.name@, proxy),
            )
        }
    }
}

/// The services with those of the named ports.
pub open spec fn with_ports(
    services: Seq<(Seq<char>, EndpointV)>,
    held: Seq<(Seq<char>, PortReservation)>,
) -> Seq<(Seq<char>, EndpointV)>
    decreases held.len(),
{
    if held.len() == 0 {
        services
    } else {
        service_set(
            with_ports(services, held.drop_last()),
            held.last().0,
            EndpointV { host: Some("127.0.0.1"@), port: Some(held.last().1.port), url: None },
        )
    }
}

/// Whether a resource of the name serves.
pub open spec fn serves(ms: Seq<Manifest>, name: Seq<char>) -> bool {
    exists|i: int|
        0 <= i < ms.len() && (#[trigger] ms[i]).name@ == name && ms[i].serve_cmd.argv@.len() > 0
}

/// The services of the resources that serve and of the named ports, others left out.
pub open spec fn only_declared(
    services: Seq<(Seq<char>, EndpointV)>,
    ms: Seq<Manifest>,
    held: Seq<(Seq<char>, PortReservation)>,
) -> Seq<(Seq<char>, EndpointV)>
    decreases services.len(),
{
    if services.len() == 0 {
        Seq::empty()
    } else {
        let rest = only_declared(services.drop_last(), ms, held);
        let name = services.last().0;
        if serves(ms, name) || holds_name(held, name) {
            rest.push(services.last())
        } else {
            rest
        }
    }
}

/// The services once they are brought up to date with the config.
pub open spec fn refreshed(
    services: Seq<(Seq<char>, EndpointV)>,
    ms: Seq<Manifest>,
    held: Seq<(Seq<char>, PortReservation)>,
    proxy: Option<ProxyHandle>,
) -> Seq<(Seq<char>, EndpointV)> {
    only_declared(with_ports(declared(services, ms, proxy), held), ms, held)
}

fn serving(ms: &Vec<Manifest>, name: &str) -> (r: bool)
    ensures
        r == serves(ms@, name@),
{
    let mut i: usize = 0;
    while i < ms.len()
        invariant
            i <= ms@.len(),
            forall|j: int|
                0 <= j < i ==> !((#[trigger] ms@[j]).name@ == name@ && ms@[j].serve_cmd.argv@.len()
                    > 0),
        decreases ms@.len() - i,
    {
        if same(ms[i].name.as_str(), name) && !ms[i].serve_cmd.is_empty() {
            return true;
        }
        i += 1;
    }
    false
}

fn clone_endpoint(e: &ServiceEndpoint) -> (r: ServiceEndpoint)
    ensures
        r@ == e@,
{
    ServiceEndpoint { host: e.host.clone(), port: e.port, url: e.url.clone() }
}

fn opt_handle(p: Option<&ProxyHandle>) -> (r: Ghost<Option<ProxyHandle>>)
    ensures
        r@ == (match p {
            Some(h) => Some(*h),
            None => None,
        }),
{
    Ghost(
        match p {
            Some(h) => Some(*h),
            None => None,
        },
    )
}

/// Brings the services up to date with the config: those of the resources that serve,
/// with their hostnames and URLs where there is a proxy, and those of the named ports;
/// others are forgotten.
pub fn refresh_declared_services(
    services: &mut ServiceRegistry,
    manifests: &Vec<Manifest>,
    ports: &NamedPorts,
    proxy: Option<&ProxyHandle>,
)
    requires
        old(services).ok(),
    ensures
        final(services)@ == refreshed(
            old(services)@,
            manifests@,
            ports@,
            match proxy {
                Some(p) => Some(*p),
                None => None,
            },
        ),
        final(services).ok(),
{
    let ghost s0 = services@;
    let Ghost(handle) = opt_handle(proxy);
    let mut i: usize = 0;
    assert(manifests@.take(0).len() == 0);
    while i < manifests.len()
        invariant
            i <= manifests@.len(),
            services.ok(),
            handle == (match proxy {
                Some(p) => Some(*p),
                None => None,
            }),
            services@ == declared(s0, manifests@.take(i as int), handle),
        decreases manifests@.len() - i,
    {
        let m = &manifests[i];
        proof {
            assert(manifests@.take(i + 1).drop_last() =~= manifests@.take(i as int));
            assert(manifests@.take(i + 1).last() == *m);
        }
        if !m.serve_cmd.is_empty() {
            let mut e = match services.get(m.name.as_str()) {
                Some(e) => clone_endpoint(e),
                None => ServiceEndpoint { host: None, port: None, url: None },
            };
            if let Some(p) = proxy {
                e.host = Some(p.hostname(m.name.as_str()));
                e.url = Some(p.url_for(m.name.as_str()));
            }
            services.insert(m.name.as_str(), e);
        }
        i += 1;
    }
    assert(manifests@.take(i as int) =~= manifests@);
    let ghost s1 = services@;
    let ghost held = ports@;
    let mut k: usize = 0;
    assert(held.take(0).len() == 0);
    while k < ports.held.len()
        invariant
            k <= ports.held@.len(),
            held == held_view(ports.held@),
            services.ok(),
            services@ == with_ports(s1, held.take(k as int)),
        decreases ports.held@.len() - k,
    {
        proof {
            assert(held.take(k + 1).drop_last() =~= held.take(k as int));
            assert(held.take(k + 1).last() == (ports.held@[k as int].0@, ports.held@[k as int].1));
        }
        services.insert(
            ports.held[k].0.as_str(),
            ServiceEndpoint {
                host: Some(owned("127.0.0.1")),
                port: Some(ports.held[k].1.port),
                url: None,
            },
        );
        k += 1;
    }
    assert(held.take(k as int) =~= held);
    services.keep_declared(manifests, ports);
}

impl ServiceRegistry {
    /// Forgets the services other than those of the resources that serve and of the
    /// named ports.
    fn keep_declared(&mut self, manifests: &Vec<Manifest>, ports: &NamedPorts)
        requires
            old(self).ok(),
        ensures
            final(self)@ == only_declared(old(self)@, manifests@, ports@),
            final(self).ok(),
    {
        let names = self.names();
        let ghost all = self@;
        let mut i: usize = 0;
        assert(all.take(0).len() == 0);
        assert(only_declared(all.take(0), manifests@, ports@) + all.skip(0) =~= all);
        while i < names.len()
            invariant
                i <= names@.len(),
                names@.len() == all.len(),
                forall|j: int| 0 <= j < all.len() ==> (#[trigger] all[j]).0 == names@[j]@,
                distinct_services(all),
                self.ok(),
                self@ == only_declared(all.take(i as int), manifests@, ports@) + all.skip(
                    i as int,
                ),
            decreases names@.len() - i,
        {
            let name = names[i].as_str();
            let ghost done = only_declared(all.take(i as int), manifests@, ports@);
            proof {
                assert(all.take(i + 1).drop_last() =~= all.take(i as int));
                assert(all.take(i + 1).last() == all[i as int]);
                assert(all[i as int].0 == name@);
                only_declared_names(all.take(i as int), manifests@, ports@);
            }
            let keep = serving(manifests, name) || ports.holds(name);
            if keep {
                assert(done.push(all[i as int]) + all.skip(i + 1) =~= done + all.skip(i as int));
            } else {
                proof {
                    let now = self@;
                    let at = done.len() as int;
                    assert(now[at] == all[i as int]);
                    assert forall|j: int| 0 <= j < at implies (#[trigger] now[j]).0 != name@ by {
                        assert(now[j] == done[j]);
                        let h = choose|h: int|
                            0 <= h < all.take(i as int).len() && all.take(i as int)[h] == done[j];
                        assert(all[h].0 != all[i as int].0);
                    }
                    service_found(now, name@, 0);
                    assert(service_index(now, name@, 0) == at);
                    assert(now.remove(at) =~= done + all.skip(i + 1));
                }
                self.remove(name);
            }
            i += 1;
        }
        assert(all.take(i as int) =~= all);
        assert(self@ =~= only_declared(all, manifests@, ports@));
    }
}

proof fn only_declared_names(
    s: Seq<(Seq<char>, EndpointV)>,
    ms: Seq<Manifest>,
    held: Seq<(Seq<char>, PortReservation)>,
)
    ensures
        forall|j: int|
            0 <= j < only_declared(s, ms, held).len() ==> {
                let e = #[trigger] only_declared(s, ms, held)[j];
                &&& serves(ms, e.0) || holds_name(held, e.0)
                &&& exists|h: int| 0 <= h < s.len() && s[h] == e
            },
    decreases s.len(),
{
    if s.len() > 0 {
        let d = s.drop_last();
        only_declared_names(d, ms, held);
        let r = only_declared(s, ms, held);
        let q = only_declared(d, ms, held);
        assert forall|j: int| 0 <= j < r.len() implies ({
            let e = #[trigger] r[j];
            &&& serves(ms, e.0) || holds_name(held, e.0)
            &&& exists|h: int| 0 <= h < s.len() && s[h] == e
        }) by {
            if j < q.len() {
                assert(r[j] == q[j]);
                let h = choose|h: int| 0 <= h < d.len() && d[h] == q[j];
                assert(s[h] == r[j]);
            } else {
                assert(s[s.len() - 1] == r[j]);
            }
        }
    }
}

/// Whether there is a service of the name.
pub open spec fn has_service(v: Seq<(Seq<char>, EndpointV)>, name: Seq<char>) -> bool {
    exists|i: int| 0 <= i < v.len() && (#[trigger] v[i]).0 == name
}

proof fn set_has(v: Seq<(Seq<char>, EndpointV)>, name: Seq<char>, e: EndpointV, x: Seq<char>)
    ensures
        has_service(service_set(v, name, e), x) <==> has_service(v, x) || x == name,
{
    service_found(v, name, 0);
    let i = service_index(v, name, 0);
    let r = service_set(v, name, e);
    assert(r[i].0 == name);
    if has_service(v, x) {
        let j = choose|j: int| 0 <= j < v.len() && (#[trigger] v[j]).0 == x;
        assert(r[j].0 == x);
    }
    if has_service(r, x) && x != name {
        let j = choose|j: int| 0 <= j < r.len() && (#[trigger] r[j]).0 == x;
        assert(v[j].0 == x);
    }
}

proof fn declared_has(
    v: Seq<(Seq<char>, EndpointV)>,
    ms: Seq<Manifest>,
    proxy: Option<ProxyHandle>,
    x: Seq<char>,
)
    ensures
        has_service(declared(v, ms, proxy), x) <==> has_service(v, x) || serves(ms, x),
    decreases ms.len(),
{
    if ms.len() > 0 {
        let d = ms.drop_last();
        let m = ms.last();
        declared_has(v, d, proxy, x);
        if serves(d, x) {
            let i = choose|i: int|
                0 <= i < d.len() && (#[trigger] d[i]).name@ == x && d[i].serve_cmd.argv@.len() > 0;
            assert(ms[i] == d[i]);
        }
        if m.serve_cmd.argv@.len() > 0 {
            let rest = declared(v, d, proxy);
            set_has(
                rest,
                m.name@,
                declared_endpoint(endpoint_of(rest, m.name@), m.name@, proxy),
                x,
            );
            assert(ms[ms.len() - 1] == m);
        }
        if serves(ms, x) && !serves(d, x) {
            let i = choose|i: int|
                0 <= i < ms.len() && (#[trigger] ms[i]).name@ == x && ms[i].serve_cmd.argv@.len()
                    > 0;
            if i < d.len() {
                assert(d[i] == ms[i]);
            }
        }
    }
}

proof fn with_ports_has(
    v: Seq<(Seq<char>, EndpointV)>,
    held: Seq<(Seq<char>, PortReservation)>,
    x: Seq<char>,
)
    ensures
        has_service(with_ports(v, held), x) <==> has_service(v, x) || holds_name(held, x),
    decreases held.len(),
{
    if held.len() > 0 {
        let d = held.drop_last();
        with_ports_has(v, d, x);
        set_has(
            with_ports(v, d),
            held.last().0,
            EndpointV { host: Some("127.0.0.1"@), port: Some(held.last().1.port), url: None },
            x,
        );
        assert(held[held.len() - 1] == held.last());
        if holds_name(d, x) {
            let i = choose|i: int| 0 <= i < d.len() && (#[trigger] d[i]).0 == x;
            assert(held[i].0 == x);
        }
        if holds_name(held, x) && x != held.last().0 {
            let i = choose|i: int| 0 <= i < held.len() && (#[trigger] held[i]).0 == x;
            assert(d[i].0 == x);
        }
    }
}

proof fn only_declared_has(
    v: Seq<(Seq<char>, EndpointV)>,
    ms: Seq<Manifest>,
    held: Seq<(Seq<char>, PortReservation)>,
    x: Seq<char>,
)
    ensures
        has_service(only_declared(v, ms, held), x) <==> has_service(v, x) && (serves(ms, x)
            || holds_name(held, x)),
    decreases v.len(),
{
    if v.len() > 0 {
        let d = v.drop_last();
        let r = only_declared(v, ms, held);
        let q = only_declared(d, ms, held);
        only_declared_has(d, ms, held, x);
        if has_service(d, x) {
            let i = choose|i: int| 0 <= i < d.len() && (#[trigger] d[i]).0 == x;
            assert(v[i].0 == x);
        }
        if has_service(q, x) {
            let i = choose|i: int| 0 <= i < q.len() && (#[trigger] q[i]).0 == x;
            assert(r[i].0 == x);
        }
        if has_service(v, x) && !has_service(d, x) {
            let i = choose|i: int| 0 <= i < v.len() && (#[trigger] v[i]).0 == x;
            if i < d.len() {
                assert(d[i].0 == x);
            }
            if serves(ms, x) || holds_name(held, x) {
                assert(r[r.len() - 1].0 == x);
            }
        }
        if has_service(r, x) && !has_service(q, x) {
            let i = choose|i: int| 0 <= i < r.len() && (#[trigger] r[i]).0 == x;
            if i < q.len() {
                assert(q[i].0 == x);
            }
            assert(v[v.len() - 1].0 == x);
        }
    }
}

/// Commands are told of the resources that serve and of the named ports, and of no
/// other service, whatever they were told of before.
pub proof fn refreshed_exact(
    services: Seq<(Seq<char>, EndpointV)>,
    ms: Seq<Manifest>,
    held: Seq<(Seq<char>, PortReservation)>,
    proxy: Option<ProxyHandle>,
    x: Seq<char>,
)
    ensures
        has_service(refreshed(services, ms, held, proxy), x) <==> serves(ms, x) || holds_name(
            held,
            x,
        ),
{
    let a = declared(services, ms, proxy);
    let b = with_ports(a, held);
    declared_has(services, ms, proxy, x);
    with_ports_has(a, held, x);
    only_declared_has(b, ms, held, x);
}

} // verus!
