//! How the engine gets ports and named routes: from its own proxy, or from the
//! daemon.

use std::collections::HashSet;

use vstd::prelude::*;
use vstd::string::*;

use crate::daemon::client::DaemonClient;
use crate::daemon::protocol::{Request, Response};
use crate::daemon::state::{search_next, HostPorts, SearchStep, PORT_TRIES};
use crate::proxy::{
    format_url, label_of, port_of, port_routed, registered, routes_without, sanitize_label, url,
    PortReservation, ProxyRegistry,
};
use crate::text::{cat3, owned, same};

verus! {

/// The proxy of an engine that runs without the daemon.
#[derive(Debug)]
pub struct ProxyConfig {
    pub registry: ProxyRegistry,
    pub tld: String,
    pub proxy_port: u16,
    pub leased_ports: HashSet<u16>,
    pub tls: bool,
}

/// The first of the offered ports, not before `from`, that is not leased. No more than
/// the allowed number of offers is looked at.
pub open spec fn first_unclaimed(leased: Set<u16>, offers: Seq<Option<u16>>, from: int) -> Option<
    u16,
>
    decreases offers.len() - from,
{
    if from < 0 || from >= offers.len() || from >= PORT_TRIES {
        None
    } else {
        match offers[from] {
            Some(p) if !leased.contains(p) => Some(p),
            _ => first_unclaimed(leased, offers, from + 1),
        }
    }
}

/// Which port is reserved: the preferred one where it is neither leased nor in use,
/// else the first offered one that is not leased.
pub open spec fn local_reservation(
    leased: Set<u16>,
    preferred: Option<u16>,
    preferred_free: bool,
    offers: Seq<Option<u16>>,
) -> Option<PortReservation> {
    match preferred {
        Some(p) if !leased.contains(p) && preferred_free => Some(
            PortReservation { port: p, preferred, conflict: false },
        ),
        _ => match first_unclaimed(leased, offers, 0) {
            Some(port) => Some(PortReservation { port, preferred, conflict: preferred is Some }),
            None => None,
        },
    }
}

/// The leased ports once a route no longer leads to a port: without it, unless
/// another route does.
pub open spec fn released(
    leased: Set<u16>,
    routes: Seq<(Seq<char>, u16)>,
    port: Option<u16>,
) -> Set<u16> {
    match port {
        Some(p) => if port_routed(routes, p) {
            leased
        } else {
            leased.remove(p)
        },
        None => leased,
    }
}

/// Whether every port that a route leads to is leased.
pub open spec fn routed_leased(routes: Seq<(Seq<char>, u16)>, leased: Set<u16>) -> bool {
    forall|i: int| 0 <= i < routes.len() ==> leased.contains((#[trigger] routes[i]).1)
}

proof fn without_routes(routes: Seq<(Seq<char>, u16)>, host: Seq<char>, leased: Set<u16>)
    requires
        routed_leased(routes, leased),
    ensures
        routed_leased(routes_without(routes, host), leased),
    decreases routes.len(),
{
    if routes.len() > 0 {
        let d = routes.drop_last();
        assert(forall|i: int| 0 <= i < d.len() ==> d[i] == routes[i]);
        without_routes(d, host, leased);
        assert(leased.contains(routes[routes.len() - 1].1));
    }
}

impl ProxyConfig {
    /// A proxy without routes.
    pub fn new(tld: &str, proxy_port: u16, tls: bool) -> (r: ProxyConfig)
        ensures
            r.registry@ == Seq::<(Seq<char>, u16)>::empty(),
            r.leased_ports@ == Set::<u16>::empty(),
            r.tld@ == tld@,
            r.proxy_port == proxy_port,
            r.tls == tls,
            r.ok(),
    {
        ProxyConfig {
            registry: ProxyRegistry::new(),
            tld: owned(tld),
            proxy_port,
            leased_ports: HashSet::new(),
            tls,
        }
    }

    /// Whether every port that a route leads to is leased.
    pub open spec fn ok(self) -> bool {
        routed_leased(self.registry@, self.leased_ports@)
    }

    /// The settings apart from the routes and the leases.
    pub open spec fn same_settings(self, other: ProxyConfig) -> bool {
        self.tld == other.tld && self.proxy_port == other.proxy_port && self.tls == other.tls
    }

    /// Which port would be reserved: the preferred one where it is neither leased nor in
    /// use, else the first offered one that is not leased.
    fn find_port(&self, preferred: Option<u16>, host: &HostPorts) -> (r: Option<PortReservation>)
        ensures
            r == local_reservation(
                self.leased_ports@,
                preferred,
                host.preferred_free,
                host.offers@,
            ),
    {
        broadcast use vstd::std_specs::hash::group_hash_axioms;

        if let Some(port) = preferred {
            if !self.leased_ports.contains(&port) && host.preferred_free {
                return Some(PortReservation { port, preferred, conflict: false });
            }
        }
        let mut i: usize = 0;
        while i < host.offers.len() && i < PORT_TRIES
            invariant
                i <= host.offers@.len(),
                i <= PORT_TRIES,
                first_unclaimed(self.leased_ports@, host.offers@, 0) == first_unclaimed(
                    self.leased_ports@,
                    host.offers@,
                    i as int,
                ),
                local_reservation(
                    self.leased_ports@,
                    preferred,
                    host.preferred_free,
                    host.offers@,
                ) == (match first_unclaimed(self.leased_ports@, host.offers@, 0) {
                    Some(port) => Some(
                        PortReservation { port, preferred, conflict: preferred is Some },
                    ),
                    None => None,
                }),
            decreases host.offers@.len() - i,
        {
            if let Some(port) = host.offers[i] {
                if !self.leased_ports.contains(&port) {
                    return Some(PortReservation { port, preferred, conflict: preferred.is_some() });
                }
            }
            i += 1;
        }
        None
    }

    /// What comes next in the search for a port, after what the host offered so far:
    /// another is asked for where nothing can be reserved yet, a limited number of times.
    pub fn search_step(&self, preferred: Option<u16>, host: &HostPorts) -> (r: SearchStep)
        ensures
            r == search_next(
                local_reservation(
                    self.leased_ports@,
                    preferred,
                    host.preferred_free,
                    host.offers@,
                ),
                host.offers@.len(),
            ),
    {
        if self.find_port(preferred, host).is_none() && host.offers.len() < PORT_TRIES {
            SearchStep::Ask
        } else {
            SearchStep::Settle
        }
    }

    /// Reserves a port: the preferred one where it is neither leased nor in use, else
    /// the first offered one that is not leased.
    pub fn reserve_local_port(&mut self, preferred: Option<u16>, host: &HostPorts) -> (r: Option<
        PortReservation,
    >)
        requires
            old(self).ok(),
        ensures
            r == local_reservation(
                old(self).leased_ports@,
                preferred,
                host.preferred_free,
                host.offers@,
            ),
            final(self).leased_ports@ == (match r {
                Some(p) => old(self).leased_ports@.insert(p.port),
                None => old(self).leased_ports@,
            }),
            final(self).registry == old(self).registry,
            final(self).same_settings(*old(self)),
            final(self).ok(),
    {
        broadcast use vstd::std_specs::hash::group_hash_axioms;

        let found = self.find_port(preferred, host);
        if let Some(r) = &found {
            self.leased_ports.insert(r.port);
        }
        found
    }

    /// Ends the lease of a port, unless a route still leads to it.
    pub fn release_local_port_if_unused(&mut self, port: u16)
        requires
            old(self).ok(),
        ensures
            final(self).leased_ports@ == released(
                old(self).leased_ports@,
                old(self).registry@,
                Some(port),
            ),
            final(self).registry == old(self).registry,
            final(self).same_settings(*old(self)),
            final(self).ok(),
    {
        broadcast use vstd::std_specs::hash::group_hash_axioms;

        if !self.registry.uses_port(port) {
            self.leased_ports.remove(&port);
        }
    }

    /// Registers a route for a hostname, and leases its port. The port that the
    /// hostname led to before is no longer leased, unless another route leads to it.
    pub fn register(&mut self, hostname: &str, port: u16)
        requires
            old(self).ok(),
        ensures
            final(self).registry@ == registered(old(self).registry@, hostname@, port),
            final(self).leased_ports@ == released(
                old(self).leased_ports@.insert(port),
                final(self).registry@,
                port_of(old(self).registry@, hostname@),
            ),
            final(self).same_settings(*old(self)),
            final(self).ok(),
    {
        broadcast use vstd::std_specs::hash::group_hash_axioms;

        proof {
            without_routes(self.registry@, hostname@, self.leased_ports@);
        }
        let previous = self.registry.register(hostname, port);
        self.leased_ports.insert(port);
        if let Some(previous) = previous {
            self.release_local_port_if_unused(previous);
        }
    }

    /// Takes out the route of a hostname. Its port is no longer leased, unless another
    /// route leads to it.
    pub fn remove(&mut self, hostname: &str)
        requires
            old(self).ok(),
        ensures
            final(self).registry@ == routes_without(old(self).registry@, hostname@),
            final(self).leased_ports@ == released(
                old(self).leased_ports@,
                final(self).registry@,
                port_of(old(self).registry@, hostname@),
            ),
            final(self).same_settings(*old(self)),
            final(self).ok(),
    {
        proof {
            without_routes(self.registry@, hostname@, self.leased_ports@);
        }
        let previous = self.registry.remove(hostname);
        if let Some(previous) = previous {
            self.release_local_port_if_unused(previous);
        }
    }
}

proof fn unclaimed_is_offered(leased: Set<u16>, offers: Seq<Option<u16>>, from: int)
    requires
        0 <= from,
    ensures
        match first_unclaimed(leased, offers, from) {
            Some(p) => !leased.contains(p) && offers.contains(Some(p)),
            None => forall|i: int|
                from <= i < offers.len() && i < PORT_TRIES ==> (#[trigger] offers[i] is None
                    || leased.contains(offers[i]->0)),
        },
    decreases offers.len() - from,
{
    if from < offers.len() && from < PORT_TRIES {
        if offers[from] is None || leased.contains(offers[from]->0) {
            unclaimed_is_offered(leased, offers, from + 1);
        } else {
            assert(offers[from] == Some(offers[from]->0));
        }
    }
}

/// A reserved port was leased to nobody, no route led to it, and it is the preferred
/// one or one of the offered ones. A port is found wherever one of the allowed offers is
/// not leased.
pub proof fn reserved_was_unused(
    routes: Seq<(Seq<char>, u16)>,
    leased: Set<u16>,
    preferred: Option<u16>,
    preferred_free: bool,
    offers: Seq<Option<u16>>,
)
    requires
        routed_leased(routes, leased),
    ensures
        match local_reservation(leased, preferred, preferred_free, offers) {
            Some(r) => {
                &&& !leased.contains(r.port)
                &&& !port_routed(routes, r.port)
                &&& (r.conflict || preferred is None ==> offers.contains(Some(r.port)))
                &&& (!r.conflict && preferred is Some ==> preferred == Some(r.port))
            },
            None => forall|i: int|
                0 <= i < offers.len() && i < PORT_TRIES ==> (#[trigger] offers[i] is None
                    || leased.contains(offers[i]->0)),
        },
{
    unclaimed_is_offered(leased, offers, 0);
}

/// The hostname of a resource behind the engine's own proxy.
pub open spec fn local_hostname(label: Seq<char>, tld: Seq<char>) -> Seq<char> {
    label_of(label) + "."@ + tld
}

/// The hostname of a resource behind the daemon's proxy: a single label below the
/// top-level domain, made of the names of the resource and of the project, of which
/// one is enough where they agree or the resource has none.
pub open spec fn shared_hostname(label: Seq<char>, project: Seq<char>, tld: Seq<char>) -> Seq<
    char,
> {
    let res = label_of(label);
    let proj = label_of(project);
    if res == proj || res.len() == 0 {
        proj + "."@ + tld
    } else {
        res + "-"@ + proj + "."@ + tld
    }
}

/// How the engine gets ports and named routes.
#[derive(Debug)]
pub enum ProxyHandle {
    /// From its own proxy.
    Local(ProxyConfig),
    /// From the daemon.
    Daemon {
        client: DaemonClient,
        instance: String,
        /// The project, which tells the hostnames of instances apart.
        project: String,
        tld: String,
        proxy_port: u16,
        tls: bool,
    },
}

/// What comes next when a port is reserved.
#[derive(Debug)]
pub enum ReserveStep {
    /// The port is reserved; nothing where there is none.
    Settled(Option<PortReservation>),
    /// The daemon is to be asked.
    Ask(Request),
}

impl ProxyHandle {
    /// The port that the proxy listens on.
    pub open spec fn listens_on(self) -> u16 {
        match self {
            ProxyHandle::Local(c) => c.proxy_port,
            ProxyHandle::Daemon { proxy_port, .. } => proxy_port,
        }
    }

    /// Whether the proxy speaks TLS.
    pub open spec fn secure(self) -> bool {
        match self {
            ProxyHandle::Local(c) => c.tls,
            ProxyHandle::Daemon { tls, .. } => tls,
        }
    }

    /// The hostname of a resource.
    pub open spec fn host_of(self, label: Seq<char>) -> Seq<char> {
        match self {
            ProxyHandle::Local(c) => local_hostname(label, c.tld@),
            ProxyHandle::Daemon { project, tld, .. } => shared_hostname(label, project@, tld@),
        }
    }

    /// The URL of a resource.
    pub open spec fn url_of(self, label: Seq<char>) -> Seq<char> {
        url(self.host_of(label), self.listens_on(), self.secure())
    }

    /// Whether every port that a route of the engine's own proxy leads to is leased.
    pub open spec fn ok(self) -> bool {
        match self {
            ProxyHandle::Local(c) => c.ok(),
            ProxyHandle::Daemon { .. } => true,
        }
    }

    /// The port that the proxy listens on.
    pub fn proxy_port(&self) -> (r: u16)
        ensures
            r == self.listens_on(),
    {
        match self {
            ProxyHandle::Local(c) => c.proxy_port,
            ProxyHandle::Daemon { proxy_port, .. } => *proxy_port,
        }
    }

    /// Whether the proxy speaks TLS.
    pub fn tls(&self) -> (r: bool)
        ensures
            r == self.secure(),
    {
        match self {
            ProxyHandle::Local(c) => c.tls,
            ProxyHandle::Daemon { tls, .. } => *tls,
        }
    }

    /// The hostname of a resource. Behind the daemon's proxy it holds the project's
    /// name too, so that instances do not collide.
    pub fn hostname(&self, label: &str) -> (r: String)
        ensures
            r@ == self.host_of(label@),
    {
        let res = sanitize_label(label);
        match self {
            ProxyHandle::Local(c) => cat3(res.as_str(), ".", c.tld.as_str()),
            ProxyHandle::Daemon { project, tld, .. } => {
                let proj = sanitize_label(project.as_str());
                if same(res.as_str(), proj.as_str()) || res.as_str().is_empty() {
                    cat3(proj.as_str(), ".", tld.as_str())
                } else {
                    let mut r = cat3(res.as_str(), "-", proj.as_str());
                    r.append(".");
                    r.append(tld.as_str());
                    r
                }
            },
        }
    }

    /// The URL of a resource.
    pub fn url_for(&self, label: &str) -> (r: String)
        ensures
            r@ == self.url_of(label@),
    {
        format_url(self.hostname(label).as_str(), self.proxy_port(), self.tls())
    }

    /// What comes next in the search for a port. Where the daemon gives the ports out, this
    /// machine is not asked.
    pub fn search_step(&self, preferred: Option<u16>, host: &HostPorts) -> (r: SearchStep)
        ensures
            r == (match *self {
                ProxyHandle::Local(c) => search_next(
                    local_reservation(
                        c.leased_ports@,
                        preferred,
                        host.preferred_free,
                        host.offers@,
                    ),
                    host.offers@.len(),
                ),
                ProxyHandle::Daemon { .. } => SearchStep::Settle,
            }),
    {
        match self {
            ProxyHandle::Local(c) => c.search_step(preferred, host),
            ProxyHandle::Daemon { .. } => SearchStep::Settle,
        }
    }

    /// Reserves a port, the preferred one where it is free; the daemon's are asked for.
    pub fn reserve_port(&mut self, preferred: Option<u16>, host: &HostPorts) -> (r: ReserveStep)
        requires
            old(self).ok(),
        ensures
            final(self).ok(),
            match *old(self) {
                ProxyHandle::Local(c) => {
                    &&& r == ReserveStep::Settled(
                        local_reservation(
                            c.leased_ports@,
                            preferred,
                            host.preferred_free,
                            host.offers@,
                        ),
                    )
                    &&& *final(self) is Local
                    &&& final(self)->Local_0.registry == c.registry
                    &&& final(self)->Local_0.same_settings(c)
                    &&& final(self)->Local_0.leased_ports@ == (match r->Settled_0 {
                        Some(p) => c.leased_ports@.insert(p.port),
                        None => c.leased_ports@,
                    })
                },
                ProxyHandle::Daemon { instance, .. } => {
                    &&& *final(self) == *old(self)
                    &&& r is Ask && r->Ask_0 is ReservePort
                    &&& r->Ask_0->ReservePort_instance@ == instance@
                    &&& r->Ask_0->preferred == preferred
                },
            },
    {
        match self {
            ProxyHandle::Local(c) => ReserveStep::Settled(c.reserve_local_port(preferred, host)),
            ProxyHandle::Daemon { instance, .. } => ReserveStep::Ask(
                Request::ReservePort { instance: instance.clone(), preferred },
            ),
        }
    }

    /// Registers a route for a resource. A request to the daemon is to be sent.
    pub fn register(&mut self, label: &str, port: u16) -> (r: Option<Request>)
        requires
            old(self).ok(),
        ensures
            final(self).ok(),
            match *old(self) {
                ProxyHandle::Local(c) => {
                    &&& r is None
                    &&& *final(self) is Local
                    &&& final(self)->Local_0.same_settings(c)
                    &&& final(self)->Local_0.registry@ == registered(
                        c.registry@,
                        local_hostname(label@, c.tld@),
                        port,
                    )
                    &&& final(self)->Local_0.leased_ports@ == released(
                        c.leased_ports@.insert(port),
                        final(self)->Local_0.registry@,
                        port_of(c.registry@, local_hostname(label@, c.tld@)),
                    )
                },
                ProxyHandle::Daemon { instance, project, tld, .. } => {
                    &&& *final(self) == *old(self)
                    &&& r is Some && r->0 is RegisterRoute
                    &&& r->0->RegisterRoute_instance@ == instance@
                    &&& r->0->RegisterRoute_hostname@ == shared_hostname(label@, project@, tld@)
                    &&& r->0->RegisterRoute_port == port
                },
            },
    {
        let host = self.hostname(label);
        match self {
            ProxyHandle::Local(c) => {
                c.register(host.as_str(), port);
                None
            },
            ProxyHandle::Daemon { instance, .. } => Some(
                Request::RegisterRoute { instance: instance.clone(), hostname: host, port },
            ),
        }
    }

    /// Takes out the route of a resource. A request to the daemon is to be sent.
    pub fn remove(&mut self, label: &str) -> (r: Option<Request>)
        requires
            old(self).ok(),
        ensures
            final(self).ok(),
            match *old(self) {
                ProxyHandle::Local(c) => {
                    &&& r is None
                    &&& *final(self) is Local
                    &&& final(self)->Local_0.same_settings(c)
                    &&& final(self)->Local_0.registry@ == routes_without(
                        c.registry@,
                        local_hostname(label@, c.tld@),
                    )
                    &&& final(self)->Local_0.leased_ports@ == released(
                        c.leased_ports@,
                        final(self)->Local_0.registry@,
                        port_of(c.registry@, local_hostname(label@, c.tld@)),
                    )
                },
                ProxyHandle::Daemon { project, tld, .. } => {
                    &&& *final(self) == *old(self)
                    &&& r is Some && r->0 is RemoveRoute
                    &&& r->0->RemoveRoute_hostname@ == shared_hostname(label@, project@, tld@)
                },
            },
    {
        let host = self.hostname(label);
        match self {
            ProxyHandle::Local(c) => {
                c.remove(host.as_str());
                None
            },
            ProxyHandle::Daemon { .. } => Some(Request::RemoveRoute { hostname: host }),
        }
    }

    /// Gives a reserved port back. A request to the daemon is to be sent.
    pub fn release_port(&mut self, port: u16) -> (r: Option<Request>)
        requires
            old(self).ok(),
        ensures
            final(self).ok(),
            match *old(self) {
                ProxyHandle::Local(c) => {
                    &&& r is None
                    &&& *final(self) is Local
                    &&& final(self)->Local_0.same_settings(c)
                    &&& final(self)->Local_0.registry == c.registry
                    &&& final(self)->Local_0.leased_ports@ == released(
                        c.leased_ports@,
                        c.registry@,
                        Some(port),
                    )
                },
                ProxyHandle::Daemon { instance, .. } => {
                    &&& *final(self) == *old(self)
                    &&& r is Some && r->0 is ReleasePort
                    &&& r->0->ReleasePort_instance@ == instance@
                    &&& r->0->ReleasePort_port == port
                },
            },
    {
        match self {
            ProxyHandle::Local(c) => {
                c.release_local_port_if_unused(port);
                None
            },
            ProxyHandle::Daemon { instance, .. } => Some(
                Request::ReleasePort { instance: instance.clone(), port },
            ),
        }
    }
}

/// What the daemon's reply to a request for a port leads to: the port, or, where it
/// does not know the request, a request for any port.
pub fn reserve_reply(instance: &str, reply: &Result<Response, String>) -> (r: ReserveStep)
    ensures
        match *reply {
            Ok(Response::ReservedPort { port, preferred, conflict }) => r == ReserveStep::Settled(
                Some(PortReservation { port, preferred, conflict }),
            ),
            Ok(Response::Error(_)) => r is Ask && r->Ask_0 is AllocatePort
                && r->Ask_0->AllocatePort_instance@ == instance@,
            _ => r == ReserveStep::Settled(None),
        },
{
    match reply {
        Ok(Response::ReservedPort { port, preferred, conflict }) => ReserveStep::Settled(
            Some(PortReservation { port: *port, preferred: *preferred, conflict: *conflict }),
        ),
        Ok(Response::Error(_)) => ReserveStep::Ask(
            Request::AllocatePort { instance: owned(instance) },
        ),
        _ => ReserveStep::Settled(None),
    }
}

/// What the daemon's reply to a request for any port leads to.
pub fn allocate_reply(preferred: Option<u16>, reply: &Result<Response, String>) -> (r: Option<
    PortReservation,
>)
    ensures
        r == (match *reply {
            Ok(Response::Port { port }) => Some(
                PortReservation { port, preferred, conflict: preferred is Some },
            ),
            _ => None,
        }),
{
    match reply {
        Ok(Response::Port { port }) => Some(
            PortReservation { port: *port, preferred, conflict: preferred.is_some() },
        ),
        _ => None,
    }
}

} // verus!
