//! The routes of the named-URL proxy: which host goes to which backend port.

use vstd::prelude::*;
use vstd::string::*;

use crate::text::{
    alnum, cat, cat3, chars_of, dec, decimal, ends, ends_with, is_alnum, lower, lower_char,
    owned, same, string_of, trim_back, trim_both, trim_front, trimmed_both, Class,
};

verus! {

/// Requests that went through the proxy this often are taken for a loop.
pub const MAX_PROXY_HOPS: u32 = 5;

/// The largest number of bytes that a request head may have.
pub const MAX_HEAD_BYTES: usize = 65536;

/// A hostname and the backend port that it leads to.
#[derive(Debug)]
pub struct Route {
    pub hostname: String,
    pub port: u16,
}

impl Clone for Route {
    fn clone(&self) -> (r: Self)
        ensures
            r == *self,
    {
        Route { hostname: self.hostname.clone(), port: self.port }
    }
}

/// The contents of a list of routes: hostnames and ports.
pub open spec fn routes_view(v: Seq<Route>) -> Seq<(Seq<char>, u16)> {
    v.map_values(|r: Route| (r.hostname@, r.port))
}

/// The port of the first route with the hostname.
pub open spec fn port_of(routes: Seq<(Seq<char>, u16)>, host: Seq<char>) -> Option<u16>
    decreases routes.len(),
{
    if routes.len() == 0 {
        None
    } else if routes[0].0 == host {
        Some(routes[0].1)
    } else {
        port_of(routes.drop_first(), host)
    }
}

/// The routes with another hostname.
pub open spec fn routes_without(routes: Seq<(Seq<char>, u16)>, host: Seq<char>) -> Seq<
    (Seq<char>, u16),
>
    decreases routes.len(),
{
    if routes.len() == 0 {
        Seq::empty()
    } else {
        let rest = routes_without(routes.drop_last(), host);
        if routes.last().0 == host {
            rest
        } else {
            rest.push(routes.last())
        }
    }
}

/// The routes after the hostname was given the port.
pub open spec fn registered(
    routes: Seq<(Seq<char>, u16)>,
    host: Seq<char>,
    port: u16,
) -> Seq<(Seq<char>, u16)> {
    routes_without(routes, host).push((host, port))
}

/// Whether `host` is a subdomain of `parent`.
pub open spec fn subdomain(host: Seq<char>, parent: Seq<char>) -> bool {
    ends_with(host, "."@ + parent)
}

/// The port of the first route that the host is a subdomain of.
pub open spec fn wildcard(routes: Seq<(Seq<char>, u16)>, host: Seq<char>) -> Option<u16>
    decreases routes.len(),
{
    if routes.len() == 0 {
        None
    } else if subdomain(host, routes[0].0) {
        Some(routes[0].1)
    } else {
        wildcard(routes.drop_first(), host)
    }
}

/// Where a request for the host goes: to the route with that hostname, else to
/// the first route that the host is a subdomain of.
pub open spec fn backend(routes: Seq<(Seq<char>, u16)>, host: Seq<char>) -> Option<u16> {
    match port_of(routes, host) {
        Some(p) => Some(p),
        None => wildcard(routes, host),
    }
}

/// Whether no two routes have the same hostname.
pub open spec fn unique_hosts(routes: Seq<(Seq<char>, u16)>) -> bool {
    forall|i: int, j: int|
        0 <= i < j < routes.len() ==> (#[trigger] routes[i]).0 != (#[trigger] routes[j]).0
}

/// Whether a route leads to the port.
pub open spec fn port_routed(routes: Seq<(Seq<char>, u16)>, port: u16) -> bool {
    exists|i: int| 0 <= i < routes.len() && (#[trigger] routes[i]).1 == port
}

/// A registry of hostnames and the backend ports that they lead to.
#[derive(Debug)]
pub struct ProxyRegistry {
    routes: Vec<Route>,
}

impl View for ProxyRegistry {
    type V = Seq<(Seq<char>, u16)>;

    closed spec fn view(&self) -> Seq<(Seq<char>, u16)> {
        routes_view(self.routes@)
    }
}

impl ProxyRegistry {
    /// A registry without routes.
    pub fn new() -> (r: ProxyRegistry)
        ensures
            r@ == Seq::<(Seq<char>, u16)>::empty(),
    {
        let r = ProxyRegistry { routes: Vec::new() };
        assert(r@ =~= Seq::empty());
        r
    }

    /// The port of the route with the hostname.
    fn exact(&self, host: &str) -> (r: Option<u16>)
        ensures
            r == port_of(self@, host@),
    {
        let mut i: usize = 0;
        assert(self@.skip(0) =~= self@);
        while i < self.routes.len()
            invariant
                i <= self.routes@.len(),
                port_of(self@, host@) == port_of(self@.skip(i as int), host@),
            decreases self.routes@.len() - i,
        {
            let ghost rest = self@.skip(i as int);
            assert(rest[0] == (self.routes@[i as int].hostname@, self.routes@[i as int].port));
            assert(rest.drop_first() =~= self@.skip(i + 1));
            if same(self.routes[i].hostname.as_str(), host) {
                return Some(self.routes[i].port);
            }
            i += 1;
        }
        None
    }

    /// Registers a route for the hostname, instead of any other; returns the port
    /// that it led to.
    pub fn register(&mut self, hostname: &str, port: u16) -> (r: Option<u16>)
        ensures
            r == port_of(old(self)@, hostname@),
            final(self)@ == registered(old(self)@, hostname@, port),
    {
        let previous = self.remove(hostname);
        let ghost before = self.routes@;
        self.routes.push(Route { hostname: owned(hostname), port });
        assert(routes_view(self.routes@) =~= routes_view(before).push((hostname@, port)));
        previous
    }

    /// Takes out the route with the hostname; returns the port that it led to.
    pub fn remove(&mut self, hostname: &str) -> (r: Option<u16>)
        ensures
            r == port_of(old(self)@, hostname@),
            final(self)@ == routes_without(old(self)@, hostname@),
    {
        let previous = self.exact(hostname);
        let mut kept: Vec<Route> = Vec::new();
        let mut i: usize = 0;
        let ghost all = self@;
        assert(routes_view(kept@) =~= routes_without(all.take(0), hostname@));
        while i < self.routes.len()
            invariant
                i <= self.routes@.len(),
                all == routes_view(self.routes@),
                routes_view(kept@) == routes_without(all.take(i as int), hostname@),
            decreases self.routes@.len() - i,
        {
            let ghost before = kept@;
            let route = self.routes[i].clone();
            proof {
                assert(all.take(i + 1).drop_last() =~= all.take(i as int));
                assert(all.take(i + 1).last() == (route.hostname@, route.port));
            }
            if !same(route.hostname.as_str(), hostname) {
                kept.push(route);
                assert(routes_view(kept@) =~= routes_view(before).push(
                    (route.hostname@, route.port),
                ));
            }
            i += 1;
        }
        assert(all.take(i as int) =~= all);
        self.routes = kept;
        previous
    }

    /// The routes, oldest first.
    pub fn snapshot(&self) -> (r: Vec<Route>)
        ensures
            routes_view(r@) == self@,
    {
        let mut r: Vec<Route> = Vec::new();
        let mut i: usize = 0;
        while i < self.routes.len()
            invariant
                i <= self.routes@.len(),
                r@ =~= self.routes@.take(i as int),
            decreases self.routes@.len() - i,
        {
            r.push(self.routes[i].clone());
            i += 1;
        }
        assert(self.routes@.take(i as int) =~= self.routes@);
        r
    }

    /// The backend port for a host: of the route with that hostname, else of the
    /// first route that the host is a subdomain of.
    pub fn lookup(&self, host: &str) -> (r: Option<u16>)
        ensures
            r == backend(self@, host@),
    {
        if let Some(port) = self.exact(host) {
            return Some(port);
        }
        let mut i: usize = 0;
        assert(self@.skip(0) =~= self@);
        while i < self.routes.len()
            invariant
                i <= self.routes@.len(),
                wildcard(self@, host@) == wildcard(self@.skip(i as int), host@),
                port_of(self@, host@) is None,
            decreases self.routes@.len() - i,
        {
            let ghost rest = self@.skip(i as int);
            assert(rest[0] == (self.routes@[i as int].hostname@, self.routes@[i as int].port));
            assert(rest.drop_first() =~= self@.skip(i + 1));
            if ends(host, cat(".", self.routes[i].hostname.as_str()).as_str()) {
                return Some(self.routes[i].port);
            }
            i += 1;
        }
        None
    }

    /// Adds a route behind the others.
    pub fn keep(&mut self, route: &Route)
        ensures
            final(self)@ == old(self)@.push((route.hostname@, route.port)),
    {
        let ghost before = self.routes@;
        self.routes.push(route.clone());
        assert(routes_view(self.routes@) =~= routes_view(before).push(
            (route.hostname@, route.port),
        ));
    }

    /// Whether a route leads to the port.
    pub fn uses_port(&self, port: u16) -> (r: bool)
        ensures
            r == port_routed(self@, port),
    {
        let mut i: usize = 0;
        while i < self.routes.len()
            invariant
                i <= self.routes@.len(),
                forall|j: int| 0 <= j < i ==> (#[trigger] self@[j]).1 != port,
            decreases self.routes@.len() - i,
        {
            if self.routes[i].port == port {
                assert(self@[i as int].1 == port);
                return true;
            }
            i += 1;
        }
        false
    }
}

/// What `routes_without` leaves, found one by one.
pub proof fn without_host(routes: Seq<(Seq<char>, u16)>, host: Seq<char>, other: Seq<char>)
    ensures
        port_of(routes_without(routes, host), other) == if other == host {
            None
        } else {
            port_of(routes, other)
        },
    decreases routes.len(),
{
    if routes.len() > 0 {
        without_host(routes.drop_last(), host, other);
        port_of_push(routes.drop_last(), routes.last(), other);
        assert(routes.drop_last().push(routes.last()) =~= routes);
        port_of_push(routes_without(routes.drop_last(), host), routes.last(), other);
    }
}

/// A route at the end is found where no earlier one has the hostname.
pub proof fn port_of_push(
    routes: Seq<(Seq<char>, u16)>,
    route: (Seq<char>, u16),
    host: Seq<char>,
)
    ensures
        port_of(routes.push(route), host) == match port_of(routes, host) {
            Some(p) => Some(p),
            None => if route.0 == host {
                Some(route.1)
            } else {
                None
            },
        },
    decreases routes.len(),
{
    let all = routes.push(route);
    if routes.len() > 0 {
        port_of_push(routes.drop_first(), route, host);
        assert(all.drop_first() =~= routes.drop_first().push(route));
        assert(all[0] == routes[0]);
    } else {
        assert(all.drop_first() =~= routes);
        assert(port_of(routes, host) is None);
    }
}

/// A registered hostname leads to its port, and every other hostname where it led
/// before.
pub proof fn register_then_find(
    routes: Seq<(Seq<char>, u16)>,
    host: Seq<char>,
    port: u16,
    other: Seq<char>,
)
    ensures
        port_of(registered(routes, host, port), other) == if other == host {
            Some(port)
        } else {
            port_of(routes, other)
        },
{
    without_host(routes, host, other);
    port_of_push(routes_without(routes, host), (host, port), other);
}

/// A removed hostname leads nowhere of its own, and every other hostname where it
/// led before.
pub proof fn remove_then_find(
    routes: Seq<(Seq<char>, u16)>,
    host: Seq<char>,
    other: Seq<char>,
)
    ensures
        port_of(routes_without(routes, host), other) == if other == host {
            None
        } else {
            port_of(routes, other)
        },
{
    without_host(routes, host, other);
}

/// Routes without a hostname are routes of before, in their order.
pub proof fn without_host_unique(routes: Seq<(Seq<char>, u16)>, host: Seq<char>)
    requires
        unique_hosts(routes),
    ensures
        unique_hosts(routes_without(routes, host)),
        forall|i: int|
            0 <= i < routes_without(routes, host).len() ==> (#[trigger] routes_without(
                routes,
                host,
            )[i]).0 != host && routes.contains(routes_without(routes, host)[i]),
    decreases routes.len(),
{
    if routes.len() > 0 {
        let d = routes.drop_last();
        let w = routes_without(d, host);
        let all = routes_without(routes, host);
        assert(forall|i: int| 0 <= i < d.len() ==> d[i] == routes[i]);
        without_host_unique(d, host);
        assert forall|i: int| 0 <= i < all.len() implies (#[trigger] all[i]).0 != host
            && routes.contains(all[i]) by {
            if i < w.len() {
                assert(all[i] == w[i]);
                let j = choose|j: int| 0 <= j < d.len() && d[j] == w[i];
                assert(routes[j] == all[i]);
            } else {
                assert(routes[routes.len() - 1] == all[i]);
            }
        }
        assert forall|i: int, j: int| 0 <= i < j < all.len() implies (#[trigger] all[i]).0 != (
        #[trigger] all[j]).0 by {
            if j < w.len() {
                assert(all[i] == w[i] && all[j] == w[j]);
            } else {
                assert(all[i] == w[i]);
                let k = choose|k: int| 0 <= k < d.len() && d[k] == w[i];
                assert(routes[k].0 != routes[routes.len() - 1].0);
            }
        }
    }
}

/// Registering keeps the hostnames apart.
pub proof fn registered_unique(routes: Seq<(Seq<char>, u16)>, host: Seq<char>, port: u16)
    requires
        unique_hosts(routes),
    ensures
        unique_hosts(registered(routes, host, port)),
{
    without_host_unique(routes, host);
    let w = routes_without(routes, host);
    let all = registered(routes, host, port);
    assert(forall|i: int| 0 <= i < w.len() ==> all[i] == w[i]);
}

/// A call that changes a registry.
pub enum RouteCall {
    Register(Seq<char>, u16),
    Remove(Seq<char>),
}

/// The hostname that a call names.
pub open spec fn named_host(call: RouteCall) -> Seq<char> {
    match call {
        RouteCall::Register(h, _) => h,
        RouteCall::Remove(h) => h,
    }
}

/// The routes of a new registry after calls, one after the other.
pub open spec fn after_calls(calls: Seq<RouteCall>) -> Seq<(Seq<char>, u16)>
    decreases calls.len(),
{
    if calls.len() == 0 {
        Seq::empty()
    } else {
        let before = after_calls(calls.drop_last());
        match calls.last() {
            RouteCall::Register(h, p) => registered(before, h, p),
            RouteCall::Remove(h) => routes_without(before, h),
        }
    }
}

/// The index of the last call that names the hostname; negative where none does.
pub open spec fn last_named(calls: Seq<RouteCall>, host: Seq<char>) -> int
    decreases calls.len(),
{
    if calls.len() == 0 {
        -1
    } else if named_host(calls.last()) == host {
        calls.len() - 1
    } else {
        last_named(calls.drop_last(), host)
    }
}

/// Whether the last call that names the hostname registered it with the port.
pub open spec fn last_registered(calls: Seq<RouteCall>, host: Seq<char>, port: u16) -> bool {
    let i = last_named(calls, host);
    0 <= i < calls.len() && calls[i] == RouteCall::Register(host, port)
}

/// Whether routes stand in the order of the last calls that name their hostnames.
pub open spec fn in_call_order(routes: Seq<(Seq<char>, u16)>, calls: Seq<RouteCall>) -> bool {
    forall|i: int, j: int|
        0 <= i < j < routes.len() ==> last_named(calls, (#[trigger] routes[i]).0) < last_named(
            calls,
            (#[trigger] routes[j]).0,
        )
}

/// The routes with other hostnames are just those, in the order in which they stood.
proof fn without_keeps(routes: Seq<(Seq<char>, u16)>, host: Seq<char>, calls: Seq<RouteCall>)
    ensures
        forall|e: (Seq<char>, u16)| #[trigger]
            routes_without(routes, host).contains(e) <==> routes.contains(e) && e.0 != host,
        in_call_order(routes, calls) ==> in_call_order(routes_without(routes, host), calls),
    decreases routes.len(),
{
    if routes.len() > 0 {
        let d = routes.drop_last();
        let x = routes.last();
        let w = routes_without(d, host);
        let all = routes_without(routes, host);
        without_keeps(d, host, calls);
        assert forall|e: (Seq<char>, u16)| #[trigger] all.contains(e) <==> routes.contains(e) && e.0
            != host by {
            if all.contains(e) {
                let i = choose|i: int| 0 <= i < all.len() && all[i] == e;
                if i < w.len() {
                    assert(w[i] == e);
                    assert(w.contains(e));
                    assert(d.contains(e));
                    let j = choose|j: int| 0 <= j < d.len() && d[j] == e;
                    assert(routes[j] == e);
                } else {
                    assert(routes[routes.len() - 1] == e);
                }
            }
            if routes.contains(e) && e.0 != host {
                let j = choose|j: int| 0 <= j < routes.len() && routes[j] == e;
                if j < d.len() {
                    assert(d[j] == e);
                    assert(w.contains(e));
                    let i = choose|i: int| 0 <= i < w.len() && w[i] == e;
                    assert(all[i] == e);
                } else {
                    assert(all[w.len() as int] == e);
                }
            }
        }
        if in_call_order(routes, calls) {
            assert(in_call_order(d, calls)) by {
                assert(forall|i: int| 0 <= i < d.len() ==> d[i] == routes[i]);
            }
            assert forall|i: int, j: int| 0 <= i < j < all.len() implies last_named(
                calls,
                (#[trigger] all[i]).0,
            ) < last_named(calls, (#[trigger] all[j]).0) by {
                assert(all[i] == w[i]);
                if j < w.len() {
                    assert(all[j] == w[j]);
                } else {
                    assert(w.contains(w[i]));
                    let k = choose|k: int| 0 <= k < d.len() && d[k] == w[i];
                    assert(routes[k] == w[i] && routes[routes.len() - 1] == all[j]);
                }
            }
        }
    }
}

proof fn last_named_bounds(calls: Seq<RouteCall>, host: Seq<char>)
    ensures
        -1 <= last_named(calls, host) < calls.len(),
    decreases calls.len(),
{
    if calls.len() > 0 {
        last_named_bounds(calls.drop_last(), host);
    }
}

/// Whatever was registered and removed since a registry was new, no two of its routes have
/// the same hostname, a hostname leads to a port just where the last call that names it
/// registered it with that port, and the routes stand in the order of those calls.
pub proof fn calls_decide(calls: Seq<RouteCall>)
    ensures
        unique_hosts(after_calls(calls)),
        forall|h: Seq<char>, p: u16| #[trigger]
            after_calls(calls).contains((h, p)) <==> last_registered(calls, h, p),
        in_call_order(after_calls(calls), calls),
    decreases calls.len(),
{
    let r = after_calls(calls);
    if calls.len() > 0 {
        let d = calls.drop_last();
        let s = after_calls(d);
        let host = named_host(calls.last());
        let w = routes_without(s, host);
        calls_decide(d);
        without_keeps(s, host, d);
        assert forall|h: Seq<char>, p: u16| h != host implies (#[trigger] last_registered(
            calls,
            h,
            p,
        ) <==> last_registered(d, h, p)) by {
            last_named_bounds(d, h);
        }
        assert forall|i: int| 0 <= i < w.len() implies (#[trigger] w[i]).0 != host && last_named(
            calls,
            w[i].0,
        ) == last_named(d, w[i].0) < calls.len() - 1 by {
            assert(w.contains(w[i]));
            last_named_bounds(d, w[i].0);
        }
        assert(forall|i: int| 0 <= i < w.len() ==> r[i] == w[i]);
        assert forall|h: Seq<char>, p: u16| #[trigger] r.contains((h, p)) <==> last_registered(
            calls,
            h,
            p,
        ) by {
            if h != host {
                assert(w.contains((h, p)) <==> s.contains((h, p)));
                if r.contains((h, p)) {
                    let i = choose|i: int| 0 <= i < r.len() && r[i] == (h, p);
                    assert(w[i] == (h, p));
                }
                if w.contains((h, p)) {
                    let i = choose|i: int| 0 <= i < w.len() && w[i] == (h, p);
                    assert(r[i] == (h, p));
                }
            } else {
                if r.contains((h, p)) {
                    let i = choose|i: int| 0 <= i < r.len() && r[i] == (h, p);
                    assert(i >= w.len());
                }
                if last_registered(calls, h, p) {
                    assert(r[w.len() as int] == (h, p));
                }
            }
        }
        assert forall|i: int, j: int| 0 <= i < j < r.len() implies last_named(
            calls,
            (#[trigger] r[i]).0,
        ) < last_named(calls, (#[trigger] r[j]).0) by {
            assert(r[i] == w[i]);
            if j < w.len() {
                assert(r[j] == w[j]);
            }
        }
        assert forall|i: int, j: int| 0 <= i < j < r.len() implies (#[trigger] r[i]).0 != (
        #[trigger] r[j]).0 by {
            assert(last_named(calls, r[i].0) < last_named(calls, r[j].0));
        }
    } else {
        assert(forall|h: Seq<char>| last_named(calls, h) == -1);
    }
}

/// The character that stands for `c` in a hostname label.
pub open spec fn label_char(c: char) -> char {
    if is_alnum(c) || c == '-' {
        lower(c)
    } else {
        '-'
    }
}

/// The text with each run of hyphens made a single one.
pub open spec fn squeeze(s: Seq<char>) -> Seq<char>
    decreases s.len(),
{
    if s.len() == 0 {
        s
    } else {
        let t = squeeze(s.drop_last());
        if s.last() == '-' && t.len() > 0 && t.last() == '-' {
            t
        } else {
            t.push(s.last())
        }
    }
}

/// The hostname label for a name: lower case letters and digits, single hyphens
/// for everything else, none of them at the ends.
pub open spec fn label_of(name: Seq<char>) -> Seq<char> {
    trim_both(squeeze(name.map_values(|c: char| label_char(c))), Class::Is('-'))
}

/// Turns a resource name into a hostname label.
pub fn sanitize_label(name: &str) -> (r: String)
    ensures
        r@ == label_of(name@),
{
    let cs = chars_of(name);
    let ghost mapped = name@.map_values(|c: char| label_char(c));
    let mut out: Vec<char> = Vec::new();
    let mut i: usize = 0;
    assert(mapped.take(0) =~= Seq::<char>::empty());
    while i < cs.len()
        invariant
            i <= cs@.len(),
            cs@ == name@,
            mapped == name@.map_values(|c: char| label_char(c)),
            out@ == squeeze(mapped.take(i as int)),
        decreases cs@.len() - i,
    {
        let c: char = if alnum(cs[i]) || cs[i] == '-' {
            lower_char(cs[i])
        } else {
            '-'
        };
        proof {
            assert(mapped.take(i + 1).drop_last() =~= mapped.take(i as int));
            assert(mapped.take(i + 1).last() == c);
        }
        if !(c == '-' && out.len() > 0 && out[out.len() - 1] == '-') {
            out.push(c);
        }
        i += 1;
    }
    assert(mapped.take(i as int) =~= mapped);
    trimmed_both(string_of(out.as_slice()).as_str(), Class::Is('-'))
}

/// Whether the text is a hostname label: lower case letters, digits and single
/// hyphens, none of them at the ends.
pub open spec fn is_label(s: Seq<char>) -> bool {
    &&& forall|i: int|
        0 <= i < s.len() ==> (crate::text::is_lower(#[trigger] s[i]) || crate::text::is_digit(s[i])
            || s[i] == '-')
    &&& forall|i: int| 0 <= i < s.len() - 1 ==> (#[trigger] s[i]) != '-' || s[i + 1] != '-'
    &&& s.len() > 0 ==> s[0] != '-' && s.last() != '-'
}

/// Whether no two hyphens stand together.
pub open spec fn squeezed(s: Seq<char>) -> bool {
    forall|i: int| 0 <= i < s.len() - 1 ==> (#[trigger] s[i]) != '-' || s[i + 1] != '-'
}

proof fn squeeze_ok(s: Seq<char>)
    requires
        forall|i: int|
            0 <= i < s.len() ==> (crate::text::is_lower(#[trigger] s[i]) || crate::text::is_digit(
                s[i],
            ) || s[i] == '-'),
    ensures
        squeezed(squeeze(s)),
        forall|i: int|
            0 <= i < squeeze(s).len() ==> (crate::text::is_lower(#[trigger] squeeze(s)[i])
                || crate::text::is_digit(squeeze(s)[i]) || squeeze(s)[i] == '-'),
    decreases s.len(),
{
    if s.len() > 0 {
        squeeze_ok(s.drop_last());
    }
}

proof fn squeeze_id(s: Seq<char>)
    requires
        squeezed(s),
    ensures
        squeeze(s) == s,
    decreases s.len(),
{
    if s.len() > 0 {
        let d = s.drop_last();
        assert(squeezed(d)) by {
            assert forall|i: int| 0 <= i < d.len() - 1 implies (#[trigger] d[i]) != '-' || d[i + 1]
                != '-' by {
                assert(s[i] == d[i] && s[i + 1] == d[i + 1]);
            }
        }
        squeeze_id(d);
        if d.len() > 0 {
            assert(d.last() == s[s.len() - 2]);
        }
        assert(d.push(s.last()) =~= s);
    }
}

proof fn trim_front_sub(s: Seq<char>, c: char)
    ensures
        exists|k: int|
            0 <= k <= s.len() && trim_front(s, Class::Is(c)) == #[trigger] s.subrange(
                k,
                s.len() as int,
            ),
        trim_front(s, Class::Is(c)).len() > 0 ==> trim_front(s, Class::Is(c))[0] != c,
    decreases s.len(),
{
    if s.len() > 0 && s[0] == c {
        let d = s.drop_first();
        trim_front_sub(d, c);
        let k = choose|k: int|
            0 <= k <= d.len() && trim_front(d, Class::Is(c)) == #[trigger] d.subrange(
                k,
                d.len() as int,
            );
        assert(d.subrange(k, d.len() as int) =~= s.subrange(k + 1, s.len() as int));
    } else {
        assert(s.subrange(0, s.len() as int) =~= s);
    }
}

proof fn trim_back_sub(s: Seq<char>, c: char)
    ensures
        exists|k: int|
            0 <= k <= s.len() && trim_back(s, Class::Is(c)) == #[trigger] s.subrange(0, k),
        trim_back(s, Class::Is(c)).len() > 0 ==> trim_back(s, Class::Is(c)).last() != c,
    decreases s.len(),
{
    if s.len() > 0 && s.last() == c {
        let d = s.drop_last();
        trim_back_sub(d, c);
        let k = choose|k: int|
            0 <= k <= d.len() && trim_back(d, Class::Is(c)) == #[trigger] d.subrange(0, k);
        assert(d.subrange(0, k) =~= s.subrange(0, k));
    } else {
        assert(s.subrange(0, s.len() as int) =~= s);
    }
}

/// What a name is turned into is a hostname label.
pub proof fn label_is_label(name: Seq<char>)
    ensures
        is_label(label_of(name)),
{
    let m = name.map_values(|c: char| label_char(c));
    assert forall|i: int| 0 <= i < m.len() implies (crate::text::is_lower(#[trigger] m[i])
        || crate::text::is_digit(m[i]) || m[i] == '-') by {
        let c = name[i];
        assert(m[i] == label_char(c));
        if crate::text::is_upper(c) {
            assert(lower(c) as int == c as int + 32);
        }
    }
    squeeze_ok(m);
    let q = squeeze(m);
    let t = trim_front(q, Class::Is('-'));
    let u = trim_back(t, Class::Is('-'));
    trim_front_sub(q, '-');
    trim_back_sub(t, '-');
    let a = choose|k: int| 0 <= k <= q.len() && t == #[trigger] q.subrange(k, q.len() as int);
    let b = choose|k: int| 0 <= k <= t.len() && u == #[trigger] t.subrange(0, k);
    assert(forall|i: int| 0 <= i < u.len() ==> u[i] == q[a + i]);
    assert forall|i: int| 0 <= i < u.len() - 1 implies (#[trigger] u[i]) != '-' || u[i + 1]
        != '-' by {
        assert(u[i] == q[a + i] && u[i + 1] == q[a + i + 1]);
    }
    if u.len() > 0 {
        assert(u[0] == t[0]);
    }
}

/// A hostname label is left as it is.
pub proof fn label_idempotent(name: Seq<char>)
    ensures
        label_of(label_of(name)) == label_of(name),
{
    let s = label_of(name);
    label_is_label(name);
    let m = s.map_values(|c: char| label_char(c));
    assert forall|i: int| 0 <= i < s.len() implies m[i] == s[i] by {
        assert(crate::text::is_lower(s[i]) || crate::text::is_digit(s[i]) || s[i] == '-');
    }
    assert(m =~= s);
    squeeze_id(s);
}

/// The URL of a hostname behind the proxy; the scheme's own port is left out.
pub open spec fn url(hostname: Seq<char>, proxy_port: u16, tls: bool) -> Seq<char> {
    let scheme = if tls {
        "https"@
    } else {
        "http"@
    };
    if proxy_port == (if tls {
        443u16
    } else {
        80u16
    }) {
        scheme + "://"@ + hostname
    } else {
        scheme + "://"@ + hostname + ":"@ + dec(proxy_port as nat)
    }
}

/// The URL shown for a route.
pub fn format_url(hostname: &str, proxy_port: u16, tls: bool) -> (r: String)
    ensures
        r@ == url(hostname@, proxy_port, tls),
{
    let scheme = if tls {
        "https"
    } else {
        "http"
    };
    let default: u16 = if tls {
        443
    } else {
        80
    };
    let mut r: String = cat3(scheme, "://", hostname);
    if proxy_port != default {
        r.append(":");
        r.append(decimal(proxy_port as u64).as_str());
    }
    r
}

/// A reserved backend port: which one, which was asked for, and whether another
/// one had to be taken.
#[derive(Clone, Copy, Debug, PartialEq, Eq)]
pub struct PortReservation {
    pub port: u16,
    pub preferred: Option<u16>,
    pub conflict: bool,
}

} // verus!
