//! The services that commands are told of: where they are, and the variables and the
//! probes that refer to them.

use vstd::prelude::*;
use vstd::string::*;

use crate::json::{empty_table, with_key, Json, JsonV};
use crate::manifest::{Cmd, CmdV, ProbeAction, ProbePort};
use crate::text::{
    alnum, cat, cat3, chars_of, clone_pairs, debug_text, debugged, dec, decimal, is_alnum, opt_text,
    owned, pairs, pairs_push, parse_uint, parsed, same, string_of, strip_prefix, strip_suffix,
    trim_back, trimmed_back, upper, upper_char, without_prefix, without_suffix, Class,
};
use crate::trees::{json_text, json_written};

verus! {

/// Where a service is, as a mathematical object.
pub struct EndpointV {
    pub host: Option<Seq<char>>,
    pub port: Option<u16>,
    pub url: Option<Seq<char>>,
}

/// Where a service is, as far as it is known.
#[derive(Debug, PartialEq)]
pub struct ServiceEndpoint {
    pub host: Option<String>,
    pub port: Option<u16>,
    pub url: Option<String>,
}

impl View for ServiceEndpoint {
    type V = EndpointV;

    open spec fn view(&self) -> EndpointV {
        EndpointV { host: opt_text(self.host), port: self.port, url: opt_text(self.url) }
    }
}

/// The contents of a list of services.
pub open spec fn services_view(v: Seq<(String, ServiceEndpoint)>) -> Seq<(Seq<char>, EndpointV)> {
    v.map_values(|e: (String, ServiceEndpoint)| (e.0@, e.1@))
}

/// The index of a service, not before `i`; the number of services where it is none.
pub open spec fn service_index(v: Seq<(Seq<char>, EndpointV)>, name: Seq<char>, i: int) -> int
    decreases v.len() - i,
{
    if i < 0 || i >= v.len() {
        v.len() as int
    } else if v[i].0 == name {
        i
    } else {
        service_index(v, name, i + 1)
    }
}

/// Where the service of a name is.
pub open spec fn endpoint_of(v: Seq<(Seq<char>, EndpointV)>, name: Seq<char>) -> Option<EndpointV> {
    let i = service_index(v, name, 0);
    if i < v.len() {
        Some(v[i].1)
    } else {
        None
    }
}

/// The services with the one of a name set.
pub open spec fn service_set(
    v: Seq<(Seq<char>, EndpointV)>,
    name: Seq<char>,
    e: EndpointV,
) -> Seq<(Seq<char>, EndpointV)> {
    let i = service_index(v, name, 0);
    if i < v.len() {
        v.update(i, (name, e))
    } else {
        v.push((name, e))
    }
}

/// The services without the one of a name.
pub open spec fn service_removed(v: Seq<(Seq<char>, EndpointV)>, name: Seq<char>) -> Seq<
    (Seq<char>, EndpointV),
> {
    let i = service_index(v, name, 0);
    if i < v.len() {
        v.remove(i)
    } else {
        v
    }
}

/// Whether no two services have the same name.
pub open spec fn distinct_services(v: Seq<(Seq<char>, EndpointV)>) -> bool {
    forall|i: int, j: int| 0 <= i < j < v.len() ==> (#[trigger] v[i]).0 != (#[trigger] v[j]).0
}

/// What stands where a service was not looked for.
pub proof fn service_found(v: Seq<(Seq<char>, EndpointV)>, name: Seq<char>, from: int)
    requires
        0 <= from <= v.len(),
    ensures
        ({
            let i = service_index(v, name, from);
            &&& from <= i <= v.len()
            &&& i < v.len() ==> v[i].0 == name
            &&& forall|j: int| from <= j < i ==> (#[trigger] v[j]).0 != name
        }),
    decreases v.len() - from,
{
    if from < v.len() && v[from].0 != name {
        service_found(v, name, from + 1);
    }
}

/// The services that commands are told of, each under its own name.
#[derive(Debug)]
pub struct ServiceRegistry {
    entries: Vec<(String, ServiceEndpoint)>,
}

impl View for ServiceRegistry {
    type V = Seq<(Seq<char>, EndpointV)>;

    closed spec fn view(&self) -> Seq<(Seq<char>, EndpointV)> {
        services_view(self.entries@)
    }
}

impl ServiceRegistry {
    /// Whether each service has its own name.
    pub open spec fn ok(self) -> bool {
        distinct_services(self@)
    }

    /// No services.
    pub fn new() -> (r: ServiceRegistry)
        ensures
            r@ == Seq::<(Seq<char>, EndpointV)>::empty(),
            r.ok(),
    {
        let r = ServiceRegistry { entries: Vec::new() };
        assert(r@ =~= Seq::empty());
        r
    }

    /// The names of the services, in order.
    pub fn names(&self) -> (r: Vec<String>)
        ensures
            r@.len() == self@.len(),
            forall|i: int| 0 <= i < self@.len() ==> (#[trigger] self@[i]).0 == r@[i]@,
    {
        let mut r: Vec<String> = Vec::new();
        let mut i: usize = 0;
        while i < self.entries.len()
            invariant
                i <= self.entries@.len(),
                r@.len() == i,
                forall|j: int| 0 <= j < i ==> self.entries@[j].0@ == (#[trigger] r@[j])@,
            decreases self.entries@.len() - i,
        {
            r.push(self.entries[i].0.clone());
            i += 1;
        }
        assert forall|j: int| 0 <= j < self@.len() implies (#[trigger] self@[j]).0 == r@[j]@ by {
            assert(self@[j].0 == self.entries@[j].0@);
        }
        r
    }

    fn index(&self, name: &str) -> (r: usize)
        ensures
            r == service_index(self@, name@, 0),
            r <= self.entries@.len(),
            self@ == services_view(self.entries@),
    {
        let ghost all = self@;
        let mut i: usize = 0;
        while i < self.entries.len()
            invariant
                i <= self.entries@.len(),
                all == services_view(self.entries@),
                service_index(all, name@, 0) == service_index(all, name@, i as int),
            decreases self.entries@.len() - i,
        {
            assert(all[i as int].0 == self.entries@[i as int].0@);
            if same(self.entries[i].0.as_str(), name) {
                return i;
            }
            i += 1;
        }
        i
    }

    /// Where the service of a name is.
    pub fn get(&self, name: &str) -> (r: Option<&ServiceEndpoint>)
        ensures
            match r {
                Some(e) => endpoint_of(self@, name@) == Some(e@),
                None => endpoint_of(self@, name@) is None,
            },
    {
        let i: usize = self.index(name);
        if i < self.entries.len() {
            Some(&self.entries[i].1)
        } else {
            None
        }
    }

    /// Sets where the service of a name is.
    pub fn insert(&mut self, name: &str, endpoint: ServiceEndpoint)
        requires
            old(self).ok(),
        ensures
            final(self)@ == service_set(old(self)@, name@, endpoint@),
            final(self).ok(),
    {
        let ghost all = self@;
        let ghost e = endpoint@;
        let i: usize = self.index(name);
        proof {
            service_found(all, name@, 0);
        }
        if i < self.entries.len() {
            self.entries.set(i, (owned(name), endpoint));
            assert(self@ =~= all.update(i as int, (name@, e)));
        } else {
            self.entries.push((owned(name), endpoint));
            assert(self@ =~= all.push((name@, e)));
        }
    }

    /// Forgets the service of a name.
    pub fn remove(&mut self, name: &str)
        requires
            old(self).ok(),
        ensures
            final(self)@ == service_removed(old(self)@, name@),
            final(self).ok(),
    {
        let ghost all = self@;
        let i: usize = self.index(name);
        if i < self.entries.len() {
            self.entries.remove(i);
            assert(self@ =~= all.remove(i as int));
        }
    }
}

/// A name as part of a variable's name, before its end is trimmed: letters in upper
/// case and digits, an underscore for what stands between them.
pub open spec fn key_chars(s: Seq<char>) -> Seq<char>
    decreases s.len(),
{
    if s.len() == 0 {
        Seq::empty()
    } else {
        let k = key_chars(s.drop_last());
        if is_alnum(s.last()) {
            k.push(upper(s.last()))
        } else if k.len() > 0 && k.last() != '_' {
            k.push('_')
        } else {
            k
        }
    }
}

/// A name as part of a variable's name.
pub open spec fn env_key(name: Seq<char>) -> Seq<char> {
    let k = trim_back(key_chars(name), Class::Is('_'));
    if k.len() == 0 {
        "SERVICE"@
    } else {
        k
    }
}

/// A name as part of a variable's name.
pub fn service_env_key(name: &str) -> (r: String)
    ensures
        r@ == env_key(name@),
{
    let c = chars_of(name);
    let mut out: Vec<char> = Vec::new();
    let mut i: usize = 0;
    assert(key_chars(c@.take(0)) =~= Seq::empty());
    while i < c.len()
        invariant
            i <= c@.len(),
            out@ == key_chars(c@.take(i as int)),
        decreases c@.len() - i,
    {
        assert(c@.take(i + 1).drop_last() =~= c@.take(i as int));
        assert(c@.take(i + 1).last() == c@[i as int]);
        if alnum(c[i]) {
            out.push(upper_char(c[i]));
        } else if out.len() > 0 && out[out.len() - 1] != '_' {
            out.push('_');
        }
        i += 1;
    }
    assert(c@.take(i as int) =~= c@);
    let text = string_of(out.as_slice());
    let k = trimmed_back(text.as_str(), Class::Is('_'));
    if k.as_str().is_empty() {
        owned("SERVICE")
    } else {
        k
    }
}

/// Whether a character may stand in the name of a variable.
pub open spec fn is_key_char(c: char) -> bool {
    crate::text::is_upper(c) || crate::text::is_digit(c) || c == '_'
}

proof fn key_chars_ok(s: Seq<char>)
    ensures
        forall|i: int| 0 <= i < key_chars(s).len() ==> is_key_char(#[trigger] key_chars(s)[i]),
        key_chars(s).len() > 0 ==> key_chars(s)[0] != '_',
        forall|i: int|
            0 <= i < key_chars(s).len() - 1 ==> (#[trigger] key_chars(s)[i] != '_' || key_chars(
                s,
            )[i + 1] != '_'),
    decreases s.len(),
{
    if s.len() > 0 {
        key_chars_ok(s.drop_last());
        let k = key_chars(s.drop_last());
        let r = key_chars(s);
        assert(forall|i: int| 0 <= i < k.len() ==> r[i] == k[i]);
    }
}

proof fn trim_back_prefix(s: Seq<char>, class: Class)
    ensures
        trim_back(s, class).is_prefix_of(s),
        trim_back(s, class).len() > 0 ==> !crate::text::in_class(trim_back(s, class).last(), class),
    decreases s.len(),
{
    if s.len() > 0 && crate::text::in_class(s.last(), class) {
        trim_back_prefix(s.drop_last(), class);
    }
}

/// The part of a variable's name made of a service's name is not empty, is made of
/// letters in upper case, digits and underscores, and neither starts nor ends with an
/// underscore nor has two in a row.
pub proof fn env_key_is_key(name: Seq<char>)
    ensures
        env_key(name).len() > 0,
        forall|i: int| 0 <= i < env_key(name).len() ==> is_key_char(#[trigger] env_key(name)[i]),
        env_key(name)[0] != '_',
        env_key(name).last() != '_',
        forall|i: int|
            0 <= i < env_key(name).len() - 1 ==> (#[trigger] env_key(name)[i] != '_' || env_key(
                name,
            )[i + 1] != '_'),
{
    let k = key_chars(name);
    let t = trim_back(k, Class::Is('_'));
    key_chars_ok(name);
    trim_back_prefix(k, Class::Is('_'));
    assert(forall|i: int| 0 <= i < t.len() ==> t[i] == k[i]);
    reveal_strlit("SERVICE");
}

/// A service as JSON: what is known of it.
pub open spec fn endpoint_json(e: EndpointV) -> JsonV {
    let t = empty_table();
    let t = match e.host {
        Some(h) => with_key(t, "host"@, JsonV::Text(h)),
        None => t,
    };
    let t = match e.port {
        Some(p) => with_key(t, "port"@, JsonV::Int(p as int)),
        None => t,
    };
    match e.url {
        Some(u) => with_key(t, "url"@, JsonV::Text(u)),
        None => t,
    }
}

fn json_of_endpoint(e: &ServiceEndpoint) -> (r: Json)
    ensures
        r@ == endpoint_json(e@),
{
    let mut t = Json::table();
    if let Some(h) = &e.host {
        t = t.with("host", Json::text(h.as_str()));
    }
    if let Some(p) = e.port {
        t = t.with("port", Json::Pos(p as u64));
    }
    if let Some(u) = &e.url {
        t = t.with("url", Json::text(u.as_str()));
    }
    t
}

/// The services as one JSON table.
pub open spec fn services_json(v: Seq<(Seq<char>, EndpointV)>) -> JsonV
    decreases v.len(),
{
    if v.len() == 0 {
        empty_table()
    } else {
        with_key(services_json(v.drop_last()), v.last().0, endpoint_json(v.last().1))
    }
}

/// The variables that tell of one service.
pub open spec fn endpoint_env(name: Seq<char>, e: EndpointV) -> Seq<(Seq<char>, Seq<char>)> {
    let key = "STARLING_"@ + env_key(name);
    let host = match e.host {
        Some(h) => seq![(key + "_HOST"@, h)],
        None => Seq::empty(),
    };
    let port = match e.port {
        Some(p) => seq![(key + "_PORT"@, dec(p as nat))],
        None => Seq::empty(),
    };
    let url = match e.url {
        Some(u) => seq![(key + "_URL"@, u)],
        None => Seq::empty(),
    };
    host + port + url
}

/// The variables that tell of some services.
pub open spec fn services_env(v: Seq<(Seq<char>, EndpointV)>) -> Seq<(Seq<char>, Seq<char>)>
    decreases v.len(),
{
    if v.len() == 0 {
        Seq::empty()
    } else {
        services_env(v.drop_last()) + endpoint_env(v.last().0, v.last().1)
    }
}

/// The variables that tell commands of the services: those of each service, and one
/// that holds all of them.
pub open spec fn env_of(v: Seq<(Seq<char>, EndpointV)>) -> Seq<(Seq<char>, Seq<char>)> {
    services_env(v).push(("STARLING_SERVICES_JSON"@, json_written(services_json(v))))
}

fn push_endpoint_env(env: &mut Vec<(String, String)>, name: &str, e: &ServiceEndpoint)
    ensures
        pairs(final(env)@) == pairs(old(env)@) + endpoint_env(name@, e@),
{
    broadcast use pairs_push;

    let key = cat("STARLING_", service_env_key(name).as_str());
    let ghost before = pairs(env@);
    if let Some(h) = &e.host {
        env.push((cat(key.as_str(), "_HOST"), h.clone()));
    }
    if let Some(p) = e.port {
        env.push((cat(key.as_str(), "_PORT"), decimal(p as u64)));
    }
    if let Some(u) = &e.url {
        env.push((cat(key.as_str(), "_URL"), u.clone()));
    }
    assert(pairs(env@) =~= before + endpoint_env(name@, e@));
}

/// The variables that tell commands of the services.
pub fn service_env(registry: &ServiceRegistry) -> (r: Vec<(String, String)>)
    ensures
        pairs(r@) == env_of(registry@),
{
    broadcast use pairs_push;

    let ghost all = registry@;
    let mut env: Vec<(String, String)> = Vec::new();
    let mut json: Json = Json::table();
    let mut i: usize = 0;
    assert(pairs(env@) =~= services_env(all.take(0)));
    assert(json@ == services_json(all.take(0)));
    while i < registry.entries.len()
        invariant
            i <= registry.entries@.len(),
            all == services_view(registry.entries@),
            pairs(env@) == services_env(all.take(i as int)),
            json@ == services_json(all.take(i as int)),
        decreases registry.entries@.len() - i,
    {
        proof {
            assert(all.take(i + 1).drop_last() =~= all.take(i as int));
            assert(all.take(i + 1).last() == all[i as int]);
        }
        let e = &registry.entries[i];
        push_endpoint_env(&mut env, e.0.as_str(), &e.1);
        json = json.with(e.0.as_str(), json_of_endpoint(&e.1));
        i += 1;
    }
    assert(all.take(i as int) =~= all);
    env.push((owned("STARLING_SERVICES_JSON"), json_text(&json)));
    env
}

/// A command with the variables that tell of the services, before its own: where both
/// set a variable, the command's own comes last and counts.
pub fn with_service_env(cmd: Cmd, registry: &ServiceRegistry) -> (r: Cmd)
    ensures
        r@ == (CmdV { env: env_of(registry@) + cmd@.env, ..cmd@ }),
        r.argv == cmd.argv,
        r.workdir == cmd.workdir,
{
    let mut env = service_env(registry);
    let ghost before = pairs(env@);
    let ghost own = cmd.env@;
    let mut rest = clone_pairs(&cmd.env);
    env.append(&mut rest);
    assert(pairs(env@) =~= before + pairs(own));
    Cmd { argv: cmd.argv, workdir: cmd.workdir, env }
}

/// What the first variable of a name holds.
pub open spec fn first_value(env: Seq<(Seq<char>, Seq<char>)>, key: Seq<char>) -> Option<Seq<char>>
    decreases env.len(),
{
    if env.len() == 0 {
        None
    } else if env[0].0 == key {
        Some(env[0].1)
    } else {
        first_value(env.drop_first(), key)
    }
}

/// The name of the variable that a deferred port refers to: with or without `${` and
/// `}`.
pub open spec fn variable_name(raw: Seq<char>) -> Seq<char> {
    match without_prefix(raw, "${"@) {
        Some(s) => match without_suffix(s, "}"@) {
            Some(k) => k,
            None => raw,
        },
        None => raw,
    }
}

fn variable_name_of(raw: &str) -> (r: String)
    ensures
        r@ == variable_name(raw@),
{
    match strip_prefix(raw, "${") {
        Some(s) => match strip_suffix(s.as_str(), "}") {
            Some(k) => k,
            None => owned(raw),
        },
        None => owned(raw),
    }
}

/// The port that a probe goes to, given the variables: a number stands for itself, a
/// deferred one for the value of its variable.
pub open spec fn resolved_port(
    port: ProbePort,
    env: Seq<(Seq<char>, Seq<char>)>,
) -> Result<u16, Seq<char>> {
    match port {
        ProbePort::Number(n) => Ok(n),
        ProbePort::Deferred(raw) => match first_value(env, variable_name(raw@)) {
            None => Err("could not resolve probe port "@ + raw@),
            Some(v) => match parsed(v, 65535) {
                Some(n) => Ok(n as u16),
                None => Err(
                    "probe port "@ + raw@ + " resolved to invalid value "@ + debugged(v),
                ),
            },
        },
    }
}

fn value_of<'a>(env: &'a Vec<(String, String)>, key: &str) -> (r: Option<&'a str>)
    ensures
        match r {
            Some(v) => first_value(pairs(env@), key@) == Some(v@),
            None => first_value(pairs(env@), key@) is None,
        },
{
    let ghost all = pairs(env@);
    let mut i: usize = 0;
    assert(all.skip(0) =~= all);
    while i < env.len()
        invariant
            i <= env@.len(),
            all == pairs(env@),
            first_value(all, key@) == first_value(all.skip(i as int), key@),
        decreases env@.len() - i,
    {
        assert(all.skip(i as int)[0] == (env@[i as int].0@, env@[i as int].1@));
        assert(all.skip(i as int).drop_first() =~= all.skip(i + 1));
        if same(env[i].0.as_str(), key) {
            return Some(env[i].1.as_str());
        }
        i += 1;
    }
    None
}

/// The port that a probe goes to, given the services.
pub fn resolve_probe_port(port: &ProbePort, registry: &ServiceRegistry) -> (r: Result<u16, String>)
    ensures
        match r {
            Ok(n) => resolved_port(*port, env_of(registry@)) == Ok::<u16, Seq<char>>(n),
            Err(e) => resolved_port(*port, env_of(registry@)) == Err::<u16, Seq<char>>(e@),
        },
{
    match port {
        ProbePort::Number(n) => Ok(*n),
        ProbePort::Deferred(raw) => {
            let env = service_env(registry);
            let key = variable_name_of(raw.as_str());
            match value_of(&env, key.as_str()) {
                None => Err(cat("could not resolve probe port ", raw.as_str())),
                Some(v) => match parse_uint(v, 65535) {
                    Some(n) => Ok(n as u16),
                    None => {
                        let mut e = cat3("probe port ", raw.as_str(), " resolved to invalid value ");
                        e.append(debug_text(v).as_str());
                        Err(e)
                    },
                },
            }
        },
    }
}

/// A probe with its port known.
#[derive(Debug, PartialEq)]
pub enum ResolvedProbe {
    Exec { command: Vec<String> },
    Tcp { host: String, port: u16 },
    Http { host: String, port: u16, scheme: String, path: String },
}

/// What a probe is with its port known.
pub open spec fn probe_resolved(
    action: ProbeAction,
    env: Seq<(Seq<char>, Seq<char>)>,
    r: Result<ResolvedProbe, String>,
) -> bool {
    match action {
        ProbeAction::Exec { command } => r is Ok && r->Ok_0 is Exec && r->Ok_0->command@
            == command@,
        ProbeAction::Tcp { host, port } => match resolved_port(port, env) {
            Ok(n) => r is Ok && r->Ok_0 is Tcp && r->Ok_0->Tcp_host@ == host@ && r->Ok_0->Tcp_port
                == n,
            Err(e) => r is Err && r->Err_0@ == e,
        },
        ProbeAction::Http { host, port, scheme, path } => match resolved_port(port, env) {
            Ok(n) => r is Ok && r->Ok_0 is Http && r->Ok_0->Http_host@ == host@
                && r->Ok_0->Http_port == n && r->Ok_0->scheme@ == scheme@ && r->Ok_0->path@
                == path@,
            Err(e) => r is Err && r->Err_0@ == e,
        },
    }
}

/// A probe with its port known, given the services.
pub fn resolve_probe_action_ports(action: &ProbeAction, registry: &ServiceRegistry) -> (r: Result<
    ResolvedProbe,
    String,
>)
    ensures
        probe_resolved(*action, env_of(registry@), r),
{
    match action {
        ProbeAction::Exec { command } => Ok(ResolvedProbe::Exec { command: command.clone() }),
        ProbeAction::Tcp { host, port } => match resolve_probe_port(port, registry) {
            Ok(n) => Ok(ResolvedProbe::Tcp { host: host.clone(), port: n }),
            Err(e) => Err(e),
        },
        ProbeAction::Http { host, port, scheme, path } => match resolve_probe_port(port, registry) {
            Ok(n) => Ok(
                ResolvedProbe::Http {
                    host: host.clone(),
                    port: n,
                    scheme: scheme.clone(),
                    path: path.clone(),
                },
            ),
            Err(e) => Err(e),
        },
    }
}

} // verus!
