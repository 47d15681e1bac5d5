//! What commands print of the state of the daemon: as text and as JSON.

use vstd::prelude::*;
use vstd::string::*;

use crate::daemon::protocol::{
    infos_view, snapshots_view, states_view, ApiObjectSnapshot, DashboardState, InstanceState,
    InstanceStateV, ResourceSnapshot, RouteInfo, RouteV, SnapshotV,
};
use crate::health::ProxyHealth;
use crate::json::{empty_table, list_view, list_view_push, text_list, with_key, Json, JsonV};
use crate::text::{
    cat, cat3, dec, decimal, opt_text, owned, pad, padded, same, texts, texts_push,
};
use crate::trees::{json_laid_out, json_pretty};

verus! {

/// A text as JSON; null where there is none.
pub open spec fn opt_json(o: Option<Seq<char>>) -> JsonV {
    match o {
        Some(s) => JsonV::Text(s),
        None => JsonV::Null,
    }
}

fn json_of_opt(o: &Option<String>) -> (r: Json)
    ensures
        r@ == opt_json(opt_text(*o)),
{
    match o {
        Some(s) => Json::text(s.as_str()),
        None => Json::Null,
    }
}

/// A resource as JSON.
pub open spec fn resource_json(r: ResourceSnapshot) -> JsonV {
    let t = with_key(empty_table(), "name"@, JsonV::Text(r.name@));
    let t = with_key(t, "kind"@, JsonV::Text(r.kind@));
    let t = with_key(t, "paused"@, JsonV::Bool(r.paused));
    let t = with_key(t, "update_status"@, JsonV::Text(r.update_status@));
    let t = with_key(t, "runtime_status"@, JsonV::Text(r.runtime_status@));
    let t = with_key(t, "pod"@, opt_json(opt_text(r.pod)));
    let t = with_key(t, "url"@, opt_json(opt_text(r.url)));
    let t = with_key(t, "proxy_status"@, opt_json(opt_text(r.proxy_status)));
    let t = with_key(t, "proxy_message"@, opt_json(opt_text(r.proxy_message)));
    let t = with_key(t, "build_count"@, JsonV::Int(r.build_count as int));
    let t = with_key(t, "last_deploy"@, opt_json(opt_text(r.last_deploy)));
    let t = with_key(
        t,
        "restart_count"@,
        match r.restart_count {
            Some(n) => JsonV::Int(n as int),
            None => JsonV::Null,
        },
    );
    with_key(t, "last_start"@, opt_json(opt_text(r.last_start)))
}

fn json_of_resource(r: &ResourceSnapshot) -> (j: Json)
    ensures
        j@ == resource_json(*r),
{
    let restarts = match r.restart_count {
        Some(n) => Json::Pos(n as u64),
        None => Json::Null,
    };
    Json::table().with("name", Json::text(r.name.as_str())).with(
        "kind",
        Json::text(r.kind.as_str()),
    ).with("paused", Json::Bool(r.paused)).with(
        "update_status",
        Json::text(r.update_status.as_str()),
    ).with("runtime_status", Json::text(r.runtime_status.as_str())).with(
        "pod",
        json_of_opt(&r.pod),
    ).with("url", json_of_opt(&r.url)).with("proxy_status", json_of_opt(&r.proxy_status)).with(
        "proxy_message",
        json_of_opt(&r.proxy_message),
    ).with("build_count", Json::Pos(r.build_count as u64)).with(
        "last_deploy",
        json_of_opt(&r.last_deploy),
    ).with("restart_count", restarts).with("last_start", json_of_opt(&r.last_start))
}

/// An object as JSON, with its kind and its name.
pub open spec fn snapshot_json(o: SnapshotV) -> JsonV {
    let t = with_key(empty_table(), "kind"@, JsonV::Text(o.kind));
    let t = with_key(t, "name"@, JsonV::Text(o.name));
    with_key(t, "object"@, o.object)
}

/// An instance as JSON.
pub open spec fn instance_json(i: InstanceStateV) -> JsonV {
    let t = with_key(empty_table(), "id"@, JsonV::Text(i.id));
    let t = with_key(t, "name"@, JsonV::Text(i.name));
    let t = with_key(t, "dir"@, JsonV::Text(i.dir));
    let t = with_key(t, "pid"@, JsonV::Int(i.pid as int));
    let t = with_key(
        t,
        "resources"@,
        JsonV::List(i.resources.map_values(|r: ResourceSnapshot| resource_json(r))),
    );
    let t = with_key(
        t,
        "objects"@,
        JsonV::List(i.objects.map_values(|o: SnapshotV| snapshot_json(o))),
    );
    with_key(t, "api_addr"@, opt_json(opt_text(i.api_addr)))
}

fn json_of_resources(v: &Vec<ResourceSnapshot>) -> (r: Json)
    ensures
        r@ == JsonV::List(v@.map_values(|r: ResourceSnapshot| resource_json(r))),
{
    let ghost all = v@.map_values(|r: ResourceSnapshot| resource_json(r));
    let mut out: Vec<Json> = Vec::new();
    let mut i: usize = 0;
    assert(list_view(out@) =~= all.take(0));
    while i < v.len()
        invariant
            i <= v@.len(),
            all == v@.map_values(|r: ResourceSnapshot| resource_json(r)),
            list_view(out@) == all.take(i as int),
        decreases v@.len() - i,
    {
        let j = json_of_resource(&v[i]);
        proof {
            list_view_push(out@, j);
            assert(all.take(i + 1) =~= all.take(i as int).push(j@));
        }
        out.push(j);
        i += 1;
    }
    assert(all.take(i as int) =~= all);
    Json::List(out)
}

fn json_of_snapshots(v: &Vec<ApiObjectSnapshot>) -> (r: Json)
    ensures
        r@ == JsonV::List(snapshots_view(v@).map_values(|o: SnapshotV| snapshot_json(o))),
{
    let ghost all = snapshots_view(v@).map_values(|o: SnapshotV| snapshot_json(o));
    let mut out: Vec<Json> = Vec::new();
    let mut i: usize = 0;
    assert(list_view(out@) =~= all.take(0));
    while i < v.len()
        invariant
            i <= v@.len(),
            all == snapshots_view(v@).map_values(|o: SnapshotV| snapshot_json(o)),
            list_view(out@) == all.take(i as int),
        decreases v@.len() - i,
    {
        let o = &v[i];
        let j = Json::table().with("kind", Json::text(o.kind.as_str())).with(
            "name",
            Json::text(o.name.as_str()),
        ).with("object", o.object.clone());
        proof {
            list_view_push(out@, j);
            assert(all[i as int] == snapshot_json(o@));
            assert(all.take(i + 1) =~= all.take(i as int).push(j@));
        }
        out.push(j);
        i += 1;
    }
    assert(all.take(i as int) =~= all);
    Json::List(out)
}

fn json_of_instance(i: &InstanceState) -> (r: Json)
    ensures
        r@ == instance_json(i@),
{
    Json::table().with("id", Json::text(i.id.as_str())).with(
        "name",
        Json::text(i.name.as_str()),
    ).with("dir", Json::text(i.dir.as_str())).with("pid", Json::Pos(i.pid as u64)).with(
        "resources",
        json_of_resources(&i.resources),
    ).with("objects", json_of_snapshots(&i.objects)).with("api_addr", json_of_opt(&i.api_addr))
}

/// The instances as JSON.
pub open spec fn instances_json(v: Seq<InstanceStateV>) -> JsonV {
    JsonV::List(v.map_values(|i: InstanceStateV| instance_json(i)))
}

fn json_of_instances(v: &Vec<InstanceState>) -> (r: Json)
    ensures
        r@ == instances_json(states_view(v@)),
{
    let ghost all = states_view(v@).map_values(|i: InstanceStateV| instance_json(i));
    let mut out: Vec<Json> = Vec::new();
    let mut i: usize = 0;
    assert(list_view(out@) =~= all.take(0));
    while i < v.len()
        invariant
            i <= v@.len(),
            all == states_view(v@).map_values(|i: InstanceStateV| instance_json(i)),
            list_view(out@) == all.take(i as int),
        decreases v@.len() - i,
    {
        let j = json_of_instance(&v[i]);
        proof {
            list_view_push(out@, j);
            assert(all[i as int] == instance_json(v@[i as int]@));
            assert(all.take(i + 1) =~= all.take(i as int).push(j@));
        }
        out.push(j);
        i += 1;
    }
    assert(all.take(i as int) =~= all);
    Json::List(out)
}

/// A route as JSON.
pub open spec fn route_json(r: RouteV) -> JsonV {
    let t = with_key(empty_table(), "hostname"@, JsonV::Text(r.hostname));
    let t = with_key(t, "port"@, JsonV::Int(r.port as int));
    with_key(t, "instance"@, JsonV::Text(r.instance))
}

fn json_of_route(r: &RouteInfo) -> (j: Json)
    ensures
        j@ == route_json(r@),
{
    Json::table().with("hostname", Json::text(r.hostname.as_str())).with(
        "port",
        Json::Pos(r.port as u64),
    ).with("instance", Json::text(r.instance.as_str()))
}

/// The state of the daemon as JSON.
pub open spec fn state_json(s: DashboardState) -> JsonV {
    let t = with_key(empty_table(), "proxyPort"@, JsonV::Int(s.proxy_port as int));
    let t = with_key(t, "tld"@, JsonV::Text(s.tld@));
    let t = with_key(t, "instances"@, instances_json(states_view(s.instances@)));
    with_key(
        t,
        "routes"@,
        JsonV::List(infos_view(s.routes@).map_values(|r: RouteV| route_json(r))),
    )
}

/// The state of the daemon as it is dumped.
pub fn dump_state(state: &DashboardState) -> (r: String)
    ensures
        r@ == json_laid_out(state_json(*state)),
{
    let ghost all = infos_view(state.routes@).map_values(|r: RouteV| route_json(r));
    let mut routes: Vec<Json> = Vec::new();
    let mut i: usize = 0;
    assert(list_view(routes@) =~= all.take(0));
    while i < state.routes.len()
        invariant
            i <= state.routes@.len(),
            all == infos_view(state.routes@).map_values(|r: RouteV| route_json(r)),
            list_view(routes@) == all.take(i as int),
        decreases state.routes@.len() - i,
    {
        let j = json_of_route(&state.routes[i]);
        proof {
            list_view_push(routes@, j);
            assert(all[i as int] == route_json(state.routes@[i as int]@));
            assert(all.take(i + 1) =~= all.take(i as int).push(j@));
        }
        routes.push(j);
        i += 1;
    }
    assert(all.take(i as int) =~= all);
    let j = Json::table().with("proxyPort", Json::Pos(state.proxy_port as u64)).with(
        "tld",
        Json::text(state.tld.as_str()),
    ).with("instances", json_of_instances(&state.instances)).with("routes", Json::List(routes));
    json_pretty(&j)
}

/// What was found of a route: whether its backend is open, and whether it can be
/// reached through the proxy.
#[derive(Debug)]
pub struct RouteCheck {
    pub hostname: String,
    pub open: bool,
    pub health: ProxyHealth,
}

/// What was found of the route of a hostname.
pub open spec fn check_of(checks: Seq<RouteCheck>, hostname: Seq<char>) -> Option<RouteCheck>
    decreases checks.len(),
{
    if checks.len() == 0 {
        None
    } else if checks[0].hostname@ == hostname {
        Some(checks[0])
    } else {
        check_of(checks.drop_first(), hostname)
    }
}

fn find_check<'a>(checks: &'a Vec<RouteCheck>, hostname: &str) -> (r: Option<&'a RouteCheck>)
    ensures
        match r {
            Some(c) => check_of(checks@, hostname@) == Some(*c),
            None => check_of(checks@, hostname@) is None,
        },
{
    let mut i: usize = 0;
    assert(checks@.skip(0) =~= checks@);
    while i < checks.len()
        invariant
            i <= checks@.len(),
            check_of(checks@, hostname@) == check_of(checks@.skip(i as int), hostname@),
        decreases checks@.len() - i,
    {
        assert(checks@.skip(i as int)[0] == checks@[i as int]);
        assert(checks@.skip(i as int).drop_first() =~= checks@.skip(i + 1));
        if same(checks[i].hostname.as_str(), hostname) {
            return Some(&checks[i]);
        }
        i += 1;
    }
    None
}

/// A route as JSON, with what was found of it; null where it was not looked at.
pub open spec fn checked_route_json(r: RouteV, c: Option<RouteCheck>) -> JsonV {
    let t = route_json(r);
    let t = with_key(
        t,
        "reachable"@,
        match c {
            Some(c) => JsonV::Bool(c.open),
            None => JsonV::Null,
        },
    );
    let t = with_key(
        t,
        "proxy_reachable"@,
        match c {
            Some(c) => JsonV::Bool(c.health.ok),
            None => JsonV::Null,
        },
    );
    let t = with_key(
        t,
        "proxy_status"@,
        match c {
            Some(c) => match c.health.status {
                Some(n) => JsonV::Int(n as int),
                None => JsonV::Null,
            },
            None => JsonV::Null,
        },
    );
    with_key(
        t,
        "proxy_message"@,
        match c {
            Some(c) => JsonV::Text(c.health.message@),
            None => JsonV::Null,
        },
    )
}

fn json_of_checked(r: &RouteInfo, checks: &Vec<RouteCheck>) -> (j: Json)
    ensures
        j@ == checked_route_json(r@, check_of(checks@, r.hostname@)),
{
    let t = json_of_route(r);
    match find_check(checks, r.hostname.as_str()) {
        Some(c) => {
            let status = match c.health.status {
                Some(n) => Json::Pos(n as u64),
                None => Json::Null,
            };
            t.with("reachable", Json::Bool(c.open)).with(
                "proxy_reachable",
                Json::Bool(c.health.ok),
            ).with("proxy_status", status).with(
                "proxy_message",
                Json::text(c.health.message.as_str()),
            )
        },
        None => t.with("reachable", Json::Null).with("proxy_reachable", Json::Null).with(
            "proxy_status",
            Json::Null,
        ).with("proxy_message", Json::Null),
    }
}

/// The routes as JSON, with what was found of them.
pub open spec fn checked_routes_json(routes: Seq<RouteV>, checks: Seq<RouteCheck>) -> Seq<JsonV> {
    routes.map_values(|r: RouteV| checked_route_json(r, check_of(checks, r.hostname)))
}

/// The state of the daemon as JSON, with what was found of the routes.
pub open spec fn status_json_of(s: DashboardState, checks: Seq<RouteCheck>) -> JsonV {
    let t = with_key(empty_table(), "proxy_port"@, JsonV::Int(s.proxy_port as int));
    let t = with_key(t, "tld"@, JsonV::Text(s.tld@));
    let t = with_key(t, "instances"@, instances_json(states_view(s.instances@)));
    with_key(t, "routes"@, JsonV::List(checked_routes_json(infos_view(s.routes@), checks)))
}

/// The state of the daemon as JSON, with what was found of the routes.
pub fn status_json(state: &DashboardState, checks: &Vec<RouteCheck>) -> (r: String)
    ensures
        r@ == json_laid_out(status_json_of(*state, checks@)),
{
    let ghost all = checked_routes_json(infos_view(state.routes@), checks@);
    let mut routes: Vec<Json> = Vec::new();
    let mut i: usize = 0;
    assert(list_view(routes@) =~= all.take(0));
    while i < state.routes.len()
        invariant
            i <= state.routes@.len(),
            all == checked_routes_json(infos_view(state.routes@), checks@),
            list_view(routes@) == all.take(i as int),
        decreases state.routes@.len() - i,
    {
        let j = json_of_checked(&state.routes[i], checks);
        proof {
            list_view_push(routes@, j);
            assert(infos_view(state.routes@)[i as int] == state.routes@[i as int]@);
            assert(all[i as int] == j@);
            assert(all.take(i + 1) =~= all.take(i as int).push(j@));
        }
        routes.push(j);
        i += 1;
    }
    assert(all.take(i as int) =~= all);
    let j = Json::table().with("proxy_port", Json::Pos(state.proxy_port as u64)).with(
        "tld",
        Json::text(state.tld.as_str()),
    ).with("instances", json_of_instances(&state.instances)).with("routes", Json::List(routes));
    json_pretty(&j)
}

/// What is said of a route through the proxy.
pub open spec fn route_label(ok: bool, status: Option<u16>) -> Seq<char> {
    match (ok, status) {
        (true, Some(code)) => "ok("@ + dec(code as nat) + ")"@,
        (false, Some(code)) => "bad("@ + dec(code as nat) + ")"@,
        (false, None) => "failed"@,
        (true, None) => "ok"@,
    }
}

/// What is said of a route through the proxy.
pub fn proxy_route_label(health: &ProxyHealth) -> (r: String)
    ensures
        r@ == route_label(health.ok, health.status),
{
    match health.status {
        Some(code) => cat3(
            if health.ok {
                "ok("
            } else {
                "bad("
            },
            decimal(code as u64).as_str(),
            ")",
        ),
        None => if health.ok {
            owned("ok")
        } else {
            owned("failed")
        },
    }
}

/// What is said of the condition of a resource behind the proxy.
pub open spec fn condition_label(status: Option<Seq<char>>) -> Seq<char> {
    match status {
        Some(s) => if s == "True"@ {
            "ok"@
        } else if s == "False"@ {
            "failed"@
        } else {
            s
        },
        None => "-"@,
    }
}

/// What is said of the condition of a resource behind the proxy.
pub fn proxy_condition_label(status: Option<&str>) -> (r: &str)
    ensures
        r@ == condition_label(
            match status {
                Some(s) => Some(s@),
                None => None,
            },
        ),
{
    match status {
        Some(s) => if same(s, "True") {
            "ok"
        } else if same(s, "False") {
            "failed"
        } else {
            s
        },
        None => "-",
    }
}

/// A text, a dash where it is empty.
pub open spec fn or_dash(s: Seq<char>) -> Seq<char> {
    if s.len() == 0 {
        "-"@
    } else {
        s
    }
}

/// A text, a dash where it is empty.
pub fn empty_dash(s: &str) -> (r: &str)
    ensures
        r@ == or_dash(s@),
{
    if s.is_empty() {
        "-"
    } else {
        s
    }
}

/// The columns of a table of resources.
pub open spec fn columns(
    a: Seq<char>,
    b: Seq<char>,
    c: Seq<char>,
    d: Seq<char>,
    e: Seq<char>,
    f: Seq<char>,
    g: Seq<char>,
) -> Seq<char> {
    "  "@ + padded(a, 28) + " "@ + padded(b, 10) + " "@ + padded(c, 8) + " "@ + padded(d, 12) + " "@
        + padded(e, 14) + " "@ + padded(f, 8) + " "@ + g
}

fn row(a: &str, b: &str, c: &str, d: &str, e: &str, f: &str, g: &str) -> (r: String)
    ensures
        r@ == columns(a@, b@, c@, d@, e@, f@, g@),
{
    let mut r = cat3("  ", pad(a, 28).as_str(), " ");
    r.append(pad(b, 10).as_str());
    r.append(" ");
    r.append(pad(c, 8).as_str());
    r.append(" ");
    r.append(pad(d, 12).as_str());
    r.append(" ");
    r.append(pad(e, 14).as_str());
    r.append(" ");
    r.append(pad(f, 8).as_str());
    r.append(" ");
    r.append(g);
    r
}

/// The row of a resource.
pub open spec fn resource_row(r: ResourceSnapshot) -> Seq<char> {
    columns(
        r.name@,
        r.kind@,
        if r.paused {
            "paused"@
        } else {
            "active"@
        },
        or_dash(r.update_status@),
        or_dash(r.runtime_status@),
        condition_label(opt_text(r.proxy_status)),
        match opt_text(r.url) {
            Some(u) => u,
            None => "-"@,
        },
    )
}

/// What is printed of an instance.
pub open spec fn instance_lines(i: InstanceStateV) -> Seq<Seq<char>> {
    let head = "\nInstance "@ + i.id + "  name="@ + i.name + "  pid="@ + dec(i.pid as nat)
        + "  dir="@ + i.dir;
    if i.resources.len() == 0 {
        seq![head, "  No resources."@]
    } else {
        seq![
            head,
            columns("RESOURCE"@, "KIND"@, "STATE"@, "UPDATE"@, "RUNTIME"@, "PROXY"@, "URL"@),
        ] + i.resources.map_values(|r: ResourceSnapshot| resource_row(r))
    }
}

fn push_instance(out: &mut Vec<String>, inst: &InstanceState)
    ensures
        texts(final(out)@) == texts(old(out)@) + instance_lines(inst@),
{
    broadcast use texts_push;

    let ghost first = texts(out@);
    let mut head = cat3("\nInstance ", inst.id.as_str(), "  name=");
    head.append(inst.name.as_str());
    head.append("  pid=");
    head.append(decimal(inst.pid as u64).as_str());
    head.append("  dir=");
    head.append(inst.dir.as_str());
    out.push(head);
    if inst.resources.len() == 0 {
        out.push(owned("  No resources."));
        assert(texts(out@) =~= first + instance_lines(inst@));
        return;
    }
    out.push(row("RESOURCE", "KIND", "STATE", "UPDATE", "RUNTIME", "PROXY", "URL"));
    let ghost start = texts(out@);
    let ghost all = inst.resources@.map_values(|r: ResourceSnapshot| resource_row(r));
    let mut i: usize = 0;
    assert(start + all.take(0) =~= start);
    while i < inst.resources.len()
        invariant
            i <= inst.resources@.len(),
            all == inst.resources@.map_values(|r: ResourceSnapshot| resource_row(r)),
            texts(out@) == start + all.take(i as int),
        decreases inst.resources@.len() - i,
    {
        let r = &inst.resources[i];
        let state = if r.paused {
            "paused"
        } else {
            "active"
        };
        let proxy = match &r.proxy_status {
            Some(s) => proxy_condition_label(Some(s.as_str())),
            None => proxy_condition_label(None),
        };
        let url = match &r.url {
            Some(u) => u.as_str(),
            None => "-",
        };
        let line = row(
            r.name.as_str(),
            r.kind.as_str(),
            state,
            empty_dash(r.update_status.as_str()),
            empty_dash(r.runtime_status.as_str()),
            proxy,
            url,
        );
        assert(line@ == resource_row(*r));
        out.push(line);
        assert(start + all.take(i + 1) =~= (start + all.take(i as int)).push(all[i as int]));
        i += 1;
    }
    assert(all.take(i as int) =~= all);
    assert(texts(out@) =~= first + instance_lines(inst@));
}

/// What is printed of a route.
pub open spec fn route_lines(r: RouteV, c: Option<RouteCheck>) -> Seq<Seq<char>> {
    let open = match c {
        Some(c) => if c.open {
            "open"@
        } else {
            "closed"@
        },
        None => "not checked"@,
    };
    let proxy = match c {
        Some(c) => route_label(c.health.ok, c.health.status),
        None => "not checked"@,
    };
    let line = "  "@ + padded(r.hostname, 40) + " -> 127.0.0.1:"@ + padded(dec(r.port as nat), 5)
        + " backend="@ + padded(open, 11) + " proxy="@ + padded(proxy, 9) + " instance="@
        + r.instance;
    match c {
        Some(c) => if c.health.ok {
            seq![line]
        } else {
            seq![line, "    proxy: "@ + c.health.message@]
        },
        None => seq![line],
    }
}

fn push_route(out: &mut Vec<String>, r: &RouteInfo, checks: &Vec<RouteCheck>)
    ensures
        texts(final(out)@) == texts(old(out)@) + route_lines(
            r@,
            check_of(checks@, r.hostname@),
        ),
{
    broadcast use texts_push;

    let ghost first = texts(out@);
    let found = find_check(checks, r.hostname.as_str());
    let open = match found {
        Some(c) => if c.open {
            "open"
        } else {
            "closed"
        },
        None => "not checked",
    };
    let proxy = match found {
        Some(c) => proxy_route_label(&c.health),
        None => owned("not checked"),
    };
    let mut line = cat3("  ", pad(r.hostname.as_str(), 40).as_str(), " -> 127.0.0.1:");
    line.append(pad(decimal(r.port as u64).as_str(), 5).as_str());
    line.append(" backend=");
    line.append(pad(open, 11).as_str());
    line.append(" proxy=");
    line.append(pad(proxy.as_str(), 9).as_str());
    line.append(" instance=");
    line.append(r.instance.as_str());
    out.push(line);
    if let Some(c) = found {
        if !c.health.ok {
            out.push(cat("    proxy: ", c.health.message.as_str()));
        }
    }
    assert(texts(out@) =~= first + route_lines(r@, check_of(checks@, r.hostname@)));
}

/// What is printed of instances.
pub open spec fn instances_lines(v: Seq<InstanceStateV>) -> Seq<Seq<char>>
    decreases v.len(),
{
    if v.len() == 0 {
        Seq::empty()
    } else {
        instances_lines(v.drop_last()) + instance_lines(v.last())
    }
}

/// What is printed of routes.
pub open spec fn routes_lines(v: Seq<RouteV>, checks: Seq<RouteCheck>) -> Seq<Seq<char>>
    decreases v.len(),
{
    if v.len() == 0 {
        Seq::empty()
    } else {
        routes_lines(v.drop_last(), checks) + route_lines(
            v.last(),
            check_of(checks, v.last().hostname),
        )
    }
}

/// What is printed of the state of the daemon.
pub open spec fn status_printed(s: DashboardState, checks: Seq<RouteCheck>) -> Seq<Seq<char>> {
    let head = "Daemon: proxy :"@ + dec(s.proxy_port as nat) + "  tld "@ + s.tld@;
    let a = if s.instances@.len() == 0 {
        seq![head, "No running instances."@]
    } else {
        seq![head]
    };
    let b = a + instances_lines(states_view(s.instances@));
    let c = if s.routes@.len() == 0 {
        b.push("\nRoutes:"@).push("  No routes."@)
    } else {
        b.push("\nRoutes:"@)
    };
    c + routes_lines(infos_view(s.routes@), checks)
}

/// What is printed of the state of the daemon: its instances with their resources, and
/// the routes with what was found of them.
pub fn print_status(state: &DashboardState, checks: &Vec<RouteCheck>) -> (r: Vec<String>)
    ensures
        texts(r@) == status_printed(*state, checks@),
{
    broadcast use texts_push;

    let mut out: Vec<String> = Vec::new();
    let mut head = cat3("Daemon: proxy :", decimal(state.proxy_port as u64).as_str(), "  tld ");
    head.append(state.tld.as_str());
    let ghost h = head@;
    out.push(head);
    assert(texts(out@) =~= seq![h]);
    if state.instances.len() == 0 {
        out.push(owned("No running instances."));
        assert(texts(out@) =~= seq![h, "No running instances."@]);
    }
    let ghost a = texts(out@);
    let ghost all = states_view(state.instances@);
    let mut i: usize = 0;
    assert(a + instances_lines(all.take(0)) =~= a);
    while i < state.instances.len()
        invariant
            i <= state.instances@.len(),
            all == states_view(state.instances@),
            texts(out@) == a + instances_lines(all.take(i as int)),
        decreases state.instances@.len() - i,
    {
        proof {
            assert(all.take(i + 1).drop_last() =~= all.take(i as int));
            assert(all.take(i + 1).last() == state.instances@[i as int]@);
        }
        let ghost before = instances_lines(all.take(i as int));
        push_instance(&mut out, &state.instances[i]);
        assert(texts(out@) =~= a + (before + instance_lines(all[i as int])));
        i += 1;
    }
    assert(all.take(i as int) =~= all);
    out.push(owned("\nRoutes:"));
    if state.routes.len() == 0 {
        out.push(owned("  No routes."));
    }
    let ghost c = texts(out@);
    let ghost routes = infos_view(state.routes@);
    let mut k: usize = 0;
    assert(c + routes_lines(routes.take(0), checks@) =~= c);
    while k < state.routes.len()
        invariant
            k <= state.routes@.len(),
            routes == infos_view(state.routes@),
            texts(out@) == c + routes_lines(routes.take(k as int), checks@),
        decreases state.routes@.len() - k,
    {
        proof {
            assert(routes.take(k + 1).drop_last() =~= routes.take(k as int));
            assert(routes.take(k + 1).last() == state.routes@[k as int]@);
        }
        let ghost before = routes_lines(routes.take(k as int), checks@);
        push_route(&mut out, &state.routes[k], checks);
        assert(texts(out@) =~= c + (before + route_lines(
            routes[k as int],
            check_of(checks@, routes[k as int].hostname),
        )));
        k += 1;
    }
    assert(routes.take(k as int) =~= routes);
    out
}

/// A resource of an instance: the instance's id and name, and the resource's name.
pub type LogTarget = (String, String, String);

/// The contents of resources of instances.
pub open spec fn targets_view(v: Seq<(String, String, String)>) -> Seq<
    (Seq<char>, Seq<char>, Seq<char>),
> {
    v.map_values(|t: (String, String, String)| (t.0@, t.1@, t.2@))
}

/// Whether a filter lets a text pass.
pub open spec fn passes(filter: Option<Seq<char>>, s: Seq<char>) -> bool {
    filter is None || filter == Some(s)
}

/// The resources of an instance that a filter lets pass.
pub open spec fn resources_chosen(
    i: InstanceStateV,
    resources: Seq<ResourceSnapshot>,
    filter: Option<Seq<char>>,
) -> Seq<(Seq<char>, Seq<char>, Seq<char>)>
    decreases resources.len(),
{
    if resources.len() == 0 {
        Seq::empty()
    } else {
        let rest = resources_chosen(i, resources.drop_last(), filter);
        if passes(filter, resources.last().name@) {
            rest.push((i.id, i.name, resources.last().name@))
        } else {
            rest
        }
    }
}

/// The resources whose logs are asked for.
pub open spec fn logs_chosen(
    instances: Seq<InstanceStateV>,
    instance: Option<Seq<char>>,
    resource: Option<Seq<char>>,
) -> Seq<(Seq<char>, Seq<char>, Seq<char>)>
    decreases instances.len(),
{
    if instances.len() == 0 {
        Seq::empty()
    } else {
        let rest = logs_chosen(instances.drop_last(), instance, resource);
        let i = instances.last();
        if passes(instance, i.id) || passes(instance, i.name) {
            rest + resources_chosen(i, i.resources, resource)
        } else {
            rest
        }
    }
}

/// An option of a text, as a mathematical object.
pub open spec fn opt_str(o: Option<&str>) -> Option<Seq<char>> {
    match o {
        Some(s) => Some(s@),
        None => None,
    }
}

fn lets_pass(filter: Option<&str>, s: &str) -> (r: bool)
    ensures
        r == passes(opt_str(filter), s@),
{
    match filter {
        None => true,
        Some(f) => same(f, s),
    }
}

fn push_targets(
    out: &mut Vec<(String, String, String)>,
    inst: &InstanceState,
    resource: Option<&str>,
)
    ensures
        targets_view(final(out)@) == targets_view(old(out)@) + resources_chosen(
            inst@,
            inst.resources@,
            opt_str(resource),
        ),
{
    let ghost first = targets_view(out@);
    let ghost all = inst.resources@;
    let mut i: usize = 0;
    assert(first + resources_chosen(inst@, all.take(0), opt_str(resource)) =~= first);
    while i < inst.resources.len()
        invariant
            i <= inst.resources@.len(),
            all == inst.resources@,
            targets_view(out@) == first + resources_chosen(
                inst@,
                all.take(i as int),
                opt_str(resource),
            ),
        decreases inst.resources@.len() - i,
    {
        let name = inst.resources[i].name.as_str();
        let ghost before = resources_chosen(inst@, all.take(i as int), opt_str(resource));
        proof {
            assert(all.take(i + 1).drop_last() =~= all.take(i as int));
            assert(all.take(i + 1).last() == all[i as int]);
        }
        if lets_pass(resource, name) {
            let ghost was = targets_view(out@);
            out.push((inst.id.clone(), inst.name.clone(), owned(name)));
            assert(targets_view(out@) =~= was.push((inst.id@, inst.name@, name@)));
            assert(first + before.push((inst.id@, inst.name@, name@)) =~= (first + before).push(
                (inst.id@, inst.name@, name@),
            ));
        }
        i += 1;
    }
    assert(all.take(i as int) =~= all);
}

/// The resources whose logs are asked for, of an instance by id or name, or of all; an
/// error where there are none.
pub fn log_targets(state: &DashboardState, instance: Option<&str>, resource: Option<&str>) -> (r:
    Result<Vec<(String, String, String)>, String>)
    ensures
        ({
            let t = logs_chosen(
                states_view(state.instances@),
                opt_str(instance),
                opt_str(resource),
            );
            match r {
                Ok(v) => targets_view(v@) == t && t.len() > 0,
                Err(e) => t.len() == 0 && e@
                    == "no matching resources; run `starling status` to list resources"@,
            }
        }),
{
    let ghost all = states_view(state.instances@);
    let ghost fi = opt_str(instance);
    let ghost fr = opt_str(resource);
    let mut out: Vec<(String, String, String)> = Vec::new();
    let mut i: usize = 0;
    assert(targets_view(out@) =~= logs_chosen(all.take(0), fi, fr));
    while i < state.instances.len()
        invariant
            i <= state.instances@.len(),
            all == states_view(state.instances@),
            fi == opt_str(instance),
            fr == opt_str(resource),
            targets_view(out@) == logs_chosen(all.take(i as int), fi, fr),
        decreases state.instances@.len() - i,
    {
        let inst = &state.instances[i];
        proof {
            assert(all.take(i + 1).drop_last() =~= all.take(i as int));
            assert(all.take(i + 1).last() == inst@);
        }
        if lets_pass(instance, inst.id.as_str()) || lets_pass(instance, inst.name.as_str()) {
            push_targets(&mut out, inst, resource);
        }
        i += 1;
    }
    assert(all.take(i as int) =~= all);
    if out.len() == 0 {
        assert(targets_view(out@).len() == 0);
        Err(owned("no matching resources; run `starling status` to list resources"))
    } else {
        assert(targets_view(out@).len() == out@.len());
        Ok(out)
    }
}

/// The last lines.
pub open spec fn last_lines(v: Seq<Seq<char>>, tail: nat) -> Seq<Seq<char>> {
    if v.len() > tail {
        v.skip(v.len() - tail)
    } else {
        v
    }
}

/// The last lines.
pub fn tail_lines(lines: Vec<String>, tail: usize) -> (r: Vec<String>)
    ensures
        texts(r@) == last_lines(texts(lines@), tail as nat),
{
    broadcast use texts_push;

    if lines.len() <= tail {
        return lines;
    }
    let start: usize = lines.len() - tail;
    let ghost all = texts(lines@);
    let mut r: Vec<String> = Vec::new();
    let mut i: usize = start;
    assert(texts(r@) =~= all.subrange(start as int, start as int));
    while i < lines.len()
        invariant
            start <= i <= lines@.len(),
            all == texts(lines@),
            texts(r@) == all.subrange(start as int, i as int),
        decreases lines@.len() - i,
    {
        r.push(lines[i].clone());
        assert(all.subrange(start as int, i + 1) =~= all.subrange(start as int, i as int).push(
            all[i as int],
        ));
        i += 1;
    }
    assert(all.subrange(start as int, i as int) =~= all.skip(start as int));
    r
}

/// The logs of a resource.
#[derive(Debug)]
pub struct LogOutput {
    pub instance: String,
    pub instance_name: String,
    pub resource: String,
    pub lines: Vec<String>,
}

/// The logs of a resource as JSON.
pub open spec fn log_json(l: LogOutput) -> JsonV {
    let t = with_key(empty_table(), "instance"@, JsonV::Text(l.instance@));
    let t = with_key(t, "instance_name"@, JsonV::Text(l.instance_name@));
    let t = with_key(t, "resource"@, JsonV::Text(l.resource@));
    with_key(t, "lines"@, text_list(texts(l.lines@)))
}

/// What is printed of the logs of a resource, with a heading where there are others.
pub open spec fn log_lines(l: LogOutput, multiple: bool) -> Seq<Seq<char>> {
    if multiple {
        seq![
            "== "@ + l.instance_name@ + "/"@ + l.resource@ + " ("@ + l.instance@ + ") =="@,
        ] + texts(l.lines@) + seq![Seq::<char>::empty()]
    } else {
        texts(l.lines@)
    }
}

/// What is printed of the logs of resources.
pub open spec fn all_log_lines(v: Seq<LogOutput>, multiple: bool) -> Seq<Seq<char>>
    decreases v.len(),
{
    if v.len() == 0 {
        Seq::empty()
    } else {
        all_log_lines(v.drop_last(), multiple) + log_lines(v.last(), multiple)
    }
}

/// What is printed of the logs of resources, as JSON or as text.
pub open spec fn logs_printed(v: Seq<LogOutput>, json: bool) -> Seq<Seq<char>> {
    if json {
        seq![json_laid_out(JsonV::List(v.map_values(|l: LogOutput| log_json(l))))]
    } else {
        all_log_lines(v, v.len() > 1)
    }
}

fn json_of_logs(v: &Vec<LogOutput>) -> (r: Json)
    ensures
        r@ == JsonV::List(v@.map_values(|l: LogOutput| log_json(l))),
{
    let ghost all = v@.map_values(|l: LogOutput| log_json(l));
    let mut out: Vec<Json> = Vec::new();
    let mut i: usize = 0;
    assert(list_view(out@) =~= all.take(0));
    while i < v.len()
        invariant
            i <= v@.len(),
            all == v@.map_values(|l: LogOutput| log_json(l)),
            list_view(out@) == all.take(i as int),
        decreases v@.len() - i,
    {
        let l = &v[i];
        let j = Json::table().with("instance", Json::text(l.instance.as_str())).with(
            "instance_name",
            Json::text(l.instance_name.as_str()),
        ).with("resource", Json::text(l.resource.as_str())).with(
            "lines",
            Json::text_list(&l.lines),
        );
        proof {
            list_view_push(out@, j);
            assert(all.take(i + 1) =~= all.take(i as int).push(j@));
        }
        out.push(j);
        i += 1;
    }
    assert(all.take(i as int) =~= all);
    Json::List(out)
}

fn push_log(out: &mut Vec<String>, l: &LogOutput, multiple: bool)
    ensures
        texts(final(out)@) == texts(old(out)@) + log_lines(*l, multiple),
{
    broadcast use texts_push;

    let ghost first = texts(out@);
    if multiple {
        let mut head = cat3("== ", l.instance_name.as_str(), "/");
        head.append(l.resource.as_str());
        head.append(" (");
        head.append(l.instance.as_str());
        head.append(") ==");
        out.push(head);
    }
    let ghost start = texts(out@);
    let ghost all = texts(l.lines@);
    let mut i: usize = 0;
    assert(start + all.take(0) =~= start);
    while i < l.lines.len()
        invariant
            i <= l.lines@.len(),
            all == texts(l.lines@),
            texts(out@) == start + all.take(i as int),
        decreases l.lines@.len() - i,
    {
        out.push(l.lines[i].clone());
        assert(start + all.take(i + 1) =~= (start + all.take(i as int)).push(all[i as int]));
        i += 1;
    }
    assert(all.take(i as int) =~= all);
    if multiple {
        let e = String::new();
        assert(e@ =~= Seq::empty());
        out.push(e);
    }
    assert(texts(out@) =~= first + log_lines(*l, multiple));
}

/// What is printed of the logs of resources, as JSON or as text.
pub fn print_logs(outputs: &Vec<LogOutput>, json: bool) -> (r: Vec<String>)
    ensures
        texts(r@) == logs_printed(outputs@, json),
{
    broadcast use texts_push;

    let mut out: Vec<String> = Vec::new();
    if json {
        out.push(json_pretty(&json_of_logs(outputs)));
        assert(texts(out@) =~= logs_printed(outputs@, json));
        return out;
    }
    let multiple = outputs.len() > 1;
    let mut i: usize = 0;
    assert(texts(out@) =~= all_log_lines(outputs@.take(0), multiple));
    while i < outputs.len()
        invariant
            i <= outputs@.len(),
            multiple == (outputs@.len() > 1),
            texts(out@) == all_log_lines(outputs@.take(i as int), multiple),
        decreases outputs@.len() - i,
    {
        proof {
            assert(outputs@.take(i + 1).drop_last() =~= outputs@.take(i as int));
            assert(outputs@.take(i + 1).last() == outputs@[i as int]);
        }
        push_log(&mut out, &outputs[i], multiple);
        i += 1;
    }
    assert(outputs@.take(i as int) =~= outputs@);
    out
}

/// Whether a resource is in error.
pub open spec fn in_error(r: ResourceSnapshot) -> bool {
    r.update_status@ == "error"@ || r.runtime_status@ == "error"@
}

/// The lines that tell of the resources of an instance that are in error.
pub open spec fn problem_lines(instance: Seq<char>, v: Seq<ResourceSnapshot>) -> Seq<Seq<char>>
    decreases v.len(),
{
    if v.len() == 0 {
        Seq::empty()
    } else {
        let rest = problem_lines(instance, v.drop_last());
        let r = v.last();
        if in_error(r) {
            rest.push(
                "  [error] "@ + instance + " / "@ + r.name@ + " (update="@ + r.update_status@
                    + ", runtime="@ + r.runtime_status@ + ")"@,
            )
        } else {
            rest
        }
    }
}

/// The lines that tell of the resources that are in error.
pub open spec fn all_problems(v: Seq<InstanceStateV>) -> Seq<Seq<char>>
    decreases v.len(),
{
    if v.len() == 0 {
        Seq::empty()
    } else {
        all_problems(v.drop_last()) + problem_lines(v.last().name, v.last().resources)
    }
}

/// What a diagnosis says of the daemon.
pub open spec fn diagnosis(s: DashboardState) -> Seq<Seq<char>> {
    let problems = all_problems(states_view(s.instances@));
    (seq![
        "daemon:   running (proxy :"@ + dec(s.proxy_port as nat) + "  tld "@ + s.tld@ + ")"@,
        "instances: "@ + dec(s.instances@.len()) + "  routes: "@ + dec(s.routes@.len()),
    ] + problems).push(
        if problems.len() == 0 {
            "health:   all resources healthy"@
        } else {
            "health:   "@ + dec(problems.len()) + " resource(s) in error"@
        },
    )
}

fn push_problems(out: &mut Vec<String>, inst: &InstanceState)
    ensures
        texts(final(out)@) == texts(old(out)@) + problem_lines(inst.name@, inst.resources@),
{
    broadcast use texts_push;

    let ghost first = texts(out@);
    let ghost all = inst.resources@;
    let mut i: usize = 0;
    assert(first + problem_lines(inst.name@, all.take(0)) =~= first);
    while i < inst.resources.len()
        invariant
            i <= inst.resources@.len(),
            all == inst.resources@,
            texts(out@) == first + problem_lines(inst.name@, all.take(i as int)),
        decreases inst.resources@.len() - i,
    {
        let r = &inst.resources[i];
        let ghost before = problem_lines(inst.name@, all.take(i as int));
        proof {
            assert(all.take(i + 1).drop_last() =~= all.take(i as int));
            assert(all.take(i + 1).last() == *r);
        }
        if same(r.update_status.as_str(), "error") || same(r.runtime_status.as_str(), "error") {
            let mut l = cat3("  [error] ", inst.name.as_str(), " / ");
            l.append(r.name.as_str());
            l.append(" (update=");
            l.append(r.update_status.as_str());
            l.append(", runtime=");
            l.append(r.runtime_status.as_str());
            l.append(")");
            let ghost text = l@;
            out.push(l);
            assert(first + before.push(text) =~= (first + before).push(text));
        }
        i += 1;
    }
    assert(all.take(i as int) =~= all);
}

/// What a diagnosis says of the daemon that runs: its proxy, how much it holds, and
/// which resources are in error.
pub fn diagnose(state: &DashboardState) -> (r: Vec<String>)
    ensures
        texts(r@) == diagnosis(*state),
{
    broadcast use texts_push;

    let mut problems: Vec<String> = Vec::new();
    let ghost all = states_view(state.instances@);
    let mut i: usize = 0;
    assert(texts(problems@) =~= all_problems(all.take(0)));
    while i < state.instances.len()
        invariant
            i <= state.instances@.len(),
            all == states_view(state.instances@),
            texts(problems@) == all_problems(all.take(i as int)),
        decreases state.instances@.len() - i,
    {
        proof {
            assert(all.take(i + 1).drop_last() =~= all.take(i as int));
            assert(all.take(i + 1).last() == state.instances@[i as int]@);
        }
        push_problems(&mut problems, &state.instances[i]);
        i += 1;
    }
    assert(all.take(i as int) =~= all);
    let mut first = cat3(
        "daemon:   running (proxy :",
        decimal(state.proxy_port as u64).as_str(),
        "  tld ",
    );
    first.append(state.tld.as_str());
    first.append(")");
    let mut second = cat3(
        "instances: ",
        decimal(state.instances.len() as u64).as_str(),
        "  routes: ",
    );
    second.append(decimal(state.routes.len() as u64).as_str());
    let mut out: Vec<String> = Vec::new();
    let ghost head = seq![first@, second@];
    out.push(first);
    out.push(second);
    let count: usize = problems.len();
    let ghost lines = texts(problems@);
    assert(lines.len() == count);
    out.append(&mut problems);
    assert(texts(out@) =~= head + lines);
    if count == 0 {
        out.push(owned("health:   all resources healthy"));
    } else {
        out.push(
            cat3("health:   ", decimal(count as u64).as_str(), " resource(s) in error"),
        );
    }
    out
}

/// The first lines of a diagnosis: the version, the machine, and which programs were
/// found on it.
pub fn diagnose_machine(version: &str, os: &str, arch: &str, kubectl: bool, docker: bool) -> (r: Vec<
    String,
>)
    ensures
        texts(r@) == seq![
            "starling "@ + version@,
            "os/arch:  "@ + os@ + "/"@ + arch@,
            "kubectl:  "@ + (if kubectl {
                "found"@
            } else {
                "not found"@
            }),
            "docker:   "@ + (if docker {
                "found"@
            } else {
                "not found"@
            }),
        ],
{
    let mut r: Vec<String> = Vec::new();
    r.push(cat("starling ", version));
    r.push(cat(cat3("os/arch:  ", os, "/").as_str(), arch));
    r.push(
        cat(
            "kubectl:  ",
            if kubectl {
                "found"
            } else {
                "not found"
            },
        ),
    );
    r.push(
        cat(
            "docker:   ",
            if docker {
                "found"
            } else {
                "not found"
            },
        ),
    );
    assert(texts(r@) =~= seq![
        "starling "@ + version@,
        "os/arch:  "@ + os@ + "/"@ + arch@,
        "kubectl:  "@ + (if kubectl {
            "found"@
        } else {
            "not found"@
        }),
        "docker:   "@ + (if docker {
            "found"@
        } else {
            "not found"@
        }),
    ]);
    r
}

} // verus!
