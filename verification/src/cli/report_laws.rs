//! What reports show, whatever they are on.

use vstd::prelude::*;
use vstd::string::*;

use crate::cli::report::{
    all_log_lines, all_problems, check_of, checked_route_json, condition_label, diagnosis,
    instance_json, last_lines, log_json, logs_chosen, logs_printed, or_dash, problem_lines,
    resource_json, resources_chosen, route_label, route_lines, LogOutput, RouteCheck,
};
use crate::daemon::protocol::{
    states_view, DashboardState, InstanceStateV, ResourceSnapshot, RouteV,
};
use crate::json::{at, empty_table, text_list, JsonV};
use crate::json_laws::{empty_has_none, key_set, stays_table};
use crate::text::{dec, texts};

verus! {

/// Whether a filter that is given lets a text pass.
pub open spec fn let_through(filter: Option<Seq<char>>, text: Seq<char>) -> bool {
    filter matches Some(f) ==> f == text
}

proof fn resources_told(
    i: InstanceStateV,
    resources: Seq<ResourceSnapshot>,
    filter: Option<Seq<char>>,
    x: (Seq<char>, Seq<char>, Seq<char>),
)
    ensures
        resources_chosen(i, resources, filter).contains(x) <==> x.0 == i.id && x.1 == i.name
            && let_through(filter, x.2) && exists|k: int|
            0 <= k < resources.len() && (#[trigger] resources[k]).name@ == x.2,
    decreases resources.len(),
{
    if resources.len() > 0 {
        let d = resources.drop_last();
        let last = resources.last();
        let rest = resources_chosen(i, d, filter);
        let all = resources_chosen(i, resources, filter);
        resources_told(i, d, filter, x);
        assert(last == resources[resources.len() - 1]);
        if all.contains(x) {
            if rest.contains(x) {
                let k = choose|k: int| 0 <= k < d.len() && (#[trigger] d[k]).name@ == x.2;
                assert(resources[k] == d[k]);
            } else {
                let j = choose|j: int| 0 <= j < all.len() && all[j] == x;
                if j < rest.len() {
                    assert(rest[j] == x);
                }
            }
        }
        if x.0 == i.id && x.1 == i.name && let_through(filter, x.2) && exists|k: int|
            0 <= k < resources.len() && (#[trigger] resources[k]).name@ == x.2 {
            let k = choose|k: int|
                0 <= k < resources.len() && (#[trigger] resources[k]).name@ == x.2;
            if k < d.len() {
                assert(d[k] == resources[k]);
                let j = choose|j: int| 0 <= j < rest.len() && rest[j] == x;
                assert(all[j] == x);
            } else {
                assert(all[rest.len() as int] == x);
            }
        }
    }
}

/// The logs that are shown are those of every resource that the filters let pass, of every
/// instance that they let pass by its id or by its name.
pub proof fn logs_chosen_told(
    instances: Seq<InstanceStateV>,
    instance: Option<Seq<char>>,
    resource: Option<Seq<char>>,
    x: (Seq<char>, Seq<char>, Seq<char>),
)
    ensures
        logs_chosen(instances, instance, resource).contains(x) <==> exists|i: int|
            0 <= i < instances.len() && #[trigger] shown_of(instances[i], instance, resource, x),
    decreases instances.len(),
{
    if instances.len() > 0 {
        let d = instances.drop_last();
        let last = instances.last();
        let rest = logs_chosen(d, instance, resource);
        let more = resources_chosen(last, last.resources, resource);
        let all = logs_chosen(instances, instance, resource);
        logs_chosen_told(d, instance, resource, x);
        resources_told(last, last.resources, resource, x);
        assert(last == instances[instances.len() - 1]);
        if all.contains(x) {
            let j = choose|j: int| 0 <= j < all.len() && all[j] == x;
            if j < rest.len() {
                assert(rest[j] == x);
                let i = choose|i: int|
                    0 <= i < d.len() && #[trigger] shown_of(d[i], instance, resource, x);
                assert(shown_of(instances[i], instance, resource, x));
            } else {
                assert(more[j - rest.len()] == x);
                assert(shown_of(instances[instances.len() - 1], instance, resource, x));
            }
        }
        if exists|i: int|
            0 <= i < instances.len() && #[trigger] shown_of(instances[i], instance, resource, x) {
            let i = choose|i: int|
                0 <= i < instances.len() && #[trigger] shown_of(
                    instances[i],
                    instance,
                    resource,
                    x,
                );
            if i < d.len() {
                assert(shown_of(d[i], instance, resource, x));
                let j = choose|j: int| 0 <= j < rest.len() && rest[j] == x;
                assert(all[j] == x);
            } else {
                let j = choose|j: int| 0 <= j < more.len() && more[j] == x;
                assert(all[rest.len() + j] == x);
            }
        }
    }
}

/// Whether the logs of a resource of an instance are among those asked for.
pub open spec fn shown_of(
    i: InstanceStateV,
    instance: Option<Seq<char>>,
    resource: Option<Seq<char>>,
    x: (Seq<char>, Seq<char>, Seq<char>),
) -> bool {
    &&& let_through(instance, i.id) || let_through(instance, i.name)
    &&& x.0 == i.id && x.1 == i.name && let_through(resource, x.2)
    &&& exists|k: int| 0 <= k < i.resources.len() && (#[trigger] i.resources[k]).name@ == x.2
}

/// The last lines are so many as asked for, or all where there are fewer, up to the end.
pub proof fn tail_told(v: Seq<Seq<char>>, tail: nat, k: int)
    ensures
        last_lines(v, tail).len() <= tail,
        v.len() >= tail ==> last_lines(v, tail).len() == tail,
        v.len() <= tail ==> last_lines(v, tail) == v,
        0 <= k < last_lines(v, tail).len() ==> last_lines(v, tail)[last_lines(v, tail).len() - 1
            - k] == v[v.len() - 1 - k],
{
    if v.len() == tail {
        assert(last_lines(v, tail) =~= v);
    }
}

/// A single log is shown as it is; of several each is shown under its name.
pub proof fn logs_shown(a: Seq<LogOutput>, l: LogOutput)
    ensures
        logs_printed(seq![l], false) == texts(l.lines@),
        a.len() > 0 ==> logs_printed(a.push(l), false) == all_log_lines(a, true) + seq![
            "== "@ + l.instance_name@ + "/"@ + l.resource@ + " ("@ + l.instance@ + ") =="@,
        ] + texts(l.lines@) + seq![Seq::<char>::empty()],
        logs_printed(a, true).len() == 1,
{
    reveal_with_fuel(all_log_lines, 2);
    assert(seq![l].drop_last() =~= Seq::empty());
    assert(logs_printed(seq![l], false) =~= texts(l.lines@));
    let all = a.push(l);
    assert(all.drop_last() =~= a);
    assert(all.last() == l);
    if a.len() > 0 {
        assert(logs_printed(all, false) =~= all_log_lines(a, true) + seq![
            "== "@ + l.instance_name@ + "/"@ + l.resource@ + " ("@ + l.instance@ + ") =="@,
        ] + texts(l.lines@) + seq![Seq::<char>::empty()]);
    }
}

/// Whether the build or the runtime of a resource is in error.
pub open spec fn broken(r: ResourceSnapshot) -> bool {
    r.update_status@ == "error"@ || r.runtime_status@ == "error"@
}

/// Every resource in error is a problem of its own, and no other is.
pub proof fn problems_told(instance: Seq<char>, v: Seq<ResourceSnapshot>, r: ResourceSnapshot)
    ensures
        broken(r) ==> problem_lines(instance, v.push(r)) == problem_lines(instance, v).push(
            "  [error] "@ + instance + " / "@ + r.name@ + " (update="@ + r.update_status@
                + ", runtime="@ + r.runtime_status@ + ")"@,
        ),
        !broken(r) ==> problem_lines(instance, v.push(r)) == problem_lines(instance, v),
        problem_lines(instance, Seq::empty()).len() == 0,
{
    assert(v.push(r).drop_last() =~= v);
}

proof fn no_problem(instance: Seq<char>, v: Seq<ResourceSnapshot>)
    ensures
        problem_lines(instance, v).len() == 0 <==> forall|i: int|
            0 <= i < v.len() ==> !broken(#[trigger] v[i]),
    decreases v.len(),
{
    if v.len() > 0 {
        let d = v.drop_last();
        no_problem(instance, d);
        assert(v.last() == v[v.len() - 1]);
        assert forall|i: int| 0 <= i < d.len() implies d[i] == v[i] by {}
        if forall|i: int| 0 <= i < v.len() ==> !broken(#[trigger] v[i]) {
            assert forall|i: int| 0 <= i < d.len() implies !broken(#[trigger] d[i]) by {
                assert(d[i] == v[i]);
            }
        }
        if problem_lines(instance, v).len() == 0 {
            assert forall|i: int| 0 <= i < v.len() implies !broken(#[trigger] v[i]) by {
                if i < d.len() {
                    assert(d[i] == v[i]);
                }
            }
        }
    }
}

/// The report on health ends well just where no resource of any instance is in error.
pub proof fn health_told(s: DashboardState)
    ensures
        diagnosis(s).last() == "health:   all resources healthy"@ <==> forall|i: int, k: int|
            0 <= i < s.instances@.len() && 0 <= k < s.instances@[i].resources@.len() ==> !broken(
                #[trigger] s.instances@[i].resources@[k],
            ),
{
    let v = states_view(s.instances@);
    none_at_all(v);
    let problems = all_problems(v);
    reveal_strlit("health:   all resources healthy");
    reveal_strlit("health:   ");
    let n = problems.len();
    let text = "health:   "@ + dec(n) + " resource(s) in error"@;
    crate::text::dec_is_digits(n);
    assert(crate::text::is_digit(dec(n)[0]));
    assert("health:   all resources healthy"@[10] == 'a');
    assert(text[10] == dec(n)[0]);
    assert forall|i: int| 0 <= i < s.instances@.len() implies (#[trigger] v[i]).resources
        == s.instances@[i].resources@ by {}
    if n == 0 {
        assert forall|i: int, k: int|
            0 <= i < s.instances@.len() && 0 <= k < s.instances@[i].resources@.len() implies
            !broken(#[trigger] s.instances@[i].resources@[k]) by {
            assert(!broken(v[i].resources[k]));
        }
    }
    if forall|i: int, k: int|
        0 <= i < s.instances@.len() && 0 <= k < s.instances@[i].resources@.len() ==> !broken(
            #[trigger] s.instances@[i].resources@[k],
        ) {
        assert forall|i: int, k: int| 0 <= i < v.len() && 0 <= k < v[i].resources.len() implies
            !broken(#[trigger] v[i].resources[k]) by {
            assert(!broken(s.instances@[i].resources@[k]));
        }
    }
}

proof fn none_at_all(v: Seq<InstanceStateV>)
    ensures
        all_problems(v).len() == 0 <==> forall|i: int, k: int|
            0 <= i < v.len() && 0 <= k < v[i].resources.len() ==> !broken(
                #[trigger] v[i].resources[k],
            ),
    decreases v.len(),
{
    if v.len() > 0 {
        let d = v.drop_last();
        none_at_all(d);
        no_problem(v.last().name, v.last().resources);
        assert(v.last() == v[v.len() - 1]);
        if all_problems(v).len() == 0 {
            assert forall|i: int, k: int| 0 <= i < v.len() && 0 <= k < v[i].resources.len()
                implies !broken(#[trigger] v[i].resources[k]) by {
                if i < d.len() {
                    assert(!broken(d[i].resources[k]));
                }
            }
        }
        if forall|i: int, k: int|
            0 <= i < v.len() && 0 <= k < v[i].resources.len() ==> !broken(
                #[trigger] v[i].resources[k],
            ) {
            assert forall|i: int, k: int| 0 <= i < d.len() && 0 <= k < d[i].resources.len()
                implies !broken(#[trigger] d[i].resources[k]) by {
                assert(!broken(v[i].resources[k]));
            }
            assert forall|k: int| 0 <= k < v.last().resources.len() implies !broken(
                #[trigger] v.last().resources[k],
            ) by {
                assert(!broken(v[v.len() - 1].resources[k]));
            }
        }
    }
}

/// How the state of a route and of a condition is shown.
pub proof fn labels_shown(code: u16, other: Seq<char>)
    ensures
        route_label(true, Some(code)) == "ok("@ + dec(code as nat) + ")"@,
        route_label(false, Some(code)) == "bad("@ + dec(code as nat) + ")"@,
        route_label(false, None) == "failed"@,
        route_label(true, None) == "ok"@,
        condition_label(Some("True"@)) == "ok"@,
        condition_label(Some("False"@)) == "failed"@,
        condition_label(None) == "-"@,
        other != "True"@ && other != "False"@ ==> condition_label(Some(other)) == other,
        or_dash(Seq::empty()) == "-"@,
        other.len() > 0 ==> or_dash(other) == other,
{
    reveal_strlit("True");
    reveal_strlit("False");
    assert("True"@.len() == 4 && "False"@.len() == 5);
}

/// The check of a route is the first one of its hostname.
pub proof fn check_found(checks: Seq<RouteCheck>, host: Seq<char>, i: int)
    requires
        0 <= i <= checks.len(),
        forall|j: int| 0 <= j < i ==> (#[trigger] checks[j]).hostname@ != host,
    ensures
        i == checks.len() ==> check_of(checks, host) is None,
        i < checks.len() && checks[i].hostname@ == host ==> check_of(checks, host) == Some(
            checks[i],
        ),
    decreases checks.len(),
{
    if checks.len() > 0 && i > 0 {
        assert(checks[0].hostname@ != host);
        let d = checks.drop_first();
        assert forall|j: int| 0 <= j < i - 1 implies (#[trigger] d[j]).hostname@ != host by {
            assert(d[j] == checks[j + 1]);
        }
        check_found(d, host, i - 1);
        if i < checks.len() {
            assert(d[i - 1] == checks[i]);
        }
    }
}

/// A route that is not in order is shown with what is wrong; one that is in order, or was
/// not checked, on a single line.
pub proof fn route_shown(r: RouteV, c: RouteCheck)
    ensures
        route_lines(r, None).len() == 1,
        c.health.ok ==> route_lines(r, Some(c)).len() == 1,
        !c.health.ok ==> route_lines(r, Some(c)).len() == 2 && route_lines(r, Some(c))[1]
            == "    proxy: "@ + c.health.message@,
{
}

/// A resource is written under these keys, with nothing left out.
#[verifier::rlimit(40)]
pub proof fn resource_written(r: ResourceSnapshot)
    ensures
        at(resource_json(r), "name"@) == JsonV::Text(r.name@),
        at(resource_json(r), "kind"@) == JsonV::Text(r.kind@),
        at(resource_json(r), "paused"@) == JsonV::Bool(r.paused),
        at(resource_json(r), "update_status"@) == JsonV::Text(r.update_status@),
        at(resource_json(r), "runtime_status"@) == JsonV::Text(r.runtime_status@),
        r.pod matches Some(p) ==> at(resource_json(r), "pod"@) == JsonV::Text(p@),
        r.url matches Some(u) ==> at(resource_json(r), "url"@) == JsonV::Text(u@),
        r.proxy_status matches Some(u) ==> at(resource_json(r), "proxy_status"@) == JsonV::Text(u@),
        r.proxy_message matches Some(u) ==> at(resource_json(r), "proxy_message"@) == JsonV::Text(
            u@,
        ),
        at(resource_json(r), "build_count"@) == JsonV::Int(r.build_count as int),
        r.last_deploy matches Some(u) ==> at(resource_json(r), "last_deploy"@) == JsonV::Text(u@),
        r.restart_count matches Some(n) ==> at(resource_json(r), "restart_count"@) == JsonV::Int(
            n as int,
        ),
        r.last_start matches Some(u) ==> at(resource_json(r), "last_start"@) == JsonV::Text(u@),
        r.url is None ==> at(resource_json(r), "url"@) == JsonV::Null,
        r.pod is None ==> at(resource_json(r), "pod"@) == JsonV::Null,
{
    broadcast use {key_set, stays_table, empty_has_none};

    assert(empty_table() is Table);
    reveal_strlit("name");
    reveal_strlit("kind");
    reveal_strlit("paused");
    reveal_strlit("update_status");
    reveal_strlit("runtime_status");
    reveal_strlit("pod");
    reveal_strlit("url");
    reveal_strlit("proxy_status");
    reveal_strlit("proxy_message");
    reveal_strlit("build_count");
    reveal_strlit("last_deploy");
    reveal_strlit("restart_count");
    reveal_strlit("last_start");
    assert("name"@[0] == 'n' && "kind"@[0] == 'k' && "pod"@[0] == 'p' && "url"@[0] == 'u'
        && "update_status"@[0] == 'u' && "proxy_message"@[0] == 'p' && "restart_count"@[0] == 'r'
        && "build_count"@[0] == 'b' && "last_deploy"@[0] == 'l');
    assert("name"@.len() == 4 && "kind"@.len() == 4 && "paused"@.len() == 6
        && "update_status"@.len() == 13 && "runtime_status"@.len() == 14 && "pod"@.len() == 3
        && "url"@.len() == 3 && "proxy_status"@.len() == 12 && "proxy_message"@.len() == 13
        && "build_count"@.len() == 11 && "last_deploy"@.len() == 11 && "restart_count"@.len() == 13
        && "last_start"@.len() == 10);
}

/// A route and its check are written under these keys.
pub proof fn route_written(r: RouteV, c: RouteCheck)
    ensures
        at(checked_route_json(r, Some(c)), "hostname"@) == JsonV::Text(r.hostname),
        at(checked_route_json(r, Some(c)), "port"@) == JsonV::Int(r.port as int),
        at(checked_route_json(r, Some(c)), "instance"@) == JsonV::Text(r.instance),
        at(checked_route_json(r, Some(c)), "reachable"@) == JsonV::Bool(c.open),
        at(checked_route_json(r, Some(c)), "proxy_reachable"@) == JsonV::Bool(c.health.ok),
        at(checked_route_json(r, Some(c)), "proxy_message"@) == JsonV::Text(c.health.message@),
        at(checked_route_json(r, None), "reachable"@) == JsonV::Null,
        at(checked_route_json(r, None), "port"@) == JsonV::Int(r.port as int),
{
    broadcast use {key_set, stays_table, empty_has_none};

    assert(empty_table() is Table);
    reveal_strlit("hostname");
    reveal_strlit("port");
    reveal_strlit("instance");
    reveal_strlit("reachable");
    reveal_strlit("proxy_reachable");
    reveal_strlit("proxy_status");
    reveal_strlit("proxy_message");
    assert("hostname"@[0] == 'h' && "instance"@[0] == 'i');
    assert("hostname"@.len() == 8 && "port"@.len() == 4 && "instance"@.len() == 8
        && "reachable"@.len() == 9 && "proxy_reachable"@.len() == 15 && "proxy_status"@.len() == 12
        && "proxy_message"@.len() == 13);
}

/// An instance is shown under its id, name, process and directory, with a line for each of
/// its resources, or that it has none.
pub proof fn instance_shown(i: InstanceStateV, k: int)
    ensures
        crate::cli::report::instance_lines(i)[0] == "\nInstance "@ + i.id + "  name="@ + i.name
            + "  pid="@ + dec(i.pid as nat) + "  dir="@ + i.dir,
        i.resources.len() == 0 ==> crate::cli::report::instance_lines(i).len() == 2
            && crate::cli::report::instance_lines(i)[1] == "  No resources."@,
        i.resources.len() > 0 ==> crate::cli::report::instance_lines(i).len() == 2
            + i.resources.len(),
        0 <= k < i.resources.len() ==> crate::cli::report::instance_lines(i)[2 + k]
            == crate::cli::report::resource_row(i.resources[k]),
{
}

/// A resource is shown by its name and kind, whether it is paused, both statuses, and
/// where it is reached, each in its column.
pub proof fn row_shown(r: ResourceSnapshot, update: Seq<char>, runtime: Seq<char>, url: Seq<char>)
    requires
        r.update_status@ == update,
        r.runtime_status@ == runtime,
        update.len() > 0,
        runtime.len() > 0,
        r.url is Some,
        r.url->0@ == url,
        r.proxy_status is None,
    ensures
        crate::cli::report::resource_row(r) == "  "@ + crate::text::padded(r.name@, 28) + " "@
            + crate::text::padded(r.kind@, 10) + " "@ + crate::text::padded(
            if r.paused {
                "paused"@
            } else {
                "active"@
            },
            8,
        ) + " "@ + crate::text::padded(update, 12) + " "@ + crate::text::padded(runtime, 14) + " "@
            + crate::text::padded("-"@, 8) + " "@ + url,
{
}

/// The report on all instances and routes shows each of them, in order.
pub proof fn status_shown(
    a: Seq<InstanceStateV>,
    i: InstanceStateV,
    b: Seq<RouteV>,
    r: RouteV,
    checks: Seq<RouteCheck>,
)
    ensures
        crate::cli::report::instances_lines(a.push(i)) == crate::cli::report::instances_lines(a)
            + crate::cli::report::instance_lines(i),
        crate::cli::report::routes_lines(b.push(r), checks) == crate::cli::report::routes_lines(
            b,
            checks,
        ) + route_lines(r, check_of(checks, r.hostname)),
        crate::cli::report::instances_lines(Seq::empty()).len() == 0,
        crate::cli::report::routes_lines(Seq::empty(), checks).len() == 0,
{
    assert(a.push(i).drop_last() =~= a);
    assert(b.push(r).drop_last() =~= b);
}

/// An instance is written under these keys, with all its resources and objects.
pub proof fn instance_written(i: InstanceStateV)
    ensures
        at(instance_json(i), "id"@) == JsonV::Text(i.id),
        at(instance_json(i), "name"@) == JsonV::Text(i.name),
        at(instance_json(i), "dir"@) == JsonV::Text(i.dir),
        at(instance_json(i), "pid"@) == JsonV::Int(i.pid as int),
        at(instance_json(i), "resources"@) == JsonV::List(
            i.resources.map_values(|r: ResourceSnapshot| resource_json(r)),
        ),
        i.api_addr matches Some(a) ==> at(instance_json(i), "api_addr"@) == JsonV::Text(a@),
        i.api_addr is None ==> at(instance_json(i), "api_addr"@) == JsonV::Null,
{
    broadcast use {key_set, stays_table, empty_has_none};

    assert(empty_table() is Table);
    reveal_strlit("id");
    reveal_strlit("name");
    reveal_strlit("dir");
    reveal_strlit("pid");
    reveal_strlit("resources");
    reveal_strlit("objects");
    reveal_strlit("api_addr");
    assert("id"@.len() == 2 && "name"@.len() == 4 && "dir"@.len() == 3 && "pid"@.len() == 3
        && "resources"@.len() == 9 && "objects"@.len() == 7 && "api_addr"@.len() == 8);
    assert("dir"@[0] == 'd' && "pid"@[0] == 'p');
}

/// A log is written under these keys.
pub proof fn log_written(l: LogOutput)
    ensures
        at(log_json(l), "instance"@) == JsonV::Text(l.instance@),
        at(log_json(l), "instance_name"@) == JsonV::Text(l.instance_name@),
        at(log_json(l), "resource"@) == JsonV::Text(l.resource@),
        at(log_json(l), "lines"@) == text_list(texts(l.lines@)),
{
    broadcast use {key_set, stays_table, empty_has_none};

    assert(empty_table() is Table);
    reveal_strlit("instance");
    reveal_strlit("instance_name");
    reveal_strlit("resource");
    reveal_strlit("lines");
    assert("instance"@.len() == 8 && "instance_name"@.len() == 13 && "resource"@.len() == 8
        && "lines"@.len() == 5);
    assert("instance"@[0] == 'i' && "resource"@[0] == 'r');
}

} // verus!
