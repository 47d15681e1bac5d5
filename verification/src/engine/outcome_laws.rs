//! How commands, builds and probes end, and what services are told then.

use vstd::prelude::*;
use vstd::string::*;

use crate::engine::builds::{
    build_span, command_error, ended, image_phase, joined_docs, printed_logs, K8sPhase,
};
use crate::engine::log::{log_v, Level};
use crate::engine::named_ports::{
    declared, declared_endpoint, holds_name, only_declared, refreshed, serves, services_left, want_of,
    with_ports,
};
use crate::engine::runs::{step_failure, steps_end, steps_error, FailureV, StepKind, StepRunV};
use crate::engine::serve::{probe_log, probe_reason, readiness};
use crate::engine::service_laws::{removed_then_gone, set_then_found};
use crate::engine::services::{
    distinct_services, endpoint_of, service_found, service_index, service_removed, EndpointV,
};
use crate::manifest::Manifest;
use crate::proxy::PortReservation;
use crate::proxy_handle::ProxyHandle;
use crate::text::{dec, dec_injective, join, texts};
use crate::trees::{yaml_get, yaml_str, YamlV};

verus! {

/// A command is in error just where it could not be run, by what it says, or ended with
/// failure.
pub proof fn commands_end(failed: Seq<char>, e: String)
    ensures
        command_error(Ok(true), failed) is None,
        command_error(Ok(false), failed) == Some(failed),
        command_error(Err(e), failed) == Some(e@),
        step_failure(Ok(true)) is None,
        step_failure(Ok(false)) == Some(FailureV::Exited),
        step_failure(Err(e)) == Some(FailureV::NotRun(e@)),
{
}

/// What is logged at the end of a build tells success from failure, by its level too.
pub proof fn ends_logged(
    span: Seq<char>,
    what: Seq<char>,
    e: Seq<char>,
    left: Seq<crate::engine::live_update::StepV>,
)
    ensures
        ended(span, what, None) == log_v(span, Level::Info, what + " succeeded\n"@),
        ended(span, what, Some(e)) == log_v(span, Level::Error, what + " failed: "@ + e + "\n"@),
        steps_end(StepRunV { kind: StepKind::LiveUpdate, left, failure: None }, span) == log_v(
            span,
            Level::Info,
            "Live update complete\n"@,
        ),
        steps_end(
            StepRunV { kind: StepKind::LiveUpdate, left, failure: Some(FailureV::Exited) },
            span,
        ) == log_v(span, Level::Error, "Live update failed\n"@),
        steps_end(StepRunV { kind: StepKind::InitialSync, left, failure: None }, span) == log_v(
            span,
            Level::Info,
            "Initial sync complete\n"@,
        ),
        steps_end(
            StepRunV { kind: StepKind::InitialSync, left, failure: Some(FailureV::NotRun(e)) },
            span,
        ) == log_v(span, Level::Error, "Initial sync failed: "@ + e + "\n"@),
        steps_error(StepRunV { kind: StepKind::LiveUpdate, left, failure: None }) is None,
        steps_error(
            StepRunV { kind: StepKind::LiveUpdate, left, failure: Some(FailureV::NotRun(e)) },
        ) == Some(e),
        steps_error(
            StepRunV { kind: StepKind::LiveUpdate, left, failure: Some(FailureV::Exited) },
        ) is Some,
{
}

/// Images are built one after the other, and documents are applied when all of them are.
pub proof fn images_before_documents(m: Manifest, i: int)
    requires
        0 <= i,
        m.docker_builds@.len() <= usize::MAX,
    ensures
        i < m.docker_builds@.len() ==> image_phase(m, i) == K8sPhase::Image(i as usize),
        i >= m.docker_builds@.len() ==> image_phase(m, i) == K8sPhase::Apply,
        joined_docs(m) == join(texts(m.k8s_apply_docs@), "\n---\n"@),
{
}

/// No two builds of a resource log to the same span.
pub proof fn spans_differ(name: Seq<char>, a: nat, b: nat)
    requires
        a != b,
    ensures
        build_span(name, a) != build_span(name, b),
{
    let x = build_span(name, a);
    let y = build_span(name, b);
    let p = name + ":build:"@;
    if x == y {
        assert(x.skip(p.len() as int) =~= dec(a + 1));
        assert(y.skip(p.len() as int) =~= dec(b + 1));
        dec_injective(a + 1, b + 1);
    }
}

/// What a build prints is logged line by line under its span.
pub proof fn prints_logged(span: Seq<char>, l: Seq<Seq<char>>, k: int)
    ensures
        printed_logs(span, l).len() == l.len(),
        0 <= k < l.len() ==> printed_logs(span, l)[k] == log_v(span, Level::Info, l[k] + "\n"@),
    decreases l.len(),
{
    if l.len() > 0 {
        prints_logged(span, l.drop_last(), k);
    }
}

/// A resource is ready from as many successes in a row on as its probe asks for, one at
/// least, and not before; it is not any more after as many failures in a row.
pub proof fn thresholds_count(
    before: Seq<bool>,
    run: Seq<bool>,
    ok: bool,
    s: u32,
    f: u32,
)
    requires
        forall|i: int| 0 <= i < run.len() ==> #[trigger] run[i] == ok,
        before.len() > 0 ==> before.last() != ok,
    ensures
        ok && !readiness(before, s, f).ready ==> (readiness(before + run, s, f).ready <==> run.len()
            >= s && run.len() >= 1),
        ok && readiness(before, s, f).ready ==> readiness(before + run, s, f).ready,
        !ok && !readiness(before, s, f).ready ==> !readiness(before + run, s, f).ready,
        !ok && readiness(before, s, f).ready ==> (readiness(before + run, s, f).ready
            <==> run.len() < f || run.len() == 0),
        !readiness(Seq::empty(), s, f).ready,
{
    run_counted(before, run, ok, s, f);
}

proof fn run_counted(before: Seq<bool>, run: Seq<bool>, ok: bool, s: u32, f: u32)
    requires
        forall|i: int| 0 <= i < run.len() ==> #[trigger] run[i] == ok,
        before.len() > 0 ==> before.last() != ok,
    ensures
        ({
            let r = readiness(before + run, s, f);
            let ready = readiness(before, s, f).ready;
            let most = if s == 0 {
                1nat
            } else {
                s as nat
            };
            let least = if f == 0 {
                1nat
            } else {
                f as nat
            };
            &&& ok ==> r.successes == run.len() && (run.len() > 0 ==> r.failures == 0)
            &&& !ok ==> r.failures == run.len() && (run.len() > 0 ==> r.successes == 0)
            &&& ok ==> r.ready == (ready || run.len() >= most)
            &&& !ok ==> r.ready == (ready && run.len() < least)
        }),
    decreases run.len(),
{
    if run.len() > 0 {
        let d = run.drop_last();
        assert forall|i: int| 0 <= i < d.len() implies #[trigger] d[i] == ok by {
            assert(d[i] == run[i]);
        }
        run_counted(before, d, ok, s, f);
        assert((before + run).drop_last() =~= before + d);
        assert((before + run).last() == run[run.len() - 1]);
    } else {
        assert(before + run =~= before);
    }
}

/// What a probe says of a resource: whether it is ready, still waits or failed.
pub proof fn probes_told(name: Seq<char>, e: Seq<char>)
    ensures
        probe_reason(true, true) == "ProbeSucceeded"@,
        probe_reason(true, false) == "ProbeSucceeded"@,
        probe_reason(false, true) == "ProbePending"@,
        probe_reason(false, false) == "ProbeFailed"@,
        probe_log(name, true, None) == log_v(
            name,
            Level::Info,
            "Readiness probe succeeded; resource is ready\n"@,
        ),
        probe_log(name, false, Some(e)) == log_v(
            name,
            Level::Warn,
            "Readiness probe failed: "@ + e + "\n"@,
        ),
{
}

proof fn endpoint_behind(
    v: Seq<(Seq<char>, EndpointV)>,
    e: (Seq<char>, EndpointV),
    x: Seq<char>,
)
    ensures
        endpoint_of(v.push(e), x) == (match endpoint_of(v, x) {
            Some(y) => Some(y),
            None => if e.0 == x {
                Some(e.1)
            } else {
                None
            },
        }),
{
    let w = v.push(e);
    service_found(v, x, 0);
    service_found(w, x, 0);
    let i = service_index(v, x, 0);
    let j = service_index(w, x, 0);
    if i < v.len() {
        assert(w[i] == v[i]);
        if j < i {
            assert(w[j] == v[j]);
        }
    } else {
        if j < v.len() {
            assert(w[j] == v[j]);
        }
        assert(w[v.len() as int] == e);
    }
}

proof fn kept_found(
    services: Seq<(Seq<char>, EndpointV)>,
    ms: Seq<Manifest>,
    held: Seq<(Seq<char>, PortReservation)>,
    x: Seq<char>,
)
    ensures
        serves(ms, x) || holds_name(held, x) ==> endpoint_of(only_declared(services, ms, held), x)
            == endpoint_of(services, x),
    decreases services.len(),
{
    if services.len() > 0 {
        let d = services.drop_last();
        kept_found(d, ms, held, x);
        endpoint_behind(d, services.last(), x);
        endpoint_behind(only_declared(d, ms, held), services.last(), x);
        assert(d.push(services.last()) =~= services);
    }
}

/// A named port that is held is told to all services as it is: on the local address, under
/// its name, the last one where a name comes twice.
pub proof fn held_port_told(
    services: Seq<(Seq<char>, EndpointV)>,
    ms: Seq<Manifest>,
    held: Seq<(Seq<char>, PortReservation)>,
    proxy: Option<ProxyHandle>,
    i: int,
)
    requires
        0 <= i < held.len(),
        forall|j: int| i < j < held.len() ==> (#[trigger] held[j]).0 != held[i].0,
    ensures
        endpoint_of(refreshed(services, ms, held, proxy), held[i].0) == Some(
            EndpointV { host: Some("127.0.0.1"@), port: Some(held[i].1.port), url: None },
        ),
{
    assert(holds_name(held, held[i].0));
    let a = declared(services, ms, proxy);
    ports_found(a, held, i);
    kept_found(with_ports(a, held), ms, held, held[i].0);
}

proof fn ports_found(
    services: Seq<(Seq<char>, EndpointV)>,
    held: Seq<(Seq<char>, PortReservation)>,
    i: int,
)
    requires
        0 <= i < held.len(),
        forall|j: int| i < j < held.len() ==> (#[trigger] held[j]).0 != held[i].0,
    ensures
        endpoint_of(with_ports(services, held), held[i].0) == Some(
            EndpointV { host: Some("127.0.0.1"@), port: Some(held[i].1.port), url: None },
        ),
    decreases held.len(),
{
    let d = held.drop_last();
    let last = held.last();
    assert(last == held[held.len() - 1]);
    let e = EndpointV { host: Some("127.0.0.1"@), port: Some(last.1.port), url: None };
    set_then_found(with_ports(services, d), last.0, e, held[i].0);
    if i < d.len() {
        assert(d[i] == held[i]);
        assert forall|j: int| i < j < d.len() implies (#[trigger] d[j]).0 != d[i].0 by {
            assert(d[j] == held[j]);
        }
        ports_found(services, d, i);
    }
}

proof fn ports_leave(
    services: Seq<(Seq<char>, EndpointV)>,
    held: Seq<(Seq<char>, PortReservation)>,
    x: Seq<char>,
)
    requires
        !holds_name(held, x),
    ensures
        endpoint_of(with_ports(services, held), x) == endpoint_of(services, x),
    decreases held.len(),
{
    if held.len() > 0 {
        let d = held.drop_last();
        let last = held.last();
        assert(last == held[held.len() - 1]);
        if holds_name(d, x) {
            let k = choose|k: int| 0 <= k < d.len() && (#[trigger] d[k]).0 == x;
            assert(held[k] == d[k]);
        }
        ports_leave(services, d, x);
        let e = EndpointV { host: Some("127.0.0.1"@), port: Some(last.1.port), url: None };
        set_then_found(with_ports(services, d), last.0, e, x);
    }
}

/// A resource that serves is told under its hostname and URL where there is a proxy, with
/// the port that it had.
pub proof fn served_host_told(
    services: Seq<(Seq<char>, EndpointV)>,
    ms: Seq<Manifest>,
    held: Seq<(Seq<char>, PortReservation)>,
    p: ProxyHandle,
    i: int,
)
    requires
        0 <= i < ms.len(),
        ms[i].serve_cmd.argv@.len() > 0,
        forall|a: int| 0 <= a < ms.len() && a != i ==> (#[trigger] ms[a]).name@ != ms[i].name@,
        !holds_name(held, ms[i].name@),
    ensures
        ({
            let found = endpoint_of(refreshed(services, ms, held, Some(p)), ms[i].name@);
            &&& found is Some
            &&& found->0.host == Some(p.host_of(ms[i].name@))
            &&& found->0.url == Some(p.url_of(ms[i].name@))
            &&& endpoint_of(services, ms[i].name@) matches Some(before) ==> found->0.port
                == before.port
            &&& endpoint_of(services, ms[i].name@) is None ==> found->0.port is None
        }),
{
    let name = ms[i].name@;
    assert(serves(ms, name));
    let a = declared(services, ms, Some(p));
    declared_found(services, ms, p, i);
    ports_leave(a, held, name);
    kept_found(with_ports(a, held), ms, held, name);
}

proof fn declared_found(
    services: Seq<(Seq<char>, EndpointV)>,
    ms: Seq<Manifest>,
    p: ProxyHandle,
    i: int,
)
    requires
        0 <= i < ms.len(),
        ms[i].serve_cmd.argv@.len() > 0,
        forall|a: int| 0 <= a < ms.len() && a != i ==> (#[trigger] ms[a]).name@ != ms[i].name@,
    ensures
        endpoint_of(declared(services, ms, Some(p)), ms[i].name@) == Some(
            declared_endpoint(endpoint_of(services, ms[i].name@), ms[i].name@, Some(p)),
        ),
    decreases ms.len(),
{
    let d = ms.drop_last();
    let m = ms.last();
    let name = ms[i].name@;
    assert(m == ms[ms.len() - 1]);
    let rest = declared(services, d, Some(p));
    let e = declared_endpoint(endpoint_of(rest, m.name@), m.name@, Some(p));
    set_then_found(rest, m.name@, e, name);
    if i < d.len() {
        assert(d[i] == ms[i]);
        assert forall|a: int| 0 <= a < d.len() && a != i implies (#[trigger] d[a]).name@
            != d[i].name@ by {
            assert(d[a] == ms[a]);
        }
        declared_found(services, d, p, i);
    } else {
        declared_leaves(services, d, p, name);
    }
}

proof fn declared_leaves(
    services: Seq<(Seq<char>, EndpointV)>,
    ms: Seq<Manifest>,
    p: ProxyHandle,
    x: Seq<char>,
)
    requires
        forall|a: int| 0 <= a < ms.len() ==> (#[trigger] ms[a]).name@ != x,
    ensures
        endpoint_of(declared(services, ms, Some(p)), x) == endpoint_of(services, x),
    decreases ms.len(),
{
    if ms.len() > 0 {
        let d = ms.drop_last();
        let m = ms.last();
        assert(m == ms[ms.len() - 1]);
        assert forall|a: int| 0 <= a < d.len() implies (#[trigger] d[a]).name@ != x by {
            assert(d[a] == ms[a]);
        }
        declared_leaves(services, d, p, x);
        let rest = declared(services, d, Some(p));
        let e = declared_endpoint(endpoint_of(rest, m.name@), m.name@, Some(p));
        set_then_found(rest, m.name@, e, x);
    }
}

/// A value of a mapping is that of the first entry of its key; tags around values and texts
/// mean nothing.
pub proof fn yaml_found(
    e: Seq<(YamlV, YamlV)>,
    key: Seq<char>,
    text: Seq<char>,
    v: YamlV,
    i: int,
)
    requires
        0 <= i <= e.len(),
        forall|j: int| 0 <= j < i ==> (#[trigger] e[j]).0 != YamlV::Text(key),
    ensures
        i == e.len() ==> yaml_get(YamlV::Table(e), key) is None,
        i < e.len() && e[i].0 == YamlV::Text(key) ==> yaml_get(YamlV::Table(e), key) == Some(
            e[i].1,
        ),
        yaml_get(YamlV::Tagged(Box::new(v)), key) == yaml_get(v, key),
        yaml_str(YamlV::Tagged(Box::new(v))) == yaml_str(v),
        yaml_str(YamlV::Text(text)) == Some(text),
        yaml_get(YamlV::Text(text), key) is None,
    decreases e.len(),
{
    if e.len() > 0 && i > 0 {
        assert(e[0].0 != YamlV::Text(key));
        let d = e.drop_first();
        assert forall|j: int| 0 <= j < i - 1 implies (#[trigger] d[j]).0 != YamlV::Text(key) by {
            assert(d[j] == e[j + 1]);
        }
        yaml_found(d, key, text, v, i - 1);
        if i < e.len() {
            assert(d[i - 1] == e[i]);
        }
    }
}

/// Whether a port is held under a name that is not wanted any more, or not as it is.
pub open spec fn stale(
    held: Seq<(Seq<char>, PortReservation)>,
    wants: Seq<(Seq<char>, Option<u16>)>,
    x: Seq<char>,
) -> bool {
    exists|i: int|
        0 <= i < held.len() && (#[trigger] held[i]).0 == x && want_of(wants, x) != Some(
            held[i].1.preferred,
        )
}

proof fn removed_distinct(v: Seq<(Seq<char>, EndpointV)>, name: Seq<char>)
    requires
        distinct_services(v),
    ensures
        distinct_services(service_removed(v, name)),
{
    let w = service_removed(v, name);
    service_found(v, name, 0);
    let k = service_index(v, name, 0);
    if k < v.len() {
        assert forall|i: int, j: int| 0 <= i < j < w.len() implies (#[trigger] w[i]).0 != (
        #[trigger] w[j]).0 by {
            let a = if i < k {
                i
            } else {
                i + 1
            };
            let b = if j < k {
                j
            } else {
                j + 1
            };
            assert(w[i] == v[a] && w[j] == v[b]);
        }
    }
}

/// A service whose port is given back is told no more; all others are told as before.
pub proof fn stale_services_gone(
    services: Seq<(Seq<char>, EndpointV)>,
    held: Seq<(Seq<char>, PortReservation)>,
    wants: Seq<(Seq<char>, Option<u16>)>,
    x: Seq<char>,
)
    requires
        distinct_services(services),
    ensures
        distinct_services(services_left(services, held, wants)),
        stale(held, wants, x) ==> endpoint_of(services_left(services, held, wants), x) is None,
        !stale(held, wants, x) ==> endpoint_of(services_left(services, held, wants), x)
            == endpoint_of(services, x),
    decreases held.len(),
{
    if held.len() > 0 {
        let d = held.drop_last();
        let last = held.last();
        assert(last == held[held.len() - 1]);
        stale_services_gone(services, d, wants, x);
        let rest = services_left(services, d, wants);
        removed_distinct(rest, last.0);
        removed_then_gone(rest, last.0, x);
        if stale(d, wants, x) {
            let i = choose|i: int|
                0 <= i < d.len() && (#[trigger] d[i]).0 == x && want_of(wants, x) != Some(
                    d[i].1.preferred,
                );
            assert(held[i] == d[i]);
        }
        if stale(held, wants, x) && !stale(d, wants, x) {
            let i = choose|i: int|
                0 <= i < held.len() && (#[trigger] held[i]).0 == x && want_of(wants, x) != Some(
                    held[i].1.preferred,
                );
            if i < d.len() {
                assert(d[i] == held[i]);
            }
        }
    }
}

} // verus!
