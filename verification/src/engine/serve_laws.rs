//! How servers are started, watched and started again, whatever they are.

use vstd::prelude::*;
use vstd::string::*;

use crate::engine::serve::{
    after_serve, port_logged, port_plan_of, runtime_probed, serve_argv, serve_env, served_endpoint,
    services_served, AfterServe, PortPlan,
};
use crate::engine::service_laws::set_then_found;
use crate::engine::services::{endpoint_of, EndpointV};
use crate::manifest::{Manifest, TargetKind};
use crate::proxy::PortReservation;
use crate::proxy_handle::ProxyHandle;
use crate::text::{dec, pairs};

verus! {

/// Whether the last value that is given to a variable is this one.
pub open spec fn last_given(
    env: Seq<(Seq<char>, Seq<char>)>,
    key: Seq<char>,
    value: Seq<char>,
) -> bool {
    exists|i: int|
        0 <= i < env.len() && #[trigger] env[i] == (key, value) && forall|j: int|
            i < j < env.len() ==> (#[trigger] env[j]).0 != key
}

/// A server that has a port is told it, and the address to listen on, whatever its own
/// command sets; behind a proxy a local one is told its URL. All that its command sets is
/// kept before that, and without a port nothing is added.
pub proof fn server_told_port(m: Manifest, proxy: Option<ProxyHandle>, p: PortReservation)
    ensures
        last_given(serve_env(m, proxy, Some(p)), "PORT"@, dec(p.port as nat)),
        last_given(serve_env(m, proxy, Some(p)), "HOST"@, "127.0.0.1"@),
        m.kind == TargetKind::Local && proxy is Some ==> last_given(
            serve_env(m, proxy, Some(p)),
            "PORTLESS_URL"@,
            proxy->0.url_of(m.name@),
        ) && serve_env(m, proxy, Some(p)).len() == m.serve_cmd.env@.len() + 3,
        m.kind != TargetKind::Local || proxy is None ==> serve_env(m, proxy, Some(p)).len()
            == m.serve_cmd.env@.len() + 2,
        serve_env(m, proxy, Some(p)).take(m.serve_cmd.env@.len() as int) == pairs(m.serve_cmd.env@),
        serve_env(m, proxy, None) == pairs(m.serve_cmd.env@),
{
    reveal_strlit("PORT");
    reveal_strlit("HOST");
    reveal_strlit("PORTLESS_URL");
    assert("PORT"@[0] == 'P' && "HOST"@[0] == 'H');
    assert("PORT"@.len() == 4 && "HOST"@.len() == 4 && "PORTLESS_URL"@.len() == 12);
    let env = serve_env(m, proxy, Some(p));
    let n = m.serve_cmd.env@.len() as int;
    assert(env[n] == ("PORT"@, dec(p.port as nat)));
    assert(env[n + 1] == ("HOST"@, "127.0.0.1"@));
    assert(env.take(n) =~= pairs(m.serve_cmd.env@));
    if m.kind == TargetKind::Local && proxy is Some {
        assert(env[n + 2] == ("PORTLESS_URL"@, proxy->0.url_of(m.name@)));
    }
}

/// A local server behind a proxy is given a port of the proxy, the declared one if it
/// can; any other is given just the one that it declares.
pub proof fn port_planned(m: Manifest)
    ensures
        m.kind == TargetKind::Local ==> port_plan_of(m, true) == PortPlan::Ask(m.serve_port),
        m.kind != TargetKind::Local ==> port_plan_of(m, true) == port_plan_of(m, false),
        m.serve_port matches Some(p) ==> port_plan_of(m, false) == PortPlan::Fixed(
            PortReservation { port: p, preferred: Some(p), conflict: false },
        ),
        m.serve_port is None ==> port_plan_of(m, false) == PortPlan::NoPort,
{
}

/// Once a server was given a port, every service that starts is told of it under its name:
/// where it listens, and behind a proxy by its host and URL. The others are as they were.
pub proof fn server_announced(
    services: Seq<(Seq<char>, EndpointV)>,
    m: Manifest,
    proxy: Option<ProxyHandle>,
    p: PortReservation,
    other: Seq<char>,
)
    ensures
        endpoint_of(services_served(services, m, proxy, Some(p)), m.name@) is Some,
        (endpoint_of(services_served(services, m, proxy, Some(p)), m.name@)->0).port == Some(
            p.port,
        ),
        m.kind == TargetKind::Local && proxy is Some ==> (endpoint_of(
            services_served(services, m, proxy, Some(p)),
            m.name@,
        )->0).host == Some(proxy->0.host_of(m.name@)) && (endpoint_of(
            services_served(services, m, proxy, Some(p)),
            m.name@,
        )->0).url == Some(proxy->0.url_of(m.name@)),
        m.kind != TargetKind::Local || proxy is None ==> (endpoint_of(
            services_served(services, m, proxy, Some(p)),
            m.name@,
        )->0).host == Some("127.0.0.1"@) && (endpoint_of(
            services_served(services, m, proxy, Some(p)),
            m.name@,
        )->0).url is None,
        other != m.name@ ==> endpoint_of(services_served(services, m, proxy, Some(p)), other)
            == endpoint_of(services, other),
        services_served(services, m, proxy, None) == services,
{
    set_then_found(services, m.name@, served_endpoint(m, proxy, p.port), other);
}

/// A server that ended well, or whose resource is disabled, is not started again. One that
/// crashed is, after two seconds the first time and two more each time after, but never
/// more than sixteen; after ten times it is given up.
pub proof fn restarts_back_off(restarts: u32, disabled: bool)
    ensures
        after_serve(true, disabled, restarts) == AfterServe::Rest,
        after_serve(false, true, restarts) == AfterServe::Rest,
        after_serve(false, false, restarts) == AfterServe::GiveUp <==> restarts >= 10,
        after_serve(false, false, 0) == AfterServe::RestartIn(2),
        restarts < 10 ==> after_serve(false, false, restarts) is RestartIn,
        restarts < 9 ==> ({
            let now = after_serve(false, false, restarts)->RestartIn_0;
            let then = after_serve(false, false, (restarts + 1) as u32)->RestartIn_0;
            then == if now + 2 <= 16 {
                now + 2
            } else {
                16
            }
        }),
{
}

/// A resource is `ok` where its probe says that it is ready, never where it says that it
/// is not; a resource that was not `ok` before is then as it was.
pub proof fn probe_decides(before: Option<Seq<char>>)
    ensures
        runtime_probed(before, true) == Some("ok"@),
        runtime_probed(before, false) != Some("ok"@),
        before == Some("ok"@) ==> runtime_probed(before, false) == Some("pending"@),
        before != Some("ok"@) ==> runtime_probed(before, false) == before,
{
    reveal_strlit("ok");
    reveal_strlit("pending");
    assert("ok"@.len() == 2 && "pending"@.len() == 7);
}

/// What is logged of the port of a server: that a flag was rewritten where one was, that
/// another port stands in where the declared one was taken, and the URL where there is
/// one; nothing without a port.
pub proof fn port_logs_told(m: Manifest, proxy: Option<ProxyHandle>, p: PortReservation)
    ensures
        port_logged(m, proxy, None).len() == 0,
        port_logged(m, proxy, Some(p)).len() == (if serve_argv(m, Some(p)).1 {
            1int
        } else {
            0int
        }) + (if p.conflict && p.preferred is Some {
            1int
        } else {
            0int
        }) + (if m.kind == TargetKind::Local && proxy is Some {
            1int
        } else {
            0int
        }),
        m.kind == TargetKind::Local && proxy is Some ==> port_logged(m, proxy, Some(p)).last()
            == crate::engine::log::log_v(
            m.name@,
            crate::engine::log::Level::Info,
            "Serving on "@ + proxy->0.url_of(m.name@) + " (PORT="@ + dec(p.port as nat) + ")\n"@,
        ),
{
}

} // verus!
