//! Serve commands: the port and the variables that one gets, what follows when it
//! ends, whether it is ready, and where it really listens.

use vstd::prelude::*;
use vstd::string::*;

use crate::api::v1alpha1::UIResourceStatus;
use crate::engine::log::{line, log_v, logs, logs_push, Level, LogLine, LogV};
use crate::engine::ports::{
    detect_local_listen_port, listen_port, rewrite_serve_cmd_port_args, serve_rewritten,
};
use crate::engine::services::{
    env_of, service_set, with_service_env, EndpointV, ServiceEndpoint, ServiceRegistry,
};
use crate::engine::status::{
    other_conditions, says, set_condition, set_runtime, states_condition,
};
use crate::manifest::{Cmd, CmdV, Manifest, TargetKind};
use crate::proxy::PortReservation;
use crate::proxy_handle::ProxyHandle;
use crate::text::{
    cat, cat3, dec, decimal, join, opt_text, owned, pairs, pairs_push, texts,
};

verus! {

/// A serve command that crashes this often is no longer restarted.
pub const MAX_CRASH_RESTARTS: u32 = 10;

/// How a serve command comes by its port.
#[derive(Debug, Clone, Copy, PartialEq, Eq)]
pub enum PortPlan {
    /// The proxy is asked for one, the given one where it is free.
    Ask(Option<u16>),
    /// It gets this one.
    Fixed(PortReservation),
    /// It gets none.
    NoPort,
}

/// The proxy that a resource is served behind: only local ones are.
pub open spec fn proxy_for(m: Manifest, proxy: Option<ProxyHandle>) -> Option<ProxyHandle> {
    if m.kind == TargetKind::Local {
        proxy
    } else {
        None
    }
}

/// How the serve command of a resource comes by its port.
pub open spec fn port_plan_of(m: Manifest, proxied: bool) -> PortPlan {
    match (m.serve_port, proxied && m.kind == TargetKind::Local) {
        (p, true) => PortPlan::Ask(p),
        (Some(p), false) => PortPlan::Fixed(
            PortReservation { port: p, preferred: Some(p), conflict: false },
        ),
        (None, false) => PortPlan::NoPort,
    }
}

/// How the serve command of a resource comes by its port: with a proxy, a local
/// resource has one reserved; otherwise it gets the one that the config gives it.
pub fn port_plan(m: &Manifest, proxied: bool) -> (r: PortPlan)
    ensures
        r == port_plan_of(*m, proxied),
{
    if proxied && m.kind == TargetKind::Local {
        PortPlan::Ask(m.serve_port)
    } else {
        match m.serve_port {
            Some(p) => PortPlan::Fixed(
                PortReservation { port: p, preferred: Some(p), conflict: false },
            ),
            None => PortPlan::NoPort,
        }
    }
}

/// What a serve command is started with.
#[derive(Debug)]
pub struct ServeStart {
    /// The command, with its variables.
    pub cmd: Cmd,
    /// What is logged before it starts.
    pub log: Vec<LogLine>,
    /// Behind a proxy: the port to register a route for, and the URL and the hostname
    /// to show as a link.
    pub route: Option<ServeRoute>,
}

/// The named route of a serve command.
#[derive(Debug)]
pub struct ServeRoute {
    pub port: u16,
    pub host: String,
    pub url: String,
}

/// The arguments of the serve command of a resource, and whether its port was put
/// into them.
pub open spec fn serve_argv(m: Manifest, port: Option<PortReservation>) -> (
    Seq<Seq<char>>,
    bool,
) {
    match port {
        Some(p) => serve_rewritten(texts(m.serve_cmd.argv@), dec(p.port as nat)),
        None => (texts(m.serve_cmd.argv@), false),
    }
}

/// The variables of the serve command of a resource, its own and those that tell it
/// of its port and its URL.
pub open spec fn serve_env(
    m: Manifest,
    proxy: Option<ProxyHandle>,
    port: Option<PortReservation>,
) -> Seq<(Seq<char>, Seq<char>)> {
    match port {
        None => pairs(m.serve_cmd.env@),
        Some(p) => {
            let env = pairs(m.serve_cmd.env@).push(("PORT"@, dec(p.port as nat))).push(
                ("HOST"@, "127.0.0.1"@),
            );
            match proxy_for(m, proxy) {
                Some(h) => env.push(("PORTLESS_URL"@, h.url_of(m.name@))),
                None => env,
            }
        },
    }
}

/// Where the service of a resource is once its serve command has its port.
pub open spec fn served_endpoint(m: Manifest, proxy: Option<ProxyHandle>, port: u16) -> EndpointV {
    match proxy_for(m, proxy) {
        Some(h) => EndpointV {
            host: Some(h.host_of(m.name@)),
            port: Some(port),
            url: Some(h.url_of(m.name@)),
        },
        None => EndpointV { host: Some("127.0.0.1"@), port: Some(port), url: None },
    }
}

/// The services once a serve command has its port.
pub open spec fn services_served(
    services: Seq<(Seq<char>, EndpointV)>,
    m: Manifest,
    proxy: Option<ProxyHandle>,
    port: Option<PortReservation>,
) -> Seq<(Seq<char>, EndpointV)> {
    match port {
        Some(p) => service_set(services, m.name@, served_endpoint(m, proxy, p.port)),
        None => services,
    }
}

/// What is logged of the port of a serve command.
pub open spec fn port_logged(
    m: Manifest,
    proxy: Option<ProxyHandle>,
    port: Option<PortReservation>,
) -> Seq<LogV> {
    match port {
        None => Seq::empty(),
        Some(p) => {
            let number = dec(p.port as nat);
            let rewritten = if serve_argv(m, port).1 {
                seq![
                    log_v(
                        m.name@,
                        Level::Info,
                        "Rewrote serve_cmd port flag to use allocated PORT="@ + number + "\n"@,
                    ),
                ]
            } else {
                Seq::empty()
            };
            let fallback = if p.conflict && p.preferred is Some {
                seq![
                    log_v(
                        m.name@,
                        Level::Warn,
                        "Configured serve_port="@ + dec(p.preferred->0 as nat)
                            + " is unavailable or already claimed by another route; using fallback PORT="@
                            + number
                            + ". Make serve_cmd bind to $PORT for fallback to work.\n"@,
                    ),
                ]
            } else {
                Seq::empty()
            };
            let serving = match proxy_for(m, proxy) {
                Some(h) => seq![
                    log_v(
                        m.name@,
                        Level::Info,
                        "Serving on "@ + h.url_of(m.name@) + " (PORT="@ + number + ")\n"@,
                    ),
                ],
                None => Seq::empty(),
            };
            rewritten + fallback + serving
        },
    }
}

fn log_port(
    m: &Manifest,
    rewrote: bool,
    port: &PortReservation,
    url: Option<&String>,
) -> (r: Vec<LogLine>)
    ensures
        logs(r@) == (if rewrote {
            seq![
                log_v(
                    m.name@,
                    Level::Info,
                    "Rewrote serve_cmd port flag to use allocated PORT="@ + dec(port.port as nat)
                        + "\n"@,
                ),
            ]
        } else {
            Seq::empty()
        }) + (if port.conflict && port.preferred is Some {
            seq![
                log_v(
                    m.name@,
                    Level::Warn,
                    "Configured serve_port="@ + dec(port.preferred->0 as nat)
                        + " is unavailable or already claimed by another route; using fallback PORT="@
                        + dec(port.port as nat)
                        + ". Make serve_cmd bind to $PORT for fallback to work.\n"@,
                ),
            ]
        } else {
            Seq::empty()
        }) + (match url {
            Some(u) => seq![
                log_v(
                    m.name@,
                    Level::Info,
                    "Serving on "@ + u@ + " (PORT="@ + dec(port.port as nat) + ")\n"@,
                ),
            ],
            None => Seq::empty(),
        }),
{
    broadcast use logs_push;

    let name = m.name.as_str();
    let number = decimal(port.port as u64);
    let mut log: Vec<LogLine> = Vec::new();
    assert(logs(log@) =~= Seq::empty());
    if rewrote {
        let text = cat3(
            "Rewrote serve_cmd port flag to use allocated PORT=",
            number.as_str(),
            "\n",
        );
        log.push(line(name, Level::Info, text));
    }
    if port.conflict {
        if let Some(p) = port.preferred {
            let mut text = cat3(
                "Configured serve_port=",
                decimal(p as u64).as_str(),
                " is unavailable or already claimed by another route; using fallback PORT=",
            );
            text.append(number.as_str());
            text.append(". Make serve_cmd bind to $PORT for fallback to work.\n");
            log.push(line(name, Level::Warn, text));
        }
    }
    if let Some(u) = url {
        let mut text = cat3("Serving on ", u.as_str(), " (PORT=");
        text.append(number.as_str());
        text.append(")\n");
        log.push(line(name, Level::Info, text));
    }
    assert(logs(log@) =~= (if rewrote {
        seq![
            log_v(
                m.name@,
                Level::Info,
                "Rewrote serve_cmd port flag to use allocated PORT="@ + dec(port.port as nat)
                    + "\n"@,
            ),
        ]
    } else {
        Seq::empty()
    }) + (if port.conflict && port.preferred is Some {
        seq![
            log_v(
                m.name@,
                Level::Warn,
                "Configured serve_port="@ + dec(port.preferred->0 as nat)
                    + " is unavailable or already claimed by another route; using fallback PORT="@
                    + dec(port.port as nat)
                    + ". Make serve_cmd bind to $PORT for fallback to work.\n"@,
            ),
        ]
    } else {
        Seq::empty()
    }) + (match url {
        Some(u) => seq![
            log_v(
                m.name@,
                Level::Info,
                "Serving on "@ + u@ + " (PORT="@ + dec(port.port as nat) + ")\n"@,
            ),
        ],
        None => Seq::empty(),
    }));
    log
}

/// Prepares the serve command of a resource for its port: the port goes into its
/// variables and, where it has a port flag, into its arguments; the other commands are
/// told where the service is; behind a proxy there is a route to register and a link to
/// show.
pub fn prepare_serve(
    m: &Manifest,
    proxy: Option<&ProxyHandle>,
    port: Option<PortReservation>,
    services: &mut ServiceRegistry,
) -> (r: ServeStart)
    requires
        old(services).ok(),
    ensures
        ({
            let p = match proxy {
                Some(h) => Some(*h),
                None => None,
            };
            &&& final(services)@ == services_served(old(services)@, *m, p, port)
            &&& final(services).ok()
            &&& r.cmd@ == (CmdV {
                argv: serve_argv(*m, port).0,
                workdir: opt_text(m.serve_cmd.workdir),
                env: env_of(final(services)@) + serve_env(*m, p, port),
            })
            &&& logs(r.log@) == port_logged(*m, p, port).push(
                log_v(
                    m.name@,
                    Level::Info,
                    "Running serve_cmd: "@ + join(serve_argv(*m, port).0, " "@) + "\n"@,
                ),
            )
            &&& (match (proxy_for(*m, p), port) {
                (Some(h), Some(n)) => r.route is Some && r.route->0.port == n.port
                    && r.route->0.host@ == h.host_of(m.name@) && r.route->0.url@ == h.url_of(
                    m.name@,
                ),
                _ => r.route is None,
            })
        }),
{
    broadcast use {logs_push, pairs_push};

    let mut cmd = m.serve_cmd.clone();
    let name = m.name.as_str();
    let mut log: Vec<LogLine> = Vec::new();
    let mut route: Option<ServeRoute> = None;
    let ghost p = match proxy {
        Some(h) => Some(*h),
        None => None,
    };
    assert(logs(log@) =~= Seq::empty());
    if let Some(n) = port {
        cmd.env.push((owned("PORT"), decimal(n.port as u64)));
        cmd.env.push((owned("HOST"), owned("127.0.0.1")));
        let rewrote = rewrite_serve_cmd_port_args(&mut cmd, n.port);
        let mut url: Option<String> = None;
        let mut endpoint = ServiceEndpoint {
            host: Some(owned("127.0.0.1")),
            port: Some(n.port),
            url: None,
        };
        if m.kind == TargetKind::Local {
            if let Some(h) = proxy {
                let host = h.hostname(name);
                let u = h.url_for(name);
                endpoint = ServiceEndpoint {
                    host: Some(host.clone()),
                    port: Some(n.port),
                    url: Some(u.clone()),
                };
                cmd.env.push((owned("PORTLESS_URL"), u.clone()));
                url = Some(u.clone());
                route = Some(ServeRoute { port: n.port, host, url: u });
            }
        }
        assert(endpoint@ == served_endpoint(*m, p, n.port));
        services.insert(name, endpoint);
        log = log_port(m, rewrote, &n, url.as_ref());
        assert(logs(log@) == port_logged(*m, p, port));
        assert(pairs(cmd.env@) == serve_env(*m, p, port));
    }
    let cmd = with_service_env(cmd, services);
    let mut text = cat("Running serve_cmd: ", cmd.display().as_str());
    text.append("\n");
    log.push(line(name, Level::Info, text));
    ServeStart { cmd, log, route }
}

/// What follows when a serve command ends.
#[derive(Debug, Clone, Copy, PartialEq, Eq)]
pub enum AfterServe {
    /// Nothing.
    Rest,
    /// It is restarted after so many seconds, unless the resource is paused by then.
    RestartIn(u64),
    /// It crashed too often.
    GiveUp,
}

/// What follows when a serve command ends: one that crashed is restarted unless the
/// resource is paused, later the more often it crashed, and no more than so often.
pub open spec fn after_serve(ok: bool, disabled: bool, restarts: u32) -> AfterServe {
    if ok || disabled {
        AfterServe::Rest
    } else if restarts >= MAX_CRASH_RESTARTS {
        AfterServe::GiveUp
    } else if restarts + 1 < 8 {
        AfterServe::RestartIn((2 * (restarts + 1)) as u64)
    } else {
        AfterServe::RestartIn(16)
    }
}

/// The status that a serve command leaves, what is logged, and what follows.
pub fn serve_exited(
    st: &mut UIResourceStatus,
    name: &str,
    ok: bool,
    disabled: bool,
    restarts: u32,
) -> (r: (Vec<LogLine>, AfterServe))
    ensures
        *final(st) == (UIResourceStatus { runtime_status: final(st).runtime_status, ..*old(st) }),
        says(
            final(st).runtime_status,
            if ok {
                "none"@
            } else {
                "error"@
            },
        ),
        r.1 == after_serve(ok, disabled, restarts),
        logs(r.0@) == (if ok {
            seq![log_v(name@, Level::Info, "serve_cmd exited (ok=true)\n"@)]
        } else {
            seq![log_v(name@, Level::Error, "serve_cmd exited (ok=false)\n"@)]
        }) + (if r.1 is GiveUp {
            seq![
                log_v(
                    name@,
                    Level::Error,
                    "serve_cmd crashed 10 times; giving up on crash rebuild\n"@,
                ),
            ]
        } else {
            Seq::empty()
        }),
{
    broadcast use logs_push;

    let mut log: Vec<LogLine> = Vec::new();
    assert(logs(log@) =~= Seq::empty());
    if ok {
        set_runtime(st, "none");
        log.push(line(name, Level::Info, owned("serve_cmd exited (ok=true)\n")));
    } else {
        set_runtime(st, "error");
        log.push(line(name, Level::Error, owned("serve_cmd exited (ok=false)\n")));
    }
    let next = if ok || disabled {
        AfterServe::Rest
    } else if restarts >= MAX_CRASH_RESTARTS {
        log.push(
            line(
                name,
                Level::Error,
                owned("serve_cmd crashed 10 times; giving up on crash rebuild\n"),
            ),
        );
        AfterServe::GiveUp
    } else if restarts + 1 < 8 {
        AfterServe::RestartIn(2 * (restarts as u64 + 1))
    } else {
        AfterServe::RestartIn(16)
    };
    assert(logs(log@) =~= (if ok {
        seq![log_v(name@, Level::Info, "serve_cmd exited (ok=true)\n"@)]
    } else {
        seq![log_v(name@, Level::Error, "serve_cmd exited (ok=false)\n"@)]
    }) + (if next is GiveUp {
        seq![
            log_v(
                name@,
                Level::Error,
                "serve_cmd crashed 10 times; giving up on crash rebuild\n"@,
            ),
        ]
    } else {
        Seq::empty()
    }));
    (log, next)
}

/// What is logged of a crashed serve command that is restarted after its delay;
/// nothing where the resource was paused meanwhile.
pub fn crash_restart(name: &str, disabled: bool) -> (r: Option<LogLine>)
    ensures
        match r {
            Some(l) => !disabled && l@ == log_v(
                name@,
                Level::Info,
                "serve_cmd crashed; restarting (crash rebuild)\n"@,
            ),
            None => disabled,
        },
{
    if disabled {
        None
    } else {
        Some(
            line(
                name,
                Level::Info,
                owned("serve_cmd crashed; restarting (crash rebuild)\n"),
            ),
        )
    }
}

/// The status and the log of a serve command that could not be started.
pub fn serve_failed(st: &mut UIResourceStatus, name: &str, error: &str) -> (r: LogLine)
    ensures
        *final(st) == (UIResourceStatus { runtime_status: final(st).runtime_status, ..*old(st) }),
        says(final(st).runtime_status, "error"@),
        r@ == log_v(name@, Level::Error, "serve_cmd failed: "@ + error@ + "\n"@),
{
    set_runtime(st, "error");
    line(name, Level::Error, cat3("serve_cmd failed: ", error, "\n"))
}

/// A serve command that keeps crashing is restarted so often and then given up; the
/// delays grow to a bound.
pub proof fn crashes_end(restarts: u32)
    ensures
        restarts >= MAX_CRASH_RESTARTS ==> after_serve(false, false, restarts) is GiveUp,
        restarts < MAX_CRASH_RESTARTS ==> {
            &&& after_serve(false, false, restarts) is RestartIn
            &&& 2 <= after_serve(false, false, restarts)->RestartIn_0 <= 16
        },
        restarts + 1 < MAX_CRASH_RESTARTS ==> after_serve(false, false, restarts)->RestartIn_0
            <= after_serve(false, false, (restarts + 1) as u32)->RestartIn_0,
        after_serve(true, false, restarts) is Rest,
        after_serve(false, true, restarts) is Rest,
{
}

/// The state of a readiness probe as a mathematical object: how many attempts in a
/// row succeeded or failed, and whether the resource counts as ready.
pub struct ReadinessV {
    pub successes: nat,
    pub failures: nat,
    pub ready: bool,
}

/// A threshold, which is at least one.
pub open spec fn at_least_one(n: u32) -> nat {
    if n == 0 {
        1
    } else {
        n as nat
    }
}

/// The state of a readiness probe after the attempts, each of which succeeded or not.
pub open spec fn readiness(attempts: Seq<bool>, success_threshold: u32, failure_threshold: u32) -> ReadinessV
    decreases attempts.len(),
{
    if attempts.len() == 0 {
        ReadinessV { successes: 0, failures: 0, ready: false }
    } else {
        let s = readiness(attempts.drop_last(), success_threshold, failure_threshold);
        if attempts.last() {
            ReadinessV {
                successes: s.successes + 1,
                failures: 0,
                ready: s.ready || s.successes + 1 >= at_least_one(success_threshold),
            }
        } else {
            ReadinessV {
                successes: 0,
                failures: s.failures + 1,
                ready: s.ready && s.failures + 1 < at_least_one(failure_threshold),
            }
        }
    }
}

/// A count that stays at the largest number.
pub open spec fn counted(n: nat) -> u32 {
    if n > u32::MAX {
        u32::MAX
    } else {
        n as u32
    }
}

/// A readiness probe that is run again and again.
pub struct Readiness {
    success_threshold: u32,
    failure_threshold: u32,
    successes: u32,
    failures: u32,
    ready: bool,
    shown: Option<bool>,
    attempts: Ghost<Seq<bool>>,
}

/// What the status says of an attempt.
pub open spec fn probe_reason(ready: bool, succeeded: bool) -> Seq<char> {
    if ready {
        "ProbeSucceeded"@
    } else if succeeded {
        "ProbePending"@
    } else {
        "ProbeFailed"@
    }
}

/// What is logged when an attempt changes whether the resource is ready.
pub open spec fn probe_log(name: Seq<char>, ready: bool, error: Option<Seq<char>>) -> LogV {
    if ready {
        log_v(name, Level::Info, "Readiness probe succeeded; resource is ready\n"@)
    } else {
        match error {
            None => log_v(name, Level::Info, "Readiness probe waiting for success threshold\n"@),
            Some(e) => log_v(name, Level::Warn, "Readiness probe failed: "@ + e + "\n"@),
        }
    }
}

/// The runtime status after an attempt: that of a resource that is no longer ready
/// falls back.
pub open spec fn runtime_probed(before: Option<Seq<char>>, ready: bool) -> Option<Seq<char>> {
    if ready {
        Some("ok"@)
    } else if before == Some("ok"@) {
        Some("pending"@)
    } else {
        before
    }
}

impl Readiness {
    /// The attempts so far.
    pub closed spec fn attempts(self) -> Seq<bool> {
        self.attempts@
    }

    /// The thresholds of successes and failures.
    pub closed spec fn thresholds(self) -> (u32, u32) {
        (self.success_threshold, self.failure_threshold)
    }

    /// Whether the resource was shown as ready last.
    pub closed spec fn shown(self) -> Option<bool> {
        self.shown
    }

    /// The state after the attempts so far.
    pub open spec fn state(self) -> ReadinessV {
        readiness(self.attempts(), self.thresholds().0, self.thresholds().1)
    }

    /// Whether the counts are those of the attempts so far.
    pub closed spec fn ok(self) -> bool {
        &&& self.successes == counted(self.state().successes)
        &&& self.failures == counted(self.state().failures)
        &&& self.ready == self.state().ready
    }

    /// A probe with the given thresholds, before its first attempt.
    pub fn new(success_threshold: u32, failure_threshold: u32) -> (r: Readiness)
        ensures
            r.ok(),
            r.attempts() == Seq::<bool>::empty(),
            r.thresholds() == (success_threshold, failure_threshold),
            r.shown() is None,
    {
        Readiness {
            success_threshold,
            failure_threshold,
            successes: 0,
            failures: 0,
            ready: false,
            shown: None,
            attempts: Ghost(Seq::empty()),
        }
    }

    /// Takes the result of an attempt, which is an error or nothing; brings the status
    /// up to date, and returns what is logged.
    pub fn observe(
        &mut self,
        st: &mut UIResourceStatus,
        name: &str,
        error: Option<String>,
        now: &str,
    ) -> (r: Option<LogLine>)
        requires
            old(self).ok(),
        ensures
            final(self).ok(),
            final(self).attempts() == old(self).attempts().push(error is None),
            final(self).thresholds() == old(self).thresholds(),
            final(self).shown() == Some(final(self).state().ready),
            match r {
                Some(l) => old(self).shown() != Some(final(self).state().ready) && l@ == probe_log(
                    name@,
                    final(self).state().ready,
                    opt_text(error),
                ),
                None => old(self).shown() == Some(final(self).state().ready),
            },
            *final(st) == (UIResourceStatus {
                conditions: final(st).conditions,
                runtime_status: final(st).runtime_status,
                ..*old(st)
            }),
            opt_text(final(st).runtime_status) == runtime_probed(
                opt_text(old(st).runtime_status),
                final(self).state().ready,
            ),
            final(st).conditions@.len() > 0,
            final(st).conditions@.drop_last() == other_conditions(old(st).conditions@, "Ready"@),
            states_condition(
                final(st).conditions@.last(),
                "Ready"@,
                final(self).state().ready,
                now@,
                probe_reason(final(self).state().ready, error is None),
                opt_text(error),
            ),
    {
        let ghost before = self.attempts@;
        let ghost ok = error is None;
        assert(before.push(ok).drop_last() =~= before);
        assert(before.push(ok).last() == ok);
        self.attempts = Ghost(before.push(ok));
        if error.is_none() {
            self.failures = 0;
            if self.successes < u32::MAX {
                self.successes = self.successes + 1;
            }
            if self.successes >= 1 && self.successes >= self.success_threshold {
                self.ready = true;
            }
        } else {
            self.successes = 0;
            if self.failures < u32::MAX {
                self.failures = self.failures + 1;
            }
            if self.failures >= 1 && self.failures >= self.failure_threshold {
                self.ready = false;
            }
        }
        let changed = match self.shown {
            Some(b) => b != self.ready,
            None => true,
        };
        self.shown = Some(self.ready);
        let reason = if self.ready {
            "ProbeSucceeded"
        } else if error.is_none() {
            "ProbePending"
        } else {
            "ProbeFailed"
        };
        let log = if changed {
            Some(
                if self.ready {
                    line(
                        name,
                        Level::Info,
                        owned("Readiness probe succeeded; resource is ready\n"),
                    )
                } else {
                    match &error {
                        None => line(
                            name,
                            Level::Info,
                            owned("Readiness probe waiting for success threshold\n"),
                        ),
                        Some(e) => line(
                            name,
                            Level::Warn,
                            cat3("Readiness probe failed: ", e.as_str(), "\n"),
                        ),
                    }
                },
            )
        } else {
            None
        };
        set_condition(st, "Ready", self.ready, now, reason, error);
        if self.ready {
            set_runtime(st, "ok");
        } else {
            let was_ok = match &st.runtime_status {
                Some(s) => crate::text::same(s.as_str(), "ok"),
                None => false,
            };
            if was_ok {
                set_runtime(st, "pending");
            }
        }
        log
    }
}

/// Whether the last `n` attempts all went the given way.
pub open spec fn streak(attempts: Seq<bool>, n: nat, ok: bool) -> bool {
    &&& n <= attempts.len()
    &&& forall|i: int| attempts.len() - n <= i < attempts.len() ==> #[trigger] attempts[i] == ok
}

proof fn counts_are_streaks(attempts: Seq<bool>, s: u32, f: u32)
    ensures
        streak(attempts, readiness(attempts, s, f).successes, true),
        streak(attempts, readiness(attempts, s, f).failures, false),
        forall|n: nat| streak(attempts, n, true) ==> n <= readiness(attempts, s, f).successes,
        forall|n: nat| streak(attempts, n, false) ==> n <= readiness(attempts, s, f).failures,
    decreases attempts.len(),
{
    if attempts.len() > 0 {
        let d = attempts.drop_last();
        counts_are_streaks(d, s, f);
        assert(forall|i: int| 0 <= i < d.len() ==> d[i] == attempts[i]);
        assert forall|n: nat, ok: bool| streak(attempts, n, ok) && n > 0 implies streak(
            d,
            (n - 1) as nat,
            ok,
        ) && attempts.last() == ok by {
            assert(attempts[attempts.len() - 1] == ok);
        }
        assert forall|n: nat| streak(attempts, n, true) implies n <= readiness(
            attempts,
            s,
            f,
        ).successes by {
            if n > 0 {
                assert(streak(d, (n - 1) as nat, true));
            }
        }
        assert forall|n: nat| streak(attempts, n, false) implies n <= readiness(
            attempts,
            s,
            f,
        ).failures by {
            if n > 0 {
                assert(streak(d, (n - 1) as nat, false));
            }
        }
    }
}

/// A resource is ready once enough attempts in a row succeeded, and not ready once
/// enough in a row failed.
pub proof fn streaks_decide(attempts: Seq<bool>, s: u32, f: u32)
    ensures
        streak(attempts, at_least_one(s), true) ==> readiness(attempts, s, f).ready,
        streak(attempts, at_least_one(f), false) ==> !readiness(attempts, s, f).ready,
{
    counts_are_streaks(attempts, s, f);
}

/// A resource that is ready had enough successes in a row at some time, and not
/// enough failures in a row since.
pub proof fn ready_by_streak(attempts: Seq<bool>, s: u32, f: u32) -> (at: int)
    requires
        readiness(attempts, s, f).ready,
    ensures
        0 <= at <= attempts.len(),
        streak(attempts.take(at), at_least_one(s), true),
        forall|i: int|
            at <= i <= attempts.len() ==> !streak(#[trigger] attempts.take(i), at_least_one(f), false),
    decreases attempts.len(),
{
    let d = attempts.drop_last();
    let before = readiness(d, s, f);
    counts_are_streaks(attempts, s, f);
    assert(attempts.take(attempts.len() as int) =~= attempts);
    if attempts.last() && before.successes + 1 >= at_least_one(s) {
        let n = at_least_one(s);
        assert(streak(attempts, n, true));
        assert(attempts.len() > 0);
        assert(attempts[attempts.len() - 1]);
        assert(!streak(attempts, at_least_one(f), false));
        attempts.len() as int
    } else {
        let at = ready_by_streak(d, s, f);
        assert(forall|i: int| 0 <= i <= d.len() ==> d.take(i) =~= attempts.take(i));
        assert(d.take(at) =~= attempts.take(at));
        assert forall|i: int| at <= i <= attempts.len() implies !streak(
            #[trigger] attempts.take(i),
            at_least_one(f),
            false,
        ) by {
            if i <= d.len() {
                assert(attempts.take(i) =~= d.take(i));
            } else {
                assert(attempts.take(i) =~= attempts);
                streaks_decide(attempts, s, f);
            }
        }
        at
    }
}

/// How long a probe waits, at least a tenth of a second.
pub fn probe_interval_ms(ms: u64) -> (r: u64)
    ensures
        r == if ms < 100 {
            100
        } else {
            ms
        },
{
    if ms < 100 {
        100
    } else {
        ms
    }
}

/// What watches the route of a serve command: the port that it leads to, and whether
/// it was reachable through the proxy last.
#[derive(Debug)]
pub struct RouteMonitor {
    pub current_port: u16,
    pub reachable: Option<bool>,
}

/// What is logged when a serve command listens on another port than its route leads
/// to.
pub open spec fn moved_text(detected: u16, previous: u16) -> Seq<char> {
    "Detected serve_cmd listening on 127.0.0.1:"@ + dec(detected as nat)
        + "; updated named route from PORT="@ + dec(previous as nat)
        + ". This usually means the command ignored $PORT; set serve_port="@ + dec(detected as nat)
        + " or make serve_cmd bind to $PORT to avoid this.\n"@
}

impl RouteMonitor {
    /// A monitor of a route that leads to the port.
    pub fn new(current_port: u16) -> (r: RouteMonitor)
        ensures
            r.current_port == current_port,
            r.reachable is None,
    {
        RouteMonitor { current_port, reachable: None }
    }

    /// Takes a line that the serve command printed. Where it says that the command
    /// listens on another port, the route is to lead there.
    pub fn observe_line(&mut self, name: &str, text: &str) -> (r: Option<(u16, LogLine)>)
        ensures
            final(self).reachable == old(self).reachable,
            match r {
                Some((port, l)) => listen_port(text@) == Some(port) && port != old(self).current_port
                    && final(self).current_port == port && l@ == log_v(
                    name@,
                    Level::Warn,
                    moved_text(port, old(self).current_port),
                ),
                None => final(self).current_port == old(self).current_port && (listen_port(text@)
                    is None || listen_port(text@) == Some(old(self).current_port)),
            },
    {
        match detect_local_listen_port(text) {
            None => None,
            Some(port) => {
                if port == self.current_port {
                    return None;
                }
                let previous = decimal(self.current_port as u64);
                self.current_port = port;
                let number = decimal(port as u64);
                let mut message = cat3(
                    "Detected serve_cmd listening on 127.0.0.1:",
                    number.as_str(),
                    "; updated named route from PORT=",
                );
                message.append(previous.as_str());
                message.append(
                    ". This usually means the command ignored $PORT; set serve_port=",
                );
                message.append(number.as_str());
                message.append(" or make serve_cmd bind to $PORT to avoid this.\n");
                Some((port, line(name, Level::Warn, message)))
            },
        }
    }

    /// Takes what a check of the route found; brings the status up to date, and
    /// returns what is logged.
    pub fn observe_health(
        &mut self,
        st: &mut UIResourceStatus,
        name: &str,
        ok: bool,
        reason: &str,
        message: &str,
        now: &str,
    ) -> (r: Option<LogLine>)
        ensures
            final(self).current_port == old(self).current_port,
            final(self).reachable == Some(ok),
            match r {
                Some(l) => old(self).reachable != Some(ok) && l@ == log_v(
                    name@,
                    if ok {
                        Level::Info
                    } else {
                        Level::Warn
                    },
                    "Proxy health check: "@ + message@ + "\n"@,
                ),
                None => old(self).reachable == Some(ok),
            },
            *final(st) == (UIResourceStatus { conditions: final(st).conditions, ..*old(st) }),
            final(st).conditions@.len() > 0,
            final(st).conditions@.drop_last() == other_conditions(
                old(st).conditions@,
                "ProxyReachable"@,
            ),
            states_condition(
                final(st).conditions@.last(),
                "ProxyReachable"@,
                ok,
                now@,
                reason@,
                Some(message@),
            ),
    {
        let changed = match self.reachable {
            Some(b) => b != ok,
            None => true,
        };
        self.reachable = Some(ok);
        set_condition(st, "ProxyReachable", ok, now, reason, Some(owned(message)));
        if changed {
            let level = if ok {
                Level::Info
            } else {
                Level::Warn
            };
            Some(line(name, level, cat3("Proxy health check: ", message, "\n")))
        } else {
            None
        }
    }
}

} // verus!
