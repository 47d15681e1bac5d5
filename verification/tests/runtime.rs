use starling::api::store::{ApiObjectStore, ObjectEvent};
use starling::api::v1alpha1::UIResourceStatus;
use starling::engine::builds::{
    action_line, build_message, build_route, can_run_in_parallel, custom_build_command,
    custom_build_output, image_built, k8s_start, kind_cluster, kind_load_command, known_digest,
    next_build_span, plan_build, update_error, BuildPlan, BuildResult, BuildRoute, K8sAction,
    K8sBuild, K8sStart,
};
use starling::engine::controllers::{
    docs_to_apply, live_update_ops, op_command, read_lines, reconcile_docker_compose_service,
    reconcile_kubernetes_apply, reconcile_kubernetes_discovery, reconcile_live_update,
    reconcile_pod_log_stream, reconcile_pod_watch, reconcile_port_forward, set_trigger_queue_status,
    state_of_service, write_image_status, OpsRun,
};
use starling::engine::desired::reconcile_kind;
use starling::engine::ignore::{
    build_context_included, context_path, dockerignore_rules, glob_match,
};
use starling::engine::live_update::{live_update_plan, live_update_step};
use starling::engine::log::Level;
use starling::engine::manager::{Forwards, LogFollows};
use starling::engine::materialize::materialize_api_objects;
use starling::engine::named_ports::{
    desired_port_leases, refresh_declared_services, unproxied_port, NamedPorts,
};
use starling::engine::objects::{
    disable_config_map_object, live_update_object, port_forward_object,
};
use starling::engine::order::initial_build_order;
use starling::engine::pods::{
    aggregate_pod_status, follow_logs_args, pods_listed, forward_started, list_pods_args, mark_pods, pod_record,
    port_forward_specs_from_object, PodWatch,
};
use starling::engine::images::can_tag;
use starling::engine::reconcile::disable_change_from_event;
use starling::engine::runs::{ImageAction, ImageBuild, ImagesRun, StepRun};
use starling::engine::serve::{
    crash_restart, port_plan, prepare_serve, probe_interval_ms, serve_exited, serve_failed, AfterServe,
    PortPlan, Readiness, RouteMonitor,
};
use starling::engine::services::{
    resolve_probe_action_ports, resolve_probe_port, service_env, service_env_key, with_service_env,
    ResolvedProbe, ServiceEndpoint, ServiceRegistry,
};
use starling::engine::state::{
    config_span, config_watch_files, reload_ended, EngineEffect, EngineState,
};
use starling::engine::status::{mark_built, set_named_link, RuntimeAfter};
use starling::engine::watch::{
    coalesce, config_directories, directory_holding, files_changed, is_content_event,
    touches_config, watch_spec, BuildRequest, ChangedFile, FileEvent, FileWatches, WatchAction,
};
use starling::json::Json;
use starling::manifest::{
    Cmd, DockerBuild, LiveUpdateStep, Manifest, NamedPortLease, PortForwardSpec, ProbeAction,
    ProbePort, TargetKind,
};
use starling::path_order::{path_precedes, sort_paths};
use starling::probe::{
    connect_failed, connect_timed_out, enough_read, exec_not_started, exec_outcome, get_outcome,
    get_timed_out, plan_probe, ProbePlan,
};
use starling::proxy::PortReservation;
use starling::proxy_handle::{ProxyConfig, ProxyHandle};
use starling::table::Table;
use starling::trees::parse_json;

fn json(text: &str) -> Json {
    parse_json(text).expect("valid JSON")
}

fn strings(v: &[&str]) -> Vec<String> {
    v.iter().map(|s| s.to_string()).collect()
}

fn files(v: &[&str]) -> Vec<ChangedFile> {
    v.iter()
        .map(|s| ChangedFile {
            path: s.to_string(),
            resolved: s.to_string(),
        })
        .collect()
}

fn command(argv: &[&str]) -> Cmd {
    Cmd {
        argv: strings(argv),
        ..Cmd::default()
    }
}

fn serving(name: &str, argv: &[&str]) -> Manifest {
    Manifest {
        serve_cmd: command(argv),
        ..Manifest::new(name, TargetKind::Local)
    }
}

fn reservation(port: u16, preferred: Option<u16>, conflict: bool) -> PortReservation {
    PortReservation {
        port,
        preferred,
        conflict,
    }
}

fn local_handle() -> ProxyHandle {
    ProxyHandle::Local(ProxyConfig::new("localhost", 1355, false))
}

#[test]
fn names_become_parts_of_variables() {
    assert_eq!(service_env_key("control-plane-api"), "CONTROL_PLANE_API");
    assert_eq!(service_env_key("--a..b--"), "A_B");
    assert_eq!(service_env_key("é!"), "SERVICE");
    assert_eq!(service_env_key("v2"), "V2");
}

#[test]
fn commands_are_told_of_services() {
    let mut reg = ServiceRegistry::new();
    reg.insert(
        "db",
        ServiceEndpoint {
            host: Some("127.0.0.1".to_string()),
            port: Some(5432),
            url: None,
        },
    );
    let cmd = Cmd {
        env: vec![("STARLING_DB_PORT".to_string(), "1".to_string())],
        ..command(&["run"])
    };
    let with = with_service_env(cmd, &reg);
    assert_eq!(
        with.env,
        vec![
            ("STARLING_DB_HOST".to_string(), "127.0.0.1".to_string()),
            ("STARLING_DB_PORT".to_string(), "5432".to_string()),
            (
                "STARLING_SERVICES_JSON".to_string(),
                r#"{"db":{"host":"127.0.0.1","port":5432}}"#.to_string()
            ),
            ("STARLING_DB_PORT".to_string(), "1".to_string()),
        ]
    );
    reg.remove("db");
    assert_eq!(
        service_env(&reg),
        vec![("STARLING_SERVICES_JSON".to_string(), "{}".to_string())]
    );
}

#[test]
fn deferred_ports_are_resolved() {
    let mut reg = ServiceRegistry::new();
    reg.insert(
        "api",
        ServiceEndpoint {
            host: Some("h".to_string()),
            port: Some(8080),
            url: None,
        },
    );
    let deferred = |raw: &str| ProbePort::Deferred(raw.to_string());
    assert_eq!(resolve_probe_port(&ProbePort::Number(5), &reg), Ok(5));
    assert_eq!(resolve_probe_port(&deferred("${STARLING_API_PORT}"), &reg), Ok(8080));
    assert_eq!(resolve_probe_port(&deferred("STARLING_API_PORT"), &reg), Ok(8080));
    assert_eq!(
        resolve_probe_port(&deferred("${X}"), &reg).unwrap_err(),
        "could not resolve probe port ${X}"
    );
    assert_eq!(
        resolve_probe_port(&deferred("STARLING_API_HOST"), &reg).unwrap_err(),
        "probe port STARLING_API_HOST resolved to invalid value \"h\""
    );
    let http = ProbeAction::Http {
        host: "h".to_string(),
        port: deferred("STARLING_API_PORT"),
        scheme: "http".to_string(),
        path: "/ok".to_string(),
    };
    assert_eq!(
        resolve_probe_action_ports(&http, &reg).unwrap(),
        ResolvedProbe::Http {
            host: "h".to_string(),
            port: 8080,
            scheme: "http".to_string(),
            path: "/ok".to_string(),
        }
    );
}

#[test]
fn named_ports_follow_the_config() {
    let lease = |name: &str, preferred: Option<u16>| NamedPortLease {
        name: name.to_string(),
        preferred,
    };
    let wants = desired_port_leases(&vec![lease("a", None), lease("b", Some(2)), lease("a", Some(1))]);
    assert_eq!(
        wants,
        vec![("a".to_string(), Some(1)), ("b".to_string(), Some(2))]
    );
    let mut ports = NamedPorts::new();
    let mut services = ServiceRegistry::new();
    assert_eq!(ports.missing(&wants).len(), 2);
    let log = ports.settle("a", Some(1), unproxied_port(Some(1)), Ok(0), "(Tiltfile)");
    assert!(log.is_empty());
    let log = ports.settle("b", Some(2), Some(reservation(9, Some(2), true)), Ok(0), "(Tiltfile)");
    assert_eq!(
        log[0].text,
        "Configured starling_port(\"b\", preferred=2) is unavailable; using fallback port 9\n"
    );
    assert_eq!(log[0].level, Level::Warn);
    assert!(ports.missing(&wants).is_empty());
    refresh_declared_services(&mut services, &vec![serving("web", &["x"])], &ports, None);
    assert_eq!(services.names(), vec!["web", "a", "b"]);
    assert_eq!(services.get("b").unwrap().port, Some(9));

    let fewer = desired_port_leases(&vec![lease("a", None)]);
    assert_eq!(ports.drop_stale(&fewer, &mut services), vec![1, 9]);
    assert!(services.get("a").is_none());
    assert!(ports.drop_stale(&fewer, &mut services).is_empty());
    let log = ports.settle("a", None, None, Err("full".to_string()), "(Tiltfile)");
    assert_eq!(log[0].text, "Could not allocate starling_port(\"a\"): full\n");
    assert_eq!(ports.missing(&fewer).len(), 1);
    refresh_declared_services(&mut services, &vec![], &ports, Some(&local_handle()));
    assert!(services.names().is_empty());
}

#[test]
fn serve_commands_get_their_port() {
    let mut m = serving("web", &["npm", "start", "--port", "3000"]);
    m.serve_port = Some(3000);
    assert_eq!(port_plan(&m, true), PortPlan::Ask(Some(3000)));
    assert_eq!(
        port_plan(&m, false),
        PortPlan::Fixed(reservation(3000, Some(3000), false))
    );
    let compose = Manifest::new("db", TargetKind::DockerCompose);
    assert_eq!(port_plan(&compose, true), PortPlan::NoPort);

    let handle = local_handle();
    let mut services = ServiceRegistry::new();
    let start = prepare_serve(&m, Some(&handle), Some(reservation(4000, Some(3000), true)), &mut services);
    assert_eq!(start.cmd.argv, vec!["npm", "start", "--port", "4000"]);
    let env: Vec<&str> = start.cmd.env.iter().map(|(k, _)| k.as_str()).collect();
    assert_eq!(
        env,
        vec![
            "STARLING_WEB_HOST",
            "STARLING_WEB_PORT",
            "STARLING_WEB_URL",
            "STARLING_SERVICES_JSON",
            "PORT",
            "HOST",
            "PORTLESS_URL",
        ]
    );
    let logs: Vec<&str> = start.log.iter().map(|l| l.text.as_str()).collect();
    assert_eq!(
        logs,
        vec![
            "Rewrote serve_cmd port flag to use allocated PORT=4000\n",
            "Configured serve_port=3000 is unavailable or already claimed by another route; using fallback PORT=4000. Make serve_cmd bind to $PORT for fallback to work.\n",
            "Serving on http://web.localhost:1355 (PORT=4000)\n",
            "Running serve_cmd: npm start --port 4000\n",
        ]
    );
    let route = start.route.unwrap();
    assert_eq!(route.host, "web.localhost");
    assert_eq!(services.get("web").unwrap().url.as_deref(), Some("http://web.localhost:1355"));

    let start = prepare_serve(&m, None, Some(reservation(3000, Some(3000), false)), &mut services);
    assert!(start.route.is_none());
    assert_eq!(services.get("web").unwrap().host.as_deref(), Some("127.0.0.1"));
    let start = prepare_serve(&m, None, None, &mut services);
    assert_eq!(start.log.len(), 1);
}

#[test]
fn crashed_serve_commands_are_restarted_for_a_while() {
    let mut st = UIResourceStatus::default();
    let delays: Vec<AfterServe> = (0..11)
        .map(|n| serve_exited(&mut st, "web", false, false, n).1)
        .collect();
    assert_eq!(delays[0], AfterServe::RestartIn(2));
    assert_eq!(delays[6], AfterServe::RestartIn(14));
    assert_eq!(delays[7], AfterServe::RestartIn(16));
    assert_eq!(delays[9], AfterServe::RestartIn(16));
    assert_eq!(delays[10], AfterServe::GiveUp);
    assert_eq!(st.runtime_status.as_deref(), Some("error"));
    let (log, next) = serve_exited(&mut st, "web", true, false, 0);
    assert_eq!(next, AfterServe::Rest);
    assert_eq!(log[0].text, "serve_cmd exited (ok=true)\n");
    assert_eq!(st.runtime_status.as_deref(), Some("none"));
    assert_eq!(serve_exited(&mut st, "web", false, true, 0).1, AfterServe::Rest);
    assert!(crash_restart("web", true).is_none());
    assert!(crash_restart("web", false).is_some());
    assert_eq!(serve_failed(&mut st, "web", "no").text, "serve_cmd failed: no\n");
}

#[test]
fn readiness_needs_streaks() {
    let mut st = UIResourceStatus {
        runtime_status: Some("pending".to_string()),
        ..Default::default()
    };
    let mut probe = Readiness::new(2, 2);
    let fail = || Some("refused".to_string());
    let log = probe.observe(&mut st, "web", None, "t").unwrap();
    assert_eq!(log.text, "Readiness probe waiting for success threshold\n");
    assert_eq!(st.conditions[0].reason.as_deref(), Some("ProbePending"));
    let log = probe.observe(&mut st, "web", None, "t").unwrap();
    assert_eq!(log.text, "Readiness probe succeeded; resource is ready\n");
    assert_eq!(st.runtime_status.as_deref(), Some("ok"));
    assert!(probe.observe(&mut st, "web", fail(), "t").is_none());
    assert_eq!(st.runtime_status.as_deref(), Some("ok"));
    let log = probe.observe(&mut st, "web", fail(), "t").unwrap();
    assert_eq!(log.text, "Readiness probe failed: refused\n");
    assert_eq!(st.runtime_status.as_deref(), Some("pending"));
    assert_eq!(st.conditions.len(), 1);
    assert_eq!(st.conditions[0].status, "False");
    let mut zero = Readiness::new(0, 0);
    zero.observe(&mut st, "web", None, "t");
    assert_eq!(st.runtime_status.as_deref(), Some("ok"));
    assert_eq!(probe_interval_ms(5), 100);
    assert_eq!(probe_interval_ms(500), 500);
}

#[test]
fn routes_follow_the_port_that_is_printed() {
    let mut monitor = RouteMonitor::new(4000);
    assert!(monitor.observe_line("web", "listening on 127.0.0.1:4000").is_none());
    let (port, log) = monitor.observe_line("web", "listening on 127.0.0.1:5173").unwrap();
    assert_eq!(port, 5173);
    assert!(log.text.contains("updated named route from PORT=4000"));
    assert!(monitor.observe_line("web", "listening on 127.0.0.1:5173").is_none());
    assert!(monitor.observe_line("web", "hello").is_none());
    let mut st = UIResourceStatus::default();
    assert!(monitor.observe_health(&mut st, "web", true, "HTTP200", "fine", "t").is_some());
    assert!(monitor.observe_health(&mut st, "web", true, "HTTP200", "fine", "t").is_none());
    let log = monitor
        .observe_health(&mut st, "web", false, "HTTP502", "down", "t")
        .unwrap();
    assert_eq!(log.text, "Proxy health check: down\n");
    assert_eq!(log.level, Level::Warn);
    assert_eq!(st.conditions.len(), 1);
}

fn shown(effects: &[EngineEffect]) -> Vec<String> {
    effects
        .iter()
        .map(|e| match e {
            EngineEffect::Log(l) => format!("log {}", l.text.trim_end()),
            EngineEffect::SetRuntime { name, status } => format!("runtime {name} {status}"),
            EngineEffect::Stop { name, running } => format!("stop {name} {running}"),
            EngineEffect::Remove(name) => format!("remove {name}"),
            EngineEffect::Serve { name, index, restarts } => format!("serve {name} {index} {restarts}"),
        })
        .collect()
}

#[test]
fn serve_commands_are_started_restarted_and_moved() {
    let mut engine = EngineState::new(vec![
        serving("web", &["x"]),
        Manifest::new("job", TargetKind::Local),
    ]);
    assert_eq!(
        shown(&engine.replace_serve_after_update("web")),
        vec!["stop web false", "serve web 0 0"]
    );
    assert_eq!(
        shown(&engine.replace_serve_after_update("web")),
        vec![
            "runtime web in_progress",
            "log Restarting serve_cmd after successful update...",
            "stop web true",
            "serve web 0 1",
        ]
    );
    assert!(engine.replace_serve_after_update("job").is_empty());
    assert_eq!(
        shown(&engine.change_port("web", 4000)),
        vec![
            "log Changing preferred serve_port to 4000; restarting serve_cmd...",
            "runtime web in_progress",
            "log Restarting serve_cmd...",
            "stop web true",
            "serve web 0 2",
        ]
    );
    assert_eq!(engine.manifest("web").unwrap().serve_port, Some(4000));
    assert_eq!(
        shown(&engine.change_port("job", 1)),
        vec!["log Cannot change port: resource has no serve_cmd"]
    );
    assert_eq!(
        shown(&engine.change_port("nope", 1)),
        vec!["log Cannot change port: resource not found"]
    );
    assert_eq!(
        shown(&engine.restart("job")),
        vec!["runtime job in_progress", "stop job false"]
    );
    assert_eq!(engine.start_count("web"), 3);
}

#[test]
fn reloads_drop_what_is_gone_and_keep_given_ports() {
    let mut engine = EngineState::new(vec![serving("web", &["x"]), serving("old", &["x"])]);
    engine.replace_serve_after_update("web");
    engine.replace_serve_after_update("old");
    engine.change_port("web", 4000);
    let fresh = || vec![serving("web", &["y"]), Manifest::new("new", TargetKind::Local)];
    assert_eq!(
        shown(&engine.begin_reload("(Tiltfile)", "one\ntwo\n", &fresh())),
        vec![
            "log one",
            "log two",
            "log Stopping serve_cmd; resource was removed...",
            "stop old true",
            "remove old",
        ]
    );
    engine.install(fresh());
    assert_eq!(engine.manifest("web").unwrap().serve_port, Some(4000));
    assert!(shown(&engine.stop_orphans()).is_empty());
    engine.install(vec![Manifest::new("web", TargetKind::Local)]);
    assert_eq!(
        shown(&engine.stop_orphans()),
        vec![
            "log Stopping serve_cmd; resource no longer has serve_cmd...",
            "stop web true",
        ]
    );
    assert!(!engine.is_started("web"));
    assert_eq!(config_span("/p/Tiltfile"), "(Tiltfile)");
    assert_eq!(config_span("/"), "(Starlingfile)");
    assert_eq!(config_watch_files("T", &vec![]), vec!["T"]);
    assert_eq!(config_watch_files("T", &strings(&["a"])), vec!["a"]);
    assert_eq!(reload_ended("s", 2).text, "Config reloaded (2 resources)\n");
}

#[test]
fn changed_files_lead_to_builds() {
    let object = json(
        r#"{"spec": {"watchedPaths": ["/r"], "ignores": [{"basePath": "/r", "patterns": ["*.log"]}],
            "fallbackPaths": ["/r/Dockerfile"], "manual": false}}"#,
    );
    let spec = watch_spec(&object);
    let (log, action) = files_changed("web", &spec, &spec.ignore_rules, &files(&["/r/a.log"]), false);
    assert_eq!(action, WatchAction::Ignore);
    assert_eq!(log[0].text, "Ignored file change matched ignore rules\n");
    let (_, action) = files_changed("web", &spec, &spec.ignore_rules, &files(&["/r/a.log", "/r/b"]), true);
    assert_eq!(action, WatchAction::MarkPending);
    let (log, action) = files_changed("web", &spec, &spec.ignore_rules, &files(&["/r/Dockerfile"]), false);
    assert_eq!(log.len(), 2);
    assert_eq!(
        action,
        WatchAction::Build(BuildRequest {
            name: "web".to_string(),
            force_full: true,
            changed_paths: strings(&["/r/Dockerfile"]),
        })
    );
    let (log, action) = files_changed("web", &spec, &spec.ignore_rules, &vec![], false);
    assert_eq!(log.len(), 1);
    assert!(matches!(action, WatchAction::Build(b) if !b.force_full));
    let manual = watch_spec(&json(r#"{"spec": {"watchedPaths": ["/r"], "manual": true}}"#));
    assert_eq!(
        files_changed("web", &manual, &manual.ignore_rules, &files(&["/r/x"]), false).1,
        WatchAction::MarkPending
    );
    let linked = vec![ChangedFile {
        path: "/link/Dockerfile".to_string(),
        resolved: "/r/a.log".to_string(),
    }];
    assert_eq!(
        files_changed("web", &spec, &spec.ignore_rules, &linked, false).1,
        WatchAction::Ignore
    );
    let told = vec![ChangedFile {
        path: "/r/a.log".to_string(),
        resolved: "/elsewhere/a.log".to_string(),
    }];
    assert!(matches!(
        files_changed("web", &spec, &spec.ignore_rules, &told, false).1,
        WatchAction::Build(b) if b.changed_paths == strings(&["/r/a.log"])
    ));
}

#[test]
fn watchers_come_and_go_with_their_objects() {
    let mut api = ApiObjectStore::new();
    let mut watches = FileWatches::new();
    let o = api.apply("FileWatch", "default", "web", json(r#"{"spec": {"watchedPaths": ["/r"]}}"#));
    let change = watches.on_event(&ObjectEvent::Added(o.clone()));
    assert_eq!(change.start.unwrap().0, 0);
    let other = api.apply("Cmd", "default", "web", json("{}"));
    let change = watches.on_event(&ObjectEvent::Deleted(other));
    assert!(change.stop.is_none() && change.start.is_none());
    let change = watches.on_event(&ObjectEvent::Modified(o.clone()));
    assert_eq!(change.stop, Some(0));
    let change = watches.on_event(&ObjectEvent::Deleted(o));
    assert_eq!(change.stop, Some(1));
    assert!(watches.watcher("web").is_none());
}

#[test]
fn bursts_become_one_request_for_each_resource() {
    let request = |name: &str, full: bool, paths: &[&str]| BuildRequest {
        name: name.to_string(),
        force_full: full,
        changed_paths: strings(paths),
    };
    let burst = vec![
        request("web", false, &["/b", "/a"]),
        request("api", true, &[]),
        request("web", true, &["/a/", "/a-b", "/a/c"]),
    ];
    assert_eq!(
        coalesce(burst),
        vec![
            request("web", true, &["/a", "/a/c", "/a-b", "/b"]),
            request("api", true, &[]),
        ]
    );
    assert_eq!(request("web", false, &["/a"]).known_paths(), Some(strings(&["/a"])));
    assert_eq!(request("web", false, &[]).known_paths(), None);
    assert!(path_precedes("/a/b", "/a-b"));
    assert!(!path_precedes("/a-b", "/a/b"));
    assert!(path_precedes("/z", "a"));
    assert!(path_precedes("../x", "a"));
    assert_eq!(sort_paths(strings(&["b", "a//c", "a/c", "a"])), vec!["a", "a//c", "b"]);
}

#[test]
fn config_files_are_watched_through_their_directories() {
    assert_eq!(directory_holding("/p/Tiltfile"), "/p");
    assert_eq!(directory_holding("/Tiltfile"), "/");
    assert_eq!(directory_holding("Tiltfile"), ".");
    assert_eq!(directory_holding("a/b/c"), "a/b");
    assert_eq!(
        config_directories(&strings(&["/p/b/x", "/p/Tiltfile", "/p/y"])),
        vec!["/p", "/p/b"]
    );
    assert!(touches_config(&strings(&["/p/Tiltfile"]), &strings(&["/p/x", "/p//Tiltfile"])));
    assert!(!touches_config(&strings(&["/p/Tiltfile"]), &strings(&["/p/x"])));
}

#[test]
fn logs_and_ports_of_pods_are_followed_once() {
    let pod = |p: &str, span: &str| (p.to_string(), span.to_string());
    let mut follows = LogFollows::new();
    let change = follows.observe(&vec![pod("p1", "web"), pod("p1", "api"), pod("p2", "api")]);
    assert_eq!(change.start, vec![pod("p1", "web"), pod("p2", "api")]);
    assert!(change.stop.is_empty());
    let change = follows.observe(&vec![pod("p2", "api"), pod("p3", "api")]);
    assert_eq!(change.start, vec![pod("p3", "api")]);
    assert_eq!(change.stop, vec!["p1"]);

    let mut forwards = Forwards::new();
    assert!(!forwards.target("web", "", 1));
    assert!(!forwards.target("web", "p1", 0));
    assert!(forwards.target("web", "p1", 1));
    assert!(!forwards.target("web", "p1", 1));
    assert!(forwards.target("web", "p2", 1));
    forwards.keep_live(&strings(&["api"]));
    assert!(forwards.target("web", "p2", 1));
}

#[test]
fn pods_are_synced_once_and_shown() {
    let pods = vec![
        json(r#"{"metadata": {"name": "p1"}, "status": {"containerStatuses": [{"ready": true, "restartCount": 2}]}}"#),
        json(r#"{"metadata": {}}"#),
        json(r#"{"metadata": {"name": "p1"}}"#),
    ];
    let mut watch = PodWatch::new();
    assert_eq!(watch.pods_to_sync(&pods), vec!["p1"]);
    assert!(watch.pods_to_sync(&pods).is_empty());
    assert_eq!(watch.forward_target(&pods).as_deref(), Some("p1"));
    assert_eq!(watch.forward_target(&pods), None);
    let mut st = UIResourceStatus::default();
    let summary = aggregate_pod_status(&vec![json(
        r#"{"status": {"phase": "Running", "containerStatuses": [{"ready": true, "restartCount": 2}]}}"#,
    )], false);
    mark_pods(&mut st, "web", "p1", &summary);
    let info = st.k8s_resource_info.unwrap();
    assert_eq!(info.pod_status.as_deref(), Some("Running"));
    assert_eq!(info.pod_restarts, Some(2));
    assert_eq!(info.span_id.as_deref(), Some("web:pod"));
    assert_eq!(pod_record(&pods[0]).at("name").as_str(), Some("p1"));
    assert_eq!(list_pods_args("a=b"), vec!["get", "pods", "-l", "a=b", "-o", "json"]);
    assert_eq!(follow_logs_args("p")[5], "p");
    let spec = PortForwardSpec {
        host: "127.0.0.1".to_string(),
        local_port: 1,
        container_port: 2,
        name: String::new(),
        link_path: String::new(),
    };
    assert_eq!(
        forward_started("web", "p", &spec).text,
        "Starting port-forward 127.0.0.1:1 -> p:2\n"
    );
}

#[test]
fn builds_are_planned() {
    let mut m = Manifest::new("web", TargetKind::Local);
    assert_eq!(plan_build(None, false, false), BuildPlan::Unknown);
    assert_eq!(plan_build(Some(&m), true, false), BuildPlan::Paused);
    assert_eq!(plan_build(Some(&m), false, false), BuildPlan::UpToDate);
    m.update_cmd = command(&["make"]);
    assert_eq!(plan_build(Some(&m), false, false), BuildPlan::Run);
    assert!(!can_run_in_parallel(Some(&m)));
    m.allow_parallel = true;
    assert!(can_run_in_parallel(Some(&m)));
    m.serve_cmd = command(&["x"]);
    assert!(!can_run_in_parallel(Some(&m)));
    m.kind = TargetKind::Kubernetes;
    assert_eq!(plan_build(Some(&m), false, false), BuildPlan::Kubernetes);
    assert_eq!(next_build_span("web", 2), "web:build:3");
    assert_eq!(update_error(Ok(true)), None);
    assert_eq!(update_error(Ok(false)).as_deref(), Some("command exited non-zero"));
    assert_eq!(update_error(Err("x".to_string())).as_deref(), Some("x"));
}

fn image(image_ref: &str) -> DockerBuild {
    DockerBuild {
        image_ref: image_ref.to_string(),
        context: ".".to_string(),
        dockerfile: None,
        dockerfile_contents: None,
        target: None,
        platform: None,
        extra_tags: vec![],
        entrypoint: vec![],
        container_args: None,
        match_in_env_vars: false,
        build_args: vec![],
        cache_from: vec![],
        ssh: vec![],
        secrets: vec![],
        pull: false,
        network: None,
        extra_hosts: vec![],
        ignore_rules: vec![],
        only: vec![],
        command: None,
        custom_tag: None,
        outputs_image_ref_to: None,
        image_deps: vec![],
        disable_push: false,
        skips_local_docker: false,
        deps: vec![],
        live_update: vec![],
    }
}

#[test]
fn images_are_built_by_the_route_they_need() {
    let mut db = image("web:dev");
    assert_eq!(build_route(&db), BuildRoute::Api);
    db.ssh = strings(&["default"]);
    assert_eq!(build_route(&db), BuildRoute::BuildKit);
    db.command = Some(command(&["./b.sh"]));
    assert_eq!(build_route(&db), BuildRoute::Custom);
    let env = custom_build_command(&db).unwrap().env;
    assert_eq!(env[0], ("EXPECTED_REF".to_string(), "web:dev".to_string()));
    assert_eq!(env[3], ("TAG".to_string(), "dev".to_string()));
    assert_eq!(custom_build_output(&db, "/o", " a:b \n").unwrap(), "a:b");
    assert_eq!(
        custom_build_output(&db, "/o", " \n").unwrap_err(),
        "custom_build web:dev wrote an empty outputs_image_ref_to /o"
    );
    assert_eq!(
        known_digest(&db, &Some("a@sha256:1".to_string())).as_deref(),
        Some("sha256:1")
    );
    let step = image_built(
        &image("web:dev"),
        &BuildResult {
            output_ref: None,
            digest: Some("sha256:0123456789abcdef".to_string()),
        },
        false,
    );
    assert_eq!(step.deploy_ref, "web:starling-0123456789ab");
    assert!(step.tag && step.load);
    let (log, error) = build_message(&db, "s", Some("a\nb\n"), Some("bad"));
    assert_eq!(log.len(), 3);
    assert_eq!(error.as_deref(), Some("docker build web:dev: bad"));
    assert_eq!(kind_cluster("kind-dev\n").as_deref(), Some("dev"));
    assert_eq!(kind_cluster("minikube"), None);
    assert_eq!(kind_load_command("i", "c").argv[3], "i");
}

#[test]
fn deployments_go_step_by_step() {
    let mut m = Manifest::new("web", TargetKind::Kubernetes);
    m.docker_builds = vec![image("a"), image("b")];
    m.k8s_apply_docs = strings(&["kind: A", "kind: B"]);
    let mut build = K8sBuild::new(&m);
    assert!(matches!(build.action(&m, false), K8sAction::BuildImage(0)));
    assert_eq!(
        action_line(&build.action(&m, false), &m, "s").unwrap().text,
        "Building image: a\n"
    );
    build.on_image(&m, None);
    build.on_image(&m, None);
    assert!(matches!(build.action(&m, true), K8sAction::ApplyDry(_)));
    match build.action(&m, false) {
        K8sAction::ApplyDocs(d) => assert_eq!(d, "kind: A\n---\nkind: B"),
        other => panic!("unexpected action: {other:?}"),
    }
    build.on_reconciled(Err("no".to_string()));
    assert!(build.via_reconciler);
    assert!(matches!(build.action(&m, false), K8sAction::Finish));
    assert!(build.runtime(false) == RuntimeAfter::Error);
    let mut failed = K8sBuild::new(&m);
    failed.on_image(&m, Some("boom".to_string()));
    assert!(matches!(failed.action(&m, false), K8sAction::Finish));
    assert!(!failed.watches_pods(&m, false));

    m.live_update = vec![LiveUpdateStep::RestartContainer];
    assert!(matches!(
        k8s_start(&m, false, 1, false, Some("p".to_string())),
        K8sStart::LiveUpdate(p) if p == "p"
    ));
    assert!(matches!(
        k8s_start(&m, true, 1, false, Some("p".to_string())),
        K8sStart::Full { announce: true }
    ));
    assert!(matches!(
        k8s_start(&m, false, 0, false, Some("p".to_string())),
        K8sStart::Full { announce: false }
    ));
}

#[test]
fn live_updates_are_planned() {
    let steps = vec![
        LiveUpdateStep::Sync {
            local: "src".to_string(),
            remote: "/app".to_string(),
        },
        LiveUpdateStep::Run {
            cmd: "secret".to_string(),
            echo_off: true,
            triggers: strings(&["/never"]),
        },
        LiveUpdateStep::RestartContainer,
        LiveUpdateStep::InitialSync,
    ];
    let changed = strings(&["/src/x"]);
    let plan = live_update_plan(&steps, "p", Some(&changed));
    assert_eq!(plan.len(), 3);
    assert!(live_update_step(&steps[3], "p", None).is_none());
}

#[test]
fn histories_are_bounded() {
    let mut st = UIResourceStatus::default();
    for i in 0..15 {
        mark_built(
            &mut st,
            "a",
            "b",
            &format!("web:build:{i}"),
            &None,
            RuntimeAfter::Keep,
        );
    }
    assert_eq!(st.build_history.len(), 10);
    assert_eq!(st.build_history[0].span_id.as_deref(), Some("web:build:14"));
    set_named_link(&mut st, "http://a", "a");
    set_named_link(&mut st, "http://b", "a");
    assert_eq!(st.endpoint_links.len(), 1);
    assert_eq!(st.endpoint_links[0].url.as_deref(), Some("http://b"));
}

#[test]
fn dependencies_are_built_first() {
    let mut a = Manifest::new("a", TargetKind::Local);
    a.resource_deps = strings(&["b", "nope"]);
    let mut b = Manifest::new("b", TargetKind::Local);
    b.resource_deps = strings(&["c"]);
    b.auto_init = false;
    let c = Manifest::new("c", TargetKind::Local);
    assert_eq!(initial_build_order(&vec![a, b, c]), vec!["c", "b", "a"]);
    let mut x = Manifest::new("x", TargetKind::Local);
    x.resource_deps = strings(&["y"]);
    let mut y = Manifest::new("y", TargetKind::Local);
    y.resource_deps = strings(&["x"]);
    assert_eq!(initial_build_order(&vec![x, y]), vec!["y", "x"]);
}

#[test]
fn objects_are_brought_to_the_desired_set() {
    let mut api = ApiObjectStore::new();
    api.apply("Cmd", "default", "old", json("{}"));
    reconcile_kind(&mut api, "Cmd", vec![("new".to_string(), json(r#"{"spec": {}}"#))]);
    assert!(api.get("Cmd", "default", "old").is_none());
    assert!(api.get("Cmd", "default", "new").is_some());

    let mut web = Manifest::new("web", TargetKind::Kubernetes);
    web.k8s_apply_docs = strings(&["kind: A"]);
    web.docker_builds = vec![image("img")];
    let mut api = ApiObjectStore::new();
    materialize_api_objects(&mut api, "/p/Tiltfile", &vec![web], &vec![false]);
    assert!(api.get("KubernetesApply", "default", "web").is_some());
    assert!(api.get("ImageMap", "default", "img").is_some());
    let before = api.all().len();
    materialize_api_objects(&mut api, "/p/Tiltfile", &vec![], &vec![]);
    assert!(api.get("KubernetesApply", "default", "web").is_none());
    assert!(api.all().len() < before);
}

#[test]
fn controllers_record_what_they_find() {
    let mut api = ApiObjectStore::new();
    assert_eq!(docs_to_apply(&api, "web").unwrap_err(), "KubernetesApply web not found");
    api.apply("KubernetesApply", "default", "web", json(r#"{"spec": {"yaml": "kind: A"}}"#));
    assert_eq!(docs_to_apply(&api, "web").unwrap(), "kind: A");
    assert!(reconcile_kubernetes_apply(&mut api, "web", Err("boom".to_string()), "now").is_err());
    let o = api.get("KubernetesApply", "default", "web").unwrap().object;
    assert_eq!(o.at("status").at("error").as_str(), Some("boom"));

    let selector = r#"{"spec": {"selectors": [{"matchLabels": {"app": "web"}}]}}"#;
    api.apply("KubernetesDiscovery", "default", "web", json(selector));
    let pods = || {
        Ok(vec![json(
            r#"{"metadata": {"name": "p1"}, "status": {"phase": "Running", "containerStatuses": [{"ready": true, "restartCount": 0}]}}"#,
        )])
    };
    assert!(reconcile_kubernetes_discovery(&mut api, "web", pods()).is_ok());
    assert!(reconcile_pod_watch(&mut api, "web", pods()).is_ok());
    let o = api.get("KubernetesDiscovery", "default", "web").unwrap().object;
    assert_eq!(o.at("status").at("totalPods"), &Json::Pos(1));
    assert_eq!(
        o.at("status").at("pods").as_list().unwrap()[0].at("name").as_str(),
        Some("p1")
    );
    assert!(reconcile_port_forward(&mut api, "web", pods()).is_err());
    let one = r#"{"spec": {"selector": {"matchLabels": {"app": "web"}}, "forwards": []}}"#;
    api.apply("PortForward", "default", "web", json(one));
    assert!(reconcile_port_forward(&mut api, "web", pods()).is_ok());
    let o = api.get("PortForward", "default", "web").unwrap().object;
    assert_eq!(o.at("status").at("podName").as_str(), Some("p1"));
    api.apply("PodLogStream", "default", "web", json(one));
    assert_eq!(
        reconcile_pod_log_stream(&mut api, "web", Ok("a\nb\n".to_string())).unwrap(),
        vec!["a", "b"]
    );

    api.apply(
        "DockerComposeService",
        "default",
        "web",
        json(r#"{"spec": {"service": "web", "project": {"name": "p"}}}"#),
    );
    let ps = "{\"Service\":\"web\",\"State\":\"running\"}\n".to_string();
    assert!(reconcile_docker_compose_service(&mut api, "web", Ok(ps.clone())).is_ok());
    let o = api.get("DockerComposeService", "default", "web").unwrap().object;
    assert!(starling::trees::json_text(o.at("status")).contains("running"));
    assert_eq!(state_of_service(&read_lines(&ps), "web"), "running");

    set_trigger_queue_status(&mut api, &strings(&["web"]));
    api.apply("ImageMap", "default", "img", json("{}"));
    write_image_status(&mut api, "img", Some("sha256:1"), "img:x");
    let o = api.get("ImageMap", "default", "img").unwrap().object;
    assert_eq!(o.at("status").at("image").as_str(), Some("img:x"));
}

#[test]
fn live_update_objects_are_carried_out() {
    let object = json(
        r#"{"spec": {"selector": {"matchLabels": {"app": "web"}},
            "syncs": [{"localPath": "a", "containerPath": "/b"}], "execs": [{"args": ["make x"]}]}}"#,
    );
    let ops = live_update_ops(&object);
    assert_eq!(ops.len(), 2);
    assert_eq!(op_command(&ops[0], "p"), vec!["cp", "a", "p:/b"]);
    assert_eq!(op_command(&ops[1], "p")[5], "make x");
    let mut run = OpsRun::new(&object);
    assert_eq!(op_command(run.next().unwrap(), "p"), vec!["cp", "a", "p:/b"]);
    run.on_ended(Ok(()));
    assert_eq!(op_command(run.next().unwrap(), "p")[5], "make x");
    run.on_ended(Err("no".to_string()));
    assert!(run.next().is_none());
    assert_eq!(run.failure().as_deref(), Some("exec [\"make x\"] failed: no"));
    let mut run = OpsRun::new(&object);
    run.on_ended(Err("gone".to_string()));
    assert!(run.next().is_none());
    run.on_ended(Ok(()));
    assert_eq!(run.failure().as_deref(), Some("sync a -> /b failed: gone"));
    let mut api = ApiObjectStore::new();
    api.apply("LiveUpdate", "default", "web", object);
    let pods = Ok(vec![json(r#"{"metadata": {"name": "p1"}}"#)]);
    assert!(reconcile_live_update(&mut api, "web", pods, None, "now").is_ok());
    assert!(reconcile_live_update(&mut api, "nope", Ok(vec![]), None, "now").is_err());
}

#[test]
fn build_contexts_hold_what_is_selected() {
    let rules = dockerignore_rules("/r", "# comment\n\n tmp/ \n*.log\n");
    assert_eq!(rules.len(), 2);
    let included = |rel: &str, only: &Vec<String>| {
        build_context_included(rel, &context_path("/r", rel), &rules, only)
    };
    assert!(included("src/main.rs", &vec![]));
    assert!(!included("src/debug.log", &vec![]));
    assert!(!included("tmp", &vec![]));
    let only = strings(&["src", "Dockerfile"]);
    assert!(included("src/main.rs", &only));
    assert!(!included("README.md", &only));
    assert_eq!(context_path("/r", "a\\b"), "/r/a/b");
    assert!(!build_context_included("link", "/r/tmp/x", &rules, &vec![]));
    assert!(build_context_included("debug.log", "/elsewhere/debug.log", &rules, &vec![]));
    assert!(glob_match("*.rs", "main.rs"));
    assert!(!glob_match("*.rs", "src/main.rs"));
    assert!(glob_match("src/**", "src/a/b"));
}

#[test]
fn probes_are_planned_and_judged() {
    let exec = |argv: &[&str]| ResolvedProbe::Exec {
        command: strings(argv),
    };
    assert_eq!(
        plan_probe(&exec(&[])),
        ProbePlan::Fail("exec probe has no command".to_string())
    );
    assert_eq!(plan_probe(&exec(&["x"])), ProbePlan::Run(strings(&["x"])));
    let http = |scheme: &str| ResolvedProbe::Http {
        host: "h".to_string(),
        port: 80,
        scheme: scheme.to_string(),
        path: String::new(),
    };
    assert!(matches!(plan_probe(&http("HTTPS")), ProbePlan::Connect { port: 80, .. }));
    match plan_probe(&http("http")) {
        ProbePlan::Get { path, request, .. } => {
            assert_eq!(path, "/");
            assert_eq!(
                request,
                "GET / HTTP/1.1\r\nHost: h:80\r\nUser-Agent: starling-probe\r\nConnection: close\r\n\r\n"
            );
        }
        other => panic!("unexpected plan: {other:?}"),
    }
    assert!(exec_outcome(true, "exit status: 0", &vec![]).is_ok());
    assert_eq!(
        exec_outcome(false, "exit status: 3", &b"first\n nope \n".to_vec()).unwrap_err(),
        "command exited with exit status: 3: nope"
    );
    assert_eq!(
        exec_outcome(false, "exit status: 3", &vec![]).unwrap_err(),
        "command exited with exit status: 3"
    );
    assert!(get_outcome("/", &b"HTTP/1.1 399 Fine\r\n".to_vec()).is_ok());
    assert_eq!(
        get_outcome("/x", &b"HTTP/1.1 400 Bad\r\n".to_vec()).unwrap_err(),
        "GET /x returned HTTP 400"
    );
    assert_eq!(
        get_outcome("/x", &b"hello\r\n".to_vec()).unwrap_err(),
        "no HTTP status in response: \"hello\""
    );
    assert!(enough_read(&b"a\r\n".to_vec()));
    assert!(!enough_read(&b"a\r".to_vec()));
    assert!(enough_read(&vec![b'x'; 4097]));
    assert_eq!(connect_failed("h", 1, "no"), "connection to h:1 failed: no");
    assert_eq!(connect_timed_out("h", 1), "connection to h:1 timed out");
    assert_eq!(get_timed_out("h", 1, "/x"), "HTTP GET h:1/x timed out");
    assert_eq!(exec_not_started("x", "no"), "failed to start x: no");
}

#[test]
fn tables_map_names() {
    let mut t: Table<u32> = Table::new();
    t.insert("a", 1);
    t.insert("b", 2);
    t.insert("a", 3);
    assert_eq!(t.get("a"), Some(3));
    assert_eq!(t.names(), vec!["b", "a"]);
    t.remove("a");
    assert_eq!(t.get("a"), None);
}

#[test]
fn steps_end_with_the_first_failure() {
    let steps = vec![
        LiveUpdateStep::Sync {
            local: "src".to_string(),
            remote: "/app".to_string(),
        },
        LiveUpdateStep::Run {
            cmd: "make".to_string(),
            echo_off: false,
            triggers: strings(&["/never"]),
        },
        LiveUpdateStep::RestartContainer,
    ];
    let changed = strings(&["/src/x"]);
    let mut run = StepRun::live_update(&steps, "p", Some(&changed));
    let first = run.next().unwrap();
    assert_eq!(first.log, "  sync src -> /app\n");
    assert_eq!(
        first.command.unwrap().argv,
        vec!["kubectl", "cp", "src", "p:/app"]
    );
    assert_eq!(run.started("web:build:1").text, "Live update (no rebuild)\n");
    run.on_ended(Ok(true));
    let second = run.next().unwrap();
    assert_eq!(second.log, "  run skipped (trigger did not match): make\n");
    assert!(second.command.is_none());
    assert!(run.next().is_some());
    assert_eq!(run.error(), None);
    assert_eq!(run.ended("s").text, "Live update complete\n");
    run.on_ended(Ok(false));
    assert!(run.next().is_none());
    assert_eq!(run.error().as_deref(), Some("live_update step failed"));
    assert_eq!(run.ended("s").text, "Live update failed\n");
    assert_eq!(run.ended("s").level, Level::Error);

    let mut run = StepRun::initial_sync(&steps, "p");
    assert_eq!(run.next().unwrap().log, "  initial_sync src -> /app\n");
    assert_eq!(run.next().unwrap().log, "  initial_sync run make\n");
    assert!(run.next().is_none());
    let mut run = StepRun::initial_sync(&steps, "p");
    assert_eq!(run.started("web").text, "Initial sync started\n");
    assert_eq!(run.ended("web").text, "Initial sync complete\n");
    run.next();
    run.on_ended(Ok(false));
    assert!(run.next().is_none());
    assert_eq!(run.ended("web").text, "Initial sync step failed\n");
    let mut run = StepRun::initial_sync(&steps, "p");
    run.on_ended(Err("no kubectl".to_string()));
    assert_eq!(run.ended("web").text, "Initial sync failed: no kubectl\n");
}

#[test]
fn images_are_built_until_one_fails() {
    let mut m = Manifest::new("web", TargetKind::DockerCompose);
    m.docker_builds = vec![image("a"), image("b")];
    let mut run = ImagesRun::new();
    assert_eq!(run.next(&m), Some(0));
    run.on_image(&m, true);
    assert_eq!(run.next(&m), Some(1));
    run.on_image(&m, true);
    assert_eq!(run.next(&m), None);
    assert!(!run.failed);
    let mut run = ImagesRun::new();
    run.on_image(&m, false);
    assert_eq!(run.next(&m), None);
    assert!(run.failed);
}

#[test]
fn image_builds_go_step_by_step() {
    let mut db = image("web");
    db.extra_tags = strings(&["reg/web:1"]);
    let mut build = ImageBuild::new();
    assert!(matches!(build.action(&db), ImageAction::CallApi));
    build.on_built(&db, Ok(true));
    assert!(matches!(
        build.action(&db),
        ImageAction::Tag { repo, tag } if repo == "reg/web" && tag == "1"
    ));
    let line = build.on_tagged(&db, "s", Ok(())).unwrap();
    assert_eq!(line.text, "Tagged web as reg/web:1\n");
    assert!(matches!(build.action(&db), ImageAction::Inspect(i) if i == "web"));
    build.on_inspected(Some("sha256:1".to_string()));
    assert!(matches!(build.action(&db), ImageAction::Finish));
    let result = build.result().unwrap();
    assert_eq!(result.digest.as_deref(), Some("sha256:1"));

    let mut build = ImageBuild::new();
    build.on_built(&db, Ok(true));
    assert!(build.on_tagged(&db, "s", Err("no".to_string())).is_none());
    assert_eq!(
        build.result().unwrap_err(),
        "tagging image web as reg/web:1: no"
    );

    let mut custom = image("web:dev");
    custom.command = Some(command(&["./b.sh"]));
    custom.outputs_image_ref_to = Some("/o".to_string());
    let mut build = ImageBuild::new();
    assert!(matches!(build.action(&custom), ImageAction::RunCustom(c) if c.env.len() == 4));
    build.on_built(&custom, Ok(true));
    assert!(matches!(build.action(&custom), ImageAction::ReadOutput(p) if p == "/o"));
    let line = build.on_output(&custom, "s", "/o", Ok("web@sha256:2\n".to_string()));
    assert_eq!(line.unwrap().text, "custom_build output image ref: web@sha256:2\n");
    let result = build.result().unwrap();
    assert_eq!(result.output_ref.as_deref(), Some("web@sha256:2"));
    assert_eq!(result.digest.as_deref(), Some("sha256:2"));

    let mut build = ImageBuild::new();
    build.on_built(&custom, Ok(false));
    assert_eq!(build.result().unwrap_err(), "custom_build web:dev command failed");
    let mut build = ImageBuild::new();
    build.on_built(&custom, Ok(true));
    build.on_output(&custom, "s", "/o", Err("gone".to_string()));
    assert_eq!(
        build.result().unwrap_err(),
        "custom_build web:dev could not read outputs_image_ref_to /o: gone"
    );

    let mut secret = image("web");
    secret.secrets = strings(&["id=x"]);
    let mut build = ImageBuild::new();
    assert!(matches!(build.action(&secret), ImageAction::RunBuildKit));
    build.on_built(&secret, Ok(false));
    assert_eq!(build.result().unwrap_err(), "docker build web failed");
    assert!(can_tag("sha256:0123456789abcdef"));
    assert!(!can_tag("sha256:0123456789a\u{e9}"));
}

#[test]
fn only_changes_of_content_count() {
    assert!(is_content_event(FileEvent::Created));
    assert!(is_content_event(FileEvent::Modified));
    assert!(is_content_event(FileEvent::Removed));
    assert!(!is_content_event(FileEvent::Other));
}

#[test]
fn exec_probe_reflects_exit_status() {
    assert!(exec_outcome(true, "exit status: 0", &vec![]).is_ok());
    let err = exec_outcome(false, "exit status: 3", &b"nope\n".to_vec()).unwrap_err();
    assert!(err.contains("nope"), "stderr surfaced: {err}");
}

#[test]
fn mirrored_objects_are_read_as_they_were_written() {
    let forward = PortForwardSpec {
        host: "0.0.0.0".into(),
        local_port: 8080,
        container_port: 80,
        name: "ui".into(),
        link_path: "/health".into(),
    };
    let m = Manifest {
        k8s_port_forwards: vec![forward],
        live_update: vec![
            LiveUpdateStep::Run {
                cmd: "make".into(),
                echo_off: false,
                triggers: strings(&["src/x"]),
            },
            LiveUpdateStep::RestartContainer,
            LiveUpdateStep::Sync {
                local: "src".into(),
                remote: "/app".into(),
            },
            LiveUpdateStep::Sync {
                local: String::new(),
                remote: "/none".into(),
            },
        ],
        ..Manifest::new("web", TargetKind::Kubernetes)
    };
    let read = port_forward_specs_from_object(&port_forward_object(&m));
    assert_eq!(read.len(), 1);
    assert_eq!((read[0].local_port, read[0].container_port), (8080, 80));
    assert_eq!(read[0].host, "0.0.0.0");
    assert_eq!((read[0].name.as_str(), read[0].link_path.as_str()), ("ui", "/health"));

    let ops = live_update_ops(&live_update_object(&m));
    assert_eq!(ops.len(), 2);
    assert_eq!(op_command(&ops[0], "p"), vec!["cp", "src", "p:/app"]);
    assert_eq!(op_command(&ops[1], "p"), vec!["exec", "p", "--", "sh", "-c", "make"]);

    let mut api = ApiObjectStore::new();
    for disabled in [true, false] {
        let o = api.apply(
            "ConfigMap",
            "default",
            "web-disable",
            disable_config_map_object(disabled),
        );
        assert_eq!(
            disable_change_from_event(&ObjectEvent::Modified(o.clone())),
            Some(("web".to_string(), disabled))
        );
        assert_eq!(disable_change_from_event(&ObjectEvent::Deleted(o)), None);
    }
}

#[test]
fn pods_are_read_from_what_kubectl_prints() {
    let listed = br#"{"items": [{"metadata": {"name": "p1"}}, {"metadata": {"name": "p2"}}]}"#;
    let pods = pods_listed(&listed.to_vec()).unwrap();
    assert_eq!(pods.len(), 2);
    assert_eq!(pods[1].at("metadata").at("name").as_str(), Some("p2"));
    assert!(pods_listed(&b"{}".to_vec()).unwrap().is_empty());
    assert!(pods_listed(&br#"{"items": 3}"#.to_vec()).unwrap().is_empty());
    let error = pods_listed(&b"error: no such host".to_vec()).unwrap_err();
    assert!(error.starts_with("parsing pods: expected value"), "{error}");
    assert!(pods_listed(&vec![]).unwrap_err().starts_with("parsing pods: EOF"));
}
