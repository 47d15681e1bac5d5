use starling::daemon::client::{
    connect_error, daemon_args, is_running, reply_line, request_line, DaemonClient,
};
use starling::daemon::log_ring::{LogRing, LOG_RING};
use starling::daemon::protocol::{
    log_path, pid_path, port_file_path, socket_path, state_dir_in, ApiObjectSnapshot, Command,
    Request, ResourceSnapshot, Response,
};
use starling::daemon::state::{sanitize, Daemon, HostPorts, SearchStep};
use starling::json::Json;

fn test_daemon() -> Daemon {
    Daemon::new(1360, "localhost")
}

fn ports(preferred_free: bool, free: &[u16]) -> HostPorts {
    HostPorts {
        preferred_free,
        offers: free.iter().map(|p| Some(*p)).collect(),
    }
}

fn none() -> HostPorts {
    ports(false, &[])
}

#[test]
fn log_ring_serves_only_lines_newer_than_cursor() {
    let mut ring = LogRing::new();
    ring.append(vec!["a".to_string(), "b".to_string()]);

    let (lines, cursor) = ring.since(0);
    assert_eq!(lines, vec!["a", "b"]);
    assert_eq!(cursor, 2);

    ring.append(vec!["c".to_string()]);
    let (lines, cursor) = ring.since(cursor);
    assert_eq!(lines, vec!["c"]);
    assert_eq!(cursor, 3);
    assert_eq!(ring.since(cursor).0, Vec::<String>::new());
}

#[test]
fn log_ring_drops_oldest_but_keeps_sequence_stable() {
    let mut ring = LogRing::new();
    for i in 0..(LOG_RING + 10) {
        ring.append(vec![format!("line {i}")]);
    }
    assert_eq!(ring.len(), LOG_RING);
    assert_eq!(ring.end(), (LOG_RING + 10) as u64);
    assert_eq!(ring.start(), 10);
    let (lines, cursor) = ring.since(0);
    assert_eq!(lines.len(), LOG_RING);
    assert_eq!(lines[0], "line 10");
    assert_eq!(cursor, (LOG_RING + 10) as u64);
}

#[test]
fn reserves_preferred_port_when_available() {
    let mut daemon = test_daemon();
    let reservation = daemon.reserve_port("inst", Some(4100), &ports(true, &[])).unwrap();
    assert_eq!(reservation.port, 4100);
    assert_eq!(reservation.preferred, Some(4100));
    assert!(!reservation.conflict);
}

#[test]
fn falls_back_when_preferred_port_is_leased() {
    let mut daemon = test_daemon();
    let first = daemon.reserve_port("inst-a", Some(4100), &ports(true, &[])).unwrap();
    let fallback = daemon
        .reserve_port("inst-b", Some(first.port), &ports(true, &[first.port, 4101]))
        .unwrap();
    assert_ne!(fallback.port, first.port);
    assert_eq!(fallback.preferred, Some(first.port));
    assert!(fallback.conflict);
}

#[test]
fn falls_back_when_preferred_port_is_bound_elsewhere() {
    let mut daemon = test_daemon();
    let fallback = daemon.reserve_port("inst", Some(4100), &ports(false, &[4102])).unwrap();
    assert_ne!(fallback.port, 4100);
    assert_eq!(fallback.preferred, Some(4100));
    assert!(fallback.conflict);
    assert!(daemon.reserve_port("inst", None, &ports(false, &[4102])).is_none());
}

fn handle(daemon: &mut Daemon, req: Request) -> Response {
    daemon.handle(req, 1000, &none(), false).response
}

#[test]
fn removing_route_releases_its_port() {
    let mut daemon = test_daemon();
    let port = daemon.reserve_port("inst", None, &ports(false, &[4100])).unwrap().port;
    let hostname = "web.localhost".to_string();

    assert_eq!(
        handle(
            &mut daemon,
            Request::RegisterRoute {
                instance: "inst".to_string(),
                hostname: hostname.clone(),
                port,
            }
        ),
        Response::Done
    );
    assert!(daemon.is_leased(port));
    assert_eq!(daemon.lookup("web.localhost"), Some(port));

    assert_eq!(handle(&mut daemon, Request::RemoveRoute { hostname }), Response::Done);
    assert!(!daemon.is_leased(port));
    assert_eq!(daemon.lookup("web.localhost"), None);
}

#[test]
fn release_port_releases_matching_instance_lease() {
    let mut daemon = test_daemon();
    let port = daemon.reserve_port("inst", None, &ports(false, &[4100])).unwrap().port;
    assert_eq!(
        handle(
            &mut daemon,
            Request::ReleasePort {
                instance: "other".to_string(),
                port,
            }
        ),
        Response::Done
    );
    assert!(daemon.is_leased(port));
    assert_eq!(
        handle(
            &mut daemon,
            Request::ReleasePort {
                instance: "inst".to_string(),
                port,
            }
        ),
        Response::Done
    );
    assert!(!daemon.is_leased(port));
}

fn register(daemon: &mut Daemon, name: &str, dir: &str) -> String {
    match handle(
        daemon,
        Request::Register {
            name: name.to_string(),
            dir: dir.to_string(),
            pid: 42,
        },
    ) {
        Response::Registered { instance } => instance,
        other => panic!("not registered: {other:?}"),
    }
}

#[test]
fn commands_are_queued_and_polled_once() {
    let mut daemon = test_daemon();
    let id = register(&mut daemon, "shop", "/shop");
    assert_eq!(
        handle(
            &mut daemon,
            Request::Trigger {
                instance: id.clone(),
                resource: "web".to_string(),
            }
        ),
        Response::Done
    );
    assert_eq!(
        handle(
            &mut daemon,
            Request::SetTiltfileArgs {
                instance: id.clone(),
                args: vec!["--foo".to_string(), "bar".to_string()],
            }
        ),
        Response::Done
    );
    let polled = handle(&mut daemon, Request::PollCommands { instance: id.clone() });
    assert_eq!(
        polled,
        Response::Commands(vec![
            Command::Trigger {
                resource: "web".to_string()
            },
            Command::SetTiltfileArgs {
                args: vec!["--foo".to_string(), "bar".to_string()]
            },
        ])
    );
    assert_eq!(
        handle(&mut daemon, Request::PollCommands { instance: id }),
        Response::Commands(vec![])
    );
    assert!(matches!(
        handle(
            &mut daemon,
            Request::Restart {
                instance: "nobody".to_string(),
                resource: "web".to_string(),
            }
        ),
        Response::Error(_)
    ));
}

#[test]
fn updates_are_shown_and_logged() {
    let mut daemon = test_daemon();
    let id = register(&mut daemon, "shop", "/shop");
    let update = Request::Update {
        instance: id.clone(),
        resources: vec![ResourceSnapshot {
            name: "web".to_string(),
            ..Default::default()
        }],
        logs: vec![("web".to_string(), vec!["hello".to_string()])],
        objects: vec![ApiObjectSnapshot {
            kind: "Cmd".to_string(),
            name: "web".to_string(),
            object: Json::table(),
        }],
        api_addr: Some("127.0.0.1:9".to_string()),
    };
    assert_eq!(handle(&mut daemon, update), Response::Done);
    match handle(&mut daemon, Request::GetState) {
        Response::State(s) => {
            assert_eq!(s.instances.len(), 1);
            assert_eq!(s.instances[0].resources[0].name, "web");
            assert_eq!(s.instances[0].api_addr.as_deref(), Some("127.0.0.1:9"));
            assert_eq!(s.proxy_port, 1360);
            assert_eq!(s.tld, "localhost");
        }
        other => panic!("no state: {other:?}"),
    }
    match handle(
        &mut daemon,
        Request::GetLogs {
            instance: id,
            resource: "web".to_string(),
            since: 0,
        },
    ) {
        Response::Logs { lines, cursor } => {
            assert_eq!(lines, vec!["hello"]);
            assert_eq!(cursor, 1);
        }
        other => panic!("no logs: {other:?}"),
    }
    match handle(
        &mut daemon,
        Request::GetObjects {
            kind: Some("cmd".to_string()),
        },
    ) {
        Response::Objects(o) => assert!(o.len() <= 1),
        other => panic!("no objects: {other:?}"),
    }
}

#[test]
fn deregistering_takes_everything_with_it() {
    let mut daemon = test_daemon();
    let id = register(&mut daemon, "shop", "/shop");
    daemon.reserve_port(&id, Some(4100), &ports(true, &[])).unwrap();
    handle(
        &mut daemon,
        Request::RegisterRoute {
            instance: id.clone(),
            hostname: "web.localhost".to_string(),
            port: 4100,
        },
    );
    handle(&mut daemon, Request::Deregister { instance: id });
    assert!(!daemon.is_leased(4100));
    assert_eq!(daemon.lookup("web.localhost"), None);
    match handle(&mut daemon, Request::GetState) {
        Response::State(s) => assert!(s.instances.is_empty() && s.routes.is_empty()),
        other => panic!("no state: {other:?}"),
    }
}

#[test]
fn shutdowns_are_queued_for_the_project() {
    let mut daemon = test_daemon();
    let shop = register(&mut daemon, "shop", "/shop");
    register(&mut daemon, "blog", "/blog");
    match handle(
        &mut daemon,
        Request::ShutdownProject {
            dir: "/shop".to_string(),
        },
    ) {
        Response::ShutdownQueued { instances } => {
            assert_eq!(instances.len(), 1);
            assert_eq!(instances[0].id, shop);
        }
        other => panic!("not queued: {other:?}"),
    }
    assert_eq!(
        handle(&mut daemon, Request::PollCommands { instance: shop }),
        Response::Commands(vec![Command::Shutdown])
    );
    match handle(&mut daemon, Request::ShutdownDaemon) {
        Response::ShutdownQueued { instances } => assert_eq!(instances.len(), 2),
        other => panic!("not queued: {other:?}"),
    }
}

#[test]
fn a_ping_is_answered() {
    let mut daemon = test_daemon();
    assert_eq!(handle(&mut daemon, Request::Ping), Response::Done);
    assert!(is_running(&Ok(Response::Done)));
    assert!(!is_running(&Ok(Response::Port { port: 1 })));
    assert!(!is_running(&Err("gone".to_string())));
}

#[test]
fn names_are_made_fit_for_ids() {
    assert_eq!(sanitize("--My App--"), "My-App");
    assert_eq!(sanitize("***"), "app");
}

#[test]
fn the_daemons_files_are_in_one_directory() {
    assert_eq!(state_dir_in(Some("/home/me")), "/home/me/.starling");
    assert_eq!(state_dir_in(None), "./.starling");
    assert!(socket_path().ends_with("/.starling/daemon.sock"));
    assert!(port_file_path().ends_with("/.starling/daemon.port"));
    assert!(pid_path().ends_with("/.starling/daemon.pid"));
    assert!(log_path().ends_with("/.starling/daemon.log"));
    assert_eq!(DaemonClient::new().sock(), socket_path());
}

#[test]
fn requests_and_replies_are_lines() {
    assert_eq!(request_line("\"Ping\""), "\"Ping\"\n");
    assert_eq!(reply_line("\"Ok\"\n").unwrap(), "\"Ok\"\n");
    assert_eq!(reply_line(" \n").unwrap_err(), "empty response from daemon");
    assert_eq!(connect_error("/s", "refused"), "connecting to daemon at /s: refused");
    assert_eq!(
        daemon_args(1360, "localhost", "0.0.0.0", true, true),
        vec![
            "daemon", "--proxy-port", "1360", "--tld", "localhost", "--host", "0.0.0.0", "--tls",
            "--lan"
        ]
    );
    assert_eq!(daemon_args(1, "t", "h", false, false).len(), 7);
}

#[test]
fn instances_that_fell_silent_are_forgotten() {
    let mut daemon = test_daemon();
    let quiet = register(&mut daemon, "quiet", "/q");
    let loud = register(&mut daemon, "loud", "/l");
    daemon.register_route(&quiet, "quiet.localhost", 4001);
    daemon.register_route(&loud, "loud.localhost", 4002);
    daemon.poll_commands(&loud, 10_001);
    daemon.prune(11_000);
    assert_eq!(daemon.lookup("quiet.localhost"), Some(4001));
    daemon.prune(11_001);
    assert_eq!(daemon.lookup("quiet.localhost"), None);
    assert_eq!(daemon.lookup("loud.localhost"), Some(4002));
    assert!(!daemon.is_leased(4001));
    assert!(daemon.is_leased(4002));
    let state = daemon.get_state(11_001);
    assert_eq!(state.instances.len(), 1);
    assert_eq!(state.instances[0].id, loud);
}

#[test]
fn requests_fit_while_the_counters_last() {
    let daemon = test_daemon();
    assert!(daemon.fits(&Request::Ping));
    assert!(daemon.fits(&Request::Register {
        name: "web".to_string(),
        dir: "/w".to_string(),
        pid: 1,
    }));
    assert!(daemon.fits(&Request::Update {
        instance: "web-1".to_string(),
        resources: vec![],
        logs: vec![("web".to_string(), vec!["line".to_string()])],
        objects: vec![],
        api_addr: None,
    }));
}

#[test]
fn the_daemon_asks_for_ports_until_one_is_free() {
    let mut daemon = test_daemon();
    daemon.reserve_port("inst", None, &ports(false, &[4100])).unwrap();
    assert_eq!(daemon.search_step(None, &none()), SearchStep::Ask);
    assert_eq!(daemon.search_step(None, &ports(false, &[4100])), SearchStep::Ask);
    assert_eq!(daemon.search_step(None, &ports(false, &[4100, 4101])), SearchStep::Settle);
    assert_eq!(daemon.search_step(None, &ports(false, &[4100; 49])), SearchStep::Ask);
    assert_eq!(daemon.search_step(None, &ports(false, &[4100; 50])), SearchStep::Settle);
    let mut late = ports(false, &[4100; 50]);
    late.offers.push(Some(4102));
    assert!(daemon.reserve_port("inst", None, &late).is_none());
}
