use starling::api::store::ApiObjectStore;
use starling::api::v1alpha1::{ObjectMeta, UIResource};
use starling::cli::control::{
    all_gone, args_set, command_reply, count_text, daemon_action, hosts_block, project_dir,
    project_instances, project_name,
    resolve_config, resource_done, resource_request, stopping_project, swept, CommandReply,
    DaemonAction, ResourceAction,
};
use starling::cli::objects::{
    api_request, api_response, describe_object, dump_objects, explain, first_write,
    instance_api_addrs, json_path_str, next_write, object_kind_name, parse_api_documents,
    print_kinds, print_objects, report_write, resolve_kind, wait_condition, wait_met,
    wait_timed_out,
};
use starling::cli::poll::{
    poll_step, PollStep, DAEMON_START_TRIES, DAEMON_STOP_TRIES, PROJECT_STOP_TRIES,
};
use starling::cli::processes::{
    can_shorten, descendants_of, orphaned_starling_kubectl, parse_ps_row, plan_sweep, process_table,
    short_cmd, starling_root_pids,
};
use starling::cli::report::{
    diagnose, diagnose_machine, dump_state, empty_dash, log_targets, print_logs, print_status,
    proxy_condition_label, proxy_route_label, status_json, tail_lines, LogOutput, RouteCheck,
};
use starling::cli::service::{
    daemon_service_plist, launch_agent_path, launchd_domain, launchd_target, service_status,
    xml_escape,
};
use starling::cli::skills::{
    installed_line, may_install, skill_file, skill_install_dir, skill_target_name, skill_targets,
    starling_skill_markdown, SkillScope, SkillTarget,
};
use starling::cli::up::{
    alias_line, api_bind, config_failed, config_logs, instance_step, local_proxy, mirror_objects,
    proxy_mode, stop_steps, update_request, InstanceStep, ProxyMode, StopStep,
};
use starling::daemon::protocol::{
    ApiObjectSnapshot, Command, DashboardState, InstanceState, Request, ResourceSnapshot, Response,
    RouteInfo,
};
use starling::health::ProxyHealth;
use starling::json::Json;
use starling::trees::parse_json;

fn json(text: &str) -> Json {
    parse_json(text).expect("valid JSON")
}

#[test]
fn clean_identifies_starling_roots_and_subtrees() {
    let table = vec![
        (1u32, 0u32, "/sbin/launchd".to_string()),
        (
            200,
            1,
            "/Users/me/.cargo/bin/starling daemon --proxy-port 1360".to_string(),
        ),
        (201, 200, "starling".to_string()),
        (300, 1, "starling up --no-proxy".to_string()),
        (
            310,
            300,
            "kubectl port-forward -n agent-builder pod/x 50051:50051 --address 127.0.0.1"
                .to_string(),
        ),
        (
            311,
            300,
            "kubectl logs -n agent-builder -f --all-containers --tail 20 x".to_string(),
        ),
        (999, 1, "kubectl get pods".to_string()),
    ];
    let mut roots = starling_root_pids(&table, 0);
    roots.sort();
    assert_eq!(roots, vec![200, 201, 300]);
    assert!(!starling_root_pids(&table, 200).contains(&200));
    let mut desc = descendants_of(&vec![300], &table);
    desc.sort();
    assert_eq!(desc, vec![310, 311]);
    assert!(!roots.contains(&999));
    assert!(!descendants_of(&roots, &table).contains(&999));
}

#[test]
fn clean_reaps_only_starling_shaped_kubectl_orphans() {
    let table = vec![
        (
            310u32,
            1u32,
            "kubectl port-forward -n ns pod/x 8080:8080 --address 127.0.0.1".to_string(),
        ),
        (
            311,
            1,
            "kubectl logs -n ns -f --all-containers --tail 20 x".to_string(),
        ),
        (999, 1, "kubectl get pods -A".to_string()),
        (
            320,
            300,
            "kubectl port-forward -n ns pod/y 9090:9090 --address 127.0.0.1".to_string(),
        ),
    ];
    let mut orphans: Vec<u32> = orphaned_starling_kubectl(&table)
        .into_iter()
        .map(|(pid, _)| pid)
        .collect();
    orphans.sort();
    assert_eq!(orphans, vec![310, 311]);
}

#[test]
fn parses_ps_rows() {
    assert_eq!(
        parse_ps_row("  200   1 starling daemon --proxy-port 1360"),
        Some((200, 1, "starling daemon --proxy-port 1360".to_string()))
    );
    assert_eq!(parse_ps_row("123"), None);
}

#[test]
fn descendants_leave_the_roots_out_and_follow_their_parents() {
    let table = process_table("1 0 init\n10 1 starling up\n11 10 sh\nbroken\n12 11 node\n13 11 sleep\n20 10 starling\n21 20 x\n10 12 loop\n");
    assert_eq!(table.len(), 8);
    let roots = starling_root_pids(&table, 0);
    assert_eq!(roots, vec![10, 20]);
    assert_eq!(descendants_of(&roots, &table), vec![11, 21, 12, 13]);
    let sweep = plan_sweep(&table, 13);
    assert_eq!(sweep.targets, vec![12, 21, 11, 10, 20]);
    assert!(sweep.reaped.is_empty());
}

#[test]
fn sweeps_reap_orphans_once() {
    let forward = "kubectl port-forward pod/x 1:1 --address 127.0.0.1";
    let table = vec![
        (5u32, 1u32, forward.to_string()),
        (6, 1, "starling up".to_string()),
        (7, 6, forward.to_string()),
    ];
    let sweep = plan_sweep(&table, 99);
    assert_eq!(sweep.targets, vec![7, 6, 5]);
    assert_eq!(sweep.reaped, vec![(5, forward.to_string())]);
}

#[test]
fn long_commands_are_cut() {
    let short = "x".repeat(80);
    assert_eq!(short_cmd(&short), short);
    let long = "y".repeat(81);
    assert!(can_shorten(&long));
    assert_eq!(short_cmd(&long), format!("{}…", "y".repeat(80)));
    let awkward = format!("{}é{}", "z".repeat(79), "z".repeat(9));
    assert!(!can_shorten(&awkward));
}

#[test]
fn parse_api_documents_handles_multidoc_and_kind_name() {
    let raw = "apiVersion: tilt.dev/v1alpha1\nkind: FileWatch\nmetadata:\n  name: web\nspec:\n  watchedPaths: [\"./src\"]\n---\nkind: Cmd\nmetadata:\n  name: build\n";
    let docs = parse_api_documents(raw).unwrap();
    assert_eq!(docs.len(), 2);
    assert_eq!(
        object_kind_name(&docs[0]).unwrap(),
        ("FileWatch".into(), "web".into())
    );
    assert_eq!(
        object_kind_name(&docs[1]).unwrap(),
        ("Cmd".into(), "build".into())
    );
    let one = parse_api_documents("{\"kind\":\"Cmd\",\"metadata\":{\"name\":\"x\"}}").unwrap();
    assert_eq!(
        object_kind_name(&one[0]).unwrap(),
        ("Cmd".into(), "x".into())
    );
    assert!(object_kind_name(&json(r#"{"metadata": {"name": "a"}}"#)).is_err());
}

#[test]
fn documents_that_are_none_are_errors_or_left_out() {
    assert!(parse_api_documents("---\n---\n").unwrap().is_empty());
    let err = parse_api_documents("kind: Cmd\n---\na: [\n").unwrap_err();
    assert!(err.starts_with("parse: "), "{err}");
    assert_eq!(
        object_kind_name(&json(r#"{"kind": "Cmd"}"#)).unwrap_err(),
        "Cmd object missing metadata.name"
    );
    assert_eq!(object_kind_name(&json("{}")).unwrap_err(), "object missing 'kind'");
}

#[test]
fn json_path_str_navigates_and_stringifies() {
    let obj = json(r#"{"status": {"error": "", "readyPods": 2}}"#);
    assert_eq!(json_path_str(&obj, "status.error").as_deref(), Some(""));
    assert_eq!(
        json_path_str(&obj, "status.readyPods").as_deref(),
        Some("2")
    );
    assert_eq!(json_path_str(&obj, "status.missing"), None);
}

#[test]
fn values_on_a_path_are_written_as_json() {
    let obj = json(r#"{"a": {"b": [1, -2, 1.5, null, true, "x\n"], "c": {"d": 1e300}}}"#);
    assert_eq!(
        json_path_str(&obj, "a.b").as_deref(),
        Some(r#"[1,-2,1.5,null,true,"x\n"]"#)
    );
    assert_eq!(json_path_str(&obj, "a.c").as_deref(), Some(r#"{"d":1e+300}"#));
    assert_eq!(json_path_str(&obj, "a.b.0"), None);
}

#[test]
fn writes_are_reported() {
    assert_eq!(report_write(201, "Cmd", "x", "created").unwrap(), "Cmd/x created");
    assert_eq!(report_write(200, "Cmd", "x", "patched").unwrap(), "Cmd/x patched");
    assert_eq!(report_write(409, "Cmd", "x", "created").unwrap_err(), "Cmd/x already exists");
    assert_eq!(report_write(404, "Cmd", "x", "deleted").unwrap_err(), "Cmd/x not found");
    assert_eq!(report_write(400, "Cmd", "x", "created").unwrap_err(), "Cmd/x: bad request");
    assert_eq!(
        report_write(500, "Cmd", "x", "created").unwrap_err(),
        "Cmd/x: unexpected status 500"
    );
    let put = first_write(false, "Cmd", "x");
    assert_eq!((put.method, put.path.as_str(), put.verb), ("PUT", "/api/v1alpha1/Cmd/x", "configured"));
    let post = next_write(false, "Cmd", 404).unwrap();
    assert_eq!((post.method, post.path.as_str(), post.verb), ("POST", "/api/v1alpha1/Cmd", "created"));
    assert!(next_write(false, "Cmd", 200).is_none());
    assert_eq!(first_write(true, "Cmd", "x").method, "POST");
    assert!(next_write(true, "Cmd", 404).is_none());
}

#[test]
fn api_requests_and_responses() {
    assert_eq!(
        api_request("127.0.0.1:1", "GET", "/x", None),
        "GET /x HTTP/1.1\r\nHost: 127.0.0.1:1\r\nConnection: close\r\n\r\n"
    );
    assert_eq!(
        api_request("h", "PATCH", "/x", Some(&json(r#"{"a": "é"}"#))),
        "PATCH /x HTTP/1.1\r\nHost: h\r\nConnection: close\r\nContent-Type: application/json\r\nContent-Length: 10\r\n\r\n{\"a\":\"é\"}"
    );
    let ok = b"HTTP/1.1 201 Created\r\nA: b\r\n\r\n {\"k\": 1} ".to_vec();
    assert_eq!(api_response("h", &ok).unwrap(), (201, json(r#"{"k": 1}"#)));
    assert_eq!(
        api_response("h", &b"HTTP/1.1 404 Not Found\r\n\r\nno such\n".to_vec()).unwrap(),
        (404, Json::Null)
    );
    assert_eq!(api_response("h", &b"HTTP/1.1 204 None".to_vec()).unwrap(), (204, Json::Null));
    assert_eq!(
        api_response("h", &b"".to_vec()).unwrap_err(),
        "malformed HTTP response from h"
    );
}

#[test]
fn waiting_ends_when_the_field_has_the_value() {
    assert_eq!(
        wait_condition(" status.error = x=y "),
        ("status.error".to_string(), "x=y".to_string())
    );
    assert_eq!(wait_condition(" f "), ("f".to_string(), String::new()));
    let body = json(r#"{"status": {"error": "", "ready": true}}"#);
    assert_eq!(wait_met("Cmd", "x", 200, &body, "", "").as_deref(), Some("Cmd/x exists"));
    assert_eq!(
        wait_met("Cmd", "x", 200, &body, "status.ready", "true").as_deref(),
        Some("Cmd/x status.ready=true")
    );
    assert_eq!(wait_met("Cmd", "x", 404, &body, "", ""), None);
    assert_eq!(wait_met("Cmd", "x", 200, &body, "status.ready", "false"), None);
    assert_eq!(
        wait_met("Cmd", "x", 200, &body, "status.gone", "").as_deref(),
        Some("Cmd/x status.gone=")
    );
    assert_eq!(
        wait_timed_out("Cmd", "x", "a=b", 5),
        "timed out after 5s waiting for Cmd/x a=b"
    );
}

fn object(kind: &str, name: &str, text: &str) -> ApiObjectSnapshot {
    ApiObjectSnapshot {
        kind: kind.to_string(),
        name: name.to_string(),
        object: json(text),
    }
}

#[test]
fn objects_are_listed_and_described() {
    let objects = vec![
        object("Cmd", "web", r#"{"metadata": {"uid": "uid-1", "resourceVersion": "3"}, "spec": {"a": 1}}"#),
        object("Cmd", "api", "{}"),
    ];
    assert_eq!(print_kinds(&objects), vec!["Available kinds:", "  Cmd"]);
    assert_eq!(
        print_kinds(&vec![]),
        vec!["No API objects found (is an instance running?)"]
    );
    assert_eq!(
        print_objects("Cmd", None, &objects, false).unwrap(),
        vec![
            format!("{:<28} {}", "NAME", "KIND"),
            format!("{:<28} {}", "web", "Cmd"),
            format!("{:<28} {}", "api", "Cmd"),
        ]
    );
    assert_eq!(
        print_objects("Cmd", Some("api"), &objects, true).unwrap(),
        vec!["{}".to_string()]
    );
    assert_eq!(
        print_objects("Cmd", Some("no"), &objects, true).unwrap_err(),
        "Cmd \"no\" not found"
    );
    assert_eq!(
        print_objects("Cmd", None, &vec![], false).unwrap(),
        vec!["No Cmd objects found"]
    );
    assert_eq!(
        describe_object("Cmd", "web", &objects).unwrap(),
        vec![
            "Name:    web",
            "Kind:    Cmd",
            "UID:     uid-1",
            "Version: 3",
            "Spec:\n{\n  \"a\": 1\n}",
        ]
    );
    assert_eq!(
        describe_object("Cmd", "x", &objects).unwrap_err(),
        "Cmd \"x\" not found"
    );
    assert_eq!(dump_objects(&vec![object("Cmd", "a", "{}")]), "[\n  {}\n]");
}

#[test]
fn kinds_are_explained() {
    assert_eq!(resolve_kind("kubernetesAPPLY"), Some("KubernetesApply"));
    assert_eq!(resolve_kind("nope"), None);
    let all = explain(None).unwrap();
    assert_eq!(all[0], "Object kinds (use `starling explain <kind>`):");
    assert!(all.contains(&"  Cmd".to_string()));
    assert_eq!(
        explain(Some("kubernetesdiscovery")).unwrap(),
        vec!["KubernetesDiscovery (tilt.dev/v1alpha1)", "spec fields:", "  selectors"]
    );
    assert_eq!(
        explain(Some("No\"pe")).unwrap_err(),
        "unknown kind \"No\\\"pe\" (try `starling explain` to list kinds)"
    );
}

fn instance(id: &str, name: &str, dir: &str, resources: Vec<ResourceSnapshot>) -> InstanceState {
    InstanceState {
        id: id.to_string(),
        name: name.to_string(),
        dir: dir.to_string(),
        pid: 7,
        resources,
        objects: vec![],
        api_addr: None,
    }
}

fn resource(name: &str, update: &str) -> ResourceSnapshot {
    ResourceSnapshot {
        name: name.to_string(),
        kind: "local".to_string(),
        update_status: update.to_string(),
        ..Default::default()
    }
}

fn state(instances: Vec<InstanceState>, routes: Vec<RouteInfo>) -> DashboardState {
    DashboardState {
        instances,
        routes,
        proxy_port: 1360,
        tld: "localhost".to_string(),
    }
}

fn route(hostname: &str, port: u16) -> RouteInfo {
    RouteInfo {
        hostname: hostname.to_string(),
        port,
        instance: "i1".to_string(),
    }
}

#[test]
fn api_addresses_are_those_of_the_project() {
    let mut a = instance("i1", "shop", "/shop", vec![]);
    a.api_addr = Some("127.0.0.1:1".to_string());
    let mut b = instance("i2", "blog", "/blog", vec![]);
    b.api_addr = Some("127.0.0.1:2".to_string());
    let s = state(vec![a, b, instance("i3", "shop", "/shop", vec![])], vec![]);
    assert_eq!(instance_api_addrs(&s, "/shop").unwrap(), vec!["127.0.0.1:1"]);
    assert_eq!(
        instance_api_addrs(&s, "/x").unwrap_err(),
        "no running Starling instance with an API server found for /x"
    );
    assert_eq!(project_instances(&s, "/shop").unwrap(), vec!["i1", "i3"]);
    assert_eq!(
        project_instances(&s, "/x").unwrap_err(),
        "no running Starling instance found for /x"
    );
    assert!(all_gone(&vec!["i9".to_string()], &s));
    assert!(!all_gone(&vec!["i9".to_string(), "i2".to_string()], &s));
}

#[test]
fn status_shows_instances_and_routes() {
    let empty = state(vec![], vec![]);
    assert_eq!(
        print_status(&empty, &vec![]),
        vec![
            "Daemon: proxy :1360  tld localhost",
            "No running instances.",
            "\nRoutes:",
            "  No routes.",
        ]
    );
    let mut web = resource("web", "");
    web.paused = true;
    web.proxy_status = Some("True".to_string());
    let s = state(
        vec![instance("i1", "shop", "/shop", vec![web]), instance("i2", "b", "/b", vec![])],
        vec![route("web.localhost", 4000), route("api.localhost", 4001)],
    );
    let checks = vec![RouteCheck {
        hostname: "web.localhost".to_string(),
        open: false,
        health: ProxyHealth {
            ok: false,
            status: Some(502),
            reason: "HTTP502".to_string(),
            message: "down".to_string(),
        },
    }];
    assert_eq!(
        print_status(&s, &checks),
        vec![
            "Daemon: proxy :1360  tld localhost".to_string(),
            "\nInstance i1  name=shop  pid=7  dir=/shop".to_string(),
            format!(
                "  {:<28} {:<10} {:<8} {:<12} {:<14} {:<8} {}",
                "RESOURCE", "KIND", "STATE", "UPDATE", "RUNTIME", "PROXY", "URL"
            ),
            format!(
                "  {:<28} {:<10} {:<8} {:<12} {:<14} {:<8} {}",
                "web", "local", "paused", "-", "-", "ok", "-"
            ),
            "\nInstance i2  name=b  pid=7  dir=/b".to_string(),
            "  No resources.".to_string(),
            "\nRoutes:".to_string(),
            format!(
                "  {:<40} -> 127.0.0.1:{:<5} backend={:<11} proxy={:<9} instance={}",
                "web.localhost", 4000, "closed", "bad(502)", "i1"
            ),
            "    proxy: down".to_string(),
            format!(
                "  {:<40} -> 127.0.0.1:{:<5} backend={:<11} proxy={:<9} instance={}",
                "api.localhost", 4001, "not checked", "not checked", "i1"
            ),
        ]
    );
    let shown = json(&status_json(&s, &checks));
    let routes = shown.at("routes").as_list().unwrap();
    assert_eq!(routes[0].at("reachable"), &Json::Bool(false));
    assert_eq!(routes[0].at("proxy_status"), &Json::Pos(502));
    assert_eq!(routes[0].at("proxy_message").as_str(), Some("down"));
    assert_eq!(routes[1].at("reachable"), &Json::Null);
    let first = &shown.at("instances").as_list().unwrap()[0];
    assert_eq!(first.at("pid"), &Json::Pos(7));
    let shown_web = &first.at("resources").as_list().unwrap()[0];
    assert_eq!(shown_web.at("paused"), &Json::Bool(true));
    assert_eq!(shown_web.at("pod"), &Json::Null);
    let dumped = json(&dump_state(&s));
    assert_eq!(dumped.at("proxyPort"), &Json::Pos(1360));
    assert_eq!(dumped.at("routes").as_list().unwrap()[1].at("port"), &Json::Pos(4001));
}

#[test]
fn labels_of_health() {
    let health = |ok: bool, status: Option<u16>| ProxyHealth {
        ok,
        status,
        reason: String::new(),
        message: String::new(),
    };
    assert_eq!(proxy_route_label(&health(true, Some(200))), "ok(200)");
    assert_eq!(proxy_route_label(&health(false, Some(502))), "bad(502)");
    assert_eq!(proxy_route_label(&health(false, None)), "failed");
    assert_eq!(proxy_route_label(&health(true, None)), "ok");
    assert_eq!(proxy_condition_label(Some("True")), "ok");
    assert_eq!(proxy_condition_label(Some("False")), "failed");
    assert_eq!(proxy_condition_label(Some("Unknown")), "Unknown");
    assert_eq!(proxy_condition_label(None), "-");
    assert_eq!(empty_dash(""), "-");
    assert_eq!(empty_dash("x"), "x");
}

#[test]
fn logs_are_chosen_and_printed() {
    let s = state(
        vec![
            instance("i1", "shop", "/shop", vec![resource("web", "ok"), resource("api", "ok")]),
            instance("i2", "blog", "/blog", vec![resource("web", "ok")]),
        ],
        vec![],
    );
    let by_name = log_targets(&s, Some("blog"), None).unwrap();
    assert_eq!(by_name, vec![("i2".to_string(), "blog".to_string(), "web".to_string())]);
    assert_eq!(log_targets(&s, None, Some("web")).unwrap().len(), 2);
    assert_eq!(log_targets(&s, Some("i1"), Some("api")).unwrap().len(), 1);
    assert_eq!(
        log_targets(&s, None, Some("db")).unwrap_err(),
        "no matching resources; run `starling status` to list resources"
    );
    let lines = vec!["a".to_string(), "b".to_string(), "c".to_string()];
    assert_eq!(tail_lines(lines.clone(), 2), vec!["b", "c"]);
    assert_eq!(tail_lines(lines.clone(), 9), lines);
    let out = |resource: &str| LogOutput {
        instance: "i1".to_string(),
        instance_name: "shop".to_string(),
        resource: resource.to_string(),
        lines: vec!["a".to_string()],
    };
    assert_eq!(print_logs(&vec![out("web")], false), vec!["a"]);
    assert_eq!(
        print_logs(&vec![out("web"), out("api")], false),
        vec!["== shop/web (i1) ==", "a", "", "== shop/api (i1) ==", "a", ""]
    );
    let shown = json(&print_logs(&vec![out("web")], true)[0]);
    assert_eq!(
        shown,
        json(r#"[{"instance": "i1", "instance_name": "shop", "resource": "web", "lines": ["a"]}]"#)
    );
}

#[test]
fn a_diagnosis_counts_problems() {
    let s = state(
        vec![instance("i1", "shop", "/shop", vec![resource("web", "error"), resource("api", "ok")])],
        vec![route("a", 1)],
    );
    assert_eq!(
        diagnose(&s),
        vec![
            "daemon:   running (proxy :1360  tld localhost)",
            "instances: 1  routes: 1",
            "  [error] shop / web (update=error, runtime=)",
            "health:   1 resource(s) in error",
        ]
    );
    assert_eq!(diagnose(&state(vec![], vec![]))[2], "health:   all resources healthy");
    assert_eq!(
        diagnose_machine("0.1.0", "linux", "x86_64", true, false),
        vec![
            "starling 0.1.0",
            "os/arch:  linux/x86_64",
            "kubectl:  found",
            "docker:   not found",
        ]
    );
}

#[test]
fn commands_for_resources() {
    assert!(matches!(
        resource_request(ResourceAction::Trigger, "i1", "web"),
        Request::Trigger { instance, resource } if instance == "i1" && resource == "web"
    ));
    assert!(matches!(
        resource_request(ResourceAction::Enable, "i1", "web"),
        Request::SetPaused { paused: false, .. }
    ));
    assert!(matches!(
        resource_request(ResourceAction::Disable, "i1", "web"),
        Request::SetPaused { paused: true, .. }
    ));
    assert_eq!(resource_done(ResourceAction::Disable, "web"), "Disabled web");
    assert_eq!(command_reply(&Response::Done), CommandReply::Taken);
    assert_eq!(
        command_reply(&Response::Error("no".to_string())),
        CommandReply::Refused("no".to_string())
    );
    assert_eq!(command_reply(&Response::Port { port: 1 }), CommandReply::Unexpected);
    assert_eq!(args_set(&vec![]), "Cleared Tiltfile args; reloading.");
    assert_eq!(
        args_set(&vec!["--a".to_string(), "b\"".to_string()]),
        "Set Tiltfile args to [\"--a\", \"b\\\"\"]; reloading."
    );
}

#[test]
fn commands_for_an_instance() {
    let known = vec!["web".to_string()];
    let paused = Command::SetPaused {
        resource: "web".to_string(),
        paused: true,
    };
    match instance_step(&paused, &known) {
        InstanceStep::SetPaused { resource, paused, log } => {
            assert_eq!(resource, "web");
            assert!(paused);
            assert_eq!(log.text, "Paused via dashboard\n");
        }
        other => panic!("unexpected step: {other:?}"),
    }
    let unknown = Command::SetPaused {
        resource: "db".to_string(),
        paused: false,
    };
    assert!(matches!(instance_step(&unknown, &known), InstanceStep::Nothing));
    assert!(matches!(instance_step(&Command::Shutdown, &known), InstanceStep::Shutdown));
    let port = Command::SetPort {
        resource: "db".to_string(),
        port: 9,
    };
    assert!(matches!(instance_step(&port, &known), InstanceStep::SetPort(r, 9) if r == "db"));
}

#[test]
fn stopping_and_counting() {
    assert_eq!(count_text(1, "instance", "s"), "1 instance");
    assert_eq!(count_text(0, "instance", "s"), "0 instances");
    assert_eq!(stopping_project(0, "/x"), "No running Starling instance found for /x");
    assert_eq!(stopping_project(2, "/x"), "Stopping 2 Starling instances for /x...");
    assert_eq!(swept(0), "Clean: nothing left running.");
    assert_eq!(swept(1), "Clean: stopped 1 Starling process.");
    assert_eq!(swept(3), "Clean: stopped 3 Starling processes.");
    assert_eq!(daemon_action(true, true, false, false), DaemonAction::MixedService);
    assert_eq!(daemon_action(false, true, false, true), DaemonAction::MixedStop);
    assert_eq!(daemon_action(false, false, false, true), DaemonAction::Restart);
    assert_eq!(daemon_action(false, false, false, false), DaemonAction::Run);
}

#[test]
fn config_files_are_resolved() {
    assert_eq!(resolve_config(Some("x/Tiltfile"), true, true), "x/Tiltfile");
    assert_eq!(resolve_config(None, true, true), "Starlingfile");
    assert_eq!(resolve_config(None, false, true), "Tiltfile");
    assert_eq!(resolve_config(None, false, false), "Starlingfile");
    assert_eq!(api_bind(true, "0.0.0.0", 10350), "0.0.0.0:10350");
    assert_eq!(api_bind(false, "0.0.0.0", 10350), "127.0.0.1:0");
}

#[test]
fn hosts_that_resolve_by_themselves_are_left_out() {
    let s = state(vec![], vec![route("a.localhost", 1), route("b.test", 2), route("c.dev", 3)]);
    assert_eq!(
        hosts_block(&s).unwrap(),
        "127.0.0.1 b.test # starling\n127.0.0.1 c.dev # starling\n"
    );
    assert_eq!(hosts_block(&state(vec![], vec![route("a.localhost", 1)])), None);
}

#[test]
fn the_local_proxy_leads_to_the_web_interface() {
    let p = local_proxy("localhost", 10350, 1355, false);
    assert_eq!(p.registry.lookup("starling.localhost"), Some(10350));
    assert!(p.leased_ports.contains(&10350));
}

#[test]
fn stored_objects_are_mirrored() {
    let mut store = ApiObjectStore::new();
    store.apply("Cmd", "default", "x", json(r#"{"spec": {"a": 1}}"#));
    let mirrored = mirror_objects(store.all());
    assert_eq!(mirrored.len(), 1);
    assert_eq!(mirrored[0].kind, "Cmd");
    assert_eq!(mirrored[0].object.at("spec").at("a"), &Json::Pos(1));
}

#[test]
fn the_service_is_described() {
    assert_eq!(xml_escape("<a 'b'>&\"c\""), "&lt;a &apos;b&apos;&gt;&amp;&quot;c&quot;");
    assert_eq!(launchd_domain(501), "gui/501");
    assert_eq!(launchd_target(501), "gui/501/com.thousandbirds.starling.daemon");
    assert_eq!(
        launch_agent_path(Some("/Users/me")).unwrap(),
        "/Users/me/Library/LaunchAgents/com.thousandbirds.starling.daemon.plist"
    );
    assert_eq!(
        launch_agent_path(None).unwrap_err(),
        "could not resolve home directory"
    );
    let plist = daemon_service_plist("/bin/starling", "/l&g", 1360, "localhost", "127.0.0.1", true, false);
    assert!(plist.contains("        <string>/bin/starling</string>\n        <string>daemon</string>\n"));
    assert!(plist.contains("        <string>--tls</string>\n    </array>"));
    assert!(!plist.contains("--lan"));
    assert!(plist.contains("<string>/l&amp;g</string>"));
    assert_eq!(
        service_status("/p", true, false, true),
        vec![
            "Service: com.thousandbirds.starling.daemon",
            "Plist: /p",
            "Installed: yes",
            "Loaded: no",
            "Daemon responding: yes",
        ]
    );
}

#[test]
fn skills_are_installed_below_the_agents_directory() {
    assert_eq!(
        skill_install_dir(SkillTarget::Codex, "codex", SkillScope::User, "/w", Some("/h"), Some("/c")).unwrap(),
        "/c/skills"
    );
    assert_eq!(
        skill_install_dir(SkillTarget::Codex, "codex", SkillScope::User, "/w", Some("/h"), None).unwrap(),
        "/h/.codex/skills"
    );
    assert_eq!(
        skill_install_dir(SkillTarget::Codex, "codex", SkillScope::Project, "/w", None, Some("/c")).unwrap(),
        "/w/.codex/skills"
    );
    assert_eq!(
        skill_install_dir(SkillTarget::Codex, "codex", SkillScope::User, "/w", None, None).unwrap_err(),
        "could not determine home directory"
    );
    assert_eq!(skill_file("/h/skills"), "/h/skills/starling-devex/SKILL.md");
    assert!(may_install("f", false, false).is_ok());
    assert!(may_install("f", true, true).is_ok());
    assert_eq!(
        may_install("f", true, false).unwrap_err(),
        "f already exists; rerun with --force to replace it"
    );
    let other = SkillTarget::Claude;
    assert_eq!(
        skill_install_dir(other, "agent", SkillScope::User, "/w", Some("/h"), Some("/c")).unwrap(),
        "/h/.agent/skills"
    );
    assert_eq!(
        skill_install_dir(other, "agent", SkillScope::Project, "/w", None, None).unwrap(),
        "/w/.agent/skills"
    );
    assert!(skill_install_dir(other, "agent", SkillScope::User, "/w", None, Some("/c")).is_err());
    assert_eq!(skill_targets(SkillTarget::All), vec![SkillTarget::Codex, other]);
    assert_eq!(skill_targets(other), vec![other]);
    assert_eq!(skill_targets(SkillTarget::Codex), vec![SkillTarget::Codex]);
    assert_eq!(skill_target_name("codex"), "Codex");
    assert_eq!(installed_line("codex", "/x"), "Installed Codex skill at /x");
    assert!(starling_skill_markdown().starts_with("---\nname: starling-devex\n"));
}

#[test]
fn a_project_comes_up_and_stops() {
    assert_eq!(proxy_mode(true, true), ProxyMode::Off);
    assert_eq!(proxy_mode(false, true), ProxyMode::Local);
    assert_eq!(proxy_mode(false, false), ProxyMode::Daemon);

    let log = config_logs("(Tiltfile)", "/p/Tiltfile", 2, "one\ntwo\n");
    let texts: Vec<&str> = log.iter().map(|l| l.text.as_str()).collect();
    assert_eq!(texts, vec!["Loaded /p/Tiltfile (2 resources)\n", "one\n", "two\n"]);
    assert_eq!(config_failed("T", "gone"), "Failed to load T: gone");
    assert_eq!(
        alias_line("s", "http://a.localhost", 9).text,
        "alias: http://a.localhost -> 127.0.0.1:9\n"
    );

    let mut store = ApiObjectStore::new();
    store.apply("Cmd", "default", "web", json("{}"));
    let shown = UIResource {
        metadata: Some(ObjectMeta {
            name: "web".to_string(),
            ..Default::default()
        }),
        ..Default::default()
    };
    let lines = vec![("web".to_string(), vec!["hi".to_string()])];
    match update_request("app-1", &vec![shown], lines, store.all(), None) {
        Request::Update {
            instance,
            resources,
            logs,
            objects,
            api_addr,
        } => {
            assert_eq!(instance, "app-1");
            assert_eq!(resources[0].name, "web");
            assert_eq!(resources[0].kind, "local");
            assert_eq!(logs[0].1, vec!["hi"]);
            assert_eq!(objects[0].kind, "Cmd");
            assert_eq!(api_addr, None);
        }
        other => panic!("unexpected request: {other:?}"),
    }

    let steps = stop_steps(true, 1, Some("app-1".to_string()));
    assert!(matches!(steps[0], StopStep::StopServes));
    assert!(matches!(steps[1], StopStep::RunDown));
    assert!(matches!(&steps[2], StopStep::Deregister(i) if i == "app-1"));
    assert_eq!(stop_steps(false, 1, None).len(), 1);
    assert_eq!(stop_steps(true, 0, None).len(), 1);
}

#[test]
fn projects_are_named_after_their_directories() {
    assert_eq!(project_dir(Some("/home/me/paas/Starlingfile"), Some("/tmp")), "/home/me/paas");
    assert_eq!(project_dir(Some("/Starlingfile"), Some("/tmp")), "/");
    assert_eq!(project_dir(Some("/"), Some("/tmp")), "/tmp");
    assert_eq!(project_dir(None, Some("/tmp")), "/tmp");
    assert_eq!(project_dir(None, None), "");
    assert_eq!(project_name("/home/me/paas"), "paas");
    assert_eq!(project_name("/"), "app");
}

#[test]
fn invalid_json_is_told_with_its_reason() {
    assert_eq!(
        parse_json("{\"a\": }").unwrap_err(),
        "expected value at line 1 column 7"
    );
    assert!(parse_json("[1]").is_ok());
}

#[test]
fn documents_that_break_off_are_told() {
    for broken in ["[*x]", "a: *x", "kind: Cmd\n---\n[*x]\n---\na: [1", "*x"] {
        let error = parse_api_documents(broken).unwrap_err();
        assert!(error.starts_with("parse: unknown anchor"), "{error}");
    }
    let twice = parse_api_documents("a: 1\na: 2\n---\n[*x]").unwrap_err();
    assert!(twice.starts_with("parse: duplicate entry"), "{twice}");
}

#[test]
fn waiting_ends() {
    assert_eq!(poll_step(0, 1, false), PollStep::Again);
    assert_eq!(poll_step(1, 1, false), PollStep::GaveUp);
    assert_eq!(poll_step(1, 1, true), PollStep::Done);
    assert_eq!(poll_step(0, 0, false), PollStep::GaveUp);
    assert_eq!(PROJECT_STOP_TRIES, 150);
    assert_eq!((DAEMON_START_TRIES, DAEMON_STOP_TRIES), (40, 80));
}
