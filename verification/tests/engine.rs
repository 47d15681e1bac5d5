use starling::api::store::{ApiObjectStore, ObjectEvent};
use starling::engine::builds::k8s_down_specs;
use starling::engine::controllers::{inject_image_maps, resolve_image_maps_for};
use starling::engine::ignore::{is_ignored_by_rules, matches_any_path};
use starling::engine::images::{
    build_image_options, content_addressed_ref, context_only, custom_build_expected_ref,
    digest_from_ref, docker_build_args, image_ref_repo_and_tag, immutable_image_tag,
};
use starling::engine::live_update::{
    initial_sync_command, live_update_fallback_paths, live_update_has_initial_sync,
    live_update_run_matches_triggers,
};
use starling::engine::objects::{
    cmd_image_object, cmd_object, dc_log_stream_object, dc_service_object,
    disable_config_map_object, file_watch_object, image_map_object, kubernetes_apply_object,
    kubernetes_apply_object_with_status, kubernetes_discovery_object, live_update_object,
    pod_log_stream_object, port_forward_object, session_object, tiltfile_object,
    toggle_button_object,
};
use starling::engine::pods::{aggregate_pod_status, pod_log_selector, port_forward_args};
use starling::engine::ports::{
    detect_local_listen_port, parse_port_at, rewrite_serve_cmd_port_args,
};
use starling::engine::reconcile::{
    default_reconcilers, disable_change_from_event, force_trigger_target, Effect,
};
use starling::engine::services::{service_env, ServiceEndpoint, ServiceRegistry};
use starling::engine::watch::{parse_ignore_rules, FileWatches};
use starling::json::Json;
use starling::manifest::{
    Cmd, DockerBuild, IgnoreRule, LiveUpdateStep, Manifest, PortForwardSpec, TargetKind,
};
use starling::trees::parse_json;

fn json(text: &str) -> Json {
    parse_json(text).expect("valid JSON")
}

fn strings(v: &[&str]) -> Vec<String> {
    v.iter().map(|s| s.to_string()).collect()
}

#[test]
fn detects_vite_local_url() {
    assert_eq!(
        detect_local_listen_port("  ➜  Local:   http://127.0.0.1:8090/"),
        Some(8090)
    );
}

#[test]
fn detects_plain_listening_message() {
    assert_eq!(
        detect_local_listen_port("api listening on 127.0.0.1:8088"),
        Some(8088)
    );
}

#[test]
fn ignores_incidental_localhost_ports_without_listener_context() {
    assert_eq!(
        detect_local_listen_port("database url postgres://127.0.0.1:5432/app"),
        None
    );
}

#[test]
fn reconcilers_drive_engine_on_object_events() {
    let known = vec![("web".to_string(), false)];
    let mut recs = default_reconcilers();
    assert_eq!(recs.len(), 3);
    let mut api = ApiObjectStore::new();

    let triggered = api
        .create(
            "Cmd",
            "default",
            "web",
            json(r#"{"metadata": {"annotations": {"tilt.dev/force-trigger": "t1"}}}"#),
        )
        .unwrap();
    let effects = recs.dispatch(&ObjectEvent::Added(triggered), &known);
    assert_eq!(effects.len(), 1, "a build was enqueued");
    assert!(matches!(&effects[0], Effect::Trigger(n) if n == "web"));

    let cm = api
        .create(
            "ConfigMap",
            "default",
            "web-disable",
            json(r#"{"data": {"isDisabled": "true"}}"#),
        )
        .unwrap();
    let effects = recs.dispatch(&ObjectEvent::Added(cm.clone()), &known);
    assert!(matches!(
        &effects[0],
        Effect::SetDisabled { resource, disabled: true, .. } if resource == "web"
    ));
    let effects = recs.dispatch(&ObjectEvent::Modified(cm), &vec![("web".to_string(), true)]);
    assert!(effects.is_empty());
}

#[test]
fn trigger_queue_enqueues_builds_with_nonce_dedupe() {
    let known = vec![("web".to_string(), false)];
    let mut recs = default_reconcilers();
    let mut api = ApiObjectStore::new();

    let q = api
        .create(
            "TriggerQueue",
            "default",
            "queue",
            json(r#"{"spec": {"queue": [{"name": "web", "nonce": "n1"}]}}"#),
        )
        .unwrap();
    let effects = recs.dispatch(&ObjectEvent::Added(q.clone()), &known);
    assert!(matches!(&effects[..], [Effect::Trigger(n)] if n == "web"));

    let effects = recs.dispatch(&ObjectEvent::Modified(q), &known);
    assert!(effects.is_empty(), "same nonce should not re-trigger");

    let q2 = api
        .replace(
            "TriggerQueue",
            "default",
            "queue",
            json(r#"{"spec": {"queue": [{"name": "web", "nonce": "n2"}]}}"#),
        )
        .unwrap();
    let effects = recs.dispatch(&ObjectEvent::Modified(q2), &known);
    assert!(matches!(&effects[..], [Effect::Trigger(n)] if n == "web"));
}

#[test]
fn pod_log_selector_joins_match_labels() {
    let obj = json(r#"{"spec": {"selector": {"matchLabels": {"app": "web"}}}}"#);
    assert_eq!(pod_log_selector(&obj), "app=web");
    assert_eq!(pod_log_selector(&json(r#"{"spec": {}}"#)), "");
}

#[test]
fn content_addressed_ref_derives_immutable_tag_from_digest() {
    assert_eq!(
        immutable_image_tag("sha256:0123456789abcdef0000"),
        "starling-0123456789ab"
    );
    assert_eq!(immutable_image_tag("abcd"), "starling-abcd");
    assert_eq!(
        content_addressed_ref("registry.local/web:dev", "sha256:deadbeefcafe1234"),
        "registry.local/web:starling-deadbeefcafe"
    );
    assert_eq!(
        digest_from_ref("web@sha256:abc"),
        Some("sha256:abc".to_string())
    );
    assert_eq!(digest_from_ref("web:tag"), None);
}

#[test]
fn injects_resolved_image_map_refs_into_workload_yaml() {
    let mut api = ApiObjectStore::new();
    api.apply(
        "KubernetesApply",
        "default",
        "web",
        json(r#"{"spec": {"imageMaps": ["example/web"]}}"#),
    );
    api.apply(
        "ImageMap",
        "default",
        "example/web",
        json(r#"{"spec": {"selector": "example/web"}}"#),
    );
    assert!(resolve_image_maps_for(&api, "web").is_empty());

    api.patch(
        "ImageMap",
        "default",
        "example/web",
        json(r#"{"status": {"image": "example/web:starling-abc123def456"}}"#),
    )
    .unwrap();
    let maps = resolve_image_maps_for(&api, "web");
    assert_eq!(
        maps,
        vec![(
            "example/web".to_string(),
            "example/web:starling-abc123def456".to_string()
        )]
    );

    let yaml = "apiVersion: apps/v1\nkind: Deployment\nspec:\n  template:\n    spec:\n      containers:\n      - name: web\n        image: example/web\n---\nkind: Service";
    let out = inject_image_maps(yaml, &maps);
    assert!(
        out.contains("image: example/web:starling-abc123def456"),
        "image not injected: {out}"
    );
    assert!(out.contains("kind: Service"), "second doc dropped: {out}");
    assert_eq!(inject_image_maps(yaml, &vec![]), yaml);
}

#[test]
fn file_watch_object_round_trips_watch_spec() {
    let mut m = Manifest::new("web", TargetKind::Local);
    m.deps = strings(&["/tmp/src"]);
    m.trigger_mode = 2;
    m.ignore_rules = vec![IgnoreRule {
        base: "/tmp".to_string(),
        pattern: "*.tmp".to_string(),
    }];
    let obj = file_watch_object(&m);
    let spec = obj.at("spec");
    assert_eq!(spec.at("watchedPaths"), &json(r#"["/tmp/src"]"#));
    assert_eq!(spec.at("manual"), &json("true"));
    let rules = parse_ignore_rules(spec.at("ignores"));
    assert_eq!(rules.len(), 1);
    assert_eq!(rules[0].pattern, "*.tmp");
    assert_eq!(rules[0].base, "/tmp");
}

#[test]
fn file_watch_controller_tracks_and_replaces_handles() {
    let mut handles = FileWatches::new();

    let empty = json(r#"{"spec": {"watchedPaths": []}}"#);
    let change = handles.start_file_watch("web", &empty);
    assert!(change.start.is_none() && change.stop.is_none());
    assert!(handles.watcher("web").is_none());

    let obj = json(r#"{"spec": {"watchedPaths": ["/nonexistent-starling-it"]}}"#);
    let change = handles.start_file_watch("web", &obj);
    assert!(change.stop.is_none());
    let first = handles.watcher("web").unwrap();
    assert_eq!(change.start.unwrap().0, first);

    let change = handles.start_file_watch("web", &obj);
    assert_eq!(
        change.stop,
        Some(first),
        "previous watcher should be signalled to stop"
    );
    let second = handles.watcher("web").unwrap();
    assert!(first != second);
    assert_eq!(change.start.unwrap().0, second);
}

#[test]
fn docker_build_args_pass_through_buildkit_options() {
    let db = DockerBuild {
        ssh: strings(&["default"]),
        secrets: strings(&["id=sek,src=/tmp/s"]),
        cache_from: strings(&["example/web:cache"]),
        platform: Some("linux/amd64".to_string()),
        build_args: vec![("K".to_string(), "v".to_string())],
        extra_tags: strings(&["example/web:extra"]),
        ..plain_docker_build("example/web")
    };
    let args = docker_build_args(&db, None);
    let joined = args.join(" ");
    assert!(args.starts_with(&[
        "build".to_string(),
        "-t".to_string(),
        "example/web".to_string()
    ]));
    assert!(joined.contains("--ssh default"), "ssh missing: {joined}");
    assert!(
        joined.contains("--secret id=sek,src=/tmp/s"),
        "secret missing: {joined}"
    );
    assert!(
        joined.contains("--cache-from example/web:cache"),
        "cache missing: {joined}"
    );
    assert!(joined.contains("--platform linux/amd64"));
    assert!(joined.contains("--build-arg K=v"));
    assert!(joined.contains("-t example/web:extra"));
    assert_eq!(args.last().unwrap(), ".");
}

#[test]
fn aggregate_pod_status_across_multiple_pods() {
    let ready_pod = || {
        json(
            r#"{"metadata": {"name": "p1"},
            "status": {"phase": "Running", "containerStatuses": [{"ready": true, "restartCount": 1}]}}"#,
        )
    };
    let pending_pod = || {
        json(
            r#"{"metadata": {"name": "p2"},
            "status": {"phase": "Running", "containerStatuses": [{"ready": false, "restartCount": 0}]}}"#,
        )
    };
    let failed_pod = || {
        json(
            r#"{"metadata": {"name": "p3"},
            "status": {"phase": "Failed", "containerStatuses": []}}"#,
        )
    };

    let s = aggregate_pod_status(&vec![ready_pod(), ready_pod()], false);
    assert_eq!(s.runtime, "ok");
    assert_eq!(s.ready, 2);
    assert_eq!(s.total, 2);
    assert_eq!(s.restarts, 2);
    assert_eq!(s.status_label(), "2/2 ready");

    assert_eq!(
        aggregate_pod_status(&vec![ready_pod(), pending_pod()], false).runtime,
        "pending"
    );
    assert_eq!(
        aggregate_pod_status(&vec![ready_pod(), pending_pod()], true).runtime,
        "ok"
    );
    assert_eq!(
        aggregate_pod_status(&vec![ready_pod(), failed_pod()], false).runtime,
        "error"
    );
    assert_eq!(aggregate_pod_status(&vec![], false).runtime, "pending");
}

#[test]
fn builds_kubernetes_apply_and_tiltfile_api_objects() {
    let mut k8s = Manifest {
        k8s_apply_docs: strings(&["kind: Deployment"]),
        ..Manifest::new("web", TargetKind::Kubernetes)
    };
    k8s.docker_builds.push(plain_docker_build("gcr.io/web"));
    let obj = kubernetes_apply_object(&k8s);
    assert_eq!(obj.at("spec").at("yaml"), &json(r#""kind: Deployment""#));
    assert_eq!(obj.at("spec").at("imageMaps"), &json(r#"["gcr.io/web"]"#));

    let custom = Manifest {
        k8s_custom_apply_cmd: Some(Cmd {
            argv: strings(&["helm", "install"]),
            ..Cmd::default()
        }),
        ..Manifest::new("chart", TargetKind::Kubernetes)
    };
    let obj = kubernetes_apply_object(&custom);
    assert_eq!(
        obj.at("spec").at("applyCmd").at("args"),
        &json(r#"["helm", "install"]"#)
    );
    assert!(obj.at("spec").get("yaml").is_none());

    let okobj = kubernetes_apply_object_with_status(&k8s, "2026-01-01T00:00:00Z", None);
    assert_eq!(
        okobj.at("status").at("lastApplyTime"),
        &json(r#""2026-01-01T00:00:00Z""#)
    );
    assert_eq!(okobj.at("status").at("error"), &json(r#""""#));
    let errobj = kubernetes_apply_object_with_status(&k8s, "t", Some("boom"));
    assert_eq!(errobj.at("status").at("error"), &json(r#""boom""#));

    let tf = tiltfile_object("/proj/Tiltfile", &strings(&["web"]));
    assert_eq!(tf.at("spec").at("path"), &json(r#""/proj/Tiltfile""#));
    assert_eq!(tf.at("status").at("resourceNames"), &json(r#"["web"]"#));

    let watched = Manifest {
        deps: strings(&["/repo/src"]),
        ..Manifest::new("api", TargetKind::Local)
    };
    let fw = file_watch_object(&watched);
    assert_eq!(fw.at("spec").at("watchedPaths"), &json(r#"["/repo/src"]"#));

    let local = Manifest {
        update_cmd: Cmd {
            argv: strings(&["make", "build"]),
            env: vec![("K".into(), "v".into())],
            ..Cmd::default()
        },
        ..Manifest::new("job", TargetKind::Local)
    };
    let cmd = cmd_object(&local);
    assert_eq!(cmd.at("spec").at("args"), &json(r#"["make", "build"]"#));
    assert_eq!(cmd.at("spec").at("env"), &json(r#"["K=v"]"#));

    let pf = Manifest {
        k8s_port_forwards: vec![PortForwardSpec {
            host: "127.0.0.1".into(),
            local_port: 8080,
            container_port: 80,
            name: "ui".into(),
            link_path: "/health".into(),
        }],
        ..Manifest::new("web", TargetKind::Kubernetes)
    };
    let obj = port_forward_object(&pf);
    let forwards = obj.at("spec").at("forwards").as_list().unwrap();
    assert_eq!(forwards[0].at("localPort"), &json("8080"));
    assert_eq!(forwards[0].at("containerPort"), &json("80"));

    let lu = Manifest {
        live_update: vec![
            LiveUpdateStep::Sync {
                local: "src".into(),
                remote: "/app".into(),
            },
            LiveUpdateStep::Run {
                cmd: "make".into(),
                echo_off: false,
                triggers: strings(&["src/x"]),
            },
            LiveUpdateStep::FallBackOn(strings(&["Dockerfile"])),
            LiveUpdateStep::RestartContainer,
        ],
        ..Manifest::new("web", TargetKind::Kubernetes)
    };
    let obj = live_update_object(&lu);
    let spec = obj.at("spec");
    assert_eq!(
        spec.at("syncs").as_list().unwrap()[0].at("localPath"),
        &json(r#""src""#)
    );
    assert_eq!(
        spec.at("execs").as_list().unwrap()[0].at("args"),
        &json(r#"["make"]"#)
    );
    assert_eq!(spec.at("stopPaths"), &json(r#"["Dockerfile"]"#));
    assert_eq!(spec.at("restart"), &json("true"));

    let custom_build = DockerBuild {
        command: Some(Cmd {
            argv: strings(&["./build.sh"]),
            ..Cmd::default()
        }),
        ..plain_docker_build("gcr.io/custom")
    };
    assert_eq!(
        image_map_object("gcr.io/web").at("spec").at("selector"),
        &json(r#""gcr.io/web""#)
    );
    let ci = cmd_image_object(&custom_build);
    assert_eq!(ci.at("spec").at("args"), &json(r#"["./build.sh"]"#));
    assert_eq!(ci.at("spec").at("ref"), &json(r#""gcr.io/custom""#));

    let mut kd_manifest = Manifest::new("web", TargetKind::Kubernetes);
    kd_manifest
        .pod_selector
        .push(("app".to_string(), "web".to_string()));
    let kd = kubernetes_discovery_object(&kd_manifest);
    assert_eq!(
        kd.at("spec").at("selectors").as_list().unwrap()[0]
            .at("matchLabels")
            .at("app"),
        &json(r#""web""#)
    );

    let session = session_object(&strings(&["web", "api"]));
    assert_eq!(session.at("status").at("targets"), &json(r#"["web", "api"]"#));

    let mut dc = Manifest::new("frontend", TargetKind::DockerCompose);
    dc.docker_compose_project = Some("hello".to_string());
    assert_eq!(
        dc_service_object(&dc).at("spec").at("service"),
        &json(r#""frontend""#)
    );
    assert_eq!(
        dc_service_object(&dc).at("spec").at("project").at("name"),
        &json(r#""hello""#)
    );
    assert_eq!(
        dc_log_stream_object(&dc).at("spec").at("service"),
        &json(r#""frontend""#)
    );

    let pls = pod_log_stream_object(&kd_manifest);
    assert_eq!(
        pls.at("spec").at("selector").at("matchLabels").at("app"),
        &json(r#""web""#)
    );

    let tb = toggle_button_object(&Manifest::new("job", TargetKind::Local));
    assert_eq!(
        tb.at("spec").at("location").at("componentID"),
        &json(r#""job""#)
    );

    assert_eq!(
        disable_config_map_object(true).at("data").at("isDisabled"),
        &json(r#""true""#)
    );
    assert_eq!(
        disable_config_map_object(false).at("data").at("isDisabled"),
        &json(r#""false""#)
    );
}

fn plain_docker_build(image_ref: &str) -> DockerBuild {
    DockerBuild {
        image_ref: image_ref.to_string(),
        context: ".".to_string(),
        dockerfile: None,
        dockerfile_contents: None,
        target: None,
        platform: None,
        extra_tags: vec![],
        entrypoint: vec![],
        container_args: None,
        match_in_env_vars: false,
        build_args: vec![],
        cache_from: vec![],
        ssh: vec![],
        secrets: vec![],
        pull: false,
        network: None,
        extra_hosts: vec![],
        ignore_rules: vec![],
        only: vec![],
        command: None,
        custom_tag: None,
        outputs_image_ref_to: None,
        image_deps: vec![],
        disable_push: false,
        skips_local_docker: false,
        deps: vec![],
        live_update: vec![],
    }
}

#[test]
fn force_trigger_target_reads_annotation() {
    let mut store = ApiObjectStore::new();
    let added = store.create("Cmd", "default", "web", json("{}")).unwrap();
    assert_eq!(force_trigger_target(&ObjectEvent::Added(added)), None);
    let patched = store
        .patch(
            "Cmd",
            "default",
            "web",
            json(r#"{"metadata": {"annotations": {"tilt.dev/force-trigger": "t1"}}}"#),
        )
        .unwrap();
    assert_eq!(
        force_trigger_target(&ObjectEvent::Modified(patched.clone())),
        Some("web".to_string())
    );
    assert_eq!(force_trigger_target(&ObjectEvent::Deleted(patched)), None);
}

#[test]
fn disable_change_reads_config_map() {
    let mut store = ApiObjectStore::new();
    let cm = store
        .create(
            "ConfigMap",
            "default",
            "web-disable",
            json(r#"{"data": {"isDisabled": "true"}}"#),
        )
        .unwrap();
    assert_eq!(
        disable_change_from_event(&ObjectEvent::Added(cm)),
        Some(("web".to_string(), true))
    );
    let other = store
        .create("Cmd", "default", "web-disable", json("{}"))
        .unwrap();
    assert_eq!(disable_change_from_event(&ObjectEvent::Added(other)), None);
    let plain = store
        .create(
            "ConfigMap",
            "default",
            "settings",
            json(r#"{"data": {"isDisabled": "true"}}"#),
        )
        .unwrap();
    assert_eq!(disable_change_from_event(&ObjectEvent::Added(plain)), None);
}

#[test]
fn k8s_down_specs_selects_custom_delete_commands() {
    let with_delete = Manifest {
        k8s_custom_delete_cmd: Some(Cmd {
            argv: strings(&["helm", "uninstall", "web"]),
            ..Cmd::default()
        }),
        ..Manifest::new("web", TargetKind::Kubernetes)
    };
    let plain_k8s = Manifest::new("api", TargetKind::Kubernetes);
    let local = Manifest::new("job", TargetKind::Local);

    let specs = k8s_down_specs(&vec![with_delete, plain_k8s, local]);
    assert_eq!(specs.len(), 1);
    assert_eq!(specs[0].0, "web");
    assert_eq!(specs[0].1.display(), "helm uninstall web");
}

#[test]
fn live_update_fallback_paths_match_changed_files() {
    let manifest = Manifest {
        live_update: vec![LiveUpdateStep::FallBackOn(strings(&[
            "/repo/Dockerfile",
            "/repo/config",
        ]))],
        ..Manifest::new("web", TargetKind::Kubernetes)
    };
    let paths = live_update_fallback_paths(&manifest);
    assert!(matches_any_path("/repo/Dockerfile", &paths));
    assert!(matches_any_path("/repo/config/dev.yaml", &paths));
    assert!(!matches_any_path("/repo/src/main.rs", &paths));
}

#[test]
fn live_update_run_triggers_match_changed_files() {
    let triggers = strings(&["/repo/src/schema.sql", "/repo/scripts"]);
    assert!(live_update_run_matches_triggers(
        &triggers,
        Some(&strings(&["/repo/src/schema.sql"]))
    ));
    assert!(live_update_run_matches_triggers(
        &triggers,
        Some(&strings(&["/repo/scripts/regen.sh"]))
    ));
    assert!(!live_update_run_matches_triggers(
        &triggers,
        Some(&strings(&["/repo/src/main.rs"]))
    ));
    assert!(live_update_run_matches_triggers(&triggers, None));
    assert!(live_update_run_matches_triggers(
        &vec![],
        Some(&strings(&["/repo/src/main.rs"]))
    ));
}

#[test]
fn initial_sync_builds_sync_and_run_commands() {
    let steps = vec![
        LiveUpdateStep::InitialSync,
        LiveUpdateStep::Sync {
            local: "/repo/src".to_string(),
            remote: "/app/src".to_string(),
        },
        LiveUpdateStep::Run {
            cmd: "npm install".to_string(),
            echo_off: false,
            triggers: vec![],
        },
    ];
    assert!(live_update_has_initial_sync(&steps));

    let (sync_cmd, _) = initial_sync_command(&steps[1], "pod-123").expect("sync command");
    assert_eq!(
        sync_cmd.argv,
        vec!["kubectl", "cp", "/repo/src", "pod-123:/app/src"]
    );

    let (run_cmd, _) = initial_sync_command(&steps[2], "pod-123").expect("run command");
    assert_eq!(
        run_cmd.argv,
        vec![
            "kubectl",
            "exec",
            "pod-123",
            "--",
            "sh",
            "-c",
            "npm install"
        ]
    );
}

#[test]
fn port_forward_args_target_pod_and_ports() {
    let spec = PortForwardSpec {
        host: "127.0.0.1".to_string(),
        local_port: 8080,
        container_port: 3000,
        name: "web".to_string(),
        link_path: String::new(),
    };
    assert_eq!(
        port_forward_args("web-pod", &spec),
        vec![
            "port-forward",
            "pod/web-pod",
            "8080:3000",
            "--address",
            "127.0.0.1"
        ]
    );
}

#[test]
fn matches_watch_ignore_rules() {
    let base = "/tmp/starling-ignore-test";
    let rule = |pattern: &str| IgnoreRule {
        base: base.to_string(),
        pattern: pattern.to_string(),
    };
    let rules = vec![
        rule("tmp/"),
        rule("*.log"),
        rule("generated/**"),
        rule("!generated/keep.log"),
    ];
    let below = |rel: &str| format!("{base}/{rel}");

    assert!(is_ignored_by_rules(&below("tmp/cache.txt"), &rules));
    assert!(is_ignored_by_rules(&below("app/server.log"), &rules));
    assert!(is_ignored_by_rules(&below("generated/deep/out.txt"), &rules));
    assert!(!is_ignored_by_rules(&below("generated/keep.log"), &rules));
    assert!(!is_ignored_by_rules(&below("src/main.rs"), &rules));
}

#[test]
fn docker_build_options_apply_target_and_platform() {
    let db = DockerBuild {
        image_ref: "example:dev".to_string(),
        target: Some("runtime".to_string()),
        platform: Some("linux/amd64".to_string()),
        extra_tags: strings(&["example:latest"]),
        build_args: vec![("MODE".to_string(), "dev".to_string())],
        cache_from: strings(&["example:cache"]),
        pull: true,
        network: Some("host".to_string()),
        extra_hosts: strings(&["host.docker.internal:host-gateway", "db:127.0.0.1"]),
        ..plain_docker_build("example:dev")
    };

    let options = build_image_options(&db);
    assert_eq!(options.t, "example:dev");
    assert_eq!(options.target, "runtime");
    assert_eq!(options.platform, "linux/amd64");
    assert!(options
        .buildargs
        .contains(&("MODE".to_string(), "dev".to_string())));
    assert_eq!(options.cachefrom, vec!["example:cache".to_string()]);
    assert!(options.pull);
    assert_eq!(options.networkmode, "host");
    assert_eq!(
        options.extrahosts,
        Some("host.docker.internal:host-gateway,db:127.0.0.1".to_string())
    );
}

#[test]
fn parses_image_ref_for_extra_tag() {
    assert_eq!(
        image_ref_repo_and_tag("example/web:dev"),
        ("example/web".to_string(), "dev".to_string())
    );
    assert_eq!(
        image_ref_repo_and_tag("localhost:5000/web:dev"),
        ("localhost:5000/web".to_string(), "dev".to_string())
    );
    assert_eq!(
        image_ref_repo_and_tag("localhost:5000/web"),
        ("localhost:5000/web".to_string(), "latest".to_string())
    );
}

#[test]
fn custom_build_expected_ref_uses_tag() {
    let mut db = DockerBuild {
        command: Some(Cmd::default()),
        custom_tag: Some("dev".to_string()),
        skips_local_docker: true,
        ..plain_docker_build("gcr.io/foo")
    };
    assert_eq!(custom_build_expected_ref(&db), "gcr.io/foo:dev");
    db.custom_tag = Some("example.com/foo:prod".to_string());
    assert_eq!(custom_build_expected_ref(&db), "example.com/foo:prod");
}

fn command(argv: &[&str]) -> Cmd {
    Cmd {
        argv: strings(argv),
        ..Cmd::default()
    }
}

#[test]
fn rewrites_shell_serve_port_flag() {
    let mut cmd = command(&[
        "sh",
        "-c",
        "cd ui && npm run dev -- --host 127.0.0.1 --port 8090 --strictPort",
    ]);

    assert!(rewrite_serve_cmd_port_args(&mut cmd, 54756));
    assert_eq!(
        cmd.argv[2],
        "cd ui && npm run dev -- --host 127.0.0.1 --port 54756 --strictPort"
    );
}

#[test]
fn rewrites_shell_serve_port_equals_flag() {
    let mut cmd = command(&["sh", "-c", "vite --host 127.0.0.1 --port=8090"]);

    assert!(rewrite_serve_cmd_port_args(&mut cmd, 54756));
    assert_eq!(cmd.argv[2], "vite --host 127.0.0.1 --port=54756");
}

#[test]
fn rewrites_argv_serve_port_flag() {
    let mut cmd = command(&["npm", "run", "dev", "--", "--port", "8090", "--strictPort"]);

    assert!(rewrite_serve_cmd_port_args(&mut cmd, 54756));
    assert_eq!(cmd.argv[5], "54756");
    assert_eq!(cmd.argv.len(), 7);
}

#[test]
fn does_not_rewrite_dynamic_port_args() {
    let mut cmd = command(&["sh", "-c", "vite --host 127.0.0.1 --port $PORT"]);

    assert!(!rewrite_serve_cmd_port_args(&mut cmd, 54756));
    assert_eq!(cmd.argv[2], "vite --host 127.0.0.1 --port $PORT");
}

#[test]
fn service_env_uses_stable_resource_keys() {
    let mut registry = ServiceRegistry::new();
    registry.insert(
        "control-plane-api",
        ServiceEndpoint {
            host: Some("control-plane-api-paas.localhost".to_string()),
            port: Some(54756),
            url: Some("http://control-plane-api-paas.localhost:1360".to_string()),
        },
    );

    let env = service_env(&registry);

    assert!(env.contains(&(
        "STARLING_CONTROL_PLANE_API_HOST".to_string(),
        "control-plane-api-paas.localhost".to_string()
    )));
    assert!(env.contains(&(
        "STARLING_CONTROL_PLANE_API_PORT".to_string(),
        "54756".to_string()
    )));
    assert!(env.contains(&(
        "STARLING_CONTROL_PLANE_API_URL".to_string(),
        "http://control-plane-api-paas.localhost:1360".to_string()
    )));
    assert!(env
        .iter()
        .any(|(key, value)| key == "STARLING_SERVICES_JSON"
            && value.contains("control-plane-api")));
}

#[test]
fn a_limited_context_still_holds_the_dockerfile() {
    let mut db = plain_docker_build("web");
    db.context = "/repo".to_string();
    assert!(context_only(&db).is_empty());
    db.only = strings(&["src"]);
    assert_eq!(context_only(&db), vec!["src", "Dockerfile"]);
    db.dockerfile = Some("/repo/docker/Web.dockerfile".to_string());
    assert_eq!(context_only(&db), vec!["src", "docker/Web.dockerfile"]);
    db.dockerfile = Some("/elsewhere/Dockerfile".to_string());
    assert_eq!(context_only(&db), vec!["src"]);
}

#[test]
fn ports_are_read_where_they_stand() {
    let line: Vec<char> = "at :8080".chars().collect();
    assert_eq!(parse_port_at(&line, 4), Some(8080));
    assert_eq!(parse_port_at(&line, 3), None);
    assert_eq!(parse_port_at(&line, 8), None);
    assert_eq!(parse_port_at(&line, 9), None);
}
