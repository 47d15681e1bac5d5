use starling::api::store::{ApiObjectStore, ObjectEvent};
use starling::api::v1alpha1::{ObjectMeta, UIButton, UIResourceStatus};
use starling::certs::{ca_cert_path, ca_key_path, certificate_name, trust_commands, Platform};
use starling::cluster::{
    api_group_version, apply_target, apply_type, attach_succeeded, copy_command,
    documents_to_apply, kubectl_ended, use_kube_rs, ExecStatus,
};
use starling::frontend::{
    config_error_resource, config_error_resource_with, disable_button, disable_button_with, env_seed,
    apply_session_settings, initial_resource, initial_resource_with, snapshot,
};
use starling::json::Json;
use starling::manifest::{Manifest, TargetKind};
use starling::netmodes::{advertise_command, local_name, tailscale_command};
use starling::server::{
    api_resource_list, button_target, controller_of, create_object, delete_object, get_object,
    list_kinds, list_objects, object_schema, openapi_json, patch_object, read_logs, reconciled,
    replace_object, set_args_reply, toggle_resource, trigger_mode_reply, trigger_name, trigger_reply,
    watch_event, websocket_allowed, ApiReply, Body, Controller, LogEntry, LogQuery,
    TriggerError,
};
use starling::trees::parse_json;

fn json(text: &str) -> Json {
    parse_json(text).expect("valid JSON")
}

fn body(reply: &ApiReply) -> &Json {
    match &reply.body {
        Body::Json(j) => j,
        other => panic!("no JSON: {other:?}"),
    }
}

fn text(reply: &ApiReply) -> &str {
    match &reply.body {
        Body::Text(t) => t,
        other => panic!("no text: {other:?}"),
    }
}

#[test]
fn generic_api_routes_list_get_and_404() {
    let mut store = ApiObjectStore::new();
    store.apply("KubernetesApply", "default", "web", json(r#"{"spec": {"yaml": "x"}}"#));
    let resp = list_objects(&store, "KubernetesApply");
    assert_eq!(resp.status, 200);
    assert_eq!(body(&resp).at("kind").as_str(), Some("KubernetesApplyList"));
    assert_eq!(
        body(&resp).at("items").as_list().unwrap()[0].at("metadata").at("name").as_str(),
        Some("web")
    );
    assert_eq!(get_object(&store, "KubernetesApply", "web").status, 200);
    let missing = get_object(&store, "KubernetesApply", "nope");
    assert_eq!(missing.status, 404);
    assert_eq!(text(&missing), "KubernetesApply \"nope\" not found\n");
    assert_eq!(body(&list_kinds(&store)), &json(r#"{"kinds": ["KubernetesApply"]}"#));
}

#[test]
fn generic_api_routes_create_conflict_and_delete() {
    let mut store = ApiObjectStore::new();
    let created = create_object(
        &mut store,
        "Cmd",
        json(r#"{"metadata": {"name": "c1"}, "spec": {"args": ["echo"]}}"#),
    );
    assert_eq!(created.status, 201);
    assert_eq!(body(&created).at("spec").at("args"), &json(r#"["echo"]"#));
    let again = create_object(&mut store, "Cmd", json(r#"{"metadata": {"name": "c1"}}"#));
    assert_eq!(again.status, 409);
    assert_eq!(text(&again), "Cmd \"c1\" already exists\n");
    let unnamed = create_object(&mut store, "Cmd", json(r#"{"spec": {}}"#));
    assert_eq!(unnamed.status, 400);
    assert_eq!(text(&unnamed), "metadata.name is required\n");
    assert_eq!(delete_object(&mut store, "Cmd", "c1").status, 200);
    assert_eq!(delete_object(&mut store, "Cmd", "c1").status, 404);
}

#[test]
fn api_discovery_lists_tilt_resources() {
    let resp = api_resource_list();
    assert_eq!(resp.status, 200);
    let b = body(&resp);
    assert_eq!(b.at("kind").as_str(), Some("APIResourceList"));
    assert_eq!(b.at("groupVersion").as_str(), Some("tilt.dev/v1alpha1"));
    let resources = b.at("resources").as_list().unwrap();
    let ka = resources
        .iter()
        .find(|r| r.at("kind").as_str() == Some("KubernetesApply"))
        .expect("KubernetesApply in discovery");
    assert_eq!(ka.at("name").as_str(), Some("kubernetesapplys"));
    assert_eq!(ka.at("namespaced"), &Json::Bool(false));
}

#[test]
fn reconcile_route_rejects_unsupported_kind() {
    let refused = controller_of("Cmd").unwrap_err();
    assert_eq!(refused.status, 400);
    assert!(text(&refused).ends_with(", not Cmd\n"));
    assert_eq!(controller_of("kubernetesAPPLY").unwrap(), Controller::Apply);
    assert_eq!(controller_of("PodWatch").unwrap(), Controller::PodWatch);
    assert_eq!(controller_of("LiveUpdate").unwrap(), Controller::LiveUpdate);
}

#[test]
fn reconciled_objects_are_looked_up_under_their_kind() {
    let mut store = ApiObjectStore::new();
    store.apply("KubernetesDiscovery", "default", "web", json(r#"{"spec": {"a": 1}}"#));
    let r = reconciled(&store, "podwatch", "web", &Ok(()));
    assert_eq!(body(&r).at("spec"), &json(r#"{"a": 1}"#));
    let r = reconciled(&store, "portforward", "web", &Ok(()));
    assert_eq!(body(&r), &json("{}"));
    let r = reconciled(&store, "portforward", "web", &Err("boom".to_string()));
    assert_eq!(r.status, 500);
    assert_eq!(text(&r), "boom\n");
}

#[test]
fn object_schema_route_returns_spec_fields() {
    let resp = object_schema("KubernetesApply");
    assert_eq!(resp.status, 200);
    let b = body(&resp);
    assert_eq!(b.at("kind").as_str(), Some("KubernetesApply"));
    assert!(b
        .at("schema")
        .at("properties")
        .at("spec")
        .at("properties")
        .get("yaml")
        .is_some());
    let unknown = object_schema("Nope");
    assert_eq!(unknown.status, 404);
    assert_eq!(text(&unknown), "unknown kind \"Nope\"\n");
    assert_eq!(body(&openapi_json()).at("openapi").as_str(), Some("3.0.0"));
}

#[test]
fn generic_api_routes_put_and_patch() {
    let mut store = ApiObjectStore::new();
    store.apply(
        "Cmd",
        "default",
        "c1",
        json(r#"{"spec": {"args": ["a"], "dir": "/tmp"}}"#),
    );
    let put = replace_object(&mut store, "Cmd", "c1", json(r#"{"spec": {"args": ["b"]}}"#));
    assert_eq!(put.status, 200);
    assert_eq!(body(&put).at("spec").at("args"), &json(r#"["b"]"#));
    assert!(body(&put).at("spec").get("dir").is_none());

    let patched = patch_object(
        &mut store,
        "Cmd",
        "c1",
        json(r#"{"spec": {"args": null, "env": ["K=v"]}}"#),
    );
    assert_eq!(patched.status, 200);
    assert!(body(&patched).at("spec").get("args").is_none());
    assert_eq!(body(&patched).at("spec").at("env"), &json(r#"["K=v"]"#));

    assert_eq!(
        replace_object(&mut store, "Cmd", "missing", json(r#"{"spec": {}}"#)).status,
        404
    );
    assert_eq!(patch_object(&mut store, "Cmd", "missing", json("{}")).status, 404);
}

#[test]
fn watchers_are_told_what_happened() {
    let mut store = ApiObjectStore::new();
    let o = store.apply("Cmd", "default", "x", json("{}"));
    let event = watch_event(&ObjectEvent::Deleted(o));
    assert_eq!(event.at("type").as_str(), Some("DELETED"));
    assert_eq!(event.at("object").at("kind").as_str(), Some("Cmd"));
}

#[test]
fn logs_are_read_as_items() {
    let entry = LogEntry {
        span: "web".to_string(),
        level: "ERROR".to_string(),
        time: "t".to_string(),
        text: "boom\n".to_string(),
    };
    assert_eq!(
        body(&read_logs(&vec![entry], &all_lines())),
        &json(r#"{"items": [{"span": "web", "level": "ERROR", "time": "t", "text": "boom\n"}]}"#)
    );
}

#[test]
fn triggers_need_exactly_one_name() {
    assert_eq!(trigger_name(&vec!["web".to_string()]).unwrap(), "web");
    assert_eq!(trigger_name(&vec![]).unwrap_err().status, 400);
    let two = vec!["a".to_string(), "b".to_string()];
    assert_eq!(
        text(&trigger_name(&two).unwrap_err()),
        "/api/trigger requires exactly one manifest name\n"
    );
    assert_eq!(trigger_reply("web", &Ok(())).status, 200);
    let missing = trigger_reply("w\"eb", &Err(TriggerError::NotFound));
    assert_eq!(missing.status, 404);
    assert_eq!(text(&missing), "no resource named \"w\\\"eb\"\n");
    assert_eq!(trigger_reply("web", &Err(TriggerError::EngineGone)).status, 500);
    assert_eq!(trigger_reply("web", &Err(TriggerError::BadMode)).status, 400);
    assert_eq!(trigger_mode_reply(&Err(TriggerError::NotFound)).status, 400);
    assert_eq!(
        text(&trigger_mode_reply(&Err(TriggerError::BadMode))),
        "invalid trigger mode\n"
    );
    assert_eq!(set_args_reply(&Err(TriggerError::EngineGone)).status, 500);
    assert_eq!(set_args_reply(&Err(TriggerError::NotFound)).status, 200);
}

#[test]
fn websockets_need_the_token() {
    assert!(websocket_allowed(Some("t"), "t").is_ok());
    assert_eq!(websocket_allowed(Some("x"), "t").unwrap_err().status, 403);
    assert_eq!(text(&websocket_allowed(None, "t").unwrap_err()), "bad csrf token");
}

#[test]
fn a_toggle_button_names_its_resource() {
    let b = disable_button_with("web", "u1");
    assert_eq!(button_target(&b).as_deref(), Some("web"));
    assert_eq!(b.metadata.as_ref().unwrap().uid, "u1");
    assert_eq!(b.metadata.as_ref().unwrap().name, "web-disable");
    assert_eq!(button_target(&UIButton::default()), None);
    let mut other = disable_button("");
    assert_eq!(button_target(&other), None);
    other.metadata = Some(ObjectMeta::default());
    assert_eq!(button_target(&other), None);
    let (disabled, log) = toggle_resource("web", false);
    assert!(disabled);
    assert_eq!(log.text, "Disabled via web UI\n");
    assert_eq!(toggle_resource("web", true).1.text, "Enabled via web UI\n");
}

#[test]
fn identifiers_are_fresh() {
    let m = Manifest::new("web", TargetKind::Local);
    let a = initial_resource(&m, 0).metadata.unwrap().uid;
    let b = initial_resource(&m, 0).metadata.unwrap().uid;
    assert_eq!(a.len(), 36);
    assert!(a != b);
    let e = config_error_resource("(Tiltfile)", "bad");
    let when = e.status.unwrap().conditions[0].last_transition_time.clone().unwrap();
    assert!(when.contains('T') && when.ends_with("+00:00"));
}

#[test]
fn resources_start_out_pending() {
    let mut m = Manifest::new("web", TargetKind::Local);
    m.links.push(("http://x".to_string(), "x".to_string()));
    let r = initial_resource_with(&m, 3, "u");
    let st = r.status.as_ref().unwrap();
    assert_eq!(st.order, Some(3));
    assert_eq!(st.update_status.as_deref(), Some("pending"));
    assert_eq!(st.runtime_status.as_deref(), Some("not_applicable"));
    assert_eq!(st.endpoint_links[0].url.as_deref(), Some("http://x"));
    assert!(r.metadata.as_ref().unwrap().labels.is_none());
    let shown = snapshot(&r);
    assert_eq!(shown.name, "web");
    assert_eq!(shown.kind, "local");
    assert_eq!(shown.url.as_deref(), Some("http://x"));
    assert!(!shown.paused);
    m.serve_cmd.argv.push("x".to_string());
    m.labels.push(("a".to_string(), "b".to_string()));
    let served = initial_resource_with(&m, 0, "u");
    assert_eq!(served.status.unwrap().runtime_status.as_deref(), Some("pending"));
    assert_eq!(served.metadata.unwrap().labels.unwrap().len(), 1);
}

#[test]
fn snapshots_show_what_is_known() {
    let mut r = config_error_resource_with("(Tiltfile)", "bad", "u", "now");
    assert_eq!(snapshot(&r).update_status, "error");
    r.status = None;
    r.metadata = None;
    let empty = snapshot(&r);
    assert_eq!((empty.name.as_str(), empty.kind.as_str()), ("", "local"));
    let mut st = UIResourceStatus::default();
    st.local_resource_info = Some(starling::api::v1alpha1::UIResourceLocal {
        restart_count: Some(-1),
        ..Default::default()
    });
    r.status = Some(st);
    assert_eq!(snapshot(&r).restart_count, None);
}

#[test]
fn the_session_is_seeded() {
    let (session, clusters) = env_seed("2026-01-01T00:00:00Z", "x86_64");
    let st = session.status.unwrap();
    assert_eq!(st.tilt_start_time.as_deref(), Some("2026-01-01T00:00:00Z"));
    assert_eq!(st.tiltfile_key.as_deref(), Some("Starlingfile"));
    assert_eq!(clusters.len(), 1);
    assert_eq!(clusters[0].status.as_ref().unwrap().arch.as_deref(), Some("x86_64"));
}

#[test]
fn certificates_are_kept_and_trusted() {
    assert!(ca_cert_path().ends_with("/.starling/ca.pem"));
    assert!(ca_key_path().ends_with("/.starling/ca-key.pem"));
    assert_eq!(certificate_name(None), "localhost");
    assert_eq!(certificate_name(Some("web.test")), "web.test");
    let linux = trust_commands(Platform::Linux, "/c");
    assert_eq!(linux.len(), 2);
    assert_eq!(linux[1], vec!["sudo", "update-ca-certificates"]);
    assert_eq!(
        trust_commands(Platform::Windows, "/c"),
        vec![vec!["certutil", "-addstore", "-f", "ROOT", "/c"]]
    );
    assert_eq!(trust_commands(Platform::MacOs, "/c")[0].last().unwrap(), "/c");
}

#[test]
fn hosts_are_advertised_below_local() {
    assert_eq!(local_name("web-shop.localhost"), "web-shop.local");
    assert_eq!(
        advertise_command(Platform::Linux, "web.localhost", "10.0.0.1"),
        vec!["avahi-publish-address", "web.local", "10.0.0.1"]
    );
    assert_eq!(
        advertise_command(Platform::MacOs, "web", "10.0.0.1"),
        vec!["dns-sd", "-P", "web", "_http._tcp", "local", "80", "web.local", "10.0.0.1"]
    );
    assert_eq!(tailscale_command(1360), vec!["tailscale", "serve", "--bg", "1360"]);
}

#[test]
fn clusters_are_talked_to() {
    assert!(use_kube_rs(Some("1")));
    assert!(!use_kube_rs(Some("true")));
    assert!(!use_kube_rs(None));
    assert_eq!(api_group_version("apps/v1"), ("apps".to_string(), "v1".to_string()));
    assert_eq!(api_group_version("v1"), (String::new(), "v1".to_string()));
    let status = |s: Option<&str>, m: Option<&str>| {
        Some(ExecStatus {
            status: s.map(|x| x.to_string()),
            message: m.map(|x| x.to_string()),
        })
    };
    assert!(attach_succeeded(&status(Some("Success"), None)).is_ok());
    assert_eq!(
        attach_succeeded(&status(Some("Failure"), Some("boom"))).unwrap_err(),
        "exec failed: boom"
    );
    assert_eq!(
        attach_succeeded(&status(None, None)).unwrap_err(),
        "exec failed: non-zero exit"
    );
    assert_eq!(
        attach_succeeded(&None).unwrap_err(),
        "exec produced no terminal status"
    );
    assert_eq!(copy_command("/x"), vec!["sh", "-c", "cat > /x"]);
}

fn all_lines() -> LogQuery {
    LogQuery {
        resource: None,
        level: None,
        since: None,
        until: None,
    }
}

fn logged(span: &str, level: &str, time: &str, text: &str) -> LogEntry {
    LogEntry {
        span: span.to_string(),
        level: level.to_string(),
        time: time.to_string(),
        text: text.to_string(),
    }
}

#[test]
fn read_logs_route_filters_by_resource_and_level() {
    let entries = vec![
        logged("web", "INFO", "t1", "hello\n"),
        logged("web", "ERROR", "t2", "boom\n"),
        logged("api", "INFO", "t3", "other\n"),
    ];
    let query = LogQuery {
        resource: Some("web".to_string()),
        level: Some("ERROR".to_string()),
        ..all_lines()
    };
    let reply = read_logs(&entries, &query);
    assert_eq!(reply.status, 200);
    let body = body(&reply);
    let items = body.at("items").as_list().unwrap();
    assert_eq!(items.len(), 1);
    assert_eq!(items[0].at("span").as_str(), Some("web"));
    assert_eq!(items[0].at("level").as_str(), Some("ERROR"));
}

#[test]
fn logs_are_read_by_time_and_span() {
    let entries = vec![
        logged("web:build:1", "INFO", "2026-01-01T00:00:00Z", "a"),
        logged("webs", "WARN", "2026-01-02T00:00:00Z", "b"),
        logged("web", "DEBUG", "2026-01-03T00:00:00Z", "c"),
    ];
    let count = |q: LogQuery| {
        let reply = read_logs(&entries, &q);
        body(&reply).at("items").as_list().unwrap().len()
    };
    assert_eq!(count(all_lines()), 3);
    let resource = Some("web".to_string());
    assert_eq!(count(LogQuery { resource, ..all_lines() }), 2);
    let level = Some("INFO".to_string());
    assert_eq!(count(LogQuery { level, ..all_lines() }), 2);
    let since = Some("2026-01-02T00:00:00Z".to_string());
    assert_eq!(count(LogQuery { since, ..all_lines() }), 2);
    let until = Some("2026-01-02T00:00:00Z".to_string());
    assert_eq!(count(LogQuery { until, ..all_lines() }), 1);
}

#[test]
fn cli_write_verbs_round_trip_against_object_store() {
    let mut store = ApiObjectStore::new();
    let obj = || {
        json(
            r#"{"kind": "FileWatch", "metadata": {"name": "web"},
                "spec": {"watchedPaths": ["./src"]}}"#,
        )
    };
    // create (POST) -> 201; second create -> 409.
    assert_eq!(create_object(&mut store, "FileWatch", obj()).status, 201);
    assert_eq!(create_object(&mut store, "FileWatch", obj()).status, 409);
    // get -> 200, reflects the spec.
    let reply = get_object(&store, "FileWatch", "web");
    assert_eq!(reply.status, 200);
    let paths = body(&reply).at("spec").at("watchedPaths").as_list().unwrap();
    assert_eq!(paths[0].as_str(), Some("./src"));
    // patch (merge) -> 200; the store reflects it.
    let patch = json(r#"{"spec": {"manual": true}}"#);
    assert_eq!(patch_object(&mut store, "FileWatch", "web", patch).status, 200);
    let stored = store.get("FileWatch", "default", "web").unwrap();
    assert!(stored.object.at("spec").at("manual").is_true());
    // patch a missing object -> 404.
    let patch = json(r#"{"spec": {}}"#);
    assert_eq!(patch_object(&mut store, "FileWatch", "nope", patch).status, 404);
    // delete -> 200, then it's gone.
    assert_eq!(delete_object(&mut store, "FileWatch", "web").status, 200);
    assert!(store.get("FileWatch", "default", "web").is_none());
}

#[test]
fn documents_are_applied_in_order() {
    let yaml = "apiVersion: apps/v1\nkind: Deployment\nmetadata:\n  name: web\n  namespace: prod\n---\n---\napiVersion: v1\nkind: Service\nmetadata:\n  name: api\nspec:\n  n: 3\n";
    let docs = documents_to_apply(yaml).unwrap();
    assert_eq!(docs.len(), 2);
    let types = apply_type(&docs[0].doc).unwrap();
    assert_eq!((types.group.as_str(), types.version.as_str()), ("apps", "v1"));
    assert_eq!(types.kind, "Deployment");
    let first = apply_target(&docs[0].doc, true).unwrap();
    assert_eq!((first.namespace.as_str(), first.name.as_str()), ("prod", "web"));
    let second = apply_target(&docs[1].doc, true).unwrap();
    assert_eq!((second.namespace.as_str(), second.name.as_str()), ("default", "api"));
    assert_eq!(apply_type(&docs[1].doc).unwrap().group, "");
    assert_eq!(docs[1].object.metadata.name.as_deref(), Some("api"));
    assert_eq!(docs[1].doc.at("spec").at("n"), &json("3"));
    assert!(documents_to_apply("").unwrap().is_empty());
}

#[test]
fn what_cannot_be_applied_is_told_in_order() {
    let missing = json(r#"{"kind": "Pod", "metadata": {"name": "x"}}"#);
    let error = "object missing apiVersion/kind";
    assert_eq!(apply_type(&missing).unwrap_err(), error);
    assert_eq!(apply_target(&missing, false).unwrap_err(), error);
    let unnamed = json(r#"{"apiVersion": "x.io/v1", "kind": "Thing"}"#);
    assert_eq!(
        apply_target(&unnamed, false).unwrap_err(),
        "unknown resource for x.io/v1/Thing"
    );
    assert_eq!(
        apply_target(&unnamed, true).unwrap_err(),
        "Thing object missing metadata.name"
    );
    let unreadable = documents_to_apply("kind: Pod\n---\na: [1\n").unwrap_err();
    assert!(unreadable.starts_with("parse yaml: "), "{unreadable}");
    let no_object = documents_to_apply("metadata: 3\n---\na: [1\n").unwrap_err();
    assert!(no_object.starts_with("parse object: "), "{no_object}");
    assert_eq!(kubectl_ended(true, &b"warning".to_vec()), Ok(()));
    assert_eq!(
        kubectl_ended(false, &b" no such host \n".to_vec()),
        Err("no such host".to_string())
    );
}

#[test]
fn sessions_take_the_settings_of_a_config() {
    let (session, _) = env_seed("t0", "x86_64");
    let mut st = session.status.unwrap();
    let flags = vec![("live".to_string(), true), ("old".to_string(), false)];
    apply_session_settings(&mut st, Some("team".to_string()), &flags);
    assert_eq!(st.tilt_cloud_team_id.as_deref(), Some("team"));
    assert_eq!(st.feature_flags.len(), 2);
    assert_eq!(st.feature_flags[1].name.as_deref(), Some("old"));
    assert_eq!(st.feature_flags[1].value, Some(false));
    apply_session_settings(&mut st, None, &vec![]);
    assert_eq!(st.tilt_cloud_team_id.as_deref(), Some("team"));
    assert!(st.feature_flags.is_empty());
    assert_eq!(st.tilt_start_time.as_deref(), Some("t0"));
}

#[test]
fn documents_that_break_off_are_not_applied() {
    for broken in ["[*x]", "a: *x", "kind: Pod\napiVersion: v1\n---\n[*x]\n"] {
        let error = documents_to_apply(broken).unwrap_err();
        assert!(error.starts_with("parse yaml: unknown anchor"), "{error}");
    }
}
