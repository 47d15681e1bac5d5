use starling::api::merge::merge_patch;
use starling::api::store::{
    known_kinds, openapi_document, spec_fields, ApiError, ApiObjectStore, ObjectEvent,
};
use starling::json::Json;
use starling::trees::parse_json;

fn json(text: &str) -> Json {
    parse_json(text).expect("valid JSON")
}

#[test]
fn openapi_document_has_per_kind_schemas() {
    let doc = openapi_document();
    assert_eq!(doc.at("openapi").as_str(), Some("3.0.0"));
    let schemas = doc.at("components").at("schemas");
    for kind in known_kinds() {
        assert!(schemas.get(kind).is_some(), "missing schema for {kind}");
    }
    let field = |kind: &str, name: &str| {
        schemas
            .at(kind)
            .at("properties")
            .at("spec")
            .at("properties")
            .at(name)
            .at("type")
            .as_str()
            .map(|s| s.to_string())
    };
    assert_eq!(field("KubernetesApply", "yaml").as_deref(), Some("string"));
    assert_eq!(field("Cmd", "args").as_deref(), Some("array"));
    assert_eq!(field("LiveUpdate", "restart").as_deref(), Some("boolean"));
    assert_eq!(field("ConfigMap", "data").as_deref(), Some("object"));
}

#[test]
fn create_get_list_delete_roundtrip() {
    let mut store = ApiObjectStore::new();
    store
        .create("KubernetesApply", "default", "web", json(r#"{"spec": {"yaml": "a"}}"#))
        .unwrap();
    store
        .create("KubernetesApply", "default", "api", json(r#"{"spec": {"yaml": "b"}}"#))
        .unwrap();

    let got = store.get("KubernetesApply", "default", "web").unwrap();
    assert_eq!(got.name, "web");
    assert_eq!(got.uid, "uid-1");
    assert_eq!(got.object.at("metadata").at("name").as_str(), Some("web"));
    assert_eq!(got.object.at("metadata").at("uid").as_str(), Some("uid-1"));
    assert_eq!(got.object.at("apiVersion").as_str(), Some("tilt.dev/v1alpha1"));

    let list = store.list("KubernetesApply");
    assert_eq!(
        list.iter().map(|o| o.name.as_str()).collect::<Vec<_>>(),
        vec!["api", "web"]
    );

    let removed = store.delete("KubernetesApply", "default", "web").unwrap();
    assert_eq!(removed.name, "web");
    assert!(store.get("KubernetesApply", "default", "web").is_none());
    assert_eq!(store.list("KubernetesApply").len(), 1);
}

#[test]
fn resource_version_is_monotonic_and_create_is_unique() {
    let mut store = ApiObjectStore::new();
    let a = store.create("Cmd", "default", "x", json("{}")).unwrap();
    let b = store.create("Cmd", "default", "y", json("{}")).unwrap();
    assert!(b.resource_version > a.resource_version);

    let err = store.create("Cmd", "default", "x", json("{}")).unwrap_err();
    assert_eq!(
        err,
        ApiError::AlreadyExists {
            kind: "Cmd".into(),
            name: "x".into()
        }
    );
    assert_eq!(err.message(), "Cmd \"x\" already exists");

    let r = store
        .replace("Cmd", "default", "x", json(r#"{"spec": {"args": ["echo"]}}"#))
        .unwrap();
    assert_eq!(r.uid, a.uid);
    assert!(r.resource_version > b.resource_version);
    assert_eq!(r.object.at("spec").at("args"), &json(r#"["echo"]"#));

    let missing = store
        .replace("Cmd", "default", "missing", json("{}"))
        .unwrap_err();
    assert_eq!(
        missing,
        ApiError::NotFound {
            kind: "Cmd".into(),
            name: "missing".into()
        }
    );
    assert_eq!(missing.message(), "Cmd \"missing\" not found");
}

#[test]
fn apply_creates_then_replaces() {
    let mut store = ApiObjectStore::new();
    let first = store.apply("FileWatch", "default", "fw", json(r#"{"spec": {"a": 1}}"#));
    assert_eq!(first.resource_version, 1);
    let second = store.apply("FileWatch", "default", "fw", json(r#"{"spec": {"a": 2}}"#));
    assert_eq!(second.uid, first.uid);
    assert!(second.resource_version > first.resource_version);
    assert_eq!(second.object.at("spec").at("a"), &Json::Pos(2));
    assert_eq!(store.list("FileWatch").len(), 1);
}

#[test]
fn patch_merges_and_deletes_keys() {
    let mut store = ApiObjectStore::new();
    store
        .create(
            "Cmd",
            "default",
            "x",
            json(r#"{"spec": {"args": ["a"], "dir": "/tmp", "env": ["K=v"]}}"#),
        )
        .unwrap();
    let patched = store
        .patch("Cmd", "default", "x", json(r#"{"spec": {"args": ["b"], "dir": null}}"#))
        .unwrap();
    assert_eq!(patched.object.at("spec").at("args"), &json(r#"["b"]"#));
    assert_eq!(patched.object.at("spec").at("env"), &json(r#"["K=v"]"#));
    assert!(patched.object.at("spec").get("dir").is_none());

    assert_eq!(
        store
            .patch("Cmd", "default", "missing", json("{}"))
            .unwrap_err(),
        ApiError::NotFound {
            kind: "Cmd".into(),
            name: "missing".into()
        }
    );
}

#[test]
fn watch_emits_add_modify_delete() {
    let mut store = ApiObjectStore::new();
    store.create("Cmd", "default", "x", json("{}")).unwrap();
    store
        .replace("Cmd", "default", "x", json(r#"{"spec": {}}"#))
        .unwrap();
    store.delete("Cmd", "default", "x");

    let events = store.take_events();
    assert_eq!(events.len(), 3);
    assert!(matches!(&events[0], ObjectEvent::Added(o) if o.name == "x"));
    assert!(matches!(&events[1], ObjectEvent::Modified(o) if o.name == "x"));
    assert!(matches!(&events[2], ObjectEvent::Deleted(o) if o.name == "x"));
    assert!(store.take_events().is_empty());
}

#[test]
fn explain_knows_core_kinds() {
    for k in known_kinds() {
        assert!(spec_fields(k).is_some(), "missing fields for {k}");
    }
    assert!(spec_fields("KubernetesApply").unwrap().contains(&"yaml"));
    assert!(spec_fields("Cmd").unwrap().contains(&"args"));
    assert!(spec_fields("NotAKind").is_none());
}

#[test]
fn kinds_are_sorted_and_distinct() {
    let mut store = ApiObjectStore::new();
    store.apply("Session", "default", "s", json("{}"));
    store.apply("Cmd", "default", "b", json("{}"));
    store.apply("Cmd", "default", "a", json("{}"));
    assert_eq!(store.kinds(), vec!["Cmd", "Session"]);
    let all: Vec<String> = store.all().iter().map(|o| o.name.clone()).collect();
    assert_eq!(all, vec!["a", "b", "s"]);
}

#[test]
fn a_body_that_is_no_table_is_stored_as_one() {
    let mut store = ApiObjectStore::new();
    let o = store.apply("Cmd", "default", "x", json("7"));
    assert_eq!(o.object.at("kind").as_str(), Some("Cmd"));
    assert_eq!(o.object.at("metadata").at("resourceVersion").as_str(), Some("1"));
    assert_eq!(o.object.at("metadata").at("namespace").as_str(), Some("default"));
}

#[test]
fn deleting_a_missing_object_changes_nothing() {
    let mut store = ApiObjectStore::new();
    store.apply("Cmd", "default", "x", json("{}"));
    assert!(store.delete("Cmd", "default", "y").is_none());
    let o = store.apply("Cmd", "default", "z", json("{}"));
    assert_eq!(o.resource_version, 2);
    assert!(store.has_room(1));
    assert!(!store.has_room(u64::MAX));
}

#[test]
fn merge_patch_replaces_what_is_no_table() {
    let target = json(r#"{"a": [1, 2], "b": {"c": 1}}"#);
    let merged = merge_patch(target, &json(r#"{"a": [3], "b": 5, "d": {"x": null, "y": 1}}"#));
    assert_eq!(merged, json(r#"{"a": [3], "b": 5, "d": {"y": 1}}"#));
    let merged = merge_patch(merged, &json("[1]"));
    assert_eq!(merged, json("[1]"));
}

#[test]
fn merge_patch_twice_is_once() {
    let patch = json(r#"{"spec": {"a": null, "b": 2}}"#);
    let once = merge_patch(json(r#"{"spec": {"a": 1, "c": 3}}"#), &patch);
    let twice = merge_patch(once.clone(), &patch);
    assert_eq!(once, json(r#"{"spec": {"b": 2, "c": 3}}"#));
    assert_eq!(once, twice);
}
