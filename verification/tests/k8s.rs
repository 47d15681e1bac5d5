use starling::k8s::parse_yaml;

const YAML: &str = r#"
apiVersion: apps/v1
kind: Deployment
metadata:
  name: web
spec:
  selector:
    matchLabels:
      app: web
  template:
    metadata:
      labels:
        app: web
    spec:
      initContainers:
      - name: init
        image: busybox:1.36
      containers:
      - name: web
        image: myreg/web:dev
---
apiVersion: v1
kind: Service
metadata:
  name: web
spec:
  ports:
  - port: 80
"#;

fn label<'a>(labels: &'a [(String, String)], key: &str) -> Option<&'a str> {
    labels.iter().find(|(k, _)| k == key).map(|(_, v)| v.as_str())
}

#[test]
fn parses_workload_and_service() {
    let entities = parse_yaml(YAML);
    assert_eq!(entities.len(), 2);

    let dep = &entities[0];
    assert_eq!(dep.kind, "Deployment");
    assert_eq!(dep.name, "web");
    assert!(dep.is_workload());
    assert_eq!(dep.images, vec!["busybox:1.36", "myreg/web:dev"]);
    assert_eq!(label(&dep.match_labels, "app"), Some("web"));
    assert_eq!(dep.namespace, "default");
    assert_eq!(dep.api_version, "apps/v1");
    assert_eq!(dep.group(), "apps");

    let svc = &entities[1];
    assert_eq!(svc.kind, "Service");
    assert!(!svc.is_workload());
    assert!(svc.images.is_empty());
    assert_eq!(svc.group(), "");
}

#[test]
fn skips_non_resource_docs() {
    let entities = parse_yaml("---\nfoo: bar\n---\n# just a comment\n");
    assert!(entities.is_empty());
}

#[test]
fn job_selector_uses_pod_template_labels_not_metadata() {
    let yaml = r#"
apiVersion: batch/v1
kind: Job
metadata:
  name: db-migrate
  labels:
    app.kubernetes.io/managed-by: Helm
    helm.sh/chart: app-agent-0.1.0
spec:
  template:
    metadata:
      labels:
        app: db-migrate
    spec:
      containers:
      - name: migrate
        image: app-agent-grpc:dev
"#;
    let entities = parse_yaml(yaml);
    let job = &entities[0];
    assert_eq!(job.kind, "Job");
    assert!(job.is_workload());
    assert_eq!(label(&job.match_labels, "app"), Some("db-migrate"));
    assert_eq!(label(&job.match_labels, "helm.sh/chart"), None);
}

#[test]
fn documents_behind_an_error_are_dropped() {
    let entities = parse_yaml("kind: Pod\nmetadata:\n  name: a\n---\nkind: [\n");
    assert_eq!(entities.len(), 1);
    assert_eq!(entities[0].name, "a");
}

#[test]
fn documents_are_written_as_yaml_again() {
    let entities = parse_yaml("{kind: Pod, metadata: {name: a, namespace: b}}");
    assert_eq!(entities[0].namespace, "b");
    assert_eq!(entities[0].raw, "kind: Pod\nmetadata:\n  name: a\n  namespace: b\n");
}

#[test]
fn images_and_values_are_sorted_and_distinct() {
    let yaml = r#"
kind: Pod
metadata:
  name: p
spec:
  containers:
  - image: b
    env:
    - name: X
      value: two
    - name: Y
      value: one
  - image: a
    env:
    - name: Z
      value: two
  - image: b
"#;
    let p = &parse_yaml(yaml)[0];
    assert_eq!(p.images, vec!["a", "b"]);
    assert_eq!(p.env_values, vec!["one", "two"]);
}

#[test]
fn labels_map_texts_to_texts_or_are_none() {
    let parsed = |labels: &str| {
        let yaml = format!(
            "kind: Deployment\nmetadata:\n  name: web\nspec:\n  selector:\n    matchLabels: {labels}\n  template:\n    metadata:\n      labels: {{tier: front}}\n"
        );
        parse_yaml(&yaml)[0].match_labels.clone()
    };
    let label = |k: &str, v: &str| vec![(k.to_string(), v.to_string())];
    assert_eq!(parsed("{app: web}"), label("app", "web"));
    assert_eq!(parsed("{app: web, n: 3}"), label("tier", "front"));
    assert_eq!(parsed("{app: web, 3: n}"), label("tier", "front"));
    assert_eq!(parsed("web"), label("tier", "front"));
}

#[test]
fn documents_that_cannot_be_read_are_skipped() {
    let pod = "kind: Pod\nmetadata: {name: a}\n";
    let twice = parse_yaml(&format!("kind: Pod\nkind: Job\n---\n{pod}"));
    assert_eq!(twice.len(), 1);
    assert_eq!(twice[0].name, "a");
    let anchored = parse_yaml("kind: &k Pod\nmetadata: {name: *k}\n---\na: &a [*a]\n---\nkind: Job\nmetadata: {name: b}\n");
    assert_eq!(anchored.len(), 2);
    assert_eq!((anchored[0].name.as_str(), anchored[1].name.as_str()), ("Pod", "b"));
}

#[test]
fn documents_that_break_off_end_the_text() {
    let pod = "kind: Pod\nmetadata: {name: a}\n";
    for broken in ["[*x]", "a: *x", "a: [*x, *y]", "a: [1", "\"open", "a: b: c"] {
        assert!(parse_yaml(broken).is_empty(), "{broken}");
        assert_eq!(parse_yaml(&format!("{pod}---\n{broken}\n---\n{pod}")).len(), 1, "{broken}");
    }
}

#[test]
fn documents_without_anything_in_them_are_skipped() {
    let pod = "kind: Pod\nmetadata: {name: a}\n";
    assert!(parse_yaml("*x").is_empty());
    assert_eq!(parse_yaml(&format!("*x\n---\n{pod}")).len(), 1);
    assert_eq!(parse_yaml(&format!("{pod}---\n*x\n---\n*y\n---\n{pod}---\n*x\n")).len(), 2);
    assert_eq!(parse_yaml(&format!("{pod}---\n*x\n---\n[*x]\n---\n{pod}")).len(), 1);
    assert_eq!(parse_yaml(&format!("true\n---\n{pod}---\n3\n---\n{pod}")).len(), 2);
}
