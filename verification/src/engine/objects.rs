//! The API objects that mirror what a config declares.

use vstd::prelude::*;
use vstd::string::*;

use crate::engine::builds::joined_docs;
use crate::engine::images::{assignment_texts, assignments};
use crate::engine::live_update::{fallback_paths, live_update_fallback_paths};
use crate::json::{
    empty_table, list_view, list_view_push, text_list, with_key, Json, JsonV,
};
use crate::manifest::{
    builds_on_change, DockerBuild, IgnoreRule, LiveUpdateStep, Manifest, PortForwardSpec,
};
use crate::text::{joined, pairs, texts, texts_push};

verus! {

/// A table with one entry.
pub open spec fn one(k: Seq<char>, v: JsonV) -> JsonV {
    with_key(empty_table(), k, v)
}

fn one_entry(k: &str, v: Json) -> (r: Json)
    ensures
        r@ == one(k@, v@),
{
    Json::table().with(k, v)
}

/// A text as a JSON value.
pub open spec fn txt(s: Seq<char>) -> JsonV {
    JsonV::Text(s)
}

/// Labels as a table.
pub open spec fn label_table(p: Seq<(Seq<char>, Seq<char>)>) -> JsonV
    decreases p.len(),
{
    if p.len() == 0 {
        empty_table()
    } else {
        with_key(label_table(p.drop_last()), p.last().0, JsonV::Text(p.last().1))
    }
}

/// Labels as a table.
pub fn label_json(p: &Vec<(String, String)>) -> (r: Json)
    ensures
        r@ == label_table(pairs(p@)),
{
    let ghost all = pairs(p@);
    let mut r: Json = Json::table();
    let mut i: usize = 0;
    assert(all.take(0) =~= Seq::empty());
    while i < p.len()
        invariant
            i <= p@.len(),
            all == pairs(p@),
            r@ == label_table(all.take(i as int)),
        decreases p@.len() - i,
    {
        proof {
            assert(all.take(i + 1).drop_last() =~= all.take(i as int));
            assert(all.take(i + 1).last() == (p@[i as int].0@, p@[i as int].1@));
        }
        r = r.with(p[i].0.as_str(), Json::text(p[i].1.as_str()));
        i += 1;
    }
    assert(all.take(i as int) =~= all);
    r
}

/// The images that a resource builds.
pub open spec fn image_refs(v: Seq<DockerBuild>) -> Seq<Seq<char>> {
    v.map_values(|b: DockerBuild| b.image_ref@)
}

/// The `KubernetesApply` object of a resource: how it is applied, and the images
/// that it is built with.
pub open spec fn kubernetes_apply(m: Manifest) -> JsonV {
    let how = match m.k8s_custom_apply_cmd {
        Some(c) => one("applyCmd"@, one("args"@, text_list(texts(c.argv@)))),
        None => one("yaml"@, txt(joined_docs(m))),
    };
    let spec = if m.docker_builds@.len() > 0 {
        with_key(how, "imageMaps"@, text_list(image_refs(m.docker_builds@)))
    } else {
        how
    };
    one("spec"@, spec)
}

/// The `KubernetesApply` object of a resource.
pub fn kubernetes_apply_object(m: &Manifest) -> (r: Json)
    ensures
        r@ == kubernetes_apply(*m),
{
    broadcast use texts_push;

    let mut spec: Json = match &m.k8s_custom_apply_cmd {
        Some(c) => one_entry("applyCmd", one_entry("args", Json::text_list(&c.argv))),
        None => one_entry("yaml", Json::Text(joined(&m.k8s_apply_docs, "\n---\n"))),
    };
    let mut images: Vec<String> = Vec::new();
    let mut i: usize = 0;
    let ghost all = image_refs(m.docker_builds@);
    assert(texts(images@) =~= all.take(0));
    while i < m.docker_builds.len()
        invariant
            i <= m.docker_builds@.len(),
            all == image_refs(m.docker_builds@),
            texts(images@) == all.take(i as int),
        decreases m.docker_builds@.len() - i,
    {
        images.push(m.docker_builds[i].image_ref.clone());
        assert(all.take(i + 1) =~= all.take(i as int).push(
            m.docker_builds@[i as int].image_ref@,
        ));
        i += 1;
    }
    assert(all.take(i as int) =~= all);
    if m.docker_builds.len() > 0 {
        spec = spec.with("imageMaps", Json::text_list(&images));
    }
    one_entry("spec", spec)
}

/// The outcome of applying a resource.
pub open spec fn apply_status(time: Seq<char>, error: Seq<char>) -> JsonV {
    with_key(one("lastApplyTime"@, txt(time)), "error"@, txt(error))
}

/// The outcome of applying a resource.
pub fn apply_status_json(time: &str, error: &str) -> (r: Json)
    ensures
        r@ == apply_status(time@, error@),
{
    one_entry("lastApplyTime", Json::text(time)).with("error", Json::text(error))
}

/// The text, or the empty one.
pub open spec fn text_or_none(o: Option<Seq<char>>) -> Seq<char> {
    match o {
        Some(s) => s,
        None => Seq::empty(),
    }
}

/// The `KubernetesApply` object of a resource with the outcome of applying it.
pub fn kubernetes_apply_object_with_status(
    m: &Manifest,
    last_apply_time: &str,
    error: Option<&str>,
) -> (r: Json)
    ensures
        r@ == with_key(
            kubernetes_apply(*m),
            "status"@,
            apply_status(
                last_apply_time@,
                text_or_none(
                    match error {
                        Some(e) => Some(e@),
                        None => None,
                    },
                ),
            ),
        ),
{
    let status = match error {
        Some(e) => apply_status_json(last_apply_time, e),
        None => {
            let none = String::new();
            apply_status_json(last_apply_time, none.as_str())
        },
    };
    kubernetes_apply_object(m).with("status", status)
}

/// The `Tiltfile` object: the config file, and the resources that it declares.
pub open spec fn tiltfile(path: Seq<char>, names: Seq<Seq<char>>) -> JsonV {
    with_key(
        one("spec"@, one("path"@, txt(path))),
        "status"@,
        one("resourceNames"@, text_list(names)),
    )
}

/// The `Tiltfile` object.
pub fn tiltfile_object(path: &str, resource_names: &Vec<String>) -> (r: Json)
    ensures
        r@ == tiltfile(path@, texts(resource_names@)),
{
    one_entry("spec", one_entry("path", Json::text(path))).with(
        "status",
        one_entry("resourceNames", Json::text_list(resource_names)),
    )
}

/// An ignore rule as an entry of a `FileWatch` object.
pub open spec fn ignore_entry(r: IgnoreRule) -> JsonV {
    with_key(
        one("basePath"@, txt(r.base@)),
        "patterns"@,
        JsonV::List(seq![txt(r.pattern@)]),
    )
}

fn single_text(s: &str) -> (r: Json)
    ensures
        r@ == JsonV::List(seq![txt(s@)]),
{
    let mut v: Vec<Json> = Vec::new();
    let item = Json::text(s);
    proof {
        list_view_push(v@, item);
        assert(list_view(v@.push(item)) =~= seq![txt(s@)]);
    }
    v.push(item);
    Json::List(v)
}

fn ignore_entries(rules: &Vec<IgnoreRule>) -> (r: Json)
    ensures
        r@ == JsonV::List(rules@.map_values(|r: IgnoreRule| ignore_entry(r))),
{
    let ghost all = rules@.map_values(|r: IgnoreRule| ignore_entry(r));
    let mut out: Vec<Json> = Vec::new();
    let mut i: usize = 0;
    assert(list_view(out@) =~= all.take(0));
    while i < rules.len()
        invariant
            i <= rules@.len(),
            all == rules@.map_values(|r: IgnoreRule| ignore_entry(r)),
            list_view(out@) == all.take(i as int),
        decreases rules@.len() - i,
    {
        let item = one_entry("basePath", Json::text(rules[i].base.as_str())).with(
            "patterns",
            single_text(rules[i].pattern.as_str()),
        );
        proof {
            list_view_push(out@, item);
            assert(all.take(i + 1) =~= all.take(i as int).push(ignore_entry(rules@[i as int])));
        }
        out.push(item);
        i += 1;
    }
    assert(all.take(i as int) =~= all);
    Json::List(out)
}

/// The `FileWatch` object of a resource: what it watches and ignores, whether it is
/// built only when asked, and which changes call for a full rebuild.
pub open spec fn file_watch(m: Manifest) -> JsonV {
    one(
        "spec"@,
        with_key(
            with_key(
                with_key(
                    one("watchedPaths"@, text_list(texts(m.deps@))),
                    "ignores"@,
                    JsonV::List(m.ignore_rules@.map_values(|r: IgnoreRule| ignore_entry(r))),
                ),
                "manual"@,
                JsonV::Bool(!builds_on_change(m.trigger_mode)),
            ),
            "fallbackPaths"@,
            text_list(fallback_paths(m.live_update@)),
        ),
    )
}

/// The `FileWatch` object of a resource.
pub fn file_watch_object(m: &Manifest) -> (r: Json)
    ensures
        r@ == file_watch(*m),
{
    let spec = one_entry("watchedPaths", Json::text_list(&m.deps)).with(
        "ignores",
        ignore_entries(&m.ignore_rules),
    ).with("manual", Json::Bool(!m.auto_on_change())).with(
        "fallbackPaths",
        Json::text_list(&live_update_fallback_paths(m)),
    );
    one_entry("spec", spec)
}

/// A port forward as an entry of a `PortForward` object.
pub open spec fn forward_entry(pf: PortForwardSpec) -> JsonV {
    with_key(
        with_key(
            with_key(
                with_key(
                    one("localPort"@, JsonV::Int(pf.local_port as int)),
                    "containerPort"@,
                    JsonV::Int(pf.container_port as int),
                ),
                "host"@,
                txt(pf.host@),
            ),
            "path"@,
            txt(pf.link_path@),
        ),
        "name"@,
        txt(pf.name@),
    )
}

fn forward_entries(v: &Vec<PortForwardSpec>) -> (r: Json)
    ensures
        r@ == JsonV::List(v@.map_values(|p: PortForwardSpec| forward_entry(p))),
{
    let ghost all = v@.map_values(|p: PortForwardSpec| forward_entry(p));
    let mut out: Vec<Json> = Vec::new();
    let mut i: usize = 0;
    assert(list_view(out@) =~= all.take(0));
    while i < v.len()
        invariant
            i <= v@.len(),
            all == v@.map_values(|p: PortForwardSpec| forward_entry(p)),
            list_view(out@) == all.take(i as int),
        decreases v@.len() - i,
    {
        let pf = &v[i];
        let item = one_entry("localPort", Json::Pos(pf.local_port as u64)).with(
            "containerPort",
            Json::Pos(pf.container_port as u64),
        ).with("host", Json::text(pf.host.as_str())).with(
            "path",
            Json::text(pf.link_path.as_str()),
        ).with("name", Json::text(pf.name.as_str()));
        proof {
            list_view_push(out@, item);
            assert(all.take(i + 1) =~= all.take(i as int).push(forward_entry(v@[i as int])));
        }
        out.push(item);
        i += 1;
    }
    assert(all.take(i as int) =~= all);
    Json::List(out)
}

/// A selector of pods by their labels.
pub open spec fn selector(m: Manifest) -> JsonV {
    one("matchLabels"@, label_table(pairs(m.pod_selector@)))
}

fn selector_json(m: &Manifest) -> (r: Json)
    ensures
        r@ == selector(*m),
{
    one_entry("matchLabels", label_json(&m.pod_selector))
}

/// The `PortForward` object of a resource.
pub open spec fn port_forward(m: Manifest) -> JsonV {
    one(
        "spec"@,
        with_key(
            one(
                "forwards"@,
                JsonV::List(m.k8s_port_forwards@.map_values(|p: PortForwardSpec| forward_entry(p))),
            ),
            "selector"@,
            selector(m),
        ),
    )
}

/// The `PortForward` object of a resource.
pub fn port_forward_object(m: &Manifest) -> (r: Json)
    ensures
        r@ == port_forward(*m),
{
    one_entry(
        "spec",
        one_entry("forwards", forward_entries(&m.k8s_port_forwards)).with(
            "selector",
            selector_json(m),
        ),
    )
}

/// The copies of a live update.
pub open spec fn sync_entries(steps: Seq<LiveUpdateStep>) -> Seq<JsonV>
    decreases steps.len(),
{
    if steps.len() == 0 {
        Seq::empty()
    } else {
        let rest = sync_entries(steps.drop_last());
        match steps.last() {
            LiveUpdateStep::Sync { local, remote } => rest.push(
                with_key(one("localPath"@, txt(local@)), "containerPath"@, txt(remote@)),
            ),
            _ => rest,
        }
    }
}

/// The commands of a live update.
pub open spec fn exec_entries(steps: Seq<LiveUpdateStep>) -> Seq<JsonV>
    decreases steps.len(),
{
    if steps.len() == 0 {
        Seq::empty()
    } else {
        let rest = exec_entries(steps.drop_last());
        match steps.last() {
            LiveUpdateStep::Run { cmd, triggers, .. } => rest.push(
                with_key(
                    one("args"@, JsonV::List(seq![txt(cmd@)])),
                    "triggerPaths"@,
                    text_list(texts(triggers@)),
                ),
            ),
            _ => rest,
        }
    }
}

/// Whether a live update restarts the container.
pub open spec fn restarts(steps: Seq<LiveUpdateStep>) -> bool {
    exists|i: int| 0 <= i < steps.len() && #[trigger] steps[i] is RestartContainer
}

/// The `LiveUpdate` object of a resource.
pub open spec fn live_update_value(m: Manifest) -> JsonV {
    let steps = m.live_update@;
    one(
        "spec"@,
        with_key(
            with_key(
                with_key(
                    with_key(
                        one("syncs"@, JsonV::List(sync_entries(steps))),
                        "execs"@,
                        JsonV::List(exec_entries(steps)),
                    ),
                    "stopPaths"@,
                    text_list(fallback_paths(steps)),
                ),
                "restart"@,
                JsonV::Bool(restarts(steps)),
            ),
            "selector"@,
            selector(m),
        ),
    )
}

/// The `LiveUpdate` object of a resource.
pub fn live_update_object(m: &Manifest) -> (r: Json)
    ensures
        r@ == live_update_value(*m),
{
    let steps = &m.live_update;
    let mut syncs: Vec<Json> = Vec::new();
    let mut execs: Vec<Json> = Vec::new();
    let mut restart = false;
    let mut i: usize = 0;
    assert(list_view(syncs@) =~= sync_entries(steps@.take(0)));
    assert(list_view(execs@) =~= exec_entries(steps@.take(0)));
    while i < steps.len()
        invariant
            i <= steps@.len(),
            list_view(syncs@) == sync_entries(steps@.take(i as int)),
            list_view(execs@) == exec_entries(steps@.take(i as int)),
            restart == exists|j: int| 0 <= j < i && #[trigger] steps@[j] is RestartContainer,
        decreases steps@.len() - i,
    {
        proof {
            assert(steps@.take(i + 1).drop_last() =~= steps@.take(i as int));
            assert(steps@.take(i + 1).last() == steps@[i as int]);
        }
        match &steps[i] {
            LiveUpdateStep::Sync { local, remote } => {
                let item = one_entry("localPath", Json::text(local.as_str())).with(
                    "containerPath",
                    Json::text(remote.as_str()),
                );
                proof {
                    list_view_push(syncs@, item);
                }
                syncs.push(item);
            },
            LiveUpdateStep::Run { cmd, triggers, .. } => {
                let item = one_entry("args", single_text(cmd.as_str())).with(
                    "triggerPaths",
                    Json::text_list(triggers),
                );
                proof {
                    list_view_push(execs@, item);
                }
                execs.push(item);
            },
            LiveUpdateStep::RestartContainer => {
                assert(steps@[i as int] is RestartContainer);
                restart = true;
            },
            _ => {},
        }
        i += 1;
    }
    assert(steps@.take(i as int) =~= steps@);
    let spec = one_entry("syncs", Json::List(syncs)).with("execs", Json::List(execs)).with(
        "stopPaths",
        Json::text_list(&live_update_fallback_paths(m)),
    ).with("restart", Json::Bool(restart)).with("selector", selector_json(m));
    one_entry("spec", spec)
}

/// The `DockerImage` object of an image build.
pub open spec fn docker_image(b: DockerBuild) -> JsonV {
    one("spec"@, with_key(one("ref"@, txt(b.image_ref@)), "context"@, txt(b.context@)))
}

/// The `DockerImage` object of an image build.
pub fn docker_image_object(build: &DockerBuild) -> (r: Json)
    ensures
        r@ == docker_image(*build),
{
    one_entry(
        "spec",
        one_entry("ref", Json::text(build.image_ref.as_str())).with(
            "context",
            Json::text(build.context.as_str()),
        ),
    )
}

/// The `Cmd` object of a local resource: its update command.
pub open spec fn cmd_value(m: Manifest) -> JsonV {
    let args = one("args"@, text_list(texts(m.update_cmd.argv@)));
    let dir = match m.update_cmd.workdir {
        Some(d) => with_key(args, "dir"@, txt(d@)),
        None => args,
    };
    one(
        "spec"@,
        if m.update_cmd.env@.len() > 0 {
            with_key(dir, "env"@, text_list(assignments(pairs(m.update_cmd.env@))))
        } else {
            dir
        },
    )
}

/// The `Cmd` object of a local resource.
pub fn cmd_object(m: &Manifest) -> (r: Json)
    ensures
        r@ == cmd_value(*m),
{
    let mut spec: Json = one_entry("args", Json::text_list(&m.update_cmd.argv));
    if let Some(d) = &m.update_cmd.workdir {
        spec = spec.with("dir", Json::text(d.as_str()));
    }
    if m.update_cmd.env.len() > 0 {
        spec = spec.with("env", Json::text_list(&assignment_texts(&m.update_cmd.env)));
    }
    one_entry("spec", spec)
}

/// The `ImageMap` object of an image: the reference that resources name it by.
pub open spec fn image_map(image_ref: Seq<char>) -> JsonV {
    one("spec"@, one("selector"@, txt(image_ref)))
}

/// The `ImageMap` object of an image.
pub fn image_map_object(image_ref: &str) -> (r: Json)
    ensures
        r@ == image_map(image_ref@),
{
    one_entry("spec", one_entry("selector", Json::text(image_ref)))
}

/// The arguments of a build's command; none where it has none.
pub open spec fn command_args(b: DockerBuild) -> Seq<Seq<char>> {
    match b.command {
        Some(c) => texts(c.argv@),
        None => Seq::empty(),
    }
}

/// The `CmdImage` object of an image that a command builds.
pub open spec fn cmd_image(b: DockerBuild) -> JsonV {
    one(
        "spec"@,
        with_key(one("ref"@, txt(b.image_ref@)), "args"@, text_list(command_args(b))),
    )
}

/// The `CmdImage` object of an image that a command builds.
pub fn cmd_image_object(build: &DockerBuild) -> (r: Json)
    ensures
        r@ == cmd_image(*build),
{
    let args: Json = match &build.command {
        Some(c) => Json::text_list(&c.argv),
        None => {
            let none: Vec<String> = Vec::new();
            assert(texts(none@) =~= Seq::empty());
            Json::text_list(&none)
        },
    };
    one_entry("spec", one_entry("ref", Json::text(build.image_ref.as_str())).with("args", args))
}

/// The `KubernetesDiscovery` object of a resource: which pods are its own.
pub open spec fn kubernetes_discovery(m: Manifest) -> JsonV {
    one("spec"@, one("selectors"@, JsonV::List(seq![selector(m)])))
}

/// The `KubernetesDiscovery` object of a resource.
pub fn kubernetes_discovery_object(m: &Manifest) -> (r: Json)
    ensures
        r@ == kubernetes_discovery(*m),
{
    let mut v: Vec<Json> = Vec::new();
    let item = selector_json(m);
    proof {
        list_view_push(v@, item);
        assert(list_view(v@.push(item)) =~= seq![selector(*m)]);
    }
    v.push(item);
    one_entry("spec", one_entry("selectors", Json::List(v)))
}

/// The `Session` object: the resources of this run.
pub open spec fn session(names: Seq<Seq<char>>) -> JsonV {
    with_key(one("spec"@, empty_table()), "status"@, one("targets"@, text_list(names)))
}

/// The `Session` object.
pub fn session_object(resource_names: &Vec<String>) -> (r: Json)
    ensures
        r@ == session(texts(resource_names@)),
{
    one_entry("spec", Json::table()).with(
        "status",
        one_entry("targets", Json::text_list(resource_names)),
    )
}

/// A text, null where there is none.
pub open spec fn text_or_null(o: Option<String>) -> JsonV {
    match o {
        Some(s) => txt(s@),
        None => JsonV::Null,
    }
}

/// The `DockerComposeService` object of a Compose resource.
pub open spec fn dc_service(m: Manifest) -> JsonV {
    one(
        "spec"@,
        with_key(
            one("service"@, txt(m.name@)),
            "project"@,
            one("name"@, text_or_null(m.docker_compose_project)),
        ),
    )
}

/// The `DockerComposeService` object of a Compose resource.
pub fn dc_service_object(m: &Manifest) -> (r: Json)
    ensures
        r@ == dc_service(*m),
{
    let project: Json = match &m.docker_compose_project {
        Some(p) => Json::text(p.as_str()),
        None => Json::Null,
    };
    one_entry(
        "spec",
        one_entry("service", Json::text(m.name.as_str())).with(
            "project",
            one_entry("name", project),
        ),
    )
}

/// The `DockerComposeLogStream` object of a Compose resource.
pub open spec fn dc_log_stream(m: Manifest) -> JsonV {
    one("spec"@, one("service"@, txt(m.name@)))
}

/// The `DockerComposeLogStream` object of a Compose resource.
pub fn dc_log_stream_object(m: &Manifest) -> (r: Json)
    ensures
        r@ == dc_log_stream(*m),
{
    one_entry("spec", one_entry("service", Json::text(m.name.as_str())))
}

/// The `PodLogStream` object of a resource: whose logs are followed.
pub open spec fn pod_log_stream(m: Manifest) -> JsonV {
    one("spec"@, one("selector"@, selector(m)))
}

/// The `PodLogStream` object of a resource.
pub fn pod_log_stream_object(m: &Manifest) -> (r: Json)
    ensures
        r@ == pod_log_stream(*m),
{
    one_entry("spec", one_entry("selector", selector_json(m)))
}

/// The `ConfigMap` object that says whether a resource is disabled.
pub open spec fn disable_config_map(disabled: bool) -> JsonV {
    one(
        "data"@,
        one(
            "isDisabled"@,
            txt(
                if disabled {
                    "true"@
                } else {
                    "false"@
                },
            ),
        ),
    )
}

/// The `ConfigMap` object that says whether a resource is disabled.
pub fn disable_config_map_object(disabled: bool) -> (r: Json)
    ensures
        r@ == disable_config_map(disabled),
{
    let text = if disabled {
        "true"
    } else {
        "false"
    };
    one_entry("data", one_entry("isDisabled", Json::text(text)))
}

/// The `ToggleButton` object of a resource.
pub open spec fn toggle_button(m: Manifest) -> JsonV {
    one(
        "spec"@,
        with_key(
            with_key(
                one(
                    "location"@,
                    with_key(
                        one("componentType"@, txt("Resource"@)),
                        "componentID"@,
                        txt(m.name@),
                    ),
                ),
                "on"@,
                one("text"@, txt("Disable"@)),
            ),
            "off"@,
            one("text"@, txt("Enable"@)),
        ),
    )
}

/// The `ToggleButton` object of a resource.
pub fn toggle_button_object(m: &Manifest) -> (r: Json)
    ensures
        r@ == toggle_button(*m),
{
    let location = one_entry("componentType", Json::text("Resource")).with(
        "componentID",
        Json::text(m.name.as_str()),
    );
    one_entry(
        "spec",
        one_entry("location", location).with("on", one_entry("text", Json::text("Disable"))).with(
            "off",
            one_entry("text", Json::text("Enable")),
        ),
    )
}

/// The `TriggerQueue` object at the start: nothing is asked for, nothing is queued.
pub open spec fn trigger_queue() -> JsonV {
    with_key(
        one("spec"@, one("queue"@, JsonV::List(Seq::empty()))),
        "status"@,
        one("queue"@, JsonV::List(Seq::empty())),
    )
}

/// The `TriggerQueue` object at the start.
pub fn trigger_queue_object() -> (r: Json)
    ensures
        r@ == trigger_queue(),
{
    one_entry("spec", one_entry("queue", Json::empty_list())).with(
        "status",
        one_entry("queue", Json::empty_list()),
    )
}

/// A patch of the queued builds.
pub fn queue_status_patch(names: &Vec<String>) -> (r: Json)
    ensures
        r@ == one("status"@, one("queue"@, text_list(texts(names@)))),
{
    one_entry("status", one_entry("queue", Json::text_list(names)))
}

/// The `ExtensionRepo` object of a repository on disk.
pub fn extension_repo_object(path: &str) -> (r: Json)
    ensures
        r@ == one("spec"@, one("url"@, txt("file://"@ + path@))),
{
    one_entry("spec", one_entry("url", Json::Text(crate::text::cat("file://", path))))
}

/// The `Extension` object of an extension.
pub fn extension_object(reference: &str, repo: &str) -> (r: Json)
    ensures
        r@ == one("spec"@, with_key(one("repoName"@, txt(repo@)), "repoPath"@, txt(reference@))),
{
    one_entry(
        "spec",
        one_entry("repoName", Json::text(repo)).with("repoPath", Json::text(reference)),
    )
}

} // verus!
