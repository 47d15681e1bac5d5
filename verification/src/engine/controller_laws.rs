//! What controllers read from objects and write back to them, whatever the objects are.

use vstd::prelude::*;
use vstd::string::*;

use crate::api::merge::{lookup_or_null, merge, merge_members};
use crate::api::store::{StoreV, stamped_keeps};
use crate::engine::builds::{custom_env, deployed_ref, down_specs, plan_of, BuildPlan, BuildResult};
use crate::engine::controllers::{
    apply_docs, compose_argv, compose_status, compose_target, discovery_status, docs_injected,
    exec_ops, forward_status, image_maps_of, image_recorded, image_status, no_pod_status,
    selector_for, state_in, status_patch, sync_ops, update_ops, update_status, OpV,
};
use crate::engine::pods::{pods_runtime, ready_count};
use crate::engine::runs::{ImageBuildV, ImagePhase};
use crate::json::{at, empty_table, lookup_put, put, JsonV};
use crate::json_laws::{empty_has_none, key_set, stays_table};
use crate::manifest::{DockerBuild, Manifest, TargetKind};
use crate::text_laws::{blank, snug, trims_around, trims_blank};

verus! {

/// The images of a list of names are those of the names, one after the other.
pub proof fn maps_in_order(s: StoreV, a: Seq<JsonV>, b: Seq<JsonV>)
    ensures
        image_maps_of(s, a + b) == image_maps_of(s, a) + image_maps_of(s, b),
    decreases b.len(),
{
    if b.len() > 0 {
        assert((a + b).drop_last() =~= a + b.drop_last());
        assert((a + b).last() == b.last());
        maps_in_order(s, a, b.drop_last());
        assert(image_maps_of(s, a + b) =~= image_maps_of(s, a) + image_maps_of(s, b));
    } else {
        assert(a + b =~= a);
        assert(image_maps_of(s, a) + image_maps_of(s, b) =~= image_maps_of(s, a));
    }
}

/// A name gives the image that was recorded for it, selected by what its object says, else
/// by the name; it gives none where there is no object or nothing was recorded.
pub proof fn map_told(s: StoreV, name: Seq<char>, selector: Seq<char>, image: Seq<char>)
    ensures
        s.find("ImageMap"@, "default"@, name) is None ==> image_maps_of(
            s,
            seq![JsonV::Text(name)],
        ).len() == 0,
        s.find("ImageMap"@, "default"@, name) matches Some(o) ==> {
            &&& at(at(o.object, "status"@), "image"@) == JsonV::Null ==> image_maps_of(
                s,
                seq![JsonV::Text(name)],
            ).len() == 0
            &&& at(at(o.object, "status"@), "image"@) == JsonV::Text(image) && image.len() > 0 && at(
                at(o.object, "spec"@),
                "selector"@,
            ) == JsonV::Text(selector) ==> image_maps_of(s, seq![JsonV::Text(name)]) == seq![
                (selector, image),
            ]
            &&& at(at(o.object, "status"@), "image"@) == JsonV::Text(image) && image.len() > 0 && at(
                at(o.object, "spec"@),
                "selector"@,
            ) == JsonV::Null ==> image_maps_of(s, seq![JsonV::Text(name)]) == seq![(name, image)]
        },
{
    reveal_with_fuel(image_maps_of, 2);
    let one = seq![JsonV::Text(name)];
    assert(one.drop_last() =~= Seq::empty());
    assert(one.last() == JsonV::Text(name));
    assert(Seq::<(Seq<char>, Seq<char>)>::empty().push((selector, image)) =~= seq![
        (selector, image),
    ]);
    assert(Seq::<(Seq<char>, Seq<char>)>::empty().push((name, image)) =~= seq![(name, image)]);
}

/// A patch of two texts sets both.
pub proof fn two_patched(
    target: JsonV,
    a: Seq<char>,
    x: Seq<char>,
    b: Seq<char>,
    y: Seq<char>,
)
    requires
        a != b,
    ensures
        ({
            let patch = crate::json::with_key(
                crate::engine::objects::one(a, JsonV::Text(x)),
                b,
                JsonV::Text(y),
            );
            &&& at(merge(target, patch), a) == JsonV::Text(x)
            &&& at(merge(target, patch), b) == JsonV::Text(y)
            &&& patch is Table && !(merge(target, patch) is Null)
        }),
{
    let e = Seq::<(Seq<char>, JsonV)>::empty();
    let v = JsonV::Text(x);
    let w = JsonV::Text(y);
    let first = put(e, a, v);
    assert(first =~= seq![(a, v)]);
    let p = put(first, b, w);
    assert(first.drop_first() =~= e);
    assert(put(first.drop_first(), b, w) =~= seq![(b, w)]);
    let t = crate::api::merge::entries(target);
    reveal_with_fuel(merge_members, 3);
    reveal_with_fuel(merge, 2);
    if crate::text::text_lt(b, a) {
        assert(p =~= seq![(b, w), (a, v)]);
        assert(p.drop_last() =~= seq![(b, w)]);
        assert(seq![(b, w)].drop_last() =~= e);
        assert(merge_members(t, e) == t);
        let m = put(t, b, w);
        assert(merge_members(t, seq![(b, w)]) == m);
        lookup_put(t, b, w, b);
        lookup_put(m, a, v, a);
        lookup_put(m, a, v, b);
    } else {
        assert(p =~= seq![(a, v), (b, w)]);
        assert(p.drop_last() =~= seq![(a, v)]);
        assert(seq![(a, v)].drop_last() =~= e);
        assert(merge_members(t, e) == t);
        let m = put(t, a, v);
        assert(merge_members(t, seq![(a, v)]) == m);
        lookup_put(t, a, v, a);
        lookup_put(m, b, w, a);
        lookup_put(m, b, w, b);
    }
}

/// A patch of one table merges it into what stands at its key and leaves all else.
pub proof fn one_patched(target: JsonV, key: Seq<char>, value: JsonV, other: Seq<char>)
    requires
        value is Table,
        target is Table,
    ensures
        ({
            let patch = crate::engine::objects::one(key, value);
            &&& merge(target, patch) is Table
            &&& at(merge(target, patch), key) == merge(at(target, key), value)
            &&& other != key ==> at(merge(target, patch), other) == at(target, other)
        }),
{
    let e = Seq::<(Seq<char>, JsonV)>::empty();
    let p = put(e, key, value);
    assert(p =~= seq![(key, value)]);
    assert(p.drop_last() =~= e);
    let t = target->Table_0;
    reveal_with_fuel(merge_members, 2);
    assert(merge_members(t, e) == t);
    lookup_put(t, key, merge(lookup_or_null(t, key), value), key);
    lookup_put(t, key, merge(lookup_or_null(t, key), value), other);
}

/// What is found under a key after an object of another kind was patched.
pub proof fn other_kind_kept(
    s: StoreV,
    kind: Seq<char>,
    name: Seq<char>,
    patch: JsonV,
    k: Seq<char>,
    n: Seq<char>,
)
    requires
        s.ok(),
        k != kind,
    ensures
        s.patched(kind, "default"@, name, patch).ok(),
        s.patched(kind, "default"@, name, patch).find(k, "default"@, n) == s.find(
            k,
            "default"@,
            n,
        ),
{
    if let Some(o) = s.find(kind, "default"@, name) {
        s.applied_finds(kind, "default"@, name, merge(o.object, patch));
        crate::engine::desired::applied_bounds(
            s,
            kind,
            "default"@,
            name,
            merge(o.object, patch),
        );
    }
}

/// What was built is what is deployed: once the outcome of a build is recorded, the image
/// is found under its name, selected as before.
#[verifier::rlimit(40)]
pub proof fn recorded_then_mapped(
    s: StoreV,
    image: Seq<char>,
    id: Seq<char>,
    deployed: Seq<char>,
    selector: Seq<char>,
)
    requires
        s.ok(),
        deployed.len() > 0,
        s.find("ImageMap"@, "default"@, image) is Some,
        (s.find("ImageMap"@, "default"@, image)->0).object is Table,
        at(at((s.find("ImageMap"@, "default"@, image)->0).object, "spec"@), "selector"@)
            == JsonV::Text(selector),
    ensures
        image_maps_of(image_recorded(s, image, id, deployed), seq![JsonV::Text(image)]) == seq![
            (selector, deployed),
        ],
{
    reveal_strlit("ImageMap");
    reveal_strlit("DockerImage");
    reveal_strlit("CmdImage");
    reveal_strlit("image");
    reveal_strlit("imageID");
    reveal_strlit("status");
    reveal_strlit("spec");
    reveal_strlit("kind");
    reveal_strlit("apiVersion");
    reveal_strlit("metadata");
    assert("ImageMap"@.len() == 8 && "DockerImage"@.len() == 11 && "CmdImage"@.len() == 8);
    assert("ImageMap"@[0] == 'I' && "CmdImage"@[0] == 'C');
    assert("image"@.len() == 5 && "imageID"@.len() == 7);
    assert("status"@.len() == 6 && "spec"@.len() == 4 && "kind"@.len() == 4 && "kind"@[0] == 'k'
        && "spec"@[0] == 's' && "apiVersion"@.len() == 10 && "metadata"@.len() == 8);
    let o = s.find("ImageMap"@, "default"@, image)->0;
    let value = image_status("image"@, deployed, id);
    let patch = status_patch(value);
    two_patched(at(o.object, "status"@), "image"@, deployed, "imageID"@, id);
    one_patched(o.object, "status"@, value, "spec"@);
    let s1 = s.patched("ImageMap"@, "default"@, image, patch);
    let m = merge(o.object, patch);
    s.applied_finds("ImageMap"@, "default"@, image, m);
    crate::engine::desired::applied_bounds(s, "ImageMap"@, "default"@, image, m);
    stamped_keeps("ImageMap"@, "default"@, image, o.uid, s.resource_version + 1, m, "status"@);
    stamped_keeps("ImageMap"@, "default"@, image, o.uid, s.resource_version + 1, m, "spec"@);
    let p2 = status_patch(image_status("ref"@, deployed, id));
    other_kind_kept(s1, "DockerImage"@, image, p2, "ImageMap"@, image);
    let s2 = s1.patched("DockerImage"@, "default"@, image, p2);
    other_kind_kept(s2, "CmdImage"@, image, p2, "ImageMap"@, image);
    map_told(image_recorded(s, image, id, deployed), image, selector, deployed);
}

/// What is applied is what the object says, with the images that were recorded for its
/// names; without an object, or with nothing to apply, it is an error.
pub proof fn docs_told(
    s: StoreV,
    name: Seq<char>,
    left: Seq<char>,
    yaml: Seq<char>,
    right: Seq<char>,
    images: Seq<JsonV>,
)
    requires
        blank(left),
        blank(right),
        snug(yaml),
    ensures
        s.find("KubernetesApply"@, "default"@, name) is None ==> apply_docs(s, name) is Err,
        s.find("KubernetesApply"@, "default"@, name) matches Some(o) ==> {
            &&& at(at(o.object, "spec"@), "yaml"@) == JsonV::Text(left) ==> apply_docs(s, name)
                is Err
            &&& at(at(o.object, "spec"@), "yaml"@) == JsonV::Null ==> apply_docs(s, name) is Err
            &&& at(at(o.object, "spec"@), "yaml"@) == JsonV::Text(left + yaml + right) && at(
                at(o.object, "spec"@),
                "imageMaps"@,
            ) == JsonV::List(images) ==> apply_docs(s, name) is Ok && apply_docs(s, name)->Ok_0
                == docs_injected(left + yaml + right, image_maps_of(s, images))
        },
{
    trims_around(left, yaml, right);
    trims_blank(left);
    trims_blank(Seq::empty());
}

/// The statuses that controllers write, each under its key.
#[verifier::rlimit(40)]
pub proof fn statuses_told(
    pods: Seq<JsonV>,
    pod: Seq<char>,
    now: Seq<char>,
    failure: Seq<char>,
    state: Seq<char>,
)
    ensures
        at(discovery_status(pods), "readyPods"@) == JsonV::Int(ready_count(pods) as int),
        at(discovery_status(pods), "totalPods"@) == JsonV::Int(pods.len() as int),
        at(discovery_status(pods), "runtime"@) == JsonV::Text(pods_runtime(pods, false)),
        at(forward_status(pod), "podName"@) == JsonV::Text(pod),
        at(forward_status(pod), "ready"@) == JsonV::Bool(pod.len() > 0),
        at(compose_status(state), "running"@) == JsonV::Bool(state == "running"@),
        at(compose_status(state), "state"@) == JsonV::Text(state),
        at(update_status(pod, now, None), "failed"@) == JsonV::Bool(false),
        at(update_status(pod, now, Some(failure)), "failed"@) == JsonV::Bool(true),
        at(update_status(pod, now, Some(failure)), "message"@) == JsonV::Text(failure),
        at(update_status(pod, now, None), "message"@) == JsonV::Text(Seq::empty()),
        at(update_status(pod, now, None), "podName"@) == JsonV::Text(pod),
        at(update_status(pod, now, None), "lastExecTime"@) == JsonV::Text(now),
        at(no_pod_status(), "failed"@) == JsonV::Bool(true),
        at(no_pod_status(), "message"@) == JsonV::Text("no target pod"@),
{
    broadcast use {key_set, stays_table, empty_has_none};

    assert(empty_table() is Table);
    reveal_strlit("readyPods");
    reveal_strlit("totalPods");
    reveal_strlit("runtime");
    reveal_strlit("podName");
    reveal_strlit("ready");
    reveal_strlit("running");
    reveal_strlit("state");
    reveal_strlit("lastExecTime");
    reveal_strlit("failed");
    reveal_strlit("message");
    assert("readyPods"@[0] == 'r' && "totalPods"@[0] == 't');
    assert("readyPods"@.len() == 9 && "runtime"@.len() == 7 && "totalPods"@.len() == 9);
    assert("podName"@.len() == 7 && "ready"@.len() == 5 && "running"@.len() == 7 && "state"@.len()
        == 5 && "lastExecTime"@.len() == 12 && "failed"@.len() == 6 && "message"@.len() == 7);
    assert("podName"@[0] == 'p' && "message"@[0] == 'm');
}

/// Compose is asked for the state of the service, in its project where it has one.
pub proof fn compose_asked(service: Seq<char>, project: Seq<char>)
    ensures
        project.len() > 0 ==> compose_argv(service, project) == seq![
            "compose"@,
            "-p"@,
            project,
            "ps"@,
            "--format"@,
            "json"@,
            "--all"@,
            service,
        ],
        project.len() == 0 ==> compose_argv(service, project) == seq![
            "compose"@,
            "ps"@,
            "--format"@,
            "json"@,
            "--all"@,
            service,
        ],
{
    assert(project.len() > 0 ==> compose_argv(service, project) =~= seq![
        "compose"@,
        "-p"@,
        project,
        "ps"@,
        "--format"@,
        "json"@,
        "--all"@,
        service,
    ]);
    assert(project.len() == 0 ==> compose_argv(service, project) =~= seq![
        "compose"@,
        "ps"@,
        "--format"@,
        "json"@,
        "--all"@,
        service,
    ]);
}

/// The state of a service is what the last line that names it says; lines of other services
/// and what is no JSON say nothing of it.
pub proof fn state_told(
    values: Seq<Option<JsonV>>,
    v: JsonV,
    service: Seq<char>,
    state: Seq<char>,
)
    ensures
        at(v, "Service"@) == JsonV::Text(service) && at(v, "State"@) == JsonV::Text(state)
            ==> state_in(values.push(Some(v)), service) == state,
        at(v, "Service"@) != JsonV::Text(service) ==> state_in(values.push(Some(v)), service)
            == state_in(values, service),
        state_in(values.push(None), service) == state_in(values, service),
        state_in(Seq::empty(), service) == Seq::<char>::empty(),
{
    assert(values.push(Some(v)).drop_last() =~= values);
    assert(values.push(None).drop_last() =~= values);
}

/// A live update syncs what its object lists and then runs what it lists, each in order;
/// syncs without either path, and commands without arguments, are left out.
pub proof fn operations_told(
    object: JsonV,
    syncs: Seq<JsonV>,
    execs: Seq<JsonV>,
    e: JsonV,
    local: Seq<char>,
    remote: Seq<char>,
    args: Seq<JsonV>,
)
    ensures
        at(at(object, "spec"@), "syncs"@) == JsonV::List(syncs) && at(at(object, "spec"@), "execs"@)
            == JsonV::List(execs) ==> update_ops(object) == sync_ops(syncs) + exec_ops(execs),
        at(e, "localPath"@) == JsonV::Text(local) && at(e, "containerPath"@) == JsonV::Text(remote)
            && local.len() > 0 && remote.len() > 0 ==> sync_ops(syncs.push(e)) == sync_ops(
            syncs,
        ).push(OpV::Sync(local, remote)),
        at(e, "localPath"@) == JsonV::Null || at(e, "containerPath"@) == JsonV::Null ==> sync_ops(
            syncs.push(e),
        ) == sync_ops(syncs),
        at(e, "args"@) == JsonV::List(args) && args.len() > 0 ==> exec_ops(execs.push(e))
            == exec_ops(execs).push(
            OpV::Exec(args.map_values(|x: JsonV| crate::json::text_or(x, Seq::empty()))),
        ),
        at(e, "args"@) == JsonV::Null ==> exec_ops(execs.push(e)) == exec_ops(execs),
        sync_ops(Seq::empty()).len() == 0 && exec_ops(Seq::empty()).len() == 0,
{
    assert(syncs.push(e).drop_last() =~= syncs);
    assert(execs.push(e).drop_last() =~= execs);
}

/// A Compose service is asked for by the name that its object says, else by the object's,
/// in its project where it says one.
pub proof fn compose_named(s: StoreV, name: Seq<char>, service: Seq<char>, project: Seq<char>)
    ensures
        s.find("DockerComposeService"@, "default"@, name) is None ==> compose_target(s, name)
            is None,
        s.find("DockerComposeService"@, "default"@, name) matches Some(o) ==> {
            &&& compose_target(s, name) is Some
            &&& at(at(o.object, "spec"@), "service"@) == JsonV::Text(service) ==> (compose_target(
                s,
                name,
            )->0).0 == service
            &&& at(at(o.object, "spec"@), "service"@) == JsonV::Null ==> (compose_target(
                s,
                name,
            )->0).0 == name
            &&& at(at(at(o.object, "spec"@), "project"@), "name"@) == JsonV::Text(project) ==> (
            compose_target(s, name)->0).1 == project
            &&& at(at(at(o.object, "spec"@), "project"@), "name"@) == JsonV::Null ==> (
            compose_target(s, name)->0).1.len() == 0
        },
{
}

/// Pods are selected by the labels of the object, the first selector for a discovery;
/// without any label nothing is selected.
pub proof fn selected_by_labels(s: StoreV, kind: Seq<char>, name: Seq<char>, labels: JsonV)
    ensures
        s.find(kind, "default"@, name) is None ==> selector_for(s, kind, name) is Err,
        s.find(kind, "default"@, name) matches Some(o) ==> {
            &&& kind != "KubernetesDiscovery"@ && at(
                at(at(o.object, "spec"@), "selector"@),
                "matchLabels"@,
            ) == labels ==> {
                &&& crate::engine::pods::selector_text(labels).len() > 0 ==> selector_for(
                    s,
                    kind,
                    name,
                ) == Ok::<Seq<char>, Seq<char>>(crate::engine::pods::selector_text(labels))
                &&& crate::engine::pods::selector_text(labels).len() == 0 ==> selector_for(
                    s,
                    kind,
                    name,
                ) is Err
            }
            &&& kind == "KubernetesDiscovery"@ && (at(at(o.object, "spec"@), "selectors"@) matches
                JsonV::List(l) && l.len() > 0 && at(l[0], "matchLabels"@) == labels)
                && crate::engine::pods::selector_text(labels).len() > 0 ==> selector_for(
                s,
                kind,
                name,
            ) == Ok::<Seq<char>, Seq<char>>(crate::engine::pods::selector_text(labels))
        },
{
}

/// What a build of a resource does: nothing for one that is not known or paused; documents
/// are applied for Kubernetes; else the update command runs where there is one, else the
/// images of a Compose service are built, unless it is a dry run.
pub proof fn builds_planned(m: Manifest, dry_run: bool)
    ensures
        plan_of(None, false, dry_run) == BuildPlan::Unknown,
        plan_of(None, true, dry_run) == BuildPlan::Unknown,
        plan_of(Some(m), true, dry_run) == BuildPlan::Paused,
        m.kind == TargetKind::Kubernetes ==> plan_of(Some(m), false, dry_run)
            == BuildPlan::Kubernetes,
        m.kind != TargetKind::Kubernetes && m.update_cmd.argv@.len() > 0 ==> plan_of(
            Some(m),
            false,
            dry_run,
        ) == BuildPlan::Run,
        m.kind == TargetKind::DockerCompose && m.update_cmd.argv@.len() == 0
            && m.docker_builds@.len() > 0 ==> plan_of(Some(m), false, false)
            == BuildPlan::ComposeImages && plan_of(Some(m), false, true) == BuildPlan::UpToDate,
        m.kind == TargetKind::Local && m.update_cmd.argv@.len() == 0 ==> plan_of(
            Some(m),
            false,
            dry_run,
        ) == BuildPlan::UpToDate,
        m.kind == TargetKind::DockerCompose && m.update_cmd.argv@.len() == 0
            && m.docker_builds@.len() == 0 ==> plan_of(Some(m), false, dry_run)
            == BuildPlan::UpToDate,
{
}

/// What is deployed is what a custom build says it made, else what the digest names, else
/// the image as it is called.
pub proof fn deployed_told(db: DockerBuild, result: BuildResult)
    ensures
        result.output_ref matches Some(o) ==> deployed_ref(db, result) == o@,
        result.output_ref is None && result.digest is None ==> deployed_ref(db, result)
            == db.image_ref@,
        result.output_ref is None && result.digest is Some ==> deployed_ref(db, result)
            == crate::engine::images::content_ref(db.image_ref@, result.digest->0@),
{
}

/// A custom build is told the reference that is expected of it, whole and in parts.
pub proof fn custom_build_told(db: DockerBuild, repo: Seq<char>, tag: Seq<char>)
    requires
        crate::text_laws::lacks(tag, ':'),
        crate::text_laws::lacks(tag, '/'),
        db.custom_tag is None,
        db.image_ref@ == repo + ":"@ + tag,
    ensures
        custom_env(db).contains(("EXPECTED_REF"@, repo + ":"@ + tag)),
        custom_env(db).contains(("EXPECTED_IMAGE"@, repo)),
        custom_env(db).contains(("EXPECTED_TAG"@, tag)),
        custom_env(db).contains(("TAG"@, tag)),
{
    crate::engine::build_laws::tag_cut(repo, tag, repo, Seq::empty());
    let e = custom_env(db);
    assert(e[0] == ("EXPECTED_REF"@, repo + ":"@ + tag));
    assert(e[1] == ("EXPECTED_IMAGE"@, repo));
    assert(e[2] == ("EXPECTED_TAG"@, tag));
    assert(e[3] == ("TAG"@, tag));
}

/// A build that failed ends with its error and does nothing more. One that succeeded goes
/// on: a custom one to the file that it wrote its reference to, where it has one; one by
/// the Docker API to its other tags; and all others, unless their digest is known, to
/// looking for it.
pub proof fn image_steps_told(v: ImageBuildV, db: DockerBuild, e: String, i: int)
    ensures
        v.built(db, Err(e)).phase is Done && v.built(db, Err(e)).error == Some(e@),
        v.built(db, Ok(false)).phase is Done && v.built(db, Ok(false)).error is Some,
        db.command is Some && db.outputs_image_ref_to is Some ==> v.built(db, Ok(true)).phase
            is Output,
        db.command is None && (db.ssh@.len() > 0 || db.secrets@.len() > 0) ==> v.built(
            db,
            Ok(true),
        ).phase is Inspect,
        db.command is None && db.ssh@.len() == 0 && db.secrets@.len() == 0 ==> v.built(
            db,
            Ok(true),
        ).phase == (if db.extra_tags@.len() > 0 {
            ImagePhase::Tag(0)
        } else {
            ImagePhase::Inspect
        }),
        v.built(db, Ok(true)).error == v.error,
        0 <= i < db.extra_tags@.len() - 1 && db.extra_tags@.len() <= usize::MAX ==> v.tagged(
            db,
            i,
            None,
        ).phase == ImagePhase::Tag((i + 1) as usize),
        i == db.extra_tags@.len() - 1 ==> v.tagged(db, i, None).phase is Inspect,
        v.tagged(db, i, Some(e@)).phase is Done && v.tagged(db, i, Some(e@)).error is Some,
{
}

/// What a custom build wrote is its reference, without the white space around it; nothing,
/// or what cannot be read, is an error. A digest in the reference is taken from it.
pub proof fn output_told(
    v: ImageBuildV,
    db: DockerBuild,
    path: Seq<char>,
    left: Seq<char>,
    text: Seq<char>,
    right: Seq<char>,
)
    requires
        blank(left),
        blank(right),
        snug(text),
    ensures
        v.read(db, path, Ok(left + text + right)).output_ref == Some(text),
        v.read(db, path, Ok(left + text + right)).error == v.error,
        crate::engine::images::pinned_digest(text) matches Some(d) ==> v.read(
            db,
            path,
            Ok(left + text + right),
        ).phase is Done && v.read(db, path, Ok(left + text + right)).digest == Some(d),
        crate::engine::images::pinned_digest(text) is None ==> v.read(
            db,
            path,
            Ok(left + text + right),
        ).phase is Inspect,
        v.read(db, path, Ok(left)).error is Some && v.read(db, path, Ok(left)).phase is Done,
        v.read(db, path, Err(text)).error is Some && v.read(db, path, Err(text)).phase is Done,
{
    trims_around(left, text, right);
    trims_blank(left);
}

/// Every resource that declares a command to take it down is taken down by it, in order.
pub proof fn all_taken_down(a: Seq<Manifest>, b: Seq<Manifest>, m: Manifest)
    ensures
        down_specs(a + b) == down_specs(a) + down_specs(b),
        m.k8s_custom_delete_cmd matches Some(c) ==> down_specs(seq![m]) == seq![(m.name@, c@)],
        m.k8s_custom_delete_cmd is None ==> down_specs(seq![m]).len() == 0,
    decreases b.len(),
{
    reveal_with_fuel(down_specs, 2);
    assert(seq![m].drop_last() =~= Seq::empty());
    if let Some(c) = m.k8s_custom_delete_cmd {
        assert(down_specs(seq![m]) =~= seq![(m.name@, c@)]);
    }
    if b.len() > 0 {
        assert((a + b).drop_last() =~= a + b.drop_last());
        assert((a + b).last() == b.last());
        all_taken_down(a, b.drop_last(), m);
        assert(down_specs(a + b) =~= down_specs(a) + down_specs(b));
    } else {
        assert(a + b =~= a);
        assert(down_specs(a) + down_specs(b) =~= down_specs(a));
    }
}

} // verus!
