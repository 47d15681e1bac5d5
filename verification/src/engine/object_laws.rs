//! Which objects stand for the resources and what they hold, whatever the resources are.

use vstd::prelude::*;
use vstd::string::*;

use crate::api::store::{holds_given, stamped_holds, StoreV};
use crate::engine::desired::{
    all_applied, all_applied_bounds, applied_bounds, names_of, reconcile_exact, reconciled,
    reconciled_bounds, swept, swept_bounds,
};
use crate::engine::materialize::{
    all_builds, disable_maps, docker_images, first_builds, first_part, has_object, image_maps,
    cmd_images, materialized, object_value, objects_wanted, resource_names, tiltfile_name,
    PerResource,
};
use crate::engine::objects::{
    cmd_image, cmd_value, dc_log_stream, dc_service, disable_config_map, docker_image, exec_entries,
    file_watch, image_map, kubernetes_apply, kubernetes_discovery, label_table, live_update_value,
    pod_log_stream, port_forward, selector, session, sync_entries, tiltfile, toggle_button,
    trigger_queue,
};
use crate::json::{at, empty_table, text_list, JsonV};
use crate::json_laws::{empty_has_none, key_set, stays_table};
use crate::manifest::{DockerBuild, LiveUpdateStep, Manifest, PortForwardSpec, TargetKind};
use crate::text::{join, pairs, texts};

verus! {

/// What was applied under a name that comes once is held.
proof fn applied_held(s: StoreV, kind: Seq<char>, desired: Seq<(Seq<char>, JsonV)>, i: int)
    requires
        s.ok(),
        0 <= i < desired.len(),
        forall|j: int|
            0 <= j < desired.len() && j != i ==> (#[trigger] desired[j]).0 != desired[i].0,
    ensures
        all_applied(s, kind, desired).find(kind, "default"@, desired[i].0) is Some,
        holds_given(
            all_applied(s, kind, desired).find(kind, "default"@, desired[i].0)->0,
            desired[i].1,
        ),
    decreases desired.len(),
{
    let d = desired.drop_last();
    let t = all_applied(s, kind, d);
    let last = desired.last();
    all_applied_bounds(s, kind, d);
    t.applied_finds(kind, "default"@, last.0, last.1);
    assert(last == desired[desired.len() - 1]);
    if i < d.len() {
        assert(d[i] == desired[i]);
        assert forall|j: int| 0 <= j < d.len() && j != i implies (#[trigger] d[j]).0 != d[i].0 by {
            assert(d[j] == desired[j]);
        }
        applied_held(s, kind, d, i);
    } else {
        let uid = match t.find(kind, "default"@, last.0) {
            Some(o) => o.uid,
            None => crate::api::store::nth_uid(t.next_uid + 1),
        };
        stamped_holds(kind, "default"@, last.0, uid, t.resource_version + 1, last.1);
    }
}

/// A kind that was brought to the desired set holds under each name, where it comes once,
/// what is desired for it.
pub proof fn reconciled_holds(s: StoreV, kind: Seq<char>, desired: Seq<(Seq<char>, JsonV)>, i: int)
    requires
        s.ok(),
        0 <= i < desired.len(),
        forall|j: int|
            0 <= j < desired.len() && j != i ==> (#[trigger] desired[j]).0 != desired[i].0,
    ensures
        reconciled(s, kind, desired).ok(),
        reconciled(s, kind, desired).find(kind, "default"@, desired[i].0) is Some,
        holds_given(
            reconciled(s, kind, desired).find(kind, "default"@, desired[i].0)->0,
            desired[i].1,
        ),
{
    reconciled_bounds(s, kind, desired);
    let listed = crate::api::store::of_kind(s.objects, kind);
    swept_bounds(s, kind, listed, names_of(desired));
    applied_held(swept(s, kind, listed, names_of(desired)), kind, desired, i);
}

/// Whether the resources have distinct names.
pub open spec fn named_apart(ms: Seq<Manifest>) -> bool {
    forall|i: int, j: int|
        0 <= i < j < ms.len() ==> (#[trigger] ms[i]).name@ != (#[trigger] ms[j]).name@
}

/// The objects wanted for resources of distinct names: one for each that has one.
proof fn wanted_told(which: PerResource, ms: Seq<Manifest>, i: int) -> (k: int)
    requires
        named_apart(ms),
        0 <= i < ms.len(),
    ensures
        has_object(which, ms[i]) ==> 0 <= k < objects_wanted(which, ms).len() && objects_wanted(
            which,
            ms,
        )[k] == (ms[i].name@, object_value(which, ms[i])),
        !has_object(which, ms[i]) ==> !names_of(objects_wanted(which, ms)).contains(ms[i].name@),
        forall|a: int, b: int|
            0 <= a < b < objects_wanted(which, ms).len() ==> (#[trigger] objects_wanted(
                which,
                ms,
            )[a]).0 != (#[trigger] objects_wanted(which, ms)[b]).0,
        forall|a: int|
            0 <= a < objects_wanted(which, ms).len() ==> exists|j: int|
                0 <= j < ms.len() && (#[trigger] objects_wanted(which, ms)[a]).0 == (
                #[trigger] ms[j]).name@,
    decreases ms.len(),
{
    let d = ms.drop_last();
    let all = objects_wanted(which, ms);
    let rest = objects_wanted(which, d);
    let last = ms.last();
    assert(last == ms[ms.len() - 1]);
    assert forall|a: int, b: int| 0 <= a < b < d.len() implies (#[trigger] d[a]).name@ != (
    #[trigger] d[b]).name@ by {
        assert(d[a] == ms[a] && d[b] == ms[b]);
    }
    let k = if d.len() > 0 {
        wanted_told(
            which,
            d,
            if i < d.len() {
                i
            } else {
                0
            },
        )
    } else {
        0
    };
    assert forall|a: int| 0 <= a < rest.len() implies exists|j: int|
        0 <= j < d.len() && (#[trigger] rest[a]).0 == (#[trigger] d[j]).name@ by {
    }
    assert forall|a: int| 0 <= a < rest.len() implies (#[trigger] rest[a]).0 != last.name@ by {
        let j = choose|j: int| 0 <= j < d.len() && rest[a].0 == (#[trigger] d[j]).name@;
        assert(ms[j] == d[j]);
        assert(ms[j].name@ != ms[ms.len() - 1].name@);
    }
    assert forall|a: int| 0 <= a < all.len() implies exists|j: int|
        0 <= j < ms.len() && (#[trigger] all[a]).0 == (#[trigger] ms[j]).name@ by {
        if a < rest.len() {
            assert(all[a] == rest[a]);
            let j = choose|j: int| 0 <= j < d.len() && rest[a].0 == (#[trigger] d[j]).name@;
            assert(ms[j] == d[j]);
        } else {
            assert(all[a].0 == ms[ms.len() - 1].name@);
        }
    }
    assert forall|a: int, b: int| 0 <= a < b < all.len() implies (#[trigger] all[a]).0 != (
    #[trigger] all[b]).0 by {
        assert(all[a] == rest[a]);
        if b < rest.len() {
            assert(all[b] == rest[b]);
        }
    }
    if !has_object(which, ms[i]) && names_of(all).contains(ms[i].name@) {
        let a = choose|a: int| 0 <= a < names_of(all).len() && names_of(all)[a] == ms[i].name@;
        assert(all[a].0 == ms[i].name@);
        if i < d.len() {
            assert(d[i] == ms[i]);
            if a < rest.len() {
                assert(names_of(rest)[a] == d[i].name@);
            } else {
                assert(ms[i].name@ != ms[ms.len() - 1].name@);
            }
        }
    }
    if i < d.len() {
        assert(d[i] == ms[i]);
        if has_object(which, ms[i]) {
            assert(all[k] == rest[k]);
        }
        k
    } else {
        rest.len() as int
    }
}

/// What the store holds of a resource after the kind was brought to what is wanted.
proof fn kind_brought(s: StoreV, which: PerResource, kind: Seq<char>, ms: Seq<Manifest>, i: int)
    requires
        s.ok(),
        named_apart(ms),
        0 <= i < ms.len(),
    ensures
        reconciled(s, kind, objects_wanted(which, ms)).ok(),
        ({
            let found = reconciled(s, kind, objects_wanted(which, ms)).find(
                kind,
                "default"@,
                ms[i].name@,
            );
            &&& found is Some <==> has_object(which, ms[i])
            &&& found is Some ==> holds_given(found->0, object_value(which, ms[i]))
        }),
{
    let desired = objects_wanted(which, ms);
    let k = wanted_told(which, ms, i);
    reconciled_bounds(s, kind, desired);
    reconcile_exact(s, kind, desired, kind, "default"@, ms[i].name@);
    if has_object(which, ms[i]) {
        assert forall|j: int| 0 <= j < desired.len() && j != k implies (#[trigger] desired[j]).0
            != desired[k].0 by {
            if j < k {
                assert(desired[j].0 != desired[k].0);
            } else {
                assert(desired[k].0 != desired[j].0);
            }
        }
        reconciled_holds(s, kind, desired, k);
    }
}

/// The kind of the objects that a resource may have one of.
pub open spec fn kind_of(which: PerResource) -> Seq<char> {
    match which {
        PerResource::KubernetesApply => "KubernetesApply"@,
        PerResource::FileWatch => "FileWatch"@,
        PerResource::Cmd => "Cmd"@,
        PerResource::PortForward => "PortForward"@,
        PerResource::LiveUpdate => "LiveUpdate"@,
        PerResource::KubernetesDiscovery => "KubernetesDiscovery"@,
        PerResource::PodLogStream => "PodLogStream"@,
        PerResource::DockerComposeService => "DockerComposeService"@,
        PerResource::DockerComposeLogStream => "DockerComposeLogStream"@,
        PerResource::ToggleButton => "ToggleButton"@,
    }
}

/// Whether a resource has an object of a kind.
pub open spec fn stands_for(which: PerResource, m: Manifest) -> bool {
    match which {
        PerResource::KubernetesApply => m.kind == TargetKind::Kubernetes,
        PerResource::FileWatch => m.deps@.len() > 0,
        PerResource::Cmd => m.kind == TargetKind::Local && m.update_cmd.argv@.len() > 0,
        PerResource::PortForward => m.k8s_port_forwards@.len() > 0,
        PerResource::LiveUpdate => m.live_update@.len() > 0,
        PerResource::KubernetesDiscovery => m.kind == TargetKind::Kubernetes
            && m.pod_selector@.len() > 0,
        PerResource::PodLogStream => m.kind == TargetKind::Kubernetes && m.pod_selector@.len() > 0,
        PerResource::DockerComposeService => m.kind == TargetKind::DockerCompose,
        PerResource::DockerComposeLogStream => m.kind == TargetKind::DockerCompose,
        PerResource::ToggleButton => true,
    }
}

/// The names of the kinds, none of which is another.
pub proof fn kinds_told_apart()
    ensures
        "Tiltfile"@.len() == 8 && "Tiltfile"@[0] == 'T',
        "KubernetesApply"@.len() == 15,
        "FileWatch"@.len() == 9 && "FileWatch"@[0] == 'F',
        "Cmd"@.len() == 3,
        "PortForward"@.len() == 11 && "PortForward"@[0] == 'P',
        "LiveUpdate"@.len() == 10,
        "DockerImage"@.len() == 11 && "DockerImage"@[0] == 'D',
        "ImageMap"@.len() == 8 && "ImageMap"@[0] == 'I',
        "CmdImage"@.len() == 8 && "CmdImage"@[0] == 'C',
        "KubernetesDiscovery"@.len() == 19,
        "PodLogStream"@.len() == 12 && "PodLogStream"@[1] == 'o' && "PodLogStream"@[0] == 'P',
        "DockerComposeService"@.len() == 20,
        "DockerComposeLogStream"@.len() == 22,
        "ToggleButton"@.len() == 12 && "ToggleButton"@[1] == 'o' && "ToggleButton"@[0] == 'T',
        "TriggerQueue"@.len() == 12 && "TriggerQueue"@[1] == 'r' && "TriggerQueue"@[0] == 'T',
        "ConfigMap"@.len() == 9 && "ConfigMap"@[0] == 'C',
        "Session"@.len() == 7,
{
    reveal_strlit("Tiltfile");
    reveal_strlit("KubernetesApply");
    reveal_strlit("FileWatch");
    reveal_strlit("Cmd");
    reveal_strlit("PortForward");
    reveal_strlit("LiveUpdate");
    reveal_strlit("DockerImage");
    reveal_strlit("ImageMap");
    reveal_strlit("CmdImage");
    reveal_strlit("KubernetesDiscovery");
    reveal_strlit("PodLogStream");
    reveal_strlit("DockerComposeService");
    reveal_strlit("DockerComposeLogStream");
    reveal_strlit("ToggleButton");
    reveal_strlit("TriggerQueue");
    reveal_strlit("ConfigMap");
    reveal_strlit("Session");
}

/// What the first part of the objects does to those of other kinds, and to its own.
proof fn first_brought(
    s: StoreV,
    config: Seq<char>,
    ms: Seq<Manifest>,
    i: int,
    which: PerResource,
)
    requires
        s.ok(),
        named_apart(ms),
        0 <= i < ms.len(),
    ensures
        first_part(s, config, ms).ok(),
        which is KubernetesApply || which is FileWatch || which is Cmd || which is PortForward
            || which is LiveUpdate ==> ({
            let found = first_part(s, config, ms).find(kind_of(which), "default"@, ms[i].name@);
            &&& found is Some <==> has_object(which, ms[i])
            &&& found is Some ==> holds_given(found->0, object_value(which, ms[i]))
        }),
{
    kinds_told_apart();
    let n = ms[i].name@;
    let s0 = s.applied(
        "Tiltfile"@,
        "default"@,
        tiltfile_name(config),
        tiltfile(config, resource_names(ms)),
    );
    applied_bounds(
        s,
        "Tiltfile"@,
        "default"@,
        tiltfile_name(config),
        tiltfile(config, resource_names(ms)),
    );
    let s1 = step(s0, PerResource::KubernetesApply, ms, i, which);
    let s2 = step(s1, PerResource::FileWatch, ms, i, which);
    let s3 = step(s2, PerResource::Cmd, ms, i, which);
    let s4 = step(s3, PerResource::PortForward, ms, i, which);
    let s5 = step(s4, PerResource::LiveUpdate, ms, i, which);
}

/// The objects of one kind are brought to what is wanted; those of the others stay.
proof fn step(
    s: StoreV,
    which: PerResource,
    ms: Seq<Manifest>,
    i: int,
    asked: PerResource,
) -> (t: StoreV)
    requires
        s.ok(),
        named_apart(ms),
        0 <= i < ms.len(),
    ensures
        t == reconciled(s, kind_of(which), objects_wanted(which, ms)),
        t.ok(),
        which == asked ==> ({
            let found = t.find(kind_of(which), "default"@, ms[i].name@);
            &&& found is Some <==> has_object(which, ms[i])
            &&& found is Some ==> holds_given(found->0, object_value(which, ms[i]))
        }),
        which != asked ==> t.find(kind_of(asked), "default"@, ms[i].name@) == s.find(
            kind_of(asked),
            "default"@,
            ms[i].name@,
        ),
{
    kinds_told_apart();
    kind_brought(s, which, kind_of(which), ms, i);
    reconcile_exact(
        s,
        kind_of(which),
        objects_wanted(which, ms),
        kind_of(asked),
        "default"@,
        ms[i].name@,
    );
    reconciled(s, kind_of(which), objects_wanted(which, ms))
}

/// The objects of a kind of its own are brought to what is wanted; those of resources stay.
proof fn aside(
    s: StoreV,
    kind: Seq<char>,
    desired: Seq<(Seq<char>, JsonV)>,
    asked: PerResource,
    n: Seq<char>,
) -> (t: StoreV)
    requires
        s.ok(),
        kind != kind_of(asked),
    ensures
        t == reconciled(s, kind, desired),
        t.ok(),
        t.find(kind_of(asked), "default"@, n) == s.find(kind_of(asked), "default"@, n),
{
    reconciled_bounds(s, kind, desired);
    reconcile_exact(s, kind, desired, kind_of(asked), "default"@, n);
    reconciled(s, kind, desired)
}

/// Every resource has its objects, of each kind just where it calls for one, and each holds
/// what stands for the resource; no other resource has one under its name.
#[verifier::rlimit(40)]
pub proof fn resources_materialized(
    s: StoreV,
    config: Seq<char>,
    ms: Seq<Manifest>,
    disabled: Seq<bool>,
    i: int,
    which: PerResource,
)
    requires
        s.ok(),
        named_apart(ms),
        0 <= i < ms.len(),
    ensures
        materialized(s, config, ms, disabled).find(kind_of(which), "default"@, ms[i].name@) is Some
            <==> stands_for(which, ms[i]),
        stands_for(which, ms[i]) ==> holds_given(
            materialized(s, config, ms, disabled).find(
                kind_of(which),
                "default"@,
                ms[i].name@,
            )->0,
            object_value(which, ms[i]),
        ),
{
    kinds_told_apart();
    let n = ms[i].name@;
    first_brought(s, config, ms, i, which);
    let a = first_part(s, config, ms);
    let f = first_builds(all_builds(ms));
    let a1 = aside(a, "DockerImage"@, docker_images(f), which, n);
    let a2 = aside(a1, "ImageMap"@, image_maps(f), which, n);
    let b = aside(a2, "CmdImage"@, cmd_images(f), which, n);
    let b1 = step(b, PerResource::KubernetesDiscovery, ms, i, which);
    let b2 = step(b1, PerResource::PodLogStream, ms, i, which);
    let b3 = step(b2, PerResource::DockerComposeService, ms, i, which);
    let b4 = step(b3, PerResource::DockerComposeLogStream, ms, i, which);
    let b5 = step(b4, PerResource::ToggleButton, ms, i, which);
    let b6 = aside(b5, "ConfigMap"@, disable_maps(ms, disabled), which, n);
    applied_bounds(b6, "TriggerQueue"@, "default"@, "queue"@, trigger_queue());
    b6.applied_finds("TriggerQueue"@, "default"@, "queue"@, trigger_queue());
    let b7 = b6.applied("TriggerQueue"@, "default"@, "queue"@, trigger_queue());
    b7.applied_finds("Session"@, "default"@, "Tiltfile"@, session(resource_names(ms)));
    assert(materialized(s, config, ms, disabled) == b7.applied(
        "Session"@,
        "default"@,
        "Tiltfile"@,
        session(resource_names(ms)),
    ));
}

/// What the objects of a Kubernetes resource hold: its documents, or the command that
/// applies them, and the images in them; whom its pods are found, read and reached by.
pub proof fn kubernetes_objects_told(m: Manifest)
    ensures
        m.k8s_custom_apply_cmd is None ==> at(at(kubernetes_apply(m), "spec"@), "yaml"@)
            == JsonV::Text(join(texts(m.k8s_apply_docs@), "\n---\n"@)),
        m.k8s_custom_apply_cmd matches Some(c) ==> at(
            at(at(kubernetes_apply(m), "spec"@), "applyCmd"@),
            "args"@,
        ) == text_list(texts(c.argv@)) && at(at(kubernetes_apply(m), "spec"@), "yaml"@)
            == JsonV::Null,
        m.docker_builds@.len() > 0 ==> at(at(kubernetes_apply(m), "spec"@), "imageMaps"@)
            == text_list(m.docker_builds@.map_values(|b: DockerBuild| b.image_ref@)),
        m.docker_builds@.len() == 0 ==> at(at(kubernetes_apply(m), "spec"@), "imageMaps"@)
            == JsonV::Null,
        at(at(kubernetes_discovery(m), "spec"@), "selectors"@) == JsonV::List(
            seq![at(at(pod_log_stream(m), "spec"@), "selector"@)],
        ),
        at(at(at(pod_log_stream(m), "spec"@), "selector"@), "matchLabels"@) == label_table(
            pairs(m.pod_selector@),
        ),
        at(at(port_forward(m), "spec"@), "selector"@) == at(
            at(pod_log_stream(m), "spec"@),
            "selector"@,
        ),
        at(at(live_update_value(m), "spec"@), "selector"@) == at(
            at(pod_log_stream(m), "spec"@),
            "selector"@,
        ),
{
    broadcast use {key_set, stays_table, empty_has_none};

    assert(empty_table() is Table);
    reveal_strlit("yaml");
    reveal_strlit("applyCmd");
    reveal_strlit("imageMaps");
    reveal_strlit("forwards");
    reveal_strlit("selector");
    reveal_strlit("syncs");
    reveal_strlit("execs");
    reveal_strlit("stopPaths");
    reveal_strlit("restart");
    assert("yaml"@.len() == 4 && "applyCmd"@.len() == 8 && "imageMaps"@.len() == 9);
    assert("forwards"@[0] == 'f' && "selector"@[0] == 's');
}

/// The labels of a table are those of the pairs, the last value where a key comes twice.
pub proof fn labels_held(p: Seq<(Seq<char>, Seq<char>)>, i: int)
    requires
        0 <= i < p.len(),
        forall|j: int| i < j < p.len() ==> (#[trigger] p[j]).0 != p[i].0,
    ensures
        label_table(p) is Table,
        at(label_table(p), p[i].0) == JsonV::Text(p[i].1),
    decreases p.len(),
{
    broadcast use {key_set, stays_table};

    let d = p.drop_last();
    assert(p.last() == p[p.len() - 1]);
    label_table_is(d);
    if i < d.len() {
        assert(d[i] == p[i]);
        assert forall|j: int| i < j < d.len() implies (#[trigger] d[j]).0 != d[i].0 by {
            assert(d[j] == p[j]);
        }
        labels_held(d, i);
    }
}

proof fn label_table_is(p: Seq<(Seq<char>, Seq<char>)>)
    ensures
        label_table(p) is Table,
    decreases p.len(),
{
    broadcast use stays_table;

    if p.len() > 0 {
        label_table_is(p.drop_last());
    }
}

/// What the object of a live update holds: every sync and every command with its triggers,
/// in order, the files that call for a rebuild, and whether the container is restarted.
pub proof fn live_update_told(m: Manifest)
    ensures
        at(at(live_update_value(m), "spec"@), "syncs"@) == JsonV::List(
            sync_entries(m.live_update@),
        ),
        at(at(live_update_value(m), "spec"@), "execs"@) == JsonV::List(
            exec_entries(m.live_update@),
        ),
        at(at(live_update_value(m), "spec"@), "stopPaths"@) == text_list(
            crate::engine::live_update::fallback_paths(m.live_update@),
        ),
        at(at(live_update_value(m), "spec"@), "restart"@) == JsonV::Bool(
            exists|i: int|
                0 <= i < m.live_update@.len() && #[trigger] m.live_update@[i] is RestartContainer,
        ),
{
    broadcast use {key_set, stays_table, empty_has_none};

    assert(empty_table() is Table);
    reveal_strlit("selector");
    reveal_strlit("syncs");
    reveal_strlit("execs");
    reveal_strlit("stopPaths");
    reveal_strlit("restart");
    assert("syncs"@[0] == 's' && "execs"@[0] == 'e');
    assert("syncs"@.len() == 5 && "execs"@.len() == 5 && "stopPaths"@.len() == 9
        && "restart"@.len() == 7 && "selector"@.len() == 8);
}

/// Each step that syncs or runs is listed, whatever stands before and behind it.
pub proof fn steps_listed(
    a: Seq<LiveUpdateStep>,
    b: Seq<LiveUpdateStep>,
    step: LiveUpdateStep,
)
    ensures
        sync_entries(a + b) == sync_entries(a) + sync_entries(b),
        exec_entries(a + b) == exec_entries(a) + exec_entries(b),
        step matches LiveUpdateStep::Sync { local, remote } ==> {
            &&& sync_entries(seq![step]).len() == 1 && exec_entries(seq![step]).len() == 0
            &&& at(sync_entries(seq![step])[0], "localPath"@) == JsonV::Text(local@)
            &&& at(sync_entries(seq![step])[0], "containerPath"@) == JsonV::Text(remote@)
        },
        step matches LiveUpdateStep::Run { cmd, echo_off, triggers } ==> {
            &&& exec_entries(seq![step]).len() == 1 && sync_entries(seq![step]).len() == 0
            &&& at(exec_entries(seq![step])[0], "args"@) == JsonV::List(seq![JsonV::Text(cmd@)])
            &&& at(exec_entries(seq![step])[0], "triggerPaths"@) == text_list(texts(triggers@))
        },
    decreases b.len(),
{
    broadcast use {key_set, stays_table, empty_has_none};

    assert(empty_table() is Table);
    reveal_strlit("localPath");
    reveal_strlit("containerPath");
    reveal_strlit("args");
    reveal_strlit("triggerPaths");
    assert("localPath"@.len() == 9 && "containerPath"@.len() == 13 && "args"@.len() == 4
        && "triggerPaths"@.len() == 12);
    let e = Seq::<LiveUpdateStep>::empty();
    assert(seq![step].drop_last() =~= e);
    reveal_with_fuel(sync_entries, 2);
    reveal_with_fuel(exec_entries, 2);
    if b.len() > 0 {
        assert((a + b).drop_last() =~= a + b.drop_last());
        assert((a + b).last() == b.last());
        steps_listed(a, b.drop_last(), step);
        assert(sync_entries(a + b) =~= sync_entries(a) + sync_entries(b));
        assert(exec_entries(a + b) =~= exec_entries(a) + exec_entries(b));
    } else {
        assert(a + b =~= a);
        assert(sync_entries(a) + sync_entries(b) =~= sync_entries(a));
        assert(exec_entries(a) + exec_entries(b) =~= exec_entries(a));
    }
}

/// What the objects of images, commands and Compose services hold.
#[verifier::rlimit(40)]
pub proof fn other_objects_told(m: Manifest, b: DockerBuild)
    ensures
        at(at(docker_image(b), "spec"@), "ref"@) == JsonV::Text(b.image_ref@),
        at(at(docker_image(b), "spec"@), "context"@) == JsonV::Text(b.context@),
        at(at(image_map(b.image_ref@), "spec"@), "selector"@) == JsonV::Text(b.image_ref@),
        at(at(cmd_image(b), "spec"@), "ref"@) == JsonV::Text(b.image_ref@),
        b.command matches Some(c) ==> at(at(cmd_image(b), "spec"@), "args"@) == text_list(
            texts(c.argv@),
        ),
        at(at(cmd_value(m), "spec"@), "args"@) == text_list(texts(m.update_cmd.argv@)),
        at(at(cmd_value(m), "spec"@), "dir"@) == (match m.update_cmd.workdir {
            Some(d) => JsonV::Text(d@),
            None => JsonV::Null,
        }),
        m.update_cmd.env@.len() > 0 ==> at(at(cmd_value(m), "spec"@), "env"@) == text_list(
            pairs(m.update_cmd.env@).map_values(
                |e: (Seq<char>, Seq<char>)| e.0 + "="@ + e.1,
            ),
        ),
        m.update_cmd.env@.len() == 0 ==> at(at(cmd_value(m), "spec"@), "env"@) == JsonV::Null,
        at(at(dc_service(m), "spec"@), "service"@) == JsonV::Text(m.name@),
        at(at(at(dc_service(m), "spec"@), "project"@), "name"@) == (match m.docker_compose_project {
            Some(p) => JsonV::Text(p@),
            None => JsonV::Null,
        }),
        at(at(dc_log_stream(m), "spec"@), "service"@) == JsonV::Text(m.name@),
        at(at(at(toggle_button(m), "spec"@), "location"@), "componentID"@) == JsonV::Text(m.name@),
        at(at(disable_config_map(true), "data"@), "isDisabled"@) == JsonV::Text("true"@),
        at(at(disable_config_map(false), "data"@), "isDisabled"@) == JsonV::Text("false"@),
{
    broadcast use {key_set, stays_table, empty_has_none};

    assert(empty_table() is Table);
    reveal_strlit("ref");
    reveal_strlit("context");
    reveal_strlit("selector");
    reveal_strlit("args");
    reveal_strlit("dir");
    reveal_strlit("env");
    reveal_strlit("service");
    reveal_strlit("project");
    reveal_strlit("location");
    reveal_strlit("on");
    reveal_strlit("off");
    reveal_strlit("componentType");
    reveal_strlit("componentID");
    assert("ref"@.len() == 3 && "context"@.len() == 7 && "args"@.len() == 4 && "dir"@.len() == 3
        && "env"@.len() == 3 && "service"@.len() == 7 && "project"@.len() == 7);
    assert("dir"@[0] == 'd' && "env"@[0] == 'e' && "service"@[0] == 's' && "project"@[0] == 'p');
    assert("location"@.len() == 8 && "on"@.len() == 2 && "off"@.len() == 3);
    assert("componentType"@.len() == 13 && "componentID"@.len() == 11);
}

/// Whether paths are watched by hand: just where the trigger mode is one of the two that
/// ask for it.
pub proof fn watched_by_hand(m: Manifest)
    ensures
        at(at(file_watch(m), "spec"@), "manual"@) == JsonV::Bool(
            m.trigger_mode == 1 || m.trigger_mode == 2,
        ),
        at(at(file_watch(m), "spec"@), "watchedPaths"@) == text_list(texts(m.deps@)),
{
    broadcast use {key_set, stays_table, empty_has_none};

    assert(empty_table() is Table);
    reveal_strlit("watchedPaths");
    reveal_strlit("ignores");
    reveal_strlit("manual");
    reveal_strlit("fallbackPaths");
    assert("watchedPaths"@.len() == 12 && "ignores"@.len() == 7 && "manual"@.len() == 6
        && "fallbackPaths"@.len() == 13);
}

/// Each image has one build among those that count, the first that names it.
pub proof fn first_build_counts(builds: Seq<DockerBuild>, image: Seq<char>)
    ensures
        (exists|i: int| 0 <= i < builds.len() && (#[trigger] builds[i]).image_ref@ == image) <==> (
        exists|i: int|
            0 <= i < first_builds(builds).len() && (#[trigger] first_builds(builds)[i]).image_ref@
                == image),
        forall|i: int, j: int|
            0 <= i < j < first_builds(builds).len() ==> (#[trigger] first_builds(
                builds,
            )[i]).image_ref@ != (#[trigger] first_builds(builds)[j]).image_ref@,
    decreases builds.len(),
{
    if builds.len() > 0 {
        let d = builds.drop_last();
        let rest = first_builds(d);
        let all = first_builds(builds);
        let last = builds.last();
        assert(last == builds[builds.len() - 1]);
        first_build_counts(d, image);
        first_build_counts(d, last.image_ref@);
        let refs = crate::engine::objects::image_refs(rest);
        if refs.contains(last.image_ref@) {
            let k = choose|k: int| 0 <= k < refs.len() && refs[k] == last.image_ref@;
            assert(rest[k].image_ref@ == last.image_ref@);
        } else {
            assert forall|i: int| 0 <= i < rest.len() implies (#[trigger] rest[i]).image_ref@
                != last.image_ref@ by {
                assert(refs[i] == rest[i].image_ref@);
            }
            assert(all[rest.len() as int] == last);
            assert forall|i: int, j: int| 0 <= i < j < all.len() implies (
            #[trigger] all[i]).image_ref@ != (#[trigger] all[j]).image_ref@ by {
                assert(all[i] == rest[i]);
                if j < rest.len() {
                    assert(all[j] == rest[j]);
                }
            }
        }
        if exists|i: int| 0 <= i < builds.len() && (#[trigger] builds[i]).image_ref@ == image {
            let i = choose|i: int|
                0 <= i < builds.len() && (#[trigger] builds[i]).image_ref@ == image;
            if i < d.len() {
                assert(d[i] == builds[i]);
                let k = choose|k: int|
                    0 <= k < rest.len() && (#[trigger] rest[k]).image_ref@ == image;
                assert(all[k] == rest[k]);
            }
        }
        if exists|i: int| 0 <= i < all.len() && (#[trigger] all[i]).image_ref@ == image {
            let i = choose|i: int| 0 <= i < all.len() && (#[trigger] all[i]).image_ref@ == image;
            if i < rest.len() {
                assert(rest[i] == all[i]);
                let k = choose|k: int| 0 <= k < d.len() && (#[trigger] d[k]).image_ref@ == image;
                assert(builds[k] == d[k]);
            }
        }
    }
}

/// What the objects of the config, of the session and of the queue hold, and the outcome of
/// an apply.
pub proof fn config_objects_told(
    path: Seq<char>,
    names: Seq<Seq<char>>,
    time: Seq<char>,
    error: Seq<char>,
)
    ensures
        at(at(tiltfile(path, names), "spec"@), "path"@) == JsonV::Text(path),
        at(at(tiltfile(path, names), "status"@), "resourceNames"@) == text_list(names),
        at(at(session(names), "status"@), "targets"@) == text_list(names),
        at(at(trigger_queue(), "spec"@), "queue"@) == JsonV::List(Seq::empty()),
        at(crate::engine::objects::apply_status(time, error), "lastApplyTime"@) == JsonV::Text(
            time,
        ),
        at(crate::engine::objects::apply_status(time, error), "error"@) == JsonV::Text(error),
{
    broadcast use {key_set, stays_table, empty_has_none};

    assert(empty_table() is Table);
    reveal_strlit("spec");
    reveal_strlit("status");
    reveal_strlit("lastApplyTime");
    reveal_strlit("error");
    assert("spec"@.len() == 4 && "status"@.len() == 6 && "lastApplyTime"@.len() == 13
        && "error"@.len() == 5);
}

/// A forward is written and read under these keys: the port on this machine, the port of
/// the container, the host, the path and the name.
pub proof fn forwards_told(
    p: PortForwardSpec,
    f: JsonV,
    local: u16,
    remote: u16,
    host: Seq<char>,
    name: Seq<char>,
    path: Seq<char>,
)
    ensures
        at(crate::engine::objects::forward_entry(p), "localPort"@) == JsonV::Int(
            p.local_port as int,
        ),
        at(crate::engine::objects::forward_entry(p), "containerPort"@) == JsonV::Int(
            p.container_port as int,
        ),
        at(crate::engine::objects::forward_entry(p), "host"@) == JsonV::Text(p.host@),
        at(crate::engine::objects::forward_entry(p), "path"@) == JsonV::Text(p.link_path@),
        at(crate::engine::objects::forward_entry(p), "name"@) == JsonV::Text(p.name@),
        at(f, "localPort"@) == JsonV::Int(local as int) && at(f, "containerPort"@) == JsonV::Int(
            remote as int,
        ) && at(f, "host"@) == JsonV::Text(host) && at(f, "name"@) == JsonV::Text(name) && at(
            f,
            "path"@,
        ) == JsonV::Text(path) ==> crate::engine::pods::forward_of(f) == (
            host,
            local,
            remote,
            name,
            path,
        ),
        at(f, "host"@) == JsonV::Null ==> crate::engine::pods::forward_of(f).0 == "127.0.0.1"@,
{
    broadcast use {key_set, stays_table, empty_has_none};

    assert(empty_table() is Table);
    reveal_strlit("localPort");
    reveal_strlit("containerPort");
    reveal_strlit("host");
    reveal_strlit("path");
    reveal_strlit("name");
    assert("localPort"@.len() == 9 && "containerPort"@.len() == 13 && "host"@.len() == 4
        && "path"@.len() == 4 && "name"@.len() == 4);
    assert("host"@[0] == 'h' && "path"@[0] == 'p' && "name"@[0] == 'n');
}

/// What is not to be watched is written under these keys, and so are the files whose
/// changes call for a rebuild.
pub proof fn watch_written(m: Manifest, i: int)
    ensures
        at(at(file_watch(m), "spec"@), "fallbackPaths"@) == text_list(
            crate::engine::live_update::fallback_paths(m.live_update@),
        ),
        0 <= i < m.ignore_rules@.len() ==> (at(at(file_watch(m), "spec"@), "ignores"@) matches
            JsonV::List(l) && l.len() == m.ignore_rules@.len() && at(l[i], "basePath"@)
            == JsonV::Text(m.ignore_rules@[i].base@) && at(l[i], "patterns"@) == JsonV::List(
            seq![JsonV::Text(m.ignore_rules@[i].pattern@)],
        )),
{
    broadcast use {key_set, stays_table, empty_has_none};

    assert(empty_table() is Table);
    reveal_strlit("watchedPaths");
    reveal_strlit("ignores");
    reveal_strlit("manual");
    reveal_strlit("fallbackPaths");
    reveal_strlit("basePath");
    reveal_strlit("patterns");
    assert("watchedPaths"@.len() == 12 && "ignores"@.len() == 7 && "manual"@.len() == 6
        && "fallbackPaths"@.len() == 13);
    assert("basePath"@[0] == 'b' && "patterns"@[0] == 'p');
    let l = m.ignore_rules@.map_values(
        |r: crate::manifest::IgnoreRule| crate::engine::objects::ignore_entry(r),
    );
    assert(at(at(file_watch(m), "spec"@), "ignores"@) == JsonV::List(l));
    if 0 <= i < m.ignore_rules@.len() {
        assert(l[i] == crate::engine::objects::ignore_entry(m.ignore_rules@[i]));
    }
}

} // verus!
