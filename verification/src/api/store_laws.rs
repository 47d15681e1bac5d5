//! What stored objects say of themselves, whatever was given for them.

use vstd::prelude::*;
use vstd::string::*;

use crate::api::schema::kind_fields;
use crate::api::store::{stamped, table_or_empty};
use crate::api::v1alpha1::UIResourceKubernetes;
use crate::engine::object_laws::kinds_told_apart;
use crate::engine::pods::{pods_shown, PodSummary};
use crate::json::{at, empty_table, JsonV};
use crate::json_laws::{empty_has_none, key_set, stays_table};
use crate::text::dec;

verus! {

/// A stored object says its kind and version, its name and namespace, and the id and
/// resource version that the store gave it, whatever was said of those before; the rest of
/// its metadata stays.
pub proof fn stamped_told(
    kind: Seq<char>,
    namespace: Seq<char>,
    name: Seq<char>,
    uid: Seq<char>,
    version: nat,
    object: JsonV,
    key: Seq<char>,
)
    requires
        object is Table,
    ensures
        ({
            let o = stamped(kind, namespace, name, uid, version, object);
            let meta = at(o.object, "metadata"@);
            &&& o.kind == kind && o.namespace == namespace && o.name == name && o.uid == uid
                && o.resource_version == version
            &&& at(o.object, "kind"@) == JsonV::Text(kind)
            &&& at(o.object, "apiVersion"@) == JsonV::Text("tilt.dev/v1alpha1"@)
            &&& at(meta, "name"@) == JsonV::Text(name)
            &&& at(meta, "namespace"@) == JsonV::Text(namespace)
            &&& at(meta, "uid"@) == JsonV::Text(uid)
            &&& at(meta, "resourceVersion"@) == JsonV::Text(dec(version))
            &&& at(object, "metadata"@) is Table && key != "name"@ && key != "namespace"@ && key
                != "uid"@ && key != "resourceVersion"@ ==> at(meta, key) == at(
                at(object, "metadata"@),
                key,
            )
            &&& key != "kind"@ && key != "apiVersion"@ && key != "metadata"@ ==> at(o.object, key)
                == at(object, key)
        }),
{
    broadcast use {key_set, stays_table, empty_has_none};

    assert(empty_table() is Table);
    reveal_strlit("kind");
    reveal_strlit("apiVersion");
    reveal_strlit("metadata");
    reveal_strlit("name");
    reveal_strlit("namespace");
    reveal_strlit("uid");
    reveal_strlit("resourceVersion");
    assert("kind"@.len() == 4 && "apiVersion"@.len() == 10 && "metadata"@.len() == 8);
    assert("name"@.len() == 4 && "namespace"@.len() == 9 && "uid"@.len() == 3
        && "resourceVersion"@.len() == 15);
    assert(table_or_empty(at(object, "metadata"@)) is Table);
}

/// What objects are written with is described under their kind.
pub proof fn written_is_described()
    ensures
        kind_fields("KubernetesApply"@) matches Some(f) && f.contains("yaml"@) && f.contains(
            "applyCmd"@,
        ) && f.contains("imageMaps"@),
        kind_fields("KubernetesDiscovery"@) matches Some(f) && f.contains("selectors"@),
        kind_fields("PodLogStream"@) matches Some(f) && f.contains("selector"@),
        kind_fields("FileWatch"@) matches Some(f) && f.contains("watchedPaths"@) && f.contains(
            "ignores"@,
        ),
        kind_fields("Cmd"@) matches Some(f) && f.contains("args"@) && f.contains("dir"@)
            && f.contains("env"@),
        kind_fields("PortForward"@) matches Some(f) && f.contains("forwards"@),
        kind_fields("LiveUpdate"@) matches Some(f) && f.contains("syncs"@) && f.contains("execs"@)
            && f.contains("stopPaths"@) && f.contains("restart"@),
        kind_fields("DockerImage"@) matches Some(f) && f.contains("ref"@) && f.contains("context"@),
        kind_fields("ImageMap"@) matches Some(f) && f.contains("selector"@),
        kind_fields("CmdImage"@) matches Some(f) && f.contains("ref"@) && f.contains("args"@),
        kind_fields("DockerComposeService"@) matches Some(f) && f.contains("service"@)
            && f.contains("project"@),
        kind_fields("DockerComposeLogStream"@) matches Some(f) && f.contains("service"@),
        kind_fields("ToggleButton"@) matches Some(f) && f.contains("location"@) && f.contains(
            "on"@,
        ) && f.contains("off"@),
        kind_fields("Tiltfile"@) matches Some(f) && f.contains("path"@),
        kind_fields("ConfigMap"@) matches Some(f) && f.contains("data"@),
{
    kinds_told_apart();
    assert(kind_fields("KubernetesApply"@)->0[0] == "yaml"@);
    assert(kind_fields("KubernetesApply"@)->0[1] == "applyCmd"@);
    assert(kind_fields("KubernetesApply"@)->0[2] == "imageMaps"@);
    assert(kind_fields("KubernetesDiscovery"@)->0[0] == "selectors"@);
    assert(kind_fields("PodLogStream"@)->0[0] == "selector"@);
    assert(kind_fields("FileWatch"@)->0[0] == "watchedPaths"@);
    assert(kind_fields("FileWatch"@)->0[1] == "ignores"@);
    assert(kind_fields("Cmd"@)->0[0] == "args"@);
    assert(kind_fields("Cmd"@)->0[1] == "dir"@);
    assert(kind_fields("Cmd"@)->0[2] == "env"@);
    assert(kind_fields("PortForward"@)->0[0] == "forwards"@);
    assert(kind_fields("LiveUpdate"@)->0[0] == "syncs"@);
    assert(kind_fields("LiveUpdate"@)->0[1] == "execs"@);
    assert(kind_fields("LiveUpdate"@)->0[2] == "stopPaths"@);
    assert(kind_fields("LiveUpdate"@)->0[3] == "restart"@);
    assert(kind_fields("DockerImage"@)->0[0] == "ref"@);
    assert(kind_fields("DockerImage"@)->0[1] == "context"@);
    assert(kind_fields("ImageMap"@)->0[0] == "selector"@);
    assert(kind_fields("CmdImage"@)->0[0] == "ref"@);
    assert(kind_fields("CmdImage"@)->0[1] == "args"@);
    assert(kind_fields("DockerComposeService"@)->0[0] == "service"@);
    assert(kind_fields("DockerComposeService"@)->0[1] == "project"@);
    assert(kind_fields("DockerComposeLogStream"@)->0[0] == "service"@);
    assert(kind_fields("ToggleButton"@)->0[0] == "location"@);
    assert(kind_fields("ToggleButton"@)->0[1] == "on"@);
    assert(kind_fields("ToggleButton"@)->0[2] == "off"@);
    assert(kind_fields("Tiltfile"@)->0[0] == "path"@);
    assert(kind_fields("ConfigMap"@)->0[0] == "data"@);
}

/// A resource with one pod shows whether it runs; one with more shows how many are ready.
pub proof fn pods_told(
    k: UIResourceKubernetes,
    name: Seq<char>,
    pod: Seq<char>,
    summary: PodSummary,
)
    requires
        pods_shown(k, name, pod, summary),
    ensures
        k.pod_name is Some && k.pod_name->0@ == pod,
        k.pod_status is Some,
        summary.total == 1 && summary.ready == 1 ==> k.pod_status->0@ == "Running"@,
        summary.total == 1 && summary.ready == 0 ==> k.pod_status->0@ == "Pending"@,
        summary.total > 1 ==> k.pod_status->0@ == dec(summary.ready as nat) + "/"@ + dec(
            summary.total as nat,
        ) + " ready"@,
        k.all_containers_ready == Some(summary.total > 0 && summary.ready == summary.total),
        -2147483648 <= summary.restarts <= 2147483647 ==> k.pod_restarts == Some(
            summary.restarts as i32,
        ),
{
}

} // verus!
