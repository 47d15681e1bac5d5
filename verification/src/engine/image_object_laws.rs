//! Which objects stand for images, switches and the config, whatever is declared.

use vstd::prelude::*;
use vstd::string::*;

use crate::api::store::{holds_given, StoreV};
use crate::engine::desired::{
    applied_bounds, names_of, reconcile_exact, reconciled, reconciled_bounds,
};
use crate::engine::materialize::{
    all_builds, cmd_images, disable_maps, docker_images, first_builds, first_part, image_maps,
    last_part, materialized, objects_wanted, resource_names, tiltfile_name, PerResource,
};
use crate::engine::object_laws::{
    first_build_counts, kinds_told_apart, named_apart, reconciled_holds,
};
use crate::engine::objects::{
    cmd_image, disable_config_map, docker_image, image_map, session, tiltfile, trigger_queue,
};
use crate::json::JsonV;
use crate::manifest::{DockerBuild, Manifest};

verus! {

/// What a reconcile of another kind leaves.
proof fn kept(
    s: StoreV,
    kind: Seq<char>,
    desired: Seq<(Seq<char>, JsonV)>,
    k: Seq<char>,
    n: Seq<char>,
) -> (t: StoreV)
    requires
        s.ok(),
        k != kind,
    ensures
        t == reconciled(s, kind, desired),
        t.ok(),
        t.find(k, "default"@, n) == s.find(k, "default"@, n),
{
    reconciled_bounds(s, kind, desired);
    reconcile_exact(s, kind, desired, k, "default"@, n);
    reconciled(s, kind, desired)
}

/// What an object of another kind that is applied leaves.
proof fn kept_beside(
    s: StoreV,
    kind: Seq<char>,
    name: Seq<char>,
    object: JsonV,
    k: Seq<char>,
    n: Seq<char>,
) -> (t: StoreV)
    requires
        s.ok(),
        k != kind,
    ensures
        t == s.applied(kind, "default"@, name, object),
        t.ok(),
        t.find(k, "default"@, n) == s.find(k, "default"@, n),
{
    applied_bounds(s, kind, "default"@, name, object);
    s.applied_finds(kind, "default"@, name, object);
    s.applied(kind, "default"@, name, object)
}

/// The first part leaves a store in order.
proof fn first_ok(s: StoreV, config: Seq<char>, ms: Seq<Manifest>)
    requires
        s.ok(),
    ensures
        first_part(s, config, ms).ok(),
{
    let s0 = s.applied(
        "Tiltfile"@,
        "default"@,
        tiltfile_name(config),
        tiltfile(config, resource_names(ms)),
    );
    applied_bounds(
        s,
        "Tiltfile"@,
        "default"@,
        tiltfile_name(config),
        tiltfile(config, resource_names(ms)),
    );
    let w1 = objects_wanted(PerResource::KubernetesApply, ms);
    let w2 = objects_wanted(PerResource::FileWatch, ms);
    let w3 = objects_wanted(PerResource::Cmd, ms);
    let w4 = objects_wanted(PerResource::PortForward, ms);
    let w5 = objects_wanted(PerResource::LiveUpdate, ms);
    reconciled_bounds(s0, "KubernetesApply"@, w1);
    let s1 = reconciled(s0, "KubernetesApply"@, w1);
    reconciled_bounds(s1, "FileWatch"@, w2);
    let s2 = reconciled(s1, "FileWatch"@, w2);
    reconciled_bounds(s2, "Cmd"@, w3);
    let s3 = reconciled(s2, "Cmd"@, w3);
    reconciled_bounds(s3, "PortForward"@, w4);
    let s4 = reconciled(s3, "PortForward"@, w4);
    reconciled_bounds(s4, "LiveUpdate"@, w5);
}

/// What the last part leaves of a kind that is none of its own.
proof fn last_keeps(b: StoreV, ms: Seq<Manifest>, disabled: Seq<bool>, k: Seq<char>, n: Seq<char>)
    requires
        b.ok(),
        k == "DockerImage"@ || k == "ImageMap"@ || k == "CmdImage"@ || k == "Tiltfile"@,
    ensures
        last_part(b, ms, disabled).find(k, "default"@, n) == b.find(k, "default"@, n),
{
    kinds_told_apart();
    let b1 = kept(
        b,
        "KubernetesDiscovery"@,
        objects_wanted(PerResource::KubernetesDiscovery, ms),
        k,
        n,
    );
    let b2 = kept(b1, "PodLogStream"@, objects_wanted(PerResource::PodLogStream, ms), k, n);
    let b3 = kept(
        b2,
        "DockerComposeService"@,
        objects_wanted(PerResource::DockerComposeService, ms),
        k,
        n,
    );
    let b4 = kept(
        b3,
        "DockerComposeLogStream"@,
        objects_wanted(PerResource::DockerComposeLogStream, ms),
        k,
        n,
    );
    let b5 = kept(b4, "ToggleButton"@, objects_wanted(PerResource::ToggleButton, ms), k, n);
    let b6 = kept(b5, "ConfigMap"@, disable_maps(ms, disabled), k, n);
    let b7 = kept_beside(b6, "TriggerQueue"@, "queue"@, trigger_queue(), k, n);
    let b8 = kept_beside(b7, "Session"@, "Tiltfile"@, session(resource_names(ms)), k, n);
}

/// The entries of builds that count have distinct names.
proof fn entries_apart(f: Seq<DockerBuild>, i: int)
    requires
        0 <= i < f.len(),
        forall|a: int, b: int|
            0 <= a < b < f.len() ==> (#[trigger] f[a]).image_ref@ != (#[trigger] f[b]).image_ref@,
    ensures
        forall|j: int|
            0 <= j < f.len() && j != i ==> (#[trigger] docker_images(f)[j]).0 != docker_images(
                f,
            )[i].0,
        forall|j: int|
            0 <= j < f.len() && j != i ==> (#[trigger] image_maps(f)[j]).0 != image_maps(f)[i].0,
{
    assert forall|j: int| 0 <= j < f.len() && j != i implies (#[trigger] docker_images(f)[j]).0
        != docker_images(f)[i].0 by {
        if j < i {
            assert(f[j].image_ref@ != f[i].image_ref@);
        } else {
            assert(f[i].image_ref@ != f[j].image_ref@);
        }
    }
    assert forall|j: int| 0 <= j < f.len() && j != i implies (#[trigger] image_maps(f)[j]).0
        != image_maps(f)[i].0 by {
        if j < i {
            assert(f[j].image_ref@ != f[i].image_ref@);
        } else {
            assert(f[i].image_ref@ != f[j].image_ref@);
        }
    }
}

/// Every image has an object for itself and one for what it is deployed as, under its
/// reference, and one for its command where it is built by one.
#[verifier::rlimit(40)]
pub proof fn images_materialized(
    s: StoreV,
    config: Seq<char>,
    ms: Seq<Manifest>,
    disabled: Seq<bool>,
    i: int,
)
    requires
        s.ok(),
        0 <= i < first_builds(all_builds(ms)).len(),
    ensures
        ({
            let t = materialized(s, config, ms, disabled);
            let b = first_builds(all_builds(ms))[i];
            &&& t.find("DockerImage"@, "default"@, b.image_ref@) is Some
            &&& holds_given(
                t.find("DockerImage"@, "default"@, b.image_ref@)->0,
                docker_image(b),
            )
            &&& t.find("ImageMap"@, "default"@, b.image_ref@) is Some
            &&& holds_given(
                t.find("ImageMap"@, "default"@, b.image_ref@)->0,
                image_map(b.image_ref@),
            )
            &&& t.find("CmdImage"@, "default"@, b.image_ref@) is Some <==> b.command is Some
            &&& b.command is Some ==> holds_given(
                t.find("CmdImage"@, "default"@, b.image_ref@)->0,
                cmd_image(b),
            )
        }),
{
    kinds_told_apart();
    let f = first_builds(all_builds(ms));
    let b = f[i];
    let n = b.image_ref@;
    first_build_counts(all_builds(ms), n);
    first_ok(s, config, ms);
    let a = first_part(s, config, ms);
    entries_apart(f, i);
    assert(docker_images(f)[i] == (n, docker_image(b)));
    assert(image_maps(f)[i] == (n, image_map(n)));
    reconciled_holds(a, "DockerImage"@, docker_images(f), i);
    let a1 = reconciled(a, "DockerImage"@, docker_images(f));
    reconciled_holds(a1, "ImageMap"@, image_maps(f), i);
    let a2 = kept(a1, "ImageMap"@, image_maps(f), "DockerImage"@, n);
    let a3 = kept(a2, "CmdImage"@, cmd_images(f), "DockerImage"@, n);
    reconcile_exact(a2, "CmdImage"@, cmd_images(f), "ImageMap"@, "default"@, n);
    reconcile_exact(a2, "CmdImage"@, cmd_images(f), "CmdImage"@, "default"@, n);
    commands_listed(f, i);
    if b.command is Some {
        let k = choose|k: int| 0 <= k < cmd_images(f).len() && cmd_images(f)[k] == (n, cmd_image(b));
        assert forall|j: int| 0 <= j < cmd_images(f).len() && j != k implies (#[trigger] cmd_images(
            f,
        )[j]).0 != cmd_images(f)[k].0 by {
            commands_apart(f, j, k);
        }
        reconciled_holds(a2, "CmdImage"@, cmd_images(f), k);
    }
    last_keeps(a3, ms, disabled, "DockerImage"@, n);
    last_keeps(a3, ms, disabled, "ImageMap"@, n);
    last_keeps(a3, ms, disabled, "CmdImage"@, n);
}

/// The builds by a command are listed, and no others.
proof fn commands_listed(f: Seq<DockerBuild>, i: int)
    requires
        0 <= i < f.len(),
        forall|a: int, b: int|
            0 <= a < b < f.len() ==> (#[trigger] f[a]).image_ref@ != (#[trigger] f[b]).image_ref@,
    ensures
        f[i].command is Some ==> cmd_images(f).contains((f[i].image_ref@, cmd_image(f[i])))
            && names_of(cmd_images(f)).contains(f[i].image_ref@),
        f[i].command is None ==> !names_of(cmd_images(f)).contains(f[i].image_ref@),
    decreases f.len(),
{
    let d = f.drop_last();
    let rest = cmd_images(d);
    let all = cmd_images(f);
    let last = f.last();
    assert(last == f[f.len() - 1]);
    assert forall|a: int, b: int| 0 <= a < b < d.len() implies (#[trigger] d[a]).image_ref@ != (
    #[trigger] d[b]).image_ref@ by {
        assert(d[a] == f[a] && d[b] == f[b]);
    }
    let x = (f[i].image_ref@, cmd_image(f[i]));
    if i < d.len() {
        assert(d[i] == f[i]);
        commands_listed(d, i);
        if f[i].command is Some {
            let k = choose|k: int| 0 <= k < rest.len() && rest[k] == x;
            assert(all[k] == x);
            assert(names_of(all)[k] == f[i].image_ref@);
        } else if names_of(all).contains(f[i].image_ref@) {
            let k = choose|k: int|
                0 <= k < names_of(all).len() && names_of(all)[k] == f[i].image_ref@;
            if k < rest.len() {
                assert(names_of(rest)[k] == f[i].image_ref@);
            } else {
                assert(f[i].image_ref@ != f[f.len() - 1].image_ref@);
            }
        }
    } else {
        if last.command is Some {
            assert(all[rest.len() as int] == x);
            assert(names_of(all)[rest.len() as int] == f[i].image_ref@);
        } else if names_of(all).contains(f[i].image_ref@) {
            let k = choose|k: int|
                0 <= k < names_of(all).len() && names_of(all)[k] == f[i].image_ref@;
            command_from(d, k);
            let j = choose|j: int| 0 <= j < d.len() && (#[trigger] d[j]).image_ref@ == rest[k].0;
            assert(f[j].image_ref@ != f[f.len() - 1].image_ref@);
        }
    }
}

/// What is listed is listed for a build.
proof fn command_from(f: Seq<DockerBuild>, k: int)
    requires
        0 <= k < cmd_images(f).len(),
    ensures
        exists|j: int| 0 <= j < f.len() && (#[trigger] f[j]).image_ref@ == cmd_images(f)[k].0,
    decreases f.len(),
{
    let d = f.drop_last();
    let rest = cmd_images(d);
    if k < rest.len() {
        command_from(d, k);
        let j = choose|j: int| 0 <= j < d.len() && (#[trigger] d[j]).image_ref@ == rest[k].0;
        assert(f[j] == d[j]);
    } else {
        assert(f[f.len() - 1].image_ref@ == cmd_images(f)[k].0);
    }
}

/// No two builds by a command are listed under one name.
proof fn commands_apart(f: Seq<DockerBuild>, j: int, k: int)
    requires
        0 <= j < cmd_images(f).len(),
        0 <= k < cmd_images(f).len(),
        j != k,
        forall|a: int, b: int|
            0 <= a < b < f.len() ==> (#[trigger] f[a]).image_ref@ != (#[trigger] f[b]).image_ref@,
    ensures
        cmd_images(f)[j].0 != cmd_images(f)[k].0,
    decreases f.len(),
{
    let d = f.drop_last();
    let rest = cmd_images(d);
    assert forall|a: int, b: int| 0 <= a < b < d.len() implies (#[trigger] d[a]).image_ref@ != (
    #[trigger] d[b]).image_ref@ by {
        assert(d[a] == f[a] && d[b] == f[b]);
    }
    if j < rest.len() && k < rest.len() {
        commands_apart(d, j, k);
    } else {
        let m = if j < rest.len() {
            j
        } else {
            k
        };
        if m < rest.len() {
            command_from(d, m);
            let i = choose|i: int| 0 <= i < d.len() && (#[trigger] d[i]).image_ref@ == rest[m].0;
            assert(f[i].image_ref@ != f[f.len() - 1].image_ref@);
        }
    }
}

/// Every resource has a switch that says whether it is disabled; the config has an object
/// with the names of all resources, and so has the session.
#[verifier::rlimit(40)]
pub proof fn switches_materialized(
    s: StoreV,
    config: Seq<char>,
    ms: Seq<Manifest>,
    disabled: Seq<bool>,
    i: int,
)
    requires
        s.ok(),
        named_apart(ms),
        0 <= i < ms.len(),
        disabled.len() == ms.len(),
    ensures
        ({
            let t = materialized(s, config, ms, disabled);
            let switch = t.find("ConfigMap"@, "default"@, ms[i].name@ + "-disable"@);
            &&& switch is Some
            &&& holds_given(switch->0, disable_config_map(disabled[i]))
            &&& t.find("Session"@, "default"@, "Tiltfile"@) is Some
            &&& holds_given(
                t.find("Session"@, "default"@, "Tiltfile"@)->0,
                session(ms.map_values(|m: Manifest| m.name@)),
            )
            &&& t.find("TriggerQueue"@, "default"@, "queue"@) is Some
        }),
{
    kinds_told_apart();
    first_ok(s, config, ms);
    let a = first_part(s, config, ms);
    let f = first_builds(all_builds(ms));
    let n = ms[i].name@ + "-disable"@;
    let k = "ConfigMap"@;
    let a1 = kept(a, "DockerImage"@, docker_images(f), k, n);
    let a2 = kept(a1, "ImageMap"@, image_maps(f), k, n);
    let b = kept(a2, "CmdImage"@, cmd_images(f), k, n);
    let b1 = kept(
        b,
        "KubernetesDiscovery"@,
        objects_wanted(PerResource::KubernetesDiscovery, ms),
        k,
        n,
    );
    let b2 = kept(b1, "PodLogStream"@, objects_wanted(PerResource::PodLogStream, ms), k, n);
    let b3 = kept(
        b2,
        "DockerComposeService"@,
        objects_wanted(PerResource::DockerComposeService, ms),
        k,
        n,
    );
    let b4 = kept(
        b3,
        "DockerComposeLogStream"@,
        objects_wanted(PerResource::DockerComposeLogStream, ms),
        k,
        n,
    );
    let b5 = kept(b4, "ToggleButton"@, objects_wanted(PerResource::ToggleButton, ms), k, n);
    let maps = disable_maps(ms, disabled);
    assert(maps[i] == (n, disable_config_map(disabled[i])));
    assert forall|j: int| 0 <= j < maps.len() && j != i implies (#[trigger] maps[j]).0
        != maps[i].0 by {
        let e = "-disable"@;
        let x = ms[j].name@ + e;
        if x == n {
            assert(x.take(x.len() - e.len()) =~= ms[j].name@);
            assert(n.take(n.len() - e.len()) =~= ms[i].name@);
            if j < i {
                assert(ms[j].name@ != ms[i].name@);
            } else {
                assert(ms[i].name@ != ms[j].name@);
            }
        }
    }
    reconciled_holds(b5, k, maps, i);
    let b6 = reconciled(b5, k, maps);
    let b7 = kept_beside(b6, "TriggerQueue"@, "queue"@, trigger_queue(), k, n);
    b6.applied_finds("TriggerQueue"@, "default"@, "queue"@, trigger_queue());
    let names = resource_names(ms);
    let b8 = kept_beside(b7, "Session"@, "Tiltfile"@, session(names), k, n);
    b7.applied_finds("Session"@, "default"@, "Tiltfile"@, session(names));
    let o = b8.find("Session"@, "default"@, "Tiltfile"@)->0;
    let uid = match b7.find("Session"@, "default"@, "Tiltfile"@) {
        Some(o) => o.uid,
        None => crate::api::store::nth_uid(b7.next_uid + 1),
    };
    crate::api::store::stamped_holds(
        "Session"@,
        "default"@,
        "Tiltfile"@,
        uid,
        b7.resource_version + 1,
        session(names),
    );
    assert(names =~= ms.map_values(|m: Manifest| m.name@));
}

} // verus!
