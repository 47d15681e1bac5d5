//! Mirroring what a config declares into the store of API objects.

use vstd::prelude::*;
use vstd::string::*;

use crate::api::store::{ApiObjectStore, StoreV};
use crate::daemon::state::among;
use crate::engine::desired::{
    applied_bounds, desired_push, desired_view, reconcile_kind, reconciled, reconciled_bounds,
};
use crate::engine::objects::{
    cmd_image, cmd_image_object, cmd_object, cmd_value, dc_log_stream, dc_log_stream_object,
    dc_service, dc_service_object, disable_config_map, disable_config_map_object, docker_image,
    docker_image_object, extension_object, extension_repo_object, file_watch, file_watch_object,
    image_map, image_map_object, image_refs, kubernetes_apply, kubernetes_apply_object,
    kubernetes_discovery, kubernetes_discovery_object, live_update_object, live_update_value, one,
    pod_log_stream, pod_log_stream_object, port_forward, port_forward_object, session,
    session_object, tiltfile, tiltfile_object, toggle_button, toggle_button_object, trigger_queue,
    trigger_queue_object, txt,
};
use crate::json::{with_key, Json, JsonV};
use crate::manifest::{DockerBuild, Manifest, TargetKind};
use crate::paths::{file_name, file_name_of};
use crate::text::{cat, owned, pairs, texts, texts_push};

verus! {

/// The kinds of objects of which a resource has at most one.
#[derive(Clone, Copy, PartialEq, Eq, Structural)]
pub enum PerResource {
    KubernetesApply,
    FileWatch,
    Cmd,
    PortForward,
    LiveUpdate,
    KubernetesDiscovery,
    PodLogStream,
    DockerComposeService,
    DockerComposeLogStream,
    ToggleButton,
}

/// Whether a resource has an object of the kind.
pub open spec fn has_object(which: PerResource, m: Manifest) -> bool {
    match which {
        PerResource::KubernetesApply => m.kind == TargetKind::Kubernetes,
        PerResource::FileWatch => m.deps@.len() > 0,
        PerResource::Cmd => m.kind == TargetKind::Local && m.update_cmd.argv@.len() > 0,
        PerResource::PortForward => m.k8s_port_forwards@.len() > 0,
        PerResource::LiveUpdate => m.live_update@.len() > 0,
        PerResource::KubernetesDiscovery => m.kind == TargetKind::Kubernetes
            && m.pod_selector@.len() > 0,
        PerResource::PodLogStream => m.kind == TargetKind::Kubernetes && m.pod_selector@.len() > 0,
        PerResource::DockerComposeService => m.kind == TargetKind::DockerCompose,
        PerResource::DockerComposeLogStream => m.kind == TargetKind::DockerCompose,
        PerResource::ToggleButton => true,
    }
}

/// The object of the kind.
pub open spec fn object_value(which: PerResource, m: Manifest) -> JsonV {
    match which {
        PerResource::KubernetesApply => kubernetes_apply(m),
        PerResource::FileWatch => file_watch(m),
        PerResource::Cmd => cmd_value(m),
        PerResource::PortForward => port_forward(m),
        PerResource::LiveUpdate => live_update_value(m),
        PerResource::KubernetesDiscovery => kubernetes_discovery(m),
        PerResource::PodLogStream => pod_log_stream(m),
        PerResource::DockerComposeService => dc_service(m),
        PerResource::DockerComposeLogStream => dc_log_stream(m),
        PerResource::ToggleButton => toggle_button(m),
    }
}

/// The objects of the kind, each under the name of its resource.
pub open spec fn objects_wanted(which: PerResource, ms: Seq<Manifest>) -> Seq<(Seq<char>, JsonV)>
    decreases ms.len(),
{
    if ms.len() == 0 {
        Seq::empty()
    } else {
        let rest = objects_wanted(which, ms.drop_last());
        if has_object(which, ms.last()) {
            rest.push((ms.last().name@, object_value(which, ms.last())))
        } else {
            rest
        }
    }
}

fn wants_object(which: PerResource, m: &Manifest) -> (r: bool)
    ensures
        r == has_object(which, *m),
{
    match which {
        PerResource::KubernetesApply => m.kind == TargetKind::Kubernetes,
        PerResource::FileWatch => m.deps.len() > 0,
        PerResource::Cmd => m.kind == TargetKind::Local && !m.update_cmd.is_empty(),
        PerResource::PortForward => m.k8s_port_forwards.len() > 0,
        PerResource::LiveUpdate => m.live_update.len() > 0,
        PerResource::KubernetesDiscovery => m.kind == TargetKind::Kubernetes
            && m.pod_selector.len() > 0,
        PerResource::PodLogStream => m.kind == TargetKind::Kubernetes && m.pod_selector.len() > 0,
        PerResource::DockerComposeService => m.kind == TargetKind::DockerCompose,
        PerResource::DockerComposeLogStream => m.kind == TargetKind::DockerCompose,
        PerResource::ToggleButton => true,
    }
}

fn object_for(which: PerResource, m: &Manifest) -> (r: Json)
    ensures
        r@ == object_value(which, *m),
{
    match which {
        PerResource::KubernetesApply => kubernetes_apply_object(m),
        PerResource::FileWatch => file_watch_object(m),
        PerResource::Cmd => cmd_object(m),
        PerResource::PortForward => port_forward_object(m),
        PerResource::LiveUpdate => live_update_object(m),
        PerResource::KubernetesDiscovery => kubernetes_discovery_object(m),
        PerResource::PodLogStream => pod_log_stream_object(m),
        PerResource::DockerComposeService => dc_service_object(m),
        PerResource::DockerComposeLogStream => dc_log_stream_object(m),
        PerResource::ToggleButton => toggle_button_object(m),
    }
}

/// The objects of the kind, each under the name of its resource.
pub fn desired_objects(which: PerResource, manifests: &Vec<Manifest>) -> (r: Vec<(String, Json)>)
    ensures
        desired_view(r@) == objects_wanted(which, manifests@),
        r@.len() <= manifests@.len(),
{
    broadcast use desired_push;

    let mut r: Vec<(String, Json)> = Vec::new();
    let mut i: usize = 0;
    assert(desired_view(r@) =~= objects_wanted(which, manifests@.take(0)));
    while i < manifests.len()
        invariant
            i <= manifests@.len(),
            r@.len() <= i,
            desired_view(r@) == objects_wanted(which, manifests@.take(i as int)),
        decreases manifests@.len() - i,
    {
        proof {
            assert(manifests@.take(i + 1).drop_last() =~= manifests@.take(i as int));
            assert(manifests@.take(i + 1).last() == manifests@[i as int]);
        }
        if wants_object(which, &manifests[i]) {
            r.push((manifests[i].name.clone(), object_for(which, &manifests[i])));
        }
        i += 1;
    }
    assert(manifests@.take(i as int) =~= manifests@);
    r
}

/// The image builds of all resources, in order.
pub open spec fn all_builds(ms: Seq<Manifest>) -> Seq<DockerBuild>
    decreases ms.len(),
{
    if ms.len() == 0 {
        Seq::empty()
    } else {
        all_builds(ms.drop_last()) + ms.last().docker_builds@
    }
}

/// The first build of each image.
pub open spec fn first_builds(builds: Seq<DockerBuild>) -> Seq<DockerBuild>
    decreases builds.len(),
{
    if builds.len() == 0 {
        Seq::empty()
    } else {
        let rest = first_builds(builds.drop_last());
        if image_refs(rest).contains(builds.last().image_ref@) {
            rest
        } else {
            rest.push(builds.last())
        }
    }
}

/// The `DockerImage` objects of image builds.
pub open spec fn docker_images(b: Seq<DockerBuild>) -> Seq<(Seq<char>, JsonV)> {
    b.map_values(|b: DockerBuild| (b.image_ref@, docker_image(b)))
}

/// The `ImageMap` objects of image builds.
pub open spec fn image_maps(b: Seq<DockerBuild>) -> Seq<(Seq<char>, JsonV)> {
    b.map_values(|b: DockerBuild| (b.image_ref@, image_map(b.image_ref@)))
}

/// The `CmdImage` objects of those image builds that a command does.
pub open spec fn cmd_images(b: Seq<DockerBuild>) -> Seq<(Seq<char>, JsonV)>
    decreases b.len(),
{
    if b.len() == 0 {
        Seq::empty()
    } else {
        let rest = cmd_images(b.drop_last());
        if b.last().command is Some {
            rest.push((b.last().image_ref@, cmd_image(b.last())))
        } else {
            rest
        }
    }
}

/// The objects of image builds.
pub struct ImageObjects {
    pub docker_images: Vec<(String, Json)>,
    pub image_maps: Vec<(String, Json)>,
    pub cmd_images: Vec<(String, Json)>,
    pub seen: Vec<String>,
}

/// Whether the objects are those of the first build of each image.
pub open spec fn images_done(r: ImageObjects, builds: Seq<DockerBuild>) -> bool {
    let f = first_builds(builds);
    &&& texts(r.seen@) == image_refs(f)
    &&& desired_view(r.docker_images@) == docker_images(f)
    &&& desired_view(r.image_maps@) == image_maps(f)
    &&& desired_view(r.cmd_images@) == cmd_images(f)
    &&& r.docker_images@.len() <= builds.len()
    &&& r.image_maps@.len() <= builds.len()
    &&& r.cmd_images@.len() <= builds.len()
}

/// Adds the objects of one more build.
fn add_build(r: &mut ImageObjects, b: &DockerBuild, builds: Ghost<Seq<DockerBuild>>)
    requires
        images_done(*old(r), builds@),
    ensures
        images_done(*final(r), builds@.push(*b)),
{
    broadcast use desired_push, texts_push;

    let ghost all = builds@.push(*b);
    let ghost f = first_builds(builds@);
    assert(all.drop_last() =~= builds@);
    if !among(b.image_ref.as_str(), &r.seen) {
        proof {
            assert(first_builds(all) == f.push(*b));
            assert(image_refs(f.push(*b)) =~= image_refs(f).push(b.image_ref@));
            assert(docker_images(f.push(*b)) =~= docker_images(f).push(
                (b.image_ref@, docker_image(*b)),
            ));
            assert(image_maps(f.push(*b)) =~= image_maps(f).push(
                (b.image_ref@, image_map(b.image_ref@)),
            ));
            assert(f.push(*b).drop_last() =~= f);
        }
        r.seen.push(b.image_ref.clone());
        r.docker_images.push((b.image_ref.clone(), docker_image_object(b)));
        r.image_maps.push((b.image_ref.clone(), image_map_object(b.image_ref.as_str())));
        if b.command.is_some() {
            r.cmd_images.push((b.image_ref.clone(), cmd_image_object(b)));
        }
    }
}

/// The objects of the image builds of all resources.
pub fn image_objects(manifests: &Vec<Manifest>) -> (r: ImageObjects)
    ensures
        images_done(r, all_builds(manifests@)),
{
    let mut r = ImageObjects {
        docker_images: Vec::new(),
        image_maps: Vec::new(),
        cmd_images: Vec::new(),
        seen: Vec::new(),
    };
    let ghost mut builds: Seq<DockerBuild> = Seq::empty();
    proof {
        assert(texts(r.seen@) =~= image_refs(first_builds(builds)));
        assert(desired_view(r.docker_images@) =~= docker_images(first_builds(builds)));
        assert(desired_view(r.image_maps@) =~= image_maps(first_builds(builds)));
        assert(desired_view(r.cmd_images@) =~= cmd_images(first_builds(builds)));
    }
    let mut i: usize = 0;
    while i < manifests.len()
        invariant
            i <= manifests@.len(),
            builds == all_builds(manifests@.take(i as int)),
            images_done(r, builds),
        decreases manifests@.len() - i,
    {
        let ghost before = builds;
        let m = &manifests[i];
        let mut k: usize = 0;
        proof {
            assert(builds =~= before + m.docker_builds@.take(0));
        }
        while k < m.docker_builds.len()
            invariant
                k <= m.docker_builds@.len(),
                builds == before + m.docker_builds@.take(k as int),
                images_done(r, builds),
            decreases m.docker_builds@.len() - k,
        {
            add_build(&mut r, &m.docker_builds[k], Ghost(builds));
            proof {
                builds = builds.push(m.docker_builds@[k as int]);
                assert(builds =~= before + m.docker_builds@.take(k + 1));
            }
            k += 1;
        }
        proof {
            assert(m.docker_builds@.take(k as int) =~= m.docker_builds@);
            assert(manifests@.take(i + 1).drop_last() =~= manifests@.take(i as int));
            assert(manifests@.take(i + 1).last() == manifests@[i as int]);
        }
        i += 1;
    }
    assert(manifests@.take(i as int) =~= manifests@);
    r
}

/// The `ConfigMap` objects that say which resources are disabled.
pub open spec fn disable_maps(ms: Seq<Manifest>, disabled: Seq<bool>) -> Seq<(Seq<char>, JsonV)> {
    Seq::new(
        ms.len(),
        |i: int| (ms[i].name@ + "-disable"@, disable_config_map(disabled[i])),
    )
}

fn disable_objects(manifests: &Vec<Manifest>, disabled: &Vec<bool>) -> (r: Vec<(String, Json)>)
    requires
        disabled@.len() == manifests@.len(),
    ensures
        desired_view(r@) == disable_maps(manifests@, disabled@),
        r@.len() == manifests@.len(),
{
    broadcast use desired_push;

    let ghost all = disable_maps(manifests@, disabled@);
    let mut r: Vec<(String, Json)> = Vec::new();
    let mut i: usize = 0;
    assert(desired_view(r@) =~= all.take(0));
    while i < manifests.len()
        invariant
            i <= manifests@.len(),
            disabled@.len() == manifests@.len(),
            r@.len() == i,
            all == disable_maps(manifests@, disabled@),
            desired_view(r@) == all.take(i as int),
        decreases manifests@.len() - i,
    {
        let name = cat(manifests[i].name.as_str(), "-disable");
        r.push((name, disable_config_map_object(disabled[i])));
        assert(all.take(i + 1) =~= all.take(i as int).push(all[i as int]));
        i += 1;
    }
    assert(all.take(i as int) =~= all);
    r
}

/// The names of the resources.
pub open spec fn resource_names(ms: Seq<Manifest>) -> Seq<Seq<char>> {
    ms.map_values(|m: Manifest| m.name@)
}

/// The names of the resources.
pub fn names_of_resources(manifests: &Vec<Manifest>) -> (r: Vec<String>)
    ensures
        texts(r@) == resource_names(manifests@),
{
    broadcast use texts_push;

    let ghost all = resource_names(manifests@);
    let mut r: Vec<String> = Vec::new();
    let mut i: usize = 0;
    assert(texts(r@) =~= all.take(0));
    while i < manifests.len()
        invariant
            i <= manifests@.len(),
            all == resource_names(manifests@),
            texts(r@) == all.take(i as int),
        decreases manifests@.len() - i,
    {
        r.push(manifests[i].name.clone());
        assert(all.take(i + 1) =~= all.take(i as int).push(manifests@[i as int].name@));
        i += 1;
    }
    assert(all.take(i as int) =~= all);
    r
}

/// The name of the `Tiltfile` object: the file name of the config.
pub open spec fn tiltfile_name(config_path: Seq<char>) -> Seq<char> {
    match file_name(config_path) {
        Some(n) => n,
        None => "Tiltfile"@,
    }
}

/// The store after the objects of which a resource has at most one, first part.
pub open spec fn first_part(s: StoreV, config_path: Seq<char>, ms: Seq<Manifest>) -> StoreV {
    let s0 = s.applied(
        "Tiltfile"@,
        "default"@,
        tiltfile_name(config_path),
        tiltfile(config_path, resource_names(ms)),
    );
    let s1 = reconciled(
        s0,
        "KubernetesApply"@,
        objects_wanted(PerResource::KubernetesApply, ms),
    );
    let s2 = reconciled(s1, "FileWatch"@, objects_wanted(PerResource::FileWatch, ms));
    let s3 = reconciled(s2, "Cmd"@, objects_wanted(PerResource::Cmd, ms));
    let s4 = reconciled(s3, "PortForward"@, objects_wanted(PerResource::PortForward, ms));
    reconciled(s4, "LiveUpdate"@, objects_wanted(PerResource::LiveUpdate, ms))
}

/// The store after the objects of image builds.
pub open spec fn image_part(s: StoreV, ms: Seq<Manifest>) -> StoreV {
    let f = first_builds(all_builds(ms));
    let s1 = reconciled(s, "DockerImage"@, docker_images(f));
    let s2 = reconciled(s1, "ImageMap"@, image_maps(f));
    reconciled(s2, "CmdImage"@, cmd_images(f))
}

/// The store after the remaining objects.
pub open spec fn last_part(s: StoreV, ms: Seq<Manifest>, disabled: Seq<bool>) -> StoreV {
    let s1 = reconciled(
        s,
        "KubernetesDiscovery"@,
        objects_wanted(PerResource::KubernetesDiscovery, ms),
    );
    let s2 = reconciled(s1, "PodLogStream"@, objects_wanted(PerResource::PodLogStream, ms));
    let s3 = reconciled(
        s2,
        "DockerComposeService"@,
        objects_wanted(PerResource::DockerComposeService, ms),
    );
    let s4 = reconciled(
        s3,
        "DockerComposeLogStream"@,
        objects_wanted(PerResource::DockerComposeLogStream, ms),
    );
    let s5 = reconciled(s4, "ToggleButton"@, objects_wanted(PerResource::ToggleButton, ms));
    let s6 = reconciled(s5, "ConfigMap"@, disable_maps(ms, disabled));
    let s7 = s6.applied("TriggerQueue"@, "default"@, "queue"@, trigger_queue());
    s7.applied("Session"@, "default"@, "Tiltfile"@, session(resource_names(ms)))
}

/// The store after a config was mirrored into it.
pub open spec fn materialized(
    s: StoreV,
    config_path: Seq<char>,
    ms: Seq<Manifest>,
    disabled: Seq<bool>,
) -> StoreV {
    last_part(image_part(first_part(s, config_path, ms), ms), ms, disabled)
}

/// The largest number of objects of one kind that a config calls for.
pub open spec fn breadth(ms: Seq<Manifest>) -> nat {
    ms.len() + all_builds(ms).len()
}

/// Brings one kind to its desired set and keeps count of the room that is left.
fn reconcile_counted(
    api: &mut ApiObjectStore,
    kind: &str,
    desired: Vec<(String, Json)>,
    bound: Ghost<nat>,
    left: Ghost<nat>,
)
    requires
        old(api)@.ok(),
        desired@.len() <= bound@,
        old(api)@.room(old(api)@.objects.len() + bound@ + left@),
    ensures
        final(api)@ == reconciled(old(api)@, kind@, desired_view(desired@)),
        final(api)@.ok(),
        final(api)@.objects.len() <= old(api)@.objects.len() + bound@,
        final(api)@.room(left@),
{
    proof {
        reconciled_bounds(api@, kind@, desired_view(desired@));
    }
    reconcile_kind(api, kind, desired);
}

/// Mirrors the config file and the first kinds of objects of its resources.
fn materialize_first(
    api: &mut ApiObjectStore,
    config_path: &str,
    manifests: &Vec<Manifest>,
    names: &Vec<String>,
    n: Ghost<nat>,
    b: Ghost<nat>,
)
    requires
        old(api)@.ok(),
        texts(names@) == resource_names(manifests@),
        n@ == old(api)@.objects.len(),
        b@ == breadth(manifests@),
        old(api)@.room((14 * n@ + 105 * b@ + 20) as nat),
    ensures
        final(api)@ == first_part(old(api)@, config_path@, manifests@),
        final(api)@.ok(),
        final(api)@.objects.len() <= n@ + 1 + 5 * b@,
        final(api)@.room((9 * n@ + 90 * b@ + 14) as nat),
{
    let name: String = match file_name_of(config_path) {
        Some(f) => f,
        None => owned("Tiltfile"),
    };
    proof {
        applied_bounds(
            api@,
            "Tiltfile"@,
            "default"@,
            tiltfile_name(config_path@),
            tiltfile(config_path@, resource_names(manifests@)),
        );
    }
    api.apply("Tiltfile", "default", name.as_str(), tiltfile_object(config_path, names));
    reconcile_counted(
        api,
        "KubernetesApply",
        desired_objects(PerResource::KubernetesApply, manifests),
        b,
        Ghost((13 * n@ + 104 * b@ + 18) as nat),
    );
    reconcile_counted(
        api,
        "FileWatch",
        desired_objects(PerResource::FileWatch, manifests),
        b,
        Ghost((12 * n@ + 102 * b@ + 17) as nat),
    );
    reconcile_counted(
        api,
        "Cmd",
        desired_objects(PerResource::Cmd, manifests),
        b,
        Ghost((11 * n@ + 99 * b@ + 16) as nat),
    );
    reconcile_counted(
        api,
        "PortForward",
        desired_objects(PerResource::PortForward, manifests),
        b,
        Ghost((10 * n@ + 95 * b@ + 15) as nat),
    );
    reconcile_counted(
        api,
        "LiveUpdate",
        desired_objects(PerResource::LiveUpdate, manifests),
        b,
        Ghost((9 * n@ + 90 * b@ + 14) as nat),
    );
}

/// Mirrors the image builds.
fn materialize_images(
    api: &mut ApiObjectStore,
    manifests: &Vec<Manifest>,
    n: Ghost<nat>,
    b: Ghost<nat>,
)
    requires
        old(api)@.ok(),
        b@ == breadth(manifests@),
        old(api)@.objects.len() <= n@ + 1 + 5 * b@,
        old(api)@.room((9 * n@ + 90 * b@ + 14) as nat),
    ensures
        final(api)@ == image_part(old(api)@, manifests@),
        final(api)@.ok(),
        final(api)@.objects.len() <= n@ + 1 + 8 * b@,
        final(api)@.room((6 * n@ + 69 * b@ + 11) as nat),
{
    let images = image_objects(manifests);
    reconcile_counted(
        api,
        "DockerImage",
        images.docker_images,
        b,
        Ghost((8 * n@ + 84 * b@ + 13) as nat),
    );
    reconcile_counted(
        api,
        "ImageMap",
        images.image_maps,
        b,
        Ghost((7 * n@ + 77 * b@ + 12) as nat),
    );
    reconcile_counted(
        api,
        "CmdImage",
        images.cmd_images,
        b,
        Ghost((6 * n@ + 69 * b@ + 11) as nat),
    );
}

/// Mirrors the remaining kinds of objects, the trigger queue and the session.
fn materialize_last(
    api: &mut ApiObjectStore,
    manifests: &Vec<Manifest>,
    disabled: &Vec<bool>,
    names: &Vec<String>,
    n: Ghost<nat>,
    b: Ghost<nat>,
)
    requires
        old(api)@.ok(),
        disabled@.len() == manifests@.len(),
        texts(names@) == resource_names(manifests@),
        b@ == breadth(manifests@),
        old(api)@.objects.len() <= n@ + 1 + 8 * b@,
        old(api)@.room((6 * n@ + 69 * b@ + 11) as nat),
    ensures
        final(api)@ == last_part(old(api)@, manifests@, disabled@),
        final(api)@.ok(),
{
    reconcile_counted(
        api,
        "KubernetesDiscovery",
        desired_objects(PerResource::KubernetesDiscovery, manifests),
        b,
        Ghost((5 * n@ + 60 * b@ + 10) as nat),
    );
    reconcile_counted(
        api,
        "PodLogStream",
        desired_objects(PerResource::PodLogStream, manifests),
        b,
        Ghost((4 * n@ + 50 * b@ + 9) as nat),
    );
    reconcile_counted(
        api,
        "DockerComposeService",
        desired_objects(PerResource::DockerComposeService, manifests),
        b,
        Ghost((3 * n@ + 39 * b@ + 8) as nat),
    );
    reconcile_counted(
        api,
        "DockerComposeLogStream",
        desired_objects(PerResource::DockerComposeLogStream, manifests),
        b,
        Ghost((2 * n@ + 27 * b@ + 7) as nat),
    );
    reconcile_counted(
        api,
        "ToggleButton",
        desired_objects(PerResource::ToggleButton, manifests),
        b,
        Ghost((n@ + 14 * b@ + 6) as nat),
    );
    reconcile_counted(api, "ConfigMap", disable_objects(manifests, disabled), b, Ghost(5nat));
    proof {
        applied_bounds(api@, "TriggerQueue"@, "default"@, "queue"@, trigger_queue());
    }
    api.apply("TriggerQueue", "default", "queue", trigger_queue_object());
    api.apply("Session", "default", "Tiltfile", session_object(names));
}

/// Mirrors a config into the store: the `Tiltfile` object, the objects of each
/// resource and of each image, the trigger queue and the session. Objects that the
/// config no longer calls for are deleted.
pub fn materialize_api_objects(
    api: &mut ApiObjectStore,
    config_path: &str,
    manifests: &Vec<Manifest>,
    disabled: &Vec<bool>,
)
    requires
        old(api)@.ok(),
        disabled@.len() == manifests@.len(),
        old(api)@.room((14 * old(api)@.objects.len() + 105 * breadth(manifests@) + 20) as nat),
    ensures
        final(api)@ == materialized(old(api)@, config_path@, manifests@, disabled@),
        final(api)@.ok(),
{
    let n: Ghost<nat> = Ghost(api@.objects.len());
    let b: Ghost<nat> = Ghost(breadth(manifests@));
    let names = names_of_resources(manifests);
    materialize_first(api, config_path, manifests, &names, n, b);
    materialize_images(api, manifests, n, b);
    materialize_last(api, manifests, disabled, &names, n, b);
}

/// The store after the extension repositories were recorded.
pub open spec fn repos_recorded(s: StoreV, repos: Seq<(Seq<char>, Seq<char>)>) -> StoreV
    decreases repos.len(),
{
    if repos.len() == 0 {
        s
    } else {
        repos_recorded(s, repos.drop_last()).applied(
            "ExtensionRepo"@,
            "default"@,
            repos.last().0,
            one("spec"@, one("url"@, txt("file://"@ + repos.last().1))),
        )
    }
}

/// The store after the extensions were recorded.
pub open spec fn extensions_recorded(s: StoreV, exts: Seq<(Seq<char>, Seq<char>)>) -> StoreV
    decreases exts.len(),
{
    if exts.len() == 0 {
        s
    } else {
        extensions_recorded(s, exts.drop_last()).applied(
            "Extension"@,
            "default"@,
            exts.last().0,
            one(
                "spec"@,
                with_key(
                    one("repoName"@, txt(exts.last().1)),
                    "repoPath"@,
                    txt(exts.last().0),
                ),
            ),
        )
    }
}

proof fn repos_recorded_bounds(s: StoreV, repos: Seq<(Seq<char>, Seq<char>)>)
    requires
        s.ok(),
    ensures
        repos_recorded(s, repos).ok(),
        repos_recorded(s, repos).resource_version == s.resource_version + repos.len(),
        repos_recorded(s, repos).next_uid <= s.next_uid + repos.len(),
    decreases repos.len(),
{
    if repos.len() > 0 {
        repos_recorded_bounds(s, repos.drop_last());
        applied_bounds(
            repos_recorded(s, repos.drop_last()),
            "ExtensionRepo"@,
            "default"@,
            repos.last().0,
            one("spec"@, one("url"@, txt("file://"@ + repos.last().1))),
        );
    }
}

proof fn extensions_recorded_bounds(s: StoreV, exts: Seq<(Seq<char>, Seq<char>)>)
    requires
        s.ok(),
    ensures
        extensions_recorded(s, exts).ok(),
        extensions_recorded(s, exts).resource_version == s.resource_version + exts.len(),
        extensions_recorded(s, exts).next_uid <= s.next_uid + exts.len(),
    decreases exts.len(),
{
    if exts.len() > 0 {
        extensions_recorded_bounds(s, exts.drop_last());
        applied_bounds(
            extensions_recorded(s, exts.drop_last()),
            "Extension"@,
            "default"@,
            exts.last().0,
            one(
                "spec"@,
                with_key(
                    one("repoName"@, txt(exts.last().1)),
                    "repoPath"@,
                    txt(exts.last().0),
                ),
            ),
        );
    }
}

/// Records the extension repositories, name and path each, and the extensions,
/// reference and repository each, that a config loaded.
pub fn record_extensions(
    api: &mut ApiObjectStore,
    repos: &Vec<(String, String)>,
    extensions: &Vec<(String, String)>,
)
    requires
        old(api)@.ok(),
        old(api)@.room(repos@.len() + extensions@.len()),
    ensures
        final(api)@.ok(),
        final(api)@ == extensions_recorded(
            repos_recorded(old(api)@, pairs(repos@)),
            pairs(extensions@),
        ),
{
    let ghost s = api@;
    let ghost rp = pairs(repos@);
    let ghost ex = pairs(extensions@);
    let mut i: usize = 0;
    assert(rp.take(0) =~= Seq::empty());
    while i < repos.len()
        invariant
            i <= repos@.len(),
            rp == pairs(repos@),
            s.ok(),
            s.room(repos@.len() + extensions@.len()),
            api@ == repos_recorded(s, rp.take(i as int)),
            api@.ok(),
        decreases repos@.len() - i,
    {
        proof {
            repos_recorded_bounds(s, rp.take(i as int));
            assert(rp.take(i + 1).drop_last() =~= rp.take(i as int));
            assert(rp.take(i + 1).last() == rp[i as int]);
        }
        api.apply(
            "ExtensionRepo",
            "default",
            repos[i].0.as_str(),
            extension_repo_object(repos[i].1.as_str()),
        );
        i += 1;
    }
    assert(rp.take(i as int) =~= rp);
    let ghost mid = api@;
    proof {
        repos_recorded_bounds(s, rp);
    }
    let mut k: usize = 0;
    assert(ex.take(0) =~= Seq::empty());
    while k < extensions.len()
        invariant
            k <= extensions@.len(),
            ex == pairs(extensions@),
            mid.ok(),
            mid.room(extensions@.len()),
            api@ == extensions_recorded(mid, ex.take(k as int)),
            api@.ok(),
        decreases extensions@.len() - k,
    {
        proof {
            extensions_recorded_bounds(mid, ex.take(k as int));
            assert(ex.take(k + 1).drop_last() =~= ex.take(k as int));
            assert(ex.take(k + 1).last() == ex[k as int]);
        }
        api.apply(
            "Extension",
            "default",
            extensions[k].0.as_str(),
            extension_object(extensions[k].0.as_str(), extensions[k].1.as_str()),
        );
        k += 1;
    }
    assert(ex.take(k as int) =~= ex);
}

} // verus!
