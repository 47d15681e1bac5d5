//! What the web frontend and the dashboard are first told of resources, their buttons
//! and the session.

use vstd::prelude::*;
use vstd::string::*;

use crate::api::v1alpha1::{
    Cluster, ClusterConnection, ClusterSpec, ClusterStatus, DisableResourceStatus,
    DockerClusterConnection, ObjectMeta, TiltBuild, UIButton, UIButtonSpec, UIButtonStatus,
    UIComponentLocation, UIFeatureFlag, UIResource, UIResourceCondition, UIResourceLink, UIResourceLocal,
    UIResourceSpec, UIResourceStatus, UIResourceTargetSpec, UISession, UISessionSpec,
    UISessionStatus, VersionSettings,
};
use crate::ci::is_disabled;
use crate::daemon::protocol::ResourceSnapshot;
use crate::engine::status::says;
use crate::manifest::{Manifest, TargetKind};
use crate::text::{cat, clone_pairs, opt_text, owned, pairs, same};

verus! {

/// `uuid::Uuid::new_v4`, as text: a random identifier, so nothing is claimed of it.
#[verifier::external_body]
fn fresh_uid() -> String {
    uuid::Uuid::new_v4().to_string()
}

/// `chrono::Utc::now`, as RFC 3339 writes it. It depends on the clock, so nothing is
/// claimed of it.
#[verifier::external_body]
pub(crate) fn now_text() -> String {
    chrono::Utc::now().to_rfc3339()
}

/// Whether an object's metadata hold a name and an identifier, and no more than labels
/// and annotations besides.
pub open spec fn named(m: ObjectMeta, name: Seq<char>, uid: Seq<char>) -> bool {
    &&& m.name@ == name
    &&& m.namespace@.len() == 0
    &&& m.resource_version is None
    &&& m.uid@ == uid
    &&& m.creation_timestamp is None
    &&& m.deletion_timestamp is None
}

fn meta(name: &str, uid: &str) -> (r: ObjectMeta)
    ensures
        named(r, name@, uid@),
        r.labels is None,
        r.annotations is None,
{
    ObjectMeta {
        name: owned(name),
        namespace: String::new(),
        resource_version: None,
        uid: owned(uid),
        labels: None,
        annotations: None,
        creation_timestamp: None,
        deletion_timestamp: None,
    }
}

/// Whether a status says nothing but, perhaps, how builds, the runtime and its links
/// and conditions are.
pub open spec fn bare_status(s: UIResourceStatus) -> bool {
    &&& s.last_deploy_time is None
    &&& s.build_history@.len() == 0
    &&& s.current_build is None
    &&& s.pending_build_since is None
    &&& s.has_pending_changes is None
    &&& s.k8s_resource_info is None
    &&& s.compose_resource_info is None
    &&& s.queued is None
    &&& s.waiting is None
}

fn empty_status() -> (r: UIResourceStatus)
    ensures
        bare_status(r),
        r.trigger_mode is None,
        r.endpoint_links@.len() == 0,
        r.local_resource_info is None,
        r.runtime_status is None,
        r.update_status is None,
        r.specs@.len() == 0,
        r.order is None,
        r.disable_status is None,
        r.conditions@.len() == 0,
{
    UIResourceStatus {
        last_deploy_time: None,
        trigger_mode: None,
        build_history: Vec::new(),
        current_build: None,
        pending_build_since: None,
        has_pending_changes: None,
        endpoint_links: Vec::new(),
        k8s_resource_info: None,
        compose_resource_info: None,
        local_resource_info: None,
        runtime_status: None,
        update_status: None,
        specs: Vec::new(),
        queued: None,
        order: None,
        disable_status: None,
        waiting: None,
        conditions: Vec::new(),
    }
}

/// Whether links are those of a resource: addresses and names.
pub open spec fn links_are(l: Seq<UIResourceLink>, links: Seq<(Seq<char>, Seq<char>)>) -> bool {
    &&& l.len() == links.len()
    &&& forall|i: int|
        0 <= i < l.len() ==> says((#[trigger] l[i]).url, links[i].0) && says(l[i].name, links[i].1)
}

fn links_of(v: &Vec<(String, String)>) -> (r: Vec<UIResourceLink>)
    ensures
        links_are(r@, pairs(v@)),
{
    let mut r: Vec<UIResourceLink> = Vec::new();
    let mut i: usize = 0;
    while i < v.len()
        invariant
            i <= v@.len(),
            r@.len() == i,
            forall|j: int|
                0 <= j < i ==> says((#[trigger] r@[j]).url, pairs(v@)[j].0) && says(
                    r@[j].name,
                    pairs(v@)[j].1,
                ),
        decreases v@.len() - i,
    {
        assert(pairs(v@)[i as int] == (v@[i as int].0@, v@[i as int].1@));
        r.push(UIResourceLink { url: Some(v[i].0.clone()), name: Some(v[i].1.clone()) });
        i += 1;
    }
    r
}

/// Whether a status is that of a resource before anything was built or run.
pub open spec fn initial_status(s: UIResourceStatus, m: Manifest, order: i32) -> bool {
    &&& bare_status(s)
    &&& s.order == Some(order)
    &&& s.trigger_mode == Some(m.trigger_mode)
    &&& says(s.update_status, "pending"@)
    &&& says(
        s.runtime_status,
        if m.kind == TargetKind::Local && m.serve_cmd.argv@.len() == 0 {
            "not_applicable"@
        } else {
            "pending"@
        },
    )
    &&& s.specs@.len() == 1 && says(s.specs@[0].id, m.name@) && says(
        s.specs@[0].target_type,
        m.kind.kind_name(),
    ) && s.specs@[0].has_live_update == Some(false)
    &&& s.disable_status is Some && s.disable_status->0.enabled_count == 1
        && s.disable_status->0.disabled_count == 0 && s.disable_status->0.state@ == "Enabled"@
        && s.disable_status->0.sources@.len() == 0
    &&& links_are(s.endpoint_links@, pairs(m.links@))
    &&& s.conditions@.len() == 0
    &&& (if m.kind == TargetKind::Local {
        s.local_resource_info == Some(
            UIResourceLocal {
                pid: Some(0),
                is_test: Some(m.is_test),
                restart_count: None,
                last_start_time: None,
            },
        )
    } else {
        s.local_resource_info is None
    })
}

/// Whether a resource is shown as it is before anything was built or run.
pub open spec fn starts_out(r: UIResource, m: Manifest, order: i32, uid: Seq<char>) -> bool {
    &&& r.metadata is Some
    &&& named(r.metadata->0, m.name@, uid)
    &&& r.metadata->0.annotations is None
    &&& (match r.metadata->0.labels {
        None => m.labels@.len() == 0,
        Some(l) => m.labels@.len() > 0 && pairs(l@) == pairs(m.labels@),
    })
    &&& r.spec is Some
    &&& r.status is Some
    &&& initial_status(r.status->0, m, order)
}

/// The resource that is shown before anything was built or run, with the given
/// identifier.
pub fn initial_resource_with(m: &Manifest, order: i32, uid: &str) -> (r: UIResource)
    ensures
        starts_out(r, *m, order, uid@),
{
    let runtime = if m.kind == TargetKind::Local && m.serve_cmd.is_empty() {
        "not_applicable"
    } else {
        "pending"
    };
    let mut specs: Vec<UIResourceTargetSpec> = Vec::new();
    specs.push(
        UIResourceTargetSpec {
            id: Some(m.name.clone()),
            target_type: Some(owned(m.kind.target_type())),
            has_live_update: Some(false),
        },
    );
    let mut st = empty_status();
    st.order = Some(order);
    st.trigger_mode = Some(m.trigger_mode);
    st.update_status = Some(owned("pending"));
    st.runtime_status = Some(owned(runtime));
    st.specs = specs;
    st.disable_status = Some(
        DisableResourceStatus {
            enabled_count: 1,
            disabled_count: 0,
            state: owned("Enabled"),
            sources: Vec::new(),
        },
    );
    st.endpoint_links = links_of(&m.links);
    if m.kind == TargetKind::Local {
        st.local_resource_info = Some(
            UIResourceLocal {
                pid: Some(0),
                is_test: Some(m.is_test),
                restart_count: None,
                last_start_time: None,
            },
        );
    }
    let mut metadata = meta(m.name.as_str(), uid);
    if m.labels.len() > 0 {
        metadata.labels = Some(clone_pairs(&m.labels));
    }
    UIResource { metadata: Some(metadata), spec: Some(UIResourceSpec {  }), status: Some(st) }
}

/// The resource that is shown before anything was built or run.
pub fn initial_resource(m: &Manifest, order: i32) -> (r: UIResource)
    ensures
        exists|uid: Seq<char>| #[trigger] starts_out(r, *m, order, uid),
{
    let uid = fresh_uid();
    let r = initial_resource_with(m, order, uid.as_str());
    assert(starts_out(r, *m, order, uid@));
    r
}

/// Whether a button switches a resource on and off.
pub open spec fn toggles(b: UIButton, resource: Seq<char>, uid: Seq<char>) -> bool {
    &&& b.metadata is Some && named(b.metadata->0, resource + "-disable"@, uid)
    &&& b.metadata->0.labels is None
    &&& b.metadata->0.annotations is Some && pairs(b.metadata->0.annotations->0@) == seq![
        ("tilt.dev/uibutton-type"@, "DisableToggle"@),
    ]
    &&& b.spec is Some && b.spec->0.location.component_id@ == resource
        && b.spec->0.location.component_type@ == "Resource"@ && b.spec->0.text@ == "Disable"@
        && says(b.spec->0.icon_name, "toggle_on"@) && b.spec->0.icon_svg is None
        && b.spec->0.disabled is None && b.spec->0.requires_confirmation is None
        && b.spec->0.inputs@.len() == 0
    &&& b.status is Some && b.status->0.last_clicked_at is None && b.status->0.inputs@.len() == 0
}

/// The button that switches a resource on and off, with the given identifier.
pub fn disable_button_with(resource: &str, uid: &str) -> (r: UIButton)
    ensures
        toggles(r, resource@, uid@),
{
    let mut annotations: Vec<(String, String)> = Vec::new();
    annotations.push((owned("tilt.dev/uibutton-type"), owned("DisableToggle")));
    assert(pairs(annotations@) =~= seq![("tilt.dev/uibutton-type"@, "DisableToggle"@)]);
    let name = cat(resource, "-disable");
    let mut metadata = meta(name.as_str(), uid);
    metadata.annotations = Some(annotations);
    UIButton {
        metadata: Some(metadata),
        spec: Some(
            UIButtonSpec {
                location: UIComponentLocation {
                    component_id: owned(resource),
                    component_type: owned("Resource"),
                },
                text: owned("Disable"),
                icon_name: Some(owned("toggle_on")),
                icon_svg: None,
                disabled: None,
                requires_confirmation: None,
                inputs: Vec::new(),
            },
        ),
        status: Some(UIButtonStatus { last_clicked_at: None, inputs: Vec::new() }),
    }
}

/// The button that switches a resource on and off.
pub fn disable_button(resource: &str) -> (r: UIButton)
    ensures
        exists|uid: Seq<char>| #[trigger] toggles(r, resource@, uid),
{
    let uid = fresh_uid();
    let r = disable_button_with(resource, uid.as_str());
    assert(toggles(r, resource@, uid@));
    r
}

/// Whether a resource tells of a config file that could not be loaded.
pub open spec fn tells_config_error(
    r: UIResource,
    name: Seq<char>,
    message: Seq<char>,
    uid: Seq<char>,
    now: Seq<char>,
) -> bool {
    &&& r.metadata is Some && named(r.metadata->0, name, uid) && r.metadata->0.labels is None
        && r.metadata->0.annotations is None
    &&& r.spec is Some
    &&& r.status is Some && bare_status(r.status->0)
    &&& says(r.status->0.runtime_status, "not_applicable"@)
    &&& says(r.status->0.update_status, "error"@)
    &&& r.status->0.trigger_mode is None && r.status->0.order is None
        && r.status->0.local_resource_info is None && r.status->0.disable_status is None
        && r.status->0.specs@.len() == 0 && r.status->0.endpoint_links@.len() == 0
    &&& r.status->0.conditions@.len() == 1
    &&& r.status->0.conditions@[0].condition_type@ == "ConfigLoaded"@
    &&& r.status->0.conditions@[0].status@ == "False"@
    &&& says(r.status->0.conditions@[0].last_transition_time, now)
    &&& says(r.status->0.conditions@[0].reason, "ConfigLoadFailed"@)
    &&& says(r.status->0.conditions@[0].message, message)
}

/// The resource that tells of a config file that could not be loaded, with the given
/// identifier and time.
pub fn config_error_resource_with(name: &str, message: &str, uid: &str, now: &str) -> (r: UIResource)
    ensures
        tells_config_error(r, name@, message@, uid@, now@),
{
    let mut st = empty_status();
    st.runtime_status = Some(owned("not_applicable"));
    st.update_status = Some(owned("error"));
    let mut conditions: Vec<UIResourceCondition> = Vec::new();
    conditions.push(
        UIResourceCondition {
            condition_type: owned("ConfigLoaded"),
            status: owned("False"),
            last_transition_time: Some(owned(now)),
            reason: Some(owned("ConfigLoadFailed")),
            message: Some(owned(message)),
        },
    );
    st.conditions = conditions;
    UIResource {
        metadata: Some(meta(name, uid)),
        spec: Some(UIResourceSpec {  }),
        status: Some(st),
    }
}

/// The resource that tells of a config file that could not be loaded.
pub fn config_error_resource(name: &str, message: &str) -> (r: UIResource)
    ensures
        exists|uid: Seq<char>, now: Seq<char>| #[trigger]
            tells_config_error(r, name@, message@, uid, now),
{
    let uid = fresh_uid();
    let now = now_text();
    let r = config_error_resource_with(name, message, uid.as_str(), now.as_str());
    assert(tells_config_error(r, name@, message@, uid@, now@));
    r
}

/// Whether a session is that of this version of the program, started at a time.
pub open spec fn seeds_session(s: UISession, start_time: Seq<char>, uid: Seq<char>) -> bool {
    &&& s.metadata is Some && named(s.metadata->0, "Starling"@, uid)
    &&& s.metadata->0.labels is None && s.metadata->0.annotations is None
    &&& s.spec is Some
    &&& s.status is Some
    &&& s.status->0.feature_flags@.len() == 0
    &&& s.status->0.needs_analytics_nudge == Some(false)
    &&& s.status->0.running_tilt_build is Some
    &&& says(s.status->0.running_tilt_build->0.version, "0.1.0-starling"@)
    &&& s.status->0.running_tilt_build->0.commit_sha is None
    &&& says(s.status->0.running_tilt_build->0.date, "2026-05-22"@)
    &&& s.status->0.running_tilt_build->0.dev == Some(true)
    &&& says(s.status->0.suggested_tilt_version, "0.1.0-starling"@)
    &&& s.status->0.version_settings == Some(VersionSettings { check_updates: Some(true) })
    &&& s.status->0.tilt_cloud_username is None && s.status->0.tilt_cloud_team_name is None
        && s.status->0.tilt_cloud_scheme_host is None && s.status->0.tilt_cloud_team_id is None
        && s.status->0.fatal_error is None
    &&& says(s.status->0.tilt_start_time, start_time)
    &&& says(s.status->0.tiltfile_key, "Starlingfile"@)
}

/// Whether a cluster is the local Docker daemon, on a machine of the given kind.
pub open spec fn seeds_cluster(
    c: Cluster,
    start_time: Seq<char>,
    arch: Seq<char>,
    uid: Seq<char>,
) -> bool {
    &&& c.metadata is Some && named(c.metadata->0, "default"@, uid)
    &&& c.metadata->0.labels is None && c.metadata->0.annotations is None
    &&& c.spec is Some && c.spec->0.default_registry is None && c.spec->0.connection is Some
    &&& c.spec->0.connection->0.kubernetes is None
    &&& c.spec->0.connection->0.docker is Some && says(
        c.spec->0.connection->0.docker->0.host,
        "unix:///var/run/docker.sock"@,
    )
    &&& c.status is Some && says(c.status->0.arch, arch) && says(
        c.status->0.connected_at,
        start_time,
    )
    &&& c.status->0.error is None && c.status->0.registry is None && c.status->0.connection is None
        && c.status->0.version is None
}

/// The session and the clusters that do not come from the config, with the given
/// identifiers. `arch` names the machine's kind of processor.
pub fn env_seed_with(start_time: &str, arch: &str, session_uid: &str, cluster_uid: &str) -> (r: (
    UISession,
    Vec<Cluster>,
))
    ensures
        seeds_session(r.0, start_time@, session_uid@),
        r.1@.len() == 1,
        seeds_cluster(r.1@[0], start_time@, arch@, cluster_uid@),
{
    let session = UISession {
        metadata: Some(meta("Starling", session_uid)),
        spec: Some(UISessionSpec {  }),
        status: Some(
            UISessionStatus {
                feature_flags: Vec::new(),
                needs_analytics_nudge: Some(false),
                running_tilt_build: Some(
                    TiltBuild {
                        version: Some(owned("0.1.0-starling")),
                        commit_sha: None,
                        date: Some(owned("2026-05-22")),
                        dev: Some(true),
                    },
                ),
                suggested_tilt_version: Some(owned("0.1.0-starling")),
                version_settings: Some(VersionSettings { check_updates: Some(true) }),
                tilt_cloud_username: None,
                tilt_cloud_team_name: None,
                tilt_cloud_scheme_host: None,
                tilt_cloud_team_id: None,
                fatal_error: None,
                tilt_start_time: Some(owned(start_time)),
                tiltfile_key: Some(owned("Starlingfile")),
            },
        ),
    };
    let mut clusters: Vec<Cluster> = Vec::new();
    clusters.push(
        Cluster {
            metadata: Some(meta("default", cluster_uid)),
            spec: Some(
                ClusterSpec {
                    connection: Some(
                        ClusterConnection {
                            kubernetes: None,
                            docker: Some(
                                DockerClusterConnection {
                                    host: Some(owned("unix:///var/run/docker.sock")),
                                },
                            ),
                        },
                    ),
                    default_registry: None,
                },
            ),
            status: Some(
                ClusterStatus {
                    arch: Some(owned(arch)),
                    error: None,
                    connected_at: Some(owned(start_time)),
                    registry: None,
                    connection: None,
                    version: None,
                },
            ),
        },
    );
    (session, clusters)
}

/// The session and the clusters that do not come from the config.
pub fn env_seed(start_time: &str, arch: &str) -> (r: (UISession, Vec<Cluster>))
    ensures
        exists|uid: Seq<char>| #[trigger] seeds_session(r.0, start_time@, uid),
        r.1@.len() == 1,
        exists|uid: Seq<char>| #[trigger] seeds_cluster(r.1@[0], start_time@, arch@, uid),
{
    let session_uid = fresh_uid();
    let cluster_uid = fresh_uid();
    let r = env_seed_with(start_time, arch, session_uid.as_str(), cluster_uid.as_str());
    assert(seeds_session(r.0, start_time@, session_uid@));
    assert(seeds_cluster(r.1@[0], start_time@, arch@, cluster_uid@));
    r
}

/// Whether flags are the given ones: names and values.
pub open spec fn flags_are(v: Seq<UIFeatureFlag>, flags: Seq<(String, bool)>) -> bool {
    &&& v.len() == flags.len()
    &&& forall|i: int|
        0 <= i < v.len() ==> says((#[trigger] v[i]).name, flags[i].0@) && v[i].value == Some(
            flags[i].1,
        )
}

/// Makes the settings of a config those of the session: its feature flags, and the team
/// where it names one.
pub fn apply_session_settings(
    st: &mut UISessionStatus,
    team_id: Option<String>,
    feature_flags: &Vec<(String, bool)>,
)
    ensures
        *final(st) == (UISessionStatus {
            feature_flags: final(st).feature_flags,
            tilt_cloud_team_id: match team_id {
                Some(t) => Some(t),
                None => old(st).tilt_cloud_team_id,
            },
            ..*old(st)
        }),
        flags_are(final(st).feature_flags@, feature_flags@),
{
    let mut flags: Vec<UIFeatureFlag> = Vec::new();
    let mut i: usize = 0;
    while i < feature_flags.len()
        invariant
            i <= feature_flags@.len(),
            flags_are(flags@, feature_flags@.take(i as int)),
        decreases feature_flags@.len() - i,
    {
        let ghost before = flags@;
        flags.push(
            UIFeatureFlag {
                name: Some(owned(feature_flags[i].0.as_str())),
                value: Some(feature_flags[i].1),
            },
        );
        assert(forall|j: int| 0 <= j < i ==> flags@[j] == before[j]);
        i += 1;
    }
    assert(feature_flags@.take(i as int) =~= feature_flags@);
    st.feature_flags = flags;
    if team_id.is_some() {
        st.tilt_cloud_team_id = team_id;
    }
}

/// A text, empty where it is not set.
pub open spec fn text_or_empty(o: Option<String>) -> Seq<char> {
    match o {
        Some(s) => s@,
        None => Seq::empty(),
    }
}

fn or_empty(o: &Option<String>) -> (r: String)
    ensures
        r@ == text_or_empty(*o),
{
    match o {
        Some(s) => s.clone(),
        None => {
            let r = String::new();
            assert(r@ =~= Seq::empty());
            r
        },
    }
}

/// The first condition of a type.
pub open spec fn condition_of(c: Seq<UIResourceCondition>, kind: Seq<char>) -> Option<
    UIResourceCondition,
>
    decreases c.len(),
{
    if c.len() == 0 {
        None
    } else if c[0].condition_type@ == kind {
        Some(c[0])
    } else {
        condition_of(c.drop_first(), kind)
    }
}

fn find_condition<'a>(c: &'a Vec<UIResourceCondition>, kind: &str) -> (r: Option<
    &'a UIResourceCondition,
>)
    ensures
        match r {
            Some(x) => condition_of(c@, kind@) == Some(*x),
            None => condition_of(c@, kind@) is None,
        },
{
    let mut i: usize = 0;
    assert(c@.skip(0) =~= c@);
    while i < c.len()
        invariant
            i <= c@.len(),
            condition_of(c@, kind@) == condition_of(c@.skip(i as int), kind@),
        decreases c@.len() - i,
    {
        assert(c@.skip(i as int)[0] == c@[i as int]);
        assert(c@.skip(i as int).drop_first() =~= c@.skip(i + 1));
        if same(c[i].condition_type.as_str(), kind) {
            return Some(&c[i]);
        }
        i += 1;
    }
    None
}

/// Whether a resource as the dashboard shows it is the resource with the status.
pub open spec fn shows(d: ResourceSnapshot, name: Seq<char>, st: UIResourceStatus) -> bool {
    &&& d.name@ == name
    &&& d.kind@ == (if st.specs@.len() > 0 && st.specs@[0].target_type is Some {
        st.specs@[0].target_type->0@
    } else {
        "local"@
    })
    &&& d.paused == (st.disable_status is Some && st.disable_status->0.state@ == "Disabled"@)
    &&& d.update_status@ == text_or_empty(st.update_status)
    &&& d.runtime_status@ == text_or_empty(st.runtime_status)
    &&& opt_text(d.pod) == (match st.k8s_resource_info {
        Some(k) => opt_text(k.pod_name),
        None => None,
    })
    &&& opt_text(d.url) == (if st.endpoint_links@.len() > 0 {
        opt_text(st.endpoint_links@[0].url)
    } else {
        None
    })
    &&& opt_text(d.proxy_status) == (match condition_of(st.conditions@, "ProxyReachable"@) {
        Some(c) => Some(c.status@),
        None => None,
    })
    &&& opt_text(d.proxy_message) == (match condition_of(st.conditions@, "ProxyReachable"@) {
        Some(c) => opt_text(c.message),
        None => None,
    })
    &&& d.build_count == st.build_history@.len() % 0x1_0000_0000
    &&& opt_text(d.last_deploy) == opt_text(st.last_deploy_time)
    &&& d.restart_count == (match st.local_resource_info {
        Some(l) => match l.restart_count {
            Some(n) => if n >= 0 {
                Some(n as u32)
            } else {
                None
            },
            None => None,
        },
        None => None,
    })
    &&& opt_text(d.last_start) == (match st.local_resource_info {
        Some(l) => opt_text(l.last_start_time),
        None => None,
    })
}

/// Whether the dashboard shows a resource so.
pub open spec fn shows_resource(d: ResourceSnapshot, r: UIResource) -> bool {
    let name = match r.metadata {
        Some(m) => m.name@,
        None => Seq::empty(),
    };
    match r.status {
        Some(st) => shows(d, name, st),
        None => d.name@ == name && d.kind@ == "local"@ && !d.paused && d.update_status@.len() == 0
            && d.runtime_status@.len() == 0 && d.pod is None && d.url is None
            && d.proxy_status is None && d.proxy_message is None && d.build_count == 0
            && d.last_deploy is None && d.restart_count is None && d.last_start is None,
    }
}

/// A resource as the dashboard shows it.
pub fn snapshot(r: &UIResource) -> (d: ResourceSnapshot)
    ensures
        shows_resource(d, *r),
{
    let name = match &r.metadata {
        Some(m) => m.name.clone(),
        None => {
            let e = String::new();
            assert(e@ =~= Seq::empty());
            e
        },
    };
    match &r.status {
        None => ResourceSnapshot {
            name,
            kind: owned("local"),
            paused: false,
            update_status: String::new(),
            runtime_status: String::new(),
            pod: None,
            url: None,
            proxy_status: None,
            proxy_message: None,
            build_count: 0,
            last_deploy: None,
            restart_count: None,
            last_start: None,
        },
        Some(st) => {
            let kind = if st.specs.len() > 0 {
                match &st.specs[0].target_type {
                    Some(t) => t.clone(),
                    None => owned("local"),
                }
            } else {
                owned("local")
            };
            let pod = match &st.k8s_resource_info {
                Some(k) => k.pod_name.clone(),
                None => None,
            };
            let url = if st.endpoint_links.len() > 0 {
                st.endpoint_links[0].url.clone()
            } else {
                None
            };
            let condition = find_condition(&st.conditions, "ProxyReachable");
            let proxy_status = match condition {
                Some(c) => Some(c.status.clone()),
                None => None,
            };
            let proxy_message = match condition {
                Some(c) => c.message.clone(),
                None => None,
            };
            let restart_count = match &st.local_resource_info {
                Some(l) => match l.restart_count {
                    Some(n) => if n >= 0 {
                        Some(n as u32)
                    } else {
                        None
                    },
                    None => None,
                },
                None => None,
            };
            let last_start = match &st.local_resource_info {
                Some(l) => l.last_start_time.clone(),
                None => None,
            };
            let builds: u64 = st.build_history.len() as u64;
            ResourceSnapshot {
                name,
                kind,
                paused: is_disabled(r),
                update_status: or_empty(&st.update_status),
                runtime_status: or_empty(&st.runtime_status),
                pod,
                url,
                proxy_status,
                proxy_message,
                build_count: (builds % 0x1_0000_0000) as u32,
                last_deploy: st.last_deploy_time.clone(),
                restart_count,
                last_start,
            }
        },
    }
}

} // verus!
