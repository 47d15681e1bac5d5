//! Pods: their state as the cluster reports it, and what follows from it.

use vstd::prelude::*;
use vstd::string::*;

use crate::api::v1alpha1::{UIResourceKubernetes, UIResourceStatus};
use crate::daemon::state::among;
use crate::engine::log::{line, log_v, Level, LogLine};
use crate::engine::status::says;
use crate::json::{
    as_list, at, clone_list, entries_view, entries_view_items, items, list_view, list_view_items,
    list_view_push, lookup_put, signed_or_zero, text_or, truth, unsigned_or_zero, with_key, Json, JsonV,
};
use crate::engine::objects::{forward_entry, one, port_forward, selector, txt};
use crate::manifest::{Manifest, PortForwardSpec};
use crate::text::{
    cat, cat3, dec, decimal, join, joined, owned, same, texts, texts_push,
};
use crate::trees::{json_read_bytes, parse_json_bytes};

verus! {

/// The state of all pods of a resource.
#[derive(Debug)]
pub struct PodSummary {
    pub total: usize,
    pub ready: usize,
    pub restarts: i64,
    /// `ok`, `pending` or `error`.
    pub runtime: &'static str,
}

/// The number of restarts of the containers.
pub open spec fn restart_sum(containers: Seq<JsonV>) -> int
    decreases containers.len(),
{
    if containers.len() == 0 {
        0
    } else {
        restart_sum(containers.drop_last()) + signed_or_zero(
            at(containers.last(), "restartCount"@),
        )
    }
}

/// The statuses of the containers of a pod, where it has a list of them.
pub open spec fn container_statuses(pod: JsonV) -> JsonV {
    at(at(pod, "status"@), "containerStatuses"@)
}

/// The number of restarts of all pods.
pub open spec fn pods_restarts(pods: Seq<JsonV>) -> int
    decreases pods.len(),
{
    if pods.len() == 0 {
        0
    } else {
        pods_restarts(pods.drop_last()) + restart_sum(items(container_statuses(pods.last())))
    }
}

/// Whether all containers are ready.
pub open spec fn all_ready(containers: Seq<JsonV>) -> bool {
    forall|i: int| 0 <= i < containers.len() ==> truth(#[trigger] at(containers[i], "ready"@))
}

/// The phase of a pod.
pub open spec fn phase(pod: JsonV) -> Seq<char> {
    text_or(at(at(pod, "status"@), "phase"@), "Unknown"@)
}

/// Whether a pod is ready: all its containers are, or it ran to its end.
pub open spec fn pod_ready(pod: JsonV) -> bool {
    (match as_list(container_statuses(pod)) {
        Some(c) => all_ready(c),
        None => false,
    }) || phase(pod) == "Succeeded"@
}

/// The number of ready pods.
pub open spec fn ready_count(pods: Seq<JsonV>) -> nat
    decreases pods.len(),
{
    if pods.len() == 0 {
        0
    } else {
        ready_count(pods.drop_last()) + (if pod_ready(pods.last()) {
            1nat
        } else {
            0nat
        })
    }
}

/// Whether a pod failed.
pub open spec fn any_failed(pods: Seq<JsonV>) -> bool {
    exists|i: int| 0 <= i < pods.len() && phase(#[trigger] pods[i]) == "Failed"@
}

/// The runtime status that the pods give their resource.
pub open spec fn pods_runtime(pods: Seq<JsonV>, readiness_ignored: bool) -> Seq<char> {
    if pods.len() == 0 {
        "pending"@
    } else if any_failed(pods) {
        "error"@
    } else if readiness_ignored || ready_count(pods) == pods.len() {
        "ok"@
    } else {
        "pending"@
    }
}

/// Whether the restarts can be added up in 64 bits, one container after the other.
pub open spec fn sums_fit(containers: Seq<JsonV>) -> bool {
    forall|k: int|
        0 <= k <= containers.len() ==> i64::MIN <= #[trigger] restart_sum(containers.take(k))
            <= i64::MAX
}

/// Whether the restarts of all pods can be added up in 64 bits, one pod after the
/// other.
pub open spec fn pods_fit(pods: Seq<JsonV>) -> bool {
    &&& forall|k: int|
        0 <= k <= pods.len() ==> i64::MIN <= #[trigger] pods_restarts(pods.take(k)) <= i64::MAX
    &&& forall|k: int|
        0 <= k < pods.len() ==> sums_fit(items(container_statuses(#[trigger] pods[k])))
}

/// The number of restarts of the containers, where it can be added up in 64 bits.
fn checked_restart_sum(containers: &Vec<Json>) -> (r: Option<i64>)
    ensures
        match r {
            Some(n) => sums_fit(list_view(containers@)) && n == restart_sum(
                list_view(containers@),
            ),
            None => !sums_fit(list_view(containers@)),
        },
{
    let ghost all = list_view(containers@);
    proof {
        list_view_items(containers@);
        assert(all.take(0).len() == 0);
    }
    let mut sum: i64 = 0;
    let mut i: usize = 0;
    while i < containers.len()
        invariant
            i <= containers@.len(),
            all == list_view(containers@),
            all.len() == containers@.len(),
            forall|j: int| 0 <= j < containers@.len() ==> (#[trigger] all[j]) == containers@[j]@,
            sum == restart_sum(all.take(i as int)),
            forall|k: int|
                0 <= k <= i ==> i64::MIN <= #[trigger] restart_sum(all.take(k)) <= i64::MAX,
        decreases containers@.len() - i,
    {
        let n: i64 = containers[i].at("restartCount").signed_or_zero();
        proof {
            assert(all.take(i + 1).drop_last() =~= all.take(i as int));
            assert(all.take(i + 1).last() == all[i as int]);
            assert(restart_sum(all.take(i + 1)) == sum + n);
        }
        if (n > 0 && sum > i64::MAX - n) || (n < 0 && sum < i64::MIN - n) {
            return None;
        }
        sum = sum + n;
        i += 1;
    }
    assert(all.take(i as int) =~= all);
    Some(sum)
}

/// Whether the restarts of all pods can be added up in 64 bits.
pub fn restarts_fit(pods: &Vec<Json>) -> (r: bool)
    ensures
        r == pods_fit(list_view(pods@)),
{
    let ghost all = list_view(pods@);
    proof {
        list_view_items(pods@);
        assert(all.take(0).len() == 0);
    }
    let mut sum: i64 = 0;
    let mut i: usize = 0;
    while i < pods.len()
        invariant
            i <= pods@.len(),
            all == list_view(pods@),
            all.len() == pods@.len(),
            forall|j: int| 0 <= j < pods@.len() ==> (#[trigger] all[j]) == pods@[j]@,
            sum == pods_restarts(all.take(i as int)),
            forall|k: int|
                0 <= k <= i ==> i64::MIN <= #[trigger] pods_restarts(all.take(k)) <= i64::MAX,
            forall|k: int|
                0 <= k < i ==> sums_fit(items(container_statuses(#[trigger] all[k]))),
        decreases pods@.len() - i,
    {
        proof {
            assert(all.take(i + 1).drop_last() =~= all.take(i as int));
            assert(all.take(i + 1).last() == all[i as int]);
        }
        let n: i64 = match pods[i].at("status").at("containerStatuses").as_list() {
            Some(c) => match checked_restart_sum(c) {
                Some(n) => n,
                None => {
                    assert(!sums_fit(items(container_statuses(all[i as int]))));
                    return false;
                },
            },
            None => 0,
        };
        assert(n == restart_sum(items(container_statuses(all[i as int]))));
        assert(sums_fit(items(container_statuses(all[i as int])))) by {
            let c = items(container_statuses(all[i as int]));
            if c.len() == 0 {
                assert forall|k: int| 0 <= k <= c.len() implies i64::MIN <= #[trigger] restart_sum(
                    c.take(k),
                ) <= i64::MAX by {
                    assert(c.take(k).len() == 0);
                }
            }
        }
        if (n > 0 && sum > i64::MAX - n) || (n < 0 && sum < i64::MIN - n) {
            assert(!(i64::MIN <= pods_restarts(all.take(i + 1)) <= i64::MAX));
            return false;
        }
        sum = sum + n;
        i += 1;
    }
    true
}

/// Whether all containers are ready.
fn containers_ready(containers: &Vec<Json>) -> (r: bool)
    ensures
        r == all_ready(list_view(containers@)),
{
    let ghost all = list_view(containers@);
    proof {
        list_view_items(containers@);
    }
    let mut i: usize = 0;
    while i < containers.len()
        invariant
            i <= containers@.len(),
            all == list_view(containers@),
            all.len() == containers@.len(),
            forall|j: int| 0 <= j < containers@.len() ==> (#[trigger] all[j]) == containers@[j]@,
            forall|j: int| 0 <= j < i ==> truth(#[trigger] at(all[j], "ready"@)),
        decreases containers@.len() - i,
    {
        assert(all[i as int] == containers@[i as int]@);
        if !containers[i].at("ready").is_true() {
            assert(!truth(at(all[i as int], "ready"@)));
            return false;
        }
        i += 1;
    }
    true
}

/// The state of all pods of a resource: how many are ready, how often containers
/// were restarted, and the runtime status that follows.
pub fn aggregate_pod_status(pods: &Vec<Json>, readiness_ignored: bool) -> (r: PodSummary)
    requires
        pods_fit(list_view(pods@)),
    ensures
        r.total == pods@.len(),
        r.ready == ready_count(list_view(pods@)),
        r.restarts == pods_restarts(list_view(pods@)),
        r.runtime@ == pods_runtime(list_view(pods@), readiness_ignored),
{
    let ghost all = list_view(pods@);
    proof {
        list_view_items(pods@);
        assert(all.take(0).len() == 0);
    }
    let mut ready: usize = 0;
    let mut restarts: i64 = 0;
    let mut failed = false;
    let mut i: usize = 0;
    while i < pods.len()
        invariant
            i <= pods@.len(),
            pods_fit(all),
            all == list_view(pods@),
            all.len() == pods@.len(),
            forall|j: int| 0 <= j < pods@.len() ==> (#[trigger] all[j]) == pods@[j]@,
            ready == ready_count(all.take(i as int)),
            ready <= i,
            restarts == pods_restarts(all.take(i as int)),
            failed == exists|j: int| 0 <= j < i && phase(#[trigger] all[j]) == "Failed"@,
        decreases pods@.len() - i,
    {
        proof {
            assert(all.take(i + 1).drop_last() =~= all.take(i as int));
            assert(all.take(i + 1).last() == all[i as int]);
            assert(i64::MIN <= pods_restarts(all.take(i + 1)) <= i64::MAX);
            assert(sums_fit(items(container_statuses(all[i as int]))));
        }
        let pod = &pods[i];
        let status = pod.at("status");
        let phase_text = status.at("phase").str_or("Unknown");
        let mut all_up = false;
        if let Some(c) = status.at("containerStatuses").as_list() {
            all_up = containers_ready(c);
            match checked_restart_sum(c) {
                Some(n) => {
                    restarts = restarts + n;
                },
                None => {
                    assert(false);
                },
            }
        }
        if all_up || same(phase_text, "Succeeded") {
            ready += 1;
        }
        if same(phase_text, "Failed") {
            assert(phase(all[i as int]) == "Failed"@);
            failed = true;
        }
        i += 1;
    }
    assert(all.take(i as int) =~= all);
    let runtime = if pods.len() == 0 {
        "pending"
    } else if failed {
        "error"
    } else if readiness_ignored || ready == pods.len() {
        "ok"
    } else {
        "pending"
    };
    PodSummary { total: pods.len(), ready, restarts, runtime }
}

impl PodSummary {
    /// Whether there are pods and all of them are ready.
    pub fn all_ready(&self) -> (r: bool)
        ensures
            r == (self.total > 0 && self.ready == self.total),
    {
        self.total > 0 && self.ready == self.total
    }

    /// What the dashboard shows: a phase for a single pod, else how many are ready.
    pub fn status_label(&self) -> (r: String)
        ensures
            r@ == (if self.total == 1 && self.ready == 1 {
                "Running"@
            } else if self.total == 1 {
                "Pending"@
            } else {
                dec(self.ready as nat) + "/"@ + dec(self.total as nat) + " ready"@
            }),
    {
        if self.total == 1 && self.ready == 1 {
            owned("Running")
        } else if self.total == 1 {
            owned("Pending")
        } else {
            let mut r = cat3(
                decimal(self.ready as u64).as_str(),
                "/",
                decimal(self.total as u64).as_str(),
            );
            r.append(" ready");
            r
        }
    }
}

/// No more pods are ready than there are.
pub proof fn ready_at_most_all(pods: Seq<JsonV>)
    ensures
        ready_count(pods) <= pods.len(),
    decreases pods.len(),
{
    if pods.len() > 0 {
        ready_at_most_all(pods.drop_last());
    }
}

/// A resource is `ok` where all of its pods are ready and none failed, and `error`
/// as soon as one failed, whatever the others are.
pub proof fn runtime_of_pods(pods: Seq<JsonV>)
    requires
        pods.len() > 0,
    ensures
        any_failed(pods) ==> pods_runtime(pods, false) == "error"@ && pods_runtime(pods, true)
            == "error"@,
        !any_failed(pods) ==> pods_runtime(pods, true) == "ok"@,
        !any_failed(pods) && ready_count(pods) == pods.len() ==> pods_runtime(pods, false)
            == "ok"@,
{
}

/// An integer as a JSON value.
fn int_json(n: i64) -> (r: Json)
    ensures
        r@ == JsonV::Int(n as int),
{
    if n >= 0 {
        Json::Pos(n as u64)
    } else {
        Json::Neg(n)
    }
}

/// What is recorded of a container.
pub open spec fn container_record(c: JsonV) -> JsonV {
    with_key(
        with_key(
            with_key(
                one("name"@, txt(text_or(at(c, "name"@), Seq::empty()))),
                "ready"@,
                JsonV::Bool(truth(at(c, "ready"@))),
            ),
            "image"@,
            txt(text_or(at(c, "image"@), Seq::empty())),
        ),
        "restartCount"@,
        JsonV::Int(signed_or_zero(at(c, "restartCount"@))),
    )
}

/// What is recorded of a pod.
pub open spec fn pod_record_value(pod: JsonV) -> JsonV {
    let c = items(container_statuses(pod));
    let meta = at(pod, "metadata"@);
    with_key(
        with_key(
            with_key(
                with_key(
                    with_key(
                        with_key(
                            one("name"@, txt(text_or(at(meta, "name"@), Seq::empty()))),
                            "namespace"@,
                            txt(text_or(at(meta, "namespace"@), "default"@)),
                        ),
                        "phase"@,
                        txt(phase(pod)),
                    ),
                    "ready"@,
                    JsonV::Bool((c.len() > 0 && all_ready(c)) || phase(pod) == "Succeeded"@),
                ),
                "podID"@,
                txt(text_or(at(meta, "uid"@), Seq::empty())),
            ),
            "restartCount"@,
            JsonV::Int(restart_sum(c)),
        ),
        "containers"@,
        JsonV::List(c.map_values(|x: JsonV| container_record(x))),
    )
}

fn empty_or<'a>(v: &'a Json) -> (r: &'a str)
    ensures
        r@ == text_or(v@, Seq::empty()),
{
    proof {
        reveal_strlit("");
        assert(""@ =~= Seq::empty());
    }
    v.str_or("")
}

fn container_json(c: &Json) -> (r: Json)
    ensures
        r@ == container_record(c@),
{
    Json::table().with("name", Json::text(empty_or(c.at("name")))).with(
        "ready",
        Json::Bool(c.at("ready").is_true()),
    ).with("image", Json::text(empty_or(c.at("image")))).with(
        "restartCount",
        int_json(c.at("restartCount").signed_or_zero()),
    )
}

/// What is recorded of a pod: its identity, phase, readiness, restarts and
/// containers.
pub fn pod_record(pod: &Json) -> (r: Json)
    requires
        sums_fit(items(container_statuses(pod@))),
    ensures
        r@ == pod_record_value(pod@),
{
    let status = pod.at("status");
    let meta = pod.at("metadata");
    let phase_text = status.at("phase").str_or("Unknown");
    let mut containers: Vec<Json> = Vec::new();
    let mut up = false;
    let mut restarts: i64 = 0;
    let ghost c = items(container_statuses(pod@));
    let ghost all = c.map_values(|x: JsonV| container_record(x));
    assert(list_view(containers@) =~= all.take(0));
    match status.at("containerStatuses").as_list() {
        Some(v) => {
            proof {
                list_view_items(v@);
            }
            up = v.len() > 0 && containers_ready(v);
            match checked_restart_sum(v) {
                Some(n) => {
                    restarts = n;
                },
                None => {
                    assert(false);
                },
            }
            let mut i: usize = 0;
            while i < v.len()
                invariant
                    i <= v@.len(),
                    c == list_view(v@),
                    c.len() == v@.len(),
                    forall|j: int| 0 <= j < v@.len() ==> (#[trigger] c[j]) == v@[j]@,
                    all == c.map_values(|x: JsonV| container_record(x)),
                    list_view(containers@) == all.take(i as int),
                decreases v@.len() - i,
            {
                let item = container_json(&v[i]);
                proof {
                    list_view_push(containers@, item);
                    assert(c[i as int] == v@[i as int]@);
                    assert(all.take(i + 1) =~= all.take(i as int).push(item@));
                }
                containers.push(item);
                i += 1;
            }
            assert(all.take(i as int) =~= all);
        },
        None => {
            assert(all =~= all.take(0));
        },
    }
    Json::table().with("name", Json::text(empty_or(meta.at("name")))).with(
        "namespace",
        Json::text(meta.at("namespace").str_or("default")),
    ).with("phase", Json::text(phase_text)).with(
        "ready",
        Json::Bool(up || same(phase_text, "Succeeded")),
    ).with("podID", Json::text(empty_or(meta.at("uid")))).with("restartCount", int_json(restarts)).with(
        "containers",
        Json::List(containers),
    )
}

/// Labels as the text of a selector.
pub open spec fn label_texts(e: Seq<(Seq<char>, JsonV)>) -> Seq<Seq<char>> {
    e.map_values(|x: (Seq<char>, JsonV)| x.0 + "="@ + text_or(x.1, Seq::empty()))
}

/// The text of a selector by labels; empty where there are none.
pub open spec fn selector_text(labels: JsonV) -> Seq<char> {
    match labels {
        JsonV::Table(e) => join(label_texts(e), ","@),
        _ => Seq::empty(),
    }
}

/// The text of a selector by labels.
pub fn selector_of_labels(labels: &Json) -> (r: String)
    ensures
        r@ == selector_text(labels@),
{
    broadcast use texts_push;

    match labels {
        Json::Table(e) => {
            let ghost ev = entries_view(e@);
            let ghost all = label_texts(ev);
            proof {
                entries_view_items(e@);
            }
            let mut parts: Vec<String> = Vec::new();
            let mut i: usize = 0;
            assert(texts(parts@) =~= all.take(0));
            while i < e.len()
                invariant
                    i <= e@.len(),
                    ev == entries_view(e@),
                    ev.len() == e@.len(),
                    all == label_texts(ev),
                    forall|j: int|
                        0 <= j < e@.len() ==> (#[trigger] ev[j]) == (e@[j].0@, e@[j].1@),
                    texts(parts@) == all.take(i as int),
                decreases e@.len() - i,
            {
                let part = cat3(e[i].0.as_str(), "=", empty_or(&e[i].1));
                proof {
                    assert(ev[i as int] == (e@[i as int].0@, e@[i as int].1@));
                    assert(all.take(i + 1) =~= all.take(i as int).push(part@));
                }
                parts.push(part);
                i += 1;
            }
            assert(all.take(i as int) =~= all);
            joined(&parts, ",")
        },
        _ => String::new(),
    }
}

/// The selector of a `PodLogStream`, `PortForward` or `LiveUpdate` object.
pub open spec fn own_selector(object: JsonV) -> Seq<char> {
    selector_text(at(at(at(object, "spec"@), "selector"@), "matchLabels"@))
}

/// The selector of a `PodLogStream`, `PortForward` or `LiveUpdate` object.
pub fn pod_log_selector(object: &Json) -> (r: String)
    ensures
        r@ == own_selector(object@),
{
    selector_of_labels(object.at("spec").at("selector").at("matchLabels"))
}

/// The first item of a list, null where there is none.
pub open spec fn first_item(v: JsonV) -> JsonV {
    match v {
        JsonV::List(s) => if s.len() > 0 {
            s[0]
        } else {
            JsonV::Null
        },
        _ => JsonV::Null,
    }
}

fn first_of<'a>(v: &'a Json) -> (r: &'a Json)
    ensures
        r@ == first_item(v@),
{
    match v {
        Json::List(s) => {
            proof {
                list_view_items(s@);
            }
            if s.len() > 0 {
                assert(list_view(s@)[0] == s@[0]@);
                &s[0]
            } else {
                &Json::Null
            }
        },
        _ => &Json::Null,
    }
}

/// The selector of a `KubernetesDiscovery` object: its first one.
pub open spec fn discovery_selector_text(object: JsonV) -> Seq<char> {
    selector_text(at(first_item(at(at(object, "spec"@), "selectors"@)), "matchLabels"@))
}

/// The selector of a `KubernetesDiscovery` object.
pub fn discovery_selector(object: &Json) -> (r: String)
    ensures
        r@ == discovery_selector_text(object@),
{
    selector_of_labels(first_of(object.at("spec").at("selectors")).at("matchLabels"))
}

/// The name of a pod; empty where it has none.
pub open spec fn pod_name(pod: JsonV) -> Seq<char> {
    text_or(at(at(pod, "metadata"@), "name"@), Seq::empty())
}

/// The name of a pod.
pub fn name_of_pod(pod: &Json) -> (r: &str)
    ensures
        r@ == pod_name(pod@),
{
    empty_or(pod.at("metadata").at("name"))
}

/// The name of the first pod; empty where there is none.
pub open spec fn first_pod(pods: Seq<JsonV>) -> Seq<char> {
    if pods.len() > 0 {
        pod_name(pods[0])
    } else {
        Seq::empty()
    }
}

/// The name of the first pod.
pub fn first_pod_name(pods: &Vec<Json>) -> (r: String)
    ensures
        r@ == first_pod(list_view(pods@)),
{
    proof {
        list_view_items(pods@);
    }
    if pods.len() > 0 {
        assert(list_view(pods@)[0] == pods@[0]@);
        owned(name_of_pod(&pods[0]))
    } else {
        String::new()
    }
}

/// A port forward as read from an entry of a `PortForward` object. Port numbers are
/// taken modulo the number of ports.
pub open spec fn forward_of(f: JsonV) -> (Seq<char>, u16, u16, Seq<char>, Seq<char>) {
    (
        text_or(at(f, "host"@), "127.0.0.1"@),
        (unsigned_or_zero(at(f, "localPort"@)) % 65536) as u16,
        (unsigned_or_zero(at(f, "containerPort"@)) % 65536) as u16,
        text_or(at(f, "name"@), Seq::empty()),
        text_or(at(f, "path"@), Seq::empty()),
    )
}

/// The contents of a list of port forwards.
pub open spec fn forwards_view(v: Seq<PortForwardSpec>) -> Seq<
    (Seq<char>, u16, u16, Seq<char>, Seq<char>),
> {
    v.map_values(
        |p: PortForwardSpec| (p.host@, p.local_port, p.container_port, p.name@, p.link_path@),
    )
}

fn port_number(n: u64) -> (r: u16)
    ensures
        r == n % 65536,
{
    (n % 65536) as u16
}

/// The port forwards of a `PortForward` object.
pub fn port_forward_specs_from_object(obj: &Json) -> (r: Vec<PortForwardSpec>)
    ensures
        forwards_view(r@) == items(at(at(obj@, "spec"@), "forwards"@)).map_values(
            |f: JsonV| forward_of(f),
        ),
{
    let ghost fs = items(at(at(obj@, "spec"@), "forwards"@));
    let ghost all = fs.map_values(|f: JsonV| forward_of(f));
    let mut r: Vec<PortForwardSpec> = Vec::new();
    assert(forwards_view(r@) =~= all.take(0));
    match obj.at("spec").at("forwards").as_list() {
        Some(v) => {
            proof {
                list_view_items(v@);
            }
            let mut i: usize = 0;
            while i < v.len()
                invariant
                    i <= v@.len(),
                    fs == list_view(v@),
                    fs.len() == v@.len(),
                    forall|j: int| 0 <= j < v@.len() ==> (#[trigger] fs[j]) == v@[j]@,
                    all == fs.map_values(|f: JsonV| forward_of(f)),
                    forwards_view(r@) == all.take(i as int),
                decreases v@.len() - i,
            {
                let f = &v[i];
                let spec = PortForwardSpec {
                    host: owned(f.at("host").str_or("127.0.0.1")),
                    local_port: port_number(f.at("localPort").unsigned_or_zero()),
                    container_port: port_number(f.at("containerPort").unsigned_or_zero()),
                    name: owned(empty_or(f.at("name"))),
                    link_path: owned(empty_or(f.at("path"))),
                };
                let ghost before = r@;
                r.push(spec);
                proof {
                    assert(fs[i as int] == v@[i as int]@);
                    assert(forwards_view(r@) =~= forwards_view(before).push(
                        (
                            spec.host@,
                            spec.local_port,
                            spec.container_port,
                            spec.name@,
                            spec.link_path@,
                        ),
                    ));
                    assert(all.take(i + 1) =~= all.take(i as int).push(forward_of(fs[i as int])));
                }
                i += 1;
            }
            assert(all.take(i as int) =~= all);
            r
        },
        None => {
            assert(all.take(0) =~= all);
            r
        },
    }
}

/// The controller forwards just the ports that a resource declares: the `PortForward`
/// object of a resource is read as it was written.
pub proof fn forwards_round_trip(m: Manifest)
    ensures
        items(at(at(port_forward(m), "spec"@), "forwards"@)).map_values(|f: JsonV| forward_of(f))
            == forwards_view(m.k8s_port_forwards@),
{
    let fs = m.k8s_port_forwards@;
    let list = JsonV::List(fs.map_values(|p: PortForwardSpec| forward_entry(p)));
    let a = one("forwards"@, list);
    reveal_strlit("forwards");
    reveal_strlit("selector");
    assert("forwards"@[0] != "selector"@[0]);
    lookup_put(Seq::empty(), "forwards"@, list, "forwards"@);
    lookup_put(a->Table_0, "selector"@, selector(m), "forwards"@);
    lookup_put(Seq::empty(), "spec"@, with_key(a, "selector"@, selector(m)), "spec"@);
    assert forall|i: int| 0 <= i < fs.len() implies forward_of(#[trigger] forward_entry(fs[i])) == (
        fs[i].host@,
        fs[i].local_port,
        fs[i].container_port,
        fs[i].name@,
        fs[i].link_path@,
    ) by {
        forward_read(fs[i]);
    }
    assert(items(list).map_values(|f: JsonV| forward_of(f)) =~= forwards_view(fs));
}

/// An entry of a `PortForward` object is read as it was written.
proof fn forward_read(p: PortForwardSpec)
    ensures
        forward_of(forward_entry(p)) == (
            p.host@,
            p.local_port,
            p.container_port,
            p.name@,
            p.link_path@,
        ),
{
    let local = JsonV::Int(p.local_port as int);
    let remote = JsonV::Int(p.container_port as int);
    reveal_strlit("localPort");
    reveal_strlit("containerPort");
    reveal_strlit("host");
    reveal_strlit("path");
    reveal_strlit("name");
    assert("localPort"@[0] == 'l' && "containerPort"@[0] == 'c' && "host"@[0] == 'h' && "path"@[0]
        == 'p' && "name"@[0] == 'n');
    let a = one("localPort"@, local);
    let b = with_key(a, "containerPort"@, remote);
    let c = with_key(b, "host"@, txt(p.host@));
    let d = with_key(c, "path"@, txt(p.link_path@));
    assert forall|k: Seq<char>| #[trigger] at(forward_entry(p), k) == if k == "name"@ {
        txt(p.name@)
    } else {
        at(d, k)
    } by {
        lookup_put(d->Table_0, "name"@, txt(p.name@), k);
    }
    assert forall|k: Seq<char>| #[trigger] at(d, k) == if k == "path"@ {
        txt(p.link_path@)
    } else {
        at(c, k)
    } by {
        lookup_put(c->Table_0, "path"@, txt(p.link_path@), k);
    }
    assert forall|k: Seq<char>| #[trigger] at(c, k) == if k == "host"@ {
        txt(p.host@)
    } else {
        at(b, k)
    } by {
        lookup_put(b->Table_0, "host"@, txt(p.host@), k);
    }
    assert forall|k: Seq<char>| #[trigger] at(b, k) == if k == "containerPort"@ {
        remote
    } else {
        at(a, k)
    } by {
        lookup_put(a->Table_0, "containerPort"@, remote, k);
    }
    lookup_put(Seq::empty(), "localPort"@, local, "localPort"@);
}

/// The arguments of `kubectl` for a port forward.
pub fn port_forward_args(pod: &str, spec: &PortForwardSpec) -> (r: Vec<String>)
    ensures
        texts(r@) == seq![
            "port-forward"@,
            "pod/"@ + pod@,
            dec(spec.local_port as nat) + ":"@ + dec(spec.container_port as nat),
            "--address"@,
            spec.host@,
        ],
{
    let r: Vec<String> = vec![
        owned("port-forward"),
        cat("pod/", pod),
        cat3(
            decimal(spec.local_port as u64).as_str(),
            ":",
            decimal(spec.container_port as u64).as_str(),
        ),
        owned("--address"),
        spec.host.clone(),
    ];
    assert(texts(r@) =~= seq![
        "port-forward"@,
        "pod/"@ + pod@,
        dec(spec.local_port as nat) + ":"@ + dec(spec.container_port as nat),
        "--address"@,
        spec.host@,
    ]);
    r
}

/// The names of those pods, in order, that are synced now: the named ones that were
/// not synced before.
pub open spec fn new_pods(pods: Seq<JsonV>, synced: Seq<Seq<char>>) -> Seq<Seq<char>>
    decreases pods.len(),
{
    if pods.len() == 0 {
        Seq::empty()
    } else {
        let rest = new_pods(pods.drop_last(), synced);
        let n = pod_name(pods.last());
        if n.len() == 0 || synced.contains(n) || rest.contains(n) {
            rest
        } else {
            rest.push(n)
        }
    }
}

/// Which pods are synced now, and which pod ports are forwarded to from now on, as
/// pods come and go.
#[derive(Debug)]
pub struct PodWatch {
    /// The pods that were synced at their start.
    pub synced: Vec<String>,
    /// The pod that ports are forwarded to.
    pub forward_pod: Option<String>,
}

impl PodWatch {
    /// A watch that has seen no pods.
    pub fn new() -> (r: PodWatch)
        ensures
            r.synced@.len() == 0,
            r.forward_pod is None,
    {
        PodWatch { synced: Vec::new(), forward_pod: None }
    }

    /// Takes the pods that are there: returns those that are synced now, each pod
    /// once in its life.
    pub fn pods_to_sync(&mut self, pods: &Vec<Json>) -> (r: Vec<String>)
        ensures
            texts(r@) == new_pods(list_view(pods@), texts(old(self).synced@)),
            texts(final(self).synced@) == texts(old(self).synced@) + texts(r@),
            final(self).forward_pod == old(self).forward_pod,
    {
        broadcast use texts_push;

        let ghost all = list_view(pods@);
        proof {
            list_view_items(pods@);
        }
        let mut r: Vec<String> = Vec::new();
        let mut i: usize = 0;
        let ghost done = texts(self.synced@);
        assert(texts(r@) =~= new_pods(all.take(0), done));
        while i < pods.len()
            invariant
                i <= pods@.len(),
                all == list_view(pods@),
                all.len() == pods@.len(),
                forall|j: int| 0 <= j < pods@.len() ==> (#[trigger] all[j]) == pods@[j]@,
                done == texts(self.synced@),
                *self == *old(self),
                texts(r@) == new_pods(all.take(i as int), done),
            decreases pods@.len() - i,
        {
            proof {
                assert(all.take(i + 1).drop_last() =~= all.take(i as int));
                assert(all.take(i + 1).last() == all[i as int]);
            }
            let name = name_of_pod(&pods[i]);
            if !name.is_empty() && !among(name, &self.synced) && !among(name, &r) {
                r.push(owned(name));
            }
            i += 1;
        }
        assert(all.take(i as int) =~= all);
        let ghost before = self.synced@;
        crate::engine::live_update::append_texts(&mut self.synced, &r);
        assert(texts(self.synced@) =~= texts(before) + texts(r@));
        r
    }

    /// Takes the pods that are there: returns the first pod where ports are to be
    /// forwarded to it anew.
    pub fn forward_target(&mut self, pods: &Vec<Json>) -> (r: Option<String>)
        ensures
            final(self).synced == old(self).synced,
            ({
                let pod = first_pod(list_view(pods@));
                if pod.len() == 0 || (old(self).forward_pod is Some
                    && old(self).forward_pod->0@ == pod) {
                    r is None && final(self).forward_pod == old(self).forward_pod
                } else {
                    r is Some && r->0@ == pod && final(self).forward_pod is Some
                        && final(self).forward_pod->0@ == pod
                }
            }),
    {
        let pod = first_pod_name(pods);
        if pod.as_str().is_empty() {
            return None;
        }
        let current = match &self.forward_pod {
            Some(p) => same(p.as_str(), pod.as_str()),
            None => false,
        };
        if current {
            return None;
        }
        self.forward_pod = Some(pod.clone());
        Some(pod)
    }
}

/// Each pod is synced once in its life: pods that are synced now were not synced
/// before, and none of them is named twice.
pub proof fn synced_once(pods: Seq<JsonV>, done: Seq<Seq<char>>)
    ensures
        forall|i: int|
            0 <= i < new_pods(pods, done).len() ==> !done.contains(
                #[trigger] new_pods(pods, done)[i],
            ),
        new_pods(pods, done).no_duplicates(),
    decreases pods.len(),
{
    if pods.len() > 0 {
        let d = pods.drop_last();
        let q = new_pods(d, done);
        let r = new_pods(pods, done);
        synced_once(d, done);
        assert forall|i: int| 0 <= i < r.len() implies !done.contains(#[trigger] r[i]) by {
            if i < q.len() {
                assert(r[i] == q[i]);
            }
        }
        assert forall|i: int, j: int| 0 <= i < j < r.len() implies r[i] != r[j] by {
            assert(r[i] == q[i]);
            if j < q.len() {
                assert(r[j] == q[j]);
            } else {
                assert(q.contains(q[i]));
            }
        }
    }
}

/// Whether the details of a Kubernetes resource are those of its pods.
pub open spec fn pods_shown(
    k: UIResourceKubernetes,
    name: Seq<char>,
    pod: Seq<char>,
    summary: PodSummary,
) -> bool {
    &&& says(k.pod_name, pod)
    &&& k.pod_creation_time is None
    &&& k.pod_update_start_time is None
    &&& says(
        k.pod_status,
        if summary.total == 1 && summary.ready == 1 {
            "Running"@
        } else if summary.total == 1 {
            "Pending"@
        } else {
            dec(summary.ready as nat) + "/"@ + dec(summary.total as nat) + " ready"@
        },
    )
    &&& k.pod_status_message is None
    &&& k.all_containers_ready == Some(summary.total > 0 && summary.ready == summary.total)
    &&& k.pod_restarts == Some(summary.restarts as i32)
    &&& says(k.span_id, name + ":pod"@)
    &&& k.display_names@.len() == 0
}

/// The status of a Kubernetes resource with pods, of which the first is named.
pub fn mark_pods(st: &mut UIResourceStatus, name: &str, pod: &str, summary: &PodSummary)
    ensures
        *final(st) == (UIResourceStatus {
            runtime_status: final(st).runtime_status,
            k8s_resource_info: final(st).k8s_resource_info,
            ..*old(st)
        }),
        says(final(st).runtime_status, summary.runtime@),
        final(st).k8s_resource_info is Some,
        pods_shown(final(st).k8s_resource_info->0, name@, pod@, *summary),
{
    st.runtime_status = Some(owned(summary.runtime));
    st.k8s_resource_info = Some(
        UIResourceKubernetes {
            pod_name: Some(owned(pod)),
            pod_creation_time: None,
            pod_update_start_time: None,
            pod_status: Some(summary.status_label()),
            pod_status_message: None,
            all_containers_ready: Some(summary.all_ready()),
            pod_restarts: Some(
                #[verifier::truncate]
                (summary.restarts as i32),
            ),
            span_id: Some(cat(name, ":pod")),
            display_names: Vec::new(),
        },
    );
}

/// The arguments that list the pods of a selector.
pub fn list_pods_args(selector: &str) -> (r: Vec<String>)
    ensures
        texts(r@) == seq!["get"@, "pods"@, "-l"@, selector@, "-o"@, "json"@],
{
    let r: Vec<String> = vec![
        owned("get"),
        owned("pods"),
        owned("-l"),
        owned(selector),
        owned("-o"),
        owned("json"),
    ];
    assert(texts(r@) =~= seq!["get"@, "pods"@, "-l"@, selector@, "-o"@, "json"@]);
    r
}

/// The pods that `kubectl` listed, read from what it printed: the items of a JSON list,
/// none where there is no list.
pub fn pods_listed(stdout: &Vec<u8>) -> (r: Result<Vec<Json>, String>)
    ensures
        match json_read_bytes(stdout@) {
            Ok(j) => r is Ok && list_view(r->Ok_0@) == items(at(j, "items"@)),
            Err(e) => r is Err && r->Err_0@ == "parsing pods: "@ + e,
        },
{
    match parse_json_bytes(stdout) {
        Ok(j) => Ok(pods_in(&j)),
        Err(e) => Err(cat("parsing pods: ", e.as_str())),
    }
}

/// The pods in a list of the cluster; none where it holds no list.
fn pods_in(list: &Json) -> (r: Vec<Json>)
    ensures
        list_view(r@) == items(at(list@, "items"@)),
{
    match list.at("items").as_list() {
        Some(v) => clone_list(v),
        None => {
            let r: Vec<Json> = Vec::new();
            assert(list_view(r@) =~= Seq::empty());
            r
        },
    }
}

/// The arguments that follow the logs of a pod.
pub fn follow_logs_args(pod: &str) -> (r: Vec<String>)
    ensures
        texts(r@) == seq!["logs"@, "-f"@, "--all-containers"@, "--tail"@, "20"@, pod@],
{
    let r: Vec<String> = vec![
        owned("logs"),
        owned("-f"),
        owned("--all-containers"),
        owned("--tail"),
        owned("20"),
        owned(pod),
    ];
    assert(texts(r@) =~= seq!["logs"@, "-f"@, "--all-containers"@, "--tail"@, "20"@, pod@]);
    r
}

/// What is logged when a port of a pod is forwarded.
pub fn forward_started(resource: &str, pod: &str, spec: &PortForwardSpec) -> (r: LogLine)
    ensures
        r@ == log_v(
            resource@,
            Level::Info,
            "Starting port-forward "@ + spec.host@ + ":"@ + dec(spec.local_port as nat) + " -> "@
                + pod@ + ":"@ + dec(spec.container_port as nat) + "\n"@,
        ),
{
    let mut text = cat3("Starting port-forward ", spec.host.as_str(), ":");
    text.append(decimal(spec.local_port as u64).as_str());
    text.append(" -> ");
    text.append(pod);
    text.append(":");
    text.append(decimal(spec.container_port as u64).as_str());
    text.append("\n");
    line(resource, Level::Info, text)
}

} // verus!
