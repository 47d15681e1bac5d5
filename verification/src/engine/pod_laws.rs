//! What the state of pods gives their resource, whatever the pods are.

use vstd::prelude::*;
use vstd::string::*;

use crate::engine::pods::{
    new_pods, pod_record_value, pods_restarts, pods_runtime, ready_count, restart_sum,
    selector_text, synced_once,
};
use crate::json::{at, empty_table, JsonV};
use crate::json_laws::{empty_has_none, key_set, stays_table};
use crate::text::join;

verus! {

/// Whether a pod is in a phase.
pub open spec fn in_phase(pod: JsonV, phase: Seq<char>) -> bool {
    at(at(pod, "status"@), "phase"@) == JsonV::Text(phase)
}

/// Whether the cluster says of a container that it is ready.
pub open spec fn said_ready(container: JsonV) -> bool {
    at(container, "ready"@) == JsonV::Bool(true)
}

/// Whether a pod has a list of containers, all of which are ready.
pub open spec fn containers_up(pod: JsonV) -> bool {
    at(at(pod, "status"@), "containerStatuses"@) matches JsonV::List(c) && forall|i: int|
        0 <= i < c.len() ==> #[trigger] said_ready(c[i])
}

/// One more pod is one more ready pod where all its containers are ready or it ran to
/// its end, whatever its containers say then; else it is none.
pub proof fn one_more_ready(pods: Seq<JsonV>, pod: JsonV)
    ensures
        containers_up(pod) || in_phase(pod, "Succeeded"@) ==> ready_count(pods.push(pod))
            == ready_count(pods) + 1,
        !containers_up(pod) && !in_phase(pod, "Succeeded"@) ==> ready_count(pods.push(pod))
            == ready_count(pods),
        ready_count(Seq::empty()) == 0,
{
    let all = pods.push(pod);
    assert(all.drop_last() =~= pods);
    assert(all.last() == pod);
    reveal_strlit("Unknown");
    reveal_strlit("Succeeded");
    assert("Unknown"@.len() == 7 && "Succeeded"@.len() == 9);
    if let JsonV::List(c) = at(at(pod, "status"@), "containerStatuses"@) {
        assert forall|i: int| 0 <= i < c.len() implies said_ready(#[trigger] c[i]) == (match at(
            c[i],
            "ready"@,
        ) {
            JsonV::Bool(b) => b,
            _ => false,
        }) by {}
        if containers_up(pod) {
            assert forall|i: int| 0 <= i < c.len() implies #[trigger] at(c[i], "ready"@)
                == JsonV::Bool(true) by {
                assert(said_ready(c[i]));
            }
        } else {
            let i = choose|i: int| 0 <= i < c.len() && !#[trigger] said_ready(c[i]);
            assert(at(c[i], "ready"@) != JsonV::Bool(true));
        }
    }
}

/// Ready pods are counted one by one: in two lists together there are as many as in each.
pub proof fn ready_adds_up(a: Seq<JsonV>, b: Seq<JsonV>)
    ensures
        ready_count(a + b) == ready_count(a) + ready_count(b),
    decreases b.len(),
{
    if b.len() > 0 {
        assert((a + b).drop_last() =~= a + b.drop_last());
        assert((a + b).last() == b.last());
        ready_adds_up(a, b.drop_last());
    } else {
        assert(a + b =~= a);
    }
}

/// Pods that all ran to their end are all ready, and their resource is `ok`, whatever
/// their containers say.
pub proof fn succeeded_is_ready(pods: Seq<JsonV>, readiness_ignored: bool)
    requires
        forall|i: int| 0 <= i < pods.len() ==> in_phase(#[trigger] pods[i], "Succeeded"@),
    ensures
        ready_count(pods) == pods.len(),
        pods.len() > 0 ==> pods_runtime(pods, readiness_ignored) == "ok"@,
    decreases pods.len(),
{
    reveal_strlit("Succeeded");
    reveal_strlit("Failed");
    assert("Failed"@.len() == 6 && "Succeeded"@.len() == 9);
    if pods.len() > 0 {
        let d = pods.drop_last();
        assert forall|i: int| 0 <= i < d.len() implies in_phase(
            #[trigger] d[i],
            "Succeeded"@,
        ) by {
            assert(d[i] == pods[i]);
        }
        succeeded_is_ready(d, readiness_ignored);
        one_more_ready(d, pods.last());
        assert(pods =~= d.push(pods.last()));
        assert(in_phase(pods[pods.len() - 1], "Succeeded"@));
        assert forall|i: int| 0 <= i < pods.len() implies !in_phase(
            #[trigger] pods[i],
            "Failed"@,
        ) by {}
        runtime_told(pods, readiness_ignored);
    }
}

/// All pods are counted as ready just where each of them is.
pub proof fn all_counted(pods: Seq<JsonV>)
    ensures
        ready_count(pods) <= pods.len(),
        ready_count(pods) == pods.len() <==> forall|i: int|
            0 <= i < pods.len() ==> containers_up(#[trigger] pods[i]) || in_phase(
                pods[i],
                "Succeeded"@,
            ),
    decreases pods.len(),
{
    if pods.len() > 0 {
        let d = pods.drop_last();
        all_counted(d);
        assert(pods =~= d.push(pods.last()));
        one_more_ready(d, pods.last());
        assert(pods.last() == pods[pods.len() - 1]);
        if ready_count(pods) == pods.len() {
            assert forall|i: int| 0 <= i < pods.len() implies containers_up(#[trigger] pods[i])
                || in_phase(pods[i], "Succeeded"@) by {
                if i < d.len() {
                    assert(d[i] == pods[i]);
                }
            }
        } else if forall|i: int|
            0 <= i < pods.len() ==> containers_up(#[trigger] pods[i]) || in_phase(
                pods[i],
                "Succeeded"@,
            ) {
            assert forall|i: int| 0 <= i < d.len() implies containers_up(#[trigger] d[i])
                || in_phase(d[i], "Succeeded"@) by {
                assert(d[i] == pods[i]);
            }
        }
    }
}

/// A resource is in error just where one of its pods failed; else, where it has pods, it
/// is `ok` where each of them is ready or readiness is ignored, and pending where not;
/// without pods it is pending.
pub proof fn runtime_told(pods: Seq<JsonV>, readiness_ignored: bool)
    ensures
        pods_runtime(pods, readiness_ignored) == "error"@ <==> exists|i: int|
            0 <= i < pods.len() && in_phase(#[trigger] pods[i], "Failed"@),
        pods_runtime(pods, readiness_ignored) == "ok"@ <==> {
            &&& pods.len() > 0
            &&& forall|i: int| 0 <= i < pods.len() ==> !in_phase(#[trigger] pods[i], "Failed"@)
            &&& readiness_ignored || forall|i: int|
                0 <= i < pods.len() ==> containers_up(#[trigger] pods[i]) || in_phase(
                    pods[i],
                    "Succeeded"@,
                )
        },
        pods_runtime(pods, readiness_ignored) == "error"@ || pods_runtime(pods, readiness_ignored)
            == "ok"@ || pods_runtime(pods, readiness_ignored) == "pending"@,
{
    reveal_strlit("error");
    reveal_strlit("ok");
    reveal_strlit("pending");
    reveal_strlit("Unknown");
    reveal_strlit("Failed");
    all_counted(pods);
    assert("Unknown"@.len() == 7 && "Failed"@.len() == 6);
    assert("error"@.len() == 5 && "ok"@.len() == 2 && "pending"@.len() == 7);
    let failed = exists|i: int| 0 <= i < pods.len() && in_phase(#[trigger] pods[i], "Failed"@);
    assert(failed == crate::engine::pods::any_failed(pods)) by {
        assert forall|i: int| 0 <= i < pods.len() implies in_phase(#[trigger] pods[i], "Failed"@)
            == (crate::engine::pods::phase(pods[i]) == "Failed"@) by {}
    }
}

/// Restarts are counted over all containers of all pods.
pub proof fn restarts_add_up(a: Seq<JsonV>, b: Seq<JsonV>)
    ensures
        pods_restarts(a + b) == pods_restarts(a) + pods_restarts(b),
        restart_sum(a + b) == restart_sum(a) + restart_sum(b),
    decreases b.len(),
{
    if b.len() > 0 {
        assert((a + b).drop_last() =~= a + b.drop_last());
        assert((a + b).last() == b.last());
        restarts_add_up(a, b.drop_last());
    } else {
        assert(a + b =~= a);
    }
}

/// A pod of one container counts the restarts that the cluster says it had; a pod without
/// containers counts none.
pub proof fn restarts_told(pod: JsonV, container: JsonV, n: i64)
    requires
        at(container, "restartCount"@) == JsonV::Int(n as int),
    ensures
        at(at(pod, "status"@), "containerStatuses"@) == JsonV::List(seq![container])
            ==> pods_restarts(seq![pod]) == n,
        at(at(pod, "status"@), "containerStatuses"@) == JsonV::Null ==> pods_restarts(seq![pod])
            == 0,
        restart_sum(seq![container]) == n,
{
    assert(seq![pod].drop_last() =~= Seq::empty());
    assert(seq![container].drop_last() =~= Seq::empty());
    reveal_with_fuel(pods_restarts, 2);
    reveal_with_fuel(restart_sum, 2);
}

/// What is recorded of a pod is what the cluster says of it, each under its key.
pub proof fn pod_recorded(
    pod: JsonV,
    name: Seq<char>,
    namespace: Seq<char>,
    phase: Seq<char>,
    uid: Seq<char>,
)
    requires
        at(at(pod, "metadata"@), "name"@) == JsonV::Text(name),
        at(at(pod, "metadata"@), "uid"@) == JsonV::Text(uid),
        in_phase(pod, phase),
    ensures
        at(pod_record_value(pod), "name"@) == JsonV::Text(name),
        at(pod_record_value(pod), "podID"@) == JsonV::Text(uid),
        at(pod_record_value(pod), "phase"@) == JsonV::Text(phase),
        at(at(pod, "metadata"@), "namespace"@) == JsonV::Text(namespace) ==> at(
            pod_record_value(pod),
            "namespace"@,
        ) == JsonV::Text(namespace),
        at(at(pod, "metadata"@), "namespace"@) == JsonV::Null ==> at(
            pod_record_value(pod),
            "namespace"@,
        ) == JsonV::Text("default"@),
        phase == "Succeeded"@ ==> at(pod_record_value(pod), "ready"@) == JsonV::Bool(true),
        at(at(pod, "status"@), "containerStatuses"@) matches JsonV::List(c) ==> {
            &&& at(pod_record_value(pod), "restartCount"@) == JsonV::Int(
                pods_restarts(seq![pod]),
            )
            &&& phase != "Succeeded"@ ==> at(pod_record_value(pod), "ready"@) == JsonV::Bool(
                c.len() > 0 && containers_up(pod),
            )
        },
{
    broadcast use {key_set, stays_table, empty_has_none};

    reveal_strlit("name");
    reveal_strlit("namespace");
    reveal_strlit("phase");
    reveal_strlit("ready");
    reveal_strlit("podID");
    reveal_strlit("restartCount");
    reveal_strlit("containers");
    assert("phase"@[0] == 'p' && "phase"@[1] == 'h' && "ready"@[0] == 'r' && "podID"@[0] == 'p'
        && "podID"@[1] == 'o');
    assert(empty_table() is Table);
    if let JsonV::List(c) = at(at(pod, "status"@), "containerStatuses"@) {
        assert(seq![pod].drop_last() =~= Seq::empty());
        reveal_with_fuel(pods_restarts, 2);
        if containers_up(pod) {
            assert forall|i: int| 0 <= i < c.len() implies crate::json::truth(
                #[trigger] at(c[i], "ready"@),
            ) by {
                assert(said_ready(c[i]));
            }
        } else {
            let i = choose|i: int| 0 <= i < c.len() && !#[trigger] said_ready(c[i]);
            assert(!crate::json::truth(at(c[i], "ready"@)));
        }
    }
}

/// Every pod with a name that was not synced before is synced now, and nothing else is.
pub proof fn all_new_synced(pods: Seq<JsonV>, done: Seq<Seq<char>>, name: Seq<char>)
    ensures
        new_pods(pods, done).contains(name) <==> {
            &&& name.len() > 0
            &&& !done.contains(name)
            &&& exists|i: int|
                0 <= i < pods.len() && at(at(#[trigger] pods[i], "metadata"@), "name"@)
                    == JsonV::Text(name)
        },
    decreases pods.len(),
{
    if pods.len() > 0 {
        let d = pods.drop_last();
        let rest = new_pods(d, done);
        let n = crate::engine::pods::pod_name(pods.last());
        let all = new_pods(pods, done);
        all_new_synced(d, done, name);
        synced_once(pods, done);
        assert(pods.last() == pods[pods.len() - 1]);
        if all.contains(name) {
            if rest.contains(name) {
                let i = choose|i: int|
                    0 <= i < d.len() && at(at(#[trigger] d[i], "metadata"@), "name"@)
                        == JsonV::Text(name);
                assert(pods[i] == d[i]);
            } else {
                assert(all == rest.push(n));
                let j = choose|j: int| 0 <= j < all.len() && all[j] == name;
                if j < rest.len() {
                    assert(rest[j] == name);
                }
                assert(name == n);
            }
        }
        if name.len() > 0 && !done.contains(name) && exists|i: int|
            0 <= i < pods.len() && at(at(#[trigger] pods[i], "metadata"@), "name"@) == JsonV::Text(
                name,
            ) {
            let i = choose|i: int|
                0 <= i < pods.len() && at(at(#[trigger] pods[i], "metadata"@), "name"@)
                    == JsonV::Text(name);
            if i < d.len() {
                assert(d[i] == pods[i]);
                let j = choose|j: int| 0 <= j < rest.len() && rest[j] == name;
                assert(all[j] == name);
            } else {
                assert(n == name);
                if rest.contains(n) {
                    assert(all == rest);
                } else {
                    assert(all == rest.push(n));
                    assert(all[rest.len() as int] == n);
                }
            }
        }
    }
}

/// The selector of labels names each of them with its value, in order, with commas
/// between them.
pub proof fn selector_told(
    labels: Seq<(Seq<char>, JsonV)>,
    key: Seq<char>,
    value: Seq<char>,
)
    ensures
        selector_text(JsonV::Table(Seq::empty())) == Seq::<char>::empty(),
        selector_text(JsonV::Table(seq![(key, JsonV::Text(value))])) == key + "="@ + value,
        labels.len() > 0 ==> selector_text(JsonV::Table(labels.push((key, JsonV::Text(value)))))
            == selector_text(JsonV::Table(labels)) + ","@ + key + "="@ + value,
{
    let f = |x: (Seq<char>, JsonV)| x.0 + "="@ + crate::json::text_or(x.1, Seq::empty());
    let more = labels.push((key, JsonV::Text(value)));
    assert(crate::engine::pods::label_texts(more).drop_last()
        =~= crate::engine::pods::label_texts(labels));
    if labels.len() > 0 {
        let a = join(crate::engine::pods::label_texts(labels), ","@);
        assert(a + ","@ + (key + "="@ + value) =~= a + ","@ + key + "="@ + value);
    }
}

/// What is recorded of a container is what the cluster says of it, each under its key; all
/// containers of a pod are recorded, in order.
pub proof fn containers_recorded(
    pod: JsonV,
    containers: Seq<JsonV>,
    i: int,
    name: Seq<char>,
    image: Seq<char>,
    n: i64,
)
    requires
        at(at(pod, "status"@), "containerStatuses"@) == JsonV::List(containers),
        0 <= i < containers.len(),
        at(containers[i], "name"@) == JsonV::Text(name),
        at(containers[i], "image"@) == JsonV::Text(image),
        at(containers[i], "restartCount"@) == JsonV::Int(n as int),
    ensures
        at(pod_record_value(pod), "containers"@) matches JsonV::List(l) && l.len()
            == containers.len() && {
            &&& at(l[i], "name"@) == JsonV::Text(name)
            &&& at(l[i], "image"@) == JsonV::Text(image)
            &&& at(l[i], "ready"@) == JsonV::Bool(said_ready(containers[i]))
            &&& at(l[i], "restartCount"@) == JsonV::Int(n as int)
        },
{
    broadcast use {key_set, stays_table, empty_has_none};

    reveal_strlit("name");
    reveal_strlit("namespace");
    reveal_strlit("image");
    reveal_strlit("ready");
    reveal_strlit("restartCount");
    reveal_strlit("containers");
    assert(empty_table() is Table);
    assert("name"@.len() == 4 && "image"@.len() == 5 && "ready"@.len() == 5
        && "restartCount"@.len() == 12);
    assert("image"@[0] == 'i' && "ready"@[0] == 'r');
    let l = containers.map_values(|x: JsonV| crate::engine::pods::container_record(x));
    assert(at(pod_record_value(pod), "containers"@) == JsonV::List(l));
    assert(l[i] == crate::engine::pods::container_record(containers[i]));
}

/// The pod that ports are forwarded to and commands run in is the first one; without pods
/// there is none.
pub proof fn first_pod_told(pods: Seq<JsonV>, pod: JsonV, name: Seq<char>)
    requires
        at(at(pod, "metadata"@), "name"@) == JsonV::Text(name),
    ensures
        crate::engine::pods::first_pod(seq![pod] + pods) == name,
        crate::engine::pods::first_pod(Seq::empty()) == Seq::<char>::empty(),
{
    assert((seq![pod] + pods)[0] == pod);
}

} // verus!
