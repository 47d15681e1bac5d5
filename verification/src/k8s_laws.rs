//! What is read from Kubernetes documents, whatever they hold.

use vstd::prelude::*;
use vstd::string::*;

use crate::cluster::{group_and_version, target_of, to_apply};
use crate::json::{at, JsonV};
use crate::k8s::{
    api_group, at_path, entities_of, entity_of, field_texts, from_entry, gathered,
    gathered_entries, gathered_items, labels_at, labels_in, pair_put, selector_labels,
    sorted_unique_ok, workload_kind, Gather,
};
use crate::text_laws::{first_char, lacks, no_char};
use crate::trees::{untagged, yaml_get, yaml_str, YamlV};

verus! {

/// Whether one of the values has the text at the key.
pub open spec fn one_has(values: Seq<YamlV>, key: Seq<char>, text: Seq<char>) -> bool {
    exists|i: int|
        0 <= i < values.len() && #[trigger] yaml_get(values[i], key) is Some && yaml_str(
            yaml_get(values[i], key)->0,
        ) == Some(text)
}

/// The texts of a field are those that the values have.
proof fn fields_told(values: Seq<YamlV>, key: Seq<char>, text: Seq<char>)
    ensures
        field_texts(values, key).contains(text) <==> one_has(values, key, text),
    decreases values.len(),
{
    if values.len() > 0 {
        let d = values.drop_last();
        let rest = field_texts(d, key);
        let all = field_texts(values, key);
        fields_told(d, key, text);
        assert(values.last() == values[values.len() - 1]);
        if all.contains(text) {
            if rest.contains(text) {
                let i = choose|i: int|
                    0 <= i < d.len() && #[trigger] yaml_get(d[i], key) is Some && yaml_str(
                        yaml_get(d[i], key)->0,
                    ) == Some(text);
                assert(yaml_get(values[i], key) is Some);
            } else {
                let k = choose|k: int| 0 <= k < all.len() && all[k] == text;
                if k < rest.len() {
                    assert(rest[k] == text);
                }
                assert(yaml_get(values[values.len() - 1], key) is Some);
            }
        }
        if one_has(values, key, text) {
            let i = choose|i: int|
                0 <= i < values.len() && #[trigger] yaml_get(values[i], key) is Some && yaml_str(
                    yaml_get(values[i], key)->0,
                ) == Some(text);
            if i < d.len() {
                assert(yaml_get(d[i], key) is Some);
                let k = choose|k: int| 0 <= k < rest.len() && rest[k] == text;
                assert(all[k] == text);
            } else {
                assert(all[rest.len() as int] == text);
            }
        }
    }
}

/// Whether an entry lists containers, or variables, one of which has the text.
pub open spec fn entry_has(which: Gather, entry: (YamlV, YamlV), text: Seq<char>) -> bool {
    match which {
        Gather::Images => (yaml_str(entry.0) == Some("containers"@) || yaml_str(entry.0) == Some(
            "initContainers"@,
        )) && (entry.1 matches YamlV::List(v) && one_has(v, "image"@, text)),
        Gather::Env => yaml_str(entry.0) == Some("env"@) && (entry.1 matches YamlV::List(v)
            && one_has(v, "value"@, text)),
    }
}

proof fn entry_told(which: Gather, entry: (YamlV, YamlV), text: Seq<char>)
    ensures
        from_entry(which, entry.0, entry.1).contains(text) <==> entry_has(which, entry, text),
{
    if let YamlV::List(v) = entry.1 {
        fields_told(v, "image"@, text);
        fields_told(v, "value"@, text);
    }
}

proof fn parts_contain(a: Seq<Seq<char>>, b: Seq<Seq<char>>, x: Seq<char>)
    ensures
        (a + b).contains(x) <==> a.contains(x) || b.contains(x),
{
    if (a + b).contains(x) {
        let i = choose|i: int| 0 <= i < (a + b).len() && (a + b)[i] == x;
        if i < a.len() {
            assert(a[i] == x);
        } else {
            assert(b[i - a.len()] == x);
        }
    }
    if a.contains(x) {
        let i = choose|i: int| 0 <= i < a.len() && a[i] == x;
        assert((a + b)[i] == x);
    }
    if b.contains(x) {
        let i = choose|i: int| 0 <= i < b.len() && b[i] == x;
        assert((a + b)[a.len() + i] == x);
    }
}

/// Images and variables are found at any depth: what is gathered from a mapping is what its
/// own entries list and what is gathered from their values; what is gathered from a list is
/// what is gathered from its items.
pub proof fn gathered_anywhere(
    which: Gather,
    e: Seq<(YamlV, YamlV)>,
    s: Seq<YamlV>,
    text: Seq<char>,
)
    ensures
        gathered(which, YamlV::Table(e)).contains(text) <==> exists|i: int|
            0 <= i < e.len() && (entry_has(which, #[trigger] e[i], text) || gathered(
                which,
                e[i].1,
            ).contains(text)),
        gathered(which, YamlV::List(s)).contains(text) <==> exists|i: int|
            0 <= i < s.len() && gathered(which, #[trigger] s[i]).contains(text),
        gathered(which, YamlV::Text(text)) == Seq::<Seq<char>>::empty(),
{
    entries_told(which, e, text);
    items_told(which, s, text);
}

proof fn entries_told(which: Gather, e: Seq<(YamlV, YamlV)>, text: Seq<char>)
    ensures
        gathered_entries(which, e).contains(text) <==> exists|i: int|
            0 <= i < e.len() && (entry_has(which, #[trigger] e[i], text) || gathered(
                which,
                e[i].1,
            ).contains(text)),
    decreases e.len(),
{
    if e.len() > 0 {
        let d = e.drop_last();
        let last = e.last();
        entries_told(which, d, text);
        entry_told(which, last, text);
        parts_contain(gathered_entries(which, d), from_entry(which, last.0, last.1), text);
        parts_contain(
            gathered_entries(which, d) + from_entry(which, last.0, last.1),
            gathered(which, last.1),
            text,
        );
        assert(last == e[e.len() - 1]);
        if gathered_entries(which, d).contains(text) {
            let i = choose|i: int|
                0 <= i < d.len() && (entry_has(which, #[trigger] d[i], text) || gathered(
                    which,
                    d[i].1,
                ).contains(text));
            assert(e[i] == d[i]);
        }
        if exists|i: int|
            0 <= i < e.len() && (entry_has(which, #[trigger] e[i], text) || gathered(
                which,
                e[i].1,
            ).contains(text)) {
            let i = choose|i: int|
                0 <= i < e.len() && (entry_has(which, #[trigger] e[i], text) || gathered(
                    which,
                    e[i].1,
                ).contains(text));
            if i < d.len() {
                assert(d[i] == e[i]);
            }
        }
    }
}

proof fn items_told(which: Gather, s: Seq<YamlV>, text: Seq<char>)
    ensures
        gathered_items(which, s).contains(text) <==> exists|i: int|
            0 <= i < s.len() && gathered(which, #[trigger] s[i]).contains(text),
    decreases s.len(),
{
    if s.len() > 0 {
        let d = s.drop_last();
        items_told(which, d, text);
        parts_contain(gathered_items(which, d), gathered(which, s.last()), text);
        assert(s.last() == s[s.len() - 1]);
        if gathered_items(which, d).contains(text) {
            let i = choose|i: int|
                0 <= i < d.len() && gathered(which, #[trigger] d[i]).contains(text);
            assert(s[i] == d[i]);
        }
        if exists|i: int| 0 <= i < s.len() && gathered(which, #[trigger] s[i]).contains(text) {
            let i = choose|i: int|
                0 <= i < s.len() && gathered(which, #[trigger] s[i]).contains(text);
            if i < d.len() {
                assert(d[i] == s[i]);
            }
        }
    }
}

/// A document is an object just where it has a kind and a name; it is in the namespace that
/// it says, else in the default one, and lists each image and variable once.
pub proof fn entity_told(v: YamlV, raw: Seq<char>, text: Seq<char>)
    requires
        untagged(v) is Table,
    ensures
        entity_of(v, raw) is Some <==> {
            &&& named_at(v, seq!["kind"@])
            &&& named_at(v, seq!["metadata"@, "name"@])
        },
        entity_of(v, raw) matches Some(e) ==> {
            &&& at_is(v, seq!["kind"@], e.kind)
            &&& at_is(v, seq!["metadata"@, "name"@], e.name)
            &&& named_at(v, seq!["metadata"@, "namespace"@]) ==> at_is(
                v,
                seq!["metadata"@, "namespace"@],
                e.namespace,
            )
            &&& !named_at(v, seq!["metadata"@, "namespace"@]) ==> e.namespace == "default"@
            &&& named_at(v, seq!["apiVersion"@]) ==> at_is(v, seq!["apiVersion"@], e.api_version)
            &&& e.raw == raw
            &&& e.images.contains(text) <==> gathered(Gather::Images, v).contains(text)
            &&& e.env_values.contains(text) <==> gathered(Gather::Env, v).contains(text)
            &&& e.images.no_duplicates() && e.env_values.no_duplicates()
        },
{
    sorted_unique_ok(gathered(Gather::Images, v));
    sorted_unique_ok(gathered(Gather::Env, v));
    no_twice(crate::k8s::sorted_unique(gathered(Gather::Images, v)));
    no_twice(crate::k8s::sorted_unique(gathered(Gather::Env, v)));
}

proof fn no_twice(s: Seq<Seq<char>>)
    requires
        crate::k8s::increasing(s),
    ensures
        s.no_duplicates(),
{
    assert forall|i: int, j: int| 0 <= i < s.len() && 0 <= j < s.len() && i != j implies s[i]
        != s[j] by {
        if i < j {
            crate::text::text_lt_irreflexive(s[i]);
        } else {
            crate::text::text_lt_irreflexive(s[j]);
        }
    }
}

/// Whether there is a text at a path, and not an empty one.
pub open spec fn named_at(v: YamlV, path: Seq<Seq<char>>) -> bool {
    at_path(v, path) matches Some(x) && yaml_str(x) matches Some(s) && s.len() > 0
}

/// Whether the text at a path is the given one.
pub open spec fn at_is(v: YamlV, path: Seq<Seq<char>>, text: Seq<char>) -> bool {
    at_path(v, path) matches Some(x) && yaml_str(x) == Some(text)
}

/// A path leads key by key.
pub proof fn path_followed(v: YamlV, key: Seq<char>, path: Seq<Seq<char>>)
    ensures
        at_path(v, Seq::empty()) == Some(v),
        at_path(v, seq![key] + path) == (match yaml_get(v, key) {
            Some(next) => at_path(next, path),
            None => None,
        }),
{
    let all = seq![key] + path;
    assert(all[0] == key);
    assert(all.drop_first() =~= path);
}

/// The labels of a selector come from the selector itself; where it has none, from the
/// template of the pods, then from that of a job's pods, then from the object.
pub proof fn labels_by_precedence(v: YamlV)
    ensures
        labels_at(v, seq!["spec"@, "selector"@, "matchLabels"@]).len() > 0 ==> selector_labels(v)
            == labels_at(v, seq!["spec"@, "selector"@, "matchLabels"@]),
        labels_at(v, seq!["spec"@, "selector"@, "matchLabels"@]).len() == 0 && labels_at(
            v,
            seq!["spec"@, "template"@, "metadata"@, "labels"@],
        ).len() > 0 ==> selector_labels(v) == labels_at(
            v,
            seq!["spec"@, "template"@, "metadata"@, "labels"@],
        ),
        labels_at(v, seq!["spec"@, "selector"@, "matchLabels"@]).len() == 0 && labels_at(
            v,
            seq!["spec"@, "template"@, "metadata"@, "labels"@],
        ).len() == 0 && labels_at(
            v,
            seq!["spec"@, "jobTemplate"@, "spec"@, "template"@, "metadata"@, "labels"@],
        ).len() > 0 ==> selector_labels(v) == labels_at(
            v,
            seq!["spec"@, "jobTemplate"@, "spec"@, "template"@, "metadata"@, "labels"@],
        ),
        labels_at(v, seq!["spec"@, "selector"@, "matchLabels"@]).len() == 0 && labels_at(
            v,
            seq!["spec"@, "template"@, "metadata"@, "labels"@],
        ).len() == 0 && labels_at(
            v,
            seq!["spec"@, "jobTemplate"@, "spec"@, "template"@, "metadata"@, "labels"@],
        ).len() == 0 ==> selector_labels(v) == labels_at(v, seq!["metadata"@, "labels"@]),
{
}

proof fn put_contains(
    p: Seq<(Seq<char>, Seq<char>)>,
    k: Seq<char>,
    v: Seq<char>,
    x: (Seq<char>, Seq<char>),
)
    ensures
        pair_put(p, k, v).contains((k, v)),
        x.0 != k && p.contains(x) ==> pair_put(p, k, v).contains(x),
    decreases p.len(),
{
    let all = pair_put(p, k, v);
    if p.len() == 0 || p[0].0 == k || crate::text::text_lt(k, p[0].0) {
        assert(all[0] == (k, v));
        if x.0 != k && p.contains(x) {
            let i = choose|i: int| 0 <= i < p.len() && p[i] == x;
            if p[0].0 == k {
                assert(all[i] == x);
            } else {
                assert(all[i + 1] == x);
            }
        }
    } else {
        let d = p.drop_first();
        let rest = pair_put(d, k, v);
        put_contains(d, k, v, x);
        assert(all == seq![p[0]] + rest);
        let i = choose|i: int| 0 <= i < rest.len() && rest[i] == (k, v);
        assert(all[i + 1] == (k, v));
        if x.0 != k && p.contains(x) {
            let i = choose|i: int| 0 <= i < p.len() && p[i] == x;
            if i == 0 {
                assert(all[0] == x);
            } else {
                assert(d[i - 1] == x);
                assert(rest.contains(x));
                let j = choose|j: int| 0 <= j < rest.len() && rest[j] == x;
                assert(all[j + 1] == x);
            }
        }
    }
}

/// Every label of a mapping is read, the last value where its key comes twice.
pub proof fn labels_read(e: Seq<(YamlV, YamlV)>, i: int, k: Seq<char>, v: Seq<char>)
    requires
        0 <= i < e.len(),
        yaml_str(e[i].0) == Some(k),
        yaml_str(e[i].1) == Some(v),
        forall|j: int| i < j < e.len() ==> yaml_str((#[trigger] e[j]).0) != Some(k),
    ensures
        labels_in(e).contains((k, v)),
    decreases e.len(),
{
    let d = e.drop_last();
    let last = e.last();
    assert(last == e[e.len() - 1]);
    if i < d.len() {
        assert(d[i] == e[i]);
        assert forall|j: int| i < j < d.len() implies yaml_str((#[trigger] d[j]).0) != Some(k) by {
            assert(d[j] == e[j]);
        }
        labels_read(d, i, k, v);
        if let (Some(a), Some(b)) = (yaml_str(last.0), yaml_str(last.1)) {
            put_contains(labels_in(d), a, b, (k, v));
        }
    } else {
        put_contains(labels_in(d), k, v, (k, v));
    }
}

/// The group of an API version is what stands before its slash; the core group has no
/// name.
pub proof fn groups_told(group: Seq<char>, version: Seq<char>)
    requires
        lacks(group, '/'),
        lacks(version, '/'),
    ensures
        api_group(group + "/"@ + version) == group,
        api_group(version) == Seq::<char>::empty(),
        group_and_version(group + "/"@ + version) == (group, version),
        group_and_version(version) == (Seq::<char>::empty(), version),
{
    reveal_strlit("/");
    assert("/"@ =~= seq!['/']);
    let s = group + "/"@ + version;
    first_char(group, '/', version, 0);
    assert(s.take(group.len() as int) =~= group);
    assert(s.skip((group.len() + 1) as int) =~= version);
    no_char(version, '/', 0);
}

/// Documents are applied in order, but for empty ones; the first that cannot be read ends
/// it all, whatever stands behind it.
pub proof fn documents_in_order(
    a: Seq<Result<serde_yaml::Value, Seq<char>>>,
    b: Seq<Result<serde_yaml::Value, Seq<char>>>,
)
    ensures
        to_apply(a) is Err ==> to_apply(a + b) == to_apply(a),
        to_apply(a) is Ok && to_apply(b) is Ok ==> to_apply(a + b) is Ok && to_apply(a + b)->Ok_0
            == to_apply(a)->Ok_0 + to_apply(b)->Ok_0,
        to_apply(a) is Ok && to_apply(b) is Err ==> to_apply(a + b) == to_apply(b),
    decreases b.len(),
{
    if b.len() > 0 {
        assert((a + b).drop_last() =~= a + b.drop_last());
        assert((a + b).last() == b.last());
        documents_in_order(a, b.drop_last());
        if to_apply(a) is Ok && to_apply(b) is Ok {
            assert(to_apply(a + b)->Ok_0 =~= to_apply(a)->Ok_0 + to_apply(b)->Ok_0);
        }
    } else {
        assert(a + b =~= a);
        if to_apply(a) is Ok {
            assert(to_apply(a)->Ok_0 + to_apply(b)->Ok_0 =~= to_apply(a)->Ok_0);
        }
    }
}

/// What is applied is named by its kind, its name and its namespace, the default one where
/// it says none; without a type or a name it is not applied, nor where the cluster does not
/// know its type.
pub proof fn target_told(
    doc: JsonV,
    version: Seq<char>,
    kind: Seq<char>,
    name: Seq<char>,
    namespace: Seq<char>,
)
    requires
        at(doc, "apiVersion"@) == JsonV::Text(version),
        at(doc, "kind"@) == JsonV::Text(kind),
    ensures
        target_of(doc, false) is Err,
        at(at(doc, "metadata"@), "name"@) == JsonV::Null ==> target_of(doc, true) is Err,
        at(at(doc, "metadata"@), "name"@) == JsonV::Text(name) && at(
            at(doc, "metadata"@),
            "namespace"@,
        ) == JsonV::Text(namespace) ==> target_of(doc, true) is Ok && target_of(doc, true)->Ok_0
            == (kind, namespace, name),
        at(at(doc, "metadata"@), "name"@) == JsonV::Text(name) && at(
            at(doc, "metadata"@),
            "namespace"@,
        ) == JsonV::Null ==> target_of(doc, true) is Ok && target_of(doc, true)->Ok_0 == (
            kind,
            "default"@,
            name,
        ),
{
}

/// The kinds that run pods.
pub proof fn workloads_told()
    ensures
        workload_kind("Deployment"@) && workload_kind("StatefulSet"@) && workload_kind(
            "DaemonSet"@,
        ) && workload_kind("ReplicaSet"@) && workload_kind("Job"@) && workload_kind("CronJob"@)
            && workload_kind("Pod"@),
        forall|kind: Seq<char>|
            kind != "Deployment"@ && kind != "StatefulSet"@ && kind != "DaemonSet"@ && kind
                != "ReplicaSet"@ && kind != "Job"@ && kind != "CronJob"@ && kind != "Pod"@
                ==> !#[trigger] workload_kind(kind),
{
}

/// Every document that is an object is taken, in order; documents that cannot be read, or
/// are none, are left out.
pub proof fn entities_in_order(
    a: Seq<Result<serde_yaml::Value, Seq<char>>>,
    b: Seq<Result<serde_yaml::Value, Seq<char>>>,
    v: serde_yaml::Value,
    e: Seq<char>,
)
    ensures
        entities_of(a + b) == entities_of(a) + entities_of(b),
        entities_of(seq![Err(e)]).len() == 0,
        entity_of(crate::trees::yaml_contents(v), Seq::empty()) is None ==> entities_of(
            seq![Ok(v)],
        ).len() == 0,
        crate::trees::yaml_written(v) matches Some(text) ==> (entity_of(
            crate::trees::yaml_contents(v),
            text,
        ) matches Some(x) ==> entities_of(seq![Ok(v)]) == seq![x]),
    decreases b.len(),
{
    reveal_with_fuel(entities_of, 2);
    let none = Seq::<Result<serde_yaml::Value, Seq<char>>>::empty();
    let bad = seq![Err::<serde_yaml::Value, Seq<char>>(e)];
    let good = seq![Ok::<serde_yaml::Value, Seq<char>>(v)];
    assert(bad.drop_last() =~= none);
    assert(good.drop_last() =~= none);
    assert(good.last() == Ok::<serde_yaml::Value, Seq<char>>(v));
    if let Some(text) = crate::trees::yaml_written(v) {
        if let Some(x) = entity_of(crate::trees::yaml_contents(v), text) {
            assert(entities_of(good) =~= seq![x]);
        }
    }
    if b.len() > 0 {
        assert((a + b).drop_last() =~= a + b.drop_last());
        assert((a + b).last() == b.last());
        entities_in_order(a, b.drop_last(), v, e);
        assert(entities_of(a + b) =~= entities_of(a) + entities_of(b));
    } else {
        assert(a + b =~= a);
        assert(entities_of(a) + entities_of(b) =~= entities_of(a));
    }
}

/// Documents are read up to the first that cannot be read, which is told, and no further.
pub proof fn documents_to_first_error(text: Seq<char>, i: nat, limit: nat, k: int)
    ensures
        ({
            let docs = crate::trees::docs_to_error(text, i, limit);
            &&& 0 <= k < docs.len() ==> crate::trees::yaml_doc(text, (i + k) as nat) == Some(
                docs[k],
            )
            &&& 0 <= k < docs.len() - 1 ==> docs[k] is Ok
            &&& docs.len() > 0 && docs.last() is Ok && i + docs.len() < limit
                ==> crate::trees::yaml_doc(text, (i + docs.len()) as nat) is None
            &&& i < limit && docs.len() == 0 ==> crate::trees::yaml_doc(text, i) is None
        }),
    decreases limit - i,
{
    if i < limit {
        documents_to_first_error(text, i + 1, limit, k - 1);
        let docs = crate::trees::docs_to_error(text, i, limit);
        let rest = crate::trees::docs_to_error(text, i + 1, limit);
        if let Some(Ok(v)) = crate::trees::yaml_doc(text, i) {
            assert(docs == seq![Ok::<serde_yaml::Value, Seq<char>>(v)] + rest);
            if 0 < k < docs.len() {
                assert(docs[k] == rest[k - 1]);
            }
            if rest.len() > 0 {
                assert(docs.last() == rest.last());
            } else {
                documents_to_first_error(text, i + 1, limit, 0);
            }
        }
    }
}

} // verus!
