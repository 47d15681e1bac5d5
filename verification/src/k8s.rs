//! Kubernetes documents: which resources they describe, and what the engine needs
//! to know of them.

use vstd::prelude::*;
use vstd::string::*;

use crate::text::{
    cut, owned, pairs, precedes, same, split_once, text_lt, text_lt_total, text_lt_transitive,
    texts, texts_push,
};
use crate::trees::{
    doc_view, doc_views, documents_to_break, untagged, whole_docs, yaml_contents, yaml_entries,
    yaml_entries_each, yaml_get, yaml_items, yaml_items_each, yaml_of_value, yaml_str, yaml_text,
    yaml_written, Yaml, YamlV,
};

verus! {

/// A resource of a Kubernetes document.
#[derive(Debug)]
pub struct K8sEntity {
    pub kind: String,
    pub name: String,
    /// `default` where the document names none.
    pub namespace: String,
    pub api_version: String,
    /// The document, written as YAML again.
    pub raw: String,
    /// The images of its containers, in order, each once.
    pub images: Vec<String>,
    /// The values of its containers' environments, in order, each once.
    pub env_values: Vec<String>,
    /// The labels by which its pods are selected, in the order of their keys.
    pub match_labels: Vec<(String, String)>,
}

/// Whether the kind is one that runs pods.
pub open spec fn workload_kind(kind: Seq<char>) -> bool {
    kind == "Deployment"@ || kind == "StatefulSet"@ || kind == "DaemonSet"@ || kind
        == "ReplicaSet"@ || kind == "Job"@ || kind == "CronJob"@ || kind == "Pod"@
}

/// The API group: what stands before the slash; empty for the core group.
pub open spec fn api_group(api_version: Seq<char>) -> Seq<char> {
    match split_once(api_version, "/"@) {
        Some((g, _)) => g,
        None => Seq::empty(),
    }
}

impl K8sEntity {
    /// Whether the resource runs pods.
    pub fn is_workload(&self) -> (r: bool)
        ensures
            r == workload_kind(self.kind@),
    {
        let kind = self.kind.as_str();
        same(kind, "Deployment") || same(kind, "StatefulSet") || same(kind, "DaemonSet") || same(
            kind,
            "ReplicaSet",
        ) || same(kind, "Job") || same(kind, "CronJob") || same(kind, "Pod")
    }

    /// The API group of the resource.
    pub fn group(&self) -> (r: String)
        ensures
            r@ == api_group(self.api_version@),
    {
        match cut(self.api_version.as_str(), "/") {
            Some((g, _)) => g,
            None => String::new(),
        }
    }
}

/// The value at a path of keys.
pub open spec fn at_path(v: YamlV, path: Seq<Seq<char>>) -> Option<YamlV>
    decreases path.len(),
{
    if path.len() == 0 {
        Some(v)
    } else {
        match yaml_get(v, path[0]) {
            Some(next) => at_path(next, path.drop_first()),
            None => None,
        }
    }
}

/// The contents of a path of keys.
pub open spec fn path_view(path: Seq<&'static str>) -> Seq<Seq<char>> {
    path.map_values(|s: &'static str| s@)
}

/// The value at a path of keys.
fn follow<'a>(v: &'a Yaml, path: &Vec<&'static str>) -> (r: Option<&'a Yaml>)
    ensures
        match r {
            Some(x) => at_path(v@, path_view(path@)) == Some(x@),
            None => at_path(v@, path_view(path@)) is None,
        },
{
    let ghost all = path_view(path@);
    let mut cur: &'a Yaml = v;
    let mut i: usize = 0;
    assert(all.skip(0) =~= all);
    while i < path.len()
        invariant
            i <= path@.len(),
            all == path_view(path@),
            at_path(v@, all) == at_path(cur@, all.skip(i as int)),
        decreases path@.len() - i,
    {
        assert(all.skip(i as int)[0] == path@[i as int]@);
        assert(all.skip(i as int).drop_first() =~= all.skip(i + 1));
        match cur.get(path[i]) {
            Some(next) => {
                cur = next;
            },
            None => {
                return None;
            },
        }
        i += 1;
    }
    Some(cur)
}

/// The text at a path of keys.
pub open spec fn str_at(v: YamlV, path: Seq<Seq<char>>) -> Option<Seq<char>> {
    match at_path(v, path) {
        Some(x) => yaml_str(x),
        None => None,
    }
}

/// The text at a path of keys, empty where there is none.
pub open spec fn text_at(v: YamlV, path: Seq<Seq<char>>) -> Seq<char> {
    match str_at(v, path) {
        Some(s) => s,
        None => Seq::empty(),
    }
}

fn text_at_path(v: &Yaml, path: &Vec<&'static str>) -> (r: String)
    ensures
        r@ == text_at(v@, path_view(path@)),
{
    match follow(v, path) {
        Some(x) => match x.as_str() {
            Some(s) => owned(s),
            None => String::new(),
        },
        None => String::new(),
    }
}

/// What is gathered from a document: the values of a field, of the items of the
/// lists under certain keys.
#[derive(Clone, Copy, PartialEq, Eq, Structural)]
pub enum Gather {
    Images,
    Env,
}

/// Whether lists under the key are gathered from.
pub open spec fn gathers(which: Gather, key: YamlV) -> bool {
    match which {
        Gather::Images => yaml_str(key) == Some("containers"@) || yaml_str(key) == Some(
            "initContainers"@,
        ),
        Gather::Env => yaml_str(key) == Some("env"@),
    }
}

/// The field that is gathered.
pub open spec fn field_of(which: Gather) -> Seq<char> {
    match which {
        Gather::Images => "image"@,
        Gather::Env => "value"@,
    }
}

/// The texts of the field, of each item that has one.
pub open spec fn field_texts(items: Seq<YamlV>, field: Seq<char>) -> Seq<Seq<char>>
    decreases items.len(),
{
    if items.len() == 0 {
        Seq::empty()
    } else {
        let rest = field_texts(items.drop_last(), field);
        match yaml_get(items.last(), field) {
            Some(x) => match yaml_str(x) {
                Some(s) => rest.push(s),
                None => rest,
            },
            None => rest,
        }
    }
}

/// The texts gathered from an entry itself.
pub open spec fn from_entry(which: Gather, key: YamlV, value: YamlV) -> Seq<Seq<char>> {
    match value {
        YamlV::List(items) => if gathers(which, key) {
            field_texts(items, field_of(which))
        } else {
            Seq::empty()
        },
        _ => Seq::empty(),
    }
}

/// Everything gathered from a value and what is inside it.
pub open spec fn gathered(which: Gather, v: YamlV) -> Seq<Seq<char>>
    decreases v,
{
    match v {
        YamlV::Table(e) => gathered_entries(which, e),
        YamlV::List(s) => gathered_items(which, s),
        _ => Seq::empty(),
    }
}

/// Everything gathered from entries.
pub open spec fn gathered_entries(which: Gather, e: Seq<(YamlV, YamlV)>) -> Seq<Seq<char>>
    decreases e,
{
    if e.len() == 0 {
        Seq::empty()
    } else {
        gathered_entries(which, e.drop_last()) + from_entry(which, e.last().0, e.last().1)
            + gathered(which, e.last().1)
    }
}

/// Everything gathered from items.
pub open spec fn gathered_items(which: Gather, s: Seq<YamlV>) -> Seq<Seq<char>>
    decreases s,
{
    if s.len() == 0 {
        Seq::empty()
    } else {
        gathered_items(which, s.drop_last()) + gathered(which, s.last())
    }
}

fn key_gathers(which: Gather, key: &Yaml) -> (r: bool)
    ensures
        r == gathers(which, key@),
{
    match key.as_str() {
        Some(s) => match which {
            Gather::Images => same(s, "containers") || same(s, "initContainers"),
            Gather::Env => same(s, "env"),
        },
        None => false,
    }
}

fn push_fields(items: &Vec<Yaml>, field: &str, out: &mut Vec<String>)
    ensures
        texts(final(out)@) == texts(old(out)@) + field_texts(yaml_items(items@), field@),
{
    broadcast use texts_push;

    let ghost all = yaml_items(items@);
    let ghost before = texts(out@);
    let mut i: usize = 0;
    proof {
        yaml_items_each(items@);
    }
    assert(before =~= before + field_texts(all.take(0), field@));
    while i < items.len()
        invariant
            i <= items@.len(),
            all == yaml_items(items@),
            all.len() == items@.len(),
            forall|j: int| 0 <= j < items@.len() ==> (#[trigger] all[j]) == items@[j]@,
            texts(out@) == before + field_texts(all.take(i as int), field@),
        decreases items@.len() - i,
    {
        let ghost mid = field_texts(all.take(i as int), field@);
        proof {
            assert(all.take(i + 1).drop_last() =~= all.take(i as int));
            assert(all.take(i + 1).last() == all[i as int]);
        }
        if let Some(x) = items[i].get(field) {
            if let Some(s) = x.as_str() {
                out.push(owned(s));
                assert((before + mid).push(s@) =~= before + mid.push(s@));
            }
        }
        i += 1;
    }
    assert(all.take(i as int) =~= all);
}

/// Gathers from a value and what is inside it.
fn collect(which: Gather, v: &Yaml, out: &mut Vec<String>)
    ensures
        texts(final(out)@) == texts(old(out)@) + gathered(which, v@),
    decreases v,
{
    let ghost before = texts(out@);
    match v {
        Yaml::Table(e) => {
            collect_entries(which, e, out);
        },
        Yaml::List(s) => {
            collect_items(which, s, out);
        },
        _ => {
            assert(before =~= before + Seq::empty());
        },
    }
}

fn collect_entries(which: Gather, e: &Vec<(Yaml, Yaml)>, out: &mut Vec<String>)
    ensures
        texts(final(out)@) == texts(old(out)@) + gathered_entries(which, yaml_entries(e@)),
    decreases e,
{
    let ghost all = yaml_entries(e@);
    let ghost before = texts(out@);
    let mut i: usize = 0;
    proof {
        yaml_entries_each(e@);
    }
    assert(before =~= before + gathered_entries(which, all.take(0)));
    while i < e.len()
        invariant
            i <= e@.len(),
            all == yaml_entries(e@),
            all.len() == e@.len(),
            forall|j: int| 0 <= j < e@.len() ==> (#[trigger] all[j]) == (e@[j].0@, e@[j].1@),
            texts(out@) == before + gathered_entries(which, all.take(i as int)),
        decreases e@.len() - i,
    {
        assert(decreases_to!(*e => e@[i as int]));
        let ghost mid = gathered_entries(which, all.take(i as int));
        let ghost own = from_entry(which, all[i as int].0, all[i as int].1);
        proof {
            assert(all.take(i + 1).drop_last() =~= all.take(i as int));
            assert(all.take(i + 1).last() == all[i as int]);
        }
        match &e[i].1 {
            Yaml::List(items) => {
                if key_gathers(which, &e[i].0) {
                    match which {
                        Gather::Images => push_fields(items, "image", out),
                        Gather::Env => push_fields(items, "value", out),
                    }
                }
            },
            _ => {},
        }
        assert(texts(out@) =~= before + mid + own);
        collect(which, &e[i].1, out);
        assert(texts(out@) =~= before + (mid + own + gathered(which, all[i as int].1)));
        i += 1;
    }
    assert(all.take(i as int) =~= all);
}

fn collect_items(which: Gather, s: &Vec<Yaml>, out: &mut Vec<String>)
    ensures
        texts(final(out)@) == texts(old(out)@) + gathered_items(which, yaml_items(s@)),
    decreases s,
{
    let ghost all = yaml_items(s@);
    let ghost before = texts(out@);
    let mut i: usize = 0;
    proof {
        yaml_items_each(s@);
    }
    assert(before =~= before + gathered_items(which, all.take(0)));
    while i < s.len()
        invariant
            i <= s@.len(),
            all == yaml_items(s@),
            all.len() == s@.len(),
            forall|j: int| 0 <= j < s@.len() ==> (#[trigger] all[j]) == s@[j]@,
            texts(out@) == before + gathered_items(which, all.take(i as int)),
        decreases s@.len() - i,
    {
        assert(decreases_to!(*s => s@[i as int]));
        let ghost mid = gathered_items(which, all.take(i as int));
        proof {
            assert(all.take(i + 1).drop_last() =~= all.take(i as int));
            assert(all.take(i + 1).last() == all[i as int]);
        }
        collect(which, &s[i], out);
        assert(texts(out@) =~= before + (mid + gathered(which, all[i as int])));
        i += 1;
    }
    assert(all.take(i as int) =~= all);
}

/// The texts with one more among them, in order, each once.
pub open spec fn inserted(s: Seq<Seq<char>>, x: Seq<char>) -> Seq<Seq<char>>
    decreases s.len(),
{
    if s.len() == 0 {
        seq![x]
    } else if s[0] == x {
        s
    } else if text_lt(x, s[0]) {
        seq![x] + s
    } else {
        seq![s[0]] + inserted(s.drop_first(), x)
    }
}

/// The texts in order, each once.
pub open spec fn sorted_unique(s: Seq<Seq<char>>) -> Seq<Seq<char>>
    decreases s.len(),
{
    if s.len() == 0 {
        s
    } else {
        inserted(sorted_unique(s.drop_last()), s.last())
    }
}

/// Whether the texts are in order, each once.
pub open spec fn increasing(s: Seq<Seq<char>>) -> bool {
    forall|i: int, j: int| 0 <= i < j < s.len() ==> text_lt(#[trigger] s[i], #[trigger] s[j])
}

fn insert_text(v: &mut Vec<String>, x: String)
    ensures
        texts(final(v)@) == inserted(texts(old(v)@), x@),
{
    let ghost all = texts(v@);
    let mut i: usize = 0;
    assert(all.skip(0) =~= all);
    assert(all.take(0) + inserted(all.skip(0), x@) =~= inserted(all, x@));
    while i < v.len()
        invariant
            i <= v@.len(),
            *v == *old(v),
            all == texts(v@),
            inserted(all, x@) == all.take(i as int) + inserted(all.skip(i as int), x@),
        decreases v@.len() - i,
    {
        let ghost rest = all.skip(i as int);
        assert(rest[0] == v@[i as int]@);
        if same(v[i].as_str(), x.as_str()) {
            assert(all.take(i as int) + rest =~= all);
            return;
        }
        if precedes(x.as_str(), v[i].as_str()) {
            let ghost xv = x@;
            v.insert(i, x);
            assert(texts(v@) =~= all.take(i as int) + (seq![xv] + rest));
            return;
        }
        assert(rest.drop_first() =~= all.skip(i + 1));
        assert(all.take(i as int) + (seq![rest[0]] + inserted(rest.drop_first(), x@))
            =~= all.take(i + 1) + inserted(all.skip(i + 1), x@));
        i += 1;
    }
    let ghost xv = x@;
    assert(all.skip(i as int).len() == 0);
    v.push(x);
    assert(texts(v@) =~= all.take(i as int) + seq![xv]);
}

/// The texts in order, each once.
pub fn sort_unique(v: Vec<String>) -> (r: Vec<String>)
    ensures
        texts(r@) == sorted_unique(texts(v@)),
{
    let ghost all = texts(v@);
    let mut r: Vec<String> = Vec::new();
    let mut i: usize = 0;
    assert(texts(r@) =~= sorted_unique(all.take(0)));
    while i < v.len()
        invariant
            i <= v@.len(),
            all == texts(v@),
            texts(r@) == sorted_unique(all.take(i as int)),
        decreases v@.len() - i,
    {
        assert(all.take(i + 1).drop_last() =~= all.take(i as int));
        assert(all.take(i + 1).last() == v@[i as int]@);
        insert_text(&mut r, v[i].clone());
        i += 1;
    }
    assert(all.take(i as int) =~= all);
    r
}

proof fn inserted_ok(s: Seq<Seq<char>>, x: Seq<char>)
    requires
        increasing(s),
    ensures
        increasing(inserted(s, x)),
        forall|y: Seq<char>| #[trigger]
            inserted(s, x).contains(y) <==> s.contains(y) || y == x,
    decreases s.len(),
{
    let r = inserted(s, x);
    if s.len() == 0 {
        assert(r[0] == x);
        assert forall|y: Seq<char>| #[trigger] r.contains(y) <==> s.contains(y) || y == x by {
            if y == x {
                assert(r[0] == y);
            }
        }
    } else {
        let t = s.drop_first();
        assert(forall|j: int| 0 <= j < t.len() ==> t[j] == s[j + 1]);
        assert(increasing(t));
        if s[0] == x {
            assert(s.contains(x));
        } else if text_lt(x, s[0]) {
            assert(forall|j: int| 0 < j < r.len() ==> r[j] == s[j - 1]);
            assert forall|i: int, j: int| 0 <= i < j < r.len() implies text_lt(
                #[trigger] r[i],
                #[trigger] r[j],
            ) by {
                assert(r[j] == s[j - 1]);
                if i > 0 {
                    assert(r[i] == s[i - 1]);
                } else if j > 1 {
                    text_lt_transitive(x, s[0], s[j - 1]);
                }
            }
            assert forall|y: Seq<char>| #[trigger] r.contains(y) <==> s.contains(y) || y == x by {
                if s.contains(y) {
                    let i = choose|i: int| 0 <= i < s.len() && s[i] == y;
                    assert(r[i + 1] == y);
                }
                if y == x {
                    assert(r[0] == y);
                }
            }
        } else {
            let q = inserted(t, x);
            inserted_ok(t, x);
            text_lt_total(x, s[0]);
            assert(forall|j: int| 0 < j < r.len() ==> r[j] == q[j - 1]);
            assert forall|i: int, j: int| 0 <= i < j < r.len() implies text_lt(
                #[trigger] r[i],
                #[trigger] r[j],
            ) by {
                assert(r[j] == q[j - 1]);
                if i > 0 {
                    assert(r[i] == q[i - 1]);
                } else {
                    assert(q.contains(q[j - 1]));
                    if q[j - 1] != x {
                        let k = choose|k: int| 0 <= k < t.len() && t[k] == q[j - 1];
                        assert(text_lt(s[0], s[k + 1]));
                    }
                }
            }
            assert forall|y: Seq<char>| #[trigger] r.contains(y) <==> s.contains(y) || y == x by {
                if s.contains(y) {
                    let i = choose|i: int| 0 <= i < s.len() && s[i] == y;
                    if i == 0 {
                        assert(r[0] == y);
                    } else {
                        assert(t[i - 1] == y);
                        assert(q.contains(y));
                        let k = choose|k: int| 0 <= k < q.len() && q[k] == y;
                        assert(r[k + 1] == y);
                    }
                }
                if y == x {
                    assert(q.contains(x));
                    let k = choose|k: int| 0 <= k < q.len() && q[k] == x;
                    assert(r[k + 1] == x);
                }
                if r.contains(y) && y != x {
                    let k = choose|k: int| 0 <= k < r.len() && r[k] == y;
                    if k == 0 {
                        assert(s[0] == y);
                    } else {
                        assert(q[k - 1] == y);
                        assert(q.contains(y));
                        let i = choose|i: int| 0 <= i < t.len() && t[i] == y;
                        assert(s[i + 1] == y);
                    }
                }
            }
        }
    }
}

/// Texts put in order, each once, are in order, each once, and are the same texts.
pub proof fn sorted_unique_ok(s: Seq<Seq<char>>)
    ensures
        increasing(sorted_unique(s)),
        forall|y: Seq<char>| #[trigger] sorted_unique(s).contains(y) <==> s.contains(y),
    decreases s.len(),
{
    if s.len() > 0 {
        let d = s.drop_last();
        sorted_unique_ok(d);
        inserted_ok(sorted_unique(d), s.last());
        assert forall|y: Seq<char>| #[trigger] sorted_unique(s).contains(y) <==> s.contains(y) by {
            if s.contains(y) {
                let i = choose|i: int| 0 <= i < s.len() && s[i] == y;
                if i < d.len() {
                    assert(d[i] == y);
                }
            }
            if d.contains(y) {
                let i = choose|i: int| 0 <= i < d.len() && d[i] == y;
                assert(s[i] == y);
            }
            if y == s.last() {
                assert(s[s.len() - 1] == y);
            }
        }
    }
}

/// The pairs with the key's value set, in the order of the keys.
pub open spec fn pair_put(p: Seq<(Seq<char>, Seq<char>)>, k: Seq<char>, v: Seq<char>) -> Seq<
    (Seq<char>, Seq<char>),
>
    decreases p.len(),
{
    if p.len() == 0 {
        seq![(k, v)]
    } else if p[0].0 == k {
        seq![(k, v)] + p.drop_first()
    } else if text_lt(k, p[0].0) {
        seq![(k, v)] + p
    } else {
        seq![p[0]] + pair_put(p.drop_first(), k, v)
    }
}

/// Sets the key's value, in the order of the keys.
pub fn put_pair(p: &mut Vec<(String, String)>, k: &str, v: &str)
    ensures
        pairs(final(p)@) == pair_put(pairs(old(p)@), k@, v@),
{
    let ghost all = pairs(p@);
    let mut i: usize = 0;
    assert(all.skip(0) =~= all);
    assert(all.take(0) + pair_put(all.skip(0), k@, v@) =~= pair_put(all, k@, v@));
    while i < p.len()
        invariant
            i <= p@.len(),
            *p == *old(p),
            all == pairs(p@),
            pair_put(all, k@, v@) == all.take(i as int) + pair_put(all.skip(i as int), k@, v@),
        decreases p@.len() - i,
    {
        let ghost rest = all.skip(i as int);
        assert(rest[0] == (p@[i as int].0@, p@[i as int].1@));
        if same(p[i].0.as_str(), k) {
            p.set(i, (owned(k), owned(v)));
            assert(pairs(p@) =~= all.take(i as int) + (seq![(k@, v@)] + rest.drop_first()));
            return;
        }
        if precedes(k, p[i].0.as_str()) {
            p.insert(i, (owned(k), owned(v)));
            assert(pairs(p@) =~= all.take(i as int) + (seq![(k@, v@)] + rest));
            return;
        }
        assert(rest.drop_first() =~= all.skip(i + 1));
        assert(all.take(i as int) + (seq![rest[0]] + pair_put(rest.drop_first(), k@, v@))
            =~= all.take(i + 1) + pair_put(all.skip(i + 1), k@, v@));
        i += 1;
    }
    assert(all.skip(i as int).len() == 0);
    p.push((owned(k), owned(v)));
    assert(pairs(p@) =~= all.take(i as int) + seq![(k@, v@)]);
}

/// Whether every key and every value of a mapping is a text.
pub open spec fn texts_to_texts(e: Seq<(YamlV, YamlV)>) -> bool {
    forall|i: int|
        0 <= i < e.len() ==> yaml_str((#[trigger] e[i]).0) is Some && yaml_str(e[i].1) is Some
}

/// The labels of a mapping from texts to texts, in the order of their keys.
pub open spec fn labels_in(e: Seq<(YamlV, YamlV)>) -> Seq<(Seq<char>, Seq<char>)>
    decreases e.len(),
{
    if e.len() == 0 {
        Seq::empty()
    } else {
        let rest = labels_in(e.drop_last());
        match (yaml_str(e.last().0), yaml_str(e.last().1)) {
            (Some(k), Some(v)) => pair_put(rest, k, v),
            _ => rest,
        }
    }
}

/// The labels at a path of keys; none where there is no mapping, or one that does not
/// map texts to texts throughout.
pub open spec fn labels_at(v: YamlV, path: Seq<Seq<char>>) -> Seq<(Seq<char>, Seq<char>)> {
    match at_path(v, path) {
        Some(YamlV::Table(e)) => if texts_to_texts(e) {
            labels_in(e)
        } else {
            Seq::empty()
        },
        _ => Seq::empty(),
    }
}

fn labels_at_path(v: &Yaml, path: &Vec<&'static str>) -> (r: Vec<(String, String)>)
    ensures
        pairs(r@) == labels_at(v@, path_view(path@)),
{
    let mut r: Vec<(String, String)> = Vec::new();
    assert(pairs(r@) =~= Seq::empty());
    match follow(v, path) {
        Some(Yaml::Table(e)) => {
            let ghost all = yaml_entries(e@);
            let mut i: usize = 0;
            proof {
                yaml_entries_each(e@);
            }
            assert(all.take(0) =~= Seq::empty());
            while i < e.len()
                invariant
                    i <= e@.len(),
                    all == yaml_entries(e@),
                    all.len() == e@.len(),
                    forall|j: int|
                        0 <= j < e@.len() ==> (#[trigger] all[j]) == (e@[j].0@, e@[j].1@),
                    forall|j: int|
                        0 <= j < i ==> yaml_str((#[trigger] all[j]).0) is Some && yaml_str(
                            all[j].1,
                        ) is Some,
                    at_path(v@, path_view(path@)) == Some(YamlV::Table(all)),
                    pairs(r@) == labels_in(all.take(i as int)),
                decreases e@.len() - i,
            {
                proof {
                    assert(all.take(i + 1).drop_last() =~= all.take(i as int));
                    assert(all.take(i + 1).last() == all[i as int]);
                }
                match (e[i].0.as_str(), e[i].1.as_str()) {
                    (Some(k), Some(val)) => put_pair(&mut r, k, val),
                    _ => {
                        assert(!texts_to_texts(all)) by {
                            assert(yaml_str(all[i as int].0) is None || yaml_str(
                                all[i as int].1,
                            ) is None);
                        }
                        let none: Vec<(String, String)> = Vec::new();
                        assert(pairs(none@) =~= Seq::empty());
                        return none;
                    },
                }
                i += 1;
            }
            assert(all.take(i as int) =~= all);
            r
        },
        _ => r,
    }
}

/// The labels by which the pods of a resource are selected: those of its selector,
/// else those of its pods' template, else those of its jobs' pods' template, else
/// its own.
pub open spec fn selector_labels(v: YamlV) -> Seq<(Seq<char>, Seq<char>)> {
    let own = labels_at(v, seq!["spec"@, "selector"@, "matchLabels"@]);
    let template = labels_at(v, seq!["spec"@, "template"@, "metadata"@, "labels"@]);
    let cron = labels_at(
        v,
        seq!["spec"@, "jobTemplate"@, "spec"@, "template"@, "metadata"@, "labels"@],
    );
    if own.len() > 0 {
        own
    } else if template.len() > 0 {
        template
    } else if cron.len() > 0 {
        cron
    } else {
        labels_at(v, seq!["metadata"@, "labels"@])
    }
}

/// The labels by which the pods of a resource are selected.
pub fn extract_match_labels(v: &Yaml) -> (r: Vec<(String, String)>)
    ensures
        pairs(r@) == selector_labels(v@),
{
    let path: Vec<&'static str> = vec!["spec", "selector", "matchLabels"];
    assert(path_view(path@) =~= seq!["spec"@, "selector"@, "matchLabels"@]);
    let own = labels_at_path(v, &path);
    assert(pairs(own@).len() == own@.len());
    if own.len() > 0 {
        return own;
    }
    let path: Vec<&'static str> = vec!["spec", "template", "metadata", "labels"];
    assert(path_view(path@) =~= seq!["spec"@, "template"@, "metadata"@, "labels"@]);
    let template = labels_at_path(v, &path);
    assert(pairs(template@).len() == template@.len());
    if template.len() > 0 {
        return template;
    }
    let path: Vec<&'static str> = vec![
        "spec",
        "jobTemplate",
        "spec",
        "template",
        "metadata",
        "labels",
    ];
    assert(path_view(path@) =~= seq![
        "spec"@,
        "jobTemplate"@,
        "spec"@,
        "template"@,
        "metadata"@,
        "labels"@,
    ]);
    let cron = labels_at_path(v, &path);
    assert(pairs(cron@).len() == cron@.len());
    if cron.len() > 0 {
        return cron;
    }
    let path: Vec<&'static str> = vec!["metadata", "labels"];
    assert(path_view(path@) =~= seq!["metadata"@, "labels"@]);
    labels_at_path(v, &path)
}

/// A resource as a mathematical object.
pub struct EntityV {
    pub kind: Seq<char>,
    pub name: Seq<char>,
    pub namespace: Seq<char>,
    pub api_version: Seq<char>,
    pub raw: Seq<char>,
    pub images: Seq<Seq<char>>,
    pub env_values: Seq<Seq<char>>,
    pub match_labels: Seq<(Seq<char>, Seq<char>)>,
}

impl View for K8sEntity {
    type V = EntityV;

    open spec fn view(&self) -> EntityV {
        EntityV {
            kind: self.kind@,
            name: self.name@,
            namespace: self.namespace@,
            api_version: self.api_version@,
            raw: self.raw@,
            images: texts(self.images@),
            env_values: texts(self.env_values@),
            match_labels: pairs(self.match_labels@),
        }
    }
}

/// The resource that a document describes, with the text that it is written as;
/// none where it has no kind or no name.
pub open spec fn entity_of(v: YamlV, raw: Seq<char>) -> Option<EntityV> {
    let kind = text_at(v, seq!["kind"@]);
    let name = text_at(v, seq!["metadata"@, "name"@]);
    let namespace = text_at(v, seq!["metadata"@, "namespace"@]);
    if untagged(v) is Null || kind.len() == 0 || name.len() == 0 {
        None
    } else {
        Some(
            EntityV {
                kind,
                name,
                namespace: if namespace.len() == 0 {
                    "default"@
                } else {
                    namespace
                },
                api_version: text_at(v, seq!["apiVersion"@]),
                raw,
                images: sorted_unique(gathered(Gather::Images, v)),
                env_values: sorted_unique(gathered(Gather::Env, v)),
                match_labels: selector_labels(v),
            },
        )
    }
}

fn gather_sorted(which: Gather, v: &Yaml) -> (r: Vec<String>)
    ensures
        texts(r@) == sorted_unique(gathered(which, v@)),
{
    let mut out: Vec<String> = Vec::new();
    assert(texts(out@) =~= Seq::empty());
    collect(which, v, &mut out);
    assert(texts(out@) =~= gathered(which, v@));
    sort_unique(out)
}

/// The resource that a document describes, with the text that it is written as.
pub fn entity_from(v: &Yaml, raw: String) -> (r: Option<K8sEntity>)
    ensures
        match r {
            Some(e) => entity_of(v@, raw@) == Some(e@),
            None => entity_of(v@, raw@) is None,
        },
{
    if v.is_null() {
        return None;
    }
    let path: Vec<&'static str> = vec!["kind"];
    assert(path_view(path@) =~= seq!["kind"@]);
    let kind = text_at_path(v, &path);
    let path: Vec<&'static str> = vec!["metadata", "name"];
    assert(path_view(path@) =~= seq!["metadata"@, "name"@]);
    let name = text_at_path(v, &path);
    if kind.as_str().is_empty() || name.as_str().is_empty() {
        return None;
    }
    let path: Vec<&'static str> = vec!["metadata", "namespace"];
    assert(path_view(path@) =~= seq!["metadata"@, "namespace"@]);
    let namespace = text_at_path(v, &path);
    let path: Vec<&'static str> = vec!["apiVersion"];
    assert(path_view(path@) =~= seq!["apiVersion"@]);
    let api_version = text_at_path(v, &path);
    Some(
        K8sEntity {
            kind,
            name,
            namespace: if namespace.as_str().is_empty() {
                owned("default")
            } else {
                namespace
            },
            api_version,
            raw,
            images: gather_sorted(Gather::Images, v),
            env_values: gather_sorted(Gather::Env, v),
            match_labels: extract_match_labels(v),
        },
    )
}

/// What a document is written as; empty where it cannot be written.
pub open spec fn written_or_empty(v: serde_yaml::Value) -> Seq<char> {
    match yaml_written(v) {
        Some(s) => s,
        None => Seq::empty(),
    }
}

/// The resources of documents, those that could not be read left out.
pub open spec fn entities_of(docs: Seq<Result<serde_yaml::Value, Seq<char>>>) -> Seq<EntityV>
    decreases docs.len(),
{
    if docs.len() == 0 {
        Seq::empty()
    } else {
        let rest = entities_of(docs.drop_last());
        match docs.last() {
            Ok(v) => match entity_of(yaml_contents(v), written_or_empty(v)) {
                Some(e) => rest.push(e),
                None => rest,
            },
            Err(_) => rest,
        }
    }
}

/// The contents of a list of resources.
pub open spec fn entities_view(v: Seq<K8sEntity>) -> Seq<EntityV> {
    v.map_values(|e: K8sEntity| e@)
}

/// The resources of the documents of a text. Documents without kind or name are
/// skipped, and so are those that could not be read. Behind a document that breaks off
/// with something open in it, or at an error of syntax, there is nothing to be read.
pub fn parse_yaml(content: &str) -> (r: Vec<K8sEntity>)
    ensures
        entities_view(r@) == entities_of(whole_docs(content@)),
{
    let docs = documents_to_break(content);
    let ghost all = doc_views(docs@);
    let mut r: Vec<K8sEntity> = Vec::new();
    let mut i: usize = 0;
    assert(entities_view(r@) =~= entities_of(all.take(0)));
    while i < docs.len()
        invariant
            i <= docs@.len(),
            all == doc_views(docs@),
            entities_view(r@) == entities_of(all.take(i as int)),
        decreases docs@.len() - i,
    {
        proof {
            assert(all.take(i + 1).drop_last() =~= all.take(i as int));
            assert(all.take(i + 1).last() == all[i as int]);
            assert(all[i as int] == doc_view(docs@[i as int]));
        }
        match &docs[i] {
            Ok(v) => {
                let tree = yaml_of_value(v);
                let raw: String = match yaml_text(v) {
                    Some(s) => s,
                    None => String::new(),
                };
                if let Some(e) = entity_from(&tree, raw) {
                    let ghost before = r@;
                    r.push(e);
                    assert(entities_view(r@) =~= entities_view(before).push(e@));
                }
            },
            Err(_) => {},
        }
        i += 1;
    }
    assert(all.take(i as int) =~= all);
    r
}

} // verus!
