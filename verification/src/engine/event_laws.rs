//! What follows from changes of objects and files, whatever they are.

use vstd::prelude::*;
use vstd::string::*;

use crate::api::store::{EventV, ObjectV};
use crate::api::v1alpha1::{UIResourceCondition, UIResourceLink};
use crate::engine::ignore::ignored;
use crate::engine::reconcile::{
    disable_change, disabled_state, dispatched, effects_of, force_trigger, heard, queue_of, EffectV,
    Reconciler,
};
use crate::engine::status::{other_conditions, other_links};
use crate::engine::watch::{
    all_ignored, any_fallback, change_logs, directory_of, entries_rules, entry_rules, text_values,
    watch_of, watcher_of, watchers_without, ChangedFile, WatchSpec,
};
use crate::engine::log::{log_v, Level};
use crate::json::{at, JsonV};
use crate::manifest::IgnoreRule;
use crate::path_laws::{are_names, is_name, rooted};
use crate::paths::path_within;
use crate::text::{ends_with, join};

verus! {

/// An object that is added or changed triggers a build of what it is named after just where
/// it carries the mark for it, which is a text that is not empty; one that is deleted never
/// does.
pub proof fn mark_triggers(o: ObjectV, mark: Seq<char>)
    ensures
        at(at(at(o.object, "metadata"@), "annotations"@), "tilt.dev/force-trigger"@) == JsonV::Text(
            mark,
        ) && mark.len() > 0 ==> force_trigger(EventV::Added(o)) == Some(o.name) && force_trigger(
            EventV::Modified(o),
        ) == Some(o.name),
        at(at(at(o.object, "metadata"@), "annotations"@), "tilt.dev/force-trigger"@) == JsonV::Text(
            Seq::empty(),
        ) ==> force_trigger(EventV::Added(o)) is None && force_trigger(EventV::Modified(o)) is None,
        at(at(at(o.object, "metadata"@), "annotations"@), "tilt.dev/force-trigger"@) == JsonV::Null
            ==> force_trigger(EventV::Added(o)) is None && force_trigger(EventV::Modified(o))
            is None,
        force_trigger(EventV::Deleted(o)) is None,
{
}

/// Whether an object switches a resource on or off.
pub open spec fn switches(o: ObjectV, resource: Seq<char>, value: Seq<char>) -> bool {
    &&& o.kind == "ConfigMap"@
    &&& o.name == resource + "-disable"@
    &&& at(at(o.object, "data"@), "isDisabled"@) == JsonV::Text(value)
}

/// A switch that is added or changed says of its resource that it is disabled just where
/// its value is `true`; other objects say nothing of that.
pub proof fn switch_told(o: ObjectV, resource: Seq<char>, value: Seq<char>)
    ensures
        switches(o, resource, value) ==> disable_change(EventV::Added(o)) == Some(
            (resource, value == "true"@),
        ) && disable_change(EventV::Modified(o)) == Some((resource, value == "true"@)),
        disable_change(EventV::Deleted(o)) is None,
        o.kind != "ConfigMap"@ || !ends_with(o.name, "-disable"@) ==> disable_change(
            EventV::Added(o),
        ) is None && disable_change(EventV::Modified(o)) is None,
{
    if switches(o, resource, value) {
        let e = "-disable"@;
        assert(o.name.subrange(o.name.len() - e.len(), o.name.len() as int) =~= e);
        assert(o.name.take(o.name.len() - e.len()) =~= resource);
    }
}

/// A switch has an effect where it differs from what is known, and none where it agrees or
/// nothing is known of its resource.
pub proof fn switch_acts_once(
    o: ObjectV,
    resource: Seq<char>,
    value: Seq<char>,
    known: Seq<(Seq<char>, bool)>,
    seen: Seq<Seq<char>>,
)
    requires
        switches(o, resource, value),
    ensures
        effects_of(Reconciler::DisableConfigMap, EventV::Modified(o), known, seen).1 == seen,
        disabled_state(known, resource) == Some(value == "true"@) || disabled_state(known, resource)
            is None ==> effects_of(
            Reconciler::DisableConfigMap,
            EventV::Modified(o),
            known,
            seen,
        ).0.len() == 0,
        disabled_state(known, resource) == Some(value != "true"@) ==> effects_of(
            Reconciler::DisableConfigMap,
            EventV::Modified(o),
            known,
            seen,
        ).0 == seq![
            EffectV::SetDisabled {
                resource,
                disabled: value == "true"@,
                log: log_v(
                    resource,
                    Level::Info,
                    if value == "true"@ {
                        "Disabled via API ConfigMap\n"@
                    } else {
                        "Enabled via API ConfigMap\n"@
                    },
                ),
            },
        ],
{
    switch_told(o, resource, value);
    reveal_strlit("Disabled");
    reveal_strlit("Enabled");
    reveal_strlit(" via API ConfigMap\n");
    reveal_strlit("Disabled via API ConfigMap\n");
    reveal_strlit("Enabled via API ConfigMap\n");
    assert("Disabled"@ + " via API ConfigMap\n"@ =~= "Disabled via API ConfigMap\n"@);
    assert("Enabled"@ + " via API ConfigMap\n"@ =~= "Enabled via API ConfigMap\n"@);
}

/// Whether an entry of the queue names a resource, with the mark that tells it from others.
pub open spec fn queues(e: JsonV, name: Seq<char>, nonce: Seq<char>) -> bool {
    (e == JsonV::Text(name) && nonce.len() == 0) || (e is Table && at(e, "name"@) == JsonV::Text(
        name,
    ) && at(e, "nonce"@) == JsonV::Text(nonce))
}

/// An entry of the queue that was not heard before is heard, and remembered; one that was
/// is not heard again; both go on in order.
pub proof fn entries_heard(
    entries: Seq<JsonV>,
    seen: Seq<Seq<char>>,
    e: JsonV,
    name: Seq<char>,
    nonce: Seq<char>,
)
    requires
        queues(e, name, nonce),
        name.len() > 0,
    ensures
        !heard(entries, seen).1.contains(name + ":"@ + nonce) ==> heard(entries.push(e), seen) == (
            heard(entries, seen).0.push(name),
            heard(entries, seen).1.push(name + ":"@ + nonce),
        ),
        heard(entries, seen).1.contains(name + ":"@ + nonce) ==> heard(entries.push(e), seen)
            == heard(entries, seen),
        heard(Seq::empty(), seen) == (Seq::<Seq<char>>::empty(), seen),
{
    assert(entries.push(e).drop_last() =~= entries);
    assert(entries.push(e).last() == e);
    if nonce.len() == 0 {
        assert(nonce =~= Seq::empty());
    }
}

/// The queue is that of the object for it, where it is added or changed.
pub proof fn queue_told(o: ObjectV, entries: Seq<JsonV>)
    ensures
        o.kind == "TriggerQueue"@ && at(at(o.object, "spec"@), "queue"@) == JsonV::List(entries)
            ==> queue_of(EventV::Added(o)) == entries && queue_of(EventV::Modified(o)) == entries,
        o.kind != "TriggerQueue"@ ==> queue_of(EventV::Added(o)).len() == 0 && queue_of(
            EventV::Modified(o),
        ).len() == 0,
        queue_of(EventV::Deleted(o)).len() == 0,
{
}

/// All reconcilers hear of an event, one after the other.
pub proof fn all_dispatched(
    a: Seq<Reconciler>,
    r: Reconciler,
    event: EventV,
    known: Seq<(Seq<char>, bool)>,
    seen: Seq<Seq<char>>,
)
    ensures
        dispatched(a.push(r), event, known, seen).0 == dispatched(a, event, known, seen).0
            + effects_of(r, event, known, dispatched(a, event, known, seen).1).0,
        force_trigger(event) matches Some(n) ==> effects_of(
            Reconciler::ForceTrigger,
            event,
            known,
            seen,
        ).0 == seq![EffectV::Trigger(n)],
        force_trigger(event) is None ==> effects_of(
            Reconciler::ForceTrigger,
            event,
            known,
            seen,
        ).0.len() == 0,
        effects_of(Reconciler::TriggerQueue, event, known, seen).0.len() == heard(
            queue_of(event),
            seen,
        ).0.len(),
        forall|i: int|
            0 <= i < heard(queue_of(event), seen).0.len() ==> #[trigger] effects_of(
                Reconciler::TriggerQueue,
                event,
                known,
                seen,
            ).0[i] == EffectV::Trigger(heard(queue_of(event), seen).0[i]),
{
    assert(a.push(r).drop_last() =~= a);
    assert(a.push(r).last() == r);
}

/// The texts of a list are its texts, in order.
pub proof fn texts_listed(a: Seq<JsonV>, s: Seq<char>, b: Seq<JsonV>)
    ensures
        text_values(a + b) == text_values(a) + text_values(b),
        text_values(seq![JsonV::Text(s)]) == seq![s],
        text_values(seq![JsonV::Null]).len() == 0,
    decreases b.len(),
{
    reveal_with_fuel(text_values, 2);
    assert(seq![JsonV::Text(s)].drop_last() =~= Seq::empty());
    assert(seq![JsonV::Null].drop_last() =~= Seq::empty());
    assert(text_values(seq![JsonV::Text(s)]) =~= seq![s]);
    if b.len() > 0 {
        assert((a + b).drop_last() =~= a + b.drop_last());
        assert((a + b).last() == b.last());
        texts_listed(a, s, b.drop_last());
        assert(text_values(a + b) =~= text_values(a) + text_values(b));
    } else {
        assert(a + b =~= a);
        assert(text_values(a) + text_values(b) =~= text_values(a));
    }
}

/// A watch watches the paths of its object, with its rules and its fallbacks, by hand just
/// where it says so.
pub proof fn watch_told(
    object: JsonV,
    paths: Seq<JsonV>,
    base: Seq<char>,
    patterns: Seq<JsonV>,
    entry: JsonV,
    k: int,
)
    requires
        at(at(object, "spec"@), "watchedPaths"@) == JsonV::List(paths),
        at(at(object, "spec"@), "ignores"@) == JsonV::List(seq![entry]),
        at(entry, "basePath"@) == JsonV::Text(base),
        at(entry, "patterns"@) == JsonV::List(patterns),
    ensures
        watch_of(object).watched == text_values(paths),
        watch_of(object).manual <==> at(at(object, "spec"@), "manual"@) == JsonV::Bool(true),
        watch_of(object).ignores.len() == text_values(patterns).len(),
        0 <= k < text_values(patterns).len() ==> watch_of(object).ignores[k] == (
            base,
            text_values(patterns)[k],
        ),
        at(at(object, "spec"@), "fallbackPaths"@) == JsonV::List(paths) ==> watch_of(
            object,
        ).fallback_paths == text_values(paths),
{
    let one = seq![entry];
    assert(one.drop_last() =~= Seq::empty());
    assert(one.last() == entry);
    reveal_with_fuel(entries_rules, 2);
    assert(entries_rules(one) =~= entry_rules(entry));
}

/// The watcher of a name is gone when it is stopped; all others stay.
pub proof fn watcher_stopped(w: Seq<(Seq<char>, u64)>, name: Seq<char>, other: Seq<char>)
    ensures
        watcher_of(watchers_without(w, name), name) is None,
        other != name ==> watcher_of(watchers_without(w, name), other) == watcher_of(w, other),
    decreases w.len(),
{
    if w.len() > 0 {
        let d = w.drop_last();
        watcher_stopped(d, name, other);
        watcher_behind(d, w.last(), other);
        assert(d.push(w.last()) =~= w);
        if w.last().0 != name {
            watcher_behind(watchers_without(d, name), w.last(), name);
            watcher_behind(watchers_without(d, name), w.last(), other);
        }
    }
}

proof fn watcher_behind(w: Seq<(Seq<char>, u64)>, x: (Seq<char>, u64), name: Seq<char>)
    ensures
        watcher_of(w.push(x), name) == (match watcher_of(w, name) {
            Some(i) => Some(i),
            None => if x.0 == name {
                Some(x.1)
            } else {
                None
            },
        }),
    decreases w.len(),
{
    let all = w.push(x);
    if w.len() > 0 {
        assert(all[0] == w[0]);
        assert(all.drop_first() =~= w.drop_first().push(x));
        watcher_behind(w.drop_first(), x, name);
    } else {
        assert(all[0] == x);
        assert(all.drop_first() =~= w);
    }
}

/// Changes are ignored only where every one of them is: one change that the rules do not
/// ignore is enough. A full rebuild is asked for where a changed path is a fallback or lies
/// below one.
pub proof fn one_change_counts(
    changed: Seq<ChangedFile>,
    rules: Seq<IgnoreRule>,
    paths: Seq<Seq<char>>,
    fallback: Seq<Seq<char>>,
    i: int,
    j: int,
)
    ensures
        0 <= i < changed.len() && !ignored(changed[i].resolved@, rules) ==> !all_ignored(
            changed,
            rules,
        ),
        changed.len() > 0 && (forall|k: int|
            0 <= k < changed.len() ==> ignored((#[trigger] changed[k]).resolved@, rules))
            ==> all_ignored(changed, rules),
        changed.len() == 0 ==> !all_ignored(changed, rules),
        0 <= i < paths.len() && 0 <= j < fallback.len() && path_within(paths[i], fallback[j])
            ==> any_fallback(paths, fallback),
        any_fallback(paths, fallback) ==> exists|a: int, b: int|
            0 <= a < paths.len() && 0 <= b < fallback.len() && #[trigger] path_within(
                paths[a],
                fallback[b],
            ),
{
    if 0 <= i < paths.len() && 0 <= j < fallback.len() && path_within(paths[i], fallback[j]) {
        assert(crate::engine::ignore::hits_any(paths[i], fallback));
    }
    if any_fallback(paths, fallback) {
        let a = choose|a: int|
            0 <= a < paths.len() && crate::engine::ignore::hits_any(#[trigger] paths[a], fallback);
        let b = choose|b: int|
            0 <= b < fallback.len() && path_within(paths[a], #[trigger] fallback[b]);
        assert(path_within(paths[a], fallback[b]));
    }
}

/// The file lies in the directory of all its names but the last.
pub proof fn directory_told(v: Seq<Seq<char>>)
    requires
        are_names(v),
        v.len() > 0,
    ensures
        directory_of(rooted(v)) == rooted(v.drop_last()),
        v.len() > 1 ==> directory_of(join(v, "/"@)) == join(v.drop_last(), "/"@),
        v.len() == 1 ==> directory_of(v[0]) == "."@,
{
    crate::path_laws::path_of_names(v);
    let c = seq!["/"@] + v;
    assert(c.subrange(1, c.len() - 1) =~= v.drop_last());
    assert(v.subrange(0, v.len() - 1) =~= v.drop_last());
    reveal_strlit("/");
    assert(is_name(v[0]));
    if v[0] == "/"@ {
        assert(v[0][0] == '/');
    }
    assert(c[0] == "/"@);
    assert(v.len() == 1 ==> join(v, "/"@) == v[0]);
}

/// Setting a condition takes the place of that of its type, and of no other.
pub proof fn conditions_kept(c: Seq<UIResourceCondition>, kind: Seq<char>, x: UIResourceCondition)
    ensures
        other_conditions(c, kind).contains(x) <==> c.contains(x) && x.condition_type@ != kind,
    decreases c.len(),
{
    if c.len() > 0 {
        let d = c.drop_last();
        let rest = other_conditions(d, kind);
        let all = other_conditions(c, kind);
        conditions_kept(d, kind, x);
        assert(c.last() == c[c.len() - 1]);
        if all.contains(x) && !rest.contains(x) {
            let i = choose|i: int| 0 <= i < all.len() && all[i] == x;
            if i < rest.len() {
                assert(rest[i] == x);
            }
        }
        if rest.contains(x) {
            let i = choose|i: int| 0 <= i < rest.len() && rest[i] == x;
            assert(all[i] == x);
            let j = choose|j: int| 0 <= j < d.len() && d[j] == x;
            assert(c[j] == x);
        }
        if c.contains(x) && x.condition_type@ != kind {
            let j = choose|j: int| 0 <= j < c.len() && c[j] == x;
            if j < d.len() {
                assert(d[j] == x);
            } else {
                assert(all[rest.len() as int] == x);
            }
        }
    }
}

/// Setting a link takes the place of that of its name, and of no other.
pub proof fn links_kept(l: Seq<UIResourceLink>, name: Seq<char>, x: UIResourceLink)
    ensures
        other_links(l, name).contains(x) <==> l.contains(x) && !(x.name is Some && x.name->0@
            == name),
    decreases l.len(),
{
    if l.len() > 0 {
        let d = l.drop_last();
        let rest = other_links(d, name);
        let all = other_links(l, name);
        links_kept(d, name, x);
        assert(l.last() == l[l.len() - 1]);
        if all.contains(x) && !rest.contains(x) {
            let i = choose|i: int| 0 <= i < all.len() && all[i] == x;
            if i < rest.len() {
                assert(rest[i] == x);
            }
        }
        if rest.contains(x) {
            let i = choose|i: int| 0 <= i < rest.len() && rest[i] == x;
            assert(all[i] == x);
            let j = choose|j: int| 0 <= j < d.len() && d[j] == x;
            assert(l[j] == x);
        }
        if l.contains(x) && !(x.name is Some && x.name->0@ == name) {
            let j = choose|j: int| 0 <= j < l.len() && l[j] == x;
            if j < d.len() {
                assert(d[j] == x);
            } else {
                assert(all[rest.len() as int] == x);
            }
        }
    }
}

/// What is logged of a change: that it was ignored where all of it is; else that it was
/// seen, and why nothing is built of a paused resource, or why everything is rebuilt.
pub proof fn changes_logged(
    name: Seq<char>,
    changed: Seq<ChangedFile>,
    rules: Seq<IgnoreRule>,
    spec: WatchSpec,
)
    ensures
        all_ignored(changed, rules) ==> change_logs(name, changed, rules, spec, true) == seq![
            log_v(name, Level::Info, "Ignored file change matched ignore rules\n"@),
        ] && change_logs(name, changed, rules, spec, false) == change_logs(
            name,
            changed,
            rules,
            spec,
            true,
        ),
        !all_ignored(changed, rules) ==> {
            &&& change_logs(name, changed, rules, spec, true).len() == 2
            &&& change_logs(name, changed, rules, spec, true)[0] == log_v(
                name,
                Level::Info,
                "Detected file change\n"@,
            )
            &&& change_logs(name, changed, rules, spec, true)[1] == log_v(
                name,
                Level::Info,
                "Resource is paused; live reload skipped\n"@,
            )
            &&& change_logs(name, changed, rules, spec, false)[0] == log_v(
                name,
                Level::Info,
                "Detected file change\n"@,
            )
            &&& change_logs(name, changed, rules, spec, false).len() == (if !spec.manual
                && any_fallback(
                changed.map_values(|f: ChangedFile| f.path@),
                crate::text::texts(spec.fallback_paths@),
            ) {
                2int
            } else {
                1int
            })
        },
{
    assert(crate::engine::watch::told_paths(changed) =~= changed.map_values(
        |f: ChangedFile| f.path@,
    ));
}

/// The config is touched where one of its files is among the changed paths, whatever way
/// either is written.
pub proof fn config_touched(files: Seq<Seq<char>>, paths: Seq<Seq<char>>, i: int, j: int)
    ensures
        0 <= i < files.len() && 0 <= j < paths.len() && crate::paths::components(files[i])
            == crate::paths::components(paths[j]) ==> crate::engine::watch::touches(files, paths),
        crate::engine::watch::touches(files, paths) ==> exists|a: int, b: int|
            0 <= a < files.len() && 0 <= b < paths.len() && #[trigger] crate::paths::components(
                files[a],
            ) == #[trigger] crate::paths::components(paths[b]),
{
    if 0 <= i < files.len() && 0 <= j < paths.len() && crate::paths::components(files[i])
        == crate::paths::components(paths[j]) {
        assert(crate::path_order::holds_path(files, paths[j]));
    }
    if crate::engine::watch::touches(files, paths) {
        let b = choose|b: int|
            0 <= b < paths.len() && crate::path_order::holds_path(files, #[trigger] paths[b]);
        let a = choose|a: int|
            0 <= a < files.len() && crate::paths::components(#[trigger] files[a])
                == crate::paths::components(paths[b]);
        assert(crate::paths::components(files[a]) == crate::paths::components(paths[b]));
    }
}

} // verus!
