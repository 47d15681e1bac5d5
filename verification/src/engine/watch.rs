//! Watching files: which watchers run, and what changed files lead to.

use vstd::prelude::*;
use vstd::string::*;

use crate::api::store::{EventV, ObjectEvent, ObjectV};
use crate::engine::ignore::{hits_any, ignored, is_ignored_by_rules, matches_any_path, rules_view};
use crate::engine::live_update::fallback_paths;
use crate::engine::log::{line, log_v, logs, logs_push, Level, LogLine, LogV};
use crate::engine::objects::{file_watch, ignore_entry, one, txt};
use crate::json::{
    at, items, list_view, list_view_items, lookup_put, text_list, text_or, truth,
    with_key, Json, JsonV,
};
use crate::manifest::{builds_on_change, IgnoreRule, Manifest};
use crate::path_order::{holds_path, paths_sorted, paths_sorted_ok, sort_paths};
use crate::paths::{components, components_of, same_path};
use crate::text::{cat, join, joined, owned, same, texts, texts_push};

verus! {

/// The texts of a list, other values left out.
pub open spec fn text_values(v: Seq<JsonV>) -> Seq<Seq<char>>
    decreases v.len(),
{
    if v.len() == 0 {
        Seq::empty()
    } else {
        let rest = text_values(v.drop_last());
        match v.last() {
            JsonV::Text(s) => rest.push(s),
            _ => rest,
        }
    }
}

/// The texts of a list, other values left out.
pub fn texts_of_list(v: &Json) -> (r: Vec<String>)
    ensures
        texts(r@) == text_values(items(v@)),
{
    broadcast use texts_push;

    let mut r: Vec<String> = Vec::new();
    let ghost all = items(v@);
    assert(texts(r@) =~= text_values(all.take(0)));
    match v.as_list() {
        Some(l) => {
            proof {
                list_view_items(l@);
            }
            let mut i: usize = 0;
            while i < l.len()
                invariant
                    i <= l@.len(),
                    all == list_view(l@),
                    all.len() == l@.len(),
                    forall|j: int| 0 <= j < l@.len() ==> (#[trigger] all[j]) == l@[j]@,
                    texts(r@) == text_values(all.take(i as int)),
                decreases l@.len() - i,
            {
                proof {
                    assert(all.take(i + 1).drop_last() =~= all.take(i as int));
                    assert(all.take(i + 1).last() == all[i as int]);
                }
                if let Some(s) = l[i].as_str() {
                    r.push(owned(s));
                }
                i += 1;
            }
            assert(all.take(i as int) =~= all);
            r
        },
        None => {
            assert(all.take(0) =~= all);
            r
        },
    }
}

/// The ignore rules of an entry: its patterns, below its directory.
pub open spec fn entry_rules(e: JsonV) -> Seq<(Seq<char>, Seq<char>)> {
    let base = text_or(at(e, "basePath"@), Seq::empty());
    text_values(items(at(e, "patterns"@))).map_values(|p: Seq<char>| (base, p))
}

/// The ignore rules of entries, in order.
pub open spec fn entries_rules(v: Seq<JsonV>) -> Seq<(Seq<char>, Seq<char>)>
    decreases v.len(),
{
    if v.len() == 0 {
        Seq::empty()
    } else {
        entries_rules(v.drop_last()) + entry_rules(v.last())
    }
}

/// The ignore rules that a `FileWatch` object records.
pub fn parse_ignore_rules(value: &Json) -> (r: Vec<IgnoreRule>)
    ensures
        rules_view(r@) == entries_rules(items(value@)),
{
    let mut r: Vec<IgnoreRule> = Vec::new();
    let ghost all = items(value@);
    assert(rules_view(r@) =~= entries_rules(all.take(0)));
    match value.as_list() {
        Some(l) => {
            proof {
                list_view_items(l@);
                reveal_strlit("");
                assert(""@ =~= Seq::empty());
            }
            let mut i: usize = 0;
            while i < l.len()
                invariant
                    i <= l@.len(),
                    all == list_view(l@),
                    all.len() == l@.len(),
                    ""@ == Seq::<char>::empty(),
                    forall|j: int| 0 <= j < l@.len() ==> (#[trigger] all[j]) == l@[j]@,
                    rules_view(r@) == entries_rules(all.take(i as int)),
                decreases l@.len() - i,
            {
                proof {
                    assert(all.take(i + 1).drop_last() =~= all.take(i as int));
                    assert(all.take(i + 1).last() == all[i as int]);
                }
                let base = l[i].at("basePath").str_or("");
                let patterns = texts_of_list(l[i].at("patterns"));
                push_rules(&mut r, base, patterns);
                i += 1;
            }
            assert(all.take(i as int) =~= all);
            r
        },
        None => {
            assert(all.take(0) =~= all);
            r
        },
    }
}

fn push_rules(r: &mut Vec<IgnoreRule>, base: &str, patterns: Vec<String>)
    ensures
        rules_view(final(r)@) == rules_view(old(r)@) + texts(patterns@).map_values(
            |p: Seq<char>| (base@, p),
        ),
{
    let ghost before = rules_view(r@);
    let ghost all = texts(patterns@).map_values(|p: Seq<char>| (base@, p));
    let mut i: usize = 0;
    assert(rules_view(r@) =~= before + all.take(0));
    while i < patterns.len()
        invariant
            i <= patterns@.len(),
            all == texts(patterns@).map_values(|p: Seq<char>| (base@, p)),
            rules_view(r@) == before + all.take(i as int),
        decreases patterns@.len() - i,
    {
        let rule = IgnoreRule { base: owned(base), pattern: patterns[i].clone() };
        let ghost mid = r@;
        r.push(rule);
        proof {
            assert(rules_view(r@) =~= rules_view(mid).push((rule.base@, rule.pattern@)));
            assert(all[i as int] == (base@, patterns@[i as int]@));
            assert(before + all.take(i + 1) =~= (before + all.take(i as int)).push(
                all[i as int],
            ));
        }
        i += 1;
    }
    assert(all.take(i as int) =~= all);
}

/// What a watcher watches and what changes lead to, as a mathematical object.
pub struct WatchV {
    pub watched: Seq<Seq<char>>,
    pub ignores: Seq<(Seq<char>, Seq<char>)>,
    pub fallback_paths: Seq<Seq<char>>,
    pub manual: bool,
}

/// What a watcher watches and what changes lead to.
#[derive(Debug)]
pub struct WatchSpec {
    pub watched: Vec<String>,
    pub ignore_rules: Vec<IgnoreRule>,
    pub fallback_paths: Vec<String>,
    pub manual: bool,
}

impl View for WatchSpec {
    type V = WatchV;

    open spec fn view(&self) -> WatchV {
        WatchV {
            watched: texts(self.watched@),
            ignores: rules_view(self.ignore_rules@),
            fallback_paths: texts(self.fallback_paths@),
            manual: self.manual,
        }
    }
}

/// What the object of a watcher declares.
pub open spec fn watch_of(object: JsonV) -> WatchV {
    let spec = at(object, "spec"@);
    WatchV {
        watched: text_values(items(at(spec, "watchedPaths"@))),
        ignores: entries_rules(items(at(spec, "ignores"@))),
        fallback_paths: text_values(items(at(spec, "fallbackPaths"@))),
        manual: truth(at(spec, "manual"@)),
    }
}

/// What the object of a watcher declares.
pub fn watch_spec(object: &Json) -> (r: WatchSpec)
    ensures
        r@ == watch_of(object@),
{
    let spec = object.at("spec");
    WatchSpec {
        watched: texts_of_list(spec.at("watchedPaths")),
        ignore_rules: parse_ignore_rules(spec.at("ignores")),
        fallback_paths: texts_of_list(spec.at("fallbackPaths")),
        manual: spec.at("manual").is_true(),
    }
}

/// The watchers that run: the name of the object each runs for, and its number.
pub open spec fn watchers_view(v: Seq<(String, u64)>) -> Seq<(Seq<char>, u64)> {
    v.map_values(|e: (String, u64)| (e.0@, e.1))
}

/// The number of the watcher of an object.
pub open spec fn watcher_of(w: Seq<(Seq<char>, u64)>, name: Seq<char>) -> Option<u64>
    decreases w.len(),
{
    if w.len() == 0 {
        None
    } else if w[0].0 == name {
        Some(w[0].1)
    } else {
        watcher_of(w.drop_first(), name)
    }
}

/// The watchers of the other objects.
pub open spec fn watchers_without(w: Seq<(Seq<char>, u64)>, name: Seq<char>) -> Seq<
    (Seq<char>, u64),
>
    decreases w.len(),
{
    if w.len() == 0 {
        Seq::empty()
    } else {
        let rest = watchers_without(w.drop_last(), name);
        if w.last().0 == name {
            rest
        } else {
            rest.push(w.last())
        }
    }
}

/// What follows from a change of a `FileWatch` object: a watcher to stop, and one to
/// start.
#[derive(Debug)]
pub struct WatchChange {
    pub stop: Option<u64>,
    pub start: Option<(u64, WatchSpec)>,
}

/// The watchers of the `FileWatch` objects.
#[derive(Debug)]
pub struct FileWatches {
    running: Vec<(String, u64)>,
    next: u64,
}

impl FileWatches {
    /// The watchers that run.
    pub closed spec fn running(self) -> Seq<(Seq<char>, u64)> {
        watchers_view(self.running@)
    }

    /// The number that the next watcher gets.
    pub closed spec fn next(self) -> u64 {
        self.next
    }

    /// Whether the watchers have distinct numbers, all of them given out.
    pub open spec fn ok(self) -> bool {
        &&& forall|i: int| 0 <= i < self.running().len() ==> (#[trigger] self.running()[i]).1
            < self.next()
        &&& forall|i: int, j: int|
            0 <= i < j < self.running().len() ==> (#[trigger] self.running()[i]).1 != (
            #[trigger] self.running()[j]).1 && self.running()[i].0 != self.running()[j].0
    }

    /// No watchers.
    pub fn new() -> (r: FileWatches)
        ensures
            r.running() == Seq::<(Seq<char>, u64)>::empty(),
            r.next() == 0,
            r.ok(),
    {
        let r = FileWatches { running: Vec::new(), next: 0 };
        assert(r.running() =~= Seq::empty());
        r
    }

    /// The number of the watcher of an object.
    pub fn watcher(&self, name: &str) -> (r: Option<u64>)
        ensures
            r == watcher_of(self.running(), name@),
    {
        let ghost all = self.running();
        let mut i: usize = 0;
        assert(all.skip(0) =~= all);
        while i < self.running.len()
            invariant
                i <= self.running@.len(),
                all == watchers_view(self.running@),
                all == self.running(),
                watcher_of(all, name@) == watcher_of(all.skip(i as int), name@),
            decreases self.running@.len() - i,
        {
            assert(all.skip(i as int)[0] == (self.running@[i as int].0@, self.running@[i as int].1));
            assert(all.skip(i as int).drop_first() =~= all.skip(i + 1));
            if same(self.running[i].0.as_str(), name) {
                return Some(self.running[i].1);
            }
            i += 1;
        }
        None
    }

    /// Takes out the watcher of an object; returns its number.
    pub fn stop(&mut self, name: &str) -> (r: Option<u64>)
        requires
            old(self).ok(),
        ensures
            r == watcher_of(old(self).running(), name@),
            final(self).running() == watchers_without(old(self).running(), name@),
            final(self).next() == old(self).next(),
            final(self).ok(),
    {
        let r = self.watcher(name);
        let ghost all = self.running();
        proof {
            watchers_without_ok(all, name@);
        }
        let ghost mut done: int = 0;
        let mut i: usize = 0;
        assert(all =~= watchers_without(all.take(0), name@) + all.skip(0));
        while i < self.running.len()
            invariant
                all == old(self).running(),
                self.next == old(self).next,
                0 <= done <= all.len(),
                i == watchers_without(all.take(done), name@).len(),
                watchers_view(self.running@) == watchers_without(all.take(done), name@)
                    + all.skip(done),
            decreases self.running@.len() - i,
        {
            let ghost before = self.running@;
            let ghost kept = watchers_without(all.take(done), name@);
            proof {
                assert(watchers_view(before)[i as int] == all.skip(done)[0]);
                assert(all.skip(done)[0] == all[done]);
                assert(all.take(done + 1).drop_last() =~= all.take(done));
                assert(all.take(done + 1).last() == all[done]);
            }
            if same(self.running[i].0.as_str(), name) {
                self.running.remove(i);
                assert(watchers_view(self.running@) =~= watchers_view(before).remove(i as int));
                assert(watchers_view(self.running@) =~= kept + all.skip(done + 1));
            } else {
                assert(watchers_view(self.running@) =~= kept.push(all[done]) + all.skip(
                    done + 1,
                ));
                i += 1;
            }
            proof {
                done = done + 1;
            }
        }
        proof {
            let kept = watchers_without(all.take(done), name@);
            assert(watchers_view(self.running@).len() == kept.len() + all.skip(done).len());
            assert(all.take(done) =~= all);
            assert(watchers_view(self.running@) =~= kept);
        }
        r
    }

    /// Starts a watcher for an object, as the object declares, instead of the one that
    /// ran for it. An object that declares no paths has no watcher.
    pub fn start_file_watch(&mut self, name: &str, object: &Json) -> (r: WatchChange)
        requires
            old(self).ok(),
            old(self).next() < u64::MAX,
        ensures
            final(self).ok(),
            r.stop == watcher_of(old(self).running(), name@),
            ({
                let rest = watchers_without(old(self).running(), name@);
                if watch_of(object@).watched.len() == 0 {
                    &&& r.start is None
                    &&& final(self).running() == rest
                    &&& final(self).next() == old(self).next()
                } else {
                    &&& r.start is Some
                    &&& (r.start->0).0 == old(self).next()
                    &&& (r.start->0).1@ == watch_of(object@)
                    &&& final(self).running() == rest.push((name@, old(self).next()))
                    &&& final(self).next() == old(self).next() + 1
                }
            }),
    {
        let stop = self.stop(name);
        let spec = watch_spec(object);
        assert(spec@.watched.len() == spec.watched@.len());
        if spec.watched.len() == 0 {
            return WatchChange { stop, start: None };
        }
        let id: u64 = self.next;
        let ghost before = self.running@;
        self.running.push((owned(name), id));
        self.next = id + 1;
        proof {
            let rest = watchers_view(before);
            assert(self.running() =~= rest.push((name@, id)));
            watchers_without_ok(old(self).running(), name@);
            assert(forall|i: int| 0 <= i < rest.len() ==> self.running()[i] == rest[i]);
        }
        WatchChange { stop, start: Some((id, spec)) }
    }

    /// Takes an event of the object store: a `FileWatch` object that is added or changed
    /// has its watcher started anew, one that is deleted has it stopped.
    pub fn on_event(&mut self, event: &ObjectEvent) -> (r: WatchChange)
        requires
            old(self).ok(),
            old(self).next() < u64::MAX,
        ensures
            final(self).ok(),
            match event@ {
                EventV::Deleted(o) => if o.kind == "FileWatch"@ {
                    &&& r.stop == watcher_of(old(self).running(), o.name) && r.start is None
                    &&& final(self).running() == watchers_without(old(self).running(), o.name)
                    &&& final(self).next() == old(self).next()
                } else {
                    r.stop is None && r.start is None && *final(self) == *old(self)
                },
                EventV::Added(o) => watch_restarted(*old(self), *final(self), o, r),
                EventV::Modified(o) => watch_restarted(*old(self), *final(self), o, r),
            },
    {
        match event {
            ObjectEvent::Deleted(o) => if same(o.kind.as_str(), "FileWatch") {
                WatchChange { stop: self.stop(o.name.as_str()), start: None }
            } else {
                WatchChange { stop: None, start: None }
            },
            ObjectEvent::Added(o) => if same(o.kind.as_str(), "FileWatch") {
                self.start_file_watch(o.name.as_str(), &o.object)
            } else {
                WatchChange { stop: None, start: None }
            },
            ObjectEvent::Modified(o) => if same(o.kind.as_str(), "FileWatch") {
                self.start_file_watch(o.name.as_str(), &o.object)
            } else {
                WatchChange { stop: None, start: None }
            },
        }
    }
}

/// Whether the watcher of an object was started anew, where it is a `FileWatch` object.
pub open spec fn watch_restarted(
    before: FileWatches,
    after: FileWatches,
    o: ObjectV,
    r: WatchChange,
) -> bool {
    let rest = watchers_without(before.running(), o.name);
    if o.kind != "FileWatch"@ {
        r.stop is None && r.start is None && after == before
    } else if watch_of(o.object).watched.len() == 0 {
        &&& r.stop == watcher_of(before.running(), o.name) && r.start is None
        &&& after.running() == rest && after.next() == before.next()
    } else {
        &&& r.stop == watcher_of(before.running(), o.name)
        &&& r.start is Some && (r.start->0).0 == before.next() && (r.start->0).1@ == watch_of(o.object)
        &&& after.running() == rest.push((o.name, before.next()))
        &&& after.next() == before.next() + 1
    }
}

/// Leaving out the watcher of an object leaves the others as they are.
proof fn watchers_without_ok(w: Seq<(Seq<char>, u64)>, name: Seq<char>)
    ensures
        forall|i: int|
            0 <= i < watchers_without(w, name).len() ==> (#[trigger] watchers_without(w, name)[i]).0
                != name && exists|j: int|
                i <= j < w.len() && #[trigger] w[j] == watchers_without(w, name)[i],
        (forall|i: int, j: int|
            0 <= i < j < w.len() ==> (#[trigger] w[i]).1 != (#[trigger] w[j]).1 && w[i].0 != w[j].0)
            ==> (forall|i: int, j: int|
            0 <= i < j < watchers_without(w, name).len() ==> (#[trigger] watchers_without(
                w,
                name,
            )[i]).1 != (#[trigger] watchers_without(w, name)[j]).1 && watchers_without(w, name)[i].0
                != watchers_without(w, name)[j].0),
    decreases w.len(),
{
    if w.len() > 0 {
        let d = w.drop_last();
        let kd = watchers_without(d, name);
        let k = watchers_without(w, name);
        assert(forall|i: int| 0 <= i < d.len() ==> d[i] == w[i]);
        watchers_without_ok(d, name);
        assert forall|i: int| 0 <= i < k.len() implies (#[trigger] k[i]).0 != name && exists|j: int|
            i <= j < w.len() && #[trigger] w[j] == k[i] by {
            if i < kd.len() {
                assert(k[i] == kd[i]);
                let j = choose|j: int| i <= j < d.len() && #[trigger] d[j] == kd[i];
                assert(w[j] == k[i]);
            } else {
                assert(w[w.len() - 1] == k[i]);
                kept_len(d, name);
            }
        }
        if forall|i: int, j: int|
            0 <= i < j < w.len() ==> (#[trigger] w[i]).1 != (#[trigger] w[j]).1 && w[i].0 != w[j].0 {
            assert forall|i: int, j: int| 0 <= i < j < k.len() implies (#[trigger] k[i]).1 != (
            #[trigger] k[j]).1 && k[i].0 != k[j].0 by {
                assert(k[i] == kd[i]);
                if j < kd.len() {
                    assert(k[j] == kd[j]);
                } else {
                    let a = choose|a: int| i <= a < d.len() && #[trigger] d[a] == kd[i];
                    assert(w[a].1 != w[w.len() - 1].1);
                }
            }
        }
    }
}

proof fn kept_len(w: Seq<(Seq<char>, u64)>, name: Seq<char>)
    ensures
        watchers_without(w, name).len() <= w.len(),
    decreases w.len(),
{
    if w.len() > 0 {
        kept_len(w.drop_last(), name);
    }
}

/// A request to build a resource: whether in full, and for which changed files.
#[derive(Debug, PartialEq)]
pub struct BuildRequest {
    pub name: String,
    pub force_full: bool,
    pub changed_paths: Vec<String>,
}

/// A request to build a resource as a mathematical object.
pub struct RequestV {
    pub name: Seq<char>,
    pub force_full: bool,
    pub changed_paths: Seq<Seq<char>>,
}

impl View for BuildRequest {
    type V = RequestV;

    open spec fn view(&self) -> RequestV {
        RequestV {
            name: self.name@,
            force_full: self.force_full,
            changed_paths: texts(self.changed_paths@),
        }
    }
}

impl BuildRequest {
    /// The changed files of the request; nothing where none are known.
    pub fn known_paths(self) -> (r: Option<Vec<String>>)
        ensures
            match r {
                Some(v) => v@ == self.changed_paths@ && v@.len() > 0,
                None => self.changed_paths@.len() == 0,
            },
    {
        if self.changed_paths.len() > 0 {
            Some(self.changed_paths)
        } else {
            None
        }
    }
}

/// What an event on a watched file tells.
#[derive(Debug, Clone, Copy, PartialEq, Eq, Structural)]
pub enum FileEvent {
    Created,
    Modified,
    Removed,
    /// An event that tells of no change, such as a file being opened.
    Other,
}

/// Whether an event is one to rebuild on.
pub fn is_content_event(event: FileEvent) -> (r: bool)
    ensures
        r == (event is Created || event is Modified || event is Removed),
{
    match event {
        FileEvent::Created | FileEvent::Modified | FileEvent::Removed => true,
        FileEvent::Other => false,
    }
}

/// What a burst of changed files leads to.
#[derive(Debug, PartialEq)]
pub enum WatchAction {
    /// Nothing: the rules ignore every one of them.
    Ignore,
    /// The resource is marked as having pending changes.
    MarkPending,
    /// The resource is to be built.
    Build(BuildRequest),
}

/// A changed file: its path as it was told, and with the links in it resolved.
#[derive(Debug)]
pub struct ChangedFile {
    pub path: String,
    pub resolved: String,
}

/// The paths of changed files as they were told.
pub open spec fn told_paths(v: Seq<ChangedFile>) -> Seq<Seq<char>> {
    v.map_values(|f: ChangedFile| f.path@)
}

/// Whether the rules ignore every one of some changed files. The directories of the rules
/// are given with the links in them resolved.
pub open spec fn all_ignored(changed: Seq<ChangedFile>, rules: Seq<IgnoreRule>) -> bool {
    &&& changed.len() > 0
    &&& forall|i: int|
        0 <= i < changed.len() ==> ignored((#[trigger] changed[i]).resolved@, rules)
}

/// Whether one of the changed files calls for a full rebuild.
pub open spec fn any_fallback(changed: Seq<Seq<char>>, fallback: Seq<Seq<char>>) -> bool {
    exists|i: int| 0 <= i < changed.len() && hits_any(#[trigger] changed[i], fallback)
}

/// What is logged of a burst of changed files.
pub open spec fn change_logs(
    name: Seq<char>,
    changed: Seq<ChangedFile>,
    rules: Seq<IgnoreRule>,
    spec: WatchSpec,
    disabled: bool,
) -> Seq<LogV> {
    if all_ignored(changed, rules) {
        seq![log_v(name, Level::Info, "Ignored file change matched ignore rules\n"@)]
    } else {
        let seen = seq![log_v(name, Level::Info, "Detected file change\n"@)];
        if disabled {
            seen.push(log_v(name, Level::Info, "Resource is paused; live reload skipped\n"@))
        } else if !spec.manual && any_fallback(told_paths(changed), texts(spec.fallback_paths@)) {
            seen.push(
                log_v(
                    name,
                    Level::Info,
                    "File change matched fall_back_on; forcing full rebuild\n"@,
                ),
            )
        } else {
            seen
        }
    }
}

/// What a burst of changed files below the paths of a watcher leads to, and what is
/// logged of it. Files that the rules all ignore lead to nothing; a paused resource, or
/// one that is built only when asked, is marked; others are built, in full where a file
/// calls for that. The rules are those of the watcher, with the links in their
/// directories resolved.
pub fn files_changed(
    name: &str,
    spec: &WatchSpec,
    rules: &Vec<IgnoreRule>,
    changed: &Vec<ChangedFile>,
    disabled: bool,
) -> (r: (Vec<LogLine>, WatchAction))
    ensures
        logs(r.0@) == change_logs(name@, changed@, rules@, *spec, disabled),
        match r.1 {
            WatchAction::Ignore => all_ignored(changed@, rules@),
            WatchAction::MarkPending => !all_ignored(changed@, rules@) && (disabled || spec.manual),
            WatchAction::Build(b) => !all_ignored(changed@, rules@) && !disabled && !spec.manual
                && b@ == (RequestV {
                name: name@,
                force_full: any_fallback(told_paths(changed@), texts(spec.fallback_paths@)),
                changed_paths: told_paths(changed@),
            }),
        },
{
    broadcast use logs_push;

    let ghost paths = told_paths(changed@);
    let mut told: Vec<String> = Vec::new();
    let mut log: Vec<LogLine> = Vec::new();
    assert(logs(log@) =~= Seq::empty());
    let mut hidden = changed.len() > 0;
    let mut full = false;
    let mut i: usize = 0;
    assert(texts(told@) =~= paths.take(0));
    while i < changed.len()
        invariant
            i <= changed@.len(),
            paths == told_paths(changed@),
            texts(told@) == paths.take(i as int),
            hidden == (changed@.len() > 0 && forall|j: int|
                0 <= j < i ==> ignored((#[trigger] changed@[j]).resolved@, rules@)),
            full == (exists|j: int|
                0 <= j < i && hits_any(#[trigger] paths[j], texts(spec.fallback_paths@))),
        decreases changed@.len() - i,
    {
        let path = changed[i].path.as_str();
        assert(paths[i as int] == path@);
        let skip = is_ignored_by_rules(changed[i].resolved.as_str(), rules);
        let hit = matches_any_path(path, &spec.fallback_paths);
        hidden = hidden && skip;
        full = full || hit;
        let ghost before = told@;
        told.push(owned(path));
        assert(texts(told@) =~= texts(before).push(path@));
        assert(paths.take(i + 1) =~= paths.take(i as int).push(path@));
        i += 1;
    }
    assert(paths.take(i as int) =~= paths);
    if hidden {
        log.push(line(name, Level::Info, owned("Ignored file change matched ignore rules\n")));
        assert(logs(log@) =~= change_logs(name@, changed@, rules@, *spec, disabled));
        return (log, WatchAction::Ignore);
    }
    assert(!all_ignored(changed@, rules@));
    log.push(line(name, Level::Info, owned("Detected file change\n")));
    if disabled {
        log.push(line(name, Level::Info, owned("Resource is paused; live reload skipped\n")));
        assert(logs(log@) =~= change_logs(name@, changed@, rules@, *spec, disabled));
        return (log, WatchAction::MarkPending);
    }
    if spec.manual {
        assert(logs(log@) =~= change_logs(name@, changed@, rules@, *spec, disabled));
        return (log, WatchAction::MarkPending);
    }
    if full {
        log.push(
            line(
                name,
                Level::Info,
                owned("File change matched fall_back_on; forcing full rebuild\n"),
            ),
        );
    }
    assert(logs(log@) =~= change_logs(name@, changed@, rules@, *spec, disabled));
    (
        log,
        WatchAction::Build(
            BuildRequest { name: owned(name), force_full: full, changed_paths: told },
        ),
    )
}

/// The contents of a list of requests.
pub open spec fn requests(v: Seq<BuildRequest>) -> Seq<RequestV> {
    v.map_values(|r: BuildRequest| r@)
}

/// Two requests for one resource as one: in full where either is, for the changed
/// files of both, in order, each once.
pub open spec fn merged_request(a: RequestV, b: RequestV) -> RequestV {
    RequestV {
        name: a.name,
        force_full: a.force_full || b.force_full,
        changed_paths: paths_sorted(a.changed_paths + b.changed_paths),
    }
}

/// The index of the request for a resource, not before `i`; the number of requests
/// where there is none.
pub open spec fn request_index(v: Seq<RequestV>, name: Seq<char>, i: int) -> int
    decreases v.len() - i,
{
    if i < 0 || i >= v.len() {
        v.len() as int
    } else if v[i].name == name {
        i
    } else {
        request_index(v, name, i + 1)
    }
}

/// The requests with one more: one for the same resource is merged with it.
pub open spec fn coalesced(v: Seq<RequestV>, r: RequestV) -> Seq<RequestV> {
    let i = request_index(v, r.name, 0);
    if i < v.len() {
        v.update(i, merged_request(v[i], r))
    } else {
        v.push(r)
    }
}

/// The requests of a burst: one for each resource, in the order in which the first
/// for each came.
pub open spec fn burst(v: Seq<RequestV>) -> Seq<RequestV>
    decreases v.len(),
{
    if v.len() == 0 {
        Seq::empty()
    } else {
        coalesced(burst(v.drop_last()), v.last())
    }
}

fn add_request(v: &mut Vec<BuildRequest>, r: BuildRequest)
    ensures
        requests(final(v)@) == coalesced(requests(old(v)@), r@),
{
    let ghost all = requests(v@);
    let mut i: usize = 0;
    while i < v.len()
        invariant
            i <= v@.len(),
            *v == *old(v),
            all == requests(v@),
            request_index(all, r.name@, 0) == request_index(all, r.name@, i as int),
        decreases v@.len() - i,
    {
        assert(all[i as int] == v@[i as int]@);
        if same(v[i].name.as_str(), r.name.as_str()) {
            let name = v[i].name.clone();
            let full = v[i].force_full || r.force_full;
            let mut paths = v[i].changed_paths.clone();
            let ghost mine = texts(paths@);
            let ghost extra = r.changed_paths@;
            let mut more = r.changed_paths;
            paths.append(&mut more);
            assert(texts(paths@) =~= mine + texts(extra));
            let merged = BuildRequest {
                name,
                force_full: full,
                changed_paths: sort_paths(paths),
            };
            v.set(i, merged);
            assert(requests(v@) =~= all.update(i as int, merged@));
            return;
        }
        i += 1;
    }
    let ghost rv = r@;
    v.push(r);
    assert(requests(v@) =~= all.push(rv));
}

/// The requests of a burst as one for each resource: in full where one of them is,
/// for the changed files of all of them.
pub fn coalesce(burst_requests: Vec<BuildRequest>) -> (r: Vec<BuildRequest>)
    ensures
        requests(r@) == burst(requests(burst_requests@)),
{
    let ghost all = requests(burst_requests@);
    let mut out: Vec<BuildRequest> = Vec::new();
    let mut i: usize = 0;
    assert(requests(out@) =~= burst(all.take(0)));
    while i < burst_requests.len()
        invariant
            i <= burst_requests@.len(),
            all == requests(burst_requests@),
            requests(out@) == burst(all.take(i as int)),
        decreases burst_requests@.len() - i,
    {
        assert(all.take(i + 1).drop_last() =~= all.take(i as int));
        assert(all.take(i + 1).last() == burst_requests@[i as int]@);
        let b = &burst_requests[i];
        let copy = BuildRequest {
            name: b.name.clone(),
            force_full: b.force_full,
            changed_paths: b.changed_paths.clone(),
        };
        assert(copy@ == b@);
        add_request(&mut out, copy);
        i += 1;
    }
    assert(all.take(i as int) =~= all);
    out
}

proof fn index_found(v: Seq<RequestV>, name: Seq<char>, from: int)
    requires
        0 <= from <= v.len(),
    ensures
        ({
            let i = request_index(v, name, from);
            &&& from <= i <= v.len()
            &&& i < v.len() ==> v[i].name == name
            &&& forall|j: int| from <= j < i ==> (#[trigger] v[j]).name != name
        }),
    decreases v.len() - from,
{
    if from < v.len() && v[from].name != name {
        index_found(v, name, from + 1);
    }
}

/// The changed files of one request that a burst leads to.
proof fn burst_paths_kept(v: Seq<RequestV>, j: int)
    requires
        0 <= j < burst(v).len(),
    ensures
        forall|p: Seq<char>|
            #[trigger] holds_path(burst(v)[j].changed_paths, p) <==> asked_for(
                v,
                burst(v)[j].name,
                p,
            ),
    decreases v.len(),
{
    let d = v.drop_last();
    let x = v.last();
    let b = burst(d);
    let r = burst(v);
    index_found(b, x.name, 0);
    burst_names(d);
    burst_names(v);
    let k = request_index(b, x.name, 0);
    let name = r[j].name;
    assert(v[v.len() - 1] == x);
    assert forall|p: Seq<char>| asked_for(d, name, p) || (x.name == name && holds_path(
        x.changed_paths,
        p,
    )) <==> #[trigger] asked_for(v, name, p) by {
        if asked_for(d, name, p) {
            let i = choose|i: int|
                0 <= i < d.len() && (#[trigger] d[i]).name == name && holds_path(
                    d[i].changed_paths,
                    p,
                );
            assert(v[i] == d[i]);
        }
        if asked_for(v, name, p) {
            let i = choose|i: int|
                0 <= i < v.len() && (#[trigger] v[i]).name == name && holds_path(
                    v[i].changed_paths,
                    p,
                );
            if i < d.len() {
                assert(d[i] == v[i]);
            }
        }
    }
    if j < b.len() {
        burst_paths_kept(d, j);
        if j == k {
            let all = b[j].changed_paths + x.changed_paths;
            assert forall|p: Seq<char>| #[trigger] holds_path(r[j].changed_paths, p) <==> (
            holds_path(b[j].changed_paths, p) || holds_path(x.changed_paths, p)) by {
                sorted_holds(all, p);
                joined_holds(b[j].changed_paths, x.changed_paths, p);
            }
        } else {
            assert(r[j] == b[j]);
            if x.name == name {
                assert(r[k].name == name);
            }
        }
    } else {
        assert(r[j] == x);
        assert forall|p: Seq<char>| !(#[trigger] asked_for(d, name, p)) by {
            if asked_for(d, name, p) {
                let i = choose|i: int|
                    0 <= i < d.len() && (#[trigger] d[i]).name == name && holds_path(
                        d[i].changed_paths,
                        p,
                    );
                assert(names_request(b, d[i].name));
                let h = choose|h: int| 0 <= h < b.len() && (#[trigger] b[h]).name == d[i].name;
                assert(b[h].name != x.name);
            }
        }
    }
}

/// Sorting paths drops none of them and adds none.
proof fn sorted_holds(s: Seq<Seq<char>>, p: Seq<char>)
    ensures
        holds_path(paths_sorted(s), p) <==> holds_path(s, p),
{
    paths_sorted_ok(s);
    let t = paths_sorted(s);
    if holds_path(t, p) {
        let i = choose|i: int| 0 <= i < t.len() && components(#[trigger] t[i]) == components(p);
        assert(s.contains(t[i]));
        let j = choose|j: int| 0 <= j < s.len() && s[j] == t[i];
        assert(components(s[j]) == components(p));
    }
    if holds_path(s, p) {
        let i = choose|i: int| 0 <= i < s.len() && components(#[trigger] s[i]) == components(p);
        assert(holds_path(t, s[i]));
    }
}

proof fn joined_holds(a: Seq<Seq<char>>, b: Seq<Seq<char>>, p: Seq<char>)
    ensures
        holds_path(a + b, p) <==> holds_path(a, p) || holds_path(b, p),
{
    let s = a + b;
    if holds_path(s, p) {
        let i = choose|i: int| 0 <= i < s.len() && components(#[trigger] s[i]) == components(p);
        if i < a.len() {
            assert(a[i] == s[i]);
        } else {
            assert(b[i - a.len()] == s[i]);
        }
    }
    if holds_path(a, p) {
        let i = choose|i: int| 0 <= i < a.len() && components(#[trigger] a[i]) == components(p);
        assert(s[i] == a[i]);
    }
    if holds_path(b, p) {
        let i = choose|i: int| 0 <= i < b.len() && components(#[trigger] b[i]) == components(p);
        assert(s[a.len() + i] == b[i]);
    }
}

/// Whether one of the requests is for the resource and names the file as changed.
pub open spec fn asked_for(v: Seq<RequestV>, name: Seq<char>, path: Seq<char>) -> bool {
    exists|i: int|
        0 <= i < v.len() && (#[trigger] v[i]).name == name && holds_path(v[i].changed_paths, path)
}

/// The request that a burst leads to for a resource names just the changed files that
/// the requests of the burst for that resource name.
pub proof fn burst_keeps_paths(v: Seq<RequestV>)
    ensures
        forall|j: int, p: Seq<char>|
            0 <= j < burst(v).len() ==> (#[trigger] holds_path(burst(v)[j].changed_paths, p)
                <==> asked_for(v, burst(v)[j].name, p)),
{
    assert forall|j: int, p: Seq<char>| 0 <= j < burst(v).len() implies (#[trigger] holds_path(
        burst(v)[j].changed_paths,
        p,
    ) <==> asked_for(v, burst(v)[j].name, p)) by {
        burst_paths_kept(v, j);
    }
}

/// A burst leads to one request for each resource that it names.
proof fn burst_names(v: Seq<RequestV>)
    ensures
        forall|i: int, j: int|
            0 <= i < j < burst(v).len() ==> (#[trigger] burst(v)[i]).name != (#[trigger] burst(
                v,
            )[j]).name,
        forall|i: int| 0 <= i < v.len() ==> names_request(burst(v), (#[trigger] v[i]).name),
        forall|j: int| 0 <= j < burst(v).len() ==> names_request(v, (#[trigger] burst(v)[j]).name),
    decreases v.len(),
{
    if v.len() > 0 {
        let d = v.drop_last();
        let x = v.last();
        let b = burst(d);
        let r = burst(v);
        burst_names(d);
        index_found(b, x.name, 0);
        let k = request_index(b, x.name, 0);
        assert(forall|j: int| 0 <= j < b.len() ==> (#[trigger] r[j]).name == b[j].name);
        if k == b.len() {
            assert(r[k] == x);
        }
        assert forall|i: int| 0 <= i < v.len() implies names_request(r, (#[trigger] v[i]).name) by {
            if i < d.len() {
                assert(d[i] == v[i]);
                assert(names_request(b, d[i].name));
                let j = choose|j: int| 0 <= j < b.len() && (#[trigger] b[j]).name == d[i].name;
                assert(r[j].name == v[i].name);
            } else {
                assert(r[k].name == v[i].name);
            }
        }
        assert forall|j: int| 0 <= j < r.len() implies names_request(v, (#[trigger] r[j]).name) by {
            if j < b.len() {
                assert(names_request(d, b[j].name));
                let i = choose|i: int| 0 <= i < d.len() && (#[trigger] d[i]).name == b[j].name;
                assert(v[i].name == r[j].name);
            } else {
                assert(v[v.len() - 1].name == r[j].name);
            }
        }
    }
}

/// Whether one of the requests is for the resource.
pub open spec fn names_request(v: Seq<RequestV>, name: Seq<char>) -> bool {
    exists|j: int| 0 <= j < v.len() && (#[trigger] v[j]).name == name
}

/// Whether one of the requests is for the resource, and in full.
pub open spec fn asked_in_full(v: Seq<RequestV>, name: Seq<char>) -> bool {
    exists|i: int| 0 <= i < v.len() && (#[trigger] v[i]).name == name && v[i].force_full
}

/// Whether one request that a burst leads to is in full.
proof fn burst_full(v: Seq<RequestV>, j: int)
    requires
        0 <= j < burst(v).len(),
    ensures
        burst(v)[j].force_full <==> asked_in_full(v, burst(v)[j].name),
    decreases v.len(),
{
    let d = v.drop_last();
    let x = v.last();
    let b = burst(d);
    let r = burst(v);
    let name = r[j].name;
    burst_names(d);
    burst_names(v);
    index_found(b, x.name, 0);
    let k = request_index(b, x.name, 0);
    assert(v[v.len() - 1] == x);
    assert(asked_in_full(v, name) <==> asked_in_full(d, name) || (x.name == name && x.force_full))
        by {
        if asked_in_full(d, name) {
            let i = choose|i: int|
                0 <= i < d.len() && (#[trigger] d[i]).name == name && d[i].force_full;
            assert(v[i] == d[i]);
        }
        if asked_in_full(v, name) {
            let i = choose|i: int|
                0 <= i < v.len() && (#[trigger] v[i]).name == name && v[i].force_full;
            if i < d.len() {
                assert(d[i] == v[i]);
            }
        }
    }
    if j < b.len() {
        burst_full(d, j);
        if j != k {
            assert(r[j] == b[j]);
            if x.name == name {
                assert(r[k].name == name);
            }
        }
    } else {
        assert(r[j] == x);
        if asked_in_full(d, name) {
            let i = choose|i: int|
                0 <= i < d.len() && (#[trigger] d[i]).name == name && d[i].force_full;
            assert(names_request(b, d[i].name));
            let h = choose|h: int| 0 <= h < b.len() && (#[trigger] b[h]).name == d[i].name;
            assert(b[h].name != x.name);
        }
    }
}

/// A burst leads to one request for each resource that it names, and for no other, which
/// is in full if and only if one of the burst for that resource is.
pub proof fn burst_once(v: Seq<RequestV>)
    ensures
        forall|i: int, j: int|
            0 <= i < j < burst(v).len() ==> (#[trigger] burst(v)[i]).name != (#[trigger] burst(
                v,
            )[j]).name,
        forall|i: int| 0 <= i < v.len() ==> names_request(burst(v), (#[trigger] v[i]).name),
        forall|j: int| 0 <= j < burst(v).len() ==> names_request(v, (#[trigger] burst(v)[j]).name),
        forall|j: int|
            0 <= j < burst(v).len() ==> ((#[trigger] burst(v)[j]).force_full <==> asked_in_full(
                v,
                burst(v)[j].name,
            )),
{
    burst_names(v);
    assert forall|j: int| 0 <= j < burst(v).len() implies ((#[trigger] burst(v)[j]).force_full
        <==> asked_in_full(v, burst(v)[j].name)) by {
        burst_full(v, j);
    }
}

proof fn texts_listed(v: Seq<Seq<char>>)
    ensures
        text_values(items(text_list(v))) == v,
    decreases v.len(),
{
    let l = items(text_list(v));
    if v.len() > 0 {
        texts_listed(v.drop_last());
        assert(l.drop_last() =~= items(text_list(v.drop_last())));
        assert(l.last() == JsonV::Text(v.last()));
        assert(v =~= v.drop_last().push(v.last()));
    } else {
        assert(v =~= Seq::empty());
    }
}

proof fn rules_listed(v: Seq<IgnoreRule>)
    ensures
        entries_rules(v.map_values(|r: IgnoreRule| ignore_entry(r))) == rules_view(v),
    decreases v.len(),
{
    let l = v.map_values(|r: IgnoreRule| ignore_entry(r));
    if v.len() > 0 {
        let x = v.last();
        rules_listed(v.drop_last());
        assert(l.drop_last() =~= v.drop_last().map_values(|r: IgnoreRule| ignore_entry(r)));
        assert(l.last() == ignore_entry(x));
        reveal_strlit("basePath");
        reveal_strlit("patterns");
        assert("basePath"@[0] != "patterns"@[0]);
        let e = one("basePath"@, txt(x.base@));
        let entries = e->Table_0;
        lookup_put(Seq::empty(), "basePath"@, txt(x.base@), "basePath"@);
        lookup_put(entries, "patterns"@, JsonV::List(seq![txt(x.pattern@)]), "basePath"@);
        lookup_put(entries, "patterns"@, JsonV::List(seq![txt(x.pattern@)]), "patterns"@);
        let t = seq![txt(x.pattern@)];
        assert(text_values(t.drop_last()) =~= Seq::empty());
        assert(text_values(t) =~= seq![x.pattern@]);
        assert(entry_rules(l.last()) =~= seq![(x.base@, x.pattern@)]);
        assert(rules_view(v) =~= rules_view(v.drop_last()) + seq![(x.base@, x.pattern@)]);
    } else {
        assert(l =~= Seq::empty());
        assert(rules_view(v) =~= Seq::empty());
    }
}

/// A watcher that is started from the `FileWatch` object of a resource watches the
/// files, ignores what the rules of the resource ignore, and builds when the resource
/// says so.
pub proof fn watch_round_trip(m: Manifest)
    ensures
        watch_of(file_watch(m)) == (WatchV {
            watched: texts(m.deps@),
            ignores: rules_view(m.ignore_rules@),
            fallback_paths: fallback_paths(m.live_update@),
            manual: !builds_on_change(m.trigger_mode),
        }),
{
    let deps = text_list(texts(m.deps@));
    let rules = JsonV::List(m.ignore_rules@.map_values(|r: IgnoreRule| ignore_entry(r)));
    let manual = JsonV::Bool(!builds_on_change(m.trigger_mode));
    let fallback = text_list(fallback_paths(m.live_update@));
    reveal_strlit("watchedPaths");
    reveal_strlit("ignores");
    reveal_strlit("manual");
    reveal_strlit("fallbackPaths");
    assert("watchedPaths"@[0] == 'w' && "ignores"@[0] == 'i' && "manual"@[0] == 'm'
        && "fallbackPaths"@[0] == 'f');
    let a = one("watchedPaths"@, deps);
    let b = with_key(a, "ignores"@, rules);
    let c = with_key(b, "manual"@, manual);
    let d = with_key(c, "fallbackPaths"@, fallback);
    lookup_put(Seq::empty(), "watchedPaths"@, deps, "watchedPaths"@);
    lookup_put(a->Table_0, "ignores"@, rules, "ignores"@);
    lookup_put(a->Table_0, "ignores"@, rules, "watchedPaths"@);
    lookup_put(b->Table_0, "manual"@, manual, "manual"@);
    lookup_put(b->Table_0, "manual"@, manual, "ignores"@);
    lookup_put(b->Table_0, "manual"@, manual, "watchedPaths"@);
    lookup_put(c->Table_0, "fallbackPaths"@, fallback, "fallbackPaths"@);
    lookup_put(c->Table_0, "fallbackPaths"@, fallback, "manual"@);
    lookup_put(c->Table_0, "fallbackPaths"@, fallback, "ignores"@);
    lookup_put(c->Table_0, "fallbackPaths"@, fallback, "watchedPaths"@);
    lookup_put(Seq::empty(), "spec"@, d, "spec"@);
    texts_listed(texts(m.deps@));
    texts_listed(fallback_paths(m.live_update@));
    rules_listed(m.ignore_rules@);
}

/// The directory that holds a file, component by component; a dot for the current
/// one.
pub open spec fn directory_of(path: Seq<char>) -> Seq<char> {
    let c = components(path);
    if c.len() <= 1 {
        if c.len() == 1 && c[0] == "/"@ {
            "/"@
        } else {
            "."@
        }
    } else if c[0] == "/"@ {
        "/"@ + join(c.subrange(1, c.len() - 1), "/"@)
    } else {
        join(c.subrange(0, c.len() - 1), "/"@)
    }
}

/// The directory that holds a file.
pub fn directory_holding(path: &str) -> (r: String)
    ensures
        r@ == directory_of(path@),
{
    broadcast use texts_push;

    let c = components_of(path);
    let ghost all = texts(c@);
    let n: usize = c.len();
    if n == 0 {
        return owned(".");
    }
    assert(all[0] == c@[0]@);
    let rooted = same(c[0].as_str(), "/");
    if n == 1 {
        return if rooted {
            owned("/")
        } else {
            owned(".")
        };
    }
    let start: usize = if rooted {
        1
    } else {
        0
    };
    let mut parts: Vec<String> = Vec::new();
    let mut i: usize = start;
    assert(texts(parts@) =~= all.subrange(start as int, start as int));
    while i < n - 1
        invariant
            n == c@.len(),
            n >= 2,
            start <= i <= n - 1,
            all == texts(c@),
            texts(parts@) == all.subrange(start as int, i as int),
        decreases n - i,
    {
        parts.push(c[i].clone());
        assert(all.subrange(start as int, i + 1) =~= all.subrange(start as int, i as int).push(
            all[i as int],
        ));
        i += 1;
    }
    let rest = joined(&parts, "/");
    if rooted {
        cat("/", rest.as_str())
    } else {
        rest
    }
}

/// The directories that hold files.
pub open spec fn directories(files: Seq<Seq<char>>) -> Seq<Seq<char>> {
    files.map_values(|f: Seq<char>| directory_of(f))
}

/// The directories to watch for changes of config files: those that hold them, in
/// order, each once.
pub fn config_directories(files: &Vec<String>) -> (r: Vec<String>)
    ensures
        texts(r@) == paths_sorted(directories(texts(files@))),
{
    broadcast use texts_push;

    let ghost all = directories(texts(files@));
    let mut v: Vec<String> = Vec::new();
    let mut i: usize = 0;
    assert(texts(v@) =~= all.take(0));
    while i < files.len()
        invariant
            i <= files@.len(),
            all == directories(texts(files@)),
            texts(v@) == all.take(i as int),
        decreases files@.len() - i,
    {
        v.push(directory_holding(files[i].as_str()));
        assert(all[i as int] == directory_of(files@[i as int]@));
        assert(all.take(i + 1) =~= all.take(i as int).push(all[i as int]));
        i += 1;
    }
    assert(all.take(i as int) =~= all);
    sort_paths(v)
}

/// Whether one of the paths is that of a config file.
pub open spec fn touches(files: Seq<Seq<char>>, paths: Seq<Seq<char>>) -> bool {
    exists|i: int| 0 <= i < paths.len() && holds_path(files, #[trigger] paths[i])
}

/// Whether a change touches a config file. Both are given with the links in them
/// resolved; for a change its path as it came is given too.
pub fn touches_config(files: &Vec<String>, paths: &Vec<String>) -> (r: bool)
    ensures
        r == touches(texts(files@), texts(paths@)),
{
    let mut i: usize = 0;
    while i < paths.len()
        invariant
            i <= paths@.len(),
            forall|j: int|
                0 <= j < i ==> !holds_path(texts(files@), #[trigger] texts(paths@)[j]),
        decreases paths@.len() - i,
    {
        let path = paths[i].as_str();
        assert(texts(paths@)[i as int] == path@);
        let mut k: usize = 0;
        while k < files.len()
            invariant
                k <= files@.len(),
                i < paths@.len(),
                texts(paths@)[i as int] == path@,
                forall|j: int|
                    0 <= j < k ==> components(#[trigger] texts(files@)[j]) != components(path@),
            decreases files@.len() - k,
        {
            assert(texts(files@)[k as int] == files@[k as int]@);
            if same_path(files[k].as_str(), path) {
                assert(holds_path(texts(files@), texts(paths@)[i as int]));
                return true;
            }
            k += 1;
        }
        i += 1;
    }
    false
}

} // verus!
