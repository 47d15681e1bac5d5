//! What changed API objects ask of the engine, and what the engine records on them.

use vstd::prelude::*;
use vstd::string::*;

use crate::api::store::{EventV, ObjectEvent, ObjectV, StoredObject};
use crate::daemon::state::among;
use crate::engine::log::{line, log_v, Level, LogLine, LogV};
use crate::engine::objects::{disable_config_map, one, txt};
use crate::json::{as_text, at, items, list_view, list_view_items, lookup_put, text_or, Json, JsonV};
use crate::text::{
    cat, cat3, opt_text, owned, same, strip_suffix, texts, texts_push, without_suffix,
};

verus! {

/// The object of an event that adds or changes one.
pub open spec fn changed_object(event: EventV) -> Option<ObjectV> {
    match event {
        EventV::Added(o) => Some(o),
        EventV::Modified(o) => Some(o),
        EventV::Deleted(_) => None,
    }
}

fn changed<'a>(event: &'a ObjectEvent) -> (r: Option<&'a StoredObject>)
    ensures
        match r {
            Some(o) => changed_object(event@) == Some(o@),
            None => changed_object(event@) is None,
        },
{
    match event {
        ObjectEvent::Added(o) => Some(o),
        ObjectEvent::Modified(o) => Some(o),
        ObjectEvent::Deleted(_) => None,
    }
}

/// The resource that an event asks to build: the object carries a force-trigger
/// annotation that is not empty. Deletions never ask.
pub open spec fn force_trigger(event: EventV) -> Option<Seq<char>> {
    match changed_object(event) {
        Some(o) => {
            let mark = at(
                at(at(o.object, "metadata"@), "annotations"@),
                "tilt.dev/force-trigger"@,
            );
            if mark is Text && mark->Text_0.len() > 0 {
                Some(o.name)
            } else {
                None
            }
        },
        None => None,
    }
}

/// The resource that an event asks to build.
pub fn force_trigger_target(event: &ObjectEvent) -> (r: Option<String>)
    ensures
        opt_text(r) == force_trigger(event@),
{
    match changed(event) {
        Some(o) => match o.object.at("metadata").at("annotations").at(
            "tilt.dev/force-trigger",
        ).as_str() {
            Some(s) => if s.is_empty() {
                None
            } else {
                Some(o.name.clone())
            },
            None => None,
        },
        None => None,
    }
}

/// The resource that an event disables or enables: a `ConfigMap` named after it says
/// so.
pub open spec fn disable_change(event: EventV) -> Option<(Seq<char>, bool)> {
    match changed_object(event) {
        Some(o) => if o.kind == "ConfigMap"@ {
            match (
                without_suffix(o.name, "-disable"@),
                as_text(at(at(o.object, "data"@), "isDisabled"@)),
            ) {
                (Some(resource), Some(value)) => Some((resource, value == "true"@)),
                _ => None,
            }
        } else {
            None
        },
        None => None,
    }
}

/// A `ConfigMap` object that the config is mirrored into says of its resource, and of
/// no other, what it was written with.
pub proof fn disable_round_trip(o: ObjectV, resource: Seq<char>, disabled: bool)
    requires
        o.kind == "ConfigMap"@,
        o.name == resource + "-disable"@,
        at(o.object, "data"@) == at(disable_config_map(disabled), "data"@),
    ensures
        disable_change(EventV::Added(o)) == Some((resource, disabled)),
        disable_change(EventV::Modified(o)) == Some((resource, disabled)),
        disable_change(EventV::Deleted(o)) is None,
{
    reveal_strlit("true");
    reveal_strlit("false");
    assert("true"@.len() != "false"@.len());
    let value = txt(
        if disabled {
            "true"@
        } else {
            "false"@
        },
    );
    lookup_put(Seq::empty(), "isDisabled"@, value, "isDisabled"@);
    lookup_put(Seq::empty(), "data"@, one("isDisabled"@, value), "data"@);
    let end = "-disable"@;
    assert(o.name.skip(o.name.len() - end.len()) =~= end);
    assert(o.name.take(o.name.len() - end.len()) =~= resource);
}

/// The resource that an event disables or enables, and which of the two.
pub fn disable_change_from_event(event: &ObjectEvent) -> (r: Option<(String, bool)>)
    ensures
        match r {
            Some((s, d)) => disable_change(event@) == Some((s@, d)),
            None => disable_change(event@) is None,
        },
{
    match changed(event) {
        Some(o) => {
            if !same(o.kind.as_str(), "ConfigMap") {
                return None;
            }
            match strip_suffix(o.name.as_str(), "-disable") {
                Some(resource) => match o.object.at("data").at("isDisabled").as_str() {
                    Some(value) => Some((resource, same(value, "true"))),
                    None => None,
                },
                None => None,
            }
        },
        None => None,
    }
}

/// What an entry of a trigger queue names, and the mark that tells its requests
/// apart.
pub open spec fn queue_entry(e: JsonV) -> Option<(Seq<char>, Seq<char>)> {
    match e {
        JsonV::Text(s) => Some((s, Seq::empty())),
        JsonV::Table(_) => Some(
            (text_or(at(e, "name"@), Seq::empty()), text_or(at(e, "nonce"@), Seq::empty())),
        ),
        _ => None,
    }
}

/// What is remembered of an entry.
pub open spec fn queue_mark(name: Seq<char>, nonce: Seq<char>) -> Seq<char> {
    name + ":"@ + nonce
}

/// The resources that entries ask to build and the marks remembered after them: each
/// request is heard once.
pub open spec fn heard(entries: Seq<JsonV>, seen: Seq<Seq<char>>) -> (
    Seq<Seq<char>>,
    Seq<Seq<char>>,
)
    decreases entries.len(),
{
    if entries.len() == 0 {
        (Seq::empty(), seen)
    } else {
        let (names, marks) = heard(entries.drop_last(), seen);
        match queue_entry(entries.last()) {
            Some((name, nonce)) => if name.len() == 0 || marks.contains(queue_mark(name, nonce)) {
                (names, marks)
            } else {
                (names.push(name), marks.push(queue_mark(name, nonce)))
            },
            None => (names, marks),
        }
    }
}

/// The entries of the queue of an event's object; none where it is no trigger queue.
pub open spec fn queue_of(event: EventV) -> Seq<JsonV> {
    match changed_object(event) {
        Some(o) => if o.kind == "TriggerQueue"@ {
            items(at(at(o.object, "spec"@), "queue"@))
        } else {
            Seq::empty()
        },
        None => Seq::empty(),
    }
}

/// Which requests of the trigger queue were heard already.
#[derive(Debug)]
pub struct TriggerQueueReconciler {
    pub seen: Vec<String>,
}

fn text_or_blank<'a>(v: &'a Json) -> (r: &'a str)
    ensures
        r@ == text_or(v@, Seq::empty()),
{
    proof {
        reveal_strlit("");
        assert(""@ =~= Seq::empty());
    }
    v.str_or("")
}

fn entry_parts(e: &Json) -> (r: Option<(String, String)>)
    ensures
        match r {
            Some((n, m)) => queue_entry(e@) == Some((n@, m@)),
            None => queue_entry(e@) is None,
        },
{
    match e {
        Json::Text(s) => Some((s.clone(), String::new())),
        Json::Table(_) => Some(
            (owned(text_or_blank(e.at("name"))), owned(text_or_blank(e.at("nonce")))),
        ),
        _ => None,
    }
}

impl TriggerQueueReconciler {
    /// Nothing was heard yet.
    pub fn new() -> (r: TriggerQueueReconciler)
        ensures
            r.seen@.len() == 0,
    {
        TriggerQueueReconciler { seen: Vec::new() }
    }

    /// The resources that an event of the trigger queue asks to build. A name with
    /// the same mark is heard once.
    pub fn reconcile(&mut self, event: &ObjectEvent) -> (r: Vec<String>)
        ensures
            (texts(r@), texts(final(self).seen@)) == heard(
                queue_of(event@),
                texts(old(self).seen@),
            ),
    {
        broadcast use texts_push;

        let mut r: Vec<String> = Vec::new();
        assert(texts(r@) =~= Seq::empty());
        let o: &StoredObject = match changed(event) {
            Some(o) => o,
            None => {
                return r;
            },
        };
        if !same(o.kind.as_str(), "TriggerQueue") {
            return r;
        }
        match o.object.at("spec").at("queue").as_list() {
            Some(v) => {
                let ghost all = list_view(v@);
                let ghost seen0 = texts(self.seen@);
                proof {
                    list_view_items(v@);
                }
                let mut i: usize = 0;
                assert(all.take(0).len() == 0);
                while i < v.len()
                    invariant
                        i <= v@.len(),
                        all == list_view(v@),
                        all.len() == v@.len(),
                        forall|j: int| 0 <= j < v@.len() ==> (#[trigger] all[j]) == v@[j]@,
                        (texts(r@), texts(self.seen@)) == heard(all.take(i as int), seen0),
                    decreases v@.len() - i,
                {
                    proof {
                        assert(all.take(i + 1).drop_last() =~= all.take(i as int));
                        assert(all.take(i + 1).last() == all[i as int]);
                    }
                    if let Some((name, nonce)) = entry_parts(&v[i]) {
                        if !name.as_str().is_empty() {
                            let mark = cat3(name.as_str(), ":", nonce.as_str());
                            if !among(mark.as_str(), &self.seen) {
                                self.seen.push(mark);
                                r.push(name);
                            }
                        }
                    }
                    i += 1;
                }
                assert(all.take(i as int) =~= all);
                r
            },
            None => r,
        }
    }
}

/// A request that was heard is not heard again: where all marks of the entries are
/// remembered, nothing is asked for.
pub proof fn heard_once(entries: Seq<JsonV>, seen: Seq<Seq<char>>)
    ensures
        heard(entries, heard(entries, seen).1).0 == Seq::<Seq<char>>::empty(),
        heard(entries, heard(entries, seen).1).1 == heard(entries, seen).1,
{
    let marks = heard(entries, seen).1;
    marks_remembered(entries, seen);
    nothing_new(entries, marks);
}

/// Whether the mark of an entry, if it has one, is remembered.
spec fn remembered(e: JsonV, marks: Seq<Seq<char>>) -> bool {
    match queue_entry(e) {
        Some((name, nonce)) => name.len() == 0 || marks.contains(queue_mark(name, nonce)),
        None => true,
    }
}

proof fn marks_grow(entries: Seq<JsonV>, seen: Seq<Seq<char>>)
    ensures
        forall|x: Seq<char>| seen.contains(x) ==> #[trigger] heard(entries, seen).1.contains(x),
    decreases entries.len(),
{
    if entries.len() > 0 {
        marks_grow(entries.drop_last(), seen);
        let before = heard(entries.drop_last(), seen).1;
        let after = heard(entries, seen).1;
        assert forall|x: Seq<char>| seen.contains(x) implies #[trigger] after.contains(x) by {
            assert(before.contains(x));
            let i = choose|i: int| 0 <= i < before.len() && before[i] == x;
            assert(after[i] == x);
        }
    }
}

proof fn marks_remembered(entries: Seq<JsonV>, seen: Seq<Seq<char>>)
    ensures
        forall|i: int|
            0 <= i < entries.len() ==> remembered(#[trigger] entries[i], heard(entries, seen).1),
    decreases entries.len(),
{
    if entries.len() > 0 {
        let d = entries.drop_last();
        let before = heard(d, seen).1;
        let after = heard(entries, seen).1;
        marks_remembered(d, seen);
        assert forall|i: int| 0 <= i < entries.len() implies remembered(
            #[trigger] entries[i],
            after,
        ) by {
            if i < d.len() {
                assert(d[i] == entries[i]);
                assert(remembered(d[i], before));
                if let Some((name, nonce)) = queue_entry(d[i]) {
                    if name.len() > 0 {
                        let k = choose|k: int|
                            0 <= k < before.len() && before[k] == queue_mark(name, nonce);
                        assert(after[k] == queue_mark(name, nonce));
                    }
                }
            } else if let Some((name, nonce)) = queue_entry(entries.last()) {
                if name.len() > 0 && !before.contains(queue_mark(name, nonce)) {
                    assert(after[before.len() as int] == queue_mark(name, nonce));
                }
            }
        }
    }
}

proof fn nothing_new(entries: Seq<JsonV>, marks: Seq<Seq<char>>)
    requires
        forall|i: int| 0 <= i < entries.len() ==> remembered(#[trigger] entries[i], marks),
    ensures
        heard(entries, marks) == (Seq::<Seq<char>>::empty(), marks),
    decreases entries.len(),
{
    if entries.len() > 0 {
        let d = entries.drop_last();
        assert(forall|i: int| 0 <= i < d.len() ==> d[i] == entries[i]);
        nothing_new(d, marks);
        assert(remembered(entries[entries.len() - 1], marks));
    }
}

/// What an event makes the engine do.
#[derive(Debug)]
pub enum Effect {
    /// Queue a build of the resource.
    Trigger(String),
    /// Disable or enable the resource, and log it.
    SetDisabled { resource: String, disabled: bool, log: LogLine },
}

/// An effect as a mathematical object.
pub enum EffectV {
    Trigger(Seq<char>),
    SetDisabled { resource: Seq<char>, disabled: bool, log: LogV },
}

impl View for Effect {
    type V = EffectV;

    open spec fn view(&self) -> EffectV {
        match self {
            Effect::Trigger(n) => EffectV::Trigger(n@),
            Effect::SetDisabled { resource, disabled, log } => EffectV::SetDisabled {
                resource: resource@,
                disabled: *disabled,
                log: log@,
            },
        }
    }
}

/// The contents of a list of effects.
pub open spec fn effects_view(v: Seq<Effect>) -> Seq<EffectV> {
    v.map_values(|e: Effect| e@)
}

/// A kind of reconciler: what part of an event it looks at.
#[derive(Debug, Clone, Copy, PartialEq, Eq, Structural)]
pub enum Reconciler {
    /// A force-trigger annotation queues a build.
    ForceTrigger,
    /// A `ConfigMap` disables or enables its resource, where that is a change.
    DisableConfigMap,
    /// The trigger queue queues builds.
    TriggerQueue,
}

/// Whether a resource is disabled; nothing where there is no such resource.
pub open spec fn disabled_state(known: Seq<(Seq<char>, bool)>, name: Seq<char>) -> Option<bool>
    decreases known.len(),
{
    if known.len() == 0 {
        None
    } else if known[0].0 == name {
        Some(known[0].1)
    } else {
        disabled_state(known.drop_first(), name)
    }
}

/// The contents of a list of resources and whether they are disabled.
pub open spec fn known_view(v: Seq<(String, bool)>) -> Seq<(Seq<char>, bool)> {
    v.map_values(|e: (String, bool)| (e.0@, e.1))
}

fn is_disabled(known: &Vec<(String, bool)>, name: &str) -> (r: Option<bool>)
    ensures
        r == disabled_state(known_view(known@), name@),
{
    let ghost all = known_view(known@);
    let mut i: usize = 0;
    assert(all.skip(0) =~= all);
    while i < known.len()
        invariant
            i <= known@.len(),
            all == known_view(known@),
            disabled_state(all, name@) == disabled_state(all.skip(i as int), name@),
        decreases known@.len() - i,
    {
        assert(all.skip(i as int)[0] == (known@[i as int].0@, known@[i as int].1));
        assert(all.skip(i as int).drop_first() =~= all.skip(i + 1));
        if same(known[i].0.as_str(), name) {
            return Some(known[i].1);
        }
        i += 1;
    }
    None
}

/// The effects of one reconciler and the marks that it remembers.
pub open spec fn effects_of(
    which: Reconciler,
    event: EventV,
    known: Seq<(Seq<char>, bool)>,
    seen: Seq<Seq<char>>,
) -> (Seq<EffectV>, Seq<Seq<char>>) {
    match which {
        Reconciler::ForceTrigger => match force_trigger(event) {
            Some(n) => (seq![EffectV::Trigger(n)], seen),
            None => (Seq::empty(), seen),
        },
        Reconciler::DisableConfigMap => match disable_change(event) {
            Some((resource, disabled)) => if disabled_state(known, resource) == Some(!disabled) {
                (
                    seq![
                        EffectV::SetDisabled {
                            resource,
                            disabled,
                            log: log_v(
                                resource,
                                Level::Info,
                                (if disabled {
                                    "Disabled"@
                                } else {
                                    "Enabled"@
                                }) + " via API ConfigMap\n"@,
                            ),
                        },
                    ],
                    seen,
                )
            } else {
                (Seq::empty(), seen)
            },
            None => (Seq::empty(), seen),
        },
        Reconciler::TriggerQueue => {
            let (names, marks) = heard(queue_of(event), seen);
            (names.map_values(|n: Seq<char>| EffectV::Trigger(n)), marks)
        },
    }
}

/// The effects of reconcilers, in order, and the marks remembered after them.
pub open spec fn dispatched(
    rs: Seq<Reconciler>,
    event: EventV,
    known: Seq<(Seq<char>, bool)>,
    seen: Seq<Seq<char>>,
) -> (Seq<EffectV>, Seq<Seq<char>>)
    decreases rs.len(),
{
    if rs.len() == 0 {
        (Seq::empty(), seen)
    } else {
        let (before, marks) = dispatched(rs.drop_last(), event, known, seen);
        let (more, after) = effects_of(rs.last(), event, known, marks);
        (before + more, after)
    }
}

/// The reconcilers that see every event, in order.
#[derive(Debug)]
pub struct Reconcilers {
    items: Vec<Reconciler>,
    queue: TriggerQueueReconciler,
}

impl Reconcilers {
    /// The reconcilers, in order.
    pub closed spec fn order(self) -> Seq<Reconciler> {
        self.items@
    }

    /// The requests of the trigger queue that were heard.
    pub closed spec fn marks(self) -> Seq<Seq<char>> {
        texts(self.queue.seen@)
    }

    /// No reconcilers.
    pub fn new() -> (r: Reconcilers)
        ensures
            r.order() == Seq::<Reconciler>::empty(),
            r.marks() == Seq::<Seq<char>>::empty(),
    {
        let r = Reconcilers { items: Vec::new(), queue: TriggerQueueReconciler::new() };
        assert(r.marks() =~= Seq::empty());
        r
    }

    /// Adds a reconciler behind the others.
    pub fn register(&mut self, r: Reconciler)
        ensures
            final(self).order() == old(self).order().push(r),
            final(self).marks() == old(self).marks(),
    {
        self.items.push(r);
    }

    /// The number of reconcilers.
    pub fn len(&self) -> (r: usize)
        ensures
            r == self.order().len(),
    {
        self.items.len()
    }

    /// Shows an event to all reconcilers, in order, and returns what the engine is to
    /// do. `known` lists the resources and whether they are disabled.
    pub fn dispatch(&mut self, event: &ObjectEvent, known: &Vec<(String, bool)>) -> (r: Vec<Effect>)
        ensures
            (effects_view(r@), final(self).marks()) == dispatched(
                old(self).order(),
                event@,
                known_view(known@),
                old(self).marks(),
            ),
            final(self).order() == old(self).order(),
    {
        let mut r: Vec<Effect> = Vec::new();
        let mut i: usize = 0;
        let ghost rs = self.items@;
        let ghost kv = known_view(known@);
        let ghost seen0 = self.marks();
        assert(effects_view(r@) =~= Seq::empty());
        assert(rs.take(0).len() == 0);
        while i < self.items.len()
            invariant
                i <= self.items@.len(),
                self.items@ == rs,
                kv == known_view(known@),
                (effects_view(r@), self.marks()) == dispatched(
                    rs.take(i as int),
                    event@,
                    kv,
                    seen0,
                ),
            decreases self.items@.len() - i,
        {
            proof {
                assert(rs.take(i + 1).drop_last() =~= rs.take(i as int));
                assert(rs.take(i + 1).last() == rs[i as int]);
            }
            let ghost before = r@;
            let ghost marks = self.marks();
            match self.items[i] {
                Reconciler::ForceTrigger => {
                    match force_trigger_target(event) {
                        Some(n) => {
                            let e = Effect::Trigger(n);
                            r.push(e);
                            assert(effects_view(r@) =~= effects_view(before) + seq![e@]);
                        },
                        None => {
                            assert(effects_view(r@) =~= effects_view(before) + Seq::empty());
                        },
                    }
                },
                Reconciler::DisableConfigMap => {
                    let change = disable_change_from_event(event);
                    let mut done = false;
                    if let Some((resource, disabled)) = change {
                        if is_disabled(known, resource.as_str()) == Some(!disabled) {
                            let what = if disabled {
                                "Disabled"
                            } else {
                                "Enabled"
                            };
                            let log = line(
                                resource.as_str(),
                                Level::Info,
                                cat(what, " via API ConfigMap\n"),
                            );
                            let e = Effect::SetDisabled { resource, disabled, log };
                            r.push(e);
                            assert(effects_view(r@) =~= effects_view(before) + seq![e@]);
                            done = true;
                        }
                    }
                    if !done {
                        assert(effects_view(r@) =~= effects_view(before) + Seq::empty());
                    }
                },
                Reconciler::TriggerQueue => {
                    let names = self.queue.reconcile(event);
                    push_triggers(&mut r, names);
                },
            }
            i += 1;
        }
        assert(rs.take(i as int) =~= rs);
        r
    }
}

fn push_triggers(r: &mut Vec<Effect>, names: Vec<String>)
    ensures
        effects_view(final(r)@) == effects_view(old(r)@) + texts(names@).map_values(
            |n: Seq<char>| EffectV::Trigger(n),
        ),
{
    let ghost all = texts(names@).map_values(|n: Seq<char>| EffectV::Trigger(n));
    let ghost before = effects_view(r@);
    let mut i: usize = 0;
    assert(effects_view(r@) =~= before + all.take(0));
    while i < names.len()
        invariant
            i <= names@.len(),
            all == texts(names@).map_values(|n: Seq<char>| EffectV::Trigger(n)),
            effects_view(r@) == before + all.take(i as int),
        decreases names@.len() - i,
    {
        let e = Effect::Trigger(names[i].clone());
        let ghost mid = r@;
        r.push(e);
        proof {
            assert(effects_view(r@) =~= effects_view(mid).push(e@));
            assert(all[i as int] == e@);
            assert(before + all.take(i + 1) =~= (before + all.take(i as int)).push(e@));
        }
        i += 1;
    }
    assert(all.take(i as int) =~= all);
}

/// The reconcilers that the engine runs.
pub fn default_reconcilers() -> (r: Reconcilers)
    ensures
        r.order() == seq![
            Reconciler::ForceTrigger,
            Reconciler::DisableConfigMap,
            Reconciler::TriggerQueue,
        ],
        r.marks() == Seq::<Seq<char>>::empty(),
{
    let mut r = Reconcilers::new();
    r.register(Reconciler::ForceTrigger);
    r.register(Reconciler::DisableConfigMap);
    r.register(Reconciler::TriggerQueue);
    assert(r.order() =~= seq![
        Reconciler::ForceTrigger,
        Reconciler::DisableConfigMap,
        Reconciler::TriggerQueue,
    ]);
    r
}

} // verus!
