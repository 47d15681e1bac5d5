//! The engine's own state: which resources there are, which of them serve, and what a
//! reload, a restart or a change of port does to them.

use vstd::prelude::*;
use vstd::string::*;

use crate::engine::log::{line, log_v, Level, LogLine, LogV};
use crate::engine::order::{manifest_index, node_index, nodes_view};
use crate::manifest::Manifest;
use crate::paths::{file_name, file_name_of};
use crate::table::Table;
use crate::text::{
    cat, cat3, dec, decimal, lines, lines_of, owned, same, texts, texts_push,
};

verus! {

/// Something that the engine does to the world.
#[derive(Debug)]
pub enum EngineEffect {
    Log(LogLine),
    /// Give a resource a runtime status.
    SetRuntime { name: String, status: String },
    /// End the serve command of a resource, where it runs, take out its route, and
    /// forget its service.
    Stop { name: String, running: bool },
    /// Forget a resource.
    Remove(String),
    /// Start the serve command of the resource at an index, which was restarted so
    /// often.
    Serve { name: String, index: usize, restarts: u32 },
}

/// Something that the engine does to the world, as a mathematical object.
pub enum EngineEffectV {
    Log(LogV),
    SetRuntime { name: Seq<char>, status: Seq<char> },
    Stop { name: Seq<char>, running: bool },
    Remove(Seq<char>),
    Serve { name: Seq<char>, index: int, restarts: u32 },
}

impl View for EngineEffect {
    type V = EngineEffectV;

    open spec fn view(&self) -> EngineEffectV {
        match self {
            EngineEffect::Log(l) => EngineEffectV::Log(l@),
            EngineEffect::SetRuntime { name, status } => EngineEffectV::SetRuntime {
                name: name@,
                status: status@,
            },
            EngineEffect::Stop { name, running } => EngineEffectV::Stop {
                name: name@,
                running: *running,
            },
            EngineEffect::Remove(name) => EngineEffectV::Remove(name@),
            EngineEffect::Serve { name, index, restarts } => EngineEffectV::Serve {
                name: name@,
                index: *index as int,
                restarts: *restarts,
            },
        }
    }
}

/// The contents of a list of effects.
pub open spec fn steps(v: Seq<EngineEffect>) -> Seq<EngineEffectV> {
    v.map_values(|e: EngineEffect| e@)
}

/// Pushing an effect pushes its contents.
pub broadcast proof fn steps_push(v: Seq<EngineEffect>, e: EngineEffect)
    ensures
        #[trigger] steps(v.push(e)) == steps(v).push(e@),
{
    assert(steps(v.push(e)) =~= steps(v).push(e@));
}

/// The engine's state as a mathematical object.
pub struct EngineV {
    pub manifests: Seq<Manifest>,
    /// The resources whose serve commands were started, in the order of their starts.
    pub started: Seq<Seq<char>>,
    /// How often the serve command of a resource was started.
    pub starts: Map<Seq<char>, u32>,
    /// The ports that resources were given while the engine runs.
    pub overrides: Map<Seq<char>, u16>,
}

/// The names other than the given one.
pub open spec fn names_without(v: Seq<Seq<char>>, name: Seq<char>) -> Seq<Seq<char>>
    decreases v.len(),
{
    if v.len() == 0 {
        Seq::empty()
    } else if v.last() == name {
        names_without(v.drop_last(), name)
    } else {
        names_without(v.drop_last(), name).push(v.last())
    }
}

/// How often the serve command of a resource was started.
pub open spec fn starts_of(starts: Map<Seq<char>, u32>, name: Seq<char>) -> u32 {
    if starts.contains_key(name) {
        starts[name]
    } else {
        0
    }
}

/// The state once the serve command of a resource is stopped.
pub open spec fn stopped(v: EngineV, name: Seq<char>) -> EngineV {
    EngineV { started: names_without(v.started, name), ..v }
}

/// What stopping the serve command of a resource does.
pub open spec fn stop_steps(v: EngineV, name: Seq<char>, message: Seq<char>) -> Seq<EngineEffectV> {
    let running = v.started.contains(name);
    if running {
        seq![
            EngineEffectV::Log(log_v(name, Level::Info, message)),
            EngineEffectV::Stop { name, running },
        ]
    } else {
        seq![EngineEffectV::Stop { name, running }]
    }
}

/// The index of a resource with a serve command.
pub open spec fn server_index(manifests: Seq<Manifest>, name: Seq<char>) -> Option<int> {
    match node_index(nodes_view(manifests), name) {
        Some(i) => if manifests[i].serve_cmd.argv@.len() > 0 {
            Some(i)
        } else {
            None
        },
        None => None,
    }
}

/// The state once the serve command of a resource is started.
pub open spec fn serving(v: EngineV, name: Seq<char>) -> EngineV {
    EngineV {
        started: names_without(v.started, name).push(name),
        starts: v.starts.insert(name, (starts_of(v.starts, name) + 1) as u32),
        ..v
    }
}

/// What starting the serve command of a resource does.
pub open spec fn serve_step(v: EngineV, name: Seq<char>, index: int) -> EngineEffectV {
    EngineEffectV::Serve { name, index, restarts: starts_of(v.starts, name) }
}

/// The state once a resource is restarted: its serve command is stopped, and started
/// where it has one.
pub open spec fn restarted(v: EngineV, name: Seq<char>) -> EngineV {
    match server_index(v.manifests, name) {
        Some(i) => serving(stopped(v, name), name),
        None => stopped(v, name),
    }
}

/// What restarting a resource does.
pub open spec fn restart_steps(v: EngineV, name: Seq<char>) -> Seq<EngineEffectV> {
    let stop = seq![EngineEffectV::SetRuntime { name, status: "in_progress"@ }] + stop_steps(
        v,
        name,
        "Restarting serve_cmd...\n"@,
    );
    match server_index(v.manifests, name) {
        Some(i) => stop.push(serve_step(v, name, i)),
        None => stop,
    }
}

/// The state once the preferred port of a resource is changed.
pub open spec fn port_changed(v: EngineV, name: Seq<char>, port: u16) -> EngineV {
    match server_index(v.manifests, name) {
        Some(i) => restarted(
            EngineV {
                manifests: v.manifests.update(
                    i,
                    Manifest { serve_port: Some(port), ..v.manifests[i] },
                ),
                overrides: v.overrides.insert(name, port),
                ..v
            },
            name,
        ),
        None => v,
    }
}

/// What changing the preferred port of a resource does.
pub open spec fn change_port_steps(v: EngineV, name: Seq<char>, port: u16) -> Seq<EngineEffectV> {
    match node_index(nodes_view(v.manifests), name) {
        None => seq![
            EngineEffectV::Log(
                log_v(name, Level::Error, "Cannot change port: resource not found\n"@),
            ),
        ],
        Some(i) => if v.manifests[i].serve_cmd.argv@.len() == 0 {
            seq![
                EngineEffectV::Log(
                    log_v(name, Level::Error, "Cannot change port: resource has no serve_cmd\n"@),
                ),
            ]
        } else {
            seq![
                EngineEffectV::Log(
                    log_v(
                        name,
                        Level::Info,
                        "Changing preferred serve_port to "@ + dec(port as nat)
                            + "; restarting serve_cmd...\n"@,
                    ),
                ),
            ] + restart_steps(v, name)
        },
    }
}

/// What starting a serve command after an update does: one that runs already is
/// restarted.
pub open spec fn replace_steps(v: EngineV, name: Seq<char>) -> Seq<EngineEffectV> {
    match server_index(v.manifests, name) {
        None => Seq::empty(),
        Some(i) => {
            let stop = if v.started.contains(name) {
                seq![EngineEffectV::SetRuntime { name, status: "in_progress"@ }] + stop_steps(
                    v,
                    name,
                    "Restarting serve_cmd after successful update...\n"@,
                )
            } else {
                stop_steps(v, name, "Starting serve_cmd after successful update...\n"@)
            };
            stop.push(serve_step(v, name, i))
        },
    }
}

/// Whether a resource of the name is among the given ones.
pub open spec fn known(manifests: Seq<Manifest>, name: Seq<char>) -> bool {
    exists|i: int| 0 <= i < manifests.len() && (#[trigger] manifests[i]).name@ == name
}

/// The names of the resources that are not among the new ones.
pub open spec fn removed_names(before: Seq<Manifest>, after: Seq<Manifest>) -> Seq<Seq<char>>
    decreases before.len(),
{
    if before.len() == 0 {
        Seq::empty()
    } else if known(after, before.last().name@) {
        removed_names(before.drop_last(), after)
    } else {
        removed_names(before.drop_last(), after).push(before.last().name@)
    }
}

/// The state once resources are gone.
pub open spec fn without_resources(v: EngineV, names: Seq<Seq<char>>) -> EngineV
    decreases names.len(),
{
    if names.len() == 0 {
        v
    } else {
        let w = without_resources(v, names.drop_last());
        let n = names.last();
        EngineV { starts: w.starts.remove(n), overrides: w.overrides.remove(n), ..stopped(w, n) }
    }
}

/// What follows when resources are gone.
pub open spec fn removal_steps(v: EngineV, names: Seq<Seq<char>>) -> Seq<EngineEffectV>
    decreases names.len(),
{
    if names.len() == 0 {
        Seq::empty()
    } else {
        let w = without_resources(v, names.drop_last());
        let n = names.last();
        removal_steps(v, names.drop_last()) + stop_steps(
            w,
            n,
            "Stopping serve_cmd; resource was removed...\n"@,
        ).push(EngineEffectV::Remove(n))
    }
}

/// The log lines of a config that was loaded.
pub open spec fn load_steps(span: Seq<char>, text: Seq<Seq<char>>) -> Seq<EngineEffectV>
    decreases text.len(),
{
    if text.len() == 0 {
        Seq::empty()
    } else {
        load_steps(span, text.drop_last()).push(
            EngineEffectV::Log(log_v(span, Level::Info, text.last() + "\n"@)),
        )
    }
}

/// Resources with the ports that they were given while the engine runs.
pub open spec fn with_overrides(manifests: Seq<Manifest>, overrides: Map<Seq<char>, u16>) -> Seq<
    Manifest,
> {
    manifests.map_values(
        |m: Manifest|
            if overrides.contains_key(m.name@) {
                Manifest { serve_port: Some(overrides[m.name@]), ..m }
            } else {
                m
            },
    )
}

/// The resources whose serve commands were started but that no longer have one.
pub open spec fn orphans(started: Seq<Seq<char>>, manifests: Seq<Manifest>) -> Seq<Seq<char>>
    decreases started.len(),
{
    if started.len() == 0 {
        Seq::empty()
    } else if server_index(manifests, started.last()) is Some {
        orphans(started.drop_last(), manifests)
    } else {
        orphans(started.drop_last(), manifests).push(started.last())
    }
}

/// The state once the serve commands of resources are stopped.
pub open spec fn all_stopped(v: EngineV, names: Seq<Seq<char>>) -> EngineV
    decreases names.len(),
{
    if names.len() == 0 {
        v
    } else {
        stopped(all_stopped(v, names.drop_last()), names.last())
    }
}

/// What stopping the serve commands of resources does.
pub open spec fn all_stop_steps(v: EngineV, names: Seq<Seq<char>>) -> Seq<EngineEffectV>
    decreases names.len(),
{
    if names.len() == 0 {
        Seq::empty()
    } else {
        all_stop_steps(v, names.drop_last()) + stop_steps(
            all_stopped(v, names.drop_last()),
            names.last(),
            "Stopping serve_cmd; resource no longer has serve_cmd...\n"@,
        )
    }
}

/// The span of a config file in the log.
pub open spec fn span_of_config(path: Seq<char>) -> Seq<char> {
    "("@ + (match file_name(path) {
        Some(n) => n,
        None => "Starlingfile"@,
    }) + ")"@
}

/// The span of a config file in the log, such as `(Tiltfile)`.
pub fn config_span(path: &str) -> (r: String)
    ensures
        r@ == span_of_config(path@),
{
    match file_name_of(path) {
        Some(n) => cat3("(", n.as_str(), ")"),
        None => cat3("(", "Starlingfile", ")"),
    }
}

/// The config files to watch: those that the config was loaded from, or its main file
/// where they are not known.
pub fn config_watch_files(config_path: &str, config_files: &Vec<String>) -> (r: Vec<String>)
    ensures
        texts(r@) == (if config_files@.len() == 0 {
            seq![config_path@]
        } else {
            texts(config_files@)
        }),
{
    let mut r = config_files.clone();
    if r.len() == 0 {
        r.push(owned(config_path));
        assert(texts(r@) =~= seq![config_path@]);
    }
    r
}

/// The engine's own state.
#[derive(Debug)]
pub struct EngineState {
    manifests: Vec<Manifest>,
    started: Vec<String>,
    starts: Table<u32>,
    overrides: Table<u16>,
}

impl View for EngineState {
    type V = EngineV;

    closed spec fn view(&self) -> EngineV {
        EngineV {
            manifests: self.manifests@,
            started: texts(self.started@),
            starts: self.starts@,
            overrides: self.overrides@,
        }
    }
}

fn drop_name(v: &mut Vec<String>, name: &str) -> (r: bool)
    ensures
        texts(final(v)@) == names_without(texts(old(v)@), name@),
        r == texts(old(v)@).contains(name@),
{
    broadcast use texts_push;

    let ghost all = texts(v@);
    let mut kept: Vec<String> = Vec::new();
    let mut found = false;
    let mut i: usize = 0;
    assert(texts(kept@) =~= names_without(all.take(0), name@));
    while i < v.len()
        invariant
            i <= v@.len(),
            all == texts(v@),
            texts(kept@) == names_without(all.take(i as int), name@),
            found == (exists|j: int| 0 <= j < i && #[trigger] all[j] == name@),
        decreases v@.len() - i,
    {
        assert(all.take(i + 1).drop_last() =~= all.take(i as int));
        assert(all.take(i + 1).last() == v@[i as int]@);
        assert(all[i as int] == v@[i as int]@);
        if same(v[i].as_str(), name) {
            found = true;
        } else {
            kept.push(v[i].clone());
        }
        i += 1;
    }
    assert(all.take(i as int) =~= all);
    *v = kept;
    found
}

impl EngineState {
    /// The state of an engine for the given resources.
    pub fn new(manifests: Vec<Manifest>) -> (r: EngineState)
        ensures
            r@ == (EngineV {
                manifests: manifests@,
                started: Seq::empty(),
                starts: Map::empty(),
                overrides: Map::empty(),
            }),
    {
        let r = EngineState {
            manifests,
            started: Vec::new(),
            starts: Table::new(),
            overrides: Table::new(),
        };
        assert(r@.started =~= Seq::empty());
        r
    }

    /// The resources.
    pub fn manifests(&self) -> (r: &Vec<Manifest>)
        ensures
            r@ == self@.manifests,
    {
        &self.manifests
    }

    /// The resource of a name.
    pub fn manifest(&self, name: &str) -> (r: Option<&Manifest>)
        ensures
            match r {
                Some(m) => node_index(nodes_view(self@.manifests), name@) is Some && *m
                    == self@.manifests[node_index(nodes_view(self@.manifests), name@)->0],
                None => node_index(nodes_view(self@.manifests), name@) is None,
            },
    {
        match manifest_index(&self.manifests, name) {
            Some(i) => Some(&self.manifests[i]),
            None => None,
        }
    }

    /// How often the serve command of a resource was started.
    pub fn start_count(&self, name: &str) -> (r: u32)
        ensures
            r == starts_of(self@.starts, name@),
    {
        match self.starts.get(name) {
            Some(n) => n,
            None => 0,
        }
    }

    fn server(&self, name: &str) -> (r: Option<usize>)
        ensures
            match r {
                Some(i) => i < self.manifests@.len() && server_index(self@.manifests, name@)
                    == Some(i as int),
                None => server_index(self@.manifests, name@) is None,
            },
    {
        match manifest_index(&self.manifests, name) {
            Some(i) => if self.manifests[i].serve_cmd.is_empty() {
                None
            } else {
                Some(i)
            },
            None => None,
        }
    }

    /// Stops the serve command of a resource.
    pub fn stop_serve(&mut self, name: &str, message: &str, out: &mut Vec<EngineEffect>)
        ensures
            final(self)@ == stopped(old(self)@, name@),
            steps(final(out)@) == steps(old(out)@) + stop_steps(old(self)@, name@, message@),
    {
        broadcast use steps_push;

        let ghost before = steps(out@);
        let ghost v = self@;
        let running = drop_name(&mut self.started, name);
        if running {
            out.push(EngineEffect::Log(line(name, Level::Info, owned(message))));
        }
        out.push(EngineEffect::Stop { name: owned(name), running });
        assert(steps(out@) =~= before + stop_steps(v, name@, message@));
    }

    fn start_serve(&mut self, name: &str, index: usize, out: &mut Vec<EngineEffect>)
        requires
            starts_of(old(self)@.starts, name@) < u32::MAX,
        ensures
            final(self)@ == serving(old(self)@, name@),
            steps(final(out)@) == steps(old(out)@).push(
                serve_step(old(self)@, name@, index as int),
            ),
    {
        broadcast use {steps_push, texts_push};

        let restarts: u32 = self.start_count(name);
        drop_name(&mut self.started, name);
        self.started.push(owned(name));
        self.starts.insert(name, restarts + 1);
        out.push(EngineEffect::Serve { name: owned(name), index, restarts });
    }

    /// Restarts a resource: its serve command is stopped, and started where it has one.
    pub fn restart(&mut self, name: &str) -> (r: Vec<EngineEffect>)
        requires
            starts_of(old(self)@.starts, name@) < u32::MAX,
        ensures
            final(self)@ == restarted(old(self)@, name@),
            steps(r@) == restart_steps(old(self)@, name@),
    {
        let mut out: Vec<EngineEffect> = Vec::new();
        self.push_restart(name, &mut out);
        assert(steps(out@) =~= restart_steps(old(self)@, name@));
        out
    }

    fn push_restart(&mut self, name: &str, out: &mut Vec<EngineEffect>)
        requires
            starts_of(old(self)@.starts, name@) < u32::MAX,
        ensures
            final(self)@ == restarted(old(self)@, name@),
            steps(final(out)@) == steps(old(out)@) + restart_steps(old(self)@, name@),
    {
        broadcast use steps_push;

        let ghost before = steps(out@);
        let ghost v = self@;
        out.push(EngineEffect::SetRuntime { name: owned(name), status: owned("in_progress") });
        self.stop_serve(name, "Restarting serve_cmd...\n", out);
        if let Some(i) = self.server(name) {
            self.start_serve(name, i, out);
        }
        assert(steps(out@) =~= before + restart_steps(v, name@));
    }

    /// Changes the preferred port of a resource, for as long as the engine runs, and
    /// restarts it. A resource that does not serve is left as it is.
    pub fn change_port(&mut self, name: &str, port: u16) -> (r: Vec<EngineEffect>)
        requires
            starts_of(old(self)@.starts, name@) < u32::MAX,
        ensures
            final(self)@ == port_changed(old(self)@, name@, port),
            steps(r@) == change_port_steps(old(self)@, name@, port),
    {
        broadcast use steps_push;

        let ghost v = self@;
        let mut out: Vec<EngineEffect> = Vec::new();
        assert(steps(out@) =~= Seq::empty());
        match manifest_index(&self.manifests, name) {
            None => {
                out.push(
                    EngineEffect::Log(
                        line(name, Level::Error, owned("Cannot change port: resource not found\n")),
                    ),
                );
                assert(steps(out@) =~= change_port_steps(v, name@, port));
                out
            },
            Some(i) => {
                if self.manifests[i].serve_cmd.is_empty() {
                    out.push(
                        EngineEffect::Log(
                            line(
                                name,
                                Level::Error,
                                owned("Cannot change port: resource has no serve_cmd\n"),
                            ),
                        ),
                    );
                    assert(steps(out@) =~= change_port_steps(v, name@, port));
                    return out;
                }
                self.set_port(i, port);
                self.overrides.insert(name, port);
                proof {
                    let changed = self@.manifests;
                    assert(nodes_view(changed) =~= nodes_view(v.manifests));
                }
                let text = cat3(
                    "Changing preferred serve_port to ",
                    decimal(port as u64).as_str(),
                    "; restarting serve_cmd...\n",
                );
                out.push(EngineEffect::Log(line(name, Level::Info, text)));
                let ghost head = steps(out@);
                let ghost w = self@;
                self.push_restart(name, &mut out);
                assert(restart_steps(w, name@) == restart_steps(v, name@));
                assert(steps(out@) =~= change_port_steps(v, name@, port));
                out
            },
        }
    }

    fn set_port(&mut self, i: usize, port: u16)
        requires
            i < old(self)@.manifests.len(),
        ensures
            final(self)@ == (EngineV {
                manifests: old(self)@.manifests.update(
                    i as int,
                    Manifest { serve_port: Some(port), ..old(self)@.manifests[i as int] },
                ),
                ..old(self)@
            }),
    {
        let m = &mut self.manifests[i];
        m.serve_port = Some(port);
    }

    /// Starts the serve command of a resource that was updated, where it has one.
    pub fn replace_serve_after_update(&mut self, name: &str) -> (r: Vec<EngineEffect>)
        requires
            starts_of(old(self)@.starts, name@) < u32::MAX,
        ensures
            final(self)@ == (if server_index(old(self)@.manifests, name@) is Some {
                restarted(old(self)@, name@)
            } else {
                old(self)@
            }),
            steps(r@) == replace_steps(old(self)@, name@),
    {
        broadcast use steps_push;

        let ghost v = self@;
        let mut out: Vec<EngineEffect> = Vec::new();
        assert(steps(out@) =~= Seq::empty());
        match self.server(name) {
            None => out,
            Some(i) => {
                if self.is_started(name) {
                    out.push(
                        EngineEffect::SetRuntime {
                            name: owned(name),
                            status: owned("in_progress"),
                        },
                    );
                    self.stop_serve(
                        name,
                        "Restarting serve_cmd after successful update...\n",
                        &mut out,
                    );
                } else {
                    self.stop_serve(
                        name,
                        "Starting serve_cmd after successful update...\n",
                        &mut out,
                    );
                }
                self.start_serve(name, i, &mut out);
                assert(steps(out@) =~= replace_steps(v, name@));
                out
            },
        }
    }

    /// Whether the serve command of a resource was started.
    pub fn is_started(&self, name: &str) -> (r: bool)
        ensures
            r == self@.started.contains(name@),
    {
        let mut i: usize = 0;
        while i < self.started.len()
            invariant
                i <= self.started@.len(),
                forall|j: int| 0 <= j < i ==> (#[trigger] texts(self.started@)[j]) != name@,
            decreases self.started@.len() - i,
        {
            assert(texts(self.started@)[i as int] == self.started@[i as int]@);
            if same(self.started[i].as_str(), name) {
                return true;
            }
            i += 1;
        }
        false
    }

    /// Begins a reload: what the config printed is logged, and resources that it no
    /// longer has are stopped and forgotten.
    pub fn begin_reload(&mut self, span: &str, printed: &str, manifests: &Vec<Manifest>) -> (r: Vec<
        EngineEffect,
    >)
        ensures
            final(self)@ == without_resources(
                old(self)@,
                removed_names(old(self)@.manifests, manifests@),
            ),
            steps(r@) == load_steps(span@, lines(printed@)) + removal_steps(
                old(self)@,
                removed_names(old(self)@.manifests, manifests@),
            ),
    {
        broadcast use steps_push;

        let ghost v = self@;
        let mut out: Vec<EngineEffect> = Vec::new();
        let text = lines_of(printed);
        let ghost all = texts(text@);
        let mut i: usize = 0;
        assert(steps(out@) =~= load_steps(span@, all.take(0)));
        while i < text.len()
            invariant
                i <= text@.len(),
                all == texts(text@),
                steps(out@) == load_steps(span@, all.take(i as int)),
            decreases text@.len() - i,
        {
            assert(all.take(i + 1).drop_last() =~= all.take(i as int));
            assert(all.take(i + 1).last() == text@[i as int]@);
            out.push(EngineEffect::Log(line(span, Level::Info, cat(text[i].as_str(), "\n"))));
            i += 1;
        }
        assert(all.take(i as int) =~= all);
        let ghost loaded = steps(out@);
        let names = removed(&self.manifests, manifests);
        let ghost gone = texts(names@);
        let mut k: usize = 0;
        assert(steps(out@) =~= loaded + removal_steps(v, gone.take(0)));
        assert(gone.take(0).len() == 0);
        while k < names.len()
            invariant
                k <= names@.len(),
                gone == texts(names@),
                self@ == without_resources(v, gone.take(k as int)),
                steps(out@) == loaded + removal_steps(v, gone.take(k as int)),
            decreases names@.len() - k,
        {
            let name = names[k].as_str();
            proof {
                assert(gone.take(k + 1).drop_last() =~= gone.take(k as int));
                assert(gone.take(k + 1).last() == name@);
            }
            let ghost w = self@;
            let ghost before = steps(out@);
            self.overrides.remove(name);
            self.starts.remove(name);
            let ghost message = "Stopping serve_cmd; resource was removed...\n"@;
            let ghost stop = stop_steps(w, name@, message);
            assert(stop_steps(self@, name@, message) == stop);
            self.stop_serve(name, "Stopping serve_cmd; resource was removed...\n", &mut out);
            out.push(EngineEffect::Remove(owned(name)));
            assert(steps(out@) == (before + stop).push(EngineEffectV::Remove(name@)));
            assert(removal_steps(v, gone.take(k + 1)) == removal_steps(v, gone.take(k as int))
                + stop.push(EngineEffectV::Remove(name@)));
            assert(steps(out@) =~= loaded + removal_steps(v, gone.take(k + 1)));
            k += 1;
        }
        assert(gone.take(k as int) =~= gone);
        out
    }

    /// Takes the resources of a config that was reloaded, with the ports that they
    /// were given while the engine runs.
    pub fn install(&mut self, manifests: Vec<Manifest>)
        ensures
            final(self)@ == (EngineV {
                manifests: with_overrides(manifests@, old(self)@.overrides),
                ..old(self)@
            }),
    {
        let ghost given = manifests@;
        let ghost v = self@;
        self.manifests = manifests;
        let mut i: usize = 0;
        while i < self.manifests.len()
            invariant
                i <= self.manifests@.len(),
                self.manifests@.len() == given.len(),
                self@ == (EngineV { manifests: self.manifests@, ..v }),
                forall|j: int|
                    0 <= j < i ==> #[trigger] self.manifests@[j] == with_overrides(
                        given,
                        v.overrides,
                    )[j],
                forall|j: int| i <= j < given.len() ==> #[trigger] self.manifests@[j] == given[j],
            decreases given.len() - i,
        {
            let name = self.manifests[i].name.clone();
            if let Some(port) = self.overrides.get(name.as_str()) {
                self.set_port(i, port);
            }
            i += 1;
        }
        assert(self.manifests@ =~= with_overrides(given, v.overrides));
    }

    /// Stops the serve commands of resources that no longer have one.
    pub fn stop_orphans(&mut self) -> (r: Vec<EngineEffect>)
        ensures
            final(self)@ == all_stopped(
                old(self)@,
                orphans(old(self)@.started, old(self)@.manifests),
            ),
            steps(r@) == all_stop_steps(
                old(self)@,
                orphans(old(self)@.started, old(self)@.manifests),
            ),
    {
        broadcast use texts_push;

        let ghost v = self@;
        let ghost all = texts(self.started@);
        let mut names: Vec<String> = Vec::new();
        let mut i: usize = 0;
        assert(texts(names@) =~= orphans(all.take(0), v.manifests));
        while i < self.started.len()
            invariant
                i <= self.started@.len(),
                all == texts(self.started@),
                v == self@,
                texts(names@) == orphans(all.take(i as int), v.manifests),
            decreases self.started@.len() - i,
        {
            let name = self.started[i].clone();
            assert(all.take(i + 1).drop_last() =~= all.take(i as int));
            assert(all.take(i + 1).last() == name@);
            if self.server(name.as_str()).is_none() {
                names.push(name);
            }
            i += 1;
        }
        assert(all.take(i as int) =~= all);
        let ghost gone = texts(names@);
        let mut out: Vec<EngineEffect> = Vec::new();
        let mut k: usize = 0;
        assert(steps(out@) =~= all_stop_steps(v, gone.take(0)));
        assert(gone.take(0).len() == 0);
        while k < names.len()
            invariant
                k <= names@.len(),
                gone == texts(names@),
                self@ == all_stopped(v, gone.take(k as int)),
                steps(out@) == all_stop_steps(v, gone.take(k as int)),
            decreases names@.len() - k,
        {
            let name = names[k].as_str();
            proof {
                assert(gone.take(k + 1).drop_last() =~= gone.take(k as int));
                assert(gone.take(k + 1).last() == name@);
            }
            self.stop_serve(
                name,
                "Stopping serve_cmd; resource no longer has serve_cmd...\n",
                &mut out,
            );
            k += 1;
        }
        assert(gone.take(k as int) =~= gone);
        out
    }
}

fn removed(before: &Vec<Manifest>, after: &Vec<Manifest>) -> (r: Vec<String>)
    ensures
        texts(r@) == removed_names(before@, after@),
{
    broadcast use texts_push;

    let mut r: Vec<String> = Vec::new();
    let mut i: usize = 0;
    assert(texts(r@) =~= removed_names(before@.take(0), after@));
    while i < before.len()
        invariant
            i <= before@.len(),
            texts(r@) == removed_names(before@.take(i as int), after@),
        decreases before@.len() - i,
    {
        assert(before@.take(i + 1).drop_last() =~= before@.take(i as int));
        assert(before@.take(i + 1).last() == before@[i as int]);
        let name = before[i].name.clone();
        if !is_known(after, name.as_str()) {
            r.push(name);
        }
        i += 1;
    }
    assert(before@.take(i as int) =~= before@);
    r
}

fn is_known(manifests: &Vec<Manifest>, name: &str) -> (r: bool)
    ensures
        r == known(manifests@, name@),
{
    let mut i: usize = 0;
    while i < manifests.len()
        invariant
            i <= manifests@.len(),
            forall|j: int| 0 <= j < i ==> (#[trigger] manifests@[j]).name@ != name@,
        decreases manifests@.len() - i,
    {
        if same(manifests[i].name.as_str(), name) {
            return true;
        }
        i += 1;
    }
    false
}

/// The log line at the start of a reload.
pub fn reload_started(span: &str) -> (r: LogLine)
    ensures
        r@ == log_v(span@, Level::Info, "Config changed; reloading...\n"@),
{
    line(span, Level::Info, owned("Config changed; reloading...\n"))
}

/// The log line of a config that could not be reloaded.
pub fn reload_failed(span: &str, error: &str) -> (r: LogLine)
    ensures
        r@ == log_v(span@, Level::Error, "Reload failed: "@ + error@ + "\n"@),
{
    line(span, Level::Error, cat3("Reload failed: ", error, "\n"))
}

/// The log line at the end of a reload.
pub fn reload_ended(span: &str, resources: usize) -> (r: LogLine)
    ensures
        r@ == log_v(
            span@,
            Level::Info,
            "Config reloaded ("@ + dec(resources as nat) + " resources)\n"@,
        ),
{
    line(
        span,
        Level::Info,
        cat3("Config reloaded (", decimal(resources as u64).as_str(), " resources)\n"),
    )
}

/// The log line of a reload for new arguments.
pub fn args_changed(span: &str) -> (r: LogLine)
    ensures
        r@ == log_v(span@, Level::Info, "Tiltfile args changed; reloading...\n"@),
{
    line(span, Level::Info, owned("Tiltfile args changed; reloading...\n"))
}

proof fn without_contains(v: Seq<Seq<char>>, name: Seq<char>, x: Seq<char>)
    ensures
        names_without(v, name).contains(x) <==> v.contains(x) && x != name,
    decreases v.len(),
{
    if v.len() > 0 {
        let d = v.drop_last();
        let r = names_without(v, name);
        let q = names_without(d, name);
        without_contains(d, name, x);
        if d.contains(x) {
            let i = choose|i: int| 0 <= i < d.len() && d[i] == x;
            assert(v[i] == x);
        }
        if v.contains(x) {
            let i = choose|i: int| 0 <= i < v.len() && v[i] == x;
            if i < d.len() {
                assert(d[i] == x);
            }
        }
        assert(v[v.len() - 1] == v.last());
        if v.last() != name {
            assert(r.last() == v.last());
            assert(r[r.len() - 1] == v.last());
            if q.contains(x) {
                let i = choose|i: int| 0 <= i < q.len() && q[i] == x;
                assert(r[i] == x);
            }
            if r.contains(x) {
                let i = choose|i: int| 0 <= i < r.len() && r[i] == x;
                if i < q.len() {
                    assert(q[i] == x);
                }
            }
        }
    }
}

proof fn all_stopped_contains(v: EngineV, names: Seq<Seq<char>>, x: Seq<char>)
    ensures
        all_stopped(v, names).started.contains(x) <==> v.started.contains(x) && !names.contains(x),
        all_stopped(v, names).manifests == v.manifests,
    decreases names.len(),
{
    if names.len() > 0 {
        let d = names.drop_last();
        all_stopped_contains(v, d, x);
        without_contains(all_stopped(v, d).started, names.last(), x);
        if d.contains(x) {
            let i = choose|i: int| 0 <= i < d.len() && d[i] == x;
            assert(names[i] == x);
        }
        if names.contains(x) {
            let i = choose|i: int| 0 <= i < names.len() && names[i] == x;
            if i < d.len() {
                assert(d[i] == x);
            }
        }
        assert(names[names.len() - 1] == names.last());
    }
}

proof fn orphans_contain(started: Seq<Seq<char>>, manifests: Seq<Manifest>, x: Seq<char>)
    ensures
        orphans(started, manifests).contains(x) <==> started.contains(x) && server_index(
            manifests,
            x,
        ) is None,
    decreases started.len(),
{
    if started.len() > 0 {
        let d = started.drop_last();
        let r = orphans(started, manifests);
        let q = orphans(d, manifests);
        orphans_contain(d, manifests, x);
        if d.contains(x) {
            let i = choose|i: int| 0 <= i < d.len() && d[i] == x;
            assert(started[i] == x);
        }
        if started.contains(x) {
            let i = choose|i: int| 0 <= i < started.len() && started[i] == x;
            if i < d.len() {
                assert(d[i] == x);
            }
        }
        assert(started[started.len() - 1] == started.last());
        if server_index(manifests, started.last()) is None {
            assert(r[r.len() - 1] == started.last());
            if q.contains(x) {
                let i = choose|i: int| 0 <= i < q.len() && q[i] == x;
                assert(r[i] == x);
            }
            if r.contains(x) {
                let i = choose|i: int| 0 <= i < r.len() && r[i] == x;
                if i < q.len() {
                    assert(q[i] == x);
                }
            }
        }
    }
}

/// Once a reload has stopped the serve commands that are no longer wanted, a resource
/// counts as started if and only if it did before and still has a serve command.
pub proof fn only_servers_run(v: EngineV, x: Seq<char>)
    ensures
        all_stopped(v, orphans(v.started, v.manifests)).started.contains(x) <==> v.started.contains(
            x,
        ) && server_index(v.manifests, x) is Some,
{
    orphans_contain(v.started, v.manifests, x);
    all_stopped_contains(v, orphans(v.started, v.manifests), x);
}

proof fn removed_is_unknown(before: Seq<Manifest>, after: Seq<Manifest>, x: Seq<char>)
    ensures
        removed_names(before, after).contains(x) ==> !known(after, x),
    decreases before.len(),
{
    if before.len() > 0 {
        let d = before.drop_last();
        let r = removed_names(before, after);
        removed_is_unknown(d, after, x);
        if r.contains(x) && !known(after, before.last().name@) {
            let q = removed_names(d, after);
            let i = choose|i: int| 0 <= i < r.len() && r[i] == x;
            if i < q.len() {
                assert(q[i] == x);
            }
        }
    }
}

proof fn others_keep(v: EngineV, names: Seq<Seq<char>>, x: Seq<char>)
    requires
        !names.contains(x),
    ensures
        without_resources(v, names).overrides.contains_key(x) == v.overrides.contains_key(x),
        v.overrides.contains_key(x) ==> without_resources(v, names).overrides[x] == v.overrides[x],
        starts_of(without_resources(v, names).starts, x) == starts_of(v.starts, x),
    decreases names.len(),
{
    if names.len() > 0 {
        let d = names.drop_last();
        assert(names[names.len() - 1] == names.last());
        if d.contains(x) {
            let i = choose|i: int| 0 <= i < d.len() && d[i] == x;
            assert(names[i] == x);
        }
        others_keep(v, d, x);
    }
}

/// A port that a resource was given while the engine runs outlasts a reload of the
/// config, whatever port the config asks for; so does the number of its starts.
pub proof fn port_survives_reload(v: EngineV, manifests: Seq<Manifest>, i: int)
    requires
        0 <= i < manifests.len(),
    ensures
        ({
            let name = manifests[i].name@;
            let w = without_resources(v, removed_names(v.manifests, manifests));
            let installed = with_overrides(manifests, w.overrides);
            &&& v.overrides.contains_key(name) ==> installed[i].serve_port == Some(
                v.overrides[name],
            )
            &&& !v.overrides.contains_key(name) ==> installed[i] == manifests[i]
            &&& starts_of(w.starts, name) == starts_of(v.starts, name)
        }),
{
    let name = manifests[i].name@;
    assert(known(manifests, name));
    removed_is_unknown(v.manifests, manifests, name);
    others_keep(v, removed_names(v.manifests, manifests), name);
}

} // verus!
