//! Live updates: changes brought into running containers instead of a rebuild.

use vstd::prelude::*;
use vstd::string::*;

use crate::engine::ignore::{hits_any, matches_any_path};
use crate::manifest::{bare, Cmd, CmdV, LiveUpdateStep, Manifest};
use crate::text::{cat3, owned, texts};

verus! {

/// The files whose changes call for a full rebuild, of the steps in order.
pub open spec fn fallback_paths(steps: Seq<LiveUpdateStep>) -> Seq<Seq<char>>
    decreases steps.len(),
{
    if steps.len() == 0 {
        Seq::empty()
    } else {
        let rest = fallback_paths(steps.drop_last());
        match steps.last() {
            LiveUpdateStep::FallBackOn(paths) => rest + texts(paths@),
            _ => rest,
        }
    }
}

/// Adds copies of the texts.
pub fn append_texts(v: &mut Vec<String>, more: &Vec<String>)
    ensures
        final(v)@ == old(v)@ + more@,
{
    let ghost before = v@;
    let mut i: usize = 0;
    assert(v@ =~= before + more@.take(0));
    while i < more.len()
        invariant
            i <= more@.len(),
            v@ == before + more@.take(i as int),
        decreases more@.len() - i,
    {
        v.push(more[i].clone());
        assert(v@ =~= before + more@.take(i + 1));
        i += 1;
    }
    assert(more@.take(i as int) =~= more@);
}

/// The files whose changes call for a full rebuild.
pub fn live_update_fallback_paths(manifest: &Manifest) -> (r: Vec<String>)
    ensures
        texts(r@) == fallback_paths(manifest.live_update@),
{
    let steps = &manifest.live_update;
    let mut r: Vec<String> = Vec::new();
    let mut i: usize = 0;
    assert(texts(r@) =~= fallback_paths(steps@.take(0)));
    while i < steps.len()
        invariant
            i <= steps@.len(),
            texts(r@) == fallback_paths(steps@.take(i as int)),
        decreases steps@.len() - i,
    {
        proof {
            assert(steps@.take(i + 1).drop_last() =~= steps@.take(i as int));
            assert(steps@.take(i + 1).last() == steps@[i as int]);
        }
        if let LiveUpdateStep::FallBackOn(paths) = &steps[i] {
            let ghost before = r@;
            append_texts(&mut r, paths);
            assert(texts(r@) =~= texts(before) + texts(paths@));
        }
        i += 1;
    }
    assert(steps@.take(i as int) =~= steps@);
    r
}

/// Whether a run step is due: it has no triggers, it is not known what changed, or
/// something changed that is a trigger or lies below one.
pub open spec fn run_is_due(triggers: Seq<Seq<char>>, changed: Option<Seq<Seq<char>>>) -> bool {
    match changed {
        Some(paths) => triggers.len() == 0 || exists|i: int|
            0 <= i < paths.len() && hits_any(#[trigger] paths[i], triggers),
        None => true,
    }
}

/// The changed paths, if they are known.
pub open spec fn changed_view(changed: Option<&Vec<String>>) -> Option<Seq<Seq<char>>> {
    match changed {
        Some(v) => Some(texts(v@)),
        None => None,
    }
}

/// Whether a run step is due.
pub fn live_update_run_matches_triggers(triggers: &Vec<String>, changed_paths: Option<&Vec<String>>) -> (r:
    bool)
    ensures
        r == run_is_due(texts(triggers@), changed_view(changed_paths)),
{
    if triggers.len() == 0 {
        return true;
    }
    match changed_paths {
        None => true,
        Some(paths) => {
            let mut i: usize = 0;
            while i < paths.len()
                invariant
                    i <= paths@.len(),
                    changed_paths == Some(paths),
                    forall|j: int|
                        0 <= j < i ==> !hits_any(#[trigger] texts(paths@)[j], texts(triggers@)),
                decreases paths@.len() - i,
            {
                assert(texts(paths@)[i as int] == paths@[i as int]@);
                if matches_any_path(paths[i].as_str(), triggers) {
                    assert(hits_any(texts(paths@)[i as int], texts(triggers@)));
                    assert(i < texts(paths@).len());
                    assert(run_is_due(texts(triggers@), Some(texts(paths@))));
                    return true;
                }
                i += 1;
            }
            assert(texts(triggers@).len() > 0);
            false
        },
    }
}

/// Whether pods are to be synced once when they start.
pub fn live_update_has_initial_sync(steps: &Vec<LiveUpdateStep>) -> (r: bool)
    ensures
        r == exists|i: int| 0 <= i < steps@.len() && #[trigger] steps@[i] is InitialSync,
{
    let mut i: usize = 0;
    while i < steps.len()
        invariant
            i <= steps@.len(),
            forall|j: int| 0 <= j < i ==> !(#[trigger] steps@[j] is InitialSync),
        decreases steps@.len() - i,
    {
        if let LiveUpdateStep::InitialSync = &steps[i] {
            assert(steps@[i as int] is InitialSync);
            return true;
        }
        i += 1;
    }
    false
}

/// The arguments that copy files into a pod.
pub open spec fn copy_argv(local: Seq<char>, pod: Seq<char>, remote: Seq<char>) -> Seq<Seq<char>> {
    seq!["kubectl"@, "cp"@, local, pod + ":"@ + remote]
}

/// The arguments that run a command line in a pod.
pub open spec fn exec_argv(pod: Seq<char>, cmd: Seq<char>) -> Seq<Seq<char>> {
    seq!["kubectl"@, "exec"@, pod, "--"@, "sh"@, "-c"@, cmd]
}

/// The arguments that delete a pod, so that another one takes its place.
pub open spec fn delete_argv(pod: Seq<char>) -> Seq<Seq<char>> {
    seq!["kubectl"@, "delete"@, "pod"@, pod, "--wait=false"@]
}

fn copy_args(local: &str, pod: &str, remote: &str) -> (r: Vec<String>)
    ensures
        texts(r@) == copy_argv(local@, pod@, remote@),
{
    let r: Vec<String> = vec![owned("kubectl"), owned("cp"), owned(local), cat3(pod, ":", remote)];
    assert(texts(r@) =~= copy_argv(local@, pod@, remote@));
    r
}

fn exec_args(pod: &str, cmd: &str) -> (r: Vec<String>)
    ensures
        texts(r@) == exec_argv(pod@, cmd@),
{
    let r: Vec<String> = vec![
        owned("kubectl"),
        owned("exec"),
        owned(pod),
        owned("--"),
        owned("sh"),
        owned("-c"),
        owned(cmd),
    ];
    assert(texts(r@) =~= exec_argv(pod@, cmd@));
    r
}

fn delete_args(pod: &str) -> (r: Vec<String>)
    ensures
        texts(r@) == delete_argv(pod@),
{
    let r: Vec<String> = vec![
        owned("kubectl"),
        owned("delete"),
        owned("pod"),
        owned(pod),
        owned("--wait=false"),
    ];
    assert(texts(r@) =~= delete_argv(pod@));
    r
}

/// What is shown of a command line.
pub open spec fn shown(cmd: Seq<char>, echo_off: bool) -> Seq<char> {
    if echo_off {
        "<redacted>"@
    } else {
        cmd
    }
}

/// What a step does to a starting pod: its arguments and what is logged.
pub open spec fn initial_sync(step: LiveUpdateStep, pod: Seq<char>) -> Option<
    (Seq<Seq<char>>, Seq<char>),
> {
    match step {
        LiveUpdateStep::Sync { local, remote } => Some(
            (
                copy_argv(local@, pod, remote@),
                "  initial_sync "@ + local@ + " -> "@ + remote@ + "\n"@,
            ),
        ),
        LiveUpdateStep::Run { cmd, echo_off, .. } => Some(
            (exec_argv(pod, cmd@), "  initial_sync run "@ + shown(cmd@, echo_off) + "\n"@),
        ),
        _ => None,
    }
}

/// The command that a step runs for a starting pod, and what is logged.
pub fn initial_sync_command(step: &LiveUpdateStep, pod: &str) -> (r: Option<(Cmd, String)>)
    ensures
        match r {
            Some((cmd, log)) => {
                &&& initial_sync(*step, pod@) == Some((texts(cmd.argv@), log@))
                &&& cmd@ == bare(texts(cmd.argv@))
            },
            None => initial_sync(*step, pod@) is None,
        },
{
    match step {
        LiveUpdateStep::Sync { local, remote } => {
            let mut log = cat3("  initial_sync ", local.as_str(), " -> ");
            log.append(remote.as_str());
            log.append("\n");
            Some((Cmd::of(copy_args(local.as_str(), pod, remote.as_str())), log))
        },
        LiveUpdateStep::Run { cmd, echo_off, .. } => {
            let text = if *echo_off {
                "<redacted>"
            } else {
                cmd.as_str()
            };
            Some(
                (
                    Cmd::of(exec_args(pod, cmd.as_str())),
                    cat3("  initial_sync run ", text, "\n"),
                ),
            )
        },
        _ => None,
    }
}

/// What a step of a live update does: a line for the log, and the command to run if
/// any.
pub struct StepV {
    pub log: Seq<char>,
    pub command: Option<CmdV>,
}

/// What a step of a live update does: a line for the log, and the command to run if
/// any.
#[derive(Debug)]
pub struct StepAction {
    pub log: String,
    pub command: Option<Cmd>,
}

impl View for StepAction {
    type V = StepV;

    open spec fn view(&self) -> StepV {
        StepV {
            log: self.log@,
            command: match self.command {
                Some(c) => Some(c@),
                None => None,
            },
        }
    }
}

/// What a step of a live update does to a pod; nothing for steps that only guide
/// when updates are made.
pub open spec fn step_action(
    step: LiveUpdateStep,
    pod: Seq<char>,
    changed: Option<Seq<Seq<char>>>,
) -> Option<StepV> {
    match step {
        LiveUpdateStep::Sync { local, remote } => Some(
            StepV {
                log: "  sync "@ + local@ + " -> "@ + remote@ + "\n"@,
                command: Some(bare(copy_argv(local@, pod, remote@))),
            },
        ),
        LiveUpdateStep::Run { cmd, echo_off, triggers } => if run_is_due(
            texts(triggers@),
            changed,
        ) {
            Some(
                StepV {
                    log: "  run "@ + shown(cmd@, echo_off) + "\n"@,
                    command: Some(bare(exec_argv(pod, cmd@))),
                },
            )
        } else {
            Some(
                StepV {
                    log: "  run skipped (trigger did not match): "@ + cmd@ + "\n"@,
                    command: None,
                },
            )
        },
        LiveUpdateStep::RestartContainer => Some(
            StepV { log: "  restart_container\n"@, command: Some(bare(delete_argv(pod))) },
        ),
        LiveUpdateStep::FallBackOn(_) => None,
        LiveUpdateStep::InitialSync => None,
    }
}

/// What a step of a live update does to a pod.
pub fn live_update_step(step: &LiveUpdateStep, pod: &str, changed_paths: Option<&Vec<String>>) -> (r:
    Option<StepAction>)
    ensures
        match r {
            Some(a) => step_action(*step, pod@, changed_view(changed_paths)) == Some(a@),
            None => step_action(*step, pod@, changed_view(changed_paths)) is None,
        },
{
    match step {
        LiveUpdateStep::Sync { local, remote } => {
            let mut log = cat3("  sync ", local.as_str(), " -> ");
            log.append(remote.as_str());
            log.append("\n");
            Some(
                StepAction {
                    log,
                    command: Some(Cmd::of(copy_args(local.as_str(), pod, remote.as_str()))),
                },
            )
        },
        LiveUpdateStep::Run { cmd, echo_off, triggers } => {
            if !live_update_run_matches_triggers(triggers, changed_paths) {
                return Some(
                    StepAction {
                        log: cat3(
                            "  run skipped (trigger did not match): ",
                            cmd.as_str(),
                            "\n",
                        ),
                        command: None,
                    },
                );
            }
            let text = if *echo_off {
                "<redacted>"
            } else {
                cmd.as_str()
            };
            Some(
                StepAction {
                    log: cat3("  run ", text, "\n"),
                    command: Some(Cmd::of(exec_args(pod, cmd.as_str()))),
                },
            )
        },
        LiveUpdateStep::RestartContainer => Some(
            StepAction {
                log: owned("  restart_container\n"),
                command: Some(Cmd::of(delete_args(pod))),
            },
        ),
        _ => None,
    }
}

/// The actions of all steps, in order.
pub open spec fn step_actions(
    steps: Seq<LiveUpdateStep>,
    pod: Seq<char>,
    changed: Option<Seq<Seq<char>>>,
) -> Seq<StepV>
    decreases steps.len(),
{
    if steps.len() == 0 {
        Seq::empty()
    } else {
        let rest = step_actions(steps.drop_last(), pod, changed);
        match step_action(steps.last(), pod, changed) {
            Some(a) => rest.push(a),
            None => rest,
        }
    }
}

/// The contents of a list of actions.
pub open spec fn actions_view(v: Seq<StepAction>) -> Seq<StepV> {
    v.map_values(|a: StepAction| a@)
}

/// What a live update does to a pod, step by step. It ends with the first command
/// that fails.
pub fn live_update_plan(
    steps: &Vec<LiveUpdateStep>,
    pod: &str,
    changed_paths: Option<&Vec<String>>,
) -> (r: Vec<StepAction>)
    ensures
        actions_view(r@) == step_actions(steps@, pod@, changed_view(changed_paths)),
{
    let ghost changed = changed_view(changed_paths);
    let mut r: Vec<StepAction> = Vec::new();
    let mut i: usize = 0;
    assert(actions_view(r@) =~= step_actions(steps@.take(0), pod@, changed));
    while i < steps.len()
        invariant
            i <= steps@.len(),
            changed == changed_view(changed_paths),
            actions_view(r@) == step_actions(steps@.take(i as int), pod@, changed),
        decreases steps@.len() - i,
    {
        proof {
            assert(steps@.take(i + 1).drop_last() =~= steps@.take(i as int));
            assert(steps@.take(i + 1).last() == steps@[i as int]);
        }
        if let Some(a) = live_update_step(&steps[i], pod, changed_paths) {
            let ghost before = r@;
            r.push(a);
            assert(actions_view(r@) =~= actions_view(before).push(a@));
        }
        i += 1;
    }
    assert(steps@.take(i as int) =~= steps@);
    r
}

} // verus!
