//! What a live update does to a pod, whatever its steps are.

use vstd::prelude::*;
use vstd::string::*;

use crate::engine::live_update::{fallback_paths, step_actions, StepV};
use crate::engine::runs::initial_syncs;
use crate::manifest::{CmdV, LiveUpdateStep};
use crate::paths::path_within;
use crate::text::texts;

verus! {

/// A command of these arguments alone, without a directory or an environment of its own.
pub open spec fn command_of(argv: Seq<Seq<char>>) -> Option<CmdV> {
    Some(CmdV { argv, workdir: None, env: Seq::empty() })
}

/// The number of the first `n` steps that do something to a pod.
pub open spec fn acting(steps: Seq<LiveUpdateStep>, n: int) -> int
    decreases n,
{
    if n <= 0 {
        0
    } else {
        acting(steps, n - 1) + if steps[n - 1] is Sync || steps[n - 1] is Run || steps[n
            - 1] is RestartContainer {
            1int
        } else {
            0int
        }
    }
}

/// The number of the first `n` steps that do something to a pod that starts.
pub open spec fn starting(steps: Seq<LiveUpdateStep>, n: int) -> int
    decreases n,
{
    if n <= 0 {
        0
    } else {
        starting(steps, n - 1) + if steps[n - 1] is Sync || steps[n - 1] is Run {
            1int
        } else {
            0int
        }
    }
}

/// Whether a changed path is one of the triggers or lies below one.
pub open spec fn triggered(triggers: Seq<String>, changed: Seq<Seq<char>>) -> bool {
    exists|i: int, j: int|
        0 <= i < changed.len() && 0 <= j < triggers.len() && #[trigger] path_within(
            changed[i],
            triggers[j]@,
        )
}

/// The counts of steps do not depend on the steps behind.
proof fn counts_kept(steps: Seq<LiveUpdateStep>, n: int)
    requires
        0 <= n < steps.len(),
    ensures
        acting(steps.drop_last(), n) == acting(steps, n),
        starting(steps.drop_last(), n) == starting(steps, n),
        0 <= acting(steps, n) <= n,
        0 <= starting(steps, n) <= n,
    decreases n,
{
    if n > 0 {
        counts_kept(steps, n - 1);
        assert(steps.drop_last()[n - 1] == steps[n - 1]);
    }
}

/// Counts of steps grow.
proof fn counts_grow(steps: Seq<LiveUpdateStep>, n: int, m: int)
    requires
        0 <= n <= m,
    ensures
        acting(steps, n) <= acting(steps, m),
        starting(steps, n) <= starting(steps, m),
        0 <= acting(steps, n),
        0 <= starting(steps, n),
    decreases m,
{
    if n < m {
        counts_grow(steps, n, m - 1);
    } else if n > 0 {
        counts_grow(steps, n - 1, n - 1);
    }
}

/// What the plan says of the step at an index.
proof fn planned(
    steps: Seq<LiveUpdateStep>,
    pod: Seq<char>,
    changed: Option<Seq<Seq<char>>>,
    i: int,
)
    requires
        0 <= i < steps.len(),
    ensures
        step_actions(steps, pod, changed).len() == acting(steps, steps.len() as int),
        steps[i] is Sync || steps[i] is Run || steps[i] is RestartContainer ==> {
            &&& acting(steps, i) < step_actions(steps, pod, changed).len()
            &&& Some(step_actions(steps, pod, changed)[acting(steps, i)])
                == crate::engine::live_update::step_action(steps[i], pod, changed)
        },
    decreases steps.len(),
{
    let n = steps.len() as int;
    let d = steps.drop_last();
    counts_kept(steps, n - 1);
    counts_grow(steps, i, n - 1);
    if n > 1 {
        planned(d, pod, changed, if i < n - 1 {
            i
        } else {
            0
        });
    }
    assert(step_actions(d, pod, changed).len() == acting(steps, n - 1));
    if i < n - 1 {
        counts_kept(steps, i);
        assert(d[i] == steps[i]);
    } else {
        assert(steps.last() == steps[i]);
    }
}

/// A live update does what its steps say, one after the other, and nothing else: its plan
/// has one place for each step that does something to the pod. At the place of a step that
/// syncs it copies the files into the pod. At that of a step that runs a command line it
/// runs it in the pod, where the step has no triggers, where it is not known what changed,
/// and where something changed that is a trigger or lies below one; it does nothing there
/// in no other case. At that of a step that restarts it deletes the pod.
pub proof fn update_planned(
    steps: Seq<LiveUpdateStep>,
    pod: Seq<char>,
    changed: Option<Seq<Seq<char>>>,
    i: int,
)
    requires
        0 <= i < steps.len(),
    ensures
        step_actions(steps, pod, changed).len() == acting(steps, steps.len() as int),
        steps[i] matches LiveUpdateStep::Sync { local, remote } ==> {
            &&& acting(steps, i) < step_actions(steps, pod, changed).len()
            &&& step_actions(steps, pod, changed)[acting(steps, i)].command == command_of(
                seq!["kubectl"@, "cp"@, local@, pod + ":"@ + remote@],
            )
        },
        steps[i] matches LiveUpdateStep::Run { cmd, echo_off, triggers } ==> {
            &&& acting(steps, i) < step_actions(steps, pod, changed).len()
            &&& triggers@.len() == 0 || changed is None || triggered(triggers@, changed->0)
                ==> step_actions(steps, pod, changed)[acting(steps, i)].command == command_of(
                seq!["kubectl"@, "exec"@, pod, "--"@, "sh"@, "-c"@, cmd@],
            )
            &&& step_actions(steps, pod, changed)[acting(steps, i)].command is None ==> changed
                is Some && triggers@.len() > 0 && !triggered(triggers@, changed->0)
            &&& triggers@.len() > 0 && changed is Some && !triggered(triggers@, changed->0)
                ==> step_actions(steps, pod, changed)[acting(steps, i)].command is None
        },
        steps[i] is RestartContainer ==> {
            &&& acting(steps, i) < step_actions(steps, pod, changed).len()
            &&& step_actions(steps, pod, changed)[acting(steps, i)].command == command_of(
                seq!["kubectl"@, "delete"@, "pod"@, pod, "--wait=false"@],
            )
        },
{
    planned(steps, pod, changed, i);
    if let LiveUpdateStep::Run { cmd, echo_off, triggers } = steps[i] {
        if let Some(paths) = changed {
            let t = texts(triggers@);
            if triggered(triggers@, paths) {
                let (a, b) = choose|a: int, b: int|
                    0 <= a < paths.len() && 0 <= b < triggers@.len() && #[trigger] path_within(
                        paths[a],
                        triggers@[b]@,
                    );
                assert(path_within(paths[a], t[b]));
                assert(crate::engine::ignore::hits_any(paths[a], t));
            } else {
                assert forall|a: int| 0 <= a < paths.len() implies
                    !crate::engine::ignore::hits_any(#[trigger] paths[a], t) by {
                    if crate::engine::ignore::hits_any(paths[a], t) {
                        let b = choose|b: int|
                            0 <= b < t.len() && path_within(paths[a], #[trigger] t[b]);
                        assert(path_within(paths[a], triggers@[b]@));
                    }
                }
            }
        }
    }
}

/// What a live update logs of a step names what the step does. A command line that is not
/// to be shown is logged in none of its letters where it runs: another one in its place
/// is logged alike.
pub proof fn update_logged(
    steps: Seq<LiveUpdateStep>,
    pod: Seq<char>,
    changed: Option<Seq<Seq<char>>>,
    i: int,
)
    requires
        0 <= i < steps.len(),
    ensures
        steps[i] matches LiveUpdateStep::Sync { local, remote } ==> step_actions(
            steps,
            pod,
            changed,
        )[acting(steps, i)].log == "  sync "@ + local@ + " -> "@ + remote@ + "\n"@,
        steps[i] matches LiveUpdateStep::Run { cmd, echo_off, triggers } ==> (if triggers@.len()
            == 0 || changed is None || triggered(triggers@, changed->0) {
            step_actions(steps, pod, changed)[acting(steps, i)].log == "  run "@ + (if echo_off {
                "<redacted>"@
            } else {
                cmd@
            }) + "\n"@
        } else {
            step_actions(steps, pod, changed)[acting(steps, i)].log
                == "  run skipped (trigger did not match): "@ + cmd@ + "\n"@
        }),
        steps[i] is RestartContainer ==> step_actions(steps, pod, changed)[acting(steps, i)].log
            == "  restart_container\n"@,
{
    planned(steps, pod, changed, i);
    update_planned(steps, pod, changed, i);
}

/// The plans of two lists of steps, one behind the other, stand one behind the other.
pub proof fn plans_follow(
    a: Seq<LiveUpdateStep>,
    b: Seq<LiveUpdateStep>,
    pod: Seq<char>,
    changed: Option<Seq<Seq<char>>>,
)
    ensures
        step_actions(a + b, pod, changed) == step_actions(a, pod, changed) + step_actions(
            b,
            pod,
            changed,
        ),
        initial_syncs(a + b, pod) == initial_syncs(a, pod) + initial_syncs(b, pod),
        fallback_paths(a + b) == fallback_paths(a) + fallback_paths(b),
    decreases b.len(),
{
    if b.len() > 0 {
        assert((a + b).drop_last() =~= a + b.drop_last());
        assert((a + b).last() == b.last());
        plans_follow(a, b.drop_last(), pod, changed);
        assert(step_actions(a + b, pod, changed) =~= step_actions(a, pod, changed) + step_actions(
            b,
            pod,
            changed,
        ));
        assert(initial_syncs(a + b, pod) =~= initial_syncs(a, pod) + initial_syncs(b, pod));
        assert(fallback_paths(a + b) =~= fallback_paths(a) + fallback_paths(b));
    } else {
        assert(a + b =~= a);
        assert(step_actions(a, pod, changed) + step_actions(b, pod, changed) =~= step_actions(
            a,
            pod,
            changed,
        ));
        assert(initial_syncs(a, pod) + initial_syncs(b, pod) =~= initial_syncs(a, pod));
        assert(fallback_paths(a) + fallback_paths(b) =~= fallback_paths(a));
    }
}

/// What the plan for a starting pod says of the step at an index.
proof fn sync_planned(steps: Seq<LiveUpdateStep>, pod: Seq<char>, i: int)
    requires
        0 <= i < steps.len(),
    ensures
        initial_syncs(steps, pod).len() == starting(steps, steps.len() as int),
        steps[i] is Sync || steps[i] is Run ==> {
            &&& starting(steps, i) < initial_syncs(steps, pod).len()
            &&& seq![initial_syncs(steps, pod)[starting(steps, i)]] == initial_syncs(
                seq![steps[i]],
                pod,
            )
        },
    decreases steps.len(),
{
    let n = steps.len() as int;
    let d = steps.drop_last();
    counts_kept(steps, n - 1);
    counts_grow(steps, i, n - 1);
    if n > 1 {
        sync_planned(d, pod, if i < n - 1 {
            i
        } else {
            0
        });
    }
    assert(initial_syncs(d, pod).len() == starting(steps, n - 1));
    if i < n - 1 {
        counts_kept(steps, i);
        assert(d[i] == steps[i]);
    } else {
        assert(steps.last() == steps[i]);
        let one = seq![steps[i]];
        assert(one.drop_last() =~= Seq::empty());
        assert(one.last() == steps[i]);
        assert(initial_syncs(one.drop_last(), pod) =~= Seq::empty());
        if steps[i] is Sync || steps[i] is Run {
            assert(initial_syncs(one, pod) =~= seq![initial_syncs(steps, pod)[starting(steps, i)]]);
        }
    }
}

/// A pod that starts gets all files and runs all command lines, in the order of the steps
/// and whatever their triggers are, and nothing else.
pub proof fn start_synced(steps: Seq<LiveUpdateStep>, pod: Seq<char>, i: int)
    requires
        0 <= i < steps.len(),
    ensures
        initial_syncs(steps, pod).len() == starting(steps, steps.len() as int),
        steps[i] matches LiveUpdateStep::Sync { local, remote } ==> {
            &&& starting(steps, i) < initial_syncs(steps, pod).len()
            &&& initial_syncs(steps, pod)[starting(steps, i)] == (StepV {
                log: "  initial_sync "@ + local@ + " -> "@ + remote@ + "\n"@,
                command: command_of(seq!["kubectl"@, "cp"@, local@, pod + ":"@ + remote@]),
            })
        },
        steps[i] matches LiveUpdateStep::Run { cmd, echo_off, triggers } ==> {
            &&& starting(steps, i) < initial_syncs(steps, pod).len()
            &&& initial_syncs(steps, pod)[starting(steps, i)] == (StepV {
                log: "  initial_sync run "@ + (if echo_off {
                    "<redacted>"@
                } else {
                    cmd@
                }) + "\n"@,
                command: command_of(seq!["kubectl"@, "exec"@, pod, "--"@, "sh"@, "-c"@, cmd@]),
            })
        },
{
    sync_planned(steps, pod, i);
    let one = seq![steps[i]];
    assert(one.drop_last() =~= Seq::empty());
    assert(one.last() == steps[i]);
    reveal_with_fuel(initial_syncs, 2);
    assert(initial_syncs(one, pod).len() > 0 ==> initial_syncs(one, pod)[0] == initial_syncs(
        steps,
        pod,
    )[starting(steps, i)] || !(steps[i] is Sync || steps[i] is Run));
}

/// The files whose changes call for a full rebuild are those that some step names.
pub proof fn fallback_named(steps: Seq<LiveUpdateStep>, path: Seq<char>)
    ensures
        fallback_paths(steps).contains(path) <==> exists|i: int, j: int|
            0 <= i < steps.len() && #[trigger] falls_back(steps[i], j, path),
    decreases steps.len(),
{
    if steps.len() > 0 {
        let d = steps.drop_last();
        let last = steps.last();
        fallback_named(d, path);
        assert(last == steps[steps.len() - 1]);
        if fallback_paths(steps).contains(path) {
            if fallback_paths(d).contains(path) {
                let (i, j) = choose|i: int, j: int|
                    0 <= i < d.len() && #[trigger] falls_back(d[i], j, path);
                assert(falls_back(steps[i], j, path));
            } else {
                let k = choose|k: int|
                    0 <= k < fallback_paths(steps).len() && fallback_paths(steps)[k] == path;
                let rest = fallback_paths(d);
                if k < rest.len() {
                    assert(rest[k] == path);
                }
                if let LiveUpdateStep::FallBackOn(paths) = last {
                    assert(texts(paths@)[k - rest.len()] == path);
                    assert(falls_back(steps[steps.len() - 1], k - rest.len(), path));
                }
            }
        }
        if exists|i: int, j: int|
            0 <= i < steps.len() && #[trigger] falls_back(steps[i], j, path) {
            let (i, j) = choose|i: int, j: int|
                0 <= i < steps.len() && #[trigger] falls_back(steps[i], j, path);
            if i < d.len() {
                assert(falls_back(d[i], j, path));
                let k = choose|k: int|
                    0 <= k < fallback_paths(d).len() && fallback_paths(d)[k] == path;
                assert(fallback_paths(steps)[k] == path);
            } else if let LiveUpdateStep::FallBackOn(paths) = last {
                assert(texts(paths@)[j] == path);
                assert(fallback_paths(steps)[fallback_paths(d).len() + j] == path);
            }
        }
    }
}

/// Whether a step calls for a full rebuild where the path changes, as the `j`-th it names.
pub open spec fn falls_back(step: LiveUpdateStep, j: int, path: Seq<char>) -> bool {
    step matches LiveUpdateStep::FallBackOn(paths) && 0 <= j < paths@.len() && paths@[j]@ == path
}

} // verus!
