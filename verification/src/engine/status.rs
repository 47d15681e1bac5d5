//! How builds, serve commands, probes and pods change the status of a resource.

use vstd::prelude::*;
use vstd::string::*;

use crate::api::v1alpha1::{
    UIBuildRunning, UIBuildTerminated, UIResourceCondition, UIResourceLink, UIResourceLocal,
    UIResourceStatus,
};
use crate::manifest::TargetKind;
use crate::text::{opt_text, owned, same};

verus! {

/// The number of finished builds that are remembered.
pub const BUILD_HISTORY: usize = 10;

/// Whether the text is there and is the given one.
pub open spec fn says(o: Option<String>, s: Seq<char>) -> bool {
    o is Some && o->0@ == s
}

/// The status of a resource that is paused when a build is due: the build is left
/// pending.
pub fn mark_paused(st: &mut UIResourceStatus, now: &str)
    ensures
        *final(st) == (UIResourceStatus {
            queued: Some(false),
            has_pending_changes: Some(true),
            pending_build_since: final(st).pending_build_since,
            update_status: final(st).update_status,
            ..*old(st)
        }),
        says(final(st).pending_build_since, now@),
        says(final(st).update_status, "none"@),
{
    st.queued = Some(false);
    st.has_pending_changes = Some(true);
    st.pending_build_since = Some(owned(now));
    st.update_status = Some(owned("none"));
}

/// The status of a resource whose files changed while it is paused or is built
/// only when asked.
pub fn mark_pending(st: &mut UIResourceStatus, now: &str)
    ensures
        *final(st) == (UIResourceStatus {
            has_pending_changes: Some(true),
            pending_build_since: final(st).pending_build_since,
            ..*old(st)
        }),
        says(final(st).pending_build_since, now@),
{
    st.has_pending_changes = Some(true);
    st.pending_build_since = Some(owned(now));
}

/// Whether a build with the start and the span is the running one.
pub open spec fn runs(b: Option<UIBuildRunning>, start: Seq<char>, span: Seq<char>) -> bool {
    b is Some && says(b->0.start_time, start) && says(b->0.span_id, span)
}

/// The status of a resource whose build starts.
pub fn mark_building(st: &mut UIResourceStatus, now: &str, span: &str)
    ensures
        *final(st) == (UIResourceStatus {
            queued: Some(false),
            pending_build_since: None,
            update_status: final(st).update_status,
            current_build: final(st).current_build,
            ..*old(st)
        }),
        says(final(st).update_status, "in_progress"@),
        runs(final(st).current_build, now@, span@),
{
    st.queued = Some(false);
    st.pending_build_since = None;
    st.update_status = Some(owned("in_progress"));
    st.current_build = Some(
        UIBuildRunning { start_time: Some(owned(now)), span_id: Some(owned(span)) },
    );
}

/// The status of a resource whose live update starts.
pub fn mark_live_updating(st: &mut UIResourceStatus, now: &str, span: &str)
    ensures
        *final(st) == (UIResourceStatus {
            update_status: final(st).update_status,
            current_build: final(st).current_build,
            ..*old(st)
        }),
        says(final(st).update_status, "in_progress"@),
        runs(final(st).current_build, now@, span@),
{
    st.update_status = Some(owned("in_progress"));
    st.current_build = Some(
        UIBuildRunning { start_time: Some(owned(now)), span_id: Some(owned(span)) },
    );
}

/// The status of a resource whose images could not be built.
pub fn mark_images_failed(st: &mut UIResourceStatus)
    ensures
        *final(st) == (UIResourceStatus {
            queued: Some(false),
            pending_build_since: None,
            update_status: final(st).update_status,
            ..*old(st)
        }),
        says(final(st).update_status, "error"@),
{
    st.queued = Some(false);
    st.pending_build_since = None;
    st.update_status = Some(owned("error"));
}

/// The status of a resource that has nothing to build. One without a serve command
/// gets a runtime status where it has none.
pub fn mark_up_to_date(st: &mut UIResourceStatus, kind: TargetKind, serves: bool)
    ensures
        *final(st) == (UIResourceStatus {
            queued: Some(false),
            pending_build_since: None,
            update_status: final(st).update_status,
            runtime_status: final(st).runtime_status,
            ..*old(st)
        }),
        says(final(st).update_status, "ok"@),
        if !serves && old(st).runtime_status is None {
            says(
                final(st).runtime_status,
                if kind == TargetKind::Local {
                    "not_applicable"@
                } else {
                    "pending"@
                },
            )
        } else {
            final(st).runtime_status == old(st).runtime_status
        },
{
    st.queued = Some(false);
    st.pending_build_since = None;
    st.update_status = Some(owned("ok"));
    if !serves && st.runtime_status.is_none() {
        st.runtime_status = Some(
            match kind {
                TargetKind::Local => owned("not_applicable"),
                _ => owned("pending"),
            },
        );
    }
}

/// A finished build.
pub open spec fn terminated(
    b: UIBuildTerminated,
    start: Seq<char>,
    finish: Seq<char>,
    span: Seq<char>,
    error: Option<Seq<char>>,
) -> bool {
    &&& says(b.start_time, start)
    &&& says(b.finish_time, finish)
    &&& says(b.span_id, span)
    &&& opt_text(b.error) == error
    &&& b.warnings@.len() == 0
    &&& b.is_crash_rebuild is None
}

/// The history after one more build: the newest first, no more than are remembered.
pub open spec fn history_after(
    before: Seq<UIBuildTerminated>,
    after: Seq<UIBuildTerminated>,
) -> bool {
    let all = before.insert(0, after[0]);
    &&& after.len() > 0
    &&& after == if all.len() > BUILD_HISTORY {
        all.take(BUILD_HISTORY as int)
    } else {
        all
    }
}

/// Remembers a finished build.
fn remember_build(
    history: &mut Vec<UIBuildTerminated>,
    start: &str,
    finish: &str,
    span: &str,
    error: &Option<String>,
)
    ensures
        history_after(old(history)@, final(history)@),
        terminated(final(history)@[0], start@, finish@, span@, opt_text(*error)),
{
    let build = UIBuildTerminated {
        error: error.clone(),
        warnings: Vec::new(),
        start_time: Some(owned(start)),
        finish_time: Some(owned(finish)),
        span_id: Some(owned(span)),
        is_crash_rebuild: None,
    };
    let ghost before = history@;
    history.insert(0, build);
    let ghost all = history@;
    history.truncate(BUILD_HISTORY);
    proof {
        assert(history@[0] == all[0]);
        assert(all == before.insert(0, history@[0]));
        if all.len() > BUILD_HISTORY {
            assert(history@ =~= all.take(BUILD_HISTORY as int));
        } else if all.len() == BUILD_HISTORY {
            assert(history@ =~= all);
        }
    }
}

/// How a finished build leaves the runtime status: as it is, or with a value where
/// it has none, or with a value in any case.
#[derive(Clone, Copy, PartialEq, Eq, Structural)]
pub enum RuntimeAfter {
    Keep,
    NotApplicableIfUnset,
    NotApplicable,
    Error,
}

/// The status of a resource whose build ended.
pub fn mark_built(
    st: &mut UIResourceStatus,
    start: &str,
    finish: &str,
    span: &str,
    error: &Option<String>,
    runtime: RuntimeAfter,
)
    ensures
        *final(st) == (UIResourceStatus {
            current_build: None,
            last_deploy_time: final(st).last_deploy_time,
            update_status: final(st).update_status,
            runtime_status: final(st).runtime_status,
            build_history: final(st).build_history,
            ..*old(st)
        }),
        says(final(st).last_deploy_time, finish@),
        says(
            final(st).update_status,
            if error is None {
                "ok"@
            } else {
                "error"@
            },
        ),
        match runtime {
            RuntimeAfter::Keep => final(st).runtime_status == old(st).runtime_status,
            RuntimeAfter::NotApplicableIfUnset => if old(st).runtime_status is None {
                says(final(st).runtime_status, "not_applicable"@)
            } else {
                final(st).runtime_status == old(st).runtime_status
            },
            RuntimeAfter::NotApplicable => says(final(st).runtime_status, "not_applicable"@),
            RuntimeAfter::Error => says(final(st).runtime_status, "error"@),
        },
        history_after(old(st).build_history@, final(st).build_history@),
        terminated(
            final(st).build_history@[0],
            start@,
            finish@,
            span@,
            opt_text(*error),
        ),
{
    st.current_build = None;
    st.last_deploy_time = Some(owned(finish));
    st.update_status = Some(
        if error.is_none() {
            owned("ok")
        } else {
            owned("error")
        },
    );
    match runtime {
        RuntimeAfter::Keep => {},
        RuntimeAfter::NotApplicableIfUnset => {
            if st.runtime_status.is_none() {
                st.runtime_status = Some(owned("not_applicable"));
            }
        },
        RuntimeAfter::NotApplicable => {
            st.runtime_status = Some(owned("not_applicable"));
        },
        RuntimeAfter::Error => {
            st.runtime_status = Some(owned("error"));
        },
    }
    remember_build(&mut st.build_history, start, finish, span, error);
}

/// Gives the resource a runtime status.
pub fn set_runtime(st: &mut UIResourceStatus, status: &str)
    ensures
        *final(st) == (UIResourceStatus { runtime_status: final(st).runtime_status, ..*old(st) }),
        says(final(st).runtime_status, status@),
{
    st.runtime_status = Some(owned(status));
}

/// The local details of a resource, empty where there are none.
pub open spec fn local_or_empty(o: Option<UIResourceLocal>) -> UIResourceLocal {
    match o {
        Some(l) => l,
        None => UIResourceLocal {
            pid: None,
            is_test: None,
            restart_count: None,
            last_start_time: None,
        },
    }
}

/// The status of a resource whose serve command is about to start.
pub fn mark_serve_pending(st: &mut UIResourceStatus, restarts: i32, started: &str)
    ensures
        *final(st) == (UIResourceStatus {
            runtime_status: final(st).runtime_status,
            local_resource_info: final(st).local_resource_info,
            ..*old(st)
        }),
        says(final(st).runtime_status, "pending"@),
        final(st).local_resource_info is Some,
        final(st).local_resource_info->0 == (UIResourceLocal {
            restart_count: Some(restarts),
            last_start_time: final(st).local_resource_info->0.last_start_time,
            ..local_or_empty(old(st).local_resource_info)
        }),
        says(final(st).local_resource_info->0.last_start_time, started@),
{
    st.runtime_status = Some(owned("pending"));
    let (pid, is_test) = match &st.local_resource_info {
        Some(l) => (l.pid, l.is_test),
        None => (None, None),
    };
    st.local_resource_info = Some(
        UIResourceLocal {
            pid,
            is_test,
            restart_count: Some(restarts),
            last_start_time: Some(owned(started)),
        },
    );
}

/// The status of a resource whose serve command runs. With a readiness probe it is
/// pending until the probe succeeds.
pub fn mark_serving(
    st: &mut UIResourceStatus,
    probed: bool,
    pid: Option<u32>,
    is_test: bool,
    restarts: i32,
    started: &str,
)
    ensures
        *final(st) == (UIResourceStatus {
            runtime_status: final(st).runtime_status,
            local_resource_info: final(st).local_resource_info,
            ..*old(st)
        }),
        says(
            final(st).runtime_status,
            if probed {
                "pending"@
            } else {
                "ok"@
            },
        ),
        final(st).local_resource_info is Some,
        final(st).local_resource_info->0 == (UIResourceLocal {
            pid: match pid {
                Some(p) => Some(p as i64),
                None => None,
            },
            is_test: Some(is_test),
            restart_count: Some(restarts),
            last_start_time: final(st).local_resource_info->0.last_start_time,
        }),
        says(final(st).local_resource_info->0.last_start_time, started@),
{
    st.runtime_status = Some(
        if probed {
            owned("pending")
        } else {
            owned("ok")
        },
    );
    st.local_resource_info = Some(
        UIResourceLocal {
            pid: match pid {
                Some(p) => Some(p as i64),
                None => None,
            },
            is_test: Some(is_test),
            restart_count: Some(restarts),
            last_start_time: Some(owned(started)),
        },
    );
}

/// The conditions of other types.
pub open spec fn other_conditions(
    c: Seq<UIResourceCondition>,
    condition_type: Seq<char>,
) -> Seq<UIResourceCondition>
    decreases c.len(),
{
    if c.len() == 0 {
        Seq::empty()
    } else {
        let rest = other_conditions(c.drop_last(), condition_type);
        if c.last().condition_type@ == condition_type {
            rest
        } else {
            rest.push(c.last())
        }
    }
}

/// Takes out the conditions of a type.
fn drop_conditions(v: &mut Vec<UIResourceCondition>, condition_type: &str)
    ensures
        final(v)@ == other_conditions(old(v)@, condition_type@),
{
    let ghost all = v@;
    let ghost mut done: int = 0;
    let mut i: usize = 0;
    assert(all =~= other_conditions(all.take(0), condition_type@) + all.skip(0));
    while i < v.len()
        invariant
            all == old(v)@,
            0 <= done <= all.len(),
            i == other_conditions(all.take(done), condition_type@).len(),
            v@ == other_conditions(all.take(done), condition_type@) + all.skip(done),
        decreases v@.len() - i,
    {
        let ghost before = v@;
        let ghost kept = other_conditions(all.take(done), condition_type@);
        proof {
            assert(v@[i as int] == all.skip(done)[0]);
            assert(all.take(done + 1).drop_last() =~= all.take(done));
            assert(all.take(done + 1).last() == all[done]);
        }
        if same(v[i].condition_type.as_str(), condition_type) {
            v.remove(i);
            assert(v@ =~= kept + all.skip(done + 1));
        } else {
            assert(v@ =~= kept.push(all[done]) + all.skip(done + 1));
            i += 1;
        }
        proof {
            done = done + 1;
        }
    }
    proof {
        let kept = other_conditions(all.take(done), condition_type@);
        assert(v@.len() == kept.len() + all.skip(done).len());
        assert(all.take(done) =~= all);
        assert(v@ =~= kept);
    }
}

/// A condition.
pub open spec fn states_condition(
    c: UIResourceCondition,
    condition_type: Seq<char>,
    holds: bool,
    now: Seq<char>,
    reason: Seq<char>,
    message: Option<Seq<char>>,
) -> bool {
    &&& c.condition_type@ == condition_type
    &&& c.status@ == if holds {
        "True"@
    } else {
        "False"@
    }
    &&& says(c.last_transition_time, now)
    &&& says(c.reason, reason)
    &&& opt_text(c.message) == message
}

/// Replaces the condition of a type.
pub fn set_condition(
    st: &mut UIResourceStatus,
    condition_type: &str,
    holds: bool,
    now: &str,
    reason: &str,
    message: Option<String>,
)
    ensures
        *final(st) == (UIResourceStatus { conditions: final(st).conditions, ..*old(st) }),
        final(st).conditions@.len() > 0,
        final(st).conditions@.drop_last() == other_conditions(
            old(st).conditions@,
            condition_type@,
        ),
        states_condition(
            final(st).conditions@.last(),
            condition_type@,
            holds,
            now@,
            reason@,
            opt_text(message),
        ),
{
    drop_conditions(&mut st.conditions, condition_type);
    let ghost kept = st.conditions@;
    let condition = UIResourceCondition {
        condition_type: owned(condition_type),
        status: if holds {
            owned("True")
        } else {
            owned("False")
        },
        last_transition_time: Some(owned(now)),
        reason: Some(owned(reason)),
        message,
    };
    st.conditions.push(condition);
    assert(st.conditions@.drop_last() =~= kept);
}

/// The links with other names.
pub open spec fn other_links(l: Seq<UIResourceLink>, name: Seq<char>) -> Seq<UIResourceLink>
    decreases l.len(),
{
    if l.len() == 0 {
        Seq::empty()
    } else {
        let rest = other_links(l.drop_last(), name);
        if says(l.last().name, name) {
            rest
        } else {
            rest.push(l.last())
        }
    }
}

fn link_named(l: &UIResourceLink, name: &str) -> (r: bool)
    ensures
        r == says(l.name, name@),
{
    match &l.name {
        Some(n) => same(n.as_str(), name),
        None => false,
    }
}

/// Takes out the links with a name.
fn drop_links(v: &mut Vec<UIResourceLink>, name: &str)
    ensures
        final(v)@ == other_links(old(v)@, name@),
{
    let ghost all = v@;
    let ghost mut done: int = 0;
    let mut i: usize = 0;
    assert(all =~= other_links(all.take(0), name@) + all.skip(0));
    while i < v.len()
        invariant
            all == old(v)@,
            0 <= done <= all.len(),
            i == other_links(all.take(done), name@).len(),
            v@ == other_links(all.take(done), name@) + all.skip(done),
        decreases v@.len() - i,
    {
        let ghost before = v@;
        let ghost kept = other_links(all.take(done), name@);
        proof {
            assert(v@[i as int] == all.skip(done)[0]);
            assert(all.take(done + 1).drop_last() =~= all.take(done));
            assert(all.take(done + 1).last() == all[done]);
        }
        if link_named(&v[i], name) {
            v.remove(i);
            assert(v@ =~= kept + all.skip(done + 1));
        } else {
            assert(v@ =~= kept.push(all[done]) + all.skip(done + 1));
            i += 1;
        }
        proof {
            done = done + 1;
        }
    }
    proof {
        let kept = other_links(all.take(done), name@);
        assert(v@.len() == kept.len() + all.skip(done).len());
        assert(all.take(done) =~= all);
        assert(v@ =~= kept);
    }
}

/// Makes the named URL of a resource the first of its links.
pub fn set_named_link(st: &mut UIResourceStatus, url: &str, host: &str)
    ensures
        *final(st) == (UIResourceStatus { endpoint_links: final(st).endpoint_links, ..*old(st) }),
        final(st).endpoint_links@.len() > 0,
        final(st).endpoint_links@.drop_first() == other_links(old(st).endpoint_links@, host@),
        says(final(st).endpoint_links@[0].url, url@),
        says(final(st).endpoint_links@[0].name, host@),
{
    drop_links(&mut st.endpoint_links, host);
    let ghost kept = st.endpoint_links@;
    st.endpoint_links.insert(
        0,
        UIResourceLink { url: Some(owned(url)), name: Some(owned(host)) },
    );
    assert(st.endpoint_links@.drop_first() =~= kept);
}

/// However many builds end, the newest are remembered, newest first.
pub proof fn history_bounded(before: Seq<UIBuildTerminated>, after: Seq<UIBuildTerminated>)
    requires
        history_after(before, after),
    ensures
        after.len() <= BUILD_HISTORY,
        forall|i: int| 1 <= i < after.len() ==> (#[trigger] after[i]) == before[i - 1],
{
}

} // verus!
