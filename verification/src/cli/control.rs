//! Commands that steer running instances and the daemon, and bringing a project up.

use vstd::prelude::*;
use vstd::string::*;

use crate::daemon::protocol::{
    infos_view, states_view, DashboardState, InstanceState, InstanceStateV, Request, Response,
    RouteV,
};
use crate::engine::watch::{directory_holding, directory_of};
use crate::paths::{components, components_of, file_name, file_name_of};
use crate::text::{
    cat, cat3, debug_list, debug_texts, dec, decimal, ends, ends_with, owned, same, texts,
    texts_push,
};

verus! {

/// The config file to load: the one that was asked for, else the first that exists of
/// two, else the first of them.
pub fn resolve_config(explicit: Option<&str>, starlingfile: bool, tiltfile: bool) -> (r: String)
    ensures
        r@ == (match explicit {
            Some(f) => f@,
            None => if !starlingfile && tiltfile {
                "Tiltfile"@
            } else {
                "Starlingfile"@
            },
        }),
{
    match explicit {
        Some(f) => owned(f),
        None => if !starlingfile && tiltfile {
            owned("Tiltfile")
        } else {
            owned("Starlingfile")
        },
    }
}

/// The directory of a project: that of its config file, whose path is given where it
/// exists, else the current one, where that is known.
pub open spec fn project_directory(config: Option<Seq<char>>, current: Option<Seq<char>>) -> Seq<
    char,
> {
    match config {
        Some(c) if components(c).len() > 1 => directory_of(c),
        _ => match current {
            Some(d) => d,
            None => Seq::empty(),
        },
    }
}

/// The directory of a project. The path of the config file is given with the links in it
/// resolved.
pub fn project_dir(config: Option<&str>, current: Option<&str>) -> (r: String)
    ensures
        r@ == project_directory(
            match config {
                Some(c) => Some(c@),
                None => None,
            },
            match current {
                Some(d) => Some(d@),
                None => None,
            },
        ),
{
    if let Some(c) = config {
        let parts = components_of(c);
        assert(texts(parts@).len() == parts@.len());
        if parts.len() > 1 {
            return directory_holding(c);
        }
    }
    match current {
        Some(d) => owned(d),
        None => {
            let r = String::new();
            assert(r@ =~= Seq::empty());
            r
        },
    }
}

/// The name of a project: that of its directory.
pub fn project_name(dir: &str) -> (r: String)
    ensures
        r@ == (match file_name(dir@) {
            Some(n) => n,
            None => "app"@,
        }),
{
    match file_name_of(dir) {
        Some(n) => n,
        None => owned("app"),
    }
}

/// The ids of the instances of a project.
pub open spec fn ids_of(instances: Seq<InstanceStateV>, dir: Seq<char>) -> Seq<Seq<char>>
    decreases instances.len(),
{
    if instances.len() == 0 {
        Seq::empty()
    } else if instances.last().dir == dir {
        ids_of(instances.drop_last(), dir).push(instances.last().id)
    } else {
        ids_of(instances.drop_last(), dir)
    }
}

/// The ids of the instances of a project; an error where there are none.
pub fn project_instances(state: &DashboardState, dir: &str) -> (r: Result<Vec<String>, String>)
    ensures
        ({
            let ids = ids_of(states_view(state.instances@), dir@);
            match r {
                Ok(v) => texts(v@) == ids && ids.len() > 0,
                Err(e) => ids.len() == 0 && e@ == "no running Starling instance found for "@ + dir@,
            }
        }),
{
    broadcast use texts_push;

    let ghost all = states_view(state.instances@);
    let mut out: Vec<String> = Vec::new();
    let mut i: usize = 0;
    assert(texts(out@) =~= ids_of(all.take(0), dir@));
    while i < state.instances.len()
        invariant
            i <= state.instances@.len(),
            all == states_view(state.instances@),
            texts(out@) == ids_of(all.take(i as int), dir@),
        decreases state.instances@.len() - i,
    {
        let inst = &state.instances[i];
        proof {
            assert(all.take(i + 1).drop_last() =~= all.take(i as int));
            assert(all.take(i + 1).last() == inst@);
        }
        if same(inst.dir.as_str(), dir) {
            out.push(inst.id.clone());
        }
        i += 1;
    }
    assert(all.take(i as int) =~= all);
    if out.len() == 0 {
        assert(texts(out@).len() == 0);
        Err(cat("no running Starling instance found for ", dir))
    } else {
        assert(texts(out@).len() == out@.len());
        Ok(out)
    }
}

/// What a command does to a resource.
#[derive(Debug, Clone, Copy, PartialEq, Eq, Structural)]
pub enum ResourceAction {
    Trigger,
    Enable,
    Disable,
}

/// Whether a request has an instance do something to a resource.
pub open spec fn asks(r: Request, action: ResourceAction, instance: Seq<char>, resource: Seq<char>) -> bool {
    match action {
        ResourceAction::Trigger => r is Trigger && r->Trigger_instance@ == instance
            && r->Trigger_resource@ == resource,
        ResourceAction::Enable => r is SetPaused && r->SetPaused_instance@ == instance
            && r->SetPaused_resource@ == resource && !r->paused,
        ResourceAction::Disable => r is SetPaused && r->SetPaused_instance@ == instance
            && r->SetPaused_resource@ == resource && r->paused,
    }
}

/// The request that has an instance do something to a resource.
pub fn resource_request(action: ResourceAction, instance: &str, resource: &str) -> (r: Request)
    ensures
        asks(r, action, instance@, resource@),
{
    match action {
        ResourceAction::Trigger => Request::Trigger {
            instance: owned(instance),
            resource: owned(resource),
        },
        ResourceAction::Enable => Request::SetPaused {
            instance: owned(instance),
            resource: owned(resource),
            paused: false,
        },
        ResourceAction::Disable => Request::SetPaused {
            instance: owned(instance),
            resource: owned(resource),
            paused: true,
        },
    }
}

/// The line that is printed once something was done to a resource.
pub fn resource_done(action: ResourceAction, resource: &str) -> (r: String)
    ensures
        r@ == (match action {
            ResourceAction::Trigger => "Triggered"@,
            ResourceAction::Enable => "Enabled"@,
            ResourceAction::Disable => "Disabled"@,
        }) + " "@ + resource@,
{
    let verb = match action {
        ResourceAction::Trigger => "Triggered",
        ResourceAction::Enable => "Enabled",
        ResourceAction::Disable => "Disabled",
    };
    cat3(verb, " ", resource)
}

/// What the reply to a command for an instance means.
#[derive(Debug, PartialEq)]
pub enum CommandReply {
    /// It was taken.
    Taken,
    /// It was refused, for this reason.
    Refused(String),
    /// It is no reply to such a command.
    Unexpected,
}

/// What the reply to a command for an instance means.
pub fn command_reply(reply: &Response) -> (r: CommandReply)
    ensures
        match *reply {
            Response::Done => r is Taken,
            Response::Error(e) => r is Refused && r->Refused_0@ == e@,
            _ => r is Unexpected,
        },
{
    match reply {
        Response::Done => CommandReply::Taken,
        Response::Error(e) => CommandReply::Refused(e.clone()),
        _ => CommandReply::Unexpected,
    }
}

/// The line that is printed once the arguments of the config were replaced.
pub fn args_set(args: &Vec<String>) -> (r: String)
    ensures
        r@ == (if args@.len() == 0 {
            "Cleared Tiltfile args; reloading."@
        } else {
            "Set Tiltfile args to "@ + debug_list(texts(args@)) + "; reloading."@
        }),
{
    if args.len() == 0 {
        owned("Cleared Tiltfile args; reloading.")
    } else {
        cat3("Set Tiltfile args to ", debug_texts(args).as_str(), "; reloading.")
    }
}

/// A number of things, in the plural unless it is one.
pub open spec fn counted_text(n: nat, what: Seq<char>, plural: Seq<char>) -> Seq<char> {
    dec(n) + " "@ + what + (if n == 1 {
        Seq::empty()
    } else {
        plural
    })
}

/// A number of things, in the plural unless it is one.
pub fn count_text(n: usize, what: &str, plural: &str) -> (r: String)
    ensures
        r@ == counted_text(n as nat, what@, plural@),
{
    let mut r = cat3(decimal(n as u64).as_str(), " ", what);
    if n != 1 {
        r.append(plural);
    }
    assert(r@ =~= counted_text(n as nat, what@, plural@));
    r
}

/// The line that is printed when the instances of a project are stopped.
pub fn stopping_project(instances: usize, dir: &str) -> (r: String)
    ensures
        r@ == (if instances == 0 {
            "No running Starling instance found for "@ + dir@
        } else {
            "Stopping "@ + counted_text(instances as nat, "Starling instance"@, "s"@) + " for "@
                + dir@ + "..."@
        }),
{
    if instances == 0 {
        return cat("No running Starling instance found for ", dir);
    }
    let mut r = cat3(
        "Stopping ",
        count_text(instances, "Starling instance", "s").as_str(),
        " for ",
    );
    r.append(dir);
    r.append("...");
    r
}

/// The error of a project that did not stop.
pub fn project_not_stopped(instances: usize) -> (r: String)
    ensures
        r@ == "shutdown was queued, but "@ + counted_text(instances as nat, "instance"@, "s"@)
            + " did not stop within 15s; run `starling clean` to force-kill leftover processes"@,
{
    cat3(
        "shutdown was queued, but ",
        count_text(instances, "instance", "s").as_str(),
        " did not stop within 15s; run `starling clean` to force-kill leftover processes",
    )
}

/// Whether an instance of an id is there.
pub open spec fn has_instance(instances: Seq<InstanceStateV>, id: Seq<char>) -> bool {
    exists|i: int| 0 <= i < instances.len() && (#[trigger] instances[i]).id == id
}

fn instance_there(instances: &Vec<InstanceState>, id: &str) -> (r: bool)
    ensures
        r == has_instance(states_view(instances@), id@),
{
    let mut i: usize = 0;
    while i < instances.len()
        invariant
            i <= instances@.len(),
            forall|j: int| 0 <= j < i ==> (#[trigger] states_view(instances@)[j]).id != id@,
        decreases instances@.len() - i,
    {
        assert(states_view(instances@)[i as int].id == instances@[i as int].id@);
        if same(instances[i].id.as_str(), id) {
            return true;
        }
        i += 1;
    }
    false
}

/// Whether none of the instances is there any more.
pub fn all_gone(ids: &Vec<String>, state: &DashboardState) -> (r: bool)
    ensures
        r == (forall|i: int|
            0 <= i < ids@.len() ==> !has_instance(
                states_view(state.instances@),
                (#[trigger] ids@[i])@,
            )),
{
    let mut i: usize = 0;
    while i < ids.len()
        invariant
            i <= ids@.len(),
            forall|j: int|
                0 <= j < i ==> !has_instance(
                    states_view(state.instances@),
                    (#[trigger] ids@[j])@,
                ),
        decreases ids@.len() - i,
    {
        if instance_there(&state.instances, ids[i].as_str()) {
            assert(has_instance(states_view(state.instances@), ids@[i as int]@));
            return false;
        }
        i += 1;
    }
    true
}

/// The line that is printed when the daemon is stopped with its instances.
pub fn stopping_daemon(instances: usize) -> (r: String)
    ensures
        r@ == "Stopping Starling daemon and "@ + counted_text(instances as nat, "instance"@, "s"@)
            + "..."@,
{
    cat3(
        "Stopping Starling daemon and ",
        count_text(instances, "instance", "s").as_str(),
        "...",
    )
}

/// The line that is printed when the daemon is stopped before a sweep.
pub fn stopping_before_sweep(instances: usize) -> (r: String)
    ensures
        r@ == "Stopping daemon and "@ + counted_text(instances as nat, "instance"@, "s"@) + "..."@,
{
    cat3("Stopping daemon and ", count_text(instances, "instance", "s").as_str(), "...")
}

/// The line that is printed when the daemon is restarted.
pub fn restarting_daemon(instances: usize) -> (r: String)
    ensures
        r@ == "Restarting Starling daemon; stopping "@ + counted_text(
            instances as nat,
            "instance"@,
            "s"@,
        ) + " first..."@,
{
    cat3(
        "Restarting Starling daemon; stopping ",
        count_text(instances, "instance", "s").as_str(),
        " first...",
    )
}

/// The line that is printed after a sweep.
pub fn swept(stopped: usize) -> (r: String)
    ensures
        r@ == (if stopped == 0 {
            "Clean: nothing left running."@
        } else {
            "Clean: stopped "@ + counted_text(stopped as nat, "Starling process"@, "es"@) + "."@
        }),
{
    if stopped == 0 {
        owned("Clean: nothing left running.")
    } else {
        cat3("Clean: stopped ", count_text(stopped, "Starling process", "es").as_str(), ".")
    }
}

/// What the command for the daemon does.
#[derive(Debug, Clone, Copy, PartialEq, Eq, Structural)]
pub enum DaemonAction {
    /// It deals with the service.
    Service,
    /// The options of the service and of the daemon are mixed.
    MixedService,
    /// It is to stop and to restart the daemon.
    MixedStop,
    Stop,
    Restart,
    Run,
}

/// What the command for the daemon does.
pub fn daemon_action(service: bool, shutdown: bool, restart: bool, reload: bool) -> (r: DaemonAction)
    ensures
        r == (if service {
            if shutdown || restart || reload {
                DaemonAction::MixedService
            } else {
                DaemonAction::Service
            }
        } else if shutdown {
            if restart || reload {
                DaemonAction::MixedStop
            } else {
                DaemonAction::Stop
            }
        } else if restart || reload {
            DaemonAction::Restart
        } else {
            DaemonAction::Run
        }),
{
    if service {
        if shutdown || restart || reload {
            DaemonAction::MixedService
        } else {
            DaemonAction::Service
        }
    } else if shutdown {
        if restart || reload {
            DaemonAction::MixedStop
        } else {
            DaemonAction::Stop
        }
    } else if restart || reload {
        DaemonAction::Restart
    } else {
        DaemonAction::Run
    }
}

/// The lines that make the hostnames of routes known: those that do not resolve by
/// themselves.
pub open spec fn hosts_of(routes: Seq<RouteV>) -> Seq<char>
    decreases routes.len(),
{
    if routes.len() == 0 {
        Seq::empty()
    } else {
        let rest = hosts_of(routes.drop_last());
        let h = routes.last().hostname;
        if ends_with(h, ".localhost"@) {
            rest
        } else {
            rest + ("127.0.0.1 "@ + h + " # starling\n"@)
        }
    }
}

/// Whether a hostname does not resolve by itself.
pub open spec fn any_host(routes: Seq<RouteV>) -> bool {
    exists|i: int|
        0 <= i < routes.len() && !ends_with((#[trigger] routes[i]).hostname, ".localhost"@)
}

/// The lines that make the hostnames of routes known; nothing where all of them
/// resolve by themselves.
pub fn hosts_block(state: &DashboardState) -> (r: Option<String>)
    ensures
        match r {
            Some(b) => b@ == hosts_of(infos_view(state.routes@)) && any_host(
                infos_view(state.routes@),
            ),
            None => !any_host(infos_view(state.routes@)),
        },
{
    let ghost all = infos_view(state.routes@);
    let mut found = false;
    let mut block = String::new();
    let mut i: usize = 0;
    assert(block@ =~= hosts_of(all.take(0)));
    while i < state.routes.len()
        invariant
            i <= state.routes@.len(),
            all == infos_view(state.routes@),
            block@ == hosts_of(all.take(i as int)),
            found == (exists|j: int|
                0 <= j < i && !ends_with((#[trigger] all[j]).hostname, ".localhost"@)),
        decreases state.routes@.len() - i,
    {
        let h = state.routes[i].hostname.as_str();
        proof {
            assert(all.take(i + 1).drop_last() =~= all.take(i as int));
            assert(all.take(i + 1).last() == state.routes@[i as int]@);
            assert(all[i as int].hostname == h@);
        }
        if !ends(h, ".localhost") {
            found = true;
            block.append(cat3("127.0.0.1 ", h, " # starling\n").as_str());
        }
        i += 1;
    }
    assert(all.take(i as int) =~= all);
    if found {
        Some(block)
    } else {
        None
    }
}

} // verus!
