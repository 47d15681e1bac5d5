//! Bringing a project up: its proxy, its config, what it reports and how it stops.

use vstd::prelude::*;
use vstd::string::*;

use crate::api::store::{objects_view, ObjectV, StoredObject};
use crate::api::v1alpha1::UIResource;
use crate::daemon::protocol::{
    snapshots_view, ApiObjectSnapshot, Command, Request, ResourceSnapshot, SnapshotV,
};
use crate::daemon::state::among;
use crate::engine::builds::printed_logs;
use crate::engine::log::{line, log_v, logs, logs_push, Level, LogLine};
use crate::frontend::{shows_resource, snapshot};
use crate::proxy_handle::ProxyConfig;
use crate::text::{cat, cat3, dec, decimal, lines, lines_of, owned, texts};

verus! {

/// Who serves the named URLs of a project.
#[derive(Debug, Clone, Copy, PartialEq, Eq, Structural)]
pub enum ProxyMode {
    /// Nobody.
    Off,
    /// The process of the project.
    Local,
    /// The daemon, which all projects share.
    Daemon,
}

/// Who serves the named URLs of a project.
pub fn proxy_mode(no_proxy: bool, no_daemon: bool) -> (r: ProxyMode)
    ensures
        r == (if no_proxy {
            ProxyMode::Off
        } else if no_daemon {
            ProxyMode::Local
        } else {
            ProxyMode::Daemon
        }),
{
    if no_proxy {
        ProxyMode::Off
    } else if no_daemon {
        ProxyMode::Local
    } else {
        ProxyMode::Daemon
    }
}

/// The proxy of an engine that runs without the daemon: it has a route to the web
/// interface, whose port is leased.
pub fn local_proxy(tld: &str, web_port: u16, proxy_port: u16, tls: bool) -> (r: ProxyConfig)
    ensures
        r.registry@ == seq![("starling."@ + tld@, web_port)],
        r.leased_ports@ == set![web_port],
        r.tld@ == tld@,
        r.proxy_port == proxy_port,
        r.tls == tls,
        r.ok(),
{
    let mut r = ProxyConfig::new(tld, proxy_port, tls);
    r.register(cat("starling.", tld).as_str(), web_port);
    proof {
        assert(crate::proxy::routes_without(Seq::empty(), "starling."@ + tld@) =~= Seq::empty());
        assert(r.registry@ =~= seq![("starling."@ + tld@, web_port)]);
        assert(r.leased_ports@ =~= set![web_port]);
    }
    r
}

/// The address that the API server listens on: the one of the web interface, or any
/// port of this machine.
pub fn api_bind(web: bool, host: &str, port: u16) -> (r: String)
    ensures
        r@ == (if web {
            host@ + ":"@ + dec(port as nat)
        } else {
            "127.0.0.1:0"@
        }),
{
    if web {
        cat3(host, ":", decimal(port as u64).as_str())
    } else {
        owned("127.0.0.1:0")
    }
}

/// The log line of a config that was loaded.
pub fn config_loaded(span: &str, path: &str, resources: usize) -> (r: LogLine)
    ensures
        r@ == log_v(
            span@,
            Level::Info,
            "Loaded "@ + path@ + " ("@ + dec(resources as nat) + " resources)\n"@,
        ),
{
    let mut text = cat3("Loaded ", path, " (");
    text.append(decimal(resources as u64).as_str());
    text.append(" resources)\n");
    line(span, Level::Info, text)
}

/// What is logged of a config that was loaded: that it was, and the lines that it
/// printed.
pub fn config_logs(span: &str, path: &str, resources: usize, printed: &str) -> (r: Vec<LogLine>)
    ensures
        logs(r@) == seq![
            log_v(
                span@,
                Level::Info,
                "Loaded "@ + path@ + " ("@ + dec(resources as nat) + " resources)\n"@,
            ),
        ] + printed_logs(span@, lines(printed@)),
{
    broadcast use logs_push;

    let mut r: Vec<LogLine> = Vec::new();
    assert(logs(r@) =~= Seq::empty());
    r.push(config_loaded(span, path, resources));
    let ghost first = logs(r@);
    let l = lines_of(printed);
    let ghost all = texts(l@);
    let mut i: usize = 0;
    assert(logs(r@) =~= first + printed_logs(span@, all.take(0)));
    while i < l.len()
        invariant
            i <= l@.len(),
            all == texts(l@),
            logs(r@) == first + printed_logs(span@, all.take(i as int)),
        decreases l@.len() - i,
    {
        assert(all.take(i + 1).drop_last() =~= all.take(i as int));
        assert(all.take(i + 1).last() == l@[i as int]@);
        let ghost before = printed_logs(span@, all.take(i as int));
        let printed_line = line(span, Level::Info, cat(l[i].as_str(), "\n"));
        r.push(printed_line);
        assert(printed_logs(span@, all.take(i + 1)) == before.push(printed_line@));
        assert((first + before).push(printed_line@) =~= first + before.push(printed_line@));
        i += 1;
    }
    assert(all.take(i as int) =~= all);
    r
}

/// The message of a config that could not be loaded.
pub fn config_failed(path: &str, error: &str) -> (r: String)
    ensures
        r@ == "Failed to load "@ + path@ + ": "@ + error@,
{
    cat(cat3("Failed to load ", path, ": ").as_str(), error)
}

/// The log line of a named route to a fixed port.
pub fn alias_line(span: &str, url: &str, port: u16) -> (r: LogLine)
    ensures
        r@ == log_v(
            span@,
            Level::Info,
            "alias: "@ + url@ + " -> 127.0.0.1:"@ + dec(port as nat) + "\n"@,
        ),
{
    let mut text = cat3("alias: ", url, " -> 127.0.0.1:");
    text.append(decimal(port as u64).as_str());
    text.append("\n");
    line(span, Level::Info, text)
}

/// What a command of the dashboard makes an instance do.
#[derive(Debug)]
pub enum InstanceStep {
    Nothing,
    Trigger(String),
    Restart(String),
    SetPort(String, u16),
    SetPaused { resource: String, paused: bool, log: LogLine },
    SetArgs(Vec<String>),
    /// It stops, and takes no further command.
    Shutdown,
}

/// Whether a step is what a command makes an instance do.
pub open spec fn carries_out(c: Command, known: Seq<Seq<char>>, s: InstanceStep) -> bool {
    match c {
        Command::Trigger { resource } => s is Trigger && s->Trigger_0@ == resource@,
        Command::Restart { resource } => s is Restart && s->Restart_0@ == resource@,
        Command::SetPort { resource, port } => s is SetPort && s->SetPort_0@ == resource@
            && s->SetPort_1 == port,
        Command::SetPaused { resource, paused } => if known.contains(resource@) {
            s is SetPaused && s->resource@ == resource@ && s->paused == paused && s->log@ == log_v(
                resource@,
                Level::Info,
                if paused {
                    "Paused via dashboard\n"@
                } else {
                    "Resumed via dashboard\n"@
                },
            )
        } else {
            s is Nothing
        },
        Command::SetTiltfileArgs { args } => s is SetArgs && texts(s->SetArgs_0@) == texts(args@),
        Command::Shutdown => s is Shutdown,
    }
}

/// What a command of the dashboard makes an instance do: a resource that it does not
/// have is not paused.
pub fn instance_step(c: &Command, known: &Vec<String>) -> (r: InstanceStep)
    ensures
        carries_out(*c, texts(known@), r),
{
    match c {
        Command::Trigger { resource } => InstanceStep::Trigger(resource.clone()),
        Command::Restart { resource } => InstanceStep::Restart(resource.clone()),
        Command::SetPort { resource, port } => InstanceStep::SetPort(resource.clone(), *port),
        Command::SetPaused { resource, paused } => if among(resource.as_str(), known) {
            let text = if *paused {
                owned("Paused via dashboard\n")
            } else {
                owned("Resumed via dashboard\n")
            };
            InstanceStep::SetPaused {
                resource: resource.clone(),
                paused: *paused,
                log: line(resource.as_str(), Level::Info, text),
            }
        } else {
            InstanceStep::Nothing
        },
        Command::SetTiltfileArgs { args } => InstanceStep::SetArgs(args.clone()),
        Command::Shutdown => InstanceStep::Shutdown,
    }
}

/// An object as it is reported to the daemon.
pub open spec fn mirrored_object(o: ObjectV) -> SnapshotV {
    SnapshotV { kind: o.kind, name: o.name, object: o.object }
}

/// The objects as they are reported to the daemon.
pub fn mirror_objects(objects: Vec<StoredObject>) -> (r: Vec<ApiObjectSnapshot>)
    ensures
        snapshots_view(r@) == objects_view(objects@).map_values(|o: ObjectV| mirrored_object(o)),
{
    let ghost all = objects_view(objects@).map_values(|o: ObjectV| mirrored_object(o));
    let mut r: Vec<ApiObjectSnapshot> = Vec::new();
    let mut i: usize = 0;
    assert(snapshots_view(r@) =~= all.take(0));
    while i < objects.len()
        invariant
            i <= objects@.len(),
            all == objects_view(objects@).map_values(|o: ObjectV| mirrored_object(o)),
            snapshots_view(r@) == all.take(i as int),
        decreases objects@.len() - i,
    {
        let o = &objects[i];
        let ghost before = snapshots_view(r@);
        let s = ApiObjectSnapshot {
            kind: o.kind.clone(),
            name: o.name.clone(),
            object: o.object.clone(),
        };
        r.push(s);
        proof {
            assert(snapshots_view(r@) =~= before.push(s@));
            assert(all[i as int] == mirrored_object(o@));
            assert(all.take(i + 1) =~= all.take(i as int).push(all[i as int]));
        }
        i += 1;
    }
    assert(all.take(i as int) =~= all);
    r
}

/// The report of an instance to the daemon: its resources as the dashboard shows
/// them, the log lines that are new, and its objects.
pub fn update_request(
    instance: &str,
    resources: &Vec<UIResource>,
    logs: Vec<(String, Vec<String>)>,
    objects: Vec<StoredObject>,
    api_addr: Option<String>,
) -> (r: Request)
    ensures
        r is Update,
        r->Update_instance@ == instance@,
        r->Update_resources@.len() == resources@.len(),
        forall|i: int|
            0 <= i < resources@.len() ==> shows_resource(
                #[trigger] r->Update_resources@[i],
                resources@[i],
            ),
        r->logs == logs,
        snapshots_view(r->objects@) == objects_view(objects@).map_values(
            |o: ObjectV| mirrored_object(o),
        ),
        r->api_addr == api_addr,
{
    let mut shown: Vec<ResourceSnapshot> = Vec::new();
    let mut i: usize = 0;
    while i < resources.len()
        invariant
            i <= resources@.len(),
            shown@.len() == i,
            forall|j: int| 0 <= j < i ==> shows_resource(#[trigger] shown@[j], resources@[j]),
        decreases resources@.len() - i,
    {
        shown.push(snapshot(&resources[i]));
        i += 1;
    }
    Request::Update {
        instance: owned(instance),
        resources: shown,
        logs,
        objects: mirror_objects(objects),
        api_addr,
    }
}

/// What an instance does when it stops.
#[derive(Debug)]
pub enum StopStep {
    /// End the serve commands.
    StopServes,
    /// Run the commands that take deployed resources down.
    RunDown,
    /// Tell the daemon that the instance is gone.
    Deregister(String),
}

/// What an instance does when it stops, in order: its serve commands never outlive
/// it, while deployed resources are taken down only where that was asked for.
pub fn stop_steps(asked: bool, down_specs: usize, instance: Option<String>) -> (r: Vec<StopStep>)
    ensures
        r@ == seq![StopStep::StopServes] + (if asked && down_specs > 0 {
            seq![StopStep::RunDown]
        } else {
            Seq::empty()
        }) + (match instance {
            Some(i) => seq![StopStep::Deregister(i)],
            None => Seq::empty(),
        }),
{
    let mut r: Vec<StopStep> = Vec::new();
    r.push(StopStep::StopServes);
    if asked && down_specs > 0 {
        r.push(StopStep::RunDown);
    }
    if let Some(i) = instance {
        r.push(StopStep::Deregister(i));
    }
    r
}

} // verus!
