//! What the daemon and its clients say to each other, and where they meet.

use vstd::prelude::*;

use crate::json::{Json, JsonV};
use crate::paths::{join_path, joined_path};

verus! {

/// `dirs::home_dir`: the home directory of the user, as text. It depends on the
/// environment, so nothing is claimed of it.
#[verifier::external_body]
fn home_dir() -> Option<String> {
    dirs::home_dir().map(|p| p.display().to_string())
}

/// The directory of the daemon's files below a home directory; below the current
/// directory where there is none.
pub open spec fn state_dir_of(home: Option<Seq<char>>) -> Seq<char> {
    match home {
        Some(h) => join_path(h, ".starling"@),
        None => join_path("."@, ".starling"@),
    }
}

/// The directory of the daemon's files below a home directory.
pub fn state_dir_in(home: Option<&str>) -> (r: String)
    ensures
        r@ == state_dir_of(
            match home {
                Some(h) => Some(h@),
                None => None,
            },
        ),
{
    match home {
        Some(h) => joined_path(h, ".starling"),
        None => joined_path(".", ".starling"),
    }
}

/// The directory that holds the daemon's socket, process id and log.
pub fn state_dir() -> (r: String)
    ensures
        exists|home: Option<Seq<char>>| r@ == #[trigger] state_dir_of(home),
{
    match home_dir() {
        Some(h) => {
            let r = state_dir_in(Some(h.as_str()));
            assert(r@ == state_dir_of(Some(h@)));
            r
        },
        None => {
            let r = state_dir_in(None);
            assert(r@ == state_dir_of(None));
            r
        },
    }
}

/// A file in the directory of the daemon's files.
pub open spec fn is_state_file(path: Seq<char>, name: Seq<char>) -> bool {
    exists|home: Option<Seq<char>>| path == join_path(#[trigger] state_dir_of(home), name)
}

/// A file in the directory of the daemon's files.
pub fn state_file(name: &str) -> (r: String)
    ensures
        is_state_file(r@, name@),
{
    let dir = state_dir();
    let r = joined_path(dir.as_str(), name);
    proof {
        let home = choose|home: Option<Seq<char>>| dir@ == #[trigger] state_dir_of(home);
        assert(r@ == join_path(state_dir_of(home), name@));
    }
    r
}

/// The daemon's socket.
pub fn socket_path() -> (r: String)
    ensures
        is_state_file(r@, "daemon.sock"@),
{
    state_file("daemon.sock")
}

/// Where there are no Unix sockets, the file with the port that the daemon
/// listens on.
pub fn port_file_path() -> (r: String)
    ensures
        is_state_file(r@, "daemon.port"@),
{
    state_file("daemon.port")
}

/// The file with the daemon's process id.
pub fn pid_path() -> (r: String)
    ensures
        is_state_file(r@, "daemon.pid"@),
{
    state_file("daemon.pid")
}

/// The daemon's log.
pub fn log_path() -> (r: String)
    ensures
        is_state_file(r@, "daemon.log"@),
{
    state_file("daemon.log")
}

/// One resource as shown on the dashboard.
#[derive(Debug, Default, PartialEq)]
pub struct ResourceSnapshot {
    pub name: String,
    pub kind: String,
    pub paused: bool,
    pub update_status: String,
    pub runtime_status: String,
    pub pod: Option<String>,
    pub url: Option<String>,
    pub proxy_status: Option<String>,
    pub proxy_message: Option<String>,
    pub build_count: u32,
    pub last_deploy: Option<String>,
    pub restart_count: Option<u32>,
    pub last_start: Option<String>,
}

impl Clone for ResourceSnapshot {
    fn clone(&self) -> (r: Self)
        ensures
            r == *self,
    {
        ResourceSnapshot {
            name: self.name.clone(),
            kind: self.kind.clone(),
            paused: self.paused,
            update_status: self.update_status.clone(),
            runtime_status: self.runtime_status.clone(),
            pod: self.pod.clone(),
            url: self.url.clone(),
            proxy_status: self.proxy_status.clone(),
            proxy_message: self.proxy_message.clone(),
            build_count: self.build_count,
            last_deploy: self.last_deploy.clone(),
            restart_count: self.restart_count,
            last_start: self.last_start.clone(),
        }
    }
}

/// The snapshots, copied.
pub fn clone_resources(v: &Vec<ResourceSnapshot>) -> (r: Vec<ResourceSnapshot>)
    ensures
        r@ == v@,
{
    let mut r: Vec<ResourceSnapshot> = Vec::new();
    let mut i: usize = 0;
    while i < v.len()
        invariant
            i <= v@.len(),
            r@ =~= v@.take(i as int),
        decreases v@.len() - i,
    {
        r.push(v[i].clone());
        i += 1;
    }
    assert(v@.take(i as int) =~= v@);
    r
}

/// An object snapshot as a mathematical object.
pub struct SnapshotV {
    pub kind: Seq<char>,
    pub name: Seq<char>,
    pub object: JsonV,
}

/// One API object as mirrored from the object store of an instance.
#[derive(Debug, PartialEq)]
pub struct ApiObjectSnapshot {
    pub kind: String,
    pub name: String,
    pub object: Json,
}

impl View for ApiObjectSnapshot {
    type V = SnapshotV;

    open spec fn view(&self) -> SnapshotV {
        SnapshotV { kind: self.kind@, name: self.name@, object: self.object@ }
    }
}

impl Clone for ApiObjectSnapshot {
    fn clone(&self) -> (r: Self)
        ensures
            r@ == self@,
    {
        ApiObjectSnapshot {
            kind: self.kind.clone(),
            name: self.name.clone(),
            object: self.object.clone(),
        }
    }
}

/// The contents of a list of object snapshots.
pub open spec fn snapshots_view(v: Seq<ApiObjectSnapshot>) -> Seq<SnapshotV> {
    v.map_values(|o: ApiObjectSnapshot| o@)
}

/// The object snapshots, copied.
pub fn clone_snapshots(v: &Vec<ApiObjectSnapshot>) -> (r: Vec<ApiObjectSnapshot>)
    ensures
        snapshots_view(r@) == snapshots_view(v@),
{
    let mut r: Vec<ApiObjectSnapshot> = Vec::new();
    let mut i: usize = 0;
    assert(snapshots_view(r@) =~= snapshots_view(v@).take(0));
    while i < v.len()
        invariant
            i <= v@.len(),
            snapshots_view(r@) == snapshots_view(v@).take(i as int),
        decreases v@.len() - i,
    {
        let o: ApiObjectSnapshot = v[i].clone();
        let ghost before = r@;
        r.push(o);
        assert(snapshots_view(r@) =~= snapshots_view(before).push(o@));
        assert(snapshots_view(v@).take(i + 1) =~= snapshots_view(v@).take(i as int).push(
            v@[i as int]@,
        ));
        i += 1;
    }
    assert(snapshots_view(v@).take(i as int) =~= snapshots_view(v@));
    r
}

/// What is known of an instance, as a mathematical object.
pub struct InstanceStateV {
    pub id: Seq<char>,
    pub name: Seq<char>,
    pub dir: Seq<char>,
    pub pid: u32,
    pub resources: Seq<ResourceSnapshot>,
    pub objects: Seq<SnapshotV>,
    pub api_addr: Option<String>,
}

/// Everything that the daemon knows about one connected instance.
#[derive(Debug, PartialEq)]
pub struct InstanceState {
    pub id: String,
    pub name: String,
    pub dir: String,
    pub pid: u32,
    pub resources: Vec<ResourceSnapshot>,
    pub objects: Vec<ApiObjectSnapshot>,
    /// The address of the instance's API server, once it has reported one.
    pub api_addr: Option<String>,
}

impl View for InstanceState {
    type V = InstanceStateV;

    open spec fn view(&self) -> InstanceStateV {
        InstanceStateV {
            id: self.id@,
            name: self.name@,
            dir: self.dir@,
            pid: self.pid,
            resources: self.resources@,
            objects: snapshots_view(self.objects@),
            api_addr: self.api_addr,
        }
    }
}

impl Clone for InstanceState {
    fn clone(&self) -> (r: Self)
        ensures
            r@ == self@,
    {
        InstanceState {
            id: self.id.clone(),
            name: self.name.clone(),
            dir: self.dir.clone(),
            pid: self.pid,
            resources: clone_resources(&self.resources),
            objects: clone_snapshots(&self.objects),
            api_addr: self.api_addr.clone(),
        }
    }
}

/// The contents of a list of instances.
pub open spec fn states_view(v: Seq<InstanceState>) -> Seq<InstanceStateV> {
    v.map_values(|s: InstanceState| s@)
}

/// A named route and the instance that owns it.
#[derive(Debug, Default, PartialEq)]
pub struct RouteInfo {
    pub hostname: String,
    pub port: u16,
    pub instance: String,
}

impl Clone for RouteInfo {
    fn clone(&self) -> (r: Self)
        ensures
            r == *self,
    {
        RouteInfo {
            hostname: self.hostname.clone(),
            port: self.port,
            instance: self.instance.clone(),
        }
    }
}

/// A named route as a mathematical object.
pub struct RouteV {
    pub hostname: Seq<char>,
    pub port: u16,
    pub instance: Seq<char>,
}

impl View for RouteInfo {
    type V = RouteV;

    open spec fn view(&self) -> RouteV {
        RouteV { hostname: self.hostname@, port: self.port, instance: self.instance@ }
    }
}

/// The contents of a list of routes.
pub open spec fn infos_view(v: Seq<RouteInfo>) -> Seq<RouteV> {
    v.map_values(|r: RouteInfo| r@)
}

/// The state that the dashboard shows.
#[derive(Debug, PartialEq)]
pub struct DashboardState {
    pub instances: Vec<InstanceState>,
    pub routes: Vec<RouteInfo>,
    pub proxy_port: u16,
    pub tld: String,
}

/// A command that the dashboard wants an instance to run.
#[derive(Debug, PartialEq)]
pub enum Command {
    Trigger { resource: String },
    /// Kill the resource's serve command and start it again.
    Restart { resource: String },
    /// Change the preferred backend port of the resource's serve command, and
    /// restart it.
    SetPort { resource: String, port: u16 },
    /// Pause or resume a resource. Paused resources stay visible but ignore file
    /// changes until they are resumed.
    SetPaused { resource: String, paused: bool },
    /// Stop the instance.
    Shutdown,
    /// Replace the config arguments and reload.
    SetTiltfileArgs { args: Vec<String> },
}

/// What a client asks of the daemon.
#[derive(Debug, PartialEq)]
pub enum Request {
    /// Liveness check.
    Ping,
    /// Register a new instance; the daemon assigns its id.
    Register { name: String, dir: String, pid: u32 },
    Deregister { instance: String },
    /// The instance's current resources, and the log lines appended since its
    /// last report.
    Update {
        instance: String,
        resources: Vec<ResourceSnapshot>,
        logs: Vec<(String, Vec<String>)>,
        objects: Vec<ApiObjectSnapshot>,
        api_addr: Option<String>,
    },
    /// Lease a free port for a serve command.
    AllocatePort { instance: String },
    /// Reserve a backend port for a serve command, a given one if possible.
    ReservePort { instance: String, preferred: Option<u16> },
    /// Give back a leased port.
    ReleasePort { instance: String, port: u16 },
    RegisterRoute { instance: String, hostname: String, port: u16 },
    RemoveRoute { hostname: String },
    /// The state that the dashboard shows.
    GetState,
    /// The log lines of a resource with a sequence number of at least `since`.
    GetLogs { instance: String, resource: String, since: u64 },
    /// Take the commands queued for an instance.
    PollCommands { instance: String },
    Trigger { instance: String, resource: String },
    Restart { instance: String, resource: String },
    SetPort { instance: String, resource: String, port: u16 },
    SetPaused { instance: String, resource: String, paused: bool },
    /// Ask every instance of the project directory to stop.
    ShutdownProject { dir: String },
    /// Ask every instance to stop, then end the daemon.
    ShutdownDaemon,
    /// The API objects of all instances, of one kind if one is given.
    GetObjects { kind: Option<String> },
    /// Replace the config arguments of an instance and reload it.
    SetTiltfileArgs { instance: String, args: Vec<String> },
}

/// What the daemon answers.
#[derive(Debug, PartialEq)]
pub enum Response {
    /// The request was carried out; on the wire this is `Ok`.
    Done,
    Registered { instance: String },
    Port { port: u16 },
    ReservedPort { port: u16, preferred: Option<u16>, conflict: bool },
    State(DashboardState),
    /// Log lines, and the cursor to pass as `since` next time.
    Logs { lines: Vec<String>, cursor: u64 },
    Commands(Vec<Command>),
    ShutdownQueued { instances: Vec<InstanceState> },
    Objects(Vec<ApiObjectSnapshot>),
    Error(String),
}

} // verus!
