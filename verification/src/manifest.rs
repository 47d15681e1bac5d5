//! What a config file declares: the resources, their commands, image builds and
//! live updates. Paths are texts.

use vstd::prelude::*;
use vstd::string::*;

use crate::text::{clone_pairs, join, joined, opt_text, owned, pairs, texts};

verus! {

/// A command as a mathematical object.
pub struct CmdV {
    pub argv: Seq<Seq<char>>,
    pub workdir: Option<Seq<char>>,
    pub env: Seq<(Seq<char>, Seq<char>)>,
}

/// A command: its arguments, the first of which is the program, the directory
/// that it runs in, and what it adds to the environment.
#[derive(Debug, PartialEq)]
pub struct Cmd {
    pub argv: Vec<String>,
    pub workdir: Option<String>,
    pub env: Vec<(String, String)>,
}

impl View for Cmd {
    type V = CmdV;

    open spec fn view(&self) -> CmdV {
        CmdV { argv: texts(self.argv@), workdir: opt_text(self.workdir), env: pairs(self.env@) }
    }
}

impl Clone for Cmd {
    fn clone(&self) -> (r: Self)
        ensures
            r@ == self@,
            r.argv@ == self.argv@,
            r.env@ == self.env@,
    {
        Cmd {
            argv: self.argv.clone(),
            workdir: self.workdir.clone(),
            env: clone_pairs(&self.env),
        }
    }
}

impl Default for Cmd {
    /// No command.
    fn default() -> (r: Self)
        ensures
            r.argv@ == Seq::<String>::empty(),
            r.workdir is None,
            r.env@ == Seq::<(String, String)>::empty(),
    {
        Cmd { argv: Vec::new(), workdir: None, env: Vec::new() }
    }
}

/// A command of the given arguments alone.
pub open spec fn bare(argv: Seq<Seq<char>>) -> CmdV {
    CmdV { argv, workdir: None, env: Seq::empty() }
}

impl Cmd {
    /// A command of the given arguments alone.
    pub fn of(argv: Vec<String>) -> (r: Cmd)
        ensures
            r.argv@ == argv@,
            r.workdir is None,
            r.env@ == Seq::<(String, String)>::empty(),
            r@ == bare(texts(argv@)),
    {
        let r = Cmd { argv, workdir: None, env: Vec::new() };
        assert(pairs(r.env@) =~= Seq::empty());
        r
    }

    /// Whether there is no command.
    pub fn is_empty(&self) -> (r: bool)
        ensures
            r == (self.argv@.len() == 0),
    {
        self.argv.len() == 0
    }

    /// The arguments as one line.
    pub fn display(&self) -> (r: String)
        ensures
            r@ == join(texts(self.argv@), " "@),
    {
        joined(&self.argv, " ")
    }
}

/// What brings a resource up.
#[derive(Debug, Clone, Copy, PartialEq, Eq, Structural)]
pub enum TargetKind {
    Local,
    Kubernetes,
    DockerCompose,
}

impl TargetKind {
    /// The name shown for the kind.
    pub open spec fn kind_name(self) -> Seq<char> {
        match self {
            TargetKind::Local => "local"@,
            TargetKind::Kubernetes => "k8s"@,
            TargetKind::DockerCompose => "docker-compose"@,
        }
    }

    /// The name shown for the kind.
    pub fn target_type(&self) -> (r: &'static str)
        ensures
            r@ == self.kind_name(),
    {
        match self {
            TargetKind::Local => "local",
            TargetKind::Kubernetes => "k8s",
            TargetKind::DockerCompose => "docker-compose",
        }
    }
}

/// A pattern of files to ignore, below a directory.
#[derive(Debug, PartialEq)]
pub struct IgnoreRule {
    pub base: String,
    pub pattern: String,
}

impl Clone for IgnoreRule {
    fn clone(&self) -> (r: Self)
        ensures
            r == *self,
    {
        IgnoreRule { base: self.base.clone(), pattern: self.pattern.clone() }
    }
}

/// A named host port that the config asks for, a given one if possible.
#[derive(Debug, Clone, PartialEq)]
pub struct NamedPortLease {
    pub name: String,
    pub preferred: Option<u16>,
}

/// A port of a pod made reachable on the host.
#[derive(Debug, PartialEq)]
pub struct PortForwardSpec {
    pub host: String,
    pub local_port: u16,
    pub container_port: u16,
    pub name: String,
    pub link_path: String,
}

impl Clone for PortForwardSpec {
    fn clone(&self) -> (r: Self)
        ensures
            r == *self,
    {
        PortForwardSpec {
            host: self.host.clone(),
            local_port: self.local_port,
            container_port: self.container_port,
            name: self.name.clone(),
            link_path: self.link_path.clone(),
        }
    }
}

/// A step of a live update.
#[derive(Debug, Clone, PartialEq)]
pub enum LiveUpdateStep {
    /// Copy files into the container.
    Sync { local: String, remote: String },
    /// Run a command in the container; with triggers, only when one of them
    /// changed.
    Run { cmd: String, echo_off: bool, triggers: Vec<String> },
    RestartContainer,
    /// Files whose changes call for a full rebuild.
    FallBackOn(Vec<String>),
    /// Sync every pod once when it starts.
    InitialSync,
}

/// The port that a probe goes to: a number, or the name of a variable that holds
/// one once the service is known.
#[derive(Debug, Clone, PartialEq)]
pub enum ProbePort {
    Number(u16),
    Deferred(String),
}

/// How a resource is probed.
#[derive(Debug, Clone, PartialEq)]
pub enum ProbeAction {
    Exec { command: Vec<String> },
    Tcp { host: String, port: ProbePort },
    Http { host: String, port: ProbePort, scheme: String, path: String },
}

/// When a resource counts as ready. Times are in milliseconds.
#[derive(Debug, Clone, PartialEq)]
pub struct ReadinessProbe {
    pub action: ProbeAction,
    pub initial_delay_ms: u64,
    pub period_ms: u64,
    pub timeout_ms: u64,
    pub success_threshold: u32,
    pub failure_threshold: u32,
}

/// An image build.
#[derive(Debug, Clone, PartialEq)]
pub struct DockerBuild {
    pub image_ref: String,
    pub context: String,
    pub dockerfile: Option<String>,
    pub dockerfile_contents: Option<String>,
    pub target: Option<String>,
    pub platform: Option<String>,
    pub extra_tags: Vec<String>,
    pub entrypoint: Vec<String>,
    pub container_args: Option<Vec<String>>,
    pub match_in_env_vars: bool,
    pub build_args: Vec<(String, String)>,
    pub cache_from: Vec<String>,
    pub ssh: Vec<String>,
    pub secrets: Vec<String>,
    pub pull: bool,
    pub network: Option<String>,
    pub extra_hosts: Vec<String>,
    pub ignore_rules: Vec<IgnoreRule>,
    pub only: Vec<String>,
    pub command: Option<Cmd>,
    pub custom_tag: Option<String>,
    pub outputs_image_ref_to: Option<String>,
    pub image_deps: Vec<String>,
    pub disable_push: bool,
    pub skips_local_docker: bool,
    pub deps: Vec<String>,
    pub live_update: Vec<LiveUpdateStep>,
}

/// A resource. Labels and selectors are in the order of their keys.
#[derive(Debug, Clone, PartialEq)]
pub struct Manifest {
    pub name: String,
    pub kind: TargetKind,
    pub update_cmd: Cmd,
    pub serve_cmd: Cmd,
    pub serve_port: Option<u16>,
    pub deps: Vec<String>,
    pub ignore_rules: Vec<IgnoreRule>,
    pub resource_deps: Vec<String>,
    pub auto_init: bool,
    /// 0: build at start and on changes; 1: build at start only; 2: build when
    /// asked only; 3: build on changes only.
    pub trigger_mode: i32,
    pub allow_parallel: bool,
    pub is_test: bool,
    pub labels: Vec<(String, String)>,
    pub links: Vec<(String, String)>,
    pub notes: Vec<String>,
    pub docker_builds: Vec<DockerBuild>,
    pub k8s_apply_docs: Vec<String>,
    pub k8s_custom_apply_cmd: Option<Cmd>,
    pub k8s_custom_delete_cmd: Option<Cmd>,
    pub k8s_port_forwards: Vec<PortForwardSpec>,
    pub pod_selector: Vec<(String, String)>,
    pub pod_readiness_ignore: bool,
    pub live_update: Vec<LiveUpdateStep>,
    pub docker_compose_project: Option<String>,
    pub readiness_probe: Option<ReadinessProbe>,
}

/// Whether changed files make a resource with the trigger mode build.
pub open spec fn builds_on_change(trigger_mode: i32) -> bool {
    trigger_mode != 1 && trigger_mode != 2
}

impl Manifest {
    /// A resource that does nothing yet.
    pub fn new(name: &str, kind: TargetKind) -> (r: Manifest)
        ensures
            r.name@ == name@,
            r.kind == kind,
            r.update_cmd.argv@.len() == 0,
            r.serve_cmd.argv@.len() == 0,
            r.serve_port is None,
            r.deps@.len() == 0,
            r.auto_init,
            r.trigger_mode == 0,
            r.docker_builds@.len() == 0,
            r.live_update@.len() == 0,
            r.pod_selector@.len() == 0,
            r.k8s_custom_delete_cmd is None,
    {
        Manifest {
            name: owned(name),
            kind,
            update_cmd: Cmd { argv: Vec::new(), workdir: None, env: Vec::new() },
            serve_cmd: Cmd { argv: Vec::new(), workdir: None, env: Vec::new() },
            serve_port: None,
            deps: Vec::new(),
            ignore_rules: Vec::new(),
            resource_deps: Vec::new(),
            auto_init: true,
            trigger_mode: 0,
            allow_parallel: false,
            is_test: false,
            labels: Vec::new(),
            links: Vec::new(),
            notes: Vec::new(),
            docker_builds: Vec::new(),
            k8s_apply_docs: Vec::new(),
            k8s_custom_apply_cmd: None,
            k8s_custom_delete_cmd: None,
            k8s_port_forwards: Vec::new(),
            pod_selector: Vec::new(),
            pod_readiness_ignore: false,
            live_update: Vec::new(),
            docker_compose_project: None,
            readiness_probe: None,
        }
    }

    /// Whether changed files make the resource build.
    pub fn auto_on_change(&self) -> (r: bool)
        ensures
            r == builds_on_change(self.trigger_mode),
    {
        self.trigger_mode != 1 && self.trigger_mode != 2
    }
}

} // verus!
