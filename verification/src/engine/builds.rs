//! Builds: what a request to build leads to, step by step, and what is recorded.

use vstd::prelude::*;
use vstd::string::*;

use crate::engine::images::{
    content_addressed_ref, content_ref, custom_build_expected_ref, digest_cuts, digest_from_ref,
    docker_build_args, build_argv, expected_ref, image_ref_repo_and_tag, pinned_digest,
    repo_and_tag,
};
use crate::engine::log::{line, log_v, logs, logs_push, Level, LogLine, LogV};
use crate::engine::status::RuntimeAfter;
use crate::manifest::{Cmd, CmdV, DockerBuild, Manifest, TargetKind};
use crate::text::{
    cat, cat3, dec, decimal, join, joined, lines, lines_of, opt_text, owned, pairs, pairs_push, same,
    strip_prefix,
    texts, texts_push, trim, trimmed, without_prefix,
};

verus! {

/// The span of a build: the resource, and the number of the build.
pub open spec fn build_span(name: Seq<char>, builds: nat) -> Seq<char> {
    name + ":build:"@ + dec(builds + 1)
}

/// The span of the next build of a resource that was built some times already.
pub fn next_build_span(name: &str, builds: u64) -> (r: String)
    requires
        builds < u64::MAX,
    ensures
        r@ == build_span(name@, builds as nat),
{
    cat3(name, ":build:", decimal(builds + 1).as_str())
}

/// What a request to build a resource leads to.
#[derive(Debug, Clone, Copy, PartialEq, Eq, Structural)]
pub enum BuildPlan {
    /// There is no such resource.
    Unknown,
    /// The resource is paused: the build is left pending.
    Paused,
    /// Build images and apply them to the cluster.
    Kubernetes,
    /// Build the images of a Compose resource, then it is up to date.
    ComposeImages,
    /// There is nothing to build.
    UpToDate,
    /// Run the update command.
    Run,
}

/// What a request to build a resource leads to.
pub open spec fn plan_of(m: Option<Manifest>, disabled: bool, dry_run: bool) -> BuildPlan {
    match m {
        None => BuildPlan::Unknown,
        Some(m) => if disabled {
            BuildPlan::Paused
        } else if m.kind == TargetKind::Kubernetes {
            BuildPlan::Kubernetes
        } else if m.update_cmd.argv@.len() > 0 {
            BuildPlan::Run
        } else if m.kind == TargetKind::DockerCompose && m.docker_builds@.len() > 0 && !dry_run {
            BuildPlan::ComposeImages
        } else {
            BuildPlan::UpToDate
        },
    }
}

/// What a request to build a resource leads to.
pub fn plan_build(m: Option<&Manifest>, disabled: bool, dry_run: bool) -> (r: BuildPlan)
    ensures
        r == plan_of(
            match m {
                Some(m) => Some(*m),
                None => None,
            },
            disabled,
            dry_run,
        ),
{
    match m {
        None => BuildPlan::Unknown,
        Some(m) => if disabled {
            BuildPlan::Paused
        } else if m.kind == TargetKind::Kubernetes {
            BuildPlan::Kubernetes
        } else if !m.update_cmd.is_empty() {
            BuildPlan::Run
        } else if m.kind == TargetKind::DockerCompose && m.docker_builds.len() > 0 && !dry_run {
            BuildPlan::ComposeImages
        } else {
            BuildPlan::UpToDate
        },
    }
}

/// Whether a resource can be updated beside others: a local one that allows it,
/// with an update command and without a serve command.
pub fn can_run_in_parallel(m: Option<&Manifest>) -> (r: bool)
    ensures
        r == (m is Some && {
            let m = *m->0;
            m.kind == TargetKind::Local && m.allow_parallel && m.update_cmd.argv@.len() > 0
                && m.serve_cmd.argv@.len() == 0
        }),
{
    match m {
        Some(m) => m.kind == TargetKind::Local && m.allow_parallel && !m.update_cmd.is_empty()
            && m.serve_cmd.is_empty(),
        None => false,
    }
}

/// The error of a command that was run: the given one where it exited with a
/// failure, its own where it could not be run.
pub open spec fn command_error(result: Result<bool, String>, failed: Seq<char>) -> Option<
    Seq<char>,
> {
    match result {
        Ok(true) => None,
        Ok(false) => Some(failed),
        Err(e) => Some(e@),
    }
}

/// The error of a command that was run.
pub fn error_of_command(result: Result<bool, String>, failed: &str) -> (r: Option<String>)
    ensures
        opt_text(r) == command_error(result, failed@),
{
    match result {
        Ok(ok) => if ok {
            None
        } else {
            Some(owned(failed))
        },
        Err(e) => Some(e),
    }
}

/// The error of an update command that was run.
pub fn update_error(result: Result<bool, String>) -> (r: Option<String>)
    ensures
        opt_text(r) == command_error(result, "command exited non-zero"@),
{
    error_of_command(result, "command exited non-zero")
}

/// The log line at the end of a build or a deployment, which `what` names.
pub open spec fn ended(span: Seq<char>, what: Seq<char>, error: Option<Seq<char>>) -> LogV {
    match error {
        Some(e) => log_v(span, Level::Error, what + " failed: "@ + e + "\n"@),
        None => log_v(span, Level::Info, what + " succeeded\n"@),
    }
}

fn end_line(span: &str, what: &str, error: &Option<String>) -> (r: LogLine)
    ensures
        r@ == ended(span@, what@, opt_text(*error)),
{
    match error {
        Some(e) => {
            let mut text = cat3(what, " failed: ", e.as_str());
            text.append("\n");
            line(span, Level::Error, text)
        },
        None => line(span, Level::Info, cat(what, " succeeded\n")),
    }
}

/// The log line at the end of a build.
pub fn build_ended(span: &str, error: &Option<String>) -> (r: LogLine)
    ensures
        r@ == ended(span@, "Build"@, opt_text(*error)),
{
    end_line(span, "Build", error)
}

/// The log line at the end of a deployment.
pub fn deploy_ended(span: &str, error: &Option<String>) -> (r: LogLine)
    ensures
        r@ == ended(span@, "Deploy"@, opt_text(*error)),
{
    end_line(span, "Deploy", error)
}

/// How an update leaves the runtime status: one without a serve command gives it a
/// value where it has none.
pub fn runtime_after_update(m: &Manifest) -> (r: RuntimeAfter)
    ensures
        r == (if m.serve_cmd.argv@.len() == 0 {
            RuntimeAfter::NotApplicableIfUnset
        } else {
            RuntimeAfter::Keep
        }),
{
    if m.serve_cmd.is_empty() {
        RuntimeAfter::NotApplicableIfUnset
    } else {
        RuntimeAfter::Keep
    }
}

/// Whether the serve command is started after an update.
pub fn serves_after_update(m: &Manifest, error: &Option<String>) -> (r: bool)
    ensures
        r == (error is None && m.serve_cmd.argv@.len() > 0),
{
    error.is_none() && !m.serve_cmd.is_empty()
}

/// How an image is built.
#[derive(Debug, Clone, Copy, PartialEq, Eq, Structural)]
pub enum BuildRoute {
    /// By a command of the config.
    Custom,
    /// By the `docker` program, for options that the Docker API does not have.
    BuildKit,
    /// Through the Docker API.
    Api,
}

/// How an image is built.
pub open spec fn route_of(db: DockerBuild) -> BuildRoute {
    if db.command is Some {
        BuildRoute::Custom
    } else if db.ssh@.len() > 0 || db.secrets@.len() > 0 {
        BuildRoute::BuildKit
    } else {
        BuildRoute::Api
    }
}

/// How an image is built.
pub fn build_route(db: &DockerBuild) -> (r: BuildRoute)
    ensures
        r == route_of(*db),
{
    if db.command.is_some() {
        BuildRoute::Custom
    } else if db.ssh.len() > 0 || db.secrets.len() > 0 {
        BuildRoute::BuildKit
    } else {
        BuildRoute::Api
    }
}

/// What a custom build's command finds in its environment: the reference that it
/// is asked to produce, whole and in parts.
pub open spec fn custom_env(db: DockerBuild) -> Seq<(Seq<char>, Seq<char>)> {
    let (image, tag) = repo_and_tag(expected_ref(db));
    seq![
        ("EXPECTED_REF"@, expected_ref(db)),
        ("EXPECTED_IMAGE"@, image),
        ("EXPECTED_TAG"@, tag),
        ("TAG"@, tag),
    ]
}

/// The command of a custom build, with what it finds in its environment.
pub fn custom_build_command(db: &DockerBuild) -> (r: Option<Cmd>)
    ensures
        match db.command {
            Some(c) => r is Some && r->0@ == (CmdV { env: c@.env + custom_env(*db), ..c@ }),
            None => r is None,
        },
{
    broadcast use pairs_push;

    match &db.command {
        Some(c) => {
            let mut cmd: Cmd = c.clone();
            let expected = custom_build_expected_ref(db);
            let (image, tag) = image_ref_repo_and_tag(expected.as_str());
            let ghost before = pairs(cmd.env@);
            cmd.env.push((owned("EXPECTED_REF"), expected));
            cmd.env.push((owned("EXPECTED_IMAGE"), image));
            cmd.env.push((owned("EXPECTED_TAG"), tag.clone()));
            cmd.env.push((owned("TAG"), tag));
            assert(pairs(cmd.env@) =~= before + custom_env(*db));
            Some(cmd)
        },
        None => None,
    }
}

/// The `docker` command for a build that the Docker API cannot do.
pub fn buildkit_command(db: &DockerBuild, dockerfile: Option<&str>) -> (r: Cmd)
    ensures
        r@ == (CmdV {
            argv: seq!["docker"@] + build_argv(
                *db,
                match dockerfile {
                    Some(d) => Some(d@),
                    None => None,
                },
            ),
            workdir: None,
            env: seq![("DOCKER_BUILDKIT"@, "1"@)],
        }),
{
    broadcast use texts_push, pairs_push;

    let mut args = docker_build_args(db, dockerfile);
    let ghost rest = texts(args@);
    args.insert(0, owned("docker"));
    assert(texts(args@) =~= seq!["docker"@] + rest);
    let mut env: Vec<(String, String)> = Vec::new();
    env.push((owned("DOCKER_BUILDKIT"), owned("1")));
    assert(pairs(env@) =~= seq![("DOCKER_BUILDKIT"@, "1"@)]);
    Cmd { argv: args, workdir: None, env }
}

/// The error of a build by the `docker` program.
pub fn buildkit_error(db: &DockerBuild, result: Result<bool, String>) -> (r: Option<String>)
    ensures
        opt_text(r) == command_error(result, "docker build "@ + db.image_ref@ + " failed"@),
{
    error_of_command(result, cat3("docker build ", db.image_ref.as_str(), " failed").as_str())
}

/// The error of a custom build's command.
pub fn custom_build_error(db: &DockerBuild, result: Result<bool, String>) -> (r: Option<String>)
    ensures
        opt_text(r) == command_error(
            result,
            "custom_build "@ + db.image_ref@ + " command failed"@,
        ),
{
    error_of_command(
        result,
        cat3("custom_build ", db.image_ref.as_str(), " command failed").as_str(),
    )
}

/// The reference that a custom build wrote to its output file: the file's text
/// without white space, an error where that is empty.
pub fn custom_build_output(db: &DockerBuild, path: &str, text: &str) -> (r: Result<String, String>)
    ensures
        if trim(text@).len() == 0 {
            r is Err && r->Err_0@ == "custom_build "@ + db.image_ref@
                + " wrote an empty outputs_image_ref_to "@ + path@
        } else {
            r is Ok && r->Ok_0@ == trim(text@)
        },
{
    let output = trimmed(text);
    if output.as_str().is_empty() {
        let mut e = cat3(
            "custom_build ",
            db.image_ref.as_str(),
            " wrote an empty outputs_image_ref_to ",
        );
        e.append(path);
        Err(e)
    } else {
        Ok(output)
    }
}

/// The outcome of an image build: the reference that a custom build reported, and
/// the digest of the image where it could be found.
#[derive(Debug)]
pub struct BuildResult {
    pub output_ref: Option<String>,
    pub digest: Option<String>,
}

/// The image whose digest is looked for: the one that a custom build reported,
/// else the declared one.
pub open spec fn inspected_ref(db: DockerBuild, output_ref: Option<String>) -> Seq<char> {
    match output_ref {
        Some(o) => o@,
        None => db.image_ref@,
    }
}

/// The digest that the reference of a built image is pinned to already; where there
/// is none, the image is inspected.
pub fn known_digest(db: &DockerBuild, output_ref: &Option<String>) -> (r: Option<String>)
    ensures
        opt_text(r) == pinned_digest(inspected_ref(*db, *output_ref)),
{
    match output_ref {
        Some(o) => digest_from_ref(o.as_str()),
        None => digest_from_ref(db.image_ref.as_str()),
    }
}

/// The reference that is deployed: the one that a custom build reported, else one
/// derived from the digest, else the declared one.
pub open spec fn deployed_ref(db: DockerBuild, result: BuildResult) -> Seq<char> {
    match result.output_ref {
        Some(o) => o@,
        None => match result.digest {
            Some(d) => content_ref(db.image_ref@, d@),
            None => db.image_ref@,
        },
    }
}

/// What follows the build of an image: the reference to deploy, whether the image
/// has to be tagged with it, and whether it is loaded into the local cluster.
#[derive(Debug)]
pub struct ImageStep {
    pub deploy_ref: String,
    pub tag: bool,
    pub load: bool,
}

/// What follows the build of an image.
pub fn image_built(db: &DockerBuild, result: &BuildResult, dry_run: bool) -> (r: ImageStep)
    requires
        result.output_ref is None && result.digest is Some ==> digest_cuts(result.digest->0@),
    ensures
        r.deploy_ref@ == deployed_ref(*db, *result),
        r.tag == (result.output_ref is None && deployed_ref(*db, *result) != db.image_ref@
            && !dry_run),
        r.load == (!dry_run && !db.skips_local_docker),
{
    let deploy_ref: String = match &result.output_ref {
        Some(o) => o.clone(),
        None => match &result.digest {
            Some(d) => content_addressed_ref(db.image_ref.as_str(), d.as_str()),
            None => db.image_ref.clone(),
        },
    };
    let tag = result.output_ref.is_none() && !same(deploy_ref.as_str(), db.image_ref.as_str())
        && !dry_run;
    ImageStep { deploy_ref, tag, load: !dry_run && !db.skips_local_docker }
}

/// The cluster that `kind` made, where the current context is one of those.
pub fn kind_cluster(context: &str) -> (r: Option<String>)
    ensures
        opt_text(r) == without_prefix(trim(context@), "kind-"@),
{
    strip_prefix(trimmed(context).as_str(), "kind-")
}

/// The command that loads an image into a cluster that `kind` made.
pub fn kind_load_command(image_ref: &str, cluster: &str) -> (r: Cmd)
    ensures
        texts(r.argv@) == seq![
            "kind"@,
            "load"@,
            "docker-image"@,
            image_ref@,
            "--name"@,
            cluster@,
        ],
        r.workdir is None,
        r.env@.len() == 0,
{
    let argv: Vec<String> = vec![
        owned("kind"),
        owned("load"),
        owned("docker-image"),
        owned(image_ref),
        owned("--name"),
        owned(cluster),
    ];
    assert(texts(argv@) =~= seq![
        "kind"@,
        "load"@,
        "docker-image"@,
        image_ref@,
        "--name"@,
        cluster@,
    ]);
    Cmd::of(argv)
}

/// How the build of a Kubernetes resource starts.
#[derive(Debug)]
pub enum K8sStart {
    /// Update the running pod instead.
    LiveUpdate(String),
    /// Build and deploy; `announce` where a live update was possible but a full
    /// build was asked for.
    Full { announce: bool },
}

/// How the build of a Kubernetes resource starts: by a live update where one is
/// declared, the resource was built before, a pod runs, and no full build was
/// asked for.
pub fn k8s_start(
    m: &Manifest,
    force_full: bool,
    builds: u64,
    dry_run: bool,
    pod: Option<String>,
) -> (r: K8sStart)
    ensures
        ({
            let updates = m.live_update@.len() > 0 && builds > 0;
            if !force_full && updates && !dry_run && pod is Some {
                r == K8sStart::LiveUpdate(pod->0)
            } else {
                r == (K8sStart::Full { announce: force_full && updates })
            }
        }),
{
    let updates = m.live_update.len() > 0 && builds > 0;
    if !force_full && updates && !dry_run {
        match pod {
            Some(p) => K8sStart::LiveUpdate(p),
            None => K8sStart::Full { announce: false },
        }
    } else {
        K8sStart::Full { announce: force_full && updates }
    }
}

/// Where the deployment of a Kubernetes resource stands.
#[derive(Debug, Clone, Copy, PartialEq, Eq, Structural)]
pub enum K8sPhase {
    /// The image with the index is built next.
    Image(usize),
    /// The documents are applied next.
    Apply,
    /// Nothing is left to do.
    Done,
}

/// What is to be done next for the deployment of a Kubernetes resource.
#[derive(Debug)]
pub enum K8sAction {
    BuildImage(usize),
    /// Run the command that the config declares.
    ApplyByCommand,
    /// Check the documents without changing the cluster.
    ApplyDry(String),
    /// Publish the documents and have them applied.
    ApplyDocs(String),
    Finish,
}

/// The deployment of a Kubernetes resource.
#[derive(Debug)]
pub struct K8sBuild {
    pub phase: K8sPhase,
    pub error: Option<String>,
    /// Whether the documents were applied through the object store, which then
    /// carries the outcome already.
    pub via_reconciler: bool,
}

/// Where a deployment stands once the image with the index before `i` is built.
pub open spec fn image_phase(m: Manifest, i: int) -> K8sPhase {
    if i < m.docker_builds@.len() {
        K8sPhase::Image(i as usize)
    } else {
        K8sPhase::Apply
    }
}

/// The documents of a resource, as one text.
pub open spec fn joined_docs(m: Manifest) -> Seq<char> {
    join(texts(m.k8s_apply_docs@), "\n---\n"@)
}

impl K8sBuild {
    /// A deployment that is about to start.
    pub fn new(m: &Manifest) -> (r: K8sBuild)
        ensures
            r.phase == image_phase(*m, 0),
            r.error is None,
            !r.via_reconciler,
    {
        K8sBuild {
            phase: if m.docker_builds.len() > 0 {
                K8sPhase::Image(0)
            } else {
                K8sPhase::Apply
            },
            error: None,
            via_reconciler: false,
        }
    }

    /// What is to be done next.
    pub fn action(&self, m: &Manifest, dry_run: bool) -> (r: K8sAction)
        ensures
            match self.phase {
                K8sPhase::Image(i) => r == K8sAction::BuildImage(i),
                K8sPhase::Apply => if m.k8s_custom_apply_cmd is Some {
                    r is ApplyByCommand
                } else if m.k8s_apply_docs@.len() == 0 {
                    r is Finish
                } else if dry_run {
                    r matches K8sAction::ApplyDry(d) && d@ == joined_docs(*m)
                } else {
                    r matches K8sAction::ApplyDocs(d) && d@ == joined_docs(*m)
                },
                K8sPhase::Done => r is Finish,
            },
    {
        match self.phase {
            K8sPhase::Image(i) => K8sAction::BuildImage(i),
            K8sPhase::Apply => if m.k8s_custom_apply_cmd.is_some() {
                K8sAction::ApplyByCommand
            } else if m.k8s_apply_docs.len() == 0 {
                K8sAction::Finish
            } else if dry_run {
                K8sAction::ApplyDry(joined(&m.k8s_apply_docs, "\n---\n"))
            } else {
                K8sAction::ApplyDocs(joined(&m.k8s_apply_docs, "\n---\n"))
            },
            K8sPhase::Done => K8sAction::Finish,
        }
    }

    /// Takes the outcome of an image build: the first error ends the deployment.
    pub fn on_image(&mut self, m: &Manifest, error: Option<String>)
        requires
            old(self).phase is Image,
            old(self).phase->Image_0 < m.docker_builds@.len(),
        ensures
            final(self).via_reconciler == old(self).via_reconciler,
            match error {
                Some(e) => final(self).error == Some(e) && final(self).phase == K8sPhase::Done,
                None => final(self).error == old(self).error && final(self).phase == image_phase(
                    *m,
                    old(self).phase->Image_0 + 1,
                ),
            },
    {
        match error {
            Some(e) => {
                self.error = Some(e);
                self.phase = K8sPhase::Done;
            },
            None => {
                if let K8sPhase::Image(i) = self.phase {
                    assert(i < m.docker_builds.len());
                    self.phase = if i + 1 < m.docker_builds.len() {
                        K8sPhase::Image(i + 1)
                    } else {
                        K8sPhase::Apply
                    };
                }
            },
        }
    }

    /// Takes the outcome of the declared command.
    pub fn on_command(&mut self, result: Result<bool, String>)
        ensures
            opt_text(final(self).error) == command_error(
                result,
                "k8s_custom_deploy apply_cmd failed"@,
            ),
            final(self).phase == K8sPhase::Done,
            final(self).via_reconciler == old(self).via_reconciler,
    {
        self.error = error_of_command(result, "k8s_custom_deploy apply_cmd failed");
        self.phase = K8sPhase::Done;
    }

    /// Takes the outcome of a check without changes.
    pub fn on_dry_run(&mut self, result: Result<bool, String>)
        ensures
            opt_text(final(self).error) == command_error(result, "kubectl apply failed"@),
            final(self).phase == K8sPhase::Done,
            final(self).via_reconciler == old(self).via_reconciler,
    {
        self.error = error_of_command(result, "kubectl apply failed");
        self.phase = K8sPhase::Done;
    }

    /// Takes the outcome of documents that were applied through the object store.
    pub fn on_reconciled(&mut self, result: Result<(), String>)
        ensures
            final(self).error == (match result {
                Ok(_) => None,
                Err(e) => Some(e),
            }),
            final(self).phase == K8sPhase::Done,
            final(self).via_reconciler,
    {
        self.error = match result {
            Ok(_) => None,
            Err(e) => Some(e),
        };
        self.phase = K8sPhase::Done;
        self.via_reconciler = true;
    }

    /// How the deployment leaves the runtime status.
    pub fn runtime(&self, dry_run: bool) -> (r: RuntimeAfter)
        ensures
            r == (if self.error is Some {
                RuntimeAfter::Error
            } else if dry_run {
                RuntimeAfter::NotApplicable
            } else {
                RuntimeAfter::Keep
            }),
    {
        if self.error.is_some() {
            RuntimeAfter::Error
        } else if dry_run {
            RuntimeAfter::NotApplicable
        } else {
            RuntimeAfter::Keep
        }
    }

    /// Whether the pods are watched from now on.
    pub fn watches_pods(&self, m: &Manifest, dry_run: bool) -> (r: bool)
        ensures
            r == (self.error is None && !dry_run && m.pod_selector@.len() > 0),
    {
        self.error.is_none() && !dry_run && m.pod_selector.len() > 0
    }

    /// How much of the deployment is left.
    pub open spec fn left(self, m: Manifest) -> int {
        match self.phase {
            K8sPhase::Image(i) => m.docker_builds@.len() - i + 1,
            K8sPhase::Apply => 1,
            K8sPhase::Done => 0,
        }
    }
}

/// The arguments that check documents without changing the cluster.
pub fn dry_run_args() -> (r: Vec<String>)
    ensures
        texts(r@) == seq![
            "kubectl"@,
            "apply"@,
            "-f"@,
            "-"@,
            "--dry-run=client"@,
            "--validate=false"@,
        ],
{
    let r: Vec<String> = vec![
        owned("kubectl"),
        owned("apply"),
        owned("-f"),
        owned("-"),
        owned("--dry-run=client"),
        owned("--validate=false"),
    ];
    assert(texts(r@) =~= seq![
        "kubectl"@,
        "apply"@,
        "-f"@,
        "-"@,
        "--dry-run=client"@,
        "--validate=false"@,
    ]);
    r
}

/// A deployment comes to its end: each outcome leaves less to do, and an image that
/// could not be built leaves nothing.
pub proof fn deployment_ends(before: K8sBuild, after: K8sBuild, m: Manifest, failed: bool)
    requires
        before.phase is Image,
        before.phase->Image_0 < m.docker_builds@.len(),
        if failed {
            after.phase == K8sPhase::Done
        } else {
            after.phase == image_phase(m, before.phase->Image_0 + 1)
        },
    ensures
        0 <= after.left(m) < before.left(m),
        failed ==> after.left(m) == 0,
{
    assert(m.docker_builds@.len() == m.docker_builds.len());
}

/// The resources that declare a command for their removal, with that command.
pub open spec fn down_specs(ms: Seq<Manifest>) -> Seq<(Seq<char>, CmdV)>
    decreases ms.len(),
{
    if ms.len() == 0 {
        Seq::empty()
    } else {
        let rest = down_specs(ms.drop_last());
        match ms.last().k8s_custom_delete_cmd {
            Some(c) => rest.push((ms.last().name@, c@)),
            None => rest,
        }
    }
}

/// The contents of a list of named commands.
pub open spec fn named_cmds(v: Seq<(String, Cmd)>) -> Seq<(Seq<char>, CmdV)> {
    v.map_values(|e: (String, Cmd)| (e.0@, e.1@))
}

/// The resources that declare a command for their removal, with that command.
pub fn k8s_down_specs(manifests: &Vec<Manifest>) -> (r: Vec<(String, Cmd)>)
    ensures
        named_cmds(r@) == down_specs(manifests@),
{
    let mut r: Vec<(String, Cmd)> = Vec::new();
    let mut i: usize = 0;
    assert(named_cmds(r@) =~= down_specs(manifests@.take(0)));
    while i < manifests.len()
        invariant
            i <= manifests@.len(),
            named_cmds(r@) == down_specs(manifests@.take(i as int)),
        decreases manifests@.len() - i,
    {
        proof {
            assert(manifests@.take(i + 1).drop_last() =~= manifests@.take(i as int));
            assert(manifests@.take(i + 1).last() == manifests@[i as int]);
        }
        if let Some(c) = &manifests[i].k8s_custom_delete_cmd {
            let cmd: Cmd = c.clone();
            let item = (manifests[i].name.clone(), cmd);
            let ghost before = r@;
            r.push(item);
            assert(named_cmds(r@) =~= named_cmds(before).push((item.0@, item.1@)));
        }
        i += 1;
    }
    assert(manifests@.take(i as int) =~= manifests@);
    r
}

/// The log line before a removal command: where nothing is to be changed, it is
/// only named.
pub fn down_started(name: &str, cmd: &Cmd, dry_run: bool) -> (r: LogLine)
    ensures
        r@ == log_v(
            name@,
            Level::Info,
            (if dry_run {
                "[dry-run] would run delete_cmd: "@
            } else {
                "Running k8s_custom_deploy delete_cmd: "@
            }) + join(texts(cmd.argv@), " "@) + "\n"@,
        ),
{
    let what = if dry_run {
        "[dry-run] would run delete_cmd: "
    } else {
        "Running k8s_custom_deploy delete_cmd: "
    };
    line(name, Level::Info, cat3(what, cmd.display().as_str(), "\n"))
}

/// The log line after a removal command.
pub fn down_ended(name: &str, result: &Result<bool, String>) -> (r: LogLine)
    ensures
        r@ == (match result {
            Ok(true) => log_v(name@, Level::Info, "delete_cmd succeeded\n"@),
            Ok(false) => log_v(name@, Level::Error, "delete_cmd failed\n"@),
            Err(e) => log_v(name@, Level::Error, "delete_cmd error: "@ + e@ + "\n"@),
        }),
{
    match result {
        Ok(ok) => if *ok {
            line(name, Level::Info, owned("delete_cmd succeeded\n"))
        } else {
            line(name, Level::Error, owned("delete_cmd failed\n"))
        },
        Err(e) => line(name, Level::Error, cat3("delete_cmd error: ", e.as_str(), "\n")),
    }
}

/// What is logged before a step of a deployment.
pub open spec fn action_text(a: K8sAction, m: Manifest) -> Option<Seq<char>> {
    match a {
        K8sAction::BuildImage(i) => Some(
            "Building image: "@ + m.docker_builds@[i as int].image_ref@ + "\n"@,
        ),
        K8sAction::ApplyByCommand => Some("Running k8s_custom_deploy apply_cmd\n"@),
        K8sAction::ApplyDry(_) => Some("kubectl apply (dry-run=client)\n"@),
        K8sAction::ApplyDocs(_) => Some("kubectl apply (via reconciler)\n"@),
        K8sAction::Finish => None,
    }
}

/// What is logged before a step of a deployment.
pub fn action_line(a: &K8sAction, m: &Manifest, span: &str) -> (r: Option<LogLine>)
    requires
        a is BuildImage ==> a->BuildImage_0 < m.docker_builds@.len(),
    ensures
        match r {
            Some(l) => action_text(*a, *m) is Some && l@ == log_v(
                span@,
                Level::Info,
                action_text(*a, *m)->0,
            ),
            None => action_text(*a, *m) is None,
        },
{
    let text = match a {
        K8sAction::BuildImage(i) => cat3(
            "Building image: ",
            m.docker_builds[*i].image_ref.as_str(),
            "\n",
        ),
        K8sAction::ApplyByCommand => owned("Running k8s_custom_deploy apply_cmd\n"),
        K8sAction::ApplyDry(_) => owned("kubectl apply (dry-run=client)\n"),
        K8sAction::ApplyDocs(_) => owned("kubectl apply (via reconciler)\n"),
        K8sAction::Finish => {
            return None;
        },
    };
    Some(line(span, Level::Info, text))
}

/// What is logged where a full build is done though a live update was possible.
pub fn full_rebuild_line(name: &str) -> (r: LogLine)
    ensures
        r@ == log_v(name@, Level::Info, "Full rebuild selected\n"@),
{
    line(name, Level::Info, owned("Full rebuild selected\n"))
}

/// What is logged of a build that is skipped because its resource is paused.
pub fn paused_line(name: &str) -> (r: LogLine)
    ensures
        r@ == log_v(name@, Level::Info, "Resource is paused; build skipped\n"@),
{
    line(name, Level::Info, owned("Resource is paused; build skipped\n"))
}

/// What is logged before an update command is run.
pub fn update_started(span: &str, cmd: &Cmd) -> (r: LogLine)
    ensures
        r@ == log_v(span@, Level::Info, "Building: "@ + join(texts(cmd.argv@), " "@) + "\n"@),
{
    line(span, Level::Info, cat3("Building: ", cmd.display().as_str(), "\n"))
}

/// What is logged before the image of a Compose resource is built.
pub fn image_started(span: &str, image_ref: &str) -> (r: LogLine)
    ensures
        r@ == log_v(span@, Level::Info, "Building image: "@ + image_ref@ + "\n"@),
{
    line(span, Level::Info, cat3("Building image: ", image_ref, "\n"))
}

/// What is logged of an image of a Compose resource that could not be built.
pub fn image_failed(span: &str, error: &str) -> (r: LogLine)
    ensures
        r@ == log_v(span@, Level::Error, "Image build failed: "@ + error@ + "\n"@),
{
    line(span, Level::Error, cat3("Image build failed: ", error, "\n"))
}

/// What is logged before an image is built by the `docker` program.
pub fn buildkit_started(db: &DockerBuild, span: &str) -> (r: LogLine)
    ensures
        r@ == log_v(span@, Level::Info, "docker build (BuildKit): "@ + db.image_ref@ + "\n"@),
{
    line(span, Level::Info, cat3("docker build (BuildKit): ", db.image_ref.as_str(), "\n"))
}

/// What is logged of the reference that a custom build reported.
pub fn custom_output_line(span: &str, output_ref: &str) -> (r: LogLine)
    ensures
        r@ == log_v(
            span@,
            Level::Info,
            "custom_build output image ref: "@ + output_ref@ + "\n"@,
        ),
{
    line(span, Level::Info, cat3("custom_build output image ref: ", output_ref, "\n"))
}

/// The error of a custom build whose output file could not be read.
pub fn custom_output_unread(db: &DockerBuild, path: &str, error: &str) -> (r: String)
    ensures
        r@ == "custom_build "@ + db.image_ref@ + " could not read outputs_image_ref_to "@ + path@
            + ": "@ + error@,
{
    let mut r = cat3(
        "custom_build ",
        db.image_ref.as_str(),
        " could not read outputs_image_ref_to ",
    );
    r.append(path);
    r.append(": ");
    r.append(error);
    r
}

/// What is logged before an image is loaded into a cluster.
pub fn kind_loading(span: &str, image_ref: &str, cluster: &str) -> (r: LogLine)
    ensures
        r@ == log_v(
            span@,
            Level::Info,
            "Loading "@ + image_ref@ + " into kind cluster '"@ + cluster@ + "'\n"@,
        ),
{
    let mut text = cat3("Loading ", image_ref, " into kind cluster '");
    text.append(cluster);
    text.append("'\n");
    line(span, Level::Info, text)
}

/// What is logged of lines that a command or an image build printed.
pub open spec fn printed_logs(span: Seq<char>, l: Seq<Seq<char>>) -> Seq<LogV>
    decreases l.len(),
{
    if l.len() == 0 {
        Seq::empty()
    } else {
        printed_logs(span, l.drop_last()).push(log_v(span, Level::Info, l.last() + "\n"@))
    }
}

/// Takes a message of the Docker API on the build of an image: what it printed is
/// logged, and an error ends the build.
pub fn build_message(
    db: &DockerBuild,
    span: &str,
    printed: Option<&str>,
    error: Option<&str>,
) -> (r: (Vec<LogLine>, Option<String>))
    ensures
        ({
            let out = match printed {
                Some(p) => printed_logs(span@, lines(p@)),
                None => Seq::empty(),
            };
            match error {
                Some(e) => logs((r.0)@) == out.push(log_v(span@, Level::Error, e@ + "\n"@))
                    && r.1 is Some && r.1->0@ == "docker build "@ + db.image_ref@ + ": "@ + e@,
                None => logs((r.0)@) == out && r.1 is None,
            }
        }),
{
    broadcast use logs_push;

    let mut log: Vec<LogLine> = Vec::new();
    assert(logs(log@) =~= Seq::empty());
    if let Some(p) = printed {
        let l = lines_of(p);
        let ghost all = texts(l@);
        let mut i: usize = 0;
        assert(logs(log@) =~= printed_logs(span@, all.take(0)));
        while i < l.len()
            invariant
                i <= l@.len(),
                all == texts(l@),
                logs(log@) == printed_logs(span@, all.take(i as int)),
            decreases l@.len() - i,
        {
            assert(all.take(i + 1).drop_last() =~= all.take(i as int));
            assert(all.take(i + 1).last() == l@[i as int]@);
            log.push(line(span, Level::Info, cat(l[i].as_str(), "\n")));
            i += 1;
        }
        assert(all.take(i as int) =~= all);
    }
    match error {
        Some(e) => {
            log.push(line(span, Level::Error, cat(e, "\n")));
            (log, Some(build_failed(db, e)))
        },
        None => (log, None),
    }
}

/// The error of an image build through the Docker API.
pub fn build_failed(db: &DockerBuild, error: &str) -> (r: String)
    ensures
        r@ == "docker build "@ + db.image_ref@ + ": "@ + error@,
{
    cat(cat3("docker build ", db.image_ref.as_str(), ": ").as_str(), error)
}

/// What is logged of an image that got a further tag.
pub fn tagged_line(db: &DockerBuild, span: &str, tag: &str) -> (r: LogLine)
    ensures
        r@ == log_v(span@, Level::Info, "Tagged "@ + db.image_ref@ + " as "@ + tag@ + "\n"@),
{
    let mut text = cat3("Tagged ", db.image_ref.as_str(), " as ");
    text.append(tag);
    text.append("\n");
    line(span, Level::Info, text)
}

/// The error of an image that could not get a further tag.
pub fn tag_failed(db: &DockerBuild, tag: &str, error: &str) -> (r: String)
    ensures
        r@ == "tagging image "@ + db.image_ref@ + " as "@ + tag@ + ": "@ + error@,
{
    let mut r = cat3("tagging image ", db.image_ref.as_str(), " as ");
    r.append(tag);
    r.append(": ");
    r.append(error);
    r
}

} // verus!
