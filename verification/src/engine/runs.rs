//! Runs: builds that alternate between commands and decisions, with each outcome
//! leading to what is done next.

use vstd::prelude::*;
use vstd::string::*;

use crate::engine::builds::{
    build_route, command_error, custom_build_command, custom_build_error, custom_build_output,
    custom_env, custom_output_line, custom_output_unread, buildkit_error, inspected_ref,
    known_digest, route_of, tag_failed, tagged_line, BuildResult, BuildRoute,
};
use crate::engine::images::{image_ref_repo_and_tag, pinned_digest, repo_and_tag};
use crate::engine::live_update::{
    actions_view, initial_sync, initial_sync_command, live_update_plan, step_actions, changed_view,
    StepAction, StepV,
};
use crate::engine::log::{line, log_v, Level, LogLine, LogV};
use crate::manifest::{bare, Cmd, CmdV, DockerBuild, LiveUpdateStep, Manifest};
use crate::text::{cat3, opt_text, owned, trim};

verus! {

/// Why steps are taken.
#[derive(Debug, Clone, Copy, PartialEq, Eq, Structural)]
pub enum StepKind {
    /// Files changed, and the container is updated in place.
    LiveUpdate,
    /// A pod started.
    InitialSync,
}

/// How the command of a step failed.
#[derive(Debug)]
pub enum StepFailure {
    /// It exited with a failure.
    Exited,
    /// It could not be run.
    NotRun(String),
}

/// How the command of a step failed, as a mathematical object.
pub enum FailureV {
    Exited,
    NotRun(Seq<char>),
}

impl View for StepFailure {
    type V = FailureV;

    open spec fn view(&self) -> FailureV {
        match self {
            StepFailure::Exited => FailureV::Exited,
            StepFailure::NotRun(e) => FailureV::NotRun(e@),
        }
    }
}

/// How the command of a step failed, if it did.
pub open spec fn step_failure(result: Result<bool, String>) -> Option<FailureV> {
    match result {
        Ok(true) => None,
        Ok(false) => Some(FailureV::Exited),
        Err(e) => Some(FailureV::NotRun(e@)),
    }
}

/// Steps that are taken one after the other, until one fails.
#[derive(Debug)]
pub struct StepRun {
    kind: StepKind,
    plan: Vec<StepAction>,
    next: usize,
    failure: Option<StepFailure>,
}

/// Steps under way as a mathematical object: why they are taken, those that are left,
/// and how the one that ended them failed.
pub struct StepRunV {
    pub kind: StepKind,
    pub left: Seq<StepV>,
    pub failure: Option<FailureV>,
}

impl View for StepRun {
    type V = StepRunV;

    closed spec fn view(&self) -> StepRunV {
        StepRunV {
            kind: self.kind,
            left: if self.failure is Some {
                Seq::empty()
            } else {
                actions_view(self.plan@).skip(self.next as int)
            },
            failure: match self.failure {
                Some(f) => Some(f@),
                None => None,
            },
        }
    }
}

/// The line that is logged before the first step.
pub open spec fn steps_start(kind: StepKind, span: Seq<char>) -> LogV {
    match kind {
        StepKind::LiveUpdate => log_v(span, Level::Info, "Live update (no rebuild)\n"@),
        StepKind::InitialSync => log_v(span, Level::Info, "Initial sync started\n"@),
    }
}

/// The line that is logged behind the last step.
pub open spec fn steps_end(run: StepRunV, span: Seq<char>) -> LogV {
    match (run.kind, run.failure) {
        (StepKind::LiveUpdate, None) => log_v(span, Level::Info, "Live update complete\n"@),
        (StepKind::LiveUpdate, Some(_)) => log_v(span, Level::Error, "Live update failed\n"@),
        (StepKind::InitialSync, None) => log_v(span, Level::Info, "Initial sync complete\n"@),
        (StepKind::InitialSync, Some(FailureV::Exited)) => log_v(
            span,
            Level::Error,
            "Initial sync step failed\n"@,
        ),
        (StepKind::InitialSync, Some(FailureV::NotRun(e))) => log_v(
            span,
            Level::Error,
            "Initial sync failed: "@ + e + "\n"@,
        ),
    }
}

/// The error that a live update ended with.
pub open spec fn steps_error(run: StepRunV) -> Option<Seq<char>> {
    match run.failure {
        None => None,
        Some(FailureV::Exited) => Some("live_update step failed"@),
        Some(FailureV::NotRun(e)) => Some(e),
    }
}

/// The steps of the initial sync of a pod.
pub open spec fn initial_syncs(steps: Seq<LiveUpdateStep>, pod: Seq<char>) -> Seq<StepV>
    decreases steps.len(),
{
    if steps.len() == 0 {
        Seq::empty()
    } else {
        let rest = initial_syncs(steps.drop_last(), pod);
        match initial_sync(steps.last(), pod) {
            Some((argv, log)) => rest.push(StepV { log, command: Some(bare(argv)) }),
            None => rest,
        }
    }
}

impl StepRun {
    /// Whether the next step is one of the plan or behind it.
    pub closed spec fn ok(self) -> bool {
        self.next <= self.plan@.len()
    }

    fn of(kind: StepKind, plan: Vec<StepAction>) -> (r: StepRun)
        ensures
            r.ok(),
            r@ == (StepRunV { kind, left: actions_view(plan@), failure: None }),
    {
        let r = StepRun { kind, plan, next: 0, failure: None };
        assert(actions_view(plan@).skip(0) =~= actions_view(plan@));
        r
    }

    /// A live update of a pod that is about to start.
    pub fn live_update(
        steps: &Vec<LiveUpdateStep>,
        pod: &str,
        changed_paths: Option<&Vec<String>>,
    ) -> (r: StepRun)
        ensures
            r.ok(),
            r@ == (StepRunV {
                kind: StepKind::LiveUpdate,
                left: step_actions(steps@, pod@, changed_view(changed_paths)),
                failure: None,
            }),
    {
        StepRun::of(StepKind::LiveUpdate, live_update_plan(steps, pod, changed_paths))
    }

    /// The initial sync of a pod that is about to start.
    pub fn initial_sync(steps: &Vec<LiveUpdateStep>, pod: &str) -> (r: StepRun)
        ensures
            r.ok(),
            r@ == (StepRunV {
                kind: StepKind::InitialSync,
                left: initial_syncs(steps@, pod@),
                failure: None,
            }),
    {
        let mut plan: Vec<StepAction> = Vec::new();
        let mut i: usize = 0;
        assert(actions_view(plan@) =~= initial_syncs(steps@.take(0), pod@));
        while i < steps.len()
            invariant
                i <= steps@.len(),
                actions_view(plan@) == initial_syncs(steps@.take(i as int), pod@),
            decreases steps@.len() - i,
        {
            proof {
                assert(steps@.take(i + 1).drop_last() =~= steps@.take(i as int));
                assert(steps@.take(i + 1).last() == steps@[i as int]);
            }
            if let Some((cmd, log)) = initial_sync_command(&steps[i], pod) {
                let action = StepAction { log, command: Some(cmd) };
                let ghost before = plan@;
                plan.push(action);
                assert(actions_view(plan@) =~= actions_view(before).push(action@));
            }
            i += 1;
        }
        assert(steps@.take(i as int) =~= steps@);
        StepRun::of(StepKind::InitialSync, plan)
    }

    /// The next step, where one is left.
    pub fn next(&mut self) -> (r: Option<StepAction>)
        requires
            old(self).ok(),
        ensures
            final(self).ok(),
            if old(self)@.left.len() == 0 {
                r is None && final(self)@ == old(self)@
            } else {
                &&& r is Some && r->0@ == old(self)@.left[0]
                &&& final(self)@ == (StepRunV { left: old(self)@.left.drop_first(), ..old(self)@ })
            },
    {
        let ghost all = actions_view(self.plan@);
        if self.failure.is_some() || self.next >= self.plan.len() {
            return None;
        }
        let step = &self.plan[self.next];
        let r = StepAction { log: step.log.clone(), command: step.command.clone() };
        assert(r@ == all[self.next as int]);
        self.next = self.next + 1;
        assert(all.skip(self.next - 1).drop_first() =~= all.skip(self.next as int));
        Some(r)
    }

    /// Takes how the command of a step ended: a failure ends the run.
    pub fn on_ended(&mut self, result: Result<bool, String>)
        requires
            old(self).ok(),
        ensures
            final(self).ok(),
            final(self)@ == (match step_failure(result) {
                None => old(self)@,
                Some(f) => StepRunV { left: Seq::empty(), failure: Some(f), ..old(self)@ },
            }),
    {
        match result {
            Ok(succeeded) => if !succeeded {
                self.failure = Some(StepFailure::Exited);
            },
            Err(e) => {
                self.failure = Some(StepFailure::NotRun(e));
            },
        }
    }

    /// The line that is logged before the first step.
    pub fn started(&self, span: &str) -> (r: LogLine)
        ensures
            r@ == steps_start(self@.kind, span@),
    {
        match self.kind {
            StepKind::LiveUpdate => line(span, Level::Info, owned("Live update (no rebuild)\n")),
            StepKind::InitialSync => line(span, Level::Info, owned("Initial sync started\n")),
        }
    }

    /// The line that is logged behind the last step.
    pub fn ended(&self, span: &str) -> (r: LogLine)
        ensures
            r@ == steps_end(self@, span@),
    {
        match (self.kind, &self.failure) {
            (StepKind::LiveUpdate, None) => line(
                span,
                Level::Info,
                owned("Live update complete\n"),
            ),
            (StepKind::LiveUpdate, Some(_)) => line(
                span,
                Level::Error,
                owned("Live update failed\n"),
            ),
            (StepKind::InitialSync, None) => line(
                span,
                Level::Info,
                owned("Initial sync complete\n"),
            ),
            (StepKind::InitialSync, Some(StepFailure::Exited)) => line(
                span,
                Level::Error,
                owned("Initial sync step failed\n"),
            ),
            (StepKind::InitialSync, Some(StepFailure::NotRun(e))) => line(
                span,
                Level::Error,
                cat3("Initial sync failed: ", e.as_str(), "\n"),
            ),
        }
    }

    /// The error that a live update ended with.
    pub fn error(&self) -> (r: Option<String>)
        ensures
            opt_text(r) == steps_error(self@),
    {
        match &self.failure {
            None => None,
            Some(StepFailure::Exited) => Some(owned("live_update step failed")),
            Some(StepFailure::NotRun(e)) => Some(e.clone()),
        }
    }
}

/// The images of a resource that are built one after the other, until one fails.
#[derive(Debug)]
pub struct ImagesRun {
    pub next: usize,
    pub failed: bool,
}

impl ImagesRun {
    /// The images of a resource, none of them built yet.
    pub fn new() -> (r: ImagesRun)
        ensures
            r.next == 0,
            !r.failed,
    {
        ImagesRun { next: 0, failed: false }
    }

    /// The index of the image that is built next, where one is left.
    pub fn next(&self, m: &Manifest) -> (r: Option<usize>)
        ensures
            r == (if !self.failed && self.next < m.docker_builds@.len() {
                Some(self.next)
            } else {
                None
            }),
    {
        if !self.failed && self.next < m.docker_builds.len() {
            Some(self.next)
        } else {
            None
        }
    }

    /// Takes whether the image that was next is built.
    pub fn on_image(&mut self, m: &Manifest, built: bool)
        requires
            old(self).next < m.docker_builds@.len(),
        ensures
            final(self).next == old(self).next + 1,
            final(self).failed == (old(self).failed || !built),
    {
        assert(self.next < m.docker_builds.len());
        self.next = self.next + 1;
        if !built {
            self.failed = true;
        }
    }
}

/// Where the build of an image stands.
#[derive(Debug, Clone, Copy, PartialEq, Eq, Structural)]
pub enum ImagePhase {
    /// The image is built next.
    Build,
    /// The file that a custom build wrote its reference to is read next.
    Output,
    /// The further tag with the index is given next.
    Tag(usize),
    /// The image is inspected next.
    Inspect,
    /// Nothing is left to do.
    Done,
}

/// What is to be done next for the build of an image.
#[derive(Debug)]
pub enum ImageAction {
    /// Run the command of a custom build.
    RunCustom(Cmd),
    /// Run the `docker` program.
    RunBuildKit,
    /// Build through the Docker API.
    CallApi,
    /// Read the file that a custom build wrote its reference to.
    ReadOutput(String),
    /// Give the image another reference: the repository and the tag.
    Tag { repo: String, tag: String },
    /// Look for the digest of the image.
    Inspect(String),
    Finish,
}

/// The build of an image.
#[derive(Debug)]
pub struct ImageBuild {
    pub phase: ImagePhase,
    pub output_ref: Option<String>,
    pub digest: Option<String>,
    pub error: Option<String>,
}

/// The build of an image as a mathematical object.
pub struct ImageBuildV {
    pub phase: ImagePhase,
    pub output_ref: Option<Seq<char>>,
    pub digest: Option<Seq<char>>,
    pub error: Option<Seq<char>>,
}

impl View for ImageBuild {
    type V = ImageBuildV;

    open spec fn view(&self) -> ImageBuildV {
        ImageBuildV {
            phase: self.phase,
            output_ref: opt_text(self.output_ref),
            digest: opt_text(self.digest),
            error: opt_text(self.error),
        }
    }
}

/// The image whose digest is looked for.
pub open spec fn looked_for(db: DockerBuild, output_ref: Option<Seq<char>>) -> Seq<char> {
    match output_ref {
        Some(o) => o,
        None => db.image_ref@,
    }
}

impl ImageBuildV {
    /// The build, ended with an error.
    pub open spec fn failed(self, error: Seq<char>) -> ImageBuildV {
        ImageBuildV { phase: ImagePhase::Done, error: Some(error), ..self }
    }

    /// A custom build whose reference is known: a digest that the reference is
    /// pinned to is taken, else the image is inspected.
    pub open spec fn reported(self, db: DockerBuild, output_ref: Option<Seq<char>>) -> ImageBuildV {
        match pinned_digest(looked_for(db, output_ref)) {
            Some(d) => ImageBuildV {
                phase: ImagePhase::Done,
                output_ref,
                digest: Some(d),
                ..self
            },
            None => ImageBuildV { phase: ImagePhase::Inspect, output_ref, ..self },
        }
    }

    /// The build once the further tags before the one with the index are given.
    pub open spec fn tagging(self, db: DockerBuild, i: int) -> ImageBuildV {
        ImageBuildV {
            phase: if i < db.extra_tags@.len() {
                ImagePhase::Tag(i as usize)
            } else {
                ImagePhase::Inspect
            },
            ..self
        }
    }

    /// The build after its command, or the call of the Docker API, came to an end.
    pub open spec fn built(self, db: DockerBuild, result: Result<bool, String>) -> ImageBuildV {
        match route_of(db) {
            BuildRoute::Custom => match command_error(
                result,
                "custom_build "@ + db.image_ref@ + " command failed"@,
            ) {
                Some(e) => self.failed(e),
                None => if db.outputs_image_ref_to is Some {
                    ImageBuildV { phase: ImagePhase::Output, ..self }
                } else {
                    self.reported(db, None)
                },
            },
            BuildRoute::BuildKit => match command_error(
                result,
                "docker build "@ + db.image_ref@ + " failed"@,
            ) {
                Some(e) => self.failed(e),
                None => ImageBuildV { phase: ImagePhase::Inspect, ..self },
            },
            BuildRoute::Api => match command_error(
                result,
                "docker build "@ + db.image_ref@ + " failed"@,
            ) {
                Some(e) => self.failed(e),
                None => self.tagging(db, 0),
            },
        }
    }

    /// The build after the file that holds its reference was read, or could not be.
    pub open spec fn read(
        self,
        db: DockerBuild,
        path: Seq<char>,
        text: Result<Seq<char>, Seq<char>>,
    ) -> ImageBuildV {
        let who = "custom_build "@ + db.image_ref@;
        match text {
            Err(e) => self.failed(
                who + " could not read outputs_image_ref_to "@ + path + ": "@ + e,
            ),
            Ok(t) => if trim(t).len() == 0 {
                self.failed(who + " wrote an empty outputs_image_ref_to "@ + path)
            } else {
                self.reported(db, Some(trim(t)))
            },
        }
    }

    /// The build after a further tag was given, or could not be.
    pub open spec fn tagged(self, db: DockerBuild, i: int, error: Option<Seq<char>>) -> ImageBuildV {
        match error {
            Some(e) => self.failed(
                "tagging image "@ + db.image_ref@ + " as "@ + db.extra_tags@[i]@ + ": "@ + e,
            ),
            None => self.tagging(db, i + 1),
        }
    }

    /// How much of the build is left.
    pub open spec fn left(self, db: DockerBuild) -> int {
        match self.phase {
            ImagePhase::Build => db.extra_tags@.len() as int + 3,
            ImagePhase::Output => 2,
            ImagePhase::Tag(i) => db.extra_tags@.len() as int - i + 1,
            ImagePhase::Inspect => 1,
            ImagePhase::Done => 0,
        }
    }
}

/// A text or an error, as mathematical objects.
pub open spec fn text_or_error(r: Result<String, String>) -> Result<Seq<char>, Seq<char>> {
    match r {
        Ok(t) => Ok(t@),
        Err(e) => Err(e@),
    }
}

impl ImageBuild {
    /// A build that is about to start.
    pub fn new() -> (r: ImageBuild)
        ensures
            r@ == (ImageBuildV {
                phase: ImagePhase::Build,
                output_ref: None,
                digest: None,
                error: None,
            }),
    {
        ImageBuild { phase: ImagePhase::Build, output_ref: None, digest: None, error: None }
    }

    /// What is to be done next.
    pub fn action(&self, db: &DockerBuild) -> (r: ImageAction)
        requires
            self.phase is Tag ==> self.phase->Tag_0 < db.extra_tags@.len(),
        ensures
            match self.phase {
                ImagePhase::Build => match route_of(*db) {
                    BuildRoute::Custom => r matches ImageAction::RunCustom(c) && c@ == (CmdV {
                        env: db.command->0@.env + custom_env(*db),
                        ..db.command->0@
                    }),
                    BuildRoute::BuildKit => r is RunBuildKit,
                    BuildRoute::Api => r is CallApi,
                },
                ImagePhase::Output => match db.outputs_image_ref_to {
                    Some(p) => r matches ImageAction::ReadOutput(path) && path@ == p@,
                    None => r is Finish,
                },
                ImagePhase::Tag(i) => r matches ImageAction::Tag { repo, tag } && (repo@, tag@)
                    == repo_and_tag(db.extra_tags@[i as int]@),
                ImagePhase::Inspect => r matches ImageAction::Inspect(image) && image@
                    == inspected_ref(*db, self.output_ref),
                ImagePhase::Done => r is Finish,
            },
    {
        match self.phase {
            ImagePhase::Build => match build_route(db) {
                BuildRoute::Custom => match custom_build_command(db) {
                    Some(cmd) => ImageAction::RunCustom(cmd),
                    None => ImageAction::Finish,
                },
                BuildRoute::BuildKit => ImageAction::RunBuildKit,
                BuildRoute::Api => ImageAction::CallApi,
            },
            ImagePhase::Output => match &db.outputs_image_ref_to {
                Some(p) => ImageAction::ReadOutput(p.clone()),
                None => ImageAction::Finish,
            },
            ImagePhase::Tag(i) => {
                let (repo, tag) = image_ref_repo_and_tag(db.extra_tags[i].as_str());
                ImageAction::Tag { repo, tag }
            },
            ImagePhase::Inspect => ImageAction::Inspect(
                match &self.output_ref {
                    Some(o) => o.clone(),
                    None => db.image_ref.clone(),
                },
            ),
            ImagePhase::Done => ImageAction::Finish,
        }
    }

    fn fail(&mut self, error: String)
        ensures
            final(self)@ == old(self)@.failed(error@),
    {
        self.phase = ImagePhase::Done;
        self.error = Some(error);
    }

    fn report(&mut self, db: &DockerBuild, output_ref: Option<String>)
        ensures
            final(self)@ == old(self)@.reported(*db, opt_text(output_ref)),
    {
        let known = known_digest(db, &output_ref);
        self.output_ref = output_ref;
        match known {
            Some(d) => {
                self.digest = Some(d);
                self.phase = ImagePhase::Done;
            },
            None => {
                self.phase = ImagePhase::Inspect;
            },
        }
    }

    /// Takes the outcome of the command, or of the Docker API.
    pub fn on_built(&mut self, db: &DockerBuild, result: Result<bool, String>)
        ensures
            final(self)@ == old(self)@.built(*db, result),
    {
        match build_route(db) {
            BuildRoute::Custom => match custom_build_error(db, result) {
                Some(e) => self.fail(e),
                None => if db.outputs_image_ref_to.is_some() {
                    self.phase = ImagePhase::Output;
                } else {
                    self.report(db, None);
                },
            },
            BuildRoute::BuildKit => match buildkit_error(db, result) {
                Some(e) => self.fail(e),
                None => {
                    self.phase = ImagePhase::Inspect;
                },
            },
            BuildRoute::Api => match buildkit_error(db, result) {
                Some(e) => self.fail(e),
                None => {
                    self.phase = if db.extra_tags.len() > 0 {
                        ImagePhase::Tag(0)
                    } else {
                        ImagePhase::Inspect
                    };
                },
            },
        }
    }

    /// Takes what the file holds that a custom build wrote its reference to, and
    /// tells what is logged.
    pub fn on_output(
        &mut self,
        db: &DockerBuild,
        span: &str,
        path: &str,
        text: Result<String, String>,
    ) -> (r: Option<LogLine>)
        ensures
            final(self)@ == old(self)@.read(*db, path@, text_or_error(text)),
            match text {
                Ok(t) => if trim(t@).len() > 0 {
                    r is Some && r->0@ == log_v(
                        span@,
                        Level::Info,
                        "custom_build output image ref: "@ + trim(t@) + "\n"@,
                    )
                } else {
                    r is None
                },
                Err(_) => r is None,
            },
    {
        match text {
            Err(e) => {
                self.fail(custom_output_unread(db, path, e.as_str()));
                None
            },
            Ok(t) => match custom_build_output(db, path, t.as_str()) {
                Err(e) => {
                    self.fail(e);
                    None
                },
                Ok(output_ref) => {
                    let log = custom_output_line(span, output_ref.as_str());
                    self.report(db, Some(output_ref));
                    Some(log)
                },
            },
        }
    }

    /// Takes whether the further tag was given, and tells what is logged.
    pub fn on_tagged(&mut self, db: &DockerBuild, span: &str, result: Result<(), String>) -> (r:
        Option<LogLine>)
        requires
            old(self).phase is Tag,
            old(self).phase->Tag_0 < db.extra_tags@.len(),
        ensures
            final(self)@ == old(self)@.tagged(
                *db,
                old(self).phase->Tag_0 as int,
                match result {
                    Ok(_) => None,
                    Err(e) => Some(e@),
                },
            ),
            match result {
                Ok(_) => r is Some && r->0@ == log_v(
                    span@,
                    Level::Info,
                    "Tagged "@ + db.image_ref@ + " as "@ + db.extra_tags@[old(
                        self,
                    ).phase->Tag_0 as int]@ + "\n"@,
                ),
                Err(_) => r is None,
            },
    {
        let i: usize = match self.phase {
            ImagePhase::Tag(i) => i,
            _ => 0,
        };
        let len: usize = db.extra_tags.len();
        match result {
            Err(e) => {
                self.fail(tag_failed(db, db.extra_tags[i].as_str(), e.as_str()));
                None
            },
            Ok(_) => {
                self.phase = if i + 1 < len {
                    ImagePhase::Tag(i + 1)
                } else {
                    ImagePhase::Inspect
                };
                Some(tagged_line(db, span, db.extra_tags[i].as_str()))
            },
        }
    }

    /// Takes the digest of the image, where it was found.
    pub fn on_inspected(&mut self, digest: Option<String>)
        ensures
            final(self)@ == (ImageBuildV {
                phase: ImagePhase::Done,
                digest: opt_text(digest),
                ..old(self)@
            }),
    {
        self.digest = digest;
        self.phase = ImagePhase::Done;
    }

    /// The outcome.
    pub fn result(self) -> (r: Result<BuildResult, String>)
        ensures
            match self.error {
                Some(e) => r == Err::<BuildResult, String>(e),
                None => r == Ok::<BuildResult, String>(
                    BuildResult { output_ref: self.output_ref, digest: self.digest },
                ),
            },
    {
        match self.error {
            Some(e) => Err(e),
            None => Ok(BuildResult { output_ref: self.output_ref, digest: self.digest }),
        }
    }
}

/// The build of an image comes to its end: each outcome leaves less to do, and after
/// an error nothing is left.
pub proof fn image_build_ends(
    v: ImageBuildV,
    db: DockerBuild,
    result: Result<bool, String>,
    path: Seq<char>,
    text: Result<Seq<char>, Seq<char>>,
    error: Option<Seq<char>>,
)
    requires
        v.phase is Tag ==> v.phase->Tag_0 < db.extra_tags@.len(),
    ensures
        v.phase is Build ==> 0 <= v.built(db, result).left(db) < v.left(db),
        v.phase is Output ==> 0 <= v.read(db, path, text).left(db) < v.left(db),
        v.phase matches ImagePhase::Tag(i) ==> 0 <= v.tagged(db, i as int, error).left(db)
            < v.left(db),
        v.error is None && v.built(db, result).error is Some ==> v.built(db, result).left(db) == 0,
        v.error is None && v.read(db, path, text).error is Some ==> v.read(db, path, text).left(db)
            == 0,
        v.phase matches ImagePhase::Tag(i) ==> (v.error is None && v.tagged(
            db,
            i as int,
            error,
        ).error is Some ==> v.tagged(db, i as int, error).left(db) == 0),
{
    assert(db.extra_tags@.len() == db.extra_tags.len());
}

} // verus!
