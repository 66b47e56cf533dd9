//! The run as a whole: what is planned, which program runs at each stage,
//! and how the outcome of one stage decides the next step.
//!
//! The library starts no program. It names the next step; the caller runs
//! the program of a stage to its end and reports how it went.

use crate::command::{build_command, build_command_of, remote_shell_args, shell_args_of};
use crate::config::{chosen, lemma_first_usable, offers_of, resolve_remote};
use crate::error::FatalError;
use crate::locate::{relative_path, relative_to};
use crate::naming::{remote_build_path, remote_build_path_of};
use crate::options::{CopyBackView, Options, OptionsView};
use crate::retrieve::{artifact_args_of, artifact_sync_args, lock_args_of, lock_sync_args};
use crate::sync::{outbound_args_of, outbound_sync_args};
use vstd::prelude::*;

verus! {

/// The stages of a run, in the order in which they come.
#[derive(Clone, Copy, Debug, PartialEq, Eq, Structural)]
pub enum Stage {
    /// The project tree goes to the build host.
    SyncOut,
    /// The build runs on the host.
    Build,
    /// Build output comes back.
    CopyArtifacts,
    /// The lock file comes back.
    CopyLock,
}

/// How a program that was run for a stage ended.
#[derive(Clone, Copy, Debug, PartialEq, Eq, Structural)]
pub enum Outcome {
    /// The program could not be started.
    NotStarted,
    /// The program ran and ended with this code.
    Exited(i32),
    /// The program ran and was ended from outside, without a code.
    Killed,
}

/// What is to be done next.
#[derive(Clone, Copy, Debug, PartialEq, Eq, Structural)]
pub enum Step {
    /// Run the program of this stage and report its outcome.
    Run(Stage),
    /// Stop: a fatal condition has come up.
    Fail(FatalError),
    /// Stop: every stage has been gone through. The code is the build's.
    Finish(i32),
}

/// The state of a run between two stages.
#[derive(Clone, Copy, Debug, PartialEq, Eq, Structural)]
pub struct Progress {
    /// The step that is due.
    pub step: Step,
    /// The code the run ends with if nothing fatal comes up: 0 until the
    /// build has run, the build's own afterwards.
    pub status: i32,
}

/// Everything a run needs to know, settled before the first stage.
#[derive(Debug, PartialEq, Eq)]
pub struct Plan {
    /// The build host.
    pub host: String,
    /// The project root.
    pub project_dir: String,
    /// The directory of the project's copy on the host.
    pub build_path: String,
    /// The working directory, relative to the project root.
    pub subdir: String,
    /// The options of the invocation.
    pub options: Options,
}

/// A plan over texts as sequences of characters.
pub struct PlanView {
    pub host: Seq<char>,
    pub project_dir: Seq<char>,
    pub build_path: Seq<char>,
    pub subdir: Seq<char>,
    pub options: OptionsView,
}

impl View for Plan {
    type V = PlanView;

    open spec fn view(&self) -> PlanView {
        PlanView {
            host: self.host@,
            project_dir: self.project_dir@,
            build_path: self.build_path@,
            subdir: self.subdir@,
            options: self.options@,
        }
    }
}

/// A program and the arguments it is run with. It inherits the caller's
/// input and output.
#[derive(Debug, PartialEq, Eq)]
pub struct Invocation {
    pub program: String,
    pub args: Vec<String>,
}

/// An invocation over texts as sequences of characters.
pub struct InvocationView {
    pub program: Seq<char>,
    pub args: Seq<Seq<char>>,
}

impl View for Invocation {
    type V = InvocationView;

    open spec fn view(&self) -> InvocationView {
        InvocationView { program: self.program@, args: self.args.deep_view() }
    }
}

impl Outcome {
    /// A program succeeded where it ran and ended with code 0.
    pub open spec fn succeeded(self) -> bool {
        self == Outcome::Exited(0)
    }

    /// The code a run ends with after a build that ended this way: the
    /// build's own code, and 1 where it left none.
    pub open spec fn status(self) -> int {
        match self {
            Outcome::Exited(code) => code as int,
            _ => 1,
        }
    }
}

impl Stage {
    /// The fatal condition that a failure of this stage is.
    pub open spec fn failure(self) -> FatalError {
        match self {
            Stage::SyncOut => FatalError::OutboundSync,
            Stage::Build => FatalError::RemoteBuild,
            Stage::CopyArtifacts => FatalError::ArtifactCopyBack,
            Stage::CopyLock => FatalError::LockCopyBack,
        }
    }

    /// Whether a program that ended with `outcome` lets the run go on
    /// past this stage: a transfer has to succeed, the build only to run.
    pub open spec fn passed(self, outcome: Outcome) -> bool {
        match self {
            Stage::Build => outcome != Outcome::NotStarted,
            _ => outcome.succeeded(),
        }
    }

    /// The program that carries out this stage: the remote shell for the
    /// build, the file transfer for the others.
    pub open spec fn program(self) -> Seq<char> {
        match self {
            Stage::Build => "ssh"@,
            _ => "rsync"@,
        }
    }
}

impl Step {
    /// The exit code of a step that ends the run: the code reserved for the
    /// fatal condition, or the build's.
    pub open spec fn code(self) -> Option<int> {
        match self {
            Step::Run(_) => None,
            Step::Fail(error) => Some(error.code()),
            Step::Finish(status) => Some(status as int),
        }
    }

    /// The code to exit with, where this step ends the run.
    pub fn exit_code(&self) -> (code: Option<i32>)
        ensures
            match code {
                Some(value) => self.code() == Some(value as int),
                None => self.code() is None,
            },
    {
        match self {
            Step::Run(_) => None,
            Step::Fail(error) => Some(error.exit_code()),
            Step::Finish(status) => Some(*status),
        }
    }
}

impl PlanView {
    /// Whether a stage is part of the run: the transfer out and the build
    /// always, the output's way back only where it was asked for, the lock
    /// file's unless it was declined.
    pub open spec fn includes(self, stage: Stage) -> bool {
        match stage {
            Stage::SyncOut => true,
            Stage::Build => true,
            Stage::CopyArtifacts => !(self.options.copy_back is Skip),
            Stage::CopyLock => !self.options.no_copy_lock,
        }
    }

    /// The arguments of the program of a stage, where the stage is part of
    /// the run.
    pub open spec fn args(self, stage: Stage) -> Option<Seq<Seq<char>>> {
        match stage {
            Stage::SyncOut => Some(
                outbound_args_of(self.project_dir, self.host, self.build_path, self.options.hidden),
            ),
            Stage::Build => Some(
                shell_args_of(
                    self.host,
                    build_command_of(self.options, self.build_path, self.subdir),
                ),
            ),
            Stage::CopyArtifacts => artifact_args_of(
                self.options.copy_back,
                self.host,
                self.build_path,
                self.project_dir,
            ),
            Stage::CopyLock => lock_args_of(
                self.options.no_copy_lock,
                self.host,
                self.build_path,
                self.project_dir,
            ),
        }
    }

    /// The number of stages of the run.
    pub open spec fn length(self) -> int {
        2 + (if self.includes(Stage::CopyArtifacts) {
            1int
        } else {
            0int
        }) + (if self.includes(Stage::CopyLock) {
            1int
        } else {
            0int
        })
    }

    /// The number of stages that come before a stage in the run.
    pub open spec fn position(self, stage: Stage) -> int {
        match stage {
            Stage::SyncOut => 0,
            Stage::Build => 1,
            Stage::CopyArtifacts => 2,
            Stage::CopyLock => if self.includes(Stage::CopyArtifacts) {
                3
            } else {
                2
            },
        }
    }

    /// The stage that `index` stages come before in the run.
    pub open spec fn stage_at(self, index: int) -> Stage {
        if index <= 0 {
            Stage::SyncOut
        } else if index == 1 {
            Stage::Build
        } else if index == 2 && self.includes(Stage::CopyArtifacts) {
            Stage::CopyArtifacts
        } else {
            Stage::CopyLock
        }
    }

    /// Whether each of the first `count` stages was passed with the
    /// outcome it had.
    pub open spec fn clean(self, outcomes: Seq<Outcome>, count: int) -> bool {
        forall|j: int| 0 <= j < count ==> self.stage_at(j).passed(#[trigger] outcomes[j])
    }

    /// The step that follows a stage that went through. `status` is the
    /// code the run ends with if this was the last stage.
    pub open spec fn following(self, stage: Stage, status: i32) -> Step {
        match stage {
            Stage::SyncOut => Step::Run(Stage::Build),
            Stage::Build => if self.includes(Stage::CopyArtifacts) {
                Step::Run(Stage::CopyArtifacts)
            } else if self.includes(Stage::CopyLock) {
                Step::Run(Stage::CopyLock)
            } else {
                Step::Finish(status)
            },
            Stage::CopyArtifacts => if self.includes(Stage::CopyLock) {
                Step::Run(Stage::CopyLock)
            } else {
                Step::Finish(status)
            },
            Stage::CopyLock => Step::Finish(status),
        }
    }

    /// The state of the run after the program of the stage that was due has
    /// ended with `outcome`. A transfer that did not succeed ends the run
    /// with the condition of its stage. A build that could not be started
    /// ends it too; a build that ran, however it ended, lets the run go on
    /// and leaves its code to end the run with. A run that has ended stays
    /// as it is.
    pub open spec fn advance(self, progress: Progress, outcome: Outcome) -> Progress {
        match progress.step {
            Step::Run(stage) => if stage.passed(outcome) {
                let status = if stage == Stage::Build {
                    outcome.status() as i32
                } else {
                    progress.status
                };
                Progress { step: self.following(stage, status), status }
            } else {
                Progress { step: Step::Fail(stage.failure()), status: progress.status }
            },
            _ => progress,
        }
    }

    /// The state of the run after the programs of its first stages have
    /// ended with `outcomes`, one after the other.
    pub open spec fn after(self, outcomes: Seq<Outcome>) -> Progress
        decreases outcomes.len(),
    {
        if outcomes.len() == 0 {
            Progress::start_of()
        } else {
            self.advance(self.after(outcomes.drop_last()), outcomes.last())
        }
    }

    /// Whether the program of `stage` is run at some point when the
    /// programs end with `outcomes`, one after the other.
    pub open spec fn attempts(self, outcomes: Seq<Outcome>, stage: Stage) -> bool {
        exists|k: int|
            0 <= k <= outcomes.len() && #[trigger] self.after(outcomes.take(k)).step == Step::Run(
                stage,
            )
    }
}

impl Progress {
    /// A run begins with the transfer out.
    pub open spec fn start_of() -> Progress {
        Progress { step: Step::Run(Stage::SyncOut), status: 0 }
    }

    /// The state of a run before its first stage.
    pub fn start() -> (progress: Progress)
        ensures
            progress == Progress::start_of(),
    {
        Progress { step: Step::Run(Stage::SyncOut), status: 0 }
    }
}

/// The plan that an invocation comes to: the host as the configuration
/// resolves it, the build directory that belongs to the project root, and
/// the working directory relative to the root. There is no plan where no
/// host is named, nor where the working directory lies outside the root.
pub open spec fn planned_of(
    options: OptionsView,
    sources: Seq<Option<Seq<char>>>,
    project_dir: Seq<char>,
    cwd: Seq<char>,
) -> Result<PlanView, FatalError> {
    match chosen(options.remote, offers_of(sources)) {
        None => Err(FatalError::NoRemote),
        Some(host) => match relative_to(project_dir, cwd) {
            None => Err(FatalError::RelativePath),
            Some(subdir) => Ok(
                PlanView {
                    host,
                    project_dir,
                    build_path: remote_build_path_of(project_dir),
                    subdir,
                    options,
                },
            ),
        },
    }
}

/// The host of a plan is the command line's wherever it names one,
/// whatever the configuration files hold. Where the command line names
/// none and no configuration file could be read, there is no plan: the run
/// ends with [`FatalError::NoRemote`] before any program is named.
pub proof fn lemma_plan_host(
    options: OptionsView,
    sources: Seq<Option<Seq<char>>>,
    project_dir: Seq<char>,
    cwd: Seq<char>,
)
    ensures
        options.remote matches Some(host) ==> match planned_of(options, sources, project_dir, cwd) {
            Ok(plan) => plan.host == host,
            Err(error) => error == FatalError::RelativePath,
        },
        options.remote is None && (forall|i: int| 0 <= i < sources.len() ==> sources[i] is None)
            ==> planned_of(options, sources, project_dir, cwd) == Err::<PlanView, FatalError>(
            FatalError::NoRemote,
        ),
{
    if options.remote is None && (forall|i: int| 0 <= i < sources.len() ==> sources[i] is None) {
        lemma_first_usable(offers_of(sources));
    }
}

/// Settles the plan of a run from the options, the texts of the
/// configuration files in order of precedence (`None` for one that could
/// not be read), the project root and the working directory.
pub fn prepare(options: Options, sources: &Vec<Option<String>>, project_dir: &str, cwd: &str) -> (planned:
    Result<Plan, FatalError>)
    ensures
        match planned_of(options@, sources.deep_view(), project_dir@, cwd@) {
            Ok(plan) => planned matches Ok(made) && made@ == plan,
            Err(error) => planned matches Err(found) && found == error,
        },
{
    let cli = match &options.remote {
        Some(host) => Some(host.clone()),
        None => None,
    };
    let host = match resolve_remote(cli, sources) {
        Ok(host) => host,
        Err(error) => {
            return Err(error);
        },
    };
    let subdir = match relative_path(project_dir, cwd) {
        Ok(subdir) => subdir,
        Err(error) => {
            return Err(error);
        },
    };
    Ok(
        Plan {
            host,
            project_dir: String::from_str(project_dir),
            build_path: remote_build_path(project_dir),
            subdir,
            options,
        },
    )
}

impl Plan {
    /// The program to run for a stage and its arguments, or nothing where
    /// the stage is not part of this run.
    pub fn invocation(&self, stage: Stage) -> (call: Option<Invocation>)
        ensures
            call is Some <==> self@.includes(stage),
            match self@.args(stage) {
                Some(args) => call matches Some(made) && made@ == (InvocationView {
                    program: stage.program(),
                    args,
                }),
                None => call is None,
            },
    {
        let host = self.host.as_str();
        let build_path = self.build_path.as_str();
        let project_dir = self.project_dir.as_str();
        let args = match stage {
            Stage::SyncOut => Some(
                outbound_sync_args(project_dir, host, build_path, self.options.hidden),
            ),
            Stage::Build => {
                let line = build_command(&self.options, build_path, self.subdir.as_str());
                Some(remote_shell_args(host, line.as_str()))
            },
            Stage::CopyArtifacts => artifact_sync_args(
                &self.options.copy_back,
                host,
                build_path,
                project_dir,
            ),
            Stage::CopyLock => lock_sync_args(
                self.options.no_copy_lock,
                host,
                build_path,
                project_dir,
            ),
        };
        let program = match stage {
            Stage::Build => "ssh",
            _ => "rsync",
        };
        match args {
            Some(args) => Some(Invocation { program: String::from_str(program), args }),
            None => None,
        }
    }

    /// The step that follows `stage` in this run once it has gone through.
    fn following(&self, stage: Stage, status: i32) -> (step: Step)
        ensures
            step == self@.following(stage, status),
    {
        let artifacts = match &self.options.copy_back {
            crate::options::CopyBack::Skip => false,
            _ => true,
        };
        let lock = !self.options.no_copy_lock;
        match stage {
            Stage::SyncOut => Step::Run(Stage::Build),
            Stage::Build => if artifacts {
                Step::Run(Stage::CopyArtifacts)
            } else if lock {
                Step::Run(Stage::CopyLock)
            } else {
                Step::Finish(status)
            },
            Stage::CopyArtifacts => if lock {
                Step::Run(Stage::CopyLock)
            } else {
                Step::Finish(status)
            },
            Stage::CopyLock => Step::Finish(status),
        }
    }

    /// Takes the outcome of the program that was run for the stage that was
    /// due, and names the state the run is in now.
    pub fn advance(&self, progress: Progress, outcome: Outcome) -> (next: Progress)
        ensures
            next == self@.advance(progress, outcome),
    {
        match progress.step {
            Step::Run(Stage::Build) => match outcome {
                Outcome::NotStarted => Progress {
                    step: Step::Fail(FatalError::RemoteBuild),
                    status: progress.status,
                },
                Outcome::Exited(code) => Progress {
                    step: self.following(Stage::Build, code),
                    status: code,
                },
                Outcome::Killed => Progress { step: self.following(Stage::Build, 1), status: 1 },
            },
            Step::Run(stage) => {
                let succeeded = match outcome {
                    Outcome::Exited(code) => code == 0,
                    _ => false,
                };
                if succeeded {
                    Progress {
                        step: self.following(stage, progress.status),
                        status: progress.status,
                    }
                } else {
                    let error = match stage {
                        Stage::SyncOut => FatalError::OutboundSync,
                        Stage::Build => FatalError::RemoteBuild,
                        Stage::CopyArtifacts => FatalError::ArtifactCopyBack,
                        Stage::CopyLock => FatalError::LockCopyBack,
                    };
                    Progress { step: Step::Fail(error), status: progress.status }
                }
            },
            _ => progress,
        }
    }
}

/// Where a run stands after any outcomes. A stage is due only if it is
/// part of the run, at its place in the order, every stage before it was
/// passed, and the code kept is the build's once the build has run. A run
/// is finished only when all its stages were passed, and its code is then
/// the build's. A run has failed only at the first stage that was not
/// passed, with the condition of that stage.
pub proof fn lemma_course(plan: PlanView, outcomes: Seq<Outcome>)
    ensures
        match plan.after(outcomes).step {
            Step::Run(stage) => {
                &&& plan.includes(stage)
                &&& plan.position(stage) == outcomes.len()
                &&& plan.stage_at(outcomes.len() as int) == stage
                &&& outcomes.len() < plan.length()
                &&& plan.clean(outcomes, outcomes.len() as int)
                &&& plan.after(outcomes).status == if outcomes.len() >= 2 {
                    outcomes[1].status()
                } else {
                    0
                }
            },
            Step::Finish(code) => {
                &&& outcomes.len() >= plan.length()
                &&& plan.clean(outcomes, plan.length())
                &&& code == outcomes[1].status()
            },
            Step::Fail(error) => exists|k: int|
                {
                    &&& 0 <= k < outcomes.len()
                    &&& k < plan.length()
                    &&& plan.clean(outcomes, k)
                    &&& !plan.stage_at(k).passed(#[trigger] outcomes[k])
                    &&& error == plan.stage_at(k).failure()
                },
        },
    decreases outcomes.len(),
{
    if outcomes.len() > 0 {
        let before = outcomes.drop_last();
        let last = outcomes.last();
        let count = before.len() as int;
        lemma_course(plan, before);
        assert forall|j: int| 0 <= j < count implies before[j] == outcomes[j] by {}
        match plan.after(before).step {
            Step::Run(stage) => {
                assert(plan.clean(outcomes, count));
                if stage.passed(last) {
                    assert(plan.clean(outcomes, count + 1));
                } else {
                    assert(!plan.stage_at(count).passed(outcomes[count]));
                }
            },
            Step::Finish(code) => {
                assert(plan.clean(outcomes, plan.length()));
            },
            Step::Fail(error) => {
                let k = choose|k: int|
                    {
                        &&& 0 <= k < before.len()
                        &&& k < plan.length()
                        &&& plan.clean(before, k)
                        &&& !plan.stage_at(k).passed(#[trigger] before[k])
                        &&& error == plan.stage_at(k).failure()
                    };
                assert(plan.clean(outcomes, k));
                assert(!plan.stage_at(k).passed(outcomes[k]));
            },
        }
    }
}

/// No program is run for a stage that is not part of the run: build output
/// is not transferred back unless that was asked for, and the lock file is
/// not transferred back where that was declined. The programs that are run
/// come in the order of the stages, one for each outcome reported.
pub proof fn lemma_attempts_are_planned(plan: PlanView, outcomes: Seq<Outcome>, stage: Stage)
    requires
        plan.attempts(outcomes, stage),
    ensures
        plan.includes(stage),
        plan.args(stage) is Some,
        plan.position(stage) <= outcomes.len(),
        plan.after(outcomes.take(plan.position(stage))).step == Step::Run(stage),
        stage == Stage::CopyArtifacts ==> !(plan.options.copy_back is Skip),
        stage == Stage::CopyLock ==> !plan.options.no_copy_lock,
{
    let k = choose|k: int|
        0 <= k <= outcomes.len() && #[trigger] plan.after(outcomes.take(k)).step == Step::Run(
            stage,
        );
    lemma_course(plan, outcomes.take(k));
}

/// A stage of the run is reached whenever every stage before it was
/// passed, whatever else the outcomes were. So the lock file is
/// transferred back, unless that was declined, whenever the transfer out
/// succeeded, the build ran, and the output's transfer back, if there was
/// one, succeeded: whether the build itself succeeded makes no difference.
pub proof fn lemma_stage_reached(plan: PlanView, outcomes: Seq<Outcome>, stage: Stage)
    requires
        plan.includes(stage),
        plan.position(stage) <= outcomes.len(),
        plan.clean(outcomes, plan.position(stage)),
    ensures
        plan.attempts(outcomes, stage),
        plan.after(outcomes.take(plan.position(stage))).step == Step::Run(stage),
{
    let count = plan.position(stage);
    let first = outcomes.take(count);
    lemma_course(plan, first);
    assert(plan.clean(first, count)) by {
        assert forall|j: int| 0 <= j < count implies first[j] == outcomes[j] by {}
    }
    match plan.after(first).step {
        Step::Run(due) => {},
        Step::Finish(code) => {},
        Step::Fail(error) => {
            let k = choose|k: int|
                {
                    &&& 0 <= k < first.len()
                    &&& k < plan.length()
                    &&& plan.clean(first, k)
                    &&& !plan.stage_at(k).passed(#[trigger] first[k])
                    &&& error == plan.stage_at(k).failure()
                };
            assert(plan.stage_at(k).passed(first[k]));
        },
    }
}

/// Without a request for build output, no run transfers any back, whatever
/// the outcomes of its programs.
pub proof fn lemma_artifacts_only_on_request(plan: PlanView, outcomes: Seq<Outcome>)
    requires
        plan.options.copy_back is Skip,
    ensures
        !plan.attempts(outcomes, Stage::CopyArtifacts),
{
    if plan.attempts(outcomes, Stage::CopyArtifacts) {
        lemma_attempts_are_planned(plan, outcomes, Stage::CopyArtifacts);
    }
}

/// Where the lock file's transfer was declined, no run makes it. Where it
/// was not, every run makes it in which the transfer out succeeded, the
/// build ran, and the transfer of build output, if one was asked for,
/// succeeded: the build's own result does not matter.
pub proof fn lemma_lock_file_transfer(plan: PlanView, outcomes: Seq<Outcome>)
    ensures
        plan.options.no_copy_lock ==> !plan.attempts(outcomes, Stage::CopyLock),
        ({
            &&& !plan.options.no_copy_lock
            &&& outcomes.len() >= plan.position(Stage::CopyLock)
            &&& outcomes[0].succeeded()
            &&& outcomes[1] != Outcome::NotStarted
            &&& !(plan.options.copy_back is Skip) ==> outcomes[2].succeeded()
        }) ==> plan.attempts(outcomes, Stage::CopyLock),
{
    if plan.attempts(outcomes, Stage::CopyLock) {
        lemma_attempts_are_planned(plan, outcomes, Stage::CopyLock);
    }
    let asked = !(plan.options.copy_back is Skip);
    if !plan.options.no_copy_lock && outcomes.len() >= plan.position(Stage::CopyLock)
        && outcomes[0].succeeded() && outcomes[1] != Outcome::NotStarted && (asked
        ==> outcomes[2].succeeded()) {
        assert(plan.clean(outcomes, plan.position(Stage::CopyLock)));
        lemma_stage_reached(plan, outcomes, Stage::CopyLock);
    }
}

/// A run that finishes ends with the build's own code, 1 standing for a
/// build that left none: so it ends with 0 exactly when the build
/// succeeded. Every stage of it was passed.
pub proof fn lemma_finish_mirrors_build(plan: PlanView, outcomes: Seq<Outcome>)
    requires
        plan.after(outcomes).step is Finish,
    ensures
        outcomes.len() >= plan.length(),
        plan.clean(outcomes, plan.length()),
        outcomes[0].succeeded(),
        outcomes[1] != Outcome::NotStarted,
        plan.after(outcomes).step == Step::Finish(outcomes[1].status() as i32),
        plan.after(outcomes).step.code() == Some(outcomes[1].status()),
        plan.after(outcomes).step.code() == Some(0int) <==> outcomes[1].succeeded(),
{
    lemma_course(plan, outcomes);
    assert(plan.stage_at(0).passed(outcomes[0]));
    assert(plan.stage_at(1).passed(outcomes[1]));
}

/// A run that fails does so with the condition of the first stage that was
/// not passed, and its exit code is the one reserved for that condition.
pub proof fn lemma_failure_names_stage(plan: PlanView, outcomes: Seq<Outcome>)
    requires
        plan.after(outcomes).step is Fail,
    ensures
        exists|k: int|
            {
                &&& 0 <= k < outcomes.len()
                &&& k < plan.length()
                &&& plan.clean(outcomes, k)
                &&& !plan.stage_at(k).passed(#[trigger] outcomes[k])
                &&& plan.after(outcomes).step == Step::Fail(plan.stage_at(k).failure())
            },
        plan.after(outcomes).step.code() is Some,
        -7 <= plan.after(outcomes).step.code()->0 <= -4,
{
    lemma_course(plan, outcomes);
    let error = plan.after(outcomes).step->Fail_0;
    let k = choose|k: int|
        {
            &&& 0 <= k < outcomes.len()
            &&& k < plan.length()
            &&& plan.clean(outcomes, k)
            &&& !plan.stage_at(k).passed(#[trigger] outcomes[k])
            &&& error == plan.stage_at(k).failure()
        };
    assert(plan.after(outcomes).step == Step::Fail(plan.stage_at(k).failure()));
}

} // verus!
