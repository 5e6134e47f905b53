//! One deployment as a state machine.
//!
//! The machine decides; whoever drives it acts. At every moment one action
//! is pending. The driver performs it and reports what happened as an
//! event; the machine moves to its next stage, and with that the next action
//! is pending. Stages only move forward, and a failure ends the run.

use crate::commands::{
    archive_path, build_args, build_arguments, build_program, check_args, check_arguments,
    check_program, copy, copy_command, extract, extract_command, mkdir, mkdir_command, probe,
    probe_command, remote_archive_path,
};
use crate::config::{clone_strings, Config, ConfigView, Environment, ProjectVariant, VariantView};
use crate::error::DeployError;
use crate::history::{get_history, history_command, listing_command, listing_entries};
use crate::preflight::Check;
use crate::resolve::{is_replay, resolution, resolve, PolicyView, VersionPolicy};
use vstd::prelude::*;

verus! {

/// What a deployment is asked to do.
#[derive(Clone, Debug, PartialEq, Eq)]
pub struct DeployRequest {
    pub environment: Environment,
    pub policy: VersionPolicy,
}

/// A [`DeployRequest`] as plain values.
pub struct RequestView {
    pub environment: Environment,
    pub policy: PolicyView,
}

impl View for DeployRequest {
    type V = RequestView;

    open spec fn view(&self) -> RequestView {
        RequestView { environment: self.environment, policy: self.policy@ }
    }
}

/// The two steps of packaging.
#[derive(Clone, Copy, Debug, PartialEq, Eq, Structural)]
pub enum Pack {
    /// Finding out which of the directories to package exist.
    Probe,
    /// Writing the archive and reading its bytes.
    Archive,
}

/// The steps of activation on the remote host.
#[derive(Clone, Copy, Debug, PartialEq, Eq, Structural)]
pub enum Step {
    /// Testing whether the output directory exists.
    Probe,
    /// Creating the output directory.
    Mkdir,
    /// Copying the archive from the history store to the output directory.
    Copy,
    /// Unpacking the archive, removing its copy, setting permissions.
    Extract,
    /// Running the command of that index among those that follow extraction.
    Post(usize),
    /// Reloading the serving process.
    Reload,
}

/// Where a deployment stands.
#[derive(Clone, Copy, Debug, PartialEq, Eq, Structural)]
pub enum Stage {
    /// Waiting for the listing of the history store.
    Resolving,
    /// Waiting for the answer of a check on the local repository.
    Preflight(Check),
    /// Waiting for the build command to end.
    Building,
    /// Waiting for a step of packaging.
    Packaging(Pack),
    /// Waiting for the archive to arrive in the history store.
    Uploading,
    /// Waiting for a remote command of activation to end.
    Activating(Step),
    /// The version is live.
    Done,
    /// The run has ended without success.
    Failed(DeployError),
}

/// What the driver reports.
#[derive(Clone, Debug, PartialEq, Eq)]
pub enum Event {
    /// The command that was pending ran and ended.
    Exited { stdout: String, status: i32 },
    /// For each directory asked about, in order, whether it exists.
    Probed { present: Vec<bool> },
    /// The pending action, which is no command, was carried out.
    Completed,
    /// The pending action could not be carried out.
    Aborted(DeployError),
}

/// An [`Event`] as plain values.
pub enum EventView {
    Exited { stdout: Seq<char>, status: i32 },
    Probed { present: Seq<bool> },
    Completed,
    Aborted(DeployError),
}

impl View for Event {
    type V = EventView;

    open spec fn view(&self) -> EventView {
        match self {
            Event::Exited { stdout, status } => EventView::Exited {
                stdout: stdout@,
                status: *status,
            },
            Event::Probed { present } => EventView::Probed { present: present@ },
            Event::Completed => EventView::Completed,
            Event::Aborted(error) => EventView::Aborted(*error),
        }
    }
}

/// What the driver is to do next.
#[derive(Clone, Debug, PartialEq, Eq)]
pub enum Action {
    /// Run `command` in a shell on the remote host; report `Exited`.
    Remote { command: String },
    /// Query the repository in the local project `directory`; report
    /// `Exited`.
    Inspect { directory: String, program: String, args: Vec<String> },
    /// Build the project in the local project `directory`; report `Exited`.
    Build { directory: String, program: String, args: Vec<String> },
    /// Find out which of `dirs` exist below `directory`; report `Probed`.
    Probe { directory: String, dirs: Vec<String> },
    /// Compress `dirs` below `directory` into the archive `name`, read its
    /// bytes, and only then remove the archive file and `dirs`; report
    /// `Completed`.
    Archive { directory: String, name: String, dirs: Vec<String> },
    /// Write the bytes of the archive to `path` on the remote host; report
    /// `Completed`.
    Upload { path: String },
    /// Nothing is left to do: the deployment succeeded.
    Finish,
    /// Nothing is left to do: the deployment failed.
    Abort(DeployError),
}

/// An [`Action`] as plain values.
pub enum ActionView {
    Remote { command: Seq<char> },
    Inspect { directory: Seq<char>, program: Seq<char>, args: Seq<Seq<char>> },
    Build { directory: Seq<char>, program: Seq<char>, args: Seq<Seq<char>> },
    Probe { directory: Seq<char>, dirs: Seq<Seq<char>> },
    Archive { directory: Seq<char>, name: Seq<char>, dirs: Seq<Seq<char>> },
    Upload { path: Seq<char> },
    Finish,
    Abort(DeployError),
}

impl View for Action {
    type V = ActionView;

    open spec fn view(&self) -> ActionView {
        match self {
            Action::Remote { command } => ActionView::Remote { command: command@ },
            Action::Inspect { directory, program, args } => ActionView::Inspect {
                directory: directory@,
                program: program@,
                args: args.deep_view(),
            },
            Action::Build { directory, program, args } => ActionView::Build {
                directory: directory@,
                program: program@,
                args: args.deep_view(),
            },
            Action::Probe { directory, dirs } => ActionView::Probe {
                directory: directory@,
                dirs: dirs.deep_view(),
            },
            Action::Archive { directory, name, dirs } => ActionView::Archive {
                directory: directory@,
                name: name@,
                dirs: dirs.deep_view(),
            },
            Action::Upload { path } => ActionView::Upload { path: path@ },
            Action::Finish => ActionView::Finish,
            Action::Abort(error) => ActionView::Abort(*error),
        }
    }
}

/// A deployment as plain values: what it was set up with, where it stands,
/// the archive it deploys (empty until resolved), and, once it has failed,
/// the stage at which it failed.
pub struct PipelineView {
    pub config: ConfigView,
    pub variant: VariantView,
    pub request: RequestView,
    pub stage: Stage,
    pub archive: Seq<char>,
    pub failed_at: Option<Stage>,
}

/// Every directory asked about was reported, and each as present.
pub open spec fn all_present(present: Seq<bool>, asked: nat) -> bool {
    present.len() == asked && forall|i: int| 0 <= i < present.len() ==> #[trigger] present[i]
}

impl Stage {
    /// The run has ended, with or without success.
    pub open spec fn is_terminal(self) -> bool {
        self is Done || self is Failed
    }
}

impl PipelineView {
    /// The commands that follow extraction in this deployment.
    pub open spec fn post_steps(self) -> Seq<Seq<char>> {
        self.variant.post_steps(self.request.environment)
    }

    /// The deployment is one that can exist: its commands can be counted,
    /// a command that is pending is one of them, and the stage of a failure
    /// is known exactly if the run has failed, and is a stage at which work
    /// was pending.
    pub open spec fn wf(self) -> bool {
        &&& self.post_steps().len() <= usize::MAX
        &&& match self.stage {
            Stage::Activating(Step::Post(i)) => i < self.post_steps().len(),
            _ => true,
        }
        &&& (self.stage is Failed) == (self.failed_at is Some)
        &&& match self.failed_at {
            Some(stage) => !stage.is_terminal(),
            None => true,
        }
    }

    /// This deployment moved on to `stage`. A move to a failure records the
    /// stage that is left: it is the stage at which the run failed.
    pub open spec fn at(self, stage: Stage) -> PipelineView {
        PipelineView {
            stage,
            failed_at: if stage is Failed {
                Some(self.stage)
            } else {
                self.failed_at
            },
            ..self
        }
    }

    /// The stage that follows extraction: the first post-step, or the reload
    /// where there is none.
    pub open spec fn after_extract(self) -> Stage {
        if self.post_steps().len() > 0 {
            Stage::Activating(Step::Post(0))
        } else {
            Stage::Activating(Step::Reload)
        }
    }

    /// The stage that follows the post-step `i`: the next post-step, or the
    /// reload after the last.
    pub open spec fn after_post(self, i: usize) -> Stage {
        if i + 1 < self.post_steps().len() {
            Stage::Activating(Step::Post((i + 1) as usize))
        } else {
            Stage::Activating(Step::Reload)
        }
    }

    /// Where a remote command of activation leads that ended with `status`.
    /// Only the test for the output directory may end with another status
    /// than zero: the directory is then created.
    pub open spec fn after_remote(self, step: Step, status: i32) -> Stage {
        if status == 0 {
            match step {
                Step::Probe => Stage::Activating(Step::Copy),
                Step::Mkdir => Stage::Activating(Step::Copy),
                Step::Copy => Stage::Activating(Step::Extract),
                Step::Extract => self.after_extract(),
                Step::Post(i) => self.after_post(i),
                Step::Reload => Stage::Done,
            }
        } else if step == Step::Probe {
            Stage::Activating(Step::Mkdir)
        } else {
            Stage::Failed(DeployError::RemoteCommand { status })
        }
    }

    /// The deployment once the archive is known: a replay goes straight to
    /// activation, anything else to the first check.
    pub open spec fn resolved(self, archive: Seq<char>) -> PipelineView {
        PipelineView {
            stage: if self.request.policy is Replay {
                Stage::Activating(Step::Probe)
            } else {
                Stage::Preflight(Check::Branch)
            },
            archive,
            ..self
        }
    }

    /// The deployment once `history` is known, or once it is known that the
    /// policy asks for no archive that exists.
    pub open spec fn resolve_with(self, history: Seq<Seq<char>>) -> PipelineView {
        match resolution(self.request.policy, history) {
            Ok(archive) => self.resolved(archive),
            Err(error) => self.at(Stage::Failed(error)),
        }
    }

    /// The action that is pending at the stage where this deployment stands.
    pub open spec fn pending(self) -> ActionView {
        match self.stage {
            Stage::Resolving => ActionView::Remote {
                command: listing_command(self.config.history_path),
            },
            Stage::Preflight(check) => ActionView::Inspect {
                directory: self.config.local_path,
                program: check_program(),
                args: check_arguments(check),
            },
            Stage::Building => ActionView::Build {
                directory: self.config.local_path,
                program: build_program(),
                args: build_arguments(self.config.build),
            },
            Stage::Packaging(Pack::Probe) => ActionView::Probe {
                directory: self.config.local_path,
                dirs: self.variant.source_dirs,
            },
            Stage::Packaging(Pack::Archive) => ActionView::Archive {
                directory: self.config.local_path,
                name: self.archive,
                dirs: self.variant.source_dirs,
            },
            Stage::Uploading => ActionView::Upload {
                path: remote_archive_path(self.config.history_path, self.archive),
            },
            Stage::Activating(step) => ActionView::Remote {
                command: match step {
                    Step::Probe => probe_command(self.config.output_path),
                    Step::Mkdir => mkdir_command(self.config.output_path),
                    Step::Copy => copy_command(
                        self.config.history_path,
                        self.config.output_path,
                        self.archive,
                    ),
                    Step::Extract => extract_command(
                        self.config.output_path,
                        self.archive,
                        self.variant.source_dirs,
                    ),
                    Step::Post(i) => self.post_steps()[i as int],
                    Step::Reload => self.variant.reload,
                },
            },
            Stage::Done => ActionView::Finish,
            Stage::Failed(error) => ActionView::Abort(error),
        }
    }

    /// The deployment after `event`.
    ///
    /// A run that has ended stays as it is. An action that could not be
    /// carried out fails the run with the reason given. Otherwise the event
    /// must answer the pending action: a command's exit for a command, the
    /// presence of the directories for the probe, completion for archive
    /// and upload; any other event fails the run.
    pub open spec fn advance(self, event: EventView) -> PipelineView {
        if self.stage.is_terminal() {
            self
        } else {
            match (self.stage, event) {
                (_, EventView::Aborted(error)) => self.at(Stage::Failed(error)),
                (Stage::Resolving, EventView::Exited { stdout, status }) => if status == 0 {
                    self.resolve_with(listing_entries(stdout))
                } else {
                    self.at(Stage::Failed(DeployError::RemoteCommand { status }))
                },
                (Stage::Preflight(check), EventView::Exited { stdout, status }) => if check.passes(
                    stdout,
                    status,
                    self.config.git_checkout,
                ) {
                    match check.following() {
                        Some(next) => self.at(Stage::Preflight(next)),
                        None => self.at(Stage::Building),
                    }
                } else {
                    self.at(Stage::Failed(check.failure()))
                },
                (Stage::Building, EventView::Exited { stdout, status }) => if status == 0 {
                    self.at(Stage::Packaging(Pack::Probe))
                } else {
                    self.at(Stage::Failed(DeployError::BuildFailed))
                },
                (Stage::Packaging(Pack::Probe), EventView::Probed { present }) => if all_present(
                    present,
                    self.variant.source_dirs.len(),
                ) {
                    self.at(Stage::Packaging(Pack::Archive))
                } else {
                    self.at(Stage::Failed(DeployError::MissingArtifact))
                },
                (Stage::Packaging(Pack::Archive), EventView::Completed) => self.at(
                    Stage::Uploading,
                ),
                (Stage::Uploading, EventView::Completed) => self.at(
                    Stage::Activating(Step::Probe),
                ),
                (Stage::Activating(step), EventView::Exited { stdout, status }) => self.at(
                    self.after_remote(step, status),
                ),
                _ => self.at(Stage::Failed(DeployError::UnexpectedEvent)),
            }
        }
    }
}

/// The deployment as it begins. With the policy `Increment` the history
/// store is listed first; otherwise the archive is known at once, or known
/// not to exist: the run has then failed at `Resolving`.
pub open spec fn start(config: ConfigView, variant: VariantView, request: RequestView)
    -> PipelineView {
    let fresh = PipelineView {
        config,
        variant,
        request,
        stage: Stage::Resolving,
        archive: Seq::empty(),
        failed_at: None,
    };
    if request.policy is Increment {
        fresh
    } else {
        fresh.resolve_with(Seq::empty())
    }
}

/// One deployment, from the resolution of its version to the reload of the
/// serving process.
pub struct Pipeline {
    config: Config,
    variant: ProjectVariant,
    request: DeployRequest,
    progress: Progress,
    archive: String,
}

/// Where a run stands and, once it has failed, where it failed. The two
/// change together.
#[derive(Clone, Copy)]
struct Progress {
    stage: Stage,
    failed_at: Option<Stage>,
}

impl View for Pipeline {
    type V = PipelineView;

    closed spec fn view(&self) -> PipelineView {
        PipelineView {
            config: self.config@,
            variant: self.variant@,
            request: self.request@,
            stage: self.progress.stage,
            archive: self.archive@,
            failed_at: self.progress.failed_at,
        }
    }
}

impl Pipeline {
    #[verifier::type_invariant]
    spec fn inv(self) -> bool {
        self@.wf()
    }

    /// A deployment of `request` for the project that `config` and
    /// `variant` describe, at its first stage.
    pub fn new(config: Config, variant: ProjectVariant, request: DeployRequest) -> (pipeline:
        Pipeline)
        ensures
            pipeline@ == start(config@, variant@, request@),
            pipeline@.wf(),
    {
        let mut stage = Stage::Resolving;
        let mut archive = String::new();
        let mut failed_at: Option<Stage> = None;
        match &request.policy {
            VersionPolicy::Increment => {},
            _ => {
                let nothing: Vec<String> = Vec::new();
                let history = nothing.as_slice();
                assert(history.deep_view() =~= Seq::<Seq<char>>::empty());
                match resolve(&request.policy, history) {
                    Ok(name) => {
                        archive = name;
                        stage = if is_replay(&request.policy) {
                            Stage::Activating(Step::Probe)
                        } else {
                            Stage::Preflight(Check::Branch)
                        };
                    },
                    Err(error) => {
                        stage = Stage::Failed(error);
                        failed_at = Some(Stage::Resolving);
                    },
                }
            },
        }
        proof {
            assert(variant.dev_steps.deep_view().len() == variant.dev_steps.len());
            assert(variant.prod_steps.deep_view().len() == variant.prod_steps.len());
        }
        Pipeline { config, variant, request, progress: Progress { stage, failed_at }, archive }
    }

    /// Where the deployment stands.
    pub fn stage(&self) -> (stage: Stage)
        ensures
            stage == self@.stage,
    {
        self.progress.stage
    }

    /// The name of the archive that is deployed; empty until it is resolved.
    pub fn archive(&self) -> (archive: &String)
        ensures
            archive@ == self@.archive,
    {
        &self.archive
    }

    /// The stage at which the run failed: the one whose action was pending
    /// when the failure came. `None` as long as the run has not failed.
    pub fn failed_at(&self) -> (r: Option<Stage>)
        ensures
            r == self@.failed_at,
            (self@.stage is Failed) == (r is Some),
    {
        proof {
            use_type_invariant(self);
        }
        self.progress.failed_at
    }

    /// Whether the run has ended, with or without success.
    pub fn is_finished(&self) -> (r: bool)
        ensures
            r == self@.stage.is_terminal(),
    {
        match self.progress.stage {
            Stage::Done => true,
            Stage::Failed(_) => true,
            _ => false,
        }
    }

    /// How the run ended: `Ok` once the version is live, the reason once the
    /// run has failed, and `None` while it goes on.
    pub fn outcome(&self) -> (r: Option<Result<(), DeployError>>)
        ensures
            r == (match self@.stage {
                Stage::Done => Some(Ok::<(), DeployError>(())),
                Stage::Failed(error) => Some(Err::<(), DeployError>(error)),
                _ => None,
            }),
    {
        match self.progress.stage {
            Stage::Done => Some(Ok(())),
            Stage::Failed(error) => Some(Err(error)),
            _ => None,
        }
    }

    /// The action that is pending.
    pub fn action(&self) -> (action: Action)
        ensures
            action@ == self@.pending(),
    {
        proof {
            use_type_invariant(self);
        }
        match self.progress.stage {
            Stage::Resolving => Action::Remote {
                command: history_command(self.config.history_path.as_str()),
            },
            Stage::Preflight(check) => Action::Inspect {
                directory: self.config.local_path.clone(),
                program: String::from_str("git"),
                args: check_args(check),
            },
            Stage::Building => Action::Build {
                directory: self.config.local_path.clone(),
                program: String::from_str("pnpm"),
                args: build_args(self.config.build.as_str()),
            },
            Stage::Packaging(Pack::Probe) => Action::Probe {
                directory: self.config.local_path.clone(),
                dirs: clone_strings(&self.variant.source_dirs),
            },
            Stage::Packaging(Pack::Archive) => Action::Archive {
                directory: self.config.local_path.clone(),
                name: self.archive.clone(),
                dirs: clone_strings(&self.variant.source_dirs),
            },
            Stage::Uploading => Action::Upload {
                path: archive_path(self.config.history_path.as_str(), self.archive.as_str()),
            },
            Stage::Activating(step) => {
                let command = match step {
                    Step::Probe => probe(self.config.output_path.as_str()),
                    Step::Mkdir => mkdir(self.config.output_path.as_str()),
                    Step::Copy => copy(
                        self.config.history_path.as_str(),
                        self.config.output_path.as_str(),
                        self.archive.as_str(),
                    ),
                    Step::Extract => extract(
                        self.config.output_path.as_str(),
                        self.archive.as_str(),
                        &self.variant.source_dirs,
                    ),
                    Step::Post(i) => {
                        let steps = self.variant.post_steps(self.request.environment);
                        assert(steps.deep_view()[i as int] == steps[i as int]@);
                        steps[i].clone()
                    },
                    Step::Reload => self.variant.reload.clone(),
                };
                Action::Remote { command }
            },
            Stage::Done => Action::Finish,
            Stage::Failed(error) => Action::Abort(error),
        }
    }

    /// Moves on to `next`, and records the stage that is left where `next`
    /// is a failure.
    fn move_to(&mut self, next: Stage)
        requires
            !old(self)@.stage.is_terminal(),
            old(self)@.at(next).wf(),
        ensures
            final(self)@ == old(self)@.at(next),
    {
        let failed_at = match next {
            Stage::Failed(_) => Some(self.progress.stage),
            _ => self.progress.failed_at,
        };
        self.progress = Progress { stage: next, failed_at };
    }

    /// Takes in what the driver reports of the pending action, moves to the
    /// next stage and returns the action that is pending there.
    pub fn step(&mut self, event: &Event) -> (action: Action)
        ensures
            final(self)@ == old(self)@.advance(event@),
            final(self)@.wf(),
            action@ == final(self)@.pending(),
    {
        proof {
            use_type_invariant(&*self);
        }
        if !self.is_finished() {
            let next: Stage = match (self.progress.stage, event) {
                (_, Event::Aborted(error)) => Stage::Failed(*error),
                (Stage::Resolving, Event::Exited { stdout, status }) => {
                    if *status == 0 {
                        let entries = get_history(stdout.as_str());
                        let history = entries.as_slice();
                        assert(history.deep_view() =~= entries.deep_view());
                        match resolve(&self.request.policy, history) {
                            Ok(name) => {
                                let replay = is_replay(&self.request.policy);
                                self.archive = name;
                                if replay {
                                    Stage::Activating(Step::Probe)
                                } else {
                                    Stage::Preflight(Check::Branch)
                                }
                            },
                            Err(error) => Stage::Failed(error),
                        }
                    } else {
                        Stage::Failed(DeployError::RemoteCommand { status: *status })
                    }
                },
                (Stage::Preflight(check), Event::Exited { stdout, status }) => {
                    match check.judge(stdout.as_str(), *status, self.config.git_checkout.as_str()) {
                        Ok(()) => match check.next() {
                            Some(following) => Stage::Preflight(following),
                            None => Stage::Building,
                        },
                        Err(error) => Stage::Failed(error),
                    }
                },
                (Stage::Building, Event::Exited { stdout, status }) => {
                    if *status == 0 {
                        Stage::Packaging(Pack::Probe)
                    } else {
                        Stage::Failed(DeployError::BuildFailed)
                    }
                },
                (Stage::Packaging(Pack::Probe), Event::Probed { present }) => {
                    if every_present(present, self.variant.source_dirs.len()) {
                        Stage::Packaging(Pack::Archive)
                    } else {
                        Stage::Failed(DeployError::MissingArtifact)
                    }
                },
                (Stage::Packaging(Pack::Archive), Event::Completed) => Stage::Uploading,
                (Stage::Uploading, Event::Completed) => Stage::Activating(Step::Probe),
                (Stage::Activating(step), Event::Exited { stdout, status }) => {
                    let posts: usize = self.variant.post_steps(self.request.environment).len();
                    if *status == 0 {
                        match step {
                            Step::Probe => Stage::Activating(Step::Copy),
                            Step::Mkdir => Stage::Activating(Step::Copy),
                            Step::Copy => Stage::Activating(Step::Extract),
                            Step::Extract => if posts > 0 {
                                Stage::Activating(Step::Post(0))
                            } else {
                                Stage::Activating(Step::Reload)
                            },
                            Step::Post(i) => if i + 1 < posts {
                                Stage::Activating(Step::Post(i + 1))
                            } else {
                                Stage::Activating(Step::Reload)
                            },
                            Step::Reload => Stage::Done,
                        }
                    } else {
                        match step {
                            Step::Probe => Stage::Activating(Step::Mkdir),
                            _ => Stage::Failed(DeployError::RemoteCommand { status: *status }),
                        }
                    }
                },
                _ => Stage::Failed(DeployError::UnexpectedEvent),
            };
            self.move_to(next);
        }
        self.action()
    }
}

/// Whether `present` answers for `asked` directories and finds each there.
pub fn every_present(present: &Vec<bool>, asked: usize) -> (r: bool)
    ensures
        r == all_present(present@, asked as nat),
{
    if present.len() != asked {
        return false;
    }
    let mut i: usize = 0;
    while i < present.len()
        invariant
            i <= present.len(),
            forall|j: int| 0 <= j < i ==> #[trigger] present@[j],
        decreases present.len() - i,
    {
        if !present[i] {
            return false;
        }
        i = i + 1;
    }
    true
}

} // verus!
