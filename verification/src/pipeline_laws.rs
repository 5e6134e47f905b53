//! What holds of every deployment, whatever the driver reports.
//!
//! The laws speak of runs: a deployment and the events reported to it one
//! after the other. `run(m, events.take(j))` is the deployment after the
//! first `j` events, and its pending action is what the driver was told to
//! do at that moment.

use crate::commands::probe_command;
use crate::config::{ConfigView, VariantView};
use crate::error::DeployError;
use crate::pipeline::{
    all_present, start, ActionView, EventView, Pack, PipelineView, RequestView, Stage, Step,
};
use crate::preflight::Check;
use vstd::prelude::*;

verus! {

/// The deployment `m` after the events `events`, taken in order.
pub open spec fn run(m: PipelineView, events: Seq<EventView>) -> PipelineView
    decreases events.len(),
{
    if events.len() == 0 {
        m
    } else {
        run(m, events.drop_last()).advance(events.last())
    }
}

/// How far a deployment has come. Every stage has its place in the one
/// order in which stages are passed, and a failure lies behind them all.
pub open spec fn rank(m: PipelineView) -> int {
    let posts = m.post_steps().len() as int;
    match m.stage {
        Stage::Resolving => 0,
        Stage::Preflight(Check::Branch) => 1,
        Stage::Preflight(Check::WorkingTree) => 2,
        Stage::Preflight(Check::Upstream) => 3,
        Stage::Building => 4,
        Stage::Packaging(Pack::Probe) => 5,
        Stage::Packaging(Pack::Archive) => 6,
        Stage::Uploading => 7,
        Stage::Activating(Step::Probe) => 8,
        Stage::Activating(Step::Mkdir) => 9,
        Stage::Activating(Step::Copy) => 10,
        Stage::Activating(Step::Extract) => 11,
        Stage::Activating(Step::Post(i)) => 12 + i,
        Stage::Activating(Step::Reload) => 12 + posts,
        Stage::Done => 13 + posts,
        Stage::Failed(_) => 14 + posts,
    }
}

/// `event` reports that a command ended with the status zero.
pub open spec fn succeeded(event: EventView) -> bool {
    event matches EventView::Exited { status, .. } && status == 0
}

/// `event` reports that a command ended with another status than zero.
pub open spec fn exited_nonzero(event: EventView) -> bool {
    event matches EventView::Exited { status, .. } && status != 0
}

/// `event` reports the answer to a query, and the answer passes `check`.
pub open spec fn passed(check: Check, event: EventView, branch: Seq<char>) -> bool {
    match event {
        EventView::Exited { stdout, status } => check.passes(stdout, status, branch),
        _ => false,
    }
}

/// `event` reports on `asked` directories and finds each of them there.
pub open spec fn found_all(event: EventView, asked: nat) -> bool {
    match event {
        EventView::Probed { present } => all_present(present, asked),
        _ => false,
    }
}

/// An event changes nothing but the stage and, when the history listing
/// arrives, the archive: what the deployment was set up with stays.
pub proof fn lemma_advance_keeps_setup(m: PipelineView, event: EventView)
    ensures
        m.advance(event).config == m.config,
        m.advance(event).variant == m.variant,
        m.advance(event).request == m.request,
        m.stage != Stage::Resolving ==> m.advance(event).archive == m.archive,
{
}

/// Stages only move forward. A run that has ended stays exactly as it is;
/// any other deployment is moved by every event to a stage that lies
/// strictly further on, so that no stage is entered twice.
pub proof fn lemma_advance_forward(m: PipelineView, event: EventView)
    requires
        m.wf(),
    ensures
        m.advance(event).wf(),
        m.stage.is_terminal() ==> m.advance(event) == m,
        !m.stage.is_terminal() ==> rank(m.advance(event)) > rank(m),
{
}

/// A failure is final: once a run has failed for some reason, it stays
/// failed for that reason and the only action ever pending is to abort.
pub proof fn lemma_failure_is_final(m: PipelineView, events: Seq<EventView>)
    requires
        m.stage is Failed,
    ensures
        run(m, events) == m,
        run(m, events).pending() == ActionView::Abort(m.stage->Failed_0),
    decreases events.len(),
{
    if events.len() > 0 {
        lemma_failure_is_final(m, events.drop_last());
    }
}

/// Success is final: once the version is live, nothing more is asked of the
/// driver.
pub proof fn lemma_done_is_final(m: PipelineView, events: Seq<EventView>)
    requires
        m.stage is Done,
    ensures
        run(m, events) == m,
        run(m, events).pending() == ActionView::Finish,
    decreases events.len(),
{
    if events.len() > 0 {
        lemma_done_is_final(m, events.drop_last());
    }
}

/// Along a run the setup stays and the rank never falls.
pub proof fn lemma_run_forward(m: PipelineView, events: Seq<EventView>)
    requires
        m.wf(),
    ensures
        run(m, events).wf(),
        run(m, events).config == m.config,
        run(m, events).variant == m.variant,
        run(m, events).request == m.request,
        rank(run(m, events)) >= rank(m),
        m.stage.is_terminal() ==> run(m, events) == m,
    decreases events.len(),
{
    if events.len() > 0 {
        lemma_run_forward(m, events.drop_last());
        let before = run(m, events.drop_last());
        lemma_advance_forward(before, events.last());
        lemma_advance_keeps_setup(before, events.last());
    }
}

/// A run can be cut in two: the events up to `k` lead from where the events
/// up to `j` have led.
pub proof fn lemma_run_split(m: PipelineView, events: Seq<EventView>, j: int, k: int)
    requires
        0 <= j <= k <= events.len(),
    ensures
        run(m, events.take(k)) == run(run(m, events.take(j)), events.subrange(j, k)),
    decreases k - j,
{
    if j == k {
        assert(events.subrange(j, k) =~= Seq::<EventView>::empty());
    } else {
        lemma_run_split(m, events, j, k - 1);
        assert(events.take(k).drop_last() =~= events.take(k - 1));
        assert(events.subrange(j, k).drop_last() =~= events.subrange(j, k - 1));
        assert(events.take(k).last() == events.subrange(j, k).last());
    }
}

/// What was reached earlier in a run lies no further on than what is
/// reached later, and a run that has ended by `j` is the same at `k`.
pub proof fn lemma_run_ordered(m: PipelineView, events: Seq<EventView>, j: int, k: int)
    requires
        m.wf(),
        0 <= j <= k <= events.len(),
    ensures
        rank(run(m, events.take(j))) <= rank(run(m, events.take(k))),
        run(m, events.take(j)).stage.is_terminal() ==> run(m, events.take(k)) == run(
            m,
            events.take(j),
        ),
{
    lemma_run_split(m, events, j, k);
    lemma_run_forward(m, events.take(j));
    lemma_run_forward(run(m, events.take(j)), events.subrange(j, k));
}

/// The step from the first `k` events to the first `k + 1`.
pub proof fn lemma_run_step(m: PipelineView, events: Seq<EventView>, k: int)
    requires
        0 <= k < events.len(),
    ensures
        run(m, events.take(k + 1)) == run(m, events.take(k)).advance(events[k]),
{
    assert(events.take(k + 1).drop_last() =~= events.take(k));
}

/// A failure names its stage: whenever an event makes a run fail, the stage
/// recorded is the one at which the deployment stood, whose action was
/// pending, and the reason is the one that the stage gives for that event.
pub proof fn lemma_failure_names_its_stage(m: PipelineView, event: EventView)
    requires
        m.wf(),
        !m.stage.is_terminal(),
        m.advance(event).stage is Failed,
    ensures
        m.advance(event).failed_at == Some(m.stage),
        event matches EventView::Aborted(error) ==> m.advance(event).stage == Stage::Failed(error),
{
}

/// Around a failure: where the event at `k` makes the run fail, every
/// earlier moment lies no further on than the stage that failed, and every
/// later moment is the failed run itself.
proof fn lemma_around_failure(m: PipelineView, events: Seq<EventView>, k: int, j: int)
    requires
        m.wf(),
        0 <= k < events.len(),
        0 <= j <= events.len(),
        !run(m, events.take(k)).stage.is_terminal(),
        run(m, events.take(k)).advance(events[k]).stage is Failed,
    ensures
        run(m, events.take(k + 1)) == run(m, events.take(k)).advance(events[k]),
        run(m, events.take(k + 1)).failed_at == Some(run(m, events.take(k)).stage),
        j <= k ==> rank(run(m, events.take(j))) <= rank(run(m, events.take(k))),
        j > k ==> run(m, events.take(j)) == run(m, events.take(k + 1)),
{
    lemma_run_step(m, events, k);
    lemma_run_forward(m, events.take(k));
    if j <= k {
        lemma_run_ordered(m, events, j, k);
    } else {
        lemma_run_ordered(m, events, k + 1, j);
    }
}

/// A branch mismatch ends the run before any build is asked for: where the
/// check of the branch is answered by a branch other than the configured
/// one, the run fails with `BranchMismatch`, and at no moment of the run,
/// before or after, is a build the pending action.
pub proof fn lemma_branch_mismatch_never_builds(
    m: PipelineView,
    events: Seq<EventView>,
    k: int,
    j: int,
)
    requires
        m.wf(),
        0 <= k < events.len(),
        0 <= j <= events.len(),
        run(m, events.take(k)).stage == Stage::Preflight(Check::Branch),
        events[k] is Exited,
        !passed(Check::Branch, events[k], m.config.git_checkout),
    ensures
        run(m, events.take(k + 1)).stage == Stage::Failed(DeployError::BranchMismatch),
        run(m, events.take(k + 1)).failed_at == Some(Stage::Preflight(Check::Branch)),
        !(run(m, events.take(j)).pending() is Build),
{
    lemma_failed_check_never_builds(m, events, Check::Branch, k, j);
}

/// No check that fails is followed by a build: where any of the three
/// checks is answered by a report that does not pass it, the run fails with
/// the failure of that check, and at no moment of the run is a build the
/// pending action.
pub proof fn lemma_failed_check_never_builds(
    m: PipelineView,
    events: Seq<EventView>,
    check: Check,
    k: int,
    j: int,
)
    requires
        m.wf(),
        0 <= k < events.len(),
        0 <= j <= events.len(),
        run(m, events.take(k)).stage == Stage::Preflight(check),
        events[k] is Exited,
        !passed(check, events[k], m.config.git_checkout),
    ensures
        run(m, events.take(k + 1)).stage == Stage::Failed(check.failure()),
        run(m, events.take(k + 1)).failed_at == Some(Stage::Preflight(check)),
        !(run(m, events.take(j)).pending() is Build),
{
    lemma_run_forward(m, events.take(k));
    lemma_around_failure(m, events, k, j);
}

/// A failed build writes nothing to the history store: where the build
/// command ends with another status than zero, the run fails with
/// `BuildFailed`, and at no moment of the run is an archive or an upload the
/// pending action.
pub proof fn lemma_build_failure_never_uploads(
    m: PipelineView,
    events: Seq<EventView>,
    k: int,
    j: int,
)
    requires
        m.wf(),
        0 <= k < events.len(),
        0 <= j <= events.len(),
        run(m, events.take(k)).stage == Stage::Building,
        exited_nonzero(events[k]),
    ensures
        run(m, events.take(k + 1)).stage == Stage::Failed(DeployError::BuildFailed),
        run(m, events.take(k + 1)).failed_at == Some(Stage::Building),
        !(run(m, events.take(j)).pending() is Archive),
        !(run(m, events.take(j)).pending() is Upload),
{
    lemma_around_failure(m, events, k, j);
}

/// A missing directory stops packaging before anything is compressed or
/// uploaded: where the probe reports a directory absent, or does not report
/// on every directory, the run fails with `MissingArtifact`, and at no
/// moment of the run is an archive or an upload the pending action.
pub proof fn lemma_missing_artifact_never_uploads(
    m: PipelineView,
    events: Seq<EventView>,
    k: int,
    j: int,
)
    requires
        m.wf(),
        0 <= k < events.len(),
        0 <= j <= events.len(),
        run(m, events.take(k)).stage == Stage::Packaging(Pack::Probe),
        events[k] is Probed,
        !found_all(events[k], m.variant.source_dirs.len()),
    ensures
        run(m, events.take(k + 1)).stage == Stage::Failed(DeployError::MissingArtifact),
        run(m, events.take(k + 1)).failed_at == Some(Stage::Packaging(Pack::Probe)),
        !(run(m, events.take(j)).pending() is Archive),
        !(run(m, events.take(j)).pending() is Upload),
{
    lemma_run_forward(m, events.take(k));
    lemma_around_failure(m, events, k, j);
}

/// An archive that did not arrive is never activated: where the upload
/// could not be carried out, the run fails with the reason reported, and at
/// no moment of the run does the deployment stand in activation.
pub proof fn lemma_upload_failure_never_activates(
    m: PipelineView,
    events: Seq<EventView>,
    error: DeployError,
    k: int,
    j: int,
)
    requires
        m.wf(),
        0 <= k < events.len(),
        0 <= j <= events.len(),
        run(m, events.take(k)).stage == Stage::Uploading,
        events[k] == EventView::Aborted(error),
    ensures
        run(m, events.take(k + 1)).stage == Stage::Failed(error),
        run(m, events.take(k + 1)).failed_at == Some(Stage::Uploading),
        !(run(m, events.take(j)).stage is Activating),
{
    lemma_around_failure(m, events, k, j);
}

/// A replay begins with activation and never leaves the remote host: it
/// starts at the test for the output directory with the entry it was given
/// as its archive, and whatever is reported, the pending action is always a
/// remote command of activation or the end of the run. Nothing is checked,
/// built, probed, archived or uploaded.
pub proof fn lemma_replay_only_activates(
    config: ConfigView,
    variant: VariantView,
    request: RequestView,
    events: Seq<EventView>,
)
    requires
        request.policy is Replay,
        start(config, variant, request).wf(),
    ensures
        start(config, variant, request).stage == Stage::Activating(Step::Probe),
        start(config, variant, request).archive == request.policy->Replay_0,
        start(config, variant, request).pending() == (ActionView::Remote {
            command: probe_command(config.output_path),
        }),
        run(start(config, variant, request), events).archive == request.policy->Replay_0,
        run(start(config, variant, request), events).stage is Activating || run(
            start(config, variant, request),
            events,
        ).stage.is_terminal(),
        run(start(config, variant, request), events).pending() is Remote || run(
            start(config, variant, request),
            events,
        ).pending() is Finish || run(start(config, variant, request), events).pending() is Abort,
    decreases events.len(),
{
    let m = start(config, variant, request);
    if events.len() > 0 {
        lemma_replay_only_activates(config, variant, request, events.drop_last());
        lemma_run_forward(m, events.drop_last());
    }
}

/// The order of activation. Whenever an event moves a deployment to a step
/// of activation or to its end, the move is one of these:
/// the output directory is created only after the test for it ended with
/// another status than zero; the archive is copied only after the test
/// found the directory or after the directory was created; it is extracted
/// only after the copy succeeded; a post-step runs only after the
/// extraction, or the post-step before it, succeeded; the serving process
/// is reloaded only after the extraction succeeded and every post-step did;
/// and the version is live only after the reload succeeded.
pub proof fn lemma_activation_order(m: PipelineView, event: EventView)
    requires
        m.wf(),
        m.advance(event).stage != m.stage,
    ensures
        m.advance(event).stage == Stage::Activating(Step::Probe) ==> (m.stage == Stage::Uploading
            && event == EventView::Completed) || (m.stage == Stage::Resolving && m.request.policy
            is Replay && succeeded(event)),
        m.advance(event).stage == Stage::Activating(Step::Mkdir) ==> m.stage == Stage::Activating(
            Step::Probe,
        ) && exited_nonzero(event),
        m.advance(event).stage == Stage::Activating(Step::Copy) ==> (m.stage == Stage::Activating(
            Step::Probe,
        ) || m.stage == Stage::Activating(Step::Mkdir)) && succeeded(event),
        m.advance(event).stage == Stage::Activating(Step::Extract) ==> m.stage
            == Stage::Activating(Step::Copy) && succeeded(event),
        match m.advance(event).stage {
            Stage::Activating(Step::Post(i)) => succeeded(event) && (if i == 0 {
                m.stage == Stage::Activating(Step::Extract)
            } else {
                m.stage == Stage::Activating(Step::Post((i - 1) as usize))
            }),
            _ => true,
        },
        m.advance(event).stage == Stage::Activating(Step::Reload) ==> succeeded(event) && (if m.post_steps().len()
            == 0 {
            m.stage == Stage::Activating(Step::Extract)
        } else {
            m.stage == Stage::Activating(Step::Post((m.post_steps().len() - 1) as usize))
        }),
        m.advance(event).stage == Stage::Done ==> m.stage == Stage::Activating(Step::Reload)
            && succeeded(event) && m.pending() == (ActionView::Remote {
            command: m.variant.reload,
        }),
{
}

/// The order of what comes before activation. Whenever an event moves a
/// deployment to a check, to the build, to packaging or to the upload, the
/// stage before was the one that the order of stages names, and the event
/// reported its success: a check is reached only after the check before it
/// passed, the build only after the last check passed, the probe only after
/// the build succeeded, the archive only after every directory was found,
/// and the upload only after the archive was written and read.
pub proof fn lemma_local_order(m: PipelineView, event: EventView)
    requires
        m.wf(),
        m.advance(event).stage != m.stage,
    ensures
        m.advance(event).stage == Stage::Preflight(Check::Branch) ==> m.stage == Stage::Resolving
            && succeeded(event) && !(m.request.policy is Replay),
        m.advance(event).stage == Stage::Preflight(Check::WorkingTree) ==> m.stage
            == Stage::Preflight(Check::Branch) && passed(
            Check::Branch,
            event,
            m.config.git_checkout,
        ),
        m.advance(event).stage == Stage::Preflight(Check::Upstream) ==> m.stage
            == Stage::Preflight(Check::WorkingTree) && passed(
            Check::WorkingTree,
            event,
            m.config.git_checkout,
        ),
        m.advance(event).stage == Stage::Building ==> m.stage == Stage::Preflight(Check::Upstream)
            && passed(Check::Upstream, event, m.config.git_checkout),
        m.advance(event).stage == Stage::Packaging(Pack::Probe) ==> m.stage == Stage::Building
            && succeeded(event),
        m.advance(event).stage == Stage::Packaging(Pack::Archive) ==> m.stage == Stage::Packaging(
            Pack::Probe,
        ) && found_all(event, m.variant.source_dirs.len()),
        m.advance(event).stage == Stage::Uploading ==> m.stage == Stage::Packaging(Pack::Archive)
            && event == EventView::Completed,
{
}

/// On a run that succeeds, the reload of the serving process is the last
/// command: the event that makes the version live answers the reload and
/// reports its success, and after it the only pending action is to finish.
pub proof fn lemma_reload_is_last(m: PipelineView, events: Seq<EventView>, k: int, j: int)
    requires
        m.wf(),
        0 <= k < j <= events.len(),
        run(m, events.take(k)).stage != Stage::Done,
        run(m, events.take(k + 1)).stage == Stage::Done,
    ensures
        run(m, events.take(k)).stage == Stage::Activating(Step::Reload),
        run(m, events.take(k)).pending() == (ActionView::Remote { command: m.variant.reload }),
        succeeded(events[k]),
        run(m, events.take(j)).pending() == ActionView::Finish,
{
    lemma_run_step(m, events, k);
    lemma_run_forward(m, events.take(k));
    lemma_activation_order(run(m, events.take(k)), events[k]);
    lemma_run_ordered(m, events, k + 1, j);
}

} // verus!
