//! The decisions of the execution engine.
//!
//! A run starts with `PipelineExecutor::start`, which checks the triggers.
//! While `next_step` names a step, the caller runs it and hands its result to
//! `record_step`. The record stops at the first step that fails without
//! `allow_failure`; steps after it never appear.
use vstd::prelude::*;
use vstd::string::*;
use crate::models::{
    GitEvent, Pipeline, PipelineExecution, PipelineStatus, Step, StepResult, StepStatus, StepView,
    steps_view,
};
use crate::trigger::triggers_event;

verus! {

/// Relies on `uuid::Uuid::new_v4` and `Uuid::as_u128`: a random UUID whose
/// version nibble is 4 and whose variant bits are `10`.
#[verifier::external_body]
fn new_execution_id() -> (r: u128)
    ensures
        (r >> 76u128) & 0xfu128 == 4,
        (r >> 62u128) & 0x3u128 == 2,
{
    uuid::Uuid::new_v4().as_u128()
}

/// Relies on `chrono::Utc::now` and `DateTime::timestamp_millis`: the time
/// now, in milliseconds since the Unix epoch.
#[verifier::external_body]
pub(crate) fn now_millis() -> (r: i64) {
    chrono::Utc::now().timestamp_millis()
}

/// Runs pipelines; `work_dir` is where their commands run (the current
/// directory when it is `None`).
#[derive(Debug, Clone)]
pub struct PipelineExecutor {
    pub work_dir: Option<String>,
}

/// A step whose failure stops the pipeline.
pub open spec fn is_fatal(step: StepView, st: StepStatus) -> bool {
    st == StepStatus::Failed && !step.allow_failure
}

/// Whether one of the recorded results is a fatal failure.
pub open spec fn has_fatal(steps: Seq<StepView>, rs: Seq<StepStatus>) -> bool {
    exists|i: int| 0 <= i < rs.len() && i < steps.len() && is_fatal(steps[i], #[trigger] rs[i])
}

/// The status of a run of `steps` that has recorded the results `rs`:
/// failed after a fatal failure, a success once every step ran, running
/// otherwise.
pub open spec fn status_of(steps: Seq<StepView>, rs: Seq<StepStatus>) -> PipelineStatus {
    if has_fatal(steps, rs) {
        PipelineStatus::Failed
    } else if rs.len() >= steps.len() {
        PipelineStatus::Success
    } else {
        PipelineStatus::Running
    }
}

/// The results that a run records when its steps, in order, would end with
/// `outs`: each is recorded while the run is still running.
pub open spec fn replay(steps: Seq<StepView>, outs: Seq<StepStatus>) -> Seq<StepStatus>
    decreases outs.len(),
{
    if outs.len() == 0 {
        seq![]
    } else {
        let prev = replay(steps, outs.drop_last());
        if status_of(steps, prev) == PipelineStatus::Running {
            prev.push(outs.last())
        } else {
            prev
        }
    }
}

/// The statuses of step results.
pub open spec fn statuses(v: Seq<StepResult>) -> Seq<StepStatus> {
    v.map_values(|r: StepResult| r.status)
}

impl PipelineExecution {
    /// The statuses recorded so far.
    pub open spec fn recorded(&self) -> Seq<StepStatus> {
        statuses(self.step_results@)
    }

    /// A run of `pipeline` that its triggers let through: its status follows
    /// from what it recorded, and it is complete once it stops running.
    pub open spec fn tracks(&self, pipeline: &Pipeline) -> bool {
        &&& self.step_results.len() <= pipeline.steps.len()
        &&& self.status == status_of(steps_view(pipeline.steps@), self.recorded())
        &&& (self.status == PipelineStatus::Running <==> self.completed_at is None)
    }

    /// The index of the step to run next, while the run is running.
    pub fn next_step(&self) -> (r: Option<usize>)
        ensures
            r == (if self.status == PipelineStatus::Running {
                Some(self.step_results.len())
            } else {
                None::<usize>
            }),
    {
        if self.status == PipelineStatus::Running {
            Some(self.step_results.len())
        } else {
            None
        }
    }

    /// Records the result of the step that `next_step` named. The run fails
    /// and completes at a failure that the step does not allow, succeeds and
    /// completes after the last step, and runs on otherwise.
    pub fn record_step(&mut self, pipeline: &Pipeline, result: StepResult)
        requires
            old(self).status == PipelineStatus::Running,
            old(self).tracks(pipeline),
        ensures
            final(self).step_results@ == old(self).step_results@.push(result),
            final(self).status == (if is_fatal(
                pipeline.steps@[old(self).step_results.len() as int]@,
                result.status,
            ) {
                PipelineStatus::Failed
            } else if old(self).step_results.len() + 1 == pipeline.steps.len() {
                PipelineStatus::Success
            } else {
                PipelineStatus::Running
            }),
            final(self).tracks(pipeline),
            final(self).id == old(self).id,
            final(self).pipeline_name == old(self).pipeline_name,
            final(self).pipeline_version == old(self).pipeline_version,
            final(self).repository == old(self).repository,
            final(self).git_event == old(self).git_event,
            final(self).started_at == old(self).started_at,
    {
        let ghost steps = steps_view(pipeline.steps@);
        let ghost before = self.recorded();
        let k = self.step_results.len();
        let fatal = result.status == StepStatus::Failed && !pipeline.steps[k].allow_failure;
        let st = result.status;
        self.step_results.push(result);
        proof {
            let after = self.recorded();
            assert(after =~= before.push(st));
            assert(steps[k as int] == pipeline.steps@[k as int]@);
            assert(!has_fatal(steps, before));
            if fatal {
                assert(is_fatal(steps[k as int], after[k as int]));
            } else {
                assert forall|i: int| 0 <= i < after.len() && i < steps.len() implies !is_fatal(
                    steps[i],
                    #[trigger] after[i],
                ) by {
                    if i < before.len() {
                        assert(after[i] == before[i]);
                    }
                }
            }
        }
        if fatal {
            self.status = PipelineStatus::Failed;
            self.completed_at = Some(now_millis());
        } else if k + 1 == pipeline.steps.len() {
            self.status = PipelineStatus::Success;
            self.completed_at = Some(now_millis());
        }
    }
}

impl PipelineExecutor {
    pub fn new() -> (r: Self)
        ensures
            r.work_dir is None,
    {
        PipelineExecutor { work_dir: None }
    }

    /// The same executor, running commands in `dir`.
    pub fn with_work_dir(self, dir: String) -> (r: Self)
        ensures
            r.work_dir == Some(dir),
    {
        let mut e = self;
        e.work_dir = Some(dir);
        e
    }

    /// Starts a run of `pipeline` for `event`, with a fresh id. When the
    /// triggers do not let the event through, the run is skipped: complete,
    /// with no step results. Otherwise it is running, or a success at once
    /// when the pipeline has no steps.
    pub fn start(&self, pipeline: &Pipeline, event: &GitEvent) -> (r: PipelineExecution)
        ensures
            r.pipeline_name == pipeline.name,
            r.pipeline_version == pipeline.version,
            r.repository == event.repository,
            r.git_event == *event,
            r.step_results.len() == 0,
            !triggers_event(pipeline.triggers.git@, *event) ==> r.status == PipelineStatus::Skipped
                && r.completed_at is Some,
            triggers_event(pipeline.triggers.git@, *event) ==> r.tracks(pipeline) && r.status == (
            if pipeline.steps.len() == 0 {
                PipelineStatus::Success
            } else {
                PipelineStatus::Running
            }),
    {
        let id = new_execution_id();
        let started_at = now_millis();
        let triggered = pipeline.triggers.git.matches(event);
        let mut r = PipelineExecution {
            id,
            pipeline_name: pipeline.name.clone(),
            pipeline_version: pipeline.version.clone(),
            repository: event.repository.copy(),
            git_event: event.copy(),
            status: PipelineStatus::Running,
            step_results: Vec::new(),
            started_at,
            completed_at: None,
        };
        if !triggered {
            r.status = PipelineStatus::Skipped;
            r.completed_at = Some(now_millis());
        } else if pipeline.steps.len() == 0 {
            r.status = PipelineStatus::Success;
            r.completed_at = Some(now_millis());
        }
        proof {
            assert(r.recorded() =~= seq![]);
        }
        r
    }
}

impl Default for PipelineExecutor {
    fn default() -> (r: Self)
        ensures
            r.work_dir is None,
    {
        PipelineExecutor::new()
    }
}

/// How a process's exit code classifies its step: success exactly on a
/// normal exit with code zero.
pub open spec fn exit_status(exit_code: Option<i32>) -> StepStatus {
    if exit_code == Some(0i32) {
        StepStatus::Success
    } else {
        StepStatus::Failed
    }
}

impl StepResult {
    /// The result of a step whose process ran and ended with `exit_code`
    /// (`None` when it did not exit normally).
    pub fn from_exit(
        step: &Step,
        exit_code: Option<i32>,
        stdout: String,
        stderr: String,
        duration_ms: u64,
        started_at: i64,
        completed_at: i64,
    ) -> (r: StepResult)
        ensures
            r.step_name == step.name,
            r.status == exit_status(exit_code),
            r.exit_code == exit_code,
            r.stdout == stdout,
            r.stderr == stderr,
            r.duration_ms == duration_ms,
            r.started_at == started_at,
            r.completed_at == Some(completed_at),
    {
        let status = match exit_code {
            Some(0) => StepStatus::Success,
            _ => StepStatus::Failed,
        };
        StepResult {
            step_name: step.name.clone(),
            status,
            stdout,
            stderr,
            exit_code,
            duration_ms,
            started_at,
            completed_at: Some(completed_at),
        }
    }

    /// The result of a step whose process could not be started: a failure
    /// with no exit code and the reason in `stderr`.
    pub fn from_spawn_error(
        step: &Step,
        error: &str,
        duration_ms: u64,
        started_at: i64,
        completed_at: i64,
    ) -> (r: StepResult)
        ensures
            r.step_name == step.name,
            r.status == StepStatus::Failed,
            r.exit_code is None,
            r.stdout@.len() == 0,
            r.stderr@ == "Failed to execute command: "@ + error@,
            r.duration_ms == duration_ms,
            r.started_at == started_at,
            r.completed_at == Some(completed_at),
    {
        StepResult {
            step_name: step.name.clone(),
            status: StepStatus::Failed,
            stdout: String::new(),
            stderr: String::from_str("Failed to execute command: ").concat(error),
            exit_code: None,
            duration_ms,
            started_at,
            completed_at: Some(completed_at),
        }
    }
}

/// What a replay records is a prefix of the outcomes, no longer than the
/// steps, and it stops at a fatal failure.
pub proof fn lemma_replay_prefix(steps: Seq<StepView>, outs: Seq<StepStatus>)
    ensures
        replay(steps, outs).len() <= outs.len(),
        replay(steps, outs).len() <= steps.len(),
        forall|j: int| 0 <= j < replay(steps, outs).len() ==> #[trigger] replay(steps, outs)[j] == outs[j],
        status_of(steps, replay(steps, outs)) == PipelineStatus::Running ==> replay(steps, outs) == outs,
    decreases outs.len(),
{
    if outs.len() > 0 {
        let prev = replay(steps, outs.drop_last());
        lemma_replay_prefix(steps, outs.drop_last());
        let r = replay(steps, outs);
        assert forall|j: int| 0 <= j < r.len() implies #[trigger] r[j] == outs[j] by {
            if status_of(steps, prev) == PipelineStatus::Running {
                assert(prev == outs.drop_last());
                assert(r =~= outs);
            } else {
                assert(r == prev);
                assert(prev[j] == outs.drop_last()[j]);
            }
        }
        if status_of(steps, prev) == PipelineStatus::Running {
            assert(r =~= outs);
        } else {
            assert(r == prev);
            if has_fatal(steps, prev) {
                let i = choose|i: int| 0 <= i < prev.len() && i < steps.len() && is_fatal(steps[i], #[trigger] prev[i]);
                assert(is_fatal(steps[i], r[i]));
            }
        }
    }
}

/// Replaying the first `k` outcomes records all `k` of them when none is a
/// fatal failure and there are at least `k` steps.
proof fn lemma_replay_runs(steps: Seq<StepView>, outs: Seq<StepStatus>, k: int)
    requires
        0 <= k <= outs.len(),
        k <= steps.len(),
        forall|j: int| 0 <= j < k - 1 ==> !is_fatal(steps[j], #[trigger] outs[j]),
    ensures
        replay(steps, outs.take(k)) == outs.take(k),
    decreases k,
{
    if k > 0 {
        lemma_replay_runs(steps, outs, k - 1);
        let prev = outs.take(k - 1);
        assert(outs.take(k).drop_last() =~= prev);
        assert forall|i: int| 0 <= i < prev.len() && i < steps.len() implies !is_fatal(
            steps[i],
            #[trigger] prev[i],
        ) by {
            assert(prev[i] == outs[i]);
        }
        assert(!has_fatal(steps, prev));
        assert(prev.push(outs[k - 1]) =~= outs.take(k));
    }
}

/// A run stops at its first step that fails without `allow_failure`: if step
/// `k` (counting from zero) is the first such, the run records exactly `k + 1`
/// results and fails, whatever the later steps would do.
pub proof fn lemma_stops_at_first_fatal(steps: Seq<StepView>, outs: Seq<StepStatus>, k: int)
    requires
        0 <= k < outs.len(),
        k < steps.len(),
        is_fatal(steps[k], outs[k]),
        forall|j: int| 0 <= j < k ==> !is_fatal(steps[j], #[trigger] outs[j]),
    ensures
        replay(steps, outs).len() == k + 1,
        status_of(steps, replay(steps, outs)) == PipelineStatus::Failed,
    decreases outs.len(),
{
    if outs.len() == k + 1 {
        lemma_replay_runs(steps, outs, k + 1);
        assert(outs.take(k + 1) =~= outs);
        assert(is_fatal(steps[k], replay(steps, outs)[k]));
    } else {
        lemma_stops_at_first_fatal(steps, outs.drop_last(), k);
    }
}

/// When no step fails without `allow_failure`, every step runs and the run
/// succeeds, even if some steps failed.
pub proof fn lemma_runs_all_without_fatal(steps: Seq<StepView>, outs: Seq<StepStatus>)
    requires
        outs.len() >= steps.len(),
        forall|j: int| 0 <= j < steps.len() ==> !is_fatal(steps[j], #[trigger] outs[j]),
    ensures
        replay(steps, outs).len() == steps.len(),
        replay(steps, outs) == outs.take(steps.len() as int),
        status_of(steps, replay(steps, outs)) == PipelineStatus::Success,
    decreases outs.len(),
{
    let n = steps.len() as int;
    if outs.len() == n {
        lemma_replay_runs(steps, outs, n);
        assert(outs.take(n) =~= outs);
        let r = replay(steps, outs);
        assert forall|i: int| 0 <= i < r.len() && i < steps.len() implies !is_fatal(
            steps[i],
            #[trigger] r[i],
        ) by {
            assert(r[i] == outs[i]);
        }
    } else {
        lemma_runs_all_without_fatal(steps, outs.drop_last());
        let prev = replay(steps, outs.drop_last());
        assert(outs.drop_last().take(n) =~= outs.take(n));
        assert(status_of(steps, prev) == PipelineStatus::Success);
    }
}

/// Recording the next outcome of a running run extends its replay by that
/// outcome: `record_step` follows `replay`.
pub proof fn lemma_record_follows_replay(
    steps: Seq<StepView>,
    outs: Seq<StepStatus>,
    next: StepStatus,
)
    requires
        status_of(steps, replay(steps, outs)) == PipelineStatus::Running,
    ensures
        replay(steps, outs.push(next)) == replay(steps, outs).push(next),
{
    assert(outs.push(next).drop_last() =~= outs);
}

} // verus!
