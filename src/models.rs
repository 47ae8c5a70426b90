//! The data of pipelines, Git events and execution records.
use vstd::prelude::*;
use vstd::string::*;

verus! {

/// A complete pipeline definition.
#[derive(Debug, Clone, PartialEq)]
pub struct Pipeline {
    pub name: String,
    pub version: String,
    pub triggers: Triggers,
    pub steps: Vec<Step>,
}

/// Trigger configuration for a pipeline.
#[derive(Debug, Clone, PartialEq)]
pub struct Triggers {
    pub git: GitTriggers,
}

/// Git event triggers: one flag per event kind and the branch patterns
/// (`"*"`, an exact name, or `"prefix/*"`).
#[derive(Debug, Clone, PartialEq)]
pub struct GitTriggers {
    pub on_push: bool,
    pub on_pull_request: bool,
    pub on_merge: bool,
    pub on_tag: bool,
    pub on_release: bool,
    pub on_branch_create: bool,
    pub on_branch_delete: bool,
    pub branches: Vec<String>,
}

/// One shell step of a pipeline.
#[derive(Debug, Clone, PartialEq)]
pub struct Step {
    pub name: String,
    pub run: String,
    pub allow_failure: bool,
}

/// The Git event kinds that can trigger a pipeline.
#[derive(Debug, Clone, Copy, PartialEq, Eq, Hash, Structural)]
pub enum GitEventType {
    Push,
    PullRequest,
    Merge,
    Tag,
    Release,
    BranchCreate,
    BranchDelete,
}

/// A Git event, built by the caller from a webhook or the command line.
#[derive(Debug, Clone, PartialEq)]
pub struct GitEvent {
    pub event_type: GitEventType,
    pub repository: Repository,
    pub branch: Option<String>,
    pub tag: Option<String>,
    pub pull_request: Option<PullRequest>,
    pub commit_sha: Option<String>,
    pub sender: String,
}

/// Repository information.
#[derive(Debug, Clone, PartialEq)]
pub struct Repository {
    pub owner: String,
    pub name: String,
    pub full_name: String,
    pub clone_url: String,
    pub default_branch: String,
}

/// Pull request information.
#[derive(Debug, Clone, PartialEq)]
pub struct PullRequest {
    pub number: u64,
    pub title: String,
    pub base_branch: String,
    pub head_branch: String,
    pub state: String,
}

/// Execution status of a step.
#[derive(Debug, Clone, Copy, PartialEq, Eq, Structural)]
pub enum StepStatus {
    Pending,
    Running,
    Success,
    Failed,
    Skipped,
}

/// The result of running one step. Times are milliseconds since the Unix
/// epoch.
#[derive(Debug, Clone)]
pub struct StepResult {
    pub step_name: String,
    pub status: StepStatus,
    pub stdout: String,
    pub stderr: String,
    pub exit_code: Option<i32>,
    pub duration_ms: u64,
    pub started_at: i64,
    pub completed_at: Option<i64>,
}

/// Pipeline execution status.
#[derive(Debug, Clone, Copy, PartialEq, Eq, Structural)]
pub enum PipelineStatus {
    Pending,
    Running,
    Success,
    Failed,
    Cancelled,
    Skipped,
}

/// The record of one run of a pipeline against one Git event. `id` is the
/// 128-bit value of a UUID; times are milliseconds since the Unix epoch.
#[derive(Debug, Clone)]
pub struct PipelineExecution {
    pub id: u128,
    pub pipeline_name: String,
    pub pipeline_version: String,
    pub repository: Repository,
    pub git_event: GitEvent,
    pub status: PipelineStatus,
    pub step_results: Vec<StepResult>,
    pub started_at: i64,
    pub completed_at: Option<i64>,
}

/// A step as the contracts see it.
pub struct StepView {
    pub name: Seq<char>,
    pub run: Seq<char>,
    pub allow_failure: bool,
}

impl View for Step {
    type V = StepView;

    open spec fn view(&self) -> StepView {
        StepView { name: self.name@, run: self.run@, allow_failure: self.allow_failure }
    }
}

/// Git triggers as the contracts see them.
pub struct GitTriggersView {
    pub on_push: bool,
    pub on_pull_request: bool,
    pub on_merge: bool,
    pub on_tag: bool,
    pub on_release: bool,
    pub on_branch_create: bool,
    pub on_branch_delete: bool,
    pub branches: Seq<Seq<char>>,
}

/// The views of a sequence of strings.
pub open spec fn strings_view(v: Seq<String>) -> Seq<Seq<char>> {
    v.map_values(|s: String| s@)
}

impl View for GitTriggers {
    type V = GitTriggersView;

    open spec fn view(&self) -> GitTriggersView {
        GitTriggersView {
            on_push: self.on_push,
            on_pull_request: self.on_pull_request,
            on_merge: self.on_merge,
            on_tag: self.on_tag,
            on_release: self.on_release,
            on_branch_create: self.on_branch_create,
            on_branch_delete: self.on_branch_delete,
            branches: strings_view(self.branches@),
        }
    }
}

/// A pipeline as the contracts see it.
pub struct PipelineView {
    pub name: Seq<char>,
    pub version: Seq<char>,
    pub git: GitTriggersView,
    pub steps: Seq<StepView>,
}

/// The views of a sequence of steps.
pub open spec fn steps_view(v: Seq<Step>) -> Seq<StepView> {
    v.map_values(|s: Step| s@)
}

impl View for Pipeline {
    type V = PipelineView;

    open spec fn view(&self) -> PipelineView {
        PipelineView {
            name: self.name@,
            version: self.version@,
            git: self.triggers.git@,
            steps: steps_view(self.steps@),
        }
    }
}

/// The triggers that nothing has set: no event kind, every branch.
pub open spec fn default_git_triggers() -> GitTriggersView {
    GitTriggersView {
        on_push: false,
        on_pull_request: false,
        on_merge: false,
        on_tag: false,
        on_release: false,
        on_branch_create: false,
        on_branch_delete: false,
        branches: seq!["*"@],
    }
}

impl Default for GitTriggers {
    fn default() -> (r: Self)
        ensures
            r@ == default_git_triggers(),
    {
        let mut branches: Vec<String> = Vec::new();
        branches.push(String::from_str("*"));
        assert(strings_view(branches@) == seq!["*"@]);
        GitTriggers {
            on_push: false,
            on_pull_request: false,
            on_merge: false,
            on_tag: false,
            on_release: false,
            on_branch_create: false,
            on_branch_delete: false,
            branches,
        }
    }
}

impl Step {
    /// A step that may not fail.
    pub fn new(name: String, run: String) -> (r: Self)
        ensures
            r.name == name,
            r.run == run,
            !r.allow_failure,
    {
        Step { name, run, allow_failure: false }
    }

    /// The same step with `allow_failure` set to `allow`.
    pub fn with_allow_failure(self, allow: bool) -> (r: Self)
        ensures
            r.name == self.name,
            r.run == self.run,
            r.allow_failure == allow,
    {
        let mut s = self;
        s.allow_failure = allow;
        s
    }
}

/// The event kind that a name stands for; an unknown name stands for a push.
pub open spec fn event_type_of_name(s: Seq<char>) -> GitEventType {
    if s == "push"@ {
        GitEventType::Push
    } else if s == "pull_request"@ {
        GitEventType::PullRequest
    } else if s == "merge"@ {
        GitEventType::Merge
    } else if s == "tag"@ {
        GitEventType::Tag
    } else if s == "release"@ {
        GitEventType::Release
    } else if s == "branch_create"@ {
        GitEventType::BranchCreate
    } else if s == "branch_delete"@ {
        GitEventType::BranchDelete
    } else {
        GitEventType::Push
    }
}

impl GitEventType {
    /// The event kind named by `s` (`"push"`, `"pull_request"`, `"merge"`,
    /// `"tag"`, `"release"`, `"branch_create"`, `"branch_delete"`); any other
    /// name gives `Push`.
    pub fn from_name(s: &str) -> (r: GitEventType)
        ensures
            r == event_type_of_name(s@),
    {
        if crate::text::str_eq(s, "push") {
            GitEventType::Push
        } else if crate::text::str_eq(s, "pull_request") {
            GitEventType::PullRequest
        } else if crate::text::str_eq(s, "merge") {
            GitEventType::Merge
        } else if crate::text::str_eq(s, "tag") {
            GitEventType::Tag
        } else if crate::text::str_eq(s, "release") {
            GitEventType::Release
        } else if crate::text::str_eq(s, "branch_create") {
            GitEventType::BranchCreate
        } else if crate::text::str_eq(s, "branch_delete") {
            GitEventType::BranchDelete
        } else {
            GitEventType::Push
        }
    }
}

impl<'a> From<&'a str> for GitEventType {
    fn from(s: &'a str) -> (r: GitEventType) {
        GitEventType::from_name(s)
    }
}

impl<'a> vstd::std_specs::convert::FromSpecImpl<&'a str> for GitEventType {
    open spec fn obeys_from_spec() -> bool {
        true
    }

    open spec fn from_spec(s: &'a str) -> GitEventType {
        event_type_of_name(s@)
    }
}

/// An equal copy of an optional string.
pub fn copy_opt_string(o: &Option<String>) -> (r: Option<String>)
    ensures
        r == *o,
{
    match o {
        Some(s) => Some(s.clone()),
        None => None,
    }
}

impl Repository {
    /// An equal copy.
    pub fn copy(&self) -> (r: Repository)
        ensures
            r == *self,
    {
        Repository {
            owner: self.owner.clone(),
            name: self.name.clone(),
            full_name: self.full_name.clone(),
            clone_url: self.clone_url.clone(),
            default_branch: self.default_branch.clone(),
        }
    }
}

impl PullRequest {
    /// An equal copy.
    pub fn copy(&self) -> (r: PullRequest)
        ensures
            r == *self,
    {
        PullRequest {
            number: self.number,
            title: self.title.clone(),
            base_branch: self.base_branch.clone(),
            head_branch: self.head_branch.clone(),
            state: self.state.clone(),
        }
    }
}

impl GitEvent {
    /// An equal copy.
    pub fn copy(&self) -> (r: GitEvent)
        ensures
            r == *self,
    {
        GitEvent {
            event_type: self.event_type,
            repository: self.repository.copy(),
            branch: copy_opt_string(&self.branch),
            tag: copy_opt_string(&self.tag),
            pull_request: match &self.pull_request {
                Some(p) => Some(p.copy()),
                None => None,
            },
            commit_sha: copy_opt_string(&self.commit_sha),
            sender: self.sender.clone(),
        }
    }
}

impl StepResult {
    /// An equal copy.
    pub fn copy(&self) -> (r: StepResult)
        ensures
            r == *self,
    {
        StepResult {
            step_name: self.step_name.clone(),
            status: self.status,
            stdout: self.stdout.clone(),
            stderr: self.stderr.clone(),
            exit_code: self.exit_code,
            duration_ms: self.duration_ms,
            started_at: self.started_at,
            completed_at: self.completed_at,
        }
    }
}

/// An execution record as the contracts see it.
pub struct PipelineExecutionView {
    pub id: u128,
    pub pipeline_name: Seq<char>,
    pub pipeline_version: Seq<char>,
    pub repository: Repository,
    pub git_event: GitEvent,
    pub status: PipelineStatus,
    pub step_results: Seq<StepResult>,
    pub started_at: i64,
    pub completed_at: Option<i64>,
}

impl View for PipelineExecution {
    type V = PipelineExecutionView;

    open spec fn view(&self) -> PipelineExecutionView {
        PipelineExecutionView {
            id: self.id,
            pipeline_name: self.pipeline_name@,
            pipeline_version: self.pipeline_version@,
            repository: self.repository,
            git_event: self.git_event,
            status: self.status,
            step_results: self.step_results@,
            started_at: self.started_at,
            completed_at: self.completed_at,
        }
    }
}

impl PipelineExecution {
    /// An equal copy.
    pub fn copy(&self) -> (r: PipelineExecution)
        ensures
            r@ == self@,
    {
        let mut results: Vec<StepResult> = Vec::new();
        let mut i: usize = 0;
        while i < self.step_results.len()
            invariant
                i <= self.step_results.len(),
                results@ == self.step_results@.take(i as int),
            decreases self.step_results.len() - i,
        {
            results.push(self.step_results[i].copy());
            assert(results@ =~= self.step_results@.take(i + 1));
            i = i + 1;
        }
        assert(results@ =~= self.step_results@);
        PipelineExecution {
            id: self.id,
            pipeline_name: self.pipeline_name.clone(),
            pipeline_version: self.pipeline_version.clone(),
            repository: self.repository.copy(),
            git_event: self.git_event.copy(),
            status: self.status,
            step_results: results,
            started_at: self.started_at,
            completed_at: self.completed_at,
        }
    }
}

} // verus!
