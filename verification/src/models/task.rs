//! Jobs: their kinds, their lifecycle states, their progress and the
//! records that the registry keeps of them.

use vstd::prelude::*;
use vstd::string::StringExecFns;
use crate::models::video::{ClipParams, ClipParamsView, MergeParams, MergeParamsView};
use crate::text::{clone_opt_string, clone_strings, opt_view, views};

verus! {

/// Where a job stands in its lifecycle.
#[derive(Debug, Clone, Copy, PartialEq, Eq, Structural)]
pub enum TaskStatus {
    Pending,
    Running,
    Completed,
    Failed,
    Cancelled,
}

impl TaskStatus {
    /// Whether a job in this state has come to its end.
    pub open spec fn terminal(self) -> bool {
        self is Completed || self is Failed || self is Cancelled
    }

    /// Whether a job in this state has come to its end: it is `Completed`,
    /// `Failed` or `Cancelled`.
    pub fn is_terminal(&self) -> (terminal: bool)
        ensures
            terminal == self.terminal(),
    {
        match self {
            TaskStatus::Completed | TaskStatus::Failed | TaskStatus::Cancelled => true,
            TaskStatus::Pending | TaskStatus::Running => false,
        }
    }
}

/// Why a request to the registry or to the command assembler was refused.
#[derive(Debug, Clone, Copy, PartialEq, Eq, Structural)]
pub enum TaskError {
    /// The parameters of the job lack something, or contradict each other.
    InvalidParameters,
    /// There is no job with the given identifier, or none that runs.
    NotFound,
    /// The job is not in the state that the operation needs.
    InvalidState,
    /// As many jobs are running as may run at once.
    TooManyConcurrentJobs,
    /// The job has been cancelled already.
    AlreadyTerminal,
    /// The work is of a kind or a size that is not provided for.
    NotImplemented,
    /// The identifier drawn for a new job is that of another job.
    IdInUse,
}

/// What is said to the user of a refusal.
pub open spec fn refusal_message(error: TaskError) -> Seq<char> {
    match error {
        TaskError::InvalidParameters => "Invalid task parameters"@,
        TaskError::NotFound => "Task not found or not running"@,
        TaskError::InvalidState => "Task is not in pending state"@,
        TaskError::TooManyConcurrentJobs => "Too many concurrent tasks running"@,
        TaskError::AlreadyTerminal => "Task already cancelled or completed"@,
        TaskError::NotImplemented => "Task not implemented yet"@,
        TaskError::IdInUse => "Task identifier already in use"@,
    }
}

impl TaskError {
    /// What is said to the user of this refusal.
    pub fn message(&self) -> (text: String)
        ensures
            text@ == refusal_message(*self),
    {
        match self {
            TaskError::InvalidParameters => String::from_str("Invalid task parameters"),
            TaskError::NotFound => String::from_str("Task not found or not running"),
            TaskError::InvalidState => String::from_str("Task is not in pending state"),
            TaskError::TooManyConcurrentJobs => String::from_str(
                "Too many concurrent tasks running",
            ),
            TaskError::AlreadyTerminal => String::from_str("Task already cancelled or completed"),
            TaskError::NotImplemented => String::from_str("Task not implemented yet"),
            TaskError::IdInUse => String::from_str("Task identifier already in use"),
        }
    }
}

/// What kind of work a job does.
#[derive(Debug, Clone, Copy, PartialEq, Eq, Structural)]
pub enum TaskType {
    ClipVideo,
    MergeVideos,
    ConvertFormat,
    ExtractAudio,
}

/// The highest value of a percentage: percentages are counted in
/// hundredths of a percent.
pub const FULL_PERCENTAGE: u32 = 10000;

/// How far a job has come.
#[derive(Debug)]
pub struct TaskProgress {
    /// In hundredths of a percent, at most [`FULL_PERCENTAGE`].
    pub percentage: u32,
    pub current: u64,
    pub total: u64,
    pub message: Option<String>,
    pub error: Option<String>,
}

/// The values of a [`TaskProgress`].
pub struct TaskProgressView {
    pub percentage: u32,
    pub current: u64,
    pub total: u64,
    pub message: Option<Seq<char>>,
    pub error: Option<Seq<char>>,
}

impl View for TaskProgress {
    type V = TaskProgressView;

    open spec fn view(&self) -> TaskProgressView {
        TaskProgressView {
            percentage: self.percentage,
            current: self.current,
            total: self.total,
            message: opt_view(self.message),
            error: opt_view(self.error),
        }
    }
}

impl Clone for TaskProgress {
    fn clone(&self) -> (copy: Self)
        ensures
            copy@ == self@,
    {
        TaskProgress {
            percentage: self.percentage,
            current: self.current,
            total: self.total,
            message: clone_opt_string(&self.message),
            error: clone_opt_string(&self.error),
        }
    }
}

/// The parameters of a job, by its kind.
#[derive(Debug)]
pub enum TaskParams {
    Clip(ClipParams),
    Merge(MergeParams),
}

/// The values of a [`TaskParams`].
pub enum TaskParamsView {
    Clip(ClipParamsView),
    Merge(MergeParamsView),
}

impl View for TaskParams {
    type V = TaskParamsView;

    open spec fn view(&self) -> TaskParamsView {
        match self {
            TaskParams::Clip(params) => TaskParamsView::Clip(params@),
            TaskParams::Merge(params) => TaskParamsView::Merge(params@),
        }
    }
}

impl Clone for TaskParams {
    fn clone(&self) -> (copy: Self)
        ensures
            copy@ == self@,
    {
        match self {
            TaskParams::Clip(params) => TaskParams::Clip(params.clone()),
            TaskParams::Merge(params) => TaskParams::Merge(params.clone()),
        }
    }
}

/// The record of one job. Times are in milliseconds since the Unix epoch.
#[derive(Debug)]
pub struct TaskInfo {
    pub id: u128,
    pub task_type: TaskType,
    pub status: TaskStatus,
    pub progress: TaskProgress,
    pub created_at: u64,
    pub started_at: Option<u64>,
    pub completed_at: Option<u64>,
    pub input_paths: Vec<String>,
    pub output_path: Option<String>,
    pub params: TaskParams,
}

/// The values of a [`TaskInfo`].
pub struct TaskInfoView {
    pub id: u128,
    pub task_type: TaskType,
    pub status: TaskStatus,
    pub progress: TaskProgressView,
    pub created_at: u64,
    pub started_at: Option<u64>,
    pub completed_at: Option<u64>,
    pub input_paths: Seq<Seq<char>>,
    pub output_path: Option<Seq<char>>,
    pub params: TaskParamsView,
}

impl View for TaskInfo {
    type V = TaskInfoView;

    open spec fn view(&self) -> TaskInfoView {
        TaskInfoView {
            id: self.id,
            task_type: self.task_type,
            status: self.status,
            progress: self.progress@,
            created_at: self.created_at,
            started_at: self.started_at,
            completed_at: self.completed_at,
            input_paths: views(self.input_paths@),
            output_path: opt_view(self.output_path),
            params: self.params@,
        }
    }
}

impl Clone for TaskInfo {
    fn clone(&self) -> (copy: Self)
        ensures
            copy@ == self@,
    {
        TaskInfo {
            id: self.id,
            task_type: self.task_type,
            status: self.status,
            progress: self.progress.clone(),
            created_at: self.created_at,
            started_at: self.started_at,
            completed_at: self.completed_at,
            input_paths: clone_strings(&self.input_paths),
            output_path: clone_opt_string(&self.output_path),
            params: self.params.clone(),
        }
    }
}

/// What a listing shows of one job.
#[derive(Debug)]
pub struct TaskSummary {
    pub id: u128,
    pub task_type: TaskType,
    pub status: TaskStatus,
    /// In hundredths of a percent.
    pub progress: u32,
    pub created_at: u64,
    pub output_path: Option<String>,
}

/// The values of a [`TaskSummary`].
pub struct TaskSummaryView {
    pub id: u128,
    pub task_type: TaskType,
    pub status: TaskStatus,
    pub progress: u32,
    pub created_at: u64,
    pub output_path: Option<Seq<char>>,
}

impl View for TaskSummary {
    type V = TaskSummaryView;

    open spec fn view(&self) -> TaskSummaryView {
        TaskSummaryView {
            id: self.id,
            task_type: self.task_type,
            status: self.status,
            progress: self.progress,
            created_at: self.created_at,
            output_path: opt_view(self.output_path),
        }
    }
}

/// What a listing shows of the job `task`.
pub open spec fn summary_of(task: TaskInfoView) -> TaskSummaryView {
    TaskSummaryView {
        id: task.id,
        task_type: task.task_type,
        status: task.status,
        progress: task.progress.percentage,
        created_at: task.created_at,
        output_path: task.output_path,
    }
}

impl TaskInfo {
    /// What a listing shows of this job.
    pub fn summary(&self) -> (summary: TaskSummary)
        ensures
            summary@ == summary_of(self@),
    {
        TaskSummary {
            id: self.id,
            task_type: self.task_type,
            status: self.status,
            progress: self.progress.percentage,
            created_at: self.created_at,
            output_path: clone_opt_string(&self.output_path),
        }
    }
}

} // verus!
