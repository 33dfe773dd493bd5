//! The model of the job registry: what its state is, what each operation
//! makes of it, and what holds of every state that it can be in.

use vstd::prelude::*;
use crate::models::task::{
    TaskError, TaskInfoView, TaskParamsView, TaskProgressView, TaskStatus, TaskType,
    FULL_PERCENTAGE,
};
use crate::models::video::ClipParamsView;
use crate::services::ffmpeg_service::{error_message, ExecutionErrorView};
use crate::services::video_service::{clip_command, merge_command, valid_clip, valid_merge};

verus! {

/// What a job says when it has been created.
pub open spec fn created_message() -> Seq<char> {
    "任务已创建，等待执行"@
}

/// What a job says when it has been started.
pub open spec fn started_message() -> Seq<char> {
    "任务开始执行"@
}

/// What a job says when it has completed.
pub open spec fn completed_message() -> Seq<char> {
    "任务执行完成"@
}

/// What a job says when it has failed.
pub open spec fn failed_message() -> Seq<char> {
    "任务执行失败"@
}

/// What a job says when it has been cancelled.
pub open spec fn cancelled_message() -> Seq<char> {
    "任务已取消"@
}

/// Whether a job can be made from `params`.
pub open spec fn valid_params(params: TaskParamsView) -> bool {
    match params {
        TaskParamsView::Clip(p) => valid_clip(p),
        TaskParamsView::Merge(p) => valid_merge(p),
    }
}

/// The kind of job that `params` asks for.
pub open spec fn kind_of(params: TaskParamsView) -> TaskType {
    match params {
        TaskParamsView::Clip(_) => TaskType::ClipVideo,
        TaskParamsView::Merge(_) => TaskType::MergeVideos,
    }
}

/// The record of a job that has just been created from `params`: it is
/// pending, at 0 percent, and nothing has happened to it yet.
pub open spec fn new_task(id: u128, params: TaskParamsView, now: u64) -> TaskInfoView {
    TaskInfoView {
        id,
        task_type: kind_of(params),
        status: TaskStatus::Pending,
        progress: TaskProgressView {
            percentage: 0,
            current: 0,
            total: 100,
            message: Some(created_message()),
            error: None,
        },
        created_at: now,
        started_at: None,
        completed_at: None,
        input_paths: match params {
            TaskParamsView::Clip(p) => seq![p.input_path],
            TaskParamsView::Merge(p) => p.input_paths,
        },
        output_path: match params {
            TaskParamsView::Clip(p) => Some(p.output_path),
            TaskParamsView::Merge(p) => Some(p.output_path),
        },
        params,
    }
}

/// The record `task` after its job has been started at the time `now`.
pub open spec fn task_started(task: TaskInfoView, now: u64) -> TaskInfoView {
    TaskInfoView {
        status: TaskStatus::Running,
        started_at: Some(now),
        progress: TaskProgressView { message: Some(started_message()), ..task.progress },
        ..task
    }
}

/// The percentage of a job that stood at `before` after `reported` has been
/// reported: the report is held to the full percentage, and the percentage
/// never falls.
pub open spec fn advanced(before: u32, reported: u32) -> u32 {
    let held = if reported > FULL_PERCENTAGE {
        FULL_PERCENTAGE
    } else {
        reported
    };
    if held > before {
        held
    } else {
        before
    }
}

/// The record `task` after an update of its progress: where the job is not
/// running, nothing changes. A message or an error that is absent leaves
/// the one that is there.
pub open spec fn task_progressed(
    task: TaskInfoView,
    percentage: u32,
    message: Option<Seq<char>>,
    error: Option<Seq<char>>,
) -> TaskInfoView {
    if task.status is Running {
        TaskInfoView {
            progress: TaskProgressView {
                percentage: advanced(task.progress.percentage, percentage),
                message: if message is Some {
                    message
                } else {
                    task.progress.message
                },
                error: if error is Some {
                    error
                } else {
                    task.progress.error
                },
                ..task.progress
            },
            ..task
        }
    } else {
        task
    }
}

/// The record `task` after its run has ended with `result` at the time
/// `now`: where the job is not running any more, nothing changes. A run
/// that ended well completes the job; a cancelled run makes it cancelled;
/// any other failure makes it failed, with what is said of the failure.
pub open spec fn task_finished(
    task: TaskInfoView,
    result: Result<(), ExecutionErrorView>,
    now: u64,
) -> TaskInfoView {
    if task.status is Running {
        match result {
            Ok(_) => TaskInfoView {
                status: TaskStatus::Completed,
                completed_at: Some(now),
                progress: TaskProgressView {
                    percentage: FULL_PERCENTAGE,
                    message: Some(completed_message()),
                    error: None,
                    ..task.progress
                },
                ..task
            },
            Err(ExecutionErrorView::Cancelled) => TaskInfoView {
                status: TaskStatus::Cancelled,
                completed_at: Some(now),
                progress: TaskProgressView {
                    message: Some(cancelled_message()),
                    ..task.progress
                },
                ..task
            },
            Err(e) => TaskInfoView {
                status: TaskStatus::Failed,
                completed_at: Some(now),
                progress: TaskProgressView {
                    message: Some(failed_message()),
                    error: Some(error_message(e)),
                    ..task.progress
                },
                ..task
            },
        }
    } else {
        task
    }
}

/// The record `task` after its job has been cancelled at the time `now`:
/// only a job that is still running becomes cancelled.
pub open spec fn task_cancelled(task: TaskInfoView, now: u64) -> TaskInfoView {
    if task.status is Running {
        TaskInfoView {
            status: TaskStatus::Cancelled,
            completed_at: Some(now),
            progress: TaskProgressView { message: Some(cancelled_message()), ..task.progress },
            ..task
        }
    } else {
        task
    }
}

/// Whether a cleanup at the time `now` removes `task`: its job has come to
/// its end, at a time that is known and lies more than `older_than` before
/// `now`.
pub open spec fn removable(task: TaskInfoView, older_than: u64, now: u64) -> bool {
    &&& task.status.terminal()
    &&& task.completed_at matches Some(completed)
    &&& completed + older_than < now
}

/// Whether what the record `task` holds goes together: the times that are
/// stamped are those of the transitions that the job has made.
pub open spec fn task_consistent(task: TaskInfoView) -> bool {
    &&& task.progress.percentage <= FULL_PERCENTAGE
    &&& (task.status is Pending ==> task.started_at is None && task.completed_at is None)
    &&& (task.status is Running ==> task.started_at is Some && task.completed_at is None)
    &&& (task.status.terminal() ==> task.started_at is Some && task.completed_at is Some)
}

/// The number of `tasks` that are running.
pub open spec fn count_running(tasks: Seq<TaskInfoView>) -> nat
    decreases tasks.len(),
{
    if tasks.len() == 0 {
        0
    } else {
        count_running(tasks.drop_last()) + if tasks.last().status is Running {
            1nat
        } else {
            0nat
        }
    }
}

/// Whether one of `tasks` is the record of the job `id`.
pub open spec fn holds_task(tasks: Seq<TaskInfoView>, id: u128) -> bool {
    exists|i: int| 0 <= i < tasks.len() && (#[trigger] tasks[i]).id == id
}

/// Where the record of the job `id` stands in `tasks`.
pub open spec fn index_of_task(tasks: Seq<TaskInfoView>, id: u128) -> int {
    choose|i: int| 0 <= i < tasks.len() && (#[trigger] tasks[i]).id == id
}

/// Whether no two of `tasks` are of one job.
pub open spec fn distinct_tasks(tasks: Seq<TaskInfoView>) -> bool {
    forall|i: int, j: int|
        0 <= i < tasks.len() && 0 <= j < tasks.len() && i != j ==> (#[trigger] tasks[i]).id != (
        #[trigger] tasks[j]).id
}

/// What the registry knows of the execution context of a running job: the
/// job, and whether its cancellation signal can still be fired.
pub struct ContextView {
    pub id: u128,
    pub armed: bool,
}

/// Whether one of `contexts` is that of the job `id`.
pub open spec fn holds_context(contexts: Seq<ContextView>, id: u128) -> bool {
    exists|i: int| 0 <= i < contexts.len() && (#[trigger] contexts[i]).id == id
}

/// Where the context of the job `id` stands in `contexts`.
pub open spec fn index_of_context(contexts: Seq<ContextView>, id: u128) -> int {
    choose|i: int| 0 <= i < contexts.len() && (#[trigger] contexts[i]).id == id
}

/// Whether no two of `contexts` are of one job.
pub open spec fn distinct_contexts(contexts: Seq<ContextView>) -> bool {
    forall|i: int, j: int|
        0 <= i < contexts.len() && 0 <= j < contexts.len() && i != j ==> (
        #[trigger] contexts[i]).id != (#[trigger] contexts[j]).id
}

/// The state of the registry: the records of the jobs in the order of their
/// creation, the execution contexts of the jobs that are being driven, and
/// the number of jobs that may run at once.
pub struct RegistryView {
    pub tasks: Seq<TaskInfoView>,
    pub contexts: Seq<ContextView>,
    pub max_concurrent_tasks: usize,
}

impl RegistryView {
    /// Whether there is a job `id`.
    pub open spec fn has_task(self, id: u128) -> bool {
        holds_task(self.tasks, id)
    }

    /// Where the record of the job `id` stands.
    pub open spec fn task_index(self, id: u128) -> int {
        index_of_task(self.tasks, id)
    }

    /// The record of the job `id`.
    pub open spec fn task(self, id: u128) -> TaskInfoView {
        self.tasks[self.task_index(id)]
    }

    /// The record of the job `id`, if there is such a job.
    pub open spec fn lookup(self, id: u128) -> Option<TaskInfoView> {
        if self.has_task(id) {
            Some(self.task(id))
        } else {
            None
        }
    }

    /// Whether the job `id` has an execution context.
    pub open spec fn has_context(self, id: u128) -> bool {
        holds_context(self.contexts, id)
    }

    /// Where the execution context of the job `id` stands.
    pub open spec fn context_index(self, id: u128) -> int {
        index_of_context(self.contexts, id)
    }

    /// The execution context of the job `id`.
    pub open spec fn context(self, id: u128) -> ContextView {
        self.contexts[self.context_index(id)]
    }

    /// The number of jobs that are running.
    pub open spec fn running_count(self) -> nat {
        count_running(self.tasks)
    }

    /// Whether the state is one that the registry can be in. No two records
    /// are of one job, and each record is consistent. No two contexts are of
    /// one job; a context whose signal can be fired belongs to a running
    /// job, one whose signal has been fired to a cancelled job; and every
    /// running job has a context.
    pub open spec fn well_formed(self) -> bool {
        &&& distinct_tasks(self.tasks)
        &&& forall|i: int| 0 <= i < self.tasks.len() ==> task_consistent(#[trigger] self.tasks[i])
        &&& distinct_contexts(self.contexts)
        &&& forall|i: int|
            0 <= i < self.contexts.len() ==> {
                let context = #[trigger] self.contexts[i];
                &&& self.has_task(context.id)
                &&& (context.armed ==> self.task(context.id).status is Running)
                &&& (!context.armed ==> self.task(context.id).status is Cancelled)
            }
        &&& forall|i: int|
            0 <= i < self.tasks.len() && (#[trigger] self.tasks[i]).status is Running
                ==> self.has_context(self.tasks[i].id)
    }

    /// What a request to create a job from `params` under the identifier
    /// `id` returns.
    pub open spec fn create_result(self, params: TaskParamsView, id: u128) -> Result<
        u128,
        TaskError,
    > {
        if !valid_params(params) {
            Err(TaskError::InvalidParameters)
        } else if self.has_task(id) {
            Err(TaskError::IdInUse)
        } else {
            Ok(id)
        }
    }

    /// The state after a request to create a job.
    pub open spec fn created(self, params: TaskParamsView, id: u128, now: u64) -> RegistryView {
        if self.create_result(params, id) is Ok {
            RegistryView { tasks: self.tasks.push(new_task(id, params, now)), ..self }
        } else {
            self
        }
    }

    /// What a request to start the job `id` returns.
    pub open spec fn start_result(self, id: u128) -> Result<(), TaskError> {
        if !self.has_task(id) {
            Err(TaskError::NotFound)
        } else if !(self.task(id).status is Pending) {
            Err(TaskError::InvalidState)
        } else if self.running_count() >= self.max_concurrent_tasks {
            Err(TaskError::TooManyConcurrentJobs)
        } else {
            Ok(())
        }
    }

    /// The state after a request to start the job `id` at the time `now`.
    pub open spec fn started(self, id: u128, now: u64) -> RegistryView {
        if self.start_result(id) is Ok {
            RegistryView {
                tasks: self.tasks.update(self.task_index(id), task_started(self.task(id), now)),
                contexts: self.contexts.push(ContextView { id, armed: true }),
                ..self
            }
        } else {
            self
        }
    }

    /// The state after the worker of the job `id` has reported progress.
    pub open spec fn progressed(
        self,
        id: u128,
        percentage: u32,
        message: Option<Seq<char>>,
        error: Option<Seq<char>>,
    ) -> RegistryView {
        if self.has_task(id) {
            RegistryView {
                tasks: self.tasks.update(
                    self.task_index(id),
                    task_progressed(self.task(id), percentage, message, error),
                ),
                ..self
            }
        } else {
            self
        }
    }

    /// The contexts without that of the job `id`.
    pub open spec fn contexts_without(self, id: u128) -> Seq<ContextView> {
        if self.has_context(id) {
            self.contexts.remove(self.context_index(id))
        } else {
            self.contexts
        }
    }

    /// The state after the run of the job `id` has ended with `result` at
    /// the time `now`: the record is brought to its end if the job is
    /// still running, and the context is removed in any case.
    pub open spec fn finished(
        self,
        id: u128,
        result: Result<(), ExecutionErrorView>,
        now: u64,
    ) -> RegistryView {
        RegistryView {
            tasks: if self.has_task(id) {
                self.tasks.update(self.task_index(id), task_finished(self.task(id), result, now))
            } else {
                self.tasks
            },
            contexts: self.contexts_without(id),
            ..self
        }
    }

    /// What a request to cancel the job `id` returns.
    pub open spec fn cancel_result(self, id: u128) -> Result<(), TaskError> {
        if !self.has_context(id) {
            Err(TaskError::NotFound)
        } else if !self.context(id).armed {
            Err(TaskError::AlreadyTerminal)
        } else {
            Ok(())
        }
    }

    /// The state after a request to cancel the job `id` at the time `now`.
    pub open spec fn cancelled(self, id: u128, now: u64) -> RegistryView {
        if self.cancel_result(id) is Ok {
            RegistryView {
                tasks: if self.has_task(id) {
                    self.tasks.update(self.task_index(id), task_cancelled(self.task(id), now))
                } else {
                    self.tasks
                },
                contexts: self.contexts.update(
                    self.context_index(id),
                    ContextView { id, armed: false },
                ),
                ..self
            }
        } else {
            self
        }
    }

    /// The records that a cleanup at the time `now` keeps.
    pub open spec fn kept_tasks(self, older_than: u64, now: u64) -> Seq<TaskInfoView> {
        self.tasks.filter(|task: TaskInfoView| !removable(task, older_than, now))
    }

    /// The state after a cleanup at the time `now`: the removable records
    /// are gone, and with them their contexts.
    pub open spec fn cleaned(self, older_than: u64, now: u64) -> RegistryView {
        RegistryView {
            tasks: self.kept_tasks(older_than, now),
            contexts: self.contexts.filter(
                |c: ContextView|
                    !(self.has_task(c.id) && removable(self.task(c.id), older_than, now)),
            ),
            ..self
        }
    }
}

/// Among records of different jobs, a job is found where its record
/// stands.
pub proof fn lemma_task_at(tasks: Seq<TaskInfoView>, i: int)
    requires
        distinct_tasks(tasks),
        0 <= i < tasks.len(),
    ensures
        holds_task(tasks, tasks[i].id),
        index_of_task(tasks, tasks[i].id) == i,
{
    let id = tasks[i].id;
    assert(holds_task(tasks, id));
    let j = index_of_task(tasks, id);
    assert(0 <= j < tasks.len() && tasks[j].id == id);
}

/// Among contexts of different jobs, the context of a job is found where
/// it stands.
pub proof fn lemma_context_at(contexts: Seq<ContextView>, i: int)
    requires
        distinct_contexts(contexts),
        0 <= i < contexts.len(),
    ensures
        holds_context(contexts, contexts[i].id),
        index_of_context(contexts, contexts[i].id) == i,
{
    let id = contexts[i].id;
    assert(holds_context(contexts, id));
    let j = index_of_context(contexts, id);
    assert(0 <= j < contexts.len() && contexts[j].id == id);
}

/// A record that takes the place of another of the same job leaves every
/// job where it was.
pub proof fn lemma_record_replaced(tasks: Seq<TaskInfoView>, i: int, record: TaskInfoView)
    requires
        distinct_tasks(tasks),
        0 <= i < tasks.len(),
        record.id == tasks[i].id,
    ensures
        distinct_tasks(tasks.update(i, record)),
        forall|id: u128| holds_task(tasks.update(i, record), id) == holds_task(tasks, id),
        forall|id: u128|
            holds_task(tasks, id) ==> index_of_task(tasks.update(i, record), id) == index_of_task(
                tasks,
                id,
            ),
{
    let after = tasks.update(i, record);
    assert forall|a: int, b: int| 0 <= a < after.len() && 0 <= b < after.len() && a != b implies (
    #[trigger] after[a]).id != (#[trigger] after[b]).id by {
        assert(after[a].id == tasks[a].id);
        assert(after[b].id == tasks[b].id);
    }
    assert forall|id: u128| holds_task(after, id) == holds_task(tasks, id) by {
        if holds_task(tasks, id) {
            let k = index_of_task(tasks, id);
            assert(after[k].id == id);
        }
        if holds_task(after, id) {
            let k = index_of_task(after, id);
            assert(tasks[k].id == id);
        }
    }
    assert forall|id: u128| holds_task(tasks, id) implies index_of_task(after, id)
        == index_of_task(tasks, id) by {
        let k = index_of_task(tasks, id);
        assert(after[k].id == id);
        lemma_task_at(after, k);
    }
}

/// What replacing the record at `i` by `record`, a record of the same job,
/// does to what is found: every other job keeps its record.
pub proof fn lemma_records_after(tasks: Seq<TaskInfoView>, i: int, record: TaskInfoView, id: u128)
    requires
        distinct_tasks(tasks),
        0 <= i < tasks.len(),
        record.id == tasks[i].id,
        holds_task(tasks, id),
    ensures
        holds_task(tasks.update(i, record), id),
        tasks.update(i, record)[index_of_task(tasks.update(i, record), id)] == if id
            == record.id {
            record
        } else {
            tasks[index_of_task(tasks, id)]
        },
{
    lemma_record_replaced(tasks, i, record);
    let k = index_of_task(tasks, id);
    lemma_task_at(tasks, i);
    if id == record.id {
        assert(k == i);
    } else {
        assert(k != i);
    }
}

/// Creating a job keeps the registry well formed.
pub proof fn lemma_created_well_formed(
    registry: RegistryView,
    params: TaskParamsView,
    id: u128,
    now: u64,
)
    requires
        registry.well_formed(),
    ensures
        registry.created(params, id, now).well_formed(),
{
    let after = registry.created(params, id, now);
    if registry.create_result(params, id) is Ok {
        let record = new_task(id, params, now);
        let n = registry.tasks.len() as int;
        assert(after.tasks[n] == record);
        assert forall|i: int, j: int|
            0 <= i < after.tasks.len() && 0 <= j < after.tasks.len() && i != j implies (
        #[trigger] after.tasks[i]).id != (#[trigger] after.tasks[j]).id by {
            if i < n && j < n {
                assert(after.tasks[i] == registry.tasks[i]);
                assert(after.tasks[j] == registry.tasks[j]);
            } else if i < n {
                assert(after.tasks[i] == registry.tasks[i]);
                assert(registry.tasks[i].id != id);
            } else {
                assert(after.tasks[j] == registry.tasks[j]);
                assert(registry.tasks[j].id != id);
            }
        }
        assert forall|i: int| 0 <= i < after.tasks.len() implies task_consistent(
            #[trigger] after.tasks[i],
        ) by {
            if i < n {
                assert(after.tasks[i] == registry.tasks[i]);
            }
        }
        assert forall|i: int| 0 <= i < after.contexts.len() implies {
            let context = #[trigger] after.contexts[i];
            &&& after.has_task(context.id)
            &&& (context.armed ==> after.task(context.id).status is Running)
            &&& (!context.armed ==> after.task(context.id).status is Cancelled)
        } by {
            let context = registry.contexts[i];
            let k = registry.task_index(context.id);
            assert(registry.has_task(context.id));
            assert(after.tasks[k] == registry.tasks[k]);
            lemma_task_at(after.tasks, k);
        }
        assert forall|i: int|
            0 <= i < after.tasks.len() && (#[trigger] after.tasks[i]).status is Running
                implies after.has_context(after.tasks[i].id) by {
            if i < n {
                assert(after.tasks[i] == registry.tasks[i]);
            }
        }
    }
}

/// Starting a job keeps the registry well formed.
pub proof fn lemma_started_well_formed(registry: RegistryView, id: u128, now: u64)
    requires
        registry.well_formed(),
    ensures
        registry.started(id, now).well_formed(),
{
    let after = registry.started(id, now);
    if registry.start_result(id) is Ok {
        let i = registry.task_index(id);
        let record = task_started(registry.task(id), now);
        lemma_record_replaced(registry.tasks, i, record);
        assert(task_consistent(registry.tasks[i]));
        let n = registry.contexts.len() as int;
        assert(!registry.has_context(id)) by {
            if registry.has_context(id) {
                let c = registry.context_index(id);
                assert(registry.contexts[c].id == id);
            }
        }
        assert(after.contexts[n] == ContextView { id, armed: true });
        assert forall|a: int, b: int|
            0 <= a < after.contexts.len() && 0 <= b < after.contexts.len() && a != b implies (
        #[trigger] after.contexts[a]).id != (#[trigger] after.contexts[b]).id by {
            if a < n {
                assert(after.contexts[a] == registry.contexts[a]);
            }
            if b < n {
                assert(after.contexts[b] == registry.contexts[b]);
            }
        }
        assert forall|k: int| 0 <= k < after.tasks.len() implies task_consistent(
            #[trigger] after.tasks[k],
        ) by {
            if k != i {
                assert(after.tasks[k] == registry.tasks[k]);
            }
        }
        assert forall|c: int| 0 <= c < after.contexts.len() implies {
            let context = #[trigger] after.contexts[c];
            &&& after.has_task(context.id)
            &&& (context.armed ==> after.task(context.id).status is Running)
            &&& (!context.armed ==> after.task(context.id).status is Cancelled)
        } by {
            let context = after.contexts[c];
            if c < n {
                assert(context == registry.contexts[c]);
                assert(registry.has_task(context.id));
                lemma_records_after(registry.tasks, i, record, context.id);
            } else {
                lemma_records_after(registry.tasks, i, record, id);
            }
        }
        assert forall|k: int|
            0 <= k < after.tasks.len() && (#[trigger] after.tasks[k]).status is Running
                implies after.has_context(after.tasks[k].id) by {
            if k == i {
                assert(after.contexts[n].id == id);
            } else {
                assert(after.tasks[k] == registry.tasks[k]);
                let c = registry.context_index(registry.tasks[k].id);
                assert(after.contexts[c] == registry.contexts[c]);
            }
        }
    }
}

/// A report of progress keeps the registry well formed.
pub proof fn lemma_progressed_well_formed(
    registry: RegistryView,
    id: u128,
    percentage: u32,
    message: Option<Seq<char>>,
    error: Option<Seq<char>>,
)
    requires
        registry.well_formed(),
    ensures
        registry.progressed(id, percentage, message, error).well_formed(),
{
    let after = registry.progressed(id, percentage, message, error);
    if registry.has_task(id) {
        let i = registry.task_index(id);
        let record = task_progressed(registry.task(id), percentage, message, error);
        lemma_record_replaced(registry.tasks, i, record);
        assert(task_consistent(registry.tasks[i]));
        assert forall|k: int| 0 <= k < after.tasks.len() implies task_consistent(
            #[trigger] after.tasks[k],
        ) by {
            if k != i {
                assert(after.tasks[k] == registry.tasks[k]);
            }
        }
        assert forall|c: int| 0 <= c < after.contexts.len() implies {
            let context = #[trigger] after.contexts[c];
            &&& after.has_task(context.id)
            &&& (context.armed ==> after.task(context.id).status is Running)
            &&& (!context.armed ==> after.task(context.id).status is Cancelled)
        } by {
            let context = registry.contexts[c];
            assert(registry.has_task(context.id));
            lemma_records_after(registry.tasks, i, record, context.id);
        }
        assert forall|k: int|
            0 <= k < after.tasks.len() && (#[trigger] after.tasks[k]).status is Running
                implies after.has_context(after.tasks[k].id) by {
            if k != i {
                assert(after.tasks[k] == registry.tasks[k]);
            } else {
                assert(registry.tasks[i].status is Running);
            }
        }
    }
}

/// The end of a run keeps the registry well formed.
pub proof fn lemma_finished_well_formed(
    registry: RegistryView,
    id: u128,
    result: Result<(), ExecutionErrorView>,
    now: u64,
)
    requires
        registry.well_formed(),
    ensures
        registry.finished(id, result, now).well_formed(),
{
    let after = registry.finished(id, result, now);
    if registry.has_task(id) {
        let i = registry.task_index(id);
        let record = task_finished(registry.task(id), result, now);
        lemma_record_replaced(registry.tasks, i, record);
        assert(task_consistent(registry.tasks[i]));
        assert forall|k: int| 0 <= k < after.tasks.len() implies task_consistent(
            #[trigger] after.tasks[k],
        ) by {
            if k != i {
                assert(after.tasks[k] == registry.tasks[k]);
            }
        }
    }
    let removed = if registry.has_context(id) {
        registry.context_index(id)
    } else {
        registry.contexts.len() as int
    };
    assert forall|c: int| 0 <= c < after.contexts.len() implies (#[trigger] after.contexts[c])
        == registry.contexts[if c < removed {
        c
    } else {
        c + 1
    }] && after.contexts[c].id != id by {
        let source = if c < removed {
            c
        } else {
            c + 1
        };
        if registry.has_context(id) {
            assert(registry.contexts[removed].id == id);
            assert(source != removed);
        } else {
            if registry.contexts[c].id == id {
                assert(registry.has_context(id));
            }
        }
    }
    assert forall|a: int, b: int|
        0 <= a < after.contexts.len() && 0 <= b < after.contexts.len() && a != b implies (
    #[trigger] after.contexts[a]).id != (#[trigger] after.contexts[b]).id by {
        let source_a = if a < removed {
            a
        } else {
            a + 1
        };
        let source_b = if b < removed {
            b
        } else {
            b + 1
        };
        assert(after.contexts[a] == registry.contexts[source_a]);
        assert(after.contexts[b] == registry.contexts[source_b]);
    }
    assert forall|c: int| 0 <= c < after.contexts.len() implies {
        let context = #[trigger] after.contexts[c];
        &&& after.has_task(context.id)
        &&& (context.armed ==> after.task(context.id).status is Running)
        &&& (!context.armed ==> after.task(context.id).status is Cancelled)
    } by {
        let source = if c < removed {
            c
        } else {
            c + 1
        };
        let context = registry.contexts[source];
        assert(after.contexts[c] == context);
        assert(registry.has_task(context.id));
        if registry.has_task(id) {
            lemma_records_after(
                registry.tasks,
                registry.task_index(id),
                task_finished(registry.task(id), result, now),
                context.id,
            );
        }
    }
    assert forall|k: int|
        0 <= k < after.tasks.len() && (#[trigger] after.tasks[k]).status is Running
            implies after.has_context(after.tasks[k].id) by {
        if registry.has_task(id) && k == registry.task_index(id) {
            assert(!(after.tasks[k].status is Running));
        } else {
            assert(after.tasks[k] == registry.tasks[k]);
            let other = registry.tasks[k].id;
            if registry.has_task(id) {
                lemma_task_at(registry.tasks, k);
            } else {
                assert(other != id);
            }
            assert(other != id);
            let c = registry.context_index(other);
            assert(registry.contexts[c].id == other);
            let target = if c < removed {
                c
            } else {
                c - 1
            };
            assert(after.contexts[target] == registry.contexts[c]);
        }
    }
}

/// A cancellation keeps the registry well formed.
pub proof fn lemma_cancelled_well_formed(registry: RegistryView, id: u128, now: u64)
    requires
        registry.well_formed(),
    ensures
        registry.cancelled(id, now).well_formed(),
{
    let after = registry.cancelled(id, now);
    if registry.cancel_result(id) is Ok {
        let c = registry.context_index(id);
        assert(registry.contexts[c].id == id);
        assert(registry.has_task(id));
        assert(registry.task(id).status is Running);
        let i = registry.task_index(id);
        let record = task_cancelled(registry.task(id), now);
        lemma_record_replaced(registry.tasks, i, record);
        assert(task_consistent(registry.tasks[i]));
        assert forall|k: int| 0 <= k < after.tasks.len() implies task_consistent(
            #[trigger] after.tasks[k],
        ) by {
            if k != i {
                assert(after.tasks[k] == registry.tasks[k]);
            }
        }
        assert forall|a: int, b: int|
            0 <= a < after.contexts.len() && 0 <= b < after.contexts.len() && a != b implies (
        #[trigger] after.contexts[a]).id != (#[trigger] after.contexts[b]).id by {
            assert(after.contexts[a].id == registry.contexts[a].id);
            assert(after.contexts[b].id == registry.contexts[b].id);
        }
        assert forall|k: int| 0 <= k < after.contexts.len() implies {
            let context = #[trigger] after.contexts[k];
            &&& after.has_task(context.id)
            &&& (context.armed ==> after.task(context.id).status is Running)
            &&& (!context.armed ==> after.task(context.id).status is Cancelled)
        } by {
            let context = registry.contexts[k];
            assert(registry.has_task(context.id));
            lemma_records_after(registry.tasks, i, record, context.id);
            if k != c {
                assert(after.contexts[k] == context);
                assert(context.id != id);
            }
        }
        assert forall|k: int|
            0 <= k < after.tasks.len() && (#[trigger] after.tasks[k]).status is Running
                implies after.has_context(after.tasks[k].id) by {
            assert(k != i);
            assert(after.tasks[k] == registry.tasks[k]);
            let other = registry.context_index(registry.tasks[k].id);
            assert(after.contexts[other].id == registry.contexts[other].id);
        }
    }
}

/// Records that are picked from records of different jobs are of different
/// jobs.
pub proof fn lemma_filtered_tasks_distinct(
    tasks: Seq<TaskInfoView>,
    keep: spec_fn(TaskInfoView) -> bool,
)
    requires
        distinct_tasks(tasks),
    ensures
        distinct_tasks(tasks.filter(keep)),
    decreases tasks.len(),
{
    reveal(Seq::filter);
    if tasks.len() > 0 {
        let earlier = tasks.drop_last();
        assert forall|i: int, j: int|
            0 <= i < earlier.len() && 0 <= j < earlier.len() && i != j implies (
        #[trigger] earlier[i]).id != (#[trigger] earlier[j]).id by {
            assert(earlier[i] == tasks[i]);
            assert(earlier[j] == tasks[j]);
        }
        lemma_filtered_tasks_distinct(earlier, keep);
        let kept = earlier.filter(keep);
        let all = tasks.filter(keep);
        assert forall|i: int, j: int|
            0 <= i < all.len() && 0 <= j < all.len() && i != j implies (#[trigger] all[i]).id != (
        #[trigger] all[j]).id by {
            if i < kept.len() && j < kept.len() {
                assert(all[i] == kept[i]);
                assert(all[j] == kept[j]);
            } else {
                let inner = if i < kept.len() {
                    i
                } else {
                    j
                };
                assert(kept.contains(kept[inner]));
                earlier.lemma_filter_contains_rev(keep, kept[inner]);
                let source = choose|k: int| 0 <= k < earlier.len() && earlier[k] == kept[inner];
                assert(tasks[source] == kept[inner]);
                assert(tasks[tasks.len() - 1] == tasks.last());
            }
        }
    }
}

/// Contexts that are picked from contexts of different jobs are of
/// different jobs.
pub proof fn lemma_filtered_contexts_distinct(
    contexts: Seq<ContextView>,
    keep: spec_fn(ContextView) -> bool,
)
    requires
        distinct_contexts(contexts),
    ensures
        distinct_contexts(contexts.filter(keep)),
    decreases contexts.len(),
{
    reveal(Seq::filter);
    if contexts.len() > 0 {
        let earlier = contexts.drop_last();
        assert forall|i: int, j: int|
            0 <= i < earlier.len() && 0 <= j < earlier.len() && i != j implies (
        #[trigger] earlier[i]).id != (#[trigger] earlier[j]).id by {
            assert(earlier[i] == contexts[i]);
            assert(earlier[j] == contexts[j]);
        }
        lemma_filtered_contexts_distinct(earlier, keep);
        let kept = earlier.filter(keep);
        let all = contexts.filter(keep);
        assert forall|i: int, j: int|
            0 <= i < all.len() && 0 <= j < all.len() && i != j implies (#[trigger] all[i]).id != (
        #[trigger] all[j]).id by {
            if i < kept.len() && j < kept.len() {
                assert(all[i] == kept[i]);
                assert(all[j] == kept[j]);
            } else {
                let inner = if i < kept.len() {
                    i
                } else {
                    j
                };
                assert(kept.contains(kept[inner]));
                earlier.lemma_filter_contains_rev(keep, kept[inner]);
                let source = choose|k: int| 0 <= k < earlier.len() && earlier[k] == kept[inner];
                assert(contexts[source] == kept[inner]);
                assert(contexts[contexts.len() - 1] == contexts.last());
            }
        }
    }
}

/// What a cleanup does to one job: its record is gone where it is
/// removable, and stays as it is where it is not.
pub proof fn lemma_cleaned_lookup(registry: RegistryView, older_than: u64, now: u64, id: u128)
    requires
        registry.well_formed(),
    ensures
        registry.cleaned(older_than, now).lookup(id) == if registry.has_task(id) && !removable(
            registry.task(id),
            older_than,
            now,
        ) {
            Some(registry.task(id))
        } else {
            None
        },
{
    let keep = |task: TaskInfoView| !removable(task, older_than, now);
    let after = registry.cleaned(older_than, now);
    let kept = registry.tasks.filter(keep);
    assert(after.tasks == kept);
    lemma_filtered_tasks_distinct(registry.tasks, keep);
    if after.has_task(id) {
        let k = after.task_index(id);
        assert(kept[k].id == id);
        registry.tasks.lemma_filter_pred(keep, k);
        assert(kept.contains(kept[k]));
        registry.tasks.lemma_filter_contains_rev(keep, kept[k]);
        let source = choose|j: int| 0 <= j < registry.tasks.len() && registry.tasks[j] == kept[k];
        lemma_task_at(registry.tasks, source);
    }
    if registry.has_task(id) && !removable(registry.task(id), older_than, now) {
        let i = registry.task_index(id);
        registry.tasks.lemma_filter_contains(keep, i);
        let k = choose|k: int| 0 <= k < kept.len() && kept[k] == registry.tasks[i];
        lemma_task_at(kept, k);
    }
}

/// A cleanup keeps the registry well formed.
pub proof fn lemma_cleaned_well_formed(registry: RegistryView, older_than: u64, now: u64)
    requires
        registry.well_formed(),
    ensures
        registry.cleaned(older_than, now).well_formed(),
{
    let keep = |task: TaskInfoView| !removable(task, older_than, now);
    let keep_context = |c: ContextView|
        !(registry.has_task(c.id) && removable(registry.task(c.id), older_than, now));
    let after = registry.cleaned(older_than, now);
    let kept = registry.tasks.filter(keep);
    let kept_contexts = registry.contexts.filter(keep_context);
    assert(after.tasks == kept);
    assert(after.contexts == kept_contexts);
    lemma_filtered_tasks_distinct(registry.tasks, keep);
    lemma_filtered_contexts_distinct(registry.contexts, keep_context);
    assert forall|k: int| 0 <= k < kept.len() implies task_consistent(#[trigger] kept[k]) by {
        assert(kept.contains(kept[k]));
        registry.tasks.lemma_filter_contains_rev(keep, kept[k]);
        let source = choose|j: int| 0 <= j < registry.tasks.len() && registry.tasks[j] == kept[k];
        assert(task_consistent(registry.tasks[source]));
    }
    assert forall|c: int| 0 <= c < kept_contexts.len() implies {
        let context = #[trigger] after.contexts[c];
        &&& after.has_task(context.id)
        &&& (context.armed ==> after.task(context.id).status is Running)
        &&& (!context.armed ==> after.task(context.id).status is Cancelled)
    } by {
        let context = kept_contexts[c];
        registry.contexts.lemma_filter_pred(keep_context, c);
        assert(kept_contexts.contains(context));
        registry.contexts.lemma_filter_contains_rev(keep_context, context);
        let source = choose|j: int|
            0 <= j < registry.contexts.len() && registry.contexts[j] == context;
        assert(registry.contexts[source] == context);
        assert(registry.has_task(context.id));
        lemma_cleaned_lookup(registry, older_than, now, context.id);
    }
    assert forall|k: int|
        0 <= k < kept.len() && (#[trigger] kept[k]).status is Running implies after.has_context(
        kept[k].id,
    ) by {
        assert(kept.contains(kept[k]));
        registry.tasks.lemma_filter_contains_rev(keep, kept[k]);
        let source = choose|j: int| 0 <= j < registry.tasks.len() && registry.tasks[j] == kept[k];
        lemma_task_at(registry.tasks, source);
        let id = kept[k].id;
        assert(registry.has_context(id));
        let c = registry.context_index(id);
        assert(registry.contexts[c].id == id);
        assert(keep_context(registry.contexts[c]));
        registry.contexts.lemma_filter_contains(keep_context, c);
        let target = choose|t: int|
            0 <= t < kept_contexts.len() && kept_contexts[t] == registry.contexts[c];
        assert(kept_contexts[target].id == id);
    }
}

/// A job that is created is found pending and at 0 percent: for parameters
/// of a clip that are valid, the request is granted unless the identifier
/// is in use, and then the registry holds the new record as it was made.
pub proof fn lemma_created_is_pending(
    registry: RegistryView,
    params: ClipParamsView,
    id: u128,
    now: u64,
)
    requires
        registry.well_formed(),
        valid_clip(params),
    ensures
        registry.create_result(TaskParamsView::Clip(params), id) is Ok <==> !registry.has_task(id),
        !registry.has_task(id) ==> {
            let found = registry.created(TaskParamsView::Clip(params), id, now).lookup(id);
            &&& found == Some(new_task(id, TaskParamsView::Clip(params), now))
            &&& found->Some_0.status is Pending
            &&& found->Some_0.progress.percentage == 0
        },
{
    if !registry.has_task(id) {
        let after = registry.created(TaskParamsView::Clip(params), id, now);
        lemma_created_well_formed(registry, TaskParamsView::Clip(params), id, now);
        let n = registry.tasks.len() as int;
        assert(after.tasks[n] == new_task(id, TaskParamsView::Clip(params), now));
        lemma_task_at(after.tasks, n);
    }
}

/// The percentage of a job never falls and never passes the full
/// percentage, whatever is reported.
pub proof fn lemma_progress_never_falls(
    task: TaskInfoView,
    percentage: u32,
    message: Option<Seq<char>>,
    error: Option<Seq<char>>,
)
    requires
        task_consistent(task),
    ensures
        task_progressed(task, percentage, message, error).progress.percentage
            >= task.progress.percentage,
        task_progressed(task, percentage, message, error).progress.percentage <= FULL_PERCENTAGE,
        task_progressed(task, percentage, message, error).status == task.status,
{
}

/// Whether the records `before` and `after` are of the same request: the
/// same job, of the same kind, with the same parameters, created at the
/// same time.
pub open spec fn same_request(before: TaskInfoView, after: TaskInfoView) -> bool {
    &&& after.id == before.id
    &&& after.task_type == before.task_type
    &&& after.params == before.params
    &&& after.created_at == before.created_at
    &&& after.input_paths == before.input_paths
    &&& after.output_path == before.output_path
}

/// Whether the times that `before` has stamped stand in `after` as they
/// were.
pub open spec fn same_stamps(before: TaskInfoView, after: TaskInfoView) -> bool {
    &&& before.started_at is Some ==> after.started_at == before.started_at
    &&& before.completed_at is Some ==> after.completed_at == before.completed_at
}

/// Nothing that happens to a job changes what was asked of it: its
/// identifier, its kind, its parameters and the time of its creation stay.
pub proof fn lemma_request_is_kept(
    task: TaskInfoView,
    now: u64,
    percentage: u32,
    message: Option<Seq<char>>,
    error: Option<Seq<char>>,
    result: Result<(), ExecutionErrorView>,
)
    ensures
        same_request(task, task_started(task, now)),
        same_request(task, task_progressed(task, percentage, message, error)),
        same_request(task, task_finished(task, result, now)),
        same_request(task, task_cancelled(task, now)),
{
}

/// The time of a transition is stamped once: a start stamps a job that is
/// pending, which has no time of its start yet, and whatever happens to a
/// job afterwards leaves the times that it has.
pub proof fn lemma_times_are_stamped_once(
    registry: RegistryView,
    id: u128,
    now: u64,
    percentage: u32,
    message: Option<Seq<char>>,
    error: Option<Seq<char>>,
    result: Result<(), ExecutionErrorView>,
)
    requires
        registry.well_formed(),
        registry.has_task(id),
    ensures
        registry.start_result(id) is Ok ==> registry.task(id).started_at is None,
        same_stamps(
            registry.task(id),
            task_progressed(registry.task(id), percentage, message, error),
        ),
        same_stamps(registry.task(id), task_finished(registry.task(id), result, now)),
        same_stamps(registry.task(id), task_cancelled(registry.task(id), now)),
{
    let i = registry.task_index(id);
    assert(task_consistent(registry.tasks[i]));
}

/// A job is not started while as many jobs are running as may run at once:
/// the request for a pending job is refused with `TooManyConcurrentJobs`,
/// and the registry stays as it is, the job pending.
pub proof fn lemma_start_at_capacity(registry: RegistryView, id: u128, now: u64)
    requires
        registry.well_formed(),
        registry.has_task(id),
        registry.task(id).status is Pending,
        registry.running_count() >= registry.max_concurrent_tasks,
    ensures
        registry.start_result(id) == Err::<(), TaskError>(TaskError::TooManyConcurrentJobs),
        registry.started(id, now) == registry,
        registry.started(id, now).task(id).status is Pending,
{
}

/// Replacing one record changes the number of running jobs by what the
/// record changes of it.
pub proof fn lemma_count_running_update(tasks: Seq<TaskInfoView>, i: int, record: TaskInfoView)
    requires
        0 <= i < tasks.len(),
    ensures
        count_running(tasks.update(i, record)) + (if tasks[i].status is Running {
            1nat
        } else {
            0nat
        }) == count_running(tasks) + (if record.status is Running {
            1nat
        } else {
            0nat
        }),
    decreases tasks.len(),
{
    let after = tasks.update(i, record);
    if i == tasks.len() - 1 {
        assert(after.drop_last() =~= tasks.drop_last());
    } else {
        lemma_count_running_update(tasks.drop_last(), i, record);
        assert(after.drop_last() =~= tasks.drop_last().update(i, record));
        assert(after.last() == tasks.last());
    }
}

/// A start that is granted keeps the number of running jobs within the
/// number that may run at once: it adds one job to fewer than that number.
pub proof fn lemma_start_within_capacity(registry: RegistryView, id: u128, now: u64)
    requires
        registry.well_formed(),
        registry.start_result(id) is Ok,
    ensures
        registry.started(id, now).running_count() == registry.running_count() + 1,
        registry.started(id, now).running_count() <= registry.max_concurrent_tasks,
        registry.started(id, now).lookup(id) == Some(task_started(registry.task(id), now)),
{
    let i = registry.task_index(id);
    lemma_count_running_update(registry.tasks, i, task_started(registry.task(id), now));
    lemma_records_after(registry.tasks, i, task_started(registry.task(id), now), id);
}

/// A job that has come to its end stays as it is: no start, no report of
/// progress, no end of a run and no cancellation changes its record. Only
/// a cleanup takes it away.
pub proof fn lemma_terminal_is_final(
    registry: RegistryView,
    id: u128,
    now: u64,
    percentage: u32,
    message: Option<Seq<char>>,
    error: Option<Seq<char>>,
    result: Result<(), ExecutionErrorView>,
)
    requires
        registry.well_formed(),
        registry.has_task(id),
        registry.task(id).status.terminal(),
    ensures
        registry.started(id, now) == registry,
        registry.progressed(id, percentage, message, error) == registry,
        registry.finished(id, result, now).tasks == registry.tasks,
        registry.cancel_result(id) is Err,
        registry.cancelled(id, now) == registry,
{
    let i = registry.task_index(id);
    assert(registry.tasks[i].id == id);
    assert(registry.tasks.update(i, registry.tasks[i]) =~= registry.tasks);
    if registry.has_context(id) {
        let c = registry.context_index(id);
        assert(registry.contexts[c].id == id);
    }
}

/// A job that was never started cannot be cancelled: the request is refused
/// with `NotFound`, and the registry stays as it is.
pub proof fn lemma_cancel_pending(registry: RegistryView, id: u128, now: u64)
    requires
        registry.well_formed(),
        registry.has_task(id),
        registry.task(id).status is Pending,
    ensures
        registry.cancel_result(id) == Err::<(), TaskError>(TaskError::NotFound),
        registry.cancelled(id, now) == registry,
{
    if registry.has_context(id) {
        let c = registry.context_index(id);
        assert(registry.contexts[c].id == id);
    }
}

/// The signal of a running job fires once: the first request to cancel is
/// granted and makes the job cancelled; a second one is refused with
/// `AlreadyTerminal` and changes nothing.
pub proof fn lemma_cancel_twice(registry: RegistryView, id: u128, first: u64, second: u64)
    requires
        registry.well_formed(),
        registry.has_task(id),
        registry.task(id).status is Running,
    ensures
        registry.cancel_result(id) is Ok,
        registry.cancelled(id, first).lookup(id) == Some(task_cancelled(registry.task(id), first)),
        registry.cancelled(id, first).cancel_result(id) == Err::<(), TaskError>(
            TaskError::AlreadyTerminal,
        ),
        registry.cancelled(id, first).cancelled(id, second) == registry.cancelled(id, first),
{
    let i = registry.task_index(id);
    assert(registry.tasks[i].id == id);
    assert(registry.has_context(id));
    let c = registry.context_index(id);
    assert(registry.contexts[c].id == id);
    lemma_context_at(registry.contexts, c);
    assert(registry.contexts[c].armed) by {
        assert(registry.task(registry.contexts[c].id).status is Running);
    }
    let after = registry.cancelled(id, first);
    lemma_cancelled_well_formed(registry, id, first);
    lemma_records_after(registry.tasks, i, task_cancelled(registry.task(id), first), id);
    assert(after.contexts[c] == ContextView { id, armed: false });
    lemma_context_at(after.contexts, c);
}

/// A job that has completed or failed cannot be cancelled any more: the
/// request is refused with `NotFound`, nothing is fired, and the registry
/// stays as it is.
pub proof fn lemma_cancel_after_end(registry: RegistryView, id: u128, now: u64)
    requires
        registry.well_formed(),
        registry.has_task(id),
        registry.task(id).status is Completed || registry.task(id).status is Failed,
    ensures
        registry.cancel_result(id) == Err::<(), TaskError>(TaskError::NotFound),
        registry.cancelled(id, now) == registry,
{
    if registry.has_context(id) {
        let c = registry.context_index(id);
        assert(registry.contexts[c].id == id);
    }
}

/// The worker that ends its run after the job has been cancelled does not
/// change what the job has become, and a run that ends first decides: a
/// request to cancel that comes after it is refused.
pub proof fn lemma_finish_and_cancel(
    registry: RegistryView,
    id: u128,
    result: Result<(), ExecutionErrorView>,
    ended: u64,
    now: u64,
)
    requires
        registry.well_formed(),
        registry.has_task(id),
        registry.task(id).status is Running,
    ensures
        registry.cancelled(id, now).finished(id, result, ended).lookup(id) == Some(
            task_cancelled(registry.task(id), now),
        ),
        registry.finished(id, result, ended).lookup(id) == Some(
            task_finished(registry.task(id), result, ended),
        ),
        registry.finished(id, result, ended).cancel_result(id) == Err::<(), TaskError>(
            TaskError::NotFound,
        ),
        registry.finished(id, result, ended).cancelled(id, now) == registry.finished(
            id,
            result,
            ended,
        ),
{
    let i = registry.task_index(id);
    assert(registry.tasks[i].id == id);
    lemma_cancel_twice(registry, id, now, now);
    let cancelled = registry.cancelled(id, now);
    lemma_cancelled_well_formed(registry, id, now);
    let record = task_cancelled(registry.task(id), now);
    lemma_records_after(registry.tasks, i, record, id);
    assert(cancelled.has_task(id));
    let j = cancelled.task_index(id);
    lemma_records_after(cancelled.tasks, j, task_finished(record, result, ended), id);
    let finished = registry.finished(id, result, ended);
    lemma_finished_well_formed(registry, id, result, ended);
    lemma_records_after(registry.tasks, i, task_finished(registry.task(id), result, ended), id);
    if finished.has_context(id) {
        let c = finished.context_index(id);
        assert(finished.contexts[c].id == id);
        assert(registry.has_context(id));
        let removed = registry.context_index(id);
        assert(registry.contexts[removed].id == id);
        let source = if c < removed {
            c
        } else {
            c + 1
        };
        assert(finished.contexts[c] == registry.contexts[source]);
    }
}

/// A cleanup removes a job exactly where the job has come to its end at a
/// time that lies more than `older_than` before `now`: a job that ended
/// exactly `older_than` before `now` stays, and so does every job that has
/// not come to its end.
pub proof fn lemma_cleanup_boundary(registry: RegistryView, older_than: u64, now: u64, id: u128)
    requires
        registry.well_formed(),
        registry.has_task(id),
    ensures
        ({
            let task = registry.task(id);
            let found = registry.cleaned(older_than, now).lookup(id);
            &&& !task.status.terminal() ==> found == Some(task)
            &&& task.completed_at is None ==> found == Some(task)
            &&& task.completed_at matches Some(completed) ==> {
                &&& completed + older_than >= now ==> found == Some(task)
                &&& task.status.terminal() && completed + older_than < now ==> found is None
            }
        }),
{
    lemma_cleaned_lookup(registry, older_than, now, id);
}

/// Whether no two of `candidates` are the same.
pub open spec fn distinct_ids(candidates: Seq<u128>) -> bool {
    forall|i: int, j: int|
        0 <= i < candidates.len() && 0 <= j < candidates.len() && i != j ==> candidates[i]
            != candidates[j]
}

/// Among more identifiers than there are jobs, all different, one is of no
/// job.
pub proof fn lemma_some_id_is_free(tasks: Seq<TaskInfoView>, candidates: Seq<u128>)
    requires
        candidates.len() > tasks.len(),
        distinct_ids(candidates),
    ensures
        exists|k: int| 0 <= k < candidates.len() && !holds_task(tasks, #[trigger] candidates[k]),
    decreases tasks.len(),
{
    if tasks.len() == 0 {
        assert(!holds_task(tasks, candidates[0]));
    } else {
        let taken = tasks.last().id;
        let earlier = tasks.drop_last();
        if exists|j: int| 0 <= j < candidates.len() && candidates[j] == taken {
            let j = choose|j: int| 0 <= j < candidates.len() && candidates[j] == taken;
            let others = candidates.remove(j);
            assert forall|a: int, b: int|
                0 <= a < others.len() && 0 <= b < others.len() && a != b implies others[a]
                != others[b] by {
                let source_a = if a < j {
                    a
                } else {
                    a + 1
                };
                let source_b = if b < j {
                    b
                } else {
                    b + 1
                };
                assert(others[a] == candidates[source_a]);
                assert(others[b] == candidates[source_b]);
            }
            lemma_some_id_is_free(earlier, others);
            let k = choose|k: int|
                0 <= k < others.len() && !holds_task(earlier, #[trigger] others[k]);
            let source = if k < j {
                k
            } else {
                k + 1
            };
            assert(others[k] == candidates[source]);
            if holds_task(tasks, candidates[source]) {
                let i = index_of_task(tasks, candidates[source]);
                if i < earlier.len() {
                    assert(earlier[i].id == candidates[source]);
                }
            }
        } else {
            lemma_some_id_is_free(earlier, candidates);
            let k = choose|k: int|
                0 <= k < candidates.len() && !holds_task(earlier, #[trigger] candidates[k]);
            if holds_task(tasks, candidates[k]) {
                let i = index_of_task(tasks, candidates[k]);
                if i < earlier.len() {
                    assert(earlier[i].id == candidates[k]);
                }
            }
        }
    }
}

/// The identifier that stands `offset` after `base`.
pub open spec fn id_after(base: u128, offset: int) -> u128 {
    (base + offset) as u128
}

/// Where the search for a free identifier begins when `drawn` is taken and
/// there are `count` jobs: at `drawn`, or at 0 where fewer than `count`
/// identifiers follow `drawn`.
pub open spec fn search_base(drawn: u128, count: nat) -> u128 {
    if drawn + count > u128::MAX {
        0
    } else {
        drawn
    }
}

/// Whether `id` is the identifier that a new job gets where `drawn` was
/// drawn for it: `drawn` itself where no job has it, else the first
/// identifier from the base of the search on that no job has.
pub open spec fn is_free_id(tasks: Seq<TaskInfoView>, drawn: u128, id: u128) -> bool {
    &&& !holds_task(tasks, id)
    &&& if !holds_task(tasks, drawn) {
        id == drawn
    } else {
        let base = search_base(drawn, tasks.len());
        &&& base <= id <= base + tasks.len()
        &&& forall|j: int| 0 <= j < id - base ==> holds_task(tasks, #[trigger] id_after(base, j))
    }
}

/// The invocation that carries out the job of the record `task`: that of
/// its kind, from its parameters. The kinds other than clip and merge are
/// not provided for.
pub open spec fn command_for(task: TaskInfoView) -> Result<Seq<Seq<char>>, TaskError> {
    match task.task_type {
        TaskType::ClipVideo => match task.params {
            TaskParamsView::Clip(p) => clip_command(p),
            TaskParamsView::Merge(_) => Err(TaskError::InvalidParameters),
        },
        TaskType::MergeVideos => match task.params {
            TaskParamsView::Merge(p) => merge_command(p),
            TaskParamsView::Clip(_) => Err(TaskError::InvalidParameters),
        },
        TaskType::ConvertFormat => Err(TaskError::NotImplemented),
        TaskType::ExtractAudio => Err(TaskError::NotImplemented),
    }
}

/// How long the work of a job with the parameters `params` lasts, in
/// milliseconds, where that is known from the parameters: a clip lasts from
/// its start to its end.
pub open spec fn duration_of(params: TaskParamsView) -> Option<u64> {
    match params {
        TaskParamsView::Clip(p) => if p.end_time >= p.start_time {
            Some((p.end_time - p.start_time) as u64)
        } else {
            None
        },
        TaskParamsView::Merge(_) => None,
    }
}

} // verus!
