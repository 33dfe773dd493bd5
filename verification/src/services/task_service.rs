//! The job registry: the records of all jobs, the rule that bounds how many
//! run at once, and the lifecycle that each job goes through.

use vstd::prelude::*;
use vstd::string::StringExecFns;
use crate::models::task::{
    summary_of, TaskError, TaskInfo, TaskInfoView, TaskParams, TaskParamsView, TaskProgress,
    TaskStatus, TaskSummary, TaskType, FULL_PERCENTAGE,
};
use crate::models::video::{ClipParams, MergeParams};
use crate::services::ffmpeg_service::{result_view, ExecutionError, ProgressUpdate};
use crate::services::task_model::{
    command_for, count_running, distinct_contexts, distinct_tasks, duration_of, holds_context,
    holds_task, id_after, index_of_context, index_of_task, is_free_id,
    lemma_cancelled_well_formed, lemma_cleaned_well_formed, lemma_context_at,
    lemma_created_well_formed, lemma_finished_well_formed, lemma_progressed_well_formed,
    lemma_some_id_is_free, lemma_started_well_formed, lemma_task_at, new_task, removable,
    search_base, task_cancelled, task_finished, task_progressed, task_started, valid_params,
    ContextView, RegistryView,
};
use crate::services::video_service::{
    command_view, valid_clip, valid_merge, validate_clip, validate_merge, VideoService,
};
use crate::text::{clone_opt_string, clone_strings, opt_view, views};

verus! {

/// The sending half of a `tokio` one-shot channel.
#[verifier::external_type_specification]
#[verifier::external_body]
#[verifier::reject_recursive_types(T)]
pub struct ExSender<T>(tokio::sync::oneshot::Sender<T>);

/// The receiving half of a `tokio` one-shot channel.
#[verifier::external_type_specification]
#[verifier::external_body]
#[verifier::reject_recursive_types(T)]
pub struct ExReceiver<T>(tokio::sync::oneshot::Receiver<T>);

/// The error of a `tokio` one-shot receiver whose sender is gone.
#[verifier::external_type_specification]
#[verifier::external_body]
pub struct ExRecvError(tokio::sync::oneshot::error::RecvError);

/// Draws an identifier for a new job with `uuid::Uuid::new_v4`, as a
/// number. It is random: nothing is claimed of it.
#[verifier::external_body]
fn fresh_task_id() -> u128 {
    uuid::Uuid::new_v4().as_u128()
}

/// Reads the clock with `std::time::SystemTime::elapsed` on the Unix epoch:
/// the milliseconds since then, or `None` where the clock stands before it.
/// Nothing is claimed of the time.
#[verifier::external_body]
fn millis_since_epoch() -> Option<u128> {
    match std::time::UNIX_EPOCH.elapsed() {
        Ok(since) => Some(since.as_millis()),
        Err(_) => None,
    }
}

/// The time that the clock shows, in milliseconds since the Unix epoch, as
/// [`millis_of_reading`] takes it from the reading of the clock.
fn current_millis() -> u64 {
    millis_of_reading(millis_since_epoch())
}

/// The time that a reading of the clock stands for, in milliseconds since
/// the Unix epoch: 0 where the clock stood before the epoch, and the
/// greatest number of 64 bits where the reading is more than that.
pub open spec fn reading_millis(reading: Option<u128>) -> u64 {
    match reading {
        Some(millis) => if millis > u64::MAX {
            u64::MAX
        } else {
            millis as u64
        },
        None => 0,
    }
}

/// Takes the time from a reading of the clock: the milliseconds since the
/// Unix epoch, or `None` where the clock stood before it.
pub fn millis_of_reading(reading: Option<u128>) -> (millis: u64)
    ensures
        millis == reading_millis(reading),
{
    match reading {
        Some(millis) => if millis > u64::MAX as u128 {
            u64::MAX
        } else {
            millis as u64
        },
        None => 0,
    }
}

/// Makes the cancellation signal of a job with
/// `tokio::sync::oneshot::channel`: the half that fires it and the half that
/// observes it.
#[verifier::external_body]
fn cancel_channel() -> (tokio::sync::oneshot::Sender<()>, tokio::sync::oneshot::Receiver<()>) {
    tokio::sync::oneshot::channel()
}

/// Fires a cancellation signal with `tokio::sync::oneshot::Sender::send`,
/// which uses the sender up. Whether anyone was there to observe it is
/// returned, and nothing is claimed of that.
#[verifier::external_body]
fn fire_cancel(cancel_tx: tokio::sync::oneshot::Sender<()>) -> bool {
    cancel_tx.send(()).is_ok()
}

/// The execution context of a job that is being driven: its cancellation
/// signal, until that is fired.
struct TaskContext {
    id: u128,
    cancel_tx: Option<tokio::sync::oneshot::Sender<()>>,
}

/// The views of the records `tasks`.
pub open spec fn task_views(tasks: Seq<TaskInfo>) -> Seq<TaskInfoView> {
    Seq::new(tasks.len(), |i: int| tasks[i]@)
}

spec fn context_views(contexts: Seq<TaskContext>) -> Seq<ContextView> {
    Seq::new(
        contexts.len(),
        |i: int| ContextView { id: contexts[i].id, armed: contexts[i].cancel_tx is Some },
    )
}

fn find_task(tasks: &Vec<TaskInfo>, id: u128) -> (found: Option<usize>)
    requires
        distinct_tasks(task_views(tasks@)),
    ensures
        match found {
            Some(i) => i < tasks@.len() && tasks@[i as int].id == id && holds_task(
                task_views(tasks@),
                id,
            ) && index_of_task(task_views(tasks@), id) == i,
            None => !holds_task(task_views(tasks@), id),
        },
{
    let mut i: usize = 0;
    while i < tasks.len()
        invariant
            i <= tasks.len(),
            distinct_tasks(task_views(tasks@)),
            forall|j: int| 0 <= j < i ==> tasks@[j].id != id,
        decreases tasks.len() - i,
    {
        if tasks[i].id == id {
            proof {
                assert(task_views(tasks@)[i as int].id == id);
                lemma_task_at(task_views(tasks@), i as int);
            }
            return Some(i);
        }
        i += 1;
    }
    proof {
        if holds_task(task_views(tasks@), id) {
            let j = index_of_task(task_views(tasks@), id);
            assert(task_views(tasks@)[j].id == tasks@[j].id);
        }
    }
    None
}

fn find_context(contexts: &Vec<TaskContext>, id: u128) -> (found: Option<usize>)
    requires
        distinct_contexts(context_views(contexts@)),
    ensures
        match found {
            Some(i) => i < contexts@.len() && contexts@[i as int].id == id && holds_context(
                context_views(contexts@),
                id,
            ) && index_of_context(context_views(contexts@), id) == i,
            None => !holds_context(context_views(contexts@), id),
        },
{
    let mut i: usize = 0;
    while i < contexts.len()
        invariant
            i <= contexts.len(),
            distinct_contexts(context_views(contexts@)),
            forall|j: int| 0 <= j < i ==> contexts@[j].id != id,
        decreases contexts.len() - i,
    {
        if contexts[i].id == id {
            proof {
                assert(context_views(contexts@)[i as int].id == id);
                lemma_context_at(context_views(contexts@), i as int);
            }
            return Some(i);
        }
        i += 1;
    }
    proof {
        if holds_context(context_views(contexts@), id) {
            let j = index_of_context(context_views(contexts@), id);
            assert(context_views(contexts@)[j].id == contexts@[j].id);
        }
    }
    None
}

fn unused_id(tasks: &Vec<TaskInfo>, drawn: u128) -> (id: u128)
    requires
        distinct_tasks(task_views(tasks@)),
    ensures
        is_free_id(task_views(tasks@), drawn, id),
{
    if find_task(tasks, drawn).is_none() {
        return drawn;
    }
    let count = tasks.len();
    let base: u128 = if drawn > u128::MAX - (count as u128) {
        0
    } else {
        drawn
    };
    let mut tried: usize = 0;
    let mut candidate: u128 = base;
    while tried < count
        invariant
            tried <= count,
            count == tasks@.len(),
            base + count <= u128::MAX,
            base == search_base(drawn, count as nat),
            candidate == base + tried,
            distinct_tasks(task_views(tasks@)),
            holds_task(task_views(tasks@), drawn),
            forall|j: int|
                0 <= j < tried ==> holds_task(task_views(tasks@), #[trigger] id_after(base, j)),
        decreases count - tried,
    {
        if find_task(tasks, candidate).is_none() {
            return candidate;
        }
        assert(candidate == id_after(base, tried as int));
        tried += 1;
        candidate += 1;
    }
    proof {
        let candidates = Seq::new((count + 1) as nat, |j: int| id_after(base, j));
        lemma_some_id_is_free(task_views(tasks@), candidates);
        let k = choose|k: int|
            0 <= k < candidates.len() && !holds_task(task_views(tasks@), #[trigger] candidates[k]);
        assert(candidates[k] == id_after(base, k));
        assert(k == count);
    }
    candidate
}

fn is_removable(task: &TaskInfo, older_than: u64, now: u64) -> (gone: bool)
    ensures
        gone == removable(task@, older_than, now),
{
    if !task.status.is_terminal() {
        return false;
    }
    match task.completed_at {
        Some(completed) => (completed as u128) + (older_than as u128) < now as u128,
        None => false,
    }
}

/// The milliseconds of a day.
pub const MILLIS_PER_DAY: u64 = 86_400_000;

/// The milliseconds of `days` days, or the greatest number of 64 bits where
/// they are more than that.
pub open spec fn millis_of_days(days: u64) -> u64 {
    if days * MILLIS_PER_DAY > u64::MAX {
        u64::MAX
    } else {
        (days * MILLIS_PER_DAY) as u64
    }
}

/// Converts an age in days into milliseconds, as a cleanup takes it.
pub fn days_to_millis(days: u64) -> (millis: u64)
    ensures
        millis == millis_of_days(days),
{
    match days.checked_mul(MILLIS_PER_DAY) {
        Some(millis) => millis,
        None => u64::MAX,
    }
}

/// The records and the execution contexts of the jobs, and the number of
/// jobs that may run at once. Its operations take a state that is well
/// formed and leave one.
struct Registry {
    tasks: Vec<TaskInfo>,
    task_contexts: Vec<TaskContext>,
    max_concurrent_tasks: usize,
}

impl View for Registry {
    type V = RegistryView;

    closed spec fn view(&self) -> RegistryView {
        RegistryView {
            tasks: task_views(self.tasks@),
            contexts: context_views(self.task_contexts@),
            max_concurrent_tasks: self.max_concurrent_tasks,
        }
    }
}

/// The number of jobs that may run at once where nothing else is set.
pub const DEFAULT_MAX_CONCURRENT_TASKS: usize = 2;

impl Registry {
    fn new() -> (registry: Self)
        ensures
            registry@.tasks.len() == 0,
            registry@.contexts.len() == 0,
            registry@.max_concurrent_tasks == DEFAULT_MAX_CONCURRENT_TASKS,
            registry@.well_formed(),
    {
        Registry {
            tasks: Vec::new(),
            task_contexts: Vec::new(),
            max_concurrent_tasks: DEFAULT_MAX_CONCURRENT_TASKS,
        }
    }

    fn set_max_concurrent_tasks(&mut self, max: usize)
        ensures
            final(self)@ == (RegistryView { max_concurrent_tasks: max, ..old(self)@ }),
    {
        self.max_concurrent_tasks = max;
    }

    fn get_running_tasks_count(&self) -> (count: usize)
        ensures
            count == self@.running_count(),
    {
        let mut count: usize = 0;
        let mut i: usize = 0;
        proof {
            assert(self@.tasks.take(0) =~= Seq::<TaskInfoView>::empty());
        }
        while i < self.tasks.len()
            invariant
                i <= self.tasks.len(),
                count <= i,
                count == count_running(self@.tasks.take(i as int)),
            decreases self.tasks.len() - i,
        {
            proof {
                assert(self@.tasks.take(i + 1).drop_last() =~= self@.tasks.take(i as int));
                assert(self@.tasks.take(i + 1).last() == self.tasks@[i as int]@);
            }
            match self.tasks[i].status {
                TaskStatus::Running => {
                    count += 1;
                },
                _ => {},
            }
            i += 1;
        }
        proof {
            assert(self@.tasks.take(self.tasks.len() as int) =~= self@.tasks);
        }
        count
    }

    fn insert_task(&mut self, params: TaskParams, id: u128, now: u64) -> (result: Result<
        u128,
        TaskError,
    >)
        requires
            old(self)@.well_formed(),
            valid_params(params@),
        ensures
            result == old(self)@.create_result(params@, id),
            final(self)@ == old(self)@.created(params@, id, now),
            final(self)@.well_formed(),
    {
        proof {
            lemma_created_well_formed(self@, params@, id, now);
        }
        if find_task(&self.tasks, id).is_some() {
            return Err(TaskError::IdInUse);
        }
        let (task_type, input_paths, output_path) = match &params {
            TaskParams::Clip(p) => {
                let mut inputs: Vec<String> = Vec::new();
                inputs.push(p.input_path.clone());
                assert(views(inputs@) =~= seq![p.input_path@]);
                (TaskType::ClipVideo, inputs, p.output_path.clone())
            },
            TaskParams::Merge(p) => (
                TaskType::MergeVideos,
                clone_strings(&p.input_paths),
                p.output_path.clone(),
            ),
        };
        let task_info = TaskInfo {
            id,
            task_type,
            status: TaskStatus::Pending,
            progress: TaskProgress {
                percentage: 0,
                current: 0,
                total: 100,
                message: Some(String::from_str("任务已创建，等待执行")),
                error: None,
            },
            created_at: now,
            started_at: None,
            completed_at: None,
            input_paths,
            output_path: Some(output_path),
            params,
        };
        assert(task_info@ == new_task(id, params@, now));
        self.tasks.push(task_info);
        assert(self@.tasks =~= old(self)@.tasks.push(new_task(id, params@, now)));
        Ok(id)
    }

    fn available_id(&self, drawn: u128) -> (id: u128)
        requires
            self@.well_formed(),
        ensures
            is_free_id(self@.tasks, drawn, id),
    {
        unused_id(&self.tasks, drawn)
    }

    fn start_task_at(&mut self, task_id: u128, now: u64) -> (result: Result<
        tokio::sync::oneshot::Receiver<()>,
        TaskError,
    >)
        requires
            old(self)@.well_formed(),
        ensures
            result is Ok <==> old(self)@.start_result(task_id) is Ok,
            result matches Err(e) ==> old(self)@.start_result(task_id) == Err::<(), TaskError>(e),
            final(self)@ == old(self)@.started(task_id, now),
            final(self)@.well_formed(),
    {
        proof {
            lemma_started_well_formed(self@, task_id, now);
        }
        let index = match find_task(&self.tasks, task_id) {
            Some(index) => index,
            None => {
                return Err(TaskError::NotFound);
            },
        };
        match self.tasks[index].status {
            TaskStatus::Pending => {},
            _ => {
                return Err(TaskError::InvalidState);
            },
        }
        if self.get_running_tasks_count() >= self.max_concurrent_tasks {
            return Err(TaskError::TooManyConcurrentJobs);
        }
        self.tasks[index].status = TaskStatus::Running;
        self.tasks[index].started_at = Some(now);
        self.tasks[index].progress.message = Some(String::from_str("任务开始执行"));
        let (cancel_tx, cancel_rx) = cancel_channel();
        self.task_contexts.push(TaskContext { id: task_id, cancel_tx: Some(cancel_tx) });
        proof {
            assert(self@.tasks =~= old(self)@.tasks.update(
                index as int,
                task_started(old(self)@.task(task_id), now),
            ));
            assert(self@.contexts =~= old(self)@.contexts.push(
                ContextView { id: task_id, armed: true },
            ));
        }
        Ok(cancel_rx)
    }

    fn update_progress(
        &mut self,
        task_id: u128,
        percentage: u32,
        message: Option<String>,
        error: Option<String>,
    )
        requires
            old(self)@.well_formed(),
        ensures
            final(self)@ == old(self)@.progressed(
                task_id,
                percentage,
                opt_view(message),
                opt_view(error),
            ),
            final(self)@.well_formed(),
    {
        proof {
            lemma_progressed_well_formed(
                self@,
                task_id,
                percentage,
                opt_view(message),
                opt_view(error),
            );
        }
        let index = match find_task(&self.tasks, task_id) {
            Some(index) => index,
            None => {
                return ;
            },
        };
        match self.tasks[index].status {
            TaskStatus::Running => {
                let held = if percentage > FULL_PERCENTAGE {
                    FULL_PERCENTAGE
                } else {
                    percentage
                };
                if held > self.tasks[index].progress.percentage {
                    self.tasks[index].progress.percentage = held;
                }
                match message {
                    Some(text) => {
                        self.tasks[index].progress.message = Some(text);
                    },
                    None => {},
                }
                match error {
                    Some(text) => {
                        self.tasks[index].progress.error = Some(text);
                    },
                    None => {},
                }
            },
            _ => {},
        }
        proof {
            assert(self@.tasks =~= old(self)@.tasks.update(
                index as int,
                task_progressed(
                    old(self)@.task(task_id),
                    percentage,
                    opt_view(message),
                    opt_view(error),
                ),
            ));
        }
    }

    fn finish_task_at(&mut self, task_id: u128, result: Result<(), ExecutionError>, now: u64)
        requires
            old(self)@.well_formed(),
        ensures
            final(self)@ == old(self)@.finished(task_id, result_view(result), now),
            final(self)@.well_formed(),
    {
        let ghost outcome = result_view(result);
        proof {
            lemma_finished_well_formed(self@, task_id, outcome, now);
        }
        match find_task(&self.tasks, task_id) {
            Some(index) => {
                match self.tasks[index].status {
                    TaskStatus::Running => {
                        self.tasks[index].completed_at = Some(now);
                        match &result {
                            Ok(_) => {
                                self.tasks[index].status = TaskStatus::Completed;
                                self.tasks[index].progress.percentage = FULL_PERCENTAGE;
                                self.tasks[index].progress.message = Some(
                                    String::from_str("任务执行完成"),
                                );
                                self.tasks[index].progress.error = None;
                            },
                            Err(ExecutionError::Cancelled) => {
                                self.tasks[index].status = TaskStatus::Cancelled;
                                self.tasks[index].progress.message = Some(
                                    String::from_str("任务已取消"),
                                );
                            },
                            Err(e) => {
                                self.tasks[index].status = TaskStatus::Failed;
                                self.tasks[index].progress.message = Some(
                                    String::from_str("任务执行失败"),
                                );
                                self.tasks[index].progress.error = Some(e.message());
                            },
                        }
                    },
                    _ => {},
                }
                proof {
                    assert(self@.tasks =~= old(self)@.tasks.update(
                        index as int,
                        task_finished(old(self)@.task(task_id), outcome, now),
                    ));
                }
            },
            None => {},
        }
        match find_context(&self.task_contexts, task_id) {
            Some(index) => {
                let _ = self.task_contexts.remove(index);
                proof {
                    assert(self@.contexts =~= old(self)@.contexts.remove(index as int));
                }
            },
            None => {},
        }
    }

    fn cancel_task_at(&mut self, task_id: u128, now: u64) -> (result: Result<(), TaskError>)
        requires
            old(self)@.well_formed(),
        ensures
            result == old(self)@.cancel_result(task_id),
            final(self)@ == old(self)@.cancelled(task_id, now),
            final(self)@.well_formed(),
    {
        proof {
            lemma_cancelled_well_formed(self@, task_id, now);
        }
        let context_index = match find_context(&self.task_contexts, task_id) {
            Some(index) => index,
            None => {
                return Err(TaskError::NotFound);
            },
        };
        let cancel_tx = match self.task_contexts[context_index].cancel_tx.take() {
            Some(cancel_tx) => cancel_tx,
            None => {
                assert(self@.contexts =~= old(self)@.contexts);
                return Err(TaskError::AlreadyTerminal);
            },
        };
        let _ = fire_cancel(cancel_tx);
        match find_task(&self.tasks, task_id) {
            Some(index) => {
                match self.tasks[index].status {
                    TaskStatus::Running => {
                        self.tasks[index].status = TaskStatus::Cancelled;
                        self.tasks[index].completed_at = Some(now);
                        self.tasks[index].progress.message = Some(
                            String::from_str("任务已取消"),
                        );
                    },
                    _ => {},
                }
                proof {
                    assert(self@.tasks =~= old(self)@.tasks.update(
                        index as int,
                        task_cancelled(old(self)@.task(task_id), now),
                    ));
                }
            },
            None => {},
        }
        proof {
            assert(self@.contexts =~= old(self)@.contexts.update(
                context_index as int,
                ContextView { id: task_id, armed: false },
            ));
        }
        Ok(())
    }

    fn get_task_status(&self, task_id: u128) -> (snapshot: Option<TaskInfo>)
        requires
            self@.well_formed(),
        ensures
            match snapshot {
                Some(task) => self@.lookup(task_id) == Some(task@),
                None => self@.lookup(task_id) is None,
            },
    {
        match find_task(&self.tasks, task_id) {
            Some(index) => Some(self.tasks[index].clone()),
            None => None,
        }
    }

    fn get_all_tasks(&self) -> (summaries: Vec<TaskSummary>)
        ensures
            summaries@.len() == self@.tasks.len(),
            forall|i: int|
                0 <= i < summaries@.len() ==> (#[trigger] summaries@[i])@ == summary_of(
                    self@.tasks[i],
                ),
    {
        let mut summaries: Vec<TaskSummary> = Vec::new();
        let mut i: usize = 0;
        while i < self.tasks.len()
            invariant
                i <= self.tasks.len(),
                summaries@.len() == i,
                forall|j: int|
                    0 <= j < i ==> (#[trigger] summaries@[j])@ == summary_of(self.tasks@[j]@),
            decreases self.tasks.len() - i,
        {
            summaries.push(self.tasks[i].summary());
            i += 1;
        }
        summaries
    }

    fn task_duration(&self, task_id: u128) -> (duration: Option<u64>)
        requires
            self@.well_formed(),
        ensures
            duration == match self@.lookup(task_id) {
                Some(task) => duration_of(task.params),
                None => None,
            },
    {
        match find_task(&self.tasks, task_id) {
            Some(index) => match &self.tasks[index].params {
                TaskParams::Clip(p) => {
                    if p.end_time >= p.start_time {
                        Some(p.end_time - p.start_time)
                    } else {
                        None
                    }
                },
                TaskParams::Merge(_) => None,
            },
            None => None,
        }
    }

    fn cleanup_tasks_at(&mut self, older_than: u64, now: u64) -> (removed_count: usize)
        requires
            old(self)@.well_formed(),
        ensures
            final(self)@ == old(self)@.cleaned(older_than, now),
            removed_count == old(self)@.tasks.len() - final(self)@.tasks.len(),
            final(self)@.well_formed(),
    {
        let ghost before = self@;
        let ghost keep = |task: TaskInfoView| !removable(task, older_than, now);
        let ghost keep_context = |c: ContextView|
            !(before.has_task(c.id) && removable(before.task(c.id), older_than, now));
        let total = self.tasks.len();
        proof {
            lemma_cleaned_well_formed(before, older_than, now);
            reveal(Seq::filter);
        }
        let mut at: usize = 0;
        let ghost mut seen: int = 0;
        proof {
            assert(before.contexts.take(0) =~= Seq::<ContextView>::empty());
            assert(before.contexts.skip(0) =~= before.contexts);
            assert(self@.contexts =~= before.contexts.take(0).filter(keep_context)
                + before.contexts.skip(0));
        }
        while at < self.task_contexts.len()
            invariant
                before.well_formed(),
                self@.tasks == before.tasks,
                self.max_concurrent_tasks == old(self).max_concurrent_tasks,
                total == before.tasks.len(),
                0 <= seen <= before.contexts.len(),
                at == before.contexts.take(seen).filter(keep_context).len(),
                self@.contexts == before.contexts.take(seen).filter(keep_context)
                    + before.contexts.skip(seen),
                keep_context == (|c: ContextView|
                    !(before.has_task(c.id) && removable(before.task(c.id), older_than, now))),
            decreases before.contexts.len() - seen,
        {
            let ghost current = self@.contexts;
            proof {
                reveal(Seq::filter);
                assert(self@.contexts.len() == at + before.contexts.len() - seen);
                assert(current[at as int] == before.contexts[seen]);
                assert(before.contexts.take(seen + 1).drop_last() =~= before.contexts.take(seen));
                assert(before.contexts.take(seen + 1).last() == before.contexts[seen]);
            }
            let id = self.task_contexts[at].id;
            let gone = match find_task(&self.tasks, id) {
                Some(index) => is_removable(&self.tasks[index], older_than, now),
                None => false,
            };
            assert(gone == !keep_context(before.contexts[seen]));
            if gone {
                let _ = self.task_contexts.remove(at);
                proof {
                    assert(self@.contexts =~= current.remove(at as int));
                    assert(self@.contexts =~= before.contexts.take(seen + 1).filter(keep_context)
                        + before.contexts.skip(seen + 1));
                }
            } else {
                at += 1;
                proof {
                    assert(self@.contexts =~= before.contexts.take(seen + 1).filter(keep_context)
                        + before.contexts.skip(seen + 1));
                }
            }
            proof {
                seen = seen + 1;
            }
        }
        proof {
            assert(self@.contexts.len() == at + before.contexts.len() - seen);
            assert(before.contexts.take(seen) =~= before.contexts);
            assert(self@.contexts =~= before.contexts.filter(keep_context));
        }
        let mut removed_count: usize = 0;
        let mut at: usize = 0;
        let ghost mut seen: int = 0;
        proof {
            assert(before.tasks.take(0) =~= Seq::<TaskInfoView>::empty());
            assert(before.tasks.skip(0) =~= before.tasks);
            assert(self@.tasks =~= before.tasks.take(0).filter(keep) + before.tasks.skip(0));
        }
        while at < self.tasks.len()
            invariant
                self@.contexts == before.contexts.filter(keep_context),
                self.max_concurrent_tasks == old(self).max_concurrent_tasks,
                total == before.tasks.len(),
                0 <= seen <= before.tasks.len(),
                at == before.tasks.take(seen).filter(keep).len(),
                removed_count == seen - at,
                self@.tasks == before.tasks.take(seen).filter(keep) + before.tasks.skip(seen),
                keep == (|task: TaskInfoView| !removable(task, older_than, now)),
            decreases before.tasks.len() - seen,
        {
            let ghost current = self@.tasks;
            proof {
                reveal(Seq::filter);
                assert(self@.tasks.len() == at + before.tasks.len() - seen);
                assert(current[at as int] == before.tasks[seen]);
                assert(before.tasks.take(seen + 1).drop_last() =~= before.tasks.take(seen));
                assert(before.tasks.take(seen + 1).last() == before.tasks[seen]);
            }
            if is_removable(&self.tasks[at], older_than, now) {
                let _ = self.tasks.remove(at);
                removed_count += 1;
                proof {
                    assert(self@.tasks =~= current.remove(at as int));
                    assert(self@.tasks =~= before.tasks.take(seen + 1).filter(keep)
                        + before.tasks.skip(seen + 1));
                }
            } else {
                at += 1;
                proof {
                    assert(self@.tasks =~= before.tasks.take(seen + 1).filter(keep)
                        + before.tasks.skip(seen + 1));
                }
            }
            proof {
                seen = seen + 1;
            }
        }
        proof {
            assert(self@.tasks.len() == at + before.tasks.len() - seen);
            assert(before.tasks.take(seen) =~= before.tasks);
            assert(self@.tasks =~= before.tasks.filter(keep));
        }
        removed_count
    }

    fn record(&self, task_id: u128) -> (found: Option<&TaskInfo>)
        requires
            self@.well_formed(),
        ensures
            match found {
                Some(task) => self@.lookup(task_id) == Some(task@),
                None => self@.lookup(task_id) is None,
            },
    {
        match find_task(&self.tasks, task_id) {
            Some(index) => Some(&self.tasks[index]),
            None => None,
        }
    }
}

/// The job registry.
pub struct TaskService {
    video_service: VideoService,
    registry: Registry,
}

impl View for TaskService {
    type V = RegistryView;

    closed spec fn view(&self) -> RegistryView {
        self.registry@
    }
}

impl TaskService {
    #[verifier::type_invariant]
    spec fn holds_together(self) -> bool {
        self.registry@.well_formed()
    }

    /// The video operations that the jobs are carried out with.
    pub closed spec fn operations(&self) -> VideoService {
        self.video_service
    }

    /// The video operations that the jobs are carried out with.
    pub fn video_service(&self) -> (service: &VideoService)
        ensures
            *service == self.operations(),
    {
        &self.video_service
    }

    /// A registry without jobs, in which two jobs may run at once.
    pub fn new(video_service: VideoService) -> (service: Self)
        ensures
            service@.tasks.len() == 0,
            service@.contexts.len() == 0,
            service@.max_concurrent_tasks == DEFAULT_MAX_CONCURRENT_TASKS,
            service@.well_formed(),
            service.operations() == video_service,
    {
        TaskService { video_service, registry: Registry::new() }
    }

    /// Sets the number of jobs that may run at once.
    pub fn set_max_concurrent_tasks(&mut self, max: usize)
        ensures
            final(self)@ == (RegistryView { max_concurrent_tasks: max, ..old(self)@ }),
            final(self)@.well_formed(),
            final(self).operations() == old(self).operations(),
    {
        proof {
            use_type_invariant(&*self);
        }
        let mut registry = Registry::new();
        core::mem::swap(&mut self.registry, &mut registry);
        registry.set_max_concurrent_tasks(max);
        self.registry = registry;
    }

    /// The number of jobs that are running.
    pub fn get_running_tasks_count(&self) -> (count: usize)
        ensures
            count == self@.running_count(),
            self@.well_formed(),
    {
        proof {
            use_type_invariant(self);
        }
        self.registry.get_running_tasks_count()
    }

    /// Creates a clip job under the identifier `id` at the time `now`. The
    /// job is pending. Parameters that are not valid are refused, and so is
    /// an identifier that another job has.
    pub fn create_clip_task_with(&mut self, params: ClipParams, id: u128, now: u64) -> (result:
        Result<u128, TaskError>)
        ensures
            result == old(self)@.create_result(TaskParamsView::Clip(params@), id),
            final(self)@ == old(self)@.created(TaskParamsView::Clip(params@), id, now),
            old(self)@.well_formed(),
            final(self)@.well_formed(),
            final(self).operations() == old(self).operations(),
    {
        proof {
            use_type_invariant(&*self);
        }
        if !validate_clip(&params) {
            return Err(TaskError::InvalidParameters);
        }
        let mut registry = Registry::new();
        core::mem::swap(&mut self.registry, &mut registry);
        let result = registry.insert_task(TaskParams::Clip(params), id, now);
        self.registry = registry;
        result
    }

    /// Creates a merge job under the identifier `id` at the time `now`. The
    /// job is pending. Parameters that are not valid are refused, and so is
    /// an identifier that another job has.
    pub fn create_merge_task_with(&mut self, params: MergeParams, id: u128, now: u64) -> (result:
        Result<u128, TaskError>)
        ensures
            result == old(self)@.create_result(TaskParamsView::Merge(params@), id),
            final(self)@ == old(self)@.created(TaskParamsView::Merge(params@), id, now),
            old(self)@.well_formed(),
            final(self)@.well_formed(),
            final(self).operations() == old(self).operations(),
    {
        proof {
            use_type_invariant(&*self);
        }
        if !validate_merge(&params) {
            return Err(TaskError::InvalidParameters);
        }
        let mut registry = Registry::new();
        core::mem::swap(&mut self.registry, &mut registry);
        let result = registry.insert_task(TaskParams::Merge(params), id, now);
        self.registry = registry;
        result
    }

    /// The identifier that a new job gets where `drawn` was drawn for it:
    /// `drawn` itself where no job has it, else the next one after it that
    /// no job has. There always is one.
    pub fn available_id(&self, drawn: u128) -> (id: u128)
        ensures
            is_free_id(self@.tasks, drawn, id),
            self@.well_formed(),
    {
        proof {
            use_type_invariant(self);
        }
        self.registry.available_id(drawn)
    }

    /// Creates a clip job, under an identifier that no job has and at the
    /// time that the clock shows; the identifier is drawn at random. The job
    /// is pending. Parameters that are not valid are refused with
    /// `InvalidParameters`, and nothing changes; valid ones are never
    /// refused.
    pub fn create_clip_task(&mut self, params: ClipParams) -> (result: Result<u128, TaskError>)
        ensures
            !valid_clip(params@) ==> result == Err::<u128, TaskError>(
                TaskError::InvalidParameters,
            ) && final(self)@ == old(self)@,
            valid_clip(params@) ==> result is Ok && !old(self)@.has_task(result->Ok_0)
                && exists|now: u64|
                final(self)@ == #[trigger] old(self)@.created(
                    TaskParamsView::Clip(params@),
                    result->Ok_0,
                    now,
                ),
            old(self)@.well_formed(),
            final(self)@.well_formed(),
            final(self).operations() == old(self).operations(),
    {
        let task_id = self.available_id(fresh_task_id());
        let now = current_millis();
        assert(!old(self)@.has_task(task_id));
        let result = self.create_clip_task_with(params, task_id, now);
        assert(self@ == old(self)@.created(TaskParamsView::Clip(params@), task_id, now));
        assert(valid_clip(params@) ==> result == Ok::<u128, TaskError>(task_id));
        result
    }

    /// Creates a merge job, under an identifier that no job has and at the
    /// time that the clock shows; the identifier is drawn at random. The job
    /// is pending. Parameters that are not valid are refused with
    /// `InvalidParameters`, and nothing changes; valid ones are never
    /// refused.
    pub fn create_merge_task(&mut self, params: MergeParams) -> (result: Result<u128, TaskError>)
        ensures
            !valid_merge(params@) ==> result == Err::<u128, TaskError>(
                TaskError::InvalidParameters,
            ) && final(self)@ == old(self)@,
            valid_merge(params@) ==> result is Ok && !old(self)@.has_task(result->Ok_0)
                && exists|now: u64|
                final(self)@ == #[trigger] old(self)@.created(
                    TaskParamsView::Merge(params@),
                    result->Ok_0,
                    now,
                ),
            old(self)@.well_formed(),
            final(self)@.well_formed(),
            final(self).operations() == old(self).operations(),
    {
        let task_id = self.available_id(fresh_task_id());
        let now = current_millis();
        assert(!old(self)@.has_task(task_id));
        let result = self.create_merge_task_with(params, task_id, now);
        assert(self@ == old(self)@.created(TaskParamsView::Merge(params@), task_id, now));
        assert(valid_merge(params@) ==> result == Ok::<u128, TaskError>(task_id));
        result
    }

    /// Starts the job `task_id` at the time `now`: the job becomes running
    /// and gets its execution context, whose observing half is returned.
    /// Refused with `NotFound` where there is no such job, with
    /// `InvalidState` where it is not pending, and with
    /// `TooManyConcurrentJobs` where as many jobs are running as may; then
    /// nothing changes.
    pub fn start_task_at(&mut self, task_id: u128, now: u64) -> (result: Result<
        tokio::sync::oneshot::Receiver<()>,
        TaskError,
    >)
        ensures
            result is Ok <==> old(self)@.start_result(task_id) is Ok,
            result matches Err(e) ==> old(self)@.start_result(task_id) == Err::<(), TaskError>(e),
            final(self)@ == old(self)@.started(task_id, now),
            old(self)@.well_formed(),
            final(self)@.well_formed(),
            final(self).operations() == old(self).operations(),
    {
        proof {
            use_type_invariant(&*self);
        }
        let mut registry = Registry::new();
        core::mem::swap(&mut self.registry, &mut registry);
        let result = registry.start_task_at(task_id, now);
        self.registry = registry;
        result
    }

    /// Starts the job `task_id` at the time that the clock shows.
    pub fn start_task(&mut self, task_id: u128) -> (result: Result<
        tokio::sync::oneshot::Receiver<()>,
        TaskError,
    >)
        ensures
            result is Ok <==> old(self)@.start_result(task_id) is Ok,
            result matches Err(e) ==> old(self)@.start_result(task_id) == Err::<(), TaskError>(e),
            exists|now: u64| final(self)@ == #[trigger] old(self)@.started(task_id, now),
            old(self)@.well_formed(),
            final(self)@.well_formed(),
            final(self).operations() == old(self).operations(),
    {
        let now = current_millis();
        let result = self.start_task_at(task_id, now);
        assert(self@ == old(self)@.started(task_id, now));
        result
    }

    /// Writes what the worker of the job `task_id` reports into the record
    /// of the job, if the job is running: the percentage, which is held to
    /// the full percentage and never falls, and the message and the error
    /// where there is one.
    pub fn update_progress(
        &mut self,
        task_id: u128,
        percentage: u32,
        message: Option<String>,
        error: Option<String>,
    )
        ensures
            final(self)@ == old(self)@.progressed(
                task_id,
                percentage,
                opt_view(message),
                opt_view(error),
            ),
            old(self)@.well_formed(),
            final(self)@.well_formed(),
            final(self).operations() == old(self).operations(),
    {
        proof {
            use_type_invariant(&*self);
        }
        let mut registry = Registry::new();
        core::mem::swap(&mut self.registry, &mut registry);
        registry.update_progress(task_id, percentage, message, error);
        self.registry = registry;
    }

    /// Writes an update that was read from the tool's output into the
    /// record of the job `task_id`: its percentage, and its speed as the
    /// message.
    pub fn report_progress(&mut self, task_id: u128, update: &ProgressUpdate)
        ensures
            final(self)@ == old(self)@.progressed(task_id, update@.percentage, update@.speed, None),
            old(self)@.well_formed(),
            final(self)@.well_formed(),
            final(self).operations() == old(self).operations(),
    {
        self.update_progress(task_id, update.percentage, clone_opt_string(&update.speed), None);
    }

    /// Records that the run of the job `task_id` has ended with `result` at
    /// the time `now`. If the job is still running it becomes completed,
    /// cancelled or failed, as the result says; a job that has been
    /// cancelled meanwhile stays cancelled. The execution context is removed
    /// in any case.
    pub fn finish_task_at(&mut self, task_id: u128, result: Result<(), ExecutionError>, now: u64)
        ensures
            final(self)@ == old(self)@.finished(task_id, result_view(result), now),
            old(self)@.well_formed(),
            final(self)@.well_formed(),
            final(self).operations() == old(self).operations(),
    {
        proof {
            use_type_invariant(&*self);
        }
        let mut registry = Registry::new();
        core::mem::swap(&mut self.registry, &mut registry);
        registry.finish_task_at(task_id, result, now);
        self.registry = registry;
    }

    /// Records that the run of the job `task_id` has ended with `result`,
    /// at the time that the clock shows.
    pub fn finish_task(&mut self, task_id: u128, result: Result<(), ExecutionError>)
        ensures
            exists|now: u64|
                final(self)@ == #[trigger] old(self)@.finished(task_id, result_view(result), now),
            old(self)@.well_formed(),
            final(self)@.well_formed(),
            final(self).operations() == old(self).operations(),
    {
        let now = current_millis();
        let ghost outcome = result_view(result);
        self.finish_task_at(task_id, result, now);
        assert(self@ == old(self)@.finished(task_id, outcome, now));
    }

    /// Cancels the job `task_id` at the time `now`: fires its cancellation
    /// signal, which can be done once, and makes the job cancelled if it is
    /// still running. Refused with `NotFound` where the job has no
    /// execution context, and with `AlreadyTerminal` where the signal has
    /// been fired before; then nothing changes and nothing is fired.
    pub fn cancel_task_at(&mut self, task_id: u128, now: u64) -> (result: Result<(), TaskError>)
        ensures
            result == old(self)@.cancel_result(task_id),
            final(self)@ == old(self)@.cancelled(task_id, now),
            old(self)@.well_formed(),
            final(self)@.well_formed(),
            final(self).operations() == old(self).operations(),
    {
        proof {
            use_type_invariant(&*self);
        }
        let mut registry = Registry::new();
        core::mem::swap(&mut self.registry, &mut registry);
        let result = registry.cancel_task_at(task_id, now);
        self.registry = registry;
        result
    }

    /// Cancels the job `task_id` at the time that the clock shows.
    pub fn cancel_task(&mut self, task_id: u128) -> (result: Result<(), TaskError>)
        ensures
            result == old(self)@.cancel_result(task_id),
            exists|now: u64| final(self)@ == #[trigger] old(self)@.cancelled(task_id, now),
            old(self)@.well_formed(),
            final(self)@.well_formed(),
            final(self).operations() == old(self).operations(),
    {
        let now = current_millis();
        let result = self.cancel_task_at(task_id, now);
        assert(self@ == old(self)@.cancelled(task_id, now));
        result
    }

    /// A copy of the record of the job `task_id`, if there is such a job.
    pub fn get_task_status(&self, task_id: u128) -> (snapshot: Option<TaskInfo>)
        ensures
            match snapshot {
                Some(task) => self@.lookup(task_id) == Some(task@),
                None => self@.lookup(task_id) is None,
            },
            self@.well_formed(),
    {
        proof {
            use_type_invariant(self);
        }
        self.registry.get_task_status(task_id)
    }

    /// What a listing shows of the jobs, in the order of their creation.
    pub fn get_all_tasks(&self) -> (summaries: Vec<TaskSummary>)
        ensures
            summaries@.len() == self@.tasks.len(),
            forall|i: int|
                0 <= i < summaries@.len() ==> (#[trigger] summaries@[i])@ == summary_of(
                    self@.tasks[i],
                ),
            self@.well_formed(),
    {
        proof {
            use_type_invariant(self);
        }
        self.registry.get_all_tasks()
    }

    /// The invocation that carries out the job `task_id`; refused with
    /// `NotFound` where there is no such job.
    pub fn task_command(&self, task_id: u128) -> (result: Result<Vec<String>, TaskError>)
        ensures
            command_view(result) == match self@.lookup(task_id) {
                Some(task) => command_for(task),
                None => Err(TaskError::NotFound),
            },
            self@.well_formed(),
    {
        proof {
            use_type_invariant(self);
        }
        let task = match self.registry.record(task_id) {
            Some(task) => task,
            None => {
                return Err(TaskError::NotFound);
            },
        };
        match task.task_type {
            TaskType::ClipVideo => match &task.params {
                TaskParams::Clip(p) => self.video_service.clip_video(p),
                TaskParams::Merge(_) => Err(TaskError::InvalidParameters),
            },
            TaskType::MergeVideos => match &task.params {
                TaskParams::Merge(p) => self.video_service.merge_videos(p),
                TaskParams::Clip(_) => Err(TaskError::InvalidParameters),
            },
            TaskType::ConvertFormat => Err(TaskError::NotImplemented),
            TaskType::ExtractAudio => Err(TaskError::NotImplemented),
        }
    }

    /// How long the work of the job `task_id` lasts, in milliseconds, where
    /// there is such a job and its parameters tell.
    pub fn task_duration(&self, task_id: u128) -> (duration: Option<u64>)
        ensures
            duration == match self@.lookup(task_id) {
                Some(task) => duration_of(task.params),
                None => None,
            },
            self@.well_formed(),
    {
        proof {
            use_type_invariant(self);
        }
        self.registry.task_duration(task_id)
    }

    /// Removes the jobs that a cleanup at the time `now` removes: those
    /// that have come to their end more than `older_than` milliseconds
    /// before `now`. Jobs that have not come to their end stay, and so do
    /// jobs whose end has no time. The number of jobs removed is returned.
    pub fn cleanup_tasks_at(&mut self, older_than: u64, now: u64) -> (removed_count: usize)
        ensures
            final(self)@ == old(self)@.cleaned(older_than, now),
            removed_count == old(self)@.tasks.len() - final(self)@.tasks.len(),
            old(self)@.well_formed(),
            final(self)@.well_formed(),
            final(self).operations() == old(self).operations(),
    {
        proof {
            use_type_invariant(&*self);
        }
        let mut registry = Registry::new();
        core::mem::swap(&mut self.registry, &mut registry);
        let removed_count = registry.cleanup_tasks_at(older_than, now);
        self.registry = registry;
        removed_count
    }

    /// Removes the jobs that have come to their end more than `older_than`
    /// milliseconds before the time that the clock shows.
    pub fn cleanup_tasks(&mut self, older_than: u64) -> (removed_count: usize)
        ensures
            exists|now: u64| final(self)@ == #[trigger] old(self)@.cleaned(older_than, now),
            removed_count == old(self)@.tasks.len() - final(self)@.tasks.len(),
            old(self)@.well_formed(),
            final(self)@.well_formed(),
            final(self).operations() == old(self).operations(),
    {
        let now = current_millis();
        let removed_count = self.cleanup_tasks_at(older_than, now);
        assert(self@ == old(self)@.cleaned(older_than, now));
        removed_count
    }
}

} // verus!
