use simple_cut::models::task::{TaskError, TaskInfo, TaskStatus, TaskType, FULL_PERCENTAGE};
use simple_cut::models::video::{ClipParams, MergeParams};
use simple_cut::services::ffmpeg_service::{ExecutionError, FfmpegService, ProgressUpdate};
use simple_cut::services::task_service::{days_to_millis, millis_of_reading, TaskService};
use simple_cut::services::video_service::VideoService;

fn registry() -> TaskService {
    TaskService::new(VideoService::new(FfmpegService::new(None)))
}

fn clip(start: u64, end: u64) -> ClipParams {
    ClipParams {
        input_path: String::from("a.mp4"),
        output_path: String::from("out.mp4"),
        start_time: start,
        end_time: end,
        bitrate: 1000,
        format: String::from("mp4"),
        codec: None,
        width: None,
        height: None,
    }
}

fn merge(count: usize) -> MergeParams {
    MergeParams {
        input_paths: (0..count).map(|i| format!("in{}.mp4", i)).collect(),
        output_path: String::from("merged.mp4"),
        format: String::from("mp4"),
        bitrate: 2500,
    }
}

fn status(registry: &TaskService, id: u128) -> TaskInfo {
    registry.get_task_status(id).unwrap()
}

/// A registry with one job that ended `age` milliseconds before the time 1_000_000.
fn ended(registry: &mut TaskService, id: u128, age: u64, result: Result<(), ExecutionError>) {
    registry.create_clip_task_with(clip(0, 1000), id, 10).unwrap();
    assert!(registry.start_task_at(id, 20).is_ok());
    registry.finish_task_at(id, result, 1_000_000 - age);
}

#[test]
fn created_job_is_pending_at_zero_percent() {
    let mut registry = registry();
    let id = registry.create_clip_task(clip(5000, 10000)).unwrap();
    let task = status(&registry, id);
    assert_eq!(task.id, id);
    assert_eq!(task.status, TaskStatus::Pending);
    assert_eq!(task.task_type, TaskType::ClipVideo);
    assert_eq!(task.progress.percentage, 0);
    assert_eq!(task.progress.current, 0);
    assert_eq!(task.progress.total, 100);
    assert_eq!(task.progress.message, Some(String::from("任务已创建，等待执行")));
    assert_eq!(task.progress.error, None);
    assert_eq!(task.started_at, None);
    assert_eq!(task.completed_at, None);
    assert_eq!(task.input_paths, vec![String::from("a.mp4")]);
    assert_eq!(task.output_path, Some(String::from("out.mp4")));
}

#[test]
fn created_merge_job_holds_its_inputs() {
    let mut registry = registry();
    let id = registry.create_merge_task_with(merge(3), 77, 1234).unwrap();
    assert_eq!(id, 77);
    let task = status(&registry, 77);
    assert_eq!(task.status, TaskStatus::Pending);
    assert_eq!(task.task_type, TaskType::MergeVideos);
    assert_eq!(task.created_at, 1234);
    assert_eq!(
        task.input_paths,
        vec![String::from("in0.mp4"), String::from("in1.mp4"), String::from("in2.mp4")]
    );
    assert_eq!(task.output_path, Some(String::from("merged.mp4")));
}

#[test]
fn jobs_get_different_identifiers() {
    let mut registry = registry();
    let first = registry.create_clip_task(clip(0, 1)).unwrap();
    let second = registry.create_clip_task(clip(0, 1)).unwrap();
    assert_ne!(first, second);
    assert_eq!(registry.get_all_tasks().len(), 2);
}

#[test]
fn invalid_parameters_create_nothing() {
    let mut registry = registry();
    assert_eq!(registry.create_clip_task(clip(10, 10)), Err(TaskError::InvalidParameters));
    assert_eq!(registry.create_clip_task(clip(10, 9)), Err(TaskError::InvalidParameters));
    assert_eq!(registry.create_merge_task(merge(1)), Err(TaskError::InvalidParameters));
    assert_eq!(registry.create_merge_task_with(merge(0), 1, 1), Err(TaskError::InvalidParameters));
    assert!(registry.get_all_tasks().is_empty());
    assert!(registry.get_task_status(1).is_none());
}

#[test]
fn taken_identifier_gives_way_to_the_next_free_one() {
    let mut registry = registry();
    for id in [5u128, 6, 8] {
        registry.create_clip_task_with(clip(0, 1), id, 100).unwrap();
    }
    assert_eq!(registry.available_id(4), 4);
    assert_eq!(registry.available_id(5), 7);
    assert_eq!(registry.available_id(6), 7);
    assert_eq!(registry.available_id(7), 7);
    assert_eq!(registry.available_id(8), 9);
    registry.create_clip_task_with(clip(0, 1), u128::MAX, 100).unwrap();
    assert_eq!(registry.available_id(u128::MAX), 0);
    registry.create_clip_task_with(clip(0, 1), 0, 100).unwrap();
    assert_eq!(registry.available_id(u128::MAX), 1);
    assert_eq!(registry.available_id(u128::MAX - 1), u128::MAX - 1);
    assert_eq!(registry.available_id(0), 1);
}

#[test]
fn identifier_in_use_is_refused() {
    let mut registry = registry();
    assert_eq!(registry.create_clip_task_with(clip(0, 1), 5, 100), Ok(5));
    assert_eq!(registry.create_clip_task_with(clip(0, 2), 5, 200), Err(TaskError::IdInUse));
    assert_eq!(registry.create_merge_task_with(merge(2), 5, 200), Err(TaskError::IdInUse));
    assert_eq!(registry.get_all_tasks().len(), 1);
    assert_eq!(status(&registry, 5).created_at, 100);
}

#[test]
fn started_job_is_running() {
    let mut registry = registry();
    registry.create_clip_task_with(clip(0, 1), 1, 100).unwrap();
    assert!(registry.start_task_at(1, 150).is_ok());
    let task = status(&registry, 1);
    assert_eq!(task.status, TaskStatus::Running);
    assert_eq!(task.started_at, Some(150));
    assert_eq!(task.completed_at, None);
    assert_eq!(task.progress.message, Some(String::from("任务开始执行")));
    assert_eq!(registry.get_running_tasks_count(), 1);
}

#[test]
fn start_is_refused_for_unknown_and_started_jobs() {
    let mut registry = registry();
    assert!(matches!(registry.start_task(9), Err(TaskError::NotFound)));
    registry.create_clip_task_with(clip(0, 1), 1, 100).unwrap();
    assert!(registry.start_task(1).is_ok());
    assert!(matches!(registry.start_task(1), Err(TaskError::InvalidState)));
    registry.finish_task(1, Ok(()));
    assert!(matches!(registry.start_task(1), Err(TaskError::InvalidState)));
}

#[test]
fn start_at_the_cap_is_refused_and_leaves_the_job_pending() {
    let mut registry = registry();
    for id in 1..=3u128 {
        registry.create_clip_task_with(clip(0, 1), id, 100).unwrap();
    }
    assert!(registry.start_task_at(1, 110).is_ok());
    assert!(registry.start_task_at(2, 120).is_ok());
    assert_eq!(registry.get_running_tasks_count(), 2);
    assert!(matches!(registry.start_task_at(3, 130), Err(TaskError::TooManyConcurrentJobs)));
    let task = status(&registry, 3);
    assert_eq!(task.status, TaskStatus::Pending);
    assert_eq!(task.started_at, None);
    registry.finish_task_at(1, Ok(()), 140);
    assert!(registry.start_task_at(3, 150).is_ok());
    assert_eq!(status(&registry, 3).status, TaskStatus::Running);
}

#[test]
fn cap_can_be_set() {
    let mut registry = registry();
    registry.set_max_concurrent_tasks(0);
    registry.create_clip_task_with(clip(0, 1), 1, 100).unwrap();
    assert!(matches!(registry.start_task(1), Err(TaskError::TooManyConcurrentJobs)));
    registry.set_max_concurrent_tasks(1);
    assert!(registry.start_task(1).is_ok());
}

#[test]
fn unknown_job_is_refused_before_the_cap() {
    let mut registry = registry();
    registry.set_max_concurrent_tasks(0);
    assert!(matches!(registry.start_task(1), Err(TaskError::NotFound)));
}

#[test]
fn cancel_of_a_pending_job_is_refused() {
    let mut registry = registry();
    registry.create_clip_task_with(clip(0, 1), 1, 100).unwrap();
    assert_eq!(registry.cancel_task(1), Err(TaskError::NotFound));
    assert_eq!(registry.cancel_task(2), Err(TaskError::NotFound));
    let task = status(&registry, 1);
    assert_eq!(task.status, TaskStatus::Pending);
    assert_eq!(task.completed_at, None);
}

#[test]
fn cancel_fires_the_signal_once() {
    let mut registry = registry();
    registry.create_clip_task_with(clip(0, 1), 1, 100).unwrap();
    let mut cancel_rx = registry.start_task_at(1, 110).unwrap();
    assert!(cancel_rx.try_recv().is_err());
    assert_eq!(registry.cancel_task_at(1, 120), Ok(()));
    assert!(cancel_rx.try_recv().is_ok());
    let task = status(&registry, 1);
    assert_eq!(task.status, TaskStatus::Cancelled);
    assert_eq!(task.completed_at, Some(120));
    assert_eq!(task.progress.message, Some(String::from("任务已取消")));
    assert_eq!(registry.cancel_task_at(1, 130), Err(TaskError::AlreadyTerminal));
    assert_eq!(status(&registry, 1).completed_at, Some(120));
    assert_eq!(registry.get_running_tasks_count(), 0);
}

#[test]
fn worker_that_ends_after_a_cancel_changes_nothing() {
    let mut registry = registry();
    registry.create_clip_task_with(clip(0, 1), 1, 100).unwrap();
    assert!(registry.start_task_at(1, 110).is_ok());
    assert_eq!(registry.cancel_task_at(1, 120), Ok(()));
    registry.finish_task_at(1, Ok(()), 130);
    let task = status(&registry, 1);
    assert_eq!(task.status, TaskStatus::Cancelled);
    assert_eq!(task.completed_at, Some(120));
    assert_eq!(registry.cancel_task_at(1, 140), Err(TaskError::NotFound));
}

#[test]
fn cancel_after_the_end_does_not_overwrite() {
    let mut registry = registry();
    registry.create_clip_task_with(clip(0, 1), 1, 100).unwrap();
    registry.create_clip_task_with(clip(0, 1), 2, 100).unwrap();
    let mut first_rx = registry.start_task_at(1, 110).unwrap();
    assert!(registry.start_task_at(2, 110).is_ok());
    registry.finish_task_at(1, Ok(()), 120);
    registry.finish_task_at(2, Err(ExecutionError::NonZeroExit(1)), 121);
    assert_eq!(registry.cancel_task_at(1, 130), Err(TaskError::NotFound));
    assert_eq!(registry.cancel_task_at(2, 130), Err(TaskError::NotFound));
    assert!(first_rx.try_recv().is_err());
    assert_eq!(status(&registry, 1).status, TaskStatus::Completed);
    assert_eq!(status(&registry, 1).completed_at, Some(120));
    assert_eq!(status(&registry, 2).status, TaskStatus::Failed);
    assert_eq!(status(&registry, 2).completed_at, Some(121));
}

#[test]
fn finished_job_is_completed_failed_or_cancelled() {
    let mut registry = registry();
    registry.set_max_concurrent_tasks(3);
    for id in 1..=3u128 {
        registry.create_clip_task_with(clip(0, 1), id, 100).unwrap();
        assert!(registry.start_task_at(id, 110).is_ok());
    }
    registry.update_progress(2, 4000, None, Some(String::from("warning")));
    registry.finish_task_at(1, Ok(()), 200);
    registry.finish_task_at(
        2,
        Err(ExecutionError::ToolReportedError(String::from("Error: broken"))),
        201,
    );
    registry.finish_task_at(3, Err(ExecutionError::Cancelled), 202);
    let done = status(&registry, 1);
    assert_eq!(done.status, TaskStatus::Completed);
    assert_eq!(done.completed_at, Some(200));
    assert_eq!(done.progress.percentage, FULL_PERCENTAGE);
    assert_eq!(done.progress.message, Some(String::from("任务执行完成")));
    assert_eq!(done.progress.error, None);
    let failed = status(&registry, 2);
    assert_eq!(failed.status, TaskStatus::Failed);
    assert_eq!(failed.completed_at, Some(201));
    assert_eq!(failed.progress.percentage, 4000);
    assert_eq!(failed.progress.message, Some(String::from("任务执行失败")));
    assert_eq!(failed.progress.error, Some(String::from("FFmpeg error: Error: broken")));
    let cancelled = status(&registry, 3);
    assert_eq!(cancelled.status, TaskStatus::Cancelled);
    assert_eq!(cancelled.completed_at, Some(202));
    assert_eq!(cancelled.progress.error, None);
    assert_eq!(registry.get_running_tasks_count(), 0);
}

#[test]
fn finish_of_a_job_that_does_not_run_changes_nothing() {
    let mut registry = registry();
    registry.create_clip_task_with(clip(0, 1), 1, 100).unwrap();
    registry.finish_task_at(1, Ok(()), 200);
    registry.finish_task_at(9, Ok(()), 200);
    let task = status(&registry, 1);
    assert_eq!(task.status, TaskStatus::Pending);
    assert_eq!(task.completed_at, None);
    assert_eq!(registry.get_all_tasks().len(), 1);
}

#[test]
fn percentage_never_falls_while_running() {
    let mut registry = registry();
    registry.create_clip_task_with(clip(0, 1), 1, 100).unwrap();
    registry.update_progress(1, 5000, None, None);
    assert_eq!(status(&registry, 1).progress.percentage, 0);
    assert!(registry.start_task_at(1, 110).is_ok());
    registry.update_progress(1, 2500, Some(String::from("1.0x")), None);
    assert_eq!(status(&registry, 1).progress.percentage, 2500);
    assert_eq!(status(&registry, 1).progress.message, Some(String::from("1.0x")));
    registry.update_progress(1, 1000, None, None);
    assert_eq!(status(&registry, 1).progress.percentage, 2500);
    assert_eq!(status(&registry, 1).progress.message, Some(String::from("1.0x")));
    registry.update_progress(1, 20000, None, Some(String::from("e")));
    assert_eq!(status(&registry, 1).progress.percentage, FULL_PERCENTAGE);
    assert_eq!(status(&registry, 1).progress.error, Some(String::from("e")));
    let update = ProgressUpdate {
        percentage: 10,
        speed: Some(String::from("2x")),
        eta: Some(String::from("00:01")),
    };
    registry.report_progress(1, &update);
    assert_eq!(status(&registry, 1).progress.percentage, FULL_PERCENTAGE);
    assert_eq!(status(&registry, 1).progress.message, Some(String::from("2x")));
    assert_eq!(status(&registry, 1).progress.error, Some(String::from("e")));
    registry.finish_task_at(1, Err(ExecutionError::NonZeroExit(2)), 300);
    registry.update_progress(1, 0, Some(String::from("late")), None);
    assert_eq!(status(&registry, 1).progress.message, Some(String::from("任务执行失败")));
    registry.update_progress(42, 1, None, None);
}

#[test]
fn cleanup_removes_what_ended_long_ago() {
    let mut registry = registry();
    registry.set_max_concurrent_tasks(10);
    let older_than: u64 = 1000;
    ended(&mut registry, 1, 2 * older_than, Ok(()));
    ended(&mut registry, 2, 0, Ok(()));
    ended(&mut registry, 3, older_than, Err(ExecutionError::NonZeroExit(1)));
    ended(&mut registry, 4, older_than + 1, Err(ExecutionError::Cancelled));
    ended(&mut registry, 5, older_than - 1, Ok(()));
    registry.create_clip_task_with(clip(0, 1), 6, 10).unwrap();
    registry.create_clip_task_with(clip(0, 1), 7, 10).unwrap();
    assert!(registry.start_task_at(7, 20).is_ok());
    assert_eq!(registry.cleanup_tasks_at(older_than, 1_000_000), 2);
    assert!(registry.get_task_status(1).is_none());
    assert!(registry.get_task_status(4).is_none());
    assert_eq!(status(&registry, 2).status, TaskStatus::Completed);
    assert_eq!(status(&registry, 3).status, TaskStatus::Failed);
    assert_eq!(status(&registry, 5).status, TaskStatus::Completed);
    assert_eq!(status(&registry, 6).status, TaskStatus::Pending);
    assert_eq!(status(&registry, 7).status, TaskStatus::Running);
    let ids: Vec<u128> = registry.get_all_tasks().iter().map(|s| s.id).collect();
    assert_eq!(ids, vec![2, 3, 5, 6, 7]);
    assert_eq!(registry.cleanup_tasks_at(older_than, 1_000_000), 0);
    assert_eq!(registry.cancel_task_at(7, 30), Ok(()));
}

#[test]
fn cleanup_with_a_long_age_removes_nothing() {
    let mut registry = registry();
    ended(&mut registry, 1, 999_000, Ok(()));
    assert_eq!(registry.cleanup_tasks_at(u64::MAX, u64::MAX), 0);
    assert_eq!(registry.cleanup_tasks_at(2_000_000, 1_000_000), 0);
    assert_eq!(registry.cleanup_tasks_at(0, 1000), 0);
    assert_eq!(registry.cleanup_tasks_at(0, 1001), 1);
    assert!(registry.get_all_tasks().is_empty());
}

#[test]
fn cleanup_takes_the_context_of_a_cancelled_job() {
    let mut registry = registry();
    registry.create_clip_task_with(clip(0, 1), 1, 10).unwrap();
    assert!(registry.start_task_at(1, 20).is_ok());
    assert_eq!(registry.cancel_task_at(1, 30), Ok(()));
    assert_eq!(registry.cleanup_tasks_at(5, 100), 1);
    assert_eq!(registry.cancel_task_at(1, 110), Err(TaskError::NotFound));
    registry.finish_task_at(1, Ok(()), 120);
    assert!(registry.get_task_status(1).is_none());
    assert_eq!(registry.create_clip_task_with(clip(0, 1), 1, 130), Ok(1));
    assert_eq!(status(&registry, 1).status, TaskStatus::Pending);
}

#[test]
fn cleanup_by_the_clock_keeps_fresh_jobs() {
    let mut registry = registry();
    let id = registry.create_clip_task(clip(0, 1)).unwrap();
    assert!(registry.start_task(id).is_ok());
    registry.finish_task(id, Ok(()));
    assert_eq!(registry.cleanup_tasks(3_600_000), 0);
    assert_eq!(status(&registry, id).status, TaskStatus::Completed);
    let now = status(&registry, id).completed_at.unwrap();
    assert!(now > 1_600_000_000_000);
    assert!(status(&registry, id).created_at <= now);
}

#[test]
fn listing_shows_jobs_in_order_of_creation() {
    let mut registry = registry();
    registry.create_clip_task_with(clip(0, 1), 30, 100).unwrap();
    registry.create_merge_task_with(merge(2), 10, 200).unwrap();
    assert!(registry.start_task_at(10, 210).is_ok());
    registry.update_progress(10, 1234, None, None);
    let all = registry.get_all_tasks();
    assert_eq!(all.len(), 2);
    assert_eq!(all[0].id, 30);
    assert_eq!(all[0].task_type, TaskType::ClipVideo);
    assert_eq!(all[0].status, TaskStatus::Pending);
    assert_eq!(all[0].progress, 0);
    assert_eq!(all[0].created_at, 100);
    assert_eq!(all[0].output_path, Some(String::from("out.mp4")));
    assert_eq!(all[1].id, 10);
    assert_eq!(all[1].task_type, TaskType::MergeVideos);
    assert_eq!(all[1].status, TaskStatus::Running);
    assert_eq!(all[1].progress, 1234);
    assert_eq!(all[1].output_path, Some(String::from("merged.mp4")));
}

#[test]
fn job_command_comes_from_its_parameters() {
    let mut registry = registry();
    registry.create_clip_task_with(clip(5000, 10000), 1, 100).unwrap();
    registry.create_merge_task_with(merge(11), 2, 100).unwrap();
    let args = registry.task_command(1).unwrap();
    let expected: Vec<String> = vec![
        "-hide_banner", "-y", "-ss", "5", "-to", "10", "-i", "a.mp4", "-b:v", "1000k", "out.mp4",
    ]
    .into_iter()
    .map(String::from)
    .collect();
    assert_eq!(args, expected);
    assert_eq!(registry.task_command(2), Err(TaskError::NotImplemented));
    assert_eq!(registry.task_command(3), Err(TaskError::NotFound));
    assert_eq!(registry.task_duration(1), Some(5000));
    assert_eq!(registry.task_duration(2), None);
    assert_eq!(registry.task_duration(3), None);
}

#[test]
fn terminal_states_are_the_three_ends() {
    assert!(!TaskStatus::Pending.is_terminal());
    assert!(!TaskStatus::Running.is_terminal());
    assert!(TaskStatus::Completed.is_terminal());
    assert!(TaskStatus::Failed.is_terminal());
    assert!(TaskStatus::Cancelled.is_terminal());
}

#[test]
fn days_are_counted_in_milliseconds() {
    assert_eq!(days_to_millis(0), 0);
    assert_eq!(days_to_millis(1), 86_400_000);
    assert_eq!(days_to_millis(7), 604_800_000);
    assert_eq!(days_to_millis(213_503_982_334), 18_446_744_073_657_600_000);
    assert_eq!(days_to_millis(213_503_982_335), u64::MAX);
    assert_eq!(days_to_millis(u64::MAX), u64::MAX);
}

#[test]
fn refusals_have_messages() {
    assert_eq!(TaskError::InvalidParameters.message(), "Invalid task parameters");
    assert_eq!(TaskError::NotFound.message(), "Task not found or not running");
    assert_eq!(TaskError::InvalidState.message(), "Task is not in pending state");
    assert_eq!(TaskError::TooManyConcurrentJobs.message(), "Too many concurrent tasks running");
    assert_eq!(TaskError::AlreadyTerminal.message(), "Task already cancelled or completed");
    assert_eq!(TaskError::NotImplemented.message(), "Task not implemented yet");
    assert_eq!(TaskError::IdInUse.message(), "Task identifier already in use");
}

#[test]
fn reading_of_the_clock_is_held_to_64_bits() {
    assert_eq!(millis_of_reading(None), 0);
    assert_eq!(millis_of_reading(Some(0)), 0);
    assert_eq!(millis_of_reading(Some(1_700_000_000_000)), 1_700_000_000_000);
    assert_eq!(millis_of_reading(Some(u64::MAX as u128)), u64::MAX);
    assert_eq!(millis_of_reading(Some(u64::MAX as u128 + 1)), u64::MAX);
    assert_eq!(millis_of_reading(Some(u128::MAX)), u64::MAX);
}
