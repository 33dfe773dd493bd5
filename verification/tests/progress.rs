use simple_cut::services::ffmpeg_service::{
    line_mentions_error, percentage, ExecutionError, FfmpegService, RunEvent, RunState, RunStep,
};

fn tool() -> FfmpegService {
    FfmpegService::new(None)
}

fn chars(s: &str) -> Vec<char> {
    s.chars().collect()
}

#[test]
fn time_is_read_as_milliseconds() {
    assert_eq!(FfmpegService::parse_time("00:01:30.00"), Some(90_000));
    assert_eq!(FfmpegService::parse_time("00:00:40.00"), Some(40_000));
    assert_eq!(FfmpegService::parse_time("01:02:03.456"), Some(3_723_456));
    assert_eq!(FfmpegService::parse_time("1:2:3"), Some(3_723_000));
    assert_eq!(FfmpegService::parse_time("00:00:00.5"), Some(500));
    assert_eq!(FfmpegService::parse_time("00:00:00.05"), Some(50));
    assert_eq!(FfmpegService::parse_time("00:00:00.1239"), Some(123));
    assert_eq!(FfmpegService::parse_time("00:00:07."), Some(7_000));
    assert_eq!(FfmpegService::parse_time("100:00:00"), Some(360_000_000));
}

#[test]
fn time_of_another_form_is_not_read() {
    assert_eq!(FfmpegService::parse_time(""), None);
    assert_eq!(FfmpegService::parse_time("90"), None);
    assert_eq!(FfmpegService::parse_time("01:30"), None);
    assert_eq!(FfmpegService::parse_time("1:2:3:4"), None);
    assert_eq!(FfmpegService::parse_time("N/A"), None);
    assert_eq!(FfmpegService::parse_time("-00:00:01.00"), None);
    assert_eq!(FfmpegService::parse_time("00::01"), None);
    assert_eq!(FfmpegService::parse_time("00:00:.5"), None);
    assert_eq!(FfmpegService::parse_time("00:00:1.5x"), None);
    assert_eq!(FfmpegService::parse_time("aa:00:01"), None);
    assert_eq!(FfmpegService::parse_time("99999999999999999999:00:00"), None);
    assert_eq!(FfmpegService::parse_time("5124095576030432:00:00"), None);
}

#[test]
fn percentage_is_the_share_of_the_total() {
    assert_eq!(percentage(90_000, Some(180_000)), 5000);
    assert_eq!(percentage(0, Some(180_000)), 0);
    assert_eq!(percentage(180_000, Some(180_000)), 10000);
    assert_eq!(percentage(200_000, Some(180_000)), 10000);
    assert_eq!(percentage(1, Some(3)), 3333);
    assert_eq!(percentage(2, Some(3)), 6666);
    assert_eq!(percentage(u64::MAX, Some(1)), 10000);
    assert_eq!(percentage(u64::MAX, Some(u64::MAX)), 10000);
    assert_eq!(percentage(90_000, None), 0);
    assert_eq!(percentage(90_000, Some(0)), 0);
}

#[test]
fn progress_line_gives_half_of_a_known_total() {
    let update = tool()
        .parse_progress("frame=100 fps=25 time=00:01:30.00 speed=2.0x", Some(180_000))
        .unwrap();
    assert_eq!(update.percentage, 5000);
    assert_eq!(update.speed, Some(String::from("2.0x")));
    assert_eq!(update.eta, None);
}

#[test]
fn line_without_time_gives_no_progress() {
    assert!(tool().parse_progress("frame=100 fps=25 speed=2.0x", Some(180_000)).is_none());
    assert!(tool().parse_progress("frame=100", None).is_none());
    assert!(tool().parse_progress("", Some(1)).is_none());
}

#[test]
fn line_that_is_no_progress_line_gives_no_progress() {
    assert!(tool().parse_progress("size=10 time=00:01:30.00", Some(180_000)).is_none());
    assert!(tool().parse_progress(" frame=1 time=00:01:30.00", Some(180_000)).is_none());
    assert!(tool().parse_progress("Stream #0:0: Video: h264", Some(180_000)).is_none());
}

#[test]
fn unknown_total_gives_zero_percent() {
    let update = tool()
        .parse_progress("frame= 1000 fps= 25 q=-1.0 size=   10240kB time=00:00:40.00 bitrate=2048.0kbits/s speed=1.0x", None)
        .unwrap();
    assert_eq!(update.percentage, 0);
    assert_eq!(update.speed, Some(String::from("1.0x")));
}

#[test]
fn last_word_of_a_key_counts() {
    let update = tool()
        .parse_progress(
            "frame=1 time=00:00:10.00 speed=1x eta=00:05\rframe=2 time=00:00:20.00 speed=3x eta=00:04",
            Some(40_000),
        )
        .unwrap();
    assert_eq!(update.percentage, 5000);
    assert_eq!(update.speed, Some(String::from("3x")));
    assert_eq!(update.eta, Some(String::from("00:04")));
}

#[test]
fn unreadable_time_counts_as_zero() {
    let update = tool().parse_progress("frame=1 time=N/A speed=N/A", Some(40_000)).unwrap();
    assert_eq!(update.percentage, 0);
    assert_eq!(update.speed, Some(String::from("N/A")));
    let earlier = tool()
        .parse_progress("frame=1 time=00:00:10.00 time=N/A speed=", Some(40_000))
        .unwrap();
    assert_eq!(earlier.percentage, 2500);
    assert_eq!(earlier.speed, Some(String::new()));
}

#[test]
fn error_is_found_in_any_case() {
    assert!(line_mentions_error(&chars("error")));
    assert!(line_mentions_error(&chars("Error while decoding")));
    assert!(line_mentions_error(&chars("a fatal ERROR occurred")));
    assert!(line_mentions_error(&chars("xxeRrOr")));
    assert!(!line_mentions_error(&chars("")));
    assert!(!line_mentions_error(&chars("erro")));
    assert!(!line_mentions_error(&chars("err or")));
    assert!(!line_mentions_error(&chars("frame=1 time=00:00:01.00")));
}

#[test]
fn lines_are_read_until_the_output_ends() {
    let step = tool().execute_step(
        RunState::Reading,
        RunEvent::Line(String::from("frame=1 time=00:00:10.00 speed=1x")),
        Some(20_000),
    );
    match step {
        RunStep::Continue { state, report } => {
            assert_eq!(state, RunState::Reading);
            assert_eq!(report.unwrap().percentage, 5000);
        }
        _ => panic!("the run goes on"),
    }
    let step = tool().execute_step(RunState::Reading, RunEvent::Line(String::from("info")), None);
    assert!(matches!(step, RunStep::Continue { state: RunState::Reading, report: None }));
    let step = tool().execute_step(RunState::Reading, RunEvent::OutputEnded, None);
    assert!(matches!(step, RunStep::Continue { state: RunState::Waiting, report: None }));
    let step = tool().execute_step(
        RunState::Waiting,
        RunEvent::Line(String::from("frame=1 time=00:00:10.00 error")),
        Some(20_000),
    );
    assert!(matches!(step, RunStep::Continue { state: RunState::Waiting, report: None }));
}

#[test]
fn error_line_aborts_the_run() {
    let step = tool().execute_step(
        RunState::Reading,
        RunEvent::Line(String::from("frame=1 time=00:00:10.00 Error: broken")),
        Some(20_000),
    );
    match step {
        RunStep::Abort { report, error } => {
            assert_eq!(report.unwrap().percentage, 5000);
            match error {
                ExecutionError::ToolReportedError(line) => {
                    assert_eq!(line, "frame=1 time=00:00:10.00 Error: broken")
                }
                _ => panic!("the tool reported the error"),
            }
        }
        _ => panic!("the run is aborted"),
    }
}

#[test]
fn exit_decides_the_result() {
    let step = tool().execute_step(RunState::Waiting, RunEvent::Exited(Some(0)), None);
    match step {
        RunStep::Finish { report, result } => {
            let last = report.unwrap();
            assert_eq!(last.percentage, 10000);
            assert_eq!(last.speed, None);
            assert_eq!(last.eta, None);
            assert!(result.is_ok());
        }
        _ => panic!("the run is over"),
    }
    let step = tool().execute_step(RunState::Waiting, RunEvent::Exited(Some(3)), None);
    assert!(matches!(
        step,
        RunStep::Finish { report: None, result: Err(ExecutionError::NonZeroExit(3)) }
    ));
    let step = tool().execute_step(RunState::Reading, RunEvent::Exited(None), None);
    assert!(matches!(
        step,
        RunStep::Finish { report: None, result: Err(ExecutionError::NonZeroExit(-1)) }
    ));
}

#[test]
fn cancellation_and_failure_abort_the_run() {
    let step = tool().execute_step(RunState::Reading, RunEvent::CancelRequested, None);
    assert!(matches!(step, RunStep::Abort { report: None, error: ExecutionError::Cancelled }));
    let step = tool().execute_step(RunState::Waiting, RunEvent::CancelRequested, None);
    assert!(matches!(step, RunStep::Abort { report: None, error: ExecutionError::Cancelled }));
    let step = tool().execute_step(
        RunState::Reading,
        RunEvent::Failed(String::from("no such file")),
        None,
    );
    match step {
        RunStep::Abort { report: None, error: ExecutionError::SpawnFailed(reason) } => {
            assert_eq!(reason, "no such file")
        }
        _ => panic!("the run is aborted"),
    }
}

#[test]
fn failures_have_messages() {
    assert_eq!(
        ExecutionError::ToolReportedError(String::from("Error: x")).message(),
        "FFmpeg error: Error: x"
    );
    assert_eq!(ExecutionError::NonZeroExit(1).message(), "FFmpeg process exited with code: 1");
    assert_eq!(ExecutionError::NonZeroExit(-1).message(), "FFmpeg process exited with code: -1");
    assert_eq!(
        ExecutionError::NonZeroExit(i32::MIN).message(),
        "FFmpeg process exited with code: -2147483648"
    );
    assert_eq!(ExecutionError::Cancelled.message(), "Task cancelled");
    assert_eq!(ExecutionError::SpawnFailed(String::from("why")).message(), "why");
}

#[test]
fn simple_run_fails_with_what_the_tool_wrote() {
    assert!(tool().execute_simple(true, String::from("ignored")).is_ok());
    match tool().execute_simple(false, String::from("bad input")) {
        Err(ExecutionError::ToolReportedError(text)) => assert_eq!(text, "bad input"),
        _ => panic!("the run failed"),
    }
}
