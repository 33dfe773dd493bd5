use simple_cut::config::{
    AppConfig, ConfigService, FfmpegConfig, LoggingConfig, TaskConfig, VideoConfig,
};
use simple_cut::media_info::tools::{
    audio_probe_arguments, audio_track_count, count_lines, ProbeError,
};

#[test]
fn new_service_holds_the_default_configuration() {
    let service = ConfigService::new();
    let config = service.get_config();
    assert_eq!(config.ffmpeg.path, None);
    assert!(config.ffmpeg.default_args.is_empty());
    assert_eq!(config.ffmpeg.timeout, 0);
    assert_eq!(config.video.default_bitrate, 0);
    assert_eq!(config.video.default_codec, "");
    assert_eq!(config.video.default_width, None);
    assert_eq!(config.video.default_height, None);
    assert_eq!(config.task.max_concurrent_tasks, 0);
    assert_eq!(config.task.auto_cleanup_days, 0);
    assert_eq!(config.logging.log_level, "");
    assert!(!config.logging.enable_file_log);
    assert_eq!(config.logging.log_file, None);
    assert!(service.save_config().is_none());
}

#[test]
fn parts_of_the_configuration_are_replaced() {
    let mut service = ConfigService::new();
    service.update_ffmpeg_config(FfmpegConfig {
        path: Some(String::from("/usr/bin/ffmpeg")),
        default_args: vec![String::from("-nostdin")],
        timeout: 30,
    });
    service.update_video_config(VideoConfig {
        default_bitrate: 5000,
        default_codec: String::from("h264"),
        default_width: Some(1920),
        default_height: Some(1080),
    });
    service.update_task_config(TaskConfig { max_concurrent_tasks: 4, auto_cleanup_days: 7 });
    service.update_logging_config(LoggingConfig {
        log_level: String::from("debug"),
        enable_file_log: true,
        log_file: Some(String::from("app.log")),
    });
    let config = service.get_config();
    assert_eq!(config.ffmpeg.path, Some(String::from("/usr/bin/ffmpeg")));
    assert_eq!(config.ffmpeg.default_args, vec![String::from("-nostdin")]);
    assert_eq!(config.ffmpeg.timeout, 30);
    assert_eq!(config.video.default_bitrate, 5000);
    assert_eq!(config.video.default_codec, "h264");
    assert_eq!(config.video.default_width, Some(1920));
    assert_eq!(config.task.max_concurrent_tasks, 4);
    assert_eq!(config.task.auto_cleanup_days, 7);
    assert_eq!(config.logging.log_level, "debug");
    assert!(config.logging.enable_file_log);
    assert_eq!(config.logging.log_file, Some(String::from("app.log")));
    let mut whole = AppConfig::default();
    whole.task.max_concurrent_tasks = 9;
    service.update_config(whole);
    assert_eq!(service.get_config().task.max_concurrent_tasks, 9);
    assert_eq!(service.get_config().video.default_bitrate, 0);
}

#[test]
fn loading_takes_what_the_file_held() {
    let mut service = ConfigService::new();
    let mut stored = AppConfig::default();
    stored.ffmpeg.timeout = 12;
    assert!(!service.load_config(String::from("/etc/app/config.toml"), Some(stored)));
    assert_eq!(service.get_config().ffmpeg.timeout, 12);
    assert_eq!(service.save_config(), Some(&String::from("/etc/app/config.toml")));
    assert!(service.load_config(String::from("other.toml"), None));
    assert_eq!(service.get_config().ffmpeg.timeout, 12);
    assert_eq!(service.save_config(), Some(&String::from("other.toml")));
}

#[test]
fn probe_lists_audio_streams() {
    let expected: Vec<String> = vec![
        "-v", "error", "-select_streams", "a", "-show_entries", "stream=index", "-of", "csv=p=0",
        "my file.mkv",
    ]
    .into_iter()
    .map(String::from)
    .collect();
    assert_eq!(audio_probe_arguments("my file.mkv"), expected);
}

#[test]
fn lines_are_counted() {
    assert_eq!(count_lines(""), 0);
    assert_eq!(count_lines("1"), 1);
    assert_eq!(count_lines("1\n"), 1);
    assert_eq!(count_lines("1\n2"), 2);
    assert_eq!(count_lines("1\n2\n"), 2);
    assert_eq!(count_lines("1\r\n2\r\n"), 2);
    assert_eq!(count_lines("\n"), 1);
    assert_eq!(count_lines("\n\n"), 2);
    for text in ["", "a", "a\n", "a\nb", "\n", "\n\n", "a\n\nb\n", "x\r\ny"] {
        assert_eq!(count_lines(text), text.lines().count());
    }
}

#[test]
fn track_count_is_the_number_of_lines() {
    assert!(matches!(
        audio_track_count(true, Some(String::from("1\n2\n")), String::new()),
        Ok(2)
    ));
    assert!(matches!(audio_track_count(true, Some(String::new()), String::from("x")), Ok(0)));
    match audio_track_count(false, Some(String::from("1\n")), String::from("no such file")) {
        Err(ProbeError::ToolFailed(text)) => assert_eq!(text, "no such file"),
        _ => panic!("the probe failed"),
    }
    assert!(matches!(
        audio_track_count(true, None, String::new()),
        Err(ProbeError::InvalidOutput)
    ));
    assert!(matches!(
        audio_track_count(false, None, String::new()),
        Err(ProbeError::ToolFailed(_))
    ));
}
