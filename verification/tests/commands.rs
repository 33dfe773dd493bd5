use simple_cut::models::task::TaskError;
use simple_cut::models::video::{ClipParams, MergeParams};
use simple_cut::services::ffmpeg_service::FfmpegService;
use simple_cut::services::video_service::{
    format_time, validate_clip, validate_merge, VideoService,
};

fn service() -> VideoService {
    VideoService::new(FfmpegService::new(None))
}

fn clip(start: u64, end: u64) -> ClipParams {
    ClipParams {
        input_path: String::from("a.mp4"),
        output_path: String::from("out.mp4"),
        start_time: start,
        end_time: end,
        bitrate: 1000,
        format: String::from("mp4"),
        codec: None,
        width: None,
        height: None,
    }
}

fn merge(inputs: &[&str]) -> MergeParams {
    MergeParams {
        input_paths: inputs.iter().map(|s| s.to_string()).collect(),
        output_path: String::from("merged.mp4"),
        format: String::from("mp4"),
        bitrate: 2500,
    }
}

fn position(args: &[String], word: &str) -> usize {
    args.iter().position(|a| a == word).unwrap()
}

#[test]
fn times_are_written_in_seconds() {
    assert_eq!(format_time(0), "0");
    assert_eq!(format_time(5000), "5");
    assert_eq!(format_time(10000), "10");
    assert_eq!(format_time(5500), "5.500");
    assert_eq!(format_time(1), "0.001");
    assert_eq!(format_time(90042), "90.042");
    assert_eq!(format_time(3_600_000), "3600");
}

#[test]
fn clip_trims_before_it_opens_the_input() {
    let args = service().clip_video(&clip(5000, 10000)).unwrap();
    let expected: Vec<String> = vec![
        "-hide_banner", "-y", "-ss", "5", "-to", "10", "-i", "a.mp4", "-b:v", "1000k", "out.mp4",
    ]
    .into_iter()
    .map(String::from)
    .collect();
    assert_eq!(args, expected);
    let input = position(&args, "-i");
    let start = position(&args, "-ss");
    let end = position(&args, "-to");
    assert!(start < input);
    assert!(end < input);
    assert_eq!(args[start + 1], "5");
    assert_eq!(args[end + 1], "10");
    assert_eq!(args[input + 1], "a.mp4");
}

#[test]
fn clip_takes_codec_and_size_where_given() {
    let mut params = clip(1500, 2000);
    params.codec = Some(String::from("libx265"));
    params.width = Some(1280);
    params.height = Some(720);
    let args = service().clip_video(&params).unwrap();
    let expected: Vec<String> = vec![
        "-hide_banner", "-y", "-ss", "1.500", "-to", "2", "-i", "a.mp4", "-b:v", "1000k", "-c:v",
        "libx265", "-s", "1280x720", "out.mp4",
    ]
    .into_iter()
    .map(String::from)
    .collect();
    assert_eq!(args, expected);
    params.height = None;
    let without_size = service().clip_video(&params).unwrap();
    assert!(!without_size.contains(&String::from("-s")));
}

#[test]
fn clip_must_end_after_it_starts() {
    assert!(validate_clip(&clip(0, 1)));
    assert!(!validate_clip(&clip(5, 5)));
    assert!(!validate_clip(&clip(6, 5)));
    assert_eq!(service().clip_video(&clip(5, 5)), Err(TaskError::InvalidParameters));
    let mut unnamed = clip(0, 1);
    unnamed.input_path = String::new();
    assert_eq!(service().clip_video(&unnamed), Err(TaskError::InvalidParameters));
    let mut nowhere = clip(0, 1);
    nowhere.output_path = String::new();
    assert!(!validate_clip(&nowhere));
}

#[test]
fn merge_opens_inputs_then_concatenates() {
    let args = service().merge_videos(&merge(&["a.mp4", "b b.mp4"])).unwrap();
    let expected: Vec<String> = vec![
        "-hide_banner", "-y", "-i", "a.mp4", "-i", "b b.mp4", "-filter_complex",
        "[0:v] [0:a] [1:v] [1:a] concat=n=2:v=1:a=1 [v] [a]", "-map", "[v]", "-map", "[a]",
        "-b:v", "2500k", "merged.mp4",
    ]
    .into_iter()
    .map(String::from)
    .collect();
    assert_eq!(args, expected);
}

#[test]
fn merge_needs_two_inputs() {
    assert!(!validate_merge(&merge(&[])));
    assert!(!validate_merge(&merge(&["a.mp4"])));
    assert!(validate_merge(&merge(&["a.mp4", "b.mp4"])));
    assert!(!validate_merge(&merge(&["a.mp4", ""])));
    assert_eq!(service().merge_videos(&merge(&["a.mp4"])), Err(TaskError::InvalidParameters));
}

#[test]
fn merge_of_many_inputs_is_not_provided_for() {
    let ten: Vec<&str> = vec!["a"; 10];
    assert!(service().merge_videos(&merge(&ten)).is_ok());
    let eleven: Vec<&str> = vec!["a"; 11];
    assert_eq!(service().merge_videos(&merge(&eleven)), Err(TaskError::NotImplemented));
}

#[test]
fn conversion_and_extraction_have_their_flags() {
    let convert = service().convert_format("in.mov", "out.mkv", "matroska", 800);
    let expected: Vec<String> =
        vec!["-hide_banner", "-y", "-i", "in.mov", "-b:v", "800k", "-f", "matroska", "out.mkv"]
            .into_iter()
            .map(String::from)
            .collect();
    assert_eq!(convert, expected);
    let extract = service().extract_audio("in.mov", "out.mp3", 192);
    let expected: Vec<String> = vec![
        "-hide_banner", "-y", "-i", "in.mov", "-vn", "-acodec", "libmp3lame", "-b:a", "192k",
        "out.mp3",
    ]
    .into_iter()
    .map(String::from)
    .collect();
    assert_eq!(extract, expected);
}

#[test]
fn global_flags_come_first() {
    let tool = FfmpegService::new(Some(String::from("/opt/ffmpeg")));
    assert_eq!(tool.program(), "/opt/ffmpeg");
    assert_eq!(FfmpegService::new(None).program(), "ffmpeg");
    let args = tool.build_command(&vec![String::from("-i"), String::from("x")]);
    assert_eq!(
        args,
        vec![
            String::from("-hide_banner"),
            String::from("-y"),
            String::from("-i"),
            String::from("x")
        ]
    );
    assert_eq!(
        tool.build_command(&Vec::new()),
        vec![String::from("-hide_banner"), String::from("-y")]
    );
}
