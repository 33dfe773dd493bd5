use simple_cut::export::{
    build_command_header, build_command_header_without_executeable, build_command_tail,
    build_export_command, build_filter_complex, build_video_input, confirm_invocation,
    export_argument_list, filter_graph, graph_argument_list, input_argument_list,
    invocation_from_words, prepare_export, tail_argument_list, AudioMergeType, ExportError,
    ExportSettings, SizeControlType, VideoSlice,
};
use simple_cut::shell::{render_command, same_words};
use simple_cut::filter_builder::{build_amix_filter, build_concat_filter, FilterBuilder};

fn slice(path: &str, start: Option<&str>, end: Option<&str>) -> VideoSlice {
    VideoSlice {
        key: String::from("k"),
        order: 0,
        file_name: String::from("name"),
        file_path: path.to_string(),
        start_time: start.map(|s| s.to_string()),
        end_time: end.map(|s| s.to_string()),
    }
}

fn settings(size: SizeControlType, audio: AudioMergeType, path: &str) -> ExportSettings {
    ExportSettings {
        file_name: String::from("out"),
        bitrate: 8,
        size_control_type: size,
        audio_merge_type: audio,
        export_path: path.to_string(),
        use_first_video_path: false,
    }
}

#[test]
fn amix_stage_lists_the_tracks_of_one_input() {
    assert_eq!(build_amix_filter(1, 2, "1a"), "[1:a:0] [1:a:1] amix=inputs=2[1a]");
    assert_eq!(build_amix_filter(12, 3, "x"), "[12:a:0] [12:a:1] [12:a:2] amix=inputs=3[x]");
    assert_eq!(build_amix_filter(0, 1, "0a"), "[0:a:0] amix=inputs=1[0a]");
    assert_eq!(build_amix_filter(0, 0, "0a"), " amix=inputs=0[0a]");
}

#[test]
fn concat_stage_counts_segments() {
    let inputs: Vec<String> =
        vec!["0:v", "0:a", "1:v", "1:a"].into_iter().map(String::from).collect();
    assert_eq!(
        build_concat_filter(&inputs, "v", "a"),
        "[0:v] [0:a] [1:v] [1:a] concat=n=2:v=1:a=1 [v] [a]"
    );
    assert_eq!(build_concat_filter(&Vec::new(), "v", "a"), " concat=n=0:v=1:a=1 [v] [a]");
}

#[test]
fn builder_collects_stages_in_order() {
    let mut builder = FilterBuilder::new();
    assert!(builder.is_empty());
    assert_eq!(builder.filter_count(), 0);
    assert_eq!(builder.build_to_string(), "");
    assert!(builder.arguments().is_empty());
    builder.add_merge_amix_filter(0, 2, "0a");
    let inputs: Vec<String> = vec!["0:v", "0a"].into_iter().map(String::from).collect();
    builder.add_concat_filter(&inputs, "v", "a");
    assert!(!builder.is_empty());
    assert_eq!(builder.filter_count(), 2);
    assert_eq!(
        builder.build_to_string(),
        " -filter_complex \"[0:a:0] [0:a:1] amix=inputs=2[0a];[0:v] [0a] concat=n=1:v=1:a=1 [v] [a]\""
    );
    assert_eq!(
        builder.arguments(),
        vec![
            String::from("-filter_complex"),
            String::from("[0:a:0] [0:a:1] amix=inputs=2[0a];[0:v] [0a] concat=n=1:v=1:a=1 [v] [a]"),
        ]
    );
}

#[test]
fn mixing_applies_only_to_inputs_with_several_tracks() {
    let slices =
        vec![slice("a.mp4", None, None), slice("b.mp4", None, None), slice("c.mp4", None, None)];
    let graph = build_filter_complex(&slices, &vec![1, 2, 1], &AudioMergeType::Amix).unwrap();
    assert_eq!(
        graph,
        " -filter_complex \"[1:a:0] [1:a:1] amix=inputs=2[1a];[0:v] [0:a] [1:v] [1a] [2:v] [2:a] concat=n=3:v=1:a=1 [v] [a]\" -map \"[v]\" -map \"[a]\""
    );
    let builder = filter_graph(&vec![1, 2, 1], AudioMergeType::Amix);
    assert_eq!(builder.filter_count(), 2);
}

#[test]
fn no_mixing_without_the_policy() {
    let slices = vec![slice("a.mp4", None, None), slice("b.mp4", None, None)];
    let graph = build_filter_complex(&slices, &vec![3, 2], &AudioMergeType::Passthrough).unwrap();
    assert_eq!(
        graph,
        " -filter_complex \"[0:v] [0:a] [1:v] [1:a] concat=n=2:v=1:a=1 [v] [a]\" -map \"[v]\" -map \"[a]\""
    );
    let both = build_filter_complex(&slices, &vec![3, 0], &AudioMergeType::Both).unwrap();
    assert_eq!(
        both,
        " -filter_complex \"[0:a:0] [0:a:1] [0:a:2] amix=inputs=3[0a];[0:v] [0a] [1:v] [1:a] concat=n=2:v=1:a=1 [v] [a]\" -map \"[v]\" -map \"[a]\""
    );
}

#[test]
fn track_counts_must_match_the_slices() {
    let slices = vec![slice("a.mp4", None, None)];
    assert_eq!(
        build_filter_complex(&slices, &vec![1, 1], &AudioMergeType::Amix),
        Err(ExportError::TrackCountMismatch)
    );
    let s = settings(SizeControlType::Unconstrained, AudioMergeType::Amix, "o.mp4");
    assert_eq!(
        build_export_command("ffmpeg", &slices, &vec![], &s),
        Err(ExportError::TrackCountMismatch)
    );
    assert!(matches!(
        prepare_export("ffmpeg", &slices, &vec![], &s),
        Err(ExportError::TrackCountMismatch)
    ));
}

#[test]
fn header_names_the_program_and_overwrites() {
    assert_eq!(build_command_header("ffmpeg"), "ffmpeg -y");
    assert_eq!(
        build_command_header("C:\\my tools\\ffmpeg.exe"),
        "\"C:\\\\my tools\\\\ffmpeg.exe\" -y"
    );
    assert_eq!(build_command_header_without_executeable(), " -y");
}

#[test]
fn trim_bounds_stand_before_the_input() {
    assert_eq!(build_video_input(&slice("a.mp4", None, None)), " -i a.mp4");
    assert_eq!(
        build_video_input(&slice("a.mp4", Some("00:00:05"), Some("00:00:10"))),
        " -ss 00:00:05 -to 00:00:10 -i a.mp4"
    );
    assert_eq!(build_video_input(&slice("my a.mp4", Some("5"), None)), " -ss 5 -i \"my a.mp4\"");
    assert_eq!(build_video_input(&slice("a.mp4", None, Some("7.5"))), " -to 7.5 -i a.mp4");
}

#[test]
fn tail_follows_the_size_control_policy() {
    let none = settings(SizeControlType::Unconstrained, AudioMergeType::Passthrough, "o.mp4");
    assert_eq!(build_command_tail("out dir/o.mp4", &none), " \"out dir/o.mp4\"");
    let mbps = settings(SizeControlType::Mbps, AudioMergeType::Passthrough, "o.mp4");
    assert_eq!(build_command_tail("o.mp4", &mbps), " -b:v 8M o.mp4");
    let x264 = settings(SizeControlType::X264, AudioMergeType::Passthrough, "o.mp4");
    assert_eq!(
        build_command_tail("o.mp4", &x264),
        " -c:v libx264 -crf 23.5 -preset veryslow -keyint_min 600 -g 600 -refs 4 -bf 3 -me_method umh -sc_threshold 60 -b_strategy 1 -qcomp 0.5 -psy-rd 0.3:0 -aq-mode 2 -aq-strength 0.8 -c:a aac -b:a 128k -movflags faststart o.mp4"
    );
}

#[test]
fn export_command_orders_its_parts() {
    let slices = vec![slice("a.mp4", Some("1"), Some("2")), slice("b c.mp4", None, None)];
    let s = settings(SizeControlType::Mbps, AudioMergeType::Amix, "out/final cut.mp4");
    let command = build_export_command("ffmpeg", &slices, &vec![2, 1], &s).unwrap();
    assert_eq!(
        command,
        "ffmpeg -y -ss 1 -to 2 -i a.mp4 -i \"b c.mp4\" -filter_complex \"[0:a:0] [0:a:1] amix=inputs=2[0a];[0:v] [0a] [1:v] [1:a] concat=n=2:v=1:a=1 [v] [a]\" -map \"[v]\" -map \"[a]\" -b:v 8M \"out/final cut.mp4\""
    );
}

#[test]
fn prepared_export_holds_the_program_and_its_arguments() {
    let slices = vec![slice("a.mp4", Some("1"), Some("2")), slice("b c.mp4", None, None)];
    let s = settings(SizeControlType::Unconstrained, AudioMergeType::Passthrough, "o p.mp4");
    let invocation = prepare_export("C:\\t\\ffmpeg.exe", &slices, &vec![1, 1], &s).unwrap();
    assert_eq!(invocation.program, "C:\\t\\ffmpeg.exe");
    let expected: Vec<String> = vec![
        "-y", "-ss", "1", "-to", "2", "-i", "a.mp4", "-i", "b c.mp4", "-filter_complex",
        "[0:v] [0:a] [1:v] [1:a] concat=n=2:v=1:a=1 [v] [a]", "-map", "[v]", "-map", "[a]",
        "o p.mp4",
    ]
    .into_iter()
    .map(String::from)
    .collect();
    assert_eq!(invocation.args, expected);
}

#[test]
fn words_are_taken_apart_into_program_and_arguments() {
    assert!(matches!(invocation_from_words(None), Err(ExportError::SplitFailed)));
    assert!(matches!(invocation_from_words(Some(Vec::new())), Err(ExportError::EmptyCommand)));
    let invocation =
        invocation_from_words(Some(vec![String::from("p"), String::from("a"), String::from("b")]))
            .unwrap();
    assert_eq!(invocation.program, "p");
    assert_eq!(invocation.args, vec![String::from("a"), String::from("b")]);
    let alone = invocation_from_words(Some(vec![String::from("p")])).unwrap();
    assert_eq!(alone.program, "p");
    assert!(alone.args.is_empty());
}

fn strings(words: &[&str]) -> Vec<String> {
    words.iter().map(|w| w.to_string()).collect()
}

#[test]
fn argument_lists_hold_the_words_unquoted() {
    assert_eq!(
        input_argument_list(&slice("my a.mp4", Some("1"), Some("2"))),
        strings(&["-ss", "1", "-to", "2", "-i", "my a.mp4"])
    );
    assert_eq!(input_argument_list(&slice("a.mp4", None, None)), strings(&["-i", "a.mp4"]));
    let mbps = settings(SizeControlType::Mbps, AudioMergeType::Passthrough, "o.mp4");
    assert_eq!(
        tail_argument_list("out dir/o.mp4", &mbps),
        strings(&["-b:v", "8M", "out dir/o.mp4"])
    );
    let none = settings(SizeControlType::Unconstrained, AudioMergeType::Passthrough, "o.mp4");
    assert_eq!(tail_argument_list("o.mp4", &none), strings(&["o.mp4"]));
    let x264 = settings(SizeControlType::X264, AudioMergeType::Passthrough, "o.mp4");
    let tail = tail_argument_list("o.mp4", &x264);
    assert_eq!(tail.len(), 35);
    assert_eq!(tail[0], "-c:v");
    assert_eq!(tail[33], "faststart");
    assert_eq!(tail[34], "o.mp4");
    let graph = graph_argument_list(&filter_graph(&vec![1], AudioMergeType::Amix));
    assert_eq!(
        graph,
        strings(&[
            "-filter_complex",
            "[0:v] [0:a] concat=n=1:v=1:a=1 [v] [a]",
            "-map",
            "[v]",
            "-map",
            "[a]",
        ])
    );
}

#[test]
fn export_arguments_are_what_the_command_line_renders() {
    let slices = vec![slice("a.mp4", Some("1"), Some("2")), slice("b c.mp4", None, None)];
    let s = settings(SizeControlType::Mbps, AudioMergeType::Amix, "out/final cut.mp4");
    let args = export_argument_list("ffmpeg", &slices, &vec![2, 1], &s);
    assert_eq!(
        args,
        strings(&[
            "ffmpeg", "-y", "-ss", "1", "-to", "2", "-i", "a.mp4", "-i", "b c.mp4",
            "-filter_complex",
            "[0:a:0] [0:a:1] amix=inputs=2[0a];[0:v] [0a] [1:v] [1:a] concat=n=2:v=1:a=1 [v] [a]",
            "-map", "[v]", "-map", "[a]", "-b:v", "8M", "out/final cut.mp4",
        ])
    );
    let command = build_export_command("ffmpeg", &slices, &vec![2, 1], &s).unwrap();
    assert_eq!(render_command(&args), command);
    assert_eq!(shlex::split(&command), Some(args));
}

#[test]
fn split_words_are_confirmed_against_the_arguments() {
    let expected = strings(&["p", "a b", "c"]);
    let invocation = confirm_invocation(&expected, Some(strings(&["p", "a b", "c"]))).unwrap();
    assert_eq!(invocation.program, "p");
    assert_eq!(invocation.args, strings(&["a b", "c"]));
    assert!(matches!(confirm_invocation(&expected, None), Err(ExportError::SplitFailed)));
    assert!(matches!(
        confirm_invocation(&expected, Some(strings(&["p", "a", "b", "c"]))),
        Err(ExportError::SplitMismatch)
    ));
    assert!(matches!(
        confirm_invocation(&expected, Some(strings(&["p", "a b"]))),
        Err(ExportError::SplitMismatch)
    ));
    assert!(matches!(
        confirm_invocation(&Vec::new(), Some(Vec::new())),
        Err(ExportError::EmptyCommand)
    ));
}

#[test]
fn word_lists_are_compared_word_by_word() {
    assert!(same_words(&strings(&["a", "b"]), &strings(&["a", "b"])));
    assert!(!same_words(&strings(&["a", "b"]), &strings(&["a", "c"])));
    assert!(!same_words(&strings(&["a", "b"]), &strings(&["a"])));
    assert!(same_words(&strings(&[]), &strings(&[])));
}
