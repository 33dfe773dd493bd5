//! The export command: trimmed inputs, a filter graph that mixes and
//! concatenates them, and an output tail chosen by the size-control policy.

use vstd::prelude::*;
use vstd::string::StringExecFns;
use crate::filter_builder::{amix_filter, concat_filter, filter_arguments, FilterBuilder};
use crate::shell::{
    command_text, lemma_spaced_concat, lemma_spaced_push, push_argument, push_arguments,
    quote_token, same_words, shlex_split, spaced, split_words,
};
use crate::text::{decimal, push_decimal, push_word, push_words, views};

verus! {

/// How the size of the output is controlled.
#[derive(Debug, Clone, Copy, PartialEq, Eq)]
pub enum SizeControlType {
    /// The encoder's defaults.
    Unconstrained,
    /// A target video bitrate, in megabits per second.
    Mbps,
    /// The constrained-quality x264 preset.
    X264,
}

/// What is done with inputs that have several audio tracks.
#[derive(Debug, Clone, Copy, PartialEq, Eq)]
pub enum AudioMergeType {
    /// The tracks are left alone.
    Passthrough,
    /// All tracks of an input are mixed into one.
    Amix,
    /// All tracks are mixed, and the separate tracks are wanted too.
    Both,
}

/// One input segment of an export.
#[derive(Debug)]
pub struct VideoSlice {
    pub key: String,
    pub order: u32,
    pub file_name: String,
    pub file_path: String,
    /// Where the segment starts in its file, as the tool reads it.
    pub start_time: Option<String>,
    /// Where the segment ends in its file, as the tool reads it.
    pub end_time: Option<String>,
}

/// What the user chose for an export.
#[derive(Debug)]
pub struct ExportSettings {
    pub file_name: String,
    pub bitrate: u32,
    pub size_control_type: SizeControlType,
    pub audio_merge_type: AudioMergeType,
    pub export_path: String,
    pub use_first_video_path: bool,
}

/// Why an export command could not be prepared.
#[derive(Debug, Clone, Copy, PartialEq, Eq)]
pub enum ExportError {
    /// There is not one audio track count per slice.
    TrackCountMismatch,
    /// The command line was found erroneous when it was split.
    SplitFailed,
    /// The command line split into other words than it was written from.
    SplitMismatch,
    /// The argument list is empty: there is no program to run.
    EmptyCommand,
}

/// The program and the overwrite flag.
pub open spec fn header_arguments(ffmpeg_path: Seq<char>) -> Seq<Seq<char>> {
    seq![ffmpeg_path, "-y"@]
}

/// The arguments that open one slice: its trim bounds, where it has them,
/// and then its path.
pub open spec fn input_arguments(slice: VideoSlice) -> Seq<Seq<char>> {
    let start = match slice.start_time {
        Some(time) => seq!["-ss"@, time@],
        None => Seq::empty(),
    };
    let end = match slice.end_time {
        Some(time) => seq!["-to"@, time@],
        None => Seq::empty(),
    };
    start + end + seq!["-i"@, slice.file_path@]
}

/// The arguments that open the slices, in order.
pub open spec fn all_input_arguments(slices: Seq<VideoSlice>) -> Seq<Seq<char>>
    decreases slices.len(),
{
    if slices.len() == 0 {
        Seq::empty()
    } else {
        all_input_arguments(slices.drop_last()) + input_arguments(slices.last())
    }
}

/// Whether the audio tracks of an input with `track_count` tracks are
/// mixed: there are several, and the policy asks for mixing.
pub open spec fn mixes(policy: AudioMergeType, track_count: usize) -> bool {
    track_count > 1 && !(policy is Passthrough)
}

/// The name of the stream that holds the mixed audio of input `index`.
pub open spec fn mix_alias(index: nat) -> Seq<char> {
    decimal(index) + "a"@
}

/// The video stream of input `index`.
pub open spec fn video_stream(index: nat) -> Seq<char> {
    decimal(index) + ":v"@
}

/// The audio stream that input `index` hands to the concatenation: the
/// mixed one where its tracks are mixed, else the input's own.
pub open spec fn audio_stream(policy: AudioMergeType, index: nat, track_count: usize) -> Seq<char> {
    if mixes(policy, track_count) {
        mix_alias(index)
    } else {
        decimal(index) + ":a"@
    }
}

/// The streams that are concatenated: for each input in order its video
/// stream, then its audio stream.
pub open spec fn concat_inputs(policy: AudioMergeType, track_counts: Seq<usize>) -> Seq<Seq<char>>
    decreases track_counts.len(),
{
    if track_counts.len() == 0 {
        Seq::empty()
    } else {
        let index = (track_counts.len() - 1) as nat;
        concat_inputs(policy, track_counts.drop_last()) + seq![
            video_stream(index),
            audio_stream(policy, index, track_counts.last()),
        ]
    }
}

/// The mixing stages: one for each input whose tracks are mixed, in order.
pub open spec fn mix_stages(policy: AudioMergeType, track_counts: Seq<usize>) -> Seq<Seq<char>>
    decreases track_counts.len(),
{
    if track_counts.len() == 0 {
        Seq::empty()
    } else {
        let index = (track_counts.len() - 1) as nat;
        let earlier = mix_stages(policy, track_counts.drop_last());
        if mixes(policy, track_counts.last()) {
            earlier.push(amix_filter(index, track_counts.last() as nat, mix_alias(index)))
        } else {
            earlier
        }
    }
}

/// The stages of the export graph: the mixing stages, then the stage that
/// concatenates all inputs into the streams `v` and `a`.
pub open spec fn graph_stages(policy: AudioMergeType, track_counts: Seq<usize>) -> Seq<Seq<char>> {
    mix_stages(policy, track_counts).push(
        concat_filter(concat_inputs(policy, track_counts), "v"@, "a"@),
    )
}

/// The arguments that hand a graph to the tool and map its two output
/// streams: none where the graph has no stage.
pub open spec fn graph_arguments(stages: Seq<Seq<char>>) -> Seq<Seq<char>> {
    if stages.len() == 0 {
        Seq::empty()
    } else {
        filter_arguments(stages) + seq!["-map"@, "[v]"@, "-map"@, "[a]"@]
    }
}

/// The encoder flags of the constrained-quality preset.
pub open spec fn x264_arguments() -> Seq<Seq<char>> {
    seq![
        "-c:v"@,
        "libx264"@,
        "-crf"@,
        "23.5"@,
        "-preset"@,
        "veryslow"@,
        "-keyint_min"@,
        "600"@,
        "-g"@,
        "600"@,
        "-refs"@,
        "4"@,
        "-bf"@,
        "3"@,
        "-me_method"@,
        "umh"@,
        "-sc_threshold"@,
        "60"@,
        "-b_strategy"@,
        "1"@,
        "-qcomp"@,
        "0.5"@,
        "-psy-rd"@,
        "0.3:0"@,
        "-aq-mode"@,
        "2"@,
        "-aq-strength"@,
        "0.8"@,
        "-c:a"@,
        "aac"@,
        "-b:a"@,
        "128k"@,
        "-movflags"@,
        "faststart"@,
    ]
}

/// The encoder flags that the size-control policy selects.
pub open spec fn size_arguments(policy: SizeControlType, bitrate: u32) -> Seq<Seq<char>> {
    match policy {
        SizeControlType::Unconstrained => Seq::empty(),
        SizeControlType::Mbps => seq!["-b:v"@, decimal(bitrate as nat) + "M"@],
        SizeControlType::X264 => x264_arguments(),
    }
}

/// The end of the command: the encoder flags of the policy, then the output
/// path.
pub open spec fn tail_arguments(output_path: Seq<char>, settings: ExportSettings) -> Seq<
    Seq<char>,
> {
    size_arguments(settings.size_control_type, settings.bitrate).push(output_path)
}

/// The whole argument list of an export, the program first.
pub open spec fn export_arguments(
    ffmpeg_path: Seq<char>,
    slices: Seq<VideoSlice>,
    track_counts: Seq<usize>,
    settings: ExportSettings,
) -> Seq<Seq<char>> {
    header_arguments(ffmpeg_path) + all_input_arguments(slices) + graph_arguments(
        graph_stages(settings.audio_merge_type, track_counts),
    ) + tail_arguments(settings.export_path@, settings)
}

/// The trim bounds of a slice stand before its path: the arguments of a
/// slice end with the input flag and the path, and hold nothing but trim
/// bounds before these.
pub proof fn lemma_slice_trims_its_input(slice: VideoSlice)
    ensures
        ({
            let args = input_arguments(slice);
            let bounds = (if slice.start_time is Some {
                2int
            } else {
                0int
            }) + (if slice.end_time is Some {
                2int
            } else {
                0int
            });
            &&& args.len() == bounds + 2
            &&& args[bounds] == "-i"@
            &&& args[bounds + 1] == slice.file_path@
            &&& slice.start_time matches Some(time) ==> args[0] == "-ss"@ && args[1] == time@
            &&& slice.end_time matches Some(time) ==> args[bounds - 2] == "-to"@ && args[bounds
                - 1] == time@
        }),
{
}

/// Each input hands two streams to the concatenation, its video and one
/// audio stream, whatever the number of its audio tracks.
pub proof fn lemma_concat_inputs_len(policy: AudioMergeType, track_counts: Seq<usize>)
    ensures
        concat_inputs(policy, track_counts).len() == 2 * track_counts.len(),
    decreases track_counts.len(),
{
    if track_counts.len() > 0 {
        lemma_concat_inputs_len(policy, track_counts.drop_last());
    }
}

/// Writes the start of the command: the program and the overwrite flag.
pub fn build_command_header(ffmpeg_path: &str) -> (out: String)
    ensures
        out@ == command_text(header_arguments(ffmpeg_path@)),
{
    let mut out = quote_token(ffmpeg_path);
    push_argument(&mut out, "-y");
    proof {
        let rest = header_arguments(ffmpeg_path@).skip(1);
        assert(rest =~= Seq::<Seq<char>>::empty().push("-y"@));
        lemma_spaced_push(Seq::empty(), "-y"@);
        assert(out@ =~= command_text(header_arguments(ffmpeg_path@)));
    }
    out
}

/// Writes the start of the command without the program: the overwrite flag.
pub fn build_command_header_without_executeable() -> (out: String)
    ensures
        out@ == spaced(seq!["-y"@]),
{
    let mut out = String::new();
    push_argument(&mut out, "-y");
    proof {
        lemma_spaced_push(Seq::empty(), "-y"@);
        assert(out@ =~= spaced(seq!["-y"@]));
    }
    out
}

/// The arguments that open one slice, as a list.
pub fn input_argument_list(video_slice: &VideoSlice) -> (args: Vec<String>)
    ensures
        views(args@) == input_arguments(*video_slice),
{
    let mut args: Vec<String> = Vec::new();
    assert(views(args@) =~= Seq::<Seq<char>>::empty());
    match &video_slice.start_time {
        Some(time) => {
            push_word(&mut args, "-ss");
            push_word(&mut args, time.as_str());
        },
        None => {},
    }
    match &video_slice.end_time {
        Some(time) => {
            push_word(&mut args, "-to");
            push_word(&mut args, time.as_str());
        },
        None => {},
    }
    push_word(&mut args, "-i");
    push_word(&mut args, video_slice.file_path.as_str());
    assert(views(args@) =~= input_arguments(*video_slice));
    args
}

/// Writes the arguments that open one slice. The trim bounds stand before
/// the path, so that they apply to this input.
pub fn build_video_input(video_slice: &VideoSlice) -> (out: String)
    ensures
        out@ == spaced(input_arguments(*video_slice)),
{
    let args = input_argument_list(video_slice);
    let mut out = String::new();
    push_arguments(&mut out, &args);
    assert(out@ =~= spaced(input_arguments(*video_slice)));
    out
}

/// Builds the filter graph of an export from the number of audio tracks of
/// each slice, in the order of the slices.
pub fn filter_graph(track_counts: &Vec<usize>, policy: AudioMergeType) -> (filter_builder:
    FilterBuilder)
    ensures
        filter_builder@ == graph_stages(policy, track_counts@),
{
    let mut concat_streams: Vec<String> = Vec::new();
    let mut filter_builder = FilterBuilder::new();
    let mut index: usize = 0;
    proof {
        assert(track_counts@.take(0) =~= Seq::<usize>::empty());
        assert(views(concat_streams@) =~= concat_inputs(policy, track_counts@.take(0)));
    }
    while index < track_counts.len()
        invariant
            index <= track_counts.len(),
            views(concat_streams@) == concat_inputs(policy, track_counts@.take(index as int)),
            filter_builder@ == mix_stages(policy, track_counts@.take(index as int)),
        decreases track_counts.len() - index,
    {
        let ghost before = track_counts@.take(index as int);
        let ghost after = track_counts@.take(index + 1);
        proof {
            assert(after.drop_last() =~= before);
            assert(after.last() == track_counts@[index as int]);
        }
        let mut video = String::new();
        push_decimal(&mut video, index as u64);
        video.append(":v");
        push_word(&mut concat_streams, video.as_str());
        let audio_track_count = track_counts[index];
        let mixing = match policy {
            AudioMergeType::Passthrough => false,
            _ => audio_track_count > 1,
        };
        if mixing {
            let mut output_alias = String::new();
            push_decimal(&mut output_alias, index as u64);
            output_alias.append("a");
            filter_builder.add_merge_amix_filter(index, audio_track_count, output_alias.as_str());
            push_word(&mut concat_streams, output_alias.as_str());
            proof {
                assert(output_alias@ =~= mix_alias(index as nat));
            }
        } else {
            let mut audio = String::new();
            push_decimal(&mut audio, index as u64);
            audio.append(":a");
            push_word(&mut concat_streams, audio.as_str());
            proof {
                assert(audio@ =~= decimal(index as nat) + ":a"@);
            }
        }
        proof {
            assert(video@ =~= video_stream(index as nat));
            assert(views(concat_streams@) =~= concat_inputs(policy, after));
        }
        index += 1;
    }
    proof {
        assert(track_counts@.take(track_counts.len() as int) =~= track_counts@);
    }
    filter_builder.add_concat_filter(&concat_streams, "v", "a");
    filter_builder
}

/// The arguments that hand a graph to the tool and map its output streams:
/// none where the graph has no stage.
pub fn graph_argument_list(filter_builder: &FilterBuilder) -> (args: Vec<String>)
    ensures
        views(args@) == graph_arguments(filter_builder@),
{
    let mut args = filter_builder.arguments();
    if !filter_builder.is_empty() {
        push_word(&mut args, "-map");
        push_word(&mut args, "[v]");
        push_word(&mut args, "-map");
        push_word(&mut args, "[a]");
        assert(views(args@) =~= graph_arguments(filter_builder@));
    }
    args
}

/// Writes the filter graph of an export and the mapping of its output
/// streams. `track_counts` holds the number of audio tracks of each slice,
/// in the order of the slices.
pub fn build_filter_complex(
    slices: &Vec<VideoSlice>,
    track_counts: &Vec<usize>,
    audio_merge_type: &AudioMergeType,
) -> (result: Result<String, ExportError>)
    ensures
        slices@.len() != track_counts@.len() ==> result == Err::<String, ExportError>(
            ExportError::TrackCountMismatch,
        ),
        slices@.len() == track_counts@.len() ==> result is Ok && result->Ok_0@ == spaced(
            graph_arguments(graph_stages(*audio_merge_type, track_counts@)),
        ),
{
    if slices.len() != track_counts.len() {
        return Err(ExportError::TrackCountMismatch);
    }
    let filter_builder = filter_graph(track_counts, *audio_merge_type);
    let args = graph_argument_list(&filter_builder);
    let mut filter_complex = String::new();
    push_arguments(&mut filter_complex, &args);
    assert(filter_complex@ =~= spaced(
        graph_arguments(graph_stages(*audio_merge_type, track_counts@)),
    ));
    Ok(filter_complex)
}

/// The encoder flags of the constrained-quality preset, as a list.
fn x264_flags() -> (flags: Vec<String>)
    ensures
        views(flags@) == x264_arguments(),
{
    let mut flags: Vec<String> = Vec::new();
    assert(views(flags@) =~= Seq::<Seq<char>>::empty());
    push_word(&mut flags, "-c:v");
    push_word(&mut flags, "libx264");
    push_word(&mut flags, "-crf");
    push_word(&mut flags, "23.5");
    push_word(&mut flags, "-preset");
    push_word(&mut flags, "veryslow");
    push_word(&mut flags, "-keyint_min");
    push_word(&mut flags, "600");
    push_word(&mut flags, "-g");
    push_word(&mut flags, "600");
    push_word(&mut flags, "-refs");
    push_word(&mut flags, "4");
    push_word(&mut flags, "-bf");
    push_word(&mut flags, "3");
    push_word(&mut flags, "-me_method");
    push_word(&mut flags, "umh");
    push_word(&mut flags, "-sc_threshold");
    push_word(&mut flags, "60");
    push_word(&mut flags, "-b_strategy");
    push_word(&mut flags, "1");
    push_word(&mut flags, "-qcomp");
    push_word(&mut flags, "0.5");
    push_word(&mut flags, "-psy-rd");
    push_word(&mut flags, "0.3:0");
    push_word(&mut flags, "-aq-mode");
    push_word(&mut flags, "2");
    push_word(&mut flags, "-aq-strength");
    push_word(&mut flags, "0.8");
    push_word(&mut flags, "-c:a");
    push_word(&mut flags, "aac");
    push_word(&mut flags, "-b:a");
    push_word(&mut flags, "128k");
    push_word(&mut flags, "-movflags");
    push_word(&mut flags, "faststart");
    flags
}

/// The end of the command, as a list.
pub fn tail_argument_list(output_path: &str, settings: &ExportSettings) -> (args: Vec<String>)
    ensures
        views(args@) == tail_arguments(output_path@, *settings),
{
    let mut args: Vec<String> = Vec::new();
    assert(views(args@) =~= Seq::<Seq<char>>::empty());
    match settings.size_control_type {
        SizeControlType::Unconstrained => {},
        SizeControlType::Mbps => {
            let mut rate = String::new();
            push_decimal(&mut rate, settings.bitrate as u64);
            rate.append("M");
            assert(rate@ =~= decimal(settings.bitrate as nat) + "M"@);
            push_word(&mut args, "-b:v");
            push_word(&mut args, rate.as_str());
        },
        SizeControlType::X264 => {
            args = x264_flags();
        },
    }
    push_word(&mut args, output_path);
    args
}

/// Writes the end of the command: the encoder flags that the size-control
/// policy of `settings` selects, then the output path.
pub fn build_command_tail(output_path: &str, settings: &ExportSettings) -> (out: String)
    ensures
        out@ == spaced(tail_arguments(output_path@, *settings)),
{
    let args = tail_argument_list(output_path, settings);
    let mut out = String::new();
    push_arguments(&mut out, &args);
    assert(out@ =~= spaced(tail_arguments(output_path@, *settings)));
    out
}

/// Writes the whole command line of an export: the header, the inputs in
/// order, the filter graph with its mapping, and the tail.
pub fn build_export_command(
    ffmpeg_path: &str,
    slices: &Vec<VideoSlice>,
    track_counts: &Vec<usize>,
    settings: &ExportSettings,
) -> (result: Result<String, ExportError>)
    ensures
        slices@.len() != track_counts@.len() ==> result == Err::<String, ExportError>(
            ExportError::TrackCountMismatch,
        ),
        slices@.len() == track_counts@.len() ==> result is Ok && result->Ok_0@ == command_text(
            export_arguments(ffmpeg_path@, slices@, track_counts@, *settings),
        ),
{
    let mut command = build_command_header(ffmpeg_path);
    let ghost header = command@;
    let mut index: usize = 0;
    proof {
        assert(slices@.take(0) =~= Seq::<VideoSlice>::empty());
        assert(command@ =~= header + spaced(all_input_arguments(slices@.take(0))));
    }
    while index < slices.len()
        invariant
            index <= slices.len(),
            command@ == header + spaced(all_input_arguments(slices@.take(index as int))),
        decreases slices.len() - index,
    {
        let ghost before = slices@.take(index as int);
        let ghost after = slices@.take(index + 1);
        proof {
            assert(after.drop_last() =~= before);
            assert(after.last() == slices@[index as int]);
            lemma_spaced_concat(
                all_input_arguments(before),
                input_arguments(slices@[index as int]),
            );
        }
        let input = build_video_input(&slices[index]);
        command.append(input.as_str());
        proof {
            assert(command@ =~= header + spaced(all_input_arguments(after)));
        }
        index += 1;
    }
    proof {
        assert(slices@.take(slices.len() as int) =~= slices@);
    }
    let filter = match build_filter_complex(slices, track_counts, &settings.audio_merge_type) {
        Ok(filter) => filter,
        Err(e) => {
            return Err(e);
        },
    };
    command.append(filter.as_str());
    let tail = build_command_tail(settings.export_path.as_str(), settings);
    command.append(tail.as_str());
    proof {
        let inputs = all_input_arguments(slices@);
        let graph = graph_arguments(graph_stages(settings.audio_merge_type, track_counts@));
        let end = tail_arguments(settings.export_path@, *settings);
        let all = export_arguments(ffmpeg_path@, slices@, track_counts@, *settings);
        let flag = seq!["-y"@];
        assert(header_arguments(ffmpeg_path@).skip(1) =~= flag);
        assert(all.skip(1) =~= flag + inputs + graph + end);
        assert(all[0] == ffmpeg_path@);
        lemma_spaced_concat(flag, inputs);
        lemma_spaced_concat(flag + inputs, graph);
        lemma_spaced_concat(flag + inputs + graph, end);
        assert(command@ =~= command_text(all));
    }
    Ok(command)
}

/// A program and the arguments to run it with.
#[derive(Debug)]
pub struct Invocation {
    pub program: String,
    pub args: Vec<String>,
}

/// What is made of the words that a command line split into: the first
/// is the program, the others are its arguments.
pub open spec fn invocation_of(found: Option<Seq<Seq<char>>>) -> Result<
    (Seq<char>, Seq<Seq<char>>),
    ExportError,
> {
    match found {
        None => Err(ExportError::SplitFailed),
        Some(words) => if words.len() == 0 {
            Err(ExportError::EmptyCommand)
        } else {
            Ok((words[0], words.skip(1)))
        },
    }
}

/// The program and the arguments that an invocation holds.
pub open spec fn invocation_view(invocation: Invocation) -> (Seq<char>, Seq<Seq<char>>) {
    (invocation.program@, views(invocation.args@))
}

/// Takes the words that a command line split into apart: the program, and
/// its arguments.
pub fn invocation_from_words(found: Option<Vec<String>>) -> (result: Result<
    Invocation,
    ExportError,
>)
    ensures
        match result {
            Ok(invocation) => found is Some && invocation_of(Some(views(found->Some_0@))) == Ok::<
                (Seq<char>, Seq<Seq<char>>),
                ExportError,
            >(invocation_view(invocation)),
            Err(e) => match found {
                Some(words) => invocation_of(Some(views(words@))) == Err::<
                    (Seq<char>, Seq<Seq<char>>),
                    ExportError,
                >(e),
                None => e == ExportError::SplitFailed,
            },
        },
{
    match found {
        None => Err(ExportError::SplitFailed),
        Some(words) => {
            let mut words = words;
            let ghost all = words@;
            if words.len() == 0 {
                return Err(ExportError::EmptyCommand);
            }
            let program = words.remove(0);
            proof {
                assert(views(words@) =~= views(all).skip(1));
            }
            Ok(Invocation { program, args: words })
        },
    }
}

/// What is made of the words `found` that a command line split into,
/// where it was written from the arguments `expected`: the invocation that
/// they hold, if they are the arguments that were written.
pub open spec fn confirmed_invocation(
    expected: Seq<Seq<char>>,
    found: Option<Seq<Seq<char>>>,
) -> Result<(Seq<char>, Seq<Seq<char>>), ExportError> {
    match found {
        None => Err(ExportError::SplitFailed),
        Some(words) => if words == expected {
            invocation_of(found)
        } else {
            Err(ExportError::SplitMismatch)
        },
    }
}

/// The view of an invocation that may have been refused.
pub open spec fn invocation_result_view(result: Result<Invocation, ExportError>) -> Result<
    (Seq<char>, Seq<Seq<char>>),
    ExportError,
> {
    match result {
        Ok(invocation) => Ok(invocation_view(invocation)),
        Err(e) => Err(e),
    }
}

/// Takes the words that a command line split into for the invocation, if
/// they are the arguments `expected` that the line was written from.
pub fn confirm_invocation(expected: &Vec<String>, found: Option<Vec<String>>) -> (result: Result<
    Invocation,
    ExportError,
>)
    ensures
        invocation_result_view(result) == confirmed_invocation(
            views(expected@),
            match found {
                Some(words) => Some(views(words@)),
                None => None,
            },
        ),
{
    match found {
        None => Err(ExportError::SplitFailed),
        Some(words) => {
            if same_words(&words, expected) {
                invocation_from_words(Some(words))
            } else {
                Err(ExportError::SplitMismatch)
            }
        },
    }
}

/// The whole argument list of an export, the program first.
pub fn export_argument_list(
    ffmpeg_path: &str,
    slices: &Vec<VideoSlice>,
    track_counts: &Vec<usize>,
    settings: &ExportSettings,
) -> (args: Vec<String>)
    ensures
        views(args@) == export_arguments(ffmpeg_path@, slices@, track_counts@, *settings),
{
    let mut args: Vec<String> = Vec::new();
    assert(views(args@) =~= Seq::<Seq<char>>::empty());
    push_word(&mut args, ffmpeg_path);
    push_word(&mut args, "-y");
    let ghost header = views(args@);
    assert(header =~= header_arguments(ffmpeg_path@));
    let mut index: usize = 0;
    proof {
        assert(slices@.take(0) =~= Seq::<VideoSlice>::empty());
        assert(views(args@) =~= header + all_input_arguments(slices@.take(0)));
    }
    while index < slices.len()
        invariant
            index <= slices.len(),
            views(args@) == header + all_input_arguments(slices@.take(index as int)),
        decreases slices.len() - index,
    {
        proof {
            assert(slices@.take(index + 1).drop_last() =~= slices@.take(index as int));
            assert(slices@.take(index + 1).last() == slices@[index as int]);
        }
        push_words(&mut args, input_argument_list(&slices[index]));
        proof {
            assert(views(args@) =~= header + all_input_arguments(slices@.take(index + 1)));
        }
        index += 1;
    }
    proof {
        assert(slices@.take(slices.len() as int) =~= slices@);
    }
    let filter_builder = filter_graph(track_counts, settings.audio_merge_type);
    push_words(&mut args, graph_argument_list(&filter_builder));
    push_words(&mut args, tail_argument_list(settings.export_path.as_str(), settings));
    args
}

/// Prepares an export: writes its command line, splits it into words as
/// it is split when it is run, and hands out the program and its arguments
/// if these are the arguments that the line was written from.
pub fn prepare_export(
    ffmpeg_path: &str,
    slices: &Vec<VideoSlice>,
    track_counts: &Vec<usize>,
    settings: &ExportSettings,
) -> (result: Result<Invocation, ExportError>)
    ensures
        slices@.len() != track_counts@.len() ==> result == Err::<Invocation, ExportError>(
            ExportError::TrackCountMismatch,
        ),
        slices@.len() == track_counts@.len() ==> {
            let args = export_arguments(ffmpeg_path@, slices@, track_counts@, *settings);
            invocation_result_view(result) == confirmed_invocation(
                args,
                shlex_split(command_text(args)),
            )
        },
{
    let command = match build_export_command(ffmpeg_path, slices, track_counts, settings) {
        Ok(command) => command,
        Err(e) => {
            return Err(e);
        },
    };
    let args = export_argument_list(ffmpeg_path, slices, track_counts, settings);
    let found = split_words(command.as_str());
    confirm_invocation(&args, found)
}

} // verus!
