//! The commands of the video operations: which arguments the tool gets for
//! a clip, a merge, a conversion and an audio extraction.

use vstd::prelude::*;
use vstd::string::StrSliceExecFns;
use vstd::string::StringExecFns;
use crate::export::{
    filter_graph, graph_argument_list, graph_arguments, graph_stages, AudioMergeType,
};
use crate::models::task::TaskError;
use crate::models::video::{ClipParams, ClipParamsView, MergeParams, MergeParamsView};
use crate::services::ffmpeg_service::{global_flags, FfmpegService};
use crate::text::{decimal, digit_char, push_decimal, push_word, push_words, views};

verus! {

/// The most inputs that a merge takes.
pub const MAX_MERGE_INPUTS: usize = 10;

/// How a time of `millis` milliseconds is written for the tool: the
/// seconds, and after a point the three digits of the milliseconds where
/// these are not zero.
pub open spec fn time_text(millis: u64) -> Seq<char> {
    let seconds = decimal((millis / 1000) as nat);
    let rest = (millis % 1000) as nat;
    if rest == 0 {
        seconds
    } else {
        seconds + seq![
            '.',
            digit_char(rest / 100),
            digit_char(rest / 10 % 10),
            digit_char(rest % 10),
        ]
    }
}

/// How a bitrate of `bitrate` kilobits per second is written for the tool.
pub open spec fn rate_text(bitrate: u32) -> Seq<char> {
    decimal(bitrate as nat) + "k"@
}

/// How a frame size is written for the tool.
pub open spec fn size_text(width: u32, height: u32) -> Seq<char> {
    decimal(width as nat) + "x"@ + decimal(height as nat)
}

/// Whether a clip can be made from `params`: it names an input and an
/// output, and ends after it starts.
pub open spec fn valid_clip(params: ClipParamsView) -> bool {
    &&& params.input_path.len() > 0
    &&& params.output_path.len() > 0
    &&& params.end_time > params.start_time
}

/// Whether a merge can be made from `params`: it names two inputs or more,
/// none of them empty, and an output.
pub open spec fn valid_merge(params: MergeParamsView) -> bool {
    &&& params.input_paths.len() >= 2
    &&& forall|i: int|
        0 <= i < params.input_paths.len() ==> (#[trigger] params.input_paths[i]).len() > 0
    &&& params.output_path.len() > 0
}

/// The arguments of a clip. The trim bounds stand before the input, so that
/// they apply to it.
pub open spec fn clip_arguments(params: ClipParamsView) -> Seq<Seq<char>> {
    let codec = match params.codec {
        Some(codec) => seq!["-c:v"@, codec],
        None => Seq::empty(),
    };
    let size = match (params.width, params.height) {
        (Some(width), Some(height)) => seq!["-s"@, size_text(width, height)],
        _ => Seq::empty(),
    };
    seq![
        "-ss"@,
        time_text(params.start_time),
        "-to"@,
        time_text(params.end_time),
        "-i"@,
        params.input_path,
        "-b:v"@,
        rate_text(params.bitrate),
    ] + codec + size + seq![params.output_path]
}

/// The trim bounds of a clip stand before its input: the first six
/// arguments are the start, the end and the input, in this order.
pub proof fn lemma_clip_trims_its_input(params: ClipParamsView)
    ensures
        clip_arguments(params).len() >= 9,
        clip_arguments(params).take(6) == seq![
            "-ss"@,
            time_text(params.start_time),
            "-to"@,
            time_text(params.end_time),
            "-i"@,
            params.input_path,
        ],
        clip_arguments(params).last() == params.output_path,
{
    assert(clip_arguments(params).take(6) =~= seq![
        "-ss"@,
        time_text(params.start_time),
        "-to"@,
        time_text(params.end_time),
        "-i"@,
        params.input_path,
    ]);
}

/// The arguments that open the inputs `paths`, in order.
pub open spec fn merge_inputs(paths: Seq<Seq<char>>) -> Seq<Seq<char>>
    decreases paths.len(),
{
    if paths.len() == 0 {
        Seq::empty()
    } else {
        merge_inputs(paths.drop_last()) + seq!["-i"@, paths.last()]
    }
}

/// One audio track for each of `count` inputs.
pub open spec fn single_tracks(count: nat) -> Seq<usize> {
    Seq::new(count, |i: int| 1usize)
}

/// The arguments of a merge: the inputs in order, then the graph that
/// concatenates them with its mapping, then the bitrate and the output.
pub open spec fn merge_arguments(params: MergeParamsView) -> Seq<Seq<char>> {
    merge_inputs(params.input_paths) + graph_arguments(
        graph_stages(AudioMergeType::Passthrough, single_tracks(params.input_paths.len())),
    ) + seq!["-b:v"@, rate_text(params.bitrate), params.output_path]
}

/// The arguments of a conversion to the container `format`.
pub open spec fn convert_arguments(
    input_path: Seq<char>,
    output_path: Seq<char>,
    format: Seq<char>,
    bitrate: u32,
) -> Seq<Seq<char>> {
    seq!["-i"@, input_path, "-b:v"@, rate_text(bitrate), "-f"@, format, output_path]
}

/// The arguments of an extraction of the audio, as MP3.
pub open spec fn extract_arguments(
    input_path: Seq<char>,
    output_path: Seq<char>,
    bitrate: u32,
) -> Seq<Seq<char>> {
    seq![
        "-i"@,
        input_path,
        "-vn"@,
        "-acodec"@,
        "libmp3lame"@,
        "-b:a"@,
        rate_text(bitrate),
        output_path,
    ]
}

/// The invocation of a clip: the global flags and the arguments of the
/// clip, where the parameters are valid.
pub open spec fn clip_command(params: ClipParamsView) -> Result<Seq<Seq<char>>, TaskError> {
    if valid_clip(params) {
        Ok(global_flags() + clip_arguments(params))
    } else {
        Err(TaskError::InvalidParameters)
    }
}

/// The invocation of a merge: the global flags and the arguments of the
/// merge, where the parameters are valid and the inputs are not more than
/// [`MAX_MERGE_INPUTS`].
pub open spec fn merge_command(params: MergeParamsView) -> Result<Seq<Seq<char>>, TaskError> {
    if !valid_merge(params) {
        Err(TaskError::InvalidParameters)
    } else if params.input_paths.len() > MAX_MERGE_INPUTS {
        Err(TaskError::NotImplemented)
    } else {
        Ok(global_flags() + merge_arguments(params))
    }
}

/// The view of an invocation that may have been refused.
pub open spec fn command_view(result: Result<Vec<String>, TaskError>) -> Result<
    Seq<Seq<char>>,
    TaskError,
> {
    match result {
        Ok(args) => Ok(views(args@)),
        Err(e) => Err(e),
    }
}

fn digit_text(d: u64) -> (s: String)
    requires
        d < 10,
    ensures
        s@ == seq![digit_char(d as nat)],
{
    let mut s = String::new();
    push_decimal(&mut s, d);
    assert(s@ =~= seq![digit_char(d as nat)]);
    s
}

/// Writes a time of `millis` milliseconds for the tool.
pub fn format_time(millis: u64) -> (text: String)
    ensures
        text@ == time_text(millis),
{
    let mut text = String::new();
    push_decimal(&mut text, millis / 1000);
    let rest = millis % 1000;
    if rest != 0 {
        proof {
            reveal_strlit(".");
        }
        text.append(".");
        text.append(digit_text(rest / 100).as_str());
        text.append(digit_text(rest / 10 % 10).as_str());
        text.append(digit_text(rest % 10).as_str());
    }
    assert(text@ =~= time_text(millis));
    text
}

fn format_rate(bitrate: u32) -> (text: String)
    ensures
        text@ == rate_text(bitrate),
{
    let mut text = String::new();
    push_decimal(&mut text, bitrate as u64);
    text.append("k");
    assert(text@ =~= rate_text(bitrate));
    text
}

/// Tests the parameters of a clip.
pub fn validate_clip(params: &ClipParams) -> (valid: bool)
    ensures
        valid == valid_clip(params@),
{
    params.input_path.as_str().unicode_len() > 0 && params.output_path.as_str().unicode_len() > 0
        && params.end_time > params.start_time
}

/// Tests the parameters of a merge.
pub fn validate_merge(params: &MergeParams) -> (valid: bool)
    ensures
        valid == valid_merge(params@),
{
    if params.input_paths.len() < 2 || params.output_path.as_str().unicode_len() == 0 {
        return false;
    }
    let mut i: usize = 0;
    while i < params.input_paths.len()
        invariant
            i <= params.input_paths.len(),
            forall|j: int| 0 <= j < i ==> (#[trigger] params@.input_paths[j]).len() > 0,
        decreases params.input_paths.len() - i,
    {
        if params.input_paths[i].as_str().unicode_len() == 0 {
            assert(params@.input_paths[i as int].len() == 0);
            return false;
        }
        i += 1;
    }
    true
}

/// The video operations, over the tool that carries them out.
#[derive(Debug)]
pub struct VideoService {
    ffmpeg_service: FfmpegService,
}

impl VideoService {
    /// The tool that carries the operations out.
    pub closed spec fn tool(&self) -> FfmpegService {
        self.ffmpeg_service
    }

    /// The video operations over `ffmpeg_service`.
    pub fn new(ffmpeg_service: FfmpegService) -> (service: Self)
        ensures
            service.tool() == ffmpeg_service,
    {
        VideoService { ffmpeg_service }
    }

    /// The tool that carries the operations out.
    pub fn ffmpeg(&self) -> (tool: &FfmpegService)
        ensures
            *tool == self.tool(),
    {
        &self.ffmpeg_service
    }

    /// The invocation that cuts the clip that `params` asks for: the global
    /// flags and the arguments of the clip. Parameters that are not valid
    /// are refused.
    pub fn clip_video(&self, params: &ClipParams) -> (result: Result<Vec<String>, TaskError>)
        ensures
            command_view(result) == clip_command(params@),
    {
        if !validate_clip(params) {
            return Err(TaskError::InvalidParameters);
        }
        let mut args: Vec<String> = Vec::new();
        assert(views(args@) =~= Seq::<Seq<char>>::empty());
        push_word(&mut args, "-ss");
        push_word(&mut args, format_time(params.start_time).as_str());
        push_word(&mut args, "-to");
        push_word(&mut args, format_time(params.end_time).as_str());
        push_word(&mut args, "-i");
        push_word(&mut args, params.input_path.as_str());
        push_word(&mut args, "-b:v");
        push_word(&mut args, format_rate(params.bitrate).as_str());
        match &params.codec {
            Some(codec) => {
                push_word(&mut args, "-c:v");
                push_word(&mut args, codec.as_str());
            },
            None => {},
        }
        match (params.width, params.height) {
            (Some(width), Some(height)) => {
                let mut size = String::new();
                push_decimal(&mut size, width as u64);
                size.append("x");
                push_decimal(&mut size, height as u64);
                assert(size@ =~= size_text(width, height));
                push_word(&mut args, "-s");
                push_word(&mut args, size.as_str());
            },
            _ => {},
        }
        push_word(&mut args, params.output_path.as_str());
        assert(views(args@) =~= clip_arguments(params@));
        Ok(self.ffmpeg_service.build_command(&args))
    }

    /// The invocation that merges the inputs that `params` names: the
    /// global flags and the arguments of the merge. Parameters that are not
    /// valid are refused, and so is a merge of more than
    /// [`MAX_MERGE_INPUTS`] inputs.
    pub fn merge_videos(&self, params: &MergeParams) -> (result: Result<Vec<String>, TaskError>)
        ensures
            command_view(result) == merge_command(params@),
    {
        if !validate_merge(params) {
            return Err(TaskError::InvalidParameters);
        }
        if params.input_paths.len() > MAX_MERGE_INPUTS {
            return Err(TaskError::NotImplemented);
        }
        let mut args: Vec<String> = Vec::new();
        let mut counts: Vec<usize> = Vec::new();
        let mut i: usize = 0;
        proof {
            assert(params@.input_paths.take(0) =~= Seq::<Seq<char>>::empty());
            assert(views(args@) =~= merge_inputs(params@.input_paths.take(0)));
            assert(counts@ =~= single_tracks(0));
        }
        while i < params.input_paths.len()
            invariant
                i <= params.input_paths.len(),
                views(args@) == merge_inputs(params@.input_paths.take(i as int)),
                counts@ == single_tracks(i as nat),
            decreases params.input_paths.len() - i,
        {
            let ghost before = params@.input_paths.take(i as int);
            let ghost after = params@.input_paths.take(i + 1);
            proof {
                assert(after.drop_last() =~= before);
                assert(after.last() == params.input_paths@[i as int]@);
            }
            push_word(&mut args, "-i");
            push_word(&mut args, params.input_paths[i].as_str());
            counts.push(1);
            proof {
                assert(views(args@) =~= merge_inputs(after));
                assert(counts@ =~= single_tracks((i + 1) as nat));
            }
            i += 1;
        }
        proof {
            assert(params@.input_paths.take(params.input_paths.len() as int)
                =~= params@.input_paths);
        }
        let filter_builder = filter_graph(&counts, AudioMergeType::Passthrough);
        push_words(&mut args, graph_argument_list(&filter_builder));
        push_word(&mut args, "-b:v");
        push_word(&mut args, format_rate(params.bitrate).as_str());
        push_word(&mut args, params.output_path.as_str());
        assert(views(args@) =~= merge_arguments(params@));
        Ok(self.ffmpeg_service.build_command(&args))
    }

    /// The invocation that converts `input_path` to the container `format`.
    pub fn convert_format(
        &self,
        input_path: &str,
        output_path: &str,
        format: &str,
        bitrate: u32,
    ) -> (cmd_args: Vec<String>)
        ensures
            views(cmd_args@) == global_flags() + convert_arguments(
                input_path@,
                output_path@,
                format@,
                bitrate,
            ),
    {
        let mut args: Vec<String> = Vec::new();
        assert(views(args@) =~= Seq::<Seq<char>>::empty());
        push_word(&mut args, "-i");
        push_word(&mut args, input_path);
        push_word(&mut args, "-b:v");
        push_word(&mut args, format_rate(bitrate).as_str());
        push_word(&mut args, "-f");
        push_word(&mut args, format);
        push_word(&mut args, output_path);
        self.ffmpeg_service.build_command(&args)
    }

    /// The invocation that extracts the audio of `input_path` as MP3.
    pub fn extract_audio(&self, input_path: &str, output_path: &str, bitrate: u32) -> (cmd_args:
        Vec<String>)
        ensures
            views(cmd_args@) == global_flags() + extract_arguments(
                input_path@,
                output_path@,
                bitrate,
            ),
    {
        let mut args: Vec<String> = Vec::new();
        assert(views(args@) =~= Seq::<Seq<char>>::empty());
        push_word(&mut args, "-i");
        push_word(&mut args, input_path);
        push_word(&mut args, "-vn");
        push_word(&mut args, "-acodec");
        push_word(&mut args, "libmp3lame");
        push_word(&mut args, "-b:a");
        push_word(&mut args, format_rate(bitrate).as_str());
        push_word(&mut args, output_path);
        self.ffmpeg_service.build_command(&args)
    }
}

} // verus!
