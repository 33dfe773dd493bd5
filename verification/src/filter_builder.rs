//! Filter-graph stages: mixing the audio tracks of one input and
//! concatenating the inputs, and the builder that collects the stages.

use vstd::prelude::*;
use vstd::string::StringExecFns;
use crate::shell::{push_arguments, spaced};
use crate::text::{decimal, join_strings, joined, push_decimal, views};

verus! {

/// The label `[label]` of a stream.
pub open spec fn bracketed(label: Seq<char>) -> Seq<char> {
    seq!['['] + label + seq![']']
}

/// The label `[i:a:k]` of audio track `k` of input `i`.
pub open spec fn track_label(input_index: nat, track: nat) -> Seq<char> {
    bracketed(decimal(input_index) + ":a:"@ + decimal(track))
}

/// The labels of the first `track_count` audio tracks of input
/// `input_index`, in order.
pub open spec fn track_labels(input_index: nat, track_count: nat) -> Seq<Seq<char>> {
    Seq::new(track_count, |k: int| track_label(input_index, k as nat))
}

/// The stage that mixes the first `track_count` audio tracks of input
/// `input_index` into the stream `output_alias`.
pub open spec fn amix_filter(input_index: nat, track_count: nat, output_alias: Seq<char>) -> Seq<
    char,
> {
    joined(track_labels(input_index, track_count), " "@) + " amix=inputs="@ + decimal(track_count)
        + bracketed(output_alias)
}

/// The labels of `inputs`, each in brackets.
pub open spec fn bracketed_all(inputs: Seq<Seq<char>>) -> Seq<Seq<char>> {
    Seq::new(inputs.len(), |k: int| bracketed(inputs[k]))
}

/// The stage that concatenates the streams `inputs`, a video and an audio
/// stream per segment, into the streams `video_output` and `audio_output`.
pub open spec fn concat_filter(
    inputs: Seq<Seq<char>>,
    video_output: Seq<char>,
    audio_output: Seq<char>,
) -> Seq<char> {
    joined(bracketed_all(inputs), " "@) + " concat=n="@ + decimal(inputs.len() / 2) + ":v=1:a=1 "@
        + bracketed(video_output) + " "@ + bracketed(audio_output)
}

/// The arguments that hand the stages `filters` to the tool: none where
/// there is no stage, else the flag and the stages joined by `;`.
pub open spec fn filter_arguments(filters: Seq<Seq<char>>) -> Seq<Seq<char>> {
    if filters.len() == 0 {
        Seq::empty()
    } else {
        seq!["-filter_complex"@, joined(filters, ";"@)]
    }
}

fn push_bracketed(out: &mut String, label: &str)
    ensures
        final(out)@ == old(out)@ + bracketed(label@),
{
    proof {
        reveal_strlit("[");
        reveal_strlit("]");
    }
    out.append("[");
    out.append(label);
    out.append("]");
    assert(out@ =~= old(out)@ + bracketed(label@));
}

/// Writes the stage that mixes the first `track_count` audio tracks of input
/// `input_index` into the stream `output_alias`.
pub fn build_amix_filter(input_index: usize, track_count: usize, output_alias: &str) -> (out:
    String)
    ensures
        out@ == amix_filter(input_index as nat, track_count as nat, output_alias@),
{
    let mut inputs: Vec<String> = Vec::new();
    let mut k: usize = 0;
    while k < track_count
        invariant
            k <= track_count,
            inputs@.len() == k,
            views(inputs@) == track_labels(input_index as nat, k as nat),
        decreases track_count - k,
    {
        let mut label = String::new();
        push_decimal(&mut label, input_index as u64);
        label.append(":a:");
        push_decimal(&mut label, k as u64);
        let mut input = String::new();
        push_bracketed(&mut input, label.as_str());
        let ghost before = inputs@;
        let ghost added = input@;
        inputs.push(input);
        proof {
            assert(label@ =~= decimal(input_index as nat) + ":a:"@ + decimal(k as nat));
            assert(added =~= track_label(input_index as nat, k as nat));
            assert forall|j: int| 0 <= j < k + 1 implies views(inputs@)[j] == track_labels(
                input_index as nat,
                (k + 1) as nat,
            )[j] by {
                if j < k {
                    assert(views(before)[j] == track_labels(input_index as nat, k as nat)[j]);
                }
            }
            assert(views(inputs@) =~= track_labels(input_index as nat, (k + 1) as nat));
        }
        k += 1;
    }
    let mut out = join_strings(&inputs, " ");
    out.append(" amix=inputs=");
    push_decimal(&mut out, track_count as u64);
    push_bracketed(&mut out, output_alias);
    assert(out@ =~= amix_filter(input_index as nat, track_count as nat, output_alias@));
    out
}

/// Writes the stage that concatenates the streams `inputs` into the streams
/// `video_output` and `audio_output`.
pub fn build_concat_filter(inputs: &Vec<String>, video_output: &str, audio_output: &str) -> (out:
    String)
    ensures
        out@ == concat_filter(views(inputs@), video_output@, audio_output@),
{
    let mut labels: Vec<String> = Vec::new();
    let mut k: usize = 0;
    while k < inputs.len()
        invariant
            k <= inputs.len(),
            labels@.len() == k,
            views(labels@) == bracketed_all(views(inputs@)).take(k as int),
        decreases inputs.len() - k,
    {
        let mut label = String::new();
        push_bracketed(&mut label, inputs[k].as_str());
        let ghost before = labels@;
        let ghost added = label@;
        labels.push(label);
        proof {
            assert(added =~= bracketed(inputs@[k as int]@));
            assert forall|j: int| 0 <= j < k + 1 implies views(labels@)[j] == bracketed_all(
                views(inputs@),
            ).take(k + 1)[j] by {
                if j < k {
                    assert(views(before)[j] == bracketed_all(views(inputs@)).take(k as int)[j]);
                }
            }
            assert(views(labels@) =~= bracketed_all(views(inputs@)).take(k + 1));
        }
        k += 1;
    }
    proof {
        assert(bracketed_all(views(inputs@)).take(inputs.len() as int) =~= bracketed_all(
            views(inputs@),
        ));
    }
    let mut out = join_strings(&labels, " ");
    out.append(" concat=n=");
    push_decimal(&mut out, (inputs.len() / 2) as u64);
    out.append(":v=1:a=1 ");
    push_bracketed(&mut out, video_output);
    out.append(" ");
    push_bracketed(&mut out, audio_output);
    assert(out@ =~= concat_filter(views(inputs@), video_output@, audio_output@));
    out
}

/// Collects the stages of a filter graph in the order in which they were
/// added.
pub struct FilterBuilder {
    filters: Vec<String>,
}

impl View for FilterBuilder {
    type V = Seq<Seq<char>>;

    /// The stages added so far, in order.
    closed spec fn view(&self) -> Seq<Seq<char>> {
        views(self.filters@)
    }
}

impl FilterBuilder {
    /// A builder without stages.
    pub fn new() -> (builder: Self)
        ensures
            builder@ == Seq::<Seq<char>>::empty(),
    {
        let builder = Self { filters: Vec::new() };
        assert(builder@ =~= Seq::<Seq<char>>::empty());
        builder
    }

    /// The number of stages.
    pub fn filter_count(&self) -> (count: usize)
        ensures
            count == self@.len(),
    {
        self.filters.len()
    }

    /// Whether no stage was added.
    pub fn is_empty(&self) -> (empty: bool)
        ensures
            empty == (self@.len() == 0),
    {
        self.filters.len() == 0
    }

    /// The arguments that hand the graph to the tool: none where there is
    /// no stage.
    pub fn arguments(&self) -> (args: Vec<String>)
        ensures
            views(args@) == filter_arguments(self@),
    {
        let mut args: Vec<String> = Vec::new();
        if self.is_empty() {
            assert(views(args@) =~= filter_arguments(self@));
            return args;
        }
        args.push(String::from_str("-filter_complex"));
        args.push(join_strings(&self.filters, ";"));
        assert(views(args@) =~= filter_arguments(self@));
        args
    }

    /// The command-line fragment that hands the graph to the tool: empty
    /// where there is no stage.
    pub fn build_to_string(&self) -> (out: String)
        ensures
            out@ == spaced(filter_arguments(self@)),
    {
        let mut out = String::new();
        let args = self.arguments();
        push_arguments(&mut out, &args);
        assert(out@ =~= spaced(filter_arguments(self@)));
        out
    }

    /// Adds the stage that mixes the audio tracks of one input.
    pub fn add_merge_amix_filter(
        &mut self,
        input_index: usize,
        track_count: usize,
        output_alias: &str,
    )
        ensures
            final(self)@ == old(self)@.push(
                amix_filter(input_index as nat, track_count as nat, output_alias@),
            ),
    {
        let stage = build_amix_filter(input_index, track_count, output_alias);
        self.filters.push(stage);
        assert(self@ =~= old(self)@.push(
            amix_filter(input_index as nat, track_count as nat, output_alias@),
        ));
    }

    /// Adds the stage that concatenates the streams `inputs`.
    pub fn add_concat_filter(
        &mut self,
        inputs: &Vec<String>,
        video_output: &str,
        audio_output: &str,
    )
        ensures
            final(self)@ == old(self)@.push(
                concat_filter(views(inputs@), video_output@, audio_output@),
            ),
    {
        let stage = build_concat_filter(inputs, video_output, audio_output);
        self.filters.push(stage);
        assert(self@ =~= old(self)@.push(
            concat_filter(views(inputs@), video_output@, audio_output@),
        ));
    }
}

} // verus!
