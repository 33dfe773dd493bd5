//! The audio tracks of a file: how the probe tool is asked for them, and
//! how its answer is read.

use vstd::prelude::*;
use crate::text::{chars_of, opt_view, push_word, views};

verus! {

/// Why the audio tracks of a file could not be counted.
#[derive(Debug)]
pub enum ProbeError {
    /// The probe tool failed; what it wrote to its diagnostic output is
    /// held here.
    ToolFailed(String),
    /// The probe tool wrote something that is no text.
    InvalidOutput,
}

/// The arguments that make the probe tool list the audio streams of
/// `file_path`, one index per line.
pub open spec fn probe_arguments(file_path: Seq<char>) -> Seq<Seq<char>> {
    seq![
        "-v"@,
        "error"@,
        "-select_streams"@,
        "a"@,
        "-show_entries"@,
        "stream=index"@,
        "-of"@,
        "csv=p=0"@,
        file_path,
    ]
}

/// The number of line feeds in `text`.
pub open spec fn line_feeds(text: Seq<char>) -> nat
    decreases text.len(),
{
    if text.len() == 0 {
        0
    } else {
        line_feeds(text.drop_last()) + if text.last() == '\n' {
            1nat
        } else {
            0nat
        }
    }
}

/// The number of lines of `text`: each line feed ends a line, and what
/// follows the last line feed is a line if it is not empty.
pub open spec fn line_count(text: Seq<char>) -> nat {
    line_feeds(text) + if text.len() > 0 && text.last() != '\n' {
        1nat
    } else {
        0nat
    }
}

/// What is made of a run of the probe tool: the number of lines that it
/// wrote is the number of audio tracks. A run that failed, or wrote
/// something that is no text, gives an error.
pub open spec fn track_count_of(success: bool, stdout: Option<Seq<char>>) -> Option<nat> {
    if !success {
        None
    } else {
        match stdout {
            Some(text) => Some(line_count(text)),
            None => None,
        }
    }
}

/// Writes the arguments that make the probe tool list the audio streams of
/// `file_path`.
pub fn audio_probe_arguments(file_path: &str) -> (args: Vec<String>)
    ensures
        views(args@) == probe_arguments(file_path@),
{
    let mut args: Vec<String> = Vec::new();
    assert(views(args@) =~= Seq::<Seq<char>>::empty());
    push_word(&mut args, "-v");
    push_word(&mut args, "error");
    push_word(&mut args, "-select_streams");
    push_word(&mut args, "a");
    push_word(&mut args, "-show_entries");
    push_word(&mut args, "stream=index");
    push_word(&mut args, "-of");
    push_word(&mut args, "csv=p=0");
    push_word(&mut args, file_path);
    args
}

/// Counts the lines of `text`.
pub fn count_lines(text: &str) -> (count: usize)
    ensures
        count == line_count(text@),
{
    let chars = chars_of(text);
    let n = chars.len();
    let mut count: usize = 0;
    let mut i: usize = 0;
    proof {
        assert(chars@.take(0) =~= Seq::<char>::empty());
    }
    while i < n
        invariant
            i <= n,
            n == chars@.len(),
            count <= i,
            count == line_feeds(chars@.take(i as int)),
        decreases n - i,
    {
        proof {
            assert(chars@.take(i + 1).drop_last() =~= chars@.take(i as int));
            assert(chars@.take(i + 1).last() == chars@[i as int]);
        }
        if chars[i] == '\n' {
            count += 1;
        }
        i += 1;
    }
    proof {
        assert(chars@.take(n as int) =~= chars@);
    }
    if n > 0 && chars[n - 1] != '\n' {
        proof {
            assert(line_feeds(chars@) < n) by {
                assert(chars@.drop_last() =~= chars@.take(n - 1));
                lemma_line_feeds_bound(chars@.drop_last());
            }
        }
        count += 1;
    }
    count
}

/// A text has no more line feeds than characters.
pub proof fn lemma_line_feeds_bound(text: Seq<char>)
    ensures
        line_feeds(text) <= text.len(),
    decreases text.len(),
{
    if text.len() > 0 {
        lemma_line_feeds_bound(text.drop_last());
    }
}

/// Reads the number of audio tracks from a run of the probe tool:
/// `success` says whether the tool succeeded, `stdout` is what it wrote, if
/// that is text, and `stderr` what it wrote to its diagnostic output.
pub fn audio_track_count(success: bool, stdout: Option<String>, stderr: String) -> (result: Result<
    usize,
    ProbeError,
>)
    ensures
        match result {
            Ok(count) => track_count_of(success, opt_view(stdout)) == Some(
                count as nat,
            ),
            Err(ProbeError::ToolFailed(text)) => !success && text@ == stderr@,
            Err(ProbeError::InvalidOutput) => success && stdout is None,
        },
{
    if !success {
        return Err(ProbeError::ToolFailed(stderr));
    }
    match stdout {
        Some(text) => Ok(count_lines(text.as_str())),
        None => Err(ProbeError::InvalidOutput),
    }
}

} // verus!
