//! The external transcoding tool: its global flags, the progress lines of
//! its diagnostic output, and the decisions of a run.

use vstd::prelude::*;
use vstd::string::StrSliceExecFns;
use vstd::string::StringExecFns;
use crate::models::task::FULL_PERCENTAGE;
use crate::text::{
    all_digits, chars_of, cut, digit_of, digit_value, find_char, fit, has_prefix, number,
    opt_view, parse_number, position, push_signed_decimal, range_has_prefix, ranges_within,
    signed_decimal, views, word_ranges, words,
};

verus! {

/// The digit at place `i` of a fraction, or 0 where the fraction is shorter.
pub open spec fn fraction_digit(fraction: Seq<char>, i: int) -> nat {
    if 0 <= i < fraction.len() {
        match digit_of(fraction[i]) {
            Some(d) => d,
            None => 0,
        }
    } else {
        0
    }
}

/// The milliseconds that the digits after a decimal point stand for; what
/// follows the third digit is cut off.
pub open spec fn fraction_millis(fraction: Seq<char>) -> nat {
    fraction_digit(fraction, 0) * 100 + fraction_digit(fraction, 1) * 10 + fraction_digit(
        fraction,
        2,
    )
}

/// The milliseconds that `s` writes as seconds: digits, and after them
/// possibly a point and more digits.
pub open spec fn seconds_millis(s: Seq<char>) -> Option<nat> {
    let dot = position(s, '.');
    match number(s.take(dot)) {
        None => None,
        Some(whole) => if dot >= s.len() {
            Some(whole * 1000)
        } else if all_digits(s.skip(dot + 1)) {
            Some(whole * 1000 + fraction_millis(s.skip(dot + 1)))
        } else {
            None
        },
    }
}

/// The milliseconds that `s` writes as a time of the form `HH:MM:SS.ms`:
/// hours, minutes and seconds between two colons, each a decimal number, the
/// seconds possibly with a fraction.
pub open spec fn clock_millis(s: Seq<char>) -> Option<nat> {
    let first = position(s, ':');
    if first >= s.len() {
        None
    } else {
        let rest = s.skip(first + 1);
        let second = position(rest, ':');
        if second >= rest.len() {
            None
        } else {
            match (number(s.take(first)), number(rest.take(second)), seconds_millis(
                rest.skip(second + 1),
            )) {
                (Some(hours), Some(minutes), Some(millis)) => Some(
                    hours * 3_600_000 + minutes * 60_000 + millis,
                ),
                _ => None,
            }
        }
    }
}

fn fraction_place(text: &Vec<char>, from: usize, to: usize, i: usize) -> (d: u64)
    requires
        from <= to <= text@.len(),
        i < 3,
        all_digits(text@.subrange(from as int, to as int)),
    ensures
        d == fraction_digit(text@.subrange(from as int, to as int), i as int),
        d <= 9,
{
    if i < to - from {
        assert(text@.subrange(from as int, to as int)[i as int] == text@[from + i]);
        match digit_value(text[from + i]) {
            Some(d) => d,
            None => 0,
        }
    } else {
        0
    }
}

fn range_all_digits(text: &Vec<char>, from: usize, to: usize) -> (all: bool)
    requires
        from <= to <= text@.len(),
    ensures
        all == all_digits(text@.subrange(from as int, to as int)),
{
    let ghost s = text@.subrange(from as int, to as int);
    let mut at = from;
    while at < to
        invariant
            from <= at <= to <= text@.len(),
            s == text@.subrange(from as int, to as int),
            forall|i: int| 0 <= i < at - from ==> digit_of(#[trigger] s[i]) is Some,
        decreases to - at,
    {
        assert(s[at - from] == text@[at as int]);
        if digit_value(text[at]).is_none() {
            return false;
        }
        at += 1;
    }
    true
}

fn parse_seconds(text: &Vec<char>, from: usize, to: usize) -> (millis: Option<u64>)
    requires
        from <= to <= text@.len(),
    ensures
        millis == fit(seconds_millis(text@.subrange(from as int, to as int))),
{
    let ghost s = text@.subrange(from as int, to as int);
    let dot = find_char(text, from, to, '.');
    proof {
        assert(s.take(dot - from) =~= text@.subrange(from as int, dot as int));
    }
    let whole = parse_number(text, from, dot);
    if dot >= to {
        return match whole {
            Some(w) => w.checked_mul(1000),
            None => None,
        };
    }
    proof {
        assert(s.skip(dot - from + 1) =~= text@.subrange(dot + 1, to as int));
    }
    if !range_all_digits(text, dot + 1, to) {
        return None;
    }
    let fraction = fraction_place(text, dot + 1, to, 0) * 100 + fraction_place(
        text,
        dot + 1,
        to,
        1,
    ) * 10 + fraction_place(text, dot + 1, to, 2);
    match whole {
        Some(w) => match w.checked_mul(1000) {
            Some(thousands) => thousands.checked_add(fraction),
            None => None,
        },
        None => None,
    }
}

fn parse_clock(text: &Vec<char>, from: usize, to: usize) -> (millis: Option<u64>)
    requires
        from <= to <= text@.len(),
    ensures
        millis == fit(clock_millis(text@.subrange(from as int, to as int))),
{
    let ghost s = text@.subrange(from as int, to as int);
    let first = find_char(text, from, to, ':');
    if first >= to {
        return None;
    }
    let ghost rest = s.skip(first - from + 1);
    proof {
        assert(rest =~= text@.subrange(first + 1, to as int));
    }
    let second = find_char(text, first + 1, to, ':');
    if second >= to {
        return None;
    }
    proof {
        assert(s.take(first - from) =~= text@.subrange(from as int, first as int));
        assert(rest.take(second - first - 1) =~= text@.subrange(first + 1, second as int));
        assert(rest.skip(second - first) =~= text@.subrange(second + 1, to as int));
    }
    let hours = parse_number(text, from, first);
    let minutes = parse_number(text, first + 1, second);
    let seconds = parse_seconds(text, second + 1, to);
    let ghost h = number(s.take(first - from));
    let ghost m = number(rest.take(second - first - 1));
    let ghost ms = seconds_millis(rest.skip(second - first));
    match (hours, minutes, seconds) {
        (Some(hours), Some(minutes), Some(seconds)) => {
            match hours.checked_mul(3_600_000) {
                None => None,
                Some(hour_millis) => match minutes.checked_mul(60_000) {
                    None => None,
                    Some(minute_millis) => match hour_millis.checked_add(minute_millis) {
                        None => None,
                        Some(sum) => sum.checked_add(seconds),
                    },
                },
            }
        },
        _ => None,
    }
}

/// The share of `total` that `current` is, in hundredths of a percent and at
/// most [`FULL_PERCENTAGE`]; 0 where the total is unknown or zero.
pub open spec fn percentage_of(current: u64, total: Option<u64>) -> u32 {
    match total {
        Some(t) => if t == 0 {
            0
        } else if current as int * FULL_PERCENTAGE as int / t as int > FULL_PERCENTAGE as int {
            FULL_PERCENTAGE
        } else {
            (current as int * FULL_PERCENTAGE as int / t as int) as u32
        },
        None => 0,
    }
}

/// Computes the share of `total` that `current` is.
pub fn percentage(current: u64, total: Option<u64>) -> (share: u32)
    ensures
        share == percentage_of(current, total),
        share <= FULL_PERCENTAGE,
{
    match total {
        Some(t) => {
            if t == 0 {
                0
            } else {
                assert(current as int * FULL_PERCENTAGE as int == current as int * 10000);
                let scaled: u128 = current as u128 * 10000;
                let share: u128 = scaled / t as u128;
                if share > FULL_PERCENTAGE as u128 {
                    FULL_PERCENTAGE
                } else {
                    share as u32
                }
            }
        },
        None => 0,
    }
}

/// Whether `c` is the letter `lower` in either case.
pub open spec fn is_letter(c: char, lower: char, upper: char) -> bool {
    c == lower || c == upper
}

/// Whether the word `error` stands at index `i` of `s`, in any mix of upper
/// and lower case.
pub open spec fn error_at(s: Seq<char>, i: int) -> bool {
    &&& 0 <= i
    &&& i + 5 <= s.len()
    &&& is_letter(s[i], 'e', 'E')
    &&& is_letter(s[i + 1], 'r', 'R')
    &&& is_letter(s[i + 2], 'r', 'R')
    &&& is_letter(s[i + 3], 'o', 'O')
    &&& is_letter(s[i + 4], 'r', 'R')
}

/// Whether `s` holds the word `error` somewhere, in any mix of upper and
/// lower case.
pub open spec fn mentions_error(s: Seq<char>) -> bool {
    exists|i: int| error_at(s, i)
}

/// Tests a line for holding the word `error`, in any mix of upper and lower
/// case.
pub fn line_mentions_error(line: &Vec<char>) -> (found: bool)
    ensures
        found == mentions_error(line@),
{
    let n = line.len();
    if n < 5 {
        return false;
    }
    let mut i: usize = 0;
    while i <= n - 5
        invariant
            n == line@.len(),
            n >= 5,
            i <= n - 4,
            forall|j: int| 0 <= j < i ==> !error_at(line@, j),
        decreases n - i,
    {
        if (line[i] == 'e' || line[i] == 'E') && (line[i + 1] == 'r' || line[i + 1] == 'R') && (
        line[i + 2] == 'r' || line[i + 2] == 'R') && (line[i + 3] == 'o' || line[i + 3] == 'O')
            && (line[i + 4] == 'r' || line[i + 4] == 'R') {
            assert(error_at(line@, i as int));
            return true;
        }
        i += 1;
    }
    false
}

/// What follows `key` in `word`, where `word` begins with `key`.
pub open spec fn value_after(word: Seq<char>, key: Seq<char>) -> Option<Seq<char>> {
    if has_prefix(word, key) {
        Some(word.skip(key.len() as int))
    } else {
        None
    }
}

/// What follows `key` in the last of `words` that begins with `key`.
pub open spec fn last_value(words: Seq<Seq<char>>, key: Seq<char>) -> Option<Seq<char>>
    decreases words.len(),
{
    if words.len() == 0 {
        None
    } else {
        match value_after(words.last(), key) {
            Some(value) => Some(value),
            None => last_value(words.drop_last(), key),
        }
    }
}

/// The time, in milliseconds, of the last of `words` that begins with
/// `time=` and goes on with a time that can be read.
pub open spec fn last_time(words: Seq<Seq<char>>) -> Option<u64>
    decreases words.len(),
{
    if words.len() == 0 {
        None
    } else {
        let here = match value_after(words.last(), "time="@) {
            Some(value) => fit(clock_millis(value)),
            None => None,
        };
        match here {
            Some(millis) => Some(millis),
            None => last_time(words.drop_last()),
        }
    }
}

/// What one progress line says.
#[derive(Debug)]
pub struct ProgressUpdate {
    /// In hundredths of a percent, at most [`FULL_PERCENTAGE`].
    pub percentage: u32,
    pub speed: Option<String>,
    pub eta: Option<String>,
}

/// The values of a [`ProgressUpdate`].
pub struct ProgressUpdateView {
    pub percentage: u32,
    pub speed: Option<Seq<char>>,
    pub eta: Option<Seq<char>>,
}

impl View for ProgressUpdate {
    type V = ProgressUpdateView;

    open spec fn view(&self) -> ProgressUpdateView {
        ProgressUpdateView {
            percentage: self.percentage,
            speed: opt_view(self.speed),
            eta: opt_view(self.eta),
        }
    }
}

/// The view of an update that may be absent.
pub open spec fn opt_update_view(update: Option<ProgressUpdate>) -> Option<ProgressUpdateView> {
    match update {
        Some(u) => Some(u@),
        None => None,
    }
}

/// What the line `line` of the tool's diagnostic output says of the
/// progress, where the whole work lasts `total` milliseconds. Only a line
/// that begins with `frame=` and has a word that begins with `time=` says
/// anything. Its time is that of the last such word that can be read, or 0;
/// its speed and its remaining time are what follows `speed=` and `eta=` in
/// the last words that begin so.
pub open spec fn progress_of(line: Seq<char>, total: Option<u64>) -> Option<ProgressUpdateView> {
    if has_prefix(line, "frame="@) && last_value(words(line), "time="@) is Some {
        let current = match last_time(words(line)) {
            Some(millis) => millis,
            None => 0,
        };
        Some(
            ProgressUpdateView {
                percentage: percentage_of(current, total),
                speed: last_value(words(line), "speed="@),
                eta: last_value(words(line), "eta="@),
            },
        )
    } else {
        None
    }
}

/// Only a progress line with a time says anything, and what it says is a
/// percentage within the full percentage, which is 0 while the total is
/// unknown.
pub proof fn lemma_progress_needs_time(line: Seq<char>, total: Option<u64>)
    ensures
        !has_prefix(line, "frame="@) ==> progress_of(line, total) is None,
        last_value(words(line), "time="@) is None ==> progress_of(line, total) is None,
        progress_of(line, total) matches Some(update) ==> update.percentage <= FULL_PERCENTAGE,
        progress_of(line, None) matches Some(update) ==> update.percentage == 0,
{
}

fn range_string(line: &str, text: &Vec<char>, from: usize, to: usize) -> (out: String)
    requires
        text@ == line@,
        from <= to <= text@.len(),
    ensures
        out@ == text@.subrange(from as int, to as int),
{
    String::from_str(line.substring_char(from, to))
}

/// Reads what one line of the tool's diagnostic output says of the progress.
fn read_progress(line: &str, chars: &Vec<char>, total_duration: Option<u64>) -> (update: Option<
    ProgressUpdate,
>)
    requires
        chars@ == line@,
    ensures
        opt_update_view(update) == progress_of(line@, total_duration),
{
    let frame_key = chars_of("frame=");
    let time_key = chars_of("time=");
    let speed_key = chars_of("speed=");
    let eta_key = chars_of("eta=");
    if !range_has_prefix(chars, 0, chars.len(), &frame_key) {
        proof {
            assert(chars@.subrange(0, chars@.len() as int) =~= line@);
        }
        return None;
    }
    proof {
        assert(chars@.subrange(0, chars@.len() as int) =~= line@);
    }
    let ranges = word_ranges(chars);
    let ghost all = words(line@);
    let mut timed = false;
    let mut current: Option<u64> = None;
    let mut speed: Option<String> = None;
    let mut eta: Option<String> = None;
    let mut k: usize = 0;
    proof {
        assert(all.take(0) =~= Seq::<Seq<char>>::empty());
    }
    while k < ranges.len()
        invariant
            k <= ranges.len(),
            chars@ == line@,
            all == words(line@),
            all == cut(chars@, ranges@),
            ranges_within(ranges@, chars@.len()),
            time_key@ == "time="@,
            speed_key@ == "speed="@,
            eta_key@ == "eta="@,
            timed == (last_value(all.take(k as int), "time="@) is Some),
            current == last_time(all.take(k as int)),
            opt_view(speed) == last_value(all.take(k as int), "speed="@),
            opt_view(eta) == last_value(all.take(k as int), "eta="@),
        decreases ranges.len() - k,
    {
        let (from, to) = ranges[k];
        let ghost word = chars@.subrange(from as int, to as int);
        proof {
            assert(ranges@[k as int].0 <= ranges@[k as int].1 <= chars@.len());
            assert(all[k as int] == word);
            assert(all.take(k + 1).drop_last() =~= all.take(k as int));
            assert(all.take(k + 1).last() == word);
        }
        if range_has_prefix(chars, from, to, &time_key) {
            timed = true;
            proof {
                assert(word.skip(time_key@.len() as int) =~= chars@.subrange(
                    from + time_key@.len(),
                    to as int,
                ));
            }
            match parse_clock(chars, from + time_key.len(), to) {
                Some(millis) => {
                    current = Some(millis);
                },
                None => {},
            }
        }
        if range_has_prefix(chars, from, to, &speed_key) {
            proof {
                assert(word.skip(speed_key@.len() as int) =~= chars@.subrange(
                    from + speed_key@.len(),
                    to as int,
                ));
            }
            speed = Some(range_string(line, chars, from + speed_key.len(), to));
        }
        if range_has_prefix(chars, from, to, &eta_key) {
            proof {
                assert(word.skip(eta_key@.len() as int) =~= chars@.subrange(
                    from + eta_key@.len(),
                    to as int,
                ));
            }
            eta = Some(range_string(line, chars, from + eta_key.len(), to));
        }
        k += 1;
    }
    proof {
        assert(all.take(ranges.len() as int) =~= all);
    }
    if !timed {
        return None;
    }
    let millis = match current {
        Some(millis) => millis,
        None => 0,
    };
    Some(ProgressUpdate { percentage: percentage(millis, total_duration), speed, eta })
}

/// Why a run of the tool failed.
#[derive(Debug)]
pub enum ExecutionError {
    /// The tool reported an error on the line that is held here.
    ToolReportedError(String),
    /// The tool exited with the code that is held here, which is not 0.
    NonZeroExit(i32),
    /// The run was cancelled.
    Cancelled,
    /// The tool could not be started or followed, for the reason held here.
    SpawnFailed(String),
}

/// The values of an [`ExecutionError`].
pub enum ExecutionErrorView {
    ToolReportedError(Seq<char>),
    NonZeroExit(i32),
    Cancelled,
    SpawnFailed(Seq<char>),
}

impl View for ExecutionError {
    type V = ExecutionErrorView;

    open spec fn view(&self) -> ExecutionErrorView {
        match self {
            ExecutionError::ToolReportedError(line) => ExecutionErrorView::ToolReportedError(line@),
            ExecutionError::NonZeroExit(code) => ExecutionErrorView::NonZeroExit(*code),
            ExecutionError::Cancelled => ExecutionErrorView::Cancelled,
            ExecutionError::SpawnFailed(reason) => ExecutionErrorView::SpawnFailed(reason@),
        }
    }
}

/// The view of the result of a run.
pub open spec fn result_view(result: Result<(), ExecutionError>) -> Result<
    (),
    ExecutionErrorView,
> {
    match result {
        Ok(_) => Ok(()),
        Err(e) => Err(e@),
    }
}

/// What is said to the user of a failed run.
pub open spec fn error_message(error: ExecutionErrorView) -> Seq<char> {
    match error {
        ExecutionErrorView::ToolReportedError(line) => "FFmpeg error: "@ + line,
        ExecutionErrorView::NonZeroExit(code) => "FFmpeg process exited with code: "@
            + signed_decimal(code as int),
        ExecutionErrorView::Cancelled => "Task cancelled"@,
        ExecutionErrorView::SpawnFailed(reason) => reason,
    }
}

impl ExecutionError {
    /// What is said to the user of this failure.
    pub fn message(&self) -> (text: String)
        ensures
            text@ == error_message(self@),
    {
        match self {
            ExecutionError::ToolReportedError(line) => {
                let mut text = String::from_str("FFmpeg error: ");
                text.append(line.as_str());
                text
            },
            ExecutionError::NonZeroExit(code) => {
                let mut text = String::from_str("FFmpeg process exited with code: ");
                push_signed_decimal(&mut text, *code as i64);
                text
            },
            ExecutionError::Cancelled => String::from_str("Task cancelled"),
            ExecutionError::SpawnFailed(reason) => reason.clone(),
        }
    }
}

/// What the runner of the tool waits for.
#[derive(Debug, Clone, Copy, PartialEq, Eq, Structural)]
pub enum RunState {
    /// The next line of the diagnostic output.
    Reading,
    /// The exit of the process, its output having ended.
    Waiting,
}

/// What happens to a run.
#[derive(Debug)]
pub enum RunEvent {
    /// The tool wrote this line to its diagnostic output.
    Line(String),
    /// The diagnostic output ended.
    OutputEnded,
    /// The process exited, with this code if it has one.
    Exited(Option<i32>),
    /// The cancellation signal of the job fired.
    CancelRequested,
    /// The process could not be started or followed, for this reason.
    Failed(String),
}

/// What the runner does next.
#[derive(Debug)]
pub enum RunStep {
    /// It hands on the update, if there is one, and waits as `state` says.
    Continue { state: RunState, report: Option<ProgressUpdate> },
    /// It hands on the update, if there is one, terminates the process and
    /// returns the error.
    Abort { report: Option<ProgressUpdate>, error: ExecutionError },
    /// It hands on the update, if there is one, and returns the result: the
    /// process has exited.
    Finish { report: Option<ProgressUpdate>, result: Result<(), ExecutionError> },
}

/// The values of a [`RunStep`].
pub enum RunStepView {
    Continue { state: RunState, report: Option<ProgressUpdateView> },
    Abort { report: Option<ProgressUpdateView>, error: ExecutionErrorView },
    Finish { report: Option<ProgressUpdateView>, result: Result<(), ExecutionErrorView> },
}

impl View for RunStep {
    type V = RunStepView;

    open spec fn view(&self) -> RunStepView {
        match self {
            RunStep::Continue { state, report } => RunStepView::Continue {
                state: *state,
                report: opt_update_view(*report),
            },
            RunStep::Abort { report, error } => RunStepView::Abort {
                report: opt_update_view(*report),
                error: error@,
            },
            RunStep::Finish { report, result } => RunStepView::Finish {
                report: opt_update_view(*report),
                result: result_view(*result),
            },
        }
    }
}

/// The update that reports the work as complete.
pub open spec fn completion() -> ProgressUpdateView {
    ProgressUpdateView { percentage: FULL_PERCENTAGE, speed: None, eta: None }
}

/// What the runner does when `event` happens while it waits as `state`
/// says, where the whole work lasts `total` milliseconds.
///
/// A cancellation or a failure to follow the process ends the run at once
/// and has the process terminated. A line is read for progress, and ends the
/// run in the same way where it mentions an error; lines that arrive after
/// the output has ended are passed over. When the output has ended the
/// runner waits for the exit. An exit with code 0 completes the run, with a
/// last update that reports completion; any other exit fails it, a missing
/// code counting as -1.
pub open spec fn step_of(state: RunState, event: RunEvent, total: Option<u64>) -> RunStepView {
    match event {
        RunEvent::CancelRequested => RunStepView::Abort {
            report: None,
            error: ExecutionErrorView::Cancelled,
        },
        RunEvent::Failed(reason) => RunStepView::Abort {
            report: None,
            error: ExecutionErrorView::SpawnFailed(reason@),
        },
        RunEvent::Line(line) => match state {
            RunState::Waiting => RunStepView::Continue { state: RunState::Waiting, report: None },
            RunState::Reading => if mentions_error(line@) {
                RunStepView::Abort {
                    report: progress_of(line@, total),
                    error: ExecutionErrorView::ToolReportedError(line@),
                }
            } else {
                RunStepView::Continue {
                    state: RunState::Reading,
                    report: progress_of(line@, total),
                }
            },
        },
        RunEvent::OutputEnded => RunStepView::Continue { state: RunState::Waiting, report: None },
        RunEvent::Exited(code) => if code == Some(0i32) {
            RunStepView::Finish { report: Some(completion()), result: Ok(()) }
        } else {
            RunStepView::Finish {
                report: None,
                result: Err(
                    ExecutionErrorView::NonZeroExit(
                        match code {
                            Some(c) => c,
                            None => -1i32,
                        },
                    ),
                ),
            }
        },
    }
}

/// The flags that stand before all others: no banner, and outputs are
/// overwritten.
pub open spec fn global_flags() -> Seq<Seq<char>> {
    seq!["-hide_banner"@, "-y"@]
}

/// The name under which the tool is found where no path is given.
pub open spec fn default_program() -> Seq<char> {
    "ffmpeg"@
}

/// The external transcoding tool.
#[derive(Debug)]
pub struct FfmpegService {
    ffmpeg_path: String,
}

impl FfmpegService {
    /// The path of the tool.
    pub closed spec fn path(&self) -> Seq<char> {
        self.ffmpeg_path@
    }

    /// The tool at `ffmpeg_path`, or under its usual name where no path is
    /// given.
    pub fn new(ffmpeg_path: Option<String>) -> (service: Self)
        ensures
            service.path() == match ffmpeg_path {
                Some(path) => path@,
                None => default_program(),
            },
    {
        let path = match ffmpeg_path {
            Some(path) => path,
            None => String::from_str("ffmpeg"),
        };
        FfmpegService { ffmpeg_path: path }
    }

    /// The path of the tool.
    pub fn program(&self) -> (path: &str)
        ensures
            path@ == self.path(),
    {
        self.ffmpeg_path.as_str()
    }

    /// The arguments of an invocation: the global flags, then `args`.
    pub fn build_command(&self, args: &Vec<String>) -> (cmd_args: Vec<String>)
        ensures
            views(cmd_args@) == global_flags() + views(args@),
    {
        let mut cmd_args: Vec<String> = Vec::new();
        cmd_args.push(String::from_str("-hide_banner"));
        cmd_args.push(String::from_str("-y"));
        let mut i: usize = 0;
        assert(views(cmd_args@) =~= global_flags() + views(args@).take(0));
        while i < args.len()
            invariant
                i <= args.len(),
                views(cmd_args@) == global_flags() + views(args@).take(i as int),
            decreases args.len() - i,
        {
            let ghost before = cmd_args@;
            cmd_args.push(args[i].clone());
            proof {
                assert(views(cmd_args@) =~= views(before).push(args@[i as int]@));
                assert(views(args@).take(i + 1) =~= views(args@).take(i as int).push(
                    args@[i as int]@,
                ));
                assert(views(cmd_args@) =~= global_flags() + views(args@).take(i + 1));
            }
            i += 1;
        }
        assert(views(args@).take(args.len() as int) =~= views(args@));
        cmd_args
    }

    /// Reads a time of the form `HH:MM:SS.ms` as milliseconds. `None` where
    /// `time_str` is not of that form or the time does not fit 64 bits.
    pub fn parse_time(time_str: &str) -> (millis: Option<u64>)
        ensures
            millis == fit(clock_millis(time_str@)),
    {
        let chars = chars_of(time_str);
        assert(chars@.subrange(0, chars@.len() as int) =~= time_str@);
        parse_clock(&chars, 0, chars.len())
    }

    /// Reads what one line of the tool's diagnostic output says of the
    /// progress, where the whole work lasts `total_duration` milliseconds;
    /// `None` where the line says nothing.
    pub fn parse_progress(&self, line: &str, total_duration: Option<u64>) -> (update: Option<
        ProgressUpdate,
    >)
        ensures
            opt_update_view(update) == progress_of(line@, total_duration),
    {
        let chars = chars_of(line);
        read_progress(line, &chars, total_duration)
    }

    /// Decides what the runner does when `event` happens while it waits as
    /// `state` says.
    pub fn execute_step(
        &self,
        state: RunState,
        event: RunEvent,
        total_duration: Option<u64>,
    ) -> (step: RunStep)
        ensures
            step@ == step_of(state, event, total_duration),
    {
        match event {
            RunEvent::CancelRequested => RunStep::Abort {
                report: None,
                error: ExecutionError::Cancelled,
            },
            RunEvent::Failed(reason) => RunStep::Abort {
                report: None,
                error: ExecutionError::SpawnFailed(reason),
            },
            RunEvent::Line(line) => match state {
                RunState::Waiting => RunStep::Continue { state: RunState::Waiting, report: None },
                RunState::Reading => {
                    let chars = chars_of(line.as_str());
                    let report = read_progress(line.as_str(), &chars, total_duration);
                    if line_mentions_error(&chars) {
                        RunStep::Abort { report, error: ExecutionError::ToolReportedError(line) }
                    } else {
                        RunStep::Continue { state: RunState::Reading, report }
                    }
                },
            },
            RunEvent::OutputEnded => RunStep::Continue { state: RunState::Waiting, report: None },
            RunEvent::Exited(code) => match code {
                Some(0) => RunStep::Finish {
                    report: Some(
                        ProgressUpdate { percentage: FULL_PERCENTAGE, speed: None, eta: None },
                    ),
                    result: Ok(()),
                },
                Some(c) => RunStep::Finish {
                    report: None,
                    result: Err(ExecutionError::NonZeroExit(c)),
                },
                None => RunStep::Finish {
                    report: None,
                    result: Err(ExecutionError::NonZeroExit(-1)),
                },
            },
        }
    }

    /// Decides how a run that was waited for ended: well where the tool
    /// succeeded, else with what it wrote to its diagnostic output.
    pub fn execute_simple(&self, success: bool, stderr: String) -> (result: Result<
        (),
        ExecutionError,
    >)
        ensures
            success ==> result is Ok,
            !success ==> result is Err && result->Err_0@ == ExecutionErrorView::ToolReportedError(
                stderr@,
            ),
    {
        if success {
            Ok(())
        } else {
            Err(ExecutionError::ToolReportedError(stderr))
        }
    }
}

} // verus!
