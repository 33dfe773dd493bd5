//! The parameters of clip and merge jobs.

use vstd::prelude::*;
use crate::text::{clone_opt_string, clone_strings, opt_view, views};

verus! {

/// What a clip job is asked to do. Times are in milliseconds from the start
/// of the input.
#[derive(Debug)]
pub struct ClipParams {
    pub input_path: String,
    pub output_path: String,
    pub start_time: u64,
    pub end_time: u64,
    /// The video bitrate, in kilobits per second.
    pub bitrate: u32,
    pub format: String,
    pub codec: Option<String>,
    pub width: Option<u32>,
    pub height: Option<u32>,
}

/// The values of a [`ClipParams`].
pub struct ClipParamsView {
    pub input_path: Seq<char>,
    pub output_path: Seq<char>,
    pub start_time: u64,
    pub end_time: u64,
    pub bitrate: u32,
    pub format: Seq<char>,
    pub codec: Option<Seq<char>>,
    pub width: Option<u32>,
    pub height: Option<u32>,
}

impl View for ClipParams {
    type V = ClipParamsView;

    open spec fn view(&self) -> ClipParamsView {
        ClipParamsView {
            input_path: self.input_path@,
            output_path: self.output_path@,
            start_time: self.start_time,
            end_time: self.end_time,
            bitrate: self.bitrate,
            format: self.format@,
            codec: opt_view(self.codec),
            width: self.width,
            height: self.height,
        }
    }
}

impl Clone for ClipParams {
    fn clone(&self) -> (copy: Self)
        ensures
            copy@ == self@,
    {
        ClipParams {
            input_path: self.input_path.clone(),
            output_path: self.output_path.clone(),
            start_time: self.start_time,
            end_time: self.end_time,
            bitrate: self.bitrate,
            format: self.format.clone(),
            codec: clone_opt_string(&self.codec),
            width: self.width,
            height: self.height,
        }
    }
}

/// What a merge job is asked to do.
#[derive(Debug)]
pub struct MergeParams {
    /// The inputs, in the order in which they are concatenated.
    pub input_paths: Vec<String>,
    pub output_path: String,
    pub format: String,
    /// The video bitrate, in kilobits per second.
    pub bitrate: u32,
}

/// The values of a [`MergeParams`].
pub struct MergeParamsView {
    pub input_paths: Seq<Seq<char>>,
    pub output_path: Seq<char>,
    pub format: Seq<char>,
    pub bitrate: u32,
}

impl View for MergeParams {
    type V = MergeParamsView;

    open spec fn view(&self) -> MergeParamsView {
        MergeParamsView {
            input_paths: views(self.input_paths@),
            output_path: self.output_path@,
            format: self.format@,
            bitrate: self.bitrate,
        }
    }
}

impl Clone for MergeParams {
    fn clone(&self) -> (copy: Self)
        ensures
            copy@ == self@,
    {
        MergeParams {
            input_paths: clone_strings(&self.input_paths),
            output_path: self.output_path.clone(),
            format: self.format.clone(),
            bitrate: self.bitrate,
        }
    }
}

} // verus!
