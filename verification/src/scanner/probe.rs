use vstd::prelude::*;

use crate::text::{string_of, string_views};

verus! {

/// Reads a video's frame size and duration with one light ffprobe call.
pub struct LightProbeEngine;

/// One stream entry of ffprobe's JSON report.
#[derive(Debug, Clone)]
pub struct ProbeStream {
    pub width: Option<i32>,
    pub height: Option<i32>,
    pub duration: Option<String>,
}

/// The parts of ffprobe's JSON report that the probe reads.
#[derive(Debug, Clone)]
pub struct ProbeReport {
    pub streams: Option<Vec<ProbeStream>>,
    pub format_duration: Option<String>,
}

/// What a probe settles on: the frame size, and the duration still as ffprobe wrote it.
#[derive(Debug, Clone)]
pub struct ProbeSummary {
    pub width: i32,
    pub height: i32,
    pub duration_text: String,
}

pub open spec fn probe_args_spec(video: Seq<char>) -> Seq<Seq<char>> {
    seq![
        "-v"@, "error"@, "-select_streams"@, "v:0"@, "-show_entries"@,
        "stream=width,height,duration:format=duration"@, "-of"@, "json"@, video,
    ]
}

/// The first stream entry, when the report lists any.
pub open spec fn first_stream(r: ProbeReport) -> Option<ProbeStream> {
    match r.streams {
        Some(v) => if v@.len() > 0 {
            Some(v@[0])
        } else {
            None
        },
        None => None,
    }
}

/// The width of the first stream, 1920 when it gives none.
pub open spec fn summary_width(r: ProbeReport) -> i32 {
    match first_stream(r) {
        Some(s) => match s.width {
            Some(w) => w,
            None => 1920,
        },
        None => 1920,
    }
}

/// The height of the first stream, 1080 when it gives none.
pub open spec fn summary_height(r: ProbeReport) -> i32 {
    match first_stream(r) {
        Some(s) => match s.height {
            Some(h) => h,
            None => 1080,
        },
        None => 1080,
    }
}

/// The duration of the first stream, else that of the container, else `0.0`.
pub open spec fn summary_duration(r: ProbeReport) -> Seq<char> {
    let from_stream = match first_stream(r) {
        Some(s) => s.duration,
        None => None,
    };
    match from_stream {
        Some(d) => d@,
        None => match r.format_duration {
            Some(d) => d@,
            None => "0.0"@,
        },
    }
}

impl LightProbeEngine {
    /// The ffprobe arguments that report the first video stream's size and duration and
    /// the container's duration, as JSON.
    pub fn probe_args(video_path: &str) -> (r: Vec<String>)
        ensures
            string_views(r@) == probe_args_spec(video_path@),
    {
        let mut r: Vec<String> = Vec::new();
        r.push(string_of("-v"));
        r.push(string_of("error"));
        r.push(string_of("-select_streams"));
        r.push(string_of("v:0"));
        r.push(string_of("-show_entries"));
        r.push(string_of("stream=width,height,duration:format=duration"));
        r.push(string_of("-of"));
        r.push(string_of("json"));
        r.push(string_of(video_path));
        assert(string_views(r@) =~= probe_args_spec(video_path@));
        r
    }

    /// The frame size and duration text a report gives, with 1920x1080 and `0.0` where it
    /// is silent.
    pub fn summarize(report: &ProbeReport) -> (r: ProbeSummary)
        ensures
            r.width == summary_width(*report),
            r.height == summary_height(*report),
            r.duration_text@ == summary_duration(*report),
    {
        let first: Option<&ProbeStream> = match &report.streams {
            Some(v) => if v.len() > 0 {
                Some(&v[0])
            } else {
                None
            },
            None => None,
        };
        let width = match first {
            Some(s) => match s.width {
                Some(w) => w,
                None => 1920,
            },
            None => 1920,
        };
        let height = match first {
            Some(s) => match s.height {
                Some(h) => h,
                None => 1080,
            },
            None => 1080,
        };
        let stream_duration: Option<&String> = match first {
            Some(s) => s.duration.as_ref(),
            None => None,
        };
        let duration_text = match stream_duration {
            Some(d) => d.clone(),
            None => match &report.format_duration {
                Some(d) => d.clone(),
                None => string_of("0.0"),
            },
        };
        ProbeSummary { width, height, duration_text }
    }
}

} // verus!
