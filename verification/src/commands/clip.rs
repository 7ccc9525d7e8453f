use vstd::prelude::*;

use crate::ffmpeg::hwaccel::{encoder_name, HardwareEncoder};
use crate::ffmpeg::{join_file, join_path, numbered_file, numbered_path, sibling_file, sibling_path};
use crate::platform::TargetOs;
use crate::text::{string_of, to_chars};

verus! {

/// What the desktop shell shows about the tools it found.
#[derive(Debug, Clone)]
pub struct SystemStatusInfo {
    pub ffmpeg_available: bool,
    pub ffmpeg_path: Option<String>,
    pub tts_engine: String,
    pub hw_encoder: String,
    pub ready: bool,
}

/// The files one exported highlight is made of.
#[derive(Debug, Clone)]
pub struct ClipFiles {
    pub voiceover_path: String,
    pub srt_path: String,
    pub ass_path: String,
    pub bgm_path: String,
    pub video_path: String,
}

pub open spec fn tts_engine_label() -> Seq<char> {
    "Sherpa-ONNX / Built-in Acoustic Engine"@
}

/// The folder the clips of the video at `video` go to: the chosen export folder, or
/// `neuroclip_exports` beside the video.
pub open spec fn export_folder(video: Seq<char>, export_dir: Option<Seq<char>>, os: TargetOs) -> Seq<char> {
    match export_dir {
        Some(d) => d,
        None => sibling_path(video, "neuroclip_exports"@, os),
    }
}

impl SystemStatusInfo {
    /// The status for what tool discovery found: the ffmpeg path and the encoder chosen for
    /// it, or nothing (then the CPU encoder is shown). The built-in speech engine makes
    /// the system ready either way.
    pub fn from_discovery(found: Option<(&str, HardwareEncoder)>) -> (r: Self)
        ensures
            r.ffmpeg_available == found is Some,
            r.tts_engine@ == tts_engine_label(),
            r.ready,
            match found {
                Some((p, e)) => r.ffmpeg_path matches Some(q) && q@ == p@ && r.hw_encoder@ == encoder_name(e),
                None => r.ffmpeg_path is None && r.hw_encoder@ == "CPU libx264"@,
            },
    {
        let (available, path, encoder) = match found {
            Some((p, e)) => (true, Some(string_of(p)), string_of(e.name())),
            None => (false, None, string_of("CPU libx264")),
        };
        SystemStatusInfo {
            ffmpeg_available: available,
            ffmpeg_path: path,
            tts_engine: string_of("Sherpa-ONNX / Built-in Acoustic Engine"),
            hw_encoder: encoder,
            ready: true,
        }
    }
}

/// The folder the clips of the video at `video_path` are exported to.
pub fn clip_export_dir(video_path: &str, export_dir: Option<&str>, os: TargetOs) -> (r: String)
    ensures
        r@ == export_folder(
            video_path@,
            match export_dir {
                Some(d) => Some(d@),
                None => None,
            },
            os,
        ),
{
    match export_dir {
        Some(d) => string_of(d),
        None => sibling_file(video_path, &to_chars("neuroclip_exports"), os),
    }
}

/// The audio track extracted for the analysis, in the export folder.
pub fn extracted_audio_path(out_dir: &str, os: TargetOs) -> (r: String)
    ensures
        r@ == join_path(out_dir@, "extracted_16k_mono.wav"@, os),
{
    join_file(out_dir, "extracted_16k_mono.wav", os)
}

/// The files exported for highlight `id` into `out_dir`.
pub fn clip_files(out_dir: &str, id: usize, os: TargetOs) -> (r: ClipFiles)
    ensures
        r.voiceover_path@ == numbered_path(out_dir@, "voiceover_clip_"@, id as nat, ".wav"@, os),
        r.srt_path@ == numbered_path(out_dir@, "subtitle_clip_"@, id as nat, ".srt"@, os),
        r.ass_path@ == numbered_path(out_dir@, "kinetic_sub_"@, id as nat, ".ass"@, os),
        r.bgm_path@ == numbered_path(out_dir@, "bgm_clip_"@, id as nat, ".wav"@, os),
        r.video_path@ == numbered_path(out_dir@, "neuroclip_highlight_"@, id as nat, ".mp4"@, os),
{
    ClipFiles {
        voiceover_path: numbered_file(out_dir, "voiceover_clip_", id, ".wav", os),
        srt_path: numbered_file(out_dir, "subtitle_clip_", id, ".srt", os),
        ass_path: numbered_file(out_dir, "kinetic_sub_", id, ".ass", os),
        bgm_path: numbered_file(out_dir, "bgm_clip_", id, ".wav", os),
        video_path: numbered_file(out_dir, "neuroclip_highlight_", id, ".mp4", os),
    }
}

} // verus!
