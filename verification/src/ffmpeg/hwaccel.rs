use vstd::prelude::*;

use crate::platform::TargetOs;
use crate::text::{contains_str, has_substr, str_views, string_views, strings_of, to_chars};

verus! {

/// Video encoders the pipeline can drive.
#[derive(Debug, Clone, Copy, PartialEq, Eq, Structural)]
pub enum HardwareEncoder {
    /// macOS (Apple Silicon / Intel)
    VideoToolbox,
    /// NVIDIA GPU (Windows / Linux)
    Nvenc,
    /// Intel QuickSync (Windows / Linux)
    Qsv,
    /// AMD Radeon GPU (Windows / Linux)
    Amf,
    /// Software encoding, always available
    CpuLibx264,
}

/// The FFmpeg encoder name of an encoder.
pub open spec fn encoder_name(e: HardwareEncoder) -> Seq<char> {
    match e {
        HardwareEncoder::VideoToolbox => "h264_videotoolbox"@,
        HardwareEncoder::Nvenc => "h264_nvenc"@,
        HardwareEncoder::Qsv => "h264_qsv"@,
        HardwareEncoder::Amf => "h264_amf"@,
        HardwareEncoder::CpuLibx264 => "libx264"@,
    }
}

/// The FFmpeg arguments that select and tune an encoder.
pub open spec fn encoder_args(e: HardwareEncoder) -> Seq<Seq<char>> {
    match e {
        HardwareEncoder::VideoToolbox => seq![
            "-c:v"@, "h264_videotoolbox"@, "-b:v"@, "6500k"@, "-maxrate"@, "9000k"@,
            "-bufsize"@, "12000k"@, "-pix_fmt"@, "yuv420p"@,
        ],
        HardwareEncoder::Nvenc => seq![
            "-c:v"@, "h264_nvenc"@, "-preset"@, "p4"@, "-tune"@, "hq"@, "-rc"@, "vbr"@,
            "-cq"@, "21"@, "-b:v"@, "6500k"@, "-pix_fmt"@, "yuv420p"@,
        ],
        HardwareEncoder::Qsv => seq![
            "-c:v"@, "h264_qsv"@, "-global_quality"@, "21"@, "-b:v"@, "6500k"@,
            "-pix_fmt"@, "nv12"@,
        ],
        HardwareEncoder::Amf => seq![
            "-c:v"@, "h264_amf"@, "-quality"@, "speed"@, "-rc"@, "vbr_latency"@, "-b:v"@,
            "6500k"@, "-pix_fmt"@, "yuv420p"@,
        ],
        HardwareEncoder::CpuLibx264 => seq![
            "-c:v"@, "libx264"@, "-preset"@, "fast"@, "-crf"@, "20"@, "-pix_fmt"@, "yuv420p"@,
        ],
    }
}

/// Whether the encoder listing of FFmpeg mentions `name`.
fn listing_mentions(listing: &Vec<char>, name: &str) -> (r: bool)
    ensures
        r == has_substr(listing@, name@),
{
    contains_str(listing, name)
}

/// The choice that needs no FFmpeg run: VideoToolbox on macOS when FFmpeg is present;
/// on Windows, NVENC or AMF when their driver libraries are installed.
pub open spec fn fast_path_choice(os: TargetOs, ffmpeg_is_file: bool, nvenc_driver: bool, amf_driver: bool) -> Option<HardwareEncoder> {
    if os == TargetOs::MacOs && ffmpeg_is_file {
        Some(HardwareEncoder::VideoToolbox)
    } else if os == TargetOs::Windows && nvenc_driver {
        Some(HardwareEncoder::Nvenc)
    } else if os == TargetOs::Windows && amf_driver {
        Some(HardwareEncoder::Amf)
    } else {
        None
    }
}

/// The choice from FFmpeg's encoder listing (`None` when FFmpeg could not be run).
pub open spec fn listing_choice(os: TargetOs, listing: Option<Seq<char>>) -> HardwareEncoder {
    match listing {
        Some(s) => {
            if os == TargetOs::MacOs && has_substr(s, "h264_videotoolbox"@) {
                HardwareEncoder::VideoToolbox
            } else if has_substr(s, "h264_nvenc"@) {
                HardwareEncoder::Nvenc
            } else if has_substr(s, "h264_amf"@) {
                HardwareEncoder::Amf
            } else if has_substr(s, "h264_qsv"@) {
                HardwareEncoder::Qsv
            } else {
                HardwareEncoder::CpuLibx264
            }
        },
        None => HardwareEncoder::CpuLibx264,
    }
}

impl HardwareEncoder {
    pub fn name(&self) -> (r: &'static str)
        ensures
            r@ == encoder_name(*self),
    {
        match self {
            HardwareEncoder::VideoToolbox => "h264_videotoolbox",
            HardwareEncoder::Nvenc => "h264_nvenc",
            HardwareEncoder::Qsv => "h264_qsv",
            HardwareEncoder::Amf => "h264_amf",
            HardwareEncoder::CpuLibx264 => "libx264",
        }
    }

    /// High-throughput FFmpeg arguments for this encoder.
    pub fn default_args(&self) -> (r: Vec<String>)
        ensures
            string_views(r@) == encoder_args(*self),
    {
        let v: Vec<&str> = match self {
            HardwareEncoder::VideoToolbox => vec![
                "-c:v", "h264_videotoolbox", "-b:v", "6500k", "-maxrate", "9000k", "-bufsize",
                "12000k", "-pix_fmt", "yuv420p",
            ],
            HardwareEncoder::Nvenc => vec![
                "-c:v", "h264_nvenc", "-preset", "p4", "-tune", "hq", "-rc", "vbr", "-cq", "21",
                "-b:v", "6500k", "-pix_fmt", "yuv420p",
            ],
            HardwareEncoder::Qsv => vec![
                "-c:v", "h264_qsv", "-global_quality", "21", "-b:v", "6500k", "-pix_fmt", "nv12",
            ],
            HardwareEncoder::Amf => vec![
                "-c:v", "h264_amf", "-quality", "speed", "-rc", "vbr_latency", "-b:v", "6500k",
                "-pix_fmt", "yuv420p",
            ],
            HardwareEncoder::CpuLibx264 => vec![
                "-c:v", "libx264", "-preset", "fast", "-crf", "20", "-pix_fmt", "yuv420p",
            ],
        };
        assert(str_views(v@) =~= encoder_args(*self));
        strings_of(&v)
    }

    /// The encoder chosen without running FFmpeg, if the platform facts settle it.
    pub fn probe_fast_path(os: TargetOs, ffmpeg_is_file: bool, nvenc_driver: bool, amf_driver: bool) -> (r: Option<HardwareEncoder>)
        ensures
            r == fast_path_choice(os, ffmpeg_is_file, nvenc_driver, amf_driver),
    {
        if os == TargetOs::MacOs && ffmpeg_is_file {
            Some(HardwareEncoder::VideoToolbox)
        } else if os == TargetOs::Windows && nvenc_driver {
            Some(HardwareEncoder::Nvenc)
        } else if os == TargetOs::Windows && amf_driver {
            Some(HardwareEncoder::Amf)
        } else {
            None
        }
    }

    /// The encoder chosen from the text FFmpeg prints for `-encoders`, in the order
    /// VideoToolbox (macOS only), NVENC, AMF, QSV, with libx264 as the fallback.
    pub fn probe_from_listing(os: TargetOs, listing: Option<&str>) -> (r: HardwareEncoder)
        ensures
            r == listing_choice(
                os,
                match listing {
                    Some(s) => Some(s@),
                    None => None,
                },
            ),
    {
        match listing {
            None => HardwareEncoder::CpuLibx264,
            Some(text) => {
                let s = to_chars(text);
                if os == TargetOs::MacOs && listing_mentions(&s, "h264_videotoolbox") {
                    HardwareEncoder::VideoToolbox
                } else if listing_mentions(&s, "h264_nvenc") {
                    HardwareEncoder::Nvenc
                } else if listing_mentions(&s, "h264_amf") {
                    HardwareEncoder::Amf
                } else if listing_mentions(&s, "h264_qsv") {
                    HardwareEncoder::Qsv
                } else {
                    HardwareEncoder::CpuLibx264
                }
            },
        }
    }
}

} // verus!
