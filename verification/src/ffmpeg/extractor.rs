use vstd::prelude::*;

use crate::ffmpeg::FFmpegContext;
use crate::text::{
    from_chars, milli_text, push_milli, push_str, str_views, string_of, string_views, strings_of,
    to_chars,
};

verus! {

/// Pulls audio and low-resolution frames out of a video with FFmpeg.
pub struct MediaExtractor<'a> {
    pub ctx: &'a FFmpegContext,
}

/// FFmpeg arguments that extract a mono 16 kHz 16-bit PCM WAV track.
pub open spec fn wav_extraction_args(video: Seq<char>, output: Seq<char>) -> Seq<Seq<char>> {
    seq![
        "-y"@, "-i"@, video, "-vn"@, "-ac"@, "1"@, "-ar"@, "16000"@, "-c:a"@, "pcm_s16le"@,
        output,
    ]
}

/// FFmpeg arguments that extract 128x128 frames at `fps_milli / 1000` frames per second.
pub open spec fn frame_extraction_args(video: Seq<char>, pattern: Seq<char>, fps_milli: nat) -> Seq<Seq<char>> {
    seq![
        "-y"@, "-i"@, video, "-vf"@, "fps="@ + milli_text(fps_milli) + ",scale=128:128"@,
        "-q:v"@, "3"@, pattern,
    ]
}

impl<'a> MediaExtractor<'a> {
    pub fn new(ctx: &'a FFmpegContext) -> (r: Self)
        ensures
            r.ctx == ctx,
    {
        MediaExtractor { ctx }
    }

    /// Arguments of `ffmpeg -y -i <video> -vn -ac 1 -ar 16000 -c:a pcm_s16le <output>`.
    pub fn wav_args(video_path: &str, output_wav_path: &str) -> (r: Vec<String>)
        ensures
            string_views(r@) == wav_extraction_args(video_path@, output_wav_path@),
    {
        let v = vec![
            "-y",
            "-i",
            video_path,
            "-vn",
            "-ac",
            "1",
            "-ar",
            "16000",
            "-c:a",
            "pcm_s16le",
            output_wav_path,
        ];
        assert(str_views(v@) =~= wav_extraction_args(video_path@, output_wav_path@));
        strings_of(&v)
    }

    /// Arguments that sample 128x128 frames of `video_path` into `output_pattern`.
    pub fn frame_args(video_path: &str, output_pattern: &str, fps_milli: u32) -> (r: Vec<String>)
        ensures
            string_views(r@) == frame_extraction_args(
                video_path@,
                output_pattern@,
                fps_milli as nat,
            ),
    {
        let mut vf = to_chars("fps=");
        push_milli(&mut vf, fps_milli);
        push_str(&mut vf, ",scale=128:128");
        let mut r: Vec<String> = Vec::new();
        r.push(string_of("-y"));
        r.push(string_of("-i"));
        r.push(string_of(video_path));
        r.push(string_of("-vf"));
        r.push(from_chars(&vf));
        r.push(string_of("-q:v"));
        r.push(string_of("3"));
        r.push(string_of(output_pattern));
        assert(string_views(r@) =~= frame_extraction_args(
            video_path@,
            output_pattern@,
            fps_milli as nat,
        ));
        r
    }
}

} // verus!
