use vstd::prelude::*;

use crate::ffmpeg::hwaccel::{encoder_args, HardwareEncoder};
use crate::ffmpeg::FFmpegContext;
use crate::text::{
    append_strings, decimal, fixed3, from_chars, milli_text, padded_decimal, push_decimal, push_fixed3, push_milli, push_padded, push_str, str_views, string_of,
    string_views, strings_of, to_chars,
};

verus! {

/// One subtitle line with its times in milliseconds.
#[derive(Debug, Clone)]
pub struct SubtitleLine {
    pub start_ms: u64,
    pub end_ms: u64,
    pub text: String,
}

/// How a highlight is cut, mixed and encoded. Times are milliseconds; the ducking ratio and
/// threshold are thousandths.
#[derive(Debug, Clone)]
pub struct RemuxOptions {
    pub start_ms: i64,
    pub end_ms: i64,
    /// e.g. 4000 ~ 5000 (original audio pushed down by 12 dB)
    pub ducking_ratio_milli: u32,
    /// e.g. 125
    pub ducking_threshold_milli: u32,
    /// e.g. 20 ms
    pub attack_ms: u32,
    /// e.g. 250 ms
    pub release_ms: u32,
    pub subtitles_path: Option<String>,
    pub ass_subtitles_path: Option<String>,
    pub bgm_path: Option<String>,
    pub is_vertical_9_16: bool,
    pub encoder: Option<HardwareEncoder>,
}

impl RemuxOptions {
    /// The first 30 seconds, ducking ratio 4, threshold 0.125, attack 20 ms, release 250 ms,
    /// no subtitles, no background music, landscape, encoder chosen later.
    pub fn standard() -> (r: RemuxOptions)
        ensures
            r.start_ms == 0,
            r.end_ms == 30_000,
            r.ducking_ratio_milli == 4000,
            r.ducking_threshold_milli == 125,
            r.attack_ms == 20,
            r.release_ms == 250,
            r.subtitles_path is None,
            r.ass_subtitles_path is None,
            r.bgm_path is None,
            !r.is_vertical_9_16,
            r.encoder is None,
    {
        RemuxOptions {
            start_ms: 0,
            end_ms: 30_000,
            ducking_ratio_milli: 4000,
            ducking_threshold_milli: 125,
            attack_ms: 20,
            release_ms: 250,
            subtitles_path: None,
            ass_subtitles_path: None,
            bgm_path: None,
            is_vertical_9_16: false,
            encoder: None,
        }
    }
}

impl RemuxOptions {
    /// The options a highlight is rendered with: cut at `start_ms`..`end_ms`, original audio
    /// ducked with ratio 4.5 at threshold 0.125 (attack 20 ms, release 250 ms), the kinetic
    /// ASS subtitles burnt in, the background track mixed in when there is one, on
    /// `encoder`.
    pub fn for_highlight(
        start_ms: i64,
        end_ms: i64,
        ass_path: String,
        bgm_path: Option<String>,
        is_vertical_9_16: bool,
        encoder: HardwareEncoder,
    ) -> (r: RemuxOptions)
        ensures
            r.start_ms == start_ms,
            r.end_ms == end_ms,
            r.ducking_ratio_milli == 4500,
            r.ducking_threshold_milli == 125,
            r.attack_ms == 20,
            r.release_ms == 250,
            r.subtitles_path is None,
            r.ass_subtitles_path == Some(ass_path),
            r.bgm_path == bgm_path,
            r.is_vertical_9_16 == is_vertical_9_16,
            r.encoder == Some(encoder),
    {
        RemuxOptions {
            start_ms,
            end_ms,
            ducking_ratio_milli: 4500,
            ducking_threshold_milli: 125,
            attack_ms: 20,
            release_ms: 250,
            subtitles_path: None,
            ass_subtitles_path: Some(ass_path),
            bgm_path,
            is_vertical_9_16,
            encoder: Some(encoder),
        }
    }
}

/// Runs the mixing and encoding job with FFmpeg.
pub struct RemuxPipeline<'a> {
    pub ctx: &'a FFmpegContext,
}

// ---------------------------------------------------------------------------
// SRT
// ---------------------------------------------------------------------------

/// SRT time stamp `hh:mm:ss,mmm` of a time in milliseconds.
pub open spec fn srt_time(ms: nat) -> Seq<char> {
    let total_sec = ms / 1000;
    let total_min = total_sec / 60;
    padded_decimal(total_min / 60, 2) + seq![':'] + padded_decimal(total_min % 60, 2) + seq![':']
        + padded_decimal(total_sec % 60, 2) + seq![','] + padded_decimal(ms % 1000, 3)
}

/// One SRT block: the 1-based number, the time range, the text and a blank line.
pub open spec fn srt_block(number: nat, cue: SubtitleLine) -> Seq<char> {
    decimal(number) + seq!['\n'] + srt_time(cue.start_ms as nat) + " --> "@ + srt_time(
        cue.end_ms as nat,
    ) + seq!['\n'] + cue.text@ + seq!['\n', '\n']
}

/// The SRT document of the cues, numbered from 1.
pub open spec fn srt_document(cues: Seq<SubtitleLine>) -> Seq<char>
    decreases cues.len(),
{
    if cues.len() == 0 {
        Seq::empty()
    } else {
        srt_document(cues.drop_last()) + srt_block(cues.len() as nat, cues.last())
    }
}

// ---------------------------------------------------------------------------
// Remux arguments
// ---------------------------------------------------------------------------

/// A path as an FFmpeg filter argument: backslashes become slashes and colons are escaped.
pub open spec fn filter_path(p: Seq<char>) -> Seq<char>
    decreases p.len(),
{
    if p.len() == 0 {
        Seq::empty()
    } else {
        let c = p.last();
        filter_path(p.drop_last()) + if c == '\\' {
            seq!['/']
        } else if c == ':' {
            seq!['\\', ':']
        } else {
            seq![c]
        }
    }
}

/// The portrait composition: a blurred, darkened fill behind the scaled picture.
pub open spec fn portrait_graph() -> Seq<char> {
    "[0:v]split=2[bg][fg];[bg]scale=1080:1920:force_original_aspect_ratio=increase,crop=1080:1920,boxblur=25:5,eq=brightness=-0.15[bgblur];[fg]scale=1080:1920:force_original_aspect_ratio=decrease[fgscale];[bgblur][fgscale]overlay=(W-w)/2:(H-h)/2[vbase];"@
}

pub open spec fn video_label(o: RemuxOptions) -> Seq<char> {
    if o.is_vertical_9_16 {
        "vbase"@
    } else {
        "0:v"@
    }
}

/// The subtitle burn-in filter: animated ASS subtitles when given, else SRT subtitles.
pub open spec fn subtitle_graph(o: RemuxOptions) -> Seq<char> {
    match o.ass_subtitles_path {
        Some(ass) => seq!['['] + video_label(o) + "]ass='"@ + filter_path(ass@) + "'[vout];"@,
        None => match o.subtitles_path {
            Some(srt) => seq!['['] + video_label(o) + "]subtitles='"@ + filter_path(srt@)
                + "':force_style='FontSize=20,PrimaryColour=&H00FFFFFF,OutlineColour=&H00000000,BorderStyle=3,MarginV=30'[vout];"@,
            None => Seq::empty(),
        },
    }
}

pub open spec fn has_subtitles(o: RemuxOptions) -> bool {
    o.ass_subtitles_path is Some || o.subtitles_path is Some
}

/// The side-chain compressor that ducks the original audio under the voice-over.
pub open spec fn ducking_filter(o: RemuxOptions) -> Seq<char> {
    "[0:a][1:a]sidechaincompress=threshold="@ + milli_text(o.ducking_threshold_milli as nat)
        + ":ratio="@ + milli_text(o.ducking_ratio_milli as nat) + ":attack="@ + decimal(
        o.attack_ms as nat,
    ) + ":release="@ + decimal(o.release_ms as nat) + "[bg_ducked];"@
}

/// The audio graph: two-track mix, or three-track mix when background music is added.
pub open spec fn audio_graph(o: RemuxOptions) -> Seq<char> {
    if o.bgm_path is Some {
        ducking_filter(o)
            + "[2:a][1:a]sidechaincompress=threshold=0.10:ratio=5:attack=15:release=300,volume=0.45[bgm_ducked];[bg_ducked][bgm_ducked][1:a]amix=inputs=3:duration=first:dropout_transition=2[aout]"@
    } else {
        ducking_filter(o) + "[bg_ducked][1:a]amix=inputs=2:duration=first:dropout_transition=2[aout]"@
    }
}

pub open spec fn filter_graph(o: RemuxOptions) -> Seq<char> {
    (if o.is_vertical_9_16 { portrait_graph() } else { Seq::empty() }) + subtitle_graph(o)
        + audio_graph(o)
}

/// The video stream that goes to the output.
pub open spec fn video_map(o: RemuxOptions) -> Seq<char> {
    if has_subtitles(o) {
        "[vout]"@
    } else if o.is_vertical_9_16 {
        "[vbase]"@
    } else {
        "0:v"@
    }
}

/// The clip length: end minus start, at least 100 ms.
pub open spec fn clip_length_ms(o: RemuxOptions) -> int {
    if o.end_ms - o.start_ms > 100 {
        o.end_ms - o.start_ms
    } else {
        100
    }
}

pub open spec fn chosen_encoder(o: RemuxOptions) -> HardwareEncoder {
    match o.encoder {
        Some(e) => e,
        None => HardwareEncoder::CpuLibx264,
    }
}

/// The full FFmpeg argument list of a remux job.
pub open spec fn remux_args(video: Seq<char>, voiceover: Seq<char>, output: Seq<char>, o: RemuxOptions) -> Seq<Seq<char>> {
    seq![
        "-y"@,
        "-ss"@,
        fixed3(o.start_ms as int),
        "-t"@,
        fixed3(clip_length_ms(o)),
        "-i"@,
        video,
        "-i"@,
        voiceover,
    ] + match o.bgm_path {
        Some(b) => seq!["-i"@, b@],
        None => Seq::empty(),
    } + seq!["-filter_complex"@, filter_graph(o), "-map"@, video_map(o), "-map"@, "[aout]"@]
        + encoder_args(chosen_encoder(o)) + seq![
        "-c:a"@,
        "aac"@,
        "-b:a"@,
        "192k"@,
        "-movflags"@,
        "+faststart"@,
        output,
    ]
}

fn push_filter_path(out: &mut Vec<char>, p: &String)
    ensures
        final(out)@ == old(out)@ + filter_path(p@),
{
    let v = to_chars(p.as_str());
    let ghost start = out@;
    let mut i: usize = 0;
    assert(v@.take(0) =~= Seq::<char>::empty());
    while i < v.len()
        invariant
            i <= v.len(),
            out@ == start + filter_path(v@.take(i as int)),
        decreases v.len() - i,
    {
        let c = v[i];
        assert(v@.take(i + 1).drop_last() =~= v@.take(i as int));
        assert(v@.take(i + 1).last() == c);
        if c == '\\' {
            out.push('/');
        } else if c == ':' {
            out.push('\\');
            out.push(':');
        } else {
            out.push(c);
        }
        i = i + 1;
        assert(out@ =~= start + filter_path(v@.take(i as int)));
    }
    assert(v@.take(i as int) =~= v@);
}

impl<'a> RemuxPipeline<'a> {
    pub fn new(ctx: &'a FFmpegContext) -> (r: Self)
        ensures
            r.ctx == ctx,
    {
        RemuxPipeline { ctx }
    }

    /// SRT time stamp of a time in milliseconds.
    pub fn format_srt_time(ms: u64) -> (r: String)
        ensures
            r@ == srt_time(ms as nat),
    {
        let mut v: Vec<char> = Vec::new();
        Self::push_srt_time(&mut v, ms);
        assert(v@ =~= srt_time(ms as nat));
        from_chars(&v)
    }

    fn push_srt_time(out: &mut Vec<char>, ms: u64)
        ensures
            final(out)@ == old(out)@ + srt_time(ms as nat),
    {
        let ghost start = out@;
        let total_sec = ms / 1000;
        let total_min = total_sec / 60;
        push_padded(out, (total_min / 60) as u128, 2);
        out.push(':');
        push_padded(out, (total_min % 60) as u128, 2);
        out.push(':');
        push_padded(out, (total_sec % 60) as u128, 2);
        out.push(',');
        push_padded(out, (ms % 1000) as u128, 3);
        assert(out@ =~= start + srt_time(ms as nat));
    }

    /// The SRT document of the cues, numbered from 1.
    pub fn build_srt_content(cues: &Vec<SubtitleLine>) -> (r: String)
        ensures
            r@ == srt_document(cues@),
    {
        let mut v: Vec<char> = Vec::new();
        let mut i: usize = 0;
        assert(cues@.take(0) =~= Seq::<SubtitleLine>::empty());
        while i < cues.len()
            invariant
                i <= cues.len(),
                v@ == srt_document(cues@.take(i as int)),
            decreases cues.len() - i,
        {
            let cue = &cues[i];
            let ghost before = v@;
            push_decimal(&mut v, (i as u128) + 1);
            v.push('\n');
            Self::push_srt_time(&mut v, cue.start_ms);
            push_str(&mut v, " --> ");
            Self::push_srt_time(&mut v, cue.end_ms);
            v.push('\n');
            push_str(&mut v, cue.text.as_str());
            v.push('\n');
            v.push('\n');
            assert(v@ =~= before + srt_block((i + 1) as nat, *cue));
            assert(cues@.take(i + 1).drop_last() =~= cues@.take(i as int));
            i = i + 1;
        }
        assert(cues@.take(i as int) =~= cues@);
        from_chars(&v)
    }

    /// The FFmpeg arguments of a remux job: precise cut, optional portrait composition,
    /// ASS or SRT burn-in, side-chain ducking with a two- or three-track mix, and encoding.
    pub fn build_remux_args(video_path: &str, voiceover_path: &str, output_path: &str, options: &RemuxOptions) -> (r: Vec<String>)
        ensures
            string_views(r@) == remux_args(video_path@, voiceover_path@, output_path@, *options),
    {
        let o = options;
        let mut args = remux_inputs(video_path, voiceover_path, o);
        let ghost with_inputs = string_views(args@);
        let graph = filter_graph_text(o);
        args.push(string_of("-filter_complex"));
        args.push(from_chars(&graph));
        args.push(string_of("-map"));
        args.push(string_of(video_map_text(o)));
        args.push(string_of("-map"));
        args.push(string_of("[aout]"));
        let ghost mid = string_views(args@);
        assert(mid =~= with_inputs + seq![
            "-filter_complex"@,
            filter_graph(*o),
            "-map"@,
            video_map(*o),
            "-map"@,
            "[aout]"@,
        ]);
        let enc = match o.encoder {
            Some(e) => e,
            None => HardwareEncoder::CpuLibx264,
        };
        let enc_args = enc.default_args();
        append_strings(&mut args, &enc_args);
        let tail = vec!["-c:a", "aac", "-b:a", "192k", "-movflags", "+faststart", output_path];
        let tail_strings = strings_of(&tail);
        append_strings(&mut args, &tail_strings);
        assert(str_views(tail@) =~= seq![
            "-c:a"@,
            "aac"@,
            "-b:a"@,
            "192k"@,
            "-movflags"@,
            "+faststart"@,
            output_path@,
        ]);
        assert(string_views(args@) =~= remux_args(video_path@, voiceover_path@, output_path@, *o));
        args
    }
}

/// The arguments up to and including the inputs.
fn remux_inputs(video_path: &str, voiceover_path: &str, o: &RemuxOptions) -> (r: Vec<String>)
    ensures
        string_views(r@) == seq![
            "-y"@,
            "-ss"@,
            fixed3(o.start_ms as int),
            "-t"@,
            fixed3(clip_length_ms(*o)),
            "-i"@,
            video_path@,
            "-i"@,
            voiceover_path@,
        ] + match o.bgm_path {
            Some(b) => seq!["-i"@, b@],
            None => Seq::<Seq<char>>::empty(),
        },
{
    let mut start: Vec<char> = Vec::new();
    push_fixed3(&mut start, o.start_ms as i128);
    let span: i128 = (o.end_ms as i128) - (o.start_ms as i128);
    let len: i128 = if span > 100 { span } else { 100 };
    let mut dur: Vec<char> = Vec::new();
    push_fixed3(&mut dur, len);
    let mut args: Vec<String> = Vec::new();
    args.push(string_of("-y"));
    args.push(string_of("-ss"));
    args.push(from_chars(&start));
    args.push(string_of("-t"));
    args.push(from_chars(&dur));
    args.push(string_of("-i"));
    args.push(string_of(video_path));
    args.push(string_of("-i"));
    args.push(string_of(voiceover_path));
    let ghost head = string_views(args@);
    assert(head =~= seq![
        "-y"@,
        "-ss"@,
        fixed3(o.start_ms as int),
        "-t"@,
        fixed3(clip_length_ms(*o)),
        "-i"@,
        video_path@,
        "-i"@,
        voiceover_path@,
    ]);
    match &o.bgm_path {
        Some(b) => {
            args.push(string_of("-i"));
            args.push(b.clone());
        },
        None => {},
    }
    assert(string_views(args@) =~= head + match o.bgm_path {
        Some(b) => seq!["-i"@, b@],
        None => Seq::<Seq<char>>::empty(),
    });
    args
}

fn video_map_text(o: &RemuxOptions) -> (r: &'static str)
    ensures
        r@ == video_map(*o),
{
    if o.ass_subtitles_path.is_some() || o.subtitles_path.is_some() {
        "[vout]"
    } else if o.is_vertical_9_16 {
        "[vbase]"
    } else {
        "0:v"
    }
}

fn filter_graph_text(o: &RemuxOptions) -> (graph: Vec<char>)
    ensures
        graph@ == filter_graph(*o),
{
    let mut graph: Vec<char> = Vec::new();
    if o.is_vertical_9_16 {
        push_str(
            &mut graph,
            "[0:v]split=2[bg][fg];[bg]scale=1080:1920:force_original_aspect_ratio=increase,crop=1080:1920,boxblur=25:5,eq=brightness=-0.15[bgblur];[fg]scale=1080:1920:force_original_aspect_ratio=decrease[fgscale];[bgblur][fgscale]overlay=(W-w)/2:(H-h)/2[vbase];",
        );
    }
    let ghost g1 = graph@;
    assert(g1 =~= if o.is_vertical_9_16 { portrait_graph() } else { Seq::empty() });
    push_subtitle_graph(&mut graph, o);
    let ghost g2 = graph@;
    push_str(&mut graph, "[0:a][1:a]sidechaincompress=threshold=");
    push_milli(&mut graph, o.ducking_threshold_milli);
    push_str(&mut graph, ":ratio=");
    push_milli(&mut graph, o.ducking_ratio_milli);
    push_str(&mut graph, ":attack=");
    push_decimal(&mut graph, o.attack_ms as u128);
    push_str(&mut graph, ":release=");
    push_decimal(&mut graph, o.release_ms as u128);
    push_str(&mut graph, "[bg_ducked];");
    let ghost g3 = graph@;
    assert(g3 =~= g2 + ducking_filter(*o));
    if o.bgm_path.is_some() {
        push_str(
            &mut graph,
            "[2:a][1:a]sidechaincompress=threshold=0.10:ratio=5:attack=15:release=300,volume=0.45[bgm_ducked];[bg_ducked][bgm_ducked][1:a]amix=inputs=3:duration=first:dropout_transition=2[aout]",
        );
    } else {
        push_str(
            &mut graph,
            "[bg_ducked][1:a]amix=inputs=2:duration=first:dropout_transition=2[aout]",
        );
    }
    assert(graph@ =~= filter_graph(*o));
    graph
}

fn push_subtitle_graph(graph: &mut Vec<char>, o: &RemuxOptions)
    ensures
        final(graph)@ == old(graph)@ + subtitle_graph(*o),
{
    let ghost start = graph@;
    let label = if o.is_vertical_9_16 { "vbase" } else { "0:v" };
    assert(label@ == video_label(*o));
    match &o.ass_subtitles_path {
        Some(ass) => {
            graph.push('[');
            push_str(graph, label);
            push_str(graph, "]ass='");
            push_filter_path(graph, ass);
            push_str(graph, "'[vout];");
        },
        None => match &o.subtitles_path {
            Some(srt) => {
                graph.push('[');
                push_str(graph, label);
                push_str(graph, "]subtitles='");
                push_filter_path(graph, srt);
                push_str(
                    graph,
                    "':force_style='FontSize=20,PrimaryColour=&H00FFFFFF,OutlineColour=&H00000000,BorderStyle=3,MarginV=30'[vout];",
                );
            },
            None => {},
        },
    }
    assert(graph@ =~= start + subtitle_graph(*o));
}

} // verus!
