use neuroclip::ffmpeg::ass::{AssCue, AssSubtitleGenerator};
use neuroclip::ffmpeg::extractor::MediaExtractor;
use neuroclip::ffmpeg::hwaccel::HardwareEncoder;
use neuroclip::ffmpeg::pipeline::{RemuxOptions, RemuxPipeline, SubtitleLine};
use neuroclip::ffmpeg::FFmpegContext;
use neuroclip::highlight::fusion::chronological;
use neuroclip::highlight::sound_events::distinct_event_types;
use neuroclip::highlight::transnet::regular_shot_grid;
use neuroclip::highlight::{select_highlights, Candidate, ShotTransition, SoundEventType, TransNetSnapper};
use neuroclip::platform::TargetOs;
use neuroclip::script::persona::CommentaryPersona;
use neuroclip::script::prompt::{fit_to_target, CommentaryGenerator};
use neuroclip::tts::{sherpa_tts_args, BgmType};

#[test]
fn test_transnet_shot_snapping() {
    let snapper = TransNetSnapper::new(3000, 15000, 45000);
    let transitions = vec![
        ShotTransition { time_ms: 5200, frame_idx: 156 },
        ShotTransition { time_ms: 25800, frame_idx: 774 },
        ShotTransition { time_ms: 60000, frame_idx: 1800 },
    ];

    // raw interval [6.0 s, 24.5 s] (18.5 s long)
    let (snapped_start, snapped_end, start_snapped, end_snapped) =
        snapper.snap_interval(6000, 24500, &transitions, 100000);

    assert!(start_snapped, "起始点应成功吸附至镜头切点 5.2s");
    assert_eq!(snapped_start, 5200);

    assert!(end_snapped, "结束点应成功吸附至镜头切点 25.8s");
    assert_eq!(snapped_end, 25800);

    let dur = snapped_end - snapped_start;
    assert!(dur >= 15000 && dur <= 45000, "吸附后片段时长必须满足 15s~45s 约束");
}

#[test]
fn test_ffmpeg_remux_command_builder() {
    let mut opts = RemuxOptions::standard();
    opts.start_ms = 10500;
    opts.end_ms = 35500;
    opts.ducking_ratio_milli = 4000;
    opts.ducking_threshold_milli = 125;
    opts.attack_ms = 20;
    opts.release_ms = 250;
    opts.subtitles_path = Some("/path/to/subtitles.srt".to_string());

    let args = RemuxPipeline::build_remux_args(
        "/path/to/raw_video.mp4",
        "/path/to/voiceover.wav",
        "/path/to/output.mp4",
        &opts,
    );
    let args_str = args.join(" ");

    assert!(
        args_str.contains("sidechaincompress=threshold=0.125:ratio=4:attack=20:release=250"),
        "必须包含 sidechaincompress 闪避滤镜"
    );
    assert!(args_str.contains("amix=inputs=2:duration=first:dropout_transition=2"), "必须包含 amix 双路混音");
    assert!(args_str.contains("subtitles="), "必须包含硬字幕滤镜烧录");
    assert!(args_str.contains("-c:v libx264"), "视频编码必须为 libx264");
    assert!(args_str.contains("-c:a aac"), "音频编码必须为 aac");
    assert!(args_str.contains("-ss 10.500"), "精准开始时间");
    assert!(args_str.contains("-t 25.000"), "精准切片时长 (35.5 - 10.5 = 25.0s)");
}

#[test]
fn snapping_without_cuts_keeps_times_and_bounds_length() {
    let snapper = TransNetSnapper::standard();
    // too short: extended to the minimum length
    let (s, e, a, b) = snapper.snap_interval(10000, 14000, &vec![], 100000);
    assert_eq!((s, e, a, b), (10000, 25000, false, false));
    // too long: cut to the maximum length
    let (s, e, _, _) = snapper.snap_interval(10000, 80000, &vec![], 100000);
    assert_eq!((s, e), (10000, 55000));
    // clamped to the video
    let (s, e, _, _) = snapper.snap_interval(-2000, 30000, &vec![], 20000);
    assert_eq!((s, e), (0, 20000));
    // a video shorter than the minimum: the clip is the whole video
    let (s, e, _, _) = snapper.snap_interval(1000, 2000, &vec![], 9000);
    assert_eq!((s, e), (0, 9000));
}

#[test]
fn remux_vertical_with_ass_and_bgm() {
    let opts = RemuxOptions::for_highlight(
        1000,
        1050,
        "C:\\clips\\sub.ass".to_string(),
        Some("/tmp/bgm.wav".to_string()),
        true,
        HardwareEncoder::Nvenc,
    );
    let args = RemuxPipeline::build_remux_args("in.mp4", "vo.wav", "out.mp4", &opts);
    assert_eq!(&args[0..5], &["-y", "-ss", "1.000", "-t", "0.100"]);
    assert_eq!(&args[5..11], &["-i", "in.mp4", "-i", "vo.wav", "-i", "/tmp/bgm.wav"]);
    let graph = &args[12];
    assert!(graph.starts_with("[0:v]split=2[bg][fg];"));
    assert!(graph.contains("[vbase]ass='C\\:/clips/sub.ass'[vout];"));
    assert!(graph.contains("sidechaincompress=threshold=0.125:ratio=4.5:attack=20:release=250[bg_ducked]"));
    assert!(graph.ends_with("amix=inputs=3:duration=first:dropout_transition=2[aout]"));
    assert_eq!(&args[13..17], &["-map", "[vout]", "-map", "[aout]"]);
    assert_eq!(args[17], "-c:v");
    assert_eq!(args[18], "h264_nvenc");
    assert_eq!(args.last().unwrap(), "out.mp4");
}

#[test]
fn remux_landscape_without_subtitles_maps_source_video() {
    let opts = RemuxOptions::standard();
    let args = RemuxPipeline::build_remux_args("a.mp4", "b.wav", "c.mp4", &opts);
    assert_eq!(args[2], "0.000");
    assert_eq!(args[4], "30.000");
    let i = args.iter().position(|a| a == "-map").unwrap();
    assert_eq!(args[i + 1], "0:v");
}

#[test]
fn srt_and_ass_time_stamps() {
    assert_eq!(RemuxPipeline::format_srt_time(0), "00:00:00,000");
    assert_eq!(RemuxPipeline::format_srt_time(3000), "00:00:03,000");
    assert_eq!(RemuxPipeline::format_srt_time(3_725_042), "01:02:05,042");
    assert_eq!(AssSubtitleGenerator::format_ass_time(0), "0:00:00.00");
    assert_eq!(AssSubtitleGenerator::format_ass_time(372_504), "1:02:05.04");
}

#[test]
fn srt_document_numbers_cues() {
    let cues = vec![
        SubtitleLine { start_ms: 0, end_ms: 3000, text: "注意看".to_string() },
        SubtitleLine { start_ms: 3000, end_ms: 5500, text: "翻盘".to_string() },
    ];
    let srt = RemuxPipeline::build_srt_content(&cues);
    assert_eq!(
        srt,
        "1\n00:00:00,000 --> 00:00:03,000\n注意看\n\n2\n00:00:03,000 --> 00:00:05,500\n翻盘\n\n"
    );
    assert!(srt.contains("00:00:00,000 --> 00:00:03,000"));
}

#[test]
fn ass_script_has_layout_and_events() {
    let cues = vec![AssCue { start_cs: 0, end_cs: 300, span_cs: 20, text: "注意看这里".to_string() }];
    let v = AssSubtitleGenerator::generate_ass_script(&cues, true);
    assert!(v.contains("PlayResX: 1080\nPlayResY: 1920"));
    assert!(v.contains("Dialogue: "));
    assert!(v.contains("0:00:00.00"));
    assert!(v.contains("0:00:03.00"));
    let h = AssSubtitleGenerator::generate_ass_script(&vec![], false);
    assert!(h.contains("PlayResX: 1920\nPlayResY: 1080"));
    assert!(h.ends_with("Format: Layer, Start, End, Style, Name, MarginL, MarginR, MarginV, Effect, Text\n"));
}

#[test]
fn extractor_arguments() {
    assert_eq!(
        MediaExtractor::wav_args("v.mp4", "a.wav"),
        vec!["-y", "-i", "v.mp4", "-vn", "-ac", "1", "-ar", "16000", "-c:a", "pcm_s16le", "a.wav"]
    );
    let f = MediaExtractor::frame_args("v.mp4", "f_%04d.jpg", 500);
    assert_eq!(f[4], "fps=0.5,scale=128:128");
    assert_eq!(MediaExtractor::frame_args("v.mp4", "p", 2000)[4], "fps=2,scale=128:128");
}

#[test]
fn hardware_encoder_choice() {
    assert_eq!(HardwareEncoder::probe_fast_path(TargetOs::MacOs, true, false, false), Some(HardwareEncoder::VideoToolbox));
    assert_eq!(
        HardwareEncoder::probe_from_listing(TargetOs::Other, Some(" V..... h264_qsv\n V..... h264_amf")),
        HardwareEncoder::Amf
    );
    assert_eq!(HardwareEncoder::probe_from_listing(TargetOs::Windows, None), HardwareEncoder::CpuLibx264);
    assert_eq!(HardwareEncoder::CpuLibx264.name(), "libx264");
    assert_eq!(HardwareEncoder::Qsv.default_args()[1], "h264_qsv");
}

#[test]
fn ffmpeg_discovery_needs_ffmpeg() {
    assert!(FFmpegContext::discover(None, Some("/usr/bin/ffprobe".to_string()), TargetOs::Other).is_err());
    let ctx = FFmpegContext::discover(Some("/usr/bin/ffmpeg".to_string()), None, TargetOs::Other).unwrap();
    assert_eq!(ctx.ffmpeg_path, "/usr/bin/ffmpeg");
    assert_eq!(ctx.ffprobe_path, "/usr/bin/ffprobe");
    assert_eq!(FFmpegContext::first_line_of("  /opt/ffmpeg  \r\nsecond"), Some("/opt/ffmpeg".to_string()));
    assert_eq!(FFmpegContext::first_line_of(""), None);
}

#[test]
fn ffmpeg_search_order() {
    assert_eq!(FFmpegContext::binary_env_var("ffmpeg"), "FFMPEG_PATH");
    assert_eq!(FFmpegContext::binary_env_var("ffprobe"), "FFPROBE_PATH");
    let order = FFmpegContext::binary_search_order(
        "ffmpeg",
        Some("C:\\tools\\ff"),
        &vec!["C:\\bin".to_string(), "D:\\x\\".to_string()],
        TargetOs::Windows,
    );
    assert_eq!(order[0], "C:\\tools\\ff");
    assert_eq!(order[1], "C:\\tools\\ff.exe");
    assert_eq!(order[2], "C:\\bin\\ffmpeg.exe");
    assert_eq!(order[3], "D:\\x\\ffmpeg.exe");
    assert_eq!(order[4], "/opt/homebrew/bin/ffmpeg");
    assert_eq!(order.len(), 12);
    let unix = FFmpegContext::binary_search_order("ffprobe", None, &vec!["/usr/bin".to_string()], TargetOs::Other);
    assert_eq!(unix[0], "/usr/bin/ffprobe");
    assert_eq!(unix[4], "./bin/ffprobe");
    assert_eq!(FFmpegContext::locator_command(TargetOs::Windows), "where");
    assert_eq!(FFmpegContext::locator_command(TargetOs::MacOs), "which");
    assert_eq!(FFmpegContext::duration_probe_args("a.mp4").len(), 7);
}

#[test]
fn regular_grid_places_cuts_until_the_end() {
    let g = regular_shot_grid(60000, 10000, 14000);
    let times: Vec<i64> = g.iter().map(|t| t.time_ms).collect();
    assert_eq!(times, vec![10000, 24000, 38000, 52000]);
    assert_eq!(g[0].frame_idx, 300);
    let g = regular_shot_grid(30000, 12000, 14500);
    assert_eq!(g.len(), 2);
    assert_eq!(g[1].time_ms, 26500);
    assert_eq!(g[1].frame_idx, 795);
    assert!(regular_shot_grid(5000, 12000, 14500).is_empty());
}

fn cand(start_cs: i64, end_cs: i64, score_centi: i64) -> Candidate {
    Candidate { start_cs, end_cs, duration_cs: end_cs - start_cs, score_centi }
}

#[test]
fn highlight_selection_keeps_best_non_overlapping() {
    let c = vec![
        cand(0, 2000, 50),
        cand(500, 2500, 90),   // overlaps the first heavily
        cand(6000, 8000, 70),
        cand(9000, 11000, 70),
        cand(12000, 14000, 10),
    ];
    let picked = select_highlights(&c, 3);
    assert_eq!(picked, vec![1, 2, 3]);
    assert_eq!(chronological(&c, &picked), vec![1, 2, 3]);
    assert_eq!(select_highlights(&c, 1), vec![1]);
    let reordered = chronological(&c, &vec![3, 0, 2]);
    assert_eq!(reordered, vec![0, 2, 3]);
    assert!(select_highlights(&vec![], 3).is_empty());
}

#[test]
fn distinct_events_keep_first_occurrence_order() {
    let v = vec![
        SoundEventType::Applause,
        SoundEventType::Cheering,
        SoundEventType::Applause,
        SoundEventType::Laughter,
        SoundEventType::Cheering,
    ];
    assert_eq!(
        distinct_event_types(&v),
        vec![SoundEventType::Applause, SoundEventType::Cheering, SoundEventType::Laughter]
    );
    assert_eq!(SoundEventType::Cheering.label_zh(), "欢呼声");
    assert_eq!(SoundEventType::Cheering.weight_tenths(), 15);
    assert_eq!(SoundEventType::Other.weight_tenths(), 1);
}

#[test]
fn heuristic_commentary_hits_the_pace() {
    // 20 seconds at 4.2 characters per second
    let target = 84;
    let d = CommentaryGenerator::generate_heuristic_draft(0, target, &vec!["欢呼声".to_string()], Some("逆风翻盘"));
    assert!(d.hook.starts_with("注意看") || d.hook.starts_with("谁能想到") || d.hook.starts_with("千万别眨眼"));
    assert_eq!(d.char_count, 82);
    assert!((d.char_count as isize - target as isize).abs() <= 4);
    assert_eq!(
        d.full_commentary,
        "注意看！就在这千钧一发的瞬间！逆风翻盘突然发力，以不可思议的绝妙节奏瞬间扭转战局，行云流水般的掌控力让全场观众集体起立狂欢！不得不说，这一刻的精彩注定成为经典回放！"
    );
    assert_eq!(d.sentences[0], "注意看");

    let short = CommentaryGenerator::generate_heuristic_draft(0, 40, &vec!["欢呼声".to_string()], Some("逆风翻盘"));
    assert_eq!(short.full_commentary, "注意看！就在这千钧一发的瞬间！逆风翻盘突然发力，以不可思议的绝妙节奏瞬间扭转战局！");
    assert!(short.char_count <= 43);
    assert_eq!(
        short.sentences,
        vec!["注意看", "就在这千钧一发的瞬间", "逆风翻盘突然发力", "以不可思议的绝妙节奏瞬间扭转战局"]
    );

    // a short template is padded again and again up to the target, then cut
    let long = CommentaryGenerator::generate_heuristic_draft(1, 200, &vec![], None);
    assert!(long.full_commentary.starts_with("谁能想到！"));
    assert!(long.full_commentary.contains("全场焦点"));
    assert_eq!(long.char_count, 201);
    assert_eq!(long.full_commentary.matches("这绝对是不可多得的高光时刻！").count(), 8);
    assert!(long.full_commentary.ends_with("这绝对是不可！"));
}

#[test]
fn heuristic_commentary_for_a_long_clip_stays_on_pace() {
    // 45 seconds at 4.2 characters per second
    let target = 189;
    let d = CommentaryGenerator::generate_heuristic_draft(0, target, &vec!["欢呼声".to_string()], Some("逆风翻盘"));
    assert_eq!(d.char_count, 190);
    assert!((d.char_count as i64 - target as i64).abs() <= 3);
    assert_eq!(d.full_commentary.chars().count(), d.char_count);
    assert!(d.full_commentary.ends_with("这绝对是不可多得的！"));
}

#[test]
fn heuristic_commentary_cut_inside_a_run_of_marks_falls_short() {
    // the cut lands inside the topic's run of closing marks, which are all trimmed
    let topic = "！".repeat(20);
    let d = CommentaryGenerator::generate_heuristic_draft(0, 30, &vec!["欢呼声".to_string()], Some(topic.as_str()));
    assert_eq!(d.full_commentary, "注意看！就在这千钧一发的瞬间！");
    assert_eq!(d.char_count, 15);
}

#[test]
fn fitting_pads_and_cuts() {
    let raw: Vec<char> = "一二三四五六七八九十".chars().collect();
    let cut: String = fit_to_target(&raw, 4, "").iter().collect();
    assert_eq!(cut, "一二三四！");
    let same: String = fit_to_target(&raw, 12, "xyz").iter().collect();
    assert_eq!(same, "一二三四五六七八九十");
    let padded: String = fit_to_target(&raw, 15, "甲乙丙丁戊己庚").iter().collect();
    assert_eq!(padded, "一二三四五六七八九十甲乙丙丁戊！");
    // short padding is repeated until the target is reached
    let repeated: String = fit_to_target(&raw, 20, "甲乙").iter().collect();
    assert_eq!(repeated, "一二三四五六七八九十甲乙甲乙甲乙甲乙甲乙！");
    // without padding a short text only gains its closing mark
    let unpadded: String = fit_to_target(&raw, 20, "").iter().collect();
    assert_eq!(unpadded, "一二三四五六七八九十！");
    // a cut after a run of closing marks trims the whole run
    let marks: Vec<char> = "一二！！！！！！！！！！！！！！！！！！".chars().collect();
    let trimmed: String = fit_to_target(&marks, 12, "甲").iter().collect();
    assert_eq!(trimmed, "一二！");
}

#[test]
fn user_prompt_lists_tags() {
    let p = CommentaryGenerator::build_user_prompt("决赛", "20.0", &vec!["欢呼声".to_string(), "大笑".to_string()], 84);
    assert!(p.contains("- 情绪识别标签: [欢呼声、大笑]"));
    assert!(p.contains("- 片段精准时长: 20.0 秒"));
    assert!(p.contains("约 84 字"));
    let q = CommentaryGenerator::build_user_prompt("x", "1", &vec![], 4);
    assert!(q.contains("[高能瞬间]"));
}

#[test]
fn persona_scripts_and_keys() {
    let p = CommentaryPersona::from_key(Some("suspense"));
    assert_eq!(p, CommentaryPersona::SuspenseDrama);
    assert_eq!(CommentaryPersona::from_key(Some("esports")), CommentaryPersona::HighEnergyEsports);
    assert_eq!(CommentaryPersona::from_key(None), CommentaryPersona::HighEnergyEsports);
    assert_eq!(p.name_zh(), "悬念反转风");
    assert_eq!(p.char_rate_tenths(), 38);
    assert_eq!(p.generate_hook("团战"), "注意看！谁能想到原本死局的团战，竟埋下了惊天伏笔！");
    let d = CommentaryPersona::HighEnergyEsports.compose_script(200, &vec!["欢呼声".to_string()], None);
    assert!(d.hook.contains("决胜时刻"));
    assert!(d.full_commentary.contains("现场瞬间彻底沸腾！"));
    assert_eq!(d.full_commentary.matches("不得不说这绝对是巅峰时刻！").count(), 8);
    assert!(d.full_commentary.ends_with("不得不说这绝对是！"));
    assert_eq!(d.char_count, 201);

    // 30 s at the high-energy pace of 5 characters per second
    let paced = CommentaryPersona::HighEnergyEsports.compose_script(150, &vec![], None);
    assert_eq!(paced.char_count, 151);
    assert!((paced.char_count as i64 - 150).abs() <= 3);
    assert!(paced.full_commentary.contains("这一刻注定成为名场面！"));

    // the hook opens the commentary whenever the target leaves room after it
    let short = CommentaryPersona::HighEnergyEsports.compose_script(30, &vec![], None);
    assert_eq!(short.hook, "千万别眨眼！这波决胜时刻神级操作直接把全场看傻了！");
    assert!(short.full_commentary.starts_with(&short.hook));
    let n = short.full_commentary.chars().count();
    assert!(n + 3 >= 30 && n <= 33);
}

#[test]
fn bgm_settings() {
    assert_eq!(BgmType::from_key(Some("none")), BgmType::NoMusic);
    assert_eq!(BgmType::from_key(Some("drone")), BgmType::SuspenseDrone);
    assert_eq!(BgmType::from_key(Some("jazz")), BgmType::HypeTrap);
    assert_eq!(BgmType::default(), BgmType::HypeTrap);
    assert_eq!(BgmType::FunnyMeme.bpm(), 120);
    assert_eq!(BgmType::NoMusic.name_zh(), "无背景音乐");
}

#[test]
fn sherpa_arguments() {
    let a = sherpa_tts_args("m.onnx", None, -3, "o.wav", "你好");
    assert_eq!(a, vec!["--vits-model=m.onnx", "--vits-tokens=tokens.txt", "--sid=-3", "--output-filename=o.wav", "你好"]);
    let b = sherpa_tts_args("m", Some("t.txt"), 12, "o", "x");
    assert_eq!(b[1], "--vits-tokens=t.txt");
    assert_eq!(b[2], "--sid=12");
}
