use neuroclip::automation::watcher::SettleTracker;
use neuroclip::automation::{FolderWatcher, FolderWatcherConfig};
use neuroclip::commands::clip::{clip_export_dir, clip_files, extracted_audio_path, SystemStatusInfo};
use neuroclip::commands::updater::{
    installer_launch, offline_download_steps, update_download_path, updates_dir, DownloadTracker,
};
use neuroclip::ffmpeg::hwaccel::HardwareEncoder;
use neuroclip::ffmpeg::pipeline::RemuxOptions;
use neuroclip::platform::TargetOs;
use neuroclip::script::persona::CommentaryPersona;
use neuroclip::tts::BgmType;

const OS: TargetOs = TargetOs::Other;

#[test]
fn watcher_defaults_and_toggle_config() {
    let c = FolderWatcherConfig::default();
    assert_eq!(c.watch_dir, "./watch_input");
    assert_eq!(c.output_dir, "./neuroclip_exports");
    assert!(c.is_vertical_9_16);
    assert_eq!(c.persona, CommentaryPersona::HighEnergyEsports);
    assert_eq!(c.bgm, BgmType::HypeTrap);
    assert_eq!(c.debounce_secs, 3);
    let t = FolderWatcherConfig::for_folders("/in", "/out", false);
    assert_eq!((t.watch_dir.as_str(), t.output_dir.as_str(), t.is_vertical_9_16), ("/in", "/out", false));
}

#[test]
fn watcher_running_mark() {
    let w = FolderWatcher::new(FolderWatcherConfig::default());
    assert!(!w.is_running());
    w.start();
    assert!(w.is_running());
    w.stop();
    assert!(!w.is_running());
    assert_eq!(w.config.debounce_secs, 3);
}

#[test]
fn watcher_output_layout() {
    let c = FolderWatcherConfig::for_folders("/in", "/out", true);
    assert_eq!(FolderWatcher::clip_output_dir(&c, "/in/final.match.mp4", OS), "/out/final.match");
    assert_eq!(FolderWatcher::clip_output_dir(&c, "/in/.hidden", OS), "/out/.hidden");
    assert_eq!(FolderWatcher::clip_output_dir(&c, "/in/..", OS), "/out/video");
    let f = FolderWatcher::clip_files("/out/x", 2, true, OS);
    assert_eq!(f.voiceover_path, "/out/x/voiceover_2.wav");
    assert_eq!(f.ass_path, "/out/x/kinetic_sub_2.ass");
    assert_eq!(f.bgm_path, "/out/x/bgm_2.wav");
    assert_eq!(f.video_path, "/out/x/neuroclip_9x16_vertical_2.mp4");
    assert_eq!(FolderWatcher::clip_files("/out/x/", 11, false, OS).video_path, "/out/x/neuroclip_16x9_horiz_11.mp4");
    assert_eq!(FolderWatcher::extracted_audio_path("/out/x", OS), "/out/x/extracted_16k.wav");
}

#[test]
fn settle_needs_three_equal_polls() {
    let mut t = SettleTracker::new();
    assert!(!t.observe(0));
    assert!(!t.observe(100));
    assert!(!t.observe(200));
    assert!(!t.observe(200));
    assert!(!t.observe(200));
    assert!(!t.observe(0));
    assert!(t.observe(200));
    assert!(t.observe(200));
    assert!(!t.observe(300));
}

#[test]
fn clip_command_layout() {
    assert_eq!(clip_export_dir("/videos/game.mp4", None, OS), "/videos/neuroclip_exports");
    assert_eq!(clip_export_dir("game.mp4", None, OS), "neuroclip_exports");
    assert_eq!(clip_export_dir("D:\\v\\game.mp4", None, TargetOs::Windows), "D:\\v\\neuroclip_exports");
    assert_eq!(clip_export_dir("/videos/game.mp4", Some("/exports"), OS), "/exports");
    let f = clip_files("/exports", 3, OS);
    assert_eq!(f.voiceover_path, "/exports/voiceover_clip_3.wav");
    assert_eq!(f.srt_path, "/exports/subtitle_clip_3.srt");
    assert_eq!(f.ass_path, "/exports/kinetic_sub_3.ass");
    assert_eq!(f.bgm_path, "/exports/bgm_clip_3.wav");
    assert_eq!(f.video_path, "/exports/neuroclip_highlight_3.mp4");
    assert_eq!(extracted_audio_path("/exports", OS), "/exports/extracted_16k_mono.wav");
}

#[test]
fn highlight_render_options() {
    let o = RemuxOptions::for_highlight(1000, 21000, "/a.ass".to_string(), None, true, HardwareEncoder::Qsv);
    assert_eq!((o.start_ms, o.end_ms), (1000, 21000));
    assert_eq!((o.ducking_ratio_milli, o.ducking_threshold_milli, o.attack_ms, o.release_ms), (4500, 125, 20, 250));
    assert!(o.subtitles_path.is_none());
    assert_eq!(o.ass_subtitles_path.as_deref(), Some("/a.ass"));
    assert!(o.bgm_path.is_none());
    assert_eq!(o.encoder, Some(HardwareEncoder::Qsv));
}

#[test]
fn system_status() {
    let s = SystemStatusInfo::from_discovery(Some(("/usr/bin/ffmpeg", HardwareEncoder::Nvenc)));
    assert!(s.ffmpeg_available && s.ready);
    assert_eq!(s.ffmpeg_path.as_deref(), Some("/usr/bin/ffmpeg"));
    assert_eq!(s.hw_encoder, "h264_nvenc");
    assert_eq!(s.tts_engine, "Sherpa-ONNX / Built-in Acoustic Engine");
    let n = SystemStatusInfo::from_discovery(None);
    assert!(!n.ffmpeg_available && n.ready);
    assert!(n.ffmpeg_path.is_none());
    assert_eq!(n.hw_encoder, "CPU libx264");
}

#[test]
fn download_progress() {
    let mut t = DownloadTracker::new(None);
    assert_eq!((t.downloaded, t.total), (0, 85_600_000));
    t.record_chunk(1000);
    t.record_chunk(24);
    assert_eq!(t.downloaded, 1024);
    assert_eq!(DownloadTracker::new(Some(5)).total, 5);
    let steps = offline_download_steps();
    assert_eq!(steps.len(), 12);
    assert_eq!(steps[0], 7_133_333);
    assert_eq!(steps[11], 85_599_996);
    assert!(steps.windows(2).all(|w| w[0] < w[1]));
}

#[test]
fn update_locations_and_installers() {
    assert_eq!(updates_dir(Some("/home/u"), OS), "/home/u/.neuroclip/updates");
    assert_eq!(
        update_download_path(None, "NeuroClip_0.3.2_x64.AppImage", OS),
        "./.neuroclip/updates/NeuroClip_0.3.2_x64.AppImage"
    );
    let w = installer_launch(TargetOs::Windows, "C:\\u\\setup.exe");
    assert_eq!(w.program, "cmd");
    assert_eq!(w.args, vec!["/C", "start", "", "C:\\u\\setup.exe"]);
    assert_eq!(w.started_message, "已启动 Windows 安装向导");
    let m = installer_launch(TargetOs::MacOs, "/u/a.dmg");
    assert_eq!((m.program.as_str(), m.args.len()), ("open", 1));
    assert_eq!(m.failure_prefix, "无法启动 macOS 安装器: ");
    let l = installer_launch(TargetOs::Other, "/u/a.AppImage");
    assert_eq!(l.program, "xdg-open");
    assert_eq!(l.started_message, "已启动 Linux 安装程序");
}
