use neuroclip::cli::{input_source, parse_usize, synthetic_video_args, CliOptions, InputSource};
use neuroclip::script::persona::CommentaryPersona;
use neuroclip::tts::BgmType;

fn args(list: &[&str]) -> Vec<String> {
    list.iter().map(|s| s.to_string()).collect()
}

#[test]
fn command_line_defaults() {
    let o = CliOptions::parse(&args(&["neuroclip-cli"]));
    assert!(o.input_video.is_none());
    assert_eq!(o.output_dir, "./neuroclip_exports");
    assert_eq!(o.topic, "高能对决");
    assert_eq!(o.max_clips, 3);
    assert!(o.is_vertical);
    assert_eq!(o.persona, CommentaryPersona::HighEnergyEsports);
    assert_eq!(o.bgm, BgmType::HypeTrap);
    assert!(o.watch_dir.is_none());
    assert!(!o.show_help);
}

#[test]
fn command_line_options() {
    let o = CliOptions::parse(&args(&[
        "cli", "-i", "match.mp4", "--aspect", " 16:9 ", "--persona", "roast", "--bgm", "none", "-n", "2",
        "--topic", "决赛", "-o", "/out", "--unknown",
    ]));
    assert_eq!(o.input_video.as_deref(), Some("match.mp4"));
    assert!(!o.is_vertical);
    assert_eq!(o.persona, CommentaryPersona::HumorousRoast);
    assert_eq!(o.bgm, BgmType::NoMusic);
    assert_eq!(o.max_clips, 2);
    assert_eq!(o.topic, "决赛");
    assert_eq!(o.output_dir, "/out");

    let w = CliOptions::parse(&args(&["cli", "--watch", "./obs", "--aspect", "vertical", "-n", "x"]));
    assert_eq!(w.watch_dir.as_deref(), Some("./obs"));
    assert!(w.is_vertical);
    assert_eq!(w.max_clips, 3);

    // help stops the reading; an option without its value is skipped
    let h = CliOptions::parse(&args(&["cli", "-h", "-n", "7"]));
    assert!(h.show_help);
    assert_eq!(h.max_clips, 3);
    let t = CliOptions::parse(&args(&["cli", "-n"]));
    assert_eq!(t.max_clips, 3);
    // a value is taken as given, even when it looks like an option
    let v = CliOptions::parse(&args(&["cli", "-o", "--help"]));
    assert_eq!(v.output_dir, "--help");
    assert!(!v.show_help);
}

#[test]
fn usize_parsing() {
    assert_eq!(parse_usize("42"), Some(42));
    assert_eq!(parse_usize("+7"), Some(7));
    assert_eq!(parse_usize("007"), Some(7));
    assert_eq!(parse_usize(""), None);
    assert_eq!(parse_usize("+"), None);
    assert_eq!(parse_usize("-1"), None);
    assert_eq!(parse_usize(" 1"), None);
    assert_eq!(parse_usize("1a"), None);
    assert_eq!(parse_usize("99999999999999999999999"), None);
    assert_eq!(parse_usize(&usize::MAX.to_string()), Some(usize::MAX));
}

#[test]
fn input_sources() {
    assert_eq!(input_source(Some("https://x/v.mp4"), false), InputSource::Download);
    assert_eq!(input_source(Some("http://x/v.mp4"), true), InputSource::Download);
    assert_eq!(input_source(Some("match.mp4"), true), InputSource::LocalFile);
    assert_eq!(input_source(Some("missing.mp4"), false), InputSource::Synthetic);
    assert_eq!(input_source(None, true), InputSource::Synthetic);
    let a = synthetic_video_args("/o/s.mp4");
    assert_eq!(a.len(), 18);
    assert_eq!(a[4], "testsrc=size=1280x720:rate=30");
    assert_eq!(a[17], "/o/s.mp4");
}
