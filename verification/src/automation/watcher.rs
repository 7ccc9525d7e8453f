use std::sync::atomic::{AtomicBool, Ordering};
use std::sync::Arc;

use vstd::prelude::*;

use crate::ffmpeg::{join_file, join_path, numbered_file, numbered_path};
use crate::platform::TargetOs;
use crate::scanner::filter::{file_name, file_name_of, last_index_of};
use crate::script::persona::CommentaryPersona;
use crate::text::{from_chars, string_of, to_chars};
use crate::tts::BgmType;

verus! {

/// What an unattended folder watch does with new videos.
#[derive(Debug, Clone)]
pub struct FolderWatcherConfig {
    pub watch_dir: String,
    pub output_dir: String,
    pub is_vertical_9_16: bool,
    pub persona: CommentaryPersona,
    pub bgm: BgmType,
    pub debounce_secs: u64,
}

impl Default for FolderWatcherConfig {
    /// Watches `./watch_input`, writes to `./neuroclip_exports`, vertical, esports style,
    /// trap beat, three-second debounce.
    fn default() -> (r: Self)
        ensures
            r.watch_dir@ == "./watch_input"@,
            r.output_dir@ == "./neuroclip_exports"@,
            r.is_vertical_9_16,
            r.persona == CommentaryPersona::HighEnergyEsports,
            r.bgm == BgmType::HypeTrap,
            r.debounce_secs == 3,
    {
        FolderWatcherConfig {
            watch_dir: string_of("./watch_input"),
            output_dir: string_of("./neuroclip_exports"),
            is_vertical_9_16: true,
            persona: CommentaryPersona::HighEnergyEsports,
            bgm: BgmType::HypeTrap,
            debounce_secs: 3,
        }
    }
}

impl FolderWatcherConfig {
    /// The watch that the desktop toggle starts: esports style, trap beat, three-second
    /// debounce.
    pub fn for_folders(watch_dir: &str, output_dir: &str, is_vertical_9_16: bool) -> (r: Self)
        ensures
            r.watch_dir@ == watch_dir@,
            r.output_dir@ == output_dir@,
            r.is_vertical_9_16 == is_vertical_9_16,
            r.persona == CommentaryPersona::HighEnergyEsports,
            r.bgm == BgmType::HypeTrap,
            r.debounce_secs == 3,
    {
        FolderWatcherConfig {
            watch_dir: string_of(watch_dir),
            output_dir: string_of(output_dir),
            is_vertical_9_16,
            persona: CommentaryPersona::HighEnergyEsports,
            bgm: BgmType::HypeTrap,
            debounce_secs: 3,
        }
    }
}

/// Watches a folder and turns each new video into vertical highlight clips.
pub struct FolderWatcher {
    pub config: FolderWatcherConfig,
    is_running: Arc<AtomicBool>,
}

/// The files the watcher writes for one highlight of one video.
#[derive(Debug, Clone)]
pub struct WatcherClipFiles {
    pub voiceover_path: String,
    pub ass_path: String,
    pub bgm_path: String,
    pub video_path: String,
}

/// A file name without its extension (the whole name when it has none, or when its only
/// dot leads it).
pub open spec fn file_stem(name: Seq<char>) -> Seq<char> {
    match last_index_of(name, '.') {
        Some(k) => if k == 0 {
            name
        } else {
            name.take(k)
        },
        None => name,
    }
}

/// The folder that receives the clips of the video at `video`: named after the video's
/// file stem (`video` when it has none) inside the output folder.
pub open spec fn clip_folder(output_dir: Seq<char>, video: Seq<char>, os: TargetOs) -> Seq<char> {
    join_path(
        output_dir,
        match file_name(video, os) {
            Some(n) => file_stem(n),
            None => "video"@,
        },
        os,
    )
}

/// The layout tag in a watcher clip's name.
pub open spec fn layout_tag(is_vertical: bool) -> Seq<char> {
    if is_vertical {
        "9x16_vertical_"@
    } else {
        "16x9_horiz_"@
    }
}

/// Whether the stability check lets a file through: its size was the same, and not zero,
/// at `stable` consecutive polls after the one that first saw it.
pub open spec fn settled(stable: nat) -> bool {
    stable >= 3
}

fn stem_of(name: &Vec<char>) -> (r: Vec<char>)
    ensures
        r@ == file_stem(name@),
{
    let mut i: usize = name.len();
    assert(name@.take(i as int) =~= name@);
    while i > 0 && name[i - 1] != '.'
        invariant
            i <= name.len(),
            last_index_of(name@, '.') == last_index_of(name@.take(i as int), '.'),
        decreases i,
    {
        assert(name@.take(i as int).drop_last() =~= name@.take(i - 1));
        i = i - 1;
    }
    if i <= 1 {
        if i == 0 {
            assert(name@.take(0) =~= Seq::<char>::empty());
        } else {
            assert(name@.take(1).last() == '.');
        }
        return name.clone();
    }
    assert(name@.take(i as int).last() == '.');
    let mut r: Vec<char> = Vec::new();
    let mut k: usize = 0;
    while k < i - 1
        invariant
            k <= i - 1,
            i <= name.len(),
            r@ == name@.take(k as int),
        decreases i - 1 - k,
    {
        r.push(name[k]);
        k = k + 1;
        assert(r@ =~= name@.take(k as int));
    }
    r
}

impl FolderWatcher {
    /// The configuration the watcher runs with.
    pub closed spec fn settings(&self) -> FolderWatcherConfig {
        self.config
    }

    /// A watcher for `config`, not yet listening.
    pub fn new(config: FolderWatcherConfig) -> (r: Self)
        ensures
            r.settings() == config,
    {
        FolderWatcher { config, is_running: Arc::new(AtomicBool::new(false)) }
    }

    /// Marks the watch as listening; the listening loop runs while this mark stays.
    pub fn start(&self) {
        self.is_running.store(true, Ordering::SeqCst);
    }

    /// Asks the listening loop to stop.
    pub fn stop(&self) {
        self.is_running.store(false, Ordering::SeqCst);
    }

    /// Whether the listening loop should go on. The mark is shared with other threads, so
    /// nothing is promised about the value read.
    pub fn is_running(&self) -> bool {
        self.is_running.load(Ordering::SeqCst)
    }

    /// The folder that receives the clips of the video at `video_path`.
    pub fn clip_output_dir(config: &FolderWatcherConfig, video_path: &str, os: TargetOs) -> (r: String)
        ensures
            r@ == clip_folder(config.output_dir@, video_path@, os),
    {
        let stem = match file_name_of(&to_chars(video_path), os) {
            Some(n) => from_chars(&stem_of(&n)),
            None => string_of("video"),
        };
        join_file(config.output_dir.as_str(), stem.as_str(), os)
    }

    /// The audio track extracted from a video, inside its clip folder.
    pub fn extracted_audio_path(clip_dir: &str, os: TargetOs) -> (r: String)
        ensures
            r@ == join_path(clip_dir@, "extracted_16k.wav"@, os),
    {
        join_file(clip_dir, "extracted_16k.wav", os)
    }

    /// The files written for highlight `id` inside the clip folder `clip_dir`.
    pub fn clip_files(clip_dir: &str, id: usize, is_vertical: bool, os: TargetOs) -> (r: WatcherClipFiles)
        ensures
            r.voiceover_path@ == numbered_path(clip_dir@, "voiceover_"@, id as nat, ".wav"@, os),
            r.ass_path@ == numbered_path(clip_dir@, "kinetic_sub_"@, id as nat, ".ass"@, os),
            r.bgm_path@ == numbered_path(clip_dir@, "bgm_"@, id as nat, ".wav"@, os),
            r.video_path@ == numbered_path(
                clip_dir@,
                "neuroclip_"@ + layout_tag(is_vertical),
                id as nat,
                ".mp4"@,
                os,
            ),
    {
        let video_path = if is_vertical {
            numbered_file(clip_dir, "neuroclip_9x16_vertical_", id, ".mp4", os)
        } else {
            numbered_file(clip_dir, "neuroclip_16x9_horiz_", id, ".mp4", os)
        };
        proof {
            reveal_strlit("neuroclip_");
            reveal_strlit("9x16_vertical_");
            reveal_strlit("16x9_horiz_");
            reveal_strlit("neuroclip_9x16_vertical_");
            reveal_strlit("neuroclip_16x9_horiz_");
            assert("neuroclip_9x16_vertical_"@ =~= "neuroclip_"@ + "9x16_vertical_"@);
            assert("neuroclip_16x9_horiz_"@ =~= "neuroclip_"@ + "16x9_horiz_"@);
        }
        WatcherClipFiles {
            voiceover_path: numbered_file(clip_dir, "voiceover_", id, ".wav", os),
            ass_path: numbered_file(clip_dir, "kinetic_sub_", id, ".ass", os),
            bgm_path: numbered_file(clip_dir, "bgm_", id, ".wav", os),
            video_path,
        }
    }
}

/// Decides when a file that is being written has settled: polls report its size, and it
/// has settled once the same non-zero size was seen at three polls in a row after the
/// poll that first saw that size.
#[derive(Debug, Clone, Copy)]
pub struct SettleTracker {
    last_size: u64,
    stable_counts: u32,
}

impl View for SettleTracker {
    /// The size last seen, and at how many polls in a row since it was seen again.
    type V = (u64, nat);

    closed spec fn view(&self) -> (u64, nat) {
        (self.last_size, self.stable_counts as nat)
    }
}

impl SettleTracker {
    /// Nothing seen yet.
    pub fn new() -> (r: Self)
        ensures
            r@ == (0u64, 0nat),
    {
        SettleTracker { last_size: 0, stable_counts: 0 }
    }

    /// At how many polls in a row the last size was seen again.
    pub fn stable_polls(&self) -> (r: u32)
        ensures
            r == self@.1,
    {
        self.stable_counts
    }

    /// Records a poll that found the file `size` bytes long; returns whether the file has
    /// now settled. An empty file changes nothing.
    pub fn observe(&mut self, size: u64) -> (r: bool)
        requires
            old(self)@.1 < u32::MAX,
        ensures
            size == 0 ==> final(self)@ == old(self)@,
            size != 0 && size == old(self)@.0 ==> final(self)@ == (size, old(self)@.1 + 1),
            size != 0 && size != old(self)@.0 ==> final(self)@ == (size, 0nat),
            r == (size != 0 && settled(final(self)@.1)),
    {
        if size == 0 {
            return false;
        }
        if size == self.last_size {
            self.stable_counts = self.stable_counts + 1;
        } else {
            self.stable_counts = 0;
            self.last_size = size;
        }
        self.stable_counts >= 3
    }
}

} // verus!
