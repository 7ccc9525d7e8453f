use vstd::prelude::*;

use crate::text::{eq_str, to_chars};

verus! {

/// Background music moods.
#[derive(Debug, Clone, Copy, PartialEq, Eq, Structural)]
pub enum BgmType {
    /// Esports trap beat
    HypeTrap,
    /// Tense heartbeat drone
    SuspenseDrone,
    /// Playful meme bounce
    FunnyMeme,
    /// No music
    NoMusic,
}

impl Default for BgmType {
    fn default() -> (r: Self)
        ensures
            r == BgmType::HypeTrap,
    {
        BgmType::HypeTrap
    }
}

pub open spec fn bgm_name(b: BgmType) -> Seq<char> {
    match b {
        BgmType::HypeTrap => "燃系电竞 Trap"@,
        BgmType::SuspenseDrone => "悬念紧迫低音"@,
        BgmType::FunnyMeme => "幽默反转搞怪"@,
        BgmType::NoMusic => "无背景音乐"@,
    }
}

pub open spec fn bgm_tempo(b: BgmType) -> nat {
    match b {
        BgmType::HypeTrap => 140,
        BgmType::SuspenseDrone => 90,
        BgmType::FunnyMeme => 120,
        BgmType::NoMusic => 100,
    }
}

/// The mood a setting names: `drone`, `meme` or `none`; anything else is the trap beat.
pub open spec fn bgm_for_key(k: Seq<char>) -> BgmType {
    if k == "drone"@ {
        BgmType::SuspenseDrone
    } else if k == "meme"@ {
        BgmType::FunnyMeme
    } else if k == "none"@ {
        BgmType::NoMusic
    } else {
        BgmType::HypeTrap
    }
}

impl BgmType {
    pub fn name_zh(&self) -> (r: &'static str)
        ensures
            r@ == bgm_name(*self),
    {
        match self {
            BgmType::HypeTrap => "燃系电竞 Trap",
            BgmType::SuspenseDrone => "悬念紧迫低音",
            BgmType::FunnyMeme => "幽默反转搞怪",
            BgmType::NoMusic => "无背景音乐",
        }
    }

    /// Tempo of the generated track in beats per minute.
    pub fn bpm(&self) -> (r: u32)
        ensures
            r as nat == bgm_tempo(*self),
    {
        match self {
            BgmType::HypeTrap => 140,
            BgmType::SuspenseDrone => 90,
            BgmType::FunnyMeme => 120,
            BgmType::NoMusic => 100,
        }
    }

    /// The mood named by a user setting; unknown or missing settings give the trap beat.
    pub fn from_key(key: Option<&str>) -> (r: Self)
        ensures
            r == match key {
                Some(k) => bgm_for_key(k@),
                Option::None => BgmType::HypeTrap,
            },
    {
        match key {
            Some(k) => {
                let v = to_chars(k);
                if eq_str(&v, "drone") {
                    BgmType::SuspenseDrone
                } else if eq_str(&v, "meme") {
                    BgmType::FunnyMeme
                } else if eq_str(&v, "none") {
                    BgmType::NoMusic
                } else {
                    BgmType::HypeTrap
                }
            },
            Option::None => BgmType::HypeTrap,
        }
    }
}

} // verus!
