use vstd::prelude::*;

use crate::script::prompt::{
    draft_from, end_marks, fit_reaches, fitted, is_end_mark, law_fitted_length_near_target,
    lemma_marks_apart_concat, lemma_marks_apart_from, marks_apart, marks_apart_from,
    topic_fits, has_tag, lemma_fitted_keeps_opening, sentences_of, topic_or, CommentaryDraft};
use crate::text::{from_chars, has_prefix, push_str, string_views, to_chars};

verus! {

/// Commentary styles, each with its own pace.
#[derive(Debug, Clone, Copy, PartialEq, Eq, Structural)]
pub enum CommentaryPersona {
    /// Suspense and reversal (3.8 characters per second)
    SuspenseDrama,
    /// High-energy esports (5.0 characters per second)
    HighEnergyEsports,
    /// Humorous roast (4.0 characters per second)
    HumorousRoast,
    /// Tactical breakdown (4.2 characters per second)
    TacticalBreakdown,
}

impl Default for CommentaryPersona {
    fn default() -> (r: Self)
        ensures
            r == CommentaryPersona::HighEnergyEsports,
    {
        CommentaryPersona::HighEnergyEsports
    }
}

pub open spec fn persona_name(p: CommentaryPersona) -> Seq<char> {
    match p {
        CommentaryPersona::SuspenseDrama => "悬念反转风"@,
        CommentaryPersona::HighEnergyEsports => "激情电竞风"@,
        CommentaryPersona::HumorousRoast => "幽默下饭风"@,
        CommentaryPersona::TacticalBreakdown => "硬核科普风"@,
    }
}

/// Pace in tenths of a character per second.
pub open spec fn persona_rate_tenths(p: CommentaryPersona) -> nat {
    match p {
        CommentaryPersona::SuspenseDrama => 38,
        CommentaryPersona::HighEnergyEsports => 50,
        CommentaryPersona::HumorousRoast => 40,
        CommentaryPersona::TacticalBreakdown => 42,
    }
}

/// The words of the opening before the topic.
pub open spec fn hook_lead(p: CommentaryPersona) -> Seq<char> {
    match p {
        CommentaryPersona::SuspenseDrama => "注意看！谁能想到原本死局的"@,
        CommentaryPersona::HighEnergyEsports => "千万别眨眼！这波"@,
        CommentaryPersona::HumorousRoast => "原谅我不厚道地笑了！这波"@,
        CommentaryPersona::TacticalBreakdown => "90%的人都没看懂！放慢这波"@,
    }
}

/// The words of the opening after the topic.
pub open spec fn hook_tail(p: CommentaryPersona) -> Seq<char> {
    match p {
        CommentaryPersona::SuspenseDrama => "，竟埋下了惊天伏笔！"@,
        CommentaryPersona::HighEnergyEsports => "神级操作直接把全场看傻了！"@,
        CommentaryPersona::HumorousRoast => "操作直接承包整晚笑点！"@,
        CommentaryPersona::TacticalBreakdown => "的细节，堪称教科书！"@,
    }
}

/// The three-second opening about `topic`.
pub open spec fn persona_hook(p: CommentaryPersona, topic: Seq<char>) -> Seq<char> {
    hook_lead(p) + topic + hook_tail(p)
}

pub open spec fn persona_middle(p: CommentaryPersona) -> Seq<char> {
    match p {
        CommentaryPersona::SuspenseDrama => "就在所有人都以为局势已定时，关键细节悄然逆转，呼吸之间胜负彻底颠覆，让人不得不倒吸一口凉气！"@,
        CommentaryPersona::HighEnergyEsports => "行云流水的极限走位，每一个技能都精准卡在毫厘之间，伤害瞬间拉满，全场观众集体起立陷入狂欢，这波操作直接封神！"@,
        CommentaryPersona::HumorousRoast => "本以为是个王者降临，没想到反手就是一个意料之外的神级下饭名场面，现场解说都差点没绷住，简直太魔性了！"@,
        CommentaryPersona::TacticalBreakdown => "注意看这零点一秒的卡视野，极致的心理博弈配合果断的决策执行，完美诠释了顶尖职业选手的绝对嗅觉！"@,
    }
}

/// The closing remark: stronger when the cheering tag was detected.
pub open spec fn closing_remark(tags: Seq<Seq<char>>) -> Seq<char> {
    if tags.contains("欢呼声"@) {
        "现场瞬间彻底沸腾！"@
    } else {
        "这一刻注定成为名场面！"@
    }
}

pub open spec fn persona_text(p: CommentaryPersona, tags: Seq<Seq<char>>, topic: Seq<char>) -> Seq<char> {
    persona_hook(p, topic) + persona_middle(p) + closing_remark(tags)
}

/// The style a setting names: `suspense`, `roast` or `breakdown`; anything else is
/// high-energy esports.
pub open spec fn persona_for_key(k: Seq<char>) -> CommentaryPersona {
    if k == "suspense"@ {
        CommentaryPersona::SuspenseDrama
    } else if k == "roast"@ {
        CommentaryPersona::HumorousRoast
    } else if k == "breakdown"@ {
        CommentaryPersona::TacticalBreakdown
    } else {
        CommentaryPersona::HighEnergyEsports
    }
}

impl CommentaryPersona {
    pub fn name_zh(&self) -> (r: &'static str)
        ensures
            r@ == persona_name(*self),
    {
        match self {
            CommentaryPersona::SuspenseDrama => "悬念反转风",
            CommentaryPersona::HighEnergyEsports => "激情电竞风",
            CommentaryPersona::HumorousRoast => "幽默下饭风",
            CommentaryPersona::TacticalBreakdown => "硬核科普风",
        }
    }

    /// Target pace in tenths of a character per second.
    pub fn char_rate_tenths(&self) -> (r: u32)
        ensures
            r as nat == persona_rate_tenths(*self),
    {
        match self {
            CommentaryPersona::SuspenseDrama => 38,
            CommentaryPersona::HighEnergyEsports => 50,
            CommentaryPersona::HumorousRoast => 40,
            CommentaryPersona::TacticalBreakdown => 42,
        }
    }

    /// The three-second opening of this style about `topic`.
    pub fn generate_hook(&self, topic: &str) -> (r: String)
        ensures
            r@ == persona_hook(*self, topic@),
    {
        let (a, b) = match self {
            CommentaryPersona::SuspenseDrama => ("注意看！谁能想到原本死局的", "，竟埋下了惊天伏笔！"),
            CommentaryPersona::HighEnergyEsports => ("千万别眨眼！这波", "神级操作直接把全场看傻了！"),
            CommentaryPersona::HumorousRoast => ("原谅我不厚道地笑了！这波", "操作直接承包整晚笑点！"),
            CommentaryPersona::TacticalBreakdown => ("90%的人都没看懂！放慢这波", "的细节，堪称教科书！"),
        };
        let mut v = to_chars(a);
        push_str(&mut v, topic);
        push_str(&mut v, b);
        from_chars(&v)
    }

    fn middle(&self) -> (r: &'static str)
        ensures
            r@ == persona_middle(*self),
    {
        match self {
            CommentaryPersona::SuspenseDrama => "就在所有人都以为局势已定时，关键细节悄然逆转，呼吸之间胜负彻底颠覆，让人不得不倒吸一口凉气！",
            CommentaryPersona::HighEnergyEsports => "行云流水的极限走位，每一个技能都精准卡在毫厘之间，伤害瞬间拉满，全场观众集体起立陷入狂欢，这波操作直接封神！",
            CommentaryPersona::HumorousRoast => "本以为是个王者降临，没想到反手就是一个意料之外的神级下饭名场面，现场解说都差点没绷住，简直太魔性了！",
            CommentaryPersona::TacticalBreakdown => "注意看这零点一秒的卡视野，极致的心理博弈配合果断的决策执行，完美诠释了顶尖职业选手的绝对嗅觉！",
        }
    }

    /// Commentary in this style: the opening about `topic_hint` (or "决胜时刻"), the style's
    /// middle, a closing remark chosen by the tags, fitted to `target_chars` with a stock
    /// padding sentence, and split into sentences.
    pub fn compose_script(&self, target_chars: usize, emotion_tags: &Vec<String>, topic_hint: Option<&str>) -> (r: CommentaryDraft)
        ensures
            ({
                let topic = topic_or(
                    match topic_hint {
                        Some(t) => Some(t@),
                        None => None,
                    },
                    "决胜时刻"@,
                );
                let pad = "不得不说这绝对是巅峰时刻！"@;
                let raw = persona_text(*self, string_views(emotion_tags@), topic);
                let text = fitted(raw, target_chars as nat, pad);
                &&& r.hook@ == persona_hook(*self, topic)
                &&& r.full_commentary@ == text
                &&& r.char_count == text.len()
                &&& string_views(r.sentences@) == sentences_of(text)
                &&& r.char_count <= target_chars + 3
                &&& (r.char_count + 3 >= target_chars <==> fit_reaches(raw, target_chars as nat, pad))
            }),
            (match topic_hint {
                Some(t) => topic_fits(t@),
                None => true,
            }) ==> r.char_count + 3 >= target_chars,
    {
        proof {
            let topic = topic_or(
                match topic_hint {
                    Some(t) => Some(t@),
                    None => None,
                },
                "决胜时刻"@,
            );
            if match topic_hint {
                Some(t) => topic_fits(t@),
                None => true,
            } {
                match topic_hint {
                    Some(_) => {},
                    None => lemma_default_topic_fits(),
                }
                lemma_persona_text_apart(*self, string_views(emotion_tags@), topic);
                lemma_persona_padding();
                law_fitted_length_near_target(
                    persona_text(*self, string_views(emotion_tags@), topic),
                    target_chars as nat,
                    "不得不说这绝对是巅峰时刻！"@,
                );
            }
        }
        let topic = match topic_hint {
            Some(t) => t,
            None => "决胜时刻",
        };
        let hook = self.generate_hook(topic);
        let mut raw = to_chars(hook.as_str());
        push_str(&mut raw, self.middle());
        if has_tag(emotion_tags, "欢呼声") {
            push_str(&mut raw, "现场瞬间彻底沸腾！");
        } else {
            push_str(&mut raw, "这一刻注定成为名场面！");
        }
        proof {
            reveal_strlit("不得不说这绝对是巅峰时刻！");
        }
        draft_from(hook, &raw, target_chars, "不得不说这绝对是巅峰时刻！")
    }

    /// The style named by a user setting; unknown or missing settings give high-energy
    /// esports.
    pub fn from_key(key: Option<&str>) -> (r: Self)
        ensures
            r == match key {
                Some(k) => persona_for_key(k@),
                None => CommentaryPersona::HighEnergyEsports,
            },
    {
        match key {
            Some(k) => {
                let v = to_chars(k);
                if crate::text::eq_str(&v, "suspense") {
                    CommentaryPersona::SuspenseDrama
                } else if crate::text::eq_str(&v, "roast") {
                    CommentaryPersona::HumorousRoast
                } else if crate::text::eq_str(&v, "breakdown") {
                    CommentaryPersona::TacticalBreakdown
                } else {
                    CommentaryPersona::HighEnergyEsports
                }
            },
            None => CommentaryPersona::HighEnergyEsports,
        }
    }
}


/// The commentary of every style opens with its golden three-second hook, whenever the
/// character target leaves room for more than the hook.
pub proof fn law_commentary_opens_with_hook(p: CommentaryPersona, tags: Seq<Seq<char>>, topic: Seq<char>, target: nat)
    requires
        target > persona_hook(p, topic).len(),
    ensures
        has_prefix(fitted(persona_text(p, tags, topic), target, "不得不说这绝对是巅峰时刻！"@), persona_hook(p, topic)),
{
    let h = persona_hook(p, topic);
    let raw = persona_text(p, tags, topic);
    let m = persona_middle(p);
    reveal_strlit("就在所有人都以为局势已定时，关键细节悄然逆转，呼吸之间胜负彻底颠覆，让人不得不倒吸一口凉气！");
    reveal_strlit("行云流水的极限走位，每一个技能都精准卡在毫厘之间，伤害瞬间拉满，全场观众集体起立陷入狂欢，这波操作直接封神！");
    reveal_strlit("本以为是个王者降临，没想到反手就是一个意料之外的神级下饭名场面，现场解说都差点没绷住，简直太魔性了！");
    reveal_strlit("注意看这零点一秒的卡视野，极致的心理博弈配合果断的决策执行，完美诠释了顶尖职业选手的绝对嗅觉！");
    assert(m.len() > 0 && !end_marks().contains(m[0])) by {
        if end_marks().contains(m[0]) {
            let k = choose|k: int| 0 <= k < end_marks().len() && end_marks()[k] == m[0];
        }
    }
    assert(raw =~= h + (m + closing_remark(tags)));
    assert(raw.take(h.len() as int) =~= h);
    assert(raw[h.len() as int] == m[0]);
    lemma_fitted_keeps_opening(raw, h, target, "不得不说这绝对是巅峰时刻！"@);
}


proof fn lemma_literal_apart(s: Seq<char>)
    requires
        marks_apart_from(s, 0),
    ensures
        marks_apart(s),
{
    lemma_marks_apart_from(s, 0);
}

proof fn lemma_default_topic_fits()
    ensures
        topic_fits("决胜时刻"@),
{
    reveal_strlit("决胜时刻");
    reveal_with_fuel(marks_apart_from, 6);
    lemma_literal_apart("决胜时刻"@);
}

proof fn lemma_persona_padding()
    ensures
        marks_apart("不得不说这绝对是巅峰时刻！"@),
        "不得不说这绝对是巅峰时刻！"@.len() > 0,
        !is_end_mark("不得不说这绝对是巅峰时刻！"@[0]),
{
    reveal_strlit("不得不说这绝对是巅峰时刻！");
    reveal_with_fuel(marks_apart_from, 16);
    lemma_literal_apart("不得不说这绝对是巅峰时刻！"@);
}

proof fn lemma_closing_apart(tags: Seq<Seq<char>>)
    ensures
        marks_apart(closing_remark(tags)),
        closing_remark(tags).len() > 0,
        !is_end_mark(closing_remark(tags)[0]),
{
    reveal_strlit("现场瞬间彻底沸腾！");
    reveal_strlit("这一刻注定成为名场面！");
    reveal_with_fuel(marks_apart_from, 14);
    lemma_literal_apart("现场瞬间彻底沸腾！"@);
    lemma_literal_apart("这一刻注定成为名场面！"@);
}

proof fn lemma_persona_pieces(p: CommentaryPersona)
    ensures
        marks_apart(hook_lead(p)),
        hook_lead(p).len() > 0,
        !is_end_mark(hook_lead(p).last()),
        marks_apart(hook_tail(p)),
        marks_apart(persona_middle(p)),
        persona_middle(p).len() > 0,
        !is_end_mark(persona_middle(p)[0]),
{
    reveal_with_fuel(marks_apart_from, 60);
    match p {
        CommentaryPersona::SuspenseDrama => {
            reveal_strlit("注意看！谁能想到原本死局的");
            reveal_strlit("，竟埋下了惊天伏笔！");
            reveal_strlit("就在所有人都以为局势已定时，关键细节悄然逆转，呼吸之间胜负彻底颠覆，让人不得不倒吸一口凉气！");
            lemma_literal_apart(hook_lead(p));
            lemma_literal_apart(hook_tail(p));
            lemma_literal_apart(persona_middle(p));
        },
        CommentaryPersona::HighEnergyEsports => {
            reveal_strlit("千万别眨眼！这波");
            reveal_strlit("神级操作直接把全场看傻了！");
            reveal_strlit("行云流水的极限走位，每一个技能都精准卡在毫厘之间，伤害瞬间拉满，全场观众集体起立陷入狂欢，这波操作直接封神！");
            lemma_literal_apart(hook_lead(p));
            lemma_literal_apart(hook_tail(p));
            lemma_literal_apart(persona_middle(p));
        },
        CommentaryPersona::HumorousRoast => {
            reveal_strlit("原谅我不厚道地笑了！这波");
            reveal_strlit("操作直接承包整晚笑点！");
            reveal_strlit("本以为是个王者降临，没想到反手就是一个意料之外的神级下饭名场面，现场解说都差点没绷住，简直太魔性了！");
            lemma_literal_apart(hook_lead(p));
            lemma_literal_apart(hook_tail(p));
            lemma_literal_apart(persona_middle(p));
        },
        CommentaryPersona::TacticalBreakdown => {
            reveal_strlit("90%的人都没看懂！放慢这波");
            reveal_strlit("的细节，堪称教科书！");
            reveal_strlit("注意看这零点一秒的卡视野，极致的心理博弈配合果断的决策执行，完美诠释了顶尖职业选手的绝对嗅觉！");
            lemma_literal_apart(hook_lead(p));
            lemma_literal_apart(hook_tail(p));
            lemma_literal_apart(persona_middle(p));
        },
    }
}

/// In commentary about a topic without side-by-side closing marks (and not starting or
/// ending with one), no two closing marks stand side by side.
pub proof fn lemma_persona_text_apart(p: CommentaryPersona, tags: Seq<Seq<char>>, topic: Seq<char>)
    requires
        topic_fits(topic),
    ensures
        marks_apart(persona_text(p, tags, topic)),
{
    lemma_persona_pieces(p);
    lemma_closing_apart(tags);
    let a = hook_lead(p);
    let at = a + topic;
    lemma_marks_apart_concat(a, topic);
    if topic.len() > 0 {
        assert(at.last() == topic.last());
    } else {
        assert(at.last() == a.last());
    }
    lemma_marks_apart_concat(at, hook_tail(p));
    let h = at + hook_tail(p);
    lemma_marks_apart_concat(h, persona_middle(p));
    lemma_marks_apart_concat(h + persona_middle(p), closing_remark(tags));
    assert(persona_text(p, tags, topic) =~= h + persona_middle(p) + closing_remark(tags));
}

} // verus!
