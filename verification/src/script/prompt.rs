use vstd::prelude::*;

use crate::text::{
    from_chars, push_all, push_str, split_by, split_chars, string_views, to_chars,
    has_prefix, trim, trim_end_chars, trim_end_of, trimmed, views,
};

verus! {

/// System prompt for a language model that writes highlight commentary.
pub const NEUROCLIP_COMMENTARY_SYSTEM_PROMPT: &'static str = "你是一位百万粉短视频爆款解说文案大师。
你的核心任务是：针对给定的视频高光片段（包含场景背景、情绪标签、时长），撰写极具抓人眼球、节奏紧凑的高能解说词。

【硬性约束条件（违反将导致系统解析崩溃）】：
1. 【前 3 秒黄金悬念 Hook】：第一句话必须是 3 秒内吸睛的爆款 Hook（例如：\"注意看！就在这一瞬间\"、\"谁能想到，这波操作直接封神\"、\"千钧一发之际，奇迹发生了\"、\"Watch closely! In this split second...\"）。
2. 【字数严格时空对齐】：中文配音语速标准为 4.2 字/秒。生成的总字符数（不含标点符号）必须严格对齐：
   目标字数 = Math.round(片段时长秒数 * 4.2)
   允许误差范围在 ±3 个字以内。绝对不能超时或大幅不足！
3. 【标准化纯 JSON 输出】：严禁输出任何 Markdown 标记（如 ```json）、严禁输出任何前言、后记或解释性文字。仅输出符合以下 JSON Schema 的标准化数据格式：

{
  \"hook\": \"前3秒爆点文案\",
  \"full_commentary\": \"完整解说文案全文\",
  \"duration_seconds\": 25.5,
  \"char_count\": 107,
  \"subtitles\": [
    {
      \"start_sec\": 0.0,
      \"end_sec\": 3.0,
      \"text\": \"前3秒爆点文案\"
    },
    {
      \"start_sec\": 3.0,
      \"end_sec\": 7.5,
      \"text\": \"第二句文案\"
    }
  ]
}
";

/// Commentary text before it is timed: the opening hook, the full text, its length in
/// characters and its sentences in order.
#[derive(Debug, Clone)]
pub struct CommentaryDraft {
    pub hook: String,
    pub full_commentary: String,
    pub char_count: usize,
    pub sentences: Vec<String>,
}

/// Builds commentary prompts and template commentary.
pub struct CommentaryGenerator;

/// Characters that end a sentence or clause.
pub open spec fn end_marks() -> Seq<char> {
    seq!['！', '。', '，']
}

pub open spec fn sentence_marks() -> Seq<char> {
    seq!['！', '。', '，', '、']
}

/// The first `n` characters (all of them when there are fewer), closing marks trimmed,
/// ending with '！'.
pub open spec fn cut_to(s: Seq<char>, n: nat) -> Seq<char> {
    trim_end_of(s.take(if n <= s.len() { n as int } else { s.len() as int }), end_marks()).push(
        '！',
    )
}

/// `s` with `padding` appended again and again until it holds at least `target`
/// characters (unchanged when `padding` is empty).
pub open spec fn padded_to(s: Seq<char>, padding: Seq<char>, target: nat) -> Seq<char>
    decreases (if s.len() >= target { 0 } else { target - s.len() }),
{
    if s.len() >= target || padding.len() == 0 {
        s
    } else {
        padded_to(s + padding, padding, target)
    }
}

/// Text brought near `target` characters: cut when more than 3 over; when more than 3
/// under, `padding` appended until the target is reached and then cut; unchanged
/// otherwise.
pub open spec fn fitted(raw: Seq<char>, target: nat, padding: Seq<char>) -> Seq<char> {
    if raw.len() > target + 3 {
        cut_to(raw, target)
    } else if raw.len() + 3 < target {
        cut_to(padded_to(raw, padding, target), target)
    } else {
        raw
    }
}

/// Whether fitting `raw` lands no more than 3 characters below `target`: a long text is
/// cut, which lands there unless the cut falls after a run of more than four closing
/// marks; a short text is padded, and then the same holds of the padded text (without
/// padding it only gains its closing '！', which reaches the target when the text is
/// exactly 4 short and does not end with a closing mark); a text already close is kept.
pub open spec fn fit_reaches(raw: Seq<char>, target: nat, padding: Seq<char>) -> bool {
    if raw.len() > target + 3 {
        trailing_marks(raw.take(target as int)) <= 4
    } else if raw.len() + 3 < target {
        if padding.len() > 0 {
            trailing_marks(padded_to(raw, padding, target).take(target as int)) <= 4
        } else {
            raw.len() + 4 == target && trailing_marks(raw) == 0
        }
    } else {
        true
    }
}

/// The length bounds of fitted text: never more than 3 over the target, and no more than
/// 3 under it exactly when `fit_reaches` holds.
pub open spec fn fit_length_ok(raw: Seq<char>, target: nat, padding: Seq<char>, len: nat) -> bool {
    &&& len <= target + 3
    &&& (len + 3 >= target <==> fit_reaches(raw, target, padding))
}

/// The pieces that are not blank, in order.
pub open spec fn non_blank(pieces: Seq<Seq<char>>) -> Seq<Seq<char>>
    decreases pieces.len(),
{
    if pieces.len() == 0 {
        Seq::empty()
    } else {
        let r = non_blank(pieces.drop_last());
        if trim(pieces.last()).len() == 0 {
            r
        } else {
            r.push(pieces.last())
        }
    }
}

/// The sentences of a text: its pieces between '！', '。', '，' and '、' that are not blank.
pub open spec fn sentences_of(text: Seq<char>) -> Seq<Seq<char>> {
    non_blank(split_by(text, sentence_marks()))
}

/// The openings of template commentary.
pub open spec fn heuristic_hook(k: nat) -> Seq<char> {
    if k % 4 == 0 {
        "注意看！就在这千钧一发的瞬间！"@
    } else if k % 4 == 1 {
        "谁能想到！接下来这一幕彻底引爆全场！"@
    } else if k % 4 == 2 {
        "千万别眨眼！这波操作堪称神级名场面！"@
    } else {
        "注意看！现场所有人都屏住了呼吸！"@
    }
}

/// The middle of template commentary, chosen by the first emotion tag.
pub open spec fn heuristic_middle(tag: Seq<char>, topic: Seq<char>) -> Seq<char> {
    if tag == "欢呼声"@ || tag == "热烈掌声"@ {
        topic + "突然发力，以不可思议的绝妙节奏瞬间扭转战局，行云流水般的掌控力让全场观众集体起立狂欢！"@
    } else if tag == "大笑"@ {
        topic + "突然上演意料之外的幽默反转，现场气氛直接拉满，这波神来之笔让所有人忍俊不禁！"@
    } else {
        topic + "展现出顶级的反应与爆发力，每一个细节都拿捏得恰到好处，堪称教科书级别的巅峰演绎！"@
    }
}

/// The middle chosen by the first emotion tag; without tags, the general one.
pub open spec fn heuristic_middle_for(tags: Seq<Seq<char>>, topic: Seq<char>) -> Seq<char> {
    if tags.len() > 0 {
        heuristic_middle(tags[0], topic)
    } else {
        topic + "展现出顶级的反应与爆发力，每一个细节都拿捏得恰到好处，堪称教科书级别的巅峰演绎！"@
    }
}

pub open spec fn topic_or(topic: Option<Seq<char>>, d: Seq<char>) -> Seq<char> {
    match topic {
        Some(t) => t,
        None => d,
    }
}

/// The template commentary text before fitting.
pub open spec fn heuristic_text(hook_selector: nat, tags: Seq<Seq<char>>, topic: Option<Seq<char>>) -> Seq<char> {
    heuristic_hook(hook_selector) + heuristic_middle_for(tags, topic_or(topic, "全场焦点"@))
        + "不得不说，这一刻的精彩注定成为经典回放！"@
}

/// The emotion tags joined by '、', or a stock phrase when there are none.
pub open spec fn tags_phrase(tags: Seq<Seq<char>>) -> Seq<char> {
    if tags.len() == 0 {
        "高能瞬间"@
    } else {
        crate::text::join_with(tags, "、"@)
    }
}

/// The user prompt for one highlight.
pub open spec fn user_prompt(summary: Seq<char>, tags: Seq<Seq<char>>, duration_text: Seq<char>, target: nat) -> Seq<char> {
    "【高光片段信息】\n- 场景概要: "@ + summary + "\n- 情绪识别标签: ["@ + tags_phrase(tags)
        + "]\n- 片段精准时长: "@ + duration_text + " 秒\n- 目标严格字数: 约 "@
        + crate::text::decimal(target)
        + " 字（按 4.2字/秒配速）\n\n请立即为该片段生成带黄金Hook的解说文案与字幕时间轴 JSON："@
}

fn cut_to_chars(s: &Vec<char>, n: usize) -> (r: Vec<char>)
    ensures
        r@ == cut_to(s@, n as nat),
{
    let m = if n <= s.len() { n } else { s.len() };
    let mut t: Vec<char> = Vec::new();
    let mut i: usize = 0;
    while i < m
        invariant
            i <= m <= s.len(),
            t@ == s@.take(i as int),
        decreases m - i,
    {
        t.push(s[i]);
        i = i + 1;
        assert(t@ =~= s@.take(i as int));
    }
    let marks = vec!['！', '。', '，'];
    assert(marks@ =~= end_marks());
    let mut r = trim_end_chars(&t, &marks);
    r.push('！');
    r
}

/// Brings `raw` near `target` characters (see `fitted`): within 3 above the target, and
/// within 3 below it as `fit_length_ok` states.
pub fn fit_to_target(raw: &Vec<char>, target: usize, padding: &str) -> (r: Vec<char>)
    ensures
        r@ == fitted(raw@, target as nat, padding@),
        fit_length_ok(raw@, target as nat, padding@, r@.len()),
        marks_apart(raw@) && marks_apart(padding@) && padding@.len() > 0 && !is_end_mark(padding@[0])
            ==> r@.len() + 3 >= target,
{
    proof {
        if marks_apart(raw@) && marks_apart(padding@) && padding@.len() > 0 && !is_end_mark(padding@[0]) {
            law_fitted_length_near_target(raw@, target as nat, padding@);
        }
        law_fitted_length_at_most_three_over(raw@, target as nat, padding@);
        if fit_reaches(raw@, target as nat, padding@) {
            law_fitted_length_at_most_three_under(raw@, target as nat, padding@);
        } else {
            lemma_fitted_falls_short(raw@, target as nat, padding@);
        }
    }
    let len = raw.len();
    if len > target && len - target > 3 {
        cut_to_chars(raw, target)
    } else if len < target && target - len > 3 {
        let pad = to_chars(padding);
        let mut padded: Vec<char> = Vec::new();
        push_all(&mut padded, raw);
        while padded.len() < target && pad.len() > 0
            invariant
                pad@ == padding@,
                padded_to(raw@, padding@, target as nat) == padded_to(padded@, padding@, target as nat),
            decreases (if padded.len() >= target { 0 } else { target - padded.len() }),
        {
            push_all(&mut padded, &pad);
        }
        cut_to_chars(&padded, target)
    } else {
        let mut r: Vec<char> = Vec::new();
        push_all(&mut r, raw);
        assert(r@ =~= raw@);
        r
    }
}

/// The sentences of `text`.
pub fn split_sentences(text: &Vec<char>) -> (r: Vec<String>)
    ensures
        string_views(r@) == sentences_of(text@),
{
    let marks = vec!['！', '。', '，', '、'];
    assert(marks@ =~= sentence_marks());
    let pieces = split_chars(text, &marks);
    let ghost pv = views(pieces@);
    let mut r: Vec<String> = Vec::new();
    let mut i: usize = 0;
    assert(pv.take(0) =~= Seq::<Seq<char>>::empty());
    while i < pieces.len()
        invariant
            i <= pieces.len(),
            pv == views(pieces@),
            pv.len() == pieces.len(),
            string_views(r@) == non_blank(pv.take(i as int)),
        decreases pieces.len() - i,
    {
        let t = trimmed(&pieces[i]);
        assert(pv.take(i + 1).drop_last() =~= pv.take(i as int));
        assert(pv.take(i + 1).last() == pieces@[i as int]@);
        if t.len() > 0 {
            let ghost before = string_views(r@);
            r.push(from_chars(&pieces[i]));
            assert(string_views(r@) =~= before.push(pieces@[i as int]@));
        }
        i = i + 1;
    }
    assert(pv.take(i as int) =~= pv);
    r
}

/// Whether `tags` holds `tag`.
pub fn has_tag(tags: &Vec<String>, tag: &str) -> (r: bool)
    ensures
        r == string_views(tags@).contains(tag@),
{
    let want = to_chars(tag);
    let mut i: usize = 0;
    while i < tags.len()
        invariant
            i <= tags.len(),
            want@ == tag@,
            forall|j: int| 0 <= j < i ==> tags@[j]@ != tag@,
        decreases tags.len() - i,
    {
        let t = to_chars(tags[i].as_str());
        assert(t@ == tags@[i as int]@);
        if crate::text::chars_eq(&t, &want) {
            assert(string_views(tags@)[i as int] == tag@);
            return true;
        }
        i = i + 1;
    }
    assert forall|j: int| 0 <= j < string_views(tags@).len() implies string_views(tags@)[j] != tag@ by {
        assert(string_views(tags@)[j] == tags@[j]@);
    }
    false
}

/// The draft made of a raw text: fitted to `target`, with its sentences.
pub fn draft_from(hook: String, raw: &Vec<char>, target: usize, padding: &str) -> (r: CommentaryDraft)
    ensures
        r.hook == hook,
        r.full_commentary@ == fitted(raw@, target as nat, padding@),
        r.char_count == fitted(raw@, target as nat, padding@).len(),
        string_views(r.sentences@) == sentences_of(fitted(raw@, target as nat, padding@)),
        fit_length_ok(raw@, target as nat, padding@, r.char_count as nat),
{
    let text = fit_to_target(raw, target, padding);
    let sentences = split_sentences(&text);
    CommentaryDraft {
        hook,
        full_commentary: from_chars(&text),
        char_count: text.len(),
        sentences,
    }
}

impl CommentaryGenerator {
    /// The prompt for a model: the highlight summary, its emotion tags (or a stock phrase),
    /// its length as `duration_text` seconds, and the target number of characters.
    pub fn build_user_prompt(clip_summary: &str, duration_text: &str, emotion_tags: &Vec<String>, target_chars: usize) -> (r: String)
        ensures
            r@ == user_prompt(
                clip_summary@,
                string_views(emotion_tags@),
                duration_text@,
                target_chars as nat,
            ),
    {
        let mut v = to_chars("【高光片段信息】\n- 场景概要: ");
        push_str(&mut v, clip_summary);
        push_str(&mut v, "\n- 情绪识别标签: [");
        if emotion_tags.len() == 0 {
            push_str(&mut v, "高能瞬间");
        } else {
            let ghost tv = string_views(emotion_tags@);
            let ghost start = v@;
            push_str(&mut v, emotion_tags[0].as_str());
            let mut i: usize = 1;
            assert(tv.take(1) =~= seq![tv[0]]);
            assert(crate::text::join_with(tv.take(1), "、"@) == tv[0]);
            while i < emotion_tags.len()
                invariant
                    1 <= i <= emotion_tags.len(),
                    tv == string_views(emotion_tags@),
                    v@ == start + crate::text::join_with(tv.take(i as int), "、"@),
                decreases emotion_tags.len() - i,
            {
                push_str(&mut v, "、");
                push_str(&mut v, emotion_tags[i].as_str());
                assert(tv.take(i + 1).drop_last() =~= tv.take(i as int));
                assert(tv.take(i + 1).last() == emotion_tags@[i as int]@);
                i = i + 1;
            }
            assert(tv.take(i as int) =~= tv);
        }
        push_str(&mut v, "]\n- 片段精准时长: ");
        push_str(&mut v, duration_text);
        push_str(&mut v, " 秒\n- 目标严格字数: 约 ");
        crate::text::push_decimal(&mut v, target_chars as u128);
        push_str(&mut v, " 字（按 4.2字/秒配速）\n\n请立即为该片段生成带黄金Hook的解说文案与字幕时间轴 JSON：");
        from_chars(&v)
    }

    /// The opening of template commentary number `hook_selector` (taken modulo 4).
    pub fn heuristic_hook(hook_selector: usize) -> (r: &'static str)
        ensures
            r@ == heuristic_hook(hook_selector as nat),
    {
        let k = hook_selector % 4;
        if k == 0 {
            "注意看！就在这千钧一发的瞬间！"
        } else if k == 1 {
            "谁能想到！接下来这一幕彻底引爆全场！"
        } else if k == 2 {
            "千万别眨眼！这波操作堪称神级名场面！"
        } else {
            "注意看！现场所有人都屏住了呼吸！"
        }
    }

    /// Template commentary: opening `hook_selector` (modulo 4), a middle chosen by the
    /// first emotion tag about `topic_hint` (or "全场焦点"), a fixed ending, fitted to
    /// `target_chars` with a stock padding sentence.
    pub fn generate_heuristic_draft(hook_selector: usize, target_chars: usize, emotion_tags: &Vec<String>, topic_hint: Option<&str>) -> (r: CommentaryDraft)
        ensures
            r.hook@ == heuristic_hook(hook_selector as nat),
            ({
                let raw = heuristic_text(
                    hook_selector as nat,
                    string_views(emotion_tags@),
                    match topic_hint {
                        Some(t) => Some(t@),
                        None => None,
                    },
                );
                let pad = "这绝对是不可多得的高光时刻！"@;
                let text = fitted(raw, target_chars as nat, pad);
                &&& r.full_commentary@ == text
                &&& r.char_count == text.len()
                &&& string_views(r.sentences@) == sentences_of(text)
                &&& r.char_count <= target_chars + 3
                &&& (r.char_count + 3 >= target_chars <==> fit_reaches(raw, target_chars as nat, pad))
            }),
            (match topic_hint {
                Some(t) => topic_fits(t@),
                None => true,
            }) ==> r.char_count + 3 >= target_chars,
    {
        proof {
            let th = match topic_hint {
                Some(t) => Some(t@),
                None => None,
            };
            if match topic_hint {
                Some(t) => topic_fits(t@),
                None => true,
            } {
                match topic_hint {
                    Some(_) => {},
                    None => lemma_default_heuristic_topic_fits(),
                }
                lemma_heuristic_text_apart(hook_selector as nat, string_views(emotion_tags@), topic_or(th, "全场焦点"@));
                lemma_heuristic_padding();
                assert(heuristic_text(hook_selector as nat, string_views(emotion_tags@), th)
                    == heuristic_hook(hook_selector as nat) + heuristic_middle_for(string_views(emotion_tags@), topic_or(th, "全场焦点"@))
                    + "不得不说，这一刻的精彩注定成为经典回放！"@);
                law_fitted_length_near_target(
                    heuristic_text(hook_selector as nat, string_views(emotion_tags@), th),
                    target_chars as nat,
                    "这绝对是不可多得的高光时刻！"@,
                );
            }
        }
        let hook = Self::heuristic_hook(hook_selector);
        let topic = match topic_hint {
            Some(t) => t,
            None => "全场焦点",
        };
        let ghost tv = string_views(emotion_tags@);
        let tag_kind: u8 = if emotion_tags.len() > 0 {
            let t = to_chars(emotion_tags[0].as_str());
            assert(tv[0] == t@);
            if crate::text::eq_str(&t, "欢呼声") || crate::text::eq_str(&t, "热烈掌声") {
                0
            } else if crate::text::eq_str(&t, "大笑") {
                1
            } else {
                2
            }
        } else {
            2
        };
        let mut raw = to_chars(hook);
        push_str(&mut raw, topic);
        if tag_kind == 0 {
            push_str(
                &mut raw,
                "突然发力，以不可思议的绝妙节奏瞬间扭转战局，行云流水般的掌控力让全场观众集体起立狂欢！",
            );
        } else if tag_kind == 1 {
            push_str(&mut raw, "突然上演意料之外的幽默反转，现场气氛直接拉满，这波神来之笔让所有人忍俊不禁！");
        } else {
            push_str(
                &mut raw,
                "展现出顶级的反应与爆发力，每一个细节都拿捏得恰到好处，堪称教科书级别的巅峰演绎！",
            );
        }
        push_str(&mut raw, "不得不说，这一刻的精彩注定成为经典回放！");
        assert(raw@ =~= heuristic_text(
            hook_selector as nat,
            tv,
            match topic_hint {
                Some(t) => Some(t@),
                None => None,
            },
        ));
        proof {
            reveal_strlit("这绝对是不可多得的高光时刻！");
        }
        draft_from(crate::text::string_of(hook), &raw, target_chars, "这绝对是不可多得的高光时刻！")
    }
}

/// Fitting never leaves the text more than 3 characters over the target.
pub proof fn law_fitted_length_at_most_three_over(raw: Seq<char>, target: nat, padding: Seq<char>)
    ensures
        fitted(raw, target, padding).len() <= target + 3,
{
    lemma_cut_to_len(raw, target);
    lemma_cut_to_len(padded_to(raw, padding, target), target);
}

/// Padding keeps the text at its start, and reaches the target when there is padding.
pub proof fn lemma_padded_to(s: Seq<char>, padding: Seq<char>, target: nat)
    ensures
        padded_to(s, padding, target).len() >= s.len(),
        padded_to(s, padding, target).take(s.len() as int) == s,
        padding.len() > 0 ==> padded_to(s, padding, target).len() >= target,
    decreases (if s.len() >= target { 0 } else { target - s.len() }),
{
    if s.len() >= target || padding.len() == 0 {
        assert(s.take(s.len() as int) =~= s);
    } else {
        lemma_padded_to(s + padding, padding, target);
        let r = padded_to(s + padding, padding, target);
        assert(r.take(s.len() as int) =~= (s + padding).take((s + padding).len() as int).take(s.len() as int));
        assert((s + padding).take(s.len() as int) =~= s);
        assert(r.take((s + padding).len() as int).take(s.len() as int) =~= r.take(s.len() as int));
    }
}

/// A text within 3 characters of the target is kept as it is.
pub proof fn law_fitted_keeps_close_text(raw: Seq<char>, target: nat, padding: Seq<char>)
    requires
        raw.len() <= target + 3,
        target <= raw.len() + 3,
    ensures
        fitted(raw, target, padding) == raw,
{
}

proof fn lemma_trim_end_of_len(s: Seq<char>, set: Seq<char>)
    ensures
        trim_end_of(s, set).len() <= s.len(),
    decreases s.len(),
{
    if s.len() > 0 && set.contains(s.last()) {
        lemma_trim_end_of_len(s.drop_last(), set);
    }
}

proof fn lemma_cut_to_len(s: Seq<char>, n: nat)
    ensures
        cut_to(s, n).len() <= n + 1,
{
    let t = s.take(if n <= s.len() { n as int } else { s.len() as int });
    lemma_trim_end_of_len(t, end_marks());
}


/// How many closing marks end `s`.
pub open spec fn trailing_marks(s: Seq<char>) -> nat
    decreases s.len(),
{
    if s.len() > 0 && end_marks().contains(s.last()) {
        1 + trailing_marks(s.drop_last())
    } else {
        0
    }
}

proof fn lemma_trim_marks_len(s: Seq<char>)
    ensures
        trim_end_of(s, end_marks()).len() + trailing_marks(s) == s.len(),
    decreases s.len(),
{
    if s.len() > 0 && end_marks().contains(s.last()) {
        lemma_trim_marks_len(s.drop_last());
    }
}

/// Fitting never leaves the text more than 3 characters short of the target either,
/// whenever `fit_reaches` holds; with padding, that is whenever the cut does not fall
/// after a run of more than four closing marks.
pub proof fn law_fitted_length_at_most_three_under(raw: Seq<char>, target: nat, padding: Seq<char>)
    requires
        fit_reaches(raw, target, padding),
    ensures
        fitted(raw, target, padding).len() + 3 >= target,
{
    if raw.len() > target + 3 {
        lemma_trim_marks_len(raw.take(target as int));
    } else if raw.len() + 3 < target {
        if padding.len() == 0 {
            assert(padded_to(raw, padding, target) == raw);
            assert(raw.take(raw.len() as int) =~= raw);
            lemma_trim_marks_len(raw);
        } else {
            lemma_padded_to(raw, padding, target);
            lemma_trim_marks_len(padded_to(raw, padding, target).take(target as int));
        }
    }
}

/// Where `fit_reaches` fails, fitting does leave the text more than 3 characters short.
pub proof fn lemma_fitted_falls_short(raw: Seq<char>, target: nat, padding: Seq<char>)
    requires
        !fit_reaches(raw, target, padding),
    ensures
        fitted(raw, target, padding).len() + 3 < target,
{
    if raw.len() > target + 3 {
        lemma_trim_marks_len(raw.take(target as int));
    } else {
        if padding.len() == 0 {
            assert(padded_to(raw, padding, target) == raw);
            assert(raw.take(raw.len() as int) =~= raw);
            lemma_trim_marks_len(raw);
        } else {
            lemma_padded_to(raw, padding, target);
            lemma_trim_marks_len(padded_to(raw, padding, target).take(target as int));
        }
    }
}

/// Template openings are the golden three-second hooks: each starts with
/// "注意看", "谁能想到" or "千万别眨眼".
pub proof fn law_heuristic_hook_is_golden(k: nat)
    ensures
        has_prefix(heuristic_hook(k), "注意看"@) || has_prefix(heuristic_hook(k), "谁能想到"@)
            || has_prefix(heuristic_hook(k), "千万别眨眼"@),
{
    reveal_strlit("注意看");
    reveal_strlit("谁能想到");
    reveal_strlit("千万别眨眼");
    reveal_strlit("注意看！就在这千钧一发的瞬间！");
    reveal_strlit("谁能想到！接下来这一幕彻底引爆全场！");
    reveal_strlit("千万别眨眼！这波操作堪称神级名场面！");
    reveal_strlit("注意看！现场所有人都屏住了呼吸！");
    if k % 4 == 0 {
        assert(heuristic_hook(k).take(3) =~= "注意看"@);
    } else if k % 4 == 1 {
        assert(heuristic_hook(k).take(4) =~= "谁能想到"@);
    } else if k % 4 == 2 {
        assert(heuristic_hook(k).take(5) =~= "千万别眨眼"@);
    } else {
        assert(heuristic_hook(k).take(3) =~= "注意看"@);
    }
}


proof fn lemma_trim_keeps_non_mark(t: Seq<char>, j: int)
    requires
        0 <= j < t.len(),
        !end_marks().contains(t[j]),
    ensures
        trim_end_of(t, end_marks()).len() > j,
        trim_end_of(t, end_marks()) == t.take(trim_end_of(t, end_marks()).len() as int),
    decreases t.len(),
{
    if end_marks().contains(t.last()) {
        assert(j < t.len() - 1);
        let d = t.drop_last();
        assert(d[j] == t[j]);
        lemma_trim_keeps_non_mark(d, j);
        lemma_trim_end_of_len(d, end_marks());
        let k = trim_end_of(d, end_marks()).len() as int;
        assert(d.take(k) =~= t.take(k));
    } else {
        assert(t.take(t.len() as int) =~= t);
    }
}

/// Cutting keeps an opening `h` whenever the cut falls after it and the opening is followed
/// by a character that is not a closing mark.
pub proof fn lemma_cut_keeps_opening(s: Seq<char>, h: Seq<char>, n: nat)
    requires
        has_prefix(s, h),
        s.len() > h.len(),
        !end_marks().contains(s[h.len() as int]),
        n > h.len(),
    ensures
        has_prefix(cut_to(s, n), h),
{
    let t = s.take(if n <= s.len() { n as int } else { s.len() as int });
    assert(t[h.len() as int] == s[h.len() as int]);
    lemma_trim_keeps_non_mark(t, h.len() as int);
    lemma_trim_end_of_len(t, end_marks());
    let r = trim_end_of(t, end_marks());
    assert(r.push('！').take(h.len() as int) =~= h) by {
        assert forall|i: int| 0 <= i < h.len() implies r.push('！')[i] == h[i] by {
            assert(r == t.take(r.len() as int));
            assert(t.take(r.len() as int)[i] == t[i]);
            assert(r[i] == t[i]);
            assert(t[i] == s[i]);
            assert(s.take(h.len() as int)[i] == s[i]);
        }
    }
}

/// Fitting keeps an opening `h` of the text whenever the target leaves room after it and
/// the opening is followed by a character that is not a closing mark.
pub proof fn lemma_fitted_keeps_opening(raw: Seq<char>, h: Seq<char>, target: nat, padding: Seq<char>)
    requires
        has_prefix(raw, h),
        raw.len() > h.len(),
        !end_marks().contains(raw[h.len() as int]),
        target > h.len(),
    ensures
        has_prefix(fitted(raw, target, padding), h),
{
    if raw.len() > target + 3 {
        lemma_cut_keeps_opening(raw, h, target);
    } else if raw.len() + 3 < target {
        let whole = padded_to(raw, padding, target);
        lemma_padded_to(raw, padding, target);
        assert(whole.take(raw.len() as int)[h.len() as int] == whole[h.len() as int]);
        assert(whole.take(h.len() as int) =~= raw.take(h.len() as int)) by {
            assert forall|i: int| 0 <= i < h.len() implies whole.take(h.len() as int)[i] == raw.take(h.len() as int)[i] by {
                assert(whole.take(raw.len() as int)[i] == whole[i]);
            }
        }
        lemma_cut_keeps_opening(whole, h, target);
    }
}


/// A closing mark: '！', '。' or '，'.
pub open spec fn is_end_mark(c: char) -> bool {
    c == '！' || c == '。' || c == '，'
}

/// Closing marks at positions `i` and `i + 1`.
pub open spec fn adjacent_marks(s: Seq<char>, i: int) -> bool {
    is_end_mark(s[i]) && is_end_mark(s[i + 1])
}

/// No two closing marks stand side by side.
pub open spec fn marks_apart(s: Seq<char>) -> bool {
    forall|i: int| 0 <= i < s.len() - 1 ==> !#[trigger] adjacent_marks(s, i)
}

/// `marks_apart` checked position by position from `k` on.
pub open spec fn marks_apart_from(s: Seq<char>, k: int) -> bool
    decreases s.len() - k,
{
    if k < 0 || k + 1 >= s.len() {
        true
    } else {
        !adjacent_marks(s, k) && marks_apart_from(s, k + 1)
    }
}

pub proof fn lemma_marks_apart_from(s: Seq<char>, k: int)
    requires
        0 <= k,
        marks_apart_from(s, k),
    ensures
        forall|i: int| k <= i < s.len() - 1 ==> !#[trigger] adjacent_marks(s, i),
    decreases s.len() - k,
{
    if k + 1 < s.len() {
        lemma_marks_apart_from(s, k + 1);
    }
}

pub proof fn lemma_marks_apart_concat(a: Seq<char>, b: Seq<char>)
    requires
        marks_apart(a),
        marks_apart(b),
        a.len() == 0 || b.len() == 0 || !is_end_mark(a.last()) || !is_end_mark(b[0]),
    ensures
        marks_apart(a + b),
{
    let c = a + b;
    assert forall|i: int| 0 <= i < c.len() - 1 implies !#[trigger] adjacent_marks(c, i) by {
        if i + 1 < a.len() {
            assert(c[i] == a[i] && c[i + 1] == a[i + 1]);
            assert(!adjacent_marks(a, i));
        } else if i >= a.len() {
            assert(c[i] == b[i - a.len()] && c[i + 1] == b[i - a.len() + 1]);
            assert(!adjacent_marks(b, i - a.len()));
        } else {
            assert(c[i] == a.last() && c[i + 1] == b[0]);
        }
    }
}

proof fn lemma_marks_apart_padded(s: Seq<char>, padding: Seq<char>, target: nat)
    requires
        marks_apart(s),
        marks_apart(padding),
        padding.len() > 0,
        !is_end_mark(padding[0]),
    ensures
        marks_apart(padded_to(s, padding, target)),
    decreases (if s.len() >= target { 0 } else { target - s.len() }),
{
    if s.len() < target {
        lemma_marks_apart_concat(s, padding);
        lemma_marks_apart_padded(s + padding, padding, target);
    }
}

proof fn lemma_end_marks_contains(c: char)
    ensures
        end_marks().contains(c) <==> is_end_mark(c),
{
    if end_marks().contains(c) {
        let k = choose|k: int| 0 <= k < end_marks().len() && end_marks()[k] == c;
    }
    if is_end_mark(c) {
        if c == '！' {
            assert(end_marks()[0] == c);
        } else if c == '。' {
            assert(end_marks()[1] == c);
        } else {
            assert(end_marks()[2] == c);
        }
    }
}

proof fn lemma_marks_apart_trailing(s: Seq<char>, n: int)
    requires
        marks_apart(s),
        0 <= n <= s.len(),
    ensures
        trailing_marks(s.take(n)) <= 1,
{
    let t = s.take(n);
    if trailing_marks(t) >= 2 {
        let d = t.drop_last();
        assert(t.len() > 0 && end_marks().contains(t.last()));
        assert(trailing_marks(t) == 1 + trailing_marks(d));
        assert(d.len() > 0 && end_marks().contains(d.last()));
        assert(t.len() == n);
        lemma_end_marks_contains(t.last());
        lemma_end_marks_contains(d.last());
        assert(t.last() == s[n - 1]);
        assert(d.last() == s[n - 2]);
        assert(adjacent_marks(s, n - 2));
    }
}

/// Fitting a text in which no two closing marks stand side by side, with padding that
/// does not start with one, always lands within 3 characters of the target.
pub proof fn law_fitted_length_near_target(raw: Seq<char>, target: nat, padding: Seq<char>)
    requires
        marks_apart(raw),
        marks_apart(padding),
        padding.len() > 0,
        !is_end_mark(padding[0]),
    ensures
        fitted(raw, target, padding).len() <= target + 3,
        fitted(raw, target, padding).len() + 3 >= target,
{
    law_fitted_length_at_most_three_over(raw, target, padding);
    if raw.len() > target + 3 {
        lemma_marks_apart_trailing(raw, target as int);
        law_fitted_length_at_most_three_under(raw, target, padding);
    } else if raw.len() + 3 < target {
        lemma_marks_apart_padded(raw, padding, target);
        lemma_padded_to(raw, padding, target);
        lemma_marks_apart_trailing(padded_to(raw, padding, target), target as int);
        law_fitted_length_at_most_three_under(raw, target, padding);
    }
}


/// A topic fits the commentary templates when no two closing marks in it stand side by
/// side and it neither starts nor ends with one.
pub open spec fn topic_fits(topic: Seq<char>) -> bool {
    &&& marks_apart(topic)
    &&& (topic.len() == 0 || (!is_end_mark(topic[0]) && !is_end_mark(topic.last())))
}

proof fn lemma_literal_marks_apart(s: Seq<char>)
    requires
        marks_apart_from(s, 0),
    ensures
        marks_apart(s),
{
    lemma_marks_apart_from(s, 0);
}

proof fn lemma_default_heuristic_topic_fits()
    ensures
        topic_fits("全场焦点"@),
{
    reveal_strlit("全场焦点");
    reveal_with_fuel(marks_apart_from, 6);
    lemma_literal_marks_apart("全场焦点"@);
}

proof fn lemma_heuristic_padding()
    ensures
        marks_apart("这绝对是不可多得的高光时刻！"@),
        "这绝对是不可多得的高光时刻！"@.len() > 0,
        !is_end_mark("这绝对是不可多得的高光时刻！"@[0]),
{
    reveal_strlit("这绝对是不可多得的高光时刻！");
    reveal_with_fuel(marks_apart_from, 16);
    lemma_literal_marks_apart("这绝对是不可多得的高光时刻！"@);
}

proof fn lemma_heuristic_pieces(k: nat)
    ensures
        marks_apart(heuristic_hook(k)),
        marks_apart("不得不说，这一刻的精彩注定成为经典回放！"@),
        "不得不说，这一刻的精彩注定成为经典回放！"@.len() > 0,
        !is_end_mark("不得不说，这一刻的精彩注定成为经典回放！"@[0]),
{
    reveal_with_fuel(marks_apart_from, 24);
    reveal_strlit("不得不说，这一刻的精彩注定成为经典回放！");
    lemma_literal_marks_apart("不得不说，这一刻的精彩注定成为经典回放！"@);
    if k % 4 == 0 {
        reveal_strlit("注意看！就在这千钧一发的瞬间！");
        lemma_literal_marks_apart(heuristic_hook(k));
    } else if k % 4 == 1 {
        reveal_strlit("谁能想到！接下来这一幕彻底引爆全场！");
        lemma_literal_marks_apart(heuristic_hook(k));
    } else if k % 4 == 2 {
        reveal_strlit("千万别眨眼！这波操作堪称神级名场面！");
        lemma_literal_marks_apart(heuristic_hook(k));
    } else {
        reveal_strlit("注意看！现场所有人都屏住了呼吸！");
        lemma_literal_marks_apart(heuristic_hook(k));
    }
}

proof fn lemma_heuristic_middle(tags: Seq<Seq<char>>, topic: Seq<char>)
    requires
        topic_fits(topic),
    ensures
        marks_apart(heuristic_middle_for(tags, topic)),
        heuristic_middle_for(tags, topic).len() > 0,
        !is_end_mark(heuristic_middle_for(tags, topic)[0]),
{
    reveal_with_fuel(marks_apart_from, 50);
    let l1 = "突然发力，以不可思议的绝妙节奏瞬间扭转战局，行云流水般的掌控力让全场观众集体起立狂欢！"@;
    let l2 = "突然上演意料之外的幽默反转，现场气氛直接拉满，这波神来之笔让所有人忍俊不禁！"@;
    let l3 = "展现出顶级的反应与爆发力，每一个细节都拿捏得恰到好处，堪称教科书级别的巅峰演绎！"@;
    reveal_strlit("突然发力，以不可思议的绝妙节奏瞬间扭转战局，行云流水般的掌控力让全场观众集体起立狂欢！");
    reveal_strlit("突然上演意料之外的幽默反转，现场气氛直接拉满，这波神来之笔让所有人忍俊不禁！");
    reveal_strlit("展现出顶级的反应与爆发力，每一个细节都拿捏得恰到好处，堪称教科书级别的巅峰演绎！");
    lemma_literal_marks_apart(l1);
    lemma_literal_marks_apart(l2);
    lemma_literal_marks_apart(l3);
    let tail = if tags.len() > 0 && (tags[0] == "欢呼声"@ || tags[0] == "热烈掌声"@) {
        l1
    } else if tags.len() > 0 && tags[0] == "大笑"@ {
        l2
    } else {
        l3
    };
    assert(heuristic_middle_for(tags, topic) == topic + tail);
    lemma_marks_apart_concat(topic, tail);
    let m = topic + tail;
    if topic.len() > 0 {
        assert(m[0] == topic[0]);
    } else {
        assert(m[0] == tail[0]);
    }
}

proof fn lemma_heuristic_text_apart(k: nat, tags: Seq<Seq<char>>, topic: Seq<char>)
    requires
        topic_fits(topic),
    ensures
        marks_apart(heuristic_hook(k) + heuristic_middle_for(tags, topic) + "不得不说，这一刻的精彩注定成为经典回放！"@),
{
    lemma_heuristic_pieces(k);
    lemma_heuristic_middle(tags, topic);
    lemma_marks_apart_concat(heuristic_hook(k), heuristic_middle_for(tags, topic));
    lemma_marks_apart_concat(
        heuristic_hook(k) + heuristic_middle_for(tags, topic),
        "不得不说，这一刻的精彩注定成为经典回放！"@,
    );
}

} // verus!
