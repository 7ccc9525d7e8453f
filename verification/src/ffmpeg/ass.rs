use vstd::prelude::*;

use crate::text::{
    contains_str, decimal, from_chars, has_substr, padded_decimal, push_all, push_decimal,
    push_padded, push_str, to_chars,
};

verus! {

/// Generator of animated Advanced SubStation Alpha (v4.00+) subtitles.
pub struct AssSubtitleGenerator;

/// One subtitle cue in centiseconds: start, end, and the length (at least 20) over which
/// its characters are revealed.
#[derive(Debug, Clone)]
pub struct AssCue {
    pub start_cs: u64,
    pub end_cs: u64,
    pub span_cs: u32,
    pub text: String,
}

/// ASS time stamp `h:mm:ss.cc` of a time in centiseconds.
pub open spec fn ass_time(t: nat) -> Seq<char> {
    let total_sec = t / 100;
    let total_min = total_sec / 60;
    decimal(total_min / 60) + seq![':'] + padded_decimal(total_min % 60, 2) + seq![':']
        + padded_decimal(total_sec % 60, 2) + seq!['.'] + padded_decimal(t % 100, 2)
}

/// Play resolution, font sizes and bottom margin of the two layouts.
pub open spec fn layout(is_vertical: bool) -> (nat, nat, nat, nat, nat) {
    if is_vertical {
        (1080, 1920, 58, 63, 380)
    } else {
        (1920, 1080, 48, 52, 80)
    }
}

/// The script header: script info, the Default and Highlight styles, and the events format.
pub open spec fn ass_header(is_vertical: bool) -> Seq<char> {
    let (res_x, res_y, font, highlight_font, margin) = layout(is_vertical);
    "[Script Info]\nTitle: NeuroClip Kinetic Pop-up Subtitles\nScriptType: v4.00+\nWrapStyle: 0\nScaledBorderAndShadow: yes\nPlayResX: "@
        + decimal(res_x) + "\nPlayResY: "@ + decimal(res_y)
        + "\n\n[V4+ Styles]\nFormat: Name, Fontname, Fontsize, PrimaryColour, SecondaryColour, OutlineColour, BackColour, Bold, Italic, Underline, StrikeOut, ScaleX, ScaleY, Spacing, Angle, BorderStyle, Outline, Shadow, Alignment, MarginL, MarginR, MarginV, Encoding\nStyle: Default,Arial,"@
        + decimal(font)
        + ",&H00FFFFFF,&H0000FFFF,&H00000000,&H80000000,-1,0,0,0,100,100,1,0,1,4.5,2.5,2,40,40,"@
        + decimal(margin) + ",1\nStyle: Highlight,Arial,"@ + decimal(highlight_font)
        + ",&H0000F0FF,&H0000FFFF,&H00000000,&H90000000,-1,0,0,0,112,112,2,0,1,5.5,3.5,2,40,40,"@
        + decimal(margin)
        + ",1\n\n[Events]\nFormat: Layer, Start, End, Style, Name, MarginL, MarginR, MarginV, Effect, Text\n"@
}

/// The phrases that switch a cue to the highlighted, popping style.
pub open spec fn has_hook_keyword(t: Seq<char>) -> bool {
    ||| has_substr(t, "注意看"@) ||| has_substr(t, "千万别眨眼"@) ||| has_substr(t, "谁能想到"@)
    ||| has_substr(t, "神级名场面"@) ||| has_substr(t, "反杀"@) ||| has_substr(t, "千钧一发"@)
    ||| has_substr(t, "翻盘"@) ||| has_substr(t, "封神"@) ||| has_substr(t, "不可思议"@)
    ||| has_substr(t, "全场起立"@) ||| has_substr(t, "绝杀"@) ||| has_substr(t, "细节"@)
    ||| has_substr(t, "巅峰"@)
}

/// The override tags of a highlighted cue: accent colour and a pop-in scale animation.
pub open spec fn pop_tags() -> Seq<char> {
    "{\\c&H00E5FF&\\t(0,180,\\fscx115\\fscy115)\\t(180,360,\\fscx100\\fscy100)}"@
}

/// Each character preceded by a karaoke tag of `cs` centiseconds.
pub open spec fn karaoke(t: Seq<char>, cs: nat) -> Seq<char>
    decreases t.len(),
{
    if t.len() == 0 {
        Seq::empty()
    } else {
        karaoke(t.drop_last(), cs) + "{\\k"@ + decimal(cs) + seq!['}', t.last()]
    }
}

/// Centiseconds per revealed character: the span shared among the characters, at least 5.
pub open spec fn centis_per_char(span: nat, chars: nat) -> nat {
    let per = span / (if chars == 0 { 1 } else { chars });
    if per > 5 { per } else { 5 }
}

/// The dialogue line of a cue.
pub open spec fn dialogue_line(c: AssCue) -> Seq<char> {
    let t = c.text@;
    let highlighted = has_hook_keyword(t);
    "Dialogue: 0,"@ + ass_time(c.start_cs as nat) + seq![','] + ass_time(c.end_cs as nat) + seq![
        ',',
    ] + (if highlighted { "Highlight"@ } else { "Default"@ }) + ",,0,0,0,,"@ + (if highlighted {
        pop_tags() + t
    } else {
        karaoke(t, centis_per_char(c.span_cs as nat, t.len()))
    }) + seq!['\n']
}

pub open spec fn dialogue_lines(cues: Seq<AssCue>) -> Seq<char>
    decreases cues.len(),
{
    if cues.len() == 0 {
        Seq::empty()
    } else {
        dialogue_lines(cues.drop_last()) + dialogue_line(cues.last())
    }
}

/// The complete script.
pub open spec fn ass_script(cues: Seq<AssCue>, is_vertical: bool) -> Seq<char> {
    ass_header(is_vertical) + dialogue_lines(cues)
}

fn push_ass_time(out: &mut Vec<char>, t: u64)
    ensures
        final(out)@ == old(out)@ + ass_time(t as nat),
{
    let ghost start = out@;
    let total_sec = t / 100;
    let total_min = total_sec / 60;
    push_decimal(out, (total_min / 60) as u128);
    out.push(':');
    push_padded(out, (total_min % 60) as u128, 2);
    out.push(':');
    push_padded(out, (total_sec % 60) as u128, 2);
    out.push('.');
    push_padded(out, (t % 100) as u128, 2);
    assert(out@ =~= start + ass_time(t as nat));
}

fn hook_keyword(t: &Vec<char>) -> (r: bool)
    ensures
        r == has_hook_keyword(t@),
{
    contains_str(t, "注意看") || contains_str(t, "千万别眨眼") || contains_str(t, "谁能想到")
        || contains_str(t, "神级名场面") || contains_str(t, "反杀") || contains_str(t, "千钧一发")
        || contains_str(t, "翻盘") || contains_str(t, "封神") || contains_str(t, "不可思议")
        || contains_str(t, "全场起立") || contains_str(t, "绝杀") || contains_str(t, "细节")
        || contains_str(t, "巅峰")
}

fn push_karaoke(out: &mut Vec<char>, t: &Vec<char>, cs: u64)
    ensures
        final(out)@ == old(out)@ + karaoke(t@, cs as nat),
{
    let ghost start = out@;
    let mut i: usize = 0;
    assert(t@.take(0) =~= Seq::<char>::empty());
    while i < t.len()
        invariant
            i <= t.len(),
            out@ == start + karaoke(t@.take(i as int), cs as nat),
        decreases t.len() - i,
    {
        let ghost before = out@;
        push_str(out, "{\\k");
        push_decimal(out, cs as u128);
        out.push('}');
        out.push(t[i]);
        assert(t@.take(i + 1).drop_last() =~= t@.take(i as int));
        assert(t@.take(i + 1).last() == t@[i as int]);
        assert(out@ =~= before + "{\\k"@ + decimal(cs as nat) + seq!['}', t@[i as int]]);
        i = i + 1;
    }
    assert(t@.take(i as int) =~= t@);
}

fn push_dialogue(out: &mut Vec<char>, c: &AssCue)
    ensures
        final(out)@ == old(out)@ + dialogue_line(*c),
{
    let ghost start = out@;
    let t = to_chars(c.text.as_str());
    let highlighted = hook_keyword(&t);
    push_str(out, "Dialogue: 0,");
    push_ass_time(out, c.start_cs);
    out.push(',');
    push_ass_time(out, c.end_cs);
    out.push(',');
    push_str(out, if highlighted { "Highlight" } else { "Default" });
    push_str(out, ",,0,0,0,,");
    let ghost mid = out@;
    if highlighted {
        push_str(out, "{\\c&H00E5FF&\\t(0,180,\\fscx115\\fscy115)\\t(180,360,\\fscx100\\fscy100)}");
        push_all(out, &t);
    } else {
        let chars: u64 = if t.len() == 0 { 1 } else { t.len() as u64 };
        let per: u64 = (c.span_cs as u64) / chars;
        let cs: u64 = if per > 5 { per } else { 5 };
        assert(cs as nat == centis_per_char(c.span_cs as nat, t@.len()));
        push_karaoke(out, &t, cs);
    }
    out.push('\n');
    assert(out@ =~= start + dialogue_line(*c));
}

impl AssSubtitleGenerator {
    /// ASS time stamp `h:mm:ss.cc` of a time in centiseconds.
    pub fn format_ass_time(total_cs: u64) -> (r: String)
        ensures
            r@ == ass_time(total_cs as nat),
    {
        let mut v: Vec<char> = Vec::new();
        push_ass_time(&mut v, total_cs);
        assert(v@ =~= ass_time(total_cs as nat));
        from_chars(&v)
    }

    /// The ASS script of the cues: the header of the portrait (1080x1920) or landscape
    /// (1920x1080) layout, then one dialogue line per cue, popping in the Highlight style
    /// when it holds a hook phrase and revealed character by character otherwise.
    pub fn generate_ass_script(cues: &Vec<AssCue>, is_vertical: bool) -> (r: String)
        ensures
            r@ == ass_script(cues@, is_vertical),
    {
        let (res_x, res_y, font, highlight_font, margin): (u64, u64, u64, u64, u64) = if is_vertical {
            (1080, 1920, 58, 63, 380)
        } else {
            (1920, 1080, 48, 52, 80)
        };
        let mut v: Vec<char> = Vec::new();
        push_str(
            &mut v,
            "[Script Info]\nTitle: NeuroClip Kinetic Pop-up Subtitles\nScriptType: v4.00+\nWrapStyle: 0\nScaledBorderAndShadow: yes\nPlayResX: ",
        );
        push_decimal(&mut v, res_x as u128);
        push_str(&mut v, "\nPlayResY: ");
        push_decimal(&mut v, res_y as u128);
        push_str(
            &mut v,
            "\n\n[V4+ Styles]\nFormat: Name, Fontname, Fontsize, PrimaryColour, SecondaryColour, OutlineColour, BackColour, Bold, Italic, Underline, StrikeOut, ScaleX, ScaleY, Spacing, Angle, BorderStyle, Outline, Shadow, Alignment, MarginL, MarginR, MarginV, Encoding\nStyle: Default,Arial,",
        );
        push_decimal(&mut v, font as u128);
        push_str(
            &mut v,
            ",&H00FFFFFF,&H0000FFFF,&H00000000,&H80000000,-1,0,0,0,100,100,1,0,1,4.5,2.5,2,40,40,",
        );
        push_decimal(&mut v, margin as u128);
        push_str(&mut v, ",1\nStyle: Highlight,Arial,");
        push_decimal(&mut v, highlight_font as u128);
        push_str(
            &mut v,
            ",&H0000F0FF,&H0000FFFF,&H00000000,&H90000000,-1,0,0,0,112,112,2,0,1,5.5,3.5,2,40,40,",
        );
        push_decimal(&mut v, margin as u128);
        push_str(
            &mut v,
            ",1\n\n[Events]\nFormat: Layer, Start, End, Style, Name, MarginL, MarginR, MarginV, Effect, Text\n",
        );
        assert(v@ =~= ass_header(is_vertical));
        let ghost header = v@;
        let mut i: usize = 0;
        assert(cues@.take(0) =~= Seq::<AssCue>::empty());
        while i < cues.len()
            invariant
                i <= cues.len(),
                v@ == header + dialogue_lines(cues@.take(i as int)),
            decreases cues.len() - i,
        {
            push_dialogue(&mut v, &cues[i]);
            assert(cues@.take(i + 1).drop_last() =~= cues@.take(i as int));
            i = i + 1;
            assert(v@ =~= header + dialogue_lines(cues@.take(i as int)));
        }
        assert(cues@.take(i as int) =~= cues@);
        from_chars(&v)
    }
}

} // verus!
