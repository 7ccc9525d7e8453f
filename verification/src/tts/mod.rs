pub mod bgm;

pub use bgm::BgmType;

use vstd::prelude::*;

use crate::text::{from_chars, push_decimal, push_str, string_of, string_views, to_chars};

verus! {

/// Signed decimal notation.
pub open spec fn signed_decimal(v: int) -> Seq<char> {
    if v < 0 {
        seq!['-'] + crate::text::decimal((-v) as nat)
    } else {
        crate::text::decimal(v as nat)
    }
}

/// Arguments of the sherpa-onnx offline TTS program for one utterance.
pub open spec fn sherpa_args(model: Seq<char>, tokens: Option<Seq<char>>, speaker_id: int, output: Seq<char>, text: Seq<char>) -> Seq<Seq<char>> {
    seq![
        "--vits-model="@ + model,
        "--vits-tokens="@ + match tokens {
            Some(t) => t,
            None => "tokens.txt"@,
        },
        "--sid="@ + signed_decimal(speaker_id),
        "--output-filename="@ + output,
        text,
    ]
}

/// The arguments that make sherpa-onnx speak `text` into `output` with the VITS `model`,
/// its `tokens` file (default `tokens.txt`) and voice `speaker_id`.
pub fn sherpa_tts_args(model: &str, tokens: Option<&str>, speaker_id: i32, output: &str, text: &str) -> (r: Vec<String>)
    ensures
        string_views(r@) == sherpa_args(
            model@,
            match tokens {
                Some(t) => Some(t@),
                None => None,
            },
            speaker_id as int,
            output@,
            text@,
        ),
{
    let mut a = to_chars("--vits-model=");
    push_str(&mut a, model);
    let mut b = to_chars("--vits-tokens=");
    push_str(&mut b, match tokens {
        Some(t) => t,
        None => "tokens.txt",
    });
    let mut c = to_chars("--sid=");
    let ghost before_sid = c@;
    if speaker_id < 0 {
        c.push('-');
        push_decimal(&mut c, (-(speaker_id as i64)) as u128);
    } else {
        push_decimal(&mut c, speaker_id as u128);
    }
    assert(c@ =~= before_sid + signed_decimal(speaker_id as int));
    let mut d = to_chars("--output-filename=");
    push_str(&mut d, output);
    let mut r: Vec<String> = Vec::new();
    r.push(from_chars(&a));
    r.push(from_chars(&b));
    r.push(from_chars(&c));
    r.push(from_chars(&d));
    r.push(string_of(text));
    assert(string_views(r@) =~= sherpa_args(
        model@,
        match tokens {
            Some(t) => Some(t@),
            None => None,
        },
        speaker_id as int,
        output@,
        text@,
    ));
    r
}

} // verus!
