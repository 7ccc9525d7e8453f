use vstd::prelude::*;

use crate::commands::updater::{digits_value, is_ascii_digit, lemma_digits_value_monotone};
use crate::script::persona::{persona_for_key, CommentaryPersona};
use crate::text::{
    eq_str, has_prefix, starts_with_str, str_views, string_of, string_views, strings_of, to_chars, trim,
    trimmed,
};
use crate::tts::bgm::{bgm_for_key, BgmType};

verus! {

/// The settings of one run of the command-line program.
#[derive(Debug, Clone)]
pub struct CliOptions {
    pub input_video: Option<String>,
    pub output_dir: String,
    pub topic: String,
    pub max_clips: usize,
    pub is_vertical: bool,
    pub persona: CommentaryPersona,
    pub bgm: BgmType,
    pub watch_dir: Option<String>,
    pub show_help: bool,
}

/// The settings as text and numbers.
pub struct CliModel {
    pub input_video: Option<Seq<char>>,
    pub output_dir: Seq<char>,
    pub topic: Seq<char>,
    pub max_clips: nat,
    pub is_vertical: bool,
    pub persona: CommentaryPersona,
    pub bgm: BgmType,
    pub watch_dir: Option<Seq<char>>,
    pub show_help: bool,
}

pub open spec fn opt_string_view(o: Option<String>) -> Option<Seq<char>> {
    match o {
        Some(s) => Some(s@),
        None => None,
    }
}

impl View for CliOptions {
    type V = CliModel;

    open spec fn view(&self) -> CliModel {
        CliModel {
            input_video: opt_string_view(self.input_video),
            output_dir: self.output_dir@,
            topic: self.topic@,
            max_clips: self.max_clips as nat,
            is_vertical: self.is_vertical,
            persona: self.persona,
            bgm: self.bgm,
            watch_dir: opt_string_view(self.watch_dir),
            show_help: self.show_help,
        }
    }
}

/// The number a text names as `usize::from_str` reads it: an optional `+`, then at least
/// one ASCII digit and nothing else, with a value that fits in a `usize`.
pub open spec fn usize_text_value(s: Seq<char>) -> Option<nat> {
    let d = unsigned_digits(s);
    if d.len() > 0 && all_digits(d) && digits_value(d) <= usize::MAX {
        Some(digits_value(d))
    } else {
        None
    }
}

/// The text without one leading `+`.
pub open spec fn unsigned_digits(s: Seq<char>) -> Seq<char> {
    if s.len() > 0 && s[0] == '+' {
        s.drop_first()
    } else {
        s
    }
}

pub open spec fn all_digits(d: Seq<char>) -> bool {
    forall|j: int| 0 <= j < d.len() ==> is_ascii_digit(#[trigger] d[j])
}

/// The settings before any argument: output to `./neuroclip_exports`, topic "高能对决",
/// three clips, vertical, esports style, trap beat, no input, no watch.
pub open spec fn default_cli() -> CliModel {
    CliModel {
        input_video: None,
        output_dir: "./neuroclip_exports"@,
        topic: "高能对决"@,
        max_clips: 3,
        is_vertical: true,
        persona: CommentaryPersona::HighEnergyEsports,
        bgm: BgmType::HypeTrap,
        watch_dir: None,
        show_help: false,
    }
}

/// The aspect a setting asks for: vertical for `9:16` or `vertical` (surrounding white
/// space ignored).
pub open spec fn vertical_aspect(a: Seq<char>) -> bool {
    trim(a) == "9:16"@ || trim(a) == "vertical"@
}

/// The settings after reading the arguments from position `i` on, starting from `o`. An
/// option that takes a value and has one consumes it; `-h`/`--help` ends the reading;
/// anything else is skipped.
pub open spec fn parse_from(args: Seq<Seq<char>>, i: int, o: CliModel) -> CliModel
    decreases args.len() - i,
{
    if i < 0 || i >= args.len() {
        o
    } else {
        let a = args[i];
        let has = i + 1 < args.len();
        if has && (a == "-i"@ || a == "--input"@) {
            parse_from(args, i + 2, CliModel { input_video: Some(args[i + 1]), ..o })
        } else if has && (a == "-o"@ || a == "--output-dir"@) {
            parse_from(args, i + 2, CliModel { output_dir: args[i + 1], ..o })
        } else if has && (a == "-t"@ || a == "--topic"@) {
            parse_from(args, i + 2, CliModel { topic: args[i + 1], ..o })
        } else if has && (a == "-n"@ || a == "--max-clips"@) {
            parse_from(
                args,
                i + 2,
                CliModel {
                    max_clips: match usize_text_value(args[i + 1]) {
                        Some(n) => n,
                        None => 3,
                    },
                    ..o
                },
            )
        } else if has && a == "--aspect"@ {
            parse_from(args, i + 2, CliModel { is_vertical: vertical_aspect(args[i + 1]), ..o })
        } else if has && a == "--persona"@ {
            parse_from(args, i + 2, CliModel { persona: persona_for_key(args[i + 1]), ..o })
        } else if has && a == "--bgm"@ {
            parse_from(args, i + 2, CliModel { bgm: bgm_for_key(args[i + 1]), ..o })
        } else if has && (a == "-w"@ || a == "--watch"@) {
            parse_from(args, i + 2, CliModel { watch_dir: Some(args[i + 1]), ..o })
        } else if a == "-h"@ || a == "--help"@ {
            CliModel { show_help: true, ..o }
        } else {
            parse_from(args, i + 1, o)
        }
    }
}

/// The settings a command line gives; the first argument is the program name.
pub open spec fn parse_command_line(args: Seq<Seq<char>>) -> CliModel {
    parse_from(args, 1, default_cli())
}

/// The number the text `s` names, as `usize::from_str` reads it.
pub fn parse_usize(s: &str) -> (r: Option<usize>)
    ensures
        match r {
            Some(n) => usize_text_value(s@) == Some(n as nat),
            None => usize_text_value(s@) is None,
        },
{
    let v = to_chars(s);
    let start: usize = if v.len() > 0 && v[0] == '+' {
        1
    } else {
        0
    };
    let ghost d = unsigned_digits(s@);
    assert(d =~= v@.skip(start as int));
    if start >= v.len() {
        return None;
    }
    let mut acc: usize = 0;
    let mut i: usize = start;
    assert(d.take(0) =~= Seq::<char>::empty());
    while i < v.len()
        invariant
            start <= i <= v.len(),
            d =~= v@.skip(start as int),
            d == unsigned_digits(s@),
            forall|j: int| 0 <= j < i - start ==> is_ascii_digit(#[trigger] d[j]),
            acc == digits_value(d.take(i - start)),
        decreases v.len() - i,
    {
        let c = v[i];
        assert(d[i - start] == c);
        let u = c as u32;
        if !(48 <= u && u <= 57) {
            assert(!is_ascii_digit(d[i - start]));
            assert(!all_digits(d));
            assert(usize_text_value(s@) is None);
            return None;
        }
        let digit: usize = (u - 48) as usize;
        assert(d.take(i - start + 1).drop_last() =~= d.take(i - start));
        assert(d[i - start] == c);
        assert(digits_value(d.take(i - start + 1)) == digits_value(d.take(i - start)) * 10 + digit);
        if acc > (usize::MAX - digit) / 10 {
            assert(acc * 10 + digit > usize::MAX) by (nonlinear_arith)
                requires
                    acc > (usize::MAX - digit) / 10,
                    digit < 10,
            ;
            proof {
                lemma_digits_value_monotone(d, i - start + 1, d.len() as int);
                assert(d.take(d.len() as int) =~= d);
                assert(digits_value(d) > usize::MAX);
            }
            assert(usize_text_value(s@) is None);
            return None;
        }
        assert(acc * 10 + digit <= usize::MAX) by (nonlinear_arith)
            requires
                acc <= (usize::MAX - digit) / 10,
                digit < 10,
        ;
        acc = acc * 10 + digit;
        i = i + 1;
    }
    assert(d.take(i - start) =~= d);
    Some(acc)
}

fn arg_is(a: &Vec<char>, short: &str, long: &str) -> (r: bool)
    ensures
        r == (a@ == short@ || a@ == long@),
{
    eq_str(a, short) || eq_str(a, long)
}

impl CliOptions {
    /// The settings the command line `args` gives; the first argument is the program name.
    pub fn parse(args: &Vec<String>) -> (r: CliOptions)
        ensures
            r@ == parse_command_line(args@.map_values(|s: String| s@)),
    {
        let ghost av = args@.map_values(|s: String| s@);
        let mut o = CliOptions {
            input_video: None,
            output_dir: string_of("./neuroclip_exports"),
            topic: string_of("高能对决"),
            max_clips: 3,
            is_vertical: true,
            persona: CommentaryPersona::HighEnergyEsports,
            bgm: BgmType::HypeTrap,
            watch_dir: None,
            show_help: false,
        };
        assert(o@ == default_cli());
        let mut i: usize = 1;
        while i < args.len()
            invariant
                1 <= i,
                av == args@.map_values(|s: String| s@),
                parse_command_line(av) == parse_from(av, i as int, o@),
            decreases args.len() - i,
        {
            let a = to_chars(args[i].as_str());
            assert(av[i as int] == a@);
            let has = i + 1 < args.len();
            if has {
                assert(av[i + 1] == args@[i + 1]@);
            }
            if has && arg_is(&a, "-i", "--input") {
                o.input_video = Some(args[i + 1].clone());
                i = i + 2;
            } else if has && arg_is(&a, "-o", "--output-dir") {
                o.output_dir = args[i + 1].clone();
                i = i + 2;
            } else if has && arg_is(&a, "-t", "--topic") {
                o.topic = args[i + 1].clone();
                i = i + 2;
            } else if has && arg_is(&a, "-n", "--max-clips") {
                o.max_clips = match parse_usize(args[i + 1].as_str()) {
                    Some(n) => n,
                    None => 3,
                };
                i = i + 2;
            } else if has && eq_str(&a, "--aspect") {
                let asp = trimmed(&to_chars(args[i + 1].as_str()));
                o.is_vertical = eq_str(&asp, "9:16") || eq_str(&asp, "vertical");
                i = i + 2;
            } else if has && eq_str(&a, "--persona") {
                o.persona = CommentaryPersona::from_key(Some(args[i + 1].as_str()));
                i = i + 2;
            } else if has && eq_str(&a, "--bgm") {
                o.bgm = BgmType::from_key(Some(args[i + 1].as_str()));
                i = i + 2;
            } else if has && arg_is(&a, "-w", "--watch") {
                o.watch_dir = Some(args[i + 1].clone());
                i = i + 2;
            } else if arg_is(&a, "-h", "--help") {
                o.show_help = true;
                return o;
            } else {
                i = i + 1;
            }
        }
        o
    }
}


/// Where the video to clip comes from.
#[derive(Debug, Clone, Copy, PartialEq, Eq, Structural)]
pub enum InputSource {
    /// Downloaded from the `http://` or `https://` address given.
    Download,
    /// The existing local file given.
    LocalFile,
    /// A test video made with FFmpeg, when no usable input was given.
    Synthetic,
}

pub open spec fn input_source_of(input: Option<Seq<char>>, exists: bool) -> InputSource {
    match input {
        Some(i) => if has_prefix(i, "http://"@) || has_prefix(i, "https://"@) {
            InputSource::Download
        } else if exists {
            InputSource::LocalFile
        } else {
            InputSource::Synthetic
        },
        None => InputSource::Synthetic,
    }
}

/// How the input `input` is obtained; `exists` tells whether it names an existing file.
pub fn input_source(input: Option<&str>, exists: bool) -> (r: InputSource)
    ensures
        r == input_source_of(
            match input {
                Some(i) => Some(i@),
                None => None,
            },
            exists,
        ),
{
    match input {
        Some(i) => {
            let v = to_chars(i);
            if starts_with_str(&v, "http://") || starts_with_str(&v, "https://") {
                InputSource::Download
            } else if exists {
                InputSource::LocalFile
            } else {
                InputSource::Synthetic
            }
        },
        None => InputSource::Synthetic,
    }
}


pub open spec fn synthetic_video_args_spec(output: Seq<char>) -> Seq<Seq<char>> {
    seq![
        "-y"@, "-f"@, "lavfi"@, "-i"@, "testsrc=size=1280x720:rate=30"@, "-f"@, "lavfi"@, "-i"@,
        "sine=frequency=440:beep_factor=4:sample_rate=16000"@, "-t"@, "60"@, "-c:v"@, "libx264"@,
        "-pix_fmt"@, "yuv420p"@, "-c:a"@, "aac"@, output,
    ]
}

/// FFmpeg arguments that make a 60-second 1280x720 test video with a beeping tone.
pub fn synthetic_video_args(output: &str) -> (r: Vec<String>)
    ensures
        r@.map_values(|a: String| a@) == synthetic_video_args_spec(output@),
{
    let v: Vec<&str> = vec![
        "-y", "-f", "lavfi", "-i", "testsrc=size=1280x720:rate=30", "-f", "lavfi", "-i",
        "sine=frequency=440:beep_factor=4:sample_rate=16000", "-t", "60", "-c:v", "libx264",
        "-pix_fmt", "yuv420p", "-c:a", "aac", output,
    ];
    assert(str_views(v@) =~= synthetic_video_args_spec(output@));
    let r = strings_of(&v);
    assert(r@.map_values(|a: String| a@) =~= string_views(r@));
    r
}

} // verus!
