pub mod ass;
pub mod extractor;
pub mod hwaccel;
pub mod pipeline;

use vstd::prelude::*;

use crate::platform::{exe_suffix_spec, TargetOs};
use crate::scanner::filter::separators;
use crate::text::{
    decimal, push_decimal, append_strings, char_in, from_chars, push_all, push_str, str_views, string_of, string_views, strings_of,
    to_chars, to_uppercase, trim, trimmed, unicode_uppercase,
};

verus! {

/// Where the FFmpeg tools live.
#[derive(Debug, Clone)]
pub struct FFmpegContext {
    pub ffmpeg_path: String,
    pub ffprobe_path: String,
}

/// The separator a system puts between path components.
pub open spec fn main_separator(os: TargetOs) -> char {
    match os {
        TargetOs::Windows => '\\',
        _ => '/',
    }
}

/// `name` appended to the directory `dir`, with a separator between them unless `dir` is
/// empty or already ends with one.
pub open spec fn join_path(dir: Seq<char>, name: Seq<char>, os: TargetOs) -> Seq<char> {
    if dir.len() == 0 {
        name
    } else if separators(os).contains(dir.last()) {
        dir + name
    } else {
        dir.push(main_separator(os)) + name
    }
}

/// Position of the last separator in `p`.
pub open spec fn last_separator(p: Seq<char>, os: TargetOs) -> Option<int>
    decreases p.len(),
{
    if p.len() == 0 {
        None
    } else if separators(os).contains(p.last()) {
        Some(p.len() - 1)
    } else {
        last_separator(p.drop_last(), os)
    }
}

/// The path of a file called `name` in the directory of the file at `p`.
pub open spec fn sibling_path(p: Seq<char>, name: Seq<char>, os: TargetOs) -> Seq<char> {
    match last_separator(p, os) {
        Some(k) => p.take(k + 1) + name,
        None => name,
    }
}

/// The file name of a program on a system.
pub open spec fn program_file_name(name: Seq<char>, os: TargetOs) -> Seq<char> {
    name + exe_suffix_spec(os)
}

/// The install locations tried after the search path.
pub open spec fn common_locations(name: Seq<char>, full: Seq<char>) -> Seq<Seq<char>> {
    seq![
        "/opt/homebrew/bin/"@ + name,
        "/usr/local/bin/"@ + name,
        "/usr/bin/"@ + name,
        "./bin/"@ + full,
        "C:\\ProgramData\\chocolatey\\bin\\"@ + full,
        "C:\\ffmpeg\\bin\\"@ + full,
        "C:\\Program Files\\ffmpeg\\bin\\"@ + full,
        "C:\\tools\\ffmpeg\\bin\\"@ + full,
    ]
}

/// The candidate files for program `name`, in the order they are tried: the value of its
/// environment variable (as given, then with the executable suffix), each search-path
/// directory joined with the program file name, then the common install locations.
pub open spec fn binary_search_order(name: Seq<char>, env_value: Option<Seq<char>>, dirs: Seq<Seq<char>>, os: TargetOs) -> Seq<Seq<char>> {
    let full = program_file_name(name, os);
    let from_env = match env_value {
        Some(v) => seq![v, v + exe_suffix_spec(os)],
        None => Seq::empty(),
    };
    from_env + dirs.map_values(|d: Seq<char>| join_path(d, full, os)) + common_locations(name, full)
}

/// The first line of a command's output (without a trailing carriage return), trimmed.
pub open spec fn first_output_line(out: Seq<char>) -> Option<Seq<char>> {
    if out.len() == 0 {
        None
    } else {
        let k = match first_index_of(out, '\n') {
            Some(k) => k,
            None => out.len() as int,
        };
        let line = out.take(k);
        Some(trim(if line.len() > 0 && line.last() == '\r' { line.drop_last() } else { line }))
    }
}

/// Position of the first occurrence of `c` in `s`.
pub open spec fn first_index_of(s: Seq<char>, c: char) -> Option<int>
    decreases s.len(),
{
    if s.len() == 0 {
        None
    } else if s[0] == c {
        Some(0)
    } else {
        match first_index_of(s.drop_first(), c) {
            Some(k) => Some(k + 1),
            None => None,
        }
    }
}

pub open spec fn no_ffmpeg_message() -> Seq<char> {
    "未在系统 PATH 或常见路径中检测到 ffmpeg 二进制程序"@
}

/// The arguments that make ffprobe print a file's duration in seconds.
pub open spec fn duration_probe_args_spec(video: Seq<char>) -> Seq<Seq<char>> {
    seq![
        "-v"@, "error"@, "-show_entries"@, "format=duration"@, "-of"@,
        "default=noprint_wrappers=1:nokey=1"@, video,
    ]
}

pub(crate) fn join_path_of(dir: &Vec<char>, name: &Vec<char>, os: TargetOs) -> (r: Vec<char>)
    ensures
        r@ == join_path(dir@, name@, os),
{
    let seps = separators_vec(os);
    let mut r: Vec<char> = Vec::new();
    push_all(&mut r, dir);
    if dir.len() > 0 && !char_in(dir[dir.len() - 1], &seps) {
        r.push(match os {
            TargetOs::Windows => '\\',
            _ => '/',
        });
    }
    push_all(&mut r, name);
    assert(dir@.len() > 0 ==> dir@.last() == dir@[dir@.len() - 1]);
    assert(r@ =~= join_path(dir@, name@, os));
    r
}

/// The path of the file `name` in the directory `dir`.
pub fn join_file(dir: &str, name: &str, os: TargetOs) -> (r: String)
    ensures
        r@ == join_path(dir@, name@, os),
{
    from_chars(&join_path_of(&to_chars(dir), &to_chars(name), os))
}

/// The path of the file named `prefix`, the decimal `id` and `ext`, in the directory `dir`.
pub open spec fn numbered_path(dir: Seq<char>, prefix: Seq<char>, id: nat, ext: Seq<char>, os: TargetOs) -> Seq<char> {
    join_path(dir, prefix + decimal(id) + ext, os)
}

/// The path of the file named `prefix`, the decimal `id` and `ext`, in the directory `dir`.
pub fn numbered_file(dir: &str, prefix: &str, id: usize, ext: &str, os: TargetOs) -> (r: String)
    ensures
        r@ == numbered_path(dir@, prefix@, id as nat, ext@, os),
{
    let mut name = to_chars(prefix);
    push_decimal(&mut name, id as u128);
    push_str(&mut name, ext);
    from_chars(&join_path_of(&to_chars(dir), &name, os))
}

/// The path of the file `name` in the directory of the file at `p`.
pub fn sibling_file(p: &str, name: &Vec<char>, os: TargetOs) -> (r: String)
    ensures
        r@ == sibling_path(p@, name@, os),
{
    let path = to_chars(p);
    let seps = separators_vec(os);
    let mut k: usize = path.len();
    assert(path@.take(k as int) =~= path@);
    while k > 0 && !char_in(path[k - 1], &seps)
        invariant
            k <= path.len(),
            seps@ == separators(os),
            last_separator(path@, os) == last_separator(path@.take(k as int), os),
        decreases k,
    {
        assert(path@.take(k as int).drop_last() =~= path@.take(k - 1));
        k = k - 1;
    }
    let mut r: Vec<char> = Vec::new();
    if k > 0 {
        assert(path@.take(k as int).last() == path@[k - 1]);
        let mut i: usize = 0;
        while i < k
            invariant
                i <= k <= path.len(),
                r@ == path@.take(i as int),
            decreases k - i,
        {
            r.push(path[i]);
            i = i + 1;
            assert(r@ =~= path@.take(i as int));
        }
    } else {
        assert(path@.take(0) =~= Seq::<char>::empty());
    }
    push_all(&mut r, name);
    assert(r@ =~= sibling_path(p@, name@, os));
    from_chars(&r)
}

fn separators_vec(os: TargetOs) -> (r: Vec<char>)
    ensures
        r@ == separators(os),
{
    let r = match os {
        TargetOs::Windows => vec!['/', '\\'],
        _ => vec!['/'],
    };
    assert(r@ =~= separators(os));
    r
}

impl FFmpegContext {
    /// The context for the tools that the binary search found: an error when no ffmpeg
    /// was found; ffprobe defaults to the file `ffprobe` (with the executable suffix) next
    /// to ffmpeg.
    pub fn discover(ffmpeg_found: Option<String>, ffprobe_found: Option<String>, os: TargetOs) -> (r: Result<Self, String>)
        ensures
            match ffmpeg_found {
                None => r matches Err(e) && e@ == no_ffmpeg_message(),
                Some(f) => r matches Ok(ctx) && {
                    &&& ctx.ffmpeg_path@ == f@
                    &&& ctx.ffprobe_path@ == match ffprobe_found {
                        Some(p) => p@,
                        None => sibling_path(f@, program_file_name("ffprobe"@, os), os),
                    }
                },
            },
    {
        let ffmpeg = match ffmpeg_found {
            Some(f) => f,
            None => {
                return Err(string_of("未在系统 PATH 或常见路径中检测到 ffmpeg 二进制程序"));
            },
        };
        let ffprobe = match ffprobe_found {
            Some(p) => p,
            None => {
                let mut probe_name = to_chars("ffprobe");
                push_str(&mut probe_name, os.exe_suffix());
                sibling_file(ffmpeg.as_str(), &probe_name, os)
            },
        };
        Ok(FFmpegContext { ffmpeg_path: ffmpeg, ffprobe_path: ffprobe })
    }

    /// The name of the environment variable that may point at program `name`.
    pub fn binary_env_var(name: &str) -> (r: String)
        ensures
            r@ == unicode_uppercase(name@) + "_PATH"@,
    {
        let upper = to_uppercase(name);
        let mut v = to_chars(upper.as_str());
        push_str(&mut v, "_PATH");
        from_chars(&v)
    }

    /// The files to try, in order, when looking for program `name`.
    pub fn binary_search_order(name: &str, env_value: Option<&str>, path_dirs: &Vec<String>, os: TargetOs) -> (r: Vec<String>)
        ensures
            string_views(r@) == binary_search_order(
                name@,
                match env_value {
                    Some(v) => Some(v@),
                    None => None,
                },
                string_views(path_dirs@),
                os,
            ),
    {
        let mut full = to_chars(name);
        push_str(&mut full, os.exe_suffix());
        let ghost fullv = program_file_name(name@, os);
        assert(full@ == fullv);
        let ghost dirs = string_views(path_dirs@);
        let mut r: Vec<String> = Vec::new();
        let ghost from_env: Seq<Seq<char>> = match env_value {
            Some(v) => seq![v@, v@ + exe_suffix_spec(os)],
            None => Seq::empty(),
        };
        match env_value {
            Some(v) => {
                r.push(string_of(v));
                let mut w = to_chars(v);
                push_str(&mut w, os.exe_suffix());
                r.push(from_chars(&w));
            },
            None => {},
        }
        assert(string_views(r@) =~= from_env);
        let mut i: usize = 0;
        while i < path_dirs.len()
            invariant
                i <= path_dirs.len(),
                full@ == fullv,
                dirs == string_views(path_dirs@),
                string_views(r@) == from_env + dirs.take(i as int).map_values(
                    |d: Seq<char>| join_path(d, fullv, os),
                ),
            decreases path_dirs.len() - i,
        {
            let d = to_chars(path_dirs[i].as_str());
            let j = join_path_of(&d, &full, os);
            let ghost before = string_views(r@);
            r.push(from_chars(&j));
            assert(dirs.take(i + 1) =~= dirs.take(i as int).push(dirs[i as int]));
            assert(string_views(r@) =~= before.push(j@));
            assert(string_views(r@) =~= from_env + dirs.take(i + 1).map_values(
                |d: Seq<char>| join_path(d, fullv, os),
            ));
            i = i + 1;
        }
        assert(dirs.take(i as int) =~= dirs);
        let mut tail: Vec<String> = Vec::new();
        let mut a = to_chars("/opt/homebrew/bin/");
        push_str(&mut a, name);
        tail.push(from_chars(&a));
        let mut b = to_chars("/usr/local/bin/");
        push_str(&mut b, name);
        tail.push(from_chars(&b));
        let mut c = to_chars("/usr/bin/");
        push_str(&mut c, name);
        tail.push(from_chars(&c));
        let mut d = to_chars("./bin/");
        push_all(&mut d, &full);
        tail.push(from_chars(&d));
        let mut e = to_chars("C:\\ProgramData\\chocolatey\\bin\\");
        push_all(&mut e, &full);
        tail.push(from_chars(&e));
        let mut f = to_chars("C:\\ffmpeg\\bin\\");
        push_all(&mut f, &full);
        tail.push(from_chars(&f));
        let mut g = to_chars("C:\\Program Files\\ffmpeg\\bin\\");
        push_all(&mut g, &full);
        tail.push(from_chars(&g));
        let mut h = to_chars("C:\\tools\\ffmpeg\\bin\\");
        push_all(&mut h, &full);
        tail.push(from_chars(&h));
        assert(string_views(tail@) =~= common_locations(name@, fullv));
        append_strings(&mut r, &tail);
        r
    }

    /// The command that locates a program on the search path as a last resort.
    pub fn locator_command(os: TargetOs) -> (r: &'static str)
        ensures
            r@ == (if os == TargetOs::Windows { "where"@ } else { "which"@ }),
    {
        if os == TargetOs::Windows {
            "where"
        } else {
            "which"
        }
    }

    /// The first line of the locator's output, trimmed.
    pub fn first_line_of(out: &str) -> (r: Option<String>)
        ensures
            match first_output_line(out@) {
                Some(l) => r matches Some(s) && s@ == l,
                None => r is None,
            },
    {
        let v = to_chars(out);
        if v.len() == 0 {
            return None;
        }
        let mut line: Vec<char> = Vec::new();
        let mut i: usize = 0;
        while i < v.len() && v[i] != '\n'
            invariant
                i <= v.len(),
                line@ == v@.take(i as int),
                forall|j: int| 0 <= j < i ==> v@[j] != '\n',
            decreases v.len() - i,
        {
            line.push(v[i]);
            i = i + 1;
            assert(line@ =~= v@.take(i as int));
        }
        proof {
            lemma_first_index_of(v@, '\n', i as int);
        }
        if line.len() > 0 && line[line.len() - 1] == '\r' {
            line.pop();
        }
        let t = trimmed(&line);
        Some(from_chars(&t))
    }

    /// ffprobe arguments that print the duration of `video`.
    pub fn duration_probe_args(video: &str) -> (r: Vec<String>)
        ensures
            string_views(r@) == duration_probe_args_spec(video@),
    {
        let v = vec![
            "-v",
            "error",
            "-show_entries",
            "format=duration",
            "-of",
            "default=noprint_wrappers=1:nokey=1",
            video,
        ];
        assert(str_views(v@) =~= duration_probe_args_spec(video@));
        strings_of(&v)
    }
}

proof fn lemma_first_index_of(s: Seq<char>, c: char, i: int)
    requires
        0 <= i <= s.len(),
        forall|j: int| 0 <= j < i ==> s[j] != c,
        i == s.len() || s[i] == c,
    ensures
        first_index_of(s, c) == (if i == s.len() { None } else { Some(i) }),
    decreases s.len(),
{
    if s.len() > 0 && i > 0 {
        lemma_first_index_of(s.drop_first(), c, i - 1);
    }
}

} // verus!
