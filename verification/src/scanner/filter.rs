use vstd::prelude::*;
use vstd::utf8::{decode_utf8, valid_utf8};

use crate::platform::TargetOs;
use crate::text::{
    contains_str, ends_with_str, eq_str, has_prefix, has_substr, has_suffix,
    lowercase_chars, split_by, split_chars, starts_with_str, to_chars, unicode_lowercase, views,
};

verus! {

/// Decides which directories a library scan skips and which files it takes for videos.
pub struct ScanFilter;

// ---------------------------------------------------------------------------
// Path pieces
// ---------------------------------------------------------------------------

/// The path text with every backslash turned into a slash.
pub open spec fn forward_slashes(p: Seq<char>) -> Seq<char> {
    p.map_values(|c: char| if c == '\\' { '/' } else { c })
}

/// The last piece that is not empty (and, with `skip_dot`, not `.`).
pub open spec fn last_piece(pieces: Seq<Seq<char>>, skip_dot: bool) -> Option<Seq<char>>
    decreases pieces.len(),
{
    if pieces.len() == 0 {
        None
    } else if pieces.last().len() > 0 && !(skip_dot && pieces.last() == "."@) {
        Some(pieces.last())
    } else {
        last_piece(pieces.drop_last(), skip_dot)
    }
}

/// The name of the directory a path denotes: its last non-empty `/`-separated piece once
/// backslashes are read as slashes (empty when there is none).
pub open spec fn directory_name(p: Seq<char>) -> Seq<char> {
    match last_piece(split_by(forward_slashes(p), seq!['/']), false) {
        Some(n) => n,
        None => Seq::empty(),
    }
}

/// Path separators on a system.
pub open spec fn separators(os: TargetOs) -> Seq<char> {
    match os {
        TargetOs::Windows => seq!['/', '\\'],
        _ => seq!['/'],
    }
}

/// Whether a Windows path opens with a drive prefix: an ASCII letter and a colon.
pub open spec fn has_drive_prefix(p: Seq<char>, os: TargetOs) -> bool {
    &&& os == TargetOs::Windows
    &&& p.len() >= 2
    &&& p[1] == ':'
    &&& (('A' <= p[0] && p[0] <= 'Z') || ('a' <= p[0] && p[0] <= 'z'))
}

/// The path without its drive prefix, which is no component of it.
pub open spec fn path_body(p: Seq<char>, os: TargetOs) -> Seq<char> {
    if has_drive_prefix(p, os) {
        p.skip(2)
    } else {
        p
    }
}

/// The final component of a path: after any drive prefix, its last piece that is neither
/// empty nor `.`, unless that piece is `..` (then there is none).
pub open spec fn file_name(p: Seq<char>, os: TargetOs) -> Option<Seq<char>> {
    match last_piece(split_by(path_body(p, os), separators(os)), true) {
        Some(n) => if n == ".."@ { None } else { Some(n) },
        None => None,
    }
}

/// Position of the last occurrence of `c` in `s`.
pub open spec fn last_index_of(s: Seq<char>, c: char) -> Option<int>
    decreases s.len(),
{
    if s.len() == 0 {
        None
    } else if s.last() == c {
        Some(s.len() - 1)
    } else {
        last_index_of(s.drop_last(), c)
    }
}

/// The extension of a file name: what follows its last dot, when that dot is not its
/// first character.
pub open spec fn extension(name: Seq<char>) -> Option<Seq<char>> {
    match last_index_of(name, '.') {
        Some(k) => if k == 0 { None } else { Some(name.skip(k + 1)) },
        None => None,
    }
}

// ---------------------------------------------------------------------------
// Directory pruning
// ---------------------------------------------------------------------------

/// Repository, build output, package manager and tool cache directory names.
pub open spec fn is_dev_directory_name(n: Seq<char>) -> bool {
    ||| n == ".git"@ ||| n == ".svn"@ ||| n == ".hg"@ ||| n == "node_modules"@
    ||| n == "target"@ ||| n == "dist"@ ||| n == "build"@ ||| n == "out"@ ||| n == "bin"@
    ||| n == "obj"@ ||| n == ".venv"@ ||| n == "venv"@ ||| n == "env"@ ||| n == "__pycache__"@
    ||| n == "vendor"@ ||| n == "bower_components"@ ||| n == ".idea"@ ||| n == ".vscode"@
    ||| n == ".fleet"@ ||| n == ".next"@ ||| n == ".nuxt"@ ||| n == ".turbo"@
    ||| n == ".svelte-kit"@ ||| n == ".output"@ ||| n == ".cargo"@ ||| n == ".rustup"@
    ||| n == ".gradle"@ ||| n == ".m2"@ ||| n == ".pnpm-store"@ ||| n == ".yarn"@
    ||| n == "coverage"@
}

/// Trash and indexing directory names of the operating systems.
pub open spec fn is_system_directory_name(n: Seq<char>) -> bool {
    ||| n == "$Recycle.Bin"@ ||| n == "System Volume Information"@ ||| n == ".Trash"@
    ||| n == ".Spotlight-V100"@ ||| n == ".fseventsd"@
}

/// Whether a scan skips the whole directory tree at `p`.
pub open spec fn directory_blacklisted(p: Seq<char>) -> bool {
    let normalized = forward_slashes(p);
    let name = directory_name(p);
    ||| is_dev_directory_name(name)
    ||| is_system_directory_name(name)
    ||| has_substr(normalized, "System Volume Information"@)
    ||| has_substr(normalized, "$Recycle.Bin"@)
    ||| has_substr(p, "/Library/Caches"@)
    ||| has_substr(p, "/Library/Application Support"@)
    ||| has_prefix(p, "/private/var"@)
    ||| has_prefix(p, "/System"@)
    ||| has_prefix(p, "/dev"@)
    ||| has_prefix(p, "/proc"@)
    ||| has_substr(p, "\\AppData\\Local\\Temp"@)
    ||| has_substr(p, "\\AppData\\Local\\Packages"@)
    ||| (has_prefix(name, "."@) && name != "."@ && name != ".."@)
}

// ---------------------------------------------------------------------------
// Video formats
// ---------------------------------------------------------------------------

/// How a file's extension classifies it.
#[derive(Debug, Clone, Copy, PartialEq, Eq, Structural)]
pub enum ExtensionClass {
    /// An unambiguous video container.
    Video,
    /// A transport-stream extension, shared with TypeScript sources.
    TransportStream,
    /// Anything else.
    Other,
}

pub open spec fn extension_class_of(ext: Seq<char>) -> ExtensionClass {
    if ext == "mp4"@ || ext == "mkv"@ || ext == "mov"@ || ext == "avi"@ || ext == "flv"@
        || ext == "webm"@ || ext == "wmv"@ || ext == "m4v"@ {
        ExtensionClass::Video
    } else if ext == "ts"@ || ext == "m2ts"@ || ext == "mts"@ {
        ExtensionClass::TransportStream
    } else {
        ExtensionClass::Other
    }
}

/// The class of a path: by its lower-cased extension; no extension is `Other`.
pub open spec fn path_class(p: Seq<char>, os: TargetOs) -> ExtensionClass {
    match file_name(p, os) {
        Some(n) => match extension(n) {
            Some(e) => extension_class_of(unicode_lowercase(e)),
            None => ExtensionClass::Other,
        },
        None => ExtensionClass::Other,
    }
}

/// What reading a file gave: its size and the bytes one read of up to 564 bytes returned.
#[derive(Debug, Clone)]
pub struct FileSample {
    pub size: u64,
    pub head: Vec<u8>,
}

/// A sample holds at most the 564 bytes of one read.
pub open spec fn sample_fits(sample: Option<FileSample>) -> bool {
    match sample {
        Some(s) => s.head@.len() <= 564,
        None => true,
    }
}

/// File names of TypeScript declarations and typical source modules.
pub open spec fn is_source_file_name(lower: Seq<char>) -> bool {
    ||| has_prefix(lower, "."@)
    ||| has_suffix(lower, ".d.ts"@) ||| has_suffix(lower, ".test.ts"@)
    ||| has_suffix(lower, ".spec.ts"@) ||| has_suffix(lower, ".config.ts"@)
    ||| has_suffix(lower, ".routes.ts"@) ||| has_suffix(lower, ".router.ts"@)
    ||| has_suffix(lower, ".service.ts"@) ||| has_suffix(lower, ".controller.ts"@)
    ||| has_suffix(lower, ".module.ts"@) ||| has_suffix(lower, ".component.ts"@)
    ||| has_suffix(lower, ".types.ts"@) ||| has_suffix(lower, ".model.ts"@)
}

/// Fragments that only source code text would contain.
pub open spec fn has_code_fragment(lower: Seq<char>) -> bool {
    ||| has_substr(lower, "import "@) ||| has_substr(lower, "export "@)
    ||| has_substr(lower, "const "@) ||| has_substr(lower, "function "@)
    ||| has_substr(lower, "interface "@) ||| has_substr(lower, "class "@)
    ||| has_substr(lower, "type "@) ||| has_substr(lower, "let "@)
    ||| has_substr(lower, "var "@) ||| has_substr(lower, "enum "@)
    ||| has_substr(lower, "declare "@) ||| has_substr(lower, "//"@)
    ||| has_substr(lower, "/*"@) ||| has_substr(lower, "from \""@)
    ||| has_substr(lower, "from '"@) ||| has_substr(lower, "<div"@)
    ||| has_substr(lower, "return "@)
}

/// The first (up to) 256 bytes are UTF-8 text that reads like source code.
pub open spec fn looks_like_source(head: Seq<u8>) -> bool {
    let sample = head.take(if head.len() < 256 { head.len() as int } else { 256 });
    valid_utf8(sample) && has_code_fragment(unicode_lowercase(decode_utf8(sample)))
}

/// MPEG transport stream sync bytes (0x47) at the packet strides of 188, 192 or 204 bytes.
pub open spec fn has_sync_pattern(head: Seq<u8>) -> bool {
    let n = head.len();
    ||| n >= 188 && head[0] == 0x47 && (n < 376 || (head[188] == 0x47 && (n < 564 || head[376]
        == 0x47)))
    ||| n >= 384 && head[0] == 0x47 && head[192] == 0x47
    ||| n >= 388 && head[4] == 0x47 && head[196] == 0x47
    ||| n >= 408 && head[0] == 0x47 && head[204] == 0x47
}

/// Whether a file with a transport-stream extension is a real transport stream: its name
/// is not a source-module name, it could be read, it holds at least 188 bytes, its first
/// read returned at least 188 bytes that do not read like source text, and they carry the
/// sync pattern.
pub open spec fn mpeg_ts_verdict(p: Seq<char>, os: TargetOs, sample: Option<FileSample>) -> bool {
    match file_name(p, os) {
        None => false,
        Some(n) => {
            &&& !is_source_file_name(unicode_lowercase(n))
            &&& sample matches Some(s)
            &&& s.size >= 188
            &&& s.head@.len() >= 188
            &&& !looks_like_source(s.head@)
            &&& has_sync_pattern(s.head@)
        },
    }
}

/// Whether a scan takes the file at `p` for a video.
pub open spec fn supported_video(p: Seq<char>, os: TargetOs, sample: Option<FileSample>) -> bool {
    match path_class(p, os) {
        ExtensionClass::Video => true,
        ExtensionClass::TransportStream => mpeg_ts_verdict(p, os, sample),
        ExtensionClass::Other => false,
    }
}

/// `std::str::from_utf8` of std, as an owned string.
#[verifier::external_body]
pub(crate) fn utf8_text(bytes: &[u8]) -> (r: Option<String>)
    ensures
        r is Some <==> valid_utf8(bytes@),
        r matches Some(s) ==> s@ == decode_utf8(bytes@),
{
    std::str::from_utf8(bytes).ok().map(|s| s.to_string())
}

fn last_piece_of(pieces: &Vec<Vec<char>>, skip_dot: bool) -> (r: Option<Vec<char>>)
    ensures
        last_piece(views(pieces@), skip_dot) == (match r {
            Some(v) => Some(v@),
            None => None,
        }),
{
    let ghost pv = views(pieces@);
    let mut i: usize = pieces.len();
    assert(pv.take(i as int) =~= pv);
    while i > 0
        invariant
            i <= pieces.len(),
            pv == views(pieces@),
            last_piece(pv, skip_dot) == last_piece(pv.take(i as int), skip_dot),
        decreases i,
    {
        let piece = &pieces[i - 1];
        assert(pv.take(i as int).last() == piece@);
        assert(pv.take(i as int).drop_last() =~= pv.take(i - 1));
        if piece.len() > 0 && !(skip_dot && eq_str(piece, ".")) {
            return Some(piece.clone());
        }
        i = i - 1;
    }
    None
}

fn forward_slashed(p: &Vec<char>) -> (r: Vec<char>)
    ensures
        r@ == forward_slashes(p@),
{
    let mut r: Vec<char> = Vec::new();
    let mut i: usize = 0;
    while i < p.len()
        invariant
            i <= p.len(),
            r@ == forward_slashes(p@.take(i as int)),
        decreases p.len() - i,
    {
        let c = p[i];
        r.push(if c == '\\' { '/' } else { c });
        i = i + 1;
        assert(r@ =~= forward_slashes(p@.take(i as int)));
    }
    assert(p@.take(i as int) =~= p@);
    r
}

fn directory_name_of(p: &Vec<char>) -> (r: Vec<char>)
    ensures
        r@ == directory_name(p@),
{
    let normalized = forward_slashed(p);
    let slash = vec!['/'];
    assert(slash@ =~= seq!['/']);
    let pieces = split_chars(&normalized, &slash);
    match last_piece_of(&pieces, false) {
        Some(n) => n,
        None => Vec::new(),
    }
}

fn separators_of(os: TargetOs) -> (r: Vec<char>)
    ensures
        r@ == separators(os),
{
    let r = match os {
        TargetOs::Windows => vec!['/', '\\'],
        _ => vec!['/'],
    };
    assert(r@ =~= separators(os));
    r
}

/// The final component of the path `p`.
pub fn file_name_of(p: &Vec<char>, os: TargetOs) -> (r: Option<Vec<char>>)
    ensures
        file_name(p@, os) == (match r {
            Some(v) => Some(v@),
            None => None,
        }),
{
    let seps = separators_of(os);
    let prefixed = os == TargetOs::Windows && p.len() >= 2 && p[1] == ':'
        && (('A' <= p[0] && p[0] <= 'Z') || ('a' <= p[0] && p[0] <= 'z'));
    let mut body: Vec<char> = Vec::new();
    let lo: usize = if prefixed { 2 } else { 0 };
    let mut i: usize = lo;
    assert(path_body(p@, os) == p@.skip(lo as int));
    while i < p.len()
        invariant
            lo <= i <= p.len(),
            body@ == p@.subrange(lo as int, i as int),
        decreases p.len() - i,
    {
        body.push(p[i]);
        i = i + 1;
        assert(body@ =~= p@.subrange(lo as int, i as int));
    }
    assert(body@ =~= path_body(p@, os));
    let pieces = split_chars(&body, &seps);
    match last_piece_of(&pieces, true) {
        Some(n) => if eq_str(&n, "..") { None } else { Some(n) },
        None => None,
    }
}

/// The extension of the file name `name`.
pub fn extension_of(name: &Vec<char>) -> (r: Option<Vec<char>>)
    ensures
        extension(name@) == (match r {
            Some(v) => Some(v@),
            None => None,
        }),
{
    let mut i: usize = name.len();
    assert(name@.take(i as int) =~= name@);
    while i > 0 && name[i - 1] != '.'
        invariant
            i <= name.len(),
            last_index_of(name@, '.') == last_index_of(name@.take(i as int), '.'),
        decreases i,
    {
        assert(name@.take(i as int).drop_last() =~= name@.take(i - 1));
        i = i - 1;
    }
    if i == 0 {
        assert(name@.take(0) =~= Seq::<char>::empty());
        return None;
    }
    assert(name@.take(i as int).last() == '.');
    if i == 1 {
        return None;
    }
    let mut r: Vec<char> = Vec::new();
    let mut k: usize = i;
    while k < name.len()
        invariant
            i <= k <= name.len(),
            r@ == name@.subrange(i as int, k as int),
        decreases name.len() - k,
    {
        r.push(name[k]);
        k = k + 1;
        assert(r@ =~= name@.subrange(i as int, k as int));
    }
    assert(r@ =~= name@.skip(i as int));
    Some(r)
}

fn is_dev_directory(n: &Vec<char>) -> (r: bool)
    ensures
        r == is_dev_directory_name(n@),
{
    eq_str(n, ".git") || eq_str(n, ".svn") || eq_str(n, ".hg") || eq_str(n, "node_modules")
        || eq_str(n, "target") || eq_str(n, "dist") || eq_str(n, "build") || eq_str(n, "out")
        || eq_str(n, "bin") || eq_str(n, "obj") || eq_str(n, ".venv") || eq_str(n, "venv")
        || eq_str(n, "env") || eq_str(n, "__pycache__") || eq_str(n, "vendor") || eq_str(
        n,
        "bower_components",
    ) || eq_str(n, ".idea") || eq_str(n, ".vscode") || eq_str(n, ".fleet") || eq_str(n, ".next")
        || eq_str(n, ".nuxt") || eq_str(n, ".turbo") || eq_str(n, ".svelte-kit") || eq_str(
        n,
        ".output",
    ) || eq_str(n, ".cargo") || eq_str(n, ".rustup") || eq_str(n, ".gradle") || eq_str(n, ".m2")
        || eq_str(n, ".pnpm-store") || eq_str(n, ".yarn") || eq_str(n, "coverage")
}

fn is_system_directory(n: &Vec<char>) -> (r: bool)
    ensures
        r == is_system_directory_name(n@),
{
    eq_str(n, "$Recycle.Bin") || eq_str(n, "System Volume Information") || eq_str(n, ".Trash")
        || eq_str(n, ".Spotlight-V100") || eq_str(n, ".fseventsd")
}

fn is_source_name(lower: &Vec<char>) -> (r: bool)
    ensures
        r == is_source_file_name(lower@),
{
    starts_with_str(lower, ".") || ends_with_str(lower, ".d.ts") || ends_with_str(lower, ".test.ts")
        || ends_with_str(lower, ".spec.ts") || ends_with_str(lower, ".config.ts") || ends_with_str(
        lower,
        ".routes.ts",
    ) || ends_with_str(lower, ".router.ts") || ends_with_str(lower, ".service.ts")
        || ends_with_str(lower, ".controller.ts") || ends_with_str(lower, ".module.ts")
        || ends_with_str(lower, ".component.ts") || ends_with_str(lower, ".types.ts")
        || ends_with_str(lower, ".model.ts")
}

fn code_fragment(lower: &Vec<char>) -> (r: bool)
    ensures
        r == has_code_fragment(lower@),
{
    contains_str(lower, "import ") || contains_str(lower, "export ") || contains_str(lower, "const ")
        || contains_str(lower, "function ") || contains_str(lower, "interface ") || contains_str(
        lower,
        "class ",
    ) || contains_str(lower, "type ") || contains_str(lower, "let ") || contains_str(lower, "var ")
        || contains_str(lower, "enum ") || contains_str(lower, "declare ") || contains_str(
        lower,
        "//",
    ) || contains_str(lower, "/*") || contains_str(lower, "from \"") || contains_str(
        lower,
        "from '",
    ) || contains_str(lower, "<div") || contains_str(lower, "return ")
}

fn source_like(head: &Vec<u8>) -> (r: bool)
    ensures
        r == looks_like_source(head@),
{
    let n: usize = if head.len() < 256 { head.len() } else { 256 };
    let mut sample: Vec<u8> = Vec::new();
    let mut i: usize = 0;
    while i < n
        invariant
            i <= n,
            n <= head.len(),
            sample@ == head@.take(i as int),
        decreases n - i,
    {
        sample.push(head[i]);
        i = i + 1;
        assert(sample@ =~= head@.take(i as int));
    }
    match utf8_text(sample.as_slice()) {
        Some(text) => {
            let chars = to_chars(text.as_str());
            let lower = lowercase_chars(&chars);
            code_fragment(&lower)
        },
        None => false,
    }
}

fn sync_pattern(head: &Vec<u8>) -> (r: bool)
    ensures
        r == has_sync_pattern(head@),
{
    let n = head.len();
    if n >= 188 && head[0] == 0x47 {
        if n >= 376 {
            if head[188] == 0x47 && (n < 564 || head[376] == 0x47) {
                return true;
            }
        } else {
            return true;
        }
    }
    if n >= 384 {
        if head[0] == 0x47 && head[192] == 0x47 {
            return true;
        }
        if n >= 388 && head[4] == 0x47 && head[196] == 0x47 {
            return true;
        }
    }
    n >= 408 && head[0] == 0x47 && head[204] == 0x47
}

impl ScanFilter {
    /// Whether the directory at `path` belongs to the pruning blacklist: development and
    /// build directories, system trash and index directories, macOS and Windows system
    /// locations, and hidden directories.
    pub fn is_blacklisted_directory(path: &str) -> (r: bool)
        ensures
            r == directory_blacklisted(path@),
    {
        let full = to_chars(path);
        let normalized = forward_slashed(&full);
        let name = directory_name_of(&full);
        is_dev_directory(&name) || is_system_directory(&name) || contains_str(
            &normalized,
            "System Volume Information",
        ) || contains_str(&normalized, "$Recycle.Bin") || contains_str(&full, "/Library/Caches")
            || contains_str(&full, "/Library/Application Support") || starts_with_str(
            &full,
            "/private/var",
        ) || starts_with_str(&full, "/System") || starts_with_str(&full, "/dev") || starts_with_str(
            &full,
            "/proc",
        ) || contains_str(&full, "\\AppData\\Local\\Temp") || contains_str(
            &full,
            "\\AppData\\Local\\Packages",
        ) || (starts_with_str(&name, ".") && !eq_str(&name, ".") && !eq_str(&name, ".."))
    }

    /// The class of the file at `path` by its lower-cased extension.
    pub fn extension_class(path: &str, os: TargetOs) -> (r: ExtensionClass)
        ensures
            r == path_class(path@, os),
    {
        let p = to_chars(path);
        let name = match file_name_of(&p, os) {
            Some(n) => n,
            None => {
                return ExtensionClass::Other;
            },
        };
        let ext = match extension_of(&name) {
            Some(e) => e,
            None => {
                return ExtensionClass::Other;
            },
        };
        let e = lowercase_chars(&ext);
        if eq_str(&e, "mp4") || eq_str(&e, "mkv") || eq_str(&e, "mov") || eq_str(&e, "avi")
            || eq_str(&e, "flv") || eq_str(&e, "webm") || eq_str(&e, "wmv") || eq_str(&e, "m4v") {
            ExtensionClass::Video
        } else if eq_str(&e, "ts") || eq_str(&e, "m2ts") || eq_str(&e, "mts") {
            ExtensionClass::TransportStream
        } else {
            ExtensionClass::Other
        }
    }

    /// Whether the file at `path` is a real MPEG transport stream rather than a TypeScript
    /// source; `sample` is what reading the file gave, `None` when it could not be read.
    pub fn is_valid_mpeg_ts(path: &str, os: TargetOs, sample: Option<&FileSample>) -> (r: bool)
        requires
            sample matches Some(s) ==> s.head@.len() <= 564,
        ensures
            r == mpeg_ts_verdict(
                path@,
                os,
                match sample {
                    Some(s) => Some(*s),
                    None => None,
                },
            ),
    {
        let p = to_chars(path);
        let name = match file_name_of(&p, os) {
            Some(n) => n,
            None => {
                return false;
            },
        };
        let lower = lowercase_chars(&name);
        if is_source_name(&lower) {
            return false;
        }
        match sample {
            None => false,
            Some(s) => {
                if s.size < 188 {
                    return false;
                }
                if s.head.len() < 188 {
                    return false;
                }
                if source_like(&s.head) {
                    return false;
                }
                sync_pattern(&s.head)
            },
        }
    }

    /// Whether the file at `path` is a supported video: an unambiguous video extension,
    /// or a transport-stream extension whose content passes `is_valid_mpeg_ts`.
    pub fn is_supported_video_format(path: &str, os: TargetOs, sample: Option<&FileSample>) -> (r: bool)
        requires
            sample matches Some(s) ==> s.head@.len() <= 564,
        ensures
            r == supported_video(
                path@,
                os,
                match sample {
                    Some(s) => Some(*s),
                    None => None,
                },
            ),
    {
        match Self::extension_class(path, os) {
            ExtensionClass::Video => true,
            ExtensionClass::TransportStream => Self::is_valid_mpeg_ts(path, os, sample),
            ExtensionClass::Other => false,
        }
    }
}

/// The lower-cased extension of the file name of `p`, when it has one.
pub open spec fn lower_extension(p: Seq<char>, os: TargetOs) -> Option<Seq<char>> {
    match file_name(p, os) {
        Some(n) => match extension(n) {
            Some(e) => Some(unicode_lowercase(e)),
            None => None,
        },
        None => None,
    }
}

/// A file whose extension is, in any case, mp4, mkv, mov, avi, flv, webm, wmv or m4v is a
/// supported video, whatever its content.
pub proof fn law_video_extensions_are_supported(p: Seq<char>, os: TargetOs, sample: Option<FileSample>)
    requires
        lower_extension(p, os) matches Some(e) && (e == "mp4"@ || e == "mkv"@ || e == "mov"@
            || e == "avi"@ || e == "flv"@ || e == "webm"@ || e == "wmv"@ || e == "m4v"@),
    ensures
        supported_video(p, os, sample),
{
}

/// A file whose extension is, in any case, ts, m2ts or mts is a supported video exactly
/// when its content passes the transport-stream check.
pub proof fn law_transport_extensions_need_content_check(p: Seq<char>, os: TargetOs, sample: Option<FileSample>)
    requires
        lower_extension(p, os) matches Some(e) && (e == "ts"@ || e == "m2ts"@ || e == "mts"@),
    ensures
        supported_video(p, os, sample) == mpeg_ts_verdict(p, os, sample),
{
    reveal_strlit("ts");
    reveal_strlit("m2ts");
    reveal_strlit("mts");
    reveal_strlit("mp4");
    reveal_strlit("mkv");
    reveal_strlit("mov");
    reveal_strlit("avi");
    reveal_strlit("flv");
    reveal_strlit("webm");
    reveal_strlit("wmv");
    reveal_strlit("m4v");
    let e = lower_extension(p, os)->Some_0;
    assert("ts"@.len() == 2 && "m2ts"@.len() == 4 && "webm"@.len() == 4 && "mp4"@.len() == 3);
    assert("m2ts"@[0] != "webm"@[0]);
    assert("mts"@[1] != "mp4"@[1] && "mts"@[1] != "mkv"@[1] && "mts"@[1] != "mov"@[1]
        && "mts"@[1] != "avi"@[1] && "mts"@[1] != "flv"@[1] && "mts"@[1] != "wmv"@[1]
        && "mts"@[1] != "m4v"@[1]);
    assert(extension_class_of(e) == ExtensionClass::TransportStream);
}

/// Any other file, and a file without an extension, is never a supported video.
pub proof fn law_other_extensions_are_not_supported(p: Seq<char>, os: TargetOs, sample: Option<FileSample>)
    requires
        lower_extension(p, os) matches Some(e) ==> !(e == "mp4"@ || e == "mkv"@ || e == "mov"@
            || e == "avi"@ || e == "flv"@ || e == "webm"@ || e == "wmv"@ || e == "m4v"@
            || e == "ts"@ || e == "m2ts"@ || e == "mts"@),
    ensures
        !supported_video(p, os, sample),
{
}

/// A supported file never has a source-module name: every file accepted under a
/// transport-stream extension has a name that is not a TypeScript declaration, test,
/// spec, config or other source-module name.
pub proof fn law_accepted_transport_stream_is_not_source_name(
    p: Seq<char>,
    os: TargetOs,
    sample: Option<FileSample>,
)
    requires
        path_class(p, os) == ExtensionClass::TransportStream,
        supported_video(p, os, sample),
    ensures
        file_name(p, os) matches Some(n) && !is_source_file_name(unicode_lowercase(n)),
        sample matches Some(s) && has_sync_pattern(s.head@) && !looks_like_source(s.head@),
{
}

} // verus!
