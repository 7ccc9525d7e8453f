use vstd::prelude::*;

use crate::ffmpeg::{join_file, join_path};
use crate::platform::TargetOs;
use crate::text::{
    contains_str, ends_with_str, from_chars, string_of, has_substr, has_suffix, lowercase_chars, push_str,
    unicode_lowercase,
    is_white_space, split_by, split_chars, to_chars, trim, trim_end, trim_start, trimmed, views,
};

verus! {

// ---------------------------------------------------------------------------
// Version numbers
// ---------------------------------------------------------------------------

pub open spec fn is_ascii_digit(c: char) -> bool {
    48 <= (c as u32) <= 57
}

/// Length of the run of ASCII digits at the start of `s`.
pub open spec fn digit_run(s: Seq<char>) -> nat
    decreases s.len(),
{
    if s.len() > 0 && is_ascii_digit(s[0]) {
        1 + digit_run(s.drop_first())
    } else {
        0
    }
}

/// The number written by the ASCII digits `s` (most significant first).
pub open spec fn digits_value(s: Seq<char>) -> nat
    decreases s.len(),
{
    if s.len() == 0 {
        0
    } else {
        digits_value(s.drop_last()) * 10 + (((s.last() as u32) - 48) as nat)
    }
}

/// The number that a dot-separated part contributes: the value of its leading digits,
/// or nothing when it has none or when they do not fit in a `u64`.
pub open spec fn part_number(p: Seq<char>) -> Option<u64> {
    let d = p.take(digit_run(p) as int);
    if d.len() == 0 || digits_value(d) > u64::MAX {
        None
    } else {
        Some(digits_value(d) as u64)
    }
}

/// `s` without the leading occurrences of `c`.
pub open spec fn strip_leading(s: Seq<char>, c: char) -> Seq<char>
    decreases s.len(),
{
    if s.len() > 0 && s[0] == c {
        strip_leading(s.drop_first(), c)
    } else {
        s
    }
}

/// A version string trimmed, then without leading `v`s, then without leading `V`s.
pub open spec fn version_core(v: Seq<char>) -> Seq<char> {
    strip_leading(strip_leading(trim(v), 'v'), 'V')
}

/// The numbers of the parts that have one, in order.
pub open spec fn part_numbers(parts: Seq<Seq<char>>) -> Seq<u64>
    decreases parts.len(),
{
    if parts.len() == 0 {
        Seq::empty()
    } else {
        let r = part_numbers(parts.drop_last());
        match part_number(parts.last()) {
            Some(n) => r.push(n),
            None => r,
        }
    }
}

/// The numeric components of a version string such as `v0.3.1`.
pub open spec fn version_numbers(v: Seq<char>) -> Seq<u64> {
    part_numbers(split_by(version_core(v), seq!['.']))
}

/// `later` is greater than `earlier` in the order that compares the common positions
/// from the left and, when they agree, prefers the longer sequence.
pub open spec fn numbers_newer(earlier: Seq<u64>, later: Seq<u64>) -> bool
    decreases earlier.len(),
{
    if earlier.len() == 0 || later.len() == 0 {
        later.len() > earlier.len()
    } else if later[0] > earlier[0] {
        true
    } else if later[0] < earlier[0] {
        false
    } else {
        numbers_newer(earlier.drop_first(), later.drop_first())
    }
}

/// The version `latest` is newer than the version `current`.
pub open spec fn version_is_newer(current: Seq<char>, latest: Seq<char>) -> bool {
    numbers_newer(version_numbers(current), version_numbers(latest))
}

proof fn lemma_digit_run(s: Seq<char>)
    ensures
        digit_run(s) <= s.len(),
        forall|j: int| 0 <= j < digit_run(s) ==> is_ascii_digit(#[trigger] s[j]),
        digit_run(s) < s.len() ==> !is_ascii_digit(s[digit_run(s) as int]),
    decreases s.len(),
{
    if s.len() > 0 && is_ascii_digit(s[0]) {
        lemma_digit_run(s.drop_first());
        assert forall|j: int| 0 <= j < digit_run(s) implies is_ascii_digit(#[trigger] s[j]) by {
            if j > 0 {
                assert(s[j] == s.drop_first()[j - 1]);
            }
        }
    }
}

proof fn lemma_digit_run_unique(s: Seq<char>, i: int)
    requires
        0 <= i <= s.len(),
        forall|j: int| 0 <= j < i ==> is_ascii_digit(#[trigger] s[j]),
        i == s.len() || !is_ascii_digit(s[i]),
    ensures
        digit_run(s) == i,
{
    lemma_digit_run(s);
    if digit_run(s) < i {
        assert(is_ascii_digit(s[digit_run(s) as int]));
    } else if digit_run(s) > i {
        assert(is_ascii_digit(s[i]));
    }
}

pub proof fn lemma_digits_value_monotone(s: Seq<char>, k: int, m: int)
    requires
        0 <= k <= m <= s.len(),
    ensures
        digits_value(s.take(k)) <= digits_value(s.take(m)),
    decreases m - k,
{
    if k < m {
        lemma_digits_value_monotone(s, k, m - 1);
        assert(s.take(m).drop_last() =~= s.take(m - 1));
    }
}

fn is_digit_char(c: char) -> (r: bool)
    ensures
        r == is_ascii_digit(c),
{
    let u = c as u32;
    48 <= u && u <= 57
}

/// The number contributed by one dot-separated part of a version.
fn part_value(p: &Vec<char>) -> (r: Option<u64>)
    ensures
        r == part_number(p@),
{
    let mut i: usize = 0;
    let mut acc: u64 = 0;
    assert(p@.take(0) =~= Seq::<char>::empty());
    while i < p.len() && is_digit_char(p[i])
        invariant
            i <= p.len(),
            forall|j: int| 0 <= j < i ==> is_ascii_digit(#[trigger] p@[j]),
            acc == digits_value(p@.take(i as int)),
        decreases p.len() - i,
    {
        let d: u64 = ((p[i] as u32) - 48) as u64;
        assert(p@.take(i + 1).drop_last() =~= p@.take(i as int));
        assert(digits_value(p@.take(i + 1)) == digits_value(p@.take(i as int)) * 10 + d);
        if acc > (u64::MAX - d) / 10 {
            assert(acc * 10 + d > u64::MAX) by (nonlinear_arith)
                requires
                    acc > (u64::MAX - d) / 10,
                    d < 10,
            ;
            proof {
                assert forall|j: int| 0 <= j < i + 1 implies is_ascii_digit(#[trigger] p@[j]) by {}
                lemma_digit_run(p@);
                if digit_run(p@) < i + 1 {
                    assert(is_ascii_digit(p@[digit_run(p@) as int]));
                }
                lemma_digits_value_monotone(p@, i + 1, digit_run(p@) as int);
            }
            return None;
        }
        assert(acc * 10 + d <= u64::MAX) by (nonlinear_arith)
            requires
                acc <= (u64::MAX - d) / 10,
                d < 10,
        ;
        acc = acc * 10 + d;
        i = i + 1;
    }
    proof {
        lemma_digit_run_unique(p@, i as int);
    }
    if i == 0 {
        None
    } else {
        Some(acc)
    }
}

/// `v` without its leading occurrences of `c`.
fn strip_leading_chars(v: &Vec<char>, c: char) -> (r: Vec<char>)
    ensures
        r@ == strip_leading(v@, c),
{
    let mut i: usize = 0;
    assert(v@.skip(0) =~= v@);
    while i < v.len() && v[i] == c
        invariant
            i <= v.len(),
            strip_leading(v@, c) == strip_leading(v@.skip(i as int), c),
        decreases v.len() - i,
    {
        assert(v@.skip(i as int).drop_first() =~= v@.skip(i + 1));
        i = i + 1;
    }
    let mut r: Vec<char> = Vec::new();
    let mut k: usize = i;
    while k < v.len()
        invariant
            i <= k <= v.len(),
            r@ == v@.subrange(i as int, k as int),
        decreases v.len() - k,
    {
        r.push(v[k]);
        k = k + 1;
        assert(r@ =~= v@.subrange(i as int, k as int));
    }
    assert(r@ =~= v@.skip(i as int));
    r
}

/// The numeric components of a version string.
pub fn version_numbers_of(v: &str) -> (r: Vec<u64>)
    ensures
        r@ == version_numbers(v@),
{
    let chars = to_chars(v);
    let t = trimmed(&chars);
    let a = strip_leading_chars(&t, 'v');
    let b = strip_leading_chars(&a, 'V');
    let dots = vec!['.'];
    assert(dots@ =~= seq!['.']);
    let parts = split_chars(&b, &dots);
    let ghost pv = views(parts@);
    let mut r: Vec<u64> = Vec::new();
    let mut i: usize = 0;
    assert(pv.take(0) =~= Seq::<Seq<char>>::empty());
    while i < parts.len()
        invariant
            i <= parts.len(),
            pv == views(parts@),
            pv.len() == parts.len(),
            r@ == part_numbers(pv.take(i as int)),
        decreases parts.len() - i,
    {
        assert(pv.take(i + 1).drop_last() =~= pv.take(i as int));
        assert(pv.take(i + 1).last() == parts@[i as int]@);
        match part_value(&parts[i]) {
            Some(n) => {
                r.push(n);
            },
            None => {},
        }
        i = i + 1;
    }
    assert(pv.take(i as int) =~= pv);
    r
}

/// Semantic version comparison: whether `latest` is newer than `current`.
pub fn is_newer_version(current: &str, latest: &str) -> (r: bool)
    ensures
        r == version_is_newer(current@, latest@),
{
    let cur = version_numbers_of(current);
    let lat = version_numbers_of(latest);
    let mut i: usize = 0;
    assert(cur@.skip(0) =~= cur@);
    assert(lat@.skip(0) =~= lat@);
    while i < cur.len() && i < lat.len()
        invariant
            i <= cur.len(),
            i <= lat.len(),
            cur@ == version_numbers(current@),
            lat@ == version_numbers(latest@),
            numbers_newer(cur@, lat@) == numbers_newer(cur@.skip(i as int), lat@.skip(i as int)),
        decreases cur.len() - i,
    {
        assert(cur@.skip(i as int)[0] == cur@[i as int]);
        assert(lat@.skip(i as int)[0] == lat@[i as int]);
        if lat[i] > cur[i] {
            return true;
        } else if lat[i] < cur[i] {
            return false;
        }
        assert(cur@.skip(i as int).drop_first() =~= cur@.skip(i + 1));
        assert(lat@.skip(i as int).drop_first() =~= lat@.skip(i + 1));
        i = i + 1;
    }
    lat.len() > cur.len()
}


// ---------------------------------------------------------------------------
// Release assets
// ---------------------------------------------------------------------------

/// One downloadable file of a published release.
#[derive(Debug, Clone)]
pub struct GitHubAsset {
    pub name: String,
    pub browser_download_url: String,
    pub size: u64,
}

/// A published release, as far as the update check reads it.
#[derive(Debug, Clone)]
pub struct GitHubRelease {
    pub tag_name: String,
    pub name: Option<String>,
    pub body: Option<String>,
    pub published_at: Option<String>,
    pub assets: Option<Vec<GitHubAsset>>,
}

/// The installer suffixes that suit a system, most preferred first.
pub open spec fn preferred_extensions(os: TargetOs) -> Seq<Seq<char>> {
    match os {
        TargetOs::Windows => seq![".exe"@, ".msi"@],
        TargetOs::MacOs => seq![".dmg"@, ".app.tar.gz"@, ".zip"@],
        TargetOs::Other => seq![".AppImage"@, ".deb"@, ".tar.gz"@],
    }
}

pub open spec fn asset_names(assets: Seq<GitHubAsset>) -> Seq<Seq<char>> {
    assets.map_values(|a: GitHubAsset| a.name@)
}

/// An asset name fits a suffix when, both taken in lower case, the name ends with the
/// suffix; a strict fit also excludes names that mention `cli`.
pub open spec fn asset_fits(name: Seq<char>, ext: Seq<char>, strict: bool) -> bool {
    let lower = unicode_lowercase(name);
    has_suffix(lower, unicode_lowercase(ext)) && (!strict || !has_substr(lower, "cli"@))
}

/// The first position at or after `from` whose name fits `ext`.
pub open spec fn first_fit_from(names: Seq<Seq<char>>, ext: Seq<char>, strict: bool, from: int) -> Option<int>
    decreases names.len() - from,
{
    if from < 0 || from >= names.len() {
        None
    } else if asset_fits(names[from], ext, strict) {
        Some(from)
    } else {
        first_fit_from(names, ext, strict, from + 1)
    }
}

/// The first fitting name for the first suffix at or after position `e` that has one.
pub open spec fn first_fit_over(exts: Seq<Seq<char>>, names: Seq<Seq<char>>, strict: bool, e: int) -> Option<int>
    decreases exts.len() - e,
{
    if e < 0 || e >= exts.len() {
        None
    } else {
        match first_fit_from(names, exts[e], strict, 0) {
            Some(i) => Some(i),
            None => first_fit_over(exts, names, strict, e + 1),
        }
    }
}

/// The asset to download: the strict choice if there is one, else the loose one.
pub open spec fn pick_asset_index(exts: Seq<Seq<char>>, names: Seq<Seq<char>>) -> Option<int> {
    match first_fit_over(exts, names, true, 0) {
        Some(i) => Some(i),
        None => first_fit_over(exts, names, false, 0),
    }
}

proof fn lemma_first_fit_from(names: Seq<Seq<char>>, ext: Seq<char>, strict: bool, from: int)
    requires
        0 <= from,
    ensures
        match first_fit_from(names, ext, strict, from) {
            Some(k) => from <= k < names.len() && asset_fits(names[k], ext, strict),
            None => forall|j: int| from <= j < names.len() ==> !asset_fits(#[trigger] names[j], ext, strict),
        },
    decreases names.len() - from,
{
    if from < names.len() && !asset_fits(names[from], ext, strict) {
        lemma_first_fit_from(names, ext, strict, from + 1);
    }
}

proof fn lemma_first_fit_over(exts: Seq<Seq<char>>, names: Seq<Seq<char>>, strict: bool, e: int)
    requires
        0 <= e,
    ensures
        match first_fit_over(exts, names, strict, e) {
            Some(k) => 0 <= k < names.len() && exists|x: int| e <= x < exts.len() && asset_fits(names[k], #[trigger] exts[x], strict),
            None => forall|x: int, j: int| e <= x < exts.len() && 0 <= j < names.len() ==> !asset_fits(#[trigger] names[j], #[trigger] exts[x], strict),
        },
    decreases exts.len() - e,
{
    if e < exts.len() {
        lemma_first_fit_from(names, exts[e], strict, 0);
        lemma_first_fit_over(exts, names, strict, e + 1);
        match first_fit_from(names, exts[e], strict, 0) {
            Some(k) => {
                assert(asset_fits(names[k], exts[e], strict));
            },
            None => {
                match first_fit_over(exts, names, strict, e + 1) {
                    Some(k) => {
                        let x = choose|x: int| e + 1 <= x < exts.len() && asset_fits(names[k], #[trigger] exts[x], strict);
                        assert(e <= x < exts.len() && asset_fits(names[k], exts[x], strict));
                    },
                    None => {
                        assert forall|x: int, j: int| e <= x < exts.len() && 0 <= j < names.len() implies !asset_fits(#[trigger] names[j], #[trigger] exts[x], strict) by {
                            if x == e {
                                assert(!asset_fits(names[j], exts[e], strict));
                            }
                        }
                    },
                }
            },
        }
    }
}

/// The chosen asset always has a preferred suffix, and an asset is chosen whenever some
/// asset name ends with a preferred suffix.
pub proof fn law_picked_asset_has_preferred_suffix(exts: Seq<Seq<char>>, names: Seq<Seq<char>>)
    ensures
        match pick_asset_index(exts, names) {
            Some(i) => 0 <= i < names.len() && exists|x: int| 0 <= x < exts.len() && asset_fits(names[i], #[trigger] exts[x], false),
            None => forall|x: int, j: int| 0 <= x < exts.len() && 0 <= j < names.len() ==> !asset_fits(#[trigger] names[j], #[trigger] exts[x], false),
        },
{
    lemma_first_fit_over(exts, names, true, 0);
    lemma_first_fit_over(exts, names, false, 0);
    if let Some(i) = first_fit_over(exts, names, true, 0) {
        let x = choose|x: int| 0 <= x < exts.len() && asset_fits(names[i], #[trigger] exts[x], true);
        assert(asset_fits(names[i], exts[x], false));
    }
}

fn preferred_exts(os: TargetOs) -> (r: Vec<&'static str>)
    ensures
        r@.map_values(|s: &str| s@) == preferred_extensions(os),
{
    let r = match os {
        TargetOs::Windows => vec![".exe", ".msi"],
        TargetOs::MacOs => vec![".dmg", ".app.tar.gz", ".zip"],
        TargetOs::Other => vec![".AppImage", ".deb", ".tar.gz"],
    };
    assert(r@.map_values(|s: &str| s@) =~= preferred_extensions(os));
    r
}

fn fits(name: &String, ext: &str, strict: bool) -> (r: bool)
    ensures
        r == asset_fits(name@, ext@, strict),
{
    let chars = crate::text::to_chars(name.as_str());
    let lower = lowercase_chars(&chars);
    let ext_lower = crate::text::to_lowercase(ext);
    ends_with_str(&lower, ext_lower.as_str()) && (!strict || !contains_str(&lower, "cli"))
}

fn first_fit(assets: &Vec<GitHubAsset>, ext: &str, strict: bool) -> (r: Option<usize>)
    ensures
        first_fit_from(asset_names(assets@), ext@, strict, 0) == (match r {
            Some(k) => Some(k as int),
            None => None,
        }),
{
    let ghost names = asset_names(assets@);
    let mut i: usize = 0;
    while i < assets.len()
        invariant
            i <= assets.len(),
            names == asset_names(assets@),
            first_fit_from(names, ext@, strict, 0) == first_fit_from(names, ext@, strict, i as int),
        decreases assets.len() - i,
    {
        assert(names[i as int] == assets@[i as int].name@);
        if fits(&assets[i].name, ext, strict) {
            return Some(i);
        }
        i = i + 1;
    }
    None
}

fn first_fit_in_order(assets: &Vec<GitHubAsset>, exts: &Vec<&'static str>, strict: bool) -> (r: Option<usize>)
    ensures
        first_fit_over(exts@.map_values(|s: &str| s@), asset_names(assets@), strict, 0) == (match r {
            Some(k) => Some(k as int),
            None => None,
        }),
{
    let ghost names = asset_names(assets@);
    let ghost ev = exts@.map_values(|s: &str| s@);
    let mut e: usize = 0;
    while e < exts.len()
        invariant
            e <= exts.len(),
            names == asset_names(assets@),
            ev == exts@.map_values(|s: &str| s@),
            first_fit_over(ev, names, strict, 0) == first_fit_over(ev, names, strict, e as int),
        decreases exts.len() - e,
    {
        assert(ev[e as int] == exts@[e as int]@);
        let f = first_fit(assets, exts[e], strict);
        if let Some(i) = f {
            return Some(i);
        }
        e = e + 1;
    }
    None
}

/// Chooses the release asset that suits the system: the first preferred suffix that some
/// asset name (not mentioning `cli`) ends with, both taken in lower case; failing that,
/// the same search without the `cli` exclusion.
pub fn pick_asset_for_platform(assets: &Vec<GitHubAsset>, os: TargetOs) -> (r: Option<(String, String, u64)>)
    ensures
        match pick_asset_index(preferred_extensions(os), asset_names(assets@)) {
            Some(i) => r matches Some(t) && {
                &&& 0 <= i < assets@.len()
                &&& t.0@ == assets@[i].browser_download_url@
                &&& t.1@ == assets@[i].name@
                &&& t.2 == assets@[i].size
            },
            None => r is None,
        },
{
    let exts = preferred_exts(os);
    let ghost ev = exts@.map_values(|s: &str| s@);
    let ghost names = asset_names(assets@);
    assert(ev == preferred_extensions(os));
    proof {
        lemma_first_fit_over_in_range(ev, names, true, 0);
        lemma_first_fit_over_in_range(ev, names, false, 0);
    }
    let strict = first_fit_in_order(assets, &exts, true);
    let found = if strict.is_some() {
        assert(first_fit_over(ev, names, true, 0) == Some(strict.unwrap() as int));
        strict
    } else {
        assert(first_fit_over(ev, names, true, 0) is None);
        first_fit_in_order(assets, &exts, false)
    };
    proof {
        lemma_first_fit_over_in_range(preferred_extensions(os), asset_names(assets@), true, 0);
        lemma_first_fit_over_in_range(preferred_extensions(os), asset_names(assets@), false, 0);
    }
    assert(exts@.map_values(|s: &str| s@) == preferred_extensions(os));
    match found {
        Some(i) => {
            assert(pick_asset_index(preferred_extensions(os), asset_names(assets@)) == Some(i as int));
            let a = &assets[i];
            Some((a.browser_download_url.clone(), a.name.clone(), a.size))
        },
        None => None,
    }
}

proof fn lemma_first_fit_from_in_range(names: Seq<Seq<char>>, ext: Seq<char>, strict: bool, from: int)
    ensures
        first_fit_from(names, ext, strict, from) matches Some(i) ==> 0 <= i < names.len(),
    decreases names.len() - from,
{
    if 0 <= from < names.len() && !asset_fits(names[from], ext, strict) {
        lemma_first_fit_from_in_range(names, ext, strict, from + 1);
    }
}

proof fn lemma_first_fit_over_in_range(exts: Seq<Seq<char>>, names: Seq<Seq<char>>, strict: bool, e: int)
    ensures
        first_fit_over(exts, names, strict, e) matches Some(i) ==> 0 <= i < names.len(),
    decreases exts.len() - e,
{
    if 0 <= e < exts.len() {
        lemma_first_fit_from_in_range(names, exts[e], strict, 0);
        lemma_first_fit_over_in_range(exts, names, strict, e + 1);
    }
}


// ---------------------------------------------------------------------------
// Update check results
// ---------------------------------------------------------------------------

/// What the update check reports to the user interface.
#[derive(Debug, Clone)]
pub struct UpdateCheckResult {
    pub has_update: bool,
    pub current_version: String,
    pub latest_version: String,
    pub release_title: String,
    pub release_notes: String,
    pub published_at: String,
    pub download_url: String,
    pub file_name: String,
    pub file_size: u64,
}

/// Suffix of the installer package named when the release lists no fitting asset.
pub open spec fn installer_suffix(os: TargetOs) -> Seq<char> {
    match os {
        TargetOs::Windows => ".exe"@,
        TargetOs::MacOs => ".dmg"@,
        TargetOs::Other => ".AppImage"@,
    }
}

pub fn installer_suffix_of(os: TargetOs) -> (r: &'static str)
    ensures
        r@ == installer_suffix(os),
{
    match os {
        TargetOs::Windows => ".exe",
        TargetOs::MacOs => ".dmg",
        TargetOs::Other => ".AppImage",
    }
}

/// The installer file name assumed for version `latest`.
pub open spec fn default_package_name(latest: Seq<char>, os: TargetOs) -> Seq<char> {
    "NeuroClip_"@ + latest + "_x64"@ + installer_suffix(os)
}

/// The download address assumed for release `tag` with version `latest`.
pub open spec fn default_package_url(tag: Seq<char>, latest: Seq<char>, os: TargetOs) -> Seq<char> {
    "https://github.com/NovaMindLab/NeuroClip/releases/download/"@ + tag + "/"@
        + default_package_name(latest, os)
}

/// The version a release tag names: the tag without its leading `v`s.
pub open spec fn release_version(tag: Seq<char>) -> Seq<char> {
    strip_leading(tag, 'v')
}

pub open spec fn or_default(o: Option<String>, d: Seq<char>) -> Seq<char> {
    match o {
        Some(s) => s@,
        None => d,
    }
}

fn string_or(o: &Option<String>, d: &Vec<char>) -> (r: String)
    ensures
        r@ == or_default(*o, d@),
{
    match o {
        Some(s) => s.clone(),
        None => from_chars(d),
    }
}

/// The result of an update check against a published release: the release version is
/// its tag without leading `v`s; the download is the asset chosen for the system, or an
/// assumed package name when no asset fits, or nothing when the release lists no assets.
pub fn release_update_result(current_version: &str, release: &GitHubRelease, os: TargetOs) -> (r: UpdateCheckResult)
    ensures
        r.current_version@ == current_version@,
        r.latest_version@ == release_version(release.tag_name@),
        r.has_update == version_is_newer(current_version@, release_version(release.tag_name@)),
        r.release_title@ == or_default(release.name, "NeuroClip v"@ + release.tag_name@),
        r.release_notes@ == or_default(release.body, "包含核心性能优化与体验增强。"@),
        r.published_at@ == or_default(release.published_at, "最近发布"@),
        match release.assets {
            Some(assets) => match pick_asset_index(preferred_extensions(os), asset_names(assets@)) {
                Some(i) => {
                    &&& 0 <= i < assets@.len()
                    &&& r.download_url@ == assets@[i].browser_download_url@
                    &&& r.file_name@ == assets@[i].name@
                    &&& r.file_size == assets@[i].size
                },
                None => {
                    &&& r.download_url@ == default_package_url(
                        release.tag_name@,
                        release_version(release.tag_name@),
                        os,
                    )
                    &&& r.file_name@ == default_package_name(release_version(release.tag_name@), os)
                    &&& r.file_size == 78_000_000
                },
            },
            None => r.download_url@ == ""@ && r.file_name@ == ""@ && r.file_size == 0,
        },
{
    let tag = crate::text::to_chars(release.tag_name.as_str());
    let latest_chars = strip_leading_chars(&tag, 'v');
    let latest = from_chars(&latest_chars);
    let has_update = is_newer_version(current_version, latest.as_str());
    let (download_url, file_name, file_size) = match &release.assets {
        Some(assets) => {
            match pick_asset_for_platform(assets, os) {
                Some(t) => t,
                None => {
                    let mut name: Vec<char> = Vec::new();
                    push_str(&mut name, "NeuroClip_");
                    crate::text::push_all(&mut name, &latest_chars);
                    push_str(&mut name, "_x64");
                    push_str(&mut name, installer_suffix_of(os));
                    let mut url: Vec<char> = Vec::new();
                    push_str(&mut url, "https://github.com/NovaMindLab/NeuroClip/releases/download/");
                    crate::text::push_all(&mut url, &tag);
                    push_str(&mut url, "/");
                    crate::text::push_all(&mut url, &name);
                    assert(name@ =~= default_package_name(latest_chars@, os));
                    assert(url@ =~= default_package_url(tag@, latest_chars@, os));
                    (from_chars(&url), from_chars(&name), 78_000_000u64)
                },
            }
        },
        None => (string_of(""), string_of(""), 0u64),
    };
    let mut title_default: Vec<char> = Vec::new();
    push_str(&mut title_default, "NeuroClip v");
    crate::text::push_all(&mut title_default, &tag);
    let notes_default = crate::text::to_chars("包含核心性能优化与体验增强。");
    let published_default = crate::text::to_chars("最近发布");
    UpdateCheckResult {
        has_update,
        current_version: string_of(current_version),
        latest_version: latest,
        release_title: string_or(&release.name, &title_default),
        release_notes: string_or(&release.body, &notes_default),
        published_at: string_or(&release.published_at, &published_default),
        download_url,
        file_name,
        file_size,
    }
}

/// The release assumed when the release service cannot be reached.
pub open spec fn offline_package_name(os: TargetOs) -> Seq<char> {
    "NeuroClip_0.3.2_x64"@ + installer_suffix(os)
}

/// The result of an update check when the release service cannot be reached: version
/// 0.3.2 with its notes, package and size.
pub fn offline_update_result(current_version: &str, os: TargetOs) -> (r: UpdateCheckResult)
    ensures
        r.current_version@ == current_version@,
        r.latest_version@ == "0.3.2"@,
        r.has_update == version_is_newer(current_version@, "0.3.2"@),
        r.release_title@ == "NeuroClip v0.3.2 性能与跨平台升级"@,
        r.release_notes@
            == "1. 优化 Windows 硬件加速 (NVENC / AMF / QSV) 压制稳定性\n2. 增强 SQLite3 视频极速扫描批量吞吐性能\n3. 优化 9:16 动态模糊虚化渲染质量"@,
        r.published_at@ == "2026-09-11"@,
        r.file_name@ == offline_package_name(os),
        r.download_url@ == "https://github.com/NovaMindLab/NeuroClip/releases/download/v0.3.2/"@
            + offline_package_name(os),
        r.file_size == 85_600_000,
{
    let latest = string_of("0.3.2");
    let has_update = is_newer_version(current_version, latest.as_str());
    let mut name: Vec<char> = Vec::new();
    push_str(&mut name, "NeuroClip_0.3.2_x64");
    push_str(&mut name, installer_suffix_of(os));
    let mut url: Vec<char> = Vec::new();
    push_str(&mut url, "https://github.com/NovaMindLab/NeuroClip/releases/download/v0.3.2/");
    crate::text::push_all(&mut url, &name);
    UpdateCheckResult {
        has_update,
        current_version: string_of(current_version),
        latest_version: latest,
        release_title: string_of("NeuroClip v0.3.2 性能与跨平台升级"),
        release_notes: string_of(
            "1. 优化 Windows 硬件加速 (NVENC / AMF / QSV) 压制稳定性\n2. 增强 SQLite3 视频极速扫描批量吞吐性能\n3. 优化 9:16 动态模糊虚化渲染质量",
        ),
        published_at: string_of("2026-09-11"),
        download_url: from_chars(&url),
        file_name: from_chars(&name),
        file_size: 85_600_000,
    }
}

// ---------------------------------------------------------------------------
// Laws of the version order
// ---------------------------------------------------------------------------

proof fn lemma_numbers_irreflexive(a: Seq<u64>)
    ensures
        !numbers_newer(a, a),
    decreases a.len(),
{
    if a.len() > 0 {
        lemma_numbers_irreflexive(a.drop_first());
    }
}

proof fn lemma_numbers_asymmetric(a: Seq<u64>, b: Seq<u64>)
    ensures
        numbers_newer(a, b) ==> !numbers_newer(b, a),
    decreases a.len(),
{
    if a.len() > 0 && b.len() > 0 && a[0] == b[0] {
        lemma_numbers_asymmetric(a.drop_first(), b.drop_first());
    }
}

proof fn lemma_numbers_transitive(a: Seq<u64>, b: Seq<u64>, c: Seq<u64>)
    ensures
        numbers_newer(a, b) && numbers_newer(b, c) ==> numbers_newer(a, c),
    decreases a.len(),
{
    if a.len() > 0 && b.len() > 0 && c.len() > 0 {
        lemma_numbers_transitive(a.drop_first(), b.drop_first(), c.drop_first());
    }
}

proof fn lemma_numbers_total(a: Seq<u64>, b: Seq<u64>)
    ensures
        a != b ==> numbers_newer(a, b) || numbers_newer(b, a),
    decreases a.len(),
{
    if a.len() > 0 && b.len() > 0 {
        lemma_numbers_total(a.drop_first(), b.drop_first());
        if a[0] == b[0] && a.drop_first() == b.drop_first() {
            assert(a =~= seq![a[0]] + a.drop_first());
            assert(b =~= seq![b[0]] + b.drop_first());
        }
    } else if a.len() == 0 && b.len() == 0 {
        assert(a =~= b);
    }
}

proof fn lemma_numbers_first_difference(a: Seq<u64>, b: Seq<u64>, k: int)
    requires
        0 <= k < a.len(),
        k < b.len(),
        forall|j: int| 0 <= j < k ==> a[j] == b[j],
    ensures
        b[k] > a[k] ==> numbers_newer(a, b),
        b[k] < a[k] ==> !numbers_newer(a, b),
    decreases k,
{
    if k > 0 {
        assert(a[0] == b[0]);
        let a1 = a.drop_first();
        let b1 = b.drop_first();
        assert forall|j: int| 0 <= j < k - 1 implies a1[j] == b1[j] by {
            assert(a1[j] == a[j + 1] && b1[j] == b[j + 1]);
        }
        lemma_numbers_first_difference(a1, b1, k - 1);
        assert(a1[k - 1] == a[k] && b1[k - 1] == b[k]);
    }
}

proof fn lemma_numbers_common_prefix(a: Seq<u64>, b: Seq<u64>, n: int)
    requires
        0 <= n,
        n == a.len() || n == b.len(),
        n <= a.len() && n <= b.len(),
        forall|j: int| 0 <= j < n ==> a[j] == b[j],
    ensures
        numbers_newer(a, b) == (b.len() > a.len()),
    decreases n,
{
    if n > 0 {
        let a1 = a.drop_first();
        let b1 = b.drop_first();
        assert(a[0] == b[0]);
        assert forall|j: int| 0 <= j < n - 1 implies a1[j] == b1[j] by {
            assert(a1[j] == a[j + 1] && b1[j] == b[j + 1]);
        }
        lemma_numbers_common_prefix(a1, b1, n - 1);
    }
}

/// Versions compare component by component from the left: where the numbers of `latest`
/// and `current` first differ, the larger component decides, whatever the lengths.
pub proof fn law_version_first_difference_decides(current: Seq<char>, latest: Seq<char>, k: int)
    requires
        0 <= k < version_numbers(current).len(),
        k < version_numbers(latest).len(),
        forall|j: int| 0 <= j < k ==> version_numbers(current)[j] == version_numbers(latest)[j],
    ensures
        version_numbers(latest)[k] > version_numbers(current)[k] ==> version_is_newer(current, latest),
        version_numbers(latest)[k] < version_numbers(current)[k] ==> !version_is_newer(current, latest),
{
    lemma_numbers_first_difference(version_numbers(current), version_numbers(latest), k);
}

/// When one version's numbers run out while all common components agree, the version
/// with more components is the newer one (and neither is newer when they are equal).
pub proof fn law_version_longer_extension_is_newer(current: Seq<char>, latest: Seq<char>)
    requires
        forall|j: int| 0 <= j < version_numbers(current).len() && j < version_numbers(latest).len()
            ==> version_numbers(current)[j] == version_numbers(latest)[j],
    ensures
        version_is_newer(current, latest) == (version_numbers(latest).len() > version_numbers(current).len()),
{
    let a = version_numbers(current);
    let b = version_numbers(latest);
    let n = if a.len() <= b.len() { a.len() as int } else { b.len() as int };
    lemma_numbers_common_prefix(a, b, n);
}

/// No version is newer than itself.
pub proof fn law_version_not_newer_than_itself(v: Seq<char>)
    ensures
        !version_is_newer(v, v),
{
    lemma_numbers_irreflexive(version_numbers(v));
}

/// If `b` is newer than `a`, then `a` is not newer than `b`.
pub proof fn law_version_newer_asymmetric(a: Seq<char>, b: Seq<char>)
    ensures
        version_is_newer(a, b) ==> !version_is_newer(b, a),
{
    lemma_numbers_asymmetric(version_numbers(a), version_numbers(b));
}

/// If `b` is newer than `a` and `c` is newer than `b`, then `c` is newer than `a`.
pub proof fn law_version_newer_transitive(a: Seq<char>, b: Seq<char>, c: Seq<char>)
    ensures
        version_is_newer(a, b) && version_is_newer(b, c) ==> version_is_newer(a, c),
{
    lemma_numbers_transitive(version_numbers(a), version_numbers(b), version_numbers(c));
}

/// Two versions with different numeric components are ordered one way or the other.
pub proof fn law_version_order_total(a: Seq<char>, b: Seq<char>)
    ensures
        version_numbers(a) != version_numbers(b) ==> version_is_newer(a, b) || version_is_newer(
            b,
            a,
        ),
{
    lemma_numbers_total(version_numbers(a), version_numbers(b));
}

proof fn lemma_trim_end_cons(c: char, s: Seq<char>)
    requires
        !is_white_space(c),
    ensures
        trim_end(seq![c] + s) == seq![c] + trim_end(s),
    decreases s.len(),
{
    if s.len() > 0 {
        assert((seq![c] + s).drop_last() =~= seq![c] + s.drop_last());
        assert((seq![c] + s).last() == s.last());
        lemma_trim_end_cons(c, s.drop_last());
    } else {
        assert(seq![c] + s =~= seq![c]);
    }
}

/// A leading `v` does not change the numbers of a version that does not begin with white space.
pub proof fn law_version_v_prefix_ignored(s: Seq<char>)
    requires
        s.len() == 0 || !is_white_space(s[0]),
    ensures
        version_numbers(seq!['v'] + s) == version_numbers(s),
{
    let vs = seq!['v'] + s;
    assert(!is_white_space('v'));
    assert(trim_start(vs) == vs);
    assert(trim_start(s) == s);
    lemma_trim_end_cons('v', s);
    let t = trim_end(s);
    assert((seq!['v'] + t).drop_first() =~= t);
    assert(strip_leading(seq!['v'] + t, 'v') == strip_leading(t, 'v'));
}


// ---------------------------------------------------------------------------
// Downloads
// ---------------------------------------------------------------------------

/// The package size assumed when the server does not say how long the download is.
pub const ASSUMED_PACKAGE_SIZE: u64 = 85_600_000;

/// The bytes added at each step of the offline stand-in download.
pub const OFFLINE_CHUNK: u64 = 7_133_333;

/// Counts the bytes of a running download against its expected size.
#[derive(Debug, Clone, Copy)]
pub struct DownloadTracker {
    pub downloaded: u64,
    pub total: u64,
}

impl DownloadTracker {
    /// A download of `content_length` bytes, or of the assumed package size when the
    /// server gives none; nothing received yet.
    pub fn new(content_length: Option<u64>) -> (r: Self)
        ensures
            r.downloaded == 0,
            r.total == (match content_length {
                Some(n) => n,
                None => ASSUMED_PACKAGE_SIZE,
            }),
    {
        DownloadTracker {
            downloaded: 0,
            total: match content_length {
                Some(n) => n,
                None => ASSUMED_PACKAGE_SIZE,
            },
        }
    }

    /// Counts a received chunk of `len` bytes.
    pub fn record_chunk(&mut self, len: u64)
        requires
            old(self).downloaded + len <= u64::MAX,
        ensures
            final(self).downloaded == old(self).downloaded + len,
            final(self).total == old(self).total,
    {
        self.downloaded = self.downloaded + len;
    }
}

/// The byte counts reported by the offline stand-in download: twelve steps of
/// `OFFLINE_CHUNK` bytes, never past the assumed package size.
pub open spec fn offline_progress_at(step: int) -> int {
    let n = (step + 1) * (OFFLINE_CHUNK as int);
    if n < ASSUMED_PACKAGE_SIZE {
        n
    } else {
        ASSUMED_PACKAGE_SIZE as int
    }
}

/// The byte counts the offline stand-in download reports, one per step.
pub fn offline_download_steps() -> (r: Vec<u64>)
    ensures
        r@.len() == 12,
        forall|k: int| 0 <= k < 12 ==> #[trigger] r@[k] == offline_progress_at(k),
{
    let mut r: Vec<u64> = Vec::new();
    let mut current: u64 = 0;
    let mut k: u64 = 0;
    while k < 12
        invariant
            k <= 12,
            r@.len() == k,
            current == (if k == 0 { 0 } else { offline_progress_at(k - 1) }),
            forall|j: int| 0 <= j < k ==> #[trigger] r@[j] == offline_progress_at(j),
        decreases 12 - k,
    {
        let next: u64 = current + OFFLINE_CHUNK;
        current = if next < ASSUMED_PACKAGE_SIZE {
            next
        } else {
            ASSUMED_PACKAGE_SIZE
        };
        r.push(current);
        k = k + 1;
    }
    r
}

/// Where a downloaded package is kept: the `updates` folder of `.neuroclip` in the home
/// folder (the current folder when there is no home).
pub open spec fn update_package_path(home: Option<Seq<char>>, file_name: Seq<char>, os: TargetOs) -> Seq<char> {
    join_path(updates_folder(home, os), file_name, os)
}

/// The folder that keeps downloaded packages.
pub open spec fn updates_folder(home: Option<Seq<char>>, os: TargetOs) -> Seq<char> {
    join_path(join_path(match home {
        Some(h) => h,
        None => "."@,
    }, ".neuroclip"@, os), "updates"@, os)
}

/// The folder that keeps downloaded packages, under the home folder `home`.
pub fn updates_dir(home: Option<&str>, os: TargetOs) -> (r: String)
    ensures
        r@ == updates_folder(
            match home {
                Some(h) => Some(h@),
                None => None,
            },
            os,
        ),
{
    let base = match home {
        Some(h) => h,
        None => ".",
    };
    let app_dir = join_file(base, ".neuroclip", os);
    join_file(app_dir.as_str(), "updates", os)
}

/// Where the package `file_name` is downloaded to, under the home folder `home`.
pub fn update_download_path(home: Option<&str>, file_name: &str, os: TargetOs) -> (r: String)
    ensures
        r@ == update_package_path(
            match home {
                Some(h) => Some(h@),
                None => None,
            },
            file_name@,
            os,
        ),
{
    let dir = updates_dir(home, os);
    join_file(dir.as_str(), file_name, os)
}


/// How the system installer is started for a downloaded package.
#[derive(Debug, Clone)]
pub struct InstallerLaunch {
    pub program: String,
    pub args: Vec<String>,
    /// Reported once the installer was started.
    pub started_message: String,
    /// Put before the system's error when the installer could not be started.
    pub failure_prefix: String,
}

pub open spec fn installer_program(os: TargetOs) -> Seq<char> {
    match os {
        TargetOs::MacOs => "open"@,
        TargetOs::Windows => "cmd"@,
        TargetOs::Other => "xdg-open"@,
    }
}

pub open spec fn installer_args(os: TargetOs, package: Seq<char>) -> Seq<Seq<char>> {
    match os {
        TargetOs::Windows => seq!["/C"@, "start"@, ""@, package],
        _ => seq![package],
    }
}

pub open spec fn installer_started(os: TargetOs) -> Seq<char> {
    match os {
        TargetOs::MacOs => "已启动 macOS 安装向导"@,
        TargetOs::Windows => "已启动 Windows 安装向导"@,
        TargetOs::Other => "已启动 Linux 安装程序"@,
    }
}

pub open spec fn installer_failure(os: TargetOs) -> Seq<char> {
    match os {
        TargetOs::MacOs => "无法启动 macOS 安装器: "@,
        TargetOs::Windows => "无法启动 Windows 安装程序: "@,
        TargetOs::Other => "无法启动 Linux 安装向导: "@,
    }
}

/// The command that opens the installer package at `package`: `open` on macOS, `start`
/// through `cmd` on Windows, `xdg-open` elsewhere.
pub fn installer_launch(os: TargetOs, package: &str) -> (r: InstallerLaunch)
    ensures
        r.program@ == installer_program(os),
        r.args@.map_values(|a: String| a@) == installer_args(os, package@),
        r.started_message@ == installer_started(os),
        r.failure_prefix@ == installer_failure(os),
{
    let mut args: Vec<String> = Vec::new();
    match os {
        TargetOs::Windows => {
            args.push(string_of("/C"));
            args.push(string_of("start"));
            args.push(string_of(""));
        },
        _ => {},
    }
    args.push(string_of(package));
    assert(args@.map_values(|a: String| a@) =~= installer_args(os, package@));
    let (program, started, failure) = match os {
        TargetOs::MacOs => ("open", "已启动 macOS 安装向导", "无法启动 macOS 安装器: "),
        TargetOs::Windows => ("cmd", "已启动 Windows 安装向导", "无法启动 Windows 安装程序: "),
        TargetOs::Other => ("xdg-open", "已启动 Linux 安装程序", "无法启动 Linux 安装向导: "),
    };
    InstallerLaunch {
        program: string_of(program),
        args,
        started_message: string_of(started),
        failure_prefix: string_of(failure),
    }
}

} // verus!
