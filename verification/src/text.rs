use vstd::prelude::*;

verus! {

// ---------------------------------------------------------------------------
// Specifications over character sequences
// ---------------------------------------------------------------------------

/// `p` occurs in `s` starting at position `i`.
pub open spec fn occurs_at(s: Seq<char>, p: Seq<char>, i: int) -> bool {
    &&& 0 <= i
    &&& i + p.len() <= s.len()
    &&& s.subrange(i, i + p.len()) == p
}

/// `p` is a substring of `s`.
pub open spec fn has_substr(s: Seq<char>, p: Seq<char>) -> bool {
    exists|i: int| occurs_at(s, p, i)
}

pub open spec fn has_prefix(s: Seq<char>, p: Seq<char>) -> bool {
    p.len() <= s.len() && s.take(p.len() as int) == p
}

pub open spec fn has_suffix(s: Seq<char>, p: Seq<char>) -> bool {
    p.len() <= s.len() && s.skip(s.len() - p.len()) == p
}

/// The decimal digit character for `d < 10`.
pub open spec fn digit_char(d: nat) -> char {
    if d == 0 { '0' }
    else if d == 1 { '1' }
    else if d == 2 { '2' }
    else if d == 3 { '3' }
    else if d == 4 { '4' }
    else if d == 5 { '5' }
    else if d == 6 { '6' }
    else if d == 7 { '7' }
    else if d == 8 { '8' }
    else { '9' }
}

/// The decimal notation of `n`, without leading zeros.
pub open spec fn decimal(n: nat) -> Seq<char>
    decreases n,
{
    if n < 10 {
        seq![digit_char(n)]
    } else {
        decimal(n / 10).push(digit_char(n % 10))
    }
}

/// `s` preceded by as many `'0'` as it takes to reach `width` characters.
pub open spec fn zero_pad(s: Seq<char>, width: nat) -> Seq<char> {
    if s.len() >= width {
        s
    } else {
        Seq::new((width - s.len()) as nat, |i: int| '0') + s
    }
}

/// The decimal notation of `n` left-padded with zeros to at least `width` characters.
pub open spec fn padded_decimal(n: nat, width: nat) -> Seq<char> {
    zero_pad(decimal(n), width)
}

/// The Unicode `White_Space` property.
pub open spec fn is_white_space(c: char) -> bool {
    let u = c as u32;
    ||| 0x09 <= u <= 0x0d
    ||| u == 0x20
    ||| u == 0x85
    ||| u == 0xa0
    ||| u == 0x1680
    ||| 0x2000 <= u <= 0x200a
    ||| u == 0x2028
    ||| u == 0x2029
    ||| u == 0x202f
    ||| u == 0x205f
    ||| u == 0x3000
}

/// `s` without its leading white space.
pub open spec fn trim_start(s: Seq<char>) -> Seq<char>
    decreases s.len(),
{
    if s.len() > 0 && is_white_space(s[0]) {
        trim_start(s.drop_first())
    } else {
        s
    }
}

/// `s` without its trailing white space.
pub open spec fn trim_end(s: Seq<char>) -> Seq<char>
    decreases s.len(),
{
    if s.len() > 0 && is_white_space(s.last()) {
        trim_end(s.drop_last())
    } else {
        s
    }
}

/// `s` without leading and trailing white space.
pub open spec fn trim(s: Seq<char>) -> Seq<char> {
    trim_end(trim_start(s))
}

/// `s` without any trailing character that belongs to `set`.
pub open spec fn trim_end_of(s: Seq<char>, set: Seq<char>) -> Seq<char>
    decreases s.len(),
{
    if s.len() > 0 && set.contains(s.last()) {
        trim_end_of(s.drop_last(), set)
    } else {
        s
    }
}

/// The pieces of `s` between the characters of `delims`: `k` delimiters give `k + 1`
/// pieces, some of which may be empty.
pub open spec fn split_by(s: Seq<char>, delims: Seq<char>) -> Seq<Seq<char>>
    decreases s.len(),
{
    if s.len() == 0 {
        seq![Seq::<char>::empty()]
    } else {
        let rest = split_by(s.drop_last(), delims);
        if delims.contains(s.last()) {
            rest.push(Seq::<char>::empty())
        } else {
            rest.update(rest.len() - 1, rest.last().push(s.last()))
        }
    }
}

/// `parts` joined with `sep` between consecutive parts.
pub open spec fn join_with(parts: Seq<Seq<char>>, sep: Seq<char>) -> Seq<char>
    decreases parts.len(),
{
    if parts.len() == 0 {
        Seq::empty()
    } else if parts.len() == 1 {
        parts[0]
    } else {
        join_with(parts.drop_last(), sep) + sep + parts.last()
    }
}

pub proof fn lemma_split_by_nonempty(s: Seq<char>, delims: Seq<char>)
    ensures
        split_by(s, delims).len() >= 1,
    decreases s.len(),
{
    if s.len() > 0 {
        lemma_split_by_nonempty(s.drop_last(), delims);
    }
}

pub proof fn lemma_decimal_nonempty(n: nat)
    ensures
        decimal(n).len() >= 1,
    decreases n,
{
    if n >= 10 {
        lemma_decimal_nonempty(n / 10);
    }
}

// ---------------------------------------------------------------------------
// Executable helpers
// ---------------------------------------------------------------------------

/// The characters of a string, in order.
pub fn to_chars(s: &str) -> (v: Vec<char>)
    ensures
        v@ == s@,
{
    let mut v: Vec<char> = Vec::new();
    for c in it: s.chars()
        invariant
            v@ == it.seq().take(it.index() as int),
            it.seq() == s@,
    {
        v.push(c);
    }
    v
}

/// A `String` made of the given characters (`FromIterator<char>` of std).
#[verifier::external_body]
pub(crate) fn from_chars(v: &Vec<char>) -> (s: String)
    ensures
        s@ == v@,
{
    v.iter().collect()
}

/// Appends the characters of `s` to `out`.
pub fn push_str(out: &mut Vec<char>, s: &str)
    ensures
        final(out)@ == old(out)@ + s@,
{
    let cs = to_chars(s);
    push_all(out, &cs);
}

/// Appends the characters of `src` to `out`.
pub fn push_all(out: &mut Vec<char>, src: &Vec<char>)
    ensures
        final(out)@ == old(out)@ + src@,
{
    let ghost start = out@;
    let mut i: usize = 0;
    while i < src.len()
        invariant
            i <= src.len(),
            out@ == start + src@.take(i as int),
        decreases src.len() - i,
    {
        out.push(src[i]);
        i = i + 1;
        assert(out@ =~= start + src@.take(i as int));
    }
    assert(src@.take(i as int) =~= src@);
}

pub fn digit(d: u128) -> (c: char)
    requires
        d < 10,
    ensures
        c == digit_char(d as nat),
{
    if d == 0 { '0' }
    else if d == 1 { '1' }
    else if d == 2 { '2' }
    else if d == 3 { '3' }
    else if d == 4 { '4' }
    else if d == 5 { '5' }
    else if d == 6 { '6' }
    else if d == 7 { '7' }
    else if d == 8 { '8' }
    else { '9' }
}

/// Appends the decimal notation of `n`.
pub fn push_decimal(out: &mut Vec<char>, n: u128)
    ensures
        final(out)@ == old(out)@ + decimal(n as nat),
    decreases n,
{
    if n >= 10 {
        push_decimal(out, n / 10);
    }
    out.push(digit(n % 10));
    proof {
        if n >= 10 {
            assert(decimal(n as nat) == decimal((n / 10) as nat).push(digit_char((n % 10) as nat)));
        }
    }
    assert(out@ =~= old(out)@ + decimal(n as nat));
}

/// The decimal notation of `n`.
pub fn decimal_chars(n: u128) -> (v: Vec<char>)
    ensures
        v@ == decimal(n as nat),
{
    let mut v: Vec<char> = Vec::new();
    push_decimal(&mut v, n);
    assert(v@ =~= decimal(n as nat));
    v
}

/// Appends the decimal notation of `n`, zero-padded to `width` characters.
pub fn push_padded(out: &mut Vec<char>, n: u128, width: usize)
    ensures
        final(out)@ == old(out)@ + padded_decimal(n as nat, width as nat),
{
    let ghost start = out@;
    let digits = decimal_chars(n);
    if digits.len() < width {
        let pad = width - digits.len();
        let mut i: usize = 0;
        while i < pad
            invariant
                i <= pad,
                out@ == start + Seq::new(i as nat, |k: int| '0'),
            decreases pad - i,
        {
            out.push('0');
            i = i + 1;
            assert(out@ =~= start + Seq::new(i as nat, |k: int| '0'));
        }
    }
    push_all(out, &digits);
    assert(out@ =~= start + padded_decimal(n as nat, width as nat));
}

/// Whether the two character vectors are equal.
pub fn chars_eq(a: &Vec<char>, b: &Vec<char>) -> (r: bool)
    ensures
        r == (a@ == b@),
{
    if a.len() != b.len() {
        return false;
    }
    let mut i: usize = 0;
    while i < a.len()
        invariant
            i <= a.len(),
            a.len() == b.len(),
            a@.take(i as int) == b@.take(i as int),
        decreases a.len() - i,
    {
        if a[i] != b[i] {
            assert(a@[i as int] != b@[i as int]);
            return false;
        }
        assert(a@.take(i + 1) =~= a@.take(i as int).push(a@[i as int]));
        assert(b@.take(i + 1) =~= b@.take(i as int).push(b@[i as int]));
        i = i + 1;
    }
    assert(a@ =~= a@.take(i as int));
    assert(b@ =~= b@.take(i as int));
    true
}

/// Whether `v` spells the string `s`.
pub fn eq_str(v: &Vec<char>, s: &str) -> (r: bool)
    ensures
        r == (v@ == s@),
{
    let t = to_chars(s);
    chars_eq(v, &t)
}

/// Whether `p` occurs in `s` at position `i`.
pub fn matches_at(s: &Vec<char>, p: &Vec<char>, i: usize) -> (r: bool)
    ensures
        r == occurs_at(s@, p@, i as int),
{
    if i > s.len() || p.len() > s.len() - i {
        return false;
    }
    let mut k: usize = 0;
    while k < p.len()
        invariant
            k <= p.len(),
            i + p.len() <= s.len(),
            s@.subrange(i as int, i + k) == p@.take(k as int),
        decreases p.len() - k,
    {
        if s[i + k] != p[k] {
            assert(s@.subrange(i as int, i + p.len())[k as int] != p@[k as int]);
            return false;
        }
        assert(s@.subrange(i as int, i + k + 1) =~= s@.subrange(i as int, i + k).push(s@[i + k]));
        assert(p@.take(k + 1) =~= p@.take(k as int).push(p@[k as int]));
        k = k + 1;
    }
    assert(p@.take(k as int) =~= p@);
    true
}

/// Whether `p` is a substring of `s`.
pub fn contains_chars(s: &Vec<char>, p: &Vec<char>) -> (r: bool)
    ensures
        r == has_substr(s@, p@),
{
    if p.len() > s.len() {
        assert forall|i: int| !occurs_at(s@, p@, i) by {}
        return false;
    }
    let last = s.len() - p.len();
    let mut i: usize = 0;
    while i <= last
        invariant
            last == s.len() - p.len(),
            p.len() <= s.len(),
            forall|j: int| 0 <= j < i ==> !occurs_at(s@, p@, j),
        decreases last + 1 - i,
    {
        if matches_at(s, p, i) {
            return true;
        }
        if i == last {
            assert forall|j: int| !occurs_at(s@, p@, j) by {
                if 0 <= j <= i {
                }
            }
            return false;
        }
        i = i + 1;
    }
    false
}

/// Whether the string `p` is a substring of `s`.
pub fn contains_str(s: &Vec<char>, p: &str) -> (r: bool)
    ensures
        r == has_substr(s@, p@),
{
    let t = to_chars(p);
    contains_chars(s, &t)
}

/// Whether `s` begins with the string `p`.
pub fn starts_with_str(s: &Vec<char>, p: &str) -> (r: bool)
    ensures
        r == has_prefix(s@, p@),
{
    let t = to_chars(p);
    let r = matches_at(s, &t, 0);
    proof {
        if t@.len() <= s@.len() {
            assert(s@.take(t@.len() as int) =~= s@.subrange(0, t@.len() as int));
        }
    }
    r
}

/// Whether `s` ends with the string `p`.
pub fn ends_with_str(s: &Vec<char>, p: &str) -> (r: bool)
    ensures
        r == has_suffix(s@, p@),
{
    let t = to_chars(p);
    if t.len() > s.len() {
        return false;
    }
    let r = matches_at(s, &t, s.len() - t.len());
    proof {
        assert(s@.skip(s@.len() - t@.len()) =~= s@.subrange(s@.len() - t@.len(), s@.len() as int));
    }
    r
}

pub fn is_white_space_char(c: char) -> (r: bool)
    ensures
        r == is_white_space(c),
{
    let u = c as u32;
    (0x09 <= u && u <= 0x0d) || u == 0x20 || u == 0x85 || u == 0xa0 || u == 0x1680 || (0x2000 <= u
        && u <= 0x200a) || u == 0x2028 || u == 0x2029 || u == 0x202f || u == 0x205f || u == 0x3000
}

/// `s` without leading and trailing white space.
pub fn trimmed(s: &Vec<char>) -> (t: Vec<char>)
    ensures
        t@ == trim(s@),
{
    let mut lo: usize = 0;
    assert(s@.skip(0) =~= s@);
    while lo < s.len() && is_white_space_char(s[lo])
        invariant
            lo <= s.len(),
            trim_start(s@) == trim_start(s@.skip(lo as int)),
        decreases s.len() - lo,
    {
        assert(s@.skip(lo as int).drop_first() =~= s@.skip(lo + 1));
        lo = lo + 1;
    }
    assert(trim_start(s@) == s@.skip(lo as int));
    let mut hi: usize = s.len();
    while hi > lo && is_white_space_char(s[hi - 1])
        invariant
            lo <= hi <= s.len(),
            trim_end(s@.skip(lo as int)) == trim_end(s@.subrange(lo as int, hi as int)),
        decreases hi,
    {
        assert(s@.subrange(lo as int, hi as int).drop_last() =~= s@.subrange(lo as int, hi - 1));
        hi = hi - 1;
    }
    proof {
        let r = s@.subrange(lo as int, hi as int);
        if r.len() > 0 {
            assert(r.last() == s@[hi - 1]);
        }
        assert(s@.skip(lo as int) =~= s@.subrange(lo as int, s@.len() as int));
    }
    let mut t: Vec<char> = Vec::new();
    let mut k: usize = lo;
    while k < hi
        invariant
            lo <= k <= hi,
            hi <= s.len(),
            t@ == s@.subrange(lo as int, k as int),
        decreases hi - k,
    {
        t.push(s[k]);
        k = k + 1;
        assert(t@ =~= s@.subrange(lo as int, k as int));
    }
    t
}

/// Whether every character of `s` is ASCII.
pub open spec fn all_ascii(s: Seq<char>) -> bool {
    forall|i: int| 0 <= i < s.len() ==> (#[trigger] s[i] as u32) < 128
}

/// The ASCII lower-case form of a character: `A`..`Z` become `a`..`z`, all else stays.
pub open spec fn ascii_lower_char(c: char) -> char {
    if 65 <= (c as u32) && (c as u32) <= 90 {
        ((c as u32) + 32) as char
    } else {
        c
    }
}

/// The ASCII upper-case form of a character: `a`..`z` become `A`..`Z`, all else stays.
pub open spec fn ascii_upper_char(c: char) -> char {
    if 97 <= (c as u32) && (c as u32) <= 122 {
        ((c as u32) - 32) as char
    } else {
        c
    }
}

pub open spec fn ascii_lower(s: Seq<char>) -> Seq<char> {
    s.map_values(|c: char| ascii_lower_char(c))
}

pub open spec fn ascii_upper(s: Seq<char>) -> Seq<char> {
    s.map_values(|c: char| ascii_upper_char(c))
}

/// The Unicode lower-case mapping of a string, as computed by `str::to_lowercase` of std.
pub uninterp spec fn unicode_lowercase(s: Seq<char>) -> Seq<char>;

/// `str::to_lowercase` of std; its result is named `unicode_lowercase` of the argument.
/// On ASCII input the Unicode mapping turns `A`..`Z` into `a`..`z` and keeps every other
/// character, which the contract states too; beyond ASCII it states nothing of the mapping.
#[verifier::external_body]
pub(crate) fn to_lowercase(s: &str) -> (r: String)
    ensures
        r@ == unicode_lowercase(s@),
        all_ascii(s@) ==> r@ == ascii_lower(s@),
{
    s.to_lowercase()
}

/// The Unicode lower-case mapping of `v`.
pub fn lowercase_chars(v: &Vec<char>) -> (r: Vec<char>)
    ensures
        r@ == unicode_lowercase(v@),
        all_ascii(v@) ==> r@ == ascii_lower(v@),
{
    let s = from_chars(v);
    let l = to_lowercase(s.as_str());
    to_chars(l.as_str())
}

/// Whether `c` is one of the characters of `set`.
pub fn char_in(c: char, set: &Vec<char>) -> (r: bool)
    ensures
        r == set@.contains(c),
{
    let mut i: usize = 0;
    while i < set.len()
        invariant
            i <= set.len(),
            forall|j: int| 0 <= j < i ==> set@[j] != c,
        decreases set.len() - i,
    {
        if set[i] == c {
            assert(set@[i as int] == c);
            return true;
        }
        i = i + 1;
    }
    false
}

/// The character sequences held by a sequence of character vectors.
pub open spec fn views(v: Seq<Vec<char>>) -> Seq<Seq<char>> {
    v.map_values(|x: Vec<char>| x@)
}

/// The pieces of `s` between the characters of `delims`.
pub fn split_chars(s: &Vec<char>, delims: &Vec<char>) -> (parts: Vec<Vec<char>>)
    ensures
        views(parts@) == split_by(s@, delims@),
{
    let mut parts: Vec<Vec<char>> = Vec::new();
    let mut cur: Vec<char> = Vec::new();
    let mut i: usize = 0;
    assert(s@.take(0) =~= Seq::<char>::empty());
    assert(views(parts@).push(cur@) =~= split_by(s@.take(0), delims@));
    while i < s.len()
        invariant
            i <= s.len(),
            views(parts@).push(cur@) == split_by(s@.take(i as int), delims@),
        decreases s.len() - i,
    {
        let c = s[i];
        let ghost prefix = s@.take(i as int);
        let ghost next = s@.take(i + 1);
        assert(next.drop_last() =~= prefix);
        assert(next.last() == c);
        proof {
            lemma_split_by_nonempty(prefix, delims@);
        }
        if char_in(c, delims) {
            let ghost old_parts = views(parts@);
            let ghost old_cur = cur@;
            parts.push(cur);
            cur = Vec::new();
            assert(views(parts@) =~= old_parts.push(old_cur));
            assert(views(parts@).push(cur@) =~= split_by(next, delims@));
        } else {
            let ghost old_parts = views(parts@);
            cur.push(c);
            assert(views(parts@) == old_parts);
            assert(views(parts@).push(cur@) =~= split_by(prefix, delims@).update(
                split_by(prefix, delims@).len() - 1,
                split_by(prefix, delims@).last().push(c),
            ));
        }
        i = i + 1;
    }
    assert(s@.take(i as int) =~= s@);
    let ghost before = views(parts@);
    parts.push(cur);
    assert(views(parts@) =~= before.push(cur@));
    parts
}


/// An owned copy of `s`.
pub fn string_of(s: &str) -> (r: String)
    ensures
        r@ == s@,
{
    let v = to_chars(s);
    from_chars(&v)
}

pub open spec fn string_views(v: Seq<String>) -> Seq<Seq<char>> {
    v.map_values(|s: String| s@)
}

pub open spec fn str_views(v: Seq<&str>) -> Seq<Seq<char>> {
    v.map_values(|s: &str| s@)
}

/// Owned strings with the same text as `v`.
pub fn strings_of(v: &Vec<&str>) -> (r: Vec<String>)
    ensures
        string_views(r@) == str_views(v@),
{
    let mut r: Vec<String> = Vec::new();
    let mut i: usize = 0;
    while i < v.len()
        invariant
            i <= v.len(),
            r@.len() == i,
            forall|j: int| 0 <= j < i ==> #[trigger] r@[j]@ == v@[j]@,
        decreases v.len() - i,
    {
        let t = string_of(v[i]);
        r.push(t);
        i = i + 1;
    }
    assert(string_views(r@) =~= str_views(v@));
    r
}


/// The Unicode upper-case mapping of a string, as computed by `str::to_uppercase` of std.
pub uninterp spec fn unicode_uppercase(s: Seq<char>) -> Seq<char>;

/// `str::to_uppercase` of std; its result is named `unicode_uppercase` of the argument.
/// On ASCII input the Unicode mapping turns `a`..`z` into `A`..`Z` and keeps every other
/// character, which the contract states too; beyond ASCII it states nothing of the mapping.
#[verifier::external_body]
pub(crate) fn to_uppercase(s: &str) -> (r: String)
    ensures
        r@ == unicode_uppercase(s@),
        all_ascii(s@) ==> r@ == ascii_upper(s@),
{
    s.to_uppercase()
}

/// Appends copies of the strings of `tail` to `r`.
pub fn append_strings(r: &mut Vec<String>, tail: &Vec<String>)
    ensures
        string_views(final(r)@) == string_views(old(r)@) + string_views(tail@),
{
    let ghost start = r@;
    let mut k: usize = 0;
    while k < tail.len()
        invariant
            k <= tail.len(),
            r@.len() == start.len() + k,
            forall|j: int| 0 <= j < start.len() ==> #[trigger] r@[j] == start[j],
            forall|j: int| 0 <= j < k ==> #[trigger] r@[start.len() + j]@ == tail@[j]@,
        decreases tail.len() - k,
    {
        let s = tail[k].clone();
        r.push(s);
        assert(r@[start.len() + k]@ == tail@[k as int]@);
        k = k + 1;
    }
    assert forall|j: int| 0 <= j < r@.len() implies #[trigger] string_views(r@)[j] == (string_views(start) + string_views(tail@))[j] by {
        if j >= start.len() {
            assert(r@[start.len() + (j - start.len())]@ == tail@[j - start.len()]@);
        }
    }
    assert(string_views(r@) =~= string_views(start) + string_views(tail@));
}

/// `v` with three decimals, as in `-12.345` for `v == -12345`.
pub open spec fn fixed3(v: int) -> Seq<char> {
    let m: nat = (if v < 0 { -v } else { v }) as nat;
    (if v < 0 { seq!['-'] } else { Seq::empty() }) + decimal(m / 1000) + seq!['.'] + padded_decimal(
        m % 1000,
        3,
    )
}

/// `v / 1000` in shortest decimal form, as in `4`, `4.5` or `0.125`.
pub open spec fn milli_text(v: nat) -> Seq<char> {
    if v % 1000 == 0 {
        decimal(v / 1000)
    } else {
        decimal(v / 1000) + seq!['.'] + trim_end_of(padded_decimal(v % 1000, 3), seq!['0'])
    }
}

/// `v` without any trailing character of `set`.
pub fn trim_end_chars(v: &Vec<char>, set: &Vec<char>) -> (r: Vec<char>)
    ensures
        r@ == trim_end_of(v@, set@),
{
    let mut k: usize = v.len();
    assert(v@.take(k as int) =~= v@);
    while k > 0 && char_in(v[k - 1], set)
        invariant
            k <= v.len(),
            trim_end_of(v@, set@) == trim_end_of(v@.take(k as int), set@),
        decreases k,
    {
        assert(v@.take(k as int).drop_last() =~= v@.take(k - 1));
        k = k - 1;
    }
    if k > 0 {
        assert(v@.take(k as int).last() == v@[k - 1]);
    }
    let mut r: Vec<char> = Vec::new();
    let mut i: usize = 0;
    while i < k
        invariant
            i <= k <= v.len(),
            r@ == v@.take(i as int),
        decreases k - i,
    {
        r.push(v[i]);
        i = i + 1;
        assert(r@ =~= v@.take(i as int));
    }
    r
}

/// Appends `v` with three decimals.
pub fn push_fixed3(out: &mut Vec<char>, v: i128)
    requires
        v > i128::MIN,
    ensures
        final(out)@ == old(out)@ + fixed3(v as int),
{
    let ghost start = out@;
    let m: u128 = if v < 0 { (-v) as u128 } else { v as u128 };
    let ghost mm: nat = (if v < 0 { -(v as int) } else { v as int }) as nat;
    assert(m as nat == mm);
    if v < 0 {
        out.push('-');
    }
    let ghost s1 = out@;
    assert(s1 =~= start + (if v < 0 { seq!['-'] } else { Seq::empty() }));
    push_decimal(out, m / 1000);
    let ghost s2 = out@;
    assert(s2 == s1 + decimal(mm / 1000));
    out.push('.');
    let ghost s3 = out@;
    assert(s3 =~= s2 + seq!['.']);
    push_padded(out, m % 1000, 3);
    assert(out@ == s3 + padded_decimal(mm % 1000, 3));
    assert(out@ =~= start + fixed3(v as int));
}

/// Appends `v / 1000` in shortest decimal form.
pub fn push_milli(out: &mut Vec<char>, v: u32)
    ensures
        final(out)@ == old(out)@ + milli_text(v as nat),
{
    let ghost start = out@;
    push_decimal(out, (v / 1000) as u128);
    let ghost s1 = out@;
    assert(s1 == start + decimal((v as nat) / 1000));
    if v % 1000 != 0 {
        out.push('.');
        assert(out@ =~= s1 + seq!['.']);
        let mut frac: Vec<char> = Vec::new();
        push_padded(&mut frac, (v % 1000) as u128, 3);
        assert(frac@ =~= padded_decimal((v % 1000) as nat, 3));
        let zero = vec!['0'];
        assert(zero@ =~= seq!['0']);
        let t = trim_end_chars(&frac, &zero);
        let ghost s2 = out@;
        push_all(out, &t);
        assert(out@ =~= s1 + seq!['.'] + trim_end_of(padded_decimal((v as nat) % 1000, 3), seq!['0']));
    }
    assert(out@ =~= start + milli_text(v as nat));
}
} // verus!
