//! Text as sequences of characters: the cutting, searching and comparing that
//! the report parsers are written with.
//!
//! Every function works on character slices, so a position always counts
//! characters and never falls inside one.
use vstd::prelude::*;
use vstd::slice::slice_subrange;

verus! {

/// `String::push`: appends the character to the end of the string.
pub assume_specification[ String::push ](s: &mut String, c: char)
    ensures
        final(s)@ == old(s)@.push(c),
;

// ── Strings and characters ──────────────────────────────────────────────
/// The characters of a string, in order.
pub fn chars_of(s: &str) -> (v: Vec<char>)
    ensures
        v@ == s@,
{
    let mut v: Vec<char> = Vec::new();
    for c in it: s.chars()
        invariant
            it.seq() == s@,
            v@ == it.seq().take(it.index() as int),
    {
        v.push(c);
    }
    v
}

/// Appends the characters to the string.
pub fn push_chars(s: &mut String, cs: &[char])
    ensures
        final(s)@ == old(s)@ + cs@,
{
    let mut i: usize = 0;
    while i < cs.len()
        invariant
            i <= cs@.len(),
            s@ == old(s)@ + cs@.take(i as int),
        decreases cs.len() - i,
    {
        s.push(cs[i]);
        i += 1;
    }
    assert(cs@.take(i as int) == cs@);
}

/// The string made of these characters.
pub fn string_of(cs: &[char]) -> (s: String)
    ensures
        s@ == cs@,
{
    let mut s = String::new();
    push_chars(&mut s, cs);
    s
}

/// What a list of slices holds, as plain sequences.
pub open spec fn views(v: Seq<&[char]>) -> Seq<Seq<char>> {
    Seq::new(v.len(), |i: int| v[i]@)
}

/// What a list of strings holds, as plain sequences.
pub open spec fn texts(v: Seq<String>) -> Seq<Seq<char>> {
    Seq::new(v.len(), |i: int| v[i]@)
}

/// A string that holds `n` spaces.
pub open spec fn spaces(n: nat) -> Seq<char> {
    Seq::new(n, |i: int| ' ')
}

// ── White space ─────────────────────────────────────────────────────────
/// The characters with the Unicode property White_Space.
pub open spec fn is_white(c: char) -> bool {
    let u = c as u32;
    ||| 0x09 <= u <= 0x0D
    ||| u == 0x20
    ||| u == 0x85
    ||| u == 0xA0
    ||| u == 0x1680
    ||| 0x2000 <= u <= 0x200A
    ||| u == 0x2028
    ||| u == 0x2029
    ||| u == 0x202F
    ||| u == 0x205F
    ||| u == 0x3000
}

pub fn white(c: char) -> (r: bool)
    ensures
        r == is_white(c),
{
    let u: u32 = c as u32;
    (0x09 <= u && u <= 0x0D) || u == 0x20 || u == 0x85 || u == 0xA0 || u == 0x1680 || (0x2000 <= u
        && u <= 0x200A) || u == 0x2028 || u == 0x2029 || u == 0x202F || u == 0x205F || u == 0x3000
}

/// The first position from `i` on that holds no white space, or the end.
pub open spec fn skip_white(s: Seq<char>, i: int) -> int
    decreases s.len() - i,
{
    if 0 <= i < s.len() && is_white(s[i]) {
        skip_white(s, i + 1)
    } else {
        i
    }
}

/// The end of `s[..j]` once white space is dropped from its tail.
pub open spec fn drop_white(s: Seq<char>, j: int) -> int
    decreases j,
{
    if 0 < j <= s.len() && is_white(s[j - 1]) {
        drop_white(s, j - 1)
    } else {
        j
    }
}

pub open spec fn trim_start(s: Seq<char>) -> Seq<char> {
    s.skip(skip_white(s, 0))
}

pub open spec fn trim_end(s: Seq<char>) -> Seq<char> {
    s.take(drop_white(s, s.len() as int))
}

/// The text without white space at either end.
pub open spec fn trim(s: Seq<char>) -> Seq<char> {
    trim_end(trim_start(s))
}

pub fn trim_start_of<'a>(s: &'a [char]) -> (r: &'a [char])
    ensures
        r@ == trim_start(s@),
{
    let mut i: usize = 0;
    while i < s.len() && white(s[i])
        invariant
            i <= s@.len(),
            skip_white(s@, 0) == skip_white(s@, i as int),
        decreases s.len() - i,
    {
        i += 1;
    }
    slice_subrange(s, i, s.len())
}

pub fn trim_end_of<'a>(s: &'a [char]) -> (r: &'a [char])
    ensures
        r@ == trim_end(s@),
{
    let mut j: usize = s.len();
    while j > 0 && white(s[j - 1])
        invariant
            j <= s@.len(),
            drop_white(s@, s@.len() as int) == drop_white(s@, j as int),
        decreases j,
    {
        j -= 1;
    }
    slice_subrange(s, 0, j)
}

pub fn trim_of<'a>(s: &'a [char]) -> (r: &'a [char])
    ensures
        r@ == trim(s@),
{
    trim_end_of(trim_start_of(s))
}

// ── Comparing ───────────────────────────────────────────────────────────
pub fn same(a: &[char], b: &[char]) -> (r: bool)
    ensures
        r == (a@ == b@),
{
    if a.len() != b.len() {
        return false;
    }
    let mut i: usize = 0;
    while i < a.len()
        invariant
            i <= a@.len() == b@.len(),
            forall|k: int| 0 <= k < i ==> a@[k] == b@[k],
        decreases a.len() - i,
    {
        if a[i] != b[i] {
            return false;
        }
        i += 1;
    }
    assert(a@ =~= b@);
    true
}

pub fn is_text(a: &[char], text: &str) -> (r: bool)
    ensures
        r == (a@ == text@),
{
    let b = chars_of(text);
    same(a, b.as_slice())
}

pub fn same_str(a: &str, b: &str) -> (r: bool)
    ensures
        r == (a@ == b@),
{
    let a = chars_of(a);
    is_text(a.as_slice(), b)
}

/// `s` begins with `prefix`.
pub open spec fn starts_with(s: Seq<char>, prefix: Seq<char>) -> bool {
    prefix.len() <= s.len() && s.take(prefix.len() as int) == prefix
}

/// `s` ends with `suffix`.
pub open spec fn ends_with(s: Seq<char>, suffix: Seq<char>) -> bool {
    suffix.len() <= s.len() && s.skip(s.len() - suffix.len()) == suffix
}

/// What follows `prefix` in `s`.
pub open spec fn strip_prefix(s: Seq<char>, prefix: Seq<char>) -> Option<Seq<char>> {
    if starts_with(s, prefix) {
        Some(s.skip(prefix.len() as int))
    } else {
        None
    }
}

/// `s[i..]` begins with `pat`.
pub fn matches_at(s: &[char], pat: &[char], i: usize) -> (r: bool)
    requires
        i <= s@.len(),
    ensures
        r == (i + pat@.len() <= s@.len() && s@.subrange(i as int, i + pat@.len()) == pat@),
{
    if pat.len() > s.len() - i {
        return false;
    }
    same(slice_subrange(s, i, i + pat.len()), pat)
}

pub fn strip_prefix_of<'a>(s: &'a [char], prefix: &str) -> (r: Option<&'a [char]>)
    ensures
        match r {
            Some(rest) => strip_prefix(s@, prefix@) == Some(rest@),
            None => strip_prefix(s@, prefix@) is None,
        },
{
    let p = chars_of(prefix);
    if matches_at(s, p.as_slice(), 0) {
        Some(slice_subrange(s, p.len(), s.len()))
    } else {
        None
    }
}

pub fn has_prefix(s: &[char], prefix: &str) -> (r: bool)
    ensures
        r == starts_with(s@, prefix@),
{
    let p = chars_of(prefix);
    matches_at(s, p.as_slice(), 0)
}

pub fn has_suffix(s: &[char], suffix: &str) -> (r: bool)
    ensures
        r == ends_with(s@, suffix@),
{
    let p = chars_of(suffix);
    if p.len() > s.len() {
        return false;
    }
    same(slice_subrange(s, s.len() - p.len(), s.len()), p.as_slice())
}

// ── Searching ───────────────────────────────────────────────────────────
/// The first position from `i` on that holds `c`, or the end.
pub open spec fn find_from(s: Seq<char>, c: char, i: int) -> int
    decreases s.len() - i,
{
    if 0 <= i < s.len() && s[i] != c {
        find_from(s, c, i + 1)
    } else {
        i
    }
}

pub open spec fn find(s: Seq<char>, c: char) -> int {
    find_from(s, c, 0)
}

pub fn find_char_from(s: &[char], c: char, from: usize) -> (r: usize)
    requires
        from <= s@.len(),
    ensures
        r == find_from(s@, c, from as int),
        from <= r <= s@.len(),
{
    let mut i: usize = from;
    while i < s.len() && s[i] != c
        invariant
            from <= i <= s@.len(),
            find_from(s@, c, from as int) == find_from(s@, c, i as int),
        decreases s.len() - i,
    {
        i += 1;
    }
    i
}

/// The text before and after the first `c`.
pub open spec fn split_once(s: Seq<char>, c: char) -> Option<(Seq<char>, Seq<char>)> {
    let i = find(s, c);
    if i < s.len() {
        Some((s.take(i), s.skip(i + 1)))
    } else {
        None
    }
}

pub fn split_once_of<'a>(s: &'a [char], c: char) -> (r: Option<(&'a [char], &'a [char])>)
    ensures
        match r {
            Some((a, b)) => split_once(s@, c) == Some((a@, b@)),
            None => split_once(s@, c) is None,
        },
{
    let i = find_char_from(s, c, 0);
    if i < s.len() {
        Some((slice_subrange(s, 0, i), slice_subrange(s, i + 1, s.len())))
    } else {
        None
    }
}

/// The first place from `i` on where `pat` stands in `s`.
pub open spec fn find_text_from(s: Seq<char>, pat: Seq<char>, i: int) -> Option<int>
    decreases s.len() + 1 - i,
{
    if i < 0 || i + pat.len() > s.len() {
        None
    } else if s.subrange(i, i + pat.len()) == pat {
        Some(i)
    } else {
        find_text_from(s, pat, i + 1)
    }
}

pub open spec fn find_text(s: Seq<char>, pat: Seq<char>) -> Option<int> {
    find_text_from(s, pat, 0)
}

/// `pat` stands somewhere in `s`.
pub open spec fn contains(s: Seq<char>, pat: Seq<char>) -> bool {
    find_text(s, pat) is Some
}

/// A text that a character does not occur in.
pub open spec fn lacks(s: Seq<char>, c: char) -> bool {
    forall|i: int| 0 <= i < s.len() ==> #[trigger] s[i] != c
}

pub proof fn lemma_lacking_is_not_contained(s: Seq<char>, pat: Seq<char>, i: int)
    requires
        0 <= i,
        pat.len() > 0,
        lacks(s, pat[0]),
    ensures
        find_text_from(s, pat, i) is None,
    decreases s.len() + 1 - i,
{
    if i + pat.len() <= s.len() {
        assert(s.subrange(i, i + pat.len())[0] == s[i]);
        lemma_lacking_is_not_contained(s, pat, i + 1);
    }
}

pub proof fn lemma_standing_is_contained(s: Seq<char>, pat: Seq<char>, i: int, at: int)
    requires
        0 <= i <= at,
        at + pat.len() <= s.len(),
        s.subrange(at, at + pat.len()) == pat,
    ensures
        find_text_from(s, pat, i) is Some,
    decreases at - i,
{
    if i < at {
        lemma_standing_is_contained(s, pat, i + 1, at);
    }
}

pub fn find_slice_from(s: &[char], pat: &[char], from: usize) -> (r: Option<usize>)
    requires
        from <= s@.len(),
    ensures
        match r {
            Some(k) => find_text_from(s@, pat@, from as int) == Some(k as int) && from <= k && k
                + pat@.len() <= s@.len(),
            None => find_text_from(s@, pat@, from as int) is None,
        },
{
    let mut i: usize = from;
    loop
        invariant
            from <= i <= s@.len(),
            find_text_from(s@, pat@, from as int) == find_text_from(s@, pat@, i as int),
        decreases s@.len() - i,
    {
        if pat.len() > s.len() - i {
            return None;
        }
        if matches_at(s, pat, i) {
            return Some(i);
        }
        assert(i < s@.len()) by {
            if i == s@.len() {
                assert(s@.subrange(i as int, i + pat@.len()) =~= pat@);
            }
        }
        i += 1;
    }
}

pub fn find_text_of(s: &[char], pat: &str) -> (r: Option<usize>)
    ensures
        match r {
            Some(k) => find_text(s@, pat@) == Some(k as int) && k + pat@.len() <= s@.len(),
            None => find_text(s@, pat@) is None,
        },
{
    let p = chars_of(pat);
    find_slice_from(s, p.as_slice(), 0)
}

pub fn has_text(s: &[char], pat: &str) -> (r: bool)
    ensures
        r == contains(s@, pat@),
{
    find_text_of(s, pat).is_some()
}

// ── What trimming and searching give ────────────────────────────────────
pub proof fn lemma_find_from(s: Seq<char>, c: char, i: int)
    requires
        0 <= i <= s.len(),
    ensures
        i <= find_from(s, c, i) <= s.len(),
        forall|k: int| i <= k < find_from(s, c, i) ==> #[trigger] s[k] != c,
        find_from(s, c, i) < s.len() ==> s[find_from(s, c, i)] == c,
    decreases s.len() - i,
{
    if i < s.len() && s[i] != c {
        lemma_find_from(s, c, i + 1);
    }
}

pub proof fn lemma_found_at(s: Seq<char>, c: char, i: int, at: int)
    requires
        0 <= i <= at <= s.len(),
        forall|k: int| i <= k < at ==> #[trigger] s[k] != c,
        at < s.len() ==> s[at] == c,
    ensures
        find_from(s, c, i) == at,
{
    lemma_find_from(s, c, i);
}

pub proof fn lemma_find_text_from(s: Seq<char>, pat: Seq<char>, i: int)
    requires
        0 <= i,
    ensures
        match find_text_from(s, pat, i) {
            Some(at) => {
                &&& i <= at
                &&& at + pat.len() <= s.len()
                &&& s.subrange(at, at + pat.len()) == pat
                &&& forall|k: int| i <= k < at ==> #[trigger] s.subrange(k, k + pat.len()) != pat
            },
            None => forall|k: int|
                i <= k && k + pat.len() <= s.len() ==> #[trigger] s.subrange(k, k + pat.len())
                    != pat,
        },
    decreases s.len() + 1 - i,
{
    if i + pat.len() <= s.len() && s.subrange(i, i + pat.len()) != pat {
        lemma_find_text_from(s, pat, i + 1);
    }
}

/// What follows a text does not move the first place of a pattern in it.
pub proof fn lemma_find_text_grows(s: Seq<char>, more: Seq<char>, pat: Seq<char>, i: int)
    requires
        0 <= i,
        find_text_from(s, pat, i) is Some,
    ensures
        find_text_from(s + more, pat, i) == find_text_from(s, pat, i),
    decreases s.len() + 1 - i,
{
    assert((s + more).subrange(i, i + pat.len()) =~= s.subrange(i, i + pat.len()));
    if s.subrange(i, i + pat.len()) != pat {
        lemma_find_text_grows(s, more, pat, i + 1);
    }
}

pub proof fn lemma_skip_white(s: Seq<char>, i: int)
    requires
        0 <= i <= s.len(),
    ensures
        i <= skip_white(s, i) <= s.len(),
        forall|k: int| i <= k < skip_white(s, i) ==> is_white(#[trigger] s[k]),
        skip_white(s, i) < s.len() ==> !is_white(s[skip_white(s, i)]),
    decreases s.len() - i,
{
    if i < s.len() && is_white(s[i]) {
        lemma_skip_white(s, i + 1);
    }
}

pub proof fn lemma_drop_white(s: Seq<char>, j: int)
    requires
        0 <= j <= s.len(),
    ensures
        0 <= drop_white(s, j) <= j,
        forall|k: int| drop_white(s, j) <= k < j ==> is_white(#[trigger] s[k]),
        drop_white(s, j) > 0 ==> !is_white(s[drop_white(s, j) - 1]),
    decreases j,
{
    if j > 0 && is_white(s[j - 1]) {
        lemma_drop_white(s, j - 1);
    }
}

/// A trimmed text neither begins nor ends with white space, and is made of
/// characters of the whole.
pub proof fn lemma_trim(s: Seq<char>)
    ensures
        trim(s).len() > 0 ==> !is_white(trim(s)[0]) && !is_white(trim(s).last()),
        forall|c: char| lacks(s, c) ==> #[trigger] lacks(trim(s), c),
{
    let a = skip_white(s, 0);
    lemma_skip_white(s, 0);
    let t = s.skip(a);
    lemma_drop_white(t, t.len() as int);
    assert forall|c: char| lacks(s, c) implies #[trigger] lacks(trim(s), c) by {
        assert forall|i: int| 0 <= i < trim(s).len() implies #[trigger] trim(s)[i] != c by {
            assert(trim(s)[i] == s[a + i]);
        }
    }
}

pub proof fn lemma_trim_twice(s: Seq<char>)
    ensures
        trim(trim(s)) == trim(s),
{
    let r = trim(s);
    lemma_trim(s);
    lemma_skip_white(r, 0);
    assert(skip_white(r, 0) == 0);
    assert(r.skip(0) =~= r);
    assert(drop_white(r, r.len() as int) == r.len());
    assert(r.take(r.len() as int) =~= r);
}

/// White space behind a text is trimmed away.
pub proof fn lemma_trim_drops_white(s: Seq<char>, w: char)
    requires
        is_white(w),
    ensures
        trim(s.push(w)) == trim(s),
{
    let long = s.push(w);
    let a = skip_white(s, 0);
    lemma_skip_white(s, 0);
    lemma_skip_white(long, 0);
    let b = skip_white(long, 0);
    if a < s.len() {
        assert(long[a] == s[a]);
        assert(b == a) by {
            if b < a {
                assert(is_white(s[b]));
                assert(long[b] == s[b]);
            }
        }
        let t = s.skip(a);
        let u = long.skip(a);
        assert(u =~= t.push(w));
        lemma_drop_white(t, t.len() as int);
        lemma_drop_white(u, t.len() as int);
        let d = drop_white(t, t.len() as int);
        let e = drop_white(u, t.len() as int);
        assert(drop_white(u, u.len() as int) == e);
        assert(d == e) by {
            if d < e {
                assert(is_white(t[e - 1]));
                assert(u[e - 1] == t[e - 1]);
            } else if e < d {
                assert(is_white(u[d - 1]));
                assert(u[d - 1] == t[d - 1]);
            }
        }
        assert(u.take(e) =~= t.take(d));
    } else {
        assert(b == long.len()) by {
            if b < s.len() {
                assert(long[b] == s[b]);
            }
        }
        assert(s.skip(a) =~= Seq::empty());
        assert(long.skip(b) =~= Seq::empty());
    }
}

// ── What cutting and searching mean ─────────────────────────────────────
/// White are the tabs and line ends of ASCII and its space, the next-line and no-break
/// controls, and the spaces and separators of the other scripts; letters, digits and the
/// other visible characters of ASCII are not.
pub proof fn law_white_space(c: char)
    ensures
        c == ' ' || c == '\t' || c == '\n' || c == '\r' || c == '\u{b}' || c == '\u{c}' ==> is_white(
            c,
        ),
        c == '\u{85}' || c == '\u{a0}' || c == '\u{1680}' || c == '\u{2028}' || c == '\u{2029}' || c
            == '\u{202f}' || c == '\u{205f}' || c == '\u{3000}' ==> is_white(c),
        '\u{2000}' <= c <= '\u{200a}' ==> is_white(c),
        is_white(c) && c > '\u{7f}' ==> c == '\u{85}' || c == '\u{a0}' || c == '\u{1680}'
            || '\u{2000}' <= c <= '\u{200a}' || c == '\u{2028}' || c == '\u{2029}' || c == '\u{202f}'
            || c == '\u{205f}' || c == '\u{3000}',
        is_white(c) && c <= '\u{7f}' ==> c == ' ' || '\t' <= c <= '\r',
        0x21 <= c as u32 <= 0x7E ==> !is_white(c),
{
}

/// Trimming takes white space away at both ends, all of it and nothing else.
pub proof fn law_trim(s: Seq<char>)
    ensures
        exists|i: int, j: int|
            #![trigger s.subrange(i, j)]
            0 <= i <= j <= s.len() && trim(s) == s.subrange(i, j) && (forall|k: int|
                0 <= k < i ==> is_white(#[trigger] s[k])) && (forall|k: int|
                j <= k < s.len() ==> is_white(#[trigger] s[k])),
        trim(s).len() > 0 ==> !is_white(trim(s)[0]) && !is_white(trim(s).last()),
{
    let i = skip_white(s, 0);
    lemma_skip_white(s, 0);
    let t = s.skip(i);
    lemma_drop_white(t, t.len() as int);
    let j = i + drop_white(t, t.len() as int);
    lemma_trim(s);
    assert(trim(s) =~= s.subrange(i, j));
    assert forall|k: int| j <= k < s.len() implies is_white(#[trigger] s[k]) by {
        assert(t[k - i] == s[k]);
    }
}

/// A text that neither begins nor ends in white space is trimmed to itself, with
/// whatever white space around it.
pub proof fn law_trim_finds_the_text(before: Seq<char>, s: Seq<char>, after: Seq<char>)
    requires
        s.len() > 0 ==> !is_white(s[0]) && !is_white(s.last()),
        forall|k: int| 0 <= k < before.len() ==> is_white(#[trigger] before[k]),
        forall|k: int| 0 <= k < after.len() ==> is_white(#[trigger] after[k]),
    ensures
        trim(before + s + after) == s,
{
    let all = before + s + after;
    let i = skip_white(all, 0);
    lemma_skip_white(all, 0);
    let n = before.len() as int;
    let m = n + s.len();
    assert forall|k: int| 0 <= k < n implies is_white(#[trigger] all[k]) by {
        assert(all[k] == before[k]);
    }
    assert forall|k: int| m <= k < all.len() implies is_white(#[trigger] all[k]) by {
        assert(all[k] == after[k - m]);
    }
    let t = all.skip(i);
    lemma_drop_white(t, t.len() as int);
    let d = drop_white(t, t.len() as int);
    if s.len() > 0 {
        assert(all[n] == s[0]);
        assert(all[m - 1] == s.last());
        assert(i == n);
        assert(t[m - n - 1] == all[m - 1]);
        if d > m - n {
            assert(t[d - 1] == all[i + d - 1]);
        }
        assert(d == m - n);
    } else {
        if i < all.len() {
            assert(is_white(all[i])) by {
                if i < n {
                } else {
                }
            }
        }
    }
    assert(trim(all) =~= s);
}

/// A text is cut at the first separator, which belongs to neither part; where there
/// is no separator there is no cut.
pub proof fn law_split_once(s: Seq<char>, c: char)
    ensures
        match split_once(s, c) {
            Some((a, b)) => s == a + seq![c] + b && lacks(a, c),
            None => lacks(s, c),
        },
{
    lemma_find_from(s, c, 0);
    let i = find(s, c);
    if i < s.len() {
        assert(s =~= s.take(i) + seq![c] + s.skip(i + 1));
        assert(lacks(s.take(i), c)) by {
            assert forall|k: int| 0 <= k < i implies #[trigger] s.take(i)[k] != c by {
                assert(s.take(i)[k] == s[k]);
            }
        }
    }
}

/// What is put together with a separator is cut apart there again, as long as the
/// first part does not hold the separator itself.
pub proof fn law_split_once_parts(a: Seq<char>, c: char, b: Seq<char>)
    requires
        lacks(a, c),
    ensures
        split_once(a + seq![c] + b, c) == Some((a, b)),
{
    let s = a + seq![c] + b;
    assert forall|k: int| 0 <= k < a.len() implies #[trigger] s[k] != c by {
        assert(s[k] == a[k]);
    }
    lemma_found_at(s, c, 0, a.len() as int);
    assert(s.take(a.len() as int) =~= a);
    assert(s.skip(a.len() as int + 1) =~= b);
}

/// A text holds another exactly where it is some text, then the other, then some
/// text.
pub proof fn law_contains(s: Seq<char>, pat: Seq<char>)
    ensures
        contains(s, pat) <==> exists|i: int|
            0 <= i && i + pat.len() <= s.len() && #[trigger] s.subrange(i, i + pat.len()) == pat,
{
    lemma_find_text_from(s, pat, 0);
}

/// Text around it hides nothing that a text holds.
pub proof fn law_contains_within(before: Seq<char>, pat: Seq<char>, after: Seq<char>)
    ensures
        contains(before + pat + after, pat),
{
    let s = before + pat + after;
    let at = before.len() as int;
    assert(s.subrange(at, at + pat.len()) =~= pat);
    lemma_standing_is_contained(s, pat, 0, at);
}

/// A prefix is what a text begins with, and taking it away leaves the rest.
pub proof fn law_prefix(prefix: Seq<char>, rest: Seq<char>, s: Seq<char>)
    ensures
        starts_with(prefix + rest, prefix),
        strip_prefix(prefix + rest, prefix) == Some(rest),
        strip_prefix(s, prefix) matches Some(r) ==> s == prefix + r,
        strip_prefix(s, prefix) is None ==> !starts_with(s, prefix),
{
    assert((prefix + rest).take(prefix.len() as int) =~= prefix);
    assert((prefix + rest).skip(prefix.len() as int) =~= rest);
    if starts_with(s, prefix) {
        assert(s =~= prefix + s.skip(prefix.len() as int));
    }
}

/// Nothing but white space.
pub open spec fn all_white(s: Seq<char>) -> bool {
    forall|i: int| 0 <= i < s.len() ==> is_white(#[trigger] s[i])
}

/// A text with something in it that neither begins nor ends in white space.
pub open spec fn is_trimmed(s: Seq<char>) -> bool {
    s.len() > 0 && !is_white(s[0]) && !is_white(s.last())
}

/// A line of a name, a colon and a value, with white space wherever it may stand.
pub open spec fn spaced_line(
    a: Seq<char>,
    name: Seq<char>,
    b: Seq<char>,
    c: Seq<char>,
    value: Seq<char>,
    d: Seq<char>,
) -> Seq<char> {
    a + name + b + seq![':'] + c + value + d
}

/// Such a line is cut into its name and its value, whatever the white space.
pub proof fn lemma_name_and_value(
    a: Seq<char>,
    name: Seq<char>,
    b: Seq<char>,
    c: Seq<char>,
    value: Seq<char>,
    d: Seq<char>,
)
    requires
        all_white(a) && all_white(b) && all_white(c) && all_white(d),
        is_trimmed(name),
        is_trimmed(value),
        lacks(name, ':'),
    ensures
        trim(spaced_line(a, name, b, c, value, d)) == name + b + seq![':'] + c + value,
        split_once(trim(spaced_line(a, name, b, c, value, d)), ':') == Some((name + b, c + value)),
        trim(name + b) == name,
        trim(c + value) == value,
{
    let core = name + b + seq![':'] + c + value;
    let none = Seq::<char>::empty();
    assert(spaced_line(a, name, b, c, value, d) =~= a + core + d);
    assert(core[0] == name[0]);
    assert(core.last() == value.last());
    law_trim_finds_the_text(a, core, d);
    let head = name + b;
    assert(lacks(head, ':')) by {
        assert forall|k: int| 0 <= k < head.len() implies #[trigger] head[k] != ':' by {
            if k < name.len() {
                assert(head[k] == name[k]);
            } else {
                assert(head[k] == b[k - name.len()]);
                assert(is_white(b[k - name.len()]));
            }
        }
    }
    assert(core =~= head + seq![':'] + (c + value));
    law_split_once_parts(head, ':', c + value);
    law_trim_finds_the_text(none, name, b);
    assert(none + name + b =~= name + b);
    law_trim_finds_the_text(c, value, none);
    assert(c + value + none =~= c + value);
}

/// So is one without a value: its value is empty.
pub proof fn lemma_name_without_value(a: Seq<char>, name: Seq<char>, b: Seq<char>, c: Seq<char>)
    requires
        all_white(a) && all_white(b) && all_white(c),
        is_trimmed(name),
        lacks(name, ':'),
    ensures
        split_once(trim(a + name + b + seq![':'] + c), ':') == Some((name + b, Seq::<char>::empty())),
        trim(name + b) == name,
        trim(Seq::<char>::empty()) == Seq::<char>::empty(),
{
    let none = Seq::<char>::empty();
    let head = name + b;
    let core = head + seq![':'];
    assert(a + name + b + seq![':'] + c =~= a + core + c);
    assert(core[0] == name[0]);
    law_trim_finds_the_text(a, core, c);
    assert(lacks(head, ':')) by {
        assert forall|k: int| 0 <= k < head.len() implies #[trigger] head[k] != ':' by {
            if k < name.len() {
                assert(head[k] == name[k]);
            } else {
                assert(head[k] == b[k - name.len()]);
                assert(is_white(b[k - name.len()]));
            }
        }
    }
    assert(core =~= head + seq![':'] + none);
    law_split_once_parts(head, ':', none);
    law_trim_finds_the_text(none, name, b);
    assert(none + name + b =~= name + b);
    law_trim_finds_the_text(none, none, none);
    assert(none + none + none =~= none);
}

/// Trimming a text that was trimmed at the front already gives the same.
pub proof fn lemma_trim_after_trim_start(s: Seq<char>)
    ensures
        trim(trim_start(s)) == trim(s),
{
    lemma_skip_white(s, 0);
    let t = trim_start(s);
    lemma_skip_white(t, 0);
    let i = skip_white(s, 0);
    if t.len() > 0 {
        assert(t[0] == s[i]);
    }
    assert(skip_white(t, 0) == 0);
    assert(t.skip(0) =~= t);
}

/// A line without the separator is not cut.
pub proof fn lemma_nothing_to_cut(line: Seq<char>, c: char)
    requires
        lacks(line, c),
    ensures
        split_once(trim(line), c) is None,
{
    lemma_trim(line);
    assert(lacks(trim(line), c));
    law_split_once(trim(line), c);
    if let Some((x, y)) = split_once(trim(line), c) {
        assert(trim(line)[x.len() as int] == c);
    }
}

} // verus!
