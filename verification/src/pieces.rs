//! Cutting a text into lines, fields and words, and putting pieces together.
use vstd::prelude::*;
use vstd::slice::slice_subrange;
use vstd::string::*;
use crate::text::{
    chars_of, find_char_from, find_from, find_slice_from, find_text, find_text_from, is_white,
    lacks, lemma_find_from, lemma_find_text_from, lemma_find_text_grows, lemma_found_at,
    lemma_skip_white, skip_white, texts, views, white,
};

verus! {

// ── Lines ───────────────────────────────────────────────────────────────
/// The line without the carriage return that ended it.
pub open spec fn without_cr(line: Seq<char>) -> Seq<char> {
    if line.len() > 0 && line.last() == '\r' {
        line.drop_last()
    } else {
        line
    }
}

/// The lines of `s[i..]`. A line ends at a line feed, and a carriage return
/// right before that line feed belongs to the line ending; what follows the
/// last line feed is a line of its own unless it is empty.
pub open spec fn lines_from(s: Seq<char>, i: int) -> Seq<Seq<char>>
    decreases s.len() - i,
{
    if i < 0 || i >= s.len() {
        Seq::empty()
    } else {
        let e = find_from(s, '\n', i);
        if i <= e < s.len() {
            seq![without_cr(s.subrange(i, e))] + lines_from(s, e + 1)
        } else {
            seq![s.subrange(i, s.len() as int)]
        }
    }
}

pub open spec fn lines(s: Seq<char>) -> Seq<Seq<char>> {
    lines_from(s, 0)
}

pub fn lines_of<'a>(s: &'a [char]) -> (v: Vec<&'a [char]>)
    ensures
        views(v@) == lines(s@),
{
    let mut v: Vec<&'a [char]> = Vec::new();
    let mut i: usize = 0;
    while i < s.len()
        invariant
            i <= s@.len(),
            views(v@) + lines_from(s@, i as int) == lines(s@),
        decreases s.len() - i,
    {
        let ghost before = views(v@);
        let e = find_char_from(s, '\n', i);
        if e < s.len() {
            let stop = if e > i && s[e - 1] == '\r' {
                e - 1
            } else {
                e
            };
            let line = slice_subrange(s, i, stop);
            assert(line@ =~= without_cr(s@.subrange(i as int, e as int)));
            v.push(line);
            assert(views(v@) =~= before.push(line@));
            assert(before + (seq![line@] + lines_from(s@, e + 1)) =~= before.push(line@)
                + lines_from(s@, e + 1));
            i = e + 1;
        } else {
            let line = slice_subrange(s, i, s.len());
            v.push(line);
            assert(views(v@) =~= before + seq![line@]);
            i = s.len();
        }
    }
    assert(views(v@) + lines_from(s@, i as int) =~= views(v@));
    v
}

/// Lines ended by a line feed stand apart from what follows them.
proof fn lemma_lines_behind(x: Seq<char>, y: Seq<char>, j: int)
    requires
        0 <= j <= y.len(),
    ensures
        lines_from(x + y, x.len() + j) == lines_from(y, j),
    decreases y.len() - j,
{
    if j < y.len() {
        let e = find_from(y, '\n', j);
        lemma_find_from(y, '\n', j);
        assert forall|k: int| x.len() + j <= k < x.len() + e implies #[trigger] (x + y)[k]
            != '\n' by {
            assert((x + y)[k] == y[k - x.len()]);
        }
        lemma_found_at(x + y, '\n', x.len() + j, x.len() + e);
        assert((x + y).subrange(x.len() + j, x.len() + e) =~= y.subrange(j, e));
        if e < y.len() {
            lemma_lines_behind(x, y, e + 1);
        }
    }
}

proof fn lemma_lines_before(x: Seq<char>, y: Seq<char>, i: int)
    requires
        0 <= i <= x.len(),
        x.len() > 0 ==> x.last() == '\n',
    ensures
        lines_from(x + y, i) == lines_from(x, i) + lines(y),
    decreases x.len() - i,
{
    if i == x.len() {
        lemma_lines_behind(x, y, 0);
        assert(lines_from(x, i) + lines(y) =~= lines(y));
    } else {
        let e = find_from(x, '\n', i);
        lemma_find_from(x, '\n', i);
        assert(e < x.len());
        assert forall|k: int| i <= k < e implies #[trigger] (x + y)[k] != '\n' by {
            assert((x + y)[k] == x[k]);
        }
        lemma_found_at(x + y, '\n', i, e);
        assert((x + y).subrange(i, e) =~= x.subrange(i, e));
        lemma_lines_before(x, y, e + 1);
        let first = seq![without_cr(x.subrange(i, e))];
        assert(first + (lines_from(x, e + 1) + lines(y)) =~= (first + lines_from(x, e + 1))
            + lines(y));
    }
}

/// A line between others, ended by a line feed, is one of the lines.
pub proof fn lemma_line_between(x: Seq<char>, line: Seq<char>, y: Seq<char>)
    requires
        x.len() > 0 ==> x.last() == '\n',
        lacks(line, '\n'),
    ensures
        lines(x + y) == lines(x) + lines(y),
        lines(x + line.push('\n') + y) == lines(x) + seq![without_cr(line)] + lines(y),
        lines(x + line) == if line.len() > 0 {
            lines(x) + seq![line]
        } else {
            lines(x)
        },
{
    let one = line.push('\n');
    lemma_found_at(one, '\n', 0, line.len() as int);
    assert(one.subrange(0, line.len() as int) =~= line);
    assert(lines_from(one, line.len() as int + 1) =~= Seq::empty());
    assert(lines(one) =~= seq![without_cr(line)]);
    lemma_lines_before(x, y, 0);
    lemma_lines_before(x, one, 0);
    lemma_lines_before(x + one, y, 0);
    lemma_lines_before(x, line, 0);
    if line.len() > 0 {
        lemma_found_at(line, '\n', 0, line.len() as int);
        assert(line.subrange(0, line.len() as int) =~= line);
    } else {
        assert(lines(x) + lines(line) =~= lines(x));
    }
}

/// No line holds a line feed.
pub proof fn lemma_lines_lack_feeds(s: Seq<char>, i: int)
    requires
        0 <= i,
    ensures
        forall|k: int| 0 <= k < lines_from(s, i).len() ==> lacks(#[trigger] lines_from(s, i)[k], '\n'),
    decreases s.len() - i,
{
    if i < s.len() {
        let e = find_from(s, '\n', i);
        lemma_find_from(s, '\n', i);
        let raw = s.subrange(i, e);
        assert(lacks(raw, '\n'));
        assert(lacks(without_cr(raw), '\n'));
        if e < s.len() {
            lemma_lines_lack_feeds(s, e + 1);
            let rest = lines_from(s, e + 1);
            assert forall|k: int| 0 <= k < lines_from(s, i).len() implies lacks(
                #[trigger] lines_from(s, i)[k],
                '\n',
            ) by {
                if k > 0 {
                    assert(lines_from(s, i)[k] == rest[k - 1]);
                }
            }
        }
    }
}

// ── Fields between separators ───────────────────────────────────────────
/// The fields of `s[i..]`, cut at every `c`.
pub open spec fn split_from(s: Seq<char>, c: char, i: int) -> Seq<Seq<char>>
    decreases s.len() - i,
{
    let e = find_from(s, c, i);
    if 0 <= i <= e < s.len() {
        seq![s.subrange(i, e)] + split_from(s, c, e + 1)
    } else {
        seq![s.subrange(i, s.len() as int)]
    }
}

/// The fields of `s`, cut at every `c`: always one more than there are cuts.
pub open spec fn split(s: Seq<char>, c: char) -> Seq<Seq<char>> {
    split_from(s, c, 0)
}

pub fn split_of<'a>(s: &'a [char], c: char) -> (v: Vec<&'a [char]>)
    ensures
        views(v@) == split(s@, c),
        v@.len() > 0,
{
    let mut v: Vec<&'a [char]> = Vec::new();
    let mut i: usize = 0;
    loop
        invariant
            i <= s@.len(),
            views(v@) + split_from(s@, c, i as int) == split(s@, c),
        decreases s@.len() - i,
    {
        let ghost before = views(v@);
        let e = find_char_from(s, c, i);
        let field = slice_subrange(s, i, e);
        v.push(field);
        assert(views(v@) =~= before.push(field@));
        if e >= s.len() {
            assert(before.push(field@) =~= before + split_from(s@, c, i as int));
            return v;
        }
        assert(before + (seq![field@] + split_from(s@, c, e + 1)) =~= before.push(field@)
            + split_from(s@, c, e + 1));
        i = e + 1;
    }
}

/// The fields of `s[i..]`, cut at every place where `pat` stands.
pub open spec fn split_text_from(s: Seq<char>, pat: Seq<char>, i: int) -> Seq<Seq<char>>
    decreases s.len() - i,
{
    match find_text_from(s, pat, i) {
        Some(e) => if 0 <= i <= e && 0 < pat.len() && e + pat.len() <= s.len() {
            seq![s.subrange(i, e)] + split_text_from(s, pat, e + pat.len())
        } else {
            seq![s.subrange(i, s.len() as int)]
        },
        None => seq![s.subrange(i, s.len() as int)],
    }
}

pub open spec fn split_text(s: Seq<char>, pat: Seq<char>) -> Seq<Seq<char>> {
    split_text_from(s, pat, 0)
}

pub fn split_text_of<'a>(s: &'a [char], pat: &[char]) -> (v: Vec<&'a [char]>)
    requires
        pat@.len() > 0,
    ensures
        views(v@) == split_text(s@, pat@),
{
    let mut v: Vec<&'a [char]> = Vec::new();
    let end: usize = s.len();
    let mut i: usize = 0;
    loop
        invariant
            i <= end == s@.len(),
            pat@.len() > 0,
            views(v@) + split_text_from(s@, pat@, i as int) == split_text(s@, pat@),
        decreases s@.len() - i,
    {
        let ghost before = views(v@);
        match find_slice_from(s, pat, i) {
            Some(e) => {
                let field = slice_subrange(s, i, e);
                v.push(field);
                assert(views(v@) =~= before.push(field@));
                assert(before + (seq![field@] + split_text_from(s@, pat@, e + pat@.len()))
                    =~= before.push(field@) + split_text_from(s@, pat@, e + pat@.len()));
                i = e + pat.len();
            },
            None => {
                let field = slice_subrange(s, i, end);
                v.push(field);
                assert(views(v@) =~= before + seq![field@]);
                return v;
            },
        }
    }
}

// ── Words ───────────────────────────────────────────────────────────────
/// The first position from `i` on that holds white space, or the end.
pub open spec fn word_end(s: Seq<char>, i: int) -> int
    decreases s.len() - i,
{
    if 0 <= i < s.len() && !is_white(s[i]) {
        word_end(s, i + 1)
    } else {
        i
    }
}

/// The words of `s[i..]`: its longest runs without white space.
pub open spec fn words_from(s: Seq<char>, i: int) -> Seq<Seq<char>>
    decreases s.len() - i,
{
    let a = skip_white(s, i);
    let b = word_end(s, a);
    if 0 <= i <= a && a < b <= s.len() {
        seq![s.subrange(a, b)] + words_from(s, b)
    } else {
        Seq::empty()
    }
}

pub open spec fn words(s: Seq<char>) -> Seq<Seq<char>> {
    words_from(s, 0)
}

proof fn lemma_word_end_range(s: Seq<char>, i: int)
    requires
        0 <= i <= s.len(),
    ensures
        i <= word_end(s, i) <= s.len(),
        i < s.len() && !is_white(s[i]) ==> i < word_end(s, i),
    decreases s.len() - i,
{
    if i < s.len() && !is_white(s[i]) {
        lemma_word_end_range(s, i + 1);
    }
}

pub fn words_of<'a>(s: &'a [char]) -> (v: Vec<&'a [char]>)
    ensures
        views(v@) == words(s@),
{
    let mut v: Vec<&'a [char]> = Vec::new();
    let mut i: usize = 0;
    loop
        invariant
            i <= s@.len(),
            views(v@) + words_from(s@, i as int) == words(s@),
        decreases s@.len() - i,
    {
        let ghost before = views(v@);
        let mut a: usize = i;
        while a < s.len() && white(s[a])
            invariant
                i <= a <= s@.len(),
                skip_white(s@, i as int) == skip_white(s@, a as int),
            decreases s.len() - a,
        {
            a += 1;
        }
        if a >= s.len() {
            assert(views(v@) + words_from(s@, i as int) =~= views(v@));
            return v;
        }
        let mut b: usize = a;
        while b < s.len() && !white(s[b])
            invariant
                a <= b <= s@.len(),
                word_end(s@, a as int) == word_end(s@, b as int),
            decreases s.len() - b,
        {
            b += 1;
        }
        proof {
            lemma_word_end_range(s@, a as int);
        }
        let word = slice_subrange(s, a, b);
        v.push(word);
        assert(views(v@) =~= before.push(word@));
        assert(before + (seq![word@] + words_from(s@, b as int)) =~= before.push(word@)
            + words_from(s@, b as int));
        i = b;
    }
}

// ── Joining ─────────────────────────────────────────────────────────────
/// The pieces one after the other, with `sep` between neighbours.
pub open spec fn join(pieces: Seq<Seq<char>>, sep: Seq<char>) -> Seq<char>
    decreases pieces.len(),
{
    if pieces.len() == 0 {
        Seq::empty()
    } else if pieces.len() == 1 {
        pieces[0]
    } else {
        join(pieces.drop_last(), sep) + sep + pieces.last()
    }
}

pub fn join_of(pieces: &Vec<String>, sep: &str) -> (s: String)
    ensures
        s@ == join(texts(pieces@), sep@),
{
    let mut s = String::new();
    let mut i: usize = 0;
    while i < pieces.len()
        invariant
            i <= pieces@.len(),
            s@ == join(texts(pieces@).take(i as int), sep@),
        decreases pieces.len() - i,
    {
        assert(texts(pieces@).take(i + 1).drop_last() =~= texts(pieces@).take(i as int));
        if i > 0 {
            s.append(sep);
        }
        s.append(pieces[i].as_str());
        assert(i == 0 ==> s@ =~= pieces@[0]@);
        i += 1;
    }
    assert(texts(pieces@).take(i as int) =~= texts(pieces@));
    s
}

// ── Letter case ─────────────────────────────────────────────────────────
/// The letter in lower case, where it is one of `A` to `Z`.
pub open spec fn ascii_lower(c: char) -> char {
    if 'A' <= c <= 'Z' {
        (c as u32 + 32) as char
    } else {
        c
    }
}

/// The letter in upper case, where it is one of `a` to `z`.
pub open spec fn ascii_upper(c: char) -> char {
    if 'a' <= c <= 'z' {
        (c as u32 - 32) as char
    } else {
        c
    }
}

pub open spec fn lower(s: Seq<char>) -> Seq<char> {
    Seq::new(s.len(), |i: int| ascii_lower(s[i]))
}

pub open spec fn upper(s: Seq<char>) -> Seq<char> {
    Seq::new(s.len(), |i: int| ascii_upper(s[i]))
}

/// Equal but for the case of the letters `A` to `Z`.
pub open spec fn same_ignoring_case(a: Seq<char>, b: Seq<char>) -> bool {
    lower(a) == lower(b)
}

fn lower_char(c: char) -> (r: char)
    ensures
        r == ascii_lower(c),
{
    if 'A' <= c && c <= 'Z' {
        (c as u8 + 32) as char
    } else {
        c
    }
}

fn upper_char(c: char) -> (r: char)
    ensures
        r == ascii_upper(c),
{
    if 'a' <= c && c <= 'z' {
        (c as u8 - 32) as char
    } else {
        c
    }
}

pub fn lower_of(s: &[char]) -> (v: Vec<char>)
    ensures
        v@ == lower(s@),
{
    let mut v: Vec<char> = Vec::new();
    let mut i: usize = 0;
    while i < s.len()
        invariant
            i <= s@.len(),
            v@ == lower(s@).take(i as int),
        decreases s.len() - i,
    {
        v.push(lower_char(s[i]));
        i += 1;
    }
    v
}

pub fn upper_of(s: &[char]) -> (v: Vec<char>)
    ensures
        v@ == upper(s@),
{
    let mut v: Vec<char> = Vec::new();
    let mut i: usize = 0;
    while i < s.len()
        invariant
            i <= s@.len(),
            v@ == upper(s@).take(i as int),
        decreases s.len() - i,
    {
        v.push(upper_char(s[i]));
        i += 1;
    }
    v
}

pub fn is_text_ignoring_case(s: &[char], text: &str) -> (r: bool)
    ensures
        r == same_ignoring_case(s@, text@),
{
    let t = chars_of(text);
    if s.len() != t.len() {
        assert(lower(s@).len() != lower(t@).len());
        return false;
    }
    let mut i: usize = 0;
    while i < s.len()
        invariant
            i <= s@.len() == t@.len(),
            t@ == text@,
            forall|k: int| 0 <= k < i ==> ascii_lower(s@[k]) == ascii_lower(t@[k]),
        decreases s.len() - i,
    {
        if lower_char(s[i]) != lower_char(t[i]) {
            assert(lower(s@)[i as int] != lower(t@)[i as int]);
            return false;
        }
        i += 1;
    }
    assert(lower(s@) =~= lower(t@));
    true
}

// ── Dropping a run of characters at one end ─────────────────────────────
/// The text without the run of `c` that it begins with.
pub open spec fn drop_leading(s: Seq<char>, c: char) -> Seq<char>
    decreases s.len(),
{
    if s.len() > 0 && s[0] == c {
        drop_leading(s.skip(1), c)
    } else {
        s
    }
}

pub fn drop_leading_of<'a>(s: &'a [char], c: char) -> (r: &'a [char])
    ensures
        r@ == drop_leading(s@, c),
{
    let mut i: usize = 0;
    assert(s@.skip(0) =~= s@);
    while i < s.len() && s[i] == c
        invariant
            i <= s@.len(),
            drop_leading(s@, c) == drop_leading(s@.skip(i as int), c),
        decreases s.len() - i,
    {
        assert(s@.skip(i as int).skip(1) =~= s@.skip(i + 1));
        i += 1;
    }
    slice_subrange(s, i, s.len())
}

/// The text without the run of `c` and `d` that it ends with.
pub open spec fn drop_trailing(s: Seq<char>, c: char, d: char) -> Seq<char>
    decreases s.len(),
{
    if s.len() > 0 && (s.last() == c || s.last() == d) {
        drop_trailing(s.drop_last(), c, d)
    } else {
        s
    }
}

pub fn drop_trailing_of<'a>(s: &'a [char], c: char, d: char) -> (r: &'a [char])
    ensures
        r@ == drop_trailing(s@, c, d),
{
    let mut j: usize = s.len();
    assert(s@.take(j as int) =~= s@);
    while j > 0 && (s[j - 1] == c || s[j - 1] == d)
        invariant
            j <= s@.len(),
            drop_trailing(s@, c, d) == drop_trailing(s@.take(j as int), c, d),
        decreases j,
    {
        assert(s@.take(j as int).drop_last() =~= s@.take(j - 1));
        j -= 1;
    }
    slice_subrange(s, 0, j)
}

/// The text with every `from` replaced by `to`.
pub open spec fn replace(s: Seq<char>, from: char, to: char) -> Seq<char> {
    Seq::new(
        s.len(),
        |i: int|
            if s[i] == from {
                to
            } else {
                s[i]
            },
    )
}

pub fn replace_of(s: &[char], from: char, to: char) -> (r: String)
    ensures
        r@ == replace(s@, from, to),
{
    let mut r = String::new();
    let mut i: usize = 0;
    while i < s.len()
        invariant
            i <= s@.len(),
            r@ == replace(s@, from, to).take(i as int),
        decreases s.len() - i,
    {
        if s[i] == from {
            r.push(to);
        } else {
            r.push(s[i]);
        }
        i += 1;
    }
    assert(replace(s@, from, to).take(i as int) =~= replace(s@, from, to));
    r
}

// ── How pieces fit together ─────────────────────────────────────────────
proof fn lemma_split_behind(x: Seq<char>, y: Seq<char>, c: char, j: int)
    requires
        0 <= j <= y.len(),
    ensures
        split_from(x + y, c, x.len() + j) == split_from(y, c, j),
    decreases y.len() - j,
{
    let e = find_from(y, c, j);
    lemma_find_from(y, c, j);
    let all = x + y;
    assert forall|k: int| x.len() + j <= k < x.len() + e implies #[trigger] all[k] != c by {
        assert(all[k] == y[k - x.len()]);
    }
    lemma_found_at(all, c, x.len() + j, x.len() + e);
    assert(all.subrange(x.len() + j, x.len() + e) =~= y.subrange(j, e));
    if e < y.len() {
        lemma_split_behind(x, y, c, e + 1);
    }
}

proof fn lemma_split_before(a: Seq<char>, c: char, b: Seq<char>, i: int)
    requires
        0 <= i <= a.len(),
    ensures
        split_from(a + seq![c] + b, c, i) == split_from(a, c, i) + split(b, c),
    decreases a.len() - i,
{
    let all = a + seq![c] + b;
    let e = find_from(a, c, i);
    lemma_find_from(a, c, i);
    assert forall|k: int| i <= k < e implies #[trigger] all[k] != c by {
        assert(all[k] == a[k]);
    }
    lemma_found_at(all, c, i, e);
    assert(all.subrange(i, e) =~= a.subrange(i, e));
    if e < a.len() {
        lemma_split_before(a, c, b, e + 1);
        let first = seq![a.subrange(i, e)];
        assert(first + (split_from(a, c, e + 1) + split(b, c)) =~= (first + split_from(
            a,
            c,
            e + 1,
        )) + split(b, c));
    } else {
        let x = a + seq![c];
        assert(all =~= x + b);
        lemma_split_behind(x, b, c, 0);
        assert(a.subrange(i, a.len() as int) =~= a.subrange(i, e));
    }
}

/// Two texts with the separator between them have the fields of the one and then
/// those of the other; a text without the separator is one field.
pub proof fn law_split_adds(a: Seq<char>, c: char, b: Seq<char>)
    ensures
        split(a + seq![c] + b, c) == split(a, c) + split(b, c),
        lacks(a, c) ==> split(a, c) == seq![a],
{
    lemma_split_before(a, c, b, 0);
    if lacks(a, c) {
        lemma_found_at(a, c, 0, a.len() as int);
        assert(a.subrange(0, a.len() as int) =~= a);
    }
}

/// Pieces that were joined with a separator which none of them holds are the fields
/// of the whole.
pub proof fn law_split_undoes_join(pieces: Seq<Seq<char>>, c: char)
    requires
        pieces.len() > 0,
        forall|i: int| 0 <= i < pieces.len() ==> lacks(#[trigger] pieces[i], c),
    ensures
        split(join(pieces, seq![c]), c) == pieces,
    decreases pieces.len(),
{
    if pieces.len() == 1 {
        law_split_adds(pieces[0], c, Seq::empty());
        assert(seq![pieces[0]] =~= pieces);
    } else {
        let rest = pieces.drop_last();
        assert forall|i: int| 0 <= i < rest.len() implies lacks(#[trigger] rest[i], c) by {
            assert(rest[i] == pieces[i]);
        }
        law_split_undoes_join(rest, c);
        assert(pieces.last() == pieces[pieces.len() - 1]);
        law_split_adds(join(rest, seq![c]), c, pieces.last());
        law_split_adds(pieces.last(), c, Seq::empty());
        assert(rest + seq![pieces.last()] =~= pieces);
    }
}

/// The fields of a text, joined with the separator again, are the text.
pub proof fn law_join_undoes_split(s: Seq<char>, c: char)
    ensures
        join(split(s, c), seq![c]) == s,
        forall|i: int| 0 <= i < split(s, c).len() ==> lacks(#[trigger] split(s, c)[i], c),
    decreases s.len(),
{
    lemma_find_from(s, c, 0);
    let e = find_from(s, c, 0);
    let a = s.subrange(0, e);
    assert(lacks(a, c)) by {
        assert forall|k: int| 0 <= k < a.len() implies #[trigger] a[k] != c by {
            assert(a[k] == s[k]);
        }
    }
    if e < s.len() {
        let b = s.skip(e + 1);
        assert(s =~= a + seq![c] + b);
        law_split_adds(a, c, b);
        law_join_undoes_split(b, c);
        lemma_split_not_empty(b, c);
        law_join_adds(seq![a], split(b, c), seq![c]);
        let all = split(s, c);
        assert forall|i: int| 0 <= i < all.len() implies lacks(#[trigger] all[i], c) by {
            if i > 0 {
                assert(all[i] == split(b, c)[i - 1]);
            }
        }
        assert(join(seq![a], seq![c]) == a);
    } else {
        assert(a =~= s);
        law_split_adds(s, c, Seq::empty());
    }
}

proof fn lemma_split_not_empty(s: Seq<char>, c: char)
    ensures
        split(s, c).len() > 0,
{
}

/// Two lists that are joined one after the other stand with one separator between
/// them.
pub proof fn law_join_adds(a: Seq<Seq<char>>, b: Seq<Seq<char>>, sep: Seq<char>)
    requires
        a.len() > 0,
        b.len() > 0,
    ensures
        join(a + b, sep) == join(a, sep) + sep + join(b, sep),
        a.len() == 1 ==> join(a, sep) == a[0],
    decreases b.len(),
{
    let all = a + b;
    assert(all.drop_last() =~= a + b.drop_last());
    if b.len() == 1 {
        assert(all.drop_last() =~= a);
        assert(join(all, sep) =~= join(a, sep) + sep + b[0]);
    } else {
        law_join_adds(a, b.drop_last(), sep);
        assert(join(all, sep) =~= join(a, sep) + sep + join(b, sep));
    }
}

proof fn lemma_word_end(s: Seq<char>, i: int)
    requires
        0 <= i <= s.len(),
    ensures
        i <= word_end(s, i) <= s.len(),
        forall|k: int| i <= k < word_end(s, i) ==> !is_white(#[trigger] s[k]),
        word_end(s, i) < s.len() ==> is_white(s[word_end(s, i)]),
    decreases s.len() - i,
{
    if i < s.len() && !is_white(s[i]) {
        lemma_word_end(s, i + 1);
    }
}

proof fn lemma_words_behind(x: Seq<char>, y: Seq<char>, j: int)
    requires
        0 <= j <= y.len(),
    ensures
        words_from(x + y, x.len() + j) == words_from(y, j),
    decreases y.len() - j,
{
    let all = x + y;
    let n = x.len() as int;
    let a = skip_white(y, j);
    let b = word_end(y, a);
    lemma_skip_white(y, j);
    lemma_word_end(y, a);
    lemma_skip_white(all, n + j);
    let a2 = skip_white(all, n + j);
    assert(a2 == n + a) by {
        if a2 < n + a {
            assert(all[a2] == y[a2 - n]);
        } else if a2 > n + a {
            assert(all[n + a] == y[a]);
        }
    }
    lemma_word_end(all, a2);
    let b2 = word_end(all, a2);
    assert(b2 == n + b) by {
        if b2 < n + b {
            assert(all[b2] == y[b2 - n]);
        } else if b2 > n + b {
            assert(all[n + b] == y[b]);
        }
    }
    if a < b {
        assert(all.subrange(a2, b2) =~= y.subrange(a, b));
        lemma_words_behind(x, y, b);
    }
}

proof fn lemma_words_before(x: Seq<char>, w: char, y: Seq<char>, i: int)
    requires
        0 <= i <= x.len(),
        is_white(w),
    ensures
        words_from(x + seq![w] + y, i) == words_from(x, i) + words(y),
    decreases x.len() - i,
{
    let all = x + seq![w] + y;
    let n = x.len() as int;
    lemma_skip_white(x, i);
    lemma_skip_white(all, i);
    let a = skip_white(x, i);
    let a2 = skip_white(all, i);
    if a < n {
        assert(a2 == a) by {
            if a2 < a {
                assert(all[a2] == x[a2]);
            } else if a2 > a {
                assert(all[a] == x[a]);
            }
        }
        lemma_word_end(x, a);
        lemma_word_end(all, a);
        let b = word_end(x, a);
        let b2 = word_end(all, a);
        assert(b2 == b) by {
            if b2 < b {
                assert(all[b2] == x[b2]);
            } else if b2 > b {
                if b < n {
                    assert(all[b] == x[b]);
                } else {
                    assert(all[b] == w);
                }
            }
        }
        assert(a < b) by {
            if b == a {
                assert(is_white(x[b]));
            }
        }
        assert(all.subrange(a, b) =~= x.subrange(a, b));
        lemma_words_before(x, w, y, b);
        let first = seq![x.subrange(a, b)];
        assert(first + (words_from(x, b) + words(y)) =~= (first + words_from(x, b)) + words(y));
    } else {
        let head = x.push(w);
        assert(all =~= head + y);
        lemma_words_behind(head, y, 0);
        lemma_skip_white(all, n + 1);
        let c = skip_white(all, n + 1);
        assert(a2 == c) by {
            if a2 < c {
                if a2 < n {
                    assert(all[a2] == x[a2]);
                } else if a2 == n {
                    assert(all[a2] == w);
                }
            }
        }
        lemma_word_end(x, a);
        assert(words_from(x, i) =~= Seq::empty());
        lemma_word_end(all, c);
        assert(words_from(all, i) == words_from(all, n + 1));
        assert(words_from(x, i) + words(y) =~= words(y));
    }
}

/// White space between two texts separates their words; a text without white space
/// is one word, and an empty one none.
pub proof fn law_words_add(x: Seq<char>, w: char, y: Seq<char>)
    requires
        is_white(w),
    ensures
        words(x + seq![w] + y) == words(x) + words(y),
        x.len() == 0 ==> words(x) == Seq::<Seq<char>>::empty(),
        x.len() > 0 && (forall|i: int| 0 <= i < x.len() ==> !is_white(#[trigger] x[i])) ==> words(
            x,
        ) == seq![x],
{
    lemma_words_before(x, w, y, 0);
    if x.len() > 0 && (forall|i: int| 0 <= i < x.len() ==> !is_white(#[trigger] x[i])) {
        lemma_skip_white(x, 0);
        assert(skip_white(x, 0) == 0);
        lemma_word_end(x, 0);
        assert(word_end(x, 0) == x.len());
        let n = x.len() as int;
        assert(x.subrange(0, n) =~= x);
        lemma_skip_white(x, n);
        lemma_word_end(x, n);
        assert(words_from(x, n) =~= Seq::empty());
        assert(words(x) =~= seq![x]);
    }
}

/// Only the letters `A` to `Z` have another lower case, and only `a` to `z` another
/// upper case, 32 places away.
pub proof fn law_letter_case(c: char)
    ensures
        65 <= c as u32 <= 90 ==> ascii_lower(c) as u32 == c as u32 + 32,
        !(65 <= c as u32 <= 90) ==> ascii_lower(c) == c,
        97 <= c as u32 <= 122 ==> ascii_upper(c) as u32 == c as u32 - 32,
        !(97 <= c as u32 <= 122) ==> ascii_upper(c) == c,
        ascii_lower(ascii_upper(c)) == ascii_lower(c),
        ascii_upper(ascii_lower(c)) == ascii_upper(c),
{
}

/// Texts are equal but for letter case exactly where they are equally long and so are
/// their characters, one by one.
pub proof fn law_same_ignoring_case(a: Seq<char>, b: Seq<char>)
    ensures
        same_ignoring_case(a, b) <==> a.len() == b.len() && (forall|i: int|
            0 <= i < a.len() ==> ascii_lower(#[trigger] a[i]) == ascii_lower(b[i])),
        same_ignoring_case(upper(a), a),
        same_ignoring_case(lower(a), a),
        upper(a).len() == a.len() && lower(a).len() == a.len(),
{
    if same_ignoring_case(a, b) {
        assert(lower(a).len() == lower(b).len());
        assert forall|i: int| 0 <= i < a.len() implies ascii_lower(#[trigger] a[i]) == ascii_lower(
            b[i],
        ) by {
            assert(lower(a)[i] == lower(b)[i]);
        }
    } else if a.len() == b.len() && (forall|i: int|
        0 <= i < a.len() ==> ascii_lower(#[trigger] a[i]) == ascii_lower(b[i])) {
        assert(lower(a) =~= lower(b));
    }
    assert(lower(upper(a)) =~= lower(a));
    assert(lower(lower(a)) =~= lower(a));
}

/// A run of one character goes away at the front, the whole of it and nothing more.
pub proof fn law_drop_leading(n: nat, c: char, s: Seq<char>)
    requires
        s.len() > 0 ==> s[0] != c,
    ensures
        drop_leading(Seq::new(n, |i: int| c) + s, c) == s,
    decreases n,
{
    let run = Seq::new(n, |i: int| c);
    if n > 0 {
        law_drop_leading((n - 1) as nat, c, s);
        assert((run + s).skip(1) =~= Seq::new((n - 1) as nat, |i: int| c) + s);
    } else {
        assert(run + s =~= s);
    }
}

/// A run of two characters goes away at the end, the whole of it and nothing more.
pub proof fn law_drop_trailing(s: Seq<char>, run: Seq<char>, c: char, d: char)
    requires
        s.len() > 0 ==> s.last() != c && s.last() != d,
        forall|i: int| 0 <= i < run.len() ==> #[trigger] run[i] == c || run[i] == d,
    ensures
        drop_trailing(s + run, c, d) == s,
    decreases run.len(),
{
    if run.len() > 0 {
        assert(run.last() == run[run.len() - 1]);
        assert((s + run).drop_last() =~= s + run.drop_last());
        assert((s + run).last() == run.last());
        assert forall|i: int| 0 <= i < run.drop_last().len() implies #[trigger] run.drop_last()[i]
            == c || run.drop_last()[i] == d by {
            assert(run.drop_last()[i] == run[i]);
        }
        law_drop_trailing(s, run.drop_last(), c, d);
    } else {
        assert(s + run =~= s);
    }
}

/// Replacing a character leaves all others as they are, in their places.
pub proof fn law_replace(s: Seq<char>, from: char, to: char)
    ensures
        replace(s, from, to).len() == s.len(),
        forall|i: int|
            0 <= i < s.len() ==> (s[i] == from ==> #[trigger] replace(s, from, to)[i] == to) && (
            s[i] != from ==> replace(s, from, to)[i] == s[i]),
        to != from ==> lacks(replace(s, from, to), from),
{
}

/// A line ends at a line feed, or at a carriage return and a line feed; the last line
/// of a text needs no such end, and an empty text has no line.
pub proof fn law_lines(line: Seq<char>, rest: Seq<char>)
    requires
        lacks(line, '\n'),
    ensures
        line.len() == 0 || line.last() != '\r' ==> lines(line + seq!['\n'] + rest) == seq![line]
            + lines(rest),
        lines(line + seq!['\r', '\n'] + rest) == seq![line] + lines(rest),
        line.len() > 0 ==> lines(line) == seq![line],
        lines(Seq::empty()) == Seq::<Seq<char>>::empty(),
{
    let none = Seq::<char>::empty();
    let cr = line.push('\r');
    assert(lacks(cr, '\n'));
    lemma_line_between(none, line, rest);
    lemma_line_between(none, cr, rest);
    assert(none + line.push('\n') + rest =~= line + seq!['\n'] + rest);
    assert(none + cr.push('\n') + rest =~= line + seq!['\r', '\n'] + rest);
    assert(none + line =~= line);
    assert(cr.drop_last() =~= line);
    assert(lines(none) + seq![line] =~= seq![line]);
}

proof fn lemma_find_text_behind(x: Seq<char>, s: Seq<char>, pat: Seq<char>, i: int)
    requires
        0 <= i,
    ensures
        find_text_from(x + s, pat, x.len() + i) == match find_text_from(s, pat, i) {
            Some(e) => Some(x.len() + e),
            None => None,
        },
    decreases s.len() + 1 - i,
{
    if i + pat.len() <= s.len() {
        let n = x.len() + i;
        assert((x + s).subrange(n, n + pat.len()) =~= s.subrange(i, i + pat.len()));
        if s.subrange(i, i + pat.len()) != pat {
            lemma_find_text_behind(x, s, pat, i + 1);
        }
    }
}

proof fn lemma_split_text_behind(x: Seq<char>, s: Seq<char>, pat: Seq<char>, i: int)
    requires
        0 <= i <= s.len(),
        pat.len() > 0,
    ensures
        split_text_from(x + s, pat, x.len() + i) == split_text_from(s, pat, i),
    decreases s.len() - i,
{
    lemma_find_text_behind(x, s, pat, i);
    lemma_find_text_from(s, pat, i);
    let n = x.len() + i;
    match find_text_from(s, pat, i) {
        Some(e) => {
            lemma_split_text_behind(x, s, pat, e + pat.len());
            assert((x + s).subrange(n, x.len() + e) =~= s.subrange(i, e));
        },
        None => {
            assert((x + s).subrange(n, (x + s).len() as int) =~= s.subrange(i, s.len() as int));
        },
    }
}

/// A text is cut at the first place where the pattern stands, and what follows is cut
/// in the same way; a text without the pattern is one piece.
pub proof fn law_split_text(a: Seq<char>, pat: Seq<char>, b: Seq<char>)
    requires
        pat.len() > 0,
    ensures
        find_text(a + pat, pat) == Some(a.len() as int) ==> split_text(a + pat + b, pat) == seq![a]
            + split_text(b, pat),
        find_text(a, pat) is None ==> split_text(a, pat) == seq![a],
{
    if find_text(a + pat, pat) == Some(a.len() as int) {
        let all = a + pat + b;
        lemma_find_text_grows(a + pat, b, pat, 0);
        assert(all.subrange(0, a.len() as int) =~= a);
        lemma_split_text_behind(a + pat, b, pat, 0);
    }
    assert(a.subrange(0, a.len() as int) =~= a);
}

} // verus!
