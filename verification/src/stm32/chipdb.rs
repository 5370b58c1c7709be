//! The optional external chip database: `.chip` files that add or override a
//! model. The built-in family table is the always-available base; a model with
//! a matching `.chip` definition takes priority over it.
use vstd::prelude::*;
use vstd::slice::slice_subrange;
use vstd::string::*;
use crate::number::{
    all_digits, digit_value, hex_upper, law_numbers, number, push_hex_upper, read_number, value_of,
};
use crate::pieces::{
    drop_trailing, drop_trailing_of, law_drop_trailing, law_words_add, lemma_line_between, lines,
    lines_of, replace, replace_of, without_cr, words, words_of,
};
use crate::stm32::{family, stm_family, RdpKind, StmFamily};
use crate::text::{
    chars_of, find, find_char_from, find_text, find_text_of, is_text, is_white, lacks,
    law_prefix, law_trim_finds_the_text, lemma_drop_white, lemma_find_from, lemma_find_text_from, lemma_find_text_grows, lemma_found_at,
    lemma_skip_white, lemma_trim_drops_white, skip_white, starts_with, strip_prefix, strip_prefix_of, trim,
    trim_of, views,
};

verus! {

/// A chip definition parsed from a `.chip` file. Only the fields this tool uses
/// are kept.
#[derive(Debug)]
pub struct ChipDef {
    pub dev_id: u16,
    pub name: String,
    pub flash_size_addr: Option<u32>,
    pub sram_kb: Option<u32>,
    pub source: String,
}

/// A chip definition with its strings as plain text.
pub struct ChipDefView {
    pub dev_id: u16,
    pub name: Seq<char>,
    pub flash_size_addr: Option<u32>,
    pub sram_kb: Option<u32>,
    pub source: Seq<char>,
}

impl View for ChipDef {
    type V = ChipDefView;

    open spec fn view(&self) -> ChipDefView {
        ChipDefView {
            dev_id: self.dev_id,
            name: self.name@,
            flash_size_addr: self.flash_size_addr,
            sram_kb: self.sram_kb,
            source: self.source@,
        }
    }
}

// ── Reading a definition ────────────────────────────────────────────────
/// The number that a `.chip` file writes as `0x...` hex or decimal; commas and
/// semicolons behind it do not count.
pub open spec fn chip_int(s: Seq<char>) -> Option<u32> {
    let t = drop_trailing(trim(s), ',', ';');
    let n = match strip_prefix(t, "0x"@) {
        Some(hex) => number(hex, 16, u32::MAX as nat),
        None => match strip_prefix(t, "0X"@) {
            Some(hex) => number(hex, 16, u32::MAX as nat),
            None => number(t, 10, u32::MAX as nat),
        },
    };
    match n {
        Some(v) => Some(v as u32),
        None => None,
    }
}

fn read_u32(s: &[char], base: u64) -> (r: Option<u32>)
    requires
        base == 10 || base == 16,
    ensures
        match r {
            Some(v) => number(s@, base as nat, u32::MAX as nat) == Some(v as nat),
            None => number(s@, base as nat, u32::MAX as nat) is None,
        },
{
    match read_number(s, base, 0xFFFF_FFFF) {
        Some(v) => Some(v as u32),
        None => None,
    }
}

fn chip_int_of(s: &[char]) -> (r: Option<u32>)
    ensures
        r == chip_int(s@),
{
    let t = drop_trailing_of(trim_of(s), ',', ';');
    if let Some(hex) = strip_prefix_of(t, "0x") {
        return read_u32(hex, 16);
    }
    if let Some(hex) = strip_prefix_of(t, "0X") {
        return read_u32(hex, 16);
    }
    read_u32(t, 10)
}

/// Parse a C-style integer as written in `.chip` files: `0x...` hex or decimal.
pub fn parse_chip_int(s: &str) -> (r: Option<u32>)
    ensures
        r == chip_int(s@),
{
    let s = chars_of(s);
    chip_int_of(s.as_slice())
}

/// What stands before the first `//`.
pub open spec fn before_slashes(s: Seq<char>) -> Seq<char> {
    match find_text(s, "//"@) {
        Some(i) => s.take(i),
        None => s,
    }
}

/// The line without its `// ...` or `# ...` comment and the white space around.
pub open spec fn uncommented(raw: Seq<char>) -> Seq<char> {
    let line = before_slashes(raw);
    trim(line.take(find(line, '#')))
}

/// The `i`-th word, or nothing where there are not so many.
pub open spec fn word(line: Seq<char>, i: int) -> Seq<char> {
    if i < words(line).len() {
        words(line)[i]
    } else {
        ""@
    }
}

/// The value that a file gives a key: the second word of the last line whose
/// first word is the key.
pub open spec fn chip_value(lines: Seq<Seq<char>>, key: Seq<char>) -> Option<Seq<char>>
    decreases lines.len(),
{
    if lines.len() == 0 {
        None
    } else {
        let line = uncommented(lines.last());
        if line.len() > 0 && word(line, 0) == key {
            Some(word(line, 1))
        } else {
            chip_value(lines.drop_last(), key)
        }
    }
}

/// The number that a file gives a key.
pub open spec fn chip_number(lines: Seq<Seq<char>>, key: Seq<char>) -> Option<u32> {
    match chip_value(lines, key) {
        Some(v) => chip_int(v),
        None => None,
    }
}

/// The definition that the lines of a file hold: the device it is about, a name that
/// falls back to the number of the device, and what it says of the flash and
/// the SRAM.
pub open spec fn definition(lines: Seq<Seq<char>>) -> Option<ChipDefView> {
    match chip_number(lines, "chip_id"@) {
        None => None,
        Some(id) => {
            let dev_id = id as u16;
            Some(
                ChipDefView {
                    dev_id,
                    name: match chip_value(lines, "dev_type"@) {
                        Some(v) => replace(v, '_', ' '),
                        None => "STM32 (chip_id 0x"@ + hex_upper(dev_id as nat, 3) + ")"@,
                    },
                    flash_size_addr: chip_number(lines, "flash_size_reg"@),
                    sram_kb: match chip_number(lines, "sram_size"@) {
                        Some(b) => Some(b / 1024),
                        None => None,
                    },
                    source: ""@,
                },
            )
        },
    }
}

/// The definition that a `.chip` file holds.
pub open spec fn chip_def(text: Seq<char>) -> Option<ChipDefView> {
    definition(lines(text))
}

fn uncommented_of<'a>(raw: &'a [char]) -> (line: &'a [char])
    ensures
        line@ == uncommented(raw@),
{
    let line = match find_text_of(raw, "//") {
        Some(i) => slice_subrange(raw, 0, i),
        None => raw,
    };
    assert(line@ =~= before_slashes(raw@));
    let stop = find_char_from(line, '#', 0);
    trim_of(slice_subrange(line, 0, stop))
}

fn word_of<'a>(words: &Vec<&'a [char]>, i: usize, none: &'a [char], Ghost(line): Ghost<
    Seq<char>,
>) -> (w: &'a [char])
    requires
        views(words@) == crate::pieces::words(line),
        none@ == ""@,
    ensures
        w@ == word(line, i as int),
{
    if i < words.len() {
        assert(views(words@)[i as int] == words@[i as int]@);
        words[i]
    } else {
        none
    }
}

/// Parse one `.chip` file's text. Returns `None` if it has no `chip_id`.
pub fn parse_chip_file(text: &str) -> (r: Option<ChipDef>)
    ensures
        match r {
            Some(def) => chip_def(text@) == Some(def@),
            None => chip_def(text@) is None,
        },
{
    let chars = chars_of(text);
    let none = chars_of("");
    let all = lines_of(chars.as_slice());
    let ghost seen = lines(text@);
    let mut dev_id: Option<u32> = None;
    let mut name: Option<String> = None;
    let mut flash_size_addr: Option<u32> = None;
    let mut sram_bytes: Option<u32> = None;
    let mut i: usize = 0;
    while i < all.len()
        invariant
            i <= all@.len(),
            views(all@) == seen,
            none@ == ""@,
            dev_id == chip_number(seen.take(i as int), "chip_id"@),
            match name {
                Some(n) => {
                    &&& chip_value(seen.take(i as int), "dev_type"@) matches Some(v)
                    &&& n@ == replace(v, '_', ' ')
                },
                None => chip_value(seen.take(i as int), "dev_type"@) is None,
            },
            flash_size_addr == chip_number(seen.take(i as int), "flash_size_reg"@),
            sram_bytes == chip_number(seen.take(i as int), "sram_size"@),
        decreases all.len() - i,
    {
        let line = uncommented_of(all[i]);
        assert(seen[i as int] == all@[i as int]@);
        assert(seen.take(i + 1).drop_last() =~= seen.take(i as int));
        assert(seen.take(i + 1).last() == seen[i as int]);
        proof {
            reveal_strlit("chip_id");
            reveal_strlit("dev_type");
            reveal_strlit("flash_size_reg");
            reveal_strlit("sram_size");
            assert("chip_id"@.len() == 7);
            assert("dev_type"@.len() == 8);
            assert("flash_size_reg"@.len() == 14);
            assert("sram_size"@.len() == 9);
        }
        i += 1;
        if line.len() == 0 {
            continue;
        }
        let parts = words_of(line);
        let key = word_of(&parts, 0, none.as_slice(), Ghost(line@));
        let val = word_of(&parts, 1, none.as_slice(), Ghost(line@));
        if is_text(key, "chip_id") {
            dev_id = chip_int_of(val);
        } else if is_text(key, "dev_type") {
            name = Some(replace_of(val, '_', ' '));
        } else if is_text(key, "flash_size_reg") {
            flash_size_addr = chip_int_of(val);
        } else if is_text(key, "sram_size") {
            sram_bytes = chip_int_of(val);
        }
    }
    assert(seen.take(i as int) =~= seen);
    match dev_id {
        None => None,
        Some(id) => {
            let dev_id: u16 = id as u16;
            let name = match name {
                Some(n) => n,
                None => {
                    let mut n = "STM32 (chip_id 0x".to_string();
                    push_hex_upper(&mut n, dev_id as u64, 3);
                    n.append(")");
                    n
                },
            };
            let sram_kb: Option<u32> = match sram_bytes {
                Some(b) => Some(b / 1024),
                None => None,
            };
            Some(ChipDef { dev_id, name, flash_size_addr, sram_kb, source: "".to_string() })
        },
    }
}

// ── What a file leaves open ─────────────────────────────────────────────
/// A line that says nothing: no word is left of it without its comment, or the
/// first word is not a key.
pub open spec fn says_nothing(line: Seq<char>) -> bool {
    uncommented(line).len() == 0 || {
        let key = word(uncommented(line), 0);
        key != "chip_id"@ && key != "dev_type"@ && key != "flash_size_reg"@ && key != "sram_size"@
    }
}

proof fn lemma_value_without(
    before: Seq<Seq<char>>,
    line: Seq<char>,
    after: Seq<Seq<char>>,
    key: Seq<char>,
)
    requires
        uncommented(line).len() == 0 || word(uncommented(line), 0) != key,
    ensures
        chip_value(before + seq![line] + after, key) == chip_value(before + after, key),
    decreases after.len(),
{
    let long = before + seq![line] + after;
    let short = before + after;
    if after.len() == 0 {
        assert(long.drop_last() =~= before);
        assert(short =~= before);
    } else {
        assert(long.drop_last() =~= before + seq![line] + after.drop_last());
        assert(short.drop_last() =~= before + after.drop_last());
        lemma_value_without(before, line, after.drop_last(), key);
    }
}

proof fn lemma_value_of_either(
    before: Seq<Seq<char>>,
    a: Seq<char>,
    b: Seq<char>,
    after: Seq<Seq<char>>,
    key: Seq<char>,
)
    requires
        uncommented(a) == uncommented(b),
    ensures
        chip_value(before + seq![a] + after, key) == chip_value(before + seq![b] + after, key),
    decreases after.len(),
{
    let one = before + seq![a] + after;
    let other = before + seq![b] + after;
    if after.len() == 0 {
        assert(one.drop_last() =~= before);
        assert(other.drop_last() =~= before);
    } else {
        assert(one.drop_last() =~= before + seq![a] + after.drop_last());
        assert(other.drop_last() =~= before + seq![b] + after.drop_last());
        lemma_value_of_either(before, a, b, after.drop_last(), key);
    }
}

proof fn lemma_definition_without(
    before: Seq<Seq<char>>,
    line: Seq<char>,
    after: Seq<Seq<char>>,
)
    requires
        says_nothing(line),
    ensures
        definition(before + seq![line] + after) == definition(before + after),
{
    lemma_value_without(before, line, after, "chip_id"@);
    lemma_value_without(before, line, after, "dev_type"@);
    lemma_value_without(before, line, after, "flash_size_reg"@);
    lemma_value_without(before, line, after, "sram_size"@);
}

proof fn lemma_definition_of_either(
    before: Seq<Seq<char>>,
    a: Seq<char>,
    b: Seq<char>,
    after: Seq<Seq<char>>,
)
    requires
        uncommented(a) == uncommented(b),
    ensures
        definition(before + seq![a] + after) == definition(before + seq![b] + after),
{
    lemma_value_of_either(before, a, b, after, "chip_id"@);
    lemma_value_of_either(before, a, b, after, "dev_type"@);
    lemma_value_of_either(before, a, b, after, "flash_size_reg"@);
    lemma_value_of_either(before, a, b, after, "sram_size"@);
}

/// No `//` begins inside `t` or across its end.
proof fn lemma_slashes_behind(t: Seq<char>, more: Seq<char>)
    requires
        find_text(t, "//"@) is None,
        more.len() > 0 && more[0] == '/' ==> t.len() == 0 || t.last() != '/',
    ensures
        forall|k: int|
            0 <= k < t.len() && k + 2 <= (t + more).len() ==> #[trigger] (t + more).subrange(k, k + 2)
                != "//"@,
{
    reveal_strlit("//");
    lemma_find_text_from(t, "//"@, 0);
    assert forall|k: int| 0 <= k < t.len() && k + 2 <= (t + more).len() implies #[trigger] (t
        + more).subrange(k, k + 2) != "//"@ by {
        let sub = (t + more).subrange(k, k + 2);
        if k + 2 <= t.len() {
            assert(sub =~= t.subrange(k, k + 2));
        } else {
            assert(sub[0] == t.last() && sub[1] == more[0]);
            assert("//"@[0] == '/' && "//"@[1] == '/');
        }
    }
}

/// What a text gives once a comment in `#` is put behind it.
proof fn lemma_hash_comment(t: Seq<char>, c: Seq<char>)
    ensures
        uncommented(t + seq!['#'] + c) == uncommented(t),
{
    reveal_strlit("//");
    let long = t + seq!['#'] + c;
    let tail = seq!['#'] + c;
    assert(long =~= t + tail);
    if find_text(t, "//"@) is Some {
        lemma_find_text_grows(t, tail, "//"@, 0);
        lemma_find_text_from(t, "//"@, 0);
        let i = find_text(t, "//"@)->0;
        assert(long.take(i) =~= t.take(i));
    } else {
        lemma_slashes_behind(t, tail);
        lemma_find_text_from(long, "//"@, 0);
        let line = before_slashes(long);
        assert(line.len() > t.len()) by {
            if let Some(i) = find_text(long, "//"@) {
                if i < t.len() {
                    assert(long.subrange(i, i + 2) != "//"@);
                } else if i == t.len() {
                    assert(long.subrange(i, i + 2)[0] == '#');
                }
            }
        }
        assert forall|k: int| 0 <= k < t.len() implies #[trigger] line[k] == t[k] by {}
        assert(line[t.len() as int] == '#');
        let f = find(t, '#');
        lemma_find_from(t, '#', 0);
        assert forall|k: int| 0 <= k < f implies #[trigger] line[k] != '#' by {
            assert(line[k] == t[k]);
        }
        assert(line[f] == '#');
        lemma_found_at(line, '#', 0, f);
        assert(line.take(f) =~= t.take(f));
    }
}

/// What a text gives once a comment in `//` is put behind it.
proof fn lemma_slash_comment(t: Seq<char>, c: Seq<char>)
    requires
        t.len() == 0 || t.last() != '/',
    ensures
        uncommented(t + seq!['/', '/'] + c) == uncommented(t),
{
    reveal_strlit("//");
    let tail = seq!['/', '/'] + c;
    let long = t + seq!['/', '/'] + c;
    assert(long =~= t + tail);
    lemma_find_text_from(t, "//"@, 0);
    if find_text(t, "//"@) is Some {
        lemma_find_text_grows(t, tail, "//"@, 0);
        let i = find_text(t, "//"@)->0;
        assert(long.take(i) =~= t.take(i));
    } else {
        lemma_slashes_behind(t, tail);
        lemma_find_text_from(long, "//"@, 0);
        let n = t.len() as int;
        assert(long.subrange(n, n + 2) =~= "//"@);
        let i = find_text(long, "//"@)->0;
        assert(i == n) by {
            if i < n {
                assert(long.subrange(i, i + 2) != "//"@);
            }
        }
        assert(long.take(n) =~= t);
    }
}

/// White space behind a line is no part of what it says.
proof fn lemma_white_behind(t: Seq<char>, w: char)
    requires
        is_white(w),
    ensures
        uncommented(t.push(w)) == uncommented(t),
{
    reveal_strlit("//");
    let long = t.push(w);
    let tail = seq![w];
    assert(long =~= t + tail);
    lemma_find_text_from(t, "//"@, 0);
    if find_text(t, "//"@) is Some {
        lemma_find_text_grows(t, tail, "//"@, 0);
        let i = find_text(t, "//"@)->0;
        assert(long.take(i) =~= t.take(i));
    } else {
        lemma_slashes_behind(t, tail);
        lemma_find_text_from(long, "//"@, 0);
        assert(find_text(long, "//"@) is None);
        let f = find(t, '#');
        lemma_find_from(t, '#', 0);
        assert forall|k: int| 0 <= k < f implies #[trigger] long[k] != '#' by {
            assert(long[k] == t[k]);
        }
        if f < t.len() {
            assert(long[f] == t[f]);
            lemma_found_at(long, '#', 0, f);
            assert(long.take(f) =~= t.take(f));
        } else {
            assert(long[f] == w);
            lemma_found_at(long, '#', 0, f + 1);
            assert(long.take(f + 1) =~= long);
            assert(t.take(f) =~= t);
            lemma_trim_drops_white(t, w);
        }
    }
}

proof fn lemma_return_behind(t: Seq<char>)
    ensures
        uncommented(without_cr(t)) == uncommented(t),
{
    if t.len() > 0 && t.last() == '\r' {
        assert(t =~= t.drop_last().push('\r'));
        lemma_white_behind(t.drop_last(), '\r');
    }
}

/// A blank line, and a line with nothing but a comment on it, say nothing.
pub proof fn law_blank_and_comment_lines_say_nothing(blank: Seq<char>, comment: Seq<char>)
    requires
        trim(blank).len() == 0,
    ensures
        says_nothing(blank),
        says_nothing(blank + seq!['#'] + comment),
        says_nothing(blank + seq!['/', '/'] + comment),
{
    reveal_strlit("//");
    lemma_skip_white(blank, 0);
    let a = skip_white(blank, 0);
    let rest = blank.skip(a);
    lemma_drop_white(rest, rest.len() as int);
    assert(a == blank.len()) by {
        if a < blank.len() {
            assert(is_white(rest[0]));
        }
    }
    lemma_find_text_from(blank, "//"@, 0);
    if let Some(i) = find_text(blank, "//"@) {
        assert(blank.subrange(i, i + 2)[0] == blank[i]);
    }
    lemma_found_at(blank, '#', 0, blank.len() as int);
    assert(blank.take(blank.len() as int) =~= blank);
    assert(uncommented(blank) == trim(blank));
    lemma_hash_comment(blank, comment);
    lemma_slash_comment(blank, comment);
}

proof fn lemma_empty_line_says_nothing()
    ensures
        says_nothing(Seq::empty()),
{
    let e = Seq::<char>::empty();
    assert(e.skip(0) =~= e);
    assert(trim(e).len() == 0);
    law_blank_and_comment_lines_say_nothing(e, e);
}

/// One line of a file stands for another that says the same.
proof fn lemma_file_with_either(before: Seq<char>, a: Seq<char>, b: Seq<char>, after: Seq<char>)
    requires
        before.len() > 0 ==> before.last() == '\n',
        lacks(a, '\n'),
        lacks(b, '\n'),
        uncommented(a) == uncommented(b),
    ensures
        chip_def(before + a.push('\n') + after) == chip_def(before + b.push('\n') + after),
{
    lemma_return_behind(a);
    lemma_return_behind(b);
    lemma_line_between(before, a, after);
    lemma_line_between(before, b, after);
    lemma_definition_of_either(lines(before), without_cr(a), without_cr(b), lines(after));
}

/// So does the last line, where no line feed ends it.
proof fn lemma_file_ending_in_either(before: Seq<char>, a: Seq<char>, b: Seq<char>)
    requires
        before.len() > 0 ==> before.last() == '\n',
        lacks(a, '\n'),
        lacks(b, '\n'),
        a.len() > 0,
        uncommented(a) == uncommented(b),
    ensures
        chip_def(before + a) == chip_def(before + b),
{
    let x = lines(before);
    let none = Seq::<Seq<char>>::empty();
    lemma_line_between(before, a, Seq::empty());
    lemma_line_between(before, b, Seq::empty());
    assert(x + seq![a] + none =~= x + seq![a]);
    assert(x + none =~= x);
    if b.len() > 0 {
        assert(x + seq![b] + none =~= x + seq![b]);
        lemma_definition_of_either(x, a, b, none);
    } else {
        assert(b =~= Seq::empty());
        lemma_empty_line_says_nothing();
        lemma_definition_without(x, a, none);
    }
}

/// A line says the same with a comment behind it.
pub proof fn law_comment_behind_a_line(line: Seq<char>, comment: Seq<char>)
    ensures
        uncommented(line + seq![' ', '#', ' '] + comment) == uncommented(line),
        uncommented(line + seq![' ', '/', '/', ' '] + comment) == uncommented(line),
{
    let t = line.push(' ');
    let c = seq![' '] + comment;
    lemma_white_behind(line, ' ');
    assert(line + seq![' ', '#', ' '] + comment =~= t + seq!['#'] + c);
    lemma_hash_comment(t, c);
    assert(line + seq![' ', '/', '/', ' '] + comment =~= t + seq!['/', '/'] + c);
    lemma_slash_comment(t, c);
}

/// Comments are ignored: text behind ` # ` or ` // ` on any line of a file changes
/// nothing in the definition, be it the last line or one between others.
pub proof fn law_comments_change_nothing(
    before: Seq<char>,
    line: Seq<char>,
    comment: Seq<char>,
    after: Seq<char>,
)
    requires
        before.len() > 0 ==> before.last() == '\n',
        lacks(line, '\n'),
        lacks(comment, '\n'),
    ensures
        chip_def(before + (line + seq![' ', '#', ' '] + comment).push('\n') + after) == chip_def(
            before + line.push('\n') + after,
        ),
        chip_def(before + (line + seq![' ', '/', '/', ' '] + comment).push('\n') + after)
            == chip_def(before + line.push('\n') + after),
        chip_def(before + (line + seq![' ', '#', ' '] + comment)) == chip_def(before + line),
        chip_def(before + (line + seq![' ', '/', '/', ' '] + comment)) == chip_def(before + line),
{
    law_comment_behind_a_line(line, comment);
    let hash = line + seq![' ', '#', ' '] + comment;
    let slash = line + seq![' ', '/', '/', ' '] + comment;
    assert(lacks(hash, '\n'));
    assert(lacks(slash, '\n'));
    lemma_file_with_either(before, hash, line, after);
    lemma_file_with_either(before, slash, line, after);
    lemma_file_ending_in_either(before, hash, line);
    lemma_file_ending_in_either(before, slash, line);
}

/// Lines without a key that is read are ignored: blank lines, comment lines and
/// lines with an unknown key can be put anywhere in a file, and the definition
/// stays the same in every field.
pub proof fn law_unknown_keys_change_nothing(
    before: Seq<char>,
    line: Seq<char>,
    after: Seq<char>,
)
    requires
        before.len() > 0 ==> before.last() == '\n',
        lacks(line, '\n'),
        says_nothing(line),
    ensures
        chip_def(before + line.push('\n') + after) == chip_def(before + after),
        chip_def(before + line) == chip_def(before),
{
    lemma_return_behind(line);
    lemma_line_between(before, line, after);
    let x = lines(before);
    lemma_definition_without(x, without_cr(line), lines(after));
    let none = Seq::<Seq<char>>::empty();
    lemma_definition_without(x, line, none);
    assert(x + seq![line] + none =~= x + seq![line]);
    assert(x + none =~= x);
}

// ── Resolving a device ──────────────────────────────────────────────────
/// Resolved chip parameters used by the native reader: `.chip` overrides the
/// built-in name / flash address / SRAM; the (verified) UID and RDP register
/// addresses always come from the built-in family table.
#[derive(Debug)]
pub struct ResolvedChip {
    pub name: String,
    pub flash_size_addr: Option<u32>,
    pub uid_addr: Option<u32>,
    pub rdp_addr: Option<u32>,
    pub rdp_kind: Option<RdpKind>,
    pub sram_kb: Option<u32>,
    pub source: String,
}

/// Resolved chip parameters with their strings as plain text.
pub struct ResolvedView {
    pub name: Seq<char>,
    pub flash_size_addr: Option<u32>,
    pub uid_addr: Option<u32>,
    pub rdp_addr: Option<u32>,
    pub rdp_kind: Option<RdpKind>,
    pub sram_kb: Option<u32>,
    pub source: Seq<char>,
}

impl View for ResolvedChip {
    type V = ResolvedView;

    open spec fn view(&self) -> ResolvedView {
        ResolvedView {
            name: self.name@,
            flash_size_addr: self.flash_size_addr,
            uid_addr: self.uid_addr,
            rdp_addr: self.rdp_addr,
            rdp_kind: self.rdp_kind,
            sram_kb: self.sram_kb,
            source: self.source@,
        }
    }
}

/// Main-SRAM sizes in KB.
pub open spec fn family_sram(dev_id: u16) -> Option<u32> {
    if dev_id == 0x412 {
        Some(10)
    } else if dev_id == 0x410 {
        Some(20)
    } else if dev_id == 0x414 || dev_id == 0x418 || dev_id == 0x423 {
        Some(64)
    } else if dev_id == 0x433 {
        Some(96)
    } else if dev_id == 0x411 || dev_id == 0x431 || dev_id == 0x421 {
        Some(128)
    } else if dev_id == 0x413 {
        Some(192)
    } else if dev_id == 0x419 || dev_id == 0x441 || dev_id == 0x452 {
        Some(256)
    } else if dev_id == 0x449 {
        Some(320)
    } else if dev_id == 0x451 {
        Some(512)
    } else {
        None
    }
}

/// Authoritative main-SRAM sizes (KB) for built-in families, taken from the
/// stlink chip database. Used when no `.chip` file supplies one.
pub fn builtin_sram_kb(dev_id: u16) -> (kb: Option<u32>)
    ensures
        kb == family_sram(dev_id),
{
    Some(
        match dev_id {
            0x412 => 10,
            0x410 => 20,
            0x414 | 0x418 => 64,
            0x411 => 128,
            0x423 => 64,
            0x433 => 96,
            0x413 => 192,
            0x419 => 256,
            0x431 | 0x421 => 128,
            0x441 => 256,
            0x449 => 320,
            0x451 => 512,
            0x452 => 256,
            _ => {
                return None;
            },
        },
    )
}

/// The definitions as plain text.
pub open spec fn defs(db: Seq<ChipDef>) -> Seq<ChipDefView> {
    Seq::new(db.len(), |i: int| db[i]@)
}

/// The first definition of a device from `i` on.
pub open spec fn def_from(db: Seq<ChipDefView>, dev_id: u16, i: int) -> Option<ChipDefView>
    decreases db.len() - i,
{
    if i < 0 || i >= db.len() {
        None
    } else if db[i].dev_id == dev_id {
        Some(db[i])
    } else {
        def_from(db, dev_id, i + 1)
    }
}

/// One address of the family table.
pub open spec fn family_addr(f: Option<StmFamily>, addr: spec_fn(StmFamily) -> u32) -> Option<u32> {
    match f {
        Some(f) => Some(addr(f)),
        None => None,
    }
}

/// What is known of a device: the first definition of it goes before the
/// built-in table, except for the UID and RDP registers; unknown where neither
/// has it.
pub open spec fn resolved(dev_id: u16, db: Seq<ChipDefView>) -> Option<ResolvedView> {
    let builtin = family(dev_id);
    let def = def_from(db, dev_id, 0);
    if def is None && builtin is None {
        None
    } else {
        Some(
            ResolvedView {
                name: match def {
                    Some(d) => d.name,
                    None => builtin->0.name@,
                },
                flash_size_addr: if def is Some && def->0.flash_size_addr is Some {
                    def->0.flash_size_addr
                } else {
                    family_addr(builtin, |f: StmFamily| f.flash_size_addr)
                },
                uid_addr: family_addr(builtin, |f: StmFamily| f.uid_addr),
                rdp_addr: family_addr(builtin, |f: StmFamily| f.rdp_addr),
                rdp_kind: match builtin {
                    Some(f) => Some(f.rdp_kind),
                    None => None,
                },
                sram_kb: if def is Some && def->0.sram_kb is Some {
                    def->0.sram_kb
                } else {
                    family_sram(dev_id)
                },
                source: match def {
                    Some(d) => d.source,
                    None => "built-in"@,
                },
            },
        )
    }
}

fn find_def<'a>(db: &'a [ChipDef], dev_id: u16) -> (r: Option<&'a ChipDef>)
    ensures
        match r {
            Some(d) => def_from(defs(db@), dev_id, 0) == Some(d@),
            None => def_from(defs(db@), dev_id, 0) is None,
        },
{
    let mut i: usize = 0;
    while i < db.len()
        invariant
            i <= db@.len(),
            def_from(defs(db@), dev_id, 0) == def_from(defs(db@), dev_id, i as int),
        decreases db.len() - i,
    {
        if db[i].dev_id == dev_id {
            return Some(&db[i]);
        }
        i += 1;
    }
    None
}

/// Resolve a DBGMCU DEV_ID into chip parameters, preferring a matching `.chip`
/// file over the built-in table. Returns `None` if neither knows the model.
pub fn resolve_chip(dev_id: u16, db: &[ChipDef]) -> (r: Option<ResolvedChip>)
    ensures
        match r {
            Some(c) => resolved(dev_id, defs(db@)) == Some(c@),
            None => resolved(dev_id, defs(db@)) is None,
        },
{
    let builtin = stm_family(dev_id);
    let mut flash_size_addr: Option<u32> = None;
    let mut uid_addr: Option<u32> = None;
    let mut rdp_addr: Option<u32> = None;
    let mut rdp_kind: Option<RdpKind> = None;
    if let Some(f) = builtin {
        flash_size_addr = Some(f.flash_size_addr);
        uid_addr = Some(f.uid_addr);
        rdp_addr = Some(f.rdp_addr);
        rdp_kind = Some(f.rdp_kind);
    }
    match find_def(db, dev_id) {
        Some(chip) => Some(
            ResolvedChip {
                name: chip.name.clone(),
                flash_size_addr: if chip.flash_size_addr.is_some() {
                    chip.flash_size_addr
                } else {
                    flash_size_addr
                },
                uid_addr,
                rdp_addr,
                rdp_kind,
                sram_kb: if chip.sram_kb.is_some() {
                    chip.sram_kb
                } else {
                    builtin_sram_kb(dev_id)
                },
                source: chip.source.clone(),
            },
        ),
        None => match builtin {
            Some(f) => Some(
                ResolvedChip {
                    name: f.name.to_string(),
                    flash_size_addr,
                    uid_addr,
                    rdp_addr,
                    rdp_kind,
                    sram_kb: builtin_sram_kb(dev_id),
                    source: "built-in".to_string(),
                },
            ),
            None => None,
        },
    }
}

/// A definition in the database decides the name, and its numbers win over the
/// built-in ones wherever it gives them.
pub proof fn law_definition_takes_priority(dev_id: u16, db: Seq<ChipDefView>)
    requires
        def_from(db, dev_id, 0) is Some,
    ensures
        ({
            let d = def_from(db, dev_id, 0)->0;
            let r = resolved(dev_id, db);
            &&& r is Some
            &&& r->0.name == d.name
            &&& r->0.source == d.source
            &&& d.flash_size_addr is Some ==> r->0.flash_size_addr == d.flash_size_addr
            &&& d.sram_kb is Some ==> r->0.sram_kb == d.sram_kb
        }),
{
}

/// Whatever the database holds, the UID and RDP registers of a device are those
/// of the built-in family table.
pub proof fn law_register_addresses_are_built_in(dev_id: u16, db: Seq<ChipDefView>)
    requires
        resolved(dev_id, db) is Some,
    ensures
        ({
            let r = resolved(dev_id, db)->0;
            match family(dev_id) {
                Some(f) => r.uid_addr == Some(f.uid_addr) && r.rdp_addr == Some(f.rdp_addr)
                    && r.rdp_kind == Some(f.rdp_kind),
                None => r.uid_addr is None && r.rdp_addr is None && r.rdp_kind is None,
            }
        }),
{
}

// ── What a definition says ──────────────────────────────────────────────
proof fn lemma_chip_digits(d: Seq<char>, base: nat)
    requires
        base == 10 || base == 16,
        d.len() > 0,
        all_digits(d, base),
    ensures
        d[0] != '+',
        d.last() != ',' && d.last() != ';',
        !is_white(d[0]),
        number(d, base, u32::MAX as nat) == if value_of(d, base) <= u32::MAX {
            Some(value_of(d, base))
        } else {
            None
        },
        base == 10 ==> !starts_with(d, "0x"@) && !starts_with(d, "0X"@),
{
    assert(digit_value(d[0], base) is Some);
    assert(d.last() == d[d.len() - 1]);
    assert(digit_value(d[d.len() - 1], base) is Some);
    law_numbers(d, base, u32::MAX as nat);
    reveal_strlit("0x");
    reveal_strlit("0X");
    if base == 10 {
        if starts_with(d, "0x"@) {
            assert(d.take(2)[1] == 'x');
            assert(digit_value(d[1], base) is Some);
        }
        if starts_with(d, "0X"@) {
            assert(d.take(2)[1] == 'X');
            assert(digit_value(d[1], base) is Some);
        }
    }
}

proof fn lemma_chip_text(head: Seq<char>, d: Seq<char>, run: Seq<char>)
    requires
        d.len() > 0,
        d.last() != ',' && d.last() != ';',
        !is_white(d.last()),
        !is_white((head + d)[0]),
        forall|i: int| 0 <= i < run.len() ==> #[trigger] run[i] == ',' || run[i] == ';',
    ensures
        drop_trailing(trim(head + d + run), ',', ';') == head + d,
{
    let none = Seq::<char>::empty();
    let all = head + d + run;
    assert(all[0] == (head + d)[0]);
    if run.len() > 0 {
        assert(all.last() == run[run.len() - 1]);
    } else {
        assert(all.last() == d.last());
    }
    law_trim_finds_the_text(none, all, none);
    assert(none + all + none =~= all);
    law_drop_trailing(head + d, run, ',', ';');
}

/// A number is written in hex digits behind `0x` or `0X`, or in decimal digits; commas
/// and semicolons may follow. One that does not fit in 32 bits is none.
pub proof fn law_chip_numbers(d: Seq<char>, run: Seq<char>)
    requires
        d.len() > 0,
        forall|i: int| 0 <= i < run.len() ==> #[trigger] run[i] == ',' || run[i] == ';',
    ensures
        all_digits(d, 16) ==> ({
            let n = value_of(d, 16);
            let read = if n <= 0xFFFF_FFFF {
                Some(n as u32)
            } else {
                None
            };
            &&& chip_int("0x"@ + d + run) == read
            &&& chip_int("0X"@ + d + run) == read
        }),
        all_digits(d, 10) ==> chip_int(d + run) == if value_of(d, 10) <= 0xFFFF_FFFF {
            Some(value_of(d, 10) as u32)
        } else {
            None
        },
{
    reveal_strlit("0x");
    reveal_strlit("0X");
    if all_digits(d, 16) {
        lemma_chip_digits(d, 16);
        assert(digit_value(d[d.len() - 1], 16) is Some);
        lemma_chip_text("0x"@, d, run);
        lemma_chip_text("0X"@, d, run);
        law_prefix("0x"@, d, d);
        law_prefix("0X"@, d, d);
        assert(!starts_with("0X"@ + d, "0x"@)) by {
            assert(("0X"@ + d).take(2)[1] == 'X');
            assert("0x"@[1] == 'x');
        }
    }
    if all_digits(d, 10) {
        lemma_chip_digits(d, 10);
        assert(digit_value(d[d.len() - 1], 10) is Some);
        let none = Seq::<char>::empty();
        assert(none + d =~= d);
        lemma_chip_text(none, d, run);
    }
}

/// The last line whose first word is the key gives the value: its second word.
pub proof fn law_last_line_with_the_key_decides(
    all: Seq<Seq<char>>,
    key: Seq<char>,
    k: int,
)
    requires
        -1 <= k < all.len(),
        k >= 0 ==> uncommented(all[k]).len() > 0 && word(uncommented(all[k]), 0) == key,
        forall|j: int|
            k < j < all.len() ==> uncommented(#[trigger] all[j]).len() == 0 || word(
                uncommented(all[j]),
                0,
            ) != key,
    ensures
        k >= 0 ==> chip_value(all, key) == Some(word(uncommented(all[k]), 1)),
        k == -1 ==> chip_value(all, key) is None,
    decreases all.len(),
{
    if all.len() > 0 && k < all.len() - 1 {
        let fewer = all.drop_last();
        assert(all.last() == all[all.len() - 1]);
        if k >= 0 {
            assert(fewer[k] == all[k]);
        }
        assert forall|j: int| k < j < fewer.len() implies uncommented(#[trigger] fewer[j]).len()
            == 0 || word(uncommented(fewer[j]), 0) != key by {
            assert(fewer[j] == all[j]);
        }
        law_last_line_with_the_key_decides(fewer, key, k);
    }
}

/// A line of a key and a value gives the key its value, and leaves every other key as
/// it was.
pub proof fn law_key_and_value(
    all: Seq<Seq<char>>,
    key: Seq<char>,
    value: Seq<char>,
    other: Seq<char>,
)
    requires
        key.len() > 0,
        value.len() > 0,
        forall|i: int|
            0 <= i < key.len() ==> !is_white(#[trigger] key[i]) && key[i] != '/' && key[i] != '#',
        forall|i: int|
            0 <= i < value.len() ==> !is_white(#[trigger] value[i]) && value[i] != '/' && value[i]
                != '#',
        other != key,
    ensures
        ({
            let line = key + seq![' '] + value;
            &&& chip_value(all.push(line), key) == Some(value)
            &&& chip_value(all.push(line), other) == chip_value(all, other)
        }),
{
    reveal_strlit("//");
    let none = Seq::<char>::empty();
    let line = key + seq![' '] + value;
    assert(all.push(line).drop_last() =~= all);
    assert(all.push(line).last() == line);
    assert forall|k: int| 0 <= k < line.len() implies #[trigger] line[k] != '/' && line[k]
        != '#' by {
        if k < key.len() {
            assert(line[k] == key[k]);
        } else if k > key.len() {
            assert(line[k] == value[k - key.len() - 1]);
        }
    }
    lemma_find_text_from(line, "//"@, 0);
    if let Some(k) = find_text(line, "//"@) {
        assert(line.subrange(k, k + 2)[0] == line[k]);
    }
    lemma_found_at(line, '#', 0, line.len() as int);
    assert(line.take(line.len() as int) =~= line);
    assert(line[0] == key[0]);
    assert(line.last() == value[value.len() - 1]);
    law_trim_finds_the_text(none, line, none);
    assert(none + line + none =~= line);
    assert(uncommented(line) == line);
    law_words_add(key, ' ', value);
    law_words_add(value, ' ', none);
    assert(words(line) =~= seq![key, value]);
}

/// A file defines a device exactly where it gives it a number. The number is that of
/// the device, the name has blanks for its underscores, the size of the SRAM is given
/// in bytes, and a file without a name is called by the number of the device.
pub proof fn law_definition_is_what_the_keys_say(all: Seq<Seq<char>>)
    ensures
        ({
            let id = chip_number(all, "chip_id"@);
            let d = definition(all);
            let name = chip_value(all, "dev_type"@);
            let bytes = chip_number(all, "sram_size"@);
            &&& d is Some <==> id is Some
            &&& d matches Some(d) ==> {
                &&& d.dev_id == id->0 % 0x1_0000
                &&& d.flash_size_addr == chip_number(all, "flash_size_reg"@)
                &&& d.sram_kb is Some <==> bytes is Some
                &&& bytes is Some ==> d.sram_kb->0 * 1024 <= bytes->0 < (d.sram_kb->0 + 1) * 1024
                &&& name is Some ==> d.name.len() == name->0.len() && forall|i: int|
                    0 <= i < d.name.len() ==> #[trigger] d.name[i] == if name->0[i] == '_' {
                        ' '
                    } else {
                        name->0[i]
                    }
                &&& name is None ==> d.name == "STM32 (chip_id 0x"@ + hex_upper(
                    d.dev_id as nat,
                    3,
                ) + ")"@
            }
        }),
{
    if let Some(id) = chip_number(all, "chip_id"@) {
        assert(id as u16 == id % 0x1_0000) by (bit_vector);
    }
}

/// The main SRAM of the built-in families, in KB.
pub proof fn law_sram_of_the_families(dev_id: u16)
    ensures
        family_sram(dev_id) == Some(10u32) <==> dev_id == 0x412,
        family_sram(dev_id) == Some(20u32) <==> dev_id == 0x410,
        family_sram(dev_id) == Some(64u32) <==> dev_id == 0x414 || dev_id == 0x418 || dev_id
            == 0x423,
        family_sram(dev_id) == Some(96u32) <==> dev_id == 0x433,
        family_sram(dev_id) == Some(128u32) <==> dev_id == 0x411 || dev_id == 0x421 || dev_id
            == 0x431,
        family_sram(dev_id) == Some(192u32) <==> dev_id == 0x413,
        family_sram(dev_id) == Some(256u32) <==> dev_id == 0x419 || dev_id == 0x441 || dev_id
            == 0x452,
        family_sram(dev_id) == Some(320u32) <==> dev_id == 0x449,
        family_sram(dev_id) == Some(512u32) <==> dev_id == 0x451,
        family_sram(dev_id) matches Some(kb) ==> kb == 10 || kb == 20 || kb == 64 || kb == 96
            || kb == 128 || kb == 192 || kb == 256 || kb == 320 || kb == 512,
{
}

/// Of several definitions of a device the first counts.
pub proof fn law_first_definition_counts(db: Seq<ChipDefView>, dev_id: u16, i: int, k: int)
    requires
        0 <= i <= k <= db.len(),
        forall|j: int| i <= j < k ==> (#[trigger] db[j]).dev_id != dev_id,
        k < db.len() ==> db[k].dev_id == dev_id,
    ensures
        k < db.len() ==> def_from(db, dev_id, i) == Some(db[k]),
        k == db.len() ==> def_from(db, dev_id, i) is None,
    decreases k - i,
{
    if i < k {
        assert(db[i].dev_id != dev_id);
        law_first_definition_counts(db, dev_id, i + 1, k);
    }
}

/// What a definition leaves open, the built-in tables fill in; a device without a
/// definition is described by them alone, and one that is in neither is not known.
pub proof fn law_built_in_tables_fill_the_gaps(dev_id: u16, db: Seq<ChipDefView>)
    ensures
        ({
            let def = def_from(db, dev_id, 0);
            let f = family(dev_id);
            let r = resolved(dev_id, db);
            &&& r is None <==> def is None && f is None
            &&& r is Some && def is None ==> r->0.name == f->0.name@ && r->0.source == "built-in"@
            &&& r is Some && (def is None || def->0.flash_size_addr is None) ==> (match f {
                Some(f) => r->0.flash_size_addr == Some(f.flash_size_addr),
                None => r->0.flash_size_addr is None,
            })
            &&& r is Some && (def is None || def->0.sram_kb is None) ==> r->0.sram_kb
                == family_sram(dev_id)
        }),
{
}

} // verus!
