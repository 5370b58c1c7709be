//! The pages that reports are printed on: lists of lines, most of them rows of
//! a key and a value.
use vstd::prelude::*;
use vstd::string::*;
use crate::text::{spaces, texts};

verus! {

/// An optional string as plain text.
pub open spec fn shown(o: Option<String>) -> Option<Seq<char>> {
    match o {
        Some(s) => Some(s@),
        None => None,
    }
}

/// `s` with spaces behind it, where it is shorter than `width`.
pub open spec fn padded(s: Seq<char>, width: nat) -> Seq<char> {
    if s.len() < width {
        s + spaces((width - s.len()) as nat)
    } else {
        s
    }
}

/// A row: the key with its colon in a column of `width`, then the value.
pub open spec fn row(indent: Seq<char>, key: Seq<char>, width: nat, value: Seq<char>) -> Seq<char> {
    indent + padded(key + ":"@, width) + " "@ + value
}

/// The page with a row more, where there is a value to show.
pub open spec fn with_row(
    page: Seq<Seq<char>>,
    indent: Seq<char>,
    key: Seq<char>,
    width: nat,
    value: Option<Seq<char>>,
) -> Seq<Seq<char>> {
    match value {
        Some(v) => page.push(row(indent, key, width, v)),
        None => page,
    }
}

/// Appends `text`, and spaces up to `width` characters.
pub fn push_padded(out: &mut String, text: &str, width: usize)
    ensures
        final(out)@ == old(out)@ + padded(text@, width as nat),
{
    out.append(text);
    let n: usize = text.unicode_len();
    let mut k: usize = n;
    while k < width
        invariant
            n == text@.len(),
            n <= k,
            k <= width || k == n,
            out@ == old(out)@ + text@ + spaces((k - n) as nat),
        decreases width - k,
    {
        out.push(' ');
        k += 1;
    }
    if n < width {
        assert(out@ =~= old(out)@ + (text@ + spaces((width - n) as nat)));
    } else {
        assert(out@ =~= old(out)@ + text@);
    }
}

pub fn push_line(page: &mut Vec<String>, line: String)
    ensures
        texts(final(page)@) == texts(old(page)@).push(line@),
{
    page.push(line);
    assert(texts(page@) =~= texts(old(page)@).push(line@));
}

pub fn push_text(page: &mut Vec<String>, line: &str)
    ensures
        texts(final(page)@) == texts(old(page)@).push(line@),
{
    push_line(page, line.to_string());
}

/// Appends the lines of one page to another.
pub fn push_page(page: &mut Vec<String>, more: Vec<String>)
    ensures
        texts(final(page)@) == texts(old(page)@) + texts(more@),
{
    let ghost added = more@;
    let mut more = more;
    page.append(&mut more);
    assert(texts(page@) =~= texts(old(page)@) + texts(added));
}

pub fn row_of(indent: &str, key: &str, width: usize, value: &str) -> (line: String)
    ensures
        line@ == row(indent@, key@, width as nat, value@),
{
    let mut key = key.to_string();
    key.append(":");
    let mut line = indent.to_string();
    push_padded(&mut line, key.as_str(), width);
    line.append(" ");
    line.append(value);
    line
}

pub fn push_row(page: &mut Vec<String>, indent: &str, key: &str, width: usize, value: &Option<String>)
    ensures
        texts(final(page)@) == with_row(
            texts(old(page)@),
            indent@,
            key@,
            width as nat,
            shown(*value),
        ),
{
    if let Some(v) = value {
        push_line(page, row_of(indent, key, width, v.as_str()));
    }
}

/// Two words joined into one string.
pub fn joined(a: &str, b: &str) -> (s: String)
    ensures
        s@ == a@ + b@,
{
    let mut s = a.to_string();
    s.append(b);
    s
}

/// A row shows its key with a colon and its value whole, the value in a column of its
/// own wherever the key fits.
pub proof fn law_row(indent: Seq<char>, key: Seq<char>, width: nat, value: Seq<char>)
    ensures
        ({
            let r = row(indent, key, width, value);
            let n = if key.len() + 1 < width {
                width
            } else {
                key.len() + 1
            };
            &&& r.len() == indent.len() + n + 1 + value.len()
            &&& r.take((indent.len() + key.len()) as int) == indent + key
            &&& r[(indent.len() + key.len()) as int] == ':'
            &&& r.skip((indent.len() + n + 1) as int) == value
            &&& forall|i: int|
                indent.len() + key.len() + 1 <= i < indent.len() + n + 1 ==> #[trigger] r[i] == ' '
        }),
{
    reveal_strlit(":");
    reveal_strlit(" ");
    let r = row(indent, key, width, value);
    let n = if key.len() + 1 < width {
        width
    } else {
        key.len() + 1
    };
    assert(r.take((indent.len() + key.len()) as int) =~= indent + key);
    assert(r.skip((indent.len() + n + 1) as int) =~= value);
}

/// A value that is there adds its row behind the others; a missing one adds nothing.
pub proof fn lemma_with_row(
    page: Seq<Seq<char>>,
    indent: Seq<char>,
    key: Seq<char>,
    width: nat,
    value: Option<Seq<char>>,
)
    ensures
        ({
            let p = with_row(page, indent, key, width, value);
            &&& forall|x: Seq<char>| page.contains(x) ==> #[trigger] p.contains(x)
            &&& value matches Some(v) ==> p.contains(row(indent, key, width, v))
            &&& value is None ==> p == page
            &&& page.is_prefix_of(p)
        }),
{
    let p = with_row(page, indent, key, width, value);
    assert forall|x: Seq<char>| page.contains(x) implies #[trigger] p.contains(x) by {
        let i = choose|i: int| 0 <= i < page.len() && page[i] == x;
        assert(p[i] == x);
    }
    if let Some(v) = value {
        assert(p[page.len() as int] == row(indent, key, width, v));
    }
    assert(page =~= p.subrange(0, page.len() as int));
}

} // verus!
