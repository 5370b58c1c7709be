//! Named values, as the report parsers collect them.
use vstd::prelude::*;
use vstd::string::*;
use crate::page::{lemma_with_row, push_line, row, row_of, with_row};
use crate::text::{same_str, texts};

verus! {

/// Values by name. A name has one value, the one given last.
#[derive(Debug)]
pub struct Fields {
    given: Vec<(String, String)>,
}

/// What was given, as a map.
pub open spec fn as_map(given: Seq<(String, String)>) -> Map<Seq<char>, Seq<char>>
    decreases given.len(),
{
    if given.len() == 0 {
        Map::empty()
    } else {
        as_map(given.drop_last()).insert(given.last().0@, given.last().1@)
    }
}

impl View for Fields {
    type V = Map<Seq<char>, Seq<char>>;

    closed spec fn view(&self) -> Map<Seq<char>, Seq<char>> {
        as_map(self.given@)
    }
}

/// The value of a name, where it has one.
pub open spec fn value_in(m: Map<Seq<char>, Seq<char>>, name: Seq<char>) -> Option<Seq<char>> {
    if m.contains_key(name) {
        Some(m[name])
    } else {
        None
    }
}

impl Fields {
    pub fn new() -> (f: Fields)
        ensures
            f@ == Map::<Seq<char>, Seq<char>>::empty(),
    {
        Fields { given: Vec::new() }
    }

    pub fn insert(&mut self, name: String, value: String)
        ensures
            final(self)@ == old(self)@.insert(name@, value@),
    {
        self.given.push((name, value));
        assert(self.given@.drop_last() =~= old(self).given@);
    }

    pub fn get(&self, name: &str) -> (r: Option<&str>)
        ensures
            match r {
                Some(v) => value_in(self@, name@) == Some(v@),
                None => value_in(self@, name@) is None,
            },
    {
        let mut n: usize = self.given.len();
        assert(self.given@.take(n as int) =~= self.given@);
        while n > 0
            invariant
                n <= self.given@.len(),
                value_in(self@, name@) == value_in(as_map(self.given@.take(n as int)), name@),
            decreases n,
        {
            assert(self.given@.take(n as int).drop_last() =~= self.given@.take(n - 1));
            if same_str(self.given[n - 1].0.as_str(), name) {
                return Some(self.given[n - 1].1.as_str());
            }
            n -= 1;
        }
        None
    }

    pub fn is_empty(&self) -> (r: bool)
        ensures
            r == (self@ == Map::<Seq<char>, Seq<char>>::empty()),
    {
        if self.given.len() > 0 {
            assert(self@.contains_key(self.given@.last().0@));
            return false;
        }
        true
    }
}

/// The page with the row of one field more, where the field has a value.
pub open spec fn with_field_row(
    page: Seq<Seq<char>>,
    m: Map<Seq<char>, Seq<char>>,
    name: Seq<char>,
    label: Seq<char>,
) -> Seq<Seq<char>> {
    with_row(page, "  "@, label, 20, value_in(m, name))
}

pub fn push_field_row(page: &mut Vec<String>, fields: &Fields, name: &str, label: &str)
    ensures
        texts(final(page)@) == with_field_row(texts(old(page)@), fields@, name@, label@),
{
    if let Some(v) = fields.get(name) {
        push_line(page, row_of("  ", label, 20, v));
    }
}

/// The fields that the lines give, each line adding what it has to say.
pub open spec fn fields_of(
    lines: Seq<Seq<char>>,
    first: Map<Seq<char>, Seq<char>>,
    add_line: spec_fn(Map<Seq<char>, Seq<char>>, Seq<char>) -> Map<Seq<char>, Seq<char>>,
) -> Map<Seq<char>, Seq<char>>
    decreases lines.len(),
{
    if lines.len() == 0 {
        first
    } else {
        add_line(fields_of(lines.drop_last(), first, add_line), lines.last())
    }
}

/// The fields with one entry more, where a line has one.
pub open spec fn with_entry(
    m: Map<Seq<char>, Seq<char>>,
    entry: Option<(Seq<char>, Seq<char>)>,
) -> Map<Seq<char>, Seq<char>> {
    match entry {
        Some((name, value)) => m.insert(name, value),
        None => m,
    }
}

/// The name and the value of an entry, where there is one.
pub open spec fn entry_name(e: Option<(Seq<char>, Seq<char>)>) -> Option<Seq<char>> {
    match e {
        Some((name, _)) => Some(name),
        None => None,
    }
}

pub open spec fn entry_value(e: Option<(Seq<char>, Seq<char>)>) -> Option<Seq<char>> {
    match e {
        Some((_, value)) => Some(value),
        None => None,
    }
}

/// Where every line gives at most one entry, the value of a name is the one that
/// the last line with that name gives.
pub proof fn law_last_line_decides(
    lines: Seq<Seq<char>>,
    first: Map<Seq<char>, Seq<char>>,
    entry: spec_fn(Seq<char>) -> Option<(Seq<char>, Seq<char>)>,
    k: int,
)
    requires
        0 <= k < lines.len(),
        entry(lines[k]) is Some,
        forall|j: int|
            k < j < lines.len() ==> entry_name(#[trigger] entry(lines[j])) != entry_name(
                entry(lines[k]),
            ),
    ensures
        value_in(
            fields_of(
                lines,
                first,
                |m: Map<Seq<char>, Seq<char>>, l: Seq<char>| with_entry(m, entry(l)),
            ),
            entry_name(entry(lines[k]))->0,
        ) == entry_value(entry(lines[k])),
    decreases lines.len(),
{
    if k < lines.len() - 1 {
        let fewer = lines.drop_last();
        assert(fewer[k] == lines[k]);
        assert forall|j: int| k < j < fewer.len() implies entry_name(#[trigger] entry(fewer[j]))
            != entry_name(entry(fewer[k])) by {
            assert(fewer[j] == lines[j]);
            assert(entry_name(entry(lines[j])) != entry_name(entry(lines[k])));
        }
        law_last_line_decides(fewer, first, entry, k);
        let n = lines.len() - 1;
        assert(entry_name(entry(lines[n])) != entry_name(entry(lines[k])));
    }
}

/// A name that no line gives keeps the value it had.
pub proof fn law_other_names_are_left_alone(
    lines: Seq<Seq<char>>,
    first: Map<Seq<char>, Seq<char>>,
    entry: spec_fn(Seq<char>) -> Option<(Seq<char>, Seq<char>)>,
    name: Seq<char>,
)
    requires
        forall|j: int| 0 <= j < lines.len() ==> entry_name(#[trigger] entry(lines[j])) != Some(name),
    ensures
        value_in(
            fields_of(
                lines,
                first,
                |m: Map<Seq<char>, Seq<char>>, l: Seq<char>| with_entry(m, entry(l)),
            ),
            name,
        ) == value_in(first, name),
    decreases lines.len(),
{
    if lines.len() > 0 {
        let fewer = lines.drop_last();
        assert forall|j: int| 0 <= j < fewer.len() implies entry_name(#[trigger] entry(fewer[j]))
            != Some(name) by {
            assert(fewer[j] == lines[j]);
            assert(entry_name(entry(lines[j])) != Some(name));
        }
        law_other_names_are_left_alone(fewer, first, entry, name);
        assert(entry_name(entry(lines[lines.len() - 1])) != Some(name));
    }
}

/// Lines behind others add to what the others gave.
pub proof fn law_fields_add_up(
    a: Seq<Seq<char>>,
    b: Seq<Seq<char>>,
    first: Map<Seq<char>, Seq<char>>,
    add_line: spec_fn(Map<Seq<char>, Seq<char>>, Seq<char>) -> Map<Seq<char>, Seq<char>>,
    line: Seq<char>,
)
    ensures
        fields_of(a + b, first, add_line) == fields_of(b, fields_of(a, first, add_line), add_line),
        fields_of(seq![line], first, add_line) == add_line(first, line),
    decreases b.len(),
{
    let one = seq![line];
    assert(one.drop_last() =~= Seq::empty());
    assert(one.last() == line);
    reveal_with_fuel(fields_of, 2);
    if b.len() == 0 {
        assert(a + b =~= a);
    } else {
        law_fields_add_up(a, b.drop_last(), first, add_line, line);
        assert((a + b).drop_last() =~= a + b.drop_last());
        assert((a + b).last() == b.last());
    }
}

/// A value is shown under its label, and a name without one is not shown.
pub proof fn lemma_with_field_row(
    page: Seq<Seq<char>>,
    m: Map<Seq<char>, Seq<char>>,
    name: Seq<char>,
    label: Seq<char>,
)
    ensures
        ({
            let p = with_field_row(page, m, name, label);
            &&& forall|x: Seq<char>| page.contains(x) ==> #[trigger] p.contains(x)
            &&& m.contains_key(name) ==> p.contains(row("  "@, label, 20, m[name]))
            &&& !m.contains_key(name) ==> p == page
            &&& p.len() == page.len() + (if m.contains_key(name) {
                1int
            } else {
                0int
            })
        }),
{
    lemma_with_row(page, "  "@, label, 20, value_in(m, name));
}

} // verus!
