//! ESP boards, by what `espflash board-info` prints.
use vstd::prelude::*;
use vstd::slice::slice_subrange;
use vstd::string::*;
use crate::fields::{
    entry_name, entry_value, fields_of, law_last_line_decides, value_in, with_entry, Fields,
};
use crate::page::{lemma_with_row, push_row, push_text, row, shown, with_row};
use crate::pieces::{lines, lines_of};
use crate::text::{
    all_white, chars_of, find, find_char_from, has_prefix, is_trimmed, lacks, law_prefix,
    lemma_found_at, lemma_name_and_value, lemma_nothing_to_cut, lemma_trim_after_trim_start,
    spaced_line, split_once, split_once_of, starts_with, string_of, strip_prefix, strip_prefix_of, texts, trim, trim_of, trim_start, trim_start_of, views,
};
use crate::tool::{complaint, complaint_of, ToolOutput};

verus! {

/// Parsed `espflash board-info` output. Every field is optional — espflash only
/// prints what it could read from the chip.
#[derive(Debug)]
pub struct EspInfo {
    pub chip_type: Option<String>,
    pub chip_revision: Option<String>,
    pub crystal_frequency: Option<String>,
    pub flash_size: Option<String>,
    pub features: Option<String>,
    pub mac_address: Option<String>,
    pub mac: Option<String>,
}

#[verifier::ext_equal]
pub struct EspView {
    pub chip_type: Option<Seq<char>>,
    pub chip_revision: Option<Seq<char>>,
    pub crystal_frequency: Option<Seq<char>>,
    pub flash_size: Option<Seq<char>>,
    pub features: Option<Seq<char>>,
    pub mac_address: Option<Seq<char>>,
    pub mac: Option<Seq<char>>,
}

impl View for EspInfo {
    type V = EspView;

    open spec fn view(&self) -> EspView {
        EspView {
            chip_type: shown(self.chip_type),
            chip_revision: shown(self.chip_revision),
            crystal_frequency: shown(self.crystal_frequency),
            flash_size: shown(self.flash_size),
            features: shown(self.features),
            mac_address: shown(self.mac_address),
            mac: shown(self.mac),
        }
    }
}

/// The page for an ESP: the rows that were read, in their order.
pub open spec fn esp_page(e: EspView) -> Seq<Seq<char>> {
    let p = Seq::empty();
    let p = with_row(p, "  "@, "Chip type"@, 20, e.chip_type);
    let p = with_row(p, "  "@, "Chip revision"@, 20, e.chip_revision);
    let p = with_row(p, "  "@, "Crystal frequency"@, 20, e.crystal_frequency);
    let p = with_row(p, "  "@, "Flash size"@, 20, e.flash_size);
    let p = with_row(p, "  "@, "Features"@, 20, e.features);
    let p = with_row(p, "  "@, "MAC address"@, 20, e.mac_address);
    let p = with_row(p, "  "@, "MAC"@, 20, e.mac);
    p
}

impl EspInfo {
    pub fn is_empty(&self) -> (r: bool)
        ensures
            r == (self@.chip_type is None && self@.chip_revision is None
                && self@.crystal_frequency is None && self@.flash_size is None
                && self@.features is None && self@.mac_address is None && self@.mac is None),
    {
        self.chip_type.is_none() && self.chip_revision.is_none() && self.crystal_frequency.is_none()
            && self.flash_size.is_none() && self.features.is_none() && self.mac_address.is_none()
            && self.mac.is_none()
    }

    /// The lines that show the report.
    pub fn print(&self) -> (page: Vec<String>)
        ensures
            texts(page@) == esp_page(self@),
    {
        let mut page: Vec<String> = Vec::new();
        assert(texts(page@) =~= Seq::empty());
        push_row(&mut page, "  ", "Chip type", 20, &self.chip_type);
        push_row(&mut page, "  ", "Chip revision", 20, &self.chip_revision);
        push_row(&mut page, "  ", "Crystal frequency", 20, &self.crystal_frequency);
        push_row(&mut page, "  ", "Flash size", 20, &self.flash_size);
        push_row(&mut page, "  ", "Features", 20, &self.features);
        push_row(&mut page, "  ", "MAC address", 20, &self.mac_address);
        push_row(&mut page, "  ", "MAC", 20, &self.mac);
        page
    }
}

/// The line without the `[...]` that a log line begins with.
pub open spec fn log_stripped(line: Seq<char>) -> Seq<char> {
    match strip_prefix(line, "["@) {
        Some(rest) => {
            let close = find(rest, ']');
            if close < rest.len() {
                trim_start(rest.skip(close + 1))
            } else {
                line
            }
        },
        None => line,
    }
}

fn log_stripped_of<'a>(line: &'a [char]) -> (r: &'a [char])
    ensures
        r@ == log_stripped(line@),
{
    match strip_prefix_of(line, "[") {
        Some(rest) => {
            let close = find_char_from(rest, ']', 0);
            if close < rest.len() {
                trim_start_of(slice_subrange(rest, close + 1, rest.len()))
            } else {
                line
            }
        },
        None => line,
    }
}

pub fn strip_log_prefix(line: &str) -> (r: String)
    ensures
        r@ == log_stripped(line@),
{
    let line = chars_of(line);
    string_of(log_stripped_of(line.as_slice()))
}

/// The name and value that a line gives.
pub open spec fn esp_entry(raw: Seq<char>) -> Option<(Seq<char>, Seq<char>)> {
    let line = trim(log_stripped(raw));
    if line.len() == 0 || starts_with(line, "["@) {
        None
    } else {
        match split_once(line, ':') {
            Some((name, value)) => Some((trim(name), trim(value))),
            None => None,
        }
    }
}

/// Everything that the lines name.
pub open spec fn esp_fields(lines: Seq<Seq<char>>) -> Map<Seq<char>, Seq<char>> {
    fields_of(
        lines,
        Map::empty(),
        |m: Map<Seq<char>, Seq<char>>, l: Seq<char>| with_entry(m, esp_entry(l)),
    )
}

/// What the output says of the chip.
pub open spec fn esp_info(text: Seq<char>) -> EspView {
    let f = esp_fields(lines(text));
    EspView {
        chip_type: value_in(f, "Chip type"@),
        chip_revision: value_in(f, "Chip revision"@),
        crystal_frequency: value_in(f, "Crystal frequency"@),
        flash_size: value_in(f, "Flash size"@),
        features: value_in(f, "Features"@),
        mac_address: value_in(f, "MAC address"@),
        mac: value_in(f, "MAC"@),
    }
}

fn field(f: &Fields, name: &str) -> (r: Option<String>)
    ensures
        shown(r) == value_in(f@, name@),
{
    match f.get(name) {
        Some(v) => Some(v.to_string()),
        None => None,
    }
}

pub fn parse_espflash_output(s: &str) -> (r: EspInfo)
    ensures
        r@ == esp_info(s@),
{
    let text = chars_of(s);
    let all = lines_of(text.as_slice());
    let ghost seen = views(all@);
    let mut f = Fields::new();
    let mut i: usize = 0;
    while i < all.len()
        invariant
            i <= all@.len(),
            seen == views(all@),
            f@ == esp_fields(seen.take(i as int)),
        decreases all.len() - i,
    {
        assert(seen[i as int] == all@[i as int]@);
        assert(seen.take(i + 1).drop_last() =~= seen.take(i as int));
        let line = trim_of(log_stripped_of(all[i]));
        if line.len() > 0 && !has_prefix(line, "[") {
            if let Some((name, value)) = split_once_of(line, ':') {
                f.insert(string_of(trim_of(name)), string_of(trim_of(value)));
            }
        }
        i += 1;
    }
    assert(seen.take(i as int) =~= seen);
    EspInfo {
        chip_type: field(&f, "Chip type"),
        chip_revision: field(&f, "Chip revision"),
        crystal_frequency: field(&f, "Crystal frequency"),
        flash_size: field(&f, "Flash size"),
        features: field(&f, "Features"),
        mac_address: field(&f, "MAC address"),
        mac: field(&f, "MAC"),
    }
}

/// The arguments that `espflash` is run with.
pub fn espflash_args(port: &str) -> (args: Vec<String>)
    ensures
        texts(args@) == seq!["board-info"@, "--port"@, port@],
{
    let mut args: Vec<String> = Vec::new();
    push_text(&mut args, "board-info");
    push_text(&mut args, "--port");
    push_text(&mut args, port);
    assert(texts(args@) =~= seq!["board-info"@, "--port"@, port@]);
    args
}

/// What a run of `espflash` gave; `None` stands for a program that could not be
/// started.
pub fn run_espflash_board_info(output: Option<&ToolOutput>) -> (r: Result<EspInfo, String>)
    ensures
        match r {
            Ok(info) => {
                &&& output matches Some(o)
                &&& o.success
                &&& info@ == esp_info(o.stdout@ + "\n"@ + o.stderr@)
            },
            Err(e) => match output {
                Some(o) => !o.success && e@ == complaint(o.stderr@),
                None => e@
                    == "espflash not found on PATH (install with: cargo install espflash)"@,
            },
        },
{
    match output {
        None => Err(
            "espflash not found on PATH (install with: cargo install espflash)".to_string(),
        ),
        Some(o) => {
            if !o.success {
                return Err(complaint_of(o.stderr.as_str()));
            }
            let mut text = o.stdout.as_str().to_string();
            text.append("\n");
            text.append(o.stderr.as_str());
            Ok(parse_espflash_output(text.as_str()))
        },
    }
}

/// A line `name: value` gives the value under the name, with whatever white space; a
/// line without a colon, or one that is all log mark, gives nothing.
pub proof fn law_esp_lines(
    a: Seq<char>,
    name: Seq<char>,
    b: Seq<char>,
    c: Seq<char>,
    value: Seq<char>,
    d: Seq<char>,
    line: Seq<char>,
)
    requires
        all_white(a) && all_white(b) && all_white(c) && all_white(d),
        is_trimmed(name) && is_trimmed(value),
        lacks(name, ':'),
        a.len() == 0,
        name[0] != '[',
    ensures
        esp_entry(spaced_line(a, name, b, c, value, d)) == Some((name, value)),
        lacks(line, ':') && lacks(line, '[') ==> esp_entry(line) is None,
{
    let raw = spaced_line(a, name, b, c, value, d);
    lemma_name_and_value(a, name, b, c, value, d);
    reveal_strlit("[");
    assert(raw[0] == name[0]);
    assert(raw.take(1)[0] == raw[0]);
    let t = trim(raw);
    assert(t[0] == name[0]);
    assert(t.take(1)[0] == t[0]);
    if lacks(line, ':') && lacks(line, '[') {
        if line.len() > 0 {
            assert(line.take(1)[0] == line[0]);
        }
        lemma_nothing_to_cut(line, ':');
    }
}

/// A log mark `[...]` in front of a line is no part of it.
pub proof fn law_log_mark_does_not_count(mark: Seq<char>, line: Seq<char>)
    requires
        lacks(mark, ']'),
        trim(line).len() > 0,
        trim(line)[0] != '[',
        line[0] != '[',
    ensures
        log_stripped(seq!['['] + mark + seq![']'] + line) == trim_start(line),
        log_stripped(line) == line,
        esp_entry(seq!['['] + mark + seq![']'] + line) == esp_entry(line),
{
    reveal_strlit("[");
    let raw = seq!['['] + mark + seq![']'] + line;
    let rest = mark + seq![']'] + line;
    assert(raw =~= "["@ + rest);
    law_prefix("["@, rest, raw);
    assert forall|k: int| 0 <= k < mark.len() implies #[trigger] rest[k] != ']' by {
        assert(rest[k] == mark[k]);
    }
    lemma_found_at(rest, ']', 0, mark.len() as int);
    assert(rest.skip(mark.len() as int + 1) =~= line);
    assert(line.take(1)[0] == line[0]);
    lemma_trim_after_trim_start(line);
}

/// Each row shows the value that the last line with its name gives.
pub proof fn law_esp_rows(text: Seq<char>)
    ensures
        ({
            let f = esp_fields(lines(text));
            let e = esp_info(text);
            &&& e.chip_type == value_in(f, "Chip type"@)
            &&& e.chip_revision == value_in(f, "Chip revision"@)
            &&& e.crystal_frequency == value_in(f, "Crystal frequency"@)
            &&& e.flash_size == value_in(f, "Flash size"@)
            &&& e.features == value_in(f, "Features"@)
            &&& e.mac_address == value_in(f, "MAC address"@)
            &&& e.mac == value_in(f, "MAC"@)
        }),
        forall|k: int|
            0 <= k < lines(text).len() && (#[trigger] esp_entry(lines(text)[k])) is Some && (forall|
                j: int,
            |
                k < j < lines(text).len() ==> entry_name(#[trigger] esp_entry(lines(text)[j]))
                    != entry_name(esp_entry(lines(text)[k]))) ==> value_in(
                esp_fields(lines(text)),
                entry_name(esp_entry(lines(text)[k]))->0,
            ) == entry_value(esp_entry(lines(text)[k])),
{
    let all = lines(text);
    let entry = |l: Seq<char>| esp_entry(l);
    assert forall|k: int|
        0 <= k < all.len() && (#[trigger] esp_entry(all[k])) is Some && (forall|j: int|
            k < j < all.len() ==> entry_name(#[trigger] esp_entry(all[j])) != entry_name(
                esp_entry(all[k]),
            )) implies value_in(esp_fields(all), entry_name(esp_entry(all[k]))->0) == entry_value(
        esp_entry(all[k]),
    ) by {
        assert forall|j: int| k < j < all.len() implies entry_name(#[trigger] entry(all[j]))
            != entry_name(entry(all[k])) by {
            assert(entry_name(esp_entry(all[j])) != entry_name(esp_entry(all[k])));
        }
        law_last_line_decides(all, Map::empty(), entry, k);
        let f = |m: Map<Seq<char>, Seq<char>>, l: Seq<char>| with_entry(m, entry(l));
        let g = |m: Map<Seq<char>, Seq<char>>, l: Seq<char>| with_entry(m, esp_entry(l));
        assert(f =~= g);
    }
}

/// Every value that was read is shown, under its label.
pub proof fn law_esp_page_shows_every_value(e: EspView)
    ensures
        e.chip_type matches Some(v) ==> esp_page(e).contains(row("  "@, "Chip type"@, 20, v)),
        e.chip_revision matches Some(v) ==> esp_page(e).contains(
            row("  "@, "Chip revision"@, 20, v),
        ),
        e.crystal_frequency matches Some(v) ==> esp_page(e).contains(
            row("  "@, "Crystal frequency"@, 20, v),
        ),
        e.flash_size matches Some(v) ==> esp_page(e).contains(row("  "@, "Flash size"@, 20, v)),
        e.features matches Some(v) ==> esp_page(e).contains(row("  "@, "Features"@, 20, v)),
        e.mac_address matches Some(v) ==> esp_page(e).contains(row("  "@, "MAC address"@, 20, v)),
        e.mac matches Some(v) ==> esp_page(e).contains(row("  "@, "MAC"@, 20, v)),
{
    let p = Seq::<Seq<char>>::empty();
    lemma_with_row(p, "  "@, "Chip type"@, 20, e.chip_type);
    let p = with_row(p, "  "@, "Chip type"@, 20, e.chip_type);
    lemma_with_row(p, "  "@, "Chip revision"@, 20, e.chip_revision);
    let p = with_row(p, "  "@, "Chip revision"@, 20, e.chip_revision);
    lemma_with_row(p, "  "@, "Crystal frequency"@, 20, e.crystal_frequency);
    let p = with_row(p, "  "@, "Crystal frequency"@, 20, e.crystal_frequency);
    lemma_with_row(p, "  "@, "Flash size"@, 20, e.flash_size);
    let p = with_row(p, "  "@, "Flash size"@, 20, e.flash_size);
    lemma_with_row(p, "  "@, "Features"@, 20, e.features);
    let p = with_row(p, "  "@, "Features"@, 20, e.features);
    lemma_with_row(p, "  "@, "MAC address"@, 20, e.mac_address);
    let p = with_row(p, "  "@, "MAC address"@, 20, e.mac_address);
    lemma_with_row(p, "  "@, "MAC"@, 20, e.mac);
    let p = with_row(p, "  "@, "MAC"@, 20, e.mac);
}

} // verus!
