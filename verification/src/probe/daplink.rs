//! DAPLink boards: the `DETAILS.TXT` on their drive, and what pyOCD knows of them.
use vstd::prelude::*;
use vstd::slice::slice_subrange;
use vstd::string::*;
use crate::fields::{
    entry_name, entry_value, fields_of, law_last_line_decides, law_other_names_are_left_alone,
    lemma_with_field_row, push_field_row, value_in, with_entry, with_field_row, Fields,
};
use crate::page::{joined, push_line, push_text, row, row_of};
use crate::pieces::{lines, lines_of};
use crate::stlink::controller::{usb_id, usb_id_of};
use crate::stm32::decode::{microbit, microbit_identify};
use crate::text::{
    all_white, chars_of, contains, drop_white, find_text, find_text_of, has_prefix, is_trimmed,
    is_white, lacks, law_prefix, law_trim, lemma_drop_white, lemma_find_text_from,
    lemma_find_text_grows, lemma_name_and_value, lemma_name_without_value, lemma_nothing_to_cut,
    lemma_skip_white, skip_white, spaced_line, split_once, split_once_of, starts_with, string_of, strip_prefix,
    strip_prefix_of, texts, trim, trim_of, trim_start, trim_start_of, views,
};
use crate::tool::{complaint, complaint_of, ToolOutput};

verus! {

// ── DETAILS.TXT ─────────────────────────────────────────────────────────
/// The name and value that a line gives; a line behind `#` gives none.
pub open spec fn details_entry(raw: Seq<char>) -> Option<(Seq<char>, Seq<char>)> {
    let line = trim(raw);
    if starts_with(line, "#"@) {
        None
    } else {
        match split_once(line, ':') {
            Some((name, value)) => if trim(name).len() > 0 && trim(value).len() > 0 {
                Some((trim(name), trim(value)))
            } else {
                None
            },
            None => None,
        }
    }
}

/// Everything that the file says.
pub open spec fn details(lines: Seq<Seq<char>>) -> Map<Seq<char>, Seq<char>> {
    fields_of(
        lines,
        Map::empty(),
        |m: Map<Seq<char>, Seq<char>>, l: Seq<char>| with_entry(m, details_entry(l)),
    )
}

pub fn parse_daplink_details(s: &str) -> (f: Fields)
    ensures
        f@ == details(lines(s@)),
{
    let text = chars_of(s);
    let all = lines_of(text.as_slice());
    let ghost seen = views(all@);
    let mut f = Fields::new();
    let mut i: usize = 0;
    while i < all.len()
        invariant
            i <= all@.len(),
            seen == views(all@),
            f@ == details(seen.take(i as int)),
        decreases all.len() - i,
    {
        assert(seen[i as int] == all@[i as int]@);
        assert(seen.take(i + 1).drop_last() =~= seen.take(i as int));
        let line = trim_of(all[i]);
        if !has_prefix(line, "#") {
            if let Some((name, value)) = split_once_of(line, ':') {
                let name = trim_of(name);
                let value = trim_of(value);
                if name.len() > 0 && value.len() > 0 {
                    f.insert(string_of(name), string_of(value));
                }
            }
        }
        i += 1;
    }
    assert(seen.take(i as int) =~= seen);
    f
}

/// How far the search for the drive got.
#[derive(Debug)]
pub enum Drive {
    /// No mounted drive holds a `DETAILS.TXT`.
    NotFound,
    /// The file at this path could not be read.
    Unreadable { path: String },
    /// The drive and what its `DETAILS.TXT` says.
    Read { drive: String, text: String },
}

pub const NO_DRIVE: &'static str = "DAPLink mass storage drive not found. Check that the device shows up as a USB drive and DETAILS.TXT exists at its root.";

/// The details of a DAPLink board, with the drive they came from.
pub fn run_daplink_query(drive: &Drive) -> (r: Result<Fields, String>)
    ensures
        match r {
            Ok(f) => {
                &&& *drive matches Drive::Read { drive, text }
                &&& f@ == details(lines(text@)).insert("Drive letter"@, drive@)
            },
            Err(e) => match *drive {
                Drive::NotFound => e@ == NO_DRIVE@,
                Drive::Unreadable { path } => e@ == "Could not read "@ + path@,
                Drive::Read { .. } => false,
            },
        },
{
    match drive {
        Drive::NotFound => Err(NO_DRIVE.to_string()),
        Drive::Unreadable { path } => Err(joined("Could not read ", path.as_str())),
        Drive::Read { drive, text } => {
            let mut f = parse_daplink_details(text.as_str());
            f.insert("Drive letter".to_string(), drive.clone());
            Ok(f)
        },
    }
}

/// The two rows that name the board variant and the target chip, since DAPLink
/// itself is just the interface.
pub open spec fn variant_rows(unique_id: Option<Seq<char>>) -> Seq<Seq<char>> {
    match unique_id {
        Some(id) => match microbit(id) {
            Some((variant, target)) => seq![
                row("  "@, "Variant"@, 20, variant),
                row("  "@, "Target chip"@, 20, target),
            ],
            None => Seq::empty(),
        },
        None => Seq::empty(),
    }
}

/// The page for a DAPLink board: what the file says, in its order, and the
/// variant.
pub open spec fn daplink_page(m: Map<Seq<char>, Seq<char>>, board: Seq<char>) -> Seq<Seq<char>> {
    let p = seq![row("  "@, "Board"@, 20, board)];
    let p = with_field_row(p, m, "Drive letter"@, "MSD mount"@);
    let p = with_field_row(p, m, "Unique ID"@, "Unique ID"@);
    let p = with_field_row(p, m, "HIC ID"@, "HIC ID"@);
    let p = with_field_row(p, m, "Daplink Mode"@, "DAPLink mode"@);
    let p = with_field_row(p, m, "Interface Version"@, "Interface FW"@);
    let p = with_field_row(p, m, "Bootloader Version"@, "Bootloader FW"@);
    let p = with_field_row(p, m, "Git SHA"@, "DAPLink commit"@);
    let p = with_field_row(p, m, "Local Mods"@, "Local mods"@);
    let p = with_field_row(p, m, "USB Interfaces"@, "USB interfaces"@);
    let p = with_field_row(p, m, "Auto Reset"@, "Auto reset"@);
    let p = with_field_row(p, m, "Automation allowed"@, "Automation"@);
    let p = with_field_row(p, m, "Overflow detection"@, "Overflow det."@);
    let p = with_field_row(p, m, "Remount count"@, "Remount count"@);
    let p = with_field_row(p, m, "URL"@, "Board URL"@);
    p + variant_rows(value_in(m, "Unique ID"@))
}

/// The lines that show the report.
pub fn print_daplink_info(info: &Fields, board_name: &str) -> (page: Vec<String>)
    ensures
        texts(page@) == daplink_page(info@, board_name@),
{
    let mut page: Vec<String> = Vec::new();
    push_line(&mut page, row_of("  ", "Board", 20, board_name));
    assert(texts(page@) =~= seq![row("  "@, "Board"@, 20, board_name@)]);
    push_field_row(&mut page, info, "Drive letter", "MSD mount");
    push_field_row(&mut page, info, "Unique ID", "Unique ID");
    push_field_row(&mut page, info, "HIC ID", "HIC ID");
    push_field_row(&mut page, info, "Daplink Mode", "DAPLink mode");
    push_field_row(&mut page, info, "Interface Version", "Interface FW");
    push_field_row(&mut page, info, "Bootloader Version", "Bootloader FW");
    push_field_row(&mut page, info, "Git SHA", "DAPLink commit");
    push_field_row(&mut page, info, "Local Mods", "Local mods");
    push_field_row(&mut page, info, "USB Interfaces", "USB interfaces");
    push_field_row(&mut page, info, "Auto Reset", "Auto reset");
    push_field_row(&mut page, info, "Automation allowed", "Automation");
    push_field_row(&mut page, info, "Overflow detection", "Overflow det.");
    push_field_row(&mut page, info, "Remount count", "Remount count");
    push_field_row(&mut page, info, "URL", "Board URL");
    let ghost before = texts(page@);
    if let Some(id) = info.get("Unique ID") {
        if let Some((variant, target)) = microbit_identify(id) {
            push_line(&mut page, row_of("  ", "Variant", 20, variant));
            push_line(&mut page, row_of("  ", "Target chip", 20, target));
        }
    }
    assert(texts(page@) =~= before + variant_rows(value_in(info@, "Unique ID"@)));
    page
}

// ── pyOCD ───────────────────────────────────────────────────────────────
/// The place of the quote that ends a JSON string, from `i` on. A backslash
/// takes the next character with it.
pub open spec fn closing_quote(s: Seq<char>, i: int) -> Option<int>
    decreases s.len() + 1 - i,
{
    if i < 0 || i >= s.len() {
        None
    } else if s[i] == '\\' {
        closing_quote(s, i + 2)
    } else if s[i] == '"' {
        Some(i)
    } else {
        closing_quote(s, i + 1)
    }
}

pub proof fn lemma_closing_quote(s: Seq<char>, i: int)
    requires
        0 <= i,
    ensures
        closing_quote(s, i) matches Some(q) ==> i <= q < s.len(),
    decreases s.len() + 1 - i,
{
    if i < s.len() {
        if s[i] == '\\' {
            lemma_closing_quote(s, i + 2);
        } else if s[i] != '"' {
            lemma_closing_quote(s, i + 1);
        }
    }
}

fn closing_quote_of(s: &[char], from: usize) -> (r: Option<usize>)
    requires
        from <= s@.len(),
    ensures
        match r {
            Some(q) => closing_quote(s@, from as int) == Some(q as int) && from <= q < s@.len(),
            None => closing_quote(s@, from as int) is None,
        },
{
    let mut end: usize = from;
    while end < s.len()
        invariant
            from <= end <= s@.len(),
            closing_quote(s@, from as int) == closing_quote(s@, end as int),
        decreases s.len() - end,
    {
        if s[end] == '\\' {
            if s.len() - end <= 2 {
                assert(closing_quote(s@, end + 2) is None);
                return None;
            }
            end += 2;
        } else if s[end] == '"' {
            return Some(end);
        } else {
            end += 1;
        }
    }
    None
}

/// The string behind the first `"key":`, as it stands between its quotes.
pub open spec fn json_string(json: Seq<char>, key: Seq<char>) -> Option<Seq<char>> {
    let mark = "\""@ + key + "\":"@;
    match find_text(json, mark) {
        None => None,
        Some(at) => match strip_prefix(trim_start(json.skip(at + mark.len())), "\""@) {
            None => None,
            Some(after) => match closing_quote(after, 0) {
                Some(end) => Some(after.take(end)),
                None => None,
            },
        },
    }
}

fn json_string_of(json: &[char], key: &str) -> (r: Option<String>)
    ensures
        match r {
            Some(v) => json_string(json@, key@) == Some(v@),
            None => json_string(json@, key@) is None,
        },
{
    let mut mark = "\"".to_string();
    mark.append(key);
    mark.append("\":");
    let at = match find_text_of(json, mark.as_str()) {
        Some(at) => at,
        None => {
            return None;
        },
    };
    let n: usize = mark.as_str().unicode_len();
    let total: usize = json.len();
    let rest = trim_start_of(slice_subrange(json, at + n, total));
    let after = match strip_prefix_of(rest, "\"") {
        Some(after) => after,
        None => {
            return None;
        },
    };
    match closing_quote_of(after, 0) {
        Some(end) => Some(string_of(slice_subrange(after, 0, end))),
        None => None,
    }
}

pub fn extract_json_string(json: &str, key: &str) -> (r: Option<String>)
    ensures
        match r {
            Some(v) => json_string(json@, key@) == Some(v@),
            None => json_string(json@, key@) is None,
        },
{
    let json = chars_of(json);
    json_string_of(json.as_slice(), key)
}

/// The fields with one string of the JSON more, where it has it.
pub open spec fn with_json(m: Map<Seq<char>, Seq<char>>, json: Seq<char>, key: Seq<char>) -> Map<
    Seq<char>,
    Seq<char>,
> {
    match json_string(json, key) {
        Some(v) => m.insert(key, v),
        None => m,
    }
}

/// The first place from `i` on that opens an object or ends a list, or the end.
pub open spec fn entry_or_end(s: Seq<char>, i: int) -> int
    decreases s.len() - i,
{
    if 0 <= i < s.len() && s[i] != '{' && s[i] != ']' {
        entry_or_end(s, i + 1)
    } else {
        i
    }
}

/// The place behind the brace that closes an object, from a place inside `depth`
/// braces on. Braces in a string do not count.
pub open spec fn object_end(s: Seq<char>, i: int, depth: nat) -> Option<int>
    decreases s.len() - i,
{
    if i < 0 || i >= s.len() {
        None
    } else if s[i] == '"' {
        proof {
            lemma_closing_quote(s, i + 1);
        }
        match closing_quote(s, i + 1) {
            Some(q) => object_end(s, q + 1, depth),
            None => None,
        }
    } else if s[i] == '{' {
        object_end(s, i + 1, depth + 1)
    } else if s[i] == '}' && depth <= 1 {
        Some(i + 1)
    } else if s[i] == '}' {
        object_end(s, i + 1, (depth - 1) as nat)
    } else {
        object_end(s, i + 1, depth)
    }
}

/// The place of the first entry in the list of boards, where the text has such a
/// list and the list has an entry.
pub open spec fn board_start(json: Seq<char>) -> Option<int> {
    match find_text(json, "\"boards\":"@) {
        Some(at) => {
            let i = entry_or_end(json, at + "\"boards\":"@.len());
            if i < json.len() && json[i] == '{' {
                Some(i)
            } else {
                None
            }
        },
        None => None,
    }
}

/// The first entry in the list of boards: from its brace to the one that closes
/// it, or to the end of a text that was cut off inside it. An empty list has none,
/// and a text without such a list is taken for one entry.
pub open spec fn first_board(json: Seq<char>) -> Seq<char> {
    if !contains(json, "\"boards\":"@) {
        json
    } else {
        match board_start(json) {
            Some(start) => match object_end(json, start, 0) {
                Some(end) => json.subrange(start, end),
                None => json.skip(start),
            },
            None => Seq::empty(),
        }
    }
}

fn object_end_of(s: &[char], from: usize) -> (r: Option<usize>)
    requires
        from <= s@.len(),
    ensures
        match r {
            Some(end) => object_end(s@, from as int, 0) == Some(end as int) && from < end
                <= s@.len(),
            None => object_end(s@, from as int, 0) is None,
        },
{
    let mut depth: usize = 0;
    let mut i: usize = from;
    while i < s.len()
        invariant
            from <= i <= s@.len(),
            depth <= i,
            object_end(s@, from as int, 0) == object_end(s@, i as int, depth as nat),
        decreases s.len() - i,
    {
        let c = s[i];
        if c == '"' {
            match closing_quote_of(s, i + 1) {
                Some(q) => {
                    i = q;
                },
                None => {
                    return None;
                },
            }
        } else if c == '{' {
            depth += 1;
        } else if c == '}' {
            if depth <= 1 {
                return Some(i + 1);
            }
            depth -= 1;
        }
        i += 1;
    }
    None
}

fn first_board_of<'a>(json: &'a [char]) -> (r: &'a [char])
    ensures
        r@ == first_board(json@),
{
    let mark = "\"boards\":";
    let at = match find_text_of(json, mark) {
        Some(at) => at,
        None => {
            return json;
        },
    };
    let n: usize = mark.unicode_len();
    let total: usize = json.len();
    assert(at + n <= total);
    let mut start: usize = at + n;
    while start < json.len() && json[start] != '{' && json[start] != ']'
        invariant
            at + n <= start <= json@.len(),
            entry_or_end(json@, at + n) == entry_or_end(json@, start as int),
        decreases json.len() - start,
    {
        start += 1;
    }
    if start >= json.len() || json[start] != '{' {
        return slice_subrange(json, 0, 0);
    }
    let end = match object_end_of(json, start) {
        Some(end) => end,
        None => json.len(),
    };
    slice_subrange(json, start, end)
}

/// What one entry says of its board, with the USB identity that was asked for.
pub open spec fn board_info(entry: Seq<char>, vid: u16, pid: u16) -> Map<Seq<char>, Seq<char>> {
    let m = Map::empty().insert("USB filter"@, usb_id(vid, pid));
    let m = with_json(m, entry, "unique_id"@);
    let m = with_json(m, entry, "info"@);
    let m = with_json(m, entry, "board_vendor"@);
    let m = with_json(m, entry, "board_name"@);
    let m = with_json(m, entry, "target"@);
    let m = with_json(m, entry, "vendor_name"@);
    let m = with_json(m, entry, "product_name"@);
    m
}

/// What the listing says of the first board in it.
pub open spec fn pyocd_info(json: Seq<char>, vid: u16, pid: u16) -> Map<Seq<char>, Seq<char>> {
    board_info(first_board(json), vid, pid)
}

fn keep_json(f: &mut Fields, json: &[char], key: &str)
    ensures
        final(f)@ == with_json(old(f)@, json@, key@),
{
    if let Some(v) = json_string_of(json, key) {
        f.insert(key.to_string(), v);
    }
}

/// pyocd JSON shape:
///
/// ```text
/// { "boards": [ { "unique_id": "...", "info": "...",
///                 "board_vendor": "...", "board_name": "...",
///                 "target": "nrf52833", "vendor_name": "Arm",
///                 "product_name": "BBC micro:bit CMSIS-DAP" } ] }
/// ```
///
/// The fields come from the first board entry alone.
pub fn parse_pyocd_output(s: &str, vid: u16, pid: u16) -> (f: Fields)
    ensures
        f@ == pyocd_info(s@, vid, pid),
{
    let json = chars_of(s);
    let entry = first_board_of(json.as_slice());
    let mut f = Fields::new();
    f.insert("USB filter".to_string(), usb_id_of(vid, pid));
    keep_json(&mut f, entry, "unique_id");
    keep_json(&mut f, entry, "info");
    keep_json(&mut f, entry, "board_vendor");
    keep_json(&mut f, entry, "board_name");
    keep_json(&mut f, entry, "target");
    keep_json(&mut f, entry, "vendor_name");
    keep_json(&mut f, entry, "product_name");
    f
}

proof fn lemma_closing_quote_grows(s: Seq<char>, more: Seq<char>, i: int)
    requires
        0 <= i,
        closing_quote(s, i) is Some,
    ensures
        closing_quote(s + more, i) == closing_quote(s, i),
    decreases s.len() + 1 - i,
{
    assert((s + more)[i] == s[i]);
    if s[i] == '\\' {
        lemma_closing_quote_grows(s, more, i + 2);
    } else if s[i] != '"' {
        lemma_closing_quote_grows(s, more, i + 1);
    }
}

proof fn lemma_object_end_grows(s: Seq<char>, more: Seq<char>, i: int, depth: nat)
    requires
        0 <= i,
        object_end(s, i, depth) is Some,
    ensures
        object_end(s + more, i, depth) == object_end(s, i, depth),
        i < object_end(s, i, depth)->0 <= s.len(),
    decreases s.len() - i,
{
    assert((s + more)[i] == s[i]);
    if s[i] == '"' {
        lemma_closing_quote(s, i + 1);
        lemma_closing_quote_grows(s, more, i + 1);
        lemma_object_end_grows(s, more, closing_quote(s, i + 1)->0 + 1, depth);
    } else if s[i] == '{' {
        lemma_object_end_grows(s, more, i + 1, depth + 1);
    } else if s[i] == '}' {
        if depth > 1 {
            lemma_object_end_grows(s, more, i + 1, (depth - 1) as nat);
        }
    } else {
        lemma_object_end_grows(s, more, i + 1, depth);
    }
}

proof fn lemma_entry_grows(s: Seq<char>, more: Seq<char>, i: int)
    requires
        0 <= i,
        entry_or_end(s, i) < s.len(),
    ensures
        i <= entry_or_end(s, i),
        entry_or_end(s + more, i) == entry_or_end(s, i),
    decreases s.len() - i,
{
    if i < s.len() {
        assert((s + more)[i] == s[i]);
        if s[i] != '{' && s[i] != ']' {
            lemma_entry_grows(s, more, i + 1);
        }
    }
}

/// Where a text holds the first entry of the list whole, nothing that follows it
/// changes what is reported: no field of another board is.
pub proof fn law_other_boards_change_nothing(
    json: Seq<char>,
    more: Seq<char>,
    vid: u16,
    pid: u16,
)
    requires
        board_start(json) is Some,
        object_end(json, board_start(json)->0, 0) is Some,
    ensures
        first_board(json + more) == first_board(json),
        pyocd_info(json + more, vid, pid) == pyocd_info(json, vid, pid),
{
    let mark = "\"boards\":"@;
    lemma_find_text_from(json, mark, 0);
    lemma_find_text_grows(json, more, mark, 0);
    let at = find_text(json, mark)->0;
    lemma_entry_grows(json, more, at + mark.len());
    let start = board_start(json)->0;
    assert((json + more)[start] == json[start]);
    lemma_object_end_grows(json, more, start, 0);
    let end = object_end(json, start, 0)->0;
    assert((json + more).subrange(start, end) =~= json.subrange(start, end));
}

/// A list without an entry reports no board.
pub proof fn law_no_board_is_reported_from_an_empty_list(json: Seq<char>, vid: u16, pid: u16)
    requires
        contains(json, "\"boards\":"@),
        board_start(json) is None,
    ensures
        pyocd_info(json, vid, pid) == Map::<Seq<char>, Seq<char>>::empty().insert(
            "USB filter"@,
            usb_id(vid, pid),
        ),
{
    lemma_empty_entry("unique_id"@);
    lemma_empty_entry("info"@);
    lemma_empty_entry("board_vendor"@);
    lemma_empty_entry("board_name"@);
    lemma_empty_entry("target"@);
    lemma_empty_entry("vendor_name"@);
    lemma_empty_entry("product_name"@);
}

proof fn lemma_empty_entry(key: Seq<char>)
    ensures
        json_string(Seq::empty(), key) is None,
{
    reveal_strlit("\"");
    let mark = "\""@ + key + "\":"@;
    assert(mark.len() > 0);
}

/// The page for a probe that pyOCD knows; a line that says so where there is
/// nothing to show.
pub open spec fn pyocd_page(m: Map<Seq<char>, Seq<char>>) -> Seq<Seq<char>> {
    let p = Seq::empty();
    let p = with_field_row(p, m, "vendor_name"@, "Probe vendor"@);
    let p = with_field_row(p, m, "product_name"@, "Probe product"@);
    let p = with_field_row(p, m, "unique_id"@, "Probe unique ID"@);
    let p = with_field_row(p, m, "board_vendor"@, "Board vendor"@);
    let p = with_field_row(p, m, "board_name"@, "Board name"@);
    let p = with_field_row(p, m, "target"@, "Target chip"@);
    let p = with_field_row(p, m, "info"@, "Combined"@);
    let p = with_field_row(p, m, "USB filter"@, "USB VID:PID"@);
    if p.len() == 0 {
        seq!["  (pyocd returned no probe info — is the device still in the same port?)"@]
    } else {
        p
    }
}

/// The lines that show the report.
pub fn print_pyocd_info(info: &Fields) -> (page: Vec<String>)
    ensures
        texts(page@) == pyocd_page(info@),
{
    let mut page: Vec<String> = Vec::new();
    assert(texts(page@) =~= Seq::empty());
    push_field_row(&mut page, info, "vendor_name", "Probe vendor");
    push_field_row(&mut page, info, "product_name", "Probe product");
    push_field_row(&mut page, info, "unique_id", "Probe unique ID");
    push_field_row(&mut page, info, "board_vendor", "Board vendor");
    push_field_row(&mut page, info, "board_name", "Board name");
    push_field_row(&mut page, info, "target", "Target chip");
    push_field_row(&mut page, info, "info", "Combined");
    push_field_row(&mut page, info, "USB filter", "USB VID:PID");
    assert(texts(page@).len() == page@.len());
    if page.len() == 0 {
        push_text(
            &mut page,
            "  (pyocd returned no probe info — is the device still in the same port?)",
        );
        assert(texts(page@) =~= seq![
            "  (pyocd returned no probe info — is the device still in the same port?)"@,
        ]);
    }
    page
}

/// What a run of `pyocd json --probes` gave; `None` stands for a program that
/// could not be started. The run does NOT connect to or reset the SWD target —
/// chip identity comes from pyocd's internal board database keyed by USB unique
/// ID prefix.
pub fn run_pyocd_query(output: Option<&ToolOutput>, vid: u16, pid: u16) -> (r: Result<
    Fields,
    String,
>)
    ensures
        match r {
            Ok(f) => {
                &&& output matches Some(o)
                &&& o.success
                &&& f@ == pyocd_info(o.stdout@, vid, pid)
            },
            Err(e) => match output {
                Some(o) => !o.success && e@ == complaint(o.stderr@),
                None => e@ == "pyocd not found on PATH (install with: pip install pyocd)"@,
            },
        },
{
    match output {
        None => Err("pyocd not found on PATH (install with: pip install pyocd)".to_string()),
        Some(o) => if o.success {
            Ok(parse_pyocd_output(o.stdout.as_str(), vid, pid))
        } else {
            Err(complaint_of(o.stderr.as_str()))
        },
    }
}

// ── What the lines and strings mean ─────────────────────────────────────
/// A line `name: value` gives the value under the name, with whatever white space; one
/// behind `#`, one without a colon and one without a value give nothing.
pub proof fn law_details_lines(
    a: Seq<char>,
    name: Seq<char>,
    b: Seq<char>,
    c: Seq<char>,
    value: Seq<char>,
    d: Seq<char>,
    line: Seq<char>,
)
    requires
        all_white(a) && all_white(b) && all_white(c) && all_white(d),
        is_trimmed(name) && is_trimmed(value),
        lacks(name, ':'),
        name[0] != '#',
    ensures
        details_entry(spaced_line(a, name, b, c, value, d)) == Some((name, value)),
        details_entry(a + seq!['#'] + line) is None,
        details_entry(a + name + b + seq![':'] + c) is None,
        lacks(line, ':') ==> details_entry(line) is None,
{
    reveal_strlit("#");
    lemma_name_and_value(a, name, b, c, value, d);
    lemma_name_without_value(a, name, b, c);
    let t = trim(spaced_line(a, name, b, c, value, d));
    assert(t[0] == name[0]);
    assert(t.take(1)[0] == t[0]);
    let raw = a + seq!['#'] + line;
    law_trim(raw);
    lemma_skip_white(raw, 0);
    let n = skip_white(raw, 0);
    assert(raw[a.len() as int] == '#');
    assert(n == a.len()) by {
        if n < a.len() {
            assert(raw[n] == a[n]);
            assert(is_white(a[n]));
        }
    }
    let rest = raw.skip(n);
    assert(rest[0] == '#');
    lemma_drop_white(rest, rest.len() as int);
    let e = drop_white(rest, rest.len() as int);
    assert(e > 0) by {
        if e == 0 {
            assert(is_white(rest[0]));
        }
    }
    assert(trim(raw)[0] == '#');
    assert(trim(raw).take(1) =~= "#"@);
    if lacks(line, ':') {
        lemma_nothing_to_cut(line, ':');
    }
}

/// The value of a name is the one that the last line with that name gives; a name that no
/// line gives has none.
pub proof fn law_details_values(all: Seq<Seq<char>>, k: int, name: Seq<char>)
    requires
        0 <= k < all.len(),
        details_entry(all[k]) is Some,
        forall|j: int|
            k < j < all.len() ==> entry_name(#[trigger] details_entry(all[j])) != entry_name(details_entry(all[k])),
    ensures
        value_in(details(all), entry_name(details_entry(all[k]))->0) == entry_value(details_entry(all[k])),
        (forall|j: int|
            0 <= j < all.len() ==> entry_name(#[trigger] details_entry(all[j])) != Some(name)) ==> value_in(
            details(all),
            name,
        ) is None,
{
    let entry = |l: Seq<char>| details_entry(l);
    assert forall|j: int| k < j < all.len() implies entry_name(#[trigger] entry(all[j]))
        != entry_name(entry(all[k])) by {
        assert(entry_name(details_entry(all[j])) != entry_name(details_entry(all[k])));
    }
    law_last_line_decides(all, Map::empty(), entry, k);
    let f = |m: Map<Seq<char>, Seq<char>>, l: Seq<char>| with_entry(m, entry(l));
    let g = |m: Map<Seq<char>, Seq<char>>, l: Seq<char>| with_entry(m, details_entry(l));
    assert(f =~= g);
    if forall|j: int| 0 <= j < all.len() ==> entry_name(#[trigger] details_entry(all[j])) != Some(name) {
        assert forall|j: int| 0 <= j < all.len() implies entry_name(#[trigger] entry(all[j]))
            != Some(name) by {
            assert(entry_name(details_entry(all[j])) != Some(name));
        }
        law_other_names_are_left_alone(all, Map::empty(), entry, name);
    }
}

/// Every value that has a place on the page is shown there, under its label.
pub proof fn law_daplink_page_shows_every_value(m: Map<Seq<char>, Seq<char>>, board: Seq<char>)
    ensures
        m.contains_key("Drive letter"@) ==> daplink_page(m, board).contains(
            row("  "@, "MSD mount"@, 20, m["Drive letter"@]),
        ),
        m.contains_key("Unique ID"@) ==> daplink_page(m, board).contains(
            row("  "@, "Unique ID"@, 20, m["Unique ID"@]),
        ),
        m.contains_key("HIC ID"@) ==> daplink_page(m, board).contains(
            row("  "@, "HIC ID"@, 20, m["HIC ID"@]),
        ),
        m.contains_key("Daplink Mode"@) ==> daplink_page(m, board).contains(
            row("  "@, "DAPLink mode"@, 20, m["Daplink Mode"@]),
        ),
        m.contains_key("Interface Version"@) ==> daplink_page(m, board).contains(
            row("  "@, "Interface FW"@, 20, m["Interface Version"@]),
        ),
        m.contains_key("Bootloader Version"@) ==> daplink_page(m, board).contains(
            row("  "@, "Bootloader FW"@, 20, m["Bootloader Version"@]),
        ),
        m.contains_key("Git SHA"@) ==> daplink_page(m, board).contains(
            row("  "@, "DAPLink commit"@, 20, m["Git SHA"@]),
        ),
        m.contains_key("Local Mods"@) ==> daplink_page(m, board).contains(
            row("  "@, "Local mods"@, 20, m["Local Mods"@]),
        ),
        m.contains_key("USB Interfaces"@) ==> daplink_page(m, board).contains(
            row("  "@, "USB interfaces"@, 20, m["USB Interfaces"@]),
        ),
        m.contains_key("Auto Reset"@) ==> daplink_page(m, board).contains(
            row("  "@, "Auto reset"@, 20, m["Auto Reset"@]),
        ),
        m.contains_key("Automation allowed"@) ==> daplink_page(m, board).contains(
            row("  "@, "Automation"@, 20, m["Automation allowed"@]),
        ),
        m.contains_key("Overflow detection"@) ==> daplink_page(m, board).contains(
            row("  "@, "Overflow det."@, 20, m["Overflow detection"@]),
        ),
        m.contains_key("Remount count"@) ==> daplink_page(m, board).contains(
            row("  "@, "Remount count"@, 20, m["Remount count"@]),
        ),
        m.contains_key("URL"@) ==> daplink_page(m, board).contains(
            row("  "@, "Board URL"@, 20, m["URL"@]),
        ),
{
    let p = seq![row("  "@, "Board"@, 20, board)];
    lemma_with_field_row(p, m, "Drive letter"@, "MSD mount"@);
    let p = with_field_row(p, m, "Drive letter"@, "MSD mount"@);
    lemma_with_field_row(p, m, "Unique ID"@, "Unique ID"@);
    let p = with_field_row(p, m, "Unique ID"@, "Unique ID"@);
    lemma_with_field_row(p, m, "HIC ID"@, "HIC ID"@);
    let p = with_field_row(p, m, "HIC ID"@, "HIC ID"@);
    lemma_with_field_row(p, m, "Daplink Mode"@, "DAPLink mode"@);
    let p = with_field_row(p, m, "Daplink Mode"@, "DAPLink mode"@);
    lemma_with_field_row(p, m, "Interface Version"@, "Interface FW"@);
    let p = with_field_row(p, m, "Interface Version"@, "Interface FW"@);
    lemma_with_field_row(p, m, "Bootloader Version"@, "Bootloader FW"@);
    let p = with_field_row(p, m, "Bootloader Version"@, "Bootloader FW"@);
    lemma_with_field_row(p, m, "Git SHA"@, "DAPLink commit"@);
    let p = with_field_row(p, m, "Git SHA"@, "DAPLink commit"@);
    lemma_with_field_row(p, m, "Local Mods"@, "Local mods"@);
    let p = with_field_row(p, m, "Local Mods"@, "Local mods"@);
    lemma_with_field_row(p, m, "USB Interfaces"@, "USB interfaces"@);
    let p = with_field_row(p, m, "USB Interfaces"@, "USB interfaces"@);
    lemma_with_field_row(p, m, "Auto Reset"@, "Auto reset"@);
    let p = with_field_row(p, m, "Auto Reset"@, "Auto reset"@);
    lemma_with_field_row(p, m, "Automation allowed"@, "Automation"@);
    let p = with_field_row(p, m, "Automation allowed"@, "Automation"@);
    lemma_with_field_row(p, m, "Overflow detection"@, "Overflow det."@);
    let p = with_field_row(p, m, "Overflow detection"@, "Overflow det."@);
    lemma_with_field_row(p, m, "Remount count"@, "Remount count"@);
    let p = with_field_row(p, m, "Remount count"@, "Remount count"@);
    lemma_with_field_row(p, m, "URL"@, "Board URL"@);
    let p = with_field_row(p, m, "URL"@, "Board URL"@);
    lemma_lines_behind_keep(p, variant_rows(value_in(m, "Unique ID"@)));
}

proof fn lemma_lines_behind_keep(p: Seq<Seq<char>>, more: Seq<Seq<char>>)
    ensures
        forall|x: Seq<char>| p.contains(x) ==> #[trigger] (p + more).contains(x),
{
    let all = p + more;
    assert forall|x: Seq<char>| p.contains(x) implies #[trigger] all.contains(x) by {
        let i = choose|i: int| 0 <= i < p.len() && p[i] == x;
        assert(all[i] == x);
    }
}

/// A board that is known by its unique ID is shown with its variant and its chip, last on
/// the page.
pub proof fn law_daplink_page_names_the_variant(
    m: Map<Seq<char>, Seq<char>>,
    board: Seq<char>,
    id: Seq<char>,
)
    requires
        m.contains_key("Unique ID"@),
        m["Unique ID"@] == id,
    ensures
        ({
            let page = daplink_page(m, board);
            microbit(id) matches Some((variant, chip)) ==> page.len() >= 2 && page[page.len() - 2]
                == row("  "@, "Variant"@, 20, variant) && page.last() == row(
                "  "@,
                "Target chip"@,
                20,
                chip,
            )
        }),
{
}

/// Every value that has a place on the page is shown there, under its label.
pub proof fn law_pyocd_page_shows_every_value(m: Map<Seq<char>, Seq<char>>)
    ensures
        m.contains_key("vendor_name"@) ==> pyocd_page(m).contains(
            row("  "@, "Probe vendor"@, 20, m["vendor_name"@]),
        ),
        m.contains_key("product_name"@) ==> pyocd_page(m).contains(
            row("  "@, "Probe product"@, 20, m["product_name"@]),
        ),
        m.contains_key("unique_id"@) ==> pyocd_page(m).contains(
            row("  "@, "Probe unique ID"@, 20, m["unique_id"@]),
        ),
        m.contains_key("board_vendor"@) ==> pyocd_page(m).contains(
            row("  "@, "Board vendor"@, 20, m["board_vendor"@]),
        ),
        m.contains_key("board_name"@) ==> pyocd_page(m).contains(
            row("  "@, "Board name"@, 20, m["board_name"@]),
        ),
        m.contains_key("target"@) ==> pyocd_page(m).contains(
            row("  "@, "Target chip"@, 20, m["target"@]),
        ),
        m.contains_key("info"@) ==> pyocd_page(m).contains(
            row("  "@, "Combined"@, 20, m["info"@]),
        ),
        m.contains_key("USB filter"@) ==> pyocd_page(m).contains(
            row("  "@, "USB VID:PID"@, 20, m["USB filter"@]),
        ),
{
    let p = Seq::<Seq<char>>::empty();
    lemma_with_field_row(p, m, "vendor_name"@, "Probe vendor"@);
    let p = with_field_row(p, m, "vendor_name"@, "Probe vendor"@);
    lemma_with_field_row(p, m, "product_name"@, "Probe product"@);
    let p = with_field_row(p, m, "product_name"@, "Probe product"@);
    lemma_with_field_row(p, m, "unique_id"@, "Probe unique ID"@);
    let p = with_field_row(p, m, "unique_id"@, "Probe unique ID"@);
    lemma_with_field_row(p, m, "board_vendor"@, "Board vendor"@);
    let p = with_field_row(p, m, "board_vendor"@, "Board vendor"@);
    lemma_with_field_row(p, m, "board_name"@, "Board name"@);
    let p = with_field_row(p, m, "board_name"@, "Board name"@);
    lemma_with_field_row(p, m, "target"@, "Target chip"@);
    let p = with_field_row(p, m, "target"@, "Target chip"@);
    lemma_with_field_row(p, m, "info"@, "Combined"@);
    let p = with_field_row(p, m, "info"@, "Combined"@);
    lemma_with_field_row(p, m, "USB filter"@, "USB VID:PID"@);
    let p = with_field_row(p, m, "USB filter"@, "USB VID:PID"@);
    if p.len() == 0 {
        assert forall|x: Seq<char>| !p.contains(x) by {}
    }
}

proof fn lemma_closing_quote_at(s: Seq<char>, i: int, e: int)
    requires
        0 <= i <= e < s.len(),
        s[e] == '"',
        forall|k: int| i <= k < e ==> #[trigger] s[k] != '"' && s[k] != '\\',
    ensures
        closing_quote(s, i) == Some(e),
    decreases e - i,
{
    if i < e {
        assert(s[i] != '"' && s[i] != '\\');
        lemma_closing_quote_at(s, i + 1, e);
    }
}

/// A string of the JSON is what stands between the quotes behind its key, with white space
/// before them or without; a value that is no string is none, nor is a key that is not
/// there.
pub proof fn law_json_strings(
    before: Seq<char>,
    key: Seq<char>,
    gap: Seq<char>,
    value: Seq<char>,
    after: Seq<char>,
    json: Seq<char>,
)
    requires
        all_white(gap),
        lacks(value, '"') && lacks(value, '\\'),
        find_text(
            before + ("\""@ + key + "\":"@) + (gap + seq!['"'] + value + seq!['"'] + after),
            "\""@ + key + "\":"@,
        ) == Some(before.len() as int),
    ensures
        json_string(
            before + ("\""@ + key + "\":"@) + (gap + seq!['"'] + value + seq!['"'] + after),
            key,
        ) == Some(value),
        !contains(json, "\""@ + key + "\":"@) ==> json_string(json, key) is None,
{
    reveal_strlit("\"");
    let mark = "\""@ + key + "\":"@;
    let rest = gap + seq!['"'] + value + seq!['"'] + after;
    let all = before + mark + rest;
    assert(all.skip(before.len() as int + mark.len()) =~= rest);
    lemma_skip_white(rest, 0);
    let n = skip_white(rest, 0);
    assert(rest[gap.len() as int] == '"');
    assert(n == gap.len()) by {
        if n < gap.len() {
            assert(rest[n] == gap[n]);
            assert(is_white(gap[n]));
        }
    }
    let inner = value + seq!['"'] + after;
    assert(trim_start(rest) =~= "\""@ + inner);
    law_prefix("\""@, inner, inner);
    assert forall|k: int| 0 <= k < value.len() implies #[trigger] inner[k] != '"' && inner[k]
        != '\\' by {
        assert(inner[k] == value[k]);
    }
    lemma_closing_quote_at(inner, 0, value.len() as int);
    assert(inner.take(value.len() as int) =~= value);
}

/// A backslash takes the next character with it: an escaped quote does not end a string.
pub proof fn law_escaped_quotes_do_not_close(s: Seq<char>, i: int)
    requires
        0 <= i,
        i + 1 < s.len(),
        s[i] == '\\',
    ensures
        closing_quote(s, i) == closing_quote(s, i + 2),
{
}

/// The first board of a listing is the object that opens behind the mark, up to the brace
/// that closes it, whatever stands around it.
pub proof fn law_first_board_is_the_first_object(
    before: Seq<char>,
    gap: Seq<char>,
    entry: Seq<char>,
    more: Seq<char>,
)
    requires
        find_text(before + "\"boards\":"@ + gap + entry + more, "\"boards\":"@) == Some(
            before.len() as int,
        ),
        lacks(gap, '{') && lacks(gap, ']'),
        entry.len() > 0 && entry[0] == '{',
        object_end(entry, 0, 0) == Some(entry.len() as int),
    ensures
        first_board(before + "\"boards\":"@ + gap + entry + more) == entry,
{
    let mark = "\"boards\":"@;
    let json = before + mark + gap + entry + more;
    let at = before.len() as int + mark.len();
    let start = at + gap.len();
    lemma_entry_at(json, at, start, gap);
    assert(json[start] == entry[0]);
    let head = before + mark + gap;
    assert(json =~= head + (entry + more));
    lemma_object_end_grows(entry, more, 0, 0);
    lemma_object_end_behind(head, entry + more, 0, 0);
    assert(json.subrange(start, start + entry.len()) =~= entry);
}

proof fn lemma_entry_at(s: Seq<char>, i: int, e: int, gap: Seq<char>)
    requires
        0 <= i <= e < s.len(),
        e - i == gap.len(),
        forall|k: int| 0 <= k < gap.len() ==> #[trigger] gap[k] == s[i + k],
        lacks(gap, '{') && lacks(gap, ']'),
        s[e] == '{' || s[e] == ']',
    ensures
        entry_or_end(s, i) == e,
    decreases e - i,
{
    if i < e {
        assert(gap[0] == s[i]);
        let rest = gap.skip(1);
        assert forall|k: int| 0 <= k < rest.len() implies #[trigger] rest[k] == s[i + 1 + k] by {
            assert(rest[k] == gap[k + 1]);
        }
        assert(lacks(rest, '{') && lacks(rest, ']')) by {
            assert forall|k: int| 0 <= k < rest.len() implies #[trigger] rest[k] != '{' && rest[k]
                != ']' by {
                assert(rest[k] == gap[k + 1]);
            }
        }
        lemma_entry_at(s, i + 1, e, rest);
    }
}

proof fn lemma_closing_quote_behind(x: Seq<char>, s: Seq<char>, i: int)
    requires
        0 <= i,
    ensures
        match closing_quote(s, i) {
            Some(q) => closing_quote(x + s, x.len() + i) == Some(x.len() + q),
            None => closing_quote(x + s, x.len() + i) is None,
        },
    decreases s.len() + 1 - i,
{
    if i < s.len() {
        assert((x + s)[x.len() + i] == s[i]);
        if s[i] == '\\' {
            lemma_closing_quote_behind(x, s, i + 2);
        } else if s[i] != '"' {
            lemma_closing_quote_behind(x, s, i + 1);
        }
    }
}

proof fn lemma_object_end_behind(x: Seq<char>, s: Seq<char>, i: int, depth: nat)
    requires
        0 <= i,
        object_end(s, i, depth) is Some,
    ensures
        object_end(x + s, x.len() + i, depth) == Some(x.len() + object_end(s, i, depth)->0),
    decreases s.len() - i,
{
    assert((x + s)[x.len() + i] == s[i]);
    if s[i] == '"' {
        lemma_closing_quote(s, i + 1);
        lemma_closing_quote_behind(x, s, i + 1);
        lemma_object_end_behind(x, s, closing_quote(s, i + 1)->0 + 1, depth);
    } else if s[i] == '{' {
        lemma_object_end_behind(x, s, i + 1, depth + 1);
    } else if s[i] == '}' {
        if depth > 1 {
            lemma_object_end_behind(x, s, i + 1, (depth - 1) as nat);
        }
    } else {
        lemma_object_end_behind(x, s, i + 1, depth);
    }
}

/// The report has a string for each of the seven keys that the entry gives, and the USB
/// identity that was asked for.
pub proof fn law_pyocd_report_has_the_strings_of_the_entry(json: Seq<char>, vid: u16, pid: u16)
    ensures
        ({
            let e = first_board(json);
            let m = pyocd_info(json, vid, pid);
            &&& value_in(m, "USB filter"@) == Some(usb_id(vid, pid))
            &&& value_in(m, "unique_id"@) == json_string(e, "unique_id"@)
            &&& value_in(m, "info"@) == json_string(e, "info"@)
            &&& value_in(m, "board_vendor"@) == json_string(e, "board_vendor"@)
            &&& value_in(m, "board_name"@) == json_string(e, "board_name"@)
            &&& value_in(m, "target"@) == json_string(e, "target"@)
            &&& value_in(m, "vendor_name"@) == json_string(e, "vendor_name"@)
            &&& value_in(m, "product_name"@) == json_string(e, "product_name"@)
        }),
{
    reveal_strlit("USB filter");
    reveal_strlit("unique_id");
    reveal_strlit("info");
    reveal_strlit("board_vendor");
    reveal_strlit("board_name");
    reveal_strlit("target");
    reveal_strlit("vendor_name");
    reveal_strlit("product_name");
    assert("USB filter"@.len() == 10 && "board_name"@.len() == 10 && "USB filter"@[0] == 'U'
        && "board_name"@[0] == 'b');
    assert("unique_id"@.len() == 9);
    assert("info"@.len() == 4);
    assert("board_vendor"@.len() == 12 && "product_name"@.len() == 12 && "board_vendor"@[0] == 'b'
        && "product_name"@[0] == 'p');
    assert("target"@.len() == 6);
    assert("vendor_name"@.len() == 11);
}

} // verus!
