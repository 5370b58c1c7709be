//! STM32 and GD32 boards in their serial bootloader, by what `stm32flash` prints.
use vstd::prelude::*;
use vstd::string::*;
use crate::fields::{
    entry_name, entry_value, fields_of, law_last_line_decides, law_other_names_are_left_alone,
    lemma_with_field_row, push_field_row, value_in, with_entry, with_field_row, Fields,
};
use crate::page::{joined, push_line, row, row_of};
use crate::pieces::{drop_leading, drop_leading_of, law_drop_leading, lines, lines_of};
use crate::text::{
    all_white, chars_of, has_prefix, is_text, is_trimmed, is_white, lacks, law_prefix,
    law_trim_finds_the_text, lemma_name_and_value, same_str, spaced_line, split_once,
    split_once_of, starts_with, string_of, texts, trim, trim_of, views,
};
use crate::tool::ToolOutput;

verus! {

/// The binary in the bundle, which carries one per system under distinct names.
pub open spec fn bundled_binary(system: Seq<char>) -> &'static str {
    if system == "windows"@ {
        "stm32flash.exe"
    } else if system == "linux"@ {
        "stm32flash_linux"
    } else if system == "macos"@ {
        "stm32flash_macos"
    } else {
        "stm32flash"
    }
}

pub fn stm32flash_binary(system: &str) -> (name: &'static str)
    ensures
        name == bundled_binary(system@),
{
    if same_str(system, "windows") {
        "stm32flash.exe"
    } else if same_str(system, "linux") {
        "stm32flash_linux"
    } else if same_str(system, "macos") {
        "stm32flash_macos"
    } else {
        "stm32flash"
    }
}

/// The rows that are kept.
pub open spec fn is_interesting(name: Seq<char>) -> bool {
    name == "Version"@ || name == "Option 1"@ || name == "Option 2"@ || name == "Device ID"@ || name
        == "RAM"@ || name == "Flash"@ || name == "Option RAM"@ || name == "System RAM"@
}

/// The name and value that a line gives; dashes before the name do not count.
pub open spec fn stm32flash_entry(raw: Seq<char>) -> Option<(Seq<char>, Seq<char>)> {
    let line = trim(drop_leading(trim(raw), '-'));
    match split_once(line, ':') {
        Some((name, value)) => if is_interesting(trim(name)) {
            Some((trim(name), trim(value)))
        } else {
            None
        },
        None => None,
    }
}

/// Everything that the output says of the chip.
pub open spec fn stm32flash_info(lines: Seq<Seq<char>>) -> Map<Seq<char>, Seq<char>> {
    fields_of(
        lines,
        Map::empty(),
        |m: Map<Seq<char>, Seq<char>>, l: Seq<char>| with_entry(m, stm32flash_entry(l)),
    )
}

/// Typical successful output has one field per line, with ':' as separator:
///
/// ```text
/// Version      : 0x22
/// Device ID    : 0x0414 (STM32F10xxx High-density)
/// - RAM        : Up to 64KiB  (12288b reserved by bootloader)
/// ```
pub fn parse_stm32flash_output(s: &str) -> (f: Fields)
    ensures
        f@ == stm32flash_info(lines(s@)),
{
    let text = chars_of(s);
    let all = lines_of(text.as_slice());
    let ghost seen = views(all@);
    let mut f = Fields::new();
    let mut i: usize = 0;
    while i < all.len()
        invariant
            i <= all@.len(),
            seen == views(all@),
            f@ == stm32flash_info(seen.take(i as int)),
        decreases all.len() - i,
    {
        assert(seen[i as int] == all@[i as int]@);
        assert(seen.take(i + 1).drop_last() =~= seen.take(i as int));
        let line = trim_of(drop_leading_of(trim_of(all[i]), '-'));
        if let Some((name, value)) = split_once_of(line, ':') {
            let name = trim_of(name);
            if is_text(name, "Version") || is_text(name, "Option 1") || is_text(name, "Option 2")
                || is_text(name, "Device ID") || is_text(name, "RAM") || is_text(name, "Flash")
                || is_text(name, "Option RAM") || is_text(name, "System RAM") {
                f.insert(string_of(name), string_of(trim_of(value)));
            }
        }
        i += 1;
    }
    assert(seen.take(i as int) =~= seen);
    f
}

/// The page for a chip behind a bridge: what was read, in its order.
pub open spec fn stm32flash_page(m: Map<Seq<char>, Seq<char>>, board: Seq<char>) -> Seq<Seq<char>> {
    let p = seq![row("  "@, "Bridge"@, 20, board)];
    let p = with_field_row(p, m, "Device ID"@, "Device ID"@);
    let p = with_field_row(p, m, "Flash"@, "Flash"@);
    let p = with_field_row(p, m, "RAM"@, "RAM"@);
    let p = with_field_row(p, m, "System RAM"@, "System ROM"@);
    let p = with_field_row(p, m, "Option RAM"@, "Option RAM"@);
    let p = with_field_row(p, m, "Option 1"@, "Option byte 1"@);
    let p = with_field_row(p, m, "Option 2"@, "Option byte 2"@);
    let p = with_field_row(p, m, "Version"@, "Bootloader ver"@);
    p
}

/// The lines that show the report.
pub fn print_stm32_info(info: &Fields, board_name: &str) -> (page: Vec<String>)
    ensures
        texts(page@) == stm32flash_page(info@, board_name@),
{
    let mut page: Vec<String> = Vec::new();
    push_line(&mut page, row_of("  ", "Bridge", 20, board_name));
    assert(texts(page@) =~= seq![row("  "@, "Bridge"@, 20, board_name@)]);
    push_field_row(&mut page, info, "Device ID", "Device ID");
    push_field_row(&mut page, info, "Flash", "Flash");
    push_field_row(&mut page, info, "RAM", "RAM");
    push_field_row(&mut page, info, "System RAM", "System ROM");
    push_field_row(&mut page, info, "Option RAM", "Option RAM");
    push_field_row(&mut page, info, "Option 1", "Option byte 1");
    push_field_row(&mut page, info, "Option 2", "Option byte 2");
    push_field_row(&mut page, info, "Version", "Bootloader ver");
    page
}

/// A line that tells something of the failure: not blank, and none of the lines
/// that every run begins with.
pub open spec fn tells(line: Seq<char>) -> bool {
    line.len() > 0 && !starts_with(line, "stm32flash "@) && !starts_with(line, "http"@)
        && !starts_with(line, "Using Parser"@) && !starts_with(line, "Interface"@)
}

/// The last of the lines that tells something.
pub open spec fn last_told(all: Seq<Seq<char>>) -> Option<Seq<char>>
    decreases all.len(),
{
    if all.len() == 0 {
        None
    } else if tells(trim(all.last())) {
        Some(trim(all.last()))
    } else {
        last_told(all.drop_last())
    }
}

pub const BOOT0_HINT: &'static str = "\nHint: stm32flash needs the chip in system bootloader mode.\nPull BOOT0 HIGH and press RESET, then re-run --probe.\n(Generic CH340 boards don't wire DTR/RTS to BOOT0/RESET, so this\ncannot be triggered automatically.)";

/// Why no chip answered, with what to do about it.
pub open spec fn stm32flash_error(output: ToolOutput) -> Seq<char> {
    (match last_told(lines(output.stdout@) + lines(output.stderr@)) {
        Some(line) => line,
        None => "no response"@,
    }) + BOOT0_HINT@
}

fn stm32flash_error_of(output: &ToolOutput) -> (s: String)
    ensures
        s@ == stm32flash_error(*output),
{
    let stdout = chars_of(output.stdout.as_str());
    let stderr = chars_of(output.stderr.as_str());
    let mut all = lines_of(stdout.as_slice());
    let mut more = lines_of(stderr.as_slice());
    let ghost seen = views(all@) + views(more@);
    all.append(&mut more);
    assert(views(all@) =~= seen);
    let mut n: usize = all.len();
    assert(seen.take(n as int) =~= seen);
    while n > 0
        invariant
            n <= all@.len(),
            seen == views(all@),
            seen == lines(output.stdout@) + lines(output.stderr@),
            last_told(seen) == last_told(seen.take(n as int)),
        decreases n,
    {
        assert(seen.take(n as int).last() == all@[n - 1]@);
        assert(seen.take(n as int).drop_last() =~= seen.take(n - 1));
        let line = trim_of(all[n - 1]);
        if line.len() > 0 && !has_prefix(line, "stm32flash ") && !has_prefix(line, "http")
            && !has_prefix(line, "Using Parser") && !has_prefix(line, "Interface") {
            return joined(string_of(line).as_str(), BOOT0_HINT);
        }
        n -= 1;
    }
    joined("no response", BOOT0_HINT)
}

pub open spec fn stm32flash_missing(tried: Seq<char>) -> Seq<char> {
    "stm32flash not found (tried "@ + tried
        + " and PATH). Install with: usbipd-rs --install stm32flash"@
}

/// What a run of `stm32flash` on a port gave; `None` stands for a program that
/// could not be started from where it was tried. A chip that does not respond is
/// the normal "no STM32 here" case, not an install/usage error, so the failure
/// is a one-line summary plus a hint about BOOT0 (CH340 boards don't
/// auto-trigger bootloader mode).
pub fn run_stm32flash_query(output: Option<&ToolOutput>, tried: &str) -> (r: Result<Fields, String>)
    ensures
        match r {
            Ok(f) => {
                &&& output matches Some(o)
                &&& o.success
                &&& f@ == stm32flash_info(lines(o.stdout@))
            },
            Err(e) => match output {
                Some(o) => !o.success && e@ == stm32flash_error(*o),
                None => e@ == stm32flash_missing(tried@),
            },
        },
{
    match output {
        None => {
            let mut e = joined("stm32flash not found (tried ", tried);
            e.append(" and PATH). Install with: usbipd-rs --install stm32flash");
            Err(e)
        },
        Some(o) => if o.success {
            Ok(parse_stm32flash_output(o.stdout.as_str()))
        } else {
            Err(stm32flash_error_of(o))
        },
    }
}

/// A line `name : value` gives the value under the name where the name is one of the eight
/// that are of interest, with dashes in front of it or without.
pub proof fn law_stm32flash_lines(
    a: Seq<char>,
    name: Seq<char>,
    b: Seq<char>,
    c: Seq<char>,
    value: Seq<char>,
    d: Seq<char>,
    dashes: nat,
    line: Seq<char>,
)
    requires
        all_white(a) && all_white(b) && all_white(c) && all_white(d),
        is_trimmed(name) && is_trimmed(value),
        lacks(name, ':'),
        name[0] != '-',
    ensures
        ({
            let wanted = name == "Version"@ || name == "Option 1"@ || name == "Option 2"@ || name
                == "Device ID"@ || name == "RAM"@ || name == "Flash"@ || name == "Option RAM"@
                || name == "System RAM"@;
            let raw = a + Seq::new(dashes, |i: int| '-') + a + (name + b + seq![':'] + c + value)
                + d;
            &&& wanted ==> stm32flash_entry(raw) == Some((name, value))
            &&& !wanted ==> stm32flash_entry(raw) is None
        }),
{
    let run = Seq::new(dashes, |i: int| '-');
    let core = name + b + seq![':'] + c + value;
    let none = Seq::<char>::empty();
    let raw = a + run + a + core + d;
    lemma_name_and_value(none, name, b, c, value, none);
    assert(spaced_line(none, name, b, c, value, none) =~= core);
    assert(core[0] == name[0]);
    assert(core.last() == value.last());
    let line = if dashes > 0 {
        run + a + core
    } else {
        core
    };
    if dashes > 0 {
        assert(line[0] == '-');
        assert(line.last() == value.last());
        assert(raw =~= a + line + d);
        law_trim_finds_the_text(a, line, d);
        let behind = a + core;
        assert(line =~= run + behind);
        if a.len() > 0 {
            assert(is_white(a[0]));
            assert(behind[0] == a[0]);
        } else {
            assert(behind[0] == core[0]);
        }
        law_drop_leading(dashes, '-', behind);
        law_trim_finds_the_text(a, core, none);
        assert(a + core + none =~= behind);
    } else {
        assert(run =~= none);
        let both = a + a;
        assert(raw =~= both + core + d);
        assert forall|i: int| 0 <= i < both.len() implies is_white(#[trigger] both[i]) by {
            if i < a.len() {
                assert(both[i] == a[i]);
            } else {
                assert(both[i] == a[i - a.len()]);
            }
        }
        law_trim_finds_the_text(both, core, d);
        law_drop_leading(0, '-', core);
        assert(Seq::new(0, |i: int| '-') + core =~= core);
        law_trim_finds_the_text(none, core, none);
        assert(none + core + none =~= core);
    }
}

/// The value of a name is the one that the last line with that name gives; a name that no
/// line gives has none.
pub proof fn law_stm32flash_values(all: Seq<Seq<char>>, k: int, name: Seq<char>)
    requires
        0 <= k < all.len(),
        stm32flash_entry(all[k]) is Some,
        forall|j: int|
            k < j < all.len() ==> entry_name(#[trigger] stm32flash_entry(all[j])) != entry_name(stm32flash_entry(all[k])),
    ensures
        value_in(stm32flash_info(all), entry_name(stm32flash_entry(all[k]))->0) == entry_value(stm32flash_entry(all[k])),
        (forall|j: int|
            0 <= j < all.len() ==> entry_name(#[trigger] stm32flash_entry(all[j])) != Some(name)) ==> value_in(
            stm32flash_info(all),
            name,
        ) is None,
{
    let entry = |l: Seq<char>| stm32flash_entry(l);
    assert forall|j: int| k < j < all.len() implies entry_name(#[trigger] entry(all[j]))
        != entry_name(entry(all[k])) by {
        assert(entry_name(stm32flash_entry(all[j])) != entry_name(stm32flash_entry(all[k])));
    }
    law_last_line_decides(all, Map::empty(), entry, k);
    let f = |m: Map<Seq<char>, Seq<char>>, l: Seq<char>| with_entry(m, entry(l));
    let g = |m: Map<Seq<char>, Seq<char>>, l: Seq<char>| with_entry(m, stm32flash_entry(l));
    assert(f =~= g);
    if forall|j: int| 0 <= j < all.len() ==> entry_name(#[trigger] stm32flash_entry(all[j])) != Some(name) {
        assert forall|j: int| 0 <= j < all.len() implies entry_name(#[trigger] entry(all[j]))
            != Some(name) by {
            assert(entry_name(stm32flash_entry(all[j])) != Some(name));
        }
        law_other_names_are_left_alone(all, Map::empty(), entry, name);
    }
}

/// Every value that has a place on the page is shown there, under its label.
pub proof fn law_stm32flash_page_shows_every_value(m: Map<Seq<char>, Seq<char>>, board: Seq<char>)
    ensures
        m.contains_key("Device ID"@) ==> stm32flash_page(m, board).contains(
            row("  "@, "Device ID"@, 20, m["Device ID"@]),
        ),
        m.contains_key("Flash"@) ==> stm32flash_page(m, board).contains(
            row("  "@, "Flash"@, 20, m["Flash"@]),
        ),
        m.contains_key("RAM"@) ==> stm32flash_page(m, board).contains(
            row("  "@, "RAM"@, 20, m["RAM"@]),
        ),
        m.contains_key("System RAM"@) ==> stm32flash_page(m, board).contains(
            row("  "@, "System ROM"@, 20, m["System RAM"@]),
        ),
        m.contains_key("Option RAM"@) ==> stm32flash_page(m, board).contains(
            row("  "@, "Option RAM"@, 20, m["Option RAM"@]),
        ),
        m.contains_key("Option 1"@) ==> stm32flash_page(m, board).contains(
            row("  "@, "Option byte 1"@, 20, m["Option 1"@]),
        ),
        m.contains_key("Option 2"@) ==> stm32flash_page(m, board).contains(
            row("  "@, "Option byte 2"@, 20, m["Option 2"@]),
        ),
        m.contains_key("Version"@) ==> stm32flash_page(m, board).contains(
            row("  "@, "Bootloader ver"@, 20, m["Version"@]),
        ),
{
    let p = seq![row("  "@, "Bridge"@, 20, board)];
    lemma_with_field_row(p, m, "Device ID"@, "Device ID"@);
    let p = with_field_row(p, m, "Device ID"@, "Device ID"@);
    lemma_with_field_row(p, m, "Flash"@, "Flash"@);
    let p = with_field_row(p, m, "Flash"@, "Flash"@);
    lemma_with_field_row(p, m, "RAM"@, "RAM"@);
    let p = with_field_row(p, m, "RAM"@, "RAM"@);
    lemma_with_field_row(p, m, "System RAM"@, "System ROM"@);
    let p = with_field_row(p, m, "System RAM"@, "System ROM"@);
    lemma_with_field_row(p, m, "Option RAM"@, "Option RAM"@);
    let p = with_field_row(p, m, "Option RAM"@, "Option RAM"@);
    lemma_with_field_row(p, m, "Option 1"@, "Option byte 1"@);
    let p = with_field_row(p, m, "Option 1"@, "Option byte 1"@);
    lemma_with_field_row(p, m, "Option 2"@, "Option byte 2"@);
    let p = with_field_row(p, m, "Option 2"@, "Option byte 2"@);
    lemma_with_field_row(p, m, "Version"@, "Bootloader ver"@);
    let p = with_field_row(p, m, "Version"@, "Bootloader ver"@);
}

/// A failure is told by the last line of all that is neither blank nor one that every run
/// begins with, trimmed; the way into the bootloader stands behind it.
pub proof fn law_last_telling_line(all: Seq<Seq<char>>, k: int)
    requires
        -1 <= k < all.len(),
        k >= 0 ==> tells(trim(all[k])),
        forall|j: int| k < j < all.len() ==> !tells(trim(#[trigger] all[j])),
    ensures
        k >= 0 ==> last_told(all) == Some(trim(all[k])),
        k == -1 ==> last_told(all) is None,
    decreases all.len(),
{
    if all.len() > 0 && k < all.len() - 1 {
        let fewer = all.drop_last();
        assert(all.last() == all[all.len() - 1]);
        if k >= 0 {
            assert(fewer[k] == all[k]);
        }
        assert forall|j: int| k < j < fewer.len() implies !tells(trim(#[trigger] fewer[j])) by {
            assert(fewer[j] == all[j]);
        }
        law_last_telling_line(fewer, k);
    }
}

/// What a line has to be to tell of a failure.
pub proof fn law_telling_lines(line: Seq<char>, rest: Seq<char>)
    ensures
        !tells(Seq::empty()),
        !tells("stm32flash "@ + rest),
        !tells("http"@ + rest),
        !tells("Using Parser"@ + rest),
        !tells("Interface"@ + rest),
        line.len() > 0 && line[0] != 's' && line[0] != 'h' && line[0] != 'U' && line[0] != 'I'
            ==> tells(line),
{
    law_prefix("stm32flash "@, rest, rest);
    law_prefix("http"@, rest, rest);
    law_prefix("Using Parser"@, rest, rest);
    law_prefix("Interface"@, rest, rest);
    reveal_strlit("stm32flash ");
    reveal_strlit("http");
    reveal_strlit("Using Parser");
    reveal_strlit("Interface");
    if line.len() >= 4 {
        assert(line.take(4)[0] == line[0]);
    }
    if line.len() >= 9 {
        assert(line.take(9)[0] == line[0]);
    }
    if line.len() >= 11 {
        assert(line.take(11)[0] == line[0]);
    }
    if line.len() >= 12 {
        assert(line.take(12)[0] == line[0]);
    }
}

/// Both streams count, the errors behind the output, and the hint always follows.
pub proof fn law_stm32flash_failure(o: ToolOutput)
    ensures
        ({
            let told = last_told(lines(o.stdout@) + lines(o.stderr@));
            &&& told matches Some(line) ==> stm32flash_error(o) == line + BOOT0_HINT@
            &&& told is None ==> stm32flash_error(o) == "no response"@ + BOOT0_HINT@
        }),
{
}

/// The bundle has a binary of its own for each of the three systems.
pub proof fn law_bundled_binaries(system: Seq<char>)
    ensures
        bundled_binary("windows"@)@ == "stm32flash.exe"@,
        bundled_binary("linux"@)@ == "stm32flash_linux"@,
        bundled_binary("macos"@)@ == "stm32flash_macos"@,
        system != "windows"@ && system != "linux"@ && system != "macos"@ ==> bundled_binary(
            system,
        )@ == "stm32flash"@,
{
    reveal_strlit("windows");
    reveal_strlit("linux");
    reveal_strlit("macos");
    assert("linux"@[0] == 'l' && "macos"@[0] == 'm' && "windows"@[0] == 'w');
}

} // verus!
