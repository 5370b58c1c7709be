//! Pi Pico boards, by what `picotool info` prints.
use vstd::prelude::*;
use vstd::string::*;
use crate::fields::{
    entry_name, entry_value, fields_of, law_last_line_decides, law_other_names_are_left_alone,
    lemma_with_field_row, push_field_row, value_in, with_entry, with_field_row, Fields,
};
use crate::number::{
    all_digits, decimal, digit_value, hex_lower, number, push_decimal, push_hex_lower, read_number,
};
use crate::page::{lemma_with_row, joined, push_line, push_text, row, row_of, with_row};
use crate::pieces::{join, join_of, lines, lines_of, lower, lower_of};
use crate::text::{
    all_white, chars_of, contains, has_prefix, has_text, is_text, is_trimmed, lacks, law_prefix,
    lemma_name_and_value, lemma_name_without_value, lemma_nothing_to_cut, spaced_line, split_once,
    split_once_of, starts_with,
    string_of, strip_prefix, strip_prefix_of, texts, trim, trim_of, trim_start, trim_start_of, views,
};
use crate::tool::ToolOutput;

verus! {

/// The name and value that a line gives. A heading has no colon, and a value of
/// "none" is none.
pub open spec fn picotool_entry(raw: Seq<char>) -> Option<(Seq<char>, Seq<char>)> {
    match split_once(trim(raw), ':') {
        Some((name, value)) => if trim(name).len() > 0 && trim(value).len() > 0 && trim(value)
            != "none"@ {
            Some((trim(name), trim(value)))
        } else {
            None
        },
        None => None,
    }
}

/// Everything that the output says of the chip.
pub open spec fn picotool_info(lines: Seq<Seq<char>>) -> Map<Seq<char>, Seq<char>> {
    fields_of(
        lines,
        Map::empty(),
        |m: Map<Seq<char>, Seq<char>>, l: Seq<char>| with_entry(m, picotool_entry(l)),
    )
}

pub fn parse_picotool_output(s: &str) -> (f: Fields)
    ensures
        f@ == picotool_info(lines(s@)),
{
    let text = chars_of(s);
    let all = lines_of(text.as_slice());
    let ghost seen = views(all@);
    let mut f = Fields::new();
    let mut i: usize = 0;
    while i < all.len()
        invariant
            i <= all@.len(),
            seen == views(all@),
            f@ == picotool_info(seen.take(i as int)),
        decreases all.len() - i,
    {
        assert(seen[i as int] == all@[i as int]@);
        assert(seen.take(i + 1).drop_last() =~= seen.take(i as int));
        if let Some((name, value)) = split_once_of(trim_of(all[i]), ':') {
            let name = trim_of(name);
            let value = trim_of(value);
            if name.len() > 0 && value.len() > 0 && !is_text(value, "none") {
                f.insert(string_of(name), string_of(value));
            }
        }
        i += 1;
    }
    assert(seen.take(i as int) =~= seen);
    f
}

// ── flash_devinfo ───────────────────────────────────────────────────────
/// The text without the `0x` marks that it begins with.
pub open spec fn without_0x(s: Seq<char>) -> Seq<char>
    decreases s.len(),
{
    match strip_prefix(s, "0x"@) {
        Some(rest) => if rest.len() < s.len() {
            without_0x(rest)
        } else {
            s
        },
        None => s,
    }
}

fn without_0x_of<'a>(s: &'a [char]) -> (r: &'a [char])
    ensures
        r@ == without_0x(s@),
{
    let mut rest = s;
    loop
        invariant
            without_0x(s@) == without_0x(rest@),
        decreases rest@.len(),
    {
        proof {
            reveal_strlit("0x");
        }
        match strip_prefix_of(rest, "0x") {
            Some(r) => {
                rest = r;
            },
            None => {
                return rest;
            },
        }
    }
}

/// The chip selects that an RP2350 flash_devinfo bitfield describes:
/// bits 0:3 are the CS0 size code (0 = OTP unset, the SDK auto-detects), bits
/// 4:7 the CS1 size code, bits 8:11 the CS1 GPIO, and bit 15 says that CS1 is
/// present.
pub open spec fn devinfo_text(v: Seq<char>) -> Seq<char> {
    match number(without_0x(trim(v)), 16, u32::MAX as nat) {
        None => "?"@,
        Some(n) => {
            let n = n as u32;
            let cs0 = if n & 0xF == 0 {
                "CS0 default — SDK auto-detects"@
            } else {
                "CS0 code 0x"@ + hex_lower((n & 0xF) as nat, 1)
            };
            if (n >> 15) & 0x1 == 1 {
                cs0 + "; "@ + ("CS1 on GPIO "@ + decimal(((n >> 8) & 0xF) as nat) + ", code 0x"@
                    + hex_lower(((n >> 4) & 0xF) as nat, 1))
            } else {
                cs0
            }
        },
    }
}

pub fn decode_flash_devinfo(v: &str) -> (s: String)
    ensures
        s@ == devinfo_text(v@),
{
    let v = chars_of(v);
    let n: u32 = match read_number(without_0x_of(trim_of(v.as_slice())), 16, 0xFFFF_FFFF) {
        Some(n) => n as u32,
        None => {
            return "?".to_string();
        },
    };
    let mut s = if n & 0xF == 0 {
        "CS0 default — SDK auto-detects".to_string()
    } else {
        let mut code = "CS0 code 0x".to_string();
        push_hex_lower(&mut code, (n & 0xF) as u64, 1);
        code
    };
    if (n >> 15) & 0x1 == 1 {
        let mut cs1 = "CS1 on GPIO ".to_string();
        push_decimal(&mut cs1, ((n >> 8) & 0xF) as u64);
        cs1.append(", code 0x");
        push_hex_lower(&mut cs1, ((n >> 4) & 0xF) as u64, 1);
        s.append("; ");
        s.append(cs1.as_str());
    }
    s
}

// ── The page ────────────────────────────────────────────────────────────
/// The bitfield as it was read, with its meaning.
pub open spec fn devinfo_shown(v: Option<Seq<char>>) -> Option<Seq<char>> {
    match v {
        Some(v) => Some(v + " ("@ + devinfo_text(v) + ")"@),
        None => None,
    }
}

/// The page for a Pico: silicon, flash, boot ROM and CPU, security, and the
/// application where there is one.
pub open spec fn pico_page(m: Map<Seq<char>, Seq<char>>, board: Seq<char>) -> Seq<Seq<char>> {
    let p = seq![row("  "@, "Board"@, 20, board)];
    let p = with_field_row(p, m, "type"@, "Chip"@);
    let p = with_field_row(p, m, "revision"@, "Chip revision"@);
    let p = with_field_row(p, m, "package"@, "Package"@);
    let p = with_field_row(p, m, "chipid"@, "Chip ID"@);
    let p = with_field_row(p, m, "unique id"@, "Unique ID"@);
    let p = with_field_row(p, m, "flash size"@, "Flash size"@);
    let p = with_row(p, "  "@, "Flash devinfo"@, 20, devinfo_shown(value_in(m, "flash devinfo"@)));
    let p = with_field_row(p, m, "ROM version"@, "ROM version"@);
    let p = with_field_row(p, m, "rom gitrev"@, "ROM gitrev"@);
    let p = with_field_row(p, m, "default cpu"@, "Default CPU"@);
    let p = with_field_row(p, m, "current cpu"@, "Current CPU"@);
    let p = with_field_row(p, m, "available cpus"@, "Available CPUs"@);
    let p = with_field_row(p, m, "boot type"@, "Boot type"@);
    let p = with_field_row(p, m, "last booted partition"@, "Last booted part"@);
    let p = with_field_row(p, m, "secure boot"@, "Secure boot"@);
    let p = with_field_row(p, m, "debug enable"@, "Debug enable"@);
    let p = with_field_row(p, m, "secure debug enable"@, "Secure debug"@);
    let p = with_field_row(p, m, "boot_random"@, "Boot random"@);
    let p = with_field_row(p, m, "boot2 name"@, "Boot2 stage"@);
    let p = with_field_row(p, m, "name"@, "Program name"@);
    let p = with_field_row(p, m, "description"@, "Program desc"@);
    let p = with_field_row(p, m, "features"@, "Features"@);
    let p = with_field_row(p, m, "sdk version"@, "SDK version"@);
    let p = with_field_row(p, m, "pico_board"@, "pico_board"@);
    let p = with_field_row(p, m, "binary start"@, "Binary start"@);
    let p = with_field_row(p, m, "binary end"@, "Binary end"@);
    let p = with_field_row(p, m, "build date"@, "Build date"@);
    let p = with_field_row(p, m, "build attributes"@, "Build attrs"@);
    let p = with_field_row(p, m, "build id"@, "Build ID"@);
    let p = with_field_row(p, m, "embedded drive"@, "Embedded drive"@);
    p
}

/// The lines that show the report.
pub fn print_pico_info(info: &Fields, board_name: &str) -> (page: Vec<String>)
    ensures
        texts(page@) == pico_page(info@, board_name@),
{
    let mut page: Vec<String> = Vec::new();
    push_line(&mut page, row_of("  ", "Board", 20, board_name));
    assert(texts(page@) =~= seq![row("  "@, "Board"@, 20, board_name@)]);
    push_field_row(&mut page, info, "type", "Chip");
    push_field_row(&mut page, info, "revision", "Chip revision");
    push_field_row(&mut page, info, "package", "Package");
    push_field_row(&mut page, info, "chipid", "Chip ID");
    push_field_row(&mut page, info, "unique id", "Unique ID");
    push_field_row(&mut page, info, "flash size", "Flash size");
    if let Some(v) = info.get("flash devinfo") {
        let mut value = joined(v, " (");
        value.append(decode_flash_devinfo(v).as_str());
        value.append(")");
        push_line(&mut page, row_of("  ", "Flash devinfo", 20, value.as_str()));
    }
    push_field_row(&mut page, info, "ROM version", "ROM version");
    push_field_row(&mut page, info, "rom gitrev", "ROM gitrev");
    push_field_row(&mut page, info, "default cpu", "Default CPU");
    push_field_row(&mut page, info, "current cpu", "Current CPU");
    push_field_row(&mut page, info, "available cpus", "Available CPUs");
    push_field_row(&mut page, info, "boot type", "Boot type");
    push_field_row(&mut page, info, "last booted partition", "Last booted part");
    push_field_row(&mut page, info, "secure boot", "Secure boot");
    push_field_row(&mut page, info, "debug enable", "Debug enable");
    push_field_row(&mut page, info, "secure debug enable", "Secure debug");
    push_field_row(&mut page, info, "boot_random", "Boot random");
    push_field_row(&mut page, info, "boot2 name", "Boot2 stage");
    push_field_row(&mut page, info, "name", "Program name");
    push_field_row(&mut page, info, "description", "Program desc");
    push_field_row(&mut page, info, "features", "Features");
    push_field_row(&mut page, info, "sdk version", "SDK version");
    push_field_row(&mut page, info, "pico_board", "pico_board");
    push_field_row(&mut page, info, "binary start", "Binary start");
    push_field_row(&mut page, info, "binary end", "Binary end");
    push_field_row(&mut page, info, "build date", "Build date");
    push_field_row(&mut page, info, "build attributes", "Build attrs");
    push_field_row(&mut page, info, "build id", "Build ID");
    push_field_row(&mut page, info, "embedded drive", "Embedded drive");
    page
}

// ── Running it ──────────────────────────────────────────────────────────
pub open spec fn picotool_full_args(vid: u16, pid: u16) -> Seq<Seq<char>> {
    seq![
        "info"@,
        "-a"@,
        "--vid"@,
        "0x"@ + hex_lower(vid as nat, 4),
        "--pid"@,
        "0x"@ + hex_lower(pid as nat, 4),
    ]
}

/// The arguments that `picotool` is run with. Newer versions accept --vid/--pid
/// to disambiguate; where that run does not start, `plain` ones are tried.
pub fn picotool_args(vid: u16, pid: u16, plain: bool) -> (args: Vec<String>)
    ensures
        texts(args@) == (if plain {
            seq!["info"@, "-a"@]
        } else {
            picotool_full_args(vid, pid)
        }),
{
    let mut args: Vec<String> = Vec::new();
    push_text(&mut args, "info");
    push_text(&mut args, "-a");
    if plain {
        assert(texts(args@) =~= seq!["info"@, "-a"@]);
        return args;
    }
    let mut vid_hex = "0x".to_string();
    push_hex_lower(&mut vid_hex, vid as u64, 4);
    let mut pid_hex = "0x".to_string();
    push_hex_lower(&mut pid_hex, pid as u64, 4);
    push_text(&mut args, "--vid");
    push_line(&mut args, vid_hex);
    push_text(&mut args, "--pid");
    push_line(&mut args, pid_hex);
    assert(texts(args@) =~= picotool_full_args(vid, pid));
    args
}

/// The lines that tell something of a failure: not blank, and not the pointer to
/// the help.
pub open spec fn told_lines(all: Seq<Seq<char>>) -> Seq<Seq<char>>
    decreases all.len(),
{
    if all.len() == 0 {
        Seq::empty()
    } else {
        let told = told_lines(all.drop_last());
        let line = all.last();
        if trim(line).len() > 0 && !starts_with(trim_start(line), "Use \"picotool help"@) {
            told.push(line)
        } else {
            told
        }
    }
}

pub const ZADIG_FIX: &'static str = "\n\nFix: install Zadig (https://zadig.akeo.ie/), then replace the driver of\nthe BOOTSEL interface with WinUSB. Steps:\n1. Run Zadig as admin\n2. Options menu → check 'List All Devices'\n3. Select the device showing as 'RP2 Boot' (or similar)\n4. Pick 'WinUSB' on the right side, click 'Replace Driver'\n5. Re-run usbipd-rs --probe";

/// Why `picotool` failed, with the fix where a driver is missing.
pub open spec fn picotool_error(output: ToolOutput) -> Seq<char> {
    let msg = join(told_lines(lines(output.stderr@) + lines(output.stdout@)), "\n"@);
    if contains(msg, "Zadig"@) || contains(lower(msg), "install a driver"@) {
        msg + ZADIG_FIX@
    } else {
        msg
    }
}

fn picotool_error_of(output: &ToolOutput) -> (s: String)
    ensures
        s@ == picotool_error(*output),
{
    let stdout = chars_of(output.stdout.as_str());
    let stderr = chars_of(output.stderr.as_str());
    let mut all = lines_of(stderr.as_slice());
    let mut more = lines_of(stdout.as_slice());
    let ghost seen = views(all@) + views(more@);
    all.append(&mut more);
    assert(views(all@) =~= seen);
    let mut told: Vec<String> = Vec::new();
    assert(texts(told@) =~= Seq::empty());
    let mut i: usize = 0;
    while i < all.len()
        invariant
            i <= all@.len(),
            seen == views(all@),
            texts(told@) == told_lines(seen.take(i as int)),
        decreases all.len() - i,
    {
        assert(seen[i as int] == all@[i as int]@);
        assert(seen.take(i + 1).drop_last() =~= seen.take(i as int));
        let line = all[i];
        if trim_of(line).len() > 0 && !has_prefix(trim_start_of(line), "Use \"picotool help") {
            push_line(&mut told, string_of(line));
        }
        i += 1;
    }
    assert(seen.take(i as int) =~= seen);
    let mut msg = join_of(&told, "\n");
    let chars = chars_of(msg.as_str());
    let low = lower_of(chars.as_slice());
    if has_text(chars.as_slice(), "Zadig") || has_text(low.as_slice(), "install a driver") {
        msg.append(ZADIG_FIX);
    }
    msg
}

pub open spec fn picotool_missing(tried: Seq<char>) -> Seq<char> {
    "picotool not found (tried "@ + tried
        + " and PATH). Install with: scoop install picotool"@
}

/// What a run of `picotool` gave; `None` stands for a program that could not be
/// started from where it was tried.
pub fn run_picotool_info(output: Option<&ToolOutput>, tried: &str) -> (r: Result<Fields, String>)
    ensures
        match r {
            Ok(f) => {
                &&& output matches Some(o)
                &&& o.success
                &&& f@ == picotool_info(lines(o.stdout@))
            },
            Err(e) => match output {
                Some(o) => !o.success && e@ == picotool_error(*o),
                None => e@ == picotool_missing(tried@),
            },
        },
{
    match output {
        None => {
            let mut e = joined("picotool not found (tried ", tried);
            e.append(" and PATH). Install with: scoop install picotool");
            Err(e)
        },
        Some(o) => if o.success {
            Ok(parse_picotool_output(o.stdout.as_str()))
        } else {
            Err(picotool_error_of(o))
        },
    }
}

/// A line `name: value` gives the value under the name, with whatever white space. A
/// line without a colon is a heading, and a value that is missing or `none` is none.
pub proof fn law_picotool_lines(
    a: Seq<char>,
    name: Seq<char>,
    b: Seq<char>,
    c: Seq<char>,
    value: Seq<char>,
    d: Seq<char>,
    line: Seq<char>,
)
    requires
        all_white(a) && all_white(b) && all_white(c) && all_white(d),
        is_trimmed(name) && is_trimmed(value),
        lacks(name, ':'),
    ensures
        value != "none"@ ==> picotool_entry(spaced_line(a, name, b, c, value, d)) == Some(
            (name, value),
        ),
        value == "none"@ ==> picotool_entry(spaced_line(a, name, b, c, value, d)) is None,
        picotool_entry(a + name + b + seq![':'] + c) is None,
        lacks(line, ':') ==> picotool_entry(line) is None,
{
    lemma_name_and_value(a, name, b, c, value, d);
    lemma_name_without_value(a, name, b, c);
    if lacks(line, ':') {
        lemma_nothing_to_cut(line, ':');
    }
}

/// The value of a name is the one that the last line with that name gives; a name that no
/// line gives has none.
pub proof fn law_picotool_values(all: Seq<Seq<char>>, k: int, name: Seq<char>)
    requires
        0 <= k < all.len(),
        picotool_entry(all[k]) is Some,
        forall|j: int|
            k < j < all.len() ==> entry_name(#[trigger] picotool_entry(all[j])) != entry_name(
                picotool_entry(all[k]),
            ),
    ensures
        value_in(picotool_info(all), entry_name(picotool_entry(all[k]))->0) == entry_value(
            picotool_entry(all[k]),
        ),
        (forall|j: int|
            0 <= j < all.len() ==> entry_name(#[trigger] picotool_entry(all[j])) != Some(name))
            ==> value_in(picotool_info(all), name) is None,
{
    let entry = |l: Seq<char>| picotool_entry(l);
    assert forall|j: int| k < j < all.len() implies entry_name(#[trigger] entry(all[j]))
        != entry_name(entry(all[k])) by {
        assert(entry_name(picotool_entry(all[j])) != entry_name(picotool_entry(all[k])));
    }
    law_last_line_decides(all, Map::empty(), entry, k);
    let f = |m: Map<Seq<char>, Seq<char>>, l: Seq<char>| with_entry(m, entry(l));
    let g = |m: Map<Seq<char>, Seq<char>>, l: Seq<char>| with_entry(m, picotool_entry(l));
    assert(f =~= g);
    if forall|j: int|
        0 <= j < all.len() ==> entry_name(#[trigger] picotool_entry(all[j])) != Some(name) {
        assert forall|j: int| 0 <= j < all.len() implies entry_name(#[trigger] entry(all[j]))
            != Some(name) by {
            assert(entry_name(picotool_entry(all[j])) != Some(name));
        }
        law_other_names_are_left_alone(all, Map::empty(), entry, name);
    }
}

/// The flash bitfield: its low four bits are the code of the first chip select, where zero
/// means that the size is detected; bit 15 says that there is a second one, on the GPIO in
/// bits 8 to 11 and with the code in bits 4 to 7. What is no hex number is not decoded.
pub proof fn law_flash_bitfield(v: Seq<char>, n: u32)
    requires
        number(without_0x(trim(v)), 16, u32::MAX as nat) == Some(n as nat),
    ensures
        ({
            let text = devinfo_text(v);
            let code = n % 16;
            let first = if code == 0 {
                "CS0 default — SDK auto-detects"@
            } else {
                "CS0 code 0x"@ + hex_lower(code as nat, 1)
            };
            &&& n / 0x8000 % 2 == 0 ==> text == first
            &&& n / 0x8000 % 2 == 1 ==> text == first + "; "@ + "CS1 on GPIO "@ + decimal(
                (n / 0x100 % 16) as nat,
            ) + ", code 0x"@ + hex_lower((n / 0x10 % 16) as nat, 1)
        }),
{
    assert(n & 0xF == n % 16) by (bit_vector);
    assert((n >> 15) & 0x1 == n / 0x8000 % 2) by (bit_vector);
    assert((n >> 8) & 0xF == n / 0x100 % 16) by (bit_vector);
    assert((n >> 4) & 0xF == n / 0x10 % 16) by (bit_vector);
    let code = n % 16;
    let first = if code == 0 {
        "CS0 default — SDK auto-detects"@
    } else {
        "CS0 code 0x"@ + hex_lower(code as nat, 1)
    };
    if n / 0x8000 % 2 == 1 {
        assert(devinfo_text(v) =~= first + "; "@ + "CS1 on GPIO "@ + decimal(
            (n / 0x100 % 16) as nat,
        ) + ", code 0x"@ + hex_lower((n / 0x10 % 16) as nat, 1));
    }
}

/// A bitfield is written in hex, with `0x` in front or without; anything else is shown as
/// not understood.
pub proof fn law_flash_bitfield_is_hex(digits: Seq<char>, v: Seq<char>)
    requires
        digits.len() > 0,
        all_digits(digits, 16),
    ensures
        without_0x("0x"@ + digits) == digits,
        without_0x(digits) == digits,
        number(without_0x(trim(v)), 16, u32::MAX as nat) is None ==> devinfo_text(v) == "?"@,
{
    reveal_strlit("0x");
    if digits.len() >= 2 {
        assert(digit_value(digits[1], 16) is Some);
        assert(digits.take(2)[1] == digits[1]);
    }
    law_prefix("0x"@, digits, digits);
    reveal_with_fuel(without_0x, 2);
}

/// What is told of a failure: of all lines, those that are not blank and do not point to
/// the help, in their order.
pub proof fn law_told_lines(a: Seq<Seq<char>>, b: Seq<Seq<char>>, line: Seq<char>)
    ensures
        told_lines(a + b) == told_lines(a) + told_lines(b),
        trim(line).len() > 0 && !starts_with(trim_start(line), "Use \"picotool help"@) ==> told_lines(
            seq![line],
        ) == seq![line],
        trim(line).len() == 0 || starts_with(trim_start(line), "Use \"picotool help"@) ==> told_lines(
            seq![line],
        ) == Seq::<Seq<char>>::empty(),
    decreases b.len(),
{
    let one = seq![line];
    assert(one.drop_last() =~= Seq::empty());
    assert(one.last() == line);
    reveal_with_fuel(told_lines, 2);
    assert(Seq::<Seq<char>>::empty().push(line) =~= one);
    if b.len() == 0 {
        assert(a + b =~= a);
        assert(told_lines(a) + told_lines(b) =~= told_lines(a));
    } else {
        law_told_lines(a, b.drop_last(), line);
        assert((a + b).drop_last() =~= a + b.drop_last());
        assert((a + b).last() == b.last());
        assert(told_lines(a + b) =~= told_lines(a) + told_lines(b));
    }
}

/// A failure shows what the program told, and the way to a driver exactly where it speaks
/// of one.
pub proof fn law_picotool_failure(o: ToolOutput)
    ensures
        ({
            let told = join(told_lines(lines(o.stderr@) + lines(o.stdout@)), "\n"@);
            let driver = contains(told, "Zadig"@) || contains(lower(told), "install a driver"@);
            &&& driver ==> picotool_error(o) == told + ZADIG_FIX@
            &&& !driver ==> picotool_error(o) == told
        }),
{
}

/// Every value that has a place on the page is shown there, under its label.
pub proof fn law_pico_page_shows_every_value(m: Map<Seq<char>, Seq<char>>, board: Seq<char>)
    ensures
        m.contains_key("type"@) ==> pico_page(m, board).contains(
            row("  "@, "Chip"@, 20, m["type"@]),
        ),
        m.contains_key("revision"@) ==> pico_page(m, board).contains(
            row("  "@, "Chip revision"@, 20, m["revision"@]),
        ),
        m.contains_key("package"@) ==> pico_page(m, board).contains(
            row("  "@, "Package"@, 20, m["package"@]),
        ),
        m.contains_key("chipid"@) ==> pico_page(m, board).contains(
            row("  "@, "Chip ID"@, 20, m["chipid"@]),
        ),
        m.contains_key("unique id"@) ==> pico_page(m, board).contains(
            row("  "@, "Unique ID"@, 20, m["unique id"@]),
        ),
        m.contains_key("flash size"@) ==> pico_page(m, board).contains(
            row("  "@, "Flash size"@, 20, m["flash size"@]),
        ),
        m.contains_key("ROM version"@) ==> pico_page(m, board).contains(
            row("  "@, "ROM version"@, 20, m["ROM version"@]),
        ),
        m.contains_key("rom gitrev"@) ==> pico_page(m, board).contains(
            row("  "@, "ROM gitrev"@, 20, m["rom gitrev"@]),
        ),
        m.contains_key("default cpu"@) ==> pico_page(m, board).contains(
            row("  "@, "Default CPU"@, 20, m["default cpu"@]),
        ),
        m.contains_key("current cpu"@) ==> pico_page(m, board).contains(
            row("  "@, "Current CPU"@, 20, m["current cpu"@]),
        ),
        m.contains_key("available cpus"@) ==> pico_page(m, board).contains(
            row("  "@, "Available CPUs"@, 20, m["available cpus"@]),
        ),
        m.contains_key("boot type"@) ==> pico_page(m, board).contains(
            row("  "@, "Boot type"@, 20, m["boot type"@]),
        ),
        m.contains_key("last booted partition"@) ==> pico_page(m, board).contains(
            row("  "@, "Last booted part"@, 20, m["last booted partition"@]),
        ),
        m.contains_key("secure boot"@) ==> pico_page(m, board).contains(
            row("  "@, "Secure boot"@, 20, m["secure boot"@]),
        ),
        m.contains_key("debug enable"@) ==> pico_page(m, board).contains(
            row("  "@, "Debug enable"@, 20, m["debug enable"@]),
        ),
        m.contains_key("secure debug enable"@) ==> pico_page(m, board).contains(
            row("  "@, "Secure debug"@, 20, m["secure debug enable"@]),
        ),
        m.contains_key("boot_random"@) ==> pico_page(m, board).contains(
            row("  "@, "Boot random"@, 20, m["boot_random"@]),
        ),
        m.contains_key("boot2 name"@) ==> pico_page(m, board).contains(
            row("  "@, "Boot2 stage"@, 20, m["boot2 name"@]),
        ),
        m.contains_key("name"@) ==> pico_page(m, board).contains(
            row("  "@, "Program name"@, 20, m["name"@]),
        ),
        m.contains_key("description"@) ==> pico_page(m, board).contains(
            row("  "@, "Program desc"@, 20, m["description"@]),
        ),
        m.contains_key("features"@) ==> pico_page(m, board).contains(
            row("  "@, "Features"@, 20, m["features"@]),
        ),
        m.contains_key("sdk version"@) ==> pico_page(m, board).contains(
            row("  "@, "SDK version"@, 20, m["sdk version"@]),
        ),
        m.contains_key("pico_board"@) ==> pico_page(m, board).contains(
            row("  "@, "pico_board"@, 20, m["pico_board"@]),
        ),
        m.contains_key("binary start"@) ==> pico_page(m, board).contains(
            row("  "@, "Binary start"@, 20, m["binary start"@]),
        ),
        m.contains_key("binary end"@) ==> pico_page(m, board).contains(
            row("  "@, "Binary end"@, 20, m["binary end"@]),
        ),
        m.contains_key("build date"@) ==> pico_page(m, board).contains(
            row("  "@, "Build date"@, 20, m["build date"@]),
        ),
        m.contains_key("build attributes"@) ==> pico_page(m, board).contains(
            row("  "@, "Build attrs"@, 20, m["build attributes"@]),
        ),
        m.contains_key("build id"@) ==> pico_page(m, board).contains(
            row("  "@, "Build ID"@, 20, m["build id"@]),
        ),
        m.contains_key("embedded drive"@) ==> pico_page(m, board).contains(
            row("  "@, "Embedded drive"@, 20, m["embedded drive"@]),
        ),
{
    let p = seq![row("  "@, "Board"@, 20, board)];
    lemma_with_field_row(p, m, "type"@, "Chip"@);
    let p = with_field_row(p, m, "type"@, "Chip"@);
    lemma_with_field_row(p, m, "revision"@, "Chip revision"@);
    let p = with_field_row(p, m, "revision"@, "Chip revision"@);
    lemma_with_field_row(p, m, "package"@, "Package"@);
    let p = with_field_row(p, m, "package"@, "Package"@);
    lemma_with_field_row(p, m, "chipid"@, "Chip ID"@);
    let p = with_field_row(p, m, "chipid"@, "Chip ID"@);
    lemma_with_field_row(p, m, "unique id"@, "Unique ID"@);
    let p = with_field_row(p, m, "unique id"@, "Unique ID"@);
    lemma_with_field_row(p, m, "flash size"@, "Flash size"@);
    let p = with_field_row(p, m, "flash size"@, "Flash size"@);
    lemma_with_row(p, "  "@, "Flash devinfo"@, 20, devinfo_shown(value_in(m, "flash devinfo"@)));
    let p = with_row(p, "  "@, "Flash devinfo"@, 20, devinfo_shown(value_in(m, "flash devinfo"@)));
    lemma_with_field_row(p, m, "ROM version"@, "ROM version"@);
    let p = with_field_row(p, m, "ROM version"@, "ROM version"@);
    lemma_with_field_row(p, m, "rom gitrev"@, "ROM gitrev"@);
    let p = with_field_row(p, m, "rom gitrev"@, "ROM gitrev"@);
    lemma_with_field_row(p, m, "default cpu"@, "Default CPU"@);
    let p = with_field_row(p, m, "default cpu"@, "Default CPU"@);
    lemma_with_field_row(p, m, "current cpu"@, "Current CPU"@);
    let p = with_field_row(p, m, "current cpu"@, "Current CPU"@);
    lemma_with_field_row(p, m, "available cpus"@, "Available CPUs"@);
    let p = with_field_row(p, m, "available cpus"@, "Available CPUs"@);
    lemma_with_field_row(p, m, "boot type"@, "Boot type"@);
    let p = with_field_row(p, m, "boot type"@, "Boot type"@);
    lemma_with_field_row(p, m, "last booted partition"@, "Last booted part"@);
    let p = with_field_row(p, m, "last booted partition"@, "Last booted part"@);
    lemma_with_field_row(p, m, "secure boot"@, "Secure boot"@);
    let p = with_field_row(p, m, "secure boot"@, "Secure boot"@);
    lemma_with_field_row(p, m, "debug enable"@, "Debug enable"@);
    let p = with_field_row(p, m, "debug enable"@, "Debug enable"@);
    lemma_with_field_row(p, m, "secure debug enable"@, "Secure debug"@);
    let p = with_field_row(p, m, "secure debug enable"@, "Secure debug"@);
    lemma_with_field_row(p, m, "boot_random"@, "Boot random"@);
    let p = with_field_row(p, m, "boot_random"@, "Boot random"@);
    lemma_with_field_row(p, m, "boot2 name"@, "Boot2 stage"@);
    let p = with_field_row(p, m, "boot2 name"@, "Boot2 stage"@);
    lemma_with_field_row(p, m, "name"@, "Program name"@);
    let p = with_field_row(p, m, "name"@, "Program name"@);
    lemma_with_field_row(p, m, "description"@, "Program desc"@);
    let p = with_field_row(p, m, "description"@, "Program desc"@);
    lemma_with_field_row(p, m, "features"@, "Features"@);
    let p = with_field_row(p, m, "features"@, "Features"@);
    lemma_with_field_row(p, m, "sdk version"@, "SDK version"@);
    let p = with_field_row(p, m, "sdk version"@, "SDK version"@);
    lemma_with_field_row(p, m, "pico_board"@, "pico_board"@);
    let p = with_field_row(p, m, "pico_board"@, "pico_board"@);
    lemma_with_field_row(p, m, "binary start"@, "Binary start"@);
    let p = with_field_row(p, m, "binary start"@, "Binary start"@);
    lemma_with_field_row(p, m, "binary end"@, "Binary end"@);
    let p = with_field_row(p, m, "binary end"@, "Binary end"@);
    lemma_with_field_row(p, m, "build date"@, "Build date"@);
    let p = with_field_row(p, m, "build date"@, "Build date"@);
    lemma_with_field_row(p, m, "build attributes"@, "Build attrs"@);
    let p = with_field_row(p, m, "build attributes"@, "Build attrs"@);
    lemma_with_field_row(p, m, "build id"@, "Build ID"@);
    let p = with_field_row(p, m, "build id"@, "Build ID"@);
    lemma_with_field_row(p, m, "embedded drive"@, "Embedded drive"@);
    let p = with_field_row(p, m, "embedded drive"@, "Embedded drive"@);
}

/// The tool is asked for everything about the one device, and where it is missing the
/// place that was tried is named.
pub proof fn law_picotool_is_asked_for_the_device(vid: u16, pid: u16, tried: Seq<char>)
    ensures
        picotool_full_args(vid, pid) == seq![
            "info"@,
            "-a"@,
            "--vid"@,
            "0x"@ + hex_lower(vid as nat, 4),
            "--pid"@,
            "0x"@ + hex_lower(pid as nat, 4),
        ],
        starts_with(picotool_missing(tried), "picotool not found (tried "@ + tried),
{
    let head = "picotool not found (tried "@ + tried;
    assert(picotool_missing(tried).take(head.len() as int) =~= head);
}

} // verus!
