//! Arduino-class boards, by what `avrdude` prints.
use vstd::prelude::*;
use vstd::slice::slice_subrange;
use vstd::string::*;
use crate::boards::{target_models, AvrTarget, TargetModel};
use crate::fields::{
    fields_of, lemma_with_field_row, push_field_row, value_in, with_field_row, Fields,
};
use crate::number::{decimal, push_decimal};
use crate::page::{push_line, push_text, row, row_of};
use crate::pieces::{
    drop_trailing, drop_trailing_of, law_drop_trailing, lines, lines_of, lower, lower_of,
    same_ignoring_case,
};
use crate::text::{
    chars_of, contains, drop_white, ends_with, find, find_char_from, find_text, find_text_of,
    has_text, is_text, is_trimmed, lacks, law_contains_within, law_prefix,
    law_trim_finds_the_text, lemma_drop_white, lemma_find_text_from, lemma_found_at, same,
    starts_with, string_of, strip_prefix, strip_prefix_of, texts, trim, trim_end, trim_end_of, trim_of, views,
};
use crate::tool::ToolOutput;

verus! {

// ── What went wrong ─────────────────────────────────────────────────────
/// The last line that is not blank, trimmed.
pub open spec fn last_trimmed(all: Seq<Seq<char>>) -> Option<Seq<char>>
    decreases all.len(),
{
    if all.len() == 0 {
        None
    } else if trim(all.last()).len() > 0 {
        Some(trim(all.last()))
    } else {
        last_trimmed(all.drop_last())
    }
}

/// The last line that tells a signature, trimmed.
pub open spec fn last_signature(all: Seq<Seq<char>>) -> Option<Seq<char>>
    decreases all.len(),
{
    if all.len() == 0 {
        None
    } else if contains(trim(all.last()), "Device signature"@) {
        Some(trim(all.last()))
    } else {
        last_signature(all.drop_last())
    }
}

/// The attempt (programmer and baud rate), the signature that was read where
/// that is not the last word, and the last word.
pub open spec fn avr_error(stderr: Seq<char>, programmer: Seq<char>, baud: u32) -> Seq<char> {
    let all = lines(stderr);
    let last = match last_trimmed(all) {
        Some(line) => line,
        None => "unknown"@,
    };
    let attempt = programmer + " @ "@ + decimal(baud as nat) + " baud"@;
    match last_signature(all) {
        Some(sig) => if sig != last {
            attempt + " — "@ + sig + "; "@ + last
        } else {
            attempt + " — "@ + last
        },
        None => attempt + " — "@ + last,
    }
}

fn last_trimmed_of<'a>(all: &Vec<&'a [char]>) -> (r: Option<&'a [char]>)
    ensures
        match r {
            Some(line) => last_trimmed(views(all@)) == Some(line@),
            None => last_trimmed(views(all@)) is None,
        },
{
    let ghost seen = views(all@);
    let mut n: usize = all.len();
    assert(seen.take(n as int) =~= seen);
    while n > 0
        invariant
            n <= all@.len(),
            seen == views(all@),
            last_trimmed(seen) == last_trimmed(seen.take(n as int)),
        decreases n,
    {
        assert(seen.take(n as int).last() == all@[n - 1]@);
        assert(seen.take(n as int).drop_last() =~= seen.take(n - 1));
        let line = trim_of(all[n - 1]);
        if line.len() > 0 {
            return Some(line);
        }
        n -= 1;
    }
    None
}

fn last_signature_of<'a>(all: &Vec<&'a [char]>) -> (r: Option<&'a [char]>)
    ensures
        match r {
            Some(line) => last_signature(views(all@)) == Some(line@),
            None => last_signature(views(all@)) is None,
        },
{
    let ghost seen = views(all@);
    let mut n: usize = all.len();
    assert(seen.take(n as int) =~= seen);
    while n > 0
        invariant
            n <= all@.len(),
            seen == views(all@),
            last_signature(seen) == last_signature(seen.take(n as int)),
        decreases n,
    {
        assert(seen.take(n as int).last() == all@[n - 1]@);
        assert(seen.take(n as int).drop_last() =~= seen.take(n - 1));
        let line = trim_of(all[n - 1]);
        if has_text(line, "Device signature") {
            return Some(line);
        }
        n -= 1;
    }
    None
}

/// Names the attempt (programmer + baud) so a multi-target probe makes clear
/// which bootloader dialect failed. A signature mismatch (wrong -p) is the
/// most actionable failure, but the "Device signature = ..." line isn't the
/// last one avrdude prints — it is pulled out so the caller can tell a wrong MCU
/// guess from a baud/wiring problem.
pub fn summarize_avrdude_error(stderr: &str, target: &AvrTarget, baud: u32) -> (s: String)
    ensures
        s@ == avr_error(stderr@, target.programmer@, baud),
{
    let text = chars_of(stderr);
    let unknown = chars_of("unknown");
    let all = lines_of(text.as_slice());
    let last = match last_trimmed_of(&all) {
        Some(line) => line,
        None => unknown.as_slice(),
    };
    let mut s = target.programmer.to_string();
    s.append(" @ ");
    push_decimal(&mut s, baud as u64);
    s.append(" baud");
    s.append(" — ");
    if let Some(sig) = last_signature_of(&all) {
        if !same(sig, last) {
            s.append(string_of(sig).as_str());
            s.append("; ");
        }
    }
    s.append(string_of(last).as_str());
    s
}

// ── What was read ───────────────────────────────────────────────────────
/// The value behind the first colon of a line that begins with `prefix`, unless
/// it is empty.
pub open spec fn prefixed_value(line: Seq<char>, prefix: Seq<char>) -> Option<Seq<char>> {
    match strip_prefix(line, prefix) {
        Some(rest) => {
            let i = find(rest, ':');
            if i < rest.len() && trim(rest.skip(i + 1)).len() > 0 {
                Some(trim(rest.skip(i + 1)))
            } else {
                None
            }
        },
        None => None,
    }
}

/// The fields with the value of one prefix more, under its label.
pub open spec fn with_prefixed(
    m: Map<Seq<char>, Seq<char>>,
    line: Seq<char>,
    prefix: Seq<char>,
    label: Seq<char>,
) -> Map<Seq<char>, Seq<char>> {
    match prefixed_value(line, prefix) {
        Some(v) => m.insert(label, v),
        None => m,
    }
}

/// The signature of a line such as `1E 95 0F (ATmega328P, LGT8F328P)`, and the
/// parts that share it.
pub open spec fn signature_parts(rest: Seq<char>) -> (Seq<char>, Seq<char>) {
    match find_text(rest, " ("@) {
        Some(i) => (trim(rest.take(i)), trim(drop_trailing(rest.skip(i + 2), ')', ')'))),
        None => (trim(rest), ""@),
    }
}

/// The fields with the signature of a line more.
pub open spec fn with_signature(m: Map<Seq<char>, Seq<char>>, line: Seq<char>) -> Map<
    Seq<char>,
    Seq<char>,
> {
    match strip_prefix(line, "Device signature = "@) {
        Some(rest) => {
            let (sig, alt) = signature_parts(rest);
            let m = m.insert("Signature"@, sig);
            if alt.len() > 0 {
                m.insert("Sig matches"@, alt)
            } else {
                m
            }
        },
        None => m,
    }
}

/// The fields with what one line says more.
pub open spec fn with_avr_line(m: Map<Seq<char>, Seq<char>>, raw: Seq<char>) -> Map<
    Seq<char>,
    Seq<char>,
> {
    let line = trim_end(raw);
    let m = with_prefixed(m, line, "AVR part"@, "Detected MCU"@);
    let m = with_prefixed(m, line, "Programmer type"@, "Programmer"@);
    let m = with_prefixed(m, line, "Description"@, "Bootloader"@);
    let m = with_prefixed(m, line, "HW Version"@, "HW Version"@);
    let m = with_prefixed(m, line, "FW Version"@, "FW Version"@);
    let m = with_prefixed(m, line, "Programming modes"@, "Modes"@);
    with_signature(m, line)
}

/// Everything that the output says of the MCU, with the one that was asked for.
pub open spec fn avr_info(lines: Seq<Seq<char>>, requested: Seq<char>) -> Map<
    Seq<char>,
    Seq<char>,
> {
    fields_of(
        lines,
        Map::empty().insert("Requested MCU"@, requested),
        |m: Map<Seq<char>, Seq<char>>, l: Seq<char>| with_avr_line(m, l),
    )
}

fn keep_prefixed(f: &mut Fields, line: &[char], prefix: &str, label: &str)
    ensures
        final(f)@ == with_prefixed(old(f)@, line@, prefix@, label@),
{
    if let Some(rest) = strip_prefix_of(line, prefix) {
        let i = find_char_from(rest, ':', 0);
        if i < rest.len() {
            let value = trim_of(slice_subrange(rest, i + 1, rest.len()));
            if value.len() > 0 {
                f.insert(label.to_string(), string_of(value));
            }
        }
    }
}

fn keep_signature(f: &mut Fields, line: &[char])
    ensures
        final(f)@ == with_signature(old(f)@, line@),
{
    if let Some(rest) = strip_prefix_of(line, "Device signature = ") {
        let none = chars_of("");
        let total: usize = rest.len();
        let (sig, alt) = match find_text_of(rest, " (") {
            Some(i) => {
                proof {
                    reveal_strlit(" (");
                }
                (
                    trim_of(slice_subrange(rest, 0, i)),
                    trim_of(drop_trailing_of(slice_subrange(rest, i + 2, total), ')', ')')),
                )
            },
            None => (trim_of(rest), none.as_slice()),
        };
        f.insert("Signature".to_string(), string_of(sig));
        if alt.len() > 0 {
            f.insert("Sig matches".to_string(), string_of(alt));
        }
    }
}

pub fn parse_avrdude_output(_stdout: &str, stderr: &str, requested_mcu: &str) -> (f: Fields)
    ensures
        f@ == avr_info(lines(stderr@), requested_mcu@),
{
    let text = chars_of(stderr);
    let all = lines_of(text.as_slice());
    let ghost seen = views(all@);
    let mut f = Fields::new();
    f.insert("Requested MCU".to_string(), requested_mcu.to_string());
    let mut i: usize = 0;
    while i < all.len()
        invariant
            i <= all@.len(),
            seen == views(all@),
            f@ == avr_info(seen.take(i as int), requested_mcu@),
        decreases all.len() - i,
    {
        assert(seen[i as int] == all@[i as int]@);
        assert(seen.take(i + 1).drop_last() =~= seen.take(i as int));
        let line = trim_end_of(all[i]);
        keep_prefixed(&mut f, line, "AVR part", "Detected MCU");
        keep_prefixed(&mut f, line, "Programmer type", "Programmer");
        keep_prefixed(&mut f, line, "Description", "Bootloader");
        keep_prefixed(&mut f, line, "HW Version", "HW Version");
        keep_prefixed(&mut f, line, "FW Version", "FW Version");
        keep_prefixed(&mut f, line, "Programming modes", "Modes");
        keep_signature(&mut f, line);
        i += 1;
    }
    assert(seen.take(i as int) =~= seen);
    f
}

// ── The page ────────────────────────────────────────────────────────────
/// What a chip of this name has; nothing where it is not known.
pub open spec fn chip_summary(mcu: Seq<char>) -> &'static str {
    let low = lower(mcu);
    if low == "atmega328p"@ || low == "atmega328"@ {
        "32 KB flash, 2 KB SRAM, 1 KB EEPROM, 16 MHz"
    } else if low == "atmega2560"@ {
        "256 KB flash, 8 KB SRAM, 4 KB EEPROM, 16 MHz"
    } else if low == "atmega32u4"@ {
        "32 KB flash, 2.5 KB SRAM, 1 KB EEPROM, 16 MHz, native USB"
    } else if low == "atmega168"@ {
        "16 KB flash, 1 KB SRAM, 512 B EEPROM, 16 MHz"
    } else {
        ""
    }
}

pub fn avr_chip_summary(mcu: &str) -> (s: &'static str)
    ensures
        s == chip_summary(mcu@),
{
    let mcu = chars_of(mcu);
    let low = lower_of(mcu.as_slice());
    let low = low.as_slice();
    if is_text(low, "atmega328p") || is_text(low, "atmega328") {
        "32 KB flash, 2 KB SRAM, 1 KB EEPROM, 16 MHz"
    } else if is_text(low, "atmega2560") {
        "256 KB flash, 8 KB SRAM, 4 KB EEPROM, 16 MHz"
    } else if is_text(low, "atmega32u4") {
        "32 KB flash, 2.5 KB SRAM, 1 KB EEPROM, 16 MHz, native USB"
    } else if is_text(low, "atmega168") {
        "16 KB flash, 1 KB SRAM, 512 B EEPROM, 16 MHz"
    } else {
        ""
    }
}

/// The page with the summary of a known chip.
pub open spec fn with_summary(page: Seq<Seq<char>>, mcu: Option<Seq<char>>) -> Seq<Seq<char>> {
    match mcu {
        Some(mcu) => if chip_summary(mcu)@.len() > 0 {
            page.push(row("  "@, "Summary"@, 20, chip_summary(mcu)@))
        } else {
            page
        },
        None => page,
    }
}

/// The page for an Arduino-class board.
pub open spec fn avr_page(m: Map<Seq<char>, Seq<char>>, board: Seq<char>) -> Seq<Seq<char>> {
    let p = seq![row("  "@, "Board"@, 20, board)];
    let p = with_field_row(p, m, "Detected MCU"@, "Detected MCU"@);
    let p = with_field_row(p, m, "Signature"@, "Signature"@);
    let p = with_field_row(p, m, "Sig matches"@, "Sig matches"@);
    let p = with_field_row(p, m, "Programmer"@, "Programmer"@);
    let p = with_field_row(p, m, "Bootloader"@, "Bootloader"@);
    let p = with_field_row(p, m, "HW Version"@, "HW Version"@);
    let p = with_field_row(p, m, "FW Version"@, "FW Version"@);
    let p = with_field_row(p, m, "Modes"@, "Modes"@);
    let p = with_summary(p, value_in(m, "Detected MCU"@));
    p.push(row("  "@, "Fuses"@, 20, "(fuses require an ISP programmer on the ICSP header)"@))
}

/// The lines that show the report.
pub fn print_avr_info(info: &Fields, board_name: &str) -> (page: Vec<String>)
    ensures
        texts(page@) == avr_page(info@, board_name@),
{
    let mut page: Vec<String> = Vec::new();
    push_line(&mut page, row_of("  ", "Board", 20, board_name));
    assert(texts(page@) =~= seq![row("  "@, "Board"@, 20, board_name@)]);
    push_field_row(&mut page, info, "Detected MCU", "Detected MCU");
    push_field_row(&mut page, info, "Signature", "Signature");
    push_field_row(&mut page, info, "Sig matches", "Sig matches");
    push_field_row(&mut page, info, "Programmer", "Programmer");
    push_field_row(&mut page, info, "Bootloader", "Bootloader");
    push_field_row(&mut page, info, "HW Version", "HW Version");
    push_field_row(&mut page, info, "FW Version", "FW Version");
    push_field_row(&mut page, info, "Modes", "Modes");
    if let Some(mcu) = info.get("Detected MCU") {
        let summary = avr_chip_summary(mcu);
        if !summary.is_empty() {
            push_line(&mut page, row_of("  ", "Summary", 20, summary));
        }
    }
    push_line(
        &mut page,
        row_of("  ", "Fuses", 20, "(fuses require an ISP programmer on the ICSP header)"),
    );
    page
}

// ── Running it ──────────────────────────────────────────────────────────
/// One attempt: a target and one of its baud rates.
pub struct Attempt {
    pub target: TargetModel,
    pub baud: u32,
}

/// The attempts for one target.
pub open spec fn target_attempts(t: TargetModel) -> Seq<Attempt> {
    Seq::new(t.bauds.len(), |j: int| Attempt { target: t, baud: t.bauds[j] })
}

/// The attempts for all targets, in order.
pub open spec fn attempts(targets: Seq<TargetModel>) -> Seq<Attempt>
    decreases targets.len(),
{
    if targets.len() == 0 {
        Seq::empty()
    } else {
        attempts(targets.drop_last()) + target_attempts(targets.last())
    }
}

/// `-F` overrides avrdude's signature check: when the actual MCU differs from
/// `-p` (a 328PB / 168 / LGT8F328P clone), the run still succeeds and reports
/// the true signature. It only relaxes the post-connect check — a board that
/// never syncs still fails cleanly. Probing is read-only (no -U).
pub open spec fn avrdude_args(port: Seq<char>, a: Attempt) -> Seq<Seq<char>> {
    seq![
        "-c"@,
        a.target.programmer@,
        "-p"@,
        a.target.mcu@,
        "-P"@,
        port,
        "-b"@,
        decimal(a.baud as nat),
        "-F"@,
        "-v"@,
    ]
}

pub const AVRDUDE_MISSING: &'static str = "avrdude not found on PATH (install via Arduino IDE, PlatformIO, or scoop install avrdude)";

/// What comes next in a query.
#[derive(Debug)]
pub enum AvrQuery {
    /// Run `avrdude` with these arguments and ask again with its output added.
    Run(Vec<String>),
    /// The query is over.
    Done(Result<Fields, String>),
}

pub enum AvrQueryView {
    Run(Seq<Seq<char>>),
    Done(Result<Map<Seq<char>, Seq<char>>, Seq<char>>),
}

impl View for AvrQuery {
    type V = AvrQueryView;

    open spec fn view(&self) -> AvrQueryView {
        match *self {
            AvrQuery::Run(args) => AvrQueryView::Run(texts(args@)),
            AvrQuery::Done(Ok(f)) => AvrQueryView::Done(Ok(f@)),
            AvrQuery::Done(Err(e)) => AvrQueryView::Done(Err(e@)),
        }
    }
}

/// The query from the `i`-th attempt on: the first run that succeeds decides;
/// where none does, the error of the last one stands; a program that cannot be
/// started ends it at once.
pub open spec fn avr_query(
    port: Seq<char>,
    all: Seq<Attempt>,
    outputs: Seq<Option<ToolOutput>>,
    i: int,
    last_error: Seq<char>,
) -> AvrQueryView
    decreases all.len() - i,
{
    if i < 0 || i >= all.len() {
        AvrQueryView::Done(Err(last_error))
    } else if i >= outputs.len() {
        AvrQueryView::Run(avrdude_args(port, all[i]))
    } else {
        match outputs[i] {
            None => AvrQueryView::Done(Err(AVRDUDE_MISSING@)),
            Some(o) => if o.success {
                AvrQueryView::Done(Ok(avr_info(lines(o.stderr@), all[i].target.mcu@)))
            } else {
                avr_query(
                    port,
                    all,
                    outputs,
                    i + 1,
                    avr_error(o.stderr@, all[i].target.programmer@, all[i].baud),
                )
            },
        }
    }
}

fn avrdude_args_of(port: &str, target: &AvrTarget, baud: u32) -> (args: Vec<String>)
    ensures
        texts(args@) == avrdude_args(port@, (Attempt { target: target@, baud })),
{
    let mut args: Vec<String> = Vec::new();
    push_text(&mut args, "-c");
    push_text(&mut args, target.programmer);
    push_text(&mut args, "-p");
    push_text(&mut args, target.mcu);
    push_text(&mut args, "-P");
    push_text(&mut args, port);
    push_text(&mut args, "-b");
    let mut b = String::new();
    push_decimal(&mut b, baud as u64);
    assert(b@ =~= decimal(baud as nat));
    push_line(&mut args, b);
    push_text(&mut args, "-F");
    push_text(&mut args, "-v");
    assert(texts(args@) =~= avrdude_args(port@, (Attempt { target: target@, baud })));
    args
}

proof fn lemma_attempt_at(targets: Seq<TargetModel>, i: int, j: int)
    requires
        0 <= i < targets.len(),
        0 <= j < targets[i].bauds.len(),
    ensures
        ({
            let at = attempts(targets.take(i)).len() + j;
            &&& at < attempts(targets).len()
            &&& attempts(targets)[at] == (Attempt { target: targets[i], baud: targets[i].bauds[j] })
        }),
    decreases targets.len(),
{
    let fewer = targets.drop_last();
    if i < targets.len() - 1 {
        lemma_attempt_at(fewer, i, j);
        assert(fewer.take(i) =~= targets.take(i));
    } else {
        assert(targets.take(i) =~= fewer);
    }
}

/// The next step of an `avrdude` query on a port. `outputs` holds what the runs
/// gave so far, with `None` for a program that could not be started.
///
/// Serial bootloader programmers (arduino/wiring/avr109/stk500v1/stk500v2) can
/// read flash/eeprom/signature but NOT fuses, so no fuse is read. `targets`
/// holds one or more (MCU, programmer, bauds) profiles to try in order — the
/// first that syncs wins. A board on a dedicated Arduino VID passes exactly one;
/// a board behind a generic USB-UART bridge passes several.
pub fn run_avrdude_query(port: &str, targets: &[AvrTarget], outputs: &[Option<ToolOutput>]) -> (q:
    AvrQuery)
    ensures
        q@ == avr_query(
            port@,
            attempts(target_models(targets@)),
            outputs@,
            0,
            "avrdude produced no output"@,
        ),
{
    let ghost models = target_models(targets@);
    let ghost all = attempts(models);
    let mut last_error = "avrdude produced no output".to_string();
    let mut n: usize = 0;
    let mut i: usize = 0;
    assert(models.take(0) =~= Seq::empty());
    while i < targets.len()
        invariant
            i <= targets@.len(),
            n <= outputs@.len(),
            models == target_models(targets@),
            all == attempts(models),
            n == attempts(models.take(i as int)).len(),
            avr_query(port@, all, outputs@, 0, "avrdude produced no output"@) == avr_query(
                port@,
                all,
                outputs@,
                n as int,
                last_error@,
            ),
        decreases targets.len() - i,
    {
        let target = targets[i];
        assert(models.take(i + 1).drop_last() =~= models.take(i as int));
        assert(models.take(i + 1).last() == models[i as int]);
        let ghost base = n;
        let mut j: usize = 0;
        while j < target.bauds.len()
            invariant
                i < targets@.len(),
                j <= target.bauds@.len(),
                n <= outputs@.len(),
                target == targets@[i as int],
                models == target_models(targets@),
                all == attempts(models),
                base == attempts(models.take(i as int)).len(),
                n == base + j,
                avr_query(port@, all, outputs@, 0, "avrdude produced no output"@) == avr_query(
                    port@,
                    all,
                    outputs@,
                    n as int,
                    last_error@,
                ),
            decreases target.bauds.len() - j,
        {
            let baud: u32 = target.bauds[j];
            proof {
                lemma_attempt_at(models, i as int, j as int);
            }
            if n >= outputs.len() {
                return AvrQuery::Run(avrdude_args_of(port, &target, baud));
            }
            match &outputs[n] {
                None => {
                    return AvrQuery::Done(Err(AVRDUDE_MISSING.to_string()));
                },
                Some(o) => {
                    if o.success {
                        return AvrQuery::Done(
                            Ok(
                                parse_avrdude_output(
                                    o.stdout.as_str(),
                                    o.stderr.as_str(),
                                    target.mcu,
                                ),
                            ),
                        );
                    }
                    last_error = summarize_avrdude_error(o.stderr.as_str(), &target, baud);
                },
            }
            n += 1;
            j += 1;
        }
        i += 1;
    }
    assert(models.take(i as int) =~= models);
    AvrQuery::Done(Err(last_error))
}

/// A query runs `avrdude` at most once for each attempt.
pub proof fn law_avr_query_ends(
    port: Seq<char>,
    all: Seq<Attempt>,
    outputs: Seq<Option<ToolOutput>>,
    i: int,
    last_error: Seq<char>,
)
    requires
        0 <= i,
        outputs.len() >= all.len(),
    ensures
        avr_query(port, all, outputs, i, last_error) is Done,
    decreases all.len() - i,
{
    if i < all.len() {
        match outputs[i] {
            Some(o) => if !o.success {
                law_avr_query_ends(
                    port,
                    all,
                    outputs,
                    i + 1,
                    avr_error(o.stderr@, all[i].target.programmer@, all[i].baud),
                );
            },
            None => {},
        }
    }
}

/// Every value that has a place on the page is shown there, under its label.
pub proof fn law_avr_page_shows_every_value(m: Map<Seq<char>, Seq<char>>, board: Seq<char>)
    ensures
        m.contains_key("Detected MCU"@) ==> avr_page(m, board).contains(
            row("  "@, "Detected MCU"@, 20, m["Detected MCU"@]),
        ),
        m.contains_key("Signature"@) ==> avr_page(m, board).contains(
            row("  "@, "Signature"@, 20, m["Signature"@]),
        ),
        m.contains_key("Sig matches"@) ==> avr_page(m, board).contains(
            row("  "@, "Sig matches"@, 20, m["Sig matches"@]),
        ),
        m.contains_key("Programmer"@) ==> avr_page(m, board).contains(
            row("  "@, "Programmer"@, 20, m["Programmer"@]),
        ),
        m.contains_key("Bootloader"@) ==> avr_page(m, board).contains(
            row("  "@, "Bootloader"@, 20, m["Bootloader"@]),
        ),
        m.contains_key("HW Version"@) ==> avr_page(m, board).contains(
            row("  "@, "HW Version"@, 20, m["HW Version"@]),
        ),
        m.contains_key("FW Version"@) ==> avr_page(m, board).contains(
            row("  "@, "FW Version"@, 20, m["FW Version"@]),
        ),
        m.contains_key("Modes"@) ==> avr_page(m, board).contains(
            row("  "@, "Modes"@, 20, m["Modes"@]),
        ),
{
    let p = seq![row("  "@, "Board"@, 20, board)];
    lemma_with_field_row(p, m, "Detected MCU"@, "Detected MCU"@);
    let p = with_field_row(p, m, "Detected MCU"@, "Detected MCU"@);
    lemma_with_field_row(p, m, "Signature"@, "Signature"@);
    let p = with_field_row(p, m, "Signature"@, "Signature"@);
    lemma_with_field_row(p, m, "Sig matches"@, "Sig matches"@);
    let p = with_field_row(p, m, "Sig matches"@, "Sig matches"@);
    lemma_with_field_row(p, m, "Programmer"@, "Programmer"@);
    let p = with_field_row(p, m, "Programmer"@, "Programmer"@);
    lemma_with_field_row(p, m, "Bootloader"@, "Bootloader"@);
    let p = with_field_row(p, m, "Bootloader"@, "Bootloader"@);
    lemma_with_field_row(p, m, "HW Version"@, "HW Version"@);
    let p = with_field_row(p, m, "HW Version"@, "HW Version"@);
    lemma_with_field_row(p, m, "FW Version"@, "FW Version"@);
    let p = with_field_row(p, m, "FW Version"@, "FW Version"@);
    lemma_with_field_row(p, m, "Modes"@, "Modes"@);
    let p = with_field_row(p, m, "Modes"@, "Modes"@);
    let before = p;
    let p = with_summary(p, value_in(m, "Detected MCU"@));
    lemma_summary_keeps(before, value_in(m, "Detected MCU"@));
    let last = row("  "@, "Fuses"@, 20, "(fuses require an ISP programmer on the ICSP header)"@);
    lemma_push_keeps(p, last);
}

proof fn lemma_push_keeps(p: Seq<Seq<char>>, line: Seq<char>)
    ensures
        forall|x: Seq<char>| p.contains(x) ==> #[trigger] p.push(line).contains(x),
{
    let all = p.push(line);
    assert forall|x: Seq<char>| p.contains(x) implies #[trigger] all.contains(x) by {
        let i = choose|i: int| 0 <= i < p.len() && p[i] == x;
        assert(all[i] == x);
    }
}

proof fn lemma_summary_keeps(p: Seq<Seq<char>>, mcu: Option<Seq<char>>)
    ensures
        forall|x: Seq<char>| p.contains(x) ==> #[trigger] with_summary(p, mcu).contains(x),
{
    if let Some(mcu) = mcu {
        lemma_push_keeps(p, row("  "@, "Summary"@, 20, chip_summary(mcu)@));
    }
}

proof fn lemma_prefixed(prefix: Seq<char>, gap: Seq<char>, value: Seq<char>)
    requires
        lacks(gap, ':'),
        is_trimmed(value),
    ensures
        prefixed_value(trim_end(prefix + gap + seq![':'] + value), prefix) == Some(value),
{
    let line = prefix + gap + seq![':'] + value;
    lemma_drop_white(line, line.len() as int);
    assert(line.last() == value.last());
    assert(drop_white(line, line.len() as int) == line.len());
    assert(trim_end(line) =~= line);
    let rest = gap + seq![':'] + value;
    assert(line =~= prefix + rest);
    law_prefix(prefix, rest, line);
    assert forall|k: int| 0 <= k < gap.len() implies #[trigger] rest[k] != ':' by {
        assert(rest[k] == gap[k]);
    }
    lemma_found_at(rest, ':', 0, gap.len() as int);
    assert(rest.skip(gap.len() as int + 1) =~= value);
    let none = Seq::<char>::empty();
    law_trim_finds_the_text(none, value, none);
    assert(none + value + none =~= value);
}

/// Each of the six lines that are read gives its value under its label.
pub proof fn law_avrdude_lines(
    m: Map<Seq<char>, Seq<char>>,
    gap: Seq<char>,
    value: Seq<char>,
)
    requires
        lacks(gap, ':'),
        is_trimmed(value),
    ensures
        value_in(with_avr_line(m, "AVR part"@ + gap + seq![':'] + value), "Detected MCU"@) == Some(value),
        value_in(with_avr_line(m, "Programmer type"@ + gap + seq![':'] + value), "Programmer"@) == Some(value),
        value_in(with_avr_line(m, "Description"@ + gap + seq![':'] + value), "Bootloader"@) == Some(value),
        value_in(with_avr_line(m, "HW Version"@ + gap + seq![':'] + value), "HW Version"@) == Some(value),
        value_in(with_avr_line(m, "FW Version"@ + gap + seq![':'] + value), "FW Version"@) == Some(value),
        value_in(with_avr_line(m, "Programming modes"@ + gap + seq![':'] + value), "Modes"@) == Some(value),
{
    lemma_labels_differ();
    lemma_prefixed("AVR part"@, gap, value);
    lemma_signature_labels(m, trim_end("AVR part"@ + gap + seq![':'] + value));
    lemma_prefixed("Programmer type"@, gap, value);
    lemma_signature_labels(m, trim_end("Programmer type"@ + gap + seq![':'] + value));
    lemma_prefixed("Description"@, gap, value);
    lemma_signature_labels(m, trim_end("Description"@ + gap + seq![':'] + value));
    lemma_prefixed("HW Version"@, gap, value);
    lemma_signature_labels(m, trim_end("HW Version"@ + gap + seq![':'] + value));
    lemma_prefixed("FW Version"@, gap, value);
    lemma_signature_labels(m, trim_end("FW Version"@ + gap + seq![':'] + value));
    lemma_prefixed("Programming modes"@, gap, value);
    lemma_signature_labels(m, trim_end("Programming modes"@ + gap + seq![':'] + value));
}

proof fn lemma_labels_differ()
    ensures
        "Detected MCU"@ != "Programmer"@ && "Detected MCU"@ != "Bootloader"@ && "Detected MCU"@
            != "HW Version"@ && "Detected MCU"@ != "FW Version"@ && "Detected MCU"@ != "Modes"@,
        "Programmer"@ != "Bootloader"@ && "Programmer"@ != "HW Version"@ && "Programmer"@
            != "FW Version"@ && "Programmer"@ != "Modes"@,
        "Bootloader"@ != "HW Version"@ && "Bootloader"@ != "FW Version"@ && "Bootloader"@
            != "Modes"@,
        "HW Version"@ != "FW Version"@ && "HW Version"@ != "Modes"@ && "FW Version"@ != "Modes"@,
        "Signature"@ != "Detected MCU"@ && "Signature"@ != "Programmer"@ && "Signature"@
            != "Bootloader"@ && "Signature"@ != "HW Version"@ && "Signature"@ != "FW Version"@
            && "Signature"@ != "Modes"@ && "Signature"@ != "Sig matches"@,
        "Sig matches"@ != "Detected MCU"@ && "Sig matches"@ != "Programmer"@ && "Sig matches"@
            != "Bootloader"@ && "Sig matches"@ != "HW Version"@ && "Sig matches"@
            != "FW Version"@ && "Sig matches"@ != "Modes"@,
{
    reveal_strlit("Detected MCU");
    reveal_strlit("Programmer");
    reveal_strlit("Bootloader");
    reveal_strlit("HW Version");
    reveal_strlit("FW Version");
    reveal_strlit("Modes");
    reveal_strlit("Signature");
    reveal_strlit("Sig matches");
    assert("Detected MCU"@[0] == 'D');
    assert("Programmer"@[0] == 'P');
    assert("Bootloader"@[0] == 'B');
    assert("HW Version"@[0] == 'H');
    assert("FW Version"@[0] == 'F');
    assert("Modes"@[0] == 'M');
    assert("Signature"@[0] == 'S');
    assert("Sig matches"@[0] == 'S');
    assert("Signature"@.len() == 9 && "Sig matches"@.len() == 11);
}

proof fn lemma_signature_labels(m: Map<Seq<char>, Seq<char>>, line: Seq<char>)
    ensures
        forall|k: Seq<char>|
            k != "Signature"@ && k != "Sig matches"@ ==> #[trigger] value_in(
                with_signature(m, line),
                k,
            ) == value_in(m, k),
{
}

/// A signature line gives the signature, and the parts that share it where they stand
/// behind it in brackets.
pub proof fn law_signature_lines(m: Map<Seq<char>, Seq<char>>, sig: Seq<char>, parts: Seq<char>)
    requires
        is_trimmed(sig),
        is_trimmed(parts),
        lacks(sig, '('),
        parts.last() != ')',
    ensures
        ({
            let full = with_signature(m, "Device signature = "@ + sig + " ("@ + parts + seq![')']);
            let bare = with_signature(m, "Device signature = "@ + sig);
            &&& value_in(full, "Signature"@) == Some(sig)
            &&& value_in(full, "Sig matches"@) == Some(parts)
            &&& value_in(bare, "Signature"@) == Some(sig)
            &&& value_in(bare, "Sig matches"@) == value_in(m, "Sig matches"@)
        }),
{
    lemma_labels_differ();
    reveal_strlit(" (");
    reveal_strlit("");
    let none = Seq::<char>::empty();
    let rest = sig + " ("@ + parts + seq![')'];
    let head = "Device signature = "@;
    assert(head + sig + " ("@ + parts + seq![')'] =~= head + rest);
    law_prefix(head, rest, rest);
    law_prefix(head, sig, sig);
    law_trim_finds_the_text(none, sig, none);
    assert(none + sig + none =~= sig);
    law_trim_finds_the_text(none, parts, none);
    assert(none + parts + none =~= parts);
    let n = sig.len() as int;
    lemma_bracket_behind(sig, parts + seq![')']);
    assert(rest =~= sig + " ("@ + (parts + seq![')']));
    assert(rest.take(n) =~= sig);
    assert(rest.skip(n + 2) =~= parts + seq![')']);
    law_drop_trailing(parts, seq![')'], ')', ')');
}

proof fn lemma_bracket_behind(sig: Seq<char>, more: Seq<char>)
    requires
        lacks(sig, '('),
    ensures
        find_text(sig + " ("@ + more, " ("@) == Some(sig.len() as int),
        find_text(sig, " ("@) is None,
{
    reveal_strlit(" (");
    let rest = sig + " ("@ + more;
    let n = sig.len() as int;
    lemma_find_text_from(rest, " ("@, 0);
    assert(rest.subrange(n, n + 2) =~= " ("@);
    let at = find_text(rest, " ("@)->0;
    assert(at == n) by {
        if at < n {
            assert(rest.subrange(at, at + 2)[1] == '(');
            if at + 1 < n {
                assert(rest[at + 1] == sig[at + 1]);
            } else {
                assert(rest[at + 1] == ' ');
            }
        } else if at > n {
            assert(rest.subrange(n, n + 2) != " ("@);
        }
    }
    lemma_find_text_from(sig, " ("@, 0);
    if let Some(k) = find_text(sig, " ("@) {
        assert(sig.subrange(k, k + 2)[1] == sig[k + 1]);
    }
}

/// What the known chips have.
pub proof fn law_chip_summaries(mcu: Seq<char>)
    ensures
        ({
            let s = chip_summary(mcu)@;
            let is_328 = same_ignoring_case(mcu, "atmega328p"@) || same_ignoring_case(
                mcu,
                "atmega328"@,
            );
            let is_2560 = same_ignoring_case(mcu, "atmega2560"@);
            let is_32u4 = same_ignoring_case(mcu, "atmega32u4"@);
            let is_168 = same_ignoring_case(mcu, "atmega168"@);
            &&& is_328 ==> s == "32 KB flash, 2 KB SRAM, 1 KB EEPROM, 16 MHz"@
            &&& is_2560 ==> s == "256 KB flash, 8 KB SRAM, 4 KB EEPROM, 16 MHz"@
            &&& is_32u4 ==> s == "32 KB flash, 2.5 KB SRAM, 1 KB EEPROM, 16 MHz, native USB"@
            &&& is_168 ==> s == "16 KB flash, 1 KB SRAM, 512 B EEPROM, 16 MHz"@
            &&& !is_328 && !is_2560 && !is_32u4 && !is_168 ==> s == ""@
        }),
{
    reveal_strlit("atmega328p");
    reveal_strlit("atmega328");
    reveal_strlit("atmega2560");
    reveal_strlit("atmega32u4");
    reveal_strlit("atmega168");
    assert(lower("atmega328p"@) =~= "atmega328p"@);
    assert(lower("atmega328"@) =~= "atmega328"@);
    assert(lower("atmega2560"@) =~= "atmega2560"@);
    assert(lower("atmega32u4"@) =~= "atmega32u4"@);
    assert(lower("atmega168"@) =~= "atmega168"@);
    assert("atmega328p"@[6] == '3' && "atmega2560"@[6] == '2' && "atmega32u4"@[6] == '3');
    assert("atmega328p"@[9] == 'p' && "atmega32u4"@[9] == '4');
    assert("atmega328"@[6] == '3' && "atmega168"@[6] == '1');
}

/// The attempts are all baud rates of the first target, then those of the next, and so on.
pub proof fn law_attempts_in_order(a: Seq<TargetModel>, b: Seq<TargetModel>, t: TargetModel)
    ensures
        attempts(a + b) == attempts(a) + attempts(b),
        attempts(seq![t]).len() == t.bauds.len(),
        forall|j: int|
            0 <= j < t.bauds.len() ==> (#[trigger] attempts(seq![t])[j]).target == t && attempts(
                seq![t],
            )[j].baud == t.bauds[j],
    decreases b.len(),
{
    let one = seq![t];
    assert(one.drop_last() =~= Seq::empty());
    assert(one.last() == t);
    reveal_with_fuel(attempts, 2);
    assert(attempts(one) =~= target_attempts(t));
    if b.len() == 0 {
        assert(a + b =~= a);
        assert(attempts(a) + attempts(b) =~= attempts(a));
    } else {
        law_attempts_in_order(a, b.drop_last(), t);
        assert((a + b).drop_last() =~= a + b.drop_last());
        assert((a + b).last() == b.last());
        assert(attempts(a + b) =~= attempts(a) + attempts(b));
    }
}

proof fn lemma_failed_so_far(
    port: Seq<char>,
    all: Seq<Attempt>,
    outputs: Seq<Option<ToolOutput>>,
    i: int,
    k: int,
    last_error: Seq<char>,
)
    requires
        0 <= i <= k <= outputs.len(),
        k <= all.len(),
        forall|j: int| i <= j < k ==> (#[trigger] outputs[j]) is Some && !outputs[j]->0.success,
    ensures
        avr_query(port, all, outputs, i, last_error) == avr_query(
            port,
            all,
            outputs,
            k,
            if k > i {
                avr_error(
                    outputs[k - 1]->0.stderr@,
                    all[k - 1].target.programmer@,
                    all[k - 1].baud,
                )
            } else {
                last_error
            },
        ),
    decreases k - i,
{
    if i < k {
        assert(outputs[i] is Some && !outputs[i]->0.success);
        lemma_failed_so_far(
            port,
            all,
            outputs,
            i + 1,
            k,
            avr_error(outputs[i]->0.stderr@, all[i].target.programmer@, all[i].baud),
        );
    }
}

/// The attempts are made in order until one succeeds, and that one is reported, with the
/// chip that it asked for; where all fail, the last failure is. A program that cannot be
/// started ends the query. `k` attempts have failed so far.
pub proof fn law_first_success_is_reported(
    port: Seq<char>,
    all: Seq<Attempt>,
    outputs: Seq<Option<ToolOutput>>,
    k: int,
    none: Seq<char>,
)
    requires
        0 <= k <= all.len(),
        k <= outputs.len(),
        forall|j: int| 0 <= j < k ==> (#[trigger] outputs[j]) is Some && !outputs[j]->0.success,
    ensures
        ({
            let q = avr_query(port, all, outputs, 0, none);
            &&& k == outputs.len() && k < all.len() ==> q == AvrQueryView::Run(
                seq![
                    "-c"@,
                    all[k].target.programmer@,
                    "-p"@,
                    all[k].target.mcu@,
                    "-P"@,
                    port,
                    "-b"@,
                    decimal(all[k].baud as nat),
                    "-F"@,
                    "-v"@,
                ],
            )
            &&& k < outputs.len() && k < all.len() && outputs[k] is Some && outputs[k]->0.success
                ==> q == AvrQueryView::Done(
                Ok(avr_info(lines(outputs[k]->0.stderr@), all[k].target.mcu@)),
            )
            &&& k < outputs.len() && k < all.len() && outputs[k] is None ==> q
                == AvrQueryView::Done(Err(AVRDUDE_MISSING@))
            &&& k == all.len() && k > 0 ==> q == AvrQueryView::Done(
                Err(
                    avr_error(
                        outputs[k - 1]->0.stderr@,
                        all[k - 1].target.programmer@,
                        all[k - 1].baud,
                    ),
                ),
            )
            &&& all.len() == 0 ==> q == AvrQueryView::Done(Err(none))
        }),
{
    lemma_failed_so_far(port, all, outputs, 0, k, none);
}

/// A failure names the attempt, then the last signature line where that is not the last
/// word, then the last word.
pub proof fn law_avrdude_failure(stderr: Seq<char>, programmer: Seq<char>, baud: u32)
    ensures
        ({
            let all = lines(stderr);
            let e = avr_error(stderr, programmer, baud);
            let head = programmer + " @ "@ + decimal(baud as nat) + " baud"@ + " — "@;
            let last = match last_trimmed(all) {
                Some(line) => line,
                None => "unknown"@,
            };
            &&& starts_with(e, head)
            &&& ends_with(e, last)
            &&& last_signature(all) is None ==> e == head + last
            &&& last_signature(all) matches Some(sig) ==> contains(e, sig)
        }),
{
    let all = lines(stderr);
    let e = avr_error(stderr, programmer, baud);
    let attempt = programmer + " @ "@ + decimal(baud as nat) + " baud"@;
    let head = programmer + " @ "@ + decimal(baud as nat) + " baud"@ + " — "@;
    let last = match last_trimmed(all) {
        Some(line) => line,
        None => "unknown"@,
    };
    assert(e.take(head.len() as int) =~= head);
    assert(e.skip(e.len() - last.len()) =~= last);
    if let Some(sig) = last_signature(all) {
        let none = Seq::<char>::empty();
        if sig != last {
            assert(e =~= head + sig + ("; "@ + last));
            law_contains_within(head, sig, "; "@ + last);
        } else {
            assert(e =~= head + sig + none);
            law_contains_within(head, sig, none);
        }
    }
}

/// The last word is the last line that is not blank, trimmed.
pub proof fn law_last_word(all: Seq<Seq<char>>, k: int)
    requires
        -1 <= k < all.len(),
        k >= 0 ==> trim(all[k]).len() > 0,
        forall|j: int| k < j < all.len() ==> trim(#[trigger] all[j]).len() == 0,
    ensures
        k >= 0 ==> last_trimmed(all) == Some(trim(all[k])),
        k == -1 ==> last_trimmed(all) is None,
    decreases all.len(),
{
    if all.len() > 0 && k < all.len() - 1 {
        let fewer = all.drop_last();
        assert(all.last() == all[all.len() - 1]);
        if k >= 0 {
            assert(fewer[k] == all[k]);
        }
        assert forall|j: int| k < j < fewer.len() implies trim(#[trigger] fewer[j]).len() == 0 by {
            assert(fewer[j] == all[j]);
        }
        law_last_word(fewer, k);
    }
}

/// The signature that is told is that of the last line that tells one.
pub proof fn law_last_signature(all: Seq<Seq<char>>, k: int)
    requires
        -1 <= k < all.len(),
        k >= 0 ==> contains(trim(all[k]), "Device signature"@),
        forall|j: int|
            k < j < all.len() ==> !contains(trim(#[trigger] all[j]), "Device signature"@),
    ensures
        k >= 0 ==> last_signature(all) == Some(trim(all[k])),
        k == -1 ==> last_signature(all) is None,
    decreases all.len(),
{
    if all.len() > 0 && k < all.len() - 1 {
        let fewer = all.drop_last();
        assert(all.last() == all[all.len() - 1]);
        if k >= 0 {
            assert(fewer[k] == all[k]);
        }
        assert forall|j: int| k < j < fewer.len() implies !contains(
            trim(#[trigger] fewer[j]),
            "Device signature"@,
        ) by {
            assert(fewer[j] == all[j]);
        }
        law_last_signature(fewer, k);
    }
}

} // verus!
