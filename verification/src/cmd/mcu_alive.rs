//! `--mcu-alive` and `--mcu-alive-native`: does the target behind an ST-Link
//! answer?
use vstd::prelude::*;
use vstd::string::*;
use crate::number::{
    all_digits, decimal, digit_value, hex_upper, law_four_digits_of_sixteen_bits, law_numbers,
    law_padded_numbers_are_as_wide_as_asked, law_written_number_reads_back,
    law_written_without_spare_zeros, lemma_hex_upper_is_digits, push_decimal, push_hex_upper,
    shortest, value_of,
};
use crate::page::{joined, lemma_with_row, push_line, push_row, push_text, row, with_row};
use crate::pieces::{
    is_text_ignoring_case, lines, lines_of, lower, lower_of, same_ignoring_case, upper,
};
use crate::stlink::controller::{usb_id, usb_id_of};
use crate::stlink::driver::StlinkDriver;
use crate::stm32::chipdb::{defs, ChipDef, ChipDefView};
use crate::stm32::decode::{
    identity_rows, law_identity_rows_are_shown, push_identity_rows, ReportView,
};
use crate::swd::cmsisdap::{heard, Reply, Run, RunView};
use crate::swd::stlink::{
    ask_idcode, ask_version, ask_voltage, enter, enter_swd, get_version, get_voltage_mv,
    is_question, law_only_questions_are_asked, law_read_regs_ends, read_idcode, read_regs,
    stlink_read_regs, RegsRun, VersionRun, STLINK_JTAG_OK,
};
use crate::swd::{
    flash_fits, flash_map_fits, format_target_rows, target_rows, Collected, CollectedView,
};
use crate::text::{
    chars_of, contains, ends_with, find_text, has_prefix, has_text, lemma_find_text_from,
    starts_with, string_of, texts, trim, trim_of, views,
};
use crate::tool::ToolOutput;
use crate::windows::{
    advice, known_driver_advice, law_device_is_named_by_both_ids, law_four_digits_behind_the_mark,
    vid_pid, DriverAdvice,
};

verus! {

/// An ST-Link, by its USB identity.
pub open spec fn is_stlink(vid: u16, pid: u16) -> bool {
    vid == 0x0483 && 0x3748 <= pid <= 0x3757
}

pub fn is_stlink_device(vid: u16, pid: u16) -> (r: bool)
    ensures
        r == is_stlink(vid, pid),
{
    vid == 0x0483 && 0x3748 <= pid && pid <= 0x3757
}

/// How `probe-rs` is told which probe to use.
pub open spec fn selector(vid: u16, pid: u16, serial: Seq<char>) -> Seq<char> {
    if serial.len() == 0 {
        usb_id(vid, pid)
    } else {
        usb_id(vid, pid) + ":"@ + serial
    }
}

pub fn probe_selector(vid: u16, pid: u16, serial: &str) -> (s: String)
    ensures
        s@ == selector(vid, pid, serial@),
{
    let mut s = usb_id_of(vid, pid);
    if !serial.is_empty() {
        s.append(":");
        s.append(serial);
    }
    s
}

// ── Through probe-rs ────────────────────────────────────────────────────
pub open spec fn alive_head(any: bool) -> Seq<Seq<char>> {
    let head = seq![
        "=== Minimal MCU Alive Test ==="@,
        "Safety: no target reset, halt, flash read/write, erase, or unlock is requested."@,
        "The SWD discovery scan may reset the SWD debug link state."@,
    ];
    if any {
        head
    } else {
        head + seq![
            "Step 1 - USB probe: FAIL - no ST-Link USB device found"@,
            "Step 2 - Debug interface: SKIP"@,
            "Step 3 - Target SWD response: SKIP"@,
        ]
    }
}

/// What stands above the probes; where there is none, that is all.
pub fn mcu_alive_head(any: bool) -> (page: Vec<String>)
    ensures
        texts(page@) == alive_head(any),
{
    let mut page: Vec<String> = Vec::new();
    push_text(&mut page, "=== Minimal MCU Alive Test ===");
    push_text(
        &mut page,
        "Safety: no target reset, halt, flash read/write, erase, or unlock is requested.",
    );
    push_text(&mut page, "The SWD discovery scan may reset the SWD debug link state.");
    if !any {
        push_text(&mut page, "Step 1 - USB probe: FAIL - no ST-Link USB device found");
        push_text(&mut page, "Step 2 - Debug interface: SKIP");
        push_text(&mut page, "Step 3 - Target SWD response: SKIP");
    }
    assert(texts(page@) =~= alive_head(any));
    page
}

/// An ST-Link that is plugged in, with its descriptors in words.
#[derive(Debug)]
pub struct SeenProbe {
    pub vid: u16,
    pub pid: u16,
    pub serial: String,
    /// The product, the serial number and the speed as they are to be shown.
    pub product_shown: String,
    pub serial_shown: String,
    pub speed_shown: String,
}

/// What comes of a probe before any command is sent to it.
#[derive(Debug)]
pub enum AliveStep {
    /// Windows has no usable driver for it; the advice is to be followed by its
    /// availability.
    Blocked(Option<DriverAdvice>),
    /// `probe-rs` is to be run with these arguments.
    Run(Vec<String>),
}

/// The instance id of the debug interface.
pub open spec fn debug_instance(vid: u16, pid: u16) -> Seq<char> {
    "USB\\VID_"@ + hex_upper(vid as nat, 4) + "&PID_"@ + hex_upper(pid as nat, 4) + "&MI_00"@
}

pub open spec fn probe_rs_args(selector: Seq<char>) -> Seq<Seq<char>> {
    seq![
        "info"@,
        "--probe"@,
        selector,
        "--protocol"@,
        "swd"@,
        "--speed"@,
        "100"@,
        "--non-interactive"@,
    ]
}

pub open spec fn seen_lines(p: SeenProbe) -> Seq<Seq<char>> {
    seq![
        ""@,
        "["@ + selector(p.vid, p.pid, p.serial@) + "]"@,
        "Step 1 - USB probe: PASS - product "@ + p.product_shown@ + ", serial "@ + p.serial_shown@
            + ", speed "@ + p.speed_shown@,
    ]
}

/// The page of a probe up to the point where `probe-rs` would take over.
pub open spec fn probe_page(p: SeenProbe, driver: Option<StlinkDriver>) -> Seq<Seq<char>> {
    match driver {
        Some(StlinkDriver::Other(state)) => {
            let blocked = seen_lines(p) + seq![
                "Step 2 - Debug interface: FAIL - "@ + state@,
                "Step 3 - Target SWD response: SKIP - no host-to-probe command path"@,
            ];
            match advice(debug_instance(p.vid, p.pid)) {
                Some(a) => blocked + seq![
                    "Required driver binding: "@ + a.name@,
                    "Install: "@ + a.install@,
                ],
                None => blocked,
            }
        },
        _ => seen_lines(p).push(
            "Step 2 - Debug interface: attempting read-only open through probe-rs"@,
        ),
    }
}

/// Starts on one probe: the lines to show, and what is to be done. A driver that
/// cannot be used is reported before anything is tried.
pub fn cmd_mcu_alive(p: &SeenProbe, driver: &Option<StlinkDriver>) -> (r: (Vec<String>, AliveStep))
    ensures
        texts(r.0@) == probe_page(*p, *driver),
        match r.1 {
            AliveStep::Blocked(a) => {
                &&& *driver matches Some(StlinkDriver::Other(_))
                &&& a == advice(debug_instance(p.vid, p.pid))
            },
            AliveStep::Run(args) => {
                &&& !(*driver matches Some(StlinkDriver::Other(_)))
                &&& texts(args@) == probe_rs_args(selector(p.vid, p.pid, p.serial@))
            },
        },
{
    let selected = probe_selector(p.vid, p.pid, p.serial.as_str());
    let mut page: Vec<String> = Vec::new();
    push_text(&mut page, "");
    let mut line = joined("[", selected.as_str());
    line.append("]");
    push_line(&mut page, line);
    let mut line = joined("Step 1 - USB probe: PASS - product ", p.product_shown.as_str());
    line.append(", serial ");
    line.append(p.serial_shown.as_str());
    line.append(", speed ");
    line.append(p.speed_shown.as_str());
    push_line(&mut page, line);
    assert(texts(page@) =~= seen_lines(*p));
    if let Some(StlinkDriver::Other(state)) = driver {
        push_line(&mut page, joined("Step 2 - Debug interface: FAIL - ", state.as_str()));
        push_text(
            &mut page,
            "Step 3 - Target SWD response: SKIP - no host-to-probe command path",
        );
        let mut id = "USB\\VID_".to_string();
        push_hex_upper(&mut id, p.vid as u64, 4);
        id.append("&PID_");
        push_hex_upper(&mut id, p.pid as u64, 4);
        id.append("&MI_00");
        let found = known_driver_advice(id.as_str());
        if let Some(a) = found {
            push_line(&mut page, joined("Required driver binding: ", a.name));
            push_line(&mut page, joined("Install: ", a.install));
        }
        assert(texts(page@) =~= probe_page(*p, *driver));
        return (page, AliveStep::Blocked(found));
    }
    push_text(&mut page, "Step 2 - Debug interface: attempting read-only open through probe-rs");
    let mut args: Vec<String> = Vec::new();
    push_text(&mut args, "info");
    push_text(&mut args, "--probe");
    push_text(&mut args, selected.as_str());
    push_text(&mut args, "--protocol");
    push_text(&mut args, "swd");
    push_text(&mut args, "--speed");
    push_text(&mut args, "100");
    push_text(&mut args, "--non-interactive");
    assert(texts(args@) =~= probe_rs_args(selector(p.vid, p.pid, p.serial@)));
    (page, AliveStep::Run(args))
}

/// A line that says something.
pub open spec fn is_said(line: Seq<char>) -> bool {
    line.len() > 0 && !starts_with(line, "-"@)
}

/// A line of a discovery that is worth showing.
pub open spec fn is_finding(line: Seq<char>) -> bool {
    is_said(line) && !same_ignoring_case(line, "Probing target via SWD"@)
}

/// The findings among the lines from `i` on, indented.
pub open spec fn findings(all: Seq<Seq<char>>, i: int) -> Seq<Seq<char>>
    decreases all.len() - i,
{
    if i < 0 || i >= all.len() {
        Seq::empty()
    } else {
        let line = trim(all[i]);
        if is_finding(line) {
            seq!["  "@ + line] + findings(all, i + 1)
        } else {
            findings(all, i + 1)
        }
    }
}

/// At most the first twelve.
pub open spec fn first_twelve(s: Seq<Seq<char>>) -> Seq<Seq<char>> {
    if s.len() <= 12 {
        s
    } else {
        s.take(12)
    }
}

/// The last line that says something.
pub open spec fn last_said(all: Seq<Seq<char>>) -> Option<Seq<char>>
    decreases all.len(),
{
    if all.len() == 0 {
        None
    } else {
        let line = trim(all.last());
        if is_said(line) {
            Some(line)
        } else {
            last_said(all.drop_last())
        }
    }
}

/// The reason that a failed discovery gives, with errors before output.
pub open spec fn alive_error(output: ToolOutput) -> Seq<char> {
    match last_said(lines(output.stderr@) + lines(output.stdout@)) {
        Some(line) => line,
        None => "probe-rs could not complete SWD discovery"@,
    }
}

/// The reason is not that the probe could not be opened.
pub open spec fn probe_opened(error: Seq<char>) -> bool {
    let low = lower(error);
    !contains(low, "driver"@) && !contains(low, "open the debug probe"@) && !contains(
        low,
        "usb error"@,
    )
}

/// What `probe-rs` found out, step by step.
pub open spec fn alive_result(output: ToolOutput) -> Seq<Seq<char>> {
    if output.success {
        seq![
            "Step 2 - Debug interface: PASS - ST-Link accepted commands"@,
            "Step 3 - Target SWD response: PASS - probe-rs discovered a target at 100 kHz"@,
        ] + first_twelve(findings(lines(output.stdout@) + lines(output.stderr@), 0))
    } else {
        let error = alive_error(output);
        seq![
            "Step 2 - Debug interface: "@ + (if probe_opened(error) {
                "PASS - probe opened; SWD stage failed"@
            } else {
                "FAIL - probe could not be opened"@
            }),
            "Step 3 - Target SWD response: FAIL - "@ + error,
        ]
    }
}

fn push_findings(page: &mut Vec<String>, all: &Vec<&[char]>)
    ensures
        texts(final(page)@) == texts(old(page)@) + first_twelve(findings(views(all@), 0)),
{
    let ghost seen = views(all@);
    let ghost before = texts(page@);
    let ghost mut shown: Seq<Seq<char>> = Seq::empty();
    assert(before + shown =~= before);
    assert(shown + findings(seen, 0) =~= findings(seen, 0));
    let mut count: usize = 0;
    let mut i: usize = 0;
    while i < all.len() && count < 12
        invariant
            i <= all@.len(),
            count <= 12,
            seen == views(all@),
            shown.len() == count,
            texts(page@) == before + shown,
            findings(seen, 0) == shown + findings(seen, i as int),
        decreases all.len() - i,
    {
        assert(seen[i as int] == all@[i as int]@);
        let line = trim_of(all[i]);
        if line.len() > 0 && !has_prefix(line, "-") && !is_text_ignoring_case(
            line,
            "Probing target via SWD",
        ) {
            let s = joined("  ", string_of(line).as_str());
            push_line(page, s);
            proof {
                let old_shown = shown;
                shown = shown.push(s@);
                assert(before + shown =~= (before + old_shown).push(s@));
                assert(shown + findings(seen, i + 1) =~= old_shown + (seq![s@] + findings(
                    seen,
                    i + 1,
                )));
            }
            count += 1;
        }
        i += 1;
    }
    proof {
        if count < 12 {
            assert(findings(seen, 0) =~= shown);
        } else {
            assert(findings(seen, 0).take(12) =~= shown);
            if findings(seen, 0).len() <= 12 {
                assert(findings(seen, 0) =~= shown);
            }
        }
    }
}

fn last_said_of<'a>(all: &Vec<&'a [char]>) -> (r: Option<&'a [char]>)
    ensures
        match r {
            Some(line) => last_said(views(all@)) == Some(line@),
            None => last_said(views(all@)) is None,
        },
{
    let ghost seen = views(all@);
    let mut n: usize = all.len();
    assert(seen.take(n as int) =~= seen);
    while n > 0
        invariant
            n <= all@.len(),
            seen == views(all@),
            last_said(seen) == last_said(seen.take(n as int)),
        decreases n,
    {
        assert(seen.take(n as int).last() == all@[n - 1]@);
        assert(seen.take(n as int).drop_last() =~= seen.take(n - 1));
        let line = trim_of(all[n - 1]);
        if line.len() > 0 && !has_prefix(line, "-") {
            return Some(line);
        }
        n -= 1;
    }
    None
}

/// Shows what `probe-rs` found out.
pub fn mcu_alive_result(output: &ToolOutput) -> (page: Vec<String>)
    ensures
        texts(page@) == alive_result(*output),
{
    let stdout = chars_of(output.stdout.as_str());
    let stderr = chars_of(output.stderr.as_str());
    let mut out_lines = lines_of(stdout.as_slice());
    let mut err_lines = lines_of(stderr.as_slice());
    let ghost out_seen = views(out_lines@);
    let ghost err_seen = views(err_lines@);
    let mut page: Vec<String> = Vec::new();
    if output.success {
        push_text(&mut page, "Step 2 - Debug interface: PASS - ST-Link accepted commands");
        push_text(
            &mut page,
            "Step 3 - Target SWD response: PASS - probe-rs discovered a target at 100 kHz",
        );
        assert(texts(page@) =~= seq![
            "Step 2 - Debug interface: PASS - ST-Link accepted commands"@,
            "Step 3 - Target SWD response: PASS - probe-rs discovered a target at 100 kHz"@,
        ]);
        out_lines.append(&mut err_lines);
        assert(views(out_lines@) =~= out_seen + err_seen);
        push_findings(&mut page, &out_lines);
        return page;
    }
    err_lines.append(&mut out_lines);
    assert(views(err_lines@) =~= err_seen + out_seen);
    let error = match last_said_of(&err_lines) {
        Some(line) => string_of(line),
        None => "probe-rs could not complete SWD discovery".to_string(),
    };
    let low = chars_of(error.as_str());
    let low = lower_of(low.as_slice());
    let low = low.as_slice();
    let opened = !has_text(low, "driver") && !has_text(low, "open the debug probe") && !has_text(
        low,
        "usb error",
    );
    push_line(
        &mut page,
        joined(
            "Step 2 - Debug interface: ",
            if opened {
                "PASS - probe opened; SWD stage failed"
            } else {
                "FAIL - probe could not be opened"
            },
        ),
    );
    push_line(&mut page, joined("Step 3 - Target SWD response: FAIL - ", error.as_str()));
    assert(texts(page@) =~= alive_result(*output));
    page
}

// ── Natively ────────────────────────────────────────────────────────────
pub open spec fn native_head(defs: nat, any: bool) -> Seq<Seq<char>> {
    let head = seq![
        "=== Native ST-Link SWD Probe (no probe-rs / pyocd / stlink) ==="@,
        "Transport: raw USB bulk to MI_00 via nusb. On Windows this needs WinUSB on MI_00 (see --install-driver)."@,
        "Safety: only ENTER_SWD + read-only ID-register reads are issued — no halt, reset, erase, or memory write."@,
        if defs == 0 {
            "Chip data: built-in family table only (drop etc/chips/*.chip files to extend/override)."@
        } else {
            "Chip data: "@ + decimal(defs)
                + " external .chip definition(s) loaded; they take priority over the built-in table."@
        },
    ];
    if any {
        head
    } else {
        head.push("Step 1 - USB probe: FAIL - no ST-Link USB device found"@)
    }
}

/// What stands above the probes; where there is none, that is all.
pub fn mcu_alive_native_head(defs: usize, any: bool) -> (page: Vec<String>)
    ensures
        texts(page@) == native_head(defs as nat, any),
{
    let mut page: Vec<String> = Vec::new();
    push_text(&mut page, "=== Native ST-Link SWD Probe (no probe-rs / pyocd / stlink) ===");
    push_text(
        &mut page,
        "Transport: raw USB bulk to MI_00 via nusb. On Windows this needs WinUSB on MI_00 (see --install-driver).",
    );
    push_text(
        &mut page,
        "Safety: only ENTER_SWD + read-only ID-register reads are issued — no halt, reset, erase, or memory write.",
    );
    if defs == 0 {
        push_text(
            &mut page,
            "Chip data: built-in family table only (drop etc/chips/*.chip files to extend/override).",
        );
    } else {
        let mut line = "Chip data: ".to_string();
        push_decimal(&mut line, defs as u64);
        line.append(
            " external .chip definition(s) loaded; they take priority over the built-in table.",
        );
        push_line(&mut page, line);
    }
    if !any {
        push_text(&mut page, "Step 1 - USB probe: FAIL - no ST-Link USB device found");
    }
    assert(texts(page@) =~= native_head(defs as nat, any));
    page
}

/// How a native test of one probe ended.
#[derive(Debug)]
pub enum NativeEnd {
    /// The probe did not tell its firmware version, for this reason.
    NoVersion(String),
    /// The probe did not enter SWD, for this reason.
    NoSwd { version: String, voltage: Result<u32, String>, error: String },
    /// The registers were read, as far as they could be.
    Read {
        version: String,
        voltage: Result<u32, String>,
        status: u8,
        idcode: Result<u32, String>,
        collected: Collected,
    },
}

pub enum NativeEndView {
    NoVersion(Seq<char>),
    NoSwd { version: Seq<char>, voltage: Result<u32, Seq<char>>, error: Seq<char> },
    Read {
        version: Seq<char>,
        voltage: Result<u32, Seq<char>>,
        status: u8,
        idcode: Result<u32, Seq<char>>,
        collected: CollectedView,
    },
}

pub open spec fn word_view(r: Result<u32, String>) -> Result<u32, Seq<char>> {
    match r {
        Ok(v) => Ok(v),
        Err(e) => Err(e@),
    }
}

impl View for NativeEnd {
    type V = NativeEndView;

    open spec fn view(&self) -> NativeEndView {
        match *self {
            NativeEnd::NoVersion(e) => NativeEndView::NoVersion(e@),
            NativeEnd::NoSwd { version, voltage, error } => NativeEndView::NoSwd {
                version: version@,
                voltage: word_view(voltage),
                error: error@,
            },
            NativeEnd::Read { version, voltage, status, idcode, collected } => NativeEndView::Read {
                version: version@,
                voltage: word_view(voltage),
                status,
                idcode: word_view(idcode),
                collected: collected@,
            },
        }
    }
}

/// What comes next in a native test.
#[derive(Debug)]
pub enum NativeStep {
    /// Send this command and ask again with its reply added.
    Send(Vec<u8>),
    Done(NativeEnd),
}

pub enum NativeStepView {
    Send(Seq<u8>),
    Done(NativeEndView),
}

impl View for NativeStep {
    type V = NativeStepView;

    open spec fn view(&self) -> NativeStepView {
        match *self {
            NativeStep::Send(c) => NativeStepView::Send(c@),
            NativeStep::Done(e) => NativeStepView::Done(e@),
        }
    }
}

/// Version, voltage, SWD, DPIDR, registers. Only a probe that does not tell its
/// version or does not enter SWD ends the test early.
pub open spec fn native_test(
    t: Seq<Result<Seq<u8>, Seq<char>>>,
    db: Seq<ChipDefView>,
) -> NativeStepView {
    match ask_version(t) {
        RunView::Send(c) => NativeStepView::Send(c),
        RunView::Done(Err(e), _) => NativeStepView::Done(NativeEndView::NoVersion(e)),
        RunView::Done(Ok(version), rest) => match ask_voltage(rest) {
            RunView::Send(c) => NativeStepView::Send(c),
            RunView::Done(voltage, rest) => match enter(rest) {
                RunView::Send(c) => NativeStepView::Send(c),
                RunView::Done(Err(error), _) => NativeStepView::Done(
                    NativeEndView::NoSwd { version, voltage, error },
                ),
                RunView::Done(Ok(status), rest) => match ask_idcode(rest) {
                    RunView::Send(c) => NativeStepView::Send(c),
                    RunView::Done(idcode, rest) => match read_regs(rest, Seq::empty(), db) {
                        RunView::Send(c) => NativeStepView::Send(c),
                        RunView::Done(c, _) => NativeStepView::Done(
                            NativeEndView::Read {
                                version,
                                voltage,
                                status,
                                idcode,
                                collected: c->Ok_0,
                            },
                        ),
                    },
                },
            },
        },
    }
}

/// The registers were collected from a target, so each holds a word.
pub open spec fn has_words(e: NativeEndView) -> bool {
    e matches NativeEndView::Read { collected, .. } ==> forall|a: u32| #[trigger]
        collected.regs.contains_key(a) ==> collected.regs[a].len() > 0
}

/// The native test of one open probe; `t` holds the replies heard so far.
pub fn cmd_mcu_alive_native(t: &[Reply], db: &[ChipDef]) -> (r: NativeStep)
    ensures
        r@ == native_test(heard(t@), defs(db@)),
        r@ matches NativeStepView::Done(e) ==> has_words(e),
{
    let (version, rest) = match get_version(t) {
        VersionRun::Send(c) => {
            return NativeStep::Send(c);
        },
        VersionRun::Done(Err(e), _) => {
            return NativeStep::Done(NativeEnd::NoVersion(e));
        },
        VersionRun::Done(Ok(v), rest) => (v, rest),
    };
    let (voltage, rest) = match get_voltage_mv(rest) {
        Run::Send(c) => {
            return NativeStep::Send(c);
        },
        Run::Done(v, rest) => (v, rest),
    };
    let (status, rest) = match enter_swd(rest) {
        Run::Send(c) => {
            return NativeStep::Send(c);
        },
        Run::Done(Err(error), _) => {
            return NativeStep::Done(NativeEnd::NoSwd { version, voltage, error });
        },
        Run::Done(Ok(s), rest) => (s, rest),
    };
    let (idcode, rest) = match read_idcode(rest) {
        Run::Send(c) => {
            return NativeStep::Send(c);
        },
        Run::Done(v, rest) => (v, rest),
    };
    match stlink_read_regs(rest, db) {
        RegsRun::Send(c) => NativeStep::Send(c),
        RegsRun::Done(collected, _) => NativeStep::Done(
            NativeEnd::Read { version, voltage, status, idcode, collected },
        ),
    }
}

/// Whatever the probe answers, a native test sends only questions, and no more
/// than fourteen of them.
pub proof fn law_native_test_only_asks(
    t: Seq<Result<Seq<u8>, Seq<char>>>,
    db: Seq<ChipDefView>,
)
    ensures
        native_test(t, db) matches NativeStepView::Send(c) ==> is_question(c) && t.len() < 14,
{
    law_only_questions_are_asked(0, t);
    match ask_version(t) {
        RunView::Done(_, rest) => {
            law_only_questions_are_asked(0, rest);
            match ask_voltage(rest) {
                RunView::Done(_, rest) => {
                    law_only_questions_are_asked(0, rest);
                    match enter(rest) {
                        RunView::Done(_, rest) => {
                            law_only_questions_are_asked(0, rest);
                            match ask_idcode(rest) {
                                RunView::Done(_, rest) => {
                                    law_read_regs_ends(rest, Seq::empty(), db);
                                },
                                _ => {},
                            }
                        },
                        _ => {},
                    }
                },
                _ => {},
            }
        },
        _ => {},
    }
}

/// The title of a probe, and that it was opened or why it was not.
pub open spec fn native_title(
    id: Seq<char>,
    product: Seq<char>,
    error: Option<Seq<char>>,
) -> Seq<Seq<char>> {
    let title = seq![""@, "["@ + id + "] "@ + product];
    match error {
        None => title.push("Step 1/2 - open + claim MI_00: PASS - bulk transfers available"@),
        Some(e) => title + seq![
            "Step 1/2 - open + claim MI_00: FAIL - "@ + e,
            "  No-driver boundary: descriptors are readable, transfers are not."@,
            "  Minimal fix (WinUSB on MI_00 only — no vendor driver / no probe-rs):"@,
            "    usbipd-rs --install-driver --confirm   (run in an Administrator shell)"@,
        ],
    }
}

/// The lines above the steps of one probe; `product` is "ST-Link" where the
/// descriptors name none, and `error` is why the probe could not be opened.
pub fn mcu_alive_native_title(
    vid: u16,
    pid: u16,
    serial: &str,
    product: Option<&str>,
    error: Option<&str>,
) -> (page: Vec<String>)
    ensures
        texts(page@) == native_title(
            selector(vid, pid, serial@),
            match product {
                Some(p) => p@,
                None => "ST-Link"@,
            },
            match error {
                Some(e) => Some(e@),
                None => None,
            },
        ),
{
    let mut page: Vec<String> = Vec::new();
    push_text(&mut page, "");
    let mut line = joined("[", probe_selector(vid, pid, serial).as_str());
    line.append("] ");
    line.append(
        match product {
            Some(p) => p,
            None => "ST-Link",
        },
    );
    push_line(&mut page, line);
    match error {
        None => push_text(
            &mut page,
            "Step 1/2 - open + claim MI_00: PASS - bulk transfers available",
        ),
        Some(e) => {
            push_line(&mut page, joined("Step 1/2 - open + claim MI_00: FAIL - ", e));
            push_text(
                &mut page,
                "  No-driver boundary: descriptors are readable, transfers are not.",
            );
            push_text(
                &mut page,
                "  Minimal fix (WinUSB on MI_00 only — no vendor driver / no probe-rs):",
            );
            push_text(
                &mut page,
                "    usbipd-rs --install-driver --confirm   (run in an Administrator shell)",
            );
        },
    }
    assert(texts(page@) =~= native_title(
        selector(vid, pid, serial@),
        match product {
            Some(p) => p@,
            None => "ST-Link"@,
        },
        match error {
            Some(e) => Some(e@),
            None => None,
        },
    ));
    page
}

pub open spec fn version_line(version: Seq<char>) -> Seq<char> {
    "Step 3 - probe firmware: PASS - "@ + version
}

/// A probe that stalls the question has no voltage to report.
pub open spec fn voltage_line(voltage: Result<u32, Seq<char>>, volts: Seq<char>) -> Seq<char> {
    match voltage {
        Ok(_) => "Step 4 - target voltage: "@ + volts + " V"@,
        Err(e) => if contains(e, "stall"@) {
            "Step 4 - target voltage: n/a (not reported by this ST-Link)"@
        } else {
            "Step 4 - target voltage: FAIL - "@ + e
        },
    }
}

pub open spec fn status_line(status: u8) -> Seq<char> {
    if status == STLINK_JTAG_OK {
        "Step 5 - enter SWD: PASS (status 0x80, core not halted)"@
    } else {
        "Step 5 - enter SWD: WARN - status 0x"@ + hex_upper(status as nat, 2)
            + " (no target on SWD / wrong wiring?); continuing read attempts"@
    }
}

pub open spec fn idcode_line(idcode: Result<u32, Seq<char>>) -> Seq<char> {
    match idcode {
        Ok(v) => "Step 6 - DP IDCODE (DPIDR): 0x"@ + hex_upper(v as nat, 8),
        Err(e) => "Step 6 - DP IDCODE: FAIL - "@ + e,
    }
}

/// The identity rows of a native test: the core first, the others in their order.
pub open spec fn native_rows(page: Seq<Seq<char>>, r: ReportView) -> Seq<Seq<char>> {
    identity_rows(
        with_row(page, "  "@, "Core"@, 18, r.core),
        "  "@,
        18,
        ReportView { core: None, ..r },
    )
}

/// The steps of one probe, in lines; none where the end of the flash cannot be
/// written.
pub open spec fn native_page(e: NativeEndView, volts: Seq<char>) -> Option<Seq<Seq<char>>> {
    match e {
        NativeEndView::NoVersion(e) => Some(seq!["Step 3 - probe firmware: FAIL - "@ + e]),
        NativeEndView::NoSwd { version, voltage, error } => Some(
            seq![
                version_line(version),
                voltage_line(voltage, volts),
                "Step 5 - enter SWD: FAIL - "@ + error,
            ],
        ),
        NativeEndView::Read { version, voltage, status, idcode, collected } => if flash_fits(
            collected.regs,
            collected.dev_id,
            collected.resolved,
        ) {
            Some(
                native_rows(
                    seq![
                        version_line(version),
                        voltage_line(voltage, volts),
                        status_line(status),
                        idcode_line(idcode),
                        "Step 7 - target identity (read-only):"@,
                    ],
                    target_rows(collected.regs, collected.dev_id, collected.resolved),
                ),
            )
        } else {
            None
        },
    }
}

fn push_first_steps(page: &mut Vec<String>, version: &str, voltage: &Result<u32, String>, volts: &str)
    ensures
        texts(final(page)@) == texts(old(page)@).push(version_line(version@)).push(
            voltage_line(word_view(*voltage), volts@),
        ),
{
    push_line(page, joined("Step 3 - probe firmware: PASS - ", version));
    match voltage {
        Ok(_) => {
            let mut line = joined("Step 4 - target voltage: ", volts);
            line.append(" V");
            push_line(page, line);
        },
        Err(e) => {
            let chars = chars_of(e.as_str());
            if has_text(chars.as_slice(), "stall") {
                push_text(page, "Step 4 - target voltage: n/a (not reported by this ST-Link)");
            } else {
                push_line(page, joined("Step 4 - target voltage: FAIL - ", e.as_str()));
            }
        },
    }
}

/// Shows the steps of a native test. `volts` is the sensed voltage in volts,
/// with two decimals, and used only where it was sensed.
pub fn mcu_alive_native_page(e: NativeEnd, volts: &str) -> (r: Option<Vec<String>>)
    requires
        has_words(e@),
    ensures
        match r {
            Some(page) => native_page(e@, volts@) == Some(texts(page@)),
            None => native_page(e@, volts@) is None,
        },
{
    let mut page: Vec<String> = Vec::new();
    match e {
        NativeEnd::NoVersion(why) => {
            push_line(&mut page, joined("Step 3 - probe firmware: FAIL - ", why.as_str()));
            assert(native_page(e@, volts@)->0 =~= texts(page@));
            Some(page)
        },
        NativeEnd::NoSwd { version, voltage, error } => {
            push_first_steps(&mut page, version.as_str(), &voltage, volts);
            push_line(&mut page, joined("Step 5 - enter SWD: FAIL - ", error.as_str()));
            assert(native_page(e@, volts@)->0 =~= texts(page@));
            Some(page)
        },
        NativeEnd::Read { version, voltage, status, idcode, collected } => {
            if !flash_map_fits(&collected) {
                return None;
            }
            push_first_steps(&mut page, version.as_str(), &voltage, volts);
            if status == STLINK_JTAG_OK {
                push_text(&mut page, "Step 5 - enter SWD: PASS (status 0x80, core not halted)");
            } else {
                let mut line = "Step 5 - enter SWD: WARN - status 0x".to_string();
                push_hex_upper(&mut line, status as u64, 2);
                line.append(" (no target on SWD / wrong wiring?); continuing read attempts");
                push_line(&mut page, line);
            }
            match &idcode {
                Ok(v) => {
                    let mut line = "Step 6 - DP IDCODE (DPIDR): 0x".to_string();
                    push_hex_upper(&mut line, *v as u64, 8);
                    push_line(&mut page, line);
                },
                Err(why) => push_line(
                    &mut page,
                    joined("Step 6 - DP IDCODE: FAIL - ", why.as_str()),
                ),
            }
            push_text(&mut page, "Step 7 - target identity (read-only):");
            assert(texts(page@) =~= seq![
                version_line(version@),
                voltage_line(word_view(voltage), volts@),
                status_line(status),
                idcode_line(word_view(idcode)),
                "Step 7 - target identity (read-only):"@,
            ]);
            let mut report = format_target_rows(
                &collected.regs,
                collected.dev_id,
                collected.resolved.as_ref(),
            );
            push_row(&mut page, "  ", "Core", 18, &report.core);
            report.core = None;
            push_identity_rows(&mut page, "  ", 18, &report);
            Some(page)
        },
    }
}

// ── What is asked and shown ─────────────────────────────────────────────
/// The ST-Links are the devices of one maker in one range of products.
pub proof fn law_stlink_devices(vid: u16, pid: u16)
    ensures
        is_stlink(vid, pid) <==> vid == 0x0483 && pid >= 0x3748 && pid <= 0x3757,
{
}

/// A probe is selected by its identity and, where it has one, its serial number behind a
/// colon; it is asked over SWD, at one speed, without questions.
pub proof fn law_probe_is_selected(vid: u16, pid: u16, serial: Seq<char>, id: Seq<char>)
    ensures
        serial.len() == 0 ==> selector(vid, pid, serial) == usb_id(vid, pid),
        serial.len() > 0 ==> selector(vid, pid, serial) == usb_id(vid, pid) + ":"@ + serial,
        probe_rs_args(id) == seq![
            "info"@,
            "--probe"@,
            id,
            "--protocol"@,
            "swd"@,
            "--speed"@,
            "100"@,
            "--non-interactive"@,
        ],
{
}

proof fn lemma_upper_digits(v: u16)
    ensures
        hex_upper(v as nat, 4).len() == 4,
        all_digits(hex_upper(v as nat, 4), 16),
        upper(hex_upper(v as nat, 4)) == hex_upper(v as nat, 4),
        value_of(hex_upper(v as nat, 4), 16) == v,
{
    let d = hex_upper(v as nat, 4);
    let s = shortest(v as nat, 16, true);
    law_four_digits_of_sixteen_bits(v as nat, true);
    lemma_hex_upper_is_digits(v as nat, 4);
    law_written_without_spare_zeros(v as nat, 16, true);
    law_padded_numbers_are_as_wide_as_asked(v as nat, 16, true, 4);
    assert forall|i: int| 0 <= i < 4 implies #[trigger] upper(d)[i] == d[i] by {
        let pad = d.len() - s.len();
        if i >= pad {
            assert(d.skip(pad) == s);
            assert(d[i] == d.skip(pad)[i - pad]);
            assert(s[i - pad] == d[i]);
        } else {
            assert(d[i] == '0');
        }
    }
    assert(upper(d) =~= d);
    law_written_number_reads_back(v as nat, 16, true, 4, 0xFFFF);
    assert(digit_value(d[0], 16) is Some);
    law_numbers(d, 16, 0xFFFF);
}

/// The instance of a debug interface names the device by its ids, and its first
/// interface.
pub proof fn law_debug_instance_names_the_device(vid: u16, pid: u16)
    ensures
        vid_pid(debug_instance(vid, pid)) == Some((vid, pid)),
        ends_with(debug_instance(vid, pid), "&MI_00"@),
{
    reveal_strlit("USB\\VID_");
    reveal_strlit("&PID_");
    reveal_strlit("&MI_00");
    lemma_upper_digits(vid);
    lemma_upper_digits(pid);
    let v = hex_upper(vid as nat, 4);
    let p = hex_upper(pid as nat, 4);
    let id = debug_instance(vid, pid);
    let mi = "&MI_00"@;
    let vmark = seq!['V', 'I', 'D', '_'];
    let pmark = seq!['P', 'I', 'D', '_'];
    let usb = seq!['U', 'S', 'B', '\\'];
    assert(id.skip(id.len() - mi.len()) =~= mi);
    assert(upper("USB\\VID_"@) =~= "USB\\VID_"@);
    assert(upper("&PID_"@) =~= "&PID_"@);
    assert(upper(mi) =~= mi);
    assert(upper(id) =~= upper("USB\\VID_"@) + upper(v) + upper("&PID_"@) + upper(p) + upper(mi));
    assert(upper(id) =~= id);
    let vrest = "&PID_"@ + p + mi;
    assert(id =~= usb + vmark + v + vrest);
    lemma_mark_is_first(usb, vmark, 'V');
    law_four_digits_behind_the_mark(usb, vmark, v, vrest);
    let before = usb + vmark + v + seq!['&'];
    assert(id =~= before + pmark + p + mi);
    assert forall|i: int| 0 <= i < before.len() implies #[trigger] before[i] != 'P' by {
        if 8 <= i < 12 {
            assert(before[i] == v[i - 8]);
            assert(digit_value(v[i - 8], 16) is Some);
        }
    }
    lemma_mark_is_first(before, pmark, 'P');
    law_four_digits_behind_the_mark(before, pmark, p, mi);
    law_device_is_named_by_both_ids(id);
}

proof fn lemma_mark_is_first(before: Seq<char>, mark: Seq<char>, c: char)
    requires
        mark.len() > 0,
        mark[0] == c,
        forall|i: int| 0 <= i < before.len() ==> #[trigger] before[i] != c,
    ensures
        find_text(before + mark, mark) == Some(before.len() as int),
{
    let all = before + mark;
    let n = before.len() as int;
    lemma_find_text_from(all, mark, 0);
    assert(all.subrange(n, n + mark.len()) =~= mark);
    match find_text(all, mark) {
        Some(at) => {
            if at < n {
                assert(all.subrange(at, at + mark.len())[0] == before[at]);
            } else if at > n {
                assert(all.subrange(n, n + mark.len()) != mark);
            }
        },
        None => {
            assert(all.subrange(n, n + mark.len()) != mark);
        },
    }
}

/// A probe is shown with its identity, its product, its serial number and its speed. A
/// driver that cannot be used stops the test there, with its state and the driver that
/// is wanted; any other lets it go on.
pub proof fn law_probe_page_shows_the_probe(p: SeenProbe, driver: Option<StlinkDriver>)
    ensures
        ({
            let page = probe_page(p, driver);
            &&& page.len() >= 4
            &&& page[1] == "["@ + selector(p.vid, p.pid, p.serial@) + "]"@
            &&& page[2] == "Step 1 - USB probe: PASS - product "@ + p.product_shown@ + ", serial "@
                + p.serial_shown@ + ", speed "@ + p.speed_shown@
            &&& driver matches Some(StlinkDriver::Other(state)) ==> {
                &&& page[3] == "Step 2 - Debug interface: FAIL - "@ + state@
                &&& page[4] == "Step 3 - Target SWD response: SKIP - no host-to-probe command path"@
                &&& advice(debug_instance(p.vid, p.pid)) matches Some(a) ==> page[5]
                    == "Required driver binding: "@ + a.name@ && page[6] == "Install: "@
                    + a.install@ && page.len() == 7
                &&& advice(debug_instance(p.vid, p.pid)) is None ==> page.len() == 5
            }
            &&& !(driver matches Some(StlinkDriver::Other(_))) ==> page.len() == 4 && page[3]
                == "Step 2 - Debug interface: attempting read-only open through probe-rs"@
        }),
{
}

/// A line is worth showing where it is not blank, does not begin with a dash and is not
/// the announcement of the search, in whatever case.
pub proof fn law_findings_are_shown(
    a: Seq<Seq<char>>,
    b: Seq<Seq<char>>,
    line: Seq<char>,
)
    ensures
        findings(a + b, 0) == findings(a, 0) + findings(b, 0),
        ({
            let t = trim(line);
            let shown = t.len() > 0 && t[0] != '-' && lower(t) != lower("Probing target via SWD"@);
            &&& shown ==> findings(seq![line], 0) == seq!["  "@ + t]
            &&& !shown ==> findings(seq![line], 0) == Seq::<Seq<char>>::empty()
        }),
{
    reveal_strlit("-");
    lemma_findings_behind(a, b, 0);
    lemma_findings_add(a, b, 0);
    let t = trim(line);
    if t.len() > 0 {
        assert(t.take(1)[0] == t[0]);
        if t[0] == '-' {
            assert(t.take(1) =~= "-"@);
        }
    }
    reveal_with_fuel(findings, 2);
    assert(seq![line][0] == line);
    let one = seq!["  "@ + t];
    assert(one + Seq::<Seq<char>>::empty() =~= one);
}

proof fn lemma_findings_behind(a: Seq<Seq<char>>, b: Seq<Seq<char>>, i: int)
    requires
        0 <= i <= b.len(),
    ensures
        findings(a + b, a.len() + i) == findings(b, i),
    decreases b.len() - i,
{
    if i < b.len() {
        assert((a + b)[a.len() + i] == b[i]);
        lemma_findings_behind(a, b, i + 1);
    }
}

proof fn lemma_findings_add(a: Seq<Seq<char>>, b: Seq<Seq<char>>, i: int)
    requires
        0 <= i <= a.len(),
    ensures
        findings(a + b, i) == findings(a, i) + findings(b, 0),
    decreases a.len() - i,
{
    if i < a.len() {
        assert((a + b)[i] == a[i]);
        lemma_findings_add(a, b, i + 1);
        let head = seq!["  "@ + trim(a[i])];
        assert(head + (findings(a, i + 1) + findings(b, 0)) =~= (head + findings(a, i + 1))
            + findings(b, 0));
    } else {
        lemma_findings_behind(a, b, 0);
        assert(findings(a, i) + findings(b, 0) =~= findings(b, 0));
    }
}

/// A discovery that went well shows its first twelve findings, those on the output
/// before those on the errors.
pub proof fn law_first_findings_are_shown(output: ToolOutput)
    requires
        output.success,
    ensures
        ({
            let all = findings(lines(output.stdout@), 0) + findings(lines(output.stderr@), 0);
            let page = alive_result(output);
            let n = if all.len() < 12 {
                all.len()
            } else {
                12
            };
            &&& page.len() == 2 + n
            &&& page[0] == "Step 2 - Debug interface: PASS - ST-Link accepted commands"@
            &&& page[1]
                == "Step 3 - Target SWD response: PASS - probe-rs discovered a target at 100 kHz"@
            &&& forall|i: int| 0 <= i < n ==> #[trigger] page[2 + i] == all[i]
        }),
{
    law_findings_are_shown(lines(output.stdout@), lines(output.stderr@), ""@);
}

/// The reason of a failed discovery is the last line that is not blank and does not
/// begin with a dash, output behind errors.
pub proof fn law_last_line_is_the_reason(all: Seq<Seq<char>>, k: int)
    requires
        -1 <= k < all.len(),
        k >= 0 ==> trim(all[k]).len() > 0 && trim(all[k])[0] != '-',
        forall|j: int|
            k < j < all.len() ==> trim(#[trigger] all[j]).len() == 0 || trim(all[j])[0] == '-',
    ensures
        k >= 0 ==> last_said(all) == Some(trim(all[k])),
        k == -1 ==> last_said(all) is None,
    decreases all.len(),
{
    reveal_strlit("-");
    if all.len() > 0 {
        let t = trim(all.last());
        assert(all.last() == all[all.len() - 1]);
        if t.len() > 0 {
            assert(t.take(1)[0] == t[0]);
            if t[0] == '-' {
                assert(t.take(1) =~= "-"@);
            }
        }
        if k < all.len() - 1 {
            let fewer = all.drop_last();
            if k >= 0 {
                assert(fewer[k] == all[k]);
            }
            assert forall|j: int| k < j < fewer.len() implies trim(#[trigger] fewer[j]).len() == 0
                || trim(fewer[j])[0] == '-' by {
                assert(fewer[j] == all[j]);
            }
            law_last_line_is_the_reason(fewer, k);
        }
    }
}

/// A failed discovery shows its reason, and whether the probe was opened: it was not
/// where the reason speaks of a driver, of opening the probe or of a USB error, in
/// whatever case.
pub proof fn law_failed_discovery_is_shown(output: ToolOutput)
    requires
        !output.success,
    ensures
        ({
            let why = match last_said(lines(output.stderr@) + lines(output.stdout@)) {
                Some(line) => line,
                None => "probe-rs could not complete SWD discovery"@,
            };
            let low = lower(why);
            let closed = contains(low, "driver"@) || contains(low, "open the debug probe"@)
                || contains(low, "usb error"@);
            let page = alive_result(output);
            &&& page.len() == 2
            &&& closed ==> page[0] == "Step 2 - Debug interface: "@
                + "FAIL - probe could not be opened"@
            &&& !closed ==> page[0] == "Step 2 - Debug interface: "@
                + "PASS - probe opened; SWD stage failed"@
            &&& page[1] == "Step 3 - Target SWD response: FAIL - "@ + why
        }),
{
}

/// A native test ends with what was asked: the version, the voltage, the status of SWD,
/// the identity of the debug port and the registers. A missing version or a refusal to
/// enter SWD ends it before.
pub proof fn law_native_test_ends_with_what_was_asked(
    t: Seq<Result<Seq<u8>, Seq<char>>>,
    db: Seq<ChipDefView>,
)
    ensures
        native_test(t, db) matches NativeStepView::Done(e) ==> {
            &&& ask_version(t) matches RunView::Done(v, a) && {
                &&& v matches Err(why) ==> e == NativeEndView::NoVersion(why)
                &&& v matches Ok(version) ==> {
                    &&& ask_voltage(a) matches RunView::Done(mv, b) && {
                        &&& enter(b) matches RunView::Done(s, c) && {
                            &&& s matches Err(why) ==> e == (NativeEndView::NoSwd {
                                version,
                                voltage: mv,
                                error: why,
                            })
                            &&& s matches Ok(status) ==> {
                                &&& e matches NativeEndView::Read {
                                    version: v2,
                                    voltage: mv2,
                                    status: s2,
                                    idcode,
                                    collected,
                                } && {
                                    &&& v2 == version && mv2 == mv && s2 == status
                                    &&& ask_idcode(c) matches RunView::Done(id, d) && id == idcode
                                        && (read_regs(d, Seq::empty(), db) matches RunView::Done(
                                        regs,
                                        _,
                                    ) && (regs is Ok ==> regs->Ok_0 == collected))
                                }
                            }
                        }
                    }
                }
            }
        },
{
}

/// The steps of a native test, one line each: the firmware, the voltage where it was
/// told, the status of SWD, and the identity of the debug port.
pub proof fn law_native_steps_are_shown(
    version: Seq<char>,
    mv: u32,
    why: Seq<char>,
    volts: Seq<char>,
    status: u8,
    id: u32,
)
    ensures
        version_line(version) == "Step 3 - probe firmware: PASS - "@ + version,
        voltage_line(Ok(mv), volts) == "Step 4 - target voltage: "@ + volts + " V"@,
        contains(why, "stall"@) ==> voltage_line(Err(why), volts)
            == "Step 4 - target voltage: n/a (not reported by this ST-Link)"@,
        !contains(why, "stall"@) ==> voltage_line(Err(why), volts)
            == "Step 4 - target voltage: FAIL - "@ + why,
        status == 0x80 ==> status_line(status)
            == "Step 5 - enter SWD: PASS (status 0x80, core not halted)"@,
        status != 0x80 ==> status_line(status) == "Step 5 - enter SWD: WARN - status 0x"@
            + hex_upper(status as nat, 2)
            + " (no target on SWD / wrong wiring?); continuing read attempts"@,
        idcode_line(Ok(id)) == "Step 6 - DP IDCODE (DPIDR): 0x"@ + hex_upper(id as nat, 8),
        idcode_line(Err(why)) == "Step 6 - DP IDCODE: FAIL - "@ + why,
        native_page(NativeEndView::NoVersion(why), volts) == Some(
            seq!["Step 3 - probe firmware: FAIL - "@ + why],
        ),
        native_page((NativeEndView::NoSwd { version, voltage: Ok(mv), error: why }), volts) == Some(
            seq![
                "Step 3 - probe firmware: PASS - "@ + version,
                "Step 4 - target voltage: "@ + volts + " V"@,
                "Step 5 - enter SWD: FAIL - "@ + why,
            ],
        ),
{
}

/// Every identity row of a native test is shown, under its label, behind the steps.
pub proof fn law_native_rows_are_shown(page: Seq<Seq<char>>, r: ReportView)
    ensures
        forall|x: Seq<char>| page.contains(x) ==> #[trigger] native_rows(page, r).contains(x),
        r.device_id matches Some(v) ==> native_rows(page, r).contains(
            row("  "@, "Device ID"@, 18, v),
        ),
        r.revision matches Some(v) ==> native_rows(page, r).contains(
            row("  "@, "Revision"@, 18, v),
        ),
        r.vendor matches Some(v) ==> native_rows(page, r).contains(row("  "@, "Vendor"@, 18, v)),
        r.core matches Some(v) ==> native_rows(page, r).contains(row("  "@, "Core"@, 18, v)),
        r.architecture matches Some(v) ==> native_rows(page, r).contains(
            row("  "@, "Architecture"@, 18, v),
        ),
        r.max_clock matches Some(v) ==> native_rows(page, r).contains(
            row("  "@, "Max clock"@, 18, v),
        ),
        r.flash_size matches Some(v) ==> native_rows(page, r).contains(
            row("  "@, "Flash size"@, 18, v),
        ),
        r.flash_map matches Some(v) ==> native_rows(page, r).contains(
            row("  "@, "Flash map"@, 18, v),
        ),
        r.sram matches Some(v) ==> native_rows(page, r).contains(row("  "@, "SRAM"@, 18, v)),
        r.unique_id matches Some(v) ==> native_rows(page, r).contains(
            row("  "@, "Unique ID"@, 18, v),
        ),
        r.read_protection matches Some(v) ==> native_rows(page, r).contains(
            row("  "@, "Read protection"@, 18, v),
        ),
        r.identification matches Some(v) ==> native_rows(page, r).contains(
            row("  "@, "Identification"@, 18, v),
        ),
        r.transport matches Some(v) ==> native_rows(page, r).contains(
            row("  "@, "Transport"@, 18, v),
        ),
        r.access matches Some(v) ==> native_rows(page, r).contains(row("  "@, "Access"@, 18, v)),
        r.source matches Some(v) ==> native_rows(page, r).contains(row("  "@, "Source"@, 18, v)),
{
    lemma_with_row(page, "  "@, "Core"@, 18, r.core);
    let p = with_row(page, "  "@, "Core"@, 18, r.core);
    law_identity_rows_are_shown(p, "  "@, 18, (ReportView { core: None, ..r }));
}

/// A finished native test shows all its steps, in order, before the rows.
pub proof fn law_finished_test_shows_every_step(
    version: Seq<char>,
    voltage: Result<u32, Seq<char>>,
    status: u8,
    idcode: Result<u32, Seq<char>>,
    collected: CollectedView,
    volts: Seq<char>,
)
    ensures
        native_page(
            (NativeEndView::Read { version, voltage, status, idcode, collected }),
            volts,
        ) matches Some(page) ==> {
            let r = target_rows(collected.regs, collected.dev_id, collected.resolved);
            &&& exists|before: Seq<Seq<char>>|
                page == #[trigger] native_rows(before, r) && before.len() == 5 && before[0]
                    == version_line(version) && before[1] == voltage_line(voltage, volts)
                    && before[2] == status_line(status) && before[3] == idcode_line(idcode)
                    && before[4] == "Step 7 - target identity (read-only):"@
        },
{
    let before = seq![
        version_line(version),
        voltage_line(voltage, volts),
        status_line(status),
        idcode_line(idcode),
        "Step 7 - target identity (read-only):"@,
    ];
    let r = target_rows(collected.regs, collected.dev_id, collected.resolved);
    assert(native_rows(before, r) == native_rows(before, r));
}

/// The heads say what is not done to a target; without a probe they end in a failure,
/// and a native test names where its chip data come from.
pub proof fn law_heads_of_the_tests(defs: nat)
    ensures
        alive_head(true).len() == 3,
        alive_head(false) == alive_head(true) + seq![
            "Step 1 - USB probe: FAIL - no ST-Link USB device found"@,
            "Step 2 - Debug interface: SKIP"@,
            "Step 3 - Target SWD response: SKIP"@,
        ],
        alive_head(true)[1]
            == "Safety: no target reset, halt, flash read/write, erase, or unlock is requested."@,
        native_head(defs, true).len() == 4,
        native_head(defs, false) == native_head(defs, true).push(
            "Step 1 - USB probe: FAIL - no ST-Link USB device found"@,
        ),
        native_head(0, true)[3]
            == "Chip data: built-in family table only (drop etc/chips/*.chip files to extend/override)."@,
        defs > 0 ==> native_head(defs, true)[3] == "Chip data: "@ + decimal(defs)
            + " external .chip definition(s) loaded; they take priority over the built-in table."@,
{
}

/// A native test is titled with the probe and its product, and says that it was opened or
/// why it was not.
pub proof fn law_titles_of_native_tests(id: Seq<char>, product: Seq<char>, e: Seq<char>)
    ensures
        native_title(id, product, None) == seq![
            ""@,
            "["@ + id + "] "@ + product,
            "Step 1/2 - open + claim MI_00: PASS - bulk transfers available"@,
        ],
        native_title(id, product, Some(e)).len() == 6,
        native_title(id, product, Some(e))[1] == "["@ + id + "] "@ + product,
        native_title(id, product, Some(e))[2] == "Step 1/2 - open + claim MI_00: FAIL - "@ + e,
{
    assert(native_title(id, product, None) =~= seq![
        ""@,
        "["@ + id + "] "@ + product,
        "Step 1/2 - open + claim MI_00: PASS - bulk transfers available"@,
    ]);
}

} // verus!
