//! What a CMSIS-DAP probe is, and what is behind it.
use vstd::prelude::*;
use vstd::string::*;
use crate::number::{hex_upper, push_hex_upper};
use crate::page::shown;
use crate::stlink::controller::{
    blank_controller, usb_id, usb_id_of, ControllerView, Descriptors, StlinkControllerInfo,
};
use crate::stm32::chipdb::{defs, ChipDef, ChipDefView};
use crate::stm32::decode::{
    blank_report, core_text, cortex_core, ReportView, TargetReport,
};
use crate::stm32::CPUID;
use crate::swd::cmsisdap::{
    bring_up, bringup, heard, is_allowed, law_mem_ap_ends, law_read_memory_ends, lemma_bring_up,
    mem_ap, open_mem_ap, read_mem32, read_memory, Reply, Run, RunView, RP2040_SYSINFO_CHIP_ID,
    RP2040_SYSINFO_GITREF,
};
use crate::swd::{
    collect, collect_target_regs, flash_fits, flash_map_fits, format_target_rows,
    law_collection_ends, law_collection_is_consistent, target_rows, Collect, CollectView,
    Collected, CollectedView,
};

verus! {

// ── Layer 1 ─────────────────────────────────────────────────────────────
pub open spec fn probe_generation(pid: u16) -> &'static str {
    if pid == 0x000c {
        "Raspberry Pi Debug Probe (debugprobe firmware)"
    } else if pid == 0x0004 {
        "picoprobe (Pico-as-probe firmware)"
    } else {
        "RP2040 CMSIS-DAP probe"
    }
}

/// The report of an RP2040-based CMSIS-DAP debug probe.
pub open spec fn cmsisdap_report(vid: u16, pid: u16, dev: Option<Descriptors>) -> ControllerView {
    ControllerView {
        layer: Some("1 - USB debug probe (CMSIS-DAP)"@),
        generation: Some(probe_generation(pid)@),
        controller_mcu: Some("RP2040 (dual Arm Cortex-M0+)"@),
        core: Some("2x Arm Cortex-M0+"@),
        architecture: Some("Armv6-M, Thumb/Thumb-2 subset"@),
        max_clock: Some("133 MHz"@),
        flash: Some("External QSPI (e.g. 2 MB on a Pico)"@),
        sram: Some("264 KB"@),
        upstream: Some("USB 2.0 Full Speed (CMSIS-DAP v2 bulk + CDC UART)"@),
        downstream: Some("SWD (+ UART bridge)"@),
        usb_identity: Some(usb_id(vid, pid)),
        identification: Some("VID:PID identifies an RP2040 CMSIS-DAP probe"@),
        layer2: Some("Auto-probed read-only below (native CMSIS-DAP)"@),
        descriptor_access: match dev {
            Some(_) => Some("Available through nusb"@),
            None => None,
        },
        usb_product: match dev {
            Some(d) => shown(d.product),
            None => None,
        },
        usb_serial: match dev {
            Some(d) => shown(d.serial),
            None => None,
        },
        ..blank_controller()
    }
}

/// Layer 1: identify an RP2040-based CMSIS-DAP debug probe from VID:PID + USB
/// descriptors (no SWD command issued).
pub fn run_cmsisdap_controller_query(vid: u16, pid: u16, dev: Option<Descriptors>) -> (r:
    StlinkControllerInfo)
    ensures
        r@ == cmsisdap_report(vid, pid, dev),
{
    let generation = match pid {
        0x000c => "Raspberry Pi Debug Probe (debugprobe firmware)",
        0x0004 => "picoprobe (Pico-as-probe firmware)",
        _ => "RP2040 CMSIS-DAP probe",
    };
    let mut info = StlinkControllerInfo::default();
    info.layer = Some("1 - USB debug probe (CMSIS-DAP)".to_string());
    info.generation = Some(generation.to_string());
    info.controller_mcu = Some("RP2040 (dual Arm Cortex-M0+)".to_string());
    info.core = Some("2x Arm Cortex-M0+".to_string());
    info.architecture = Some("Armv6-M, Thumb/Thumb-2 subset".to_string());
    info.max_clock = Some("133 MHz".to_string());
    info.flash = Some("External QSPI (e.g. 2 MB on a Pico)".to_string());
    info.sram = Some("264 KB".to_string());
    info.upstream = Some("USB 2.0 Full Speed (CMSIS-DAP v2 bulk + CDC UART)".to_string());
    info.downstream = Some("SWD (+ UART bridge)".to_string());
    info.usb_identity = Some(usb_id_of(vid, pid));
    info.identification = Some("VID:PID identifies an RP2040 CMSIS-DAP probe".to_string());
    info.layer2 = Some("Auto-probed read-only below (native CMSIS-DAP)".to_string());
    if let Some(d) = dev {
        info.descriptor_access = Some("Available through nusb".to_string());
        info.usb_product = d.product;
        info.usb_serial = d.serial;
    }
    info
}

// ── An RP2040 behind the probe ──────────────────────────────────────────
pub open spec fn stepping(part: u32, revision: u32) -> &'static str {
    if part == 0x0002 && revision == 1 {
        " (B0/B1)"
    } else if part == 0x0002 && revision == 2 {
        " (B2)"
    } else {
        ""
    }
}

/// The identity of an RP2040: what SYSINFO says of the chip, and the core and
/// boot ROM where they could be read.
pub open spec fn rp2040_report(
    chip_id: u32,
    multidrop: bool,
    cpuid: Option<u32>,
    gitref: Option<u32>,
) -> ReportView {
    let part = (chip_id >> 12) & 0xFFFF;
    let revision = (chip_id >> 28) & 0xF;
    let mfr = chip_id & 0xFFF;
    ReportView {
        device_id: Some(
            (if part == 0x0002 {
                "RP2040"@
            } else {
                "Raspberry Pi silicon"@
            }) + stepping(part, revision)@ + " — Raspberry Pi (mfr 0x"@ + hex_upper(mfr as nat, 3)
                + ", part 0x"@ + hex_upper(part as nat, 4) + ")"@,
        ),
        revision: Some("0x"@ + hex_upper(revision as nat, 1)),
        flash_size: Some("external QSPI (not read over SWD)"@),
        sram: Some("264 KB"@),
        transport: Some(
            "SWD"@ + (if multidrop {
                " multidrop"@
            } else {
                ""@
            }) + " (native CMSIS-DAP, read-only)"@,
        ),
        access: Some("Read-only identity registers"@),
        core: match cpuid {
            Some(v) => Some(core_text(v) + " (dual-core; core 0 selected)"@),
            None => None,
        },
        identification: match gitref {
            Some(v) => Some(
                "bootrom GITREF 0x"@ + hex_upper(v as nat, 8) + ", CHIP_ID 0x"@ + hex_upper(
                    chip_id as nat,
                    8,
                ),
            ),
            None => None,
        },
        ..blank_report()
    }
}

/// Format an RP2040 downstream target's read-only identity from its SYSINFO
/// CHIP_ID (manufacturer 0x927, part 0x0002) + GITREF + CPUID.
pub fn rp2040_rows(chip_id: u32, multidrop: bool, cpuid: Option<u32>, gitref: Option<u32>) -> (r:
    TargetReport)
    ensures
        r@ == rp2040_report(chip_id, multidrop, cpuid, gitref),
{
    let part: u32 = (chip_id >> 12) & 0xFFFF;
    let revision: u32 = (chip_id >> 28) & 0xF;
    let mfr: u32 = chip_id & 0xFFF;
    let mut device_id = if part == 0x0002 {
        "RP2040".to_string()
    } else {
        "Raspberry Pi silicon".to_string()
    };
    device_id.append(
        match (part, revision) {
            (0x0002, 1) => " (B0/B1)",
            (0x0002, 2) => " (B2)",
            _ => "",
        },
    );
    device_id.append(" — Raspberry Pi (mfr 0x");
    push_hex_upper(&mut device_id, mfr as u64, 3);
    device_id.append(", part 0x");
    push_hex_upper(&mut device_id, part as u64, 4);
    device_id.append(")");
    let mut rev = "0x".to_string();
    push_hex_upper(&mut rev, revision as u64, 1);
    let mut transport = "SWD".to_string();
    transport.append(
        if multidrop {
            " multidrop"
        } else {
            ""
        },
    );
    transport.append(" (native CMSIS-DAP, read-only)");
    let mut report = TargetReport::default();
    report.device_id = Some(device_id);
    report.revision = Some(rev);
    report.flash_size = Some("external QSPI (not read over SWD)".to_string());
    report.sram = Some("264 KB".to_string());
    report.transport = Some(transport);
    report.access = Some("Read-only identity registers".to_string());
    if let Some(v) = cpuid {
        let mut core = cortex_core(v);
        core.append(" (dual-core; core 0 selected)");
        report.core = Some(core);
    }
    if let Some(v) = gitref {
        let mut id = "bootrom GITREF 0x".to_string();
        push_hex_upper(&mut id, v as u64, 8);
        id.append(", CHIP_ID 0x");
        push_hex_upper(&mut id, chip_id as u64, 8);
        report.identification = Some(id);
    }
    report
}

// ── Layer 2 ─────────────────────────────────────────────────────────────
/// How far the USB side got.
#[derive(Debug)]
pub enum Opened {
    /// No such device is plugged in.
    NotFound,
    /// The device is there, but its interface cannot be opened, for this reason.
    Failed(String),
    /// Commands can be sent.
    Ready,
}

/// What comes next in a query.
#[derive(Debug)]
pub enum Query {
    /// Send this command and ask again with its reply added.
    Send(Vec<u8>),
    /// The query is over.
    Done(TargetReport),
    /// The registers give a flash whose end is no 32-bit address, so its rows
    /// cannot be written.
    FlashMapOverflow,
}

pub enum QueryView {
    Send(Seq<u8>),
    Done(ReportView),
    FlashMapOverflow,
}

impl View for Query {
    type V = QueryView;

    open spec fn view(&self) -> QueryView {
        match *self {
            Query::Send(c) => QueryView::Send(c@),
            Query::Done(r) => QueryView::Done(r@),
            Query::FlashMapOverflow => QueryView::FlashMapOverflow,
        }
    }
}

/// A reply of the target that counts only where it is a word.
pub open spec fn word_or_none(r: Result<u32, Seq<char>>) -> Option<u32> {
    match r {
        Ok(v) => Some(v),
        Err(_) => None,
    }
}

/// The collection of the identity registers, each read through the probe.
pub open spec fn collect_over(
    t: Seq<Result<Seq<u8>, Seq<char>>>,
    replies: Seq<Option<u32>>,
    db: Seq<ChipDefView>,
) -> RunView<CollectedView>
    decreases t.len(),
{
    match collect(replies, db) {
        CollectView::Done(c) => RunView::Done(Ok(c), t),
        CollectView::Read(addr) => {
            proof {
                law_read_memory_ends(addr, t);
            }
            match read_memory(addr, t) {
                RunView::Send(c) => RunView::Send(c),
                RunView::Done(r, rest) => collect_over(rest, replies.push(word_or_none(r)), db),
            }
        },
    }
}

pub const NO_ANSWER_HINT: &'static str = "CMSIS-DAP probe present but no target answered. Check: target powered; SWDIO/SWCLK/GND wired to the probe; correct SWD pins; NRST not held low.";

pub const FAULT_HINT: &'static str = "An Arm debug port responded but its memory bus did not (SWD ACK=FAULT). Likely causes: NRST held low (target stuck in reset); target not fully powered (wire VTREF/3V3 + GND); on a Nucleo driven by an EXTERNAL probe, remove the two CN2 (ST-LINK) jumpers so the on-board ST-LINK stops contending, then power the board (USB/E5V); SWDIO/SWCLK swapped; or the chip has debug permanently disabled (STM32 RDP level 2).";

/// The report once the interface is open.
pub open spec fn opened_report() -> ReportView {
    ReportView { probe: Some("CMSIS-DAP v2 (native nusb)"@), ..blank_report() }
}

/// The report once a debug port has answered.
pub open spec fn answered_report(dpidr: u32, multidrop: bool) -> ReportView {
    ReportView {
        dp_idcode: Some(
            "0x"@ + hex_upper(dpidr as nat, 8) + (if multidrop {
                " (SWD multidrop)"@
            } else {
                ""@
            }),
        ),
        ..opened_report()
    }
}

/// The identity of the target below what is known of the probe.
pub open spec fn joined_report(r: ReportView, identity: ReportView) -> ReportView {
    ReportView { probe: r.probe, dp_idcode: r.dp_idcode, ..identity }
}

/// A multidrop port is an RP2040: SYSINFO identifies it, then the core and the
/// boot ROM are read as far as they can be.
pub open spec fn rp2040_query(t: Seq<Result<Seq<u8>, Seq<char>>>, r: ReportView) -> QueryView {
    match read_memory(RP2040_SYSINFO_CHIP_ID, t) {
        RunView::Send(c) => QueryView::Send(c),
        RunView::Done(Err(e), _) => QueryView::Done(
            ReportView {
                layer2: Some("partial - DP/AP up but MEM read failed: "@ + e),
                ..r
            },
        ),
        RunView::Done(Ok(chip_id), rest) => match read_memory(CPUID, rest) {
            RunView::Send(c) => QueryView::Send(c),
            RunView::Done(cpuid, rest) => match read_memory(RP2040_SYSINFO_GITREF, rest) {
                RunView::Send(c) => QueryView::Send(c),
                RunView::Done(gitref, _) => QueryView::Done(
                    joined_report(
                        r,
                        rp2040_report(chip_id, true, word_or_none(cpuid), word_or_none(gitref)),
                    ),
                ),
            },
        },
    }
}

/// Any other port: the identity registers are collected. Where they name no
/// device, one more read tells why.
pub open spec fn registers_query(
    t: Seq<Result<Seq<u8>, Seq<char>>>,
    r: ReportView,
    db: Seq<ChipDefView>,
) -> QueryView {
    match collect_over(t, Seq::empty(), db) {
        RunView::Send(c) => QueryView::Send(c),
        RunView::Done(c, rest) => {
            let c = c->Ok_0;
            if c.dev_id is None {
                match read_memory(CPUID, rest) {
                    RunView::Send(c) => QueryView::Send(c),
                    RunView::Done(why, _) => QueryView::Done(
                        ReportView {
                            layer2: Some(
                                "target present but unreadable — Arm SW-DP answered, memory/AP access faulted ("@
                                    + (match why {
                                    Err(e) => e,
                                    Ok(_) => "AP read returned no usable value"@,
                                }) + ")"@,
                            ),
                            hint: Some(FAULT_HINT@),
                            ..r
                        },
                    ),
                }
            } else if !flash_fits(c.regs, c.dev_id, c.resolved) {
                QueryView::FlashMapOverflow
            } else {
                QueryView::Done(joined_report(r, target_rows(c.regs, c.dev_id, c.resolved)))
            }
        },
    }
}

/// The whole query of an open interface.
pub open spec fn ready_query(
    t: Seq<Result<Seq<u8>, Seq<char>>>,
    db: Seq<ChipDefView>,
) -> QueryView {
    match bring_up(t) {
        RunView::Send(c) => QueryView::Send(c),
        RunView::Done(Err(e), _) => QueryView::Done(
            ReportView {
                layer2: Some("none - SWD bring-up failed: "@ + e),
                hint: Some(NO_ANSWER_HINT@),
                ..opened_report()
            },
        ),
        RunView::Done(Ok((dpidr, multidrop)), rest) => {
            let r = answered_report(dpidr, multidrop);
            match mem_ap(rest) {
                RunView::Send(c) => QueryView::Send(c),
                RunView::Done(Err(e), _) => QueryView::Done(
                    ReportView {
                        layer2: Some("partial - DP up but MEM-AP failed: "@ + e),
                        ..r
                    },
                ),
                RunView::Done(Ok(_), rest) => if multidrop {
                    rp2040_query(rest, r)
                } else {
                    registers_query(rest, r, db)
                },
            }
        },
    }
}

/// The query, from the USB side on.
pub open spec fn cmsisdap_query(
    opened: Opened,
    windows: bool,
    t: Seq<Result<Seq<u8>, Seq<char>>>,
    db: Seq<ChipDefView>,
) -> QueryView {
    match opened {
        Opened::NotFound => QueryView::Done(
            ReportView {
                layer2: Some("SKIP - CMSIS-DAP USB device not found"@),
                ..blank_report()
            },
        ),
        Opened::Failed(e) => QueryView::Done(
            ReportView {
                layer2: Some("SKIP - cannot open CMSIS-DAP interface: "@ + e@),
                fix: if windows {
                    Some(
                        "bind WinUSB to the 'CMSIS-DAP v2' interface with Zadig (usbipd-rs --install zadig)"@,
                    )
                } else {
                    None
                },
                ..blank_report()
            },
        ),
        Opened::Ready => ready_query(t, db),
    }
}

/// Where the collection stands: the next command, or the registers and the
/// replies that are left.
enum Collecting<'a> {
    Send(Vec<u8>),
    Done(Collected, &'a [Reply]),
}

fn collect_over_of<'a>(t: &'a [Reply], db: &[ChipDef]) -> (r: Collecting<'a>)
    ensures
        match r {
            Collecting::Send(c) => collect_over(heard(t@), Seq::empty(), defs(db@))
                == RunView::<CollectedView>::Send(c@),
            Collecting::Done(c, rest) => {
                &&& collect_over(heard(t@), Seq::empty(), defs(db@)) == RunView::<
                    CollectedView,
                >::Done(Ok(c@), heard(rest@))
                &&& forall|a: u32| #[trigger]
                    c@.regs.contains_key(a) ==> c@.regs[a].len() > 0
            },
        },
{
    let mut rest = t;
    let mut replies: Vec<Option<u32>> = Vec::new();
    assert(replies@ =~= Seq::empty());
    loop
        invariant
            collect_over(heard(t@), Seq::empty(), defs(db@)) == collect_over(
                heard(rest@),
                replies@,
                defs(db@),
            ),
        decreases rest@.len(),
    {
        match collect_target_regs(replies.as_slice(), db) {
            Collect::Done(c) => {
                proof {
                    law_collection_is_consistent(replies@, defs(db@));
                }
                return Collecting::Done(c, rest);
            },
            Collect::Read(addr) => {
                proof {
                    law_read_memory_ends(addr, heard(rest@));
                }
                match read_mem32(addr, rest) {
                    Run::Send(c) => {
                        return Collecting::Send(c);
                    },
                    Run::Done(Ok(v), after) => {
                        assert(heard(after@).len() == after@.len());
                        replies.push(Some(v));
                        rest = after;
                    },
                    Run::Done(Err(_), after) => {
                        assert(heard(after@).len() == after@.len());
                        replies.push(None);
                        rest = after;
                    },
                }
            },
        }
    }
}

fn rp2040_query_of(t: &[Reply], report: TargetReport) -> (q: Query)
    ensures
        q@ == rp2040_query(heard(t@), report@),
{
    let mut report = report;
    let (chip_id, rest) = match read_mem32(RP2040_SYSINFO_CHIP_ID, t) {
        Run::Send(c) => {
            return Query::Send(c);
        },
        Run::Done(Err(e), _) => {
            let mut s = "partial - DP/AP up but MEM read failed: ".to_string();
            s.append(e.as_str());
            report.layer2 = Some(s);
            return Query::Done(report);
        },
        Run::Done(Ok(v), rest) => (v, rest),
    };
    let (cpuid, rest) = match read_mem32(CPUID, rest) {
        Run::Send(c) => {
            return Query::Send(c);
        },
        Run::Done(Ok(v), rest) => (Some(v), rest),
        Run::Done(Err(_), rest) => (None, rest),
    };
    let gitref: Option<u32> = match read_mem32(RP2040_SYSINFO_GITREF, rest) {
        Run::Send(c) => {
            return Query::Send(c);
        },
        Run::Done(Ok(v), _) => Some(v),
        Run::Done(Err(_), _) => None,
    };
    let mut identity = rp2040_rows(chip_id, true, cpuid, gitref);
    identity.probe = report.probe;
    identity.dp_idcode = report.dp_idcode;
    Query::Done(identity)
}

fn registers_query_of(t: &[Reply], report: TargetReport, db: &[ChipDef]) -> (q: Query)
    ensures
        q@ == registers_query(heard(t@), report@, defs(db@)),
{
    let mut report = report;
    let (c, rest) = match collect_over_of(t, db) {
        Collecting::Send(c) => {
            return Query::Send(c);
        },
        Collecting::Done(c, rest) => (c, rest),
    };
    if c.dev_id.is_none() {
        let mut s =
            "target present but unreadable — Arm SW-DP answered, memory/AP access faulted (".to_string();
        match read_mem32(CPUID, rest) {
            Run::Send(c) => {
                return Query::Send(c);
            },
            Run::Done(Err(e), _) => s.append(e.as_str()),
            Run::Done(Ok(_), _) => s.append("AP read returned no usable value"),
        }
        s.append(")");
        report.layer2 = Some(s);
        report.hint = Some(FAULT_HINT.to_string());
        return Query::Done(report);
    }
    if !flash_map_fits(&c) {
        return Query::FlashMapOverflow;
    }
    let mut identity = format_target_rows(&c.regs, c.dev_id, c.resolved.as_ref());
    identity.probe = report.probe;
    identity.dp_idcode = report.dp_idcode;
    Query::Done(identity)
}

/// Layer 2: read the downstream SWD target through the CMSIS-DAP probe natively.
/// `t` holds the replies heard so far, and `windows` tells whether a missing
/// driver can be the reason for an interface that does not open. A target that
/// does not answer is reported as such.
pub fn run_cmsisdap_target_query(
    opened: &Opened,
    windows: bool,
    t: &[Reply],
    db: &[ChipDef],
) -> (q: Query)
    ensures
        q@ == cmsisdap_query(*opened, windows, heard(t@), defs(db@)),
{
    let mut report = TargetReport::default();
    match opened {
        Opened::NotFound => {
            report.layer2 = Some("SKIP - CMSIS-DAP USB device not found".to_string());
            return Query::Done(report);
        },
        Opened::Failed(e) => {
            let mut s = "SKIP - cannot open CMSIS-DAP interface: ".to_string();
            s.append(e.as_str());
            report.layer2 = Some(s);
            if windows {
                report.fix = Some(
                    "bind WinUSB to the 'CMSIS-DAP v2' interface with Zadig (usbipd-rs --install zadig)".to_string(),
                );
            }
            return Query::Done(report);
        },
        Opened::Ready => {},
    }
    report.probe = Some("CMSIS-DAP v2 (native nusb)".to_string());
    let (dpidr, multidrop, rest) = match bringup(t) {
        Run::Send(c) => {
            return Query::Send(c);
        },
        Run::Done(Err(e), _) => {
            let mut s = "none - SWD bring-up failed: ".to_string();
            s.append(e.as_str());
            report.layer2 = Some(s);
            report.hint = Some(NO_ANSWER_HINT.to_string());
            return Query::Done(report);
        },
        Run::Done(Ok((dpidr, multidrop)), rest) => (dpidr, multidrop, rest),
    };
    let mut idcode = "0x".to_string();
    push_hex_upper(&mut idcode, dpidr as u64, 8);
    idcode.append(
        if multidrop {
            " (SWD multidrop)"
        } else {
            ""
        },
    );
    report.dp_idcode = Some(idcode);
    match open_mem_ap(rest) {
        Run::Send(c) => Query::Send(c),
        Run::Done(Err(e), _) => {
            let mut s = "partial - DP up but MEM-AP failed: ".to_string();
            s.append(e.as_str());
            report.layer2 = Some(s);
            Query::Done(report)
        },
        Run::Done(Ok(_), rest) => if multidrop {
            rp2040_query_of(rest, report)
        } else {
            registers_query_of(rest, report, db)
        },
    }
}

// ── What holds of every query ───────────────────────────────────────────
proof fn lemma_collect_over(
    t: Seq<Result<Seq<u8>, Seq<char>>>,
    replies: Seq<Option<u32>>,
    db: Seq<ChipDefView>,
)
    requires
        replies.len() <= 8,
    ensures
        match collect_over(t, replies, db) {
            RunView::Send(c) => is_allowed(c) && t.len() < 5 * (8 - replies.len()),
            RunView::Done(_, rest) => rest.len() <= t.len() <= rest.len() + 5 * (8 - replies.len()),
        },
    decreases t.len(),
{
    if replies.len() == 8 {
        law_collection_ends(replies, db);
    }
    match collect(replies, db) {
        CollectView::Done(_) => {},
        CollectView::Read(addr) => {
            law_read_memory_ends(addr, t);
            match read_memory(addr, t) {
                RunView::Send(_) => {},
                RunView::Done(r, rest) => {
                    lemma_collect_over(rest, replies.push(word_or_none(r)), db);
                },
            }
        },
    }
}

/// Whatever the probe and the target answer, a query sends only allowed
/// commands, and no more than 177 of them.
pub proof fn law_query_is_harmless_and_ends(
    opened: Opened,
    windows: bool,
    t: Seq<Result<Seq<u8>, Seq<char>>>,
    db: Seq<ChipDefView>,
)
    ensures
        cmsisdap_query(opened, windows, t, db) matches QueryView::Send(c) ==> is_allowed(c)
            && t.len() < 177,
{
    lemma_bring_up(t);
    match bring_up(t) {
        RunView::Done(Ok((dpidr, multidrop)), rest) => {
            law_mem_ap_ends(rest);
            match mem_ap(rest) {
                RunView::Done(Ok(_), rest) => {
                    law_read_memory_ends(RP2040_SYSINFO_CHIP_ID, rest);
                    match read_memory(RP2040_SYSINFO_CHIP_ID, rest) {
                        RunView::Done(_, rest) => {
                            law_read_memory_ends(CPUID, rest);
                            match read_memory(CPUID, rest) {
                                RunView::Done(_, rest) => {
                                    law_read_memory_ends(RP2040_SYSINFO_GITREF, rest);
                                },
                                _ => {},
                            }
                        },
                        _ => {},
                    }
                    lemma_collect_over(rest, Seq::empty(), db);
                    match collect_over(rest, Seq::empty(), db) {
                        RunView::Done(_, rest) => {
                            law_read_memory_ends(CPUID, rest);
                        },
                        _ => {},
                    }
                },
                _ => {},
            }
        },
        _ => {},
    }
}

// ── What a query finds ──────────────────────────────────────────────────
/// The fields of CHIP_ID: the maker in the lowest twelve bits, the part in the next
/// sixteen, the revision in the highest four. The part is named where it is known, and
/// the first two revisions of the RP2040 by their steppings.
pub proof fn law_chip_id_fields(
    chip_id: u32,
    multidrop: bool,
    cpuid: Option<u32>,
    gitref: Option<u32>,
)
    ensures
        ({
            let r = rp2040_report(chip_id, multidrop, cpuid, gitref);
            let maker = chip_id % 0x1000;
            let part = chip_id / 0x1000 % 0x1_0000;
            let revision = chip_id / 0x1000_0000;
            let tail = " — Raspberry Pi (mfr 0x"@ + hex_upper(maker as nat, 3) + ", part 0x"@
                + hex_upper(part as nat, 4) + ")"@;
            &&& part != 2 ==> r.device_id == Some("Raspberry Pi silicon"@ + tail)
            &&& part == 2 && revision == 1 ==> r.device_id == Some("RP2040"@ + " (B0/B1)"@ + tail)
            &&& part == 2 && revision == 2 ==> r.device_id == Some("RP2040"@ + " (B2)"@ + tail)
            &&& part == 2 && revision != 1 && revision != 2 ==> r.device_id == Some(
                "RP2040"@ + tail,
            )
            &&& r.revision == Some("0x"@ + hex_upper(revision as nat, 1))
            &&& r.sram == Some("264 KB"@)
            &&& r.core is Some <==> cpuid is Some
            &&& cpuid matches Some(v) ==> r.core == Some(
                core_text(v) + " (dual-core; core 0 selected)"@,
            )
            &&& r.identification is Some <==> gitref is Some
            &&& gitref matches Some(v) ==> r.identification == Some(
                "bootrom GITREF 0x"@ + hex_upper(v as nat, 8) + ", CHIP_ID 0x"@ + hex_upper(
                    chip_id as nat,
                    8,
                ),
            )
            &&& multidrop ==> r.transport == Some(
                "SWD"@ + " multidrop"@ + " (native CMSIS-DAP, read-only)"@,
            )
            &&& !multidrop ==> r.transport == Some("SWD"@ + " (native CMSIS-DAP, read-only)"@)
            &&& r.unique_id is None && r.read_protection is None && r.probe is None && r.dp_idcode
                is None
        }),
{
    assert((chip_id >> 12) & 0xFFFF == chip_id / 0x1000 % 0x1_0000 && (chip_id >> 28) & 0xF
        == chip_id / 0x1000_0000 && chip_id & 0xFFF == chip_id % 0x1000) by (bit_vector);
    reveal_strlit("");
    let maker = chip_id % 0x1000;
    let part = chip_id / 0x1000 % 0x1_0000;
    let revision = chip_id / 0x1000_0000;
    let name = if part == 2 {
        "RP2040"@
    } else {
        "Raspberry Pi silicon"@
    };
    let step = stepping(part, revision)@;
    let a = " — Raspberry Pi (mfr 0x"@;
    let b = hex_upper(maker as nat, 3);
    let c = ", part 0x"@;
    let d = hex_upper(part as nat, 4);
    assert(name + step + a + b + c + d + ")"@ =~= name + step + (a + b + c + d + ")"@));
    assert(name + ""@ =~= name);
    assert("SWD"@ + ""@ =~= "SWD"@);
}

/// The probe is named by its product id, and its report has the identity of the device
/// and what its descriptors say.
pub proof fn law_cmsisdap_probe_is_named(vid: u16, pid: u16, d: Descriptors)
    ensures
        pid == 0x000c ==> probe_generation(pid)@
            == "Raspberry Pi Debug Probe (debugprobe firmware)"@,
        pid == 0x0004 ==> probe_generation(pid)@ == "picoprobe (Pico-as-probe firmware)"@,
        pid != 0x000c && pid != 0x0004 ==> probe_generation(pid)@ == "RP2040 CMSIS-DAP probe"@,
        ({
            let r = cmsisdap_report(vid, pid, Some(d));
            let bare = cmsisdap_report(vid, pid, None);
            &&& r.generation == Some(probe_generation(pid)@)
            &&& r.controller_mcu == Some("RP2040 (dual Arm Cortex-M0+)"@)
            &&& r.core == Some("2x Arm Cortex-M0+"@) && r.max_clock == Some("133 MHz"@)
            &&& r.sram == Some("264 KB"@)
            &&& r.usb_identity == Some(usb_id(vid, pid))
            &&& r.usb_product == shown(d.product) && r.usb_serial == shown(d.serial)
            &&& r.descriptor_access is Some && bare.descriptor_access is None
            &&& bare.usb_product is None && bare.usb_serial is None
            &&& bare.generation == r.generation && bare.usb_identity == r.usb_identity
            &&& r.flash_map is None && r.unique_id is None && r.debug_interface_driver is None
        }),
{
}

/// The registers are those that the collection asks for, each with the word that memory
/// gives at its address; one that cannot be read counts as missing.
pub proof fn law_words_of_memory_are_collected(
    t: Seq<Result<Seq<u8>, Seq<char>>>,
    replies: Seq<Option<u32>>,
    db: Seq<ChipDefView>,
    v: u32,
    why: Seq<char>,
    left: Seq<Result<Seq<u8>, Seq<char>>>,
)
    ensures
        collect(replies, db) matches CollectView::Done(c) ==> collect_over(t, replies, db)
            == RunView::Done(Ok(c), t),
        collect(replies, db) matches CollectView::Read(addr) ==> {
            &&& read_memory(addr, t) matches RunView::Send(c) ==> collect_over(t, replies, db)
                == RunView::<CollectedView>::Send(c)
            &&& read_memory(addr, t) == RunView::Done(Ok(v), left) ==> collect_over(t, replies, db)
                == collect_over(left, replies.push(Some(v)), db)
            &&& read_memory(addr, t) == RunView::<u32>::Done(Err(why), left) ==> collect_over(
                t,
                replies,
                db,
            ) == collect_over(left, replies.push(None), db)
        },
{
    if let CollectView::Read(addr) = collect(replies, db) {
        law_read_memory_ends(addr, t);
    }
}

/// An RP2040 is known by the word at 0x40000000, which must be there; the core at
/// 0xE000ED00 and the boot ROM at 0x40000014 are shown as far as they can be read.
pub proof fn law_rp2040_is_known_by_its_chip_id(
    t: Seq<Result<Seq<u8>, Seq<char>>>,
    r: ReportView,
    chip_id: u32,
    why: Seq<char>,
    left: Seq<Result<Seq<u8>, Seq<char>>>,
)
    ensures
        read_memory(0x4000_0000, t) == RunView::<u32>::Done(Err(why), left) ==> (rp2040_query(t, r)
            matches QueryView::Done(found) && found.layer2 == Some(
            "partial - DP/AP up but MEM read failed: "@ + why,
        ) && found.device_id == r.device_id && found.probe == r.probe),
        read_memory(0x4000_0000, t) == RunView::Done(Ok(chip_id), left) ==> {
            &&& read_memory(0xE000_ED00, left) matches RunView::Done(core, behind) ==> {
                &&& read_memory(0x4000_0014, behind) matches RunView::Done(rom, _) ==> {
                    &&& rp2040_query(t, r) matches QueryView::Done(found) && {
                        let rows = rp2040_report(
                            chip_id,
                            true,
                            if core is Ok {
                                Some(core->Ok_0)
                            } else {
                                None
                            },
                            if rom is Ok {
                                Some(rom->Ok_0)
                            } else {
                                None
                            },
                        );
                        found == (ReportView { probe: r.probe, dp_idcode: r.dp_idcode, ..rows })
                    }
                }
            }
        },
{
}

/// A port that answered is shown with its identity. A multidrop one is asked as an
/// RP2040, any other for its registers, once memory can be reached; where the port or
/// its memory does not answer, the report says so and names no device.
pub proof fn law_answered_port_is_shown(
    t: Seq<Result<Seq<u8>, Seq<char>>>,
    db: Seq<ChipDefView>,
    dpidr: u32,
    multidrop: bool,
    why: Seq<char>,
    left: Seq<Result<Seq<u8>, Seq<char>>>,
    behind: Seq<Result<Seq<u8>, Seq<char>>>,
)
    ensures
        ({
            let r = answered_report(dpidr, multidrop);
            &&& r.probe == Some("CMSIS-DAP v2 (native nusb)"@)
            &&& !multidrop ==> r.dp_idcode == Some("0x"@ + hex_upper(dpidr as nat, 8))
            &&& multidrop ==> r.dp_idcode == Some(
                "0x"@ + hex_upper(dpidr as nat, 8) + " (SWD multidrop)"@,
            )
            &&& r.device_id is None && r.layer2 is None
            &&& bring_up(t) == RunView::Done(Ok((dpidr, multidrop)), left) ==> {
                &&& mem_ap(left) == RunView::Done(Ok(()), behind) ==> ready_query(t, db) == if multidrop {
                    rp2040_query(behind, r)
                } else {
                    registers_query(behind, r, db)
                }
                &&& mem_ap(left) == RunView::<()>::Done(Err(why), behind) ==> (ready_query(t, db)
                    matches QueryView::Done(found) && found.layer2 == Some(
                    "partial - DP up but MEM-AP failed: "@ + why,
                ) && found.dp_idcode == r.dp_idcode && found.device_id is None)
            }
            &&& bring_up(t) == RunView::<(u32, bool)>::Done(Err(why), left) ==> (ready_query(t, db)
                matches QueryView::Done(found) && found.layer2 == Some(
                "none - SWD bring-up failed: "@ + why,
            ) && found.hint is Some && found.dp_idcode is None && found.device_id is None)
        }),
{
    reveal_strlit("");
    let d = "0x"@ + hex_upper(dpidr as nat, 8);
    assert(d + ""@ =~= d);
}

/// Registers that name a device give its rows, below what is known of the probe; where
/// they name none, one more read gives the reason.
pub proof fn law_registers_give_the_rows(
    t: Seq<Result<Seq<u8>, Seq<char>>>,
    r: ReportView,
    db: Seq<ChipDefView>,
    c: CollectedView,
    why: Seq<char>,
    left: Seq<Result<Seq<u8>, Seq<char>>>,
    behind: Seq<Result<Seq<u8>, Seq<char>>>,
)
    requires
        collect_over(t, Seq::empty(), db) == RunView::Done(Ok(c), left),
    ensures
        c.dev_id is Some && flash_fits(c.regs, c.dev_id, c.resolved) ==> registers_query(t, r, db)
            == QueryView::Done(
            (ReportView {
                probe: r.probe,
                dp_idcode: r.dp_idcode,
                ..target_rows(c.regs, c.dev_id, c.resolved)
            }),
        ),
        c.dev_id is Some && !flash_fits(c.regs, c.dev_id, c.resolved) ==> registers_query(t, r, db)
            is FlashMapOverflow,
        c.dev_id is None && read_memory(0xE000_ED00, left) == RunView::<u32>::Done(
            Err(why),
            behind,
        ) ==> (registers_query(t, r, db) matches QueryView::Done(found) && found.layer2 == Some(
            "target present but unreadable — Arm SW-DP answered, memory/AP access faulted ("@ + why
                + ")"@,
        ) && found.hint is Some && found.device_id == r.device_id && found.dp_idcode
            == r.dp_idcode),
{
}

/// A probe that is not there, or does not open, is skipped with the reason; on Windows
/// the remedy is named.
pub proof fn law_closed_probe_is_reported(
    e: String,
    windows: bool,
    t: Seq<Result<Seq<u8>, Seq<char>>>,
    db: Seq<ChipDefView>,
)
    ensures
        cmsisdap_query(Opened::NotFound, windows, t, db) matches QueryView::Done(r) && r.layer2
            == Some("SKIP - CMSIS-DAP USB device not found"@) && r.fix is None && r.device_id
            is None && r.probe is None,
        cmsisdap_query(Opened::Failed(e), windows, t, db) matches QueryView::Done(r) && r.layer2
            == Some("SKIP - cannot open CMSIS-DAP interface: "@ + e@) && r.fix is Some == windows
            && r.device_id is None && r.probe is None,
        cmsisdap_query(Opened::Ready, windows, t, db) == ready_query(t, db),
{
}

} // verus!
