//! Layer 2: the target behind an ST-Link, read natively over USB.
use vstd::prelude::*;
use vstd::string::*;
use crate::number::{hex_upper, push_hex_upper};
use crate::page::shown;
use crate::stm32::chipdb::{defs, ChipDef, ChipDefView};
use crate::stm32::decode::{blank_report, ReportView, TargetReport};
use crate::swd::cmsisdap::{heard, Reply, Run, RunView};
use crate::swd::cmsisdap_query::Opened;
use crate::swd::stlink::{
    ask_idcode, ask_version, ask_voltage, enter, enter_swd, get_version, get_version_cmd,
    get_voltage_cmd, get_voltage_mv, is_question, law_only_questions_are_asked, law_read_regs_ends,
    read_idcode, read_register, read_regs, stlink_read_regs, version_text, voltage, RegsRun,
    VersionRun,
};
use crate::swd::{
    collect, flash_fits, flash_map_fits, format_target_rows, target_rows, CollectView, Collected,
    CollectedView,
};
use crate::text::starts_with;

verus! {

/// What a query found out: the firmware of the probe and its sense of the target
/// voltage, and either the silence of the target or its registers.
#[derive(Debug)]
pub struct Findings {
    pub version: Option<String>,
    pub millivolts: Option<u32>,
    pub target: Target,
}

#[derive(Debug)]
pub enum Target {
    /// No target answered; the status of entering SWD, and a fresh sense of the
    /// target voltage.
    Silent { status: u8, millivolts: Option<u32> },
    /// A target answered with its DPIDR.
    Found { dpidr: u32, collected: Collected },
}

pub struct FindingsView {
    pub version: Option<Seq<char>>,
    pub millivolts: Option<u32>,
    pub target: TargetView,
}

pub enum TargetView {
    Silent { status: u8, millivolts: Option<u32> },
    Found { dpidr: u32, collected: CollectedView },
}

impl View for Target {
    type V = TargetView;

    open spec fn view(&self) -> TargetView {
        match *self {
            Target::Silent { status, millivolts } => TargetView::Silent { status, millivolts },
            Target::Found { dpidr, collected } => TargetView::Found { dpidr, collected: collected@ },
        }
    }
}

impl View for Findings {
    type V = FindingsView;

    open spec fn view(&self) -> FindingsView {
        FindingsView {
            version: shown(self.version),
            millivolts: self.millivolts,
            target: self.target@,
        }
    }
}

/// What comes next in a query.
#[derive(Debug)]
pub enum StlinkQuery {
    /// Send this command and ask again with its reply added.
    Send(Vec<u8>),
    /// The probe could not be opened, and this is the report.
    Closed(TargetReport),
    /// The conversation is over.
    Open(Findings),
}

pub enum StlinkQueryView {
    Send(Seq<u8>),
    Closed(ReportView),
    Open(FindingsView),
}

impl View for StlinkQuery {
    type V = StlinkQueryView;

    open spec fn view(&self) -> StlinkQueryView {
        match *self {
            StlinkQuery::Send(c) => StlinkQueryView::Send(c@),
            StlinkQuery::Closed(r) => StlinkQueryView::Closed(r@),
            StlinkQuery::Open(f) => StlinkQueryView::Open(f@),
        }
    }
}

/// From entering SWD on; a probe that refuses counts as status zero.
pub open spec fn target_conversation(
    version: Option<Seq<char>>,
    millivolts: Option<u32>,
    t: Seq<Result<Seq<u8>, Seq<char>>>,
    db: Seq<ChipDefView>,
) -> StlinkQueryView {
    match enter(t) {
        RunView::Send(c) => StlinkQueryView::Send(c),
        RunView::Done(s, rest) => {
            let status = match s {
                Ok(s) => s,
                Err(_) => 0u8,
            };
            match ask_idcode(rest) {
                RunView::Send(c) => StlinkQueryView::Send(c),
                RunView::Done(Err(_), rest) => match ask_voltage(rest) {
                    RunView::Send(c) => StlinkQueryView::Send(c),
                    RunView::Done(mv, _) => StlinkQueryView::Open(
                        FindingsView {
                            version,
                            millivolts,
                            target: TargetView::Silent {
                                status,
                                millivolts: match mv {
                                    Ok(v) => Some(v),
                                    Err(_) => None,
                                },
                            },
                        },
                    ),
                },
                RunView::Done(Ok(dpidr), rest) => match read_regs(rest, Seq::empty(), db) {
                    RunView::Send(c) => StlinkQueryView::Send(c),
                    RunView::Done(c, _) => StlinkQueryView::Open(
                        FindingsView {
                            version,
                            millivolts,
                            target: TargetView::Found { dpidr, collected: c->Ok_0 },
                        },
                    ),
                },
            }
        },
    }
}

/// The voltage is asked for only where the probe told its version.
pub open spec fn stlink_conversation(
    t: Seq<Result<Seq<u8>, Seq<char>>>,
    db: Seq<ChipDefView>,
) -> StlinkQueryView {
    match ask_version(t) {
        RunView::Send(c) => StlinkQueryView::Send(c),
        RunView::Done(Err(_), rest) => target_conversation(None, None, rest, db),
        RunView::Done(Ok(v), rest) => match ask_voltage(rest) {
            RunView::Send(c) => StlinkQueryView::Send(c),
            RunView::Done(Ok(mv), rest) => target_conversation(Some(v), Some(mv), rest, db),
            RunView::Done(Err(_), rest) => target_conversation(Some(v), None, rest, db),
        },
    }
}

/// The query, from the USB side on.
pub open spec fn stlink_query(
    opened: Opened,
    windows: bool,
    t: Seq<Result<Seq<u8>, Seq<char>>>,
    db: Seq<ChipDefView>,
) -> StlinkQueryView {
    match opened {
        Opened::NotFound => StlinkQueryView::Closed(
            ReportView {
                layer2: Some("SKIP - ST-Link USB device not found"@),
                ..blank_report()
            },
        ),
        Opened::Failed(e) => StlinkQueryView::Closed(
            ReportView {
                layer2: Some("SKIP - cannot open debug interface: "@ + e@),
                fix: if windows {
                    Some(
                        "bind WinUSB to MI_00: usbipd-rs --install-driver --confirm (Administrator)"@,
                    )
                } else {
                    None
                },
                ..blank_report()
            },
        ),
        Opened::Ready => stlink_conversation(t, db),
    }
}

/// The registers were collected from a target, so each holds a word.
pub open spec fn has_words(f: FindingsView) -> bool {
    f.target matches TargetView::Found { dpidr, collected } ==> forall|a: u32| #[trigger]
        collected.regs.contains_key(a) ==> collected.regs[a].len() > 0
}

fn target_conversation_of(
    version: Option<String>,
    millivolts: Option<u32>,
    t: &[Reply],
    db: &[ChipDef],
) -> (q: StlinkQuery)
    ensures
        q@ == target_conversation(shown(version), millivolts, heard(t@), defs(db@)),
        q@ matches StlinkQueryView::Open(f) ==> has_words(f),
{
    let (status, rest) = match enter_swd(t) {
        Run::Send(c) => {
            return StlinkQuery::Send(c);
        },
        Run::Done(Ok(s), rest) => (s, rest),
        Run::Done(Err(_), rest) => (0u8, rest),
    };
    let (dpidr, rest) = match read_idcode(rest) {
        Run::Send(c) => {
            return StlinkQuery::Send(c);
        },
        Run::Done(Err(_), rest) => {
            let sensed: Option<u32> = match get_voltage_mv(rest) {
                Run::Send(c) => {
                    return StlinkQuery::Send(c);
                },
                Run::Done(Ok(v), _) => Some(v),
                Run::Done(Err(_), _) => None,
            };
            return StlinkQuery::Open(
                Findings {
                    version,
                    millivolts,
                    target: Target::Silent { status, millivolts: sensed },
                },
            );
        },
        Run::Done(Ok(v), rest) => (v, rest),
    };
    match stlink_read_regs(rest, db) {
        RegsRun::Send(c) => StlinkQuery::Send(c),
        RegsRun::Done(collected, _) => StlinkQuery::Open(
            Findings { version, millivolts, target: Target::Found { dpidr, collected } },
        ),
    }
}

/// Layer-2 probe: read the downstream SWD target's identity natively (read-only,
/// no halt/reset). `t` holds the replies heard so far, and `windows` tells
/// whether a missing driver can be the reason for an interface that does not
/// open. Detects whether a target is present: with no SWD response only the
/// probe-level findings are there.
pub fn run_stlink_target_query(
    opened: &Opened,
    windows: bool,
    t: &[Reply],
    db: &[ChipDef],
) -> (q: StlinkQuery)
    ensures
        q@ == stlink_query(*opened, windows, heard(t@), defs(db@)),
        q@ matches StlinkQueryView::Open(f) ==> has_words(f),
{
    let mut report = TargetReport::default();
    match opened {
        Opened::NotFound => {
            report.layer2 = Some("SKIP - ST-Link USB device not found".to_string());
            return StlinkQuery::Closed(report);
        },
        Opened::Failed(e) => {
            let mut s = "SKIP - cannot open debug interface: ".to_string();
            s.append(e.as_str());
            report.layer2 = Some(s);
            if windows {
                report.fix = Some(
                    "bind WinUSB to MI_00: usbipd-rs --install-driver --confirm (Administrator)".to_string(),
                );
            }
            return StlinkQuery::Closed(report);
        },
        Opened::Ready => {},
    }
    match get_version(t) {
        VersionRun::Send(c) => StlinkQuery::Send(c),
        VersionRun::Done(Err(_), rest) => target_conversation_of(None, None, rest, db),
        VersionRun::Done(Ok(v), rest) => match get_voltage_mv(rest) {
            Run::Send(c) => StlinkQuery::Send(c),
            Run::Done(Ok(mv), rest) => target_conversation_of(Some(v), Some(mv), rest, db),
            Run::Done(Err(_), rest) => target_conversation_of(Some(v), None, rest, db),
        },
    }
}

/// Whatever the probe answers, a query sends only questions, and no more than
/// fourteen of them.
pub proof fn law_stlink_query_only_asks(
    opened: Opened,
    windows: bool,
    t: Seq<Result<Seq<u8>, Seq<char>>>,
    db: Seq<ChipDefView>,
)
    ensures
        stlink_query(opened, windows, t, db) matches StlinkQueryView::Send(c) ==> is_question(c)
            && t.len() < 14,
{
    law_only_questions_are_asked(0, t);
    match ask_version(t) {
        RunView::Done(v, rest) => {
            law_only_questions_are_asked(0, rest);
            lemma_target_conversation(None, None, rest, db);
            match ask_voltage(rest) {
                RunView::Done(mv, rest) => {
                    lemma_target_conversation(
                        Some(v->Ok_0),
                        match mv {
                            Ok(mv) => Some(mv),
                            Err(_) => None,
                        },
                        rest,
                        db,
                    );
                },
                _ => {},
            }
        },
        _ => {},
    }
}

proof fn lemma_target_conversation(
    version: Option<Seq<char>>,
    millivolts: Option<u32>,
    t: Seq<Result<Seq<u8>, Seq<char>>>,
    db: Seq<ChipDefView>,
)
    ensures
        target_conversation(version, millivolts, t, db) matches StlinkQueryView::Send(c)
            ==> is_question(c) && t.len() < 12,
{
    law_only_questions_are_asked(0, t);
    match enter(t) {
        RunView::Done(_, rest) => {
            law_only_questions_are_asked(0, rest);
            match ask_idcode(rest) {
                RunView::Done(_, rest) => {
                    law_only_questions_are_asked(0, rest);
                    law_read_regs_ends(rest, Seq::empty(), db);
                },
                _ => {},
            }
        },
        _ => {},
    }
}

// ── The report ──────────────────────────────────────────────────────────
pub const NO_TARGET_CHECKLIST: &'static str = ". Check: target is powered; ST-Link VTREF(3V3)/SWDIO/SWCLK/GND all wired; NRST not held low; using the SWD (not JTAG) header. On a Nucleo driven by an EXTERNAL ST-Link, remove the two CN2 (ST-LINK) jumpers to disconnect the on-board ST-Link, and power the board (USB or E5V).";

/// What to check when no target answers.
pub open spec fn no_target_hint(volts: Option<Seq<char>>) -> Seq<char> {
    "probe-sensed target voltage: "@ + (match volts {
        Some(v) => v + " V"@,
        None => "unreadable"@,
    }) + NO_TARGET_CHECKLIST@
}

/// Actionable checklist when SWD enters but no target answers (DPIDR fails).
/// `volts` is the probe's sense of the target voltage — an unreadable / 0 V
/// reading is a strong sign the target isn't powered or VTREF isn't wired.
pub fn swd_no_target_hint(volts: Option<&str>) -> (s: String)
    ensures
        s@ == no_target_hint(
            match volts {
                Some(v) => Some(v@),
                None => None,
            },
        ),
{
    let sensed = match volts {
        Some(v) => {
            let mut s = v.to_string();
            s.append(" V");
            s
        },
        None => "unreadable".to_string(),
    };
    let mut s = "probe-sensed target voltage: ".to_string();
    s.append(sensed.as_str());
    s.append(NO_TARGET_CHECKLIST);
    s
}

/// A voltage in volts, where it was sensed.
pub open spec fn sensed(millivolts: Option<u32>, volts: Seq<char>) -> Option<Seq<char>> {
    match millivolts {
        Some(_) => Some(volts),
        None => None,
    }
}

/// The report on what was found; none where the end of the flash cannot be
/// written. `volts` and `silent_volts` are the two voltages in volts.
pub open spec fn findings_report(
    f: FindingsView,
    volts: Seq<char>,
    silent_volts: Seq<char>,
) -> Option<ReportView> {
    let probe = match f.version {
        Some(v) => Some(
            v + (match f.millivolts {
                Some(_) => ", target "@ + volts + " V"@,
                None => ""@,
            }),
        ),
        None => None,
    };
    match f.target {
        TargetView::Silent { status, millivolts } => Some(
            ReportView {
                probe,
                layer2: Some(
                    "none - SWD target did not answer (enter-SWD status 0x"@ + hex_upper(
                        status as nat,
                        2,
                    ) + ")"@,
                ),
                hint: Some(no_target_hint(sensed(millivolts, silent_volts))),
                ..blank_report()
            },
        ),
        TargetView::Found { dpidr, collected } => if flash_fits(
            collected.regs,
            collected.dev_id,
            collected.resolved,
        ) {
            Some(
                ReportView {
                    probe,
                    dp_idcode: Some("0x"@ + hex_upper(dpidr as nat, 8)),
                    ..target_rows(collected.regs, collected.dev_id, collected.resolved)
                },
            )
        } else {
            None
        },
    }
}

/// The report on what a query found. The voltages are given in volts, with two
/// decimals, and used only where they were sensed.
pub fn stlink_target_report(f: Findings, volts: &str, silent_volts: &str) -> (r: Option<
    TargetReport,
>)
    requires
        has_words(f@),
    ensures
        match r {
            Some(report) => findings_report(f@, volts@, silent_volts@) == Some(report@),
            None => findings_report(f@, volts@, silent_volts@) is None,
        },
{
    let mut probe: Option<String> = None;
    if let Some(v) = f.version {
        let mut volt = String::new();
        if f.millivolts.is_some() {
            volt.append(", target ");
            volt.append(volts);
            volt.append(" V");
            assert(volt@ =~= ", target "@ + volts@ + " V"@);
        } else {
            volt.append("");
            assert(volt@ =~= ""@);
        }
        let mut s = v;
        s.append(volt.as_str());
        probe = Some(s);
    }
    match f.target {
        Target::Silent { status, millivolts } => {
            let mut report = TargetReport::default();
            let mut s = "none - SWD target did not answer (enter-SWD status 0x".to_string();
            push_hex_upper(&mut s, status as u64, 2);
            s.append(")");
            report.probe = probe;
            report.layer2 = Some(s);
            report.hint = Some(
                swd_no_target_hint(
                    if millivolts.is_some() {
                        Some(silent_volts)
                    } else {
                        None
                    },
                ),
            );
            Some(report)
        },
        Target::Found { dpidr, collected } => {
            if !flash_map_fits(&collected) {
                return None;
            }
            let mut report = format_target_rows(
                &collected.regs,
                collected.dev_id,
                collected.resolved.as_ref(),
            );
            let mut s = "0x".to_string();
            push_hex_upper(&mut s, dpidr as u64, 8);
            report.probe = probe;
            report.dp_idcode = Some(s);
            Some(report)
        },
    }
}

// ── What a query finds ──────────────────────────────────────────────────
/// A target that tells the identity of its debug port is found, with that identity and
/// with the registers that are read behind it; one that does not is silent, and the
/// voltage is sensed anew. A probe that refuses to enter SWD counts as status zero.
pub proof fn law_target_is_found_by_its_debug_port(
    version: Option<Seq<char>>,
    millivolts: Option<u32>,
    t: Seq<Result<Seq<u8>, Seq<char>>>,
    db: Seq<ChipDefView>,
)
    ensures
        target_conversation(version, millivolts, t, db) matches StlinkQueryView::Open(f) ==> {
            &&& f.version == version
            &&& f.millivolts == millivolts
            &&& enter(t) matches RunView::Done(status, after) && {
                &&& ask_idcode(after) matches RunView::Done(id, behind) && {
                    &&& id matches Ok(dpidr) ==> {
                        &&& f.target matches TargetView::Found { dpidr: d, collected } && {
                            &&& d == dpidr
                            &&& read_regs(behind, Seq::empty(), db) matches RunView::Done(c, _) && c
                                == Ok::<CollectedView, Seq<char>>(collected)
                        }
                    }
                    &&& id is Err ==> {
                        &&& f.target matches TargetView::Silent { status: s, millivolts: mv } && {
                            &&& status is Ok ==> s == status->Ok_0
                            &&& status is Err ==> s == 0
                            &&& ask_voltage(behind) matches RunView::Done(v, _) && (v is Ok ==> mv
                                == Some(v->Ok_0)) && (v is Err ==> mv is None)
                        }
                    }
                }
            }
        },
{
    if let RunView::Done(_, after) = enter(t) {
        if let RunView::Done(id, behind) = ask_idcode(after) {
            lemma_registers_never_fail(behind, Seq::empty(), db);
        }
    }
}

proof fn lemma_registers_never_fail(
    t: Seq<Result<Seq<u8>, Seq<char>>>,
    replies: Seq<Option<u32>>,
    db: Seq<ChipDefView>,
)
    ensures
        read_regs(t, replies, db) matches RunView::Done(c, _) ==> c is Ok,
    decreases t.len(),
{
    if let CollectView::Read(addr) = collect(replies, db) {
        if let RunView::Done(r, rest) = read_register(addr, t) {
            let word = match r {
                Ok(v) => Some(v),
                Err(_) => None,
            };
            lemma_registers_never_fail(rest, replies.push(word), db);
        }
    }
}

/// The version is asked for first and the voltage next, unless the probe did not tell
/// its version; what either says goes into the findings.
pub proof fn law_probe_is_asked_before_the_target(
    v: Seq<u8>,
    mv: Seq<u8>,
    why: Seq<char>,
    rest: Seq<Result<Seq<u8>, Seq<char>>>,
    db: Seq<ChipDefView>,
)
    requires
        v.len() >= 2,
    ensures
        stlink_conversation(Seq::empty(), db) == StlinkQueryView::Send(get_version_cmd()),
        stlink_conversation(seq![Ok(v)], db) == StlinkQueryView::Send(get_voltage_cmd()),
        stlink_conversation(seq![Ok(v), Ok(mv)] + rest, db) == target_conversation(
            Some(version_text(v)->Ok_0),
            match voltage(mv) {
                Ok(n) => Some(n),
                Err(_) => None,
            },
            rest,
            db,
        ),
        stlink_conversation(seq![Err(why)] + rest, db) == target_conversation(None, None, rest, db),
{
    let a = seq![Ok::<Seq<u8>, Seq<char>>(v)];
    let b = seq![Ok::<Seq<u8>, Seq<char>>(v), Ok(mv)] + rest;
    let c = seq![Err::<Seq<u8>, Seq<char>>(why)] + rest;
    assert(a[0] == Ok::<Seq<u8>, Seq<char>>(v) && a.skip(1).len() == 0);
    assert(b[0] == Ok::<Seq<u8>, Seq<char>>(v) && b.skip(1)[0] == b[1]);
    assert(b[1] == Ok::<Seq<u8>, Seq<char>>(mv));
    assert(b.skip(1).skip(1) =~= rest);
    assert(c[0] == Err::<Seq<u8>, Seq<char>>(why));
    assert(c.skip(1) =~= rest);
}

/// A probe that is not there, or does not open, is skipped with the reason; on Windows
/// the remedy is named.
pub proof fn law_closed_probe_is_skipped(
    e: String,
    windows: bool,
    t: Seq<Result<Seq<u8>, Seq<char>>>,
    db: Seq<ChipDefView>,
)
    ensures
        stlink_query(Opened::NotFound, windows, t, db) matches StlinkQueryView::Closed(r)
            && r.layer2 == Some("SKIP - ST-Link USB device not found"@) && r.fix is None
            && r.device_id is None && r.probe is None,
        stlink_query(Opened::Failed(e), windows, t, db) matches StlinkQueryView::Closed(r)
            && r.layer2 == Some("SKIP - cannot open debug interface: "@ + e@) && r.fix is Some
            == windows && r.device_id is None && r.probe is None,
        stlink_query(Opened::Ready, windows, t, db) == stlink_conversation(t, db),
{
}

/// The report names the probe by its version, with the voltage behind it where it was
/// sensed. A silent target is reported with its status and a hint; one that was found
/// with the identity of its debug port and the rows of its registers.
pub proof fn law_findings_are_reported(f: FindingsView, volts: Seq<char>, silent: Seq<char>)
    ensures
        findings_report(f, volts, silent) matches Some(r) ==> {
            &&& r.probe is Some <==> f.version is Some
            &&& f.version is Some && f.millivolts is None ==> r.probe == f.version
            &&& f.version is Some && f.millivolts is Some ==> r.probe == Some(
                f.version->0 + ", target "@ + volts + " V"@,
            )
            &&& f.target matches TargetView::Silent { status, millivolts } ==> {
                &&& r.layer2 == Some(
                    "none - SWD target did not answer (enter-SWD status 0x"@ + hex_upper(
                        status as nat,
                        2,
                    ) + ")"@,
                )
                &&& r.device_id is None
                &&& millivolts is None ==> (r.hint matches Some(h) && starts_with(
                    h,
                    "probe-sensed target voltage: "@ + "unreadable"@,
                ))
                &&& millivolts is Some ==> (r.hint matches Some(h) && starts_with(
                    h,
                    "probe-sensed target voltage: "@ + silent + " V"@,
                ))
            }
            &&& f.target matches TargetView::Found { dpidr, collected } ==> {
                let rows = target_rows(collected.regs, collected.dev_id, collected.resolved);
                &&& r.dp_idcode == Some("0x"@ + hex_upper(dpidr as nat, 8))
                &&& r == (ReportView { probe: r.probe, dp_idcode: r.dp_idcode, ..rows })
            }
        },
        f.target is Silent ==> findings_report(f, volts, silent) is Some,
{
    reveal_strlit("");
    if let Some(v) = f.version {
        assert(v + ""@ =~= v);
        assert(v + (", target "@ + volts + " V"@) =~= v + ", target "@ + volts + " V"@);
    }
    let a = "probe-sensed target voltage: "@ + "unreadable"@;
    let b = "probe-sensed target voltage: "@ + silent + " V"@;
    assert(no_target_hint(None).take(a.len() as int) =~= a);
    assert(no_target_hint(Some(silent)).take(b.len() as int) =~= b);
}

} // verus!
