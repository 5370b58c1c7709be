//! What the identity registers of a downstream target say, row by row.
use std::collections::HashMap;
use vstd::prelude::*;
use vstd::string::*;
use crate::number::{
    decimal, hex_upper, law_padded_numbers_are_as_wide_as_asked, law_written_number_reads_back,
    number, push_decimal, push_hex_upper, shortest,
};
use crate::page::{
    joined, lemma_with_row, push_line, push_row, push_text, row, shown, with_row,
};
use crate::stm32::{
    family, gd32_identify, gd32_name, gd32_part, is_undocumented, law_documented_revisions,
    stm_family, undocumented, Gd32Line, RdpKind, StmFamily, CPUID, DBGMCU_IDCODE,
};
use crate::text::{chars_of, has_prefix, starts_with, texts};

verus! {

// ── The report ──────────────────────────────────────────────────────────
/// What is known of a debug probe and of the target behind it; a row that could
/// not be read is missing.
#[derive(Debug)]
pub struct TargetReport {
    pub probe: Option<String>,
    pub dp_idcode: Option<String>,
    pub layer2: Option<String>,
    pub fix: Option<String>,
    pub hint: Option<String>,
    pub device_id: Option<String>,
    pub revision: Option<String>,
    pub vendor: Option<String>,
    pub core: Option<String>,
    pub architecture: Option<String>,
    pub max_clock: Option<String>,
    pub flash_size: Option<String>,
    pub flash_map: Option<String>,
    pub sram: Option<String>,
    pub unique_id: Option<String>,
    pub read_protection: Option<String>,
    pub identification: Option<String>,
    pub transport: Option<String>,
    pub access: Option<String>,
    pub source: Option<String>,
}

/// A target report with its strings as plain text.
#[verifier::ext_equal]
pub struct ReportView {
    pub probe: Option<Seq<char>>,
    pub dp_idcode: Option<Seq<char>>,
    pub layer2: Option<Seq<char>>,
    pub fix: Option<Seq<char>>,
    pub hint: Option<Seq<char>>,
    pub device_id: Option<Seq<char>>,
    pub revision: Option<Seq<char>>,
    pub vendor: Option<Seq<char>>,
    pub core: Option<Seq<char>>,
    pub architecture: Option<Seq<char>>,
    pub max_clock: Option<Seq<char>>,
    pub flash_size: Option<Seq<char>>,
    pub flash_map: Option<Seq<char>>,
    pub sram: Option<Seq<char>>,
    pub unique_id: Option<Seq<char>>,
    pub read_protection: Option<Seq<char>>,
    pub identification: Option<Seq<char>>,
    pub transport: Option<Seq<char>>,
    pub access: Option<Seq<char>>,
    pub source: Option<Seq<char>>,
}

impl View for TargetReport {
    type V = ReportView;

    open spec fn view(&self) -> ReportView {
        ReportView {
            probe: shown(self.probe),
            dp_idcode: shown(self.dp_idcode),
            layer2: shown(self.layer2),
            fix: shown(self.fix),
            hint: shown(self.hint),
            device_id: shown(self.device_id),
            revision: shown(self.revision),
            vendor: shown(self.vendor),
            core: shown(self.core),
            architecture: shown(self.architecture),
            max_clock: shown(self.max_clock),
            flash_size: shown(self.flash_size),
            flash_map: shown(self.flash_map),
            sram: shown(self.sram),
            unique_id: shown(self.unique_id),
            read_protection: shown(self.read_protection),
            identification: shown(self.identification),
            transport: shown(self.transport),
            access: shown(self.access),
            source: shown(self.source),
        }
    }
}

/// The report without a row.
pub open spec fn blank_report() -> ReportView {
    ReportView {
        probe: None,
        dp_idcode: None,
        layer2: None,
        fix: None,
        hint: None,
        device_id: None,
        revision: None,
        vendor: None,
        core: None,
        architecture: None,
        max_clock: None,
        flash_size: None,
        flash_map: None,
        sram: None,
        unique_id: None,
        read_protection: None,
        identification: None,
        transport: None,
        access: None,
        source: None,
    }
}

impl Default for TargetReport {
    fn default() -> (r: TargetReport)
        ensures
            r@ == blank_report(),
    {
        TargetReport {
            probe: None,
            dp_idcode: None,
            layer2: None,
            fix: None,
            hint: None,
            device_id: None,
            revision: None,
            vendor: None,
            core: None,
            architecture: None,
            max_clock: None,
            flash_size: None,
            flash_map: None,
            sram: None,
            unique_id: None,
            read_protection: None,
            identification: None,
            transport: None,
            access: None,
            source: None,
        }
    }
}

impl TargetReport {
    /// Whether there is no row to show.
    pub fn is_empty(&self) -> (r: bool)
        ensures
            r == (self@ == blank_report()),
    {
        self.probe.is_none() && self.dp_idcode.is_none() && self.layer2.is_none()
            && self.fix.is_none() && self.hint.is_none() && self.device_id.is_none()
            && self.revision.is_none() && self.vendor.is_none() && self.core.is_none()
            && self.architecture.is_none() && self.max_clock.is_none() && self.flash_size.is_none()
            && self.flash_map.is_none() && self.sram.is_none() && self.unique_id.is_none()
            && self.read_protection.is_none() && self.identification.is_none()
            && self.transport.is_none() && self.access.is_none() && self.source.is_none()
    }
}

// ── Registers ───────────────────────────────────────────────────────────
/// What was read of the target: the words found at each address.
pub open spec fn words_at(regs: Map<u32, Vec<u32>>) -> Map<u32, Seq<u32>> {
    regs.map_values(|v: Vec<u32>| v@)
}

/// The first word read at an address.
pub open spec fn first(regs: Map<u32, Seq<u32>>, addr: u32) -> Option<u32> {
    if regs.contains_key(addr) && regs[addr].len() > 0 {
        Some(regs[addr][0])
    } else {
        None
    }
}

pub(crate) fn first_word(regs: &HashMap<u32, Vec<u32>>, addr: u32) -> (r: Option<u32>)
    ensures
        r == first(words_at(regs@), addr),
{
    broadcast use vstd::std_specs::hash::group_hash_axioms;

    match regs.get(&addr) {
        Some(words) => if words.len() > 0 {
            Some(words[0])
        } else {
            None
        },
        None => None,
    }
}

// ── Single registers ────────────────────────────────────────────────────
pub open spec fn core_name(partno: u32) -> &'static str {
    match partno {
        0xC20 => "Cortex-M0",
        0xC60 => "Cortex-M0+",
        0xC21 => "Cortex-M1",
        0xC23 => "Cortex-M3",
        0xC24 => "Cortex-M4",
        0xC27 => "Cortex-M7",
        0xD20 => "Cortex-M23",
        0xD21 => "Cortex-M33",
        _ => "Cortex-M (unknown)",
    }
}

/// The core that a `CPUID` names, with its revision and the register itself.
pub open spec fn core_text(cpuid: u32) -> Seq<char> {
    core_name((cpuid >> 4) & 0xFFF)@ + " r"@ + decimal(((cpuid >> 20) & 0xF) as nat) + "p"@
        + decimal((cpuid & 0xF) as nat) + " (CPUID 0x"@ + hex_upper(cpuid as nat, 8) + ")"@
}

/// Decode an Arm Cortex-M `CPUID` (0xE000ED00) into a "core rNpM (CPUID …)"
/// string. Used by both the pyocd-backed and native SWD paths.
pub fn cortex_core(cpuid: u32) -> (s: String)
    ensures
        s@ == core_text(cpuid),
{
    let partno: u32 = (cpuid >> 4) & 0xFFF;
    let variant: u32 = (cpuid >> 20) & 0xF;
    let revision: u32 = cpuid & 0xF;
    let core = match partno {
        0xC20 => "Cortex-M0",
        0xC60 => "Cortex-M0+",
        0xC21 => "Cortex-M1",
        0xC23 => "Cortex-M3",
        0xC24 => "Cortex-M4",
        0xC27 => "Cortex-M7",
        0xD20 => "Cortex-M23",
        0xD21 => "Cortex-M33",
        _ => "Cortex-M (unknown)",
    };
    let mut s = core.to_string();
    s.append(" r");
    push_decimal(&mut s, variant as u64);
    s.append("p");
    push_decimal(&mut s, revision as u64);
    s.append(" (CPUID 0x");
    push_hex_upper(&mut s, cpuid as u64, 8);
    s.append(")");
    s
}

/// What a read-protection register says.
pub open spec fn rdp_text(opt: u32, kind: RdpKind) -> Seq<char> {
    match kind {
        RdpKind::Obr => (if (opt >> 1) & 1 == 1 {
            "Enabled — flash read-protected (RDP active)"@
        } else {
            "Disabled — flash readable (RDP Level 0)"@
        }) + (if opt & 1 == 1 {
            ", OPTERR set"@
        } else {
            ""@
        }),
        RdpKind::OptByte => {
            let rdp = (opt >> 8) & 0xFF;
            if rdp == 0xAA {
                "Disabled — flash readable (RDP Level 0)"@
            } else if rdp == 0xCC {
                "Enabled — RDP Level 2 (permanent, debug locked)"@
            } else {
                "Enabled — RDP Level 1 (RDP byte 0x"@ + hex_upper(rdp as nat, 2) + ")"@
            }
        },
    }
}

/// Decode a flash read-protection register value into a human description.
pub fn decode_rdp(opt: u32, kind: RdpKind) -> (s: String)
    ensures
        s@ == rdp_text(opt, kind),
{
    match kind {
        RdpKind::Obr => {
            let mut s = if (opt >> 1) & 1 == 1 {
                "Enabled — flash read-protected (RDP active)".to_string()
            } else {
                "Disabled — flash readable (RDP Level 0)".to_string()
            };
            if opt & 1 == 1 {
                s.append(", OPTERR set");
            } else {
                s.append("");
            }
            s
        },
        RdpKind::OptByte => {
            let rdp: u32 = (opt >> 8) & 0xFF;
            match rdp {
                0xAA => "Disabled — flash readable (RDP Level 0)".to_string(),
                0xCC => "Enabled — RDP Level 2 (permanent, debug locked)".to_string(),
                _ => {
                    let mut s = "Enabled — RDP Level 1 (RDP byte 0x".to_string();
                    push_hex_upper(&mut s, rdp as u64, 2);
                    s.append(")");
                    s
                },
            }
        },
    }
}

/// `0x` and the number in at least `width` hex digits, then ` — ` and a name.
pub open spec fn named_id(id: nat, width: nat, name: Seq<char>) -> Seq<char> {
    "0x"@ + hex_upper(id, width) + " — "@ + name
}

pub(crate) fn named_id_of(id: u16, name: &str) -> (s: String)
    ensures
        s@ == named_id(id as nat, 3, name@),
{
    let mut s = "0x".to_string();
    push_hex_upper(&mut s, id as u64, 3);
    s.append(" — ");
    s.append(name);
    s
}

pub open spec fn kb_text(kb: nat) -> Seq<char> {
    decimal(kb) + " KB"@
}

pub(crate) fn kb_of(kb: u32) -> (s: String)
    ensures
        s@ == kb_text(kb as nat),
{
    let mut s = String::new();
    push_decimal(&mut s, kb as u64);
    s.append(" KB");
    s
}

/// The addresses that `kb` kilobytes of flash fill.
pub open spec fn flash_map_text(kb: nat) -> Seq<char> {
    "0x08000000-0x"@ + hex_upper((0x0800_0000 + kb * 1024 - 1) as nat, 8)
}

pub(crate) fn flash_map_of(kb: u32) -> (s: String)
    requires
        0x0800_0000 + kb * 1024 <= u32::MAX,
    ensures
        s@ == flash_map_text(kb as nat),
{
    let end: u32 = 0x0800_0000u32 + kb * 1024 - 1;
    let mut s = "0x08000000-0x".to_string();
    push_hex_upper(&mut s, end as u64, 8);
    s
}

// ── All registers ───────────────────────────────────────────────────────
pub open spec fn dev_id_of(idcode: u32) -> u16 {
    (idcode & 0xFFF) as u16
}

pub open spec fn rev_id_of(idcode: u32) -> u16 {
    ((idcode >> 16) & 0xFFFF) as u16
}

/// The family of the device that was recognised, if any was.
pub open spec fn family_of(dev_id: Option<u16>) -> Option<StmFamily> {
    match dev_id {
        Some(d) => family(d),
        None => None,
    }
}

/// The size of the flash where the register was read and is programmed.
pub open spec fn flash_kb(regs: Map<u32, Seq<u32>>, fam: Option<StmFamily>) -> Option<u32> {
    match fam {
        Some(f) => match first(regs, f.flash_size_addr) {
            Some(w) => if (w & 0xFFFF) != 0 && (w & 0xFFFF) != 0xFFFF {
                Some(w & 0xFFFF)
            } else {
                None
            },
            None => None,
        },
        None => None,
    }
}

/// ST's letter for a revision of the medium-density F1 line.
pub open spec fn rev_letter(dev_id: u16, rev_id: u16) -> &'static str {
    if dev_id != 0x410 {
        ""
    } else if rev_id == 0x0000 {
        " (rev A)"
    } else if rev_id == 0x2000 {
        " (rev B)"
    } else if rev_id == 0x2001 {
        " (rev Z)"
    } else if rev_id == 0x2003 {
        " (rev 1/2/3/X/Y)"
    } else {
        ""
    }
}

pub open spec fn device_id_text(did: u16, fam: Option<StmFamily>, gd32: Option<Gd32Line>, kb: Option<u32>) -> Seq<char> {
    named_id(
        did as nat,
        3,
        match gd32 {
            Some(line) => gd32_name(line, kb),
            None => match fam {
                Some(f) => f.name@,
                None => "unknown (unrecognized STM32 DEV_ID)"@,
            },
        },
    )
}

pub open spec fn gd32_clock_text(line: Gd32Line) -> Seq<char> {
    decimal(line.max_mhz as nat) + " MHz (GigaDevice GD32; ST's F103 tops out at 72 MHz)"@
}

pub open spec fn gd32_vendor_text(did: u16, rev: u16) -> Seq<char> {
    "GigaDevice GD32 — pin-compatible with ST's STM32F103 but NOT genuine ST silicon. DEV_ID 0x"@
        + hex_upper(did as nat, 3) + " mirrors ST; REV_ID 0x"@ + hex_upper(rev as nat, 4)
        + " (outside ST's set) confirms GD32. Package/pin (C=48 R=64 V=100 Z=144) + temp grade are not SWD-readable."@
}

pub open spec fn clone_vendor_text(did: u16, rev: u16) -> Seq<char> {
    "likely an STM32-compatible clone (GigaDevice GD32 / CKS / APM32 / MindMotion) — REV_ID 0x"@
        + hex_upper(rev as nat, 4) + " is not a documented ST revision for DEV_ID 0x"@ + hex_upper(
        did as nat,
        3,
    )
}

/// The 96-bit unique ID, most significant word first; a blank one is none.
pub open spec fn unique_id_text(words: Seq<u32>) -> Option<Seq<char>> {
    if words.len() >= 3 && !(words[0] == 0xFFFFFFFF && words[1] == 0xFFFFFFFF && words[2]
        == 0xFFFFFFFF) {
        Some(
            hex_upper(words[2] as nat, 8) + " "@ + hex_upper(words[1] as nat, 8) + " "@ + hex_upper(
                words[0] as nat,
                8,
            ),
        )
    } else {
        None
    }
}

/// Every row that the registers of a target give.
pub open spec fn decoded(regs: Map<u32, Seq<u32>>, dev_id: Option<u16>) -> ReportView {
    let fam = family_of(dev_id);
    let kb = flash_kb(regs, fam);
    let idcode = first(regs, DBGMCU_IDCODE);
    let did = dev_id_of(idcode->0);
    let rev = rev_id_of(idcode->0);
    let gd32 = if idcode is Some {
        gd32_part(did, rev)
    } else {
        None
    };
    let f446 = dev_id == Some(0x421u16);
    ReportView {
        device_id: match idcode {
            Some(_) => Some(device_id_text(did, fam, gd32, kb)),
            None => None,
        },
        revision: match idcode {
            Some(_) => Some(
                "0x"@ + hex_upper(rev as nat, 4) + (if gd32 is None {
                    rev_letter(did, rev)@
                } else {
                    ""@
                }),
            ),
            None => None,
        },
        vendor: if gd32 is Some {
            Some(gd32_vendor_text(did, rev))
        } else if idcode is Some && is_undocumented(did, rev) {
            Some(clone_vendor_text(did, rev))
        } else {
            None
        },
        core: match first(regs, CPUID) {
            Some(cpuid) => Some(core_text(cpuid)),
            None => None,
        },
        architecture: if f446 {
            Some("Armv7E-M, Thumb-2, DSP, single-precision FPU"@)
        } else {
            None
        },
        max_clock: match gd32 {
            Some(line) => Some(gd32_clock_text(line)),
            None => if f446 {
                Some("180 MHz"@)
            } else {
                None
            },
        },
        flash_size: match kb {
            Some(kb) => Some(kb_text(kb as nat)),
            None => None,
        },
        flash_map: match kb {
            Some(kb) => Some(flash_map_text(kb as nat)),
            None => None,
        },
        sram: if f446 {
            Some("128 KB"@)
        } else {
            None
        },
        unique_id: match fam {
            Some(f) => if regs.contains_key(f.uid_addr) {
                unique_id_text(regs[f.uid_addr])
            } else {
                None
            },
            None => None,
        },
        read_protection: match fam {
            Some(f) => match first(regs, f.rdp_addr) {
                Some(opt) => Some(rdp_text(opt, f.rdp_kind)),
                None => None,
            },
            None => None,
        },
        identification: if f446 {
            Some(
                "DBGMCU DEV_ID identifies STM32F446 family; package suffix not readable over SWD"@,
            )
        } else {
            None
        },
        transport: Some("SWD at 100 kHz"@),
        access: Some("Read-only identity registers"@),
        ..blank_report()
    }
}

/// A register that was read at all has a word to show.
pub open spec fn flash_word_present(regs: Map<u32, Seq<u32>>, dev_id: Option<u16>) -> bool {
    match family_of(dev_id) {
        Some(f) => regs.contains_key(f.flash_size_addr) ==> regs[f.flash_size_addr].len() > 0,
        None => true,
    }
}

fn flash_kb_of(regs: &HashMap<u32, Vec<u32>>, fam: Option<StmFamily>) -> (r: Option<u32>)
    ensures
        r == flash_kb(words_at(regs@), fam),
        r matches Some(kb) ==> 0 < kb < 0xFFFF,
{
    let fam = match fam {
        Some(f) => f,
        None => {
            return None;
        },
    };
    match first_word(regs, fam.flash_size_addr) {
        Some(w) => {
            let kb: u32 = w & 0xFFFF;
            assert(kb <= 0xFFFF) by (bit_vector)
                requires
                    kb == w & 0xFFFF,
            ;
            if kb != 0 && kb != 0xFFFF {
                Some(kb)
            } else {
                None
            }
        },
        None => None,
    }
}

fn rev_letter_of(did: u16, rev: u16) -> (r: &'static str)
    ensures
        r == rev_letter(did, rev),
{
    if did != 0x410 {
        return "";
    }
    match rev {
        0x0000 => " (rev A)",
        0x2000 => " (rev B)",
        0x2001 => " (rev Z)",
        0x2003 => " (rev 1/2/3/X/Y)",
        _ => "",
    }
}

fn unique_id_of(regs: &HashMap<u32, Vec<u32>>, addr: u32) -> (r: Option<String>)
    ensures
        shown(r) == (if words_at(regs@).contains_key(addr) {
            unique_id_text(words_at(regs@)[addr])
        } else {
            None
        }),
{
    broadcast use vstd::std_specs::hash::group_hash_axioms;

    match regs.get(&addr) {
        None => None,
        Some(w) => {
            if w.len() < 3 || (w[0] == 0xFFFFFFFF && w[1] == 0xFFFFFFFF && w[2] == 0xFFFFFFFF) {
                return None;
            }
            let mut s = String::new();
            push_hex_upper(&mut s, w[2] as u64, 8);
            s.append(" ");
            push_hex_upper(&mut s, w[1] as u64, 8);
            s.append(" ");
            push_hex_upper(&mut s, w[0] as u64, 8);
            Some(s)
        },
    }
}

/// Decode the identity registers into report rows. Flash size, UID and read
/// protection are only there once the family is known.
pub fn decode_stlink_regs(regs: &HashMap<u32, Vec<u32>>, dev_id: Option<u16>) -> (r: TargetReport)
    requires
        flash_word_present(words_at(regs@), dev_id),
    ensures
        r@ == decoded(words_at(regs@), dev_id),
{
    let mut report = TargetReport::default();
    let fam = match dev_id {
        Some(d) => stm_family(d),
        None => None,
    };
    let kb: Option<u32> = flash_kb_of(regs, fam);

    // ── Core (CPUID is universal across ARMv6-M/ARMv7-M) ──
    if let Some(cpuid) = first_word(regs, CPUID) {
        report.core = Some(cortex_core(cpuid));
    }
    if dev_id.is_some() && dev_id.unwrap() == 0x421 {
        report.architecture = Some("Armv7E-M, Thumb-2, DSP, single-precision FPU".to_string());
        report.max_clock = Some("180 MHz".to_string());
        report.sram = Some("128 KB".to_string());
        report.identification = Some(
            "DBGMCU DEV_ID identifies STM32F446 family; package suffix not readable over SWD".to_string(),
        );
    }
    report.access = Some("Read-only identity registers".to_string());
    report.transport = Some("SWD at 100 kHz".to_string());

    // ── Device ID + revision ──
    if let Some(idcode) = first_word(regs, DBGMCU_IDCODE) {
        let did: u16 = (idcode & 0xFFF) as u16;
        let rev: u16 = ((idcode >> 16) & 0xFFFF) as u16;
        // GigaDevice GD32 mirrors ST's DEV_ID; when the REV_ID proves it's a
        // clone the GD32 model leads, not the ST family name.
        let gd32 = gd32_identify(did, rev, kb);
        let mut revision = "0x".to_string();
        push_hex_upper(&mut revision, rev as u64, 4);
        match gd32 {
            Some((name, _, max_mhz)) => {
                report.device_id = Some(named_id_of(did, name.as_str()));
                let mut clock = String::new();
                push_decimal(&mut clock, max_mhz as u64);
                clock.append(" MHz (GigaDevice GD32; ST's F103 tops out at 72 MHz)");
                report.max_clock = Some(clock);
                revision.append("");
                let mut vendor =
                    "GigaDevice GD32 — pin-compatible with ST's STM32F103 but NOT genuine ST silicon. DEV_ID 0x".to_string();
                push_hex_upper(&mut vendor, did as u64, 3);
                vendor.append(" mirrors ST; REV_ID 0x");
                push_hex_upper(&mut vendor, rev as u64, 4);
                vendor.append(
                    " (outside ST's set) confirms GD32. Package/pin (C=48 R=64 V=100 Z=144) + temp grade are not SWD-readable.",
                );
                report.vendor = Some(vendor);
            },
            None => {
                let name = match fam {
                    Some(f) => f.name,
                    None => "unknown (unrecognized STM32 DEV_ID)",
                };
                report.device_id = Some(named_id_of(did, name));
                revision.append(rev_letter_of(did, rev));
                if undocumented(did, rev) {
                    let mut vendor =
                        "likely an STM32-compatible clone (GigaDevice GD32 / CKS / APM32 / MindMotion) — REV_ID 0x".to_string();
                    push_hex_upper(&mut vendor, rev as u64, 4);
                    vendor.append(" is not a documented ST revision for DEV_ID 0x");
                    push_hex_upper(&mut vendor, did as u64, 3);
                    report.vendor = Some(vendor);
                }
            },
        }
        report.revision = Some(revision);
    }

    // ── Flash size / UID / RDP ──
    if let Some(kb) = kb {
        report.flash_size = Some(kb_of(kb));
        report.flash_map = Some(flash_map_of(kb));
    }
    if let Some(f) = fam {
        report.unique_id = unique_id_of(regs, f.uid_addr);
        if let Some(opt) = first_word(regs, f.rdp_addr) {
            report.read_protection = Some(decode_rdp(opt, f.rdp_kind));
        }
    }
    report
}

// ── The page ────────────────────────────────────────────────────────────
/// The page with the identity rows that the report holds, in their order.
pub open spec fn identity_rows(
    page: Seq<Seq<char>>,
    indent: Seq<char>,
    width: nat,
    r: ReportView,
) -> Seq<Seq<char>> {
    let p = page;
    let p = with_row(p, indent, "Device ID"@, width, r.device_id);
    let p = with_row(p, indent, "Revision"@, width, r.revision);
    let p = with_row(p, indent, "Vendor"@, width, r.vendor);
    let p = with_row(p, indent, "Core"@, width, r.core);
    let p = with_row(p, indent, "Architecture"@, width, r.architecture);
    let p = with_row(p, indent, "Max clock"@, width, r.max_clock);
    let p = with_row(p, indent, "Flash size"@, width, r.flash_size);
    let p = with_row(p, indent, "Flash map"@, width, r.flash_map);
    let p = with_row(p, indent, "SRAM"@, width, r.sram);
    let p = with_row(p, indent, "Unique ID"@, width, r.unique_id);
    let p = with_row(p, indent, "Read protection"@, width, r.read_protection);
    let p = with_row(p, indent, "Identification"@, width, r.identification);
    let p = with_row(p, indent, "Transport"@, width, r.transport);
    let p = with_row(p, indent, "Access"@, width, r.access);
    let p = with_row(p, indent, "Source"@, width, r.source);
    p
}

pub(crate) fn push_identity_rows(page: &mut Vec<String>, indent: &str, width: usize, report: &TargetReport)
    ensures
        texts(final(page)@) == identity_rows(texts(old(page)@), indent@, width as nat, report@),
{
    push_row(page, indent, "Device ID", width, &report.device_id);
    push_row(page, indent, "Revision", width, &report.revision);
    push_row(page, indent, "Vendor", width, &report.vendor);
    push_row(page, indent, "Core", width, &report.core);
    push_row(page, indent, "Architecture", width, &report.architecture);
    push_row(page, indent, "Max clock", width, &report.max_clock);
    push_row(page, indent, "Flash size", width, &report.flash_size);
    push_row(page, indent, "Flash map", width, &report.flash_map);
    push_row(page, indent, "SRAM", width, &report.sram);
    push_row(page, indent, "Unique ID", width, &report.unique_id);
    push_row(page, indent, "Read protection", width, &report.read_protection);
    push_row(page, indent, "Identification", width, &report.identification);
    push_row(page, indent, "Transport", width, &report.transport);
    push_row(page, indent, "Access", width, &report.access);
    push_row(page, indent, "Source", width, &report.source);
}

/// The page for a target: what the probe is, and below it either why no target
/// answered or the identity of the one that did.
pub open spec fn target_page(r: ReportView, board: Seq<char>) -> Seq<Seq<char>> {
    let p = with_row(Seq::empty(), "  "@, "Probe"@, 16, r.probe);
    let p = with_row(p, "  "@, "DP IDCODE"@, 16, r.dp_idcode);
    if r.device_id is None {
        let p = p.push(
            match r.layer2 {
                Some(state) => "  Layer 2:         "@ + state,
                None => "  Layer 2:         none - no SWD/JTAG target detected"@,
            },
        );
        let p = match r.fix {
            Some(fix) => p.push("  Fix:             "@ + fix),
            None => p,
        };
        match r.hint {
            Some(hint) => p.push("  Hint:            "@ + hint),
            None => p,
        }
    } else {
        let p = p.push(
            "  Layer 2 - downstream SWD target (read-only) via "@ + board + ":"@,
        );
        identity_rows(p, "    "@, 16, r)
    }
}

/// The lines that show a target report.
pub fn print_stlink_target_info(report: &TargetReport, board: &str) -> (page: Vec<String>)
    ensures
        texts(page@) == target_page(report@, board@),
{
    let mut page: Vec<String> = Vec::new();
    assert(texts(page@) =~= Seq::empty());
    // Probe-level keys (always present once the debug interface opens).
    push_row(&mut page, "  ", "Probe", 16, &report.probe);
    push_row(&mut page, "  ", "DP IDCODE", 16, &report.dp_idcode);
    // No downstream target: one-layer result. Show the reason and stop.
    if report.device_id.is_none() {
        match &report.layer2 {
            Some(state) => push_line(&mut page, joined("  Layer 2:         ", state.as_str())),
            None => push_text(&mut page, "  Layer 2:         none - no SWD/JTAG target detected"),
        }
        if let Some(fix) = &report.fix {
            push_line(&mut page, joined("  Fix:             ", fix.as_str()));
        }
        if let Some(hint) = &report.hint {
            push_line(&mut page, joined("  Hint:            ", hint.as_str()));
        }
        return page;
    }
    // Two-layer result: a target answered. Show its read-only identity.
    let mut title = "  Layer 2 - downstream SWD target (read-only) via ".to_string();
    title.append(board);
    title.append(":");
    push_line(&mut page, title);
    push_identity_rows(&mut page, "    ", 16, report);
    page
}

// ── micro:bit boards ────────────────────────────────────────────────────
/// The board revision that the first four digits of a DAPLink unique ID name,
/// and the target on it.
pub open spec fn microbit(unique_id: Seq<char>) -> Option<(Seq<char>, Seq<char>)> {
    let nrf51 = "nRF51822 — Cortex-M0, 16 KB SRAM, 256 KB flash, 16 MHz, BLE 4.0"@;
    let nrf52 = "nRF52833 — Cortex-M4F, 128 KB SRAM, 512 KB flash, BLE 5.x"@;
    if starts_with(unique_id, "9900"@) {
        Some(("BBC micro:bit V1.3"@, nrf51))
    } else if starts_with(unique_id, "9901"@) {
        Some(("BBC micro:bit V1.5"@, nrf51))
    } else if starts_with(unique_id, "9903"@) {
        Some(("BBC micro:bit V2.0"@, nrf52))
    } else if starts_with(unique_id, "9904"@) {
        Some(("BBC micro:bit V2.21"@, nrf52))
    } else if starts_with(unique_id, "9905"@) {
        Some(("BBC micro:bit V2.21 (later)"@, nrf52))
    } else if starts_with(unique_id, "9906"@) {
        Some(("BBC micro:bit V2.x"@, nrf52))
    } else {
        None
    }
}

/// First 4 hex digits of the Unique ID identify the board hardware revision
/// (this prefix is assigned by Microbit Foundation / DAPLink board database).
pub fn microbit_identify(unique_id: &str) -> (r: Option<(&'static str, &'static str)>)
    ensures
        match r {
            Some((board, target)) => microbit(unique_id@) == Some((board@, target@)),
            None => microbit(unique_id@) is None,
        },
{
    let id = chars_of(unique_id);
    let id = id.as_slice();
    let nrf51 = "nRF51822 — Cortex-M0, 16 KB SRAM, 256 KB flash, 16 MHz, BLE 4.0";
    let nrf52 = "nRF52833 — Cortex-M4F, 128 KB SRAM, 512 KB flash, BLE 5.x";
    if has_prefix(id, "9900") {
        Some(("BBC micro:bit V1.3", nrf51))
    } else if has_prefix(id, "9901") {
        Some(("BBC micro:bit V1.5", nrf51))
    } else if has_prefix(id, "9903") {
        Some(("BBC micro:bit V2.0", nrf52))
    } else if has_prefix(id, "9904") {
        Some(("BBC micro:bit V2.21", nrf52))
    } else if has_prefix(id, "9905") {
        Some(("BBC micro:bit V2.21 (later)", nrf52))
    } else if has_prefix(id, "9906") {
        Some(("BBC micro:bit V2.x", nrf52))
    } else {
        None
    }
}

// ── What the rows say of the registers ──────────────────────────────────
/// An OPTCR-style register holds its level in the second byte: 0xAA alone means that
/// the flash is readable, 0xCC alone that it is locked for good, and each of the other
/// values that it is protected, with the byte itself in two hex digits.
pub proof fn law_option_byte_decides_the_protection_level(opt: u32)
    ensures
        ({
            let b = opt / 0x100 % 0x100;
            let text = rdp_text(opt, RdpKind::OptByte);
            &&& b == 0xAA <==> text == "Disabled — flash readable (RDP Level 0)"@
            &&& b == 0xAA <==> starts_with(text, "Disabled"@)
            &&& b != 0xAA <==> starts_with(text, "Enabled"@)
            &&& b == 0xCC <==> text == "Enabled — RDP Level 2 (permanent, debug locked)"@
            &&& b == 0xCC <==> starts_with(text, "Enabled — RDP Level 2"@)
            &&& b != 0xAA && b != 0xCC <==> starts_with(text, "Enabled — RDP Level 1"@)
            &&& b != 0xAA && b != 0xCC ==> {
                let digits = hex_upper(b as nat, 2);
                &&& text == "Enabled — RDP Level 1 (RDP byte 0x"@ + digits + ")"@
                &&& digits.len() == 2
                &&& number(digits, 16, 0xFF) == Some(b as nat)
            }
        }),
{
    let b = opt / 0x100 % 0x100;
    assert((opt >> 8) & 0xFF == opt / 0x100 % 0x100) by (bit_vector);
    let text = rdp_text(opt, RdpKind::OptByte);
    reveal_strlit("Disabled — flash readable (RDP Level 0)");
    reveal_strlit("Enabled — RDP Level 2 (permanent, debug locked)");
    reveal_strlit("Enabled — RDP Level 1 (RDP byte 0x");
    reveal_strlit("Enabled — RDP Level 2");
    reveal_strlit("Enabled — RDP Level 1");
    reveal_strlit("Disabled");
    reveal_strlit("Enabled");
    let digits = hex_upper(b as nat, 2);
    law_written_number_reads_back(b as nat, 16, true, 2, 0xFF);
    law_padded_numbers_are_as_wide_as_asked(b as nat, 16, true, 2);
    reveal_with_fuel(shortest, 3);
    assert(digits.len() == 2);
    assert(text[0] == 'D' <==> b == 0xAA);
    if b == 0xAA {
        assert(text.take(8) =~= "Disabled"@);
        assert(text.take(7)[0] == 'D');
        assert(text.take(21)[0] == 'D');
    } else {
        assert(text.take(7) =~= "Enabled"@);
        assert(text.take(8)[0] == 'E');
        if b == 0xCC {
            assert(text.take(21) =~= "Enabled — RDP Level 2"@);
            assert(text.take(21)[20] == '2');
        } else {
            assert(text.take(21) =~= "Enabled — RDP Level 1"@);
            assert(text.take(21)[20] == '1');
            assert(text[20] == '1');
        }
    }
}

/// A FLASH_OBR register protects by its second bit alone, and its lowest bit alone
/// tells an option error.
pub proof fn law_option_register_bits_decide_the_protection(opt: u32)
    ensures
        ({
            let text = rdp_text(opt, RdpKind::Obr);
            let state = if opt / 2 % 2 == 1 {
                "Enabled — flash read-protected (RDP active)"@
            } else {
                "Disabled — flash readable (RDP Level 0)"@
            };
            &&& opt % 2 == 0 ==> text == state
            &&& opt % 2 == 1 ==> text == state + ", OPTERR set"@
            &&& opt / 2 % 2 == 1 <==> starts_with(text, "Enabled"@)
            &&& opt / 2 % 2 == 0 <==> starts_with(text, "Disabled"@)
        }),
{
    assert((opt >> 1) & 1 == opt / 2 % 2) by (bit_vector);
    assert(opt & 1 == opt % 2) by (bit_vector);
    reveal_strlit("Enabled — flash read-protected (RDP active)");
    reveal_strlit("Disabled — flash readable (RDP Level 0)");
    reveal_strlit("Disabled");
    reveal_strlit("Enabled");
    reveal_strlit("");
    let text = rdp_text(opt, RdpKind::Obr);
    if opt / 2 % 2 == 1 {
        assert(text.take(7) =~= "Enabled"@);
        assert(text.take(8)[0] == 'E');
        assert(opt % 2 == 0 ==> text =~= "Enabled — flash read-protected (RDP active)"@);
    } else {
        assert(text.take(8) =~= "Disabled"@);
        assert(text.take(7)[0] == 'D');
        assert(opt % 2 == 0 ==> text =~= "Disabled — flash readable (RDP Level 0)"@);
    }
}

/// The device is the low twelve bits of the identification register, its revision the
/// high sixteen.
pub proof fn law_identification_register_fields(idcode: u32)
    ensures
        dev_id_of(idcode) == idcode % 0x1000,
        rev_id_of(idcode) == idcode / 0x1_0000,
{
    assert((idcode & 0xFFF) as u16 == idcode % 0x1000) by (bit_vector);
    assert(((idcode >> 16) & 0xFFFF) as u16 == idcode / 0x1_0000) by (bit_vector);
}

/// A core is called by its part number, bits 4 to 15; the revision is bits 20 to 23,
/// the patch the low four, and the register itself is shown in eight hex digits.
pub proof fn law_core_is_named_by_its_part_number(cpuid: u32)
    ensures
        ({
            let part = cpuid / 0x10 % 0x1000;
            let rest = " r"@ + decimal((cpuid / 0x10_0000 % 0x10) as nat) + "p"@ + decimal(
                (cpuid % 0x10) as nat,
            ) + " (CPUID 0x"@ + hex_upper(cpuid as nat, 8) + ")"@;
            let text = core_text(cpuid);
            &&& part == 0xC20 ==> text == "Cortex-M0"@ + rest
            &&& part == 0xC60 ==> text == "Cortex-M0+"@ + rest
            &&& part == 0xC21 ==> text == "Cortex-M1"@ + rest
            &&& part == 0xC23 ==> text == "Cortex-M3"@ + rest
            &&& part == 0xC24 ==> text == "Cortex-M4"@ + rest
            &&& part == 0xC27 ==> text == "Cortex-M7"@ + rest
            &&& part == 0xD20 ==> text == "Cortex-M23"@ + rest
            &&& part == 0xD21 ==> text == "Cortex-M33"@ + rest
            &&& part != 0xC20 && part != 0xC60 && part != 0xC21 && part != 0xC23 && part != 0xC24
                && part != 0xC27 && part != 0xD20 && part != 0xD21 ==> text
                == "Cortex-M (unknown)"@ + rest
        }),
{
    assert((cpuid >> 4) & 0xFFF == cpuid / 0x10 % 0x1000) by (bit_vector);
    assert((cpuid >> 20) & 0xF == cpuid / 0x10_0000 % 0x10) by (bit_vector);
    assert(cpuid & 0xF == cpuid % 0x10) by (bit_vector);
    let part = cpuid / 0x10 % 0x1000;
    let name = core_name(part)@;
    let rest = " r"@ + decimal((cpuid / 0x10_0000 % 0x10) as nat) + "p"@ + decimal(
        (cpuid % 0x10) as nat,
    ) + " (CPUID 0x"@ + hex_upper(cpuid as nat, 8) + ")"@;
    assert(core_text(cpuid) =~= name + rest);
}

/// The unique ID shows its three words, the last one first, in eight digits each, so
/// that they can be read off it again. Three words of ones are no ID, nor are fewer
/// words.
pub proof fn law_unique_id_shows_all_words(words: Seq<u32>)
    ensures
        unique_id_text(words) is Some <==> words.len() >= 3 && !(words[0] == 0xFFFF_FFFF
            && words[1] == 0xFFFF_FFFF && words[2] == 0xFFFF_FFFF),
        unique_id_text(words) matches Some(text) ==> {
            &&& text.len() == 26
            &&& number(text.subrange(0, 8), 16, u32::MAX as nat) == Some(words[2] as nat)
            &&& text[8] == ' '
            &&& number(text.subrange(9, 17), 16, u32::MAX as nat) == Some(words[1] as nat)
            &&& text[17] == ' '
            &&& number(text.subrange(18, 26), 16, u32::MAX as nat) == Some(words[0] as nat)
        },
{
    if words.len() >= 3 {
        reveal_strlit(" ");
        let a = hex_upper(words[2] as nat, 8);
        let b = hex_upper(words[1] as nat, 8);
        let c = hex_upper(words[0] as nat, 8);
        lemma_eight_digits(words[2]);
        lemma_eight_digits(words[1]);
        lemma_eight_digits(words[0]);
        let text = a + " "@ + b + " "@ + c;
        assert(text.subrange(0, 8) =~= a);
        assert(text.subrange(9, 17) =~= b);
        assert(text.subrange(18, 26) =~= c);
    }
}

proof fn lemma_few_digits(v: nat, n: nat)
    requires
        v < 0x1_0000_0000,
        n >= 8,
    ensures
        shortest(v, 16, true).len() <= n,
{
    reveal_with_fuel(shortest, 9);
    let a = v / 16;
    let b = a / 16;
    let c = b / 16;
    let d = c / 16;
    let e = d / 16;
    let f = e / 16;
    let g = f / 16;
    assert(g < 16);
}

proof fn lemma_eight_digits(v: u32)
    ensures
        hex_upper(v as nat, 8).len() == 8,
        number(hex_upper(v as nat, 8), 16, u32::MAX as nat) == Some(v as nat),
{
    lemma_few_digits(v as nat, 8);
    law_written_number_reads_back(v as nat, 16, true, 8, u32::MAX as nat);
    law_padded_numbers_are_as_wide_as_asked(v as nat, 16, true, 8);
}

/// The flash begins at 0x08000000 and ends right before the address that lies its size
/// behind that; larger flash ends further up.
pub proof fn law_flash_map_ends_where_the_flash_does(kb: nat)
    requires
        0 < kb,
        0x0800_0000 + kb * 1024 <= u32::MAX,
    ensures
        starts_with(flash_map_text(kb), "0x08000000-0x"@),
        flash_map_text(kb).len() == 21,
        number(flash_map_text(kb).skip(13), 16, u32::MAX as nat) == Some(
            (0x0800_0000 + kb * 1024 - 1) as nat,
        ),
{
    let end = (0x0800_0000 + kb * 1024 - 1) as u32;
    lemma_eight_digits(end);
    reveal_strlit("0x08000000-0x");
    assert(flash_map_text(kb).skip(13) =~= hex_upper(end as nat, 8));
    assert(flash_map_text(kb).take(13) =~= "0x08000000-0x"@);
}

/// A part is shown as not genuine exactly where its revision is not one that ST
/// documents for it; only a part that is not a known clone gets a revision letter.
pub proof fn law_vendor_row_tells_clones(regs: Map<u32, Seq<u32>>, dev_id: Option<u16>, idcode: u32)
    requires
        first(regs, DBGMCU_IDCODE) == Some(idcode),
    ensures
        ({
            let d = (idcode % 0x1000) as u16;
            let rev = (idcode / 0x1_0000) as u16;
            let r = decoded(regs, dev_id);
            &&& r.vendor is None <==> !is_undocumented(d, rev)
            &&& gd32_part(d, rev) is Some ==> r.vendor is Some && starts_with(
                r.vendor->0,
                "GigaDevice GD32"@,
            )
            &&& r.vendor is Some && gd32_part(d, rev) is None ==> starts_with(
                r.vendor->0,
                "likely an STM32-compatible clone"@,
            )
            &&& d != 0x410 || gd32_part(d, rev) is Some ==> r.revision == Some(
                "0x"@ + hex_upper(rev as nat, 4),
            )
            &&& d == 0x410 && rev == 0x0000 ==> r.revision == Some("0x"@ + hex_upper(0, 4) + " (rev A)"@)
            &&& d == 0x410 && rev == 0x2000 ==> r.revision == Some(
                "0x"@ + hex_upper(0x2000, 4) + " (rev B)"@,
            )
            &&& d == 0x410 && rev == 0x2001 ==> r.revision == Some(
                "0x"@ + hex_upper(0x2001, 4) + " (rev Z)"@,
            )
            &&& d == 0x410 && rev == 0x2003 ==> r.revision == Some(
                "0x"@ + hex_upper(0x2003, 4) + " (rev 1/2/3/X/Y)"@,
            )
        }),
{
    law_identification_register_fields(idcode);
    let d = (idcode % 0x1000) as u16;
    let rev = (idcode / 0x1_0000) as u16;
    let r = decoded(regs, dev_id);
    law_documented_revisions(d, rev);
    reveal_strlit("GigaDevice GD32");
    reveal_strlit(
        "GigaDevice GD32 — pin-compatible with ST's STM32F103 but NOT genuine ST silicon. DEV_ID 0x",
    );
    reveal_strlit("likely an STM32-compatible clone");
    reveal_strlit(
        "likely an STM32-compatible clone (GigaDevice GD32 / CKS / APM32 / MindMotion) — REV_ID 0x",
    );
    reveal_strlit("");
    assert("0x"@ + hex_upper(rev as nat, 4) + ""@ =~= "0x"@ + hex_upper(rev as nat, 4));
    if gd32_part(d, rev) is Some {
        assert(r.vendor->0.take(15) =~= "GigaDevice GD32"@);
    } else if is_undocumented(d, rev) {
        assert(r.vendor->0.take(32) =~= "likely an STM32-compatible clone"@);
    }
}

/// Each row of a known family is read from the register that the family keeps for it,
/// and says what that register holds; an unknown device shows none of the three.
pub proof fn law_rows_come_from_the_registers_of_the_family(
    regs: Map<u32, Seq<u32>>,
    dev_id: u16,
)
    ensures
        ({
            let r = decoded(regs, Some(dev_id));
            &&& family(dev_id) is None ==> r.flash_size is None && r.flash_map is None
                && r.unique_id is None && r.read_protection is None
            &&& family(dev_id) matches Some(f) ==> {
                &&& r.read_protection is Some <==> first(regs, f.rdp_addr) is Some
                &&& first(regs, f.rdp_addr) matches Some(w) ==> r.read_protection == Some(
                    rdp_text(w, f.rdp_kind),
                )
                &&& r.unique_id == if regs.contains_key(f.uid_addr) {
                    unique_id_text(regs[f.uid_addr])
                } else {
                    None
                }
                &&& first(regs, f.flash_size_addr) matches Some(w) ==> (r.flash_size is Some <==> w
                    % 0x1_0000 != 0 && w % 0x1_0000 != 0xFFFF)
                &&& first(regs, f.flash_size_addr) matches Some(w) ==> r.flash_size is Some
                    ==> r.flash_size == Some(decimal((w % 0x1_0000) as nat) + " KB"@)
                    && r.flash_map == Some(flash_map_text((w % 0x1_0000) as nat))
                &&& first(regs, f.flash_size_addr) is None ==> r.flash_size is None
                    && r.flash_map is None
            }
            &&& r.core is Some <==> first(regs, 0xE000ED00) is Some
            &&& first(regs, 0xE000ED00) matches Some(w) ==> r.core == Some(core_text(w))
            &&& r.device_id is Some <==> first(regs, 0xE0042000) is Some
        }),
{
    if let Some(f) = family(dev_id) {
        if let Some(w) = first(regs, f.flash_size_addr) {
            assert(w & 0xFFFF == w % 0x1_0000) by (bit_vector);
        }
    }
}

/// A micro:bit is known by the first four digits of its unique ID, whatever follows;
/// the first two numbers are boards with an nRF51822, the others with an nRF52833.
pub proof fn law_microbit_prefixes(id: Seq<char>, rest: Seq<char>)
    ensures
        ({
            let m51 = "nRF51822 — Cortex-M0, 16 KB SRAM, 256 KB flash, 16 MHz, BLE 4.0"@;
            let m52 = "nRF52833 — Cortex-M4F, 128 KB SRAM, 512 KB flash, BLE 5.x"@;
            &&& microbit("9900"@ + rest) == Some(("BBC micro:bit V1.3"@, m51))
            &&& microbit("9901"@ + rest) == Some(("BBC micro:bit V1.5"@, m51))
            &&& microbit("9903"@ + rest) == Some(("BBC micro:bit V2.0"@, m52))
            &&& microbit("9904"@ + rest) == Some(("BBC micro:bit V2.21"@, m52))
            &&& microbit("9905"@ + rest) == Some(("BBC micro:bit V2.21 (later)"@, m52))
            &&& microbit("9906"@ + rest) == Some(("BBC micro:bit V2.x"@, m52))
            &&& microbit(id) is Some ==> id.len() >= 4 && id[0] == '9' && id[1] == '9' && id[2]
                == '0' && (id[3] == '0' || id[3] == '1' || '3' <= id[3] <= '6')
        }),
{
    reveal_strlit("9900");
    reveal_strlit("9901");
    reveal_strlit("9903");
    reveal_strlit("9904");
    reveal_strlit("9905");
    reveal_strlit("9906");
    lemma_microbit_prefix("9900"@, rest);
    lemma_microbit_prefix("9901"@, rest);
    lemma_microbit_prefix("9903"@, rest);
    lemma_microbit_prefix("9904"@, rest);
    lemma_microbit_prefix("9905"@, rest);
    lemma_microbit_prefix("9906"@, rest);
    if microbit(id) is Some {
        assert(id.take(4)[0] == id[0] && id.take(4)[1] == id[1] && id.take(4)[2] == id[2]
            && id.take(4)[3] == id[3]);
    }
}

proof fn lemma_microbit_prefix(p: Seq<char>, rest: Seq<char>)
    requires
        p.len() == 4,
    ensures
        (p + rest).take(4) == p,
        (p + rest)[3] == p[3],
{
    assert((p + rest).take(4) =~= p);
}

spec fn identity_head(
    p: Seq<Seq<char>>,
    indent: Seq<char>,
    width: nat,
    r: ReportView,
) -> Seq<Seq<char>> {
    let p = with_row(p, indent, "Device ID"@, width, r.device_id);
    let p = with_row(p, indent, "Revision"@, width, r.revision);
    let p = with_row(p, indent, "Vendor"@, width, r.vendor);
    let p = with_row(p, indent, "Core"@, width, r.core);
    let p = with_row(p, indent, "Architecture"@, width, r.architecture);
    let p = with_row(p, indent, "Max clock"@, width, r.max_clock);
    let p = with_row(p, indent, "Flash size"@, width, r.flash_size);
    let p = with_row(p, indent, "Flash map"@, width, r.flash_map);
    p
}

proof fn lemma_identity_head(p: Seq<Seq<char>>, indent: Seq<char>, width: nat, r: ReportView)
    ensures
        forall|x: Seq<char>|
            p.contains(x) ==> #[trigger] identity_head(p, indent, width, r).contains(x),
        r.device_id matches Some(v) ==> identity_head(p, indent, width, r).contains(
            row(indent, "Device ID"@, width, v),
        ),
        r.revision matches Some(v) ==> identity_head(p, indent, width, r).contains(
            row(indent, "Revision"@, width, v),
        ),
        r.vendor matches Some(v) ==> identity_head(p, indent, width, r).contains(
            row(indent, "Vendor"@, width, v),
        ),
        r.core matches Some(v) ==> identity_head(p, indent, width, r).contains(
            row(indent, "Core"@, width, v),
        ),
        r.architecture matches Some(v) ==> identity_head(p, indent, width, r).contains(
            row(indent, "Architecture"@, width, v),
        ),
        r.max_clock matches Some(v) ==> identity_head(p, indent, width, r).contains(
            row(indent, "Max clock"@, width, v),
        ),
        r.flash_size matches Some(v) ==> identity_head(p, indent, width, r).contains(
            row(indent, "Flash size"@, width, v),
        ),
        r.flash_map matches Some(v) ==> identity_head(p, indent, width, r).contains(
            row(indent, "Flash map"@, width, v),
        ),
{
    lemma_with_row(p, indent, "Device ID"@, width, r.device_id);
    let p = with_row(p, indent, "Device ID"@, width, r.device_id);
    lemma_with_row(p, indent, "Revision"@, width, r.revision);
    let p = with_row(p, indent, "Revision"@, width, r.revision);
    lemma_with_row(p, indent, "Vendor"@, width, r.vendor);
    let p = with_row(p, indent, "Vendor"@, width, r.vendor);
    lemma_with_row(p, indent, "Core"@, width, r.core);
    let p = with_row(p, indent, "Core"@, width, r.core);
    lemma_with_row(p, indent, "Architecture"@, width, r.architecture);
    let p = with_row(p, indent, "Architecture"@, width, r.architecture);
    lemma_with_row(p, indent, "Max clock"@, width, r.max_clock);
    let p = with_row(p, indent, "Max clock"@, width, r.max_clock);
    lemma_with_row(p, indent, "Flash size"@, width, r.flash_size);
    let p = with_row(p, indent, "Flash size"@, width, r.flash_size);
    lemma_with_row(p, indent, "Flash map"@, width, r.flash_map);
    let p = with_row(p, indent, "Flash map"@, width, r.flash_map);
}

spec fn identity_tail(
    p: Seq<Seq<char>>,
    indent: Seq<char>,
    width: nat,
    r: ReportView,
) -> Seq<Seq<char>> {
    let p = with_row(p, indent, "SRAM"@, width, r.sram);
    let p = with_row(p, indent, "Unique ID"@, width, r.unique_id);
    let p = with_row(p, indent, "Read protection"@, width, r.read_protection);
    let p = with_row(p, indent, "Identification"@, width, r.identification);
    let p = with_row(p, indent, "Transport"@, width, r.transport);
    let p = with_row(p, indent, "Access"@, width, r.access);
    let p = with_row(p, indent, "Source"@, width, r.source);
    p
}

proof fn lemma_identity_tail(p: Seq<Seq<char>>, indent: Seq<char>, width: nat, r: ReportView)
    ensures
        forall|x: Seq<char>|
            p.contains(x) ==> #[trigger] identity_tail(p, indent, width, r).contains(x),
        r.sram matches Some(v) ==> identity_tail(p, indent, width, r).contains(
            row(indent, "SRAM"@, width, v),
        ),
        r.unique_id matches Some(v) ==> identity_tail(p, indent, width, r).contains(
            row(indent, "Unique ID"@, width, v),
        ),
        r.read_protection matches Some(v) ==> identity_tail(p, indent, width, r).contains(
            row(indent, "Read protection"@, width, v),
        ),
        r.identification matches Some(v) ==> identity_tail(p, indent, width, r).contains(
            row(indent, "Identification"@, width, v),
        ),
        r.transport matches Some(v) ==> identity_tail(p, indent, width, r).contains(
            row(indent, "Transport"@, width, v),
        ),
        r.access matches Some(v) ==> identity_tail(p, indent, width, r).contains(
            row(indent, "Access"@, width, v),
        ),
        r.source matches Some(v) ==> identity_tail(p, indent, width, r).contains(
            row(indent, "Source"@, width, v),
        ),
{
    lemma_with_row(p, indent, "SRAM"@, width, r.sram);
    let p = with_row(p, indent, "SRAM"@, width, r.sram);
    lemma_with_row(p, indent, "Unique ID"@, width, r.unique_id);
    let p = with_row(p, indent, "Unique ID"@, width, r.unique_id);
    lemma_with_row(p, indent, "Read protection"@, width, r.read_protection);
    let p = with_row(p, indent, "Read protection"@, width, r.read_protection);
    lemma_with_row(p, indent, "Identification"@, width, r.identification);
    let p = with_row(p, indent, "Identification"@, width, r.identification);
    lemma_with_row(p, indent, "Transport"@, width, r.transport);
    let p = with_row(p, indent, "Transport"@, width, r.transport);
    lemma_with_row(p, indent, "Access"@, width, r.access);
    let p = with_row(p, indent, "Access"@, width, r.access);
    lemma_with_row(p, indent, "Source"@, width, r.source);
    let p = with_row(p, indent, "Source"@, width, r.source);
}

/// Every identity row that the report holds is shown, under its label, behind the lines
/// that were there.
pub proof fn law_identity_rows_are_shown(
    page: Seq<Seq<char>>,
    indent: Seq<char>,
    width: nat,
    r: ReportView,
)
    ensures
        forall|x: Seq<char>|
            page.contains(x) ==> #[trigger] identity_rows(page, indent, width, r).contains(x),
        r.device_id matches Some(v) ==> identity_rows(page, indent, width, r).contains(
            row(indent, "Device ID"@, width, v),
        ),
        r.revision matches Some(v) ==> identity_rows(page, indent, width, r).contains(
            row(indent, "Revision"@, width, v),
        ),
        r.vendor matches Some(v) ==> identity_rows(page, indent, width, r).contains(
            row(indent, "Vendor"@, width, v),
        ),
        r.core matches Some(v) ==> identity_rows(page, indent, width, r).contains(
            row(indent, "Core"@, width, v),
        ),
        r.architecture matches Some(v) ==> identity_rows(page, indent, width, r).contains(
            row(indent, "Architecture"@, width, v),
        ),
        r.max_clock matches Some(v) ==> identity_rows(page, indent, width, r).contains(
            row(indent, "Max clock"@, width, v),
        ),
        r.flash_size matches Some(v) ==> identity_rows(page, indent, width, r).contains(
            row(indent, "Flash size"@, width, v),
        ),
        r.flash_map matches Some(v) ==> identity_rows(page, indent, width, r).contains(
            row(indent, "Flash map"@, width, v),
        ),
        r.sram matches Some(v) ==> identity_rows(page, indent, width, r).contains(
            row(indent, "SRAM"@, width, v),
        ),
        r.unique_id matches Some(v) ==> identity_rows(page, indent, width, r).contains(
            row(indent, "Unique ID"@, width, v),
        ),
        r.read_protection matches Some(v) ==> identity_rows(page, indent, width, r).contains(
            row(indent, "Read protection"@, width, v),
        ),
        r.identification matches Some(v) ==> identity_rows(page, indent, width, r).contains(
            row(indent, "Identification"@, width, v),
        ),
        r.transport matches Some(v) ==> identity_rows(page, indent, width, r).contains(
            row(indent, "Transport"@, width, v),
        ),
        r.access matches Some(v) ==> identity_rows(page, indent, width, r).contains(
            row(indent, "Access"@, width, v),
        ),
        r.source matches Some(v) ==> identity_rows(page, indent, width, r).contains(
            row(indent, "Source"@, width, v),
        ),
{
    lemma_identity_head(page, indent, width, r);
    let p = identity_head(page, indent, width, r);
    lemma_identity_tail(p, indent, width, r);
    assert(identity_rows(page, indent, width, r) == identity_tail(p, indent, width, r));
}

proof fn lemma_shown_behind(p: Seq<Seq<char>>, line: Seq<char>)
    ensures
        p.push(line).contains(line),
        forall|x: Seq<char>| p.contains(x) ==> #[trigger] p.push(line).contains(x),
{
    let all = p.push(line);
    assert(all[p.len() as int] == line);
    assert forall|x: Seq<char>| p.contains(x) implies #[trigger] all.contains(x) by {
        let i = choose|i: int| 0 <= i < p.len() && p[i] == x;
        assert(all[i] == x);
    }
}

/// A target page shows the probe and the debug port. Of a device that was identified it
/// shows every identity row below the name of the board; without one it says how the
/// second layer stands, what mends it and what to look at.
pub proof fn law_target_page_shows_the_report(r: ReportView, board: Seq<char>)
    ensures
        ({
            let page = target_page(r, board);
            &&& r.probe matches Some(v) ==> page.contains(row("  "@, "Probe"@, 16, v))
            &&& r.dp_idcode matches Some(v) ==> page.contains(row("  "@, "DP IDCODE"@, 16, v))
            &&& r.device_id is Some ==> page.contains(
                "  Layer 2 - downstream SWD target (read-only) via "@ + board + ":"@,
            ) && (exists|before: Seq<Seq<char>>|
                page == #[trigger] identity_rows(before, "    "@, 16, r))
            &&& r.device_id is None ==> {
                &&& r.layer2 matches Some(v) ==> page.contains("  Layer 2:         "@ + v)
                &&& r.layer2 is None ==> page.contains(
                    "  Layer 2:         none - no SWD/JTAG target detected"@,
                )
                &&& r.fix matches Some(v) ==> page.contains("  Fix:             "@ + v)
                &&& r.hint matches Some(v) ==> page.contains("  Hint:            "@ + v)
            }
        }),
{
    let none = Seq::<Seq<char>>::empty();
    lemma_with_row(none, "  "@, "Probe"@, 16, r.probe);
    let p = with_row(none, "  "@, "Probe"@, 16, r.probe);
    lemma_with_row(p, "  "@, "DP IDCODE"@, 16, r.dp_idcode);
    let p = with_row(p, "  "@, "DP IDCODE"@, 16, r.dp_idcode);
    if r.device_id is None {
        let line = match r.layer2 {
            Some(state) => "  Layer 2:         "@ + state,
            None => "  Layer 2:         none - no SWD/JTAG target detected"@,
        };
        lemma_shown_behind(p, line);
        let p = p.push(line);
        let q = match r.fix {
            Some(fix) => p.push("  Fix:             "@ + fix),
            None => p,
        };
        if let Some(fix) = r.fix {
            lemma_shown_behind(p, "  Fix:             "@ + fix);
        }
        if let Some(hint) = r.hint {
            lemma_shown_behind(q, "  Hint:            "@ + hint);
        }
    } else {
        let line = "  Layer 2 - downstream SWD target (read-only) via "@ + board + ":"@;
        lemma_shown_behind(p, line);
        law_identity_rows_are_shown(p.push(line), "    "@, 16, r);
    }
}

/// What the registers of a device show besides: a part of the F446 family its known
/// architecture, clock and memory, a GD32 its clock, and every device how it was read.
/// The device is named after its family, and an unknown one as such.
pub proof fn law_rows_of_known_devices(regs: Map<u32, Seq<u32>>, dev_id: Option<u16>)
    ensures
        ({
            let r = decoded(regs, dev_id);
            let f446 = dev_id == Some(0x421u16);
            let idcode = first(regs, 0xE004_2000);
            let gd32 = if idcode is Some {
                gd32_part((idcode->0 % 0x1000) as u16, (idcode->0 / 0x1_0000) as u16)
            } else {
                None
            };
            let head = "0x"@ + hex_upper((idcode->0 % 0x1000) as nat, 3) + " — "@;
            &&& f446 ==> r.architecture == Some("Armv7E-M, Thumb-2, DSP, single-precision FPU"@)
                && r.sram == Some("128 KB"@) && r.identification is Some
            &&& !f446 ==> r.architecture is None && r.sram is None && r.identification is None
            &&& f446 && gd32 is None ==> r.max_clock == Some("180 MHz"@)
            &&& !f446 && gd32 is None ==> r.max_clock is None
            &&& gd32 matches Some(line) ==> r.max_clock == Some(
                decimal(line.max_mhz as nat)
                    + " MHz (GigaDevice GD32; ST's F103 tops out at 72 MHz)"@,
            ) && r.device_id is Some && starts_with(r.device_id->0, head + line.family@)
            &&& idcode is Some && gd32 is None && (dev_id matches Some(d) && family(d) is Some)
                ==> r.device_id == Some(head + family(dev_id->0)->0.name@)
            &&& idcode is Some && gd32 is None && !(dev_id matches Some(d) && family(d) is Some)
                ==> r.device_id == Some(head + "unknown (unrecognized STM32 DEV_ID)"@)
            &&& r.transport == Some("SWD at 100 kHz"@)
            &&& r.access == Some("Read-only identity registers"@)
            &&& r.source is None && r.probe is None && r.dp_idcode is None && r.layer2 is None
        }),
{
    if let Some(w) = first(regs, 0xE004_2000) {
        law_identification_register_fields(w);
        let did = (w % 0x1000) as u16;
        let rev = (w / 0x1_0000) as u16;
        if let Some(line) = gd32_part(did, rev) {
            let head = "0x"@ + hex_upper((w % 0x1000) as nat, 3) + " — "@ + line.family@;
            let r = decoded(regs, dev_id);
            assert(r.device_id->0.take(head.len() as int) =~= head);
        }
    }
}

/// What is said of a recognised GD32, and of a clone that is not recognised: both name
/// the device and the revision that give it away.
pub proof fn law_vendor_texts(did: u16, rev: u16)
    ensures
        gd32_vendor_text(did, rev) == "GigaDevice GD32 — pin-compatible with ST's STM32F103 but NOT genuine ST silicon. DEV_ID 0x"@
                + hex_upper(did as nat, 3) + " mirrors ST; REV_ID 0x"@ + hex_upper(rev as nat, 4)
                + " (outside ST's set) confirms GD32. Package/pin (C=48 R=64 V=100 Z=144) + temp grade are not SWD-readable."@,
        clone_vendor_text(did, rev) == "likely an STM32-compatible clone (GigaDevice GD32 / CKS / APM32 / MindMotion) — REV_ID 0x"@
                + hex_upper(rev as nat, 4) + " is not a documented ST revision for DEV_ID 0x"@ + hex_upper(
                did as nat,
                3,
            ),
{
}

} // verus!
