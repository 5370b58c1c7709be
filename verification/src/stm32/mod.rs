//! What the STM32 families look like from outside: where each keeps its
//! identity registers, which revisions ST documents, and which GigaDevice parts
//! answer in their place.
use vstd::prelude::*;
use vstd::string::*;
use crate::text::{lacks, same_str};

pub mod chipdb;
pub mod decode;

verus! {

/// Core identification register of every Armv6-M and Armv7-M part.
pub const CPUID: u32 = 0xE000ED00;

/// Device identification register of the Cortex-M3, M4 and M7 families, and
/// the key under which a usable value is kept wherever it was read.
pub const DBGMCU_IDCODE: u32 = 0xE0042000;

/// Device identification register of the Cortex-M0 families.
pub const DBGMCU_IDCODE_M0: u32 = 0x40015800;

#[derive(Clone, Copy, PartialEq, Eq, Debug, Structural)]
pub enum RdpKind {
    /// FLASH_OBR with RDPRT in bit 1 (STM32F0/F1/F3).
    Obr,
    /// FLASH_OPTCR-style register with the RDP level byte in bits [15:8]
    /// (STM32F2/F4/F7): 0xAA = Level 0, 0xCC = Level 2, anything else = Level 1.
    OptByte,
}

/// Where a given STM32 family keeps its flash-size word, 96-bit UID, and
/// read-out-protection option register. DBGMCU_IDCODE and CPUID are at fixed
/// addresses across families, but these three move, so they can only be read
/// once DEV_ID tells the family.
#[derive(Clone, Copy, Debug)]
pub struct StmFamily {
    pub name: &'static str,
    pub flash_size_addr: u32,
    pub uid_addr: u32,
    pub rdp_addr: u32,
    pub rdp_kind: RdpKind,
}

pub open spec fn is_f0(dev_id: u16) -> bool {
    dev_id == 0x440 || dev_id == 0x442 || dev_id == 0x444 || dev_id == 0x445 || dev_id == 0x448
}

pub open spec fn is_f1(dev_id: u16) -> bool {
    dev_id == 0x410 || dev_id == 0x412 || dev_id == 0x414 || dev_id == 0x418 || dev_id == 0x420
        || dev_id == 0x428 || dev_id == 0x430
}

pub open spec fn is_f3(dev_id: u16) -> bool {
    dev_id == 0x422 || dev_id == 0x432 || dev_id == 0x438 || dev_id == 0x439 || dev_id == 0x446
}

pub open spec fn is_f2_or_f4(dev_id: u16) -> bool {
    dev_id == 0x411 || dev_id == 0x413 || dev_id == 0x419 || dev_id == 0x421 || dev_id == 0x423
        || dev_id == 0x431 || dev_id == 0x433 || dev_id == 0x434 || dev_id == 0x441 || dev_id
        == 0x458 || dev_id == 0x463
}

pub open spec fn is_f7(dev_id: u16) -> bool {
    dev_id == 0x449 || dev_id == 0x451 || dev_id == 0x452
}

/// The marketing name that goes with a DEV_ID.
pub open spec fn family_name(dev_id: u16) -> &'static str {
    match dev_id {
        0x440 => "STM32F030x8 / F05x — Cortex-M0",
        0x442 => "STM32F030xC / F09x — Cortex-M0",
        0x444 => "STM32F03x — Cortex-M0",
        0x445 => "STM32F04x — Cortex-M0",
        0x448 => "STM32F07x — Cortex-M0",
        0x412 => "STM32F1 low-density (F101/102/103) — Cortex-M3",
        0x410 => "STM32F1 medium-density (F101/102/103) — Cortex-M3",
        0x414 => "STM32F1 high-density (F101/103) — Cortex-M3",
        0x418 => "STM32F1 connectivity line (F105/107) — Cortex-M3",
        0x420 => "STM32F100 medium-density value line — Cortex-M3",
        0x428 => "STM32F100 high-density value line — Cortex-M3",
        0x430 => "STM32F1 XL-density (F101/103) — Cortex-M3",
        0x411 => "STM32F2 — Cortex-M3",
        0x422 => "STM32F302xB/C / F303xB/C / F358 — Cortex-M4F",
        0x432 => "STM32F373 / F378 — Cortex-M4F",
        0x438 => "STM32F303x4/6/8 / F334 / F328 — Cortex-M4F",
        0x439 => "STM32F301 / F302x6/8 / F318 — Cortex-M4F",
        0x446 => "STM32F302xD/E / F303xD/E / F398 — Cortex-M4F",
        0x413 => "STM32F405/407/415/417 — Cortex-M4F",
        0x419 => "STM32F42x/43x — Cortex-M4F",
        0x423 => "STM32F401xB/C — Cortex-M4F",
        0x431 => "STM32F411 — Cortex-M4F",
        0x433 => "STM32F401xD/E — Cortex-M4F",
        0x441 => "STM32F412 — Cortex-M4F",
        0x421 => "STM32F446 — Cortex-M4F",
        0x434 => "STM32F469/479 — Cortex-M4F",
        0x458 => "STM32F410 — Cortex-M4F",
        0x463 => "STM32F413/423 — Cortex-M4F",
        0x449 => "STM32F74x/75x — Cortex-M7",
        0x451 => "STM32F76x/77x — Cortex-M7",
        0x452 => "STM32F72x/73x — Cortex-M7",
        _ => "",
    }
}

/// No family name has a capital G in it.
pub proof fn lemma_family_names_lack_g(dev_id: u16)
    ensures
        lacks(family_name(dev_id)@, 'G'),
{
    reveal_strlit("STM32F030x8 / F05x — Cortex-M0");
    reveal_strlit("STM32F030xC / F09x — Cortex-M0");
    reveal_strlit("STM32F03x — Cortex-M0");
    reveal_strlit("STM32F04x — Cortex-M0");
    reveal_strlit("STM32F07x — Cortex-M0");
    reveal_strlit("STM32F1 low-density (F101/102/103) — Cortex-M3");
    reveal_strlit("STM32F1 medium-density (F101/102/103) — Cortex-M3");
    reveal_strlit("STM32F1 high-density (F101/103) — Cortex-M3");
    reveal_strlit("STM32F1 connectivity line (F105/107) — Cortex-M3");
    reveal_strlit("STM32F100 medium-density value line — Cortex-M3");
    reveal_strlit("STM32F100 high-density value line — Cortex-M3");
    reveal_strlit("STM32F1 XL-density (F101/103) — Cortex-M3");
    reveal_strlit("STM32F2 — Cortex-M3");
    reveal_strlit("STM32F302xB/C / F303xB/C / F358 — Cortex-M4F");
    reveal_strlit("STM32F373 / F378 — Cortex-M4F");
    reveal_strlit("STM32F303x4/6/8 / F334 / F328 — Cortex-M4F");
    reveal_strlit("STM32F301 / F302x6/8 / F318 — Cortex-M4F");
    reveal_strlit("STM32F302xD/E / F303xD/E / F398 — Cortex-M4F");
    reveal_strlit("STM32F405/407/415/417 — Cortex-M4F");
    reveal_strlit("STM32F42x/43x — Cortex-M4F");
    reveal_strlit("STM32F401xB/C — Cortex-M4F");
    reveal_strlit("STM32F411 — Cortex-M4F");
    reveal_strlit("STM32F401xD/E — Cortex-M4F");
    reveal_strlit("STM32F412 — Cortex-M4F");
    reveal_strlit("STM32F446 — Cortex-M4F");
    reveal_strlit("STM32F469/479 — Cortex-M4F");
    reveal_strlit("STM32F410 — Cortex-M4F");
    reveal_strlit("STM32F413/423 — Cortex-M4F");
    reveal_strlit("STM32F74x/75x — Cortex-M7");
    reveal_strlit("STM32F76x/77x — Cortex-M7");
    reveal_strlit("STM32F72x/73x — Cortex-M7");
    reveal_strlit("");
}

/// What a DEV_ID says about the part, where it is a known one.
pub open spec fn family(dev_id: u16) -> Option<StmFamily> {
    let name = family_name(dev_id);
    if is_f1(dev_id) {
        Some(
            StmFamily {
                name,
                flash_size_addr: 0x1FFFF7E0,
                uid_addr: 0x1FFFF7E8,
                rdp_addr: 0x4002201C,
                rdp_kind: RdpKind::Obr,
            },
        )
    } else if is_f0(dev_id) || is_f3(dev_id) {
        Some(
            StmFamily {
                name,
                flash_size_addr: 0x1FFFF7CC,
                uid_addr: 0x1FFFF7AC,
                rdp_addr: 0x4002201C,
                rdp_kind: RdpKind::Obr,
            },
        )
    } else if is_f2_or_f4(dev_id) {
        Some(
            StmFamily {
                name,
                flash_size_addr: 0x1FFF7A22,
                uid_addr: 0x1FFF7A10,
                rdp_addr: 0x40023C14,
                rdp_kind: RdpKind::OptByte,
            },
        )
    } else if is_f7(dev_id) {
        Some(
            StmFamily {
                name,
                flash_size_addr: 0x1FF0F442,
                uid_addr: 0x1FF0F420,
                rdp_addr: 0x40023C14,
                rdp_kind: RdpKind::OptByte,
            },
        )
    } else {
        None
    }
}

fn f1(name: &'static str) -> (f: StmFamily)
    ensures
        f == (StmFamily {
            name,
            flash_size_addr: 0x1FFFF7E0,
            uid_addr: 0x1FFFF7E8,
            rdp_addr: 0x4002201C,
            rdp_kind: RdpKind::Obr,
        }),
{
    StmFamily {
        name,
        flash_size_addr: 0x1FFFF7E0,
        uid_addr: 0x1FFFF7E8,
        rdp_addr: 0x4002201C,
        rdp_kind: RdpKind::Obr,
    }
}

fn f0_f3(name: &'static str) -> (f: StmFamily)
    ensures
        f == (StmFamily {
            name,
            flash_size_addr: 0x1FFFF7CC,
            uid_addr: 0x1FFFF7AC,
            rdp_addr: 0x4002201C,
            rdp_kind: RdpKind::Obr,
        }),
{
    StmFamily {
        name,
        flash_size_addr: 0x1FFFF7CC,
        uid_addr: 0x1FFFF7AC,
        rdp_addr: 0x4002201C,
        rdp_kind: RdpKind::Obr,
    }
}

fn f2_f4(name: &'static str) -> (f: StmFamily)
    ensures
        f == (StmFamily {
            name,
            flash_size_addr: 0x1FFF7A22,
            uid_addr: 0x1FFF7A10,
            rdp_addr: 0x40023C14,
            rdp_kind: RdpKind::OptByte,
        }),
{
    StmFamily {
        name,
        flash_size_addr: 0x1FFF7A22,
        uid_addr: 0x1FFF7A10,
        rdp_addr: 0x40023C14,
        rdp_kind: RdpKind::OptByte,
    }
}

fn f7(name: &'static str) -> (f: StmFamily)
    ensures
        f == (StmFamily {
            name,
            flash_size_addr: 0x1FF0F442,
            uid_addr: 0x1FF0F420,
            rdp_addr: 0x40023C14,
            rdp_kind: RdpKind::OptByte,
        }),
{
    StmFamily {
        name,
        flash_size_addr: 0x1FF0F442,
        uid_addr: 0x1FF0F420,
        rdp_addr: 0x40023C14,
        rdp_kind: RdpKind::OptByte,
    }
}

/// Map a 12-bit DBGMCU DEV_ID to its family name and register addresses.
pub fn stm_family(dev_id: u16) -> (f: Option<StmFamily>)
    ensures
        f == family(dev_id),
{
    Some(
        match dev_id {
            // ── STM32F0 (Cortex-M0) ──
            0x440 => f0_f3("STM32F030x8 / F05x — Cortex-M0"),
            0x442 => f0_f3("STM32F030xC / F09x — Cortex-M0"),
            0x444 => f0_f3("STM32F03x — Cortex-M0"),
            0x445 => f0_f3("STM32F04x — Cortex-M0"),
            0x448 => f0_f3("STM32F07x — Cortex-M0"),
            // ── STM32F1 (Cortex-M3) ──
            0x412 => f1("STM32F1 low-density (F101/102/103) — Cortex-M3"),
            0x410 => f1("STM32F1 medium-density (F101/102/103) — Cortex-M3"),
            0x414 => f1("STM32F1 high-density (F101/103) — Cortex-M3"),
            0x418 => f1("STM32F1 connectivity line (F105/107) — Cortex-M3"),
            0x420 => f1("STM32F100 medium-density value line — Cortex-M3"),
            0x428 => f1("STM32F100 high-density value line — Cortex-M3"),
            0x430 => f1("STM32F1 XL-density (F101/103) — Cortex-M3"),
            // ── STM32F2 (Cortex-M3) ──
            0x411 => f2_f4("STM32F2 — Cortex-M3"),
            // ── STM32F3 (Cortex-M4F) ──
            0x422 => f0_f3("STM32F302xB/C / F303xB/C / F358 — Cortex-M4F"),
            0x432 => f0_f3("STM32F373 / F378 — Cortex-M4F"),
            0x438 => f0_f3("STM32F303x4/6/8 / F334 / F328 — Cortex-M4F"),
            0x439 => f0_f3("STM32F301 / F302x6/8 / F318 — Cortex-M4F"),
            0x446 => f0_f3("STM32F302xD/E / F303xD/E / F398 — Cortex-M4F"),
            // ── STM32F4 (Cortex-M4F) ──
            0x413 => f2_f4("STM32F405/407/415/417 — Cortex-M4F"),
            0x419 => f2_f4("STM32F42x/43x — Cortex-M4F"),
            0x423 => f2_f4("STM32F401xB/C — Cortex-M4F"),
            0x431 => f2_f4("STM32F411 — Cortex-M4F"),
            0x433 => f2_f4("STM32F401xD/E — Cortex-M4F"),
            0x441 => f2_f4("STM32F412 — Cortex-M4F"),
            0x421 => f2_f4("STM32F446 — Cortex-M4F"),
            0x434 => f2_f4("STM32F469/479 — Cortex-M4F"),
            0x458 => f2_f4("STM32F410 — Cortex-M4F"),
            0x463 => f2_f4("STM32F413/423 — Cortex-M4F"),
            // ── STM32F7 (Cortex-M7) ──
            0x449 => f7("STM32F74x/75x — Cortex-M7"),
            0x451 => f7("STM32F76x/77x — Cortex-M7"),
            0x452 => f7("STM32F72x/73x — Cortex-M7"),
            _ => {
                return None;
            },
        },
    )
}

// ── Documented revisions ────────────────────────────────────────────────
/// The REV_IDs that ST documents for the families that are cloned most.
pub open spec fn known_revs(dev_id: u16) -> Option<Seq<u16>> {
    match dev_id {
        0x412 => Some(seq![0x1000u16]),
        0x410 => Some(seq![0x0000u16, 0x2000u16, 0x2001u16, 0x2003u16]),
        0x414 => Some(seq![0x1000u16, 0x1001u16, 0x1003u16]),
        0x418 => Some(seq![0x1000u16, 0x1001u16]),
        0x420 => Some(seq![0x1000u16, 0x1001u16]),
        0x428 => Some(seq![0x1000u16, 0x1001u16]),
        0x430 => Some(seq![0x1000u16]),
        _ => None,
    }
}

/// A tracked DEV_ID with a REV_ID that ST never shipped.
pub open spec fn is_undocumented(dev_id: u16, rev_id: u16) -> bool {
    known_revs(dev_id) is Some && !known_revs(dev_id)->0.contains(rev_id)
}

/// Documented genuine-ST silicon REV_IDs (DBGMCU IDCODE bits [31:16]) for the
/// families most often cloned. STM32-compatible parts from GigaDevice (GD32),
/// CKS, APM32 (Geehy), MindMotion, etc. mirror ST's DEV_ID but report a REV_ID
/// outside ST's published set — so a known DEV_ID with an unknown REV_ID is a
/// strong "not genuine ST" signal. Returns `None` for families that are not
/// tracked closely enough to second-guess (then no clone claim is made).
pub fn stm32_known_revs(dev_id: u16) -> (r: Option<&'static [u16]>)
    ensures
        match r {
            Some(revs) => known_revs(dev_id) == Some(revs@),
            None => known_revs(dev_id) is None,
        },
{
    let revs: &'static [u16] = match dev_id {
        0x412 => &[0x1000],  // F1 low-density
        0x410 => &[0x0000, 0x2000, 0x2001, 0x2003],  // F1 medium-density
        0x414 => &[0x1000, 0x1001, 0x1003],  // F1 high-density
        0x418 => &[0x1000, 0x1001],  // F1 connectivity line
        0x420 => &[0x1000, 0x1001],  // F100 value line, MD
        0x428 => &[0x1000, 0x1001],  // F100 value line, HD
        0x430 => &[0x1000],  // F1 XL-density
        _ => {
            return None;
        },
    };
    assert(known_revs(dev_id)->0 =~= revs@);
    Some(revs)
}

pub(crate) fn undocumented(dev_id: u16, rev_id: u16) -> (r: bool)
    ensures
        r == is_undocumented(dev_id, rev_id),
{
    match stm32_known_revs(dev_id) {
        None => false,
        Some(revs) => {
            let mut i: usize = 0;
            while i < revs.len()
                invariant
                    i <= revs@.len(),
                    known_revs(dev_id) == Some(revs@),
                    forall|k: int| 0 <= k < i ==> revs@[k] != rev_id,
                decreases revs.len() - i,
            {
                if revs[i] == rev_id {
                    assert(revs@.contains(rev_id));
                    return false;
                }
                i += 1;
            }
            true
        },
    }
}

// ── GigaDevice parts that mirror an ST DEV_ID ───────────────────────────
/// A GigaDevice line that answers with an ST DEV_ID.
#[derive(Clone, Copy, Debug)]
pub struct Gd32Line {
    pub family: &'static str,
    pub core: &'static str,
    pub max_mhz: u16,
}

/// GigaDevice GD32 lines that mirror an ST DBGMCU DEV_ID (so they would decode
/// as STM32 by IDCODE alone). GD32 reports the SAME DEV_ID as the ST part it
/// replaces, but a REV_ID outside ST's published set and a faster top clock
/// (108 MHz on the F1 line vs ST's 72 MHz).
pub open spec fn gd32_line(dev_id: u16) -> Option<Gd32Line> {
    match dev_id {
        // medium-density mirror (≤128 KB), high-density mirror (256–512 KB),
        // XL-density mirror
        0x410 | 0x414 | 0x430 => Some(
            Gd32Line { family: "GD32F103", core: "Cortex-M3", max_mhz: 108 },
        ),
        // connectivity-line mirror
        0x418 => Some(Gd32Line { family: "GD32F105", core: "Cortex-M3", max_mhz: 108 }),
        _ => None,
    }
}

fn find_gd32_line(dev_id: u16) -> (r: Option<Gd32Line>)
    ensures
        r == gd32_line(dev_id),
{
    match dev_id {
        0x410 | 0x414 | 0x430 => Some(
            Gd32Line { family: "GD32F103", core: "Cortex-M3", max_mhz: 108 },
        ),
        0x418 => Some(Gd32Line { family: "GD32F105", core: "Cortex-M3", max_mhz: 108 }),
        _ => None,
    }
}

/// The density letter of a part with this much flash.
pub open spec fn density(flash_kb: Option<u32>) -> &'static str {
    match flash_kb {
        None => "",
        Some(k) => if k < 16 {
            ""
        } else if k < 32 {
            "x4"
        } else if k < 64 {
            "x6"
        } else if k < 128 {
            "x8"
        } else if k < 256 {
            "xB"
        } else if k < 384 {
            "xC"
        } else if k < 512 {
            "xD"
        } else {
            "xE"
        },
    }
}

/// The part that stands for a density of the GD32F103 line.
pub open spec fn density_example(flash_kb: Option<u32>) -> &'static str {
    match flash_kb {
        None => "",
        Some(k) => if k < 16 {
            ""
        } else if k < 32 {
            " — e.g. GD32F103C4T6 (16 KB)"
        } else if k < 64 {
            " — e.g. GD32F103C6T6 (32 KB)"
        } else if k < 128 {
            " — e.g. GD32F103C8T6 (64 KB)"
        } else if k < 256 {
            " — e.g. GD32F103CBT6 (128 KB)"
        } else if k < 384 {
            " — e.g. GD32F103RCT6 (256 KB)"
        } else if k < 512 {
            " — e.g. GD32F103RDT6 (384 KB)"
        } else {
            " — e.g. GD32F103RET6 (64-pin, 512 KB)"
        },
    }
}

/// Density letter for a GD32F10x from its flash size in KB (x4=16 … xE=512).
pub fn gd32_density(flash_kb: Option<u32>) -> (letter: &'static str)
    ensures
        letter == density(flash_kb),
{
    match flash_kb {
        Some(k) if k >= 512 => "xE",
        Some(k) if k >= 384 => "xD",
        Some(k) if k >= 256 => "xC",
        Some(k) if k >= 128 => "xB",
        Some(k) if k >= 64 => "x8",
        Some(k) if k >= 32 => "x6",
        Some(k) if k >= 16 => "x4",
        _ => "",
    }
}

fn gd32_example(flash_kb: Option<u32>) -> (example: &'static str)
    ensures
        example == density_example(flash_kb),
{
    match flash_kb {
        Some(k) if k >= 512 => " — e.g. GD32F103RET6 (64-pin, 512 KB)",
        Some(k) if k >= 384 => " — e.g. GD32F103RDT6 (384 KB)",
        Some(k) if k >= 256 => " — e.g. GD32F103RCT6 (256 KB)",
        Some(k) if k >= 128 => " — e.g. GD32F103CBT6 (128 KB)",
        Some(k) if k >= 64 => " — e.g. GD32F103C8T6 (64 KB)",
        Some(k) if k >= 32 => " — e.g. GD32F103C6T6 (32 KB)",
        Some(k) if k >= 16 => " — e.g. GD32F103C4T6 (16 KB)",
        _ => "",
    }
}

/// How a GigaDevice part of this line is called.
pub open spec fn gd32_name(line: Gd32Line, flash_kb: Option<u32>) -> Seq<char> {
    line.family@ + density(flash_kb)@ + " (GigaDevice)"@ + (if line.family@ == "GD32F103"@ {
        density_example(flash_kb)@
    } else {
        ""@
    }) + " — "@ + line.core@
}

/// The GigaDevice line that the identity registers give away: one that mirrors
/// the DEV_ID, with a REV_ID that ST never shipped.
pub open spec fn gd32_part(dev_id: u16, rev_id: u16) -> Option<Gd32Line> {
    if is_undocumented(dev_id, rev_id) {
        gd32_line(dev_id)
    } else {
        None
    }
}

/// Resolve a GigaDevice GD32 model from the read-only signals: a known ST DEV_ID
/// reporting a non-ST REV_ID (the clone signature) selects the family, and the
/// flash size selects the density. Returns `(display_name, core, max_mhz)`, or
/// `None` when this isn't a recognized GD32 (then the STM32 name/clone-flag path
/// runs). The canonical 64-pin part is cited as an example for the F103 line;
/// the exact package can't be read over SWD.
pub fn gd32_identify(dev_id: u16, rev_id: u16, flash_kb: Option<u32>) -> (r: Option<
    (String, &'static str, u16),
>)
    ensures
        match r {
            Some((name, core, max_mhz)) => {
                &&& gd32_part(dev_id, rev_id) matches Some(line)
                &&& name@ == gd32_name(line, flash_kb)
                &&& core == line.core
                &&& max_mhz == line.max_mhz
            },
            None => gd32_part(dev_id, rev_id) is None,
        },
{
    if !undocumented(dev_id, rev_id) {
        return None;
    }
    match find_gd32_line(dev_id) {
        None => None,
        Some(line) => {
            let example = if same_str(line.family, "GD32F103") {
                gd32_example(flash_kb)
            } else {
                ""
            };
            let mut name = line.family.to_string();
            name.append(gd32_density(flash_kb));
            name.append(" (GigaDevice)");
            name.append(example);
            name.append(" — ");
            name.append(line.core);
            Some((name, line.core, line.max_mhz))
        },
    }
}

/// A part with a documented REV_ID is never taken for a GigaDevice one.
pub proof fn law_documented_revision_is_genuine(dev_id: u16, rev_id: u16)
    requires
        known_revs(dev_id) is Some ==> known_revs(dev_id)->0.contains(rev_id),
    ensures
        gd32_part(dev_id, rev_id) is None,
{
}

// ── The tables, entry by entry ──────────────────────────────────────────
/// Revision numbers that ST documents: those of the medium-density F1 line, of the
/// high-density one, of the connectivity and value lines, and of the low-density and
/// XL ones. Any other number on these devices is not ST's; of other devices nothing
/// is claimed. Of these lines four are mirrored by GigaDevice parts, and those alone
/// are ever taken for one.
pub proof fn law_documented_revisions(dev_id: u16, rev_id: u16)
    ensures
        ({
            let two = rev_id == 0x1000 || rev_id == 0x1001;
            let three = two || rev_id == 0x1003;
            let medium = rev_id == 0x0000 || rev_id == 0x2000 || rev_id == 0x2001 || rev_id
                == 0x2003;
            &&& dev_id == 0x410 ==> is_undocumented(dev_id, rev_id) == !medium
            &&& dev_id == 0x414 ==> is_undocumented(dev_id, rev_id) == !three
            &&& dev_id == 0x418 || dev_id == 0x420 || dev_id == 0x428 ==> is_undocumented(
                dev_id,
                rev_id,
            ) == !two
            &&& dev_id == 0x412 || dev_id == 0x430 ==> is_undocumented(dev_id, rev_id) == (rev_id
                != 0x1000)
            &&& dev_id != 0x410 && dev_id != 0x412 && dev_id != 0x414 && dev_id != 0x418 && dev_id
                != 0x420 && dev_id != 0x428 && dev_id != 0x430 ==> !is_undocumented(dev_id, rev_id)
                && known_revs(dev_id) is None
            &&& known_revs(dev_id) matches Some(revs) ==> (revs.contains(rev_id)
                <==> !is_undocumented(dev_id, rev_id))
            &&& dev_id == 0x410 ==> (gd32_part(dev_id, rev_id) is None <==> medium)
            &&& dev_id == 0x414 ==> (gd32_part(dev_id, rev_id) is None <==> three)
            &&& dev_id == 0x418 ==> (gd32_part(dev_id, rev_id) is None <==> two)
            &&& dev_id == 0x430 ==> (gd32_part(dev_id, rev_id) is None <==> rev_id == 0x1000)
            &&& dev_id != 0x410 && dev_id != 0x414 && dev_id != 0x418 && dev_id != 0x430
                ==> gd32_part(dev_id, rev_id) is None
        }),
{
    if let Some(revs) = known_revs(dev_id) {
        if revs.contains(rev_id) {
            let i = choose|i: int| 0 <= i < revs.len() && revs[i] == rev_id;
            assert(revs[i] == rev_id);
        }
        assert(revs.contains(revs[0]));
        if revs.len() > 1 {
            assert(revs.contains(revs[1]));
        }
        if revs.len() > 2 {
            assert(revs.contains(revs[2]));
        }
        if revs.len() > 3 {
            assert(revs.contains(revs[3]));
        }
    }
}

/// A recognised clone is of the GD32F105 line where it mirrors the connectivity line
/// and of the GD32F103 line otherwise, a Cortex-M3 at up to 108 MHz.
pub proof fn law_gd32_lines(dev_id: u16, rev_id: u16)
    ensures
        gd32_part(dev_id, rev_id) matches Some(line) ==> {
            &&& line.core@ == "Cortex-M3"@
            &&& line.max_mhz == 108
            &&& dev_id == 0x418 ==> line.family@ == "GD32F105"@
            &&& dev_id != 0x418 ==> line.family@ == "GD32F103"@
        },
{
}

/// The density letter is that of the largest standard size that the flash reaches; a
/// flash below the smallest has none.
pub proof fn law_density_is_the_largest_size_reached(kb: u32)
    ensures
        ({
            let d = density(Some(kb))@;
            &&& kb >= 512 ==> d == "xE"@
            &&& 384 <= kb < 512 ==> d == "xD"@
            &&& 256 <= kb < 384 ==> d == "xC"@
            &&& 128 <= kb < 256 ==> d == "xB"@
            &&& 64 <= kb < 128 ==> d == "x8"@
            &&& 32 <= kb < 64 ==> d == "x6"@
            &&& 16 <= kb < 32 ==> d == "x4"@
            &&& kb < 16 ==> d == ""@
            &&& density(None)@ == ""@
        }),
{
}

/// A clone is called by its line, its density and its maker; for the GD32F103 line an
/// example part of that density is named, which carries the density in its own name.
pub proof fn law_gd32_name(line: Gd32Line, kb: Option<u32>)
    ensures
        ({
            let name = gd32_name(line, kb);
            let head = line.family@ + density(kb)@ + " (GigaDevice)"@;
            let tail = " — "@ + line.core@;
            let f103 = line.family@ == "GD32F103"@;
            &&& !f103 || density(kb)@ == ""@ ==> name == head + tail
            &&& f103 && density(kb)@ == "xE"@ ==> name == head
                + " — e.g. GD32F103RET6 (64-pin, 512 KB)"@ + tail
            &&& f103 && density(kb)@ == "xD"@ ==> name == head + " — e.g. GD32F103RDT6 (384 KB)"@
                + tail
            &&& f103 && density(kb)@ == "xC"@ ==> name == head + " — e.g. GD32F103RCT6 (256 KB)"@
                + tail
            &&& f103 && density(kb)@ == "xB"@ ==> name == head + " — e.g. GD32F103CBT6 (128 KB)"@
                + tail
            &&& f103 && density(kb)@ == "x8"@ ==> name == head + " — e.g. GD32F103C8T6 (64 KB)"@
                + tail
            &&& f103 && density(kb)@ == "x6"@ ==> name == head + " — e.g. GD32F103C6T6 (32 KB)"@
                + tail
            &&& f103 && density(kb)@ == "x4"@ ==> name == head + " — e.g. GD32F103C4T6 (16 KB)"@
                + tail
        }),
{
    reveal_strlit("xE");
    reveal_strlit("xD");
    reveal_strlit("xC");
    reveal_strlit("xB");
    reveal_strlit("x8");
    reveal_strlit("x6");
    reveal_strlit("x4");
    reveal_strlit("");
    let head = line.family@ + density(kb)@ + " (GigaDevice)"@;
    let tail = " — "@ + line.core@;
    let middle = if line.family@ == "GD32F103"@ {
        density_example(kb)@
    } else {
        ""@
    };
    assert(gd32_name(line, kb) =~= head + middle + tail);
    assert(head + ""@ + tail =~= head + tail);
    let d = density(kb)@;
    assert(d.len() == 2 ==> d[1] == density(kb)@[1]);
    assert("xE"@[1] == 'E' && "xD"@[1] == 'D' && "xC"@[1] == 'C' && "xB"@[1] == 'B' && "x8"@[1]
        == '8' && "x6"@[1] == '6' && "x4"@[1] == '4');
}

/// Where each family keeps its flash size, its unique ID and its read protection, and
/// in which form the last one is.
pub proof fn law_family_registers(dev_id: u16)
    ensures
        ({
            let f = family(dev_id);
            &&& dev_id == 0x412 || dev_id == 0x410 || dev_id == 0x414 || dev_id == 0x418 || dev_id == 0x420 || dev_id == 0x428 || dev_id == 0x430 ==> f is Some && f->0.flash_size_addr == 0x1FFFF7E0 && f->0.uid_addr == 0x1FFFF7E8
                && f->0.rdp_addr == 0x4002201C && f->0.rdp_kind is Obr
            &&& dev_id == 0x440 || dev_id == 0x442 || dev_id == 0x444 || dev_id == 0x445 || dev_id == 0x448 || dev_id == 0x422 || dev_id == 0x432 || dev_id == 0x438 || dev_id == 0x439 || dev_id == 0x446 ==> f is Some && f->0.flash_size_addr == 0x1FFFF7CC && f->0.uid_addr == 0x1FFFF7AC
                && f->0.rdp_addr == 0x4002201C && f->0.rdp_kind is Obr
            &&& dev_id == 0x411 || dev_id == 0x413 || dev_id == 0x419 || dev_id == 0x423 || dev_id == 0x431 || dev_id == 0x433 || dev_id == 0x441 || dev_id == 0x421 || dev_id == 0x434 || dev_id == 0x458 || dev_id == 0x463 ==> f is Some && f->0.flash_size_addr == 0x1FFF7A22 && f->0.uid_addr == 0x1FFF7A10
                && f->0.rdp_addr == 0x40023C14 && f->0.rdp_kind is OptByte
            &&& dev_id == 0x449 || dev_id == 0x451 || dev_id == 0x452 ==> f is Some && f->0.flash_size_addr == 0x1FF0F442 && f->0.uid_addr == 0x1FF0F420
                && f->0.rdp_addr == 0x40023C14 && f->0.rdp_kind is OptByte
            &&& dev_id != 0x440 && dev_id != 0x442 && dev_id != 0x444 && dev_id != 0x445 && dev_id != 0x448 && dev_id != 0x412 && dev_id != 0x410 && dev_id != 0x414 && dev_id != 0x418 && dev_id != 0x420 && dev_id != 0x428 && dev_id != 0x430 && dev_id != 0x411 && dev_id != 0x422 && dev_id != 0x432 && dev_id != 0x438 && dev_id != 0x439 && dev_id != 0x446 && dev_id != 0x413 && dev_id != 0x419 && dev_id != 0x423 && dev_id != 0x431 && dev_id != 0x433 && dev_id != 0x441 && dev_id != 0x421 && dev_id != 0x434 && dev_id != 0x458 && dev_id != 0x463 && dev_id != 0x449 && dev_id != 0x451 && dev_id != 0x452 ==> f is None
        }),
{
}

/// Every device of the table is called by its own name, which ends in its core.
pub proof fn law_family_names()
    ensures
        family(0x440)->0.name@ == "STM32F030x8 / F05x — Cortex-M0"@,
        family(0x442)->0.name@ == "STM32F030xC / F09x — Cortex-M0"@,
        family(0x444)->0.name@ == "STM32F03x — Cortex-M0"@,
        family(0x445)->0.name@ == "STM32F04x — Cortex-M0"@,
        family(0x448)->0.name@ == "STM32F07x — Cortex-M0"@,
        family(0x412)->0.name@ == "STM32F1 low-density (F101/102/103) — Cortex-M3"@,
        family(0x410)->0.name@ == "STM32F1 medium-density (F101/102/103) — Cortex-M3"@,
        family(0x414)->0.name@ == "STM32F1 high-density (F101/103) — Cortex-M3"@,
        family(0x418)->0.name@ == "STM32F1 connectivity line (F105/107) — Cortex-M3"@,
        family(0x420)->0.name@ == "STM32F100 medium-density value line — Cortex-M3"@,
        family(0x428)->0.name@ == "STM32F100 high-density value line — Cortex-M3"@,
        family(0x430)->0.name@ == "STM32F1 XL-density (F101/103) — Cortex-M3"@,
        family(0x411)->0.name@ == "STM32F2 — Cortex-M3"@,
        family(0x422)->0.name@ == "STM32F302xB/C / F303xB/C / F358 — Cortex-M4F"@,
        family(0x432)->0.name@ == "STM32F373 / F378 — Cortex-M4F"@,
        family(0x438)->0.name@ == "STM32F303x4/6/8 / F334 / F328 — Cortex-M4F"@,
        family(0x439)->0.name@ == "STM32F301 / F302x6/8 / F318 — Cortex-M4F"@,
        family(0x446)->0.name@ == "STM32F302xD/E / F303xD/E / F398 — Cortex-M4F"@,
        family(0x413)->0.name@ == "STM32F405/407/415/417 — Cortex-M4F"@,
        family(0x419)->0.name@ == "STM32F42x/43x — Cortex-M4F"@,
        family(0x423)->0.name@ == "STM32F401xB/C — Cortex-M4F"@,
        family(0x431)->0.name@ == "STM32F411 — Cortex-M4F"@,
        family(0x433)->0.name@ == "STM32F401xD/E — Cortex-M4F"@,
        family(0x441)->0.name@ == "STM32F412 — Cortex-M4F"@,
        family(0x421)->0.name@ == "STM32F446 — Cortex-M4F"@,
        family(0x434)->0.name@ == "STM32F469/479 — Cortex-M4F"@,
        family(0x458)->0.name@ == "STM32F410 — Cortex-M4F"@,
        family(0x463)->0.name@ == "STM32F413/423 — Cortex-M4F"@,
        family(0x449)->0.name@ == "STM32F74x/75x — Cortex-M7"@,
        family(0x451)->0.name@ == "STM32F76x/77x — Cortex-M7"@,
        family(0x452)->0.name@ == "STM32F72x/73x — Cortex-M7"@,
{
}

} // verus!
