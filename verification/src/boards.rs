//! The boards that are known by their USB identity, and how each is probed.
use vstd::prelude::*;

verus! {

/// One avrdude connection attempt: an MCU paired with the bootloader
/// programmer that drives it, plus the sync baud rates to try (in order).
/// FT232R-class boards don't reveal which baud the bootloader uses, so
/// `bauds` may hold several candidates.
#[derive(Clone, Copy, Debug)]
pub struct AvrTarget {
    pub mcu: &'static str,
    pub programmer: &'static str,
    pub bauds: &'static [u32],
}

#[derive(Clone, Copy, Debug)]
pub enum ProbeKind {
    Espflash,
    /// Try each `AvrTarget` in order; the first that syncs wins. A board on a
    /// dedicated Arduino VID:PID passes exactly one target; a board behind a
    /// generic USB-UART bridge passes several, since the bridge can't reveal
    /// whether a Uno-class (STK500v1) or Mega-class (STK500v2) MCU is wired
    /// to it.
    Avrdude { targets: &'static [AvrTarget] },
    /// STM32 / GD32 system-memory UART bootloader probe (`stm32flash`).
    /// Requires the chip to be in bootloader mode (BOOT0=HIGH at reset);
    /// fails fast (~3s) when no chip responds, so safe to chain.
    Stm32Flash,
    /// STM32 USB DFU (DfuSe) bootloader probe via `dfu-util -l`. The ROM
    /// bootloader presents as native USB (VID:PID 0483:DF11), not a COM port,
    /// so this is read-only descriptor listing — alt settings + per-region
    /// memory layout (flash base/size, option bytes) — with no chip reset.
    Dfu,
    /// Read FTDI device descriptors via nusb (manufacturer / product /
    /// serial / bcdDevice chip variant / Windows driver binding). Read-only,
    /// no COM port, no chip reset — safe to chain before any serial probe.
    Ftdi,
    Picotool,
    Daplink,
    Pyocd,
    /// Identify the USB-visible ST-Link debug controller itself (layer 1) from
    /// its VID:PID and cached USB descriptors. This is deliberately
    /// non-invasive: it does not open the debug interface, issue SWD/JTAG
    /// commands, halt a target, or reset either MCU.
    Stlink,
    /// Downstream SWD target probe (layer 2). Reads identity, flash-size, UID,
    /// and read-protection registers. Never erases, unlocks, dumps, or writes
    /// flash.
    StlinkTarget,
    /// Identify a CMSIS-DAP debug probe itself (layer 1) — e.g. the RP2040-based
    /// Raspberry Pi Debug Probe / picoprobe — from VID:PID + USB descriptors.
    CmsisDap,
    /// Downstream SWD target read (layer 2) through a CMSIS-DAP probe, spoken
    /// natively over the CMSIS-DAP v2 bulk protocol via nusb. Read-only: brings
    /// up SWD and reads ID registers only; no halt, reset, erase, or write.
    CmsisDapTarget,
}

pub struct KnownBoard {
    pub vid: u16,
    pub pid: u16,
    pub name: &'static str,
    pub probes: &'static [ProbeKind],
}

// ── Models ──────────────────────────────────────────────────────────────
#[verifier::ext_equal]
pub struct TargetModel {
    pub mcu: &'static str,
    pub programmer: &'static str,
    pub bauds: Seq<u32>,
}

#[verifier::ext_equal]
pub enum ProbeModel {
    Espflash,
    Avrdude { targets: Seq<TargetModel> },
    Stm32Flash,
    Dfu,
    Ftdi,
    Picotool,
    Daplink,
    Pyocd,
    Stlink,
    StlinkTarget,
    CmsisDap,
    CmsisDapTarget,
}

#[verifier::ext_equal]
pub struct BoardModel {
    pub vid: u16,
    pub pid: u16,
    pub name: &'static str,
    pub probes: Seq<ProbeModel>,
}

impl View for AvrTarget {
    type V = TargetModel;

    open spec fn view(&self) -> TargetModel {
        TargetModel { mcu: self.mcu, programmer: self.programmer, bauds: self.bauds@ }
    }
}

pub open spec fn target_models(t: Seq<AvrTarget>) -> Seq<TargetModel> {
    Seq::new(t.len(), |i: int| t[i]@)
}

impl View for ProbeKind {
    type V = ProbeModel;

    open spec fn view(&self) -> ProbeModel {
        match *self {
            ProbeKind::Espflash => ProbeModel::Espflash,
            ProbeKind::Avrdude { targets } => ProbeModel::Avrdude {
                targets: target_models(targets@),
            },
            ProbeKind::Stm32Flash => ProbeModel::Stm32Flash,
            ProbeKind::Dfu => ProbeModel::Dfu,
            ProbeKind::Ftdi => ProbeModel::Ftdi,
            ProbeKind::Picotool => ProbeModel::Picotool,
            ProbeKind::Daplink => ProbeModel::Daplink,
            ProbeKind::Pyocd => ProbeModel::Pyocd,
            ProbeKind::Stlink => ProbeModel::Stlink,
            ProbeKind::StlinkTarget => ProbeModel::StlinkTarget,
            ProbeKind::CmsisDap => ProbeModel::CmsisDap,
            ProbeKind::CmsisDapTarget => ProbeModel::CmsisDapTarget,
        }
    }
}

pub open spec fn probe_models(p: Seq<ProbeKind>) -> Seq<ProbeModel> {
    Seq::new(p.len(), |i: int| p[i]@)
}

impl View for KnownBoard {
    type V = BoardModel;

    open spec fn view(&self) -> BoardModel {
        BoardModel {
            vid: self.vid,
            pid: self.pid,
            name: self.name,
            probes: probe_models(self.probes@),
        }
    }
}

// ── Kinds of probe ──────────────────────────────────────────────────────
pub open spec fn is_serial(p: ProbeModel) -> bool {
    p is Espflash || p is Avrdude || p is Stm32Flash
}

pub open spec fn tool_of(p: ProbeModel) -> &'static str {
    match p {
        ProbeModel::Espflash => "espflash",
        ProbeModel::Avrdude { .. } => "avrdude",
        ProbeModel::Stm32Flash => "stm32flash",
        ProbeModel::Dfu => "dfu-util",
        ProbeModel::Ftdi => "nusb",
        ProbeModel::Picotool => "picotool",
        ProbeModel::Daplink => "DETAILS.TXT",
        ProbeModel::Pyocd => "pyocd",
        ProbeModel::Stlink => "nusb (layer 1 only)",
        ProbeModel::StlinkTarget => "native SWD (layer 2)",
        ProbeModel::CmsisDap => "nusb (layer 1, CMSIS-DAP)",
        ProbeModel::CmsisDapTarget => "native CMSIS-DAP SWD (layer 2)",
    }
}

pub open spec fn label_of(p: ProbeModel) -> &'static str {
    match p {
        ProbeModel::Espflash => "ESP",
        ProbeModel::Avrdude { .. } => "AVR",
        ProbeModel::Stm32Flash => "STM32",
        ProbeModel::Dfu => "DFU",
        ProbeModel::Ftdi => "FTDI",
        ProbeModel::Picotool => "RP2",
        ProbeModel::Daplink | ProbeModel::CmsisDap => "DAP",
        ProbeModel::Pyocd => "SWD",
        ProbeModel::Stlink => "STL",
        ProbeModel::StlinkTarget | ProbeModel::CmsisDapTarget => "SWD2",
    }
}

impl ProbeKind {
    pub fn needs_serial_port(&self) -> (r: bool)
        ensures
            r == is_serial(self@),
    {
        match self {
            ProbeKind::Espflash | ProbeKind::Avrdude { .. } | ProbeKind::Stm32Flash => true,
            _ => false,
        }
    }

    pub fn tool_name(&self) -> (r: &'static str)
        ensures
            r == tool_of(self@),
    {
        match self {
            ProbeKind::Espflash => "espflash",
            ProbeKind::Avrdude { .. } => "avrdude",
            ProbeKind::Stm32Flash => "stm32flash",
            ProbeKind::Dfu => "dfu-util",
            ProbeKind::Ftdi => "nusb",
            ProbeKind::Picotool => "picotool",
            ProbeKind::Daplink => "DETAILS.TXT",
            ProbeKind::Pyocd => "pyocd",
            ProbeKind::Stlink => "nusb (layer 1 only)",
            ProbeKind::StlinkTarget => "native SWD (layer 2)",
            ProbeKind::CmsisDap => "nusb (layer 1, CMSIS-DAP)",
            ProbeKind::CmsisDapTarget => "native CMSIS-DAP SWD (layer 2)",
        }
    }

    /// Short tag shown in the "Probable boards detected" listing.
    pub fn label(&self) -> (r: &'static str)
        ensures
            r == label_of(self@),
    {
        match self {
            ProbeKind::Espflash => "ESP",
            ProbeKind::Avrdude { .. } => "AVR",
            ProbeKind::Stm32Flash => "STM32",
            ProbeKind::Dfu => "DFU",
            ProbeKind::Ftdi => "FTDI",
            ProbeKind::Picotool => "RP2",
            ProbeKind::Daplink => "DAP",
            ProbeKind::Pyocd => "SWD",
            ProbeKind::Stlink => "STL",
            ProbeKind::StlinkTarget => "SWD2",
            ProbeKind::CmsisDap => "DAP",
            ProbeKind::CmsisDapTarget => "SWD2",
        }
    }
}

// ── Pipelines ───────────────────────────────────────────────────────────
pub open spec fn uno(bauds: Seq<u32>) -> TargetModel {
    TargetModel { mcu: "atmega328p", programmer: "arduino", bauds }
}

pub open spec fn mega() -> TargetModel {
    TargetModel { mcu: "atmega2560", programmer: "wiring", bauds: seq![115200u32] }
}

pub open spec fn atmega32u4() -> TargetModel {
    TargetModel { mcu: "atmega32u4", programmer: "avr109", bauds: seq![57600u32] }
}

pub open spec fn avrdude(targets: Seq<TargetModel>) -> ProbeModel {
    ProbeModel::Avrdude { targets }
}

/// A generic USB-UART bridge (CH340, CP210x, FT2232/FT232H/FT231X) carries no
/// information about which MCU is wired to its TX/RX lines, so the probes go in
/// fail-fast order: espflash, stm32flash, and avrdude with both bootloader
/// dialects.
pub open spec fn bridge() -> Seq<ProbeModel> {
    seq![
        ProbeModel::Espflash,
        ProbeModel::Stm32Flash,
        avrdude(seq![uno(seq![115200u32, 57600u32]), mega()]),
    ]
}

/// The name and the probes that go with a USB identity.
pub open spec fn known(vid: u16, pid: u16) -> Option<(&'static str, Seq<ProbeModel>)> {
    match (vid, pid) {
        (0x2341, 0x0001) => Some(("Arduino Uno R1", seq![avrdude(seq![uno(seq![115200u32])])])),
        (0x2341, 0x0043) => Some(("Arduino Uno R3", seq![avrdude(seq![uno(seq![115200u32])])])),
        (0x2341, 0x0010) => Some(("Arduino Mega 2560", seq![avrdude(seq![mega()])])),
        (0x2341, 0x0042) => Some(("Arduino Mega 2560 R3", seq![avrdude(seq![mega()])])),
        (0x2341, 0x0044) => Some(("Arduino Mega ADK", seq![avrdude(seq![mega()])])),
        (0x2341, 0x8036) => Some(("Arduino Leonardo", seq![avrdude(seq![atmega32u4()])])),
        (0x2341, 0x8037) => Some(("Arduino Micro", seq![avrdude(seq![atmega32u4()])])),
        (0x0403, 0x6001) => Some(
            (
                "FT232R Arduino (ATmega328-class)",
                seq![ProbeModel::Ftdi, avrdude(seq![uno(seq![57600u32, 115200u32])])],
            ),
        ),
        (0x10c4, 0xea60) => Some(("CP2102/CP2102N", bridge())),
        (0x10c4, 0xea70) => Some(("CP2105", bridge())),
        (0x10c4, 0xea71) => Some(("CP2108", bridge())),
        (0x1a86, 0x7523) => Some(("CH340", bridge())),
        (0x1a86, 0x55d4) => Some(("CH9102", bridge())),
        (0x0403, 0x6010) => Some(("FT2232", bridge())),
        (0x0403, 0x6014) => Some(("FT232H", bridge())),
        (0x0403, 0x6015) => Some(("FT231X", bridge())),
        (0x303a, 0x1001) => Some(("ESP32 USB-Serial-JTAG", seq![ProbeModel::Espflash])),
        (0x303a, 0x4001) => Some(("ESP32 USB-OTG", seq![ProbeModel::Espflash])),
        (0x0483, 0xdf11) => Some(("STM32 DFU Bootloader (DfuSe)", seq![ProbeModel::Dfu])),
        (0x2e8a, 0x0003) => Some(("RP2040 BOOTSEL (Pi Pico)", seq![ProbeModel::Picotool])),
        (0x2e8a, 0x000f) => Some(("RP2350 BOOTSEL (Pi Pico 2)", seq![ProbeModel::Picotool])),
        (0x0d28, 0x0204) => Some(
            ("DAPLink (mbed CMSIS-DAP)", seq![ProbeModel::Daplink, ProbeModel::Pyocd]),
        ),
        (0x2e8a, 0x000c) => Some(
            (
                "Raspberry Pi Debug Probe (RP2040 CMSIS-DAP)",
                seq![ProbeModel::CmsisDap, ProbeModel::CmsisDapTarget],
            ),
        ),
        (0x2e8a, 0x0004) => Some(
            (
                "Picoprobe (RP2040 CMSIS-DAP)",
                seq![ProbeModel::CmsisDap, ProbeModel::CmsisDapTarget],
            ),
        ),
        (0x0483, 0x3748) => Some(
            (
                "ST-Link/V2 debug controller",
                seq![ProbeModel::Stlink, ProbeModel::StlinkTarget],
            ),
        ),
        (0x0483, 0x374b) => Some(
            (
                "ST-Link/V2-1 debug controller",
                seq![ProbeModel::Stlink, ProbeModel::StlinkTarget],
            ),
        ),
        (0x0483, 0x374e) | (0x0483, 0x374f) => Some(
            (
                "ST-Link/V3 debug controller",
                seq![ProbeModel::Stlink, ProbeModel::StlinkTarget],
            ),
        ),
        _ => None,
    }
}

/// The board that goes with a USB identity.
pub open spec fn board_at(vid: u16, pid: u16) -> Option<BoardModel> {
    match known(vid, pid) {
        Some((name, probes)) => Some(BoardModel { vid, pid, name, probes }),
        None => None,
    }
}

fn uno_pipeline() -> (p: &'static [ProbeKind])
    ensures
        probe_models(p@) == seq![avrdude(seq![uno(seq![115200u32])])],
{
    let p: &'static [ProbeKind] = &[ProbeKind::Avrdude {
        targets: &[AvrTarget { mcu: "atmega328p", programmer: "arduino", bauds: &[115200] }],
    }];
    assert(probe_models(p@) =~~= seq![avrdude(seq![uno(seq![115200u32])])]);
    p
}

fn mega_pipeline() -> (p: &'static [ProbeKind])
    ensures
        probe_models(p@) == seq![avrdude(seq![mega()])],
{
    let p: &'static [ProbeKind] = &[ProbeKind::Avrdude {
        targets: &[AvrTarget { mcu: "atmega2560", programmer: "wiring", bauds: &[115200] }],
    }];
    assert(probe_models(p@) =~~= seq![avrdude(seq![mega()])]);
    p
}

fn atmega32u4_pipeline() -> (p: &'static [ProbeKind])
    ensures
        probe_models(p@) == seq![avrdude(seq![atmega32u4()])],
{
    let p: &'static [ProbeKind] = &[ProbeKind::Avrdude {
        targets: &[AvrTarget { mcu: "atmega32u4", programmer: "avr109", bauds: &[57600] }],
    }];
    assert(probe_models(p@) =~~= seq![avrdude(seq![atmega32u4()])]);
    p
}

/// FT232R (0403:6001) is a bare USB-serial chip. Classic Arduinos that use it
/// (Nano, Duemilanove) speak the STK500v1 bootloader protocol, and the baud rate
/// varies by board age. The read-only descriptor probe goes first, so that
/// something is known even when no Arduino MCU is wired downstream.
fn ft232r_pipeline() -> (p: &'static [ProbeKind])
    ensures
        probe_models(p@) == seq![ProbeModel::Ftdi, avrdude(seq![uno(seq![57600u32, 115200u32])])],
{
    let p: &'static [ProbeKind] = &[
        ProbeKind::Ftdi,
        ProbeKind::Avrdude {
            targets: &[
                AvrTarget { mcu: "atmega328p", programmer: "arduino", bauds: &[57600, 115200] },
            ],
        },
    ];
    assert(probe_models(p@) =~~= seq![ProbeModel::Ftdi, avrdude(seq![uno(seq![57600u32, 115200u32])])]);
    p
}

/// 1. espflash — fast on real ESP via DTR/RTS auto-bootloader (~2s).
/// 2. stm32flash — needs user to manually pull BOOT0=HIGH + RESET, but fails
///    in ~3s when no STM32/GD32 responds.
/// 3. avrdude — slowest (multiple programmer+baud combos, ~10s when failing),
///    but the only way to detect Arduino-class boards. Tries both bootloader
///    dialects: STK500v1 ("arduino", Uno/Nano-class) and STK500v2 ("wiring",
///    Mega 2560).
///
/// The first serial probe that syncs ends the chain, so a real ESP never reaches
/// stm32flash; a real GD32 in bootloader never reaches avrdude.
fn bridge_pipeline() -> (p: &'static [ProbeKind])
    ensures
        probe_models(p@) == bridge(),
{
    let p: &'static [ProbeKind] = &[
        ProbeKind::Espflash,
        ProbeKind::Stm32Flash,
        ProbeKind::Avrdude {
            targets: &[
                // Bootloader baud varies by clone age: the modern 115200 first,
                // then the legacy 57600.
                AvrTarget { mcu: "atmega328p", programmer: "arduino", bauds: &[115200, 57600] },
                AvrTarget { mcu: "atmega2560", programmer: "wiring", bauds: &[115200] },
            ],
        },
    ];
    assert(probe_models(p@) =~~= bridge());
    p
}

fn esp_pipeline() -> (p: &'static [ProbeKind])
    ensures
        probe_models(p@) == seq![ProbeModel::Espflash],
{
    let p: &'static [ProbeKind] = &[ProbeKind::Espflash];
    assert(probe_models(p@) =~~= seq![ProbeModel::Espflash]);
    p
}

fn pico_pipeline() -> (p: &'static [ProbeKind])
    ensures
        probe_models(p@) == seq![ProbeModel::Picotool],
{
    let p: &'static [ProbeKind] = &[ProbeKind::Picotool];
    assert(probe_models(p@) =~~= seq![ProbeModel::Picotool]);
    p
}

fn dfu_pipeline() -> (p: &'static [ProbeKind])
    ensures
        probe_models(p@) == seq![ProbeModel::Dfu],
{
    let p: &'static [ProbeKind] = &[ProbeKind::Dfu];
    assert(probe_models(p@) =~~= seq![ProbeModel::Dfu]);
    p
}

/// `DETAILS.TXT` from the mass storage first, then pyocd for the chip on the
/// other end of the SWD lines (board database lookup; no chip reset).
fn dap_pipeline() -> (p: &'static [ProbeKind])
    ensures
        probe_models(p@) == seq![ProbeModel::Daplink, ProbeModel::Pyocd],
{
    let p: &'static [ProbeKind] = &[ProbeKind::Daplink, ProbeKind::Pyocd];
    assert(probe_models(p@) =~~= seq![ProbeModel::Daplink, ProbeModel::Pyocd]);
    p
}

fn cmsisdap_pipeline() -> (p: &'static [ProbeKind])
    ensures
        probe_models(p@) == seq![ProbeModel::CmsisDap, ProbeModel::CmsisDapTarget],
{
    let p: &'static [ProbeKind] = &[ProbeKind::CmsisDap, ProbeKind::CmsisDapTarget];
    assert(probe_models(p@) =~~= seq![ProbeModel::CmsisDap, ProbeModel::CmsisDapTarget]);
    p
}

fn stlink_pipeline() -> (p: &'static [ProbeKind])
    ensures
        probe_models(p@) == seq![ProbeModel::Stlink, ProbeModel::StlinkTarget],
{
    let p: &'static [ProbeKind] = &[ProbeKind::Stlink, ProbeKind::StlinkTarget];
    assert(probe_models(p@) =~~= seq![ProbeModel::Stlink, ProbeModel::StlinkTarget]);
    p
}

pub fn lookup_board(vid: u16, pid: u16) -> (r: Option<KnownBoard>)
    ensures
        match r {
            Some(b) => board_at(vid, pid) == Some(b@),
            None => board_at(vid, pid) is None,
        },
{
    let (name, probes) = match (vid, pid) {
        // ── Arduino official boards (probe via avrdude) ──
        (0x2341, 0x0001) => ("Arduino Uno R1", uno_pipeline()),
        (0x2341, 0x0043) => ("Arduino Uno R3", uno_pipeline()),
        (0x2341, 0x0010) => ("Arduino Mega 2560", mega_pipeline()),
        (0x2341, 0x0042) => ("Arduino Mega 2560 R3", mega_pipeline()),
        (0x2341, 0x0044) => ("Arduino Mega ADK", mega_pipeline()),
        (0x2341, 0x8036) => ("Arduino Leonardo", atmega32u4_pipeline()),
        (0x2341, 0x8037) => ("Arduino Micro", atmega32u4_pipeline()),
        // ── Classic Arduino behind a bare FTDI FT232R USB-UART bridge ──
        (0x0403, 0x6001) => ("FT232R Arduino (ATmega328-class)", ft232r_pipeline()),
        // ── Generic USB-UART bridges ──
        (0x10c4, 0xea60) => ("CP2102/CP2102N", bridge_pipeline()),
        (0x10c4, 0xea70) => ("CP2105", bridge_pipeline()),
        (0x10c4, 0xea71) => ("CP2108", bridge_pipeline()),
        (0x1a86, 0x7523) => ("CH340", bridge_pipeline()),
        (0x1a86, 0x55d4) => ("CH9102", bridge_pipeline()),
        (0x0403, 0x6010) => ("FT2232", bridge_pipeline()),
        (0x0403, 0x6014) => ("FT232H", bridge_pipeline()),
        (0x0403, 0x6015) => ("FT231X", bridge_pipeline()),
        // ── ESP32 native USB (the ESP silicon itself presents USB) ──
        (0x303a, 0x1001) => ("ESP32 USB-Serial-JTAG", esp_pipeline()),
        (0x303a, 0x4001) => ("ESP32 USB-OTG", esp_pipeline()),
        // ── STM32 system ROM USB DFU bootloader (DfuSe) (probe via dfu-util) ──
        (0x0483, 0xdf11) => ("STM32 DFU Bootloader (DfuSe)", dfu_pipeline()),
        // ── Raspberry Pi Pico (RP2040 / RP2350) (probe via picotool) ──
        (0x2e8a, 0x0003) => ("RP2040 BOOTSEL (Pi Pico)", pico_pipeline()),
        (0x2e8a, 0x000f) => ("RP2350 BOOTSEL (Pi Pico 2)", pico_pipeline()),
        // ── DAPLink-based boards (BBC micro:bit, NXP FRDM, etc.) ──
        (0x0d28, 0x0204) => ("DAPLink (mbed CMSIS-DAP)", dap_pipeline()),
        // ── RP2040-based CMSIS-DAP debug probes ──
        (0x2e8a, 0x000c) => ("Raspberry Pi Debug Probe (RP2040 CMSIS-DAP)", cmsisdap_pipeline()),
        (0x2e8a, 0x0004) => ("Picoprobe (RP2040 CMSIS-DAP)", cmsisdap_pipeline()),
        // ── ST-Link debug controllers ──
        (0x0483, 0x3748) => ("ST-Link/V2 debug controller", stlink_pipeline()),
        (0x0483, 0x374b) => ("ST-Link/V2-1 debug controller", stlink_pipeline()),
        (0x0483, 0x374e) | (0x0483, 0x374f) => ("ST-Link/V3 debug controller", stlink_pipeline()),
        _ => {
            return None;
        },
    };
    Some(KnownBoard { vid, pid, name, probes })
}

// ── The table, entry by entry ───────────────────────────────────────────
/// A target of avrdude: the chip, its bootloader dialect, and the baud rates in the order
/// they are tried.
pub open spec fn is_target(t: TargetModel, mcu: Seq<char>, programmer: Seq<char>, bauds: Seq<u32>) -> bool {
    t.mcu@ == mcu && t.programmer@ == programmer && t.bauds == bauds
}

/// Which boards are known, and which probes go with each, in their order. Any other USB
/// identity is no known board.
pub proof fn law_boards_and_their_probes(vid: u16, pid: u16)
    ensures
        ({
            let b = board_at(vid, pid);
            let p = b->0.probes;
            &&& b is Some ==> b->0.vid == vid && b->0.pid == pid
            &&& vid == 0x10c4 && pid == 0xea60
                || vid == 0x10c4 && pid == 0xea70
                || vid == 0x10c4 && pid == 0xea71
                || vid == 0x1a86 && pid == 0x7523
                || vid == 0x1a86 && pid == 0x55d4
                || vid == 0x0403 && pid == 0x6010
                || vid == 0x0403 && pid == 0x6014
                || vid == 0x0403 && pid == 0x6015
                ==> b is Some && p.len() == 3 && p[0] is Espflash && p[1] is Stm32Flash
                && p[2] is Avrdude && p[2]->targets.len() == 2 && is_target(
                p[2]->targets[0],
                "atmega328p"@,
                "arduino"@,
                seq![115200u32, 57600u32],
            ) && is_target(p[2]->targets[1], "atmega2560"@, "wiring"@, seq![115200u32])
            &&& vid == 0x2341 && pid == 0x0001
                || vid == 0x2341 && pid == 0x0043
                ==> b is Some && p.len() == 1 && p[0] is Avrdude && p[0]->targets.len() == 1
                && is_target(p[0]->targets[0], "atmega328p"@, "arduino"@, seq![115200u32])
            &&& vid == 0x2341 && pid == 0x0010
                || vid == 0x2341 && pid == 0x0042
                || vid == 0x2341 && pid == 0x0044
                ==> b is Some && p.len() == 1 && p[0] is Avrdude && p[0]->targets.len() == 1
                && is_target(p[0]->targets[0], "atmega2560"@, "wiring"@, seq![115200u32])
            &&& vid == 0x2341 && pid == 0x8036
                || vid == 0x2341 && pid == 0x8037
                ==> b is Some && p.len() == 1 && p[0] is Avrdude && p[0]->targets.len() == 1
                && is_target(p[0]->targets[0], "atmega32u4"@, "avr109"@, seq![57600u32])
            &&& vid == 0x0403 && pid == 0x6001 ==> b is Some && p.len() == 2 && p[0] is Ftdi && p[1] is Avrdude
                && p[1]->targets.len() == 1 && is_target(
                p[1]->targets[0],
                "atmega328p"@,
                "arduino"@,
                seq![57600u32, 115200u32],
            )
            &&& vid == 0x303a && pid == 0x1001
                || vid == 0x303a && pid == 0x4001
                ==> b is Some && p.len() == 1 && p[0] is Espflash
            &&& vid == 0x0483 && pid == 0xdf11 ==> b is Some && p.len() == 1 && p[0] is Dfu
            &&& vid == 0x2e8a && pid == 0x0003
                || vid == 0x2e8a && pid == 0x000f
                ==> b is Some && p.len() == 1 && p[0] is Picotool
            &&& vid == 0x0d28 && pid == 0x0204 ==> b is Some && p.len() == 2 && p[0] is Daplink && p[1] is Pyocd
            &&& vid == 0x2e8a && pid == 0x000c
                || vid == 0x2e8a && pid == 0x0004
                ==> b is Some && p.len() == 2 && p[0] is CmsisDap && p[1] is CmsisDapTarget
            &&& vid == 0x0483 && pid == 0x3748
                || vid == 0x0483 && pid == 0x374b
                || vid == 0x0483 && pid == 0x374e
                || vid == 0x0483 && pid == 0x374f
                ==> b is Some && p.len() == 2 && p[0] is Stlink && p[1] is StlinkTarget
            &&& !(vid == 0x10c4 && pid == 0xea60
                || vid == 0x10c4 && pid == 0xea70
                || vid == 0x10c4 && pid == 0xea71
                || vid == 0x1a86 && pid == 0x7523
                || vid == 0x1a86 && pid == 0x55d4
                || vid == 0x0403 && pid == 0x6010
                || vid == 0x0403 && pid == 0x6014
                || vid == 0x0403 && pid == 0x6015
                || vid == 0x2341 && pid == 0x0001
                || vid == 0x2341 && pid == 0x0043
                || vid == 0x2341 && pid == 0x0010
                || vid == 0x2341 && pid == 0x0042
                || vid == 0x2341 && pid == 0x0044
                || vid == 0x2341 && pid == 0x8036
                || vid == 0x2341 && pid == 0x8037
                || vid == 0x0403 && pid == 0x6001
                || vid == 0x303a && pid == 0x1001
                || vid == 0x303a && pid == 0x4001
                || vid == 0x0483 && pid == 0xdf11
                || vid == 0x2e8a && pid == 0x0003
                || vid == 0x2e8a && pid == 0x000f
                || vid == 0x0d28 && pid == 0x0204
                || vid == 0x2e8a && pid == 0x000c
                || vid == 0x2e8a && pid == 0x0004
                || vid == 0x0483 && pid == 0x3748
                || vid == 0x0483 && pid == 0x374b
                || vid == 0x0483 && pid == 0x374e
                || vid == 0x0483 && pid == 0x374f)
                ==> b is None
        }),
{
}

/// What each board is called.
pub proof fn law_board_names()
    ensures
        board_at(0x10c4, 0xea60)->0.name@ == "CP2102/CP2102N"@,
        board_at(0x10c4, 0xea70)->0.name@ == "CP2105"@,
        board_at(0x10c4, 0xea71)->0.name@ == "CP2108"@,
        board_at(0x1a86, 0x7523)->0.name@ == "CH340"@,
        board_at(0x1a86, 0x55d4)->0.name@ == "CH9102"@,
        board_at(0x0403, 0x6010)->0.name@ == "FT2232"@,
        board_at(0x0403, 0x6014)->0.name@ == "FT232H"@,
        board_at(0x0403, 0x6015)->0.name@ == "FT231X"@,
        board_at(0x2341, 0x0001)->0.name@ == "Arduino Uno R1"@,
        board_at(0x2341, 0x0043)->0.name@ == "Arduino Uno R3"@,
        board_at(0x2341, 0x0010)->0.name@ == "Arduino Mega 2560"@,
        board_at(0x2341, 0x0042)->0.name@ == "Arduino Mega 2560 R3"@,
        board_at(0x2341, 0x0044)->0.name@ == "Arduino Mega ADK"@,
        board_at(0x2341, 0x8036)->0.name@ == "Arduino Leonardo"@,
        board_at(0x2341, 0x8037)->0.name@ == "Arduino Micro"@,
        board_at(0x0403, 0x6001)->0.name@ == "FT232R Arduino (ATmega328-class)"@,
        board_at(0x303a, 0x1001)->0.name@ == "ESP32 USB-Serial-JTAG"@,
        board_at(0x303a, 0x4001)->0.name@ == "ESP32 USB-OTG"@,
        board_at(0x0483, 0xdf11)->0.name@ == "STM32 DFU Bootloader (DfuSe)"@,
        board_at(0x2e8a, 0x0003)->0.name@ == "RP2040 BOOTSEL (Pi Pico)"@,
        board_at(0x2e8a, 0x000f)->0.name@ == "RP2350 BOOTSEL (Pi Pico 2)"@,
        board_at(0x0d28, 0x0204)->0.name@ == "DAPLink (mbed CMSIS-DAP)"@,
        board_at(0x2e8a, 0x000c)->0.name@ == "Raspberry Pi Debug Probe (RP2040 CMSIS-DAP)"@,
        board_at(0x2e8a, 0x0004)->0.name@ == "Picoprobe (RP2040 CMSIS-DAP)"@,
        board_at(0x0483, 0x3748)->0.name@ == "ST-Link/V2 debug controller"@,
        board_at(0x0483, 0x374b)->0.name@ == "ST-Link/V2-1 debug controller"@,
        board_at(0x0483, 0x374e)->0.name@ == "ST-Link/V3 debug controller"@,
        board_at(0x0483, 0x374f)->0.name@ == "ST-Link/V3 debug controller"@,
{
}

/// What each kind of probe asks, how it is tagged, and that exactly the three serial
/// bootloader tools need a port.
pub proof fn law_kinds_of_probe(p: ProbeModel)
    ensures
        is_serial(p) <==> tool_of(p)@ == "espflash"@ || tool_of(p)@ == "stm32flash"@ || tool_of(p)@
            == "avrdude"@,
        p is Espflash ==> tool_of(p)@ == "espflash"@ && label_of(p)@ == "ESP"@,
        p is Avrdude ==> tool_of(p)@ == "avrdude"@ && label_of(p)@ == "AVR"@,
        p is Stm32Flash ==> tool_of(p)@ == "stm32flash"@ && label_of(p)@ == "STM32"@,
        p is Dfu ==> tool_of(p)@ == "dfu-util"@ && label_of(p)@ == "DFU"@,
        p is Ftdi ==> tool_of(p)@ == "nusb"@ && label_of(p)@ == "FTDI"@,
        p is Picotool ==> tool_of(p)@ == "picotool"@ && label_of(p)@ == "RP2"@,
        p is Daplink ==> tool_of(p)@ == "DETAILS.TXT"@ && label_of(p)@ == "DAP"@,
        p is Pyocd ==> tool_of(p)@ == "pyocd"@ && label_of(p)@ == "SWD"@,
        p is Stlink ==> tool_of(p)@ == "nusb (layer 1 only)"@ && label_of(p)@ == "STL"@,
        p is StlinkTarget ==> tool_of(p)@ == "native SWD (layer 2)"@ && label_of(p)@ == "SWD2"@,
        p is CmsisDap ==> tool_of(p)@ == "nusb (layer 1, CMSIS-DAP)"@ && label_of(p)@ == "DAP"@,
        p is CmsisDapTarget ==> tool_of(p)@ == "native CMSIS-DAP SWD (layer 2)"@ && label_of(p)@
            == "SWD2"@,
{
    reveal_strlit("espflash");
    reveal_strlit("stm32flash");
    reveal_strlit("avrdude");
    reveal_strlit("dfu-util");
    reveal_strlit("nusb");
    reveal_strlit("picotool");
    reveal_strlit("DETAILS.TXT");
    reveal_strlit("pyocd");
    reveal_strlit("nusb (layer 1 only)");
    reveal_strlit("native SWD (layer 2)");
    reveal_strlit("nusb (layer 1, CMSIS-DAP)");
    reveal_strlit("native CMSIS-DAP SWD (layer 2)");
    let t = tool_of(p)@;
    assert(t[0] == 'e' <==> p is Espflash);
    assert(t[0] == 's' <==> p is Stm32Flash);
    assert(t[0] == 'a' <==> p is Avrdude);
}

} // verus!
