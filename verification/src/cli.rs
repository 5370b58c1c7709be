//! The command line.
use vstd::prelude::*;
use vstd::string::*;
use crate::text::{same_str, texts};

verus! {

/// The sub-command selected by the command-line flags.
#[derive(Debug)]
pub enum Cli {
    Help,
    Version,
    ListTools,
    DriverStatus,
    InstallDriver { confirm: bool },
    McuAliveNative,
    McuAlive,
    Install { tool: String },
    ListUsb { probe: bool },
}

pub enum CliView {
    Help,
    Version,
    ListTools,
    DriverStatus,
    InstallDriver { confirm: bool },
    McuAliveNative,
    McuAlive,
    Install { tool: Seq<char> },
    ListUsb { probe: bool },
}

impl View for Cli {
    type V = CliView;

    open spec fn view(&self) -> CliView {
        match *self {
            Cli::Help => CliView::Help,
            Cli::Version => CliView::Version,
            Cli::ListTools => CliView::ListTools,
            Cli::DriverStatus => CliView::DriverStatus,
            Cli::InstallDriver { confirm } => CliView::InstallDriver { confirm },
            Cli::McuAliveNative => CliView::McuAliveNative,
            Cli::McuAlive => CliView::McuAlive,
            Cli::Install { tool } => CliView::Install { tool: tool@ },
            Cli::ListUsb { probe } => CliView::ListUsb { probe },
        }
    }
}

/// The first place of a flag among the arguments from `i` on, or the end.
pub open spec fn place_of(args: Seq<Seq<char>>, flag: Seq<char>, i: int) -> int
    decreases args.len() - i,
{
    if 0 <= i < args.len() && args[i] != flag {
        place_of(args, flag, i + 1)
    } else {
        i
    }
}

pub open spec fn has_flag(args: Seq<Seq<char>>, flag: Seq<char>) -> bool {
    place_of(args, flag, 0) < args.len()
}

/// What the arguments ask for. Earlier flags win, whatever their order on the
/// command line: help goes before everything. Only `--install` can be wrong,
/// without a tool behind it.
pub open spec fn asked(args: Seq<Seq<char>>) -> Result<CliView, Seq<char>> {
    if has_flag(args, "-h"@) || has_flag(args, "--help"@) {
        Ok(CliView::Help)
    } else if has_flag(args, "-V"@) || has_flag(args, "--version"@) {
        Ok(CliView::Version)
    } else if has_flag(args, "--list-tools"@) {
        Ok(CliView::ListTools)
    } else if has_flag(args, "--driver-status"@) {
        Ok(CliView::DriverStatus)
    } else if has_flag(args, "--install-driver"@) {
        Ok(
            CliView::InstallDriver {
                confirm: has_flag(args, "--confirm"@) || has_flag(args, "--yes"@) || has_flag(
                    args,
                    "-y"@,
                ),
            },
        )
    } else if has_flag(args, "--mcu-alive-native"@) {
        Ok(CliView::McuAliveNative)
    } else if has_flag(args, "--mcu-alive"@) {
        Ok(CliView::McuAlive)
    } else if has_flag(args, "--install"@) {
        let at = place_of(args, "--install"@, 0);
        if at + 1 < args.len() && args[at + 1].len() > 0 {
            Ok(CliView::Install { tool: args[at + 1] })
        } else {
            Err("--install requires a tool name. Try `--list-tools`."@)
        }
    } else {
        Ok(
            CliView::ListUsb {
                probe: has_flag(args, "--probe"@) || has_flag(args, "--probe-esp"@) || has_flag(
                    args,
                    "--probe-arduino"@,
                ) || has_flag(args, "-p"@),
            },
        )
    }
}

fn place(args: &[String], flag: &str) -> (r: usize)
    ensures
        r == place_of(texts(args@), flag@, 0),
        r <= args@.len(),
{
    let mut i: usize = 0;
    while i < args.len()
        invariant
            i <= args@.len(),
            place_of(texts(args@), flag@, 0) == place_of(texts(args@), flag@, i as int),
        decreases args.len() - i,
    {
        assert(texts(args@)[i as int] == args@[i as int]@);
        if same_str(args[i].as_str(), flag) {
            return i;
        }
        i += 1;
    }
    i
}

fn given(args: &[String], flag: &str) -> (r: bool)
    ensures
        r == has_flag(texts(args@), flag@),
{
    place(args, flag) < args.len()
}

/// Map raw args to a `Cli`. Earlier checks win, preserving the historical
/// flag precedence (e.g. `--help` overrides everything).
pub fn parse(args: &[String]) -> (r: Result<Cli, String>)
    ensures
        match r {
            Ok(cli) => asked(texts(args@)) == Ok::<CliView, Seq<char>>(cli@),
            Err(e) => asked(texts(args@)) == Err::<CliView, Seq<char>>(e@),
        },
{
    if given(args, "-h") || given(args, "--help") {
        return Ok(Cli::Help);
    }
    if given(args, "-V") || given(args, "--version") {
        return Ok(Cli::Version);
    }
    if given(args, "--list-tools") {
        return Ok(Cli::ListTools);
    }
    if given(args, "--driver-status") {
        return Ok(Cli::DriverStatus);
    }
    if given(args, "--install-driver") {
        let confirm = given(args, "--confirm") || given(args, "--yes") || given(args, "-y");
        return Ok(Cli::InstallDriver { confirm });
    }
    if given(args, "--mcu-alive-native") {
        return Ok(Cli::McuAliveNative);
    }
    if given(args, "--mcu-alive") {
        return Ok(Cli::McuAlive);
    }
    let at = place(args, "--install");
    if at < args.len() {
        if args.len() - at > 1 && !args[at + 1].as_str().is_empty() {
            assert(texts(args@)[at + 1] == args@[at + 1]@);
            return Ok(Cli::Install { tool: args[at + 1].clone() });
        }
        return Err("--install requires a tool name. Try `--list-tools`.".to_string());
    }
    let probe = given(args, "--probe") || given(args, "--probe-esp") || given(
        args,
        "--probe-arduino",
    ) || given(args, "-p");
    Ok(Cli::ListUsb { probe })
}

/// A driver is installed for real only where the user confirmed it.
pub proof fn law_install_needs_confirmation(args: Seq<Seq<char>>)
    requires
        asked(args) == Ok::<CliView, Seq<char>>(CliView::InstallDriver { confirm: true }),
    ensures
        has_flag(args, "--install-driver"@),
        has_flag(args, "--confirm"@) || has_flag(args, "--yes"@) || has_flag(args, "-y"@),
{
}

/// Help goes before everything else.
pub proof fn law_help_overrides_everything(args: Seq<Seq<char>>)
    requires
        has_flag(args, "--help"@) || has_flag(args, "-h"@),
    ensures
        asked(args) == Ok::<CliView, Seq<char>>(CliView::Help),
{
}

/// The help text.
pub const HELP: &'static str = "usbipd-rs — USB device inspector with chip-level board probing\n\
\n\
USAGE:\n\
\x20   usbipd-rs                       List connected USB devices and detect probable boards.\n\
\x20   usbipd-rs --probe               List, then probe each detected board (chip-level info).\n\
\x20                                   Bridge boards (CH340/CP210x/FT232) probe in fail-fast\n\
\x20                                   order: espflash → stm32flash → avrdude. For an ST-Link\n\
\x20                                   it also auto-detects a downstream SWD/JTAG target and\n\
\x20                                   shows a second layer when one is present (read-only).\n\
\x20   usbipd-rs --mcu-alive           Minimal read-only ST-Link/SWD target-alive test.\n\
\x20   usbipd-rs --mcu-alive-native    Same, but native nusb (no probe-rs/pyocd needed).\n\
\x20   usbipd-rs --driver-status       Diagnose Windows USB interface driver bindings.\n\
\x20   usbipd-rs --install-driver      Dry-run (or --confirm) bind the ST-Link MI_00 driver.\n\
\x20   usbipd-rs --list-tools          Show install status of all probe-tool dependencies.\n\
\x20   usbipd-rs --install <ID>        Download/install one tool by its ID.\n\
\x20   usbipd-rs --help                Show this help.\n\
\x20   usbipd-rs --version             Print the program version and exit.\n\
\n\
OPTIONS:\n\
\x20   -p, --probe                Probe each detected board with the matching chip-level\n\
\x20                              tool (espflash, stm32flash, avrdude, picotool, DAPLink,\n\
\x20                              pyocd). Aliases: --probe-esp, --probe-arduino. For an\n\
\x20                              ST-Link it automatically adds a read-only second layer:\n\
\x20                              it enters SWD natively (nusb), and if a target MCU\n\
\x20                              answers it prints the target identity; if none answers\n\
\x20                              it reports a one-layer result. No chip reset/halt.\n\
\x20       --mcu-alive            Minimal ST-Link test: verify USB probe, open debug\n\
\x20                              interface, then perform a 100 kHz SWD discovery scan.\n\
\x20                              Does not request target reset, halt, flash read/write,\n\
\x20                              erase, or unlock.\n\
\x20       --mcu-alive-native     Same goal with NO external tool: speaks the ST-Link\n\
\x20                              bulk protocol directly via nusb (enter SWD, read\n\
\x20                              DPIDR / CPUID / DBGMCU IDCODE + flash/UID/RDP, all\n\
\x20                              read-only). On Windows needs only WinUSB on MI_00\n\
\x20                              (--install-driver) — no probe-rs, pyocd, or vendor\n\
\x20                              driver. If MI_00 has no driver it reports the exact\n\
\x20                              transfer boundary instead of guessing. STM32 models\n\
\x20                              are identified from a built-in family table, which\n\
\x20                              optional etc/chips/*.chip files extend or override\n\
\x20                              (a matching .chip wins).\n\
\x20       --driver-status        Windows: show every present USB interface's service,\n\
\x20                              INF/provider, problem code, classified issue, safe next\n\
\x20                              action, and local/driver-store INF availability.\n\
\x20       --install-driver       Windows: install the bundled WinUSB INF for the ST-Link\n\
\x20                              MI_00 debug interface ONLY. Dry-run by default (shows the\n\
\x20                              exact interface and pnputil command); pass --confirm\n\
\x20                              (alias -y) in an Administrator shell to apply, then it\n\
\x20                              re-checks the node recovered without a reboot.\n\
\x20       --list-tools           List installable tools, their OS provider (cargo / pip /\n\
\x20                              brew / apt / download / manual) and install status.\n\
\x20       --install <ID>         Install one tool by ID. See --list-tools for IDs.\n\
\x20   -h, --help                 Show this help.\n\
\x20   -V, --version              Print version (from Cargo.toml) and exit.\n\
\n\
WHAT GETS DETECTED (VID:PID → board → probe):\n\
\x20   10C4:EA60 / EA70 / EA71      Silabs CP210x bridge       → ESP / STM32 / AVR (espflash → stm32flash → avrdude)\n\
\x20   1A86:7523 / 55D4              WCH CH340 / CH9102         → ESP / STM32 / AVR (espflash → stm32flash → avrdude)\n\
\x20   0403:6010 / 6014 / 6015       FTDI FT2232 / FT232H / X   → ESP / STM32 / AVR (espflash → stm32flash → avrdude)\n\
\x20   0403:6001                     FTDI FT232R (Arduino)      → FTDI+AVR (nusb descriptors → avrdude)\n\
\x20   303A:1001 / 4001              ESP32 native USB-Serial    → ESP32 (espflash)\n\
\x20   0483:DF11                     STM32 USB DFU bootloader   → STM32 (dfu-util, DfuSe memory map)\n\
\x20   2341:0001 / 0043              Arduino Uno R1 / R3        → AVR  (avrdude)\n\
\x20   2341:0010 / 0042 / 0044       Arduino Mega 2560 / ADK    → AVR  (avrdude)\n\
\x20   2341:8036 / 8037              Arduino Leonardo / Micro   → AVR  (avrdude)\n\
\x20   2E8A:0003                     RP2040 BOOTSEL (Pi Pico)   → RP2  (picotool)\n\
\x20   2E8A:000F                     RP2350 BOOTSEL (Pi Pico 2) → RP2  (picotool)\n\
\x20   2E8A:000C / 0004              RPi Debug Probe / picoprobe → DAP (RP2040 layer 1 + native CMSIS-DAP layer 2)\n\
\x20   0D28:0204                     mbed CMSIS-DAP / DAPLink   → DAP+SWD (DETAILS.TXT + pyocd)\n\
\x20   0483:3748 / 374B / 374E / 374F ST-Link V2 / V2-1 / V3    → STL (STM32 layer 1 + native ST-Link SWD layer 2)\n\
\n\
INSTALLABLE TOOLS (see --list-tools for live status):\n\
\x20   espflash    cargo install espflash         ESP chip identification & flashing\n\
\x20   pyocd       pip install pyocd              CMSIS-DAP / DAPLink target chip ID\n\
\x20   picotool    GitHub release zip             Pi Pico (RP2040 / RP2350) inspection\n\
\x20   avrdude     GitHub release zip / brew /    Arduino (ATmega328P / 328PB /\n\
\x20               apt-get                        2560 / 32U4) chip ID & flashing\n\
\x20   stm32flash  bundled zip (windows-driver/)  STM32 / GD32 UART-bootloader chip ID\n\
\x20                                              (e.g. GD32F103RET6 behind a CH340)\n\
\x20   dfu-util    brew / apt / manual (Win)      STM32 USB DFU (0483:DF11) memory-map ID\n\
\x20   ravedude    cargo install ravedude         avr-hal `cargo run` runner (Rust AVR)\n\
\x20   arduino-cli download (Win/Linux) /         Arduino core manager — bundles avrdude\n\
\x20               brew (macOS)                   via `core install arduino:avr`, etc.\n\
\x20   zadig       libwdi GitHub release          Win-only: replace USB driver → WinUSB\n\
\x20   cp210x      silabs.com universal driver    Win-only: CP2102/CP2104 VCP driver\n\
\x20   ch340       wch-ic.com CH341SER.EXE        Win-only: CH340/CH341 USB-Serial driver\n\
\x20   ftdi        ftdichip.com CDM (manual)      Win-only: FTDI FT232R VCP driver\n\
\n\
EXAMPLES:\n\
\x20   # Listing only — no chip reset, safe to run any time\n\
\x20   usbipd-rs\n\
\n\
\x20   # Full probe — chip type, revision, flash size, MAC, etc. For an ST-Link it\n\
\x20   # auto-detects and shows the downstream SWD target (read-only) when present.\n\
\x20   usbipd-rs --probe\n\
\n\
\x20   # Minimal test that the target MCU responds through ST-Link/SWD\n\
\x20   usbipd-rs --mcu-alive\n\
\n\
\x20   # Prove USB hardware enumeration and diagnose missing/broken Windows drivers\n\
\x20   usbipd-rs --driver-status\n\
\n\
\x20   # Preview exactly what an ST-Link MI_00 driver install would change (no writes)\n\
\x20   usbipd-rs --install-driver\n\
\n\
\x20   # Apply it (Administrator shell), then auto-verify recovery without reboot\n\
\x20   usbipd-rs --install-driver --confirm\n\
\n\
\x20   # Install picotool from upstream Raspberry Pi release\n\
\x20   usbipd-rs --install picotool\n\
\n\
\x20   # Install pyocd via pip (needed for DAPLink target identification)\n\
\x20   usbipd-rs --install pyocd\n\
\n\
\x20   # Download Zadig + see manual driver-replacement steps for Pi Pico BOOTSEL\n\
\x20   usbipd-rs --install zadig\n\
\n\
NOTES:\n\
\x20   * --probe's ST-Link layer-2 step is read-only (native SWD over nusb): it\n\
\x20     enters SWD and reads ID registers only — no halt, reset, erase, or write.\n\
\x20     On Windows it needs WinUSB on MI_00 (see --install-driver); without it the\n\
\x20     layer-2 line just reports the missing binding.\n\
\x20   * stm32flash probing requires the chip in system bootloader mode\n\
\x20     (BOOT0=HIGH at reset). CH340/CP210x boards typically don't wire DTR/RTS\n\
\x20     to BOOT0, so the probe can't trigger bootloader entry automatically — if\n\
\x20     you want stm32flash to identify a GD32/STM32, pull BOOT0 HIGH and press\n\
\x20     RESET before running --probe.\n\
\x20   * --install caches downloads under <project>/windows-driver/ (Windows) or\n\
\x20     <project>/tools/ (macOS/Linux). Existing files are reused — delete to\n\
\x20     force re-download.\n\
\x20   * Pi Pico (BOOTSEL) on Windows additionally needs a WinUSB driver swap via\n\
\x20     Zadig. Run `usbipd-rs --install zadig` and follow the printed steps.\n\
\x20   * macOS / Linux ship CP210x and CH340 kernel modules; only Windows needs\n\
\x20     those installers.\n\
\n\
DATA SOURCES:\n\
\x20   USB enumeration   nusb (cross-platform native USB enumeration)\n\
\x20   COM-port mapping  serialport crate\n\
\x20   Bundled binaries  windows-driver/picotool/, windows-driver/avrdude/, ...\n\
";

proof fn lemma_place(args: Seq<Seq<char>>, flag: Seq<char>, i: int)
    requires
        0 <= i <= args.len(),
    ensures
        i <= place_of(args, flag, i) <= args.len(),
        forall|k: int| i <= k < place_of(args, flag, i) ==> #[trigger] args[k] != flag,
        place_of(args, flag, i) < args.len() ==> args[place_of(args, flag, i)] == flag,
    decreases args.len() - i,
{
    if i < args.len() && args[i] != flag {
        lemma_place(args, flag, i + 1);
    }
}

/// A flag is given where it is one of the arguments, at whatever place.
pub proof fn law_flag_is_given_anywhere(args: Seq<Seq<char>>, flag: Seq<char>)
    ensures
        has_flag(args, flag) <==> args.contains(flag),
{
    lemma_place(args, flag, 0);
    if args.contains(flag) {
        let k = choose|k: int| 0 <= k < args.len() && args[k] == flag;
        assert(args[k] == flag);
    }
}

/// Which command the arguments ask for: each flag has its command, and of several flags
/// the one named first here wins. Without any of them the devices are listed.
pub proof fn law_flags_and_their_commands(args: Seq<Seq<char>>)
    ensures
        ({
            let help = args.contains("-h"@) || args.contains("--help"@);
            let version = args.contains("-V"@) || args.contains("--version"@);
            let tools = args.contains("--list-tools"@);
            let status = args.contains("--driver-status"@);
            let driver = args.contains("--install-driver"@);
            let native = args.contains("--mcu-alive-native"@);
            let alive = args.contains("--mcu-alive"@);
            let install = args.contains("--install"@);
            let sure = args.contains("--confirm"@) || args.contains("--yes"@) || args.contains(
                "-y"@,
            );
            let probe = args.contains("--probe"@) || args.contains("--probe-esp"@) || args.contains(
                "--probe-arduino"@,
            ) || args.contains("-p"@);
            let r = asked(args);
            &&& help <==> r == Ok::<CliView, Seq<char>>(CliView::Help)
            &&& version && !help <==> r == Ok::<CliView, Seq<char>>(CliView::Version)
            &&& tools && !help && !version <==> r == Ok::<CliView, Seq<char>>(CliView::ListTools)
            &&& status && !help && !version && !tools <==> r == Ok::<CliView, Seq<char>>(
                CliView::DriverStatus,
            )
            &&& driver && !help && !version && !tools && !status ==> r == Ok::<CliView, Seq<char>>(
                CliView::InstallDriver { confirm: sure },
            )
            &&& native && !help && !version && !tools && !status && !driver <==> r == Ok::<
                CliView,
                Seq<char>,
            >(CliView::McuAliveNative)
            &&& alive && !help && !version && !tools && !status && !driver && !native <==> r
                == Ok::<CliView, Seq<char>>(CliView::McuAlive)
            &&& !help && !version && !tools && !status && !driver && !native && !alive && !install
                ==> r == Ok::<CliView, Seq<char>>(CliView::ListUsb { probe })
            &&& r is Err ==> install
        }),
{
    law_flag_is_given_anywhere(args, "-h"@);
    law_flag_is_given_anywhere(args, "--help"@);
    law_flag_is_given_anywhere(args, "-V"@);
    law_flag_is_given_anywhere(args, "--version"@);
    law_flag_is_given_anywhere(args, "--list-tools"@);
    law_flag_is_given_anywhere(args, "--driver-status"@);
    law_flag_is_given_anywhere(args, "--install-driver"@);
    law_flag_is_given_anywhere(args, "--mcu-alive-native"@);
    law_flag_is_given_anywhere(args, "--mcu-alive"@);
    law_flag_is_given_anywhere(args, "--install"@);
    law_flag_is_given_anywhere(args, "--confirm"@);
    law_flag_is_given_anywhere(args, "--yes"@);
    law_flag_is_given_anywhere(args, "-y"@);
    law_flag_is_given_anywhere(args, "--probe"@);
    law_flag_is_given_anywhere(args, "--probe-esp"@);
    law_flag_is_given_anywhere(args, "--probe-arduino"@);
    law_flag_is_given_anywhere(args, "-p"@);
}

/// The tool to install is the argument right behind the first `--install`; without one,
/// or with an empty one, the request is refused.
pub proof fn law_tool_stands_behind_install(
    before: Seq<Seq<char>>,
    tool: Seq<char>,
    after: Seq<Seq<char>>,
)
    requires
        ({
            let all = before + seq!["--install"@, tool] + after;
            &&& !all.contains("-h"@) && !all.contains("--help"@) && !all.contains("-V"@)
                && !all.contains("--version"@) && !all.contains("--list-tools"@)
            &&& !all.contains("--driver-status"@) && !all.contains("--install-driver"@)
            &&& !all.contains("--mcu-alive-native"@) && !all.contains("--mcu-alive"@)
        }),
        !before.contains("--install"@),
    ensures
        tool.len() > 0 ==> asked(before + seq!["--install"@, tool] + after) == Ok::<
            CliView,
            Seq<char>,
        >(CliView::Install { tool }),
        tool.len() == 0 ==> asked(before + seq!["--install"@, tool] + after) == Err::<
            CliView,
            Seq<char>,
        >("--install requires a tool name. Try `--list-tools`."@),
        asked(before.push("--install"@)) == Err::<CliView, Seq<char>>(
            "--install requires a tool name. Try `--list-tools`."@,
        ),
{
    let all = before + seq!["--install"@, tool] + after;
    let short = before.push("--install"@);
    assert(all.take(before.len() as int) =~= before);
    assert(short.take(before.len() as int) =~= before);
    lemma_first_install(before, all);
    lemma_first_install(before, short);
    assert(all[before.len() as int + 1] == tool);
    lemma_not_in_beginning(all, short, "-h"@);
    lemma_not_in_beginning(all, short, "--help"@);
    lemma_not_in_beginning(all, short, "-V"@);
    lemma_not_in_beginning(all, short, "--version"@);
    lemma_not_in_beginning(all, short, "--list-tools"@);
    lemma_not_in_beginning(all, short, "--driver-status"@);
    lemma_not_in_beginning(all, short, "--install-driver"@);
    lemma_not_in_beginning(all, short, "--mcu-alive-native"@);
    lemma_not_in_beginning(all, short, "--mcu-alive"@);
}

proof fn lemma_first_install(before: Seq<Seq<char>>, all: Seq<Seq<char>>)
    requires
        !before.contains("--install"@),
        all.len() > before.len(),
        all.take(before.len() as int) == before,
        all[before.len() as int] == "--install"@,
    ensures
        place_of(all, "--install"@, 0) == before.len(),
{
    lemma_place(all, "--install"@, 0);
    let at = place_of(all, "--install"@, 0);
    if at < before.len() {
        assert(all.take(before.len() as int)[at] == all[at]);
        assert(before[at] == "--install"@);
    }
}

proof fn lemma_not_in_beginning(all: Seq<Seq<char>>, short: Seq<Seq<char>>, flag: Seq<char>)
    requires
        !all.contains(flag),
        short.len() <= all.len(),
        forall|k: int| 0 <= k < short.len() ==> #[trigger] short[k] == all[k],
    ensures
        !has_flag(short, flag),
        !has_flag(all, flag),
{
    law_flag_is_given_anywhere(short, flag);
    law_flag_is_given_anywhere(all, flag);
    if short.contains(flag) {
        let k = choose|k: int| 0 <= k < short.len() && short[k] == flag;
        assert(all[k] == flag);
    }
}

} // verus!
