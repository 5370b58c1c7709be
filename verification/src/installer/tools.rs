//! The tools that can be installed, and how each is on each system.
use vstd::prelude::*;
use crate::installer::{DownloadAction, InstallStep, Os, StepView, ToolSpec};
use crate::text::same_str;

verus! {

pub const PICOTOOL_WIN_URL: &'static str = "https://github.com/raspberrypi/pico-sdk-tools/releases/download/v2.2.0-3/picotool-2.2.0-a4-x64-win.zip";

pub const PICOTOOL_MAC_URL: &'static str = "https://github.com/raspberrypi/pico-sdk-tools/releases/download/v2.2.0-3/picotool-2.2.0-a4-mac.zip";

pub const PICOTOOL_LINUX_URL: &'static str = "https://github.com/raspberrypi/pico-sdk-tools/releases/download/v2.2.0-3/picotool-2.2.0-a4-x86_64-lin.tar.gz";

pub const PICOTOOL_LINUX_INSTRUCTIONS: &'static str = "Linux: the archive is .tar.gz (zip extraction skipped). Extract manually:\ntar xzf <downloaded_file> -C ~/.local/bin/picotool/\nor install via your package manager (Ubuntu 24.04+: `sudo apt install picotool`).";

pub const ZADIG_URL: &'static str = "https://github.com/pbatard/libwdi/releases/download/v1.5.1/zadig-2.9.exe";

pub const ZADIG_INSTRUCTIONS: &'static str = "1. Right-click the downloaded zadig-2.9.exe and pick 'Run as administrator'.\n2. In Zadig: Options → check 'List All Devices'.\n3. Pick the BOOTSEL/PICOBOOT/RP2 Boot device from the dropdown.\n4. Set the right-side driver to 'WinUSB' and click 'Replace Driver'.\n5. Re-run usbipd-rs --probe to verify pi pico probing works.";

pub const AVRDUDE_WIN_URL: &'static str = "https://github.com/avrdudes/avrdude/releases/download/v8.1/avrdude-v8.1-windows-x64.zip";

pub const CP210X_WIN_URL: &'static str = "https://www.silabs.com/documents/public/software/CP210x_Universal_Windows_Driver.zip";

pub const CP210X_INSTRUCTIONS: &'static str = "Silabs Universal Driver is .inf-based (no .exe installer). Two ways to install:\n\nA) Right-click the silabser.inf path printed above → 'Install'.\n(Confirm any 'Open File' / UAC prompt.)\n\nB) From an admin PowerShell, run:\npnputil /add-driver \"<silabser.inf path>\" /install\n\nReplug your CP2102/CP2104 board after install — it should appear as a COM port.";

pub const CH340_WIN_URL: &'static str = "https://www.wch-ic.com/download/file?id=65";

pub const CH340_INSTRUCTIONS: &'static str = "1. Right-click CH341SER.EXE (path printed above) → 'Run as administrator'.\n2. Click 'INSTALL' in the WCH installer dialog.\n3. Replug the CH340-based board to bind the new driver.";

pub const FTDI_CDM_URL: &'static str = "https://ftdichip.com/wp-content/uploads/2021/08/CDM212364_Setup.zip";

pub const FTDI_INSTRUCTIONS: &'static str = "FTDI's web server returns HTTP 403 to non-browser clients, so this driver\ncannot be auto-downloaded — fetch it in a browser instead:\n\n1. Open the URL above in a browser and save CDM212364_Setup.zip.\n2. Extract it, then right-click CDM212364_Setup.exe → 'Run as administrator'.\n3. Replug the FT232R board — it should appear as a COM port.\n\nYou usually DON'T need this: Windows 10/11 installs the FTDI VCP driver\nautomatically via Windows Update. If your board already shows a COMx\nport, the driver is already working — this entry is just for offline or\nfreshly-imaged machines.\n\nChocolatey users can instead run:  choco install ftdi-drivers";

/// The upstream v0.7 binaries for all three systems, committed to the repository:
/// their download URLs require browser-side redirects.
pub const STM32FLASH_BUNDLE: &'static str = "stm32flash-0.7-binaries.zip";

/// The `_latest_` URLs are stable (they lead to the current release).
pub const ARDUINO_CLI_WIN_URL: &'static str = "https://downloads.arduino.cc/arduino-cli/arduino-cli_latest_Windows_64bit.zip";

pub const ARDUINO_CLI_LINUX_URL: &'static str = "https://downloads.arduino.cc/arduino-cli/arduino-cli_latest_Linux_64bit.tar.gz";

pub const ARDUINO_CLI_LINUX_INSTRUCTIONS: &'static str = "Linux: the archive is .tar.gz (zip extraction skipped). Extract manually:\ntar xzf <downloaded_file> -C ~/.local/bin/\nor install via the official script:\ncurl -fsSL https://raw.githubusercontent.com/arduino/arduino-cli/master/install.sh | sh";

/// Upstream ships only a .tar.xz behind browser redirects.
pub const DFU_UTIL_WIN_URL: &'static str = "https://dfu-util.sourceforge.net/releases/";

pub const DFU_UTIL_WIN_INSTRUCTIONS: &'static str = "Windows has no auto-installer for dfu-util (SourceForge serves a .tar.xz\nbehind browser redirects). Install manually:\n\n1. Open the URL above and download the latest dfu-util-<ver>-binaries.tar.xz.\n2. Extract it (7-Zip handles .tar.xz); add the win64\\ folder to PATH, or\ncopy dfu-util.exe next to usbipd-rs.exe.\n3. The STM32 DFU interface needs a WinUSB driver — run\nusbipd-rs --install zadig\nand replace the '0483:DF11 / STM32 BOOTLOADER' device driver with WinUSB.\n\nChocolatey users can instead run:  choco install dfu-util";

/// The tools, in the order in which they are listed.
pub open spec fn tool_table() -> Seq<ToolSpec> {
    seq![
        ToolSpec {
            id: "espflash",
            name: "espflash",
            purpose: "ESP32/ESP8266 chip identification & flashing",
            check_command: Some("espflash"),
        },
        ToolSpec {
            id: "pyocd",
            name: "pyOCD",
            purpose: "CMSIS-DAP / DAPLink target chip identification",
            check_command: Some("pyocd"),
        },
        ToolSpec {
            id: "picotool",
            name: "picotool",
            purpose: "Raspberry Pi RP2040/RP2350 inspection & flashing",
            check_command: None,
        },
        ToolSpec {
            id: "zadig",
            name: "Zadig",
            purpose: "Windows-only: replace a USB device's driver with WinUSB so libusb-based tools (picotool, etc.) can talk to it.",
            check_command: None,
        },
        ToolSpec {
            id: "avrdude",
            name: "avrdude",
            purpose: "AVR (Arduino Uno/Mega/Leonardo/Micro) chip ID & flashing",
            check_command: Some("avrdude"),
        },
        ToolSpec {
            id: "stm32flash",
            name: "stm32flash",
            purpose: "STM32 / GD32 (and bootloader-compatible clones) chip ID & flashing via UART bootloader. Bundled v0.7 zip ships binaries for Windows, Linux, and macOS.",
            check_command: None,
        },
        ToolSpec {
            id: "dfu-util",
            name: "dfu-util",
            purpose: "STM32 USB DFU (DfuSe) bootloader (0483:DF11) memory-map / chip-family ID & flashing.",
            check_command: Some("dfu-util"),
        },
        ToolSpec {
            id: "ravedude",
            name: "ravedude",
            purpose: "avr-hal `cargo run` runner — wraps avrdude to flash Rust AVR firmware & open a serial monitor.",
            check_command: Some("ravedude"),
        },
        ToolSpec {
            id: "arduino-cli",
            name: "Arduino CLI",
            purpose: "Arduino board/core manager. `arduino-cli core install arduino:avr` then bundles avrdude (and esp32 core → esptool, etc.).",
            check_command: Some("arduino-cli"),
        },
        ToolSpec {
            id: "cp210x",
            name: "Silabs CP210x VCP Driver",
            purpose: "Windows-only: USB Serial driver for ESP32 dev boards using CP2102/CP2104.",
            check_command: None,
        },
        ToolSpec {
            id: "ch340",
            name: "WCH CH340/CH341 Driver",
            purpose: "Windows-only: USB Serial driver for cheap clone Arduinos & ESP boards using CH340G.",
            check_command: None,
        },
        ToolSpec {
            id: "ftdi",
            name: "FTDI VCP Driver (CDM)",
            purpose: "Windows-only: USB Serial (VCP) driver for FTDI FT232R/FT232RL — classic Arduinos & USB-UART adapters. Windows 10/11 usually installs it automatically.",
            check_command: None,
        },
    ]
}

pub fn tools() -> (r: &'static [ToolSpec])
    ensures
        r@ == tool_table(),
{
    let r: &'static [ToolSpec] = &[
        ToolSpec {
            id: "espflash",
            name: "espflash",
            purpose: "ESP32/ESP8266 chip identification & flashing",
            check_command: Some("espflash"),
        },
        ToolSpec {
            id: "pyocd",
            name: "pyOCD",
            purpose: "CMSIS-DAP / DAPLink target chip identification",
            check_command: Some("pyocd"),
        },
        ToolSpec {
            id: "picotool",
            name: "picotool",
            purpose: "Raspberry Pi RP2040/RP2350 inspection & flashing",
            check_command: None,
        },
        ToolSpec {
            id: "zadig",
            name: "Zadig",
            purpose: "Windows-only: replace a USB device's driver with WinUSB so libusb-based tools (picotool, etc.) can talk to it.",
            check_command: None,
        },
        ToolSpec {
            id: "avrdude",
            name: "avrdude",
            purpose: "AVR (Arduino Uno/Mega/Leonardo/Micro) chip ID & flashing",
            check_command: Some("avrdude"),
        },
        ToolSpec {
            id: "stm32flash",
            name: "stm32flash",
            purpose: "STM32 / GD32 (and bootloader-compatible clones) chip ID & flashing via UART bootloader. Bundled v0.7 zip ships binaries for Windows, Linux, and macOS.",
            check_command: None,
        },
        ToolSpec {
            id: "dfu-util",
            name: "dfu-util",
            purpose: "STM32 USB DFU (DfuSe) bootloader (0483:DF11) memory-map / chip-family ID & flashing.",
            check_command: Some("dfu-util"),
        },
        ToolSpec {
            id: "ravedude",
            name: "ravedude",
            purpose: "avr-hal `cargo run` runner — wraps avrdude to flash Rust AVR firmware & open a serial monitor.",
            check_command: Some("ravedude"),
        },
        ToolSpec {
            id: "arduino-cli",
            name: "Arduino CLI",
            purpose: "Arduino board/core manager. `arduino-cli core install arduino:avr` then bundles avrdude (and esp32 core → esptool, etc.).",
            check_command: Some("arduino-cli"),
        },
        ToolSpec {
            id: "cp210x",
            name: "Silabs CP210x VCP Driver",
            purpose: "Windows-only: USB Serial driver for ESP32 dev boards using CP2102/CP2104.",
            check_command: None,
        },
        ToolSpec {
            id: "ch340",
            name: "WCH CH340/CH341 Driver",
            purpose: "Windows-only: USB Serial driver for cheap clone Arduinos & ESP boards using CH340G.",
            check_command: None,
        },
        ToolSpec {
            id: "ftdi",
            name: "FTDI VCP Driver (CDM)",
            purpose: "Windows-only: USB Serial (VCP) driver for FTDI FT232R/FT232RL — classic Arduinos & USB-UART adapters. Windows 10/11 usually installs it automatically.",
            check_command: None,
        },
    ];
    assert(r@ =~= tool_table());
    r
}

/// How a tool is installed on a system; none where it is not, or where there is
/// no such tool. The Windows-only ones replace or add a driver that the other
/// systems have in their kernels.
pub open spec fn install_step(id: Seq<char>, os: Os) -> Option<StepView> {
    if id == "espflash"@ {
        Some(StepView::Command { program: "cargo", args: seq!["install", "espflash"] })
    } else if id == "pyocd"@ {
        Some(StepView::Command { program: "pip", args: seq!["install", "pyocd"] })
    } else if id == "picotool"@ {
        match os {
            Os::Windows => Some(
                StepView::Download {
                    url: PICOTOOL_WIN_URL,
                    filename: None,
                    action: DownloadAction::ExtractToBundle { binary_hint: "picotool.exe" },
                },
            ),
            Os::Macos => Some(
                StepView::Download {
                    url: PICOTOOL_MAC_URL,
                    filename: None,
                    action: DownloadAction::ExtractToBundle { binary_hint: "picotool" },
                },
            ),
            Os::Linux => Some(
                StepView::Download {
                    url: PICOTOOL_LINUX_URL,
                    filename: None,
                    action: DownloadAction::PromptToRun {
                        instructions: PICOTOOL_LINUX_INSTRUCTIONS,
                    },
                },
            ),
        }
    } else if id == "zadig"@ {
        match os {
            Os::Windows => Some(
                StepView::Download {
                    url: ZADIG_URL,
                    filename: None,
                    action: DownloadAction::PromptToRun { instructions: ZADIG_INSTRUCTIONS },
                },
            ),
            Os::Macos => None,
            Os::Linux => None,
        }
    } else if id == "avrdude"@ {
        match os {
            Os::Windows => Some(
                StepView::Download {
                    url: AVRDUDE_WIN_URL,
                    filename: None,
                    action: DownloadAction::ExtractToBundle { binary_hint: "avrdude.exe" },
                },
            ),
            Os::Macos => Some(
                StepView::Command {
                    program: "brew",
                    args: seq!["install", "avrdude"],
                },
            ),
            Os::Linux => Some(
                StepView::Command {
                    program: "sudo",
                    args: seq!["apt-get", "install", "-y", "avrdude"],
                },
            ),
        }
    } else if id == "stm32flash"@ {
        match os {
            Os::Windows => Some(
                StepView::LocalArchive {
                    filename: STM32FLASH_BUNDLE,
                    action: DownloadAction::ExtractToBundle { binary_hint: "stm32flash.exe" },
                },
            ),
            Os::Macos => Some(
                StepView::LocalArchive {
                    filename: STM32FLASH_BUNDLE,
                    action: DownloadAction::ExtractToBundle { binary_hint: "stm32flash_macos" },
                },
            ),
            Os::Linux => Some(
                StepView::LocalArchive {
                    filename: STM32FLASH_BUNDLE,
                    action: DownloadAction::ExtractToBundle { binary_hint: "stm32flash_linux" },
                },
            ),
        }
    } else if id == "dfu-util"@ {
        match os {
            Os::Windows => Some(
                StepView::Manual {
                    url: DFU_UTIL_WIN_URL,
                    instructions: DFU_UTIL_WIN_INSTRUCTIONS,
                },
            ),
            Os::Macos => Some(
                StepView::Command {
                    program: "brew",
                    args: seq!["install", "dfu-util"],
                },
            ),
            Os::Linux => Some(
                StepView::Command {
                    program: "sudo",
                    args: seq!["apt-get", "install", "-y", "dfu-util"],
                },
            ),
        }
    } else if id == "ravedude"@ {
        Some(StepView::Command { program: "cargo", args: seq!["install", "ravedude"] })
    } else if id == "arduino-cli"@ {
        match os {
            Os::Windows => Some(
                StepView::Download {
                    url: ARDUINO_CLI_WIN_URL,
                    filename: None,
                    action: DownloadAction::ExtractToBundle { binary_hint: "arduino-cli.exe" },
                },
            ),
            Os::Macos => Some(
                StepView::Command {
                    program: "brew",
                    args: seq!["install", "arduino-cli"],
                },
            ),
            Os::Linux => Some(
                StepView::Download {
                    url: ARDUINO_CLI_LINUX_URL,
                    filename: None,
                    action: DownloadAction::PromptToRun {
                        instructions: ARDUINO_CLI_LINUX_INSTRUCTIONS,
                    },
                },
            ),
        }
    } else if id == "cp210x"@ {
        match os {
            Os::Windows => Some(
                StepView::Download {
                    url: CP210X_WIN_URL,
                    filename: None,
                    action: DownloadAction::ExtractAndPrompt {
                        binary_hint: "silabser.inf",
                        instructions: CP210X_INSTRUCTIONS,
                    },
                },
            ),
            Os::Macos => None,
            Os::Linux => None,
        }
    } else if id == "ch340"@ {
        match os {
            Os::Windows => Some(
                StepView::Download {
                    url: CH340_WIN_URL,
                    filename: Some("CH341SER.EXE"),
                    action: DownloadAction::PromptToRun { instructions: CH340_INSTRUCTIONS },
                },
            ),
            Os::Macos => None,
            Os::Linux => None,
        }
    } else if id == "ftdi"@ {
        match os {
            Os::Windows => Some(
                StepView::Manual {
                    url: FTDI_CDM_URL,
                    instructions: FTDI_INSTRUCTIONS,
                },
            ),
            Os::Macos => None,
            Os::Linux => None,
        }
    } else {
        None
    }
}

pub fn resolve(id: &str, os: Os) -> (r: Option<InstallStep>)
    ensures
        match r {
            Some(step) => install_step(id@, os) == Some(step@),
            None => install_step(id@, os) is None,
        },
{
    let step = find_step(id, os);
    proof {
        if let Some(InstallStep::Command { program, args }) = step {
            assert(install_step(id@, os)->0->args =~= args@);
        }
    }
    step
}

fn find_step(id: &str, os: Os) -> (r: Option<InstallStep>)
    ensures
        match r {
            Some(InstallStep::Command { program, args }) => {
                &&& install_step(id@, os) matches Some(StepView::Command { program: p, args: a })
                &&& p == program
                &&& a =~= args@
            },
            Some(step) => install_step(id@, os) == Some(step@),
            None => install_step(id@, os) is None,
        },
{
    if same_str(id, "espflash") {
        Some(InstallStep::Command { program: "cargo", args: &["install", "espflash"] })
    } else if same_str(id, "pyocd") {
        Some(InstallStep::Command { program: "pip", args: &["install", "pyocd"] })
    } else if same_str(id, "picotool") {
        match os {
            Os::Windows => Some(
                InstallStep::Download {
                    url: PICOTOOL_WIN_URL,
                    filename: None,
                    action: DownloadAction::ExtractToBundle { binary_hint: "picotool.exe" },
                },
            ),
            Os::Macos => Some(
                InstallStep::Download {
                    url: PICOTOOL_MAC_URL,
                    filename: None,
                    action: DownloadAction::ExtractToBundle { binary_hint: "picotool" },
                },
            ),
            Os::Linux => Some(
                InstallStep::Download {
                    url: PICOTOOL_LINUX_URL,
                    filename: None,
                    action: DownloadAction::PromptToRun {
                        instructions: PICOTOOL_LINUX_INSTRUCTIONS,
                    },
                },
            ),
        }
    } else if same_str(id, "zadig") {
        match os {
            Os::Windows => Some(
                InstallStep::Download {
                    url: ZADIG_URL,
                    filename: None,
                    action: DownloadAction::PromptToRun { instructions: ZADIG_INSTRUCTIONS },
                },
            ),
            Os::Macos => None,
            Os::Linux => None,
        }
    } else if same_str(id, "avrdude") {
        match os {
            Os::Windows => Some(
                InstallStep::Download {
                    url: AVRDUDE_WIN_URL,
                    filename: None,
                    action: DownloadAction::ExtractToBundle { binary_hint: "avrdude.exe" },
                },
            ),
            Os::Macos => Some(
                InstallStep::Command {
                    program: "brew",
                    args: &["install", "avrdude"],
                },
            ),
            Os::Linux => Some(
                InstallStep::Command {
                    program: "sudo",
                    args: &["apt-get", "install", "-y", "avrdude"],
                },
            ),
        }
    } else if same_str(id, "stm32flash") {
        match os {
            Os::Windows => Some(
                InstallStep::LocalArchive {
                    filename: STM32FLASH_BUNDLE,
                    action: DownloadAction::ExtractToBundle { binary_hint: "stm32flash.exe" },
                },
            ),
            Os::Macos => Some(
                InstallStep::LocalArchive {
                    filename: STM32FLASH_BUNDLE,
                    action: DownloadAction::ExtractToBundle { binary_hint: "stm32flash_macos" },
                },
            ),
            Os::Linux => Some(
                InstallStep::LocalArchive {
                    filename: STM32FLASH_BUNDLE,
                    action: DownloadAction::ExtractToBundle { binary_hint: "stm32flash_linux" },
                },
            ),
        }
    } else if same_str(id, "dfu-util") {
        match os {
            Os::Windows => Some(
                InstallStep::Manual {
                    url: DFU_UTIL_WIN_URL,
                    instructions: DFU_UTIL_WIN_INSTRUCTIONS,
                },
            ),
            Os::Macos => Some(
                InstallStep::Command {
                    program: "brew",
                    args: &["install", "dfu-util"],
                },
            ),
            Os::Linux => Some(
                InstallStep::Command {
                    program: "sudo",
                    args: &["apt-get", "install", "-y", "dfu-util"],
                },
            ),
        }
    } else if same_str(id, "ravedude") {
        Some(InstallStep::Command { program: "cargo", args: &["install", "ravedude"] })
    } else if same_str(id, "arduino-cli") {
        match os {
            Os::Windows => Some(
                InstallStep::Download {
                    url: ARDUINO_CLI_WIN_URL,
                    filename: None,
                    action: DownloadAction::ExtractToBundle { binary_hint: "arduino-cli.exe" },
                },
            ),
            Os::Macos => Some(
                InstallStep::Command {
                    program: "brew",
                    args: &["install", "arduino-cli"],
                },
            ),
            Os::Linux => Some(
                InstallStep::Download {
                    url: ARDUINO_CLI_LINUX_URL,
                    filename: None,
                    action: DownloadAction::PromptToRun {
                        instructions: ARDUINO_CLI_LINUX_INSTRUCTIONS,
                    },
                },
            ),
        }
    } else if same_str(id, "cp210x") {
        match os {
            Os::Windows => Some(
                InstallStep::Download {
                    url: CP210X_WIN_URL,
                    filename: None,
                    action: DownloadAction::ExtractAndPrompt {
                        binary_hint: "silabser.inf",
                        instructions: CP210X_INSTRUCTIONS,
                    },
                },
            ),
            Os::Macos => None,
            Os::Linux => None,
        }
    } else if same_str(id, "ch340") {
        match os {
            Os::Windows => Some(
                InstallStep::Download {
                    url: CH340_WIN_URL,
                    filename: Some("CH341SER.EXE"),
                    action: DownloadAction::PromptToRun { instructions: CH340_INSTRUCTIONS },
                },
            ),
            Os::Macos => None,
            Os::Linux => None,
        }
    } else if same_str(id, "ftdi") {
        match os {
            Os::Windows => Some(
                InstallStep::Manual {
                    url: FTDI_CDM_URL,
                    instructions: FTDI_INSTRUCTIONS,
                },
            ),
            Os::Macos => None,
            Os::Linux => None,
        }
    } else {
        None
    }
}

proof fn lemma_ids_differ()
    ensures
        "espflash"@.len() == 8 && "espflash"@[0] == 'e' && "espflash"@[1] == 's',
        "pyocd"@.len() == 5 && "pyocd"@[0] == 'p' && "pyocd"@[1] == 'y',
        "picotool"@.len() == 8 && "picotool"@[0] == 'p' && "picotool"@[1] == 'i',
        "zadig"@.len() == 5 && "zadig"@[0] == 'z' && "zadig"@[1] == 'a',
        "avrdude"@.len() == 7 && "avrdude"@[0] == 'a' && "avrdude"@[1] == 'v',
        "stm32flash"@.len() == 10 && "stm32flash"@[0] == 's' && "stm32flash"@[1] == 't',
        "dfu-util"@.len() == 8 && "dfu-util"@[0] == 'd' && "dfu-util"@[1] == 'f',
        "ravedude"@.len() == 8 && "ravedude"@[0] == 'r' && "ravedude"@[1] == 'a',
        "arduino-cli"@.len() == 11 && "arduino-cli"@[0] == 'a' && "arduino-cli"@[1] == 'r',
        "cp210x"@.len() == 6 && "cp210x"@[0] == 'c' && "cp210x"@[1] == 'p',
        "ch340"@.len() == 5 && "ch340"@[0] == 'c' && "ch340"@[1] == 'h',
        "ftdi"@.len() == 4 && "ftdi"@[0] == 'f' && "ftdi"@[1] == 't',
{
    reveal_strlit("espflash");
    reveal_strlit("pyocd");
    reveal_strlit("picotool");
    reveal_strlit("zadig");
    reveal_strlit("avrdude");
    reveal_strlit("stm32flash");
    reveal_strlit("dfu-util");
    reveal_strlit("ravedude");
    reveal_strlit("arduino-cli");
    reveal_strlit("cp210x");
    reveal_strlit("ch340");
    reveal_strlit("ftdi");
}

/// The tools, in the order in which they are listed, and those that a command of their
/// own name shows to be installed.
pub proof fn law_listed_tools()
    ensures
        tool_table().len() == 12,
        tool_table()[0].id@ == "espflash"@ && (tool_table()[0].check_command matches Some(c) && c@ == "espflash"@),
        tool_table()[1].id@ == "pyocd"@ && (tool_table()[1].check_command matches Some(c) && c@ == "pyocd"@),
        tool_table()[2].id@ == "picotool"@ && tool_table()[2].check_command is None,
        tool_table()[3].id@ == "zadig"@ && tool_table()[3].check_command is None,
        tool_table()[4].id@ == "avrdude"@ && (tool_table()[4].check_command matches Some(c) && c@ == "avrdude"@),
        tool_table()[5].id@ == "stm32flash"@ && tool_table()[5].check_command is None,
        tool_table()[6].id@ == "dfu-util"@ && (tool_table()[6].check_command matches Some(c) && c@ == "dfu-util"@),
        tool_table()[7].id@ == "ravedude"@ && (tool_table()[7].check_command matches Some(c) && c@ == "ravedude"@),
        tool_table()[8].id@ == "arduino-cli"@ && (tool_table()[8].check_command matches Some(c) && c@ == "arduino-cli"@),
        tool_table()[9].id@ == "cp210x"@ && tool_table()[9].check_command is None,
        tool_table()[10].id@ == "ch340"@ && tool_table()[10].check_command is None,
        tool_table()[11].id@ == "ftdi"@ && tool_table()[11].check_command is None,
{
}

/// What is run to install a tool from a package manager.
pub proof fn law_package_manager_commands(os: Os)
    ensures
        install_step("espflash"@, os) == Some(
            StepView::Command { program: "cargo", args: seq!["install", "espflash"] },
        ),
        install_step("pyocd"@, os) == Some(
            StepView::Command { program: "pip", args: seq!["install", "pyocd"] },
        ),
        install_step("ravedude"@, os) == Some(
            StepView::Command { program: "cargo", args: seq!["install", "ravedude"] },
        ),
        install_step("avrdude"@, Os::Macos) == Some(
            StepView::Command { program: "brew", args: seq!["install", "avrdude"] },
        ),
        install_step("avrdude"@, Os::Linux) == Some(
            StepView::Command { program: "sudo", args: seq!["apt-get", "install", "-y", "avrdude"] },
        ),
        install_step("dfu-util"@, Os::Macos) == Some(
            StepView::Command { program: "brew", args: seq!["install", "dfu-util"] },
        ),
        install_step("dfu-util"@, Os::Linux) == Some(
            StepView::Command { program: "sudo", args: seq!["apt-get", "install", "-y", "dfu-util"] },
        ),
        install_step("arduino-cli"@, Os::Macos) == Some(
            StepView::Command { program: "brew", args: seq!["install", "arduino-cli"] },
        ),
{
    lemma_ids_differ();
}

/// What is fetched to install a tool, and what is looked for in it; what is unpacked
/// from the repository; and what has to be fetched by hand. The drivers are for Windows
/// alone.
pub proof fn law_files_of_the_tools(os: Os)
    ensures
        install_step("picotool"@, Os::Windows) matches Some(StepView::Download { url, filename, action })
            && url@
            == "https://github.com/raspberrypi/pico-sdk-tools/releases/download/v2.2.0-3/picotool-2.2.0-a4-x64-win.zip"@ && filename is None && (action matches DownloadAction::ExtractToBundle { binary_hint } && binary_hint@
            == "picotool.exe"@),
        install_step("picotool"@, Os::Macos) matches Some(StepView::Download { url, filename, action })
            && url@
            == "https://github.com/raspberrypi/pico-sdk-tools/releases/download/v2.2.0-3/picotool-2.2.0-a4-mac.zip"@ && filename is None && (action matches DownloadAction::ExtractToBundle { binary_hint } && binary_hint@
            == "picotool"@),
        install_step("picotool"@, Os::Linux) matches Some(StepView::Download { url, filename, action })
            && url@
            == "https://github.com/raspberrypi/pico-sdk-tools/releases/download/v2.2.0-3/picotool-2.2.0-a4-x86_64-lin.tar.gz"@ && filename is None && action is PromptToRun,
        install_step("zadig"@, Os::Windows) matches Some(StepView::Download { url, filename, action })
            && url@
            == "https://github.com/pbatard/libwdi/releases/download/v1.5.1/zadig-2.9.exe"@ && filename is None && action is PromptToRun,
        install_step("avrdude"@, Os::Windows) matches Some(StepView::Download { url, filename, action })
            && url@
            == "https://github.com/avrdudes/avrdude/releases/download/v8.1/avrdude-v8.1-windows-x64.zip"@ && filename is None && (action matches DownloadAction::ExtractToBundle { binary_hint } && binary_hint@
            == "avrdude.exe"@),
        install_step("arduino-cli"@, Os::Windows) matches Some(StepView::Download { url, filename, action })
            && url@
            == "https://downloads.arduino.cc/arduino-cli/arduino-cli_latest_Windows_64bit.zip"@ && filename is None && (action matches DownloadAction::ExtractToBundle { binary_hint } && binary_hint@
            == "arduino-cli.exe"@),
        install_step("arduino-cli"@, Os::Linux) matches Some(StepView::Download { url, filename, action })
            && url@
            == "https://downloads.arduino.cc/arduino-cli/arduino-cli_latest_Linux_64bit.tar.gz"@ && filename is None && action is PromptToRun,
        install_step("cp210x"@, Os::Windows) matches Some(StepView::Download { url, filename, action })
            && url@
            == "https://www.silabs.com/documents/public/software/CP210x_Universal_Windows_Driver.zip"@ && filename is None && (action matches DownloadAction::ExtractAndPrompt { binary_hint, .. } && binary_hint@
            == "silabser.inf"@),
        install_step("ch340"@, Os::Windows) matches Some(StepView::Download { url, filename, action })
            && url@
            == "https://www.wch-ic.com/download/file?id=65"@ && (filename matches Some(f) && f@ == "CH341SER.EXE"@) && action is PromptToRun,
        install_step("stm32flash"@, Os::Windows) matches Some(StepView::LocalArchive { filename, action })
            && filename@ == "stm32flash-0.7-binaries.zip"@ && (action matches
            DownloadAction::ExtractToBundle { binary_hint } && binary_hint@ == "stm32flash.exe"@),
        install_step("stm32flash"@, Os::Macos) matches Some(StepView::LocalArchive { filename, action })
            && filename@ == "stm32flash-0.7-binaries.zip"@ && (action matches
            DownloadAction::ExtractToBundle { binary_hint } && binary_hint@ == "stm32flash_macos"@),
        install_step("stm32flash"@, Os::Linux) matches Some(StepView::LocalArchive { filename, action })
            && filename@ == "stm32flash-0.7-binaries.zip"@ && (action matches
            DownloadAction::ExtractToBundle { binary_hint } && binary_hint@ == "stm32flash_linux"@),
        install_step("dfu-util"@, Os::Windows) matches Some(StepView::Manual { url, .. }) && url@
            == "https://dfu-util.sourceforge.net/releases/"@,
        install_step("ftdi"@, Os::Windows) matches Some(StepView::Manual { url, .. }) && url@
            == "https://ftdichip.com/wp-content/uploads/2021/08/CDM212364_Setup.zip"@,
        os != Os::Windows ==> install_step("zadig"@, os) is None,
        os != Os::Windows ==> install_step("cp210x"@, os) is None,
        os != Os::Windows ==> install_step("ch340"@, os) is None,
        os != Os::Windows ==> install_step("ftdi"@, os) is None,
{
    lemma_ids_differ();
}

/// A tool that is not listed cannot be installed.
pub proof fn law_unknown_tools_have_no_step(id: Seq<char>, os: Os)
    requires
        forall|i: int| 0 <= i < tool_table().len() ==> (#[trigger] tool_table()[i]).id@ != id,
    ensures
        install_step(id, os) is None,
{
    assert(tool_table()[0].id@ != id);
    assert(tool_table()[1].id@ != id);
    assert(tool_table()[2].id@ != id);
    assert(tool_table()[3].id@ != id);
    assert(tool_table()[4].id@ != id);
    assert(tool_table()[5].id@ != id);
    assert(tool_table()[6].id@ != id);
    assert(tool_table()[7].id@ != id);
    assert(tool_table()[8].id@ != id);
    assert(tool_table()[9].id@ != id);
    assert(tool_table()[10].id@ != id);
    assert(tool_table()[11].id@ != id);
}

} // verus!
