# usbipd-rs

USB device inspector with chip-level board probing, written in Rust and verified
with Verus.

The library (`src/`) holds everything that decides or computes: the table of known
boards, the listing and its layout, the parsers for what the probe tools print, the
CMSIS-DAP and ST-Link conversations, the decoding of STM32, GD32 and RP2040
identity registers, the classification of Windows driver problems, and the
installer's plans. Each function has a contract, and Verus proves that the body
keeps it.

A conversation with a probe, a session of probes or a driver installation is a
function of what was heard so far: it says which command comes next, or what the
result is. The caller performs the command, adds the reply and asks again. So the
promises about a whole conversation — that it only ever reads identity registers,
that it ends, that a dry run changes nothing — are proved of every possible reply.
They stand beside the functions as `law_…` proof functions.

| Module      | Contents                                                          |
| ----------- | ----------------------------------------------------------------- |
| `boards`    | known boards and the probes that fit them                         |
| `cli`       | the command line                                                  |
| `usb`       | the device listing                                                |
| `probe`     | probe sessions, and a module for each tool that reports on a board |
| `stm32`     | families, revisions, chip definitions, register decoding          |
| `swd`       | reading a target over CMSIS-DAP or ST-Link                        |
| `stlink`    | the ST-Link controller, its driver and the target behind it       |
| `windows`   | driver nodes, their problems, and installing the debug driver     |
| `cmd`       | the alive tests                                                   |
| `installer` | tools, their providers and install plans                          |
| `text`, `pieces`, `number`, `page`, `fields`, `tool` | text, numbers, output pages, parsed rows and tool output |

The program around the library (`app/`) opens the USB devices, starts the tools,
reads and writes files, and prints the pages.

Two things are taken on trust: that `unicode-width` counts the columns of a text as
its documentation says, and that `String::push` appends a character.
