use usbipd_rs::boards::{lookup_board, AvrTarget, KnownBoard, ProbeKind};
use usbipd_rs::fields::Fields;
use usbipd_rs::installer::Os;
use usbipd_rs::probe::avr::{
    avr_chip_summary, parse_avrdude_output, print_avr_info, run_avrdude_query,
    summarize_avrdude_error, AvrQuery,
};
use usbipd_rs::probe::daplink::{
    extract_json_string, parse_daplink_details, parse_pyocd_output, print_daplink_info,
    print_pyocd_info, run_daplink_query, run_pyocd_query, Drive,
};
use usbipd_rs::probe::dfu::{
    dfu_field, dfu_listing_fits, dfu_region_size_kb, format_dfu_region, parse_dfu_output,
    run_dfu_info,
};
use usbipd_rs::probe::esp::{
    espflash_args, parse_espflash_output, run_espflash_board_info, strip_log_prefix,
};
use usbipd_rs::probe::ftdi::{
    ftdi_chip_variant, print_ftdi_info, run_ftdi_info, FtdiDevice, FtdiLookup,
};
use usbipd_rs::probe::pico::{
    decode_flash_devinfo, parse_picotool_output, picotool_args, print_pico_info,
    run_picotool_info,
};
use usbipd_rs::probe::report::{probe_outcome, ProbeReport};
use usbipd_rs::probe::stm32flash::{
    parse_stm32flash_output, print_stm32_info, run_stm32flash_query, stm32flash_binary,
};
use usbipd_rs::probe::{
    driver_suggestion, flasher_suggestion, print_probe_install_suggestions, probe_boards, Next,
    Outcome, SerialPort,
};
use usbipd_rs::stlink::driver::StlinkDriver;
use usbipd_rs::tool::ToolOutput;
use usbipd_rs::usb::{find_boards, Candidate, Entry};

fn text(s: &str) -> Option<String> {
    Some(s.to_string())
}

fn output(success: bool, stdout: &str, stderr: &str) -> ToolOutput {
    ToolOutput { success, stdout: stdout.to_string(), stderr: stderr.to_string() }
}

fn failure<X>(r: Result<X, String>) -> String {
    match r {
        Err(e) => e,
        Ok(_) => panic!("succeeded"),
    }
}

// ── espflash ──

#[test]
fn esp_output_is_read_row_by_row() {
    let i = parse_espflash_output(
        "[2024-01-01T00:00:00Z INFO ] Serial port: 'COM3'\nChip type:         esp32 (revision v3.0)\n[INFO] Flash size: 4MB\r\nFeatures: WiFi, BT\nMAC address: 24:0a:c4:00:01:10\nChip type: esp32s3\n",
    );
    assert_eq!(i.chip_type, text("esp32s3"));
    assert_eq!(i.flash_size, text("4MB"));
    assert_eq!(i.features, text("WiFi, BT"));
    assert_eq!(i.mac_address, text("24:0a:c4:00:01:10"));
    assert_eq!((&i.chip_revision, &i.mac), (&None, &None));
    assert_eq!(
        i.print(),
        [
            "  Chip type:           esp32s3",
            "  Flash size:          4MB",
            "  Features:            WiFi, BT",
            "  MAC address:         24:0a:c4:00:01:10",
        ]
    );
    assert!(!i.is_empty());
    assert!(parse_espflash_output("nothing here").is_empty());
}

#[test]
fn log_prefix_is_taken_off() {
    assert_eq!(strip_log_prefix("[INFO ]   Chip type: x"), "Chip type: x");
    assert_eq!(strip_log_prefix("[never closed"), "[never closed");
    assert_eq!(strip_log_prefix(" [INFO] x"), " [INFO] x");
    assert_eq!(strip_log_prefix("plain"), "plain");
}

#[test]
fn esp_query_fails_with_the_last_line() {
    assert_eq!(espflash_args("COM3"), ["board-info", "--port", "COM3"]);
    assert_eq!(
        failure(run_espflash_board_info(None)),
        "espflash not found on PATH (install with: cargo install espflash)"
    );
    let o = output(false, "", "Error: a\n  b  \n\n");
    assert_eq!(failure(run_espflash_board_info(Some(&o))), "  b  ");
    let o = output(false, "ignored", "\n");
    assert_eq!(failure(run_espflash_board_info(Some(&o))), "unknown");
    let o = output(true, "Chip type: esp32", "MAC: 1");
    let i = run_espflash_board_info(Some(&o)).unwrap();
    assert_eq!((i.chip_type, i.mac), (text("esp32"), text("1")));
}

// ── avrdude ──

const UNO: AvrTarget = AvrTarget { mcu: "atmega328p", programmer: "arduino", bauds: &[115200, 57600] };
const MEGA: AvrTarget = AvrTarget { mcu: "atmega2560", programmer: "wiring", bauds: &[115200] };

#[test]
fn avr_query_tries_each_target_at_each_baud() {
    let targets = [UNO, MEGA];
    let mut heard: Vec<Option<ToolOutput>> = Vec::new();
    let mut bauds = Vec::new();
    loop {
        match run_avrdude_query("COM4", &targets, &heard) {
            AvrQuery::Run(args) => {
                assert_eq!(args[4..6], ["-P", "COM4"]);
                assert_eq!(args[8..], ["-F", "-v"]);
                bauds.push((args[1].clone(), args[3].clone(), args[7].clone()));
                heard.push(Some(output(false, "", "Device signature = 1E 95 0F\nnot in sync\n")));
            },
            AvrQuery::Done(r) => {
                assert_eq!(
                    failure(r),
                    "wiring @ 115200 baud — Device signature = 1E 95 0F; not in sync"
                );
                break;
            },
        }
    }
    let told: Vec<(&str, &str, &str)> =
        bauds.iter().map(|(c, p, b)| (c.as_str(), p.as_str(), b.as_str())).collect();
    assert_eq!(
        told,
        [
            ("arduino", "atmega328p", "115200"),
            ("arduino", "atmega328p", "57600"),
            ("wiring", "atmega2560", "115200"),
        ]
    );
    match run_avrdude_query("COM4", &targets, &[None]) {
        AvrQuery::Done(r) => assert!(failure(r).starts_with("avrdude not found on PATH")),
        _ => panic!("goes on"),
    }
    match run_avrdude_query("COM4", &[], &[]) {
        AvrQuery::Done(r) => assert_eq!(failure(r), "avrdude produced no output"),
        _ => panic!("goes on"),
    }
    match run_avrdude_query("COM4", &targets, &[Some(output(true, "", "AVR part : ATmega328P"))]) {
        AvrQuery::Done(r) => {
            let f = r.unwrap();
            assert_eq!(f.get("Requested MCU"), Some("atmega328p"));
            assert_eq!(f.get("Detected MCU"), Some("ATmega328P"));
        },
        _ => panic!("goes on"),
    }
}

#[test]
fn avr_error_is_summed_up() {
    assert_eq!(summarize_avrdude_error("", &UNO, 57600), "arduino @ 57600 baud — unknown");
    assert_eq!(
        summarize_avrdude_error("a\n Device signature = x \n", &UNO, 57600),
        "arduino @ 57600 baud — Device signature = x"
    );
}

#[test]
fn avr_output_gives_the_rows_of_its_page() {
    let f = parse_avrdude_output(
        "",
        "Programmer type       : STK500\nDescription : Arduino\nHW Version            : 3\nAVR part              : ATmega328P\nDevice signature = 1E 95 0F (ATmega328P, ATA6614Q)\nFW Version :\n",
        "atmega328p",
    );
    assert_eq!(f.get("Signature"), Some("1E 95 0F"));
    assert_eq!(f.get("Sig matches"), Some("ATmega328P, ATA6614Q"));
    assert_eq!(f.get("FW Version"), None);
    assert_eq!(
        print_avr_info(&f, "Arduino Uno R3"),
        [
            "  Board:               Arduino Uno R3",
            "  Detected MCU:        ATmega328P",
            "  Signature:           1E 95 0F",
            "  Sig matches:         ATmega328P, ATA6614Q",
            "  Programmer:          STK500",
            "  Bootloader:          Arduino",
            "  HW Version:          3",
            "  Summary:             32 KB flash, 2 KB SRAM, 1 KB EEPROM, 16 MHz",
            "  Fuses:               (fuses require an ISP programmer on the ICSP header)",
        ]
    );
    assert_eq!(avr_chip_summary("ATMEGA2560"), "256 KB flash, 8 KB SRAM, 4 KB EEPROM, 16 MHz");
    assert_eq!(avr_chip_summary("attiny85"), "");
}

// ── stm32flash ──

#[test]
fn stm32flash_output_gives_the_rows_of_its_page() {
    let f = parse_stm32flash_output(
        "stm32flash 0.7\nVersion      : 0x22\nDevice ID    : 0x0410 (STM32F10xxx Medium-density)\n- RAM        : Up to 20KiB\n- Flash      : Up to 128KiB\n- System RAM : 2KiB\nOther: 1\n",
    );
    assert_eq!(f.get("Other"), None);
    assert_eq!(
        print_stm32_info(&f, "CH340"),
        [
            "  Bridge:              CH340",
            "  Device ID:           0x0410 (STM32F10xxx Medium-density)",
            "  Flash:               Up to 128KiB",
            "  RAM:                 Up to 20KiB",
            "  System ROM:          2KiB",
            "  Bootloader ver:      0x22",
        ]
    );
    assert_eq!(
        failure(run_stm32flash_query(None, "stm32flash")),
        "stm32flash not found (tried stm32flash and PATH). Install with: usbipd-rs --install stm32flash"
    );
    let o = output(false, "stm32flash 0.7\nhttp://x\nUsing Parser : Raw BINARY\n", "Interface serial\nFailed to init device.\n");
    let e = failure(run_stm32flash_query(Some(&o), "stm32flash"));
    let told: Vec<&str> = e.lines().collect();
    assert_eq!(told[0], "Failed to init device.");
    assert_eq!(told[2], "Pull BOOT0 HIGH and press RESET, then re-run --probe.");
    assert_eq!(told.len(), 5);
    let o = output(false, "stm32flash 0.7\n", "");
    assert!(failure(run_stm32flash_query(Some(&o), "x")).starts_with("no response\n"));
    assert_eq!(stm32flash_binary("linux"), "stm32flash_linux");
    assert_eq!(stm32flash_binary("freebsd"), "stm32flash");
}

// ── FTDI ──

#[test]
fn ftdi_descriptors_are_shown() {
    assert_eq!(ftdi_chip_variant(0x6001, 0x0600), "FT232R / FT232RL");
    assert_eq!(ftdi_chip_variant(0x6001, 0x0700), "");
    assert_eq!(
        failure(run_ftdi_info(0x0403, 0x6001, &FtdiLookup::ListingFailed)),
        "nusb::list_devices() failed"
    );
    assert_eq!(
        failure(run_ftdi_info(0x0403, 0x6001, &FtdiLookup::NotFound)),
        "nusb could not find 0403:6001 (device replugged between listing and probe?)"
    );
    let dev = FtdiDevice {
        manufacturer: text("FTDI"),
        product: text("FT232R USB UART"),
        serial: None,
        version: 0x0600,
        interfaces: vec![(0, 0xff), (1, 0x07)],
        driver: text(""),
    };
    let f = run_ftdi_info(0x0403, 0x6001, &FtdiLookup::Found(dev)).unwrap();
    assert_eq!(
        print_ftdi_info(&f, "FT232R"),
        [
            "  Board:               FT232R",
            "  Manufacturer:        FTDI",
            "  Product:             FT232R USB UART",
            "  Chip variant:        FT232R / FT232RL (bcdDevice 0x0600)",
            "  Interfaces:          #0 Vendor-specific (0xff), #1 Other (0x07)",
            "  VID:PID:             0403:6001",
        ]
    );
}

// ── dfu-util ──

const DFU_LIST: &str = "dfu-util 0.11\nFound DFU: [0483:df11] ver=2200, devnum=5, cfg=1, intf=0, path=\"1-2\", alt=1, name=\"@Option Bytes  /0x1FFFC000/01*016 e\", serial=\"3376\"\nFound DFU: [0483:df11] ver=2200, devnum=5, cfg=1, intf=0, path=\"1-2\", alt=0, name=\"@Internal Flash  /0x08000000/04*016Kg,01*064Kg,03*128Kg\", serial=\"3376\"\nFound DFU: [1234:5678] ver=0100, name=\"x\"\n";

#[test]
fn dfu_listing_gives_the_memory_map() {
    assert!(dfu_listing_fits(DFU_LIST, 0x0483, 0xdf11));
    let d = parse_dfu_output(DFU_LIST, 0x0483, 0xdf11);
    assert_eq!(d.flash_size, text("512 KB"));
    assert_eq!(d.bcd_device, text("0x2200"));
    assert_eq!(d.serial_number, text("3376"));
    assert_eq!(d.alt_settings, text("2"));
    assert_eq!(d.vidpid, text("0483:df11"));
    assert_eq!(
        d.memory_map,
        text("Option Bytes: @ 0x1FFFC000 (01*016 e)\nInternal Flash: 512 KB @ 0x08000000 (04*016Kg,01*064Kg,03*128Kg)")
    );
    let page = d.print("DfuSe");
    assert_eq!(page[6], "  Memory map:         ");
    assert_eq!(page[7], "    - Option Bytes: @ 0x1FFFC000 (01*016 e)");
    assert!(page[9].starts_with("  Note:                (DFU mode reports"));
    assert!(parse_dfu_output(DFU_LIST, 0x0483, 0x3748).is_empty());
}

#[test]
fn dfu_region_sizes_are_summed() {
    assert_eq!(dfu_region_size_kb("04*016Kg,01*064Kg,07*128Kg"), Some(1024));
    assert_eq!(dfu_region_size_kb("01*001Mg"), Some(1024));
    assert_eq!(dfu_region_size_kb("04*512 e"), Some(2));
    assert_eq!(dfu_region_size_kb("04*Kg"), None);
    assert_eq!(dfu_region_size_kb("x*1K"), None);
    assert_eq!(dfu_region_size_kb("1K"), None);
    assert_eq!(dfu_field("alt=0, name=\"a, b\", serial=x", "name"), text("a, b"));
    assert_eq!(dfu_field("ver=2200 , devnum=5", "ver"), text("2200"));
    assert_eq!(dfu_field("name=\"open", "name"), None);
    assert_eq!(dfu_field("alt=0", "name"), None);
    assert_eq!(format_dfu_region("no slash"), None);
    assert_eq!(
        format_dfu_region("@internal flash / 0x08000000 /bad"),
        Some(("internal flash".to_string(), "@ 0x08000000 (bad)".to_string(), None))
    );
    assert_eq!(
        format_dfu_region("OTP/0x1000"),
        Some(("OTP".to_string(), "@ 0x1000".to_string(), None))
    );
    // A listing that adds up to more than 64 bits can hold is told apart.
    let huge = "Found DFU: [0483:df11] name=\"@Internal Flash/0x0/18446744073709551615*2Kg\"";
    assert!(!dfu_listing_fits(huge, 0x0483, 0xdf11));
    assert!(dfu_listing_fits(huge, 0x0483, 0x3748));
}

#[test]
fn dfu_lines_on_other_devices_change_nothing() {
    let first = "Found DFU: [0483:df11] ver=2200, alt=1, name=\"@OTP Memory /0x1FFF7800/01*512 e\", serial=\"33\"\n";
    let second = "Found DFU: [0483:df11] ver=2200, alt=0, name=\"@Internal Flash  /0x08000000/04*016Kg\", serial=\"33\"\n";
    let alone = first.to_string() + second;
    let other = "Found DFU: [1234:5678] ver=0100, name=\"@Internal Flash /0x0/01*001Mg\", serial=\"99\"\n";
    let listing = "dfu-util 0.11\r\n\n".to_string()
        + other
        + "  " + first
        + "Deducing device DFU version from functional descriptor [0483:df11]\n"
        + second
        + other
        + "no line feed at the end";
    let a = parse_dfu_output(&alone, 0x0483, 0xdf11);
    let b = parse_dfu_output(&listing, 0x0483, 0xdf11);
    assert_eq!(format!("{:?}", a), format!("{:?}", b));
    assert_eq!(b.flash_size, text("64 KB"));
    assert_eq!(b.serial_number, text("33"));
    assert_eq!(b.alt_settings, text("2"));
    assert_eq!(b.vidpid, text("0483:df11"));
}

#[test]
fn dfu_report_without_the_device_says_nothing() {
    for listing in ["", "dfu-util 0.11\n", "Found DFU: [1234:5678] ver=0100, serial=\"9\"\n", " [0483:df11] ver=1\n"] {
        let d = parse_dfu_output(listing, 0x0483, 0xdf11);
        assert!(d.is_empty());
        assert_eq!(d.flash_size, None);
        assert_eq!(d.bcd_device, None);
        assert_eq!(d.serial_number, None);
        assert_eq!(d.alt_settings, None);
        assert_eq!(d.vidpid, None);
        assert_eq!(d.memory_map, None);
    }
    // One line is enough, even with no fields on it.
    let d = parse_dfu_output("Found DFU: [0483:df11]", 0x0483, 0xdf11);
    assert!(!d.is_empty());
    assert_eq!(d.alt_settings, text("1"));
    assert_eq!(d.serial_number, None);
}

#[test]
fn dfu_query_says_why_nothing_is_listed() {
    assert_eq!(
        failure(run_dfu_info(None, 0x0483, 0xdf11)),
        "dfu-util not found on PATH (install with: usbipd-rs --install dfu-util)"
    );
    let o = output(true, "", "x\nCannot open DFU device 0483:df11\n");
    assert_eq!(failure(run_dfu_info(Some(&o), 0x0483, 0xdf11)), "Cannot open DFU device 0483:df11");
    let o = output(true, "", "");
    assert!(failure(run_dfu_info(Some(&o), 0x0483, 0xdf11)).starts_with("dfu-util did not list this device — "));
    let o = output(false, DFU_LIST, "");
    assert!(run_dfu_info(Some(&o), 0x0483, 0xdf11).is_ok());
}

// ── picotool ──

#[test]
fn picotool_output_gives_the_rows_of_its_page() {
    let f = parse_picotool_output(
        "Device Information\n type:              RP2350\n flash devinfo:     0x8c00\n name: none\n empty:\n",
    );
    assert_eq!(f.get("name"), None);
    assert_eq!(
        print_pico_info(&f, "Pico 2"),
        [
            "  Board:               Pico 2",
            "  Chip:                RP2350",
            "  Flash devinfo:       0x8c00 (CS0 default — SDK auto-detects; CS1 on GPIO 12, code 0x0)",
        ]
    );
    assert_eq!(decode_flash_devinfo("0x0c"), "CS0 code 0xc");
    assert_eq!(decode_flash_devinfo("zz"), "?");
    assert_eq!(
        picotool_args(0x2e8a, 0x000f, false),
        ["info", "-a", "--vid", "0x2e8a", "--pid", "0x000f"]
    );
    assert_eq!(picotool_args(0x2e8a, 0x000f, true), ["info", "-a"]);
}

#[test]
fn picotool_failure_points_at_the_driver() {
    assert_eq!(
        failure(run_picotool_info(None, "picotool")),
        "picotool not found (tried picotool and PATH). Install with: scoop install picotool"
    );
    let o = output(false, "out\n", "err\n\nUse \"picotool help info\" for more\n");
    assert_eq!(failure(run_picotool_info(Some(&o), "picotool")), "err\nout");
    let o = output(false, "", "You may need to INSTALL a Driver\n");
    assert!(failure(run_picotool_info(Some(&o), "p")).contains("\n\nFix: install Zadig"));
    let o = output(true, "type: RP2040", "");
    assert_eq!(run_picotool_info(Some(&o), "p").unwrap().get("type"), Some("RP2040"));
}

// ── DAPLink and pyocd ──

#[test]
fn daplink_details_identify_a_microbit() {
    let f = parse_daplink_details(
        "# DAPLink Firmware\r\nUnique ID: 9904360254194e45\r\nHIC ID: 9796990b\r\nURL: https://microbit.org\r\nempty:\r\n",
    );
    assert_eq!(f.get("empty"), None);
    let page = print_daplink_info(&f, "DAPLink");
    assert_eq!(
        page,
        [
            "  Board:               DAPLink",
            "  Unique ID:           9904360254194e45",
            "  HIC ID:              9796990b",
            "  Board URL:           https://microbit.org",
            "  Variant:             BBC micro:bit V2.21",
            "  Target chip:         nRF52833 — Cortex-M4F, 128 KB SRAM, 512 KB flash, BLE 5.x",
        ]
    );
    let read = Drive::Read { drive: "D:\\".to_string(), text: "HIC ID: 1".to_string() };
    assert_eq!(run_daplink_query(&read).unwrap().get("Drive letter"), Some("D:\\"));
    let bad = Drive::Unreadable { path: "D:\\DETAILS.TXT".to_string() };
    assert_eq!(failure(run_daplink_query(&bad)), "Could not read D:\\DETAILS.TXT");
    assert!(failure(run_daplink_query(&Drive::NotFound)).starts_with("DAPLink mass storage drive not found."));
}

#[test]
fn json_strings_end_at_an_unescaped_quote() {
    assert_eq!(extract_json_string("{\"a\": \"x\"}", "a"), text("x"));
    assert_eq!(extract_json_string("{\"a\":  \"x\\\"y\"}", "a"), text("x\\\"y"));
    assert_eq!(extract_json_string("{\"a\": 1}", "a"), None);
    assert_eq!(extract_json_string("{\"a\": \"x", "a"), None);
    assert_eq!(extract_json_string("{\"b\": \"x\"}", "a"), None);
}

#[test]
fn pyocd_output_gives_the_rows_of_its_page() {
    let f = parse_pyocd_output(
        "{\"boards\": [{\"unique_id\": \"9904\", \"target\": \"nrf52833\"}]}",
        0x0d28,
        0x0204,
    );
    assert_eq!(
        print_pyocd_info(&f),
        [
            "  Probe unique ID:     9904",
            "  Target chip:         nrf52833",
            "  USB VID:PID:         0d28:0204",
        ]
    );
    assert_eq!(
        print_pyocd_info(&Fields::new()),
        ["  (pyocd returned no probe info — is the device still in the same port?)"]
    );
    assert_eq!(
        failure(run_pyocd_query(None, 1, 2)),
        "pyocd not found on PATH (install with: pip install pyocd)"
    );
    let o = output(false, "", "a\nb\n \n");
    assert_eq!(failure(run_pyocd_query(Some(&o), 1, 2)), "b");
}

const PYOCD_KEYS: [&str; 8] = [
    "USB filter", "unique_id", "info", "board_vendor", "board_name", "target", "vendor_name",
    "product_name",
];

fn pyocd_values(json: &str) -> Vec<Option<String>> {
    let f = parse_pyocd_output(json, 0x0d28, 0x0204);
    PYOCD_KEYS.iter().map(|k| f.get(k).map(|v| v.to_string())).collect()
}

#[test]
fn pyocd_reports_the_first_board_alone() {
    let filter = text("0d28:0204");
    assert_eq!(
        pyocd_values("{\"boards\":[{\"unique_id\":\"A\"},{\"unique_id\":\"B\",\"target\":\"nrf52833\"}]}"),
        [filter.clone(), text("A"), None, None, None, None, None, None]
    );
    // Neither does text around the list fill a field.
    assert_eq!(
        pyocd_values("{\"info\": \"x\", \"boards\": [\n {\"target\": \"t\"} ], \"board_name\": \"y\"}"),
        [filter.clone(), None, None, None, None, text("t"), None, None]
    );
    // A nested object belongs to the entry, and a brace inside a string is text.
    assert_eq!(
        pyocd_values("{\"boards\": [{\"a\": {\"b\": 1}, \"info\": \"} {\", \"target\": \"t\"}, {\"unique_id\": \"B\"}]}"),
        [filter.clone(), None, text("} {"), None, None, text("t"), None, None]
    );
    // An empty list has no board, whatever follows it.
    assert_eq!(
        pyocd_values("{\"boards\": [], \"more\": [{\"unique_id\": \"B\"}]}"),
        [filter.clone(), None, None, None, None, None, None, None]
    );
    // An entry that was cut off goes to the end of the text.
    assert_eq!(
        pyocd_values("{\"boards\": [{\"unique_id\": \"A\", \"target\": \"t\", \"info\": \"op"),
        [filter.clone(), text("A"), None, None, None, text("t"), None, None]
    );
    // A text without a list is one entry.
    assert_eq!(
        pyocd_values("{\"unique_id\": \"A\", \"board_vendor\": \"v\", \"product_name\": \"p\"}"),
        [filter, text("A"), None, text("v"), None, None, None, text("p")]
    );
}

#[test]
fn later_line_decides_a_field() {
    let f = parse_picotool_output("type: a\ntype: b\n");
    assert_eq!(f.get("type"), Some("b"));
}

// ── Sessions ──

fn entry(busid: &str, vidpid: &str) -> Entry {
    Entry { busid: busid.to_string(), vidpid: vidpid.to_string(), device: "x".to_string() }
}

fn port(name: &str, usb: Option<(u16, u16)>) -> SerialPort {
    SerialPort { name: name.to_string(), usb }
}

fn session(entries: &Vec<Entry>, ports: &Vec<SerialPort>, outcomes: &Vec<Outcome>) -> (Vec<String>, Next) {
    let boards: Vec<Candidate> = find_boards(entries);
    probe_boards(entries, &boards, ports, outcomes)
}

#[test]
fn bridge_is_probed_until_a_chip_is_found() {
    let entries = vec![entry("1-2", "1a86:7523"), entry("1-3", "0483:374b")];
    let ports = vec![port("COM1", None), port("COM7", Some((0x1a86, 0x7523)))];
    let mut outcomes = vec![];
    let (page, next) = session(&entries, &ports, &outcomes);
    assert_eq!(page, ["=== Board Probe ===", "", "[1-2  CH340  COM7  via espflash]"]);
    match next {
        Next::Run { board: 0, probe: 0, port } => assert_eq!(port, text("COM7")),
        _ => panic!("other probe"),
    }
    outcomes.push(Outcome::Failed("no sync\ncheck wiring".to_string()));
    let (page, next) = session(&entries, &ports, &outcomes);
    assert_eq!(
        page[3..],
        ["  Error: no sync", "         check wiring", "", "[1-2  CH340  COM7  via stm32flash]"]
    );
    assert!(matches!(next, Next::Run { board: 0, probe: 1, .. }));
    outcomes.push(Outcome::Report(vec!["  Bridge: CH340".to_string()]));
    let (page, next) = session(&entries, &ports, &outcomes);
    // The chip is found: avrdude is not tried, and the next board follows.
    assert_eq!(
        page[7..],
        ["  Bridge: CH340", "", "[1-3  ST-Link/V2-1 debug controller  0483:374b  via nusb (layer 1 only)]"]
    );
    match next {
        Next::Run { board: 1, probe: 0, port } => assert_eq!(port, None),
        _ => panic!("other probe"),
    }
    outcomes.push(Outcome::Empty);
    outcomes.push(Outcome::Report(vec![]));
    let (page, next) = session(&entries, &ports, &outcomes);
    assert_eq!(page[10], "  (no info parsed from output)");
    assert!(matches!(next, Next::Done));
}

#[test]
fn board_without_a_port_is_told_and_passed_over() {
    let entries = vec![entry("2-1", "2341:0043")];
    let (page, next) = session(&entries, &vec![port("COM1", Some((0x2341, 0x0001)))], &vec![]);
    assert_eq!(
        page,
        ["=== Board Probe ===", "", "[2-1  Arduino Uno R3  2341:0043  via avrdude]  no COM port found"]
    );
    assert!(matches!(next, Next::Done));
}

#[test]
fn descriptor_probe_runs_whatever_the_serial_probes_give() {
    let entries = vec![entry("3-1", "0403:6001")];
    let (_, next) = session(&entries, &vec![], &vec![]);
    assert!(matches!(next, Next::Run { board: 0, probe: 0, port: None }));
    let ports = vec![port("/dev/ttyUSB0", Some((0x0403, 0x6001)))];
    let outcomes = vec![Outcome::Report(vec!["  Board: x".to_string()])];
    // A report that came without a serial port does not end the serial probing.
    let (page, next) = session(&entries, &ports, &outcomes);
    assert!(matches!(next, Next::Run { board: 0, probe: 1, port: Some(_) }));
    assert_eq!(
        page[page.len() - 1],
        "[3-1  FT232R Arduino (ATmega328-class)  /dev/ttyUSB0  via avrdude]"
    );
}

#[test]
fn reports_become_outcomes() {
    let failed = probe_outcome(&ProbeKind::Espflash, Err("why".to_string()), "b");
    assert!(matches!(failed, Outcome::Failed(e) if e == "why"));
    let empty = probe_outcome(&ProbeKind::Espflash, Ok(ProbeReport::Esp(parse_espflash_output(""))), "b");
    assert!(matches!(empty, Outcome::Empty));
    let f = parse_picotool_output("type: RP2040");
    match probe_outcome(&ProbeKind::Picotool, Ok(ProbeReport::Fields(f)), "Pico") {
        Outcome::Report(page) => {
            assert_eq!(page, ["  Board:               Pico", "  Chip:                RP2040"])
        },
        _ => panic!("no report"),
    }
    let f = Fields::new();
    assert!(matches!(probe_outcome(&ProbeKind::Daplink, Ok(ProbeReport::Fields(f)), "b"), Outcome::Empty));
}

// ── Suggestions ──

#[test]
fn driver_is_suggested_by_identity() {
    let none: Option<StlinkDriver> = None;
    assert!(driver_suggestion(0x0483, 0x374b, &Some(StlinkDriver::WinUsb)).is_none());
    let (what, command) = driver_suggestion(0x0483, 0x374b, &none).unwrap();
    assert_eq!(what, "WinUSB on the ST-Link MI_00 debug interface");
    assert_eq!(command, "usbipd-rs --install-driver --confirm   (run in an Administrator shell)");
    assert_eq!(driver_suggestion(0x0483, 0xdf11, &none).unwrap().1, "usbipd-rs --install zadig");
    assert_eq!(driver_suggestion(0x1a86, 1, &none).unwrap().1, "usbipd-rs --install ch340");
    assert_eq!(driver_suggestion(0x10c4, 1, &none).unwrap().1, "usbipd-rs --install cp210x");
    assert_eq!(driver_suggestion(0x0403, 1, &none).unwrap().1, "usbipd-rs --install ftdi");
    assert_eq!(driver_suggestion(0x2e8a, 1, &none).unwrap().1, "usbipd-rs --install zadig");
    assert!(driver_suggestion(0x0483, 0x3747, &none).is_none());
    assert!(driver_suggestion(0x0d28, 0x0204, &none).is_none());
}

#[test]
fn flasher_is_suggested_by_the_first_probe_that_flashes() {
    let ft232r: KnownBoard = lookup_board(0x0403, 0x6001).unwrap();
    assert_eq!(flasher_suggestion(&ft232r).unwrap().1, "cargo install ravedude");
    assert_eq!(
        flasher_suggestion(&lookup_board(0x1a86, 0x7523).unwrap()).unwrap().1,
        "cargo install espflash"
    );
    assert_eq!(
        flasher_suggestion(&lookup_board(0x0483, 0x374b).unwrap()).unwrap().0,
        "probe-rs — SWD/JTAG flash & debug (Rust)"
    );
    let bare = KnownBoard { vid: 0, pid: 0, name: "bare", probes: &[ProbeKind::Ftdi] };
    assert!(flasher_suggestion(&bare).is_none());
}

#[test]
fn each_command_is_suggested_once() {
    let entries = vec![entry("1", "0483:df11"), entry("2", "2e8a:0003"), entry("3", "0d28:0204")];
    let boards = find_boards(&entries);
    let bound = vec![None, None, None];
    let page = print_probe_install_suggestions(&entries, &boards, &bound, Os::Windows);
    assert_eq!(
        page,
        [
            "",
            "=== Suggested installs ===",
            "1. Driver — let the host talk to the board:",
            "   - WinUSB for the STM32 DFU bootloader (Zadig)",
            "       usbipd-rs --install zadig",
            "2. Rust flashing tool:",
            "   - probe-rs — SWD/JTAG flash & debug (Rust)",
            "       cargo install probe-rs-tools",
        ]
    );
    let page = print_probe_install_suggestions(&entries, &boards, &bound, Os::Linux);
    assert_eq!(
        page[3..5],
        [
            "   - no Windows-style driver needed on this OS (kernel modules are built in).",
            "     For SWD probes, ensure udev rules / group permissions allow USB access.",
        ]
    );
    let entries = vec![entry("3", "0d28:0204")];
    let boards = find_boards(&entries);
    let page = print_probe_install_suggestions(&entries, &boards, &vec![None], Os::Windows);
    assert_eq!(page[3], "   - detected board(s) already have a working driver.");
}
