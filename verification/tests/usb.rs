use usbipd_rs::boards::{lookup_board, ProbeKind};
use usbipd_rs::installer::Os;
use usbipd_rs::usb::{
    cmd_list_usb, find_boards, list_entries, list_rows, nusb_bus_number, nusb_busid, pad_display,
    print_table, Entry, Row, UsbDevice,
};
use usbipd_rs::value_or_dash;

fn device(bus: &str, ports: &[u8], vid: u16, pid: u16) -> UsbDevice {
    UsbDevice {
        bus_id: bus.to_string(),
        port_chain: ports.to_vec(),
        address: 9,
        vid,
        pid,
        manufacturer: None,
        product: None,
        speed: None,
    }
}

fn row(busid: &str, vidpid: &str, device: &str, speed: &str) -> Row {
    Row {
        busid: busid.to_string(),
        vidpid: vidpid.to_string(),
        device: device.to_string(),
        speed: speed.to_string(),
    }
}

#[test]
fn text_is_padded_by_its_columns() {
    assert_eq!(pad_display("ab", 4), "ab  ");
    assert_eq!(pad_display("abcd", 4), "abcd");
    assert_eq!(pad_display("abcde", 4), "abcde");
    assert_eq!(pad_display("", 2), "  ");
    // Two columns for each character of this script, none for a combining accent.
    assert_eq!(pad_display("日本", 6), "日本  ");
    assert_eq!(pad_display("e\u{301}", 3), "e\u{301}  ");
}

#[test]
fn table_is_aligned_by_columns() {
    let rows = vec![
        row("1-2", "1a86:7523", "日本語 bridge", "Full"),
        row("12-10.4", "0483:374b", "ST-Link", "-"),
    ];
    assert_eq!(
        print_table(&rows),
        [
            "BUSID    VID:PID    DEVICE         SPEED",
            "----------------------------------------",
            "1-2      1a86:7523  日本語 bridge  Full",
            "12-10.4  0483:374b  ST-Link        -",
        ]
    );
    assert_eq!(print_table(&vec![]), ["BUSID  VID:PID  DEVICE  SPEED", "-----------------------------"]);
}

#[test]
fn bus_numbers_follow_the_system() {
    let buses = vec!["pci-b".to_string(), "pci-a".to_string(), "pci-a".to_string()];
    assert_eq!(nusb_bus_number("pci-a", Os::Windows, &buses), 0);
    assert_eq!(nusb_bus_number("pci-b", Os::Windows, &buses), 1);
    assert_eq!(nusb_bus_number("pci-c", Os::Windows, &buses), 0);
    assert_eq!(nusb_bus_number("1A", Os::Macos, &vec![]), 0x1a);
    assert_eq!(nusb_bus_number("003", Os::Linux, &vec![]), 3);
    assert_eq!(nusb_bus_number("300", Os::Linux, &vec![]), 0);
    assert_eq!(nusb_bus_number("1A", Os::Linux, &vec![]), 0);
    assert_eq!(nusb_busid(&device("003", &[1, 4], 1, 2), Os::Linux, &vec![]), "3-1.4");
    assert_eq!(nusb_busid(&device("003", &[], 1, 2), Os::Linux, &vec![]), "3-9");
}

#[test]
fn devices_are_listed_by_bus_and_port() {
    let mut a = device("2", &[1], 0x1a86, 0x7523);
    a.manufacturer = Some("WCH".to_string());
    a.product = Some("Serial".to_string());
    let mut b = device("1", &[10], 0x0483, 0x374b);
    b.product = Some("STLink".to_string());
    let mut c = device("1", &[2, 1], 0xabcd, 0x0001);
    c.manufacturer = Some("Acme".to_string());
    let d = device("1", &[2], 0x0001, 0x0002);
    let e = device("1", &[2], 0x0003, 0x0004);
    let list = list_entries(&vec![a, b, c, d, e], Os::Linux, &vec![]);
    let told: Vec<(&str, &str, &str)> = list
        .iter()
        .map(|e| (e.busid.as_str(), e.vidpid.as_str(), e.device.as_str()))
        .collect();
    assert_eq!(
        told,
        [
            ("1-2", "0001:0002", "(unknown device)"),
            ("1-2", "0003:0004", "(unknown device)"),
            ("1-2.1", "abcd:0001", "Acme"),
            ("1-10", "0483:374b", "STLink"),
            ("2-1", "1a86:7523", "WCH Serial"),
        ]
    );
    assert_eq!(list[2].vidpid_pair(), (0xabcd, 1));
}

fn entry(vidpid: &str) -> Entry {
    Entry { busid: "1-1".to_string(), vidpid: vidpid.to_string(), device: "x".to_string() }
}

#[test]
fn identity_is_read_from_its_text() {
    assert_eq!(entry("1a86:7523").vidpid_pair(), (0x1a86, 0x7523));
    assert_eq!(entry("1A86:+1:9").vidpid_pair(), (0x1a86, 1));
    assert_eq!(entry("10000:zz").vidpid_pair(), (0, 0));
    assert_eq!(entry("").vidpid_pair(), (0, 0));
}

#[test]
fn rows_take_the_speed_of_the_last_such_device() {
    let mut a = device("1", &[1], 1, 2);
    a.speed = Some("Full".to_string());
    let mut b = device("1", &[2], 1, 2);
    b.speed = Some("High".to_string());
    let rows = list_rows(&vec![entry("0001:0002"), entry("0001:0003")], &vec![a, b]);
    assert_eq!(rows[0].speed, "High");
    assert_eq!(rows[1].speed, "-");
    assert_eq!(rows[0].device, "x");
}

#[test]
fn listing_names_the_boards_and_what_can_be_done() {
    let entries = vec![entry("1a86:7523"), entry("ffff:0001"), entry("0483:374b"), entry("2e8a:000c")];
    let rows = list_rows(&entries, &vec![]);
    let boards = find_boards(&entries);
    assert_eq!(boards.len(), 3);
    let page = cmd_list_usb(&entries, &rows, &boards, false);
    assert_eq!(page[6], "");
    assert_eq!(page[7], "Probable boards detected:");
    assert_eq!(page[8], "  - [ESP+STM32+AVR] 1a86:7523 (CH340) at BUSID 1-1");
    assert!(page.contains(&"ST-Link present — safe, read-only options (no chip reset):".to_string()));
    assert!(page.contains(&"CMSIS-DAP probe present — `--probe` reads the downstream SWD target".to_string()));
    let page = cmd_list_usb(&entries, &rows, &boards, true);
    assert_eq!(page.len(), 7);
    let none = vec![entry("ffff:0001")];
    let page = cmd_list_usb(&none, &list_rows(&none, &vec![]), &find_boards(&none), false);
    assert_eq!(page.len(), 3);
    let page = cmd_list_usb(&vec![], &vec![], &vec![], false);
    assert_eq!(page[2], "(no connected USB devices found)");
}

#[test]
fn boards_are_known_by_identity() {
    let b = lookup_board(0x0403, 0x6001).unwrap();
    assert_eq!(b.name, "FT232R Arduino (ATmega328-class)");
    assert_eq!(b.probes.len(), 2);
    assert!(matches!(b.probes[0], ProbeKind::Ftdi));
    match b.probes[1] {
        ProbeKind::Avrdude { targets } => assert_eq!(targets[0].bauds, [57600, 115200]),
        _ => panic!("other probe"),
    }
    assert!(b.probes[1].needs_serial_port());
    assert!(!b.probes[0].needs_serial_port());
    assert_eq!(b.probes[1].tool_name(), "avrdude");
    assert_eq!(b.probes[1].label(), "AVR");
    assert!(lookup_board(0x0403, 0x6002).is_none());
}

#[test]
fn nothing_is_shown_as_a_dash() {
    assert_eq!(value_or_dash(""), "-");
    assert_eq!(value_or_dash(" "), " ");
    assert_eq!(value_or_dash("x"), "x");
}
