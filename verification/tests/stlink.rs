use std::collections::HashMap;
use usbipd_rs::stlink::controller::{
    run_stlink_controller_query, stlink_controller_profile, Descriptors,
};
use usbipd_rs::stlink::driver::{stlink_driver_check, stlink_driver_script, StlinkDriver};
use usbipd_rs::stlink::target::{
    run_stlink_target_query, stlink_target_report, swd_no_target_hint, Findings, StlinkQuery,
    Target,
};
use usbipd_rs::swd::cmsisdap::{Reply, Run};
use usbipd_rs::swd::cmsisdap_query::Opened;
use usbipd_rs::swd::stlink::{
    enter_swd, get_version, get_voltage_mv, read_debug_reg, read_idcode, reply_len, request_len,
    VersionRun,
};

fn text(s: &str) -> Option<String> {
    Some(s.to_string())
}

struct Link {
    mode: u8,
    memory: HashMap<u32, u32>,
    target: bool,
    sent: Vec<Vec<u8>>,
}

impl Link {
    fn answer(&mut self, cmd: &[u8]) -> Reply {
        assert_eq!(cmd.len(), 16);
        self.sent.push(cmd.to_vec());
        match (cmd[0], cmd[1]) {
            (0xF1, _) => Ok(vec![0x24, 0xC7, 0x83, 0x04, 0x4B, 0x37]),
            (0xF7, _) => Ok(vec![0xF4, 0x05, 0, 0, 0x2C, 0x08, 0, 0]),
            (0xF5, _) => Ok(vec![self.mode, 0]),
            (0xF2, 0x30) => Ok(vec![0x80, 0]),
            (0xF2, 0x31) => {
                if self.target {
                    Ok(vec![0x80, 0, 0, 0, 0x77, 0x14, 0xA0, 0x2B, 0, 0, 0, 0])
                } else {
                    Ok(vec![0x09, 0])
                }
            },
            (0xF2, 0x36) => {
                let addr = u32::from_le_bytes([cmd[2], cmd[3], cmd[4], cmd[5]]);
                match self.memory.get(&addr) {
                    Some(v) => {
                        let b = v.to_le_bytes();
                        Ok(vec![0x80, 0, 0, 0, b[0], b[1], b[2], b[3]])
                    },
                    None => Ok(vec![0x11, 0, 0, 0, 0, 0, 0, 0]),
                }
            },
            _ => Ok(vec![]),
        }
    }

    fn findings(&mut self) -> Findings {
        let mut t: Vec<Reply> = Vec::new();
        loop {
            match run_stlink_target_query(&Opened::Ready, false, &t, &[]) {
                StlinkQuery::Send(cmd) => {
                    let reply = self.answer(&cmd);
                    t.push(reply);
                    assert!(t.len() <= 14);
                },
                StlinkQuery::Open(f) => return f,
                StlinkQuery::Closed(_) => panic!("closed"),
            }
        }
    }
}

#[test]
fn version_is_read_from_its_bit_fields() {
    match get_version(&[]) {
        VersionRun::Send(cmd) => {
            assert_eq!(cmd, [0xF1, 0, 0, 0, 0, 0, 0, 0, 0, 0, 0, 0, 0, 0, 0, 0])
        },
        _ => panic!("ended"),
    }
    let t: Vec<Reply> = vec![Ok(vec![0x24, 0xC7, 0, 0, 0, 0])];
    match get_version(&t) {
        VersionRun::Done(v, _) => assert_eq!(v, Ok("ST-Link v2 JTAG/SWD v19 SWIM v7".to_string())),
        _ => panic!("goes on"),
    }
    let t: Vec<Reply> = vec![Ok(vec![0x24])];
    match get_version(&t) {
        VersionRun::Done(v, _) => assert_eq!(v, Err("short version response (1 bytes)".to_string())),
        _ => panic!("goes on"),
    }
}

#[test]
fn voltage_is_the_ratio_of_two_readings() {
    let t: Vec<Reply> = vec![Ok(vec![0xF4, 0x05, 0, 0, 0x2C, 0x08, 0, 0])];
    match get_voltage_mv(&t) {
        Run::Done(v, _) => assert_eq!(v, Ok(2400 * 0x082C / 0x05F4)),
        _ => panic!("goes on"),
    }
    let t: Vec<Reply> = vec![Ok(vec![0, 0, 0, 0, 1, 0, 0, 0])];
    match get_voltage_mv(&t) {
        Run::Done(v, _) => {
            assert_eq!(v, Err("voltage divisor is zero (probe not ready)".to_string()))
        },
        _ => panic!("goes on"),
    }
    let t: Vec<Reply> = vec![Ok(vec![1, 0, 0, 0, 1, 0, 0])];
    match get_voltage_mv(&t) {
        Run::Done(v, _) => assert_eq!(v, Err("short voltage response".to_string())),
        _ => panic!("goes on"),
    }
}

#[test]
fn power_up_mode_is_left_before_swd_is_entered() {
    for (mode, exit) in [(0u8, Some([0xF3u8, 0x07])), (1, None), (2, Some([0xF2, 0x21])), (3, Some([0xF4, 0x01]))] {
        let t: Vec<Reply> = vec![Ok(vec![mode, 0])];
        match enter_swd(&t) {
            Run::Send(cmd) => match exit {
                Some(head) => assert_eq!(cmd[..2], head),
                None => assert_eq!(cmd[..3], [0xF2, 0x30, 0xA3]),
            },
            _ => panic!("ended"),
        }
    }
    // A probe that does not tell its mode is left alone.
    let t: Vec<Reply> = vec![Err("bulk IN failed".to_string()), Ok(vec![])];
    match enter_swd(&t) {
        Run::Done(status, _) => assert_eq!(status, Ok(0)),
        _ => panic!("goes on"),
    }
}

#[test]
fn registers_are_read_by_address() {
    match read_debug_reg(0xE004_2000, &[]) {
        Run::Send(cmd) => assert_eq!(cmd[..6], [0xF2, 0x36, 0x00, 0x20, 0x04, 0xE0]),
        _ => panic!("ended"),
    }
    let t: Vec<Reply> = vec![Ok(vec![0x80, 0, 0, 0, 1, 2, 3, 4])];
    match read_debug_reg(0xE004_2000, &t) {
        Run::Done(v, _) => assert_eq!(v, Ok(0x0403_0201)),
        _ => panic!("goes on"),
    }
    let t: Vec<Reply> = vec![Ok(vec![0x11])];
    match read_debug_reg(0xE004_2000, &t) {
        Run::Done(v, _) => {
            assert_eq!(v, Err("debug-reg read 0xE0042000 status 0x11".to_string()))
        },
        _ => panic!("goes on"),
    }
    let t: Vec<Reply> = vec![Ok(vec![0x80, 0])];
    match read_debug_reg(0xE004_2000, &t) {
        Run::Done(v, _) => assert_eq!(v, Err("short debug-reg response".to_string())),
        _ => panic!("goes on"),
    }
    match read_idcode(&t) {
        Run::Done(v, _) => assert_eq!(v, Err("short idcode response".to_string())),
        _ => panic!("goes on"),
    }
}

#[test]
fn reads_are_rounded_up_to_whole_packets() {
    assert_eq!(request_len(6, 64), 64);
    assert_eq!(request_len(64, 64), 64);
    assert_eq!(request_len(65, 64), 128);
    assert_eq!(request_len(0, 64), 0);
    let mut cmd = [0u8; 16];
    for (head, n) in [([0xF1u8, 0], 6), ([0xF7, 0], 8), ([0xF5, 0], 2), ([0xF2, 0x30], 2), ([0xF2, 0x31], 12), ([0xF2, 0x36], 8), ([0xF3, 0x07], 0)] {
        cmd[..2].copy_from_slice(&head);
        assert_eq!(reply_len(&cmd), n);
    }
}

#[test]
fn target_behind_an_stlink_is_reported() {
    let mut link = Link { mode: 1, memory: HashMap::new(), target: true, sent: Vec::new() };
    link.memory.insert(0xE000_ED00, 0x410F_C241);
    link.memory.insert(0xE004_2000, 0x1000_6421);
    link.memory.insert(0x1FFF_7A20, 0x0200_0000);
    link.memory.insert(0x4002_3C14, 0x0FFF_AAED);
    let f = link.findings();
    assert_eq!(f.version, text("ST-Link v2 JTAG/SWD v19 SWIM v7"));
    assert_eq!(f.millivolts, Some(3294));
    let r = stlink_target_report(f, "3.29", "").unwrap();
    assert_eq!(r.probe, text("ST-Link v2 JTAG/SWD v19 SWIM v7, target 3.29 V"));
    assert_eq!(r.dp_idcode, text("0x2BA01477"));
    assert_eq!(r.device_id, text("0x421 — STM32F446 — Cortex-M4F"));
    assert_eq!(r.flash_size, text("512 KB"));
    assert_eq!(r.read_protection, text("Disabled — flash readable (RDP Level 0)"));
    // Only questions were asked.
    for cmd in &link.sent {
        assert!(matches!((cmd[0], cmd[1]), (0xF1, _) | (0xF7, _) | (0xF5, _) | (0xF2, 0x30) | (0xF2, 0x31) | (0xF2, 0x36)));
    }
}

#[test]
fn silent_target_gives_a_hint() {
    let mut link = Link { mode: 2, memory: HashMap::new(), target: false, sent: Vec::new() };
    let f = link.findings();
    assert!(matches!(f.target, Target::Silent { status: 0x80, millivolts: Some(3294) }));
    let r = stlink_target_report(f, "3.29", "3.29").unwrap();
    assert_eq!(
        r.layer2,
        text("none - SWD target did not answer (enter-SWD status 0x80)")
    );
    assert!(r.hint.unwrap().starts_with("probe-sensed target voltage: 3.29 V. Check: target is powered;"));
    assert!(swd_no_target_hint(None).starts_with("probe-sensed target voltage: unreadable. Check:"));
}

#[test]
fn closed_stlink_is_skipped() {
    match run_stlink_target_query(&Opened::NotFound, true, &[], &[]) {
        StlinkQuery::Closed(r) => {
            assert_eq!(r.layer2, text("SKIP - ST-Link USB device not found"))
        },
        _ => panic!("goes on"),
    }
    let opened = Opened::Failed("claim MI_00 (needs WinUSB on MI_00)".to_string());
    match run_stlink_target_query(&opened, true, &[], &[]) {
        StlinkQuery::Closed(r) => {
            assert_eq!(
                r.layer2,
                text("SKIP - cannot open debug interface: claim MI_00 (needs WinUSB on MI_00)")
            );
            assert_eq!(
                r.fix,
                text("bind WinUSB to MI_00: usbipd-rs --install-driver --confirm (Administrator)")
            );
        },
        _ => panic!("goes on"),
    }
}

#[test]
fn controller_is_described_by_its_product_id() {
    let e = match run_stlink_controller_query(0x0483, 0x1234, None, None) {
        Err(e) => e,
        Ok(_) => panic!("described"),
    };
    assert_eq!(e, "no layer-1 ST-Link profile for 0483:1234");
    let dev = Descriptors { product: text("STM32 STLink"), serial: text("0669"), version: 0x0100 };
    let r = match run_stlink_controller_query(0x0483, 0x374b, Some(dev), Some(StlinkDriver::WinUsb)) {
        Ok(r) => r,
        Err(e) => panic!("{}", e),
    };
    assert_eq!(r.layer, text("1 - USB debug controller"));
    assert_eq!(r.usb_device_version, text("0x0100"));
    assert_eq!(r.debug_interface_driver, text("WinUSB"));
    assert_eq!(r.layer2, text("Auto-probed read-only below (native SWD)"));
    let page = r.print();
    assert_eq!(page[0], "  Architecture:");
    assert_eq!(page[1], "  Layer:                   1 - USB debug controller");
    assert!(!r.is_empty());
    let r = match run_stlink_controller_query(0x0483, 0x3748, None, None) {
        Ok(r) => r,
        Err(e) => panic!("{}", e),
    };
    assert_eq!(
        r.descriptor_access,
        text("Unavailable through nusb; VID:PID profile still shown")
    );
    assert!(stlink_controller_profile(0x3748).is_some());
    assert!(stlink_controller_profile(0xdf11).is_none());
}

#[test]
fn driver_binding_is_read_from_the_report() {
    assert!(stlink_driver_check(None).is_none());
    assert!(stlink_driver_check(Some("DEVNODE=8\n")).is_none());
    let up = stlink_driver_check(Some("SERVICE=winusb\r\nDEVNODE=25174026\r\n"));
    assert!(matches!(up, Some(StlinkDriver::WinUsb)));
    match stlink_driver_check(Some("SERVICE=usbccgp\n")) {
        Some(StlinkDriver::Other(s)) => assert_eq!(s, "usbccgp"),
        _ => panic!("bound"),
    }
    match stlink_driver_check(Some(
        "SERVICE=\nPROBLEM=28\nINF=\nPROVIDER=\nVERSION=\n",
    )) {
        Some(StlinkDriver::Other(s)) => assert_eq!(
            s,
            "no function driver is bound (problem code 28); INF -, provider -, version -"
        ),
        _ => panic!("bound"),
    }
    match stlink_driver_check(Some(
        " SERVICE=WinUSB\nDEVNODE=1\nPROBLEM=10\nFILTERS=vboxusb\nINF=oem3.inf\nPROVIDER=ST\nVERSION=2.2\n",
    )) {
        Some(StlinkDriver::Other(s)) => assert_eq!(
            s,
            "WinUSB device node stopped (problem code 10); conflicting upper filter(s): vboxusb; INF oem3.inf, provider ST, version 2.2"
        ),
        _ => panic!("bound"),
    }
    assert!(stlink_driver_script(0x374b).contains("'VID_0483&PID_374B'"));
}
