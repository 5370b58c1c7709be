use std::collections::HashMap;
use usbipd_rs::stlink::controller::Descriptors;
use usbipd_rs::stm32::decode::TargetReport;
use usbipd_rs::swd::cmsisdap::{
    bringup, check_reply, open_mem_ap, read_mem32, Reply, Run, DAP_CONNECT, DAP_SWD_CONFIGURE,
    DAP_SWJ_CLOCK, DAP_SWJ_SEQUENCE, DAP_TRANSFER, DAP_TRANSFER_CONFIGURE, RP2040_DPIDR,
};
use usbipd_rs::swd::cmsisdap_query::{
    rp2040_rows, run_cmsisdap_controller_query, run_cmsisdap_target_query, Opened, Query,
};
use usbipd_rs::swd::interface::{
    bulk_endpoints, cmsisdap_interface, stlink_interface, stlink_out_endpoint, UsbInterface,
};

fn text(s: &str) -> Option<String> {
    Some(s.to_string())
}

/// A probe with a target behind it.
struct Probe {
    dpidr: Option<u32>,
    /// The port answers only once it was selected.
    multidrop: bool,
    selected: bool,
    memory: HashMap<u32, u32>,
    tar: u32,
    sent: Vec<Vec<u8>>,
}

impl Probe {
    fn new(dpidr: Option<u32>, multidrop: bool) -> Probe {
        Probe {
            dpidr,
            multidrop,
            selected: false,
            memory: HashMap::new(),
            tar: 0,
            sent: Vec::new(),
        }
    }

    fn word(value: u32) -> Reply {
        let b = value.to_le_bytes();
        Ok(vec![DAP_TRANSFER, 1, 1, b[0], b[1], b[2], b[3]])
    }

    fn answer(&mut self, cmd: &[u8]) -> Reply {
        self.sent.push(cmd.to_vec());
        if cmd[0] == DAP_SWJ_SEQUENCE && cmd[1] == 102 {
            self.selected = true;
        }
        if cmd[0] != DAP_TRANSFER {
            return Ok(vec![cmd[0], if cmd[0] == DAP_CONNECT { 1 } else { 0 }]);
        }
        if self.dpidr.is_none() || (self.multidrop && !self.selected) {
            return Ok(vec![DAP_TRANSFER, 0, 7]);
        }
        match cmd[3] {
            0x02 => Probe::word(self.dpidr.unwrap()),
            0x06 => Probe::word(0xF000_0040),
            0x05 => {
                self.tar = u32::from_le_bytes([cmd[4], cmd[5], cmd[6], cmd[7]]);
                Ok(vec![DAP_TRANSFER, 1, 1])
            },
            0x0F => match self.memory.get(&self.tar) {
                Some(v) => Probe::word(*v),
                None => Ok(vec![DAP_TRANSFER, 1, 4]),
            },
            _ => Ok(vec![DAP_TRANSFER, 1, 1]),
        }
    }

    fn query(&mut self) -> TargetReport {
        let mut t: Vec<Reply> = Vec::new();
        loop {
            match run_cmsisdap_target_query(&Opened::Ready, false, &t, &[]) {
                Query::Send(cmd) => {
                    let reply = self.answer(&cmd);
                    t.push(reply);
                    assert!(t.len() <= 177);
                },
                Query::Done(report) => return report,
                Query::FlashMapOverflow => panic!("overflow"),
            }
        }
    }
}

#[test]
fn replies_are_held_against_their_command() {
    assert_eq!(check_reply(&[2, 1], &Ok(vec![2, 1])), None);
    assert_eq!(
        check_reply(&[2, 1], &Ok(vec![3])),
        text("DAP response id 0x03 != command 0x02")
    );
    assert_eq!(
        check_reply(&[0x12, 1], &Ok(vec![])),
        text("DAP response id 0x00 != command 0x12")
    );
    assert_eq!(
        check_reply(&[2, 1], &Err("DAP OUT failed: stall".to_string())),
        text("DAP OUT failed: stall")
    );
}

#[test]
fn single_drop_bring_up_sends_no_selection() {
    let mut probe = Probe::new(Some(0x2BA0_1477), false);
    let mut t: Vec<Reply> = Vec::new();
    loop {
        match bringup(&t) {
            Run::Send(cmd) => {
                let reply = probe.answer(&cmd);
                t.push(reply);
            },
            Run::Done(result, rest) => {
                assert_eq!(result, Ok((0x2BA0_1477, false)));
                assert!(rest.is_empty());
                break;
            },
        }
    }
    let expected: Vec<Vec<u8>> = vec![
        vec![DAP_CONNECT, 1],
        vec![DAP_SWJ_CLOCK, 0xA0, 0x86, 0x01, 0x00],
        vec![DAP_SWD_CONFIGURE, 0],
        vec![DAP_TRANSFER_CONFIGURE, 0, 0x80, 0, 0, 0],
        vec![DAP_SWJ_SEQUENCE, 51, 0xFF, 0xFF, 0xFF, 0xFF, 0xFF, 0xFF, 0x07],
        vec![DAP_SWJ_SEQUENCE, 16, 0x9E, 0xE7],
        vec![DAP_SWJ_SEQUENCE, 51, 0xFF, 0xFF, 0xFF, 0xFF, 0xFF, 0xFF, 0x07],
        vec![DAP_SWJ_SEQUENCE, 8, 0],
        vec![DAP_TRANSFER, 0, 1, 2],
        vec![DAP_TRANSFER, 0, 1, 0, 0x1E, 0, 0, 0],
    ];
    assert_eq!(probe.sent, expected);
}

#[test]
fn multidrop_port_is_selected_after_the_single_tries() {
    let mut probe = Probe::new(Some(RP2040_DPIDR), true);
    let mut t: Vec<Reply> = Vec::new();
    loop {
        match bringup(&t) {
            Run::Send(cmd) => {
                let reply = probe.answer(&cmd);
                t.push(reply);
            },
            Run::Done(result, _) => {
                assert_eq!(result, Ok((RP2040_DPIDR, true)));
                break;
            },
        }
    }
    let selections: Vec<&Vec<u8>> =
        probe.sent.iter().filter(|c| c[0] == DAP_SWJ_SEQUENCE && c[1] == 102).collect();
    // 51 high bits, 3 idle bits, and the selection of core 0 with its parity.
    assert_eq!(
        selections,
        [&vec![
            DAP_SWJ_SEQUENCE, 102, 0xFF, 0xFF, 0xFF, 0xFF, 0xFF, 0xFF, 0x47, 0xE6, 0x3F, 0x49,
            0x01, 0x08, 0x00
        ]]
    );
    let reads = probe.sent.iter().filter(|c| **c == [DAP_TRANSFER, 0, 1, 2]).count();
    assert_eq!(reads, 11);
}

#[test]
fn multidrop_port_is_woken_from_dormant_only_after_plain_selections() {
    let mut probe = Probe::new(None, false);
    probe.query();
    // A wake-up from dormant sends the selection alert before the selection.
    let steps: Vec<bool> = probe
        .sent
        .iter()
        .filter(|c| c[0] == DAP_SWJ_SEQUENCE && (c[1] == 102 || c.windows(4).any(|w| w == [0x92, 0xF3, 0x09, 0x62])))
        .map(|c| c[1] == 102)
        .collect();
    assert_eq!(steps, [true, true, false, true, false, true]);
}

#[test]
fn silent_bus_fails_with_every_attempt_named() {
    let mut probe = Probe::new(None, false);
    let report = probe.query();
    assert_eq!(report.probe, text("CMSIS-DAP v2 (native nusb)"));
    assert_eq!(
        report.layer2,
        text("none - SWD bring-up failed: no SWD target answered after 10 single-drop tries (last DPIDR 0x00000000); multidrop: reset/1002927: DAP_Transfer ack 0x07 (count 0); reset/11002927: DAP_Transfer ack 0x07 (count 0); dormant/1002927: DAP_Transfer ack 0x07 (count 0); dormant/11002927: DAP_Transfer ack 0x07 (count 0)")
    );
    assert!(report.hint.unwrap().starts_with("CMSIS-DAP probe present but no target answered."));
    assert_eq!(report.dp_idcode, None);
}

#[test]
fn unknown_second_version_port_is_not_taken() {
    let mut probe = Probe::new(Some(0x0BC1_2478), false);
    let layer2 = probe.query().layer2.unwrap();
    assert!(layer2.contains("(last DPIDR 0x0BC12478)"));
    assert!(layer2.contains("multidrop: reset/1002927: DPIDR 0x0BC12478 != RP2040; "));
    assert!(layer2.contains("; dormant/1002927: DPIDR 0x0BC12478 != RP2040; "));
}

#[test]
fn refused_connection_is_reported() {
    let t: Vec<Reply> = vec![Ok(vec![DAP_CONNECT, 0])];
    match bringup(&t) {
        Run::Done(Err(e), _) => assert_eq!(e, "DAP_Connect SWD not accepted (resp Some(0))"),
        _ => panic!("connected"),
    }
    let t: Vec<Reply> = vec![Ok(vec![DAP_CONNECT])];
    match bringup(&t) {
        Run::Done(Err(e), _) => assert_eq!(e, "DAP_Connect SWD not accepted (resp None)"),
        _ => panic!("connected"),
    }
}

#[test]
fn power_up_that_is_not_acknowledged_ends_after_fifty_reads() {
    let mut t: Vec<Reply> = Vec::new();
    let mut reads = 0;
    loop {
        match open_mem_ap(&t) {
            Run::Send(cmd) => {
                if cmd[3] == 0x06 {
                    reads += 1;
                }
                t.push(Ok(vec![DAP_TRANSFER, 1, 1, 0, 0, 0, 0x80]));
            },
            Run::Done(result, _) => {
                assert_eq!(result, Err("DP power-up not acknowledged".to_string()));
                break;
            },
        }
    }
    assert_eq!(reads, 50);
}

#[test]
fn faulted_read_is_cleared_and_tried_once_more() {
    let fault = Ok(vec![DAP_TRANSFER, 1, 4]);
    let ok = Ok(vec![DAP_TRANSFER, 1, 1]);
    let value = Ok(vec![DAP_TRANSFER, 1, 1, 0x78, 0x56, 0x34, 0x12]);
    let t: Vec<Reply> = vec![fault.clone(), ok.clone(), ok.clone()];
    match read_mem32(0xE000_ED00, &t) {
        Run::Send(cmd) => assert_eq!(cmd, [DAP_TRANSFER, 0, 1, 0x0F]),
        _ => panic!("ended"),
    }
    let t: Vec<Reply> = vec![fault.clone(), ok.clone(), ok.clone(), value];
    match read_mem32(0xE000_ED00, &t) {
        Run::Done(result, _) => assert_eq!(result, Ok(0x1234_5678)),
        _ => panic!("goes on"),
    }
    // The first failure is the one that is told.
    let t: Vec<Reply> = vec![fault, ok, Err("DAP IN failed: timeout".to_string())];
    match read_mem32(0xE000_ED00, &t) {
        Run::Done(result, _) => {
            assert_eq!(result, Err("DAP_Transfer ack 0x04 (count 1)".to_string()))
        },
        _ => panic!("goes on"),
    }
}

#[test]
fn target_behind_the_probe_is_identified() {
    let mut probe = Probe::new(Some(0x1BA0_1477), false);
    probe.memory.insert(0xE000_ED00, 0x411F_C231);
    probe.memory.insert(0xE004_2000, 0x2003_6410);
    probe.memory.insert(0x1FFF_F7E0, 0xFFFF_0040);
    let report = probe.query();
    assert_eq!(report.dp_idcode, text("0x1BA01477"));
    assert_eq!(
        report.device_id,
        text("0x410 — STM32F1 medium-density (F101/102/103) — Cortex-M3")
    );
    assert_eq!(report.flash_size, text("64 KB"));
    assert_eq!(report.sram, text("20 KB"));
    assert_eq!(report.unique_id, None);
    assert_eq!(report.probe, text("CMSIS-DAP v2 (native nusb)"));
    // Nothing but identity registers was addressed, and nothing was written to memory.
    for cmd in &probe.sent {
        assert!(!(cmd[0] == DAP_TRANSFER && cmd[3] == 0x0D));
    }
}

#[test]
fn unreadable_memory_is_told_from_an_absent_target() {
    let mut probe = Probe::new(Some(0x1BA0_1477), false);
    let report = probe.query();
    assert_eq!(report.dp_idcode, text("0x1BA01477"));
    assert_eq!(
        report.layer2,
        text("target present but unreadable — Arm SW-DP answered, memory/AP access faulted (DAP_Transfer ack 0x04 (count 1))")
    );
    assert!(report.hint.unwrap().starts_with("An Arm debug port responded"));
}

#[test]
fn rp2040_is_identified_from_its_system_info() {
    let mut probe = Probe::new(Some(RP2040_DPIDR), true);
    probe.memory.insert(0x4000_0000, 0x2000_2927);
    probe.memory.insert(0xE000_ED00, 0x410C_C601);
    probe.memory.insert(0x4000_0014, 0xE033_5E2F);
    let report = probe.query();
    assert_eq!(report.dp_idcode, text("0x0BC12477 (SWD multidrop)"));
    assert_eq!(
        report.device_id,
        text("RP2040 (B2) — Raspberry Pi (mfr 0x927, part 0x0002)")
    );
    assert_eq!(report.revision, text("0x2"));
    assert_eq!(
        report.core,
        text("Cortex-M0+ r0p1 (CPUID 0x410CC601) (dual-core; core 0 selected)")
    );
    assert_eq!(
        report.identification,
        text("bootrom GITREF 0xE0335E2F, CHIP_ID 0x20002927")
    );
    assert_eq!(report.transport, text("SWD multidrop (native CMSIS-DAP, read-only)"));
    let other = rp2040_rows(0x0000_4927, false, None, None);
    assert_eq!(
        other.device_id,
        text("Raspberry Pi silicon — Raspberry Pi (mfr 0x927, part 0x0004)")
    );
    assert_eq!(other.transport, text("SWD (native CMSIS-DAP, read-only)"));
    assert_eq!((other.core, other.identification), (None, None));
}

#[test]
fn closed_probe_is_skipped() {
    match run_cmsisdap_target_query(&Opened::NotFound, true, &[], &[]) {
        Query::Done(r) => {
            assert_eq!(r.layer2, text("SKIP - CMSIS-DAP USB device not found"));
            assert_eq!(r.fix, None);
        },
        _ => panic!("goes on"),
    }
    for windows in [true, false] {
        let opened = Opened::Failed("open USB device".to_string());
        match run_cmsisdap_target_query(&opened, windows, &[], &[]) {
            Query::Done(r) => {
                assert_eq!(
                    r.layer2,
                    text("SKIP - cannot open CMSIS-DAP interface: open USB device")
                );
                assert_eq!(r.fix.is_some(), windows);
                assert!(!r.is_empty());
            },
            _ => panic!("goes on"),
        }
    }
}

#[test]
fn probe_itself_is_described() {
    let r = run_cmsisdap_controller_query(0x2e8a, 0x000c, None);
    assert_eq!(r.generation, text("Raspberry Pi Debug Probe (debugprobe firmware)"));
    assert_eq!(r.usb_identity, text("2e8a:000c"));
    assert_eq!(r.descriptor_access, None);
    let dev = Descriptors { product: text("Probe"), serial: None, version: 0x0100 };
    let r = run_cmsisdap_controller_query(0x2e8a, 0x0004, Some(dev));
    assert_eq!(r.generation, text("picoprobe (Pico-as-probe firmware)"));
    assert_eq!(r.descriptor_access, text("Available through nusb"));
    assert_eq!(r.usb_product, text("Probe"));
    assert_eq!((r.usb_serial, r.usb_device_version), (None, None));
}

fn interface(number: u8, class: u8, name: Option<&str>) -> UsbInterface {
    UsbInterface { number, class, name: name.map(str::to_string) }
}

#[test]
fn command_interface_is_chosen_by_class_and_name() {
    let all = [
        interface(0, 0x02, Some("CMSIS-DAP CDC")),
        interface(1, 0xff, Some("trace")),
        interface(2, 0xff, Some("My cmsis-dap v2 port")),
    ];
    assert_eq!(cmsisdap_interface(&all), Ok(2));
    assert_eq!(cmsisdap_interface(&all[..2]), Ok(1));
    assert_eq!(
        cmsisdap_interface(&all[..1]),
        Err("no CMSIS-DAP vendor interface found".to_string())
    );
    assert_eq!(stlink_interface(&all), 1);
    assert_eq!(stlink_interface(&all[..1]), 0);
    assert_eq!(stlink_out_endpoint(0x3748), 0x02);
    assert_eq!(stlink_out_endpoint(0x374b), 0x01);
}

#[test]
fn first_endpoint_of_each_direction_is_taken() {
    assert_eq!(bulk_endpoints(&[0x84, 0x05, 0x06, 0x87]), Ok((0x05, 0x84)));
    assert_eq!(bulk_endpoints(&[0x84]), Err("no bulk OUT endpoint".to_string()));
    assert_eq!(bulk_endpoints(&[0x04]), Err("no bulk IN endpoint".to_string()));
    assert_eq!(bulk_endpoints(&[]), Err("no bulk OUT endpoint".to_string()));
}
