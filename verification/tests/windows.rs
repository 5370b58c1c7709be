use usbipd_rs::tool::ToolOutput;
use usbipd_rs::windows::status::{
    cmd_driver_status, cmd_install_driver, install_candidates, report_local_driver_availability,
    InstallAction, InstallRun, SeenDevice,
};
use usbipd_rs::windows::{
    classify_driver_issue, driverstore_matches, instance_vidpid, known_driver_advice,
    parse_driverstore_oem, windows_usb_driver_nodes, DriverIssue, WindowsUsbDriverNode,
};

const DEBUG: &str = "USB\\VID_0483&PID_374B&MI_00\\7&1";

fn output(success: bool, stdout: &str, stderr: &str) -> ToolOutput {
    ToolOutput { success, stdout: stdout.to_string(), stderr: stderr.to_string() }
}

fn node(status: &str, id: &str, service: &str, problem: &str) -> WindowsUsbDriverNode {
    let mut n = WindowsUsbDriverNode::default();
    n.set_field("STATUS", status);
    n.set_field("INSTANCE", id);
    n.set_field("SERVICE", service);
    n.set_field("PROBLEM", problem);
    n
}

#[test]
fn nodes_are_read_from_the_listing() {
    let o = output(
        true,
        "STATUS=lost\n@@NODE@@\r\nSTATUS= OK \r\nNAME=A=B\r\nOTHER=1\r\n@@NODE@@\r\nINSTANCE=USB\\VID_1\r\nVERSION=2.1\r\n",
        "",
    );
    let nodes = windows_usb_driver_nodes(&o).unwrap();
    assert_eq!(nodes.len(), 2);
    assert_eq!((nodes[0].status.as_str(), nodes[0].name.as_str()), ("OK", "A=B"));
    assert_eq!((nodes[1].instance_id.as_str(), nodes[1].version.as_str()), ("USB\\VID_1", "2.1"));
    assert_eq!(nodes[1].status, "");
    assert!(windows_usb_driver_nodes(&output(true, "", "")).unwrap().is_empty());
    let e = windows_usb_driver_nodes(&output(false, "", " denied \n")).unwrap_err();
    assert_eq!(e, "Windows Plug and Play query failed: denied");
}

#[test]
fn health_is_status_and_problem() {
    assert!(node("ok", "", "", "").is_healthy());
    assert!(node("OK", "", "", "0").is_healthy());
    assert!(node("OK", "", "", "CM_PROB_NONE").is_healthy());
    assert!(!node("OK", "", "", "28").is_healthy());
    assert!(!node("Error", "", "", "0").is_healthy());
}

#[test]
fn problem_codes_are_classified() {
    let issue = |service: &str, problem: &str| {
        classify_driver_issue(&node("Error", "x", service, problem)).unwrap()
    };
    assert_eq!(issue("", "28"), DriverIssue::MissingDriver);
    assert_eq!(issue("usb", "28"), DriverIssue::DriverLoadFailure);
    assert_eq!(issue("", "1"), DriverIssue::MissingDriver);
    assert_eq!(issue("", "10"), DriverIssue::StoppedNode);
    assert_eq!(issue("", "45"), DriverIssue::StoppedNode);
    assert_eq!(issue("", "39"), DriverIssue::DriverLoadFailure);
    assert_eq!(issue("", "52"), DriverIssue::SignatureFailure);
    assert_eq!(issue("", "43"), DriverIssue::Blocked);
    assert_eq!(issue("", "12"), DriverIssue::ResourceConflict);
    assert_eq!(issue("", "CM_PROB_X"), DriverIssue::MissingDriver);
    assert_eq!(issue("usb", "0"), DriverIssue::Unknown);
    assert_eq!(issue("", "99"), DriverIssue::Unknown);
    assert!(classify_driver_issue(&node("OK", "x", "", "")).is_none());
    assert_eq!(DriverIssue::Blocked.label(), "DRIVER BLOCKED");
    assert_eq!(
        DriverIssue::Unknown.meaning(),
        "The problem code does not map to a known category."
    );
    assert_eq!(
        DriverIssue::SignatureFailure.next_action(),
        "Install a properly signed driver package from the vendor."
    );
}

#[test]
fn advice_goes_by_the_instance_id() {
    let a = known_driver_advice("usb\\vid_0483&pid_374b&mi_00\\6").unwrap();
    assert_eq!(a.local_inf, Some("windows-driver/stsw-link009/stlink_dbg_winusb.inf"));
    assert!(known_driver_advice("USB\\VID_0483&PID_374B&MI_01").is_none());
    assert_eq!(
        known_driver_advice("USB\\VID_0483&PID_DF11\\1").unwrap().name,
        "STM32CubeProgrammer driver package or WinUSB"
    );
    assert_eq!(
        known_driver_advice("USB\\VID_2E8A&PID_000F").unwrap().name,
        "Microsoft WinUSB for Raspberry Pi BOOTSEL"
    );
    assert_eq!(instance_vidpid("usb\\vid_0483&pid_374b&mi_00"), Some((0x0483, 0x374b)));
    assert_eq!(instance_vidpid("USB\\VID_0483"), None);
    assert_eq!(instance_vidpid("USB\\VID_04&PID_1234"), None);
}

#[test]
fn driver_store_is_searched_block_by_block() {
    let text = "Published Name: oem1.inf\nOriginal Name: STLINK_dbg_winusb.inf\n\nPublished Name: oem2.inf\nOriginal Name: other.inf\r\n\r\nName: OEM7.INF,\nOriginal Name: stlink_dbg_winusb.inf\n\nName: oem1.inf\nstlink_dbg_winusb.inf";
    assert_eq!(parse_driverstore_oem(text, "stlink_dbg_winusb.inf"), ["oem1.inf", "OEM7.INF"]);
    assert!(parse_driverstore_oem(text, "missing.inf").is_empty());
    assert!(driverstore_matches(None, "x").is_empty());
    assert!(driverstore_matches(Some(&output(false, text, "")), "other.inf").is_empty());
    assert_eq!(driverstore_matches(Some(&output(true, text, "")), "other.inf"), ["oem2.inf"]);
}

#[test]
fn availability_of_the_driver_is_told() {
    let a = known_driver_advice(DEBUG).unwrap();
    let staged = vec!["oem1.inf".to_string(), "oem2.inf".to_string()];
    assert_eq!(
        report_local_driver_availability(&a, Some("here.inf"), "s.inf", Some(&staged)),
        [
            "  Local INF: AVAILABLE - here.inf (no download needed)",
            "  Driver store: already staged as oem1.inf, oem2.inf",
        ]
    );
    assert_eq!(
        report_local_driver_availability(&a, None, "s.inf", Some(&vec![])),
        [
            "  Local INF: not bundled at windows-driver/stsw-link009/stlink_dbg_winusb.inf; download required",
            "  Driver store: no package staged from s.inf yet",
        ]
    );
    let b = known_driver_advice("USB\\VID_1A86&PID_7523").unwrap();
    assert!(report_local_driver_availability(&b, None, "", None).is_empty());
}

#[test]
fn status_holds_nodes_against_devices() {
    let devices = vec![SeenDevice {
        vid: 0x0483,
        pid: 0x374b,
        product: "Some(\"STM32 STLink\")".to_string(),
        serial: "None".to_string(),
        speed: "Some(Full)".to_string(),
        interfaces: vec![(0, 0xff), (1, 0x08)],
    }];
    let nodes = vec![node("OK", "USB\\VID_1", "usbhub", ""), node("Error", DEBUG, "", "28")];
    let s = cmd_driver_status(&devices, &nodes);
    assert_eq!(
        s.head[1],
        "PASS - Windows USB hub enumeration returned 1 physical USB device(s)."
    );
    assert_eq!(
        s.sections[0].page,
        [
            "",
            "[OK] (unnamed USB interface)",
            "  Instance: USB\\VID_1",
            "  Class/service: -/usbhub",
            "  Driver: - / - / -",
            "  PnP status/problem: OK / -",
        ]
    );
    assert!(s.sections[0].look_for.is_none());
    let page = &s.sections[1].page;
    assert_eq!(page[1], "[NEEDS ATTENTION] (unnamed USB interface)");
    assert_eq!(
        page[6],
        "  Classification: MISSING FUNCTION DRIVER - Windows enumerated the interface but bound no function driver (no service)."
    );
    assert_eq!(
        page[8],
        "  Hardware evidence: PASS - nusb sees 0483:374b, product Some(\"STM32 STLink\"), serial None, speed Some(Full)"
    );
    assert_eq!(page[9], "  Descriptor interfaces: MI_00 class ff, MI_01 class 08");
    assert!(s.sections[1].look_for.is_some());
    assert_eq!(s.diagnosis[2], "1 of 2 present USB PnP function(s) need attention.");
    let s = cmd_driver_status(&vec![], &vec![]);
    assert_eq!(s.diagnosis[2], "All 0 present USB PnP function(s) report healthy.");
}

fn nodes() -> Vec<WindowsUsbDriverNode> {
    vec![
        node("OK", DEBUG, "WinUSB", ""),
        node("Error", DEBUG, "", "28"),
        node("Error", "USB\\VID_0483&PID_374B&MI_01\\7&1", "", "28"),
        node("Error", "USB\\VID_1A86&PID_7523&MI_00", "", "28"),
    ]
}

#[test]
fn only_the_debug_interface_is_a_candidate() {
    assert_eq!(install_candidates(&nodes()), [1]);
    let (page, action) = cmd_install_driver(true, &vec![], &vec![], &vec![]);
    assert_eq!(page[0], "=== ST-Link MI_00 Driver Install (EXECUTE) ===");
    assert_eq!(page[3], "No unhealthy MI_00 interface with a bundled INF was found.");
    assert!(matches!(action, InstallAction::Done));
}

#[test]
fn dry_run_only_shows_the_plan() {
    let infs = vec![Some("a.inf".to_string())];
    let (page, action) = cmd_install_driver(false, &nodes(), &infs, &vec![]);
    assert!(matches!(action, InstallAction::Done));
    assert_eq!(
        page[3..],
        [
            "Interface that would be modified:",
            "  Instance: USB\\VID_0483&PID_374B&MI_00\\7&1",
            "  Current state: MISSING FUNCTION DRIVER (status Error, problem 28)",
            "  Driver package: STMicroelectronics STSW-LINK009 (WinUSB binding for ST-Link Debug)",
            "  INF file: a.inf",
            "  Command: pnputil /add-driver \"a.inf\" /install",
            "  Action: none (dry run). Re-run with --confirm to apply.",
            "",
            "Dry run complete. No changes were made. Re-run with --confirm in an Administrator shell to apply.",
        ]
    );
    let (page, _) = cmd_install_driver(true, &nodes(), &vec![None], &vec![]);
    assert_eq!(page[3], "[SKIP] USB\\VID_0483&PID_374B&MI_00\\7&1");
    assert_eq!(
        page[5],
        "Installed 0 driver binding(s). Verify with `usbipd-rs --driver-status` and `usbipd-rs --mcu-alive`."
    );
}

#[test]
fn confirmed_install_runs_and_checks_again() {
    let all = nodes();
    let infs = vec![Some("a.inf".to_string())];
    let mut runs: Vec<InstallRun> = Vec::new();
    let (_, action) = cmd_install_driver(true, &all, &infs, &runs);
    match action {
        InstallAction::Run { place, args } => {
            assert_eq!(place, 1);
            assert_eq!(args, ["/add-driver", "a.inf", "/install"]);
        },
        _ => panic!("no run"),
    }
    runs.push(InstallRun { output: output(true, "Added.\r\n\r\n", ""), status: "exit code: 0".to_string(), after: None });
    let (page, action) = cmd_install_driver(true, &all, &infs, &runs);
    assert!(matches!(action, InstallAction::Relist));
    assert_eq!(page[page.len() - 1], "    Added.");
    for (after, line, installed) in [
        (vec![node("OK", DEBUG, "WinUSB", "0")], "  Result: PASS - USB\\VID_0483&PID_374B&MI_00\\7&1 is now OK / problem 0 (recovered, no reboot).", 1),
        (vec![node("Error", DEBUG, "", "")], "  Result: PARTIAL - still Error / problem -. Unplug and replug the device, or check it reports NEED_RESTART.", 1),
        (vec![], "  Result: node re-enumerated under a new instance id; re-run --driver-status to confirm.", 1),
    ] {
        runs[0].after = Some(after);
        let (page, action) = cmd_install_driver(true, &all, &infs, &runs);
        assert!(matches!(action, InstallAction::Done));
        let n = page.len();
        assert_eq!(page[n - 3], line);
        assert!(page[n - 1].starts_with(&format!("Installed {} driver binding(s).", installed)));
    }
    runs[0] = InstallRun { output: output(false, "", "denied"), status: "exit code: 5".to_string(), after: None };
    let (page, action) = cmd_install_driver(true, &all, &infs, &runs);
    assert!(matches!(action, InstallAction::Done));
    let n = page.len();
    assert_eq!(page[n - 4], "    denied");
    assert_eq!(
        page[n - 3],
        "  Result: FAIL - pnputil exited with exit code: 5. An Administrator shell is required."
    );
    assert!(page[n - 1].starts_with("Installed 0 driver binding(s)."));
}
