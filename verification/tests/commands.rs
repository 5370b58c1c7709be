use usbipd_rs::cli::{parse, Cli, HELP};
use usbipd_rs::cmd::mcu_alive::{
    cmd_mcu_alive, cmd_mcu_alive_native, is_stlink_device, mcu_alive_head, mcu_alive_native_head,
    mcu_alive_native_page, mcu_alive_native_title, mcu_alive_result, probe_selector, AliveStep,
    NativeEnd, NativeStep, SeenProbe,
};
use usbipd_rs::fields::Fields;
use usbipd_rs::installer::tools::{resolve, tools};
use usbipd_rs::installer::{
    apply_download_action, bundle_dir_name, cmd_install, cmd_list_tools, current_os,
    download_name, download_progress, extract_hint, manual_page, partial_extension, run_command,
    which_names, DownloadAction, InstallStep, Os,
};
use usbipd_rs::number::{push_decimal, push_hex_lower, push_hex_upper, read_number};
use usbipd_rs::stlink::driver::StlinkDriver;
use usbipd_rs::swd::cmsisdap::Reply;
use usbipd_rs::tool::ToolOutput;

fn args(list: &[&str]) -> Vec<String> {
    list.iter().map(|a| a.to_string()).collect()
}

fn output(success: bool, stdout: &str, stderr: &str) -> ToolOutput {
    ToolOutput { success, stdout: stdout.to_string(), stderr: stderr.to_string() }
}

// ── Command line ──

#[test]
fn flags_select_the_command() {
    assert!(matches!(parse(&args(&["usbipd-rs"])), Ok(Cli::ListUsb { probe: false })));
    for p in ["-p", "--probe", "--probe-esp", "--probe-arduino"] {
        assert!(matches!(parse(&args(&["usbipd-rs", p])), Ok(Cli::ListUsb { probe: true })));
    }
    assert!(matches!(parse(&args(&["x", "--install", "zadig", "-h"])), Ok(Cli::Help)));
    assert!(matches!(parse(&args(&["x", "--list-tools", "-V"])), Ok(Cli::Version)));
    assert!(matches!(parse(&args(&["x", "--list-tools"])), Ok(Cli::ListTools)));
    assert!(matches!(parse(&args(&["x", "--driver-status"])), Ok(Cli::DriverStatus)));
    assert!(matches!(parse(&args(&["x", "--mcu-alive"])), Ok(Cli::McuAlive)));
    assert!(matches!(
        parse(&args(&["x", "--mcu-alive", "--mcu-alive-native"])),
        Ok(Cli::McuAliveNative)
    ));
    match parse(&args(&["x", "--install", "zadig"])) {
        Ok(Cli::Install { tool }) => assert_eq!(tool, "zadig"),
        _ => panic!("other command"),
    }
    for list in [vec!["x", "--install"], vec!["x", "--install", ""]] {
        match parse(&args(&list)) {
            Err(e) => assert_eq!(e, "--install requires a tool name. Try `--list-tools`."),
            _ => panic!("accepted"),
        }
    }
    assert!(HELP.starts_with("usbipd-rs — USB device inspector with chip-level board probing\n"));
}

#[test]
fn driver_install_needs_confirmation() {
    assert!(matches!(
        parse(&args(&["x", "--install-driver"])),
        Ok(Cli::InstallDriver { confirm: false })
    ));
    for c in ["--confirm", "--yes", "-y"] {
        assert!(matches!(
            parse(&args(&["x", c, "--install-driver"])),
            Ok(Cli::InstallDriver { confirm: true })
        ));
    }
}

// ── Numbers ──

#[test]
fn written_numbers_read_back() {
    for v in [0u64, 7, 255, 4096, 65535, u64::MAX] {
        let mut dec = String::new();
        push_decimal(&mut dec, v);
        assert_eq!(dec, format!("{}", v));
        let chars: Vec<char> = dec.chars().collect();
        assert_eq!(read_number(&chars, 10, u64::MAX), Some(v));
        let mut hex = String::new();
        push_hex_upper(&mut hex, v, 8);
        assert_eq!(hex, format!("{:08X}", v));
        let mut hex = String::new();
        push_hex_lower(&mut hex, v, 4);
        assert_eq!(hex, format!("{:04x}", v));
        let chars: Vec<char> = hex.chars().collect();
        assert_eq!(read_number(&chars, 16, u64::MAX), Some(v));
    }
    let chars: Vec<char> = "256".chars().collect();
    assert_eq!(read_number(&chars, 10, 255), None);
    assert_eq!(read_number(&[], 10, 255), None);
    assert_eq!(read_number(&['+'], 10, 255), None);
    assert_eq!(read_number(&['-', '1'], 10, 255), None);
}

#[test]
fn fields_keep_the_last_value() {
    let mut f = Fields::new();
    assert!(f.is_empty());
    f.insert("a".to_string(), "1".to_string());
    f.insert("b".to_string(), "2".to_string());
    f.insert("a".to_string(), "3".to_string());
    assert_eq!((f.get("a"), f.get("b"), f.get("c")), (Some("3"), Some("2"), None));
}

// ── Tools ──

#[test]
fn tools_are_listed_with_their_state() {
    let found: Vec<bool> = tools().iter().map(|t| t.id == "espflash").collect();
    let page = cmd_list_tools(Os::Linux, &found);
    assert_eq!(page[0], "Detected OS: Linux");
    assert_eq!(page[2], "ID            STATUS      PROVIDER    PURPOSE");
    assert_eq!(page[3], "-".repeat(80));
    assert_eq!(page[4], "espflash      installed   cargo       ESP32/ESP8266 chip identification & flashing");
    assert!(page[5].starts_with("pyocd         missing     "));
    assert!(page[7].starts_with("zadig         —           (n/a on this OS)  Windows-only"));
    assert_eq!(page[page.len() - 1], "Run `usbipd-rs --install <ID>` to install.");
}

#[test]
fn install_plan_follows_the_tool_and_the_system() {
    match cmd_install("nope", Os::Linux) {
        Err(e) => assert_eq!(e, "Unknown tool 'nope'. Try `--list-tools`."),
        Ok(_) => panic!("known"),
    }
    match cmd_install("zadig", Os::Macos) {
        Err(e) => assert_eq!(e, "Zadig has no install path on Macos"),
        Ok(_) => panic!("installed"),
    }
    let plan = match cmd_install("espflash", Os::Windows) {
        Ok(plan) => plan,
        Err(e) => panic!("{}", e),
    };
    assert_eq!(
        plan.head,
        [
            "=== Installing espflash ===",
            "Purpose: ESP32/ESP8266 chip identification & flashing",
            "OS:      Windows",
            "",
        ]
    );
    match plan.step {
        InstallStep::Command { program, args } => {
            assert_eq!((program, args), ("cargo", ["install", "espflash"].as_slice()));
            assert_eq!(run_command(program, args), "  Running:     cargo install espflash");
        },
        _ => panic!("other step"),
    }
    for t in tools() {
        let any = [Os::Windows, Os::Macos, Os::Linux].iter().any(|os| resolve(t.id, *os).is_some());
        assert!(any);
        assert!(cmd_install(t.id, Os::Windows).is_ok());
    }
}

#[test]
fn windows_tools_install_on_windows_alone() {
    for t in tools() {
        let windows_only = ["zadig", "cp210x", "ch340", "ftdi"].contains(&t.id);
        for os in [Os::Macos, Os::Linux] {
            assert_eq!(resolve(t.id, os).is_none(), windows_only);
        }
    }
}

#[test]
fn downloads_are_named_and_measured() {
    assert_eq!(download_name("https://a.b/c/file.zip", None), "file.zip");
    assert_eq!(download_name("https://a.b/c/", None), "");
    assert_eq!(download_name("https://a.b/file?id=65", Some("CH341SER.EXE")), "CH341SER.EXE");
    assert_eq!(partial_extension(Some("zip")), "zip.partial");
    assert_eq!(partial_extension(None), "partial");
    assert_eq!(bundle_dir_name(Os::Windows), "windows-driver");
    assert_eq!(bundle_dir_name(Os::Linux), "tools");
    assert_eq!(download_progress(0, 1000, -1), Some(0));
    assert_eq!(download_progress(105, 1000, 0), Some(10));
    assert_eq!(download_progress(109, 1000, 10), None);
    assert_eq!(download_progress(119, 1000, 10), None);
    assert_eq!(download_progress(5, 0, 0), Some(500));
    assert_eq!(which_names("avrdude", Os::Windows), ["avrdude.exe", "avrdude.cmd", "avrdude.bat", "avrdude"]);
    assert_eq!(which_names("avrdude", Os::Linux), ["avrdude"]);
    assert_eq!(current_os("windows"), Os::Windows);
    assert_eq!(current_os("freebsd"), Os::Linux);
}

#[test]
fn downloaded_files_are_acted_on() {
    assert_eq!(
        manual_page("https://x", "one\ntwo"),
        ["  Download URL: https://x", "", "  Manual steps:", "    one", "    two"]
    );
    let run = DownloadAction::PromptToRun { instructions: "go" };
    assert!(extract_hint(run).is_none());
    assert_eq!(
        apply_download_action(run, "f.exe", None),
        ["", "  Saved to: f.exe", "", "  Manual steps:", "    go"]
    );
    let bundle = DownloadAction::ExtractToBundle { binary_hint: "picotool.exe" };
    assert_eq!(extract_hint(bundle), Some("picotool.exe"));
    assert_eq!(
        apply_download_action(bundle, "dir", Some("dir/picotool.exe")),
        ["", "  Extracted to: dir", "  Binary:       dir/picotool.exe"]
    );
    assert_eq!(
        apply_download_action(bundle, "dir", None)[2],
        "  Binary 'picotool.exe' not found inside archive — inspect the directory manually."
    );
    let prompt = DownloadAction::ExtractAndPrompt { binary_hint: "setup.exe", instructions: "go" };
    assert_eq!(
        apply_download_action(prompt, "dir", None),
        [
            "",
            "  Extracted to: dir",
            "  Installer 'setup.exe' not found — inspect the directory manually.",
            "",
            "  Manual steps:",
            "    go",
        ]
    );
}

// ── Alive tests ──

fn probe() -> SeenProbe {
    SeenProbe {
        vid: 0x0483,
        pid: 0x374b,
        serial: "0669".to_string(),
        product_shown: "Some(\"STLink\")".to_string(),
        serial_shown: "Some(\"0669\")".to_string(),
        speed_shown: "None".to_string(),
    }
}

#[test]
fn probe_is_selected_by_identity_and_serial() {
    assert!(is_stlink_device(0x0483, 0x3748) && is_stlink_device(0x0483, 0x3757));
    assert!(!is_stlink_device(0x0483, 0x3758) && !is_stlink_device(0x0484, 0x3748));
    assert_eq!(probe_selector(0x0483, 0x374b, ""), "0483:374b");
    let (page, step) = cmd_mcu_alive(&probe(), &None);
    assert_eq!(
        page,
        [
            "",
            "[0483:374b:0669]",
            "Step 1 - USB probe: PASS - product Some(\"STLink\"), serial Some(\"0669\"), speed None",
            "Step 2 - Debug interface: attempting read-only open through probe-rs",
        ]
    );
    match step {
        AliveStep::Run(args) => assert_eq!(
            args,
            ["info", "--probe", "0483:374b:0669", "--protocol", "swd", "--speed", "100", "--non-interactive"]
        ),
        _ => panic!("blocked"),
    }
    assert_eq!(mcu_alive_head(true).len(), 3);
    assert_eq!(
        mcu_alive_head(false)[3],
        "Step 1 - USB probe: FAIL - no ST-Link USB device found"
    );
}

#[test]
fn wrong_driver_blocks_the_test() {
    let driver = Some(StlinkDriver::Other("usbccgp".to_string()));
    let (page, step) = cmd_mcu_alive(&probe(), &driver);
    assert_eq!(page[3], "Step 2 - Debug interface: FAIL - usbccgp");
    assert_eq!(
        page[5],
        "Required driver binding: STMicroelectronics STSW-LINK009 (WinUSB binding for ST-Link Debug)"
    );
    assert!(matches!(step, AliveStep::Blocked(Some(_))));
}

#[test]
fn discovery_result_is_told() {
    let o = output(true, "Probing target via SWD\n---\n\n  ARM Chip with debug port\n", "note\n");
    assert_eq!(
        mcu_alive_result(&o),
        [
            "Step 2 - Debug interface: PASS - ST-Link accepted commands",
            "Step 3 - Target SWD response: PASS - probe-rs discovered a target at 100 kHz",
            "  ARM Chip with debug port",
            "  note",
        ]
    );
    let many: String = (0..20).map(|i| format!("line {}\n", i)).collect();
    assert_eq!(mcu_alive_result(&output(true, &many, "")).len(), 14);
    assert_eq!(
        mcu_alive_result(&output(false, "", "Error: target did not answer\n")),
        [
            "Step 2 - Debug interface: PASS - probe opened; SWD stage failed",
            "Step 3 - Target SWD response: FAIL - Error: target did not answer",
        ]
    );
    assert_eq!(
        mcu_alive_result(&output(false, "", "Failed to open the Debug Probe\n"))[0],
        "Step 2 - Debug interface: FAIL - probe could not be opened"
    );
    assert_eq!(
        mcu_alive_result(&output(false, "", ""))[1],
        "Step 3 - Target SWD response: FAIL - probe-rs could not complete SWD discovery"
    );
}

fn native(answers: &[(u8, u8, Reply)]) -> NativeEnd {
    let mut t: Vec<Reply> = Vec::new();
    loop {
        match cmd_mcu_alive_native(&t, &[]) {
            NativeStep::Send(cmd) => {
                let found = answers.iter().find(|a| a.0 == cmd[0] && (a.1 == 0 || a.1 == cmd[1]));
                t.push(match found {
                    Some(a) => a.2.clone(),
                    None => Err("bulk IN failed".to_string()),
                });
                assert!(t.len() < 20);
            },
            NativeStep::Done(e) => return e,
        }
    }
}

#[test]
fn native_test_shows_each_step() {
    assert_eq!(
        mcu_alive_native_head(0, false)[3],
        "Chip data: built-in family table only (drop etc/chips/*.chip files to extend/override)."
    );
    assert_eq!(
        mcu_alive_native_head(2, true)[3],
        "Chip data: 2 external .chip definition(s) loaded; they take priority over the built-in table."
    );
    assert_eq!(
        mcu_alive_native_title(0x0483, 0x374b, "", None, None),
        ["", "[0483:374b] ST-Link", "Step 1/2 - open + claim MI_00: PASS - bulk transfers available"]
    );
    let page = mcu_alive_native_title(0x0483, 0x374b, "06", Some("STLink"), Some("busy"));
    assert_eq!(page[1], "[0483:374b:06] STLink");
    assert_eq!(page[2], "Step 1/2 - open + claim MI_00: FAIL - busy");

    let e = native(&[]);
    assert_eq!(
        mcu_alive_native_page(e, "").unwrap(),
        ["Step 3 - probe firmware: FAIL - bulk IN failed"]
    );
    let version: Reply = Ok(vec![0x24, 0xC7, 0, 0, 0, 0]);
    let e = native(&[(0xF1, 0, version.clone())]);
    assert_eq!(
        mcu_alive_native_page(e, "").unwrap(),
        [
            "Step 3 - probe firmware: PASS - ST-Link v2 JTAG/SWD v19 SWIM v7",
            "Step 4 - target voltage: FAIL - bulk IN failed",
            "Step 5 - enter SWD: FAIL - bulk IN failed",
        ]
    );
    let e = native(&[
        (0xF1, 0, version.clone()),
        (0xF7, 0, Err("bulk IN failed: endpoint stalled".to_string())),
        (0xF5, 0, Ok(vec![1])),
        (0xF2, 0x30, Ok(vec![0x80])),
        (0xF2, 0x31, Ok(vec![0, 0, 0, 0, 0x77, 0x14, 0xA0, 0x1B])),
        (0xF2, 0x36, Ok(vec![0x80, 0, 0, 0, 0x10, 0x64, 0x03, 0x20])),
    ]);
    let page = mcu_alive_native_page(e, "").unwrap();
    assert_eq!(page[1], "Step 4 - target voltage: n/a (not reported by this ST-Link)");
    assert_eq!(page[2], "Step 5 - enter SWD: PASS (status 0x80, core not halted)");
    assert_eq!(page[3], "Step 6 - DP IDCODE (DPIDR): 0x1BA01477");
    assert_eq!(page[4], "Step 7 - target identity (read-only):");
    assert_eq!(page[5], "  Core:              Cortex-M (unknown) r0p0 (CPUID 0x20036410)");
    assert_eq!(
        page[6],
        "  Device ID:         0x410 — STM32F1 medium-density (F101/102/103) — Cortex-M3"
    );
    let e = native(&[
        (0xF1, 0, version),
        (0xF7, 0, Ok(vec![1, 0, 0, 0, 1, 0, 0, 0])),
        (0xF2, 0x30, Ok(vec![0x09])),
    ]);
    let page = mcu_alive_native_page(e, "2.40").unwrap();
    assert_eq!(page[1], "Step 4 - target voltage: 2.40 V");
    assert_eq!(
        page[2],
        "Step 5 - enter SWD: WARN - status 0x09 (no target on SWD / wrong wiring?); continuing read attempts"
    );
    assert_eq!(page[3], "Step 6 - DP IDCODE: FAIL - bulk IN failed");
}
