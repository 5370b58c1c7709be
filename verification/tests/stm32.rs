use std::collections::HashMap;
use usbipd_rs::stm32::chipdb::{
    builtin_sram_kb, parse_chip_file, parse_chip_int, resolve_chip, ChipDef,
};
use usbipd_rs::stm32::decode::{
    cortex_core, decode_rdp, decode_stlink_regs, microbit_identify, print_stlink_target_info,
    TargetReport,
};
use usbipd_rs::stm32::{gd32_density, gd32_identify, stm32_known_revs, stm_family, RdpKind};
use usbipd_rs::swd::{
    collect_target_regs, flash_map_fits, format_target_rows, le_u32, Collect, Collected,
};

fn text(s: &str) -> Option<String> {
    Some(s.to_string())
}

#[test]
fn gd32_density_maps_flash_to_letter() {
    assert_eq!(gd32_density(Some(512)), "xE");
    assert_eq!(gd32_density(Some(256)), "xC");
    assert_eq!(gd32_density(Some(64)), "x8");
    assert_eq!(gd32_density(None), "");
    // Non-clone REV_ID → no GD32 identity even on a GD32 DEV_ID.
    assert!(gd32_identify(0x414, 0x1000, Some(512)).is_none());
    // Clone REV_ID on an untracked DEV_ID → no model (generic clone flag only).
    assert!(gd32_identify(0x412, 0x9999, Some(64)).is_none());
}

#[test]
fn le_u32_reads_little_endian_at_offset() {
    let resp = [0x80, 0, 0, 0, 0x41, 0x10, 0, 0x10];
    assert_eq!(le_u32(&resp, 4), Some(0x1000_1041));
    assert_eq!(le_u32(&resp, 0), Some(0x80));
    assert_eq!(le_u32(&resp, 6), None); // out of range
}

#[test]
fn density_letters_change_at_their_bounds() {
    let bounds = [
        (512, "xE"),
        (511, "xD"),
        (384, "xD"),
        (383, "xC"),
        (255, "xB"),
        (128, "xB"),
        (127, "x8"),
        (63, "x6"),
        (32, "x6"),
        (31, "x4"),
        (16, "x4"),
        (15, ""),
        (0, ""),
    ];
    for (kb, letter) in bounds {
        assert_eq!(gd32_density(Some(kb)), letter);
    }
}

#[test]
fn clone_revision_names_the_gd32_model() {
    let (name, core, mhz) = gd32_identify(0x414, 0x1309, Some(512)).unwrap();
    assert_eq!(
        name,
        "GD32F103xE (GigaDevice) — e.g. GD32F103RET6 (64-pin, 512 KB) — Cortex-M3"
    );
    assert_eq!((core, mhz), ("Cortex-M3", 108));
    let (name, _, _) = gd32_identify(0x418, 0x9999, Some(256)).unwrap();
    assert_eq!(name, "GD32F105xC (GigaDevice) — Cortex-M3");
    let (name, _, _) = gd32_identify(0x410, 0x9999, None).unwrap();
    assert_eq!(name, "GD32F103 (GigaDevice) — Cortex-M3");
}

#[test]
fn documented_revision_is_never_a_clone() {
    for dev_id in [0x410u16, 0x412, 0x414, 0x418, 0x420, 0x428, 0x430] {
        for rev in stm32_known_revs(dev_id).unwrap() {
            assert!(gd32_identify(dev_id, *rev, Some(64)).is_none());
        }
    }
    assert!(stm32_known_revs(0x413).is_none());
}

#[test]
fn families_have_their_register_addresses() {
    let f = stm_family(0x410).unwrap();
    assert_eq!(f.name, "STM32F1 medium-density (F101/102/103) — Cortex-M3");
    assert_eq!((f.flash_size_addr, f.uid_addr, f.rdp_addr), (0x1FFFF7E0, 0x1FFFF7E8, 0x4002201C));
    let f = stm_family(0x451).unwrap();
    assert_eq!((f.flash_size_addr, f.uid_addr, f.rdp_addr), (0x1FF0F442, 0x1FF0F420, 0x40023C14));
    assert!(matches!(f.rdp_kind, RdpKind::OptByte));
    assert!(stm_family(0x447).is_none());
}

#[test]
fn chip_integers_are_hex_or_decimal() {
    assert_eq!(parse_chip_int("0x1FFF7A22"), Some(0x1FFF7A22));
    assert_eq!(parse_chip_int(" 0X10; "), Some(16));
    assert_eq!(parse_chip_int("1024,"), Some(1024));
    assert_eq!(parse_chip_int("+7"), Some(7));
    assert_eq!(parse_chip_int("4294967296"), None);
    assert_eq!(parse_chip_int("0x"), None);
    assert_eq!(parse_chip_int("-1"), None);
    assert_eq!(parse_chip_int(""), None);
}

#[test]
fn chip_file_gives_a_definition() {
    let def = parse_chip_file(
        "# Chip-ID file\nchip_id 0x421 // STM32F446\ndev_type STM32F446xC_E\nflash_size_reg 0x1fff7a22\nsram_size 0x20000\n",
    )
    .unwrap();
    assert_eq!(def.dev_id, 0x421);
    assert_eq!(def.name, "STM32F446xC E");
    assert_eq!(def.flash_size_addr, Some(0x1fff7a22));
    assert_eq!(def.sram_kb, Some(128));
    assert_eq!(def.source, "");
    assert!(parse_chip_file("dev_type X\n").is_none());
    assert!(parse_chip_file("#chip_id 0x421\n").is_none());
    let bare = parse_chip_file("chip_id 0x21").unwrap();
    assert_eq!(bare.name, "STM32 (chip_id 0x021)");
    assert_eq!(bare.sram_kb, None);
    // A later line decides, and only the low 16 bits of an id are kept.
    assert_eq!(parse_chip_file("chip_id 1\nchip_id 0x10421").unwrap().dev_id, 0x421);
    assert!(parse_chip_file("chip_id 1\nchip_id x").is_none());
}

#[test]
fn comments_and_unknown_keys_in_a_chip_file_change_nothing() {
    let lines =
        ["chip_id 0x421", "dev_type STM32F446", "flash_size_reg 0x1fff7a22", "sram_size 0x20000"];
    let plain = format!("{:?}", parse_chip_file(&lines.join("\n")));
    assert!(plain.contains("STM32F446"));
    for mark in [" # ", " // ", "   ", "\t# chip_id 1 // ", " // dev_type X # "] {
        for k in 0..lines.len() {
            let mut other = lines.map(|l| l.to_string());
            other[k] = other[k].clone() + mark;
            if mark != "   " {
                other[k].push_str("sram_size 1");
            }
            assert_eq!(format!("{:?}", parse_chip_file(&other.join("\n"))), plain);
        }
    }
    for extra in ["", "  \t", "# chip_id 1", "  // chip_id 1", "bootrom_size 0x1000", "chip_idx 7", "flags swo\r"] {
        for k in 0..lines.len() + 1 {
            let mut other = lines.to_vec();
            other.insert(k, extra);
            assert_eq!(format!("{:?}", parse_chip_file(&other.join("\n"))), plain);
        }
    }
}

fn definition() -> ChipDef {
    ChipDef {
        dev_id: 0x421,
        name: "My F446".to_string(),
        flash_size_addr: Some(0x1000),
        sram_kb: Some(99),
        source: "etc/chips/f446.chip".to_string(),
    }
}

#[test]
fn definition_takes_priority_over_the_table() {
    let r = resolve_chip(0x421, &[definition()]).unwrap();
    assert_eq!(r.name, "My F446");
    assert_eq!(r.flash_size_addr, Some(0x1000));
    assert_eq!(r.sram_kb, Some(99));
    assert_eq!(r.source, "etc/chips/f446.chip");
    // The register addresses stay those of the family.
    assert_eq!(r.uid_addr, Some(0x1FFF7A10));
    assert_eq!(r.rdp_addr, Some(0x40023C14));
    let r = resolve_chip(0x421, &[]).unwrap();
    assert_eq!(r.name, "STM32F446 — Cortex-M4F");
    assert_eq!(r.source, "built-in");
    assert_eq!(r.sram_kb, Some(128));
    assert!(resolve_chip(0x999, &[definition()]).is_none());
    assert_eq!(builtin_sram_kb(0x419), Some(256));
    assert_eq!(builtin_sram_kb(0x440), None);
}

#[test]
fn core_and_protection_are_decoded() {
    assert_eq!(cortex_core(0x411FC231), "Cortex-M3 r1p1 (CPUID 0x411FC231)");
    assert_eq!(cortex_core(0x410FC241), "Cortex-M4 r0p1 (CPUID 0x410FC241)");
    assert_eq!(cortex_core(0x00000000), "Cortex-M (unknown) r0p0 (CPUID 0x00000000)");
    assert_eq!(decode_rdp(0x2, RdpKind::Obr), "Enabled — flash read-protected (RDP active)");
    assert_eq!(
        decode_rdp(0x1, RdpKind::Obr),
        "Disabled — flash readable (RDP Level 0), OPTERR set"
    );
    assert_eq!(
        decode_rdp(0xAA00, RdpKind::OptByte),
        "Disabled — flash readable (RDP Level 0)"
    );
    assert_eq!(
        decode_rdp(0xCC00, RdpKind::OptByte),
        "Enabled — RDP Level 2 (permanent, debug locked)"
    );
    assert_eq!(
        decode_rdp(0x5500, RdpKind::OptByte),
        "Enabled — RDP Level 1 (RDP byte 0x55)"
    );
}

fn f103() -> HashMap<u32, Vec<u32>> {
    let mut regs = HashMap::new();
    regs.insert(0xE000ED00, vec![0x411FC231]);
    regs.insert(0xE0042000, vec![0x20036410]);
    regs.insert(0x1FFFF7E0, vec![0xFFFF0080]);
    regs.insert(0x1FFFF7E8, vec![0x11111111, 0x22222222, 0x33333333]);
    regs.insert(0x4002201C, vec![0x03FFFFFC]);
    regs
}

#[test]
fn registers_of_a_genuine_part_are_decoded() {
    let r = decode_stlink_regs(&f103(), Some(0x410));
    assert_eq!(r.core, text("Cortex-M3 r1p1 (CPUID 0x411FC231)"));
    assert_eq!(
        r.device_id,
        text("0x410 — STM32F1 medium-density (F101/102/103) — Cortex-M3")
    );
    assert_eq!(r.revision, text("0x2003 (rev 1/2/3/X/Y)"));
    assert_eq!(r.vendor, None);
    assert_eq!(r.flash_size, text("128 KB"));
    assert_eq!(r.flash_map, text("0x08000000-0x0801FFFF"));
    assert_eq!(r.unique_id, text("33333333 22222222 11111111"));
    assert_eq!(r.read_protection, text("Disabled — flash readable (RDP Level 0)"));
    assert_eq!(r.access, text("Read-only identity registers"));
    assert_eq!(r.transport, text("SWD at 100 kHz"));
    assert_eq!(r.max_clock, None);
}

#[test]
fn registers_of_a_clone_lead_with_its_model() {
    let mut regs = f103();
    regs.insert(0xE0042000, vec![0x13030410]);
    let r = decode_stlink_regs(&regs, Some(0x410));
    assert_eq!(
        r.device_id,
        text("0x410 — GD32F103xB (GigaDevice) — e.g. GD32F103CBT6 (128 KB) — Cortex-M3")
    );
    assert_eq!(r.max_clock, text("108 MHz (GigaDevice GD32; ST's F103 tops out at 72 MHz)"));
    assert_eq!(r.revision, text("0x1303"));
    assert_eq!(
        r.vendor,
        text("GigaDevice GD32 — pin-compatible with ST's STM32F103 but NOT genuine ST silicon. DEV_ID 0x410 mirrors ST; REV_ID 0x1303 (outside ST's set) confirms GD32. Package/pin (C=48 R=64 V=100 Z=144) + temp grade are not SWD-readable.")
    );
    regs.insert(0xE0042000, vec![0x99990412]);
    let r = decode_stlink_regs(&regs, Some(0x412));
    assert_eq!(
        r.vendor,
        text("likely an STM32-compatible clone (GigaDevice GD32 / CKS / APM32 / MindMotion) — REV_ID 0x9999 is not a documented ST revision for DEV_ID 0x412")
    );
}

#[test]
fn blank_words_are_left_out() {
    let mut regs = f103();
    regs.insert(0x1FFFF7E0, vec![0xFFFFFFFF]);
    regs.insert(0x1FFFF7E8, vec![0xFFFFFFFF, 0xFFFFFFFF, 0xFFFFFFFF]);
    let r = decode_stlink_regs(&regs, Some(0x410));
    assert_eq!((r.flash_size, r.flash_map, r.unique_id), (None, None, None));
    let r = decode_stlink_regs(&HashMap::new(), Some(0x421));
    assert_eq!(r.max_clock, text("180 MHz"));
    assert_eq!(r.sram, text("128 KB"));
    let r = decode_stlink_regs(&HashMap::new(), None);
    assert_eq!((r.core, r.device_id, r.max_clock), (None, None, None));
}

#[test]
fn target_page_has_one_or_two_layers() {
    let page = print_stlink_target_info(&TargetReport::default(), "board");
    assert_eq!(page, ["  Layer 2:         none - no SWD/JTAG target detected"]);
    let mut r = TargetReport::default();
    r.probe = text("ST-Link v2");
    r.layer2 = text("SKIP - busy");
    r.fix = text("unplug");
    r.hint = text("wire it");
    let page = print_stlink_target_info(&r, "board");
    assert_eq!(
        page,
        [
            "  Probe:           ST-Link v2",
            "  Layer 2:         SKIP - busy",
            "  Fix:             unplug",
            "  Hint:            wire it",
        ]
    );
    r.device_id = text("0x410 — X");
    r.source = text("built-in");
    let page = print_stlink_target_info(&r, "Nucleo");
    assert_eq!(
        page,
        [
            "  Probe:           ST-Link v2",
            "  Layer 2 - downstream SWD target (read-only) via Nucleo:",
            "    Device ID:       0x410 — X",
            "    Source:          built-in",
        ]
    );
}

#[test]
fn microbit_is_known_by_its_unique_id() {
    let (name, chip) = microbit_identify("9904360254194e45").unwrap();
    assert_eq!(name, "BBC micro:bit V2.21");
    assert_eq!(chip, "nRF52833 — Cortex-M4F, 128 KB SRAM, 512 KB flash, BLE 5.x");
    assert_eq!(
        microbit_identify("9905360200052833a247b5a43c0a3b04"),
        Some((
            "BBC micro:bit V2.21 (later)",
            "nRF52833 — Cortex-M4F, 128 KB SRAM, 512 KB flash, BLE 5.x"
        ))
    );
    assert_eq!(microbit_identify("9900").unwrap().0, "BBC micro:bit V1.3");
    assert!(microbit_identify("990").is_none());
    assert!(microbit_identify("0240").is_none());
    // The fourth byte falls inside a character.
    assert!(microbit_identify("990é").is_none());
}

fn collect(target: &HashMap<u32, u32>, db: &[ChipDef]) -> (Vec<u32>, Collected) {
    let mut asked = Vec::new();
    let mut replies: Vec<Option<u32>> = Vec::new();
    loop {
        match collect_target_regs(&replies, db) {
            Collect::Read(addr) => {
                asked.push(addr);
                replies.push(target.get(&addr).copied());
            },
            Collect::Done(c) => return (asked, c),
        }
    }
}

#[test]
fn collection_reads_the_identity_registers_in_order() {
    let mut target = HashMap::new();
    target.insert(0xE000ED00, 0x410FC241);
    target.insert(0xE0042000, 0x10006421);
    target.insert(0x1FFF7A20, 0x02001234);
    target.insert(0x1FFF7A10, 1);
    target.insert(0x1FFF7A14, 2);
    target.insert(0x1FFF7A18, 3);
    target.insert(0x40023C14, 0x0FFFAAED);
    let (asked, c) = collect(&target, &[]);
    assert_eq!(
        asked,
        [
            0xE000ED00, 0xE0042000, 0x1FFF7A20, 0x1FFF7A10, 0x1FFF7A14, 0x1FFF7A18, 0x40023C14
        ]
    );
    assert_eq!(c.dev_id, Some(0x421));
    assert_eq!(c.regs.get(&0x1FFF7A22), Some(&vec![0x0200]));
    assert_eq!(c.regs.get(&0x1FFF7A10), Some(&vec![1, 2, 3]));
    assert!(flash_map_fits(&c));
    let r = format_target_rows(&c.regs, c.dev_id, c.resolved.as_ref());
    assert_eq!(r.device_id, text("0x421 — STM32F446 — Cortex-M4F"));
    assert_eq!(r.flash_size, text("512 KB"));
    assert_eq!(r.unique_id, text("00000003 00000002 00000001"));
    assert_eq!(r.transport, text("SWD (native nusb, read-only)"));
    assert_eq!(r.identification, None);
    assert_eq!(r.source, text("built-in"));
}

#[test]
fn collection_falls_back_to_the_other_idcode_register() {
    let mut target = HashMap::new();
    target.insert(0xE0042000, 0xFFFFFFFF);
    target.insert(0x40015800, 0x20006440);
    let (asked, c) = collect(&target, &[]);
    assert_eq!(asked[..3], [0xE000ED00, 0xE0042000, 0x40015800]);
    // A word of the unique id that does not answer ends its reading.
    assert_eq!(asked[3..], [0x1FFFF7CC, 0x1FFFF7AC, 0x4002201C]);
    assert_eq!(c.dev_id, Some(0x440));
    assert_eq!(c.regs.get(&0xE0042000), Some(&vec![0x20006440]));
    assert_eq!(c.regs.len(), 1);
    let (asked, c) = collect(&HashMap::new(), &[]);
    assert_eq!(asked, [0xE000ED00, 0xE0042000, 0x40015800]);
    assert!(c.dev_id.is_none() && c.resolved.is_none() && c.regs.is_empty());
    let r = format_target_rows(&c.regs, c.dev_id, None);
    assert_eq!(r.access, text("Read-only identity registers"));
    assert_eq!(r.transport, text("SWD (native nusb, read-only)"));
    assert!(!r.is_empty());
}

#[test]
fn uncovered_part_is_read_by_its_definition_alone() {
    let mut def = definition();
    def.dev_id = 0x777;
    def.flash_size_addr = Some(0x2000);
    let mut target = HashMap::new();
    target.insert(0xE0042000, 0x00000777);
    target.insert(0x2000, 0x00010040);
    let (asked, c) = collect(&target, &[def]);
    assert_eq!(asked, [0xE000ED00, 0xE0042000, 0x2000]);
    let r = format_target_rows(&c.regs, c.dev_id, c.resolved.as_ref());
    assert_eq!(r.device_id, text("0x777 — My F446"));
    assert_eq!(r.flash_size, text("64 KB"));
    assert_eq!(r.flash_map, text("0x08000000-0x0800FFFF"));
    assert_eq!(r.sram, text("99 KB"));
    assert_eq!((r.unique_id, r.read_protection), (None, None));
}

#[test]
fn clone_keeps_its_name_and_any_other_part_takes_the_resolved_one() {
    let mut def = definition();
    def.dev_id = 0x410;
    def.name = "My F103".to_string();
    let mut target = HashMap::new();
    target.insert(0xE0042000, 0x20036410);
    let (_, c) = collect(&target, &[def]);
    let r = format_target_rows(&c.regs, c.dev_id, c.resolved.as_ref());
    assert_eq!(r.device_id, text("0x410 — My F103"));
    assert_eq!(r.source, text("etc/chips/f446.chip"));
    let mut def = definition();
    def.dev_id = 0x410;
    target.insert(0xE0042000, 0x13030410);
    let (_, c) = collect(&target, &[def]);
    let r = format_target_rows(&c.regs, c.dev_id, c.resolved.as_ref());
    assert_eq!(r.device_id, text("0x410 — GD32F103 (GigaDevice) — Cortex-M3"));
}
