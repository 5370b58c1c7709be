//! Layer 1: the debug controller itself, known from its USB identity alone.
//! Nothing here opens the debug interface, so no SWD/JTAG command can come of it.
use vstd::prelude::*;
use vstd::string::*;
use crate::number::{
    hex_lower, law_different_numbers_are_written_differently, law_four_digits_of_sixteen_bits,
    push_hex_lower,
};
use crate::page::{lemma_with_row, push_row, push_text, row, shown, with_row};
use crate::stlink::driver::StlinkDriver;
use crate::text::texts;

verus! {

/// What is known of a controller from its product id.
#[derive(Clone, Copy, Debug)]
pub struct StlinkControllerProfile {
    pub generation: &'static str,
    pub controller_mcu: &'static str,
    pub core: &'static str,
    pub architecture: &'static str,
    pub max_clock: &'static str,
    pub flash: &'static str,
    pub sram: &'static str,
    pub package: &'static str,
    pub supply: &'static str,
    pub flash_map: &'static str,
    pub sram_map: &'static str,
    pub system_memory: &'static str,
    pub option_bytes: &'static str,
    pub unique_id: &'static str,
    pub self_debug: &'static str,
    pub upstream: &'static str,
    pub downstream: &'static str,
    pub confidence: &'static str,
}

/// The known controllers.
pub open spec fn profile(pid: u16) -> Option<StlinkControllerProfile> {
    match pid {
        0x3748 => Some(
            StlinkControllerProfile {
                generation: "ST-Link/V2",
                controller_mcu: "STM32F103C8T6/CBT6 (implementation-dependent)",
                core: "Arm Cortex-M3",
                architecture: "Armv7-M, Thumb/Thumb-2",
                max_clock: "72 MHz",
                flash: "64/128 KB (implementation-dependent)",
                sram: "20 KB",
                package: "Implementation-dependent",
                supply: "2.0-3.6 V",
                flash_map: "0x08000000 (size depends on controller variant)",
                sram_map: "0x20000000-0x20004FFF",
                system_memory: "0x1FFFF000-0x1FFFF7FF",
                option_bytes: "0x1FFFF800-0x1FFFF80F",
                unique_id: "96-bit UID at 0x1FFFF7E8",
                self_debug: "PA13/SWDIO, PA14/SWCLK, NRST; external probe required",
                upstream: "USB 2.0 Full Speed",
                downstream: "SWD/JTAG",
                confidence: "VID:PID identifies ST-Link/V2; exact MCU varies on clones",
            },
        ),
        0x374b => Some(
            StlinkControllerProfile {
                generation: "ST-Link/V2-1",
                controller_mcu: "STM32F103CBT6",
                core: "Arm Cortex-M3",
                architecture: "Armv7-M, Thumb/Thumb-2",
                max_clock: "72 MHz",
                flash: "128 KB",
                sram: "20 KB",
                package: "LQFP48",
                supply: "2.0-3.6 V",
                flash_map: "0x08000000-0x0801FFFF",
                sram_map: "0x20000000-0x20004FFF",
                system_memory: "0x1FFFF000-0x1FFFF7FF",
                option_bytes: "0x1FFFF800-0x1FFFF80F",
                unique_id: "96-bit UID at 0x1FFFF7E8",
                self_debug: "PA13/SWDIO, PA14/SWCLK, NRST; external probe required",
                upstream: "USB 2.0 Full Speed composite device",
                downstream: "SWD (Nucleo on-board target link)",
                confidence: "Known ST-Link/V2-1 hardware profile",
            },
        ),
        0x374e | 0x374f => Some(
            StlinkControllerProfile {
                generation: "ST-Link/V3",
                controller_mcu: "Not determined from VID:PID alone",
                core: "Not determined from VID:PID alone",
                architecture: "Implementation-dependent",
                max_clock: "Implementation-dependent",
                flash: "Implementation-dependent",
                sram: "Implementation-dependent",
                package: "Implementation-dependent",
                supply: "Implementation-dependent",
                flash_map: "Implementation-dependent",
                sram_map: "Implementation-dependent",
                system_memory: "Implementation-dependent",
                option_bytes: "Implementation-dependent",
                unique_id: "Implementation-dependent",
                self_debug: "Implementation-dependent; external probe required",
                upstream: "USB 2.0 High Speed capable",
                downstream: "SWD/JTAG",
                confidence: "VID:PID identifies ST-Link/V3 generation only",
            },
        ),
        _ => None,
    }
}

pub fn stlink_controller_profile(pid: u16) -> (r: Option<StlinkControllerProfile>)
    ensures
        r == profile(pid),
{
    match pid {
        0x3748 => Some(
            StlinkControllerProfile {
                generation: "ST-Link/V2",
                controller_mcu: "STM32F103C8T6/CBT6 (implementation-dependent)",
                core: "Arm Cortex-M3",
                architecture: "Armv7-M, Thumb/Thumb-2",
                max_clock: "72 MHz",
                flash: "64/128 KB (implementation-dependent)",
                sram: "20 KB",
                package: "Implementation-dependent",
                supply: "2.0-3.6 V",
                flash_map: "0x08000000 (size depends on controller variant)",
                sram_map: "0x20000000-0x20004FFF",
                system_memory: "0x1FFFF000-0x1FFFF7FF",
                option_bytes: "0x1FFFF800-0x1FFFF80F",
                unique_id: "96-bit UID at 0x1FFFF7E8",
                self_debug: "PA13/SWDIO, PA14/SWCLK, NRST; external probe required",
                upstream: "USB 2.0 Full Speed",
                downstream: "SWD/JTAG",
                confidence: "VID:PID identifies ST-Link/V2; exact MCU varies on clones",
            },
        ),
        0x374b => Some(
            StlinkControllerProfile {
                generation: "ST-Link/V2-1",
                controller_mcu: "STM32F103CBT6",
                core: "Arm Cortex-M3",
                architecture: "Armv7-M, Thumb/Thumb-2",
                max_clock: "72 MHz",
                flash: "128 KB",
                sram: "20 KB",
                package: "LQFP48",
                supply: "2.0-3.6 V",
                flash_map: "0x08000000-0x0801FFFF",
                sram_map: "0x20000000-0x20004FFF",
                system_memory: "0x1FFFF000-0x1FFFF7FF",
                option_bytes: "0x1FFFF800-0x1FFFF80F",
                unique_id: "96-bit UID at 0x1FFFF7E8",
                self_debug: "PA13/SWDIO, PA14/SWCLK, NRST; external probe required",
                upstream: "USB 2.0 Full Speed composite device",
                downstream: "SWD (Nucleo on-board target link)",
                confidence: "Known ST-Link/V2-1 hardware profile",
            },
        ),
        0x374e | 0x374f => Some(
            StlinkControllerProfile {
                generation: "ST-Link/V3",
                controller_mcu: "Not determined from VID:PID alone",
                core: "Not determined from VID:PID alone",
                architecture: "Implementation-dependent",
                max_clock: "Implementation-dependent",
                flash: "Implementation-dependent",
                sram: "Implementation-dependent",
                package: "Implementation-dependent",
                supply: "Implementation-dependent",
                flash_map: "Implementation-dependent",
                sram_map: "Implementation-dependent",
                system_memory: "Implementation-dependent",
                option_bytes: "Implementation-dependent",
                unique_id: "Implementation-dependent",
                self_debug: "Implementation-dependent; external probe required",
                upstream: "USB 2.0 High Speed capable",
                downstream: "SWD/JTAG",
                confidence: "VID:PID identifies ST-Link/V3 generation only",
            },
        ),
        _ => None,
    }
}

/// A layer-1 debug-controller report (ST-Link or CMSIS-DAP probe). Every row is
/// optional because the two producers fill different subsets.
#[derive(Debug)]
pub struct StlinkControllerInfo {
    pub layer: Option<String>,
    pub generation: Option<String>,
    pub controller_mcu: Option<String>,
    pub core: Option<String>,
    pub architecture: Option<String>,
    pub max_clock: Option<String>,
    pub flash: Option<String>,
    pub sram: Option<String>,
    pub package: Option<String>,
    pub supply: Option<String>,
    pub flash_map: Option<String>,
    pub sram_map: Option<String>,
    pub system_memory: Option<String>,
    pub option_bytes: Option<String>,
    pub unique_id: Option<String>,
    pub controller_debug: Option<String>,
    pub upstream: Option<String>,
    pub downstream: Option<String>,
    pub usb_identity: Option<String>,
    pub descriptor_access: Option<String>,
    pub usb_product: Option<String>,
    pub usb_serial: Option<String>,
    pub usb_device_version: Option<String>,
    pub debug_interface_driver: Option<String>,
    pub identification: Option<String>,
    pub firmware_access: Option<String>,
    pub layer2: Option<String>,
}

/// A controller report with its strings as plain text.
#[verifier::ext_equal]
pub struct ControllerView {
    pub layer: Option<Seq<char>>,
    pub generation: Option<Seq<char>>,
    pub controller_mcu: Option<Seq<char>>,
    pub core: Option<Seq<char>>,
    pub architecture: Option<Seq<char>>,
    pub max_clock: Option<Seq<char>>,
    pub flash: Option<Seq<char>>,
    pub sram: Option<Seq<char>>,
    pub package: Option<Seq<char>>,
    pub supply: Option<Seq<char>>,
    pub flash_map: Option<Seq<char>>,
    pub sram_map: Option<Seq<char>>,
    pub system_memory: Option<Seq<char>>,
    pub option_bytes: Option<Seq<char>>,
    pub unique_id: Option<Seq<char>>,
    pub controller_debug: Option<Seq<char>>,
    pub upstream: Option<Seq<char>>,
    pub downstream: Option<Seq<char>>,
    pub usb_identity: Option<Seq<char>>,
    pub descriptor_access: Option<Seq<char>>,
    pub usb_product: Option<Seq<char>>,
    pub usb_serial: Option<Seq<char>>,
    pub usb_device_version: Option<Seq<char>>,
    pub debug_interface_driver: Option<Seq<char>>,
    pub identification: Option<Seq<char>>,
    pub firmware_access: Option<Seq<char>>,
    pub layer2: Option<Seq<char>>,
}

impl View for StlinkControllerInfo {
    type V = ControllerView;

    open spec fn view(&self) -> ControllerView {
        ControllerView {
            layer: shown(self.layer),
            generation: shown(self.generation),
            controller_mcu: shown(self.controller_mcu),
            core: shown(self.core),
            architecture: shown(self.architecture),
            max_clock: shown(self.max_clock),
            flash: shown(self.flash),
            sram: shown(self.sram),
            package: shown(self.package),
            supply: shown(self.supply),
            flash_map: shown(self.flash_map),
            sram_map: shown(self.sram_map),
            system_memory: shown(self.system_memory),
            option_bytes: shown(self.option_bytes),
            unique_id: shown(self.unique_id),
            controller_debug: shown(self.controller_debug),
            upstream: shown(self.upstream),
            downstream: shown(self.downstream),
            usb_identity: shown(self.usb_identity),
            descriptor_access: shown(self.descriptor_access),
            usb_product: shown(self.usb_product),
            usb_serial: shown(self.usb_serial),
            usb_device_version: shown(self.usb_device_version),
            debug_interface_driver: shown(self.debug_interface_driver),
            identification: shown(self.identification),
            firmware_access: shown(self.firmware_access),
            layer2: shown(self.layer2),
        }
    }
}

/// The report without a row.
pub open spec fn blank_controller() -> ControllerView {
    ControllerView {
        layer: None,
        generation: None,
        controller_mcu: None,
        core: None,
        architecture: None,
        max_clock: None,
        flash: None,
        sram: None,
        package: None,
        supply: None,
        flash_map: None,
        sram_map: None,
        system_memory: None,
        option_bytes: None,
        unique_id: None,
        controller_debug: None,
        upstream: None,
        downstream: None,
        usb_identity: None,
        descriptor_access: None,
        usb_product: None,
        usb_serial: None,
        usb_device_version: None,
        debug_interface_driver: None,
        identification: None,
        firmware_access: None,
        layer2: None,
    }
}

impl Default for StlinkControllerInfo {
    fn default() -> (r: StlinkControllerInfo)
        ensures
            r@ == blank_controller(),
    {
        StlinkControllerInfo {
            layer: None,
            generation: None,
            controller_mcu: None,
            core: None,
            architecture: None,
            max_clock: None,
            flash: None,
            sram: None,
            package: None,
            supply: None,
            flash_map: None,
            sram_map: None,
            system_memory: None,
            option_bytes: None,
            unique_id: None,
            controller_debug: None,
            upstream: None,
            downstream: None,
            usb_identity: None,
            descriptor_access: None,
            usb_product: None,
            usb_serial: None,
            usb_device_version: None,
            debug_interface_driver: None,
            identification: None,
            firmware_access: None,
            layer2: None,
        }
    }
}

/// The page for a controller: the rows that the report holds, in their order.
pub open spec fn controller_page(c: ControllerView) -> Seq<Seq<char>> {
    let p = seq!["  Architecture:"@];
    let p = with_row(p, "  "@, "Layer"@, 24, c.layer);
    let p = with_row(p, "  "@, "Generation"@, 24, c.generation);
    let p = with_row(p, "  "@, "Controller MCU"@, 24, c.controller_mcu);
    let p = with_row(p, "  "@, "Core"@, 24, c.core);
    let p = with_row(p, "  "@, "Architecture"@, 24, c.architecture);
    let p = with_row(p, "  "@, "Max clock"@, 24, c.max_clock);
    let p = with_row(p, "  "@, "Flash"@, 24, c.flash);
    let p = with_row(p, "  "@, "SRAM"@, 24, c.sram);
    let p = with_row(p, "  "@, "Package"@, 24, c.package);
    let p = with_row(p, "  "@, "Supply"@, 24, c.supply);
    let p = with_row(p, "  "@, "Flash map"@, 24, c.flash_map);
    let p = with_row(p, "  "@, "SRAM map"@, 24, c.sram_map);
    let p = with_row(p, "  "@, "System memory"@, 24, c.system_memory);
    let p = with_row(p, "  "@, "Option bytes"@, 24, c.option_bytes);
    let p = with_row(p, "  "@, "Unique ID"@, 24, c.unique_id);
    let p = with_row(p, "  "@, "Controller debug"@, 24, c.controller_debug);
    let p = with_row(p, "  "@, "Upstream"@, 24, c.upstream);
    let p = with_row(p, "  "@, "Downstream"@, 24, c.downstream);
    let p = with_row(p, "  "@, "USB identity"@, 24, c.usb_identity);
    let p = with_row(p, "  "@, "Descriptor access"@, 24, c.descriptor_access);
    let p = with_row(p, "  "@, "USB product"@, 24, c.usb_product);
    let p = with_row(p, "  "@, "USB serial"@, 24, c.usb_serial);
    let p = with_row(p, "  "@, "USB device version"@, 24, c.usb_device_version);
    let p = with_row(p, "  "@, "Debug interface driver"@, 24, c.debug_interface_driver);
    let p = with_row(p, "  "@, "Identification"@, 24, c.identification);
    let p = with_row(p, "  "@, "Firmware access"@, 24, c.firmware_access);
    let p = with_row(p, "  "@, "Layer 2"@, 24, c.layer2);
    p
}

impl StlinkControllerInfo {
    pub fn is_empty(&self) -> (r: bool)
        ensures
            r == (self@.layer is None && self@.generation is None && self@.usb_identity is None),
    {
        self.layer.is_none() && self.generation.is_none() && self.usb_identity.is_none()
    }

    /// The lines that show the report.
    pub fn print(&self) -> (page: Vec<String>)
        ensures
            texts(page@) == controller_page(self@),
    {
        let mut page: Vec<String> = Vec::new();
        push_text(&mut page, "  Architecture:");
        assert(texts(page@) =~= seq!["  Architecture:"@]);
        push_row(&mut page, "  ", "Layer", 24, &self.layer);
        push_row(&mut page, "  ", "Generation", 24, &self.generation);
        push_row(&mut page, "  ", "Controller MCU", 24, &self.controller_mcu);
        push_row(&mut page, "  ", "Core", 24, &self.core);
        push_row(&mut page, "  ", "Architecture", 24, &self.architecture);
        push_row(&mut page, "  ", "Max clock", 24, &self.max_clock);
        push_row(&mut page, "  ", "Flash", 24, &self.flash);
        push_row(&mut page, "  ", "SRAM", 24, &self.sram);
        push_row(&mut page, "  ", "Package", 24, &self.package);
        push_row(&mut page, "  ", "Supply", 24, &self.supply);
        push_row(&mut page, "  ", "Flash map", 24, &self.flash_map);
        push_row(&mut page, "  ", "SRAM map", 24, &self.sram_map);
        push_row(&mut page, "  ", "System memory", 24, &self.system_memory);
        push_row(&mut page, "  ", "Option bytes", 24, &self.option_bytes);
        push_row(&mut page, "  ", "Unique ID", 24, &self.unique_id);
        push_row(&mut page, "  ", "Controller debug", 24, &self.controller_debug);
        push_row(&mut page, "  ", "Upstream", 24, &self.upstream);
        push_row(&mut page, "  ", "Downstream", 24, &self.downstream);
        push_row(&mut page, "  ", "USB identity", 24, &self.usb_identity);
        push_row(&mut page, "  ", "Descriptor access", 24, &self.descriptor_access);
        push_row(&mut page, "  ", "USB product", 24, &self.usb_product);
        push_row(&mut page, "  ", "USB serial", 24, &self.usb_serial);
        push_row(&mut page, "  ", "USB device version", 24, &self.usb_device_version);
        push_row(&mut page, "  ", "Debug interface driver", 24, &self.debug_interface_driver);
        push_row(&mut page, "  ", "Identification", 24, &self.identification);
        push_row(&mut page, "  ", "Firmware access", 24, &self.firmware_access);
        push_row(&mut page, "  ", "Layer 2", 24, &self.layer2);
        page
    }
}

/// What the USB descriptors say of a device.
#[derive(Debug)]
pub struct Descriptors {
    pub product: Option<String>,
    pub serial: Option<String>,
    pub version: u16,
}

/// `vid:pid` in four hex digits each.
pub open spec fn usb_id(vid: u16, pid: u16) -> Seq<char> {
    hex_lower(vid as nat, 4) + ":"@ + hex_lower(pid as nat, 4)
}

pub(crate) fn usb_id_of(vid: u16, pid: u16) -> (s: String)
    ensures
        s@ == usb_id(vid, pid),
{
    let mut s = String::new();
    push_hex_lower(&mut s, vid as u64, 4);
    s.append(":");
    push_hex_lower(&mut s, pid as u64, 4);
    s
}

/// The name of the service that the debug interface is bound to.
pub open spec fn driver_text(driver: Option<StlinkDriver>) -> Option<Seq<char>> {
    match driver {
        Some(StlinkDriver::WinUsb) => Some("WinUSB"@),
        Some(StlinkDriver::Other(service)) => Some(service@),
        None => None,
    }
}

/// The report of a known controller. The profile is valid whether or not the
/// descriptors could be read.
pub open spec fn controller_report(
    vid: u16,
    pid: u16,
    p: StlinkControllerProfile,
    dev: Option<Descriptors>,
    driver: Option<StlinkDriver>,
) -> ControllerView {
    ControllerView {
        layer: Some("1 - USB debug controller"@),
        generation: Some(p.generation@),
        controller_mcu: Some(p.controller_mcu@),
        core: Some(p.core@),
        architecture: Some(p.architecture@),
        max_clock: Some(p.max_clock@),
        flash: Some(p.flash@),
        sram: Some(p.sram@),
        package: Some(p.package@),
        supply: Some(p.supply@),
        flash_map: Some(p.flash_map@),
        sram_map: Some(p.sram_map@),
        system_memory: Some(p.system_memory@),
        option_bytes: Some(p.option_bytes@),
        unique_id: Some(p.unique_id@),
        controller_debug: Some(p.self_debug@),
        upstream: Some(p.upstream@),
        downstream: Some(p.downstream@),
        usb_identity: Some(usb_id(vid, pid)),
        descriptor_access: Some(
            if dev is Some {
                "Available through nusb"@
            } else {
                "Unavailable through nusb; VID:PID profile still shown"@
            },
        ),
        usb_product: match dev {
            Some(d) => shown(d.product),
            None => None,
        },
        usb_serial: match dev {
            Some(d) => shown(d.serial),
            None => None,
        },
        usb_device_version: match dev {
            Some(d) => Some("0x"@ + hex_lower(d.version as nat, 4)),
            None => None,
        },
        debug_interface_driver: driver_text(driver),
        identification: Some(p.confidence@),
        firmware_access: Some("Not attempted; read-protection status unknown"@),
        layer2: Some("Auto-probed read-only below (native SWD)"@),
    }
}

/// The USB-visible debug-controller architecture (layer 1), from the VID:PID,
/// the cached descriptors and the driver binding; an error for a controller
/// without a profile.
pub fn run_stlink_controller_query(
    vid: u16,
    pid: u16,
    dev: Option<Descriptors>,
    driver: Option<StlinkDriver>,
) -> (r: Result<StlinkControllerInfo, String>)
    ensures
        match r {
            Ok(info) => profile(pid) is Some && info@ == controller_report(
                vid,
                pid,
                profile(pid)->0,
                dev,
                driver,
            ),
            Err(e) => profile(pid) is None && e@ == "no layer-1 ST-Link profile for "@ + usb_id(
                vid,
                pid,
            ),
        },
{
    let p = match stlink_controller_profile(pid) {
        Some(p) => p,
        None => {
            let mut e = "no layer-1 ST-Link profile for ".to_string();
            e.append(usb_id_of(vid, pid).as_str());
            return Err(e);
        },
    };
    let descriptor_access = if dev.is_some() {
        "Available through nusb"
    } else {
        "Unavailable through nusb; VID:PID profile still shown"
    };
    let mut usb_product: Option<String> = None;
    let mut usb_serial: Option<String> = None;
    let mut usb_device_version: Option<String> = None;
    if let Some(d) = dev {
        usb_product = d.product;
        usb_serial = d.serial;
        let mut version = "0x".to_string();
        push_hex_lower(&mut version, d.version as u64, 4);
        usb_device_version = Some(version);
    }
    let debug_interface_driver = match driver {
        Some(StlinkDriver::WinUsb) => Some("WinUSB".to_string()),
        Some(StlinkDriver::Other(service)) => Some(service),
        None => None,
    };
    Ok(
        StlinkControllerInfo {
            layer: Some("1 - USB debug controller".to_string()),
            generation: Some(p.generation.to_string()),
            controller_mcu: Some(p.controller_mcu.to_string()),
            core: Some(p.core.to_string()),
            architecture: Some(p.architecture.to_string()),
            max_clock: Some(p.max_clock.to_string()),
            flash: Some(p.flash.to_string()),
            sram: Some(p.sram.to_string()),
            package: Some(p.package.to_string()),
            supply: Some(p.supply.to_string()),
            flash_map: Some(p.flash_map.to_string()),
            sram_map: Some(p.sram_map.to_string()),
            system_memory: Some(p.system_memory.to_string()),
            option_bytes: Some(p.option_bytes.to_string()),
            unique_id: Some(p.unique_id.to_string()),
            controller_debug: Some(p.self_debug.to_string()),
            upstream: Some(p.upstream.to_string()),
            downstream: Some(p.downstream.to_string()),
            usb_identity: Some(usb_id_of(vid, pid)),
            descriptor_access: Some(descriptor_access.to_string()),
            usb_product,
            usb_serial,
            usb_device_version,
            debug_interface_driver,
            identification: Some(p.confidence.to_string()),
            firmware_access: Some("Not attempted; read-protection status unknown".to_string()),
            layer2: Some("Auto-probed read-only below (native SWD)".to_string()),
        },
    )
}

// ── What is shown of a controller ───────────────────────────────────────
spec fn first_rows(p: Seq<Seq<char>>, c: ControllerView) -> Seq<Seq<char>> {
    let p = with_row(p, "  "@, "Layer"@, 24, c.layer);
    let p = with_row(p, "  "@, "Generation"@, 24, c.generation);
    let p = with_row(p, "  "@, "Controller MCU"@, 24, c.controller_mcu);
    let p = with_row(p, "  "@, "Core"@, 24, c.core);
    let p = with_row(p, "  "@, "Architecture"@, 24, c.architecture);
    let p = with_row(p, "  "@, "Max clock"@, 24, c.max_clock);
    let p = with_row(p, "  "@, "Flash"@, 24, c.flash);
    let p = with_row(p, "  "@, "SRAM"@, 24, c.sram);
    let p = with_row(p, "  "@, "Package"@, 24, c.package);
    p
}

proof fn lemma_first_rows(p: Seq<Seq<char>>, c: ControllerView)
    ensures
        forall|x: Seq<char>| p.contains(x) ==> #[trigger] first_rows(p, c).contains(x),
        p.len() > 0 ==> first_rows(p, c).len() > 0 && first_rows(p, c)[0] == p[0],
        c.layer matches Some(v) ==> first_rows(p, c).contains(row("  "@, "Layer"@, 24, v)),
        c.generation matches Some(v) ==> first_rows(p, c).contains(
            row("  "@, "Generation"@, 24, v),
        ),
        c.controller_mcu matches Some(v) ==> first_rows(p, c).contains(
            row("  "@, "Controller MCU"@, 24, v),
        ),
        c.core matches Some(v) ==> first_rows(p, c).contains(row("  "@, "Core"@, 24, v)),
        c.architecture matches Some(v) ==> first_rows(p, c).contains(
            row("  "@, "Architecture"@, 24, v),
        ),
        c.max_clock matches Some(v) ==> first_rows(p, c).contains(row("  "@, "Max clock"@, 24, v)),
        c.flash matches Some(v) ==> first_rows(p, c).contains(row("  "@, "Flash"@, 24, v)),
        c.sram matches Some(v) ==> first_rows(p, c).contains(row("  "@, "SRAM"@, 24, v)),
        c.package matches Some(v) ==> first_rows(p, c).contains(row("  "@, "Package"@, 24, v)),
{
    lemma_with_row(p, "  "@, "Layer"@, 24, c.layer);
    let p = with_row(p, "  "@, "Layer"@, 24, c.layer);
    lemma_with_row(p, "  "@, "Generation"@, 24, c.generation);
    let p = with_row(p, "  "@, "Generation"@, 24, c.generation);
    lemma_with_row(p, "  "@, "Controller MCU"@, 24, c.controller_mcu);
    let p = with_row(p, "  "@, "Controller MCU"@, 24, c.controller_mcu);
    lemma_with_row(p, "  "@, "Core"@, 24, c.core);
    let p = with_row(p, "  "@, "Core"@, 24, c.core);
    lemma_with_row(p, "  "@, "Architecture"@, 24, c.architecture);
    let p = with_row(p, "  "@, "Architecture"@, 24, c.architecture);
    lemma_with_row(p, "  "@, "Max clock"@, 24, c.max_clock);
    let p = with_row(p, "  "@, "Max clock"@, 24, c.max_clock);
    lemma_with_row(p, "  "@, "Flash"@, 24, c.flash);
    let p = with_row(p, "  "@, "Flash"@, 24, c.flash);
    lemma_with_row(p, "  "@, "SRAM"@, 24, c.sram);
    let p = with_row(p, "  "@, "SRAM"@, 24, c.sram);
    lemma_with_row(p, "  "@, "Package"@, 24, c.package);
    let p = with_row(p, "  "@, "Package"@, 24, c.package);
}

spec fn middle_rows(p: Seq<Seq<char>>, c: ControllerView) -> Seq<Seq<char>> {
    let p = with_row(p, "  "@, "Supply"@, 24, c.supply);
    let p = with_row(p, "  "@, "Flash map"@, 24, c.flash_map);
    let p = with_row(p, "  "@, "SRAM map"@, 24, c.sram_map);
    let p = with_row(p, "  "@, "System memory"@, 24, c.system_memory);
    let p = with_row(p, "  "@, "Option bytes"@, 24, c.option_bytes);
    let p = with_row(p, "  "@, "Unique ID"@, 24, c.unique_id);
    let p = with_row(p, "  "@, "Controller debug"@, 24, c.controller_debug);
    let p = with_row(p, "  "@, "Upstream"@, 24, c.upstream);
    let p = with_row(p, "  "@, "Downstream"@, 24, c.downstream);
    p
}

proof fn lemma_middle_rows(p: Seq<Seq<char>>, c: ControllerView)
    ensures
        forall|x: Seq<char>| p.contains(x) ==> #[trigger] middle_rows(p, c).contains(x),
        p.len() > 0 ==> middle_rows(p, c).len() > 0 && middle_rows(p, c)[0] == p[0],
        c.supply matches Some(v) ==> middle_rows(p, c).contains(row("  "@, "Supply"@, 24, v)),
        c.flash_map matches Some(v) ==> middle_rows(p, c).contains(row("  "@, "Flash map"@, 24, v)),
        c.sram_map matches Some(v) ==> middle_rows(p, c).contains(row("  "@, "SRAM map"@, 24, v)),
        c.system_memory matches Some(v) ==> middle_rows(p, c).contains(
            row("  "@, "System memory"@, 24, v),
        ),
        c.option_bytes matches Some(v) ==> middle_rows(p, c).contains(
            row("  "@, "Option bytes"@, 24, v),
        ),
        c.unique_id matches Some(v) ==> middle_rows(p, c).contains(row("  "@, "Unique ID"@, 24, v)),
        c.controller_debug matches Some(v) ==> middle_rows(p, c).contains(
            row("  "@, "Controller debug"@, 24, v),
        ),
        c.upstream matches Some(v) ==> middle_rows(p, c).contains(row("  "@, "Upstream"@, 24, v)),
        c.downstream matches Some(v) ==> middle_rows(p, c).contains(
            row("  "@, "Downstream"@, 24, v),
        ),
{
    lemma_with_row(p, "  "@, "Supply"@, 24, c.supply);
    let p = with_row(p, "  "@, "Supply"@, 24, c.supply);
    lemma_with_row(p, "  "@, "Flash map"@, 24, c.flash_map);
    let p = with_row(p, "  "@, "Flash map"@, 24, c.flash_map);
    lemma_with_row(p, "  "@, "SRAM map"@, 24, c.sram_map);
    let p = with_row(p, "  "@, "SRAM map"@, 24, c.sram_map);
    lemma_with_row(p, "  "@, "System memory"@, 24, c.system_memory);
    let p = with_row(p, "  "@, "System memory"@, 24, c.system_memory);
    lemma_with_row(p, "  "@, "Option bytes"@, 24, c.option_bytes);
    let p = with_row(p, "  "@, "Option bytes"@, 24, c.option_bytes);
    lemma_with_row(p, "  "@, "Unique ID"@, 24, c.unique_id);
    let p = with_row(p, "  "@, "Unique ID"@, 24, c.unique_id);
    lemma_with_row(p, "  "@, "Controller debug"@, 24, c.controller_debug);
    let p = with_row(p, "  "@, "Controller debug"@, 24, c.controller_debug);
    lemma_with_row(p, "  "@, "Upstream"@, 24, c.upstream);
    let p = with_row(p, "  "@, "Upstream"@, 24, c.upstream);
    lemma_with_row(p, "  "@, "Downstream"@, 24, c.downstream);
    let p = with_row(p, "  "@, "Downstream"@, 24, c.downstream);
}

spec fn last_rows(p: Seq<Seq<char>>, c: ControllerView) -> Seq<Seq<char>> {
    let p = with_row(p, "  "@, "USB identity"@, 24, c.usb_identity);
    let p = with_row(p, "  "@, "Descriptor access"@, 24, c.descriptor_access);
    let p = with_row(p, "  "@, "USB product"@, 24, c.usb_product);
    let p = with_row(p, "  "@, "USB serial"@, 24, c.usb_serial);
    let p = with_row(p, "  "@, "USB device version"@, 24, c.usb_device_version);
    let p = with_row(p, "  "@, "Debug interface driver"@, 24, c.debug_interface_driver);
    let p = with_row(p, "  "@, "Identification"@, 24, c.identification);
    let p = with_row(p, "  "@, "Firmware access"@, 24, c.firmware_access);
    let p = with_row(p, "  "@, "Layer 2"@, 24, c.layer2);
    p
}

proof fn lemma_last_rows(p: Seq<Seq<char>>, c: ControllerView)
    ensures
        forall|x: Seq<char>| p.contains(x) ==> #[trigger] last_rows(p, c).contains(x),
        p.len() > 0 ==> last_rows(p, c).len() > 0 && last_rows(p, c)[0] == p[0],
        c.usb_identity matches Some(v) ==> last_rows(p, c).contains(
            row("  "@, "USB identity"@, 24, v),
        ),
        c.descriptor_access matches Some(v) ==> last_rows(p, c).contains(
            row("  "@, "Descriptor access"@, 24, v),
        ),
        c.usb_product matches Some(v) ==> last_rows(p, c).contains(
            row("  "@, "USB product"@, 24, v),
        ),
        c.usb_serial matches Some(v) ==> last_rows(p, c).contains(row("  "@, "USB serial"@, 24, v)),
        c.usb_device_version matches Some(v) ==> last_rows(p, c).contains(
            row("  "@, "USB device version"@, 24, v),
        ),
        c.debug_interface_driver matches Some(v) ==> last_rows(p, c).contains(
            row("  "@, "Debug interface driver"@, 24, v),
        ),
        c.identification matches Some(v) ==> last_rows(p, c).contains(
            row("  "@, "Identification"@, 24, v),
        ),
        c.firmware_access matches Some(v) ==> last_rows(p, c).contains(
            row("  "@, "Firmware access"@, 24, v),
        ),
        c.layer2 matches Some(v) ==> last_rows(p, c).contains(row("  "@, "Layer 2"@, 24, v)),
{
    lemma_with_row(p, "  "@, "USB identity"@, 24, c.usb_identity);
    let p = with_row(p, "  "@, "USB identity"@, 24, c.usb_identity);
    lemma_with_row(p, "  "@, "Descriptor access"@, 24, c.descriptor_access);
    let p = with_row(p, "  "@, "Descriptor access"@, 24, c.descriptor_access);
    lemma_with_row(p, "  "@, "USB product"@, 24, c.usb_product);
    let p = with_row(p, "  "@, "USB product"@, 24, c.usb_product);
    lemma_with_row(p, "  "@, "USB serial"@, 24, c.usb_serial);
    let p = with_row(p, "  "@, "USB serial"@, 24, c.usb_serial);
    lemma_with_row(p, "  "@, "USB device version"@, 24, c.usb_device_version);
    let p = with_row(p, "  "@, "USB device version"@, 24, c.usb_device_version);
    lemma_with_row(p, "  "@, "Debug interface driver"@, 24, c.debug_interface_driver);
    let p = with_row(p, "  "@, "Debug interface driver"@, 24, c.debug_interface_driver);
    lemma_with_row(p, "  "@, "Identification"@, 24, c.identification);
    let p = with_row(p, "  "@, "Identification"@, 24, c.identification);
    lemma_with_row(p, "  "@, "Firmware access"@, 24, c.firmware_access);
    let p = with_row(p, "  "@, "Firmware access"@, 24, c.firmware_access);
    lemma_with_row(p, "  "@, "Layer 2"@, 24, c.layer2);
    let p = with_row(p, "  "@, "Layer 2"@, 24, c.layer2);
}

/// Every row that the report holds is shown, under its label.
pub proof fn law_controller_page_shows_every_row(c: ControllerView)
    ensures
        controller_page(c)[0] == "  Architecture:"@,
        c.layer matches Some(v) ==> controller_page(c).contains(row("  "@, "Layer"@, 24, v)),
        c.generation matches Some(v) ==> controller_page(c).contains(
            row("  "@, "Generation"@, 24, v),
        ),
        c.controller_mcu matches Some(v) ==> controller_page(c).contains(
            row("  "@, "Controller MCU"@, 24, v),
        ),
        c.core matches Some(v) ==> controller_page(c).contains(row("  "@, "Core"@, 24, v)),
        c.architecture matches Some(v) ==> controller_page(c).contains(
            row("  "@, "Architecture"@, 24, v),
        ),
        c.max_clock matches Some(v) ==> controller_page(c).contains(
            row("  "@, "Max clock"@, 24, v),
        ),
        c.flash matches Some(v) ==> controller_page(c).contains(row("  "@, "Flash"@, 24, v)),
        c.sram matches Some(v) ==> controller_page(c).contains(row("  "@, "SRAM"@, 24, v)),
        c.package matches Some(v) ==> controller_page(c).contains(row("  "@, "Package"@, 24, v)),
        c.supply matches Some(v) ==> controller_page(c).contains(row("  "@, "Supply"@, 24, v)),
        c.flash_map matches Some(v) ==> controller_page(c).contains(
            row("  "@, "Flash map"@, 24, v),
        ),
        c.sram_map matches Some(v) ==> controller_page(c).contains(row("  "@, "SRAM map"@, 24, v)),
        c.system_memory matches Some(v) ==> controller_page(c).contains(
            row("  "@, "System memory"@, 24, v),
        ),
        c.option_bytes matches Some(v) ==> controller_page(c).contains(
            row("  "@, "Option bytes"@, 24, v),
        ),
        c.unique_id matches Some(v) ==> controller_page(c).contains(
            row("  "@, "Unique ID"@, 24, v),
        ),
        c.controller_debug matches Some(v) ==> controller_page(c).contains(
            row("  "@, "Controller debug"@, 24, v),
        ),
        c.upstream matches Some(v) ==> controller_page(c).contains(row("  "@, "Upstream"@, 24, v)),
        c.downstream matches Some(v) ==> controller_page(c).contains(
            row("  "@, "Downstream"@, 24, v),
        ),
        c.usb_identity matches Some(v) ==> controller_page(c).contains(
            row("  "@, "USB identity"@, 24, v),
        ),
        c.descriptor_access matches Some(v) ==> controller_page(c).contains(
            row("  "@, "Descriptor access"@, 24, v),
        ),
        c.usb_product matches Some(v) ==> controller_page(c).contains(
            row("  "@, "USB product"@, 24, v),
        ),
        c.usb_serial matches Some(v) ==> controller_page(c).contains(
            row("  "@, "USB serial"@, 24, v),
        ),
        c.usb_device_version matches Some(v) ==> controller_page(c).contains(
            row("  "@, "USB device version"@, 24, v),
        ),
        c.debug_interface_driver matches Some(v) ==> controller_page(c).contains(
            row("  "@, "Debug interface driver"@, 24, v),
        ),
        c.identification matches Some(v) ==> controller_page(c).contains(
            row("  "@, "Identification"@, 24, v),
        ),
        c.firmware_access matches Some(v) ==> controller_page(c).contains(
            row("  "@, "Firmware access"@, 24, v),
        ),
        c.layer2 matches Some(v) ==> controller_page(c).contains(row("  "@, "Layer 2"@, 24, v)),
{
    let p = seq!["  Architecture:"@];
    lemma_first_rows(p, c);
    let p = first_rows(p, c);
    lemma_middle_rows(p, c);
    let p = middle_rows(p, c);
    lemma_last_rows(p, c);
    assert(controller_page(c) == last_rows(p, c));
}

/// The generations, by product id: the profile of each gives its memory map, and a
/// third-generation probe is not told from its id alone.
pub proof fn law_controllers_by_product_id(pid: u16)
    ensures
        profile(pid) is Some <==> pid == 0x3748 || pid == 0x374b || pid == 0x374e || pid == 0x374f,
        profile(pid) matches Some(p) ==> {
            &&& pid == 0x3748 ==> p.generation@ == "ST-Link/V2"@ && p.controller_mcu@
                == "STM32F103C8T6/CBT6 (implementation-dependent)"@ && p.flash@
                == "64/128 KB (implementation-dependent)"@ && p.downstream@ == "SWD/JTAG"@
            &&& pid == 0x374b ==> p.generation@ == "ST-Link/V2-1"@ && p.controller_mcu@
                == "STM32F103CBT6"@ && p.flash@ == "128 KB"@ && p.package@ == "LQFP48"@
                && p.flash_map@ == "0x08000000-0x0801FFFF"@
            &&& pid == 0x3748 || pid == 0x374b ==> p.core@ == "Arm Cortex-M3"@ && p.max_clock@
                == "72 MHz"@ && p.sram@ == "20 KB"@ && p.supply@ == "2.0-3.6 V"@ && p.sram_map@
                == "0x20000000-0x20004FFF"@ && p.system_memory@ == "0x1FFFF000-0x1FFFF7FF"@
                && p.option_bytes@ == "0x1FFFF800-0x1FFFF80F"@ && p.unique_id@
                == "96-bit UID at 0x1FFFF7E8"@
            &&& pid == 0x374e || pid == 0x374f ==> p.generation@ == "ST-Link/V3"@
                && p.controller_mcu@ == "Not determined from VID:PID alone"@ && p.flash@
                == "Implementation-dependent"@ && p.downstream@ == "SWD/JTAG"@
        },
{
}

/// A report has every row of the profile, the identity of the device, what its
/// descriptors say where they could be read, and the driver where it is known.
pub proof fn law_report_has_the_profile_and_the_descriptors(
    vid: u16,
    pid: u16,
    p: StlinkControllerProfile,
    d: Descriptors,
    driver: Option<StlinkDriver>,
)
    ensures
        ({
            let r = controller_report(vid, pid, p, Some(d), driver);
            let bare = controller_report(vid, pid, p, None, driver);
            &&& r.generation == Some(p.generation@) && r.controller_mcu == Some(p.controller_mcu@)
            &&& r.core == Some(p.core@) && r.architecture == Some(p.architecture@)
            &&& r.max_clock == Some(p.max_clock@) && r.flash == Some(p.flash@)
            &&& r.sram == Some(p.sram@) && r.package == Some(p.package@)
            &&& r.supply == Some(p.supply@) && r.flash_map == Some(p.flash_map@)
            &&& r.sram_map == Some(p.sram_map@) && r.system_memory == Some(p.system_memory@)
            &&& r.option_bytes == Some(p.option_bytes@) && r.unique_id == Some(p.unique_id@)
            &&& r.controller_debug == Some(p.self_debug@) && r.upstream == Some(p.upstream@)
            &&& r.downstream == Some(p.downstream@) && r.identification == Some(p.confidence@)
            &&& r.usb_identity == Some(hex_lower(vid as nat, 4) + ":"@ + hex_lower(pid as nat, 4))
            &&& r.usb_product == shown(d.product) && r.usb_serial == shown(d.serial)
            &&& r.usb_device_version == Some("0x"@ + hex_lower(d.version as nat, 4))
            &&& bare == (ControllerView {
                descriptor_access: Some("Unavailable through nusb; VID:PID profile still shown"@),
                usb_product: None,
                usb_serial: None,
                usb_device_version: None,
                ..r
            })
            &&& driver is None ==> r.debug_interface_driver is None
            &&& driver == Some(StlinkDriver::WinUsb) ==> r.debug_interface_driver == Some(
                "WinUSB"@,
            )
            &&& driver matches Some(StlinkDriver::Other(s)) ==> r.debug_interface_driver == Some(s@)
        }),
{
}

/// Devices with different identities are written differently.
pub proof fn law_usb_identities_differ(vid: u16, pid: u16, other_vid: u16, other_pid: u16)
    requires
        usb_id(vid, pid) == usb_id(other_vid, other_pid),
    ensures
        vid == other_vid,
        pid == other_pid,
{
    let a = hex_lower(vid as nat, 4);
    let b = hex_lower(pid as nat, 4);
    let c = hex_lower(other_vid as nat, 4);
    let d = hex_lower(other_pid as nat, 4);
    law_four_digits_of_sixteen_bits(vid as nat, false);
    law_four_digits_of_sixteen_bits(pid as nat, false);
    law_four_digits_of_sixteen_bits(other_vid as nat, false);
    law_four_digits_of_sixteen_bits(other_pid as nat, false);
    assert(usb_id(vid, pid).take(4) =~= a);
    assert(usb_id(other_vid, other_pid).take(4) =~= c);
    reveal_strlit(":");
    assert(usb_id(vid, pid).skip(5) =~= b);
    assert(usb_id(other_vid, other_pid).skip(5) =~= d);
    if vid != other_vid {
        law_different_numbers_are_written_differently(vid as nat, other_vid as nat, 16, false, 4);
    }
    if pid != other_pid {
        law_different_numbers_are_written_differently(pid as nat, other_pid as nat, 16, false, 4);
    }
}

} // verus!
