//! FTDI bridges, by their USB descriptors.
use vstd::prelude::*;
use vstd::string::*;
use crate::fields::{lemma_with_field_row, push_field_row, value_in, with_field_row, Fields};
use crate::number::{decimal, hex_lower, push_decimal, push_hex_lower};
use crate::page::{push_line, row, row_of, shown};
use crate::pieces::{join, join_of};
use crate::stlink::controller::{usb_id, usb_id_of};
use crate::text::texts;

verus! {

/// What the descriptors of a device say, and which driver owns it.
#[derive(Debug)]
pub struct FtdiDevice {
    pub manufacturer: Option<String>,
    pub product: Option<String>,
    pub serial: Option<String>,
    pub version: u16,
    /// The number and class of each interface. Windows fills these only for
    /// composite devices bound to usbccgp.
    pub interfaces: Vec<(u8, u8)>,
    /// The kernel driver, where the system names it.
    pub driver: Option<String>,
}

/// How the search for the device went.
#[derive(Debug)]
pub enum FtdiLookup {
    ListingFailed,
    NotFound,
    Found(FtdiDevice),
}

/// The silicon that a revision of the FT232x family is; nothing where it is not
/// known.
pub open spec fn variant(pid: u16, bcd_device: u16) -> &'static str {
    if pid != 0x6001 {
        ""
    } else if bcd_device == 0x0200 {
        "FT8U232AM"
    } else if bcd_device == 0x0400 {
        "FT232BM"
    } else if bcd_device == 0x0600 {
        "FT232R / FT232RL"
    } else {
        ""
    }
}

/// bcdDevice encodes the FTDI silicon revision; for PID 0x6001 (FT232x family)
/// the meaningful values are 0x0200/0x0400/0x0600. The R and RL share 0x0600 —
/// they're the same die in different packages.
pub fn ftdi_chip_variant(pid: u16, bcd_device: u16) -> (r: &'static str)
    ensures
        r == variant(pid, bcd_device),
{
    match (pid, bcd_device) {
        (0x6001, 0x0200) => "FT8U232AM",
        (0x6001, 0x0400) => "FT232BM",
        (0x6001, 0x0600) => "FT232R / FT232RL",
        _ => "",
    }
}

pub open spec fn class_label(class: u8) -> &'static str {
    if class == 0xff {
        "Vendor-specific"
    } else if class == 0x02 {
        "CDC Communications"
    } else if class == 0x0a {
        "CDC Data"
    } else if class == 0x03 {
        "HID"
    } else {
        "Other"
    }
}

pub open spec fn interface_text(i: (u8, u8)) -> Seq<char> {
    "#"@ + decimal(i.0 as nat) + " "@ + class_label(i.1)@ + " (0x"@ + hex_lower(i.1 as nat, 2)
        + ")"@
}

pub open spec fn interface_texts(v: Seq<(u8, u8)>) -> Seq<Seq<char>> {
    Seq::new(v.len(), |i: int| interface_text(v[i]))
}

pub open spec fn variant_text(pid: u16, bcd_device: u16) -> Seq<char> {
    let bcd = "0x"@ + hex_lower(bcd_device as nat, 4);
    if variant(pid, bcd_device)@.len() == 0 {
        "bcdDevice "@ + bcd
    } else {
        variant(pid, bcd_device)@ + " (bcdDevice "@ + bcd + ")"@
    }
}

/// The fields with one value more, where the descriptors give it, be it empty.
pub open spec fn with_value(
    m: Map<Seq<char>, Seq<char>>,
    name: Seq<char>,
    value: Option<Seq<char>>,
) -> Map<Seq<char>, Seq<char>> {
    match value {
        Some(v) => m.insert(name, v),
        None => m,
    }
}

/// What the descriptors say. Interfaces and a driver are left out where there
/// are none, rather than shown empty.
pub open spec fn ftdi_info(vid: u16, pid: u16, d: FtdiDevice) -> Map<Seq<char>, Seq<char>> {
    let m = Map::empty().insert("VID:PID"@, usb_id(vid, pid));
    let m = with_value(m, "Manufacturer"@, shown(d.manufacturer));
    let m = with_value(m, "Product"@, shown(d.product));
    let m = with_value(m, "Serial number"@, shown(d.serial));
    let m = m.insert("Chip variant"@, variant_text(pid, d.version));
    let m = if d.interfaces@.len() > 0 {
        m.insert("Interfaces"@, join(interface_texts(d.interfaces@), ", "@))
    } else {
        m
    };
    match d.driver {
        Some(s) => if s@.len() > 0 {
            m.insert("Driver"@, s@)
        } else {
            m
        },
        None => m,
    }
}

fn keep_value(f: &mut Fields, name: &str, value: &Option<String>)
    ensures
        final(f)@ == with_value(old(f)@, name@, shown(*value)),
{
    if let Some(v) = value {
        f.insert(name.to_string(), v.clone());
    }
}

fn interface_texts_of(v: &Vec<(u8, u8)>) -> (r: Vec<String>)
    ensures
        texts(r@) == interface_texts(v@),
{
    let mut r: Vec<String> = Vec::new();
    let mut i: usize = 0;
    while i < v.len()
        invariant
            i <= v@.len(),
            texts(r@) == interface_texts(v@).take(i as int),
        decreases v.len() - i,
    {
        let (number, class) = v[i];
        let label = match class {
            0xff => "Vendor-specific",
            0x02 => "CDC Communications",
            0x0a => "CDC Data",
            0x03 => "HID",
            _ => "Other",
        };
        let mut s = "#".to_string();
        push_decimal(&mut s, number as u64);
        s.append(" ");
        s.append(label);
        s.append(" (0x");
        push_hex_lower(&mut s, class as u64, 2);
        s.append(")");
        push_line(&mut r, s);
        i += 1;
    }
    assert(interface_texts(v@).take(i as int) =~= interface_texts(v@));
    r
}

/// The descriptors of an FTDI bridge, cached by the system — no device IO, no
/// chip reset, safe to chain before any serial probe.
pub fn run_ftdi_info(vid: u16, pid: u16, lookup: &FtdiLookup) -> (r: Result<Fields, String>)
    ensures
        match r {
            Ok(f) => {
                &&& *lookup matches FtdiLookup::Found(d)
                &&& f@ == ftdi_info(vid, pid, d)
            },
            Err(e) => match *lookup {
                FtdiLookup::ListingFailed => e@ == "nusb::list_devices() failed"@,
                FtdiLookup::NotFound => e@ == "nusb could not find "@ + usb_id(vid, pid)
                    + " (device replugged between listing and probe?)"@,
                FtdiLookup::Found(_) => false,
            },
        },
{
    let d = match lookup {
        FtdiLookup::ListingFailed => {
            return Err("nusb::list_devices() failed".to_string());
        },
        FtdiLookup::NotFound => {
            let mut e = "nusb could not find ".to_string();
            e.append(usb_id_of(vid, pid).as_str());
            e.append(" (device replugged between listing and probe?)");
            return Err(e);
        },
        FtdiLookup::Found(d) => d,
    };
    let mut f = Fields::new();
    f.insert("VID:PID".to_string(), usb_id_of(vid, pid));
    keep_value(&mut f, "Manufacturer", &d.manufacturer);
    keep_value(&mut f, "Product", &d.product);
    keep_value(&mut f, "Serial number", &d.serial);
    let chip = ftdi_chip_variant(pid, d.version);
    let mut bcd = "0x".to_string();
    push_hex_lower(&mut bcd, d.version as u64, 4);
    let mut text = String::new();
    if chip.is_empty() {
        text.append("bcdDevice ");
        text.append(bcd.as_str());
    } else {
        text.append(chip);
        text.append(" (bcdDevice ");
        text.append(bcd.as_str());
        text.append(")");
    }
    assert(text@ =~= variant_text(pid, d.version));
    f.insert("Chip variant".to_string(), text);
    if d.interfaces.len() > 0 {
        let names = interface_texts_of(&d.interfaces);
        f.insert("Interfaces".to_string(), join_of(&names, ", "));
    }
    if let Some(s) = &d.driver {
        if !s.as_str().is_empty() {
            f.insert("Driver".to_string(), s.clone());
        }
    }
    Ok(f)
}

/// The page for an FTDI bridge.
pub open spec fn ftdi_page(m: Map<Seq<char>, Seq<char>>, board: Seq<char>) -> Seq<Seq<char>> {
    let p = seq![row("  "@, "Board"@, 20, board)];
    let p = with_field_row(p, m, "Manufacturer"@, "Manufacturer"@);
    let p = with_field_row(p, m, "Product"@, "Product"@);
    let p = with_field_row(p, m, "Serial number"@, "Serial number"@);
    let p = with_field_row(p, m, "Chip variant"@, "Chip variant"@);
    let p = with_field_row(p, m, "Interfaces"@, "Interfaces"@);
    let p = with_field_row(p, m, "Driver"@, "Driver"@);
    let p = with_field_row(p, m, "VID:PID"@, "VID:PID"@);
    p
}

/// The lines that show the report.
pub fn print_ftdi_info(info: &Fields, board_name: &str) -> (page: Vec<String>)
    ensures
        texts(page@) == ftdi_page(info@, board_name@),
{
    let mut page: Vec<String> = Vec::new();
    push_line(&mut page, row_of("  ", "Board", 20, board_name));
    assert(texts(page@) =~= seq![row("  "@, "Board"@, 20, board_name@)]);
    push_field_row(&mut page, info, "Manufacturer", "Manufacturer");
    push_field_row(&mut page, info, "Product", "Product");
    push_field_row(&mut page, info, "Serial number", "Serial number");
    push_field_row(&mut page, info, "Chip variant", "Chip variant");
    push_field_row(&mut page, info, "Interfaces", "Interfaces");
    push_field_row(&mut page, info, "Driver", "Driver");
    push_field_row(&mut page, info, "VID:PID", "VID:PID");
    page
}

/// Every value that has a place on the page is shown there, under its label.
pub proof fn law_ftdi_page_shows_every_value(m: Map<Seq<char>, Seq<char>>, board: Seq<char>)
    ensures
        m.contains_key("Manufacturer"@) ==> ftdi_page(m, board).contains(
            row("  "@, "Manufacturer"@, 20, m["Manufacturer"@]),
        ),
        m.contains_key("Product"@) ==> ftdi_page(m, board).contains(
            row("  "@, "Product"@, 20, m["Product"@]),
        ),
        m.contains_key("Serial number"@) ==> ftdi_page(m, board).contains(
            row("  "@, "Serial number"@, 20, m["Serial number"@]),
        ),
        m.contains_key("Chip variant"@) ==> ftdi_page(m, board).contains(
            row("  "@, "Chip variant"@, 20, m["Chip variant"@]),
        ),
        m.contains_key("Interfaces"@) ==> ftdi_page(m, board).contains(
            row("  "@, "Interfaces"@, 20, m["Interfaces"@]),
        ),
        m.contains_key("Driver"@) ==> ftdi_page(m, board).contains(
            row("  "@, "Driver"@, 20, m["Driver"@]),
        ),
        m.contains_key("VID:PID"@) ==> ftdi_page(m, board).contains(
            row("  "@, "VID:PID"@, 20, m["VID:PID"@]),
        ),
{
    let p = seq![row("  "@, "Board"@, 20, board)];
    lemma_with_field_row(p, m, "Manufacturer"@, "Manufacturer"@);
    let p = with_field_row(p, m, "Manufacturer"@, "Manufacturer"@);
    lemma_with_field_row(p, m, "Product"@, "Product"@);
    let p = with_field_row(p, m, "Product"@, "Product"@);
    lemma_with_field_row(p, m, "Serial number"@, "Serial number"@);
    let p = with_field_row(p, m, "Serial number"@, "Serial number"@);
    lemma_with_field_row(p, m, "Chip variant"@, "Chip variant"@);
    let p = with_field_row(p, m, "Chip variant"@, "Chip variant"@);
    lemma_with_field_row(p, m, "Interfaces"@, "Interfaces"@);
    let p = with_field_row(p, m, "Interfaces"@, "Interfaces"@);
    lemma_with_field_row(p, m, "Driver"@, "Driver"@);
    let p = with_field_row(p, m, "Driver"@, "Driver"@);
    lemma_with_field_row(p, m, "VID:PID"@, "VID:PID"@);
    let p = with_field_row(p, m, "VID:PID"@, "VID:PID"@);
}

/// The revisions of the FT232x family, by the number in the descriptor.
pub proof fn law_chip_variants(pid: u16, bcd_device: u16)
    ensures
        ({
            let v = variant(pid, bcd_device)@;
            &&& pid == 0x6001 && bcd_device == 0x0200 ==> v == "FT8U232AM"@
            &&& pid == 0x6001 && bcd_device == 0x0400 ==> v == "FT232BM"@
            &&& pid == 0x6001 && bcd_device == 0x0600 ==> v == "FT232R / FT232RL"@
            &&& pid != 0x6001 || bcd_device != 0x0200 && bcd_device != 0x0400 && bcd_device
                != 0x0600 ==> v == ""@
        }),
{
}

/// The variant is shown with the number of its revision behind it in brackets; where
/// the revision is not known, the number stands alone.
pub proof fn law_chip_variant_is_shown(pid: u16, bcd_device: u16)
    ensures
        ({
            let t = variant_text(pid, bcd_device);
            let number = "bcdDevice 0x"@ + hex_lower(bcd_device as nat, 4);
            let known = pid == 0x6001 && (bcd_device == 0x0200 || bcd_device == 0x0400
                || bcd_device == 0x0600);
            &&& known ==> t == variant(pid, bcd_device)@ + " ("@ + number + ")"@
            &&& !known ==> t == number
        }),
{
    reveal_strlit("");
    reveal_strlit("FT8U232AM");
    reveal_strlit("FT232BM");
    reveal_strlit("FT232R / FT232RL");
    reveal_strlit("bcdDevice 0x");
    reveal_strlit("bcdDevice ");
    reveal_strlit(" (bcdDevice ");
    reveal_strlit(" (");
    reveal_strlit("0x");
    let bcd = "0x"@ + hex_lower(bcd_device as nat, 4);
    let number = "bcdDevice 0x"@ + hex_lower(bcd_device as nat, 4);
    assert("bcdDevice "@ + bcd =~= number);
    let v = variant(pid, bcd_device)@;
    assert(v + " (bcdDevice "@ + bcd + ")"@ =~= v + " ("@ + number + ")"@);
}

/// An interface is shown with its number, the name of its class and the class.
pub proof fn law_interfaces_are_shown(number: u8, class: u8)
    ensures
        interface_text((number, class)) == "#"@ + decimal(number as nat) + " "@ + class_label(
            class,
        )@ + " (0x"@ + hex_lower(class as nat, 2) + ")"@,
        class == 0xff ==> class_label(class)@ == "Vendor-specific"@,
        class == 0x02 ==> class_label(class)@ == "CDC Communications"@,
        class == 0x0a ==> class_label(class)@ == "CDC Data"@,
        class == 0x03 ==> class_label(class)@ == "HID"@,
        class != 0xff && class != 0x02 && class != 0x0a && class != 0x03 ==> class_label(class)@
            == "Other"@,
{
}

/// Every descriptor of the device is reported under its name; texts that are not there
/// have no row, nor have interfaces and a driver where there are none.
pub proof fn law_descriptors_are_reported(vid: u16, pid: u16, d: FtdiDevice)
    ensures
        ({
            let m = ftdi_info(vid, pid, d);
            &&& value_in(m, "VID:PID"@) == Some(
                hex_lower(vid as nat, 4) + ":"@ + hex_lower(pid as nat, 4),
            )
            &&& value_in(m, "Manufacturer"@) == shown(d.manufacturer)
            &&& value_in(m, "Product"@) == shown(d.product)
            &&& value_in(m, "Serial number"@) == shown(d.serial)
            &&& value_in(m, "Chip variant"@) == Some(variant_text(pid, d.version))
            &&& d.interfaces@.len() == 0 ==> value_in(m, "Interfaces"@) is None
            &&& d.interfaces@.len() > 0 ==> value_in(m, "Interfaces"@) == Some(
                join(interface_texts(d.interfaces@), ", "@),
            )
            &&& (d.driver matches Some(s) && s@.len() > 0) ==> value_in(m, "Driver"@) == shown(
                d.driver,
            )
            &&& !(d.driver matches Some(s) && s@.len() > 0) ==> value_in(m, "Driver"@) is None
        }),
{
    reveal_strlit("VID:PID");
    reveal_strlit("Manufacturer");
    reveal_strlit("Product");
    reveal_strlit("Serial number");
    reveal_strlit("Chip variant");
    reveal_strlit("Interfaces");
    reveal_strlit("Driver");
    assert("VID:PID"@.len() == 7 && "VID:PID"@[0] == 'V');
    assert("Manufacturer"@.len() == 12 && "Manufacturer"@[0] == 'M');
    assert("Product"@.len() == 7 && "Product"@[0] == 'P');
    assert("Serial number"@.len() == 13);
    assert("Chip variant"@.len() == 12 && "Chip variant"@[0] == 'C');
    assert("Interfaces"@.len() == 10);
    assert("Driver"@.len() == 6);
}

} // verus!
