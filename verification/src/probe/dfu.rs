//! STM32 parts in their USB DFU bootloader, by what `dfu-util -l` lists.
use vstd::prelude::*;
use vstd::slice::slice_subrange;
use vstd::string::*;
use crate::number::{
    all_digits, decimal, digit_value, number, push_decimal, read_number, value_of,
};
use crate::page::{
    joined, lemma_with_row, padded, push_line, push_padded, push_row, row, row_of, shown, with_row,
};
use crate::pieces::{
    drop_leading, drop_leading_of, is_text_ignoring_case, join, join_of, law_drop_leading,
    law_split_adds, lemma_line_between, lemma_lines_lack_feeds, lines, lines_of, same_ignoring_case, split, split_of, without_cr,
};
use crate::stlink::controller::{usb_id, usb_id_of};
use crate::text::{
    chars_of, contains, find, find_char_from, find_text, find_text_of, has_prefix, has_text,
    is_white, lacks, law_prefix, law_split_once, law_split_once_parts, law_trim_finds_the_text,
    lemma_found_at, lemma_trim, lemma_trim_drops_white, lemma_trim_twice, split_once, split_once_of,
    starts_with, string_of, strip_prefix, strip_prefix_of, texts, trim, trim_of, views,
};
use crate::tool::ToolOutput;

verus! {

// ── Sector layouts ──────────────────────────────────────────────────────
/// How many digits a text begins with.
pub open spec fn leading_digits(s: Seq<char>, i: int) -> int
    decreases s.len() - i,
{
    if 0 <= i < s.len() && '0' <= s[i] <= '9' {
        leading_digits(s, i + 1)
    } else {
        i
    }
}

/// What a unit letter multiplies by.
pub open spec fn unit_size(unit: char) -> nat {
    if unit == 'K' {
        1024
    } else if unit == 'M' {
        1024 * 1024
    } else {
        1
    }
}

/// The bytes of one segment, `<count>*<pagesize><unit><flags>`.
pub open spec fn segment_bytes(seg: Seq<char>) -> Option<nat> {
    match split_once(trim(seg), '*') {
        None => None,
        Some((count, rest)) => {
            let n = leading_digits(rest, 0);
            let unit = if n < rest.len() {
                rest[n]
            } else {
                ' '
            };
            match (
                number(trim(count), 10, u64::MAX as nat),
                number(rest.take(n), 10, u64::MAX as nat),
            ) {
                (Some(count), Some(page)) => Some(count * page * unit_size(unit)),
                _ => None,
            }
        },
    }
}

/// The bytes of all segments together; none where one of them is malformed.
pub open spec fn total_bytes(segs: Seq<Seq<char>>) -> Option<nat>
    decreases segs.len(),
{
    if segs.len() == 0 {
        Some(0)
    } else {
        match (total_bytes(segs.drop_last()), segment_bytes(segs.last())) {
            (Some(total), Some(bytes)) => Some(total + bytes),
            _ => None,
        }
    }
}

/// No total on the way is beyond 64 bits.
pub open spec fn totals_fit(segs: Seq<Seq<char>>) -> bool
    decreases segs.len(),
{
    if segs.len() == 0 {
        true
    } else {
        totals_fit(segs.drop_last()) && (total_bytes(segs) is Some ==> total_bytes(segs)->0
            <= u64::MAX)
    }
}

pub open spec fn layout_fits(layout: Seq<char>) -> bool {
    totals_fit(split(layout, ','))
}

/// The kilobytes that a sector layout adds up to.
pub open spec fn region_kb(layout: Seq<char>) -> Option<nat> {
    match total_bytes(split(layout, ',')) {
        Some(bytes) => Some(bytes / 1024),
        None => None,
    }
}

/// Where a segment leaves the sum of those before it.
enum Sum {
    Malformed,
    Overflow,
    Bytes(u64),
}

fn times(a: u64, b: u64) -> (r: Option<u64>)
    ensures
        match r {
            Some(p) => p == a * b,
            None => a * b > u64::MAX,
        },
{
    a.checked_mul(b)
}

fn add_segment(total: u64, seg: &[char]) -> (r: Sum)
    ensures
        match r {
            Sum::Malformed => segment_bytes(seg@) is None,
            Sum::Overflow => segment_bytes(seg@) is Some && total + segment_bytes(seg@)->0
                > u64::MAX,
            Sum::Bytes(n) => segment_bytes(seg@) is Some && n == total + segment_bytes(seg@)->0,
        },
{
    let (count, rest) = match split_once_of(trim_of(seg), '*') {
        Some(parts) => parts,
        None => {
            return Sum::Malformed;
        },
    };
    let mut n: usize = 0;
    while n < rest.len() && '0' <= rest[n] && rest[n] <= '9'
        invariant
            n <= rest@.len(),
            leading_digits(rest@, 0) == leading_digits(rest@, n as int),
        decreases rest.len() - n,
    {
        n += 1;
    }
    let unit: char = if n < rest.len() {
        rest[n]
    } else {
        ' '
    };
    let count: u64 = match read_number(trim_of(count), 10, 0xFFFF_FFFF_FFFF_FFFF) {
        Some(v) => v,
        None => {
            return Sum::Malformed;
        },
    };
    let page: u64 = match read_number(slice_subrange(rest, 0, n), 10, 0xFFFF_FFFF_FFFF_FFFF) {
        Some(v) => v,
        None => {
            return Sum::Malformed;
        },
    };
    let size: u64 = if unit == 'K' {
        1024
    } else if unit == 'M' {
        1048576
    } else {
        1
    };
    let ghost product = count as nat * page as nat;
    assert(segment_bytes(seg@) == Some(product * size as nat));
    assert(product <= product * size as nat) by (nonlinear_arith)
        requires
            size >= 1,
            product >= 0,
    ;
    match times(count, page) {
        None => Sum::Overflow,
        Some(p) => match times(p, size) {
            None => Sum::Overflow,
            Some(bytes) => match total.checked_add(bytes) {
                None => Sum::Overflow,
                Some(sum) => Sum::Bytes(sum),
            },
        },
    }
}

/// Adds up a layout, as far as it goes.
fn layout_sum(layout: &[char]) -> (r: Sum)
    ensures
        match r {
            Sum::Malformed => layout_fits(layout@) && total_bytes(split(layout@, ',')) is None,
            Sum::Overflow => !layout_fits(layout@),
            Sum::Bytes(n) => layout_fits(layout@) && total_bytes(split(layout@, ',')) == Some(
                n as nat,
            ),
        },
{
    let segs = split_of(layout, ',');
    let ghost seen = views(segs@);
    let mut total: u64 = 0;
    let mut i: usize = 0;
    while i < segs.len()
        invariant
            i <= segs@.len(),
            seen == views(segs@),
            seen == split(layout@, ','),
            total_bytes(seen.take(i as int)) == Some(total as nat),
            totals_fit(seen.take(i as int)),
        decreases segs.len() - i,
    {
        assert(seen[i as int] == segs@[i as int]@);
        assert(seen.take(i + 1).drop_last() =~= seen.take(i as int));
        match add_segment(total, segs[i]) {
            Sum::Malformed => {
                proof {
                    lemma_malformed_stays(seen, i + 1);
                }
                return Sum::Malformed;
            },
            Sum::Overflow => {
                proof {
                    lemma_overflow_stays(seen, i + 1);
                }
                return Sum::Overflow;
            },
            Sum::Bytes(n) => {
                total = n;
            },
        }
        i += 1;
    }
    assert(seen.take(i as int) =~= seen);
    Sum::Bytes(total)
}

proof fn lemma_malformed_stays(segs: Seq<Seq<char>>, k: int)
    requires
        0 <= k <= segs.len(),
        total_bytes(segs.take(k)) is None,
        totals_fit(segs.take(k)),
    ensures
        total_bytes(segs) is None,
        totals_fit(segs),
    decreases segs.len(),
{
    if k == segs.len() {
        assert(segs.take(k) =~= segs);
    } else {
        assert(segs.drop_last().take(k) =~= segs.take(k));
        lemma_malformed_stays(segs.drop_last(), k);
    }
}

proof fn lemma_overflow_stays(segs: Seq<Seq<char>>, k: int)
    requires
        0 <= k <= segs.len(),
        !totals_fit(segs.take(k)),
    ensures
        !totals_fit(segs),
    decreases segs.len(),
{
    if k == segs.len() {
        assert(segs.take(k) =~= segs);
    } else {
        assert(segs.drop_last().take(k) =~= segs.take(k));
        lemma_overflow_stays(segs.drop_last(), k);
    }
}

fn region_kb_of(layout: &[char]) -> (r: Option<u64>)
    requires
        layout_fits(layout@),
    ensures
        match r {
            Some(kb) => region_kb(layout@) == Some(kb as nat),
            None => region_kb(layout@) is None,
        },
{
    match layout_sum(layout) {
        Sum::Bytes(n) => Some(n / 1024),
        _ => None,
    }
}

/// Sum a DfuSe sector layout like `04*016Kg,01*064Kg,07*128Kg` into total KB.
/// Each segment is `<count>*<pagesize><unit><flags>` (unit K = KiB, M = MiB).
pub fn dfu_region_size_kb(layout: &str) -> (r: Option<u64>)
    requires
        layout_fits(layout@),
    ensures
        match r {
            Some(kb) => region_kb(layout@) == Some(kb as nat),
            None => region_kb(layout@) is None,
        },
{
    let layout = chars_of(layout);
    region_kb_of(layout.as_slice())
}

// ── Regions ─────────────────────────────────────────────────────────────
/// The three parts of an alt-setting name: label, address and sector layout.
pub struct NameParts {
    pub label: Seq<char>,
    pub addr: Seq<char>,
    pub layout: Seq<char>,
}

/// A name is cut at its first two slashes; without the first there is no region
/// in it.
pub open spec fn name_parts(name: Seq<char>) -> Option<NameParts> {
    match split_once(name, '/') {
        None => None,
        Some((label, rest)) => {
            let label = trim(drop_leading(trim(label), '@'));
            Some(
                match split_once(rest, '/') {
                    Some((addr, layout)) => NameParts {
                        label,
                        addr: trim(addr),
                        layout: trim(layout),
                    },
                    None => NameParts { label, addr: trim(rest), layout: trim(""@) },
                },
            )
        },
    }
}

pub open spec fn is_internal_flash(p: NameParts) -> bool {
    same_ignoring_case(p.label, "Internal Flash"@)
}

/// A region as it is shown: its label, what is known of it, and for the internal
/// flash its size.
pub struct RegionView {
    pub label: Seq<char>,
    pub detail: Seq<char>,
    pub flash_kb: Option<nat>,
}

pub open spec fn region(name: Seq<char>) -> Option<RegionView> {
    match name_parts(name) {
        None => None,
        Some(p) => if is_internal_flash(p) && region_kb(p.layout) is Some {
            let kb = region_kb(p.layout)->0;
            Some(
                RegionView {
                    label: p.label,
                    detail: decimal(kb) + " KB @ "@ + p.addr + " ("@ + p.layout + ")"@,
                    flash_kb: Some(kb),
                },
            )
        } else {
            Some(
                RegionView {
                    label: p.label,
                    detail: if p.layout.len() == 0 {
                        "@ "@ + p.addr
                    } else {
                        "@ "@ + p.addr + " ("@ + p.layout + ")"@
                    },
                    flash_kb: None,
                },
            )
        },
    }
}

/// The layout of an internal flash adds up within 64 bits.
pub open spec fn name_fits(name: Seq<char>) -> bool {
    name_parts(name) matches Some(p) ==> is_internal_flash(p) ==> layout_fits(p.layout)
}

/// The parts of a name, as slices of it.
struct Parts<'a> {
    label: &'a [char],
    addr: &'a [char],
    layout: &'a [char],
}

fn name_parts_of<'a>(name: &'a [char], none: &'a [char]) -> (r: Option<Parts<'a>>)
    requires
        none@ == ""@,
    ensures
        match r {
            Some(p) => name_parts(name@) == Some(
                NameParts { label: p.label@, addr: p.addr@, layout: p.layout@ },
            ),
            None => name_parts(name@) is None,
        },
{
    match split_once_of(name, '/') {
        None => None,
        Some((label, rest)) => {
            let label = trim_of(drop_leading_of(trim_of(label), '@'));
            match split_once_of(rest, '/') {
                Some((addr, layout)) => Some(
                    Parts { label, addr: trim_of(addr), layout: trim_of(layout) },
                ),
                None => Some(Parts { label, addr: trim_of(rest), layout: trim_of(none) }),
            }
        },
    }
}

fn name_fits_of(name: &[char]) -> (r: bool)
    ensures
        r == name_fits(name@),
{
    let none = chars_of("");
    match name_parts_of(name, none.as_slice()) {
        None => true,
        Some(p) => if is_text_ignoring_case(p.label, "Internal Flash") {
            match layout_sum(p.layout) {
                Sum::Overflow => false,
                _ => true,
            }
        } else {
            true
        },
    }
}

/// Turn a DfuSe alt-setting name into (label, detail, flash_kb).
/// Input: `@Internal Flash  /0x08000000/04*016Kg,01*064Kg,07*128Kg`
/// flash_kb is Some only for the internal-flash region.
pub fn format_dfu_region(name: &str) -> (r: Option<(String, String, Option<u64>)>)
    requires
        name_fits(name@),
    ensures
        match r {
            Some((label, detail, kb)) => {
                &&& region(name@) matches Some(v)
                &&& label@ == v.label
                &&& detail@ == v.detail
                &&& match kb {
                    Some(kb) => v.flash_kb == Some(kb as nat),
                    None => v.flash_kb is None,
                }
            },
            None => region(name@) is None,
        },
{
    let name = chars_of(name);
    let none = chars_of("");
    let p = match name_parts_of(name.as_slice(), none.as_slice()) {
        Some(p) => p,
        None => {
            return None;
        },
    };
    let label = string_of(p.label);
    let addr = string_of(p.addr);
    let layout = string_of(p.layout);
    if is_text_ignoring_case(p.label, "Internal Flash") {
        if let Some(kb) = region_kb_of(p.layout) {
            let mut detail = String::new();
            push_decimal(&mut detail, kb);
            detail.append(" KB @ ");
            detail.append(addr.as_str());
            detail.append(" (");
            detail.append(layout.as_str());
            detail.append(")");
            assert(detail@ =~= region(name@)->0.detail);
            return Some((label, detail, Some(kb)));
        }
    }
    let mut detail = joined("@ ", addr.as_str());
    if p.layout.len() > 0 {
        detail.append(" (");
        detail.append(layout.as_str());
        detail.append(")");
    }
    Some((label, detail, None))
}

// ── Listing lines ───────────────────────────────────────────────────────
/// The value of `key=` in a listing line: up to the closing quote for a quoted
/// one, which has to be there, and up to the next comma for a bare one.
pub open spec fn line_field(line: Seq<char>, key: Seq<char>) -> Option<Seq<char>> {
    let mark = key + "="@;
    match find_text(line, mark) {
        None => None,
        Some(at) => {
            let rest = line.skip(at + mark.len());
            match strip_prefix(rest, "\""@) {
                Some(quoted) => {
                    let end = find(quoted, '"');
                    if end < quoted.len() {
                        Some(quoted.take(end))
                    } else {
                        None
                    }
                },
                None => Some(trim(rest.take(find(rest, ',')))),
            }
        },
    }
}

fn line_field_of(line: &[char], key: &str) -> (r: Option<String>)
    ensures
        match r {
            Some(v) => line_field(line@, key@) == Some(v@),
            None => line_field(line@, key@) is None,
        },
{
    let mark = joined(key, "=");
    let at = match find_text_of(line, mark.as_str()) {
        Some(at) => at,
        None => {
            return None;
        },
    };
    let n: usize = mark.as_str().unicode_len();
    let total: usize = line.len();
    let rest = slice_subrange(line, at + n, total);
    match strip_prefix_of(rest, "\"") {
        Some(quoted) => {
            let end = find_char_from(quoted, '"', 0);
            if end < quoted.len() {
                Some(string_of(slice_subrange(quoted, 0, end)))
            } else {
                None
            }
        },
        None => {
            let end = find_char_from(rest, ',', 0);
            Some(string_of(trim_of(slice_subrange(rest, 0, end))))
        },
    }
}

/// Pull the value of `key=` from a dfu-util listing line. Quoted values
/// (`name="..."`, `serial="..."`) run to the closing quote; bare values
/// (`ver=2200`) run to the next comma.
pub fn dfu_field(line: &str, key: &str) -> (r: Option<String>)
    ensures
        match r {
            Some(v) => line_field(line@, key@) == Some(v@),
            None => line_field(line@, key@) is None,
        },
{
    let line = chars_of(line);
    line_field_of(line.as_slice(), key)
}

// ── The listing ─────────────────────────────────────────────────────────
/// Aggregated `dfu-util -l` listing for one DFU device (all alt settings folded
/// into one report). `memory_map` holds one `label: detail` line per region.
#[derive(Debug)]
pub struct DfuInfo {
    pub flash_size: Option<String>,
    pub bcd_device: Option<String>,
    pub serial_number: Option<String>,
    pub alt_settings: Option<String>,
    pub vidpid: Option<String>,
    pub memory_map: Option<String>,
}

#[verifier::ext_equal]
pub struct DfuView {
    pub flash_size: Option<Seq<char>>,
    pub bcd_device: Option<Seq<char>>,
    pub serial_number: Option<Seq<char>>,
    pub alt_settings: Option<Seq<char>>,
    pub vidpid: Option<Seq<char>>,
    pub memory_map: Option<Seq<char>>,
}

impl View for DfuInfo {
    type V = DfuView;

    open spec fn view(&self) -> DfuView {
        DfuView {
            flash_size: shown(self.flash_size),
            bcd_device: shown(self.bcd_device),
            serial_number: shown(self.serial_number),
            alt_settings: shown(self.alt_settings),
            vidpid: shown(self.vidpid),
            memory_map: shown(self.memory_map),
        }
    }
}

/// A line that lists an alt setting of the device.
pub open spec fn lists_device(line: Seq<char>, vid: u16, pid: u16) -> bool {
    starts_with(line, "Found DFU:"@) && contains(line, "["@ + usb_id(vid, pid) + "]"@)
}

/// The lines that list the device, trimmed.
pub open spec fn device_lines(all: Seq<Seq<char>>, vid: u16, pid: u16) -> Seq<Seq<char>>
    decreases all.len(),
{
    if all.len() == 0 {
        Seq::empty()
    } else {
        let found = device_lines(all.drop_last(), vid, pid);
        let line = trim(all.last());
        if lists_device(line, vid, pid) {
            found.push(line)
        } else {
            found
        }
    }
}

/// The first value of a field that the lines give.
pub open spec fn first_value(found: Seq<Seq<char>>, key: Seq<char>) -> Option<Seq<char>>
    decreases found.len(),
{
    if found.len() == 0 {
        None
    } else {
        match first_value(found.drop_last(), key) {
            Some(v) => Some(v),
            None => line_field(found.last(), key),
        }
    }
}

/// The region that a line names.
pub open spec fn line_region(line: Seq<char>) -> Option<RegionView> {
    match line_field(line, "name"@) {
        Some(name) => region(name),
        None => None,
    }
}

/// The regions of the lines, in order, as they are shown.
pub open spec fn region_lines(found: Seq<Seq<char>>) -> Seq<Seq<char>>
    decreases found.len(),
{
    if found.len() == 0 {
        Seq::empty()
    } else {
        let regions = region_lines(found.drop_last());
        match line_region(found.last()) {
            Some(r) => regions.push(r.label + ": "@ + r.detail),
            None => regions,
        }
    }
}

/// The last flash size that the lines give.
pub open spec fn last_flash(found: Seq<Seq<char>>) -> Option<nat>
    decreases found.len(),
{
    if found.len() == 0 {
        None
    } else {
        match line_region(found.last()) {
            Some(r) => if r.flash_kb is Some {
                r.flash_kb
            } else {
                last_flash(found.drop_last())
            },
            None => last_flash(found.drop_last()),
        }
    }
}

/// What the lines that list the device say of it.
pub open spec fn device_info(found: Seq<Seq<char>>, vid: u16, pid: u16) -> DfuView {
    let regions = region_lines(found);
    DfuView {
        flash_size: match last_flash(found) {
            Some(kb) => Some(decimal(kb) + " KB"@),
            None => None,
        },
        bcd_device: match first_value(found, "ver"@) {
            Some(v) => Some("0x"@ + v),
            None => None,
        },
        serial_number: first_value(found, "serial"@),
        alt_settings: if found.len() > 0 {
            Some(decimal(found.len()))
        } else {
            None
        },
        vidpid: if found.len() > 0 {
            Some(usb_id(vid, pid))
        } else {
            None
        },
        memory_map: if regions.len() > 0 {
            Some(join(regions, "\n"@))
        } else {
            None
        },
    }
}

/// What a listing says of the device.
pub open spec fn dfu_info(text: Seq<char>, vid: u16, pid: u16) -> DfuView {
    device_info(device_lines(lines(text), vid, pid), vid, pid)
}

/// Every name in the listing of the device adds up within 64 bits.
pub open spec fn listing_fits(all: Seq<Seq<char>>, vid: u16, pid: u16) -> bool {
    forall|i: int|
        0 <= i < all.len() && lists_device(trim(#[trigger] all[i]), vid, pid) ==> (line_field(
            trim(all[i]),
            "name"@,
        ) matches Some(name) ==> name_fits(name))
}

fn device_mark(vid: u16, pid: u16) -> (s: String)
    ensures
        s@ == "["@ + usb_id(vid, pid) + "]"@,
{
    let mut s = joined("[", usb_id_of(vid, pid).as_str());
    s.append("]");
    s
}

/// Tells whether every name in the listing of a device adds up within 64 bits.
pub fn dfu_listing_fits(s: &str, vid: u16, pid: u16) -> (r: bool)
    ensures
        r == listing_fits(lines(s@), vid, pid),
{
    let text = chars_of(s);
    let mark = device_mark(vid, pid);
    let all = lines_of(text.as_slice());
    let ghost seen = views(all@);
    let mut i: usize = 0;
    while i < all.len()
        invariant
            i <= all@.len(),
            seen == views(all@),
            seen == lines(s@),
            mark@ == "["@ + usb_id(vid, pid) + "]"@,
            forall|k: int|
                0 <= k < i && lists_device(trim(#[trigger] seen[k]), vid, pid) ==> (line_field(
                    trim(seen[k]),
                    "name"@,
                ) matches Some(name) ==> name_fits(name)),
        decreases all.len() - i,
    {
        assert(seen[i as int] == all@[i as int]@);
        let line = trim_of(all[i]);
        if has_prefix(line, "Found DFU:") && has_text(line, mark.as_str()) {
            if let Some(name) = line_field_of(line, "name") {
                let name = chars_of(name.as_str());
                if !name_fits_of(name.as_slice()) {
                    return false;
                }
            }
        }
        i += 1;
    }
    true
}

/// Each matching line looks like:
///
/// ```text
/// Found DFU: [0483:df11] ver=2200, devnum=5, cfg=1, intf=0, path="20-1.4",
///            alt=0, name="@Internal Flash  /0x08000000/04*016Kg,01*064Kg,07*128Kg",
///            serial="3576345C3137"
/// ```
///
/// One line per alt setting; they are aggregated into a single report.
pub fn parse_dfu_output(s: &str, vid: u16, pid: u16) -> (r: DfuInfo)
    requires
        listing_fits(lines(s@), vid, pid),
    ensures
        r@ == dfu_info(s@, vid, pid),
{
    let text = chars_of(s);
    let mark = device_mark(vid, pid);
    let all = lines_of(text.as_slice());
    let ghost seen = views(all@);
    let ghost mut found: Seq<Seq<char>> = Seq::empty();
    let mut count: usize = 0;
    let mut bcd_device: Option<String> = None;
    let mut serial_number: Option<String> = None;
    let mut flash_kb: Option<u64> = None;
    let mut regions: Vec<String> = Vec::new();
    assert(texts(regions@) =~= Seq::empty());
    let mut i: usize = 0;
    while i < all.len()
        invariant
            i <= all@.len(),
            count <= i,
            seen == views(all@),
            seen == lines(s@),
            listing_fits(seen, vid, pid),
            mark@ == "["@ + usb_id(vid, pid) + "]"@,
            found == device_lines(seen.take(i as int), vid, pid),
            count == found.len(),
            shown(bcd_device) == first_value(found, "ver"@),
            shown(serial_number) == first_value(found, "serial"@),
            texts(regions@) == region_lines(found),
            match flash_kb {
                Some(kb) => last_flash(found) == Some(kb as nat),
                None => last_flash(found) is None,
            },
        decreases all.len() - i,
    {
        assert(seen[i as int] == all@[i as int]@);
        assert(seen.take(i + 1).drop_last() =~= seen.take(i as int));
        let line = trim_of(all[i]);
        i += 1;
        if !has_prefix(line, "Found DFU:") || !has_text(line, mark.as_str()) {
            continue;
        }
        count += 1;
        proof {
            let before = found;
            found = found.push(line@);
            assert(found.drop_last() =~= before);
        }
        if bcd_device.is_none() {
            bcd_device = line_field_of(line, "ver");
        }
        if serial_number.is_none() {
            serial_number = line_field_of(line, "serial");
        }
        if let Some(name) = line_field_of(line, "name") {
            assert(name_fits(name@)) by {
                assert(lists_device(trim(seen[i - 1]), vid, pid));
            }
            if let Some((label, detail, kb)) = format_dfu_region(name.as_str()) {
                let mut shown_region = joined(label.as_str(), ": ");
                shown_region.append(detail.as_str());
                push_line(&mut regions, shown_region);
                if kb.is_some() {
                    flash_kb = kb;
                }
            }
        }
    }
    assert(seen.take(i as int) =~= seen);
    let mut info = DfuInfo {
        flash_size: None,
        bcd_device: None,
        serial_number,
        alt_settings: None,
        vidpid: None,
        memory_map: None,
    };
    if let Some(kb) = flash_kb {
        let mut size = String::new();
        push_decimal(&mut size, kb);
        size.append(" KB");
        assert(size@ =~= decimal(kb as nat) + " KB"@);
        info.flash_size = Some(size);
    }
    if let Some(v) = bcd_device {
        info.bcd_device = Some(joined("0x", v.as_str()));
    }
    if count > 0 {
        let mut alts = String::new();
        push_decimal(&mut alts, count as u64);
        assert(alts@ =~= decimal(count as nat));
        info.alt_settings = Some(alts);
        info.vidpid = Some(usb_id_of(vid, pid));
    }
    assert(texts(regions@).len() == regions@.len());
    if regions.len() > 0 {
        info.memory_map = Some(join_of(&regions, "\n"));
    }
    info
}

// ── What a listing leaves open ──────────────────────────────────────────
/// A line that does not list the device is as good as absent.
pub proof fn law_other_lines_are_left_out(
    before: Seq<Seq<char>>,
    line: Seq<char>,
    after: Seq<Seq<char>>,
    vid: u16,
    pid: u16,
)
    requires
        !lists_device(trim(line), vid, pid),
    ensures
        device_lines(before + seq![line] + after, vid, pid) == device_lines(
            before + after,
            vid,
            pid,
        ),
    decreases after.len(),
{
    let long = before + seq![line] + after;
    let short = before + after;
    if after.len() == 0 {
        assert(long.drop_last() =~= before);
        assert(short =~= before);
    } else {
        assert(long.drop_last() =~= before + seq![line] + after.drop_last());
        assert(short.drop_last() =~= before + after.drop_last());
        law_other_lines_are_left_out(before, line, after.drop_last(), vid, pid);
    }
}

/// Other devices in a listing, and whatever else a listing holds between its lines,
/// change nothing in the report on a device.
pub proof fn law_other_lines_change_nothing(
    before: Seq<char>,
    line: Seq<char>,
    after: Seq<char>,
    vid: u16,
    pid: u16,
)
    requires
        before.len() > 0 ==> before.last() == '\n',
        lacks(line, '\n'),
        !lists_device(trim(line), vid, pid),
    ensures
        dfu_info(before + line.push('\n') + after, vid, pid) == dfu_info(before + after, vid, pid),
        dfu_info(before + line, vid, pid) == dfu_info(before, vid, pid),
{
    let x = lines(before);
    let none = Seq::<Seq<char>>::empty();
    if line.len() > 0 && line.last() == '\r' {
        lemma_trim_drops_white(line.drop_last(), '\r');
        assert(line.drop_last().push('\r') =~= line);
    }
    lemma_line_between(before, line, after);
    law_other_lines_are_left_out(x, without_cr(line), lines(after), vid, pid);
    law_other_lines_are_left_out(x, line, none, vid, pid);
    assert(x + seq![line] + none =~= x + seq![line]);
    assert(x + none =~= x);
}

/// What the lines that list the device have in common.
proof fn lemma_device_lines(all: Seq<Seq<char>>, vid: u16, pid: u16)
    requires
        forall|i: int| 0 <= i < all.len() ==> lacks(#[trigger] all[i], '\n'),
    ensures
        forall|k: int|
            0 <= k < device_lines(all, vid, pid).len() ==> {
                let line = #[trigger] device_lines(all, vid, pid)[k];
                &&& lacks(line, '\n')
                &&& without_cr(line) == line
                &&& trim(line) == line
                &&& lists_device(line, vid, pid)
                &&& exists|i: int| 0 <= i < all.len() && line == trim(#[trigger] all[i])
            },
    decreases all.len(),
{
    if all.len() > 0 {
        let rest = all.drop_last();
        assert forall|i: int| 0 <= i < rest.len() implies lacks(#[trigger] rest[i], '\n') by {
            assert(rest[i] == all[i]);
        }
        lemma_device_lines(rest, vid, pid);
        lemma_trim(all.last());
        lemma_trim_twice(all.last());
        let before = device_lines(rest, vid, pid);
        let found = device_lines(all, vid, pid);
        assert(all.last() == all[all.len() - 1]);
        assert(lacks(trim(all.last()), '\n'));
        assert forall|k: int| 0 <= k < found.len() implies {
            let line = #[trigger] found[k];
            &&& lacks(line, '\n')
            &&& without_cr(line) == line
            &&& trim(line) == line
            &&& lists_device(line, vid, pid)
            &&& exists|i: int| 0 <= i < all.len() && line == trim(#[trigger] all[i])
        } by {
            if k < before.len() {
                assert(found[k] == before[k]);
                let i = choose|i: int| 0 <= i < rest.len() && before[k] == trim(#[trigger] rest[i]);
                assert(rest[i] == all[i]);
            } else {
                assert(found[k] == trim(all[all.len() - 1]));
            }
        }
    }
}

proof fn lemma_device_lines_alone(found: Seq<Seq<char>>, vid: u16, pid: u16)
    requires
        forall|k: int|
            0 <= k < found.len() ==> {
                let line = #[trigger] found[k];
                trim(line) == line && lists_device(line, vid, pid)
            },
    ensures
        device_lines(found, vid, pid) == found,
    decreases found.len(),
{
    if found.len() > 0 {
        let rest = found.drop_last();
        assert forall|k: int| 0 <= k < rest.len() implies {
            let line = #[trigger] rest[k];
            trim(line) == line && lists_device(line, vid, pid)
        } by {
            assert(rest[k] == found[k]);
        }
        lemma_device_lines_alone(rest, vid, pid);
        assert(found.last() == found[found.len() - 1]);
        assert(rest.push(found.last()) =~= found);
    }
}

/// The text that has these lines.
pub open spec fn as_listing(found: Seq<Seq<char>>) -> Seq<char>
    decreases found.len(),
{
    if found.len() == 0 {
        Seq::empty()
    } else {
        as_listing(found.drop_last()) + found.last().push('\n')
    }
}

proof fn lemma_lines_of_listing(found: Seq<Seq<char>>)
    requires
        forall|k: int|
            0 <= k < found.len() ==> {
                let line = #[trigger] found[k];
                lacks(line, '\n') && without_cr(line) == line
            },
    ensures
        lines(as_listing(found)) == found,
    decreases found.len(),
{
    if found.len() > 0 {
        let rest = found.drop_last();
        let line = found.last();
        assert forall|k: int| 0 <= k < rest.len() implies {
            let line = #[trigger] rest[k];
            lacks(line, '\n') && without_cr(line) == line
        } by {
            assert(rest[k] == found[k]);
        }
        lemma_lines_of_listing(rest);
        assert(line == found[found.len() - 1]);
        let x = as_listing(rest);
        let none = Seq::<char>::empty();
        lemma_line_between(x, line, none);
        assert(x + line.push('\n') + none =~= as_listing(found));
        assert(rest + seq![line] + lines(none) =~= found);
    }
}

/// A listing and its lines on the device alone give the same report; where the names
/// of the whole listing add up within 64 bits, so do those.
pub proof fn law_device_lines_decide(text: Seq<char>, vid: u16, pid: u16)
    ensures
        lines(as_listing(device_lines(lines(text), vid, pid))) == device_lines(
            lines(text),
            vid,
            pid,
        ),
        dfu_info(as_listing(device_lines(lines(text), vid, pid)), vid, pid) == dfu_info(
            text,
            vid,
            pid,
        ),
        listing_fits(lines(text), vid, pid) ==> listing_fits(
            device_lines(lines(text), vid, pid),
            vid,
            pid,
        ),
{
    let all = lines(text);
    let found = device_lines(all, vid, pid);
    lemma_lines_lack_feeds(text, 0);
    lemma_device_lines(all, vid, pid);
    lemma_lines_of_listing(found);
    lemma_device_lines_alone(found, vid, pid);
    if listing_fits(all, vid, pid) {
        assert forall|k: int|
            0 <= k < found.len() && lists_device(trim(#[trigger] found[k]), vid, pid) implies (
        line_field(trim(found[k]), "name"@) matches Some(name) ==> name_fits(name)) by {
            let i = choose|i: int| 0 <= i < all.len() && found[k] == trim(#[trigger] all[i]);
            assert(lists_device(trim(all[i]), vid, pid));
        }
    }
}

/// The report is empty exactly where no line lists the device, and says nothing
/// then; otherwise it counts the lines and names the device.
pub proof fn law_empty_exactly_without_the_device(text: Seq<char>, vid: u16, pid: u16)
    ensures
        ({
            let all = lines(text);
            let found = device_lines(all, vid, pid);
            let d = dfu_info(text, vid, pid);
            &&& d.vidpid is None <==> found.len() == 0
            &&& found.len() == 0 <==> (forall|i: int|
                0 <= i < all.len() ==> !lists_device(trim(#[trigger] all[i]), vid, pid))
            &&& found.len() == 0 ==> d == (DfuView {
                flash_size: None,
                bcd_device: None,
                serial_number: None,
                alt_settings: None,
                vidpid: None,
                memory_map: None,
            })
            &&& found.len() > 0 ==> d.alt_settings == Some(decimal(found.len())) && d.vidpid
                == Some(usb_id(vid, pid))
        }),
{
    lemma_some_line_lists(lines(text), vid, pid);
}

proof fn lemma_some_line_lists(all: Seq<Seq<char>>, vid: u16, pid: u16)
    ensures
        device_lines(all, vid, pid).len() == 0 <==> (forall|i: int|
            0 <= i < all.len() ==> !lists_device(trim(#[trigger] all[i]), vid, pid)),
    decreases all.len(),
{
    if all.len() > 0 {
        let rest = all.drop_last();
        lemma_some_line_lists(rest, vid, pid);
        assert(all.last() == all[all.len() - 1]);
        if device_lines(all, vid, pid).len() == 0 {
            assert forall|i: int| 0 <= i < all.len() implies !lists_device(
                trim(#[trigger] all[i]),
                vid,
                pid,
            ) by {
                if i < rest.len() {
                    assert(rest[i] == all[i]);
                }
            }
        } else if forall|i: int|
            0 <= i < all.len() ==> !lists_device(trim(#[trigger] all[i]), vid, pid) {
            assert forall|i: int| 0 <= i < rest.len() implies !lists_device(
                trim(#[trigger] rest[i]),
                vid,
                pid,
            ) by {
                assert(rest[i] == all[i]);
            }
        }
    }
}

// ── The page ────────────────────────────────────────────────────────────
/// The memory map, one region a line.
pub open spec fn map_lines(regions: Seq<Seq<char>>) -> Seq<Seq<char>> {
    Seq::new(regions.len(), |i: int| "    - "@ + regions[i])
}

pub open spec fn dfu_note() -> Seq<Seq<char>> {
    seq![
        row(
            "  "@,
            "Note"@,
            20,
            "(DFU mode reports a generic 0483:DF11; the flash geometry above"@,
        ),
        "  "@ + padded(""@, 20)
            + "  identifies the STM32 family — exact part can't be read over DFU)"@,
    ]
}

/// The page for a device in DFU mode.
pub open spec fn dfu_page(d: DfuView, board: Seq<char>) -> Seq<Seq<char>> {
    let p = seq![row("  "@, "Board"@, 20, board)];
    let p = with_row(p, "  "@, "Flash size"@, 20, d.flash_size);
    let p = with_row(p, "  "@, "bcdDevice"@, 20, d.bcd_device);
    let p = with_row(p, "  "@, "Serial number"@, 20, d.serial_number);
    let p = with_row(p, "  "@, "Alt settings"@, 20, d.alt_settings);
    let p = with_row(p, "  "@, "VID:PID"@, 20, d.vidpid);
    let p = match d.memory_map {
        Some(m) => p.push("  "@ + padded("Memory map:"@, 20)) + map_lines(lines(m)),
        None => p,
    };
    p + dfu_note()
}

impl DfuInfo {
    /// `vidpid` is set only once at least one matching alt setting was seen.
    pub fn is_empty(&self) -> (r: bool)
        ensures
            r == (self@.vidpid is None),
    {
        self.vidpid.is_none()
    }

    /// The lines that show the report.
    pub fn print(&self, board_name: &str) -> (page: Vec<String>)
        ensures
            texts(page@) == dfu_page(self@, board_name@),
    {
        let mut page: Vec<String> = Vec::new();
        push_line(&mut page, row_of("  ", "Board", 20, board_name));
        assert(texts(page@) =~= seq![row("  "@, "Board"@, 20, board_name@)]);
        push_row(&mut page, "  ", "Flash size", 20, &self.flash_size);
        push_row(&mut page, "  ", "bcdDevice", 20, &self.bcd_device);
        push_row(&mut page, "  ", "Serial number", 20, &self.serial_number);
        push_row(&mut page, "  ", "Alt settings", 20, &self.alt_settings);
        push_row(&mut page, "  ", "VID:PID", 20, &self.vidpid);
        if let Some(m) = &self.memory_map {
            let mut head = "  ".to_string();
            push_padded(&mut head, "Memory map:", 20);
            push_line(&mut page, head);
            push_map_lines(&mut page, m.as_str());
        }
        let ghost before = texts(page@);
        push_line(
            &mut page,
            row_of(
                "  ",
                "Note",
                20,
                "(DFU mode reports a generic 0483:DF11; the flash geometry above",
            ),
        );
        let mut second = "  ".to_string();
        push_padded(&mut second, "", 20);
        second.append("  identifies the STM32 family — exact part can't be read over DFU)");
        push_line(&mut page, second);
        assert(texts(page@) =~= before + dfu_note());
        page
    }
}

fn push_map_lines(page: &mut Vec<String>, map: &str)
    ensures
        texts(final(page)@) == texts(old(page)@) + map_lines(lines(map@)),
{
    let text = chars_of(map);
    let all = lines_of(text.as_slice());
    let ghost seen = views(all@);
    let ghost before = texts(page@);
    assert(before + map_lines(seen).take(0) =~= before);
    let mut i: usize = 0;
    while i < all.len()
        invariant
            i <= all@.len(),
            seen == views(all@),
            texts(page@) == before + map_lines(seen).take(i as int),
        decreases all.len() - i,
    {
        assert(seen[i as int] == all@[i as int]@);
        push_line(page, joined("    - ", string_of(all[i]).as_str()));
        i += 1;
        assert(texts(page@) =~= before + map_lines(seen).take(i as int));
    }
    assert(map_lines(seen).take(i as int) =~= map_lines(seen));
}

// ── Running it ──────────────────────────────────────────────────────────
pub const NOT_LISTED: &'static str = "dfu-util did not list this device — it may have left DFU mode, or (on Windows) the DFU interface needs a WinUSB driver (run `usbipd-rs --install zadig`).";

/// A line that says why a device could not be listed.
pub open spec fn is_reason(line: Seq<char>) -> bool {
    trim(line).len() > 0 && (contains(line, "Cannot open"@) || contains(line, "libusb"@) || contains(
        line,
        "permission"@,
    ))
}

/// The first reason among the lines from `i` on.
pub open spec fn first_reason(all: Seq<Seq<char>>, i: int) -> Seq<char>
    decreases all.len() - i,
{
    if i < 0 || i >= all.len() {
        NOT_LISTED@
    } else if is_reason(all[i]) {
        all[i]
    } else {
        first_reason(all, i + 1)
    }
}

fn first_reason_of(stderr: &str) -> (s: String)
    ensures
        s@ == first_reason(lines(stderr@), 0),
{
    let text = chars_of(stderr);
    let all = lines_of(text.as_slice());
    let ghost seen = views(all@);
    let mut i: usize = 0;
    while i < all.len()
        invariant
            i <= all@.len(),
            seen == views(all@),
            seen == lines(stderr@),
            first_reason(seen, 0) == first_reason(seen, i as int),
        decreases all.len() - i,
    {
        assert(seen[i as int] == all@[i as int]@);
        let line = all[i];
        if trim_of(line).len() > 0 && (has_text(line, "Cannot open") || has_text(line, "libusb")
            || has_text(line, "permission")) {
            return string_of(line);
        }
        i += 1;
    }
    NOT_LISTED.to_string()
}

/// What a run of `dfu-util -l` gave; `None` stands for a program that could not
/// be started. A run that does not list the device is usually a missing libusb
/// binding (Windows needs WinUSB on the DFU interface), or the chip left
/// bootloader mode between listing and probe.
pub fn run_dfu_info(output: Option<&ToolOutput>, vid: u16, pid: u16) -> (r: Result<DfuInfo, String>)
    requires
        output matches Some(o) ==> listing_fits(lines(o.stdout@), vid, pid),
    ensures
        match r {
            Ok(info) => {
                &&& output matches Some(o)
                &&& info@ == dfu_info(o.stdout@, vid, pid)
                &&& info@.vidpid is Some
            },
            Err(e) => match output {
                Some(o) => dfu_info(o.stdout@, vid, pid).vidpid is None && e@ == first_reason(
                    lines(o.stderr@),
                    0,
                ),
                None => e@
                    == "dfu-util not found on PATH (install with: usbipd-rs --install dfu-util)"@,
            },
        },
{
    match output {
        None => Err(
            "dfu-util not found on PATH (install with: usbipd-rs --install dfu-util)".to_string(),
        ),
        Some(o) => {
            let info = parse_dfu_output(o.stdout.as_str(), vid, pid);
            if info.is_empty() {
                Err(first_reason_of(o.stderr.as_str()))
            } else {
                Ok(info)
            }
        },
    }
}

// ── What a layout and a listing line mean ───────────────────────────────
/// The sizes of two lists of segments add up, so that it does not matter how many
/// segments stand before one; a malformed segment in either spoils the whole.
pub proof fn law_layout_sizes_add_up(a: Seq<Seq<char>>, b: Seq<Seq<char>>, seg: Seq<char>)
    ensures
        total_bytes(Seq::empty()) == Some(0nat),
        total_bytes(seq![seg]) == segment_bytes(seg),
        total_bytes(a) is Some && total_bytes(b) is Some ==> total_bytes(a + b) == Some(
            total_bytes(a)->0 + total_bytes(b)->0,
        ),
        total_bytes(a) is None || total_bytes(b) is None ==> total_bytes(a + b) is None,
    decreases b.len(),
{
    let one = seq![seg];
    assert(one.drop_last() =~= Seq::empty());
    assert(one.last() == seg);
    reveal_with_fuel(total_bytes, 2);
    if b.len() == 0 {
        assert(a + b =~= a);
    } else {
        law_layout_sizes_add_up(a, b.drop_last(), seg);
        assert((a + b).drop_last() =~= a + b.drop_last());
        assert((a + b).last() == b.last());
    }
}

/// Two layouts with a comma between them fill as many bytes as both together.
pub proof fn law_layouts_add_up(a: Seq<char>, b: Seq<char>)
    ensures
        ({
            let x = total_bytes(split(a, ','));
            let y = total_bytes(split(b, ','));
            let both = total_bytes(split(a + seq![','] + b, ','));
            &&& x is Some && y is Some ==> both == Some(x->0 + y->0)
            &&& x is None || y is None ==> both is None
            &&& both matches Some(n) ==> region_kb(a + seq![','] + b) == Some(n / 1024)
            &&& x matches Some(n) ==> region_kb(a) == Some(n / 1024)
            &&& x is None ==> region_kb(a) is None
        }),
{
    law_split_adds(a, ',', b);
    law_layout_sizes_add_up(split(a, ','), split(b, ','), a);
}

proof fn lemma_leading_digits(s: Seq<char>, i: int, n: int)
    requires
        0 <= i <= n <= s.len(),
        forall|k: int| i <= k < n ==> '0' <= #[trigger] s[k] <= '9',
        n < s.len() ==> !('0' <= s[n] <= '9'),
    ensures
        leading_digits(s, i) == n,
    decreases n - i,
{
    if i < n {
        assert('0' <= s[i] <= '9');
        lemma_leading_digits(s, i + 1, n);
    }
}

proof fn lemma_digits_are_visible(s: Seq<char>)
    requires
        all_digits(s, 10),
        s.len() > 0,
    ensures
        trim(s) == s,
        lacks(s, '*'),
        lacks(s, ','),
        forall|k: int| 0 <= k < s.len() ==> '0' <= #[trigger] s[k] <= '9',
{
    assert forall|k: int| 0 <= k < s.len() implies '0' <= #[trigger] s[k] <= '9' by {
        assert(digit_value(s[k], 10) is Some);
    }
    assert(!is_white(s[0]) && !is_white(s.last())) by {
        assert(s.last() == s[s.len() - 1]);
    }
    let none = Seq::<char>::empty();
    law_trim_finds_the_text(none, s, none);
    assert(none + s + none =~= s);
}

/// A segment is so many pages of so many bytes: a count, a star, a page size and a unit,
/// where `K` stands for 1024 bytes, `M` for 1024 of those, and anything else, or no
/// unit, for single bytes. Flags behind the unit do not count.
pub proof fn law_segment_is_count_times_page(count: Seq<char>, page: Seq<char>, rest: Seq<char>)
    requires
        count.len() > 0 && all_digits(count, 10) && value_of(count, 10) <= u64::MAX,
        page.len() > 0 && all_digits(page, 10) && value_of(page, 10) <= u64::MAX,
        rest.len() > 0 ==> !('0' <= rest[0] <= '9') && !is_white(rest.last()),
    ensures
        ({
            let bytes = segment_bytes(count + seq!['*'] + page + rest);
            let n = value_of(count, 10) * value_of(page, 10);
            &&& rest.len() > 0 && rest[0] == 'K' ==> bytes == Some(n * 1024)
            &&& rest.len() > 0 && rest[0] == 'M' ==> bytes == Some(n * 1_048_576)
            &&& rest.len() == 0 || rest[0] != 'K' && rest[0] != 'M' ==> bytes == Some(n)
        }),
{
    let seg = count + seq!['*'] + page + rest;
    let tail = page + rest;
    lemma_digits_are_visible(count);
    lemma_digits_are_visible(page);
    lemma_segment_is_cut(count, page, rest);
    lemma_page_is_cut(page, rest);
    assert(count[0] != '+' && page[0] != '+');
    let c = value_of(count, 10);
    let p = value_of(page, 10);
    assert(number(count, 10, u64::MAX as nat) == Some(c));
    assert(number(page, 10, u64::MAX as nat) == Some(p));
    assert(c * p * 1 == c * p);
}

proof fn lemma_segment_is_cut(count: Seq<char>, page: Seq<char>, rest: Seq<char>)
    requires
        count.len() > 0 && all_digits(count, 10),
        page.len() > 0 && all_digits(page, 10),
        rest.len() > 0 ==> !is_white(rest.last()),
    ensures
        split_once(trim(count + seq!['*'] + page + rest), '*') == Some((count, page + rest)),
{
    let seg = count + seq!['*'] + page + rest;
    let tail = page + rest;
    let none = Seq::<char>::empty();
    lemma_digits_are_visible(count);
    lemma_digits_are_visible(page);
    assert(seg[0] == count[0]);
    assert(seg.last() == if rest.len() > 0 {
        rest.last()
    } else {
        page.last()
    });
    assert(page.last() == page[page.len() - 1]);
    assert(!is_white(seg[0]) && !is_white(seg.last()));
    law_trim_finds_the_text(none, seg, none);
    assert(none + seg + none =~= seg);
    assert(seg =~= count + seq!['*'] + tail);
    law_split_once_parts(count, '*', tail);
}

proof fn lemma_page_is_cut(page: Seq<char>, rest: Seq<char>)
    requires
        page.len() > 0 && all_digits(page, 10),
        rest.len() > 0 ==> !('0' <= rest[0] <= '9'),
    ensures
        leading_digits(page + rest, 0) == page.len(),
        (page + rest).take(page.len() as int) == page,
        rest.len() > 0 ==> (page + rest)[page.len() as int] == rest[0],
{
    let tail = page + rest;
    let n = page.len() as int;
    lemma_digits_are_visible(page);
    assert forall|k: int| 0 <= k < n implies '0' <= #[trigger] tail[k] <= '9' by {
        assert(tail[k] == page[k]);
    }
    if rest.len() > 0 {
        assert(tail[n] == rest[0]);
    }
    lemma_leading_digits(tail, 0, n);
    assert(tail.take(n) =~= page);
}

/// A layout fits exactly where none of its beginnings is larger than 64 bits can say.
pub proof fn law_layout_fits(segs: Seq<Seq<char>>)
    ensures
        totals_fit(segs) <==> forall|k: int|
            #![trigger segs.take(k)]
            0 <= k <= segs.len() ==> (total_bytes(segs.take(k)) matches Some(n) ==> n <= u64::MAX),
    decreases segs.len(),
{
    assert(segs.take(segs.len() as int) =~= segs);
    assert(total_bytes(Seq::empty()) == Some(0nat));
    if segs.len() > 0 {
        let fewer = segs.drop_last();
        law_layout_fits(fewer);
        assert forall|k: int| 0 <= k <= fewer.len() implies #[trigger] fewer.take(k) == segs.take(
            k,
        ) by {
            assert(fewer.take(k) =~= segs.take(k));
        }
        if totals_fit(segs) {
            assert forall|k: int|
                #![trigger segs.take(k)]
                0 <= k <= segs.len() implies (total_bytes(segs.take(k)) matches Some(n) ==> n
                <= u64::MAX) by {
                if k <= fewer.len() {
                    assert(fewer.take(k) == segs.take(k));
                }
            }
        } else {
            if !totals_fit(fewer) {
                let k = choose|k: int|
                    #![trigger fewer.take(k)]
                    0 <= k <= fewer.len() && !(total_bytes(fewer.take(k)) matches Some(n) ==> n
                        <= u64::MAX);
                assert(fewer.take(k) == segs.take(k));
            }
        }
    } else {
        assert forall|k: int|
            #![trigger segs.take(k)]
            0 <= k <= segs.len() implies (total_bytes(segs.take(k)) matches Some(n) ==> n
            <= u64::MAX) by {
            assert(segs.take(k) =~= Seq::empty());
        }
    }
}

proof fn lemma_behind_mark(before: Seq<char>, key: Seq<char>, rest: Seq<char>)
    ensures
        (before + key + "="@ + rest).skip(before.len() as int + (key + "="@).len()) == rest,
{
    reveal_strlit("=");
    assert((before + key + "="@ + rest).skip(before.len() as int + (key + "="@).len()) =~= rest);
}

/// A quoted value of a listing line is what stands between its quotes, commas and all;
/// a quote that is not closed gives no value.
pub proof fn law_quoted_field(before: Seq<char>, key: Seq<char>, value: Seq<char>, after: Seq<char>)
    requires
        lacks(value, '"'),
    ensures
        ({
            let line = before + key + "="@ + ("\""@ + (value + seq!['"'] + after));
            find_text(line, key + "="@) == Some(before.len() as int) ==> line_field(line, key)
                == Some(value)
        }),
        ({
            let line = before + key + "="@ + ("\""@ + value);
            find_text(line, key + "="@) == Some(before.len() as int) ==> line_field(line, key)
                is None
        }),
{
    let inner = value + seq!['"'] + after;
    lemma_behind_mark(before, key, "\""@ + inner);
    lemma_behind_mark(before, key, "\""@ + value);
    law_prefix("\""@, inner, inner);
    law_prefix("\""@, value, value);
    assert forall|k: int| 0 <= k < value.len() implies #[trigger] inner[k] != '"' by {
        assert(inner[k] == value[k]);
    }
    lemma_found_at(inner, '"', 0, value.len() as int);
    lemma_found_at(value, '"', 0, value.len() as int);
    assert(inner.take(value.len() as int) =~= value);
}

/// A bare value ends at the next comma, or with the line; a key that is not there has no
/// value.
pub proof fn law_bare_field(before: Seq<char>, key: Seq<char>, value: Seq<char>, after: Seq<char>)
    requires
        lacks(value, ','),
        value.len() > 0,
        value[0] != '"',
        after.len() > 0 ==> after[0] == ',',
    ensures
        ({
            let line = before + key + "="@ + (value + after);
            &&& find_text(line, key + "="@) == Some(before.len() as int) ==> line_field(line, key)
                == Some(trim(value))
            &&& find_text(line, key + "="@) is None ==> line_field(line, key) is None
        }),
{
    let rest = value + after;
    reveal_strlit("\"");
    lemma_behind_mark(before, key, rest);
    assert(rest.take(1)[0] == value[0]);
    assert forall|k: int| 0 <= k < value.len() implies #[trigger] rest[k] != ',' by {
        assert(rest[k] == value[k]);
    }
    if after.len() > 0 {
        assert(rest[value.len() as int] == after[0]);
    }
    lemma_found_at(rest, ',', 0, value.len() as int);
    assert(rest.take(value.len() as int) =~= value);
}

/// An alt-setting name is `@label/address/layout`. What is shown of it is the label and
/// the address, with the layout where there is one. Only a region called `Internal
/// Flash`, in whatever letter case, tells the size of the flash, and only with a layout
/// that adds up; its size leads the detail.
pub proof fn law_regions(label: Seq<char>, addr: Seq<char>, layout: Seq<char>, name: Seq<char>)
    requires
        lacks(label, '/'),
        lacks(addr, '/'),
        trim(label) == label && trim(addr) == addr && trim(layout) == layout,
        label.len() > 0 ==> label[0] != '@',
    ensures
        lacks(name, '/') ==> region(name) is None,
        ({
            let r = region(seq!['@'] + label + seq!['/'] + addr + seq!['/'] + layout);
            let flash = same_ignoring_case(label, "Internal Flash"@);
            let kb = region_kb(layout);
            &&& r is Some
            &&& r->0.label == label
            &&& flash && kb is Some ==> r->0.flash_kb == kb && r->0.detail == decimal(kb->0)
                + " KB @ "@ + addr + " ("@ + layout + ")"@
            &&& !flash || kb is None ==> r->0.flash_kb is None
            &&& (!flash || kb is None) && layout.len() > 0 ==> r->0.detail == "@ "@ + addr + " ("@
                + layout + ")"@
            &&& (!flash || kb is None) && layout.len() == 0 ==> r->0.detail == "@ "@ + addr
        }),
{
    law_split_once(name, '/');
    if lacks(name, '/') {
        assert(split_once(name, '/') is None) by {
            if let Some((a, b)) = split_once(name, '/') {
                assert(name[a.len() as int] == '/');
            }
        }
    }
    let head = seq!['@'] + label;
    let tail = addr + seq!['/'] + layout;
    let full = seq!['@'] + label + seq!['/'] + addr + seq!['/'] + layout;
    assert(full =~= head + seq!['/'] + tail);
    assert(lacks(head, '/')) by {
        assert forall|k: int| 0 <= k < head.len() implies #[trigger] head[k] != '/' by {
            if k > 0 {
                assert(head[k] == label[k - 1]);
            }
        }
    }
    law_split_once_parts(head, '/', tail);
    law_split_once_parts(addr, '/', layout);
    lemma_trim(label);
    let none = Seq::<char>::empty();
    assert(head[0] == '@');
    assert(head.last() == if label.len() > 0 {
        label.last()
    } else {
        '@'
    });
    law_trim_finds_the_text(none, head, none);
    assert(none + head + none =~= head);
    law_drop_leading(1, '@', label);
    assert(Seq::new(1, |i: int| '@') + label =~= head);
}

/// A value is taken from the first line that gives it.
pub proof fn law_first_line_with_a_value_decides(found: Seq<Seq<char>>, key: Seq<char>, k: int)
    requires
        0 <= k <= found.len(),
        forall|j: int| 0 <= j < k ==> line_field(#[trigger] found[j], key) is None,
        k < found.len() ==> line_field(found[k], key) is Some,
    ensures
        k < found.len() ==> first_value(found, key) == line_field(found[k], key),
        k == found.len() ==> first_value(found, key) is None,
    decreases found.len(),
{
    if found.len() > 0 {
        let fewer = found.drop_last();
        assert forall|j: int| 0 <= j < k && j < fewer.len() implies line_field(
            #[trigger] fewer[j],
            key,
        ) is None by {
            assert(fewer[j] == found[j]);
        }
        if k < fewer.len() {
            assert(fewer[k] == found[k]);
            law_first_line_with_a_value_decides(fewer, key, k);
        } else {
            law_first_line_with_a_value_decides(fewer, key, fewer.len() as int);
            assert(found.last() == found[found.len() - 1]);
        }
    }
}

/// The memory map has the regions of the lines one after the other, and the flash size
/// is that of the last line that tells one.
pub proof fn law_regions_are_kept_in_order(a: Seq<Seq<char>>, b: Seq<Seq<char>>, line: Seq<char>)
    ensures
        region_lines(a + b) == region_lines(a) + region_lines(b),
        match line_region(line) {
            Some(r) => region_lines(seq![line]) == seq![r.label + ": "@ + r.detail],
            None => region_lines(seq![line]) == Seq::<Seq<char>>::empty(),
        },
        last_flash(b) is Some ==> last_flash(a + b) == last_flash(b),
        last_flash(b) is None ==> last_flash(a + b) == last_flash(a),
        last_flash(seq![line]) == match line_region(line) {
            Some(r) => r.flash_kb,
            None => None,
        },
    decreases b.len(),
{
    let one = seq![line];
    assert(one.drop_last() =~= Seq::empty());
    assert(one.last() == line);
    reveal_with_fuel(region_lines, 2);
    reveal_with_fuel(last_flash, 2);
    match line_region(line) {
        Some(r) => {
            assert(region_lines(one) =~= seq![r.label + ": "@ + r.detail]);
        },
        None => {
            assert(region_lines(one) =~= Seq::empty());
        },
    }
    if b.len() == 0 {
        assert(a + b =~= a);
        assert(region_lines(a) + region_lines(b) =~= region_lines(a));
    } else {
        law_regions_are_kept_in_order(a, b.drop_last(), line);
        assert((a + b).drop_last() =~= a + b.drop_last());
        assert((a + b).last() == b.last());
        assert(region_lines(a + b) =~= region_lines(a) + region_lines(b));
    }
}

/// The report has the first version and serial number that the lines give, every
/// region, one to a line, and the flash size in kilobytes.
pub proof fn law_report_is_made_of_the_lines(found: Seq<Seq<char>>, vid: u16, pid: u16)
    ensures
        ({
            let d = device_info(found, vid, pid);
            &&& d.serial_number == first_value(found, "serial"@)
            &&& d.bcd_device is Some <==> first_value(found, "ver"@) is Some
            &&& first_value(found, "ver"@) matches Some(v) ==> d.bcd_device == Some("0x"@ + v)
            &&& d.flash_size is Some <==> last_flash(found) is Some
            &&& last_flash(found) matches Some(kb) ==> d.flash_size == Some(decimal(kb) + " KB"@)
            &&& d.memory_map is Some <==> region_lines(found).len() > 0
            &&& d.memory_map matches Some(m) ==> m == join(region_lines(found), "\n"@)
            &&& found.len() > 0 ==> d.alt_settings == Some(decimal(found.len())) && d.vidpid
                == Some(usb_id(vid, pid))
            &&& found.len() == 0 ==> d == (DfuView {
                flash_size: None,
                bcd_device: None,
                serial_number: None,
                alt_settings: None,
                vidpid: None,
                memory_map: None,
            })
        }),
{
}

/// The lines of the device are those that begin as a found one and hold its ids in
/// brackets. They are picked one by one and trimmed, in order, and the report is made of
/// them; the name on such a line gives its region.
pub proof fn law_lines_of_the_device(
    text: Seq<char>,
    a: Seq<Seq<char>>,
    b: Seq<Seq<char>>,
    line: Seq<char>,
    vid: u16,
    pid: u16,
)
    ensures
        dfu_info(text, vid, pid) == device_info(device_lines(lines(text), vid, pid), vid, pid),
        device_lines(a + b, vid, pid) == device_lines(a, vid, pid) + device_lines(b, vid, pid),
        device_lines(seq![line], vid, pid) == if lists_device(trim(line), vid, pid) {
            seq![trim(line)]
        } else {
            Seq::empty()
        },
        lists_device(line, vid, pid) <==> starts_with(line, "Found DFU:"@) && contains(
            line,
            "["@ + usb_id(vid, pid) + "]"@,
        ),
        line_field(line, "name"@) matches Some(name) ==> line_region(line) == region(name),
        line_field(line, "name"@) is None ==> line_region(line) is None,
    decreases b.len(),
{
    let one = seq![line];
    assert(one.drop_last() =~= Seq::empty());
    assert(one.last() == line);
    reveal_with_fuel(device_lines, 2);
    if b.len() == 0 {
        assert(a + b =~= a);
        assert(device_lines(a, vid, pid) + device_lines(b, vid, pid) =~= device_lines(a, vid, pid));
    } else {
        assert((a + b).drop_last() =~= a + b.drop_last());
        assert((a + b).last() == b.last());
        law_lines_of_the_device(text, a, b.drop_last(), line, vid, pid);
        assert(device_lines(a + b, vid, pid) =~= device_lines(a, vid, pid) + device_lines(
            b,
            vid,
            pid,
        ));
    }
}

/// Every value that was read is shown, under its label, and below them the regions of
/// the memory map, one a line.
pub proof fn law_dfu_page_shows_every_value(d: DfuView, board: Seq<char>)
    ensures
        dfu_page(d, board).contains(row("  "@, "Board"@, 20, board)),
        d.flash_size matches Some(v) ==> dfu_page(d, board).contains(
            row("  "@, "Flash size"@, 20, v),
        ),
        d.bcd_device matches Some(v) ==> dfu_page(d, board).contains(
            row("  "@, "bcdDevice"@, 20, v),
        ),
        d.serial_number matches Some(v) ==> dfu_page(d, board).contains(
            row("  "@, "Serial number"@, 20, v),
        ),
        d.alt_settings matches Some(v) ==> dfu_page(d, board).contains(
            row("  "@, "Alt settings"@, 20, v),
        ),
        d.vidpid matches Some(v) ==> dfu_page(d, board).contains(row("  "@, "VID:PID"@, 20, v)),
        d.memory_map matches Some(m) ==> forall|i: int|
            0 <= i < lines(m).len() ==> dfu_page(d, board).contains(
                "    - "@ + #[trigger] lines(m)[i],
            ),
{
    let p = seq![row("  "@, "Board"@, 20, board)];
    assert(p[0] == row("  "@, "Board"@, 20, board));
    lemma_with_row(p, "  "@, "Flash size"@, 20, d.flash_size);
    let p = with_row(p, "  "@, "Flash size"@, 20, d.flash_size);
    lemma_with_row(p, "  "@, "bcdDevice"@, 20, d.bcd_device);
    let p = with_row(p, "  "@, "bcdDevice"@, 20, d.bcd_device);
    lemma_with_row(p, "  "@, "Serial number"@, 20, d.serial_number);
    let p = with_row(p, "  "@, "Serial number"@, 20, d.serial_number);
    lemma_with_row(p, "  "@, "Alt settings"@, 20, d.alt_settings);
    let p = with_row(p, "  "@, "Alt settings"@, 20, d.alt_settings);
    lemma_with_row(p, "  "@, "VID:PID"@, 20, d.vidpid);
    let p = with_row(p, "  "@, "VID:PID"@, 20, d.vidpid);
    let page = dfu_page(d, board);
    let map = match d.memory_map {
        Some(m) => seq!["  "@ + padded("Memory map:"@, 20)] + map_lines(lines(m)),
        None => Seq::empty(),
    };
    assert(page =~= p + map + dfu_note());
    assert forall|x: Seq<char>| p.contains(x) implies #[trigger] page.contains(x) by {
        let i = choose|i: int| 0 <= i < p.len() && p[i] == x;
        assert(page[i] == x);
    }
    if let Some(m) = d.memory_map {
        assert forall|i: int| 0 <= i < lines(m).len() implies page.contains(
            "    - "@ + #[trigger] lines(m)[i],
        ) by {
            assert(page[p.len() + 1 + i] == "    - "@ + lines(m)[i]);
        }
    }
}

/// The reason of a device that is not listed is the first line that speaks of opening
/// it, of libusb or of a permission; without one it is said that it was not listed.
pub proof fn law_first_reason_counts(all: Seq<Seq<char>>, i: int, k: int)
    requires
        0 <= i <= k <= all.len(),
        forall|j: int|
            i <= j < k ==> trim(#[trigger] all[j]).len() == 0 || !contains(all[j], "Cannot open"@)
                && !contains(all[j], "libusb"@) && !contains(all[j], "permission"@),
        k < all.len() ==> trim(all[k]).len() > 0 && (contains(all[k], "Cannot open"@) || contains(
            all[k],
            "libusb"@,
        ) || contains(all[k], "permission"@)),
    ensures
        k < all.len() ==> first_reason(all, i) == all[k],
        k == all.len() ==> first_reason(all, i) == NOT_LISTED@,
    decreases k - i,
{
    if i < k {
        assert(!is_reason(all[i]));
        law_first_reason_counts(all, i + 1, k);
    }
}

} // verus!
