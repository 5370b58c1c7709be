//! Reading the identity of the target behind a debug probe, over SWD and
//! without touching anything else on it.
use std::collections::HashMap;
use vstd::prelude::*;
use vstd::slice::slice_subrange;
use vstd::string::*;
use crate::number::{decimal, hex_upper, lemma_hex_upper_is_digits};
use crate::stm32::chipdb::{
    defs, resolve_chip, resolved, ChipDef, ChipDefView, ResolvedChip, ResolvedView,
};
use crate::stm32::decode::{
    decode_rdp, decode_stlink_regs, decoded, dev_id_of, device_id_text, family_of, first,
    first_word, flash_kb, flash_map_of, flash_map_text, flash_word_present, kb_of, kb_text,
    named_id, named_id_of, rdp_text, rev_id_of, words_at, ReportView, TargetReport,
};
use crate::stm32::{
    family, gd32_line, gd32_name, gd32_part, lemma_family_names_lack_g, Gd32Line, CPUID,
    DBGMCU_IDCODE, DBGMCU_IDCODE_M0,
};
use crate::text::{
    chars_of, contains, has_text, lemma_lacking_is_not_contained, lemma_standing_is_contained,
};

pub mod cmsisdap;
pub mod cmsisdap_query;
pub mod interface;
pub mod stlink;

verus! {

// ── Words in byte buffers ───────────────────────────────────────────────
/// The number that four bytes write, the least significant first.
pub open spec fn le_value(b: Seq<u8>) -> nat {
    (b[0] + b[1] * 0x100 + b[2] * 0x1_0000 + b[3] * 0x100_0000) as nat
}

/// The word at an offset, where there are four bytes of it.
pub open spec fn word_at(bytes: Seq<u8>, offset: int) -> Option<u32> {
    if offset + 4 <= bytes.len() {
        Some(le_value(bytes.subrange(offset, offset + 4)) as u32)
    } else {
        None
    }
}

/// The bytes of a word, the least significant first.
pub open spec fn le_bytes(v: u32) -> Seq<u8> {
    seq![
        (v & 0xFF) as u8,
        ((v >> 8) & 0xFF) as u8,
        ((v >> 16) & 0xFF) as u8,
        ((v >> 24) & 0xFF) as u8,
    ]
}

/// The little-endian word at `offset`, or `None` where it would end behind the
/// last byte.
pub fn le_u32(bytes: &[u8], offset: usize) -> (r: Option<u32>)
    requires
        offset + 4 <= usize::MAX,
    ensures
        r == word_at(bytes@, offset as int),
{
    if offset + 4 > bytes.len() {
        return None;
    }
    let v: u32 = bytes[offset] as u32 + bytes[offset + 1] as u32 * 0x100 + bytes[offset + 2] as u32
        * 0x1_0000 + bytes[offset + 3] as u32 * 0x100_0000;
    Some(v)
}

pub(crate) fn push_le(out: &mut Vec<u8>, v: u32)
    ensures
        final(out)@ == old(out)@ + le_bytes(v),
{
    out.push((v & 0xFF) as u8);
    out.push(((v >> 8) & 0xFF) as u8);
    out.push(((v >> 16) & 0xFF) as u8);
    out.push(((v >> 24) & 0xFF) as u8);
    assert(out@ =~= old(out)@ + le_bytes(v));
}

/// A word laid out as bytes and read at their place is the word again.
pub proof fn law_word_round_trip(before: Seq<u8>, v: u32, after: Seq<u8>)
    ensures
        word_at(before + le_bytes(v) + after, before.len() as int) == Some(v),
{
    let all = before + le_bytes(v) + after;
    let o = before.len() as int;
    assert(all.subrange(o, o + 4) =~= le_bytes(v));
    assert(((v & 0xFF) as u8) + ((v >> 8) & 0xFF) as u8 * 0x100 + ((v >> 16) & 0xFF) as u8
        * 0x1_0000 + ((v >> 24) & 0xFF) as u8 * 0x100_0000 == v) by (bit_vector);
}

// ── Reading the identity registers ──────────────────────────────────────
/// What was read of a target, and what it turned out to be.
#[derive(Debug)]
pub struct Collected {
    pub regs: HashMap<u32, Vec<u32>>,
    pub dev_id: Option<u16>,
    pub resolved: Option<ResolvedChip>,
}

pub struct CollectedView {
    pub regs: Map<u32, Seq<u32>>,
    pub dev_id: Option<u16>,
    pub resolved: Option<ResolvedView>,
}

/// What comes next: one more word to read, or the whole collection.
#[derive(Debug)]
pub enum Collect {
    Read(u32),
    Done(Collected),
}

pub enum CollectView {
    Read(u32),
    Done(CollectedView),
}

pub open spec fn resolved_view(r: Option<ResolvedChip>) -> Option<ResolvedView> {
    match r {
        Some(c) => Some(c@),
        None => None,
    }
}

impl View for Collected {
    type V = CollectedView;

    open spec fn view(&self) -> CollectedView {
        CollectedView {
            regs: words_at(self.regs@),
            dev_id: self.dev_id,
            resolved: resolved_view(self.resolved),
        }
    }
}

impl View for Collect {
    type V = CollectView;

    open spec fn view(&self) -> CollectView {
        match *self {
            Collect::Read(a) => CollectView::Read(a),
            Collect::Done(c) => CollectView::Done(c@),
        }
    }
}

/// A device identification register that was read and names a device.
pub open spec fn names_device(reply: Option<u32>) -> bool {
    reply is Some && (reply->0 & 0xFFF) != 0 && (reply->0 & 0xFFF) != 0xFFF
}

/// The registers with the word that was read at `addr`, if it was.
pub open spec fn with_word(regs: Map<u32, Seq<u32>>, addr: u32, reply: Option<u32>) -> Map<
    u32,
    Seq<u32>,
> {
    match reply {
        Some(v) => regs.insert(addr, seq![v]),
        None => regs,
    }
}

/// The half of the containing word that holds a 16-bit field.
pub open spec fn half_word(word: u32, addr: u32) -> u32 {
    (word >> ((addr & 0x3) * 8)) & 0xFFFF
}

/// How many of the first three reads gave a word before one did not.
pub open spec fn uid_words(replies: Seq<Option<u32>>) -> nat {
    if replies.len() == 0 || replies[0] is None {
        0
    } else if replies.len() == 1 || replies[1] is None {
        1
    } else if replies.len() == 2 || replies[2] is None {
        2
    } else {
        3
    }
}

/// Last the read-protection register.
pub open spec fn collect_rdp(replies: Seq<Option<u32>>, c: CollectedView) -> CollectView {
    match c.resolved->0.rdp_addr {
        None => CollectView::Done(c),
        Some(addr) => if replies.len() == 0 {
            CollectView::Read(addr)
        } else {
            CollectView::Done(CollectedView { regs: with_word(c.regs, addr, replies[0]), ..c })
        },
    }
}

/// Before it the three words of the unique ID, kept only together.
pub open spec fn collect_uid(replies: Seq<Option<u32>>, c: CollectedView) -> CollectView {
    match c.resolved->0.uid_addr {
        None => collect_rdp(replies, c),
        Some(addr) => {
            let n = uid_words(replies);
            if n == 3 {
                let uid = seq![replies[0]->0, replies[1]->0, replies[2]->0];
                collect_rdp(
                    replies.skip(3),
                    CollectedView { regs: c.regs.insert(addr, uid), ..c },
                )
            } else if n == replies.len() {
                CollectView::Read((addr + n * 4) as u32)
            } else {
                collect_rdp(replies.skip(n as int + 1), c)
            }
        },
    }
}

/// Before them the flash size, a 16-bit field that need not be word-aligned.
pub open spec fn collect_flash(replies: Seq<Option<u32>>, c: CollectedView) -> CollectView {
    match c.resolved->0.flash_size_addr {
        None => collect_uid(replies, c),
        Some(addr) => if replies.len() == 0 {
            CollectView::Read(addr & !0x3u32)
        } else {
            let half = match replies[0] {
                Some(word) => Some(half_word(word, addr)),
                None => None,
            };
            collect_uid(
                replies.skip(1),
                CollectedView { regs: with_word(c.regs, addr, half), ..c },
            )
        },
    }
}

/// The whole conversation, as far as the replies go: the core, then the device
/// at the one or the other place, then what the chip that it names still has.
pub open spec fn collect(replies: Seq<Option<u32>>, db: Seq<ChipDefView>) -> CollectView {
    if replies.len() == 0 {
        CollectView::Read(CPUID)
    } else if replies.len() == 1 {
        CollectView::Read(DBGMCU_IDCODE)
    } else if replies.len() == 2 && !names_device(replies[1]) {
        CollectView::Read(DBGMCU_IDCODE_M0)
    } else {
        let used: int = if names_device(replies[1]) {
            2
        } else {
            3
        };
        let idcode = if names_device(replies[used - 1]) {
            replies[used - 1]
        } else {
            None
        };
        let dev_id = match idcode {
            Some(v) => Some(dev_id_of(v)),
            None => None,
        };
        let chip = match dev_id {
            Some(d) => resolved(d, db),
            None => None,
        };
        let regs = with_word(
            with_word(Map::empty(), CPUID, replies[0]),
            DBGMCU_IDCODE,
            idcode,
        );
        let c = CollectedView { regs, dev_id, resolved: chip };
        if chip is None {
            CollectView::Done(c)
        } else {
            collect_flash(replies.skip(used), c)
        }
    }
}

fn usable(reply: Option<u32>) -> (r: bool)
    ensures
        r == names_device(reply),
{
    match reply {
        Some(v) => (v & 0xFFF) != 0 && (v & 0xFFF) != 0xFFF,
        None => false,
    }
}

fn keep_word(regs: &mut HashMap<u32, Vec<u32>>, addr: u32, reply: Option<u32>)
    ensures
        words_at(final(regs)@) == with_word(words_at(old(regs)@), addr, reply),
{
    broadcast use vstd::std_specs::hash::group_hash_axioms;

    if let Some(v) = reply {
        let words: Vec<u32> = vec![v];
        assert(words@ =~= seq![v]);
        regs.insert(addr, words);
    }
    assert(words_at(regs@) =~= with_word(words_at(old(regs)@), addr, reply));
}

fn collect_rdp_of(replies: &[Option<u32>], c: Collected) -> (r: Collect)
    requires
        c.resolved is Some,
    ensures
        r@ == collect_rdp(replies@, c@),
{
    let mut c = c;
    if let Some(chip) = &c.resolved {
        if let Some(addr) = chip.rdp_addr {
            if replies.len() == 0 {
                return Collect::Read(addr);
            }
            keep_word(&mut c.regs, addr, replies[0]);
        }
    }
    Collect::Done(c)
}

fn collect_uid_of(replies: &[Option<u32>], c: Collected) -> (r: Collect)
    requires
        c.resolved is Some,
        c.resolved->0.uid_addr matches Some(a) ==> a + 8 <= u32::MAX,
    ensures
        r@ == collect_uid(replies@, c@),
{
    broadcast use vstd::std_specs::hash::group_hash_axioms;

    let mut kept = c;
    let mut addr: Option<u32> = None;
    if let Some(chip) = &kept.resolved {
        addr = chip.uid_addr;
    }
    let addr: u32 = match addr {
        Some(a) => a,
        None => {
            return collect_rdp_of(replies, kept);
        },
    };
    let mut uid: Vec<u32> = Vec::new();
    let mut k: usize = 0;
    while k < 3
        invariant
            k <= 3,
            k <= replies@.len(),
            uid@.len() == k,
            addr + 8 <= u32::MAX,
            kept == c,
            c.resolved is Some,
            c@.resolved->0.uid_addr == Some(addr),
            forall|i: int| 0 <= i < k ==> #[trigger] replies@[i] == Some(uid@[i]),
        decreases 3 - k,
    {
        if k >= replies.len() {
            assert(uid_words(replies@) == k);
            return Collect::Read(addr + k as u32 * 4);
        }
        match replies[k] {
            Some(v) => {
                uid.push(v);
            },
            None => {
                assert(uid_words(replies@) == k);
                return collect_rdp_of(slice_subrange(replies, k + 1, replies.len()), kept);
            },
        }
        k += 1;
    }
    assert(replies@[0] is Some && replies@[1] is Some && replies@[2] is Some);
    let ghost before = kept.regs@;
    assert(uid@ =~= seq![replies@[0]->0, replies@[1]->0, replies@[2]->0]);
    kept.regs.insert(addr, uid);
    assert(words_at(kept.regs@) =~= words_at(before).insert(addr, uid@));
    collect_rdp_of(slice_subrange(replies, 3, replies.len()), kept)
}

fn collect_flash_of(replies: &[Option<u32>], c: Collected) -> (r: Collect)
    requires
        c.resolved is Some,
        c.resolved->0.uid_addr matches Some(a) ==> a + 8 <= u32::MAX,
    ensures
        r@ == collect_flash(replies@, c@),
{
    let mut c = c;
    let mut addr: Option<u32> = None;
    if let Some(chip) = &c.resolved {
        addr = chip.flash_size_addr;
    }
    let addr: u32 = match addr {
        Some(a) => a,
        None => {
            return collect_uid_of(replies, c);
        },
    };
    if replies.len() == 0 {
        return Collect::Read(addr & !0x3u32);
    }
    let half: Option<u32> = match replies[0] {
        Some(word) => {
            assert(addr & 0x3 <= 3) by (bit_vector);
            Some((word >> ((addr & 0x3) * 8)) & 0xFFFF)
        },
        None => None,
    };
    keep_word(&mut c.regs, addr, half);
    collect_uid_of(slice_subrange(replies, 1, replies.len()), c)
}

/// Read the read-only identity registers of a target, and resolve the chip (a
/// matching `.chip` definition wins). `replies` holds what the reads gave so
/// far, with `None` for a read that failed; the result is the next address to
/// read, or the registers with the device they name.
pub fn collect_target_regs(replies: &[Option<u32>], db: &[ChipDef]) -> (r: Collect)
    ensures
        r@ == collect(replies@, defs(db@)),
{
    broadcast use vstd::std_specs::hash::group_hash_axioms;

    if replies.len() == 0 {
        return Collect::Read(CPUID);
    }
    // DBGMCU_IDCODE: 0xE0042000 on Cortex-M3/M4/M7 STM32, 0x40015800 on M0.
    if replies.len() == 1 {
        return Collect::Read(DBGMCU_IDCODE);
    }
    let mut used: usize = 2;
    if !usable(replies[1]) {
        if replies.len() == 2 {
            return Collect::Read(DBGMCU_IDCODE_M0);
        }
        used = 3;
    }
    let idcode: Option<u32> = if usable(replies[used - 1]) {
        replies[used - 1]
    } else {
        None
    };
    let dev_id: Option<u16> = match idcode {
        Some(v) => Some((v & 0xFFF) as u16),
        None => None,
    };
    let chip = match dev_id {
        Some(d) => resolve_chip(d, db),
        None => None,
    };
    let mut regs: HashMap<u32, Vec<u32>> = HashMap::new();
    assert(words_at(regs@) =~= Map::empty());
    keep_word(&mut regs, CPUID, replies[0]);
    keep_word(&mut regs, DBGMCU_IDCODE, idcode);
    let known = chip.is_some();
    let c = Collected { regs, dev_id, resolved: chip };
    if known {
        collect_flash_of(slice_subrange(replies, used, replies.len()), c)
    } else {
        Collect::Done(c)
    }
}

/// A register of one chip that the collection reads.
pub open spec fn is_chip_register(chip: ResolvedView, addr: u32) -> bool {
    ||| chip.flash_size_addr matches Some(a) && addr == a & !0x3u32
    ||| chip.uid_addr matches Some(a) && (addr == a || addr == a + 4 || addr == a + 8)
    ||| chip.rdp_addr == Some(addr)
}

/// Nothing but identity registers is ever read: the core's, the device's, and
/// those that the resolved chip lists.
pub proof fn law_only_identity_registers_are_read(replies: Seq<Option<u32>>, db: Seq<ChipDefView>)
    requires
        collect(replies, db) is Read,
    ensures
        ({
            let addr = collect(replies, db)->Read_0;
            ||| addr == CPUID
            ||| addr == DBGMCU_IDCODE
            ||| addr == DBGMCU_IDCODE_M0
            ||| exists|d: u16|
                (#[trigger] resolved(d, db)) is Some && is_chip_register(resolved(d, db)->0, addr)
        }),
{
    if replies.len() >= 2 && (names_device(replies[1]) || replies.len() > 2) {
        let used: int = if names_device(replies[1]) {
            2
        } else {
            3
        };
        if names_device(replies[used - 1]) {
            let d = dev_id_of(replies[used - 1]->0);
            let addr = collect(replies, db)->Read_0;
            assert(resolved(d, db) is Some && is_chip_register(resolved(d, db)->0, addr));
        }
    }
}

/// Eight reads are always enough.
pub proof fn law_collection_ends(replies: Seq<Option<u32>>, db: Seq<ChipDefView>)
    requires
        replies.len() >= 8,
    ensures
        collect(replies, db) is Done,
{
}

/// A collection names a device exactly where it holds a usable identification
/// register, and every register it holds has a word in it.
pub proof fn law_collection_is_consistent(replies: Seq<Option<u32>>, db: Seq<ChipDefView>)
    requires
        collect(replies, db) is Done,
    ensures
        ({
            let c = collect(replies, db)->Done_0;
            &&& c.dev_id is None ==> c.resolved is None
            &&& c.dev_id is Some ==> c.regs.contains_key(DBGMCU_IDCODE) && c.resolved == resolved(
                c.dev_id->0,
                db,
            )
            &&& forall|a: u32| #[trigger]
                c.regs.contains_key(a) ==> c.regs[a].len() > 0
        }),
{
}

// ── Report rows ─────────────────────────────────────────────────────────
/// The flash size of a model that the built-in table does not cover.
pub open spec fn spare_flash_kb(regs: Map<u32, Seq<u32>>, chip: ResolvedView) -> Option<u32> {
    match chip.flash_size_addr {
        Some(a) => match first(regs, a) {
            Some(kb) => if kb != 0 && kb != 0xFFFF {
                Some(kb)
            } else {
                None
            },
            None => None,
        },
        None => None,
    }
}

/// The end of the flash can be written as a 32-bit address.
pub open spec fn flash_fits(
    regs: Map<u32, Seq<u32>>,
    dev_id: Option<u16>,
    chip: Option<ResolvedView>,
) -> bool {
    chip is Some && flash_kb(regs, family_of(dev_id)) is None && spare_flash_kb(
        regs,
        chip->0,
    ) is Some ==> 0x0800_0000 + spare_flash_kb(regs, chip->0)->0 * 1024 <= u32::MAX
}

/// The decoded rows with what the resolved chip adds: its name (unless the part
/// was recognised as a GD32), its SRAM, its source, and flash and protection
/// where the built-in table has none.
pub open spec fn with_chip(
    d: ReportView,
    regs: Map<u32, Seq<u32>>,
    dev_id: Option<u16>,
    chip: ResolvedView,
) -> ReportView {
    let is_gd32 = d.device_id is Some && contains(d.device_id->0, "GD32"@);
    let spare = if d.flash_size is None {
        spare_flash_kb(regs, chip)
    } else {
        None
    };
    ReportView {
        device_id: if dev_id is Some && !is_gd32 {
            Some(named_id(dev_id->0 as nat, 3, chip.name))
        } else {
            d.device_id
        },
        sram: match chip.sram_kb {
            Some(kb) => Some(kb_text(kb as nat)),
            None => d.sram,
        },
        flash_size: match spare {
            Some(kb) => Some(kb_text(kb as nat)),
            None => d.flash_size,
        },
        flash_map: match spare {
            Some(kb) => Some(flash_map_text(kb as nat)),
            None => d.flash_map,
        },
        read_protection: if d.read_protection is None && chip.rdp_addr is Some && chip.rdp_kind is Some
            && first(regs, chip.rdp_addr->0) is Some {
            Some(rdp_text(first(regs, chip.rdp_addr->0)->0, chip.rdp_kind->0))
        } else {
            d.read_protection
        },
        source: Some(chip.source),
        ..d
    }
}

/// The rows of a target that was read natively.
pub open spec fn target_rows(
    regs: Map<u32, Seq<u32>>,
    dev_id: Option<u16>,
    chip: Option<ResolvedView>,
) -> ReportView {
    let d = decoded(regs, dev_id);
    let d = match chip {
        Some(c) => with_chip(d, regs, dev_id, c),
        None => d,
    };
    ReportView {
        transport: Some("SWD (native nusb, read-only)"@),
        identification: None,
        ..d
    }
}

fn spare_flash_kb_of(regs: &HashMap<u32, Vec<u32>>, chip: &ResolvedChip) -> (r: Option<u32>)
    ensures
        r == spare_flash_kb(words_at(regs@), chip@),
{
    match chip.flash_size_addr {
        Some(a) => match first_word(regs, a) {
            Some(kb) if kb != 0 && kb != 0xFFFF => Some(kb),
            _ => None,
        },
        None => None,
    }
}

/// Tells whether the end of the flash can be written as a 32-bit address.
pub fn flash_map_fits(c: &Collected) -> (r: bool)
    requires
        flash_word_present(c@.regs, c.dev_id),
    ensures
        r == flash_fits(c@.regs, c.dev_id, c@.resolved),
{
    match &c.resolved {
        None => true,
        Some(chip) => {
            let d = decode_stlink_regs(&c.regs, c.dev_id);
            match spare_flash_kb_of(&c.regs, chip) {
                Some(kb) => d.flash_size.is_some() || kb <= (0xFFFF_FFFF - 0x0800_0000) / 1024,
                None => true,
            }
        },
    }
}

/// Build the identity rows from the registers, applying `.chip` overrides (name,
/// SRAM, source) and a flash fallback for parts the built-in family table
/// doesn't cover.
pub fn format_target_rows(
    regs: &HashMap<u32, Vec<u32>>,
    dev_id: Option<u16>,
    resolved: Option<&ResolvedChip>,
) -> (r: TargetReport)
    requires
        flash_word_present(words_at(regs@), dev_id),
        flash_fits(
            words_at(regs@),
            dev_id,
            match resolved {
                Some(c) => Some(c@),
                None => None,
            },
        ),
    ensures
        r@ == target_rows(
            words_at(regs@),
            dev_id,
            match resolved {
                Some(c) => Some(c@),
                None => None,
            },
        ),
{
    let mut report = decode_stlink_regs(regs, dev_id);
    if let Some(r) = resolved {
        if let Some(did) = dev_id {
            // GD32 clones (which mirror this DEV_ID) are already named as
            // GigaDevice parts — the generic ST family name must not hide that.
            let decoded_is_gd32 = match &report.device_id {
                Some(d) => {
                    let d = chars_of(d.as_str());
                    has_text(d.as_slice(), "GD32")
                },
                None => false,
            };
            if !decoded_is_gd32 {
                report.device_id = Some(named_id_of(did, r.name.as_str()));
            }
        }
        if let Some(kb) = r.sram_kb {
            report.sram = Some(kb_of(kb));
        }
        // Flash + RDP fallback for a model the built-in table doesn't cover
        // (only built-in families are decoded).
        if report.flash_size.is_none() {
            if let Some(kb) = spare_flash_kb_of(regs, r) {
                report.flash_size = Some(kb_of(kb));
                report.flash_map = Some(flash_map_of(kb));
            }
        }
        if report.read_protection.is_none() {
            if let Some(addr) = r.rdp_addr {
                if let Some(kind) = r.rdp_kind {
                    if let Some(opt) = first_word(regs, addr) {
                        report.read_protection = Some(decode_rdp(opt, kind));
                    }
                }
            }
        }
        report.source = Some(r.source.clone());
    }
    // The native path doesn't set a fixed SWD clock.
    report.transport = Some("SWD (native nusb, read-only)".to_string());
    // The Identification row belongs to the RP2040 path only.
    report.identification = None;
    report
}

/// The rows of a target always say how it was read, so there is always one.
pub proof fn law_target_rows_are_never_empty(
    regs: Map<u32, Seq<u32>>,
    dev_id: Option<u16>,
    chip: Option<ResolvedView>,
)
    ensures
        target_rows(regs, dev_id, chip).access is Some,
        target_rows(regs, dev_id, chip).transport is Some,
{
}

/// The text that names a device holds `GD32` exactly where a GigaDevice part was
/// recognised.
proof fn lemma_named_as_gd32(dev_id: u16, gd32: Option<Gd32Line>, kb: Option<u32>)
    requires
        gd32 is Some ==> gd32 == gd32_line(dev_id),
    ensures
        contains(device_id_text(dev_id, family(dev_id), gd32, kb), "GD32"@) == (gd32 is Some),
{
    let text = device_id_text(dev_id, family(dev_id), gd32, kb);
    let digits = hex_upper(dev_id as nat, 3);
    let head = "0x"@ + digits + " — "@;
    reveal_strlit("0x");
    reveal_strlit(" — ");
    reveal_strlit("GD32");
    match gd32 {
        Some(line) => {
            reveal_strlit("GD32F103");
            reveal_strlit("GD32F105");
            let at = head.len() as int;
            assert(text.subrange(at, at + 4) =~= "GD32"@);
            lemma_standing_is_contained(text, "GD32"@, 0, at);
        },
        None => {
            reveal_strlit("unknown (unrecognized STM32 DEV_ID)");
            lemma_family_names_lack_g(dev_id);
            lemma_hex_upper_is_digits(dev_id as nat, 3);
            assert forall|i: int| 0 <= i < text.len() implies #[trigger] text[i] != 'G' by {
                if 2 <= i < 2 + digits.len() {
                    assert(text[i] == digits[i - 2]);
                } else if i >= head.len() {
                    let name = match family(dev_id) {
                        Some(f) => f.name@,
                        None => "unknown (unrecognized STM32 DEV_ID)"@,
                    };
                    assert(text[i] == name[i - head.len()]);
                } else if i >= 2 + digits.len() {
                    assert(text[i] == " — "@[i - 2 - digits.len()]);
                } else {
                    assert(text[i] == "0x"@[i]);
                }
            }
            lemma_lacking_is_not_contained(text, "GD32"@, 0);
        },
    }
}

/// The device is named as the resolved chip is, so that a `.chip` definition names
/// it wherever there is one; but a recognised GigaDevice part keeps its own name.
pub proof fn law_resolved_chip_names_the_device(
    regs: Map<u32, Seq<u32>>,
    dev_id: u16,
    chip: ResolvedView,
)
    requires
        first(regs, DBGMCU_IDCODE) is Some,
        dev_id_of(first(regs, DBGMCU_IDCODE)->0) == dev_id,
    ensures
        target_rows(regs, Some(dev_id), Some(chip)).device_id == Some(
            named_id(
                dev_id as nat,
                3,
                match gd32_part(dev_id, rev_id_of(first(regs, DBGMCU_IDCODE)->0)) {
                    Some(line) => gd32_name(line, flash_kb(regs, family(dev_id))),
                    None => chip.name,
                },
            ),
        ),
{
    lemma_named_as_gd32(
        dev_id,
        gd32_part(dev_id, rev_id_of(first(regs, DBGMCU_IDCODE)->0)),
        flash_kb(regs, family(dev_id)),
    );
}

/// A part that only a `.chip` definition knows is shown with what the definition
/// gives of SRAM and flash, and with its core, but without unique ID and read
/// protection: their registers are known for built-in families only.
pub proof fn law_uncovered_part_is_shown_by_its_definition(
    regs: Map<u32, Seq<u32>>,
    dev_id: u16,
    db: Seq<ChipDefView>,
)
    requires
        family(dev_id) is None,
        resolved(dev_id, db) is Some,
    ensures
        ({
            let chip = resolved(dev_id, db)->0;
            let r = target_rows(regs, Some(dev_id), Some(chip));
            &&& chip.sram_kb matches Some(kb) ==> r.sram == Some(kb_text(kb as nat))
            &&& spare_flash_kb(regs, chip) matches Some(kb) ==> r.flash_size == Some(
                kb_text(kb as nat),
            ) && r.flash_map == Some(flash_map_text(kb as nat))
            &&& r.core is Some == first(regs, CPUID) is Some
            &&& r.unique_id is None
            &&& r.read_protection is None
            &&& r.source == Some(chip.source)
        }),
{
}

// ── What a collection holds of what was read ────────────────────────────
/// A word that names a device: its low twelve bits are neither all clear nor all set.
pub open spec fn names_a_part(reply: Option<u32>) -> bool {
    reply matches Some(v) && v % 0x1000 != 0 && v % 0x1000 != 0xFFF
}

/// After `u` replies the device is known: the register of the larger cores named it,
/// or that of the Cortex-M0 did, asked only once the first had not.
pub open spec fn identified_after(replies: Seq<Option<u32>>, u: int) -> bool {
    ||| u == 2 && replies.len() >= 2 && names_a_part(replies[1])
    ||| u == 3 && replies.len() >= 3 && !names_a_part(replies[1]) && names_a_part(replies[2])
}

/// The device that the identification register names, by its low twelve bits.
pub open spec fn part_named(replies: Seq<Option<u32>>, u: int) -> u16 {
    (replies[u - 1]->0 % 0x1000) as u16
}

proof fn lemma_low_twelve(v: u32)
    ensures
        v & 0xFFF == v % 0x1000,
        (v & 0xFFF) as u16 == (v % 0x1000) as u16,
{
    assert(v & 0xFFF == v % 0x1000) by (bit_vector);
}

proof fn lemma_names_a_part(reply: Option<u32>)
    ensures
        names_device(reply) == names_a_part(reply),
{
    if let Some(v) = reply {
        lemma_low_twelve(v);
    }
}

/// The core is asked for first, then the device, at a second place only where the
/// first names none. Where neither names one, the collection holds the core alone.
pub proof fn law_core_and_device_are_read_first(replies: Seq<Option<u32>>, db: Seq<ChipDefView>)
    ensures
        replies.len() == 0 ==> collect(replies, db) == CollectView::Read(0xE000ED00),
        replies.len() == 1 ==> collect(replies, db) == CollectView::Read(0xE0042000),
        replies.len() == 2 && !names_a_part(replies[1]) ==> collect(replies, db)
            == CollectView::Read(0x40015800),
        replies.len() >= 3 && !names_a_part(replies[1]) && !names_a_part(replies[2]) ==> {
            &&& collect(replies, db) matches CollectView::Done(c)
            &&& c.dev_id is None
            &&& c.resolved is None
            &&& replies[0] matches Some(cpuid) ==> c.regs == map![0xE000ED00u32 => seq![cpuid]]
            &&& replies[0] is None ==> c.regs == Map::<u32, Seq<u32>>::empty()
        },
{
    if replies.len() >= 2 {
        lemma_names_a_part(replies[1]);
    }
    if replies.len() >= 3 {
        lemma_names_a_part(replies[2]);
        if !names_a_part(replies[1]) && !names_a_part(replies[2]) {
            let c = collect(replies, db)->Done_0;
            if let Some(cpuid) = replies[0] {
                assert(c.regs =~= map![0xE000ED00u32 => seq![cpuid]]);
            }
        }
    }
}

/// A finished collection is about the device that the register named, resolved with
/// the definitions at hand, and holds that register and the core's as they were read.
pub proof fn law_collection_is_about_the_device_named(
    replies: Seq<Option<u32>>,
    db: Seq<ChipDefView>,
    u: int,
)
    requires
        identified_after(replies, u),
    ensures
        ({
            let d = part_named(replies, u);
            &&& resolved(d, db) is None ==> collect(replies, db) is Done
            &&& collect(replies, db) matches CollectView::Done(c) ==> {
                &&& c.dev_id == Some(d)
                &&& c.resolved == resolved(d, db)
                &&& forall|a: u32|
                    #![trigger c.regs[a]]
                    (a == 0xE000ED00 && replies[0] is Some || a == 0xE0042000) && !(c.resolved
                        is Some && is_chip_key(c.resolved->0, a)) ==> c.regs.contains_key(a)
                        && c.regs[a] == seq![
                        if a == 0xE0042000 {
                            replies[u - 1]->0
                        } else {
                            replies[0]->0
                        },
                    ]
            }
        }),
{
    lemma_names_a_part(replies[1]);
    if u == 3 {
        lemma_names_a_part(replies[2]);
    }
    lemma_low_twelve(replies[u - 1]->0);
}

/// An address that the collection keeps something of the chip under.
pub open spec fn is_chip_key(chip: ResolvedView, addr: u32) -> bool {
    chip.flash_size_addr == Some(addr) || chip.uid_addr == Some(addr) || chip.rdp_addr == Some(addr)
}

/// How many replies the flash size takes.
pub open spec fn flash_reads(chip: ResolvedView) -> int {
    if chip.flash_size_addr is Some {
        1
    } else {
        0
    }
}

proof fn lemma_half_word(word: u32, addr: u32)
    ensures
        addr % 4 == 0 ==> half_word(word, addr) == word % 0x1_0000,
        addr % 4 == 1 ==> half_word(word, addr) == word / 0x100 % 0x1_0000,
        addr % 4 == 2 ==> half_word(word, addr) == word / 0x1_0000,
        addr % 4 == 3 ==> half_word(word, addr) == word / 0x100_0000,
{
    let o = addr & 0x3;
    assert(addr & 0x3 == addr % 4) by (bit_vector);
    assert((word >> 0u32) & 0xFFFF == word % 0x1_0000) by (bit_vector);
    assert((word >> 8u32) & 0xFFFF == word / 0x100 % 0x1_0000) by (bit_vector);
    assert((word >> 16u32) & 0xFFFF == word / 0x1_0000) by (bit_vector);
    assert((word >> 24u32) & 0xFFFF == word / 0x100_0000) by (bit_vector);
    if o == 0 {
        assert((word >> (o * 8)) == (word >> 0u32));
    } else if o == 1 {
        assert((word >> (o * 8)) == (word >> 8u32));
    } else if o == 2 {
        assert((word >> (o * 8)) == (word >> 16u32));
    } else {
        assert((word >> (o * 8)) == (word >> 24u32));
    }
}

proof fn lemma_later_reads_keep(replies: Seq<Option<u32>>, c: CollectedView, a: u32)
    requires
        c.resolved is Some,
        c.resolved->0.uid_addr != Some(a),
        c.resolved->0.rdp_addr != Some(a),
        collect_uid(replies, c) is Done,
    ensures
        ({
            let d = collect_uid(replies, c)->Done_0;
            &&& d.regs.contains_key(a) == c.regs.contains_key(a)
            &&& d.regs[a] == c.regs[a]
        }),
{
}

proof fn lemma_collect_reaches_flash(replies: Seq<Option<u32>>, db: Seq<ChipDefView>, u: int) -> (c:
    CollectedView)
    requires
        identified_after(replies, u),
        resolved(part_named(replies, u), db) is Some,
    ensures
        collect(replies, db) == collect_flash(replies.skip(u), c),
        c.resolved == resolved(part_named(replies, u), db),
        c.dev_id == Some(part_named(replies, u)),
        forall|a: u32|
            a != 0xE000ED00 && a != 0xE0042000 ==> !(#[trigger] c.regs.contains_key(a)),
{
    lemma_names_a_part(replies[1]);
    if u == 3 {
        lemma_names_a_part(replies[2]);
    }
    lemma_low_twelve(replies[u - 1]->0);
    let d = part_named(replies, u);
    let regs = with_word(
        with_word(Map::empty(), CPUID, replies[0]),
        DBGMCU_IDCODE,
        replies[u - 1],
    );
    CollectedView { regs, dev_id: Some(d), resolved: resolved(d, db) }
}

proof fn lemma_flash_field(word: u32, a: u32)
    ensures
        ({
            let o = (a % 4) as int;
            let b = le_bytes(word);
            &&& o <= 2 ==> half_word(word, a) == b[o] + 0x100 * b[o + 1]
            &&& o == 0 ==> half_word(word, a) == word % 0x1_0000
            &&& o == 2 ==> half_word(word, a) == word / 0x1_0000
        }),
{
    lemma_half_word(word, a);
    law_bytes_of_a_word(word, Seq::empty(), 0);
    assert(word % 0x1_0000 == word % 0x100 + 0x100 * (word / 0x100 % 0x100) && word / 0x100
        % 0x1_0000 == word / 0x100 % 0x100 + 0x100 * (word / 0x1_0000 % 0x100) && word / 0x1_0000
        == word / 0x1_0000 % 0x100 + 0x100 * (word / 0x100_0000)) by (bit_vector);
    let b = le_bytes(word);
    if a % 4 == 0 {
        assert(half_word(word, a) == b[0] + 0x100 * b[1]);
    } else if a % 4 == 1 {
        assert(half_word(word, a) == b[1] + 0x100 * b[2]);
    } else if a % 4 == 2 {
        assert(half_word(word, a) == b[2] + 0x100 * b[3]);
    }
}

/// The flash size is the 16-bit field at its own address, whole: the word around it is
/// read, and the two bytes at the place of the field are kept, the lower one first.
pub proof fn law_flash_size_is_the_field_at_its_address(
    replies: Seq<Option<u32>>,
    db: Seq<ChipDefView>,
    u: int,
    a: u32,
)
    requires
        identified_after(replies, u),
        resolved(part_named(replies, u), db) matches Some(chip) && chip.flash_size_addr == Some(a)
            && chip.uid_addr != Some(a) && chip.rdp_addr != Some(a),
    ensures
        replies.len() == u ==> collect(replies, db) == CollectView::Read((a - a % 4) as u32),
        collect(replies, db) matches CollectView::Done(c) ==> {
            let o = (a % 4) as int;
            &&& replies.len() > u
            &&& replies[u] matches Some(word) ==> {
                let b = le_bytes(word);
                &&& c.regs.contains_key(a)
                &&& c.regs[a].len() == 1
                &&& o <= 2 ==> c.regs[a][0] == b[o] + 0x100 * b[o + 1]
                &&& o == 0 ==> c.regs[a][0] == word % 0x1_0000
                &&& o == 2 ==> c.regs[a][0] == word / 0x1_0000
            }
            &&& replies[u] is None && a != 0xE000ED00 && a != 0xE0042000 ==> !c.regs.contains_key(
                a,
            )
        },
{
    let c = lemma_collect_reaches_flash(replies, db, u);
    assert(a & !0x3u32 == a - a % 4) by (bit_vector);
    if replies.len() > u && collect(replies, db) is Done {
        assert(replies.skip(u)[0] == replies[u]);
        let half = match replies[u] {
            Some(word) => Some(half_word(word, a)),
            None => None,
        };
        let kept = CollectedView { regs: with_word(c.regs, a, half), ..c };
        lemma_later_reads_keep(replies.skip(u).skip(1), kept, a);
        if let Some(word) = replies[u] {
            lemma_flash_field(word, a);
        }
    }
}

/// The unique ID is three words from its address on, asked for one by one. It is kept
/// in the order it was read, and only whole; a word that cannot be read ends it.
pub proof fn law_unique_id_is_three_words(
    replies: Seq<Option<u32>>,
    db: Seq<ChipDefView>,
    u: int,
    a: u32,
)
    requires
        identified_after(replies, u),
        a + 8 <= u32::MAX,
        resolved(part_named(replies, u), db) matches Some(chip) && chip.uid_addr == Some(a)
            && chip.rdp_addr != Some(a) && chip.flash_size_addr != Some(a),
        a != 0xE000ED00 && a != 0xE0042000,
    ensures
        ({
            let p = u + flash_reads(resolved(part_named(replies, u), db)->0);
            &&& replies.len() == p ==> collect(replies, db) == CollectView::Read(a)
            &&& replies.len() == p + 1 && replies[p] is Some ==> collect(replies, db)
                == CollectView::Read((a + 4) as u32)
            &&& replies.len() == p + 2 && replies[p] is Some && replies[p + 1] is Some ==> collect(
                replies,
                db,
            ) == CollectView::Read((a + 8) as u32)
            &&& collect(replies, db) matches CollectView::Done(c) ==> {
                &&& replies.len() > p
                &&& c.regs.contains_key(a) <==> replies.len() >= p + 3 && replies[p] is Some
                    && replies[p + 1] is Some && replies[p + 2] is Some
                &&& c.regs.contains_key(a) ==> c.regs[a] == seq![
                    replies[p]->0,
                    replies[p + 1]->0,
                    replies[p + 2]->0,
                ]
            }
        }),
{
    lemma_names_a_part(replies[1]);
    if u == 3 {
        lemma_names_a_part(replies[2]);
    }
    lemma_low_twelve(replies[u - 1]->0);
}

/// The read-protection register comes last and is kept as it was read.
pub proof fn law_read_protection_is_read_last(
    replies: Seq<Option<u32>>,
    db: Seq<ChipDefView>,
    u: int,
    a: u32,
)
    requires
        identified_after(replies, u),
        resolved(part_named(replies, u), db) matches Some(chip) && chip.rdp_addr == Some(a),
        collect(replies.drop_last(), db) is Read,
        collect(replies, db) is Done,
        replies.len() > u,
    ensures
        collect(replies.drop_last(), db) == CollectView::Read(a),
        replies.last() matches Some(word) ==> collect(replies, db)->Done_0.regs.contains_key(a)
            && collect(replies, db)->Done_0.regs[a] == seq![word],
{
    let fewer = replies.drop_last();
    lemma_names_a_part(replies[1]);
    assert(fewer[0] == replies[0] && fewer[1] == replies[1]);
    if u == 3 {
        lemma_names_a_part(replies[2]);
        assert(fewer[2] == replies[2]);
    }
    lemma_low_twelve(replies[u - 1]->0);
    let chip = resolved(part_named(replies, u), db)->0;
    let n = flash_reads(chip);
    let x = replies.skip(u);
    let y = fewer.skip(u);
    assert(y =~= x.drop_last());
    let x2 = x.skip(n);
    let y2 = y.skip(n);
    if n == 0 {
        assert(x2 =~= x);
        assert(y2 =~= y);
    }
    if y.len() >= n {
        assert(y2 =~= x2.drop_last());
        assert(x2.last() == replies.last());
        if chip.uid_addr is Some {
            let k = uid_words(x2);
            assert(x2.len() >= 1);
            assert(y2.len() > 0 ==> y2[0] == x2[0]);
            assert(y2.len() > 1 ==> y2[1] == x2[1]);
            assert(y2.len() > 2 ==> y2[2] == x2[2]);
        }
    }
}

/// The flash size that was read is the one that is shown, with the addresses from
/// 0x08000000 on that it fills; a field that is blank or erased shows nothing.
pub proof fn law_flash_size_read_is_shown(
    regs: Map<u32, Seq<u32>>,
    dev_id: u16,
    chip: Option<ResolvedView>,
    n: u32,
)
    requires
        family(dev_id) is Some,
        regs.contains_key(family(dev_id)->0.flash_size_addr),
        regs[family(dev_id)->0.flash_size_addr] == seq![n],
        n <= 0xFFFF,
        chip matches Some(c) ==> c.flash_size_addr == Some(family(dev_id)->0.flash_size_addr),
    ensures
        ({
            let r = target_rows(regs, Some(dev_id), chip);
            if n == 0 || n == 0xFFFF {
                r.flash_size is None && r.flash_map is None
            } else {
                &&& r.flash_size == Some(decimal(n as nat) + " KB"@)
                &&& r.flash_map == Some(
                    "0x08000000-0x"@ + hex_upper((0x0800_0000 + n * 1024 - 1) as nat, 8),
                )
            }
        }),
{
    assert(n & 0xFFFF == n) by (bit_vector)
        requires
            n <= 0xFFFF,
    ;
}

/// Words lie in bytes with the least significant first.
pub proof fn law_bytes_of_a_word(v: u32, bytes: Seq<u8>, at: int)
    requires
        0 <= at,
    ensures
        le_bytes(v).len() == 4,
        le_bytes(v)[0] == v % 0x100,
        le_bytes(v)[1] == v / 0x100 % 0x100,
        le_bytes(v)[2] == v / 0x1_0000 % 0x100,
        le_bytes(v)[3] == v / 0x100_0000,
        at + 4 <= bytes.len() ==> word_at(bytes, at) is Some && word_at(bytes, at)->0 == bytes[at]
            + 0x100 * bytes[at + 1] + 0x1_0000 * bytes[at + 2] + 0x100_0000 * bytes[at + 3],
        at + 4 > bytes.len() ==> word_at(bytes, at) is None,
{
    assert((v & 0xFF) as u8 == v % 0x100 && ((v >> 8) & 0xFF) as u8 == v / 0x100 % 0x100 && ((v
        >> 16) & 0xFF) as u8 == v / 0x1_0000 % 0x100 && ((v >> 24) & 0xFF) as u8 == v
        / 0x100_0000) by (bit_vector);
}

/// What a resolved chip adds to the rows: its SRAM and its source; flash and protection
/// only where the built-in table gave none. Every target is read natively, and a target
/// without a chip keeps its rows.
pub proof fn law_resolved_chip_adds_its_rows(
    regs: Map<u32, Seq<u32>>,
    dev_id: Option<u16>,
    chip: ResolvedView,
)
    ensures
        ({
            let d = decoded(regs, dev_id);
            let r = target_rows(regs, dev_id, Some(chip));
            let bare = target_rows(regs, dev_id, None);
            &&& r.transport == Some("SWD (native nusb, read-only)"@)
            &&& r.identification is None
            &&& r.source == Some(chip.source)
            &&& chip.sram_kb matches Some(kb) ==> r.sram == Some(decimal(kb as nat) + " KB"@)
            &&& chip.sram_kb is None ==> r.sram == d.sram
            &&& d.flash_size is Some ==> r.flash_size == d.flash_size && r.flash_map == d.flash_map
            &&& d.flash_size is None && (chip.flash_size_addr is None || first(
                regs,
                chip.flash_size_addr->0,
            ) is None) ==> r.flash_size is None
            &&& d.flash_size is None && chip.flash_size_addr is Some ==> (first(
                regs,
                chip.flash_size_addr->0,
            ) matches Some(kb) ==> if kb == 0 || kb == 0xFFFF {
                r.flash_size is None
            } else {
                r.flash_size == Some(decimal(kb as nat) + " KB"@)
            })
            &&& d.read_protection is Some ==> r.read_protection == d.read_protection
            &&& r.core == d.core && r.unique_id == d.unique_id && r.revision == d.revision
                && r.vendor == d.vendor
            &&& bare == (ReportView {
                transport: Some("SWD (native nusb, read-only)"@),
                identification: None,
                ..d
            })
        }),
{
}

} // verus!
