//! CMSIS-DAP v2: the commands that bring up SWD behind such a probe and read
//! words of the target.
//!
//! Every conversation is a function of the replies heard so far. It says which
//! command to send next or, once the replies suffice, what came of it. Only ID
//! registers are read — no halt, reset, erase, or write. The DAP_Transfer
//! request byte is APnDP(bit0) | RnW(bit1) | (regaddr & 0x0C).
use vstd::prelude::*;
use vstd::slice::slice_subrange;
use vstd::string::*;
use crate::number::{
    decimal, hex_lower, hex_upper, push_decimal, push_hex_lower, push_hex_upper,
};
use crate::page::{push_line, shown};
use crate::pieces::{join, join_of};
use crate::swd::{law_bytes_of_a_word, le_bytes, le_u32, push_le, word_at};
use crate::text::texts;

verus! {

pub const DAP_CONNECT: u8 = 0x02;

pub const DAP_TRANSFER_CONFIGURE: u8 = 0x04;

pub const DAP_TRANSFER: u8 = 0x05;

pub const DAP_SWJ_CLOCK: u8 = 0x11;

pub const DAP_SWJ_SEQUENCE: u8 = 0x12;

pub const DAP_SWD_CONFIGURE: u8 = 0x13;

// RP2040 is a SWD multidrop (DPv2) target with two cores. TARGETSEL for core 0;
// SYSINFO CHIP_ID/GITREF identify the chip + stepping over the MEM-AP.
pub const RP2040_TARGETSEL_CORE0: u32 = 0x01002927;

pub const RP2040_TARGETSEL_CORE1: u32 = 0x11002927;

pub const RP2040_SYSINFO_CHIP_ID: u32 = 0x40000000;

pub const RP2040_SYSINFO_GITREF: u32 = 0x40000014;

/// The RP2040's fixed DPIDR (DPv2, designer 0x927, partno 0xC1). A multidrop
/// bring-up is accepted by exact match only.
pub const RP2040_DPIDR: u32 = 0x0BC12477;

/// How often the single-drop path is tried.
pub const SINGLE_TRIES: u32 = 10;

// ── Replies ─────────────────────────────────────────────────────────────
/// What a command gave: the bytes of the answer, or why there is none.
pub type Reply = Result<Vec<u8>, String>;

/// A reply as plain sequences.
pub open spec fn heard_reply(r: Reply) -> Result<Seq<u8>, Seq<char>> {
    match r {
        Ok(b) => Ok(b@),
        Err(e) => Err(e@),
    }
}

pub open spec fn heard(t: Seq<Reply>) -> Seq<Result<Seq<u8>, Seq<char>>> {
    Seq::new(t.len(), |i: int| heard_reply(t[i]))
}

/// Where a conversation stands: the next command to send, or its outcome and
/// the replies that it did not use.
#[derive(Debug)]
pub enum Run<'a, X> {
    Send(Vec<u8>),
    Done(Result<X, String>, &'a [Reply]),
}

pub enum RunView<X> {
    Send(Seq<u8>),
    Done(Result<X, Seq<char>>, Seq<Result<Seq<u8>, Seq<char>>>),
}

impl<'a, X> View for Run<'a, X> {
    type V = RunView<X>;

    open spec fn view(&self) -> RunView<X> {
        match *self {
            Run::Send(c) => RunView::Send(c@),
            Run::Done(Ok(x), rest) => RunView::Done(Ok(x), heard(rest@)),
            Run::Done(Err(e), rest) => RunView::Done(Err(e@), heard(rest@)),
        }
    }
}

pub(crate) fn rest_of<'a>(t: &'a [Reply]) -> (r: &'a [Reply])
    requires
        t@.len() > 0,
    ensures
        heard(r@) == heard(t@).skip(1),
        r@ == t@.skip(1),
{
    let r = slice_subrange(t, 1, t.len());
    assert(heard(r@) =~= heard(t@).skip(1));
    r
}

/// The byte at a place, or zero behind the end.
pub open spec fn byte(b: Seq<u8>, i: int) -> u8 {
    if i < b.len() {
        b[i]
    } else {
        0
    }
}

pub(crate) fn byte_of(b: &[u8], i: usize) -> (r: u8)
    ensures
        r == byte(b@, i as int),
{
    if i < b.len() {
        b[i]
    } else {
        0
    }
}

/// A transfer without data asks for a word.
pub open spec fn is_word_read(cmd: Seq<u8>) -> bool {
    byte(cmd, 0) == DAP_TRANSFER && cmd.len() == 4
}

/// Both begin with the same byte, or both are empty.
pub open spec fn same_id(a: Seq<u8>, b: Seq<u8>) -> bool {
    (a.len() == 0) == (b.len() == 0) && byte(a, 0) == byte(b, 0)
}

/// Why a reply does not answer its command: there is none; it echoes another
/// command; the connection was refused; the transfer was not acknowledged; the
/// word is missing.
pub open spec fn reply_error(cmd: Seq<u8>, reply: Result<Seq<u8>, Seq<char>>) -> Option<Seq<char>> {
    match reply {
        Err(e) => Some(e),
        Ok(b) => {
            let count = byte(b, 1);
            let ack = byte(b, 2) & 0x07;
            if !same_id(b, cmd) {
                Some(
                    "DAP response id 0x"@ + hex_upper(byte(b, 0) as nat, 2) + " != command 0x"@
                        + hex_upper(byte(cmd, 0) as nat, 2),
                )
            } else if byte(cmd, 0) == DAP_CONNECT && count != 1 {
                Some(
                    "DAP_Connect SWD not accepted (resp "@ + (if b.len() > 1 {
                        "Some("@ + decimal(b[1] as nat) + ")"@
                    } else {
                        "None"@
                    }) + ")"@,
                )
            } else if byte(cmd, 0) == DAP_TRANSFER && (count != 1 || ack != 1) {
                Some(
                    "DAP_Transfer ack 0x"@ + hex_upper(ack as nat, 2) + " (count "@ + decimal(
                        count as nat,
                    ) + ")"@,
                )
            } else if is_word_read(cmd) && word_at(b, 3) is None {
                Some("short DAP_Transfer read"@)
            } else {
                None
            }
        },
    }
}

/// Tells why a reply does not answer its command, if it does not.
pub fn check_reply(cmd: &[u8], reply: &Reply) -> (r: Option<String>)
    ensures
        shown(r) == reply_error(cmd@, heard_reply(*reply)),
{
    match reply {
        Err(e) => Some(e.clone()),
        Ok(b) => {
            let b = b.as_slice();
            let id: u8 = byte_of(cmd, 0);
            let count: u8 = byte_of(b, 1);
            let ack: u8 = byte_of(b, 2) & 0x07;
            if (b.len() == 0) != (cmd.len() == 0) || byte_of(b, 0) != id {
                let mut s = "DAP response id 0x".to_string();
                push_hex_upper(&mut s, byte_of(b, 0) as u64, 2);
                s.append(" != command 0x");
                push_hex_upper(&mut s, id as u64, 2);
                Some(s)
            } else if id == DAP_CONNECT && count != 1 {
                let mut given = String::new();
                if b.len() > 1 {
                    given.append("Some(");
                    push_decimal(&mut given, b[1] as u64);
                    given.append(")");
                    assert(given@ =~= "Some("@ + decimal(b@[1] as nat) + ")"@);
                } else {
                    given.append("None");
                    assert(given@ =~= "None"@);
                }
                let mut s = "DAP_Connect SWD not accepted (resp ".to_string();
                s.append(given.as_str());
                s.append(")");
                Some(s)
            } else if id == DAP_TRANSFER && (count != 1 || ack != 1) {
                let mut s = "DAP_Transfer ack 0x".to_string();
                push_hex_upper(&mut s, ack as u64, 2);
                s.append(" (count ");
                push_decimal(&mut s, count as u64);
                s.append(")");
                Some(s)
            } else if id == DAP_TRANSFER && cmd.len() == 4 && le_u32(b, 3).is_none() {
                Some("short DAP_Transfer read".to_string())
            } else {
                None
            }
        },
    }
}

// ── Commands ────────────────────────────────────────────────────────────
/// A bit sequence on SWDIO, the least significant bit of the first byte first.
pub open spec fn sequence(bits: u8, data: Seq<u8>) -> Seq<u8> {
    seq![DAP_SWJ_SEQUENCE, bits] + data
}

/// One single-word DAP_Transfer on DAP index 0.
pub open spec fn transfer(request: u8, write: Option<u32>) -> Seq<u8> {
    seq![DAP_TRANSFER, 0x00, 0x01, request] + (match write {
        Some(v) => le_bytes(v),
        None => Seq::empty(),
    })
}

pub open spec fn dp_read(addr: u8) -> Seq<u8> {
    transfer(0x02 | (addr & 0x0C), None)
}

pub open spec fn dp_write(addr: u8, v: u32) -> Seq<u8> {
    transfer(addr & 0x0C, Some(v))
}

pub open spec fn ap_read(addr: u8) -> Seq<u8> {
    transfer(0x03 | (addr & 0x0C), None)
}

pub open spec fn ap_write(addr: u8, v: u32) -> Seq<u8> {
    transfer(0x01 | (addr & 0x0C), Some(v))
}

fn sequence_of(bits: u8, data: &[u8]) -> (c: Vec<u8>)
    ensures
        c@ == sequence(bits, data@),
{
    let mut c: Vec<u8> = Vec::new();
    c.push(DAP_SWJ_SEQUENCE);
    c.push(bits);
    c.extend_from_slice(data);
    assert(c@ =~= sequence(bits, data@));
    c
}

fn transfer_of(request: u8, write: Option<u32>) -> (c: Vec<u8>)
    ensures
        c@ == transfer(request, write),
{
    let mut c: Vec<u8> = Vec::new();
    c.push(DAP_TRANSFER);
    c.push(0x00);
    c.push(0x01);
    c.push(request);
    if let Some(v) = write {
        push_le(&mut c, v);
    }
    assert(c@ =~= transfer(request, write));
    c
}

fn dp_read_of(addr: u8) -> (c: Vec<u8>)
    ensures
        c@ == dp_read(addr),
{
    transfer_of(0x02 | (addr & 0x0C), None)
}

fn dp_write_of(addr: u8, v: u32) -> (c: Vec<u8>)
    ensures
        c@ == dp_write(addr, v),
{
    transfer_of(addr & 0x0C, Some(v))
}

fn ap_read_of(addr: u8) -> (c: Vec<u8>)
    ensures
        c@ == ap_read(addr),
{
    transfer_of(0x03 | (addr & 0x0C), None)
}

fn ap_write_of(addr: u8, v: u32) -> (c: Vec<u8>)
    ensures
        c@ == ap_write(addr, v),
{
    transfer_of(0x01 | (addr & 0x0C), Some(v))
}

/// Clears all sticky error flags via the DP ABORT register (STKCMP/STKERR/
/// WDERR/ORUNERR, no DAPABORT). A single faulted AP access latches STKERR, and
/// every later AP transfer FAULTs until this clears it.
pub open spec fn clear_sticky() -> Seq<u8> {
    dp_write(0x0, 0x1E)
}

/// A list of commands as plain sequences.
pub open spec fn commands(v: Seq<Vec<u8>>) -> Seq<Seq<u8>> {
    Seq::new(v.len(), |i: int| v[i]@)
}

/// The probe is connected in SWD mode at 100 kHz, with the default SWD
/// configuration, and retries WAIT answers by itself.
pub open spec fn setup() -> Seq<Seq<u8>> {
    seq![
        seq![DAP_CONNECT, 0x01],
        seq![DAP_SWJ_CLOCK] + le_bytes(100_000),
        seq![DAP_SWD_CONFIGURE, 0x00],
        seq![DAP_TRANSFER_CONFIGURE, 0x00, 0x80, 0x00, 0x00, 0x00],
    ]
}

/// At least fifty clocks high.
pub open spec fn line_reset() -> Seq<u8> {
    seq![0xFF, 0xFF, 0xFF, 0xFF, 0xFF, 0xFF, 0x07]
}

/// SWD line reset, JTAG-to-SWD switch, line reset, idle.
pub open spec fn switch_to_swd() -> Seq<Seq<u8>> {
    seq![
        sequence(51, line_reset()),
        sequence(16, seq![0x9E, 0xE7]),
        sequence(51, line_reset()),
        sequence(8, seq![0x00]),
    ]
}

/// Line reset, JTAG-to-dormant, the 128-bit selection alert that leaves dormant
/// state, then the 8-bit SWD activation code.
pub open spec fn wake_from_dormant() -> Seq<Seq<u8>> {
    seq![
        sequence(54, line_reset()),
        sequence(31, le_bytes(0x33BB_BBBA)),
        sequence(8, seq![0xFF]),
        sequence(64, seq![0x92, 0xF3, 0x09, 0x62, 0x95, 0x2D, 0x85, 0x86]),
        sequence(64, seq![0xE9, 0xAF, 0xDD, 0xE3, 0xA2, 0x0E, 0xBC, 0x19]),
        sequence(12, seq![0xA0, 0x01]),
    ]
}

fn seven_high() -> (v: Vec<u8>)
    ensures
        v@ == line_reset(),
{
    let v: Vec<u8> = vec![0xFF, 0xFF, 0xFF, 0xFF, 0xFF, 0xFF, 0x07];
    assert(v@ =~= line_reset());
    v
}

fn setup_of() -> (v: Vec<Vec<u8>>)
    ensures
        commands(v@) == setup(),
{
    let connect: Vec<u8> = vec![DAP_CONNECT, 0x01];
    let mut clock: Vec<u8> = vec![DAP_SWJ_CLOCK];
    push_le(&mut clock, 100_000);
    let swd: Vec<u8> = vec![DAP_SWD_CONFIGURE, 0x00];
    let retries: Vec<u8> = vec![DAP_TRANSFER_CONFIGURE, 0x00, 0x80, 0x00, 0x00, 0x00];
    assert(connect@ =~= setup()[0]);
    assert(clock@ =~= setup()[1]);
    assert(swd@ =~= setup()[2]);
    assert(retries@ =~= setup()[3]);
    let v: Vec<Vec<u8>> = vec![connect, clock, swd, retries];
    assert(commands(v@) =~= setup());
    v
}

fn switch_to_swd_of() -> (v: Vec<Vec<u8>>)
    ensures
        commands(v@) == switch_to_swd(),
{
    let high = seven_high();
    let magic: Vec<u8> = vec![0x9E, 0xE7];
    let idle: Vec<u8> = vec![0x00];
    assert(magic@ =~= seq![0x9Eu8, 0xE7u8]);
    assert(idle@ =~= seq![0x00u8]);
    let v: Vec<Vec<u8>> = vec![
        sequence_of(51, high.as_slice()),
        sequence_of(16, magic.as_slice()),
        sequence_of(51, high.as_slice()),
        sequence_of(8, idle.as_slice()),
    ];
    assert(commands(v@) =~= switch_to_swd());
    v
}

fn wake_from_dormant_of() -> (v: Vec<Vec<u8>>)
    ensures
        commands(v@) == wake_from_dormant(),
{
    let high = seven_high();
    let mut dormant: Vec<u8> = Vec::new();
    push_le(&mut dormant, 0x33BB_BBBA);
    assert(dormant@ =~= le_bytes(0x33BB_BBBA));
    let cycles: Vec<u8> = vec![0xFF];
    assert(cycles@ =~= seq![0xFFu8]);
    let alert1: Vec<u8> = vec![0x92, 0xF3, 0x09, 0x62, 0x95, 0x2D, 0x85, 0x86];
    assert(alert1@ =~= seq![0x92u8, 0xF3u8, 0x09u8, 0x62u8, 0x95u8, 0x2Du8, 0x85u8, 0x86u8]);
    let alert2: Vec<u8> = vec![0xE9, 0xAF, 0xDD, 0xE3, 0xA2, 0x0E, 0xBC, 0x19];
    assert(alert2@ =~= seq![0xE9u8, 0xAFu8, 0xDDu8, 0xE3u8, 0xA2u8, 0x0Eu8, 0xBCu8, 0x19u8]);
    let activation: Vec<u8> = vec![0xA0, 0x01];
    assert(activation@ =~= seq![0xA0u8, 0x01u8]);
    let v: Vec<Vec<u8>> = vec![
        sequence_of(54, high.as_slice()),
        sequence_of(31, dormant.as_slice()),
        sequence_of(8, cycles.as_slice()),
        sequence_of(64, alert1.as_slice()),
        sequence_of(64, alert2.as_slice()),
        sequence_of(12, activation.as_slice()),
    ];
    assert(commands(v@) =~= wake_from_dormant());
    v
}

// ── TARGETSEL ───────────────────────────────────────────────────────────
/// How many of the lowest `n` bits are set.
pub open spec fn ones(v: u32, n: nat) -> nat
    decreases n,
{
    if n == 0 {
        0
    } else {
        ones(v, (n - 1) as nat) + ((v >> ((n - 1) as u32)) & 1) as nat
    }
}

/// The 102 bits of a line reset (51 high and 3 low) and the TARGETSEL packet
/// (request, turnaround, value, parity, two low), the first bit the lowest.
pub open spec fn targetsel_bits(targetsel: u32, parity: u128) -> u128 {
    (((parity << 45u128) | ((targetsel as u128) << 13u128) | 0x1f99u128) << 54u128)
        | 0x0007_FFFF_FFFF_FFFFu128
}

/// Both in one sequence, so that no gap can fall between them: TARGETSEL must be
/// the first packet after a line reset.
pub open spec fn select_target(targetsel: u32) -> Seq<u8> {
    let bits = targetsel_bits(targetsel, (ones(targetsel, 32) % 2) as u128);
    sequence(102, Seq::new(13, |i: int| ((bits >> ((8 * i) as u128)) & 0xFF) as u8))
}

fn parity_of(v: u32) -> (p: u128)
    ensures
        p == ones(v, 32) % 2,
{
    let mut count: u32 = 0;
    let mut k: u32 = 0;
    while k < 32
        invariant
            k <= 32,
            count == ones(v, k as nat),
            count <= k,
        decreases 32 - k,
    {
        let bit: u32 = (v >> k) & 1;
        assert(bit <= 1) by (bit_vector)
            requires
                bit == (v >> k) & 1,
        ;
        count += bit;
        k += 1;
    }
    (count % 2) as u128
}

fn select_target_of(targetsel: u32) -> (c: Vec<u8>)
    ensures
        c@ == select_target(targetsel),
{
    let parity: u128 = parity_of(targetsel);
    let packet: u128 = (parity << 45u128) | ((targetsel as u128) << 13u128) | 0x1f99u128;
    let bits: u128 = (packet << 54u128) | 0x0007_FFFF_FFFF_FFFFu128;
    let ghost want = select_target(targetsel);
    let mut c: Vec<u8> = Vec::new();
    c.push(DAP_SWJ_SEQUENCE);
    c.push(102);
    assert(bits == targetsel_bits(targetsel, (ones(targetsel, 32) % 2) as u128));
    assert(c@ =~= want.take(2));
    let mut i: u128 = 0;
    while i < 13
        invariant
            i <= 13,
            bits == targetsel_bits(targetsel, (ones(targetsel, 32) % 2) as u128),
            want == select_target(targetsel),
            want.len() == 15,
            c@ == want.take(2 + i as int),
        decreases 13 - i,
    {
        let b: u8 = ((bits >> (8 * i)) & 0xFF) as u8;
        assert(want[2 + i as int] == b);
        c.push(b);
        i += 1;
        assert(c@ =~= want.take(2 + i as int));
    }
    assert(want.take(15) =~= want);
    c
}

/// One bit of a number.
pub open spec fn bit(v: u128, i: u128) -> u128 {
    (v >> i) & 1
}

/// Where each part of the selection stands in the bits on the wire: 51 high, 3
/// low, the request byte 0x99, five turnaround bits, the value from its lowest
/// bit on, its parity, and two low.
pub proof fn law_target_selection_layout(targetsel: u32, parity: u128)
    requires
        parity <= 1,
    ensures
        ({
            let bits = targetsel_bits(targetsel, parity);
            &&& forall|i: u128| i < 51 ==> #[trigger] bit(bits, i) == 1
            &&& forall|i: u128| 51 <= i < 54 ==> #[trigger] bit(bits, i) == 0
            &&& forall|i: u128| 54 <= i < 62 ==> #[trigger] bit(bits, i) == bit(0x99, (i - 54) as u128)
            &&& forall|i: u128| 62 <= i < 67 ==> #[trigger] bit(bits, i) == 1
            &&& forall|i: u128|
                67 <= i < 99 ==> #[trigger] bit(bits, i) == bit(targetsel as u128, (i - 67) as u128)
            &&& bit(bits, 99) == parity
            &&& forall|i: u128| 99 < i < 102 ==> #[trigger] bit(bits, i) == 0
        }),
{
    let bits = targetsel_bits(targetsel, parity);
    let ts = targetsel as u128;
    assert forall|i: u128| i < 102 implies #[trigger] bit(bits, i) == if i < 51 || 62 <= i < 67 {
        1u128
    } else if i < 54 {
        0u128
    } else if i < 62 {
        bit(0x99, (i - 54) as u128)
    } else if i < 99 {
        bit(ts, (i - 67) as u128)
    } else if i == 99 {
        parity
    } else {
        0u128
    } by {
        assert(bits == targetsel_bits(targetsel, parity));
        assert((((((parity << 45u128) | ((targetsel as u128) << 13u128) | 0x1f99u128) << 54u128)
            | 0x0007_FFFF_FFFF_FFFFu128) >> i) & 1 == if i < 51 || 62 <= i && i < 67 {
            1u128
        } else if i < 54 {
            0u128
        } else if i < 62 {
            (0x99u128 >> ((i - 54) as u128)) & 1
        } else if i < 99 {
            ((targetsel as u128) >> ((i - 67) as u128)) & 1
        } else if i == 99 {
            parity
        } else {
            0u128
        }) by (bit_vector)
            requires
                parity <= 1,
                i < 102,
        ;
    }
}

// ── Conversations ───────────────────────────────────────────────────────
/// Sends the commands one after the other, up to the first that is not answered.
pub open spec fn send_all(cmds: Seq<Seq<u8>>, t: Seq<Result<Seq<u8>, Seq<char>>>) -> RunView<()>
    decreases cmds.len(),
{
    if cmds.len() == 0 {
        RunView::Done(Ok(()), t)
    } else if t.len() == 0 {
        RunView::Send(cmds[0])
    } else {
        match reply_error(cmds[0], t[0]) {
            Some(e) => RunView::Done(Err(e), t.skip(1)),
            None => send_all(cmds.skip(1), t.skip(1)),
        }
    }
}

/// Sends one command and takes the word out of its answer.
pub open spec fn ask_word(cmd: Seq<u8>, t: Seq<Result<Seq<u8>, Seq<char>>>) -> RunView<u32> {
    if t.len() == 0 {
        RunView::Send(cmd)
    } else {
        RunView::Done(
            match reply_error(cmd, t[0]) {
                Some(e) => Err(e),
                None => Ok(word_at(t[0]->Ok_0, 3)->0),
            },
            t.skip(1),
        )
    }
}

fn bytes_of(v: &Vec<u8>) -> (r: Vec<u8>)
    ensures
        r@ == v@,
{
    let mut r: Vec<u8> = Vec::new();
    r.extend_from_slice(v.as_slice());
    assert(r@ =~= v@);
    r
}

fn send_all_of<'a>(cmds: &Vec<Vec<u8>>, t: &'a [Reply]) -> (r: Run<'a, ()>)
    ensures
        r@ == send_all(commands(cmds@), heard(t@)),
{
    let mut rest = t;
    let mut i: usize = 0;
    assert(commands(cmds@).skip(0) =~= commands(cmds@));
    while i < cmds.len()
        invariant
            i <= cmds@.len(),
            send_all(commands(cmds@), heard(t@)) == send_all(
                commands(cmds@).skip(i as int),
                heard(rest@),
            ),
        decreases cmds.len() - i,
    {
        assert(commands(cmds@).skip(i as int)[0] == cmds@[i as int]@);
        if rest.len() == 0 {
            return Run::Send(bytes_of(&cmds[i]));
        }
        assert(heard(rest@)[0] == heard_reply(rest@[0]));
        let err = check_reply(cmds[i].as_slice(), &rest[0]);
        rest = rest_of(rest);
        if let Some(e) = err {
            return Run::Done(Err(e), rest);
        }
        assert(commands(cmds@).skip(i as int).skip(1) =~= commands(cmds@).skip(i + 1));
        i += 1;
    }
    Run::Done(Ok(()), rest)
}

fn ask_word_of<'a>(cmd: Vec<u8>, t: &'a [Reply]) -> (r: Run<'a, u32>)
    requires
        is_word_read(cmd@),
    ensures
        r@ == ask_word(cmd@, heard(t@)),
{
    if t.len() == 0 {
        return Run::Send(cmd);
    }
    assert(heard(t@)[0] == heard_reply(t@[0]));
    if let Some(e) = check_reply(cmd.as_slice(), &t[0]) {
        return Run::Done(Err(e), rest_of(t));
    }
    match &t[0] {
        Ok(b) => match le_u32(b.as_slice(), 3) {
            Some(w) => Run::Done(Ok(w), rest_of(t)),
            None => Run::Done(Err("short DAP_Transfer read".to_string()), rest_of(t)),
        },
        Err(e) => Run::Done(Err(e.clone()), rest_of(t)),
    }
}

/// The version of the debug port that a DPIDR names.
pub open spec fn dp_version(dpidr: u32) -> u32 {
    (dpidr >> 12) & 0xF
}

/// One multidrop attempt: wake up where asked to, reset and select, read DPIDR,
/// clear the sticky flags that the reset leaves behind.
pub open spec fn try_multidrop(
    dormant: bool,
    targetsel: u32,
    t: Seq<Result<Seq<u8>, Seq<char>>>,
) -> RunView<u32> {
    let cmds = if dormant {
        wake_from_dormant().push(select_target(targetsel))
    } else {
        seq![select_target(targetsel)]
    };
    match send_all(cmds, t) {
        RunView::Send(c) => RunView::Send(c),
        RunView::Done(Err(e), rest) => RunView::Done(Err(e), rest),
        RunView::Done(Ok(_), rest) => match ask_word(dp_read(0x0), rest) {
            RunView::Send(c) => RunView::Send(c),
            RunView::Done(Err(e), rest) => RunView::Done(Err(e), rest),
            RunView::Done(Ok(dpidr), rest) => if rest.len() == 0 {
                RunView::Send(clear_sticky())
            } else {
                RunView::Done(Ok(dpidr), rest.skip(1))
            },
        },
    }
}

/// The attempts are: both cores by plain reset, then both from dormant state.
pub open spec fn attempt_is_dormant(k: nat) -> bool {
    k >= 2
}

pub open spec fn attempt_target(k: nat) -> u32 {
    if k % 2 == 0 {
        RP2040_TARGETSEL_CORE0
    } else {
        RP2040_TARGETSEL_CORE1
    }
}

pub open spec fn attempt_error(k: nat, what: Seq<char>) -> Seq<char> {
    (if attempt_is_dormant(k) {
        "dormant"@
    } else {
        "reset"@
    }) + "/"@ + hex_lower(attempt_target(k) as nat, 7) + ": "@ + what
}

pub open spec fn not_rp2040(dpidr: u32) -> Seq<char> {
    "DPIDR 0x"@ + hex_upper(dpidr as nat, 8) + " != RP2040"@
}

pub open spec fn no_target(last: u32, errs: Seq<Seq<char>>) -> Seq<char> {
    "no SWD target answered after "@ + decimal(SINGLE_TRIES as nat)
        + " single-drop tries (last DPIDR 0x"@ + hex_upper(last as nat, 8) + "); multidrop: "@
        + join(errs, "; "@)
}

/// The multidrop attempts from the `k`-th on. Only the exact RP2040 DPIDR is
/// accepted: a contended or floating bus, or a single-drop part that ignores
/// TARGETSEL, can give anything else.
pub open spec fn multidrop(
    t: Seq<Result<Seq<u8>, Seq<char>>>,
    k: nat,
    last: u32,
    errs: Seq<Seq<char>>,
) -> RunView<(u32, bool)>
    decreases 4 - k,
{
    if k >= 4 {
        RunView::Done(Err(no_target(last, errs)), t)
    } else {
        match try_multidrop(attempt_is_dormant(k), attempt_target(k), t) {
            RunView::Send(c) => RunView::Send(c),
            RunView::Done(Ok(dpidr), rest) => if dpidr == RP2040_DPIDR {
                RunView::Done(Ok((dpidr, true)), rest)
            } else {
                multidrop(rest, k + 1, last, errs.push(attempt_error(k, not_rp2040(dpidr))))
            },
            RunView::Done(Err(e), rest) => multidrop(
                rest,
                k + 1,
                last,
                errs.push(attempt_error(k, e)),
            ),
        }
    }
}

/// The single-drop tries from the `k`-th on: line reset and a plain DPIDR read.
/// Only a DPIDR below version 2 is accepted; `last` is the last other one.
pub open spec fn single_drop(
    t: Seq<Result<Seq<u8>, Seq<char>>>,
    k: nat,
    last: u32,
) -> RunView<(u32, bool)>
    decreases SINGLE_TRIES - k,
{
    if k >= SINGLE_TRIES {
        multidrop(t, 0, last, Seq::empty())
    } else {
        match send_all(switch_to_swd(), t) {
            RunView::Send(c) => RunView::Send(c),
            RunView::Done(Err(e), rest) => RunView::Done(Err(e), rest),
            RunView::Done(Ok(_), rest) => match ask_word(dp_read(0x0), rest) {
                RunView::Send(c) => RunView::Send(c),
                RunView::Done(Err(_), rest) => single_drop(rest, k + 1, last),
                RunView::Done(Ok(dpidr), rest) => if dp_version(dpidr) >= 2 {
                    single_drop(rest, k + 1, dpidr)
                } else if rest.len() == 0 {
                    RunView::Send(clear_sticky())
                } else {
                    RunView::Done(Ok((dpidr, false)), rest.skip(1))
                },
            },
        }
    }
}

/// The bring-up as a whole, which gives DPIDR and whether the target is a
/// multidrop one.
pub open spec fn bring_up(t: Seq<Result<Seq<u8>, Seq<char>>>) -> RunView<(u32, bool)> {
    match send_all(setup(), t) {
        RunView::Send(c) => RunView::Send(c),
        RunView::Done(Err(e), rest) => RunView::Done(Err(e), rest),
        RunView::Done(Ok(_), rest) => single_drop(rest, 0, 0),
    }
}

fn try_multidrop_of<'a>(dormant: bool, targetsel: u32, t: &'a [Reply]) -> (r: Run<'a, u32>)
    ensures
        r@ == try_multidrop(dormant, targetsel, heard(t@)),
{
    let mut cmds: Vec<Vec<u8>> = if dormant {
        wake_from_dormant_of()
    } else {
        Vec::new()
    };
    let ghost before = commands(cmds@);
    cmds.push(select_target_of(targetsel));
    assert(commands(cmds@) =~= before.push(select_target(targetsel)));
    assert(!dormant ==> commands(cmds@) =~= seq![select_target(targetsel)]);
    match send_all_of(&cmds, t) {
        Run::Send(c) => Run::Send(c),
        Run::Done(Err(e), rest) => Run::Done(Err(e), rest),
        Run::Done(Ok(_), rest) => match ask_word_of(dp_read_of(0x0), rest) {
            Run::Send(c) => Run::Send(c),
            Run::Done(Err(e), rest) => Run::Done(Err(e), rest),
            Run::Done(Ok(dpidr), rest) => if rest.len() == 0 {
                Run::Send(dp_write_of(0x0, 0x1E))
            } else {
                Run::Done(Ok(dpidr), rest_of(rest))
            },
        },
    }
}

fn attempt_error_of(k: usize, what: &str) -> (s: String)
    ensures
        s@ == attempt_error(k as nat, what@),
{
    let mut s = if k >= 2 {
        "dormant".to_string()
    } else {
        "reset".to_string()
    };
    s.append("/");
    let targetsel: u32 = if k % 2 == 0 {
        RP2040_TARGETSEL_CORE0
    } else {
        RP2040_TARGETSEL_CORE1
    };
    push_hex_lower(&mut s, targetsel as u64, 7);
    s.append(": ");
    s.append(what);
    s
}

fn no_target_of(last: u32, errs: &Vec<String>) -> (s: String)
    ensures
        s@ == no_target(last, texts(errs@)),
{
    let mut s = "no SWD target answered after ".to_string();
    push_decimal(&mut s, SINGLE_TRIES as u64);
    s.append(" single-drop tries (last DPIDR 0x");
    push_hex_upper(&mut s, last as u64, 8);
    s.append("); multidrop: ");
    s.append(join_of(errs, "; ").as_str());
    s
}

fn multidrop_of<'a>(t: &'a [Reply], last: u32) -> (r: Run<'a, (u32, bool)>)
    ensures
        r@ == multidrop(heard(t@), 0, last, Seq::empty()),
{
    let mut rest = t;
    let mut errs: Vec<String> = Vec::new();
    assert(texts(errs@) =~= Seq::empty());
    let mut k: usize = 0;
    while k < 4
        invariant
            k <= 4,
            multidrop(heard(t@), 0, last, Seq::empty()) == multidrop(
                heard(rest@),
                k as nat,
                last,
                texts(errs@),
            ),
        decreases 4 - k,
    {
        let targetsel: u32 = if k % 2 == 0 {
            RP2040_TARGETSEL_CORE0
        } else {
            RP2040_TARGETSEL_CORE1
        };
        match try_multidrop_of(k >= 2, targetsel, rest) {
            Run::Send(c) => {
                return Run::Send(c);
            },
            Run::Done(Ok(dpidr), after) => {
                if dpidr == RP2040_DPIDR {
                    return Run::Done(Ok((dpidr, true)), after);
                }
                let mut what = "DPIDR 0x".to_string();
                push_hex_upper(&mut what, dpidr as u64, 8);
                what.append(" != RP2040");
                push_line(&mut errs, attempt_error_of(k, what.as_str()));
                rest = after;
            },
            Run::Done(Err(e), after) => {
                push_line(&mut errs, attempt_error_of(k, e.as_str()));
                rest = after;
            },
        }
        k += 1;
    }
    Run::Done(Err(no_target_of(last, &errs)), rest)
}

/// Bring up SWD and return `(DPIDR, multidrop)`. A DPv1 part that answers a
/// plain DPIDR read is single-drop (STM32/GD32). The RP2040 is a DPv2 multidrop
/// part that shares the bus with its sibling core and needs a TARGETSEL to
/// route AP accesses. Tries the single-drop path FIRST (with a few retries, so a
/// flaky dupont link gets more than one shot) — it sends no TARGETSEL and so
/// can't disturb a DPv2 target — and accepts only a DPv1 (version < 2) DPIDR.
/// Only if that fails does it try line-reset+TARGETSEL (then dormant->SWD),
/// accepting multidrop only on an EXACT RP2040 DPIDR match.
pub fn bringup<'a>(t: &'a [Reply]) -> (r: Run<'a, (u32, bool)>)
    ensures
        r@ == bring_up(heard(t@)),
{
    let cmds = setup_of();
    let mut rest = match send_all_of(&cmds, t) {
        Run::Send(c) => {
            return Run::Send(c);
        },
        Run::Done(Err(e), rest) => {
            return Run::Done(Err(e), rest);
        },
        Run::Done(Ok(_), rest) => rest,
    };
    let switch = switch_to_swd_of();
    let mut last: u32 = 0;
    let mut k: u32 = 0;
    while k < SINGLE_TRIES
        invariant
            k <= SINGLE_TRIES,
            commands(switch@) == switch_to_swd(),
            bring_up(heard(t@)) == single_drop(heard(rest@), k as nat, last),
        decreases SINGLE_TRIES - k,
    {
        let after = match send_all_of(&switch, rest) {
            Run::Send(c) => {
                return Run::Send(c);
            },
            Run::Done(Err(e), after) => {
                return Run::Done(Err(e), after);
            },
            Run::Done(Ok(_), after) => after,
        };
        match ask_word_of(dp_read_of(0x0), after) {
            Run::Send(c) => {
                return Run::Send(c);
            },
            Run::Done(Err(_), after) => {
                rest = after;
            },
            Run::Done(Ok(dpidr), after) => {
                if (dpidr >> 12) & 0xF < 2 {
                    if after.len() == 0 {
                        return Run::Send(dp_write_of(0x0, 0x1E));
                    }
                    return Run::Done(Ok((dpidr, false)), rest_of(after));
                }
                last = dpidr;  // version >= 2: not single-drop
                rest = after;
            },
        }
        k += 1;
    }
    multidrop_of(rest, last)
}

// ── Memory access ───────────────────────────────────────────────────────
/// The power-up acknowledgements are polled up to fifty times; then AP 0 is
/// selected for 32-bit accesses.
pub open spec fn await_power(t: Seq<Result<Seq<u8>, Seq<char>>>, k: nat) -> RunView<()>
    decreases 50 - k,
{
    if k >= 50 {
        RunView::Done(Err("DP power-up not acknowledged"@), t)
    } else {
        match ask_word(dp_read(0x4), t) {
            RunView::Send(c) => RunView::Send(c),
            RunView::Done(Err(e), rest) => RunView::Done(Err(e), rest),
            RunView::Done(Ok(w), rest) => if w & 0xA000_0000 == 0xA000_0000 {
                send_all(
                    seq![clear_sticky(), dp_write(0x8, 0x0000_0000), ap_write(0x0, 0x2300_0052)],
                    rest,
                )
            } else {
                await_power(rest, k + 1)
            },
        }
    }
}

pub open spec fn mem_ap(t: Seq<Result<Seq<u8>, Seq<char>>>) -> RunView<()> {
    match send_all(seq![dp_write(0x4, 0x5000_0000)], t) {
        RunView::Send(c) => RunView::Send(c),
        RunView::Done(Err(e), rest) => RunView::Done(Err(e), rest),
        RunView::Done(Ok(_), rest) => await_power(rest, 0),
    }
}

/// The address goes to TAR, and DRW gives the word.
pub open spec fn read_once(addr: u32, t: Seq<Result<Seq<u8>, Seq<char>>>) -> RunView<u32> {
    match send_all(seq![ap_write(0x4, addr)], t) {
        RunView::Send(c) => RunView::Send(c),
        RunView::Done(Err(e), rest) => RunView::Done(Err(e), rest),
        RunView::Done(Ok(_), rest) => ask_word(ap_read(0xC), rest),
    }
}

/// A read that fails is tried once more with the sticky flags cleared; where
/// that fails too, the first error stands.
pub open spec fn read_memory(addr: u32, t: Seq<Result<Seq<u8>, Seq<char>>>) -> RunView<u32> {
    match read_once(addr, t) {
        RunView::Done(Err(e), rest) => if rest.len() == 0 {
            RunView::Send(clear_sticky())
        } else {
            match read_once(addr, rest.skip(1)) {
                RunView::Done(Err(_), rest) => RunView::Done(Err(e), rest),
                other => other,
            }
        },
        other => other,
    }
}

/// Power up the debug/system domains and select AP0 for 32-bit MEM-AP reads.
pub fn open_mem_ap<'a>(t: &'a [Reply]) -> (r: Run<'a, ()>)
    ensures
        r@ == mem_ap(heard(t@)),
{
    let power: Vec<Vec<u8>> = vec![dp_write_of(0x4, 0x5000_0000)];  // CSYSPWRUPREQ | CDBGPWRUPREQ
    assert(commands(power@) =~= seq![dp_write(0x4, 0x5000_0000)]);
    let mut rest = match send_all_of(&power, t) {
        Run::Send(c) => {
            return Run::Send(c);
        },
        Run::Done(Err(e), rest) => {
            return Run::Done(Err(e), rest);
        },
        Run::Done(Ok(_), rest) => rest,
    };
    let mut k: u32 = 0;
    while k < 50
        invariant
            k <= 50,
            mem_ap(heard(t@)) == await_power(heard(rest@), k as nat),
        decreases 50 - k,
    {
        match ask_word_of(dp_read_of(0x4), rest) {
            Run::Send(c) => {
                return Run::Send(c);
            },
            Run::Done(Err(e), after) => {
                return Run::Done(Err(e), after);
            },
            Run::Done(Ok(w), after) => {
                if w & 0xA000_0000 == 0xA000_0000 {
                    // A prior multidrop/dormant attempt can leave STKERR set.
                    let select: Vec<Vec<u8>> = vec![
                        dp_write_of(0x0, 0x1E),
                        dp_write_of(0x8, 0x0000_0000),
                        ap_write_of(0x0, 0x2300_0052),
                    ];
                    assert(commands(select@) =~= seq![
                        clear_sticky(),
                        dp_write(0x8, 0x0000_0000),
                        ap_write(0x0, 0x2300_0052),
                    ]);
                    return send_all_of(&select, after);
                }
                rest = after;
            },
        }
        k += 1;
    }
    Run::Done(Err("DP power-up not acknowledged".to_string()), rest)
}

fn read_mem32_once<'a>(addr: u32, t: &'a [Reply]) -> (r: Run<'a, u32>)
    ensures
        r@ == read_once(addr, heard(t@)),
{
    let tar: Vec<Vec<u8>> = vec![ap_write_of(0x4, addr)];
    assert(commands(tar@) =~= seq![ap_write(0x4, addr)]);
    match send_all_of(&tar, t) {
        Run::Send(c) => Run::Send(c),
        Run::Done(Err(e), rest) => Run::Done(Err(e), rest),
        Run::Done(Ok(_), rest) => ask_word_of(ap_read_of(0xC), rest),
    }
}

/// Read one 32-bit word from the target's memory map (read-only). For a
/// single CMSIS-DAP transfer the firmware completes the posted AP read and
/// returns the data directly, so the DRW read has the result. On a FAULT (sticky
/// STKERR latched by an earlier access) it is cleared and the read retried once.
pub fn read_mem32<'a>(addr: u32, t: &'a [Reply]) -> (r: Run<'a, u32>)
    ensures
        r@ == read_memory(addr, heard(t@)),
{
    match read_mem32_once(addr, t) {
        Run::Send(c) => Run::Send(c),
        Run::Done(Ok(v), rest) => Run::Done(Ok(v), rest),
        Run::Done(Err(e), rest) => {
            if rest.len() == 0 {
                return Run::Send(dp_write_of(0x0, 0x1E));
            }
            match read_mem32_once(addr, rest_of(rest)) {
                Run::Send(c) => Run::Send(c),
                Run::Done(Ok(v), rest) => Run::Done(Ok(v), rest),
                Run::Done(Err(_), rest) => Run::Done(Err(e), rest),
            }
        },
    }
}

// ── What holds of every conversation ────────────────────────────────────
/// A command that the conversations may send: the fixed lists, the two target
/// selections, and the transfers that read identity words.
pub open spec fn is_allowed(cmd: Seq<u8>) -> bool {
    ||| setup().contains(cmd)
    ||| switch_to_swd().contains(cmd)
    ||| wake_from_dormant().contains(cmd)
    ||| is_target_selection(cmd)
    ||| is_allowed_transfer(cmd)
}

pub open spec fn is_target_selection(cmd: Seq<u8>) -> bool {
    cmd == select_target(RP2040_TARGETSEL_CORE0) || cmd == select_target(RP2040_TARGETSEL_CORE1)
}

pub open spec fn is_allowed_transfer(cmd: Seq<u8>) -> bool {
    ||| cmd == dp_read(0x0)
    ||| cmd == dp_read(0x4)
    ||| cmd == ap_read(0xC)
    ||| cmd == clear_sticky()
    ||| cmd == dp_write(0x4, 0x5000_0000)
    ||| cmd == dp_write(0x8, 0x0000_0000)
    ||| cmd == ap_write(0x0, 0x2300_0052)
    ||| exists|addr: u32| cmd == #[trigger] ap_write(0x4, addr)
}

/// A transfer that would write the target's memory: RnW clear, APnDP set, and
/// the data register DRW.
pub open spec fn writes_memory(cmd: Seq<u8>) -> bool {
    byte(cmd, 0) == DAP_TRANSFER && byte(cmd, 3) & 0x0F == 0x0D
}

proof fn lemma_send_all(cmds: Seq<Seq<u8>>, t: Seq<Result<Seq<u8>, Seq<char>>>)
    ensures
        match send_all(cmds, t) {
            RunView::Send(c) => t.len() < cmds.len() && c == cmds[t.len() as int],
            RunView::Done(Ok(_), rest) => t.len() == cmds.len() + rest.len(),
            RunView::Done(Err(_), rest) => t.len() > rest.len() && t.len() <= cmds.len()
                + rest.len(),
        },
    decreases cmds.len(),
{
    if cmds.len() > 0 && t.len() > 0 && reply_error(cmds[0], t[0]) is None {
        lemma_send_all(cmds.skip(1), t.skip(1));
    }
}

proof fn lemma_try_multidrop(
    dormant: bool,
    targetsel: u32,
    t: Seq<Result<Seq<u8>, Seq<char>>>,
)
    requires
        targetsel == RP2040_TARGETSEL_CORE0 || targetsel == RP2040_TARGETSEL_CORE1,
    ensures
        match try_multidrop(dormant, targetsel, t) {
            RunView::Send(c) => is_allowed(c) && t.len() < if dormant {
                9int
            } else {
                3
            },
            RunView::Done(_, rest) => rest.len() < t.len() && t.len() <= rest.len() + if dormant {
                9int
            } else {
                3
            },
        },
{
    let cmds = if dormant {
        wake_from_dormant().push(select_target(targetsel))
    } else {
        seq![select_target(targetsel)]
    };
    lemma_send_all(cmds, t);
    if let RunView::Send(c) = send_all(cmds, t) {
        let i = t.len() as int;
        if dormant && i < 6 {
            assert(wake_from_dormant()[i] == c);
        }
    }
}

proof fn lemma_multidrop(
    t: Seq<Result<Seq<u8>, Seq<char>>>,
    k: nat,
    last: u32,
    errs: Seq<Seq<char>>,
)
    requires
        k <= 4,
    ensures
        match multidrop(t, k, last, errs) {
            RunView::Send(c) => is_allowed(c) && t.len() < 3 * (4 - k) + if k < 2 {
                12
            } else {
                6 * (4 - k)
            },
            RunView::Done(r, rest) => {
                &&& r matches Ok((dpidr, multi)) ==> multi && dpidr == RP2040_DPIDR
                &&& t.len() <= rest.len() + 3 * (4 - k) + if k < 2 {
                    12
                } else {
                    6 * (4 - k)
                }
            },
        },
    decreases 4 - k,
{
    if k < 4 {
        lemma_try_multidrop(attempt_is_dormant(k), attempt_target(k), t);
        match try_multidrop(attempt_is_dormant(k), attempt_target(k), t) {
            RunView::Send(c) => {},
            RunView::Done(Ok(dpidr), rest) => {
                lemma_multidrop(
                    rest,
                    k + 1,
                    last,
                    errs.push(attempt_error(k, not_rp2040(dpidr))),
                );
            },
            RunView::Done(Err(e), rest) => {
                lemma_multidrop(rest, k + 1, last, errs.push(attempt_error(k, e)));
            },
        }
    }
}

proof fn lemma_not_a_selection(cmd: Seq<u8>)
    requires
        setup().contains(cmd) || switch_to_swd().contains(cmd) || is_allowed_transfer(cmd),
    ensures
        !is_target_selection(cmd),
{
    assert(select_target(RP2040_TARGETSEL_CORE0)[0] == DAP_SWJ_SEQUENCE);
    assert(select_target(RP2040_TARGETSEL_CORE0)[1] == 102);
    assert(select_target(RP2040_TARGETSEL_CORE1)[0] == DAP_SWJ_SEQUENCE);
    assert(select_target(RP2040_TARGETSEL_CORE1)[1] == 102);
    if setup().contains(cmd) {
        assert(cmd[0] != DAP_SWJ_SEQUENCE);
    } else if switch_to_swd().contains(cmd) {
        assert(cmd[1] != 102);
    } else {
        assert(cmd[0] == DAP_TRANSFER);
    }
}

proof fn lemma_single_drop(t: Seq<Result<Seq<u8>, Seq<char>>>, k: nat, last: u32)
    requires
        k <= SINGLE_TRIES,
    ensures
        match single_drop(t, k, last) {
            RunView::Send(c) => {
                &&& is_allowed(c)
                &&& t.len() < 5 * (SINGLE_TRIES - k) + 24
                &&& is_target_selection(c) ==> t.len() >= 5 * (SINGLE_TRIES - k)
            },
            RunView::Done(r, rest) => {
                &&& r matches Ok((dpidr, multi)) ==> if multi {
                    dpidr == RP2040_DPIDR
                } else {
                    dp_version(dpidr) < 2
                }
                &&& t.len() <= rest.len() + 5 * (SINGLE_TRIES - k) + 24
            },
        },
    decreases SINGLE_TRIES - k,
{
    if k >= SINGLE_TRIES {
        lemma_multidrop(t, 0, last, Seq::empty());
    } else {
        lemma_send_all(switch_to_swd(), t);
        match send_all(switch_to_swd(), t) {
            RunView::Send(c) => {
                assert(switch_to_swd().contains(c));
                lemma_not_a_selection(c);
            },
            RunView::Done(Err(e), rest) => {},
            RunView::Done(Ok(_), rest) => {
                lemma_not_a_selection(dp_read(0x0));
                lemma_not_a_selection(clear_sticky());
                match ask_word(dp_read(0x0), rest) {
                    RunView::Send(c) => {},
                    RunView::Done(Err(_), rest) => {
                        lemma_single_drop(rest, k + 1, last);
                    },
                    RunView::Done(Ok(dpidr), rest) => {
                        lemma_single_drop(rest, k + 1, dpidr);
                    },
                }
            },
        }
    }
}

pub proof fn lemma_bring_up(t: Seq<Result<Seq<u8>, Seq<char>>>)
    ensures
        match bring_up(t) {
            RunView::Send(c) => {
                &&& is_allowed(c)
                &&& t.len() < 78
                &&& is_target_selection(c) ==> t.len() >= 54
            },
            RunView::Done(r, rest) => {
                &&& r matches Ok((dpidr, multi)) ==> if multi {
                    dpidr == RP2040_DPIDR
                } else {
                    dp_version(dpidr) < 2
                }
                &&& t.len() <= rest.len() + 78
            },
        },
{
    lemma_send_all(setup(), t);
    match send_all(setup(), t) {
        RunView::Send(c) => {
            assert(setup().contains(c));
            lemma_not_a_selection(c);
        },
        RunView::Done(Err(e), rest) => {},
        RunView::Done(Ok(_), rest) => {
            lemma_single_drop(rest, 0, 0);
        },
    }
}

/// A bring-up that succeeds found either a single-drop part, whose debug port is
/// older than version 2, or exactly an RP2040.
pub proof fn law_bring_up_accepts_only_known_ports(t: Seq<Result<Seq<u8>, Seq<char>>>)
    requires
        bring_up(t) is Done,
        bring_up(t)->Done_0 is Ok,
    ensures
        ({
            let (dpidr, multi) = bring_up(t)->Done_0->Ok_0;
            if multi {
                dpidr == RP2040_DPIDR
            } else {
                dp_version(dpidr) < 2
            }
        }),
{
    lemma_bring_up(t);
}

/// No TARGETSEL is sent before the set-up and all the single-drop tries have had
/// their answers.
pub proof fn law_target_selection_is_the_last_resort(t: Seq<Result<Seq<u8>, Seq<char>>>)
    requires
        bring_up(t) is Send,
        is_target_selection(bring_up(t)->Send_0),
    ensures
        t.len() >= setup().len() + SINGLE_TRIES * (switch_to_swd().len() + 1),
{
    lemma_bring_up(t);
}

/// A bring-up ends after at most 78 answers, whatever they are.
pub proof fn law_bring_up_ends(t: Seq<Result<Seq<u8>, Seq<char>>>)
    requires
        t.len() >= 78,
    ensures
        bring_up(t) is Done,
{
    lemma_bring_up(t);
}

proof fn lemma_await_power(t: Seq<Result<Seq<u8>, Seq<char>>>, k: nat)
    requires
        k <= 50,
    ensures
        match await_power(t, k) {
            RunView::Send(c) => is_allowed_transfer(c) && t.len() < 53 - k,
            RunView::Done(_, rest) => rest.len() <= t.len() <= rest.len() + 53 - k,
        },
    decreases 50 - k,
{
    if k < 50 {
        match ask_word(dp_read(0x4), t) {
            RunView::Done(Ok(w), rest) => {
                lemma_send_all(
                    seq![clear_sticky(), dp_write(0x8, 0x0000_0000), ap_write(0x0, 0x2300_0052)],
                    rest,
                );
                lemma_await_power(rest, k + 1);
            },
            _ => {},
        }
    }
}

/// Opening the memory access ends after at most 54 answers, and sends nothing
/// but the transfers it needs.
pub proof fn law_mem_ap_ends(t: Seq<Result<Seq<u8>, Seq<char>>>)
    ensures
        match mem_ap(t) {
            RunView::Send(c) => is_allowed_transfer(c) && t.len() < 54,
            RunView::Done(_, rest) => rest.len() < t.len() <= rest.len() + 54,
        },
{
    lemma_send_all(seq![dp_write(0x4, 0x5000_0000)], t);
    match send_all(seq![dp_write(0x4, 0x5000_0000)], t) {
        RunView::Done(Ok(_), rest) => {
            lemma_await_power(rest, 0);
        },
        _ => {},
    }
}

/// Reading a word ends after at most five answers, and sends nothing but the
/// transfers it needs.
pub proof fn law_read_memory_ends(addr: u32, t: Seq<Result<Seq<u8>, Seq<char>>>)
    ensures
        match read_memory(addr, t) {
            RunView::Send(c) => is_allowed_transfer(c) && t.len() < 5,
            RunView::Done(_, rest) => rest.len() < t.len() <= rest.len() + 5,
        },
{
    assert(is_allowed_transfer(ap_write(0x4, addr)));
    lemma_send_all(seq![ap_write(0x4, addr)], t);
    match read_once(addr, t) {
        RunView::Done(Err(e), rest) => if rest.len() > 0 {
            lemma_send_all(seq![ap_write(0x4, addr)], rest.skip(1));
        },
        _ => {},
    }
}

/// No command that is allowed writes the target's memory.
pub proof fn law_allowed_commands_do_not_write_memory(cmd: Seq<u8>)
    requires
        is_allowed(cmd),
    ensures
        !writes_memory(cmd),
{
    assert((0x02u8 | (0x0u8 & 0x0C)) & 0x0F != 0x0D) by (bit_vector);
    assert((0x02u8 | (0x4u8 & 0x0C)) & 0x0F != 0x0D) by (bit_vector);
    assert((0x03u8 | (0xCu8 & 0x0C)) & 0x0F != 0x0D) by (bit_vector);
    assert((0x0u8 & 0x0C) & 0x0F != 0x0D) by (bit_vector);
    assert((0x4u8 & 0x0C) & 0x0F != 0x0D) by (bit_vector);
    assert((0x8u8 & 0x0C) & 0x0F != 0x0D) by (bit_vector);
    assert((0x01u8 | (0x0u8 & 0x0C)) & 0x0F != 0x0D) by (bit_vector);
    assert((0x01u8 | (0x4u8 & 0x0C)) & 0x0F != 0x0D) by (bit_vector);
    if setup().contains(cmd) {
        assert(byte(cmd, 0) != DAP_TRANSFER);
    } else if switch_to_swd().contains(cmd) {
        assert(byte(cmd, 0) == DAP_SWJ_SEQUENCE);
    } else if wake_from_dormant().contains(cmd) {
        assert(byte(cmd, 0) == DAP_SWJ_SEQUENCE);
    } else if is_target_selection(cmd) {
        assert(byte(cmd, 0) == DAP_SWJ_SEQUENCE);
    }
}

/// Whatever the probe answers, bringing up a target, opening its memory and
/// reading a word of it send only allowed commands.
pub proof fn law_only_allowed_commands_are_sent(addr: u32, t: Seq<Result<Seq<u8>, Seq<char>>>)
    ensures
        bring_up(t) matches RunView::Send(c) ==> is_allowed(c),
        mem_ap(t) matches RunView::Send(c) ==> is_allowed(c),
        read_memory(addr, t) matches RunView::Send(c) ==> is_allowed(c),
{
    lemma_bring_up(t);
    law_mem_ap_ends(t);
    law_read_memory_ends(addr, t);
}

// ── What the bytes mean ─────────────────────────────────────────────────
proof fn lemma_fields(w: u32, b: u8)
    ensures
        (w >> 12) & 0xF == w / 0x1000 % 16,
        (w & 0xA000_0000 == 0xA000_0000) == (w / 0x8000_0000 == 1 && w / 0x2000_0000 % 2 == 1),
        b & 0x07 == b % 8,
        b & 0x0C == b / 4 % 4 * 4,
        0x01 | (b & 0x0C) == 1 + b / 4 % 4 * 4,
        0x02 | (b & 0x0C) == 2 + b / 4 % 4 * 4,
        0x03 | (b & 0x0C) == 3 + b / 4 % 4 * 4,
{
    assert((w >> 12) & 0xF == w / 0x1000 % 16 && (w & 0xA000_0000 == 0xA000_0000) == (w
        / 0x8000_0000 == 1 && w / 0x2000_0000 % 2 == 1) && b & 0x07 == b % 8 && b & 0x0C == b / 4
        % 4 * 4 && 0x01 | (b & 0x0C) == 1 + b / 4 % 4 * 4 && 0x02 | (b & 0x0C) == 2 + b / 4 % 4 * 4
        && 0x03 | (b & 0x0C) == 3 + b / 4 % 4 * 4) by (bit_vector);
}

/// A transfer is one word of one port: the fourth byte holds the register in bits 2 and
/// 3, has bit 1 set for a read and bit 0 for the access port. A write carries its word,
/// the least significant byte first, and a read carries nothing.
pub proof fn law_transfers_byte_by_byte(addr: u8, v: u32)
    ensures
        ({
            let reg = addr / 4 % 4 * 4;
            &&& dp_read(addr).len() == 4 && dp_read(addr)[3] == 2 + reg
            &&& ap_read(addr).len() == 4 && ap_read(addr)[3] == 3 + reg
            &&& dp_write(addr, v).len() == 8 && dp_write(addr, v)[3] == reg
            &&& ap_write(addr, v).len() == 8 && ap_write(addr, v)[3] == 1 + reg
        }),
        forall|c: Seq<u8>|
            c == dp_read(addr) || c == ap_read(addr) || c == dp_write(addr, v) || c == ap_write(
                addr,
                v,
            ) ==> #[trigger] c[0] == 0x05 && c[1] == 0 && c[2] == 1,
        forall|c: Seq<u8>|
            c == dp_write(addr, v) || c == ap_write(addr, v) ==> #[trigger] c[4] == v % 0x100
                && c[5] == v / 0x100 % 0x100 && c[6] == v / 0x1_0000 % 0x100 && c[7] == v
                / 0x100_0000,
{
    lemma_fields(0, addr);
    law_bytes_of_a_word(v, Seq::empty(), 0);
}

/// The commands that set the probe up and that switch the target to SWD, byte by byte.
pub proof fn law_fixed_commands_byte_by_byte()
    ensures
        setup() == seq![
            seq![0x02u8, 0x01],
            seq![0x11u8, 0xA0, 0x86, 0x01, 0x00],
            seq![0x13u8, 0x00],
            seq![0x04u8, 0x00, 0x80, 0x00, 0x00, 0x00],
        ],
        switch_to_swd() == seq![
            seq![0x12u8, 51, 0xFF, 0xFF, 0xFF, 0xFF, 0xFF, 0xFF, 0x07],
            seq![0x12u8, 16, 0x9E, 0xE7],
            seq![0x12u8, 51, 0xFF, 0xFF, 0xFF, 0xFF, 0xFF, 0xFF, 0x07],
            seq![0x12u8, 8, 0x00],
        ],
        wake_from_dormant() == seq![
            seq![0x12u8, 54, 0xFF, 0xFF, 0xFF, 0xFF, 0xFF, 0xFF, 0x07],
            seq![0x12u8, 31, 0xBA, 0xBB, 0xBB, 0x33],
            seq![0x12u8, 8, 0xFF],
            seq![0x12u8, 64, 0x92, 0xF3, 0x09, 0x62, 0x95, 0x2D, 0x85, 0x86],
            seq![0x12u8, 64, 0xE9, 0xAF, 0xDD, 0xE3, 0xA2, 0x0E, 0xBC, 0x19],
            seq![0x12u8, 12, 0xA0, 0x01],
        ],
        clear_sticky() == seq![0x05u8, 0x00, 0x01, 0x00, 0x1E, 0x00, 0x00, 0x00],
{
    law_bytes_of_a_word(100_000, Seq::empty(), 0);
    law_bytes_of_a_word(0x33BB_BBBA, Seq::empty(), 0);
    law_transfers_byte_by_byte(0, 0x1E);
    let c = clear_sticky();
    assert(c[0] == 0x05 && c[4] == 0x1E);
    assert(c =~= seq![0x05u8, 0x00, 0x01, 0x00, 0x1E, 0x00, 0x00, 0x00]);
    assert(setup() =~~= seq![
        seq![0x02u8, 0x01],
        seq![0x11u8, 0xA0, 0x86, 0x01, 0x00],
        seq![0x13u8, 0x00],
        seq![0x04u8, 0x00, 0x80, 0x00, 0x00, 0x00],
    ]);
    assert(switch_to_swd() =~~= seq![
        seq![0x12u8, 51, 0xFF, 0xFF, 0xFF, 0xFF, 0xFF, 0xFF, 0x07],
        seq![0x12u8, 16, 0x9E, 0xE7],
        seq![0x12u8, 51, 0xFF, 0xFF, 0xFF, 0xFF, 0xFF, 0xFF, 0x07],
        seq![0x12u8, 8, 0x00],
    ]);
    assert(wake_from_dormant() =~~= seq![
        seq![0x12u8, 54, 0xFF, 0xFF, 0xFF, 0xFF, 0xFF, 0xFF, 0x07],
        seq![0x12u8, 31, 0xBA, 0xBB, 0xBB, 0x33],
        seq![0x12u8, 8, 0xFF],
        seq![0x12u8, 64, 0x92, 0xF3, 0x09, 0x62, 0x95, 0x2D, 0x85, 0x86],
        seq![0x12u8, 64, 0xE9, 0xAF, 0xDD, 0xE3, 0xA2, 0x0E, 0xBC, 0x19],
        seq![0x12u8, 12, 0xA0, 0x01],
    ]);
}

proof fn lemma_flipped(v: u32, i: u32, n: nat)
    requires
        i < 32,
        n <= 32,
    ensures
        ({
            let w = v ^ (1u32 << i);
            &&& n <= i ==> ones(w, n) == ones(v, n)
            &&& n > i ==> ones(w, n) == ones(v, n) + 1 || ones(w, n) == ones(v, n) - 1
        }),
    decreases n,
{
    if n > 0 {
        let k = (n - 1) as u32;
        lemma_flipped(v, i, (n - 1) as nat);
        assert(if k == i {
            ((v ^ (1u32 << i)) >> k) & 1 == 1 - ((v >> k) & 1)
        } else {
            ((v ^ (1u32 << i)) >> k) & 1 == (v >> k) & 1
        }) by (bit_vector)
            requires
                k < 32,
                i < 32,
        ;
    }
}

proof fn lemma_no_ones(n: nat)
    requires
        n <= 32,
    ensures
        ones(0, n) == 0,
    decreases n,
{
    if n > 0 {
        let k = (n - 1) as u32;
        lemma_no_ones((n - 1) as nat);
        assert((0u32 >> k) & 1 == 0) by (bit_vector)
            requires
                k < 32,
        ;
    }
}

/// Zero has even parity, and the parity changes with every bit.
pub proof fn law_parity_changes_with_every_bit(v: u32, i: u32)
    requires
        i < 32,
    ensures
        ones(0, 32) % 2 == 0,
        ones(v ^ (1u32 << i), 32) % 2 != ones(v, 32) % 2,
{
    lemma_flipped(v, i, 32);
    lemma_no_ones(32);
}

/// A selection is a sequence of 102 bits in thirteen bytes, the first bit the lowest of
/// the first byte.
pub proof fn law_selection_bits_in_their_bytes(targetsel: u32, i: u128, j: u128)
    requires
        i < 13,
        j < 8,
    ensures
        ({
            let c = select_target(targetsel);
            let bits = targetsel_bits(targetsel, (ones(targetsel, 32) % 2) as u128);
            &&& c.len() == 15
            &&& c[0] == 0x12
            &&& c[1] == 102
            &&& bit(c[2 + i as int] as u128, j) == bit(bits, (8 * i + j) as u128)
        }),
{
    let bits = targetsel_bits(targetsel, (ones(targetsel, 32) % 2) as u128);
    let b = ((bits >> ((8 * i) as u128)) & 0xFF) as u8;
    assert(select_target(targetsel)[2 + i as int] == b);
    assert(((b as u128) >> j) & 1 == (bits >> ((8 * i + j) as u128)) & 1) by (bit_vector)
        requires
            b == ((bits >> ((8 * i) as u128)) & 0xFF) as u8,
            i < 13,
            j < 8,
    ;
}

/// The first core is selected before the second, and both by a plain reset before either
/// is woken from dormant state.
pub proof fn law_order_of_the_attempts(k: nat)
    requires
        k < 4,
    ensures
        attempt_target(k) == if k == 0 || k == 2 {
            0x0100_2927u32
        } else {
            0x1100_2927u32
        },
        attempt_is_dormant(k) <==> k == 2 || k == 3,
        RP2040_DPIDR == 0x0BC1_2477,
{
}

/// The version of a debug port is in bits 12 to 15 of its identity.
pub proof fn law_debug_port_version(dpidr: u32)
    ensures
        dp_version(dpidr) == dpidr / 0x1000 % 16,
{
    lemma_fields(dpidr, 0);
}

/// What answers a command: bytes that begin as the command does. A connection must be
/// accepted as SWD; a transfer must count one and be acknowledged in its lowest three
/// bits, and one that reads must bring four bytes more.
pub proof fn law_answers(cmd: Seq<u8>, b: Seq<u8>, why: Seq<char>)
    requires
        cmd.len() > 0,
    ensures
        reply_error(cmd, Err(why)) == Some(why),
        cmd[0] != 0x02 && cmd[0] != 0x05 ==> (reply_error(cmd, Ok(b)) is None <==> b.len() > 0
            && b[0] == cmd[0]),
        cmd[0] == 0x02 ==> (reply_error(cmd, Ok(b)) is None <==> b.len() > 1 && b[0] == 0x02
            && b[1] == 1),
        cmd[0] == 0x05 ==> (reply_error(cmd, Ok(b)) is None <==> b.len() > 2 && b[0] == 0x05
            && b[1] == 1 && b[2] % 8 == 1 && (cmd.len() == 4 ==> b.len() >= 7)),
{
    lemma_fields(0, byte(b, 2));
}

/// The word that is asked for stands behind the first three bytes of the answer; an
/// answer that is none gives its reason.
pub proof fn law_words_behind_the_acknowledgement(
    cmd: Seq<u8>,
    b: Seq<u8>,
    rest: Seq<Result<Seq<u8>, Seq<char>>>,
)
    requires
        cmd.len() == 4,
        cmd[0] == 0x05,
    ensures
        ask_word(cmd, Seq::empty()) == RunView::<u32>::Send(cmd),
        reply_error(cmd, Ok(b)) is None ==> (ask_word(cmd, seq![Ok(b)] + rest) matches RunView::Done(
            w,
            left,
        ) && left == rest && w is Ok && w->Ok_0 == b[3] + 0x100 * b[4] + 0x1_0000 * b[5]
            + 0x100_0000 * b[6]),
        reply_error(cmd, Ok(b)) matches Some(e) ==> ask_word(cmd, seq![Ok(b)] + rest)
            == RunView::<u32>::Done(Err(e), rest),
{
    let t = seq![Ok::<Seq<u8>, Seq<char>>(b)] + rest;
    assert(t[0] == Ok::<Seq<u8>, Seq<char>>(b));
    assert(t.skip(1) =~= rest);
    law_bytes_of_a_word(0, b, 3);
}

/// A list of commands is sent up to the first that is not answered, whose reason is the
/// result; where all are answered, the replies behind them are left.
pub proof fn law_commands_are_sent_in_order(
    cmds: Seq<Seq<u8>>,
    t: Seq<Result<Seq<u8>, Seq<char>>>,
    k: int,
)
    requires
        0 <= k <= cmds.len(),
        k <= t.len(),
        forall|i: int| 0 <= i < k ==> reply_error(cmds[i], #[trigger] t[i]) is None,
    ensures
        k == cmds.len() ==> send_all(cmds, t) == RunView::Done(Ok(()), t.skip(k)),
        k < cmds.len() && k == t.len() ==> send_all(cmds, t) == RunView::<()>::Send(cmds[k]),
        k < cmds.len() && k < t.len() ==> (reply_error(cmds[k], t[k]) matches Some(e) ==> send_all(
            cmds,
            t,
        ) == RunView::<()>::Done(Err(e), t.skip(k + 1))),
    decreases k,
{
    if k == 0 {
        assert(t.skip(0) =~= t);
    } else {
        assert(reply_error(cmds[0], t[0]) is None);
        let c = cmds.skip(1);
        let u = t.skip(1);
        assert forall|i: int| 0 <= i < k - 1 implies reply_error(c[i], #[trigger] u[i]) is None by {
            assert(u[i] == t[i + 1] && c[i] == cmds[i + 1]);
        }
        law_commands_are_sent_in_order(c, u, k - 1);
        assert(u.skip(k - 1) =~= t.skip(k));
        if k < t.len() {
            assert(u.skip(k) =~= t.skip(k + 1));
        }
    }
}

/// The debug and system domains are powered where bits 29 and 31 of the answer are both
/// set; nothing else ends the wait but an error, and only fifty answers are waited for.
pub proof fn law_power_is_awaited(
    t: Seq<Result<Seq<u8>, Seq<char>>>,
    k: nat,
    w: u32,
    rest: Seq<Result<Seq<u8>, Seq<char>>>,
)
    requires
        k < 50,
        ask_word(dp_read(0x4), t) == RunView::Done(Ok(w), rest),
    ensures
        w / 0x8000_0000 == 1 && w / 0x2000_0000 % 2 == 1 ==> await_power(t, k) == send_all(
            seq![clear_sticky(), dp_write(0x8, 0), ap_write(0x0, 0x2300_0052)],
            rest,
        ),
        !(w / 0x8000_0000 == 1 && w / 0x2000_0000 % 2 == 1) ==> await_power(t, k) == await_power(
            rest,
            k + 1,
        ),
        await_power(t, 50) == RunView::<()>::Done(Err("DP power-up not acknowledged"@), t),
{
    lemma_fields(w, 0);
}

/// A word of memory: its address goes to the access port, and the word that the data
/// register gives is the result. A failed read is tried once more, with the sticky flags
/// cleared, and a second failure gives the first reason.
pub proof fn law_memory_is_read_through_the_access_port(
    addr: u32,
    t: Seq<Result<Seq<u8>, Seq<char>>>,
    w: u32,
    why: Seq<char>,
    left: Seq<Result<Seq<u8>, Seq<char>>>,
)
    ensures
        read_memory(addr, Seq::empty()) == RunView::<u32>::Send(ap_write(0x4, addr)),
        t.len() > 0 && reply_error(ap_write(0x4, addr), t[0]) is None ==> read_once(addr, t)
            == ask_word(ap_read(0xC), t.skip(1)),
        read_once(addr, t) == RunView::Done(Ok(w), left) ==> read_memory(addr, t) == RunView::Done(
            Ok(w),
            left,
        ),
        read_once(addr, t) == RunView::<u32>::Done(Err(why), left) ==> {
            &&& left.len() == 0 ==> read_memory(addr, t) == RunView::<u32>::Send(clear_sticky())
            &&& left.len() > 0 ==> {
                let again = read_once(addr, left.skip(1));
                &&& again matches RunView::Send(c) ==> read_memory(addr, t) == again
                &&& again matches RunView::Done(Ok(x), more) ==> read_memory(addr, t)
                    == RunView::Done(Ok(x), more)
                &&& again matches RunView::Done(Err(_), more) ==> read_memory(addr, t)
                    == RunView::<u32>::Done(Err(why), more)
            }
        },
{
    let cmds = seq![ap_write(0x4, addr)];
    if t.len() > 0 && reply_error(ap_write(0x4, addr), t[0]) is None {
        law_commands_are_sent_in_order(cmds, t, 1);
    }
}

/// A single-drop target is accepted at its first plain identity below version two; a
/// later version, and no answer, are tried again, up to ten times in all, before any
/// target is selected.
pub proof fn law_single_drop_is_tried_first(
    t: Seq<Result<Seq<u8>, Seq<char>>>,
    k: nat,
    last: u32,
    dpidr: u32,
    why: Seq<char>,
    left: Seq<Result<Seq<u8>, Seq<char>>>,
)
    requires
        k < 10,
        t.len() >= 4,
        forall|i: int| 0 <= i < 4 ==> reply_error(switch_to_swd()[i], #[trigger] t[i]) is None,
    ensures
        ask_word(dp_read(0x0), t.skip(4)) == RunView::Done(Ok(dpidr), left) ==> {
            &&& dpidr / 0x1000 % 16 < 2 && left.len() > 0 ==> single_drop(t, k, last)
                == RunView::Done(Ok((dpidr, false)), left.skip(1))
            &&& dpidr / 0x1000 % 16 >= 2 ==> single_drop(t, k, last) == single_drop(
                left,
                k + 1,
                dpidr,
            )
        },
        ask_word(dp_read(0x0), t.skip(4)) == RunView::<u32>::Done(Err(why), left) ==> single_drop(
            t,
            k,
            last,
        ) == single_drop(left, k + 1, last),
        single_drop(t, 10, last) == multidrop(t, 0, last, Seq::empty()),
{
    law_commands_are_sent_in_order(switch_to_swd(), t, 4);
    lemma_fields(dpidr, 0);
}

/// A selected target is accepted by the identity of an RP2040 and by no other; the next
/// attempt follows, and the fourth failure is the last.
pub proof fn law_selected_target_is_an_rp2040(
    t: Seq<Result<Seq<u8>, Seq<char>>>,
    k: nat,
    last: u32,
    errs: Seq<Seq<char>>,
    dpidr: u32,
    left: Seq<Result<Seq<u8>, Seq<char>>>,
)
    requires
        k < 4,
        try_multidrop(k >= 2, attempt_target(k), t) == RunView::Done(Ok(dpidr), left),
    ensures
        dpidr == 0x0BC1_2477 ==> multidrop(t, k, last, errs) == RunView::Done(
            Ok((dpidr, true)),
            left,
        ),
        dpidr != 0x0BC1_2477 && k == 3 ==> (multidrop(t, k, last, errs) matches RunView::Done(r, _)
            && r is Err),
        dpidr != 0x0BC1_2477 && k < 3 ==> (exists|e: Seq<char>|
            multidrop(t, k, last, errs) == #[trigger] multidrop(left, k + 1, last, errs.push(e))),
{
    reveal_with_fuel(multidrop, 2);
    let e = attempt_error(k, not_rp2040(dpidr));
    if dpidr != 0x0BC1_2477 && k < 3 {
        assert(multidrop(t, k, last, errs) == multidrop(left, k + 1, last, errs.push(e)));
    }
}

/// A failure of every attempt is told with how often the plain way was tried, with the
/// last identity that came of it, and with what came of each attempt, in order.
pub proof fn law_failures_are_told(k: nat, what: Seq<char>, last: u32, errs: Seq<Seq<char>>)
    requires
        k < 4,
    ensures
        attempt_error(k, what) == (if k < 2 {
            "reset"@
        } else {
            "dormant"@
        }) + "/"@ + hex_lower(
            if k % 2 == 0 {
                0x0100_2927
            } else {
                0x1100_2927
            },
            7,
        ) + ": "@ + what,
        not_rp2040(last) == "DPIDR 0x"@ + hex_upper(last as nat, 8) + " != RP2040"@,
        no_target(last, errs) == "no SWD target answered after "@ + decimal(10)
            + " single-drop tries (last DPIDR 0x"@ + hex_upper(last as nat, 8) + "); multidrop: "@
            + join(errs, "; "@),
{
}

} // verus!
