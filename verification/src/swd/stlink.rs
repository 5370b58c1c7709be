//! The ST-Link command protocol, as far as reading the identity of a target
//! needs it: it enters SWD and reads ID registers only — no halt, reset, erase,
//! or memory write is ever issued.
//!
//! As with CMSIS-DAP, a conversation is a function of the replies heard so far.
use vstd::prelude::*;
use vstd::string::*;
use crate::number::{decimal, hex_upper, push_decimal, push_hex_upper};
use crate::stm32::chipdb::{defs, ChipDef, ChipDefView};
use crate::swd::cmsisdap::{byte, byte_of, heard, heard_reply, rest_of, Reply, Run, RunView};
use crate::swd::{
    collect, collect_target_regs, law_bytes_of_a_word, law_collection_ends,
    law_collection_is_consistent, law_word_round_trip, le_bytes, le_u32, push_le, word_at, Collect,
    CollectView, Collected, CollectedView,
};

verus! {

pub const STLINK_CMD_SIZE: usize = 16;

pub const STLINK_GET_VERSION: u8 = 0xF1;

pub const STLINK_DEBUG_COMMAND: u8 = 0xF2;

pub const STLINK_DFU_COMMAND: u8 = 0xF3;

pub const STLINK_DFU_EXIT: u8 = 0x07;

pub const STLINK_SWIM_COMMAND: u8 = 0xF4;

pub const STLINK_SWIM_EXIT: u8 = 0x01;

pub const STLINK_GET_CURRENT_MODE: u8 = 0xF5;

pub const STLINK_GET_TARGET_VOLTAGE: u8 = 0xF7;

pub const STLINK_DEBUG_EXIT: u8 = 0x21;

pub const STLINK_DEBUG_APIV2_ENTER: u8 = 0x30;

pub const STLINK_DEBUG_APIV2_READ_IDCODES: u8 = 0x31;

pub const STLINK_DEBUG_APIV2_READDEBUGREG: u8 = 0x36;

pub const STLINK_DEBUG_ENTER_SWD: u8 = 0xA3;

pub const STLINK_JTAG_OK: u8 = 0x80;

// ── Commands ────────────────────────────────────────────────────────────
/// The bytes of a command, with zeros up to the size that every command has.
pub open spec fn command(bytes: Seq<u8>) -> Seq<u8> {
    bytes + Seq::new((STLINK_CMD_SIZE - bytes.len()) as nat, |i: int| 0u8)
}

pub open spec fn get_version_cmd() -> Seq<u8> {
    command(seq![STLINK_GET_VERSION])
}

pub open spec fn get_voltage_cmd() -> Seq<u8> {
    command(seq![STLINK_GET_TARGET_VOLTAGE])
}

pub open spec fn get_mode_cmd() -> Seq<u8> {
    command(seq![STLINK_GET_CURRENT_MODE])
}

pub open spec fn enter_swd_cmd() -> Seq<u8> {
    command(seq![STLINK_DEBUG_COMMAND, STLINK_DEBUG_APIV2_ENTER, STLINK_DEBUG_ENTER_SWD])
}

pub open spec fn read_idcodes_cmd() -> Seq<u8> {
    command(seq![STLINK_DEBUG_COMMAND, STLINK_DEBUG_APIV2_READ_IDCODES])
}

pub open spec fn read_register_cmd(addr: u32) -> Seq<u8> {
    command(seq![STLINK_DEBUG_COMMAND, STLINK_DEBUG_APIV2_READDEBUGREG] + le_bytes(addr))
}

/// The command that leaves a mode; none for a mode that needs no leaving.
pub open spec fn exit_cmd(mode: u8) -> Option<Seq<u8>> {
    if mode == 0 {
        Some(command(seq![STLINK_DFU_COMMAND, STLINK_DFU_EXIT]))
    } else if mode == 2 {
        Some(command(seq![STLINK_DEBUG_COMMAND, STLINK_DEBUG_EXIT]))
    } else if mode == 3 {
        Some(command(seq![STLINK_SWIM_COMMAND, STLINK_SWIM_EXIT]))
    } else {
        None
    }
}

/// How many bytes answer a command; an exit is not answered at all.
pub open spec fn answer_len(cmd: Seq<u8>) -> nat {
    if byte(cmd, 0) == STLINK_GET_VERSION {
        6
    } else if byte(cmd, 0) == STLINK_GET_TARGET_VOLTAGE {
        8
    } else if byte(cmd, 0) == STLINK_GET_CURRENT_MODE {
        2
    } else if byte(cmd, 0) == STLINK_DEBUG_COMMAND {
        if byte(cmd, 1) == STLINK_DEBUG_APIV2_ENTER {
            2
        } else if byte(cmd, 1) == STLINK_DEBUG_APIV2_READ_IDCODES {
            12
        } else if byte(cmd, 1) == STLINK_DEBUG_APIV2_READDEBUGREG {
            8
        } else {
            0
        }
    } else {
        0
    }
}

/// How many bytes to expect for a command; zero means that nothing is read.
pub fn reply_len(cmd: &[u8]) -> (n: usize)
    ensures
        n == answer_len(cmd@),
{
    match byte_of(cmd, 0) {
        STLINK_GET_VERSION => 6,
        STLINK_GET_TARGET_VOLTAGE => 8,
        STLINK_GET_CURRENT_MODE => 2,
        STLINK_DEBUG_COMMAND => match byte_of(cmd, 1) {
            STLINK_DEBUG_APIV2_ENTER => 2,
            STLINK_DEBUG_APIV2_READ_IDCODES => 12,
            STLINK_DEBUG_APIV2_READDEBUGREG => 8,
            _ => 0,
        },
        _ => 0,
    }
}

/// The smallest multiple of `size` that is no less than `n`.
pub open spec fn whole_packets(n: int, size: int) -> int {
    (n + size - 1) / size * size
}

/// The length of the bulk IN request for `read_len` bytes: the smallest multiple
/// of the endpoint's packet size that holds them. WinUSB rejects any other
/// length; the device answers with a short packet.
pub fn request_len(read_len: usize, in_max: usize) -> (n: usize)
    requires
        in_max > 0,
        whole_packets(read_len as int, in_max as int) <= usize::MAX,
    ensures
        n == whole_packets(read_len as int, in_max as int),
        n as int % in_max as int == 0,
        read_len <= n < read_len + in_max,
{
    let full: usize = read_len / in_max;
    let extra: usize = read_len % in_max;
    let ghost size = in_max as int;
    let ghost q = full as int;
    let ghost e = extra as int;
    assert(read_len == q * size + e && 0 <= e < size) by (nonlinear_arith)
        requires
            size > 0,
            q == read_len as int / size,
            e == read_len as int % size,
    ;
    assert((q * size) % size == 0 && (q * size + size) % size == 0) by (nonlinear_arith)
        requires
            size > 0,
    ;
    if extra == 0 {
        assert((q * size + size - 1) / size == q) by (nonlinear_arith)
            requires
                size > 0,
        ;
        read_len
    } else {
        assert((q * size + e + size - 1) / size * size == q * size + size) by (nonlinear_arith)
            requires
                0 < e < size,
        ;
        read_len - extra + in_max
    }
}

fn command_of(bytes: &[u8]) -> (c: Vec<u8>)
    requires
        bytes@.len() <= STLINK_CMD_SIZE,
    ensures
        c@ == command(bytes@),
{
    let mut c: Vec<u8> = Vec::new();
    c.extend_from_slice(bytes);
    assert(c@ =~= bytes@);
    while c.len() < STLINK_CMD_SIZE
        invariant
            bytes@.len() <= c@.len() <= STLINK_CMD_SIZE,
            c@ == command(bytes@).take(c@.len() as int),
        decreases STLINK_CMD_SIZE - c.len(),
    {
        c.push(0);
        assert(c@ =~= command(bytes@).take(c@.len() as int));
    }
    assert(c@ =~= command(bytes@));
    c
}

fn command1(a: u8) -> (c: Vec<u8>)
    ensures
        c@ == command(seq![a]),
{
    let bytes: Vec<u8> = vec![a];
    assert(bytes@ =~= seq![a]);
    command_of(bytes.as_slice())
}

fn command2(a: u8, b: u8) -> (c: Vec<u8>)
    ensures
        c@ == command(seq![a, b]),
{
    let bytes: Vec<u8> = vec![a, b];
    assert(bytes@ =~= seq![a, b]);
    command_of(bytes.as_slice())
}

// ── Single questions ────────────────────────────────────────────────────
/// One command, with a reading of the bytes that answer it.
pub open spec fn ask<X>(
    cmd: Seq<u8>,
    t: Seq<Result<Seq<u8>, Seq<char>>>,
    reading: spec_fn(Seq<u8>) -> Result<X, Seq<char>>,
) -> RunView<X> {
    if t.len() == 0 {
        RunView::Send(cmd)
    } else {
        RunView::Done(
            match t[0] {
                Ok(b) => reading(b),
                Err(e) => Err(e),
            },
            t.skip(1),
        )
    }
}

pub open spec fn version_word(b: Seq<u8>) -> u16 {
    (b[0] as u16) << 8u16 | b[1] as u16
}

/// The versions that the first two bytes give.
pub open spec fn version_text(b: Seq<u8>) -> Result<Seq<char>, Seq<char>> {
    if b.len() < 2 {
        Err("short version response ("@ + decimal(b.len()) + " bytes)"@)
    } else {
        let v = version_word(b);
        Ok(
            "ST-Link v"@ + decimal(((v >> 12u16) & 0x0F) as nat) + " JTAG/SWD v"@ + decimal(
                ((v >> 6u16) & 0x3F) as nat,
            ) + " SWIM v"@ + decimal((v & 0x3F) as nat),
        )
    }
}

/// The reference voltage in millivolts: 2400 times the reading over the factor,
/// as a 32-bit number.
pub open spec fn voltage(b: Seq<u8>) -> Result<u32, Seq<char>> {
    if b.len() < 8 {
        Err("short voltage response"@)
    } else if word_at(b, 0)->0 == 0 {
        Err("voltage divisor is zero (probe not ready)"@)
    } else {
        Ok((2400 * word_at(b, 4)->0 as u64 / word_at(b, 0)->0 as int) as u32)
    }
}

pub open spec fn status_byte(b: Seq<u8>) -> Result<u8, Seq<char>> {
    Ok(byte(b, 0))
}

pub open spec fn idcode(b: Seq<u8>) -> Result<u32, Seq<char>> {
    match word_at(b, 4) {
        Some(v) => Ok(v),
        None => Err("short idcode response"@),
    }
}

/// The word that a register read gives once its status says that it went well.
pub open spec fn register(addr: u32, b: Seq<u8>) -> Result<u32, Seq<char>> {
    if byte(b, 0) != STLINK_JTAG_OK {
        Err(
            "debug-reg read 0x"@ + hex_upper(addr as nat, 8) + " status 0x"@ + hex_upper(
                byte(b, 0) as nat,
                2,
            ),
        )
    } else {
        match word_at(b, 4) {
            Some(v) => Ok(v),
            None => Err("short debug-reg response"@),
        }
    }
}

pub open spec fn ask_version(t: Seq<Result<Seq<u8>, Seq<char>>>) -> RunView<Seq<char>> {
    ask(get_version_cmd(), t, |b: Seq<u8>| version_text(b))
}

pub open spec fn ask_voltage(t: Seq<Result<Seq<u8>, Seq<char>>>) -> RunView<u32> {
    ask(get_voltage_cmd(), t, |b: Seq<u8>| voltage(b))
}

pub open spec fn ask_idcode(t: Seq<Result<Seq<u8>, Seq<char>>>) -> RunView<u32> {
    ask(read_idcodes_cmd(), t, |b: Seq<u8>| idcode(b))
}

pub open spec fn read_register(addr: u32, t: Seq<Result<Seq<u8>, Seq<char>>>) -> RunView<u32> {
    ask(read_register_cmd(addr), t, |b: Seq<u8>| register(addr, b))
}

/// The mode the probe is in (0=DFU, 1=mass storage, 2=debug/JTAG, 3=SWIM), or
/// 0xFF where it does not say.
pub open spec fn mode_of(reply: Result<Seq<u8>, Seq<char>>) -> u8 {
    match reply {
        Ok(b) => if b.len() > 0 {
            b[0]
        } else {
            0xFF
        },
        Err(_) => 0xFF,
    }
}

/// Whatever mode the probe powered up in is left first, so that a fresh
/// ENTER_SWD is accepted; what the exit gives does not matter. The result is
/// the status byte.
pub open spec fn enter(t: Seq<Result<Seq<u8>, Seq<char>>>) -> RunView<u8> {
    if t.len() == 0 {
        RunView::Send(get_mode_cmd())
    } else {
        match exit_cmd(mode_of(t[0])) {
            Some(exit) => if t.len() == 1 {
                RunView::Send(exit)
            } else {
                ask(enter_swd_cmd(), t.skip(2), |b: Seq<u8>| status_byte(b))
            },
            None => ask(enter_swd_cmd(), t.skip(1), |b: Seq<u8>| status_byte(b)),
        }
    }
}

/// A version question: the next command, or the text and the replies left.
pub enum VersionRun<'a> {
    Send(Vec<u8>),
    Done(Result<String, String>, &'a [Reply]),
}

impl<'a> View for VersionRun<'a> {
    type V = RunView<Seq<char>>;

    open spec fn view(&self) -> RunView<Seq<char>> {
        match *self {
            VersionRun::Send(c) => RunView::Send(c@),
            VersionRun::Done(Ok(v), rest) => RunView::Done(Ok(v@), heard(rest@)),
            VersionRun::Done(Err(e), rest) => RunView::Done(Err(e@), heard(rest@)),
        }
    }
}

fn version_text_of(b: &[u8]) -> (r: Result<String, String>)
    ensures
        match r {
            Ok(s) => version_text(b@) == Ok::<Seq<char>, Seq<char>>(s@),
            Err(e) => version_text(b@) == Err::<Seq<char>, Seq<char>>(e@),
        },
{
    if b.len() < 2 {
        let mut s = "short version response (".to_string();
        push_decimal(&mut s, b.len() as u64);
        s.append(" bytes)");
        return Err(s);
    }
    let v: u16 = (b[0] as u16) << 8u16 | b[1] as u16;
    let mut s = "ST-Link v".to_string();
    push_decimal(&mut s, ((v >> 12u16) & 0x0F) as u64);
    s.append(" JTAG/SWD v");
    push_decimal(&mut s, ((v >> 6u16) & 0x3F) as u64);
    s.append(" SWIM v");
    push_decimal(&mut s, (v & 0x3F) as u64);
    Ok(s)
}

/// Probe firmware version (read-only, valid in any mode).
pub fn get_version<'a>(t: &'a [Reply]) -> (r: VersionRun<'a>)
    ensures
        r@ == ask_version(heard(t@)),
{
    if t.len() == 0 {
        return VersionRun::Send(command1(STLINK_GET_VERSION));
    }
    assert(heard(t@)[0] == heard_reply(t@[0]));
    let rest = rest_of(t);
    match &t[0] {
        Ok(b) => VersionRun::Done(version_text_of(b.as_slice()), rest),
        Err(e) => VersionRun::Done(Err(e.clone()), rest),
    }
}

fn voltage_of(b: &[u8]) -> (r: Result<u32, String>)
    ensures
        match r {
            Ok(mv) => voltage(b@) == Ok::<u32, Seq<char>>(mv),
            Err(e) => voltage(b@) == Err::<u32, Seq<char>>(e@),
        },
{
    let factor: u32 = match le_u32(b, 0) {
        Some(v) => v,
        None => {
            return Err("short voltage response".to_string());
        },
    };
    let reading: u32 = match le_u32(b, 4) {
        Some(v) => v,
        None => {
            return Err("short voltage response".to_string());
        },
    };
    if factor == 0 {
        return Err("voltage divisor is zero (probe not ready)".to_string());
    }
    Ok((2400u64 * reading as u64 / factor as u64) as u32)
}

/// Target reference voltage in millivolts (read-only ADC sample).
pub fn get_voltage_mv<'a>(t: &'a [Reply]) -> (r: Run<'a, u32>)
    ensures
        r@ == ask_voltage(heard(t@)),
{
    if t.len() == 0 {
        return Run::Send(command1(STLINK_GET_TARGET_VOLTAGE));
    }
    assert(heard(t@)[0] == heard_reply(t@[0]));
    let rest = rest_of(t);
    match &t[0] {
        Ok(b) => Run::Done(voltage_of(b.as_slice()), rest),
        Err(e) => Run::Done(Err(e.clone()), rest),
    }
}

/// Enter SWD mode, leaving the power-up mode first. A bare ST-Link/V2 often
/// enumerates in DFU mode; entering SWD without leaving it silently fails
/// (status 0x00). Gives the probe status byte (0x80 = OK). This does not halt or
/// reset the core — it only initializes the debug link.
pub fn enter_swd<'a>(t: &'a [Reply]) -> (r: Run<'a, u8>)
    ensures
        r@ == enter(heard(t@)),
{
    if t.len() == 0 {
        return Run::Send(command1(STLINK_GET_CURRENT_MODE));
    }
    assert(heard(t@)[0] == heard_reply(t@[0]));
    let mode: u8 = match &t[0] {
        Ok(b) => if b.len() > 0 {
            b[0]
        } else {
            0xFF
        },
        Err(_) => 0xFF,
    };
    let mut rest = rest_of(t);
    if mode == 0 || mode == 2 || mode == 3 {
        if rest.len() == 0 {
            return Run::Send(
                if mode == 0 {
                    command2(STLINK_DFU_COMMAND, STLINK_DFU_EXIT)
                } else if mode == 2 {
                    command2(STLINK_DEBUG_COMMAND, STLINK_DEBUG_EXIT)
                } else {
                    command2(STLINK_SWIM_COMMAND, STLINK_SWIM_EXIT)
                },
            );
        }
        rest = rest_of(rest);
        assert(heard(rest@) =~= heard(t@).skip(2));
    }
    if rest.len() == 0 {
        let bytes: Vec<u8> = vec![
            STLINK_DEBUG_COMMAND,
            STLINK_DEBUG_APIV2_ENTER,
            STLINK_DEBUG_ENTER_SWD,
        ];
        assert(bytes@ =~= seq![
            STLINK_DEBUG_COMMAND,
            STLINK_DEBUG_APIV2_ENTER,
            STLINK_DEBUG_ENTER_SWD,
        ]);
        return Run::Send(command_of(bytes.as_slice()));
    }
    assert(heard(rest@)[0] == heard_reply(rest@[0]));
    let after = rest_of(rest);
    match &rest[0] {
        Ok(b) => Run::Done(Ok(byte_of(b.as_slice(), 0)), after),
        Err(e) => Run::Done(Err(e.clone()), after),
    }
}

/// Read the DP IDCODE (DPIDR) — the first read-only target ID.
pub fn read_idcode<'a>(t: &'a [Reply]) -> (r: Run<'a, u32>)
    ensures
        r@ == ask_idcode(heard(t@)),
{
    if t.len() == 0 {
        return Run::Send(command2(STLINK_DEBUG_COMMAND, STLINK_DEBUG_APIV2_READ_IDCODES));
    }
    assert(heard(t@)[0] == heard_reply(t@[0]));
    let rest = rest_of(t);
    match &t[0] {
        Ok(b) => match le_u32(b.as_slice(), 4) {
            Some(v) => Run::Done(Ok(v), rest),
            None => Run::Done(Err("short idcode response".to_string()), rest),
        },
        Err(e) => Run::Done(Err(e.clone()), rest),
    }
}

/// Read a 32-bit debug/AP register at `addr` (read-only). The ST-Link
/// firmware drives the AHB-AP for this command, so no AP setup is needed.
pub fn read_debug_reg<'a>(addr: u32, t: &'a [Reply]) -> (r: Run<'a, u32>)
    ensures
        r@ == read_register(addr, heard(t@)),
{
    if t.len() == 0 {
        let mut bytes: Vec<u8> = vec![STLINK_DEBUG_COMMAND, STLINK_DEBUG_APIV2_READDEBUGREG];
        push_le(&mut bytes, addr);
        assert(bytes@ =~= seq![STLINK_DEBUG_COMMAND, STLINK_DEBUG_APIV2_READDEBUGREG] + le_bytes(
            addr,
        ));
        return Run::Send(command_of(bytes.as_slice()));
    }
    assert(heard(t@)[0] == heard_reply(t@[0]));
    let rest = rest_of(t);
    match &t[0] {
        Ok(b) => {
            let status: u8 = byte_of(b.as_slice(), 0);
            if status != STLINK_JTAG_OK {
                let mut s = "debug-reg read 0x".to_string();
                push_hex_upper(&mut s, addr as u64, 8);
                s.append(" status 0x");
                push_hex_upper(&mut s, status as u64, 2);
                return Run::Done(Err(s), rest);
            }
            match le_u32(b.as_slice(), 4) {
                Some(v) => Run::Done(Ok(v), rest),
                None => Run::Done(Err("short debug-reg response".to_string()), rest),
            }
        },
        Err(e) => Run::Done(Err(e.clone()), rest),
    }
}

// ── Registers ───────────────────────────────────────────────────────────
/// The collection of the identity registers, each read through the probe.
pub open spec fn read_regs(
    t: Seq<Result<Seq<u8>, Seq<char>>>,
    replies: Seq<Option<u32>>,
    db: Seq<ChipDefView>,
) -> RunView<CollectedView>
    decreases t.len(),
{
    match collect(replies, db) {
        CollectView::Done(c) => RunView::Done(Ok(c), t),
        CollectView::Read(addr) => match read_register(addr, t) {
            RunView::Send(c) => RunView::Send(c),
            RunView::Done(r, rest) => read_regs(
                rest,
                replies.push(
                    match r {
                        Ok(v) => Some(v),
                        Err(_) => None,
                    },
                ),
                db,
            ),
        },
    }
}

/// Where the collection stands: the next command, or the registers and the
/// replies that are left.
pub enum RegsRun<'a> {
    Send(Vec<u8>),
    Done(Collected, &'a [Reply]),
}

impl<'a> View for RegsRun<'a> {
    type V = RunView<CollectedView>;

    open spec fn view(&self) -> RunView<CollectedView> {
        match *self {
            RegsRun::Send(c) => RunView::Send(c@),
            RegsRun::Done(c, rest) => RunView::Done(Ok(c@), heard(rest@)),
        }
    }
}

/// After ENTER_SWD, read the read-only identity registers and resolve the chip
/// (a matching `.chip` definition in `db` wins over the built-in table).
pub fn stlink_read_regs<'a>(t: &'a [Reply], db: &[ChipDef]) -> (r: RegsRun<'a>)
    ensures
        r@ == read_regs(heard(t@), Seq::empty(), defs(db@)),
        r matches RegsRun::Done(c, _) ==> forall|a: u32| #[trigger]
            c@.regs.contains_key(a) ==> c@.regs[a].len() > 0,
{
    let mut rest = t;
    let mut replies: Vec<Option<u32>> = Vec::new();
    assert(replies@ =~= Seq::empty());
    loop
        invariant
            read_regs(heard(t@), Seq::empty(), defs(db@)) == read_regs(
                heard(rest@),
                replies@,
                defs(db@),
            ),
        decreases rest@.len(),
    {
        match collect_target_regs(replies.as_slice(), db) {
            Collect::Done(c) => {
                proof {
                    law_collection_is_consistent(replies@, defs(db@));
                }
                return RegsRun::Done(c, rest);
            },
            Collect::Read(addr) => match read_debug_reg(addr, rest) {
                Run::Send(c) => {
                    return RegsRun::Send(c);
                },
                Run::Done(Ok(v), after) => {
                    assert(heard(after@).len() == after@.len() && heard(rest@).len()
                        == rest@.len());
                    replies.push(Some(v));
                    rest = after;
                },
                Run::Done(Err(_), after) => {
                    assert(heard(after@).len() == after@.len() && heard(rest@).len()
                        == rest@.len());
                    replies.push(None);
                    rest = after;
                },
            },
        }
    }
}

// ── What holds of every conversation ────────────────────────────────────
/// A command that only asks: for the version, the voltage, the mode, the debug
/// link, the ID codes, or one register; or one that leaves a mode.
pub open spec fn is_question(cmd: Seq<u8>) -> bool {
    ||| cmd == get_version_cmd()
    ||| cmd == get_voltage_cmd()
    ||| cmd == get_mode_cmd()
    ||| cmd == enter_swd_cmd()
    ||| cmd == read_idcodes_cmd()
    ||| exists|addr: u32| cmd == #[trigger] read_register_cmd(addr)
    ||| exists|mode: u8| Some(cmd) == #[trigger] exit_cmd(mode)
}

/// Every command has the same size, and every conversation sends only questions.
pub proof fn law_only_questions_are_asked(addr: u32, t: Seq<Result<Seq<u8>, Seq<char>>>)
    ensures
        ask_version(t) matches RunView::Send(c) ==> is_question(c),
        ask_voltage(t) matches RunView::Send(c) ==> is_question(c),
        enter(t) matches RunView::Send(c) ==> is_question(c),
        ask_idcode(t) matches RunView::Send(c) ==> is_question(c),
        read_register(addr, t) matches RunView::Send(c) ==> is_question(c),
        forall|c: Seq<u8>| #[trigger] is_question(c) ==> c.len() == STLINK_CMD_SIZE,
{
    assert(read_register_cmd(addr) == read_register_cmd(addr));
}

/// Collecting the registers asks for one register at a time, at most eight.
pub proof fn law_read_regs_ends(
    t: Seq<Result<Seq<u8>, Seq<char>>>,
    replies: Seq<Option<u32>>,
    db: Seq<ChipDefView>,
)
    requires
        replies.len() <= 8,
    ensures
        match read_regs(t, replies, db) {
            RunView::Send(c) => is_question(c) && t.len() < 8 - replies.len(),
            RunView::Done(_, rest) => rest.len() <= t.len() <= rest.len() + 8 - replies.len(),
        },
    decreases t.len(),
{
    if replies.len() == 8 {
        law_collection_ends(replies, db);
    }
    match collect(replies, db) {
        CollectView::Done(_) => {},
        CollectView::Read(addr) => {
            law_only_questions_are_asked(addr, t);
            match read_register(addr, t) {
                RunView::Send(_) => {},
                RunView::Done(r, rest) => {
                    law_read_regs_ends(
                        rest,
                        replies.push(
                            match r {
                                Ok(v) => Some(v),
                                Err(_) => None,
                            },
                        ),
                        db,
                    );
                },
            }
        },
    }
}

// ── What the bytes mean ─────────────────────────────────────────────────
/// The commands, byte by byte: each has sixteen bytes and ends in zeros. A register is
/// named by the four bytes of its address, the least significant first.
pub proof fn law_commands_byte_by_byte(addr: u32)
    ensures
        get_version_cmd() == seq![0xF1u8, 0, 0, 0, 0, 0, 0, 0, 0, 0, 0, 0, 0, 0, 0, 0],
        get_voltage_cmd() == seq![0xF7u8, 0, 0, 0, 0, 0, 0, 0, 0, 0, 0, 0, 0, 0, 0, 0],
        get_mode_cmd() == seq![0xF5u8, 0, 0, 0, 0, 0, 0, 0, 0, 0, 0, 0, 0, 0, 0, 0],
        enter_swd_cmd() == seq![0xF2u8, 0x30, 0xA3, 0, 0, 0, 0, 0, 0, 0, 0, 0, 0, 0, 0, 0],
        read_idcodes_cmd() == seq![0xF2u8, 0x31, 0, 0, 0, 0, 0, 0, 0, 0, 0, 0, 0, 0, 0, 0],
        read_register_cmd(addr).len() == 16,
        read_register_cmd(addr)[0] == 0xF2,
        read_register_cmd(addr)[1] == 0x36,
        read_register_cmd(addr)[2] == addr % 0x100,
        read_register_cmd(addr)[3] == addr / 0x100 % 0x100,
        read_register_cmd(addr)[4] == addr / 0x1_0000 % 0x100,
        read_register_cmd(addr)[5] == addr / 0x100_0000,
        forall|i: int| 6 <= i < 16 ==> #[trigger] read_register_cmd(addr)[i] == 0,
{
    law_bytes_of_a_word(addr, Seq::empty(), 0);
}

/// A probe in DFU, debug or SWIM mode is told to leave it; in any other mode, and where
/// it does not say, there is nothing to leave.
pub proof fn law_modes_and_their_exits(mode: u8, i: int)
    requires
        0 <= i < 16,
    ensures
        exit_cmd(mode) is Some <==> mode == 0 || mode == 2 || mode == 3,
        exit_cmd(mode) matches Some(c) ==> {
            &&& c.len() == 16
            &&& i > 1 ==> c[i] == 0
            &&& mode == 0 ==> c[0] == 0xF3 && c[1] == 0x07
            &&& mode == 2 ==> c[0] == 0xF2 && c[1] == 0x21
            &&& mode == 3 ==> c[0] == 0xF4 && c[1] == 0x01
        },
        forall|b: Seq<u8>| b.len() > 0 ==> #[trigger] mode_of(Ok(b)) == b[0],
        forall|why: Seq<char>| exit_cmd(#[trigger] mode_of(Err(why))) is None,
        exit_cmd(mode_of(Ok(Seq::empty()))) is None,
{
}

/// How many bytes answer each command; leaving a mode is not answered.
pub proof fn law_answers_have_their_lengths(addr: u32, mode: u8)
    ensures
        answer_len(get_version_cmd()) == 6,
        answer_len(get_voltage_cmd()) == 8,
        answer_len(get_mode_cmd()) == 2,
        answer_len(enter_swd_cmd()) == 2,
        answer_len(read_idcodes_cmd()) == 12,
        answer_len(read_register_cmd(addr)) == 8,
        exit_cmd(mode) matches Some(c) ==> answer_len(c) == 0,
{
    law_commands_byte_by_byte(addr);
    law_modes_and_their_exits(mode, 0);
}

/// The versions lie in two bytes, the most significant first: four bits for the probe,
/// six for JTAG and SWD, six for SWIM.
pub proof fn law_version_fields(b: Seq<u8>)
    ensures
        b.len() >= 2 ==> version_text(b) == Ok::<Seq<char>, Seq<char>>(
            "ST-Link v"@ + decimal((b[0] / 16) as nat) + " JTAG/SWD v"@ + decimal(
                (b[0] % 16 * 4 + b[1] / 64) as nat,
            ) + " SWIM v"@ + decimal((b[1] % 64) as nat),
        ),
        b.len() < 2 ==> version_text(b) is Err,
{
    if b.len() >= 2 {
        let x = b[0];
        let y = b[1];
        let v = version_word(b);
        assert(v == (x as u16) << 8u16 | y as u16);
        assert((v >> 12u16) & 0x0F == x / 16 && (v >> 6u16) & 0x3F == x % 16 * 4 + y / 64 && v
            & 0x3F == y % 64) by (bit_vector)
            requires
                v == (x as u16) << 8u16 | y as u16,
        ;
    }
}

/// The voltage: the factor times the millivolts is 2400 times the reading, but for the
/// rest of a division. There is none without eight bytes or with a factor of zero.
pub proof fn law_voltage_is_the_reading_over_the_factor(b: Seq<u8>)
    ensures
        voltage(b) is Ok <==> b.len() >= 8 && word_at(b, 0)->0 != 0,
        voltage(b) is Ok && 2400 * word_at(b, 4)->0 < 0x1_0000_0000 * word_at(b, 0)->0 ==> {
            let factor = word_at(b, 0)->0;
            let reading = word_at(b, 4)->0;
            let mv = voltage(b)->Ok_0;
            mv * factor <= 2400 * reading < (mv + 1) * factor
        },
{
    if voltage(b) is Ok {
        let factor = word_at(b, 0)->0 as int;
        let top = 2400 * word_at(b, 4)->0;
        let q = top / factor;
        assert(q * factor <= top < (q + 1) * factor && q >= 0) by (nonlinear_arith)
            requires
                factor > 0,
                top >= 0,
                q == top / factor,
        ;
        if top < 0x1_0000_0000 * factor {
            assert(q < 0x1_0000_0000) by (nonlinear_arith)
                requires
                    q * factor <= top,
                    top < 0x1_0000_0000 * factor,
                    factor > 0,
            ;
        }
    }
}

/// A register is the second word of an answer whose first byte says that the read went
/// well, and of no other; the identity of the debug port is the second word too.
pub proof fn law_register_is_the_second_word(addr: u32, b: Seq<u8>)
    ensures
        register(addr, b) is Ok <==> b.len() >= 8 && b[0] == 0x80,
        idcode(b) is Ok <==> b.len() >= 8,
        b.len() >= 8 ==> {
            let word = b[4] + 0x100 * b[5] + 0x1_0000 * b[6] + 0x100_0000 * b[7];
            &&& idcode(b)->Ok_0 == word
            &&& b[0] == 0x80 ==> register(addr, b)->Ok_0 == word
        },
{
    law_bytes_of_a_word(0, b, 4);
}

/// SWD is entered once the mode of the probe is left: first the mode is asked for, next
/// it is left where it needs leaving, and only after that SWD is entered. The result is
/// the first byte of the last answer.
pub proof fn law_mode_is_left_before_swd_is_entered(
    mode: u8,
    first: Seq<u8>,
    gone: Result<Seq<u8>, Seq<char>>,
    answer: Seq<u8>,
    rest: Seq<Result<Seq<u8>, Seq<char>>>,
)
    requires
        first.len() > 0,
        first[0] == mode,
        answer.len() > 0,
    ensures
        enter(Seq::empty()) == RunView::<u8>::Send(get_mode_cmd()),
        exit_cmd(mode) matches Some(c) ==> {
            &&& enter(seq![Ok(first)]) == RunView::<u8>::Send(c)
            &&& enter(seq![Ok(first), gone]) == RunView::<u8>::Send(enter_swd_cmd())
            &&& enter(seq![Ok(first), gone, Ok(answer)] + rest) == RunView::Done(
                Ok(answer[0]),
                rest,
            )
        },
        exit_cmd(mode) is None ==> {
            &&& enter(seq![Ok(first)]) == RunView::<u8>::Send(enter_swd_cmd())
            &&& enter(seq![Ok(first), Ok(answer)] + rest) == RunView::Done(Ok(answer[0]), rest)
        },
{
    let a = seq![Ok::<Seq<u8>, Seq<char>>(first)];
    let b = seq![Ok::<Seq<u8>, Seq<char>>(first), gone];
    let c = seq![Ok::<Seq<u8>, Seq<char>>(first), gone, Ok(answer)] + rest;
    let d = seq![Ok::<Seq<u8>, Seq<char>>(first), Ok(answer)] + rest;
    assert(a[0] == Ok::<Seq<u8>, Seq<char>>(first) && a.skip(1).len() == 0);
    assert(b[0] == Ok::<Seq<u8>, Seq<char>>(first) && b.skip(2).len() == 0);
    assert(c[0] == Ok::<Seq<u8>, Seq<char>>(first) && c.skip(2)[0] == c[2]);
    assert(c.skip(2).skip(1) =~= rest);
    assert(d[0] == Ok::<Seq<u8>, Seq<char>>(first) && d.skip(1)[0] == d[1]);
    assert(d.skip(1).skip(1) =~= rest);
}

/// The answers that give these words, and a refusal where there is none.
pub open spec fn answers(words: Seq<Option<u32>>, why: Seq<char>) -> Seq<
    Result<Seq<u8>, Seq<char>>,
> {
    Seq::new(
        words.len(),
        |i: int|
            match words[i] {
                Some(v) => Ok(seq![0x80u8, 0, 0, 0] + le_bytes(v)),
                None => Err(why),
            },
    )
}

proof fn lemma_words_are_collected(
    words: Seq<Option<u32>>,
    why: Seq<char>,
    db: Seq<ChipDefView>,
    k: int,
)
    requires
        0 <= k <= words.len(),
        forall|i: int| 0 <= i < words.len() ==> collect(#[trigger] words.take(i), db) is Read,
        collect(words, db) is Done,
    ensures
        read_regs(answers(words, why).skip(k), words.take(k), db) == RunView::Done(
            Ok(collect(words, db)->Done_0),
            Seq::empty(),
        ),
    decreases words.len() - k,
{
    let t = answers(words, why).skip(k);
    if k == words.len() {
        assert(words.take(k) =~= words);
        assert(t =~= Seq::empty());
    } else {
        assert(collect(words.take(k), db) is Read);
        let addr = collect(words.take(k), db)->Read_0;
        assert(t[0] == answers(words, why)[k]);
        assert(t.skip(1) =~= answers(words, why).skip(k + 1));
        assert(words.take(k).push(words[k]) =~= words.take(k + 1));
        if let Some(v) = words[k] {
            let b = seq![0x80u8, 0, 0, 0] + le_bytes(v);
            law_word_round_trip(seq![0x80u8, 0, 0, 0], v, Seq::empty());
            assert(seq![0x80u8, 0, 0, 0] + le_bytes(v) + Seq::<u8>::empty() =~= b);
            assert(register(addr, b) == Ok::<u32, Seq<char>>(v));
        }
        lemma_words_are_collected(words, why, db, k + 1);
    }
}

/// The registers that are collected are the words that the probe gave, one answer for
/// one register, and a refused one is left out.
pub proof fn law_words_of_the_probe_are_collected(
    words: Seq<Option<u32>>,
    why: Seq<char>,
    db: Seq<ChipDefView>,
)
    requires
        forall|i: int| 0 <= i < words.len() ==> collect(#[trigger] words.take(i), db) is Read,
        collect(words, db) is Done,
    ensures
        read_regs(answers(words, why), Seq::empty(), db) == RunView::Done(
            Ok(collect(words, db)->Done_0),
            Seq::empty(),
        ),
{
    lemma_words_are_collected(words, why, db, 0);
    assert(answers(words, why).skip(0) =~= answers(words, why));
    assert(words.take(0) =~= Seq::empty());
}

/// What is said of an answer that is too short, or whose status is not that of success.
pub proof fn law_refused_answers_are_explained(addr: u32, b: Seq<u8>)
    ensures
        b.len() < 2 ==> version_text(b) == Err::<Seq<char>, Seq<char>>(
            "short version response ("@ + decimal(b.len()) + " bytes)"@,
        ),
        b.len() < 8 ==> voltage(b) == Err::<u32, Seq<char>>("short voltage response"@),
        b.len() >= 8 && b[0] == 0 && b[1] == 0 && b[2] == 0 && b[3] == 0 ==> voltage(b) == Err::<
            u32,
            Seq<char>,
        >("voltage divisor is zero (probe not ready)"@),
        b.len() < 8 ==> idcode(b) == Err::<u32, Seq<char>>("short idcode response"@),
        b.len() > 0 && b[0] != 0x80 ==> register(addr, b) == Err::<u32, Seq<char>>(
            "debug-reg read 0x"@ + hex_upper(addr as nat, 8) + " status 0x"@ + hex_upper(
                b[0] as nat,
                2,
            ),
        ),
        0 < b.len() < 8 && b[0] == 0x80 ==> register(addr, b) == Err::<u32, Seq<char>>(
            "short debug-reg response"@,
        ),
{
    law_bytes_of_a_word(0, b, 0);
}

} // verus!
