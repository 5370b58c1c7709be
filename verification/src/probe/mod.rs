//! The probes: each asks one tool or one descriptor about a board.
use vstd::prelude::*;
use vstd::string::*;
use crate::boards::{is_serial, tool_of, KnownBoard, ProbeKind, ProbeModel};
use crate::installer::Os;
use crate::page::{joined, push_line, push_text};
use crate::pieces::{lines, lines_of};
use crate::stlink::driver::StlinkDriver;
use crate::text::{
    chars_of, contains, ends_with, law_contains_within, same_str, starts_with, string_of, texts,
    views,
};
use crate::usb::{candidate_views, entry_views, id_pair, Candidate, CandidateView, Entry};

pub mod avr;
pub mod daplink;
pub mod dfu;
pub mod esp;
pub mod ftdi;
pub mod pico;
pub mod report;
pub mod stm32flash;

verus! {

// ── A session ───────────────────────────────────────────────────────────
/// A serial port, with the USB identity of the device behind it where it is one.
#[derive(Debug)]
pub struct SerialPort {
    pub name: String,
    pub usb: Option<(u16, u16)>,
}

/// What came of a probe.
#[derive(Debug)]
pub enum Outcome {
    /// A report that says something, as it is shown.
    Report(Vec<String>),
    /// A report without a row.
    Empty,
    /// The probe failed, for this reason.
    Failed(String),
}

pub enum OutcomeView {
    Report(Seq<Seq<char>>),
    Empty,
    Failed(Seq<char>),
}

impl View for Outcome {
    type V = OutcomeView;

    open spec fn view(&self) -> OutcomeView {
        match *self {
            Outcome::Report(page) => OutcomeView::Report(texts(page@)),
            Outcome::Empty => OutcomeView::Empty,
            Outcome::Failed(why) => OutcomeView::Failed(why@),
        }
    }
}

pub open spec fn outcome_views(v: Seq<Outcome>) -> Seq<OutcomeView> {
    Seq::new(v.len(), |i: int| v[i]@)
}

/// What comes next in a session.
#[derive(Debug)]
pub enum Next {
    /// Run this probe of this board, through this port if it needs one, and ask
    /// again with its outcome added.
    Run { board: usize, probe: usize, port: Option<String> },
    Done,
}

pub enum NextView {
    Run { board: int, probe: int, port: Option<Seq<char>> },
    Done,
}

impl View for Next {
    type V = NextView;

    open spec fn view(&self) -> NextView {
        match *self {
            Next::Run { board, probe, port } => NextView::Run {
                board: board as int,
                probe: probe as int,
                port: crate::page::shown(port),
            },
            Next::Done => NextView::Done,
        }
    }
}

/// The first port of a USB identity from `i` on.
pub open spec fn port_of(ports: Seq<SerialPort>, id: (u16, u16), i: int) -> Option<Seq<char>>
    decreases ports.len() - i,
{
    if i < 0 || i >= ports.len() {
        None
    } else if ports[i].usb == Some(id) {
        Some(ports[i].name@)
    } else {
        port_of(ports, id, i + 1)
    }
}

/// The port that a probe goes through, if it goes through one.
pub open spec fn probe_port(c: CandidateView, p: ProbeModel, ports: Seq<SerialPort>) -> Option<
    Seq<char>,
> {
    if is_serial(p) {
        port_of(ports, id_pair(c.entry.vidpid), 0)
    } else {
        None
    }
}

/// The title of a probe: a serial probe shows its port, any other identifies the
/// device by VID:PID.
pub open spec fn probe_title(c: CandidateView, p: ProbeModel, place: Seq<char>) -> Seq<char> {
    "["@ + c.entry.busid + "  "@ + c.board.name@ + "  "@ + place + "  via "@ + tool_of(p)@ + "]"@
}

/// The lines of an error: the first behind `Error:`, the others below it.
pub open spec fn error_lines(all: Seq<Seq<char>>) -> Seq<Seq<char>> {
    Seq::new(
        all.len(),
        |i: int|
            (if i == 0 {
                "  Error: "@
            } else {
                "         "@
            }) + all[i],
    )
}

pub open spec fn outcome_lines(o: OutcomeView) -> Seq<Seq<char>> {
    match o {
        OutcomeView::Report(page) => page,
        OutcomeView::Empty => seq!["  (no info parsed from output)"@],
        OutcomeView::Failed(why) => error_lines(lines(why)),
    }
}

/// What is shown, and what comes next.
pub struct Session {
    pub page: Seq<Seq<char>>,
    pub next: NextView,
}

/// The session from one probe of one board on. A single COM port carries exactly
/// one chip: once any serial probe (espflash / stm32flash / avrdude) has
/// identified it (`found`), the remaining serial probes of the board can only
/// fail, and are skipped silently. `n` outcomes are used up.
pub open spec fn session(
    boards: Seq<CandidateView>,
    ports: Seq<SerialPort>,
    outcomes: Seq<OutcomeView>,
    b: int,
    k: int,
    found: bool,
    n: int,
) -> Session
    decreases boards.len() - b, boards[b].board.probes.len() - k,
{
    if b < 0 || b >= boards.len() {
        Session { page: Seq::empty(), next: NextView::Done }
    } else if k < 0 || k >= boards[b].board.probes.len() {
        session(boards, ports, outcomes, b + 1, 0, false, n)
    } else {
        let c = boards[b];
        let p = c.board.probes[k];
        let port = probe_port(c, p, ports);
        if is_serial(p) && found {
            session(boards, ports, outcomes, b, k + 1, found, n)
        } else if is_serial(p) && port is None {
            let rest = session(boards, ports, outcomes, b, k + 1, found, n);
            Session {
                page: seq![""@, probe_title(c, p, c.entry.vidpid) + "  no COM port found"@]
                    + rest.page,
                next: rest.next,
            }
        } else {
            let head = seq![
                ""@,
                probe_title(
                    c,
                    p,
                    match port {
                        Some(name) => name,
                        None => c.entry.vidpid,
                    },
                ),
            ];
            if n < 0 || n >= outcomes.len() {
                Session { page: head, next: NextView::Run { board: b, probe: k, port } }
            } else {
                let found = found || is_serial(p) && outcomes[n] is Report;
                let rest = session(boards, ports, outcomes, b, k + 1, found, n + 1);
                Session {
                    page: head + outcome_lines(outcomes[n]) + rest.page,
                    next: rest.next,
                }
            }
        }
    }
}

/// The whole session, as far as the outcomes go.
pub open spec fn probe_session(
    boards: Seq<CandidateView>,
    ports: Seq<SerialPort>,
    outcomes: Seq<OutcomeView>,
) -> Session {
    let s = session(boards, ports, outcomes, 0, 0, false, 0);
    Session { page: seq!["=== Board Probe ==="@] + s.page, next: s.next }
}

fn find_port(ports: &Vec<SerialPort>, id: (u16, u16)) -> (r: Option<String>)
    ensures
        crate::page::shown(r) == port_of(ports@, id, 0),
{
    let mut i: usize = 0;
    while i < ports.len()
        invariant
            i <= ports@.len(),
            port_of(ports@, id, 0) == port_of(ports@, id, i as int),
        decreases ports.len() - i,
    {
        if let Some((vid, pid)) = ports[i].usb {
            if vid == id.0 && pid == id.1 {
                return Some(ports[i].name.clone());
            }
        }
        i += 1;
    }
    None
}

fn probe_title_of(e: &Entry, board: &KnownBoard, p: &ProbeKind, place: &str) -> (s: String)
    ensures
        s@ == probe_title((CandidateView { entry: e@, board: board@ }), p@, place@),
{
    let mut s = joined("[", e.busid.as_str());
    s.append("  ");
    s.append(board.name);
    s.append("  ");
    s.append(place);
    s.append("  via ");
    s.append(p.tool_name());
    s.append("]");
    s
}

fn push_error_lines(page: &mut Vec<String>, why: &str)
    ensures
        texts(final(page)@) == texts(old(page)@) + error_lines(lines(why@)),
{
    let text = chars_of(why);
    let all = lines_of(text.as_slice());
    let ghost seen = views(all@);
    let ghost before = texts(page@);
    assert(before + error_lines(seen).take(0) =~= before);
    let mut i: usize = 0;
    while i < all.len()
        invariant
            i <= all@.len(),
            seen == views(all@),
            texts(page@) == before + error_lines(seen).take(i as int),
        decreases all.len() - i,
    {
        assert(seen[i as int] == all@[i as int]@);
        push_line(
            page,
            joined(
                if i == 0 {
                    "  Error: "
                } else {
                    "         "
                },
                string_of(all[i]).as_str(),
            ),
        );
        i += 1;
        assert(texts(page@) =~= before + error_lines(seen).take(i as int));
    }
    assert(error_lines(seen).take(i as int) =~= error_lines(seen));
}

fn push_outcome(page: &mut Vec<String>, o: &Outcome)
    ensures
        texts(final(page)@) == texts(old(page)@) + outcome_lines(o@),
{
    match o {
        Outcome::Report(more) => {
            let ghost before = texts(page@);
            assert(before + texts(more@).take(0) =~= before);
            let mut i: usize = 0;
            while i < more.len()
                invariant
                    i <= more@.len(),
                    texts(page@) == before + texts(more@).take(i as int),
                decreases more.len() - i,
            {
                push_text(page, more[i].as_str());
                i += 1;
                assert(texts(page@) =~= before + texts(more@).take(i as int));
            }
            assert(texts(more@).take(i as int) =~= texts(more@));
        },
        Outcome::Empty => {
            push_text(page, "  (no info parsed from output)");
            assert(texts(page@) =~= texts(old(page)@) + outcome_lines(o@));
        },
        Outcome::Failed(why) => {
            push_error_lines(page, why.as_str());
        },
    }
}

/// The probes of the boards, one after the other. `outcomes` holds what the
/// probes gave so far; the result is the page up to this point, and the probe to
/// run next.
pub fn probe_boards(
    entries: &Vec<Entry>,
    boards: &Vec<Candidate>,
    ports: &Vec<SerialPort>,
    outcomes: &Vec<Outcome>,
) -> (r: (Vec<String>, Next))
    requires
        forall|i: int| 0 <= i < boards@.len() ==> (#[trigger] boards@[i]).entry < entries@.len(),
    ensures
        ({
            let s = probe_session(
                candidate_views(boards@, entry_views(entries@)),
                ports@,
                outcome_views(outcomes@),
            );
            texts(r.0@) == s.page && r.1@ == s.next
        }),
{
    let ghost all = candidate_views(boards@, entry_views(entries@));
    let ghost heard = outcome_views(outcomes@);
    let ghost whole = probe_session(all, ports@, heard);
    let mut page: Vec<String> = Vec::new();
    push_text(&mut page, "=== Board Probe ===");
    assert(texts(page@) =~= seq!["=== Board Probe ==="@]);
    let mut n: usize = 0;
    let mut b: usize = 0;
    while b < boards.len()
        invariant
            b <= boards@.len(),
            n <= outcomes@.len(),
            all == candidate_views(boards@, entry_views(entries@)),
            heard == outcome_views(outcomes@),
            whole == probe_session(all, ports@, heard),
            forall|i: int|
                0 <= i < boards@.len() ==> (#[trigger] boards@[i]).entry < entries@.len(),
            ({
                let rest = session(all, ports@, heard, b as int, 0, false, n as int);
                whole.page == texts(page@) + rest.page && whole.next == rest.next
            }),
        decreases boards.len() - b,
    {
        assert(boards@[b as int].entry < entries@.len());
        let entry = &entries[boards[b].entry];
        let board = &boards[b].board;
        let ghost c = all[b as int];
        assert(c == (CandidateView { entry: entry@, board: board@ }));
        let id = entry.vidpid_pair();
        let mut found = false;
        let mut k: usize = 0;
        while k < board.probes.len()
            invariant
                b < boards@.len(),
                k <= board.probes@.len(),
                n <= outcomes@.len(),
                all == candidate_views(boards@, entry_views(entries@)),
                heard == outcome_views(outcomes@),
                whole == probe_session(all, ports@, heard),
                c == all[b as int],
                c == (CandidateView { entry: entry@, board: board@ }),
                id == id_pair(c.entry.vidpid),
                ({
                    let rest = session(all, ports@, heard, b as int, k as int, found, n as int);
                    whole.page == texts(page@) + rest.page && whole.next == rest.next
                }),
            decreases board.probes.len() - k,
        {
            let p = board.probes[k];
            assert(c.board.probes[k as int] == p@);
            let ghost rest = session(all, ports@, heard, b as int, k as int, found, n as int);
            let ghost before = texts(page@);
            let serial = p.needs_serial_port();
            if serial && found {
                k += 1;
                continue;
            }
            let port = if serial {
                find_port(ports, id)
            } else {
                None
            };
            assert(crate::page::shown(port) == probe_port(c, p@, ports@));
            push_text(&mut page, "");
            if serial && port.is_none() {
                let mut title = probe_title_of(entry, board, &p, entry.vidpid.as_str());
                title.append("  no COM port found");
                push_line(&mut page, title);
                k += 1;
                assert(texts(page@) + session(
                    all,
                    ports@,
                    heard,
                    b as int,
                    k as int,
                    found,
                    n as int,
                ).page =~= before + rest.page);
                continue;
            }
            let title = match &port {
                Some(name) => probe_title_of(entry, board, &p, name.as_str()),
                None => probe_title_of(entry, board, &p, entry.vidpid.as_str()),
            };
            push_line(&mut page, title);
            if n >= outcomes.len() {
                assert(texts(page@) =~= before + rest.page);
                return (page, Next::Run { board: b, probe: k, port });
            }
            assert(heard[n as int] == outcomes@[n as int]@);
            push_outcome(&mut page, &outcomes[n]);
            if serial {
                if let Outcome::Report(_) = &outcomes[n] {
                    found = true;
                }
            }
            n += 1;
            k += 1;
            assert(texts(page@) + session(
                all,
                ports@,
                heard,
                b as int,
                k as int,
                found,
                n as int,
            ).page =~= before + rest.page);
        }
        b += 1;
    }
    assert(whole.page =~= texts(page@));
    (page, Next::Done)
}

// ── What holds of every session ─────────────────────────────────────────
/// What comes next lies at or behind the point reached, has a port exactly where
/// it is a serial probe, and is no serial probe of a board whose chip was found.
proof fn lemma_next(
    boards: Seq<CandidateView>,
    ports: Seq<SerialPort>,
    outcomes: Seq<OutcomeView>,
    b: int,
    k: int,
    found: bool,
    n: int,
)
    requires
        0 <= b,
        0 <= k,
    ensures
        session(boards, ports, outcomes, b, k, found, n).next matches NextView::Run {
            board,
            probe,
            port,
        } ==> {
            &&& b <= board < boards.len()
            &&& board == b ==> k <= probe
            &&& 0 <= probe < boards[board].board.probes.len()
            &&& port == probe_port(boards[board], boards[board].board.probes[probe], ports)
            &&& is_serial(boards[board].board.probes[probe]) == (port is Some)
            &&& board == b && found ==> port is None
        },
    decreases boards.len() - b, boards[b].board.probes.len() - k,
{
    if b < boards.len() {
        if k >= boards[b].board.probes.len() {
            lemma_next(boards, ports, outcomes, b + 1, 0, false, n);
        } else {
            let p = boards[b].board.probes[k];
            lemma_next(boards, ports, outcomes, b, k + 1, found, n);
            if 0 <= n < outcomes.len() {
                lemma_next(
                    boards,
                    ports,
                    outcomes,
                    b,
                    k + 1,
                    found || is_serial(p) && outcomes[n] is Report,
                    n + 1,
                );
            }
        }
    }
}

/// A serial probe runs only through a port of its board's own USB identity, and
/// any other probe through none.
pub proof fn law_serial_probes_have_a_port(
    boards: Seq<CandidateView>,
    ports: Seq<SerialPort>,
    outcomes: Seq<OutcomeView>,
)
    ensures
        probe_session(boards, ports, outcomes).next matches NextView::Run { board, probe, port }
            ==> {
            &&& 0 <= board < boards.len()
            &&& 0 <= probe < boards[board].board.probes.len()
            &&& is_serial(boards[board].board.probes[probe]) ==> port is Some && port == port_of(
                ports,
                id_pair(boards[board].entry.vidpid),
                0,
            )
            &&& !is_serial(boards[board].board.probes[probe]) ==> port is None
        },
{
    lemma_next(boards, ports, outcomes, 0, 0, false, 0);
}

proof fn lemma_order(
    boards: Seq<CandidateView>,
    ports: Seq<SerialPort>,
    outcomes: Seq<OutcomeView>,
    i: int,
    j: int,
    b: int,
    k: int,
    found: bool,
    n: int,
)
    requires
        0 <= b,
        0 <= k,
        0 <= n <= i < j <= outcomes.len(),
    ensures
        session(boards, ports, outcomes.take(i), b, k, found, n).next matches NextView::Run {
            board: b1,
            probe: k1,
            port: _,
        } ==> session(boards, ports, outcomes.take(j), b, k, found, n).next matches NextView::Run {
            board: b2,
            probe: k2,
            port: _,
        } ==> {
            &&& b1 < b2 || b1 == b2 && k1 < k2
            &&& b1 == b2 && outcomes[i] is Report && is_serial(boards[b1].board.probes[k1])
                ==> !is_serial(boards[b2].board.probes[k2])
        },
    decreases boards.len() - b, boards[b].board.probes.len() - k,
{
    if b < boards.len() {
        if k >= boards[b].board.probes.len() {
            lemma_order(boards, ports, outcomes, i, j, b + 1, 0, false, n);
        } else {
            let c = boards[b];
            let p = c.board.probes[k];
            let port = probe_port(c, p, ports);
            if is_serial(p) && (found || port is None) {
                lemma_order(boards, ports, outcomes, i, j, b, k + 1, found, n);
            } else {
                assert(outcomes.take(j)[n] == outcomes[n]);
                let now = found || is_serial(p) && outcomes[n] is Report;
                if n < i {
                    assert(outcomes.take(i)[n] == outcomes[n]);
                    lemma_order(boards, ports, outcomes, i, j, b, k + 1, now, n + 1);
                } else {
                    lemma_next(boards, ports, outcomes.take(j), b, k + 1, now, n + 1);
                }
            }
        }
    }
}

/// A session goes through the boards and their probes in order, none of them
/// twice; and once a serial probe of a board has reported a chip, no serial probe
/// of that board is run any more. Outcome `i` belongs to the probe that was next
/// after the outcomes before it.
pub proof fn law_a_found_chip_ends_serial_probing(
    boards: Seq<CandidateView>,
    ports: Seq<SerialPort>,
    outcomes: Seq<OutcomeView>,
    i: int,
    j: int,
)
    requires
        0 <= i < j <= outcomes.len(),
    ensures
        probe_session(boards, ports, outcomes.take(i)).next matches NextView::Run {
            board: b1,
            probe: k1,
            port: _,
        } ==> probe_session(boards, ports, outcomes.take(j)).next matches NextView::Run {
            board: b2,
            probe: k2,
            port: _,
        } ==> {
            &&& b1 < b2 || b1 == b2 && k1 < k2
            &&& b1 == b2 && outcomes[i] is Report && is_serial(boards[b1].board.probes[k1])
                ==> !is_serial(boards[b2].board.probes[k2])
        },
{
    lemma_order(boards, ports, outcomes, i, j, 0, 0, false, 0);
}

proof fn lemma_usb_probe_is_run(
    boards: Seq<CandidateView>,
    ports: Seq<SerialPort>,
    outcomes: Seq<OutcomeView>,
    at: (int, int),
    b: int,
    k: int,
    found: bool,
    n: int,
) -> (i: int)
    requires
        0 <= b <= at.0 < boards.len(),
        0 <= k,
        b == at.0 ==> k <= at.1,
        0 <= at.1 < boards[at.0].board.probes.len(),
        !is_serial(boards[at.0].board.probes[at.1]),
        0 <= n <= outcomes.len(),
        session(boards, ports, outcomes, b, k, found, n).next is Done,
    ensures
        n <= i < outcomes.len(),
        session(boards, ports, outcomes.take(i), b, k, found, n).next == (NextView::Run {
            board: at.0,
            probe: at.1,
            port: None,
        }),
    decreases boards.len() - b, boards[b].board.probes.len() - k,
{
    if k >= boards[b].board.probes.len() {
        lemma_usb_probe_is_run(boards, ports, outcomes, at, b + 1, 0, false, n)
    } else {
        let p = boards[b].board.probes[k];
        if is_serial(p) && (found || probe_port(boards[b], p, ports) is None) {
            lemma_usb_probe_is_run(boards, ports, outcomes, at, b, k + 1, found, n)
        } else if b == at.0 && k == at.1 {
            n
        } else {
            let now = found || is_serial(p) && outcomes[n] is Report;
            let i = lemma_usb_probe_is_run(boards, ports, outcomes, at, b, k + 1, now, n + 1);
            assert(outcomes.take(i)[n] == outcomes[n]);
            i
        }
    }
}

/// Every probe that needs no serial port is run: by the end of a session each of
/// them was next at some point, whatever the other probes gave.
pub proof fn law_every_usb_probe_is_run(
    boards: Seq<CandidateView>,
    ports: Seq<SerialPort>,
    outcomes: Seq<OutcomeView>,
    board: int,
    probe: int,
)
    requires
        0 <= board < boards.len(),
        0 <= probe < boards[board].board.probes.len(),
        !is_serial(boards[board].board.probes[probe]),
        probe_session(boards, ports, outcomes).next is Done,
    ensures
        exists|i: int|
            0 <= i < outcomes.len() && (#[trigger] probe_session(
                boards,
                ports,
                outcomes.take(i),
            )).next == (NextView::Run { board, probe, port: None }),
{
    let i = lemma_usb_probe_is_run(boards, ports, outcomes, (board, probe), 0, 0, false, 0);
    assert(probe_session(boards, ports, outcomes.take(i)).next == (NextView::Run {
        board,
        probe,
        port: None,
    }));
}

/// The number of probes from one board on.
pub open spec fn probes_left(boards: Seq<CandidateView>, b: int) -> nat
    decreases boards.len() - b,
{
    if b < 0 || b >= boards.len() {
        0
    } else {
        boards[b].board.probes.len() + probes_left(boards, b + 1)
    }
}

proof fn lemma_session_ends(
    boards: Seq<CandidateView>,
    ports: Seq<SerialPort>,
    outcomes: Seq<OutcomeView>,
    b: int,
    k: int,
    found: bool,
    n: int,
)
    requires
        0 <= b,
        b < boards.len() ==> 0 <= k <= boards[b].board.probes.len(),
        0 <= n,
        b < boards.len() ==> n + probes_left(boards, b) - k <= outcomes.len(),
    ensures
        session(boards, ports, outcomes, b, k, found, n).next is Done,
    decreases boards.len() - b, boards[b].board.probes.len() - k,
{
    if b < boards.len() {
        if k >= boards[b].board.probes.len() {
            lemma_session_ends(boards, ports, outcomes, b + 1, 0, false, n);
        } else {
            let p = boards[b].board.probes[k];
            if is_serial(p) && (found || probe_port(boards[b], p, ports) is None) {
                lemma_session_ends(boards, ports, outcomes, b, k + 1, found, n);
            } else {
                lemma_session_ends(
                    boards,
                    ports,
                    outcomes,
                    b,
                    k + 1,
                    found || is_serial(p) && outcomes[n] is Report,
                    n + 1,
                );
            }
        }
    }
}

/// A session ends: once there is an outcome for each probe of each board, nothing
/// is left to run.
pub proof fn law_probing_ends(
    boards: Seq<CandidateView>,
    ports: Seq<SerialPort>,
    outcomes: Seq<OutcomeView>,
)
    requires
        outcomes.len() >= probes_left(boards, 0),
    ensures
        probe_session(boards, ports, outcomes).next is Done,
{
    lemma_session_ends(boards, ports, outcomes, 0, 0, false, 0);
}

proof fn lemma_page_grows(
    boards: Seq<CandidateView>,
    ports: Seq<SerialPort>,
    outcomes: Seq<OutcomeView>,
    more: OutcomeView,
    b: int,
    k: int,
    found: bool,
    n: int,
)
    requires
        0 <= n <= outcomes.len(),
    ensures
        session(boards, ports, outcomes, b, k, found, n).page.is_prefix_of(
            session(boards, ports, outcomes.push(more), b, k, found, n).page,
        ),
    decreases boards.len() - b, boards[b].board.probes.len() - k,
{
    let short = session(boards, ports, outcomes, b, k, found, n);
    let long = session(boards, ports, outcomes.push(more), b, k, found, n);
    if 0 <= b < boards.len() {
        if k < 0 || k >= boards[b].board.probes.len() {
            lemma_page_grows(boards, ports, outcomes, more, b + 1, 0, false, n);
        } else {
            let p = boards[b].board.probes[k];
            if is_serial(p) && (found || probe_port(boards[b], p, ports) is None) {
                lemma_page_grows(boards, ports, outcomes, more, b, k + 1, found, n);
            } else if n < outcomes.len() {
                assert(outcomes.push(more)[n] == outcomes[n]);
                lemma_page_grows(
                    boards,
                    ports,
                    outcomes,
                    more,
                    b,
                    k + 1,
                    found || is_serial(p) && outcomes[n] is Report,
                    n + 1,
                );
            }
        }
    }
    assert(short.page =~= long.page.subrange(0, short.page.len() as int));
}

/// One outcome more only adds lines to the page: what was shown stands.
pub proof fn law_the_page_only_grows(
    boards: Seq<CandidateView>,
    ports: Seq<SerialPort>,
    outcomes: Seq<OutcomeView>,
    more: OutcomeView,
)
    ensures
        probe_session(boards, ports, outcomes).page.is_prefix_of(
            probe_session(boards, ports, outcomes.push(more)).page,
        ),
{
    lemma_page_grows(boards, ports, outcomes, more, 0, 0, false, 0);
    let short = probe_session(boards, ports, outcomes).page;
    let long = probe_session(boards, ports, outcomes.push(more)).page;
    assert(short =~= long.subrange(0, short.len() as int));
}

// ── Suggestions ─────────────────────────────────────────────────────────
/// Something to install: what it is, and the command for it.
pub type Suggestion = (Seq<char>, Seq<char>);

pub open spec fn suggestion_view(s: Option<(&'static str, String)>) -> Option<Suggestion> {
    match s {
        Some((what, command)) => Some((what@, command@)),
        None => None,
    }
}

pub open spec fn suggestion_views(v: Seq<(&'static str, String)>) -> Seq<Suggestion> {
    Seq::new(v.len(), |i: int| (v[i].0@, v[i].1@))
}

/// The driver that the device of an identity needs, given what its debug
/// interface is bound to.
pub open spec fn driver_advised(vid: u16, pid: u16, bound: Option<StlinkDriver>) -> Option<
    Suggestion,
> {
    if vid == 0x0483 && 0x3748 <= pid <= 0x3757 {
        if bound matches Some(StlinkDriver::WinUsb) {
            None
        } else {
            Some(
                (
                    "WinUSB on the ST-Link MI_00 debug interface"@,
                    "usbipd-rs --install-driver --confirm   (run in an Administrator shell)"@,
                ),
            )
        }
    } else if vid == 0x0483 && pid == 0xdf11 {
        Some(("WinUSB for the STM32 DFU bootloader (Zadig)"@, "usbipd-rs --install zadig"@))
    } else if vid == 0x1a86 {
        Some(("WCH CH340 / CH9102 USB-serial driver"@, "usbipd-rs --install ch340"@))
    } else if vid == 0x10c4 {
        Some(("Silicon Labs CP210x VCP driver"@, "usbipd-rs --install cp210x"@))
    } else if vid == 0x0403 {
        Some(("FTDI VCP driver"@, "usbipd-rs --install ftdi"@))
    } else if vid == 0x2e8a {
        Some(("WinUSB on the RP2 BOOTSEL interface (Zadig)"@, "usbipd-rs --install zadig"@))
    } else {
        None
    }
}

/// The driver a detected board needs so the host can talk to it (Windows only;
/// other systems ship kernel modules or use udev rules): what it is, and the
/// install command. `bound` is what the debug interface of an ST-Link is bound
/// to; one that is bound to WinUSB needs nothing.
pub fn driver_suggestion(vid: u16, pid: u16, bound: &Option<StlinkDriver>) -> (r: Option<
    (&'static str, String),
>)
    ensures
        suggestion_view(r) == driver_advised(vid, pid, *bound),
{
    if vid == 0x0483 && 0x3748 <= pid && pid <= 0x3757 {
        match bound {
            Some(StlinkDriver::WinUsb) => None,
            _ => Some(
                (
                    "WinUSB on the ST-Link MI_00 debug interface",
                    "usbipd-rs --install-driver --confirm   (run in an Administrator shell)".to_string(),
                ),
            ),
        }
    } else if vid == 0x0483 && pid == 0xdf11 {
        Some(
            (
                "WinUSB for the STM32 DFU bootloader (Zadig)",
                "usbipd-rs --install zadig".to_string(),
            ),
        )
    } else if vid == 0x1a86 {
        Some(("WCH CH340 / CH9102 USB-serial driver", "usbipd-rs --install ch340".to_string()))
    } else if vid == 0x10c4 {
        Some(("Silicon Labs CP210x VCP driver", "usbipd-rs --install cp210x".to_string()))
    } else if vid == 0x0403 {
        Some(("FTDI VCP driver", "usbipd-rs --install ftdi".to_string()))
    } else if vid == 0x2e8a {
        Some(
            (
                "WinUSB on the RP2 BOOTSEL interface (Zadig)",
                "usbipd-rs --install zadig".to_string(),
            ),
        )
    } else {
        None
    }
}

/// The flashing tool for a probe kind. FTDI is a descriptor-only probe: nothing is
/// flashed through it.
pub open spec fn flasher_for(p: ProbeModel) -> Option<Suggestion> {
    match p {
        ProbeModel::Ftdi => None,
        ProbeModel::Espflash => Some(
            ("espflash — ESP flashing & board-info (Rust)"@, "cargo install espflash"@),
        ),
        ProbeModel::Avrdude { .. } => Some(
            ("ravedude — AVR `cargo run` flasher (Rust)"@, "cargo install ravedude"@),
        ),
        _ => Some(
            ("probe-rs — SWD/JTAG flash & debug (Rust)"@, "cargo install probe-rs-tools"@),
        ),
    }
}

/// The tool for the first of the probes from `i` on that flashes.
pub open spec fn flasher_advised(probes: Seq<ProbeModel>, i: int) -> Option<Suggestion>
    decreases probes.len() - i,
{
    if i < 0 || i >= probes.len() {
        None
    } else if flasher_for(probes[i]) is Some {
        flasher_for(probes[i])
    } else {
        flasher_advised(probes, i + 1)
    }
}

/// The Rust-based flashing tool that fits a detected board, chosen by its first
/// probe kind that flashes: what it is, and the `cargo install` command.
pub fn flasher_suggestion(board: &KnownBoard) -> (r: Option<(&'static str, String)>)
    ensures
        suggestion_view(r) == flasher_advised(board@.probes, 0),
{
    let mut i: usize = 0;
    while i < board.probes.len()
        invariant
            i <= board.probes@.len(),
            flasher_advised(board@.probes, 0) == flasher_advised(board@.probes, i as int),
        decreases board.probes.len() - i,
    {
        let p = board.probes[i];
        assert(board@.probes[i as int] == p@);
        match p {
            ProbeKind::Ftdi => {},
            ProbeKind::Espflash => {
                return Some(
                    (
                        "espflash — ESP flashing & board-info (Rust)",
                        "cargo install espflash".to_string(),
                    ),
                );
            },
            ProbeKind::Avrdude { .. } => {
                return Some(
                    (
                        "ravedude — AVR `cargo run` flasher (Rust)",
                        "cargo install ravedude".to_string(),
                    ),
                );
            },
            _ => {
                return Some(
                    (
                        "probe-rs — SWD/JTAG flash & debug (Rust)",
                        "cargo install probe-rs-tools".to_string(),
                    ),
                );
            },
        }
        i += 1;
    }
    None
}

/// A command is among the suggestions.
pub open spec fn suggested(list: Seq<Suggestion>, command: Seq<char>) -> bool {
    exists|i: int| 0 <= i < list.len() && (#[trigger] list[i]).1 == command
}

/// The list with a suggestion more, unless its command is there already.
pub open spec fn with_suggestion(list: Seq<Suggestion>, s: Option<Suggestion>) -> Seq<Suggestion> {
    match s {
        Some(s) => if suggested(list, s.1) {
            list
        } else {
            list.push(s)
        },
        None => list,
    }
}

/// The flashing tools for the first `n` boards.
pub open spec fn flashers(boards: Seq<CandidateView>, n: nat) -> Seq<Suggestion>
    decreases n,
{
    if n == 0 {
        Seq::empty()
    } else {
        with_suggestion(
            flashers(boards, (n - 1) as nat),
            flasher_advised(boards[n - 1].board.probes, 0),
        )
    }
}

/// The drivers for the first `n` boards.
pub open spec fn drivers(
    boards: Seq<CandidateView>,
    bound: Seq<Option<StlinkDriver>>,
    n: nat,
) -> Seq<Suggestion>
    decreases n,
{
    if n == 0 {
        Seq::empty()
    } else {
        let id = id_pair(boards[n - 1].entry.vidpid);
        with_suggestion(
            drivers(boards, bound, (n - 1) as nat),
            driver_advised(id.0, id.1, bound[n - 1]),
        )
    }
}

/// The lines of the first `n` suggestions.
pub open spec fn suggestion_lines(list: Seq<Suggestion>, n: nat) -> Seq<Seq<char>>
    decreases n,
{
    if n == 0 {
        Seq::empty()
    } else {
        suggestion_lines(list, (n - 1) as nat) + seq![
            "   - "@ + list[n - 1].0,
            "       "@ + list[n - 1].1,
        ]
    }
}

/// The suggestions, or what is said where there are none.
pub open spec fn suggestion_part(list: Seq<Suggestion>, otherwise: Seq<char>) -> Seq<Seq<char>> {
    if list.len() == 0 {
        seq![otherwise]
    } else {
        suggestion_lines(list, list.len())
    }
}

pub open spec fn driver_part(
    boards: Seq<CandidateView>,
    bound: Seq<Option<StlinkDriver>>,
    os: Os,
) -> Seq<Seq<char>> {
    if os == Os::Windows {
        suggestion_part(
            drivers(boards, bound, boards.len()),
            "   - detected board(s) already have a working driver."@,
        )
    } else {
        seq![
            "   - no Windows-style driver needed on this OS (kernel modules are built in)."@,
            "     For SWD probes, ensure udev rules / group permissions allow USB access."@,
        ]
    }
}

pub open spec fn suggestions_page(
    boards: Seq<CandidateView>,
    bound: Seq<Option<StlinkDriver>>,
    os: Os,
) -> Seq<Seq<char>> {
    seq![
        ""@,
        "=== Suggested installs ==="@,
        "1. Driver — let the host talk to the board:"@,
    ] + driver_part(boards, bound, os) + seq!["2. Rust flashing tool:"@] + suggestion_part(
        flashers(boards, boards.len()),
        "   - no Rust flasher mapping for the detected board(s)."@,
    )
}

fn push_suggestion(list: &mut Vec<(&'static str, String)>, s: Option<(&'static str, String)>)
    ensures
        suggestion_views(final(list)@) == with_suggestion(
            suggestion_views(old(list)@),
            suggestion_view(s),
        ),
{
    if let Some(one) = s {
        let ghost seen = suggestion_views(list@);
        let mut i: usize = 0;
        while i < list.len()
            invariant
                i <= list@.len(),
                list@ == old(list)@,
                seen == suggestion_views(list@),
                suggestion_view(s) == Some((one.0@, one.1@)),
                forall|j: int| 0 <= j < i ==> (#[trigger] seen[j]).1 != one.1@,
            decreases list.len() - i,
        {
            if same_str(list[i].1.as_str(), one.1.as_str()) {
                assert(seen[i as int].1 == one.1@);
                return;
            }
            i += 1;
        }
        list.push(one);
        assert(suggestion_views(list@) =~= seen.push((one.0@, one.1@)));
    }
}

fn push_suggestions(page: &mut Vec<String>, list: &Vec<(&'static str, String)>, otherwise: &str)
    ensures
        texts(final(page)@) == texts(old(page)@) + suggestion_part(
            suggestion_views(list@),
            otherwise@,
        ),
{
    let ghost before = texts(page@);
    let ghost all = suggestion_views(list@);
    if list.len() == 0 {
        push_text(page, otherwise);
        assert(texts(page@) =~= before + seq![otherwise@]);
        return;
    }
    assert(before + suggestion_lines(all, 0) =~= before);
    let mut i: usize = 0;
    while i < list.len()
        invariant
            i <= list@.len(),
            all == suggestion_views(list@),
            texts(page@) == before + suggestion_lines(all, i as nat),
        decreases list.len() - i,
    {
        push_line(page, joined("   - ", list[i].0));
        push_line(page, joined("       ", list[i].1.as_str()));
        i += 1;
        assert(texts(page@) =~= before + suggestion_lines(all, i as nat));
    }
}

/// What a user typically still needs after the probes: the driver so the host can
/// reach the board, and a Rust flashing tool. `bound` holds, for each board, what
/// the debug interface of an ST-Link is bound to.
pub fn print_probe_install_suggestions(
    entries: &Vec<Entry>,
    boards: &Vec<Candidate>,
    bound: &Vec<Option<StlinkDriver>>,
    os: Os,
) -> (page: Vec<String>)
    requires
        bound@.len() == boards@.len(),
        forall|i: int| 0 <= i < boards@.len() ==> (#[trigger] boards@[i]).entry < entries@.len(),
    ensures
        texts(page@) == suggestions_page(
            candidate_views(boards@, entry_views(entries@)),
            bound@,
            os,
        ),
{
    let ghost all = candidate_views(boards@, entry_views(entries@));
    let mut flash: Vec<(&'static str, String)> = Vec::new();
    let mut drive: Vec<(&'static str, String)> = Vec::new();
    assert(suggestion_views(flash@) =~= flashers(all, 0));
    let mut i: usize = 0;
    while i < boards.len()
        invariant
            i <= boards@.len(),
            bound@.len() == boards@.len(),
            forall|i: int|
                0 <= i < boards@.len() ==> (#[trigger] boards@[i]).entry < entries@.len(),
            all == candidate_views(boards@, entry_views(entries@)),
            suggestion_views(flash@) == flashers(all, i as nat),
            suggestion_views(drive@) == drivers(all, bound@, i as nat),
        decreases boards.len() - i,
    {
        assert(boards@[i as int].entry < entries@.len());
        let entry = &entries[boards[i].entry];
        assert(all[i as int] == (CandidateView { entry: entry@, board: boards@[i as int].board@ }));
        push_suggestion(&mut flash, flasher_suggestion(&boards[i].board));
        let id = entry.vidpid_pair();
        push_suggestion(&mut drive, driver_suggestion(id.0, id.1, &bound[i]));
        i += 1;
    }
    let mut page: Vec<String> = Vec::new();
    push_text(&mut page, "");
    push_text(&mut page, "=== Suggested installs ===");
    push_text(&mut page, "1. Driver — let the host talk to the board:");
    match os {
        Os::Windows => {
            push_suggestions(
                &mut page,
                &drive,
                "   - detected board(s) already have a working driver.",
            );
        },
        _ => {
            push_text(
                &mut page,
                "   - no Windows-style driver needed on this OS (kernel modules are built in).",
            );
            push_text(
                &mut page,
                "     For SWD probes, ensure udev rules / group permissions allow USB access.",
            );
        },
    }
    let ghost head = seq![
        ""@,
        "=== Suggested installs ==="@,
        "1. Driver — let the host talk to the board:"@,
    ] + driver_part(all, bound@, os);
    assert(texts(page@) =~= head);
    push_text(&mut page, "2. Rust flashing tool:");
    assert(texts(page@) =~= head + seq!["2. Rust flashing tool:"@]);
    push_suggestions(
        &mut page,
        &flash,
        "   - no Rust flasher mapping for the detected board(s).",
    );
    page
}

/// No command is suggested twice, whatever the boards.
pub proof fn law_no_command_is_suggested_twice(
    boards: Seq<CandidateView>,
    bound: Seq<Option<StlinkDriver>>,
    n: nat,
)
    ensures
        forall|i: int, j: int|
            0 <= i < j < flashers(boards, n).len() ==> flashers(boards, n)[i].1 != flashers(
                boards,
                n,
            )[j].1,
        forall|i: int, j: int|
            0 <= i < j < drivers(boards, bound, n).len() ==> drivers(boards, bound, n)[i].1
                != drivers(boards, bound, n)[j].1,
    decreases n,
{
    if n > 0 {
        law_no_command_is_suggested_twice(boards, bound, (n - 1) as nat);
        assert forall|i: int, j: int|
            0 <= i < j < drivers(boards, bound, n).len() implies drivers(boards, bound, n)[i].1
            != drivers(boards, bound, n)[j].1 by {
            let before = drivers(boards, bound, (n - 1) as nat);
            assert(i < before.len());
            assert(drivers(boards, bound, n)[i] == before[i]);
        }
        assert forall|i: int, j: int|
            0 <= i < j < flashers(boards, n).len() implies flashers(boards, n)[i].1 != flashers(
            boards,
            n,
        )[j].1 by {
            let before = flashers(boards, (n - 1) as nat);
            assert(i < before.len());
            assert(flashers(boards, n)[i] == before[i]);
        }
    }
}

// ── What is run, shown and suggested ────────────────────────────────────
/// The port of a device is the first one with its USB identity.
pub proof fn law_first_port_of_the_device(ports: Seq<SerialPort>, id: (u16, u16), i: int, k: int)
    requires
        0 <= i <= k <= ports.len(),
        forall|j: int| i <= j < k ==> (#[trigger] ports[j]).usb != Some(id),
        k < ports.len() ==> ports[k].usb == Some(id),
    ensures
        k < ports.len() ==> port_of(ports, id, i) == Some(ports[k].name@),
        k == ports.len() ==> port_of(ports, id, i) is None,
    decreases k - i,
{
    if i < k {
        assert(ports[i].usb != Some(id));
        law_first_port_of_the_device(ports, id, i + 1, k);
    }
}

proof fn lemma_serial_probe_is_run(
    boards: Seq<CandidateView>,
    ports: Seq<SerialPort>,
    outcomes: Seq<OutcomeView>,
    at: (int, int),
    b: int,
    k: int,
    found: bool,
    n: int,
) -> (i: int)
    requires
        0 <= b <= at.0 < boards.len(),
        0 <= k,
        b == at.0 ==> k <= at.1 && !found,
        0 <= at.1 < boards[at.0].board.probes.len(),
        is_serial(boards[at.0].board.probes[at.1]),
        probe_port(boards[at.0], boards[at.0].board.probes[at.1], ports) is Some,
        0 <= n <= outcomes.len(),
        session(boards, ports, outcomes, b, k, found, n).next is Done,
    ensures
        n <= i < outcomes.len(),
        session(boards, ports, outcomes.take(i), b, k, found, n).next matches NextView::Run {
            board,
            probe,
            port: _,
        } && board == at.0 && (probe == at.1 || probe < at.1 && outcomes[i] is Report && is_serial(
            boards[at.0].board.probes[probe],
        )),
    decreases boards.len() - b, boards[b].board.probes.len() - k,
{
    if k >= boards[b].board.probes.len() {
        lemma_serial_probe_is_run(boards, ports, outcomes, at, b + 1, 0, false, n)
    } else {
        let p = boards[b].board.probes[k];
        if is_serial(p) && (found || probe_port(boards[b], p, ports) is None) {
            lemma_serial_probe_is_run(boards, ports, outcomes, at, b, k + 1, found, n)
        } else if b == at.0 && (k == at.1 || is_serial(p) && outcomes[n] is Report) {
            n
        } else {
            let now = found || is_serial(p) && outcomes[n] is Report;
            let i = lemma_serial_probe_is_run(boards, ports, outcomes, at, b, k + 1, now, n + 1);
            assert(outcomes.take(i)[n] == outcomes[n]);
            i
        }
    }
}

/// A serial probe whose board has a port is left out only where an earlier serial probe of
/// the board reported a chip: by the end of a session it was run, or such a one was.
pub proof fn law_serial_probes_are_run_until_a_chip_is_found(
    boards: Seq<CandidateView>,
    ports: Seq<SerialPort>,
    outcomes: Seq<OutcomeView>,
    board: int,
    probe: int,
)
    requires
        0 <= board < boards.len(),
        0 <= probe < boards[board].board.probes.len(),
        is_serial(boards[board].board.probes[probe]),
        port_of(ports, id_pair(boards[board].entry.vidpid), 0) is Some,
        probe_session(boards, ports, outcomes).next is Done,
    ensures
        exists|i: int|
            0 <= i < outcomes.len() && ((#[trigger] probe_session(
                boards,
                ports,
                outcomes.take(i),
            )).next matches NextView::Run { board: b, probe: k, port: _ } && b == board && (k
                == probe || k < probe && outcomes[i] is Report && is_serial(
                boards[board].board.probes[k],
            ))),
{
    let i = lemma_serial_probe_is_run(boards, ports, outcomes, (board, probe), 0, 0, false, 0);
    assert(probe_session(boards, ports, outcomes.take(i)).next is Run);
}

/// The title of the probe that is run next.
pub open spec fn last_title(boards: Seq<CandidateView>, next: NextView) -> Seq<char> {
    match next {
        NextView::Run { board, probe, port } => probe_title(
            boards[board],
            boards[board].board.probes[probe],
            match port {
                Some(name) => name,
                None => boards[board].entry.vidpid,
            },
        ),
        NextView::Done => Seq::empty(),
    }
}

/// What is put before two texts of which one begins the other leaves it so.
proof fn lemma_behind_a_head(
    head: Seq<Seq<char>>,
    inner: Seq<Seq<char>>,
    shown: Seq<Seq<char>>,
    more: Seq<Seq<char>>,
)
    requires
        (inner + shown).is_prefix_of(more),
        inner.len() > 0,
    ensures
        (head + inner + shown).is_prefix_of(head + more),
        (head + inner).last() == inner.last(),
{
    let part = inner + shown;
    let whole = head + inner + shown;
    let all = head + more;
    assert(part =~= more.subrange(0, part.len() as int));
    assert forall|i: int| 0 <= i < whole.len() implies whole[i] == all[i] by {
        if i >= head.len() {
            assert(whole[i] == part[i - head.len()]);
            assert(part[i - head.len()] == more.subrange(0, part.len() as int)[i - head.len()]);
        }
    }
    assert(whole =~= all.subrange(0, whole.len() as int));
}

proof fn lemma_outcome_is_shown(
    boards: Seq<CandidateView>,
    ports: Seq<SerialPort>,
    outcomes: Seq<OutcomeView>,
    o: OutcomeView,
    b: int,
    k: int,
    found: bool,
    n: int,
)
    requires
        0 <= n <= outcomes.len(),
        session(boards, ports, outcomes, b, k, found, n).next is Run,
    ensures
        session(boards, ports, outcomes, b, k, found, n).page.len() > 0,
        session(boards, ports, outcomes, b, k, found, n).page.last() == last_title(
            boards,
            session(boards, ports, outcomes, b, k, found, n).next,
        ),
        (session(boards, ports, outcomes, b, k, found, n).page + outcome_lines(o)).is_prefix_of(
            session(boards, ports, outcomes.push(o), b, k, found, n).page,
        ),
    decreases boards.len() - b, boards[b].board.probes.len() - k,
{
    let s = session(boards, ports, outcomes, b, k, found, n);
    let t = session(boards, ports, outcomes.push(o), b, k, found, n);
    let shown = s.page + outcome_lines(o);
    if 0 <= b < boards.len() {
        if k < 0 || k >= boards[b].board.probes.len() {
            lemma_outcome_is_shown(boards, ports, outcomes, o, b + 1, 0, false, n);
        } else {
            let p = boards[b].board.probes[k];
            if is_serial(p) && (found || probe_port(boards[b], p, ports) is None) {
                lemma_outcome_is_shown(boards, ports, outcomes, o, b, k + 1, found, n);
                let inner = session(boards, ports, outcomes, b, k + 1, found, n).page;
                let more = session(boards, ports, outcomes.push(o), b, k + 1, found, n).page;
                if !found {
                    lemma_behind_a_head(
                        seq![
                            ""@,
                            probe_title(boards[b], p, boards[b].entry.vidpid)
                                + "  no COM port found"@,
                        ],
                        inner,
                        outcome_lines(o),
                        more,
                    );
                }
                assert(shown.is_prefix_of(t.page));
            } else if n < outcomes.len() {
                assert(outcomes.push(o)[n] == outcomes[n]);
                let now = found || is_serial(p) && outcomes[n] is Report;
                lemma_outcome_is_shown(boards, ports, outcomes, o, b, k + 1, now, n + 1);
                let inner = session(boards, ports, outcomes, b, k + 1, now, n + 1).page;
                let more = session(boards, ports, outcomes.push(o), b, k + 1, now, n + 1).page;
                let place = match probe_port(boards[b], p, ports) {
                    Some(name) => name,
                    None => boards[b].entry.vidpid,
                };
                let head = seq![""@, probe_title(boards[b], p, place)] + outcome_lines(outcomes[n]);
                lemma_behind_a_head(head, inner, outcome_lines(o), more);
                assert(s.page == head + inner);
                assert(t.page == head + more);
            } else {
                let now = found || is_serial(p) && o is Report;
                let rest = session(boards, ports, outcomes.push(o), b, k + 1, now, n + 1).page;
                assert(outcomes.push(o)[n] == o);
                assert(t.page == shown + rest);
                assert(shown.len() <= t.page.len());
                assert(shown =~= t.page.subrange(0, shown.len() as int));
                assert(shown.is_prefix_of(t.page));
            }
        }
    }
}

/// What is shown of a probe: its title, where the page stood while it ran, and right
/// behind it what came of it.
pub proof fn law_outcomes_are_shown_below_their_titles(
    boards: Seq<CandidateView>,
    ports: Seq<SerialPort>,
    outcomes: Seq<OutcomeView>,
    o: OutcomeView,
)
    requires
        probe_session(boards, ports, outcomes).next is Run,
    ensures
        ({
            let s = probe_session(boards, ports, outcomes);
            &&& s.page.last() == last_title(boards, s.next)
            &&& (s.page + outcome_lines(o)).is_prefix_of(
                probe_session(boards, ports, outcomes.push(o)).page,
            )
        }),
{
    lemma_outcome_is_shown(boards, ports, outcomes, o, 0, 0, false, 0);
    let s = probe_session(boards, ports, outcomes);
    let inner = session(boards, ports, outcomes, 0, 0, false, 0);
    let t = probe_session(boards, ports, outcomes.push(o)).page;
    assert(s.page.last() == inner.page.last());
    let shown = s.page + outcome_lines(o);
    let part = session(boards, ports, outcomes.push(o), 0, 0, false, 0).page;
    let sub = inner.page + outcome_lines(o);
    assert(sub =~= part.subrange(0, sub.len() as int));
    assert forall|i: int| 0 <= i < shown.len() implies shown[i] == t[i] by {
        if i > 0 {
            assert(shown[i] == sub[i - 1]);
            assert(sub[i - 1] == part.subrange(0, sub.len() as int)[i - 1]);
        }
    }
    assert(shown =~= t.subrange(0, shown.len() as int));
}

/// A title names the bus id, the board, the place and the tool.
pub proof fn law_titles(c: CandidateView, p: ProbeModel, place: Seq<char>)
    ensures
        ({
            let t = probe_title(c, p, place);
            &&& starts_with(t, "["@ + c.entry.busid)
            &&& contains(t, "  "@ + c.board.name@ + "  "@ + place + "  via "@)
            &&& ends_with(t, tool_of(p)@ + "]"@)
        }),
{
    let t = probe_title(c, p, place);
    let a = "["@ + c.entry.busid;
    let m = "  "@ + c.board.name@ + "  "@ + place + "  via "@;
    let z = tool_of(p)@ + "]"@;
    assert(t =~= a + m + z);
    law_contains_within(a, m, z);
    assert(t.take(a.len() as int) =~= a);
    assert(t.skip(t.len() - z.len()) =~= z);
}

/// An error is shown line by line, each whole, the first of them marked.
pub proof fn law_errors_are_shown_line_by_line(why: Seq<char>)
    ensures
        ({
            let shown = outcome_lines(OutcomeView::Failed(why));
            let all = lines(why);
            &&& shown.len() == all.len()
            &&& forall|i: int|
                0 <= i < all.len() ==> (#[trigger] shown[i]).len() == all[i].len() + 9
                    && shown[i].skip(9) == all[i]
            &&& all.len() > 0 ==> starts_with(shown[0], "  Error: "@)
        }),
{
    reveal_strlit("  Error: ");
    reveal_strlit("         ");
    let shown = outcome_lines(OutcomeView::Failed(why));
    let all = lines(why);
    assert forall|i: int| 0 <= i < all.len() implies (#[trigger] shown[i]).len() == all[i].len() + 9
        && shown[i].skip(9) == all[i] by {
        assert(shown[i].skip(9) =~= all[i]);
    }
    if all.len() > 0 {
        assert(shown[0].take(9) =~= "  Error: "@);
    }
}

/// The driver for each maker's devices. An ST-Link needs one unless its debug interface is
/// bound to WinUSB already.
pub proof fn law_drivers_by_identity(vid: u16, pid: u16, bound: Option<StlinkDriver>)
    ensures
        ({
            let d = driver_advised(vid, pid, bound);
            let stlink = vid == 0x0483 && 0x3748 <= pid <= 0x3757;
            let dfu = vid == 0x0483 && pid == 0xdf11;
            &&& stlink ==> (d is None <==> bound is Some && bound->0 is WinUsb)
            &&& stlink && d is Some ==> (d->0).1
                == "usbipd-rs --install-driver --confirm   (run in an Administrator shell)"@
            &&& dfu || vid == 0x2e8a ==> d is Some && (d->0).1 == "usbipd-rs --install zadig"@
            &&& vid == 0x1a86 ==> d is Some && (d->0).1 == "usbipd-rs --install ch340"@
            &&& vid == 0x10c4 ==> d is Some && (d->0).1 == "usbipd-rs --install cp210x"@
            &&& vid == 0x0403 ==> d is Some && (d->0).1 == "usbipd-rs --install ftdi"@
            &&& !stlink && !dfu && vid != 0x2e8a && vid != 0x1a86 && vid != 0x10c4 && vid != 0x0403
                ==> d is None
        }),
{
}

/// The flashing tool is that of the first probe through which something is flashed: a
/// descriptor probe is passed over, an ESP or AVR probe has the tool of its family, and any
/// other goes over SWD.
pub proof fn law_flashers_by_probe(probes: Seq<ProbeModel>, i: int, k: int)
    requires
        0 <= i <= k <= probes.len(),
        forall|j: int| i <= j < k ==> (#[trigger] probes[j]) is Ftdi,
        k < probes.len() ==> !(probes[k] is Ftdi),
    ensures
        ({
            let f = flasher_advised(probes, i);
            &&& k == probes.len() ==> f is None
            &&& k < probes.len() ==> f is Some && (f->0).1 == if probes[k] is Espflash {
                "cargo install espflash"@
            } else if probes[k] is Avrdude {
                "cargo install ravedude"@
            } else {
                "cargo install probe-rs-tools"@
            }
        }),
    decreases k - i,
{
    if i < k {
        assert(probes[i] is Ftdi);
        law_flashers_by_probe(probes, i + 1, k);
    }
}

/// Every board's driver and flashing tool is suggested, and nothing else is.
pub proof fn law_suggestions_are_those_of_the_boards(
    boards: Seq<CandidateView>,
    bound: Seq<Option<StlinkDriver>>,
    n: nat,
)
    ensures
        forall|i: int|
            0 <= i < n ==> (flasher_advised((#[trigger] boards[i]).board.probes, 0) matches Some(s)
                ==> suggested(flashers(boards, n), s.1)),
        forall|j: int|
            0 <= j < flashers(boards, n).len() ==> exists|i: int|
                0 <= i < n && flasher_advised((#[trigger] boards[i]).board.probes, 0) == Some(
                    #[trigger] flashers(boards, n)[j],
                ),
        forall|i: int|
            0 <= i < n ==> ({
                let id = id_pair((#[trigger] boards[i]).entry.vidpid);
                driver_advised(id.0, id.1, bound[i]) matches Some(s) ==> suggested(
                    drivers(boards, bound, n),
                    s.1,
                )
            }),
    decreases n,
{
    if n > 0 {
        let m = (n - 1) as nat;
        law_suggestions_are_those_of_the_boards(boards, bound, m);
        let before = flashers(boards, m);
        let now = flashers(boards, n);
        let s = flasher_advised(boards[n - 1].board.probes, 0);
        lemma_with_suggestion(before, s);
        let id = id_pair(boards[n - 1].entry.vidpid);
        lemma_with_suggestion(drivers(boards, bound, m), driver_advised(id.0, id.1, bound[n - 1]));
        assert forall|i: int| 0 <= i < n implies (flasher_advised(
            (#[trigger] boards[i]).board.probes,
            0,
        ) matches Some(t) ==> suggested(now, t.1)) by {
            if i < m {
                if let Some(t) = flasher_advised(boards[i].board.probes, 0) {
                    assert(suggested(before, t.1));
                }
            }
        }
        assert forall|j: int| 0 <= j < now.len() implies exists|i: int|
            0 <= i < n && flasher_advised((#[trigger] boards[i]).board.probes, 0) == Some(
                #[trigger] now[j],
            ) by {
            if j < before.len() {
                assert(now[j] == before[j]);
                let i = choose|i: int|
                    0 <= i < m && flasher_advised((#[trigger] boards[i]).board.probes, 0) == Some(
                        before[j],
                    );
                assert(flasher_advised(boards[i].board.probes, 0) == Some(now[j]));
            } else {
                assert(flasher_advised(boards[n - 1].board.probes, 0) == Some(now[j]));
            }
        }
        assert forall|i: int| 0 <= i < n implies ({
            let id = id_pair((#[trigger] boards[i]).entry.vidpid);
            driver_advised(id.0, id.1, bound[i]) matches Some(t) ==> suggested(
                drivers(boards, bound, n),
                t.1,
            )
        }) by {
            if i < m {
                let id = id_pair(boards[i].entry.vidpid);
                if let Some(t) = driver_advised(id.0, id.1, bound[i]) {
                    assert(suggested(drivers(boards, bound, m), t.1));
                }
            }
        }
    }
}

proof fn lemma_with_suggestion(list: Seq<Suggestion>, s: Option<Suggestion>)
    ensures
        ({
            let now = with_suggestion(list, s);
            &&& forall|c: Seq<char>| suggested(list, c) ==> #[trigger] suggested(now, c)
            &&& s matches Some(t) ==> suggested(now, t.1)
            &&& now.len() >= list.len()
            &&& forall|j: int| 0 <= j < list.len() ==> #[trigger] now[j] == list[j]
            &&& forall|j: int| list.len() <= j < now.len() ==> s == Some(#[trigger] now[j])
        }),
{
    let now = with_suggestion(list, s);
    assert forall|c: Seq<char>| suggested(list, c) implies #[trigger] suggested(now, c) by {
        let i = choose|i: int| 0 <= i < list.len() && (#[trigger] list[i]).1 == c;
        assert(now[i].1 == c);
    }
    if let Some(t) = s {
        if !suggested(list, t.1) {
            assert(now[list.len() as int].1 == t.1);
        }
    }
}

proof fn lemma_suggestion_lines(list: Seq<Suggestion>, n: nat)
    requires
        n <= list.len(),
    ensures
        suggestion_lines(list, n).len() == 2 * n,
        forall|i: int|
            0 <= i < n ==> suggestion_lines(list, n)[2 * i] == "   - "@ + (#[trigger] list[i]).0
                && suggestion_lines(list, n)[2 * i + 1] == "       "@ + list[i].1,
    decreases n,
{
    if n > 0 {
        lemma_suggestion_lines(list, (n - 1) as nat);
    }
}

/// Suggestions are shown one by one, each with what it is and how it is installed; where
/// there are none, that is said.
pub proof fn law_suggestions_are_shown(list: Seq<Suggestion>, otherwise: Seq<char>)
    ensures
        list.len() == 0 ==> suggestion_part(list, otherwise) == seq![otherwise],
        list.len() > 0 ==> {
            let p = suggestion_part(list, otherwise);
            &&& p.len() == 2 * list.len()
            &&& forall|i: int|
                0 <= i < list.len() ==> p[2 * i] == "   - "@ + (#[trigger] list[i]).0 && p[2 * i + 1]
                    == "       "@ + list[i].1
        },
{
    lemma_suggestion_lines(list, list.len());
}

/// The page of suggestions shows those for drivers, on Windows alone, and below them
/// those for flashing tools.
pub proof fn law_page_of_suggestions(
    boards: Seq<CandidateView>,
    bound: Seq<Option<StlinkDriver>>,
    os: Os,
)
    ensures
        ({
            let page = suggestions_page(boards, bound, os);
            let d = if os is Windows {
                suggestion_part(
                    drivers(boards, bound, boards.len()),
                    "   - detected board(s) already have a working driver."@,
                )
            } else {
                seq![
                    "   - no Windows-style driver needed on this OS (kernel modules are built in)."@,
                    "     For SWD probes, ensure udev rules / group permissions allow USB access."@,
                ]
            };
            let f = suggestion_part(
                flashers(boards, boards.len()),
                "   - no Rust flasher mapping for the detected board(s)."@,
            );
            &&& page.len() == 4 + d.len() + f.len()
            &&& page[1] == "=== Suggested installs ==="@
            &&& page.subrange(3, 3 + d.len() as int) == d
            &&& page[3 + d.len() as int] == "2. Rust flashing tool:"@
            &&& page.skip(4 + d.len() as int) == f
        }),
{
    let page = suggestions_page(boards, bound, os);
    let d = driver_part(boards, bound, os);
    let f = suggestion_part(
        flashers(boards, boards.len()),
        "   - no Rust flasher mapping for the detected board(s)."@,
    );
    assert(page.subrange(3, 3 + d.len() as int) =~= d);
    assert(page.skip(4 + d.len() as int) =~= f);
}

} // verus!
