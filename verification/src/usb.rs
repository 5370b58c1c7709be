//! The listing of USB devices: one row for each, in the order of the buses and
//! ports, and the boards that are known among them.
use unicode_width::UnicodeWidthStr;
use vstd::prelude::*;
use vstd::seq_lib::seq_to_set_is_finite;
use vstd::set_lib::{lemma_int_range, lemma_subset_equality, set_int_range};
use vstd::string::*;
use crate::boards::{board_at, label_of, lookup_board, BoardModel, KnownBoard, ProbeKind};
use crate::installer::Os;
use crate::number::{
    decimal, digit_char, digit_value, hex_lower, law_written_number_reads_back,
    lemma_written_in_digits, number, push_decimal, read_number, shortest, zero_padded,
};
use crate::page::{joined, push_line, push_text};
use crate::pieces::{join, join_of, law_split_undoes_join, split, split_from, split_of};
use crate::stlink::controller::{usb_id, usb_id_of};
use crate::text::{
    chars_of, contains, drop_white, ends_with, find_from, has_prefix, is_white, lacks,
    law_contains_within, law_split_once_parts, lemma_drop_white, lemma_standing_is_contained,
    same_str, spaces, split_once, starts_with, string_of, texts, trim_end, trim_end_of, views,
};

verus! {

// ── Display width ───────────────────────────────────────────────────────
/// The number of columns that a text takes on a terminal.
pub uninterp spec fn display_width(s: Seq<char>) -> nat;

/// `unicode_width::UnicodeWidthStr::width`: the columns that the text takes, by
/// the rules of UAX #11. Claimed of it: the result depends on the characters of
/// the text alone, and a space at the end adds one column to what stands before
/// it.
#[verifier::external_body]
fn str_width(s: &str) -> (w: usize)
    ensures
        w == display_width(s@),
        s@.len() > 0 && s@.last() == ' ' && display_width(s@.drop_last()) < usize::MAX ==> w
            == display_width(s@.drop_last()) + 1,
{
    UnicodeWidthStr::width(s)
}

/// The text with as many spaces behind it as it lacks columns.
pub open spec fn padded_to(s: Seq<char>, width: nat) -> Seq<char> {
    if display_width(s) < width {
        s + spaces((width - display_width(s)) as nat)
    } else {
        s
    }
}

/// Pads a text to a number of columns; one that takes as many or more is left as
/// it is.
pub fn pad_display(s: &str, width: usize) -> (r: String)
    ensures
        r@ == padded_to(s@, width as nat),
        display_width(r@) == if display_width(s@) < width {
            width as nat
        } else {
            display_width(s@)
        },
{
    let mut out = s.to_string();
    let w: usize = str_width(s);
    let mut now: usize = w;
    assert(s@ + spaces(0) =~= s@);
    while now < width
        invariant
            w == display_width(s@),
            w <= now,
            now <= width || now == w,
            now == display_width(out@),
            out@ == s@ + spaces((now - w) as nat),
        decreases width - now,
    {
        let ghost before = out@;
        out.push(' ');
        assert(out@.drop_last() =~= before);
        assert(out@ =~= s@ + spaces((now + 1 - w) as nat));
        now = str_width(out.as_str());
    }
    out
}

// ── The table ───────────────────────────────────────────────────────────
/// A row of the listing: bus id, USB identity, device and speed.
#[derive(Debug)]
pub struct Row {
    pub busid: String,
    pub vidpid: String,
    pub device: String,
    pub speed: String,
}

/// The cells of a row as plain text.
pub open spec fn cells(r: Row) -> Seq<Seq<char>> {
    seq![r.busid@, r.vidpid@, r.device@, r.speed@]
}

pub open spec fn header() -> Seq<Seq<char>> {
    seq!["BUSID"@, "VID:PID"@, "DEVICE"@, "SPEED"@]
}

pub open spec fn max(a: nat, b: nat) -> nat {
    if a < b {
        b
    } else {
        a
    }
}

/// The columns that a column of the table takes: those of its widest cell.
pub open spec fn column_width(rows: Seq<Row>, c: int) -> nat
    decreases rows.len(),
{
    if rows.len() == 0 {
        display_width(header()[c])
    } else {
        max(column_width(rows.drop_last(), c), display_width(cells(rows.last())[c]))
    }
}

/// A line of the table: the cells, padded, with two spaces between them.
pub open spec fn table_line(cells: Seq<Seq<char>>, rows: Seq<Row>) -> Seq<char> {
    trim_end(
        padded_to(cells[0], column_width(rows, 0)) + "  "@ + padded_to(
            cells[1],
            column_width(rows, 1),
        ) + "  "@ + padded_to(cells[2], column_width(rows, 2)) + "  "@ + padded_to(
            cells[3],
            column_width(rows, 3),
        ),
    )
}

pub open spec fn dashes(n: nat) -> Seq<char> {
    Seq::new(n, |i: int| '-')
}

/// The line below the header, as long as all columns and what is between them.
pub open spec fn rule(rows: Seq<Row>) -> Seq<char> {
    dashes(
        column_width(rows, 0) + column_width(rows, 1) + column_width(rows, 2) + column_width(
            rows,
            3,
        ) + 6,
    )
}

/// The header, a rule, and one line for each row.
pub open spec fn table(rows: Seq<Row>) -> Seq<Seq<char>> {
    seq![table_line(header(), rows), rule(rows)] + Seq::new(
        rows.len(),
        |i: int| table_line(cells(rows[i]), rows),
    )
}

fn larger(a: usize, b: usize) -> (r: usize)
    ensures
        r == max(a as nat, b as nat),
{
    if a < b {
        b
    } else {
        a
    }
}

/// The widths of the four columns.
struct Widths {
    busid: usize,
    vidpid: usize,
    device: usize,
    speed: usize,
}

spec fn widths_of(w: Widths, rows: Seq<Row>) -> bool {
    &&& w.busid == column_width(rows, 0)
    &&& w.vidpid == column_width(rows, 1)
    &&& w.device == column_width(rows, 2)
    &&& w.speed == column_width(rows, 3)
}

fn widths(rows: &Vec<Row>) -> (w: Widths)
    ensures
        widths_of(w, rows@),
{
    let mut w = Widths {
        busid: str_width("BUSID"),
        vidpid: str_width("VID:PID"),
        device: str_width("DEVICE"),
        speed: str_width("SPEED"),
    };
    assert(widths_of(w, rows@.take(0)));
    let mut i: usize = 0;
    while i < rows.len()
        invariant
            i <= rows@.len(),
            widths_of(w, rows@.take(i as int)),
        decreases rows.len() - i,
    {
        assert(rows@.take(i + 1).drop_last() =~= rows@.take(i as int));
        assert(rows@.take(i + 1).last() == rows@[i as int]);
        w = Widths {
            busid: larger(w.busid, str_width(rows[i].busid.as_str())),
            vidpid: larger(w.vidpid, str_width(rows[i].vidpid.as_str())),
            device: larger(w.device, str_width(rows[i].device.as_str())),
            speed: larger(w.speed, str_width(rows[i].speed.as_str())),
        };
        i += 1;
    }
    assert(rows@.take(i as int) =~= rows@);
    w
}

fn table_line_of(a: &str, b: &str, c: &str, d: &str, w: &Widths, Ghost(rows): Ghost<Seq<Row>>) -> (s:
    String)
    requires
        widths_of(*w, rows),
    ensures
        s@ == table_line(seq![a@, b@, c@, d@], rows),
{
    let mut s = pad_display(a, w.busid);
    s.append("  ");
    s.append(pad_display(b, w.vidpid).as_str());
    s.append("  ");
    s.append(pad_display(c, w.device).as_str());
    s.append("  ");
    s.append(pad_display(d, w.speed).as_str());
    let chars = chars_of(s.as_str());
    string_of(trim_end_of(chars.as_slice()))
}

fn push_dashes(s: &mut String, n: usize)
    ensures
        final(s)@ == old(s)@ + dashes(n as nat),
{
    let mut k: usize = 0;
    assert(s@ + dashes(0) =~= s@);
    while k < n
        invariant
            k <= n,
            s@ == old(s)@ + dashes(k as nat),
        decreases n - k,
    {
        s.push('-');
        k += 1;
        assert(s@ =~= old(s)@ + dashes(k as nat));
    }
}

fn rule_of(w: &Widths, Ghost(rows): Ghost<Seq<Row>>) -> (s: String)
    requires
        widths_of(*w, rows),
    ensures
        s@ == rule(rows),
{
    let mut s = String::new();
    push_dashes(&mut s, w.busid);
    push_dashes(&mut s, w.vidpid);
    push_dashes(&mut s, w.device);
    push_dashes(&mut s, w.speed);
    push_dashes(&mut s, 6);
    assert(s@ =~= rule(rows));
    s
}

/// The lines of the table.
pub fn print_table(rows: &Vec<Row>) -> (page: Vec<String>)
    ensures
        texts(page@) == table(rows@),
{
    let w = widths(rows);
    let mut page: Vec<String> = Vec::new();
    push_line(
        &mut page,
        table_line_of("BUSID", "VID:PID", "DEVICE", "SPEED", &w, Ghost(rows@)),
    );
    push_line(&mut page, rule_of(&w, Ghost(rows@)));
    let ghost head = seq![table_line(header(), rows@), rule(rows@)];
    let ghost body = Seq::new(rows@.len(), |i: int| table_line(cells(rows@[i]), rows@));
    assert(texts(page@) =~= head + body.take(0));
    let mut i: usize = 0;
    while i < rows.len()
        invariant
            i <= rows@.len(),
            widths_of(w, rows@),
            body == Seq::new(rows@.len(), |i: int| table_line(cells(rows@[i]), rows@)),
            texts(page@) == head + body.take(i as int),
        decreases rows.len() - i,
    {
        let r = &rows[i];
        push_line(
            &mut page,
            table_line_of(
                r.busid.as_str(),
                r.vidpid.as_str(),
                r.device.as_str(),
                r.speed.as_str(),
                &w,
                Ghost(rows@),
            ),
        );
        i += 1;
        assert(texts(page@) =~= head + body.take(i as int));
    }
    assert(body.take(i as int) =~= body);
    page
}

// ── Devices and their places ────────────────────────────────────────────
/// A USB device as the system enumerates it.
#[derive(Debug)]
pub struct UsbDevice {
    /// The name of the bus, in the form that the system gives it.
    pub bus_id: String,
    /// The ports on the way to the device, from the root hub on.
    pub port_chain: Vec<u8>,
    pub address: u8,
    pub vid: u16,
    pub pid: u16,
    pub manufacturer: Option<String>,
    pub product: Option<String>,
    /// The speed in words, where it is known.
    pub speed: Option<String>,
}

/// `a` comes before `b` in the order of the characters, looked at from `i` on.
pub open spec fn text_before(a: Seq<char>, b: Seq<char>, i: int) -> bool
    decreases b.len() - i,
{
    if i < 0 || i >= b.len() {
        false
    } else if i >= a.len() {
        true
    } else if a[i] != b[i] {
        a[i] < b[i]
    } else {
        text_before(a, b, i + 1)
    }
}

/// How many different names among the first `n` come before `id`.
pub open spec fn names_before(names: Seq<Seq<char>>, id: Seq<char>, n: nat) -> nat
    decreases n,
{
    if n == 0 || n > names.len() {
        0
    } else {
        let last = names[n - 1];
        names_before(names, id, (n - 1) as nat) + if text_before(last, id, 0) && !names.take(
            n - 1,
        ).contains(last) {
            1nat
        } else {
            0nat
        }
    }
}

/// The number of a bus. Windows names its buses, and a name counts by its place
/// among all names (in eight bits); macOS writes the number in hex, Linux in
/// decimal. A bus without a number is bus zero.
pub open spec fn bus_number(bus_id: Seq<char>, os: Os, buses: Seq<Seq<char>>) -> u8 {
    match os {
        Os::Windows => if buses.contains(bus_id) {
            (names_before(buses, bus_id, buses.len()) % 256) as u8
        } else {
            0
        },
        Os::Macos => match number(bus_id, 16, 255) {
            Some(n) => n as u8,
            None => 0,
        },
        Os::Linux => match number(bus_id, 10, 255) {
            Some(n) => n as u8,
            None => 0,
        },
    }
}

fn is_before(a: &[char], b: &[char]) -> (r: bool)
    ensures
        r == text_before(a@, b@, 0),
{
    let mut i: usize = 0;
    while i < b.len()
        invariant
            i <= b@.len(),
            text_before(a@, b@, 0) == text_before(a@, b@, i as int),
        decreases b.len() - i,
    {
        if i >= a.len() {
            return true;
        }
        if a[i] != b[i] {
            return a[i] < b[i];
        }
        i += 1;
    }
    false
}

fn named_before(names: &Vec<String>, n: usize, name: &str) -> (r: bool)
    requires
        n <= names@.len(),
    ensures
        r == texts(names@).take(n as int).contains(name@),
{
    let mut i: usize = 0;
    while i < n
        invariant
            i <= n <= names@.len(),
            forall|k: int| 0 <= k < i ==> names@[k]@ != name@,
        decreases n - i,
    {
        if same_str(names[i].as_str(), name) {
            assert(texts(names@).take(n as int)[i as int] == name@);
            return true;
        }
        i += 1;
    }
    assert forall|k: int| 0 <= k < n implies texts(names@).take(n as int)[k] != name@ by {
        assert(texts(names@).take(n as int)[k] == names@[k]@);
    }
    false
}

/// The number of a bus among the names of all buses.
pub fn nusb_bus_number(bus_id: &str, os: Os, buses: &Vec<String>) -> (r: u8)
    ensures
        r == bus_number(bus_id@, os, texts(buses@)),
{
    let id = chars_of(bus_id);
    let id = id.as_slice();
    match os {
        Os::Windows => {
            let total: usize = buses.len();
            if !named_before(buses, total, bus_id) {
                assert(texts(buses@).take(total as int) =~= texts(buses@));
                return 0;
            }
            assert(texts(buses@).take(total as int) =~= texts(buses@));
            let mut count: usize = 0;
            let mut i: usize = 0;
            while i < total
                invariant
                    i <= total == buses@.len(),
                    id@ == bus_id@,
                    count <= i,
                    count == names_before(texts(buses@), bus_id@, i as nat),
                decreases total - i,
            {
                let name = chars_of(buses[i].as_str());
                if is_before(name.as_slice(), id) && !named_before(buses, i, buses[i].as_str()) {
                    count += 1;
                }
                i += 1;
            }
            (count % 256) as u8
        },
        Os::Macos => match read_number(id, 16, 255) {
            Some(n) => n as u8,
            None => 0,
        },
        Os::Linux => match read_number(id, 10, 255) {
            Some(n) => n as u8,
            None => 0,
        },
    }
}

/// The ports, with dots between them.
pub open spec fn port_path(ports: Seq<u8>) -> Seq<char> {
    join(Seq::new(ports.len(), |i: int| decimal(ports[i] as nat)), "."@)
}

/// The bus id of a device: its bus and the ports on the way to it, or its
/// address where no port is known.
pub open spec fn bus_id_text(d: UsbDevice, os: Os, buses: Seq<Seq<char>>) -> Seq<char> {
    decimal(bus_number(d.bus_id@, os, buses) as nat) + "-"@ + (if d.port_chain@.len() == 0 {
        decimal(d.address as nat)
    } else {
        port_path(d.port_chain@)
    })
}

/// The bus id of a device in the listing.
pub fn nusb_busid(d: &UsbDevice, os: Os, buses: &Vec<String>) -> (s: String)
    ensures
        s@ == bus_id_text(*d, os, texts(buses@)),
{
    let mut path = String::new();
    if d.port_chain.len() == 0 {
        push_decimal(&mut path, d.address as u64);
        assert(path@ =~= decimal(d.address as nat));
    } else {
        let ghost want = Seq::new(
            d.port_chain@.len(),
            |i: int| decimal(d.port_chain@[i] as nat),
        );
        let mut ports: Vec<String> = Vec::new();
        let mut i: usize = 0;
        while i < d.port_chain.len()
            invariant
                i <= d.port_chain@.len(),
                want == Seq::new(
                    d.port_chain@.len(),
                    |i: int| decimal(d.port_chain@[i] as nat),
                ),
                texts(ports@) == want.take(i as int),
            decreases d.port_chain.len() - i,
        {
            let mut port = String::new();
            push_decimal(&mut port, d.port_chain[i] as u64);
            assert(port@ =~= decimal(d.port_chain@[i as int] as nat));
            push_line(&mut ports, port);
            i += 1;
        }
        assert(want.take(i as int) =~= want);
        path = join_of(&ports, ".");
    }
    let mut s = String::new();
    push_decimal(&mut s, nusb_bus_number(d.bus_id.as_str(), os, buses) as u64);
    s.append("-");
    s.append(path.as_str());
    assert(s@ =~= bus_id_text(*d, os, texts(buses@)));
    s
}

// ── The order of the listing ────────────────────────────────────────────
/// One port chain comes before another, looked at from `i` on: by the first port
/// that differs, and the shorter before the longer.
pub open spec fn chain_before(a: Seq<u8>, b: Seq<u8>, i: int) -> bool
    decreases b.len() - i,
{
    if i < 0 || i >= b.len() {
        false
    } else if i >= a.len() {
        true
    } else if a[i] != b[i] {
        a[i] < b[i]
    } else {
        chain_before(a, b, i + 1)
    }
}

/// The place of a device: its bus, and its ports.
pub struct Place {
    pub bus: u8,
    pub ports: Seq<u8>,
}

pub open spec fn place_before(a: Place, b: Place) -> bool {
    a.bus < b.bus || a.bus == b.bus && chain_before(a.ports, b.ports, 0)
}

pub open spec fn place_of(d: UsbDevice, os: Os, buses: Seq<Seq<char>>) -> Place {
    Place { bus: bus_number(d.bus_id@, os, buses), ports: d.port_chain@ }
}

pub open spec fn places(devices: Seq<UsbDevice>, os: Os, buses: Seq<Seq<char>>) -> Seq<Place> {
    Seq::new(devices.len(), |i: int| place_of(devices[i], os, buses))
}

/// The device numbered `i` stands before the one numbered `j`: by their places,
/// and among equal places by their numbers.
pub open spec fn stands_before(places: Seq<Place>, i: int, j: int) -> bool {
    place_before(places[i], places[j]) || (!place_before(places[j], places[i]) && i < j)
}

/// The devices by number, each once, in the order of their places; devices at
/// one place keep the order they came in.
pub open spec fn is_order(order: Seq<int>, places: Seq<Place>) -> bool {
    &&& order.len() == places.len()
    &&& forall|i: int| 0 <= i < order.len() ==> 0 <= #[trigger] order[i] < places.len()
    &&& forall|i: int, j: int|
        #![trigger order[i], order[j]]
        0 <= i < j < order.len() ==> stands_before(places, order[i], order[j])
}

proof fn lemma_chain_order(a: Seq<u8>, b: Seq<u8>, c: Seq<u8>, i: int)
    requires
        0 <= i,
        i <= a.len(),
        i <= b.len(),
        i <= c.len(),
    ensures
        chain_before(a, b, i) ==> !chain_before(b, a, i),
        chain_before(a, b, i) && chain_before(b, c, i) ==> chain_before(a, c, i),
        !chain_before(b, a, i) && !chain_before(c, b, i) ==> !chain_before(c, a, i),
    decreases a.len() + b.len() + c.len() - 3 * i,
{
    if i < a.len() && i < b.len() && i < c.len() {
        lemma_chain_order(a, b, c, i + 1);
    } else if i < a.len() && i < b.len() {
        lemma_chain_antisymmetric(a, b, i);
    }
}

proof fn lemma_chain_antisymmetric(a: Seq<u8>, b: Seq<u8>, i: int)
    requires
        0 <= i <= a.len(),
        i <= b.len(),
    ensures
        chain_before(a, b, i) ==> !chain_before(b, a, i),
    decreases a.len() - i,
{
    if i < a.len() && i < b.len() {
        lemma_chain_antisymmetric(a, b, i + 1);
    }
}

proof fn lemma_place_order(a: Place, b: Place, c: Place)
    ensures
        place_before(a, b) ==> !place_before(b, a),
        !place_before(b, a) && !place_before(c, b) ==> !place_before(c, a),
{
    lemma_chain_antisymmetric(a.ports, b.ports, 0);
    lemma_chain_order(a.ports, b.ports, c.ports, 0);
}

fn is_chain_before(a: &Vec<u8>, b: &Vec<u8>) -> (r: bool)
    ensures
        r == chain_before(a@, b@, 0),
{
    let mut i: usize = 0;
    while i < b.len()
        invariant
            i <= b@.len(),
            chain_before(a@, b@, 0) == chain_before(a@, b@, i as int),
        decreases b.len() - i,
    {
        if i >= a.len() {
            return true;
        }
        if a[i] != b[i] {
            return a[i] < b[i];
        }
        i += 1;
    }
    false
}

/// The numbers of the devices in the order of the listing.
fn device_order(devices: &Vec<UsbDevice>, os: Os, buses: &Vec<String>) -> (order: Vec<usize>)
    ensures
        is_order(
            order@.map_values(|i: usize| i as int),
            places(devices@, os, texts(buses@)),
        ),
{
    let ghost at = places(devices@, os, texts(buses@));
    let mut bus: Vec<u8> = Vec::new();
    let mut n: usize = 0;
    while n < devices.len()
        invariant
            n <= devices@.len(),
            bus@.len() == n,
            at == places(devices@, os, texts(buses@)),
            forall|k: int| 0 <= k < n ==> bus@[k] == at[k].bus,
        decreases devices.len() - n,
    {
        bus.push(nusb_bus_number(devices[n].bus_id.as_str(), os, buses));
        n += 1;
    }
    let mut order: Vec<usize> = Vec::new();
    let mut i: usize = 0;
    while i < devices.len()
        invariant
            i <= devices@.len() == bus@.len(),
            at == places(devices@, os, texts(buses@)),
            at.len() == devices@.len(),
            forall|k: int| 0 <= k < bus@.len() ==> bus@[k] == at[k].bus,
            order@.len() == i,
            forall|k: int| 0 <= k < i ==> #[trigger] order@[k] < i,
            forall|j: int, k: int|
                #![trigger order@[j], order@[k]]
                0 <= j < k < i ==> stands_before(at, order@[j] as int, order@[k] as int),
        decreases devices.len() - i,
    {
        let mut pos: usize = i;
        while pos > 0 && (bus[i] < bus[order[pos - 1]] || (bus[i] == bus[order[pos - 1]]
            && is_chain_before(&devices[i].port_chain, &devices[order[pos - 1]].port_chain)))
            invariant
                pos <= i < devices@.len() == bus@.len(),
                at == places(devices@, os, texts(buses@)),
                at.len() == devices@.len(),
                forall|k: int| 0 <= k < bus@.len() ==> bus@[k] == at[k].bus,
                order@.len() == i,
                forall|k: int| 0 <= k < i ==> #[trigger] order@[k] < i,
                forall|k: int|
                    pos <= k < i ==> place_before(at[i as int], at[#[trigger] order@[k] as int]),
            decreases pos,
        {
            pos -= 1;
        }
        let ghost before = order@;
        proof {
            assert forall|k: int| 0 <= k < pos implies !place_before(
                at[i as int],
                at[#[trigger] order@[k] as int],
            ) by {
                if k < pos - 1 {
                    assert(stands_before(at, order@[k] as int, order@[pos - 1] as int));
                    lemma_place_order(
                        at[order@[k] as int],
                        at[order@[pos - 1] as int],
                        at[i as int],
                    );
                }
            }
        }
        order.insert(pos, i);
        proof {
            assert(order@ =~= before.insert(pos as int, i));
            assert forall|k: int| 0 <= k < i + 1 implies #[trigger] order@[k] < i + 1 by {
                if k < pos {
                    assert(order@[k] == before[k]);
                } else if k > pos {
                    assert(order@[k] == before[k - 1]);
                }
            }
            assert forall|j: int, k: int|
                #![trigger order@[j], order@[k]]
                0 <= j < k < i + 1 implies stands_before(
                at,
                order@[j] as int,
                order@[k] as int,
            ) by {
                if k < pos {
                    assert(order@[j] == before[j] && order@[k] == before[k]);
                } else if k == pos {
                    assert(order@[j] == before[j]);
                } else if j < pos {
                    assert(order@[j] == before[j] && order@[k] == before[k - 1]);
                } else if j == pos {
                    assert(order@[k] == before[k - 1]);
                } else {
                    assert(order@[j] == before[j - 1] && order@[k] == before[k - 1]);
                }
            }
        }
        i += 1;
    }
    assert(is_order(order@.map_values(|i: usize| i as int), at));
    order
}

// ── Entries ─────────────────────────────────────────────────────────────
/// One listed device.
#[derive(Debug)]
pub struct Entry {
    pub busid: String,
    pub vidpid: String,
    pub device: String,
}

pub struct EntryView {
    pub busid: Seq<char>,
    pub vidpid: Seq<char>,
    pub device: Seq<char>,
}

impl View for Entry {
    type V = EntryView;

    open spec fn view(&self) -> EntryView {
        EntryView { busid: self.busid@, vidpid: self.vidpid@, device: self.device@ }
    }
}

pub open spec fn entry_views(v: Seq<Entry>) -> Seq<EntryView> {
    Seq::new(v.len(), |i: int| v[i]@)
}

/// A field that writes a 16-bit number in hex; zero where it does not, or where
/// there is no such field.
pub open spec fn hex_field(fields: Seq<Seq<char>>, i: int) -> u16 {
    if i < fields.len() {
        match number(fields[i], 16, u16::MAX as nat) {
            Some(n) => n as u16,
            None => 0,
        }
    } else {
        0
    }
}

/// The VID and PID that a `vid:pid` text names.
pub open spec fn id_pair(vidpid: Seq<char>) -> (u16, u16) {
    let fields = split(vidpid, ':');
    (hex_field(fields, 0), hex_field(fields, 1))
}

fn hex_field_of(fields: &Vec<&[char]>, i: usize) -> (r: u16)
    ensures
        r == hex_field(views(fields@), i as int),
{
    if i < fields.len() {
        assert(views(fields@)[i as int] == fields@[i as int]@);
        match read_number(fields[i], 16, 0xFFFF) {
            Some(n) => n as u16,
            None => 0,
        }
    } else {
        0
    }
}

impl Entry {
    pub fn vidpid_pair(&self) -> (r: (u16, u16))
        ensures
            r == id_pair(self@.vidpid),
    {
        let text = chars_of(self.vidpid.as_str());
        let fields = split_of(text.as_slice(), ':');
        (hex_field_of(&fields, 0), hex_field_of(&fields, 1))
    }
}

proof fn lemma_no_colon(v: nat)
    ensures
        forall|i: int|
            0 <= i < shortest(v, 16, false).len() ==> #[trigger] shortest(v, 16, false)[i] != ':',
    decreases v,
{
    if v >= 16 {
        lemma_no_colon(v / 16);
        let head = shortest(v / 16, 16, false);
        let all = shortest(v, 16, false);
        assert(all =~= head.push(digit_char(v % 16, false)));
        assert forall|i: int| 0 <= i < all.len() implies #[trigger] all[i] != ':' by {
            if i < head.len() {
                assert(all[i] == head[i]);
            }
        }
    }
}

proof fn lemma_finds(s: Seq<char>, c: char, i: int, k: int)
    requires
        0 <= i <= k <= s.len(),
        forall|j: int| i <= j < k ==> #[trigger] s[j] != c,
        k < s.len() ==> s[k] == c,
    ensures
        find_from(s, c, i) == k,
    decreases k - i,
{
    if i < k {
        lemma_finds(s, c, i + 1, k);
    }
}

/// The USB identity that a listing shows names the device that it was made for.
pub proof fn law_listed_identity_reads_back(vid: u16, pid: u16)
    ensures
        id_pair(usb_id(vid, pid)) == (vid, pid),
{
    let a = hex_lower(vid as nat, 4);
    let b = hex_lower(pid as nat, 4);
    let s = usb_id(vid, pid);
    reveal_strlit(":");
    lemma_no_colon(vid as nat);
    lemma_no_colon(pid as nat);
    let n = a.len() as int;
    assert(s =~= a + seq![':'] + b);
    assert forall|j: int| 0 <= j < n implies #[trigger] s[j] != ':' by {
        assert(s[j] == a[j]);
    }
    lemma_finds(s, ':', 0, n);
    assert forall|j: int| n + 1 <= j < s.len() implies #[trigger] s[j] != ':' by {
        assert(s[j] == b[j - n - 1]);
    }
    lemma_finds(s, ':', n + 1, s.len() as int);
    assert(s.subrange(0, n) =~= a);
    assert(s.subrange(n + 1, s.len() as int) =~= b);
    assert(split_from(s, ':', n + 1) =~= seq![b]);
    assert(split(s, ':') =~= seq![a, b]);
    law_written_number_reads_back(vid as nat, 16, false, 4, u16::MAX as nat);
    law_written_number_reads_back(pid as nat, 16, false, 4, u16::MAX as nat);
}

/// How a device is called: by its maker and product, as far as they are known.
pub open spec fn device_text(d: UsbDevice) -> Seq<char> {
    match (d.manufacturer, d.product) {
        (Some(m), Some(p)) => m@ + " "@ + p@,
        (None, Some(p)) => p@,
        (Some(m), None) => m@,
        (None, None) => "(unknown device)"@,
    }
}

pub open spec fn entry_of(d: UsbDevice, os: Os, buses: Seq<Seq<char>>) -> EntryView {
    EntryView {
        busid: bus_id_text(d, os, buses),
        vidpid: usb_id(d.vid, d.pid),
        device: device_text(d),
    }
}

/// The entries are those of the devices, in this order.
pub open spec fn lists_in_order(
    entries: Seq<EntryView>,
    order: Seq<int>,
    devices: Seq<UsbDevice>,
    os: Os,
    buses: Seq<Seq<char>>,
) -> bool {
    entries == Seq::new(order.len(), |i: int| entry_of(devices[order[i]], os, buses))
}

fn entry_for(d: &UsbDevice, os: Os, buses: &Vec<String>) -> (e: Entry)
    ensures
        e@ == entry_of(*d, os, texts(buses@)),
{
    let device = match (&d.manufacturer, &d.product) {
        (Some(m), Some(p)) => {
            let mut s = joined(m.as_str(), " ");
            s.append(p.as_str());
            s
        },
        (None, Some(p)) => p.clone(),
        (Some(m), None) => m.clone(),
        (None, None) => "(unknown device)".to_string(),
    };
    Entry { busid: nusb_busid(d, os, buses), vidpid: usb_id_of(d.vid, d.pid), device }
}

/// The listing of the devices, sorted by bus and physical port chain for
/// deterministic, topology-based output. `buses` holds the names of all buses,
/// which Windows numbers by.
pub fn list_entries(devices: &Vec<UsbDevice>, os: Os, buses: &Vec<String>) -> (r: Vec<Entry>)
    ensures
        exists|order: Seq<int>|
            #![trigger is_order(order, places(devices@, os, texts(buses@)))]
            is_order(order, places(devices@, os, texts(buses@))) && lists_in_order(
                entry_views(r@),
                order,
                devices@,
                os,
                texts(buses@),
            ),
{
    let order = device_order(devices, os, buses);
    let ghost at = order@.map_values(|i: usize| i as int);
    let ghost want = Seq::new(at.len(), |i: int| entry_of(devices@[at[i]], os, texts(buses@)));
    let mut r: Vec<Entry> = Vec::new();
    assert(entry_views(r@) =~= want.take(0));
    let mut i: usize = 0;
    while i < order.len()
        invariant
            i <= order@.len(),
            at == order@.map_values(|i: usize| i as int),
            want == Seq::new(at.len(), |i: int| entry_of(devices@[at[i]], os, texts(buses@))),
            is_order(at, places(devices@, os, texts(buses@))),
            entry_views(r@) == want.take(i as int),
        decreases order.len() - i,
    {
        assert(0 <= at[i as int] < devices@.len());
        let e = entry_for(&devices[order[i]], os, buses);
        let ghost before = entry_views(r@);
        r.push(e);
        assert(entry_views(r@) =~= before.push(e@));
        i += 1;
    }
    assert(want.take(i as int) =~= want);
    assert(lists_in_order(entry_views(r@), at, devices@, os, texts(buses@)));
    r
}

// ── The listing ─────────────────────────────────────────────────────────
/// The speed of the last device of this identity, or a dash.
pub open spec fn speed_text(devices: Seq<UsbDevice>, id: (u16, u16)) -> Seq<char>
    decreases devices.len(),
{
    if devices.len() == 0 {
        "-"@
    } else if devices.last().vid == id.0 && devices.last().pid == id.1 {
        match devices.last().speed {
            Some(s) => s@,
            None => "-"@,
        }
    } else {
        speed_text(devices.drop_last(), id)
    }
}

fn speed_of(devices: &Vec<UsbDevice>, id: (u16, u16)) -> (s: String)
    ensures
        s@ == speed_text(devices@, id),
{
    let mut n: usize = devices.len();
    assert(devices@.take(n as int) =~= devices@);
    while n > 0
        invariant
            n <= devices@.len(),
            speed_text(devices@, id) == speed_text(devices@.take(n as int), id),
        decreases n,
    {
        assert(devices@.take(n as int).last() == devices@[n - 1]);
        assert(devices@.take(n as int).drop_last() =~= devices@.take(n - 1));
        if devices[n - 1].vid == id.0 && devices[n - 1].pid == id.1 {
            return match &devices[n - 1].speed {
                Some(s) => s.clone(),
                None => "-".to_string(),
            };
        }
        n -= 1;
    }
    "-".to_string()
}

/// The rows of the table, as plain text.
pub open spec fn is_row_of(r: Row, e: EntryView, devices: Seq<UsbDevice>) -> bool {
    cells(r) == seq![e.busid, e.vidpid, e.device, speed_text(devices, id_pair(e.vidpid))]
}

pub open spec fn are_rows_of(rows: Seq<Row>, entries: Seq<EntryView>, devices: Seq<UsbDevice>) -> bool {
    &&& rows.len() == entries.len()
    &&& forall|i: int|
        0 <= i < rows.len() ==> is_row_of(#[trigger] rows[i], entries[i], devices)
}

/// The rows of the table: every entry with the speed that goes with it.
pub fn list_rows(entries: &Vec<Entry>, devices: &Vec<UsbDevice>) -> (rows: Vec<Row>)
    ensures
        are_rows_of(rows@, entry_views(entries@), devices@),
{
    let mut rows: Vec<Row> = Vec::new();
    let mut i: usize = 0;
    while i < entries.len()
        invariant
            i <= entries@.len(),
            rows@.len() == i,
            forall|k: int|
                0 <= k < i ==> is_row_of(#[trigger] rows@[k], entry_views(entries@)[k], devices@),
        decreases entries.len() - i,
    {
        let e = &entries[i];
        rows.push(
            Row {
                busid: e.busid.clone(),
                vidpid: e.vidpid.clone(),
                device: e.device.clone(),
                speed: speed_of(devices, e.vidpid_pair()),
            },
        );
        i += 1;
    }
    rows
}

/// A listed device that is a known board.
pub struct Candidate {
    /// The place of the device in the listing.
    pub entry: usize,
    pub board: KnownBoard,
}

pub struct CandidateView {
    pub entry: EntryView,
    pub board: BoardModel,
}

pub open spec fn candidate_view(c: Candidate, entries: Seq<EntryView>) -> CandidateView {
    CandidateView { entry: entries[c.entry as int], board: c.board@ }
}

pub open spec fn candidate_views(v: Seq<Candidate>, entries: Seq<EntryView>) -> Seq<CandidateView> {
    Seq::new(v.len(), |i: int| candidate_view(v[i], entries))
}

/// The known boards among the entries, in their order.
pub open spec fn known_boards(entries: Seq<EntryView>) -> Seq<CandidateView>
    decreases entries.len(),
{
    if entries.len() == 0 {
        Seq::empty()
    } else {
        let found = known_boards(entries.drop_last());
        let (vid, pid) = id_pair(entries.last().vidpid);
        match board_at(vid, pid) {
            Some(board) => found.push(CandidateView { entry: entries.last(), board }),
            None => found,
        }
    }
}

/// The known boards among the listed devices.
pub fn find_boards(entries: &Vec<Entry>) -> (r: Vec<Candidate>)
    ensures
        candidate_views(r@, entry_views(entries@)) == known_boards(entry_views(entries@)),
        forall|i: int| 0 <= i < r@.len() ==> (#[trigger] r@[i]).entry < entries@.len(),
{
    let ghost all = entry_views(entries@);
    let mut r: Vec<Candidate> = Vec::new();
    assert(candidate_views(r@, all) =~= Seq::empty());
    let mut i: usize = 0;
    while i < entries.len()
        invariant
            i <= entries@.len(),
            all == entry_views(entries@),
            candidate_views(r@, all) == known_boards(all.take(i as int)),
            forall|k: int| 0 <= k < r@.len() ==> (#[trigger] r@[k]).entry < entries@.len(),
        decreases entries.len() - i,
    {
        assert(all.take(i + 1).drop_last() =~= all.take(i as int));
        assert(all.take(i + 1).last() == entries@[i as int]@);
        let (vid, pid) = entries[i].vidpid_pair();
        if let Some(board) = lookup_board(vid, pid) {
            let ghost before = candidate_views(r@, all);
            let c = Candidate { entry: i, board };
            r.push(c);
            assert(candidate_views(r@, all) =~= before.push(candidate_view(c, all)));
        }
        i += 1;
    }
    assert(all.take(i as int) =~= all);
    r
}

/// The tags of the probes of a board.
pub open spec fn labels(b: BoardModel) -> Seq<Seq<char>> {
    Seq::new(b.probes.len(), |i: int| label_of(b.probes[i])@)
}

pub open spec fn board_line(c: CandidateView) -> Seq<char> {
    "  - ["@ + join(labels(c.board), "+"@) + "] "@ + c.entry.vidpid + " ("@ + c.board.name@
        + ") at BUSID "@ + c.entry.busid
}

pub open spec fn board_lines(boards: Seq<CandidateView>) -> Seq<Seq<char>> {
    Seq::new(boards.len(), |i: int| board_line(boards[i]))
}

pub open spec fn is_stlink_entry(c: CandidateView) -> bool {
    starts_with(c.entry.vidpid, "0483:374"@)
}

pub open spec fn reads_cmsisdap(b: BoardModel) -> bool {
    exists|j: int| 0 <= j < b.probes.len() && (#[trigger] b.probes[j]) is CmsisDapTarget
}

pub open spec fn has_stlink(boards: Seq<CandidateView>) -> bool {
    exists|i: int| 0 <= i < boards.len() && is_stlink_entry(#[trigger] boards[i])
}

pub open spec fn has_dap(boards: Seq<CandidateView>) -> bool {
    exists|i: int| 0 <= i < boards.len() && reads_cmsisdap((#[trigger] boards[i]).board)
}

pub open spec fn probe_notes() -> Seq<Seq<char>> {
    seq![
        ""@,
        "Run with --probe to query each board (espflash / stm32flash / avrdude / picotool / DAPLink / pyocd)."@,
        "Note: probing may reset the chip — do NOT use while a 3D-printer or"@,
        "      other live firmware is communicating."@,
    ]
}

pub open spec fn stlink_notes() -> Seq<Seq<char>> {
    seq![
        ""@,
        "ST-Link present — safe, read-only options (no chip reset):"@,
        "  --mcu-alive-native   read target ID over SWD via nusb (no probe-rs/pyocd)."@,
        "  --driver-status      check the MI_00 debug-interface driver binding (Windows)."@,
        "  --install-driver     bind WinUSB to MI_00 if --mcu-alive-native can't claim it."@,
    ]
}

pub open spec fn dap_notes() -> Seq<Seq<char>> {
    seq![
        ""@,
        "CMSIS-DAP probe present — `--probe` reads the downstream SWD target"@,
        "read-only via native CMSIS-DAP (no probe-rs/pyocd). On Windows the"@,
        "'CMSIS-DAP v2' interface must be on WinUSB (use Zadig: --install zadig)."@,
    ]
}

/// The boards, and what can be done with them.
pub open spec fn boards_part(boards: Seq<CandidateView>) -> Seq<Seq<char>> {
    seq!["Probable boards detected:"@] + board_lines(boards) + probe_notes() + (if has_stlink(
        boards,
    ) {
        stlink_notes()
    } else {
        Seq::empty()
    }) + (if has_dap(boards) {
        dap_notes()
    } else {
        Seq::empty()
    })
}

/// What stands below the table: nothing where no board is known; only a blank
/// line where the boards are to be probed; otherwise the boards, and what can be
/// done with them.
pub open spec fn below_table(boards: Seq<CandidateView>, probe: bool) -> Seq<Seq<char>> {
    if boards.len() == 0 {
        Seq::empty()
    } else if probe {
        seq![""@]
    } else {
        seq![""@] + boards_part(boards)
    }
}

/// The page of a listing.
pub open spec fn listing_page(
    rows: Seq<Row>,
    boards: Seq<CandidateView>,
    probe: bool,
) -> Seq<Seq<char>> {
    if rows.len() == 0 {
        table(rows).push("(no connected USB devices found)"@)
    } else {
        table(rows) + below_table(boards, probe)
    }
}

fn push_board_lines(page: &mut Vec<String>, entries: &Vec<Entry>, boards: &Vec<Candidate>)
    requires
        forall|i: int| 0 <= i < boards@.len() ==> (#[trigger] boards@[i]).entry < entries@.len(),
    ensures
        texts(final(page)@) == texts(old(page)@) + board_lines(
            candidate_views(boards@, entry_views(entries@)),
        ),
{
    let ghost all = candidate_views(boards@, entry_views(entries@));
    let ghost before = texts(page@);
    assert(before + board_lines(all).take(0) =~= before);
    let mut i: usize = 0;
    while i < boards.len()
        invariant
            i <= boards@.len(),
            all == candidate_views(boards@, entry_views(entries@)),
            forall|k: int|
                0 <= k < boards@.len() ==> (#[trigger] boards@[k]).entry < entries@.len(),
            texts(page@) == before + board_lines(all).take(i as int),
        decreases boards.len() - i,
    {
        let probes = boards[i].board.probes;
        let ghost model = boards@[i as int].board@;
        let mut tags: Vec<String> = Vec::new();
        assert(texts(tags@) =~= labels(model).take(0));
        let mut j: usize = 0;
        while j < probes.len()
            invariant
                j <= probes@.len(),
                i < boards@.len(),
                probes@ == boards@[i as int].board.probes@,
                model == boards@[i as int].board@,
                texts(tags@) == labels(model).take(j as int),
            decreases probes.len() - j,
        {
            push_text(&mut tags, probes[j].label());
            j += 1;
            assert(texts(tags@) =~= labels(model).take(j as int));
        }
        assert(labels(model).take(j as int) =~= labels(model));
        assert(boards@[i as int].entry < entries@.len());
        let e = &entries[boards[i].entry];
        let mut line = joined("  - [", join_of(&tags, "+").as_str());
        line.append("] ");
        line.append(e.vidpid.as_str());
        line.append(" (");
        line.append(boards[i].board.name);
        line.append(") at BUSID ");
        line.append(e.busid.as_str());
        assert(line@ == board_line(all[i as int]));
        push_line(page, line);
        i += 1;
        assert(texts(page@) =~= before + board_lines(all).take(i as int));
    }
    assert(board_lines(all).take(i as int) =~= board_lines(all));
}

fn has_stlink_of(entries: &Vec<Entry>, boards: &Vec<Candidate>) -> (r: bool)
    requires
        forall|i: int| 0 <= i < boards@.len() ==> (#[trigger] boards@[i]).entry < entries@.len(),
    ensures
        r == has_stlink(candidate_views(boards@, entry_views(entries@))),
{
    let ghost all = candidate_views(boards@, entry_views(entries@));
    let mut i: usize = 0;
    while i < boards.len()
        invariant
            i <= boards@.len(),
            all == candidate_views(boards@, entry_views(entries@)),
            forall|k: int|
                0 <= k < boards@.len() ==> (#[trigger] boards@[k]).entry < entries@.len(),
            forall|k: int| 0 <= k < i ==> !is_stlink_entry(#[trigger] all[k]),
        decreases boards.len() - i,
    {
        assert(boards@[i as int].entry < entries@.len());
        let id = chars_of(entries[boards[i].entry].vidpid.as_str());
        if has_prefix(id.as_slice(), "0483:374") {
            assert(is_stlink_entry(all[i as int]));
            return true;
        }
        i += 1;
    }
    false
}

fn reads_cmsisdap_of(board: &KnownBoard) -> (r: bool)
    ensures
        r == reads_cmsisdap(board@),
{
    let mut j: usize = 0;
    while j < board.probes.len()
        invariant
            j <= board.probes@.len(),
            forall|k: int| 0 <= k < j ==> !((#[trigger] board@.probes[k]) is CmsisDapTarget),
        decreases board.probes.len() - j,
    {
        if let ProbeKind::CmsisDapTarget = board.probes[j] {
            assert(board@.probes[j as int] is CmsisDapTarget);
            return true;
        }
        j += 1;
    }
    false
}

fn has_dap_of(boards: &Vec<Candidate>, Ghost(entries): Ghost<Seq<EntryView>>) -> (r: bool)
    ensures
        r == has_dap(candidate_views(boards@, entries)),
{
    let ghost all = candidate_views(boards@, entries);
    let mut i: usize = 0;
    while i < boards.len()
        invariant
            i <= boards@.len(),
            all == candidate_views(boards@, entries),
            forall|k: int| 0 <= k < i ==> !reads_cmsisdap((#[trigger] all[k]).board),
        decreases boards.len() - i,
    {
        if reads_cmsisdap_of(&boards[i].board) {
            assert(reads_cmsisdap(all[i as int].board));
            return true;
        }
        i += 1;
    }
    false
}

fn push_probe_notes(page: &mut Vec<String>)
    ensures
        texts(final(page)@) == texts(old(page)@) + probe_notes(),
{
    push_text(page, "");
    push_text(
        page,
        "Run with --probe to query each board (espflash / stm32flash / avrdude / picotool / DAPLink / pyocd).",
    );
    push_text(page, "Note: probing may reset the chip — do NOT use while a 3D-printer or");
    push_text(page, "      other live firmware is communicating.");
    assert(texts(page@) =~= texts(old(page)@) + probe_notes());
}

fn push_stlink_notes(page: &mut Vec<String>)
    ensures
        texts(final(page)@) == texts(old(page)@) + stlink_notes(),
{
    push_text(page, "");
    push_text(page, "ST-Link present — safe, read-only options (no chip reset):");
    push_text(page, "  --mcu-alive-native   read target ID over SWD via nusb (no probe-rs/pyocd).");
    push_text(
        page,
        "  --driver-status      check the MI_00 debug-interface driver binding (Windows).",
    );
    push_text(
        page,
        "  --install-driver     bind WinUSB to MI_00 if --mcu-alive-native can't claim it.",
    );
    assert(texts(page@) =~= texts(old(page)@) + stlink_notes());
}

fn push_dap_notes(page: &mut Vec<String>)
    ensures
        texts(final(page)@) == texts(old(page)@) + dap_notes(),
{
    push_text(page, "");
    push_text(page, "CMSIS-DAP probe present — `--probe` reads the downstream SWD target");
    push_text(page, "read-only via native CMSIS-DAP (no probe-rs/pyocd). On Windows the");
    push_text(page, "'CMSIS-DAP v2' interface must be on WinUSB (use Zadig: --install zadig).");
    assert(texts(page@) =~= texts(old(page)@) + dap_notes());
}

fn push_boards_part(page: &mut Vec<String>, entries: &Vec<Entry>, boards: &Vec<Candidate>)
    requires
        forall|i: int| 0 <= i < boards@.len() ==> (#[trigger] boards@[i]).entry < entries@.len(),
    ensures
        texts(final(page)@) == texts(old(page)@) + boards_part(
            candidate_views(boards@, entry_views(entries@)),
        ),
{
    let ghost all = candidate_views(boards@, entry_views(entries@));
    let ghost before = texts(page@);
    push_text(page, "Probable boards detected:");
    push_board_lines(page, entries, boards);
    push_probe_notes(page);
    let stlink = has_stlink_of(entries, boards);
    if stlink {
        push_stlink_notes(page);
    }
    let dap = has_dap_of(boards, Ghost(entry_views(entries@)));
    if dap {
        push_dap_notes(page);
    }
    assert(texts(page@) =~= before + boards_part(all));
}

/// The page of the listing, with the boards that were found in it. Where they
/// are to be probed, the probes take over below it.
pub fn cmd_list_usb(
    entries: &Vec<Entry>,
    rows: &Vec<Row>,
    boards: &Vec<Candidate>,
    probe: bool,
) -> (page: Vec<String>)
    requires
        forall|i: int| 0 <= i < boards@.len() ==> (#[trigger] boards@[i]).entry < entries@.len(),
    ensures
        texts(page@) == listing_page(
            rows@,
            candidate_views(boards@, entry_views(entries@)),
            probe,
        ),
{
    let ghost all = candidate_views(boards@, entry_views(entries@));
    let mut page = print_table(rows);
    if rows.len() == 0 {
        push_text(&mut page, "(no connected USB devices found)");
        return page;
    }
    if boards.len() == 0 {
        assert(texts(page@) =~= table(rows@) + below_table(all, probe));
        return page;
    }
    push_text(&mut page, "");
    if probe {
        assert(texts(page@) =~= table(rows@) + below_table(all, probe));
        return page;
    }
    push_boards_part(&mut page, entries, boards);
    assert(texts(page@) =~= table(rows@) + below_table(all, probe));
    page
}

// ── What the listing says of the devices ────────────────────────────────
proof fn lemma_decimal_lacks(v: nat, c: char)
    requires
        c == '.' || c == '-',
    ensures
        lacks(decimal(v), c),
{
    lemma_written_in_digits(v, 10, false);
    assert forall|i: int| 0 <= i < decimal(v).len() implies #[trigger] decimal(v)[i] != c by {
        assert(digit_value(decimal(v)[i], 10) is Some);
    }
}

proof fn lemma_reads_back(v: u8)
    ensures
        number(decimal(v as nat), 10, 255) == Some(v as nat),
{
    law_written_number_reads_back(v as nat, 10, false, 0, 255);
    assert(zero_padded(decimal(v as nat), 0) == decimal(v as nat));
}

/// The bus id of a device is the number of its bus, a dash, and the way to it: every
/// port of the chain in its order, with dots between them; or the address of a device
/// whose ports are not known.
pub proof fn law_busid_names_the_bus_and_every_port(d: UsbDevice, os: Os, buses: Seq<Seq<char>>)
    ensures
        ({
            let text = bus_id_text(d, os, buses);
            let ports = d.port_chain@;
            &&& split_once(text, '-') matches Some((bus, way))
            &&& number(bus, 10, 255) == Some(bus_number(d.bus_id@, os, buses) as nat)
            &&& ports.len() == 0 ==> number(way, 10, 255) == Some(d.address as nat)
            &&& ports.len() > 0 ==> {
                &&& split(way, '.').len() == ports.len()
                &&& forall|i: int|
                    0 <= i < ports.len() ==> number(#[trigger] split(way, '.')[i], 10, 255) == Some(
                        ports[i] as nat,
                    )
            }
        }),
{
    let text = bus_id_text(d, os, buses);
    let ports = d.port_chain@;
    let n = bus_number(d.bus_id@, os, buses);
    let bus = decimal(n as nat);
    let way = if ports.len() == 0 {
        decimal(d.address as nat)
    } else {
        port_path(ports)
    };
    reveal_strlit("-");
    reveal_strlit(".");
    assert("-"@ =~= seq!['-']);
    assert("."@ =~= seq!['.']);
    assert(text =~= bus + seq!['-'] + way);
    lemma_decimal_lacks(n as nat, '-');
    law_split_once_parts(bus, '-', way);
    lemma_reads_back(n);
    if ports.len() == 0 {
        lemma_reads_back(d.address);
    } else {
        let pieces = Seq::new(ports.len(), |i: int| decimal(ports[i] as nat));
        assert forall|i: int| 0 <= i < pieces.len() implies lacks(#[trigger] pieces[i], '.') by {
            lemma_decimal_lacks(ports[i] as nat, '.');
        }
        law_split_undoes_join(pieces, '.');
        assert forall|i: int| 0 <= i < ports.len() implies number(
            #[trigger] split(way, '.')[i],
            10,
            255,
        ) == Some(ports[i] as nat) by {
            lemma_reads_back(ports[i]);
        }
    }
}

/// No two devices with different ways to them, or on different buses, have one bus id.
pub proof fn law_different_places_have_different_busids(
    a: UsbDevice,
    b: UsbDevice,
    os: Os,
    buses: Seq<Seq<char>>,
)
    requires
        a.port_chain@.len() > 0,
        b.port_chain@.len() > 0,
        a.port_chain@ != b.port_chain@ || bus_number(a.bus_id@, os, buses) != bus_number(
            b.bus_id@,
            os,
            buses,
        ),
    ensures
        bus_id_text(a, os, buses) != bus_id_text(b, os, buses),
{
    law_busid_names_the_bus_and_every_port(a, os, buses);
    law_busid_names_the_bus_and_every_port(b, os, buses);
    if bus_id_text(a, os, buses) == bus_id_text(b, os, buses) {
        let p = a.port_chain@;
        let q = b.port_chain@;
        if let Some((_, way)) = split_once(bus_id_text(a, os, buses), '-') {
            assert(p.len() == q.len());
            assert forall|i: int| 0 <= i < p.len() implies p[i] == q[i] by {
                assert(number(split(way, '.')[i], 10, 255) == Some(p[i] as nat));
                assert(number(split(way, '.')[i], 10, 255) == Some(q[i] as nat));
            }
            assert(p =~= q);
        }
    }
}

/// A bus that is numbered in its name, in hex on macOS and in decimal on Linux, has
/// that number, with zeros before it or without; a name that is no number is bus zero.
pub proof fn law_bus_numbers_are_read_off_their_names(
    n: u8,
    width: nat,
    name: Seq<char>,
    buses: Seq<Seq<char>>,
)
    ensures
        bus_number(zero_padded(decimal(n as nat), width), Os::Linux, buses) == n,
        bus_number(hex_lower(n as nat, width), Os::Macos, buses) == n,
        number(name, 10, 255) is None ==> bus_number(name, Os::Linux, buses) == 0,
        number(name, 16, 255) is None ==> bus_number(name, Os::Macos, buses) == 0,
{
    law_written_number_reads_back(n as nat, 10, false, width, 255);
    law_written_number_reads_back(n as nat, 16, false, width, 255);
}

proof fn lemma_names_before_counts(names: Seq<Seq<char>>, id: Seq<char>, n: nat)
    requires
        n <= names.len(),
    ensures
        names_before(names, id, n) == names.take(n as int).to_set().filter(
            |s: Seq<char>| text_before(s, id, 0),
        ).len(),
        names.take(n as int).to_set().finite(),
    decreases n,
{
    let f = |s: Seq<char>| text_before(s, id, 0);
    let now = names.take(n as int);
    seq_to_set_is_finite(now);
    if n == 0 {
        assert(now.to_set().filter(f) =~= Set::empty());
    } else {
        let m = (n - 1) as nat;
        let before = names.take(m as int);
        let last = names[n - 1];
        lemma_names_before_counts(names, id, m);
        assert(now.to_set() =~= before.to_set().insert(last)) by {
            assert forall|x: Seq<char>| now.to_set().contains(x) == before.to_set().insert(
                last,
            ).contains(x) by {
                if now.contains(x) {
                    let k = choose|k: int| 0 <= k < now.len() && now[k] == x;
                    if k < m {
                        assert(before[k] == x);
                    }
                }
                if before.contains(x) {
                    let k = choose|k: int| 0 <= k < before.len() && before[k] == x;
                    assert(now[k] == x);
                }
                assert(now[m as int] == last);
            }
        }
        let some = before.to_set().filter(f);
        if text_before(last, id, 0) {
            assert(now.to_set().filter(f) =~= some.insert(last));
            assert(some.contains(last) == before.contains(last));
        } else {
            assert(now.to_set().filter(f) =~= some);
        }
    }
}

/// Windows names its buses; a bus counts by how many of the different names come before
/// its own. So the numbers go up with the names, however often a name is listed.
pub proof fn law_windows_buses_are_numbered_by_name(name: Seq<char>, buses: Seq<Seq<char>>)
    ensures
        buses.contains(name) ==> bus_number(name, Os::Windows, buses) as nat
            == buses.to_set().filter(|s: Seq<char>| text_before(s, name, 0)).len() % 256,
        !buses.contains(name) ==> bus_number(name, Os::Windows, buses) == 0,
{
    lemma_names_before_counts(buses, name, buses.len());
    assert(buses.take(buses.len() as int) =~= buses);
}

proof fn lemma_text_before(a: Seq<char>, b: Seq<char>, i: int)
    requires
        0 <= i <= a.len(),
        i <= b.len(),
        a.take(i) == b.take(i),
    ensures
        text_before(a, b, i) <==> exists|k: int|
            #![trigger a.take(k)]
            i <= k <= a.len() && k < b.len() && a.take(k) == b.take(k) && (k == a.len() || a[k]
                < b[k]),
    decreases b.len() - i,
{
    if i < b.len() && i < a.len() && a[i] == b[i] {
        assert(a.take(i + 1) =~= b.take(i + 1)) by {
            assert forall|j: int| 0 <= j < i + 1 implies #[trigger] a[j] == b[j] by {
                if j < i {
                    assert(a.take(i)[j] == b.take(i)[j]);
                    assert(a.take(i)[j] == a[j]);
                    assert(b.take(i)[j] == b[j]);
                }
            }
        }
        lemma_text_before(a, b, i + 1);
    } else if i < b.len() && i < a.len() {
        assert forall|k: int|
            #![trigger a.take(k)]
            i < k <= a.len() && k < b.len() implies a.take(k) != b.take(k) by {
            assert(a.take(k)[i] == a[i] && b.take(k)[i] == b[i]);
        }
        if a[i] < b[i] {
            assert(a.take(i) == b.take(i));
        }
    } else if i < b.len() {
        assert(a.take(i) == b.take(i));
    }
}

/// One name comes before another where it is a beginning of it, or has the smaller
/// character at the first place where they differ.
pub proof fn law_names_are_in_dictionary_order(a: Seq<char>, b: Seq<char>)
    ensures
        text_before(a, b, 0) <==> exists|k: int|
            #![trigger a.take(k)]
            0 <= k <= a.len() && k < b.len() && a.take(k) == b.take(k) && (k == a.len() || a[k]
                < b[k]),
{
    assert(a.take(0) =~= b.take(0));
    lemma_text_before(a, b, 0);
}

proof fn lemma_chain_before(a: Seq<u8>, b: Seq<u8>, i: int)
    requires
        0 <= i <= a.len(),
        i <= b.len(),
        a.take(i) == b.take(i),
    ensures
        chain_before(a, b, i) <==> exists|k: int|
            #![trigger a.take(k)]
            i <= k <= a.len() && k < b.len() && a.take(k) == b.take(k) && (k == a.len() || a[k]
                < b[k]),
    decreases b.len() - i,
{
    if i < b.len() && i < a.len() && a[i] == b[i] {
        assert(a.take(i + 1) =~= b.take(i + 1)) by {
            assert forall|j: int| 0 <= j < i + 1 implies #[trigger] a[j] == b[j] by {
                if j < i {
                    assert(a.take(i)[j] == b.take(i)[j]);
                    assert(a.take(i)[j] == a[j]);
                    assert(b.take(i)[j] == b[j]);
                }
            }
        }
        lemma_chain_before(a, b, i + 1);
    } else if i < b.len() && i < a.len() {
        assert forall|k: int|
            #![trigger a.take(k)]
            i < k <= a.len() && k < b.len() implies a.take(k) != b.take(k) by {
            assert(a.take(k)[i] == a[i] && b.take(k)[i] == b[i]);
        }
        if a[i] < b[i] {
            assert(a.take(i) == b.take(i));
        }
    } else if i < b.len() {
        assert(a.take(i) == b.take(i));
    }
}

/// One way comes before another on the same bus where it leads on to it (a hub comes
/// before what hangs on it), or has the smaller port where the ways part.
pub proof fn law_ways_are_in_order_of_their_ports(a: Seq<u8>, b: Seq<u8>)
    ensures
        chain_before(a, b, 0) <==> exists|k: int|
            #![trigger a.take(k)]
            0 <= k <= a.len() && k < b.len() && a.take(k) == b.take(k) && (k == a.len() || a[k]
                < b[k]),
{
    assert(a.take(0) =~= b.take(0));
    lemma_chain_before(a, b, 0);
}

/// The listing holds every device once. A lower bus stands before a higher one; on one
/// bus the ways are in order; and devices that share a place keep their order.
pub proof fn law_every_device_is_listed_once_and_in_order(
    order: Seq<int>,
    devices: Seq<UsbDevice>,
    os: Os,
    buses: Seq<Seq<char>>,
)
    requires
        is_order(order, places(devices, os, buses)),
    ensures
        order.len() == devices.len(),
        order.no_duplicates(),
        forall|k: int| 0 <= k < devices.len() ==> order.contains(k),
        forall|i: int, j: int|
            #![trigger order[i], order[j]]
            0 <= i < j < order.len() ==> {
                let a = devices[order[i]];
                let b = devices[order[j]];
                let m = bus_number(a.bus_id@, os, buses);
                let n = bus_number(b.bus_id@, os, buses);
                &&& m <= n
                &&& m == n ==> !chain_before(b.port_chain@, a.port_chain@, 0)
                &&& m == n && a.port_chain@ == b.port_chain@ ==> order[i] < order[j]
            },
{
    let at = places(devices, os, buses);
    assert forall|i: int, j: int|
        #![trigger order[i], order[j]]
        0 <= i < j < order.len() implies {
        let a = devices[order[i]];
        let b = devices[order[j]];
        let m = bus_number(a.bus_id@, os, buses);
        let n = bus_number(b.bus_id@, os, buses);
        &&& m <= n
        &&& m == n ==> !chain_before(b.port_chain@, a.port_chain@, 0)
        &&& m == n && a.port_chain@ == b.port_chain@ ==> order[i] < order[j]
        &&& order[i] != order[j]
    } by {
        let x = at[order[i]];
        let y = at[order[j]];
        assert(stands_before(at, order[i], order[j]));
        lemma_chain_antisymmetric(x.ports, y.ports, 0);
        lemma_chain_antisymmetric(y.ports, x.ports, 0);
    }
    let n = devices.len() as int;
    order.unique_seq_to_set();
    let all = set_int_range(0, n);
    lemma_int_range(0, n);
    assert(order.to_set().subset_of(all)) by {
        assert forall|x: int| order.to_set().contains(x) implies all.contains(x) by {
            let k = choose|k: int| 0 <= k < order.len() && order[k] == x;
            assert(0 <= order[k] < at.len());
        }
    }
    lemma_subset_equality(order.to_set(), all);
    assert forall|k: int| 0 <= k < devices.len() implies order.contains(k) by {
        assert(all.contains(k));
        assert(order.to_set().contains(k));
    }
}

/// A device is called by its maker and its product: both stand in the text, the maker
/// first, and neither is cut.
pub proof fn law_device_is_called_by_maker_and_product(d: UsbDevice)
    ensures
        d.manufacturer matches Some(m) ==> starts_with(device_text(d), m@),
        d.product matches Some(p) ==> ends_with(device_text(d), p@),
        d.manufacturer is Some && d.product is Some ==> device_text(d).len()
            == d.manufacturer->0@.len() + 1 + d.product->0@.len()
            && device_text(d)[d.manufacturer->0@.len() as int] == ' ',
        d.manufacturer is Some && d.product is None ==> device_text(d) == d.manufacturer->0@,
        d.manufacturer is None && d.product is Some ==> device_text(d) == d.product->0@,
        d.manufacturer is None && d.product is None ==> device_text(d) == "(unknown device)"@,
{
    reveal_strlit(" ");
    let text = device_text(d);
    if let Some(m) = d.manufacturer {
        assert(text.take(m@.len() as int) =~= m@);
    }
    if let Some(p) = d.product {
        assert(text.skip(text.len() - p@.len()) =~= p@);
    }
}

/// The speed that is shown is that of the last device with the identity, and a dash
/// where it has none or there is no such device.
pub proof fn law_speed_is_that_of_the_device(devices: Seq<UsbDevice>, id: (u16, u16), k: int)
    requires
        -1 <= k < devices.len(),
        k >= 0 ==> devices[k].vid == id.0 && devices[k].pid == id.1,
        forall|j: int|
            k < j < devices.len() ==> (#[trigger] devices[j]).vid != id.0 || devices[j].pid != id.1,
    ensures
        k == -1 ==> speed_text(devices, id) == "-"@,
        k >= 0 && devices[k].speed is Some ==> speed_text(devices, id) == devices[k].speed->0@,
        k >= 0 && devices[k].speed is None ==> speed_text(devices, id) == "-"@,
    decreases devices.len(),
{
    if devices.len() > 0 && k < devices.len() - 1 {
        let fewer = devices.drop_last();
        assert(devices.last() == devices[devices.len() - 1]);
        if k >= 0 {
            assert(fewer[k] == devices[k]);
        }
        assert forall|j: int| k < j < fewer.len() implies (#[trigger] fewer[j]).vid != id.0
            || fewer[j].pid != id.1 by {
            assert(fewer[j] == devices[j]);
        }
        law_speed_is_that_of_the_device(fewer, id, k);
    }
}

/// A column is as wide as its widest cell, the header among them.
pub proof fn law_column_is_as_wide_as_its_widest_cell(rows: Seq<Row>, c: int)
    requires
        0 <= c < 4,
    ensures
        column_width(rows, c) >= display_width(header()[c]),
        forall|i: int|
            0 <= i < rows.len() ==> column_width(rows, c) >= display_width(
                (#[trigger] cells(rows[i]))[c],
            ),
        column_width(rows, c) == display_width(header()[c]) || exists|i: int|
            0 <= i < rows.len() && column_width(rows, c) == display_width(
                (#[trigger] cells(rows[i]))[c],
            ),
    decreases rows.len(),
{
    if rows.len() > 0 {
        let fewer = rows.drop_last();
        law_column_is_as_wide_as_its_widest_cell(fewer, c);
        assert forall|i: int| 0 <= i < rows.len() implies column_width(rows, c) >= display_width(
            (#[trigger] cells(rows[i]))[c],
        ) by {
            if i < fewer.len() {
                assert(fewer[i] == rows[i]);
                assert(column_width(fewer, c) >= display_width(cells(fewer[i])[c]));
            }
        }
        if column_width(rows, c) == column_width(fewer, c) {
            if column_width(fewer, c) != display_width(header()[c]) {
                let i = choose|i: int|
                    0 <= i < fewer.len() && column_width(fewer, c) == display_width(
                        (#[trigger] cells(fewer[i]))[c],
                    );
                assert(cells(rows[i]) == cells(fewer[i]));
            }
        } else {
            assert(cells(rows[rows.len() - 1]) == cells(rows.last()));
        }
    }
}

proof fn lemma_trim_end_keeps(before: Seq<char>, cell: Seq<char>, after: Seq<char>)
    requires
        cell.len() > 0,
        !is_white(cell.last()),
    ensures
        contains(trim_end(before + cell + after), cell),
{
    let all = before + cell + after;
    lemma_drop_white(all, all.len() as int);
    let end = drop_white(all, all.len() as int);
    let last = before.len() + cell.len() - 1;
    assert(all[last] == cell.last());
    assert(end > last);
    let t = trim_end(all);
    let at = before.len() as int;
    assert(t.subrange(at, at + cell.len()) =~= cell);
    lemma_standing_is_contained(t, cell, 0, at);
}

proof fn lemma_padded_cell_is_kept(before: Seq<char>, cell: Seq<char>, w: nat, after: Seq<char>)
    requires
        cell.len() > 0,
        !is_white(cell.last()),
    ensures
        contains(trim_end(before + padded_to(cell, w) + after), cell),
{
    let pad = if display_width(cell) < w {
        spaces((w - display_width(cell)) as nat)
    } else {
        Seq::empty()
    };
    assert(before + padded_to(cell, w) + after =~= before + cell + (pad + after));
    lemma_trim_end_keeps(before, cell, pad + after);
}

spec fn four(a: Seq<char>, b: Seq<char>, d: Seq<char>, e: Seq<char>, gap: Seq<char>) -> Seq<char> {
    a + gap + b + gap + d + gap + e
}

proof fn lemma_four(a: Seq<char>, b: Seq<char>, d: Seq<char>, e: Seq<char>, gap: Seq<char>)
    ensures
        four(a, b, d, e, gap) == Seq::<char>::empty() + a + (gap + b + gap + d + gap + e),
        four(a, b, d, e, gap) == (a + gap) + b + (gap + d + gap + e),
        four(a, b, d, e, gap) == (a + gap + b + gap) + d + (gap + e),
        four(a, b, d, e, gap) == (a + gap + b + gap + d + gap) + e + Seq::<char>::empty(),
{
    assert(four(a, b, d, e, gap) =~= Seq::<char>::empty() + a + (gap + b + gap + d + gap + e));
    assert(four(a, b, d, e, gap) =~= (a + gap) + b + (gap + d + gap + e));
    assert(four(a, b, d, e, gap) =~= (a + gap + b + gap) + d + (gap + e));
    assert(four(a, b, d, e, gap) =~= (a + gap + b + gap + d + gap) + e + Seq::<char>::empty());
}

/// The table has a line for every row, behind a header and a rule, and no cell is cut.
pub proof fn law_table_shows_every_cell(rows: Seq<Row>, i: int, c: int)
    requires
        0 <= i < rows.len(),
        0 <= c < 4,
        cells(rows[i])[c].len() > 0,
        !is_white(cells(rows[i])[c].last()),
    ensures
        table(rows).len() == rows.len() + 2,
        contains(table(rows)[i + 2], cells(rows[i])[c]),
{
    let r = cells(rows[i]);
    let a = padded_to(r[0], column_width(rows, 0));
    let b = padded_to(r[1], column_width(rows, 1));
    let d = padded_to(r[2], column_width(rows, 2));
    let e = padded_to(r[3], column_width(rows, 3));
    let gap = "  "@;
    assert(table(rows)[i + 2] == trim_end(four(a, b, d, e, gap)));
    lemma_four(a, b, d, e, gap);
    let w = column_width(rows, c);
    if c == 0 {
        lemma_padded_cell_is_kept(Seq::empty(), r[0], w, gap + b + gap + d + gap + e);
    } else if c == 1 {
        lemma_padded_cell_is_kept(a + gap, r[1], w, gap + d + gap + e);
    } else if c == 2 {
        lemma_padded_cell_is_kept(a + gap + b + gap, r[2], w, gap + e);
    } else {
        lemma_padded_cell_is_kept(a + gap + b + gap + d + gap, r[3], w, Seq::empty());
    }
}

/// The boards of two listings one behind the other are those of the one and then those
/// of the other; a listed device is a board exactly where its identity is a known one.
pub proof fn law_boards_are_found_one_by_one(
    a: Seq<EntryView>,
    b: Seq<EntryView>,
    e: EntryView,
)
    ensures
        known_boards(a + b) == known_boards(a) + known_boards(b),
        ({
            let (vid, pid) = id_pair(e.vidpid);
            match board_at(vid, pid) {
                Some(board) => known_boards(seq![e]) == seq![CandidateView { entry: e, board }],
                None => known_boards(seq![e]) == Seq::<CandidateView>::empty(),
            }
        }),
    decreases b.len(),
{
    let one = seq![e];
    assert(one.drop_last() =~= Seq::empty());
    assert(one.last() == e);
    reveal_with_fuel(known_boards, 2);
    let (vid, pid) = id_pair(e.vidpid);
    match board_at(vid, pid) {
        Some(board) => {
            assert(known_boards(one) =~= seq![CandidateView { entry: e, board }]);
        },
        None => {
            assert(known_boards(one) =~= Seq::empty());
        },
    }
    if b.len() == 0 {
        assert(a + b =~= a);
        assert(known_boards(a) + known_boards(b) =~= known_boards(a));
    } else {
        law_boards_are_found_one_by_one(a, b.drop_last(), e);
        assert((a + b).drop_last() =~= a + b.drop_last());
        assert((a + b).last() == b.last());
        assert(known_boards(a + b) =~= known_boards(a) + known_boards(b));
    }
}

/// A listing that is not probed names every board on a line of its own, in order, with
/// its identity, its name and its bus id.
pub proof fn law_every_board_has_its_line(rows: Seq<Row>, boards: Seq<CandidateView>, i: int)
    requires
        rows.len() > 0,
        0 <= i < boards.len(),
    ensures
        ({
            let page = listing_page(rows, boards, false);
            let line = page[rows.len() + 4 + i];
            &&& page.len() >= rows.len() + 4 + boards.len()
            &&& contains(line, boards[i].entry.vidpid)
            &&& contains(line, boards[i].board.name@)
            &&& ends_with(line, boards[i].entry.busid)
        }),
{
    let page = listing_page(rows, boards, false);
    let c = boards[i];
    let line = board_line(c);
    assert(page[rows.len() + 4 + i] == board_lines(boards)[i]);
    let tags = join(labels(c.board), "+"@);
    let x = "  - ["@ + tags + "] "@;
    assert(line =~= x + c.entry.vidpid + (" ("@ + c.board.name@ + ") at BUSID "@ + c.entry.busid));
    law_contains_within(x, c.entry.vidpid, " ("@ + c.board.name@ + ") at BUSID "@ + c.entry.busid);
    let y = x + c.entry.vidpid + " ("@;
    assert(line =~= y + c.board.name@ + (") at BUSID "@ + c.entry.busid));
    law_contains_within(y, c.board.name@, ") at BUSID "@ + c.entry.busid);
    assert(line.skip(line.len() - c.entry.busid.len()) =~= c.entry.busid);
}

/// What stands below the table: without a board nothing, where boards are probed one
/// blank line; otherwise the boards, the notes on probing, and further notes exactly
/// where an ST-Link or a CMSIS-DAP target is among them.
pub proof fn law_notes_below_the_table(boards: Seq<CandidateView>)
    ensures
        ({
            let part = seq![""@, "Probable boards detected:"@] + board_lines(boards)
                + probe_notes();
            let stlink = exists|i: int|
                0 <= i < boards.len() && starts_with(
                    (#[trigger] boards[i]).entry.vidpid,
                    "0483:374"@,
                );
            let dap = exists|i: int, j: int|
                0 <= i < boards.len() && 0 <= j < boards[i].board.probes.len()
                    && (#[trigger] boards[i].board.probes[j]) is CmsisDapTarget;
            &&& boards.len() == 0 ==> below_table(boards, true).len() == 0 && below_table(
                boards,
                false,
            ).len() == 0
            &&& boards.len() > 0 ==> below_table(boards, true) == seq![""@]
            &&& boards.len() > 0 && !stlink && !dap ==> below_table(boards, false) == part
            &&& boards.len() > 0 && stlink && !dap ==> below_table(boards, false) == part
                + stlink_notes()
            &&& boards.len() > 0 && !stlink && dap ==> below_table(boards, false) == part
                + dap_notes()
            &&& boards.len() > 0 && stlink && dap ==> below_table(boards, false) == part
                + stlink_notes() + dap_notes()
            &&& stlink_notes()[1] == "ST-Link present — safe, read-only options (no chip reset):"@
            &&& dap_notes()[1]
                == "CMSIS-DAP probe present — `--probe` reads the downstream SWD target"@
        }),
{
    let part = seq![""@, "Probable boards detected:"@] + board_lines(boards) + probe_notes();
    lemma_dap_among(boards);
    lemma_stlink_among(boards);
    if boards.len() > 0 {
        lemma_below(boards, part);
    }
}

proof fn lemma_dap_among(boards: Seq<CandidateView>)
    ensures
        has_dap(boards) == exists|i: int, j: int|
            0 <= i < boards.len() && 0 <= j < boards[i].board.probes.len()
                && (#[trigger] boards[i].board.probes[j]) is CmsisDapTarget,
{
    if has_dap(boards) {
        let i = choose|i: int| 0 <= i < boards.len() && reads_cmsisdap((#[trigger] boards[i]).board);
        let j = choose|j: int|
            0 <= j < boards[i].board.probes.len() && (#[trigger] boards[i].board.probes[j])
                is CmsisDapTarget;
        assert(boards[i].board.probes[j] is CmsisDapTarget);
    }
    if exists|i: int, j: int|
        0 <= i < boards.len() && 0 <= j < boards[i].board.probes.len()
            && (#[trigger] boards[i].board.probes[j]) is CmsisDapTarget {
        let (i, j) = choose|i: int, j: int|
            0 <= i < boards.len() && 0 <= j < boards[i].board.probes.len()
                && (#[trigger] boards[i].board.probes[j]) is CmsisDapTarget;
        assert(reads_cmsisdap(boards[i].board));
    }
}

proof fn lemma_stlink_among(boards: Seq<CandidateView>)
    ensures
        has_stlink(boards) == exists|i: int|
            0 <= i < boards.len() && starts_with((#[trigger] boards[i]).entry.vidpid, "0483:374"@),
{
    if has_stlink(boards) {
        let i = choose|i: int| 0 <= i < boards.len() && is_stlink_entry(#[trigger] boards[i]);
        assert(starts_with(boards[i].entry.vidpid, "0483:374"@));
    }
    if exists|i: int|
        0 <= i < boards.len() && starts_with((#[trigger] boards[i]).entry.vidpid, "0483:374"@) {
        let i = choose|i: int|
            0 <= i < boards.len() && starts_with((#[trigger] boards[i]).entry.vidpid, "0483:374"@);
        assert(is_stlink_entry(boards[i]));
    }
}

proof fn lemma_below(boards: Seq<CandidateView>, part: Seq<Seq<char>>)
    requires
        boards.len() > 0,
        part == seq![""@, "Probable boards detected:"@] + board_lines(boards) + probe_notes(),
    ensures
        !has_stlink(boards) && !has_dap(boards) ==> below_table(boards, false) == part,
        has_stlink(boards) && !has_dap(boards) ==> below_table(boards, false) == part
            + stlink_notes(),
        !has_stlink(boards) && has_dap(boards) ==> below_table(boards, false) == part
            + dap_notes(),
        has_stlink(boards) && has_dap(boards) ==> below_table(boards, false) == part
            + stlink_notes() + dap_notes(),
{
    let none = Seq::<Seq<char>>::empty();
    let s = if has_stlink(boards) {
        stlink_notes()
    } else {
        none
    };
    let d = if has_dap(boards) {
        dap_notes()
    } else {
        none
    };
    let head = seq!["Probable boards detected:"@] + board_lines(boards) + probe_notes();
    assert(boards_part(boards) == head + s + d);
    assert(part =~= seq![""@] + head);
    assert(below_table(boards, false) =~= part + s + d);
    assert(part + none =~= part);
    assert(part + s + none =~= part + s);
}

/// The rule below the header is as long as the columns and the two blanks between each
/// pair of them.
pub proof fn law_rule_is_as_long_as_the_table(rows: Seq<Row>)
    ensures
        rule(rows).len() == column_width(rows, 0) + column_width(rows, 1) + column_width(rows, 2)
            + column_width(rows, 3) + 6,
        forall|i: int| 0 <= i < rule(rows).len() ==> #[trigger] rule(rows)[i] == '-',
        table(rows)[1] == rule(rows),
{
}

/// Each entry has its row, in order, with the speed of its device behind it; the columns
/// are named above them.
pub proof fn law_rows_are_those_of_the_entries(
    rows: Seq<Row>,
    entries: Seq<EntryView>,
    devices: Seq<UsbDevice>,
    i: int,
)
    requires
        are_rows_of(rows, entries, devices),
        0 <= i < entries.len(),
    ensures
        rows.len() == entries.len(),
        rows[i].busid@ == entries[i].busid,
        rows[i].vidpid@ == entries[i].vidpid,
        rows[i].device@ == entries[i].device,
        rows[i].speed@ == speed_text(devices, id_pair(entries[i].vidpid)),
        header() == seq!["BUSID"@, "VID:PID"@, "DEVICE"@, "SPEED"@],
{
    let r = rows[i];
    assert(is_row_of(r, entries[i], devices));
    assert(cells(r)[0] == r.busid@ && cells(r)[1] == r.vidpid@ && cells(r)[2] == r.device@ && cells(
        r,
    )[3] == r.speed@);
}

} // verus!
