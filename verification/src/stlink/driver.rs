//! Which driver the debug interface of an ST-Link is bound to on Windows.
use vstd::prelude::*;
use vstd::string::*;
use crate::number::{
    decimal, digit_value, hex_upper, law_numbers, lemma_written_in_digits, number, push_decimal,
    push_hex_upper, read_number,
};
use crate::pieces::{is_text_ignoring_case, lines, lines_of, lower, same_ignoring_case};
use crate::text::{
    chars_of, contains, ends_with, law_contains_within, law_prefix, law_trim_finds_the_text,
    starts_with, string_of, strip_prefix, strip_prefix_of, trim, trim_of, views,
};
use crate::dash_if_empty;

verus! {

/// What the ST-Link debug interface's WinUSB binding looks like on Windows.
#[derive(Debug)]
pub enum StlinkDriver {
    /// Bound to WinUSB, on a node that is started or whose state is not told —
    /// pyocd/libusb can open it.
    WinUsb,
    /// Present but bound to some other service (e.g. `usbccgp` / a vendor
    /// driver / nothing), or to WinUSB on a node that is stopped — pyocd cannot
    /// open it until that is mended.
    Other(String),
}

/// What follows `name` on the first of the lines, from `i` on, that begins with
/// it once white space is trimmed.
pub open spec fn first_field(lines: Seq<Seq<char>>, name: Seq<char>, i: int) -> Option<Seq<char>>
    decreases lines.len() - i,
{
    if i < 0 || i >= lines.len() {
        None
    } else {
        match strip_prefix(trim(lines[i]), name) {
            Some(v) => Some(v),
            None => first_field(lines, name, i + 1),
        }
    }
}

pub(crate) fn first_field_of<'a>(lines: &Vec<&'a [char]>, name: &str) -> (r: Option<&'a [char]>)
    ensures
        match r {
            Some(v) => first_field(views(lines@), name@, 0) == Some(v@),
            None => first_field(views(lines@), name@, 0) is None,
        },
{
    let mut i: usize = 0;
    while i < lines.len()
        invariant
            i <= lines@.len(),
            first_field(views(lines@), name@, 0) == first_field(views(lines@), name@, i as int),
        decreases lines.len() - i,
    {
        assert(views(lines@)[i as int] == lines@[i as int]@);
        if let Some(v) = strip_prefix_of(trim_of(lines[i]), name) {
            return Some(v);
        }
        i += 1;
    }
    None
}

/// The number that a field gives.
pub open spec fn field_number(lines: Seq<Seq<char>>, name: Seq<char>) -> Option<u32> {
    match first_field(lines, name, 0) {
        Some(v) => match number(trim(v), 10, u32::MAX as nat) {
            Some(n) => Some(n as u32),
            None => None,
        },
        None => None,
    }
}

/// The text that a field gives, or a question mark where it is missing.
pub open spec fn field_text(lines: Seq<Seq<char>>, name: Seq<char>) -> Seq<char> {
    match first_field(lines, name, 0) {
        Some(v) => trim(v),
        None => trim("?"@),
    }
}

/// The service name says WinUSB, in whatever case.
pub open spec fn is_winusb(service: Seq<char>) -> bool {
    same_ignoring_case(service, "WinUSB"@)
}

/// The device node is started, or there is no word of it.
pub open spec fn node_started(lines: Seq<Seq<char>>) -> bool {
    match field_number(lines, "DEVNODE="@) {
        Some(flags) => flags & 0x8 != 0,
        None => true,
    }
}

pub open spec fn problem_code(lines: Seq<Seq<char>>) -> u32 {
    match field_number(lines, "PROBLEM="@) {
        Some(code) => code,
        None => 0,
    }
}

pub open spec fn unbound_text(lines: Seq<Seq<char>>) -> Seq<char> {
    "no function driver is bound (problem code "@ + decimal(problem_code(lines) as nat)
        + "); INF "@ + dash_if_empty(field_text(lines, "INF="@)) + ", provider "@ + dash_if_empty(
        field_text(lines, "PROVIDER="@),
    ) + ", version "@ + dash_if_empty(field_text(lines, "VERSION="@))
}

pub open spec fn filter_conflict(lines: Seq<Seq<char>>) -> Seq<char> {
    let filters = field_text(lines, "FILTERS="@);
    if filters.len() == 0 {
        ""@
    } else {
        "; conflicting upper filter(s): "@ + filters
    }
}

pub open spec fn stopped_text(lines: Seq<Seq<char>>) -> Seq<char> {
    "WinUSB device node stopped (problem code "@ + decimal(problem_code(lines) as nat) + ")"@
        + filter_conflict(lines) + "; INF "@ + field_text(lines, "INF="@) + ", provider "@
        + field_text(lines, "PROVIDER="@) + ", version "@ + field_text(lines, "VERSION="@)
}

/// The binding that a report describes: unknown without a report or without a
/// service in it; `None` inside stands for WinUSB, a text for anything else.
pub open spec fn binding(report: Option<Seq<char>>) -> Option<Option<Seq<char>>> {
    match report {
        None => None,
        Some(text) => {
            let all = lines(text);
            match first_field(all, "SERVICE="@, 0) {
                None => None,
                Some(v) => {
                    let service = trim(v);
                    if service.len() == 0 {
                        Some(Some(unbound_text(all)))
                    } else if !is_winusb(service) {
                        Some(Some(service))
                    } else if node_started(all) {
                        Some(None)
                    } else {
                        Some(Some(stopped_text(all)))
                    }
                },
            }
        },
    }
}

fn field_number_of(lines: &Vec<&[char]>, name: &str) -> (r: Option<u32>)
    ensures
        r == field_number(views(lines@), name@),
{
    match first_field_of(lines, name) {
        Some(v) => match read_number(trim_of(v), 10, 0xFFFF_FFFF) {
            Some(n) => Some(n as u32),
            None => None,
        },
        None => None,
    }
}

fn field_text_of(lines: &Vec<&[char]>, name: &str) -> (r: String)
    ensures
        r@ == field_text(views(lines@), name@),
{
    match first_field_of(lines, name) {
        Some(v) => string_of(trim_of(v)),
        None => {
            let unknown = chars_of("?");
            string_of(trim_of(unknown.as_slice()))
        },
    }
}

fn push_or_dash(s: &mut String, value: &str)
    ensures
        final(s)@ == old(s)@ + dash_if_empty(value@),
{
    s.append(crate::value_or_dash(value));
}

/// Tell which driver the ST-Link *debug* interface is bound to. pyocd/libusb
/// can only open it when it's WinUSB (installed via Zadig — `--install zadig`);
/// a wrong/missing driver makes every SWD read fail with a misleading
/// "No device connected", so it is looked at *before* probing. `report` is what
/// the script of [`stlink_driver_script`] printed, or `None` where it could not
/// be run. Returns `None` when the binding can't be determined (then the probe
/// is tried anyway rather than blocked on a guess).
pub fn stlink_driver_check(report: Option<&str>) -> (r: Option<StlinkDriver>)
    ensures
        match r {
            Some(StlinkDriver::WinUsb) => binding(
                match report {
                    Some(s) => Some(s@),
                    None => None,
                },
            ) == Some(None::<Seq<char>>),
            Some(StlinkDriver::Other(state)) => binding(
                match report {
                    Some(s) => Some(s@),
                    None => None,
                },
            ) == Some(Some(state@)),
            None => binding(
                match report {
                    Some(s) => Some(s@),
                    None => None,
                },
            ) is None,
        },
{
    let text = match report {
        Some(s) => chars_of(s),
        None => {
            return None;
        },
    };
    let all = lines_of(text.as_slice());
    let service = match first_field_of(&all, "SERVICE=") {
        Some(v) => trim_of(v),
        None => {
            return None;
        },
    };
    let started = match field_number_of(&all, "DEVNODE=") {
        Some(flags) => flags & 0x8 != 0,
        None => true,
    };
    let problem: u32 = match field_number_of(&all, "PROBLEM=") {
        Some(code) => code,
        None => 0,
    };
    let inf = field_text_of(&all, "INF=");
    let provider = field_text_of(&all, "PROVIDER=");
    let version = field_text_of(&all, "VERSION=");
    if service.len() == 0 {
        let mut s = "no function driver is bound (problem code ".to_string();
        push_decimal(&mut s, problem as u64);
        s.append("); INF ");
        push_or_dash(&mut s, inf.as_str());
        s.append(", provider ");
        push_or_dash(&mut s, provider.as_str());
        s.append(", version ");
        push_or_dash(&mut s, version.as_str());
        return Some(StlinkDriver::Other(s));
    }
    if !is_text_ignoring_case(service, "WinUSB") {
        return Some(StlinkDriver::Other(string_of(service)));
    }
    if started {
        return Some(StlinkDriver::WinUsb);
    }
    let filters = field_text_of(&all, "FILTERS=");
    let mut conflict = String::new();
    if !filters.as_str().is_empty() {
        conflict.append("; conflicting upper filter(s): ");
        conflict.append(filters.as_str());
    }
    assert(conflict@ =~= filter_conflict(lines(report->0@))) by {
        reveal_strlit("");
    }
    let mut s = "WinUSB device node stopped (problem code ".to_string();
    push_decimal(&mut s, problem as u64);
    s.append(")");
    s.append(conflict.as_str());
    s.append("; INF ");
    s.append(inf.as_str());
    s.append(", provider ");
    s.append(provider.as_str());
    s.append(", version ");
    s.append(version.as_str());
    Some(StlinkDriver::Other(s))
}

/// The PowerShell script that describes the debug interface, up to the product
/// id. It takes MI_00 of a composite device (V2-1/V3) and falls back to the bare
/// device (no MI_xx) for the single-interface V2 — otherwise the composite
/// *parent* (also without MI_, service `usbccgp`) would be picked.
pub const SCRIPT_HEAD: &'static str = "$ErrorActionPreference='SilentlyContinue';$all = Get-PnpDevice -PresentOnly | Where-Object { $_.InstanceId -match 'VID_0483&PID_";

/// The rest of the script.
pub const SCRIPT_TAIL: &'static str = "' };$d = $all | Where-Object { $_.InstanceId -match '&MI_00' } | Select-Object -First 1;if (-not $d) { $d = $all | Where-Object { $_.InstanceId -notmatch '&MI_' } | Select-Object -First 1 };if ($d) {$svc=(Get-PnpDeviceProperty -InstanceId $d.InstanceId -KeyName 'DEVPKEY_Device_Service').Data;$node=(Get-PnpDeviceProperty -InstanceId $d.InstanceId -KeyName 'DEVPKEY_Device_DevNodeStatus').Data;$problem=(Get-PnpDeviceProperty -InstanceId $d.InstanceId -KeyName 'DEVPKEY_Device_ProblemCode').Data;$filters=(Get-PnpDeviceProperty -InstanceId $d.InstanceId -KeyName 'DEVPKEY_Device_UpperFilters').Data -join ',';$inf=(Get-PnpDeviceProperty -InstanceId $d.InstanceId -KeyName 'DEVPKEY_Device_DriverInfPath').Data;$provider=(Get-PnpDeviceProperty -InstanceId $d.InstanceId -KeyName 'DEVPKEY_Device_DriverProvider').Data;$version=(Get-PnpDeviceProperty -InstanceId $d.InstanceId -KeyName 'DEVPKEY_Device_DriverVersion').Data;Write-Output \"SERVICE=$svc\"; Write-Output \"DEVNODE=$node\"; Write-Output \"PROBLEM=$problem\"; Write-Output \"FILTERS=$filters\";Write-Output \"INF=$inf\"; Write-Output \"PROVIDER=$provider\"; Write-Output \"VERSION=$version\"}";

/// The script that prints the driver binding of the ST-Link with this product id.
pub fn stlink_driver_script(pid: u16) -> (s: String)
    ensures
        s@ == SCRIPT_HEAD@ + hex_upper(pid as nat, 4) + SCRIPT_TAIL@,
{
    let mut s = SCRIPT_HEAD.to_string();
    push_hex_upper(&mut s, pid as u64, 4);
    s.append(SCRIPT_TAIL);
    s
}

// ── What a report says ──────────────────────────────────────────────────
/// A field is what follows its name on the first line that begins with it.
pub proof fn law_first_line_with_the_name_decides(
    all: Seq<Seq<char>>,
    name: Seq<char>,
    i: int,
    k: int,
    value: Seq<char>,
)
    requires
        0 <= i <= k <= all.len(),
        forall|j: int| i <= j < k ==> !starts_with(trim(#[trigger] all[j]), name),
        k < all.len() ==> trim(all[k]) == name + value,
    ensures
        k < all.len() ==> first_field(all, name, i) == Some(value),
        k == all.len() ==> first_field(all, name, i) is None,
    decreases k - i,
{
    if i < k {
        assert(!starts_with(trim(all[i]), name));
        law_prefix(name, value, trim(all[i]));
        law_first_line_with_the_name_decides(all, name, i + 1, k, value);
    } else if k < all.len() {
        law_prefix(name, value, value);
    }
}

/// A number in a field is read in decimal; without a field there is none.
pub proof fn law_field_numbers(all: Seq<Seq<char>>, name: Seq<char>, n: u32)
    ensures
        first_field(all, name, 0) == Some(decimal(n as nat)) ==> field_number(all, name) == Some(n),
        first_field(all, name, 0) is None ==> field_number(all, name) is None && field_text(
            all,
            name,
        ) == "?"@,
        first_field(all, name, 0) matches Some(v) ==> field_text(all, name) == trim(v),
{
    let none = Seq::<char>::empty();
    let d = decimal(n as nat);
    lemma_written_in_digits(n as nat, 10, false);
    assert(digit_value(d[0], 10) is Some);
    assert(digit_value(d[d.len() - 1], 10) is Some);
    law_trim_finds_the_text(none, d, none);
    assert(none + d + none =~= d);
    law_numbers(d, 10, u32::MAX as nat);
    reveal_strlit("?");
    law_trim_finds_the_text(none, "?"@, none);
    assert(none + "?"@ + none =~= "?"@);
}

/// The debug interface can be opened exactly where its service is WinUSB, in whatever
/// case, and bit 3 of the state of its node is set or the state is not told. A service
/// of another name is reported by it; without a service nothing is bound; and where the
/// report says nothing of a service, nothing is known.
pub proof fn law_winusb_on_a_started_node(text: Seq<char>)
    ensures
        ({
            let all = lines(text);
            let service = first_field(all, "SERVICE="@, 0);
            let flags = field_number(all, "DEVNODE="@);
            let b = binding(Some(text));
            let winusb = service matches Some(v) && lower(trim(v)) == lower("WinUSB"@);
            let started = flags is None || flags->0 / 8 % 2 == 1;
            &&& b is None <==> service is None
            &&& b == Some(None::<Seq<char>>) <==> winusb && started
            &&& (service matches Some(v) && trim(v).len() > 0 && !winusb) ==> b == Some(
                Some(trim(service->0)),
            )
            &&& winusb && !started ==> (b matches Some(Some(why)) && starts_with(
                why,
                "WinUSB device node stopped (problem code "@ + decimal(problem_code(all) as nat)
                    + ")"@,
            ))
            &&& (service matches Some(v) && trim(v).len() == 0) ==> (b matches Some(Some(why))
                && starts_with(
                why,
                "no function driver is bound (problem code "@ + decimal(problem_code(all) as nat)
                    + ")"@,
            ))
        }),
        binding(None) is None,
{
    let all = lines(text);
    reveal_strlit("WinUSB");
    reveal_strlit("); INF ");
    reveal_strlit(")");
    assert(lower("WinUSB"@).len() == 6);
    if let Some(f) = field_number(all, "DEVNODE="@) {
        assert((f & 0x8 != 0) == (f / 8 % 2 == 1)) by (bit_vector);
    }
    let stopped = "WinUSB device node stopped (problem code "@ + decimal(problem_code(all) as nat)
        + ")"@;
    let s = stopped_text(all);
    assert(s.take(stopped.len() as int) =~= stopped);
    let unbound = "no function driver is bound (problem code "@ + decimal(problem_code(all) as nat)
        + ")"@;
    let u = unbound_text(all);
    assert(u.take(unbound.len() as int) =~= unbound);
    if let Some(v) = first_field(all, "SERVICE="@, 0) {
        assert(lower(trim(v)).len() == trim(v).len());
    }
}

/// Both complaints end in the INF, its provider and its version, and a stopped node
/// names the filters in the way.
pub proof fn law_complaints_name_the_driver(all: Seq<Seq<char>>)
    ensures
        ends_with(
            stopped_text(all),
            "; INF "@ + field_text(all, "INF="@) + ", provider "@ + field_text(all, "PROVIDER="@)
                + ", version "@ + field_text(all, "VERSION="@),
        ),
        field_text(all, "FILTERS="@).len() > 0 ==> contains(
            stopped_text(all),
            "; conflicting upper filter(s): "@ + field_text(all, "FILTERS="@),
        ),
        ends_with(
            unbound_text(all),
            "INF "@ + dash_if_empty(field_text(all, "INF="@)) + ", provider "@ + dash_if_empty(
                field_text(all, "PROVIDER="@),
            ) + ", version "@ + dash_if_empty(field_text(all, "VERSION="@)),
        ),
{
    let tail = "; INF "@ + field_text(all, "INF="@) + ", provider "@ + field_text(
        all,
        "PROVIDER="@,
    ) + ", version "@ + field_text(all, "VERSION="@);
    let head = "WinUSB device node stopped (problem code "@ + decimal(problem_code(all) as nat)
        + ")"@;
    let mid = filter_conflict(all);
    let s = stopped_text(all);
    assert(s =~= head + mid + tail);
    law_contains_within(head, mid, tail);
    assert(s.skip(s.len() - tail.len()) =~= tail);
    reveal_strlit("); INF ");
    reveal_strlit("INF ");
    let end = "INF "@ + dash_if_empty(field_text(all, "INF="@)) + ", provider "@ + dash_if_empty(
        field_text(all, "PROVIDER="@),
    ) + ", version "@ + dash_if_empty(field_text(all, "VERSION="@));
    let u = unbound_text(all);
    assert(u.skip(u.len() - end.len()) =~= end);
}

/// The problem code is the number of its field, and zero without one.
pub proof fn law_problem_code_is_its_field(all: Seq<Seq<char>>)
    ensures
        problem_code(all) == match field_number(all, "PROBLEM="@) {
            Some(code) => code,
            None => 0,
        },
{
}

} // verus!
