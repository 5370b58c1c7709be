//! `--driver-status` and `--install-driver`: what to show, and what to do.
use vstd::prelude::*;
use vstd::string::*;
use crate::number::{
    decimal, hex_lower, push_decimal, push_decimal_padded, push_hex_lower, zero_padded,
};
use crate::page::{joined, push_line, push_page, push_text};
use crate::pieces::{join, join_of, lines, lines_of, upper, upper_of};
use crate::stlink::controller::{usb_id, usb_id_of};
use crate::text::{
    chars_of, contains, has_text, same_str, starts_with, string_of, texts, trim, trim_of, views,
};
use crate::tool::ToolOutput;
use crate::windows::{
    advice, classify_driver_issue, healthy, instance_vidpid, is_stlink_debug, issue_action,
    issue_label, issue_meaning, known_driver_advice, node_issue, node_views, vid_pid,
    DriverAdvice, NodeView, WindowsUsbDriverNode,
};
use crate::{dash_if_empty, value_or_dash};

verus! {

// ── What is on hand ─────────────────────────────────────────────────────
/// Whether the recommended driver is bundled, and what is staged already.
/// Nothing is said where no INF is bundled for it; nothing of the driver store
/// where there is none.
pub open spec fn availability_page(
    local_inf: Option<Seq<char>>,
    found: Option<Seq<char>>,
    file_name: Seq<char>,
    staged: Option<Seq<Seq<char>>>,
) -> Seq<Seq<char>> {
    match local_inf {
        None => Seq::empty(),
        Some(rel) => {
            let p = seq![
                match found {
                    Some(path) => "  Local INF: AVAILABLE - "@ + path + " (no download needed)"@,
                    None => "  Local INF: not bundled at "@ + rel + "; download required"@,
                },
            ];
            match staged {
                None => p,
                Some(names) => p.push(
                    if names.len() == 0 {
                        "  Driver store: no package staged from "@ + file_name + " yet"@
                    } else {
                        "  Driver store: already staged as "@ + join(names, ", "@)
                    },
                ),
            }
        },
    }
}

/// The lines that tell whether the recommended driver is already on hand —
/// bundled in this repo (`found`) and/or staged in the Windows driver store from
/// the INF called `file_name` (`staged`) — so the user knows they can install
/// offline instead of downloading.
pub fn report_local_driver_availability(
    advice: &DriverAdvice,
    found: Option<&str>,
    file_name: &str,
    staged: Option<&Vec<String>>,
) -> (page: Vec<String>)
    ensures
        texts(page@) == availability_page(
            match advice.local_inf {
                Some(rel) => Some(rel@),
                None => None,
            },
            match found {
                Some(path) => Some(path@),
                None => None,
            },
            file_name@,
            match staged {
                Some(names) => Some(texts(names@)),
                None => None,
            },
        ),
{
    let mut page: Vec<String> = Vec::new();
    assert(texts(page@) =~= Seq::empty());
    let rel = match advice.local_inf {
        Some(rel) => rel,
        None => {
            return page;
        },
    };
    let mut line: String;
    match found {
        Some(path) => {
            line = joined("  Local INF: AVAILABLE - ", path);
            line.append(" (no download needed)");
        },
        None => {
            line = joined("  Local INF: not bundled at ", rel);
            line.append("; download required");
        },
    }
    let ghost first = line@;
    push_line(&mut page, line);
    assert(texts(page@) =~= seq![first]);
    if let Some(names) = staged {
        let mut line: String;
        if names.len() == 0 {
            line = joined("  Driver store: no package staged from ", file_name);
            line.append(" yet");
        } else {
            line = joined("  Driver store: already staged as ", join_of(names, ", ").as_str());
        }
        push_line(&mut page, line);
    }
    page
}

// ── Driver status ───────────────────────────────────────────────────────
/// A USB device as the hub enumerated it.
#[derive(Debug)]
pub struct SeenDevice {
    pub vid: u16,
    pub pid: u16,
    /// Its product, serial and speed in words.
    pub product: String,
    pub serial: String,
    pub speed: String,
    /// The number and class of each of its interfaces.
    pub interfaces: Vec<(u8, u8)>,
}

pub open spec fn interface_text(i: (u8, u8)) -> Seq<char> {
    "MI_"@ + zero_padded(decimal(i.0 as nat), 2) + " class "@ + hex_lower(i.1 as nat, 2)
}

/// The first device of a VID and PID from `i` on.
pub open spec fn seen_device(devices: Seq<SeenDevice>, id: (u16, u16), i: int) -> Option<SeenDevice>
    decreases devices.len() - i,
{
    if i < 0 || i >= devices.len() {
        None
    } else if devices[i].vid == id.0 && devices[i].pid == id.1 {
        Some(devices[i])
    } else {
        seen_device(devices, id, i + 1)
    }
}

/// The two lines that a device gives as evidence.
pub open spec fn evidence_lines(d: SeenDevice) -> Seq<Seq<char>> {
    seq![
        "  Hardware evidence: PASS - nusb sees "@ + usb_id(d.vid, d.pid) + ", product "@
            + d.product@ + ", serial "@ + d.serial@ + ", speed "@ + d.speed@,
        "  Descriptor interfaces: "@ + join(
            Seq::new(d.interfaces@.len(), |i: int| interface_text(d.interfaces@[i])),
            ", "@,
        ),
    ]
}

/// What to do about an unhealthy node.
pub open spec fn advice_lines(instance_id: Seq<char>) -> Seq<Seq<char>> {
    match advice(instance_id) {
        Some(a) => seq!["  Known official driver: "@ + a.name@, "  Install: "@ + a.install@],
        None => seq![
            "  Next step: search the exact VID:PID on the hardware vendor's support site or Microsoft Update Catalog."@,
        ],
    }
}

pub open spec fn issue_lines(n: NodeView) -> Seq<Seq<char>> {
    match node_issue(n) {
        Some(issue) => seq![
            "  Classification: "@ + issue_label(issue)@ + " - "@ + issue_meaning(issue)@,
            "  Safe next action: "@ + issue_action(issue)@,
        ],
        None => Seq::empty(),
    }
}

pub open spec fn node_evidence(n: NodeView, devices: Seq<SeenDevice>) -> Seq<Seq<char>> {
    match vid_pid(n.instance_id) {
        Some(id) => match seen_device(devices, id, 0) {
            Some(d) => evidence_lines(d),
            None => Seq::empty(),
        },
        None => Seq::empty(),
    }
}

/// The section of one node: its binding, and for an unhealthy one what is wrong,
/// the hardware evidence, and the advice.
pub open spec fn node_section(n: NodeView, devices: Seq<SeenDevice>) -> Seq<Seq<char>> {
    let head = seq![
        ""@,
        "["@ + (if healthy(n) {
            "OK"@
        } else {
            "NEEDS ATTENTION"@
        }) + "] "@ + (if n.name.len() == 0 {
            "(unnamed USB interface)"@
        } else {
            n.name
        }),
        "  Instance: "@ + n.instance_id,
        "  Class/service: "@ + dash_if_empty(n.class) + "/"@ + dash_if_empty(n.service),
        "  Driver: "@ + dash_if_empty(n.provider) + " / "@ + dash_if_empty(n.inf) + " / "@
            + dash_if_empty(n.version),
        "  PnP status/problem: "@ + dash_if_empty(n.status) + " / "@ + dash_if_empty(n.problem),
    ];
    if healthy(n) {
        head
    } else {
        head + issue_lines(n) + node_evidence(n, devices) + advice_lines(n.instance_id)
    }
}

/// How many of the nodes are unhealthy.
pub open spec fn unhealthy_count(nodes: Seq<NodeView>) -> nat
    decreases nodes.len(),
{
    if nodes.len() == 0 {
        0
    } else {
        unhealthy_count(nodes.drop_last()) + if healthy(nodes.last()) {
            0nat
        } else {
            1nat
        }
    }
}

pub open spec fn status_head(devices: nat) -> Seq<Seq<char>> {
    seq![
        "=== USB Hardware Evidence ==="@,
        "PASS - Windows USB hub enumeration returned "@ + decimal(devices)
            + " physical USB device(s)."@,
        "This proves USB signaling/enumeration works; it does not prove every function driver works."@,
        ""@,
        "=== Windows USB Interface Drivers ==="@,
    ]
}

pub open spec fn diagnosis(failures: nat, total: nat) -> Seq<Seq<char>> {
    let head = seq![""@, "=== Diagnosis ==="@];
    if failures == 0 {
        head.push(
            "All "@ + decimal(total) + " present USB PnP function(s) report healthy."@,
        )
    } else {
        head.push(
            decimal(failures) + " of "@ + decimal(total)
                + " present USB PnP function(s) need attention."@,
        ).push(
            "A device listed under Hardware Evidence but failing here is primarily a Windows driver/binding problem, not proof of faulty hardware."@,
        ).push(
            "This still cannot prove that every downstream MCU, sensor, or external circuit behind the USB controller is healthy."@,
        )
    }
}

/// One section, and the driver advice whose availability is to be shown right
/// below it.
#[derive(Debug)]
pub struct NodeSection {
    pub page: Vec<String>,
    pub look_for: Option<DriverAdvice>,
}

/// The driver status: what stands above the sections, one section for each node,
/// and what stands below.
#[derive(Debug)]
pub struct DriverStatus {
    pub head: Vec<String>,
    pub sections: Vec<NodeSection>,
    pub diagnosis: Vec<String>,
}

fn find_seen_device(devices: &Vec<SeenDevice>, id: (u16, u16)) -> (r: Option<&SeenDevice>)
    ensures
        match r {
            Some(d) => seen_device(devices@, id, 0) == Some(*d),
            None => seen_device(devices@, id, 0) is None,
        },
{
    let mut i: usize = 0;
    while i < devices.len()
        invariant
            i <= devices@.len(),
            seen_device(devices@, id, 0) == seen_device(devices@, id, i as int),
        decreases devices.len() - i,
    {
        if devices[i].vid == id.0 && devices[i].pid == id.1 {
            return Some(&devices[i]);
        }
        i += 1;
    }
    None
}

fn push_evidence(page: &mut Vec<String>, d: &SeenDevice)
    ensures
        texts(final(page)@) == texts(old(page)@) + evidence_lines(*d),
{
    let mut line = "  Hardware evidence: PASS - nusb sees ".to_string();
    line.append(usb_id_of(d.vid, d.pid).as_str());
    line.append(", product ");
    line.append(d.product.as_str());
    line.append(", serial ");
    line.append(d.serial.as_str());
    line.append(", speed ");
    line.append(d.speed.as_str());
    push_line(page, line);
    let ghost want = Seq::new(d.interfaces@.len(), |i: int| interface_text(d.interfaces@[i]));
    let mut names: Vec<String> = Vec::new();
    let mut i: usize = 0;
    while i < d.interfaces.len()
        invariant
            i <= d.interfaces@.len(),
            want == Seq::new(d.interfaces@.len(), |i: int| interface_text(d.interfaces@[i])),
            texts(names@) == want.take(i as int),
        decreases d.interfaces.len() - i,
    {
        let (number, class) = d.interfaces[i];
        let mut s = "MI_".to_string();
        push_decimal_padded(&mut s, number as u64, 2);
        s.append(" class ");
        push_hex_lower(&mut s, class as u64, 2);
        push_line(&mut names, s);
        i += 1;
    }
    assert(want.take(i as int) =~= want);
    push_line(page, joined("  Descriptor interfaces: ", join_of(&names, ", ").as_str()));
    assert(texts(page@) =~= texts(old(page)@) + evidence_lines(*d));
}

fn push_two(page: &mut Vec<String>, a: &str, b: &str, c: &str, d: &str)
    ensures
        texts(final(page)@) == texts(old(page)@).push(a@ + b@).push(c@ + d@),
{
    push_line(page, joined(a, b));
    push_line(page, joined(c, d));
}

fn node_section_of(node: &WindowsUsbDriverNode, devices: &Vec<SeenDevice>) -> (s: NodeSection)
    ensures
        texts(s.page@) == node_section(node@, devices@),
        s.look_for == (if healthy(node@) {
            None
        } else {
            advice(node@.instance_id)
        }),
{
    let ok = node.is_healthy();
    let mut page: Vec<String> = Vec::new();
    push_text(&mut page, "");
    let mut line = "[".to_string();
    line.append(
        if ok {
            "OK"
        } else {
            "NEEDS ATTENTION"
        },
    );
    line.append("] ");
    line.append(
        if node.name.as_str().is_empty() {
            "(unnamed USB interface)"
        } else {
            node.name.as_str()
        },
    );
    push_line(&mut page, line);
    push_line(&mut page, joined("  Instance: ", node.instance_id.as_str()));
    let mut line = joined("  Class/service: ", value_or_dash(node.class.as_str()));
    line.append("/");
    line.append(value_or_dash(node.service.as_str()));
    push_line(&mut page, line);
    let mut line = joined("  Driver: ", value_or_dash(node.provider.as_str()));
    line.append(" / ");
    line.append(value_or_dash(node.inf.as_str()));
    line.append(" / ");
    line.append(value_or_dash(node.version.as_str()));
    push_line(&mut page, line);
    let mut line = joined("  PnP status/problem: ", value_or_dash(node.status.as_str()));
    line.append(" / ");
    line.append(value_or_dash(node.problem.as_str()));
    push_line(&mut page, line);
    let ghost head = texts(page@);
    if ok {
        assert(head =~= node_section(node@, devices@));
        return NodeSection { page, look_for: None };
    }
    if let Some(issue) = classify_driver_issue(node) {
        let mut line = joined("  Classification: ", issue.label());
        line.append(" - ");
        line.append(issue.meaning());
        push_line(&mut page, line);
        push_line(&mut page, joined("  Safe next action: ", issue.next_action()));
    }
    assert(texts(page@) =~= head + issue_lines(node@));
    if let Some(id) = instance_vidpid(node.instance_id.as_str()) {
        if let Some(d) = find_seen_device(devices, id) {
            push_evidence(&mut page, d);
        }
    }
    assert(texts(page@) =~= head + issue_lines(node@) + node_evidence(node@, devices@));
    let ghost before = texts(page@);
    let found = known_driver_advice(node.instance_id.as_str());
    match found {
        Some(a) => {
            push_two(&mut page, "  Known official driver: ", a.name, "  Install: ", a.install);
        },
        None => {
            push_text(
                &mut page,
                "  Next step: search the exact VID:PID on the hardware vendor's support site or Microsoft Update Catalog.",
            );
        },
    }
    assert(texts(page@) =~= before + advice_lines(node@.instance_id));
    assert(head + issue_lines(node@) + node_evidence(node@, devices@) + advice_lines(
        node@.instance_id,
    ) =~= node_section(node@, devices@));
    NodeSection { page, look_for: found }
}

fn diagnosis_of(failures: usize, total: usize) -> (page: Vec<String>)
    ensures
        texts(page@) == diagnosis(failures as nat, total as nat),
{
    let mut page: Vec<String> = Vec::new();
    push_text(&mut page, "");
    push_text(&mut page, "=== Diagnosis ===");
    assert(texts(page@) =~= seq![""@, "=== Diagnosis ==="@]);
    let mut line = String::new();
    if failures == 0 {
        line.append("All ");
        push_decimal(&mut line, total as u64);
        line.append(" present USB PnP function(s) report healthy.");
        assert(line@ =~= "All "@ + decimal(total as nat)
            + " present USB PnP function(s) report healthy."@);
        push_line(&mut page, line);
    } else {
        push_decimal(&mut line, failures as u64);
        line.append(" of ");
        push_decimal(&mut line, total as u64);
        line.append(" present USB PnP function(s) need attention.");
        assert(line@ =~= decimal(failures as nat) + " of "@ + decimal(total as nat)
            + " present USB PnP function(s) need attention."@);
        push_line(&mut page, line);
        push_text(
            &mut page,
            "A device listed under Hardware Evidence but failing here is primarily a Windows driver/binding problem, not proof of faulty hardware.",
        );
        push_text(
            &mut page,
            "This still cannot prove that every downstream MCU, sensor, or external circuit behind the USB controller is healthy.",
        );
    }
    page
}

/// The driver status of every USB interface, held against the devices that the
/// hub enumerated.
pub fn cmd_driver_status(devices: &Vec<SeenDevice>, nodes: &Vec<WindowsUsbDriverNode>) -> (s:
    DriverStatus)
    ensures
        texts(s.head@) == status_head(devices@.len()),
        s.sections@.len() == nodes@.len(),
        forall|i: int|
            0 <= i < nodes@.len() ==> {
                &&& texts((#[trigger] s.sections@[i]).page@) == node_section(nodes@[i]@, devices@)
                &&& s.sections@[i].look_for == (if healthy(nodes@[i]@) {
                    None
                } else {
                    advice(nodes@[i]@.instance_id)
                })
            },
        texts(s.diagnosis@) == diagnosis(unhealthy_count(node_views(nodes@)), nodes@.len()),
{
    let mut head: Vec<String> = Vec::new();
    push_text(&mut head, "=== USB Hardware Evidence ===");
    let mut line = "PASS - Windows USB hub enumeration returned ".to_string();
    push_decimal(&mut line, devices.len() as u64);
    line.append(" physical USB device(s).");
    push_line(&mut head, line);
    push_text(
        &mut head,
        "This proves USB signaling/enumeration works; it does not prove every function driver works.",
    );
    push_text(&mut head, "");
    push_text(&mut head, "=== Windows USB Interface Drivers ===");
    assert(texts(head@) =~= status_head(devices@.len()));
    let ghost views = node_views(nodes@);
    let mut sections: Vec<NodeSection> = Vec::new();
    let mut failures: usize = 0;
    let mut i: usize = 0;
    while i < nodes.len()
        invariant
            i <= nodes@.len(),
            views == node_views(nodes@),
            sections@.len() == i,
            failures <= i,
            failures == unhealthy_count(views.take(i as int)),
            forall|k: int|
                0 <= k < i ==> {
                    &&& texts((#[trigger] sections@[k]).page@) == node_section(nodes@[k]@, devices@)
                    &&& sections@[k].look_for == (if healthy(nodes@[k]@) {
                        None
                    } else {
                        advice(nodes@[k]@.instance_id)
                    })
                },
        decreases nodes.len() - i,
    {
        assert(views.take(i + 1).drop_last() =~= views.take(i as int));
        assert(views.take(i + 1).last() == nodes@[i as int]@);
        if !nodes[i].is_healthy() {
            failures += 1;
        }
        sections.push(node_section_of(&nodes[i], devices));
        i += 1;
    }
    assert(views.take(i as int) =~= views);
    DriverStatus { head, sections, diagnosis: diagnosis_of(failures, nodes.len()) }
}

// ── Installing a driver ─────────────────────────────────────────────────
/// A node that `--install-driver` may touch: the first interface of a composite
/// device, unhealthy, with an INF bundled for it.
pub open spec fn is_candidate(n: NodeView) -> bool {
    contains(upper(n.instance_id), "&MI_00"@) && !healthy(n) && advice(n.instance_id) is Some
        && advice(n.instance_id)->0.local_inf is Some
}

/// Only the debug interface of an ST-Link is ever a candidate.
pub proof fn law_install_touches_only_stlink_debug(n: NodeView)
    requires
        is_candidate(n),
    ensures
        is_stlink_debug(upper(n.instance_id)),
{
}

/// The places of the candidates among the nodes, in order.
pub open spec fn candidates(nodes: Seq<NodeView>) -> Seq<int>
    decreases nodes.len(),
{
    if nodes.len() == 0 {
        Seq::empty()
    } else {
        let c = candidates(nodes.drop_last());
        if is_candidate(nodes.last()) {
            c.push(nodes.len() - 1)
        } else {
            c
        }
    }
}

fn is_candidate_of(n: &WindowsUsbDriverNode) -> (r: bool)
    ensures
        r == is_candidate(n@),
{
    let id = chars_of(n.instance_id.as_str());
    let id = upper_of(id.as_slice());
    if !has_text(id.as_slice(), "&MI_00") || n.is_healthy() {
        return false;
    }
    match known_driver_advice(n.instance_id.as_str()) {
        Some(a) => a.local_inf.is_some(),
        None => false,
    }
}

/// The nodes that a driver can be installed for, by their places.
pub fn install_candidates(nodes: &Vec<WindowsUsbDriverNode>) -> (r: Vec<usize>)
    ensures
        r@.map_values(|i: usize| i as int) == candidates(node_views(nodes@)),
        forall|k: int|
            0 <= k < r@.len() ==> (#[trigger] r@[k]) < nodes@.len() && is_candidate(
                nodes@[r@[k] as int]@,
            ),
{
    let ghost views = node_views(nodes@);
    let mut r: Vec<usize> = Vec::new();
    assert(r@.map_values(|i: usize| i as int) =~= Seq::empty());
    let mut i: usize = 0;
    while i < nodes.len()
        invariant
            i <= nodes@.len(),
            views == node_views(nodes@),
            r@.map_values(|i: usize| i as int) == candidates(views.take(i as int)),
            forall|k: int|
                0 <= k < r@.len() ==> (#[trigger] r@[k]) < nodes@.len() && is_candidate(
                    nodes@[r@[k] as int]@,
                ),
        decreases nodes.len() - i,
    {
        assert(views.take(i + 1).drop_last() =~= views.take(i as int));
        assert(views.take(i + 1).last() == nodes@[i as int]@);
        if is_candidate_of(&nodes[i]) {
            let ghost before = r@;
            r.push(i);
            assert(r@.map_values(|i: usize| i as int) =~= before.map_values(|i: usize| i as int).push(
                i as int,
            ));
        }
        i += 1;
    }
    assert(views.take(i as int) =~= views);
    r
}

pub open spec fn install_head(confirm: bool, any: bool) -> Seq<Seq<char>> {
    let head = seq![
        "=== ST-Link MI_00 Driver Install ("@ + (if confirm {
            "EXECUTE"@
        } else {
            "DRY RUN"@
        }) + ") ==="@,
        "Scope: only the ST-Link Debug MI_00 interface is touched; Mass Storage, COM, and the composite parent are left alone."@,
        ""@,
    ];
    if any {
        head
    } else {
        head.push("No unhealthy MI_00 interface with a bundled INF was found."@).push(
            "Run `usbipd-rs --driver-status` to inspect current bindings."@,
        )
    }
}

/// What stands above the candidates; where there is none, that is all.
fn install_driver_head(confirm: bool, any: bool) -> (page: Vec<String>)
    ensures
        texts(page@) == install_head(confirm, any),
{
    let mut page: Vec<String> = Vec::new();
    let mut line = "=== ST-Link MI_00 Driver Install (".to_string();
    line.append(
        if confirm {
            "EXECUTE"
        } else {
            "DRY RUN"
        },
    );
    line.append(") ===");
    push_line(&mut page, line);
    push_text(
        &mut page,
        "Scope: only the ST-Link Debug MI_00 interface is touched; Mass Storage, COM, and the composite parent are left alone.",
    );
    push_text(&mut page, "");
    if !any {
        push_text(&mut page, "No unhealthy MI_00 interface with a bundled INF was found.");
        push_text(&mut page, "Run `usbipd-rs --driver-status` to inspect current bindings.");
    }
    assert(texts(page@) =~= install_head(confirm, any));
    page
}

pub open spec fn state_line(n: NodeView) -> Seq<Seq<char>> {
    match node_issue(n) {
        Some(issue) => seq![
            "  Current state: "@ + issue_label(issue)@ + " (status "@ + dash_if_empty(n.status)
                + ", problem "@ + dash_if_empty(n.problem) + ")"@,
        ],
        None => Seq::empty(),
    }
}

/// What is shown of a candidate before anything is done: without the INF that it
/// is skipped, otherwise what would be run.
pub open spec fn plan_page(n: NodeView, inf: Option<Seq<char>>, confirm: bool) -> Seq<Seq<char>> {
    let a = advice(n.instance_id)->0;
    match inf {
        None => seq![
            "[SKIP] "@ + n.instance_id,
            "  Bundled INF missing at "@ + (a.local_inf->0)@ + "; cannot install offline."@,
        ],
        Some(path) => seq![
            "Interface that would be modified:"@,
            "  Instance: "@ + n.instance_id,
        ] + state_line(n) + seq![
            "  Driver package: "@ + a.name@,
            "  INF file: "@ + path,
            "  Command: pnputil /add-driver \""@ + path + "\" /install"@,
        ] + (if confirm {
            seq!["  Action: running pnputil ..."@]
        } else {
            seq!["  Action: none (dry run). Re-run with --confirm to apply."@, ""@]
        }),
    }
}

/// Arguments as plain text.
pub open spec fn install_args(inf: Seq<char>) -> Seq<Seq<char>> {
    seq!["/add-driver"@, inf, "/install"@]
}

/// The plan for one candidate, with the INF that was found for it: what to show,
/// and the arguments to run `pnputil` with, if it is to be run at all.
fn install_driver_plan(node: &WindowsUsbDriverNode, inf: Option<&str>, confirm: bool) -> (r: (
    Vec<String>,
    Option<Vec<String>>,
))
    requires
        is_candidate(node@),
    ensures
        texts(r.0@) == plan_page(
            node@,
            match inf {
                Some(path) => Some(path@),
                None => None,
            },
            confirm,
        ),
        match r.1 {
            Some(args) => confirm && inf is Some && texts(args@) == install_args((inf->0)@),
            None => !confirm || inf is None,
        },
{
    let mut page: Vec<String> = Vec::new();
    let found = known_driver_advice(node.instance_id.as_str());
    let a = found.unwrap();
    let rel = a.local_inf.unwrap();
    let path = match inf {
        Some(path) => path,
        None => {
            push_line(&mut page, joined("[SKIP] ", node.instance_id.as_str()));
            let mut line = joined("  Bundled INF missing at ", rel);
            line.append("; cannot install offline.");
            push_line(&mut page, line);
            assert(texts(page@) =~= plan_page(node@, None, confirm));
            return (page, None);
        },
    };
    push_text(&mut page, "Interface that would be modified:");
    push_line(&mut page, joined("  Instance: ", node.instance_id.as_str()));
    let ghost head = texts(page@);
    if let Some(issue) = classify_driver_issue(node) {
        let mut line = joined("  Current state: ", issue.label());
        line.append(" (status ");
        line.append(value_or_dash(node.status.as_str()));
        line.append(", problem ");
        line.append(value_or_dash(node.problem.as_str()));
        line.append(")");
        push_line(&mut page, line);
    }
    assert(texts(page@) =~= head + state_line(node@));
    push_line(&mut page, joined("  Driver package: ", a.name));
    push_line(&mut page, joined("  INF file: ", path));
    let mut line = joined("  Command: pnputil /add-driver \"", path);
    line.append("\" /install");
    push_line(&mut page, line);
    if !confirm {
        push_text(&mut page, "  Action: none (dry run). Re-run with --confirm to apply.");
        push_text(&mut page, "");
        assert(texts(page@) =~= plan_page(node@, Some(path@), confirm));
        return (page, None);
    }
    push_text(&mut page, "  Action: running pnputil ...");
    assert(texts(page@) =~= plan_page(node@, Some(path@), confirm));
    let mut args: Vec<String> = Vec::new();
    push_text(&mut args, "/add-driver");
    push_text(&mut args, path);
    push_text(&mut args, "/install");
    assert(texts(args@) =~= install_args(path@));
    (page, Some(args))
}

/// The lines that say something, indented.
pub open spec fn said_lines(all: Seq<Seq<char>>, indent: Seq<char>) -> Seq<Seq<char>>
    decreases all.len(),
{
    if all.len() == 0 {
        Seq::empty()
    } else {
        let said = said_lines(all.drop_last(), indent);
        let line = trim(all.last());
        if line.len() == 0 {
            said
        } else {
            said.push(indent + line)
        }
    }
}

fn push_said_lines(page: &mut Vec<String>, text: &str, indent: &str)
    ensures
        texts(final(page)@) == texts(old(page)@) + said_lines(lines(text@), indent@),
{
    let chars = chars_of(text);
    let all = lines_of(chars.as_slice());
    let ghost seen = views(all@);
    let ghost before = texts(page@);
    assert(before + said_lines(seen.take(0), indent@) =~= before);
    let mut i: usize = 0;
    while i < all.len()
        invariant
            i <= all@.len(),
            seen == views(all@),
            texts(page@) == before + said_lines(seen.take(i as int), indent@),
        decreases all.len() - i,
    {
        assert(seen[i as int] == all@[i as int]@);
        assert(seen.take(i + 1).drop_last() =~= seen.take(i as int));
        let line = trim_of(all[i]);
        if line.len() > 0 {
            push_line(page, joined(indent, string_of(line).as_str()));
            assert(texts(page@) =~= before + said_lines(seen.take(i + 1), indent@));
        }
        i += 1;
    }
    assert(seen.take(i as int) =~= seen);
}

/// What `pnputil` said, and that it failed if it did.
pub open spec fn ran_page(output: ToolOutput, status: Seq<char>) -> Seq<Seq<char>> {
    let said = said_lines(lines(output.stdout@), "    "@) + said_lines(
        lines(output.stderr@),
        "    "@,
    );
    if output.success {
        said
    } else {
        said.push(
            "  Result: FAIL - pnputil exited with "@ + status
                + ". An Administrator shell is required."@,
        ).push(""@)
    }
}

/// What to show of a `pnputil` run, with its exit status in words. After a run
/// that succeeded the nodes are to be listed again.
fn install_driver_ran(output: &ToolOutput, status: &str) -> (page: Vec<String>)
    ensures
        texts(page@) == ran_page(*output, status@),
{
    let mut page: Vec<String> = Vec::new();
    assert(texts(page@) =~= Seq::empty());
    push_said_lines(&mut page, output.stdout.as_str(), "    ");
    push_said_lines(&mut page, output.stderr.as_str(), "    ");
    assert(texts(page@) =~= said_lines(lines(output.stdout@), "    "@) + said_lines(
        lines(output.stderr@),
        "    "@,
    ));
    if !output.success {
        let mut line = joined("  Result: FAIL - pnputil exited with ", status);
        line.append(". An Administrator shell is required.");
        push_line(&mut page, line);
        push_text(&mut page, "");
    }
    page
}

/// The first node of an instance id from `i` on.
pub open spec fn same_node(nodes: Seq<NodeView>, id: Seq<char>, i: int) -> Option<NodeView>
    decreases nodes.len() - i,
{
    if i < 0 || i >= nodes.len() {
        None
    } else if nodes[i].instance_id == id {
        Some(nodes[i])
    } else {
        same_node(nodes, id, i + 1)
    }
}

/// Whether the node recovered without a reboot.
pub open spec fn recovery_page(id: Seq<char>, after: Seq<NodeView>) -> Seq<Seq<char>> {
    seq![
        match same_node(after, id, 0) {
            Some(n) => if healthy(n) {
                "  Result: PASS - "@ + n.instance_id + " is now "@ + dash_if_empty(n.status)
                    + " / problem "@ + dash_if_empty(n.problem) + " (recovered, no reboot)."@
            } else {
                "  Result: PARTIAL - still "@ + dash_if_empty(n.status) + " / problem "@
                    + dash_if_empty(n.problem)
                    + ". Unplug and replug the device, or check it reports NEED_RESTART."@
            },
            None => "  Result: node re-enumerated under a new instance id; re-run --driver-status to confirm."@,
        },
        ""@,
    ]
}

fn find_same_node<'a>(nodes: &'a Vec<WindowsUsbDriverNode>, id: &str) -> (r: Option<
    &'a WindowsUsbDriverNode,
>)
    ensures
        match r {
            Some(n) => same_node(node_views(nodes@), id@, 0) == Some(n@),
            None => same_node(node_views(nodes@), id@, 0) is None,
        },
{
    let mut i: usize = 0;
    while i < nodes.len()
        invariant
            i <= nodes@.len(),
            same_node(node_views(nodes@), id@, 0) == same_node(node_views(nodes@), id@, i as int),
        decreases nodes.len() - i,
    {
        assert(node_views(nodes@)[i as int] == nodes@[i as int]@);
        if same_str(nodes[i].instance_id.as_str(), id) {
            return Some(&nodes[i]);
        }
        i += 1;
    }
    None
}

/// Recovery check: the nodes were listed again, and the same instance tells
/// whether it is now healthy *without* a reboot.
fn install_driver_recovered(id: &str, after: &Vec<WindowsUsbDriverNode>) -> (page: Vec<String>)
    ensures
        texts(page@) == recovery_page(id@, node_views(after@)),
{
    let mut page: Vec<String> = Vec::new();
    match find_same_node(after, id) {
        Some(n) => {
            if n.is_healthy() {
                let mut line = joined("  Result: PASS - ", n.instance_id.as_str());
                line.append(" is now ");
                line.append(value_or_dash(n.status.as_str()));
                line.append(" / problem ");
                line.append(value_or_dash(n.problem.as_str()));
                line.append(" (recovered, no reboot).");
                push_line(&mut page, line);
            } else {
                let mut line = joined(
                    "  Result: PARTIAL - still ",
                    value_or_dash(n.status.as_str()),
                );
                line.append(" / problem ");
                line.append(value_or_dash(n.problem.as_str()));
                line.append(". Unplug and replug the device, or check it reports NEED_RESTART.");
                push_line(&mut page, line);
            }
        },
        None => {
            push_text(
                &mut page,
                "  Result: node re-enumerated under a new instance id; re-run --driver-status to confirm.",
            );
        },
    }
    push_text(&mut page, "");
    assert(texts(page@) =~= recovery_page(id@, node_views(after@)));
    page
}

pub open spec fn install_summary(confirm: bool, executed: nat) -> Seq<char> {
    if confirm {
        "Installed "@ + decimal(executed)
            + " driver binding(s). Verify with `usbipd-rs --driver-status` and `usbipd-rs --mcu-alive`."@
    } else {
        "Dry run complete. No changes were made. Re-run with --confirm in an Administrator shell to apply."@
    }
}

/// The last line, with the number of runs that succeeded.
fn install_driver_summary(confirm: bool, executed: usize) -> (line: String)
    ensures
        line@ == install_summary(confirm, executed as nat),
{
    if confirm {
        let mut line = "Installed ".to_string();
        push_decimal(&mut line, executed as u64);
        line.append(
            " driver binding(s). Verify with `usbipd-rs --driver-status` and `usbipd-rs --mcu-alive`.",
        );
        line
    } else {
        "Dry run complete. No changes were made. Re-run with --confirm in an Administrator shell to apply.".to_string()
    }
}

/// What came of a `pnputil` run: its output, its exit status in words, and the
/// nodes as they were listed after it, once they were.
#[derive(Debug)]
pub struct InstallRun {
    pub output: ToolOutput,
    pub status: String,
    pub after: Option<Vec<WindowsUsbDriverNode>>,
}

/// What an installation does next.
#[derive(Debug)]
pub enum InstallAction {
    /// Run `pnputil` with these arguments for the candidate at this place, and add
    /// what came of it.
    Run { place: usize, args: Vec<String> },
    /// List the nodes again, and put them to the last run.
    Relist,
    Done,
}

pub enum InstallActionView {
    Run { place: int, args: Seq<Seq<char>> },
    Relist,
    Done,
}

impl View for InstallAction {
    type V = InstallActionView;

    open spec fn view(&self) -> InstallActionView {
        match *self {
            InstallAction::Run { place, args } => InstallActionView::Run {
                place: place as int,
                args: texts(args@),
            },
            InstallAction::Relist => InstallActionView::Relist,
            InstallAction::Done => InstallActionView::Done,
        }
    }
}

/// What is shown, and what is done next.
pub struct Installation {
    pub page: Seq<Seq<char>>,
    pub next: InstallActionView,
}

/// The installation from candidate `k` on. `n` runs are used up, and `executed` of
/// them succeeded.
pub open spec fn installation(
    confirm: bool,
    nodes: Seq<NodeView>,
    infs: Seq<Option<Seq<char>>>,
    runs: Seq<InstallRun>,
    k: int,
    n: int,
    executed: nat,
) -> Installation
    decreases candidates(nodes).len() - k,
{
    let places = candidates(nodes);
    if k < 0 || k >= places.len() {
        Installation {
            page: seq![install_summary(confirm, executed)],
            next: InstallActionView::Done,
        }
    } else {
        let node = nodes[places[k]];
        let plan = plan_page(node, infs[k], confirm);
        if !confirm || infs[k] is None {
            let rest = installation(confirm, nodes, infs, runs, k + 1, n, executed);
            Installation { page: plan + rest.page, next: rest.next }
        } else if n < 0 || n >= runs.len() {
            Installation {
                page: plan,
                next: InstallActionView::Run { place: places[k], args: install_args(infs[k]->0) },
            }
        } else {
            let ran = plan + ran_page(runs[n].output, runs[n].status@);
            if !runs[n].output.success {
                let rest = installation(confirm, nodes, infs, runs, k + 1, n + 1, executed);
                Installation { page: ran + rest.page, next: rest.next }
            } else {
                match runs[n].after {
                    None => Installation { page: ran, next: InstallActionView::Relist },
                    Some(after) => {
                        let rest = installation(
                            confirm,
                            nodes,
                            infs,
                            runs,
                            k + 1,
                            n + 1,
                            executed + 1,
                        );
                        Installation {
                            page: ran + recovery_page(node.instance_id, node_views(after@))
                                + rest.page,
                            next: rest.next,
                        }
                    },
                }
            }
        }
    }
}

/// The whole installation, as far as the runs go.
pub open spec fn install_session(
    confirm: bool,
    nodes: Seq<NodeView>,
    infs: Seq<Option<Seq<char>>>,
    runs: Seq<InstallRun>,
) -> Installation {
    let head = install_head(confirm, candidates(nodes).len() > 0);
    if candidates(nodes).len() == 0 {
        Installation { page: head, next: InstallActionView::Done }
    } else {
        let rest = installation(confirm, nodes, infs, runs, 0, 0, 0);
        Installation { page: head + rest.page, next: rest.next }
    }
}

/// The paths of the INF files, as plain text.
pub open spec fn inf_views(infs: Seq<Option<String>>) -> Seq<Option<Seq<char>>> {
    Seq::new(infs.len(), |i: int| crate::page::shown(infs[i]))
}

/// `--install-driver`: dry-run by default, executing only with `--confirm`.
/// Restricted to the ST-Link `MI_00` debug interface (the only binding that an INF
/// is bundled for), so that the Mass Storage, COM and composite functions of the
/// same device are never touched. `infs` holds, for each candidate, where its
/// bundled INF was found, and `runs` what the `pnputil` runs gave so far; the
/// result is the page up to this point, and what is done next.
pub fn cmd_install_driver(
    confirm: bool,
    nodes: &Vec<WindowsUsbDriverNode>,
    infs: &Vec<Option<String>>,
    runs: &Vec<InstallRun>,
) -> (r: (Vec<String>, InstallAction))
    requires
        infs@.len() == candidates(node_views(nodes@)).len(),
    ensures
        ({
            let s = install_session(confirm, node_views(nodes@), inf_views(infs@), runs@);
            texts(r.0@) == s.page && r.1@ == s.next
        }),
{
    let ghost seen = node_views(nodes@);
    let ghost paths = inf_views(infs@);
    let places = install_candidates(nodes);
    assert(places@.map_values(|i: usize| i as int).len() == places@.len());
    let mut page = install_driver_head(confirm, places.len() > 0);
    if places.len() == 0 {
        return (page, InstallAction::Done);
    }
    let ghost whole = install_session(confirm, seen, paths, runs@);
    let mut n: usize = 0;
    let mut executed: usize = 0;
    let mut k: usize = 0;
    while k < places.len()
        invariant
            k <= places@.len(),
            n <= runs@.len(),
            executed <= k,
            seen == node_views(nodes@),
            paths == inf_views(infs@),
            infs@.len() == places@.len(),
            places@.map_values(|i: usize| i as int) == candidates(seen),
            forall|k: int|
                0 <= k < places@.len() ==> (#[trigger] places@[k]) < nodes@.len() && is_candidate(
                    nodes@[places@[k] as int]@,
                ),
            whole == install_session(confirm, seen, paths, runs@),
            ({
                let rest = installation(
                    confirm,
                    seen,
                    paths,
                    runs@,
                    k as int,
                    n as int,
                    executed as nat,
                );
                whole.page == texts(page@) + rest.page && whole.next == rest.next
            }),
        decreases places.len() - k,
    {
        let ghost before = texts(page@);
        let ghost rest = installation(
            confirm,
            seen,
            paths,
            runs@,
            k as int,
            n as int,
            executed as nat,
        );
        let place: usize = places[k];
        assert(candidates(seen)[k as int] == place as int);
        assert(seen[place as int] == nodes@[place as int]@);
        assert(paths[k as int] == crate::page::shown(infs@[k as int]));
        let node = &nodes[place];
        let inf = match &infs[k] {
            Some(path) => Some(path.as_str()),
            None => None,
        };
        let (plan, args) = install_driver_plan(node, inf, confirm);
        push_page(&mut page, plan);
        let ghost planned = texts(page@);
        if let Some(args) = args {
            if n >= runs.len() {
                assert(texts(page@) =~= before + rest.page);
                return (page, InstallAction::Run { place, args });
            }
            push_page(
                &mut page,
                install_driver_ran(&runs[n].output, runs[n].status.as_str()),
            );
            let ghost ran = texts(page@);
            if runs[n].output.success {
                match &runs[n].after {
                    None => {
                        assert(texts(page@) =~= before + rest.page);
                        return (page, InstallAction::Relist);
                    },
                    Some(after) => {
                        push_page(
                            &mut page,
                            install_driver_recovered(node.instance_id.as_str(), after),
                        );
                    },
                }
                executed += 1;
            }
            n += 1;
        }
        k += 1;
        assert(texts(page@) + installation(
            confirm,
            seen,
            paths,
            runs@,
            k as int,
            n as int,
            executed as nat,
        ).page =~= before + rest.page);
    }
    push_line(&mut page, install_driver_summary(confirm, executed));
    assert(texts(page@) =~= whole.page);
    (page, InstallAction::Done)
}

proof fn lemma_installation(
    confirm: bool,
    nodes: Seq<NodeView>,
    infs: Seq<Option<Seq<char>>>,
    runs: Seq<InstallRun>,
    k: int,
    n: int,
    executed: nat,
)
    requires
        0 <= k,
        0 <= n,
    ensures
        !confirm ==> installation(confirm, nodes, infs, runs, k, n, executed).next is Done,
        runs.len() - n >= candidates(nodes).len() - k ==> !(installation(
            confirm,
            nodes,
            infs,
            runs,
            k,
            n,
            executed,
        ).next is Run),
        installation(confirm, nodes, infs, runs, k, n, executed).next matches InstallActionView::Run {
            place,
            args,
        } ==> exists|i: int|
            #![trigger candidates(nodes)[i]]
            k <= i < candidates(nodes).len() && candidates(nodes)[i] == place && infs[i] is Some
                && args == install_args(infs[i]->0),
    decreases candidates(nodes).len() - k,
{
    if k < candidates(nodes).len() {
        lemma_installation(confirm, nodes, infs, runs, k + 1, n, executed);
        lemma_installation(confirm, nodes, infs, runs, k + 1, n + 1, executed);
        lemma_installation(confirm, nodes, infs, runs, k + 1, n + 1, executed + 1);
        assert(candidates(nodes)[k] == candidates(nodes)[k]);
    }
}

proof fn lemma_candidates(nodes: Seq<NodeView>, i: int)
    requires
        0 <= i < candidates(nodes).len(),
    ensures
        0 <= candidates(nodes)[i] < nodes.len(),
        is_candidate(nodes[candidates(nodes)[i]]),
    decreases nodes.len(),
{
    if i < candidates(nodes.drop_last()).len() {
        lemma_candidates(nodes.drop_last(), i);
    }
}

/// A dry run runs nothing: without `--confirm` there is nothing to do, whatever the
/// nodes are.
pub proof fn law_a_dry_run_changes_nothing(
    nodes: Seq<NodeView>,
    infs: Seq<Option<Seq<char>>>,
    runs: Seq<InstallRun>,
)
    ensures
        install_session(false, nodes, infs, runs).next is Done,
{
    lemma_installation(false, nodes, infs, runs, 0, 0, 0);
}

/// What is run, is run for an unhealthy debug interface of an ST-Link, with the
/// bundled INF of that candidate.
pub proof fn law_only_stlink_debug_is_installed(
    nodes: Seq<NodeView>,
    infs: Seq<Option<Seq<char>>>,
    runs: Seq<InstallRun>,
)
    ensures
        install_session(true, nodes, infs, runs).next matches InstallActionView::Run { place, args }
            ==> {
            &&& 0 <= place < nodes.len()
            &&& !healthy(nodes[place])
            &&& is_stlink_debug(upper(nodes[place].instance_id))
            &&& exists|i: int|
                #![trigger candidates(nodes)[i]]
                0 <= i < candidates(nodes).len() && candidates(nodes)[i] == place && infs[i] is Some
                    && args == install_args(infs[i]->0)
        },
{
    lemma_installation(true, nodes, infs, runs, 0, 0, 0);
    if let InstallActionView::Run { place, args } = install_session(true, nodes, infs, runs).next {
        let i = choose|i: int|
            #![trigger candidates(nodes)[i]]
            0 <= i < candidates(nodes).len() && candidates(nodes)[i] == place && infs[i] is Some
                && args == install_args(infs[i]->0);
        lemma_candidates(nodes, i);
        law_install_touches_only_stlink_debug(nodes[place]);
    }
}

/// An installation ends: once there is a run for each candidate, nothing more is
/// run.
pub proof fn law_installation_ends(
    confirm: bool,
    nodes: Seq<NodeView>,
    infs: Seq<Option<Seq<char>>>,
    runs: Seq<InstallRun>,
)
    requires
        runs.len() >= candidates(nodes).len(),
    ensures
        !(install_session(confirm, nodes, infs, runs).next is Run),
{
    lemma_installation(confirm, nodes, infs, runs, 0, 0, 0);
}

// ── What is shown and done ──────────────────────────────────────────────
/// A bundled driver is offered by its path where it was found, and by where it belongs
/// where it was not; the driver store is named with every package that is staged.
pub proof fn law_availability_is_shown(
    rel: Seq<char>,
    found: Option<Seq<char>>,
    file_name: Seq<char>,
    staged: Option<Seq<Seq<char>>>,
)
    ensures
        availability_page(None, found, file_name, staged) == Seq::<Seq<char>>::empty(),
        ({
            let p = availability_page(Some(rel), found, file_name, staged);
            &&& p.len() == if staged is Some {
                2int
            } else {
                1int
            }
            &&& found matches Some(path) ==> p[0] == "  Local INF: AVAILABLE - "@ + path
                + " (no download needed)"@
            &&& found is None ==> p[0] == "  Local INF: not bundled at "@ + rel
                + "; download required"@
            &&& staged matches Some(names) ==> {
                &&& names.len() == 0 ==> p[1] == "  Driver store: no package staged from "@
                    + file_name + " yet"@
                &&& names.len() > 0 ==> p[1] == "  Driver store: already staged as "@ + join(
                    names,
                    ", "@,
                )
            }
        }),
{
}

/// The evidence for a node is the first device with both its ids.
pub proof fn law_first_device_with_the_ids(
    devices: Seq<SeenDevice>,
    id: (u16, u16),
    i: int,
    k: int,
)
    requires
        0 <= i <= k <= devices.len(),
        forall|j: int| i <= j < k ==> (#[trigger] devices[j]).vid != id.0 || devices[j].pid != id.1,
        k < devices.len() ==> devices[k].vid == id.0 && devices[k].pid == id.1,
    ensures
        k < devices.len() ==> seen_device(devices, id, i) == Some(devices[k]),
        k == devices.len() ==> seen_device(devices, id, i) is None,
    decreases k - i,
{
    if i < k {
        assert(devices[i].vid != id.0 || devices[i].pid != id.1);
        law_first_device_with_the_ids(devices, id, i + 1, k);
    }
}

/// A device is shown with its ids, its product, its serial number and its speed, and
/// with the number and the class of every interface.
pub proof fn law_evidence_shows_the_device(d: SeenDevice)
    ensures
        evidence_lines(d).len() == 2,
        evidence_lines(d)[0] == "  Hardware evidence: PASS - nusb sees "@ + usb_id(d.vid, d.pid)
            + ", product "@ + d.product@ + ", serial "@ + d.serial@ + ", speed "@ + d.speed@,
        exists|texts: Seq<Seq<char>>|
            evidence_lines(d)[1] == "  Descriptor interfaces: "@ + #[trigger] join(texts, ", "@)
                && texts.len() == d.interfaces@.len() && forall|i: int|
                0 <= i < texts.len() ==> #[trigger] texts[i] == "MI_"@ + zero_padded(
                    decimal(d.interfaces@[i].0 as nat),
                    2,
                ) + " class "@ + hex_lower(d.interfaces@[i].1 as nat, 2),
{
    let texts = Seq::new(d.interfaces@.len(), |i: int| interface_text(d.interfaces@[i]));
    assert(evidence_lines(d)[1] == "  Descriptor interfaces: "@ + join(texts, ", "@));
}

/// A section names the node and its state, its instance, its class and service, its
/// driver and its problem. Below that a healthy node shows nothing; an unhealthy one
/// what is wrong with it, what was seen of the hardware, and what to do.
pub proof fn law_section_shows_the_node(n: NodeView, devices: Seq<SeenDevice>)
    ensures
        ({
            let s = node_section(n, devices);
            let name = if n.name.len() == 0 {
                "(unnamed USB interface)"@
            } else {
                n.name
            };
            &&& s.len() >= 6
            &&& healthy(n) ==> s.len() == 6 && s[1] == "["@ + "OK"@ + "] "@ + name
            &&& !healthy(n) ==> s[1] == "["@ + "NEEDS ATTENTION"@ + "] "@ + name && s.skip(6)
                == issue_lines(n) + node_evidence(n, devices) + advice_lines(n.instance_id)
            &&& s[2] == "  Instance: "@ + n.instance_id
            &&& s[3] == "  Class/service: "@ + dash_if_empty(n.class) + "/"@ + dash_if_empty(
                n.service,
            )
            &&& s[4] == "  Driver: "@ + dash_if_empty(n.provider) + " / "@ + dash_if_empty(n.inf)
                + " / "@ + dash_if_empty(n.version)
            &&& s[5] == "  PnP status/problem: "@ + dash_if_empty(n.status) + " / "@
                + dash_if_empty(n.problem)
        }),
{
    let s = node_section(n, devices);
    if !healthy(n) {
        assert(s.skip(6) =~= issue_lines(n) + node_evidence(n, devices) + advice_lines(
            n.instance_id,
        ));
    }
}

/// What is wrong with a node is named, explained and followed by the next step; the
/// advice names the driver and how to install it, where one is known.
pub proof fn law_problem_and_advice_are_shown(n: NodeView)
    ensures
        node_issue(n) is None ==> issue_lines(n).len() == 0,
        node_issue(n) matches Some(issue) ==> issue_lines(n) == seq![
            "  Classification: "@ + issue_label(issue)@ + " - "@ + issue_meaning(issue)@,
            "  Safe next action: "@ + issue_action(issue)@,
        ],
        advice(n.instance_id) matches Some(a) ==> advice_lines(n.instance_id) == seq![
            "  Known official driver: "@ + a.name@,
            "  Install: "@ + a.install@,
        ],
        advice(n.instance_id) is None ==> advice_lines(n.instance_id).len() == 1,
{
}

/// The unhealthy nodes are counted one by one: the count of two lists is the sum of
/// theirs, and one node counts where it is not healthy.
pub proof fn law_unhealthy_nodes_are_counted(a: Seq<NodeView>, b: Seq<NodeView>, n: NodeView)
    ensures
        unhealthy_count(a + b) == unhealthy_count(a) + unhealthy_count(b),
        unhealthy_count(seq![n]) == if healthy(n) {
            0nat
        } else {
            1nat
        },
        unhealthy_count(Seq::empty()) == 0,
    decreases b.len(),
{
    let one = seq![n];
    assert(one.drop_last() =~= Seq::empty());
    assert(one.last() == n);
    reveal_with_fuel(unhealthy_count, 2);
    if b.len() == 0 {
        assert(a + b =~= a);
    } else {
        assert((a + b).drop_last() =~= a + b.drop_last());
        assert((a + b).last() == b.last());
        law_unhealthy_nodes_are_counted(a, b.drop_last(), n);
    }
}

/// The diagnosis names how many of the nodes need attention, of how many.
pub proof fn law_diagnosis_gives_the_counts(failures: nat, total: nat)
    ensures
        failures == 0 ==> diagnosis(failures, total)[2] == "All "@ + decimal(total)
            + " present USB PnP function(s) report healthy."@ && diagnosis(failures, total).len()
            == 3,
        failures > 0 ==> diagnosis(failures, total)[2] == decimal(failures) + " of "@ + decimal(
            total,
        ) + " present USB PnP function(s) need attention."@ && diagnosis(failures, total).len()
            == 5,
{
}

/// A candidate is a first interface that is unhealthy and has a bundled driver. The
/// candidates are all such nodes, each once and in order.
pub proof fn law_candidates_are_all_such_nodes(nodes: Seq<NodeView>)
    ensures
        forall|n: NodeView| #[trigger]
            is_candidate(n) <==> contains(upper(n.instance_id), "&MI_00"@) && !healthy(n) && (
            advice(n.instance_id) matches Some(a) && a.local_inf is Some),
        forall|i: int|
            0 <= i < nodes.len() && is_candidate(#[trigger] nodes[i]) ==> candidates(
                nodes,
            ).contains(i),
        forall|k: int|
            0 <= k < candidates(nodes).len() ==> 0 <= #[trigger] candidates(nodes)[k] < nodes.len()
                && is_candidate(nodes[candidates(nodes)[k]]),
        forall|j: int, k: int|
            0 <= j < k < candidates(nodes).len() ==> #[trigger] candidates(nodes)[j]
                < #[trigger] candidates(nodes)[k],
    decreases nodes.len(),
{
    if nodes.len() > 0 {
        let fewer = nodes.drop_last();
        law_candidates_are_all_such_nodes(fewer);
        let before = candidates(fewer);
        let now = candidates(nodes);
        assert forall|i: int| 0 <= i < nodes.len() && is_candidate(#[trigger] nodes[i]) implies
            now.contains(i) by {
            if i < fewer.len() {
                assert(fewer[i] == nodes[i]);
                let k = choose|k: int| 0 <= k < before.len() && before[k] == i;
                assert(now[k] == i);
            } else {
                assert(now[before.len() as int] == i);
            }
        }
        assert forall|k: int| 0 <= k < now.len() implies 0 <= #[trigger] now[k] < nodes.len()
            && is_candidate(nodes[now[k]]) by {
            if k < before.len() {
                assert(now[k] == before[k]);
                assert(fewer[before[k]] == nodes[before[k]]);
            }
        }
        assert forall|j: int, k: int| 0 <= j < k < now.len() implies #[trigger] now[j]
            < #[trigger] now[k] by {
            assert(now[j] == before[j]);
            if k < before.len() {
                assert(now[k] == before[k]);
            }
        }
    }
}

/// The plan for a candidate names the interface, the driver, the file and the command;
/// without the file it is skipped. The command adds the driver from that file.
pub proof fn law_plan_names_what_is_run(n: NodeView, path: Seq<char>, confirm: bool)
    requires
        is_candidate(n),
    ensures
        ({
            let p = plan_page(n, Some(path), confirm);
            let a = advice(n.instance_id)->0;
            &&& p.contains("  Instance: "@ + n.instance_id)
            &&& p.contains("  Driver package: "@ + a.name@)
            &&& p.contains("  INF file: "@ + path)
            &&& p.contains("  Command: pnputil /add-driver \""@ + path + "\" /install"@)
            &&& plan_page(n, None, confirm) == seq![
                "[SKIP] "@ + n.instance_id,
                "  Bundled INF missing at "@ + (a.local_inf->0)@ + "; cannot install offline."@,
            ]
            &&& install_args(path) == seq!["/add-driver"@, path, "/install"@]
        }),
{
    let p = plan_page(n, Some(path), confirm);
    let a = advice(n.instance_id)->0;
    let m = state_line(n).len() as int;
    assert(p[1] == "  Instance: "@ + n.instance_id);
    assert(p[2 + m] == "  Driver package: "@ + a.name@);
    assert(p[3 + m] == "  INF file: "@ + path);
    assert(p[4 + m] == "  Command: pnputil /add-driver \""@ + path + "\" /install"@);
}

/// What a run printed is shown line by line, trimmed and indented, without blank lines.
pub proof fn law_printed_lines_are_shown(
    a: Seq<Seq<char>>,
    b: Seq<Seq<char>>,
    line: Seq<char>,
    indent: Seq<char>,
)
    ensures
        said_lines(a + b, indent) == said_lines(a, indent) + said_lines(b, indent),
        trim(line).len() > 0 ==> said_lines(seq![line], indent) == seq![indent + trim(line)],
        trim(line).len() == 0 ==> said_lines(seq![line], indent) == Seq::<Seq<char>>::empty(),
    decreases b.len(),
{
    let one = seq![line];
    assert(one.drop_last() =~= Seq::empty());
    assert(one.last() == line);
    reveal_with_fuel(said_lines, 2);
    if b.len() == 0 {
        assert(a + b =~= a);
        assert(said_lines(a, indent) + said_lines(b, indent) =~= said_lines(a, indent));
    } else {
        assert((a + b).drop_last() =~= a + b.drop_last());
        assert((a + b).last() == b.last());
        law_printed_lines_are_shown(a, b.drop_last(), line, indent);
        assert(said_lines(a + b, indent) =~= said_lines(a, indent) + said_lines(b, indent));
    }
}

/// A run shows what it printed, errors behind output, and one that failed its status.
pub proof fn law_run_is_shown(output: ToolOutput, status: Seq<char>)
    ensures
        ({
            let said = said_lines(lines(output.stdout@) + lines(output.stderr@), "    "@);
            &&& output.success ==> ran_page(output, status) == said
            &&& !output.success ==> ran_page(output, status) == said + seq![
                "  Result: FAIL - pnputil exited with "@ + status
                    + ". An Administrator shell is required."@,
                ""@,
            ]
        }),
{
    law_printed_lines_are_shown(lines(output.stdout@), lines(output.stderr@), ""@, "    "@);
    let said = said_lines(lines(output.stdout@) + lines(output.stderr@), "    "@);
    if !output.success {
        assert(ran_page(output, status) =~= said + seq![
            "  Result: FAIL - pnputil exited with "@ + status
                + ". An Administrator shell is required."@,
            ""@,
        ]);
    }
}

/// A node has recovered where it is listed again, under its id, and healthy.
pub proof fn law_recovery_is_told_by_the_same_node(id: Seq<char>, after: Seq<NodeView>, k: int)
    requires
        0 <= k <= after.len(),
        forall|j: int| 0 <= j < k ==> (#[trigger] after[j]).instance_id != id,
        k < after.len() ==> after[k].instance_id == id,
    ensures
        k < after.len() && healthy(after[k]) ==> recovery_page(id, after)[0]
            == "  Result: PASS - "@ + id + " is now "@ + dash_if_empty(after[k].status)
            + " / problem "@ + dash_if_empty(after[k].problem) + " (recovered, no reboot)."@,
        k < after.len() && !healthy(after[k]) ==> starts_with(
            recovery_page(id, after)[0],
            "  Result: PARTIAL - still "@ + dash_if_empty(after[k].status) + " / problem "@
                + dash_if_empty(after[k].problem),
        ),
        k == after.len() ==> recovery_page(id, after)[0]
            == "  Result: node re-enumerated under a new instance id; re-run --driver-status to confirm."@,
{
    lemma_same_node(after, id, 0, k);
    if k < after.len() {
        let head = "  Result: PARTIAL - still "@ + dash_if_empty(after[k].status) + " / problem "@
            + dash_if_empty(after[k].problem);
        if !healthy(after[k]) {
            assert(recovery_page(id, after)[0].take(head.len() as int) =~= head);
        }
    }
}

proof fn lemma_same_node(nodes: Seq<NodeView>, id: Seq<char>, i: int, k: int)
    requires
        0 <= i <= k <= nodes.len(),
        forall|j: int| i <= j < k ==> (#[trigger] nodes[j]).instance_id != id,
        k < nodes.len() ==> nodes[k].instance_id == id,
    ensures
        k < nodes.len() ==> same_node(nodes, id, i) == Some(nodes[k]),
        k == nodes.len() ==> same_node(nodes, id, i) is None,
    decreases k - i,
{
    if i < k {
        assert(nodes[i].instance_id != id);
        lemma_same_node(nodes, id, i + 1, k);
    }
}

/// How many of the runs from `n` on succeeded.
pub open spec fn succeeded(runs: Seq<InstallRun>, n: int) -> nat
    decreases runs.len() - n,
{
    if n < 0 || n >= runs.len() {
        0
    } else {
        succeeded(runs, n + 1) + if runs[n].output.success {
            1nat
        } else {
            0nat
        }
    }
}

proof fn lemma_every_candidate_is_run(
    nodes: Seq<NodeView>,
    infs: Seq<Option<Seq<char>>>,
    runs: Seq<InstallRun>,
    k: int,
    n: int,
    executed: nat,
    at: int,
) -> (i: int)
    requires
        0 <= k <= at < candidates(nodes).len(),
        0 <= n <= runs.len(),
        infs[at] is Some,
        installation(true, nodes, infs, runs, k, n, executed).next is Done,
    ensures
        n <= i < runs.len(),
        installation(true, nodes, infs, runs.take(i), k, n, executed).next
            == (InstallActionView::Run {
            place: candidates(nodes)[at],
            args: install_args(infs[at]->0),
        }),
    decreases candidates(nodes).len() - k,
{
    if infs[k] is None {
        lemma_every_candidate_is_run(nodes, infs, runs, k + 1, n, executed, at)
    } else if k == at {
        n
    } else if !runs[n].output.success {
        let i = lemma_every_candidate_is_run(nodes, infs, runs, k + 1, n + 1, executed, at);
        assert(runs.take(i)[n] == runs[n]);
        i
    } else {
        let i = lemma_every_candidate_is_run(nodes, infs, runs, k + 1, n + 1, executed + 1, at);
        assert(runs.take(i)[n] == runs[n]);
        i
    }
}

/// Every candidate whose driver was found is installed: by the end of a confirmed
/// session its command was run, with the file that was found for it.
pub proof fn law_every_candidate_is_installed(
    nodes: Seq<NodeView>,
    infs: Seq<Option<Seq<char>>>,
    runs: Seq<InstallRun>,
    at: int,
)
    requires
        0 <= at < candidates(nodes).len(),
        infs[at] is Some,
        install_session(true, nodes, infs, runs).next is Done,
    ensures
        exists|i: int|
            0 <= i < runs.len() && (#[trigger] install_session(
                true,
                nodes,
                infs,
                runs.take(i),
            )).next == (InstallActionView::Run {
                place: candidates(nodes)[at],
                args: install_args(infs[at]->0),
            }),
{
    let i = lemma_every_candidate_is_run(nodes, infs, runs, 0, 0, 0, at);
    assert(install_session(true, nodes, infs, runs.take(i)).next == (InstallActionView::Run {
        place: candidates(nodes)[at],
        args: install_args(infs[at]->0),
    }));
}

proof fn lemma_installed_count(
    nodes: Seq<NodeView>,
    infs: Seq<Option<Seq<char>>>,
    runs: Seq<InstallRun>,
    k: int,
    n: int,
    executed: nat,
)
    requires
        0 <= k <= candidates(nodes).len(),
        0 <= n,
        runs.len() - n == candidates(nodes).len() - k,
        forall|i: int| 0 <= i < candidates(nodes).len() ==> (#[trigger] infs[i]) is Some,
        installation(true, nodes, infs, runs, k, n, executed).next is Done,
    ensures
        installation(true, nodes, infs, runs, k, n, executed).page.len() > 0,
        installation(true, nodes, infs, runs, k, n, executed).page.last() == install_summary(
            true,
            executed + succeeded(runs, n),
        ),
    decreases candidates(nodes).len() - k,
{
    if k < candidates(nodes).len() {
        assert(infs[k] is Some);
        if runs[n].output.success {
            lemma_installed_count(nodes, infs, runs, k + 1, n + 1, executed + 1);
        } else {
            lemma_installed_count(nodes, infs, runs, k + 1, n + 1, executed);
        }
    }
}

/// The last line counts the runs that succeeded; a dry run says that nothing changed.
pub proof fn law_successful_runs_are_counted(
    nodes: Seq<NodeView>,
    infs: Seq<Option<Seq<char>>>,
    runs: Seq<InstallRun>,
)
    requires
        candidates(nodes).len() > 0,
        runs.len() == candidates(nodes).len(),
        forall|i: int| 0 <= i < candidates(nodes).len() ==> (#[trigger] infs[i]) is Some,
        install_session(true, nodes, infs, runs).next is Done,
    ensures
        install_session(true, nodes, infs, runs).page.last() == "Installed "@ + decimal(
            succeeded(runs, 0),
        )
            + " driver binding(s). Verify with `usbipd-rs --driver-status` and `usbipd-rs --mcu-alive`."@,
        install_summary(false, 0)
            == "Dry run complete. No changes were made. Re-run with --confirm in an Administrator shell to apply."@,
{
    lemma_installed_count(nodes, infs, runs, 0, 0, 0);
}

/// The heads name how many devices were seen, and whether anything is changed; without a
/// candidate that is said, and the state of one is told by its problem.
pub proof fn law_heads_and_states(n: NodeView, devices: nat, confirm: bool)
    ensures
        status_head(devices)[1] == "PASS - Windows USB hub enumeration returned "@ + decimal(
            devices,
        ) + " physical USB device(s)."@,
        install_head(confirm, true)[0] == "=== ST-Link MI_00 Driver Install ("@ + (if confirm {
            "EXECUTE"@
        } else {
            "DRY RUN"@
        }) + ") ==="@,
        install_head(confirm, true).len() == 3,
        install_head(confirm, false) == install_head(confirm, true) + seq![
            "No unhealthy MI_00 interface with a bundled INF was found."@,
            "Run `usbipd-rs --driver-status` to inspect current bindings."@,
        ],
        node_issue(n) matches Some(issue) ==> state_line(n) == seq![
            "  Current state: "@ + issue_label(issue)@ + " (status "@ + dash_if_empty(n.status)
                + ", problem "@ + dash_if_empty(n.problem) + ")"@,
        ],
        node_issue(n) is None ==> state_line(n).len() == 0,
{
    assert(install_head(confirm, false) =~= install_head(confirm, true) + seq![
        "No unhealthy MI_00 interface with a bundled INF was found."@,
        "Run `usbipd-rs --driver-status` to inspect current bindings."@,
    ]);
}

} // verus!
