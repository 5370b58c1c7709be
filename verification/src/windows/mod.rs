//! The driver bindings of USB interfaces on Windows: reading them from a Plug
//! and Play listing, telling what is wrong with one, and which driver it wants.
use vstd::prelude::*;
use vstd::string::*;
use crate::number::{
    all_digits, decimal, digit_value, law_numbers, lemma_written_in_digits, number, read_number,
    value_of,
};
use crate::pieces::{
    ascii_lower, drop_trailing, drop_trailing_of, is_text_ignoring_case, law_letter_case,
    law_split_text, lines, lines_of, lower, lower_of, same_ignoring_case, split_text,
    split_text_of, upper, upper_of, words, words_of,
};
use crate::text::{
    chars_of, contains, ends_with, find_slice_from, find_text, has_prefix, has_suffix, has_text,
    is_text, lacks, law_split_once_parts, law_trim_finds_the_text, lemma_find_text_from, lemma_found_at,
    same_str, split_once, split_once_of, starts_with, string_of, texts, trim, trim_of, views,
};
use crate::tool::ToolOutput;
use vstd::slice::slice_subrange;

pub mod status;

verus! {

// ── Driver nodes ────────────────────────────────────────────────────────
/// One USB interface as Plug and Play sees it.
#[derive(Debug)]
pub struct WindowsUsbDriverNode {
    pub status: String,
    pub class: String,
    pub name: String,
    pub instance_id: String,
    pub service: String,
    pub problem: String,
    pub inf: String,
    pub provider: String,
    pub version: String,
}

/// A driver node with its strings as plain text.
#[verifier::ext_equal]
pub struct NodeView {
    pub status: Seq<char>,
    pub class: Seq<char>,
    pub name: Seq<char>,
    pub instance_id: Seq<char>,
    pub service: Seq<char>,
    pub problem: Seq<char>,
    pub inf: Seq<char>,
    pub provider: Seq<char>,
    pub version: Seq<char>,
}

impl View for WindowsUsbDriverNode {
    type V = NodeView;

    open spec fn view(&self) -> NodeView {
        NodeView {
            status: self.status@,
            class: self.class@,
            name: self.name@,
            instance_id: self.instance_id@,
            service: self.service@,
            problem: self.problem@,
            inf: self.inf@,
            provider: self.provider@,
            version: self.version@,
        }
    }
}

/// The node of which nothing is known.
pub open spec fn blank_node() -> NodeView {
    NodeView {
        status: Seq::empty(),
        class: Seq::empty(),
        name: Seq::empty(),
        instance_id: Seq::empty(),
        service: Seq::empty(),
        problem: Seq::empty(),
        inf: Seq::empty(),
        provider: Seq::empty(),
        version: Seq::empty(),
    }
}

impl Default for WindowsUsbDriverNode {
    fn default() -> (n: WindowsUsbDriverNode)
        ensures
            n@ == blank_node(),
    {
        WindowsUsbDriverNode {
            status: String::new(),
            class: String::new(),
            name: String::new(),
            instance_id: String::new(),
            service: String::new(),
            problem: String::new(),
            inf: String::new(),
            provider: String::new(),
            version: String::new(),
        }
    }
}

/// The node works: its status is OK, and there is no problem code but the one
/// for none.
pub open spec fn healthy(n: NodeView) -> bool {
    same_ignoring_case(n.status, "OK"@) && (n.problem.len() == 0 || n.problem == "0"@ || n.problem
        == "CM_PROB_NONE"@)
}

/// The node with one field set; a key that is none of its fields changes
/// nothing.
pub open spec fn with_field(n: NodeView, key: Seq<char>, value: Seq<char>) -> NodeView {
    let v = trim(value);
    if key == "STATUS"@ {
        NodeView { status: v, ..n }
    } else if key == "CLASS"@ {
        NodeView { class: v, ..n }
    } else if key == "NAME"@ {
        NodeView { name: v, ..n }
    } else if key == "INSTANCE"@ {
        NodeView { instance_id: v, ..n }
    } else if key == "SERVICE"@ {
        NodeView { service: v, ..n }
    } else if key == "PROBLEM"@ {
        NodeView { problem: v, ..n }
    } else if key == "INF"@ {
        NodeView { inf: v, ..n }
    } else if key == "PROVIDER"@ {
        NodeView { provider: v, ..n }
    } else if key == "VERSION"@ {
        NodeView { version: v, ..n }
    } else {
        n
    }
}

impl WindowsUsbDriverNode {
    pub fn is_healthy(&self) -> (r: bool)
        ensures
            r == healthy(self@),
    {
        let status = chars_of(self.status.as_str());
        is_text_ignoring_case(status.as_slice(), "OK") && (self.problem.as_str().is_empty()
            || same_str(self.problem.as_str(), "0") || same_str(
            self.problem.as_str(),
            "CM_PROB_NONE",
        ))
    }

    pub fn set_field(&mut self, key: &str, value: &str)
        ensures
            final(self)@ == with_field(old(self)@, key@, value@),
    {
        let value = chars_of(value);
        let value = string_of(trim_of(value.as_slice()));
        if same_str(key, "STATUS") {
            self.status = value;
        } else if same_str(key, "CLASS") {
            self.class = value;
        } else if same_str(key, "NAME") {
            self.name = value;
        } else if same_str(key, "INSTANCE") {
            self.instance_id = value;
        } else if same_str(key, "SERVICE") {
            self.service = value;
        } else if same_str(key, "PROBLEM") {
            self.problem = value;
        } else if same_str(key, "INF") {
            self.inf = value;
        } else if same_str(key, "PROVIDER") {
            self.provider = value;
        } else if same_str(key, "VERSION") {
            self.version = value;
        }
    }
}

/// The line that starts a node in the listing.
pub const NODE_MARK: &'static str = "@@NODE@@";

/// What the lines give so far: the nodes that are complete, and the one that is
/// being read.
pub open spec fn nodes_read(lines: Seq<Seq<char>>) -> (Seq<NodeView>, Option<NodeView>)
    decreases lines.len(),
{
    if lines.len() == 0 {
        (Seq::empty(), None)
    } else {
        let (done, current) = nodes_read(lines.drop_last());
        let line = trim(lines.last());
        if line == NODE_MARK@ {
            (all_nodes(done, current), Some(blank_node()))
        } else {
            match (split_once(line, '='), current) {
                (Some((key, value)), Some(node)) => (done, Some(with_field(node, key, value))),
                _ => (done, current),
            }
        }
    }
}

pub open spec fn all_nodes(done: Seq<NodeView>, current: Option<NodeView>) -> Seq<NodeView> {
    match current {
        Some(node) => done.push(node),
        None => done,
    }
}

/// The nodes that a listing describes.
pub open spec fn listed_nodes(text: Seq<char>) -> Seq<NodeView> {
    let (done, current) = nodes_read(lines(text));
    all_nodes(done, current)
}

pub open spec fn node_views(nodes: Seq<WindowsUsbDriverNode>) -> Seq<NodeView> {
    Seq::new(nodes.len(), |i: int| nodes[i]@)
}

pub open spec fn node_view(node: Option<WindowsUsbDriverNode>) -> Option<NodeView> {
    match node {
        Some(n) => Some(n@),
        None => None,
    }
}

/// The PowerShell script that prints the listing.
pub const NODES_SCRIPT: &'static str = "\n$ErrorActionPreference='SilentlyContinue'\nfunction Prop($d, $key) {\n  $p = Get-PnpDeviceProperty -InstanceId $d.InstanceId -KeyName $key\n  if ($null -ne $p.Data) { return ($p.Data -join ',') }\n  return ''\n}\nGet-PnpDevice -PresentOnly |\n  Where-Object { $_.InstanceId -like 'USB\\VID_*' } |\n  Sort-Object InstanceId |\n  ForEach-Object {\n    Write-Output '@@NODE@@'\n    Write-Output ('STATUS=' + $_.Status)\n    Write-Output ('CLASS=' + $_.Class)\n    Write-Output ('NAME=' + $_.FriendlyName)\n    Write-Output ('INSTANCE=' + $_.InstanceId)\n    Write-Output ('SERVICE=' + (Prop $_ 'DEVPKEY_Device_Service'))\n    Write-Output ('PROBLEM=' + (Prop $_ 'DEVPKEY_Device_ProblemCode'))\n    Write-Output ('INF=' + (Prop $_ 'DEVPKEY_Device_DriverInfPath'))\n    Write-Output ('PROVIDER=' + (Prop $_ 'DEVPKEY_Device_DriverProvider'))\n    Write-Output ('VERSION=' + (Prop $_ 'DEVPKEY_Device_DriverVersion'))\n  }\n";

fn push_node(nodes: &mut Vec<WindowsUsbDriverNode>, node: Option<WindowsUsbDriverNode>)
    ensures
        node_views(final(nodes)@) == all_nodes(node_views(old(nodes)@), node_view(node)),
{
    if let Some(n) = node {
        nodes.push(n);
        assert(node_views(nodes@) =~= node_views(old(nodes)@).push(n@));
    }
}

/// The nodes that the script of [`NODES_SCRIPT`] listed, or what went wrong with
/// it.
pub fn windows_usb_driver_nodes(output: &ToolOutput) -> (r: Result<Vec<WindowsUsbDriverNode>, String>)
    ensures
        match r {
            Ok(nodes) => output.success && node_views(nodes@) == listed_nodes(output.stdout@),
            Err(e) => !output.success && e@ == "Windows Plug and Play query failed: "@ + trim(
                output.stderr@,
            ),
        },
{
    if !output.success {
        let stderr = chars_of(output.stderr.as_str());
        let mut e = "Windows Plug and Play query failed: ".to_string();
        e.append(string_of(trim_of(stderr.as_slice())).as_str());
        return Err(e);
    }
    let text = chars_of(output.stdout.as_str());
    let all = lines_of(text.as_slice());
    let ghost seen = views(all@);
    let mut nodes: Vec<WindowsUsbDriverNode> = Vec::new();
    let mut current: Option<WindowsUsbDriverNode> = None;
    assert(node_views(nodes@) =~= Seq::empty());
    let mut i: usize = 0;
    while i < all.len()
        invariant
            i <= all@.len(),
            views(all@) == seen,
            nodes_read(seen.take(i as int)) == (node_views(nodes@), node_view(current)),
        decreases all.len() - i,
    {
        let line = trim_of(all[i]);
        assert(seen[i as int] == all@[i as int]@);
        assert(seen.take(i + 1).drop_last() =~= seen.take(i as int));
        if is_text(line, NODE_MARK) {
            push_node(&mut nodes, current);
            current = Some(WindowsUsbDriverNode::default());
        } else if let Some((key, value)) = split_once_of(line, '=') {
            if let Some(node) = current {
                let mut node = node;
                node.set_field(string_of(key).as_str(), string_of(value).as_str());
                current = Some(node);
            } else {
                current = None;
            }
        }
        i += 1;
    }
    assert(seen.take(i as int) =~= seen);
    push_node(&mut nodes, current);
    Ok(nodes)
}

// ── Advice ──────────────────────────────────────────────────────────────
/// Recommended official driver for an unhealthy interface, plus — when this
/// repository ships the matching package — the relative path to the bundled
/// INF so `--driver-status` can report "available locally" instead of blindly
/// telling the user to download.
#[derive(Clone, Copy, Debug)]
pub struct DriverAdvice {
    pub name: &'static str,
    pub install: &'static str,
    /// Relative path (from the repo root / exe dir) to a bundled INF, if any.
    pub local_inf: Option<&'static str>,
}

/// The debug interface of an ST-Link, by its instance id in upper case.
pub open spec fn is_stlink_debug(id: Seq<char>) -> bool {
    contains(id, "VID_0483&PID_374B&MI_00"@) || contains(id, "VID_0483&PID_374A&MI_00"@)
        || contains(id, "VID_0483&PID_374E&MI_00"@) || contains(id, "VID_0483&PID_374F&MI_00"@)
}

/// The advice for an interface, by the first family that its instance id names.
pub open spec fn advice(instance_id: Seq<char>) -> Option<DriverAdvice> {
    let id = upper(instance_id);
    if is_stlink_debug(id) {
        Some(
            DriverAdvice {
                name: "STMicroelectronics STSW-LINK009 (WinUSB binding for ST-Link Debug)",
                install: "pnputil /add-driver \".\\windows-driver\\stsw-link009\\stlink_dbg_winusb.inf\" /install",
                local_inf: Some("windows-driver/stsw-link009/stlink_dbg_winusb.inf"),
            },
        )
    } else if contains(id, "VID_0483&PID_DF11"@) {
        Some(
            DriverAdvice {
                name: "STM32CubeProgrammer driver package or WinUSB",
                install: "Install STM32CubeProgrammer, or bind this DFU interface to WinUSB with Zadig.",
                local_inf: None,
            },
        )
    } else if contains(id, "VID_10C4&PID_EA"@) {
        Some(
            DriverAdvice {
                name: "Silicon Labs CP210x Universal Windows Driver",
                install: "Download from https://www.silabs.com/developers/usb-to-uart-bridge-vcp-drivers",
                local_inf: None,
            },
        )
    } else if contains(id, "VID_1A86&"@) {
        Some(
            DriverAdvice {
                name: "WCH CH34x/CH91xx Windows driver",
                install: "Download from https://www.wch-ic.com/downloads/CH341SER_EXE.html",
                local_inf: None,
            },
        )
    } else if contains(id, "VID_0403&"@) {
        Some(
            DriverAdvice {
                name: "FTDI CDM/VCP driver",
                install: "Download from https://ftdichip.com/drivers/vcp-drivers/",
                local_inf: None,
            },
        )
    } else if contains(id, "VID_2E8A&PID_0003"@) || contains(id, "VID_2E8A&PID_000F"@) {
        Some(
            DriverAdvice {
                name: "Microsoft WinUSB for Raspberry Pi BOOTSEL",
                install: "Use Zadig to bind only the RP2 BOOTSEL interface to WinUSB.",
                local_inf: None,
            },
        )
    } else {
        None
    }
}

pub fn known_driver_advice(instance_id: &str) -> (r: Option<DriverAdvice>)
    ensures
        r == advice(instance_id@),
{
    let id = chars_of(instance_id);
    let id = upper_of(id.as_slice());
    let id = id.as_slice();
    if has_text(id, "VID_0483&PID_374B&MI_00") || has_text(id, "VID_0483&PID_374A&MI_00")
        || has_text(id, "VID_0483&PID_374E&MI_00") || has_text(id, "VID_0483&PID_374F&MI_00") {
        return Some(
            DriverAdvice {
                name: "STMicroelectronics STSW-LINK009 (WinUSB binding for ST-Link Debug)",
                install: "pnputil /add-driver \".\\windows-driver\\stsw-link009\\stlink_dbg_winusb.inf\" /install",
                local_inf: Some("windows-driver/stsw-link009/stlink_dbg_winusb.inf"),
            },
        );
    }
    if has_text(id, "VID_0483&PID_DF11") {
        return Some(
            DriverAdvice {
                name: "STM32CubeProgrammer driver package or WinUSB",
                install: "Install STM32CubeProgrammer, or bind this DFU interface to WinUSB with Zadig.",
                local_inf: None,
            },
        );
    }
    if has_text(id, "VID_10C4&PID_EA") {
        return Some(
            DriverAdvice {
                name: "Silicon Labs CP210x Universal Windows Driver",
                install: "Download from https://www.silabs.com/developers/usb-to-uart-bridge-vcp-drivers",
                local_inf: None,
            },
        );
    }
    if has_text(id, "VID_1A86&") {
        return Some(
            DriverAdvice {
                name: "WCH CH34x/CH91xx Windows driver",
                install: "Download from https://www.wch-ic.com/downloads/CH341SER_EXE.html",
                local_inf: None,
            },
        );
    }
    if has_text(id, "VID_0403&") {
        return Some(
            DriverAdvice {
                name: "FTDI CDM/VCP driver",
                install: "Download from https://ftdichip.com/drivers/vcp-drivers/",
                local_inf: None,
            },
        );
    }
    if has_text(id, "VID_2E8A&PID_0003") || has_text(id, "VID_2E8A&PID_000F") {
        return Some(
            DriverAdvice {
                name: "Microsoft WinUSB for Raspberry Pi BOOTSEL",
                install: "Use Zadig to bind only the RP2 BOOTSEL interface to WinUSB.",
                local_inf: None,
            },
        );
    }
    None
}

// ── The driver store ────────────────────────────────────────────────────
/// The word is a published name, `oemNN.inf` in whatever case.
pub open spec fn is_published_name(word: Seq<char>) -> bool {
    let t = lower(drop_trailing(word, ',', ';'));
    starts_with(t, "oem"@) && ends_with(t, ".inf"@)
}

/// The first published name among the words from `i` on.
pub open spec fn published_name(words: Seq<Seq<char>>, i: int) -> Option<Seq<char>>
    decreases words.len() - i,
{
    if i < 0 || i >= words.len() {
        None
    } else if is_published_name(words[i]) {
        Some(drop_trailing(words[i], ',', ';'))
    } else {
        published_name(words, i + 1)
    }
}

/// The published name of a block that mentions the file, in whatever case.
pub open spec fn block_name(block: Seq<char>, original: Seq<char>) -> Option<Seq<char>> {
    if contains(lower(block), lower(original)) {
        published_name(words(block), 0)
    } else {
        None
    }
}

/// The published names that the blocks give, each once, in the order in which
/// they first come.
pub open spec fn block_names(blocks: Seq<Seq<char>>, original: Seq<char>) -> Seq<Seq<char>>
    decreases blocks.len(),
{
    if blocks.len() == 0 {
        Seq::empty()
    } else {
        let names = block_names(blocks.drop_last(), original);
        match block_name(blocks.last(), original) {
            Some(name) => if names.contains(name) {
                names
            } else {
                names.push(name)
            },
            None => names,
        }
    }
}

/// Every piece cut at blank lines.
pub open spec fn cut_blocks(pieces: Seq<Seq<char>>) -> Seq<Seq<char>>
    decreases pieces.len(),
{
    if pieces.len() == 0 {
        Seq::empty()
    } else {
        cut_blocks(pieces.drop_last()) + split_text(pieces.last(), "\n\n"@)
    }
}

/// The blocks of a listing: what stands between blank lines, with either kind of
/// line ending.
pub open spec fn listing_blocks(text: Seq<char>) -> Seq<Seq<char>> {
    cut_blocks(split_text(text, "\r\n\r\n"@))
}

fn block_name_of(block: &[char], original: &[char]) -> (r: Option<String>)
    ensures
        match r {
            Some(name) => block_name(block@, original@) == Some(name@),
            None => block_name(block@, original@) is None,
        },
{
    let low = lower_of(block);
    let target = lower_of(original);
    if find_slice_from(low.as_slice(), target.as_slice(), 0).is_none() {
        return None;
    }
    let tokens = words_of(block);
    let mut i: usize = 0;
    while i < tokens.len()
        invariant
            i <= tokens@.len(),
            views(tokens@) == words(block@),
            contains(lower(block@), lower(original@)),
            published_name(words(block@), 0) == published_name(words(block@), i as int),
        decreases tokens.len() - i,
    {
        assert(views(tokens@)[i as int] == tokens@[i as int]@);
        let name = drop_trailing_of(tokens[i], ',', ';');
        let t = lower_of(name);
        if has_prefix(t.as_slice(), "oem") && has_suffix(t.as_slice(), ".inf") {
            return Some(string_of(name));
        }
        i += 1;
    }
    None
}

fn is_listed(names: &Vec<String>, name: &str) -> (r: bool)
    ensures
        r == texts(names@).contains(name@),
{
    let mut i: usize = 0;
    while i < names.len()
        invariant
            i <= names@.len(),
            forall|k: int| 0 <= k < i ==> names@[k]@ != name@,
        decreases names.len() - i,
    {
        if same_str(names[i].as_str(), name) {
            assert(texts(names@)[i as int] == name@);
            return true;
        }
        i += 1;
    }
    assert forall|k: int| 0 <= k < texts(names@).len() implies texts(names@)[k] != name@ by {
        assert(texts(names@)[k] == names@[k]@);
    }
    false
}

fn listing_blocks_of<'a>(text: &'a [char]) -> (v: Vec<&'a [char]>)
    ensures
        views(v@) == listing_blocks(text@),
{
    proof {
        reveal_strlit("\r\n\r\n");
        reveal_strlit("\n\n");
    }
    let windows_blank = chars_of("\r\n\r\n");
    let blank = chars_of("\n\n");
    let pieces = split_text_of(text, windows_blank.as_slice());
    let ghost seen = views(pieces@);
    let mut v: Vec<&'a [char]> = Vec::new();
    assert(views(v@) =~= Seq::empty());
    let mut i: usize = 0;
    while i < pieces.len()
        invariant
            i <= pieces@.len(),
            seen == views(pieces@),
            blank@ == "\n\n"@,
            blank@.len() > 0,
            views(v@) == cut_blocks(seen.take(i as int)),
        decreases pieces.len() - i,
    {
        assert(seen[i as int] == pieces@[i as int]@);
        assert(seen.take(i + 1).drop_last() =~= seen.take(i as int));
        let mut blocks = split_text_of(pieces[i], blank.as_slice());
        let ghost before = views(v@);
        let ghost more = blocks@;
        v.append(&mut blocks);
        assert(views(v@) =~= before + views(more));
        i += 1;
    }
    assert(seen.take(i as int) =~= seen);
    v
}

/// Pure parser for `pnputil /enum-drivers` output: returns the `oemNN.inf`
/// published names of every driver block that mentions `original_inf`. It goes
/// by the name that Windows assigns, so it is independent of the
/// locale-specific field labels.
pub fn parse_driverstore_oem(text: &str, original_inf: &str) -> (r: Vec<String>)
    ensures
        texts(r@) == block_names(listing_blocks(text@), original_inf@),
{
    let text = chars_of(text);
    let original = chars_of(original_inf);
    let blocks = listing_blocks_of(text.as_slice());
    let ghost seen = views(blocks@);
    let mut names: Vec<String> = Vec::new();
    assert(texts(names@) =~= Seq::empty());
    let mut i: usize = 0;
    while i < blocks.len()
        invariant
            i <= blocks@.len(),
            seen == views(blocks@),
            original@ == original_inf@,
            texts(names@) == block_names(seen.take(i as int), original_inf@),
        decreases blocks.len() - i,
    {
        assert(seen[i as int] == blocks@[i as int]@);
        assert(seen.take(i + 1).drop_last() =~= seen.take(i as int));
        if let Some(name) = block_name_of(blocks[i], original.as_slice()) {
            if !is_listed(&names, name.as_str()) {
                let ghost before = texts(names@);
                names.push(name);
                assert(texts(names@) =~= before.push(name@));
            }
        }
        i += 1;
    }
    assert(seen.take(i as int) =~= seen);
    names
}

/// Published `oemNN.inf` names in the Windows driver store whose package was
/// staged from `original_inf` (e.g. `stlink_dbg_winusb.inf`), out of what
/// `pnputil /enum-drivers` printed. An empty result means the package is not yet
/// staged, or that the listing could not be had.
pub fn driverstore_matches(output: Option<&ToolOutput>, original_inf: &str) -> (r: Vec<String>)
    ensures
        texts(r@) == (match output {
            Some(o) => if o.success {
                block_names(listing_blocks(o.stdout@), original_inf@)
            } else {
                Seq::empty()
            },
            None => Seq::empty(),
        }),
{
    if let Some(o) = output {
        if o.success {
            return parse_driverstore_oem(o.stdout.as_str(), original_inf);
        }
    }
    let none: Vec<String> = Vec::new();
    assert(texts(none@) =~= Seq::empty());
    none
}

/// No published name is listed twice.
pub proof fn law_published_names_are_distinct(blocks: Seq<Seq<char>>, original: Seq<char>)
    ensures
        block_names(blocks, original).no_duplicates(),
    decreases blocks.len(),
{
    if blocks.len() > 0 {
        law_published_names_are_distinct(blocks.drop_last(), original);
    }
}

// ── Instance ids ────────────────────────────────────────────────────────
/// The number in the four hex digits behind the first `mark`. A second mark
/// ends the digits.
pub open spec fn marked_id(id: Seq<char>, mark: Seq<char>) -> Option<u16> {
    let pieces = split_text(id, mark);
    if pieces.len() < 2 || pieces[1].len() < 4 {
        None
    } else {
        match number(pieces[1].take(4), 16, u16::MAX as nat) {
            Some(n) => Some(n as u16),
            None => None,
        }
    }
}

/// The VID and PID that an instance id names.
pub open spec fn vid_pid(instance_id: Seq<char>) -> Option<(u16, u16)> {
    let id = upper(instance_id);
    match (marked_id(id, "VID_"@), marked_id(id, "PID_"@)) {
        (Some(vid), Some(pid)) => Some((vid, pid)),
        _ => None,
    }
}

fn marked_id_of(id: &[char], mark: &[char]) -> (r: Option<u16>)
    requires
        mark@.len() > 0,
    ensures
        r == marked_id(id@, mark@),
{
    let pieces = split_text_of(id, mark);
    if pieces.len() < 2 {
        assert(views(pieces@).len() < 2);
        return None;
    }
    assert(views(pieces@)[1] == pieces@[1]@);
    if pieces[1].len() < 4 {
        return None;
    }
    match read_number(slice_subrange(pieces[1], 0, 4), 16, 0xFFFF) {
        Some(v) => Some(v as u16),
        None => None,
    }
}

pub fn instance_vidpid(instance_id: &str) -> (r: Option<(u16, u16)>)
    ensures
        r == vid_pid(instance_id@),
{
    proof {
        reveal_strlit("VID_");
        reveal_strlit("PID_");
    }
    let id = chars_of(instance_id);
    let id = upper_of(id.as_slice());
    let vid_mark = chars_of("VID_");
    let pid_mark = chars_of("PID_");
    match marked_id_of(id.as_slice(), vid_mark.as_slice()) {
        Some(vid) => match marked_id_of(id.as_slice(), pid_mark.as_slice()) {
            Some(pid) => Some((vid, pid)),
            None => None,
        },
        None => None,
    }
}

// ── Issues ──────────────────────────────────────────────────────────────
/// A coarse, actionable category for *why* a present USB interface is
/// unhealthy, derived from its Windows PnP problem code, bound service, and
/// status. The point is to separate "Windows never bound a driver" from
/// "a driver is bound but broken" so the next step is unambiguous.
#[derive(Clone, Copy, PartialEq, Eq, Debug, Structural)]
pub enum DriverIssue {
    MissingDriver,
    DriverLoadFailure,
    StoppedNode,
    SignatureFailure,
    Blocked,
    ResourceConflict,
    Unknown,
}

pub open spec fn issue_label(issue: DriverIssue) -> &'static str {
    match issue {
        DriverIssue::MissingDriver => "MISSING FUNCTION DRIVER",
        DriverIssue::DriverLoadFailure => "DRIVER FAILED TO LOAD",
        DriverIssue::StoppedNode => "DEVICE NODE STOPPED/DISABLED",
        DriverIssue::SignatureFailure => "DRIVER SIGNATURE REJECTED",
        DriverIssue::Blocked => "DRIVER BLOCKED",
        DriverIssue::ResourceConflict => "RESOURCE CONFLICT",
        DriverIssue::Unknown => "UNCLASSIFIED PROBLEM",
    }
}

pub open spec fn issue_meaning(issue: DriverIssue) -> &'static str {
    match issue {
        DriverIssue::MissingDriver => "Windows enumerated the interface but bound no function driver (no service).",
        DriverIssue::DriverLoadFailure => "A driver is assigned but its service could not start: stale binding, failed driver entry, or a prior unload.",
        DriverIssue::StoppedNode => "The node is disabled, not started, or waiting for a restart.",
        DriverIssue::SignatureFailure => "The matched driver's digital signature could not be verified.",
        DriverIssue::Blocked => "Windows blocked this driver under a known-bad list or security policy.",
        DriverIssue::ResourceConflict => "The device reports an I/O, memory, or IRQ resource conflict.",
        DriverIssue::Unknown => "The problem code does not map to a known category.",
    }
}

pub open spec fn issue_action(issue: DriverIssue) -> &'static str {
    match issue {
        DriverIssue::MissingDriver => "Bind the correct function driver (see below). This is a driver gap, not a hardware fault.",
        DriverIssue::DriverLoadFailure => "Remove the stale binding (pnputil /delete-driver) then reinstall the correct INF.",
        DriverIssue::StoppedNode => "Enable/restart the node in Device Manager; reboot only if it reports NEED_RESTART.",
        DriverIssue::SignatureFailure => "Install a properly signed driver package from the vendor.",
        DriverIssue::Blocked => "Do not force-load. Obtain an updated, unblocked driver from the vendor.",
        DriverIssue::ResourceConflict => "Move the device to another port/hub and check for a conflicting device.",
        DriverIssue::Unknown => "Inspect the raw problem code for this instance in Device Manager.",
    }
}

impl DriverIssue {
    pub fn label(self) -> (s: &'static str)
        ensures
            s == issue_label(self),
    {
        match self {
            DriverIssue::MissingDriver => "MISSING FUNCTION DRIVER",
            DriverIssue::DriverLoadFailure => "DRIVER FAILED TO LOAD",
            DriverIssue::StoppedNode => "DEVICE NODE STOPPED/DISABLED",
            DriverIssue::SignatureFailure => "DRIVER SIGNATURE REJECTED",
            DriverIssue::Blocked => "DRIVER BLOCKED",
            DriverIssue::ResourceConflict => "RESOURCE CONFLICT",
            DriverIssue::Unknown => "UNCLASSIFIED PROBLEM",
        }
    }

    pub fn meaning(self) -> (s: &'static str)
        ensures
            s == issue_meaning(self),
    {
        match self {
            DriverIssue::MissingDriver => "Windows enumerated the interface but bound no function driver (no service).",
            DriverIssue::DriverLoadFailure => "A driver is assigned but its service could not start: stale binding, failed driver entry, or a prior unload.",
            DriverIssue::StoppedNode => "The node is disabled, not started, or waiting for a restart.",
            DriverIssue::SignatureFailure => "The matched driver's digital signature could not be verified.",
            DriverIssue::Blocked => "Windows blocked this driver under a known-bad list or security policy.",
            DriverIssue::ResourceConflict => "The device reports an I/O, memory, or IRQ resource conflict.",
            DriverIssue::Unknown => "The problem code does not map to a known category.",
        }
    }

    pub fn next_action(self) -> (s: &'static str)
        ensures
            s == issue_action(self),
    {
        match self {
            DriverIssue::MissingDriver => "Bind the correct function driver (see below). This is a driver gap, not a hardware fault.",
            DriverIssue::DriverLoadFailure => "Remove the stale binding (pnputil /delete-driver) then reinstall the correct INF.",
            DriverIssue::StoppedNode => "Enable/restart the node in Device Manager; reboot only if it reports NEED_RESTART.",
            DriverIssue::SignatureFailure => "Install a properly signed driver package from the vendor.",
            DriverIssue::Blocked => "Do not force-load. Obtain an updated, unblocked driver from the vendor.",
            DriverIssue::ResourceConflict => "Move the device to another port/hub and check for a conflicting device.",
            DriverIssue::Unknown => "Inspect the raw problem code for this instance in Device Manager.",
        }
    }
}

/// The category that a configuration-manager problem code belongs to. Without a
/// code, or where nothing was installed, a missing service is the problem.
pub open spec fn code_issue(code: nat, no_service: bool) -> DriverIssue {
    if (code == 0 || code == 1 || code == 28) && no_service {
        DriverIssue::MissingDriver
    } else if code == 1 || code == 28 || code == 31 || 37 <= code <= 39 {
        DriverIssue::DriverLoadFailure
    } else if code == 10 || code == 14 || code == 19 || code == 21 || code == 22 || code == 24
        || code == 45 {
        DriverIssue::StoppedNode
    } else if code == 52 {
        DriverIssue::SignatureFailure
    } else if code == 43 || code == 44 || code == 48 {
        DriverIssue::Blocked
    } else if code == 12 {
        DriverIssue::ResourceConflict
    } else {
        DriverIssue::Unknown
    }
}

/// The problem code that a node reports; zero where it is no number.
pub open spec fn node_code(n: NodeView) -> nat {
    match number(trim(n.problem), 10, u32::MAX as nat) {
        Some(code) => code,
        None => 0,
    }
}

/// What is wrong with a node, if anything is.
pub open spec fn node_issue(n: NodeView) -> Option<DriverIssue> {
    if healthy(n) {
        None
    } else {
        Some(code_issue(node_code(n), trim(n.service).len() == 0))
    }
}

/// Map an unhealthy node to a `DriverIssue`. Returns `None` when the node is
/// healthy. The numeric values are Windows `CM_PROB_*` configuration-manager
/// problem codes reported via `DEVPKEY_Device_ProblemCode`.
pub fn classify_driver_issue(node: &WindowsUsbDriverNode) -> (r: Option<DriverIssue>)
    ensures
        r == node_issue(node@),
{
    if node.is_healthy() {
        return None;
    }
    let service = chars_of(node.service.as_str());
    let no_service = trim_of(service.as_slice()).len() == 0;
    let problem = chars_of(node.problem.as_str());
    let code: u64 = match read_number(trim_of(problem.as_slice()), 10, 0xFFFF_FFFF) {
        Some(code) => code,
        None => 0,
    };
    Some(
        match code {
            // CM_PROB_NOT_CONFIGURED / CM_PROB_FAILED_INSTALL: no driver vs broken.
            1 | 28 => if no_service {
                DriverIssue::MissingDriver
            } else {
                DriverIssue::DriverLoadFailure
            },
            // Disabled, not started, needs restart, phantom, etc.
            10 | 14 | 19 | 21 | 22 | 24 | 45 => DriverIssue::StoppedNode,
            // Stale binding, failed driver entry, failed/aborted load.
            31 | 37 | 38 | 39 => DriverIssue::DriverLoadFailure,
            // CM_PROB_UNSIGNED_DRIVER.
            52 => DriverIssue::SignatureFailure,
            // Blocked driver / boot-time blocked.
            43 | 44 | 48 => DriverIssue::Blocked,
            // CM_PROB_NORMAL_CONFLICT.
            12 => DriverIssue::ResourceConflict,
            // Status not OK but no code: empty service means missing.
            0 if no_service => DriverIssue::MissingDriver,
            _ => DriverIssue::Unknown,
        },
    )
}

/// Every interface that is not healthy is classified, and no other.
pub proof fn law_failed_interfaces_are_classified(n: NodeView)
    ensures
        node_issue(n) is Some == !healthy(n),
{
}

/// A driver is called missing only where no service is bound.
pub proof fn law_missing_driver_means_no_service(n: NodeView)
    requires
        node_issue(n) == Some(DriverIssue::MissingDriver),
    ensures
        trim(n.service).len() == 0,
{
}

// ── What a listing says ─────────────────────────────────────────────────
/// A node works exactly where its status says OK, in whatever case, and its problem is
/// empty, zero, or named as none.
pub proof fn law_healthy_nodes(n: NodeView)
    ensures
        healthy(n) <==> n.status.len() == 2 && (n.status[0] == 'O' || n.status[0] == 'o') && (
        n.status[1] == 'K' || n.status[1] == 'k') && (n.problem.len() == 0 || n.problem == seq!['0']
            || n.problem == "CM_PROB_NONE"@),
{
    reveal_strlit("OK");
    reveal_strlit("0");
    assert("0"@ =~= seq!['0']);
    let a = lower(n.status);
    let b = lower("OK"@);
    assert(b[0] == 'o' && b[1] == 'k');
    assert(a.len() == n.status.len());
    if n.status.len() == 2 {
        assert(a[0] == ascii_lower(n.status[0]) && a[1] == ascii_lower(n.status[1]));
        law_letter_case(n.status[0]);
        law_letter_case(n.status[1]);
        if a[0] == 'o' && a[1] == 'k' {
            assert(a =~= b);
        }
    }
}

/// Each key sets its own field to the trimmed value and leaves the others; an unknown
/// key changes nothing.
pub proof fn law_keys_and_their_fields(n: NodeView, key: Seq<char>, value: Seq<char>)
    ensures
        with_field(n, "STATUS"@, value) == (NodeView { status: trim(value), ..n }),
        with_field(n, "CLASS"@, value) == (NodeView { class: trim(value), ..n }),
        with_field(n, "NAME"@, value) == (NodeView { name: trim(value), ..n }),
        with_field(n, "INSTANCE"@, value) == (NodeView { instance_id: trim(value), ..n }),
        with_field(n, "SERVICE"@, value) == (NodeView { service: trim(value), ..n }),
        with_field(n, "PROBLEM"@, value) == (NodeView { problem: trim(value), ..n }),
        with_field(n, "INF"@, value) == (NodeView { inf: trim(value), ..n }),
        with_field(n, "PROVIDER"@, value) == (NodeView { provider: trim(value), ..n }),
        with_field(n, "VERSION"@, value) == (NodeView { version: trim(value), ..n }),
        key != "STATUS"@ && key != "CLASS"@ && key != "NAME"@ && key != "INSTANCE"@ && key != "SERVICE"@ && key != "PROBLEM"@ && key != "INF"@ && key != "PROVIDER"@ && key != "VERSION"@ ==> with_field(n, key, value) == n,
{
    reveal_strlit("STATUS");
    reveal_strlit("CLASS");
    reveal_strlit("NAME");
    reveal_strlit("INSTANCE");
    reveal_strlit("SERVICE");
    reveal_strlit("PROBLEM");
    reveal_strlit("INF");
    reveal_strlit("PROVIDER");
    reveal_strlit("VERSION");
    assert("STATUS"@[0] == 'S' && "STATUS"@.len() == 6);
    assert("CLASS"@[0] == 'C' && "CLASS"@.len() == 5);
    assert("NAME"@[0] == 'N' && "NAME"@.len() == 4);
    assert("INSTANCE"@[0] == 'I' && "INSTANCE"@.len() == 8);
    assert("SERVICE"@[0] == 'S' && "SERVICE"@.len() == 7);
    assert("PROBLEM"@[0] == 'P' && "PROBLEM"@.len() == 7);
    assert("INF"@[0] == 'I' && "INF"@.len() == 3);
    assert("PROVIDER"@[0] == 'P' && "PROVIDER"@.len() == 8);
    assert("VERSION"@[0] == 'V' && "VERSION"@.len() == 7);
}

/// The nodes of some lines.
pub open spec fn nodes_of(all: Seq<Seq<char>>) -> Seq<NodeView> {
    all_nodes(nodes_read(all).0, nodes_read(all).1)
}

proof fn lemma_no_node_yet(all: Seq<Seq<char>>)
    ensures
        nodes_read(all).1 is None ==> nodes_read(all).0.len() == 0,
    decreases all.len(),
{
    if all.len() > 0 {
        lemma_no_node_yet(all.drop_last());
    }
}

/// A mark begins a new node behind those that were listed. A line of a key and a value
/// goes to the last node, one without an equals sign changes nothing, and so does any
/// line before the first mark.
pub proof fn law_lines_of_a_listing(
    all: Seq<Seq<char>>,
    line: Seq<char>,
    key: Seq<char>,
    value: Seq<char>,
)
    ensures
        nodes_of(Seq::empty()) == Seq::<NodeView>::empty(),
        trim(line) == "@@NODE@@"@ ==> nodes_of(all.push(line)) == nodes_of(all).push(blank_node()),
        trim(line) == key + seq!['='] + value && lacks(key, '=') ==> nodes_of(all.push(line))
            == if nodes_of(all).len() == 0 {
            nodes_of(all)
        } else {
            nodes_of(all).drop_last().push(with_field(nodes_of(all).last(), key, value))
        },
        lacks(trim(line), '=') && trim(line) != "@@NODE@@"@ ==> nodes_of(all.push(line))
            == nodes_of(all),
{
    reveal_strlit("@@NODE@@");
    let more = all.push(line);
    let t = trim(line);
    assert(more.drop_last() =~= all);
    assert(more.last() == line);
    lemma_no_node_yet(all);
    let (done, current) = nodes_read(all);
    if let Some(n) = current {
        assert(done.push(n).drop_last() =~= done);
    }
    if t == key + seq!['='] + value && lacks(key, '=') {
        law_split_once_parts(key, '=', value);
        assert(t[key.len() as int] == '=');
        if t == "@@NODE@@"@ {
            assert("@@NODE@@"@[key.len() as int] == '=');
        }
    }
    if lacks(t, '=') {
        lemma_found_at(t, '=', 0, t.len() as int);
    }
}

/// The advice goes by what the instance id names, in whatever case; the debug interface
/// of an ST-Link is the only one with a bundled driver.
pub proof fn law_advice_by_instance(instance_id: Seq<char>)
    ensures
        ({
            let id = upper(instance_id);
            let debug = contains(id, "VID_0483&PID_374B&MI_00"@) || contains(
                id,
                "VID_0483&PID_374A&MI_00"@,
            ) || contains(id, "VID_0483&PID_374E&MI_00"@) || contains(
                id,
                "VID_0483&PID_374F&MI_00"@,
            );
            let dfu = contains(id, "VID_0483&PID_DF11"@);
            let cp210x = contains(id, "VID_10C4&PID_EA"@);
            let wch = contains(id, "VID_1A86&"@);
            let ftdi = contains(id, "VID_0403&"@);
            let pico = contains(id, "VID_2E8A&PID_0003"@) || contains(id, "VID_2E8A&PID_000F"@);
            let a = advice(instance_id);
            &&& a is Some <==> debug || dfu || cp210x || wch || ftdi || pico
            &&& a is Some && a->0.local_inf is Some <==> debug
            &&& debug ==> (a->0.local_inf->0)@
                == "windows-driver/stsw-link009/stlink_dbg_winusb.inf"@ && a->0.name@
                == "STMicroelectronics STSW-LINK009 (WinUSB binding for ST-Link Debug)"@
            &&& !debug && dfu ==> a->0.name@ == "STM32CubeProgrammer driver package or WinUSB"@
            &&& !debug && !dfu && cp210x ==> a->0.name@
                == "Silicon Labs CP210x Universal Windows Driver"@
            &&& !debug && !dfu && !cp210x && wch ==> a->0.name@
                == "WCH CH34x/CH91xx Windows driver"@
            &&& !debug && !dfu && !cp210x && !wch && ftdi ==> a->0.name@ == "FTDI CDM/VCP driver"@
            &&& a is Some && !debug && !dfu && !cp210x && !wch && !ftdi ==> a->0.name@
                == "Microsoft WinUSB for Raspberry Pi BOOTSEL"@
        }),
{
}

/// A published name begins with `oem` and ends in `.inf`, in whatever case and with
/// commas or semicolons behind it; the first of the words of a block counts, without
/// what is behind it.
pub proof fn law_first_published_name(all: Seq<Seq<char>>, i: int, k: int)
    requires
        0 <= i <= k <= all.len(),
        forall|j: int|
            i <= j < k ==> {
                let t = lower(drop_trailing(#[trigger] all[j], ',', ';'));
                !(starts_with(t, "oem"@) && ends_with(t, ".inf"@))
            },
        k < all.len() ==> {
            let t = lower(drop_trailing(all[k], ',', ';'));
            starts_with(t, "oem"@) && ends_with(t, ".inf"@)
        },
    ensures
        k < all.len() ==> published_name(all, i) == Some(drop_trailing(all[k], ',', ';')),
        k == all.len() ==> published_name(all, i) is None,
    decreases k - i,
{
    if i < k {
        assert(!is_published_name(all[i]));
        law_first_published_name(all, i + 1, k);
    }
}

/// Every block that mentions the file and has a published name gives it, no other block
/// gives one, and the names stay in the order of their blocks.
pub proof fn law_published_names_of_the_blocks(blocks: Seq<Seq<char>>, original: Seq<char>)
    ensures
        forall|i: int|
            0 <= i < blocks.len() && contains(lower(#[trigger] blocks[i]), lower(original)) ==> (
            published_name(words(blocks[i]), 0) matches Some(name) ==> block_names(
                blocks,
                original,
            ).contains(name)),
        forall|j: int|
            0 <= j < block_names(blocks, original).len() ==> exists|i: int|
                0 <= i < blocks.len() && contains(lower(#[trigger] blocks[i]), lower(original))
                    && published_name(words(blocks[i]), 0) == Some(
                    #[trigger] block_names(blocks, original)[j],
                ),
        blocks.len() > 0 ==> block_names(blocks.drop_last(), original).is_prefix_of(
            block_names(blocks, original),
        ),
    decreases blocks.len(),
{
    if blocks.len() > 0 {
        let fewer = blocks.drop_last();
        law_published_names_of_the_blocks(fewer, original);
        let before = block_names(fewer, original);
        let now = block_names(blocks, original);
        assert(before =~= now.subrange(0, before.len() as int));
        assert forall|x: Seq<char>| before.contains(x) implies #[trigger] now.contains(x) by {
            let i = choose|i: int| 0 <= i < before.len() && before[i] == x;
            assert(now[i] == x);
        }
        assert forall|i: int|
            0 <= i < blocks.len() && contains(
                lower(#[trigger] blocks[i]),
                lower(original),
            ) implies (published_name(words(blocks[i]), 0) matches Some(name) ==> now.contains(
            name,
        )) by {
            if i < fewer.len() {
                assert(fewer[i] == blocks[i]);
            } else if let Some(name) = published_name(words(blocks[i]), 0) {
                assert(block_name(blocks.last(), original) == Some(name));
                if !before.contains(name) {
                    assert(now[before.len() as int] == name);
                }
            }
        }
        assert forall|j: int| 0 <= j < now.len() implies exists|i: int|
            0 <= i < blocks.len() && contains(lower(#[trigger] blocks[i]), lower(original))
                && published_name(words(blocks[i]), 0) == Some(#[trigger] now[j]) by {
            if j < before.len() {
                assert(now[j] == before[j]);
                let i = choose|i: int|
                    0 <= i < fewer.len() && contains(lower(#[trigger] fewer[i]), lower(original))
                        && published_name(words(fewer[i]), 0) == Some(before[j]);
                assert(fewer[i] == blocks[i]);
            } else {
                let i = blocks.len() - 1;
                assert(blocks[i] == blocks.last());
                assert(block_name(blocks[i], original) == Some(now[j]));
            }
        }
    }
}

proof fn lemma_cut_blocks(a: Seq<Seq<char>>, b: Seq<Seq<char>>)
    ensures
        cut_blocks(a + b) == cut_blocks(a) + cut_blocks(b),
    decreases b.len(),
{
    if b.len() == 0 {
        assert(a + b =~= a);
        assert(cut_blocks(a) + cut_blocks(b) =~= cut_blocks(a));
    } else {
        assert((a + b).drop_last() =~= a + b.drop_last());
        assert((a + b).last() == b.last());
        lemma_cut_blocks(a, b.drop_last());
        assert(cut_blocks(a + b) =~= cut_blocks(a) + cut_blocks(b));
    }
}

/// A listing is cut into blocks at its blank lines, be their line endings of the one
/// kind or the other.
pub proof fn law_blocks_between_blank_lines(a: Seq<char>, b: Seq<char>)
    ensures
        ({
            let blank = seq!['\r', '\n', '\r', '\n'];
            &&& find_text(a + blank, blank) == Some(a.len() as int) ==> listing_blocks(
                a + blank + b,
            ) == split_text(a, seq!['\n', '\n']) + listing_blocks(b)
            &&& find_text(a, blank) is None ==> listing_blocks(a) == split_text(
                a,
                seq!['\n', '\n'],
            )
        }),
{
    reveal_strlit("\r\n\r\n");
    reveal_strlit("\n\n");
    let blank = seq!['\r', '\n', '\r', '\n'];
    assert("\r\n\r\n"@ =~= blank);
    assert("\n\n"@ =~= seq!['\n', '\n']);
    law_split_text(a, blank, b);
    lemma_cut_blocks(seq![a], split_text(b, blank));
    let one = seq![a];
    assert(one.drop_last() =~= Seq::empty());
    assert(one.last() == a);
    reveal_with_fuel(cut_blocks, 2);
    assert(cut_blocks(one) =~= split_text(a, "\n\n"@));
}

proof fn lemma_first_piece(s: Seq<char>, pat: Seq<char>)
    requires
        pat.len() > 0,
    ensures
        split_text(s, pat).len() > 0,
        split_text(s, pat)[0] == match find_text(s, pat) {
            Some(e) => s.take(e),
            None => s,
        },
{
    lemma_find_text_from(s, pat, 0);
    match find_text(s, pat) {
        Some(e) => {
            assert(s.subrange(0, e) =~= s.take(e));
        },
        None => {
            assert(s.subrange(0, s.len() as int) =~= s);
        },
    }
}

/// An id is the value of the four hex digits right behind the first mark.
pub proof fn law_four_digits_behind_the_mark(
    before: Seq<char>,
    mark: Seq<char>,
    d: Seq<char>,
    after: Seq<char>,
)
    requires
        mark.len() > 0,
        digit_value(mark[0], 16) is None,
        find_text(before + mark, mark) == Some(before.len() as int),
        d.len() == 4,
        all_digits(d, 16),
    ensures
        ({
            let found = marked_id(before + mark + d + after, mark);
            found is Some && found->0 == value_of(d, 16)
        }),
{
    let rest = d + after;
    let id = before + mark + d + after;
    assert(id =~= before + mark + rest);
    law_split_text(before, mark, rest);
    lemma_first_piece(rest, mark);
    lemma_find_text_from(rest, mark, 0);
    let pieces = split_text(id, mark);
    assert(pieces[1] == split_text(rest, mark)[0]);
    if let Some(e) = find_text(rest, mark) {
        assert(e >= 4) by {
            if e < 4 {
                assert(rest.subrange(e, e + mark.len())[0] == rest[e]);
                assert(rest[e] == d[e]);
                assert(digit_value(d[e], 16) is Some);
            }
        }
        assert(rest.take(e).take(4) =~= d);
    } else {
        assert(rest.take(4) =~= d);
    }
    assert(pieces[1].take(4) == d);
    assert(digit_value(d[0], 16) is Some);
    law_numbers(d, 16, u16::MAX as nat);
    reveal_with_fuel(value_of, 5);
    assert(value_of(d, 16) <= 0xFFFF) by {
        let a = d.drop_last();
        let b = a.drop_last();
        let c = b.drop_last();
        assert(d.last() == d[3] && a.last() == d[2] && b.last() == d[1] && c.last() == d[0]);
        assert(digit_value(d[0], 16) is Some && digit_value(d[1], 16) is Some && digit_value(
            d[2],
            16,
        ) is Some && digit_value(d[3], 16) is Some);
    }
}

/// A device is named where both its ids are, each behind its mark, whatever the case.
pub proof fn law_device_is_named_by_both_ids(instance_id: Seq<char>)
    ensures
        ({
            let vid = marked_id(upper(instance_id), seq!['V', 'I', 'D', '_']);
            let pid = marked_id(upper(instance_id), seq!['P', 'I', 'D', '_']);
            let named = vid_pid(instance_id);
            &&& named is Some <==> vid is Some && pid is Some
            &&& named matches Some((v, p)) ==> vid == Some(v) && pid == Some(p)
        }),
{
    reveal_strlit("VID_");
    reveal_strlit("PID_");
    assert("VID_"@ =~= seq!['V', 'I', 'D', '_']);
    assert("PID_"@ =~= seq!['P', 'I', 'D', '_']);
}

/// The problem codes, kind by kind. The codes for a device that was not configured, or
/// not installed, mean a missing driver where no service is bound and a driver that
/// failed where one is; without a code only a missing service is a problem that is known.
pub proof fn law_problem_codes(code: nat, no_service: bool)
    ensures
        ({
            let issue = code_issue(code, no_service);
            &&& issue is MissingDriver <==> no_service && (code == 0 || code == 1 || code == 28)
            &&& issue is DriverLoadFailure <==> !no_service && (code == 1 || code == 28) || code
                == 31 || code == 37 || code == 38 || code == 39
            &&& issue is StoppedNode <==> code == 10 || code == 14 || code == 19 || code == 21
                || code == 22 || code == 24 || code == 45
            &&& issue is SignatureFailure <==> code == 52
            &&& issue is Blocked <==> code == 43 || code == 44 || code == 48
            &&& issue is ResourceConflict <==> code == 12
        }),
{
}

/// The code of a node is the number that its problem is written as, and zero for any
/// other text; a node is called by its code and its service.
pub proof fn law_nodes_are_classified_by_code_and_service(n: NodeView, code: u32)
    ensures
        n.problem == decimal(code as nat) ==> node_code(n) == code,
        number(trim(n.problem), 10, 0xFFFF_FFFF) is None ==> node_code(n) == 0,
        node_issue(n) matches Some(issue) ==> issue == code_issue(
            node_code(n),
            trim(n.service).len() == 0,
        ),
{
    if n.problem == decimal(code as nat) {
        let none = Seq::<char>::empty();
        let d = decimal(code as nat);
        lemma_written_in_digits(code as nat, 10, false);
        assert(digit_value(d[0], 10) is Some);
        assert(digit_value(d[d.len() - 1], 10) is Some);
        law_trim_finds_the_text(none, d, none);
        assert(none + d + none =~= d);
        law_numbers(d, 10, u32::MAX as nat);
    }
}

/// Each kind of problem has its name, its meaning and its next step.
pub proof fn law_issues_are_explained(issue: DriverIssue)
    ensures
        issue is MissingDriver ==> issue_label(issue)@
            == "MISSING FUNCTION DRIVER"@,
        issue is DriverLoadFailure ==> issue_label(issue)@
            == "DRIVER FAILED TO LOAD"@,
        issue is StoppedNode ==> issue_label(issue)@
            == "DEVICE NODE STOPPED/DISABLED"@,
        issue is SignatureFailure ==> issue_label(issue)@
            == "DRIVER SIGNATURE REJECTED"@,
        issue is Blocked ==> issue_label(issue)@
            == "DRIVER BLOCKED"@,
        issue is ResourceConflict ==> issue_label(issue)@
            == "RESOURCE CONFLICT"@,
        issue is Unknown ==> issue_label(issue)@
            == "UNCLASSIFIED PROBLEM"@,
        issue is MissingDriver ==> issue_meaning(issue)@
            == "Windows enumerated the interface but bound no function driver (no service)."@,
        issue is DriverLoadFailure ==> issue_meaning(issue)@
            == "A driver is assigned but its service could not start: stale binding, failed driver entry, or a prior unload."@,
        issue is StoppedNode ==> issue_meaning(issue)@
            == "The node is disabled, not started, or waiting for a restart."@,
        issue is SignatureFailure ==> issue_meaning(issue)@
            == "The matched driver's digital signature could not be verified."@,
        issue is Blocked ==> issue_meaning(issue)@
            == "Windows blocked this driver under a known-bad list or security policy."@,
        issue is ResourceConflict ==> issue_meaning(issue)@
            == "The device reports an I/O, memory, or IRQ resource conflict."@,
        issue is Unknown ==> issue_meaning(issue)@
            == "The problem code does not map to a known category."@,
        issue is MissingDriver ==> issue_action(issue)@
            == "Bind the correct function driver (see below). This is a driver gap, not a hardware fault."@,
        issue is DriverLoadFailure ==> issue_action(issue)@
            == "Remove the stale binding (pnputil /delete-driver) then reinstall the correct INF."@,
        issue is StoppedNode ==> issue_action(issue)@
            == "Enable/restart the node in Device Manager; reboot only if it reports NEED_RESTART."@,
        issue is SignatureFailure ==> issue_action(issue)@
            == "Install a properly signed driver package from the vendor."@,
        issue is Blocked ==> issue_action(issue)@
            == "Do not force-load. Obtain an updated, unblocked driver from the vendor."@,
        issue is ResourceConflict ==> issue_action(issue)@
            == "Move the device to another port/hub and check for a conflicting device."@,
        issue is Unknown ==> issue_action(issue)@
            == "Inspect the raw problem code for this instance in Device Manager."@,
{
}

/// The nodes of a listing are those of its lines.
pub proof fn law_listing_is_its_lines(text: Seq<char>)
    ensures
        listed_nodes(text) == nodes_of(lines(text)),
{
}

} // verus!
