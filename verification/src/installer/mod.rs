//! Installing the tools that the probes use.
use vstd::prelude::*;
use vstd::slice::slice_subrange;
use vstd::string::*;
use crate::installer::tools::{install_step, resolve, tool_table, tools};

use crate::page::{joined, padded, push_line, push_padded, push_text};
use crate::pieces::{lines, lines_of};
use crate::text::{chars_of, lacks, same_str, string_of, texts, views};

pub mod tools;

verus! {

#[derive(Clone, Copy, PartialEq, Eq, Debug, Structural)]
pub enum Os {
    Windows,
    Macos,
    Linux,
}

pub open spec fn os_name(os: Os) -> &'static str {
    match os {
        Os::Windows => "Windows",
        Os::Macos => "Macos",
        Os::Linux => "Linux",
    }
}

impl Os {
    /// The name of the system as it is shown.
    pub fn name(self) -> (s: &'static str)
        ensures
            s == os_name(self),
    {
        match self {
            Os::Windows => "Windows",
            Os::Macos => "Macos",
            Os::Linux => "Linux",
        }
    }
}

/// The system that a name stands for.
pub open spec fn os_named(name: Seq<char>) -> Os {
    if name == "windows"@ {
        Os::Windows
    } else if name == "macos"@ {
        Os::Macos
    } else {
        Os::Linux
    }
}

/// The system that goes by this name; any other counts as Linux.
pub fn current_os(name: &str) -> (os: Os)
    ensures
        os == os_named(name@),
        os == (if name@ == "windows"@ {
            Os::Windows
        } else if name@ == "macos"@ {
            Os::Macos
        } else {
            Os::Linux
        }),
{
    if same_str(name, "windows") {
        Os::Windows
    } else if same_str(name, "macos") {
        Os::Macos
    } else {
        Os::Linux
    }
}

#[derive(Clone, Copy, Debug)]
pub enum InstallStep {
    /// Run a package-manager-style command (e.g., `cargo install foo`).
    Command { program: &'static str, args: &'static [&'static str] },
    /// Download a URL and act on the file.
    Download {
        url: &'static str,
        /// Override filename when URL doesn't yield a sensible one (e.g.,
        /// query-only URLs like `?id=65`).
        filename: Option<&'static str>,
        action: DownloadAction,
    },
    /// Print a download URL and manual steps without fetching anything.
    /// For vendors whose web server blocks automated downloads (e.g. FTDI
    /// returns HTTP 403 to any non-browser client), so an auto-download would
    /// just fail for every user.
    Manual { url: &'static str, instructions: &'static str },
    /// Extract an archive that's already committed to `windows-driver/` in
    /// the repo — no network round-trip. Use for upstreams whose only
    /// distribution channel is awkward (e.g. SourceForge HTML redirects).
    /// The file lives at `<project>/windows-driver/<filename>` regardless of
    /// host OS (that path is the project's canonical bundled-binary dir).
    LocalArchive { filename: &'static str, action: DownloadAction },
}

#[derive(Clone, Copy, Debug)]
pub enum DownloadAction {
    /// Save and prompt user to run with given instructions (no execution).
    PromptToRun { instructions: &'static str },
    /// Extract a zip into `windows-driver/<tool_id>/`. Used for CLI bundles.
    ExtractToBundle { binary_hint: &'static str },
    /// Extract a zip, locate the inner binary, then prompt user to run it
    /// (typically as administrator). Used for driver installers shipped as zip.
    ExtractAndPrompt { binary_hint: &'static str, instructions: &'static str },
}

/// An install step with its arguments as a plain sequence.
#[verifier::ext_equal]
pub enum StepView {
    Command { program: &'static str, args: Seq<&'static str> },
    Download { url: &'static str, filename: Option<&'static str>, action: DownloadAction },
    Manual { url: &'static str, instructions: &'static str },
    LocalArchive { filename: &'static str, action: DownloadAction },
}

impl View for InstallStep {
    type V = StepView;

    open spec fn view(&self) -> StepView {
        match *self {
            InstallStep::Command { program, args } => StepView::Command { program, args: args@ },
            InstallStep::Download { url, filename, action } => StepView::Download {
                url,
                filename,
                action,
            },
            InstallStep::Manual { url, instructions } => StepView::Manual { url, instructions },
            InstallStep::LocalArchive { filename, action } => StepView::LocalArchive {
                filename,
                action,
            },
        }
    }
}

#[derive(Clone, Copy, Debug)]
pub struct ToolSpec {
    pub id: &'static str,
    pub name: &'static str,
    pub purpose: &'static str,
    /// The command that shows that the tool is installed, if one can.
    pub check_command: Option<&'static str>,
}

// ── The list of tools ───────────────────────────────────────────────────
pub open spec fn provider(step: Option<StepView>) -> &'static str {
    match step {
        Some(StepView::Command { program, .. }) => program,
        Some(StepView::Download { .. }) => "download",
        Some(StepView::Manual { .. }) => "manual",
        Some(StepView::LocalArchive { .. }) => "bundled",
        None => "(n/a on this OS)",
    }
}

pub open spec fn tool_status(tool: ToolSpec, found: bool) -> &'static str {
    if tool.check_command is None {
        "—"
    } else if found {
        "installed"
    } else {
        "missing"
    }
}

/// One line of the list: id, status and provider in columns, then the purpose.
pub open spec fn tool_line(
    id: Seq<char>,
    status: Seq<char>,
    provider: Seq<char>,
    purpose: Seq<char>,
) -> Seq<char> {
    padded(id, 12) + "  "@ + padded(status, 10) + "  "@ + padded(provider, 10) + "  "@ + purpose
}

pub open spec fn listed_tool(tool: ToolSpec, os: Os, found: bool) -> Seq<char> {
    tool_line(
        tool.id@,
        tool_status(tool, found)@,
        provider(install_step(tool.id@, os))@,
        tool.purpose@,
    )
}

pub open spec fn dash_line(n: nat) -> Seq<char> {
    Seq::new(n, |i: int| '-')
}

/// The list of tools. `found` tells of each whether its command was found.
pub open spec fn tools_page(os: Os, found: Seq<bool>) -> Seq<Seq<char>> {
    seq![
        "Detected OS: "@ + os_name(os)@,
        ""@,
        tool_line("ID"@, "STATUS"@, "PROVIDER"@, "PURPOSE"@),
        dash_line(80),
    ] + Seq::new(tool_table().len(), |i: int| listed_tool(tool_table()[i], os, found[i])) + seq![
        ""@,
        "Run `usbipd-rs --install <ID>` to install."@,
    ]
}

fn tool_line_of(id: &str, status: &str, provider: &str, purpose: &str) -> (s: String)
    ensures
        s@ == tool_line(id@, status@, provider@, purpose@),
{
    let mut s = String::new();
    push_padded(&mut s, id, 12);
    s.append("  ");
    push_padded(&mut s, status, 10);
    s.append("  ");
    push_padded(&mut s, provider, 10);
    s.append("  ");
    s.append(purpose);
    assert(s@ =~= tool_line(id@, status@, provider@, purpose@));
    s
}

fn provider_of(step: Option<InstallStep>) -> (s: &'static str)
    ensures
        s == provider(
            match step {
                Some(step) => Some(step@),
                None => None,
            },
        ),
{
    match step {
        Some(InstallStep::Command { program, .. }) => program,
        Some(InstallStep::Download { .. }) => "download",
        Some(InstallStep::Manual { .. }) => "manual",
        Some(InstallStep::LocalArchive { .. }) => "bundled",
        None => "(n/a on this OS)",
    }
}

/// The lines that list the tools. `found` tells of each tool of [`tools::tools`],
/// in their order, whether its command was found.
pub fn cmd_list_tools(os: Os, found: &Vec<bool>) -> (page: Vec<String>)
    requires
        found@.len() == tool_table().len(),
    ensures
        texts(page@) == tools_page(os, found@),
{
    let all = tools();
    let mut page: Vec<String> = Vec::new();
    push_line(&mut page, joined("Detected OS: ", os.name()));
    push_text(&mut page, "");
    push_line(&mut page, tool_line_of("ID", "STATUS", "PROVIDER", "PURPOSE"));
    let mut dashes = String::new();
    let mut k: usize = 0;
    while k < 80
        invariant
            k <= 80,
            dashes@ == dash_line(k as nat),
        decreases 80 - k,
    {
        dashes.push('-');
        k += 1;
        assert(dashes@ =~= dash_line(k as nat));
    }
    push_line(&mut page, dashes);
    let ghost head = texts(page@);
    let ghost body = Seq::new(
        tool_table().len(),
        |i: int| listed_tool(tool_table()[i], os, found@[i]),
    );
    assert(head =~= head + body.take(0));
    let mut i: usize = 0;
    while i < all.len()
        invariant
            i <= all@.len() == found@.len(),
            all@ == tool_table(),
            body == Seq::new(
                tool_table().len(),
                |i: int| listed_tool(tool_table()[i], os, found@[i]),
            ),
            texts(page@) == head + body.take(i as int),
        decreases all.len() - i,
    {
        let tool = all[i];
        let status = if tool.check_command.is_none() {
            "—"
        } else if found[i] {
            "installed"
        } else {
            "missing"
        };
        push_line(
            &mut page,
            tool_line_of(tool.id, status, provider_of(resolve(tool.id, os)), tool.purpose),
        );
        i += 1;
        assert(texts(page@) =~= head + body.take(i as int));
    }
    assert(body.take(i as int) =~= body);
    push_text(&mut page, "");
    push_text(&mut page, "Run `usbipd-rs --install <ID>` to install.");
    assert(texts(page@) =~= tools_page(os, found@));
    page
}

// ── Installing one ──────────────────────────────────────────────────────
/// The first tool of this id from `i` on.
pub open spec fn tool_from(all: Seq<ToolSpec>, id: Seq<char>, i: int) -> Option<ToolSpec>
    decreases all.len() - i,
{
    if i < 0 || i >= all.len() {
        None
    } else if all[i].id@ == id {
        Some(all[i])
    } else {
        tool_from(all, id, i + 1)
    }
}

pub open spec fn install_head(tool: ToolSpec, os: Os) -> Seq<Seq<char>> {
    seq![
        "=== Installing "@ + tool.name@ + " ==="@,
        "Purpose: "@ + tool.purpose@,
        "OS:      "@ + os_name(os)@,
        ""@,
    ]
}

/// What is to be done for a tool.
#[derive(Debug)]
pub struct InstallPlan {
    pub head: Vec<String>,
    pub tool: ToolSpec,
    pub step: InstallStep,
}

fn find_tool(id: &str) -> (r: Option<ToolSpec>)
    ensures
        r == tool_from(tool_table(), id@, 0),
{
    let all = tools();
    let mut i: usize = 0;
    while i < all.len()
        invariant
            i <= all@.len(),
            all@ == tool_table(),
            tool_from(tool_table(), id@, 0) == tool_from(tool_table(), id@, i as int),
        decreases all.len() - i,
    {
        if same_str(all[i].id, id) {
            return Some(all[i]);
        }
        i += 1;
    }
    None
}

/// Finds a tool by its id, and how it is installed on this system.
pub fn cmd_install(tool_id: &str, os: Os) -> (r: Result<InstallPlan, String>)
    ensures
        match r {
            Ok(plan) => {
                &&& tool_from(tool_table(), tool_id@, 0) == Some(plan.tool)
                &&& install_step(plan.tool.id@, os) == Some(plan.step@)
                &&& texts(plan.head@) == install_head(plan.tool, os)
            },
            Err(e) => match tool_from(tool_table(), tool_id@, 0) {
                None => e@ == "Unknown tool '"@ + tool_id@ + "'. Try `--list-tools`."@,
                Some(tool) => install_step(tool.id@, os) is None && e@ == tool.name@
                    + " has no install path on "@ + os_name(os)@,
            },
        },
{
    let tool = match find_tool(tool_id) {
        Some(tool) => tool,
        None => {
            let mut e = joined("Unknown tool '", tool_id);
            e.append("'. Try `--list-tools`.");
            return Err(e);
        },
    };
    let step = match resolve(tool.id, os) {
        Some(step) => step,
        None => {
            let mut e = joined(tool.name, " has no install path on ");
            e.append(os.name());
            return Err(e);
        },
    };
    let mut head: Vec<String> = Vec::new();
    let mut line = joined("=== Installing ", tool.name);
    line.append(" ===");
    push_line(&mut head, line);
    push_line(&mut head, joined("Purpose: ", tool.purpose));
    push_line(&mut head, joined("OS:      ", os.name()));
    push_text(&mut head, "");
    assert(texts(head@) =~= install_head(tool, os));
    Ok(InstallPlan { head, tool, step })
}

/// The place behind the last `c` of `s[..n]`, or the start.
pub open spec fn after_last(s: Seq<char>, c: char, n: int) -> int
    decreases n,
{
    if n <= 0 || n > s.len() {
        0
    } else if s[n - 1] == c {
        n
    } else {
        after_last(s, c, n - 1)
    }
}

/// The name under which a download is kept: the given one, or the last part of
/// the URL.
pub open spec fn file_name(url: Seq<char>, filename: Option<&'static str>) -> Seq<char> {
    match filename {
        Some(name) => name@,
        None => url.skip(after_last(url, '/', url.len() as int)),
    }
}

pub fn download_name(url: &str, filename: Option<&'static str>) -> (s: String)
    ensures
        s@ == file_name(url@, filename),
{
    if let Some(name) = filename {
        return name.to_string();
    }
    let chars = chars_of(url);
    let mut n: usize = chars.len();
    while n > 0 && chars[n - 1] != '/'
        invariant
            n <= chars@.len(),
            chars@ == url@,
            after_last(url@, '/', url@.len() as int) == after_last(url@, '/', n as int),
        decreases n,
    {
        n -= 1;
    }
    string_of(slice_subrange(chars.as_slice(), n, chars.len()))
}

/// The file names that a command may have on a system, in the order in which they
/// are looked for.
pub open spec fn command_files(command: Seq<char>, os: Os) -> Seq<Seq<char>> {
    if os == Os::Windows {
        seq![command + ".exe"@, command + ".cmd"@, command + ".bat"@, command]
    } else {
        seq![command]
    }
}

pub fn which_names(command: &str, os: Os) -> (names: Vec<String>)
    ensures
        texts(names@) == command_files(command@, os),
{
    let mut names: Vec<String> = Vec::new();
    if os == Os::Windows {
        push_line(&mut names, joined(command, ".exe"));
        push_line(&mut names, joined(command, ".cmd"));
        push_line(&mut names, joined(command, ".bat"));
    }
    push_text(&mut names, command);
    assert(texts(names@) =~= command_files(command@, os));
    names
}

/// The extension with the mark of an unfinished download behind it.
pub open spec fn unfinished(extension: Option<Seq<char>>) -> Seq<char> {
    match extension {
        Some(e) => e + ".partial"@,
        None => "partial"@,
    }
}

/// The extension of a file that is still being downloaded.
pub fn partial_extension(extension: Option<&str>) -> (s: String)
    ensures
        s@ == unfinished(
            match extension {
                Some(e) => Some(e@),
                None => None,
            },
        ),
        s@ == (match extension {
            Some(e) => e@ + ".partial"@,
            None => "partial"@,
        }),
{
    match extension {
        Some(e) => joined(e, ".partial"),
        None => "partial".to_string(),
    }
}

/// Where a system keeps its tools, below the project.
pub open spec fn bundle_dir(os: Os) -> &'static str {
    if os == Os::Windows {
        "windows-driver"
    } else {
        "tools"
    }
}

/// The directory, below the project, that downloads and bundles are kept in.
pub fn bundle_dir_name(os: Os) -> (s: &'static str)
    ensures
        s == bundle_dir(os),
        s == (if os == Os::Windows {
            "windows-driver"
        } else {
            "tools"
        }),
{
    if os == Os::Windows {
        "windows-driver"
    } else {
        "tools"
    }
}

/// The percentage that a download has reached, in 32 bits.
pub open spec fn percent(written: u64, total: u64) -> i32 {
    (written * 100 / if total < 1 {
        1int
    } else {
        total as int
    }) as i32
}

/// What to show of the progress of a download: every tenth percent, once.
pub fn download_progress(written: u64, total: u64, last: i32) -> (r: Option<i32>)
    requires
        written * 100 <= u64::MAX,
    ensures
        match r {
            Some(pct) => pct == percent(written, total) && pct != last && pct % 10 == 0,
            None => percent(written, total) == last || percent(written, total) % 10 != 0,
        },
{
    let whole: u64 = if total < 1 {
        1
    } else {
        total
    };
    let pct: i32 = (written * 100 / whole) as i32;
    if pct != last && pct % 10 == 0 {
        Some(pct)
    } else {
        None
    }
}

/// The lines of a text, indented.
pub open spec fn indented(all: Seq<Seq<char>>) -> Seq<Seq<char>> {
    Seq::new(all.len(), |i: int| "    "@ + all[i])
}

pub open spec fn manual_steps(instructions: Seq<char>) -> Seq<Seq<char>> {
    seq![""@, "  Manual steps:"@] + indented(lines(instructions))
}

fn push_manual_steps(page: &mut Vec<String>, instructions: &str)
    ensures
        texts(final(page)@) == texts(old(page)@) + manual_steps(instructions@),
{
    push_text(page, "");
    push_text(page, "  Manual steps:");
    let ghost head = texts(page@);
    let text = chars_of(instructions);
    let all = lines_of(text.as_slice());
    let ghost seen = views(all@);
    assert(head + indented(seen).take(0) =~= head);
    let mut i: usize = 0;
    while i < all.len()
        invariant
            i <= all@.len(),
            seen == views(all@),
            texts(page@) == head + indented(seen).take(i as int),
        decreases all.len() - i,
    {
        assert(seen[i as int] == all@[i as int]@);
        push_line(page, joined("    ", string_of(all[i]).as_str()));
        i += 1;
        assert(texts(page@) =~= head + indented(seen).take(i as int));
    }
    assert(indented(seen).take(i as int) =~= indented(seen));
    assert(texts(page@) =~= texts(old(page)@) + manual_steps(instructions@));
}

/// What is shown of a tool that has to be fetched by hand.
pub fn manual_page(url: &str, instructions: &str) -> (page: Vec<String>)
    ensures
        texts(page@) == seq!["  Download URL: "@ + url@] + manual_steps(instructions@),
{
    let mut page: Vec<String> = Vec::new();
    push_line(&mut page, joined("  Download URL: ", url));
    assert(texts(page@) =~= seq!["  Download URL: "@ + url@]);
    push_manual_steps(&mut page, instructions);
    page
}

/// An action unpacks the archive first.
pub open spec fn extracts(action: DownloadAction) -> bool {
    !(action is PromptToRun)
}

/// Tells whether an action unpacks the archive first, and for which file it
/// looks inside.
pub fn extract_hint(action: DownloadAction) -> (r: Option<&'static str>)
    ensures
        match r {
            Some(hint) => extracts(action) && (action matches DownloadAction::ExtractToBundle {
                binary_hint,
            } ==> hint == binary_hint) && (action matches DownloadAction::ExtractAndPrompt {
                binary_hint,
                ..
            } ==> hint == binary_hint),
            None => !extracts(action),
        },
{
    match action {
        DownloadAction::ExtractToBundle { binary_hint } => Some(binary_hint),
        DownloadAction::ExtractAndPrompt { binary_hint, .. } => Some(binary_hint),
        DownloadAction::PromptToRun { .. } => None,
    }
}

/// What is shown once an action is done. `place` is where the archive was
/// unpacked to, or the file itself where it was not; `found` is the file that
/// was looked for inside.
pub open spec fn action_page(
    action: DownloadAction,
    place: Seq<char>,
    found: Option<Seq<char>>,
) -> Seq<Seq<char>> {
    match action {
        DownloadAction::ExtractToBundle { binary_hint } => seq![
            ""@,
            "  Extracted to: "@ + place,
            match found {
                Some(p) => "  Binary:       "@ + p,
                None => "  Binary '"@ + binary_hint@
                    + "' not found inside archive — inspect the directory manually."@,
            },
        ],
        DownloadAction::ExtractAndPrompt { binary_hint, instructions } => seq![
            ""@,
            "  Extracted to: "@ + place,
            match found {
                Some(p) => "  Installer:    "@ + p,
                None => "  Installer '"@ + binary_hint@
                    + "' not found — inspect the directory manually."@,
            },
        ] + manual_steps(instructions@),
        DownloadAction::PromptToRun { instructions } => seq![""@, "  Saved to: "@ + place]
            + manual_steps(instructions@),
    }
}

/// Shows what became of a downloaded or bundled file.
pub fn apply_download_action(action: DownloadAction, place: &str, found: Option<&str>) -> (page: Vec<
    String,
>)
    ensures
        texts(page@) == action_page(
            action,
            place@,
            match found {
                Some(p) => Some(p@),
                None => None,
            },
        ),
{
    let ghost wanted = match found {
        Some(p) => Some(p@),
        None => None,
    };
    let mut page: Vec<String> = Vec::new();
    push_text(&mut page, "");
    match action {
        DownloadAction::ExtractToBundle { binary_hint } => {
            push_line(&mut page, joined("  Extracted to: ", place));
            match found {
                Some(p) => push_line(&mut page, joined("  Binary:       ", p)),
                None => {
                    let mut line = joined("  Binary '", binary_hint);
                    line.append("' not found inside archive — inspect the directory manually.");
                    push_line(&mut page, line);
                },
            }
            assert(texts(page@) =~= action_page(action, place@, wanted));
        },
        DownloadAction::ExtractAndPrompt { binary_hint, instructions } => {
            push_line(&mut page, joined("  Extracted to: ", place));
            match found {
                Some(p) => push_line(&mut page, joined("  Installer:    ", p)),
                None => {
                    let mut line = joined("  Installer '", binary_hint);
                    line.append("' not found — inspect the directory manually.");
                    push_line(&mut page, line);
                },
            }
            push_manual_steps(&mut page, instructions);
            assert(texts(page@) =~= action_page(action, place@, wanted));
        },
        DownloadAction::PromptToRun { instructions } => {
            push_line(&mut page, joined("  Saved to: ", place));
            push_manual_steps(&mut page, instructions);
            assert(texts(page@) =~= action_page(action, place@, wanted));
        },
    }
    page
}

/// The words with a space between neighbours.
pub open spec fn spaced(args: Seq<&'static str>) -> Seq<char>
    decreases args.len(),
{
    if args.len() == 0 {
        Seq::empty()
    } else if args.len() == 1 {
        args[0]@
    } else {
        spaced(args.drop_last()) + " "@ + args.last()@
    }
}

/// The line that announces a command.
pub fn run_command(program: &str, args: &[&'static str]) -> (line: String)
    ensures
        line@ == "  Running:     "@ + program@ + " "@ + spaced(args@),
{
    let mut words = String::new();
    let mut i: usize = 0;
    while i < args.len()
        invariant
            i <= args@.len(),
            words@ == spaced(args@.take(i as int)),
        decreases args.len() - i,
    {
        assert(args@.take(i + 1).drop_last() =~= args@.take(i as int));
        if i > 0 {
            words.append(" ");
        }
        words.append(args[i]);
        assert(i == 0 ==> words@ =~= args@[0]@);
        i += 1;
    }
    assert(args@.take(i as int) =~= args@);
    let mut line = joined("  Running:     ", program);
    line.append(" ");
    line.append(words.as_str());
    line
}

/// Every listed tool is found under its own id.
pub proof fn law_every_tool_is_found_by_its_id(i: int)
    requires
        0 <= i < tool_table().len(),
    ensures
        tool_from(tool_table(), tool_table()[i].id@, 0) == Some(tool_table()[i]),
{
    reveal_strlit("espflash");
    reveal_strlit("pyocd");
    reveal_strlit("picotool");
    reveal_strlit("zadig");
    reveal_strlit("avrdude");
    reveal_strlit("stm32flash");
    reveal_strlit("dfu-util");
    reveal_strlit("ravedude");
    reveal_strlit("arduino-cli");
    reveal_strlit("cp210x");
    reveal_strlit("ch340");
    reveal_strlit("ftdi");
    assert forall|j: int| 0 <= j < i implies (#[trigger] tool_table()[j]).id@[1]
        != tool_table()[i].id@[1] || tool_table()[j].id@.len() != tool_table()[i].id@.len()
        || tool_table()[j].id@[0] != tool_table()[i].id@[0] by {}
    lemma_found(tool_table(), 0, i);
}

/// A tool that only Windows has a use for.
pub open spec fn is_windows_only(id: Seq<char>) -> bool {
    id == "zadig"@ || id == "cp210x"@ || id == "ch340"@ || id == "ftdi"@
}

/// Every listed tool can be installed on every system, but for those that only
/// Windows has a use for, which can be installed there alone.
pub proof fn law_tools_install_where_they_are_of_use(i: int, os: Os)
    requires
        0 <= i < tool_table().len(),
    ensures
        install_step(tool_table()[i].id@, os) is Some == (os == Os::Windows || !is_windows_only(
            tool_table()[i].id@,
        )),
{
    reveal_strlit("espflash");
    reveal_strlit("pyocd");
    reveal_strlit("picotool");
    reveal_strlit("zadig");
    reveal_strlit("avrdude");
    reveal_strlit("stm32flash");
    reveal_strlit("dfu-util");
    reveal_strlit("ravedude");
    reveal_strlit("arduino-cli");
    reveal_strlit("cp210x");
    reveal_strlit("ch340");
    reveal_strlit("ftdi");
    let id = tool_table()[i].id@;
    assert(id.len() == 5 ==> id[1] == 'y' || id[1] == 'a' || id[1] == 'h');
    assert(id.len() == 6 ==> id[1] == 'p');
    assert(id.len() == 4 ==> id[1] == 't');
}

proof fn lemma_found(all: Seq<ToolSpec>, i: int, k: int)
    requires
        0 <= i <= k < all.len(),
        forall|j: int| i <= j < k ==> (#[trigger] all[j]).id@ != all[k].id@,
    ensures
        tool_from(all, all[k].id@, i) == Some(all[k]),
    decreases k - i,
{
    if i < k {
        lemma_found(all, i + 1, k);
    }
}

// ── What is listed, fetched and shown ───────────────────────────────────
/// The provider of a step: the program of a command, and otherwise the kind of the step.
pub proof fn law_providers(step: StepView)
    ensures
        step matches StepView::Command { program, .. } ==> provider(Some(step)) == program,
        step is Download ==> provider(Some(step))@ == "download"@,
        step is Manual ==> provider(Some(step))@ == "manual"@,
        step is LocalArchive ==> provider(Some(step))@ == "bundled"@,
        provider(None)@ == "(n/a on this OS)"@,
{
}

/// A line shows the id, the status, the provider and the purpose, each in its column.
pub proof fn law_tool_columns(
    id: Seq<char>,
    status: Seq<char>,
    provider: Seq<char>,
    purpose: Seq<char>,
)
    requires
        id.len() <= 12,
        status.len() <= 10,
        provider.len() <= 10,
    ensures
        ({
            let line = tool_line(id, status, provider, purpose);
            &&& line.len() == 38 + purpose.len()
            &&& line.subrange(0, id.len() as int) == id
            &&& line.subrange(14, 14 + status.len() as int) == status
            &&& line.subrange(26, 26 + provider.len() as int) == provider
            &&& line.skip(38) == purpose
        }),
{
    reveal_strlit("  ");
    let line = tool_line(id, status, provider, purpose);
    assert(line.subrange(0, id.len() as int) =~= id);
    assert(line.subrange(14, 14 + status.len() as int) =~= status);
    assert(line.subrange(26, 26 + provider.len() as int) =~= provider);
    assert(line.skip(38) =~= purpose);
}

/// Every tool has a line of its own below the head: it is called installed where its
/// command was found, missing where it was not, and neither where none can tell.
pub proof fn law_every_tool_is_listed(os: Os, found: Seq<bool>, i: int)
    requires
        0 <= i < tool_table().len(),
        found.len() == tool_table().len(),
    ensures
        ({
            let t = tool_table()[i];
            let page = tools_page(os, found);
            let status = if t.check_command is None {
                "—"@
            } else if found[i] {
                "installed"@
            } else {
                "missing"@
            };
            &&& page.len() == 6 + tool_table().len()
            &&& page[0] == "Detected OS: "@ + os_name(os)@
            &&& page[4 + i] == tool_line(
                t.id@,
                status,
                provider(install_step(t.id@, os))@,
                t.purpose@,
            )
        }),
        os_name(Os::Windows)@ == "Windows"@ && os_name(Os::Macos)@ == "Macos"@ && os_name(
            Os::Linux,
        )@ == "Linux"@,
{
}

/// The first tool with an id is the one that is meant.
pub proof fn law_first_tool_with_the_id(all: Seq<ToolSpec>, id: Seq<char>, i: int, k: int)
    requires
        0 <= i <= k <= all.len(),
        forall|j: int| i <= j < k ==> (#[trigger] all[j]).id@ != id,
        k < all.len() ==> all[k].id@ == id,
    ensures
        k < all.len() ==> tool_from(all, id, i) == Some(all[k]),
        k == all.len() ==> tool_from(all, id, i) is None,
    decreases k - i,
{
    if i < k {
        assert(all[i].id@ != id);
        law_first_tool_with_the_id(all, id, i + 1, k);
    }
}

proof fn lemma_after_last(s: Seq<char>, c: char, n: int, k: int)
    requires
        0 <= k <= n <= s.len(),
        forall|i: int| k <= i < n ==> #[trigger] s[i] != c,
        k > 0 ==> s[k - 1] == c,
    ensures
        after_last(s, c, n) == k,
    decreases n,
{
    if k < n {
        assert(s[n - 1] != c);
        lemma_after_last(s, c, n - 1, k);
    }
}

/// A download is kept under the name that is given for it; without one it is what stands
/// behind the last slash of the address.
pub proof fn law_download_names(a: Seq<char>, b: Seq<char>, name: &'static str)
    requires
        lacks(b, '/'),
    ensures
        file_name(a + seq!['/'] + b, None) == b,
        file_name(b, None) == b,
        file_name(a, Some(name)) == name@,
{
    let url = a + seq!['/'] + b;
    assert forall|i: int| a.len() + 1 <= i < url.len() implies #[trigger] url[i] != '/' by {
        assert(url[i] == b[i - a.len() - 1]);
    }
    lemma_after_last(url, '/', url.len() as int, a.len() as int + 1);
    assert(url.skip(a.len() as int + 1) =~= b);
    lemma_after_last(b, '/', b.len() as int, 0);
    assert(b.skip(0) =~= b);
}

/// On Windows a command is looked for with each ending that makes it one, and bare last;
/// elsewhere bare alone.
pub proof fn law_files_of_a_command(command: Seq<char>)
    ensures
        command_files(command, Os::Windows) == seq![
            command + ".exe"@,
            command + ".cmd"@,
            command + ".bat"@,
            command,
        ],
        command_files(command, Os::Macos) == seq![command],
        command_files(command, Os::Linux) == seq![command],
{
}

/// The percentage is a hundred times what was written over the whole, but for the rest
/// of a division.
pub proof fn law_percentage(written: u64, total: u64)
    requires
        0 < total,
        written <= total,
    ensures
        0 <= percent(written, total) <= 100,
        percent(written, total) * total <= written * 100 < (percent(written, total) + 1) * total,
{
    let w = written as int * 100;
    let t = total as int;
    let q = w / t;
    assert(q * t <= w < (q + 1) * t && 0 <= q <= 100) by (nonlinear_arith)
        requires
            t > 0,
            0 <= w <= 100 * t,
            q == w / t,
    ;
}

/// Instructions are shown line by line, indented, below their title.
pub proof fn law_manual_steps_are_shown(instructions: Seq<char>)
    ensures
        ({
            let page = manual_steps(instructions);
            let all = lines(instructions);
            &&& page.len() == 2 + all.len()
            &&& page[1] == "  Manual steps:"@
            &&& forall|i: int| 0 <= i < all.len() ==> #[trigger] page[2 + i] == "    "@ + all[i]
        }),
{
}

/// A file that was unpacked is shown with where it went and what was found in it, or
/// that it was not; one that was not unpacked with where it is. Instructions follow
/// wherever there are some.
pub proof fn law_actions_are_shown(action: DownloadAction, place: Seq<char>, p: Seq<char>)
    ensures
        action matches DownloadAction::ExtractToBundle { binary_hint } ==> {
            &&& action_page(action, place, Some(p)) == seq![
                ""@,
                "  Extracted to: "@ + place,
                "  Binary:       "@ + p,
            ]
            &&& action_page(action, place, None)[2] == "  Binary '"@ + binary_hint@
                + "' not found inside archive — inspect the directory manually."@
        },
        action matches DownloadAction::ExtractAndPrompt { binary_hint, instructions } ==> {
            &&& action_page(action, place, Some(p)) == seq![
                ""@,
                "  Extracted to: "@ + place,
                "  Installer:    "@ + p,
            ] + manual_steps(instructions@)
            &&& action_page(action, place, None)[2] == "  Installer '"@ + binary_hint@
                + "' not found — inspect the directory manually."@
        },
        action matches DownloadAction::PromptToRun { instructions } ==> action_page(
            action,
            place,
            None,
        ) == seq![""@, "  Saved to: "@ + place] + manual_steps(instructions@),
        extracts(action) <==> action is ExtractToBundle || action is ExtractAndPrompt,
{
}

/// The words of a command are shown with one blank between neighbours.
pub proof fn law_command_words(a: Seq<&'static str>, b: Seq<&'static str>, w: &'static str)
    requires
        a.len() > 0,
        b.len() > 0,
    ensures
        spaced(a + b) == spaced(a) + " "@ + spaced(b),
        spaced(seq![w]) == w@,
    decreases b.len(),
{
    let all = a + b;
    assert(all.last() == b.last());
    assert(all.drop_last() =~= a + b.drop_last());
    if b.len() == 1 {
        assert(a + b.drop_last() =~= a);
        assert(b.last() == b[0]);
    } else {
        law_command_words(a, b.drop_last(), w);
        assert(spaced(all) =~= spaced(a) + " "@ + spaced(b));
    }
}

/// An installation is announced with the tool, its purpose and the system.
pub proof fn law_installation_is_announced(tool: ToolSpec, os: Os)
    ensures
        install_head(tool, os) == seq![
            "=== Installing "@ + tool.name@ + " ==="@,
            "Purpose: "@ + tool.purpose@,
            "OS:      "@ + os_name(os)@,
            ""@,
        ],
{
}

/// Windows and macOS go by their own names and every other name means Linux; Windows
/// keeps its tools with its drivers; and an unfinished download has another extension
/// than a finished one.
pub proof fn law_systems_and_their_places(name: Seq<char>, e: Seq<char>)
    ensures
        os_named(name) is Windows <==> name == "windows"@,
        os_named(name) is Macos <==> name == "macos"@,
        bundle_dir(Os::Windows)@ == "windows-driver"@,
        bundle_dir(Os::Macos)@ == "tools"@ && bundle_dir(Os::Linux)@ == "tools"@,
        unfinished(Some(e)) == e + ".partial"@ && unfinished(Some(e)) != e,
        unfinished(None) == "partial"@,
{
    reveal_strlit("windows");
    reveal_strlit("macos");
    reveal_strlit(".partial");
    assert("windows"@.len() == 7 && "macos"@.len() == 5);
    assert(unfinished(Some(e)).len() == e.len() + 8);
}

} // verus!
