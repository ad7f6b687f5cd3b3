//! The command line: its arguments, and the texts and choices of the commands.
use vstd::prelude::*;

use crate::format::{format_bytes, format_bytes_spec};
use crate::history::OperationRecord;
use crate::installer::InstallerFile;
use crate::purge::{artifact_title, ProjectArtifact};
use crate::text::{eq_ignore_ascii_case_seq, chars_of, eq_ignore_ascii_case, push_char, push_str, trim, trim_seq};
use crate::tui::SelectableItem;
use crate::uninstall::InstalledApp;

verus! {

/// The parsed command line.
pub struct CliArgs {
    pub command: Option<Commands>,
    /// Verbose output.
    pub debug: bool,
}

/// The subcommands.
pub enum Commands {
    Clean(CleanArgs),
    Uninstall(UninstallArgs),
    Optimize(OptimizeArgs),
    Analyze(AnalyzeArgs),
    Status(StatusArgs),
    Purge(PurgeArgs),
    Installer(InstallerArgs),
    Touchid(TouchIdArgs),
    History(HistoryArgs),
    Completion(CompletionArgs),
}

/// `clean`: preview only, or open the whitelist manager.
pub struct CleanArgs {
    pub dry_run: bool,
    pub whitelist: bool,
}

/// `uninstall`: preview only.
pub struct UninstallArgs {
    pub dry_run: bool,
}

/// `optimize`: preview only, or open the whitelist manager.
pub struct OptimizeArgs {
    pub dry_run: bool,
    pub whitelist: bool,
}

/// `analyze`: the folder (the home folder when none), and JSON output.
pub struct AnalyzeArgs {
    pub path: Option<String>,
    pub json: bool,
}

/// `status`: JSON output.
pub struct StatusArgs {
    pub json: bool,
}

/// `purge`: preview only, or list the scanned folders.
pub struct PurgeArgs {
    pub dry_run: bool,
    pub paths: bool,
}

/// `installer`: preview only.
pub struct InstallerArgs {
    pub dry_run: bool,
}

/// `touchid`: what to do, and preview only.
pub struct TouchIdArgs {
    pub action: Option<TouchIdAction>,
    pub dry_run: bool,
}

/// What `touchid` does.
#[derive(Clone, Copy, Debug, PartialEq, Eq, Structural)]
pub enum TouchIdAction {
    Enable,
    Disable,
    Status,
}

/// `history`: JSON output, and how many entries.
pub struct HistoryArgs {
    pub json: bool,
    pub limit: usize,
}

/// `completion`: the shell.
pub struct CompletionArgs {
    pub shell: ShellType,
}

/// The shells completion scripts are made for.
#[derive(Clone, Copy, Debug, PartialEq, Eq, Structural)]
pub enum ShellType {
    Bash,
    Zsh,
    Fish,
}

/// How many history entries are shown when none is asked for.
pub open spec fn default_history_limit() -> usize {
    50
}

/// How many history entries are shown when none is asked for.
pub fn history_limit_default() -> (n: usize)
    ensures
        n == default_history_limit(),
{
    50
}

/// The selector row of an installed application: not selected, disabled when protected.
pub fn app_selector_item(id: usize, app: &InstalledApp) -> (item: SelectableItem)
    ensures
        item.id == id,
        item.title@ == app.name@,
        item.detail@ == if app.is_protected {
            "Protected"@
        } else {
            "Installed App"@
        },
        item.size_formatted@ == format_bytes_spec(app.size_bytes as nat),
        !item.is_selected,
        item.is_disabled == app.is_protected,
{
    SelectableItem {
        id,
        title: app.name.clone(),
        detail: if app.is_protected {
            "Protected".to_string()
        } else {
            "Installed App".to_string()
        },
        size_formatted: format_bytes(app.size_bytes),
        is_selected: false,
        is_disabled: app.is_protected,
    }
}

/// The selector row of a build artifact: selected unless it changed recently.
pub fn artifact_selector_item(id: usize, a: &ProjectArtifact) -> (item: SelectableItem)
    ensures
        item.id == id,
        item.title@ == a.project_name@ + " ("@ + a.artifact_type@ + ")"@,
        item.detail@ == a.path@,
        item.size_formatted@ == format_bytes_spec(a.size_bytes as nat),
        item.is_selected == !a.is_recent,
        !item.is_disabled,
{
    SelectableItem {
        id,
        title: artifact_title(a),
        detail: a.path.clone(),
        size_formatted: format_bytes(a.size_bytes),
        is_selected: !a.is_recent,
        is_disabled: false,
    }
}

/// The selector row of an installer: selected.
pub fn installer_selector_item(id: usize, f: &InstallerFile) -> (item: SelectableItem)
    ensures
        item.id == id,
        item.title@ == f.file_name@,
        item.detail@ == f.source_category@,
        item.size_formatted@ == format_bytes_spec(f.size_bytes as nat),
        item.is_selected,
        !item.is_disabled,
{
    SelectableItem {
        id,
        title: f.file_name.clone(),
        detail: f.source_category.to_string(),
        size_formatted: format_bytes(f.size_bytes),
        is_selected: true,
        is_disabled: false,
    }
}

/// `s` followed by spaces up to `width` characters (as `{:<width}` prints it).
pub open spec fn pad_right(s: Seq<char>, width: nat) -> Seq<char> {
    if s.len() >= width {
        s
    } else {
        s + Seq::new((width - s.len()) as nat, |i: int| ' ')
    }
}

/// Appends `s` padded with spaces to `width` characters.
pub fn push_padded(out: &mut String, s: &str, width: usize)
    ensures
        final(out)@ == old(out)@ + pad_right(s@, width as nat),
{
    let n = chars_of(s).len();
    push_str(out, s);
    let mut k: usize = n;
    while k < width
        invariant
            n == s@.len(),
            n <= k <= width || (k == n && n >= width),
            out@ == old(out)@ + s@ + Seq::new((k - n) as nat, |i: int| ' '),
        decreases width - k,
    {
        let ghost before = out@;
        push_char(out, ' ');
        assert(out@ =~= old(out)@ + s@ + Seq::new((k + 1 - n) as nat, |i: int| ' '));
        k = k + 1;
    }
    proof {
        if n >= width {
            assert(Seq::new((k - n) as nat, |i: int| ' ') =~= Seq::<char>::empty());
            assert(out@ =~= old(out)@ + s@);
        } else {
            assert(out@ =~= old(out)@ + (s@ + Seq::new((width - n) as nat, |i: int| ' ')));
        }
    }
}

/// A history line: `"  [<time>] <command> <target> <size> (<status>)"`, the command
/// padded to 12 characters, the target to 30, the size to 10.
pub fn history_line(op: &OperationRecord) -> (line: String)
    ensures
        line@ == "  ["@ + op.timestamp@ + "] "@ + pad_right(op.command@, 12) + " "@ + pad_right(op.target@, 30)
            + " "@ + pad_right(format_bytes_spec(op.size_bytes as nat), 10) + " ("@ + op.status@ + ")"@,
{
    let mut line = String::new();
    push_str(&mut line, "  [");
    push_str(&mut line, op.timestamp.as_str());
    push_str(&mut line, "] ");
    push_padded(&mut line, op.command.as_str(), 12);
    push_str(&mut line, " ");
    push_padded(&mut line, op.target.as_str(), 30);
    push_str(&mut line, " ");
    let size = format_bytes(op.size_bytes);
    push_padded(&mut line, size.as_str(), 10);
    push_str(&mut line, " (");
    push_str(&mut line, op.status.as_str());
    push_str(&mut line, ")");
    line
}

/// `"Yes"` or `"No"`.
pub fn yes_no(b: bool) -> (s: &'static str)
    ensures
        s@ == if b {
            "Yes"@
        } else {
            "No"@
        },
{
    if b {
        "Yes"
    } else {
        "No"
    }
}

/// Whether an answer to "Disable Touch ID for sudo? (y/N)" agrees: `y`, in either case,
/// around white space.
pub fn confirms_disable(answer: &str) -> (r: bool)
    ensures
        r == eq_ignore_ascii_case_seq(trim_seq(answer@), "y"@),
{
    let t = trim(answer);
    let a = chars_of(t.as_str());
    let y = chars_of("y");
    eq_ignore_ascii_case(&a, &y)
}

/// Whether an answer to "Enable Touch ID for sudo? (Y/n)" agrees: anything but `n`, in
/// either case, around white space.
pub fn confirms_enable(answer: &str) -> (r: bool)
    ensures
        r == !eq_ignore_ascii_case_seq(trim_seq(answer@), "n"@),
{
    let t = trim(answer);
    let a = chars_of(t.as_str());
    let n = chars_of("n");
    !eq_ignore_ascii_case(&a, &n)
}

} // verus!
