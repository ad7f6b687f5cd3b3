//! The cleaner window's state and decisions: tabs, the scan that fills the item tree,
//! selection, and what a cleaning pass removes. Drawing it is left to the user
//! interface layer, which shows this state and performs the actions it asks for.
use vstd::prelude::*;

use crate::format::{format_bytes, format_bytes_spec};
use crate::path::{join, join_exec};
use crate::removal::deletable;
use crate::safety::PathValidator;
use crate::text::{concat, decimal, push_decimal, push_str, str_eq};

verus! {

/// The tabs of the cleaner window.
#[derive(Clone, Copy, Debug, PartialEq, Eq, Structural)]
pub enum TabIndex {
    Overview,
    DeepClean,
    ProjectPurge,
    InstallerClean,
    Optimizer,
    DiskAnalyzer,
    LiveStatus,
    TouchId,
    History,
}

/// The tab a sidebar button opens, by its tag: tags 0 to 8 in order, 9 the live status
/// (with the health summary), anything else the overview.
pub open spec fn tab_for_tag_spec(tag: int) -> TabIndex {
    if tag == 0 {
        TabIndex::Overview
    } else if tag == 1 {
        TabIndex::DeepClean
    } else if tag == 2 {
        TabIndex::ProjectPurge
    } else if tag == 3 {
        TabIndex::InstallerClean
    } else if tag == 4 {
        TabIndex::Optimizer
    } else if tag == 5 {
        TabIndex::DiskAnalyzer
    } else if tag == 6 || tag == 9 {
        TabIndex::LiveStatus
    } else if tag == 7 {
        TabIndex::TouchId
    } else if tag == 8 {
        TabIndex::History
    } else {
        TabIndex::Overview
    }
}

/// The tab a sidebar button opens.
pub fn tab_for_tag(tag: i64) -> (t: TabIndex)
    ensures
        t == tab_for_tag_spec(tag as int),
{
    if tag == 0 {
        TabIndex::Overview
    } else if tag == 1 {
        TabIndex::DeepClean
    } else if tag == 2 {
        TabIndex::ProjectPurge
    } else if tag == 3 {
        TabIndex::InstallerClean
    } else if tag == 4 {
        TabIndex::Optimizer
    } else if tag == 5 {
        TabIndex::DiskAnalyzer
    } else if tag == 6 || tag == 9 {
        TabIndex::LiveStatus
    } else if tag == 7 {
        TabIndex::TouchId
    } else if tag == 8 {
        TabIndex::History
    } else {
        TabIndex::Overview
    }
}

/// The item category a tab's cleaning pass is limited to (none: all items).
pub open spec fn filter_category_spec(tab: TabIndex) -> Option<Seq<char>> {
    match tab {
        TabIndex::ProjectPurge => Some("Project artifacts"@),
        TabIndex::InstallerClean => Some("Raw Installers"@),
        _ => None,
    }
}

/// The item category a tab's cleaning pass is limited to.
pub fn filter_category_for_tab(tab: TabIndex) -> (c: Option<&'static str>)
    ensures
        match c {
            Some(s) => filter_category_spec(tab) == Some(s@),
            None => filter_category_spec(tab) is None,
        },
{
    match tab {
        TabIndex::ProjectPurge => Some("Project artifacts"),
        TabIndex::InstallerClean => Some("Raw Installers"),
        _ => None,
    }
}

/// The item category the "select all" button of a tab works on (none: all items). The
/// project tab names "Project Build Artifacts", a category that no scanned item carries,
/// so there the button changes nothing.
pub open spec fn select_all_category_spec(tab: TabIndex) -> Option<Seq<char>> {
    match tab {
        TabIndex::ProjectPurge => Some("Project Build Artifacts"@),
        TabIndex::InstallerClean => Some("Raw Installers"@),
        _ => None,
    }
}

/// The item category the "select all" button of a tab works on.
pub fn select_all_category(tab: TabIndex) -> (c: Option<&'static str>)
    ensures
        match c {
            Some(s) => select_all_category_spec(tab) == Some(s@),
            None => select_all_category_spec(tab) is None,
        },
{
    match tab {
        TabIndex::ProjectPurge => Some("Project Build Artifacts"),
        TabIndex::InstallerClean => Some("Raw Installers"),
        _ => None,
    }
}

/// The subcommand a sidebar shortcut opens in Terminal, by its tag.
pub fn sidebar_subcommand(tag: i64) -> (s: &'static str)
    ensures
        tag == 1 ==> s@ == "analyze"@,
        tag == 2 ==> s@ == "status"@,
        tag == 3 ==> s@ == "uninstall"@,
        !(tag == 1 || tag == 2 || tag == 3) ==> s@ == ""@,
{
    if tag == 1 {
        "analyze"
    } else if tag == 2 {
        "status"
    } else if tag == 3 {
        "uninstall"
    } else {
        ""
    }
}

/// An entry of the scan tree.
pub struct ScanTreeItem {
    pub id: usize,
    pub category: &'static str,
    pub title: String,
    pub detail: String,
    pub path: Option<String>,
    pub size_bytes: u64,
    pub is_selected: bool,
    pub is_cleanable: bool,
}

/// The hover state of a sidebar button.
pub struct PointerButtonIvars {
    pub is_dimmable: bool,
    pub is_active_item: bool,
}

impl PointerButtonIvars {
    /// A plain button.
    pub fn new() -> (b: PointerButtonIvars)
        ensures
            !b.is_dimmable,
            !b.is_active_item,
    {
        PointerButtonIvars { is_dimmable: false, is_active_item: false }
    }

    /// Styles the button as a sidebar item: dimmable, active or not; the result is its
    /// opacity in percent (full when active, 60 otherwise).
    pub fn set_sidebar_style(&mut self, is_active: bool) -> (alpha_percent: u32)
        ensures
            final(self).is_dimmable,
            final(self).is_active_item == is_active,
            alpha_percent == if is_active {
                100u32
            } else {
                60u32
            },
    {
        self.is_dimmable = true;
        self.is_active_item = is_active;
        if is_active {
            100
        } else {
            60
        }
    }

    /// The opacity in percent the button takes when the pointer enters (full) or leaves
    /// (60), or `None` when it does not change: only inactive sidebar items dim.
    pub fn hover_alpha(&self, entered: bool) -> (r: Option<u32>)
        ensures
            (self.is_dimmable && !self.is_active_item) ==> r == Some(
                if entered {
                    100u32
                } else {
                    60u32
                },
            ),
            !(self.is_dimmable && !self.is_active_item) ==> r is None,
    {
        if self.is_dimmable && !self.is_active_item {
            Some(
                if entered {
                    100
                } else {
                    60
                },
            )
        } else {
            None
        }
    }
}

/// What the window does after showing a tab.
#[derive(Clone, Copy, Debug, PartialEq, Eq, Structural)]
pub enum ShowFollowUp {
    /// Show the window.
    Show,
    /// Show the window, then start a scan shortly after.
    ShowThenScan,
}

/// What the window does after a sidebar click.
#[derive(Clone, Copy, Debug, PartialEq, Eq, Structural)]
pub enum TabFollowUp {
    /// Redraw.
    Render,
    /// Redraw, then show the health summary.
    RenderThenHealth,
    /// Redraw, then start a scan.
    RenderThenScan,
}

/// A finding of one scan section.
pub struct Finding {
    pub title: String,
    pub label: String,
    pub detail: String,
    pub path: String,
    pub size_bytes: u64,
    pub selected: bool,
}

/// The sections of the scan, in the order their steps run.
#[derive(Clone, Copy, Debug, PartialEq, Eq, Structural)]
pub enum ScanSection {
    UserEssentials,
    AppCaches,
    Browsers,
    CloudOffice,
    DeveloperTools,
    AppsUtilities,
    Virtualization,
    ApplicationSupport,
    ProjectArtifacts,
    RawInstallers,
    System,
}

/// The sections a scan step covers; past the last step the scan is finished.
pub open spec fn step_sections_spec(step: nat) -> Seq<ScanSection> {
    if step == 0 {
        seq![ScanSection::UserEssentials]
    } else if step == 1 {
        seq![ScanSection::AppCaches]
    } else if step == 2 {
        seq![ScanSection::Browsers]
    } else if step == 3 {
        seq![ScanSection::CloudOffice]
    } else if step == 4 {
        seq![ScanSection::DeveloperTools]
    } else if step == 5 {
        seq![ScanSection::AppsUtilities]
    } else if step == 6 {
        seq![ScanSection::Virtualization, ScanSection::ApplicationSupport]
    } else if step == 7 {
        seq![ScanSection::ProjectArtifacts, ScanSection::RawInstallers, ScanSection::System]
    } else {
        Seq::empty()
    }
}

/// The sections a scan step covers (empty once the scan is finished).
pub fn step_sections(step: usize) -> (out: Vec<ScanSection>)
    ensures
        out@ == step_sections_spec(step as nat),
{
    let out = if step == 0 {
        vec![ScanSection::UserEssentials]
    } else if step == 1 {
        vec![ScanSection::AppCaches]
    } else if step == 2 {
        vec![ScanSection::Browsers]
    } else if step == 3 {
        vec![ScanSection::CloudOffice]
    } else if step == 4 {
        vec![ScanSection::DeveloperTools]
    } else if step == 5 {
        vec![ScanSection::AppsUtilities]
    } else if step == 6 {
        vec![ScanSection::Virtualization, ScanSection::ApplicationSupport]
    } else if step == 7 {
        vec![ScanSection::ProjectArtifacts, ScanSection::RawInstallers, ScanSection::System]
    } else {
        Vec::new()
    };
    assert(out@ =~= step_sections_spec(step as nat));
    out
}

/// A section's heading in the scan log and the category of its items.
pub open spec fn section_names_spec(s: ScanSection) -> (Seq<char>, Seq<char>) {
    match s {
        ScanSection::UserEssentials => ("➤ User essentials"@, "User essentials"@),
        ScanSection::AppCaches => ("➤ App caches"@, "App caches"@),
        ScanSection::Browsers => ("➤ Browsers"@, "Browsers"@),
        ScanSection::CloudOffice => ("➤ Cloud & Office"@, "Cloud & Office"@),
        ScanSection::DeveloperTools => ("➤ Developer tools"@, "Developer tools"@),
        ScanSection::AppsUtilities => ("➤ Apps & utilities"@, "Apps & utilities"@),
        ScanSection::Virtualization => ("➤ Virtualization"@, "Virtualization"@),
        ScanSection::ApplicationSupport => ("➤ Application Support"@, "Application Support"@),
        ScanSection::ProjectArtifacts => ("➤ Project artifacts"@, "Project artifacts"@),
        ScanSection::RawInstallers => ("➤ Raw Installers"@, "Raw Installers"@),
        ScanSection::System => ("➤ System"@, "System"@),
    }
}

/// A section's heading in the scan log and the category of its items.
pub fn section_names(s: ScanSection) -> (r: (&'static str, &'static str))
    ensures
        (r.0@, r.1@) == section_names_spec(s),
{
    match s {
        ScanSection::UserEssentials => ("➤ User essentials", "User essentials"),
        ScanSection::AppCaches => ("➤ App caches", "App caches"),
        ScanSection::Browsers => ("➤ Browsers", "Browsers"),
        ScanSection::CloudOffice => ("➤ Cloud & Office", "Cloud & Office"),
        ScanSection::DeveloperTools => ("➤ Developer tools", "Developer tools"),
        ScanSection::AppsUtilities => ("➤ Apps & utilities", "Apps & utilities"),
        ScanSection::Virtualization => ("➤ Virtualization", "Virtualization"),
        ScanSection::ApplicationSupport => ("➤ Application Support", "Application Support"),
        ScanSection::ProjectArtifacts => ("➤ Project artifacts", "Project artifacts"),
        ScanSection::RawInstallers => ("➤ Raw Installers", "Raw Installers"),
        ScanSection::System => ("➤ System", "System"),
    }
}

/// The fixed locations a section looks at under `home` (sections that take their
/// locations from elsewhere have none here).
pub open spec fn section_locations_spec(s: ScanSection, home: Seq<char>) -> Seq<(Seq<char>, Seq<char>)> {
    match s {
        ScanSection::AppCaches => seq![
            ("Geod temp files"@, join(home, "Library/Caches/GeoServices"@)),
            ("macOS Help system cache"@, join(home, "Library/Caches/com.apple.helpd"@)),
            ("Apple Media Services cache"@, join(home, "Library/Caches/com.apple.AppleMediaServices"@)),
            ("Parsecd cache"@, join(home, "Library/Caches/com.apple.parsecd"@)),
            ("Group Containers logs/caches"@, join(home, "Library/Group Containers"@)),
            ("QuickLook thumbnail cache"@, join(home, "Library/Caches/com.apple.QuickLook.thumbnailcache"@)),
        ],
        ScanSection::CloudOffice => seq![
            ("Dropbox cache"@, join(home, ".dropbox/cache"@)),
            ("OneDrive cache"@, join(home, "Library/Caches/OneDrive"@)),
            ("Google Drive cache"@, join(home, "Library/Application Support/Google/DriveFS"@)),
            ("Microsoft Teams cache"@, join(home, "Library/Caches/com.microsoft.teams2"@)),
        ],
        ScanSection::Virtualization => seq![
            ("Docker container cache"@, join(home, "Library/Containers/com.docker.docker/Data/log"@)),
            ("OrbStack cache"@, join(home, ".orbstack/cache"@)),
            ("Lima cache"@, join(home, ".lima"@)),
            ("Podman cache"@, join(home, ".local/share/containers"@)),
        ],
        ScanSection::ApplicationSupport => seq![
            ("Application Support logs/caches"@, join(home, "Library/Application Support/logs"@)),
        ],
        _ => Seq::empty(),
    }
}

/// The fixed locations a section looks at under `home`.
pub fn section_locations(s: ScanSection, home: &str) -> (out: Vec<(&'static str, String)>)
    ensures
        out@.map_values(|t: (&'static str, String)| (t.0@, t.1@)) == section_locations_spec(s, home@),
{
    let out = match s {
        ScanSection::AppCaches => vec![
            ("Geod temp files", join_exec(home, "Library/Caches/GeoServices")),
            ("macOS Help system cache", join_exec(home, "Library/Caches/com.apple.helpd")),
            ("Apple Media Services cache", join_exec(home, "Library/Caches/com.apple.AppleMediaServices")),
            ("Parsecd cache", join_exec(home, "Library/Caches/com.apple.parsecd")),
            ("Group Containers logs/caches", join_exec(home, "Library/Group Containers")),
            ("QuickLook thumbnail cache", join_exec(home, "Library/Caches/com.apple.QuickLook.thumbnailcache")),
        ],
        ScanSection::CloudOffice => vec![
            ("Dropbox cache", join_exec(home, ".dropbox/cache")),
            ("OneDrive cache", join_exec(home, "Library/Caches/OneDrive")),
            ("Google Drive cache", join_exec(home, "Library/Application Support/Google/DriveFS")),
            ("Microsoft Teams cache", join_exec(home, "Library/Caches/com.microsoft.teams2")),
        ],
        ScanSection::Virtualization => vec![
            ("Docker container cache", join_exec(home, "Library/Containers/com.docker.docker/Data/log")),
            ("OrbStack cache", join_exec(home, ".orbstack/cache")),
            ("Lima cache", join_exec(home, ".lima")),
            ("Podman cache", join_exec(home, ".local/share/containers")),
        ],
        ScanSection::ApplicationSupport => vec![
            ("Application Support logs/caches", join_exec(home, "Library/Application Support/logs")),
        ],
        _ => Vec::new(),
    };
    assert(out@.map_values(|t: (&'static str, String)| (t.0@, t.1@)) =~= section_locations_spec(s, home@));
    out
}

/// The progress (per mille) and status text once a scan step is done.
pub open spec fn step_progress_spec(step: nat) -> (u32, Seq<char>) {
    if step == 0 {
        (160, "Scanning user essentials & logs..."@)
    } else if step == 1 {
        (300, "Scanning application caches..."@)
    } else if step == 2 {
        (440, "Scanning browser profiles and web caches..."@)
    } else if step == 3 {
        (560, "Scanning cloud storage and office tools..."@)
    } else if step == 4 {
        (700, "Scanning developer tools (npm, Rust, Python, Xcode)..."@)
    } else if step == 5 {
        (820, "Scanning desktop applications & utilities..."@)
    } else if step == 6 {
        (920, "Scanning virtualization & leftovers..."@)
    } else {
        (1000, "Finalizing scan report..."@)
    }
}

fn step_progress(step: usize) -> (r: (u32, &'static str))
    ensures
        (r.0, r.1@) == step_progress_spec(step as nat),
{
    if step == 0 {
        (160, "Scanning user essentials & logs...")
    } else if step == 1 {
        (300, "Scanning application caches...")
    } else if step == 2 {
        (440, "Scanning browser profiles and web caches...")
    } else if step == 3 {
        (560, "Scanning cloud storage and office tools...")
    } else if step == 4 {
        (700, "Scanning developer tools (npm, Rust, Python, Xcode)...")
    } else if step == 5 {
        (820, "Scanning desktop applications & utilities...")
    } else if step == 6 {
        (920, "Scanning virtualization & leftovers...")
    } else {
        (1000, "Finalizing scan report...")
    }
}

/// The scan log line of a finding: `"  → <label> · <size>"`.
pub open spec fn finding_line(label: Seq<char>, size: u64) -> Seq<char> {
    "  → "@ + label + " · "@ + format_bytes_spec(size as nat)
}

/// The state of the cleaner window.
pub struct CleanerWindowController {
    pub current_tab: TabIndex,
    pub items: Vec<ScanTreeItem>,
    pub is_scanning: bool,
    pub scan_step: usize,
    pub scan_progress_permille: u32,
    pub scan_status_text: String,
    pub scan_logs: Vec<String>,
    pub discovered_buffer: Vec<ScanTreeItem>,
    pub is_dry_run: bool,
    pub is_whitelist_mode: bool,
}

/// Which parts of the window's state a step may change: every part whose flag is
/// `false` is the same in `b` as in `a`.
pub open spec fn unchanged_except(
    a: CleanerWindowController,
    b: CleanerWindowController,
    tab: bool,
    items: bool,
    scanning: bool,
    step: bool,
    progress: bool,
    logs: bool,
    buffer: bool,
    dry: bool,
    whitelist: bool,
) -> bool {
    &&& !tab ==> b.current_tab == a.current_tab
    &&& !items ==> b.items@ == a.items@
    &&& !scanning ==> b.is_scanning == a.is_scanning
    &&& !step ==> b.scan_step == a.scan_step
    &&& !progress ==> b.scan_progress_permille == a.scan_progress_permille && b.scan_status_text@
        == a.scan_status_text@
    &&& !logs ==> b.scan_logs@ == a.scan_logs@
    &&& !buffer ==> b.discovered_buffer@ == a.discovered_buffer@
    &&& !dry ==> b.is_dry_run == a.is_dry_run
    &&& !whitelist ==> b.is_whitelist_mode == a.is_whitelist_mode
}

/// Whether an item is in the category a filter names (every item when there is none).
pub open spec fn in_filter(filter: Option<Seq<char>>, item: ScanTreeItem) -> bool {
    match filter {
        None => true,
        Some(c) => item.category@ == c,
    }
}

fn in_filter_exec(filter: Option<&str>, item: &ScanTreeItem) -> (r: bool)
    ensures
        r == in_filter(
            match filter {
                Some(c) => Some(c@),
                None => None,
            },
            *item,
        ),
{
    match filter {
        None => true,
        Some(c) => str_eq(item.category, c),
    }
}

/// The view of an optional category.
pub open spec fn opt_str(o: Option<&str>) -> Option<Seq<char>> {
    match o {
        Some(c) => Some(c@),
        None => None,
    }
}

/// How many items a selection holds, and their total size.
pub open spec fn selection_spec(items: Seq<ScanTreeItem>, filter: Option<Seq<char>>) -> (int, int)
    decreases items.len(),
{
    if items.len() == 0 {
        (0, 0)
    } else {
        let r = selection_spec(items.drop_last(), filter);
        let it = items.last();
        if in_filter(filter, it) && it.is_selected {
            (r.0 + 1, r.1 + it.size_bytes)
        } else {
            r
        }
    }
}

proof fn lemma_selection_prefix(items: Seq<ScanTreeItem>, filter: Option<Seq<char>>, i: int)
    requires
        0 <= i <= items.len(),
    ensures
        0 <= selection_spec(items.take(i), filter).0 <= i,
        0 <= selection_spec(items.take(i), filter).1 <= selection_spec(items, filter).1,
    decreases items.len() - i,
{
    lemma_selection_nonneg(items.take(i), filter);
    if i < items.len() {
        lemma_selection_prefix(items, filter, i + 1);
        assert(items.take(i + 1).drop_last() =~= items.take(i));
    } else {
        assert(items.take(i) =~= items);
        lemma_selection_nonneg(items, filter);
    }
}

proof fn lemma_selection_nonneg(items: Seq<ScanTreeItem>, filter: Option<Seq<char>>)
    ensures
        0 <= selection_spec(items, filter).0 <= items.len(),
        0 <= selection_spec(items, filter).1,
    decreases items.len(),
{
    if items.len() > 0 {
        lemma_selection_nonneg(items.drop_last(), filter);
    }
}

/// The items left after a cleaning pass: those whose id is not among the deleted ones.
pub open spec fn retained(items: Seq<ScanTreeItem>, deleted: Seq<usize>) -> Seq<ScanTreeItem> {
    items.filter(|i: ScanTreeItem| !deleted.contains(i.id))
}

/// The lines that open the scan log.
pub open spec fn initial_logs_spec(
    dry_run: bool,
    authed: bool,
    touchid: bool,
    free_space: Seq<char>,
    whitelist_len: nat,
    access: Seq<(Seq<char>, bool)>,
) -> Seq<Seq<char>> {
    let head = if dry_run {
        seq![
            "Clean Your Mac (DRY RUN SIMULATION)"@,
            "[DRY RUN ACTIVE - Files and caches will only be simulated without deletion]"@,
        ]
    } else {
        seq!["Clean Your Mac with Pantau Cleaner"@]
    };
    let sudo = if authed {
        if touchid {
            "✓ Touch ID verified | Admin access available, system preview included"@
        } else {
            "✓ Admin access available (password verified), system preview included"@
        }
    } else {
        "◎ System caches need sudo, run sudo -v for full preview"@
    };
    let all_ok = forall|i: int| 0 <= i < access.len() ==> #[trigger] access[i].1;
    let access_line = if all_ok {
        "✓ Folder access verified for User Caches, Application Support & Containers"@
    } else {
        "✓ Folder access verified: "@ + joined_names(access.filter(|a: (Seq<char>, bool)| a.1).map_values(
            |a: (Seq<char>, bool)| a.0,
        ))
    };
    head + seq![
        sudo,
        "⚙ Apple Silicon | Free space: "@ + free_space,
        "✓ Whitelist: "@ + decimal(whitelist_len) + " core patterns active"@,
        access_line,
        "──────────────────────────────────────────────────────────────────────────────────────────"@,
        "➤ Starting deep scan..."@,
    ]
}

/// Names joined with `", "`.
pub open spec fn joined_names(names: Seq<Seq<char>>) -> Seq<char>
    decreases names.len(),
{
    if names.len() == 0 {
        Seq::empty()
    } else if names.len() == 1 {
        names[0]
    } else {
        joined_names(names.drop_last()) + ", "@ + names.last()
    }
}

/// The names of the accessible locations, joined with `", "`.
fn accessible_names(access: &Vec<(&'static str, bool)>) -> (out: String)
    ensures
        out@ == joined_names(
            access@.map_values(|a: (&'static str, bool)| (a.0@, a.1)).filter(|a: (Seq<char>, bool)| a.1).map_values(
                |a: (Seq<char>, bool)| a.0,
            ),
        ),
{
    let ghost av = access@.map_values(|a: (&'static str, bool)| (a.0@, a.1));
    let mut out = String::new();
    let mut count: usize = 0;
    let mut i: usize = 0;
    while i < access.len()
        invariant
            i <= access.len(),
            av == access@.map_values(|a: (&'static str, bool)| (a.0@, a.1)),
            count == av.take(i as int).filter(|a: (Seq<char>, bool)| a.1).len(),
            count <= i,
            out@ == joined_names(
                av.take(i as int).filter(|a: (Seq<char>, bool)| a.1).map_values(|a: (Seq<char>, bool)| a.0),
            ),
        decreases access.len() - i,
    {
        let ghost pre = av.take(i as int).filter(|a: (Seq<char>, bool)| a.1).map_values(|a: (Seq<char>, bool)| a.0);
        proof {
            assert(av.take(i + 1) =~= av.take(i as int).push(av[i as int]));
            av.take(i as int).lemma_filter_push(av[i as int], |a: (Seq<char>, bool)| a.1);
        }
        let (name, ok) = access[i];
        if ok {
            let ghost now = pre.push(name@);
            assert(av.take(i + 1).filter(|a: (Seq<char>, bool)| a.1).map_values(|a: (Seq<char>, bool)| a.0) =~= now);
            if count > 0 {
                push_str(&mut out, ", ");
            }
            push_str(&mut out, name);
            assert(now.drop_last() =~= pre);
            if count == 0 {
                assert(pre.len() == 0);
                assert(out@ =~= joined_names(now));
            }
            count = count + 1;
        } else {
            assert(av.take(i + 1).filter(|a: (Seq<char>, bool)| a.1).map_values(|a: (Seq<char>, bool)| a.0) =~= pre);
        }
        i = i + 1;
    }
    assert(av.take(access.len() as int) =~= av);
    out
}

impl CleanerWindowController {
    /// The window as it opens: on the overview, nothing scanned.
    pub fn new() -> (w: CleanerWindowController)
        ensures
            w.current_tab == TabIndex::Overview,
            w.items@ == Seq::<ScanTreeItem>::empty(),
            !w.is_scanning,
            w.scan_step == 0,
            w.scan_progress_permille == 0,
            w.scan_status_text@ == "Ready"@,
            w.scan_logs@ == Seq::<String>::empty(),
            w.discovered_buffer@ == Seq::<ScanTreeItem>::empty(),
            !w.is_dry_run,
            !w.is_whitelist_mode,
    {
        CleanerWindowController {
            current_tab: TabIndex::Overview,
            items: Vec::new(),
            is_scanning: false,
            scan_step: 0,
            scan_progress_permille: 0,
            scan_status_text: "Ready".to_string(),
            scan_logs: Vec::new(),
            discovered_buffer: Vec::new(),
            is_dry_run: false,
            is_whitelist_mode: false,
        }
    }

    /// Opens the overview.
    pub fn show_dashboard(&mut self) -> (f: ShowFollowUp)
        ensures
            unchanged_except(*old(self), *final(self), true, false, false, false, false, false, false, false, false),
            final(self).current_tab == TabIndex::Overview,
            f == ShowFollowUp::Show,
    {
        self.current_tab = TabIndex::Overview;
        ShowFollowUp::Show
    }

    /// Opens the deep clean tab, which always scans.
    pub fn show_deep_scan(&mut self) -> (f: ShowFollowUp)
        ensures
            unchanged_except(*old(self), *final(self), true, false, false, false, false, false, false, false, false),
            final(self).current_tab == TabIndex::DeepClean,
            f == ShowFollowUp::ShowThenScan,
    {
        self.current_tab = TabIndex::DeepClean;
        ShowFollowUp::ShowThenScan
    }

    /// Opens the project purge tab, scanning when nothing was scanned yet.
    pub fn show_project_purge(&mut self) -> (f: ShowFollowUp)
        ensures
            unchanged_except(*old(self), *final(self), true, false, false, false, false, false, false, false, false),
            final(self).current_tab == TabIndex::ProjectPurge,
            f == if old(self).items.len() == 0 {
                ShowFollowUp::ShowThenScan
            } else {
                ShowFollowUp::Show
            },
    {
        self.current_tab = TabIndex::ProjectPurge;
        if self.items.len() == 0 {
            ShowFollowUp::ShowThenScan
        } else {
            ShowFollowUp::Show
        }
    }

    /// Opens the installer tab, scanning when nothing was scanned yet.
    pub fn show_installer_clean(&mut self) -> (f: ShowFollowUp)
        ensures
            unchanged_except(*old(self), *final(self), true, false, false, false, false, false, false, false, false),
            final(self).current_tab == TabIndex::InstallerClean,
            f == if old(self).items.len() == 0 {
                ShowFollowUp::ShowThenScan
            } else {
                ShowFollowUp::Show
            },
    {
        self.current_tab = TabIndex::InstallerClean;
        if self.items.len() == 0 {
            ShowFollowUp::ShowThenScan
        } else {
            ShowFollowUp::Show
        }
    }

    /// Opens the optimizer tab.
    pub fn show_optimizer(&mut self) -> (f: ShowFollowUp)
        ensures
            unchanged_except(*old(self), *final(self), true, false, false, false, false, false, false, false, false),
            final(self).current_tab == TabIndex::Optimizer,
            f == ShowFollowUp::Show,
    {
        self.current_tab = TabIndex::Optimizer;
        ShowFollowUp::Show
    }

    /// Opens the disk analyzer tab.
    pub fn show_disk_analyzer(&mut self) -> (f: ShowFollowUp)
        ensures
            unchanged_except(*old(self), *final(self), true, false, false, false, false, false, false, false, false),
            final(self).current_tab == TabIndex::DiskAnalyzer,
            f == ShowFollowUp::Show,
    {
        self.current_tab = TabIndex::DiskAnalyzer;
        ShowFollowUp::Show
    }

    /// Opens the live status tab.
    pub fn show_live_status(&mut self) -> (f: ShowFollowUp)
        ensures
            unchanged_except(*old(self), *final(self), true, false, false, false, false, false, false, false, false),
            final(self).current_tab == TabIndex::LiveStatus,
            f == ShowFollowUp::Show,
    {
        self.current_tab = TabIndex::LiveStatus;
        ShowFollowUp::Show
    }

    /// Opens the Touch ID tab.
    pub fn show_touch_id(&mut self) -> (f: ShowFollowUp)
        ensures
            unchanged_except(*old(self), *final(self), true, false, false, false, false, false, false, false, false),
            final(self).current_tab == TabIndex::TouchId,
            f == ShowFollowUp::Show,
    {
        self.current_tab = TabIndex::TouchId;
        ShowFollowUp::Show
    }

    /// Opens the history tab.
    pub fn show_history(&mut self) -> (f: ShowFollowUp)
        ensures
            unchanged_except(*old(self), *final(self), true, false, false, false, false, false, false, false, false),
            final(self).current_tab == TabIndex::History,
            f == ShowFollowUp::Show,
    {
        self.current_tab = TabIndex::History;
        ShowFollowUp::Show
    }

    /// A sidebar click: leaves the whitelist view and opens the tab of the button's tag;
    /// tag 9 then shows the health summary, the cleaning tabs then scan.
    pub fn tab_button_clicked(&mut self, tag: i64) -> (f: TabFollowUp)
        ensures
            unchanged_except(*old(self), *final(self), true, false, false, false, false, false, false, false, true),
            final(self).current_tab == tab_for_tag_spec(tag as int),
            !final(self).is_whitelist_mode,
            f == if tag == 9 {
                TabFollowUp::RenderThenHealth
            } else if tab_for_tag_spec(tag as int) == TabIndex::DeepClean || tab_for_tag_spec(tag as int)
                == TabIndex::ProjectPurge || tab_for_tag_spec(tag as int) == TabIndex::InstallerClean {
                TabFollowUp::RenderThenScan
            } else {
                TabFollowUp::Render
            },
    {
        let tab = tab_for_tag(tag);
        self.is_whitelist_mode = false;
        self.current_tab = tab;
        if tag == 9 {
            TabFollowUp::RenderThenHealth
        } else if tab == TabIndex::DeepClean || tab == TabIndex::ProjectPurge || tab == TabIndex::InstallerClean {
            TabFollowUp::RenderThenScan
        } else {
            TabFollowUp::Render
        }
    }

    /// A click on an item's checkbox: the item at `index` takes the box's state.
    pub fn toggle_item_checkbox(&mut self, index: usize, checked: bool)
        ensures
            unchanged_except(*old(self), *final(self), false, true, false, false, false, false, false, false, false),
            final(self).items.len() == old(self).items.len(),
            index < old(self).items.len() ==> final(self).items@[index as int].is_selected == checked,
            forall|i: int|
                0 <= i < old(self).items.len() && i != index ==> #[trigger] final(self).items@[i] == old(self).items@[i],
            forall|i: int|
                0 <= i < old(self).items.len() ==> ({
                    let a = #[trigger] final(self).items@[i];
                    let b = old(self).items@[i];
                    a.id == b.id && a.category == b.category && a.size_bytes == b.size_bytes && a.path == b.path
                }),
    {
        if index < self.items.len() {
            let mut it = self.items.remove(index);
            it.is_selected = checked;
            self.items.insert(index, it);
        }
    }

    /// "Select all": the items of the tab's category (all items when it names none) all
    /// become selected, unless they all were, in which case they all become unselected;
    /// the other items are left.
    pub fn select_all(&mut self)
        ensures
            unchanged_except(*old(self), *final(self), false, true, false, false, false, false, false, false, false),
            final(self).items.len() == old(self).items.len(),
            ({
                let f = select_all_category_spec(old(self).current_tab);
                let all = forall|i: int|
                    0 <= i < old(self).items.len() && in_filter(f, old(self).items@[i]) ==> #[trigger] old(
                        self,
                    ).items@[i].is_selected;
                forall|i: int|
                    0 <= i < old(self).items.len() ==> {
                        let a = #[trigger] final(self).items@[i];
                        let b = old(self).items@[i];
                        &&& a.id == b.id && a.category == b.category && a.size_bytes == b.size_bytes
                            && a.path == b.path
                        &&& a.is_selected == if in_filter(f, b) {
                            !all
                        } else {
                            b.is_selected
                        }
                    }
            }),
    {
        let filter = select_all_category(self.current_tab);
        let ghost f = select_all_category_spec(self.current_tab);
        let ghost before = self.items@;
        let mut all = true;
        let mut i: usize = 0;
        while i < self.items.len()
            invariant
                i <= self.items.len(),
                self.items@ == before,
                unchanged_except(*old(self), *self, false, false, false, false, false, false, false, false, false),
                f == opt_str(filter),
                all == forall|j: int| 0 <= j < i && in_filter(f, before[j]) ==> #[trigger] before[j].is_selected,
            decreases self.items.len() - i,
        {
            if in_filter_exec(filter, &self.items[i]) && !self.items[i].is_selected {
                all = false;
            }
            i = i + 1;
        }
        let n = self.items.len();
        let mut k: usize = 0;
        while k < n
            invariant
                k <= n,
                n == before.len(),
                self.items.len() == n,
                unchanged_except(*old(self), *self, false, true, false, false, false, false, false, false, false),
                f == opt_str(filter),
                all == forall|j: int| 0 <= j < n && in_filter(f, before[j]) ==> #[trigger] before[j].is_selected,
                forall|j: int|
                    0 <= j < n ==> {
                        let a = #[trigger] self.items@[j];
                        let b = before[j];
                        &&& a.id == b.id && a.category == b.category && a.size_bytes == b.size_bytes && a.path
                            == b.path
                        &&& a.is_selected == if j < k && in_filter(f, b) {
                            !all
                        } else {
                            b.is_selected
                        }
                    },
            decreases n - k,
        {
            if in_filter_exec(filter, &self.items[k]) {
                let mut it = self.items.remove(k);
                it.is_selected = !all;
                self.items.insert(k, it);
            }
            k = k + 1;
        }
    }

    /// How many items of the tab's cleaning category are selected, and their total
    /// size; `None` when the total does not fit in 64 bits.
    pub fn selection_summary(&self) -> (r: Option<(usize, u64)>)
        ensures
            ({
                let s = selection_spec(self.items@, filter_category_spec(self.current_tab));
                match r {
                    Some((n, b)) => n == s.0 && b == s.1,
                    None => s.1 > u64::MAX,
                }
            }),
    {
        let filter = filter_category_for_tab(self.current_tab);
        let ghost f = filter_category_spec(self.current_tab);
        let mut n: usize = 0;
        let mut b: u64 = 0;
        let mut i: usize = 0;
        while i < self.items.len()
            invariant
                i <= self.items.len(),
                f == opt_str(filter),
                f == filter_category_spec(self.current_tab),
                n == selection_spec(self.items@.take(i as int), f).0,
                b == selection_spec(self.items@.take(i as int), f).1,
            decreases self.items.len() - i,
        {
            proof {
                assert(self.items@.take(i + 1).drop_last() =~= self.items@.take(i as int));
                lemma_selection_prefix(self.items@, f, i + 1);
                lemma_selection_prefix(self.items@, f, i as int);
            }
            if in_filter_exec(filter, &self.items[i]) && self.items[i].is_selected {
                let s = self.items[i].size_bytes;
                if s > u64::MAX - b {
                    proof {
                        lemma_selection_prefix(self.items@, f, i + 1);
                    }
                    return None;
                }
                b = b + s;
                n = n + 1;
            }
            i = i + 1;
        }
        assert(self.items@.take(self.items.len() as int) =~= self.items@);
        Some((n, b))
    }

    /// The positions of the items a cleaning pass deletes: in the tab's cleaning
    /// category, selected, with a path the validator lets go.
    pub fn cleaning_candidates(&self, validator: &PathValidator) -> (out: Vec<usize>)
        ensures
            forall|k: int| 0 <= k < out.len() ==> #[trigger] out@[k] < self.items.len(),
            forall|k: int, l: int| 0 <= k < l < out.len() ==> out@[k] < out@[l],
            forall|i: int|
                0 <= i < self.items.len() ==> (out@.contains(i as usize) <==> {
                    let it = #[trigger] self.items@[i];
                    &&& in_filter(filter_category_spec(self.current_tab), it)
                    &&& it.is_selected
                    &&& it.path matches Some(p) && deletable(validator@, p@)
                }),
    {
        let filter = filter_category_for_tab(self.current_tab);
        let ghost f = filter_category_spec(self.current_tab);
        let mut out: Vec<usize> = Vec::new();
        let mut i: usize = 0;
        while i < self.items.len()
            invariant
                i <= self.items.len(),
                f == opt_str(filter),
                f == filter_category_spec(self.current_tab),
                forall|k: int| 0 <= k < out.len() ==> #[trigger] out@[k] < i,
                forall|k: int, l: int| 0 <= k < l < out.len() ==> out@[k] < out@[l],
                forall|j: int|
                    0 <= j < i ==> (out@.contains(j as usize) <==> {
                        let it = #[trigger] self.items@[j];
                        &&& in_filter(f, it)
                        &&& it.is_selected
                        &&& it.path matches Some(p) && deletable(validator@, p@)
                    }),
            decreases self.items.len() - i,
        {
            let it = &self.items[i];
            let ok = in_filter_exec(filter, it) && it.is_selected && match &it.path {
                Some(p) => validator.is_safe_to_delete(p.as_str()).is_ok(),
                None => false,
            };
            let ghost before = out@;
            if ok {
                out.push(i);
            }
            proof {
                assert forall|j: int| 0 <= j < i + 1 implies (out@.contains(j as usize) <==> {
                    let it = #[trigger] self.items@[j];
                    &&& in_filter(f, it)
                    &&& it.is_selected
                    &&& it.path matches Some(p) && deletable(validator@, p@)
                }) by {
                    if j < i {
                        if out@.contains(j as usize) && !before.contains(j as usize) {
                            let k = choose|k: int| 0 <= k < out.len() && out@[k] == j as usize;
                            assert(k == before.len());
                        }
                        if before.contains(j as usize) {
                            let k = choose|k: int| 0 <= k < before.len() && before[k] == j as usize;
                            assert(out@[k] == j as usize);
                        }
                    } else {
                        if ok {
                            assert(out@[before.len() as int] == i);
                        } else {
                            if out@.contains(j as usize) {
                                let k = choose|k: int| 0 <= k < out.len() && out@[k] == j as usize;
                                assert(before[k] < i);
                            }
                        }
                    }
                }
            }
            i = i + 1;
        }
        out
    }

    /// After a cleaning pass, drops the items whose id is among the deleted ones; the
    /// others stay in order.
    pub fn remove_deleted(&mut self, deleted_ids: &Vec<usize>)
        ensures
            unchanged_except(*old(self), *final(self), false, true, false, false, false, false, false, false, false),
            final(self).items@ == retained(old(self).items@, deleted_ids@),
    {
        let ghost before = self.items@;
        let mut kept: Vec<ScanTreeItem> = Vec::new();
        let mut rest: Vec<ScanTreeItem> = Vec::new();
        std::mem::swap(&mut rest, &mut self.items);
        let mut rev: Vec<ScanTreeItem> = Vec::new();
        while rest.len() > 0
            invariant
                rest@ == before.take(rest.len() as int),
                rev.len() + rest.len() == before.len(),
                forall|j: int| 0 <= j < rev.len() ==> #[trigger] rev@[j] == before[before.len() - 1 - j],
            decreases rest.len(),
        {
            let ghost b = rest@;
            let x = rest.pop().unwrap();
            assert(before.take(b.len() as int)[rest.len() as int] == x);
            assert(rest@ =~= before.take(rest.len() as int));
            rev.push(x);
        }
        let mut idx: usize = 0;
        let n = rev.len();
        assert(before.take(0) =~= Seq::<ScanTreeItem>::empty());
        while rev.len() > 0
            invariant
                idx + rev.len() == before.len(),
                n == before.len(),
                forall|j: int| 0 <= j < rev.len() ==> #[trigger] rev@[j] == before[before.len() - 1 - j],
                kept@ == retained(before.take(idx as int), deleted_ids@),
            decreases rev.len(),
        {
            let x = rev.pop().unwrap();
            assert(x == before[idx as int]);
            proof {
                assert(before.take(idx + 1) =~= before.take(idx as int).push(x));
                before.take(idx as int).lemma_filter_push(x, |i: ScanTreeItem| !deleted_ids@.contains(i.id));
            }
            if !contains_id(deleted_ids, x.id) {
                kept.push(x);
            }
            idx = idx + 1;
        }
        assert(before.take(before.len() as int) =~= before);
        self.items = kept;
    }

    /// Starts a scan unless one is running; the result says whether it started.
    pub fn start_live_deep_scan(&mut self) -> (started: bool)
        ensures
            unchanged_except(*old(self), *final(self), false, false, true, false, false, false, false, false, false),
            started == !old(self).is_scanning,
            final(self).is_scanning,
    {
        if self.is_scanning {
            false
        } else {
            self.is_scanning = true;
            true
        }
    }

    /// Gives up a scan before it ran (no access to the needed folders).
    pub fn cancel_scan(&mut self)
        ensures
            unchanged_except(*old(self), *final(self), false, false, true, false, false, false, false, false, false),
            !final(self).is_scanning,
    {
        self.is_scanning = false;
    }

    /// Prepares the scan's first step: progress at 5%, the scanner starting, nothing
    /// found yet, and the log opened with `logs`.
    pub fn prepare_scan(&mut self, logs: Vec<String>)
        ensures
            unchanged_except(*old(self), *final(self), false, false, false, true, true, true, true, false, false),
            final(self).scan_step == 0,
            final(self).scan_progress_permille == 50,
            final(self).scan_status_text@ == "Initializing deep cache scanner..."@,
            final(self).discovered_buffer@ == Seq::<ScanTreeItem>::empty(),
            final(self).scan_logs@ == logs@,
            final(self).is_scanning == old(self).is_scanning,
            final(self).items@ == old(self).items@,
    {
        self.scan_step = 0;
        self.scan_progress_permille = 50;
        self.scan_status_text = "Initializing deep cache scanner...".to_string();
        self.discovered_buffer = Vec::new();
        self.scan_logs = logs;
    }

    /// Records what a section found: its heading, then a line per finding (or that
    /// nothing was found); each finding joins the tree under the section's category,
    /// numbered after the items found before it.
    pub fn record_section(&mut self, section: ScanSection, findings: Vec<Finding>)
        requires
            old(self).discovered_buffer.len() + findings.len() <= usize::MAX,
        ensures
            unchanged_except(*old(self), *final(self), false, false, false, false, false, true, true, false, false),
            final(self).discovered_buffer.len() == old(self).discovered_buffer.len() + findings.len(),
            forall|i: int|
                0 <= i < old(self).discovered_buffer.len() ==> #[trigger] final(self).discovered_buffer@[i]
                    == old(self).discovered_buffer@[i],
            forall|k: int|
                0 <= k < findings.len() ==> {
                    let it = #[trigger] final(self).discovered_buffer@[old(self).discovered_buffer.len() + k];
                    let f = findings@[k];
                    &&& it.id == old(self).discovered_buffer.len() + k
                    &&& it.category@ == section_names_spec(section).1
                    &&& it.title == f.title
                    &&& it.detail == f.detail
                    &&& it.path == Some(f.path)
                    &&& it.size_bytes == f.size_bytes
                    &&& it.is_selected == f.selected
                    &&& it.is_cleanable
                },
            final(self).scan_logs@.map_values(|s: String| s@) == old(self).scan_logs@.map_values(|s: String| s@)
                + seq![section_names_spec(section).0] + if findings.len() == 0 {
                seq!["  ✓ Nothing to clean"@]
            } else {
                findings@.map_values(|f: Finding| finding_line(f.label@, f.size_bytes))
            },
            final(self).items@ == old(self).items@,
            final(self).scan_step == old(self).scan_step,
    {
        let (heading, category) = section_names(section);
        let ghost logs0 = self.scan_logs@.map_values(|s: String| s@);
        let ghost buf0 = self.discovered_buffer@;
        let ghost fs = findings@;
        self.scan_logs.push(heading.to_string());
        assert(self.scan_logs@.map_values(|s: String| s@) =~= logs0.push(heading@));
        let base = self.discovered_buffer.len();
        let count = findings.len();
        let mut rest = findings;
        let mut rev: Vec<Finding> = Vec::new();
        while rest.len() > 0
            invariant
                rest@ == fs.take(rest.len() as int),
                rev.len() + rest.len() == fs.len(),
                forall|j: int| 0 <= j < rev.len() ==> #[trigger] rev@[j] == fs[fs.len() - 1 - j],
            decreases rest.len(),
        {
            let ghost b = rest@;
            let x = rest.pop().unwrap();
            assert(fs.take(b.len() as int)[rest.len() as int] == x);
            assert(rest@ =~= fs.take(rest.len() as int));
            rev.push(x);
        }
        let mut k: usize = 0;
        while rev.len() > 0
            invariant
                k + rev.len() == fs.len(),
                count == fs.len(),
                base == buf0.len(),
                base + count <= usize::MAX,
                forall|j: int| 0 <= j < rev.len() ==> #[trigger] rev@[j] == fs[fs.len() - 1 - j],
                self.discovered_buffer.len() == base + k,
                forall|i: int| 0 <= i < base ==> #[trigger] self.discovered_buffer@[i] == buf0[i],
                forall|j: int|
                    0 <= j < k ==> {
                        let it = #[trigger] self.discovered_buffer@[base + j];
                        let f = fs[j];
                        &&& it.id == base + j
                        &&& it.category@ == section_names_spec(section).1
                        &&& it.title == f.title
                        &&& it.detail == f.detail
                        &&& it.path == Some(f.path)
                        &&& it.size_bytes == f.size_bytes
                        &&& it.is_selected == f.selected
                        &&& it.is_cleanable
                    },
                self.scan_logs@.map_values(|s: String| s@) == logs0.push(section_names_spec(section).0) + fs.take(
                    k as int,
                ).map_values(|f: Finding| finding_line(f.label@, f.size_bytes)),
                category@ == section_names_spec(section).1,
                unchanged_except(*old(self), *self, false, false, false, false, false, true, true, false, false),
            decreases rev.len(),
        {
            let f = rev.pop().unwrap();
            assert(f == fs[k as int]);
            let ghost logs_before = self.scan_logs@.map_values(|s: String| s@);
            let mut line = concat("  → ", f.label.as_str());
            push_str(&mut line, " · ");
            let size_text = format_bytes(f.size_bytes);
            push_str(&mut line, size_text.as_str());
            self.scan_logs.push(line);
            proof {
                assert(fs.take(k + 1) =~= fs.take(k as int).push(f));
                assert(self.scan_logs@.map_values(|s: String| s@) =~= logs_before.push(
                    finding_line(f.label@, f.size_bytes),
                ));
            }
            self.discovered_buffer.push(
                ScanTreeItem {
                    id: base + k,
                    category,
                    title: f.title,
                    detail: f.detail,
                    path: Some(f.path),
                    size_bytes: f.size_bytes,
                    is_selected: f.selected,
                    is_cleanable: true,
                },
            );
            k = k + 1;
        }
        if count == 0 {
            assert(fs.take(0) =~= Seq::<Finding>::empty());
            let ghost l1 = self.scan_logs@.map_values(|s: String| s@);
            assert(l1 =~= logs0.push(section_names_spec(section).0));
            self.scan_logs.push("  ✓ Nothing to clean".to_string());
            assert(self.scan_logs@.map_values(|s: String| s@) =~= l1.push("  ✓ Nothing to clean"@));
        }
        proof {
            assert(fs.take(count as int) =~= fs);
            if count == 0 {
                assert(self.scan_logs@.map_values(|s: String| s@) =~= logs0 + seq![section_names_spec(section).0]
                    + seq!["  ✓ Nothing to clean"@]);
            } else {
                assert(self.scan_logs@.map_values(|s: String| s@) =~= logs0 + seq![section_names_spec(section).0]
                    + fs.map_values(|f: Finding| finding_line(f.label@, f.size_bytes)));
            }
        }
    }

    /// Ends a scan step: its progress and status, and on to the next step.
    pub fn finish_step(&mut self)
        requires
            old(self).scan_step < usize::MAX,
        ensures
            unchanged_except(*old(self), *final(self), false, false, false, true, true, false, false, false, false),
            final(self).scan_step == old(self).scan_step + 1,
            (final(self).scan_progress_permille, final(self).scan_status_text@) == step_progress_spec(
                old(self).scan_step as nat,
            ),
            final(self).scan_logs@ == old(self).scan_logs@,
            final(self).items@ == old(self).items@,
            final(self).discovered_buffer@ == old(self).discovered_buffer@,
            final(self).is_scanning == old(self).is_scanning,
    {
        let (p, text) = step_progress(self.scan_step);
        self.scan_progress_permille = p;
        self.scan_status_text = text.to_string();
        self.scan_step = self.scan_step + 1;
    }

    /// The total size of what the scan found; `None` when it does not fit in 64 bits.
    pub fn buffer_total(&self) -> (r: Option<u64>)
        ensures
            match r {
                Some(t) => t == total_size(self.discovered_buffer@),
                None => total_size(self.discovered_buffer@) > u64::MAX,
            },
    {
        let mut total: u64 = 0;
        let mut i: usize = 0;
        while i < self.discovered_buffer.len()
            invariant
                i <= self.discovered_buffer.len(),
                total == total_size(self.discovered_buffer@.take(i as int)),
            decreases self.discovered_buffer.len() - i,
        {
            proof {
                assert(self.discovered_buffer@.take(i + 1).drop_last() =~= self.discovered_buffer@.take(i as int));
                lemma_total_size_prefix(self.discovered_buffer@, i + 1);
            }
            let s = self.discovered_buffer[i].size_bytes;
            if s > u64::MAX - total {
                return None;
            }
            total = total + s;
            i = i + 1;
        }
        assert(self.discovered_buffer@.take(self.discovered_buffer.len() as int) =~= self.discovered_buffer@);
        Some(total)
    }

    /// Closes a scan: the findings become the items, the log gets the summary (total
    /// size and count), and the scan stops at 100%.
    pub fn finish_scan(&mut self)
        requires
            total_size(old(self).discovered_buffer@) <= u64::MAX,
        ensures
            unchanged_except(*old(self), *final(self), false, true, true, false, true, true, false, false, false),
            final(self).items.len() == old(self).discovered_buffer.len(),
            forall|i: int|
                0 <= i < final(self).items.len() ==> item_view(#[trigger] final(self).items@[i]) == item_view(
                    old(self).discovered_buffer@[i],
                ),
            !final(self).is_scanning,
            final(self).scan_progress_permille == 1000,
            final(self).scan_status_text@ == "Scan complete (100%)"@,
            final(self).scan_logs@.map_values(|s: String| s@) == old(self).scan_logs@.map_values(|s: String| s@)
                + seq![
                rule_line(),
                "Scan complete - Ready for cleanup"@,
                "Potential space: "@ + format_bytes_spec(total_size(old(self).discovered_buffer@) as nat)
                    + " | Items: "@ + decimal(old(self).discovered_buffer.len() as nat),
                rule_line(),
            ],
    {
        let total = match self.buffer_total() {
            Some(t) => t,
            None => 0,
        };
        let mut i: usize = 0;
        let mut items: Vec<ScanTreeItem> = Vec::new();
        while i < self.discovered_buffer.len()
            invariant
                i <= self.discovered_buffer.len(),
                items.len() == i,
                forall|j: int| 0 <= j < i ==> item_view(#[trigger] items@[j]) == item_view(self.discovered_buffer@[j]),
            decreases self.discovered_buffer.len() - i,
        {
            let it = &self.discovered_buffer[i];
            items.push(
                ScanTreeItem {
                    id: it.id,
                    category: it.category,
                    title: it.title.clone(),
                    detail: it.detail.clone(),
                    path: match &it.path {
                        Some(p) => Some(p.clone()),
                        None => None,
                    },
                    size_bytes: it.size_bytes,
                    is_selected: it.is_selected,
                    is_cleanable: it.is_cleanable,
                },
            );
            i = i + 1;
        }
        let n = items.len();
        let ghost logs0 = self.scan_logs@.map_values(|s: String| s@);
        self.scan_logs.push(
            "================================================================================──────────".to_string(),
        );
        self.scan_logs.push("Scan complete - Ready for cleanup".to_string());
        let mut line = "Potential space: ".to_string();
        let total_text = format_bytes(total);
        push_str(&mut line, total_text.as_str());
        push_str(&mut line, " | Items: ");
        push_decimal(&mut line, n as u64);
        self.scan_logs.push(line);
        self.scan_logs.push(
            "================================================================================──────────".to_string(),
        );
        assert(self.scan_logs@.map_values(|s: String| s@) =~= logs0 + seq![
            rule_line(),
            "Scan complete - Ready for cleanup"@,
            "Potential space: "@ + format_bytes_spec(total as nat) + " | Items: "@ + decimal(n as nat),
            rule_line(),
        ]);
        self.items = items;
        self.is_scanning = false;
        self.scan_progress_permille = 1000;
        self.scan_status_text = "Scan complete (100%)".to_string();
    }

    /// The "dry run" switch: toggles previews, leaves the whitelist view; a new scan
    /// follows.
    pub fn dry_run_tapped(&mut self)
        ensures
            unchanged_except(*old(self), *final(self), false, false, false, false, false, false, false, true, true),
            final(self).is_dry_run == !old(self).is_dry_run,
            !final(self).is_whitelist_mode,
    {
        self.is_dry_run = !self.is_dry_run;
        self.is_whitelist_mode = false;
    }

    /// The "whitelist" switch: toggles the whitelist view.
    pub fn whitelist_tapped(&mut self)
        ensures
            unchanged_except(*old(self), *final(self), false, false, false, false, false, false, false, false, true),
            final(self).is_whitelist_mode == !old(self).is_whitelist_mode,
    {
        self.is_whitelist_mode = !self.is_whitelist_mode;
    }

    /// Back from the whitelist view; a new scan follows.
    pub fn whitelist_back_tapped(&mut self)
        ensures
            unchanged_except(*old(self), *final(self), false, false, false, false, false, false, false, false, true),
            !final(self).is_whitelist_mode,
    {
        self.is_whitelist_mode = false;
    }
}

/// What the window does after a scan step.
#[derive(Clone, Copy, Debug, PartialEq, Eq, Structural)]
pub enum ScanFollowUp {
    /// Redraw, then run the next step shortly after.
    NextStep,
    /// Redraw; the scan is over.
    Finished,
}

/// The findings given for the `k`-th section of a step (none when not given).
pub open spec fn step_findings(findings: Seq<Vec<Finding>>, k: int) -> Seq<Finding> {
    if 0 <= k < findings.len() {
        findings[k]@
    } else {
        Seq::empty()
    }
}

/// The log lines a section adds: its heading, then a line per finding (or that nothing
/// was found).
pub open spec fn section_log(section: ScanSection, fs: Seq<Finding>) -> Seq<Seq<char>> {
    seq![section_names_spec(section).0] + if fs.len() == 0 {
        seq!["  ✓ Nothing to clean"@]
    } else {
        fs.map_values(|f: Finding| finding_line(f.label@, f.size_bytes))
    }
}

/// The log lines of the first `n` sections of a step.
pub open spec fn step_log(sections: Seq<ScanSection>, findings: Seq<Vec<Finding>>, n: nat) -> Seq<Seq<char>>
    decreases n,
{
    if n == 0 {
        Seq::empty()
    } else {
        step_log(sections, findings, (n - 1) as nat) + section_log(
            sections[n - 1],
            step_findings(findings, n - 1),
        )
    }
}

/// How many findings the first `n` sections of a step bring.
pub open spec fn step_count(findings: Seq<Vec<Finding>>, n: nat) -> nat
    decreases n,
{
    if n == 0 {
        0
    } else {
        step_count(findings, (n - 1) as nat) + step_findings(findings, n - 1).len()
    }
}

/// The values of the item a finding becomes: numbered `id`, filed under `category`,
/// with the finding's title, detail, path, size and selection, and cleanable.
pub open spec fn finding_item(id: int, category: Seq<char>, f: Finding) -> (
    usize,
    Seq<char>,
    Seq<char>,
    Seq<char>,
    Option<Seq<char>>,
    u64,
    bool,
    bool,
) {
    (id as usize, category, f.title@, f.detail@, Some(f.path@), f.size_bytes, f.selected, true)
}

/// The items a section's findings become, numbered from `base` on.
pub open spec fn section_items(section: ScanSection, fs: Seq<Finding>, base: int) -> Seq<
    (usize, Seq<char>, Seq<char>, Seq<char>, Option<Seq<char>>, u64, bool, bool),
> {
    Seq::new(fs.len(), |k: int| finding_item(base + k, section_names_spec(section).1, fs[k]))
}

/// The items the first `n` sections of a step add to a buffer of `base` items.
pub open spec fn step_items(sections: Seq<ScanSection>, findings: Seq<Vec<Finding>>, base: int, n: nat) -> Seq<
    (usize, Seq<char>, Seq<char>, Seq<char>, Option<Seq<char>>, u64, bool, bool),
>
    decreases n,
{
    if n == 0 {
        Seq::empty()
    } else {
        step_items(sections, findings, base, (n - 1) as nat) + section_items(
            sections[n - 1],
            step_findings(findings, n - 1),
            base + step_count(findings, (n - 1) as nat),
        )
    }
}

proof fn lemma_step_count_bound(findings: Seq<Vec<Finding>>, n: nat)
    ensures
        step_count(findings, n) <= step_count(findings, findings.len()),
    decreases n,
{
    if n > findings.len() {
        lemma_step_count_bound(findings, (n - 1) as nat);
    } else if n < findings.len() {
        lemma_step_count_mono(findings, n, findings.len());
    }
}

proof fn lemma_step_count_mono(findings: Seq<Vec<Finding>>, m: nat, n: nat)
    requires
        m <= n,
    ensures
        step_count(findings, m) <= step_count(findings, n),
    decreases n,
{
    if m < n {
        lemma_step_count_mono(findings, m, (n - 1) as nat);
    }
}

impl CleanerWindowController {
    /// One step of the scan, with what each of the step's sections found
    /// (`findings[k]` for the `k`-th of `step_sections(scan_step)`). Up to step 7 the
    /// sections are recorded, the step is counted and the next one follows; after the
    /// last step the scan is finished.
    pub fn scan_step(&mut self, findings: Vec<Vec<Finding>>) -> (f: ScanFollowUp)
        requires
            old(self).discovered_buffer.len() + step_count(findings@, findings.len() as nat) <= usize::MAX,
            old(self).scan_step >= 8 ==> total_size(old(self).discovered_buffer@) <= u64::MAX,
        ensures
            ({
                let s = old(self).scan_step;
                let sections = step_sections_spec(s as nat);
                let b = old(self).discovered_buffer@;
                let n = step_count(findings@, sections.len());
                if s <= 7 {
                    &&& f == ScanFollowUp::NextStep
                    &&& unchanged_except(*old(self), *final(self), false, false, false, true, true, true, true, false, false)
                    &&& final(self).scan_step == s + 1
                    &&& (final(self).scan_progress_permille, final(self).scan_status_text@) == step_progress_spec(s as nat)
                    &&& final(self).scan_logs@.map_values(|x: String| x@) == old(self).scan_logs@.map_values(|x: String| x@)
                        + step_log(sections, findings@, sections.len())
                    &&& final(self).discovered_buffer.len() == b.len() + n
                    &&& forall|j: int| 0 <= j < b.len() ==> #[trigger] final(self).discovered_buffer@[j] == b[j]
                    &&& forall|j: int|
                        b.len() <= j < final(self).discovered_buffer.len() ==> (
                        #[trigger] final(self).discovered_buffer@[j]).id == j
                    &&& final(self).discovered_buffer@.skip(b.len() as int).map_values(|i: ScanTreeItem| item_view(i))
                        == step_items(sections, findings@, b.len() as int, sections.len())
                } else {
                    &&& f == ScanFollowUp::Finished
                    &&& unchanged_except(*old(self), *final(self), false, true, true, false, true, true, false, false, false)
                    &&& final(self).items.len() == b.len()
                    &&& forall|i: int|
                        0 <= i < b.len() ==> item_view(#[trigger] final(self).items@[i]) == item_view(b[i])
                    &&& !final(self).is_scanning
                    &&& final(self).scan_progress_permille == 1000
                    &&& final(self).scan_status_text@ == "Scan complete (100%)"@
                    &&& final(self).scan_logs@.map_values(|x: String| x@) == old(self).scan_logs@.map_values(
                        |x: String| x@,
                    ) + seq![
                        rule_line(),
                        "Scan complete - Ready for cleanup"@,
                        "Potential space: "@ + format_bytes_spec(total_size(b) as nat) + " | Items: "@ + decimal(
                            b.len() as nat,
                        ),
                        rule_line(),
                    ]
                }
            }),
    {
        let sections = step_sections(self.scan_step);
        if sections.len() == 0 {
            assert(old(self).scan_step >= 8);
            self.finish_scan();
            return ScanFollowUp::Finished;
        }
        let ghost s = self.scan_step;
        let ghost b = self.discovered_buffer@;
        let ghost logs0 = self.scan_logs@.map_values(|x: String| x@);
        let ghost fv = findings@;
        proof {
            lemma_step_count_bound(fv, sections.len() as nat);
        }
        let mut rest = findings;
        let mut k: usize = 0;
        while k < sections.len()
            invariant
                k <= sections.len(),
                sections@ == step_sections_spec(s as nat),
                sections.len() > 0,
                s == old(self).scan_step,
                s <= 7,
                b == old(self).discovered_buffer@,
                logs0 == old(self).scan_logs@.map_values(|x: String| x@),
                b.len() + step_count(fv, fv.len()) <= usize::MAX,
                step_count(fv, sections.len() as nat) <= step_count(fv, fv.len()),
                rest@ == (if k <= fv.len() { fv.skip(k as int) } else { Seq::<Vec<Finding>>::empty() }),
                unchanged_except(*old(self), *self, false, false, false, false, false, true, true, false, false),
                self.scan_logs@.map_values(|x: String| x@) == logs0 + step_log(sections@, fv, k as nat),
                self.discovered_buffer.len() == b.len() + step_count(fv, k as nat),
                forall|j: int| 0 <= j < b.len() ==> #[trigger] self.discovered_buffer@[j] == b[j],
                forall|j: int|
                    b.len() <= j < self.discovered_buffer.len() ==> (#[trigger] self.discovered_buffer@[j]).id == j,
                self.discovered_buffer@.skip(b.len() as int).map_values(|i: ScanTreeItem| item_view(i))
                    == step_items(sections@, fv, b.len() as int, k as nat),
            decreases sections.len() - k,
        {
            let fs = if rest.len() > 0 {
                rest.remove(0)
            } else {
                Vec::new()
            };
            proof {
                if k < fv.len() {
                    assert(fs@ == fv[k as int]@);
                    assert(rest@ =~= fv.skip(k + 1));
                } else {
                    assert(fs@ == Seq::<Finding>::empty());
                }
                assert(fs@ == step_findings(fv, k as int));
                lemma_step_count_mono(fv, (k + 1) as nat, sections.len() as nat);
            }
            let ghost buf_before = self.discovered_buffer@;
            let ghost logs_before = self.scan_logs@.map_values(|x: String| x@);
            let section = sections[k];
            self.record_section(section, fs);
            proof {
                assert(self.scan_logs@.map_values(|x: String| x@) =~= logs0 + step_log(sections@, fv, (k + 1) as nat));
                assert forall|j: int| b.len() <= j < self.discovered_buffer.len() implies (
                #[trigger] self.discovered_buffer@[j]).id == j by {
                    if j < buf_before.len() {
                        assert(self.discovered_buffer@[j] == buf_before[j]);
                    } else {
                        let kk = j - buf_before.len();
                        assert(self.discovered_buffer@[buf_before.len() + kk].id == buf_before.len() + kk);
                    }
                }
                let ghost prev = buf_before.skip(b.len() as int).map_values(|i: ScanTreeItem| item_view(i));
                let ghost added = section_items(sections@[k as int], fs@, buf_before.len() as int);
                assert(buf_before.len() == b.len() + step_count(fv, k as nat));
                assert(step_items(sections@, fv, b.len() as int, (k + 1) as nat) == prev + added);
                let ghost now = self.discovered_buffer@.skip(b.len() as int).map_values(|i: ScanTreeItem| item_view(i));
                assert forall|j: int| 0 <= j < now.len() implies #[trigger] now[j] == (prev + added)[j] by {
                    let jj = b.len() + j;
                    if jj < buf_before.len() {
                        assert(self.discovered_buffer@[jj] == buf_before[jj]);
                    } else {
                        let kk = jj - buf_before.len();
                        assert(self.discovered_buffer@[buf_before.len() + kk] == self.discovered_buffer@[jj]);
                    }
                }
                assert(now =~= step_items(sections@, fv, b.len() as int, (k + 1) as nat));
            }
            k = k + 1;
        }
        self.finish_step();
        ScanFollowUp::NextStep
    }
}

/// The separator line that frames the scan summary.
pub open spec fn rule_line() -> Seq<char> {
    "================================================================================──────────"@
}

/// What an item holds, as values.
pub open spec fn item_view(i: ScanTreeItem) -> (usize, Seq<char>, Seq<char>, Seq<char>, Option<Seq<char>>, u64, bool, bool) {
    (
        i.id,
        i.category@,
        i.title@,
        i.detail@,
        match i.path {
            Some(p) => Some(p@),
            None => None,
        },
        i.size_bytes,
        i.is_selected,
        i.is_cleanable,
    )
}

/// The total size of some items.
pub open spec fn total_size(items: Seq<ScanTreeItem>) -> int
    decreases items.len(),
{
    if items.len() == 0 {
        0
    } else {
        total_size(items.drop_last()) + items.last().size_bytes
    }
}

proof fn lemma_total_size_prefix(items: Seq<ScanTreeItem>, i: int)
    requires
        0 <= i <= items.len(),
    ensures
        0 <= total_size(items.take(i)) <= total_size(items),
    decreases items.len() - i,
{
    lemma_total_size_nonneg(items.take(i));
    if i < items.len() {
        lemma_total_size_prefix(items, i + 1);
        assert(items.take(i + 1).drop_last() =~= items.take(i));
    } else {
        assert(items.take(i) =~= items);
    }
}

proof fn lemma_total_size_nonneg(items: Seq<ScanTreeItem>)
    ensures
        0 <= total_size(items),
    decreases items.len(),
{
    if items.len() > 0 {
        lemma_total_size_nonneg(items.drop_last());
    }
}

fn contains_id(ids: &Vec<usize>, id: usize) -> (r: bool)
    ensures
        r == ids@.contains(id),
{
    let mut i: usize = 0;
    while i < ids.len()
        invariant
            i <= ids.len(),
            forall|j: int| 0 <= j < i ==> ids@[j] != id,
        decreases ids.len() - i,
    {
        if ids[i] == id {
            assert(ids@[i as int] == id);
            return true;
        }
        i = i + 1;
    }
    false
}

/// The lines that open the scan log: the mode, admin access, free space, the whitelist
/// size, which folders are accessible, and the start of the scan.
pub fn initial_scan_logs(
    dry_run: bool,
    authed: bool,
    touchid: bool,
    free_space: &str,
    whitelist_len: usize,
    access: &Vec<(&'static str, bool)>,
) -> (out: Vec<String>)
    requires
        whitelist_len <= u64::MAX,
    ensures
        out@.map_values(|s: String| s@) == initial_logs_spec(
            dry_run,
            authed,
            touchid,
            free_space@,
            whitelist_len as nat,
            access@.map_values(|a: (&'static str, bool)| (a.0@, a.1)),
        ),
{
    let ghost av = access@.map_values(|a: (&'static str, bool)| (a.0@, a.1));
    let mut out: Vec<String> = Vec::new();
    if dry_run {
        out.push("Clean Your Mac (DRY RUN SIMULATION)".to_string());
        out.push("[DRY RUN ACTIVE - Files and caches will only be simulated without deletion]".to_string());
    } else {
        out.push("Clean Your Mac with Pantau Cleaner".to_string());
    }
    let sudo = if authed {
        if touchid {
            "✓ Touch ID verified | Admin access available, system preview included"
        } else {
            "✓ Admin access available (password verified), system preview included"
        }
    } else {
        "◎ System caches need sudo, run sudo -v for full preview"
    };
    out.push(sudo.to_string());
    out.push(concat("⚙ Apple Silicon | Free space: ", free_space));
    let mut wl = "✓ Whitelist: ".to_string();
    push_decimal(&mut wl, whitelist_len as u64);
    push_str(&mut wl, " core patterns active");
    out.push(wl);
    let mut all_ok = true;
    let mut i: usize = 0;
    while i < access.len()
        invariant
            i <= access.len(),
            av == access@.map_values(|a: (&'static str, bool)| (a.0@, a.1)),
            all_ok == forall|j: int| 0 <= j < i ==> #[trigger] av[j].1,
        decreases access.len() - i,
    {
        assert(av[i as int].1 == access@[i as int].1);
        if !access[i].1 {
            all_ok = false;
        }
        i = i + 1;
    }
    if all_ok {
        out.push("✓ Folder access verified for User Caches, Application Support & Containers".to_string());
    } else {
        let names = accessible_names(access);
        out.push(concat("✓ Folder access verified: ", names.as_str()));
    }
    out.push("──────────────────────────────────────────────────────────────────────────────────────────".to_string());
    out.push("➤ Starting deep scan...".to_string());
    proof {
        let want = initial_logs_spec(dry_run, authed, touchid, free_space@, whitelist_len as nat, av);
        assert(out@.map_values(|s: String| s@) =~= want);
    }
    out
}

/// The whitelist after a cache's checkbox changes: checking adds its pattern unless
/// present, unchecking removes every copy of it.
pub open spec fn toggled_whitelist(current: Seq<Seq<char>>, pattern: Seq<char>, checked: bool) -> Seq<Seq<char>> {
    if checked {
        if current.contains(pattern) {
            current
        } else {
            current.push(pattern)
        }
    } else {
        current.filter(|p: Seq<char>| p != pattern)
    }
}

/// The whitelist after a cache's checkbox changes.
pub fn toggle_whitelist_pattern(current: Vec<String>, pattern: &str, checked: bool) -> (out: Vec<String>)
    ensures
        out@.map_values(|s: String| s@) == toggled_whitelist(current@.map_values(|s: String| s@), pattern@, checked),
{
    let ghost cv = current@.map_values(|s: String| s@);
    if checked {
        let mut found = false;
        let mut i: usize = 0;
        while i < current.len()
            invariant
                i <= current.len(),
                cv == current@.map_values(|s: String| s@),
                found == exists|j: int| 0 <= j < i && #[trigger] cv[j] == pattern@,
            decreases current.len() - i,
        {
            assert(cv[i as int] == current@[i as int]@);
            if str_eq(current[i].as_str(), pattern) {
                found = true;
            }
            i = i + 1;
        }
        if found {
            current
        } else {
            let mut out = current;
            out.push(pattern.to_string());
            assert(out@.map_values(|s: String| s@) =~= cv.push(pattern@));
            out
        }
    } else {
        let mut out: Vec<String> = Vec::new();
        let mut i: usize = 0;
        while i < current.len()
            invariant
                i <= current.len(),
                cv == current@.map_values(|s: String| s@),
                out@.map_values(|s: String| s@) == cv.take(i as int).filter(|p: Seq<char>| p != pattern@),
            decreases current.len() - i,
        {
            let ghost before = out@.map_values(|s: String| s@);
            proof {
                assert(cv.take(i + 1) =~= cv.take(i as int).push(cv[i as int]));
                cv.take(i as int).lemma_filter_push(cv[i as int], |p: Seq<char>| p != pattern@);
            }
            if !str_eq(current[i].as_str(), pattern) {
                out.push(current[i].clone());
                assert(out@.map_values(|s: String| s@) =~= before.push(cv[i as int]));
            }
            i = i + 1;
        }
        assert(cv.take(current.len() as int) =~= cv);
        out
    }
}

/// The whitelist after "protect all": empty when every cache was protected, otherwise
/// all the caches' patterns.
pub fn toggle_all_whitelist(all_patterns: &Vec<String>, current: &Vec<String>) -> (out: Vec<String>)
    ensures
        ({
            let av = all_patterns@.map_values(|s: String| s@);
            let cv = current@.map_values(|s: String| s@);
            let all_protected = forall|i: int| 0 <= i < av.len() ==> cv.contains(#[trigger] av[i]);
            out@.map_values(|s: String| s@) == if all_protected {
                Seq::<Seq<char>>::empty()
            } else {
                av
            }
        }),
{
    let ghost av = all_patterns@.map_values(|s: String| s@);
    let ghost cv = current@.map_values(|s: String| s@);
    let mut all = true;
    let mut i: usize = 0;
    while i < all_patterns.len()
        invariant
            i <= all_patterns.len(),
            av == all_patterns@.map_values(|s: String| s@),
            cv == current@.map_values(|s: String| s@),
            all == forall|j: int| 0 <= j < i ==> cv.contains(#[trigger] av[j]),
        decreases all_patterns.len() - i,
    {
        let mut found = false;
        let mut k: usize = 0;
        while k < current.len()
            invariant
                k <= current.len(),
                i < all_patterns.len(),
                av == all_patterns@.map_values(|s: String| s@),
                cv == current@.map_values(|s: String| s@),
                found == exists|j: int| 0 <= j < k && #[trigger] cv[j] == av[i as int],
            decreases current.len() - k,
        {
            assert(cv[k as int] == current@[k as int]@);
            assert(av[i as int] == all_patterns@[i as int]@);
            if str_eq(current[k].as_str(), all_patterns[i].as_str()) {
                found = true;
            }
            k = k + 1;
        }
        proof {
            if found {
                let j = choose|j: int| 0 <= j < current.len() && #[trigger] cv[j] == av[i as int];
                assert(cv.contains(av[i as int]));
            } else {
                if cv.contains(av[i as int]) {
                    let j = choose|j: int| 0 <= j < cv.len() && cv[j] == av[i as int];
                    assert(cv[j] == av[i as int]);
                }
            }
        }
        if !found {
            all = false;
        }
        i = i + 1;
    }
    if all {
        Vec::new()
    } else {
        let mut out: Vec<String> = Vec::new();
        let mut j: usize = 0;
        while j < all_patterns.len()
            invariant
                j <= all_patterns.len(),
                av == all_patterns@.map_values(|s: String| s@),
                out@.map_values(|s: String| s@) == av.take(j as int),
            decreases all_patterns.len() - j,
        {
            let ghost before = out@.map_values(|s: String| s@);
            assert(av[j as int] == all_patterns@[j as int]@);
            out.push(all_patterns[j].clone());
            assert(out@.map_values(|s: String| s@) =~= before.push(av[j as int]));
            assert(av.take(j + 1) =~= av.take(j as int).push(av[j as int]));
            j = j + 1;
        }
        assert(av.take(all_patterns.len() as int) =~= av);
        out
    }
}

/// Checking a cache protects it; unchecking it afterwards leaves no copy of its pattern.
pub proof fn lemma_whitelist_toggle(current: Seq<Seq<char>>, pattern: Seq<char>)
    ensures
        toggled_whitelist(current, pattern, true).contains(pattern),
        !toggled_whitelist(toggled_whitelist(current, pattern, true), pattern, false).contains(pattern),
        forall|p: Seq<char>| p != pattern && current.contains(p) ==> toggled_whitelist(
            toggled_whitelist(current, pattern, true),
            pattern,
            false,
        ).contains(p),
{
    let on = toggled_whitelist(current, pattern, true);
    if !current.contains(pattern) {
        assert(on[on.len() - 1] == pattern);
    }
    let off = toggled_whitelist(on, pattern, false);
    broadcast use vstd::seq_lib::group_filter_ensures;
    assert forall|p: Seq<char>| p != pattern && current.contains(p) implies off.contains(p) by {
        let k = choose|k: int| 0 <= k < current.len() && current[k] == p;
        assert(on[k] == p);
        assert(on.contains(p));
    }
}

/// The symbol heading a scan tab.
pub fn tree_symbol(filter: Option<&str>) -> (s: &'static str)
    ensures
        filter matches Some(c) && c@ == "Project artifacts"@ ==> s@ == "archivebox"@,
        filter matches Some(c) && c@ == "Raw Installers"@ ==> s@ == "frisbee_disk"@,
        !(filter matches Some(c) && (c@ == "Project artifacts"@ || c@ == "Raw Installers"@)) ==> s@ == "broom"@,
{
    proof {
        reveal_strlit("Project artifacts");
        reveal_strlit("Raw Installers");
        assert("Project artifacts"@.len() != "Raw Installers"@.len());
    }
    match filter {
        Some(c) => if str_eq(c, "Project artifacts") {
            "archivebox"
        } else if str_eq(c, "Raw Installers") {
            "frisbee_disk"
        } else {
            "broom"
        },
        None => "broom",
    }
}

/// The two lines of an operation in the history tab: `"<time> • <command> (<target>)"`
/// and `"Size: <size>"`.
pub fn history_row(op: &crate::history::OperationRecord) -> (r: (String, String))
    ensures
        r.0@ == op.timestamp@ + " • "@ + op.command@ + " ("@ + op.target@ + ")"@,
        r.1@ == "Size: "@ + format_bytes_spec(op.size_bytes as nat),
{
    let mut line = op.timestamp.clone();
    push_str(&mut line, " • ");
    push_str(&mut line, op.command.as_str());
    push_str(&mut line, " (");
    push_str(&mut line, op.target.as_str());
    push_str(&mut line, ")");
    let size = format_bytes(op.size_bytes);
    let sz = concat("Size: ", size.as_str());
    (line, sz)
}

/// The Touch ID tab's status title, its explanation, and the switch's title.
pub fn touchid_tab_texts(configured: bool) -> (r: (&'static str, &'static str, &'static str))
    ensures
        configured ==> r.0@ == "🟢 Touch ID for Sudo is ACTIVE"@ && r.1@
            == "Terminal prompts will use biometric Touch ID by default."@ && r.2@ == "Disable Touch ID for Sudo"@,
        !configured ==> r.0@ == "⚪ Touch ID for Sudo is INACTIVE"@ && r.1@
            == "Standard password prompts are currently used for sudo elevated commands in Terminal."@ && r.2@
            == "Enable Touch ID for Sudo"@,
{
    if configured {
        (
            "🟢 Touch ID for Sudo is ACTIVE",
            "Terminal prompts will use biometric Touch ID by default.",
            "Disable Touch ID for Sudo",
        )
    } else {
        (
            "⚪ Touch ID for Sudo is INACTIVE",
            "Standard password prompts are currently used for sudo elevated commands in Terminal.",
            "Enable Touch ID for Sudo",
        )
    }
}

/// The dry run switch's title.
pub fn dry_run_title(is_dry: bool) -> (s: &'static str)
    ensures
        s@ == if is_dry {
            "Dry Run: ON"@
        } else {
            "Dry Run"@
        },
{
    if is_dry {
        "Dry Run: ON"
    } else {
        "Dry Run"
    }
}

/// How a line of the scan log is drawn.
#[derive(Clone, Copy, Debug, PartialEq, Eq, Structural)]
pub enum LogLineKind {
    /// The opening title.
    Title,
    /// A section heading.
    Section,
    Plain,
}

/// How a line of the scan log is drawn: the title starts with `"Clean Your Mac"`, a
/// section heading with `"➤"`.
pub fn log_line_kind(line: &str) -> (k: LogLineKind)
    ensures
        "Clean Your Mac"@.is_prefix_of(line@) ==> k == LogLineKind::Title,
        !"Clean Your Mac"@.is_prefix_of(line@) && "➤"@.is_prefix_of(line@) ==> k == LogLineKind::Section,
        !"Clean Your Mac"@.is_prefix_of(line@) && !"➤"@.is_prefix_of(line@) ==> k == LogLineKind::Plain,
{
    if crate::text::starts_with(line, "Clean Your Mac") {
        LogLineKind::Title
    } else if crate::text::starts_with(line, "➤") {
        LogLineKind::Section
    } else {
        LogLineKind::Plain
    }
}

/// A line of the scan log as shown: the last one gets a cursor block.
pub fn shown_log_line(line: &str, is_last: bool) -> (s: String)
    ensures
        s@ == if is_last {
            line@ + " ▋"@
        } else {
            line@
        },
{
    if is_last {
        concat(line, " ▋")
    } else {
        line.to_string()
    }
}

/// The sections a tab's tree shows, in order: its own category, or all the
/// categories of a full scan.
pub open spec fn canonical_sections_spec(filter: Option<Seq<char>>) -> Seq<Seq<char>> {
    match filter {
        Some(c) => if c == "Project artifacts"@ {
            seq!["Project artifacts"@]
        } else if c == "Raw Installers"@ {
            seq!["Raw Installers"@]
        } else {
            seq!["User essentials"@]
        },
        None => seq![
            "User essentials"@,
            "App caches"@,
            "Browsers"@,
            "Cloud & Office"@,
            "Developer tools"@,
            "Apps & utilities"@,
            "Virtualization"@,
            "Application Support"@,
            "App leftovers"@,
            "Apple Silicon updates"@,
            "Device backups & firmware"@,
            "Time Machine"@,
            "Large files"@,
            "Project artifacts"@,
            "Raw Installers"@,
            "System"@,
        ],
    }
}

/// The sections a tab's tree shows, in order.
pub fn canonical_sections(filter: Option<&str>) -> (out: Vec<&'static str>)
    ensures
        out@.map_values(|s: &str| s@) == canonical_sections_spec(opt_str(filter)),
{
    let out = match filter {
        Some(c) => if str_eq(c, "Project artifacts") {
            vec!["Project artifacts"]
        } else if str_eq(c, "Raw Installers") {
            vec!["Raw Installers"]
        } else {
            vec!["User essentials"]
        },
        None => vec![
            "User essentials",
            "App caches",
            "Browsers",
            "Cloud & Office",
            "Developer tools",
            "Apps & utilities",
            "Virtualization",
            "Application Support",
            "App leftovers",
            "Apple Silicon updates",
            "Device backups & firmware",
            "Time Machine",
            "Large files",
            "Project artifacts",
            "Raw Installers",
            "System",
        ],
    };
    assert(out@.map_values(|s: &str| s@) =~= canonical_sections_spec(opt_str(filter)));
    out
}

/// The positions of the items a section of the tree lists, in order: those in the
/// tab's category (all when none) whose category is the section's.
pub open spec fn section_rows_spec(items: Seq<ScanTreeItem>, filter: Option<Seq<char>>, section: Seq<char>) -> Seq<int>
    decreases items.len(),
{
    if items.len() == 0 {
        Seq::empty()
    } else {
        let r = section_rows_spec(items.drop_last(), filter, section);
        let it = items.last();
        if in_filter(filter, it) && it.category@ == section {
            r.push(items.len() - 1)
        } else {
            r
        }
    }
}

/// The tree's summary line: `"Potential space: <selected size> | Items: <n> |
/// Categories: <sections with items>"`.
pub open spec fn tree_summary_spec(selected_bytes: nat, items: nat, categories: nat) -> Seq<char> {
    "Potential space: "@ + format_bytes_spec(selected_bytes) + " | Items: "@ + decimal(items) + " | Categories: "@
        + decimal(categories)
}

/// The clean button's title: a simulation in dry-run mode, a clean otherwise, with the
/// selected size.
pub fn clean_button_title(is_dry: bool, selected_bytes: u64) -> (s: String)
    ensures
        s@ == if is_dry {
            "Simulate Dry Run ("@ + format_bytes_spec(selected_bytes as nat) + ")"@
        } else {
            "Clean Selected ("@ + format_bytes_spec(selected_bytes as nat) + ")"@
        },
{
    let size = format_bytes(selected_bytes);
    let mut s = if is_dry {
        "Simulate Dry Run (".to_string()
    } else {
        "Clean Selected (".to_string()
    };
    push_str(&mut s, size.as_str());
    push_str(&mut s, ")");
    s
}

/// The whitelist view's status line: `"🛡️ <n> of <total> cache items protected in
/// ~/.config/pantau/whitelist"`.
pub fn whitelist_status_line(protected: usize, total: usize) -> (s: String)
    requires
        protected <= u64::MAX,
        total <= u64::MAX,
    ensures
        s@ == "🛡️ "@ + decimal(protected as nat) + " of "@ + decimal(total as nat)
            + " cache items protected in ~/.config/pantau/whitelist"@,
{
    let mut s = "🛡️ ".to_string();
    push_decimal(&mut s, protected as u64);
    push_str(&mut s, " of ");
    push_decimal(&mut s, total as u64);
    push_str(&mut s, " cache items protected in ~/.config/pantau/whitelist");
    s
}

impl CleanerWindowController {
    /// The positions of the items a section of the tree lists, in order.
    pub fn section_rows(&self, filter: Option<&str>, section: &str) -> (out: Vec<usize>)
        ensures
            out@.map_values(|i: usize| i as int) == section_rows_spec(self.items@, opt_str(filter), section@),
    {
        let mut out: Vec<usize> = Vec::new();
        let mut i: usize = 0;
        while i < self.items.len()
            invariant
                i <= self.items.len(),
                out@.map_values(|i: usize| i as int) == section_rows_spec(
                    self.items@.take(i as int),
                    opt_str(filter),
                    section@,
                ),
            decreases self.items.len() - i,
        {
            assert(self.items@.take(i + 1).drop_last() =~= self.items@.take(i as int));
            let ghost before = out@.map_values(|i: usize| i as int);
            if in_filter_exec(filter, &self.items[i]) && str_eq(self.items[i].category, section) {
                out.push(i);
                assert(out@.map_values(|i: usize| i as int) =~= before.push(i as int));
            }
            i = i + 1;
        }
        assert(self.items@.take(self.items.len() as int) =~= self.items@);
        out
    }

    /// The tree's summary line for a tab's category; `None` when the selected size
    /// does not fit in 64 bits.
    pub fn tree_summary(&self, filter: Option<&str>) -> (s: Option<String>)
        ensures
            ({
                let f = opt_str(filter);
                let sel = selection_spec(self.items@, f);
                let n = self.items@.filter(|it: ScanTreeItem| in_filter(f, it)).len();
                let secs = canonical_sections_spec(f);
                let cats = secs.filter(|sec: Seq<char>| section_rows_spec(self.items@, f, sec).len() > 0).len();
                match s {
                    Some(t) => sel.1 <= u64::MAX && t@ == tree_summary_spec(sel.1 as nat, n, cats),
                    None => sel.1 > u64::MAX,
                }
            }),
    {
        let ghost f = opt_str(filter);
        let mut bytes: u64 = 0;
        let mut n: usize = 0;
        let mut i: usize = 0;
        while i < self.items.len()
            invariant
                i <= self.items.len(),
                f == opt_str(filter),
                bytes == selection_spec(self.items@.take(i as int), f).1,
                n == self.items@.take(i as int).filter(|it: ScanTreeItem| in_filter(f, it)).len(),
                n <= i,
            decreases self.items.len() - i,
        {
            proof {
                assert(self.items@.take(i + 1).drop_last() =~= self.items@.take(i as int));
                assert(self.items@.take(i + 1) =~= self.items@.take(i as int).push(self.items@[i as int]));
                self.items@.take(i as int).lemma_filter_push(self.items@[i as int], |it: ScanTreeItem| in_filter(f, it));
                lemma_selection_prefix(self.items@, f, i + 1);
            }
            let it = &self.items[i];
            if in_filter_exec(filter, it) {
                if it.is_selected {
                    if it.size_bytes > u64::MAX - bytes {
                        proof {
                            lemma_selection_prefix(self.items@, f, i + 1);
                        }
                        return None;
                    }
                    bytes = bytes + it.size_bytes;
                }
                n = n + 1;
            }
            i = i + 1;
        }
        assert(self.items@.take(self.items.len() as int) =~= self.items@);
        let secs = canonical_sections(filter);
        let ghost sv = secs@.map_values(|s: &str| s@);
        let mut cats: usize = 0;
        let mut k: usize = 0;
        while k < secs.len()
            invariant
                k <= secs.len(),
                sv == secs@.map_values(|s: &str| s@),
                sv == canonical_sections_spec(f),
                f == opt_str(filter),
                cats == sv.take(k as int).filter(|sec: Seq<char>| section_rows_spec(self.items@, f, sec).len() > 0).len(),
                cats <= k,
            decreases secs.len() - k,
        {
            proof {
                assert(sv.take(k + 1) =~= sv.take(k as int).push(sv[k as int]));
                sv.take(k as int).lemma_filter_push(
                    sv[k as int],
                    |sec: Seq<char>| section_rows_spec(self.items@, f, sec).len() > 0,
                );
            }
            assert(sv[k as int] == secs@[k as int]@);
            let rows = self.section_rows(filter, secs[k]);
            assert(rows@.map_values(|i: usize| i as int).len() == rows.len());
            if rows.len() > 0 {
                cats = cats + 1;
            }
            k = k + 1;
        }
        assert(sv.take(secs.len() as int) =~= sv);
        let mut line = "Potential space: ".to_string();
        let size = format_bytes(bytes);
        push_str(&mut line, size.as_str());
        push_str(&mut line, " | Items: ");
        push_decimal(&mut line, n as u64);
        push_str(&mut line, " | Categories: ");
        push_decimal(&mut line, cats as u64);
        Some(line)
    }
}

/// Whether each catalogue entry is protected by the saved whitelist.
pub fn protection_flags(catalogue: &Vec<crate::config::DynamicCacheItem>, current: &Vec<String>) -> (out: Vec<bool>)
    ensures
        out.len() == catalogue.len(),
        forall|i: int|
            0 <= i < catalogue.len() ==> #[trigger] out@[i] == crate::tui::covered_by_any(
                current@.map_values(|s: String| s@),
                catalogue@[i].pattern@,
            ),
{
    let mut out: Vec<bool> = Vec::new();
    let mut i: usize = 0;
    while i < catalogue.len()
        invariant
            i <= catalogue.len(),
            out.len() == i,
            forall|j: int|
                0 <= j < i ==> #[trigger] out@[j] == crate::tui::covered_by_any(
                    current@.map_values(|s: String| s@),
                    catalogue@[j].pattern@,
                ),
        decreases catalogue.len() - i,
    {
        out.push(crate::tui::covered_by_any_exec(current, catalogue[i].pattern.as_str()));
        i = i + 1;
    }
    out
}

} // verus!
