//! What the cleaner cleans: the system, user, developer, browser and application
//! caches it knows, and the report of a cleaning run.
use vstd::prelude::*;

use crate::path::{join, join_exec, path_eq, path_eq_exec};
use crate::text::{concat, starts_with};

verus! {

/// A group of system locations cleaned together.
pub struct CleanTarget {
    pub name: &'static str,
    pub description: &'static str,
    pub paths: Vec<String>,
}

/// A group of locations in the user's home cleaned together.
pub struct UserCleanTarget {
    pub name: &'static str,
    pub description: &'static str,
    pub paths: Vec<String>,
}

/// What a target holds: name, description, paths.
pub type TargetView = (Seq<char>, Seq<char>, Seq<Seq<char>>);

impl View for CleanTarget {
    type V = TargetView;

    open spec fn view(&self) -> TargetView {
        (self.name@, self.description@, self.paths@.map_values(|p: String| p@))
    }
}

impl View for UserCleanTarget {
    type V = TargetView;

    open spec fn view(&self) -> TargetView {
        (self.name@, self.description@, self.paths@.map_values(|p: String| p@))
    }
}

/// The system targets, with every location they may hold; the ones that exist are
/// cleaned.
pub open spec fn system_targets_spec(home: Seq<char>) -> Seq<TargetView> {
    seq![
        (
            "Diagnostic & Crash Reports"@,
            "Application crash logs and diagnostic dumps"@,
            seq![
                "/Library/Logs/DiagnosticReports"@,
                join(home, "Library/Logs/DiagnosticReports"@),
                join(home, "Library/Logs/CrashReporter"@),
            ],
        ),
        (
            "System & User Logs"@,
            "Old log files and system activity records"@,
            seq![join(home, "Library/Logs"@), "/Library/Logs"@],
        ),
    ]
}

/// The user targets, with every location they may hold; the ones that exist are cleaned.
pub open spec fn user_targets_spec(home: Seq<char>) -> Seq<TargetView> {
    seq![
        (
            "User App Caches"@,
            "Application cache files and temporary runtime data"@,
            seq![join(home, "Library/Caches"@), join(home, ".cache"@)],
        ),
        ("macOS Trash"@, "Items currently in the Trash bin"@, seq![join(home, ".Trash"@)]),
        (
            "Mail Downloads"@,
            "Cached attachments opened from Apple Mail"@,
            seq![
                join(home, "Library/Containers/com.apple.mail/Data/Library/Mail Downloads"@),
                join(home, "Library/Mail Downloads"@),
            ],
        ),
        (
            "QuickLook & Thumbnail Caches"@,
            "Generated QuickLook thumbnails and preview caches"@,
            seq![
                join(home, "Library/Caches/com.apple.QuickLook.thumbnailcache"@),
                join(home, "Library/Caches/Quick Look"@),
            ],
        ),
    ]
}

/// The system targets under `home` (the user's home directory, or `/` when none is
/// known), each with all the locations it may hold, whether they exist or not.
pub fn system_clean_candidates(home: &str) -> (out: Vec<CleanTarget>)
    ensures
        out@.map_values(|t: CleanTarget| t@) == system_targets_spec(home@),
{
    let diag = vec![
        "/Library/Logs/DiagnosticReports".to_string(),
        join_exec(home, "Library/Logs/DiagnosticReports"),
        join_exec(home, "Library/Logs/CrashReporter"),
    ];
    let logs = vec![join_exec(home, "Library/Logs"), "/Library/Logs".to_string()];
    let out = vec![
        CleanTarget {
            name: "Diagnostic & Crash Reports",
            description: "Application crash logs and diagnostic dumps",
            paths: diag,
        },
        CleanTarget {
            name: "System & User Logs",
            description: "Old log files and system activity records",
            paths: logs,
        },
    ];
    proof {
        assert(out@[0]@.2 =~= system_targets_spec(home@)[0].2);
        assert(out@[1]@.2 =~= system_targets_spec(home@)[1].2);
        assert(out@.map_values(|t: CleanTarget| t@) =~= system_targets_spec(home@));
    }
    out
}

/// The user targets under `home`, each with all the locations it may hold, whether they
/// exist or not.
pub fn user_clean_candidates(home: &str) -> (out: Vec<UserCleanTarget>)
    ensures
        out@.map_values(|t: UserCleanTarget| t@) == user_targets_spec(home@),
{
    let caches = vec![join_exec(home, "Library/Caches"), join_exec(home, ".cache")];
    let trash = vec![join_exec(home, ".Trash")];
    let mail = vec![
        join_exec(home, "Library/Containers/com.apple.mail/Data/Library/Mail Downloads"),
        join_exec(home, "Library/Mail Downloads"),
    ];
    let ql = vec![
        join_exec(home, "Library/Caches/com.apple.QuickLook.thumbnailcache"),
        join_exec(home, "Library/Caches/Quick Look"),
    ];
    let out = vec![
        UserCleanTarget {
            name: "User App Caches",
            description: "Application cache files and temporary runtime data",
            paths: caches,
        },
        UserCleanTarget {
            name: "macOS Trash",
            description: "Items currently in the Trash bin",
            paths: trash,
        },
        UserCleanTarget {
            name: "Mail Downloads",
            description: "Cached attachments opened from Apple Mail",
            paths: mail,
        },
        UserCleanTarget {
            name: "QuickLook & Thumbnail Caches",
            description: "Generated QuickLook thumbnails and preview caches",
            paths: ql,
        },
    ];
    proof {
        let s = user_targets_spec(home@);
        assert(out@[0]@.2 =~= s[0].2);
        assert(out@[1]@.2 =~= s[1].2);
        assert(out@[2]@.2 =~= s[2].2);
        assert(out@[3]@.2 =~= s[3].2);
        assert(out@.map_values(|t: UserCleanTarget| t@) =~= s);
    }
    out
}

/// The targets with only the locations that exist: `exists[i]` says, for each location
/// of target `i` in order, whether it does (a location without a flag does not).
pub open spec fn keep_existing(targets: Seq<TargetView>, exists: Seq<Seq<bool>>) -> Seq<TargetView> {
    Seq::new(
        targets.len(),
        |i: int|
            (
                targets[i].0,
                targets[i].1,
                flagged(
                    targets[i].2,
                    if i < exists.len() {
                        exists[i]
                    } else {
                        Seq::empty()
                    },
                ),
            ),
    )
}

/// The flags of target `i`, none when there are fewer lists than targets.
fn flags_at(exists: &Vec<Vec<bool>>, i: usize) -> (r: Vec<bool>)
    ensures
        r@ == if i < exists.len() {
            exists@[i as int]@
        } else {
            Seq::<bool>::empty()
        },
{
    let mut r: Vec<bool> = Vec::new();
    if i < exists.len() {
        let f = &exists[i];
        let mut k: usize = 0;
        while k < f.len()
            invariant
                k <= f.len(),
                r@ == f@.take(k as int),
            decreases f.len() - k,
        {
            r.push(f[k]);
            assert(r@ =~= f@.take(k + 1));
            k = k + 1;
        }
        assert(f@.take(f.len() as int) =~= f@);
    }
    r
}

/// The locations whose flag is set, in order.
fn kept_paths(paths: &Vec<String>, flags: &Vec<bool>) -> (out: Vec<String>)
    ensures
        out@.map_values(|p: String| p@) == flagged(paths@.map_values(|p: String| p@), flags@),
{
    let ghost pv = paths@.map_values(|p: String| p@);
    let mut out: Vec<String> = Vec::new();
    let mut i: usize = 0;
    while i < paths.len()
        invariant
            i <= paths.len(),
            pv == paths@.map_values(|p: String| p@),
            out@.map_values(|p: String| p@) == flagged(pv.take(i as int), flags@),
        decreases paths.len() - i,
    {
        assert(pv.take(i + 1).drop_last() =~= pv.take(i as int));
        assert(pv.take(i + 1).last() == paths@[i as int]@);
        let ghost before = out@.map_values(|p: String| p@);
        if i < flags.len() && flags[i] {
            out.push(paths[i].clone());
            assert(out@.map_values(|p: String| p@) =~= before.push(paths@[i as int]@));
        }
        i = i + 1;
    }
    assert(pv.take(paths.len() as int) =~= pv);
    out
}

/// The system targets under `home`, each with only its locations that exist:
/// `exists[i]` says, for each location of `system_clean_candidates(home)[i]` in order,
/// whether it does.
pub fn get_system_clean_targets(home: &str, exists: &Vec<Vec<bool>>) -> (out: Vec<CleanTarget>)
    ensures
        out@.map_values(|t: CleanTarget| t@) == keep_existing(
            system_targets_spec(home@),
            exists@.map_values(|v: Vec<bool>| v@),
        ),
{
    let cands = system_clean_candidates(home);
    let ghost want = keep_existing(system_targets_spec(home@), exists@.map_values(|v: Vec<bool>| v@));
    let mut out: Vec<CleanTarget> = Vec::new();
    let mut i: usize = 0;
    while i < cands.len()
        invariant
            i <= cands.len(),
            cands@.map_values(|t: CleanTarget| t@) == system_targets_spec(home@),
            want == keep_existing(system_targets_spec(home@), exists@.map_values(|v: Vec<bool>| v@)),
            out@.map_values(|t: CleanTarget| t@) == want.take(i as int),
        decreases cands.len() - i,
    {
        let flags = flags_at(exists, i);
        let t = &cands[i];
        assert(t@ == system_targets_spec(home@)[i as int]);
        let paths = kept_paths(&t.paths, &flags);
        let ghost old_out = out@;
        assert(old_out.map_values(|t: CleanTarget| t@).len() == old_out.len());
        out.push(CleanTarget { name: t.name, description: t.description, paths });
        proof {
            assert(out@.len() == i + 1);
            assert(want.len() == system_targets_spec(home@).len());
            assert(cands@.map_values(|t: CleanTarget| t@).len() == cands@.len());
            let ev = exists@.map_values(|v: Vec<bool>| v@);
            assert(ev.len() == exists.len());
            if i < exists.len() {
                assert(ev[i as int] == exists@[i as int]@);
            }
            assert(out@[i as int]@ == want[i as int]);
        }
        assert(out@.map_values(|t: CleanTarget| t@) =~= want.take(i + 1));
        i = i + 1;
    }
    assert(want.take(cands.len() as int) =~= want);
    out
}

/// The user targets under `home`, each with only its locations that exist: `exists[i]`
/// says, for each location of `user_clean_candidates(home)[i]` in order, whether it does.
pub fn get_user_clean_targets(home: &str, exists: &Vec<Vec<bool>>) -> (out: Vec<UserCleanTarget>)
    ensures
        out@.map_values(|t: UserCleanTarget| t@) == keep_existing(
            user_targets_spec(home@),
            exists@.map_values(|v: Vec<bool>| v@),
        ),
{
    let cands = user_clean_candidates(home);
    let ghost want = keep_existing(user_targets_spec(home@), exists@.map_values(|v: Vec<bool>| v@));
    let mut out: Vec<UserCleanTarget> = Vec::new();
    let mut i: usize = 0;
    while i < cands.len()
        invariant
            i <= cands.len(),
            cands@.map_values(|t: UserCleanTarget| t@) == user_targets_spec(home@),
            want == keep_existing(user_targets_spec(home@), exists@.map_values(|v: Vec<bool>| v@)),
            out@.map_values(|t: UserCleanTarget| t@) == want.take(i as int),
        decreases cands.len() - i,
    {
        let flags = flags_at(exists, i);
        let t = &cands[i];
        assert(t@ == user_targets_spec(home@)[i as int]);
        let paths = kept_paths(&t.paths, &flags);
        let ghost old_out = out@;
        assert(old_out.map_values(|t: UserCleanTarget| t@).len() == old_out.len());
        out.push(UserCleanTarget { name: t.name, description: t.description, paths });
        proof {
            assert(out@.len() == i + 1);
            assert(want.len() == user_targets_spec(home@).len());
            assert(cands@.map_values(|t: UserCleanTarget| t@).len() == cands@.len());
            let ev = exists@.map_values(|v: Vec<bool>| v@);
            assert(ev.len() == exists.len());
            if i < exists.len() {
                assert(ev[i as int] == exists@[i as int]@);
            }
            assert(out@[i as int]@ == want[i as int]);
        }
        assert(out@.map_values(|t: UserCleanTarget| t@) =~= want.take(i + 1));
        i = i + 1;
    }
    assert(want.take(cands.len() as int) =~= want);
    out
}

/// Developer tool caches: (name, path under the home directory).
pub open spec fn dev_cache_specs() -> Seq<(Seq<char>, Seq<char>)> {
    seq![
        ("npm Cache"@, ".npm/_cacache"@),
        ("yarn Cache"@, "Library/Caches/Yarn"@),
        ("pnpm Store"@, "Library/pnpm/store"@),
        ("bun Cache"@, ".bun/install/cache"@),
        ("Corepack Cache"@, ".cache/corepack"@),
        ("Cargo Registry Cache"@, ".cargo/registry/cache"@),
        ("Cargo Git DB"@, ".cargo/git/db"@),
        ("Go Build Cache"@, "Library/Caches/go-build"@),
        ("pip Cache"@, "Library/Caches/pip"@),
        ("Poetry Cache"@, "Library/Caches/pypoetry"@),
        ("uv Cache"@, "Library/Caches/uv"@),
        ("Gradle Caches"@, ".gradle/caches"@),
        ("Maven Repository Cache"@, ".m2/repository"@),
        ("CocoaPods Cache"@, "Library/Caches/CocoaPods"@),
        ("SwiftPM Cache"@, "Library/Caches/org.swift.swiftpm"@),
        ("Xcode DerivedData"@, "Library/Developer/Xcode/DerivedData"@),
        ("Xcode Archives"@, "Library/Developer/Xcode/Archives"@),
        ("Xcode Simulator Cryptex"@, "Library/Developer/CoreSimulator/Volumes"@),
        ("iOS DeviceSupport"@, "Library/Developer/Xcode/iOS DeviceSupport"@),
        ("watchOS DeviceSupport"@, "Library/Developer/Xcode/watchOS DeviceSupport"@),
        ("Android Gradle Cache"@, ".android/build-cache"@),
        ("Android Cache"@, ".android/cache"@),
        ("Homebrew Cache"@, "Library/Caches/Homebrew"@),
        ("Docker Container Logs & Cache"@, "Library/Containers/com.docker.docker/Data/log"@),
    ]
}
/// Developer tool caches.
fn dev_cache_table() -> (out: Vec<(&'static str, &'static str)>)
    ensures
        out@.map_values(|t: (&'static str, &'static str)| (t.0@, t.1@)) == dev_cache_specs(),
{
    let out = vec![
        ("npm Cache", ".npm/_cacache"),
        ("yarn Cache", "Library/Caches/Yarn"),
        ("pnpm Store", "Library/pnpm/store"),
        ("bun Cache", ".bun/install/cache"),
        ("Corepack Cache", ".cache/corepack"),
        ("Cargo Registry Cache", ".cargo/registry/cache"),
        ("Cargo Git DB", ".cargo/git/db"),
        ("Go Build Cache", "Library/Caches/go-build"),
        ("pip Cache", "Library/Caches/pip"),
        ("Poetry Cache", "Library/Caches/pypoetry"),
        ("uv Cache", "Library/Caches/uv"),
        ("Gradle Caches", ".gradle/caches"),
        ("Maven Repository Cache", ".m2/repository"),
        ("CocoaPods Cache", "Library/Caches/CocoaPods"),
        ("SwiftPM Cache", "Library/Caches/org.swift.swiftpm"),
        ("Xcode DerivedData", "Library/Developer/Xcode/DerivedData"),
        ("Xcode Archives", "Library/Developer/Xcode/Archives"),
        ("Xcode Simulator Cryptex", "Library/Developer/CoreSimulator/Volumes"),
        ("iOS DeviceSupport", "Library/Developer/Xcode/iOS DeviceSupport"),
        ("watchOS DeviceSupport", "Library/Developer/Xcode/watchOS DeviceSupport"),
        ("Android Gradle Cache", ".android/build-cache"),
        ("Android Cache", ".android/cache"),
        ("Homebrew Cache", "Library/Caches/Homebrew"),
        ("Docker Container Logs & Cache", "Library/Containers/com.docker.docker/Data/log"),
    ];
    assert(out@.map_values(|t: (&'static str, &'static str)| (t.0@, t.1@)) =~= dev_cache_specs());
    out
}
/// Browser caches: (browser, path under the home directory).
pub open spec fn browser_cache_specs() -> Seq<(Seq<char>, Seq<char>)> {
    seq![
        ("Google Chrome Cache"@, "Library/Caches/Google/Chrome/Default/Cache"@),
        ("Google Chrome Media Cache"@, "Library/Caches/Google/Chrome/Default/Media Cache"@),
        ("Google Chrome GPUCache"@, "Library/Caches/Google/Chrome/Default/GPUCache"@),
        ("Safari Cache"@, "Library/Caches/com.apple.Safari"@),
        ("Safari WebKit Cache"@, "Library/Containers/com.apple.Safari/Data/Library/Caches"@),
        ("Mozilla Firefox Cache"@, "Library/Caches/Firefox/Profiles"@),
        ("Brave Browser Cache"@, "Library/Caches/BraveSoftware/Brave-Browser/Default/Cache"@),
        ("Brave GPUCache"@, "Library/Caches/BraveSoftware/Brave-Browser/Default/GPUCache"@),
        ("Microsoft Edge Cache"@, "Library/Caches/Microsoft Edge/Default/Cache"@),
        ("Arc Browser Cache"@, "Library/Caches/company.thebrowser.Browser/Default/Cache"@),
        ("Opera Cache"@, "Library/Caches/com.operasoftware.Opera"@),
        ("Vivaldi Cache"@, "Library/Caches/Vivaldi/Default/Cache"@),
    ]
}
/// Browser caches.
fn browser_cache_table() -> (out: Vec<(&'static str, &'static str)>)
    ensures
        out@.map_values(|t: (&'static str, &'static str)| (t.0@, t.1@)) == browser_cache_specs(),
{
    let out = vec![
        ("Google Chrome Cache", "Library/Caches/Google/Chrome/Default/Cache"),
        ("Google Chrome Media Cache", "Library/Caches/Google/Chrome/Default/Media Cache"),
        ("Google Chrome GPUCache", "Library/Caches/Google/Chrome/Default/GPUCache"),
        ("Safari Cache", "Library/Caches/com.apple.Safari"),
        ("Safari WebKit Cache", "Library/Containers/com.apple.Safari/Data/Library/Caches"),
        ("Mozilla Firefox Cache", "Library/Caches/Firefox/Profiles"),
        ("Brave Browser Cache", "Library/Caches/BraveSoftware/Brave-Browser/Default/Cache"),
        ("Brave GPUCache", "Library/Caches/BraveSoftware/Brave-Browser/Default/GPUCache"),
        ("Microsoft Edge Cache", "Library/Caches/Microsoft Edge/Default/Cache"),
        ("Arc Browser Cache", "Library/Caches/company.thebrowser.Browser/Default/Cache"),
        ("Opera Cache", "Library/Caches/com.operasoftware.Opera"),
        ("Vivaldi Cache", "Library/Caches/Vivaldi/Default/Cache"),
    ];
    assert(out@.map_values(|t: (&'static str, &'static str)| (t.0@, t.1@)) =~= browser_cache_specs());
    out
}
/// Caches of well-known applications: (label, path under the home directory).
pub open spec fn app_cache_specs() -> Seq<(Seq<char>, Seq<char>)> {
    seq![
        ("Spotify"@, "Library/Caches/com.spotify.client"@),
        ("Spotify Storage"@, "Library/Application Support/Spotify/PersistentCache"@),
        ("Slack"@, "Library/Caches/com.tinyspeck.slackmacgap"@),
        ("Slack Logs"@, "Library/Application Support/Slack/logs"@),
        ("Discord"@, "Library/Caches/com.hnc.Discord"@),
        ("Discord GPUCache"@, "Library/Application Support/discord/GPUCache"@),
        ("Telegram"@, "Library/Caches/ru.keepcoder.Telegram"@),
        ("WhatsApp"@, "Library/Caches/net.whatsapp.WhatsApp"@),
        ("Zoom"@, "Library/Caches/us.zoom.xos"@),
        ("Microsoft Teams"@, "Library/Caches/com.microsoft.teams2"@),
        ("VSCode Cache"@, "Library/Caches/com.microsoft.VSCode"@),
        ("VSCode GPUCache"@, "Library/Application Support/Code/GPUCache"@),
        ("VSCode CachedData"@, "Library/Application Support/Code/CachedData"@),
        ("Cursor Cache"@, "Library/Caches/com.todesktop.230313mzl4w4u92"@),
        ("Cursor CachedData"@, "Library/Application Support/Cursor/CachedData"@),
        ("JetBrains Caches"@, "Library/Caches/JetBrains"@),
        ("Xcode DerivedData"@, "Library/Developer/Xcode/DerivedData"@),
        ("Xcode Archives"@, "Library/Developer/Xcode/Archives"@),
        ("Xcode iOS DeviceSupport"@, "Library/Developer/Xcode/iOS DeviceSupport"@),
        ("Xcode CoreSimulator Caches"@, "Library/Developer/CoreSimulator/Caches"@),
        ("Postman"@, "Library/Caches/com.postmanlabs.mac"@),
        ("Docker Desktop"@, "Library/Caches/com.docker.docker"@),
        ("Figma"@, "Library/Caches/com.figma.Desktop"@),
        ("Canva"@, "Library/Caches/com.canva.CanvaDesktop"@),
        ("Adobe Cache"@, "Library/Caches/Adobe"@),
        ("Adobe Media Cache"@, "Library/Application Support/Adobe/Common/Media Cache Files"@),
        ("DaVinci Resolve Cache"@, "Library/Caches/Blackmagic Design/DaVinci Resolve"@),
    ]
}
/// Caches of well-known applications.
fn app_cache_table() -> (out: Vec<(&'static str, &'static str)>)
    ensures
        out@.map_values(|t: (&'static str, &'static str)| (t.0@, t.1@)) == app_cache_specs(),
{
    let out = vec![
        ("Spotify", "Library/Caches/com.spotify.client"),
        ("Spotify Storage", "Library/Application Support/Spotify/PersistentCache"),
        ("Slack", "Library/Caches/com.tinyspeck.slackmacgap"),
        ("Slack Logs", "Library/Application Support/Slack/logs"),
        ("Discord", "Library/Caches/com.hnc.Discord"),
        ("Discord GPUCache", "Library/Application Support/discord/GPUCache"),
        ("Telegram", "Library/Caches/ru.keepcoder.Telegram"),
        ("WhatsApp", "Library/Caches/net.whatsapp.WhatsApp"),
        ("Zoom", "Library/Caches/us.zoom.xos"),
        ("Microsoft Teams", "Library/Caches/com.microsoft.teams2"),
        ("VSCode Cache", "Library/Caches/com.microsoft.VSCode"),
        ("VSCode GPUCache", "Library/Application Support/Code/GPUCache"),
        ("VSCode CachedData", "Library/Application Support/Code/CachedData"),
        ("Cursor Cache", "Library/Caches/com.todesktop.230313mzl4w4u92"),
        ("Cursor CachedData", "Library/Application Support/Cursor/CachedData"),
        ("JetBrains Caches", "Library/Caches/JetBrains"),
        ("Xcode DerivedData", "Library/Developer/Xcode/DerivedData"),
        ("Xcode Archives", "Library/Developer/Xcode/Archives"),
        ("Xcode iOS DeviceSupport", "Library/Developer/Xcode/iOS DeviceSupport"),
        ("Xcode CoreSimulator Caches", "Library/Developer/CoreSimulator/Caches"),
        ("Postman", "Library/Caches/com.postmanlabs.mac"),
        ("Docker Desktop", "Library/Caches/com.docker.docker"),
        ("Figma", "Library/Caches/com.figma.Desktop"),
        ("Canva", "Library/Caches/com.canva.CanvaDesktop"),
        ("Adobe Cache", "Library/Caches/Adobe"),
        ("Adobe Media Cache", "Library/Application Support/Adobe/Common/Media Cache Files"),
        ("DaVinci Resolve Cache", "Library/Caches/Blackmagic Design/DaVinci Resolve"),
    ];
    assert(out@.map_values(|t: (&'static str, &'static str)| (t.0@, t.1@)) =~= app_cache_specs());
    out
}

/// A developer tool's cache.
pub struct DevCacheItem {
    pub name: &'static str,
    pub path: String,
}

impl View for DevCacheItem {
    type V = (Seq<char>, Seq<char>);

    open spec fn view(&self) -> (Seq<char>, Seq<char>) {
        (self.name@, self.path@)
    }
}

/// A browser's cache.
pub struct BrowserCacheItem {
    pub browser_name: &'static str,
    pub path: String,
}

impl View for BrowserCacheItem {
    type V = (Seq<char>, Seq<char>);

    open spec fn view(&self) -> (Seq<char>, Seq<char>) {
        (self.browser_name@, self.path@)
    }
}

/// An application's cache.
pub struct AppCacheItem {
    pub app_name: String,
    pub path: String,
}

impl View for AppCacheItem {
    type V = (Seq<char>, Seq<char>);

    open spec fn view(&self) -> (Seq<char>, Seq<char>) {
        (self.app_name@, self.path@)
    }
}

/// A table of (name, relative path) with each path taken under `home`.
pub open spec fn under_home(home: Seq<char>, specs: Seq<(Seq<char>, Seq<char>)>) -> Seq<(Seq<char>, Seq<char>)> {
    specs.map_values(|t: (Seq<char>, Seq<char>)| (t.0, join(home, t.1)))
}

/// The items of `items` whose flag in `flags` (same position) is set, in order.
pub open spec fn flagged<T>(items: Seq<T>, flags: Seq<bool>) -> Seq<T>
    decreases items.len(),
{
    if items.len() == 0 {
        Seq::empty()
    } else {
        let rest = flagged(items.drop_last(), flags);
        let i = items.len() - 1;
        if i < flags.len() && flags[i] {
            rest.push(items.last())
        } else {
            rest
        }
    }
}

proof fn lemma_flagged_map<T, U>(items: Seq<T>, flags: Seq<bool>, f: spec_fn(T) -> U)
    ensures
        flagged(items, flags).map_values(f) == flagged(items.map_values(f), flags),
    decreases items.len(),
{
    if items.len() > 0 {
        lemma_flagged_map(items.drop_last(), flags, f);
        assert(items.map_values(f).drop_last() =~= items.drop_last().map_values(f));
        let rest = flagged(items.drop_last(), flags);
        assert(rest.push(items.last()).map_values(f) =~= rest.map_values(f).push(f(items.last())));
    } else {
        assert(flagged(items, flags).map_values(f) =~= Seq::<U>::empty());
    }
}

/// The items whose flag (at the same position) is set, in order.
pub fn retain_flagged<T>(items: Vec<T>, flags: &Vec<bool>) -> (out: Vec<T>)
    ensures
        out@ == flagged(items@, flags@),
{
    let ghost orig = items@;
    let n = items.len();
    assert(orig.len() == n);
    let mut rest = items;
    let mut rev: Vec<T> = Vec::new();
    while rest.len() > 0
        invariant
            rest@ == orig.take(rest.len() as int),
            rev.len() + rest.len() == orig.len(),
            forall|j: int| 0 <= j < rev.len() ==> #[trigger] rev@[j] == orig[orig.len() - 1 - j],
        decreases rest.len(),
    {
        let ghost before = rest@;
        let x = rest.pop().unwrap();
        assert(orig.take(before.len() as int)[rest.len() as int] == x);
        assert(rest@ =~= orig.take(rest.len() as int));
        rev.push(x);
    }
    let mut out: Vec<T> = Vec::new();
    let mut idx: usize = 0;
    assert(orig.take(0) =~= Seq::<T>::empty());
    while rev.len() > 0
        invariant
            idx + rev.len() == orig.len(),
            orig.len() <= usize::MAX,
            forall|j: int| 0 <= j < rev.len() ==> #[trigger] rev@[j] == orig[orig.len() - 1 - j],
            out@ == flagged(orig.take(idx as int), flags@),
        decreases rev.len(),
    {
        let x = rev.pop().unwrap();
        assert(x == orig[idx as int]);
        assert(orig.take(idx + 1).drop_last() =~= orig.take(idx as int));
        if idx < flags.len() && flags[idx] {
            out.push(x);
        }
        idx = idx + 1;
    }
    assert(orig.take(orig.len() as int) =~= orig);
    out
}

/// The developer caches under `home`, whether they exist or not.
pub fn dev_cache_candidates(home: &str) -> (out: Vec<DevCacheItem>)
    ensures
        out@.map_values(|i: DevCacheItem| i@) == under_home(home@, dev_cache_specs()),
{
    let table = dev_cache_table();
    let ghost want = under_home(home@, dev_cache_specs());
    let mut out: Vec<DevCacheItem> = Vec::new();
    let mut i: usize = 0;
    while i < table.len()
        invariant
            i <= table.len(),
            table@.map_values(|t: (&'static str, &'static str)| (t.0@, t.1@)) == dev_cache_specs(),
            want == under_home(home@, dev_cache_specs()),
            out@.map_values(|i: DevCacheItem| i@) == want.take(i as int),
        decreases table.len() - i,
    {
        let (name, rel) = table[i];
        assert(dev_cache_specs()[i as int] == (name@, rel@));
        let ghost before = out@.map_values(|i: DevCacheItem| i@);
        out.push(DevCacheItem { name, path: join_exec(home, rel) });
        assert(want.take(i + 1) =~= want.take(i as int).push(want[i as int]));
        assert(out@.map_values(|i: DevCacheItem| i@) =~= before.push(want[i as int]));
        i = i + 1;
    }
    assert(want.take(table.len() as int) =~= want);
    out
}

/// The developer caches under `home` that exist: `exists` says, for each of
/// `dev_cache_candidates(home)` in order, whether it does.
pub fn get_dev_cache_targets(home: &str, exists: &Vec<bool>) -> (out: Vec<DevCacheItem>)
    ensures
        out@.map_values(|i: DevCacheItem| i@) == flagged(under_home(home@, dev_cache_specs()), exists@),
{
    let cands = dev_cache_candidates(home);
    let ghost cs = cands@;
    let kept = retain_flagged(cands, exists);
    proof {
        lemma_flagged_map(cs, exists@, |i: DevCacheItem| i@);
    }
    kept
}

/// The browser caches under `home`, whether they exist or not.
pub fn browser_cache_candidates(home: &str) -> (out: Vec<BrowserCacheItem>)
    ensures
        out@.map_values(|i: BrowserCacheItem| i@) == under_home(home@, browser_cache_specs()),
{
    let table = browser_cache_table();
    let ghost want = under_home(home@, browser_cache_specs());
    let mut out: Vec<BrowserCacheItem> = Vec::new();
    let mut i: usize = 0;
    while i < table.len()
        invariant
            i <= table.len(),
            table@.map_values(|t: (&'static str, &'static str)| (t.0@, t.1@)) == browser_cache_specs(),
            want == under_home(home@, browser_cache_specs()),
            out@.map_values(|i: BrowserCacheItem| i@) == want.take(i as int),
        decreases table.len() - i,
    {
        let (name, rel) = table[i];
        assert(browser_cache_specs()[i as int] == (name@, rel@));
        let ghost before = out@.map_values(|i: BrowserCacheItem| i@);
        out.push(BrowserCacheItem { browser_name: name, path: join_exec(home, rel) });
        assert(want.take(i + 1) =~= want.take(i as int).push(want[i as int]));
        assert(out@.map_values(|i: BrowserCacheItem| i@) =~= before.push(want[i as int]));
        i = i + 1;
    }
    assert(want.take(table.len() as int) =~= want);
    out
}

/// The browser caches under `home` that exist: `exists` says, for each of
/// `browser_cache_candidates(home)` in order, whether it does.
pub fn get_browser_cache_targets(home: &str, exists: &Vec<bool>) -> (out: Vec<BrowserCacheItem>)
    ensures
        out@.map_values(|i: BrowserCacheItem| i@) == flagged(under_home(home@, browser_cache_specs()), exists@),
{
    let cands = browser_cache_candidates(home);
    let ghost cs = cands@;
    let kept = retain_flagged(cands, exists);
    proof {
        lemma_flagged_map(cs, exists@, |i: BrowserCacheItem| i@);
    }
    kept
}

/// The caches of well-known applications under `home`, whether they exist or not.
pub fn app_cache_presets(home: &str) -> (out: Vec<AppCacheItem>)
    ensures
        out@.map_values(|i: AppCacheItem| i@) == under_home(home@, app_cache_specs()),
{
    let table = app_cache_table();
    let ghost want = under_home(home@, app_cache_specs());
    let mut out: Vec<AppCacheItem> = Vec::new();
    let mut i: usize = 0;
    while i < table.len()
        invariant
            i <= table.len(),
            table@.map_values(|t: (&'static str, &'static str)| (t.0@, t.1@)) == app_cache_specs(),
            want == under_home(home@, app_cache_specs()),
            out@.map_values(|i: AppCacheItem| i@) == want.take(i as int),
        decreases table.len() - i,
    {
        let (name, rel) = table[i];
        assert(app_cache_specs()[i as int] == (name@, rel@));
        let ghost before = out@.map_values(|i: AppCacheItem| i@);
        out.push(AppCacheItem { app_name: name.to_string(), path: join_exec(home, rel) });
        assert(want.take(i + 1) =~= want.take(i as int).push(want[i as int]));
        assert(out@.map_values(|i: AppCacheItem| i@) =~= before.push(want[i as int]));
        i = i + 1;
    }
    assert(want.take(table.len() as int) =~= want);
    out
}

/// The cache folders an installed application may have: one named by its bundle
/// identifier (when it has one), then one named by the application, both under
/// `~/Library/Caches` and labelled `"<name> Cache"`.
pub open spec fn installed_app_caches_spec(home: Seq<char>, name: Seq<char>, bundle_id: Option<Seq<char>>) -> Seq<
    (Seq<char>, Seq<char>),
> {
    let caches = join(home, "Library/Caches"@);
    let label = name + " Cache"@;
    let by_name = seq![(label, join(caches, name))];
    match bundle_id {
        Some(b) => seq![(label, join(caches, b))] + by_name,
        None => by_name,
    }
}

/// The cache folders an installed application may have.
pub fn installed_app_cache_items(home: &str, name: &str, bundle_id: Option<&str>) -> (out: Vec<AppCacheItem>)
    ensures
        out@.map_values(|i: AppCacheItem| i@) == installed_app_caches_spec(
            home@,
            name@,
            match bundle_id {
                Some(b) => Some(b@),
                None => None,
            },
        ),
{
    let caches = join_exec(home, "Library/Caches");
    let mut out: Vec<AppCacheItem> = Vec::new();
    match bundle_id {
        Some(b) => {
            out.push(AppCacheItem { app_name: concat(name, " Cache"), path: join_exec(caches.as_str(), b) });
        },
        None => {},
    }
    out.push(AppCacheItem { app_name: concat(name, " Cache"), path: join_exec(caches.as_str(), name) });
    proof {
        let want = installed_app_caches_spec(
            home@,
            name@,
            match bundle_id {
                Some(b) => Some(b@),
                None => None,
            },
        );
        assert(out@.map_values(|i: AppCacheItem| i@) =~= want);
    }
    out
}

/// Whether a folder of `~/Library/Caches` is left to other parts of the cleaner: Apple's
/// own caches, CloudKit, Playwright, JetBrains, and hidden folders.
pub open spec fn reserved_cache_folder(name: Seq<char>) -> bool {
    "com.apple."@.is_prefix_of(name) || "CloudKit"@.is_prefix_of(name) || "ms-playwright"@.is_prefix_of(
        name,
    ) || "JetBrains"@.is_prefix_of(name) || "."@.is_prefix_of(name)
}

/// A folder of `~/Library/Caches` is reserved exactly when its name starts with
/// `com.apple.`, `CloudKit`, `ms-playwright`, `JetBrains` or `.`.
pub proof fn lemma_reserved_cache_prefixes(name: Seq<char>)
    ensures
        reserved_cache_folder(name) <==> ("com.apple."@.is_prefix_of(name) || "CloudKit"@.is_prefix_of(name)
            || "ms-playwright"@.is_prefix_of(name) || "JetBrains"@.is_prefix_of(name) || "."@.is_prefix_of(name)),
{
}

/// A folder of `~/Library/Caches` as an application cache, unless it is reserved.
pub fn user_cache_dir_item(home: &str, name: &str) -> (out: Option<AppCacheItem>)
    ensures
        "com.apple."@.is_prefix_of(name@) || "CloudKit"@.is_prefix_of(name@) || "ms-playwright"@.is_prefix_of(name@)
            || "JetBrains"@.is_prefix_of(name@) || "."@.is_prefix_of(name@) ==> out is None,
        reserved_cache_folder(name@) ==> out is None,
        !reserved_cache_folder(name@) ==> (out matches Some(i) && i@ == (
            name@ + " Cache"@,
            join(join(home@, "Library/Caches"@), name@),
        )),
{
    proof {
        lemma_reserved_cache_prefixes(name@);
    }
    if starts_with(name, "com.apple.") || starts_with(name, "CloudKit") || starts_with(name, "ms-playwright")
        || starts_with(name, "JetBrains") || starts_with(name, ".") {
        None
    } else {
        let caches = join_exec(home, "Library/Caches");
        Some(AppCacheItem { app_name: concat(name, " Cache"), path: join_exec(caches.as_str(), name) })
    }
}

/// Whether a path equal to `p` (component by component) is among `seen`.
pub open spec fn path_seen(seen: Seq<Seq<char>>, p: Seq<char>) -> bool {
    exists|k: int| 0 <= k < seen.len() && path_eq(#[trigger] seen[k], p)
}

/// The present candidates of `cands` whose path was not met before, in order.
pub open spec fn first_present(cands: Seq<((Seq<char>, Seq<char>), bool)>, seen: Seq<Seq<char>>) -> Seq<
    (Seq<char>, Seq<char>),
>
    decreases cands.len(),
{
    if cands.len() == 0 {
        Seq::empty()
    } else {
        let c = cands[0];
        if c.1 && !path_seen(seen, c.0.1) {
            seq![c.0] + first_present(cands.drop_first(), seen.push(c.0.1))
        } else {
            first_present(cands.drop_first(), seen)
        }
    }
}

fn path_seen_exec(seen: &Vec<String>, p: &str) -> (r: bool)
    ensures
        r == path_seen(seen@.map_values(|s: String| s@), p@),
{
    let ghost sv = seen@.map_values(|s: String| s@);
    let mut k: usize = 0;
    while k < seen.len()
        invariant
            k <= seen.len(),
            sv == seen@.map_values(|s: String| s@),
            forall|j: int| 0 <= j < k ==> !path_eq(#[trigger] sv[j], p@),
        decreases seen.len() - k,
    {
        if path_eq_exec(seen[k].as_str(), p) {
            assert(path_eq(sv[k as int], p@));
            return true;
        }
        k = k + 1;
    }
    false
}

/// The application caches to clean: from the candidates, in order (well-known caches,
/// then those of installed applications, then the other folders of `~/Library/Caches`),
/// each one that exists and whose path was not met before.
pub fn get_app_specific_caches(cands: &Vec<(AppCacheItem, bool)>) -> (out: Vec<AppCacheItem>)
    ensures
        out@.map_values(|i: AppCacheItem| i@) == first_present(
            cands@.map_values(|c: (AppCacheItem, bool)| (c.0@, c.1)),
            Seq::empty(),
        ),
{
    let ghost all = cands@.map_values(|c: (AppCacheItem, bool)| (c.0@, c.1));
    let mut out: Vec<AppCacheItem> = Vec::new();
    let mut seen: Vec<String> = Vec::new();
    let mut i: usize = 0;
    assert(all.skip(0) =~= all);
    assert(seen@.map_values(|s: String| s@) =~= Seq::<Seq<char>>::empty());
    while i < cands.len()
        invariant
            i <= cands.len(),
            all == cands@.map_values(|c: (AppCacheItem, bool)| (c.0@, c.1)),
            out@.map_values(|i: AppCacheItem| i@) + first_present(
                all.skip(i as int),
                seen@.map_values(|s: String| s@),
            ) == first_present(all, Seq::empty()),
        decreases cands.len() - i,
    {
        let ghost before_out = out@.map_values(|i: AppCacheItem| i@);
        let ghost before_seen = seen@.map_values(|s: String| s@);
        let c = &cands[i];
        proof {
            assert(all.skip(i as int)[0] == (c.0@, c.1));
            assert(all.skip(i as int).drop_first() =~= all.skip(i + 1));
        }
        if c.1 && !path_seen_exec(&seen, c.0.path.as_str()) {
            out.push(AppCacheItem { app_name: c.0.app_name.clone(), path: c.0.path.clone() });
            seen.push(c.0.path.clone());
            proof {
                assert(out@.map_values(|i: AppCacheItem| i@) =~= before_out.push(c.0@));
                assert(seen@.map_values(|s: String| s@) =~= before_seen.push(c.0@.1));
                assert(before_out + (seq![c.0@] + first_present(all.skip(i + 1), before_seen.push(c.0@.1)))
                    =~= before_out.push(c.0@) + first_present(all.skip(i + 1), before_seen.push(c.0@.1)));
            }
        }
        i = i + 1;
    }
    proof {
        assert(all.skip(cands.len() as int) =~= Seq::<((Seq<char>, Seq<char>), bool)>::empty());
        assert(out@.map_values(|i: AppCacheItem| i@) + Seq::<(Seq<char>, Seq<char>)>::empty()
            =~= out@.map_values(|i: AppCacheItem| i@));
    }
    out
}

/// No two application caches chosen share a path.
pub proof fn lemma_app_caches_distinct(cands: Seq<((Seq<char>, Seq<char>), bool)>, seen: Seq<Seq<char>>)
    ensures
        ({
            let out = first_present(cands, seen);
            &&& forall|i: int| 0 <= i < out.len() ==> !path_seen(seen, #[trigger] out[i].1)
            &&& forall|i: int, j: int| 0 <= i < j < out.len() ==> !path_eq(#[trigger] out[i].1, #[trigger] out[j].1)
        }),
    decreases cands.len(),
{
    if cands.len() > 0 {
        let c = cands[0];
        if c.1 && !path_seen(seen, c.0.1) {
            let seen2 = seen.push(c.0.1);
            lemma_app_caches_distinct(cands.drop_first(), seen2);
            let rest = first_present(cands.drop_first(), seen2);
            let out = seq![c.0] + rest;
            assert(first_present(cands, seen) == out);
            assert forall|i: int| 0 <= i < out.len() implies !path_seen(seen, #[trigger] out[i].1) by {
                if i == 0 {
                    assert(out[0] == c.0);
                } else {
                    assert(out[i] == rest[i - 1]);
                    if path_seen(seen, rest[i - 1].1) {
                        let k = choose|k: int| 0 <= k < seen.len() && path_eq(#[trigger] seen[k], rest[i - 1].1);
                        assert(seen2[k] == seen[k]);
                    }
                }
            }
            assert forall|i: int, j: int| 0 <= i < j < out.len() implies !path_eq(#[trigger] out[i].1, #[trigger] out[j].1) by {
                if i == 0 {
                    assert(out[j] == rest[j - 1]);
                    if path_eq(c.0.1, rest[j - 1].1) {
                        assert(seen2[seen.len() as int] == c.0.1);
                        assert(path_seen(seen2, rest[j - 1].1));
                    }
                } else {
                    assert(out[i] == rest[i - 1]);
                    assert(out[j] == rest[j - 1]);
                }
            }
        } else {
            lemma_app_caches_distinct(cands.drop_first(), seen);
            assert(first_present(cands, seen) == first_present(cands.drop_first(), seen));
        }
    }
}

/// What one category of a cleaning run freed.
pub struct CategoryResult {
    pub name: String,
    pub bytes_freed: u64,
    pub items_count: usize,
}

impl View for CategoryResult {
    type V = (Seq<char>, u64, usize);

    open spec fn view(&self) -> (Seq<char>, u64, usize) {
        (self.name@, self.bytes_freed, self.items_count)
    }
}

/// What a cleaning run freed, in total and by category.
pub struct CleanReport {
    pub total_bytes_freed: u64,
    pub categories_cleaned: Vec<CategoryResult>,
}

/// The bytes freed by all the categories.
pub open spec fn bytes_sum(cats: Seq<(Seq<char>, u64, usize)>) -> int
    decreases cats.len(),
{
    if cats.len() == 0 {
        0
    } else {
        bytes_sum(cats.drop_last()) + cats.last().1
    }
}

impl CleanReport {
    /// The categories, as values.
    pub open spec fn categories(&self) -> Seq<(Seq<char>, u64, usize)> {
        self.categories_cleaned@.map_values(|c: CategoryResult| c@)
    }

    /// The total is what the categories freed, and every category freed something.
    pub open spec fn consistent(&self) -> bool {
        &&& self.total_bytes_freed == bytes_sum(self.categories())
        &&& forall|i: int| 0 <= i < self.categories().len() ==> #[trigger] self.categories()[i].1 > 0
    }

    /// A report of nothing freed.
    pub fn new() -> (r: CleanReport)
        ensures
            r.total_bytes_freed == 0,
            r.categories() == Seq::<(Seq<char>, u64, usize)>::empty(),
            r.consistent(),
    {
        let r = CleanReport { total_bytes_freed: 0, categories_cleaned: Vec::new() };
        assert(r.categories() =~= Seq::<(Seq<char>, u64, usize)>::empty());
        r
    }

    /// Records a category: when it freed something, it is added and counted in the
    /// total; a category that freed nothing is not listed.
    pub fn record(&mut self, name: &str, bytes: u64, count: usize)
        requires
            old(self).total_bytes_freed + bytes <= u64::MAX,
        ensures
            bytes > 0 ==> final(self).categories() == old(self).categories().push((name@, bytes, count))
                && final(self).total_bytes_freed == old(self).total_bytes_freed + bytes,
            bytes == 0 ==> final(self).categories() == old(self).categories()
                && final(self).total_bytes_freed == old(self).total_bytes_freed,
            old(self).consistent() ==> final(self).consistent(),
    {
        if bytes > 0 {
            let ghost before = self.categories();
            self.total_bytes_freed = self.total_bytes_freed + bytes;
            self.categories_cleaned.push(
                CategoryResult { name: name.to_string(), bytes_freed: bytes, items_count: count },
            );
            assert(self.categories() =~= before.push((name@, bytes, count)));
            assert(self.categories().drop_last() =~= before);
        }
    }
}

/// The sum and the number of the positive sizes.
pub open spec fn positive_tally(sizes: Seq<u64>) -> (int, int)
    decreases sizes.len(),
{
    if sizes.len() == 0 {
        (0, 0)
    } else {
        let t = positive_tally(sizes.drop_last());
        if sizes.last() > 0 {
            (t.0 + sizes.last(), t.1 + 1)
        } else {
            t
        }
    }
}

proof fn lemma_tally_bounds(sizes: Seq<u64>)
    ensures
        0 <= positive_tally(sizes).1 <= sizes.len(),
        0 <= positive_tally(sizes).0,
    decreases sizes.len(),
{
    if sizes.len() > 0 {
        lemma_tally_bounds(sizes.drop_last());
    }
}

proof fn lemma_tally_prefix(sizes: Seq<u64>, i: int)
    requires
        0 <= i <= sizes.len(),
    ensures
        positive_tally(sizes.take(i)).0 <= positive_tally(sizes).0,
    decreases sizes.len() - i,
{
    if i < sizes.len() {
        lemma_tally_prefix(sizes, i + 1);
        assert(sizes.take(i + 1).drop_last() =~= sizes.take(i));
    } else {
        assert(sizes.take(i) =~= sizes);
    }
}

/// What a category freed: the sum of the sizes of its locations that hold something, and
/// how many there are.
pub fn tally_sizes(sizes: &Vec<u64>) -> (r: (u64, usize))
    requires
        positive_tally(sizes@).0 <= u64::MAX,
    ensures
        r.0 == positive_tally(sizes@).0,
        r.1 == positive_tally(sizes@).1,
{
    let mut bytes: u64 = 0;
    let mut count: usize = 0;
    let mut i: usize = 0;
    while i < sizes.len()
        invariant
            i <= sizes.len(),
            positive_tally(sizes@).0 <= u64::MAX,
            bytes == positive_tally(sizes@.take(i as int)).0,
            count == positive_tally(sizes@.take(i as int)).1,
        decreases sizes.len() - i,
    {
        proof {
            assert(sizes@.take(i + 1).drop_last() =~= sizes@.take(i as int));
            lemma_tally_prefix(sizes@, i + 1);
            lemma_tally_bounds(sizes@.take(i + 1));
        }
        if sizes[i] > 0 {
            bytes = bytes + sizes[i];
            count = count + 1;
        }
        i = i + 1;
    }
    assert(sizes@.take(sizes.len() as int) =~= sizes@);
    (bytes, count)
}

} // verus!
