//! Installed applications, the files they leave behind, and what uninstalling touches.
use vstd::prelude::*;

use crate::order::{by_key, sort_by_key, Keyed, SizedItem};
use crate::path::{file_name, file_name_exec, join, join_exec};
use crate::removal::{deletable, deletable_total, log_choice, plan_removals, removal_log, Located};
use crate::safety::{is_protected_app, is_protected_app_spec, PathValidator};
use crate::text::{
    chars_of, concat, contains_seq, contains_str, find_from, occurs_at, push_str, string_of, to_lowercase,
    trim, trim_end_matches, trim_end_matches_seq, trim_seq, unicode_lowercase,
};

verus! {

/// An application found in an applications folder.
pub struct InstalledApp {
    pub name: String,
    pub path: String,
    pub bundle_id: Option<String>,
    pub size_bytes: u64,
    pub is_protected: bool,
}

/// What an application holds: name, path, bundle identifier, size, protected.
pub type AppView = (Seq<char>, Seq<char>, Option<Seq<char>>, u64, bool);

impl View for InstalledApp {
    type V = AppView;

    open spec fn view(&self) -> AppView {
        (
            self.name@,
            self.path@,
            match self.bundle_id {
                Some(b) => Some(b@),
                None => None,
            },
            self.size_bytes,
            self.is_protected,
        )
    }
}

impl Keyed for InstalledApp {
    open spec fn key_of(&self) -> Seq<char> {
        unicode_lowercase(self.name@)
    }

    fn key(&self) -> (r: String) {
        to_lowercase(self.name.as_str())
    }
}

/// An application's name from its bundle path: the bundle's file name without `.app`.
pub open spec fn app_name_of(path: Seq<char>) -> Seq<char> {
    let f = match file_name(path) {
        Some(n) => n,
        None => Seq::empty(),
    };
    trim_end_matches_seq(f, ".app"@)
}

/// The application whose bundle is at `path`, with its bundle identifier and size; it is
/// protected when its name is one of the protected applications.
pub fn installed_app(path: &str, bundle_id: Option<String>, size_bytes: u64) -> (app: InstalledApp)
    ensures
        app.name@ == app_name_of(path@),
        app.path@ == path@,
        app.bundle_id == bundle_id,
        app.size_bytes == size_bytes,
        app.is_protected == is_protected_app_spec(app_name_of(path@)),
{
    let f = match file_name_exec(path) {
        Some(n) => n,
        None => String::new(),
    };
    let name = trim_end_matches(f.as_str(), ".app");
    let is_protected = is_protected_app(name.as_str());
    InstalledApp { name, path: path.to_string(), bundle_id, size_bytes, is_protected }
}

/// The applications ordered by lower-cased name; equal names keep their order.
pub fn sort_apps(apps: Vec<InstalledApp>) -> (out: Vec<InstalledApp>)
    ensures
        out@ == by_key(apps@),
{
    sort_by_key(apps)
}

/// The first position at or after `from` where `p` occurs in `s`.
#[verifier::opaque]
pub open spec fn find_spec(s: Seq<char>, p: Seq<char>, from: int) -> Option<int> {
    if exists|j: int| from <= j && occurs_at(s, p, j) {
        Some(
            choose|j: int|
                from <= j && occurs_at(s, p, j) && forall|k: int| from <= k < j ==> !occurs_at(s, p, k),
        )
    } else {
        None
    }
}

/// The bundle identifier an `Info.plist` gives: after the first `CFBundleIdentifier`,
/// the text between the next `<string>` and the `</string>` after it, trimmed, when it
/// is not empty.
pub open spec fn plist_bundle_id(s: Seq<char>) -> Option<Seq<char>> {
    match find_spec(s, "CFBundleIdentifier"@, 0) {
        None => None,
        Some(i) => match find_spec(s, "<string>"@, i) {
            None => None,
            Some(j) => {
                let start = j + "<string>"@.len();
                match find_spec(s, "</string>"@, start) {
                    None => None,
                    Some(k) => {
                        let id = trim_seq(s.subrange(start, k));
                        if id.len() > 0 {
                            Some(id)
                        } else {
                            None
                        }
                    },
                }
            },
        },
    }
}

proof fn lemma_find_none(s: Seq<char>, p: Seq<char>, from: int)
    requires
        forall|j: int| from <= j ==> !occurs_at(s, p, j),
    ensures
        find_spec(s, p, from) is None,
{
    reveal(find_spec);
}

proof fn lemma_find_some(s: Seq<char>, p: Seq<char>, from: int, i: int)
    requires
        from <= i,
        occurs_at(s, p, i),
        forall|j: int| from <= j < i ==> !occurs_at(s, p, j),
    ensures
        find_spec(s, p, from) == Some(i),
{
    reveal(find_spec);
    let c = choose|j: int| from <= j && occurs_at(s, p, j) && forall|k: int| from <= k < j ==> !occurs_at(s, p, k);
    assert(from <= i && occurs_at(s, p, i) && forall|k: int| from <= k < i ==> !occurs_at(s, p, k));
    if c < i {
    } else if c > i {
    }
}

fn find_in(v: &Vec<char>, p: &str, from: usize) -> (r: Option<usize>)
    requires
        from <= v.len(),
    ensures
        match r {
            Some(i) => find_spec(v@, p@, from as int) == Some(i as int) && from <= i && i + p@.len() <= v.len(),
            None => find_spec(v@, p@, from as int) is None,
        },
{
    let pv = chars_of(p);
    let r = find_from(v, &pv, from);
    proof {
        match r {
            Some(i) => {
                lemma_find_some(v@, p@, from as int, i as int);
            },
            None => {
                lemma_find_none(v@, p@, from as int);
            },
        }
    }
    r
}

/// The bundle identifier in the text of an `Info.plist`.
pub fn bundle_id_from_plist(content: &str) -> (out: Option<String>)
    ensures
        match out {
            Some(id) => plist_bundle_id(content@) == Some(id@),
            None => plist_bundle_id(content@) is None,
        },
{
    let v = chars_of(content);
    let i = match find_in(&v, "CFBundleIdentifier", 0) {
        Some(i) => i,
        None => return None,
    };
    let j = match find_in(&v, "<string>", i) {
        Some(j) => j,
        None => return None,
    };
    let open_tag = chars_of("<string>");
    let start = j + open_tag.len();
    let k = match find_in(&v, "</string>", start) {
        Some(k) => k,
        None => return None,
    };
    let raw = string_of(&v, start, k);
    let id = trim(raw.as_str());
    let id_chars = chars_of(id.as_str());
    if id_chars.len() > 0 {
        Some(id)
    } else {
        None
    }
}

/// Where applications leave files, with the name each kind is shown under.
pub open spec fn leftover_locations_spec(home: Seq<char>) -> Seq<(Seq<char>, Seq<char>)> {
    seq![
        ("Application Support"@, join(home, "Library/Application Support"@)),
        ("Caches"@, join(home, "Library/Caches"@)),
        ("Preferences"@, join(home, "Library/Preferences"@)),
        ("Logs"@, join(home, "Library/Logs"@)),
        ("WebKit Storage"@, join(home, "Library/WebKit"@)),
        ("Containers"@, join(home, "Library/Containers"@)),
        ("Group Containers"@, join(home, "Library/Group Containers"@)),
        ("Saved App State"@, join(home, "Library/Saved Application State"@)),
        ("HTTPStorages"@, join(home, "Library/HTTPStorages"@)),
        ("LaunchAgents"@, join(home, "Library/LaunchAgents"@)),
        ("LaunchDaemons"@, "/Library/LaunchDaemons"@),
        ("Privileged Helper Tools"@, "/Library/PrivilegedHelperTools"@),
    ]
}

/// Where applications leave files under `home`.
pub fn leftover_locations(home: &str) -> (out: Vec<(&'static str, String)>)
    ensures
        out@.map_values(|t: (&'static str, String)| (t.0@, t.1@)) == leftover_locations_spec(home@),
{
    let out = vec![
        ("Application Support", join_exec(home, "Library/Application Support")),
        ("Caches", join_exec(home, "Library/Caches")),
        ("Preferences", join_exec(home, "Library/Preferences")),
        ("Logs", join_exec(home, "Library/Logs")),
        ("WebKit Storage", join_exec(home, "Library/WebKit")),
        ("Containers", join_exec(home, "Library/Containers")),
        ("Group Containers", join_exec(home, "Library/Group Containers")),
        ("Saved App State", join_exec(home, "Library/Saved Application State")),
        ("HTTPStorages", join_exec(home, "Library/HTTPStorages")),
        ("LaunchAgents", join_exec(home, "Library/LaunchAgents")),
        ("LaunchDaemons", "/Library/LaunchDaemons".to_string()),
        ("Privileged Helper Tools", "/Library/PrivilegedHelperTools".to_string()),
    ];
    assert(out@.map_values(|t: (&'static str, String)| (t.0@, t.1@)) =~= leftover_locations_spec(home@));
    out
}

/// Whether an entry (its name lower-cased) belongs to an application (its name, and its
/// bundle identifier when it has one, lower-cased): the entry's name contains either.
pub open spec fn leftover_match(file_lower: Seq<char>, app_lower: Seq<char>, bundle_lower: Option<Seq<char>>) -> bool {
    contains_seq(file_lower, app_lower) || match bundle_lower {
        Some(b) => contains_seq(file_lower, b),
        None => false,
    }
}

/// Whether an entry belongs to an application, all names already lower-cased.
pub fn leftover_match_lower(file_lower: &str, app_lower: &str, bundle_lower: Option<&str>) -> (r: bool)
    ensures
        contains_seq(file_lower@, app_lower@) ==> r,
        bundle_lower matches Some(b) && contains_seq(file_lower@, b@) ==> r,
        r == leftover_match(
            file_lower@,
            app_lower@,
            match bundle_lower {
                Some(b) => Some(b@),
                None => None,
            },
        ),
{
    contains_str(file_lower, app_lower) || match bundle_lower {
        Some(b) => contains_str(file_lower, b),
        None => false,
    }
}

/// An entry is a leftover of an application exactly when its (lower-cased) name contains
/// the application's (lower-cased) name, or contains its (lower-cased) bundle identifier
/// when it has one; the bundle identifier alone suffices, whatever the name.
pub proof fn lemma_leftover_by_name_or_bundle(
    file_lower: Seq<char>,
    app_lower: Seq<char>,
    bundle_lower: Option<Seq<char>>,
)
    ensures
        contains_seq(file_lower, app_lower) ==> leftover_match(file_lower, app_lower, bundle_lower),
        bundle_lower matches Some(b) && contains_seq(file_lower, b) ==> leftover_match(
            file_lower,
            app_lower,
            bundle_lower,
        ),
        !contains_seq(file_lower, app_lower) && (bundle_lower matches Some(b) ==> !contains_seq(file_lower, b))
            ==> !leftover_match(file_lower, app_lower, bundle_lower),
{
}

/// Whether the entry named `file_name` in a leftover location belongs to `app`.
pub fn is_leftover(file_name: &str, app: &InstalledApp) -> (r: bool)
    ensures
        app.bundle_id matches Some(b) && contains_seq(unicode_lowercase(file_name@), unicode_lowercase(b@)) ==> r,
        contains_seq(unicode_lowercase(file_name@), unicode_lowercase(app.name@)) ==> r,
        r == leftover_match(
            unicode_lowercase(file_name@),
            unicode_lowercase(app.name@),
            match app.bundle_id {
                Some(b) => Some(unicode_lowercase(b@)),
                None => None,
            },
        ),
{
    let f = to_lowercase(file_name);
    let a = to_lowercase(app.name.as_str());
    match &app.bundle_id {
        Some(b) => {
            let bl = to_lowercase(b.as_str());
            leftover_match_lower(f.as_str(), a.as_str(), Some(bl.as_str()))
        },
        None => leftover_match_lower(f.as_str(), a.as_str(), None),
    }
}

/// A file or folder an application left behind.
pub struct AppRemnant {
    pub location_type: &'static str,
    pub path: String,
    pub size_bytes: u64,
}

impl SizedItem for AppRemnant {
    open spec fn size_of(&self) -> u64 {
        self.size_bytes
    }

    fn size(&self) -> (r: u64) {
        self.size_bytes
    }
}

impl Located for AppRemnant {
    open spec fn path_of(&self) -> Seq<char> {
        self.path@
    }

    fn path_str(&self) -> (r: &str) {
        self.path.as_str()
    }
}

/// What uninstalling touches: whether the bundle may go, which remnants may go, and the
/// total size of what may go (`None` when it does not fit in 64 bits).
pub fn plan_uninstall(validator: &PathValidator, app: &InstalledApp, remnants: &Vec<AppRemnant>) -> (r: Option<
    (u64, bool, Vec<bool>),
>)
    ensures
        ({
            let app_ok = deletable(validator@, app.path@);
            let total = (if app_ok {
                app.size_bytes as int
            } else {
                0
            }) + deletable_total(validator@, remnants@);
            match r {
                Some((t, ok, flags)) => t == total && ok == app_ok && flags@ == remnants@.map_values(
                    |x: AppRemnant| deletable(validator@, x.path_of()),
                ),
                None => total > u64::MAX,
            }
        }),
{
    let app_ok = validator.is_safe_to_delete(app.path.as_str()).is_ok();
    let base: u64 = if app_ok {
        app.size_bytes
    } else {
        0
    };
    match plan_removals(validator, remnants) {
        None => None,
        Some((rest, flags)) => {
            if rest > u64::MAX - base {
                None
            } else {
                Some((base + rest, app_ok, flags))
            }
        },
    }
}

/// What a preview says of the application bundle.
pub fn app_dry_run_message(app: &InstalledApp) -> (m: String)
    ensures
        m@ == "[DRY RUN] Would remove application: "@ + app.path@,
{
    concat("[DRY RUN] Would remove application: ", app.path.as_str())
}

/// What is said once the application bundle is removed.
pub fn app_removed_message(app: &InstalledApp) -> (m: String)
    ensures
        m@ == "✓ Removed application: "@ + app.path@,
{
    concat("✓ Removed application: ", app.path.as_str())
}

/// What is said when the application bundle could not be removed.
pub fn app_failed_message(app: &InstalledApp) -> (m: String)
    ensures
        m@ == "✗ Failed to remove application: "@ + app.path@,
{
    concat("✗ Failed to remove application: ", app.path.as_str())
}

/// What a preview says of a remnant.
pub fn remnant_dry_run_message(r: &AppRemnant) -> (m: String)
    ensures
        m@ == "[DRY RUN] Would remove "@ + r.location_type@ + " remnant: "@ + r.path@,
{
    let mut m = concat("[DRY RUN] Would remove ", r.location_type);
    push_str(&mut m, " remnant: ");
    push_str(&mut m, r.path.as_str());
    m
}

/// What is said once a remnant is removed.
pub fn remnant_cleaned_message(r: &AppRemnant) -> (m: String)
    ensures
        m@ == "✓ Cleaned "@ + r.location_type@ + " remnant: "@ + r.path@,
{
    let mut m = concat("✓ Cleaned ", r.location_type);
    push_str(&mut m, " remnant: ");
    push_str(&mut m, r.path.as_str());
    m
}

/// What a preview says of a remnant.
pub open spec fn remnant_preview_text() -> spec_fn(AppRemnant) -> Seq<char> {
    |r: AppRemnant| "[DRY RUN] Would remove "@ + r.location_type@ + " remnant: "@ + r.path@
}

/// What is said of a remnant once removed.
pub open spec fn remnant_done_text() -> spec_fn(AppRemnant) -> Seq<char> {
    |r: AppRemnant| "✓ Cleaned "@ + r.location_type@ + " remnant: "@ + r.path@
}

/// The line about the application bundle: none when the plan keeps it; otherwise its
/// preview in a dry run, else whether its removal succeeded.
pub open spec fn app_log_line(app: InstalledApp, app_ok: bool, app_removed: bool, dry_run: bool) -> Seq<Seq<char>> {
    if !app_ok {
        Seq::empty()
    } else if dry_run {
        seq!["[DRY RUN] Would remove application: "@ + app.path@]
    } else if app_removed {
        seq!["✓ Removed application: "@ + app.path@]
    } else {
        seq!["✗ Failed to remove application: "@ + app.path@]
    }
}

/// The lines an uninstall reports: the application bundle's line, then one per remnant
/// that the plan lets go and (outside a dry run) that was removed.
pub fn uninstall_log(
    app: &InstalledApp,
    app_ok: bool,
    app_removed: bool,
    remnants: &Vec<AppRemnant>,
    flags: &Vec<bool>,
    removed: &Vec<bool>,
    dry_run: bool,
) -> (out: Vec<String>)
    ensures
        out@.map_values(|s: String| s@) == app_log_line(*app, app_ok, app_removed, dry_run) + removal_log(
            remnants@,
            flags@,
            removed@,
            dry_run,
            remnant_preview_text(),
            remnant_done_text(),
        ),
{
    let mut out: Vec<String> = Vec::new();
    if app_ok {
        if dry_run {
            out.push(app_dry_run_message(app));
        } else if app_removed {
            out.push(app_removed_message(app));
        } else {
            out.push(app_failed_message(app));
        }
    }
    let ghost head = app_log_line(*app, app_ok, app_removed, dry_run);
    assert(out@.map_values(|s: String| s@) =~= head);
    let mut i: usize = 0;
    while i < remnants.len()
        invariant
            i <= remnants.len(),
            head == app_log_line(*app, app_ok, app_removed, dry_run),
            out@.map_values(|s: String| s@) == head + removal_log(
                remnants@.take(i as int),
                flags@,
                removed@,
                dry_run,
                remnant_preview_text(),
                remnant_done_text(),
            ),
        decreases remnants.len() - i,
    {
        assert(remnants@.take(i + 1).drop_last() =~= remnants@.take(i as int));
        assert(remnants@.take(i + 1).last() == remnants@[i as int]);
        let ghost before = out@.map_values(|s: String| s@);
        let ghost rest = removal_log(
            remnants@.take(i as int),
            flags@,
            removed@,
            dry_run,
            remnant_preview_text(),
            remnant_done_text(),
        );
        match log_choice(flags, removed, dry_run, i) {
            Some(true) => {
                let m = remnant_dry_run_message(&remnants[i]);
                out.push(m);
                assert(out@.map_values(|s: String| s@) =~= before.push(remnant_preview_text()(remnants@[i as int])));
                assert(head + rest.push(remnant_preview_text()(remnants@[i as int])) =~= (head + rest).push(
                    remnant_preview_text()(remnants@[i as int]),
                ));
            },
            Some(false) => {
                let m = remnant_cleaned_message(&remnants[i]);
                out.push(m);
                assert(out@.map_values(|s: String| s@) =~= before.push(remnant_done_text()(remnants@[i as int])));
                assert(head + rest.push(remnant_done_text()(remnants@[i as int])) =~= (head + rest).push(
                    remnant_done_text()(remnants@[i as int]),
                ));
            },
            None => {},
        }
        i = i + 1;
    }
    assert(remnants@.take(remnants.len() as int) =~= remnants@);
    out
}

} // verus!
