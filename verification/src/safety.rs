//! Deletion safety: protected applications, and which paths may be deleted.
use vstd::prelude::*;

use crate::home::home_or_root;
use crate::path::{join, join_exec, path_eq, path_eq_exec, path_starts_with, path_starts_with_exec};
use crate::text::{
    chars_of, concat, contains_seq, contains_str, eq_ignore_ascii_case,
    eq_ignore_ascii_case_seq, starts_with, str_eq, trim_end_matches, trim_end_matches_seq,
    trim_start_matches, trim_start_matches_seq,
};

verus! {

/// Critical macOS system applications and core utilities that must never be uninstalled.
pub open spec fn protected_system_apps() -> Seq<Seq<char>> {
    seq![
        "Finder"@,
        "Safari"@,
        "System Settings"@,
        "System Preferences"@,
        "App Store"@,
        "Terminal"@,
        "Console"@,
        "Activity Monitor"@,
        "Disk Utility"@,
        "Keychain Access"@,
        "Automator"@,
        "Shortcuts"@,
        "Time Machine"@,
        "Archive Utility"@,
        "pantau-app"@,
        "Pantau"@,
    ]
}

/// The names of the protected applications.
pub fn protected_system_app_names() -> (out: Vec<&'static str>)
    ensures
        out@.map_values(|s: &str| s@) == protected_system_apps(),
{
    let out = vec![
        "Finder",
        "Safari",
        "System Settings",
        "System Preferences",
        "App Store",
        "Terminal",
        "Console",
        "Activity Monitor",
        "Disk Utility",
        "Keychain Access",
        "Automator",
        "Shortcuts",
        "Time Machine",
        "Archive Utility",
        "pantau-app",
        "Pantau",
    ];
    assert(out@.map_values(|s: &str| s@) =~= protected_system_apps());
    out
}

/// Whether an application name (with or without trailing `".app"` suffixes) names a
/// protected application, ignoring ASCII case.
pub open spec fn is_protected_app_spec(app_name: Seq<char>) -> bool {
    let clean = trim_end_matches_seq(app_name, ".app"@);
    exists|i: int|
        0 <= i < protected_system_apps().len() && eq_ignore_ascii_case_seq(
            clean,
            #[trigger] protected_system_apps()[i],
        )
}

/// Whether an application may never be uninstalled.
pub fn is_protected_app(app_name: &str) -> (r: bool)
    ensures
        r == is_protected_app_spec(app_name@),
{
    let clean = trim_end_matches(app_name, ".app");
    let clean_chars = chars_of(clean.as_str());
    let names = protected_system_app_names();
    let mut i: usize = 0;
    while i < names.len()
        invariant
            0 <= i <= names.len(),
            names@.map_values(|s: &str| s@) == protected_system_apps(),
            clean_chars@ == trim_end_matches_seq(app_name@, ".app"@),
            forall|k: int|
                0 <= k < i ==> !eq_ignore_ascii_case_seq(
                    clean_chars@,
                    #[trigger] protected_system_apps()[k],
                ),
        decreases names.len() - i,
    {
        let name_chars = chars_of(names[i]);
        assert(protected_system_apps()[i as int] == names@[i as int]@);
        if eq_ignore_ascii_case(&clean_chars, &name_chars) {
            return true;
        }
        i = i + 1;
    }
    false
}

/// The abstract contents of a validator: the home directory and the whitelist patterns.
pub struct ValidatorView {
    pub home: Seq<char>,
    pub whitelist: Seq<Seq<char>>,
}

/// Decides which paths may be deleted.
pub struct PathValidator {
    home: String,
    whitelist: Vec<String>,
}

impl View for PathValidator {
    type V = ValidatorView;

    closed spec fn view(&self) -> ValidatorView {
        ValidatorView { home: self.home@, whitelist: self.whitelist@.map_values(|p: String| p@) }
    }
}

/// Top-level system directories (anything under `/System` too), and the home directory
/// itself, which are never deleted; paths are compared component by component, so a
/// trailing `/` or a doubled one makes no difference.
pub open spec fn is_protected_root(path: Seq<char>, home: Seq<char>) -> bool {
    ||| path_eq(path, "/"@)
    ||| path_starts_with(path, "/System"@)
    ||| path_eq(path, "/bin"@)
    ||| path_eq(path, "/sbin"@)
    ||| path_eq(path, "/usr"@)
    ||| path_eq(path, "/usr/bin"@)
    ||| path_eq(path, "/usr/sbin"@)
    ||| path_eq(path, "/etc"@)
    ||| path_eq(path, "/var"@)
    ||| path_eq(path, "/Library"@)
    ||| path_eq(path, "/Applications"@)
    ||| path_eq(path, "/Users"@)
    ||| path_eq(path, home)
}

/// The path a whitelist pattern protects: trailing `"/*"` and `'*'` removed, and a
/// leading `'~'` read as the home directory (its `"~/"` prefixes dropped).
pub open spec fn expand_pattern(home: Seq<char>, pattern: Seq<char>) -> Seq<char> {
    let pat = trim_end_matches_seq(trim_end_matches_seq(pattern, "/*"@), "*"@);
    if pat.len() > 0 && pat[0] == '~' {
        join(home, trim_start_matches_seq(pat, "~/"@))
    } else {
        pat
    }
}

/// Whether `path` and the path a pattern protects are the same, or one lies within the other.
pub open spec fn pattern_blocks(home: Seq<char>, pattern: Seq<char>, path: Seq<char>) -> bool {
    let e = expand_pattern(home, pattern);
    path_eq(path, e) || path_starts_with(path, e) || path_starts_with(e, path)
}

/// Whether some whitelist pattern protects `path`.
pub open spec fn whitelist_blocks(home: Seq<char>, whitelist: Seq<Seq<char>>, path: Seq<char>) -> bool {
    exists|i: int| 0 <= i < whitelist.len() && #[trigger] pattern_blocks(home, whitelist[i], path)
}

/// The user's top-level folders, which are never deleted as a whole.
pub open spec fn is_user_root_folder(home: Seq<char>, path: Seq<char>) -> bool {
    ||| path_eq(path, join(home, "Desktop"@))
    ||| path_eq(path, join(home, "Documents"@))
    ||| path_eq(path, join(home, "Downloads"@))
    ||| path_eq(path, join(home, "Library"@))
    ||| path_eq(path, join(home, "Pictures"@))
    ||| path_eq(path, join(home, "Music"@))
    ||| path_eq(path, join(home, "Movies"@))
}

/// The verdict on deleting `path`, checks taken in order: system roots and home, path
/// traversal, the whitelist, then the user's top-level folders.
pub open spec fn safety_verdict(home: Seq<char>, whitelist: Seq<Seq<char>>, path: Seq<char>) -> Result<
    (),
    Seq<char>,
> {
    if is_protected_root(path, home) {
        Err("Protected system/home directory: "@ + path)
    } else if contains_seq(path, ".."@) {
        Err("Path traversal (..) not allowed"@)
    } else if whitelist_blocks(home, whitelist, path) {
        Err("Path is protected by whitelist: "@ + path)
    } else if is_user_root_folder(home, path) {
        Err("Direct user folder deletion prohibited: "@ + path)
    } else {
        Ok(())
    }
}

/// The path a whitelist pattern protects.
pub fn expand_pattern_exec(home: &str, pattern: &str) -> (out: String)
    ensures
        out@ == expand_pattern(home@, pattern@),
{
    let a = trim_end_matches(pattern, "/*");
    let pat = trim_end_matches(a.as_str(), "*");
    let pv = chars_of(pat.as_str());
    if pv.len() > 0 && pv[0] == '~' {
        let rel = trim_start_matches(pat.as_str(), "~/");
        join_exec(home, rel.as_str())
    } else {
        pat
    }
}

/// Whether `path` is one of the protected roots.
fn is_protected_root_exec(path: &str, home: &str) -> (r: bool)
    ensures
        r == is_protected_root(path@, home@),
{
    path_eq_exec(path, "/") || path_starts_with_exec(path, "/System") || path_eq_exec(path, "/bin")
        || path_eq_exec(path, "/sbin") || path_eq_exec(path, "/usr") || path_eq_exec(path, "/usr/bin")
        || path_eq_exec(path, "/usr/sbin") || path_eq_exec(path, "/etc") || path_eq_exec(path, "/var")
        || path_eq_exec(path, "/Library") || path_eq_exec(path, "/Applications") || path_eq_exec(
        path,
        "/Users",
    ) || path_eq_exec(path, home)
}

/// Whether `path` is the folder `name` under `home`.
fn is_home_folder(home: &str, name: &str, path: &str) -> (r: bool)
    ensures
        r == path_eq(path@, join(home@, name@)),
{
    let folder = join_exec(home, name);
    path_eq_exec(path, folder.as_str())
}

impl PathValidator {
    /// A validator for the current user's home directory.
    pub fn new(whitelist: Vec<String>) -> (v: PathValidator)
        ensures
            v@.whitelist == whitelist@.map_values(|p: String| p@),
    {
        PathValidator { home: home_or_root(), whitelist }
    }

    /// A validator for the given home directory.
    pub fn with_home(home: String, whitelist: Vec<String>) -> (v: PathValidator)
        ensures
            v@.home == home@,
            v@.whitelist == whitelist@.map_values(|p: String| p@),
    {
        PathValidator { home, whitelist }
    }

    /// Whether some whitelist pattern protects `path`.
    fn whitelist_blocks_exec(&self, path: &str) -> (r: bool)
        ensures
            r == whitelist_blocks(self@.home, self@.whitelist, path@),
    {
        let mut i: usize = 0;
        while i < self.whitelist.len()
            invariant
                0 <= i <= self.whitelist.len(),
                forall|k: int|
                    0 <= k < i ==> !#[trigger] pattern_blocks(
                        self@.home,
                        self@.whitelist[k],
                        path@,
                    ),
            decreases self.whitelist.len() - i,
        {
            assert(self@.whitelist[i as int] == self.whitelist@[i as int]@);
            let e = expand_pattern_exec(self.home.as_str(), self.whitelist[i].as_str());
            if path_eq_exec(path, e.as_str()) || path_starts_with_exec(path, e.as_str())
                || path_starts_with_exec(e.as_str(), path) {
                assert(pattern_blocks(self@.home, self@.whitelist[i as int], path@));
                return true;
            }
            i = i + 1;
        }
        false
    }

    /// Whether `path` may be deleted; the error says why not.
    pub fn is_safe_to_delete(&self, path: &str) -> (r: Result<(), String>)
        ensures
            path_eq(path@, join(self@.home, "Desktop"@)) || path_eq(path@, join(self@.home, "Documents"@)) || path_eq(
                path@,
                join(self@.home, "Downloads"@),
            ) || path_eq(path@, join(self@.home, "Library"@)) || path_eq(path@, join(self@.home, "Pictures"@))
                || path_eq(path@, join(self@.home, "Music"@)) || path_eq(path@, join(self@.home, "Movies"@)) ==> r is Err,
            match r {
                Ok(()) => safety_verdict(self@.home, self@.whitelist, path@) is Ok,
                Err(e) => safety_verdict(self@.home, self@.whitelist, path@) == Err::<(), Seq<char>>(e@),
            },
    {
        proof {
            lemma_user_folders_never_safe(self@.home, self@.whitelist, path@);
        }
        let home = self.home.as_str();
        if is_protected_root_exec(path, home) {
            return Err(concat("Protected system/home directory: ", path));
        }
        if contains_str(path, "..") {
            return Err("Path traversal (..) not allowed".to_owned());
        }
        if self.whitelist_blocks_exec(path) {
            return Err(concat("Path is protected by whitelist: ", path));
        }
        if is_home_folder(home, "Desktop", path) || is_home_folder(home, "Documents", path)
            || is_home_folder(home, "Downloads", path) || is_home_folder(home, "Library", path)
            || is_home_folder(home, "Pictures", path) || is_home_folder(home, "Music", path)
            || is_home_folder(home, "Movies", path) {
            return Err(concat("Direct user folder deletion prohibited: ", path));
        }
        Ok(())
    }

    /// Whether a symbolic link is safe, given its target when `path` is one: a link
    /// whose target may not be deleted is unsafe; anything else is safe.
    pub fn is_symlink_safe(&self, link_target: Option<&str>) -> (r: bool)
        ensures
            r == match link_target {
                Some(t) => safety_verdict(self@.home, self@.whitelist, t@) is Ok,
                None => true,
            },
    {
        match link_target {
            Some(t) => self.is_safe_to_delete(t).is_ok(),
            None => true,
        }
    }
}

/// A path under a whitelisted pattern, or containing one, is never safe to delete.
pub proof fn lemma_whitelisted_never_safe(
    home: Seq<char>,
    whitelist: Seq<Seq<char>>,
    path: Seq<char>,
    i: int,
)
    requires
        0 <= i < whitelist.len(),
        pattern_blocks(home, whitelist[i], path),
    ensures
        safety_verdict(home, whitelist, path) is Err,
{
    assert(whitelist_blocks(home, whitelist, path));
}

/// A path judged safe is not a protected root, holds no `".."`, and is protected by no
/// whitelist pattern.
pub proof fn lemma_safe_path_properties(home: Seq<char>, whitelist: Seq<Seq<char>>, path: Seq<char>)
    requires
        safety_verdict(home, whitelist, path) is Ok,
    ensures
        !is_protected_root(path, home),
        path != home,
        path != "/"@,
        !contains_seq(path, ".."@),
        forall|i: int| 0 <= i < whitelist.len() ==> !#[trigger] pattern_blocks(home, whitelist[i], path),
        !is_user_root_folder(home, path),
{
}

/// Whatever the home directory and the whitelist, the user's top-level folders (Desktop,
/// Documents, Downloads, Library, Pictures, Music, Movies), compared component by
/// component, are never safe to delete; nor are the home directory, `/` and the
/// top-level system directories.
pub proof fn lemma_user_folders_never_safe(home: Seq<char>, whitelist: Seq<Seq<char>>, path: Seq<char>)
    ensures
        path_eq(path, join(home, "Desktop"@)) || path_eq(path, join(home, "Documents"@)) || path_eq(
            path,
            join(home, "Downloads"@),
        ) || path_eq(path, join(home, "Library"@)) || path_eq(path, join(home, "Pictures"@)) || path_eq(
            path,
            join(home, "Music"@),
        ) || path_eq(path, join(home, "Movies"@)) ==> safety_verdict(home, whitelist, path) is Err,
        path_eq(path, home) || path_eq(path, "/"@) || path_starts_with(path, "/System"@) || path_eq(path, "/usr"@)
            || path_eq(path, "/bin"@) || path_eq(path, "/sbin"@) || path_eq(path, "/etc"@) || path_eq(path, "/var"@)
            || path_eq(path, "/Library"@) || path_eq(path, "/Applications"@) || path_eq(path, "/Users"@) || path_eq(
            path,
            "/usr/bin"@,
        ) || path_eq(path, "/usr/sbin"@) ==> safety_verdict(home, whitelist, path) is Err,
{
}

/// Adding a pattern to the whitelist never makes an unsafe path safe.
pub proof fn lemma_whitelist_growth_keeps_unsafe(
    home: Seq<char>,
    whitelist: Seq<Seq<char>>,
    extra: Seq<char>,
    path: Seq<char>,
)
    requires
        safety_verdict(home, whitelist, path) is Err,
    ensures
        safety_verdict(home, whitelist.push(extra), path) is Err,
{
    if whitelist_blocks(home, whitelist, path) {
        let i = choose|i: int| 0 <= i < whitelist.len() && #[trigger] pattern_blocks(home, whitelist[i], path);
        assert(whitelist.push(extra)[i] == whitelist[i]);
        assert(whitelist_blocks(home, whitelist.push(extra), path));
    }
}

} // verus!
