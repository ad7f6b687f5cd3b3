//! Raw installer files (disk images, packages) left in the usual download folders.
use vstd::prelude::*;

use crate::format::{format_bytes, format_bytes_spec};
use crate::order::{by_size_desc, sort_by_size_desc, SizedItem};
use crate::path::{extension, extension_exec, file_name, file_name_exec, join, join_exec};
use crate::removal::{log_choice, removal_log, Located};
use crate::text::{concat, push_str, str_eq, to_lowercase, unicode_lowercase};

verus! {

/// An installer file found by the scan.
pub struct InstallerFile {
    pub file_name: String,
    pub source_category: &'static str,
    pub path: String,
    pub size_bytes: u64,
}

impl View for InstallerFile {
    type V = (Seq<char>, Seq<char>, Seq<char>, u64);

    open spec fn view(&self) -> (Seq<char>, Seq<char>, Seq<char>, u64) {
        (self.file_name@, self.source_category@, self.path@, self.size_bytes)
    }
}

impl SizedItem for InstallerFile {
    open spec fn size_of(&self) -> u64 {
        self.size_bytes
    }

    fn size(&self) -> (r: u64) {
        self.size_bytes
    }
}

impl Located for InstallerFile {
    open spec fn path_of(&self) -> Seq<char> {
        self.path@
    }

    fn path_str(&self) -> (r: &str) {
        self.path.as_str()
    }
}

/// The folders searched for installers, with the category each is shown under.
pub open spec fn installer_sources_spec(home: Seq<char>) -> Seq<(Seq<char>, Seq<char>)> {
    seq![
        ("Downloads"@, join(home, "Downloads"@)),
        ("Desktop"@, join(home, "Desktop"@)),
        ("Documents"@, join(home, "Documents"@)),
        ("Homebrew Cache"@, join(home, "Library/Caches/Homebrew"@)),
        ("Mail Downloads"@, join(home, "Library/Containers/com.apple.mail/Data/Library/Mail Downloads"@)),
        ("Telegram Downloads"@, join(home, "Downloads/Telegram Desktop"@)),
    ]
}

/// The folders searched for installers under `home`, with their categories.
pub fn installer_sources(home: &str) -> (out: Vec<(&'static str, String)>)
    ensures
        out@.map_values(|t: (&'static str, String)| (t.0@, t.1@)) == installer_sources_spec(home@),
{
    let out = vec![
        ("Downloads", join_exec(home, "Downloads")),
        ("Desktop", join_exec(home, "Desktop")),
        ("Documents", join_exec(home, "Documents")),
        ("Homebrew Cache", join_exec(home, "Library/Caches/Homebrew")),
        ("Mail Downloads", join_exec(home, "Library/Containers/com.apple.mail/Data/Library/Mail Downloads")),
        ("Telegram Downloads", join_exec(home, "Downloads/Telegram Desktop")),
    ];
    assert(out@.map_values(|t: (&'static str, String)| (t.0@, t.1@)) =~= installer_sources_spec(home@));
    out
}

/// Whether a lower-cased extension is that of an installer: `dmg`, `pkg`, `mpkg`, `iso`,
/// `xip` or `zip`.
pub open spec fn is_installer_ext(lower: Seq<char>) -> bool {
    lower == "dmg"@ || lower == "pkg"@ || lower == "mpkg"@ || lower == "iso"@ || lower == "xip"@ || lower
        == "zip"@
}

/// Whether a lower-cased extension is that of an installer.
pub fn is_installer_ext_lower(lower: &str) -> (r: bool)
    ensures
        r == is_installer_ext(lower@),
{
    str_eq(lower, "dmg") || str_eq(lower, "pkg") || str_eq(lower, "mpkg") || str_eq(lower, "iso")
        || str_eq(lower, "xip") || str_eq(lower, "zip")
}

/// Installers smaller than this many bytes (5 MiB) are not listed.
pub open spec fn installer_min_size() -> u64 {
    5242880
}

/// The installer entry for a file at `path` with `size` bytes, given its extension
/// lower-cased: listed when the extension is an installer's and the file is over 5 MiB.
pub open spec fn installer_entry_spec(category: Seq<char>, path: Seq<char>, size: u64, lower_ext: Seq<char>) -> Option<
    (Seq<char>, Seq<char>, Seq<char>, u64),
> {
    if is_installer_ext(lower_ext) && size > installer_min_size() {
        let name = match file_name(path) {
            Some(n) => n,
            None => Seq::empty(),
        };
        Some((name, category, path, size))
    } else {
        None
    }
}

/// The installer entry for a file, given its extension already lower-cased.
pub fn installer_entry(category: &'static str, path: &str, size_bytes: u64, lower_ext: &str) -> (out: Option<
    InstallerFile,
>)
    ensures
        match out {
            Some(f) => installer_entry_spec(category@, path@, size_bytes, lower_ext@) == Some(f@),
            None => installer_entry_spec(category@, path@, size_bytes, lower_ext@) is None,
        },
{
    if is_installer_ext_lower(lower_ext) && size_bytes > 5242880 {
        let file_name = match file_name_exec(path) {
            Some(n) => n,
            None => String::new(),
        };
        Some(InstallerFile { file_name, source_category: category, path: path.to_string(), size_bytes })
    } else {
        None
    }
}

/// The installer entry for a file found in a scanned folder: files without an
/// extension are never listed; otherwise its extension is lower-cased and checked.
pub fn classify_installer(category: &'static str, path: &str, size_bytes: u64) -> (out: Option<InstallerFile>)
    ensures
        extension(path@) matches Some(e) && size_bytes > 5242880 && ({
            let l = unicode_lowercase(e);
            l == "dmg"@ || l == "pkg"@ || l == "mpkg"@ || l == "iso"@ || l == "xip"@ || l == "zip"@
        }) ==> (out matches Some(f) && f.path@ == path@ && f.size_bytes == size_bytes && f.source_category@ == category@),
        size_bytes <= 5242880 ==> out is None,
        extension(path@) is None ==> out is None,
        extension(path@) matches Some(e) ==> match out {
            Some(f) => installer_entry_spec(category@, path@, size_bytes, unicode_lowercase(e)) == Some(f@),
            None => installer_entry_spec(category@, path@, size_bytes, unicode_lowercase(e)) is None,
        },
{
    match extension_exec(path) {
        None => None,
        Some(ext) => {
            let lower = to_lowercase(ext.as_str());
            proof {
                lemma_installer_extensions(category@, path@, size_bytes, lower@);
            }
            installer_entry(category, path, size_bytes, lower.as_str())
        },
    }
}

/// A file is listed as an installer exactly when its lower-cased extension is one of
/// `dmg`, `pkg`, `mpkg`, `iso`, `xip`, `zip` and it is over 5 MiB; the entry keeps the
/// file's category, path and size.
pub proof fn lemma_installer_extensions(category: Seq<char>, path: Seq<char>, size: u64, lower_ext: Seq<char>)
    ensures
        size > 5242880 && (lower_ext == "dmg"@ || lower_ext == "pkg"@ || lower_ext == "mpkg"@ || lower_ext
            == "iso"@ || lower_ext == "xip"@ || lower_ext == "zip"@) ==> (installer_entry_spec(
            category,
            path,
            size,
            lower_ext,
        ) matches Some(f) && f.1 == category && f.2 == path && f.3 == size),
        size <= 5242880 ==> installer_entry_spec(category, path, size, lower_ext) is None,
        !(lower_ext == "dmg"@ || lower_ext == "pkg"@ || lower_ext == "mpkg"@ || lower_ext == "iso"@ || lower_ext
            == "xip"@ || lower_ext == "zip"@) ==> installer_entry_spec(category, path, size, lower_ext) is None,
{
}

/// The installers found, largest first (equal sizes keep their order).
pub fn sort_installers(files: Vec<InstallerFile>) -> (out: Vec<InstallerFile>)
    ensures
        out@ == by_size_desc(files@),
{
    sort_by_size_desc(files)
}

/// What a preview says of an installer it would remove.
pub fn installer_dry_run_message(f: &InstallerFile) -> (m: String)
    ensures
        m@ == "[DRY RUN] Would remove installer file: "@ + f.path@,
{
    concat("[DRY RUN] Would remove installer file: ", f.path.as_str())
}

/// What is said of an installer once removed.
pub fn installer_removed_message(f: &InstallerFile) -> (m: String)
    ensures
        m@ == "✓ Removed installer: "@ + f.file_name@ + " ("@ + format_bytes_spec(f.size_bytes as nat) + ")"@,
{
    let mut m = concat("✓ Removed installer: ", f.file_name.as_str());
    push_str(&mut m, " (");
    let size = format_bytes(f.size_bytes);
    push_str(&mut m, size.as_str());
    push_str(&mut m, ")");
    m
}

/// What a preview says of an installer.
pub open spec fn installer_preview_text() -> spec_fn(InstallerFile) -> Seq<char> {
    |a: InstallerFile| "[DRY RUN] Would remove installer file: "@ + a.path@
}

/// What is said of an installer once removed.
pub open spec fn installer_removed_text() -> spec_fn(InstallerFile) -> Seq<char> {
    |a: InstallerFile| "✓ Removed installer: "@ + a.file_name@ + " ("@ + format_bytes_spec(a.size_bytes as nat) + ")"@
}

/// The lines an installer removal reports, file by file (see `removal_log`).
pub fn installer_log(items: &Vec<InstallerFile>, flags: &Vec<bool>, removed: &Vec<bool>, dry_run: bool) -> (out: Vec<String>)
    ensures
        out@.map_values(|s: String| s@) == removal_log(items@, flags@, removed@, dry_run, installer_preview_text(), installer_removed_text()),
{
    let mut out: Vec<String> = Vec::new();
    let mut i: usize = 0;
    while i < items.len()
        invariant
            i <= items.len(),
            out@.map_values(|s: String| s@) == removal_log(
                items@.take(i as int),
                flags@,
                removed@,
                dry_run,
                installer_preview_text(),
                installer_removed_text(),
            ),
        decreases items.len() - i,
    {
        assert(items@.take(i + 1).drop_last() =~= items@.take(i as int));
        assert(items@.take(i + 1).last() == items@[i as int]);
        let ghost before = out@.map_values(|s: String| s@);
        match log_choice(flags, removed, dry_run, i) {
            Some(true) => {
                let m = installer_dry_run_message(&items[i]);
                out.push(m);
                assert(out@.map_values(|s: String| s@) =~= before.push(installer_preview_text()(items@[i as int])));
            },
            Some(false) => {
                let m = installer_removed_message(&items[i]);
                out.push(m);
                assert(out@.map_values(|s: String| s@) =~= before.push(installer_removed_text()(items@[i as int])));
            },
            None => {},
        }
        i = i + 1;
    }
    assert(items@.take(items.len() as int) =~= items@);
    out
}

} // verus!
