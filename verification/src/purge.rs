//! Build artifacts of projects (dependency folders, build outputs) that can be purged.
use vstd::prelude::*;

use crate::format::{format_bytes, format_bytes_spec};
use crate::order::{by_size_desc, sort_by_size_desc, SizedItem};
use crate::path::{components, components_of, SpecComponent, Component, comps_view};
use crate::removal::{log_choice, removal_log, Located};
use crate::text::{chars_of, concat, push_str, str_eq, string_of};

verus! {

/// A build artifact found in a project.
pub struct ProjectArtifact {
    pub project_name: String,
    pub artifact_type: &'static str,
    pub path: String,
    pub size_bytes: u64,
    pub is_recent: bool,
}

impl View for ProjectArtifact {
    type V = (Seq<char>, Seq<char>, Seq<char>, u64, bool);

    open spec fn view(&self) -> (Seq<char>, Seq<char>, Seq<char>, u64, bool) {
        (self.project_name@, self.artifact_type@, self.path@, self.size_bytes, self.is_recent)
    }
}

impl SizedItem for ProjectArtifact {
    open spec fn size_of(&self) -> u64 {
        self.size_bytes
    }

    fn size(&self) -> (r: u64) {
        self.size_bytes
    }
}

impl Located for ProjectArtifact {
    open spec fn path_of(&self) -> Seq<char> {
        self.path@
    }

    fn path_str(&self) -> (r: &str) {
        self.path.as_str()
    }
}

/// The folder names that are build artifacts, with what each holds.
pub open spec fn artifact_names() -> Seq<(Seq<char>, Seq<char>)> {
    seq![
        ("node_modules"@, "Node.js Dependencies"@),
        ("target"@, "Rust / Cargo Build"@),
        (".build"@, "Swift / SPM Build"@),
        ("build"@, "Build Output"@),
        ("dist"@, "Distribution Bundle"@),
        (".next"@, "Next.js Build"@),
        (".turbo"@, "Turborepo Cache"@),
        (".nuxt"@, "Nuxt Build"@),
        ("venv"@, "Python Virtualenv"@),
        (".venv"@, "Python Virtualenv"@),
        (".gradle"@, "Gradle Cache"@),
        ("DerivedData"@, "Xcode DerivedData"@),
    ]
}

fn artifact_table() -> (out: Vec<(&'static str, &'static str)>)
    ensures
        out@.map_values(|t: (&'static str, &'static str)| (t.0@, t.1@)) == artifact_names(),
{
    let out = vec![
        ("node_modules", "Node.js Dependencies"),
        ("target", "Rust / Cargo Build"),
        (".build", "Swift / SPM Build"),
        ("build", "Build Output"),
        ("dist", "Distribution Bundle"),
        (".next", "Next.js Build"),
        (".turbo", "Turborepo Cache"),
        (".nuxt", "Nuxt Build"),
        ("venv", "Python Virtualenv"),
        (".venv", "Python Virtualenv"),
        (".gradle", "Gradle Cache"),
        ("DerivedData", "Xcode DerivedData"),
    ];
    assert(out@.map_values(|t: (&'static str, &'static str)| (t.0@, t.1@)) =~= artifact_names());
    out
}

/// What a folder named `name` holds, when it is an artifact: the description of the
/// first matching name.
pub open spec fn artifact_type_spec(name: Seq<char>) -> Option<Seq<char>> {
    let t = artifact_names();
    if exists|i: int| 0 <= i < t.len() && #[trigger] t[i].0 == name {
        let i = choose|i: int|
            0 <= i < t.len() && #[trigger] t[i].0 == name && forall|j: int| 0 <= j < i ==> t[j].0 != name;
        Some(t[i].1)
    } else {
        None
    }
}

/// The description of a listed name is that of its first listing.
proof fn lemma_first_listing(name: Seq<char>, k: int)
    requires
        0 <= k < artifact_names().len(),
        artifact_names()[k].0 == name,
        forall|j: int| 0 <= j < k ==> artifact_names()[j].0 != name,
    ensures
        artifact_type_spec(name) == Some(artifact_names()[k].1),
{
    let t = artifact_names();
    let i = choose|i: int| 0 <= i < t.len() && #[trigger] t[i].0 == name && forall|j: int| 0 <= j < i ==> t[j].0 != name;
    assert(0 <= k < t.len() && t[k].0 == name && forall|j: int| 0 <= j < k ==> t[j].0 != name);
    if i < k {
        assert(t[i].0 != name);
    } else if i > k {
        assert(t[k].0 != name);
    }
}

/// The build artifacts recognized, each folder name with what it holds: `node_modules`
/// (Node.js dependencies), `target` (Rust / Cargo), `.build` (Swift / SPM), `build`,
/// `dist`, `.next`, `.turbo`, `.nuxt`, `venv` and `.venv` (Python virtualenvs), `.gradle`
/// and `DerivedData` (Xcode); any other name is no artifact.
pub proof fn lemma_artifact_types(name: Seq<char>)
    ensures
        artifact_type_spec("node_modules"@) == Some("Node.js Dependencies"@),
        artifact_type_spec("target"@) == Some("Rust / Cargo Build"@),
        artifact_type_spec(".build"@) == Some("Swift / SPM Build"@),
        artifact_type_spec("build"@) == Some("Build Output"@),
        artifact_type_spec("dist"@) == Some("Distribution Bundle"@),
        artifact_type_spec(".next"@) == Some("Next.js Build"@),
        artifact_type_spec(".turbo"@) == Some("Turborepo Cache"@),
        artifact_type_spec(".nuxt"@) == Some("Nuxt Build"@),
        artifact_type_spec("venv"@) == Some("Python Virtualenv"@),
        artifact_type_spec(".venv"@) == Some("Python Virtualenv"@),
        artifact_type_spec(".gradle"@) == Some("Gradle Cache"@),
        artifact_type_spec("DerivedData"@) == Some("Xcode DerivedData"@),
        !(name == "node_modules"@ || name == "target"@ || name == ".build"@ || name == "build"@ || name == "dist"@
            || name == ".next"@ || name == ".turbo"@ || name == ".nuxt"@ || name == "venv"@ || name == ".venv"@
            || name == ".gradle"@ || name == "DerivedData"@) ==> artifact_type_spec(name) is None,
{
    reveal_strlit("node_modules");
    reveal_strlit("target");
    reveal_strlit(".build");
    reveal_strlit("build");
    reveal_strlit("dist");
    reveal_strlit(".next");
    reveal_strlit(".turbo");
    reveal_strlit(".nuxt");
    reveal_strlit("venv");
    reveal_strlit(".venv");
    reveal_strlit(".gradle");
    reveal_strlit("DerivedData");
    let t = artifact_names();
    assert(t[0].0 == "node_modules"@);
    assert("node_modules"@.len() == 12);
    assert(t[1].0 == "target"@);
    assert("target"@.len() == 6);
    assert(t[2].0 == ".build"@);
    assert(".build"@.len() == 6);
    assert(t[3].0 == "build"@);
    assert("build"@.len() == 5);
    assert(t[4].0 == "dist"@);
    assert("dist"@.len() == 4);
    assert(t[5].0 == ".next"@);
    assert(".next"@.len() == 5);
    assert(t[6].0 == ".turbo"@);
    assert(".turbo"@.len() == 6);
    assert(t[7].0 == ".nuxt"@);
    assert(".nuxt"@.len() == 5);
    assert(t[8].0 == "venv"@);
    assert("venv"@.len() == 4);
    assert(t[9].0 == ".venv"@);
    assert(".venv"@.len() == 5);
    assert(t[10].0 == ".gradle"@);
    assert(".gradle"@.len() == 7);
    assert(t[11].0 == "DerivedData"@);
    assert("DerivedData"@.len() == 11);
    lemma_first_listing("node_modules"@, 0);
    assert forall|j: int| 0 <= j < 1 implies t[j].0 != "target"@ by {
        if j == 0 {
            assert(t[0].0 != "target"@);
        }
    }
    lemma_first_listing("target"@, 1);
    assert forall|j: int| 0 <= j < 2 implies t[j].0 != ".build"@ by {
        if j == 0 {
            assert(t[0].0 != ".build"@);
        } else if j == 1 {
            assert("target"@[0] != ".build"@[0]);
            assert(t[1].0 != ".build"@);
        }
    }
    lemma_first_listing(".build"@, 2);
    assert forall|j: int| 0 <= j < 3 implies t[j].0 != "build"@ by {
        if j == 0 {
            assert(t[0].0 != "build"@);
        } else if j == 1 {
            assert(t[1].0 != "build"@);
        } else if j == 2 {
            assert(t[2].0 != "build"@);
        }
    }
    lemma_first_listing("build"@, 3);
    assert forall|j: int| 0 <= j < 4 implies t[j].0 != "dist"@ by {
        if j == 0 {
            assert(t[0].0 != "dist"@);
        } else if j == 1 {
            assert(t[1].0 != "dist"@);
        } else if j == 2 {
            assert(t[2].0 != "dist"@);
        } else if j == 3 {
            assert(t[3].0 != "dist"@);
        }
    }
    lemma_first_listing("dist"@, 4);
    assert forall|j: int| 0 <= j < 5 implies t[j].0 != ".next"@ by {
        if j == 0 {
            assert(t[0].0 != ".next"@);
        } else if j == 1 {
            assert(t[1].0 != ".next"@);
        } else if j == 2 {
            assert(t[2].0 != ".next"@);
        } else if j == 3 {
            assert("build"@[0] != ".next"@[0]);
            assert(t[3].0 != ".next"@);
        } else if j == 4 {
            assert(t[4].0 != ".next"@);
        }
    }
    lemma_first_listing(".next"@, 5);
    assert forall|j: int| 0 <= j < 6 implies t[j].0 != ".turbo"@ by {
        if j == 0 {
            assert(t[0].0 != ".turbo"@);
        } else if j == 1 {
            assert("target"@[0] != ".turbo"@[0]);
            assert(t[1].0 != ".turbo"@);
        } else if j == 2 {
            assert(".build"@[1] != ".turbo"@[1]);
            assert(t[2].0 != ".turbo"@);
        } else if j == 3 {
            assert(t[3].0 != ".turbo"@);
        } else if j == 4 {
            assert(t[4].0 != ".turbo"@);
        } else if j == 5 {
            assert(t[5].0 != ".turbo"@);
        }
    }
    lemma_first_listing(".turbo"@, 6);
    assert forall|j: int| 0 <= j < 7 implies t[j].0 != ".nuxt"@ by {
        if j == 0 {
            assert(t[0].0 != ".nuxt"@);
        } else if j == 1 {
            assert(t[1].0 != ".nuxt"@);
        } else if j == 2 {
            assert(t[2].0 != ".nuxt"@);
        } else if j == 3 {
            assert("build"@[0] != ".nuxt"@[0]);
            assert(t[3].0 != ".nuxt"@);
        } else if j == 4 {
            assert(t[4].0 != ".nuxt"@);
        } else if j == 5 {
            assert(".next"@[2] != ".nuxt"@[2]);
            assert(t[5].0 != ".nuxt"@);
        } else if j == 6 {
            assert(t[6].0 != ".nuxt"@);
        }
    }
    lemma_first_listing(".nuxt"@, 7);
    assert forall|j: int| 0 <= j < 8 implies t[j].0 != "venv"@ by {
        if j == 0 {
            assert(t[0].0 != "venv"@);
        } else if j == 1 {
            assert(t[1].0 != "venv"@);
        } else if j == 2 {
            assert(t[2].0 != "venv"@);
        } else if j == 3 {
            assert(t[3].0 != "venv"@);
        } else if j == 4 {
            assert("dist"@[0] != "venv"@[0]);
            assert(t[4].0 != "venv"@);
        } else if j == 5 {
            assert(t[5].0 != "venv"@);
        } else if j == 6 {
            assert(t[6].0 != "venv"@);
        } else if j == 7 {
            assert(t[7].0 != "venv"@);
        }
    }
    lemma_first_listing("venv"@, 8);
    assert forall|j: int| 0 <= j < 9 implies t[j].0 != ".venv"@ by {
        if j == 0 {
            assert(t[0].0 != ".venv"@);
        } else if j == 1 {
            assert(t[1].0 != ".venv"@);
        } else if j == 2 {
            assert(t[2].0 != ".venv"@);
        } else if j == 3 {
            assert("build"@[0] != ".venv"@[0]);
            assert(t[3].0 != ".venv"@);
        } else if j == 4 {
            assert(t[4].0 != ".venv"@);
        } else if j == 5 {
            assert(".next"@[1] != ".venv"@[1]);
            assert(t[5].0 != ".venv"@);
        } else if j == 6 {
            assert(t[6].0 != ".venv"@);
        } else if j == 7 {
            assert(".nuxt"@[1] != ".venv"@[1]);
            assert(t[7].0 != ".venv"@);
        } else if j == 8 {
            assert(t[8].0 != ".venv"@);
        }
    }
    lemma_first_listing(".venv"@, 9);
    assert forall|j: int| 0 <= j < 10 implies t[j].0 != ".gradle"@ by {
        if j == 0 {
            assert(t[0].0 != ".gradle"@);
        } else if j == 1 {
            assert(t[1].0 != ".gradle"@);
        } else if j == 2 {
            assert(t[2].0 != ".gradle"@);
        } else if j == 3 {
            assert(t[3].0 != ".gradle"@);
        } else if j == 4 {
            assert(t[4].0 != ".gradle"@);
        } else if j == 5 {
            assert(t[5].0 != ".gradle"@);
        } else if j == 6 {
            assert(t[6].0 != ".gradle"@);
        } else if j == 7 {
            assert(t[7].0 != ".gradle"@);
        } else if j == 8 {
            assert(t[8].0 != ".gradle"@);
        } else if j == 9 {
            assert(t[9].0 != ".gradle"@);
        }
    }
    lemma_first_listing(".gradle"@, 10);
    assert forall|j: int| 0 <= j < 11 implies t[j].0 != "DerivedData"@ by {
        if j == 0 {
            assert(t[0].0 != "DerivedData"@);
        } else if j == 1 {
            assert(t[1].0 != "DerivedData"@);
        } else if j == 2 {
            assert(t[2].0 != "DerivedData"@);
        } else if j == 3 {
            assert(t[3].0 != "DerivedData"@);
        } else if j == 4 {
            assert(t[4].0 != "DerivedData"@);
        } else if j == 5 {
            assert(t[5].0 != "DerivedData"@);
        } else if j == 6 {
            assert(t[6].0 != "DerivedData"@);
        } else if j == 7 {
            assert(t[7].0 != "DerivedData"@);
        } else if j == 8 {
            assert(t[8].0 != "DerivedData"@);
        } else if j == 9 {
            assert(t[9].0 != "DerivedData"@);
        } else if j == 10 {
            assert(t[10].0 != "DerivedData"@);
        }
    }
    lemma_first_listing("DerivedData"@, 11);
}

/// What a folder named `name` holds, when it is a build artifact.
pub fn artifact_type_for(name: &str) -> (out: Option<&'static str>)
    ensures
        match out {
            Some(d) => artifact_type_spec(name@) == Some(d@),
            None => artifact_type_spec(name@) is None,
        },
{
    let t = artifact_table();
    let ghost tv = artifact_names();
    let mut i: usize = 0;
    while i < t.len()
        invariant
            i <= t.len(),
            t@.map_values(|t: (&'static str, &'static str)| (t.0@, t.1@)) == tv,
            tv == artifact_names(),
            forall|j: int| 0 <= j < i ==> tv[j].0 != name@,
        decreases t.len() - i,
    {
        assert(tv[i as int] == (t@[i as int].0@, t@[i as int].1@));
        if str_eq(t[i].0, name) {
            proof {
                let k = choose|k: int|
                    0 <= k < tv.len() && #[trigger] tv[k].0 == name@ && forall|j: int| 0 <= j < k ==> tv[j].0 != name@;
                assert(0 <= i < tv.len() && tv[i as int].0 == name@ && forall|j: int| 0 <= j < i ==> tv[j].0 != name@);
                if k < i {
                } else if k > i {
                    assert(tv[i as int].0 != name@);
                }
            }
            return Some(t[i].1);
        }
        i = i + 1;
    }
    None
}

/// Folders the scan does not enter: version control metadata.
pub open spec fn is_vcs_dir(name: Seq<char>) -> bool {
    name == ".git"@ || name == ".hg"@ || name == ".svn"@
}

/// Whether the scan skips a folder with this name.
pub fn is_vcs_dir_exec(name: &str) -> (r: bool)
    ensures
        r == is_vcs_dir(name@),
        r <==> (name@ == ".git"@ || name@ == ".hg"@ || name@ == ".svn"@),
{
    str_eq(name, ".git") || str_eq(name, ".hg") || str_eq(name, ".svn")
}

/// The project an artifact belongs to: the name of the folder holding it (the file name
/// of its parent), or the empty string when there is none.
pub open spec fn project_name_spec(path: Seq<char>) -> Seq<char> {
    let c = components(path);
    if c.len() >= 2 && c[c.len() - 2] is Normal {
        c[c.len() - 2]->Normal_0
    } else {
        Seq::empty()
    }
}

/// The name of the folder holding `path`.
pub fn project_name_of(path: &str) -> (out: String)
    ensures
        out@ == project_name_spec(path@),
{
    let c = components_of(&chars_of(path));
    let n = c.len();
    if n < 2 {
        return String::new();
    }
    let ghost cv = comps_view(c@);
    assert(cv[n - 2] == c@[n - 2].view());
    match &c[n - 2] {
        Component::Normal(v) => string_of(v, 0, v.len()),
        _ => String::new(),
    }
}

/// Artifacts of at most this many bytes (1 MiB) are not listed.
pub open spec fn artifact_min_size() -> u64 {
    1048576
}

/// The artifact found at `path`, of the given type and size: listed when it is over
/// 1 MiB.
pub fn make_artifact(path: &str, artifact_type: &'static str, size_bytes: u64, is_recent: bool) -> (out: Option<
    ProjectArtifact,
>)
    ensures
        size_bytes > artifact_min_size() ==> (out matches Some(a) && a@ == (
            project_name_spec(path@),
            artifact_type@,
            path@,
            size_bytes,
            is_recent,
        )),
        size_bytes <= artifact_min_size() ==> out is None,
        size_bytes > 1048576 ==> out is Some,
        size_bytes <= 1048576 ==> out is None,
{
    if size_bytes > 1048576 {
        Some(
            ProjectArtifact {
                project_name: project_name_of(path),
                artifact_type,
                path: path.to_string(),
                size_bytes,
                is_recent,
            },
        )
    } else {
        None
    }
}

/// The artifacts found, largest first (equal sizes keep their order).
pub fn sort_artifacts(items: Vec<ProjectArtifact>) -> (out: Vec<ProjectArtifact>)
    ensures
        out@ == by_size_desc(items@),
{
    sort_by_size_desc(items)
}

/// What a preview says of an artifact it would purge.
pub fn purge_dry_run_message(a: &ProjectArtifact) -> (m: String)
    ensures
        m@ == "[DRY RUN] Would purge "@ + a.project_name@ + " ("@ + a.artifact_type@ + "): "@ + a.path@,
{
    let mut m = concat("[DRY RUN] Would purge ", a.project_name.as_str());
    push_str(&mut m, " (");
    push_str(&mut m, a.artifact_type);
    push_str(&mut m, "): ");
    push_str(&mut m, a.path.as_str());
    m
}

/// What is said of an artifact once purged.
pub fn purged_message(a: &ProjectArtifact) -> (m: String)
    ensures
        m@ == "✓ Purged "@ + a.project_name@ + " ("@ + a.artifact_type@ + ") -> "@ + format_bytes_spec(
            a.size_bytes as nat,
        ),
{
    let mut m = concat("✓ Purged ", a.project_name.as_str());
    push_str(&mut m, " (");
    push_str(&mut m, a.artifact_type);
    push_str(&mut m, ") -> ");
    let size = format_bytes(a.size_bytes);
    push_str(&mut m, size.as_str());
    m
}

/// The selector's title for an artifact: `"<project> (<type>)"`.
pub fn artifact_title(a: &ProjectArtifact) -> (m: String)
    ensures
        m@ == a.project_name@ + " ("@ + a.artifact_type@ + ")"@,
{
    let mut m = concat(a.project_name.as_str(), " (");
    push_str(&mut m, a.artifact_type);
    push_str(&mut m, ")");
    m
}

/// What a preview says of an artifact.
pub open spec fn purge_preview_text() -> spec_fn(ProjectArtifact) -> Seq<char> {
    |a: ProjectArtifact| "[DRY RUN] Would purge "@ + a.project_name@ + " ("@ + a.artifact_type@ + "): "@ + a.path@
}

/// What is said of an artifact once removed.
pub open spec fn purged_text() -> spec_fn(ProjectArtifact) -> Seq<char> {
    |a: ProjectArtifact| "✓ Purged "@ + a.project_name@ + " ("@ + a.artifact_type@ + ") -> "@ + format_bytes_spec(a.size_bytes as nat)
}

/// The lines a purge reports, artifact by artifact (see `removal_log`).
pub fn purge_log(items: &Vec<ProjectArtifact>, flags: &Vec<bool>, removed: &Vec<bool>, dry_run: bool) -> (out: Vec<String>)
    ensures
        out@.map_values(|s: String| s@) == removal_log(items@, flags@, removed@, dry_run, purge_preview_text(), purged_text()),
{
    let mut out: Vec<String> = Vec::new();
    let mut i: usize = 0;
    while i < items.len()
        invariant
            i <= items.len(),
            out@.map_values(|s: String| s@) == removal_log(
                items@.take(i as int),
                flags@,
                removed@,
                dry_run,
                purge_preview_text(),
                purged_text(),
            ),
        decreases items.len() - i,
    {
        assert(items@.take(i + 1).drop_last() =~= items@.take(i as int));
        assert(items@.take(i + 1).last() == items@[i as int]);
        let ghost before = out@.map_values(|s: String| s@);
        match log_choice(flags, removed, dry_run, i) {
            Some(true) => {
                let m = purge_dry_run_message(&items[i]);
                out.push(m);
                assert(out@.map_values(|s: String| s@) =~= before.push(purge_preview_text()(items@[i as int])));
            },
            Some(false) => {
                let m = purged_message(&items[i]);
                out.push(m);
                assert(out@.map_values(|s: String| s@) =~= before.push(purged_text()(items@[i as int])));
            },
            None => {},
        }
        i = i + 1;
    }
    assert(items@.take(items.len() as int) =~= items@);
    out
}

} // verus!
