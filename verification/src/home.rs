//! The user's home directory, as the `directories` crate finds it.
use vstd::prelude::*;

use crate::path::{join, join_exec};

verus! {

#[verifier::external_type_specification]
#[verifier::external_body]
pub struct ExBaseDirs(directories::BaseDirs);

/// `directories::BaseDirs::new`. It reads the environment (`$HOME`, then the user
/// database), so nothing is stated of whether it finds a home directory.
#[verifier::external_body]
fn base_dirs_new() -> Option<directories::BaseDirs> {
    directories::BaseDirs::new()
}

/// `directories::BaseDirs::home_dir`, converted to a string (lossily, as
/// `Path::to_string_lossy` does). Which directory it names depends on the environment,
/// so nothing is stated of it.
#[verifier::external_body]
fn base_dirs_home_dir(dirs: &directories::BaseDirs) -> String {
    dirs.home_dir().to_string_lossy().into_owned()
}

/// The user's home directory, if the environment names one.
pub fn home_dir() -> Option<String> {
    match base_dirs_new() {
        Some(dirs) => Some(base_dirs_home_dir(&dirs)),
        None => None,
    }
}

/// The directory to work under: the home directory found, or `"/"` when none was.
pub fn home_or_root_from(found: Option<String>) -> (r: String)
    ensures
        match found {
            Some(h) => r@ == h@,
            None => r@ == seq!['/'],
        },
{
    match found {
        Some(h) => h,
        None => {
            let root = crate::text::string_of(&vec!['/'], 0, 1);
            assert(root@ =~= seq!['/']);
            root
        },
    }
}

/// The home directory, or `"/"` when none is known.
pub fn home_or_root() -> String {
    home_or_root_from(home_dir())
}

/// `sub` under `home`, or under `"/"` when no home directory is known.
pub open spec fn home_path(home: Option<Seq<char>>, sub: Seq<char>) -> Seq<char> {
    match home {
        Some(h) => join(h, sub),
        None => join(seq!['/'], sub),
    }
}

/// `sub` under `home`, or under `"/"` when no home directory is known.
pub fn home_path_exec(home: &Option<String>, sub: &str) -> (out: String)
    ensures
        out@ == home_path(
            match home {
                Some(h) => Some(h@),
                None => None,
            },
            sub@,
        ),
{
    match home {
        Some(h) => join_exec(h.as_str(), sub),
        None => {
            let root = crate::text::string_of(&vec!['/'], 0, 1);
            assert(root@ =~= seq!['/']);
            join_exec(root.as_str(), sub)
        },
    }
}

} // verus!
