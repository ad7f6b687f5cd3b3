use vstd::prelude::*;

pub mod analysis;
pub mod clean;
pub mod cli;
pub mod config;
pub mod format;
pub mod heap;
pub mod history;
pub mod home;
pub mod installer;
pub mod menubar;
pub mod optimize;
pub mod order;
pub mod path;
pub mod prefs;
pub mod public_ip;
pub mod purge;
pub mod removal;
pub mod safety;
pub mod smc;
pub mod sensors;
pub mod text;
pub mod touchid;
pub mod tui;
pub mod uninstall;
pub mod window;

verus! {
} // verus!
