use vstd::prelude::*;

pub mod text;
pub mod lcs;
pub mod diff3;
pub mod resolve;
pub mod log;
pub mod topology;
pub mod status;
pub mod hunk;
pub mod precommit;
pub mod error;
pub mod rebase;
pub mod config;
pub mod git;
pub mod repo;
pub mod remote;
pub mod tags;
pub mod reset;
pub mod stage;
pub mod diff;
pub mod clean;
pub mod commit;
pub mod push;
pub mod conflict;
pub mod stash;
pub mod branch;
pub mod update;
pub mod submodule;
pub mod blame;
pub mod changes;
pub mod merged;
pub mod clone;
pub mod filetree;
pub mod present;
pub mod ui;
pub mod clipboard;
pub mod history;

verus! {
} // verus!
