//! Charon installs the files that a manifest names into the locations of a
//! Mythos system, and removes what an earlier run installed and the
//! manifest no longer names.
//!
//! The library decides and accounts. It changes nothing on disk, reads no
//! file and no environment variable: what stands at a path reaches it as a
//! `PathFact`, what the environment says as a `DirEnv` or as `Locations`,
//! and what happened to a copy or to a new directory as an `Observation`.
//!
//! Two of its calls look outside the process. Asking `glob` whether it
//! accepts a pattern makes `glob` look at the directory that the pattern
//! starts from, and stamping a log entry makes `chrono` read the clock and
//! the time zone.

use vstd::prelude::*;

pub mod action;
pub mod cli;
pub mod conf;
pub mod dirs;
pub mod engine;
pub mod laws;
pub mod locate;
pub mod logger;
pub mod manifest;
pub mod opts;
pub mod paths;
pub mod record;
pub mod record_laws;
pub mod resolve;
pub mod text;

verus! {

/// The name under which the installer logs.
pub const UTIL_ID: &'static str = "CHARON";

} // verus!
