//! Search orchestration core of a desktop quick-launcher.
//!
//! The library holds the decisions of the launcher: the generation counter
//! that tells current work from stale work, the debounce scheduler, the
//! decoder of backend icon payloads, the two-call backend query protocol,
//! fan-in of backend batches, and the orchestrator that gates what becomes
//! visible. Beside the search core it holds the launcher's local logic:
//! query modes and colon commands, desktop entries and their ranking,
//! settings, histories, the calculator's rewriting and bookmark trees.
//! Timers, D-Bus calls, files, processes and threads are driven by the caller.
use vstd::prelude::*;

pub mod generation;
pub mod debounce;
pub mod text;
pub mod icon;
pub mod provider;
pub mod orchestrator;
pub mod local;
pub mod app_mode;
pub mod history;
pub mod config;
pub mod launcher;
pub mod commands;
pub mod calculator;
pub mod bookmarks;

verus! {

} // verus!
