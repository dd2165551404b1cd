//! Decisions of the `wfadm` admin CLI: what it checks, asks and reports.
//! Reading files, talking to the engine and printing stay with the caller.

pub mod check;
pub mod config;
pub mod engine;
pub mod init;
pub mod self_update;
