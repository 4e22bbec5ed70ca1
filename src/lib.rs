//! Snapshot rotation for copy-on-write volumes: which snapshots to keep,
//! which to delete and in what order, and the settings and paths of a run.
pub mod config;
pub mod retention;
pub mod run;
