//! Disk cleanup driven by a manifest of directories: option parsing, manifest
//! reading, size accounting and the run's decisions, with machine-checked
//! contracts. Filesystem access is left to the caller.

pub mod args;
pub mod error;
pub mod manifest;
pub mod report;
pub mod run;
pub mod size;
pub mod stats;
pub mod text;
