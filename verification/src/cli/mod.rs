//! Command-line facing logic: argument values and parsers, the simulation
//! run, seed exploration, timeline diffs, the configuration file, the RBAC
//! manifest and the pieces of report text.

pub mod args;
pub mod rbac;
pub mod report;
pub mod demo;
pub mod init;
pub mod inject;
pub mod dst;
pub mod dst_run;
pub mod explore;
pub mod diff;
pub mod config_file;
