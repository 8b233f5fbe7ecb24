//! Tools around Apple platform builds: the command lines for `xcodebuild`,
//! `xcrun` and `security`, the version numbers of a project file, and the
//! acknowledgements of the packages and people behind a project.
//!
//! Everything here computes on plain values; reading files, running
//! processes and writing the results is left to the caller.

pub mod artifacts;
pub mod bump_version;
pub mod commands;
pub mod common;
pub mod contributors;
pub mod errors;
pub mod packages;
pub mod report;
pub mod text;
pub mod text_map;
