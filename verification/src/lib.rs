//! Assembles a directory of markdown fragments into one logical document and
//! plans the invocation of an external converter for each output format.
//!
//! The crate covers the decision core of that pipeline: deterministic
//! discovery and natural ordering of fragments, front-matter extraction and
//! the cross-fragment metadata merge, converter argument assembly, dependency
//! validation, and the watch scheduler's state machine.  Filesystem walks,
//! subprocesses and network access live outside this crate; the functions
//! here take plain values and return plain values.

pub mod errors;
pub mod chars;
pub mod metadata;
pub mod natsort;
pub mod yaml;
pub mod discovery;
pub mod builders;
pub mod dependencies;
pub mod watcher;
pub mod config_file;
pub mod templates;
pub mod init;
pub mod diagrams;
