//! Audits shared-object binaries against the host's dynamic-linker cache.
//!
//! The pipeline: classify files as ELF by their leading bytes, extract each
//! ELF binary's declared shared-library dependencies from its dynamic
//! section, build a name-to-path index from the textual output of the
//! system's library-cache lister, resolve each dependency name against that
//! index, and render the outcome as a report.

pub mod classify;
pub mod elf;
pub mod index;
pub mod report;
pub mod resolve;
pub mod scan;
pub mod strutil;
