//! Packaging of build artifacts into a portable, compressed archive.
//!
//! The library decides what goes into an archive and in which order; the
//! reading of files, the listing of directories and the writing of the
//! compressed container are left to the caller, which performs each action
//! that the [`archiver::Archiver`] hands out and reports back what it saw.

pub mod archiver;
pub mod compression;
pub mod format;
pub mod paths;
pub mod plan;

pub use archiver::{ArchiveAction, Archiver, DirChild};
pub use compression::CompressionSettings;
pub use format::{ArchiveFormat, UnknownArchiveFormat};
pub use plan::{plan_entries, try_plan_entries, ArchiveManifest, PlannedEntry};
