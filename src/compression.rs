//! How the compressing encoder is configured.

use vstd::prelude::*;

verus! {

/// Settings handed to the compressing encoder.
#[derive(Clone, Copy, Debug, PartialEq, Eq)]
pub struct CompressionSettings {
    /// The compression level that the caller asked for.
    pub level: i32,
    /// Whether each frame carries a checksum of its contents.
    pub include_checksum: bool,
    /// How many worker threads the encoder may use.
    pub workers: u32,
}

/// Relies on `num_cpus::get`: the number of CPUs available to this process,
/// which it documents to be at least one.
#[verifier::external_body]
fn available_cpus() -> (r: usize)
    ensures
        r >= 1,
{
    num_cpus::get()
}

impl CompressionSettings {
    /// Settings at `level` for a host with `cpus` processors: checksums are
    /// always on, and there is one worker per processor.
    pub fn new(level: i32, cpus: usize) -> (r: Self)
        ensures
            r.level == level,
            r.include_checksum,
            r.workers == cpus as u32,
    {
        CompressionSettings { level, include_checksum: true, workers: cpus as u32 }
    }

    /// Settings at `level` for the processors that this host has now.
    pub fn for_host(level: i32) -> (r: Self)
        ensures
            r.level == level,
            r.include_checksum,
    {
        Self::new(level, available_cpus())
    }
}

} // verus!
