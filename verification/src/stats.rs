//! The counters a cleanup run accumulates.

use vstd::prelude::*;

verus! {

/// What a run has accounted for so far.
#[derive(Debug, Clone, Copy, PartialEq, Eq)]
pub struct DeletionStats {
    /// Total size in bytes of the directories accounted for.
    pub bytes_freed: u64,
    /// Number of directories accounted for.
    pub directories_removed: usize,
}

impl DeletionStats {
    /// The counters of a run that has not accounted for anything yet.
    pub fn new() -> (stats: DeletionStats)
        ensures
            stats.bytes_freed == 0,
            stats.directories_removed == 0,
    {
        DeletionStats { bytes_freed: 0, directories_removed: 0 }
    }
}

} // verus!
