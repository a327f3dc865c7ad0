//! The size of a directory tree, from what a walk over it has found.

use vstd::prelude::*;
use crate::error::{CleanupError, IoStage};

verus! {

/// One entry that a walk over a directory tree came by, the root included.
#[derive(Debug, Clone, Copy, PartialEq, Eq)]
pub enum TreeEntry {
    /// The walk could not read this entry.
    Unreadable,
    /// A directory, or anything else that is no regular file.
    Other,
    /// A regular file, with its length in bytes where that could be read.
    File { size: Option<u64> },
}

impl TreeEntry {
    /// The bytes that this entry adds to the size of its tree: the length of a
    /// regular file whose length is known, and nothing for any other entry.
    pub open spec fn counted(self) -> nat {
        match self {
            TreeEntry::File { size: Some(bytes) } => bytes as nat,
            _ => 0,
        }
    }
}

/// The size of a tree with these entries: what its entries add, summed.
pub open spec fn tree_size(entries: Seq<TreeEntry>) -> nat
    decreases entries.len(),
{
    if entries.len() == 0 {
        0
    } else {
        tree_size(entries.drop_last()) + entries.last().counted()
    }
}

/// The size of a tree is the size of one part of its entries plus the size of
/// the rest.
pub proof fn lemma_tree_size_concat(a: Seq<TreeEntry>, b: Seq<TreeEntry>)
    ensures
        tree_size(a + b) == tree_size(a) + tree_size(b),
    decreases b.len(),
{
    if b.len() == 0 {
        assert(a + b =~= a);
    } else {
        assert((a + b).drop_last() =~= a + b.drop_last());
        lemma_tree_size_concat(a, b.drop_last());
    }
}

/// Entries that are no regular files of known length add nothing, wherever
/// they stand: a tree made only of them has size 0.
pub proof fn lemma_tree_size_counts_files_only(entries: Seq<TreeEntry>)
    requires
        forall|i: int| 0 <= i < entries.len() ==> (#[trigger] entries[i]).counted() == 0,
    ensures
        tree_size(entries) == 0,
    decreases entries.len(),
{
    if entries.len() > 0 {
        lemma_tree_size_counts_files_only(entries.drop_last());
    }
}

/// Sums the lengths of the regular files among `entries`. Entries that could
/// not be read and files of unknown length are passed over. Fails only when
/// the sum is more than a `u64` holds.
pub fn calculate_dir_size(entries: &[TreeEntry]) -> (result: Result<u64, CleanupError>)
    ensures
        match result {
            Ok(total) => total == tree_size(entries@),
            Err(error) => error == CleanupError::IoError(IoStage::MeasuringSize) && tree_size(
                entries@,
            ) > u64::MAX,
        },
{
    let mut total: u64 = 0;
    let mut i: usize = 0;
    while i < entries.len()
        invariant
            i <= entries.len(),
            total == tree_size(entries@.take(i as int)),
        decreases entries.len() - i,
    {
        proof {
            assert(entries@.take(i + 1).drop_last() =~= entries@.take(i as int));
            assert(entries@ =~= entries@.take(i + 1) + entries@.skip(i + 1));
            lemma_tree_size_concat(entries@.take(i + 1), entries@.skip(i + 1));
        }
        match entries[i] {
            TreeEntry::File { size: Some(bytes) } => {
                match total.checked_add(bytes) {
                    Some(sum) => {
                        total = sum;
                    },
                    None => {
                        return Err(CleanupError::IoError(IoStage::MeasuringSize));
                    },
                }
            },
            _ => {},
        }
        i = i + 1;
    }
    assert(entries@.take(i as int) =~= entries@);
    Ok(total)
}

} // verus!
