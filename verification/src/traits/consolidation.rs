use vstd::prelude::*;

verus! {

/// Actions the consolidation pipeline can take.
#[derive(Debug, Clone, Copy, PartialEq, Eq, Structural)]
pub enum ConsolidationAction {
    /// Store as a new memory.
    Add,
    /// Update an existing memory (replace content).
    Update {
        /// ID of the memory to update.
        target_id: i64,
    },
    /// Delete an existing memory (superseded or contradicted).
    Delete {
        /// ID of the memory to delete.
        target_id: i64,
    },
    /// Do nothing (duplicate or irrelevant).
    Noop,
}

} // verus!
