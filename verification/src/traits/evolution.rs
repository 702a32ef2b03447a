use std::collections::HashMap;
use vstd::prelude::*;

use crate::memory::relations::RelationType;

verus! {

/// Actions that memory evolution can take on existing memories.
#[derive(Debug, Clone)]
pub enum EvolutionAction {
    /// Update metadata on an existing memory.
    UpdateMetadata { target_id: i64, metadata: HashMap<String, String> },
    /// Create a relationship between memories.
    Relate { source_id: i64, target_id: i64, relation: RelationType },
    /// No changes needed.
    Noop,
}

} // verus!
