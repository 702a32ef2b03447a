use vstd::prelude::*;

use crate::traits::consolidation::ConsolidationAction;

verus! {

/// Zero-cost deduplication via SHA-256 content hash.
///
/// If a memory with the same searchable text already exists (exact hash match),
/// the action is `Noop`. Otherwise it is `Add`.
///
/// This is the default consolidation strategy: it prevents exact duplicates
/// with zero computational overhead beyond hashing.
pub struct HashDedup;

impl HashDedup {
    /// The actions for a new memory, given the ids of the stored memories
    /// whose content hash matches it: `Add` when there are none, `Noop`
    /// otherwise.
    pub fn consolidate(&self, existing: &[i64]) -> (r: Vec<ConsolidationAction>)
        ensures
            existing@.len() == 0 ==> r@ == seq![ConsolidationAction::Add],
            existing@.len() > 0 ==> r@ == seq![ConsolidationAction::Noop],
    {
        let mut actions: Vec<ConsolidationAction> = Vec::new();
        if existing.len() == 0 {
            actions.push(ConsolidationAction::Add);
        } else {
            actions.push(ConsolidationAction::Noop);
        }
        assert(actions@ =~= seq![(if existing@.len() == 0 { ConsolidationAction::Add } else { ConsolidationAction::Noop })]);
        actions
    }
}

} // verus!
