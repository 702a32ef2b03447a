use vstd::prelude::*;

use crate::error::Result;
use crate::ingest::{ExtractedFact, IngestStrategy};
use crate::traits::record::MemoryType;

verus! {

/// Default ingest strategy: store text as-is with no extraction.
///
/// Zero cost: the input becomes a single episodic fact of importance 5.
pub struct PassthroughIngest;

impl IngestStrategy for PassthroughIngest {
    fn extract(&self, raw: &str) -> (r: Result<Vec<ExtractedFact>>)
        ensures
            r matches Ok(v) && v@.len() == 1 && v@[0].text@ == raw@ && v@[0].category is None
                && v@[0].memory_type == MemoryType::Episodic && v@[0].importance == 5,
    {
        let mut facts: Vec<ExtractedFact> = Vec::new();
        facts.push(
            ExtractedFact {
                text: String::from_str(raw),
                category: None,
                memory_type: MemoryType::Episodic,
                importance: 5,
            },
        );
        Ok(facts)
    }
}

} // verus!
