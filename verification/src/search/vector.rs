use vstd::prelude::*;

verus! {

/// Brute-force vector similarity search over the stored embeddings of one
/// model (the similarity computation and the database access belong to the
/// application layer).
pub struct VectorSearch;

} // verus!
