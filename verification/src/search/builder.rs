use vstd::prelude::*;

verus! {

/// Controls which memory tiers are searched.
#[derive(Debug, Clone, Copy, PartialEq, Eq, Structural)]
pub enum SearchDepth {
    /// Search summaries and facts only: tiers 1+2 (default, fastest).
    Standard,
    /// Also search raw episodes if summary results are sparse.
    Deep,
    /// Search all tiers (slowest, most complete, for forensic/audit).
    Forensic,
}

impl Default for SearchDepth {
    fn default() -> (r: Self)
        ensures
            r == SearchDepth::Standard,
    {
        SearchDepth::Standard
    }
}

} // verus!
