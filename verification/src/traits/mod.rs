pub mod consolidation;
pub mod evolution;
pub mod record;

pub use consolidation::ConsolidationAction;
pub use evolution::EvolutionAction;
pub use record::MemoryType;
