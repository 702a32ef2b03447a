pub mod activation;
pub mod hash_dedup;
pub mod pruning;
pub mod relations;
pub mod store;

pub use hash_dedup::HashDedup;
pub use pruning::{PruneReport, PruneStep, PruningRules};
pub use relations::{GraphMemory, GraphNode, RelationType};
pub use store::{content_hash, StoreResult};
