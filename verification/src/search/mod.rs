pub mod builder;
pub mod fts5;
pub mod hybrid;
pub mod query_expand;
pub mod vector;

pub use builder::SearchDepth;
pub use fts5::{sanitize_fts5_query, FtsSearch};
pub use hybrid::analyze_query;
pub use query_expand::{expand_query, try_expand_query, DateFilter, ExpandedQuery, FilterOp, Timestamp};
pub use vector::VectorSearch;
