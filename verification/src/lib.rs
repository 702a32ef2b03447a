//! MindCore: a memory engine for AI agent applications.
//!
//! The verified part of the engine: memory classification, relation
//! types, consolidation and pruning decisions, content hashing, query
//! preparation for keyword search, temporal query expansion, context-budget
//! assembly, key encoding for encrypted databases, schema version planning,
//! and the LongMemEval benchmark logic.
pub mod bench;
pub mod callbacks;
pub mod context;
pub mod embeddings;
pub mod error;
pub mod ingest;
pub mod memory;
pub mod numeric;
pub mod scoring;
pub mod search;
pub mod storage;
pub mod text;
pub mod traits;
