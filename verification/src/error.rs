use vstd::prelude::*;

verus! {

/// Errors of the memory engine.
#[derive(Debug, Clone, PartialEq, Eq)]
pub enum MindCoreError {
    /// A database operation failed.
    Database(String),
    /// A record could not be serialized or deserialized.
    Serialization(String),
    /// The schema could not be brought to the current version.
    Migration(String),
    /// An embedding could not be computed.
    Embedding(String),
    /// An embedding model is not available.
    ModelNotAvailable(String),
    /// A language-model callback failed.
    Llm(String),
}

/// The text that describes an error: a prefix naming its kind, then its message.
pub open spec fn error_text(e: MindCoreError) -> Seq<char> {
    match e {
        MindCoreError::Database(m) => "database error: "@ + m@,
        MindCoreError::Serialization(m) => "serialization error: "@ + m@,
        MindCoreError::Migration(m) => "migration error: "@ + m@,
        MindCoreError::Embedding(m) => "embedding error: "@ + m@,
        MindCoreError::ModelNotAvailable(m) => "model not available: "@ + m@,
        MindCoreError::Llm(m) => "llm error: "@ + m@,
    }
}

impl MindCoreError {
    /// The text that describes the error.
    pub fn to_string(&self) -> (s: String)
        ensures
            s@ == error_text(*self),
    {
        let (prefix, m) = match self {
            MindCoreError::Database(m) => ("database error: ", m),
            MindCoreError::Serialization(m) => ("serialization error: ", m),
            MindCoreError::Migration(m) => ("migration error: ", m),
            MindCoreError::Embedding(m) => ("embedding error: ", m),
            MindCoreError::ModelNotAvailable(m) => ("model not available: ", m),
            MindCoreError::Llm(m) => ("llm error: ", m),
        };
        let mut s = String::from_str(prefix);
        s.append(m.as_str());
        s
    }
}

/// Result type of the engine's fallible operations.
pub type Result<T> = core::result::Result<T, MindCoreError>;

} // verus!
