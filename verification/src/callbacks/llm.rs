use vstd::prelude::*;

use crate::error::Result;

verus! {

/// Consumer-provided LLM access for all LLM-assisted operations.
///
/// MindCore never calls an LLM directly: the consumer controls model choice,
/// cost, and retry behavior by providing this trait implementation. Nothing
/// is assumed of what an implementation returns.
pub trait LlmCallback: Send + Sync {
    /// Given a prompt, return the LLM's response.
    fn complete(&self, prompt: &str) -> Result<String>;
}

} // verus!
