pub mod llm;

pub use llm::LlmCallback;
