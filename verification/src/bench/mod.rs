//! The LongMemEval benchmark logic: dataset model, context building, prompts,
//! answer verification, judging and metrics.
pub mod dataset;
pub mod ingest;
pub mod judge;
pub mod metrics;
pub mod retrieval;
pub mod run;
pub mod verify;

pub use dataset::{Answer, Dataset, DatasetVariant, EvalResult, Question, QuestionType, Session, Turn};
pub use ingest::{conversation_turns, count_added, turn_importance, ConversationTurn};
pub use judge::{build_judge_prompt, judge_verdict};
pub use metrics::{tally_results, MetricCounts, TypeCount};
pub use retrieval::{build_generation_prompt, process_question, RetrievedContext};
pub use run::questions_to_evaluate;
pub use verify::{build_verify_prompt, maybe_verify, needs_verification, select_verified, VerifyStep};
