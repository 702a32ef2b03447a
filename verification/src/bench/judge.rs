//! Judging an answer: the prompt that asks whether a response is correct,
//! and how the judge's reply is read.
use vstd::prelude::*;

use crate::bench::dataset::QuestionType;
use crate::text::{contains_seq, lowercase_of, str_contains, to_lowercase};

verus! {

/// The judge instruction for abstention questions.
pub const JUDGE_ABSTENTION: &'static str = "You are evaluating a conversational AI assistant's response. \
    The question is designed to be unanswerable based on the chat history. \
    Answer \"yes\" if the model correctly identifies the question as unanswerable \
    or says it doesn't have enough information. Answer \"no\" if the model attempts \
    to provide a specific answer.";

/// The judge instruction for temporal-reasoning questions.
pub const JUDGE_TEMPORAL: &'static str = "You are evaluating a conversational AI assistant's response. \
    Answer \"yes\" if the response contains the correct answer or is equivalent \
    to the correct answer or contains all intermediate steps needed to reach the answer. \
    Do not penalize off-by-one errors for the number of days, weeks, or months. \
    Answer \"no\" otherwise.";

/// The judge instruction for knowledge-update questions.
pub const JUDGE_KNOWLEDGE_UPDATE: &'static str = "You are evaluating a conversational AI assistant's response. \
    The response should be considered correct as long as the updated answer \
    (the required answer) is present. It is acceptable if the response also \
    mentions the old information, as long as the new/updated information is \
    the primary answer. Answer \"yes\" if correct, \"no\" otherwise.";

/// The judge instruction for preference questions.
pub const JUDGE_PREFERENCE: &'static str = "You are evaluating a conversational AI assistant's response. \
    Answer \"yes\" if the response correctly recalls and utilizes the user's \
    personal information and satisfies the desired response. \
    Answer \"no\" otherwise.";

/// The judge instruction for the other questions.
pub const JUDGE_DEFAULT: &'static str = "You are evaluating a conversational AI assistant's response. \
    Answer \"yes\" if the response contains the correct answer or is equivalent \
    to the correct answer or contains all intermediate steps needed to reach the answer. \
    Answer \"no\" otherwise.";

/// The closing question of a judge prompt.
pub const JUDGE_TAIL: &'static str = "Is the model's response correct? Answer only \"yes\" or \"no\".";

/// The type-specific judge instruction.
pub open spec fn judge_instruction(question_type: QuestionType, is_abstention: bool) -> Seq<char> {
    if is_abstention {
        JUDGE_ABSTENTION@
    } else {
        match question_type {
            QuestionType::TemporalReasoning => JUDGE_TEMPORAL@,
            QuestionType::KnowledgeUpdate => JUDGE_KNOWLEDGE_UPDATE@,
            QuestionType::SingleSessionPreference => JUDGE_PREFERENCE@,
            _ => JUDGE_DEFAULT@,
        }
    }
}

/// The judge prompt: the instruction, the question, the required answer,
/// the model's response, and the closing question.
pub open spec fn judge_prompt(
    question: Seq<char>,
    ground_truth: Seq<char>,
    hypothesis: Seq<char>,
    question_type: QuestionType,
    is_abstention: bool,
) -> Seq<char> {
    judge_instruction(question_type, is_abstention) + "\n\nQuestion: "@ + question
        + "\nRequired Answer: "@ + ground_truth + "\nModel's Response: "@ + hypothesis + "\n\n"@
        + JUDGE_TAIL@
}

/// Build the prompt that asks the judge whether a hypothesis matches the
/// ground truth, with type-specific instructions.
pub fn build_judge_prompt(
    question: &str,
    ground_truth: &str,
    hypothesis: &str,
    question_type: QuestionType,
    is_abstention: bool,
) -> (r: String)
    ensures
        r@ == judge_prompt(question@, ground_truth@, hypothesis@, question_type, is_abstention),
{
    let instruction: &str = if is_abstention {
        JUDGE_ABSTENTION
    } else {
        match question_type {
            QuestionType::TemporalReasoning => JUDGE_TEMPORAL,
            QuestionType::KnowledgeUpdate => JUDGE_KNOWLEDGE_UPDATE,
            QuestionType::SingleSessionPreference => JUDGE_PREFERENCE,
            _ => JUDGE_DEFAULT,
        }
    };
    let mut p = String::from_str(instruction);
    p.append("\n\nQuestion: ");
    p.append(question);
    p.append("\nRequired Answer: ");
    p.append(ground_truth);
    p.append("\nModel's Response: ");
    p.append(hypothesis);
    p.append("\n\n");
    p.append(JUDGE_TAIL);
    p
}

/// Whether the judge's reply accepts the answer: it contains `yes`, in any case.
pub fn judge_verdict(response: &str) -> (r: bool)
    ensures
        r == contains_seq(lowercase_of(response@), "yes"@),
{
    let lower = to_lowercase(response);
    verdict_of_lowercase(lower.as_str())
}

/// The verdict read from the judge's reply after lowercasing: whether it
/// contains `yes`.
pub fn verdict_of_lowercase(lower: &str) -> (r: bool)
    ensures
        r == contains_seq(lower@, "yes"@),
{
    str_contains(lower, "yes")
}

} // verus!
