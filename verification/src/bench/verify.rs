//! Self-verification of an answer: which answers are re-checked, the
//! prompt that asks for the re-check, and which answer is kept.
use vstd::prelude::*;

use crate::bench::dataset::QuestionType;
use crate::error::Result;
use crate::text::{all_ws, str_is_blank};

verus! {

/// Question types that benefit from self-verification: counting,
/// arithmetic or multi-item enumeration, where the chain of thought may take
/// the right steps and still end on the wrong number. Abstention answers
/// are not verified.
pub open spec fn needs_verification_spec(question_type: QuestionType, is_abstention: bool) -> bool {
    !is_abstention && (question_type == QuestionType::MultiSession || question_type
        == QuestionType::KnowledgeUpdate)
}

/// Whether an answer of this type is re-checked by a second call.
pub fn needs_verification(question_type: QuestionType, is_abstention: bool) -> (r: bool)
    ensures
        r == needs_verification_spec(question_type, is_abstention),
{
    if is_abstention {
        return false;
    }
    match question_type {
        QuestionType::MultiSession | QuestionType::KnowledgeUpdate => true,
        _ => false,
    }
}

/// The re-check asked for multi-session answers.
pub const MULTI_SESSION_CHECK: &'static str = "Your job: if the answer involves a count, re-enumerate every relevant item \
    from the chat history numbered 1, 2, 3... and recount. If the answer is a \
    list, verify every item from the chat history is accounted for and none are \
    duplicated or missing. If it involves a sum, recompute the arithmetic.";

/// The re-check asked for temporal-reasoning answers.
pub const TEMPORAL_CHECK: &'static str = "Your job: if the answer involves date arithmetic, recompute the \
    number of days/weeks/months between the dates step by step using the \
    chat history timestamps. If it involves ordering events, re-list each \
    event with its date from the chat history and re-sort.";

/// The re-check asked for knowledge-update answers.
pub const KNOWLEDGE_UPDATE_CHECK: &'static str = "Your job: verify the answer uses the value from the MOST RECENT \
    session in the chat history. Re-list all versions chronologically \
    from the chat history and confirm the final one is correct.";

/// The opening of a verification prompt.
pub const VERIFY_HEAD: &'static str = "You are verifying an answer. You have the original chat history and the \
    model's answer. Check whether the final answer is correct by going back \
    to the source material.\n\n";

/// The closing of a verification prompt.
pub const VERIFY_TAIL: &'static str = "If the answer is correct, output it again unchanged. \
    If you find an error (wrong count, wrong arithmetic, wrong item, wrong \
    version), output ONLY the corrected final answer — no explanation, no \
    reasoning, just the answer.";

/// The type-specific re-check (empty for the other types).
pub open spec fn type_check(question_type: QuestionType) -> Seq<char> {
    match question_type {
        QuestionType::MultiSession => MULTI_SESSION_CHECK@,
        QuestionType::TemporalReasoning => TEMPORAL_CHECK@,
        QuestionType::KnowledgeUpdate => KNOWLEDGE_UPDATE_CHECK@,
        _ => seq![],
    }
}

/// The verification prompt: the chat history, the question, the model's
/// answer and the type-specific re-check.
pub open spec fn verify_prompt(
    context: Seq<char>,
    question: Seq<char>,
    hypothesis: Seq<char>,
    question_type: QuestionType,
) -> Seq<char> {
    VERIFY_HEAD@ + "Chat History:\n"@ + context + "\n\nQuestion: "@ + question
        + "\n\nModel's answer:\n"@ + hypothesis + "\n\n"@ + type_check(question_type) + "\n\n"@
        + VERIFY_TAIL@
}

/// Build the prompt that asks the model to re-check its answer against
/// the chat history.
pub fn build_verify_prompt(
    context: &str,
    question: &str,
    hypothesis: &str,
    question_type: QuestionType,
) -> (r: String)
    ensures
        r@ == verify_prompt(context@, question@, hypothesis@, question_type),
{
    let mut p = String::from_str(VERIFY_HEAD);
    p.append("Chat History:\n");
    p.append(context);
    p.append("\n\nQuestion: ");
    p.append(question);
    p.append("\n\nModel's answer:\n");
    p.append(hypothesis);
    p.append("\n\n");
    match question_type {
        QuestionType::MultiSession => p.append(MULTI_SESSION_CHECK),
        QuestionType::TemporalReasoning => p.append(TEMPORAL_CHECK),
        QuestionType::KnowledgeUpdate => p.append(KNOWLEDGE_UPDATE_CHECK),
        _ => {
            proof {
                reveal_strlit("");
            }
            assert(p@ =~= p@ + type_check(question_type));
        },
    }
    p.append("\n\n");
    p.append(VERIFY_TAIL);
    p
}

/// The answer kept after a verification call answered `response`: an error
/// is passed on, a blank response keeps the original answer, any other
/// response replaces it.
pub fn select_verified(hypothesis: &str, response: Result<String>) -> (r: Result<String>)
    ensures
        response is Err ==> r == response,
        response matches Ok(v) ==> (r matches Ok(s) && s@ == (if all_ws(v@) {
            hypothesis@
        } else {
            v@
        })),
{
    match response {
        Ok(v) => {
            if str_is_blank(v.as_str()) {
                Ok(String::from_str(hypothesis))
            } else {
                Ok(v)
            }
        },
        Err(e) => Err(e),
    }
}

/// The token limit of the verification call.
pub const VERIFY_MAX_TOKENS: u32 = 512;

/// What answer verification does next.
#[derive(Debug, Clone, PartialEq, Eq)]
pub enum VerifyStep {
    /// Keep the answer as it is.
    Keep(String),
    /// Ask the model again, with this prompt and token limit; its reply (or
    /// error) goes to [`select_verified`].
    Ask { prompt: String, max_tokens: u32 },
}

/// Optionally verify a hypothesis by asking the model to re-check its work.
///
/// For question types that don't need verification the original hypothesis
/// is kept unchanged. Otherwise the model is to be asked again, with the
/// prompt of [`build_verify_prompt`] and a limit of 512 tokens; the caller
/// makes that call and hands its outcome to [`select_verified`], which gives
/// the answer kept.
pub fn maybe_verify(
    context: &str,
    question: &str,
    hypothesis: &str,
    question_type: QuestionType,
    is_abstention: bool,
) -> (r: VerifyStep)
    ensures
        !needs_verification_spec(question_type, is_abstention) ==> (r matches VerifyStep::Keep(s)
            && s@ == hypothesis@),
        needs_verification_spec(question_type, is_abstention) ==> (r matches VerifyStep::Ask {
            prompt,
            max_tokens,
        } && prompt@ == verify_prompt(context@, question@, hypothesis@, question_type) && max_tokens
            == VERIFY_MAX_TOKENS),
{
    if !needs_verification(question_type, is_abstention) {
        return VerifyStep::Keep(String::from_str(hypothesis));
    }
    let prompt = build_verify_prompt(context, question, hypothesis, question_type);
    VerifyStep::Ask { prompt, max_tokens: VERIFY_MAX_TOKENS }
}

/// Which answers are verified: exactly the multi-session and
/// knowledge-update answers of questions that are not abstention questions.
pub proof fn lemma_verified_types(question_type: QuestionType, is_abstention: bool)
    ensures
        needs_verification_spec(question_type, is_abstention) <==> (!is_abstention && (question_type
            == QuestionType::MultiSession || question_type == QuestionType::KnowledgeUpdate)),
{
}

} // verus!
