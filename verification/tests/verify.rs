use mindcore::bench::dataset::QuestionType;
use mindcore::bench::judge::{build_judge_prompt, judge_verdict, verdict_of_lowercase};
use mindcore::bench::verify::{
    build_verify_prompt, maybe_verify, needs_verification, select_verified, VerifyStep, VERIFY_MAX_TOKENS,
};
use mindcore::error::{MindCoreError, Result};

#[test]
fn single_session_skips_verification() {
    assert!(!needs_verification(QuestionType::SingleSessionUser, false));
    assert!(!needs_verification(QuestionType::SingleSessionAssistant, false));
    assert!(!needs_verification(QuestionType::SingleSessionPreference, false));
}

#[test]
fn multi_session_needs_verification() {
    assert!(needs_verification(QuestionType::MultiSession, false));
    assert!(needs_verification(QuestionType::KnowledgeUpdate, false));
    // Temporal reasoning excluded: verification causes regressions
    assert!(!needs_verification(QuestionType::TemporalReasoning, false));
}

#[test]
fn abstention_skips_verification() {
    assert!(!needs_verification(QuestionType::MultiSession, true));
    assert!(!needs_verification(QuestionType::TemporalReasoning, true));
}

#[test]
fn verify_prompt_contains_type_check() {
    let ctx = "some chat history";
    let prompt = build_verify_prompt(ctx, "How many?", "I counted 5 items.", QuestionType::MultiSession);
    assert!(prompt.contains("re-enumerate"));
    assert!(prompt.contains("recount"));
    assert!(prompt.contains("Chat History:"));

    let prompt = build_verify_prompt(ctx, "How long?", "14 days.", QuestionType::TemporalReasoning);
    assert!(prompt.contains("recompute"));

    let prompt = build_verify_prompt(ctx, "What now?", "The new value.", QuestionType::KnowledgeUpdate);
    assert!(prompt.contains("MOST RECENT"));
}

#[test]
fn verify_prompt_layout_without_type_check() {
    let prompt = build_verify_prompt("CTX", "Q", "H", QuestionType::SingleSessionUser);
    assert!(prompt.starts_with("You are verifying an answer. You have the original chat history and the model's answer."));
    assert!(prompt.contains("to the source material.\n\nChat History:\nCTX\n\nQuestion: Q\n\nModel's answer:\nH\n\n\n\nIf the answer is correct"));
    assert!(prompt.ends_with("no explanation, no reasoning, just the answer."));
}

#[test]
fn maybe_verify_keeps_answer_when_not_needed() {
    let r = maybe_verify("ctx", "q", "original", QuestionType::SingleSessionUser, false);
    assert_eq!(r, VerifyStep::Keep("original".to_string()));
    let r = maybe_verify("ctx", "q", "original", QuestionType::MultiSession, true);
    assert_eq!(r, VerifyStep::Keep("original".to_string()));
    let r = maybe_verify("ctx", "q", "original", QuestionType::TemporalReasoning, false);
    assert_eq!(r, VerifyStep::Keep("original".to_string()));
}

#[test]
fn maybe_verify_asks_with_verify_prompt() {
    let r = maybe_verify("ctx", "q", "original", QuestionType::MultiSession, false);
    let expected = build_verify_prompt("ctx", "q", "original", QuestionType::MultiSession);
    assert_eq!(r, VerifyStep::Ask { prompt: expected, max_tokens: 512 });
    assert_eq!(VERIFY_MAX_TOKENS, 512);
    let r = maybe_verify("C", "Q", "H", QuestionType::KnowledgeUpdate, false);
    match r {
        VerifyStep::Ask { prompt, max_tokens } => {
            assert_eq!(max_tokens, 512);
            assert!(prompt.contains("Chat History:\nC\n\nQuestion: Q\n\nModel's answer:\nH\n\n"));
            assert!(prompt.contains("MOST RECENT"));
        }
        VerifyStep::Keep(_) => panic!("knowledge-update answers are verified"),
    }
}

#[test]
fn maybe_verify_uses_response() {
    assert_eq!(select_verified("original", Ok("corrected".into())), Ok("corrected".to_string()));
}

#[test]
fn maybe_verify_blank_response_keeps_answer() {
    assert_eq!(select_verified("original", Ok("  \n\t ".into())), Ok("original".to_string()));
}

#[test]
fn maybe_verify_passes_error_on() {
    let err = MindCoreError::Llm("timeout".into());
    let r: Result<String> = select_verified("original", Err(err.clone()));
    assert_eq!(r, Err(err));
}

#[test]
fn select_verified_cases() {
    assert_eq!(select_verified("h", Ok("".into())), Ok("h".to_string()));
    assert_eq!(select_verified("h", Ok("v".into())), Ok("v".to_string()));
}

#[test]
fn judge_prompt_and_verdict() {
    let p = build_judge_prompt("Q?", "blue", "It is blue", QuestionType::TemporalReasoning, false);
    assert!(p.contains("Do not penalize off-by-one errors"));
    assert!(p.ends_with("\n\nQuestion: Q?\nRequired Answer: blue\nModel's Response: It is blue\n\nIs the model's response correct? Answer only \"yes\" or \"no\"."));
    let p = build_judge_prompt("Q?", "x", "y", QuestionType::MultiSession, true);
    assert!(p.contains("designed to be unanswerable"));
    let p = build_judge_prompt("Q?", "x", "y", QuestionType::KnowledgeUpdate, false);
    assert!(p.contains("updated answer"));
    let p = build_judge_prompt("Q?", "x", "y", QuestionType::SingleSessionPreference, false);
    assert!(p.contains("personal information"));
    assert!(judge_verdict("Yes."));
    assert!(judge_verdict("YES"));
    assert!(!judge_verdict("no"));
    assert!(verdict_of_lowercase("yes, it is"));
    assert!(!verdict_of_lowercase("YES"));
    assert!(!verdict_of_lowercase("no"));
}
