use mindcore::bench::dataset::{Answer, Question, QuestionType, Turn};
use mindcore::bench::retrieval::{build_generation_prompt, process_question};

fn test_question() -> Question {
    Question {
        question_id: "test_q1".into(),
        question_type: QuestionType::SingleSessionUser,
        question: "What is the user's favorite color?".into(),
        answer: Answer::Single("blue".into()),
        question_date: "2024/01/15 (Mon) 14:30".into(),
        haystack_session_ids: vec!["s1".into()],
        haystack_dates: vec!["2024/01/15 (Mon) 10:00".into()],
        haystack_sessions: vec![vec![
            Turn { role: "user".into(), content: "My favorite color is blue".into(), has_answer: true },
            Turn { role: "assistant".into(), content: "That's a nice color!".into(), has_answer: false },
        ]],
        answer_session_ids: vec!["s1".into()],
    }
}

#[test]
fn process_question_retrieves_context() {
    let q = test_question();
    let result = process_question(&q, 4096).expect("process");
    assert!(result.memories_stored > 0);
    assert!(result.items_included > 0);
    assert!(!result.context_text.is_empty());
    assert!(result.context_text.contains("blue"));
}

#[test]
fn process_question_unlimited_budget() {
    let q = test_question();
    let result = process_question(&q, 0).expect("process");
    assert!(result.items_included > 0);
    assert!(result.context_text.contains("blue"));
}

#[test]
fn process_question_exact_context() {
    let q = test_question();
    let result = process_question(&q, 0).expect("process");
    let expected = "[Session from 2024/01/15 (Mon) 10:00]\nuser: My favorite color is blue\nassistant: That's a nice color!\n";
    assert_eq!(result.context_text, expected);
    assert_eq!(result.items_included, 1);
    assert_eq!(result.memories_stored, 2);
    assert_eq!(result.tokens_used, expected.len() / 4);
}

#[test]
fn process_question_budget_cuts_sessions() {
    let mut q = test_question();
    q.haystack_sessions.push(vec![Turn { role: "user".into(), content: "x".repeat(100), has_answer: false }]);
    // The first session takes 102 bytes; a budget of 30 tokens allows 120.
    let r = process_question(&q, 30).expect("process");
    assert_eq!(r.items_included, 1);
    assert!(!r.context_text.contains("xxxx"));
    // A budget of 10 tokens (40 bytes) allows nothing.
    let r = process_question(&q, 10).expect("process");
    assert_eq!(r.items_included, 0);
    assert_eq!(r.context_text, "");
    assert_eq!(r.tokens_used, 0);
    // Unlimited: both sessions, joined by a newline; the second has no date.
    let r = process_question(&q, 0).expect("process");
    assert_eq!(r.items_included, 2);
    assert!(r.context_text.contains("\n\n[Session from unknown date]\nuser: xxxx"));
    assert_eq!(r.memories_stored, 3);
}

#[test]
fn generation_prompt_default() {
    let prompt = build_generation_prompt(
        "some history",
        "What color?",
        "2024/01/15",
        QuestionType::SingleSessionUser,
        false,
    );
    assert!(prompt.contains("History Chats:"));
    assert!(prompt.contains("some history"));
    assert!(prompt.contains("What color?"));
    assert!(prompt.contains("extract the relevant information"));
}

#[test]
fn generation_prompt_exact_layout() {
    let prompt = build_generation_prompt("CTX", "Q?", "D1", QuestionType::SingleSessionAssistant, false);
    assert_eq!(
        prompt,
        "I will give you several history chats between a user and an AI assistant. Based on the chat history, answer the question at the end.\n\nHistory Chats:\n\nCTX\n\nCurrent Date: D1\nQuestion: Q?\n\nInstructions: Answer the question based on the chat history. First extract the relevant information, then provide a concise answer.\n\nAnswer:"
    );
}

#[test]
fn preference_prompt_format() {
    let prompt = build_generation_prompt(
        "some history",
        "Recommend resources?",
        "2024/01/15",
        QuestionType::SingleSessionPreference,
        false,
    );
    assert!(prompt.contains("The user would prefer responses that"));
    assert!(prompt.contains("CONTENT"));
    assert!(prompt.contains("BAD answers describe formatting"));
    assert!(prompt.contains("Sony-compatible"));
    assert!(prompt.contains("quinoa"));
}

#[test]
fn temporal_prompt_format() {
    let prompt = build_generation_prompt(
        "some history",
        "How many days?",
        "2024/01/15",
        QuestionType::TemporalReasoning,
        false,
    );
    assert!(prompt.contains("EVERY relevant event"));
    assert!(prompt.contains("count them explicitly"));
    assert!(prompt.ends_with("enumerate each step. Current Date: 2024/01/15\n\nAnswer:"));
}

#[test]
fn abstention_prompt_format() {
    let prompt = build_generation_prompt(
        "some history",
        "What did I say?",
        "2024/01/15",
        QuestionType::SingleSessionUser,
        true,
    );
    assert!(prompt.contains("MUST respond with"));
    assert!(prompt.contains("Do NOT attempt to infer"));
}

#[test]
fn knowledge_and_multi_session_prompts() {
    let ku = build_generation_prompt("h", "q", "d", QuestionType::KnowledgeUpdate, false);
    assert!(ku.contains("use the MOST RECENT value as the primary answer"));
    let ms = build_generation_prompt("h", "q", "d", QuestionType::MultiSession, false);
    assert!(ms.contains("synthesizing information across multiple sessions"));
    let abs = build_generation_prompt("h", "q", "d", QuestionType::MultiSession, true);
    assert!(abs.contains("MUST respond with"));
    assert!(!abs.contains("synthesizing"));
}

#[test]
fn larger_budget_extends_context() {
    let mut q = test_question();
    q.haystack_sessions.push(vec![Turn { role: "user".into(), content: "x".repeat(100), has_answer: false }]);
    q.haystack_sessions.push(vec![Turn { role: "assistant".into(), content: "y".repeat(50), has_answer: false }]);
    let mut previous: Option<(usize, String, usize)> = None;
    for budget in [1usize, 10, 30, 60, 80, 200, 0] {
        let r = process_question(&q, budget).expect("process");
        if let Some((n, text, stored)) = &previous {
            assert!(*n <= r.items_included, "budget {budget}");
            assert!(r.context_text.starts_with(text.as_str()), "budget {budget}");
            assert_eq!(*stored, r.memories_stored);
        }
        previous = Some((r.items_included, r.context_text, r.memories_stored));
    }
    assert_eq!(previous.map(|p| p.0), Some(3));
}
