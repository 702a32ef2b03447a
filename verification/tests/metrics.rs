use mindcore::bench::dataset::{EvalResult, QuestionType};
use mindcore::bench::metrics::tally_results;

fn result(qt: QuestionType, abs: bool, correct: bool, tokens: u32) -> EvalResult {
    EvalResult {
        question_id: "q".into(),
        question_type: qt,
        is_abstention: abs,
        hypothesis: "h".into(),
        ground_truth: "g".into(),
        is_correct: correct,
        tokens_used: tokens,
    }
}

#[test]
fn tally_counts_per_type() {
    let results = vec![
        result(QuestionType::MultiSession, false, true, 10),
        result(QuestionType::TemporalReasoning, false, false, 20),
        result(QuestionType::MultiSession, true, false, 30),
        result(QuestionType::MultiSession, true, true, 40),
        result(QuestionType::KnowledgeUpdate, false, true, 0),
    ];
    let m = tally_results(&results);
    assert_eq!(m.total_questions, 5);
    assert_eq!(m.total_tokens, 100);
    assert_eq!(m.total_correct, 3);
    assert_eq!(m.abstention_total, 2);
    assert_eq!(m.abstention_correct, 1);
    let per: Vec<(QuestionType, usize, usize)> =
        m.per_type.iter().map(|t| (t.question_type, t.correct, t.total)).collect();
    assert_eq!(
        per,
        vec![
            (QuestionType::MultiSession, 2, 3),
            (QuestionType::TemporalReasoning, 0, 1),
            (QuestionType::KnowledgeUpdate, 1, 1),
        ]
    );
    let total: usize = m.per_type.iter().map(|t| t.total).sum();
    let correct: usize = m.per_type.iter().map(|t| t.correct).sum();
    assert_eq!(total, m.total_questions);
    assert_eq!(correct, m.total_correct);
}

#[test]
fn tally_empty() {
    let m = tally_results(&[]);
    assert!(m.per_type.is_empty());
    assert_eq!(m.total_questions, 0);
    assert_eq!(m.total_tokens, 0);
    assert_eq!(m.total_correct, 0);
    assert_eq!(m.abstention_total, 0);
}
