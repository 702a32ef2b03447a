use mindcore::bench::run::questions_to_evaluate;
use mindcore::bench::dataset::{cache_is_complete, parse_variant, variant_by_lowercase, Answer, Dataset, DatasetVariant, Question, QuestionType, Turn};

fn question(id: &str, qt: QuestionType) -> Question {
    Question {
        question_id: id.into(),
        question_type: qt,
        question: "test".into(),
        answer: Answer::Single("n/a".into()),
        question_date: "2024/01/01 (Mon) 10:00".into(),
        haystack_session_ids: vec![],
        haystack_dates: vec![],
        haystack_sessions: vec![],
        answer_session_ids: vec![],
    }
}

fn turn(role: &str, content: &str) -> Turn {
    Turn { role: role.into(), content: content.into(), has_answer: false }
}

#[test]
fn answer_single() {
    let a = Answer::Single("the answer".into());
    assert_eq!(a.as_text(), "the answer");
}

#[test]
fn answer_multiple() {
    let a = Answer::Multiple(vec!["answer1".into(), "answer2".into()]);
    assert_eq!(a.as_text(), "answer1; answer2");
}

#[test]
fn answer_multiple_empty_and_one() {
    assert_eq!(Answer::Multiple(vec![]).as_text(), "");
    assert_eq!(Answer::Multiple(vec!["only".into()]).as_text(), "only");
}

#[test]
fn abstention_detection() {
    let q = Question {
        question_id: "q123_abs".into(),
        question_type: QuestionType::SingleSessionUser,
        question: "test".into(),
        answer: Answer::Single("n/a".into()),
        question_date: "2024/01/01 (Mon) 10:00".into(),
        haystack_session_ids: vec![],
        haystack_dates: vec![],
        haystack_sessions: vec![],
        answer_session_ids: vec![],
    };
    assert!(q.is_abstention());

    let q2 = Question { question_id: "q456".into(), ..q.clone() };
    assert!(!q2.is_abstention());
}

#[test]
fn dataset_variant_urls() {
    let oracle = DatasetVariant::Oracle;
    assert!(oracle.download_url().contains("longmemeval_oracle.json"));
    assert_eq!(oracle.filename(), "longmemeval_oracle.json");
}

#[test]
fn variant_files_and_urls_exact() {
    assert_eq!(DatasetVariant::Small.filename(), "longmemeval_s_cleaned.json");
    assert_eq!(DatasetVariant::Medium.filename(), "longmemeval_m_cleaned.json");
    assert_eq!(
        DatasetVariant::Medium.download_url(),
        "https://huggingface.co/datasets/xiaowu0162/longmemeval-cleaned/resolve/main/longmemeval_m_cleaned.json"
    );
}

#[test]
fn parse_variant_names() {
    assert_eq!(parse_variant("oracle"), Some(DatasetVariant::Oracle));
    assert_eq!(parse_variant("O"), Some(DatasetVariant::Oracle));
    assert_eq!(parse_variant("SMALL"), Some(DatasetVariant::Small));
    assert_eq!(parse_variant("s"), Some(DatasetVariant::Small));
    assert_eq!(parse_variant("Medium"), Some(DatasetVariant::Medium));
    assert_eq!(parse_variant("m"), Some(DatasetVariant::Medium));
    assert_eq!(parse_variant("large"), None);
    assert_eq!(parse_variant(""), None);
    assert_eq!(variant_by_lowercase("medium"), Some(DatasetVariant::Medium));
    assert_eq!(variant_by_lowercase("o"), Some(DatasetVariant::Oracle));
    assert_eq!(variant_by_lowercase("SMALL"), None);
}

#[test]
fn display_names() {
    assert_eq!(QuestionType::SingleSessionUser.display_name(), "Single-Session (User)");
    assert_eq!(QuestionType::SingleSessionAssistant.display_name(), "Single-Session (Assistant)");
    assert_eq!(QuestionType::SingleSessionPreference.display_name(), "Single-Session (Preference)");
    assert_eq!(QuestionType::MultiSession.display_name(), "Multi-Session");
    assert_eq!(QuestionType::KnowledgeUpdate.display_name(), "Knowledge Update");
    assert_eq!(QuestionType::TemporalReasoning.display_name(), "Temporal Reasoning");
}

#[test]
fn total_turns_sums_sessions() {
    let mut q = question("q1", QuestionType::MultiSession);
    q.haystack_sessions = vec![
        vec![turn("user", "a"), turn("assistant", "b")],
        vec![],
        vec![turn("user", "c"), turn("assistant", "d"), turn("user", "e")],
    ];
    assert_eq!(q.total_turns(), 5);
    assert_eq!(question("q2", QuestionType::MultiSession).total_turns(), 0);
}

#[test]
fn count_by_type_first_seen_order() {
    let ds = Dataset {
        questions: vec![
            question("a", QuestionType::MultiSession),
            question("b", QuestionType::TemporalReasoning),
            question("c_abs", QuestionType::MultiSession),
            question("d", QuestionType::KnowledgeUpdate),
            question("e_abs", QuestionType::MultiSession),
        ],
    };
    let counts = ds.count_by_type();
    assert_eq!(
        counts,
        vec![
            (QuestionType::MultiSession, 3),
            (QuestionType::TemporalReasoning, 1),
            (QuestionType::KnowledgeUpdate, 1),
        ]
    );
    let total: usize = counts.iter().map(|(_, n)| n).sum();
    assert_eq!(total, ds.questions.len());
    assert_eq!(ds.abstention_count(), 2);
}

#[test]
fn empty_dataset_counts() {
    let ds = Dataset { questions: vec![] };
    assert!(ds.count_by_type().is_empty());
    assert_eq!(ds.abstention_count(), 0);
}

#[test]
fn cache_size_threshold() {
    assert!(!cache_is_complete(0));
    assert!(!cache_is_complete(1000));
    assert!(cache_is_complete(1001));
}

#[test]
fn resume_skips_recorded_questions() {
    let qs = vec![
        question("a", QuestionType::MultiSession),
        question("b", QuestionType::MultiSession),
        question("c", QuestionType::MultiSession),
        question("d", QuestionType::MultiSession),
    ];
    assert_eq!(questions_to_evaluate(&qs, 0, &vec![]), vec![0, 1, 2, 3]);
    assert_eq!(questions_to_evaluate(&qs, 2, &vec![]), vec![0, 1]);
    assert_eq!(questions_to_evaluate(&qs, 10, &vec![]), vec![0, 1, 2, 3]);
    assert_eq!(questions_to_evaluate(&qs, 0, &vec!["b".into(), "d".into(), "zz".into()]), vec![0, 2]);
    assert_eq!(questions_to_evaluate(&qs, 3, &vec!["a".into()]), vec![1, 2]);
}
